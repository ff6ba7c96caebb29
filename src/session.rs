use vstd::prelude::*;

use crate::array::ReadError;
use crate::engine::{bind_spec, observe_list_spec, observe_spec, ListTracker, Observation, TrackedEntity};
use crate::game_data::{
    AbilityManager, BossData, Daruma, DarumaManager, EnemiesManager, GameManager, InventoryContainer,
    QuestManager,
};
use crate::ledger::key_views;
use crate::milestones::{
    ability_splits, ability_splits_spec, boss_pairs_splits, boss_pairs_splits_spec, daruma_pairs_splits,
    daruma_pairs_splits_spec, game_manager_splits, game_manager_splits_spec, inventory_splits,
    inventory_splits_spec, quest_splits, quest_splits_spec,
};

verus! {

/// The records behind an observation that changed, if it did.
pub open spec fn change_of<T>(o: Observation<T>) -> Option<(T, T)> {
    match o {
        Observation::Changed { previous, current } => Some((previous, current)),
        _ => None,
    }
}

/// Every record watched during one attachment to the monitored process. The
/// game manager owns the pointers to the other managers, the enemies manager
/// the boss array and the daruma manager the daruma array.
#[derive(Debug)]
pub struct Session {
    pub game_manager: TrackedEntity<GameManager>,
    pub quests: TrackedEntity<QuestManager>,
    pub abilities: TrackedEntity<AbilityManager>,
    pub inventory: TrackedEntity<InventoryContainer>,
    pub enemies: TrackedEntity<EnemiesManager>,
    pub daruma_manager: TrackedEntity<DarumaManager>,
    pub bosses: ListTracker<BossData>,
    pub darumas: ListTracker<Daruma>,
}

impl Session {
    /// A session whose records are all unbound, the game manager bound to `instance`.
    pub fn new(instance: u64) -> (r: Self)
        ensures
            r.game_manager.view() == bind_spec((None::<u64>, None::<GameManager>), instance),
            r.quests.view() == (None::<u64>, None::<QuestManager>),
            r.abilities.view() == (None::<u64>, None::<AbilityManager>),
            r.inventory.view() == (None::<u64>, None::<InventoryContainer>),
            r.enemies.view() == (None::<u64>, None::<EnemiesManager>),
            r.daruma_manager.view() == (None::<u64>, None::<DarumaManager>),
            r.bosses.view() == (None::<u64>, None::<Seq<BossData>>),
            r.darumas.view() == (None::<u64>, None::<Seq<Daruma>>),
    {
        let mut game_manager = TrackedEntity::new();
        game_manager.bind(instance);
        Session {
            game_manager,
            quests: TrackedEntity::new(),
            abilities: TrackedEntity::new(),
            inventory: TrackedEntity::new(),
            enemies: TrackedEntity::new(),
            daruma_manager: TrackedEntity::new(),
            bosses: ListTracker::new(),
            darumas: ListTracker::new(),
        }
    }

    /// The address of the play time record, once the game manager was read.
    pub fn player_data_address(&self) -> (r: Option<u64>)
        ensures
            r == match self.game_manager.view().1 {
                Some(g) => Some(g.player_data_pointer),
                None => None,
            },
    {
        match self.game_manager.snapshot() {
            Some(g) => Some(g.player_data_pointer),
            None => None,
        }
    }

    /// Takes in this tick's read of the game manager, first of all records.
    /// A failed read is an error: the session must be set up again. Else the
    /// managers it points at are bound to its pointers, so that a moved
    /// manager is read as a baseline within this same tick. Returns the
    /// candidate split events of the change.
    pub fn observe_game_manager(&mut self, read: Result<GameManager, ReadError>) -> (r: Result<Vec<String>, ReadError>)
        ensures
            match read {
                Err(e) => r == Err::<Vec<String>, ReadError>(e) && *final(self) == *old(self),
                Ok(_) => {
                    let (g, o) = observe_spec(old(self).game_manager.view(), read);
                    &&& final(self).game_manager.view() == g
                    &&& r.is_ok()
                    &&& key_views(r.unwrap()@) == match change_of(o) {
                        Some((p, c)) => game_manager_splits_spec(p, c),
                        None => Seq::empty(),
                    }
                    &&& match g.1 {
                        Some(gm) => {
                            &&& final(self).quests.view() == bind_spec(old(self).quests.view(), gm.quest_pointer)
                            &&& final(self).abilities.view() == bind_spec(old(self).abilities.view(), gm.ability_pointer)
                            &&& final(self).inventory.view() == bind_spec(old(self).inventory.view(), gm.inventory_pointer)
                            &&& final(self).enemies.view() == bind_spec(old(self).enemies.view(), gm.enemies_pointer)
                            &&& final(self).daruma_manager.view() == bind_spec(old(self).daruma_manager.view(), gm.daruma_pointer)
                        },
                        None => {
                            &&& final(self).quests.view() == old(self).quests.view()
                            &&& final(self).abilities.view() == old(self).abilities.view()
                            &&& final(self).inventory.view() == old(self).inventory.view()
                            &&& final(self).enemies.view() == old(self).enemies.view()
                            &&& final(self).daruma_manager.view() == old(self).daruma_manager.view()
                        },
                    }
                    &&& final(self).bosses.view() == old(self).bosses.view()
                    &&& final(self).darumas.view() == old(self).darumas.view()
                },
            },
    {
        if let Err(e) = read {
            return Err(e);
        }
        let obs = self.game_manager.observe(read);
        let out = match obs {
            Observation::Changed { previous, current } => game_manager_splits(&previous, &current),
            _ => {
                let v: Vec<String> = Vec::new();
                assert(key_views(v@) =~= Seq::<Seq<char>>::empty());
                v
            },
        };
        if let Some(gm) = self.game_manager.snapshot() {
            self.quests.bind(gm.quest_pointer);
            self.abilities.bind(gm.ability_pointer);
            self.inventory.bind(gm.inventory_pointer);
            self.enemies.bind(gm.enemies_pointer);
            self.daruma_manager.bind(gm.daruma_pointer);
        }
        Ok(out)
    }

    /// Takes in this tick's read of the enemies manager, and binds the boss
    /// array to the manager's pointer.
    pub fn observe_enemies(&mut self, read: Result<EnemiesManager, ReadError>)
        ensures
            final(self).enemies.view() == observe_spec(old(self).enemies.view(), read).0,
            final(self).bosses.view() == match final(self).enemies.view().1 {
                Some(em) => bind_spec(old(self).bosses.view(), em.bosses),
                None => old(self).bosses.view(),
            },
    {
        let _ = self.enemies.observe(read);
        if let Some(em) = self.enemies.snapshot() {
            self.bosses.bind(em.bosses);
        }
    }

    /// Takes in this tick's read of the daruma manager, and binds the daruma
    /// array to the manager's pointer.
    pub fn observe_daruma_manager(&mut self, read: Result<DarumaManager, ReadError>)
        ensures
            final(self).daruma_manager.view() == observe_spec(old(self).daruma_manager.view(), read).0,
            final(self).darumas.view() == match final(self).daruma_manager.view().1 {
                Some(dm) => bind_spec(old(self).darumas.view(), dm.all_darumas),
                None => old(self).darumas.view(),
            },
    {
        let _ = self.daruma_manager.observe(read);
        if let Some(dm) = self.daruma_manager.snapshot() {
            self.darumas.bind(dm.all_darumas);
        }
    }
}

/// Takes in this tick's read of the quest manager; returns the candidate split events.
pub fn observe_quests(entity: &mut TrackedEntity<QuestManager>, read: Result<QuestManager, ReadError>) -> (r: Vec<String>)
    ensures
        final(entity).view() == observe_spec(old(entity).view(), read).0,
        key_views(r@) == match change_of(observe_spec(old(entity).view(), read).1) {
            Some((p, c)) => quest_splits_spec(p, c),
            None => Seq::empty(),
        },
{
    match entity.observe(read) {
        Observation::Changed { previous, current } => quest_splits(&previous, &current),
        _ => {
            let v: Vec<String> = Vec::new();
            assert(key_views(v@) =~= Seq::<Seq<char>>::empty());
            v
        },
    }
}

/// Takes in this tick's read of the ability manager; returns the candidate split events.
pub fn observe_abilities(entity: &mut TrackedEntity<AbilityManager>, read: Result<AbilityManager, ReadError>) -> (r: Vec<String>)
    ensures
        final(entity).view() == observe_spec(old(entity).view(), read).0,
        key_views(r@) == match change_of(observe_spec(old(entity).view(), read).1) {
            Some((p, c)) => ability_splits_spec(p, c),
            None => Seq::empty(),
        },
{
    match entity.observe(read) {
        Observation::Changed { previous, current } => ability_splits(&previous, &current),
        _ => {
            let v: Vec<String> = Vec::new();
            assert(key_views(v@) =~= Seq::<Seq<char>>::empty());
            v
        },
    }
}

/// Takes in this tick's read of the inventory; returns the candidate split events.
pub fn observe_inventory(
    entity: &mut TrackedEntity<InventoryContainer>,
    read: Result<InventoryContainer, ReadError>,
) -> (r: Vec<String>)
    ensures
        final(entity).view() == observe_spec(old(entity).view(), read).0,
        key_views(r@) == match change_of(observe_spec(old(entity).view(), read).1) {
            Some((p, c)) => inventory_splits_spec(p, c),
            None => Seq::empty(),
        },
{
    match entity.observe(read) {
        Observation::Changed { previous, current } => inventory_splits(&previous, &current),
        _ => {
            let v: Vec<String> = Vec::new();
            assert(key_views(v@) =~= Seq::<Seq<char>>::empty());
            v
        },
    }
}

/// Takes in this tick's read of the boss array; returns the candidate split events.
pub fn observe_bosses(list: &mut ListTracker<BossData>, read: Result<Vec<BossData>, ReadError>) -> (r: Vec<String>)
    ensures
        ({
            let (l, pairs) = observe_list_spec(
                old(list).view(),
                match read {
                    Ok(v) => Ok(v@),
                    Err(e) => Err(e),
                },
            );
            final(list).view() == l && key_views(r@) == boss_pairs_splits_spec(pairs)
        }),
{
    let pairs = list.observe(read);
    boss_pairs_splits(&pairs)
}

/// Takes in this tick's read of the daruma array; returns the candidate split events.
pub fn observe_darumas(list: &mut ListTracker<Daruma>, read: Result<Vec<Daruma>, ReadError>) -> (r: Vec<String>)
    ensures
        ({
            let (l, pairs) = observe_list_spec(
                old(list).view(),
                match read {
                    Ok(v) => Ok(v@),
                    Err(e) => Err(e),
                },
            );
            final(list).view() == l && key_views(r@) == daruma_pairs_splits_spec(pairs)
        }),
{
    let pairs = list.observe(read);
    daruma_pairs_splits(&pairs)
}

} // verus!
