use vstd::prelude::*;

use crate::game_data::{
    AbilityManager, BossData, BossKind, Daruma, DarumaType, GameManager, InventoryContainer,
    QuestManager,
};
use crate::ledger::key_views;

verus! {

/// Bits of the total health that tells the single Karasu Tengu fight apart.
pub const KARASU_TENGU_SINGLE_HEALTH_BITS: u32 = 0x4305_0000;

/// Bits of the total health that tells the Karasu Tengu duo fight apart.
pub const KARASU_TENGU_DUO_HEALTH_BITS: u32 = 0x4361_0000;

/// A boolean field went from false to true.
pub open spec fn rose(previous: bool, current: bool) -> bool {
    !previous && current
}

/// `s` with `key` appended when `cond` holds.
#[verifier::opaque]
pub open spec fn add_if(s: Seq<Seq<char>>, cond: bool, key: Seq<char>) -> Seq<Seq<char>> {
    if cond {
        s.push(key)
    } else {
        s
    }
}

fn push_if(out: &mut Vec<String>, cond: bool, key: &str)
    ensures
        key_views(final(out)@) == add_if(key_views(old(out)@), cond, key@),
{
    proof {
        reveal(add_if);
    }
    if cond {
        out.push(key.to_owned());
        proof {
            assert(key_views(out@) =~= key_views(old(out)@).push(key@));
        }
    }
}

/// The split events that a change of the game manager raises: each elevator flag that rose.
pub open spec fn game_manager_splits_spec(p: GameManager, c: GameManager) -> Seq<Seq<char>> {
    let s = Seq::<Seq<char>>::empty();
    let s = add_if(s, rose(p.elevator_e_up, c.elevator_e_up), "elevator_e_up"@);
    let s = add_if(s, rose(p.elevator_1_up, c.elevator_1_up), "elevator_1_up"@);
    let s = add_if(s, rose(p.elevator_2_up, c.elevator_2_up), "elevator_2_up"@);
    let s = add_if(s, rose(p.elevator_3_up, c.elevator_3_up), "elevator_3_up"@);
    s
}

/// The split events that a change of the game manager raises: each elevator flag that rose.
pub fn game_manager_splits(p: &GameManager, c: &GameManager) -> (r: Vec<String>)
    ensures
        key_views(r@) == game_manager_splits_spec(*p, *c),
{
    let mut out: Vec<String> = Vec::new();
    assert(key_views(out@) =~= Seq::<Seq<char>>::empty());
    push_if(&mut out, !p.elevator_e_up && c.elevator_e_up, "elevator_e_up");
    push_if(&mut out, !p.elevator_1_up && c.elevator_1_up, "elevator_1_up");
    push_if(&mut out, !p.elevator_2_up && c.elevator_2_up, "elevator_2_up");
    push_if(&mut out, !p.elevator_3_up && c.elevator_3_up, "elevator_3_up");
    out
}

pub open spec fn quest_splits_early(s: Seq<Seq<char>>, p: QuestManager, c: QuestManager) -> Seq<Seq<char>> {
    let s = add_if(s, rose(p.asahi_staff_start, c.asahi_staff_start), "asahi_staff_start"@);
    let s = add_if(s, rose(p.asahi_staff_end, c.asahi_staff_end), "asahi_staff_end"@);
    let s = add_if(s, rose(p.asahi_eye_of_beast_start, c.asahi_eye_of_beast_start), "asahi_eye_of_beast_start"@);
    let s = add_if(s, rose(p.asahi_eye_of_beast_end, c.asahi_eye_of_beast_end), "asahi_eye_of_beast_end"@);
    let s = add_if(s, rose(p.shimeji_quest_start, c.shimeji_quest_start), "shimeji_quest_start"@);
    s
}

fn push_quest_splits_early(out: &mut Vec<String>, p: &QuestManager, c: &QuestManager)
    ensures
        key_views(final(out)@) == quest_splits_early(key_views(old(out)@), *p, *c),
{
    push_if(out, !p.asahi_staff_start && c.asahi_staff_start, "asahi_staff_start");
    push_if(out, !p.asahi_staff_end && c.asahi_staff_end, "asahi_staff_end");
    push_if(out, !p.asahi_eye_of_beast_start && c.asahi_eye_of_beast_start, "asahi_eye_of_beast_start");
    push_if(out, !p.asahi_eye_of_beast_end && c.asahi_eye_of_beast_end, "asahi_eye_of_beast_end");
    push_if(out, !p.shimeji_quest_start && c.shimeji_quest_start, "shimeji_quest_start");
}

pub open spec fn quest_splits_middle(s: Seq<Seq<char>>, p: QuestManager, c: QuestManager) -> Seq<Seq<char>> {
    let s = add_if(s, rose(p.shimeji_quest_end, c.shimeji_quest_end), "shimeji_quest_end"@);
    let s = add_if(s, rose(p.rozus_requiem_start, c.rozus_requiem_start), "rozus_requiem_start"@);
    let s = add_if(s, rose(p.rozus_requiem_end, c.rozus_requiem_end), "rozus_requiem_end"@);
    let s = add_if(s, rose(p.vermilion_stranger_quest_start, c.vermilion_stranger_quest_start), "vermilion_stranger_quest_start"@);
    let s = add_if(s, rose(p.vermilion_stranger_quest_end, c.vermilion_stranger_quest_end), "vermilion_stranger_quest_end"@);
    s
}

fn push_quest_splits_middle(out: &mut Vec<String>, p: &QuestManager, c: &QuestManager)
    ensures
        key_views(final(out)@) == quest_splits_middle(key_views(old(out)@), *p, *c),
{
    push_if(out, !p.shimeji_quest_end && c.shimeji_quest_end, "shimeji_quest_end");
    push_if(out, !p.rozus_requiem_start && c.rozus_requiem_start, "rozus_requiem_start");
    push_if(out, !p.rozus_requiem_end && c.rozus_requiem_end, "rozus_requiem_end");
    push_if(out, !p.vermilion_stranger_quest_start && c.vermilion_stranger_quest_start, "vermilion_stranger_quest_start");
    push_if(out, !p.vermilion_stranger_quest_end && c.vermilion_stranger_quest_end, "vermilion_stranger_quest_end");
}

pub open spec fn quest_splits_late(s: Seq<Seq<char>>, p: QuestManager, c: QuestManager) -> Seq<Seq<char>> {
    let s = add_if(s, rose(p.fox_wedding_start, c.fox_wedding_start), "fox_wedding_start"@);
    let s = add_if(s, rose(p.fox_wedding_end, c.fox_wedding_end), "fox_wedding_end"@);
    let s = add_if(s, rose(p.west_feather_in_keyhole, c.west_feather_in_keyhole), "west_feather_in_keyhole"@);
    let s = add_if(s, rose(p.east_feather_in_keyhole, c.east_feather_in_keyhole), "east_feather_in_keyhole"@);
    let s = add_if(s, rose(p.credits_roll, c.credits_roll), "credits_roll"@);
    s
}

fn push_quest_splits_late(out: &mut Vec<String>, p: &QuestManager, c: &QuestManager)
    ensures
        key_views(final(out)@) == quest_splits_late(key_views(old(out)@), *p, *c),
{
    push_if(out, !p.fox_wedding_start && c.fox_wedding_start, "fox_wedding_start");
    push_if(out, !p.fox_wedding_end && c.fox_wedding_end, "fox_wedding_end");
    push_if(out, !p.west_feather_in_keyhole && c.west_feather_in_keyhole, "west_feather_in_keyhole");
    push_if(out, !p.east_feather_in_keyhole && c.east_feather_in_keyhole, "east_feather_in_keyhole");
    push_if(out, !p.credits_roll && c.credits_roll, "credits_roll");
}

/// The split events that a change of the quest manager raises: each quest flag that rose.
pub open spec fn quest_splits_spec(p: QuestManager, c: QuestManager) -> Seq<Seq<char>> {
    quest_splits_late(quest_splits_middle(quest_splits_early(Seq::empty(), p, c), p, c), p, c)
}

/// The split events that a change of the quest manager raises: each quest flag that rose.
pub fn quest_splits(p: &QuestManager, c: &QuestManager) -> (r: Vec<String>)
    ensures
        key_views(r@) == quest_splits_spec(*p, *c),
{
    let mut out: Vec<String> = Vec::new();
    assert(key_views(out@) =~= Seq::<Seq<char>>::empty());
    push_quest_splits_early(&mut out, p, c);
    push_quest_splits_middle(&mut out, p, c);
    push_quest_splits_late(&mut out, p, c);
    out
}

/// The split events that a change of the ability manager raises: each ability that was gained.
pub open spec fn ability_splits_spec(p: AbilityManager, c: AbilityManager) -> Seq<Seq<char>> {
    let s = Seq::<Seq<char>>::empty();
    let s = add_if(s, rose(p.can_attack, c.can_attack), "can_attack"@);
    let s = add_if(s, rose(p.can_bat, c.can_bat), "can_bat"@);
    let s = add_if(s, rose(p.can_dash, c.can_dash), "can_dash"@);
    let s = add_if(s, rose(p.can_idash, c.can_idash), "can_idash"@);
    let s = add_if(s, rose(p.can_grapple, c.can_grapple), "can_grapple"@);
    let s = add_if(s, rose(p.can_hammer_dash, c.can_hammer_dash), "can_hammer_dash"@);
    let s = add_if(s, rose(p.can_hover, c.can_hover), "can_hover"@);
    let s = add_if(s, rose(p.can_wall_jump, c.can_wall_jump), "can_wall_jump"@);
    s
}

/// The split events that a change of the ability manager raises: each ability that was gained.
pub fn ability_splits(p: &AbilityManager, c: &AbilityManager) -> (r: Vec<String>)
    ensures
        key_views(r@) == ability_splits_spec(*p, *c),
{
    let mut out: Vec<String> = Vec::new();
    assert(key_views(out@) =~= Seq::<Seq<char>>::empty());
    push_if(&mut out, !p.can_attack && c.can_attack, "can_attack");
    push_if(&mut out, !p.can_bat && c.can_bat, "can_bat");
    push_if(&mut out, !p.can_dash && c.can_dash, "can_dash");
    push_if(&mut out, !p.can_idash && c.can_idash, "can_idash");
    push_if(&mut out, !p.can_grapple && c.can_grapple, "can_grapple");
    push_if(&mut out, !p.can_hammer_dash && c.can_hammer_dash, "can_hammer_dash");
    push_if(&mut out, !p.can_hover && c.can_hover, "can_hover");
    push_if(&mut out, !p.can_wall_jump && c.can_wall_jump, "can_wall_jump");
    out
}

/// The split events that a change of the inventory raises: a counter that
/// stepped from one exact value to the next.
pub open spec fn inventory_splits_spec(p: InventoryContainer, c: InventoryContainer) -> Seq<Seq<char>> {
    let s = Seq::<Seq<char>>::empty();
    let s = add_if(s, p.feather_keys == 0 && c.feather_keys == 1, "first_feather_key"@);
    let s = add_if(s, p.feather_keys == 1 && c.feather_keys == 2, "second_feather_key"@);
    let s = add_if(s, p.tablets == 0 && c.tablets == 1, "one_vs_tablet"@);
    let s = add_if(s, p.tablets == 1 && c.tablets == 2, "two_vs_tablet"@);
    let s = add_if(s, p.tablets == 2 && c.tablets == 3, "three_vs_tablet"@);
    let s = add_if(s, p.tablets == 3 && c.tablets == 4, "four_vs_tablet"@);
    let s = add_if(s, p.tablets == 4 && c.tablets == 5, "five_vs_tablet"@);
    s
}

/// The split events that a change of the inventory raises: a counter that
/// stepped from one exact value to the next.
pub fn inventory_splits(p: &InventoryContainer, c: &InventoryContainer) -> (r: Vec<String>)
    ensures
        key_views(r@) == inventory_splits_spec(*p, *c),
{
    let mut out: Vec<String> = Vec::new();
    assert(key_views(out@) =~= Seq::<Seq<char>>::empty());
    push_if(&mut out, p.feather_keys == 0 && c.feather_keys == 1, "first_feather_key");
    push_if(&mut out, p.feather_keys == 1 && c.feather_keys == 2, "second_feather_key");
    push_if(&mut out, p.tablets == 0 && c.tablets == 1, "one_vs_tablet");
    push_if(&mut out, p.tablets == 1 && c.tablets == 2, "two_vs_tablet");
    push_if(&mut out, p.tablets == 2 && c.tablets == 3, "three_vs_tablet");
    push_if(&mut out, p.tablets == 3 && c.tablets == 4, "four_vs_tablet");
    push_if(&mut out, p.tablets == 4 && c.tablets == 5, "five_vs_tablet");
    out
}

/// The split event of a defeated boss of kind `kind` with total health bits
/// `health`, if that boss has one. The two Karasu Tengu fights share a kind
/// and are told apart by their total health.
pub open spec fn boss_split_key(kind: BossKind, health: u32) -> Option<Seq<char>> {
    match kind {
        BossKind::KiriKiriBozu => Some("defeated_kirikiri_boss"@),
        BossKind::PUA => Some("defeated_pua_boss"@),
        BossKind::Hashihime => Some("defeat_hashihime_boss"@),
        BossKind::Yokozuna => Some("defeat_kaboto_boss"@),
        BossKind::Jorogumo => Some("defeat_jorogumo_boss"@),
        BossKind::DaiTengu => Some("defeat_dai_tengu_boss"@),
        BossKind::Gasha => Some("defeat_gash_boss"@),
        BossKind::Asahi => Some("defeat_ashai_boss"@),
        BossKind::Shogun => Some("defeat_sakura_boss"@),
        BossKind::KarasuTengu => if health == KARASU_TENGU_SINGLE_HEALTH_BITS {
            Some("defeat_karasu_tengu_one_boss"@)
        } else if health == KARASU_TENGU_DUO_HEALTH_BITS {
            Some("defeat_karasu_tengu_two_boss"@)
        } else {
            None
        },
        _ => None,
    }
}

/// The split events that a change of one boss record raises: the boss's own
/// event when it became defeated.
pub open spec fn boss_splits_spec(p: BossData, c: BossData) -> Seq<Seq<char>> {
    match boss_split_key(c.boss_kind, c.total_health_bits) {
        Some(k) => add_if(Seq::empty(), rose(p.defeated, c.defeated), k),
        None => Seq::empty(),
    }
}

/// The split event of a defeated boss, as `boss_split_key` gives it.
fn boss_key(kind: BossKind, health: u32) -> (r: Option<&'static str>)
    ensures
        match r {
            Some(k) => boss_split_key(kind, health) == Some(k@),
            None => boss_split_key(kind, health).is_none(),
        },
{
    match kind {
        BossKind::KiriKiriBozu => Some("defeated_kirikiri_boss"),
        BossKind::PUA => Some("defeated_pua_boss"),
        BossKind::Hashihime => Some("defeat_hashihime_boss"),
        BossKind::Yokozuna => Some("defeat_kaboto_boss"),
        BossKind::Jorogumo => Some("defeat_jorogumo_boss"),
        BossKind::DaiTengu => Some("defeat_dai_tengu_boss"),
        BossKind::Gasha => Some("defeat_gash_boss"),
        BossKind::Asahi => Some("defeat_ashai_boss"),
        BossKind::Shogun => Some("defeat_sakura_boss"),
        BossKind::KarasuTengu => if health == KARASU_TENGU_SINGLE_HEALTH_BITS {
            Some("defeat_karasu_tengu_one_boss")
        } else if health == KARASU_TENGU_DUO_HEALTH_BITS {
            Some("defeat_karasu_tengu_two_boss")
        } else {
            None
        },
        _ => None,
    }
}

/// The split events that a change of one boss record raises.
pub fn boss_splits(p: &BossData, c: &BossData) -> (r: Vec<String>)
    ensures
        key_views(r@) == boss_splits_spec(*p, *c),
{
    let mut out: Vec<String> = Vec::new();
    assert(key_views(out@) =~= Seq::<Seq<char>>::empty());
    match boss_key(c.boss_kind, c.total_health_bits) {
        Some(k) => push_if(&mut out, !p.defeated && c.defeated, k),
        None => {},
    }
    out
}

/// The split event of a daruma of type `t`, if it has one.
pub open spec fn daruma_split_key(t: DarumaType) -> Option<Seq<char>> {
    match t {
        DarumaType::Bite => Some("got_chomper_daruma"@),
        DarumaType::Parry => Some("got_mamori_daruma"@),
        DarumaType::Thorns => Some("got_togichan_daruma"@),
        DarumaType::Spirits => Some("got_jingu_daruma"@),
        DarumaType::Bomb => Some("got_kaboomaru_daruma"@),
        DarumaType::FireWall => Some("got_pyro_daruma"@),
        DarumaType::Ice => Some("got_yuki_daruma"@),
        DarumaType::Boomerang => Some("got_ken_daruma"@),
        _ => None,
    }
}

/// The split events that a change of one daruma record raises: the daruma's
/// own event when it became available.
pub open spec fn daruma_splits_spec(p: Daruma, c: Daruma) -> Seq<Seq<char>> {
    match daruma_split_key(c.daruma_type) {
        Some(k) => add_if(Seq::empty(), rose(p.available, c.available), k),
        None => Seq::empty(),
    }
}

fn daruma_key(t: DarumaType) -> (r: Option<&'static str>)
    ensures
        match r {
            Some(k) => daruma_split_key(t) == Some(k@),
            None => daruma_split_key(t).is_none(),
        },
{
    match t {
        DarumaType::Bite => Some("got_chomper_daruma"),
        DarumaType::Parry => Some("got_mamori_daruma"),
        DarumaType::Thorns => Some("got_togichan_daruma"),
        DarumaType::Spirits => Some("got_jingu_daruma"),
        DarumaType::Bomb => Some("got_kaboomaru_daruma"),
        DarumaType::FireWall => Some("got_pyro_daruma"),
        DarumaType::Ice => Some("got_yuki_daruma"),
        DarumaType::Boomerang => Some("got_ken_daruma"),
        _ => None,
    }
}

/// The split events that a change of one daruma record raises.
pub fn daruma_splits(p: &Daruma, c: &Daruma) -> (r: Vec<String>)
    ensures
        key_views(r@) == daruma_splits_spec(*p, *c),
{
    let mut out: Vec<String> = Vec::new();
    assert(key_views(out@) =~= Seq::<Seq<char>>::empty());
    match daruma_key(c.daruma_type) {
        Some(k) => push_if(&mut out, !p.available && c.available, k),
        None => {},
    }
    out
}

/// The split events of a list of changed boss pairs (previous, current), in order.
pub open spec fn boss_pairs_splits_spec(pairs: Seq<(BossData, BossData)>) -> Seq<Seq<char>>
    decreases pairs.len(),
{
    if pairs.len() == 0 {
        Seq::empty()
    } else {
        boss_pairs_splits_spec(pairs.drop_last()) + boss_splits_spec(pairs.last().0, pairs.last().1)
    }
}

/// The split events of a list of changed daruma pairs (previous, current), in order.
pub open spec fn daruma_pairs_splits_spec(pairs: Seq<(Daruma, Daruma)>) -> Seq<Seq<char>>
    decreases pairs.len(),
{
    if pairs.len() == 0 {
        Seq::empty()
    } else {
        daruma_pairs_splits_spec(pairs.drop_last()) + daruma_splits_spec(pairs.last().0, pairs.last().1)
    }
}

/// Appends `more` to `out`.
fn extend(out: &mut Vec<String>, more: Vec<String>)
    ensures
        key_views(final(out)@) == key_views(old(out)@) + key_views(more@),
{
    let mut i: usize = 0;
    while i < more.len()
        invariant
            i <= more@.len(),
            key_views(out@) == key_views(old(out)@) + key_views(more@.subrange(0, i as int)),
        decreases more@.len() - i,
    {
        out.push(more[i].clone());
        proof {
            assert(key_views(more@.subrange(0, i + 1)) =~= key_views(more@.subrange(0, i as int)).push(more@[i as int]@));
            assert(key_views(out@) =~= key_views(out@.drop_last()).push(more@[i as int]@));
            assert(key_views(old(out)@) + key_views(more@.subrange(0, i + 1)) =~= (key_views(old(out)@)
                + key_views(more@.subrange(0, i as int))).push(more@[i as int]@));
        }
        i = i + 1;
    }
    proof {
        assert(more@.subrange(0, i as int) =~= more@);
    }
}

/// The split events of the boss pairs that a boss list tracker reported.
pub fn boss_pairs_splits(pairs: &Vec<(BossData, BossData)>) -> (r: Vec<String>)
    ensures
        key_views(r@) == boss_pairs_splits_spec(pairs@),
{
    let mut out: Vec<String> = Vec::new();
    let mut i: usize = 0;
    while i < pairs.len()
        invariant
            i <= pairs@.len(),
            key_views(out@) == boss_pairs_splits_spec(pairs@.subrange(0, i as int)),
        decreases pairs@.len() - i,
    {
        proof {
            assert(pairs@.subrange(0, i + 1).drop_last() =~= pairs@.subrange(0, i as int));
        }
        let (a, b) = pairs[i];
        let more = boss_splits(&a, &b);
        extend(&mut out, more);
        i = i + 1;
    }
    proof {
        assert(pairs@.subrange(0, i as int) =~= pairs@);
    }
    out
}

/// The split events of the daruma pairs that a daruma list tracker reported.
pub fn daruma_pairs_splits(pairs: &Vec<(Daruma, Daruma)>) -> (r: Vec<String>)
    ensures
        key_views(r@) == daruma_pairs_splits_spec(pairs@),
{
    let mut out: Vec<String> = Vec::new();
    let mut i: usize = 0;
    while i < pairs.len()
        invariant
            i <= pairs@.len(),
            key_views(out@) == daruma_pairs_splits_spec(pairs@.subrange(0, i as int)),
        decreases pairs@.len() - i,
    {
        proof {
            assert(pairs@.subrange(0, i + 1).drop_last() =~= pairs@.subrange(0, i as int));
        }
        let (a, b) = pairs[i];
        let more = daruma_splits(&a, &b);
        extend(&mut out, more);
        i = i + 1;
    }
    proof {
        assert(pairs@.subrange(0, i as int) =~= pairs@);
    }
    out
}

} // verus!
