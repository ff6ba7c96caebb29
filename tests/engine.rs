use bo_autosplitter::array::ReadError;
use bo_autosplitter::engine::{sort_by_rank, EntityState, ListTracker, Observation, TrackedEntity};
use bo_autosplitter::game_data::{AbilityManager, BossData, BossKind, Daruma, DarumaType, GameManager, QuestManager};
use bo_autosplitter::ledger::CompletionLedger;
use bo_autosplitter::milestones::boss_splits;
use bo_autosplitter::session::{observe_abilities, observe_bosses, observe_darumas, observe_quests, Session};
use bo_autosplitter::settings::{Category, Settings};

fn boss(kind: BossKind, defeated: bool) -> BossData {
    BossData {
        boss_kind: kind,
        defeated,
        in_progress: false,
        total_health_bits: 0,
        override_in_progress: false,
    }
}

fn daruma(t: DarumaType, available: bool) -> Daruma {
    Daruma {
        daruma_type: t,
        available,
        is_active: false,
        two_eyes: false,
        stage_one_tea_cost: 1,
        stage_two_tea_cost: 2,
        stage_three_tea_cost: 3,
        stage_one_damage_bits: 0,
        stage_two_damage_bits: 0,
        stage_three_damage_bits: 0,
        stage_one_duration_bits: 0,
        stage_two_duration_bits: 0,
        stage_three_duration_bits: 0,
        time_between_hits_bits: 0,
    }
}

fn game_manager(quest_pointer: u64) -> GameManager {
    GameManager {
        from_main_menu: false,
        elevator_e_up: false,
        elevator_1_up: false,
        elevator_1_down: false,
        elevator_2_up: false,
        elevator_2_down: false,
        elevator_3_up: false,
        elevator_3_down: false,
        vertical_chase_start: false,
        load_game: false,
        from_in_game: false,
        is_quitting: false,
        boss_percentage_bits: 0,
        quest_pointer,
        ability_pointer: 0x3000,
        player_data_pointer: 0x4000,
        inventory_pointer: 0x5000,
        enemies_pointer: 0x6000,
        daruma_pointer: 0x7000,
        qa_build: false,
        shrine_pos_x_bits: 0,
        shrine_pos_y_bits: 0,
    }
}

fn quests() -> QuestManager {
    QuestManager {
        asahi_staff_start: false,
        asahi_staff_end: false,
        asahi_eye_of_beast_start: false,
        asahi_eye_of_beast_end: false,
        asahi_post_armapillo_boss: false,
        tori_bump_told: false,
        tori_bump_end: false,
        tori_bat_told: false,
        tori_bat_end: false,
        tori_dash_told: false,
        tori_dash_end: false,
        shimeji_armapillos_collect: 0,
        shimeji_quest_start: false,
        shimeji_quest_end: false,
        rozus_requiem_start: false,
        rozus_requiem_end: false,
        fox_wedding_start: false,
        fox_wedding_save_groom: false,
        fox_wedding_end: false,
        vermilion_stranger_quest_start: false,
        vermilion_stranger_quest_end: false,
        west_feather_in_keyhole: false,
        east_feather_in_keyhole: false,
        defeat_pua_boss: false,
        defeat_hashihime_boss: false,
        defeat_kaboto_boss: false,
        defeat_spider_boss: false,
        defeat_tengu_boss: false,
        defeat_gash_boss: false,
        defeat_asahi_boss: false,
        defeat_sakura_boss: false,
        credits_roll: false,
    }
}

#[test]
fn first_read_is_baseline_then_change_fires_once() {
    let mut entity: TrackedEntity<BossData> = TrackedEntity::new();
    assert_eq!(entity.state(), EntityState::Unbound);
    assert!(entity.bind(0x1000));
    assert_eq!(entity.state(), EntityState::BoundNoSnapshot);
    assert_eq!(entity.address(), Some(0x1000));
    let before = boss(BossKind::Gasha, false);
    assert_eq!(entity.observe(Ok(before)), Observation::Baseline);
    assert_eq!(entity.state(), EntityState::BoundSnapshotted);
    let after = boss(BossKind::Gasha, true);
    let obs = entity.observe(Ok(after));
    assert_eq!(obs, Observation::Changed { previous: before, current: after });
    let candidates = boss_splits(&before, &after);
    assert_eq!(candidates, vec!["defeat_gash_boss".to_string()]);
    let mut settings = Settings::new(Category::AnyPercent);
    settings.set_enabled("defeat_gash_boss".to_string(), true);
    let mut ledger = CompletionLedger::new();
    assert_eq!(ledger.dispatch(&settings, &candidates), candidates);
    assert_eq!(ledger.load(&"defeat_gash_boss".to_string()), Some(true));
    assert_eq!(ledger.dispatch(&settings, &candidates), Vec::<String>::new());
}

#[test]
fn moved_owner_pointer_rebaselines() {
    let mut entity: TrackedEntity<BossData> = TrackedEntity::new();
    entity.bind(0x1000);
    entity.observe(Ok(boss(BossKind::Gasha, false)));
    assert!(entity.bind(0x2000));
    assert_eq!(entity.state(), EntityState::BoundNoSnapshot);
    assert_eq!(entity.address(), Some(0x2000));
    assert_eq!(entity.observe(Ok(boss(BossKind::Gasha, true))), Observation::Baseline);
    assert_eq!(entity.snapshot(), Some(boss(BossKind::Gasha, true)));
}

#[test]
fn unchanged_pointer_and_value_keeps_snapshot() {
    let mut entity: TrackedEntity<BossData> = TrackedEntity::new();
    entity.bind(0x1000);
    let v = boss(BossKind::PUA, false);
    entity.observe(Ok(v));
    assert!(!entity.bind(0x1000));
    assert_eq!(entity.observe(Ok(v)), Observation::Unchanged);
    assert_eq!(entity.snapshot(), Some(v));
}

#[test]
fn failed_read_changes_nothing() {
    let mut entity: TrackedEntity<BossData> = TrackedEntity::new();
    assert_eq!(entity.observe(Ok(boss(BossKind::PUA, false))), Observation::Unbound);
    entity.bind(0x1000);
    let v = boss(BossKind::PUA, false);
    entity.observe(Ok(v));
    assert_eq!(entity.observe(Err(ReadError::ReadFailure)), Observation::Failed(ReadError::ReadFailure));
    assert_eq!(entity.snapshot(), Some(v));
    assert_eq!(entity.state(), EntityState::BoundSnapshotted);
    assert!(entity.bind(0));
    assert_eq!(entity.state(), EntityState::Unbound);
}

#[test]
fn sort_is_stable_by_kind() {
    let list = vec![
        boss(BossKind::Shogun, false),
        boss(BossKind::PUA, true),
        boss(BossKind::Shogun, true),
        boss(BossKind::Placeholder, false),
    ];
    let sorted = sort_by_rank(&list);
    assert_eq!(
        sorted,
        vec![
            boss(BossKind::Placeholder, false),
            boss(BossKind::PUA, true),
            boss(BossKind::Shogun, false),
            boss(BossKind::Shogun, true),
        ]
    );
}

#[test]
fn boss_list_diff_is_order_independent() {
    let mut list: ListTracker<BossData> = ListTracker::new();
    assert!(list.bind(0x9000));
    let first = vec![boss(BossKind::Gasha, false), boss(BossKind::PUA, false)];
    assert!(observe_bosses(&mut list, Ok(first)).is_empty());
    // same content in another order: no change
    let same = vec![boss(BossKind::PUA, false), boss(BossKind::Gasha, false)];
    assert!(observe_bosses(&mut list, Ok(same)).is_empty());
    let later = vec![boss(BossKind::PUA, true), boss(BossKind::Gasha, false)];
    assert_eq!(observe_bosses(&mut list, Ok(later)), vec!["defeated_pua_boss".to_string()]);
    assert!(observe_bosses(&mut list, Err(ReadError::ReadFailure)).is_empty());
    assert_eq!(list.snapshot().unwrap().len(), 2);
}

#[test]
fn new_kind_in_slot_is_a_baseline() {
    let mut list: ListTracker<Daruma> = ListTracker::new();
    list.bind(0x9000);
    observe_darumas(&mut list, Ok(vec![daruma(DarumaType::Ice, false)]));
    let changed = observe_darumas(&mut list, Ok(vec![daruma(DarumaType::Bite, true), daruma(DarumaType::Ice, true)]));
    assert!(changed.is_empty());
    let changed = observe_darumas(&mut list, Ok(vec![daruma(DarumaType::Bite, true), daruma(DarumaType::Ice, true), daruma(DarumaType::Bomb, true)]));
    assert!(changed.is_empty());
}

#[test]
fn session_rebinds_dependents_before_they_are_read() {
    let mut session = Session::new(0x100);
    assert_eq!(session.game_manager.address(), Some(0x100));
    assert_eq!(session.observe_game_manager(Ok(game_manager(0x1000))), Ok(Vec::new()));
    assert_eq!(session.quests.address(), Some(0x1000));
    assert_eq!(session.abilities.address(), Some(0x3000));
    assert_eq!(session.player_data_address(), Some(0x4000));
    let q0 = quests();
    assert!(observe_quests(&mut session.quests, Ok(q0)).is_empty());
    let mut q1 = q0;
    q1.credits_roll = true;
    assert_eq!(observe_quests(&mut session.quests, Ok(q1)), vec!["credits_roll".to_string()]);
    // the quest manager moves: the next read is a baseline
    session.observe_game_manager(Ok(game_manager(0x2000))).unwrap();
    assert_eq!(session.quests.state(), EntityState::BoundNoSnapshot);
    let mut q2 = q1;
    q2.fox_wedding_end = true;
    assert!(observe_quests(&mut session.quests, Ok(q2)).is_empty());
    assert_eq!(session.observe_game_manager(Err(ReadError::ReadFailure)), Err(ReadError::ReadFailure));
}

#[test]
fn elevator_split_from_game_manager() {
    let mut session = Session::new(0x100);
    session.observe_game_manager(Ok(game_manager(0x1000))).unwrap();
    let mut g = game_manager(0x1000);
    g.elevator_2_up = true;
    assert_eq!(session.observe_game_manager(Ok(g)), Ok(vec!["elevator_2_up".to_string()]));
}

#[test]
fn oscillating_field_through_engine_fires_once() {
    let off = AbilityManager {
        can_attack: false,
        can_bat: false,
        can_dash: false,
        can_hover: false,
        can_idash: false,
        can_grapple: false,
        can_hammer_dash: false,
        can_wall_jump: false,
    };
    let on = AbilityManager { can_hover: true, ..off };
    let mut settings = Settings::new(Category::AnyPercent);
    settings.set_enabled("can_hover".to_string(), true);
    let mut ledger = CompletionLedger::new();
    let mut entity: TrackedEntity<AbilityManager> = TrackedEntity::new();
    entity.bind(0x3000);
    let mut fired = Vec::new();
    for value in [off, on, off, on, off, on] {
        let candidates = observe_abilities(&mut entity, Ok(value));
        fired.extend(ledger.dispatch(&settings, &candidates));
    }
    assert_eq!(fired, vec!["can_hover".to_string()]);
    ledger.on_epoch_reset();
    let mut again = Vec::new();
    for value in [off, on] {
        let candidates = observe_abilities(&mut entity, Ok(value));
        again.extend(ledger.dispatch(&settings, &candidates));
    }
    assert_eq!(again, vec!["can_hover".to_string()]);
}
