use bo_autosplitter::game_data::{
    AbilityManager, BossData, BossKind, Daruma, DarumaType, InventoryContainer,
};
use bo_autosplitter::milestones::{
    ability_splits, boss_pairs_splits, boss_splits, daruma_splits, inventory_splits,
    KARASU_TENGU_DUO_HEALTH_BITS, KARASU_TENGU_SINGLE_HEALTH_BITS,
};

fn boss(kind: BossKind, defeated: bool, health: f32) -> BossData {
    BossData {
        boss_kind: kind,
        defeated,
        in_progress: false,
        total_health_bits: health.to_bits(),
        override_in_progress: false,
    }
}

fn abilities() -> AbilityManager {
    AbilityManager {
        can_attack: false,
        can_bat: false,
        can_dash: false,
        can_hover: false,
        can_idash: false,
        can_grapple: false,
        can_hammer_dash: false,
        can_wall_jump: false,
    }
}

fn inventory(feather_keys: i32, tablets: i32) -> InventoryContainer {
    InventoryContainer {
        feather_keys,
        music_sheets: 0,
        omamori_straps: 0,
        fragile_egg: false,
        reset_new_game: false,
        has_kitsune_kifuda: false,
        base_damage_bits: 0,
        tablets,
    }
}

fn daruma(t: DarumaType, available: bool) -> Daruma {
    Daruma {
        daruma_type: t,
        available,
        is_active: false,
        two_eyes: false,
        stage_one_tea_cost: 0,
        stage_two_tea_cost: 0,
        stage_three_tea_cost: 0,
        stage_one_damage_bits: 0,
        stage_two_damage_bits: 0,
        stage_three_damage_bits: 0,
        stage_one_duration_bits: 0,
        stage_two_duration_bits: 0,
        stage_three_duration_bits: 0,
        time_between_hits_bits: 0,
    }
}

#[test]
fn gained_abilities_in_fixed_order() {
    let p = abilities();
    let mut c = abilities();
    c.can_wall_jump = true;
    c.can_dash = true;
    assert_eq!(ability_splits(&p, &c), vec!["can_dash".to_string(), "can_wall_jump".to_string()]);
    assert!(ability_splits(&c, &p).is_empty());
    assert!(ability_splits(&c, &c).is_empty());
}

#[test]
fn inventory_counters_step_exactly() {
    assert_eq!(inventory_splits(&inventory(0, 0), &inventory(1, 0)), vec!["first_feather_key".to_string()]);
    assert_eq!(inventory_splits(&inventory(1, 4), &inventory(2, 5)), vec!["second_feather_key".to_string(), "five_vs_tablet".to_string()]);
    assert!(inventory_splits(&inventory(0, 0), &inventory(2, 2)).is_empty());
    assert_eq!(inventory_splits(&inventory(0, 2), &inventory(0, 3)), vec!["three_vs_tablet".to_string()]);
}

#[test]
fn karasu_tengu_fights_told_apart_by_health() {
    assert_eq!(KARASU_TENGU_SINGLE_HEALTH_BITS, 133.0f32.to_bits());
    assert_eq!(KARASU_TENGU_DUO_HEALTH_BITS, 225.0f32.to_bits());
    let one = boss_splits(&boss(BossKind::KarasuTengu, false, 133.0), &boss(BossKind::KarasuTengu, true, 133.0));
    assert_eq!(one, vec!["defeat_karasu_tengu_one_boss".to_string()]);
    let two = boss_splits(&boss(BossKind::KarasuTengu, false, 225.0), &boss(BossKind::KarasuTengu, true, 225.0));
    assert_eq!(two, vec!["defeat_karasu_tengu_two_boss".to_string()]);
    let other = boss_splits(&boss(BossKind::KarasuTengu, false, 100.0), &boss(BossKind::KarasuTengu, true, 100.0));
    assert!(other.is_empty());
}

#[test]
fn bosses_without_split_raise_nothing() {
    assert!(boss_splits(&boss(BossKind::Yuki, false, 1.0), &boss(BossKind::Yuki, true, 1.0)).is_empty());
    assert!(boss_splits(&boss(BossKind::Amaterasu, false, 1.0), &boss(BossKind::Amaterasu, true, 1.0)).is_empty());
    assert!(boss_splits(&boss(BossKind::Asahi, true, 1.0), &boss(BossKind::Asahi, true, 2.0)).is_empty());
    assert_eq!(
        boss_splits(&boss(BossKind::Shogun, false, 1.0), &boss(BossKind::Shogun, true, 1.0)),
        vec!["defeat_sakura_boss".to_string()]
    );
}

#[test]
fn boss_pairs_concatenate_in_order() {
    let pairs = vec![
        (boss(BossKind::PUA, false, 1.0), boss(BossKind::PUA, true, 1.0)),
        (boss(BossKind::Gasha, false, 1.0), boss(BossKind::Gasha, true, 1.0)),
    ];
    assert_eq!(boss_pairs_splits(&pairs), vec!["defeated_pua_boss".to_string(), "defeat_gash_boss".to_string()]);
}

#[test]
fn daruma_becoming_available() {
    assert_eq!(
        daruma_splits(&daruma(DarumaType::FireWall, false), &daruma(DarumaType::FireWall, true)),
        vec!["got_pyro_daruma".to_string()]
    );
    assert!(daruma_splits(&daruma(DarumaType::SpinAttack, false), &daruma(DarumaType::SpinAttack, true)).is_empty());
}

#[test]
fn raw_kind_codes() {
    assert_eq!(BossKind::from_raw(7), Some(BossKind::KarasuTengu));
    assert_eq!(BossKind::from_raw(13), None);
    assert_eq!(BossKind::Amaterasu.code(), 12);
    assert_eq!(DarumaType::from_raw(9), Some(DarumaType::Boomerang));
    assert_eq!(DarumaType::from_raw(10), None);
    assert_eq!(DarumaType::Ice.code(), 8);
}
