use vstd::prelude::*;

use crate::engine::{Ranked, Snapshot};

verus! {

// Floating-point fields of the monitored records are held as their raw
// IEEE-754 bit patterns: two reads are equal exactly when the bits are.

/// The boss that a boss record describes.
#[derive(Debug, Clone, Copy, PartialEq, Eq, PartialOrd, Ord, Hash, Structural)]
pub enum BossKind {
    Placeholder,
    KiriKiriBozu,
    PUA,
    Hashihime,
    Yuki,
    Yokozuna,
    Jorogumo,
    KarasuTengu,
    DaiTengu,
    Gasha,
    Asahi,
    Shogun,
    Amaterasu,
}

/// The discriminant of a boss kind, as the monitored process stores it.
pub open spec fn boss_kind_code(k: BossKind) -> nat {
    match k {
        BossKind::Placeholder => 0,
        BossKind::KiriKiriBozu => 1,
        BossKind::PUA => 2,
        BossKind::Hashihime => 3,
        BossKind::Yuki => 4,
        BossKind::Yokozuna => 5,
        BossKind::Jorogumo => 6,
        BossKind::KarasuTengu => 7,
        BossKind::DaiTengu => 8,
        BossKind::Gasha => 9,
        BossKind::Asahi => 10,
        BossKind::Shogun => 11,
        BossKind::Amaterasu => 12,
    }
}

impl BossKind {
    /// The kind stored as `raw`, or `None` for a value that names no kind.
    pub fn from_raw(raw: u32) -> (r: Option<BossKind>)
        ensures
            match r {
                Some(k) => boss_kind_code(k) == raw,
                None => raw > 12,
            },
    {
        match raw {
            0 => Some(BossKind::Placeholder),
            1 => Some(BossKind::KiriKiriBozu),
            2 => Some(BossKind::PUA),
            3 => Some(BossKind::Hashihime),
            4 => Some(BossKind::Yuki),
            5 => Some(BossKind::Yokozuna),
            6 => Some(BossKind::Jorogumo),
            7 => Some(BossKind::KarasuTengu),
            8 => Some(BossKind::DaiTengu),
            9 => Some(BossKind::Gasha),
            10 => Some(BossKind::Asahi),
            11 => Some(BossKind::Shogun),
            12 => Some(BossKind::Amaterasu),
            _ => None,
        }
    }

    /// The value the monitored process stores for this kind.
    pub fn code(&self) -> (r: u32)
        ensures
            r as nat == boss_kind_code(*self),
    {
        match self {
            BossKind::Placeholder => 0,
            BossKind::KiriKiriBozu => 1,
            BossKind::PUA => 2,
            BossKind::Hashihime => 3,
            BossKind::Yuki => 4,
            BossKind::Yokozuna => 5,
            BossKind::Jorogumo => 6,
            BossKind::KarasuTengu => 7,
            BossKind::DaiTengu => 8,
            BossKind::Gasha => 9,
            BossKind::Asahi => 10,
            BossKind::Shogun => 11,
            BossKind::Amaterasu => 12,
        }
    }
}

/// The kind of a daruma record.
#[derive(Debug, Clone, Copy, PartialEq, Eq, PartialOrd, Ord, Hash, Structural)]
pub enum DarumaType {
    /// Chomper
    Bite,
    /// Mamori
    Parry,
    /// Toge-Chan
    Thorns,
    /// Jingu
    Spirits,
    /// Kaboomaru
    Bomb,
    SpinAttack,
    Deprecated1,
    /// Pyro-Kun
    FireWall,
    /// Yuki
    Ice,
    /// Ken
    Boomerang,
}

/// The discriminant of a daruma type, as the monitored process stores it.
pub open spec fn daruma_type_code(t: DarumaType) -> nat {
    match t {
        DarumaType::Bite => 0,
        DarumaType::Parry => 1,
        DarumaType::Thorns => 2,
        DarumaType::Spirits => 3,
        DarumaType::Bomb => 4,
        DarumaType::SpinAttack => 5,
        DarumaType::Deprecated1 => 6,
        DarumaType::FireWall => 7,
        DarumaType::Ice => 8,
        DarumaType::Boomerang => 9,
    }
}

impl DarumaType {
    /// The type stored as `raw`, or `None` for a value that names no type.
    pub fn from_raw(raw: u32) -> (r: Option<DarumaType>)
        ensures
            match r {
                Some(t) => daruma_type_code(t) == raw,
                None => raw > 9,
            },
    {
        match raw {
            0 => Some(DarumaType::Bite),
            1 => Some(DarumaType::Parry),
            2 => Some(DarumaType::Thorns),
            3 => Some(DarumaType::Spirits),
            4 => Some(DarumaType::Bomb),
            5 => Some(DarumaType::SpinAttack),
            6 => Some(DarumaType::Deprecated1),
            7 => Some(DarumaType::FireWall),
            8 => Some(DarumaType::Ice),
            9 => Some(DarumaType::Boomerang),
            _ => None,
        }
    }

    /// The value the monitored process stores for this type.
    pub fn code(&self) -> (r: u32)
        ensures
            r as nat == daruma_type_code(*self),
    {
        match self {
            DarumaType::Bite => 0,
            DarumaType::Parry => 1,
            DarumaType::Thorns => 2,
            DarumaType::Spirits => 3,
            DarumaType::Bomb => 4,
            DarumaType::SpinAttack => 5,
            DarumaType::Deprecated1 => 6,
            DarumaType::FireWall => 7,
            DarumaType::Ice => 8,
            DarumaType::Boomerang => 9,
        }
    }
}

/// One boss of the enemies manager's boss array.
#[derive(Debug, Clone, Copy, PartialEq, Eq, Structural)]
pub struct BossData {
    pub boss_kind: BossKind,
    pub defeated: bool,
    pub in_progress: bool,
    /// Bits of the boss's total health.
    pub total_health_bits: u32,
    pub override_in_progress: bool,
}

/// The manager of enemies: it points at the array of bosses.
#[derive(Debug, Clone, Copy, PartialEq, Eq, Structural)]
pub struct EnemiesManager {
    /// Bits of the current staff damage.
    pub staff_damage_bits: u32,
    /// Address of the managed array of boss records.
    pub bosses: u64,
}

/// One daruma of the daruma manager's array.
#[derive(Debug, Clone, Copy, PartialEq, Eq, Structural)]
pub struct Daruma {
    pub daruma_type: DarumaType,
    pub available: bool,
    pub is_active: bool,
    pub two_eyes: bool,
    pub stage_one_tea_cost: i32,
    pub stage_two_tea_cost: i32,
    pub stage_three_tea_cost: i32,
    pub stage_one_damage_bits: u32,
    pub stage_two_damage_bits: u32,
    pub stage_three_damage_bits: u32,
    pub stage_one_duration_bits: u32,
    pub stage_two_duration_bits: u32,
    pub stage_three_duration_bits: u32,
    pub time_between_hits_bits: u32,
}

/// The manager of darumas: it points at the array of all darumas.
#[derive(Debug, Clone, Copy, PartialEq, Eq, Structural)]
pub struct DarumaManager {
    pub daruma_boost_damage_bits: u32,
    /// Address of the managed array of daruma records.
    pub all_darumas: u64,
}

/// The player's inventory counters.
#[derive(Debug, Clone, Copy, PartialEq, Eq, Structural)]
pub struct InventoryContainer {
    pub feather_keys: i32,
    pub music_sheets: i32,
    pub omamori_straps: i32,
    pub fragile_egg: bool,
    pub reset_new_game: bool,
    pub has_kitsune_kifuda: bool,
    pub base_damage_bits: u32,
    /// Inscrutable tablet fragments collected.
    pub tablets: i32,
}

/// The abilities the player has gained.
#[derive(Debug, Clone, Copy, PartialEq, Eq, Structural)]
pub struct AbilityManager {
    pub can_attack: bool,
    pub can_bat: bool,
    pub can_dash: bool,
    pub can_hover: bool,
    pub can_idash: bool,
    pub can_grapple: bool,
    pub can_hammer_dash: bool,
    pub can_wall_jump: bool,
}

/// The in-game play time.
#[derive(Debug, Clone, Copy, PartialEq, Eq, Structural)]
pub struct BetaPlayerDataManager {
    /// Bits of the seconds played.
    pub time_played_bits: u32,
}

/// Quest progress flags.
#[derive(Debug, Clone, Copy, PartialEq, Eq, Structural)]
pub struct QuestManager {
    pub asahi_staff_start: bool,
    pub asahi_staff_end: bool,
    pub asahi_eye_of_beast_start: bool,
    pub asahi_eye_of_beast_end: bool,
    pub asahi_post_armapillo_boss: bool,
    pub tori_bump_told: bool,
    pub tori_bump_end: bool,
    pub tori_bat_told: bool,
    pub tori_bat_end: bool,
    pub tori_dash_told: bool,
    pub tori_dash_end: bool,
    /// Armapillos collected for Shimeji's quest.
    pub shimeji_armapillos_collect: i32,
    pub shimeji_quest_start: bool,
    pub shimeji_quest_end: bool,
    pub rozus_requiem_start: bool,
    pub rozus_requiem_end: bool,
    pub fox_wedding_start: bool,
    pub fox_wedding_save_groom: bool,
    pub fox_wedding_end: bool,
    pub vermilion_stranger_quest_start: bool,
    pub vermilion_stranger_quest_end: bool,
    pub west_feather_in_keyhole: bool,
    pub east_feather_in_keyhole: bool,
    pub defeat_pua_boss: bool,
    pub defeat_hashihime_boss: bool,
    pub defeat_kaboto_boss: bool,
    pub defeat_spider_boss: bool,
    pub defeat_tengu_boss: bool,
    pub defeat_gash_boss: bool,
    pub defeat_asahi_boss: bool,
    pub defeat_sakura_boss: bool,
    pub credits_roll: bool,
}

/// The game manager: elevator flags and the pointers to every other manager.
#[derive(Debug, Clone, Copy, PartialEq, Eq, Structural)]
pub struct GameManager {
    pub from_main_menu: bool,
    pub elevator_e_up: bool,
    pub elevator_1_up: bool,
    pub elevator_1_down: bool,
    pub elevator_2_up: bool,
    pub elevator_2_down: bool,
    pub elevator_3_up: bool,
    pub elevator_3_down: bool,
    pub vertical_chase_start: bool,
    pub load_game: bool,
    pub from_in_game: bool,
    pub is_quitting: bool,
    pub boss_percentage_bits: u32,
    pub quest_pointer: u64,
    pub ability_pointer: u64,
    pub player_data_pointer: u64,
    pub inventory_pointer: u64,
    pub enemies_pointer: u64,
    pub daruma_pointer: u64,
    pub qa_build: bool,
    pub shrine_pos_x_bits: u32,
    pub shrine_pos_y_bits: u32,
}

impl Snapshot for BossData {
    fn same_as(&self, other: &Self) -> (r: bool) {
        *self == *other
    }
}

impl Ranked for BossData {
    open spec fn rank_spec(&self) -> nat {
        boss_kind_code(self.boss_kind)
    }

    open spec fn rank_count() -> nat {
        13
    }

    proof fn lemma_rank_bound(&self) {
    }

    fn rank(&self) -> (r: u32) {
        self.boss_kind.code()
    }

    fn rank_limit() -> (r: u32) {
        13
    }
}

impl Snapshot for Daruma {
    fn same_as(&self, other: &Self) -> (r: bool) {
        *self == *other
    }
}

impl Ranked for Daruma {
    open spec fn rank_spec(&self) -> nat {
        daruma_type_code(self.daruma_type)
    }

    open spec fn rank_count() -> nat {
        10
    }

    proof fn lemma_rank_bound(&self) {
    }

    fn rank(&self) -> (r: u32) {
        self.daruma_type.code()
    }

    fn rank_limit() -> (r: u32) {
        10
    }
}

impl Snapshot for EnemiesManager {
    fn same_as(&self, other: &Self) -> (r: bool) {
        *self == *other
    }
}

impl Snapshot for DarumaManager {
    fn same_as(&self, other: &Self) -> (r: bool) {
        *self == *other
    }
}

impl Snapshot for InventoryContainer {
    fn same_as(&self, other: &Self) -> (r: bool) {
        *self == *other
    }
}

impl Snapshot for AbilityManager {
    fn same_as(&self, other: &Self) -> (r: bool) {
        *self == *other
    }
}

impl Snapshot for BetaPlayerDataManager {
    fn same_as(&self, other: &Self) -> (r: bool) {
        *self == *other
    }
}

impl Snapshot for QuestManager {
    fn same_as(&self, other: &Self) -> (r: bool) {
        *self == *other
    }
}

impl Snapshot for GameManager {
    fn same_as(&self, other: &Self) -> (r: bool) {
        *self == *other
    }
}

} // verus!
