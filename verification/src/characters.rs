//! The playable cast: each protagonist's identity, schools, element,
//! starting abilities, gear rules, inventory, stats and growth, and the
//! party the player brings.

use vstd::prelude::*;
use crate::ability::MagicSchool;
use crate::ability_id::level_of;
use crate::combat_rules::{distribution_within_budget, ExtraHp, GrowthAttributes, MagicDistribution};
use crate::equipment::{
    AccessoryType, ArmorType, EquipmentLoadout, EquipmentSlotType, EquipmentType, Inventory, WeaponType,
};
use crate::gogyo::{Element, Phase, Polarity};
use crate::stats::{non_negative, CombatStats, StatPool};

verus! {

/// How many characters fight at once: a leader and three companions.
pub const MAX_OBJECTS: usize = 4;

/// One playable protagonist.
#[derive(Clone, Copy, Debug, PartialEq, Eq, Structural)]
pub enum CharacterKind {
    Rina,
    Sayaka,
    Houjou,
    Toshiko,
    Renjiro,
    Suzuka,
    Kanzo,
    Iwao,
    Yuna,
    Magatsu,
}

/// The stable id of each protagonist.
pub open spec fn spec_character_id(k: CharacterKind) -> u32 {
    match k {
        CharacterKind::Rina => 1,
        CharacterKind::Sayaka => 2,
        CharacterKind::Houjou => 3,
        CharacterKind::Toshiko => 4,
        CharacterKind::Renjiro => 5,
        CharacterKind::Suzuka => 6,
        CharacterKind::Kanzo => 7,
        CharacterKind::Iwao => 8,
        CharacterKind::Yuna => 9,
        CharacterKind::Magatsu => 10,
    }
}

/// The name shown for each protagonist.
pub open spec fn spec_display_name(k: CharacterKind) -> Seq<char> {
    match k {
        CharacterKind::Rina => "Rina"@,
        CharacterKind::Sayaka => "Sayaka"@,
        CharacterKind::Houjou => "Houjou Utaka"@,
        CharacterKind::Toshiko => "Toshiko"@,
        CharacterKind::Renjiro => "Renjiro"@,
        CharacterKind::Suzuka => "Suzuka"@,
        CharacterKind::Kanzo => "Kanzo"@,
        CharacterKind::Iwao => "Iwao"@,
        CharacterKind::Yuna => "Yuna"@,
        CharacterKind::Magatsu => "Magatsu"@,
    }
}

/// The class of each protagonist.
pub open spec fn spec_class_label(k: CharacterKind) -> Seq<char> {
    match k {
        CharacterKind::Rina => "Rogue"@,
        CharacterKind::Sayaka => "Cleric"@,
        CharacterKind::Houjou => "Samurai"@,
        CharacterKind::Toshiko => "Vessel"@,
        CharacterKind::Renjiro => "Monk"@,
        CharacterKind::Suzuka => "Onmyoji"@,
        CharacterKind::Kanzo => "Exorcist"@,
        CharacterKind::Iwao => "Bulwark"@,
        CharacterKind::Yuna => "Bikuni"@,
        CharacterKind::Magatsu => "Necromancer"@,
    }
}

/// The magic schools each protagonist has affinity for.
pub open spec fn spec_affinities(k: CharacterKind) -> Seq<MagicSchool> {
    match k {
        CharacterKind::Rina => seq![MagicSchool::Kiho],
        CharacterKind::Sayaka => seq![MagicSchool::Kamishin, MagicSchool::Onmyodo],
        CharacterKind::Houjou => seq![MagicSchool::Kiho, MagicSchool::Yokaijutsu],
        CharacterKind::Toshiko => seq![MagicSchool::Yokaijutsu],
        CharacterKind::Renjiro => seq![MagicSchool::Kiho],
        CharacterKind::Suzuka => seq![MagicSchool::Onmyodo],
        CharacterKind::Kanzo => seq![MagicSchool::Kamishin],
        CharacterKind::Iwao => seq![MagicSchool::Kiho],
        CharacterKind::Yuna => seq![MagicSchool::Kamishin, MagicSchool::Yokaijutsu],
        CharacterKind::Magatsu => seq![MagicSchool::Yokaijutsu, MagicSchool::Onmyodo],
    }
}

/// Each protagonist's natural element on the wheel.
pub open spec fn spec_innate_element(k: CharacterKind) -> Element {
    match k {
        CharacterKind::Rina => Element { phase: Phase::Metal, polarity: Polarity::In },
        CharacterKind::Sayaka => Element { phase: Phase::Earth, polarity: Polarity::Yo },
        CharacterKind::Houjou => Element { phase: Phase::Fire, polarity: Polarity::Yo },
        CharacterKind::Toshiko => Element { phase: Phase::Water, polarity: Polarity::Yo },
        CharacterKind::Renjiro => Element { phase: Phase::Wood, polarity: Polarity::Yo },
        CharacterKind::Suzuka => Element { phase: Phase::Water, polarity: Polarity::In },
        CharacterKind::Kanzo => Element { phase: Phase::Metal, polarity: Polarity::Yo },
        CharacterKind::Iwao => Element { phase: Phase::Earth, polarity: Polarity::In },
        CharacterKind::Yuna => Element { phase: Phase::Wood, polarity: Polarity::In },
        CharacterKind::Magatsu => Element { phase: Phase::Earth, polarity: Polarity::Yo },
    }
}

/// Each protagonist's starting abilities.
pub open spec fn spec_abilities(k: CharacterKind) -> Seq<u16> {
    match k {
        CharacterKind::Rina => seq![20480u16, 20481u16, 20482u16, 20483u16, 20484u16, 20485u16, 20486u16, 20487u16, 20488u16, 20489u16, 20490u16, 20491u16, 20492u16, 20493u16],
        CharacterKind::Sayaka => seq![22528u16, 22529u16, 22530u16, 22531u16, 22532u16, 22533u16, 22534u16, 22535u16, 22536u16, 22537u16, 22538u16],
        CharacterKind::Houjou => seq![24576u16, 24577u16, 24578u16, 24579u16, 24580u16, 24581u16, 24582u16, 24583u16, 24584u16, 24585u16, 24586u16, 24587u16, 24588u16],
        CharacterKind::Toshiko => seq![26624u16, 26625u16, 26626u16, 26627u16, 26628u16, 26629u16, 26630u16, 26631u16, 26632u16, 26633u16, 26634u16, 26635u16, 26636u16, 26637u16],
        CharacterKind::Renjiro => seq![28672u16, 28673u16, 28674u16, 28675u16, 28676u16, 28677u16, 28704u16, 28705u16, 28706u16, 28707u16, 28708u16, 28709u16],
        CharacterKind::Suzuka => seq![28680u16, 28681u16, 28682u16, 28683u16, 28684u16, 28685u16, 28686u16, 28687u16, 28712u16, 28713u16, 28714u16, 28715u16, 28716u16, 28717u16, 28718u16, 28719u16],
        CharacterKind::Kanzo => seq![28688u16, 28689u16, 28690u16, 28691u16, 28692u16, 28693u16, 28720u16, 28721u16, 28722u16, 28723u16, 28724u16, 28725u16],
        CharacterKind::Iwao => seq![18432u16, 18433u16, 18434u16, 18435u16, 18436u16, 18437u16],
        CharacterKind::Yuna => seq![16384u16, 16385u16, 16386u16, 16387u16, 16388u16, 16389u16],
        CharacterKind::Magatsu => seq![14336u16, 14337u16, 14338u16, 14339u16, 14340u16, 14341u16],
    }
}

/// Each protagonist's starting items.
pub open spec fn spec_inventory(k: CharacterKind) -> Seq<u16> {
    match k {
        CharacterKind::Rina => seq![1001u16],
        CharacterKind::Sayaka => seq![5001u16],
        CharacterKind::Houjou => seq![],
        CharacterKind::Toshiko => seq![1002u16],
        CharacterKind::Renjiro => seq![],
        CharacterKind::Suzuka => seq![],
        CharacterKind::Kanzo => seq![],
        CharacterKind::Iwao => seq![],
        CharacterKind::Yuna => seq![],
        CharacterKind::Magatsu => seq![],
    }
}

/// Each protagonist's growth profile.
pub open spec fn spec_growth(k: CharacterKind) -> GrowthAttributes {
    match k {
        CharacterKind::Rina => GrowthAttributes { vitality: 8, endurance: 4, spirit: 6, power: 11, control: 11, celerity: 13, reflex: 13, insight: 6, resolve: 8, magic_distribution: MagicDistribution { kiho: 18, onmyodo: 0, yokaijutsu: 0, kamishin: 0 } },
        CharacterKind::Sayaka => GrowthAttributes { vitality: 9, endurance: 10, spirit: 12, power: 6, control: 8, celerity: 8, reflex: 9, insight: 12, resolve: 9, magic_distribution: MagicDistribution { kiho: 0, onmyodo: 16, yokaijutsu: 0, kamishin: 20 } },
        CharacterKind::Houjou => GrowthAttributes { vitality: 12, endurance: 6, spirit: 5, power: 13, control: 10, celerity: 7, reflex: 8, insight: 6, resolve: 12, magic_distribution: MagicDistribution { kiho: 9, onmyodo: 0, yokaijutsu: 6, kamishin: 0 } },
        CharacterKind::Toshiko => GrowthAttributes { vitality: 8, endurance: 6, spirit: 12, power: 8, control: 8, celerity: 9, reflex: 9, insight: 12, resolve: 8, magic_distribution: MagicDistribution { kiho: 0, onmyodo: 0, yokaijutsu: 36, kamishin: 0 } },
        CharacterKind::Renjiro => GrowthAttributes { vitality: 11, endurance: 6, spirit: 7, power: 11, control: 9, celerity: 12, reflex: 11, insight: 6, resolve: 11, magic_distribution: MagicDistribution { kiho: 21, onmyodo: 0, yokaijutsu: 0, kamishin: 0 } },
        CharacterKind::Suzuka => GrowthAttributes { vitality: 8, endurance: 6, spirit: 13, power: 6, control: 11, celerity: 8, reflex: 9, insight: 13, resolve: 9, magic_distribution: MagicDistribution { kiho: 0, onmyodo: 39, yokaijutsu: 0, kamishin: 0 } },
        CharacterKind::Kanzo => GrowthAttributes { vitality: 7, endurance: 6, spirit: 13, power: 6, control: 11, celerity: 8, reflex: 8, insight: 13, resolve: 9, magic_distribution: MagicDistribution { kiho: 0, onmyodo: 0, yokaijutsu: 0, kamishin: 39 } },
        CharacterKind::Iwao => GrowthAttributes { vitality: 14, endurance: 8, spirit: 5, power: 11, control: 9, celerity: 5, reflex: 5, insight: 6, resolve: 13, magic_distribution: MagicDistribution { kiho: 15, onmyodo: 0, yokaijutsu: 0, kamishin: 0 } },
        CharacterKind::Yuna => GrowthAttributes { vitality: 10, endurance: 8, spirit: 12, power: 6, control: 9, celerity: 8, reflex: 9, insight: 12, resolve: 10, magic_distribution: MagicDistribution { kiho: 0, onmyodo: 0, yokaijutsu: 18, kamishin: 18 } },
        CharacterKind::Magatsu => GrowthAttributes { vitality: 8, endurance: 8, spirit: 13, power: 7, control: 10, celerity: 8, reflex: 8, insight: 13, resolve: 8, magic_distribution: MagicDistribution { kiho: 0, onmyodo: 18, yokaijutsu: 21, kamishin: 0 } },
    }
}

/// The slots each protagonist has and what each takes.
pub open spec fn spec_loadout(k: CharacterKind) -> Seq<(EquipmentSlotType, Seq<EquipmentType>)> {
    match k {
        CharacterKind::Rina => seq![(EquipmentSlotType::Weapon, seq![EquipmentType::Weapon(WeaponType::Dagger)]), (EquipmentSlotType::Armor, seq![EquipmentType::Armor(ArmorType::LightArmor)]), (EquipmentSlotType::Accessory, seq![EquipmentType::Accessory(AccessoryType::Ring)]), (EquipmentSlotType::Accessory, seq![EquipmentType::Accessory(AccessoryType::Charm)])],
        CharacterKind::Sayaka => seq![(EquipmentSlotType::Weapon, seq![EquipmentType::Weapon(WeaponType::Staff)]), (EquipmentSlotType::Armor, seq![EquipmentType::Armor(ArmorType::Robe)]), (EquipmentSlotType::Accessory, seq![EquipmentType::Accessory(AccessoryType::Charm)])],
        CharacterKind::Houjou => seq![(EquipmentSlotType::Weapon, seq![EquipmentType::Weapon(WeaponType::Sword)]), (EquipmentSlotType::Armor, seq![EquipmentType::Armor(ArmorType::HeavyArmor)]), (EquipmentSlotType::Accessory, seq![EquipmentType::Accessory(AccessoryType::Charm)])],
        CharacterKind::Toshiko => seq![(EquipmentSlotType::Weapon, seq![EquipmentType::Weapon(WeaponType::Staff)]), (EquipmentSlotType::Armor, seq![EquipmentType::Armor(ArmorType::Robe)]), (EquipmentSlotType::Accessory, seq![EquipmentType::Accessory(AccessoryType::Charm), EquipmentType::Accessory(AccessoryType::Relic)])],
        CharacterKind::Renjiro => seq![(EquipmentSlotType::Weapon, seq![EquipmentType::Weapon(WeaponType::Naginata), EquipmentType::Weapon(WeaponType::Bow)]), (EquipmentSlotType::Armor, seq![EquipmentType::Armor(ArmorType::Robe), EquipmentType::Armor(ArmorType::LightArmor)]), (EquipmentSlotType::Accessory, seq![EquipmentType::Accessory(AccessoryType::Charm)])],
        CharacterKind::Suzuka => seq![(EquipmentSlotType::Weapon, seq![EquipmentType::Weapon(WeaponType::Staff)]), (EquipmentSlotType::Armor, seq![EquipmentType::Armor(ArmorType::Robe)]), (EquipmentSlotType::Accessory, seq![EquipmentType::Accessory(AccessoryType::Charm), EquipmentType::Accessory(AccessoryType::Relic)])],
        CharacterKind::Kanzo => seq![(EquipmentSlotType::Weapon, seq![EquipmentType::Weapon(WeaponType::Staff)]), (EquipmentSlotType::Armor, seq![EquipmentType::Armor(ArmorType::Robe)]), (EquipmentSlotType::Accessory, seq![EquipmentType::Accessory(AccessoryType::Charm), EquipmentType::Accessory(AccessoryType::Relic)])],
        CharacterKind::Iwao => seq![(EquipmentSlotType::Weapon, seq![EquipmentType::Weapon(WeaponType::Tetsubo)]), (EquipmentSlotType::Armor, seq![EquipmentType::Armor(ArmorType::HeavyArmor), EquipmentType::Armor(ArmorType::Shield)]), (EquipmentSlotType::Accessory, seq![EquipmentType::Accessory(AccessoryType::Charm)])],
        CharacterKind::Yuna => seq![(EquipmentSlotType::Weapon, seq![EquipmentType::Weapon(WeaponType::Staff)]), (EquipmentSlotType::Armor, seq![EquipmentType::Armor(ArmorType::Robe)]), (EquipmentSlotType::Accessory, seq![EquipmentType::Accessory(AccessoryType::Charm), EquipmentType::Accessory(AccessoryType::Relic)])],
        CharacterKind::Magatsu => seq![(EquipmentSlotType::Weapon, seq![EquipmentType::Weapon(WeaponType::Staff)]), (EquipmentSlotType::Armor, seq![EquipmentType::Armor(ArmorType::Robe)]), (EquipmentSlotType::Accessory, seq![EquipmentType::Accessory(AccessoryType::Charm), EquipmentType::Accessory(AccessoryType::Relic)])],
    }
}

/// A full pool with ceiling `base` (negative as 0).
pub open spec fn full(base: int) -> StatPool<i32> {
    StatPool { current: non_negative(base) as i32, base: non_negative(base) as i32 }
}

/// A starting stat block from its numbers (magic in hundredths).
pub open spec fn stat_block(
    ap: int,
    n: Seq<int>,
) -> CombatStats {
    CombatStats {
        health: full(n[0]),
        morale: full(n[1]),
        action_points: full(ap),
        movement: full(n[2]),
        kiho: full(n[3]),
        onmyodo: full(n[4]),
        yokaijutsu: full(n[5]),
        kamishin: full(n[6]),
        lethality: full(n[7]),
        hit: full(n[8]),
        armor: full(n[9]),
        speed: full(n[10]),
        evasion: full(n[11]),
        mind: full(n[12]),
        health_per_rest_hour: n[13] as i32,
        morale_per_rest_hour: n[14] as i32,
        kiho_per_rest_hour: n[15] as i32,
        onmyodo_per_rest_hour: n[16] as i32,
        yokaijutsu_per_rest_hour: n[17] as i32,
        kamishin_per_rest_hour: n[18] as i32,
    }
}

/// Each protagonist's starting stat numbers: health, morale, movement, the
/// four magic pools (hundredths), lethality, hit, armour, speed, evasion,
/// mind, and the per-rest-hour regen of health, morale and the four schools
/// (magic in hundredths).
pub open spec fn stat_numbers(k: CharacterKind) -> Seq<int> {
    match k {
        CharacterKind::Rina => seq![41, 62, 7, 400, 0, 0, 0, 25, 32, 7, 37, 37, 3, 1, 4, 25, 0, 0, 0],
        CharacterKind::Sayaka => seq![52, 70, 5, 0, 500, 0, 600, 12, 20, 10, 18, 18, 22, 2, 5, 0, 50, 0, 60],
        CharacterKind::Houjou => seq![68, 55, 5, 200, 0, 300, 0, 34, 28, 18, 22, 22, 8, 2, 3, 15, 0, 20, 0],
        CharacterKind::Toshiko => seq![44, 48, 5, 0, 0, 500, 0, 16, 18, 6, 20, 20, 20, 1, 3, 0, 0, 50, 0],
        CharacterKind::Renjiro => seq![58, 60, 6, 500, 0, 0, 0, 28, 26, 12, 30, 26, 6, 2, 4, 50, 0, 0, 0],
        CharacterKind::Suzuka => seq![46, 64, 5, 0, 600, 0, 0, 9, 24, 7, 18, 18, 24, 1, 5, 0, 60, 0, 0],
        CharacterKind::Kanzo => seq![40, 64, 5, 0, 0, 0, 600, 8, 30, 5, 17, 16, 24, 1, 5, 0, 0, 0, 60],
        CharacterKind::Iwao => seq![90, 70, 4, 300, 0, 0, 0, 20, 24, 28, 8, 6, 6, 3, 4, 30, 0, 0, 0],
        CharacterKind::Yuna => seq![58, 64, 5, 0, 0, 400, 500, 10, 22, 9, 16, 16, 22, 2, 5, 0, 0, 40, 50],
        CharacterKind::Magatsu => seq![48, 54, 5, 0, 500, 500, 0, 10, 24, 7, 17, 16, 24, 1, 3, 0, 40, 40, 0],
    }
}

/// Each protagonist's starting stat block, with `ap` the default action
/// points (the rogue gets one more).
pub open spec fn spec_combat_stats(k: CharacterKind, ap: i32) -> CombatStats {
    stat_block(if k is Rina { ap + 1 } else { ap as int }, stat_numbers(k))
}

fn pool(base: i32) -> (r: StatPool<i32>)
    ensures
        r == full(base as int),
{
    StatPool::new(base)
}

pub(crate) fn stat_block_exec(ap: i32, n: &[i32; 19]) -> (r: CombatStats)
    ensures
        r == stat_block(ap as int, Seq::new(19, |i: int| n@[i] as int)),
{
    let r = CombatStats {
        health: pool(n[0]),
        morale: pool(n[1]),
        action_points: pool(ap),
        movement: pool(n[2]),
        kiho: pool(n[3]),
        onmyodo: pool(n[4]),
        yokaijutsu: pool(n[5]),
        kamishin: pool(n[6]),
        lethality: pool(n[7]),
        hit: pool(n[8]),
        armor: pool(n[9]),
        speed: pool(n[10]),
        evasion: pool(n[11]),
        mind: pool(n[12]),
        health_per_rest_hour: n[13],
        morale_per_rest_hour: n[14],
        kiho_per_rest_hour: n[15],
        onmyodo_per_rest_hour: n[16],
        yokaijutsu_per_rest_hour: n[17],
        kamishin_per_rest_hour: n[18],
    };
    r
}

impl CharacterKind {
    /// Every protagonist, in roster order.
    pub fn all() -> (r: Vec<CharacterKind>)
        ensures
            r@ == seq![CharacterKind::Rina, CharacterKind::Sayaka, CharacterKind::Houjou, CharacterKind::Toshiko, CharacterKind::Renjiro, CharacterKind::Suzuka, CharacterKind::Kanzo, CharacterKind::Iwao, CharacterKind::Yuna, CharacterKind::Magatsu],
    {
        vec![CharacterKind::Rina, CharacterKind::Sayaka, CharacterKind::Houjou, CharacterKind::Toshiko, CharacterKind::Renjiro, CharacterKind::Suzuka, CharacterKind::Kanzo, CharacterKind::Iwao, CharacterKind::Yuna, CharacterKind::Magatsu]
    }

    /// The protagonist's stable id (1 to 10 in roster order).
    pub fn character_id(self) -> (r: u32)
        ensures
            r == spec_character_id(self),
    {
        match self {
            CharacterKind::Rina => 1,
            CharacterKind::Sayaka => 2,
            CharacterKind::Houjou => 3,
            CharacterKind::Toshiko => 4,
            CharacterKind::Renjiro => 5,
            CharacterKind::Suzuka => 6,
            CharacterKind::Kanzo => 7,
            CharacterKind::Iwao => 8,
            CharacterKind::Yuna => 9,
            CharacterKind::Magatsu => 10,
        }
    }

    /// The protagonist's shown name.
    pub fn display_name(self) -> (r: &'static str)
        ensures
            r@ == spec_display_name(self),
    {
        match self {
            CharacterKind::Rina => "Rina",
            CharacterKind::Sayaka => "Sayaka",
            CharacterKind::Houjou => "Houjou Utaka",
            CharacterKind::Toshiko => "Toshiko",
            CharacterKind::Renjiro => "Renjiro",
            CharacterKind::Suzuka => "Suzuka",
            CharacterKind::Kanzo => "Kanzo",
            CharacterKind::Iwao => "Iwao",
            CharacterKind::Yuna => "Yuna",
            CharacterKind::Magatsu => "Magatsu",
        }
    }

    /// The protagonist's class.
    pub fn class_label(self) -> (r: &'static str)
        ensures
            r@ == spec_class_label(self),
    {
        match self {
            CharacterKind::Rina => "Rogue",
            CharacterKind::Sayaka => "Cleric",
            CharacterKind::Houjou => "Samurai",
            CharacterKind::Toshiko => "Vessel",
            CharacterKind::Renjiro => "Monk",
            CharacterKind::Suzuka => "Onmyoji",
            CharacterKind::Kanzo => "Exorcist",
            CharacterKind::Iwao => "Bulwark",
            CharacterKind::Yuna => "Bikuni",
            CharacterKind::Magatsu => "Necromancer",
        }
    }

    /// The magic schools the protagonist has affinity for.
    pub fn magic_affinities(self) -> (r: Vec<MagicSchool>)
        ensures
            r@ == spec_affinities(self),
    {
        match self {
            CharacterKind::Rina => vec![MagicSchool::Kiho],
            CharacterKind::Sayaka => vec![MagicSchool::Kamishin, MagicSchool::Onmyodo],
            CharacterKind::Houjou => vec![MagicSchool::Kiho, MagicSchool::Yokaijutsu],
            CharacterKind::Toshiko => vec![MagicSchool::Yokaijutsu],
            CharacterKind::Renjiro => vec![MagicSchool::Kiho],
            CharacterKind::Suzuka => vec![MagicSchool::Onmyodo],
            CharacterKind::Kanzo => vec![MagicSchool::Kamishin],
            CharacterKind::Iwao => vec![MagicSchool::Kiho],
            CharacterKind::Yuna => vec![MagicSchool::Kamishin, MagicSchool::Yokaijutsu],
            CharacterKind::Magatsu => vec![MagicSchool::Yokaijutsu, MagicSchool::Onmyodo],
        }
    }

    /// The protagonist's natural element on the wheel.
    pub fn innate_element(self) -> (r: Element)
        ensures
            r == spec_innate_element(self),
    {
        let (phase, polarity) = match self {
            CharacterKind::Rina => (Phase::Metal, Polarity::In),
            CharacterKind::Sayaka => (Phase::Earth, Polarity::Yo),
            CharacterKind::Houjou => (Phase::Fire, Polarity::Yo),
            CharacterKind::Toshiko => (Phase::Water, Polarity::Yo),
            CharacterKind::Renjiro => (Phase::Wood, Polarity::Yo),
            CharacterKind::Suzuka => (Phase::Water, Polarity::In),
            CharacterKind::Kanzo => (Phase::Metal, Polarity::Yo),
            CharacterKind::Iwao => (Phase::Earth, Polarity::In),
            CharacterKind::Yuna => (Phase::Wood, Polarity::In),
            CharacterKind::Magatsu => (Phase::Earth, Polarity::Yo),
        };
        Element { phase, polarity }
    }

    /// The protagonist's starting abilities, by packed id.
    pub fn abilities(self) -> (r: Vec<u16>)
        ensures
            r@ == spec_abilities(self),
    {
        let r = match self {
            CharacterKind::Rina => vec![20480, 20481, 20482, 20483, 20484, 20485, 20486, 20487, 20488, 20489, 20490, 20491, 20492, 20493],
            CharacterKind::Sayaka => vec![22528, 22529, 22530, 22531, 22532, 22533, 22534, 22535, 22536, 22537, 22538],
            CharacterKind::Houjou => vec![24576, 24577, 24578, 24579, 24580, 24581, 24582, 24583, 24584, 24585, 24586, 24587, 24588],
            CharacterKind::Toshiko => vec![26624, 26625, 26626, 26627, 26628, 26629, 26630, 26631, 26632, 26633, 26634, 26635, 26636, 26637],
            CharacterKind::Renjiro => vec![28672, 28673, 28674, 28675, 28676, 28677, 28704, 28705, 28706, 28707, 28708, 28709],
            CharacterKind::Suzuka => vec![28680, 28681, 28682, 28683, 28684, 28685, 28686, 28687, 28712, 28713, 28714, 28715, 28716, 28717, 28718, 28719],
            CharacterKind::Kanzo => vec![28688, 28689, 28690, 28691, 28692, 28693, 28720, 28721, 28722, 28723, 28724, 28725],
            CharacterKind::Iwao => vec![18432, 18433, 18434, 18435, 18436, 18437],
            CharacterKind::Yuna => vec![16384, 16385, 16386, 16387, 16388, 16389],
            CharacterKind::Magatsu => vec![14336, 14337, 14338, 14339, 14340, 14341],
        };
        proof {
            assert(r@ =~= spec_abilities(self));
        }
        r
    }

    /// The slots the protagonist has, each taking only the listed item kinds;
    /// nothing is worn yet.
    pub fn equipment_loadout(self) -> (r: EquipmentLoadout)
        ensures
            r.slots@.len() == spec_loadout(self).len(),
            forall|i: int|
                0 <= i < r.slots@.len() ==> {
                    let s = #[trigger] r.slots@[i];
                    &&& s.slot_type == spec_loadout(self)[i].0
                    &&& s.allowed_types@ == spec_loadout(self)[i].1
                    &&& s.equipped is None
                },
    {
        let slots: Vec<(EquipmentSlotType, Vec<EquipmentType>)> = match self {
            CharacterKind::Rina => vec![
                (EquipmentSlotType::Weapon, vec![EquipmentType::Weapon(WeaponType::Dagger)]),
                (EquipmentSlotType::Armor, vec![EquipmentType::Armor(ArmorType::LightArmor)]),
                (EquipmentSlotType::Accessory, vec![EquipmentType::Accessory(AccessoryType::Ring)]),
                (EquipmentSlotType::Accessory, vec![EquipmentType::Accessory(AccessoryType::Charm)]),
            ],
            CharacterKind::Sayaka => vec![
                (EquipmentSlotType::Weapon, vec![EquipmentType::Weapon(WeaponType::Staff)]),
                (EquipmentSlotType::Armor, vec![EquipmentType::Armor(ArmorType::Robe)]),
                (EquipmentSlotType::Accessory, vec![EquipmentType::Accessory(AccessoryType::Charm)]),
            ],
            CharacterKind::Houjou => vec![
                (EquipmentSlotType::Weapon, vec![EquipmentType::Weapon(WeaponType::Sword)]),
                (EquipmentSlotType::Armor, vec![EquipmentType::Armor(ArmorType::HeavyArmor)]),
                (EquipmentSlotType::Accessory, vec![EquipmentType::Accessory(AccessoryType::Charm)]),
            ],
            CharacterKind::Toshiko => vec![
                (EquipmentSlotType::Weapon, vec![EquipmentType::Weapon(WeaponType::Staff)]),
                (EquipmentSlotType::Armor, vec![EquipmentType::Armor(ArmorType::Robe)]),
                (EquipmentSlotType::Accessory, vec![EquipmentType::Accessory(AccessoryType::Charm), EquipmentType::Accessory(AccessoryType::Relic)]),
            ],
            CharacterKind::Renjiro => vec![
                (EquipmentSlotType::Weapon, vec![EquipmentType::Weapon(WeaponType::Naginata), EquipmentType::Weapon(WeaponType::Bow)]),
                (EquipmentSlotType::Armor, vec![EquipmentType::Armor(ArmorType::Robe), EquipmentType::Armor(ArmorType::LightArmor)]),
                (EquipmentSlotType::Accessory, vec![EquipmentType::Accessory(AccessoryType::Charm)]),
            ],
            CharacterKind::Suzuka => vec![
                (EquipmentSlotType::Weapon, vec![EquipmentType::Weapon(WeaponType::Staff)]),
                (EquipmentSlotType::Armor, vec![EquipmentType::Armor(ArmorType::Robe)]),
                (EquipmentSlotType::Accessory, vec![EquipmentType::Accessory(AccessoryType::Charm), EquipmentType::Accessory(AccessoryType::Relic)]),
            ],
            CharacterKind::Kanzo => vec![
                (EquipmentSlotType::Weapon, vec![EquipmentType::Weapon(WeaponType::Staff)]),
                (EquipmentSlotType::Armor, vec![EquipmentType::Armor(ArmorType::Robe)]),
                (EquipmentSlotType::Accessory, vec![EquipmentType::Accessory(AccessoryType::Charm), EquipmentType::Accessory(AccessoryType::Relic)]),
            ],
            CharacterKind::Iwao => vec![
                (EquipmentSlotType::Weapon, vec![EquipmentType::Weapon(WeaponType::Tetsubo)]),
                (EquipmentSlotType::Armor, vec![EquipmentType::Armor(ArmorType::HeavyArmor), EquipmentType::Armor(ArmorType::Shield)]),
                (EquipmentSlotType::Accessory, vec![EquipmentType::Accessory(AccessoryType::Charm)]),
            ],
            CharacterKind::Yuna => vec![
                (EquipmentSlotType::Weapon, vec![EquipmentType::Weapon(WeaponType::Staff)]),
                (EquipmentSlotType::Armor, vec![EquipmentType::Armor(ArmorType::Robe)]),
                (EquipmentSlotType::Accessory, vec![EquipmentType::Accessory(AccessoryType::Charm), EquipmentType::Accessory(AccessoryType::Relic)]),
            ],
            CharacterKind::Magatsu => vec![
                (EquipmentSlotType::Weapon, vec![EquipmentType::Weapon(WeaponType::Staff)]),
                (EquipmentSlotType::Armor, vec![EquipmentType::Armor(ArmorType::Robe)]),
                (EquipmentSlotType::Accessory, vec![EquipmentType::Accessory(AccessoryType::Charm), EquipmentType::Accessory(AccessoryType::Relic)]),
            ],
        };
        let ghost input = slots@;
        proof {
            assert(input.len() == spec_loadout(self).len());
            assert forall|i: int| 0 <= i < input.len() implies input[i].0 == spec_loadout(self)[i].0
                && input[i].1@ == spec_loadout(self)[i].1 by {
                assert(input[i].1@ =~= spec_loadout(self)[i].1);
            }
        }
        EquipmentLoadout::with_allowed_types(slots)
    }

    /// The protagonist's starting items.
    pub fn inventory(self) -> (r: Inventory)
        ensures
            r.item_ids@ == spec_inventory(self),
    {
        let item_ids: Vec<u16> = match self {
            CharacterKind::Rina => vec![1001],
            CharacterKind::Sayaka => vec![5001],
            CharacterKind::Toshiko => vec![1002],
            _ => Vec::new(),
        };
        proof {
            assert(item_ids@ =~= spec_inventory(self));
        }
        Inventory { item_ids }
    }

    /// The vessel's Kuro pact: a separate 40-point shield; nobody else has
    /// one.
    pub fn extra_hp(self) -> (r: Option<ExtraHp>)
        ensures
            r == if self is Toshiko {
                Some(ExtraHp { current: 40, max: 40 })
            } else {
                None::<ExtraHp>
            },
    {
        match self {
            CharacterKind::Toshiko => Some(ExtraHp { current: 40, max: 40 }),
            _ => None,
        }
    }

    /// The protagonist's starting stat block, every pool full, with
    /// `default_action_points` action points (one more for the rogue).
    pub fn combat_stats(self, default_action_points: i32) -> (r: CombatStats)
        requires
            default_action_points < i32::MAX,
        ensures
            r == spec_combat_stats(self, default_action_points),
    {
        let ap: i32 = match self {
            CharacterKind::Rina => default_action_points + 1,
            _ => default_action_points,
        };
        let n: [i32; 19] = match self {
            CharacterKind::Rina => [41, 62, 7, 400, 0, 0, 0, 25, 32, 7, 37, 37, 3, 1, 4, 25, 0, 0, 0],
            CharacterKind::Sayaka => [52, 70, 5, 0, 500, 0, 600, 12, 20, 10, 18, 18, 22, 2, 5, 0, 50, 0, 60],
            CharacterKind::Houjou => [68, 55, 5, 200, 0, 300, 0, 34, 28, 18, 22, 22, 8, 2, 3, 15, 0, 20, 0],
            CharacterKind::Toshiko => [44, 48, 5, 0, 0, 500, 0, 16, 18, 6, 20, 20, 20, 1, 3, 0, 0, 50, 0],
            CharacterKind::Renjiro => [58, 60, 6, 500, 0, 0, 0, 28, 26, 12, 30, 26, 6, 2, 4, 50, 0, 0, 0],
            CharacterKind::Suzuka => [46, 64, 5, 0, 600, 0, 0, 9, 24, 7, 18, 18, 24, 1, 5, 0, 60, 0, 0],
            CharacterKind::Kanzo => [40, 64, 5, 0, 0, 0, 600, 8, 30, 5, 17, 16, 24, 1, 5, 0, 0, 0, 60],
            CharacterKind::Iwao => [90, 70, 4, 300, 0, 0, 0, 20, 24, 28, 8, 6, 6, 3, 4, 30, 0, 0, 0],
            CharacterKind::Yuna => [58, 64, 5, 0, 0, 400, 500, 10, 22, 9, 16, 16, 22, 2, 5, 0, 0, 40, 50],
            CharacterKind::Magatsu => [48, 54, 5, 0, 500, 500, 0, 10, 24, 7, 17, 16, 24, 1, 3, 0, 40, 40, 0],
        };
        let r = stat_block_exec(ap, &n);
        proof {
            assert(Seq::new(19, |i: int| n@[i] as int) =~= stat_numbers(self));
        }
        r
    }

    /// The protagonist's growth profile.
    pub fn growth(self) -> (r: GrowthAttributes)
        ensures
            r == spec_growth(self),
    {
        match self {
            CharacterKind::Rina => GrowthAttributes { vitality: 8, endurance: 4, spirit: 6, power: 11, control: 11, celerity: 13, reflex: 13, insight: 6, resolve: 8, magic_distribution: MagicDistribution { kiho: 18, onmyodo: 0, yokaijutsu: 0, kamishin: 0 } },
            CharacterKind::Sayaka => GrowthAttributes { vitality: 9, endurance: 10, spirit: 12, power: 6, control: 8, celerity: 8, reflex: 9, insight: 12, resolve: 9, magic_distribution: MagicDistribution { kiho: 0, onmyodo: 16, yokaijutsu: 0, kamishin: 20 } },
            CharacterKind::Houjou => GrowthAttributes { vitality: 12, endurance: 6, spirit: 5, power: 13, control: 10, celerity: 7, reflex: 8, insight: 6, resolve: 12, magic_distribution: MagicDistribution { kiho: 9, onmyodo: 0, yokaijutsu: 6, kamishin: 0 } },
            CharacterKind::Toshiko => GrowthAttributes { vitality: 8, endurance: 6, spirit: 12, power: 8, control: 8, celerity: 9, reflex: 9, insight: 12, resolve: 8, magic_distribution: MagicDistribution { kiho: 0, onmyodo: 0, yokaijutsu: 36, kamishin: 0 } },
            CharacterKind::Renjiro => GrowthAttributes { vitality: 11, endurance: 6, spirit: 7, power: 11, control: 9, celerity: 12, reflex: 11, insight: 6, resolve: 11, magic_distribution: MagicDistribution { kiho: 21, onmyodo: 0, yokaijutsu: 0, kamishin: 0 } },
            CharacterKind::Suzuka => GrowthAttributes { vitality: 8, endurance: 6, spirit: 13, power: 6, control: 11, celerity: 8, reflex: 9, insight: 13, resolve: 9, magic_distribution: MagicDistribution { kiho: 0, onmyodo: 39, yokaijutsu: 0, kamishin: 0 } },
            CharacterKind::Kanzo => GrowthAttributes { vitality: 7, endurance: 6, spirit: 13, power: 6, control: 11, celerity: 8, reflex: 8, insight: 13, resolve: 9, magic_distribution: MagicDistribution { kiho: 0, onmyodo: 0, yokaijutsu: 0, kamishin: 39 } },
            CharacterKind::Iwao => GrowthAttributes { vitality: 14, endurance: 8, spirit: 5, power: 11, control: 9, celerity: 5, reflex: 5, insight: 6, resolve: 13, magic_distribution: MagicDistribution { kiho: 15, onmyodo: 0, yokaijutsu: 0, kamishin: 0 } },
            CharacterKind::Yuna => GrowthAttributes { vitality: 10, endurance: 8, spirit: 12, power: 6, control: 9, celerity: 8, reflex: 9, insight: 12, resolve: 10, magic_distribution: MagicDistribution { kiho: 0, onmyodo: 0, yokaijutsu: 18, kamishin: 18 } },
            CharacterKind::Magatsu => GrowthAttributes { vitality: 8, endurance: 8, spirit: 13, power: 7, control: 10, celerity: 8, reflex: 8, insight: 13, resolve: 8, magic_distribution: MagicDistribution { kiho: 0, onmyodo: 18, yokaijutsu: 21, kamishin: 0 } },
        }
    }
}

/// Law: every starting ability's id decodes to a level within the cap.
pub proof fn lemma_starting_abilities_within_level_cap(k: CharacterKind)
    ensures
        spec_abilities(k).len() > 0,
        forall|i: int| 0 <= i < spec_abilities(k).len() ==> level_of(#[trigger] spec_abilities(k)[i]) <= 30,
{
    assert forall|i: int| 0 <= i < spec_abilities(k).len() implies level_of(#[trigger] spec_abilities(k)[i]) <= 30 by {
        assert(spec_abilities(k)[i] < 30720);
    }
}

/// Law: no protagonist distributes more magic points than three per spirit
/// point.
pub proof fn lemma_growth_within_spirit_budget(k: CharacterKind)
    ensures
        distribution_within_budget(spec_growth(k)),
{
}

/// Law: a protagonist starts with magic only in the schools it has affinity
/// for, and has at least one such school.
pub proof fn lemma_starting_magic_follows_affinity(k: CharacterKind, ap: i32)
    ensures
        spec_affinities(k).len() > 0,
        spec_combat_stats(k, ap).kiho.base > 0 ==> spec_affinities(k).contains(MagicSchool::Kiho),
        spec_combat_stats(k, ap).onmyodo.base > 0 ==> spec_affinities(k).contains(MagicSchool::Onmyodo),
        spec_combat_stats(k, ap).yokaijutsu.base > 0 ==> spec_affinities(k).contains(MagicSchool::Yokaijutsu),
        spec_combat_stats(k, ap).kamishin.base > 0 ==> spec_affinities(k).contains(MagicSchool::Kamishin),
        spec_combat_stats(k, ap).health.base > 0,
{
    match k {
        CharacterKind::Rina => {
            assert(spec_affinities(k)[0] == MagicSchool::Kiho);
        },
        CharacterKind::Sayaka => {
            assert(spec_affinities(k)[0] == MagicSchool::Kamishin);
            assert(spec_affinities(k)[1] == MagicSchool::Onmyodo);
        },
        CharacterKind::Houjou => {
            assert(spec_affinities(k)[0] == MagicSchool::Kiho);
            assert(spec_affinities(k)[1] == MagicSchool::Yokaijutsu);
        },
        CharacterKind::Toshiko => {
            assert(spec_affinities(k)[0] == MagicSchool::Yokaijutsu);
        },
        CharacterKind::Renjiro => {
            assert(spec_affinities(k)[0] == MagicSchool::Kiho);
        },
        CharacterKind::Suzuka => {
            assert(spec_affinities(k)[0] == MagicSchool::Onmyodo);
        },
        CharacterKind::Kanzo => {
            assert(spec_affinities(k)[0] == MagicSchool::Kamishin);
        },
        CharacterKind::Iwao => {
            assert(spec_affinities(k)[0] == MagicSchool::Kiho);
        },
        CharacterKind::Yuna => {
            assert(spec_affinities(k)[0] == MagicSchool::Kamishin);
            assert(spec_affinities(k)[1] == MagicSchool::Yokaijutsu);
        },
        CharacterKind::Magatsu => {
            assert(spec_affinities(k)[0] == MagicSchool::Yokaijutsu);
            assert(spec_affinities(k)[1] == MagicSchool::Onmyodo);
        },
    }
}

/// The companions of a party: the members after the leader, at most
/// `MAX_OBJECTS - 1` of them.
pub open spec fn spec_companions(party: Seq<CharacterKind>) -> Seq<CharacterKind> {
    if party.len() <= 1 {
        Seq::<CharacterKind>::empty()
    } else if party.len() - 1 <= MAX_OBJECTS - 1 {
        party.subrange(1, party.len() as int)
    } else {
        party.subrange(1, MAX_OBJECTS as int)
    }
}

/// Law: the companions fill at most the slots the leader leaves, and in a
/// party that names nobody twice the leader is never also a companion.
pub proof fn lemma_leader_not_a_companion(party: Seq<CharacterKind>)
    requires
        party.no_duplicates(),
    ensures
        spec_companions(party).len() <= MAX_OBJECTS - 1,
        party.len() > 0 ==> !spec_companions(party).contains(party[0]),
{
    if party.len() > 1 && spec_companions(party).contains(party[0]) {
        let c = spec_companions(party);
        let k = choose|k: int| 0 <= k < c.len() && c[k] == party[0];
        assert(c[k] == party[k + 1]);
        assert(false);
    }
}

/// The party chosen for the run: the first is the leader, the rest are
/// companions.
#[derive(Clone, Debug)]
pub struct SelectedParty(pub Vec<CharacterKind>);

impl Default for SelectedParty {
    /// A balanced four: the rogue, the cleric, the samurai and the vessel.
    fn default() -> (r: Self)
        ensures
            r.0@ == seq![CharacterKind::Rina, CharacterKind::Sayaka, CharacterKind::Houjou, CharacterKind::Toshiko],
    {
        SelectedParty(vec![CharacterKind::Rina, CharacterKind::Sayaka, CharacterKind::Houjou, CharacterKind::Toshiko])
    }
}

impl SelectedParty {
    /// The leader: the first member, if any.
    pub fn leader(&self) -> (r: Option<CharacterKind>)
        ensures
            r == if self.0@.len() > 0 {
                Some(self.0@[0])
            } else {
                None::<CharacterKind>
            },
    {
        if self.0.len() > 0 {
            Some(self.0[0])
        } else {
            None
        }
    }

    /// The companions: the members after the leader, at most
    /// `MAX_OBJECTS - 1` of them.
    pub fn companions(&self) -> (r: Vec<CharacterKind>)
        ensures
            r@ == spec_companions(self.0@),
    {
        let mut out: Vec<CharacterKind> = Vec::new();
        let mut i: usize = 1;
        while i < self.0.len() && out.len() < MAX_OBJECTS - 1
            invariant
                1 <= i,
                i <= self.0@.len() || self.0@.len() == 0,
                out@.len() == i - 1,
                i - 1 <= MAX_OBJECTS - 1,
                out@ =~= if self.0@.len() == 0 { Seq::<CharacterKind>::empty() } else { self.0@.subrange(1, i as int) },
            decreases self.0.len() - i,
        {
            out.push(self.0[i]);
            i = i + 1;
        }
        out
    }
}

} // verus!
