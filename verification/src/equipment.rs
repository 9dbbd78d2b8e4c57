//! Equipment: item kinds and the slots that take them, per-character
//! loadouts, the stat bonus of worn gear and how it lands on the stats, the
//! modifiers gear grants as an attack begins, weapon sharpness, and the
//! inventory.

use vstd::prelude::*;
use crate::ability::{EntityId, Stat};
use crate::stats::{CombatStats, StatModifier, StatPool};

verus! {

/// The kinds of equipment slot a loadout may have.
#[derive(Clone, Copy, Debug, PartialEq, Eq, Structural)]
pub enum EquipmentSlotType {
    Weapon,
    Armor,
    Headgear,
    Accessory,
    Talisman,
    Mask,
    Footwear,
}

#[derive(Clone, Copy, Debug, PartialEq, Eq, Structural)]
pub enum WeaponType {
    Sword,
    Dagger,
    Staff,
    Naginata,
    Bow,
    Tetsubo,
    Shuriken,
    Pistol,
    Fan,
    Biwa,
    Yari,
    Wakizashi,
    Nodachi,
    Kusarigama,
    Kanabo,
    Teppo,
}

#[derive(Clone, Copy, Debug, PartialEq, Eq, Structural)]
pub enum ArmorType {
    HeavyArmor,
    LightArmor,
    Robe,
    Shield,
    Kusari,
    Tatami,
    Haramaki,
    Kikko,
    Jinbaori,
}

#[derive(Clone, Copy, Debug, PartialEq, Eq, Structural)]
pub enum HeadgearType {
    Helmet,
    Hood,
    Hat,
    Veil,
}

#[derive(Clone, Copy, Debug, PartialEq, Eq, Structural)]
pub enum AccessoryType {
    Charm,
    Ring,
    Relic,
    Magatama,
    Netsuke,
    Inro,
    Obi,
}

#[derive(Clone, Copy, Debug, PartialEq, Eq, Structural)]
pub enum TalismanType {
    Ofuda,
    Juzu,
    Gohei,
    Shikifu,
    WarBanner,
}

#[derive(Clone, Copy, Debug, PartialEq, Eq, Structural)]
pub enum MaskType {
    Noh,
    Hannya,
    Oni,
    Kitsune,
}

#[derive(Clone, Copy, Debug, PartialEq, Eq, Structural)]
pub enum FootwearType {
    Tabi,
    Waraji,
    Suneate,
    Geta,
}

/// An item's kind: a slot kind and a sub-kind.
#[derive(Clone, Copy, Debug, PartialEq, Eq, Structural)]
pub enum EquipmentType {
    Weapon(WeaponType),
    Armor(ArmorType),
    Headgear(HeadgearType),
    Accessory(AccessoryType),
    Talisman(TalismanType),
    Mask(MaskType),
    Footwear(FootwearType),
}

/// The slot kind an item kind goes in.
pub open spec fn spec_slot_type(t: EquipmentType) -> EquipmentSlotType {
    match t {
        EquipmentType::Weapon(_) => EquipmentSlotType::Weapon,
        EquipmentType::Armor(_) => EquipmentSlotType::Armor,
        EquipmentType::Headgear(_) => EquipmentSlotType::Headgear,
        EquipmentType::Accessory(_) => EquipmentSlotType::Accessory,
        EquipmentType::Talisman(_) => EquipmentSlotType::Talisman,
        EquipmentType::Mask(_) => EquipmentSlotType::Mask,
        EquipmentType::Footwear(_) => EquipmentSlotType::Footwear,
    }
}

impl EquipmentType {
    /// The slot kind this item kind goes in.
    pub fn slot_type(self) -> (r: EquipmentSlotType)
        ensures
            r == spec_slot_type(self),
    {
        match self {
            EquipmentType::Weapon(_) => EquipmentSlotType::Weapon,
            EquipmentType::Armor(_) => EquipmentSlotType::Armor,
            EquipmentType::Headgear(_) => EquipmentSlotType::Headgear,
            EquipmentType::Accessory(_) => EquipmentSlotType::Accessory,
            EquipmentType::Talisman(_) => EquipmentSlotType::Talisman,
            EquipmentType::Mask(_) => EquipmentSlotType::Mask,
            EquipmentType::Footwear(_) => EquipmentSlotType::Footwear,
        }
    }
}

/// Crafting materials.
#[derive(Clone, Copy, Debug, PartialEq, Eq, Structural)]
pub enum ItemMaterial {
    IronIngot,
    SilverSteelIngot,
    OakWood,
    Leather,
    Cloth,
    CrystalDust,
}

impl ItemMaterial {
    /// The material's base value.
    pub fn value(self) -> (r: u32)
        ensures
            r == match self {
                ItemMaterial::IronIngot => 600u32,
                ItemMaterial::SilverSteelIngot => 1000u32,
                ItemMaterial::OakWood => 400u32,
                ItemMaterial::Leather => 500u32,
                ItemMaterial::Cloth => 300u32,
                ItemMaterial::CrystalDust => 800u32,
            },
    {
        match self {
            ItemMaterial::IronIngot => 600,
            ItemMaterial::SilverSteelIngot => 1000,
            ItemMaterial::OakWood => 400,
            ItemMaterial::Leather => 500,
            ItemMaterial::Cloth => 300,
            ItemMaterial::CrystalDust => 800,
        }
    }
}

/// A material and how much of it an item takes.
#[derive(Clone, Copy, Debug, PartialEq, Eq, Structural)]
pub struct ItemMaterialCost {
    pub material: ItemMaterial,
    pub quantity: u32,
}

/// An equipment item.
#[derive(Clone, Debug)]
pub struct Equipment {
    pub id: u16,
    pub name: String,
    pub equipment_type: EquipmentType,
    pub base_price: u32,
    pub materials: Vec<ItemMaterialCost>,
    pub lethality: i32,
    pub hit: i32,
    pub armor: i32,
    pub agility: i32,
    pub mind: i32,
    pub morale: i32,
}

/// The flat stats of a set of worn items, summed. Offence (`lethality`,
/// `hit`) counts only from non-weapon slots; every slot adds `armor`,
/// `agility` and `mind`.
#[derive(Clone, Copy, Debug, PartialEq, Eq, Structural)]
pub struct EquipmentBonus {
    pub lethality: i32,
    pub hit: i32,
    pub armor: i32,
    pub agility: i32,
    pub mind: i32,
}

impl Default for EquipmentBonus {
    /// No bonus.
    fn default() -> (r: Self)
        ensures
            r == (EquipmentBonus { lethality: 0, hit: 0, armor: 0, agility: 0, mind: 0 }),
    {
        EquipmentBonus { lethality: 0, hit: 0, armor: 0, agility: 0, mind: 0 }
    }
}

/// Whether an item adds offence to the bonus: everything but weapons.
pub open spec fn adds_offence(eq: Equipment) -> bool {
    spec_slot_type(eq.equipment_type) != EquipmentSlotType::Weapon
}

impl EquipmentBonus {
    /// Add one worn item's stats: armour, agility and mind always; lethality
    /// and hit only when the item is not a weapon (the held weapon's offence
    /// is applied where the attack is rolled).
    pub fn accumulate(&mut self, eq: &Equipment)
        requires
            i32::MIN <= old(self).armor + eq.armor <= i32::MAX,
            i32::MIN <= old(self).agility + eq.agility <= i32::MAX,
            i32::MIN <= old(self).mind + eq.mind <= i32::MAX,
            adds_offence(*eq) ==> i32::MIN <= old(self).lethality + eq.lethality <= i32::MAX,
            adds_offence(*eq) ==> i32::MIN <= old(self).hit + eq.hit <= i32::MAX,
        ensures
            final(self).armor == old(self).armor + eq.armor,
            final(self).agility == old(self).agility + eq.agility,
            final(self).mind == old(self).mind + eq.mind,
            final(self).lethality == old(self).lethality + if adds_offence(*eq) {
                eq.lethality as int
            } else {
                0
            },
            final(self).hit == old(self).hit + if adds_offence(*eq) {
                eq.hit as int
            } else {
                0
            },
    {
        self.armor = self.armor + eq.armor;
        self.agility = self.agility + eq.agility;
        self.mind = self.mind + eq.mind;
        if eq.equipment_type.slot_type() != EquipmentSlotType::Weapon {
            self.lethality = self.lethality + eq.lethality;
            self.hit = self.hit + eq.hit;
        }
    }
}

/// Every item kind of a slot kind, in declaration order.
pub fn default_allowed_types_for_slot(slot_type: EquipmentSlotType) -> (r: Vec<EquipmentType>)
    ensures
        forall|i: int| 0 <= i < r@.len() ==> spec_slot_type(#[trigger] r@[i]) == slot_type,
        forall|t: EquipmentType| spec_slot_type(t) == slot_type ==> #[trigger] r@.contains(t),
        forall|i: int, j: int| 0 <= i < j < r@.len() ==> #[trigger] r@[i] != #[trigger] r@[j],
{
    match slot_type {
        EquipmentSlotType::Weapon => {
            let r = vec![
                EquipmentType::Weapon(WeaponType::Sword),
                EquipmentType::Weapon(WeaponType::Dagger),
                EquipmentType::Weapon(WeaponType::Staff),
                EquipmentType::Weapon(WeaponType::Naginata),
                EquipmentType::Weapon(WeaponType::Bow),
                EquipmentType::Weapon(WeaponType::Tetsubo),
                EquipmentType::Weapon(WeaponType::Shuriken),
                EquipmentType::Weapon(WeaponType::Pistol),
                EquipmentType::Weapon(WeaponType::Fan),
                EquipmentType::Weapon(WeaponType::Biwa),
                EquipmentType::Weapon(WeaponType::Yari),
                EquipmentType::Weapon(WeaponType::Wakizashi),
                EquipmentType::Weapon(WeaponType::Nodachi),
                EquipmentType::Weapon(WeaponType::Kusarigama),
                EquipmentType::Weapon(WeaponType::Kanabo),
                EquipmentType::Weapon(WeaponType::Teppo),
            ];
            proof {
                assert forall|t: EquipmentType| spec_slot_type(t) == slot_type implies #[trigger] r@.contains(t) by {
                    let w = t->Weapon_0;
                    match w {
                        WeaponType::Sword => assert(r@[0] == t),
                        WeaponType::Dagger => assert(r@[1] == t),
                        WeaponType::Staff => assert(r@[2] == t),
                        WeaponType::Naginata => assert(r@[3] == t),
                        WeaponType::Bow => assert(r@[4] == t),
                        WeaponType::Tetsubo => assert(r@[5] == t),
                        WeaponType::Shuriken => assert(r@[6] == t),
                        WeaponType::Pistol => assert(r@[7] == t),
                        WeaponType::Fan => assert(r@[8] == t),
                        WeaponType::Biwa => assert(r@[9] == t),
                        WeaponType::Yari => assert(r@[10] == t),
                        WeaponType::Wakizashi => assert(r@[11] == t),
                        WeaponType::Nodachi => assert(r@[12] == t),
                        WeaponType::Kusarigama => assert(r@[13] == t),
                        WeaponType::Kanabo => assert(r@[14] == t),
                        WeaponType::Teppo => assert(r@[15] == t),
                    }
                }
            }
            r
        },
        EquipmentSlotType::Armor => {
            let r = vec![
                EquipmentType::Armor(ArmorType::HeavyArmor),
                EquipmentType::Armor(ArmorType::LightArmor),
                EquipmentType::Armor(ArmorType::Robe),
                EquipmentType::Armor(ArmorType::Shield),
                EquipmentType::Armor(ArmorType::Kusari),
                EquipmentType::Armor(ArmorType::Tatami),
                EquipmentType::Armor(ArmorType::Haramaki),
                EquipmentType::Armor(ArmorType::Kikko),
                EquipmentType::Armor(ArmorType::Jinbaori),
            ];
            proof {
                assert forall|t: EquipmentType| spec_slot_type(t) == slot_type implies #[trigger] r@.contains(t) by {
                    match t->Armor_0 {
                        ArmorType::HeavyArmor => assert(r@[0] == t),
                        ArmorType::LightArmor => assert(r@[1] == t),
                        ArmorType::Robe => assert(r@[2] == t),
                        ArmorType::Shield => assert(r@[3] == t),
                        ArmorType::Kusari => assert(r@[4] == t),
                        ArmorType::Tatami => assert(r@[5] == t),
                        ArmorType::Haramaki => assert(r@[6] == t),
                        ArmorType::Kikko => assert(r@[7] == t),
                        ArmorType::Jinbaori => assert(r@[8] == t),
                    }
                }
            }
            r
        },
        EquipmentSlotType::Headgear => {
            let r = vec![
                EquipmentType::Headgear(HeadgearType::Helmet),
                EquipmentType::Headgear(HeadgearType::Hood),
                EquipmentType::Headgear(HeadgearType::Hat),
                EquipmentType::Headgear(HeadgearType::Veil),
            ];
            proof {
                assert forall|t: EquipmentType| spec_slot_type(t) == slot_type implies #[trigger] r@.contains(t) by {
                    match t->Headgear_0 {
                        HeadgearType::Helmet => assert(r@[0] == t),
                        HeadgearType::Hood => assert(r@[1] == t),
                        HeadgearType::Hat => assert(r@[2] == t),
                        HeadgearType::Veil => assert(r@[3] == t),
                    }
                }
            }
            r
        },
        EquipmentSlotType::Accessory => {
            let r = vec![
                EquipmentType::Accessory(AccessoryType::Charm),
                EquipmentType::Accessory(AccessoryType::Ring),
                EquipmentType::Accessory(AccessoryType::Relic),
                EquipmentType::Accessory(AccessoryType::Magatama),
                EquipmentType::Accessory(AccessoryType::Netsuke),
                EquipmentType::Accessory(AccessoryType::Inro),
                EquipmentType::Accessory(AccessoryType::Obi),
            ];
            proof {
                assert forall|t: EquipmentType| spec_slot_type(t) == slot_type implies #[trigger] r@.contains(t) by {
                    match t->Accessory_0 {
                        AccessoryType::Charm => assert(r@[0] == t),
                        AccessoryType::Ring => assert(r@[1] == t),
                        AccessoryType::Relic => assert(r@[2] == t),
                        AccessoryType::Magatama => assert(r@[3] == t),
                        AccessoryType::Netsuke => assert(r@[4] == t),
                        AccessoryType::Inro => assert(r@[5] == t),
                        AccessoryType::Obi => assert(r@[6] == t),
                    }
                }
            }
            r
        },
        EquipmentSlotType::Talisman => {
            let r = vec![
                EquipmentType::Talisman(TalismanType::Ofuda),
                EquipmentType::Talisman(TalismanType::Juzu),
                EquipmentType::Talisman(TalismanType::Gohei),
                EquipmentType::Talisman(TalismanType::Shikifu),
                EquipmentType::Talisman(TalismanType::WarBanner),
            ];
            proof {
                assert forall|t: EquipmentType| spec_slot_type(t) == slot_type implies #[trigger] r@.contains(t) by {
                    match t->Talisman_0 {
                        TalismanType::Ofuda => assert(r@[0] == t),
                        TalismanType::Juzu => assert(r@[1] == t),
                        TalismanType::Gohei => assert(r@[2] == t),
                        TalismanType::Shikifu => assert(r@[3] == t),
                        TalismanType::WarBanner => assert(r@[4] == t),
                    }
                }
            }
            r
        },
        EquipmentSlotType::Mask => {
            let r = vec![
                EquipmentType::Mask(MaskType::Noh),
                EquipmentType::Mask(MaskType::Hannya),
                EquipmentType::Mask(MaskType::Oni),
                EquipmentType::Mask(MaskType::Kitsune),
            ];
            proof {
                assert forall|t: EquipmentType| spec_slot_type(t) == slot_type implies #[trigger] r@.contains(t) by {
                    match t->Mask_0 {
                        MaskType::Noh => assert(r@[0] == t),
                        MaskType::Hannya => assert(r@[1] == t),
                        MaskType::Oni => assert(r@[2] == t),
                        MaskType::Kitsune => assert(r@[3] == t),
                    }
                }
            }
            r
        },
        EquipmentSlotType::Footwear => {
            let r = vec![
                EquipmentType::Footwear(FootwearType::Tabi),
                EquipmentType::Footwear(FootwearType::Waraji),
                EquipmentType::Footwear(FootwearType::Suneate),
                EquipmentType::Footwear(FootwearType::Geta),
            ];
            proof {
                assert forall|t: EquipmentType| spec_slot_type(t) == slot_type implies #[trigger] r@.contains(t) by {
                    match t->Footwear_0 {
                        FootwearType::Tabi => assert(r@[0] == t),
                        FootwearType::Waraji => assert(r@[1] == t),
                        FootwearType::Suneate => assert(r@[2] == t),
                        FootwearType::Geta => assert(r@[3] == t),
                    }
                }
            }
            r
        },
    }
}

/// A slot of a loadout: its kind, the item kinds it takes, and the item
/// worn in it.
#[derive(Clone, Debug)]
pub struct EquipmentSlot {
    pub slot_type: EquipmentSlotType,
    pub allowed_types: Vec<EquipmentType>,
    pub equipped: Option<EntityId>,
}

/// A character's slots; which slots it has decides what it can wear.
#[derive(Clone, Debug)]
pub struct EquipmentLoadout {
    pub slots: Vec<EquipmentSlot>,
}

/// The slot can take an item of kind `t`.
pub open spec fn slot_takes(slot: EquipmentSlot, t: EquipmentType) -> bool {
    slot.slot_type == spec_slot_type(t) && slot.allowed_types@.contains(t)
}

/// The slot can take `t` and is empty.
pub open spec fn slot_free_for(slot: EquipmentSlot, t: EquipmentType) -> bool {
    slot_takes(slot, t) && slot.equipped is None
}

/// The index of the first slot satisfying `p`, or `slots.len()`.
pub open spec fn first_slot(slots: Seq<EquipmentSlot>, p: spec_fn(EquipmentSlot) -> bool) -> int
    decreases slots.len(),
{
    if slots.len() == 0 {
        0
    } else if p(slots[0]) {
        0
    } else {
        1 + first_slot(slots.drop_first(), p)
    }
}

proof fn lemma_first_slot(slots: Seq<EquipmentSlot>, p: spec_fn(EquipmentSlot) -> bool, i: int)
    requires
        0 <= i <= slots.len(),
        forall|k: int| 0 <= k < i ==> !p(#[trigger] slots[k]),
        i < slots.len() ==> p(slots[i]),
    ensures
        first_slot(slots, p) == i,
    decreases slots.len(),
{
    if i > 0 {
        assert(!p(slots[0]));
        assert forall|k: int| 0 <= k < i - 1 implies !p(#[trigger] slots.drop_first()[k]) by {
            assert(slots.drop_first()[k] == slots[k + 1]);
        }
        lemma_first_slot(slots.drop_first(), p, i - 1);
    }
}

fn allows(types: &Vec<EquipmentType>, t: EquipmentType) -> (r: bool)
    ensures
        r == types@.contains(t),
{
    let mut i: usize = 0;
    while i < types.len()
        invariant
            i <= types@.len(),
            forall|k: int| 0 <= k < i ==> types@[k] != t,
        decreases types.len() - i,
    {
        if types[i] == t {
            assert(types@[i as int] == t);
            return true;
        }
        i = i + 1;
    }
    false
}

impl EquipmentLoadout {
    /// A loadout with one empty slot per given slot kind, each taking every
    /// item kind of its slot kind.
    pub fn with_slots(slot_types: Vec<EquipmentSlotType>) -> (r: Self)
        ensures
            r.slots@.len() == slot_types@.len(),
            forall|i: int|
                0 <= i < slot_types@.len() ==> {
                    let s = #[trigger] r.slots@[i];
                    &&& s.slot_type == slot_types@[i]
                    &&& s.equipped is None
                    &&& forall|t: EquipmentType| s.allowed_types@.contains(t) <==> spec_slot_type(t) == s.slot_type
                },
    {
        let mut slots: Vec<EquipmentSlot> = Vec::new();
        let mut i: usize = 0;
        while i < slot_types.len()
            invariant
                i <= slot_types@.len(),
                slots@.len() == i,
                forall|j: int|
                    0 <= j < i ==> {
                        let s = #[trigger] slots@[j];
                        &&& s.slot_type == slot_types@[j]
                        &&& s.equipped is None
                        &&& forall|t: EquipmentType| s.allowed_types@.contains(t) <==> spec_slot_type(t) == s.slot_type
                    },
            decreases slot_types.len() - i,
        {
            let st = slot_types[i];
            let allowed = default_allowed_types_for_slot(st);
            proof {
                assert forall|t: EquipmentType| allowed@.contains(t) implies spec_slot_type(t) == st by {
                    let k = choose|k: int| 0 <= k < allowed@.len() && allowed@[k] == t;
                    assert(spec_slot_type(allowed@[k]) == st);
                }
            }
            slots.push(EquipmentSlot { slot_type: st, allowed_types: allowed, equipped: None });
            i = i + 1;
        }
        EquipmentLoadout { slots }
    }

    /// A loadout with one empty slot per given `(slot kind, allowed item
    /// kinds)` pair.
    pub fn with_allowed_types(slots: Vec<(EquipmentSlotType, Vec<EquipmentType>)>) -> (r: Self)
        ensures
            r.slots@.len() == slots@.len(),
            forall|i: int|
                0 <= i < slots@.len() ==> {
                    let s = #[trigger] r.slots@[i];
                    &&& s.slot_type == slots@[i].0
                    &&& s.allowed_types@ == slots@[i].1@
                    &&& s.equipped is None
                },
    {
        let ghost input = slots@;
        let mut rest = slots;
        let mut out: Vec<EquipmentSlot> = Vec::new();
        while rest.len() > 0
            invariant
                rest@.len() + out@.len() == input.len(),
                forall|k: int| 0 <= k < rest@.len() ==> #[trigger] rest@[k] == input[out@.len() + k],
                forall|j: int|
                    0 <= j < out@.len() ==> {
                        let s = #[trigger] out@[j];
                        &&& s.slot_type == input[j].0
                        &&& s.allowed_types@ == input[j].1@
                        &&& s.equipped is None
                    },
            decreases rest@.len(),
        {
            let ghost before = rest@;
            let (st, allowed) = rest.remove(0);
            proof {
                assert(before[0] == input[out@.len() as int + 0]);
                assert forall|k: int| 0 <= k < rest@.len() implies #[trigger] rest@[k] == input[out@.len() + 1 + k] by {
                    assert(rest@[k] == before[k + 1]);
                    assert(before[k + 1] == input[out@.len() + (k + 1)]);
                }
            }
            out.push(EquipmentSlot { slot_type: st, allowed_types: allowed, equipped: None });
        }
        EquipmentLoadout { slots: out }
    }

    /// Put `item` (of kind `equipment_type`) in the first empty slot that
    /// takes it; failing that, in the first slot that takes it, replacing
    /// what was worn there. False, and no change, when no slot takes it.
    pub fn equip_in_first_matching_slot(&mut self, equipment_type: EquipmentType, item: EntityId) -> (r: bool)
        ensures
            ({
                let slots = old(self).slots@;
                let free = first_slot(slots, |s: EquipmentSlot| slot_free_for(s, equipment_type));
                let any = first_slot(slots, |s: EquipmentSlot| slot_takes(s, equipment_type));
                let i = if free < slots.len() { free } else { any };
                if i < slots.len() {
                    &&& r
                    &&& final(self).slots@.len() == slots.len()
                    &&& final(self).slots@[i].equipped == Some(item)
                    &&& final(self).slots@[i].slot_type == slots[i].slot_type
                    &&& final(self).slots@[i].allowed_types == slots[i].allowed_types
                    &&& forall|k: int| 0 <= k < slots.len() && k != i ==> #[trigger] final(self).slots@[k] == slots[k]
                } else {
                    !r && final(self).slots@ == slots
                }
            }),
    {
        let ghost slots = self.slots@;
        let st = equipment_type.slot_type();
        let mut i: usize = 0;
        while i < self.slots.len()
            invariant
                i <= self.slots@.len(),
                self.slots@ == slots,
                slots == old(self).slots@,
                st == spec_slot_type(equipment_type),
                forall|k: int| 0 <= k < i ==> !slot_free_for(#[trigger] slots[k], equipment_type),
            decreases self.slots.len() - i,
        {
            let kind_ok = self.slots[i].slot_type == st;
            let allowed = allows(&self.slots[i].allowed_types, equipment_type);
            let empty = self.slots[i].equipped.is_none();
            assert(kind_ok == (slots[i as int].slot_type == spec_slot_type(equipment_type)));
            assert(allowed == slots[i as int].allowed_types@.contains(equipment_type));
            assert(kind_ok && allowed && empty <==> slot_free_for(slots[i as int], equipment_type));
            if kind_ok && allowed && empty {
                proof {
                    lemma_first_slot(slots, |s: EquipmentSlot| slot_free_for(s, equipment_type), i as int);
                }
                self.slots[i].equipped = Some(item);
                return true;
            }
            i = i + 1;
        }
        proof {
            lemma_first_slot(slots, |s: EquipmentSlot| slot_free_for(s, equipment_type), i as int);
        }
        let mut j: usize = 0;
        while j < self.slots.len()
            invariant
                j <= self.slots@.len(),
                self.slots@ == slots,
                slots == old(self).slots@,
                st == spec_slot_type(equipment_type),
                first_slot(slots, |s: EquipmentSlot| slot_free_for(s, equipment_type)) == slots.len(),
                forall|k: int| 0 <= k < j ==> !slot_takes(#[trigger] slots[k], equipment_type),
            decreases self.slots.len() - j,
        {
            let kind_ok = self.slots[j].slot_type == st;
            let allowed = allows(&self.slots[j].allowed_types, equipment_type);
            assert(kind_ok && allowed <==> slot_takes(slots[j as int], equipment_type));
            if kind_ok && allowed {
                proof {
                    lemma_first_slot(slots, |s: EquipmentSlot| slot_takes(s, equipment_type), j as int);
                }
                self.slots[j].equipped = Some(item);
                return true;
            }
            j = j + 1;
        }
        proof {
            lemma_first_slot(slots, |s: EquipmentSlot| slot_takes(s, equipment_type), j as int);
        }
        false
    }

    /// What is worn in the first slot of the given kind, if anything.
    pub fn equipped_in_slot(&self, slot_type: EquipmentSlotType) -> (r: Option<EntityId>)
        ensures
            ({
                let i = first_slot(self.slots@, |s: EquipmentSlot| s.slot_type == slot_type);
                r == if i < self.slots@.len() {
                    self.slots@[i].equipped
                } else {
                    None
                }
            }),
    {
        let mut i: usize = 0;
        while i < self.slots.len()
            invariant
                i <= self.slots@.len(),
                forall|k: int| 0 <= k < i ==> (#[trigger] self.slots@[k]).slot_type != slot_type,
            decreases self.slots.len() - i,
        {
            if self.slots[i].slot_type == slot_type {
                proof {
                    lemma_first_slot(self.slots@, |s: EquipmentSlot| s.slot_type == slot_type, i as int);
                }
                return self.slots[i].equipped;
            }
            i = i + 1;
        }
        proof {
            lemma_first_slot(self.slots@, |s: EquipmentSlot| s.slot_type == slot_type, i as int);
        }
        None
    }

    /// The worn items, in slot order.
    pub fn equipped_items(&self) -> (r: Vec<EntityId>)
        ensures
            r@ == worn_upto(self.slots@, self.slots@.len() as int),
    {
        let mut out: Vec<EntityId> = Vec::new();
        let mut i: usize = 0;
        while i < self.slots.len()
            invariant
                i <= self.slots@.len(),
                out@ == worn_upto(self.slots@, i as int),
            decreases self.slots.len() - i,
        {
            match self.slots[i].equipped {
                Some(e) => out.push(e),
                None => {},
            }
            i = i + 1;
        }
        out
    }

    /// Whether a worn item has the item id `item_id`, with `item_ids`
    /// giving each known equipment entity's item id.
    pub fn has_equipped_item_id(&self, item_id: u16, item_ids: &Vec<(EntityId, u16)>) -> (r: bool)
        ensures
            r == exists|i: int, k: int|
                0 <= i < self.slots@.len() && 0 <= k < item_ids@.len() && (#[trigger] self.slots@[i]).equipped
                    == Some((#[trigger] item_ids@[k]).0) && first_id_of(item_ids@, item_ids@[k].0)
                    == Some(item_id),
    {
        let mut i: usize = 0;
        while i < self.slots.len()
            invariant
                i <= self.slots@.len(),
                forall|ii: int, k: int|
                    0 <= ii < i && 0 <= k < item_ids@.len() && (#[trigger] self.slots@[ii]).equipped
                        == Some((#[trigger] item_ids@[k]).0) ==> first_id_of(item_ids@, item_ids@[k].0)
                        != Some(item_id),
            decreases self.slots.len() - i,
        {
            match self.slots[i].equipped {
                Some(e) => {
                    let found = lookup_item_id(item_ids, e);
                    match found {
                        Some(id) => {
                            if id == item_id {
                                let k = lookup_index(item_ids, e);
                                assert(self.slots@[i as int].equipped == Some(item_ids@[k as int].0));
                                return true;
                            }
                        },
                        None => {},
                    }
                },
                None => {},
            }
            i = i + 1;
        }
        false
    }
}

/// The item id of the first entry for `e`, if any.
pub open spec fn first_id_of(item_ids: Seq<(EntityId, u16)>, e: EntityId) -> Option<u16>
    decreases item_ids.len(),
{
    if item_ids.len() == 0 {
        None
    } else if item_ids[0].0 == e {
        Some(item_ids[0].1)
    } else {
        first_id_of(item_ids.drop_first(), e)
    }
}

proof fn lemma_first_id(item_ids: Seq<(EntityId, u16)>, e: EntityId, i: int)
    requires
        0 <= i <= item_ids.len(),
        forall|k: int| 0 <= k < i ==> (#[trigger] item_ids[k]).0 != e,
    ensures
        i < item_ids.len() && item_ids[i].0 == e ==> first_id_of(item_ids, e) == Some(item_ids[i].1),
        i == item_ids.len() ==> first_id_of(item_ids, e) is None,
    decreases item_ids.len(),
{
    if i > 0 {
        assert forall|k: int| 0 <= k < i - 1 implies (#[trigger] item_ids.drop_first()[k]).0 != e by {
            assert(item_ids.drop_first()[k] == item_ids[k + 1]);
        }
        lemma_first_id(item_ids.drop_first(), e, i - 1);
        if i < item_ids.len() {
            assert(item_ids.drop_first()[i - 1] == item_ids[i]);
        }
    }
}

fn lookup_index(item_ids: &Vec<(EntityId, u16)>, e: EntityId) -> (r: usize)
    requires
        first_id_of(item_ids@, e) is Some,
    ensures
        r < item_ids@.len(),
        item_ids@[r as int].0 == e,
        first_id_of(item_ids@, e) == Some(item_ids@[r as int].1),
{
    let mut k: usize = 0;
    while k < item_ids.len()
        invariant
            k <= item_ids@.len(),
            first_id_of(item_ids@, e) is Some,
            forall|j: int| 0 <= j < k ==> (#[trigger] item_ids@[j]).0 != e,
        decreases item_ids.len() - k,
    {
        if item_ids[k].0 == e {
            proof {
                lemma_first_id(item_ids@, e, k as int);
            }
            return k;
        }
        k = k + 1;
    }
    proof {
        lemma_first_id(item_ids@, e, k as int);
    }
    0
}

fn lookup_item_id(item_ids: &Vec<(EntityId, u16)>, e: EntityId) -> (r: Option<u16>)
    ensures
        r == first_id_of(item_ids@, e),
{
    let mut k: usize = 0;
    while k < item_ids.len()
        invariant
            k <= item_ids@.len(),
            forall|j: int| 0 <= j < k ==> (#[trigger] item_ids@[j]).0 != e,
        decreases item_ids.len() - k,
    {
        if item_ids[k].0 == e {
            proof {
                lemma_first_id(item_ids@, e, k as int);
            }
            return Some(item_ids[k].1);
        }
        k = k + 1;
    }
    proof {
        lemma_first_id(item_ids@, e, k as int);
    }
    None
}

/// The items worn in the first `n` slots, in slot order.
pub open spec fn worn_upto(slots: Seq<EquipmentSlot>, n: int) -> Seq<EntityId>
    decreases n,
{
    if n <= 0 {
        seq![]
    } else {
        match slots[n - 1].equipped {
            Some(e) => worn_upto(slots, n - 1).push(e),
            None => worn_upto(slots, n - 1),
        }
    }
}

/// A weapon's edge: its sharpness (0..=100) and how much each attack
/// costs.
#[derive(Clone, Copy, Debug, PartialEq, Eq, Structural)]
pub struct WeaponSharpness {
    pub current: u8,
    pub loss_per_attack: u8,
}

impl WeaponSharpness {
    /// A weapon edge, its sharpness capped at 100.
    pub fn new(current: u8, loss_per_attack: u8) -> (r: Self)
        ensures
            r.current == if current < 100 { current } else { 100 },
            r.loss_per_attack == loss_per_attack,
    {
        WeaponSharpness { current: if current < 100 { current } else { 100 }, loss_per_attack }
    }

    /// The damage multiplier of the edge, in thousandths: 600 for a blunt
    /// weapon rising by 4 per point of sharpness to 1000 at 100.
    pub fn damage_multiplier(&self) -> (r: u32)
        ensures
            r == 600 + 4 * (if self.current < 100 { self.current as int } else { 100 }),
    {
        let c: u32 = if self.current < 100 { self.current as u32 } else { 100 };
        600 + 4 * c
    }

    /// An attack dulls the edge by its loss, never below zero.
    pub fn dull_on_attack(&mut self)
        ensures
            final(self).current == if old(self).current >= old(self).loss_per_attack {
                old(self).current - old(self).loss_per_attack
            } else {
                0
            },
            final(self).loss_per_attack == old(self).loss_per_attack,
    {
        self.current = self.current.saturating_sub(self.loss_per_attack);
    }
}

/// The items a character carries, by item id.
#[derive(Clone, Debug)]
pub struct Inventory {
    pub item_ids: Vec<u16>,
}

impl Inventory {
    /// Whether the inventory holds `item_id`.
    pub fn has_item(&self, item_id: u16) -> (r: bool)
        ensures
            r == self.item_ids@.contains(item_id),
    {
        let mut i: usize = 0;
        while i < self.item_ids.len()
            invariant
                i <= self.item_ids@.len(),
                forall|k: int| 0 <= k < i ==> self.item_ids@[k] != item_id,
            decreases self.item_ids.len() - i,
        {
            if self.item_ids[i] == item_id {
                assert(self.item_ids@[i as int] == item_id);
                return true;
            }
            i = i + 1;
        }
        false
    }

    /// Add `item_id` at the end.
    pub fn add_item(&mut self, item_id: u16)
        ensures
            final(self).item_ids@ == old(self).item_ids@.push(item_id),
    {
        self.item_ids.push(item_id);
    }

    /// Remove the first `item_id`; false, and no change, when there is none.
    pub fn remove_item(&mut self, item_id: u16) -> (r: bool)
        ensures
            r == old(self).item_ids@.contains(item_id),
            r ==> final(self).item_ids@ == old(self).item_ids@.remove(
                old(self).item_ids@.index_of_first(item_id)->0,
            ),
            !r ==> final(self).item_ids@ == old(self).item_ids@,
    {
        let mut i: usize = 0;
        while i < self.item_ids.len()
            invariant
                i <= self.item_ids@.len(),
                self.item_ids@ == old(self).item_ids@,
                forall|k: int| 0 <= k < i ==> self.item_ids@[k] != item_id,
            decreases self.item_ids.len() - i,
        {
            if self.item_ids[i] == item_id {
                proof {
                    let s = self.item_ids@;
                    s.index_of_first_ensures(item_id);
                    assert(s[i as int] == item_id);
                    assert(s.index_of_first(item_id) == Some(i as int));
                }
                self.item_ids.remove(i);
                return true;
            }
            i = i + 1;
        }
        false
    }
}

/// `x + b`, or zero when that is negative.
pub open spec fn plus_floor_zero(x: i32, b: i32) -> i32 {
    if x + b < 0 { 0 } else { (x + b) as i32 }
}

/// A pool whose current value moved by `b`, not below zero.
pub open spec fn shifted(p: StatPool<i32>, b: i32) -> StatPool<i32> {
    StatPool { current: plus_floor_zero(p.current, b), ..p }
}

/// Whether adding the bonus to the stats stays within `i32`.
pub open spec fn bonus_applies(stats: CombatStats, b: EquipmentBonus) -> bool {
    &&& stats.lethality.current + b.lethality <= i32::MAX
    &&& stats.hit.current + b.hit <= i32::MAX
    &&& stats.armor.current + b.armor <= i32::MAX
    &&& stats.evasion.current + b.agility <= i32::MAX
    &&& stats.mind.current + b.mind <= i32::MAX
    &&& i32::MIN <= stats.lethality.current + b.lethality
    &&& i32::MIN <= stats.hit.current + b.hit
    &&& i32::MIN <= stats.armor.current + b.armor
    &&& i32::MIN <= stats.evasion.current + b.agility
    &&& i32::MIN <= stats.mind.current + b.mind
}

fn add_floor_zero(x: i32, b: i32) -> (r: i32)
    requires
        i32::MIN <= x + b <= i32::MAX,
    ensures
        r == plus_floor_zero(x, b),
{
    let s = x + b;
    if s < 0 { 0 } else { s }
}

impl EquipmentBonus {
    /// Put the worn gear's bonus onto the stats: lethality, hit, armour,
    /// evasion (from agility) and mind each move by their bonus, none below
    /// zero; nothing else changes.
    pub fn apply_to(&self, stats: &mut CombatStats)
        requires
            bonus_applies(*old(stats), *self),
        ensures
            *final(stats) == (CombatStats {
                lethality: shifted(old(stats).lethality, self.lethality),
                hit: shifted(old(stats).hit, self.hit),
                armor: shifted(old(stats).armor, self.armor),
                evasion: shifted(old(stats).evasion, self.agility),
                mind: shifted(old(stats).mind, self.mind),
                ..*old(stats)
            }),
    {
        stats.lethality.current = add_floor_zero(stats.lethality.current, self.lethality);
        stats.hit.current = add_floor_zero(stats.hit.current, self.hit);
        stats.armor.current = add_floor_zero(stats.armor.current, self.armor);
        stats.evasion.current = add_floor_zero(stats.evasion.current, self.agility);
        stats.mind.current = add_floor_zero(stats.mind.current, self.mind);
    }
}

/// What a piece of equipment does when its wearer fights: scale a stat
/// (thousandths) for some turns as an attack begins, or add flat damage to
/// a landed hit.
#[derive(Clone, Copy, Debug, PartialEq, Eq, Structural)]
pub enum EquipHook {
    BeforeAttackMultiplier { stat: Stat, multiplier: u32, duration_turns: u32 },
    BeforeHitFlatDamage { flat: i32 },
}

/// The modifier a hook leaves when an attack begins at tick `now`, if it
/// leaves one.
pub open spec fn hook_modifier(h: EquipHook, source: EntityId, now: u32) -> Option<StatModifier> {
    match h {
        EquipHook::BeforeAttackMultiplier { stat, multiplier, duration_turns } => Some(
            StatModifier {
                stat,
                multiplier,
                expires_at_timestamp: Some(
                    if now + duration_turns > u32::MAX { u32::MAX } else { (now + duration_turns) as u32 },
                ),
                source: Some(source),
            },
        ),
        EquipHook::BeforeHitFlatDamage { .. } => None,
    }
}

/// The modifiers the first `n` hooks leave, in order.
pub open spec fn hook_modifiers(hooks: Seq<EquipHook>, source: EntityId, now: u32, n: int) -> Seq<StatModifier>
    decreases n,
{
    if n <= 0 {
        Seq::empty()
    } else {
        let prev = hook_modifiers(hooks, source, now, n - 1);
        match hook_modifier(hooks[n - 1], source, now) {
            Some(m) => prev.push(m),
            None => prev,
        }
    }
}

/// As its wearer begins an attack at tick `now`, each stat-scaling hook of
/// the item `source` gives the wearer a modifier lasting its turns
/// (saturating), in the hooks' order; flat-damage hooks act later and give
/// none here.
pub fn before_attack_modifiers(hooks: &Vec<EquipHook>, source: EntityId, now: u32) -> (r: Vec<StatModifier>)
    ensures
        r@ == hook_modifiers(hooks@, source, now, hooks@.len() as int),
{
    let mut out: Vec<StatModifier> = Vec::new();
    let mut i: usize = 0;
    while i < hooks.len()
        invariant
            i <= hooks@.len(),
            out@ == hook_modifiers(hooks@, source, now, i as int),
        decreases hooks.len() - i,
    {
        match hooks[i] {
            EquipHook::BeforeAttackMultiplier { stat, multiplier, duration_turns } => {
                out.push(
                    StatModifier {
                        stat,
                        multiplier,
                        expires_at_timestamp: Some(now.saturating_add(duration_turns)),
                        source: Some(source),
                    },
                );
            },
            EquipHook::BeforeHitFlatDamage { .. } => {},
        }
        i = i + 1;
    }
    out
}

/// Law: each item kind goes in the slot of its own kind, and an item adds its
/// lethality and hit to the worn bonus exactly when it is not a weapon:
/// armour, headgear, accessories, talismans, masks and footwear all do.
pub proof fn lemma_offence_from_every_non_weapon(eq: Equipment)
    ensures
        (spec_slot_type(eq.equipment_type) == EquipmentSlotType::Weapon) == (eq.equipment_type is Weapon),
        (spec_slot_type(eq.equipment_type) == EquipmentSlotType::Armor) == (eq.equipment_type is Armor),
        (spec_slot_type(eq.equipment_type) == EquipmentSlotType::Headgear) == (eq.equipment_type is Headgear),
        (spec_slot_type(eq.equipment_type) == EquipmentSlotType::Accessory) == (
        eq.equipment_type is Accessory),
        (spec_slot_type(eq.equipment_type) == EquipmentSlotType::Talisman) == (eq.equipment_type is Talisman),
        (spec_slot_type(eq.equipment_type) == EquipmentSlotType::Mask) == (eq.equipment_type is Mask),
        (spec_slot_type(eq.equipment_type) == EquipmentSlotType::Footwear) == (eq.equipment_type is Footwear),
        adds_offence(eq) == !(eq.equipment_type is Weapon),
{
}

} // verus!
