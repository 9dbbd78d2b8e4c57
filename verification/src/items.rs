//! Inventory items: the catalogue, using a consumable, the last-chance
//! item used before death, and giving an item to another character.

use vstd::prelude::*;
use crate::ability::EntityId;
use crate::equipment::{EquipmentType, Inventory};
use crate::stats::StatPool;

verus! {

/// When an item is used.
#[derive(Clone, Copy, Debug, PartialEq, Eq, Structural)]
pub enum ItemUseTrigger {
    Manual,
    PreDeath,
}

/// What a consumable does.
#[derive(Clone, Copy, Debug, PartialEq, Eq, Structural)]
pub enum ConsumableEffect {
    Heal { amount: u32 },
}

/// What kind of item an item is.
#[derive(Clone, Copy, Debug, PartialEq, Eq, Structural)]
pub enum InventoryItemKind {
    Consumable { effect: ConsumableEffect, usable_on_others: bool, usable_pre_death: bool },
    Equipment(EquipmentType),
}

/// An item of the catalogue.
#[derive(Clone, Debug)]
pub struct InventoryItemDefinition {
    pub id: u16,
    pub name: String,
    pub kind: InventoryItemKind,
}

/// The item catalogue; ids are looked up first to last.
#[derive(Clone, Debug)]
pub struct InventoryItemCatalog {
    pub items: Vec<InventoryItemDefinition>,
}

/// The kind of the first catalogued item with id `id`.
pub open spec fn kind_of(items: Seq<InventoryItemDefinition>, id: u16) -> Option<InventoryItemKind>
    decreases items.len(),
{
    if items.len() == 0 {
        None
    } else if items[0].id == id {
        Some(items[0].kind)
    } else {
        kind_of(items.drop_first(), id)
    }
}

proof fn lemma_kind_of(items: Seq<InventoryItemDefinition>, id: u16, i: int)
    requires
        0 <= i <= items.len(),
        forall|k: int| 0 <= k < i ==> (#[trigger] items[k]).id != id,
    ensures
        i < items.len() && items[i].id == id ==> kind_of(items, id) == Some(items[i].kind),
        i == items.len() ==> kind_of(items, id) is None,
    decreases items.len(),
{
    if i > 0 {
        assert forall|k: int| 0 <= k < i - 1 implies (#[trigger] items.drop_first()[k]).id != id by {
            assert(items.drop_first()[k] == items[k + 1]);
        }
        lemma_kind_of(items.drop_first(), id, i - 1);
        if i < items.len() {
            assert(items.drop_first()[i - 1] == items[i]);
        }
    }
}

/// The first catalogued item with id `id`.
pub open spec fn definition_of(items: Seq<InventoryItemDefinition>, id: u16) -> Option<InventoryItemDefinition>
    decreases items.len(),
{
    if items.len() == 0 {
        None
    } else if items[0].id == id {
        Some(items[0])
    } else {
        definition_of(items.drop_first(), id)
    }
}

proof fn lemma_definition_of(items: Seq<InventoryItemDefinition>, id: u16, i: int)
    requires
        0 <= i <= items.len(),
        forall|k: int| 0 <= k < i ==> (#[trigger] items[k]).id != id,
    ensures
        i < items.len() && items[i].id == id ==> definition_of(items, id) == Some(items[i]),
        i == items.len() ==> definition_of(items, id) is None,
    decreases items.len(),
{
    if i > 0 {
        assert forall|k: int| 0 <= k < i - 1 implies (#[trigger] items.drop_first()[k]).id != id by {
            assert(items.drop_first()[k] == items[k + 1]);
        }
        lemma_definition_of(items.drop_first(), id, i - 1);
        if i < items.len() {
            assert(items.drop_first()[i - 1] == items[i]);
        }
    }
}

impl InventoryItemCatalog {
    /// The built-in catalogue: Field Medicine (id 1001, heals 35, usable on
    /// others) and Last Chance Tonic (id 1002, heals 50, only on oneself,
    /// usable before death).
    pub fn new() -> (r: Self)
        ensures
            kind_of(r.items@, 1001) == Some(
                InventoryItemKind::Consumable {
                    effect: ConsumableEffect::Heal { amount: 35 },
                    usable_on_others: true,
                    usable_pre_death: false,
                },
            ),
            kind_of(r.items@, 1002) == Some(
                InventoryItemKind::Consumable {
                    effect: ConsumableEffect::Heal { amount: 50 },
                    usable_on_others: false,
                    usable_pre_death: true,
                },
            ),
            forall|id: u16| id != 1001 && id != 1002 ==> kind_of(r.items@, id) is None,
            r.items@.len() == 2,
            r.items@[0].name@ == "Field Medicine"@,
            r.items@[1].name@ == "Last Chance Tonic"@,
    {
        let mut items: Vec<InventoryItemDefinition> = Vec::new();
        items.push(
            InventoryItemDefinition {
                id: 1001,
                name: String::from_str("Field Medicine"),
                kind: InventoryItemKind::Consumable {
                    effect: ConsumableEffect::Heal { amount: 35 },
                    usable_on_others: true,
                    usable_pre_death: false,
                },
            },
        );
        items.push(
            InventoryItemDefinition {
                id: 1002,
                name: String::from_str("Last Chance Tonic"),
                kind: InventoryItemKind::Consumable {
                    effect: ConsumableEffect::Heal { amount: 50 },
                    usable_on_others: false,
                    usable_pre_death: true,
                },
            },
        );
        proof {
            let s = items@;
            assert(s.drop_first().drop_first().len() == 0);
            assert(s.drop_first()[0] == s[1]);
            reveal_with_fuel(kind_of, 3);
        }
        InventoryItemCatalog { items }
    }

    /// The item with id `id`, if catalogued.
    pub fn definition(&self, id: u16) -> (r: Option<&InventoryItemDefinition>)
        ensures
            r matches Some(d) ==> definition_of(self.items@, id) == Some(*d),
            r is None ==> definition_of(self.items@, id) is None,
    {
        let mut i: usize = 0;
        while i < self.items.len()
            invariant
                i <= self.items@.len(),
                forall|k: int| 0 <= k < i ==> (#[trigger] self.items@[k]).id != id,
            decreases self.items.len() - i,
        {
            if self.items[i].id == id {
                proof {
                    lemma_definition_of(self.items@, id, i as int);
                }
                return Some(&self.items[i]);
            }
            i = i + 1;
        }
        proof {
            lemma_definition_of(self.items@, id, i as int);
        }
        None
    }

    /// The kind of the item with id `id`, if catalogued.
    pub fn kind(&self, id: u16) -> (r: Option<InventoryItemKind>)
        ensures
            r == kind_of(self.items@, id),
    {
        let mut i: usize = 0;
        while i < self.items.len()
            invariant
                i <= self.items@.len(),
                forall|k: int| 0 <= k < i ==> (#[trigger] self.items@[k]).id != id,
            decreases self.items.len() - i,
        {
            if self.items[i].id == id {
                proof {
                    lemma_kind_of(self.items@, id, i as int);
                }
                return Some(self.items[i].kind);
            }
            i = i + 1;
        }
        proof {
            lemma_kind_of(self.items@, id, i as int);
        }
        None
    }
}

/// Why an item could not be used.
#[derive(Clone, Copy, Debug, PartialEq, Eq, Structural)]
pub enum ItemUseError {
    UnknownItem,
    NotOwned,
    NotUsablePreDeath,
    CannotTargetOthers,
    NotDirectlyUsable,
    NoTargetStats,
}

/// A used item.
#[derive(Clone, Copy, Debug, PartialEq, Eq, Structural)]
pub struct ItemUsed {
    pub user: EntityId,
    pub target: EntityId,
    pub item_id: u16,
    pub trigger: ItemUseTrigger,
}

/// `amount` restored toward the pool's ceiling.
pub open spec fn healed(pool: StatPool<i32>, amount: u32) -> StatPool<i32> {
    StatPool {
        current: if pool.current + (amount as i32) < pool.base {
            (pool.current + (amount as i32)) as i32
        } else {
            pool.base
        },
        ..pool
    }
}

/// The outcome of a use request, before anything changes: which check fails
/// first (unknown item, not owned, the trigger or target not allowed, not a
/// consumable), or the heal it gives.
pub open spec fn use_check(
    catalog: Seq<InventoryItemDefinition>,
    owned: Seq<u16>,
    user: EntityId,
    item_id: u16,
    target: EntityId,
    trigger: ItemUseTrigger,
) -> Result<u32, ItemUseError> {
    match kind_of(catalog, item_id) {
        None => Err(ItemUseError::UnknownItem),
        Some(kind) => if !owned.contains(item_id) {
            Err(ItemUseError::NotOwned)
        } else {
            match kind {
                InventoryItemKind::Consumable { effect, usable_on_others, usable_pre_death } => if trigger
                    == ItemUseTrigger::PreDeath && !usable_pre_death {
                    Err(ItemUseError::NotUsablePreDeath)
                } else if target != user && !usable_on_others {
                    Err(ItemUseError::CannotTargetOthers)
                } else {
                    match effect {
                        ConsumableEffect::Heal { amount } => Ok(amount),
                    }
                },
                InventoryItemKind::Equipment(_) => Err(ItemUseError::NotDirectlyUsable),
            }
        },
    }
}

/// `user` uses `item_id` on `target` (itself when `None`). The item must be
/// catalogued and owned, allowed for the trigger and the target, and a
/// consumable; then it leaves the user's inventory and heals the target's
/// health (`target_health`; when the target has none, the item goes back,
/// to the end of the inventory, and the use fails).
pub fn use_item(
    catalog: &InventoryItemCatalog,
    inventory: &mut Inventory,
    user: EntityId,
    item_id: u16,
    target: Option<EntityId>,
    trigger: ItemUseTrigger,
    target_health: &mut Option<StatPool<i32>>,
) -> (r: Result<ItemUsed, ItemUseError>)
    requires
        match *old(target_health) {
            Some(h) => i32::MIN <= h.current + (heal_amount(kind_of(catalog.items@, item_id)) as i32) <= i32::MAX,
            None => true,
        },
    ensures
        ({
            let t = match target {
                Some(t) => t,
                None => user,
            };
            match use_check(catalog.items@, old(inventory).item_ids@, user, item_id, t, trigger) {
                Err(e) => r == Err::<ItemUsed, ItemUseError>(e) && final(inventory).item_ids@
                    == old(inventory).item_ids@ && *final(target_health) == *old(target_health),
                Ok(amount) => match *old(target_health) {
                    Some(h) => {
                        &&& r == Ok::<ItemUsed, ItemUseError>(ItemUsed { user, target: t, item_id, trigger })
                        &&& final(inventory).item_ids@ == old(inventory).item_ids@.remove(
                            old(inventory).item_ids@.index_of_first(item_id)->0,
                        )
                        &&& *final(target_health) == Some(healed(h, amount))
                    },
                    None => {
                        &&& *final(target_health) is None
                        &&& r == Err::<ItemUsed, ItemUseError>(ItemUseError::NoTargetStats)
                        &&& final(inventory).item_ids@ == old(inventory).item_ids@.remove(
                            old(inventory).item_ids@.index_of_first(item_id)->0,
                        ).push(item_id)
                    },
                },
            }
        }),
{
    let t = match target {
        Some(t) => t,
        None => user,
    };
    let kind = match catalog.kind(item_id) {
        Some(k) => k,
        None => {
            return Err(ItemUseError::UnknownItem);
        },
    };
    if !inventory.has_item(item_id) {
        return Err(ItemUseError::NotOwned);
    }
    let amount: u32 = match kind {
        InventoryItemKind::Consumable { effect, usable_on_others, usable_pre_death } => {
            let pre = match trigger {
                ItemUseTrigger::PreDeath => true,
                ItemUseTrigger::Manual => false,
            };
            if pre && !usable_pre_death {
                return Err(ItemUseError::NotUsablePreDeath);
            }
            if t != user && !usable_on_others {
                return Err(ItemUseError::CannotTargetOthers);
            }
            match effect {
                ConsumableEffect::Heal { amount } => amount,
            }
        },
        InventoryItemKind::Equipment(_) => {
            return Err(ItemUseError::NotDirectlyUsable);
        },
    };
    inventory.remove_item(item_id);
    match *target_health {
        Some(h) => {
            let c: i64 = h.current as i64 + (amount as i32) as i64;
            let current: i32 = if c < h.base as i64 { c as i32 } else { h.base };
            *target_health = Some(StatPool { current, base: h.base });
            Ok(ItemUsed { user, target: t, item_id, trigger })
        },
        None => {
            inventory.add_item(item_id);
            Err(ItemUseError::NoTargetStats)
        },
    }
}

/// Whether an item may be used before death.
pub open spec fn pre_death_usable(kind: Option<InventoryItemKind>) -> bool {
    match kind {
        Some(InventoryItemKind::Consumable { usable_pre_death, .. }) => usable_pre_death,
        _ => false,
    }
}

/// The index of the first owned item that may be used before death, or the
/// inventory's length.
pub open spec fn first_pre_death(catalog: Seq<InventoryItemDefinition>, owned: Seq<u16>) -> int
    decreases owned.len(),
{
    if owned.len() == 0 {
        0
    } else if pre_death_usable(kind_of(catalog, owned[0])) {
        0
    } else {
        1 + first_pre_death(catalog, owned.drop_first())
    }
}

proof fn lemma_first_pre_death(catalog: Seq<InventoryItemDefinition>, owned: Seq<u16>, i: int)
    requires
        0 <= i <= owned.len(),
        forall|k: int| 0 <= k < i ==> !pre_death_usable(kind_of(catalog, #[trigger] owned[k])),
        i < owned.len() ==> pre_death_usable(kind_of(catalog, owned[i])),
    ensures
        first_pre_death(catalog, owned) == i,
    decreases owned.len(),
{
    if i > 0 {
        assert forall|k: int| 0 <= k < i - 1 implies !pre_death_usable(
            kind_of(catalog, #[trigger] owned.drop_first()[k]),
        ) by {
            assert(owned.drop_first()[k] == owned[k + 1]);
        }
        lemma_first_pre_death(catalog, owned.drop_first(), i - 1);
    }
}

proof fn lemma_first_pre_death_found(catalog: Seq<InventoryItemDefinition>, owned: Seq<u16>)
    ensures
        0 <= first_pre_death(catalog, owned) <= owned.len(),
        first_pre_death(catalog, owned) < owned.len() ==> pre_death_usable(
            kind_of(catalog, owned[first_pre_death(catalog, owned)]),
        ),
    decreases owned.len(),
{
    if owned.len() > 0 && !pre_death_usable(kind_of(catalog, owned[0])) {
        lemma_first_pre_death_found(catalog, owned.drop_first());
        let j = first_pre_death(catalog, owned.drop_first());
        if j < owned.drop_first().len() {
            assert(owned.drop_first()[j] == owned[j + 1]);
        }
    }
}

/// The first owned item that may be used before death, if any.
pub fn find_pre_death_item(inventory: &Inventory, catalog: &InventoryItemCatalog) -> (r: Option<u16>)
    ensures
        ({
            let i = first_pre_death(catalog.items@, inventory.item_ids@);
            r == if i < inventory.item_ids@.len() {
                Some(inventory.item_ids@[i])
            } else {
                None
            }
        }),
{
    let mut i: usize = 0;
    while i < inventory.item_ids.len()
        invariant
            i <= inventory.item_ids@.len(),
            forall|k: int|
                0 <= k < i ==> !pre_death_usable(kind_of(catalog.items@, #[trigger] inventory.item_ids@[k])),
        decreases inventory.item_ids.len() - i,
    {
        let id = inventory.item_ids[i];
        let usable = match catalog.kind(id) {
            Some(InventoryItemKind::Consumable { usable_pre_death, .. }) => usable_pre_death,
            _ => false,
        };
        if usable {
            proof {
                lemma_first_pre_death(catalog.items@, inventory.item_ids@, i as int);
            }
            return Some(id);
        }
        i = i + 1;
    }
    proof {
        lemma_first_pre_death(catalog.items@, inventory.item_ids@, i as int);
    }
    None
}

/// The heal of a catalogued consumable.
pub open spec fn heal_amount(kind: Option<InventoryItemKind>) -> u32 {
    match kind {
        Some(InventoryItemKind::Consumable { effect: ConsumableEffect::Heal { amount }, .. }) => amount,
        _ => 0,
    }
}

/// On a lethal hit, `target` uses its first item that may be used before
/// death on itself: the item leaves the inventory and heals its health.
/// Without such an item nothing happens; without health stats the item goes
/// back (to the end of the inventory) and nothing is used.
pub fn try_use_pre_death_item(
    target: EntityId,
    inventory: &mut Inventory,
    catalog: &InventoryItemCatalog,
    health: &mut Option<StatPool<i32>>,
) -> (r: Option<ItemUsed>)
    requires
        forall|id: u16|
            #[trigger] pre_death_usable(kind_of(catalog.items@, id)) ==> match *old(health) {
                Some(h) => i32::MIN <= h.current + (heal_amount(kind_of(catalog.items@, id)) as i32) <= i32::MAX,
                None => true,
            },
    ensures
        ({
            let owned = old(inventory).item_ids@;
            let i = first_pre_death(catalog.items@, owned);
            if i >= owned.len() {
                r is None && final(inventory).item_ids@ == owned && *final(health) == *old(health)
            } else {
                let id = owned[i];
                match *old(health) {
                    Some(h) => {
                        &&& r == Some(ItemUsed { user: target, target, item_id: id, trigger: ItemUseTrigger::PreDeath })
                        &&& final(inventory).item_ids@ == owned.remove(owned.index_of_first(id)->0)
                        &&& *final(health) == Some(healed(h, heal_amount(kind_of(catalog.items@, id))))
                    },
                    None => {
                        &&& r is None
                        &&& *final(health) is None
                        &&& final(inventory).item_ids@ == owned.remove(owned.index_of_first(id)->0).push(id)
                    },
                }
            }
        }),
{
    proof {
        lemma_first_pre_death_found(catalog.items@, inventory.item_ids@);
    }
    let id = match find_pre_death_item(inventory, catalog) {
        Some(id) => id,
        None => {
            return None;
        },
    };
    let amount: u32 = match catalog.kind(id) {
        Some(InventoryItemKind::Consumable { effect: ConsumableEffect::Heal { amount }, .. }) => amount,
        _ => {
            return None;
        },
    };
    proof {
        let owned = inventory.item_ids@;
        let i = first_pre_death(catalog.items@, owned);
        assert(owned[i] == id);
        assert(owned.contains(id));
    }
    inventory.remove_item(id);
    match *health {
        Some(h) => {
            let c: i64 = h.current as i64 + (amount as i32) as i64;
            let current: i32 = if c < h.base as i64 { c as i32 } else { h.base };
            *health = Some(StatPool { current, base: h.base });
            Some(ItemUsed { user: target, target, item_id: id, trigger: ItemUseTrigger::PreDeath })
        },
        None => {
            inventory.add_item(id);
            None
        },
    }
}

/// Why an item could not be given.
#[derive(Clone, Copy, Debug, PartialEq, Eq, Structural)]
pub enum GiveItemError {
    SameCharacter,
    ItemEquipped,
    NoGiverInventory,
    NotOwned,
    NoReceiverInventory,
}

/// A handed-over item.
#[derive(Clone, Copy, Debug, PartialEq, Eq, Structural)]
pub struct ItemTransferred {
    pub giver: EntityId,
    pub receiver: EntityId,
    pub item_id: u16,
}

/// `giver` hands `item_id` to `receiver`. Refused when giving to oneself,
/// when the giver wears the item (`giver_wears_item`), when the giver has no
/// inventory or does not own it, and when the receiver has no inventory (the
/// item then goes back to the end of the giver's inventory). Otherwise the
/// giver's first such item moves to the end of the receiver's inventory.
pub fn give_item(
    giver: EntityId,
    receiver: EntityId,
    item_id: u16,
    giver_wears_item: bool,
    giver_inventory: &mut Option<Inventory>,
    receiver_inventory: &mut Option<Inventory>,
) -> (r: Result<ItemTransferred, GiveItemError>)
    ensures
        giver == receiver ==> {
            &&& r == Err::<ItemTransferred, GiveItemError>(GiveItemError::SameCharacter)
            &&& *final(giver_inventory) == *old(giver_inventory)
            &&& *final(receiver_inventory) == *old(receiver_inventory)
        },
        giver != receiver && giver_wears_item ==> {
            &&& r == Err::<ItemTransferred, GiveItemError>(GiveItemError::ItemEquipped)
            &&& *final(giver_inventory) == *old(giver_inventory)
            &&& *final(receiver_inventory) == *old(receiver_inventory)
        },
        giver != receiver && !giver_wears_item ==> match *old(giver_inventory) {
            None => {
                &&& r == Err::<ItemTransferred, GiveItemError>(GiveItemError::NoGiverInventory)
                &&& *final(giver_inventory) == *old(giver_inventory)
                &&& *final(receiver_inventory) == *old(receiver_inventory)
            },
            Some(g) => if !g.item_ids@.contains(item_id) {
                &&& r == Err::<ItemTransferred, GiveItemError>(GiveItemError::NotOwned)
                &&& (*final(giver_inventory)) is Some
                &&& (*final(giver_inventory))->0.item_ids@ == g.item_ids@
                &&& *final(receiver_inventory) == *old(receiver_inventory)
            } else {
                let rest = g.item_ids@.remove(g.item_ids@.index_of_first(item_id)->0);
                match *old(receiver_inventory) {
                    None => {
                        &&& r == Err::<ItemTransferred, GiveItemError>(GiveItemError::NoReceiverInventory)
                        &&& (*final(giver_inventory)) is Some
                        &&& (*final(giver_inventory))->0.item_ids@ == rest.push(item_id)
                        &&& (*final(receiver_inventory)) is None
                    },
                    Some(v) => {
                        &&& r == Ok::<ItemTransferred, GiveItemError>(ItemTransferred { giver, receiver, item_id })
                        &&& (*final(giver_inventory)) is Some
                        &&& (*final(giver_inventory))->0.item_ids@ == rest
                        &&& (*final(receiver_inventory)) is Some
                        &&& (*final(receiver_inventory))->0.item_ids@ == v.item_ids@.push(item_id)
                    },
                }
            },
        },
{
    if giver == receiver {
        return Err(GiveItemError::SameCharacter);
    }
    if giver_wears_item {
        return Err(GiveItemError::ItemEquipped);
    }
    match giver_inventory {
        None => Err(GiveItemError::NoGiverInventory),
        Some(g) => {
            if !g.remove_item(item_id) {
                return Err(GiveItemError::NotOwned);
            }
            match receiver_inventory {
                None => {
                    g.add_item(item_id);
                    Err(GiveItemError::NoReceiverInventory)
                },
                Some(v) => {
                    v.add_item(item_id);
                    Ok(ItemTransferred { giver, receiver, item_id })
                },
            }
        },
    }
}

} // verus!
