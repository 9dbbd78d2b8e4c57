use bevy_game::ability::MagicSchool;
use bevy_game::activities::{perform_activity, ActivityKind, ActivityOutcome, Purification};
use bevy_game::equipment::Inventory;
use bevy_game::items::{
    find_pre_death_item, give_item, try_use_pre_death_item, use_item, GiveItemError,
    InventoryItemCatalog, InventoryItemKind, ItemTransferred, ItemUseError, ItemUseTrigger, ItemUsed,
};
use bevy_game::stats::{CombatStats, StatPool};

fn pool(current: i32, base: i32) -> StatPool<i32> {
    StatPool { current, base }
}

fn stats() -> CombatStats {
    CombatStats {
        health: pool(30, 50),
        morale: pool(10, 20),
        action_points: pool(5, 5),
        movement: pool(5, 5),
        kiho: pool(100, 1000),
        onmyodo: pool(200, 300),
        yokaijutsu: pool(0, 2000),
        kamishin: pool(0, 0),
        lethality: pool(0, 0),
        hit: pool(0, 0),
        armor: pool(0, 0),
        speed: pool(0, 0),
        evasion: pool(0, 0),
        mind: pool(0, 0),
        health_per_rest_hour: 0,
        morale_per_rest_hour: 0,
        kiho_per_rest_hour: 0,
        onmyodo_per_rest_hour: 0,
        yokaijutsu_per_rest_hour: 0,
        kamishin_per_rest_hour: 0,
    }
}

#[test]
fn builtin_catalogue_has_two_consumables() {
    let c = InventoryItemCatalog::new();
    assert_eq!(c.items.len(), 2);
    assert_eq!(c.definition(1001).map(|d| d.name.clone()), Some("Field Medicine".to_string()));
    assert_eq!(c.definition(1002).map(|d| d.name.clone()), Some("Last Chance Tonic".to_string()));
    assert!(c.definition(7).is_none());
    assert!(matches!(c.kind(1002), Some(InventoryItemKind::Consumable { usable_pre_death: true, .. })));
    assert!(c.kind(9).is_none());
}

#[test]
fn using_medicine_heals_to_ceiling_and_consumes() {
    let c = InventoryItemCatalog::new();
    let mut inv = Inventory { item_ids: vec![5, 1001, 1001] };
    let mut health = Some(pool(30, 50));
    let r = use_item(&c, &mut inv, 1, 1001, Some(2), ItemUseTrigger::Manual, &mut health);
    assert_eq!(r, Ok(ItemUsed { user: 1, target: 2, item_id: 1001, trigger: ItemUseTrigger::Manual }));
    assert_eq!(inv.item_ids, vec![5, 1001]);
    assert_eq!(health, Some(pool(50, 50)));
}

#[test]
fn use_item_errors() {
    let c = InventoryItemCatalog::new();
    let mut inv = Inventory { item_ids: vec![1001, 1002] };
    let mut health = Some(pool(30, 50));
    assert_eq!(
        use_item(&c, &mut inv, 1, 42, None, ItemUseTrigger::Manual, &mut health),
        Err(ItemUseError::UnknownItem)
    );
    let mut empty = Inventory { item_ids: vec![] };
    assert_eq!(
        use_item(&c, &mut empty, 1, 1001, None, ItemUseTrigger::Manual, &mut health),
        Err(ItemUseError::NotOwned)
    );
    assert_eq!(
        use_item(&c, &mut inv, 1, 1001, None, ItemUseTrigger::PreDeath, &mut health),
        Err(ItemUseError::NotUsablePreDeath)
    );
    assert_eq!(
        use_item(&c, &mut inv, 1, 1002, Some(3), ItemUseTrigger::Manual, &mut health),
        Err(ItemUseError::CannotTargetOthers)
    );
    assert_eq!(inv.item_ids, vec![1001, 1002]);
    let mut none = None;
    assert_eq!(
        use_item(&c, &mut inv, 1, 1001, None, ItemUseTrigger::Manual, &mut none),
        Err(ItemUseError::NoTargetStats)
    );
    assert_eq!(inv.item_ids, vec![1002, 1001]);
}

#[test]
fn pre_death_item_is_the_tonic() {
    let c = InventoryItemCatalog::new();
    let mut inv = Inventory { item_ids: vec![1001, 1002] };
    assert_eq!(find_pre_death_item(&inv, &c), Some(1002));
    let mut health = Some(pool(0, 80));
    let r = try_use_pre_death_item(4, &mut inv, &c, &mut health);
    assert_eq!(r, Some(ItemUsed { user: 4, target: 4, item_id: 1002, trigger: ItemUseTrigger::PreDeath }));
    assert_eq!(health, Some(pool(50, 80)));
    assert_eq!(inv.item_ids, vec![1001]);
    assert_eq!(find_pre_death_item(&inv, &c), None);
    assert_eq!(try_use_pre_death_item(4, &mut inv, &c, &mut health), None);
}

#[test]
fn giving_items_moves_them() {
    let mut g = Some(Inventory { item_ids: vec![1001, 1002] });
    let mut v = Some(Inventory { item_ids: vec![] });
    assert_eq!(
        give_item(1, 2, 1002, false, &mut g, &mut v),
        Ok(ItemTransferred { giver: 1, receiver: 2, item_id: 1002 })
    );
    assert_eq!(g.as_ref().unwrap().item_ids, vec![1001]);
    assert_eq!(v.as_ref().unwrap().item_ids, vec![1002]);
    assert_eq!(give_item(1, 1, 1001, false, &mut g, &mut v), Err(GiveItemError::SameCharacter));
    assert_eq!(give_item(1, 2, 1001, true, &mut g, &mut v), Err(GiveItemError::ItemEquipped));
    assert_eq!(give_item(1, 2, 9, false, &mut g, &mut v), Err(GiveItemError::NotOwned));
    let mut nobody: Option<Inventory> = None;
    assert_eq!(give_item(1, 2, 1001, false, &mut nobody, &mut v), Err(GiveItemError::NoGiverInventory));
    assert_eq!(give_item(1, 2, 1001, false, &mut g, &mut nobody), Err(GiveItemError::NoReceiverInventory));
    assert_eq!(g.as_ref().unwrap().item_ids, vec![1001]);
}

#[test]
fn activities_restore_their_school() {
    let mut s = stats();
    let r = perform_activity(&mut s, ActivityKind::Meditation, 2, 1000);
    assert_eq!(r, ActivityOutcome::Restored { school: MagicSchool::Kiho, gain: 300, health_cost: 0 });
    assert_eq!(s.kiho.current, 400);
    let r = perform_activity(&mut s, ActivityKind::Forage, 3, 500);
    assert_eq!(r, ActivityOutcome::Restored { school: MagicSchool::Onmyodo, gain: 105, health_cost: 0 });
    assert_eq!(s.onmyodo.current, 300);
}

#[test]
fn blood_pact_costs_health() {
    let mut s = stats();
    let r = perform_activity(&mut s, ActivityKind::BloodPact, 10, 1000);
    assert_eq!(r, ActivityOutcome::Restored { school: MagicSchool::Yokaijutsu, gain: 2500, health_cost: 40 });
    assert_eq!(s.yokaijutsu.current, 2000);
    assert_eq!(s.health.current, 0);
}

#[test]
fn purification_and_idle_change_nothing() {
    let mut s = stats();
    assert_eq!(perform_activity(&mut s, ActivityKind::Misogi, 1, 1000), ActivityOutcome::Purified(Purification::Misogi));
    assert_eq!(perform_activity(&mut s, ActivityKind::Harae, 1, 1000), ActivityOutcome::Purified(Purification::Harae));
    assert_eq!(perform_activity(&mut s, ActivityKind::Prayer, 0, 1000), ActivityOutcome::Nothing);
    assert_eq!(s, stats());
    assert!(ActivityKind::Harae.requires_place());
    assert!(!ActivityKind::Meditation.requires_place());
    assert_eq!(ActivityKind::Pilgrimage.school(), MagicSchool::Kamishin);
    assert_eq!(ActivityKind::Pilgrimage.restoration_per_hour(), 200);
}

#[test]
fn stat_pool_spend_and_restore() {
    let mut p = StatPool::new(-4);
    assert_eq!(p, pool(0, 0));
    let mut q = StatPool::new(10);
    assert!(q.spend(4));
    assert_eq!(q.current, 6);
    assert!(!q.spend(7));
    assert_eq!(q.current, 6);
    assert!(q.spend(-3));
    assert_eq!(q.current, 6);
    q.restore_to_base(100);
    assert_eq!(q.current, 10);
    q.add_to_base(-15);
    assert_eq!(q, pool(0, 0));
    p.add_to_base(5);
    assert_eq!(p, pool(5, 5));
    let s = stats();
    assert_eq!(s.total_magic_current(), 300);
    assert_eq!(s.total_magic_base(), 3300);
    assert_eq!(*s.pool(MagicSchool::Onmyodo), pool(200, 300));
}
