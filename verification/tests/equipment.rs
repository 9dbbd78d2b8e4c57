use bevy_game::equipment::{
    default_allowed_types_for_slot, AccessoryType, ArmorType, Equipment, EquipmentBonus, EquipmentLoadout,
    EquipmentSlotType, EquipmentType, Inventory, ItemMaterial, MaskType, WeaponSharpness, WeaponType,
};

fn gear(equipment_type: EquipmentType, leth: i32, hit: i32, armor: i32, agi: i32, mind: i32) -> Equipment {
    Equipment {
        id: 0,
        name: String::new(),
        equipment_type,
        base_price: 0,
        materials: vec![],
        lethality: leth,
        hit,
        armor,
        agility: agi,
        mind,
        morale: 0,
    }
}

/// Armor / agility / mind are summed from every slot; offensive
/// lethality+hit are summed from non-weapon slots only.
#[test]
fn weapon_offence_is_excluded_but_its_defence_counts() {
    let mut b = EquipmentBonus::default();
    b.accumulate(&gear(EquipmentType::Weapon(WeaponType::Sword), 10, 5, 0, 2, 0));
    b.accumulate(&gear(EquipmentType::Accessory(AccessoryType::Charm), 1, 2, 1, 1, 6));
    b.accumulate(&gear(EquipmentType::Armor(ArmorType::Kusari), 0, 0, 8, -1, 0));
    b.accumulate(&gear(EquipmentType::Mask(MaskType::Hannya), 0, 1, 0, 0, 4));

    assert_eq!(b.lethality, 1);
    assert_eq!(b.hit, 3);
    assert_eq!(b.armor, 9);
    assert_eq!(b.agility, 2);
    assert_eq!(b.mind, 10);
}

#[test]
fn sharpness_multiplier_runs_from_six_tenths_to_one() {
    assert_eq!(WeaponSharpness::new(0, 5).damage_multiplier(), 600);
    assert_eq!(WeaponSharpness::new(50, 5).damage_multiplier(), 800);
    assert_eq!(WeaponSharpness::new(100, 5).damage_multiplier(), 1000);
    // Sharpness is capped at 100 on creation.
    assert_eq!(WeaponSharpness::new(250, 5).current, 100);
}

#[test]
fn dulling_stops_at_zero() {
    let mut s = WeaponSharpness::new(7, 5);
    s.dull_on_attack();
    assert_eq!(s.current, 2);
    s.dull_on_attack();
    assert_eq!(s.current, 0);
    assert_eq!(s.loss_per_attack, 5);
}

#[test]
fn equipping_prefers_a_free_matching_slot() {
    let mut l = EquipmentLoadout::with_slots(vec![
        EquipmentSlotType::Weapon,
        EquipmentSlotType::Accessory,
        EquipmentSlotType::Accessory,
    ]);
    let charm = EquipmentType::Accessory(AccessoryType::Charm);
    assert!(l.equip_in_first_matching_slot(charm, 11));
    assert!(l.equip_in_first_matching_slot(charm, 12));
    assert_eq!(l.slots[1].equipped, Some(11));
    assert_eq!(l.slots[2].equipped, Some(12));
    // Both accessory slots are taken: the first one is replaced.
    assert!(l.equip_in_first_matching_slot(charm, 13));
    assert_eq!(l.slots[1].equipped, Some(13));
    assert_eq!(l.slots[2].equipped, Some(12));
    // No slot takes armour.
    assert!(!l.equip_in_first_matching_slot(EquipmentType::Armor(ArmorType::Robe), 14));
    assert_eq!(l.equipped_in_slot(EquipmentSlotType::Weapon), None);
    assert_eq!(l.equipped_in_slot(EquipmentSlotType::Accessory), Some(13));
    assert_eq!(l.equipped_items(), vec![13, 12]);
}

#[test]
fn allowed_types_restrict_a_slot() {
    let mut l = EquipmentLoadout::with_allowed_types(vec![(
        EquipmentSlotType::Weapon,
        vec![EquipmentType::Weapon(WeaponType::Dagger)],
    )]);
    assert!(!l.equip_in_first_matching_slot(EquipmentType::Weapon(WeaponType::Sword), 1));
    assert!(l.equip_in_first_matching_slot(EquipmentType::Weapon(WeaponType::Dagger), 2));
    assert!(l.has_equipped_item_id(300, &vec![(2, 300), (5, 301)]));
    assert!(!l.has_equipped_item_id(301, &vec![(2, 300), (5, 301)]));
}

#[test]
fn every_slot_kind_lists_its_item_kinds() {
    let weapons = default_allowed_types_for_slot(EquipmentSlotType::Weapon);
    assert_eq!(weapons.len(), 16);
    assert_eq!(weapons[0], EquipmentType::Weapon(WeaponType::Sword));
    for t in default_allowed_types_for_slot(EquipmentSlotType::Mask) {
        assert_eq!(t.slot_type(), EquipmentSlotType::Mask);
    }
}

#[test]
fn inventory_removes_the_first_copy() {
    let mut inv = Inventory { item_ids: vec![3, 5, 3] };
    assert!(inv.has_item(5));
    assert!(inv.remove_item(3));
    assert_eq!(inv.item_ids, vec![5, 3]);
    assert!(!inv.remove_item(9));
    inv.add_item(9);
    assert_eq!(inv.item_ids, vec![5, 3, 9]);
}

#[test]
fn materials_have_their_values() {
    assert_eq!(ItemMaterial::IronIngot.value(), 600);
    assert_eq!(ItemMaterial::SilverSteelIngot.value(), 1000);
    assert_eq!(ItemMaterial::Cloth.value(), 300);
}
