use bevy_game::ability_id::{pack_ability_id, unpack_ability_id, MAX_LEVEL, MAX_SUB_ID};

#[test]
fn pack_unpack_round_trips() {
    for level in 0..=MAX_LEVEL {
        for sub in [0u16, 1, 7, 255, 1000, MAX_SUB_ID] {
            let id = pack_ability_id(level, sub);
            assert_eq!(unpack_ability_id(id), (level, sub));
        }
    }
}

#[test]
fn level_is_clamped_to_max() {
    // 5 bits can encode 31, but the cap is 30.
    assert_eq!(unpack_ability_id(pack_ability_id(31, 0)).0, MAX_LEVEL);
    assert_eq!(unpack_ability_id(pack_ability_id(200, 5)), (MAX_LEVEL, 5));
}

#[test]
fn sub_id_does_not_bleed_into_level() {
    // Over-large sub-ids are masked, never corrupting the level field.
    let id = pack_ability_id(12, MAX_SUB_ID + 9);
    let (level, sub) = unpack_ability_id(id);
    assert_eq!(level, 12);
    assert!(sub <= MAX_SUB_ID);
}

#[test]
fn packed_id_puts_level_in_the_top_five_bits() {
    assert_eq!(pack_ability_id(15, 0), 30720);
    assert_eq!(pack_ability_id(15, 2), 30722);
    assert_eq!(pack_ability_id(1, 1), 2049);
    assert_eq!(unpack_ability_id(30721), (15, 1));
}

#[test]
fn oversized_sub_id_is_masked_to_eleven_bits() {
    assert_eq!(pack_ability_id(0, 2048), 0);
    assert_eq!(pack_ability_id(0, 2049), 1);
}
