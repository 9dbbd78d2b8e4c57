use bevy_game::ability::MagicSchool;
use bevy_game::characters::{CharacterKind, SelectedParty, MAX_OBJECTS};
use bevy_game::equipment::EquipmentSlotType;
use bevy_game::gogyo::{Element, Phase, Polarity};

/// Every protagonist ships with a starting ability set, and each id must
/// decode to a level within the engine cap (5-bit level field, at most 30).
#[test]
fn every_character_has_abilities_within_level_cap() {
    for kind in CharacterKind::all() {
        let abilities = kind.abilities();
        assert!(!abilities.is_empty(), "{:?} has no starting abilities", kind);
        for id in abilities {
            let level = id >> 11; // top 5 bits encode the ability's level
            assert!(level <= 30, "{:?} ability {id} decodes to level {level} > 30", kind);
        }
    }
}

/// The leader is element 0 and companions are capped to the remaining party
/// slots, never exceeding `MAX_OBJECTS - 1`.
#[test]
fn selected_party_leader_and_companion_cap() {
    let party = SelectedParty(vec![
        CharacterKind::Kanzo,
        CharacterKind::Rina,
        CharacterKind::Suzuka,
        CharacterKind::Houjou,
        CharacterKind::Sayaka, // one beyond a 4-slot party
    ]);
    assert_eq!(party.leader(), Some(CharacterKind::Kanzo));
    assert_eq!(
        party.companions().len(),
        MAX_OBJECTS - 1,
        "companions must be capped to the non-leader slots",
    );
    assert!(!party.companions().contains(&CharacterKind::Kanzo), "leader must not also be a companion");

    let empty = SelectedParty(vec![]);
    assert_eq!(empty.leader(), None);
    assert!(empty.companions().is_empty());
}

/// Spirit yields 3 distribution points per point, and a character's
/// allocation should not exceed that.
#[test]
fn magic_distribution_within_spirit_budget() {
    for kind in CharacterKind::all() {
        let g = kind.growth();
        let allocated = g.magic_distribution.kiho as u32
            + g.magic_distribution.onmyodo as u32
            + g.magic_distribution.yokaijutsu as u32
            + g.magic_distribution.kamishin as u32;
        assert!(
            allocated <= 3 * g.spirit as u32,
            "{:?} over-allocates magic distribution ({} > 3*{})",
            kind,
            allocated,
            g.spirit
        );
    }
}

#[test]
fn roster_has_ten_protagonists_with_distinct_ids() {
    let all = CharacterKind::all();
    assert_eq!(all.len(), 10);
    let mut ids: Vec<u32> = all.iter().map(|k| k.character_id()).collect();
    ids.sort();
    ids.dedup();
    assert_eq!(ids.len(), 10);
    assert_eq!(CharacterKind::Kanzo.character_id(), 7);
}

#[test]
fn starting_magic_follows_affinity() {
    for kind in CharacterKind::all() {
        let stats = kind.combat_stats(3);
        let aff = kind.magic_affinities();
        assert!(!aff.is_empty());
        if stats.kiho.base > 0 {
            assert!(aff.contains(&MagicSchool::Kiho));
        }
        if stats.onmyodo.base > 0 {
            assert!(aff.contains(&MagicSchool::Onmyodo));
        }
        if stats.yokaijutsu.base > 0 {
            assert!(aff.contains(&MagicSchool::Yokaijutsu));
        }
        if stats.kamishin.base > 0 {
            assert!(aff.contains(&MagicSchool::Kamishin));
        }
        assert!(stats.health.base > 0, "{:?} has no health", kind);
    }
}

#[test]
fn the_rogue_gets_one_more_action_point() {
    assert_eq!(CharacterKind::Rina.combat_stats(3).action_points.base, 4);
    assert_eq!(CharacterKind::Iwao.combat_stats(3).action_points.base, 3);
    assert_eq!(CharacterKind::Iwao.combat_stats(3).health.base, 90);
    assert_eq!(CharacterKind::Iwao.combat_stats(3).health.current, 90);
}

#[test]
fn names_and_elements() {
    assert_eq!(CharacterKind::Houjou.display_name(), "Houjou Utaka");
    assert_eq!(CharacterKind::Rina.class_label(), "Rogue");
    assert_eq!(CharacterKind::Kanzo.innate_element(), Element { phase: Phase::Metal, polarity: Polarity::Yo });
    assert_eq!(CharacterKind::Sayaka.innate_element(), Element { phase: Phase::Earth, polarity: Polarity::Yo });
}

#[test]
fn loadouts_start_empty() {
    let l = CharacterKind::Rina.equipment_loadout();
    assert!(!l.slots.is_empty());
    assert_eq!(l.slots[0].slot_type, EquipmentSlotType::Weapon);
    assert!(l.equipped_items().is_empty());
}

#[test]
fn default_party_is_the_balanced_four() {
    let p = SelectedParty::default();
    assert_eq!(p.0, vec![CharacterKind::Rina, CharacterKind::Sayaka, CharacterKind::Houjou, CharacterKind::Toshiko]);
    assert_eq!(p.companions(), vec![CharacterKind::Sayaka, CharacterKind::Houjou, CharacterKind::Toshiko]);
}

/// Every protagonist starts with some health.
#[test]
fn every_character_has_health() {
    for kind in CharacterKind::all() {
        let stats = kind.combat_stats(3);
        assert!(stats.health.base > 0, "{:?} has no health", kind);
    }
}
