use bevy_game::gogyo::{effective_element, Attunement, Element, ElementalAffinity, Phase, Polarity};

#[test]
fn no_affinity_no_attunement_is_neutral() {
    assert_eq!(effective_element(None, None, false), None);
}

#[test]
fn affinity_alone_is_the_innate_element() {
    let aff = ElementalAffinity::new(Phase::Fire, Polarity::Yo);
    assert_eq!(
        effective_element(Some(&aff), None, false),
        Some(Element { phase: Phase::Fire, polarity: Polarity::Yo })
    );
}

#[test]
fn polarity_flip_inverts_only_polarity() {
    let aff = ElementalAffinity::new(Phase::Fire, Polarity::Yo);
    assert_eq!(
        effective_element(Some(&aff), None, true),
        Some(Element { phase: Phase::Fire, polarity: Polarity::In })
    );
}

#[test]
fn attunement_overrides_phase_but_keeps_polarity() {
    let aff = ElementalAffinity::new(Phase::Fire, Polarity::In);
    let att = Attunement { phase: Phase::Water, expiry: 0 };
    assert_eq!(
        effective_element(Some(&aff), Some(&att), false),
        Some(Element { phase: Phase::Water, polarity: Polarity::In })
    );
}

#[test]
fn attunement_without_affinity_defaults_yo_and_respects_flip() {
    let att = Attunement { phase: Phase::Metal, expiry: 0 };
    assert_eq!(
        effective_element(None, Some(&att), false),
        Some(Element { phase: Phase::Metal, polarity: Polarity::Yo })
    );
    assert_eq!(
        effective_element(None, Some(&att), true),
        Some(Element { phase: Phase::Metal, polarity: Polarity::In })
    );
}

#[test]
fn flipping_twice_restores_the_polarity() {
    assert_eq!(Polarity::Yo.opposite().opposite(), Polarity::Yo);
    assert_eq!(Polarity::In.opposite(), Polarity::Yo);
}

#[test]
fn new_affinity_has_no_resist() {
    let aff = ElementalAffinity::new(Phase::Earth, Polarity::In);
    assert_eq!(aff.resist, 0);
    assert_eq!(aff.innate, Element { phase: Phase::Earth, polarity: Polarity::In });
}
