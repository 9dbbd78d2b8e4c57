//! The five-phase (五行) element wheel: a phase and an In/Yō polarity, and
//! how a combatant's effective element follows from its innate affinity, a
//! temporary attunement and a temporary polarity flip, and when those lapse.

use vstd::prelude::*;

verus! {

/// A phase of the five-phase wheel.
#[derive(Clone, Copy, Debug, PartialEq, Eq, Structural)]
pub enum Phase {
    Wood,
    Fire,
    Earth,
    Metal,
    Water,
}

impl Phase {
    /// The phase's kanji.
    pub fn kanji(self) -> (r: &'static str)
        ensures
            r@ == match self {
                Phase::Wood => "木"@,
                Phase::Fire => "火"@,
                Phase::Earth => "土"@,
                Phase::Metal => "金"@,
                Phase::Water => "水"@,
            },
    {
        match self {
            Phase::Wood => "木",
            Phase::Fire => "火",
            Phase::Earth => "土",
            Phase::Metal => "金",
            Phase::Water => "水",
        }
    }

    /// The phase's kanji and English name, as the element wheel shows it.
    pub fn label(self) -> (r: &'static str)
        ensures
            r@ == match self {
                Phase::Wood => "木 Wood"@,
                Phase::Fire => "火 Fire"@,
                Phase::Earth => "土 Earth"@,
                Phase::Metal => "金 Metal"@,
                Phase::Water => "水 Water"@,
            },
    {
        match self {
            Phase::Wood => "木 Wood",
            Phase::Fire => "火 Fire",
            Phase::Earth => "土 Earth",
            Phase::Metal => "金 Metal",
            Phase::Water => "水 Water",
        }
    }
}

/// In (陰) or Yō (陽).
#[derive(Clone, Copy, Debug, PartialEq, Eq, Structural)]
pub enum Polarity {
    In,
    Yo,
}

impl Polarity {
    /// The other polarity.
    pub fn opposite(self) -> (r: Polarity)
        ensures
            r != self,
            r == (match self {
                Polarity::In => Polarity::Yo,
                Polarity::Yo => Polarity::In,
            }),
    {
        match self {
            Polarity::In => Polarity::Yo,
            Polarity::Yo => Polarity::In,
        }
    }
}

/// A point on the wheel.
#[derive(Clone, Copy, Debug, PartialEq, Eq, Structural)]
pub struct Element {
    pub phase: Phase,
    pub polarity: Polarity,
}

/// A combatant's innate place on the wheel.
#[derive(Clone, Copy, Debug, PartialEq, Eq, Structural)]
pub struct ElementalAffinity {
    /// The unit's natural element.
    pub innate: Element,
    /// How much of an incoming matchup swing the unit shrugs off, in
    /// thousandths (`0` = the full swing applies, `1000` = none of it).
    pub resist: u32,
}

impl ElementalAffinity {
    /// An affinity from a phase and a polarity, with no innate resist.
    pub fn new(phase: Phase, polarity: Polarity) -> (r: Self)
        ensures
            r.innate == (Element { phase, polarity }),
            r.resist == 0,
    {
        ElementalAffinity { innate: Element { phase, polarity }, resist: 0 }
    }
}

/// A temporary phase attunement: overrides the phase (not the polarity) until
/// the timestamp `expiry`.
#[derive(Clone, Copy, Debug, PartialEq, Eq, Structural)]
pub struct Attunement {
    pub phase: Phase,
    pub expiry: u32,
}

/// A temporary polarity flip, present until the timestamp `expiry`.
#[derive(Clone, Copy, Debug, PartialEq, Eq, Structural)]
pub struct PolarityFlip {
    pub expiry: u32,
}

/// The polarity opposite to `p`.
pub open spec fn opposite_polarity(p: Polarity) -> Polarity {
    match p {
        Polarity::In => Polarity::Yo,
        Polarity::Yo => Polarity::In,
    }
}

/// The effective element: no element when the unit has neither an affinity
/// nor an attunement; otherwise the attunement's phase if any (else the
/// innate one), with the innate polarity (Yō when there is none), inverted
/// when flipped.
pub open spec fn spec_effective_element(
    affinity: Option<ElementalAffinity>,
    attunement: Option<Attunement>,
    flipped: bool,
) -> Option<Element> {
    if affinity is None && attunement is None {
        None
    } else {
        let phase = match attunement {
            Some(a) => a.phase,
            None => affinity->0.innate.phase,
        };
        let base = match affinity {
            Some(a) => a.innate.polarity,
            None => Polarity::Yo,
        };
        let polarity = if flipped { opposite_polarity(base) } else { base };
        Some(Element { phase, polarity })
    }
}

/// Resolve a combatant's effective element from its innate affinity, an
/// attunement that overrides the phase, and whether its polarity is flipped.
pub fn effective_element(
    affinity: Option<&ElementalAffinity>,
    attunement: Option<&Attunement>,
    flipped: bool,
) -> (r: Option<Element>)
    ensures
        r == spec_effective_element(
            match affinity { Some(a) => Some(*a), None => None },
            match attunement { Some(a) => Some(*a), None => None },
            flipped,
        ),
{
    let phase = match attunement {
        Some(a) => a.phase,
        None => match affinity {
            Some(a) => a.innate.phase,
            None => {
                return None;
            },
        },
    };
    let mut polarity = match affinity {
        Some(a) => a.innate.polarity,
        None => Polarity::Yo,
    };
    if flipped {
        polarity = polarity.opposite();
    }
    Some(Element { phase, polarity })
}

/// Law: a flip changes only the polarity of the effective element, and two
/// calls that differ only in the flip give opposite polarities on the same
/// phase.
pub proof fn lemma_flip_inverts_only_polarity(
    affinity: Option<ElementalAffinity>,
    attunement: Option<Attunement>,
)
    ensures
        spec_effective_element(affinity, attunement, true) is Some
            <==> spec_effective_element(affinity, attunement, false) is Some,
        spec_effective_element(affinity, attunement, true) is Some ==> {
            let a = spec_effective_element(affinity, attunement, true)->0;
            let b = spec_effective_element(affinity, attunement, false)->0;
            a.phase == b.phase && a.polarity == opposite_polarity(b.polarity)
        },
{
}

/// Law: an attunement decides the phase whatever the affinity, and never
/// changes the polarity that the affinity alone would give.
pub proof fn lemma_attunement_sets_phase_keeps_polarity(
    affinity: ElementalAffinity,
    attunement: Attunement,
    flipped: bool,
)
    ensures
        spec_effective_element(Some(affinity), Some(attunement), flipped) == Some(
            Element {
                phase: attunement.phase,
                polarity: spec_effective_element(Some(affinity), None, flipped)->0.polarity,
            },
        ),
{
}

/// Law: a combatant with an affinity, no attunement and no flip fights in
/// exactly its innate element; an attunement replaces only the phase and a
/// flip only turns the innate polarity over; with neither affinity nor
/// attunement there is no element, and an attunement alone gives Yō.
pub proof fn lemma_element_from_innate(affinity: ElementalAffinity, attunement: Attunement)
    ensures
        spec_effective_element(Some(affinity), None, false) == Some(affinity.innate),
        spec_effective_element(Some(affinity), Some(attunement), false) == Some(
            Element { phase: attunement.phase, polarity: affinity.innate.polarity },
        ),
        spec_effective_element(Some(affinity), None, true)->0.phase == affinity.innate.phase,
        spec_effective_element(Some(affinity), None, true)->0.polarity != affinity.innate.polarity,
        spec_effective_element(None, None, false) is None,
        spec_effective_element(None, None, true) is None,
        spec_effective_element(None, Some(attunement), false) == Some(
            Element { phase: attunement.phase, polarity: Polarity::Yo },
        ),
{
}

/// The tick `duration` ticks after `now`, saturating at the end of time.
pub open spec fn expiry_after(now: u32, duration: u32) -> u32 {
    if now + duration > u32::MAX { u32::MAX } else { (now + duration) as u32 }
}

/// An attunement to `phase` from tick `now` for `duration` ticks.
pub fn attune(phase: Phase, now: u32, duration: u32) -> (r: Attunement)
    ensures
        r == (Attunement { phase, expiry: expiry_after(now, duration) }),
{
    Attunement { phase, expiry: now.saturating_add(duration) }
}

/// A polarity flip from tick `now` for `duration` ticks.
pub fn flip_polarity(now: u32, duration: u32) -> (r: PolarityFlip)
    ensures
        r == (PolarityFlip { expiry: expiry_after(now, duration) }),
{
    PolarityFlip { expiry: now.saturating_add(duration) }
}

/// At tick `now`, an attunement or a flip whose expiry has come is removed;
/// one still running stays.
pub fn expire_elemental_modifiers(attunement: &mut Option<Attunement>, flip: &mut Option<PolarityFlip>, now: u32)
    ensures
        *final(attunement) == match *old(attunement) {
            Some(a) => if now >= a.expiry { None } else { Some(a) },
            None => None,
        },
        *final(flip) == match *old(flip) {
            Some(f) => if now >= f.expiry { None } else { Some(f) },
            None => None,
        },
{
    match *attunement {
        Some(a) => {
            if now >= a.expiry {
                *attunement = None;
            }
        },
        None => {},
    }
    match *flip {
        Some(f) => {
            if now >= f.expiry {
                *flip = None;
            }
        },
        None => {},
    }
}

} // verus!
