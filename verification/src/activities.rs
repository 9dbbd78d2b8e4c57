//! Restoration activities between hunts: which magic school each restores,
//! at what rate, where it must be performed, and what performing one does.

use vstd::prelude::*;
use crate::ability::MagicSchool;
use crate::stats::CombatStats;

verus! {

/// An activity a character can perform between hunts.
#[derive(Clone, Copy, Debug, PartialEq, Eq, Structural)]
pub enum ActivityKind {
    Meditation,
    BreathExercises,
    KataPractice,
    SparringDrills,
    ShrineFocus,
    NatureSpiritInteraction,
    TendSacredGrove,
    Forage,
    CraftTalisman,
    RestFertileTerrain,
    NightRitual,
    SpiritOffering,
    BloodPact,
    BindingCircle,
    HauntedLocation,
    Prayer,
    ShrineOffering,
    FormalRite,
    Pilgrimage,
    TempleBlessing,
    Misogi,
    Harae,
}

/// A purification rite.
#[derive(Clone, Copy, Debug, PartialEq, Eq, Structural)]
pub enum Purification {
    Misogi,
    Harae,
}

/// The school an activity restores (purification counts as Onmyōdō).
pub open spec fn spec_school(a: ActivityKind) -> MagicSchool {
    match a {
        ActivityKind::Meditation | ActivityKind::BreathExercises | ActivityKind::KataPractice
        | ActivityKind::SparringDrills | ActivityKind::ShrineFocus => MagicSchool::Kiho,
        ActivityKind::NatureSpiritInteraction | ActivityKind::TendSacredGrove | ActivityKind::Forage
        | ActivityKind::CraftTalisman | ActivityKind::RestFertileTerrain => MagicSchool::Onmyodo,
        ActivityKind::NightRitual | ActivityKind::SpiritOffering | ActivityKind::BloodPact
        | ActivityKind::BindingCircle | ActivityKind::HauntedLocation => MagicSchool::Yokaijutsu,
        ActivityKind::Prayer | ActivityKind::ShrineOffering | ActivityKind::FormalRite
        | ActivityKind::Pilgrimage | ActivityKind::TempleBlessing => MagicSchool::Kamishin,
        ActivityKind::Misogi | ActivityKind::Harae => MagicSchool::Onmyodo,
    }
}

/// Magic restored per hour, in hundredths of a point.
pub open spec fn spec_rate(a: ActivityKind) -> u32 {
    match a {
        ActivityKind::Meditation => 150,
        ActivityKind::BreathExercises => 80,
        ActivityKind::KataPractice => 60,
        ActivityKind::SparringDrills => 40,
        ActivityKind::ShrineFocus => 120,
        ActivityKind::NatureSpiritInteraction => 140,
        ActivityKind::TendSacredGrove => 100,
        ActivityKind::Forage => 70,
        ActivityKind::CraftTalisman => 50,
        ActivityKind::RestFertileTerrain => 100,
        ActivityKind::NightRitual => 180,
        ActivityKind::SpiritOffering => 120,
        ActivityKind::BloodPact => 250,
        ActivityKind::BindingCircle => 90,
        ActivityKind::HauntedLocation => 100,
        ActivityKind::Prayer => 150,
        ActivityKind::ShrineOffering => 120,
        ActivityKind::FormalRite => 140,
        ActivityKind::Pilgrimage => 200,
        ActivityKind::TempleBlessing => 160,
        ActivityKind::Misogi | ActivityKind::Harae => 0,
    }
}

impl ActivityKind {
    /// The magic school the activity restores.
    pub fn school(self) -> (r: MagicSchool)
        ensures
            r == spec_school(self),
    {
        match self {
            ActivityKind::Meditation | ActivityKind::BreathExercises | ActivityKind::KataPractice
            | ActivityKind::SparringDrills | ActivityKind::ShrineFocus => MagicSchool::Kiho,
            ActivityKind::NatureSpiritInteraction | ActivityKind::TendSacredGrove | ActivityKind::Forage
            | ActivityKind::CraftTalisman | ActivityKind::RestFertileTerrain => MagicSchool::Onmyodo,
            ActivityKind::NightRitual | ActivityKind::SpiritOffering | ActivityKind::BloodPact
            | ActivityKind::BindingCircle | ActivityKind::HauntedLocation => MagicSchool::Yokaijutsu,
            ActivityKind::Prayer | ActivityKind::ShrineOffering | ActivityKind::FormalRite
            | ActivityKind::Pilgrimage | ActivityKind::TempleBlessing => MagicSchool::Kamishin,
            ActivityKind::Misogi | ActivityKind::Harae => MagicSchool::Onmyodo,
        }
    }

    /// Whether the rite needs a consecrated place rather than a camp.
    pub fn requires_place(self) -> (r: bool)
        ensures
            r == (self is Harae || self is Misogi || self is ShrineFocus || self is ShrineOffering
                || self is FormalRite || self is TempleBlessing || self is Pilgrimage || self is TendSacredGrove
                || self is BindingCircle || self is HauntedLocation || self is RestFertileTerrain),
    {
        match self {
            ActivityKind::Harae | ActivityKind::Misogi | ActivityKind::ShrineFocus
            | ActivityKind::ShrineOffering | ActivityKind::FormalRite | ActivityKind::TempleBlessing
            | ActivityKind::Pilgrimage | ActivityKind::TendSacredGrove | ActivityKind::BindingCircle
            | ActivityKind::HauntedLocation | ActivityKind::RestFertileTerrain => true,
            _ => false,
        }
    }

    /// The purification rite the activity performs, if any.
    pub fn purification(self) -> (r: Option<Purification>)
        ensures
            r == match self {
                ActivityKind::Misogi => Some(Purification::Misogi),
                ActivityKind::Harae => Some(Purification::Harae),
                _ => None::<Purification>,
            },
    {
        match self {
            ActivityKind::Misogi => Some(Purification::Misogi),
            ActivityKind::Harae => Some(Purification::Harae),
            _ => None,
        }
    }

    /// Magic restored per hour, in hundredths of a point.
    pub fn restoration_per_hour(self) -> (r: u32)
        ensures
            r == spec_rate(self),
    {
        match self {
            ActivityKind::Meditation => 150,
            ActivityKind::BreathExercises => 80,
            ActivityKind::KataPractice => 60,
            ActivityKind::SparringDrills => 40,
            ActivityKind::ShrineFocus => 120,
            ActivityKind::NatureSpiritInteraction => 140,
            ActivityKind::TendSacredGrove => 100,
            ActivityKind::Forage => 70,
            ActivityKind::CraftTalisman => 50,
            ActivityKind::RestFertileTerrain => 100,
            ActivityKind::NightRitual => 180,
            ActivityKind::SpiritOffering => 120,
            ActivityKind::BloodPact => 250,
            ActivityKind::BindingCircle => 90,
            ActivityKind::HauntedLocation => 100,
            ActivityKind::Prayer => 150,
            ActivityKind::ShrineOffering => 120,
            ActivityKind::FormalRite => 140,
            ActivityKind::Pilgrimage => 200,
            ActivityKind::TempleBlessing => 160,
            ActivityKind::Misogi | ActivityKind::Harae => 0,
        }
    }

    /// Health paid per hour: 4 for the blood pact, nothing otherwise.
    pub fn health_cost_per_hour(self) -> (r: i32)
        ensures
            r == if self is BloodPact { 4i32 } else { 0i32 },
    {
        match self {
            ActivityKind::BloodPact => 4,
            _ => 0,
        }
    }
}

/// What performing an activity did.
#[derive(Clone, Copy, Debug, PartialEq, Eq, Structural)]
pub enum ActivityOutcome {
    /// Nothing: no time was spent.
    Nothing,
    /// A purification rite was performed (kegare is stripped elsewhere).
    Purified(Purification),
    /// Magic restored to a school (hundredths) and health paid.
    Restored { school: MagicSchool, gain: u32, health_cost: i32 },
}

/// The magic an activity restores over `hours`, scaled by the performer's
/// defilement factor `kegare` (thousandths), in hundredths of a point.
pub open spec fn spec_gain(a: ActivityKind, hours: u32, kegare: u32) -> int {
    spec_rate(a) * hours * kegare / 1000
}

/// Perform `activity` for `hours`. No hours, no effect. A purification rite
/// only reports itself. Otherwise the school's pool regains the activity's
/// rate times the hours (scaled by `kegare`, thousandths), up to its
/// ceiling, and the blood pact costs 4 health an hour, stopping at zero.
pub fn perform_activity(stats: &mut CombatStats, activity: ActivityKind, hours: u32, kegare: u32) -> (r:
    ActivityOutcome)
    requires
        spec_gain(activity, hours, kegare) <= i32::MAX,
        4 * hours <= i32::MAX,
        old(stats).spec_pool(spec_school(activity)).current + spec_gain(activity, hours, kegare) <= i32::MAX,
    ensures
        hours == 0 ==> r == ActivityOutcome::Nothing && *final(stats) == *old(stats),
        hours > 0 && activity is Misogi ==> r == ActivityOutcome::Purified(Purification::Misogi)
            && *final(stats) == *old(stats),
        hours > 0 && activity is Harae ==> r == ActivityOutcome::Purified(Purification::Harae)
            && *final(stats) == *old(stats),
        hours > 0 && !(activity is Misogi) && !(activity is Harae) ==> {
            let school = spec_school(activity);
            let gain = spec_gain(activity, hours, kegare);
            let cost = if activity is BloodPact { 4 * hours } else { 0 };
            let p = old(stats).spec_pool(school);
            let restored = if gain > 0 {
                crate::stats::StatPool {
                    current: if p.current + gain < p.base { (p.current + gain) as i32 } else { p.base },
                    ..p
                }
            } else {
                p
            };
            let s1 = old(stats).with_pool(school, restored);
            &&& r == ActivityOutcome::Restored { school, gain: gain as u32, health_cost: cost as i32 }
            &&& *final(stats) == if cost > 0 {
                CombatStats {
                    health: crate::stats::StatPool {
                        current: if s1.health.current - cost < 0 { 0 } else { (s1.health.current - cost) as i32 },
                        ..s1.health
                    },
                    ..s1
                }
            } else {
                s1
            }
        },
{
    if hours == 0 {
        return ActivityOutcome::Nothing;
    }
    match activity.purification() {
        Some(p) => {
            return ActivityOutcome::Purified(p);
        },
        None => {},
    }
    let school = activity.school();
    let rate = activity.restoration_per_hour();
    assert(rate * hours * kegare / 1000 == spec_gain(activity, hours, kegare));
    assert(rate as int * hours as int <= 250 * 0xffff_ffff) by (nonlinear_arith)
        requires
            rate <= 250,
            hours <= 0xffff_ffff,
    ;
    let wide: u128 = rate as u128 * hours as u128;
    assert(wide * kegare <= 250 * 0xffff_ffff * 0xffff_ffff) by (nonlinear_arith)
        requires
            wide <= 250 * 0xffff_ffff,
            kegare <= 0xffff_ffff,
    ;
    let gain128: u128 = wide * kegare as u128 / 1000;
    let gain: u32 = gain128 as u32;
    if gain > 0 {
        let pool = stats.pool_mut(school);
        pool.restore_to_base(gain as i32);
    }
    let cost: i32 = activity.health_cost_per_hour() * hours as i32;
    if cost > 0 {
        let c: i64 = stats.health.current as i64 - cost as i64;
        stats.health.current = if c < 0 { 0 } else { c as i32 };
    }
    ActivityOutcome::Restored { school, gain, health_cost: cost }
}

/// Law: the four schools are each restored by their own five activities:
/// meditation, breathing, kata, sparring and shrine focus train Kihō; nature
/// spirits, the sacred grove, foraging, talisman craft and resting on fertile
/// ground Onmyōdō; night rituals, spirit offerings, blood pacts, binding
/// circles and haunted places Yōkaijutsu; prayer, shrine offerings, formal
/// rites, pilgrimage and temple blessings Kamishin. The two purification
/// rites count as Onmyōdō.
pub proof fn lemma_school_of_each_activity(a: ActivityKind)
    ensures
        (spec_school(a) == MagicSchool::Kiho) == (a is Meditation || a is BreathExercises || a is KataPractice
            || a is SparringDrills || a is ShrineFocus),
        (spec_school(a) == MagicSchool::Onmyodo) == (a is NatureSpiritInteraction || a is TendSacredGrove
            || a is Forage || a is CraftTalisman || a is RestFertileTerrain || a is Misogi || a is Harae),
        (spec_school(a) == MagicSchool::Yokaijutsu) == (a is NightRitual || a is SpiritOffering || a is BloodPact
            || a is BindingCircle || a is HauntedLocation),
        (spec_school(a) == MagicSchool::Kamishin) == (a is Prayer || a is ShrineOffering || a is FormalRite
            || a is Pilgrimage || a is TempleBlessing),
{
}

} // verus!
