//! The Merchant's Contract: a bound character's standing, the rating it
//! earns, and what a death and a return cost.

use vstd::prelude::*;
use crate::stats::StatPool;

verus! {

/// How the Merchant regards a bound character.
#[derive(Clone, Copy, Debug, PartialEq, Eq, Structural)]
pub struct ResurrectionStanding {
    pub score: i32,
    pub deaths: u32,
    pub hunts_completed: u32,
    pub hunts_failed: u32,
    pub contract_violations: u32,
}

impl Default for ResurrectionStanding {
    /// A fresh contract: score 100, no deaths, hunts or violations.
    fn default() -> (r: Self)
        ensures
            r == (ResurrectionStanding {
                score: 100,
                deaths: 0,
                hunts_completed: 0,
                hunts_failed: 0,
                contract_violations: 0,
            }),
    {
        ResurrectionStanding {
            score: 100,
            deaths: 0,
            hunts_completed: 0,
            hunts_failed: 0,
            contract_violations: 0,
        }
    }
}

/// The six performance tiers, best first.
#[derive(Clone, Copy, Debug, PartialEq, Eq, Structural)]
pub enum ResurrectionRating {
    Exceptional,
    Satisfactory,
    Acceptable,
    Poor,
    Neglectful,
    Forfeited,
}

/// The tier a score earns: 200 and up Exceptional, 80 Satisfactory, 0
/// Acceptable, -80 Poor, -200 Neglectful, below that Forfeited.
pub open spec fn rating_of(score: i32) -> ResurrectionRating {
    if score >= 200 {
        ResurrectionRating::Exceptional
    } else if score >= 80 {
        ResurrectionRating::Satisfactory
    } else if score >= 0 {
        ResurrectionRating::Acceptable
    } else if score >= -80 {
        ResurrectionRating::Poor
    } else if score >= -200 {
        ResurrectionRating::Neglectful
    } else {
        ResurrectionRating::Forfeited
    }
}

/// The tier's rank, 0 for the best.
pub open spec fn rank(r: ResurrectionRating) -> int {
    match r {
        ResurrectionRating::Exceptional => 0,
        ResurrectionRating::Satisfactory => 1,
        ResurrectionRating::Acceptable => 2,
        ResurrectionRating::Poor => 3,
        ResurrectionRating::Neglectful => 4,
        ResurrectionRating::Forfeited => 5,
    }
}

/// Hours before a character of a tier returns: 0, 1, 6, 24, 72, 168.
pub open spec fn spec_delay_hours(r: ResurrectionRating) -> u32 {
    match r {
        ResurrectionRating::Exceptional => 0,
        ResurrectionRating::Satisfactory => 1,
        ResurrectionRating::Acceptable => 6,
        ResurrectionRating::Poor => 24,
        ResurrectionRating::Neglectful => 72,
        ResurrectionRating::Forfeited => 168,
    }
}

impl ResurrectionRating {
    /// The tier a score earns.
    pub fn from_score(score: i32) -> (r: Self)
        ensures
            r == rating_of(score),
    {
        if score >= 200 {
            ResurrectionRating::Exceptional
        } else if score >= 80 {
            ResurrectionRating::Satisfactory
        } else if score >= 0 {
            ResurrectionRating::Acceptable
        } else if score >= -80 {
            ResurrectionRating::Poor
        } else if score >= -200 {
            ResurrectionRating::Neglectful
        } else {
            ResurrectionRating::Forfeited
        }
    }

    /// Hours before a character of this tier returns.
    pub fn delay_hours(self) -> (h: u32)
        ensures
            h == spec_delay_hours(self),
    {
        match self {
            ResurrectionRating::Exceptional => 0,
            ResurrectionRating::Satisfactory => 1,
            ResurrectionRating::Acceptable => 6,
            ResurrectionRating::Poor => 24,
            ResurrectionRating::Neglectful => 24 * 3,
            ResurrectionRating::Forfeited => 24 * 7,
        }
    }
}

/// Law: a higher score never earns a worse tier, and a worse tier never
/// returns sooner.
pub proof fn lemma_rating_monotone(low: i32, high: i32)
    requires
        low <= high,
    ensures
        rank(rating_of(high)) <= rank(rating_of(low)),
        spec_delay_hours(rating_of(high)) <= spec_delay_hours(rating_of(low)),
{
}

/// A pending return: when, and at which tier.
#[derive(Clone, Copy, Debug, PartialEq, Eq, Structural)]
pub struct AwaitingResurrection {
    pub ready_at_timestamp: u32,
    pub rating: ResurrectionRating,
}

/// `a + b`, capped at `u32::MAX`.
pub open spec fn sat_add_u32(a: int, b: int) -> int {
    if a + b > u32::MAX { u32::MAX as int } else { a + b }
}

/// `a - b`, floored at `i32::MIN`.
pub open spec fn sat_sub_i32(a: int, b: int) -> int {
    if a - b < i32::MIN { i32::MIN as int } else { a - b }
}

/// Schedule a bound character's return after a death at time `now`.
/// A deathless character (`deathless_delay_hours` is its fixed delay)
/// returns Exceptional after that delay and its standing is untouched.
/// Anyone else gains a death, loses 20 score (saturating), and returns at the
/// tier of the new score after that tier's delay. Delays count
/// `ticks_per_hour` ticks an hour; the return time saturates.
pub fn enqueue_resurrection(
    standing: &mut ResurrectionStanding,
    deathless_delay_hours: Option<u32>,
    now: u32,
    ticks_per_hour: u32,
) -> (r: AwaitingResurrection)
    requires
        match deathless_delay_hours {
            Some(h) => h * ticks_per_hour <= u32::MAX,
            None => 168 * ticks_per_hour <= u32::MAX,
        },
    ensures
        match deathless_delay_hours {
            Some(h) => {
                &&& *final(standing) == *old(standing)
                &&& r.rating == ResurrectionRating::Exceptional
                &&& r.ready_at_timestamp == sat_add_u32(now as int, h * ticks_per_hour)
            },
            None => {
                &&& final(standing).deaths == sat_add_u32(old(standing).deaths as int, 1)
                &&& final(standing).score == sat_sub_i32(old(standing).score as int, 20)
                &&& final(standing).hunts_completed == old(standing).hunts_completed
                &&& final(standing).hunts_failed == old(standing).hunts_failed
                &&& final(standing).contract_violations == old(standing).contract_violations
                &&& r.rating == rating_of(final(standing).score)
                &&& r.ready_at_timestamp == sat_add_u32(
                    now as int,
                    spec_delay_hours(r.rating) * ticks_per_hour,
                )
            },
        },
{
    let (rating, delay_hours) = match deathless_delay_hours {
        Some(h) => (ResurrectionRating::Exceptional, h),
        None => {
            standing.deaths = standing.deaths.saturating_add(1);
            standing.score = if standing.score < i32::MIN + 20 {
                i32::MIN
            } else {
                standing.score - 20
            };
            let rating = ResurrectionRating::from_score(standing.score);
            (rating, rating.delay_hours())
        },
    };
    if deathless_delay_hours.is_none() {
        assert(delay_hours * ticks_per_hour <= 168 * ticks_per_hour) by (nonlinear_arith)
            requires
                delay_hours <= 168,
        ;
    }
    let ready_at = now.saturating_add(delay_hours * ticks_per_hour);
    AwaitingResurrection { ready_at_timestamp: ready_at, rating }
}

/// The mental wounds a return leaves.
#[derive(Clone, Copy, Debug, PartialEq, Eq, Structural)]
pub enum ResurrectionDebuff {
    Drained,
    HauntedDreams,
    Fragile,
    BrokenBody,
    ShatteredSpirit,
}

/// The debuffs (with tiers) a return at a tier brings.
pub open spec fn spec_debuffs(r: ResurrectionRating) -> Seq<(ResurrectionDebuff, u8)> {
    match r {
        ResurrectionRating::Exceptional => seq![],
        ResurrectionRating::Satisfactory => seq![(ResurrectionDebuff::Drained, 1u8)],
        ResurrectionRating::Acceptable => seq![(ResurrectionDebuff::HauntedDreams, 1u8)],
        ResurrectionRating::Poor => seq![
            (ResurrectionDebuff::HauntedDreams, 1u8),
            (ResurrectionDebuff::Fragile, 1u8),
        ],
        ResurrectionRating::Neglectful => seq![
            (ResurrectionDebuff::HauntedDreams, 2u8),
            (ResurrectionDebuff::BrokenBody, 1u8),
        ],
        ResurrectionRating::Forfeited => seq![
            (ResurrectionDebuff::HauntedDreams, 3u8),
            (ResurrectionDebuff::BrokenBody, 1u8),
            (ResurrectionDebuff::ShatteredSpirit, 1u8),
        ],
    }
}

/// The debuffs (with tiers) a return at `rating` brings: none when
/// Exceptional, more and harsher further down.
pub fn resurrection_debuffs(rating: ResurrectionRating) -> (r: Vec<(ResurrectionDebuff, u8)>)
    ensures
        r@ == spec_debuffs(rating),
{
    let mut v: Vec<(ResurrectionDebuff, u8)> = Vec::new();
    match rating {
        ResurrectionRating::Exceptional => {},
        ResurrectionRating::Satisfactory => {
            v.push((ResurrectionDebuff::Drained, 1));
        },
        ResurrectionRating::Acceptable => {
            v.push((ResurrectionDebuff::HauntedDreams, 1));
        },
        ResurrectionRating::Poor => {
            v.push((ResurrectionDebuff::HauntedDreams, 1));
            v.push((ResurrectionDebuff::Fragile, 1));
        },
        ResurrectionRating::Neglectful => {
            v.push((ResurrectionDebuff::HauntedDreams, 2));
            v.push((ResurrectionDebuff::BrokenBody, 1));
        },
        ResurrectionRating::Forfeited => {
            v.push((ResurrectionDebuff::HauntedDreams, 3));
            v.push((ResurrectionDebuff::BrokenBody, 1));
            v.push((ResurrectionDebuff::ShatteredSpirit, 1));
        },
    }
    assert(v@ =~= spec_debuffs(rating));
    v
}

/// Bring a character back when its time has come: from `now` on, health is
/// restored to its ceiling and the tier's debuffs are returned; earlier,
/// nothing changes and `None` comes back.
pub fn resurrect_if_ready(now: u32, awaiting: &AwaitingResurrection, health: &mut StatPool<i32>) -> (r:
    Option<Vec<(ResurrectionDebuff, u8)>>)
    ensures
        now < awaiting.ready_at_timestamp ==> r is None && *final(health) == *old(health),
        now >= awaiting.ready_at_timestamp ==> {
            &&& r matches Some(d) && d@ == spec_debuffs(awaiting.rating)
            &&& final(health).current == old(health).base
            &&& final(health).base == old(health).base
        },
{
    if now < awaiting.ready_at_timestamp {
        return None;
    }
    health.current = health.base;
    Some(resurrection_debuffs(awaiting.rating))
}

/// The total weight of a list of debuffs: the sum of their tiers.
pub open spec fn debuff_weight(d: Seq<(ResurrectionDebuff, u8)>) -> int
    decreases d.len(),
{
    if d.len() == 0 {
        0
    } else {
        debuff_weight(d.drop_last()) + d.last().1
    }
}

/// Law: only an Exceptional return is free of debuffs; every lower tier
/// leaves at least one, each of tier 1 to 3; a Satisfactory or Acceptable
/// return leaves a single minor (tier 1) wound, Drained for Satisfactory;
/// and a worse rating never leaves fewer or lighter wounds.
pub proof fn lemma_debuffs_grow_with_rating(r: ResurrectionRating, s: ResurrectionRating)
    ensures
        (spec_debuffs(r).len() == 0) == (r == ResurrectionRating::Exceptional),
        forall|k: int| 0 <= k < spec_debuffs(r).len() ==> 1 <= (#[trigger] spec_debuffs(r)[k]).1 <= 3,
        rank(r) == 1 || rank(r) == 2 ==> spec_debuffs(r).len() == 1 && spec_debuffs(r)[0].1 == 1,
        r == ResurrectionRating::Satisfactory ==> spec_debuffs(r)[0].0 == ResurrectionDebuff::Drained,
        rank(r) <= rank(s) ==> spec_debuffs(r).len() <= spec_debuffs(s).len() && debuff_weight(
            spec_debuffs(r),
        ) <= debuff_weight(spec_debuffs(s)),
{
    reveal_with_fuel(debuff_weight, 4);
}

} // verus!
