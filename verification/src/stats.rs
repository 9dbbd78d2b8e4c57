//! Combat statistics: current/base stat pools and the per-character block of
//! them that combat reads, and the timed modifiers buffs leave on them.
//! Magic pools are kept in hundredths of a point.

use vstd::prelude::*;
use crate::ability::{EntityId, MagicSchool, Stat};

verus! {

/// A current/base pair. `base` is the natural ceiling that permanent changes
/// modify; `current` is the live value, which can drop below `base` (or, with
/// buffs, exceed it).
#[derive(Clone, Copy, Debug, PartialEq, Eq, Structural)]
pub struct StatPool<T> {
    pub current: T,
    pub base: T,
}

/// Whether a pool holding `current` can pay `cost`.
pub open spec fn can_pay(current: i32, cost: i32) -> bool {
    cost <= 0 || current >= cost
}

/// `x`, or zero when `x` is negative.
pub open spec fn non_negative(x: int) -> int {
    if x < 0 { 0 } else { x }
}

impl StatPool<i32> {
    /// A full pool with the given ceiling; a negative ceiling becomes zero.
    pub fn new(base: i32) -> (r: Self)
        ensures
            r.base == non_negative(base as int),
            r.current == r.base,
    {
        let b: i32 = if base < 0 { 0 } else { base };
        StatPool { current: b, base: b }
    }

    /// Permanent change to the ceiling; `current` moves by the same amount so
    /// that a raised pool does not feel depleted. Neither drops below zero.
    pub fn add_to_base(&mut self, amount: i32)
        requires
            i32::MIN <= old(self).base + amount <= i32::MAX,
            i32::MIN <= old(self).current + amount <= i32::MAX,
        ensures
            final(self).base == non_negative(old(self).base + amount),
            final(self).current == non_negative(old(self).current + amount),
    {
        let b: i32 = self.base + amount;
        let c: i32 = self.current + amount;
        self.base = if b < 0 { 0 } else { b };
        self.current = if c < 0 { 0 } else { c };
    }

    /// True if `cost` can be paid from `current`.
    pub fn can_spend(&self, cost: i32) -> (r: bool)
        ensures
            r == can_pay(self.current, cost),
    {
        cost <= 0 || self.current >= cost
    }

    /// Pay `cost` from `current` if it can be paid. A non-positive cost is
    /// free and leaves the pool as it is.
    pub fn spend(&mut self, cost: i32) -> (paid: bool)
        ensures
            paid == can_pay(old(self).current, cost),
            paid ==> final(self).current == old(self).current - non_negative(cost as int),
            !paid ==> final(self).current == old(self).current,
            final(self).base == old(self).base,
    {
        if !self.can_spend(cost) {
            return false;
        }
        let c: i32 = if cost < 0 { 0 } else { cost };
        self.current = self.current - c;
        true
    }

    /// Restore `amount` toward `base`: plain restoration never goes past the
    /// ceiling.
    pub fn restore_to_base(&mut self, amount: i32)
        requires
            i32::MIN <= old(self).current + amount <= i32::MAX,
        ensures
            final(self).current == if old(self).current + amount < old(self).base {
                old(self).current + amount
            } else {
                old(self).base as int
            },
            final(self).base == old(self).base,
    {
        let c: i32 = self.current + amount;
        self.current = if c < self.base { c } else { self.base };
    }
}

/// Everything combat reads of a character. Magic pools and magic regen rates
/// are in hundredths of a point.
#[derive(Clone, Copy, Debug, PartialEq, Eq, Structural)]
pub struct CombatStats {
    pub health: StatPool<i32>,
    pub morale: StatPool<i32>,
    pub action_points: StatPool<i32>,
    pub movement: StatPool<i32>,
    pub kiho: StatPool<i32>,
    pub onmyodo: StatPool<i32>,
    pub yokaijutsu: StatPool<i32>,
    pub kamishin: StatPool<i32>,
    pub lethality: StatPool<i32>,
    pub hit: StatPool<i32>,
    pub armor: StatPool<i32>,
    pub speed: StatPool<i32>,
    pub evasion: StatPool<i32>,
    pub mind: StatPool<i32>,
    pub health_per_rest_hour: i32,
    pub morale_per_rest_hour: i32,
    pub kiho_per_rest_hour: i32,
    pub onmyodo_per_rest_hour: i32,
    pub yokaijutsu_per_rest_hour: i32,
    pub kamishin_per_rest_hour: i32,
}

impl CombatStats {
    /// A combatant with no stats to speak of: every pool empty but the
    /// action points, full at `default_action_points` (a negative count as
    /// none), and no regeneration.
    pub fn blank(default_action_points: i32) -> (r: Self)
        ensures
            r.action_points.base == non_negative(default_action_points as int),
            r.action_points.current == r.action_points.base,
            r.health == (StatPool { current: 0i32, base: 0i32 }),
            r.morale == r.health,
            r.movement == r.health,
            r.kiho == r.health,
            r.onmyodo == r.health,
            r.yokaijutsu == r.health,
            r.kamishin == r.health,
            r.lethality == r.health,
            r.hit == r.health,
            r.armor == r.health,
            r.speed == r.health,
            r.evasion == r.health,
            r.mind == r.health,
            r.health_per_rest_hour == 0,
            r.morale_per_rest_hour == 0,
            r.kiho_per_rest_hour == 0,
            r.onmyodo_per_rest_hour == 0,
            r.yokaijutsu_per_rest_hour == 0,
            r.kamishin_per_rest_hour == 0,
    {
        let empty = StatPool { current: 0i32, base: 0i32 };
        CombatStats {
            health: empty,
            morale: empty,
            action_points: StatPool::new(default_action_points),
            movement: empty,
            kiho: empty,
            onmyodo: empty,
            yokaijutsu: empty,
            kamishin: empty,
            lethality: empty,
            hit: empty,
            armor: empty,
            speed: empty,
            evasion: empty,
            mind: empty,
            health_per_rest_hour: 0,
            morale_per_rest_hour: 0,
            kiho_per_rest_hour: 0,
            onmyodo_per_rest_hour: 0,
            yokaijutsu_per_rest_hour: 0,
            kamishin_per_rest_hour: 0,
        }
    }

    /// The pool of a magic school, as a value.
    pub open spec fn spec_pool(self, school: MagicSchool) -> StatPool<i32> {
        match school {
            MagicSchool::Kiho => self.kiho,
            MagicSchool::Onmyodo => self.onmyodo,
            MagicSchool::Yokaijutsu => self.yokaijutsu,
            MagicSchool::Kamishin => self.kamishin,
        }
    }

    /// `self` with the pool of `school` replaced.
    pub open spec fn with_pool(self, school: MagicSchool, p: StatPool<i32>) -> CombatStats {
        match school {
            MagicSchool::Kiho => CombatStats { kiho: p, ..self },
            MagicSchool::Onmyodo => CombatStats { onmyodo: p, ..self },
            MagicSchool::Yokaijutsu => CombatStats { yokaijutsu: p, ..self },
            MagicSchool::Kamishin => CombatStats { kamishin: p, ..self },
        }
    }

    /// The pool that abilities of `school` draw on.
    pub fn pool(&self, school: MagicSchool) -> (r: &StatPool<i32>)
        ensures
            *r == self.spec_pool(school),
    {
        match school {
            MagicSchool::Kiho => &self.kiho,
            MagicSchool::Onmyodo => &self.onmyodo,
            MagicSchool::Yokaijutsu => &self.yokaijutsu,
            MagicSchool::Kamishin => &self.kamishin,
        }
    }

    /// The pool of `school`, to change it in place.
    pub fn pool_mut(&mut self, school: MagicSchool) -> (r: &mut StatPool<i32>)
        ensures
            *r == old(self).spec_pool(school),
            *final(self) == old(self).with_pool(school, *final(r)),
    {
        match school {
            MagicSchool::Kiho => &mut self.kiho,
            MagicSchool::Onmyodo => &mut self.onmyodo,
            MagicSchool::Yokaijutsu => &mut self.yokaijutsu,
            MagicSchool::Kamishin => &mut self.kamishin,
        }
    }

    /// Sum of the four schools' current magic (hundredths).
    pub fn total_magic_current(&self) -> (r: i64)
        ensures
            r == self.kiho.current + self.onmyodo.current + self.yokaijutsu.current
                + self.kamishin.current,
    {
        self.kiho.current as i64 + self.onmyodo.current as i64 + self.yokaijutsu.current as i64
            + self.kamishin.current as i64
    }

    /// Sum of the four schools' magic ceilings (hundredths).
    pub fn total_magic_base(&self) -> (r: i64)
        ensures
            r == self.kiho.base + self.onmyodo.base + self.yokaijutsu.base + self.kamishin.base,
    {
        self.kiho.base as i64 + self.onmyodo.base as i64 + self.yokaijutsu.base as i64
            + self.kamishin.base as i64
    }
}

/// A temporary (or, with no expiry, lasting) change to a stat: its factor
/// in thousandths, the tick it lapses at, and who cast it.
#[derive(Clone, Copy, Debug, PartialEq, Eq, Structural)]
pub struct StatModifier {
    pub stat: Stat,
    pub multiplier: u32,
    pub expires_at_timestamp: Option<u32>,
    pub source: Option<EntityId>,
}

/// Whether a modifier has lapsed by tick `now`.
pub open spec fn lapsed(m: StatModifier, now: u32) -> bool {
    match m.expires_at_timestamp {
        Some(end) => now >= end,
        None => false,
    }
}

/// The modifiers of `s` that have not lapsed by tick `now`, in order.
pub open spec fn still_running(s: Seq<StatModifier>, now: u32) -> Seq<StatModifier>
    decreases s.len(),
{
    if s.len() == 0 {
        Seq::empty()
    } else if lapsed(s.last(), now) {
        still_running(s.drop_last(), now)
    } else {
        still_running(s.drop_last(), now).push(s.last())
    }
}

/// The modifier a buff of `multiplier` thousandths on `stat`, cast at tick
/// `applied_at` for `duration` ticks, leaves: it lapses `duration` ticks
/// later (saturating).
pub fn buff_modifier(stat: Stat, multiplier: u32, applied_at: u32, duration: u32) -> (r: StatModifier)
    ensures
        r.stat == stat,
        r.multiplier == multiplier,
        r.expires_at_timestamp == Some(
            if applied_at + duration > u32::MAX { u32::MAX } else { (applied_at + duration) as u32 },
        ),
        r.source is None,
{
    StatModifier {
        stat,
        multiplier,
        expires_at_timestamp: Some(applied_at.saturating_add(duration)),
        source: None,
    }
}

/// Drop the modifiers that have lapsed by tick `now`, keeping the others in
/// order.
pub fn expire_modifiers(mods: &mut Vec<StatModifier>, now: u32)
    ensures
        final(mods)@ == still_running(old(mods)@, now),
{
    let ghost before = mods@;
    let mut keep: Vec<StatModifier> = Vec::new();
    let mut i: usize = 0;
    while i < mods.len()
        invariant
            i <= mods@.len(),
            mods@ == before,
            keep@ == still_running(before.take(i as int), now),
        decreases mods@.len() - i,
    {
        let m = mods[i];
        proof {
            assert(before.take(i as int + 1).drop_last() =~= before.take(i as int));
        }
        let gone = match m.expires_at_timestamp {
            Some(end) => now >= end,
            None => false,
        };
        if !gone {
            keep.push(m);
        }
        i = i + 1;
    }
    proof {
        assert(before.take(before.len() as int) =~= before);
    }
    *mods = keep;
}

} // verus!
