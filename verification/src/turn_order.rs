//! Turn order: each combatant accumulates speed (plus a random jitter) and
//! takes one turn for every full threshold it has banked; the round's queue
//! of turns and the battle clock it advances.

use std::collections::VecDeque;
use vstd::prelude::*;
use crate::ability::EntityId;
use crate::dice::roll_in_range;

verus! {

/// What turn ordering reads of a combatant that has combat stats.
#[derive(Clone, Copy, Debug, PartialEq, Eq, Structural)]
pub struct TurnStats {
    pub speed: i32,
    /// The combatant's level, when it has one.
    pub level: Option<u32>,
}

/// Who takes part in turn ordering, the speed a turn costs, and the bound
/// of the random jitter.
#[derive(Clone, Debug)]
pub struct TurnManager {
    pub participants: Vec<EntityId>,
    pub turn_threshold: u32,
    pub maximum_value: u32,
}

/// `x`, or zero when negative.
pub open spec fn speed_of(x: i32) -> int {
    if x < 0 { 0 } else { x as int }
}

/// Total speed of the first `n` participants that have stats.
pub open spec fn total_speed(info: Seq<Option<TurnStats>>, n: int) -> int
    decreases n,
{
    if n <= 0 {
        0
    } else {
        total_speed(info, n - 1) + match info[n - 1] {
            Some(s) => speed_of(s.speed),
            None => 0,
        }
    }
}

/// Total level of the first `n` participants that have stats (a missing
/// level counts as 1).
pub open spec fn total_level(info: Seq<Option<TurnStats>>, n: int) -> int
    decreases n,
{
    if n <= 0 {
        0
    } else {
        total_level(info, n - 1) + match info[n - 1] {
            Some(s) => match s.level {
                Some(l) => l as int,
                None => 1,
            },
            None => 0,
        }
    }
}

/// How many of the first `n` participants have stats.
pub open spec fn stat_count(info: Seq<Option<TurnStats>>, n: int) -> int
    decreases n,
{
    if n <= 0 {
        0
    } else {
        stat_count(info, n - 1) + if info[n - 1] is Some { 1int } else { 0int }
    }
}

proof fn lemma_totals_mono(info: Seq<Option<TurnStats>>, m: int, n: int)
    requires
        0 <= m <= n,
    ensures
        0 <= total_speed(info, m) <= total_speed(info, n),
        0 <= total_level(info, m) <= total_level(info, n),
        0 <= stat_count(info, m) <= stat_count(info, n),
    decreases n - m,
{
    if m < n {
        lemma_totals_mono(info, m, n - 1);
    } else {
        lemma_totals_nonneg(info, n);
    }
}

proof fn lemma_totals_nonneg(info: Seq<Option<TurnStats>>, n: int)
    ensures
        0 <= total_speed(info, n),
        0 <= total_level(info, n),
        0 <= stat_count(info, n),
    decreases n,
{
    if n > 0 {
        lemma_totals_nonneg(info, n - 1);
    }
}

/// `x`, or 1 when it is 0.
pub open spec fn at_least_1(x: int) -> int {
    if x < 1 { 1 } else { x }
}

/// The turns a combatant takes with `current` banked speed: one per full
/// threshold (none when the threshold is 0).
pub open spec fn turns_for(current: int, threshold: u32) -> int {
    if threshold == 0 { 0 } else { current / (threshold as int) }
}

/// What a combatant keeps banked after taking its turns.
pub open spec fn banked_after(current: int, threshold: u32) -> int {
    if threshold == 0 { current } else { current % (threshold as int) }
}

/// Law: ordering loses no speed: a combatant takes one turn per full
/// threshold of what it has banked and keeps the rest, which is less than a
/// threshold.
pub proof fn lemma_no_speed_lost(current: int, threshold: u32)
    requires
        current >= 0,
        threshold > 0,
    ensures
        turns_for(current, threshold) * threshold + banked_after(current, threshold) == current,
        0 <= banked_after(current, threshold) < threshold,
{
    let t = threshold as int;
    vstd::arithmetic::div_mod::lemma_fundamental_div_mod(current, t);
    vstd::arithmetic::mul::lemma_mul_is_commutative(current / t, t);
    vstd::arithmetic::div_mod::lemma_mod_bound(current, t);
}

/// `a + b`, capped at `u32::MAX`.
pub open spec fn sat_add(a: int, b: int) -> int {
    if a + b > u32::MAX { u32::MAX as int } else { a + b }
}

/// A combatant's banked speed once its speed and jitter are added.
pub open spec fn charged(acc: u32, speed: Option<i32>, jitter: u32) -> int {
    sat_add(
        sat_add(
            acc as int,
            match speed {
                Some(s) => speed_of(s),
                None => 0,
            },
        ),
        jitter as int,
    )
}

/// `n` copies of `e`.
pub open spec fn repeat(e: EntityId, n: int) -> Seq<EntityId> {
    Seq::new(if n < 0 { 0 } else { n as nat }, |_i: int| e)
}

/// The turn order the first `n` participants give, in participant order,
/// each repeated once per turn it takes.
pub open spec fn order_upto(
    participants: Seq<EntityId>,
    acc: Seq<Option<u32>>,
    speeds: Seq<Option<i32>>,
    jitters: Seq<u32>,
    threshold: u32,
    n: int,
) -> Seq<EntityId>
    decreases n,
{
    if n <= 0 {
        seq![]
    } else {
        order_upto(participants, acc, speeds, jitters, threshold, n - 1) + match acc[n - 1] {
            Some(a) => repeat(
                participants[n - 1],
                turns_for(charged(a, speeds[n - 1], jitters[n - 1]), threshold),
            ),
            None => seq![],
        }
    }
}

impl TurnManager {
    /// Recompute the threshold and the jitter bound from the participants
    /// that have stats (`info[i]` for participant `i`): with none, 100 and
    /// 10; otherwise twice the average speed (negative speeds as 0, average at
    /// least 1) and the average level shifted left by three bits (missing
    /// levels as 1, average at least 1).
    pub fn recompute_params(&mut self, info: &Vec<Option<TurnStats>>)
        requires
            info@.len() == old(self).participants@.len(),
            info@.len() <= u32::MAX,
            total_speed(info@, info@.len() as int) <= u32::MAX,
            total_level(info@, info@.len() as int) <= u32::MAX,
            stat_count(info@, info@.len() as int) > 0 ==> 2 * at_least_1(
                total_speed(info@, info@.len() as int) / stat_count(info@, info@.len() as int),
            ) <= u32::MAX,
        ensures
            final(self).participants == old(self).participants,
            ({
                let n = info@.len() as int;
                let c = stat_count(info@, n);
                if c == 0 {
                    final(self).turn_threshold == 100 && final(self).maximum_value == 10
                } else {
                    &&& final(self).turn_threshold == 2 * at_least_1(total_speed(info@, n) / c)
                    &&& final(self).maximum_value == (8 * at_least_1(total_level(info@, n) / c))
                        % 0x1_0000_0000
                }
            }),
    {
        let mut speed_sum: u32 = 0;
        let mut level_sum: u32 = 0;
        let mut count: u32 = 0;
        let mut i: usize = 0;
        while i < info.len()
            invariant
                i <= info@.len(),
                total_speed(info@, info@.len() as int) <= u32::MAX,
                total_level(info@, info@.len() as int) <= u32::MAX,
                speed_sum == total_speed(info@, i as int),
                level_sum == total_level(info@, i as int),
                count == stat_count(info@, i as int),
                count <= i,
                info@.len() <= u32::MAX,
            decreases info.len() - i,
        {
            proof {
                lemma_totals_mono(info@, i as int + 1, info@.len() as int);
            }
            match info[i] {
                Some(s) => {
                    let sp: u32 = if s.speed < 0 { 0 } else { s.speed as u32 };
                    speed_sum = speed_sum + sp;
                    let lv: u32 = match s.level {
                        Some(l) => l,
                        None => 1,
                    };
                    level_sum = level_sum + lv;
                    count = count + 1;
                },
                None => {},
            }
            i = i + 1;
        }
        if count == 0 {
            self.turn_threshold = 100;
            self.maximum_value = 10;
            return;
        }
        let avg_speed: u32 = if speed_sum / count < 1 { 1 } else { speed_sum / count };
        self.turn_threshold = avg_speed * 2;
        let avg_level: u32 = if level_sum / count < 1 { 1 } else { level_sum / count };
        self.maximum_value = avg_level.wrapping_mul(8);
    }

    /// The turn order for this round given each participant's jitter:
    /// participants without banked speed (`None`) are skipped; the others
    /// add their speed (negative as 0) and jitter to their bank (saturating),
    /// take one turn per full threshold, and keep the remainder.
    pub fn turn_order_with_jitter(
        &self,
        accumulated: &mut Vec<Option<u32>>,
        speeds: &Vec<Option<i32>>,
        jitters: &Vec<u32>,
    ) -> (order: Vec<EntityId>)
        requires
            old(accumulated)@.len() == self.participants@.len(),
            speeds@.len() == self.participants@.len(),
            jitters@.len() == self.participants@.len(),
        ensures
            order@ == order_upto(
                self.participants@,
                old(accumulated)@,
                speeds@,
                jitters@,
                self.turn_threshold,
                self.participants@.len() as int,
            ),
            final(accumulated)@.len() == old(accumulated)@.len(),
            forall|i: int|
                0 <= i < old(accumulated)@.len() ==> #[trigger] final(accumulated)@[i] == match old(
                    accumulated,
                )@[i] {
                    Some(a) => Some(
                        banked_after(charged(a, speeds@[i], jitters@[i]), self.turn_threshold) as u32,
                    ),
                    None => None,
                },
    {
        let ghost acc0 = accumulated@;
        let mut order: Vec<EntityId> = Vec::new();
        let mut i: usize = 0;
        while i < self.participants.len()
            invariant
                i <= self.participants@.len(),
                acc0 == old(accumulated)@,
                accumulated@.len() == acc0.len(),
                acc0.len() == self.participants@.len(),
                speeds@.len() == self.participants@.len(),
                jitters@.len() == self.participants@.len(),
                order@ == order_upto(
                    self.participants@,
                    acc0,
                    speeds@,
                    jitters@,
                    self.turn_threshold,
                    i as int,
                ),
                forall|j: int| i <= j < acc0.len() ==> #[trigger] accumulated@[j] == acc0[j],
                forall|j: int|
                    0 <= j < i ==> #[trigger] accumulated@[j] == match acc0[j] {
                        Some(a) => Some(
                            banked_after(charged(a, speeds@[j], jitters@[j]), self.turn_threshold) as u32,
                        ),
                        None => None,
                    },
            decreases self.participants.len() - i,
        {
            let entity = self.participants[i];
            match accumulated[i] {
                Some(acc) => {
                    let speed: u32 = match speeds[i] {
                        Some(s) => if s < 0 { 0 } else { s as u32 },
                        None => 0,
                    };
                    let jitter: u32 = jitters[i];
                    let mut current: u32 = acc.saturating_add(speed).saturating_add(jitter);
                    let ghost c0 = current as int;
                    let ghost start = order@;
                    let mut taken: usize = 0;
                    while current >= self.turn_threshold && self.turn_threshold > 0
                        invariant
                            self.turn_threshold > 0 ==> c0 == current + taken * self.turn_threshold,
                            self.turn_threshold == 0 ==> current == c0 && taken == 0,
                            order@ == start + repeat(entity, taken as int),
                            taken <= c0,
                            current <= c0,
                            c0 <= u32::MAX,
                        decreases current,
                    {
                        proof {
                            let t = self.turn_threshold as int;
                            assert(taken + 1 <= c0 && c0 == (current - t) + (taken + 1) * t) by (nonlinear_arith)
                                requires
                                    c0 == current + taken * t,
                                    current >= t,
                                    t >= 1,
                                    taken >= 0,
                            ;
                        }
                        current = current - self.turn_threshold;
                        order.push(entity);
                        taken = taken + 1;
                        proof {
                            assert(order@ =~= start + repeat(entity, taken as int));
                        }
                    }
                    proof {
                        let t = self.turn_threshold as int;
                        if t > 0 {
                            assert(current < t);
                            assert(c0 / t == taken && c0 % t == current) by (nonlinear_arith)
                                requires
                                    c0 == current + taken * t,
                                    0 <= current < t,
                                    taken >= 0,
                            ;
                        }
                        assert(c0 == charged(acc, speeds@[i as int], jitters@[i as int]));
                    }
                    accumulated.set(i, Some(current));
                },
                None => {
                    proof {
                        assert(order@ =~= order@ + Seq::<EntityId>::empty());
                    }
                },
            }
            i = i + 1;
        }
        order
    }

    /// The turn order for this round: each participant with banked speed
    /// draws a jitter below `maximum_value` (none when it is 0) with `rand`,
    /// then orders as `turn_order_with_jitter` does with those jitters.
    pub fn calculate_turn_order(&self, accumulated: &mut Vec<Option<u32>>, speeds: &Vec<Option<i32>>) -> (order:
        Vec<EntityId>)
        requires
            old(accumulated)@.len() == self.participants@.len(),
            speeds@.len() == self.participants@.len(),
        ensures
            exists|jitters: Seq<u32>|
                #![trigger order_upto(self.participants@, old(accumulated)@, speeds@, jitters, self.turn_threshold, self.participants@.len() as int)]
                jitters.len() == self.participants@.len() && (forall|i: int|
                    0 <= i < jitters.len() ==> #[trigger] jitters[i] < self.maximum_value || (
                    self.maximum_value == 0 && jitters[i] == 0)) && order@ == order_upto(
                    self.participants@,
                    old(accumulated)@,
                    speeds@,
                    jitters,
                    self.turn_threshold,
                    self.participants@.len() as int,
                ) && final(accumulated)@.len() == old(accumulated)@.len() && forall|i: int|
                    0 <= i < old(accumulated)@.len() ==> #[trigger] final(accumulated)@[i] == match old(
                        accumulated,
                    )@[i] {
                        Some(a) => Some(
                            banked_after(charged(a, speeds@[i], jitters[i]), self.turn_threshold) as u32,
                        ),
                        None => None,
                    },
    {
        let mut jitters: Vec<u32> = Vec::new();
        let mut i: usize = 0;
        while i < self.participants.len()
            invariant
                i <= self.participants@.len(),
                jitters@.len() == i,
                forall|j: int|
                    0 <= j < i ==> #[trigger] jitters@[j] < self.maximum_value || (self.maximum_value == 0
                        && jitters@[j] == 0),
            decreases self.participants.len() - i,
        {
            let j: u32 = if self.maximum_value > 0 {
                roll_in_range(0, self.maximum_value)
            } else {
                0
            };
            jitters.push(j);
            i = i + 1;
        }
        self.turn_order_with_jitter(accumulated, speeds, &jitters)
    }
}


/// The turns still to be taken this round, first to last.
#[derive(Clone, Debug)]
pub struct TurnOrder {
    pub queue: VecDeque<EntityId>,
}

impl TurnOrder {
    /// An empty round.
    pub fn new() -> (r: Self)
        ensures
            r.queue@.len() == 0,
    {
        TurnOrder { queue: VecDeque::new() }
    }

    /// Replace the queue with a freshly calculated order.
    pub fn set_order(&mut self, order: Vec<EntityId>)
        ensures
            final(self).queue@ == order@,
    {
        self.queue.clear();
        let mut i: usize = 0;
        while i < order.len()
            invariant
                i <= order@.len(),
                self.queue@ == order@.take(i as int),
            decreases order.len() - i,
        {
            self.queue.push_back(order[i]);
            i = i + 1;
            proof {
                assert(self.queue@ =~= order@.take(i as int));
            }
        }
        proof {
            assert(order@.take(order@.len() as int) =~= order@);
        }
    }

    /// Start the next turn of the round: the first combatant in the queue
    /// leaves it and the battle clock advances one tick (saturating). With
    /// the queue empty the round is over: nothing changes and `None` comes
    /// back.
    pub fn advance_turn(&mut self, timestamp: &mut u32) -> (next: Option<EntityId>)
        ensures
            old(self).queue@.len() == 0 ==> next is None && final(self).queue@ == old(self).queue@
                && *final(timestamp) == *old(timestamp),
            old(self).queue@.len() > 0 ==> {
                &&& next == Some(old(self).queue@[0])
                &&& final(self).queue@ == old(self).queue@.drop_first()
                &&& *final(timestamp) == if *old(timestamp) == u32::MAX { u32::MAX } else {
                    (*old(timestamp) + 1) as u32
                }
            },
    {
        match self.queue.pop_front() {
            Some(next) => {
                *timestamp = timestamp.saturating_add(1);
                proof {
                    assert(self.queue@ =~= old(self).queue@.drop_first());
                }
                Some(next)
            },
            None => None,
        }
    }

    /// Once a new order is calculated, the first turn starts at once: the
    /// first combatant leaves the queue (the clock does not move); `None`
    /// when nobody has a turn.
    pub fn start_first_turn(&mut self) -> (next: Option<EntityId>)
        ensures
            old(self).queue@.len() == 0 ==> next is None && final(self).queue@ == old(self).queue@,
            old(self).queue@.len() > 0 ==> next == Some(old(self).queue@[0]) && final(self).queue@ == old(
                self,
            ).queue@.drop_first(),
    {
        let r = self.queue.pop_front();
        proof {
            if old(self).queue@.len() > 0 {
                assert(self.queue@ =~= old(self).queue@.drop_first());
            }
        }
        r
    }
}

} // verus!
