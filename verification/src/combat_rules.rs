//! Combat rules outside the attack roll: reactions and the counter-attacks
//! they make, experience, the class passives, the start of a turn, damage
//! mitigation and application, morale drain, level-up growth, and
//! re-speccing growth attributes.

use vstd::prelude::*;
use crate::ability::{Ability, EntityId};
use crate::ability_tree::AbilityTree;
use crate::ability_id::MAX_LEVEL;
use crate::ai_decision::BattleSide;
use crate::dice::roll_in_range;
use crate::stats::{non_negative, CombatStats, StatPool};

verus! {

/// What a reaction listens for. Ranges are in tenths of a metre.
#[derive(Clone, Copy, Debug, PartialEq, Eq, Structural)]
pub enum ReactionTrigger {
    /// The character is attacked.
    WhenAttacked,
    /// An ally within range takes damage.
    WhenAllyDamaged { range: u32 },
    /// An enemy steps within range.
    WhenEnemyEntersRange { range: u32 },
}

/// A reaction: its trigger, the ability it fires, the speed it costs, its
/// cooldown, and the turns left before it is ready again.
#[derive(Clone, Copy, Debug, PartialEq, Eq, Structural)]
pub struct Reaction {
    pub trigger: ReactionTrigger,
    pub ability_id: u16,
    pub speed_cost: u32,
    pub cooldown_turns: Option<u8>,
    pub cooldown_remaining: u8,
}

/// A fired reaction.
#[derive(Clone, Copy, Debug, PartialEq, Eq, Structural)]
pub struct ReactionTriggered {
    pub reactor: EntityId,
    pub trigger: ReactionTrigger,
    pub ability_id: u16,
    pub catalyst: Option<EntityId>,
}

/// At the end of the owner's turn every reaction still cooling down gets one
/// turn closer to ready.
pub fn tick_reaction_cooldowns(reactions: &mut Vec<Reaction>)
    ensures
        final(reactions)@.len() == old(reactions)@.len(),
        forall|i: int|
            0 <= i < old(reactions)@.len() ==> #[trigger] final(reactions)@[i] == (Reaction {
                cooldown_remaining: if old(reactions)@[i].cooldown_remaining > 0 {
                    (old(reactions)@[i].cooldown_remaining - 1) as u8
                } else {
                    0
                },
                ..old(reactions)@[i]
            }),
{
    let ghost o = reactions@;
    let mut i: usize = 0;
    while i < reactions.len()
        invariant
            o == old(reactions)@,
            i <= o.len(),
            reactions@.len() == o.len(),
            forall|j: int| i <= j < o.len() ==> #[trigger] reactions@[j] == o[j],
            forall|j: int|
                0 <= j < i ==> #[trigger] reactions@[j] == (Reaction {
                    cooldown_remaining: if o[j].cooldown_remaining > 0 {
                        (o[j].cooldown_remaining - 1) as u8
                    } else {
                        0
                    },
                    ..o[j]
                }),
        decreases o.len() - i,
    {
        let mut r = reactions[i];
        if r.cooldown_remaining > 0 {
            r.cooldown_remaining = r.cooldown_remaining - 1;
        }
        reactions.set(i, r);
        i = i + 1;
    }
}

/// A reaction that is ready and affordable with `acc` banked speed, among
/// those `eligible` accepts.
pub open spec fn can_fire(r: Reaction, acc: u32) -> bool {
    r.cooldown_remaining == 0 && acc >= r.speed_cost
}

/// The index of the first reaction among `rs` that listens for attacks and
/// can fire, or `rs.len()`.
pub open spec fn first_attack_reaction(rs: Seq<Reaction>, acc: u32) -> int
    decreases rs.len(),
{
    if rs.len() == 0 {
        0
    } else if rs[0].trigger is WhenAttacked && can_fire(rs[0], acc) {
        0
    } else {
        1 + first_attack_reaction(rs.drop_first(), acc)
    }
}

proof fn lemma_first_attack_reaction(rs: Seq<Reaction>, acc: u32, i: int)
    requires
        0 <= i <= rs.len(),
        forall|k: int| 0 <= k < i ==> !((#[trigger] rs[k]).trigger is WhenAttacked && can_fire(rs[k], acc)),
        i < rs.len() ==> rs[i].trigger is WhenAttacked && can_fire(rs[i], acc),
    ensures
        first_attack_reaction(rs, acc) == i,
    decreases rs.len(),
{
    if i > 0 {
        assert forall|k: int| 0 <= k < i - 1 implies !((#[trigger] rs.drop_first()[k]).trigger is WhenAttacked
            && can_fire(rs.drop_first()[k], acc)) by {
            assert(rs.drop_first()[k] == rs[k + 1]);
        }
        lemma_first_attack_reaction(rs.drop_first(), acc, i - 1);
    }
}

/// When `reactor` is attacked by `attacker`, fire its first ready,
/// affordable reaction that listens for attacks: pay its speed cost, start
/// its cooldown, and report it. At most one reaction fires; with none,
/// nothing changes.
pub fn fire_when_attacked(
    reactor: EntityId,
    attacker: EntityId,
    reactions: &mut Vec<Reaction>,
    acc: &mut u32,
) -> (r: Option<ReactionTriggered>)
    ensures
        ({
            let i = first_attack_reaction(old(reactions)@, *old(acc));
            if i < old(reactions)@.len() {
                let x = old(reactions)@[i];
                &&& r == Some(ReactionTriggered {
                    reactor,
                    trigger: x.trigger,
                    ability_id: x.ability_id,
                    catalyst: Some(attacker),
                })
                &&& *final(acc) == *old(acc) - x.speed_cost
                &&& final(reactions)@ == old(reactions)@.update(
                    i,
                    Reaction {
                        cooldown_remaining: match x.cooldown_turns {
                            Some(c) => c,
                            None => 0,
                        },
                        ..x
                    },
                )
            } else {
                &&& r is None
                &&& *final(acc) == *old(acc)
                &&& final(reactions)@ == old(reactions)@
            }
        }),
{
    let ghost o = reactions@;
    let a0 = *acc;
    let mut i: usize = 0;
    while i < reactions.len()
        invariant
            o == old(reactions)@,
            reactions@ == o,
            a0 == *old(acc),
            *acc == a0,
            i <= o.len(),
            forall|k: int| 0 <= k < i ==> !((#[trigger] o[k]).trigger is WhenAttacked && can_fire(o[k], a0)),
        decreases o.len() - i,
    {
        let x = reactions[i];
        let listens = match x.trigger {
            ReactionTrigger::WhenAttacked => true,
            _ => false,
        };
        if listens && x.cooldown_remaining == 0 && a0 >= x.speed_cost {
            proof {
                lemma_first_attack_reaction(o, a0, i as int);
            }
            *acc = a0 - x.speed_cost;
            let cd: u8 = match x.cooldown_turns {
                Some(c) => c,
                None => 0,
            };
            reactions.set(i, Reaction { cooldown_remaining: cd, ..x });
            return Some(ReactionTriggered {
                reactor,
                trigger: x.trigger,
                ability_id: x.ability_id,
                catalyst: Some(attacker),
            });
        }
        i = i + 1;
    }
    proof {
        lemma_first_attack_reaction(o, a0, i as int);
    }
    None
}

/// A guard reaction whose range reaches `distance` and that can fire.
pub open spec fn guards(r: Reaction, acc: u32, distance: u32) -> bool {
    match r.trigger {
        ReactionTrigger::WhenAllyDamaged { range } => can_fire(r, acc) && distance <= range,
        _ => false,
    }
}

/// The index of the first reaction among `rs` that guards allies within
/// `distance` and can fire, or `rs.len()`.
pub open spec fn first_guard_reaction(rs: Seq<Reaction>, acc: u32, distance: u32) -> int
    decreases rs.len(),
{
    if rs.len() == 0 {
        0
    } else if guards(rs[0], acc, distance) {
        0
    } else {
        1 + first_guard_reaction(rs.drop_first(), acc, distance)
    }
}

proof fn lemma_first_guard_reaction(rs: Seq<Reaction>, acc: u32, distance: u32, i: int)
    requires
        0 <= i <= rs.len(),
        forall|k: int| 0 <= k < i ==> !guards(#[trigger] rs[k], acc, distance),
        i < rs.len() ==> guards(rs[i], acc, distance),
    ensures
        first_guard_reaction(rs, acc, distance) == i,
    decreases rs.len(),
{
    if i > 0 {
        assert forall|k: int| 0 <= k < i - 1 implies !guards(#[trigger] rs.drop_first()[k], acc, distance) by {
            assert(rs.drop_first()[k] == rs[k + 1]);
        }
        lemma_first_guard_reaction(rs.drop_first(), acc, distance, i - 1);
    }
}

/// When an ally `distance` tenths of a metre from `reactor` is damaged by
/// `attacker`, fire the reactor's first ready, affordable guard reaction
/// whose range reaches that far: pay its speed cost, start its cooldown, and
/// report it. At most one fires; with none, nothing changes.
pub fn fire_when_ally_damaged(
    reactor: EntityId,
    attacker: EntityId,
    distance: u32,
    reactions: &mut Vec<Reaction>,
    acc: &mut u32,
) -> (r: Option<ReactionTriggered>)
    ensures
        ({
            let i = first_guard_reaction(old(reactions)@, *old(acc), distance);
            if i < old(reactions)@.len() {
                let x = old(reactions)@[i];
                &&& r == Some(ReactionTriggered {
                    reactor,
                    trigger: x.trigger,
                    ability_id: x.ability_id,
                    catalyst: Some(attacker),
                })
                &&& *final(acc) == *old(acc) - x.speed_cost
                &&& final(reactions)@ == old(reactions)@.update(
                    i,
                    Reaction {
                        cooldown_remaining: match x.cooldown_turns {
                            Some(c) => c,
                            None => 0,
                        },
                        ..x
                    },
                )
            } else {
                &&& r is None
                &&& *final(acc) == *old(acc)
                &&& final(reactions)@ == old(reactions)@
            }
        }),
{
    let ghost o = reactions@;
    let a0 = *acc;
    let mut i: usize = 0;
    while i < reactions.len()
        invariant
            o == old(reactions)@,
            reactions@ == o,
            a0 == *old(acc),
            *acc == a0,
            i <= o.len(),
            forall|k: int| 0 <= k < i ==> !guards(#[trigger] o[k], a0, distance),
        decreases o.len() - i,
    {
        let x = reactions[i];
        let in_range = match x.trigger {
            ReactionTrigger::WhenAllyDamaged { range } => distance <= range,
            _ => false,
        };
        if in_range && x.cooldown_remaining == 0 && a0 >= x.speed_cost {
            proof {
                lemma_first_guard_reaction(o, a0, distance, i as int);
            }
            *acc = a0 - x.speed_cost;
            let cd: u8 = match x.cooldown_turns {
                Some(c) => c,
                None => 0,
            };
            reactions.set(i, Reaction { cooldown_remaining: cd, ..x });
            return Some(ReactionTriggered {
                reactor,
                trigger: x.trigger,
                ability_id: x.ability_id,
                catalyst: Some(attacker),
            });
        }
        i = i + 1;
    }
    proof {
        lemma_first_guard_reaction(o, a0, distance, i as int);
    }
    None
}

/// The counter-attack a fired reaction makes: the reactor strikes the
/// combatant that provoked it with the reaction's ability, looked up in the
/// ability tree. Nothing happens when the ability is not in the tree or
/// nobody provoked the reaction.
pub fn reaction_attack<'a>(fired: ReactionTriggered, tree: &'a AbilityTree) -> (r: Option<(EntityId, EntityId, &'a Ability)>)
    requires
        tree.well_formed(),
    ensures
        r == (if tree.view().contains_key(fired.ability_id) && fired.catalyst is Some {
            Some((fired.reactor, fired.catalyst->0, &tree.view()[fired.ability_id]))
        } else {
            None
        }),
{
    let ability = match tree.find(fired.ability_id) {
        Some(a) => a,
        None => {
            return None;
        },
    };
    match fired.catalyst {
        Some(target) => Some((fired.reactor, target, ability)),
        None => None,
    }
}

/// Add awarded experience and report the level it reaches: the experience's
/// high sixteen bits, as a byte, capped at `MAX_LEVEL`.
pub fn award_xp(xp: &mut u32, amount: u32) -> (new_level: u8)
    requires
        *old(xp) + amount <= u32::MAX,
    ensures
        *final(xp) == *old(xp) + amount,
        new_level as int == if (*final(xp) as int / 65536) % 256 < MAX_LEVEL {
            (*final(xp) as int / 65536) % 256
        } else {
            MAX_LEVEL as int
        },
{
    *xp = *xp + amount;
    let high: u32 = *xp >> 16u32;
    assert(high == *xp / 65536) by (bit_vector)
        requires
            high == *xp >> 16u32,
    ;
    let byte: u8 = (high % 256) as u8;
    if byte < MAX_LEVEL {
        byte
    } else {
        MAX_LEVEL
    }
}

/// What the cleric's blessing reads of a combatant.
#[derive(Clone, Copy, Debug, PartialEq, Eq, Structural)]
pub struct BlessingCandidate {
    pub entity: EntityId,
    pub side: BattleSide,
    pub health: StatPool<i32>,
}

/// Whether a candidate can be blessed by a cleric of `side`: same side,
/// alive, and wounded.
pub open spec fn blessable(c: BlessingCandidate, side: BattleSide) -> bool {
    c.side == side && c.health.current > 0 && c.health.base - c.health.current > 0
}

/// The most wounded blessable candidate among the first `n` (the first of
/// equals), with its deficit.
pub open spec fn most_wounded(cs: Seq<BlessingCandidate>, side: BattleSide, n: int) -> Option<(EntityId, int)>
    decreases n,
{
    if n <= 0 {
        None
    } else {
        let prev = most_wounded(cs, side, n - 1);
        let c = cs[n - 1];
        if blessable(c, side) {
            let d = c.health.base - c.health.current;
            match prev {
                Some(p) => if d > p.1 {
                    Some((c.entity, d))
                } else {
                    prev
                },
                None => Some((c.entity, d)),
            }
        } else {
            prev
        }
    }
}

/// Health the cleric's blessing mends.
pub const BLESSING_HEAL: u32 = 10;

/// Whom the cleric's blessing mends at the start of her turn: the most
/// wounded living combatant of her side (herself included; the first of
/// equals), if anyone is wounded.
pub fn cleric_blessing_target(side: BattleSide, candidates: &Vec<BlessingCandidate>) -> (r: Option<EntityId>)
    ensures
        r == match most_wounded(candidates@, side, candidates@.len() as int) {
            Some(b) => Some(b.0),
            None => None,
        },
{
    let mut best: Option<(EntityId, i64)> = None;
    let mut i: usize = 0;
    while i < candidates.len()
        invariant
            i <= candidates@.len(),
            match best {
                Some(b) => most_wounded(candidates@, side, i as int) == Some((b.0, b.1 as int)),
                None => most_wounded(candidates@, side, i as int) is None,
            },
        decreases candidates.len() - i,
    {
        let c = candidates[i];
        if c.side == side && c.health.current > 0 {
            let d: i64 = c.health.base as i64 - c.health.current as i64;
            if d > 0 {
                let better = match best {
                    Some(b) => d > b.1,
                    None => true,
                };
                if better {
                    best = Some((c.entity, d));
                }
            }
        }
        i = i + 1;
    }
    match best {
        Some(b) => Some(b.0),
        None => None,
    }
}

/// The necromancer's grave-hunger: a landed hit of `amount` heals him a
/// third of it, at least 1; nothing for a hit that did no damage.
pub fn necromancer_drain(amount: i32) -> (r: Option<u32>)
    ensures
        amount <= 0 ==> r is None,
        amount > 0 ==> r == Some(if amount / 3 < 1 { 1u32 } else { (amount / 3) as u32 }),
{
    if amount <= 0 {
        return None;
    }
    let third = amount / 3;
    Some(if third < 1 { 1 } else { third as u32 })
}

/// Lethality the samurai's resolve adds.
pub const SAMURAI_RESOLVE_LETHALITY: i32 = 6;

/// The samurai's bushidō holds while his morale is at least 60% of its
/// ceiling (negative morale counting as none, and never with no ceiling).
pub fn samurai_resolve_holds(morale: StatPool<i32>) -> (r: bool)
    ensures
        r == (morale.base > 0 && 10 * (if morale.current < 0 { 0 } else { morale.current as int }) >= 6
            * morale.base),
{
    if morale.base <= 0 {
        return false;
    }
    let current: i64 = if morale.current < 0 { 0 } else { morale.current as i64 };
    current * 10 >= morale.base as i64 * 6
}

/// `x + n` capped at `ceiling`.
pub open spec fn regen_to(x: i32, n: int, ceiling: i32) -> i32 {
    if x + n < ceiling { (x + n) as i32 } else { ceiling }
}

/// The per-turn sustain passives: the monk regains a point of Kiho, the
/// onmyōji a point of Onmyōdō (magic is in hundredths), the pilgrim nun four
/// morale; none past its ceiling.
pub fn class_turn_start_regen(stats: &mut CombatStats, monk: bool, onmyoji: bool, bikuni: bool)
    requires
        old(stats).kiho.current + 100 <= i32::MAX,
        old(stats).onmyodo.current + 100 <= i32::MAX,
        old(stats).morale.current + 4 <= i32::MAX,
    ensures
        *final(stats) == (CombatStats {
            kiho: if monk {
                StatPool { current: regen_to(old(stats).kiho.current, 100, old(stats).kiho.base), ..old(stats).kiho }
            } else {
                old(stats).kiho
            },
            onmyodo: if onmyoji {
                StatPool {
                    current: regen_to(old(stats).onmyodo.current, 100, old(stats).onmyodo.base),
                    ..old(stats).onmyodo
                }
            } else {
                old(stats).onmyodo
            },
            morale: if bikuni {
                StatPool { current: regen_to(old(stats).morale.current, 4, old(stats).morale.base), ..old(stats).morale }
            } else {
                old(stats).morale
            },
            ..*old(stats)
        }),
{
    if monk {
        let c = stats.kiho.current + 100;
        stats.kiho.current = if c < stats.kiho.base { c } else { stats.kiho.base };
    }
    if onmyoji {
        let c = stats.onmyodo.current + 100;
        stats.onmyodo.current = if c < stats.onmyodo.base { c } else { stats.onmyodo.base };
    }
    if bikuni {
        let c = stats.morale.current + 4;
        stats.morale.current = if c < stats.morale.base { c } else { stats.morale.base };
    }
}

/// Flat damage the guardian shrugs off every hit.
pub const GUARDIAN_DAMAGE_REDUCTION: i32 = 3;

/// The rogue's chance, in percent, to slip a blow: her evasion, between 0
/// and 50.
pub fn dodge_chance_percent(evasion: i32) -> (r: u32)
    ensures
        r == if evasion < 0 { 0 } else if evasion > 50 { 50 } else { evasion as int },
{
    if evasion < 0 {
        0
    } else if evasion > 50 {
        50
    } else {
        evasion as u32
    }
}

/// A borrowed-life shield that soaks damage before health.
#[derive(Clone, Copy, Debug, PartialEq, Eq, Structural)]
pub struct ExtraHp {
    pub current: u32,
    pub max: u32,
}

/// The damage left after the class defences, in order: a rogue's dodge
/// (`dodged`, rolled by the caller) cancels the hit, a guardian takes 3
/// less (not below 0), and a spirit shield soaks what it can. Only a
/// positive hit is mitigated.
pub open spec fn mitigated(amount: i32, rogue: bool, dodged: bool, guardian: bool, shield: Option<ExtraHp>) -> int {
    if amount <= 0 {
        amount as int
    } else {
        let a1 = if rogue && dodged { 0 } else { amount as int };
        let a2 = if a1 > 0 && guardian { if a1 - 3 < 0 { 0 } else { a1 - 3 } } else { a1 };
        match shield {
            Some(s) => if a2 > 0 && s.current > 0 {
                a2 - (if a2 < s.current { a2 } else { s.current as int })
            } else {
                a2
            },
            None => a2,
        }
    }
}

/// Apply the class defences to an incoming hit of `amount`: see
/// `mitigated`. The shield loses what it soaked.
pub fn mitigate_damage(
    amount: i32,
    rogue: bool,
    dodged: bool,
    guardian: bool,
    shield: &mut Option<ExtraHp>,
) -> (r: i32)
    ensures
        r == mitigated(amount, rogue, dodged, guardian, *old(shield)),
        match (*old(shield), *final(shield)) {
            (Some(s0), Some(s1)) => s1.max == s0.max && s1.current == s0.current - (
            if amount <= 0 { 0 } else { (mitigated(amount, rogue, dodged, guardian, None) - r) }),
            (None, None) => true,
            _ => false,
        },
{
    if amount <= 0 {
        return amount;
    }
    let mut a: i32 = amount;
    if rogue && dodged {
        a = 0;
    }
    if a > 0 && guardian {
        a = if a - GUARDIAN_DAMAGE_REDUCTION < 0 { 0 } else { a - GUARDIAN_DAMAGE_REDUCTION };
    }
    match shield {
        Some(s) => {
            if a > 0 && s.current > 0 {
                let absorbed: u32 = if (a as u32) < s.current { a as u32 } else { s.current };
                s.current = s.current - absorbed;
                a = a - absorbed as i32;
            }
        },
        None => {},
    }
    a
}

/// Health left after a hit of `amount` on `current`: never below zero (a hit
/// at least as large as what is left kills outright) nor above `i32::MAX`.
pub open spec fn health_after(current: i32, amount: i32) -> int {
    let d = current - amount;
    if d < 0 { 0 } else if d > i32::MAX { i32::MAX as int } else { d }
}

/// The special amounts a queued hit can carry instead of damage.
#[derive(Clone, Copy, Debug, PartialEq, Eq, Structural)]
pub enum DamageSignal {
    /// The attack missed (-1).
    Miss,
    /// The target slipped it (-2).
    Dodge,
    /// A guaranteed kill (-3).
    HitKill,
}

/// The signal a queued amount stands for: -1 a miss, -2 a dodge, -3 a
/// guaranteed kill; any other amount is plain damage.
pub fn decode_damage_signal(amount: i32) -> (r: Option<DamageSignal>)
    ensures
        r == if amount == -1 {
            Some(DamageSignal::Miss)
        } else if amount == -2 {
            Some(DamageSignal::Dodge)
        } else if amount == -3 {
            Some(DamageSignal::HitKill)
        } else {
            None::<DamageSignal>
        },
{
    if amount == -1 {
        Some(DamageSignal::Miss)
    } else if amount == -2 {
        Some(DamageSignal::Dodge)
    } else if amount == -3 {
        Some(DamageSignal::HitKill)
    } else {
        None
    }
}

/// The queued amount that carries a signal.
pub fn encode_damage_signal(signal: DamageSignal) -> (r: i32)
    ensures
        r == match signal {
            DamageSignal::Miss => -1i32,
            DamageSignal::Dodge => -2i32,
            DamageSignal::HitKill => -3i32,
        },
{
    match signal {
        DamageSignal::Miss => -1,
        DamageSignal::Dodge => -2,
        DamageSignal::HitKill => -3,
    }
}

/// The hit a signal sends on: a miss or a dodge sends none, a guaranteed
/// kill sends the largest hit there is.
pub fn signal_hit(signal: DamageSignal) -> (r: Option<i32>)
    ensures
        r == match signal {
            DamageSignal::HitKill => Some(i32::MAX),
            _ => None::<i32>,
        },
{
    match signal {
        DamageSignal::HitKill => Some(i32::MAX),
        _ => None,
    }
}

/// Take a mitigated hit of `amount` off health, which stops at zero, and
/// report how much health it took and whether it killed: it does exactly
/// when it is at least the health left.
pub fn apply_damage_to_health(health: &mut StatPool<i32>, amount: i32) -> (r: (i64, bool))
    ensures
        final(health).current == health_after(old(health).current, amount),
        final(health).base == old(health).base,
        r.0 == old(health).current - final(health).current,
        r.1 == (amount >= old(health).current),
        r.1 == (final(health).current == 0),
{
    let before = health.current;
    let d: i64 = before as i64 - amount as i64;
    let after: i32 = if d < 0 {
        0
    } else if d > i32::MAX as i64 {
        i32::MAX
    } else {
        d as i32
    };
    health.current = after;
    (before as i64 - after as i64, after == 0)
}

/// The rogue's dodge chance in percent: her evasion, between 0 and 50.
pub open spec fn dodge_percent(evasion: i32) -> int {
    if evasion < 0 { 0 } else if evasion > 50 { 50 } else { evasion as int }
}

/// Whether a draw of `roll` (from 0 to 99) slips the hit: only a rogue
/// facing a positive hit can, when the draw is below her dodge chance.
pub open spec fn dodges_on(roll: u32, rogue: bool, evasion: i32, amount: i32) -> bool {
    rogue && amount > 0 && roll < dodge_percent(evasion)
}

/// Whether the draw `roll` slips the hit (see `dodges_on`).
pub fn dodge_on_roll(roll: u32, rogue: bool, evasion: i32, amount: i32) -> (dodged: bool)
    ensures
        dodged == dodges_on(roll, rogue, evasion, amount),
{
    rogue && amount > 0 && roll < dodge_chance_percent(evasion)
}

/// Law: a guaranteed kill kills: the hit it sends leaves any health at zero,
/// which `apply_damage_to_health` reports as a death.
pub proof fn lemma_hit_kill_kills(current: i32)
    ensures
        health_after(current, i32::MAX) == 0,
        i32::MAX >= current,
{
}

/// Roll whether a rogue slips an incoming hit: a draw from 0 to 99 below
/// her dodge chance in percent. Only a rogue facing a positive hit rolls;
/// with no chance (no evasion) she never dodges. Whatever is drawn, the
/// outcome is what `dodges_on` gives for some draw from 0 to 99.
pub fn roll_dodge(rogue: bool, evasion: i32, amount: i32) -> (dodged: bool)
    ensures
        dodged ==> rogue && amount > 0 && evasion > 0,
        exists|roll: u32| roll < 100 && #[trigger] dodges_on(roll, rogue, evasion, amount) == dodged,
{
    if !rogue || amount <= 0 {
        assert(dodges_on(0, rogue, evasion, amount) == false);
        return false;
    }
    let roll = roll_in_range(0, 100);
    let dodged = dodge_on_roll(roll, rogue, evasion, amount);
    assert(dodges_on(roll, rogue, evasion, amount) == dodged);
    dodged
}

/// A hit of `amount` was taken with the given class defences and dodge
/// outcome: the shield soaked its share, health lost the rest (stopping at
/// zero),
/// and `r` tells how much health went and whether none is left.
pub open spec fn hit_taken(
    amount: i32,
    rogue: bool,
    dodged: bool,
    guardian: bool,
    shield0: Option<ExtraHp>,
    shield1: Option<ExtraHp>,
    health0: StatPool<i32>,
    health1: StatPool<i32>,
    r: (i64, bool),
) -> bool {
    let left = mitigated(amount, rogue, dodged, guardian, shield0);
    &&& -0x8000_0000 <= left <= 0x7fff_ffff
    &&& match (shield0, shield1) {
        (Some(s0), Some(s1)) => s1.max == s0.max && s1.current == s0.current - (if amount <= 0 {
            0
        } else {
            mitigated(amount, rogue, dodged, guardian, None) - left
        }),
        (None, None) => true,
        _ => false,
    }
    &&& health1.current == health_after(health0.current, left as i32)
    &&& health1.base == health0.base
    &&& r.0 == health0.current - health1.current
    &&& r.1 == (health1.current == 0)
}

/// Take an incoming hit of `amount` on a target: a rogue may dodge it (see
/// `roll_dodge`), then the guardian's reduction and the spirit shield apply
/// (see `mitigated`), and what is left comes off health. Returns the health
/// taken and whether the target is left at zero. Whatever the dodge roll,
/// the hit is taken as `hit_taken` says for some outcome of it that
/// `roll_dodge` allows.
pub fn resolve_hit(
    amount: i32,
    rogue: bool,
    evasion: i32,
    guardian: bool,
    shield: &mut Option<ExtraHp>,
    health: &mut StatPool<i32>,
) -> (r: (i64, bool))
    ensures
        exists|dodged: bool|
            (dodged ==> rogue && amount > 0 && evasion > 0) && #[trigger] hit_taken(
                amount,
                rogue,
                dodged,
                guardian,
                *old(shield),
                *final(shield),
                *old(health),
                *final(health),
                r,
            ),
{
    let dodged = roll_dodge(rogue, evasion, amount);
    let left = mitigate_damage(amount, rogue, dodged, guardian, shield);
    let r = apply_damage_to_health(health, left);
    assert(hit_taken(amount, rogue, dodged, guardian, *old(shield), *shield, *old(health), *health, r));
    r
}

/// At the start of a combatant's turn its action points refill to their
/// ceiling. A combatant neither the player nor a behaviour tree drives
/// (`scripted`) then spends them on basic attacks of `attack_cost` each
/// against the first other combatant, for as long as it can pay; returns
/// how many attacks it makes (none for the others).
pub fn start_turn(stats: &mut CombatStats, scripted: bool, attack_cost: i32) -> (attacks: u32)
    requires
        attack_cost > 0,
    ensures
        ({
            let base = old(stats).action_points.base;
            let n = if scripted && base > 0 { base / attack_cost } else { 0 };
            &&& attacks == n
            &&& *final(stats) == (CombatStats {
                action_points: StatPool { current: (base - n * attack_cost) as i32, base },
                ..*old(stats)
            })
        }),
{
    let base = stats.action_points.base;
    stats.action_points.current = base;
    if !scripted {
        return 0;
    }
    let mut current: i32 = base;
    let mut attacks: u32 = 0;
    while current >= attack_cost
        invariant
            attack_cost > 0,
            current == base - attacks * attack_cost,
            current >= 0 || attacks == 0,
            base > 0 ==> attacks <= base / attack_cost,
            base <= 0 ==> attacks == 0,
        decreases current,
    {
        proof {
            assert((attacks + 1) * attack_cost == attacks * attack_cost + attack_cost) by (nonlinear_arith);
        }
        current = current - attack_cost;
        attacks = attacks + 1;
        proof {
            assert(attacks <= base / attack_cost) by (nonlinear_arith)
                requires
                    base - attacks * attack_cost >= 0,
                    attack_cost > 0,
                    attacks >= 1,
            ;
        }
    }
    proof {
        if base > 0 {
            assert(attacks == base / attack_cost) by (nonlinear_arith)
                requires
                    base - attacks * attack_cost < attack_cost,
                    base - attacks * attack_cost >= 0,
                    attack_cost > 0,
                    base > 0,
            ;
        }
    }
    stats.action_points.current = current;
    attacks
}

/// Half of `x`, rounded toward zero.
pub open spec fn half(x: i32) -> int {
    if x >= 0 { x as int / 2 } else { -((-(x as int)) / 2) }
}

/// Drain morale: the rolled `amount` plus half the drainer's stat bonus,
/// when positive, comes off the target's morale, which stops at zero.
pub fn drain_morale(morale: &mut StatPool<i32>, amount: i32, stat_value: i32)
    requires
        i32::MIN <= amount + half(stat_value) <= i32::MAX,
    ensures
        ({
            let total = amount + half(stat_value);
            if total <= 0 {
                *final(morale) == *old(morale)
            } else {
                &&& final(morale).current == if old(morale).current - total < 0 {
                    0
                } else {
                    old(morale).current - total
                }
                &&& final(morale).base == old(morale).base
            }
        }),
{
    let total: i32 = amount + stat_value / 2;
    if total <= 0 {
        return;
    }
    let d: i64 = morale.current as i64 - total as i64;
    morale.current = if d < 0 { 0 } else { d as i32 };
}

/// How a spirit point's three distribution points are split among the
/// magic schools.
#[derive(Clone, Copy, Debug, PartialEq, Eq, Structural)]
pub struct MagicDistribution {
    pub kiho: u8,
    pub onmyodo: u8,
    pub yokaijutsu: u8,
    pub kamishin: u8,
}

/// The attributes a player allocates at level-up.
#[derive(Clone, Copy, Debug, PartialEq, Eq, Structural)]
pub struct GrowthAttributes {
    pub vitality: u8,
    pub endurance: u8,
    pub spirit: u8,
    pub power: u8,
    pub control: u8,
    pub celerity: u8,
    pub reflex: u8,
    pub insight: u8,
    pub resolve: u8,
    pub magic_distribution: MagicDistribution,
}

/// Points a character has to allocate, and has allocated.
#[derive(Clone, Copy, Debug, PartialEq, Eq, Structural)]
pub struct AttributePointPool {
    pub available: u32,
    pub spent: u32,
}

/// The points allocated across the nine attributes.
pub open spec fn points_allocated(a: GrowthAttributes) -> int {
    a.vitality + a.endurance + a.spirit + a.power + a.control + a.celerity + a.reflex + a.insight
        + a.resolve
}

/// No attribute points and no magic distribution.
pub open spec fn unallocated() -> GrowthAttributes {
    GrowthAttributes {
        vitality: 0,
        endurance: 0,
        spirit: 0,
        power: 0,
        control: 0,
        celerity: 0,
        reflex: 0,
        insight: 0,
        resolve: 0,
        magic_distribution: MagicDistribution { kiho: 0, onmyodo: 0, yokaijutsu: 0, kamishin: 0 },
    }
}

/// Whether the magic distribution stays within three points per spirit
/// point.
pub open spec fn distribution_within_budget(a: GrowthAttributes) -> bool {
    a.magic_distribution.kiho + a.magic_distribution.onmyodo + a.magic_distribution.yokaijutsu
        + a.magic_distribution.kamishin <= 3 * a.spirit
}

/// Whether the magic distribution stays within three points per spirit
/// point.
pub fn magic_distribution_within_budget(a: &GrowthAttributes) -> (r: bool)
    ensures
        r == distribution_within_budget(*a),
{
    let d = a.magic_distribution;
    (d.kiho as u32 + d.onmyodo as u32 + d.yokaijutsu as u32 + d.kamishin as u32) <= 3 * a.spirit as u32
}

/// Reset every attribute (and the magic distribution); with
/// `refund_all_points`, the allocated points go back to the pool and
/// nothing counts as spent. Returns the points that were allocated.
pub fn respec(attributes: &mut GrowthAttributes, pool: &mut AttributePointPool, refund_all_points: bool) -> (r:
    u32)
    requires
        refund_all_points ==> old(pool).available + points_allocated(*old(attributes)) <= u32::MAX,
    ensures
        r == points_allocated(*old(attributes)),
        *final(attributes) == unallocated(),
        refund_all_points ==> *final(pool) == (AttributePointPool {
            available: (old(pool).available + r) as u32,
            spent: 0,
        }),
        !refund_all_points ==> *final(pool) == *old(pool),
{
    let total: u32 = attributes.vitality as u32 + attributes.endurance as u32 + attributes.spirit as u32
        + attributes.power as u32 + attributes.control as u32 + attributes.celerity as u32
        + attributes.reflex as u32 + attributes.insight as u32 + attributes.resolve as u32;
    *attributes = GrowthAttributes {
        vitality: 0,
        endurance: 0,
        spirit: 0,
        power: 0,
        control: 0,
        celerity: 0,
        reflex: 0,
        insight: 0,
        resolve: 0,
        magic_distribution: MagicDistribution { kiho: 0, onmyodo: 0, yokaijutsu: 0, kamishin: 0 },
    };
    if refund_all_points {
        pool.available = pool.available + total;
        pool.spent = 0;
    }
    total
}

/// What a level-up gain goes to: a pool's ceiling or a per-rest-hour rate.
#[derive(Clone, Copy, Debug, PartialEq, Eq, Structural)]
pub enum GrowthTarget {
    Health,
    HealthRegen,
    Morale,
    MoraleRegen,
    Lethality,
    Hit,
    Armor,
    Speed,
    Evasion,
    Mind,
    Movement,
    Kiho,
    Onmyodo,
    Yokaijutsu,
    Kamishin,
}

/// A pool after a permanent change of `amount` to its ceiling (see
/// `StatPool::add_to_base`).
pub open spec fn raised(p: StatPool<i32>, amount: int) -> StatPool<i32> {
    StatPool { current: non_negative(p.current + amount) as i32, base: non_negative(p.base + amount) as i32 }
}

/// `a + b` saturating at the ends of `i32`.
pub open spec fn sat_add(a: i32, b: i32) -> i32 {
    let s = a + b;
    if s < i32::MIN { i32::MIN } else if s > i32::MAX { i32::MAX } else { s as i32 }
}

/// The pool a growth target raises, if it is a pool.
pub open spec fn growth_pool(stats: CombatStats, target: GrowthTarget) -> Option<StatPool<i32>> {
    match target {
        GrowthTarget::Health => Some(stats.health),
        GrowthTarget::Morale => Some(stats.morale),
        GrowthTarget::Lethality => Some(stats.lethality),
        GrowthTarget::Hit => Some(stats.hit),
        GrowthTarget::Armor => Some(stats.armor),
        GrowthTarget::Speed => Some(stats.speed),
        GrowthTarget::Evasion => Some(stats.evasion),
        GrowthTarget::Mind => Some(stats.mind),
        GrowthTarget::Movement => Some(stats.movement),
        GrowthTarget::Kiho => Some(stats.kiho),
        GrowthTarget::Onmyodo => Some(stats.onmyodo),
        GrowthTarget::Yokaijutsu => Some(stats.yokaijutsu),
        GrowthTarget::Kamishin => Some(stats.kamishin),
        _ => None,
    }
}

/// The change a gain of `amount` points makes to its pool: magic pools are
/// kept in hundredths.
pub open spec fn growth_step(target: GrowthTarget, amount: i32) -> int {
    match target {
        GrowthTarget::Kiho | GrowthTarget::Onmyodo | GrowthTarget::Yokaijutsu | GrowthTarget::Kamishin => 100
            * amount,
        _ => amount as int,
    }
}

/// Whether a gain stays within `i32` where it is not saturated.
pub open spec fn growth_fits(stats: CombatStats, target: GrowthTarget, amount: i32) -> bool {
    match growth_pool(stats, target) {
        Some(p) => {
            let d = growth_step(target, amount);
            &&& i32::MIN <= d <= i32::MAX
            &&& i32::MIN <= p.base + d <= i32::MAX
            &&& i32::MIN <= p.current + d <= i32::MAX
        },
        None => true,
    }
}

/// `stats` after a level-up gain of `amount` points to `target`.
pub open spec fn grown(stats: CombatStats, target: GrowthTarget, amount: i32) -> CombatStats {
    let d = growth_step(target, amount);
    match target {
        GrowthTarget::Health => CombatStats { health: raised(stats.health, d), ..stats },
        GrowthTarget::HealthRegen => CombatStats {
            health_per_rest_hour: sat_add(stats.health_per_rest_hour, amount),
            ..stats
        },
        GrowthTarget::Morale => CombatStats { morale: raised(stats.morale, d), ..stats },
        GrowthTarget::MoraleRegen => CombatStats {
            morale_per_rest_hour: sat_add(stats.morale_per_rest_hour, amount),
            ..stats
        },
        GrowthTarget::Lethality => CombatStats { lethality: raised(stats.lethality, d), ..stats },
        GrowthTarget::Hit => CombatStats { hit: raised(stats.hit, d), ..stats },
        GrowthTarget::Armor => CombatStats { armor: raised(stats.armor, d), ..stats },
        GrowthTarget::Speed => CombatStats { speed: raised(stats.speed, d), ..stats },
        GrowthTarget::Evasion => CombatStats { evasion: raised(stats.evasion, d), ..stats },
        GrowthTarget::Mind => CombatStats { mind: raised(stats.mind, d), ..stats },
        GrowthTarget::Movement => CombatStats { movement: raised(stats.movement, d), ..stats },
        GrowthTarget::Kiho => CombatStats { kiho: raised(stats.kiho, d), ..stats },
        GrowthTarget::Onmyodo => CombatStats { onmyodo: raised(stats.onmyodo, d), ..stats },
        GrowthTarget::Yokaijutsu => CombatStats { yokaijutsu: raised(stats.yokaijutsu, d), ..stats },
        GrowthTarget::Kamishin => CombatStats { kamishin: raised(stats.kamishin, d), ..stats },
    }
}

fn add_saturating(a: i32, b: i32) -> (r: i32)
    ensures
        r == sat_add(a, b),
{
    let s: i64 = a as i64 + b as i64;
    if s < i32::MIN as i64 {
        i32::MIN
    } else if s > i32::MAX as i64 {
        i32::MAX
    } else {
        s as i32
    }
}

/// Apply a level-up gain of `amount` points: a pool's ceiling (and its
/// current value with it) moves by the gain, neither below zero, magic in
/// hundredths; a rest rate moves by it, saturating.
pub fn apply_growth(stats: &mut CombatStats, target: GrowthTarget, amount: i32)
    requires
        growth_fits(*old(stats), target, amount),
    ensures
        *final(stats) == grown(*old(stats), target, amount),
{
    match target {
        GrowthTarget::Health => stats.health.add_to_base(amount),
        GrowthTarget::HealthRegen => {
            stats.health_per_rest_hour = add_saturating(stats.health_per_rest_hour, amount);
        },
        GrowthTarget::Morale => stats.morale.add_to_base(amount),
        GrowthTarget::MoraleRegen => {
            stats.morale_per_rest_hour = add_saturating(stats.morale_per_rest_hour, amount);
        },
        GrowthTarget::Lethality => stats.lethality.add_to_base(amount),
        GrowthTarget::Hit => stats.hit.add_to_base(amount),
        GrowthTarget::Armor => stats.armor.add_to_base(amount),
        GrowthTarget::Speed => stats.speed.add_to_base(amount),
        GrowthTarget::Evasion => stats.evasion.add_to_base(amount),
        GrowthTarget::Mind => stats.mind.add_to_base(amount),
        GrowthTarget::Movement => stats.movement.add_to_base(amount),
        GrowthTarget::Kiho => stats.kiho.add_to_base(amount * 100),
        GrowthTarget::Onmyodo => stats.onmyodo.add_to_base(amount * 100),
        GrowthTarget::Yokaijutsu => stats.yokaijutsu.add_to_base(amount * 100),
        GrowthTarget::Kamishin => stats.kamishin.add_to_base(amount * 100),
    }
}

} // verus!
