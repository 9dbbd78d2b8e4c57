//! Abilities: their data, and what casting one on a list of targets sets in
//! motion (heals, queued damage, buffs, statuses, summons, wheel changes).

use vstd::prelude::*;
use crate::ability_id::{level_of, sub_id_of, unpack_ability_id};
use crate::dice::roll_in_range;
use crate::gogyo::{Element, Phase};

verus! {

/// A combatant, by its entity number.
pub type EntityId = u64;

/// The school of magic an ability draws on.
#[derive(Clone, Copy, Debug, PartialEq, Eq, Structural)]
pub enum MagicSchool {
    Kiho,
    Onmyodo,
    Yokaijutsu,
    Kamishin,
}

/// The stats that abilities scale with or are defended by.
#[derive(Clone, Copy, Debug, PartialEq, Eq, Structural)]
pub enum Stat {
    Health,
    Magic,
    Kiho,
    Onmyodo,
    Yokaijutsu,
    Kamishin,
    ActionPoints,
    Movement,
    Lethality,
    Hit,
    Speed,
    Evasion,
    Armor,
    Mind,
    Morale,
}

/// Kinds of damage.
#[derive(Clone, Copy, Debug, PartialEq, Eq, Structural)]
pub enum DamageType {
    Physical,
    Fire,
    Ice,
    True,
}

/// What a summoning ability brings onto the field.
#[derive(Clone, Copy, Debug, PartialEq, Eq, Structural)]
pub enum SummonKind {
    /// A fragile, fast familiar that acts on its own.
    Shikigami,
    /// An impassable barrier.
    SpiritWard,
    /// Passable, slowing, biting hazard terrain.
    ThornBramble,
    /// An impassable wall with a burning aura.
    EmberWard,
    /// A passable cloud that slows those lingering in it.
    HexMiasma,
}

impl SummonKind {
    /// Whether the summon is an inert obstacle rather than an autonomous
    /// combatant: everything but the shikigami.
    pub fn is_obstacle(self) -> (r: bool)
        ensures
            r == !(self is Shikigami),
    {
        match self {
            SummonKind::Shikigami => false,
            SummonKind::SpiritWard => true,
            SummonKind::ThornBramble => true,
            SummonKind::EmberWard => true,
            SummonKind::HexMiasma => true,
        }
    }
}

/// One effect of an ability. Rolled amounts are drawn from `floor..ceiling`.
/// Multipliers are in thousandths (`1000` = ×1).
#[derive(Clone, Debug)]
pub enum AbilityEffect {
    Heal { floor: u32, ceiling: u32, scaled_with: Stat },
    Damage {
        floor: u32,
        ceiling: u32,
        damage_type: DamageType,
        scaled_with: Stat,
        defended_with: Stat,
        /// Extra damage against a target with depleted morale, in thousandths
        /// of the hit at zero morale; `0` means none.
        amplify_low_morale: u32,
    },
    DrainMorale { floor: u32, ceiling: u32, scaled_with: Stat },
    Buff { stat: Stat, multiplier: u32, effects: Option<Vec<u16>>, scaled_with: Stat },
    /// Apply a status (by its number in the status catalogue) at a tier.
    ApplyStatus { kind: u16, tier: u8, resource_focus: Option<MagicSchool> },
    /// Strip a status (by its number in the status catalogue).
    RemoveStatus { kind: u16 },
    /// Bring a temporary combatant or obstacle onto the field; once per cast.
    Summon { kind: SummonKind, lifetime_turns: u8 },
    /// Re-attune each target to a phase for some turns.
    Attune { phase: Phase, duration: u8 },
    /// Flip each target's polarity for some turns.
    FlipPolarity { duration: u8 },
}

/// The area an ability covers; lengths in tenths of a world unit, angles in
/// degrees.
#[derive(Clone, Copy, Debug, PartialEq, Eq, Structural)]
pub enum AbilityShape {
    Radius(u32),
    Line { length: u32, thickness: u32 },
    Cone { angle: u32, radius: u32 },
    Select,
}

/// An ability. `magic_cost` is in hundredths of a point.
#[derive(Clone, Debug)]
pub struct Ability {
    pub id: u16,
    pub next_id: Option<u16>,
    pub name: String,
    pub health_cost: i32,
    pub magic_cost: u32,
    pub magic_school: MagicSchool,
    pub element: Option<Element>,
    pub action_point_cost: i32,
    pub cooldown: u8,
    pub description: String,
    pub effects: Vec<AbilityEffect>,
    pub shape: AbilityShape,
    pub duration: u8,
    pub targets: u8,
}

impl Ability {
    /// The level packed into the ability's id.
    pub fn get_level(&self) -> (r: u8)
        ensures
            r as int == level_of(self.id),
    {
        unpack_ability_id(self.id).0
    }

    /// The within-level sub-id packed into the ability's id.
    pub fn get_sub_id(&self) -> (r: u16)
        ensures
            r as int == sub_id_of(self.id),
    {
        unpack_ability_id(self.id).1
    }
}

/// What casting an ability on a target asks the rest of combat to do.
#[derive(Clone, Debug)]
pub enum AbilityOutcome {
    Heal { healer: EntityId, target: EntityId, amount: u32, element: Option<Element>, ability_id: u16 },
    DrainMorale {
        drainer: EntityId,
        target: EntityId,
        amount: i32,
        scaled_with: Stat,
        ability_id: u16,
    },
    /// A hit queued for the damage step.
    QueueDamage {
        attacker: EntityId,
        target: EntityId,
        amount: i32,
        damage_type: DamageType,
        element: Option<Element>,
        scaled_with: Stat,
        defended_with: Stat,
        amplify_low_morale: u32,
        ability_id: u16,
    },
    /// Notice to attack listeners that an ability attack was made.
    AttackIntent { attacker: EntityId, target: EntityId, ability_id: u16, damage_type: DamageType },
    Buff {
        applier: EntityId,
        target: EntityId,
        stat: Stat,
        multiplier: u32,
        duration_in_ticks: u32,
        additional_effects: Option<Vec<u16>>,
        applied_at: u32,
        element: Option<Element>,
        ability_id: u16,
    },
    ApplyStatus { target: EntityId, kind: u16, tier: u8, source: EntityId, resource_focus: Option<MagicSchool> },
    RemoveStatus { target: EntityId, kind: u16 },
    Summon { summoner: EntityId, kind: SummonKind, lifetime_turns: u8, target: Option<EntityId> },
    Attune { target: EntityId, phase: Phase, duration: u32, source: EntityId },
    FlipPolarity { target: EntityId, duration: u32, source: EntityId },
}

/// Whether an effect rolls an amount.
pub open spec fn is_rolled(e: AbilityEffect) -> bool {
    e is Heal || e is Damage || e is DrainMorale
}

/// The lowest amount a rolled effect can give.
pub open spec fn roll_floor(e: AbilityEffect) -> u32 {
    match e {
        AbilityEffect::Heal { floor, .. } => floor,
        AbilityEffect::Damage { floor, .. } => floor,
        AbilityEffect::DrainMorale { floor, .. } => floor,
        _ => 0,
    }
}

/// One past the highest amount a rolled effect can give.
pub open spec fn roll_ceiling(e: AbilityEffect) -> u32 {
    match e {
        AbilityEffect::Heal { ceiling, .. } => ceiling,
        AbilityEffect::Damage { ceiling, .. } => ceiling,
        AbilityEffect::DrainMorale { ceiling, .. } => ceiling,
        _ => 0,
    }
}

/// How many of the first `j` effects roll an amount.
pub open spec fn rolls_before(effects: Seq<AbilityEffect>, j: int) -> nat
    decreases j,
{
    if j <= 0 {
        0
    } else {
        rolls_before(effects, j - 1) + if is_rolled(effects[j - 1]) { 1nat } else { 0nat }
    }
}

/// How many amounts one target of the ability rolls.
pub open spec fn rolls_per_target(a: Ability) -> nat {
    rolls_before(a.effects@, a.effects@.len() as int)
}

/// Where the roll of effect `j` on the `i`-th target sits among all rolls.
pub open spec fn roll_index(a: Ability, i: int, j: int) -> int {
    i * rolls_per_target(a) + rolls_before(a.effects@, j)
}

/// Whether `rolls` holds one roll per target and rolled effect, in target
/// order then effect order, each within its effect's range.
pub open spec fn rolls_fit(a: Ability, n_targets: int, rolls: Seq<u32>) -> bool {
    &&& rolls.len() == n_targets * rolls_per_target(a)
    &&& forall|i: int, j: int|
        0 <= i < n_targets && 0 <= j < a.effects@.len() && is_rolled(a.effects@[j]) ==> roll_floor(
            a.effects@[j],
        ) <= #[trigger] rolls[roll_index(a, i, j)] < roll_ceiling(a.effects@[j])
}

/// Whether every rolled effect of the ability has a non-empty range.
pub open spec fn ranges_nonempty(a: Ability) -> bool {
    forall|j: int|
        0 <= j < a.effects@.len() && #[trigger] is_rolled(a.effects@[j]) ==> roll_floor(a.effects@[j])
            < roll_ceiling(a.effects@[j])
}

/// What effect `e` of ability `a` cast by `caster` asks for on `target`, the
/// `index`-th of the targets (`first` being the first of them), at time
/// `now`, with `roll` its rolled amount.
pub open spec fn effect_outcomes(
    caster: EntityId,
    a: Ability,
    target: EntityId,
    index: int,
    first: EntityId,
    now: u32,
    e: AbilityEffect,
    roll: u32,
) -> Seq<AbilityOutcome> {
    match e {
        AbilityEffect::Heal { .. } => seq![
            AbilityOutcome::Heal { healer: caster, target, amount: roll, element: a.element, ability_id: a.id },
        ],
        AbilityEffect::DrainMorale { scaled_with, .. } => seq![
            AbilityOutcome::DrainMorale {
                drainer: caster,
                target,
                amount: roll as i32,
                scaled_with,
                ability_id: a.id,
            },
        ],
        AbilityEffect::Damage {
            damage_type,
            scaled_with,
            defended_with,
            amplify_low_morale,
            ..
        } => seq![
            AbilityOutcome::QueueDamage {
                attacker: caster,
                target,
                amount: roll as i32,
                damage_type,
                element: a.element,
                scaled_with,
                defended_with,
                amplify_low_morale,
                ability_id: a.id,
            },
            AbilityOutcome::AttackIntent { attacker: caster, target, ability_id: a.id, damage_type },
        ],
        AbilityEffect::Buff { stat, multiplier, effects, .. } => seq![
            AbilityOutcome::Buff {
                applier: caster,
                target,
                stat,
                multiplier,
                duration_in_ticks: a.duration as u32,
                additional_effects: effects,
                applied_at: now,
                element: a.element,
                ability_id: a.id,
            },
        ],
        AbilityEffect::ApplyStatus { kind, tier, resource_focus } => seq![
            AbilityOutcome::ApplyStatus { target, kind, tier, source: caster, resource_focus },
        ],
        AbilityEffect::RemoveStatus { kind } => seq![AbilityOutcome::RemoveStatus { target, kind }],
        AbilityEffect::Summon { kind, lifetime_turns } => if index == 0 {
            seq![
                AbilityOutcome::Summon {
                    summoner: caster,
                    kind,
                    lifetime_turns,
                    target: Some(first),
                },
            ]
        } else {
            seq![]
        },
        AbilityEffect::Attune { phase, duration } => seq![
            AbilityOutcome::Attune { target, phase, duration: duration as u32, source: caster },
        ],
        AbilityEffect::FlipPolarity { duration } => seq![
            AbilityOutcome::FlipPolarity { target, duration: duration as u32, source: caster },
        ],
    }
}

/// What the first `j` effects ask for on the `i`-th target.
pub open spec fn target_outcomes(
    caster: EntityId,
    a: Ability,
    targets: Seq<EntityId>,
    i: int,
    now: u32,
    rolls: Seq<u32>,
    j: int,
) -> Seq<AbilityOutcome>
    decreases j,
{
    if j <= 0 {
        seq![]
    } else {
        target_outcomes(caster, a, targets, i, now, rolls, j - 1) + effect_outcomes(
            caster,
            a,
            targets[i],
            i,
            targets[0],
            now,
            a.effects@[j - 1],
            rolls[roll_index(a, i, j - 1)],
        )
    }
}

/// What the ability asks for on the first `n` targets, in target order and,
/// for each target, in effect order.
pub open spec fn cast_outcomes(
    caster: EntityId,
    a: Ability,
    targets: Seq<EntityId>,
    now: u32,
    rolls: Seq<u32>,
    n: int,
) -> Seq<AbilityOutcome>
    decreases n,
{
    if n <= 0 {
        seq![]
    } else {
        cast_outcomes(caster, a, targets, now, rolls, n - 1) + target_outcomes(
            caster,
            a,
            targets,
            n - 1,
            now,
            rolls,
            a.effects@.len() as int,
        )
    }
}

/// The extra effect ids of a buff outcome, as a sequence.
pub open spec fn opt_ids(v: Option<Vec<u16>>) -> Option<Seq<u16>> {
    match v {
        Some(x) => Some(x@),
        None => None,
    }
}

/// Two outcomes ask for the same thing (extra buff effect ids compared by
/// their contents).
pub open spec fn same_outcome(x: AbilityOutcome, y: AbilityOutcome) -> bool {
    match (x, y) {
        (
            AbilityOutcome::Buff {
                applier: a1,
                target: t1,
                stat: s1,
                multiplier: m1,
                duration_in_ticks: d1,
                additional_effects: e1,
                applied_at: n1,
                element: l1,
                ability_id: i1,
            },
            AbilityOutcome::Buff {
                applier: a2,
                target: t2,
                stat: s2,
                multiplier: m2,
                duration_in_ticks: d2,
                additional_effects: e2,
                applied_at: n2,
                element: l2,
                ability_id: i2,
            },
        ) => a1 == a2 && t1 == t2 && s1 == s2 && m1 == m2 && d1 == d2 && opt_ids(e1) == opt_ids(e2)
            && n1 == n2 && l1 == l2 && i1 == i2,
        _ => x == y,
    }
}

/// Two lists of outcomes ask for the same things in the same order.
pub open spec fn same_outcomes(xs: Seq<AbilityOutcome>, ys: Seq<AbilityOutcome>) -> bool {
    xs.len() == ys.len() && forall|k: int| 0 <= k < xs.len() ==> same_outcome(#[trigger] xs[k], ys[k])
}

proof fn lemma_same_outcomes_append(
    xs: Seq<AbilityOutcome>,
    ys: Seq<AbilityOutcome>,
    x: AbilityOutcome,
    y: AbilityOutcome,
)
    requires
        same_outcomes(xs, ys),
        same_outcome(x, y),
    ensures
        same_outcomes(xs.push(x), ys.push(y)),
{
    assert forall|k: int| 0 <= k < xs.push(x).len() implies same_outcome(
        #[trigger] xs.push(x)[k],
        ys.push(y)[k],
    ) by {
        if k < xs.len() {
            assert(xs.push(x)[k] == xs[k]);
            assert(ys.push(y)[k] == ys[k]);
        }
    }
}

proof fn lemma_rolls_before_mono(effects: Seq<AbilityEffect>, j: int, k: int)
    requires
        0 <= j <= k,
    ensures
        rolls_before(effects, j) <= rolls_before(effects, k),
    decreases k - j,
{
    if j < k {
        lemma_rolls_before_mono(effects, j, k - 1);
    }
}

fn clone_ids(v: &Option<Vec<u16>>) -> (r: Option<Vec<u16>>)
    ensures
        opt_ids(r) == opt_ids(*v),
{
    match v {
        Some(x) => {
            let mut out: Vec<u16> = Vec::new();
            let mut k: usize = 0;
            while k < x.len()
                invariant
                    k <= x.len(),
                    out@ == x@.take(k as int),
                decreases x.len() - k,
            {
                out.push(x[k]);
                k = k + 1;
                assert(out@ =~= x@.take(k as int));
            }
            assert(x@.take(x.len() as int) =~= x@);
            Some(out)
        },
        None => None,
    }
}

/// The outcomes of casting `ability` from `caster` on `affected` at time
/// `now`, given the rolled amounts `rolls` (one per target and rolled effect,
/// in target order then effect order). Each target gets every effect in
/// order; a damage effect queues the hit and announces the attack; a summon
/// happens once per cast, on the first target's turn of the loop.
pub fn ability_outcomes(
    caster: EntityId,
    ability: &Ability,
    affected: &Vec<EntityId>,
    now: u32,
    rolls: &Vec<u32>,
) -> (r: Vec<AbilityOutcome>)
    requires
        rolls@.len() == affected@.len() * rolls_per_target(*ability),
    ensures
        same_outcomes(
            r@,
            cast_outcomes(caster, *ability, affected@, now, rolls@, affected@.len() as int),
        ),
{
    let ghost a = *ability;
    let ghost k = rolls_per_target(a);
    let n_rolls = rolls.len();
    let mut out: Vec<AbilityOutcome> = Vec::new();
    let mut i: usize = 0;
    let mut base: usize = 0;
    while i < affected.len()
        invariant
            i <= affected@.len(),
            a == *ability,
            k == rolls_per_target(a),
            rolls@.len() == affected@.len() * k,
            rolls@.len() == n_rolls,
            base == i * k,
            same_outcomes(out@, cast_outcomes(caster, a, affected@, now, rolls@, i as int)),
        decreases affected.len() - i,
    {
        let target = affected[i];
        let first = affected[0];
        let mut j: usize = 0;
        let mut used: usize = 0;
        proof {
            lemma_rolls_before_mono(a.effects@, 0, a.effects@.len() as int);
            assert((i + 1) * k <= affected@.len() * k) by (nonlinear_arith)
                requires
                    i + 1 <= affected@.len(),
            ;
            assert((i + 1) * k == i * k + k) by (nonlinear_arith);
        }
        while j < ability.effects.len()
            invariant
                i < affected@.len(),
                j <= ability.effects@.len(),
                a == *ability,
                k == rolls_per_target(a),
                rolls@.len() == affected@.len() * k,
                rolls@.len() == n_rolls,
                base == i * k,
                base + k <= rolls@.len(),
                target == affected@[i as int],
                first == affected@[0],
                used == rolls_before(a.effects@, j as int),
                used <= k,
                same_outcomes(
                    out@,
                    cast_outcomes(caster, a, affected@, now, rolls@, i as int) + target_outcomes(
                        caster,
                        a,
                        affected@,
                        i as int,
                        now,
                        rolls@,
                        j as int,
                    ),
                ),
            decreases ability.effects.len() - j,
        {
            let ghost prefix = cast_outcomes(caster, a, affected@, now, rolls@, i as int)
                + target_outcomes(caster, a, affected@, i as int, now, rolls@, j as int);
            proof {
                lemma_rolls_before_mono(a.effects@, j as int + 1, a.effects@.len() as int);
            }
            let ghost idx = roll_index(a, i as int, j as int);
            let ghost expected = effect_outcomes(
                caster,
                a,
                target,
                i as int,
                first,
                now,
                a.effects@[j as int],
                rolls@[idx],
            );
            assert(prefix + expected =~= cast_outcomes(caster, a, affected@, now, rolls@, i as int)
                + target_outcomes(caster, a, affected@, i as int, now, rolls@, j as int + 1));
            match &ability.effects[j] {
                AbilityEffect::Heal { .. } => {
                    assert(rolls_before(a.effects@, j as int + 1) == used + 1);
                    let amount = rolls[base + used];
                    let o = AbilityOutcome::Heal {
                        healer: caster,
                        target,
                        amount,
                        element: ability.element,
                        ability_id: ability.id,
                    };
                    proof {
                        lemma_same_outcomes_append(out@, prefix, o, expected[0]);
                        assert(prefix.push(expected[0]) =~= prefix + expected);
                    }
                    out.push(o);
                    used = used + 1;
                },
                AbilityEffect::DrainMorale { scaled_with, .. } => {
                    assert(rolls_before(a.effects@, j as int + 1) == used + 1);
                    let amount = rolls[base + used] as i32;
                    let o = AbilityOutcome::DrainMorale {
                        drainer: caster,
                        target,
                        amount,
                        scaled_with: *scaled_with,
                        ability_id: ability.id,
                    };
                    proof {
                        lemma_same_outcomes_append(out@, prefix, o, expected[0]);
                        assert(prefix.push(expected[0]) =~= prefix + expected);
                    }
                    out.push(o);
                    used = used + 1;
                },
                AbilityEffect::Damage {
                    damage_type,
                    scaled_with,
                    defended_with,
                    amplify_low_morale,
                    ..
                } => {
                    assert(rolls_before(a.effects@, j as int + 1) == used + 1);
                    let amount = rolls[base + used] as i32;
                    let o1 = AbilityOutcome::QueueDamage {
                        attacker: caster,
                        target,
                        amount,
                        damage_type: *damage_type,
                        element: ability.element,
                        scaled_with: *scaled_with,
                        defended_with: *defended_with,
                        amplify_low_morale: *amplify_low_morale,
                        ability_id: ability.id,
                    };
                    let o2 = AbilityOutcome::AttackIntent {
                        attacker: caster,
                        target,
                        ability_id: ability.id,
                        damage_type: *damage_type,
                    };
                    proof {
                        lemma_same_outcomes_append(out@, prefix, o1, expected[0]);
                        lemma_same_outcomes_append(
                            out@.push(o1),
                            prefix.push(expected[0]),
                            o2,
                            expected[1],
                        );
                        assert(prefix.push(expected[0]).push(expected[1]) =~= prefix + expected);
                    }
                    out.push(o1);
                    out.push(o2);
                    used = used + 1;
                },
                AbilityEffect::Buff { stat, multiplier, effects, .. } => {
                    let extra = clone_ids(effects);
                    let o = AbilityOutcome::Buff {
                        applier: caster,
                        target,
                        stat: *stat,
                        multiplier: *multiplier,
                        duration_in_ticks: ability.duration as u32,
                        additional_effects: extra,
                        applied_at: now,
                        element: ability.element,
                        ability_id: ability.id,
                    };
                    proof {
                        lemma_same_outcomes_append(out@, prefix, o, expected[0]);
                        assert(prefix.push(expected[0]) =~= prefix + expected);
                    }
                    out.push(o);
                },
                AbilityEffect::ApplyStatus { kind, tier, resource_focus } => {
                    let o = AbilityOutcome::ApplyStatus {
                        target,
                        kind: *kind,
                        tier: *tier,
                        source: caster,
                        resource_focus: *resource_focus,
                    };
                    proof {
                        lemma_same_outcomes_append(out@, prefix, o, expected[0]);
                        assert(prefix.push(expected[0]) =~= prefix + expected);
                    }
                    out.push(o);
                },
                AbilityEffect::RemoveStatus { kind } => {
                    let o = AbilityOutcome::RemoveStatus { target, kind: *kind };
                    proof {
                        lemma_same_outcomes_append(out@, prefix, o, expected[0]);
                        assert(prefix.push(expected[0]) =~= prefix + expected);
                    }
                    out.push(o);
                },
                AbilityEffect::Summon { kind, lifetime_turns } => {
                    if i == 0 {
                        let o = AbilityOutcome::Summon {
                            summoner: caster,
                            kind: *kind,
                            lifetime_turns: *lifetime_turns,
                            target: Some(first),
                        };
                        proof {
                            lemma_same_outcomes_append(out@, prefix, o, expected[0]);
                            assert(prefix.push(expected[0]) =~= prefix + expected);
                        }
                        out.push(o);
                    } else {
                        assert(prefix =~= prefix + expected);
                    }
                },
                AbilityEffect::Attune { phase, duration } => {
                    let o = AbilityOutcome::Attune {
                        target,
                        phase: *phase,
                        duration: *duration as u32,
                        source: caster,
                    };
                    proof {
                        lemma_same_outcomes_append(out@, prefix, o, expected[0]);
                        assert(prefix.push(expected[0]) =~= prefix + expected);
                    }
                    out.push(o);
                },
                AbilityEffect::FlipPolarity { duration } => {
                    let o = AbilityOutcome::FlipPolarity {
                        target,
                        duration: *duration as u32,
                        source: caster,
                    };
                    proof {
                        lemma_same_outcomes_append(out@, prefix, o, expected[0]);
                        assert(prefix.push(expected[0]) =~= prefix + expected);
                    }
                    out.push(o);
                },
            }
            j = j + 1;
        }
        i = i + 1;
        base = base + used;
    }
    out
}

/// Cast `ability` from `caster` on `affected` at time `now`: roll each rolled
/// effect's amount once per target (with `rand`) and return what the cast
/// asks the rest of combat to do. Whatever the rolls, each lies in its
/// effect's range, and the result is what `ability_outcomes` gives for them.
pub fn handle_ability(caster: EntityId, ability: &Ability, affected: &Vec<EntityId>, now: u32) -> (r:
    Vec<AbilityOutcome>)
    requires
        affected@.len() > 0 ==> ranges_nonempty(*ability),
        affected@.len() * rolls_per_target(*ability) <= usize::MAX,
    ensures
        exists|rolls: Seq<u32>|
            rolls_fit(*ability, affected@.len() as int, rolls) && #[trigger] same_outcomes(
                r@,
                cast_outcomes(caster, *ability, affected@, now, rolls, affected@.len() as int),
            ),
{
    let ghost a = *ability;
    let ghost k = rolls_per_target(a);
    let mut rolls: Vec<u32> = Vec::new();
    let mut i: usize = 0;
    while i < affected.len()
        invariant
            i <= affected@.len(),
            a == *ability,
            k == rolls_per_target(a),
            affected@.len() > 0 ==> ranges_nonempty(a),
            affected@.len() * k <= usize::MAX,
            rolls@.len() == i * k,
            forall|ii: int, jj: int|
                0 <= ii < i && 0 <= jj < a.effects@.len() && is_rolled(a.effects@[jj]) ==> roll_floor(
                    a.effects@[jj],
                ) <= #[trigger] rolls@[roll_index(a, ii, jj)] < roll_ceiling(a.effects@[jj]),
        decreases affected.len() - i,
    {
        let mut j: usize = 0;
        let ghost start = rolls@.len();
        proof {
            assert((i + 1) * k == i * k + k) by (nonlinear_arith);
            assert((i + 1) * k <= affected@.len() * k) by (nonlinear_arith)
                requires
                    i + 1 <= affected@.len(),
            ;
        }
        while j < ability.effects.len()
            invariant
                i < affected@.len(),
                j <= a.effects@.len(),
                a == *ability,
                k == rolls_per_target(a),
                ranges_nonempty(a),
                start == i * k,
                start + k <= usize::MAX,
                rolls@.len() == start + rolls_before(a.effects@, j as int),
                forall|ii: int, jj: int|
                    0 <= ii < i && 0 <= jj < a.effects@.len() && is_rolled(a.effects@[jj])
                        ==> roll_floor(a.effects@[jj]) <= #[trigger] rolls@[roll_index(a, ii, jj)]
                        < roll_ceiling(a.effects@[jj]),
                forall|jj: int|
                    0 <= jj < j && is_rolled(a.effects@[jj]) ==> roll_floor(a.effects@[jj])
                        <= #[trigger] rolls@[roll_index(a, i as int, jj)] < roll_ceiling(
                        a.effects@[jj],
                    ),
            decreases ability.effects.len() - j,
        {
            proof {
                lemma_rolls_before_mono(a.effects@, j as int + 1, a.effects@.len() as int);
            }
            let ghost before = rolls@;
            let (rolled, low, high) = match &ability.effects[j] {
                AbilityEffect::Heal { floor, ceiling, .. } => (true, *floor, *ceiling),
                AbilityEffect::Damage { floor, ceiling, .. } => (true, *floor, *ceiling),
                AbilityEffect::DrainMorale { floor, ceiling, .. } => (true, *floor, *ceiling),
                _ => (false, 0u32, 0u32),
            };
            if rolled {
                assert(is_rolled(a.effects@[j as int]));
                let v = roll_in_range(low, high);
                rolls.push(v);
            }
            proof {
                assert forall|ii: int, jj: int|
                    0 <= ii < i && 0 <= jj < a.effects@.len() && is_rolled(a.effects@[jj])
                        implies roll_floor(a.effects@[jj]) <= #[trigger] rolls@[roll_index(a, ii, jj)]
                        < roll_ceiling(a.effects@[jj]) by {
                    lemma_rolls_before_mono(a.effects@, jj + 1, a.effects@.len() as int);
                    assert(ii * k + k <= i * k) by (nonlinear_arith)
                        requires
                            ii < i,
                    ;
                    assert(before[roll_index(a, ii, jj)] == rolls@[roll_index(a, ii, jj)]);
                }
                assert forall|jj: int|
                    0 <= jj < j + 1 && is_rolled(a.effects@[jj]) implies roll_floor(a.effects@[jj])
                        <= #[trigger] rolls@[roll_index(a, i as int, jj)] < roll_ceiling(
                        a.effects@[jj],
                    ) by {
                    if jj < j {
                        lemma_rolls_before_mono(a.effects@, jj + 1, j as int);
                        assert(before[roll_index(a, i as int, jj)] == rolls@[roll_index(
                            a,
                            i as int,
                            jj,
                        )]);
                    }
                }
            }
            j = j + 1;
        }
        i = i + 1;
    }
    let r = ability_outcomes(caster, ability, affected, now, &rolls);
    assert(rolls_fit(a, affected@.len() as int, rolls@));
    r
}

} // verus!
