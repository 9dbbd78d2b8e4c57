//! Turning a chosen action into its effects: the status gates, paying action
//! points and magic, casting, and whether the turn is over.

use vstd::prelude::*;
use crate::ability::{
    cast_outcomes, handle_ability, ranges_nonempty, rolls_fit, rolls_per_target, same_outcomes, Ability,
    AbilityOutcome, EntityId, Stat,
};
use crate::hud::{ActionGates, PlayerAction};
use crate::stats::{can_pay, non_negative, CombatStats, StatPool};

verus! {

/// `stats` after paying `ability`'s action points and `scaled` hundredths
/// of its school's magic.
pub open spec fn paid_for(stats: CombatStats, ability: Ability, scaled: i32) -> CombatStats {
    let ap = stats.action_points;
    let p = stats.spec_pool(ability.magic_school);
    CombatStats {
        action_points: StatPool {
            current: (ap.current - non_negative(ability.action_point_cost as int)) as i32,
            ..ap
        },
        ..stats
    }.with_pool(ability.magic_school, StatPool { current: (p.current - non_negative(scaled as int)) as i32, ..p })
}

/// Whether `stats` can pay `ability`'s action points and `scaled`
/// hundredths of its school's magic.
pub open spec fn affordable(stats: CombatStats, ability: Ability, scaled: i32) -> bool {
    &&& can_pay(stats.action_points.current, ability.action_point_cost)
    &&& can_pay(stats.spec_pool(ability.magic_school).current, scaled)
}

/// Pay for casting `ability` when both its action points and `scaled_cost`
/// hundredths of its school's magic can be paid; otherwise pay nothing.
pub fn pay_for_ability(stats: &mut CombatStats, ability: &Ability, scaled_cost: i32) -> (paid: bool)
    ensures
        paid == affordable(*old(stats), *ability, scaled_cost),
        paid ==> *final(stats) == paid_for(*old(stats), *ability, scaled_cost),
        !paid ==> *final(stats) == *old(stats),
{
    if !stats.action_points.can_spend(ability.action_point_cost) {
        return false;
    }
    if !stats.pool(ability.magic_school).can_spend(scaled_cost) {
        return false;
    }
    stats.action_points.spend(ability.action_point_cost);
    let p = stats.pool_mut(ability.magic_school);
    p.spend(scaled_cost);
    true
}

/// What casting `a` from `caster` on the single `target` at `now` asks for,
/// for some rolls that each lie in their effect's range.
pub open spec fn cast_result(outcomes: Seq<AbilityOutcome>, caster: EntityId, a: Ability, target: EntityId, now: u32) -> bool {
    exists|rolls: Seq<u32>|
        rolls_fit(a, 1, rolls) && #[trigger] same_outcomes(outcomes, cast_outcomes(caster, a, seq![target], now, rolls, 1))
}

/// Why an action was not carried out.
#[derive(Clone, Copy, Debug, PartialEq, Eq, Structural)]
pub enum ActionRejection {
    /// A status forbids it (terrified, or silenced for items and magic).
    Blocked,
    /// The acting combatant has no stats.
    NoStats,
    /// The ability is not in the ability tree.
    UnknownAbility,
    NotEnoughActionPoints,
    NotEnoughMagic,
}

/// What an action came to.
#[derive(Clone, Debug)]
pub enum ActionResolution {
    Rejected(ActionRejection),
    /// An attack intent on the target, its action points paid.
    Attack(EntityId),
    /// A cast, paid for, with what it asks the rest of combat to do.
    Cast { ability_id: u32, target: EntityId, outcomes: Vec<AbilityOutcome> },
    /// An intent to use an item, its action points paid.
    UseItem { item_id: u16, target: Option<EntityId> },
    Defend,
    Wait,
}

/// One action of the player, resolved: what it came to, whether it settles
/// this turn's choice (else the next queued action is tried), and whether
/// the turn ends.
#[derive(Clone, Debug)]
pub struct PlayerActionStep {
    pub resolution: ActionResolution,
    pub settled: bool,
    pub end_turn: bool,
}

/// The turn ends when forced, when the actor has no stats, or when it has
/// no action points left.
pub open spec fn turn_over(force: bool, stats: Option<CombatStats>) -> bool {
    force || match stats {
        Some(s) => s.action_points.current <= 0,
        None => true,
    }
}

/// Whether the turn ends after an action: when forced (defend, wait), when
/// the actor has no stats, or when its action points are spent.
pub fn finish_turn_if_needed(force_end: bool, stats: &Option<CombatStats>) -> (r: bool)
    ensures
        r == turn_over(force_end, *stats),
{
    force_end || match stats {
        Some(s) => s.action_points.current <= 0,
        None => true,
    }
}

/// `stats` after paying `cost` action points.
pub open spec fn paid_ap(stats: CombatStats, cost: i32) -> CombatStats {
    CombatStats {
        action_points: StatPool {
            current: (stats.action_points.current - non_negative(cost as int)) as i32,
            ..stats.action_points
        },
        ..stats
    }
}

/// A rejection that leaves the stats alone and lets the next action be
/// tried.
pub open spec fn rejected(step: PlayerActionStep, why: ActionRejection) -> bool {
    &&& step.resolution matches ActionResolution::Rejected(w) && w == why
    &&& !step.settled
    &&& !step.end_turn
}

/// Carry out the player's `action` for `actor`. `gates` are what the actor's
/// statuses forbid; `ability` is what the ability tree holds under the
/// action's ability id (`None` without a tree); `scaled_cost` is that
/// ability's magic cost in hundredths after the actor's cost multipliers;
/// `attack_cost` and `item_cost` are the action points of a basic attack
/// and of using an item. An attack, an ability or an item is refused when a
/// status forbids it or it cannot be paid; an attack by an actor without
/// stats settles the choice without ending the turn; defend and wait end the
/// turn; anything carried out ends it when the action points run out.
pub fn resolve_player_action(
    actor: EntityId,
    action: PlayerAction,
    gates: ActionGates,
    stats: &mut Option<CombatStats>,
    ability: Option<&Ability>,
    scaled_cost: i32,
    attack_cost: i32,
    item_cost: i32,
    now: u32,
) -> (r: PlayerActionStep)
    requires
        ability matches Some(a) ==> ranges_nonempty(*a) && rolls_per_target(*a) <= usize::MAX,
    ensures
        match action {
            PlayerAction::Attack(t) => if gates.block_attacks {
                rejected(r, ActionRejection::Blocked) && *final(stats) == *old(stats)
            } else {
                match *old(stats) {
                    None => r.resolution matches ActionResolution::Rejected(ActionRejection::NoStats) && r.settled
                        && !r.end_turn && *final(stats) == *old(stats),
                    Some(s) => if !can_pay(s.action_points.current, attack_cost) {
                        rejected(r, ActionRejection::NotEnoughActionPoints) && *final(stats) == *old(stats)
                    } else {
                        &&& *final(stats) == Some(paid_ap(s, attack_cost))
                        &&& r.resolution matches ActionResolution::Attack(x) && x == t
                        &&& r.settled
                        &&& r.end_turn == turn_over(false, *final(stats))
                    },
                }
            },
            PlayerAction::UseAbility(id, t) => if gates.block_attacks {
                rejected(r, ActionRejection::Blocked) && *final(stats) == *old(stats)
            } else {
                match ability {
                    None => rejected(r, ActionRejection::UnknownAbility) && *final(stats) == *old(stats),
                    Some(a) => if gates.block_magic_abilities && a.magic_cost > 0 {
                        rejected(r, ActionRejection::Blocked) && *final(stats) == *old(stats)
                    } else {
                        match *old(stats) {
                            None => rejected(r, ActionRejection::NoStats) && *final(stats) == *old(stats),
                            Some(s) => if !can_pay(s.action_points.current, a.action_point_cost) {
                                rejected(r, ActionRejection::NotEnoughActionPoints) && *final(stats) == *old(stats)
                            } else if !can_pay(s.spec_pool(a.magic_school).current, scaled_cost) {
                                rejected(r, ActionRejection::NotEnoughMagic) && *final(stats) == *old(stats)
                            } else {
                                &&& *final(stats) == Some(paid_for(s, *a, scaled_cost))
                                &&& r.resolution matches ActionResolution::Cast { ability_id, target, outcomes }
                                    && ability_id == id && target == t && cast_result(outcomes@, actor, *a, t, now)
                                &&& r.settled
                                &&& r.end_turn == turn_over(false, *final(stats))
                            },
                        }
                    },
                }
            },
            PlayerAction::UseItem(item_id, target) => if gates.block_items || gates.block_attacks {
                rejected(r, ActionRejection::Blocked) && *final(stats) == *old(stats)
            } else {
                match *old(stats) {
                    None => rejected(r, ActionRejection::NoStats) && *final(stats) == *old(stats),
                    Some(s) => if !can_pay(s.action_points.current, item_cost) {
                        rejected(r, ActionRejection::NotEnoughActionPoints) && *final(stats) == *old(stats)
                    } else {
                        &&& *final(stats) == Some(paid_ap(s, item_cost))
                        &&& r.resolution matches ActionResolution::UseItem { item_id: i, target: x } && i == item_id
                            && x == target
                        &&& r.settled
                        &&& r.end_turn == turn_over(false, *final(stats))
                    },
                }
            },
            PlayerAction::Defend => r.resolution matches ActionResolution::Defend && r.settled && r.end_turn
                && *final(stats) == *old(stats),
            PlayerAction::Wait => r.resolution matches ActionResolution::Wait && r.settled && r.end_turn
                && *final(stats) == *old(stats),
        },
{
    let no = |why: ActionRejection| -> (step: PlayerActionStep)
        ensures
            rejected(step, why),
    { PlayerActionStep { resolution: ActionResolution::Rejected(why), settled: false, end_turn: false } };
    match action {
        PlayerAction::Attack(t) => {
            if gates.block_attacks {
                return no(ActionRejection::Blocked);
            }
            match *stats {
                None => {
                    return PlayerActionStep {
                        resolution: ActionResolution::Rejected(ActionRejection::NoStats),
                        settled: true,
                        end_turn: false,
                    };
                },
                Some(mut s) => {
                    if !s.action_points.spend(attack_cost) {
                        return no(ActionRejection::NotEnoughActionPoints);
                    }
                    let end_turn = s.action_points.current <= 0;
                    *stats = Some(s);
                    PlayerActionStep { resolution: ActionResolution::Attack(t), settled: true, end_turn }
                },
            }
        },
        PlayerAction::UseAbility(id, t) => {
            if gates.block_attacks {
                return no(ActionRejection::Blocked);
            }
            let a = match ability {
                None => {
                    return no(ActionRejection::UnknownAbility);
                },
                Some(a) => a,
            };
            if gates.block_magic_abilities && a.magic_cost > 0 {
                return no(ActionRejection::Blocked);
            }
            match *stats {
                None => no(ActionRejection::NoStats),
                Some(mut s) => {
                    if !s.action_points.can_spend(a.action_point_cost) {
                        return no(ActionRejection::NotEnoughActionPoints);
                    }
                    if !s.pool(a.magic_school).can_spend(scaled_cost) {
                        return no(ActionRejection::NotEnoughMagic);
                    }
                    pay_for_ability(&mut s, a, scaled_cost);
                    let end_turn = s.action_points.current <= 0;
                    *stats = Some(s);
                    let targets = vec![t];
                    proof {
                        assert(targets@ =~= seq![t]);
                    }
                    let outcomes = handle_ability(actor, a, &targets, now);
                    proof {
                        let rolls = choose|rolls: Seq<u32>|
                            rolls_fit(*a, targets@.len() as int, rolls) && #[trigger] same_outcomes(
                                outcomes@,
                                cast_outcomes(actor, *a, targets@, now, rolls, targets@.len() as int),
                            );
                        assert(rolls_fit(*a, 1, rolls) && same_outcomes(outcomes@, cast_outcomes(actor, *a, seq![t], now, rolls, 1)));
                        assert(cast_result(outcomes@, actor, *a, t, now));
                    }
                    PlayerActionStep {
                        resolution: ActionResolution::Cast { ability_id: id, target: t, outcomes },
                        settled: true,
                        end_turn,
                    }
                },
            }
        },
        PlayerAction::UseItem(item_id, target) => {
            if gates.block_items || gates.block_attacks {
                return no(ActionRejection::Blocked);
            }
            match *stats {
                None => no(ActionRejection::NoStats),
                Some(mut s) => {
                    if !s.action_points.spend(item_cost) {
                        return no(ActionRejection::NotEnoughActionPoints);
                    }
                    let end_turn = s.action_points.current <= 0;
                    *stats = Some(s);
                    PlayerActionStep { resolution: ActionResolution::UseItem { item_id, target }, settled: true, end_turn }
                },
            }
        },
        PlayerAction::Defend => PlayerActionStep { resolution: ActionResolution::Defend, settled: true, end_turn: true },
        PlayerAction::Wait => PlayerActionStep { resolution: ActionResolution::Wait, settled: true, end_turn: true },
    }
}

/// Carry out an ability the AI chose: like the player's cast, but refused
/// silently (`None`) when the ability is unknown, a status forbids it, the
/// caster has no stats, or it cannot be paid.
pub fn resolve_ai_ability(
    caster: EntityId,
    target: EntityId,
    gates: ActionGates,
    stats: &mut Option<CombatStats>,
    ability: Option<&Ability>,
    scaled_cost: i32,
    now: u32,
) -> (r: Option<Vec<AbilityOutcome>>)
    requires
        ability matches Some(a) ==> ranges_nonempty(*a) && rolls_per_target(*a) <= usize::MAX,
    ensures
        match ability {
            Some(a) => match *old(stats) {
                Some(s) => if !gates.block_attacks && !(gates.block_magic_abilities && a.magic_cost > 0)
                    && affordable(s, *a, scaled_cost) {
                    &&& *final(stats) == Some(paid_for(s, *a, scaled_cost))
                    &&& r matches Some(outcomes) && cast_result(outcomes@, caster, *a, target, now)
                } else {
                    r is None && *final(stats) == *old(stats)
                },
                None => r is None && *final(stats) == *old(stats),
            },
            None => r is None && *final(stats) == *old(stats),
        },
{
    let a = match ability {
        None => {
            return None;
        },
        Some(a) => a,
    };
    if gates.block_attacks {
        return None;
    }
    if gates.block_magic_abilities && a.magic_cost > 0 {
        return None;
    }
    match *stats {
        None => {
            return None;
        },
        Some(mut s) => {
            if !pay_for_ability(&mut s, a, scaled_cost) {
                return None;
            }
            *stats = Some(s);
            let targets = vec![target];
            proof {
                assert(targets@ =~= seq![target]);
            }
            let out = handle_ability(caster, a, &targets, now);
            proof {
                let rolls = choose|rolls: Seq<u32>|
                    rolls_fit(*a, targets@.len() as int, rolls) && #[trigger] same_outcomes(
                        out@,
                        cast_outcomes(caster, *a, targets@, now, rolls, targets@.len() as int),
                    );
                assert(rolls_fit(*a, 1, rolls) && same_outcomes(out@, cast_outcomes(caster, *a, seq![target], now, rolls, 1)));
                assert(cast_result(out@, caster, *a, target, now));
            }
            return Some(out);
        },
    }
}

/// A whole number from hundredths, rounded half away from zero.
pub open spec fn rounded_hundredths(c: int) -> int {
    if c >= 0 { (c + 50) / 100 } else { -((-c + 50) / 100) }
}

fn round_hundredths(c: i64) -> (r: i32)
    requires
        -9_000_000_000 <= c <= 9_000_000_000,
    ensures
        r == rounded_hundredths(c as int),
{
    if c >= 0 {
        ((c + 50) / 100) as i32
    } else {
        -(((-c + 50) / 100) as i32)
    }
}

/// The current value of `stat` for a combatant: the pool's current value;
/// magic (total or per school) rounded to whole points; zero without stats.
pub open spec fn stat_value(stat: Stat, stats: Option<CombatStats>) -> int {
    match stats {
        None => 0,
        Some(c) => match stat {
            Stat::Lethality => c.lethality.current as int,
            Stat::Hit => c.hit.current as int,
            Stat::Speed => c.speed.current as int,
            Stat::Evasion => c.evasion.current as int,
            Stat::Armor => c.armor.current as int,
            Stat::Mind => c.mind.current as int,
            Stat::Morale => c.morale.current as int,
            Stat::Health => c.health.current as int,
            Stat::ActionPoints => c.action_points.current as int,
            Stat::Movement => c.movement.current as int,
            Stat::Magic => rounded_hundredths(
                c.kiho.current + c.onmyodo.current + c.yokaijutsu.current + c.kamishin.current,
            ),
            Stat::Kiho => rounded_hundredths(c.kiho.current as int),
            Stat::Onmyodo => rounded_hundredths(c.onmyodo.current as int),
            Stat::Yokaijutsu => rounded_hundredths(c.yokaijutsu.current as int),
            Stat::Kamishin => rounded_hundredths(c.kamishin.current as int),
        },
    }
}

/// The current value of `stat` for a combatant (see `stat_value`).
pub fn get_stat_value(stat: Stat, stats: Option<&CombatStats>) -> (r: i32)
    ensures
        r == stat_value(stat, match stats { Some(c) => Some(*c), None => None }),
{
    let c = match stats {
        None => {
            return 0;
        },
        Some(c) => c,
    };
    match stat {
        Stat::Lethality => c.lethality.current,
        Stat::Hit => c.hit.current,
        Stat::Speed => c.speed.current,
        Stat::Evasion => c.evasion.current,
        Stat::Armor => c.armor.current,
        Stat::Mind => c.mind.current,
        Stat::Morale => c.morale.current,
        Stat::Health => c.health.current,
        Stat::ActionPoints => c.action_points.current,
        Stat::Movement => c.movement.current,
        Stat::Magic => round_hundredths(c.total_magic_current()),
        Stat::Kiho => round_hundredths(c.kiho.current as i64),
        Stat::Onmyodo => round_hundredths(c.onmyodo.current as i64),
        Stat::Yokaijutsu => round_hundredths(c.yokaijutsu.current as i64),
        Stat::Kamishin => round_hundredths(c.kamishin.current as i64),
    }
}

} // verus!
