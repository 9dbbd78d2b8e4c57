//! Behaviour-tree combat AI: a tree of composites, decorators, conditions
//! and actions, walked for the acting combatant to pick what it does.
//!
//! Random nodes draw from `rand`; each draw is appended to a log, and the
//! contract of [`tick`] states the walk's outcome as a function of the tree,
//! the context and the drawn numbers.

use vstd::prelude::*;
use crate::ability::{Ability, AbilityEffect, EntityId};
use crate::ability_tree::AbilityTree;
use crate::dice::roll_in_range;
use crate::position::Position;
use crate::stats::CombatStats;

verus! {

/// Which side of a battle a combatant fights on.
#[derive(Clone, Copy, Debug, PartialEq, Eq, Structural)]
pub enum BattleSide {
    Ally,
    Enemy,
}

/// Which target the AI prefers among living enemies.
#[derive(Clone, Copy, Debug, PartialEq, Eq, Structural)]
pub enum TargetFocus {
    LowestHp,
    HighestHp,
    Closest,
    Furthest,
}

/// The range an AI prefers when picking abilities.
#[derive(Clone, Copy, Debug, PartialEq, Eq, Structural)]
pub enum PreferredRange {
    Any,
    Melee,
    Ranged,
}

/// An AI's temperament. The 0..=10 scales and the panic threshold (an HP
/// percentage) feed the tree's conditions.
#[derive(Clone, Copy, Debug, PartialEq, Eq, Structural)]
pub struct AIParameters {
    pub aggressiveness: u8,
    pub caution: u8,
    pub curiosity: u8,
    pub perception: u8,
    pub bravery: u8,
    pub patience: u8,
    pub panic_threshold: u8,
    pub magic_thrift: u8,
    pub group_loyalty: u8,
    pub focus_preference: TargetFocus,
    pub preferred_range: PreferredRange,
}

impl Default for AIParameters {
    /// A balanced temperament: every scale at 5, panic at 25% HP, focus on
    /// the lowest-HP enemy, any range.
    fn default() -> (r: Self)
        ensures
            r == (AIParameters {
                aggressiveness: 5,
                caution: 5,
                curiosity: 5,
                perception: 5,
                bravery: 5,
                patience: 5,
                panic_threshold: 25,
                magic_thrift: 5,
                group_loyalty: 5,
                focus_preference: TargetFocus::LowestHp,
                preferred_range: PreferredRange::Any,
            }),
    {
        AIParameters {
            aggressiveness: 5,
            caution: 5,
            curiosity: 5,
            perception: 5,
            bravery: 5,
            patience: 5,
            panic_threshold: 25,
            magic_thrift: 5,
            group_loyalty: 5,
            focus_preference: TargetFocus::LowestHp,
            preferred_range: PreferredRange::Any,
        }
    }
}

/// The outcome of ticking a node.
#[derive(Clone, Copy, Debug, PartialEq, Eq, Structural)]
pub enum BtStatus {
    Success,
    Failure,
}

/// A node of a behaviour tree.
#[derive(Debug)]
pub enum BtNode {
    /// Tick children in order; succeed on the first success.
    Selector(Vec<BtNode>),
    /// Tick children in order; fail on the first failure.
    Sequence(Vec<BtNode>),
    /// Pick one child with probability proportional to its weight, tick it.
    Random(Vec<(u32, BtNode)>),
    Inverter(Box<BtNode>),
    AlwaysSucceed(Box<BtNode>),
    HpBelow { percent: u8 },
    HpAbove { percent: u8 },
    /// Some living ally has HP below `percent`.
    AllyHpBelow { percent: u8 },
    /// Total magic is below `percent` of its ceiling.
    MagicBelow { percent: u8 },
    ActionPointsAtLeast { amount: i32 },
    AggressivenessAtLeast { value: u8 },
    BraveryAtLeast { value: u8 },
    CautionAtLeast { value: u8 },
    /// HP at or below the panic threshold.
    InPanic,
    EnemiesAlive { at_least: u8 },
    AlliesAlive { at_least: u8 },
    HasAbility { id: u16 },
    /// Succeed with the given probability (percent, capped at 100).
    Chance { percent: u8 },
    BasicAttack,
    UseAbility { id: u16 },
    /// The first owned ability whose effects are all heals, on the weakest ally
    /// (or on the actor itself when it has no allies).
    UseFirstHealingAbility,
    /// The owned damaging ability with the highest expected damage that the
    /// actor's action points pay for.
    UseHighestDamageAbility,
    Defend,
    Wait,
}

/// What the AI decided to do.
#[derive(Clone, Copy, Debug, PartialEq, Eq, Structural)]
pub enum AiAction {
    Attack { target: EntityId },
    Ability { ability_id: u16, target: EntityId },
    Defend,
    Wait,
}

/// What the AI knows of a combatant.
#[derive(Clone, Debug)]
pub struct ActorSnapshot {
    pub entity: EntityId,
    pub side: BattleSide,
    pub hp_percent: u8,
    pub magic_percent: u8,
    pub action_points: i32,
    pub abilities: Vec<u16>,
    pub params: AIParameters,
    pub position: Position,
}

/// The state a tree is ticked in: the actor, its living allies and enemies,
/// the ability catalogue, and the decision recorded so far.
pub struct BtContext<'a> {
    pub actor: ActorSnapshot,
    pub allies: Vec<ActorSnapshot>,
    pub enemies: Vec<ActorSnapshot>,
    pub ability_tree: Option<&'a AbilityTree>,
    pub decision: Option<AiAction>,
}

/// What a tick reads of its context.
pub struct BtView {
    pub actor: ActorSnapshot,
    pub allies: Seq<ActorSnapshot>,
    pub enemies: Seq<ActorSnapshot>,
    pub tree: Option<Map<u16, Ability>>,
}

/// The outcome of ticking: status, the decision afterwards, and the position
/// in the sequence of drawn numbers after the node's draws.
pub struct TickResult {
    pub status: BtStatus,
    pub decision: Option<AiAction>,
    pub pos: int,
}

impl<'a> BtContext<'a> {
    /// What a tick reads of this context.
    pub open spec fn view(&self) -> BtView {
        BtView {
            actor: self.actor,
            allies: self.allies@,
            enemies: self.enemies@,
            tree: match self.ability_tree {
                Some(t) => Some(t.view()),
                None => None,
            },
        }
    }

    /// The ability catalogue, if any, is a well-formed tree.
    pub open spec fn tree_ok(&self) -> bool {
        match self.ability_tree {
            Some(t) => t.well_formed(),
            None => true,
        }
    }
}

/// Squared distance between two positions.
pub open spec fn dist2(a: Position, b: Position) -> int {
    (a.x - b.x) * (a.x - b.x) + (a.y - b.y) * (a.y - b.y)
}

/// Index of the first entry with the least key among the first `n`.
pub open spec fn first_min_index(s: Seq<ActorSnapshot>, key: spec_fn(ActorSnapshot) -> int, n: int) -> int
    decreases n,
{
    if n <= 1 {
        0
    } else {
        let b = first_min_index(s, key, n - 1);
        if key(s[n - 1]) < key(s[b]) {
            n - 1
        } else {
            b
        }
    }
}

/// Index of the last entry with the greatest key among the first `n`.
pub open spec fn last_max_index(s: Seq<ActorSnapshot>, key: spec_fn(ActorSnapshot) -> int, n: int) -> int
    decreases n,
{
    if n <= 1 {
        0
    } else {
        let b = last_max_index(s, key, n - 1);
        if key(s[n - 1]) >= key(s[b]) {
            n - 1
        } else {
            b
        }
    }
}

/// HP as a sort key.
pub open spec fn hp_key() -> spec_fn(ActorSnapshot) -> int {
    |s: ActorSnapshot| s.hp_percent as int
}

/// Distance from `origin` as a sort key.
pub open spec fn dist_key(origin: Position) -> spec_fn(ActorSnapshot) -> int {
    |s: ActorSnapshot| dist2(origin, s.position)
}

/// The index of the enemy the focus picks: lowest HP (first of equals),
/// highest HP (last of equals), closest (first of equals), furthest (last of
/// equals); none when there is no enemy.
pub open spec fn focus_index(v: BtView, focus: TargetFocus) -> Option<int> {
    let e = v.enemies;
    if e.len() == 0 {
        None
    } else {
        Some(
            match focus {
                TargetFocus::LowestHp => first_min_index(e, hp_key(), e.len() as int),
                TargetFocus::HighestHp => last_max_index(e, hp_key(), e.len() as int),
                TargetFocus::Closest => first_min_index(e, dist_key(v.actor.position), e.len() as int),
                TargetFocus::Furthest => last_max_index(e, dist_key(v.actor.position), e.len() as int),
            },
        )
    }
}

/// The entity the actor's focus preference picks among the enemies.
pub open spec fn focus_target(v: BtView) -> Option<EntityId> {
    match focus_index(v, v.actor.params.focus_preference) {
        Some(i) => Some(v.enemies[i].entity),
        None => None,
    }
}

/// The weakest ally (first of equals), or the actor itself without allies.
pub open spec fn heal_target(v: BtView) -> EntityId {
    if v.allies.len() == 0 {
        v.actor.entity
    } else {
        v.allies[first_min_index(v.allies, hp_key(), v.allies.len() as int)].entity
    }
}

/// An ability whose effects are all heals (and which has at least one).
pub open spec fn is_pure_heal(a: Ability) -> bool {
    a.effects@.len() > 0 && forall|k: int| 0 <= k < a.effects@.len() ==> (#[trigger] a.effects@[k]) is Heal
}

/// The middle of a damage effect's range; zero for other effects.
pub open spec fn damage_mid(e: AbilityEffect) -> int {
    match e {
        AbilityEffect::Damage { floor, ceiling, .. } => (floor + ceiling) / 2,
        _ => 0,
    }
}

/// Expected damage of the first `n` effects, summed, saturating at
/// `u64::MAX`.
pub open spec fn expected_damage_upto(effects: Seq<AbilityEffect>, n: int) -> int
    decreases n,
{
    if n <= 0 {
        0
    } else {
        let s = expected_damage_upto(effects, n - 1) + damage_mid(effects[n - 1]);
        if s > u64::MAX { u64::MAX as int } else { s }
    }
}

/// Expected damage of an ability: the middles of its damage ranges, summed
/// (saturating at `u64::MAX`).
pub open spec fn spec_expected_damage(a: Ability) -> int {
    expected_damage_upto(a.effects@, a.effects@.len() as int)
}

/// The first owned id, among the first `n`, naming a catalogued pure-heal
/// ability.
pub open spec fn first_heal_upto(owned: Seq<u16>, tree: Map<u16, Ability>, n: int) -> Option<u16>
    decreases n,
{
    if n <= 0 {
        None
    } else {
        match first_heal_upto(owned, tree, n - 1) {
            Some(id) => Some(id),
            None => if tree.contains_key(owned[n - 1]) && is_pure_heal(tree[owned[n - 1]]) {
                Some(owned[n - 1])
            } else {
                None
            },
        }
    }
}

/// Whether an ability is a candidate for the highest-damage pick: affordable
/// with `ap` and of positive expected damage.
pub open spec fn damage_candidate(a: Ability, ap: i32) -> bool {
    a.action_point_cost <= ap && spec_expected_damage(a) > 0
}

/// The best `(id, damage)` among the first `n` owned ids: the first to reach
/// the highest expected damage among catalogued candidates.
pub open spec fn best_damage_upto(owned: Seq<u16>, tree: Map<u16, Ability>, ap: i32, n: int) -> Option<
    (u16, int),
>
    decreases n,
{
    if n <= 0 {
        None
    } else {
        let prev = best_damage_upto(owned, tree, ap, n - 1);
        let id = owned[n - 1];
        if tree.contains_key(id) && damage_candidate(tree[id], ap) {
            let d = spec_expected_damage(tree[id]);
            match prev {
                Some(p) => if d > p.1 {
                    Some((id, d))
                } else {
                    prev
                },
                None => Some((id, d)),
            }
        } else {
            prev
        }
    }
}

/// Sum of the weights of a random node's children.
pub open spec fn weight_sum(w: Seq<(u32, BtNode)>) -> int
    decreases w.len(),
{
    if w.len() == 0 {
        0
    } else {
        weight_sum(w.drop_last()) + w.last().0
    }
}

/// `Success` when `b`, else `Failure`.
pub open spec fn status_of(b: bool) -> BtStatus {
    if b { BtStatus::Success } else { BtStatus::Failure }
}

/// A result that leaves decision and draws as they were.
pub open spec fn plain(status: BtStatus, d: Option<AiAction>, pos: int) -> TickResult {
    TickResult { status, decision: d, pos }
}

/// A result that records `action` when there is one and fails otherwise.
pub open spec fn act(action: Option<AiAction>, d: Option<AiAction>, pos: int) -> TickResult {
    match action {
        Some(a) => TickResult { status: BtStatus::Success, decision: Some(a), pos },
        None => TickResult { status: BtStatus::Failure, decision: d, pos },
    }
}

/// Ticking `node` in `v` with decision `d`, reading drawn numbers from
/// `rolls` at `pos` onward.
pub open spec fn spec_tick(node: BtNode, v: BtView, d: Option<AiAction>, rolls: Seq<u32>, pos: int) -> TickResult
    decreases node,
{
    match node {
        BtNode::Selector(children) => spec_selector(children@, v, d, rolls, pos),
        BtNode::Sequence(children) => spec_sequence(children@, v, d, rolls, pos),
        BtNode::Random(weighted) => if weight_sum(weighted@) == 0 || weighted@.len() == 0 {
            plain(BtStatus::Failure, d, pos)
        } else {
            spec_pick(weighted@, v, d, rolls, pos + 1, rolls[pos] as int)
        },
        BtNode::Inverter(child) => {
            let r = spec_tick(*child, v, d, rolls, pos);
            TickResult {
                status: if r.status is Success { BtStatus::Failure } else { BtStatus::Success },
                ..r
            }
        },
        BtNode::AlwaysSucceed(child) => {
            let r = spec_tick(*child, v, d, rolls, pos);
            TickResult { status: BtStatus::Success, ..r }
        },
        BtNode::HpBelow { percent } => plain(status_of(v.actor.hp_percent < percent), d, pos),
        BtNode::HpAbove { percent } => plain(status_of(v.actor.hp_percent > percent), d, pos),
        BtNode::AllyHpBelow { percent } => plain(
            status_of(exists|k: int| 0 <= k < v.allies.len() && (#[trigger] v.allies[k]).hp_percent < percent),
            d,
            pos,
        ),
        BtNode::MagicBelow { percent } => plain(status_of(v.actor.magic_percent < percent), d, pos),
        BtNode::ActionPointsAtLeast { amount } => plain(status_of(v.actor.action_points >= amount), d, pos),
        BtNode::AggressivenessAtLeast { value } => plain(
            status_of(v.actor.params.aggressiveness >= value),
            d,
            pos,
        ),
        BtNode::BraveryAtLeast { value } => plain(status_of(v.actor.params.bravery >= value), d, pos),
        BtNode::CautionAtLeast { value } => plain(status_of(v.actor.params.caution >= value), d, pos),
        BtNode::InPanic => plain(
            status_of(v.actor.hp_percent <= v.actor.params.panic_threshold),
            d,
            pos,
        ),
        BtNode::EnemiesAlive { at_least } => plain(status_of(v.enemies.len() as u8 >= at_least), d, pos),
        BtNode::AlliesAlive { at_least } => plain(status_of(v.allies.len() as u8 >= at_least), d, pos),
        BtNode::HasAbility { id } => plain(status_of(v.actor.abilities@.contains(id)), d, pos),
        BtNode::Chance { percent } => plain(
            status_of((rolls[pos] as int) < (if percent < 100 { percent as int } else { 100 })),
            d,
            pos + 1,
        ),
        BtNode::BasicAttack => act(
            match focus_target(v) {
                Some(t) => Some(AiAction::Attack { target: t }),
                None => None,
            },
            d,
            pos,
        ),
        BtNode::UseAbility { id } => act(
            if !v.actor.abilities@.contains(id) {
                None
            } else {
                match focus_target(v) {
                    Some(t) => Some(AiAction::Ability { ability_id: id, target: t }),
                    None => None,
                }
            },
            d,
            pos,
        ),
        BtNode::UseFirstHealingAbility => act(
            match v.tree {
                None => None,
                Some(t) => match first_heal_upto(v.actor.abilities@, t, v.actor.abilities@.len() as int) {
                    Some(id) => Some(AiAction::Ability { ability_id: id, target: heal_target(v) }),
                    None => None,
                },
            },
            d,
            pos,
        ),
        BtNode::UseHighestDamageAbility => act(
            match v.tree {
                None => None,
                Some(t) => match best_damage_upto(
                    v.actor.abilities@,
                    t,
                    v.actor.action_points,
                    v.actor.abilities@.len() as int,
                ) {
                    Some(b) => match focus_target(v) {
                        Some(target) => Some(AiAction::Ability { ability_id: b.0, target }),
                        None => None,
                    },
                    None => None,
                },
            },
            d,
            pos,
        ),
        BtNode::Defend => plain(BtStatus::Success, Some(AiAction::Defend), pos),
        BtNode::Wait => plain(BtStatus::Success, Some(AiAction::Wait), pos),
    }
}

/// Ticking the children of a selector in order.
pub open spec fn spec_selector(s: Seq<BtNode>, v: BtView, d: Option<AiAction>, rolls: Seq<u32>, pos: int) -> TickResult
    decreases s,
{
    if s.len() == 0 {
        plain(BtStatus::Failure, d, pos)
    } else {
        let r = spec_tick(s[0], v, d, rolls, pos);
        if r.status is Success {
            r
        } else {
            spec_selector(s.drop_first(), v, r.decision, rolls, r.pos)
        }
    }
}

/// Ticking the children of a sequence in order.
pub open spec fn spec_sequence(s: Seq<BtNode>, v: BtView, d: Option<AiAction>, rolls: Seq<u32>, pos: int) -> TickResult
    decreases s,
{
    if s.len() == 0 {
        plain(BtStatus::Success, d, pos)
    } else {
        let r = spec_tick(s[0], v, d, rolls, pos);
        if r.status is Failure {
            r
        } else {
            spec_sequence(s.drop_first(), v, r.decision, rolls, r.pos)
        }
    }
}

/// Ticking the child of a random node that the number `roll` falls on.
pub open spec fn spec_pick(
    w: Seq<(u32, BtNode)>,
    v: BtView,
    d: Option<AiAction>,
    rolls: Seq<u32>,
    pos: int,
    roll: int,
) -> TickResult
    decreases w,
{
    if w.len() == 0 {
        plain(BtStatus::Failure, d, pos)
    } else if roll < w[0].0 {
        spec_tick(w[0].1, v, d, rolls, pos)
    } else {
        spec_pick(w.drop_first(), v, d, rolls, pos, roll - w[0].0)
    }
}

/// Every random node of the tree has weights summing within `u32`.
pub open spec fn weights_fit(node: BtNode) -> bool
    decreases node,
{
    match node {
        BtNode::Selector(children) => all_weights_fit(children@),
        BtNode::Sequence(children) => all_weights_fit(children@),
        BtNode::Random(weighted) => weight_sum(weighted@) <= u32::MAX && weighted_fit(weighted@),
        BtNode::Inverter(child) => weights_fit(*child),
        BtNode::AlwaysSucceed(child) => weights_fit(*child),
        _ => true,
    }
}

/// `weights_fit` of every node in a list.
pub open spec fn all_weights_fit(s: Seq<BtNode>) -> bool
    decreases s,
{
    s.len() == 0 || (weights_fit(s[0]) && all_weights_fit(s.drop_first()))
}

/// `weights_fit` of every child of a random node.
pub open spec fn weighted_fit(w: Seq<(u32, BtNode)>) -> bool
    decreases w,
{
    w.len() == 0 || (weights_fit(w[0].1) && weighted_fit(w.drop_first()))
}

/// The number of nodes in a tree.
pub open spec fn bt_size(node: BtNode) -> nat
    decreases node,
{
    match node {
        BtNode::Selector(children) => 1 + sizes(children@),
        BtNode::Sequence(children) => 1 + sizes(children@),
        BtNode::Random(weighted) => 1 + weighted_sizes(weighted@),
        BtNode::Inverter(child) => 1 + bt_size(*child),
        BtNode::AlwaysSucceed(child) => 1 + bt_size(*child),
        _ => 1,
    }
}

/// The number of nodes in a list of trees.
pub open spec fn sizes(s: Seq<BtNode>) -> nat
    decreases s,
{
    if s.len() == 0 {
        0
    } else {
        bt_size(s[0]) + sizes(s.drop_first())
    }
}

/// The number of nodes in the children of a random node.
pub open spec fn weighted_sizes(w: Seq<(u32, BtNode)>) -> nat
    decreases w,
{
    if w.len() == 0 {
        0
    } else {
        bt_size(w[0].1) + weighted_sizes(w.drop_first())
    }
}

proof fn lemma_size_index(s: Seq<BtNode>, i: int)
    requires
        0 <= i < s.len(),
    ensures
        bt_size(s[i]) <= sizes(s),
    decreases i,
{
    if i > 0 {
        lemma_size_index(s.drop_first(), i - 1);
        assert(s.drop_first()[i - 1] == s[i]);
    }
}

proof fn lemma_wsize_index(w: Seq<(u32, BtNode)>, i: int)
    requires
        0 <= i < w.len(),
    ensures
        bt_size(w[i].1) <= weighted_sizes(w),
    decreases i,
{
    if i > 0 {
        lemma_wsize_index(w.drop_first(), i - 1);
        assert(w.drop_first()[i - 1] == w[i]);
    }
}

/// `r` begins with `l`.
pub open spec fn extends(r: Seq<u32>, l: Seq<u32>) -> bool {
    l.len() <= r.len() && forall|k: int| 0 <= k < l.len() ==> #[trigger] r[k] == l[k]
}


proof fn lemma_tick_mono(node: BtNode, v: BtView, d: Option<AiAction>, rolls: Seq<u32>, pos: int)
    ensures
        spec_tick(node, v, d, rolls, pos).pos >= pos,
    decreases node,
{
    match node {
        BtNode::Selector(children) => lemma_selector_mono(children@, v, d, rolls, pos),
        BtNode::Sequence(children) => lemma_sequence_mono(children@, v, d, rolls, pos),
        BtNode::Random(weighted) => {
            if !(weight_sum(weighted@) == 0 || weighted@.len() == 0) {
                lemma_pick_mono(weighted@, v, d, rolls, pos + 1, rolls[pos] as int);
            }
        },
        BtNode::Inverter(child) => lemma_tick_mono(*child, v, d, rolls, pos),
        BtNode::AlwaysSucceed(child) => lemma_tick_mono(*child, v, d, rolls, pos),
        _ => {},
    }
}

proof fn lemma_selector_mono(s: Seq<BtNode>, v: BtView, d: Option<AiAction>, rolls: Seq<u32>, pos: int)
    ensures
        spec_selector(s, v, d, rolls, pos).pos >= pos,
    decreases s,
{
    if s.len() > 0 {
        lemma_tick_mono(s[0], v, d, rolls, pos);
        let r = spec_tick(s[0], v, d, rolls, pos);
        if !(r.status is Success) {
            lemma_selector_mono(s.drop_first(), v, r.decision, rolls, r.pos);
        }
    }
}

proof fn lemma_sequence_mono(s: Seq<BtNode>, v: BtView, d: Option<AiAction>, rolls: Seq<u32>, pos: int)
    ensures
        spec_sequence(s, v, d, rolls, pos).pos >= pos,
    decreases s,
{
    if s.len() > 0 {
        lemma_tick_mono(s[0], v, d, rolls, pos);
        let r = spec_tick(s[0], v, d, rolls, pos);
        if !(r.status is Failure) {
            lemma_sequence_mono(s.drop_first(), v, r.decision, rolls, r.pos);
        }
    }
}

proof fn lemma_pick_mono(
    w: Seq<(u32, BtNode)>,
    v: BtView,
    d: Option<AiAction>,
    rolls: Seq<u32>,
    pos: int,
    roll: int,
)
    ensures
        spec_pick(w, v, d, rolls, pos, roll).pos >= pos,
    decreases w,
{
    if w.len() > 0 {
        if roll < w[0].0 {
            lemma_tick_mono(w[0].1, v, d, rolls, pos);
        } else {
            lemma_pick_mono(w.drop_first(), v, d, rolls, pos, roll - w[0].0);
        }
    }
}

proof fn lemma_tick_ext(node: BtNode, v: BtView, d: Option<AiAction>, l: Seq<u32>, r: Seq<u32>, pos: int)
    requires
        0 <= pos,
        extends(r, l),
        spec_tick(node, v, d, l, pos).pos <= l.len(),
    ensures
        spec_tick(node, v, d, r, pos) == spec_tick(node, v, d, l, pos),
    decreases node,
{
    match node {
        BtNode::Selector(children) => lemma_selector_ext(children@, v, d, l, r, pos),
        BtNode::Sequence(children) => lemma_sequence_ext(children@, v, d, l, r, pos),
        BtNode::Random(weighted) => {
            if !(weight_sum(weighted@) == 0 || weighted@.len() == 0) {
                lemma_pick_mono(weighted@, v, d, l, pos + 1, l[pos] as int);
                assert(r[pos] == l[pos]);
                lemma_pick_ext(weighted@, v, d, l, r, pos + 1, l[pos] as int);
            }
        },
        BtNode::Inverter(child) => lemma_tick_ext(*child, v, d, l, r, pos),
        BtNode::AlwaysSucceed(child) => lemma_tick_ext(*child, v, d, l, r, pos),
        BtNode::Chance { .. } => {
            assert(r[pos] == l[pos]);
        },
        _ => {},
    }
}

proof fn lemma_selector_ext(
    s: Seq<BtNode>,
    v: BtView,
    d: Option<AiAction>,
    l: Seq<u32>,
    r: Seq<u32>,
    pos: int,
)
    requires
        0 <= pos,
        extends(r, l),
        spec_selector(s, v, d, l, pos).pos <= l.len(),
    ensures
        spec_selector(s, v, d, r, pos) == spec_selector(s, v, d, l, pos),
    decreases s,
{
    if s.len() > 0 {
        let x = spec_tick(s[0], v, d, l, pos);
        lemma_tick_mono(s[0], v, d, l, pos);
        if !(x.status is Success) {
            lemma_selector_mono(s.drop_first(), v, x.decision, l, x.pos);
        }
        lemma_tick_ext(s[0], v, d, l, r, pos);
        if !(x.status is Success) {
            lemma_selector_ext(s.drop_first(), v, x.decision, l, r, x.pos);
        }
    }
}

proof fn lemma_sequence_ext(
    s: Seq<BtNode>,
    v: BtView,
    d: Option<AiAction>,
    l: Seq<u32>,
    r: Seq<u32>,
    pos: int,
)
    requires
        0 <= pos,
        extends(r, l),
        spec_sequence(s, v, d, l, pos).pos <= l.len(),
    ensures
        spec_sequence(s, v, d, r, pos) == spec_sequence(s, v, d, l, pos),
    decreases s,
{
    if s.len() > 0 {
        let x = spec_tick(s[0], v, d, l, pos);
        lemma_tick_mono(s[0], v, d, l, pos);
        if !(x.status is Failure) {
            lemma_sequence_mono(s.drop_first(), v, x.decision, l, x.pos);
        }
        lemma_tick_ext(s[0], v, d, l, r, pos);
        if !(x.status is Failure) {
            lemma_sequence_ext(s.drop_first(), v, x.decision, l, r, x.pos);
        }
    }
}

proof fn lemma_pick_ext(
    w: Seq<(u32, BtNode)>,
    v: BtView,
    d: Option<AiAction>,
    l: Seq<u32>,
    r: Seq<u32>,
    pos: int,
    roll: int,
)
    requires
        0 <= pos,
        extends(r, l),
        spec_pick(w, v, d, l, pos, roll).pos <= l.len(),
    ensures
        spec_pick(w, v, d, r, pos, roll) == spec_pick(w, v, d, l, pos, roll),
    decreases w,
{
    if w.len() > 0 {
        if roll < w[0].0 {
            lemma_tick_ext(w[0].1, v, d, l, r, pos);
        } else {
            lemma_pick_ext(w.drop_first(), v, d, l, r, pos, roll - w[0].0);
        }
    }
}

/// Whether the numbers a tick of `node` reads from `rolls` (from `pos` on)
/// each lie in the range of the node that drew them: a chance node's below
/// 100, a random node's below the sum of its weights.
pub open spec fn draws_in_range(node: BtNode, v: BtView, d: Option<AiAction>, rolls: Seq<u32>, pos: int) -> bool
    decreases node,
{
    match node {
        BtNode::Selector(children) => selector_draws_in_range(children@, v, d, rolls, pos),
        BtNode::Sequence(children) => sequence_draws_in_range(children@, v, d, rolls, pos),
        BtNode::Random(weighted) => if weight_sum(weighted@) == 0 || weighted@.len() == 0 {
            true
        } else {
            (rolls[pos] as int) < weight_sum(weighted@) && pick_draws_in_range(
                weighted@,
                v,
                d,
                rolls,
                pos + 1,
                rolls[pos] as int,
            )
        },
        BtNode::Inverter(child) => draws_in_range(*child, v, d, rolls, pos),
        BtNode::AlwaysSucceed(child) => draws_in_range(*child, v, d, rolls, pos),
        BtNode::Chance { .. } => rolls[pos] < 100,
        _ => true,
    }
}

/// `draws_in_range` for the children a selector ticks.
pub open spec fn selector_draws_in_range(s: Seq<BtNode>, v: BtView, d: Option<AiAction>, rolls: Seq<u32>, pos: int) -> bool
    decreases s,
{
    if s.len() == 0 {
        true
    } else {
        let r = spec_tick(s[0], v, d, rolls, pos);
        draws_in_range(s[0], v, d, rolls, pos) && (r.status is Success || selector_draws_in_range(
            s.drop_first(),
            v,
            r.decision,
            rolls,
            r.pos,
        ))
    }
}

/// `draws_in_range` for the children a sequence ticks.
pub open spec fn sequence_draws_in_range(s: Seq<BtNode>, v: BtView, d: Option<AiAction>, rolls: Seq<u32>, pos: int) -> bool
    decreases s,
{
    if s.len() == 0 {
        true
    } else {
        let r = spec_tick(s[0], v, d, rolls, pos);
        draws_in_range(s[0], v, d, rolls, pos) && (r.status is Failure || sequence_draws_in_range(
            s.drop_first(),
            v,
            r.decision,
            rolls,
            r.pos,
        ))
    }
}

/// `draws_in_range` for the child a random node picks with `roll`.
pub open spec fn pick_draws_in_range(
    w: Seq<(u32, BtNode)>,
    v: BtView,
    d: Option<AiAction>,
    rolls: Seq<u32>,
    pos: int,
    roll: int,
) -> bool
    decreases w,
{
    if w.len() == 0 {
        true
    } else if roll < w[0].0 {
        draws_in_range(w[0].1, v, d, rolls, pos)
    } else {
        pick_draws_in_range(w.drop_first(), v, d, rolls, pos, roll - w[0].0)
    }
}

proof fn lemma_range_ext(node: BtNode, v: BtView, d: Option<AiAction>, l: Seq<u32>, r: Seq<u32>, pos: int)
    requires
        0 <= pos,
        extends(r, l),
        spec_tick(node, v, d, l, pos).pos <= l.len(),
    ensures
        draws_in_range(node, v, d, r, pos) == draws_in_range(node, v, d, l, pos),
    decreases node,
{
    match node {
        BtNode::Selector(children) => lemma_selector_range_ext(children@, v, d, l, r, pos),
        BtNode::Sequence(children) => lemma_sequence_range_ext(children@, v, d, l, r, pos),
        BtNode::Random(weighted) => {
            if !(weight_sum(weighted@) == 0 || weighted@.len() == 0) {
                lemma_pick_mono(weighted@, v, d, l, pos + 1, l[pos] as int);
                assert(r[pos] == l[pos]);
                lemma_pick_range_ext(weighted@, v, d, l, r, pos + 1, l[pos] as int);
            }
        },
        BtNode::Inverter(child) => lemma_range_ext(*child, v, d, l, r, pos),
        BtNode::AlwaysSucceed(child) => lemma_range_ext(*child, v, d, l, r, pos),
        BtNode::Chance { .. } => {
            assert(r[pos] == l[pos]);
        },
        _ => {},
    }
}

proof fn lemma_selector_range_ext(
    s: Seq<BtNode>,
    v: BtView,
    d: Option<AiAction>,
    l: Seq<u32>,
    r: Seq<u32>,
    pos: int,
)
    requires
        0 <= pos,
        extends(r, l),
        spec_selector(s, v, d, l, pos).pos <= l.len(),
    ensures
        selector_draws_in_range(s, v, d, r, pos) == selector_draws_in_range(s, v, d, l, pos),
    decreases s,
{
    if s.len() > 0 {
        let x = spec_tick(s[0], v, d, l, pos);
        lemma_tick_mono(s[0], v, d, l, pos);
        if !(x.status is Success) {
            lemma_selector_mono(s.drop_first(), v, x.decision, l, x.pos);
        }
        lemma_tick_ext(s[0], v, d, l, r, pos);
        lemma_range_ext(s[0], v, d, l, r, pos);
        if !(x.status is Success) {
            lemma_selector_range_ext(s.drop_first(), v, x.decision, l, r, x.pos);
        }
    }
}

proof fn lemma_sequence_range_ext(
    s: Seq<BtNode>,
    v: BtView,
    d: Option<AiAction>,
    l: Seq<u32>,
    r: Seq<u32>,
    pos: int,
)
    requires
        0 <= pos,
        extends(r, l),
        spec_sequence(s, v, d, l, pos).pos <= l.len(),
    ensures
        sequence_draws_in_range(s, v, d, r, pos) == sequence_draws_in_range(s, v, d, l, pos),
    decreases s,
{
    if s.len() > 0 {
        let x = spec_tick(s[0], v, d, l, pos);
        lemma_tick_mono(s[0], v, d, l, pos);
        if !(x.status is Failure) {
            lemma_sequence_mono(s.drop_first(), v, x.decision, l, x.pos);
        }
        lemma_tick_ext(s[0], v, d, l, r, pos);
        lemma_range_ext(s[0], v, d, l, r, pos);
        if !(x.status is Failure) {
            lemma_sequence_range_ext(s.drop_first(), v, x.decision, l, r, x.pos);
        }
    }
}

proof fn lemma_pick_range_ext(
    w: Seq<(u32, BtNode)>,
    v: BtView,
    d: Option<AiAction>,
    l: Seq<u32>,
    r: Seq<u32>,
    pos: int,
    roll: int,
)
    requires
        0 <= pos,
        extends(r, l),
        spec_pick(w, v, d, l, pos, roll).pos <= l.len(),
    ensures
        pick_draws_in_range(w, v, d, r, pos, roll) == pick_draws_in_range(w, v, d, l, pos, roll),
    decreases w,
{
    if w.len() > 0 {
        if roll < w[0].0 {
            lemma_range_ext(w[0].1, v, d, l, r, pos);
        } else {
            lemma_pick_range_ext(w.drop_first(), v, d, l, r, pos, roll - w[0].0);
        }
    }
}

proof fn lemma_all_fit_index(s: Seq<BtNode>, i: int)
    requires
        all_weights_fit(s),
        0 <= i < s.len(),
    ensures
        weights_fit(s[i]),
    decreases i,
{
    if i > 0 {
        lemma_all_fit_index(s.drop_first(), i - 1);
        assert(s.drop_first()[i - 1] == s[i]);
    }
}

proof fn lemma_weighted_fit_index(w: Seq<(u32, BtNode)>, i: int)
    requires
        weighted_fit(w),
        0 <= i < w.len(),
    ensures
        weights_fit(w[i].1),
    decreases i,
{
    if i > 0 {
        lemma_weighted_fit_index(w.drop_first(), i - 1);
        assert(w.drop_first()[i - 1] == w[i]);
    }
}

proof fn lemma_weight_sum_prefix(w: Seq<(u32, BtNode)>, i: int, j: int)
    requires
        0 <= i <= j <= w.len(),
    ensures
        weight_sum(w.take(i)) <= weight_sum(w.take(j)),
    decreases j - i,
{
    if i < j {
        lemma_weight_sum_prefix(w, i, j - 1);
        assert(w.take(j).drop_last() =~= w.take(j - 1));
    }
}

fn bool_to_status(b: bool) -> (r: BtStatus)
    ensures
        r == status_of(b),
{
    if b {
        BtStatus::Success
    } else {
        BtStatus::Failure
    }
}

fn dist2_exec(a: Position, b: Position) -> (r: i128)
    ensures
        r == dist2(a, b),
{
    let dx: i128 = a.x as i128 - b.x as i128;
    let dy: i128 = a.y as i128 - b.y as i128;
    assert(dx * dx <= 0x1_0000_0000_0000_0000) by (nonlinear_arith)
        requires
            -0x1_0000_0000 <= dx <= 0x1_0000_0000,
    ;
    assert(dy * dy <= 0x1_0000_0000_0000_0000) by (nonlinear_arith)
        requires
            -0x1_0000_0000 <= dy <= 0x1_0000_0000,
    ;
    assert(dx * dx >= 0 && dy * dy >= 0) by (nonlinear_arith);
    dx * dx + dy * dy
}

fn first_min_hp(s: &Vec<ActorSnapshot>) -> (r: usize)
    requires
        s@.len() > 0,
    ensures
        r == first_min_index(s@, hp_key(), s@.len() as int),
        r < s@.len(),
{
    let mut best: usize = 0;
    let mut i: usize = 1;
    while i < s.len()
        invariant
            1 <= i <= s@.len(),
            best < i,
            best == first_min_index(s@, hp_key(), i as int),
        decreases s.len() - i,
    {
        if s[i].hp_percent < s[best].hp_percent {
            best = i;
        }
        i = i + 1;
    }
    best
}

fn last_max_hp(s: &Vec<ActorSnapshot>) -> (r: usize)
    requires
        s@.len() > 0,
    ensures
        r == last_max_index(s@, hp_key(), s@.len() as int),
        r < s@.len(),
{
    let mut best: usize = 0;
    let mut i: usize = 1;
    while i < s.len()
        invariant
            1 <= i <= s@.len(),
            best < i,
            best == last_max_index(s@, hp_key(), i as int),
        decreases s.len() - i,
    {
        if s[i].hp_percent >= s[best].hp_percent {
            best = i;
        }
        i = i + 1;
    }
    best
}

fn first_min_dist(s: &Vec<ActorSnapshot>, origin: Position) -> (r: usize)
    requires
        s@.len() > 0,
    ensures
        r == first_min_index(s@, dist_key(origin), s@.len() as int),
        r < s@.len(),
{
    let mut best: usize = 0;
    let mut best_d: i128 = dist2_exec(origin, s[0].position);
    let mut i: usize = 1;
    while i < s.len()
        invariant
            1 <= i <= s@.len(),
            best < i,
            best == first_min_index(s@, dist_key(origin), i as int),
            best_d == dist2(origin, s@[best as int].position),
        decreases s.len() - i,
    {
        let d = dist2_exec(origin, s[i].position);
        if d < best_d {
            best = i;
            best_d = d;
        }
        i = i + 1;
    }
    best
}

fn last_max_dist(s: &Vec<ActorSnapshot>, origin: Position) -> (r: usize)
    requires
        s@.len() > 0,
    ensures
        r == last_max_index(s@, dist_key(origin), s@.len() as int),
        r < s@.len(),
{
    let mut best: usize = 0;
    let mut best_d: i128 = dist2_exec(origin, s[0].position);
    let mut i: usize = 1;
    while i < s.len()
        invariant
            1 <= i <= s@.len(),
            best < i,
            best == last_max_index(s@, dist_key(origin), i as int),
            best_d == dist2(origin, s@[best as int].position),
        decreases s.len() - i,
    {
        let d = dist2_exec(origin, s[i].position);
        if d >= best_d {
            best = i;
            best_d = d;
        }
        i = i + 1;
    }
    best
}

fn owns(abilities: &Vec<u16>, id: u16) -> (r: bool)
    ensures
        r == abilities@.contains(id),
{
    let mut i: usize = 0;
    while i < abilities.len()
        invariant
            i <= abilities@.len(),
            forall|k: int| 0 <= k < i ==> abilities@[k] != id,
        decreases abilities.len() - i,
    {
        if abilities[i] == id {
            assert(abilities@[i as int] == id);
            return true;
        }
        i = i + 1;
    }
    false
}

/// Expected damage of an ability: the middle of each damage effect's range,
/// summed (in `u64`, saturating).
pub fn expected_damage(ability: &Ability) -> (r: u64)
    ensures
        r == spec_expected_damage(*ability),
{
    let mut total: u64 = 0;
    let mut i: usize = 0;
    while i < ability.effects.len()
        invariant
            i <= ability.effects@.len(),
            total == expected_damage_upto(ability.effects@, i as int),
        decreases ability.effects.len() - i,
    {
        let mid: u64 = match &ability.effects[i] {
            AbilityEffect::Damage { floor, ceiling, .. } => (*floor as u64 + *ceiling as u64) / 2,
            _ => 0,
        };
        total = total.saturating_add(mid);
        i = i + 1;
    }
    total
}

fn is_pure_heal_exec(ability: &Ability) -> (r: bool)
    ensures
        r == is_pure_heal(*ability),
{
    if ability.effects.len() == 0 {
        return false;
    }
    let mut i: usize = 0;
    while i < ability.effects.len()
        invariant
            i <= ability.effects@.len(),
            forall|k: int| 0 <= k < i ==> (#[trigger] ability.effects@[k]) is Heal,
        decreases ability.effects.len() - i,
    {
        match &ability.effects[i] {
            AbilityEffect::Heal { .. } => {},
            _ => {
                return false;
            },
        }
        i = i + 1;
    }
    true
}

impl<'a> BtContext<'a> {
    /// The enemy that `focus` picks: lowest HP (first of equals), highest HP
    /// (last of equals), closest (first of equals) or furthest (last of
    /// equals); none when there are no enemies.
    pub fn target_for_focus(&self, focus: TargetFocus) -> (r: Option<&ActorSnapshot>)
        ensures
            r == (match focus_index(self.view(), focus) {
                Some(i) => Some(&self.enemies@[i]),
                None => None,
            }),
            r is Some ==> self.enemies@.len() > 0,
    {
        if self.enemies.len() == 0 {
            return None;
        }
        let i = match focus {
            TargetFocus::LowestHp => first_min_hp(&self.enemies),
            TargetFocus::HighestHp => last_max_hp(&self.enemies),
            TargetFocus::Closest => first_min_dist(&self.enemies, self.actor.position),
            TargetFocus::Furthest => last_max_dist(&self.enemies, self.actor.position),
        };
        Some(&self.enemies[i])
    }

    /// The ally with the lowest HP (first of equals), if any.
    pub fn weakest_ally(&self) -> (r: Option<&ActorSnapshot>)
        ensures
            r == (if self.allies@.len() == 0 {
                None
            } else {
                Some(&self.allies@[first_min_index(self.allies@, hp_key(), self.allies@.len() as int)])
            }),
    {
        if self.allies.len() == 0 {
            return None;
        }
        let i = first_min_hp(&self.allies);
        Some(&self.allies[i])
    }
}

/// Tick `node` for the actor of `ctx`: composites and decorators walk their
/// children, conditions test the context, actions record a decision.
/// Random and chance nodes draw numbers with `rand` and append each one to
/// `draws`. The status, the decision left in `ctx` and the draws are those
/// `spec_tick` gives for the tree, the context and the numbers drawn, and
/// each number drawn lies in the range of the node that drew it (below 100
/// for a chance node, below the sum of its weights for a random node); only
/// the decision of `ctx` changes.
#[verifier::spinoff_prover]
#[verifier::rlimit(80)]
pub fn tick(node: &BtNode, ctx: &mut BtContext, draws: &mut Vec<u32>) -> (r: BtStatus)
    requires
        weights_fit(*node),
        old(ctx).tree_ok(),
    ensures
        final(ctx).view() == old(ctx).view(),
        final(ctx).ability_tree == old(ctx).ability_tree,
        extends(final(draws)@, old(draws)@),
        spec_tick(*node, old(ctx).view(), old(ctx).decision, final(draws)@, old(draws)@.len() as int)
            == (TickResult {
            status: r,
            decision: final(ctx).decision,
            pos: final(draws)@.len() as int,
        }),
        draws_in_range(*node, old(ctx).view(), old(ctx).decision, final(draws)@, old(draws)@.len() as int),
    decreases bt_size(*node),
{
    let ghost v0 = ctx.view();
    let ghost d0 = ctx.decision;
    let ghost l0 = draws@;
    let ghost p0 = draws@.len() as int;
    match node {
        BtNode::Selector(children) => {
            let mut i: usize = 0;
            assert(children@.skip(0) =~= children@);
            while i < children.len()
                invariant
                    i <= children@.len(),
                    all_weights_fit(children@),
                    *node == BtNode::Selector(*children),
                    sizes(children@) < bt_size(*node),
                    ctx.view() == v0,
                    v0 == old(ctx).view(),
                    d0 == old(ctx).decision,
                    l0 == old(draws)@,
                    ctx.ability_tree == old(ctx).ability_tree,
                    ctx.tree_ok(),
                    extends(draws@, l0),
                    p0 == l0.len(),
                    forall|rr: Seq<u32>|
                        extends(rr, draws@) ==> #[trigger] spec_selector(children@, v0, d0, rr, p0)
                            == spec_selector(
                            children@.skip(i as int),
                            v0,
                            ctx.decision,
                            rr,
                            draws@.len() as int,
                        ),
                    forall|rr: Seq<u32>|
                        extends(rr, draws@) ==> #[trigger] selector_draws_in_range(children@, v0, d0, rr, p0)
                            == selector_draws_in_range(
                            children@.skip(i as int),
                            v0,
                            ctx.decision,
                            rr,
                            draws@.len() as int,
                        ),
                decreases children.len() - i,
            {
                proof {
                    lemma_all_fit_index(children@, i as int);
                }
                let ghost di = ctx.decision;
                let ghost li = draws@;
                proof {
                    lemma_size_index(children@, i as int);
                }
                let st = tick(&children[i], ctx, draws);
                proof {
                    let c = children@[i as int];
                    assert(children@.skip(i as int)[0] == c);
                    assert(children@.skip(i as int).drop_first() =~= children@.skip(i as int + 1));
                    assert forall|rr: Seq<u32>| extends(rr, draws@) implies #[trigger] spec_selector(
                        children@,
                        v0,
                        d0,
                        rr,
                        p0,
                    ) == spec_selector(
                        children@.skip(i as int),
                        v0,
                        di,
                        rr,
                        li.len() as int,
                    ) && spec_tick(c, v0, di, rr, li.len() as int) == spec_tick(
                        c,
                        v0,
                        di,
                        draws@,
                        li.len() as int,
                    ) by {
                        assert(extends(rr, li));
                        lemma_tick_ext(c, v0, di, draws@, rr, li.len() as int);
                    }
                    assert forall|rr: Seq<u32>| extends(rr, draws@) implies #[trigger] selector_draws_in_range(
                        children@,
                        v0,
                        d0,
                        rr,
                        p0,
                    ) == selector_draws_in_range(
                        children@.skip(i as int),
                        v0,
                        di,
                        rr,
                        li.len() as int,
                    ) && draws_in_range(c, v0, di, rr, li.len() as int) && spec_tick(c, v0, di, rr, li.len() as int)
                        == spec_tick(c, v0, di, draws@, li.len() as int) by {
                        assert(extends(rr, li));
                        lemma_tick_ext(c, v0, di, draws@, rr, li.len() as int);
                        lemma_range_ext(c, v0, di, draws@, rr, li.len() as int);
                    }
                }
                if st == BtStatus::Success {
                    proof {
                        let c = children@[i as int];
                        assert(extends(draws@, draws@));
                        assert(spec_selector(children@, v0, d0, draws@, p0) == spec_selector(
                            children@.skip(i as int),
                            v0,
                            di,
                            draws@,
                            li.len() as int,
                        ));
                        assert(spec_tick(c, v0, di, draws@, li.len() as int).status is Success);
                        assert(spec_selector(children@.skip(i as int), v0, di, draws@, li.len() as int)
                            == spec_tick(c, v0, di, draws@, li.len() as int));
                        assert(spec_tick(*node, v0, d0, draws@, p0) == spec_selector(children@, v0, d0, draws@, p0));
                        assert(selector_draws_in_range(children@, v0, d0, draws@, p0) == selector_draws_in_range(
                            children@.skip(i as int),
                            v0,
                            di,
                            draws@,
                            li.len() as int,
                        ));
                        assert(draws_in_range(c, v0, di, draws@, li.len() as int));
                        assert(selector_draws_in_range(children@.skip(i as int), v0, di, draws@, li.len() as int));
                        assert(draws_in_range(*node, v0, d0, draws@, p0));
                    }
                    return BtStatus::Success;
                }
                i = i + 1;
            }
            proof {
                assert(children@.skip(i as int) =~= Seq::<BtNode>::empty());
                assert(extends(draws@, draws@));
                assert(spec_selector(children@, v0, d0, draws@, p0) == spec_selector(
                    children@.skip(i as int),
                    v0,
                    ctx.decision,
                    draws@,
                    draws@.len() as int,
                ));
                assert(spec_tick(*node, v0, d0, draws@, p0) == spec_selector(children@, v0, d0, draws@, p0));
                assert(selector_draws_in_range(children@, v0, d0, draws@, p0) == selector_draws_in_range(
                    children@.skip(i as int),
                    v0,
                    ctx.decision,
                    draws@,
                    draws@.len() as int,
                ));
                assert(draws_in_range(*node, v0, d0, draws@, p0));
            }
            BtStatus::Failure
        },
        BtNode::Sequence(children) => {
            let mut i: usize = 0;
            assert(children@.skip(0) =~= children@);
            while i < children.len()
                invariant
                    i <= children@.len(),
                    all_weights_fit(children@),
                    *node == BtNode::Sequence(*children),
                    sizes(children@) < bt_size(*node),
                    ctx.view() == v0,
                    v0 == old(ctx).view(),
                    d0 == old(ctx).decision,
                    l0 == old(draws)@,
                    ctx.ability_tree == old(ctx).ability_tree,
                    ctx.tree_ok(),
                    extends(draws@, l0),
                    p0 == l0.len(),
                    forall|rr: Seq<u32>|
                        extends(rr, draws@) ==> #[trigger] spec_sequence(children@, v0, d0, rr, p0)
                            == spec_sequence(
                            children@.skip(i as int),
                            v0,
                            ctx.decision,
                            rr,
                            draws@.len() as int,
                        ),
                    forall|rr: Seq<u32>|
                        extends(rr, draws@) ==> #[trigger] sequence_draws_in_range(children@, v0, d0, rr, p0)
                            == sequence_draws_in_range(
                            children@.skip(i as int),
                            v0,
                            ctx.decision,
                            rr,
                            draws@.len() as int,
                        ),
                decreases children.len() - i,
            {
                proof {
                    lemma_all_fit_index(children@, i as int);
                }
                let ghost di = ctx.decision;
                let ghost li = draws@;
                proof {
                    lemma_size_index(children@, i as int);
                }
                let st = tick(&children[i], ctx, draws);
                proof {
                    let c = children@[i as int];
                    assert(children@.skip(i as int)[0] == c);
                    assert(children@.skip(i as int).drop_first() =~= children@.skip(i as int + 1));
                    assert forall|rr: Seq<u32>| extends(rr, draws@) implies #[trigger] spec_sequence(
                        children@,
                        v0,
                        d0,
                        rr,
                        p0,
                    ) == spec_sequence(
                        children@.skip(i as int),
                        v0,
                        di,
                        rr,
                        li.len() as int,
                    ) && spec_tick(c, v0, di, rr, li.len() as int) == spec_tick(
                        c,
                        v0,
                        di,
                        draws@,
                        li.len() as int,
                    ) by {
                        assert(extends(rr, li));
                        lemma_tick_ext(c, v0, di, draws@, rr, li.len() as int);
                    }
                    assert forall|rr: Seq<u32>| extends(rr, draws@) implies #[trigger] sequence_draws_in_range(
                        children@,
                        v0,
                        d0,
                        rr,
                        p0,
                    ) == sequence_draws_in_range(
                        children@.skip(i as int),
                        v0,
                        di,
                        rr,
                        li.len() as int,
                    ) && draws_in_range(c, v0, di, rr, li.len() as int) && spec_tick(c, v0, di, rr, li.len() as int)
                        == spec_tick(c, v0, di, draws@, li.len() as int) by {
                        assert(extends(rr, li));
                        lemma_tick_ext(c, v0, di, draws@, rr, li.len() as int);
                        lemma_range_ext(c, v0, di, draws@, rr, li.len() as int);
                    }
                }
                if st == BtStatus::Failure {
                    proof {
                        let c = children@[i as int];
                        assert(extends(draws@, draws@));
                        assert(spec_sequence(children@, v0, d0, draws@, p0) == spec_sequence(
                            children@.skip(i as int),
                            v0,
                            di,
                            draws@,
                            li.len() as int,
                        ));
                        assert(spec_tick(c, v0, di, draws@, li.len() as int).status is Failure);
                        assert(spec_sequence(children@.skip(i as int), v0, di, draws@, li.len() as int)
                            == spec_tick(c, v0, di, draws@, li.len() as int));
                        assert(spec_tick(*node, v0, d0, draws@, p0) == spec_sequence(children@, v0, d0, draws@, p0));
                        assert(sequence_draws_in_range(children@, v0, d0, draws@, p0) == sequence_draws_in_range(
                            children@.skip(i as int),
                            v0,
                            di,
                            draws@,
                            li.len() as int,
                        ));
                        assert(draws_in_range(c, v0, di, draws@, li.len() as int));
                        assert(sequence_draws_in_range(children@.skip(i as int), v0, di, draws@, li.len() as int));
                        assert(draws_in_range(*node, v0, d0, draws@, p0));
                    }
                    return BtStatus::Failure;
                }
                i = i + 1;
            }
            proof {
                assert(children@.skip(i as int) =~= Seq::<BtNode>::empty());
                assert(extends(draws@, draws@));
                assert(spec_sequence(children@, v0, d0, draws@, p0) == spec_sequence(
                    children@.skip(i as int),
                    v0,
                    ctx.decision,
                    draws@,
                    draws@.len() as int,
                ));
                assert(spec_tick(*node, v0, d0, draws@, p0) == spec_sequence(children@, v0, d0, draws@, p0));
                assert(sequence_draws_in_range(children@, v0, d0, draws@, p0) == sequence_draws_in_range(
                    children@.skip(i as int),
                    v0,
                    ctx.decision,
                    draws@,
                    draws@.len() as int,
                ));
                assert(draws_in_range(*node, v0, d0, draws@, p0));
            }
            BtStatus::Success
        },
        BtNode::Random(weighted) => {
            let mut total: u32 = 0;
            let mut i: usize = 0;
            while i < weighted.len()
                invariant
                    i <= weighted@.len(),
                    weight_sum(weighted@) <= u32::MAX,
                    total == weight_sum(weighted@.take(i as int)),
                decreases weighted.len() - i,
            {
                proof {
                    lemma_weight_sum_prefix(weighted@, i as int + 1, weighted@.len() as int);
                    assert(weighted@.take(weighted@.len() as int) =~= weighted@);
                    assert(weighted@.take(i as int + 1).drop_last() =~= weighted@.take(i as int));
                }
                total = total + weighted[i].0;
                i = i + 1;
            }
            assert(weighted@.take(weighted@.len() as int) =~= weighted@);
            if total == 0 || weighted.len() == 0 {
                assert(extends(draws@, draws@));
                return BtStatus::Failure;
            }
            let first_roll = roll_in_range(0, total);
            draws.push(first_roll);
            let mut roll: u32 = first_roll;
            let mut j: usize = 0;
            assert(weighted@.skip(0) =~= weighted@);
            while j < weighted.len()
                invariant
                    j <= weighted@.len(),
                    weighted_fit(weighted@),
                    *node == BtNode::Random(*weighted),
                    weighted_sizes(weighted@) < bt_size(*node),
                    weight_sum(weighted@) != 0,
                    weighted@.len() != 0,
                    ctx.view() == v0,
                    ctx.decision == d0,
                    v0 == old(ctx).view(),
                    d0 == old(ctx).decision,
                    l0 == old(draws)@,
                    ctx.ability_tree == old(ctx).ability_tree,
                    ctx.tree_ok(),
                    draws@ == l0.push(first_roll),
                    p0 == l0.len(),
                    forall|rr: Seq<u32>|
                        #[trigger] spec_pick(weighted@, v0, d0, rr, p0 + 1, first_roll as int)
                            == spec_pick(weighted@.skip(j as int), v0, d0, rr, p0 + 1, roll as int),
                    forall|rr: Seq<u32>|
                        #[trigger] pick_draws_in_range(weighted@, v0, d0, rr, p0 + 1, first_roll as int)
                            == pick_draws_in_range(weighted@.skip(j as int), v0, d0, rr, p0 + 1, roll as int),
                    (first_roll as int) < weight_sum(weighted@),
                decreases weighted.len() - j,
            {
                proof {
                    assert(weighted@.skip(j as int)[0] == weighted@[j as int]);
                    assert(weighted@.skip(j as int).drop_first() =~= weighted@.skip(j as int + 1));
                }
                if roll < weighted[j].0 {
                    proof {
                        lemma_weighted_fit_index(weighted@, j as int);
                    }
                    proof {
                        lemma_wsize_index(weighted@, j as int);
                    }
                    let ghost before = l0.push(first_roll);
                    let st = tick(&weighted[j].1, ctx, draws);
                    proof {
                        assert(before[p0] == first_roll);
                        assert(draws@[p0] == first_roll);
                        assert(spec_pick(weighted@, v0, d0, draws@, p0 + 1, first_roll as int) == spec_pick(
                            weighted@.skip(j as int),
                            v0,
                            d0,
                            draws@,
                            p0 + 1,
                            roll as int,
                        ));
                        assert(spec_pick(weighted@.skip(j as int), v0, d0, draws@, p0 + 1, roll as int)
                            == spec_tick(weighted@[j as int].1, v0, d0, draws@, p0 + 1));
                        assert(spec_tick(*node, v0, d0, draws@, p0) == spec_pick(
                            weighted@,
                            v0,
                            d0,
                            draws@,
                            p0 + 1,
                            draws@[p0] as int,
                        ));
                        assert(extends(draws@, l0)) by {
                            assert forall|k: int| 0 <= k < l0.len() implies #[trigger] draws@[k] == l0[k] by {
                                assert(before[k] == l0[k]);
                            }
                        }
                        assert(pick_draws_in_range(weighted@, v0, d0, draws@, p0 + 1, first_roll as int)
                            == pick_draws_in_range(weighted@.skip(j as int), v0, d0, draws@, p0 + 1, roll as int));
                        assert(pick_draws_in_range(weighted@.skip(j as int), v0, d0, draws@, p0 + 1, roll as int)
                            == draws_in_range(weighted@[j as int].1, v0, d0, draws@, p0 + 1));
                        assert(draws_in_range(*node, v0, d0, draws@, p0));
                    }
                    return st;
                }
                roll = roll - weighted[j].0;
                j = j + 1;
            }
            proof {
                assert(weighted@.skip(j as int) =~= Seq::<(u32, BtNode)>::empty());
                assert(draws@[p0] == first_roll);
                assert(spec_pick(weighted@, v0, d0, draws@, p0 + 1, first_roll as int) == spec_pick(
                    weighted@.skip(j as int),
                    v0,
                    d0,
                    draws@,
                    p0 + 1,
                    roll as int,
                ));
                assert(spec_tick(*node, v0, d0, draws@, p0) == spec_pick(
                    weighted@,
                    v0,
                    d0,
                    draws@,
                    p0 + 1,
                    draws@[p0] as int,
                ));
                assert(extends(draws@, l0));
                assert(pick_draws_in_range(weighted@, v0, d0, draws@, p0 + 1, first_roll as int)
                    == pick_draws_in_range(weighted@.skip(j as int), v0, d0, draws@, p0 + 1, roll as int));
                assert(draws_in_range(*node, v0, d0, draws@, p0));
            }
            BtStatus::Failure
        },
        BtNode::Inverter(child) => {
            let st = tick(&**child, ctx, draws);
            if st == BtStatus::Success {
                BtStatus::Failure
            } else {
                BtStatus::Success
            }
        },
        BtNode::AlwaysSucceed(child) => {
            tick(&**child, ctx, draws);
            BtStatus::Success
        },
        BtNode::HpBelow { percent } => bool_to_status(ctx.actor.hp_percent < *percent),
        BtNode::HpAbove { percent } => bool_to_status(ctx.actor.hp_percent > *percent),
        BtNode::AllyHpBelow { percent } => {
            let mut found = false;
            let mut i: usize = 0;
            while i < ctx.allies.len()
                invariant
                    i <= ctx.allies@.len(),
                    found == exists|k: int| 0 <= k < i && (#[trigger] ctx.allies@[k]).hp_percent < *percent,
                decreases ctx.allies.len() - i,
            {
                if ctx.allies[i].hp_percent < *percent {
                    found = true;
                }
                i = i + 1;
            }
            bool_to_status(found)
        },
        BtNode::MagicBelow { percent } => bool_to_status(ctx.actor.magic_percent < *percent),
        BtNode::ActionPointsAtLeast { amount } => bool_to_status(ctx.actor.action_points >= *amount),
        BtNode::AggressivenessAtLeast { value } => bool_to_status(
            ctx.actor.params.aggressiveness >= *value,
        ),
        BtNode::BraveryAtLeast { value } => bool_to_status(ctx.actor.params.bravery >= *value),
        BtNode::CautionAtLeast { value } => bool_to_status(ctx.actor.params.caution >= *value),
        BtNode::InPanic => bool_to_status(ctx.actor.hp_percent <= ctx.actor.params.panic_threshold),
        BtNode::EnemiesAlive { at_least } => bool_to_status(ctx.enemies.len() as u8 >= *at_least),
        BtNode::AlliesAlive { at_least } => bool_to_status(ctx.allies.len() as u8 >= *at_least),
        BtNode::HasAbility { id } => bool_to_status(owns(&ctx.actor.abilities, *id)),
        BtNode::Chance { percent } => {
            let threshold: u32 = if *percent < 100 { *percent as u32 } else { 100 };
            let roll = roll_in_range(0, 100);
            draws.push(roll);
            assert(draws@[p0] == roll);
            bool_to_status(roll < threshold)
        },
        BtNode::BasicAttack => {
            let target = match ctx.target_for_focus(ctx.actor.params.focus_preference) {
                Some(t) => t.entity,
                None => {
                    return BtStatus::Failure;
                },
            };
            ctx.decision = Some(AiAction::Attack { target });
            BtStatus::Success
        },
        BtNode::UseAbility { id } => {
            if !owns(&ctx.actor.abilities, *id) {
                return BtStatus::Failure;
            }
            let target = match ctx.target_for_focus(ctx.actor.params.focus_preference) {
                Some(t) => t.entity,
                None => {
                    return BtStatus::Failure;
                },
            };
            ctx.decision = Some(AiAction::Ability { ability_id: *id, target });
            BtStatus::Success
        },
        BtNode::UseFirstHealingAbility => {
            let tree = match ctx.ability_tree {
                Some(t) => t,
                None => {
                    return BtStatus::Failure;
                },
            };
            let ghost tm = tree.view();
            let mut i: usize = 0;
            while i < ctx.actor.abilities.len()
                invariant
                    i <= ctx.actor.abilities@.len(),
                    tree.well_formed(),
                    tm == tree.view(),
                    ctx.view() == old(ctx).view(),
                    ctx.decision == old(ctx).decision,
                    ctx.ability_tree == old(ctx).ability_tree,
                    Some(tm) == ctx.view().tree,
                    draws@ == old(draws)@,
                    first_heal_upto(ctx.actor.abilities@, tm, i as int) is None,
                    *node == BtNode::UseFirstHealingAbility,
                    ctx.ability_tree == Some(tree),
                decreases ctx.actor.abilities.len() - i,
            {
                let owned_id = ctx.actor.abilities[i];
                match tree.find(owned_id) {
                    Some(ability) => {
                        if is_pure_heal_exec(ability) {
                            let target = match ctx.weakest_ally() {
                                Some(a) => a.entity,
                                None => ctx.actor.entity,
                            };
                            proof {
                                assert(first_heal_upto(ctx.actor.abilities@, tm, i as int + 1)
                                    == Some(owned_id));
                                assert forall|n: int|
                                    i + 1 <= n <= ctx.actor.abilities@.len() implies first_heal_upto(
                                    ctx.actor.abilities@,
                                    tm,
                                    n,
                                ) == Some(owned_id) by {
                                    lemma_first_heal_stable(ctx.actor.abilities@, tm, i as int + 1, n);
                                }
                            }
                            ctx.decision = Some(AiAction::Ability { ability_id: owned_id, target });
                            return BtStatus::Success;
                        }
                    },
                    None => {},
                }
                i = i + 1;
            }
            BtStatus::Failure
        },
        BtNode::UseHighestDamageAbility => {
            let tree = match ctx.ability_tree {
                Some(t) => t,
                None => {
                    return BtStatus::Failure;
                },
            };
            let ghost tm = tree.view();
            let ap = ctx.actor.action_points;
            let mut best: Option<(u16, u64)> = None;
            let mut i: usize = 0;
            while i < ctx.actor.abilities.len()
                invariant
                    i <= ctx.actor.abilities@.len(),
                    tree.well_formed(),
                    tm == tree.view(),
                    ctx.view() == old(ctx).view(),
                    ctx.decision == old(ctx).decision,
                    ctx.ability_tree == old(ctx).ability_tree,
                    Some(tm) == ctx.view().tree,
                    draws@ == old(draws)@,
                    ap == ctx.actor.action_points,
                    match best {
                        Some(b) => best_damage_upto(ctx.actor.abilities@, tm, ap, i as int) == Some(
                            (b.0, b.1 as int),
                        ),
                        None => best_damage_upto(ctx.actor.abilities@, tm, ap, i as int) is None,
                    },
                decreases ctx.actor.abilities.len() - i,
            {
                let owned_id = ctx.actor.abilities[i];
                match tree.find(owned_id) {
                    Some(ability) => {
                        if ability.action_point_cost <= ap {
                            let damage = expected_damage(ability);
                            if damage != 0 {
                                let better = match best {
                                    Some(b) => damage > b.1,
                                    None => true,
                                };
                                if better {
                                    best = Some((owned_id, damage));
                                }
                            }
                        }
                    },
                    None => {},
                }
                i = i + 1;
            }
            let id = match best {
                Some(b) => b.0,
                None => {
                    return BtStatus::Failure;
                },
            };
            let target = match ctx.target_for_focus(ctx.actor.params.focus_preference) {
                Some(t) => t.entity,
                None => {
                    return BtStatus::Failure;
                },
            };
            ctx.decision = Some(AiAction::Ability { ability_id: id, target });
            BtStatus::Success
        },
        BtNode::Defend => {
            ctx.decision = Some(AiAction::Defend);
            BtStatus::Success
        },
        BtNode::Wait => {
            ctx.decision = Some(AiAction::Wait);
            BtStatus::Success
        },
    }
}

proof fn lemma_first_heal_stable(owned: Seq<u16>, tree: Map<u16, Ability>, m: int, n: int)
    requires
        0 <= m <= n,
        first_heal_upto(owned, tree, m) is Some,
    ensures
        first_heal_upto(owned, tree, n) == first_heal_upto(owned, tree, m),
    decreases n - m,
{
    if m < n {
        lemma_first_heal_stable(owned, tree, m, n - 1);
    }
}

/// Every child of a selector, ticked in turn (each with the decision and
/// draws the one before left), fails.
pub open spec fn all_fail_in_turn(s: Seq<BtNode>, v: BtView, d: Option<AiAction>, rolls: Seq<u32>, pos: int) -> bool
    decreases s,
{
    if s.len() == 0 {
        true
    } else {
        let r = spec_tick(s[0], v, d, rolls, pos);
        r.status is Failure && all_fail_in_turn(s.drop_first(), v, r.decision, rolls, r.pos)
    }
}

/// Every child of a sequence, ticked in turn, succeeds.
pub open spec fn all_succeed_in_turn(s: Seq<BtNode>, v: BtView, d: Option<AiAction>, rolls: Seq<u32>, pos: int) -> bool
    decreases s,
{
    if s.len() == 0 {
        true
    } else {
        let r = spec_tick(s[0], v, d, rolls, pos);
        r.status is Success && all_succeed_in_turn(s.drop_first(), v, r.decision, rolls, r.pos)
    }
}

/// A selector fails exactly when every child, tried in turn, fails; it
/// succeeds as soon as one child succeeds.
pub proof fn lemma_selector_fails_iff_all_fail(
    children: Seq<BtNode>,
    v: BtView,
    d: Option<AiAction>,
    rolls: Seq<u32>,
    pos: int,
)
    ensures
        spec_selector(children, v, d, rolls, pos).status is Failure <==> all_fail_in_turn(children, v, d, rolls, pos),
    decreases children,
{
    if children.len() > 0 {
        let r = spec_tick(children[0], v, d, rolls, pos);
        lemma_selector_fails_iff_all_fail(children.drop_first(), v, r.decision, rolls, r.pos);
    }
}

/// A sequence succeeds exactly when every child, run in turn, succeeds; it
/// fails as soon as one child fails.
pub proof fn lemma_sequence_succeeds_iff_all_succeed(
    children: Seq<BtNode>,
    v: BtView,
    d: Option<AiAction>,
    rolls: Seq<u32>,
    pos: int,
)
    ensures
        spec_sequence(children, v, d, rolls, pos).status is Success <==> all_succeed_in_turn(children, v, d, rolls, pos),
    decreases children,
{
    if children.len() > 0 {
        let r = spec_tick(children[0], v, d, rolls, pos);
        lemma_sequence_succeeds_iff_all_succeed(children.drop_first(), v, r.decision, rolls, r.pos);
    }
}

/// An inverter turns its child's success into failure and back, and leaves
/// the child's decision and draws as they are; an always-succeed node
/// succeeds whatever its child does.
pub proof fn lemma_decorators(child: BtNode, v: BtView, d: Option<AiAction>, rolls: Seq<u32>, pos: int)
    ensures
        spec_tick(BtNode::Inverter(Box::new(child)), v, d, rolls, pos).status is Success
            <==> spec_tick(child, v, d, rolls, pos).status is Failure,
        spec_tick(BtNode::Inverter(Box::new(child)), v, d, rolls, pos).decision == spec_tick(child, v, d, rolls, pos).decision,
        spec_tick(BtNode::Inverter(Box::new(child)), v, d, rolls, pos).pos == spec_tick(child, v, d, rolls, pos).pos,
        spec_tick(BtNode::AlwaysSucceed(Box::new(child)), v, d, rolls, pos).status is Success,
        spec_tick(BtNode::AlwaysSucceed(Box::new(child)), v, d, rolls, pos).decision == spec_tick(child, v, d, rolls, pos).decision,
{
}

/// Whether a tree holds an action node (an attack, an ability, defend or
/// wait).
pub open spec fn has_action(node: BtNode) -> bool
    decreases node,
{
    match node {
        BtNode::Selector(children) => any_action(children@),
        BtNode::Sequence(children) => any_action(children@),
        BtNode::Random(weighted) => any_weighted_action(weighted@),
        BtNode::Inverter(child) => has_action(*child),
        BtNode::AlwaysSucceed(child) => has_action(*child),
        BtNode::BasicAttack | BtNode::UseAbility { .. } | BtNode::UseFirstHealingAbility
        | BtNode::UseHighestDamageAbility | BtNode::Defend | BtNode::Wait => true,
        _ => false,
    }
}

/// Whether any tree of a list holds an action node.
pub open spec fn any_action(s: Seq<BtNode>) -> bool
    decreases s,
{
    s.len() > 0 && (has_action(s[0]) || any_action(s.drop_first()))
}

/// Whether any child of a random node holds an action node.
pub open spec fn any_weighted_action(w: Seq<(u32, BtNode)>) -> bool
    decreases w,
{
    w.len() > 0 && (has_action(w[0].1) || any_weighted_action(w.drop_first()))
}

/// Only action nodes record a decision: ticking a tree of composites,
/// decorators and conditions leaves the decision as it was.
#[verifier::spinoff_prover]
#[verifier::rlimit(60)]
pub proof fn lemma_conditions_decide_nothing(node: BtNode, v: BtView, d: Option<AiAction>, rolls: Seq<u32>, pos: int)
    requires
        !has_action(node),
    ensures
        spec_tick(node, v, d, rolls, pos).decision == d,
    decreases node,
{
    match node {
        BtNode::Selector(children) => lemma_selector_decides_nothing(children@, v, d, rolls, pos),
        BtNode::Sequence(children) => lemma_sequence_decides_nothing(children@, v, d, rolls, pos),
        BtNode::Random(weighted) => {
            if !(weight_sum(weighted@) == 0 || weighted@.len() == 0) {
                lemma_pick_decides_nothing(weighted@, v, d, rolls, pos + 1, rolls[pos] as int);
            }
        },
        BtNode::Inverter(child) => lemma_conditions_decide_nothing(*child, v, d, rolls, pos),
        BtNode::AlwaysSucceed(child) => lemma_conditions_decide_nothing(*child, v, d, rolls, pos),
        _ => {},
    }
}

proof fn lemma_selector_decides_nothing(s: Seq<BtNode>, v: BtView, d: Option<AiAction>, rolls: Seq<u32>, pos: int)
    requires
        !any_action(s),
    ensures
        spec_selector(s, v, d, rolls, pos).decision == d,
    decreases s,
{
    if s.len() > 0 {
        lemma_conditions_decide_nothing(s[0], v, d, rolls, pos);
        let r = spec_tick(s[0], v, d, rolls, pos);
        if !(r.status is Success) {
            lemma_selector_decides_nothing(s.drop_first(), v, r.decision, rolls, r.pos);
        }
    }
}

proof fn lemma_sequence_decides_nothing(s: Seq<BtNode>, v: BtView, d: Option<AiAction>, rolls: Seq<u32>, pos: int)
    requires
        !any_action(s),
    ensures
        spec_sequence(s, v, d, rolls, pos).decision == d,
    decreases s,
{
    if s.len() > 0 {
        lemma_conditions_decide_nothing(s[0], v, d, rolls, pos);
        let r = spec_tick(s[0], v, d, rolls, pos);
        if !(r.status is Failure) {
            lemma_sequence_decides_nothing(s.drop_first(), v, r.decision, rolls, r.pos);
        }
    }
}

proof fn lemma_pick_decides_nothing(
    w: Seq<(u32, BtNode)>,
    v: BtView,
    d: Option<AiAction>,
    rolls: Seq<u32>,
    pos: int,
    roll: int,
)
    requires
        !any_weighted_action(w),
    ensures
        spec_pick(w, v, d, rolls, pos, roll).decision == d,
    decreases w,
{
    if w.len() > 0 {
        if roll < w[0].0 {
            lemma_conditions_decide_nothing(w[0].1, v, d, rolls, pos);
        } else {
            lemma_pick_decides_nothing(w.drop_first(), v, d, rolls, pos, roll - w[0].0);
        }
    }
}

/// A share of `part` in `whole`, in whole percent rounded down, between 0
/// and 100.
pub open spec fn percent_of(part: int, whole: int) -> int {
    if part <= 0 { 0 } else if part * 100 / whole > 100 { 100 } else { part * 100 / whole }
}

/// What the AI sees of a living combatant: its health and magic as
/// percentages of their ceilings (no health ceiling reads as 0%, no magic
/// at all as 100%), its action points, its abilities (none if it has no
/// list), its temperament (the balanced one if it has none) and its place
/// (the origin if it has none). A combatant with no health left is not
/// seen.
pub fn build_snapshot(
    entity: EntityId,
    side: BattleSide,
    stats: &CombatStats,
    abilities: Option<&Vec<u16>>,
    params: Option<AIParameters>,
    position: Option<Position>,
) -> (r: Option<ActorSnapshot>)
    ensures
        stats.health.current <= 0 ==> r is None,
        stats.health.current > 0 ==> (r matches Some(s) && {
            let magic_base = stats.kiho.base + stats.onmyodo.base + stats.yokaijutsu.base + stats.kamishin.base;
            let magic_now = stats.kiho.current + stats.onmyodo.current + stats.yokaijutsu.current
                + stats.kamishin.current;
            &&& s.entity == entity
            &&& s.side == side
            &&& s.hp_percent == if stats.health.base > 0 {
                percent_of(stats.health.current as int, stats.health.base as int)
            } else {
                0
            }
            &&& s.magic_percent == if magic_base > 0 { percent_of(magic_now, magic_base) } else { 100 }
            &&& s.action_points == stats.action_points.current
            &&& s.abilities@ == match abilities {
                Some(v) => v@,
                None => Seq::<u16>::empty(),
            }
            &&& s.params == match params {
                Some(p) => p,
                None => AIParameters {
                    aggressiveness: 5,
                    caution: 5,
                    curiosity: 5,
                    perception: 5,
                    bravery: 5,
                    patience: 5,
                    panic_threshold: 25,
                    magic_thrift: 5,
                    group_loyalty: 5,
                    focus_preference: TargetFocus::LowestHp,
                    preferred_range: PreferredRange::Any,
                },
            }
            &&& s.position == match position {
                Some(p) => p,
                None => Position { x: 0, y: 0 },
            }
        }),
{
    if stats.health.current <= 0 {
        return None;
    }
    let hp_percent: u8 = if stats.health.base > 0 {
        percent(stats.health.current as i64, stats.health.base as i64)
    } else {
        0
    };
    let total_max = stats.total_magic_base();
    let magic_percent: u8 = if total_max > 0 {
        percent(stats.total_magic_current(), total_max)
    } else {
        100
    };
    let abilities: Vec<u16> = match abilities {
        Some(v) => v.clone(),
        None => Vec::new(),
    };
    let params = match params {
        Some(p) => p,
        None => AIParameters::default(),
    };
    let position = match position {
        Some(p) => p,
        None => Position { x: 0, y: 0 },
    };
    Some(ActorSnapshot {
        entity,
        side,
        hp_percent,
        magic_percent,
        action_points: stats.action_points.current,
        abilities,
        params,
        position,
    })
}

fn percent(part: i64, whole: i64) -> (r: u8)
    requires
        whole > 0,
        -0x2_0000_0000 <= part <= 0x2_0000_0000,
    ensures
        r == percent_of(part as int, whole as int),
{
    if part <= 0 {
        return 0;
    }
    let p: i64 = part * 100 / whole;
    if p > 100 {
        100
    } else {
        p as u8
    }
}

/// The first `n` snapshots sorted around the acting combatant `actor` of
/// `side`: those of its side (its allies) and the others (its enemies), each
/// in order, the actor itself left out.
pub open spec fn sides_upto(actor: EntityId, side: BattleSide, snaps: Seq<ActorSnapshot>, n: int) -> (
    Seq<ActorSnapshot>,
    Seq<ActorSnapshot>,
)
    decreases n,
{
    if n <= 0 {
        (Seq::empty(), Seq::empty())
    } else {
        let (a, e) = sides_upto(actor, side, snaps, n - 1);
        let x = snaps[n - 1];
        if x.entity == actor {
            (a, e)
        } else if x.side == side {
            (a.push(x), e)
        } else {
            (a, e.push(x))
        }
    }
}

/// Sort the living combatants' snapshots around the acting one: its allies
/// (its own side) and its enemies (the other side), each in the order given,
/// leaving the actor itself out.
pub fn sort_sides(actor: EntityId, side: BattleSide, snaps: Vec<ActorSnapshot>) -> (r: (
    Vec<ActorSnapshot>,
    Vec<ActorSnapshot>,
))
    ensures
        (r.0@, r.1@) == sides_upto(actor, side, snaps@, snaps@.len() as int),
{
    let ghost all = snaps@;
    let n = snaps.len();
    let mut rest = snaps;
    let mut allies: Vec<ActorSnapshot> = Vec::new();
    let mut enemies: Vec<ActorSnapshot> = Vec::new();
    let mut k: usize = 0;
    while rest.len() > 0
        invariant
            n == all.len(),
            k + rest@.len() == n,
            rest@ == all.subrange(k as int, n as int),
            (allies@, enemies@) == sides_upto(actor, side, all, k as int),
        decreases rest@.len(),
    {
        let x = rest.remove(0);
        proof {
            assert(rest@ =~= all.subrange(k as int + 1, n as int));
            assert(x == all[k as int]);
        }
        if x.entity != actor {
            let same = match (x.side, side) {
                (BattleSide::Ally, BattleSide::Ally) | (BattleSide::Enemy, BattleSide::Enemy) => true,
                _ => false,
            };
            if same {
                allies.push(x);
            } else {
                enemies.push(x);
            }
        }
        k = k + 1;
    }
    (allies, enemies)
}

/// Law: the head-count conditions read only their own side. `EnemiesAlive`
/// succeeds exactly when the enemy list holds at least `at_least` entries
/// (for fewer than 256 entries, as the count is taken as a byte), and
/// `AlliesAlive` likewise for the allies; neither draws a number nor
/// changes the decision, and each gives the same status in two views whose
/// lists on its side agree, whatever the other side holds.
pub proof fn lemma_alive_counts_read_their_side(
    at_least: u8,
    v: BtView,
    w: BtView,
    d: Option<AiAction>,
    rolls: Seq<u32>,
    pos: int,
)
    ensures
        v.enemies.len() < 256 ==> ((spec_tick(BtNode::EnemiesAlive { at_least }, v, d, rolls, pos).status
            is Success) == (v.enemies.len() >= at_least)),
        v.allies.len() < 256 ==> ((spec_tick(BtNode::AlliesAlive { at_least }, v, d, rolls, pos).status
            is Success) == (v.allies.len() >= at_least)),
        spec_tick(BtNode::EnemiesAlive { at_least }, v, d, rolls, pos).decision == d,
        spec_tick(BtNode::EnemiesAlive { at_least }, v, d, rolls, pos).pos == pos,
        spec_tick(BtNode::AlliesAlive { at_least }, v, d, rolls, pos).decision == d,
        spec_tick(BtNode::AlliesAlive { at_least }, v, d, rolls, pos).pos == pos,
        v.enemies == w.enemies ==> spec_tick(BtNode::EnemiesAlive { at_least }, v, d, rolls, pos) == spec_tick(
            BtNode::EnemiesAlive { at_least },
            w,
            d,
            rolls,
            pos,
        ),
        v.allies == w.allies ==> spec_tick(BtNode::AlliesAlive { at_least }, v, d, rolls, pos) == spec_tick(
            BtNode::AlliesAlive { at_least },
            w,
            d,
            rolls,
            pos,
        ),
{
}

/// Law: what each of the actor's conditions asks. Health below and above
/// a threshold compare the actor's health (and are never both met; at the
/// threshold itself neither is); magic below compares its magic; panic holds
/// from its panic threshold down; an ally's health below holds when some
/// living ally is under the threshold; an owned ability, enough action
/// points and the three temperament thresholds read the actor as named.
pub proof fn lemma_condition_meanings(p: u8, id: u16, amount: i32, v: BtView, d: Option<AiAction>, rolls: Seq<u32>, pos: int)
    ensures
        (spec_tick(BtNode::HpBelow { percent: p }, v, d, rolls, pos).status is Success) == (v.actor.hp_percent < p),
        (spec_tick(BtNode::HpAbove { percent: p }, v, d, rolls, pos).status is Success) == (v.actor.hp_percent > p),
        !(spec_tick(BtNode::HpBelow { percent: p }, v, d, rolls, pos).status is Success && spec_tick(
            BtNode::HpAbove { percent: p },
            v,
            d,
            rolls,
            pos,
        ).status is Success),
        (spec_tick(BtNode::MagicBelow { percent: p }, v, d, rolls, pos).status is Success) == (v.actor.magic_percent
            < p),
        (spec_tick(BtNode::InPanic, v, d, rolls, pos).status is Success) == (v.actor.hp_percent
            <= v.actor.params.panic_threshold),
        (spec_tick(BtNode::AllyHpBelow { percent: p }, v, d, rolls, pos).status is Success) == (exists|k: int|
            0 <= k < v.allies.len() && (#[trigger] v.allies[k]).hp_percent < p),
        (spec_tick(BtNode::HasAbility { id }, v, d, rolls, pos).status is Success) == v.actor.abilities@.contains(id),
        (spec_tick(BtNode::ActionPointsAtLeast { amount }, v, d, rolls, pos).status is Success) == (
        v.actor.action_points >= amount),
        (spec_tick(BtNode::AggressivenessAtLeast { value: p }, v, d, rolls, pos).status is Success) == (
        v.actor.params.aggressiveness >= p),
        (spec_tick(BtNode::BraveryAtLeast { value: p }, v, d, rolls, pos).status is Success) == (
        v.actor.params.bravery >= p),
        (spec_tick(BtNode::CautionAtLeast { value: p }, v, d, rolls, pos).status is Success) == (
        v.actor.params.caution >= p),
{
}

} // verus!
