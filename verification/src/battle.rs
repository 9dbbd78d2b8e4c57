//! Battles: opening one and ending it when an enemy falls, what a fallen
//! combatant leaves behind, the participants that are not protagonists
//! (yokai, summoned familiars and obstacles, generic allies), and the
//! bookkeeping of summons over turns and rounds.

use vstd::prelude::*;
use crate::ability::{DamageType, EntityId, SummonKind};
use crate::ai_decision::BattleSide;
use crate::characters::{stat_block, stat_block_exec};
use crate::combat_rules::{GrowthAttributes, MagicDistribution};
use crate::stats::CombatStats;
use crate::turn_order::{TurnManager, TurnOrder};

verus! {

/// The yokai species a battle can field.
#[derive(Clone, Copy, Debug, PartialEq, Eq, Structural)]
pub enum YokaiKind {
    /// Will-o'-wisp: fast, fragile, fire-leaning.
    Onibi,
    /// River demon: balanced melee.
    Kappa,
    /// Cat-cart yokai: mental caster.
    Kasha,
}

impl YokaiKind {
    /// The species' display name.
    pub fn label(self) -> (r: &'static str)
        ensures
            r@ == match self {
                YokaiKind::Onibi => "Onibi"@,
                YokaiKind::Kappa => "Kappa"@,
                YokaiKind::Kasha => "Kasha"@,
            },
    {
        match self {
            YokaiKind::Onibi => "Onibi",
            YokaiKind::Kappa => "Kappa",
            YokaiKind::Kasha => "Kasha",
        }
    }

    /// The behaviour-tree profile that drives the species.
    pub fn behavior_profile(self) -> (r: &'static str)
        ensures
            r@ == match self {
                YokaiKind::Onibi => "yokai_onibi"@,
                YokaiKind::Kappa => "yokai_kappa"@,
                YokaiKind::Kasha => "yokai_kasha"@,
            },
    {
        match self {
            YokaiKind::Onibi => "yokai_onibi",
            YokaiKind::Kappa => "yokai_kappa",
            YokaiKind::Kasha => "yokai_kasha",
        }
    }

    /// The abilities the species knows, by packed id (level 15, sub-ids 0,
    /// 1 and 2).
    pub fn abilities(self) -> (r: Vec<u16>)
        ensures
            r@ == match self {
                YokaiKind::Onibi => seq![30720u16],
                YokaiKind::Kappa => seq![30721u16],
                YokaiKind::Kasha => seq![30722u16],
            },
    {
        let r = match self {
            YokaiKind::Onibi => vec![30720],
            YokaiKind::Kappa => vec![30721],
            YokaiKind::Kasha => vec![30722],
        };
        proof {
            assert(r@ =~= match self {
                YokaiKind::Onibi => seq![30720u16],
                YokaiKind::Kappa => seq![30721u16],
                YokaiKind::Kasha => seq![30722u16],
            });
        }
        r
    }
}

/// The stat numbers of each species, in the order `stat_block` reads them
/// (magic in hundredths): Onibi is the fragile striker, Kappa the sturdy
/// melee with a little onmyodo, Kasha the high-mind caster. Evasion equals
/// speed; no regeneration.
pub open spec fn yokai_numbers(kind: YokaiKind) -> Seq<int> {
    match kind {
        YokaiKind::Onibi => seq![35, 60, 5, 0, 0, 600, 0, 14, 70, 4, 18, 18, 12, 0, 0, 0, 0, 0, 0],
        YokaiKind::Kappa => seq![90, 60, 5, 0, 400, 300, 0, 16, 65, 12, 9, 9, 6, 0, 0, 0, 0, 0, 0],
        YokaiKind::Kasha => seq![55, 60, 5, 0, 0, 800, 0, 8, 60, 6, 12, 12, 18, 0, 0, 0, 0, 0, 0],
    }
}

/// The stat block a yokai enters battle with; `default_action_points` is the
/// action-point pool every combatant starts with.
pub fn yokai_combat_stats(kind: YokaiKind, default_action_points: i32) -> (r: CombatStats)
    ensures
        r == stat_block(default_action_points as int, yokai_numbers(kind)),
{
    let n: [i32; 19] = match kind {
        YokaiKind::Onibi => [35, 60, 5, 0, 0, 600, 0, 14, 70, 4, 18, 18, 12, 0, 0, 0, 0, 0, 0],
        YokaiKind::Kappa => [90, 60, 5, 0, 400, 300, 0, 16, 65, 12, 9, 9, 6, 0, 0, 0, 0, 0, 0],
        YokaiKind::Kasha => [55, 60, 5, 0, 0, 800, 0, 8, 60, 6, 12, 12, 18, 0, 0, 0, 0, 0, 0],
    };
    let r = stat_block_exec(default_action_points, &n);
    proof {
        assert(Seq::new(19, |i: int| n@[i] as int) =~= yokai_numbers(kind));
    }
    r
}

/// The stat numbers of a summoned familiar: the shikigami, a fragile, fast
/// striker with no magic (every summon kind gets this block).
pub open spec fn familiar_numbers() -> Seq<int> {
    seq![22, 50, 5, 0, 0, 0, 0, 16, 72, 3, 17, 17, 4, 0, 0, 0, 0, 0, 0]
}

/// The stat block a summoned familiar enters battle with, and its name.
pub fn summoned_combat_stats(kind: SummonKind, default_action_points: i32) -> (r: (&'static str, CombatStats))
    ensures
        r.0@ == "Shikigami"@,
        r.1 == stat_block(default_action_points as int, familiar_numbers()),
{
    let n: [i32; 19] = [22, 50, 5, 0, 0, 0, 0, 16, 72, 3, 17, 17, 4, 0, 0, 0, 0, 0, 0];
    let r = stat_block_exec(default_action_points, &n);
    proof {
        assert(Seq::new(19, |i: int| n@[i] as int) =~= familiar_numbers());
    }
    ("Shikigami", r)
}

/// The stat numbers of a generic, unnamed ally: a sturdy support block
/// (magic and its regeneration in hundredths).
pub open spec fn generic_ally_numbers() -> Seq<int> {
    seq![100, 85, 5, 100, 150, 100, 50, 12, 75, 8, 9, 9, 8, 2, 4, 25, 40, 25, 15]
}

/// The stat block of a generic, unnamed ally.
pub fn generic_ally_stats(default_action_points: i32) -> (r: CombatStats)
    ensures
        r == stat_block(default_action_points as int, generic_ally_numbers()),
{
    let n: [i32; 19] = [100, 85, 5, 100, 150, 100, 50, 12, 75, 8, 9, 9, 8, 2, 4, 25, 40, 25, 15];
    let r = stat_block_exec(default_action_points, &n);
    proof {
        assert(Seq::new(19, |i: int| n@[i] as int) =~= generic_ally_numbers());
    }
    r
}

/// The growth attributes of a generic ally: spirit 8 gives 24 distribution
/// points, leaning on onmyodo.
pub fn generic_ally_growth() -> (r: GrowthAttributes)
    ensures
        r == (GrowthAttributes {
            vitality: 10,
            endurance: 9,
            spirit: 8,
            power: 10,
            control: 9,
            celerity: 9,
            reflex: 9,
            insight: 8,
            resolve: 10,
            magic_distribution: MagicDistribution { kiho: 6, onmyodo: 10, yokaijutsu: 4, kamishin: 4 },
        }),
{
    GrowthAttributes {
        vitality: 10,
        endurance: 9,
        spirit: 8,
        power: 10,
        control: 9,
        celerity: 9,
        reflex: 9,
        insight: 8,
        resolve: 10,
        magic_distribution: MagicDistribution { kiho: 6, onmyodo: 10, yokaijutsu: 4, kamishin: 4 },
    }
}

/// A summoned combatant's remaining turns.
#[derive(Clone, Copy, Debug, PartialEq, Eq, Structural)]
pub struct SummonLifetime {
    pub remaining_turns: u8,
}

/// A summoned obstacle's remaining rounds.
#[derive(Clone, Copy, Debug, PartialEq, Eq, Structural)]
pub struct SummonedObstacle {
    pub remaining_rounds: u8,
}

/// How an obstacle meets movement: an impassable one blocks; a passable one
/// may slow those crossing it (a speed factor in thousandths) and bite them
/// once on entry.
#[derive(Clone, Copy, Debug, PartialEq, Eq)]
pub struct ObstacleEffects {
    pub passable: bool,
    pub slow: Option<u32>,
    pub on_pass: Option<(i32, DamageType)>,
}

/// Which combatants an aura touches.
#[derive(Clone, Copy, Debug, PartialEq, Eq, Structural)]
pub enum AuraTargets {
    Enemies,
    Allies,
    All,
}

/// What an aura does once per round to each combatant in range: damage, or
/// a status (by its number in the status catalogue) at a tier.
#[derive(Clone, Copy, Debug, PartialEq, Eq, Structural)]
pub enum AuraEffect {
    Damage { amount: i32, damage_type: DamageType },
    Status { kind: u16, tier: u8 },
}

/// An area effect around an obstacle; `radius` in world units.
#[derive(Clone, Copy, Debug, PartialEq, Eq)]
pub struct ObstacleAura {
    pub radius: u32,
    pub effect: AuraEffect,
    pub affects: AuraTargets,
}

/// An obstacle archetype: its name, its footprint and height in world units,
/// how it meets movement, and its aura.
#[derive(Clone, Copy, Debug, PartialEq, Eq)]
pub struct ObstaclePreset {
    pub name: &'static str,
    pub footprint: u32,
    pub height: u32,
    pub effects: ObstacleEffects,
    pub aura: Option<ObstacleAura>,
}

/// An impassable wall with no bite.
pub open spec fn wall() -> ObstacleEffects {
    ObstacleEffects { passable: false, slow: None, on_pass: None }
}

/// The archetype of each obstacle summon. The spirit ward is a plain wall;
/// the thorn bramble is passable, slows to 0.45 and bites for 8 physical;
/// the ember ward is a wall burning enemies within 96 for 6 fire a round;
/// the hex miasma is passable and slows enemies within 112 (status
/// `slowed_status`, tier 1). A shikigami never comes here and gets a plain
/// wall.
pub open spec fn spec_preset(kind: SummonKind, slowed_status: u16) -> (Seq<char>, u32, u32, ObstacleEffects, Option<ObstacleAura>) {
    match kind {
        SummonKind::SpiritWard => ("Spirit Ward"@, 32u32, 48u32, wall(), None),
        SummonKind::ThornBramble => (
            "Thorn Bramble"@,
            32u32,
            22u32,
            ObstacleEffects { passable: true, slow: Some(450u32), on_pass: Some((8i32, DamageType::Physical)) },
            None,
        ),
        SummonKind::EmberWard => (
            "Ember Ward"@,
            32u32,
            48u32,
            wall(),
            Some(ObstacleAura {
                radius: 96,
                effect: AuraEffect::Damage { amount: 6, damage_type: DamageType::Fire },
                affects: AuraTargets::Enemies,
            }),
        ),
        SummonKind::HexMiasma => (
            "Hex Miasma"@,
            48u32,
            16u32,
            ObstacleEffects { passable: true, slow: None, on_pass: None },
            Some(ObstacleAura {
                radius: 112,
                effect: AuraEffect::Status { kind: slowed_status, tier: 1 },
                affects: AuraTargets::Enemies,
            }),
        ),
        SummonKind::Shikigami => ("Summoned Obstacle"@, 32u32, 48u32, wall(), None),
    }
}

/// The archetype of an obstacle summon; `slowed_status` is the number of the
/// slowed status in the status catalogue.
pub fn obstacle_preset(kind: SummonKind, slowed_status: u16) -> (r: ObstaclePreset)
    ensures
        (r.name@, r.footprint, r.height, r.effects, r.aura) == spec_preset(kind, slowed_status),
{
    let wall = ObstacleEffects { passable: false, slow: None, on_pass: None };
    match kind {
        SummonKind::SpiritWard => ObstaclePreset { name: "Spirit Ward", footprint: 32, height: 48, effects: wall, aura: None },
        SummonKind::ThornBramble => ObstaclePreset {
            name: "Thorn Bramble",
            footprint: 32,
            height: 22,
            effects: ObstacleEffects { passable: true, slow: Some(450), on_pass: Some((8, DamageType::Physical)) },
            aura: None,
        },
        SummonKind::EmberWard => ObstaclePreset {
            name: "Ember Ward",
            footprint: 32,
            height: 48,
            effects: wall,
            aura: Some(ObstacleAura {
                radius: 96,
                effect: AuraEffect::Damage { amount: 6, damage_type: DamageType::Fire },
                affects: AuraTargets::Enemies,
            }),
        },
        SummonKind::HexMiasma => ObstaclePreset {
            name: "Hex Miasma",
            footprint: 48,
            height: 16,
            effects: ObstacleEffects { passable: true, slow: None, on_pass: None },
            aura: Some(ObstacleAura {
                radius: 112,
                effect: AuraEffect::Status { kind: slowed_status, tier: 1 },
                affects: AuraTargets::Enemies,
            }),
        },
        SummonKind::Shikigami => ObstaclePreset {
            name: "Summoned Obstacle",
            footprint: 32,
            height: 48,
            effects: wall,
            aura: None,
        },
    }
}

/// Whether an aura aimed at `affects` touches a combatant of `side`.
pub fn aura_touches(affects: AuraTargets, side: BattleSide) -> (r: bool)
    ensures
        r == match affects {
            AuraTargets::Enemies => side == BattleSide::Enemy,
            AuraTargets::Allies => side == BattleSide::Ally,
            AuraTargets::All => true,
        },
{
    match affects {
        AuraTargets::Enemies => side == BattleSide::Enemy,
        AuraTargets::Allies => side == BattleSide::Ally,
        AuraTargets::All => true,
    }
}

/// The battle in progress: whether one is, its participants, and the
/// encounter it came from.
#[derive(Clone, Debug)]
pub struct BattleState {
    pub active: bool,
    pub participants: Vec<EntityId>,
    pub enemy_id: Option<u32>,
}

/// `s` without `who`, in order.
pub open spec fn without(s: Seq<EntityId>, who: EntityId) -> Seq<EntityId>
    decreases s.len(),
{
    if s.len() == 0 {
        Seq::empty()
    } else if s.last() != who {
        without(s.drop_last(), who).push(s.last())
    } else {
        without(s.drop_last(), who)
    }
}

/// At the end of a summoned combatant's own turn its lifetime runs down by
/// one (not below zero); when it runs out the combatant leaves the battle
/// roster. Returns whether it is to be despawned.
pub fn end_summon_turn(life: &mut SummonLifetime, battle: &mut BattleState, who: EntityId) -> (expired: bool)
    ensures
        final(life).remaining_turns == if old(life).remaining_turns == 0 { 0 } else { old(life).remaining_turns - 1 },
        expired == (final(life).remaining_turns == 0),
        final(battle).participants@ == if expired {
            without(old(battle).participants@, who)
        } else {
            old(battle).participants@
        },
        final(battle).active == old(battle).active,
        final(battle).enemy_id == old(battle).enemy_id,
{
    life.remaining_turns = life.remaining_turns.saturating_sub(1);
    if life.remaining_turns == 0 {
        let ghost before = battle.participants@;
        let mut kept: Vec<EntityId> = Vec::new();
        let mut i: usize = 0;
        while i < battle.participants.len()
            invariant
                i <= battle.participants@.len(),
                battle.participants@ == before,
                kept@ == without(before.take(i as int), who),
            decreases battle.participants@.len() - i,
        {
            let e = battle.participants[i];
            proof {
                assert(before.take(i as int + 1).drop_last() =~= before.take(i as int));
            }
            if e != who {
                kept.push(e);
            }
            i = i + 1;
        }
        proof {
            assert(before.take(before.len() as int) =~= before);
        }
        battle.participants = kept;
        true
    } else {
        false
    }
}

/// At the end of a round an obstacle's lifetime runs down by one (not below
/// zero). Returns whether it is to be despawned.
pub fn end_obstacle_round(ob: &mut SummonedObstacle) -> (expired: bool)
    ensures
        final(ob).remaining_rounds == if old(ob).remaining_rounds == 0 { 0 } else { old(ob).remaining_rounds - 1 },
        expired == (final(ob).remaining_rounds == 0),
{
    ob.remaining_rounds = ob.remaining_rounds.saturating_sub(1);
    ob.remaining_rounds == 0
}

/// Track a combatant over a biting obstacle: stepping on (`inside` and not
/// yet among the `occupants`) adds it and bites; stepping off removes it;
/// otherwise nothing changes. Returns whether it is bitten.
pub fn track_occupant(occupants: &mut Vec<EntityId>, who: EntityId, inside: bool) -> (bite: bool)
    ensures
        bite == (inside && !old(occupants)@.contains(who)),
        bite ==> final(occupants)@ == old(occupants)@.push(who),
        !inside && old(occupants)@.contains(who) ==> final(occupants)@ == without(old(occupants)@, who),
        !bite && !(!inside && old(occupants)@.contains(who)) ==> final(occupants)@ == old(occupants)@,
{
    let mut was_inside = false;
    let mut i: usize = 0;
    while i < occupants.len()
        invariant
            i <= occupants@.len(),
            was_inside == occupants@.take(i as int).contains(who),
        decreases occupants@.len() - i,
    {
        let ghost t0 = occupants@.take(i as int);
        let ghost t1 = occupants@.take(i as int + 1);
        proof {
            assert(t1 =~= t0.push(occupants@[i as int]));
            if occupants@[i as int] == who {
                assert(t1[i as int] == who);
            }
            if t1.contains(who) && occupants@[i as int] != who {
                let k = choose|k: int| 0 <= k < t1.len() && t1[k] == who;
                assert(t0[k] == who);
            }
            if t0.contains(who) {
                let k = choose|k: int| 0 <= k < t0.len() && t0[k] == who;
                assert(t1[k] == who);
            }
        }
        if occupants[i] == who {
            was_inside = true;
        }
        i = i + 1;
    }
    proof {
        assert(occupants@.take(occupants@.len() as int) =~= occupants@);
    }
    if inside && !was_inside {
        occupants.push(who);
        true
    } else if !inside && was_inside {
        let ghost before = occupants@;
        let mut kept: Vec<EntityId> = Vec::new();
        let mut j: usize = 0;
        while j < occupants.len()
            invariant
                j <= occupants@.len(),
                occupants@ == before,
                kept@ == without(before.take(j as int), who),
            decreases occupants@.len() - j,
        {
            let e = occupants[j];
            proof {
                assert(before.take(j as int + 1).drop_last() =~= before.take(j as int));
            }
            if e != who {
                kept.push(e);
            }
            j = j + 1;
        }
        proof {
            assert(before.take(before.len() as int) =~= before);
        }
        *occupants = kept;
        false
    } else {
        false
    }
}


/// Open a battle against encounter `enemy_id`: the player, the allies in
/// order and the enemy, already on the field, become the roster of the
/// battle and of the turn manager, and no turn is queued yet.
pub fn start_battle(
    battle: &mut BattleState,
    tm: &mut TurnManager,
    order: &mut TurnOrder,
    enemy_id: u32,
    player: EntityId,
    allies: &Vec<EntityId>,
    enemy: EntityId,
)
    ensures
        final(battle).active,
        final(battle).enemy_id == Some(enemy_id),
        final(battle).participants@ == seq![player] + allies@ + seq![enemy],
        final(tm).participants@ == final(battle).participants@,
        final(tm).turn_threshold == old(tm).turn_threshold,
        final(tm).maximum_value == old(tm).maximum_value,
        final(order).queue@.len() == 0,
{
    let mut participants: Vec<EntityId> = vec![player];
    let mut i: usize = 0;
    while i < allies.len()
        invariant
            i <= allies@.len(),
            participants@ == seq![player] + allies@.take(i as int),
        decreases allies.len() - i,
    {
        participants.push(allies[i]);
        i = i + 1;
        proof {
            assert(participants@ =~= seq![player] + allies@.take(i as int));
        }
    }
    participants.push(enemy);
    proof {
        assert(allies@.take(allies@.len() as int) =~= allies@);
        assert(participants@ =~= seq![player] + allies@ + seq![enemy]);
    }
    battle.active = true;
    battle.enemy_id = Some(enemy_id);
    tm.participants = participants.clone();
    battle.participants = participants;
    order.queue.clear();
}

/// Whether one of the dead was an enemy taking part in the battle (`sides`
/// holds each dead combatant's side, `None` for one not in the battle).
pub open spec fn an_enemy_died(sides: Seq<Option<BattleSide>>) -> bool {
    exists|i: int| 0 <= i < sides.len() && #[trigger] sides[i] == Some(BattleSide::Enemy)
}

/// Whether an enemy of the battle is among the dead.
fn any_enemy(dead_sides: &Vec<Option<BattleSide>>) -> (r: bool)
    ensures
        r == an_enemy_died(dead_sides@),
{
    let mut i: usize = 0;
    while i < dead_sides.len()
        invariant
            i <= dead_sides@.len(),
            forall|k: int| 0 <= k < i ==> dead_sides@[k] != Some(BattleSide::Enemy),
        decreases dead_sides.len() - i,
    {
        let enemy = match dead_sides[i] {
            Some(BattleSide::Enemy) => true,
            _ => false,
        };
        if enemy {
            assert(dead_sides@[i as int] == Some(BattleSide::Enemy));
            return true;
        }
        i = i + 1;
    }
    false
}

/// The battle ends when an enemy dies: every participant is to be
/// despawned (returned, in roster order), the rosters and the queue empty,
/// and the battle closes. With no enemy among the dead, or no battle on,
/// nothing changes and nobody is despawned.
pub fn end_battle_on_death(
    battle: &mut BattleState,
    tm: &mut TurnManager,
    order: &mut TurnOrder,
    dead_sides: &Vec<Option<BattleSide>>,
) -> (despawned: Vec<EntityId>)
    ensures
        old(battle).active && an_enemy_died(dead_sides@) ==> {
            &&& despawned@ == old(battle).participants@
            &&& !final(battle).active
            &&& final(battle).enemy_id is None
            &&& final(battle).participants@.len() == 0
            &&& final(tm).participants@.len() == 0
            &&& final(tm).turn_threshold == old(tm).turn_threshold
            &&& final(tm).maximum_value == old(tm).maximum_value
            &&& final(order).queue@.len() == 0
        },
        !(old(battle).active && an_enemy_died(dead_sides@)) ==> {
            &&& despawned@.len() == 0
            &&& final(battle).active == old(battle).active
            &&& final(battle).enemy_id == old(battle).enemy_id
            &&& final(battle).participants@ == old(battle).participants@
            &&& final(tm).participants@ == old(tm).participants@
            &&& final(tm).turn_threshold == old(tm).turn_threshold
            &&& final(tm).maximum_value == old(tm).maximum_value
            &&& final(order).queue@ == old(order).queue@
        },
{
    if !battle.active {
        return Vec::new();
    }
    let over = any_enemy(dead_sides);
    if !over {
        return Vec::new();
    }
    let mut despawned: Vec<EntityId> = Vec::new();
    std::mem::swap(&mut despawned, &mut battle.participants);
    tm.participants = Vec::new();
    order.queue.clear();
    battle.active = false;
    battle.enemy_id = None;
    despawned
}

/// An item and how many of it drop.
#[derive(Clone, Copy, Debug, PartialEq, Eq, Structural)]
pub struct LootItem {
    pub id: u16,
    pub quantity: u32,
}

/// Experience awarded to a combatant.
#[derive(Clone, Copy, Debug, PartialEq, Eq, Structural)]
pub struct XpAward {
    pub recipient: EntityId,
    pub amount: u32,
}

/// What a fallen enemy leaves: its loot and the experience it is worth.
#[derive(Clone, Debug)]
pub struct EnemyDeathBehavior {
    pub xp_reward: u32,
    pub loot_table: Vec<LootItem>,
}

impl EnemyDeathBehavior {
    /// A fallen enemy leaves the turn roster, drops its whole loot table,
    /// and grants its experience to its killer, if there is one.
    pub fn on_death(&self, participants: &mut Vec<EntityId>, who: EntityId, killer: Option<EntityId>) -> (r: (
        Vec<LootItem>,
        Option<XpAward>,
    ))
        ensures
            final(participants)@ == without(old(participants)@, who),
            r.0@ == self.loot_table@,
            r.1 == match killer {
                Some(k) => Some(XpAward { recipient: k, amount: self.xp_reward }),
                None => None::<XpAward>,
            },
    {
        leave_roster(participants, who);
        let award = match killer {
            Some(k) => Some(XpAward { recipient: k, amount: self.xp_reward }),
            None => None,
        };
        (self.loot_table.clone(), award)
    }
}

/// `s` without `who`, in order.
fn leave_roster(participants: &mut Vec<EntityId>, who: EntityId)
    ensures
        final(participants)@ == without(old(participants)@, who),
{
    let ghost before = participants@;
    let mut kept: Vec<EntityId> = Vec::new();
    let mut i: usize = 0;
    while i < participants.len()
        invariant
            i <= participants@.len(),
            participants@ == before,
            kept@ == without(before.take(i as int), who),
        decreases participants@.len() - i,
    {
        let e = participants[i];
        proof {
            assert(before.take(i as int + 1).drop_last() =~= before.take(i as int));
        }
        if e != who {
            kept.push(e);
        }
        i = i + 1;
    }
    proof {
        assert(before.take(before.len() as int) =~= before);
    }
    *participants = kept;
}

/// A fallen ally leaves the turn roster; nothing drops.
pub fn on_ally_death(participants: &mut Vec<EntityId>, who: EntityId)
    ensures
        final(participants)@ == without(old(participants)@, who),
{
    leave_roster(participants, who);
}

} // verus!
