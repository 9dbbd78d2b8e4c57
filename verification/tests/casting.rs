use bevy_game::ability::{
    ability_outcomes, handle_ability, Ability, AbilityEffect, AbilityOutcome, AbilityShape, DamageType,
    MagicSchool, Stat, SummonKind,
};
use bevy_game::actions::{
    finish_turn_if_needed, get_stat_value, pay_for_ability, resolve_ai_ability, resolve_player_action,
    ActionRejection, ActionResolution,
};
use bevy_game::ai_decision::BattleSide;
use bevy_game::battle::{
    aura_touches, end_obstacle_round, end_summon_turn, generic_ally_growth, generic_ally_stats,
    obstacle_preset, summoned_combat_stats, track_occupant, yokai_combat_stats, AuraEffect, AuraTargets,
    BattleState, SummonLifetime, SummonedObstacle, YokaiKind,
};
use bevy_game::combat_rules::magic_distribution_within_budget;
use bevy_game::hud::{ActionGates, PlayerAction};
use bevy_game::stats::{CombatStats, StatPool};

fn pool(current: i32, base: i32) -> StatPool<i32> {
    StatPool { current, base }
}

fn stats(ap: i32, onmyodo: i32) -> CombatStats {
    CombatStats {
        health: pool(40, 40),
        morale: pool(20, 20),
        action_points: pool(ap, 5),
        movement: pool(5, 5),
        kiho: pool(0, 0),
        onmyodo: pool(onmyodo, 1000),
        yokaijutsu: pool(0, 0),
        kamishin: pool(251, 300),
        lethality: pool(7, 7),
        hit: pool(0, 0),
        armor: pool(3, 3),
        speed: pool(0, 0),
        evasion: pool(0, 0),
        mind: pool(0, 0),
        health_per_rest_hour: 0,
        morale_per_rest_hour: 0,
        kiho_per_rest_hour: 0,
        onmyodo_per_rest_hour: 0,
        yokaijutsu_per_rest_hour: 0,
        kamishin_per_rest_hour: 0,
    }
}

fn fire_bolt(floor: u32, ceiling: u32) -> Ability {
    Ability {
        id: 2049,
        next_id: None,
        name: "Fire Bolt".to_string(),
        health_cost: 0,
        magic_cost: 300,
        magic_school: MagicSchool::Onmyodo,
        element: None,
        action_point_cost: 2,
        cooldown: 0,
        description: String::new(),
        effects: vec![
            AbilityEffect::Damage {
                floor,
                ceiling,
                damage_type: DamageType::Fire,
                scaled_with: Stat::Mind,
                defended_with: Stat::Armor,
                amplify_low_morale: 0,
            },
            AbilityEffect::Summon { kind: SummonKind::SpiritWard, lifetime_turns: 3 },
        ],
        shape: AbilityShape::Select,
        duration: 0,
        targets: 2,
    }
}

fn open_gates() -> ActionGates {
    ActionGates { block_attacks: false, block_items: false, block_magic_abilities: false }
}

#[test]
fn outcomes_follow_targets_then_effects() {
    let a = fire_bolt(5, 9);
    let out = ability_outcomes(1, &a, &vec![10, 11], 77, &vec![6, 8]);
    assert_eq!(out.len(), 5);
    assert!(matches!(out[0], AbilityOutcome::QueueDamage { attacker: 1, target: 10, amount: 6, .. }));
    assert!(matches!(out[1], AbilityOutcome::AttackIntent { attacker: 1, target: 10, ability_id: 2049, .. }));
    assert!(matches!(
        out[2],
        AbilityOutcome::Summon { summoner: 1, kind: SummonKind::SpiritWard, lifetime_turns: 3, target: Some(10) }
    ));
    assert!(matches!(out[3], AbilityOutcome::QueueDamage { target: 11, amount: 8, .. }));
    assert!(matches!(out[4], AbilityOutcome::AttackIntent { target: 11, .. }));
}

#[test]
fn rolled_amounts_stay_in_range_and_vary() {
    let a = fire_bolt(0, 1000);
    let mut seen_nonzero = false;
    for _ in 0..200 {
        let out = handle_ability(1, &a, &vec![10], 0);
        assert_eq!(out.len(), 3);
        match out[0] {
            AbilityOutcome::QueueDamage { amount, .. } => {
                assert!((0..1000).contains(&amount));
                if amount != 0 {
                    seen_nonzero = true;
                }
            }
            _ => panic!("first outcome is the hit"),
        }
    }
    assert!(seen_nonzero);
    let narrow = fire_bolt(4, 5);
    let out = handle_ability(1, &narrow, &vec![10], 0);
    assert!(matches!(out[0], AbilityOutcome::QueueDamage { amount: 4, .. }));
}

#[test]
fn paying_for_an_ability_takes_both_costs() {
    let a = fire_bolt(5, 9);
    let mut s = stats(5, 500);
    assert!(pay_for_ability(&mut s, &a, 300));
    assert_eq!(s.action_points.current, 3);
    assert_eq!(s.onmyodo.current, 200);
    assert!(!pay_for_ability(&mut s, &a, 300));
    assert_eq!(s.onmyodo.current, 200);
    assert_eq!(s.action_points.current, 3);
}

#[test]
fn player_attack_pays_and_may_end_the_turn() {
    let mut s = Some(stats(2, 0));
    let step = resolve_player_action(1, PlayerAction::Attack(9), open_gates(), &mut s, None, 0, 2, 1, 0);
    assert!(matches!(step.resolution, ActionResolution::Attack(9)));
    assert!(step.settled);
    assert!(step.end_turn);
    assert_eq!(s.unwrap().action_points.current, 0);
    let step = resolve_player_action(1, PlayerAction::Attack(9), open_gates(), &mut s, None, 0, 2, 1, 0);
    assert!(matches!(step.resolution, ActionResolution::Rejected(ActionRejection::NotEnoughActionPoints)));
    assert!(!step.settled);
    let blocked = ActionGates { block_attacks: true, ..open_gates() };
    let step = resolve_player_action(1, PlayerAction::Attack(9), blocked, &mut s, None, 0, 2, 1, 0);
    assert!(matches!(step.resolution, ActionResolution::Rejected(ActionRejection::Blocked)));
    let mut none: Option<CombatStats> = None;
    let step = resolve_player_action(1, PlayerAction::Attack(9), open_gates(), &mut none, None, 0, 2, 1, 0);
    assert!(matches!(step.resolution, ActionResolution::Rejected(ActionRejection::NoStats)));
    assert!(step.settled);
    assert!(!step.end_turn);
}

#[test]
fn player_cast_checks_tree_gates_and_costs() {
    let a = fire_bolt(5, 9);
    let mut s = Some(stats(5, 500));
    let step = resolve_player_action(1, PlayerAction::UseAbility(2049, 9), open_gates(), &mut s, None, 300, 2, 1, 0);
    assert!(matches!(step.resolution, ActionResolution::Rejected(ActionRejection::UnknownAbility)));
    let silenced = ActionGates { block_magic_abilities: true, ..open_gates() };
    let step = resolve_player_action(1, PlayerAction::UseAbility(2049, 9), silenced, &mut s, Some(&a), 300, 2, 1, 0);
    assert!(matches!(step.resolution, ActionResolution::Rejected(ActionRejection::Blocked)));
    let step = resolve_player_action(1, PlayerAction::UseAbility(2049, 9), open_gates(), &mut s, Some(&a), 900, 2, 1, 0);
    assert!(matches!(step.resolution, ActionResolution::Rejected(ActionRejection::NotEnoughMagic)));
    let step = resolve_player_action(1, PlayerAction::UseAbility(2049, 9), open_gates(), &mut s, Some(&a), 300, 2, 1, 0);
    match step.resolution {
        ActionResolution::Cast { ability_id, target, outcomes } => {
            assert_eq!(ability_id, 2049);
            assert_eq!(target, 9);
            assert_eq!(outcomes.len(), 3);
            assert!(matches!(outcomes[0], AbilityOutcome::QueueDamage { amount: 5..=8, target: 9, .. }));
        }
        _ => panic!("the cast goes through"),
    }
    assert!(step.settled);
    assert!(!step.end_turn);
    assert_eq!(s.unwrap().onmyodo.current, 200);
    assert_eq!(s.unwrap().action_points.current, 3);
}

#[test]
fn items_defend_and_wait() {
    let mut s = Some(stats(1, 0));
    let step = resolve_player_action(1, PlayerAction::UseItem(1001, None), open_gates(), &mut s, None, 0, 2, 1, 0);
    assert!(matches!(step.resolution, ActionResolution::UseItem { item_id: 1001, target: None }));
    assert!(step.end_turn);
    let silenced = ActionGates { block_items: true, ..open_gates() };
    let step = resolve_player_action(1, PlayerAction::UseItem(1001, None), silenced, &mut s, None, 0, 2, 1, 0);
    assert!(matches!(step.resolution, ActionResolution::Rejected(ActionRejection::Blocked)));
    let step = resolve_player_action(1, PlayerAction::Defend, open_gates(), &mut s, None, 0, 2, 1, 0);
    assert!(matches!(step.resolution, ActionResolution::Defend));
    assert!(step.end_turn);
    let step = resolve_player_action(1, PlayerAction::Wait, open_gates(), &mut s, None, 0, 2, 1, 0);
    assert!(matches!(step.resolution, ActionResolution::Wait));
    assert!(finish_turn_if_needed(false, &None));
    assert!(!finish_turn_if_needed(false, &Some(stats(1, 0))));
    assert!(finish_turn_if_needed(true, &Some(stats(1, 0))));
}

#[test]
fn ai_cast_is_refused_silently() {
    let a = fire_bolt(5, 9);
    let mut s = Some(stats(5, 100));
    assert!(resolve_ai_ability(1, 9, open_gates(), &mut s, Some(&a), 300, 0).is_none());
    assert_eq!(s.unwrap().onmyodo.current, 100);
    let mut t = Some(stats(5, 400));
    let out = resolve_ai_ability(1, 9, open_gates(), &mut t, Some(&a), 300, 0).expect("affordable");
    assert_eq!(out.len(), 3);
    assert_eq!(t.unwrap().onmyodo.current, 100);
    assert!(resolve_ai_ability(1, 9, open_gates(), &mut t, None, 0, 0).is_none());
}

#[test]
fn stat_values_round_magic() {
    let s = stats(4, 449);
    assert_eq!(get_stat_value(Stat::Onmyodo, Some(&s)), 4);
    assert_eq!(get_stat_value(Stat::Kamishin, Some(&s)), 3);
    assert_eq!(get_stat_value(Stat::Magic, Some(&s)), 7);
    assert_eq!(get_stat_value(Stat::Lethality, Some(&s)), 7);
    assert_eq!(get_stat_value(Stat::ActionPoints, Some(&s)), 4);
    assert_eq!(get_stat_value(Stat::Armor, None), 0);
}

#[test]
fn yokai_and_summons_have_their_blocks() {
    let onibi = yokai_combat_stats(YokaiKind::Onibi, 5);
    assert_eq!(onibi.health, pool(35, 35));
    assert_eq!(onibi.yokaijutsu, pool(600, 600));
    assert_eq!(onibi.action_points, pool(5, 5));
    assert_eq!(onibi.evasion, onibi.speed);
    let kappa = yokai_combat_stats(YokaiKind::Kappa, 5);
    assert_eq!(kappa.onmyodo, pool(400, 400));
    assert_eq!(YokaiKind::Kasha.label(), "Kasha");
    assert_eq!(YokaiKind::Onibi.behavior_profile(), "yokai_onibi");
    assert_eq!(YokaiKind::Kappa.abilities(), vec![30721]);
    let (name, shiki) = summoned_combat_stats(SummonKind::Shikigami, 4);
    assert_eq!(name, "Shikigami");
    assert_eq!(shiki.health, pool(22, 22));
    let ally = generic_ally_stats(5);
    assert_eq!(ally.health, pool(100, 100));
    assert_eq!(ally.kamishin_per_rest_hour, 15);
    assert!(magic_distribution_within_budget(&generic_ally_growth()));
}

#[test]
fn obstacle_presets_and_auras() {
    let bramble = obstacle_preset(SummonKind::ThornBramble, 3);
    assert_eq!(bramble.name, "Thorn Bramble");
    assert!(bramble.effects.passable);
    assert_eq!(bramble.effects.slow, Some(450));
    assert_eq!(bramble.effects.on_pass, Some((8, DamageType::Physical)));
    let miasma = obstacle_preset(SummonKind::HexMiasma, 3);
    let aura = miasma.aura.expect("the miasma has an aura");
    assert_eq!(aura.radius, 112);
    assert_eq!(aura.effect, AuraEffect::Status { kind: 3, tier: 1 });
    assert!(!obstacle_preset(SummonKind::SpiritWard, 3).effects.passable);
    assert!(aura_touches(AuraTargets::Enemies, BattleSide::Enemy));
    assert!(!aura_touches(AuraTargets::Enemies, BattleSide::Ally));
    assert!(aura_touches(AuraTargets::All, BattleSide::Ally));
}

#[test]
fn summons_expire_and_leave_the_roster() {
    let mut life = SummonLifetime { remaining_turns: 2 };
    let mut battle = BattleState { active: true, participants: vec![1, 7, 2, 7], enemy_id: Some(3) };
    assert!(!end_summon_turn(&mut life, &mut battle, 7));
    assert_eq!(battle.participants, vec![1, 7, 2, 7]);
    assert!(end_summon_turn(&mut life, &mut battle, 7));
    assert_eq!(battle.participants, vec![1, 2]);
    assert_eq!(life.remaining_turns, 0);
    let mut ob = SummonedObstacle { remaining_rounds: 1 };
    assert!(end_obstacle_round(&mut ob));
    assert!(end_obstacle_round(&mut ob));
    assert_eq!(ob.remaining_rounds, 0);
}

#[test]
fn occupants_are_bitten_once_on_entry() {
    let mut occ = vec![4];
    assert!(track_occupant(&mut occ, 5, true));
    assert_eq!(occ, vec![4, 5]);
    assert!(!track_occupant(&mut occ, 5, true));
    assert!(!track_occupant(&mut occ, 4, false));
    assert_eq!(occ, vec![5]);
    assert!(!track_occupant(&mut occ, 9, false));
    assert_eq!(occ, vec![5]);
}
