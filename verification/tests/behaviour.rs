use bevy_game::ability::{Ability, AbilityEffect, AbilityShape, DamageType, MagicSchool, Stat};
use bevy_game::ability_tree::AbilityTree;
use bevy_game::ai_decision::{
    expected_damage, sort_sides, tick, AIParameters, ActorSnapshot, AiAction, BattleSide, BtContext, BtNode, BtStatus, TargetFocus,
};
use bevy_game::position::Position;

fn snap(entity: u64, side: BattleSide, hp: u8, x: i32) -> ActorSnapshot {
    ActorSnapshot {
        entity,
        side,
        hp_percent: hp,
        magic_percent: 50,
        action_points: 3,
        abilities: vec![],
        params: AIParameters::default(),
        position: Position { x, y: 0 },
    }
}

fn ability(id: u16, effects: Vec<AbilityEffect>, ap: i32) -> Ability {
    Ability {
        id,
        next_id: None,
        name: format!("A{id}"),
        health_cost: 0,
        magic_cost: 0,
        magic_school: MagicSchool::Kiho,
        element: None,
        action_point_cost: ap,
        cooldown: 0,
        description: String::new(),
        effects,
        shape: AbilityShape::Select,
        duration: 0,
        targets: 1,
    }
}

fn damage(floor: u32, ceiling: u32) -> AbilityEffect {
    AbilityEffect::Damage {
        floor,
        ceiling,
        damage_type: DamageType::Physical,
        scaled_with: Stat::Lethality,
        defended_with: Stat::Armor,
        amplify_low_morale: 0,
    }
}

fn context<'a>(actor: ActorSnapshot, tree: Option<&'a AbilityTree>) -> BtContext<'a> {
    BtContext {
        actor,
        allies: vec![snap(20, BattleSide::Ally, 60, 0), snap(21, BattleSide::Ally, 30, 0)],
        enemies: vec![snap(30, BattleSide::Enemy, 80, 5), snap(31, BattleSide::Enemy, 40, 9), snap(32, BattleSide::Enemy, 40, 2)],
        ability_tree: tree,
        decision: None,
    }
}

#[test]
fn focus_picks_lowest_hp_first_of_equals_and_closest() {
    let ctx = context(snap(1, BattleSide::Enemy, 100, 0), None);
    assert_eq!(ctx.target_for_focus(TargetFocus::LowestHp).unwrap().entity, 31);
    assert_eq!(ctx.target_for_focus(TargetFocus::HighestHp).unwrap().entity, 30);
    assert_eq!(ctx.target_for_focus(TargetFocus::Closest).unwrap().entity, 32);
    assert_eq!(ctx.target_for_focus(TargetFocus::Furthest).unwrap().entity, 31);
    assert_eq!(ctx.weakest_ally().unwrap().entity, 21);
}

#[test]
fn panicking_actor_defends_otherwise_attacks() {
    let tree = BtNode::Selector(vec![
        BtNode::Sequence(vec![BtNode::InPanic, BtNode::Defend]),
        BtNode::BasicAttack,
    ]);
    let mut draws = Vec::new();
    let mut calm = context(snap(1, BattleSide::Enemy, 90, 0), None);
    assert_eq!(tick(&tree, &mut calm, &mut draws), BtStatus::Success);
    assert_eq!(calm.decision, Some(AiAction::Attack { target: 31 }));
    let mut scared = context(snap(1, BattleSide::Enemy, 20, 0), None);
    assert_eq!(tick(&tree, &mut scared, &mut draws), BtStatus::Success);
    assert_eq!(scared.decision, Some(AiAction::Defend));
    assert!(draws.is_empty());
}

#[test]
fn inverter_and_always_succeed_decorate_their_child() {
    let mut draws = Vec::new();
    let mut ctx = context(snap(1, BattleSide::Enemy, 90, 0), None);
    let inv = BtNode::Inverter(Box::new(BtNode::HpBelow { percent: 50 }));
    assert_eq!(tick(&inv, &mut ctx, &mut draws), BtStatus::Success);
    let inv2 = BtNode::Inverter(Box::new(BtNode::HpAbove { percent: 50 }));
    assert_eq!(tick(&inv2, &mut ctx, &mut draws), BtStatus::Failure);
    let always = BtNode::AlwaysSucceed(Box::new(BtNode::HasAbility { id: 9 }));
    assert_eq!(tick(&always, &mut ctx, &mut draws), BtStatus::Success);
    // Conditions record no decision.
    assert_eq!(ctx.decision, None);
}

#[test]
fn empty_composites() {
    let mut draws = Vec::new();
    let mut ctx = context(snap(1, BattleSide::Enemy, 90, 0), None);
    assert_eq!(tick(&BtNode::Selector(vec![]), &mut ctx, &mut draws), BtStatus::Failure);
    assert_eq!(tick(&BtNode::Sequence(vec![]), &mut ctx, &mut draws), BtStatus::Success);
    assert_eq!(tick(&BtNode::Random(vec![]), &mut ctx, &mut draws), BtStatus::Failure);
}

#[test]
fn chance_and_random_draw_numbers() {
    let mut draws = Vec::new();
    let mut ctx = context(snap(1, BattleSide::Enemy, 90, 0), None);
    assert_eq!(tick(&BtNode::Chance { percent: 100 }, &mut ctx, &mut draws), BtStatus::Success);
    assert_eq!(tick(&BtNode::Chance { percent: 0 }, &mut ctx, &mut draws), BtStatus::Failure);
    assert_eq!(draws.len(), 2);
    assert!(draws.iter().all(|d| *d < 100));
    let rand = BtNode::Random(vec![(0, BtNode::Wait), (5, BtNode::Defend)]);
    assert_eq!(tick(&rand, &mut ctx, &mut draws), BtStatus::Success);
    assert_eq!(ctx.decision, Some(AiAction::Defend));
    assert_eq!(draws.len(), 3);
    assert!(draws[2] < 5);
}

#[test]
fn healer_heals_the_weakest_ally_and_striker_picks_the_best_hit() {
    let mut tree = AbilityTree::new();
    tree.insert(ability(100, vec![AbilityEffect::Heal { floor: 1, ceiling: 5, scaled_with: Stat::Mind }], 1));
    tree.insert(ability(101, vec![damage(2, 4)], 1));
    tree.insert(ability(102, vec![damage(10, 20)], 5));
    tree.insert(ability(103, vec![damage(6, 8)], 2));
    let mut actor = snap(1, BattleSide::Enemy, 90, 0);
    actor.abilities = vec![101, 102, 103, 100];
    let mut draws = Vec::new();
    let mut ctx = context(actor.clone(), Some(&tree));
    assert_eq!(tick(&BtNode::UseFirstHealingAbility, &mut ctx, &mut draws), BtStatus::Success);
    assert_eq!(ctx.decision, Some(AiAction::Ability { ability_id: 100, target: 21 }));
    let mut ctx = context(actor, Some(&tree));
    assert_eq!(tick(&BtNode::UseHighestDamageAbility, &mut ctx, &mut draws), BtStatus::Success);
    // 102 is the strongest but costs 5 action points; 103 (mid 7) wins.
    assert_eq!(ctx.decision, Some(AiAction::Ability { ability_id: 103, target: 31 }));
}

#[test]
fn expected_damage_sums_range_middles() {
    let a = ability(1, vec![damage(2, 5), AbilityEffect::Heal { floor: 1, ceiling: 9, scaled_with: Stat::Mind }, damage(10, 20)], 0);
    assert_eq!(expected_damage(&a), 3 + 15);
}

#[test]
fn ability_tree_finds_what_was_inserted() {
    let mut tree = AbilityTree::new();
    assert!(tree.find(5).is_none());
    tree.insert(ability(5, vec![], 0));
    tree.insert(ability(2, vec![], 0));
    tree.insert(ability(9, vec![], 1));
    tree.insert(ability(5, vec![], 3));
    assert_eq!(tree.find(5).unwrap().action_point_cost, 3);
    assert_eq!(tree.find(9).unwrap().id, 9);
    let ids: Vec<u16> = tree.traverse_all().iter().map(|a| a.id).collect();
    assert_eq!(ids, vec![5, 2, 9]);
}

#[test]
fn find_all_level_lists_that_levels_abilities() {
    let mut tree = AbilityTree::new();
    tree.insert(ability(4096, vec![], 0)); // level 2
    tree.insert(ability(2048, vec![], 0)); // level 1
    tree.insert(ability(4097, vec![], 0)); // level 2
    tree.insert(ability(2049, vec![], 0)); // level 1
    let two = tree.find_all_level(2).unwrap();
    let mut ids: Vec<u16> = two.iter().map(|a| a.id).collect();
    ids.sort();
    assert_eq!(ids, vec![4096, 4097]);
    let one = tree.find_all_level(1).unwrap();
    assert!(one.iter().all(|a| a.get_level() == 1));
    assert_eq!(one.len(), 2);
    assert!(tree.find_all_level(0).is_none());
    assert_eq!(tree.find(4096).unwrap().get_level(), 2);
    assert_eq!(tree.find(4096).unwrap().get_sub_id(), 0);
}

#[test]
fn combatants_sort_into_allies_and_enemies() {
    let all = vec![
        snap(1, BattleSide::Enemy, 50, 0),
        snap(2, BattleSide::Ally, 60, 1),
        snap(3, BattleSide::Enemy, 70, 2),
        snap(4, BattleSide::Enemy, 80, 3),
    ];
    let (allies, enemies) = sort_sides(3, BattleSide::Enemy, all);
    assert_eq!(allies.iter().map(|s| s.entity).collect::<Vec<_>>(), vec![1, 4]);
    assert_eq!(enemies.iter().map(|s| s.entity).collect::<Vec<_>>(), vec![2]);
}
