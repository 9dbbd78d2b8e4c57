use bevy_game::ability::{Ability, AbilityShape, MagicSchool, Stat};
use bevy_game::ability_tree::AbilityTree;
use bevy_game::combat_rules::{reaction_attack, ReactionTrigger, ReactionTriggered};
use bevy_game::equipment::{before_attack_modifiers, EquipHook, EquipmentBonus};
use bevy_game::ai_decision::{build_snapshot, AIParameters, BattleSide};
use bevy_game::battle::{end_battle_on_death, on_ally_death, start_battle, BattleState, EnemyDeathBehavior, LootItem, XpAward};
use bevy_game::combat_rules::{apply_growth, dodge_on_roll, resolve_hit, roll_dodge, start_turn, ExtraHp, GrowthTarget};
use bevy_game::gogyo::{attune, expire_elemental_modifiers, flip_polarity, Phase};
use bevy_game::position::Position;
use bevy_game::stats::{buff_modifier, expire_modifiers, CombatStats, StatModifier, StatPool};
use bevy_game::turn_order::{TurnManager, TurnOrder};

fn pool(current: i32, base: i32) -> StatPool<i32> {
    StatPool { current, base }
}

fn stats() -> CombatStats {
    CombatStats {
        health: pool(30, 40),
        morale: pool(20, 20),
        action_points: pool(1, 7),
        movement: pool(5, 5),
        kiho: pool(150, 200),
        onmyodo: pool(0, 100),
        yokaijutsu: pool(0, 0),
        kamishin: pool(0, 0),
        lethality: pool(9, 9),
        hit: pool(0, 0),
        armor: pool(2, 2),
        speed: pool(0, 0),
        evasion: pool(0, 0),
        mind: pool(0, 0),
        health_per_rest_hour: 2,
        morale_per_rest_hour: i32::MAX - 1,
        kiho_per_rest_hour: 0,
        onmyodo_per_rest_hour: 0,
        yokaijutsu_per_rest_hour: 0,
        kamishin_per_rest_hour: 0,
    }
}

fn manager() -> TurnManager {
    TurnManager { participants: vec![], turn_threshold: 100, maximum_value: 10 }
}

#[test]
fn turns_come_off_the_front_and_advance_the_clock() {
    let mut order = TurnOrder::new();
    order.set_order(vec![3, 1, 3]);
    let mut clock: u32 = u32::MAX - 1;
    assert_eq!(order.advance_turn(&mut clock), Some(3));
    assert_eq!(clock, u32::MAX);
    assert_eq!(order.advance_turn(&mut clock), Some(1));
    assert_eq!(clock, u32::MAX);
    assert_eq!(order.start_first_turn(), Some(3));
    assert_eq!(order.advance_turn(&mut clock), None);
    assert_eq!(order.start_first_turn(), None);
}

#[test]
fn a_battle_starts_with_player_allies_enemy() {
    let mut battle = BattleState { active: false, participants: vec![], enemy_id: None };
    let mut tm = manager();
    let mut order = TurnOrder::new();
    order.set_order(vec![9]);
    start_battle(&mut battle, &mut tm, &mut order, 42, 1, &vec![2, 3], 4);
    assert!(battle.active);
    assert_eq!(battle.enemy_id, Some(42));
    assert_eq!(battle.participants, vec![1, 2, 3, 4]);
    assert_eq!(tm.participants, vec![1, 2, 3, 4]);
    assert!(order.queue.is_empty());
}

#[test]
fn an_enemy_death_ends_the_battle() {
    let mut battle = BattleState { active: true, participants: vec![1, 2, 4], enemy_id: Some(7) };
    let mut tm = TurnManager { participants: vec![1, 2, 4], turn_threshold: 100, maximum_value: 10 };
    let mut order = TurnOrder::new();
    order.set_order(vec![2, 4]);
    assert!(end_battle_on_death(&mut battle, &mut tm, &mut order, &vec![Some(BattleSide::Ally), None]).is_empty());
    assert!(battle.active);
    assert_eq!(order.queue.len(), 2);
    let gone = end_battle_on_death(&mut battle, &mut tm, &mut order, &vec![None, Some(BattleSide::Enemy)]);
    assert_eq!(gone, vec![1, 2, 4]);
    assert!(!battle.active);
    assert_eq!(battle.enemy_id, None);
    assert!(battle.participants.is_empty());
    assert!(tm.participants.is_empty());
    assert!(order.queue.is_empty());
}

#[test]
fn fallen_enemies_drop_loot_and_reward_their_killer() {
    let behaviour = EnemyDeathBehavior { xp_reward: 30, loot_table: vec![LootItem { id: 1001, quantity: 2 }] };
    let mut roster = vec![1, 5, 2];
    let (loot, xp) = behaviour.on_death(&mut roster, 5, Some(1));
    assert_eq!(roster, vec![1, 2]);
    assert_eq!(loot, vec![LootItem { id: 1001, quantity: 2 }]);
    assert_eq!(xp, Some(XpAward { recipient: 1, amount: 30 }));
    let (_, none) = behaviour.on_death(&mut roster, 2, None);
    assert_eq!(none, None);
    on_ally_death(&mut roster, 1);
    assert!(roster.is_empty());
}

#[test]
fn hits_are_mitigated_then_taken() {
    let mut shield = Some(ExtraHp { current: 2, max: 5 });
    let mut health = pool(10, 10);
    assert_eq!(resolve_hit(8, false, 40, true, &mut shield, &mut health), (3, false));
    assert_eq!(shield, Some(ExtraHp { current: 0, max: 5 }));
    assert_eq!(health.current, 7);
    let mut none = None;
    assert_eq!(resolve_hit(7, false, 0, false, &mut none, &mut health), (7, true));
    assert!(!roll_dodge(true, 0, 10));
    assert!(!roll_dodge(false, 50, 10));
    assert!(!roll_dodge(true, 50, 0));
    let dodges = (0..400).filter(|_| roll_dodge(true, 50, 10)).count();
    assert!(dodges > 100 && dodges < 300);
}

#[test]
fn scripted_turns_spend_action_points_on_attacks() {
    let mut s = stats();
    assert_eq!(start_turn(&mut s, true, 3), 2);
    assert_eq!(s.action_points, pool(1, 7));
    let mut t = stats();
    assert_eq!(start_turn(&mut t, false, 3), 0);
    assert_eq!(t.action_points, pool(7, 7));
}

#[test]
fn growth_raises_ceilings_and_rates() {
    let mut s = stats();
    apply_growth(&mut s, GrowthTarget::Health, 5);
    assert_eq!(s.health, pool(35, 45));
    apply_growth(&mut s, GrowthTarget::Kiho, 2);
    assert_eq!(s.kiho, pool(350, 400));
    apply_growth(&mut s, GrowthTarget::Armor, -5);
    assert_eq!(s.armor, pool(0, 0));
    apply_growth(&mut s, GrowthTarget::MoraleRegen, 5);
    assert_eq!(s.morale_per_rest_hour, i32::MAX);
    apply_growth(&mut s, GrowthTarget::HealthRegen, 1);
    assert_eq!(s.health_per_rest_hour, 3);
}

#[test]
fn modifiers_lapse_at_their_tick() {
    let b = buff_modifier(Stat::Lethality, 1200, u32::MAX - 2, 10);
    assert_eq!(b.expires_at_timestamp, Some(u32::MAX));
    let lasting = StatModifier { stat: Stat::Hit, multiplier: 900, expires_at_timestamp: None, source: Some(3) };
    let mut mods = vec![buff_modifier(Stat::Armor, 1100, 5, 5), lasting, buff_modifier(Stat::Mind, 1300, 5, 6)];
    expire_modifiers(&mut mods, 10);
    assert_eq!(mods.len(), 2);
    assert_eq!(mods[0], lasting);
    assert_eq!(mods[1].stat, Stat::Mind);
}

#[test]
fn attunements_and_flips_expire() {
    let mut a = Some(attune(Phase::Fire, 10, 3));
    let mut f = Some(flip_polarity(10, 5));
    expire_elemental_modifiers(&mut a, &mut f, 12);
    assert!(a.is_some() && f.is_some());
    expire_elemental_modifiers(&mut a, &mut f, 13);
    assert!(a.is_none());
    assert!(f.is_some());
    expire_elemental_modifiers(&mut a, &mut f, 15);
    assert!(f.is_none());
    assert_eq!(Phase::Water.label(), "水 Water");
    assert_eq!(Phase::Metal.kanji(), "金");
}

#[test]
fn snapshots_read_percentages() {
    let s = stats();
    let snap = build_snapshot(8, BattleSide::Enemy, &s, Some(&vec![30720]), None, Some(Position { x: 4, y: -2 }))
        .expect("alive");
    assert_eq!(snap.hp_percent, 75);
    assert_eq!(snap.magic_percent, 50);
    assert_eq!(snap.action_points, 1);
    assert_eq!(snap.abilities, vec![30720]);
    assert_eq!(snap.params, AIParameters::default());
    assert_eq!(snap.position, Position { x: 4, y: -2 });
    let mut dead = stats();
    dead.health.current = 0;
    assert!(build_snapshot(8, BattleSide::Enemy, &dead, None, None, None).is_none());
    let mut no_magic = stats();
    no_magic.kiho = pool(0, 0);
    no_magic.onmyodo = pool(0, 0);
    let snap = build_snapshot(8, BattleSide::Ally, &no_magic, None, None, None).expect("alive");
    assert_eq!(snap.magic_percent, 100);
    assert!(snap.abilities.is_empty());
}

fn plain_ability(id: u16) -> Ability {
    Ability {
        id,
        next_id: None,
        name: format!("A{id}"),
        health_cost: 0,
        magic_cost: 0,
        magic_school: MagicSchool::Kiho,
        element: None,
        action_point_cost: 1,
        cooldown: 0,
        description: String::new(),
        effects: vec![],
        shape: AbilityShape::Select,
        duration: 0,
        targets: 1,
    }
}

#[test]
fn gear_bonus_moves_stats_not_below_zero() {
    let mut s = stats();
    let b = EquipmentBonus { lethality: 3, hit: -4, armor: -9, agility: 2, mind: 1 };
    b.apply_to(&mut s);
    assert_eq!(s.lethality, pool(12, 9));
    assert_eq!(s.hit, pool(0, 0));
    assert_eq!(s.armor, pool(0, 2));
    assert_eq!(s.evasion, pool(2, 0));
    assert_eq!(s.mind, pool(1, 0));
    assert_eq!(s.health, stats().health);
}

#[test]
fn attack_hooks_leave_timed_modifiers() {
    let hooks = vec![
        EquipHook::BeforeHitFlatDamage { flat: 2 },
        EquipHook::BeforeAttackMultiplier { stat: Stat::Lethality, multiplier: 1500, duration_turns: 2 },
    ];
    let mods = before_attack_modifiers(&hooks, 77, 10);
    assert_eq!(
        mods,
        vec![StatModifier { stat: Stat::Lethality, multiplier: 1500, expires_at_timestamp: Some(12), source: Some(77) }]
    );
}

#[test]
fn reactions_strike_back_with_their_ability() {
    let mut tree = AbilityTree::new();
    tree.insert(plain_ability(300));
    let fired = ReactionTriggered { reactor: 1, trigger: ReactionTrigger::WhenAttacked, ability_id: 300, catalyst: Some(2) };
    let (attacker, target, ability) = reaction_attack(fired, &tree).expect("the ability is known");
    assert_eq!((attacker, target, ability.id), (1, 2, 300));
    let unknown = ReactionTriggered { ability_id: 301, ..fired };
    assert!(reaction_attack(unknown, &tree).is_none());
    let unprovoked = ReactionTriggered { catalyst: None, ..fired };
    assert!(reaction_attack(unprovoked, &tree).is_none());
}

#[test]
fn a_blank_combatant_has_only_action_points() {
    let s = CombatStats::blank(5);
    assert_eq!(s.action_points, pool(5, 5));
    assert_eq!(s.health, pool(0, 0));
    assert_eq!(s.kiho, pool(0, 0));
    assert_eq!(CombatStats::blank(-2).action_points, pool(0, 0));
}

#[test]
fn a_draw_below_the_dodge_chance_slips_the_hit() {
    assert!(dodge_on_roll(29, true, 30, 5));
    assert!(!dodge_on_roll(30, true, 30, 5));
    assert!(dodge_on_roll(49, true, 90, 5));
    assert!(!dodge_on_roll(50, true, 90, 5));
    assert!(!dodge_on_roll(0, false, 30, 5));
    assert!(!dodge_on_roll(0, true, 30, 0));
    assert!(!dodge_on_roll(0, true, -3, 5));
}
