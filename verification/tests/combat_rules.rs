use bevy_game::ai_decision::BattleSide;
use bevy_game::combat_rules::{
    apply_damage_to_health, award_xp, decode_damage_signal, encode_damage_signal, signal_hit, DamageSignal, class_turn_start_regen, cleric_blessing_target,
    dodge_chance_percent, drain_morale, fire_when_ally_damaged, fire_when_attacked,
    magic_distribution_within_budget, mitigate_damage, necromancer_drain, respec,
    samurai_resolve_holds, tick_reaction_cooldowns, AttributePointPool, BlessingCandidate, ExtraHp,
    GrowthAttributes, MagicDistribution, Reaction, ReactionTrigger,
};
use bevy_game::stats::{CombatStats, StatPool};

fn pool(current: i32, base: i32) -> StatPool<i32> {
    StatPool { current, base }
}

fn blank_stats() -> CombatStats {
    CombatStats {
        health: pool(40, 50),
        morale: pool(10, 20),
        action_points: pool(5, 5),
        movement: pool(5, 5),
        kiho: pool(250, 300),
        onmyodo: pool(280, 300),
        yokaijutsu: pool(0, 0),
        kamishin: pool(0, 0),
        lethality: pool(0, 0),
        hit: pool(0, 0),
        armor: pool(0, 0),
        speed: pool(0, 0),
        evasion: pool(0, 0),
        mind: pool(0, 0),
        health_per_rest_hour: 0,
        morale_per_rest_hour: 0,
        kiho_per_rest_hour: 0,
        onmyodo_per_rest_hour: 0,
        yokaijutsu_per_rest_hour: 0,
        kamishin_per_rest_hour: 0,
    }
}

fn attrs(spirit: u8, d: [u8; 4]) -> GrowthAttributes {
    GrowthAttributes {
        vitality: 2,
        endurance: 1,
        spirit,
        power: 3,
        control: 0,
        celerity: 0,
        reflex: 1,
        insight: 0,
        resolve: 0,
        magic_distribution: MagicDistribution {
            kiho: d[0],
            onmyodo: d[1],
            yokaijutsu: d[2],
            kamishin: d[3],
        },
    }
}

#[test]
fn cooldowns_tick_down_and_stop_at_zero() {
    let mut rs = vec![
        Reaction {
            trigger: ReactionTrigger::WhenAttacked,
            ability_id: 1,
            speed_cost: 2,
            cooldown_turns: Some(2),
            cooldown_remaining: 2,
        },
        Reaction {
            trigger: ReactionTrigger::WhenAttacked,
            ability_id: 2,
            speed_cost: 2,
            cooldown_turns: None,
            cooldown_remaining: 0,
        },
    ];
    tick_reaction_cooldowns(&mut rs);
    assert_eq!(rs[0].cooldown_remaining, 1);
    assert_eq!(rs[1].cooldown_remaining, 0);
}

#[test]
fn attacked_fires_first_ready_affordable_reaction() {
    let mut rs = vec![
        Reaction {
            trigger: ReactionTrigger::WhenAttacked,
            ability_id: 7,
            speed_cost: 9,
            cooldown_turns: Some(1),
            cooldown_remaining: 0,
        },
        Reaction {
            trigger: ReactionTrigger::WhenAllyDamaged { range: 30 },
            ability_id: 8,
            speed_cost: 1,
            cooldown_turns: Some(1),
            cooldown_remaining: 0,
        },
        Reaction {
            trigger: ReactionTrigger::WhenAttacked,
            ability_id: 9,
            speed_cost: 3,
            cooldown_turns: Some(2),
            cooldown_remaining: 0,
        },
    ];
    let mut acc: u32 = 5;
    let fired = fire_when_attacked(1, 2, &mut rs, &mut acc).expect("a reaction fires");
    assert_eq!(fired.ability_id, 9);
    assert_eq!(fired.reactor, 1);
    assert_eq!(fired.catalyst, Some(2));
    assert_eq!(acc, 2);
    assert_eq!(rs[2].cooldown_remaining, 2);
    assert_eq!(rs[0].cooldown_remaining, 0);
    // Now nothing can fire: the first costs too much, the third is cooling down.
    assert!(fire_when_attacked(1, 2, &mut rs, &mut acc).is_none());
    assert_eq!(acc, 2);
}

#[test]
fn ally_damaged_respects_range() {
    let mut rs = vec![Reaction {
        trigger: ReactionTrigger::WhenAllyDamaged { range: 30 },
        ability_id: 4,
        speed_cost: 1,
        cooldown_turns: None,
        cooldown_remaining: 0,
    }];
    let mut acc: u32 = 3;
    assert!(fire_when_ally_damaged(1, 2, 31, &mut rs, &mut acc).is_none());
    assert_eq!(acc, 3);
    let fired = fire_when_ally_damaged(1, 2, 30, &mut rs, &mut acc).expect("in range");
    assert_eq!(fired.ability_id, 4);
    assert_eq!(acc, 2);
}

#[test]
fn award_xp_reads_level_from_high_bits() {
    let mut xp: u32 = 0;
    assert_eq!(award_xp(&mut xp, 3 << 16), 3);
    assert_eq!(xp, 3 << 16);
    assert_eq!(award_xp(&mut xp, 100), 3);
    let mut big: u32 = 40 << 16;
    assert_eq!(award_xp(&mut big, 0), 30);
}

#[test]
fn blessing_picks_most_wounded_ally() {
    let cs = vec![
        BlessingCandidate { entity: 1, side: BattleSide::Ally, health: pool(45, 50) },
        BlessingCandidate { entity: 2, side: BattleSide::Enemy, health: pool(1, 50) },
        BlessingCandidate { entity: 3, side: BattleSide::Ally, health: pool(30, 50) },
        BlessingCandidate { entity: 4, side: BattleSide::Ally, health: pool(0, 50) },
        BlessingCandidate { entity: 5, side: BattleSide::Ally, health: pool(30, 50) },
    ];
    assert_eq!(cleric_blessing_target(BattleSide::Ally, &cs), Some(3));
    assert_eq!(cleric_blessing_target(BattleSide::Enemy, &cs), Some(2));
    let healthy = vec![BlessingCandidate { entity: 1, side: BattleSide::Ally, health: pool(50, 50) }];
    assert_eq!(cleric_blessing_target(BattleSide::Ally, &healthy), None);
}

#[test]
fn necromancer_drains_a_third_at_least_one() {
    assert_eq!(necromancer_drain(0), None);
    assert_eq!(necromancer_drain(-4), None);
    assert_eq!(necromancer_drain(2), Some(1));
    assert_eq!(necromancer_drain(9), Some(3));
    assert_eq!(necromancer_drain(10), Some(3));
}

#[test]
fn samurai_resolve_needs_sixty_percent_morale() {
    assert!(samurai_resolve_holds(pool(6, 10)));
    assert!(!samurai_resolve_holds(pool(5, 10)));
    assert!(!samurai_resolve_holds(pool(0, 0)));
    assert!(!samurai_resolve_holds(pool(-3, 10)));
}

#[test]
fn class_regen_caps_at_ceiling() {
    let mut s = blank_stats();
    class_turn_start_regen(&mut s, true, true, true);
    assert_eq!(s.kiho.current, 300);
    assert_eq!(s.onmyodo.current, 300);
    assert_eq!(s.morale.current, 14);
    let mut t = blank_stats();
    class_turn_start_regen(&mut t, false, false, false);
    assert_eq!(t, blank_stats());
}

#[test]
fn dodge_chance_is_clamped() {
    assert_eq!(dodge_chance_percent(-5), 0);
    assert_eq!(dodge_chance_percent(20), 20);
    assert_eq!(dodge_chance_percent(90), 50);
}

#[test]
fn mitigation_order_dodge_guard_shield() {
    let mut none: Option<ExtraHp> = None;
    assert_eq!(mitigate_damage(10, true, true, false, &mut none), 0);
    assert_eq!(mitigate_damage(10, false, false, true, &mut none), 7);
    assert_eq!(mitigate_damage(2, false, false, true, &mut none), 0);
    let mut shield = Some(ExtraHp { current: 4, max: 10 });
    assert_eq!(mitigate_damage(10, false, false, true, &mut shield), 3);
    assert_eq!(shield, Some(ExtraHp { current: 0, max: 10 }));
    let mut big = Some(ExtraHp { current: 20, max: 20 });
    assert_eq!(mitigate_damage(8, false, false, false, &mut big), 0);
    assert_eq!(big, Some(ExtraHp { current: 12, max: 20 }));
    assert_eq!(mitigate_damage(-3, false, false, true, &mut big), -3);
}

#[test]
fn damage_to_health_reports_taken_and_death() {
    let mut h = pool(10, 20);
    assert_eq!(apply_damage_to_health(&mut h, 4), (4, false));
    assert_eq!(h.current, 6);
    assert_eq!(apply_damage_to_health(&mut h, 6), (6, true));
    assert_eq!(h.current, 0);
    let mut low = pool(5, 20);
    assert_eq!(apply_damage_to_health(&mut low, i32::MAX), (5, true));
    assert_eq!(low.current, 0);
    let mut healed = pool(5, 20);
    assert_eq!(apply_damage_to_health(&mut healed, -3), (-3, false));
    assert_eq!(healed.current, 8);
}

#[test]
fn morale_drain_adds_half_stat_and_stops_at_zero() {
    let mut m = pool(10, 20);
    drain_morale(&mut m, 3, 4);
    assert_eq!(m.current, 5);
    drain_morale(&mut m, 10, 0);
    assert_eq!(m.current, 0);
    let mut n = pool(10, 20);
    drain_morale(&mut n, 1, -5);
    assert_eq!(n.current, 10);
}

#[test]
fn distribution_budget_is_three_per_spirit() {
    assert!(magic_distribution_within_budget(&attrs(2, [3, 3, 0, 0])));
    assert!(!magic_distribution_within_budget(&attrs(2, [3, 3, 1, 0])));
    assert!(magic_distribution_within_budget(&attrs(0, [0, 0, 0, 0])));
}

#[test]
fn respec_refunds_or_keeps_pool() {
    let mut a = attrs(2, [1, 1, 1, 1]);
    let mut p = AttributePointPool { available: 1, spent: 9 };
    assert_eq!(respec(&mut a, &mut p, true), 9);
    assert_eq!(p, AttributePointPool { available: 10, spent: 0 });
    assert_eq!(a, attrs(0, [0, 0, 0, 0]).with_zero_stats());
    let mut b = attrs(2, [1, 1, 1, 1]);
    let mut q = AttributePointPool { available: 1, spent: 9 };
    assert_eq!(respec(&mut b, &mut q, false), 9);
    assert_eq!(q, AttributePointPool { available: 1, spent: 9 });
}

trait ZeroStats {
    fn with_zero_stats(self) -> Self;
}

impl ZeroStats for GrowthAttributes {
    fn with_zero_stats(self) -> Self {
        GrowthAttributes {
            vitality: 0,
            endurance: 0,
            spirit: 0,
            power: 0,
            control: 0,
            celerity: 0,
            reflex: 0,
            insight: 0,
            resolve: 0,
            magic_distribution: self.magic_distribution,
        }
    }
}

#[test]
fn damage_signals_decode_and_a_hit_kill_kills() {
    assert_eq!(decode_damage_signal(-1), Some(DamageSignal::Miss));
    assert_eq!(decode_damage_signal(-2), Some(DamageSignal::Dodge));
    assert_eq!(decode_damage_signal(-3), Some(DamageSignal::HitKill));
    assert_eq!(decode_damage_signal(-4), None);
    assert_eq!(decode_damage_signal(12), None);
    assert_eq!(encode_damage_signal(DamageSignal::HitKill), -3);
    assert_eq!(signal_hit(DamageSignal::Miss), None);
    let hit = signal_hit(DamageSignal::HitKill).unwrap();
    let mut h = pool(500, 500);
    assert_eq!(apply_damage_to_health(&mut h, hit), (500, true));
    assert_eq!(h.current, 0);
}
