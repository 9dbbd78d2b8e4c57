use bevy_game::resurrection::{
    enqueue_resurrection, resurrect_if_ready, resurrection_debuffs, AwaitingResurrection, ResurrectionDebuff,
    ResurrectionRating, ResurrectionStanding,
};
use bevy_game::stats::StatPool;
use bevy_game::turn_order::{TurnManager, TurnStats};

#[test]
fn turn_parameters_follow_average_speed_and_level() {
    let mut tm = TurnManager { participants: vec![1, 2, 3], turn_threshold: 0, maximum_value: 0 };
    tm.recompute_params(&vec![
        Some(TurnStats { speed: 10, level: Some(3) }),
        None,
        Some(TurnStats { speed: -4, level: None }),
    ]);
    // Average speed (10 + 0) / 2 = 5, doubled; average level (3 + 1) / 2 = 2, times 8.
    assert_eq!(tm.turn_threshold, 10);
    assert_eq!(tm.maximum_value, 16);
    tm.recompute_params(&vec![None, None, None]);
    assert_eq!(tm.turn_threshold, 100);
    assert_eq!(tm.maximum_value, 10);
}

#[test]
fn each_full_threshold_is_a_turn() {
    let tm = TurnManager { participants: vec![7, 8, 9], turn_threshold: 10, maximum_value: 0 };
    let mut acc = vec![Some(5), None, Some(0)];
    let order = tm.turn_order_with_jitter(&mut acc, &vec![Some(18), Some(50), Some(-3)], &vec![2, 0, 9]);
    // 5 + 18 + 2 = 25: two turns, 5 banked. The middle one has no bank. 0 + 0 + 9 = 9: none.
    assert_eq!(order, vec![7, 7]);
    assert_eq!(acc, vec![Some(5), None, Some(9)]);
}

#[test]
fn jitter_stays_below_the_bound() {
    let tm = TurnManager { participants: vec![1, 2], turn_threshold: 10, maximum_value: 4 };
    for _ in 0..50 {
        let mut acc = vec![Some(0), Some(0)];
        let order = tm.calculate_turn_order(&mut acc, &vec![Some(10), Some(9)]);
        // Speed 10 plus a jitter below 4: exactly one turn, the jitter banked.
        assert_eq!(order[0], 1);
        assert!(acc[0].unwrap() < 4);
        // Speed 9: a turn only when the jitter is at least 1.
        let banked = acc[1].unwrap();
        assert!(banked < 10);
        assert_eq!(order.len(), if banked < 9 { 2 } else { 1 });
    }
}

#[test]
fn rating_tiers_and_delays() {
    assert_eq!(ResurrectionRating::from_score(200), ResurrectionRating::Exceptional);
    assert_eq!(ResurrectionRating::from_score(80), ResurrectionRating::Satisfactory);
    assert_eq!(ResurrectionRating::from_score(0), ResurrectionRating::Acceptable);
    assert_eq!(ResurrectionRating::from_score(-1), ResurrectionRating::Poor);
    assert_eq!(ResurrectionRating::from_score(-200), ResurrectionRating::Neglectful);
    assert_eq!(ResurrectionRating::from_score(-201), ResurrectionRating::Forfeited);
    assert_eq!(ResurrectionRating::Neglectful.delay_hours(), 72);
    assert_eq!(ResurrectionRating::Forfeited.delay_hours(), 168);
}

#[test]
fn a_higher_score_never_returns_later() {
    let mut last = u32::MAX;
    for score in (-400..400).step_by(7) {
        let d = ResurrectionRating::from_score(score).delay_hours();
        assert!(d <= last);
        last = d;
    }
}

#[test]
fn a_death_costs_twenty_and_schedules_the_return() {
    let mut s = ResurrectionStanding::default();
    let a = enqueue_resurrection(&mut s, None, 1000, 10);
    assert_eq!(s.score, 80);
    assert_eq!(s.deaths, 1);
    assert_eq!(a, AwaitingResurrection { ready_at_timestamp: 1010, rating: ResurrectionRating::Satisfactory });
    let a = enqueue_resurrection(&mut s, None, 1000, 10);
    assert_eq!(a.rating, ResurrectionRating::Acceptable);
    assert_eq!(a.ready_at_timestamp, 1060);
    // The deathless keep their standing.
    let before = s;
    let a = enqueue_resurrection(&mut s, Some(2), u32::MAX - 5, 10);
    assert_eq!(s, before);
    assert_eq!(a, AwaitingResurrection { ready_at_timestamp: u32::MAX, rating: ResurrectionRating::Exceptional });
}

#[test]
fn returns_restore_health_once_ready() {
    let awaiting = AwaitingResurrection { ready_at_timestamp: 50, rating: ResurrectionRating::Poor };
    let mut hp = StatPool { current: 0, base: 40 };
    assert_eq!(resurrect_if_ready(49, &awaiting, &mut hp), None);
    assert_eq!(hp.current, 0);
    let d = resurrect_if_ready(50, &awaiting, &mut hp).unwrap();
    assert_eq!(hp.current, 40);
    assert_eq!(d, vec![(ResurrectionDebuff::HauntedDreams, 1), (ResurrectionDebuff::Fragile, 1)]);
    assert!(resurrection_debuffs(ResurrectionRating::Exceptional).is_empty());
    assert_eq!(resurrection_debuffs(ResurrectionRating::Forfeited).len(), 3);
}
