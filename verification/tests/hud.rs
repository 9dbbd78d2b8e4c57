use bevy_game::ability::{AbilityEffect, DamageType, MagicSchool, Stat};
use bevy_game::hud::{
    ability_estimate, ability_groups, activate_category, choose_option, click_target, describe_action,
    describe_category, first_enemy, format_ability_label, format_item_label, handle_keyboard, handle_pointer,
    placeholder_ability, usability, ActionGates, CategoryKind, CombatHudState, FlyoutKind, HudAction,
    HudCategory, HudKeys, HudMode, HudOption, PlayerAction, PointerState, SelectedAction, Usability,
};
use bevy_game::items::InventoryItemCatalog;
use bevy_game::stats::{CombatStats, StatPool};

#[test]
fn idle_is_default() {
    assert_eq!(CombatHudState::default().mode, HudMode::Idle);
}

#[test]
fn awaiting_target_compares_by_action() {
    let a = HudMode::AwaitingTarget(SelectedAction::Ability(42));
    let b = HudMode::AwaitingTarget(SelectedAction::Ability(42));
    let c = HudMode::AwaitingTarget(SelectedAction::Ability(43));
    assert_eq!(a, b);
    assert_ne!(a, c);
    assert_ne!(a, HudMode::Idle);
}

#[test]
fn group_matches_split_magic_and_techniques() {
    let mut magic = placeholder_ability(1);
    magic.magic_cost = 500;
    magic.magic_school = MagicSchool::Onmyodo;
    let technique = placeholder_ability(2); // magic_cost 0

    let groups = ability_groups();
    let onmyodo = &groups[1];
    let techniques = &groups[4];
    assert!(onmyodo.matches(&magic));
    assert!(!onmyodo.matches(&technique));
    assert!(techniques.matches(&technique));
    assert!(!techniques.matches(&magic));
}

fn no_keys() -> HudKeys {
    HudKeys {
        escape: false,
        enter: false,
        tab: false,
        arrow_left: false,
        arrow_right: false,
        arrow_up: false,
        arrow_down: false,
        digits: [false; 9],
    }
}

fn stats_with(ap: i32, kiho: i32) -> CombatStats {
    let p = |x: i32| StatPool { current: x, base: x };
    CombatStats {
        health: p(10),
        morale: p(10),
        action_points: p(ap),
        movement: p(5),
        kiho: p(kiho),
        onmyodo: p(0),
        yokaijutsu: p(0),
        kamishin: p(0),
        lethality: p(1),
        hit: p(1),
        armor: p(1),
        speed: p(1),
        evasion: p(1),
        mind: p(1),
        health_per_rest_hour: 0,
        morale_per_rest_hour: 0,
        kiho_per_rest_hour: 0,
        onmyodo_per_rest_hour: 0,
        yokaijutsu_per_rest_hour: 0,
        kamishin_per_rest_hour: 0,
    }
}

#[test]
fn first_enemy_is_the_lowest_entity() {
    assert_eq!(first_enemy(&vec![9, 4, 7]), Some(4));
    assert_eq!(first_enemy(&vec![]), None);
}

#[test]
fn choosing_attack_waits_for_a_target_on_the_first_enemy() {
    let mut st = CombatHudState::default();
    assert_eq!(choose_option(HudAction::Attack, true, &mut st, &vec![9, 4, 7]), None);
    assert_eq!(st.mode, HudMode::AwaitingTarget(SelectedAction::Attack));
    assert_eq!(st.target, Some(4));
    // An unusable option does nothing.
    let mut st2 = CombatHudState::default();
    assert_eq!(choose_option(HudAction::Defend, false, &mut st2, &vec![1]), None);
    assert_eq!(st2, CombatHudState::default());
    assert_eq!(choose_option(HudAction::Item(1001), true, &mut st2, &vec![1]), Some(PlayerAction::UseItem(1001, None)));
}

#[test]
fn keyboard_cycles_targets_and_commits() {
    let mut st = CombatHudState::default();
    st.mode = HudMode::AwaitingTarget(SelectedAction::Ability(42));
    st.target = Some(4);
    let enemies = vec![9, 4, 7];
    let mut keys = no_keys();
    keys.arrow_right = true;
    assert_eq!(handle_keyboard(&mut st, keys, &enemies, &vec![], &vec![], true), None);
    assert_eq!(st.target, Some(7));
    assert_eq!(handle_keyboard(&mut st, keys, &enemies, &vec![], &vec![], true), None);
    assert_eq!(st.target, Some(9));
    // Wraps around.
    assert_eq!(handle_keyboard(&mut st, keys, &enemies, &vec![], &vec![], true), None);
    assert_eq!(st.target, Some(4));
    let mut back = no_keys();
    back.arrow_left = true;
    handle_keyboard(&mut st, back, &enemies, &vec![], &vec![], true);
    assert_eq!(st.target, Some(9));
    let mut enter = no_keys();
    enter.enter = true;
    assert_eq!(
        handle_keyboard(&mut st, enter, &enemies, &vec![], &vec![], true),
        Some(PlayerAction::UseAbility(42, 9))
    );
    assert_eq!(st.mode, HudMode::Idle);
    assert_eq!(st.target, None);
}

#[test]
fn escape_cancels_then_folds_the_menu() {
    let mut st = CombatHudState::default();
    st.mode = HudMode::AwaitingTarget(SelectedAction::Attack);
    st.open = Some(FlyoutKind::Skills);
    let mut esc = no_keys();
    esc.escape = true;
    handle_keyboard(&mut st, esc, &vec![1], &vec![], &vec![], true);
    assert_eq!(st.mode, HudMode::Idle);
    assert_eq!(st.open, Some(FlyoutKind::Skills));
    handle_keyboard(&mut st, esc, &vec![1], &vec![], &vec![], true);
    assert_eq!(st.open, None);
}

#[test]
fn keyboard_moves_through_an_open_menu_and_chooses() {
    let options = vec![
        HudOption { flyout: FlyoutKind::Items, index: 0, action: HudAction::Item(1001), usable: true },
        HudOption { flyout: FlyoutKind::Skills, index: 0, action: HudAction::Ability(5), usable: true },
        HudOption { flyout: FlyoutKind::Skills, index: 1, action: HudAction::Ability(6), usable: true },
    ];
    let mut st = CombatHudState::default();
    st.open = Some(FlyoutKind::Skills);
    let mut up = no_keys();
    up.arrow_up = true;
    handle_keyboard(&mut st, up, &vec![3], &options, &vec![], true);
    assert_eq!(st.opt_focus, 1);
    let mut down = no_keys();
    down.arrow_down = true;
    handle_keyboard(&mut st, down, &vec![3], &options, &vec![], true);
    assert_eq!(st.opt_focus, 0);
    let mut digit = no_keys();
    digit.digits[1] = true;
    digit.enter = true;
    assert_eq!(handle_keyboard(&mut st, digit, &vec![3], &options, &vec![], true), None);
    assert_eq!(st.opt_focus, 1);
    assert_eq!(st.mode, HudMode::AwaitingTarget(SelectedAction::Ability(6)));
    assert_eq!(st.target, Some(3));
}

#[test]
fn keyboard_activates_bar_entries() {
    let cats = vec![
        HudCategory { index: 0, kind: CategoryKind::Direct(HudAction::Attack), usable: true },
        HudCategory { index: 1, kind: CategoryKind::Open(FlyoutKind::Skills), usable: true },
        HudCategory { index: 2, kind: CategoryKind::Direct(HudAction::Wait), usable: true },
    ];
    let mut st = CombatHudState::default();
    st.cat_count = 3;
    let mut left = no_keys();
    left.arrow_left = true;
    handle_keyboard(&mut st, left, &vec![], &vec![], &cats, true);
    assert_eq!(st.cat_focus, 2);
    let mut enter = no_keys();
    enter.enter = true;
    assert_eq!(handle_keyboard(&mut st, enter, &vec![], &vec![], &cats, true), Some(PlayerAction::Wait));
    // Without the actor's stats nothing is activated.
    let mut st2 = CombatHudState::default();
    st2.cat_count = 3;
    st2.cat_focus = 1;
    assert_eq!(handle_keyboard(&mut st2, enter, &vec![], &vec![], &cats, false), None);
    assert_eq!(st2.open, None);
    handle_keyboard(&mut st2, enter, &vec![], &vec![], &cats, true);
    assert_eq!(st2.open, Some(FlyoutKind::Skills));
    assert_eq!(st2.opt_focus, 0);
}

#[test]
fn menu_entries_toggle_their_menu() {
    let mut st = CombatHudState::default();
    activate_category(CategoryKind::Open(FlyoutKind::Items), true, &mut st, &vec![]);
    assert_eq!(st.open, Some(FlyoutKind::Items));
    activate_category(CategoryKind::Open(FlyoutKind::Items), true, &mut st, &vec![]);
    assert_eq!(st.open, None);
}

#[test]
fn pointer_hover_focuses_and_press_chooses() {
    let mut st = CombatHudState::default();
    let opt = HudOption { flyout: FlyoutKind::Items, index: 2, action: HudAction::Item(7), usable: true };
    let cat = HudCategory { index: 1, kind: CategoryKind::Direct(HudAction::Defend), usable: true };
    let out = handle_pointer(
        &mut st,
        &vec![(cat, PointerState::Hovered)],
        &vec![(opt, PointerState::Pressed)],
        &vec![],
        true,
    );
    assert_eq!(out, vec![PlayerAction::UseItem(7, None)]);
    assert_eq!(st.cat_focus, 1);
    assert_eq!(st.open, Some(FlyoutKind::Items));
    assert_eq!(st.opt_focus, 2);
    // Not while a target is awaited.
    st.mode = HudMode::AwaitingTarget(SelectedAction::Attack);
    let out = handle_pointer(&mut st, &vec![(cat, PointerState::Pressed)], &vec![], &vec![], true);
    assert!(out.is_empty());
}

#[test]
fn right_click_cancels_and_left_click_commits() {
    let mut st = CombatHudState::default();
    st.mode = HudMode::AwaitingTarget(SelectedAction::Attack);
    st.target = Some(5);
    assert_eq!(click_target(&mut st, false, None), None);
    assert_eq!(st.target, Some(5));
    assert_eq!(click_target(&mut st, false, Some(8)), Some(PlayerAction::Attack(8)));
    assert_eq!(st.mode, HudMode::Idle);
    st.mode = HudMode::AwaitingTarget(SelectedAction::Attack);
    assert_eq!(click_target(&mut st, true, Some(8)), None);
    assert_eq!(st.mode, HudMode::Idle);
    assert_eq!(st.target, None);
}

#[test]
fn ability_labels_show_their_costs() {
    let mut a = placeholder_ability(3);
    assert_eq!(a.name, "Ability 3");
    assert_eq!(format_ability_label(&a), "Ability 3");
    a.action_point_cost = 2;
    a.magic_cost = 450; // 4.5 rounds half to even
    a.cooldown = 3;
    assert_eq!(format_ability_label(&a), "Ability 3   [2 AP · 4 Ki · CD 3]");
    a.magic_cost = 551;
    a.magic_school = MagicSchool::Yokaijutsu;
    a.action_point_cost = 0;
    a.cooldown = 0;
    assert_eq!(format_ability_label(&a), "Ability 3   [6 Yō]");
}

#[test]
fn item_labels_show_cost_and_effect() {
    let cat = InventoryItemCatalog::new();
    assert_eq!(format_item_label(&cat.items[0], 1), "Field Medicine   [1 AP · heal 35]");
}

#[test]
fn estimates_show_the_first_rolled_amount() {
    let mut a = placeholder_ability(1);
    assert_eq!(ability_estimate(&a), "");
    a.effects.push(AbilityEffect::RemoveStatus { kind: 3 });
    a.effects.push(AbilityEffect::Damage {
        floor: 4,
        ceiling: 9,
        damage_type: DamageType::Fire,
        scaled_with: Stat::Lethality,
        defended_with: Stat::Armor,
        amplify_low_morale: 0,
    });
    a.effects.push(AbilityEffect::Heal { floor: 1, ceiling: 2, scaled_with: Stat::Mind });
    assert_eq!(ability_estimate(&a), "≈4–9 dmg");
}

#[test]
fn usability_checks_gates_then_costs() {
    let open = ActionGates { block_attacks: false, block_items: false, block_magic_abilities: false };
    let stats = stats_with(1, 300);
    let u = usability(HudAction::Attack, open, &stats, None, 0, 2, 1);
    assert!(!u.enabled);
    assert_eq!(u.reason.as_deref(), Some("Needs 2 AP"));
    let u = usability(HudAction::Item(1), open, &stats, None, 0, 2, 1);
    assert!(u.enabled);
    assert_eq!(u.reason, None);
    let terrified = ActionGates { block_attacks: true, block_items: false, block_magic_abilities: false };
    let u = usability(HudAction::Wait, terrified, &stats, None, 0, 2, 1);
    assert!(u.enabled);
    let u = usability(HudAction::Item(1), terrified, &stats, None, 0, 2, 1);
    assert_eq!(u.reason.as_deref(), Some("Can't act (Terrified)"));
    let mut spell = placeholder_ability(9);
    spell.magic_cost = 400;
    spell.action_point_cost = 1;
    let u = usability(HudAction::Ability(9), open, &stats, Some(&spell), 450, 2, 1);
    assert_eq!(u.reason.as_deref(), Some("Needs 4 Ki"));
    let silenced = ActionGates { block_attacks: false, block_items: true, block_magic_abilities: true };
    let u = usability(HudAction::Ability(9), silenced, &stats, Some(&spell), 100, 2, 1);
    assert_eq!(u.reason.as_deref(), Some("Magic blocked (Silenced)"));
    let u = usability(HudAction::Ability(9), open, &stats, Some(&spell), 300, 2, 1);
    assert!(u.enabled);
}

#[test]
fn hints_describe_actions_and_menus() {
    let cat = InventoryItemCatalog::new();
    let ok = Usability { enabled: true, reason: None };
    assert_eq!(describe_action(HudAction::Item(1001), &ok, Some(&cat), None), "Field Medicine: restore 35 health.");
    assert_eq!(describe_action(HudAction::Item(5), &ok, Some(&cat), None), "Use item.");
    let blocked = Usability { enabled: false, reason: Some("Needs 2 AP".to_string()) };
    assert_eq!(
        describe_action(HudAction::Attack, &blocked, None, None),
        "⚠ Needs 2 AP — Basic weapon attack on one enemy."
    );
    let a = placeholder_ability(4);
    assert_eq!(describe_action(HudAction::Ability(4), &ok, None, Some(&a)), "Ability 4.");
    assert_eq!(
        describe_category(CategoryKind::Open(FlyoutKind::Skills), &ok, None, None),
        "Skills — abilities by school. Enter / ↑ to open."
    );
}
