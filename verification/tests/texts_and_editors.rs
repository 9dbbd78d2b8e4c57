use bevy_game::dialogue_editor::{
    add_new_dialogue, seed_example, apply_choice_cmds, apply_commands, apply_load, apply_save, unique_id, validate_dialogues,
    ChoiceCmd, Dialogue, DialogueChoice, DialogueEditorState, EditorCommands,
};
use bevy_game::editor::{
    error_body, guess_mime, path_of_url, route_request, same_text, static_relative_path, EditorRoute,
    RequestMethod,
};
use bevy_game::equipment::{Equipment, EquipmentType, WeaponType};
use bevy_game::overlay::{damage_line, equipped_bonus, fmt_bonus, item_label, short_name, turn_line, BattleLog, EquipBonus};
use bevy_game::text::{append_decimal, append_decimal_u64, append_signed, append_two_digits};

fn line(id: &str, next: Option<&str>, choices: Option<Vec<(&str, &str)>>) -> Dialogue {
    Dialogue {
        id: id.to_string(),
        speaker: "Rina".to_string(),
        text: "Hello".to_string(),
        next: next.map(|s| s.to_string()),
        choices: choices.map(|cs| {
            cs.into_iter()
                .map(|(t, n)| DialogueChoice { event: 0, text: t.to_string(), next: n.to_string() })
                .collect()
        }),
    }
}

fn state(dialogues: Vec<Dialogue>) -> DialogueEditorState {
    DialogueEditorState { dialogues, selected: None, dirty: false, validation_messages: vec![] }
}

fn no_commands() -> EditorCommands {
    EditorCommands {
        validate: false,
        select: None,
        delete: None,
        edit_id: None,
        edit_speaker: None,
        edit_text: None,
        edit_next: None,
        add_choice: false,
        choice_cmds: vec![],
    }
}

fn katana(lethality: i32, hit: i32, morale: i32) -> Equipment {
    Equipment {
        id: 7,
        name: "Iron Katana".to_string(),
        equipment_type: EquipmentType::Weapon(WeaponType::Sword),
        base_price: 0,
        materials: vec![],
        lethality,
        hit,
        armor: 0,
        agility: 0,
        mind: 0,
        morale,
    }
}

#[test]
fn validation_reports_ids_references_and_orphans() {
    let ds = vec![
        line("a", Some("b"), None),
        line("b", Some("zz"), Some(vec![("go", "a"), ("lost", "nowhere")])),
        line("a", None, None),
        line("  ", None, None),
        line("c", None, None),
    ];
    let msgs = validate_dialogues(&ds);
    assert_eq!(
        msgs,
        vec![
            "Duplicate ID: a".to_string(),
            "Empty ID found".to_string(),
            "Dangling next reference from 'b' -> 'zz'".to_string(),
            "Dangling choice reference from 'b' -> 'nowhere'".to_string(),
            "Orphan dialogue (not referenced):   ".to_string(),
            "Orphan dialogue (not referenced): c".to_string(),
        ]
    );
    assert!(validate_dialogues(&vec![]).is_empty());
}

#[test]
fn unique_ids_take_the_smallest_free_number() {
    let ds = vec![line("Dlg_Seq_1", None, None), line("Dlg_Seq_3", None, None)];
    assert_eq!(unique_id(&ds, "Dlg_", "Seq_"), "Dlg_Seq_2");
    assert_eq!(unique_id(&vec![], "Dlg_", "Seq_"), "Dlg_Seq_1");
}

#[test]
fn adding_a_line_selects_it_and_marks_the_graph_changed() {
    let mut st = state(vec![line("Dlg_Seq_1", None, None)]);
    add_new_dialogue(&mut st);
    assert_eq!(st.dialogues.len(), 2);
    assert_eq!(st.dialogues[1].id, "Dlg_Seq_2");
    assert!(st.dialogues[1].speaker.is_empty());
    assert_eq!(st.selected, Some(1));
    assert!(st.dirty);
}

#[test]
fn load_and_save_outcomes() {
    let mut st = state(vec![line("x", None, None)]);
    st.dirty = true;
    st.selected = Some(0);
    apply_load(&mut st, Err("no file".to_string()));
    assert_eq!(st.validation_messages, vec!["no file".to_string()]);
    assert_eq!(st.dialogues.len(), 1);
    apply_save(&mut st, Err("disk full".to_string()));
    assert_eq!(st.validation_messages, vec!["no file".to_string(), "Failed to save: disk full".to_string()]);
    assert!(st.dirty);
    apply_save(&mut st, Ok(()));
    assert!(!st.dirty);
    apply_load(&mut st, Ok(vec![line("y", None, None), line("z", None, None)]));
    assert_eq!(st.dialogues.len(), 2);
    assert_eq!(st.selected, None);
    assert!(st.validation_messages.is_empty());
    assert!(!st.dirty);
}

#[test]
fn choice_edits_come_before_deletions_and_deletions_run_backwards() {
    let mut cs = vec![
        DialogueChoice { event: 1, text: "one".to_string(), next: "a".to_string() },
        DialogueChoice { event: 2, text: "two".to_string(), next: "b".to_string() },
        DialogueChoice { event: 3, text: "three".to_string(), next: "c".to_string() },
    ];
    let cmds = vec![
        ChoiceCmd { index: 0, new_text: None, new_event: None, new_next: None, delete: true },
        ChoiceCmd { index: 2, new_text: Some("THREE".to_string()), new_event: None, new_next: None, delete: false },
        ChoiceCmd { index: 1, new_text: None, new_event: None, new_next: None, delete: true },
    ];
    assert!(apply_choice_cmds(&mut cs, cmds));
    assert_eq!(cs.len(), 1);
    assert_eq!(cs[0].text, "three");
    let mut untouched = vec![DialogueChoice { event: 1, text: "one".to_string(), next: "a".to_string() }];
    let noop = vec![ChoiceCmd { index: 5, new_text: None, new_event: None, new_next: None, delete: true }];
    assert!(!apply_choice_cmds(&mut untouched, noop));
    assert_eq!(untouched.len(), 1);
}

#[test]
fn commands_select_delete_and_edit() {
    let mut st = state(vec![line("a", None, None), line("b", None, None), line("c", None, None)]);
    let mut cmds = no_commands();
    cmds.select = Some(2);
    cmds.delete = Some(0);
    cmds.edit_speaker = Some("Sayaka".to_string());
    cmds.add_choice = true;
    apply_commands(&mut st, cmds);
    assert_eq!(st.dialogues.len(), 2);
    assert_eq!(st.selected, Some(1));
    assert_eq!(st.dialogues[1].id, "c");
    assert_eq!(st.dialogues[1].speaker, "Sayaka");
    let choices = st.dialogues[1].choices.clone().expect("a choice was added");
    assert_eq!(choices.len(), 1);
    assert_eq!(choices[0].text, "New choice");
    assert_eq!(choices[0].next, "Dlg_Seq_1");
    assert!(st.dirty);
    let mut check = no_commands();
    check.validate = true;
    apply_commands(&mut st, check);
    assert!(!st.validation_messages.is_empty());
}

#[test]
fn routes_and_static_paths() {
    assert!(matches!(route_request(RequestMethod::Get, "/api/abilities"), EditorRoute::LoadAbilities));
    assert!(matches!(route_request(RequestMethod::Post, "/api/abilities?x=1"), EditorRoute::SaveAbilities));
    assert!(matches!(route_request(RequestMethod::Get, "/api/dialogues"), EditorRoute::LoadDialogues));
    assert!(matches!(route_request(RequestMethod::Post, "/api/dialogues"), EditorRoute::SaveDialogues));
    match route_request(RequestMethod::Get, "/css/site.css?v=2") {
        EditorRoute::Static(p) => assert_eq!(p, "/css/site.css"),
        _ => panic!("a static file"),
    }
    assert!(matches!(route_request(RequestMethod::Post, "/other"), EditorRoute::MethodNotAllowed));
    assert!(matches!(route_request(RequestMethod::Other, "/api/abilities"), EditorRoute::MethodNotAllowed));
    assert_eq!(path_of_url("/a?b?c"), "/a");
    assert_eq!(static_relative_path("//"), "index.html");
    assert_eq!(static_relative_path("/"), "index.html");
    assert_eq!(static_relative_path("//js/app.js"), "js/app.js");
    assert!(same_text("abc", "abc"));
    assert!(!same_text("abc", "abd"));
}

#[test]
fn mime_types_follow_the_extension() {
    assert_eq!(guess_mime("tools/editors/index.html"), "text/html; charset=utf-8");
    assert_eq!(guess_mime("app.mjs"), "application/javascript; charset=utf-8");
    assert_eq!(guess_mime("site.css"), "text/css; charset=utf-8");
    assert_eq!(guess_mime("data.json"), "application/json");
    assert_eq!(guess_mime("a.b.ron"), "text/plain; charset=utf-8");
    assert_eq!(guess_mime("icon.svg"), "image/svg+xml");
    assert_eq!(guess_mime("icon.png"), "image/png");
    assert_eq!(guess_mime("icon.webp"), "image/webp");
    assert_eq!(guess_mime("README"), "application/octet-stream");
    assert_eq!(guess_mime("archive.tar.gz"), "application/octet-stream");
    assert_eq!(guess_mime("tools/editors/page.html/"), "text/html; charset=utf-8");
    assert_eq!(guess_mime("///"), "application/octet-stream");
    assert_eq!(guess_mime("dir/x.html/."), "text/html; charset=utf-8");
    assert_eq!(guess_mime("tools/./page.css/./."), "text/css; charset=utf-8");
    assert_eq!(guess_mime("dir/.."), "application/octet-stream");
    assert_eq!(guess_mime(".hidden"), "application/octet-stream");
}

#[test]
fn error_bodies_swap_double_quotes() {
    assert_eq!(error_body("read \"x\": gone"), "{\"error\":\"read 'x': gone\"}");
    assert_eq!(error_body(""), "{\"error\":\"\"}");
}

#[test]
fn battle_log_keeps_the_last_six_lines() {
    let mut log = BattleLog { lines: vec![], dirty: false };
    for i in 0..8 {
        log.push(format!("line {i}"));
    }
    assert_eq!(log.lines.len(), 6);
    assert_eq!(log.lines[0], "line 2");
    assert_eq!(log.lines[5], "line 7");
    assert!(log.dirty);
}

#[test]
fn short_names_drop_the_kind_and_cut_long_ones() {
    assert_eq!(short_name("Yokai(Onibi)"), "Onibi");
    assert_eq!(short_name("  Rina  "), "Rina");
    assert_eq!(short_name("Ally ( Kappa ))"), "Kappa");
    assert_eq!(short_name("Tsukumogami-no-Kami"), "Tsukumogami…");
    assert_eq!(short_name("Twelve chars"), "Twelve chars");
}

#[test]
fn log_lines_for_turns_and_hits() {
    assert_eq!(turn_line("Rina"), "▶ Rina turn");
    assert_eq!(damage_line("Rina", "Onibi", 12), Some("Rina → Onibi for 12".to_string()));
    assert_eq!(damage_line("Rina", "Onibi", 0), None);
}

#[test]
fn sheet_bonuses_and_item_labels() {
    assert_eq!(fmt_bonus(3), " (+3)");
    assert_eq!(fmt_bonus(-2), " (-2)");
    assert_eq!(fmt_bonus(0), "");
    assert_eq!(item_label(&katana(4, 2, 0)), "Iron Katana (Lth+4 Hit+2)");
    assert_eq!(item_label(&katana(0, 0, -1)), "Iron Katana (Mrl-1)");
    assert_eq!(item_label(&katana(0, 0, 0)), "Iron Katana");
    let catalog = vec![katana(4, 2, 0), Equipment { id: 9, ..katana(1, 1, 1) }];
    let b = equipped_bonus(Some(&vec![7, 9, 42]), &catalog);
    assert_eq!(b, EquipBonus { lethality: 5, hit: 3, armor: 0, agility: 0, mind: 0, morale: 1 });
    let none = equipped_bonus(None, &catalog);
    assert_eq!(none, EquipBonus { lethality: 0, hit: 0, armor: 0, agility: 0, mind: 0, morale: 0 });
}

#[test]
fn decimal_rendering() {
    let mut s = String::from("n=");
    append_decimal(&mut s, 0);
    append_decimal(&mut s, 4096);
    assert_eq!(s, "n=04096");
    let mut t = String::new();
    append_signed(&mut t, -2147483648);
    assert_eq!(t, "-2147483648");
    let mut u = String::new();
    append_decimal_u64(&mut u, 18446744073709551615);
    assert_eq!(u, "18446744073709551615");
    let mut v = String::new();
    append_two_digits(&mut v, 7);
    append_two_digits(&mut v, 42);
    assert_eq!(v, "0742");
}

#[test]
fn an_empty_editor_starts_from_the_example_line() {
    let mut st = DialogueEditorState::new();
    assert!(st.dialogues.is_empty() && !st.dirty && st.selected.is_none());
    seed_example(&mut st);
    assert_eq!(st.dialogues.len(), 1);
    assert_eq!(st.dialogues[0].id, "Intro_1");
    assert_eq!(st.dialogues[0].speaker, "Narrator");
    assert_eq!(st.dialogues[0].text, "Welcome to the demo.");
    assert!(st.dirty);
    let mut loaded = state(vec![line("x", None, None)]);
    seed_example(&mut loaded);
    assert_eq!(loaded.dialogues.len(), 1);
    assert_eq!(loaded.dialogues[0].id, "x");
    assert!(!loaded.dirty);
}
