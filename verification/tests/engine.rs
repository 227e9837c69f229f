use win_count::engine::{CommandError, Effect, Engine, Sound};
use win_count::frame::{parse_frame, ControlFrame};
use win_count::hotkey::{HotkeyConfig, HotkeyMap};
use win_count::preset::{PresetData, PresetError};
use win_count::shortcut::plan_registration;
use win_count::state::{Mutation, WinState};

fn record(win: i32, current: &str) -> WinState {
    WinState { win, goal: 10, show_goal: true, show_crown: true, current_preset: current.to_string() }
}

fn preset(name: &str, win: i32) -> PresetData {
    PresetData {
        name: name.to_string(),
        win,
        goal: 10,
        show_goal: true,
        show_crown: true,
        hotkeys: HotkeyConfig::default(),
    }
}

fn fresh() -> Engine {
    Engine::start(None, None, None).0
}

fn names(engine: &Engine) -> Vec<String> {
    engine.presets.list().into_iter().map(|p| p.name).collect()
}

fn pairs(map: &HotkeyMap) -> Vec<(String, String)> {
    map.bindings.iter().map(|b| (b.action.clone(), b.combo.clone())).collect()
}

const MUTATION: [Effect; 3] = [Effect::PersistState, Effect::Broadcast, Effect::PersistPresets];

#[test]
fn a_fresh_engine_starts_from_the_defaults() {
    let (engine, repaired) = Engine::start(None, None, None);
    assert!(!repaired);
    assert_eq!(engine.state, WinState::default());
    assert_eq!(engine.presets.list(), vec![PresetData::default_preset()]);
    assert_eq!(pairs(&engine.hotkeys), pairs(&HotkeyMap::defaults()));
    assert!(!engine.acceleration);
    assert!(engine.trackers.entries.is_empty());
}

#[test]
fn start_repairs_a_record_that_names_a_deleted_preset() {
    let (engine, repaired) =
        Engine::start(Some(record(7, "Gone")), Some(vec![preset("A", 1)]), None);
    assert!(repaired);
    assert_eq!(engine.state, record(7, "Default"));
    assert_eq!(names(&engine), vec!["Default", "A"]);
}

#[test]
fn start_keeps_a_record_that_names_an_existing_preset_and_clamps_it() {
    let (engine, repaired) =
        Engine::start(Some(record(70000, "A")), Some(vec![preset("A", 1)]), None);
    assert!(!repaired);
    assert_eq!(engine.state, record(10000, "A"));
}

#[test]
fn start_takes_the_hotkeys_of_the_file_or_of_the_active_preset() {
    let mut a = preset("A", 1);
    a.hotkeys = HotkeyConfig { increase: "F1".to_string(), decrease: "F2".to_string(), step_size: 1 };
    let (engine, _) = Engine::start(Some(record(0, "A")), Some(vec![a.clone()]), None);
    assert_eq!(pairs(&engine.hotkeys), pairs(&HotkeyMap::from_config(&a.hotkeys)));
    let mut file = HotkeyMap::new();
    file.insert("increment".to_string(), "F9".to_string());
    let (engine, _) = Engine::start(Some(record(0, "A")), Some(vec![a]), Some(file.clone()));
    assert_eq!(pairs(&engine.hotkeys), pairs(&file));
}

#[test]
fn an_unauthorized_caller_changes_nothing() {
    let mut engine = fresh();
    assert!(matches!(engine.set_win(false, 5), Err(CommandError::Unauthorized)));
    assert!(matches!(engine.set_goal(false, 5), Err(CommandError::Unauthorized)));
    assert!(matches!(engine.increase_win(false), Err(CommandError::Unauthorized)));
    assert!(matches!(engine.decrease_win(false), Err(CommandError::Unauthorized)));
    assert!(matches!(engine.increase_win_by_step(false, 3), Err(CommandError::Unauthorized)));
    assert!(matches!(engine.decrease_win_by_step(false, 3), Err(CommandError::Unauthorized)));
    assert!(matches!(engine.toggle_goal_visibility(false), Err(CommandError::Unauthorized)));
    assert!(matches!(engine.toggle_crown_visibility(false), Err(CommandError::Unauthorized)));
    assert!(matches!(engine.set_win_state(false, record(9, "X")), Err(CommandError::Unauthorized)));
    assert!(matches!(engine.get_win_state(false), Err(CommandError::Unauthorized)));
    assert!(matches!(engine.save_preset(false, preset("A", 1)), Err(CommandError::Unauthorized)));
    assert!(matches!(engine.load_presets(false), Err(CommandError::Unauthorized)));
    assert!(matches!(engine.load_preset(false, "Default"), Err(CommandError::Unauthorized)));
    assert!(matches!(engine.delete_preset(false, "A"), Err(CommandError::Unauthorized)));
    assert!(matches!(
        engine.rename_preset(false, "A", "B".to_string()),
        Err(CommandError::Unauthorized)
    ));
    assert!(matches!(
        engine.update_hotkey(false, "increment".to_string(), "F1".to_string()),
        Err(CommandError::Unauthorized)
    ));
    assert!(matches!(engine.save_default_hotkeys(false), Err(CommandError::Unauthorized)));
    assert!(matches!(engine.reload_hotkeys(false, None), Err(CommandError::Unauthorized)));
    assert!(matches!(
        engine.command(false, Mutation::SetWin(1)),
        Err(CommandError::Unauthorized)
    ));
    assert_eq!(engine.state, WinState::default());
    assert_eq!(engine.presets.list(), vec![PresetData::default_preset()]);
}

#[test]
fn a_mutation_is_persisted_then_broadcast_then_mirrored() {
    let mut engine = fresh();
    let outcome = engine.set_win(true, 12).unwrap();
    assert_eq!(outcome.snapshot, engine.state);
    assert_eq!(outcome.effects, MUTATION.to_vec());
    assert_eq!(engine.state.win, 12);
    assert_eq!(engine.presets.get("Default").unwrap().win, 12);
    let outcome = engine.set_goal(true, -20000).unwrap();
    assert_eq!(outcome.snapshot.goal, -10000);
    assert_eq!(engine.presets.get("Default").unwrap().goal, -10000);
    let outcome = engine.toggle_goal_visibility(true).unwrap();
    assert!(!outcome.snapshot.show_goal);
    assert!(!engine.presets.get("Default").unwrap().show_goal);
    engine.toggle_crown_visibility(true).unwrap();
    assert!(!engine.presets.get("Default").unwrap().show_crown);
    assert_eq!(engine.get_win_state(true).unwrap(), engine.state);
}

#[test]
fn steps_come_with_their_sound() {
    let mut engine = fresh();
    let up = engine.increase_win(true).unwrap();
    assert_eq!(up.snapshot.win, 1);
    assert_eq!(
        up.effects,
        vec![
            Effect::PersistState,
            Effect::Broadcast,
            Effect::PersistPresets,
            Effect::PlaySound(Sound::Increase)
        ]
    );
    let down = engine.decrease_win_by_step(true, 5).unwrap();
    assert_eq!(down.snapshot.win, -4);
    assert_eq!(down.effects[3], Effect::PlaySound(Sound::Decrease));
    assert_eq!(engine.increase_win_by_step(true, 10).unwrap().snapshot.win, 6);
    assert_eq!(engine.decrease_win(true).unwrap().snapshot.win, 5);
    assert_eq!(engine.change_win(-1).snapshot.win, 4);
    let zero = engine.change_win_with_step(0, 3);
    assert_eq!(zero.snapshot.win, 4);
    assert_eq!(zero.effects[3], Effect::PlaySound(Sound::Decrease));
    assert_eq!(engine.presets.get("Default").unwrap().win, 4);
}

#[test]
fn a_step_near_the_bound_clamps() {
    let mut engine = fresh();
    engine.set_win(true, 9995).unwrap();
    let outcome = engine.increase_win_by_step(true, 10).unwrap();
    assert_eq!(outcome.snapshot.win, 10000);
}

#[test]
fn set_win_state_replaces_and_creates_the_named_preset() {
    let mut engine = fresh();
    let outcome = engine.set_win_state(true, record(33, "Stream")).unwrap();
    assert_eq!(outcome.snapshot, record(33, "Stream"));
    assert_eq!(names(&engine), vec!["Default", "Stream"]);
    assert_eq!(engine.presets.get("Stream").unwrap().win, 33);
}

#[test]
fn a_saved_preset_comes_back_on_load_whatever_the_counter_did_meanwhile() {
    let mut engine = fresh();
    let saved = engine.save_preset(true, preset("Session A", 5)).unwrap();
    assert_eq!(saved.effects, vec![Effect::PersistPresets]);
    assert_eq!(engine.state.win, 0);
    engine.set_win(true, 50).unwrap();
    assert_eq!(engine.state.win, 50);
    assert_eq!(engine.presets.get("Session A").unwrap().win, 5);
    let (loaded, outcome) = engine.load_preset(true, "Session A").unwrap();
    assert_eq!(loaded, preset("Session A", 5));
    assert_eq!(outcome.snapshot.win, 5);
    assert_eq!(engine.state, record(5, "Session A"));
    assert_eq!(
        outcome.effects,
        vec![
            Effect::PersistState,
            Effect::Broadcast,
            Effect::PersistHotkeys,
            Effect::RegisterHotkeys
        ]
    );
    assert_eq!(engine.presets.get("Default").unwrap().win, 50);
}

#[test]
fn an_active_preset_follows_the_counter() {
    let mut engine = fresh();
    engine.save_preset(true, preset("Session A", 5)).unwrap();
    engine.load_preset(true, "Session A").unwrap();
    engine.increase_win(true).unwrap();
    engine.increase_win(true).unwrap();
    assert_eq!(engine.presets.get("Session A").unwrap().win, 7);
    engine.load_preset(true, "Default").unwrap();
    assert_eq!(engine.state.win, 0);
    engine.load_preset(true, "Session A").unwrap();
    assert_eq!(engine.state.win, 7);
}

#[test]
fn saving_the_active_preset_also_changes_the_record() {
    let mut engine = fresh();
    let outcome = engine.save_preset(true, preset("Default", 77)).unwrap();
    assert_eq!(engine.state, record(77, "Default"));
    assert_eq!(outcome.snapshot, engine.state);
    assert_eq!(
        outcome.effects,
        vec![Effect::PersistPresets, Effect::PersistState, Effect::Broadcast]
    );
}

#[test]
fn loading_a_preset_puts_its_hotkeys_in_force() {
    let mut engine = fresh();
    let mut p = preset("Keys", 1);
    p.hotkeys = HotkeyConfig { increase: "F7".to_string(), decrease: "F8".to_string(), step_size: 1 };
    engine.save_preset(true, p.clone()).unwrap();
    engine.load_preset(true, "Keys").unwrap();
    assert_eq!(pairs(&engine.hotkeys), pairs(&HotkeyMap::from_config(&p.hotkeys)));
    assert_eq!(engine.hotkeys.get("increment10"), Some("Shift+F7".to_string()));
}

#[test]
fn loading_an_unknown_preset_is_an_error_and_changes_nothing() {
    let mut engine = fresh();
    engine.set_win(true, 3).unwrap();
    assert!(matches!(
        engine.load_preset(true, "Nope"),
        Err(CommandError::Preset(PresetError::NotFound))
    ));
    assert_eq!(engine.state, record(3, "Default"));
}

#[test]
fn deleting_default_is_an_error_and_changes_nothing() {
    let mut engine = fresh();
    engine.save_preset(true, preset("A", 1)).unwrap();
    let before = engine.presets.list();
    assert!(matches!(
        engine.delete_preset(true, "Default"),
        Err(CommandError::Preset(PresetError::DefaultProtected))
    ));
    assert_eq!(engine.presets.list(), before);
    assert!(matches!(
        engine.delete_preset(true, "Nope"),
        Err(CommandError::Preset(PresetError::NotFound))
    ));
    assert_eq!(engine.presets.list(), before);
    let outcome = engine.delete_preset(true, "A").unwrap();
    assert_eq!(outcome.effects, vec![Effect::PersistPresets]);
    assert_eq!(names(&engine), vec!["Default"]);
}

#[test]
fn renaming_goes_through_the_collection() {
    let mut engine = fresh();
    engine.save_preset(true, preset("A", 1)).unwrap();
    let outcome = engine.rename_preset(true, "A", "B".to_string()).unwrap();
    assert_eq!(outcome.effects, vec![Effect::PersistPresets]);
    assert_eq!(names(&engine), vec!["Default", "B"]);
    assert!(matches!(
        engine.rename_preset(true, "B", "Default".to_string()),
        Err(CommandError::Preset(PresetError::NameTaken))
    ));
    assert!(matches!(
        engine.rename_preset(true, "Default", "C".to_string()),
        Err(CommandError::Preset(PresetError::DefaultProtected))
    ));
    assert!(matches!(
        engine.rename_preset(true, "Nope", "C".to_string()),
        Err(CommandError::Preset(PresetError::NotFound))
    ));
    assert_eq!(engine.load_presets(true).unwrap(), engine.presets.list());
}

#[test]
fn hotkeys_can_be_updated_reset_and_reloaded() {
    let mut engine = fresh();
    let outcome =
        engine.update_hotkey(true, "increment".to_string(), "Ctrl+Up".to_string()).unwrap();
    assert_eq!(outcome.effects, vec![Effect::PersistHotkeys]);
    assert_eq!(engine.hotkeys.get("increment"), Some("Ctrl+Up".to_string()));
    assert_eq!(engine.hotkeys.len(), 4);
    let outcome = engine.save_default_hotkeys(true).unwrap();
    assert_eq!(outcome.effects, vec![Effect::PersistHotkeys]);
    assert_eq!(pairs(&engine.hotkeys), pairs(&HotkeyMap::defaults()));
    let mut file = HotkeyMap::new();
    file.insert("decrement".to_string(), "F3".to_string());
    let outcome = engine.reload_hotkeys(true, Some(file.clone())).unwrap();
    assert_eq!(outcome.effects, vec![Effect::RegisterHotkeys]);
    assert_eq!(pairs(&engine.hotkeys), pairs(&file));
    engine.reload_hotkeys(true, None).unwrap();
    assert_eq!(pairs(&engine.hotkeys), pairs(&HotkeyMap::defaults()));
}

#[test]
fn frames_mutate_like_commands_and_need_no_authorization() {
    let mut engine = fresh();
    let outcome = engine.take_frame(ControlFrame::ToggleGoal(false)).unwrap();
    assert_eq!(outcome.effects, MUTATION.to_vec());
    assert!(!engine.state.show_goal);
    assert!(!engine.presets.get("Default").unwrap().show_goal);
    assert!(engine.take_frame(ControlFrame::RequestCurrentData).is_none());
    let text = r#"{"type":"update","win":3,"goal":4,"show_goal":true,"show_crown":false,"current_preset":"Default"}"#;
    let first = engine.take_frame(parse_frame(text).unwrap()).unwrap().snapshot;
    let second = engine.take_frame(parse_frame(text).unwrap()).unwrap().snapshot;
    assert_eq!(first, second);
    assert_eq!(engine.state.win, 3);
    assert_eq!(engine.state.goal, 4);
}

#[test]
fn two_presses_fifty_milliseconds_apart_change_win_once() {
    let mut engine = fresh();
    let plan = plan_registration(&engine.hotkeys);
    let first = engine.on_notification(&plan, "alt+Equal", true, 1000);
    assert_eq!(first.unwrap().snapshot.win, 1);
    assert!(engine.on_notification(&plan, "alt+Equal", false, 1020).is_none());
    assert!(engine.on_notification(&plan, "alt+Equal", true, 1050).is_none());
    assert_eq!(engine.state.win, 1);
    assert_eq!(engine.presets.get("Default").unwrap().win, 1);
}

#[test]
fn a_held_hotkey_moves_the_counter_once_and_a_new_press_once_more() {
    let mut engine = fresh();
    let plan = plan_registration(&engine.hotkeys);
    for i in 0..200u64 {
        engine.on_notification(&plan, "shift+alt+Equal", true, 1000 + i * 25);
    }
    assert_eq!(engine.state.win, 10);
    engine.on_notification(&plan, "shift+alt+Equal", false, 7000);
    for i in 0..200u64 {
        engine.on_notification(&plan, "shift+alt+Equal", true, 7100 + i * 25);
    }
    assert_eq!(engine.state.win, 20);
    let outcome = engine.on_notification(&plan, "alt+Minus", true, 20000).unwrap();
    assert_eq!(outcome.snapshot.win, 19);
    assert_eq!(outcome.effects[3], Effect::PlaySound(Sound::Decrease));
    let outcome = engine.on_notification(&plan, "shift+alt+Minus", true, 20001).unwrap();
    assert_eq!(outcome.snapshot.win, 9);
}

#[test]
fn a_shortcut_without_an_action_moves_nothing() {
    let mut engine = fresh();
    let plan = plan_registration(&engine.hotkeys);
    assert!(engine.on_notification(&plan, "control+KeyA", true, 1000).is_none());
    assert_eq!(engine.state.win, 0);
    assert!(engine.trackers.get("control+KeyA").last_key_state);
}

#[test]
fn acceleration_is_off_unless_switched_on() {
    let mut engine = fresh();
    let plan = plan_registration(&engine.hotkeys);
    let mut now = 1000;
    for _ in 0..6 {
        engine.on_notification(&plan, "alt+Equal", true, now);
        engine.on_notification(&plan, "alt+Equal", false, now + 10);
        now += 150;
    }
    assert_eq!(engine.state.win, 6);

    let mut engine = fresh();
    engine.acceleration = true;
    let mut now = 1000;
    let mut wins = Vec::new();
    for _ in 0..8 {
        engine.on_notification(&plan, "alt+Equal", true, now);
        engine.on_notification(&plan, "alt+Equal", false, now + 10);
        wins.push(engine.state.win);
        now += 150;
    }
    assert_eq!(wins, vec![1, 2, 3, 4, 6, 8, 10, 13]);
}

#[test]
fn refusals_are_put_into_words() {
    assert_eq!(CommandError::Unauthorized.message("x"), "UNAUTHORIZED_ACCESS");
    assert_eq!(
        CommandError::Preset(PresetError::NotFound).message("Session A"),
        "Preset 'Session A' not found"
    );
    assert_eq!(PresetError::DefaultProtected.message("Default"), "Cannot delete Default preset");
    assert_eq!(PresetError::NameTaken.message("B"), "Preset 'B' already exists");
}

#[test]
fn an_authorized_caller_is_greeted() {
    assert_eq!(
        win_count::engine::greet(true, "Arty"),
        Ok("Hello, Arty! You've been greeted from Rust!".to_string())
    );
    assert_eq!(win_count::engine::greet(false, "Arty"), Err(CommandError::Unauthorized));
}

#[test]
fn the_hotkey_report_has_a_line_for_each_binding() {
    let mut engine = fresh();
    engine.update_hotkey(true, "increment".to_string(), "Alt+=".to_string()).unwrap();
    engine.update_hotkey(true, "reset".to_string(), "r".to_string()).unwrap();
    assert_eq!(
        engine.test_hotkeys(true),
        Ok(vec![
            "increment -> Alt+= -> Alt+Equal".to_string(),
            "decrement -> Alt+Minus -> Alt+Minus".to_string(),
            "increment10 -> Shift+Alt+Equal -> Shift+Alt+Equal".to_string(),
            "decrement10 -> Shift+Alt+Minus -> Shift+Alt+Minus".to_string(),
            "reset -> r -> KeyR".to_string(),
        ])
    );
    assert_eq!(engine.test_hotkeys(false), Err(CommandError::Unauthorized));
}

#[test]
fn a_malformed_combination_is_refused_and_binds_nothing() {
    let mut engine = fresh();
    let before = pairs(&engine.hotkeys);
    for text in ["", "Alt+", "+"] {
        let refused = engine.update_hotkey(true, "increment".to_string(), text.to_string());
        assert!(matches!(
            refused,
            Err(CommandError::Hotkey(win_count::shortcut::HotkeyError::Malformed))
        ));
        assert_eq!(pairs(&engine.hotkeys), before);
    }
    assert_eq!(
        CommandError::Hotkey(win_count::shortcut::HotkeyError::Malformed).message("Alt+"),
        "Invalid hotkey format: 'Alt+'"
    );
    assert!(matches!(
        engine.update_hotkey(false, "increment".to_string(), "".to_string()),
        Err(CommandError::Unauthorized)
    ));
}

#[test]
fn the_hotkey_report_says_which_binding_cannot_be_read() {
    let mut engine = fresh();
    engine.hotkeys.insert("reset".to_string(), "Ctrl+".to_string());
    let lines = engine.test_hotkeys(true).unwrap();
    assert_eq!(lines[4], "reset -> Ctrl+ -> ERROR: Invalid hotkey format: 'Ctrl+'");
}

#[test]
fn renaming_a_preset_that_is_there_to_a_free_name_succeeds() {
    let mut engine = fresh();
    let mut p = preset("A", 3);
    p.goal = 7;
    engine.save_preset(true, p.clone()).unwrap();
    engine.save_preset(true, preset("B", 4)).unwrap();
    assert!(engine.rename_preset(true, "A", "C".to_string()).is_ok());
    let list = engine.presets.list();
    assert_eq!(list.len(), 3);
    p.name = "C".to_string();
    assert_eq!(list[1], p);
    assert_eq!(list[2], preset("B", 4));
    assert!(engine.rename_preset(true, "C", "C".to_string()).is_ok());
}
