use win_count::hotkey::{HotkeyAction, HotkeyConfig, HotkeyMap};

fn pairs(map: &HotkeyMap) -> Vec<(String, String)> {
    map.bindings.iter().map(|b| (b.action.clone(), b.combo.clone())).collect()
}

fn pair(a: &str, b: &str) -> (String, String) {
    (a.to_string(), b.to_string())
}

#[test]
fn default_config_is_alt_equal_and_alt_minus() {
    let c = HotkeyConfig::default();
    assert_eq!(c.increase, "Alt+Equal");
    assert_eq!(c.decrease, "Alt+Minus");
    assert_eq!(c.step_size, 1);
}

#[test]
fn actions_are_known_by_their_names() {
    assert_eq!(HotkeyAction::from_name("increment"), Some(HotkeyAction::Increment));
    assert_eq!(HotkeyAction::from_name("decrement"), Some(HotkeyAction::Decrement));
    assert_eq!(HotkeyAction::from_name("increment10"), Some(HotkeyAction::Increment10));
    assert_eq!(HotkeyAction::from_name("decrement10"), Some(HotkeyAction::Decrement10));
    assert_eq!(HotkeyAction::from_name("Increment"), None);
    assert_eq!(HotkeyAction::from_name(""), None);
}

#[test]
fn actions_have_fixed_steps() {
    assert_eq!((HotkeyAction::Increment.delta(), HotkeyAction::Increment.step()), (1, 1));
    assert_eq!((HotkeyAction::Decrement.delta(), HotkeyAction::Decrement.step()), (-1, 1));
    assert_eq!((HotkeyAction::Increment10.delta(), HotkeyAction::Increment10.step()), (1, 10));
    assert_eq!((HotkeyAction::Decrement10.delta(), HotkeyAction::Decrement10.step()), (-1, 10));
}

#[test]
fn default_bindings_are_the_four_documented_ones() {
    assert_eq!(
        pairs(&HotkeyMap::defaults()),
        vec![
            pair("increment", "Alt+Equal"),
            pair("decrement", "Alt+Minus"),
            pair("increment10", "Shift+Alt+Equal"),
            pair("decrement10", "Shift+Alt+Minus"),
        ]
    );
}

#[test]
fn bindings_of_a_config_add_shift_for_tens() {
    let cfg = HotkeyConfig { increase: "Ctrl+Up".to_string(), decrease: "F9".to_string(), step_size: 1 };
    assert_eq!(
        pairs(&HotkeyMap::from_config(&cfg)),
        vec![
            pair("increment", "Ctrl+Up"),
            pair("decrement", "F9"),
            pair("increment10", "Shift+Ctrl+Up"),
            pair("decrement10", "Shift+F9"),
        ]
    );
}

#[test]
fn insert_overwrites_in_place_and_appends_new_actions() {
    let mut map = HotkeyMap::defaults();
    map.insert("decrement".to_string(), "F2".to_string());
    map.insert("reset".to_string(), "F3".to_string());
    assert_eq!(map.len(), 5);
    assert_eq!(map.get("decrement"), Some("F2".to_string()));
    assert_eq!(map.get("reset"), Some("F3".to_string()));
    assert_eq!(map.get("increment"), Some("Alt+Equal".to_string()));
    assert_eq!(map.get("nothing"), None);
    assert_eq!(pairs(&map)[1], pair("decrement", "F2"));
    assert_eq!(pairs(&map)[4], pair("reset", "F3"));
}

#[test]
fn new_map_is_empty() {
    let map = HotkeyMap::new();
    assert!(map.is_empty());
    assert_eq!(map.len(), 0);
    assert!(!HotkeyMap::defaults().is_empty());
}

#[test]
fn resolve_prefers_the_file_then_the_active_preset_then_the_defaults() {
    let mut file = HotkeyMap::new();
    file.insert("increment".to_string(), "F1".to_string());
    let cfg = HotkeyConfig { increase: "A".to_string(), decrease: "B".to_string(), step_size: 1 };

    let r = HotkeyMap::resolve(Some(file.clone()), Some(&cfg));
    assert_eq!(pairs(&r), vec![pair("increment", "F1")]);

    let r = HotkeyMap::resolve(Some(HotkeyMap::new()), Some(&cfg));
    assert_eq!(pairs(&r), pairs(&HotkeyMap::from_config(&cfg)));

    let r = HotkeyMap::resolve(None, Some(&cfg));
    assert_eq!(pairs(&r), pairs(&HotkeyMap::from_config(&cfg)));

    let r = HotkeyMap::resolve(None, None);
    assert_eq!(pairs(&r), pairs(&HotkeyMap::defaults()));

    let r = HotkeyMap::resolve(Some(HotkeyMap::new()), None);
    assert_eq!(pairs(&r), pairs(&HotkeyMap::defaults()));
}

#[test]
fn clone_of_a_map_holds_the_same_bindings() {
    let map = HotkeyMap::defaults();
    assert_eq!(pairs(&map.clone()), pairs(&map));
}
