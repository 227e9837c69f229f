use win_count::tracker::{
    is_key_physically_pressed, key_code, KeyEventTracker, SampledKeys, TrackerMap, DEBOUNCE_MS,
    RAPID_MS,
};

#[test]
fn a_fresh_tracker_is_idle_and_has_seen_nothing() {
    let t = KeyEventTracker::new();
    assert_eq!(t.last_press_time, None);
    assert_eq!(t.last_execution_time, None);
    assert_eq!(t.press_count, 0);
    assert!(!t.last_key_state);
}

#[test]
fn the_first_press_fires() {
    let mut t = KeyEventTracker::new();
    assert!(t.observe(true, 0));
    assert!(t.last_key_state);
    assert_eq!(t.last_execution_time, Some(0));
    assert_eq!(t.last_press_time, Some(0));
    assert_eq!(t.press_count, 1);
}

#[test]
fn a_held_combination_fires_exactly_once() {
    let mut t = KeyEventTracker::new();
    let mut fired = 0;
    for i in 0..500u64 {
        if t.observe(true, 1000 + i * 30) {
            fired += 1;
        }
    }
    assert_eq!(fired, 1);
    assert_eq!(t.last_execution_time, Some(1000));
    assert_eq!(t.press_count, 1);
}

#[test]
fn release_then_press_fires_exactly_once_more() {
    let mut t = KeyEventTracker::new();
    assert!(t.observe(true, 1000));
    assert!(!t.observe(true, 1050));
    assert!(!t.observe(false, 1100));
    assert!(!t.last_key_state);
    let mut fired = 0;
    for i in 0..50u64 {
        if t.observe(true, 1200 + i * 10) {
            fired += 1;
        }
    }
    assert_eq!(fired, 1);
    assert_eq!(t.last_execution_time, Some(1200));
    assert_eq!(t.press_count, 2);
}

#[test]
fn a_second_press_within_the_debounce_floor_is_rejected() {
    let mut t = KeyEventTracker::new();
    assert!(t.observe(true, 1000));
    assert!(!t.observe(false, 1020));
    assert!(!t.observe(true, 1050));
    assert!(!t.last_key_state);
    assert_eq!(t.last_execution_time, Some(1000));
    assert_eq!(t.press_count, 1);
}

#[test]
fn a_press_at_exactly_the_debounce_floor_is_accepted() {
    let mut t = KeyEventTracker::new();
    assert!(t.observe(true, 1000));
    t.observe(false, 1010);
    assert!(!t.observe(true, 1000 + DEBOUNCE_MS - 1));
    assert!(t.observe(true, 1000 + DEBOUNCE_MS));
    assert_eq!(t.last_execution_time, Some(1100));
}

#[test]
fn a_press_rejected_for_bouncing_fires_on_a_later_report_while_held() {
    let mut t = KeyEventTracker::new();
    assert!(t.observe(true, 1000));
    t.observe(false, 1010);
    assert!(!t.observe(true, 1050));
    assert!(t.observe(true, 1120));
    assert!(!t.observe(true, 1300));
}

#[test]
fn a_clock_that_steps_back_counts_as_no_time_passed() {
    let mut t = KeyEventTracker::new();
    assert!(t.observe(true, 5000));
    t.observe(false, 5001);
    assert!(!t.observe(true, 10));
    assert_eq!(t.last_execution_time, Some(5000));
}

#[test]
fn a_report_with_the_keys_up_only_disarms() {
    let mut t = KeyEventTracker::new();
    assert!(!t.observe(false, 7));
    assert_eq!(t, KeyEventTracker::new());
    t.observe(true, 100);
    let armed = t;
    t.observe(false, 150);
    assert_eq!(t, KeyEventTracker { last_key_state: false, ..armed });
}

#[test]
fn the_press_count_stops_at_its_maximum() {
    let mut t = KeyEventTracker {
        last_press_time: None,
        press_count: u32::MAX,
        last_execution_time: None,
        last_key_state: false,
    };
    assert!(t.observe(true, 1));
    assert_eq!(t.press_count, u32::MAX);
}

#[test]
fn the_dynamic_step_follows_the_press_count_when_presses_are_rapid() {
    let at = |count: u32, last: Option<u64>| KeyEventTracker {
        last_press_time: last,
        press_count: count,
        last_execution_time: last,
        last_key_state: false,
    };
    let expected = [
        (0, 8), (1, 1), (2, 1), (3, 1), (4, 2), (5, 2), (6, 2), (7, 3), (8, 3), (9, 3), (10, 3),
        (11, 5), (12, 5), (15, 5), (16, 8), (1000, 8),
    ];
    for (count, step) in expected {
        assert_eq!(at(count, Some(1000)).calculate_dynamic_step(1100), step);
        assert_eq!(at(count, Some(1000)).calculate_dynamic_step(1000 + RAPID_MS - 1), step);
        assert_eq!(at(count, Some(1000)).calculate_dynamic_step(1000 + RAPID_MS), 1);
        assert_eq!(at(count, Some(1000)).calculate_dynamic_step(5000), 1);
        assert_eq!(at(count, None).calculate_dynamic_step(5000), 1);
    }
    assert_eq!(at(5, Some(1000)).calculate_dynamic_step(900), 2);
}

#[test]
fn the_most_significant_bit_tells_that_a_key_is_down() {
    assert!(is_key_physically_pressed(i16::MIN));
    assert!(is_key_physically_pressed(-1));
    assert!(is_key_physically_pressed(0x8001u16 as i16));
    assert!(!is_key_physically_pressed(0));
    assert!(!is_key_physically_pressed(1));
    assert!(!is_key_physically_pressed(i16::MAX));
}

fn keys(shift: bool, control: bool, alt: bool, meta: bool, key_code: Option<i32>) -> SampledKeys {
    SampledKeys { shift, control, alt, meta, key_code }
}

#[test]
fn the_keys_to_sample_are_read_off_the_shortcut() {
    assert_eq!(SampledKeys::for_shortcut("alt+Equal"), keys(false, false, true, false, Some(0xBB)));
    assert_eq!(
        SampledKeys::for_shortcut("shift+alt+Equal"),
        keys(true, false, true, false, Some(0xBB))
    );
    assert_eq!(SampledKeys::for_shortcut("alt+Minus"), keys(false, false, true, false, Some(0xBD)));
    assert_eq!(
        SampledKeys::for_shortcut("control+KeyA"),
        keys(false, true, false, false, Some(0x41))
    );
    assert_eq!(
        SampledKeys::for_shortcut("shift+control+alt+meta+KeyZ"),
        keys(true, true, true, true, Some(0x5A))
    );
    assert_eq!(SampledKeys::for_shortcut("F1"), keys(false, false, false, false, Some(0x70)));
    assert_eq!(SampledKeys::for_shortcut("Space"), keys(false, false, false, false, Some(0x20)));
    assert_eq!(SampledKeys::for_shortcut("meta+NoSuchKey"), keys(false, false, false, true, None));
    assert_eq!(SampledKeys::for_shortcut(""), keys(false, false, false, false, None));
    assert_eq!(SampledKeys::for_shortcut("alt+"), keys(false, false, true, false, None));
}

#[test]
fn every_key_that_can_be_sampled_has_its_code() {
    let code = |name: &str| key_code(&name.chars().collect());
    for (i, letter) in ('A'..='Z').enumerate() {
        assert_eq!(code(&format!("Key{}", letter)), Some(0x41 + i as i32));
    }
    for d in 0..10 {
        assert_eq!(code(&format!("Digit{}", d)), Some(0x30 + d));
    }
    for n in 1..=24 {
        assert_eq!(code(&format!("F{}", n)), Some(0x6F + n));
    }
    let named = [
        ("Equal", 0xBB), ("Minus", 0xBD), ("Comma", 0xBC), ("Period", 0xBE), ("Slash", 0xBF),
        ("Semicolon", 0xBA), ("Quote", 0xDE), ("BracketLeft", 0xDB), ("Backslash", 0xDC),
        ("BracketRight", 0xDD), ("Backquote", 0xC0), ("Space", 0x20), ("Enter", 0x0D),
        ("Tab", 0x09), ("Escape", 0x1B), ("Backspace", 0x08), ("Delete", 0x2E), ("Insert", 0x2D),
        ("Home", 0x24), ("End", 0x23), ("PageUp", 0x21), ("PageDown", 0x22), ("ArrowLeft", 0x25),
        ("ArrowUp", 0x26), ("ArrowRight", 0x27), ("ArrowDown", 0x28), ("CapsLock", 0x14),
        ("NumLock", 0x90), ("ScrollLock", 0x91), ("Pause", 0x13), ("PrintScreen", 0x2C),
    ];
    for (name, expected) in named {
        assert_eq!(code(name), Some(expected), "{}", name);
    }
    for name in ["", "Keya", "Key", "KeyAB", "Digit", "DigitA", "F0", "F25", "F30", "F", "F01", "equal"] {
        assert_eq!(code(name), None, "{:?}", name);
    }
}

#[test]
fn a_combination_is_down_when_its_key_and_all_its_modifiers_are() {
    let alt_equal = SampledKeys::for_shortcut("alt+Equal");
    assert!(alt_equal.down(false, false, true, false, true));
    assert!(alt_equal.down(true, true, true, true, true));
    assert!(!alt_equal.down(false, false, true, false, false));
    assert!(!alt_equal.down(true, true, false, true, true));
    let all = SampledKeys::for_shortcut("shift+control+alt+meta+KeyQ");
    assert!(all.down(true, true, true, true, true));
    assert!(!all.down(false, true, true, true, true));
    assert!(!all.down(true, false, true, true, true));
    assert!(!all.down(true, true, true, false, true));
    let bare = SampledKeys::for_shortcut("F5");
    assert!(bare.down(false, false, false, false, true));
    assert!(!bare.down(true, true, true, true, false));
    let unknown = SampledKeys::for_shortcut("alt+NoSuchKey");
    assert!(!unknown.down(true, true, true, true, true));
}

#[test]
fn trackers_are_made_on_first_report_and_kept_apart() {
    let mut map = TrackerMap::new();
    assert_eq!(map.get("alt+Equal"), KeyEventTracker::new());
    assert!(map.notify("alt+Equal", true, 1000));
    assert!(map.notify("shift+alt+Equal", true, 1001));
    assert!(!map.notify("alt+Equal", true, 1002));
    assert_eq!(map.entries.len(), 2);
    assert_eq!(map.get("alt+Equal").last_execution_time, Some(1000));
    assert_eq!(map.get("shift+alt+Equal").last_execution_time, Some(1001));
    assert!(!map.notify("alt+Equal", false, 1500));
    assert!(map.get("shift+alt+Equal").last_key_state);
    assert!(!map.get("alt+Equal").last_key_state);
    assert!(map.notify("alt+Equal", true, 1600));
    assert_eq!(map.entries.len(), 2);
}

#[test]
fn a_report_with_the_keys_up_still_makes_a_tracker() {
    let mut map = TrackerMap::new();
    assert!(!map.notify("alt+Minus", false, 5));
    assert_eq!(map.entries.len(), 1);
    assert_eq!(map.get("alt+Minus"), KeyEventTracker::new());
}
