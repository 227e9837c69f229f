use win_count::state::{clamp_to_range, Mutation, WinState, MAX_COUNT, MIN_COUNT};

fn record(win: i32, goal: i32) -> WinState {
    WinState { win, goal, show_goal: true, show_crown: true, current_preset: "Default".to_string() }
}

#[test]
fn default_record_is_the_documented_one() {
    let s = WinState::default();
    assert_eq!(s, record(0, 10));
    assert_eq!(s.current_preset, "Default");
    assert!(s.show_goal);
    assert!(s.show_crown);
}

#[test]
fn clamp_to_range_keeps_values_inside() {
    assert_eq!(clamp_to_range(0), 0);
    assert_eq!(clamp_to_range(10000), 10000);
    assert_eq!(clamp_to_range(10001), 10000);
    assert_eq!(clamp_to_range(-10000), -10000);
    assert_eq!(clamp_to_range(-10001), -10000);
    assert_eq!(clamp_to_range(i64::MAX), MAX_COUNT);
    assert_eq!(clamp_to_range(i64::MIN), MIN_COUNT);
}

#[test]
fn delta_of_one_step_one_moves_win_by_one() {
    let mut s = record(0, 10);
    let snapshot = s.apply_delta(1, 1);
    assert_eq!(s.win, 1);
    assert_eq!(s.goal, 10);
    assert_eq!(snapshot, s);
}

#[test]
fn delta_clamps_at_the_upper_bound() {
    let mut s = record(9995, 10);
    s.apply_delta(1, 10);
    assert_eq!(s.win, 10000);
}

#[test]
fn delta_clamps_at_the_lower_bound() {
    let mut s = record(-9995, 10);
    s.apply_delta(-1, 10);
    assert_eq!(s.win, -10000);
}

#[test]
fn delta_with_extreme_factors_does_not_overflow() {
    let mut s = record(5, 10);
    s.apply_delta(i32::MAX, i32::MAX);
    assert_eq!(s.win, 10000);
    s.apply_delta(i32::MIN, i32::MAX);
    assert_eq!(s.win, -10000);
    s.apply_delta(i32::MIN, i32::MIN);
    assert_eq!(s.win, 10000);
}

#[test]
fn every_run_of_deltas_stays_in_range() {
    let mut s = record(0, 10);
    let deltas = [(1, 7000), (1, 7000), (-1, 20000), (-1, 1), (1, 3), (1, 10), (-1, 10)];
    for (delta, step) in deltas {
        s.apply_delta(delta, step);
        assert!(MIN_COUNT <= s.win && s.win <= MAX_COUNT);
        assert!(MIN_COUNT <= s.goal && s.goal <= MAX_COUNT);
    }
    assert_eq!(s.win, -9997);
}

#[test]
fn set_win_and_set_goal_clamp() {
    let mut s = record(0, 10);
    s.set_win(12);
    assert_eq!(s.win, 12);
    s.set_win(20000);
    assert_eq!(s.win, 10000);
    s.set_goal(-20000);
    assert_eq!(s.goal, -10000);
    s.set_goal(25);
    assert_eq!(s.goal, 25);
    assert_eq!(s.win, 10000);
}

#[test]
fn toggles_flip_one_flag_each() {
    let mut s = record(3, 10);
    s.toggle_goal_visibility();
    assert!(!s.show_goal);
    assert!(s.show_crown);
    s.toggle_crown_visibility();
    assert!(!s.show_crown);
    s.toggle_goal_visibility();
    assert!(s.show_goal);
    assert_eq!(s.win, 3);
}

#[test]
fn replace_takes_the_whole_record_and_clamps_it() {
    let mut s = record(3, 10);
    let full = WinState {
        win: 70000,
        goal: -70000,
        show_goal: false,
        show_crown: true,
        current_preset: "Session A".to_string(),
    };
    let snapshot = s.replace(full);
    assert_eq!(s.win, 10000);
    assert_eq!(s.goal, -10000);
    assert!(!s.show_goal);
    assert_eq!(s.current_preset, "Session A");
    assert_eq!(snapshot, s);
}

#[test]
fn any_mutation_brings_an_out_of_range_record_into_range() {
    let mut s = record(50000, -50000);
    s.apply(Mutation::ToggleCrownVisibility);
    assert_eq!(s.win, 10000);
    assert_eq!(s.goal, -10000);
    assert!(!s.show_crown);
}

#[test]
fn read_hands_back_a_copy() {
    let s = record(4, 9);
    let copy = s.read();
    assert_eq!(copy, s);
}

#[test]
fn show_goal_and_show_crown_set_the_flags() {
    let mut s = record(1, 2);
    s.apply(Mutation::ShowGoal(false));
    assert!(!s.show_goal);
    s.apply(Mutation::ShowGoal(false));
    assert!(!s.show_goal);
    s.apply(Mutation::ShowCrown(false));
    assert!(!s.show_crown);
    s.apply(Mutation::ShowCrown(true));
    assert!(s.show_crown);
}
