use win_count::security::{
    after_integrity_failure, after_tampering, check_registry_tampering, debugging_tools,
    detect_debugging_tools, grace_period_expired, is_debugger_present, is_tampered,
    verify_app_integrity, MonitorAction, GRACE_PERIOD_SECS, INTEGRITY_LIMIT, TAMPER_LIMIT,
};

#[test]
fn any_answer_but_zero_means_a_debugger() {
    assert!(!is_debugger_present(0));
    assert!(is_debugger_present(1));
    assert!(is_debugger_present(-1));
    assert!(is_debugger_present(i32::MIN));
}

#[test]
fn eight_tools_are_looked_for() {
    assert_eq!(
        debugging_tools(),
        vec![
            "ollydbg",
            "windbg",
            "x64dbg",
            "ida",
            "ghidra",
            "cheat engine",
            "process hacker",
            "processhacker"
        ]
    );
}

#[test]
fn one_window_is_enough_to_give_a_tool_away() {
    assert!(!detect_debugging_tools(&vec![]));
    assert!(!detect_debugging_tools(&vec![false; 8]));
    assert!(detect_debugging_tools(&vec![false, false, true, false]));
    assert!(detect_debugging_tools(&vec![true]));
}

#[test]
fn nothing_in_the_registry_is_held_against_the_application() {
    assert!(check_registry_tampering());
}

#[test]
fn the_files_are_all_there_if_each_could_be_digested() {
    assert!(verify_app_integrity(&vec![]));
    assert!(verify_app_integrity(&vec![Some("a".to_string()), Some("b".to_string())]));
    assert!(!verify_app_integrity(&vec![Some("a".to_string()), None]));
    assert!(!verify_app_integrity(&vec![None]));
}

#[test]
fn a_file_is_tampered_only_if_both_digests_are_known_and_differ() {
    let a = Some("abc".to_string());
    let b = Some("abd".to_string());
    assert!(is_tampered(&a, &b));
    assert!(!is_tampered(&a, &a));
    assert!(!is_tampered(&a, &None));
    assert!(!is_tampered(&None, &b));
    assert!(!is_tampered(&None, &None));
}

#[test]
fn the_third_integrity_failure_ends_the_application() {
    assert_eq!(INTEGRITY_LIMIT, 3);
    assert_eq!(after_integrity_failure(1), MonitorAction::Warn);
    assert_eq!(after_integrity_failure(2), MonitorAction::Warn);
    assert_eq!(after_integrity_failure(3), MonitorAction::Exit);
    assert_eq!(after_integrity_failure(u64::MAX), MonitorAction::Exit);
}

#[test]
fn the_fifth_tamper_finding_blocks_the_application() {
    assert_eq!(TAMPER_LIMIT, 5);
    assert_eq!(after_tampering(1), MonitorAction::Warn);
    assert_eq!(after_tampering(4), MonitorAction::Warn);
    assert_eq!(after_tampering(5), MonitorAction::Block);
    assert_eq!(after_tampering(6), MonitorAction::Block);
}

#[test]
fn the_grace_period_lasts_three_hundred_whole_seconds() {
    assert_eq!(GRACE_PERIOD_SECS, 300);
    assert!(!grace_period_expired(1000, 0, 1000, 0));
    assert!(!grace_period_expired(1000, 0, 1300, 0));
    assert!(!grace_period_expired(1000, 0, 1300, 999_999_999));
    assert!(grace_period_expired(1000, 0, 1301, 0));
    assert!(!grace_period_expired(1000, 500, 1301, 499));
    assert!(grace_period_expired(1000, 500, 1301, 500));
    assert!(!grace_period_expired(2000, 0, 1000, 0));
    assert!(grace_period_expired(i64::MIN, 0, i64::MAX, 0));
    assert!(!grace_period_expired(i64::MAX, 0, i64::MIN, 0));
}
