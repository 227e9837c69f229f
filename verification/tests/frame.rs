use win_count::frame::{decode_frame, parse_frame, read_fields, ControlFrame, FrameFields};
use win_count::state::{Mutation, WinState};

fn record(win: i32, goal: i32) -> WinState {
    WinState { win, goal, show_goal: true, show_crown: true, current_preset: "Default".to_string() }
}

fn fields(kind: Option<&str>) -> FrameFields {
    FrameFields {
        kind: kind.map(|k| k.to_string()),
        value: None,
        win: None,
        goal: None,
        show_goal: None,
        show_crown: None,
        current_preset: None,
    }
}

const UPDATE: &str = r#"{"type":"update","win":7,"goal":12,"show_goal":false,"show_crown":true,"current_preset":"Session A"}"#;

#[test]
fn toggle_frames_are_read() {
    assert!(matches!(
        parse_frame(r#"{"type":"toggle_goal","value":false}"#),
        Some(ControlFrame::ToggleGoal(false))
    ));
    assert!(matches!(
        parse_frame(r#"{ "value" : true, "type" : "toggle_crown" }"#),
        Some(ControlFrame::ToggleCrown(true))
    ));
}

#[test]
fn a_toggle_without_a_boolean_value_is_no_frame() {
    assert!(parse_frame(r#"{"type":"toggle_goal"}"#).is_none());
    assert!(parse_frame(r#"{"type":"toggle_goal","value":"true"}"#).is_none());
    assert!(parse_frame(r#"{"type":"toggle_crown","value":1}"#).is_none());
}

#[test]
fn request_current_data_is_read_and_asks_for_nothing() {
    let frame = parse_frame(r#"{"type":"request_current_data"}"#).unwrap();
    assert!(matches!(frame, ControlFrame::RequestCurrentData));
    assert!(frame.mutation().is_none());
}

#[test]
fn update_frames_carry_a_whole_record() {
    match parse_frame(UPDATE) {
        Some(ControlFrame::Update(s)) => {
            assert_eq!(
                s,
                WinState {
                    win: 7,
                    goal: 12,
                    show_goal: false,
                    show_crown: true,
                    current_preset: "Session A".to_string(),
                }
            );
        }
        other => panic!("expected an update, got {:?}", other),
    }
}

#[test]
fn an_update_that_lacks_a_member_is_dropped() {
    for missing in ["win", "goal", "show_goal", "show_crown", "current_preset"] {
        let text = UPDATE.replace(&format!("\"{}\"", missing), "\"other\"");
        assert!(parse_frame(&text).is_none(), "missing {}", missing);
    }
    assert!(parse_frame(&UPDATE.replace("7", "7.5")).is_none());
    assert!(parse_frame(&UPDATE.replace("false", "0")).is_none());
    assert!(parse_frame(&UPDATE.replace("\"Session A\"", "null")).is_none());
}

#[test]
fn text_that_is_no_frame_is_ignored() {
    assert!(parse_frame("").is_none());
    assert!(parse_frame("not json").is_none());
    assert!(parse_frame("[1,2,3]").is_none());
    assert!(parse_frame("{}").is_none());
    assert!(parse_frame(r#"{"type":5}"#).is_none());
    assert!(parse_frame(r#"{"type":"reset"}"#).is_none());
    assert!(parse_frame(r#"{"type":"toggle_goal","value":true"#).is_none());
}

#[test]
fn read_fields_takes_each_member_by_its_kind() {
    let f = read_fields(UPDATE);
    assert_eq!(f.kind.as_deref(), Some("update"));
    assert_eq!(f.value, None);
    assert_eq!(f.win, Some(7));
    assert_eq!(f.goal, Some(12));
    assert_eq!(f.show_goal, Some(false));
    assert_eq!(f.show_crown, Some(true));
    assert_eq!(f.current_preset.as_deref(), Some("Session A"));
    let f = read_fields(r#"{"type":"toggle_goal","value":true,"win":"7","goal":-3}"#);
    assert_eq!(f.value, Some(true));
    assert_eq!(f.win, None);
    assert_eq!(f.goal, Some(-3));
    let f = read_fields("nonsense");
    assert!(f.kind.is_none() && f.value.is_none() && f.win.is_none());
}

#[test]
fn numbers_of_an_update_are_cut_to_32_bits() {
    let text = UPDATE.replace(":7,", ":4294967301,").replace(":12,", ":-4294967295,");
    match parse_frame(&text) {
        Some(ControlFrame::Update(s)) => {
            assert_eq!(s.win, 5);
            assert_eq!(s.goal, 1);
        }
        other => panic!("expected an update, got {:?}", other),
    }
}

#[test]
fn decode_frame_goes_by_the_type() {
    assert!(decode_frame(fields(None)).is_none());
    assert!(decode_frame(fields(Some("update"))).is_none());
    assert!(decode_frame(fields(Some("toggle_goal"))).is_none());
    assert!(matches!(
        decode_frame(fields(Some("request_current_data"))),
        Some(ControlFrame::RequestCurrentData)
    ));
    let mut f = fields(Some("toggle_crown"));
    f.value = Some(false);
    assert!(matches!(decode_frame(f), Some(ControlFrame::ToggleCrown(false))));
    let mut f = fields(Some("update"));
    f.win = Some(1);
    f.goal = Some(2);
    f.show_goal = Some(true);
    f.show_crown = Some(false);
    assert!(decode_frame(f).is_none());
}

#[test]
fn frames_turn_into_mutations() {
    assert!(matches!(ControlFrame::ToggleGoal(true).mutation(), Some(Mutation::ShowGoal(true))));
    assert!(matches!(ControlFrame::ToggleCrown(false).mutation(), Some(Mutation::ShowCrown(false))));
    assert!(matches!(ControlFrame::Update(record(1, 2)).mutation(), Some(Mutation::Replace(_))));
}

#[test]
fn taking_the_same_update_twice_leaves_the_same_record() {
    let mut once = record(0, 10);
    once.take_frame(parse_frame(UPDATE).unwrap());
    let mut twice = record(0, 10);
    twice.take_frame(parse_frame(UPDATE).unwrap());
    let snapshot = twice.take_frame(parse_frame(UPDATE).unwrap());
    assert_eq!(once, twice);
    assert_eq!(snapshot, Some(once.clone()));
    assert_eq!(once.win, 7);
    assert_eq!(once.current_preset, "Session A");
}

#[test]
fn an_update_is_clamped_like_any_mutation() {
    let mut s = record(0, 10);
    s.take_frame(parse_frame(&UPDATE.replace(":7,", ":20000,")).unwrap());
    assert_eq!(s.win, 10000);
}

#[test]
fn a_frame_that_asks_for_nothing_changes_nothing() {
    let mut s = record(4, 5);
    assert_eq!(s.take_frame(ControlFrame::RequestCurrentData), None);
    assert_eq!(s, record(4, 5));
}

#[test]
fn toggle_frames_set_rather_than_flip() {
    let mut s = record(4, 5);
    s.take_frame(ControlFrame::ToggleGoal(false));
    assert!(!s.show_goal);
    s.take_frame(ControlFrame::ToggleGoal(false));
    assert!(!s.show_goal);
    s.take_frame(ControlFrame::ToggleCrown(true));
    assert!(s.show_crown);
}
