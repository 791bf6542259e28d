use vtt_baxum::bridge::{chat_roll, get_dice, render_result_str, RollError, RollRequest};
use vtt_baxum::chat::Chat;
use vtt_baxum::dice::{DiceKind, Roll, RollResult};

fn request(dice: Option<&str>, range: Option<i32>, times: Option<i32>, user: Option<&str>) -> RollRequest {
    RollRequest {
        title: None,
        description: None,
        dice: dice.map(|s| s.to_string()),
        times,
        range,
        username: user.map(|s| s.to_string()),
    }
}

#[test]
fn hint_resolution_is_case_insensitive() {
    assert_eq!(get_dice(&request(Some("fate"), None, None, None)), Ok(DiceKind::Fate));
    assert_eq!(get_dice(&request(Some(" FATE "), None, None, None)), Ok(DiceKind::Fate));
    assert_eq!(get_dice(&request(Some("Faced"), None, None, None)), Ok(DiceKind::Faced));
    assert_eq!(get_dice(&request(None, None, None, None)), Ok(DiceKind::Fate));
    assert_eq!(
        get_dice(&request(Some("coin"), None, None, None)),
        Err(RollError::UnrecognizedDiceKind)
    );
}

#[test]
fn roll_then_log_appends_one_message() {
    let mut chat = Chat::new();
    let before = chat.get_history().len();
    let (result, message) =
        chat_roll(&request(Some("faced"), Some(6), Some(2), Some("Ana")), &mut chat)
            .expect("valid roll");
    assert_eq!(chat.get_history().len(), before + 1);
    let values: Vec<i32> = result.values().iter().map(|r| r.0).collect();
    assert_eq!(values.len(), 2);
    for v in &values {
        assert!((1..=6).contains(v));
    }
    let text = message.text().to_string();
    assert!(text.contains("Ana"));
    assert_eq!(text, format!("User: Ana rolled: [{}, {}]", values[0], values[1]));
    assert_eq!(chat.get_last_message().expect("appended").text(), text);
}

#[test]
fn roll_joins_unknown_requester() {
    let mut chat = Chat::new();
    chat_roll(&request(None, None, None, Some("Rook")), &mut chat).expect("valid roll");
    assert!(chat.check_user_exists("Rook"));
}

#[test]
fn roll_without_username_logs_as_anonymous() {
    let mut chat = Chat::new();
    let (_, message) = chat_roll(&request(None, None, None, None), &mut chat).expect("valid roll");
    assert!(chat.check_user_exists("Anonymous"));
    assert!(message.text().starts_with("User: Anonymous rolled: ["));
}

#[test]
fn unrecognized_hint_leaves_session_untouched() {
    let mut chat = Chat::new();
    let err = chat_roll(&request(Some("coin"), Some(6), Some(2), Some("Ana")), &mut chat);
    assert!(matches!(err, Err(RollError::UnrecognizedDiceKind)));
    assert!(chat.get_history().is_empty());
    assert!(!chat.check_user_exists("Ana"));
}

#[test]
fn non_positive_range_is_rejected() {
    let mut chat = Chat::new();
    let err = chat_roll(&request(Some("faced"), Some(0), Some(2), Some("Ana")), &mut chat);
    assert!(matches!(err, Err(RollError::InvalidRollParameters)));
    let err = chat_roll(&request(Some("faced"), Some(-5), None, Some("Ana")), &mut chat);
    assert!(matches!(err, Err(RollError::InvalidRollParameters)));
    assert!(chat.get_history().is_empty());
}

#[test]
fn fate_hint_rolls_four_fate_dice() {
    let mut chat = Chat::new();
    let (result, message) =
        chat_roll(&request(Some("fate"), None, None, Some("Ana")), &mut chat).expect("valid roll");
    assert!(matches!(result, RollResult::FateRollResult(_)));
    assert_eq!(result.values().len(), 4);
    assert!(message.text().starts_with("User: Ana rolled: ["));
}

#[test]
fn rendering_matches_values() {
    let result = RollResult::FacedRollResult(vec![Roll(-12), Roll(0), Roll(5)]);
    assert_eq!(render_result_str(&result), "[-12, 0, 5]");
    let single = RollResult::FateRollResult(vec![Roll(1)]);
    assert_eq!(render_result_str(&single), "[1]");
    let empty = RollResult::FacedRollResult(vec![]);
    assert_eq!(render_result_str(&empty), "[]");
}
