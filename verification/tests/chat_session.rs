use vtt_baxum::chat::{join_helper, leave_helper, send_message_helper, Chat, ChatError, User};

#[test]
fn join_is_unique() {
    let mut chat = Chat::new();
    assert_eq!(join_helper("Ana", &mut chat), Ok(()));
    assert_eq!(join_helper("Ana", &mut chat), Err(ChatError::AlreadyJoined));
    assert_eq!(chat.get_users().len(), 1);
    assert!(chat.check_user_exists("Ana"));
}

#[test]
fn join_trims_username() {
    let mut chat = Chat::new();
    assert_eq!(join_helper("  Ana \n", &mut chat), Ok(()));
    assert!(chat.check_user_exists("Ana"));
    assert_eq!(join_helper("Ana", &mut chat), Err(ChatError::AlreadyJoined));
    let found = chat.get_your_user(" Ana ").expect("member");
    assert_eq!(found.get_username(), "Ana");
}

#[test]
fn leave_requires_membership() {
    let mut chat = Chat::new();
    assert_eq!(leave_helper("Ana", &mut chat), Err(ChatError::NotFound));
    assert_eq!(join_helper("Ana", &mut chat), Ok(()));
    assert_eq!(leave_helper("Ana", &mut chat), Ok(()));
    assert!(!chat.check_user_exists("Ana"));
    assert_eq!(leave_helper("Ana", &mut chat), Err(ChatError::NotFound));
}

#[test]
fn fallback_send_joins_ghost() {
    let mut chat = Chat::new();
    assert!(!chat.check_user_exists("Ghost"));
    let m = send_message_helper("Ghost", "boo", &mut chat);
    assert!(chat.check_user_exists("Ghost"));
    assert_eq!(m.author().get_username(), "Ghost");
    assert_eq!(m.text(), "boo");
    assert_eq!(chat.get_history().len(), 1);
}

#[test]
fn leave_then_history_keeps_message() {
    let mut chat = Chat::new();
    assert_eq!(join_helper("Ana", &mut chat), Ok(()));
    send_message_helper("Ana", "hi", &mut chat);
    assert_eq!(leave_helper("Ana", &mut chat), Ok(()));
    let history = chat.get_history();
    assert_eq!(history.len(), 1);
    assert_eq!(history[0].text(), "hi");
    assert_eq!(history[0].author().get_username(), "Ana");
}

#[test]
fn history_read_is_idempotent() {
    let mut chat = Chat::new();
    send_message_helper("Ana", "one", &mut chat);
    send_message_helper("Bob", "two", &mut chat);
    let first: Vec<String> = chat.get_history().iter().map(|m| m.text().to_string()).collect();
    let second: Vec<String> = chat.get_history().iter().map(|m| m.text().to_string()).collect();
    assert_eq!(first, second);
    assert_eq!(first, vec!["one".to_string(), "two".to_string()]);
}

#[test]
fn history_is_append_only() {
    let mut chat = Chat::new();
    let mut last_len = chat.get_history().len();
    send_message_helper("Ana", "one", &mut chat);
    assert!(chat.get_history().len() >= last_len);
    last_len = chat.get_history().len();
    assert_eq!(join_helper("Bob", &mut chat), Ok(()));
    assert!(chat.get_history().len() >= last_len);
    last_len = chat.get_history().len();
    assert_eq!(leave_helper("Ana", &mut chat), Ok(()));
    assert!(chat.get_history().len() >= last_len);
    assert_eq!(chat.get_history()[0].text(), "one");
}

#[test]
fn many_distinct_joins_all_succeed() {
    let mut chat = Chat::new();
    let names = ["Ana", "Bob", "Cid", "Dot", "Eve", "Fay", "Gus", "Hal"];
    for name in names {
        assert_eq!(join_helper(name, &mut chat), Ok(()));
    }
    assert_eq!(chat.get_users().len(), names.len());
    for name in names {
        assert!(chat.check_user_exists(name));
    }
}

#[test]
fn send_trims_message_text() {
    let mut chat = Chat::new();
    let m = send_message_helper("Ana", "  hello there \n", &mut chat);
    assert_eq!(m.text(), "hello there");
}

#[test]
fn last_message_tracks_latest() {
    let mut chat = Chat::new();
    assert!(chat.get_last_message().is_none());
    send_message_helper("Ana", "first", &mut chat);
    send_message_helper("Ana", "second", &mut chat);
    let last = chat.get_last_message().expect("non-empty history");
    assert_eq!(last.text(), "second");
}

#[test]
fn message_clock_is_in_range() {
    let mut chat = Chat::new();
    let m = send_message_helper("Ana", "hi", &mut chat);
    let clock = m.clock();
    assert!((0..=23).contains(&clock.time.0));
    assert!((0..=59).contains(&clock.time.1));
    assert!((0..=59).contains(&clock.time.2));
    assert!((1..=31).contains(&clock.date.0));
    assert!((1..=12).contains(&clock.date.1));
}

#[test]
fn whitespace_only_username_joins_as_empty() {
    // The trim step accepts an all-blank name as the empty username; a
    // second such join then collides with it.
    let mut chat = Chat::new();
    assert_eq!(join_helper("   ", &mut chat), Ok(()));
    assert!(chat.check_user_exists(""));
    assert_eq!(join_helper("\t\n", &mut chat), Err(ChatError::AlreadyJoined));
    assert_eq!(chat.get_users().len(), 1);
}

#[test]
fn new_user_trims_and_reports_name() {
    let user = User::new_user("\t Rin ");
    assert_eq!(user.get_username(), "Rin");
    user.delete_user();
}
