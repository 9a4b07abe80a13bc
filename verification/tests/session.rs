use alicepi::session::{ChatRole, SessionManager, CLOUD_MESSAGE_PLACEHOLDER};

#[test]
fn session_starts_with_unique_id() {
    let session = SessionManager::new();
    assert!(!session.id().is_empty());
}

#[test]
fn session_reset_creates_new_id_and_clears_history() {
    let mut session = SessionManager::new();
    session.add_user_message("hello".to_string());
    let first_id = session.id().to_string();
    session.start_new();
    assert_ne!(first_id, session.id());
    assert!(session.history().is_empty());
}

#[test]
fn session_records_user_and_assistant_messages() {
    let mut session = SessionManager::new();
    session.add_user_message("hi".to_string());
    session.add_assistant_message("hello".to_string());
    assert_eq!(session.history().len(), 2);
    assert!(matches!(session.history()[0].role, ChatRole::User));
    assert!(matches!(session.history()[1].role, ChatRole::Assistant));
}

#[test]
fn session_records_placeholder_for_cloud() {
    let mut session = SessionManager::new();
    session.add_assistant_placeholder();
    assert_eq!(session.history().len(), 1);
    assert_eq!(session.history()[0].content, CLOUD_MESSAGE_PLACEHOLDER);
}

#[test]
fn session_rolls_over_after_timeout() {
    let mut session = SessionManager::new();
    let now: u64 = 1_000_000;
    session.add_user_message_at("hello".to_string(), now);
    let first_id = session.id().to_string();
    let rolled = session.maybe_rollover_at(now + 61_000, 60_000);
    assert!(rolled);
    assert_ne!(first_id, session.id());
    assert!(session.history().is_empty());
}

#[test]
fn session_keeps_running_within_timeout() {
    let mut session = SessionManager::new();
    let now: u64 = 500_000;
    session.add_user_message_at("a".to_string(), now);
    let id = session.id().to_string();
    let rolled = session.maybe_rollover_at(now + 59_999, 60_000);
    assert!(!rolled);
    assert_eq!(id, session.id());
    assert_eq!(session.history().len(), 1);
}

#[test]
fn fresh_session_never_rolls_over() {
    let mut session = SessionManager::new();
    assert!(!session.maybe_rollover_at(u64::MAX, 0));
}

#[test]
fn role_wire_spellings() {
    assert_eq!(ChatRole::User.as_str(), "user");
    assert_eq!(ChatRole::Assistant.as_str(), "assistant");
}
