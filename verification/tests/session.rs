use deepcode::session::{
    check_session_id, clean_title, latest_session, list_sessions, session_title, single_line,
    validate_session, ChatMessage, SavedPendingPlan, SavedSession, SessionStore, SessionSummary,
};
use deepcode::types::{Message, Role};

const FIRST: &str = "550e8400-e29b-41d4-a716-446655440000";
const SECOND: &str = "550e8400-e29b-41d4-a716-446655440001";

fn session(id: &str, workspace: &str, title: &str) -> SavedSession {
    let mut session = SavedSession::new(
        workspace.to_string(),
        "deepseek".to_string(),
        "deepseek-v4-pro".to_string(),
        "high".to_string(),
        id.to_string(),
        "2026-01-01T00:00:00Z",
    );
    session.ui_messages.push(ChatMessage {
        role: "user".to_string(),
        content: title.to_string(),
    });
    session
}

fn list(sessions: &Vec<SavedSession>, workspace: Option<&str>) -> Vec<SessionSummary> {
    let absolute = sessions.iter().map(|_| true).collect();
    list_sessions(sessions, &absolute, workspace, None)
}

#[test]
fn save_load_and_filter_by_workspace() {
    let mut first = session(FIRST, "/one", "First task");
    let mut second = session(SECOND, "/two", "Second task");
    assert!(first.prepare_save("2026-01-02T00:00:00Z"));
    assert!(second.prepare_save("2026-01-02T00:00:00Z"));

    assert!(validate_session(&first, true).is_ok());
    assert_eq!(first.title, "First task");
    let sessions = vec![first, second];
    assert_eq!(list(&sessions, Some("/one")).len(), 1);
    assert_eq!(list(&sessions, None).len(), 2);
}

#[test]
fn empty_session_is_not_saved_or_listed() {
    let mut empty = session(FIRST, "/one", "");
    assert!(!empty.prepare_save("2026-01-02T00:00:00Z"));
    assert_eq!(empty.updated_at, "2026-01-01T00:00:00Z");
    assert!(list(&vec![empty], None).is_empty());
}

#[test]
fn generated_title_is_cleaned_and_not_overwritten() {
    let mut session = session(
        FIRST,
        "/one",
        "A very long initial request that is only a fallback",
    );
    assert!(session.set_generated_title("  `Parser   recovery summary`  "));
    assert!(!session.set_generated_title("Second title"));

    assert!(session.prepare_save("2026-01-02T00:00:00Z"));

    assert_eq!(session.title, "Parser recovery summary");
    assert!(session.title_generated);
}

#[test]
fn latest_is_sorted_by_updated_at() {
    let mut first = session(FIRST, "/one", "First");
    let mut second = session(SECOND, "/one", "Second");
    first.updated_at = "2026-01-01T00:00:00Z".to_string();
    second.updated_at = "2026-02-01T00:00:00Z".to_string();
    let sessions = vec![first, second];
    let listed = list(&sessions, Some("/one"));
    assert_eq!(latest_session(&listed, "/one").unwrap(), SECOND);
    assert_eq!(
        latest_session(&list(&sessions, Some("/none")), "/none").unwrap_err(),
        "No sessions found for workspace /none"
    );
}

#[test]
fn listings_can_be_limited() {
    let sessions = vec![
        session(FIRST, "/one", "First"),
        session(SECOND, "/one", "Second"),
    ];
    let absolute = vec![true, true];
    assert_eq!(list_sessions(&sessions, &absolute, None, Some(1)).len(), 1);
    assert_eq!(list_sessions(&sessions, &absolute, None, Some(0)).len(), 0);
}

#[test]
fn a_message_of_the_user_counts_in_either_list() {
    let mut session = session(FIRST, "/one", " ");
    assert!(!session.has_user_message());
    session
        .core_messages
        .push(Message::of_text(Role::Assistant, "hello"));
    assert!(!session.has_user_message());
    session.core_messages.push(Message::of_text(Role::User, "hello"));
    assert!(session.has_user_message());
}

#[test]
fn sessions_with_problems_are_refused() {
    let mut wrong_version = session(FIRST, "/one", "x");
    wrong_version.schema_version = 7;
    assert_eq!(
        validate_session(&wrong_version, true).unwrap_err(),
        "Unsupported session schema version 7"
    );

    let wrong_id = session("not-a-uuid", "/one", "x");
    assert_eq!(
        validate_session(&wrong_id, true).unwrap_err(),
        "Session contains invalid UUID"
    );

    let mut wrong_plan = session(FIRST, "/one", "x");
    wrong_plan.pending_plan = Some(SavedPendingPlan {
        plan_path: "plan.md".to_string(),
    });
    assert_eq!(
        validate_session(&wrong_plan, false).unwrap_err(),
        "Session contains invalid pending plan path"
    );
    assert!(validate_session(&wrong_plan, true).is_ok());
    let sessions = vec![wrong_plan];
    assert!(list_sessions(&sessions, &vec![false], None, None).is_empty());
}

#[test]
fn only_uuids_name_sessions() {
    assert!(check_session_id(FIRST).is_ok());
    assert_eq!(
        check_session_id("../etc/passwd").unwrap_err(),
        "Invalid session id: ../etc/passwd"
    );
}

#[test]
fn titles_come_from_the_first_request() {
    assert_eq!(session_title(&vec![]), "Untitled session");
    let messages = vec![
        ChatMessage::of("assistant", "hello"),
        ChatMessage::of("user", "  "),
        ChatMessage::of("user", "fix\n the   parser"),
    ];
    assert_eq!(session_title(&messages), "fix the parser");
    let long = vec![ChatMessage::of("user", &"x".repeat(80))];
    assert_eq!(session_title(&long).chars().count(), 60);
    assert!(session_title(&long).ends_with("..."));
}

#[test]
fn titles_lose_the_marks_around_them() {
    assert_eq!(clean_title("\"Fix: parser\""), Some("Fix: parser".to_string()));
    assert_eq!(clean_title("## Title:"), Some("Title".to_string()));
    assert_eq!(clean_title(" `\"'` "), None);
}

#[test]
fn a_text_becomes_one_line() {
    assert_eq!(single_line(" a\tb\n\nc "), "a b c");
}

#[test]
fn session_files_are_named_by_their_id() {
    let store = SessionStore::at("/data/sessions".to_string());
    assert_eq!(store.root(), "/data/sessions");
    assert_eq!(SessionStore::file_name("x"), "x.json");
    assert_eq!(SessionStore::temporary_name("x"), ".x.tmp");
}

#[test]
fn one_line_stays_one_line() {
    for text in ["", "  a \n\t b  c ", "a", "\u{3000}x\u{a0}y\n"] {
        let once = single_line(text);
        assert_eq!(single_line(&once), once);
    }
    assert_eq!(single_line("  a \n\t b  c "), "a b c");
}
