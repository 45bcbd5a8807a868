use deepcode::keys::{Key, KeyPress};
use deepcode::workspace_trust::{
    render_choices, trust_key, trust_step, PromptAction, TrustDatabase, TrustDecision, TrustStep,
    WorkspaceIdentity, WorkspaceTrustStore,
};

fn identity(path: &str, inode: u64) -> WorkspaceIdentity {
    WorkspaceIdentity {
        path: path.to_string(),
        device: Some(1),
        inode: Some(inode),
    }
}

#[test]
fn trust_is_persisted_for_the_same_workspace_identity() {
    let workspace = identity("/work", 7);
    let store = WorkspaceTrustStore::at("/data/trust.json".to_string());
    let mut database = TrustDatabase::empty();

    assert!(!store.is_trusted(&database, &workspace).unwrap());
    database.trust(&workspace, "2026-01-01T00:00:00Z");
    assert!(store.is_trusted(&database, &workspace).unwrap());
    assert_eq!(database.workspaces[0].trusted_at, "2026-01-01T00:00:00Z");
}

#[test]
fn a_different_directory_identity_does_not_inherit_trust() {
    let store = WorkspaceTrustStore::at("/data/trust.json".to_string());
    let mut database = TrustDatabase::empty();
    database.trust(&identity("/work", 7), "now");

    assert!(!store.is_trusted(&database, &identity("/work", 8)).unwrap());
    assert!(!store.is_trusted(&database, &identity("/other", 7)).unwrap());
}

#[test]
fn a_database_of_another_version_is_not_accepted() {
    let store = WorkspaceTrustStore::at("/data/trust.json".to_string());
    let mut database = TrustDatabase::empty();
    database.schema_version = 9;
    assert!(store.is_trusted(&database, &identity("/work", 7)).is_err());
    assert!(database.check(store.path()).is_err());
}

#[test]
fn trusting_again_keeps_one_entry() {
    let mut database = TrustDatabase::empty();
    database.trust(&identity("/work", 7), "first");
    database.trust(&identity("/work", 9), "second");
    assert_eq!(database.workspaces.len(), 1);
    assert_eq!(database.workspaces[0].inode, Some(9));
}

#[test]
fn keyboard_choices_are_fail_closed() {
    assert_eq!(
        trust_key(KeyPress::plain(Key::Enter), 0),
        PromptAction::Confirm(TrustDecision::Trusted)
    );
    assert_eq!(
        trust_key(KeyPress::plain(Key::Enter), 1),
        PromptAction::Confirm(TrustDecision::Exit)
    );
    assert_eq!(
        trust_key(KeyPress::plain(Key::Esc), 0),
        PromptAction::Confirm(TrustDecision::Exit)
    );
    assert_eq!(
        trust_key(KeyPress::control(Key::Char('c')), 0),
        PromptAction::Confirm(TrustDecision::Exit)
    );
}

#[test]
fn other_keys_move_or_are_ignored() {
    assert_eq!(trust_key(KeyPress::plain(Key::Down), 0), PromptAction::Select(1));
    assert_eq!(trust_key(KeyPress::plain(Key::Up), 1), PromptAction::Select(0));
    assert_eq!(trust_key(KeyPress::plain(Key::Char('c')), 0), PromptAction::Ignore);
    assert_eq!(trust_key(KeyPress::plain(Key::Home), 0), PromptAction::Ignore);
}

#[test]
fn without_a_terminal_an_unknown_folder_is_refused() {
    assert!(matches!(trust_step(true, false, "/work"), TrustStep::GoOn));
    assert!(matches!(trust_step(false, true, "/work"), TrustStep::Ask));
    match trust_step(false, false, "/work") {
        TrustStep::Refuse { message } => {
            assert!(message.starts_with("Workspace is not trusted: /work."));
        }
        other => panic!("unexpected step: {:?}", other),
    }
}

#[test]
fn the_selected_choice_is_marked() {
    let lines = render_choices(1);
    assert_eq!(lines[0].text(), "  1. Yes, I trust this folder");
    assert_eq!(lines[1].text(), "> 2. No, exit");
    assert!(lines[1].spans[0].style.bold);
    assert_eq!(lines[3].text(), "Enter to confirm · Esc to cancel");
}
