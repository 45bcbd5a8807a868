use deepcode::event::AgentCommand;
use deepcode::keys::{Key, KeyPress};
use deepcode::session::{SavedSession, SessionSummary};
use deepcode::types::{ApprovalScope, FileChangePreview};
use deepcode::ui::choice::{FilePreviewChoice, PermissionChoice, PlanChoice};
use deepcode::ui::cursor::{clamp_char_boundary, next_char_boundary, prev_char_boundary};
use deepcode::ui::editor::InputEditor;
use deepcode::ui::input_view::input_view_with_blocks;
use deepcode::ui::state::{
    AppState, DeferredApproval, Moment, PendingSessionPicker, Step, TuiAction,
};
use deepcode::ui::status::{PendingFilePreview, PendingPermission, PendingPlanApproval};
use serde_json::Value;

fn json(text: &str) -> Value {
    serde_json::from_str(text).unwrap()
}

fn now() -> Moment {
    Moment {
        ticks: 7,
        stamp: "2026-03-01T00:00:00Z".to_string(),
        session_id: "550e8400-e29b-41d4-a716-446655440009".to_string(),
    }
}

/// Presses a key and lets the world outside do what is asked for; gives the commands that were
/// sent, the sessions that were saved, and whether the client goes on.
fn press(state: &mut AppState, key: KeyPress) -> (Vec<AgentCommand>, Vec<(String, usize, usize)>, bool) {
    let mut sent = vec![];
    let mut saved = vec![];
    let mut step = state.handle_key(key, &now());
    loop {
        step = match step {
            Step::Done { go_on } => return (sent, saved, go_on),
            Step::Send { command, next } => {
                sent.push(command);
                state.after_send(next, true, &now())
            }
            Step::Save { next } => {
                let session = state.session.as_ref().unwrap();
                saved.push((
                    session.title.clone(),
                    session.ui_messages.len(),
                    session.core_messages.len(),
                ));
                state.after_save(next, Ok(()), &now())
            }
            Step::List { workspace, next } => {
                let id = if workspace.is_some() { "here" } else { "everywhere" };
                state.after_list(next, Ok(vec![summary(id)]))
            }
            other => panic!("unexpected step: {:?}", other),
        };
    }
}

fn summary(id: &str) -> SessionSummary {
    SessionSummary {
        id: id.to_string(),
        title: "First".to_string(),
        workspace_root: "/one".to_string(),
        updated_at: "2026-01-01T00:00:00Z".to_string(),
        provider: "deepseek".to_string(),
        model: "model".to_string(),
    }
}

fn preview(request_id: &str) -> PendingFilePreview {
    PendingFilePreview {
        request_id: request_id.to_string(),
        preview: FileChangePreview {
            path: "a.txt".to_string(),
            before_exists: true,
            before: "old\n".to_string(),
            after: "new\n".to_string(),
            unified_diff: String::new(),
        },
        selected: FilePreviewChoice::Apply,
    }
}

fn permission(request_id: &str, tool_name: &str, input: &str) -> PendingPermission {
    PendingPermission {
        request_id: request_id.to_string(),
        tool_name: tool_name.to_string(),
        input: json(input),
        evaluation: None,
        selected: PermissionChoice::AllowOnce,
    }
}

fn plan() -> PendingPlanApproval {
    PendingPlanApproval {
        request_id: "plan_1".to_string(),
        plan: "1. Edit files\n2. Run tests".to_string(),
        selected: PlanChoice::Approve,
    }
}

#[test]
fn char_boundary_helpers_handle_multibyte_input() {
    let input = "a中🙂b";
    let after_a = 1;
    let after_zh = after_a + "中".len();
    let after_emoji = after_zh + "🙂".len();

    assert_eq!(next_char_boundary(input, 0), Some(after_a));
    assert_eq!(next_char_boundary(input, after_a), Some(after_zh));
    assert_eq!(next_char_boundary(input, after_zh), Some(after_emoji));
    assert_eq!(prev_char_boundary(input, after_emoji), Some(after_zh));
    assert_eq!(prev_char_boundary(input, after_zh), Some(after_a));
}

#[test]
fn clamp_char_boundary_moves_to_valid_byte_index() {
    let input = "中";
    assert_eq!(clamp_char_boundary(input, 1), 0);
    assert_eq!(clamp_char_boundary(input, 2), 0);
    assert_eq!(clamp_char_boundary(input, 3), 3);
}

#[test]
fn input_view_accounts_for_wide_characters() {
    let input = "ab中文";
    let (visible, cursor_col) = input_view_with_blocks(input, &[], input.len(), 6);

    assert_eq!(visible, input);
    assert_eq!(cursor_col, 6);
}

#[test]
fn input_view_keeps_cursor_inside_capacity() {
    let input = "abcdefghijklmnopqrstuvwxyz";
    let (visible, cursor_col) = input_view_with_blocks(input, &[], input.len(), 8);

    assert_eq!(visible, "stuvwxyz");
    assert_eq!(cursor_col, 8);
}

#[test]
fn shift_tab_toggles_between_plan_and_agent_modes() {
    let mut state = AppState::new();

    let (sent, _, _) = press(&mut state, KeyPress::shift(Key::BackTab));
    assert!(state.plan_mode_enabled);
    assert!(state.status.contains("Plan mode"));
    assert!(matches!(sent[0], AgentCommand::SetPlanMode { enabled: true }));

    let (sent, _, _) = press(&mut state, KeyPress::shift(Key::BackTab));
    assert!(!state.plan_mode_enabled);
    assert!(state.status.contains("Agent mode"));
    assert!(matches!(sent[0], AgentCommand::SetPlanMode { enabled: false }));
}

#[test]
fn shift_tab_does_not_change_mode_during_plan_review() {
    let mut state = AppState::new();
    state.pending_plan = Some(plan());

    let (sent, _, _) = press(&mut state, KeyPress::shift(Key::BackTab));

    assert!(!state.plan_mode_enabled);
    assert!(state.pending_plan.is_some());
    assert!(sent.is_empty());
}

#[test]
fn shift_tab_does_not_change_mode_while_agent_is_working() {
    let mut state = AppState::new();
    state.working_since = Some(1);

    let (sent, _, _) = press(&mut state, KeyPress::shift(Key::BackTab));

    assert!(!state.plan_mode_enabled);
    assert!(state.status.contains("interrupt before switching"));
    assert!(sent.is_empty());
}

#[test]
fn multiline_paste_collapses_in_view_and_preserves_input() {
    let mut editor = InputEditor::new();
    let pasted = "one\ntwo\nthree";

    editor.insert_paste(pasted);

    assert_eq!(editor.input, pasted);
    assert_eq!(editor.pasted_input_blocks.len(), 1);
    let (visible, cursor_col) = input_view_with_blocks(
        &editor.input,
        &editor.pasted_input_blocks,
        editor.cursor_pos,
        80,
    );

    assert_eq!(visible, "[Pasted text #1 +3 lines]");
    assert_eq!(usize::from(cursor_col), visible.len());
}

#[test]
fn small_paste_is_inserted_normally() {
    let mut editor = InputEditor::new();

    editor.insert_paste("hello");

    assert_eq!(editor.input, "hello");
    assert!(editor.pasted_input_blocks.is_empty());
    assert_eq!(editor.cursor_pos, "hello".len());
}

#[test]
fn a_long_line_is_folded_when_pasted() {
    let mut editor = InputEditor::new();
    editor.insert_paste(&"x".repeat(240));
    assert_eq!(editor.pasted_input_blocks.len(), 1);
    assert_eq!(editor.pasted_input_blocks[0].label(), "[Pasted text #1 +240 chars]");
}

#[test]
fn backspace_deletes_collapsed_paste_block() {
    let mut state = AppState::new();
    state.editor.insert_paste("one\ntwo\nthree");

    press(&mut state, KeyPress::plain(Key::Backspace));

    assert!(state.editor.input.is_empty());
    assert!(state.editor.pasted_input_blocks.is_empty());
    assert_eq!(state.editor.cursor_pos, 0);
}

#[test]
fn delete_deletes_collapsed_paste_block_at_cursor() {
    let mut state = AppState::new();
    state.editor.set_text("say ");
    state.editor.insert_paste("one\ntwo\nthree");
    state.editor.cursor_pos = "say ".len();

    press(&mut state, KeyPress::plain(Key::Delete));

    assert_eq!(state.editor.input, "say ");
    assert!(state.editor.pasted_input_blocks.is_empty());
    assert_eq!(state.editor.cursor_pos, "say ".len());
}

#[test]
fn cursor_navigation_skips_collapsed_paste_block() {
    let mut editor = InputEditor::new();
    editor.set_text("a");
    editor.insert_paste("one\ntwo\nthree");
    editor.insert_text("z");

    editor.move_cursor_left();
    assert_eq!(editor.cursor_pos, "aone\ntwo\nthree".len());

    editor.move_cursor_left();
    assert_eq!(editor.cursor_pos, "a".len());

    editor.move_cursor_right();
    assert_eq!(editor.cursor_pos, "aone\ntwo\nthree".len());
}

#[test]
fn enter_sends_full_pasted_text_and_clears_blocks() {
    let mut state = AppState::new();
    let pasted = "one\ntwo\nthree";
    state.editor.insert_paste(pasted);

    let (sent, _, _) = press(&mut state, KeyPress::plain(Key::Enter));

    match &sent[0] {
        AgentCommand::Process { message } => assert_eq!(message, pasted),
        other => panic!("unexpected command: {:?}", other),
    }
    assert!(state.editor.input.is_empty());
    assert!(state.editor.pasted_input_blocks.is_empty());
}

#[test]
fn first_sent_message_creates_a_session_checkpoint() {
    let mut state = AppState::new();
    state.editor.set_text("recover this request");
    state.has_session_store = true;
    state.session = Some(SavedSession::new(
        "/workspace".to_string(),
        "deepseek".to_string(),
        "model".to_string(),
        "high".to_string(),
        "550e8400-e29b-41d4-a716-446655440001".to_string(),
        "2026-01-01T00:00:00Z",
    ));

    let (sent, saved, _) = press(&mut state, KeyPress::plain(Key::Enter));

    assert!(matches!(
        &sent[0],
        AgentCommand::Process { message } if message == "recover this request"
    ));
    assert_eq!(saved, vec![("recover this request".to_string(), 1, 1)]);
}

#[test]
fn permission_prompt_uses_arrows_and_enter() {
    let mut state = AppState::new();
    state.pending_permission = Some(permission(
        "perm_1",
        "web_search",
        r#"{"query": "DeepSeek V4"}"#,
    ));

    press(&mut state, KeyPress::plain(Key::Right));
    assert_eq!(
        state.pending_permission.as_ref().unwrap().selected,
        PermissionChoice::AllowSession
    );

    let (sent, _, _) = press(&mut state, KeyPress::plain(Key::Enter));
    match &sent[0] {
        AgentCommand::PermissionResponse { request_id, approved, scope } => {
            assert_eq!(request_id, "perm_1");
            assert!(*approved);
            assert_eq!(*scope, ApprovalScope::Session);
        }
        other => panic!("unexpected command: {:?}", other),
    }
    assert!(state.pending_permission.is_none());
}

#[test]
fn session_picker_selects_and_returns_resume_action() {
    let mut state = AppState::new();
    state.pending_sessions = Some(PendingSessionPicker {
        sessions: vec![summary("first"), summary("second")],
        selected: 0,
        show_all: false,
    });

    press(&mut state, KeyPress::plain(Key::Down));
    assert_eq!(state.pending_sessions.as_ref().unwrap().selected, 1);

    let (_, _, go_on) = press(&mut state, KeyPress::plain(Key::Enter));
    assert!(!go_on);
    assert!(matches!(&state.exit_action, TuiAction::Resume(id) if id == "second"));
}

#[test]
fn file_preview_prompt_applies_with_enter() {
    let mut state = AppState::new();
    state.pending_file_preview = Some(preview("preview_1"));

    let (sent, _, _) = press(&mut state, KeyPress::plain(Key::Enter));

    match &sent[0] {
        AgentCommand::FileChangePreviewResponse { request_id, approved } => {
            assert_eq!(request_id, "preview_1");
            assert!(*approved);
        }
        other => panic!("unexpected command: {:?}", other),
    }
    assert!(state.pending_file_preview.is_none());
}

#[test]
fn rejecting_preview_with_escape_activates_deferred_approval() {
    let mut state = AppState::new();
    state.pending_file_preview = Some(preview("preview_1"));
    state
        .deferred_approvals
        .push(DeferredApproval::Permission(permission(
            "permission_2",
            "shell",
            r#"{"command":"true"}"#,
        )));

    let (sent, _, _) = press(&mut state, KeyPress::plain(Key::Esc));

    assert!(matches!(
        &sent[0],
        AgentCommand::FileChangePreviewResponse { request_id, approved: false }
            if request_id == "preview_1"
    ));
    assert_eq!(
        state
            .pending_permission
            .as_ref()
            .map(|permission| permission.request_id.as_str()),
        Some("permission_2")
    );
    assert!(state.deferred_approvals.is_empty());
}

#[test]
fn plan_prompt_approves_with_enter() {
    let mut state = AppState::new();
    state.pending_plan = Some(plan());

    let (sent, _, _) = press(&mut state, KeyPress::plain(Key::Enter));

    match &sent[0] {
        AgentCommand::PlanResponse { request_id, approved } => {
            assert_eq!(request_id, "plan_1");
            assert!(*approved);
        }
        other => panic!("unexpected command: {:?}", other),
    }
    assert!(state.pending_plan.is_none());
}

#[test]
fn ctrl_o_toggles_reasoning_even_during_a_preview() {
    let mut state = AppState::new();
    state.pending_file_preview = Some(preview("preview_1"));

    press(&mut state, KeyPress::control(Key::Char('o')));

    assert!(state.reasoning_expanded);
    assert!(state.pending_file_preview.is_some());
}

#[test]
fn revising_a_plan_fills_the_input_line() {
    let mut state = AppState::new();
    state.working_since = Some(1);
    state.pending_plan = Some(plan());
    let (sent, _, go_on) = press(&mut state, KeyPress::plain(Key::Char('r')));
    assert!(go_on);
    assert!(matches!(
        &sent[0],
        AgentCommand::PlanResponse { approved: false, .. }
    ));
    assert_eq!(state.editor.input, "Revise this plan: ");
    assert_eq!(state.editor.cursor_pos, 18);
    assert!(state.working_since.is_none());
}

#[test]
fn the_list_of_sessions_can_show_all_workspaces() {
    let mut state = AppState::new();
    state.has_session_store = true;
    state.session = Some(SavedSession::new(
        "/one".to_string(),
        "p".to_string(),
        "m".to_string(),
        "off".to_string(),
        "id".to_string(),
        "t",
    ));
    state.pending_sessions = Some(PendingSessionPicker {
        sessions: vec![summary("first")],
        selected: 0,
        show_all: false,
    });
    press(&mut state, KeyPress::plain(Key::Char('a')));
    let picker = state.pending_sessions.as_ref().unwrap();
    assert!(picker.show_all);
    assert_eq!(picker.sessions[0].id, "everywhere");
    press(&mut state, KeyPress::plain(Key::Char('a')));
    assert_eq!(state.pending_sessions.as_ref().unwrap().sessions[0].id, "here");
    press(&mut state, KeyPress::plain(Key::Esc));
    assert!(state.pending_sessions.is_none());
    assert_eq!(state.status, "Session picker closed.");
}

#[test]
fn an_empty_list_has_nothing_to_resume() {
    let mut state = AppState::new();
    state.pending_sessions =
        Some(PendingSessionPicker { sessions: vec![], selected: 0, show_all: false });
    press(&mut state, KeyPress::plain(Key::Down));
    let (_, _, go_on) = press(&mut state, KeyPress::plain(Key::Enter));
    assert!(go_on);
    assert_eq!(state.status, "No sessions found.");
    assert!(state.pending_sessions.is_some());
}

#[test]
fn ctrl_c_ends_the_client_from_any_prompt() {
    let quit = KeyPress::control(Key::Char('c'));
    let mut state = AppState::new();
    assert!(!press(&mut state, quit).2);
    let mut state = AppState::new();
    state.pending_plan = Some(plan());
    assert!(!press(&mut state, quit).2);
    let mut state = AppState::new();
    state.pending_permission = Some(permission("p", "shell", "{}"));
    assert!(!press(&mut state, quit).2);
    assert!(!state.running);
}

#[test]
fn escape_interrupts_a_running_turn() {
    let mut state = AppState::new();
    press(&mut state, KeyPress::plain(Key::Esc));
    assert_eq!(state.status, "Press Ctrl+C to exit.");
    state.working_since = Some(1);
    let (sent, _, _) = press(&mut state, KeyPress::plain(Key::Esc));
    assert!(matches!(sent[0], AgentCommand::Interrupt));
    assert!(state.interrupt_requested);
    assert_eq!(state.status, "Interrupting...");
}

#[test]
fn messages_wait_while_a_turn_runs() {
    let mut state = AppState::new();
    state.working_since = Some(1);
    state.editor.set_text("next");
    let (sent, _, _) = press(&mut state, KeyPress::plain(Key::Enter));
    assert!(sent.is_empty());
    assert_eq!(state.editor.input, "next");
    assert_eq!(state.status, "Already working; press Esc to interrupt.");
}

#[test]
fn pasting_waits_for_the_prompt() {
    let mut state = AppState::new();
    state.pending_plan = Some(plan());
    state.handle_paste("text");
    assert_eq!(state.editor.input, "");
    assert_eq!(state.status, "Finish the current prompt before pasting.");
    state.pending_plan = None;
    state.handle_paste("text");
    assert_eq!(state.editor.input, "text");
}

#[test]
fn keys_edit_and_scroll() {
    let mut state = AppState::new();
    for c in "ab中".chars() {
        press(&mut state, KeyPress::plain(Key::Char(c)));
    }
    assert_eq!(state.editor.input, "ab中");
    press(&mut state, KeyPress::plain(Key::Home));
    press(&mut state, KeyPress::plain(Key::Delete));
    press(&mut state, KeyPress::plain(Key::End));
    press(&mut state, KeyPress::plain(Key::Backspace));
    assert_eq!(state.editor.input, "b");
    press(&mut state, KeyPress::shift(Key::Up));
    assert_eq!(state.viewport.pending_scroll_delta, -3);
    press(&mut state, KeyPress::plain(Key::PageDown));
    assert_eq!(state.viewport.pending_scroll_delta, -2);
}

#[test]
fn typing_and_backspace_undo_each_other() {
    let mut editor = InputEditor::new();
    editor.set_text("ab");
    editor.move_cursor_left();
    editor.insert_text("中");
    assert_eq!(editor.input, "a中b");
    editor.backspace();
    assert_eq!((editor.input.as_str(), editor.cursor_pos), ("ab", 1));
}
