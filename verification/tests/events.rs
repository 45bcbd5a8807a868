use deepcode::event::{AgentCommand, AgentEvent};
use deepcode::session::{list_sessions, ChatMessage, SavedSession, SessionSummary};
use deepcode::types::{
    Decision, FileChangePreview, Message, ModelProfile, PermissionEvaluation, ReasoningEffort, Role,
    Usage,
};
use deepcode::ui::choice::{PermissionChoice, PlanChoice};
use deepcode::ui::state::{AfterSend, AppState, Moment, Step, TuiAction};
use deepcode::ui::status::{
    display_name, display_path, file_preview_options_line, permission_options_line, plan_options_line,
    tool_activity, tool_activity_showing, tool_issue_status, tool_status, PendingPermission,
};
use deepcode::ui::steps::Refreshed;
use deepcode::ui::usage::{append_usage_summary, usage_summary, TurnUsage};
use serde_json::Value;

fn json(text: &str) -> Value {
    serde_json::from_str(text).unwrap()
}

fn at(ticks: u64) -> Moment {
    Moment {
        ticks,
        stamp: "2026-03-01T00:00:00Z".to_string(),
        session_id: "550e8400-e29b-41d4-a716-446655440009".to_string(),
    }
}

/// What the world outside saw and how it answers.
struct World {
    delivers: bool,
    save_error: Option<String>,
    sent: Vec<AgentCommand>,
    saved: Vec<(String, String, usize, usize, bool)>,
    sessions: Vec<SavedSession>,
}

impl World {
    fn new() -> World {
        World { delivers: true, save_error: None, sent: vec![], saved: vec![], sessions: vec![] }
    }

    fn list(&self, workspace: Option<&str>) -> Vec<SessionSummary> {
        let absolute = self.sessions.iter().map(|_| true).collect();
        list_sessions(&self.sessions, &absolute, workspace, None)
    }

    fn run(&mut self, state: &mut AppState, mut step: Step) -> bool {
        loop {
            step = match step {
                Step::Done { go_on } => return go_on,
                Step::Send { command, next } => {
                    if self.delivers {
                        self.sent.push(command);
                    }
                    state.after_send(next, self.delivers, &at(5))
                }
                Step::Save { next } => {
                    let session = state.session.as_ref().unwrap();
                    let result = match &self.save_error {
                        Some(error) => Err(error.clone()),
                        None => {
                            self.saved.push((
                                session.id.clone(),
                                session.title.clone(),
                                session.ui_messages.len(),
                                session.core_messages.len(),
                                session.title_generated,
                            ));
                            Ok(())
                        }
                    };
                    state.after_save(next, result, &at(5))
                }
                Step::List { workspace, next } => {
                    let listed = self.list(workspace.as_deref());
                    state.after_list(next, Ok(listed))
                }
                Step::Load { id } => {
                    let found = self.sessions.iter().any(|session| session.id == id);
                    let result = if found { Ok(()) } else { Err(format!("Cannot read {id}")) };
                    state.after_load(id, result, &at(5))
                }
                Step::RefreshModels => state.after_refresh(Refreshed::Failed),
            };
        }
    }

    fn slash(&mut self, state: &mut AppState, input: &str) -> bool {
        let step = state.handle_slash_command(input, &at(5));
        self.run(state, step)
    }

    fn event(&mut self, state: &mut AppState, event: AgentEvent) {
        let step = state.handle_agent_event(event, &at(5));
        assert!(self.run(state, step));
    }
}

fn handle(state: &mut AppState, event: AgentEvent) {
    World::new().event(state, event);
}

fn sample_permission_evaluation() -> PermissionEvaluation {
    PermissionEvaluation {
        decision: Decision::Allow,
        justification: None,
        summary: "web search".to_string(),
        risk: "routine".to_string(),
        sandbox_policy: "read-only".to_string(),
    }
}

fn preview(path: &str, before_exists: bool, diff: &str) -> FileChangePreview {
    FileChangePreview {
        path: path.to_string(),
        before_exists,
        before: String::new(),
        after: "new\n".to_string(),
        unified_diff: diff.to_string(),
    }
}

fn usage(counts: [usize; 5]) -> Usage {
    Usage {
        input_tokens: counts[0],
        output_tokens: counts[1],
        cached_input_tokens: counts[2],
        cache_miss_input_tokens: counts[3],
        reasoning_output_tokens: counts[4],
    }
}

fn model(id: &str, efforts: Vec<ReasoningEffort>) -> ModelProfile {
    ModelProfile {
        id: id.to_string(),
        provider: "test".to_string(),
        display_name: None,
        max_output_tokens: 8192,
        context_window: 64_000,
        reasoning_efforts: efforts,
    }
}

fn session(id: &str, workspace: &str, content: &str) -> SavedSession {
    let mut session = SavedSession::new(
        workspace.to_string(),
        "deepseek".to_string(),
        "model".to_string(),
        "high".to_string(),
        id.to_string(),
        "2026-01-01T00:00:00Z",
    );
    if !content.is_empty() {
        session.ui_messages.push(ChatMessage::of("user", content));
    }
    session
}

const ONE: &str = "550e8400-e29b-41d4-a716-446655440001";
const TWO: &str = "550e8400-e29b-41d4-a716-446655440002";
const THREE: &str = "550e8400-e29b-41d4-a716-446655440003";

#[test]
fn status_updates_do_not_create_history_messages() {
    let mut state = AppState::new();

    handle(
        &mut state,
        AgentEvent::StatusUpdate { message: "Working...".to_string() },
    );

    assert!(state.messages.is_empty());
    assert!(state.working_since.is_none());
    assert_eq!(state.status, "Working...");
}

#[test]
fn turn_complete_records_usage_without_changing_active_status() {
    let mut state = AppState::new();
    state.status = "Working...".to_string();

    handle(
        &mut state,
        AgentEvent::TurnComplete(usage([123, 456, 100, 23, 42])),
    );

    assert!(state.messages.is_empty());
    assert_eq!(state.status, "Working...");
    assert_eq!(state.input_status_text(), "Working...");
    assert_eq!(
        state.last_usage,
        Some(TurnUsage {
            input_tokens: 123,
            output_tokens: 456,
            cached_input_tokens: 100,
            cache_miss_input_tokens: 23,
            reasoning_output_tokens: 42,
        })
    );
}

#[test]
fn turn_complete_ignores_missing_zero_usage() {
    let mut state = AppState::new();
    let known = TurnUsage {
        input_tokens: 123,
        output_tokens: 456,
        cached_input_tokens: 100,
        cache_miss_input_tokens: 23,
        reasoning_output_tokens: 42,
    };
    state.last_usage = Some(known);

    handle(&mut state, AgentEvent::TurnComplete(usage([0, 0, 0, 0, 0])));

    assert_eq!(state.last_usage, Some(known));
}

#[test]
fn ready_status_shows_last_cache_hit_rate() {
    let mut state = AppState::new();
    state.status = "Ready.".to_string();
    state.last_usage = Some(TurnUsage::of(usage([123, 456, 100, 23, 42])));

    let status = state.input_status_text();

    assert!(status.contains("last in/out 123/456"));
    assert!(status.contains("cache hit 81% (100/123)"));
    assert!(status.contains("reasoning 42"));
}

#[test]
fn ready_status_names_mode_and_switch_shortcut() {
    let mut state = AppState::new();
    state.status = "Ready.".to_string();

    let agent_status = state.input_status_text();
    assert!(agent_status.contains("Agent mode"));
    assert!(agent_status.contains("Shift+Tab"));

    state.plan_mode_enabled = true;
    let plan_status = state.input_status_text();
    assert!(plan_status.contains("Plan mode"));
    assert!(plan_status.contains("Shift+Tab"));
}

#[test]
fn reasoning_is_finished_before_answer_text() {
    let mut state = AppState::new();

    handle(
        &mut state,
        AgentEvent::StatusUpdate { message: "Working...".to_string() },
    );
    handle(
        &mut state,
        AgentEvent::ReasoningDelta("inspect parser".to_string()),
    );
    handle(&mut state, AgentEvent::TextDelta("done".to_string()));

    assert_eq!(state.messages.len(), 1);
    assert!(state.messages[0].role.starts_with("reasoning:"));
    assert_eq!(state.messages[0].content, "inspect parser");
    assert_eq!(state.streaming_text, "done");
    assert!(state.reasoning_started_at.is_none());
}

#[test]
fn working_state_hides_empty_input_prompt() {
    let mut state = AppState::new();
    state.working_since = Some(0);

    assert!(state.should_hide_empty_input_prompt());

    state.editor.set_text("draft");
    assert!(!state.should_hide_empty_input_prompt());
}

#[test]
fn permission_prompt_is_not_hidden_while_working() {
    let mut state = AppState::new();
    state.working_since = Some(0);
    state.pending_permission = Some(PendingPermission {
        request_id: "perm_1".to_string(),
        tool_name: "web_search".to_string(),
        input: json(r#"{"query": "DeepSeek V4"}"#),
        evaluation: None,
        selected: PermissionChoice::AllowOnce,
    });

    assert!(!state.should_hide_empty_input_prompt());
}

#[test]
fn tool_events_update_status_without_history_noise() {
    let mut state = AppState::new();

    handle(
        &mut state,
        AgentEvent::ToolCallStarted {
            id: "call_1".to_string(),
            name: "web_search".to_string(),
            input: json(r#"{"query": "DeepSeek V4"}"#),
        },
    );
    handle(
        &mut state,
        AgentEvent::ToolCallFailed {
            id: "call_1".to_string(),
            name: "web_search".to_string(),
            error: "Missing 'query' parameter".to_string(),
        },
    );

    assert!(state.messages.is_empty());
    assert_eq!(state.status, "Adjusting web search arguments...");
}

#[test]
fn tool_activity_never_displays_missing_placeholders() {
    for name in ["read_file", "grep", "glob", "shell", "write_file", "edit_file"] {
        let (_, detail) = tool_activity(name, &json("{}"));
        assert!(!detail.contains("<missing"), "{}: {}", name, detail);
    }
}

#[test]
fn agent_tool_activity_is_single_line() {
    let (_, detail) = tool_activity(
        "agent",
        &json(r#"{"task": "Analyze the project.\nLook at permissions.\nReport findings."}"#),
    );

    assert_eq!(
        detail,
        "Analyze the project. Look at permissions. Report findings."
    );
}

#[test]
fn permission_prompt_stays_in_input_state_not_history() {
    let mut state = AppState::new();

    handle(
        &mut state,
        AgentEvent::PermissionNeeded {
            request_id: "perm_1".to_string(),
            tool_name: "web_search".to_string(),
            input: json(r#"{"query": "DeepSeek V4"}"#),
            evaluation: sample_permission_evaluation(),
        },
    );

    let permission = state.pending_permission.as_ref().unwrap();
    assert!(state.messages.is_empty());
    assert_eq!(permission.selected, PermissionChoice::AllowOnce);
    assert!(state
        .input_status_text()
        .contains("Permission required: web search"));
    assert!(permission_options_line(permission).contains("[Allow once]"));
}

#[test]
fn file_preview_event_creates_review_state_and_diff_message() {
    let mut state = AppState::new();

    handle(
        &mut state,
        AgentEvent::FileChangePreviewNeeded {
            request_id: "preview_1".to_string(),
            tool_name: "write_file".to_string(),
            input: json(r#"{"path": "a.txt", "content": "new"}"#),
            preview: preview(
                "a.txt",
                true,
                "--- a/a.txt\n+++ b/a.txt\n@@ -1,1 +1,1 @@\n-old\n+new\n",
            ),
        },
    );

    assert!(state.pending_file_preview.is_some());
    assert_eq!(state.messages.len(), 1);
    assert_eq!(state.messages[0].role, "diff");
    assert!(state.messages[0].content.contains("Update: a.txt"));
    assert!(state.input_status_text().contains("Review changes: a.txt"));
    assert!(
        file_preview_options_line(state.pending_file_preview.as_ref().unwrap()).contains("[Apply]")
    );
}

#[test]
fn new_file_preview_uses_create_title() {
    let mut state = AppState::new();

    handle(
        &mut state,
        AgentEvent::FileChangePreviewNeeded {
            request_id: "preview_1".to_string(),
            tool_name: "write_file".to_string(),
            input: json(r#"{"path": "new.txt", "content": "new"}"#),
            preview: preview(
                "new.txt",
                false,
                "--- /dev/null\n+++ b/new.txt\n@@ -0,0 +1,1 @@\n+new\n",
            ),
        },
    );

    assert!(state.messages[0].content.contains("Create: new.txt"));
}

#[test]
fn plan_approval_event_creates_review_state() {
    let mut state = AppState::new();

    handle(&mut state, AgentEvent::TextDelta("1. Inspect\n".to_string()));
    handle(
        &mut state,
        AgentEvent::PlanApprovalNeeded {
            request_id: "plan_1".to_string(),
            plan: "1. Inspect\n2. Edit".to_string(),
            plan_path: "/tmp/plan.md".to_string(),
            restored: false,
        },
    );

    let plan = state.pending_plan.as_ref().unwrap();
    assert_eq!(state.messages.len(), 1);
    assert_eq!(state.messages[0].role, "assistant");
    assert!(state.messages[0].content.contains("1. Inspect"));
    assert_eq!(plan.selected, PlanChoice::Approve);
    assert!(state.input_status_text().contains("Review plan: 1. Inspect"));
    assert!(plan_options_line(plan).contains("[Approve]"));
}

#[test]
fn slash_plan_enables_persistent_plan_mode() {
    let mut state = AppState::new();
    let mut world = World::new();

    assert!(world.slash(&mut state, "/plan"));

    assert!(state.plan_mode_enabled);
    assert!(matches!(world.sent[0], AgentCommand::SetPlanMode { enabled: true }));
}

#[test]
fn slash_plan_with_task_sends_one_shot_plan_process() {
    let mut state = AppState::new();
    let mut world = World::new();

    assert!(world.slash(&mut state, "/plan update parser"));

    assert!(!state.plan_mode_enabled);
    assert_eq!(state.messages[0].content, "update parser");
    assert!(matches!(
        &world.sent[0],
        AgentCommand::PlanProcess { message } if message == "update parser"
    ));
}

#[test]
fn slash_model_switches_to_configured_model() {
    let mut state = AppState::new();
    state.available_models = vec![model("fast-model", vec![ReasoningEffort::Off])];
    let mut world = World::new();

    assert!(world.slash(&mut state, "/model fast-model"));

    assert_eq!(state.current_model.as_deref(), Some("fast-model"));
    match &world.sent[0] {
        AgentCommand::SetModel { model, max_tokens, context_window } => {
            assert_eq!(model, "fast-model");
            assert_eq!(*max_tokens, 8192);
            assert_eq!(*context_window, 64_000);
        }
        other => panic!("unexpected command: {:?}", other),
    }
}

#[test]
fn slash_effort_sets_and_disables_reasoning_effort() {
    let mut state = AppState::new();
    state.current_model = Some("reasoning-model".to_string());
    state.available_models = vec![model(
        "reasoning-model",
        vec![ReasoningEffort::Off, ReasoningEffort::High],
    )];
    let mut world = World::new();

    world.slash(&mut state, "/effort high");
    assert_eq!(state.reasoning_effort.as_deref(), Some("high"));
    assert!(matches!(
        &world.sent[0],
        AgentCommand::SetReasoningEffort { effort: Some(value) } if value == "high"
    ));

    world.slash(&mut state, "/effort off");
    assert_eq!(state.reasoning_effort.as_deref(), Some("off"));
    assert!(matches!(
        &world.sent[1],
        AgentCommand::SetReasoningEffort { effort: Some(value) } if value == "off"
    ));
}

#[test]
fn model_status_update_does_not_block_effort_change() {
    let mut state = AppState::new();
    state.available_models = vec![model(
        "reasoning-model",
        vec![ReasoningEffort::Off, ReasoningEffort::High],
    )];
    let mut world = World::new();

    assert!(world.slash(&mut state, "/model reasoning-model"));
    assert!(matches!(world.sent[0], AgentCommand::SetModel { .. }));

    world.event(
        &mut state,
        AgentEvent::StatusUpdate { message: "Model switched to reasoning-model.".to_string() },
    );

    assert!(state.working_since.is_none());
    assert!(world.slash(&mut state, "/effort high"));
    assert_eq!(state.reasoning_effort.as_deref(), Some("high"));
    assert!(matches!(
        &world.sent[1],
        AgentCommand::SetReasoningEffort { effort: Some(value) } if value == "high"
    ));
}

#[test]
fn slash_resume_opens_current_workspace_session_picker() {
    let mut state = AppState::new();
    let mut world = World::new();
    world.sessions = vec![
        session(ONE, "/workspace", "current"),
        session(TWO, "/workspace", "previous"),
        session(THREE, "/other-workspace", "other"),
    ];
    state.has_session_store = true;
    state.session = Some(session(ONE, "/workspace", "current"));

    assert!(world.slash(&mut state, "/resume"));

    let picker = state.pending_sessions.as_ref().unwrap();
    assert_eq!(picker.sessions.len(), 2);
    assert!(!picker.show_all);
    assert!(picker
        .sessions
        .iter()
        .all(|session| session.workspace_root == "/workspace"));
    assert!(state
        .input_status_text()
        .contains("Up/Down select, Enter resume"));
}

#[test]
fn slash_clear_archives_current_session_and_clears_agent() {
    let mut state = AppState::new();
    let mut world = World::new();
    state.messages.push(ChatMessage::of("user", "old task"));
    state
        .core_messages
        .push(Message::of_text(Role::User, "old task"));
    state.current_model = Some("model".to_string());
    state.reasoning_effort = Some("high".to_string());
    state.has_session_store = true;
    state.session = Some(session(ONE, "/workspace", ""));

    world.slash(&mut state, "/clear");

    assert!(state.messages.is_empty());
    assert!(state.core_messages.is_empty());
    assert_ne!(state.session.as_ref().unwrap().id, ONE);
    assert!(matches!(world.sent[0], AgentCommand::ClearSession));
    assert_eq!(world.saved.len(), 1);
    assert_eq!(world.saved[0].0, ONE);
    assert_eq!(world.saved[0].1, "old task");
}

#[test]
fn generated_title_event_updates_the_existing_session() {
    let mut state = AppState::new();
    let mut world = World::new();
    let request = "Please inspect the parser implementation";
    state.messages.push(ChatMessage::of("user", request));
    state.core_messages.push(Message::of_text(Role::User, request));
    state.has_session_store = true;
    state.session = Some(session(ONE, "/workspace", request));

    world.event(
        &mut state,
        AgentEvent::SessionTitleGenerated { title: "Inspect parser implementation".to_string() },
    );

    assert_eq!(world.saved.len(), 1);
    assert_eq!(world.saved[0].1, "Inspect parser implementation");
    assert!(world.saved[0].4);
}

#[test]
fn agent_permission_title_is_concise() {
    let mut state = AppState::new();
    state.pending_permission = Some(PendingPermission {
        request_id: "perm_1".to_string(),
        tool_name: "agent".to_string(),
        input: json(
            r#"{"task": "Analyze the DeepCode project at /Users/gru/Documents/IntellijIDEAProjects/deepcode. Look at the CLI rendering and permission flow."}"#,
        ),
        evaluation: None,
        selected: PermissionChoice::AllowOnce,
    });

    let title = state.input_status_text();
    assert!(title.starts_with(
        "Permission required: subagent (approval) - Analyze the DeepCode project"
    ));
    assert!(!title.contains("Permission required: agent"));
    assert!(title.chars().count() <= 120);
}

#[test]
fn agent_tool_start_waits_for_subagent_event() {
    let mut state = AppState::new();
    state.status = "Preparing 1 tool call(s)...".to_string();

    handle(
        &mut state,
        AgentEvent::ToolCallStarted {
            id: "call_1".to_string(),
            name: "agent".to_string(),
            input: json(r#"{"task": "Analyze the project"}"#),
        },
    );

    assert_eq!(state.status, "Preparing 1 tool call(s)...");
    assert!(state.messages.is_empty());
}

#[test]
fn subagent_status_is_truncated() {
    let mut state = AppState::new();
    let long_task = "Analyze ".repeat(50);

    handle(
        &mut state,
        AgentEvent::SubagentStarted { task_id: "task_1".to_string(), task: long_task },
    );

    assert!(state.status.starts_with("Subagent running: Analyze "));
    assert!(state.status.ends_with("......"));
    assert!(state.status.chars().count() < 130);
}

#[test]
fn app_state_initializes_with_default_status() {
    let state = AppState::new();
    assert!(state.status.contains("/exit"));
    assert!(state.messages.is_empty());
}

#[test]
fn a_lost_agent_undoes_a_change_of_mode() {
    let mut state = AppState::new();
    let mut world = World::new();
    world.delivers = false;
    assert!(world.slash(&mut state, "/plan"));
    assert!(!state.plan_mode_enabled);
    assert_eq!(state.status, "Agent channel closed; mode was not changed.");
    assert!(world.slash(&mut state, "/plan do it"));
    assert!(state.working_since.is_none());
    assert_eq!(state.status, "Agent channel closed.");
}

#[test]
fn a_failed_save_is_reported() {
    let mut state = AppState::new();
    let mut world = World::new();
    world.save_error = Some("disk full".to_string());
    state.messages.push(ChatMessage::of("user", "task"));
    state.has_session_store = true;
    state.session = Some(session(ONE, "/workspace", "task"));

    world.event(
        &mut state,
        AgentEvent::AgentFinished { final_message: String::new() },
    );
    assert_eq!(state.status, "Could not save session: disk full");
    world.slash(&mut state, "/clear");
    assert_eq!(state.status, "Could not save current session: disk full");
    assert_eq!(state.messages.len(), 1);
    world.event(
        &mut state,
        AgentEvent::SessionTitleGenerated { title: "Title".to_string() },
    );
    assert_eq!(state.status, "Could not save session title: disk full");
}

#[test]
fn a_cleared_session_keeps_the_effort_of_the_last() {
    let mut state = AppState::new();
    let mut world = World::new();
    state.messages.push(ChatMessage::of("user", "task"));
    state.has_session_store = true;
    state.session = Some(session(ONE, "/workspace", "task"));
    world.slash(&mut state, "/clear");
    let next = state.session.as_ref().unwrap();
    assert_eq!(next.reasoning_effort, "high");
    assert_eq!(next.model, "model");
    assert_eq!(next.id, "550e8400-e29b-41d4-a716-446655440009");
    assert_eq!(next.created_at, "2026-03-01T00:00:00Z");
    assert_eq!(state.status, "Conversation cleared. New session started.");
}

#[test]
fn an_unknown_command_is_named() {
    let mut state = AppState::new();
    let mut world = World::new();
    assert!(world.slash(&mut state, "/nope now"));
    assert_eq!(
        state.status,
        "Unknown command: /nope. Type /help for available commands."
    );
    assert!(!world.slash(&mut state, "/quit"));
    assert!(!state.running);
}

#[test]
fn models_are_listed_and_checked() {
    let mut state = AppState::new();
    let mut world = World::new();
    state.available_models = vec![
        model("a", vec![ReasoningEffort::Off]),
        model("b", vec![ReasoningEffort::High]),
    ];
    world.slash(&mut state, "/model");
    assert_eq!(state.status, "Current model: unknown. Available: a, b");
    world.slash(&mut state, "/model c");
    assert_eq!(state.status, "Unknown model: c. Use /model to list models.");
    world.slash(&mut state, "/model b");
    assert_eq!(
        state.status,
        "Model 'b' does not support effort 'off'. Supported: high"
    );
    world.slash(&mut state, "/model a b");
    assert_eq!(state.status, "Usage: /model <name|refresh>");
    world.slash(&mut state, "/model refresh");
    assert_eq!(
        state.status,
        "Model catalog refresh is unavailable for this session."
    );
    assert!(world.sent.is_empty());
}

#[test]
fn efforts_are_listed_and_checked() {
    let mut state = AppState::new();
    let mut world = World::new();
    world.slash(&mut state, "/effort");
    assert_eq!(state.status, "Current reasoning effort: off. Available: off");
    world.slash(&mut state, "/effort HIGH");
    assert_eq!(
        state.status,
        "Unsupported reasoning effort: HIGH. Available: off"
    );
    world.slash(&mut state, "/effort OFF");
    assert_eq!(state.status, "Reasoning effort set to off.");
}

#[test]
fn a_refresh_keeps_the_model_in_use() {
    let mut state = AppState::new();
    state.current_model = Some("old".to_string());
    state.available_models = vec![model("old", vec![ReasoningEffort::Off])];
    state.after_refresh(Refreshed::Models {
        models: vec![model("new", vec![ReasoningEffort::Off])],
        stale: false,
    });
    let ids: Vec<&str> = state.available_models.iter().map(|m| m.id.as_str()).collect();
    assert_eq!(ids, vec!["old", "new"]);
    assert_eq!(state.status, "Model catalog refreshed; 2 models available.");
    state.after_refresh(Refreshed::Models { models: vec![], stale: true });
    assert_eq!(
        state.status,
        "Model refresh used stale data; 1 models available."
    );
    state.after_refresh(Refreshed::NotStarted { error: "no threads".to_string() });
    assert_eq!(state.status, "Could not start model refresh: no threads");
}

#[test]
fn resuming_by_id_saves_and_leaves() {
    let mut state = AppState::new();
    let mut world = World::new();
    world.sessions = vec![session(TWO, "/workspace", "other")];
    state.messages.push(ChatMessage::of("user", "task"));
    state.has_session_store = true;
    state.session = Some(session(ONE, "/workspace", "task"));
    assert!(world.slash(&mut state, "/resume missing"));
    assert_eq!(state.status, "Cannot read missing");
    assert!(!world.slash(&mut state, &format!("/resume {TWO}")));
    assert!(matches!(&state.exit_action, TuiAction::Resume(id) if id == TWO));
    assert_eq!(world.saved.len(), 1);
}

#[test]
fn busy_clients_refuse_to_change_sessions() {
    let mut state = AppState::new();
    let mut world = World::new();
    state.working_since = Some(1);
    state.has_session_store = true;
    state.session = Some(session(ONE, "/workspace", "task"));
    for (command, word) in [
        ("/clear", "clearing"),
        ("/sessions", "opening sessions"),
        ("/resume x", "resuming"),
        ("/model refresh", "refreshing models"),
        ("/model x", "switching model"),
        ("/effort off", "changing effort"),
    ] {
        world.slash(&mut state, command);
        assert_eq!(
            state.status,
            format!("Finish or interrupt the current operation before {word}.")
        );
    }
    assert!(world.sent.is_empty());
    assert!(world.saved.is_empty());
}

#[test]
fn the_end_of_a_turn_closes_its_prompts() {
    let mut state = AppState::new();
    state.working_since = Some(1);
    handle(&mut state, AgentEvent::TextDelta("partial".to_string()));
    handle(
        &mut state,
        AgentEvent::PermissionNeeded {
            request_id: "p".to_string(),
            tool_name: "shell".to_string(),
            input: json("{}"),
            evaluation: sample_permission_evaluation(),
        },
    );
    handle(&mut state, AgentEvent::AgentError { message: "boom".to_string() });
    assert!(!state.is_busy());
    let roles: Vec<&str> = state.messages.iter().map(|m| m.role.as_str()).collect();
    assert_eq!(roles, vec!["assistant", "error"]);
    assert_eq!(state.status, "Error: boom");
}

#[test]
fn reasoning_time_is_measured() {
    let mut state = AppState::new();
    let begin = at(2_000_000_000);
    let step = state.handle_agent_event(AgentEvent::ReasoningDelta("hm".to_string()), &begin);
    assert!(matches!(step, Step::Done { go_on: true }));
    assert_eq!(state.reasoning_elapsed_secs(9_500_000_000), Some(7));
    state.handle_agent_event(AgentEvent::TextDelta("x".to_string()), &at(9_500_000_000));
    assert_eq!(state.messages[0].role, "reasoning:7");
}

#[test]
fn events_of_subagents_only_change_the_status() {
    let mut state = AppState::new();
    let nested = |event| AgentEvent::SubagentEvent {
        task_id: "t".to_string(),
        event: Box::new(event),
    };
    handle(
        &mut state,
        nested(AgentEvent::ToolCallStarted {
            id: "1".to_string(),
            name: "read_file".to_string(),
            input: json(r#"{"path": "src/main.rs"}"#),
        }),
    );
    assert_eq!(state.status, "Subagent Explored: Read main.rs");
    handle(
        &mut state,
        nested(AgentEvent::AgentError { message: "late".to_string() }),
    );
    assert_eq!(state.status, "Subagent issue: late");
    handle(
        &mut state,
        AgentEvent::SubagentCompleted { task_id: "t".to_string(), result: "a\nb\nc\nd".to_string() },
    );
    assert_eq!(state.status, "Subagent completed: a\nb\nc");
    assert!(state.messages.is_empty());
}

#[test]
fn tool_activities_are_named() {
    assert_eq!(
        tool_status("grep", &json(r#"{"pattern": "x", "path": "src/lib"}"#)),
        "Explored: Search x in lib"
    );
    assert_eq!(tool_status("grep", &json(r#"{"directory": "src"}"#)), "Explored: Search in src");
    assert_eq!(tool_status("git_branch", &json("{}")), "Edited: Update branch ");
    assert_eq!(tool_status("custom_tool", &json(r#"{"a":1}"#)), r#"Used Tool: custom_tool {"a":1}"#);
    assert_eq!(
        tool_issue_status("custom_tool", "Tool execution error: custom_tool -- no disk"),
        "Could not use custom tool: no disk"
    );
    assert!(tool_issue_status("shell", &"x".repeat(400)).chars().count() <= 180);
}

#[test]
fn paths_are_shown_by_their_last_component() {
    assert_eq!(display_path("/a/b/c.txt"), "c.txt");
    assert_eq!(display_path("a/b/"), "b");
    assert_eq!(display_path("a/b/."), "b");
    assert_eq!(display_path("a/.."), "a/..");
    assert_eq!(display_path("/"), "/");
    assert_eq!(display_path(""), "");
    for path in ["/a/b/c.txt", "a/b/", "a/..", "./x", "a//b", "a\\b.txt", "c:x", "//x/y/z", "..", "."] {
        let expected = std::path::Path::new(path).file_name().and_then(|name| name.to_str());
        assert_eq!(display_path(path), expected.unwrap_or(path));
    }
    assert_eq!(display_name("a/b", None), "a/b");
    assert_eq!(display_name("a/b", Some("b".to_string())), "b");
    let input = json(r#"{"path": "src/main.rs"}"#);
    assert_eq!(
        tool_activity_showing("edit_file", &input, "main.rs"),
        ("Edited", "Edit main.rs".to_string())
    );
    assert_eq!(tool_activity("edit_file", &input), ("Edited", "Edit main.rs".to_string()));
}

#[test]
fn usage_is_summed_and_described() {
    let mut total = TurnUsage::of(usage([1, 2, 0, 0, 0]));
    assert_eq!(usage_summary(&total), "usage: in/out 1/2");
    total.add_assign(&TurnUsage::of(usage([10, 20, 3, 1, 5])));
    assert_eq!(
        usage_summary(&total),
        "usage: in/out 11/22, cache hit 75% (3/4), reasoning 5"
    );
    assert_eq!(append_usage_summary("base", None), "base");
    assert_eq!(
        append_usage_summary("base", Some(&TurnUsage::of(usage([1, 2, 0, 0, 0])))),
        "base · last in/out 1/2"
    );
}

#[test]
fn a_step_names_what_follows() {
    let mut state = AppState::new();
    let step = state.handle_slash_command("/permissions", &at(0));
    match step {
        Step::Send { command: AgentCommand::PermissionsSnapshot, next: AfterSend::Permissions } => {}
        other => panic!("unexpected step: {:?}", other),
    }
    state.after_send(AfterSend::Permissions, true, &at(0));
    assert_eq!(state.status, "Loading permissions snapshot...");
}
