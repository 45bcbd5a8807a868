use deepcode::event::{AgentCommand, AgentEvent};
use deepcode::listing::{
    describe_model, describe_provider, describe_session, format_unix_time, redact, time_or_number,
    truncate_with_ellipsis, CatalogStatus,
};
use deepcode::paths::{
    data_root, default_config_path, default_log_path, expand_home, expand_with, permissions_config,
    Location,
};
use deepcode::run::{
    read_permission_answer, read_preview_answer, OneShot, Question, RunStep,
};
use deepcode::session::{ChatMessage, SavedSession, SessionSummary};
use deepcode::setup::{
    begin_chat, build_system_prompt, chat_settings, choose_effort, choose_model, next_session,
    parse_log_level, register_subagent_tools, resume_target, subagents_enabled, tool_enabled,
    EffortProblem, LogLevel, ResumeTarget, ToolsConfig,
};
use deepcode::types::{
    ApprovalScope, Decision, FileChangePreview, Message, ModelProfile, PermissionEvaluation,
    ReasoningEffort, Role, Usage,
};
use deepcode::ui::banner::StartupHeader;
use deepcode::ui::state::TuiAction;
use serde_json::Value;

const ID: &str = "550e8400-e29b-41d4-a716-446655440001";

fn json(text: &str) -> Value {
    serde_json::from_str(text).unwrap()
}

fn session() -> SavedSession {
    SavedSession::new(
        "/workspace".to_string(),
        "deepseek".to_string(),
        "model".to_string(),
        "high".to_string(),
        ID.to_string(),
        "2026-01-01T00:00:00Z",
    )
}

fn model(id: &str, efforts: Vec<ReasoningEffort>) -> ModelProfile {
    ModelProfile {
        id: id.to_string(),
        provider: "test".to_string(),
        display_name: None,
        context_window: 64_000,
        max_output_tokens: 8192,
        reasoning_efforts: efforts,
    }
}

fn evaluation() -> PermissionEvaluation {
    PermissionEvaluation {
        decision: Decision::Prompt,
        justification: None,
        summary: "run".to_string(),
        risk: "elevated".to_string(),
        sandbox_policy: "workspace-write".to_string(),
    }
}

fn usage(input: usize, output: usize) -> Usage {
    Usage {
        input_tokens: input,
        output_tokens: output,
        cached_input_tokens: 0,
        cache_miss_input_tokens: 0,
        reasoning_output_tokens: 0,
    }
}

fn run() -> OneShot {
    OneShot::new(&vec!["fix".to_string(), "it".to_string()], session())
}

#[test]
fn tool_enabled_honors_disabled_agent() {
    let tools_config = ToolsConfig {
        disabled: vec!["agent".to_string()],
        max_file_size_bytes: None,
    };

    assert!(!tool_enabled(&tools_config, "agent"));
    assert!(tool_enabled(&tools_config, "shell"));
    assert!(!subagents_enabled(&tools_config));
    assert!(register_subagent_tools(&tools_config).wait_agents);
}

#[test]
fn system_prompt_only_mentions_subagents_when_enabled() {
    assert!(!build_system_prompt("test-model", "/work", false).contains("spawn_agent"));
    assert!(build_system_prompt("test-model", "/work", true).contains("spawn_agent"));
    let prompt = build_system_prompt("test-model", "/work", false);
    assert!(prompt.contains("configured model `test-model`."));
    assert!(prompt.contains("\nWorkspace: /work\n\n"));
}

#[test]
fn files_have_their_places() {
    assert_eq!(
        default_config_path("/home/me").path(),
        "/home/me/.config/deepcode/config.toml"
    );
    assert_eq!(default_config_path("/").path(), "/.config/deepcode/config.toml");
    assert_eq!(
        data_root(None, "/home/me").path(),
        "/home/me/.local/share/deepcode"
    );
    assert_eq!(data_root(Some("/data".to_string()), "/home/me").path(), "/data");
    assert_eq!(
        default_log_path(None, None, "/home/me").path(),
        "/home/me/.local/state/deepcode/logs/deepcode.log"
    );
    assert_eq!(
        default_log_path(None, Some("/state".to_string()), "/home/me").path(),
        "/state/logs/deepcode.log"
    );
    assert_eq!(
        default_log_path(Some("/x.log".to_string()), None, "/home/me").path(),
        "/x.log"
    );
}

#[test]
fn a_tilde_stands_for_the_home_directory() {
    assert_eq!(expand_home("/home/me", "~/policy.toml").path(), "/home/me/policy.toml");
    assert_eq!(expand_home("/home/me", "~//./a/b/").path(), "/home/me/a/b");
    assert_eq!(expand_home("/home/me", "~other/x").path(), "~other/x");
    assert_eq!(expand_home("/home/me", "/abs/~").path(), "/abs/~");
    for path in ["~/policy.toml", "~//./a/b/", "~", "~/", "~/.", "~/..", "~/.x", "~other", "./~/x"] {
        let path = std::path::Path::new(path);
        let expected = if path.starts_with("~") {
            std::path::Path::new("/home/me").join(path.strip_prefix("~").unwrap())
        } else {
            path.to_path_buf()
        };
        assert_eq!(
            expand_home("/home/me", path.to_str().unwrap()).path(),
            expected.to_str().unwrap()
        );
    }
}

fn paths(places: &[Location]) -> Vec<String> {
    places.iter().map(|place| place.path()).collect()
}

#[test]
fn places_are_a_base_and_its_parts() {
    let config = default_config_path("/home/me");
    assert_eq!(config.base, "/home/me");
    assert_eq!(config.parts, vec![".config", "deepcode", "config.toml"]);
    let expanded = expand_home("/home/me", "~/a/b/");
    assert_eq!(expanded.base, "/home/me");
    assert_eq!(expanded.parts, vec!["a/b"]);
    let kept = expand_with("/home/me", "x", None);
    assert_eq!((kept.base.as_str(), kept.parts.len()), ("x", 0));
    assert_eq!(Location::at("a".to_string()).with_part("/b").path(), "/b");
    assert_eq!(Location::at("a/".to_string()).with_part("b").path(), "a/b");
    assert_eq!(Location::at(String::new()).with_part("b").path(), "b");
    assert_eq!(Location::at("a".to_string()).with_part("").path(), "a/");
}

#[test]
fn policies_come_from_the_configuration_or_the_defaults() {
    let defaults = vec!["~/default.toml".to_string()];
    let chosen = permissions_config("/h", None, &vec![], &defaults, None, "/w.toml".to_string());
    assert_eq!(chosen.default_permissions, ":workspace");
    assert_eq!(paths(&chosen.policy_files), vec!["/h/default.toml"]);
    assert_eq!(chosen.write_policy_file.path(), "/w.toml");
    let chosen = permissions_config(
        "/h",
        Some(":read-only".to_string()),
        &vec!["~/own.toml".to_string()],
        &defaults,
        Some("~/write.toml".to_string()),
        "/w.toml".to_string(),
    );
    assert_eq!(chosen.default_permissions, ":read-only");
    assert_eq!(paths(&chosen.policy_files), vec!["/h/own.toml"]);
    assert_eq!(chosen.write_policy_file.path(), "/h/write.toml");
}

#[test]
fn the_model_is_chosen_from_the_catalog() {
    let models = vec![model("a", vec![]), model("b", vec![])];
    let id = |asked: Option<&str>, configured: Option<&str>| {
        choose_model(
            "p",
            asked.map(str::to_string),
            configured.map(str::to_string),
            &models,
        )
        .map(|profile| profile.id)
    };
    assert_eq!(id(None, None), Ok("a".to_string()));
    assert_eq!(id(None, Some("b")), Ok("b".to_string()));
    assert_eq!(id(Some("a"), Some("b")), Ok("a".to_string()));
    assert_eq!(
        id(Some("c"), None),
        Err("Model 'c' is not present in the live or cached catalog for provider 'p'".to_string())
    );
    assert_eq!(
        choose_model("p", None, None, &vec![]).unwrap_err(),
        "Provider 'p' has no discovered models"
    );
}

#[test]
fn the_effort_is_chosen_by_precedence() {
    let profile = model("m", vec![ReasoningEffort::Off, ReasoningEffort::High]);
    let choose = |asked: Option<&str>, model_default, provider_default| {
        choose_effort(
            &profile,
            asked.map(str::to_string),
            model_default,
            provider_default,
            ReasoningEffort::Off,
        )
    };
    assert_eq!(choose(None, None, None).unwrap(), ReasoningEffort::Off);
    assert_eq!(
        choose(None, None, Some(ReasoningEffort::High)).unwrap(),
        ReasoningEffort::High
    );
    assert_eq!(
        choose(Some("off"), Some(ReasoningEffort::High), None).unwrap(),
        ReasoningEffort::Off
    );
    match choose(None, Some(ReasoningEffort::Max), None).unwrap_err() {
        EffortProblem::Unsupported { message } => assert_eq!(
            message,
            "Model 'm' does not support configured reasoning effort 'max'"
        ),
        other => panic!("unexpected problem: {:?}", other),
    }
    match choose(Some("wild"), None, None).unwrap_err() {
        EffortProblem::Unknown { name } => assert_eq!(name, "wild"),
        other => panic!("unexpected problem: {:?}", other),
    }
}

#[test]
fn log_levels_are_read_in_any_case() {
    assert_eq!(parse_log_level("TRACE"), LogLevel::Trace);
    assert_eq!(parse_log_level("Warning"), LogLevel::Warn);
    assert_eq!(parse_log_level("off"), LogLevel::Off);
    assert_eq!(parse_log_level("loud"), LogLevel::Info);
}

#[test]
fn resuming_needs_an_id_or_the_last() {
    assert!(matches!(resume_target(None, true), Ok(ResumeTarget::Last)));
    assert!(matches!(
        resume_target(Some("x".to_string()), false),
        Ok(ResumeTarget::Session(id)) if id == "x"
    ));
    for (id, last) in [(None, false), (Some("x".to_string()), true)] {
        assert_eq!(
            resume_target(id, last).unwrap_err(),
            "Provide exactly one of <SESSION_ID> or --last"
        );
    }
}

#[test]
fn a_resumed_chat_brings_its_settings_and_messages() {
    let mut saved = session();
    saved.ui_messages.push(ChatMessage::of("user", "hello"));
    saved.core_messages.push(Message::of_text(Role::User, "hello"));
    let settings = chat_settings(Some(&saved), &Some("other".to_string()), &None);
    assert_eq!(settings.provider.as_deref(), Some("deepseek"));
    assert_eq!(settings.model.as_deref(), Some("model"));
    assert_eq!(settings.effort.as_deref(), Some("high"));
    let fresh = chat_settings(None, &Some("other".to_string()), &None);
    assert_eq!(fresh.provider.as_deref(), Some("other"));
    assert!(fresh.effort.is_none());

    let header = StartupHeader::current("model", Some("high"), "/work".to_string());
    let state = begin_chat(saved, header, vec![], "model".to_string(), Some("high".to_string()));
    assert_eq!(state.messages.len(), 1);
    assert_eq!(state.core_messages.len(), 1);
    assert!(state.has_session_store);
    assert_eq!(next_session(TuiAction::Exit), None);
    assert_eq!(next_session(TuiAction::Resume("x".to_string())), Some("x".to_string()));
}

#[test]
fn times_are_printed_in_utc() {
    assert_eq!(format_unix_time(0), "1970-01-01T00:00:00+00:00");
    assert_eq!(format_unix_time(1_767_225_600), "2026-01-01T00:00:00+00:00");
    assert_eq!(format_unix_time(i64::MAX as u64), i64::MAX.to_string());
    assert_eq!(time_or_number(5, None), "5");
}

#[test]
fn the_catalog_is_described() {
    let mut status = CatalogStatus {
        source: "cache".to_string(),
        refreshed_at: Some(0),
        stale: true,
        next_refresh_at: None,
        message: None,
    };
    assert_eq!(
        status.lines(),
        vec!["    catalog: source=cache, refreshed=1970-01-01T00:00:00+00:00, stale=true, next_refresh=manual only"]
    );
    status.refreshed_at = None;
    status.message = Some("offline".to_string());
    assert_eq!(
        status.lines(),
        vec![
            "    catalog: source=cache, refreshed=never, stale=true, next_refresh=manual only",
            "    status: offline",
        ]
    );
}

#[test]
fn models_and_sessions_are_listed_in_columns() {
    let profile = model("m", vec![ReasoningEffort::Off, ReasoningEffort::High]);
    assert_eq!(
        describe_model(&profile),
        format!("{:<32} {:>10} {:>10}   {}", "m", 64_000, 8192, "off,high")
    );
    let long = model(&"x".repeat(40), vec![]);
    assert!(describe_model(&long).starts_with(&format!("{}... ", "x".repeat(29))));
    let summary = SessionSummary {
        id: ID.to_string(),
        title: "Title".to_string(),
        workspace_root: "/work".to_string(),
        updated_at: "2026-01-01T00:00:00Z".to_string(),
        provider: "p".to_string(),
        model: "m".to_string(),
    };
    assert_eq!(
        describe_session(&summary, false),
        vec![format!("{:<36}  {:<10}  {:<30}  {}", ID, "2026-01-01", "p/m", "Title")]
    );
    assert_eq!(
        describe_session(&summary, true)[1],
        "                                      workspace: /work"
    );
    assert_eq!(truncate_with_ellipsis("abcdef", 5), "ab...");
    assert_eq!(truncate_with_ellipsis("abc", 5), "abc");
}

#[test]
fn keys_are_not_printed() {
    assert_eq!(redact(Some("value")), Some("***redacted***"));
    assert_eq!(redact(None), None);
    assert_eq!(describe_provider("p", true), "  Provider 'p': api_key=configured");
    assert_eq!(describe_provider("p", false), "  Provider 'p': api_key=not set");
}

#[test]
fn a_run_prints_what_the_agent_says() {
    let mut run = run();
    assert_eq!(run.prompt_text, "fix it");
    assert_eq!(run.session.ui_messages[0].content, "fix it");
    assert_eq!(run.session.core_messages.len(), 1);
    assert!(matches!(
        run.take_event(AgentEvent::TextDelta("done".to_string()), "t"),
        RunStep::Print { text } if text == "done"
    ));
    run.take_event(AgentEvent::TurnComplete(usage(3, 4)), "t");
    run.take_event(AgentEvent::TurnComplete(usage(5, 6)), "t");
    match run.take_event(AgentEvent::AgentFinished { final_message: String::new() }, "t") {
        RunStep::End { line_feed, lines } => {
            assert!(line_feed);
            assert_eq!(lines, vec!["(usage: in/out 8/10)", "(agent finished)"]);
        }
        other => panic!("unexpected step: {:?}", other),
    }
}

#[test]
fn a_run_notes_tools_and_subagents() {
    let mut run = run();
    let started = |name: &str, input: &str| AgentEvent::ToolCallStarted {
        id: "1".to_string(),
        name: name.to_string(),
        input: json(input),
    };
    match run.take_event(started("read_file", r#"{"path": "a/b.rs"}"#), "t") {
        RunStep::Note { lines } => assert_eq!(lines, vec!["", "• Explored: Read b.rs"]),
        other => panic!("unexpected step: {:?}", other),
    }
    assert!(matches!(
        run.take_event(started("spawn_agent", "{}"), "t"),
        RunStep::Wait
    ));
    match run.take_event(
        AgentEvent::SubagentStarted { task_id: "t".to_string(), task: "look\n around".to_string() },
        "t",
    ) {
        RunStep::Note { lines } => assert_eq!(lines, vec!["", "• Delegated: look around"]),
        other => panic!("unexpected step: {:?}", other),
    }
    match run.take_event(
        AgentEvent::SubagentEvent {
            task_id: "t".to_string(),
            event: Box::new(AgentEvent::AgentError { message: "late".to_string() }),
        },
        "t",
    ) {
        RunStep::Note { lines } => assert_eq!(lines, vec!["  Subagent issue: late"]),
        other => panic!("unexpected step: {:?}", other),
    }
    match run.take_event(
        AgentEvent::ToolCallFailed {
            id: "1".to_string(),
            name: "shell".to_string(),
            error: "broken".to_string(),
        },
        "t",
    ) {
        RunStep::Note { lines } => assert_eq!(lines, vec!["  Could not use command: broken"]),
        other => panic!("unexpected step: {:?}", other),
    }
}

#[test]
fn a_run_asks_for_permission() {
    let mut run = run();
    let step = run.take_event(
        AgentEvent::PermissionNeeded {
            request_id: "p1".to_string(),
            tool_name: "shell".to_string(),
            input: json(r#"{"command":"ls"}"#),
            evaluation: evaluation(),
        },
        "t",
    );
    let (question, request_id) = match step {
        RunStep::Ask { question, request_id, lines, prompt } => {
            assert_eq!(lines[4], format!("║  Tool: {:<34}║", "shell"));
            assert_eq!(lines[6], format!("║  Sandbox: {:<31}║", "workspace-write"));
            assert_eq!(lines[7], format!("║  Args: {:<34}║", r#"{"command":"ls"}"#));
            assert_eq!(prompt, "> ");
            (question, request_id)
        }
        other => panic!("unexpected step: {:?}", other),
    };
    let reply = run.take_answer(question, request_id, Some(" ALWAYS \n"));
    assert!(matches!(
        reply.command,
        AgentCommand::PermissionResponse { approved: true, scope: ApprovalScope::Persistent, .. }
    ));
    assert_eq!(reply.note, None);
    let reply = run.take_answer(Question::Permission, "p2".to_string(), None);
    assert_eq!(reply.note, Some("Permission denied."));
    assert!(!reply.quit);
    let reply = run.take_answer(Question::Permission, "p3".to_string(), Some("q"));
    assert!(reply.quit);
    assert!(run.quit_requested);
    assert!(!run.conclude("t"));
}

#[test]
fn answers_are_read_by_their_words() {
    assert_eq!(read_permission_answer("yes"), (true, ApprovalScope::Once, false));
    assert_eq!(read_permission_answer("s"), (true, ApprovalScope::Session, false));
    assert_eq!(read_permission_answer("quit"), (false, ApprovalScope::Once, true));
    assert_eq!(read_permission_answer("maybe"), (false, ApprovalScope::Once, false));
    assert!(read_preview_answer("apply"));
    assert!(!read_preview_answer("s"));
    let mut run = run();
    let reply = run.take_answer(Question::SubagentPermission, "x".to_string(), Some("YES"));
    assert!(matches!(
        reply.command,
        AgentCommand::PermissionResponse { approved: true, .. }
    ));
    let reply = run.take_answer(Question::Preview, "x".to_string(), Some("no"));
    assert_eq!(reply.note, Some("Change rejected."));
    assert!(matches!(
        reply.command,
        AgentCommand::FileChangePreviewResponse { approved: false, .. }
    ));
}

#[test]
fn a_run_shows_changes_in_colour() {
    let mut run = run();
    let step = run.take_event(
        AgentEvent::FileChangePreviewNeeded {
            request_id: "c1".to_string(),
            tool_name: "write_file".to_string(),
            input: json("{}"),
            preview: FileChangePreview {
                path: "a.txt".to_string(),
                before_exists: false,
                before: String::new(),
                after: String::new(),
                unified_diff: "diff --git a/a b/a\n--- a\n+++ b\n@@ -1 +1 @@\n-old\n+new\n--- kept\n same".to_string(),
            },
        },
        "t",
    );
    match step {
        RunStep::Ask { lines, prompt, .. } => {
            assert_eq!(
                lines,
                vec![
                    "",
                    "Create: a.txt",
                    "\x1b[1;36m@@ -1 +1 @@\x1b[0m",
                    "\x1b[31m-old\x1b[0m",
                    "\x1b[32m+new\x1b[0m",
                    "\x1b[31m--- kept\x1b[0m",
                    "\x1b[90m same\x1b[0m",
                ]
            );
            assert_eq!(prompt, "Apply changes? [y/N] ");
        }
        other => panic!("unexpected step: {:?}", other),
    }
}

#[test]
fn a_finished_run_is_kept() {
    let mut run = run();
    run.take_event(AgentEvent::TextDelta("answer".to_string()), "t");
    let step = run.take_event(
        AgentEvent::SessionUpdated {
            messages: vec![
                Message::of_text(Role::User, "fix it"),
                Message::of_text(Role::Assistant, "answer"),
            ],
        },
        "later",
    );
    assert!(matches!(step, RunStep::Save));
    assert_eq!(run.session.updated_at, "later");
    let step = run.take_event(
        AgentEvent::SessionTitleGenerated { title: "Fix".to_string() },
        "later",
    );
    assert!(matches!(step, RunStep::Save));
    assert!(run.conclude("last"));
    assert_eq!(run.session.ui_messages.len(), 2);
    assert_eq!(run.session.ui_messages[1].content, "answer");
    assert_eq!(run.session.core_messages.len(), 2);
    assert_eq!(run.session.title, "Fix");
}

#[test]
fn a_failed_run_ends_with_its_error() {
    let mut run = run();
    match run.take_event(AgentEvent::AgentError { message: "boom".to_string() }, "t") {
        RunStep::End { line_feed, lines } => {
            assert!(!line_feed);
            assert_eq!(lines, vec!["", "Error: boom"]);
        }
        other => panic!("unexpected step: {:?}", other),
    }
    assert_eq!(run.agent_error.as_deref(), Some("boom"));
    assert!(!run.conclude("t"));
}
