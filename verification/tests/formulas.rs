use deepcode::agent_loop::AgentLoop;
use deepcode::event::{AgentCommand, AgentEvent};
use deepcode::ids::fresh_id;
use deepcode::json::json_str;
use deepcode::paths::{expand_home, Location};
use deepcode::plan_executor::{approved_plan_instruction, planning_instruction};
use deepcode::request::{
    generate_params, messages_with_title_instruction, request_max_tokens, Capabilities,
};
use deepcode::session::check_session_id;
use deepcode::text::{byte_len, concat3, decimal_of, trimmed};
use deepcode::turn_executor::model_request_status;
use deepcode::types::{
    ContentBlock, Message, ModelProfile, PermissionEvaluation, ReasoningEffort, Role, Usage,
};
use deepcode::types::Decision;
use deepcode::ui::choice::{PermissionChoice, PlanChoice};
use deepcode::ui::code::CodeHighlighter;
use deepcode::ui::diff::{diff_title, summarize_diff};
use deepcode::ui::selection::slice_text_by_display_cols;
use deepcode::ui::status::{
    permission_title, plan_title, preview_json, preview_lines, tool_status, truncate_chars,
    PendingPermission, PendingPlanApproval,
};
use deepcode::ui::style::{spans_width, Color, Span, Style};
use deepcode::ui::table::constrain_table_widths;
use deepcode::ui::usage::{append_usage_summary, usage_summary, TurnUsage};
use deepcode::ui::width::{
    columns_of, take_width, trim_start_to_width, truncate_display_width,
    truncate_display_width_end,
};
use deepcode::ui::wrap::{wrap_preserving_chars, wrap_spans_to_width};
use deepcode::validation::{invalid_tool_input_message, required_tool_input_issues};
use deepcode::words::{first_chars, parse_number, replaced, split_words, to_ascii_lowercase};
use serde_json::Value;

fn json(text: &str) -> Value {
    serde_json::from_str(text).unwrap()
}

fn capabilities(all: bool) -> Capabilities {
    Capabilities {
        reasoning_effort: all,
        reasoning_summary: all,
        reasoning_context: all,
        reasoning_display: all,
        verbosity: all,
        parallel_tool_calls: all,
        strict_tools: all,
        prompt_cache_key: all,
    }
}

#[test]
fn answers_leave_the_safety_margin_free() {
    assert_eq!(request_max_tokens(8_000, 200_000, 10_000), 8_000);
    assert_eq!(request_max_tokens(8_000, 16_000, 10_000), 16_000 - 10_000 - 1_024);
    assert_eq!(request_max_tokens(8_000, 16_000, 16_000), 1);
    assert_eq!(request_max_tokens(1_000_000, 3_000_000, 2_500_000), 500_000 - 16_384);
}

#[test]
fn requests_ask_for_what_the_model_offers() {
    let messages = vec![Message::of_text(Role::User, "hi")];
    let full = generate_params(
        100,
        capabilities(true),
        &Some("high".to_string()),
        &messages,
        "deepcode-m".to_string(),
    );
    assert_eq!(full.max_tokens, 100);
    assert_eq!(full.reasoning_effort, Some(ReasoningEffort::High));
    assert!(full.auto_reasoning_summary && full.all_turns_reasoning_context);
    assert!(full.parallel_tool_calls && full.strict_tools && full.high_verbosity);
    assert_eq!(full.prompt_cache_key.as_deref(), Some("deepcode-m"));

    let off = generate_params(
        100,
        capabilities(true),
        &Some("off".to_string()),
        &messages,
        "deepcode-m".to_string(),
    );
    assert!(!off.auto_reasoning_summary && !off.summarized_reasoning_display);
    let bare = generate_params(100, capabilities(false), &None, &messages, "k".to_string());
    assert_eq!(bare.prompt_cache_key, None);
    assert!(!bare.parallel_tool_calls);
}

#[test]
fn the_title_instruction_joins_the_system_prompt() {
    let with_prompt = messages_with_title_instruction(&vec![
        Message::of_text(Role::System, "be brief"),
        Message::of_text(Role::User, "hi"),
    ]);
    assert_eq!(with_prompt.len(), 2);
    assert!(matches!(
        &with_prompt[0].content[0],
        ContentBlock::Text { text } if text.starts_with("be brief\n\n") && text.len() > 20
    ));
    let without = messages_with_title_instruction(&vec![Message::of_text(Role::User, "hi")]);
    assert_eq!(without.len(), 2);
    assert_eq!(without[0].role, Role::System);
}

#[test]
fn tool_inputs_are_checked_against_the_schema() {
    let schema = json(
        r#"{"required": ["a", "b", "c", "d"],
            "properties": {"a": {"type": "string"}, "b": {"type": "integer"}, "c": {"type": "array"}}}"#,
    );
    let good = json(r#"{"a": "x", "b": 3, "c": [], "d": false}"#);
    assert!(required_tool_input_issues(&schema, &good).is_empty());
    assert_eq!(invalid_tool_input_message("t", &schema, &good), None);
    let bad = json(r#"{"a": 1, "b": 1.5, "d": null}"#);
    assert_eq!(
        required_tool_input_issues(&schema, &bad),
        vec![
            "parameter 'a' must be a string",
            "parameter 'b' must be a integer",
            "missing required parameter 'c'",
            "missing required parameter 'd'",
        ]
    );
    assert_eq!(
        invalid_tool_input_message("t", &json(r#"{"required": ["a"]}"#), &json("{}")).unwrap(),
        "Tool input rejected before execution: missing required parameter 'a'. Call 't' again with a JSON object matching its schema."
    );
}

#[test]
fn wide_characters_take_two_columns() {
    assert_eq!(columns_of('a'), 1);
    assert_eq!(columns_of('中'), 2);
    assert_eq!(take_width("中文字", 5), "中文");
    assert_eq!(trim_start_to_width("abcdef", 3), "def");
    assert_eq!(truncate_display_width("abcdef", 4), "…def");
    assert_eq!(truncate_display_width_end("abcdef", 4), "abc…");
    assert_eq!(truncate_display_width_end("abcdef", 1), "…");
    assert_eq!(truncate_display_width("abcdef", 1), ".");
    assert_eq!(truncate_display_width("abcdef", 0), "");
    assert_eq!(slice_text_by_display_cols("中文字", 2, 4), "文");
}

#[test]
fn wrapping_keeps_every_character() {
    let pieces = wrap_preserving_chars("abcdefgh", 3);
    assert_eq!(pieces, vec!["abc", "def", "gh"]);
    let spans = vec![Span::raw("one two three four five")];
    let lines = wrap_spans_to_width(&spans, 9);
    assert!(lines.len() > 1);
    assert!(lines.iter().all(|line| spans_width(&line.spans) <= 9));
}

#[test]
fn table_columns_are_narrowed_to_the_screen() {
    let mut widths = vec![10, 10];
    constrain_table_widths(&mut widths, 80);
    assert_eq!(widths, vec![10, 10]);
    let mut widths = vec![60, 10];
    constrain_table_widths(&mut widths, 40);
    assert_eq!(widths, vec![16, 10]);
}

#[test]
fn code_is_colored_and_kept() {
    let highlighter = CodeHighlighter::new();
    let lines = highlighter.highlight_code("fn main() {}\nlet x = 1;\n", "rust");
    let text: Vec<String> = lines.iter().map(|line| line.text()).collect();
    assert!(text.iter().any(|line| line.contains("fn main() {}")));
    assert!(text.iter().any(|line| line.contains("let x = 1;")));
    assert!(lines
        .iter()
        .any(|line| line.spans.iter().any(|span| matches!(span.style.fg, Some(Color::Rgb(..))))));
}

#[test]
fn numbers_and_words() {
    assert_eq!(parse_number("42"), Some(42));
    assert_eq!(parse_number("+7"), Some(7));
    assert_eq!(parse_number("4x"), None);
    assert_eq!(parse_number("18446744073709551616"), None);
    assert_eq!(decimal_of(0), "0");
    assert_eq!(decimal_of(u64::MAX), "18446744073709551615");
    assert_eq!(split_words("  a \t b\n"), vec!["a", "b"]);
    assert_eq!(to_ascii_lowercase("AbÄ"), "abÄ");
    assert_eq!(first_chars("héllo", 2), "hé");
    assert_eq!(byte_len("hé"), 3);
    assert_eq!(trimmed("\u{3000}x "), "x");
    assert_eq!(concat3("a", "b", "c"), "abc");
    assert_eq!(replaced("git_add_all", "_", " "), "git add all");
}

#[test]
fn long_texts_are_shortened_with_dots() {
    assert_eq!(truncate_chars("abcdef", 6), "abcdef");
    assert_eq!(truncate_chars("abcdefg", 6), "abc...");
    assert_eq!(truncate_chars("abcdefg", 2), "...");
    assert_eq!(preview_lines("a\nb\nc", 2, 100), "a\nb");
    assert_eq!(preview_json(&json(r#"{ "a" : [1, 2] }"#), 100), r#"{"a":[1,2]}"#);
}

#[test]
fn activities_are_described() {
    assert_eq!(
        tool_status("grep", &json(r#"{"pattern": "x", "path": "a/b.rs"}"#)),
        "Explored: Search x in b.rs"
    );
    assert_eq!(tool_status("shell", &json(r#"{"command": "ls   -l"}"#)), "Ran: ls -l");
    assert_eq!(tool_status("other", &json(r#"{"a": 1}"#)), r#"Used Tool: other {"a":1}"#);
}

#[test]
fn prompts_have_titles() {
    let plan = PendingPlanApproval {
        request_id: "r".to_string(),
        plan: "\n  \n# Plan\nstep".to_string(),
        selected: PlanChoice::Approve,
    };
    assert_eq!(plan_title(&plan), "Review plan: # Plan");
    let permission = PendingPermission {
        request_id: "r".to_string(),
        tool_name: "shell".to_string(),
        input: json(r#"{"command": "ls"}"#),
        evaluation: Some(PermissionEvaluation {
            decision: Decision::Prompt,
            justification: None,
            summary: "s".to_string(),
            risk: "high".to_string(),
            sandbox_policy: "workspace".to_string(),
        }),
        selected: PermissionChoice::AllowOnce,
    };
    assert_eq!(
        permission_title(&permission),
        "Permission required: command (high / workspace) - ls"
    );
}

#[test]
fn usage_is_summed_up() {
    let usage = TurnUsage {
        input_tokens: 100,
        output_tokens: 20,
        cached_input_tokens: 30,
        cache_miss_input_tokens: 60,
        reasoning_output_tokens: 5,
    };
    assert!(usage.has_reported_tokens());
    assert_eq!(usage_summary(&usage), "usage: in/out 100/20, cache hit 33% (30/90), reasoning 5");
    assert_eq!(
        append_usage_summary("base", Some(&usage)),
        "base · last in/out 100/20, cache hit 33% (30/90), reasoning 5"
    );
    assert_eq!(append_usage_summary("base", None), "base");
    let one = Usage {
        input_tokens: 1,
        output_tokens: 2,
        cached_input_tokens: 3,
        cache_miss_input_tokens: 4,
        reasoning_output_tokens: 5,
    };
    assert!(one.can_add_usage(&one));
    assert_eq!(one.add_usage(&one).cache_miss_input_tokens, 8);
    let most = Usage { input_tokens: usize::MAX, ..one };
    assert!(!most.can_add_usage(&one));
}

#[test]
fn diffs_are_titled_by_their_files() {
    let lines: Vec<String> = ["--- /dev/null", "+++ b/x.rs", "@@ -0,0 +1 @@", "+a"]
        .iter()
        .map(|line| line.to_string())
        .collect();
    let files = summarize_diff(&lines);
    assert_eq!(
        diff_title(None, &files, &lines),
        ("Create".to_string(), "x.rs".to_string())
    );
    assert_eq!(
        diff_title(Some("Update: y.rs"), &files, &lines),
        ("Update".to_string(), "y.rs".to_string())
    );
}

#[test]
fn paths_are_joined_and_expanded() {
    assert_eq!(Location::at("/a".to_string()).with_part("b").path(), "/a/b");
    assert_eq!(expand_home("/home/u", "~/x").path(), "/home/u/x");
    assert_eq!(expand_home("/home/u", "/x").path(), "/x");
}

#[test]
fn the_longest_beginning_that_fits_is_taken() {
    let text = "ab漢\u{301}字c";
    for width in 1..9usize {
        let taken = take_width(text, width);
        let next = text[taken.len()..].chars().next();
        let used: usize = taken.chars().map(columns_of).sum();
        assert!(text.starts_with(&taken) && used <= width);
        assert!(next.map_or(true, |c| used + columns_of(c) > width));
    }
    assert_eq!(take_width(text, 4), "ab漢\u{301}");
    assert_eq!(take_width("\u{301}", 0), "");
}

#[test]
fn fresh_ids_are_session_ids() {
    let (one, two) = (fresh_id(), fresh_id());
    assert_eq!(one.len(), 36);
    assert_ne!(one, two);
    assert!(check_session_id(&one).is_ok());
    assert!(check_session_id("not an id").is_err());
}

#[test]
fn models_know_their_efforts() {
    let profile = ModelProfile {
        id: "m".to_string(),
        provider: "p".to_string(),
        display_name: None,
        context_window: 1,
        max_output_tokens: 1,
        reasoning_efforts: vec![ReasoningEffort::Low, ReasoningEffort::High],
    };
    assert!(profile.supports_effort(ReasoningEffort::Low));
    assert!(profile.supports_effort_str("high"));
    assert!(!profile.supports_effort_str("medium"));
    assert_eq!(profile.effort_names(), vec!["low", "high"]);
}

#[test]
fn instructions_name_the_plan() {
    assert!(planning_instruction().starts_with("Plan-Act mode is active."));
    let text = approved_plan_instruction("# P");
    assert!(text.starts_with("The user approved this plan. Execute it now.\n\n# P\n\n"));
    assert_eq!(model_request_status(0), "Thinking...");
    assert_eq!(model_request_status(3), "Thinking after tools...");
}

#[test]
fn members_are_read_as_text() {
    let value = json(r#"{"a": "x", "b": 1}"#);
    assert_eq!(json_str(&value, "a"), Some("x"));
    assert_eq!(json_str(&value, "b"), None);
    assert_eq!(json_str(&value, "c"), None);
    assert_eq!(json_str(&json("[]"), "a"), None);
}

#[test]
fn the_policy_snapshot_is_reported() {
    let mut agent = AgentLoop::new(None, None, "m".to_string(), 1, 10, None, false);
    agent.command(Some(AgentCommand::PermissionsSnapshot));
    agent.permissions_snapshot(vec!["line".to_string()]);
    assert!(matches!(
        agent.take_events().as_slice(),
        [AgentEvent::PermissionsSnapshot { lines }] if lines.len() == 1
    ));
    agent.history_normalized(vec![Message::of_text(Role::User, "only")]);
    assert_eq!(agent.state.messages.len(), 1);
}

#[test]
fn styles_are_laid_over_each_other() {
    let bold = Style { bold: true, ..Style::plain() };
    let both = Style::of(Color::Red).patch(bold);
    assert!(both.bold);
    assert_eq!(both.fg, Some(Color::Red));
}
