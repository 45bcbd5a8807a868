use deepcode::state::{AgentPhase, AgentState, ToolResultEntry};
use deepcode::types::{ContentBlock, Message, Role};

fn text(value: &str) -> ContentBlock {
    ContentBlock::Text { text: value.to_string() }
}

#[test]
fn clear_conversation_keeps_only_system_prompt() {
    let mut state = AgentState::new(Some("system".to_string()), None);
    state.push_user("question");
    state.push_assistant(vec![text("answer")]);
    state.push_tool_result("call", "result", false);
    state.total_input_tokens = 10;
    state.total_output_tokens = 20;

    state.clear_conversation();

    assert_eq!(state.messages.len(), 1);
    assert_eq!(state.messages[0].role, Role::System);
    assert_eq!(state.total_input_tokens, 0);
    assert_eq!(state.total_output_tokens, 0);
    assert_eq!(state.phase, AgentPhase::Idle);
}

#[test]
fn a_resumed_conversation_keeps_its_system_prompt() {
    let saved = vec![
        Message::of_text(Role::System, "old prompt"),
        Message::of_text(Role::User, "hello"),
    ];
    let state = AgentState::new(Some("new prompt".to_string()), Some(saved));

    let prompts = state
        .messages
        .iter()
        .filter(|message| message.role == Role::System)
        .count();
    assert_eq!(prompts, 1);
    assert_eq!(state.messages[0].role, Role::System);
    assert!(matches!(
        &state.messages[0].content[0],
        ContentBlock::Text { text } if text == "old prompt"
    ));
    assert_eq!(state.messages.last().unwrap().role, Role::User);
}

#[test]
fn tool_results_of_one_round_stand_in_one_message() {
    let mut state = AgentState::new(None, None);
    state.push_tool_results(vec![
        ToolResultEntry::new("a", "first", false),
        ToolResultEntry::new("b", "second", true),
    ]);
    let results: Vec<(&str, &str, bool)> = state
        .messages
        .iter()
        .flat_map(|message| message.content.iter())
        .filter_map(|block| match block {
            ContentBlock::ToolResult { tool_use_id, content, is_error } => {
                Some((tool_use_id.as_str(), content.as_str(), *is_error))
            }
            _ => None,
        })
        .collect();
    assert_eq!(results, vec![("a", "first", false), ("b", "second", true)]);
}
