use deepcode::event::AgentEvent;
use deepcode::llm_response::{
    final_text_from_blocks, flatten_delta, parse_session_title, preserve_finish_reason,
    tool_calls_from_blocks, ResponseCollector, SessionTitleFilter, StreamedResponse,
};
use deepcode::types::{FinishReason, StreamDelta, Usage};

fn collect(deltas: Vec<StreamDelta>, title: bool) -> (StreamedResponse, Vec<AgentEvent>) {
    let mut collector = ResponseCollector::new(title);
    assert!(collector.fits(&deltas));
    collector.accept(deltas);
    let mut events = collector.take_events();
    let response = collector.finish();
    events.extend(collector.take_events());
    (response, events)
}

#[test]
fn reasoning_deltas_are_forwarded_to_the_ui() {
    let (_, events) = collect(
        vec![
            StreamDelta::ReasoningDelta("inspect".to_string()),
            StreamDelta::TextDelta("done".to_string()),
        ],
        false,
    );
    assert!(matches!(&events[0], AgentEvent::ReasoningDelta(text) if text == "inspect"));
    assert!(matches!(&events[1], AgentEvent::TextDelta(text) if text == "done"));
}

#[test]
fn content_filter_finish_reason_survives_trailing_stop_event() {
    let (response, _) = collect(
        vec![
            StreamDelta::TextDelta("refused".to_string()),
            StreamDelta::Finished(FinishReason::ContentFilter),
            StreamDelta::Finished(FinishReason::Stop),
        ],
        false,
    );
    assert_eq!(response.finish_reason, Some(FinishReason::ContentFilter));
}

#[test]
fn session_title_is_captured_without_reaching_visible_text() {
    let (response, events) = collect(
        vec![
            StreamDelta::TextDelta("<session-".to_string()),
            StreamDelta::TextDelta(
                "title>Inspect parser</session-title>\nHere is the result.".to_string(),
            ),
        ],
        true,
    );
    assert!(matches!(
        &events[0],
        AgentEvent::SessionTitleGenerated { title } if title == "Inspect parser"
    ));
    assert!(matches!(
        &events[1],
        AgentEvent::TextDelta(text) if text == "Here is the result."
    ));
    assert_eq!(
        final_text_from_blocks(&response.response_blocks),
        "Here is the result."
    );
}

#[test]
fn response_without_title_marker_is_forwarded_unchanged() {
    let (_, events) = collect(
        vec![StreamDelta::TextDelta(
            "Normal answer without metadata.".to_string(),
        )],
        true,
    );
    assert!(matches!(
        &events[0],
        AgentEvent::TextDelta(text) if text == "Normal answer without metadata."
    ));
}

#[test]
fn tool_only_response_keeps_title_capture_pending() {
    let (response, _) = collect(
        vec![
            StreamDelta::ToolUseStart {
                id: "call_1".to_string(),
                name: "read_file".to_string(),
                index: None,
                input_delta: Some("{\"path\":\"README.md\"}".to_string()),
            },
            StreamDelta::ToolUseEnd {
                id: "call_1".to_string(),
                index: None,
            },
        ],
        true,
    );
    assert!(!response.session_title_resolved);
    let calls = tool_calls_from_blocks(&response.response_blocks);
    assert_eq!(calls.len(), 1);
    assert_eq!(calls[0].name, "read_file");
    assert_eq!(calls[0].input["path"], "README.md");
}

#[test]
fn token_counts_of_a_response_are_added_up() {
    let usage = |n| Usage {
        input_tokens: n,
        output_tokens: 2 * n,
        cached_input_tokens: 0,
        cache_miss_input_tokens: n,
        reasoning_output_tokens: 1,
    };
    let (response, _) = collect(
        vec![StreamDelta::Usage(usage(3)), StreamDelta::Usage(usage(4))],
        false,
    );
    assert_eq!(response.usage.input_tokens, 7);
    assert_eq!(response.usage.output_tokens, 14);
    assert_eq!(response.usage.reasoning_output_tokens, 2);
}

#[test]
fn token_counts_past_the_machine_word_are_refused() {
    let collector = ResponseCollector::new(false);
    let huge = Usage {
        input_tokens: usize::MAX,
        output_tokens: 0,
        cached_input_tokens: 0,
        cache_miss_input_tokens: 0,
        reasoning_output_tokens: 0,
    };
    let deltas = vec![StreamDelta::Usage(huge), StreamDelta::Usage(huge)];
    assert!(!collector.fits(&deltas));
}

#[test]
fn nested_batches_are_flattened_in_order() {
    let flat = flatten_delta(StreamDelta::Batch(vec![
        StreamDelta::TextDelta("a".to_string()),
        StreamDelta::Batch(vec![
            StreamDelta::TextDelta("b".to_string()),
            StreamDelta::TextDelta("c".to_string()),
        ]),
        StreamDelta::TextDelta("d".to_string()),
    ]));
    let texts: Vec<String> = flat
        .into_iter()
        .map(|delta| match delta {
            StreamDelta::TextDelta(text) => text,
            other => panic!("unexpected delta: {:?}", other),
        })
        .collect();
    assert_eq!(texts, vec!["a", "b", "c", "d"]);
}

#[test]
fn titles_are_parsed_from_their_tag() {
    assert_eq!(
        parse_session_title(" <session-title> Fix it </session-title> "),
        Some("Fix it".to_string())
    );
    assert_eq!(parse_session_title("<session-title></session-title>"), None);
    assert_eq!(parse_session_title("Fix it"), None);
}

#[test]
fn an_unfinished_title_tag_is_shown_in_the_end() {
    let mut filter = SessionTitleFilter::new(true);
    assert_eq!(filter.push("<session-ti"), (None, None));
    let (visible, title) = filter.finish().unwrap();
    assert_eq!(visible, Some("<session-ti".to_string()));
    assert_eq!(title, None);
}

#[test]
fn a_later_reason_replaces_an_earlier_stop() {
    let mut reason = Some(FinishReason::Stop);
    preserve_finish_reason(&mut reason, FinishReason::Length);
    assert_eq!(reason, Some(FinishReason::Length));
    preserve_finish_reason(&mut reason, FinishReason::Stop);
    assert_eq!(reason, Some(FinishReason::Length));
}

fn filtered(pieces: &[&str]) -> (String, Vec<String>) {
    let mut filter = SessionTitleFilter::new(true);
    let mut visible = String::new();
    let mut titles = Vec::new();
    for piece in pieces {
        let (shown, title) = filter.push(piece);
        visible.push_str(&shown.unwrap_or_default());
        titles.extend(title);
    }
    (visible, titles)
}

#[test]
fn a_title_is_found_however_the_response_is_divided() {
    let text = "<session-title> Fix it </session-title>\nHere is the result.\n";
    let expected = ("Here is the result.\n".to_string(), vec!["Fix it".to_string()]);
    for a in 0..=text.len() {
        for b in a..=text.len() {
            assert_eq!(filtered(&[&text[..a], &text[a..b], &text[b..]]), expected);
        }
    }
    let letters: Vec<String> = text.chars().map(|c| c.to_string()).collect();
    let letters: Vec<&str> = letters.iter().map(|c| c.as_str()).collect();
    assert_eq!(filtered(&letters), expected);
}

#[test]
fn a_first_line_that_is_too_long_is_no_title_once_it_is_held() {
    let long = "x".repeat(600);
    let text = format!("<session-title>{long}</session-title>\nrest");
    assert_eq!(filtered(&[&text]).1, vec![long]);
    let (visible, titles) = filtered(&[&text[..600], &text[600..]]);
    assert_eq!(visible, text);
    assert!(titles.is_empty());
}
