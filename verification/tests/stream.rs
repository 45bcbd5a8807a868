use deepcode::stream::{merge_metadata, StreamAccumulator};
use deepcode::types::{FinishReason, ResponseContentBlock, StreamDelta, Usage};
use serde_json::Value;

fn json(text: &str) -> Value {
    serde_json::from_str(text).unwrap()
}


#[test]
fn accumulate_text_only() {
    let mut acc = StreamAccumulator::new();
    assert!(acc
        .process(StreamDelta::TextDelta("hello ".into()))
        .is_none());
    assert!(acc
        .process(StreamDelta::TextDelta("world".into()))
        .is_none());
    let block = acc.flush().unwrap();
    assert!(matches!(block, ResponseContentBlock::Text(t) if t == "hello world"));
}

#[test]
fn accumulate_reasoning() {
    let mut acc = StreamAccumulator::new();
    assert!(acc
        .process(StreamDelta::ReasoningDelta("thinking ".into()))
        .is_none());
    assert!(acc
        .process(StreamDelta::ReasoningDelta("done".into()))
        .is_none());
    let block = acc.flush().unwrap();
    assert!(
        matches!(block, ResponseContentBlock::Reasoning { text, .. } if text == "thinking done")
    );
}

#[test]
fn preserves_reasoning_metadata_without_visible_text() {
    let mut acc = StreamAccumulator::new();
    acc.process(StreamDelta::ReasoningMetadata(json(r#"{ "provider": "anthropic", "block": {"type": "thinking", "thinking": ""} }"#)));
    acc.process(StreamDelta::ReasoningMetadata(json(r#"{ "provider": "anthropic", "signature": "sig-1" }"#)));
    acc.process(StreamDelta::ReasoningMetadata(json(r#"{ "provider": "anthropic", "signature": "sig-2" }"#)));
    let block = acc.flush().unwrap();
    assert!(matches!(
        block,
        ResponseContentBlock::Reasoning { text, metadata: Some(metadata) }
            if text.is_empty()
                && metadata["signature"] == "sig-1sig-2"
                && metadata["block"]["signature"] == "sig-1sig-2"
    ));
}

#[test]
fn finished_flushes_text() {
    let mut acc = StreamAccumulator::new();
    acc.process(StreamDelta::TextDelta("done".into()));
    let block = acc
        .process(StreamDelta::Finished(
            FinishReason::Stop,
        ))
        .unwrap();
    assert!(matches!(block, ResponseContentBlock::Text(t) if t == "done"));
}

#[test]
fn tool_use_start_flushes_text() {
    let mut acc = StreamAccumulator::new();
    acc.process(StreamDelta::TextDelta("before ".into()));
    let block = acc
        .process(StreamDelta::ToolUseStart {
            id: "t1".into(),
            name: "shell".into(),
            index: None,
            input_delta: None,
        })
        .unwrap();
    assert!(matches!(block, ResponseContentBlock::Text(t) if t == "before "));
}

#[test]
fn provider_item_follows_its_buffered_text() {
    let mut acc = StreamAccumulator::new();
    acc.process(StreamDelta::TextDelta("answer".into()));

    let first = acc
        .process(StreamDelta::ProviderItem {
            provider: "openai".into(),
            value: json(r#"{ "type": "message", "content": [{"type": "output_text", "text": "answer"}] }"#),
        })
        .unwrap();
    let second = acc.flush().unwrap();

    assert!(matches!(first, ResponseContentBlock::Text(text) if text == "answer"));
    assert!(matches!(
        second,
        ResponseContentBlock::ProviderItem { provider, value }
            if provider == "openai" && value["type"] == "message"
    ));
}

#[test]
fn tool_use_complete_cycle() {
    let mut acc = StreamAccumulator::new();
    acc.process(StreamDelta::ToolUseStart {
        id: "t1".into(),
        name: "read_file".into(),
        index: None,
        input_delta: None,
    });
    acc.process(StreamDelta::ToolUseInput {
        id: "t1".into(),
        index: None,
        input_delta: "{\"path\":\"/tmp/x\"}".into(),
    });
    let block = acc
        .process(StreamDelta::ToolUseEnd {
            id: "t1".into(),
            index: None,
        })
        .unwrap();
    assert!(
        matches!(block, ResponseContentBlock::ToolUse { id, name, .. } if id == "t1" && name == "read_file")
    );
}

#[test]
fn mixed_text_and_tool() {
    let mut acc = StreamAccumulator::new();
    acc.process(StreamDelta::TextDelta("Let me check ".into()));
    let flushed = acc.process(StreamDelta::ToolUseStart {
        id: "t1".into(),
        name: "read_file".into(),
        index: None,
        input_delta: None,
    });
    assert!(matches!(flushed, Some(ResponseContentBlock::Text(t)) if t == "Let me check "));
    acc.process(StreamDelta::ToolUseInput {
        id: "t1".into(),
        index: None,
        input_delta: "{}".into(),
    });
    let tool = acc
        .process(StreamDelta::ToolUseEnd {
            id: "t1".into(),
            index: None,
        })
        .unwrap();
    assert!(matches!(tool, ResponseContentBlock::ToolUse { .. }));
    acc.process(StreamDelta::TextDelta(" and done".into()));
    let text = acc.flush().unwrap();
    assert!(matches!(text, ResponseContentBlock::Text(t) if t == " and done"));
}

#[test]
fn pending_content_stays_before_tool() {
    let mut acc = StreamAccumulator::new();
    acc.process(StreamDelta::ReasoningDelta("think".into()));
    acc.process(StreamDelta::TextDelta("before".into()));
    let first = acc
        .process(StreamDelta::ToolUseStart {
            id: "t1".into(),
            name: "read_file".into(),
            index: None,
            input_delta: Some("{\"path\":\"README.md\"}".into()),
        })
        .unwrap();
    let second = acc
        .process(StreamDelta::ToolUseEnd {
            id: "t1".into(),
            index: None,
        })
        .unwrap();
    let third = acc.flush().unwrap();

    assert!(matches!(first, ResponseContentBlock::Reasoning { text, .. } if text == "think"));
    assert!(matches!(second, ResponseContentBlock::Text(t) if t == "before"));
    assert!(matches!(third, ResponseContentBlock::ToolUse { .. }));
}

#[test]
fn usage_delta_ignored() {
    let mut acc = StreamAccumulator::new();
    assert!(acc
        .process(StreamDelta::Usage(Usage {
            input_tokens: 10,
            output_tokens: 5,
            cached_input_tokens: 0,
            cache_miss_input_tokens: 0,
            reasoning_output_tokens: 0,
        }))
        .is_none());
    assert!(acc.text_buffer.is_empty());
}

#[test]
fn empty_tool_delta_ids_use_active_tool() {
    let mut acc = StreamAccumulator::new();
    acc.process(StreamDelta::ToolUseStart {
        id: "t1".into(),
        name: "read_file".into(),
        index: None,
        input_delta: None,
    });
    acc.process(StreamDelta::ToolUseInput {
        id: String::new(),
        index: None,
        input_delta: "{\"path\":\"README.md\"}".into(),
    });
    let block = acc
        .process(StreamDelta::ToolUseEnd {
            id: String::new(),
            index: None,
        })
        .unwrap();

    assert!(matches!(
        block,
        ResponseContentBlock::ToolUse { id, name, input }
            if id == "t1" && name == "read_file" && input["path"] == "README.md"
    ));
}

#[test]
fn finished_flushes_open_tool_calls() {
    let mut acc = StreamAccumulator::new();
    acc.process(StreamDelta::ToolUseStart {
        id: "call_1".into(),
        name: "grep".into(),
        index: None,
        input_delta: None,
    });
    acc.process(StreamDelta::ToolUseInput {
        id: String::new(),
        index: None,
        input_delta: "{\"pattern\":\"DeepCode\"}".into(),
    });
    let block = acc
        .process(StreamDelta::Finished(
            FinishReason::ToolCalls,
        ))
        .unwrap();

    assert!(matches!(
        block,
        ResponseContentBlock::ToolUse { id, name, input }
            if id == "call_1" && name == "grep" && input["pattern"] == "DeepCode"
    ));
}

#[test]
fn tool_use_start_accepts_initial_input_delta() {
    let mut acc = StreamAccumulator::new();
    assert!(acc
        .process(StreamDelta::ToolUseStart {
            id: "call_1".into(),
            name: "read_file".into(),
            index: None,
            input_delta: Some("{\"path\":\"README.md\"}".into()),
        })
        .is_none());
    let block = acc
        .process(StreamDelta::Finished(
            FinishReason::ToolCalls,
        ))
        .unwrap();

    assert!(matches!(
        block,
        ResponseContentBlock::ToolUse { id, name, input }
            if id == "call_1" && name == "read_file" && input["path"] == "README.md"
    ));
}

#[test]
fn indexed_parallel_tool_inputs_are_associated_and_ordered() {
    let mut acc = StreamAccumulator::new();
    acc.process(StreamDelta::Batch(vec![
        StreamDelta::ToolUseStart {
            id: "call_1".into(),
            name: "read_file".into(),
            index: Some(0),
            input_delta: None,
        },
        StreamDelta::ToolUseStart {
            id: "call_2".into(),
            name: "grep".into(),
            index: Some(1),
            input_delta: None,
        },
    ]));
    acc.process(StreamDelta::ToolUseInput {
        id: String::new(),
        index: Some(1),
        input_delta: "{\"pattern\":\"DeepCode\"}".into(),
    });
    acc.process(StreamDelta::ToolUseInput {
        id: String::new(),
        index: Some(0),
        input_delta: "{\"path\":\"README.md\"}".into(),
    });
    let first = acc
        .process(StreamDelta::Finished(
            FinishReason::ToolCalls,
        ))
        .unwrap();
    let second = acc.flush().unwrap();

    assert!(matches!(
        first,
        ResponseContentBlock::ToolUse { id, input, .. }
            if id == "call_1" && input["path"] == "README.md"
    ));
    assert!(matches!(
        second,
        ResponseContentBlock::ToolUse { id, input, .. }
            if id == "call_2" && input["pattern"] == "DeepCode"
    ));
}

#[test]
fn unreadable_tool_input_is_kept_as_text_or_an_object() {
    let mut acc = StreamAccumulator::new();
    acc.process(StreamDelta::ToolUseStart {
        id: "t1".into(),
        name: "shell".into(),
        index: None,
        input_delta: Some("{\"command\":".into()),
    });
    let block = acc
        .process(StreamDelta::ToolUseEnd {
            id: "t1".into(),
            index: None,
        })
        .unwrap();
    match block {
        ResponseContentBlock::ToolUse { id, name, .. } => {
            assert_eq!(id, "t1");
            assert_eq!(name, "shell");
        }
        other => panic!("unexpected block: {:?}", other),
    }
    assert!(acc.flush().is_none());
}

#[test]
fn signatures_of_reasoning_metadata_are_put_together() {
    let mut target = Some(json(r#"{"provider": "p", "signature": "a"}"#));
    merge_metadata(&mut target, json(r#"{"signature": "b", "other": 1}"#));
    let merged = target.unwrap();
    assert_eq!(merged["signature"], "ab");
    assert_eq!(merged["other"], 1);
    assert_eq!(merged["provider"], "p");
}

#[test]
fn nothing_is_flushed_from_an_empty_accumulator() {
    let mut acc = StreamAccumulator::new();
    assert!(acc.flush().is_none());
    assert!(acc.process(StreamDelta::Finished(FinishReason::Stop)).is_none());
}
