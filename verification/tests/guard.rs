use deepcode::guard::RepeatedFailureGuard;
use serde_json::Value;

fn json(text: &str) -> Value {
    serde_json::from_str(text).unwrap()
}


#[test]
fn repeated_failure_guard_warns_after_two_and_blocks_the_third_attempt() {
    let mut guard = RepeatedFailureGuard::default();
    let first_input = json(r#"{"path": "a.rs", "old": "x"}"#);
    let reordered_input = json(r#"{"old": "x", "path": "a.rs"}"#);

    assert!(!guard.record_failure("edit_file", &first_input));
    assert!(guard.record_failure("edit_file", &reordered_input));
    assert!(guard.should_block("edit_file", &first_input));
}

#[test]
fn repeated_failure_guard_ignores_error_text_but_resets_on_changed_input_or_success() {
    let mut guard = RepeatedFailureGuard::default();
    let input = json(r#"{"path": "a.rs"}"#);
    let changed_input = json(r#"{"path": "b.rs"}"#);

    assert!(!guard.record_failure("edit_file", &input));
    assert!(guard.record_failure("edit_file", &input));
    assert!(guard.should_block("edit_file", &input));

    assert!(!guard.record_failure("edit_file", &changed_input));
    assert!(!guard.should_block("edit_file", &input));

    assert!(guard.record_failure("edit_file", &changed_input));
    assert!(guard.should_block("edit_file", &changed_input));
    guard.reset();
    assert!(!guard.should_block("edit_file", &changed_input));
}

#[test]
fn another_tool_with_the_same_input_is_another_call() {
    let mut guard = RepeatedFailureGuard::default();
    let input = json(r#"{"path": "a.rs"}"#);
    assert!(!guard.record_failure("edit_file", &input));
    assert!(!guard.record_failure("write_file", &input));
    assert!(!guard.should_block("edit_file", &input));
    assert!(!guard.should_block("write_file", &input));
}
