use deepcode::json::{parse_json, render_json};
use deepcode::plan_executor::{is_managed_plan_filename, new_plan_file_name};
use deepcode::types::FileChangePreview;
use deepcode::ui::choice::{FilePreviewChoice, PermissionChoice, PlanChoice};
use deepcode::ui::editor::{
    shift_blocks_for_delete, shift_blocks_for_insert, PastedInputBlock,
};
use deepcode::ui::input_view::input_display_projection;
use deepcode::ui::status::{
    file_preview_options_line, permission_options_line, plan_options_line, PendingFilePreview,
    PendingPermission, PendingPlanApproval,
};
use serde_json::Value;

fn check_line(line: &str, labels: &[&str], selected: usize, length: usize) {
    assert_eq!(line.chars().count(), length);
    let mut from = 0;
    for (i, label) in labels.iter().enumerate() {
        assert_eq!(line.contains(&format!("[{label}]")), i == selected, "{line}");
        let at = line[from..].find(label).unwrap();
        from += at + label.len();
    }
}

#[test]
fn plan_answers_are_offered_in_order_with_one_marked() {
    let choices =
        [PlanChoice::Approve, PlanChoice::Revise, PlanChoice::Reject, PlanChoice::Quit];
    for (i, choice) in choices.into_iter().enumerate() {
        let plan = PendingPlanApproval {
            request_id: "1".to_string(),
            plan: "do it".to_string(),
            selected: choice,
        };
        let line = plan_options_line(&plan);
        check_line(&line, &["Approve", "Revise", "Reject", "Quit"], i, 48);
    }
    let plan = PendingPlanApproval {
        request_id: "1".to_string(),
        plan: "do it".to_string(),
        selected: PlanChoice::Revise,
    };
    assert_eq!(plan_options_line(&plan), "←/→  Approve   [Revise]   Reject    Quit   Enter");
}

#[test]
fn file_answers_are_offered_in_order_with_one_marked() {
    let choices = [FilePreviewChoice::Apply, FilePreviewChoice::Reject, FilePreviewChoice::Quit];
    for (i, choice) in choices.into_iter().enumerate() {
        let preview = PendingFilePreview {
            request_id: "1".to_string(),
            preview: FileChangePreview {
                path: "a.rs".to_string(),
                before_exists: false,
                before: String::new(),
                after: String::new(),
                unified_diff: String::new(),
            },
            selected: choice,
        };
        let line = file_preview_options_line(&preview);
        check_line(&line, &["Apply", "Reject", "Quit"], i, 36);
    }
}

#[test]
fn permission_answers_are_offered_in_order_with_one_marked() {
    let choices = [
        PermissionChoice::AllowOnce,
        PermissionChoice::AllowSession,
        PermissionChoice::AllowAlways,
        PermissionChoice::Deny,
        PermissionChoice::Quit,
    ];
    for (i, choice) in choices.into_iter().enumerate() {
        let permission = PendingPermission {
            request_id: "1".to_string(),
            tool_name: "bash".to_string(),
            input: Value::Null,
            evaluation: None,
            selected: choice,
        };
        let line = permission_options_line(&permission);
        check_line(
            &line,
            &["Allow once", "Allow session", "Always allow", "Deny", "Quit"],
            i,
            72,
        );
    }
}

#[test]
fn new_plans_have_managed_names() {
    let (one, two) = (new_plan_file_name(), new_plan_file_name());
    assert!(is_managed_plan_filename(&one));
    assert_eq!(one.len(), 44);
    assert_ne!(one, two);
}

#[test]
fn text_that_is_no_json_stands_for_null() {
    assert_eq!(parse_json("{\"a\": [1, true]}"), serde_json::from_str::<Value>("{\"a\":[1,true]}").unwrap());
    assert_eq!(parse_json("{"), Value::Null);
    assert_eq!(parse_json(""), Value::Null);
    assert_eq!(render_json(&parse_json("{ \"a\" : [1, true] }")), "{\"a\":[1,true]}");
    assert_eq!(render_json(&Value::Null), "null");
}

fn block(id: usize, start: usize, end: usize) -> PastedInputBlock {
    PastedInputBlock { id, start, end, line_count: 2, char_count: end - start }
}

#[test]
fn a_block_inside_another_is_not_shown_wherever_it_begins() {
    let blocks = [block(1, 0, 3), block(2, 2, 3), block(3, 9, 12)];
    let (display, cursor) = input_display_projection("aéb", &blocks, 4);
    assert_eq!(display, "[Pasted text #1 +2 lines]b");
    assert_eq!(cursor, display.len());
}

#[test]
fn blocks_keep_their_text_and_come_back() {
    let text = "aéb漢c";
    let before = vec![block(1, 1, 3), block(2, 4, 7)];
    for pos in [0, 1, 3, 4, 7, 8] {
        let mut blocks = before.clone();
        shift_blocks_for_insert(&mut blocks, pos, 2);
        let longer = format!("{}xy{}", &text[..pos], &text[pos..]);
        for (old, new) in before.iter().zip(&blocks) {
            assert_eq!(&longer[new.start..new.end], &text[old.start..old.end]);
        }
        shift_blocks_for_delete(&mut blocks, pos, pos + 2);
        let ends: Vec<(usize, usize)> = blocks.iter().map(|b| (b.start, b.end)).collect();
        assert_eq!(ends, vec![(1, 3), (4, 7)]);
    }
}
