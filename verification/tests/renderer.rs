use deepcode::session::{ChatMessage, SessionSummary};
use deepcode::ui::banner::{startup_header_lines, StartupHeader};
use deepcode::ui::base64::base64_encode;
use deepcode::ui::code::CodeHighlighter;
use deepcode::ui::picker::{inside_frame, picker_area, render_session_picker};
use deepcode::ui::scrolling::TranscriptScroll;
use deepcode::ui::selection::{
    apply_transcript_selection, selection_to_text, slice_text_by_display_cols, TranscriptSelection,
    TranscriptSelectionPoint,
};
use deepcode::ui::state::{AppState, PendingSessionPicker};
use deepcode::ui::status::PendingPermission;
use deepcode::ui::choice::PermissionChoice;
use deepcode::ui::style::{plain_line, Color, Line, Span, Style};
use deepcode::ui::transcript::{render_chat_message, render_reasoning, TranscriptLineCache};
use deepcode::ui::viewport::{MouseInput, MouseKind, Rect, ViewportState};

fn rect(x: u16, y: u16, width: u16, height: u16) -> Rect {
    Rect { x, y, width, height }
}

fn mouse_event(kind: MouseKind, column: u16, row: u16) -> MouseInput {
    MouseInput { kind, column, row }
}

fn text_of(lines: &[Line]) -> String {
    lines
        .iter()
        .map(|line| line.text())
        .collect::<Vec<_>>()
        .join("\n")
}

fn messages(role: &str, contents: &[String]) -> Vec<ChatMessage> {
    contents
        .iter()
        .map(|content| ChatMessage::of(role, content))
        .collect()
}

fn summary(id: &str) -> SessionSummary {
    SessionSummary {
        id: id.to_string(),
        title: "A long session title".to_string(),
        workspace_root: "/tmp/project".to_string(),
        updated_at: "2026-07-18T00:00:00Z".to_string(),
        provider: "deepseek".to_string(),
        model: "deepseek-v4-pro".to_string(),
    }
}

#[test]
fn input_snapshot_is_stable_for_unchanged_state() {
    let mut state = AppState::new();
    state.status = "Thinking...".to_string();

    let first = state.input_snapshot_for_width(80);
    let second = state.input_snapshot_for_width(80);

    assert_eq!(format!("{:?}", first), format!("{:?}", second));
}

#[test]
fn input_snapshot_changes_when_permission_selection_changes() {
    let mut state = AppState::new();
    state.pending_permission = Some(PendingPermission {
        request_id: "perm_1".to_string(),
        tool_name: "agent".to_string(),
        input: serde_json::from_str(r#"{"task": "Analyze project"}"#).unwrap(),
        evaluation: None,
        selected: PermissionChoice::AllowOnce,
    });
    let first = state.input_snapshot_for_width(80);

    state.pending_permission.as_mut().unwrap().selected = PermissionChoice::AllowAlways;
    let second = state.input_snapshot_for_width(80);

    assert_ne!(format!("{:?}", first), format!("{:?}", second));
}

#[test]
fn completed_reasoning_is_collapsed_by_default() {
    let lines = render_reasoning(
        "inspect parser\ncheck tests",
        10,
        false,
        false,
        80,
        &CodeHighlighter::new(),
    );

    assert_eq!(text_of(&lines), "Thought for 10s (ctrl+o to expand)");
    assert!(lines[0].spans[1].style.bold);
}

#[test]
fn reasoning_content_renders_when_expanded() {
    let lines = render_reasoning(
        "inspect parser\ncheck tests",
        10,
        false,
        true,
        80,
        &CodeHighlighter::new(),
    );
    let text = text_of(&lines);

    assert!(text.starts_with("Thought for 10s (ctrl+o to collapse)"));
    assert!(text.contains("inspect parser"));
    assert!(text.contains("check tests"));
}

#[test]
fn completed_reasoning_cache_rebuilds_when_expansion_changes() {
    let highlighter = CodeHighlighter::new();
    let messages = vec![ChatMessage::of("reasoning:10", "inspect parser")];
    let mut cache = TranscriptLineCache::new();
    cache.ensure(&None, &messages, "", "", None, false, 80, &highlighter);
    assert!(!text_of(&cache.lines).contains("inspect parser"));

    cache.ensure(&None, &messages, "", "", None, true, 80, &highlighter);
    assert!(text_of(&cache.lines).contains("inspect parser"));
}

#[test]
fn active_reasoning_shows_elapsed_seconds() {
    let lines = render_reasoning("", 5, true, false, 80, &CodeHighlighter::new());

    assert_eq!(lines[0].text(), "Thinking ... 5s");
}

#[test]
fn transcript_window_slices_visible_range() {
    let mut viewport = ViewportState {
        transcript_scroll: TranscriptScroll::at_line(30),
        ..ViewportState::new()
    };

    let (top, end, _) = viewport.resolve_transcript_window(100, 20);

    assert_eq!((top, end), (30, 50));
}

#[test]
fn short_transcript_starts_directly_below_scrollable_header() {
    let highlighter = CodeHighlighter::new();
    let mut state = AppState::with_messages(messages("user", &["hello".to_string()]));
    let header = StartupHeader {
        model: "test-model xhigh".to_string(),
        directory: "/tmp/project".to_string(),
    };
    let header_line_count = startup_header_lines(&header, 79).len();
    state.startup_header = Some(header);
    let mut cache = TranscriptLineCache::new();

    let view = state
        .render_frame(&mut cache, rect(0, 0, 80, 30), 0, &highlighter)
        .unwrap();

    assert_eq!(state.viewport.last_transcript_area.unwrap().y, 0);
    assert_eq!(state.viewport.last_transcript_top, 0);
    assert_eq!(state.viewport.last_transcript_padding_top, 0);
    assert!(cache.lines[0].text().contains("____"));
    assert_eq!(cache.lines[header_line_count].text(), "");
    assert!(cache.lines[header_line_count + 1].text().starts_with("> hello"));
    assert_eq!(view.transcript.lines.len(), cache.lines.len());
}

#[test]
fn startup_header_scrolls_with_long_transcript() {
    let highlighter = CodeHighlighter::new();
    let contents: Vec<String> = (0..20).map(|index| format!("message {index}")).collect();
    let mut state = AppState::with_messages(messages("user", &contents));
    let header = StartupHeader {
        model: "test-model xhigh".to_string(),
        directory: "/tmp/project".to_string(),
    };
    let header_line_count = startup_header_lines(&header, 79).len();
    state.startup_header = Some(header);
    let mut cache = TranscriptLineCache::new();
    let area = rect(0, 0, 80, 20);

    state.render_frame(&mut cache, area, 0, &highlighter).unwrap();

    assert!(state.viewport.last_transcript_top > header_line_count);
    state.viewport.scroll_up(usize::MAX);
    state.render_frame(&mut cache, area, 0, &highlighter).unwrap();
    assert_eq!(state.viewport.last_transcript_top, 0);
}

#[test]
fn session_picker_fits_small_terminal() {
    let mut state = AppState::new();
    state.pending_sessions = Some(PendingSessionPicker {
        sessions: vec![summary("550e8400-e29b-41d4-a716-446655440000")],
        selected: 0,
        show_all: false,
    });
    let mut cache = TranscriptLineCache::new();

    let view = state
        .render_frame(&mut cache, rect(0, 0, 12, 4), 0, &CodeHighlighter::new())
        .unwrap();
    let picker = view.picker.unwrap();

    assert!(picker.area.x + picker.area.width <= 12);
    assert!(picker.area.y + picker.area.height <= 4);
    assert!(picker
        .lines
        .iter()
        .all(|line| line.width() <= usize::from(picker.inner.width)));
}

#[test]
fn wide_input_keeps_terminal_wrap_column_empty_across_frames() {
    let highlighter = CodeHighlighter::new();
    let mut state = AppState::new();
    let mut cache = TranscriptLineCache::new();
    let area = rect(0, 0, 20, 8);
    state.editor.set_text("当前项目只是3D地球，我想改成太阳系3D效果");
    state.render_frame(&mut cache, area, 0, &highlighter).unwrap();
    state
        .editor
        .set_text("当前项目只是3D地球，我想改成太阳系3D效果，太阳在正中间");
    let view = state.render_frame(&mut cache, area, 0, &highlighter).unwrap();

    let input = view.footer.input.as_ref().unwrap();
    assert!(input.line.width() <= 19);
    assert!(view.footer.status.as_ref().unwrap().width() <= 19);
    assert_eq!(view.footer.input_area.width, 19);
    assert_eq!(view.footer.cursor_position(), Some((18, 7)));
}

#[test]
fn transcript_scrollbar_does_not_use_terminal_wrap_column() {
    let contents: Vec<String> = (0..20)
        .map(|index| format!("第 {index} 行输出包含中文宽字符"))
        .collect();
    let mut state = AppState::with_messages(messages("assistant", &contents));
    let mut cache = TranscriptLineCache::new();

    let view = state
        .render_frame(&mut cache, rect(0, 0, 20, 8), 0, &CodeHighlighter::new())
        .unwrap();

    assert!(view.transcript.scrollbar.is_some());
    assert!(view.transcript.lines.iter().all(|line| line.width() <= 19));
    assert_eq!(state.viewport.last_transcript_area.unwrap().width, 19);
}

#[test]
fn streaming_does_not_pull_scrolled_view_to_bottom() {
    let mut viewport = ViewportState {
        transcript_scroll: TranscriptScroll::at_line(10),
        ..ViewportState::new()
    };

    let (top, _, _) = viewport.resolve_transcript_window(100, 20);
    assert_eq!(top, 10);

    let (top, _, _) = viewport.resolve_transcript_window(120, 20);
    assert_eq!(top, 10);
    assert_ne!(viewport.transcript_scroll, TranscriptScroll::to_bottom());
}

#[test]
fn tail_tracks_new_streaming_content() {
    let mut viewport = ViewportState::new();

    let (top, _, _) = viewport.resolve_transcript_window(100, 20);
    assert_eq!(top, 80);
    assert_eq!(viewport.transcript_scroll, TranscriptScroll::to_bottom());

    let (top, _, _) = viewport.resolve_transcript_window(120, 20);
    assert_eq!(top, 100);
    assert_eq!(viewport.transcript_scroll, TranscriptScroll::to_bottom());
}

#[test]
fn scrollbar_drag_maps_rows_to_offsets() {
    let mut state = AppState::new();
    state.viewport.last_transcript_area = Some(rect(0, 10, 40, 11));
    state.viewport.last_transcript_total = 120;
    state.viewport.last_transcript_visible = 20;

    assert!(state.viewport.scroll_transcript_to_mouse_row(10));
    assert_eq!(state.viewport.transcript_scroll, TranscriptScroll::at_line(0));

    assert!(state.viewport.scroll_transcript_to_mouse_row(15));
    assert_eq!(state.viewport.transcript_scroll, TranscriptScroll::at_line(50));

    assert!(state.viewport.scroll_transcript_to_mouse_row(20));
    assert_eq!(state.viewport.transcript_scroll, TranscriptScroll::to_bottom());
}

#[test]
fn selection_point_maps_mouse_to_transcript_line_and_column() {
    let mut viewport = ViewportState::new();
    viewport.last_transcript_area = Some(rect(2, 3, 20, 5));
    viewport.last_transcript_top = 10;
    viewport.last_transcript_total = 20;
    viewport.last_transcript_padding_top = 1;
    let lines: Vec<Line> = (0..20)
        .map(|idx| plain_line(&format!("line-{idx}")))
        .collect();

    let mouse = mouse_event(MouseKind::LeftDown, 7, 5);
    let point = viewport.selection_point_from_mouse(&lines, mouse).unwrap();

    assert_eq!(point, TranscriptSelectionPoint { line: 11, column: 5 });
}

#[test]
fn selection_to_text_extracts_multiline_text() {
    let lines = vec![
        plain_line("alpha"),
        plain_line("bravo"),
        plain_line("charlie"),
    ];
    let selection = TranscriptSelection {
        anchor: Some(TranscriptSelectionPoint { line: 0, column: 2 }),
        head: Some(TranscriptSelectionPoint { line: 2, column: 4 }),
        dragging: false,
    };

    assert_eq!(selection_to_text(&lines, selection).unwrap(), "pha\nbravo\nchar");
}

#[test]
fn selections_read_the_same_from_either_end() {
    let lines = vec![plain_line("alpha"), plain_line("bravo")];
    let a = TranscriptSelectionPoint { line: 0, column: 1 };
    let b = TranscriptSelectionPoint { line: 1, column: 2 };
    let forwards = TranscriptSelection { anchor: Some(a), head: Some(b), dragging: false };
    let backwards = TranscriptSelection { anchor: Some(b), head: Some(a), dragging: false };
    assert_eq!(selection_to_text(&lines, forwards), Some("lpha\nbr".to_string()));
    assert_eq!(selection_to_text(&lines, backwards), Some("lpha\nbr".to_string()));
    let empty = TranscriptSelection { anchor: Some(a), head: Some(a), dragging: false };
    assert_eq!(selection_to_text(&lines, empty), None);
}

#[test]
fn selection_highlight_preserves_text_and_adds_background() {
    let mut line = Line::of(Span::styled("alpha", Style::of(Color::Green)));
    line.push(Span::raw(" beta"));
    let mut all: Vec<Line> = (0..4).map(|_| Line::blank()).collect();
    all.push(line);
    let selection = TranscriptSelection {
        anchor: Some(TranscriptSelectionPoint { line: 4, column: 2 }),
        head: Some(TranscriptSelectionPoint { line: 4, column: 8 }),
        dragging: false,
    };

    let lines = apply_transcript_selection(&all, 4, 5, selection);

    assert_eq!(lines[0].text(), "alpha beta");
    assert!(lines[0]
        .spans
        .iter()
        .any(|span| span.style.bg == Some(Color::Rgb(198, 222, 255))));
    let selected: String = lines[0]
        .spans
        .iter()
        .filter(|span| span.style.bg.is_some())
        .map(|span| span.content.as_str())
        .collect();
    assert_eq!(selected, "pha be");
}

#[test]
fn handle_mouse_returns_selected_text_on_left_button_up() {
    let mut viewport = ViewportState::new();
    viewport.last_transcript_area = Some(rect(0, 0, 12, 4));
    viewport.last_transcript_top = 0;
    viewport.last_transcript_total = 2;
    viewport.last_transcript_visible = 4;
    let lines = vec![plain_line("hello"), plain_line("world")];

    assert_eq!(
        viewport.handle_mouse(&lines, mouse_event(MouseKind::LeftDown, 1, 0), 0),
        None
    );
    assert_eq!(
        viewport.handle_mouse(&lines, mouse_event(MouseKind::LeftDrag, 3, 1), 0),
        None
    );

    let copied = viewport
        .handle_mouse(&lines, mouse_event(MouseKind::LeftUp, 3, 1), 0)
        .unwrap();

    assert_eq!(copied, "ello\nwor");
}

#[test]
fn a_click_on_the_scrollbar_drags_it() {
    let mut viewport = ViewportState::new();
    viewport.last_transcript_area = Some(rect(0, 0, 10, 5));
    viewport.last_transcript_visible = 5;
    viewport.last_transcript_total = 105;
    let lines = vec![plain_line("x")];

    viewport.handle_mouse(&lines, mouse_event(MouseKind::LeftDown, 9, 2), 0);
    assert!(viewport.transcript_scrollbar_dragging);
    viewport.handle_mouse(&lines, mouse_event(MouseKind::LeftDrag, 9, 2), 0);
    assert_eq!(viewport.transcript_scroll, TranscriptScroll::at_line(50));
    viewport.handle_mouse(&lines, mouse_event(MouseKind::LeftUp, 9, 2), 0);
    assert!(!viewport.transcript_scrollbar_dragging);
}

#[test]
fn the_wheel_scrolls_three_lines() {
    let mut viewport = ViewportState::new();
    viewport.handle_mouse(&vec![], mouse_event(MouseKind::ScrollUp, 0, 0), 1_000_000_000);
    assert_eq!(viewport.pending_scroll_delta, -3);
    let (top, _, _) = viewport.resolve_transcript_window(100, 20);
    assert_eq!(top, 77);
}

#[test]
fn base64_encode_matches_osc52_payload_encoding() {
    assert_eq!(base64_encode(b"hello"), "aGVsbG8=");
    assert_eq!(base64_encode("复制".as_bytes()), "5aSN5Yi2");
}

#[test]
fn base64_covers_every_remainder() {
    assert_eq!(base64_encode(b""), "");
    assert_eq!(base64_encode(b"f"), "Zg==");
    assert_eq!(base64_encode(b"fo"), "Zm8=");
    assert_eq!(base64_encode(b"foo"), "Zm9v");
    assert_eq!(base64_encode(&[0xfb, 0xff, 0xbf]), "+/+/");
}

#[test]
fn text_is_sliced_by_columns() {
    assert_eq!(slice_text_by_display_cols("a中b", 1, 3), "中");
    assert_eq!(slice_text_by_display_cols("abc", 2, 2), "");
    assert_eq!(slice_text_by_display_cols("abc", 1, 9), "bc");
}

#[test]
fn messages_are_drawn_by_their_role() {
    let highlighter = CodeHighlighter::new();
    let drawn = |role: &str, content: &str| {
        render_chat_message(&ChatMessage::of(role, content), 40, false, &highlighter)[0].text()
    };
    assert_eq!(drawn("user", "hi"), "> hi");
    assert_eq!(drawn("assistant", "hi"), "• hi");
    assert_eq!(drawn("error", "hi"), "x hi");
    assert_eq!(drawn("system", "hi"), "hi");
    assert_eq!(drawn("reasoning:3", "hi"), "Thought for 3s (ctrl+o to expand)");
    assert_eq!(drawn("reasoning:x", "hi"), "hi");
}

#[test]
fn an_empty_transcript_has_one_line() {
    let mut cache = TranscriptLineCache::new();
    cache.ensure(&None, &vec![], "", "", None, false, 80, &CodeHighlighter::new());
    assert_eq!(cache.lines.len(), 1);
    assert_eq!(cache.lines[0].text(), "");
}

#[test]
fn the_cache_follows_what_is_streamed() {
    let highlighter = CodeHighlighter::new();
    let mut cache = TranscriptLineCache::new();
    cache.ensure(&None, &vec![], "one", "", None, false, 80, &highlighter);
    assert!(text_of(&cache.lines).contains("one"));
    cache.ensure(&None, &vec![], "one two", "", None, false, 80, &highlighter);
    assert!(text_of(&cache.lines).contains("one two"));
    cache.ensure(&None, &vec![], "", "why", Some(2), true, 80, &highlighter);
    assert!(text_of(&cache.lines).starts_with("Thinking ... 2s"));
    assert!(text_of(&cache.lines).contains("why"));
}

#[test]
fn the_list_of_sessions_keeps_the_selected_one_in_view() {
    let picker = PendingSessionPicker {
        sessions: (0..10).map(|n| summary(&format!("session{n}"))).collect(),
        selected: 8,
        show_all: true,
    };
    let lines = render_session_picker(&picker, 60, 3);
    assert_eq!(lines.len(), 3);
    assert!(lines.iter().any(|line| line.text().starts_with("> session8")));
    let empty = PendingSessionPicker { sessions: vec![], selected: 0, show_all: true };
    assert_eq!(render_session_picker(&empty, 60, 3)[0].text(), "No saved sessions");
    let area = picker_area(rect(0, 0, 200, 50), &picker);
    assert_eq!((area.width, area.height), (100, 14));
    assert_eq!(inside_frame(area).width, 98);
}

#[test]
fn nothing_is_drawn_without_room() {
    let mut state = AppState::new();
    let mut cache = TranscriptLineCache::new();
    let highlighter = CodeHighlighter::new();
    assert!(state
        .render_frame(&mut cache, rect(0, 0, 0, 5), 0, &highlighter)
        .is_none());
    let view = state
        .render_frame(&mut cache, rect(0, 0, 10, 1), 0, &highlighter)
        .unwrap();
    assert!(view.footer.status.is_some());
    assert!(view.footer.input.is_none());
    assert_eq!(view.footer.cursor_position(), None);
}
