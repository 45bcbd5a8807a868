use deepcode::ui::code::CodeHighlighter;
use deepcode::ui::markdown::{
    normalize_terminal_icons, render_markdown_message, render_message_lines, Prefix,
};
use deepcode::ui::style::{Color, Line};

fn first_markdown_line(markdown: &str) -> Line {
    render_markdown_message(markdown, 80, &CodeHighlighter::new())
        .into_iter()
        .next()
        .unwrap_or_else(Line::blank)
}

#[test]
fn prefixed_message_wraps_long_text_to_visual_lines() {
    let lines = render_message_lines("abcdef", Some(Prefix { text: "• ", color: Color::Green }), 5, &CodeHighlighter::new());

    assert_eq!(lines.len(), 2);
    assert_eq!(lines[0].text(), "• abc");
    assert_eq!(lines[1].text(), "  def");
    assert!(lines.iter().all(|line| line.width() <= 5));
}

#[test]
fn prefixed_message_indents_explicit_newlines() {
    let lines = render_message_lines("one\ntwo", Some(Prefix { text: "> ", color: Color::Cyan }), 20, &CodeHighlighter::new());

    assert_eq!(lines[0].text(), "> one");
    assert_eq!(lines[1].text(), "  two");
}

#[test]
fn markdown_inline_markers_are_rendered_not_shown() {
    let line = first_markdown_line("**Bold** `code` [site](https://example.com)");
    let text = line.text();

    assert_eq!(text, "Bold code site");
    assert!(!text.contains("**"));
    assert!(!text.contains('`'));
    assert!(!text.contains("https://"));
}

#[test]
fn markdown_long_paragraph_wraps_inside_width() {
    let lines = render_markdown_message("abcdefghijklmnopqrstuvwxyz", 8, &CodeHighlighter::new());

    assert!(lines.len() > 1);
    assert!(lines.iter().all(|line| line.width() <= 8));
    assert_eq!(
        lines.iter().map(|line| line.text()).collect::<Vec<_>>().join(""),
        "abcdefghijklmnopqrstuvwxyz"
    );
}

#[test]
fn inline_code_uses_subtle_light_background() {
    let line = first_markdown_line("Run `cargo test` now");
    let span = line
        .spans
        .iter()
        .find(|span| span.content.as_str() == "cargo test")
        .expect("inline code span should be rendered");

    assert_eq!(span.style.bg, Some(Color::Rgb(249, 249, 249)));
    assert_ne!(span.style.bg, Some(Color::Rgb(40, 40, 40)));
}

#[test]
fn markdown_nested_styles_preserve_outer_modifiers() {
    let line = first_markdown_line("**[Bold link](https://example.com)**");
    let span = line
        .spans
        .iter()
        .find(|span| span.content.as_str() == "Bold link")
        .expect("link span should be rendered");

    assert_eq!(span.style.fg, Some(Color::Blue));
    assert!(span.style.bold);
    assert!(span.style.underlined);
}

#[test]
fn markdown_inline_markers_are_rendered_inside_cjk_text() {
    let line = first_markdown_line("✅ DeepCode **已具备**的功能");
    let text = line.text();

    assert_eq!(text, "✓ DeepCode 已具备的功能");
    assert!(!text.contains("**"));
    assert!(!text.contains("✅"));
}

#[test]
fn markdown_block_markers_are_rendered_not_shown() {
    assert_eq!(first_markdown_line("# Title").text(), "Title");
    assert_eq!(first_markdown_line("- item").text(), "• item");
    assert_eq!(first_markdown_line("> quote").text(), "│ quote");
}

#[test]
fn markdown_tables_are_rendered_without_pipe_syntax() {
    let lines = render_markdown_message(
        "| 功能 | 实现位置 |\n|------|----------|\n| **多 Provider** | `providers/` |",
        80,
        &CodeHighlighter::new(),
    );
    let text = lines.iter().map(|line| line.text()).collect::<Vec<_>>().join("\n");

    assert!(text.contains("┌"));
    assert!(text.contains("│"));
    assert!(text.contains("└"));
    assert!(text.contains("功能"));
    assert!(text.contains("实现位置"));
    assert!(text.contains("多 Provider"));
    assert!(text.contains("providers/"));
    assert!(!text.contains("|------|"));
    assert!(!text.contains("**"));
    assert!(!text.contains('`'));
}

#[test]
fn markdown_tables_wrap_long_cells_inside_borders() {
    let lines = render_markdown_message(
        "| 功能 | 说明 |\n|------|------|\n| 工具系统 | 文件读写编辑 Shell Git Glob Grep 网页搜索 子代理 |",
        32,
        &CodeHighlighter::new(),
    );
    let text = lines.iter().map(|line| line.text()).collect::<Vec<_>>().join("\n");

    assert!(text.contains("┌"));
    assert!(text.contains("┬"));
    assert!(text.contains("┼"));
    assert!(text.contains("└"));
    assert!(lines.iter().all(|line| line.width() <= 32));
    assert!(text.lines().filter(|line| line.starts_with('│')).count() > 2);
}

#[test]
fn markdown_unicode_rules_are_rendered_as_rules() {
    let line = first_markdown_line("────────────────────────");
    assert_eq!(line.text(), "────────────────────────");
}

#[test]
fn markdown_code_fences_are_hidden_but_code_remains() {
    let lines = render_markdown_message("```rust\nlet x = 1;\n```", 80, &CodeHighlighter::new());
    let text = lines.iter().map(|line| line.text()).collect::<Vec<_>>().join("\n");

    assert!(text.contains("let x = 1;"));
    assert!(!text.contains("```"));
}

#[test]
fn markdown_code_fences_do_not_embed_newlines_inside_spans() {
    let lines = render_markdown_message("```rust\nlet x = 1;\nlet y = 2;\n```", 80, &CodeHighlighter::new());

    assert_eq!(lines.len(), 2);
    for line in &lines {
        for span in &line.spans {
            assert!(!span.content.contains('\n'));
            assert!(!span.content.contains('\r'));
        }
    }
}

#[test]
fn markdown_code_fences_wrap_long_lines_inside_width() {
    let lines = render_markdown_message("```text\nabcdefghijklmnopqrstuvwxyz\n```", 10, &CodeHighlighter::new());

    assert!(lines.len() > 1);
    assert!(lines.iter().all(|line| line.width() <= 10));
}

#[test]
fn icons_are_replaced_by_plain_marks() {
    assert_eq!(normalize_terminal_icons("✅ ok"), "✓ ok");
    assert_eq!(normalize_terminal_icons("plain"), "plain");
}

#[test]
fn ordered_lists_are_numbered() {
    let lines = render_markdown_message("1. one\n2. two", 80, &CodeHighlighter::new());
    let text: Vec<String> = lines.iter().map(|line| line.text()).collect();
    assert!(text.iter().any(|line| line.starts_with("1. one")));
    assert!(text.iter().any(|line| line.starts_with("2. two")));
}

#[test]
fn code_is_coloured_by_its_language() {
    let lines = render_markdown_message("```rust\nlet x = 1;\n```", 80, &CodeHighlighter::new());
    let coloured = lines[0]
        .spans
        .iter()
        .filter(|span| span.style.fg.is_some())
        .count();
    assert!(coloured > 0);
    assert_eq!(lines[0].text(), "let x = 1;");
}
