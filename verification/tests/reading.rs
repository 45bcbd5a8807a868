use deepcode::ui::code::CodeHighlighter;
use deepcode::ui::markdown::render_markdown_message;
use deepcode::ui::markdown_source::{
    read_markdown, MarkdownEvent, MarkdownTag, MarkdownTagEnd,
};
use deepcode::ui::style::{Color, Line};
use deepcode::ui::table::CellAlignment;

fn drawn(text: &str) -> Vec<String> {
    render_markdown_message(text, 80, &CodeHighlighter::new())
        .iter()
        .map(|line| line.text())
        .collect()
}

fn starts(text: &str) -> Vec<MarkdownTag> {
    read_markdown(text)
        .into_iter()
        .filter_map(|event| match event {
            MarkdownEvent::Start(tag) => Some(tag),
            _ => None,
        })
        .collect()
}

#[test]
fn headings_keep_their_level() {
    for level in 1..=6u8 {
        let text = format!("{} title", "#".repeat(level as usize));
        let tags = starts(&text);
        assert!(matches!(tags[0], MarkdownTag::Heading(n) if n == level));
    }
}

#[test]
fn columns_keep_their_alignment() {
    let tags = starts("| a | b | c | d |\n|---|:--|:-:|--:|\n| 1 | 2 | 3 | 4 |");
    let MarkdownTag::Table(columns) = &tags[0] else { panic!("no table") };
    assert_eq!(
        columns,
        &vec![
            CellAlignment::Left,
            CellAlignment::Left,
            CellAlignment::Center,
            CellAlignment::Right,
        ]
    );
    let rows = tags.iter().filter(|tag| matches!(tag, MarkdownTag::TableRow)).count();
    assert_eq!(rows, 2);
}

#[test]
fn code_blocks_keep_the_words_behind_their_fence() {
    let tags = starts("```rust ignore\nx\n```");
    assert!(matches!(&tags[0], MarkdownTag::CodeBlock(Some(words)) if words == "rust ignore"));
    let tags = starts("    x\n");
    assert!(matches!(&tags[0], MarkdownTag::CodeBlock(None)));
}

#[test]
fn soft_and_hard_breaks_are_one() {
    let breaks = |text: &str| {
        read_markdown(text).iter().filter(|e| matches!(e, MarkdownEvent::Break)).count()
    };
    assert_eq!(breaks("a\nb"), 1);
    assert_eq!(breaks("a  \nb"), 1);
    assert_eq!(drawn("a\nb"), drawn("a  \nb"));
}

#[test]
fn html_is_shown_as_it_stands() {
    let html: Vec<String> = read_markdown("<b>x</b>\n\n<div>\ny\n</div>\n")
        .into_iter()
        .filter_map(|event| match event {
            MarkdownEvent::Html(text) => Some(text),
            _ => None,
        })
        .collect();
    assert!(html.contains(&"<b>".to_string()));
    assert!(html.iter().any(|text| text.starts_with("<div>")));
}

#[test]
fn the_extensions_are_read() {
    assert!(matches!(starts("~~gone~~")[1], MarkdownTag::Strikethrough));
    assert_eq!(drawn("- [x] done\n- [ ] open")[0], "• [x] done");
    assert!(!drawn("| a |\n|---|\n| 1 |").iter().any(|line| line.contains("---|")));
}

#[test]
fn styles_end_alike_and_images_set_none() {
    let ends: Vec<MarkdownTagEnd> = read_markdown("*a* **b** ~~c~~ [d](e) ![f](g)")
        .into_iter()
        .filter_map(|event| match event {
            MarkdownEvent::End(tag) => Some(tag),
            _ => None,
        })
        .collect();
    assert_eq!(
        ends,
        vec![
            MarkdownTagEnd::Inline,
            MarkdownTagEnd::Inline,
            MarkdownTagEnd::Inline,
            MarkdownTagEnd::Inline,
            MarkdownTagEnd::Other,
            MarkdownTagEnd::Paragraph,
        ]
    );
    assert!(starts("![f](g)").iter().any(|tag| matches!(tag, MarkdownTag::Other)));
}

#[test]
fn links_lists_quotes_and_rules_are_read() {
    assert!(matches!(starts("[d](e)")[1], MarkdownTag::Link));
    assert!(matches!(starts("3. a")[0], MarkdownTag::List(Some(3))));
    assert!(matches!(starts("- a")[0], MarkdownTag::List(None)));
    assert!(matches!(starts("> a")[0], MarkdownTag::BlockQuote));
    assert!(read_markdown("---").iter().any(|event| matches!(event, MarkdownEvent::Rule)));
}

fn colors(line: &Line) -> Vec<Option<Color>> {
    line.spans.iter().map(|span| span.style.fg).collect()
}

#[test]
fn colours_go_on_from_line_to_line() {
    let highlighter = CodeHighlighter::new();
    let inside = highlighter.highlight_code("/* a\nlet x = 1;\n*/", "rust");
    let alone = highlighter.highlight_code("let x = 1;", "rust");
    assert_eq!(inside.len(), 3);
    assert_eq!(inside[1].text(), alone[0].text());
    assert_ne!(colors(&inside[1]), colors(&alone[0]));
    assert_eq!(colors(&inside[0]).last(), colors(&inside[1]).last());
}

#[test]
fn names_extensions_and_plain_text_are_found() {
    let highlighter = CodeHighlighter::new();
    let by_name = highlighter.highlight_code("let x = 1;", "rust");
    let by_extension = highlighter.highlight_code("let x = 1;", "rs");
    let plain = highlighter.highlight_code("let x = 1;", "no such language");
    assert_eq!(colors(&by_name[0]), colors(&by_extension[0]));
    assert_eq!(plain[0].spans.len(), 1);
    assert_ne!(colors(&by_name[0]), colors(&plain[0]));
}

#[test]
fn code_in_many_languages_is_kept() {
    let highlighter = CodeHighlighter::new();
    let code = "# x = [1, \"a\"]; // <b>$y</b> {z: 'w'}\ndef f(a): return a";
    for lang in [
        "bash", "c", "cpp", "cs", "css", "diff", "go", "haskell", "html", "java", "js", "json",
        "lua", "makefile", "md", "perl", "php", "py", "r", "rb", "rust", "scala", "sql", "toml",
        "xml", "yaml",
    ] {
        let lines = highlighter.highlight_code(code, lang);
        let text: Vec<String> = lines.iter().map(|line| line.text()).collect();
        assert_eq!(text.join("\n"), code, "{lang}");
    }
}
