use deepcode::ui::diff::{
    parse_diff_path, parse_hunk_header, render_diff_message, summarize_diff,
};
use deepcode::ui::style::Color;

fn lines(text: &str) -> Vec<String> {
    text.lines().map(str::to_string).collect()
}

#[test]
fn diff_prepends_compact_file_summary() {
    let lines = render_diff_message(
        "Update: a.txt\n--- a/a.txt\n+++ b/a.txt\n@@ -1,1 +1,1 @@\n-old\n+new",
        80,
    );
    let text = lines.iter().map(|line| line.text()).collect::<Vec<_>>().join("\n");

    assert!(text.starts_with("● Update(a.txt)"));
    assert!(text.contains("└ Added 1 line, removed 1 line"));
    assert!(!text.contains("@@"));
}

#[test]
fn diff_lines_include_line_number_gutter_and_backgrounds() {
    let lines = render_diff_message(
        "Update: a.txt\n--- a/a.txt\n+++ b/a.txt\n@@ -1,1 +1,1 @@\n-old\n+new",
        80,
    );

    let deleted = lines
        .iter()
        .find(|line| line.text().contains("-old"))
        .expect("deleted line should render");
    let added = lines
        .iter()
        .find(|line| line.text().contains("+new"))
        .expect("added line should render");

    assert!(deleted.text().contains("   1 -old"));
    assert!(added.text().contains("   1 +new"));
    assert_eq!(deleted.spans[0].style.bg, None);
    assert_eq!(added.spans[0].style.bg, None);
    assert_eq!(deleted.spans[1].style.bg, Some(Color::Rgb(253, 235, 235)));
    assert_eq!(added.spans[1].style.bg, Some(Color::Rgb(232, 248, 236)));
    assert_eq!(deleted.spans[2].style.bg, Some(Color::Rgb(253, 235, 235)));
    assert_eq!(added.spans[2].style.bg, Some(Color::Rgb(232, 248, 236)));
}

#[test]
fn diff_wraps_long_lines_inside_width() {
    let long = "a".repeat(60);
    let content =
        format!("Create: a.txt\n--- /dev/null\n+++ b/a.txt\n@@ -0,0 +1,1 @@\n+{long}");
    let lines = render_diff_message(&content, 24);
    let added_lines = lines
        .iter()
        .filter(|line| {
            line.spans
                .get(1)
                .is_some_and(|span| span.style.bg == Some(Color::Rgb(232, 248, 236)))
        })
        .collect::<Vec<_>>();

    assert!(added_lines.len() > 1, "long diff line should wrap");
    for line in added_lines {
        assert!(
            line.width() <= 24,
            "wrapped line exceeds width: {:?}",
            line.text()
        );
    }
}

#[test]
fn diff_preserves_added_line_indentation() {
    let lines = render_diff_message(
        "Create: a.rs\n--- /dev/null\n+++ b/a.rs\n@@ -0,0 +1,1 @@\n+    let y = 2;",
        80,
    );
    let added = lines
        .iter()
        .find(|line| line.text().contains("+    let y = 2;"))
        .expect("added indented line should render");

    assert_eq!(added.spans[2].content.as_str(), "    let y = 2;");
}

#[test]
fn raw_diff_without_title_still_renders_summary() {
    let lines =
        render_diff_message("--- a/a.txt\n+++ b/a.txt\n@@ -1,1 +1,1 @@\n-old\n+new", 80);
    let text = lines.iter().map(|line| line.text()).collect::<Vec<_>>().join("\n");

    assert!(text.starts_with("● Update(a.txt)"));
    assert!(text.contains("└ Added 1 line, removed 1 line"));
    assert!(!text.contains("--- a/a.txt"));
    assert!(!text.contains("+++ b/a.txt"));
}

#[test]
fn diff_keeps_code_lines_that_resemble_file_headers() {
    let lines = render_diff_message(
        "Update: a.txt\n--- a/a.txt\n+++ b/a.txt\n@@ -1,1 +1,1 @@\n--- old heading\n+++ new heading",
        80,
    );
    let text = lines.iter().map(|line| line.text()).collect::<Vec<_>>().join("\n");

    assert!(text.contains("--- old heading"));
    assert!(text.contains("+++ new heading"));
}

#[test]
fn hunk_headers_are_parsed() {
    assert_eq!(parse_hunk_header("@@ -12,3 +15,4 @@ fn main()"), Some((12, 15)));
    assert_eq!(parse_hunk_header("@@ -1 +1 @@"), Some((1, 1)));
    assert_eq!(parse_hunk_header("@@ nothing @@"), None);
}

#[test]
fn paths_of_a_diff_lose_their_prefix() {
    assert_eq!(
        parse_diff_path("diff --git a/src/lib.rs b/src/lib.rs"),
        Some("src/lib.rs".to_string())
    );
    assert_eq!(parse_diff_path("+++ b/src/lib.rs"), Some("src/lib.rs".to_string()));
    assert_eq!(parse_diff_path("+++ /dev/null"), Some("/dev/null".to_string()));
    assert_eq!(parse_diff_path(" context"), None);
}

#[test]
fn added_and_removed_lines_are_counted_by_file() {
    let summary = summarize_diff(&lines(
        "--- a/a.txt\n+++ b/a.txt\n@@ -1,2 +1,3 @@\n same\n-old\n+new\n+more\n--- a/b.txt\n+++ b/b.txt\n@@ -1,1 +0,0 @@\n-gone",
    ));
    assert_eq!(summary.len(), 2);
    assert_eq!((summary[0].added, summary[0].deleted), (2, 1));
    assert_eq!((summary[1].added, summary[1].deleted), (0, 1));
}
