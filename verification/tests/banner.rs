use deepcode::ui::banner::{startup_header_lines, StartupHeader};

#[test]
fn startup_header_contains_banner_model_and_directory() {
    let header = StartupHeader {
        model: "deepseek-test xhigh".to_string(),
        directory: "/tmp/deepcode".to_string(),
    };
    let text = startup_header_lines(&header, 80)
        .iter()
        .map(|line| line.text())
        .collect::<Vec<_>>()
        .join("\n");

    assert!(text.contains(">_ DeepCode (v0.1.0)"));
    assert!(text.contains("model:     deepseek-test xhigh"));
    assert!(text.contains("directory: /tmp/deepcode"));
}

#[test]
fn startup_header_box_respects_terminal_width() {
    let header = StartupHeader {
        model: "model".to_string(),
        directory: "/a/very/long/path/that/needs/truncation".to_string(),
    };
    let lines = startup_header_lines(&header, 40);

    assert!(lines.iter().all(|line| line.width() <= 40));
}

#[test]
fn a_header_names_the_model_and_its_effort() {
    let header = StartupHeader::current("model", Some("high"), "/tmp".to_string());
    assert_eq!(header.model, "model high");
    let header = StartupHeader::current("model", None, "/tmp".to_string());
    assert_eq!(header.model, "model off");
}
