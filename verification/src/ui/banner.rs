//! The header that a session starts with.
use super::style::{push_line, span, text_line, plain_line, Color, Line, Span, SpanModel, Style};
use super::width::{cut_start, text_columns, text_width, truncate_display_width};
use crate::text::{concat2, concat3};
use crate::words::{repeat, repeated};
use vstd::prelude::*;

verus! {

pub const STARTUP_BANNER_WIDTH: usize = 68;

/// The model and the directory that a session runs with.
#[derive(Debug)]
pub struct StartupHeader {
    pub model: String,
    pub directory: String,
}

#[verifier::ext_equal]
pub struct HeaderModel {
    pub model: Seq<char>,
    pub directory: Seq<char>,
}

impl DeepView for StartupHeader {
    type V = HeaderModel;

    open spec fn deep_view(&self) -> HeaderModel {
        HeaderModel { model: self.model@, directory: self.directory@ }
    }
}

/// A model and its reasoning effort as they are shown.
pub open spec fn model_label(model: Seq<char>, effort: Option<Seq<char>>) -> Seq<char> {
    model + " "@ + match effort {
        Some(effort) => effort,
        None => "off"@,
    }
}

impl StartupHeader {
    pub fn current(model: &str, reasoning_effort: Option<&str>, directory: String) -> (r: Self)
        ensures
            r.deep_view() == (HeaderModel {
                model: model_label(
                    model@,
                    match reasoning_effort {
                        Some(effort) => Some(effort@),
                        None => None,
                    },
                ),
                directory: directory@,
            }),
    {
        let effort = match reasoning_effort {
            Some(effort) => effort,
            None => "off",
        };
        StartupHeader { model: concat3(model, " ", effort), directory }
    }

    pub fn copy(&self) -> (r: Self)
        ensures
            r.deep_view() == self.deep_view(),
    {
        StartupHeader { model: self.model.clone(), directory: self.directory.clone() }
    }
}

pub open spec fn gray() -> Style {
    Style::colored(Color::Gray)
}

pub open spec fn accent() -> Style {
    Style { fg: Some(Color::Cyan), bold: true, ..Style::normal() }
}

/// A line of the box, `width` columns wide between its sides.
pub open spec fn box_line(content: Seq<char>, width: usize, style: Style) -> Seq<SpanModel> {
    let room = if width == 0 {
        0usize
    } else {
        (width - 1) as usize
    };
    let shown = cut_start(content, room);
    let padding = if text_columns(shown) >= room {
        0
    } else {
        (room - text_columns(shown)) as nat
    };
    seq![span("│ "@, gray()), span(shown, style), span(repeat(" "@, padding) + "│"@, gray())]
}

fn header_box_line(content: &str, width: usize, style: Style) -> (r: Line)
    ensures
        r.deep_view() == box_line(content@, width, style),
{
    let room: usize = width.saturating_sub(1);
    let shown = truncate_display_width(content, room);
    let padding: usize = room.saturating_sub(text_width(shown.as_str()));
    let mut line = Line::of(Span::styled("│ ", Style::of(Color::Gray)));
    let end = concat2(repeated(" ", padding).as_str(), "│");
    line.push(Span { content: shown, style });
    line.push(Span { content: end, style: Style::of(Color::Gray) });
    assert(line.deep_view() =~= box_line(content@, width, style));
    line
}

/// The rows of the name.
pub open spec fn logo() -> Seq<Seq<char>> {
    seq![
        " ____                  ____          _      "@,
        "|  _ \\  ___  ___ _ __ / ___|___   __| | ___ "@,
        "| | | |/ _ \\/ _ \\ '_ \\ |   / _ \\ / _` |/ _ \\"@,
        "| |_| |  __/  __/ |_) | |__| (_) | (_| |  __/"@,
        "|____/ \\___|\\___| .__/ \\____\\___/ \\__,_|\\___|"@,
        "                |_|                          "@,
    ]
}

pub open spec fn logo_line(row: Seq<char>, width: usize) -> Seq<SpanModel> {
    seq![span(cut_start(row, width), Style::colored(Color::DarkGray))]
}

/// How wide the box is between its sides.
pub open spec fn box_width(width: usize) -> usize {
    if width < STARTUP_BANNER_WIDTH + 2 {
        if width <= 3 {
            1
        } else {
            (width - 2) as usize
        }
    } else {
        STARTUP_BANNER_WIDTH
    }
}

pub open spec fn less(n: usize, m: usize) -> usize {
    if n > m {
        (n - m) as usize
    } else {
        0
    }
}

/// The lines of the header.
pub open spec fn header_lines(header: HeaderModel, terminal_width: u16) -> Seq<Seq<SpanModel>> {
    let width = terminal_width as usize;
    if width < 16 {
        seq![text_line(cut_start("DeepCode"@, width))]
    } else {
        let inner = box_width(width);
        logo().map_values(|row: Seq<char>| logo_line(row, width)) + seq![
            seq![span("┌"@ + repeat("─"@, inner as nat) + "┐"@, gray())],
            box_line(">_ DeepCode (v0.1.0)"@, inner, accent()),
            box_line(""@, inner, gray()),
            box_line(
                "model:     "@ + cut_start(header.model, 32) + "   /model to change"@,
                inner,
                gray(),
            ),
            box_line(
                "directory: "@ + cut_start(header.directory, less(inner, 11)),
                inner,
                gray(),
            ),
            seq![span("└"@ + repeat("─"@, inner as nat) + "┘"@, gray())],
        ]
    }
}

fn push_logo_line(lines: &mut Vec<Line>, row: &str, width: usize)
    ensures
        final(lines).deep_view() == old(lines).deep_view().push(logo_line(row@, width)),
{
    let shown = truncate_display_width(row, width);
    let line = Line::of(Span { content: shown, style: Style::of(Color::DarkGray) });
    assert(line.deep_view() =~= logo_line(row@, width));
    push_line(lines, line);
}

fn push_box_edge(lines: &mut Vec<Line>, left: &str, right: &str, inner: usize)
    ensures
        final(lines).deep_view() == old(lines).deep_view().push(
            seq![span(left@ + repeat("─"@, inner as nat) + right@, gray())],
        ),
{
    let text = concat3(left, repeated("─", inner).as_str(), right);
    push_line(lines, Line::of(Span { content: text, style: Style::of(Color::Gray) }));
}

/// Draws the header.
pub fn startup_header_lines(header: &StartupHeader, terminal_width: u16) -> (r: Vec<Line>)
    ensures
        r.deep_view() == header_lines(header.deep_view(), terminal_width),
{
    let width: usize = terminal_width as usize;
    let mut lines: Vec<Line> = Vec::new();
    assert(lines.deep_view() =~= Seq::empty());
    if width < 16 {
        push_line(&mut lines, plain_line(truncate_display_width("DeepCode", width).as_str()));
        assert(lines.deep_view() =~= header_lines(header.deep_view(), terminal_width));
        return lines;
    }
    let inner: usize = if width < STARTUP_BANNER_WIDTH + 2 {
        width - 2
    } else {
        STARTUP_BANNER_WIDTH
    };
    push_logo_line(&mut lines, " ____                  ____          _      ", width);
    push_logo_line(&mut lines, "|  _ \\  ___  ___ _ __ / ___|___   __| | ___ ", width);
    push_logo_line(&mut lines, "| | | |/ _ \\/ _ \\ '_ \\ |   / _ \\ / _` |/ _ \\", width);
    push_logo_line(&mut lines, "| |_| |  __/  __/ |_) | |__| (_) | (_| |  __/", width);
    push_logo_line(&mut lines, "|____/ \\___|\\___| .__/ \\____\\___/ \\__,_|\\___|", width);
    push_logo_line(&mut lines, "                |_|                          ", width);
    push_box_edge(&mut lines, "┌", "┐", inner);
    push_line(
        &mut lines,
        header_box_line(
            ">_ DeepCode (v0.1.0)",
            inner,
            Style { fg: Some(Color::Cyan), bold: true, ..Style::plain() },
        ),
    );
    push_line(&mut lines, header_box_line("", inner, Style::of(Color::Gray)));
    let model = concat3(
        "model:     ",
        truncate_display_width(header.model.as_str(), 32).as_str(),
        "   /model to change",
    );
    push_line(&mut lines, header_box_line(model.as_str(), inner, Style::of(Color::Gray)));
    let directory = concat2(
        "directory: ",
        truncate_display_width(header.directory.as_str(), inner.saturating_sub(11)).as_str(),
    );
    push_line(&mut lines, header_box_line(directory.as_str(), inner, Style::of(Color::Gray)));
    push_box_edge(&mut lines, "└", "┘", inner);
    assert(lines.deep_view() =~= header_lines(header.deep_view(), terminal_width));
    lines
}

} // verus!
