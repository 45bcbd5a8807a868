//! The list of saved sessions, drawn over the transcript.

use super::state::{PendingSessionPicker, PickerModel};
use super::style::{plain_line, push_line, span, text_line, Color, Line, Span, SpanModel, Style};
use super::viewport::{saturated_u16, Rect};
use super::width::{cut_end, truncate_display_width_end};
use crate::session::{SessionSummary, SummaryModel};
use crate::text::concat3;
use crate::words::{first, first_chars};
use vstd::prelude::*;

verus! {

/// The columns of the list, of at most a hundred.
pub open spec fn picker_width(outer: Rect) -> int {
    if outer.width <= 3 {
        1
    } else if outer.width >= 102 {
        100
    } else {
        outer.width - 2
    }
}

/// The rows of the list: one for each session and four more, as far as they fit.
pub open spec fn picker_height(outer: Rect, count: nat) -> int {
    let wanted = (count % 0x1_0000) + 4;
    let room = if outer.height == 0 {
        0
    } else {
        outer.height - 1
    };
    let height = if wanted < room {
        wanted as int
    } else {
        room
    };
    if height < 1 {
        1
    } else {
        height
    }
}

/// The area of the list, in the middle of the screen.
pub fn picker_area(outer: Rect, picker: &PendingSessionPicker) -> (r: Rect)
    requires
        outer.x + outer.width <= u16::MAX,
        outer.y + outer.height <= u16::MAX,
        picker.sessions.len() % 0x1_0000 + 4 <= u16::MAX,
    ensures
        ({
            let width = picker_width(outer);
            let height = picker_height(outer, picker.deep_view().sessions.len());
            r == (Rect {
                x: (outer.x + saturated_u16(outer.width - width) / 2) as u16,
                y: (outer.y + saturated_u16(outer.height - height) / 2) as u16,
                width: width as u16,
                height: height as u16,
            })
        }),
{
    let inner: u16 = outer.width.saturating_sub(2);
    let width: u16 = if inner < 1 {
        1
    } else if inner > 100 {
        100
    } else {
        inner
    };
    let wanted: u16 = (picker.sessions.len() % 0x1_0000) as u16 + 4;
    let room: u16 = outer.height.saturating_sub(1);
    let height: u16 = if wanted < room {
        wanted
    } else {
        room
    };
    let height: u16 = if height < 1 {
        1
    } else {
        height
    };
    Rect {
        x: outer.x + outer.width.saturating_sub(width) / 2,
        y: outer.y + outer.height.saturating_sub(height) / 2,
        width,
        height,
    }
}

/// What a frame of one column and one row on each side leaves of an area.
pub open spec fn framed(area: Rect) -> Rect {
    Rect {
        x: if area.width == 0 {
            area.x
        } else {
            saturated_u16(area.x + 1)
        },
        y: if area.height == 0 {
            area.y
        } else {
            saturated_u16(area.y + 1)
        },
        width: saturated_u16(area.width - 2),
        height: saturated_u16(area.height - 2),
    }
}

pub fn inside_frame(area: Rect) -> (r: Rect)
    ensures
        r == framed(area),
{
    Rect {
        x: if area.width == 0 {
            area.x
        } else {
            area.x.saturating_add(1)
        },
        y: if area.height == 0 {
            area.y
        } else {
            area.y.saturating_add(1)
        },
        width: area.width.saturating_sub(2),
        height: area.height.saturating_sub(2),
    }
}

/// The heading of the list.
pub open spec fn heading(show_all: bool) -> Seq<char> {
    " Sessions - "@ + (if show_all {
        "All workspaces"@
    } else {
        "Current workspace"@
    }) + " "@
}

pub fn picker_title(picker: &PendingSessionPicker) -> (r: String)
    ensures
        r@ == heading(picker.show_all),
{
    let scope = if picker.show_all {
        "All workspaces"
    } else {
        "Current workspace"
    };
    concat3(" Sessions - ", scope, " ")
}

/// A session of the list as one text.
pub open spec fn session_text(session: SummaryModel, selected: bool) -> Seq<char> {
    (if selected {
        ">"@
    } else {
        " "@
    }) + " "@ + first(session.id, 8) + "  "@ + first(session.updated_at, 10) + "  "@
        + session.title + "  "@ + session.provider + "/"@ + session.model
}

/// A session of the list as a line.
pub open spec fn session_line(session: SummaryModel, selected: bool, width: u16) -> Seq<SpanModel> {
    seq![
        span(
            cut_end(session_text(session, selected), width as usize),
            if selected {
                Style { bold: true, ..Style::colored(Color::Cyan) }
            } else {
                Style::normal()
            },
        ),
    ]
}

fn draw_session(session: &SessionSummary, selected: bool, width: u16) -> (r: Line)
    ensures
        r.deep_view() == session_line(session.deep_view(), selected, width),
{
    let marker = if selected {
        ">"
    } else {
        " "
    };
    let id = first_chars(session.id.as_str(), 8);
    let date = first_chars(session.updated_at.as_str(), 10);
    let text = concat3(marker, " ", id.as_str());
    let text = concat3(text.as_str(), "  ", date.as_str());
    let text = concat3(text.as_str(), "  ", session.title.as_str());
    let text = concat3(text.as_str(), "  ", session.provider.as_str());
    let text = concat3(text.as_str(), "/", session.model.as_str());
    let style = if selected {
        Style { bold: true, ..Style::of(Color::Cyan) }
    } else {
        Style::plain()
    };
    let shown = truncate_display_width_end(text.as_str(), width as usize);
    let line = Line::of(Span { content: shown, style });
    assert(line.deep_view() =~= session_line(session.deep_view(), selected, width));
    line
}

/// The first session that is shown where `height` rows are there for them.
pub open spec fn first_shown(picker: PickerModel, height: u16) -> int {
    let visible = if height == 0 {
        1
    } else {
        height as int
    };
    let before = picker.selected - visible / 2;
    let last_start = picker.sessions.len() - visible;
    let start = if before < last_start {
        before
    } else {
        last_start
    };
    if start < 0 {
        0
    } else {
        start
    }
}

/// The number of sessions that are shown.
pub open spec fn shown_count(picker: PickerModel, height: u16) -> nat {
    let visible = if height == 0 {
        1
    } else {
        height as int
    };
    let left = picker.sessions.len() - first_shown(picker, height);
    (if visible < left {
        visible
    } else {
        left
    }) as nat
}

/// The lines of the list inside its frame.
pub open spec fn picker_lines(picker: PickerModel, width: u16, height: u16) -> Seq<Seq<SpanModel>> {
    if picker.sessions.len() == 0 {
        seq![text_line("No saved sessions"@)]
    } else {
        let start = first_shown(picker, height);
        Seq::new(
            shown_count(picker, height),
            |k: int|
                session_line(
                    picker.sessions[start + k],
                    start + k == picker.selected,
                    width,
                ),
        )
    }
}

/// Draws the list inside its frame, which leaves `width` columns and `height` rows.
pub fn render_session_picker(picker: &PendingSessionPicker, width: u16, height: u16) -> (r: Vec<
    Line,
>)
    ensures
        r.deep_view() == picker_lines(picker.deep_view(), width, height),
{
    let ghost model = picker.deep_view();
    let mut lines: Vec<Line> = Vec::new();
    assert(lines.deep_view() =~= Seq::empty());
    if picker.sessions.len() == 0 {
        push_line(&mut lines, plain_line("No saved sessions"));
        assert(lines.deep_view() =~= picker_lines(model, width, height));
        return lines;
    }
    let visible: usize = if height == 0 {
        1
    } else {
        height as usize
    };
    let before: usize = picker.selected.saturating_sub(visible / 2);
    let last_start: usize = picker.sessions.len().saturating_sub(visible);
    let start: usize = if before < last_start {
        before
    } else {
        last_start
    };
    assert(start == first_shown(model, height));
    let left: usize = picker.sessions.len() - start;
    let count: usize = if visible < left {
        visible
    } else {
        left
    };
    assert(count == shown_count(model, height));
    let ghost all = picker_lines(model, width, height);
    let mut k: usize = 0;
    assert(lines.deep_view() =~= all.take(0));
    while k < count
        invariant
            model == picker.deep_view(),
            picker.sessions.len() > 0,
            start == first_shown(model, height),
            count == shown_count(model, height),
            start + count <= picker.sessions.len(),
            all == picker_lines(model, width, height),
            k <= count,
            lines.deep_view() == all.take(k as int),
        decreases count - k,
    {
        let i: usize = start + k;
        assert(model.sessions[i as int] == picker.sessions@[i as int].deep_view());
        let line = draw_session(&picker.sessions[i], i == picker.selected, width);
        push_line(&mut lines, line);
        assert(all[k as int] == line.deep_view());
        k += 1;
        assert(lines.deep_view() =~= all.take(k as int));
    }
    assert(all.take(k as int) =~= all);
    lines
}

/// The session that is selected is among those that are shown.
pub proof fn law_selected_session_is_shown(picker: PickerModel, height: u16)
    requires
        picker.selected < picker.sessions.len(),
    ensures
        first_shown(picker, height) <= picker.selected < first_shown(picker, height)
            + shown_count(picker, height),
{
}

} // verus!
