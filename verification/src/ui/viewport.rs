//! The part of the transcript that is shown, and how the mouse moves it.
use super::editor::saturated;
use super::scrolling::{trackpad_lines, MouseScrollState, ScrollDirection, TranscriptScroll};
use super::selection::{
    selected_text, selection_to_text, smaller, TranscriptSelection, TranscriptSelectionPoint,
};
use super::style::{columns_of_pieces, Line, SpanModel};
use vstd::prelude::*;

verus! {

#[derive(Debug, Clone, Copy, PartialEq, Eq, Structural)]
pub struct Rect {
    pub x: u16,
    pub y: u16,
    pub width: u16,
    pub height: u16,
}

pub open spec fn saturated_u16(n: int) -> u16 {
    if n > u16::MAX {
        u16::MAX
    } else if n < 0 {
        0
    } else {
        n as u16
    }
}

pub open spec fn saturated_i32(n: int) -> i32 {
    if n > i32::MAX {
        i32::MAX
    } else if n < i32::MIN {
        i32::MIN
    } else {
        n as i32
    }
}

fn saturate_i32(n: i64) -> (r: i32)
    ensures
        r == saturated_i32(n as int),
{
    if n > i32::MAX as i64 {
        i32::MAX
    } else if n < i32::MIN as i64 {
        i32::MIN
    } else {
        n as i32
    }
}

/// What the mouse does. Only the wheel and the left button count.
#[derive(Debug, Clone, Copy, PartialEq, Eq, Structural)]
pub enum MouseKind {
    ScrollUp,
    ScrollDown,
    LeftDown,
    LeftDrag,
    LeftUp,
    Other,
}

#[derive(Debug, Clone, Copy, PartialEq, Eq, Structural)]
pub struct MouseInput {
    pub kind: MouseKind,
    pub column: u16,
    pub row: u16,
}

/// Where the transcript is scrolled to, what is selected in it, and where it was last drawn.
#[derive(Debug, Clone, Copy)]
pub struct ViewportState {
    pub transcript_scroll: TranscriptScroll,
    pub pending_scroll_delta: i32,
    pub mouse_scroll: MouseScrollState,
    pub transcript_scrollbar_dragging: bool,
    pub transcript_selection: TranscriptSelection,
    pub last_transcript_area: Option<Rect>,
    pub last_transcript_top: usize,
    pub last_transcript_visible: usize,
    pub last_transcript_total: usize,
    pub last_transcript_padding_top: usize,
}

/// What the scrollbar shows.
#[derive(Debug, Clone, Copy, PartialEq, Eq, Structural)]
pub struct TranscriptScrollbar {
    pub top: usize,
    pub visible: usize,
    pub total: usize,
}

impl ViewportState {
    pub open spec fn initial() -> ViewportState {
        ViewportState {
            transcript_scroll: TranscriptScroll { offset: usize::MAX },
            pending_scroll_delta: 0,
            mouse_scroll: MouseScrollState {
                last_event_at: None,
                last_direction: None,
                rapid_same_direction_ticks: 0,
            },
            transcript_scrollbar_dragging: false,
            transcript_selection: TranscriptSelection::nothing(),
            last_transcript_area: None,
            last_transcript_top: 0,
            last_transcript_visible: 0,
            last_transcript_total: 0,
            last_transcript_padding_top: 0,
        }
    }

    pub fn new() -> (r: Self)
        ensures
            r == ViewportState::initial(),
    {
        ViewportState {
            transcript_scroll: TranscriptScroll::to_bottom(),
            pending_scroll_delta: 0,
            mouse_scroll: MouseScrollState::default(),
            transcript_scrollbar_dragging: false,
            transcript_selection: TranscriptSelection::none(),
            last_transcript_area: None,
            last_transcript_top: 0,
            last_transcript_visible: 0,
            last_transcript_total: 0,
            last_transcript_padding_top: 0,
        }
    }

    /// With `delta` more lines to scroll.
    pub open spec fn moved(self, delta: int) -> ViewportState {
        ViewportState {
            pending_scroll_delta: saturated_i32(self.pending_scroll_delta + delta),
            ..self
        }
    }

    pub fn scroll_up(&mut self, amount: usize)
        ensures
            *final(self) == old(self).moved(-(saturated_i32(amount as int) as int)),
    {
        let delta: i32 = if amount > i32::MAX as usize {
            i32::MAX
        } else {
            amount as i32
        };
        self.pending_scroll_delta = saturate_i32(self.pending_scroll_delta as i64 - delta as i64);
    }

    pub fn scroll_down(&mut self, amount: usize)
        ensures
            *final(self) == old(self).moved(saturated_i32(amount as int) as int),
    {
        let delta: i32 = if amount > i32::MAX as usize {
            i32::MAX
        } else {
            amount as i32
        };
        self.pending_scroll_delta = saturate_i32(self.pending_scroll_delta as i64 + delta as i64);
    }

    /// The view that follows the end of the transcript.
    pub open spec fn at_bottom(self) -> ViewportState {
        ViewportState {
            transcript_scroll: TranscriptScroll { offset: usize::MAX },
            pending_scroll_delta: 0,
            transcript_scrollbar_dragging: false,
            ..self
        }
    }

    pub fn scroll_to_bottom(&mut self)
        ensures
            *final(self) == old(self).at_bottom(),
    {
        self.transcript_scroll = TranscriptScroll::to_bottom();
        self.pending_scroll_delta = 0;
        self.transcript_scrollbar_dragging = false;
    }

    /// The first line that is shown where `total` lines are and `visible` of them fit.
    pub open spec fn window_top(self, total: usize, visible: usize) -> int {
        let max_start = saturated(total - visible) as int;
        if self.pending_scroll_delta == 0 {
            self.transcript_scroll.top(max_start)
        } else if total <= visible {
            0
        } else {
            let moved = self.transcript_scroll.top(max_start) + self.pending_scroll_delta;
            if moved < 0 {
                0
            } else if moved > max_start {
                max_start
            } else {
                moved
            }
        }
    }

    /// The state after the transcript was drawn.
    pub open spec fn drawn(self, total: usize, visible: usize) -> ViewportState {
        let top = self.window_top(total, visible);
        ViewportState {
            transcript_scroll: TranscriptScroll::settled(top, saturated(total - visible) as int),
            pending_scroll_delta: 0,
            last_transcript_top: top as usize,
            last_transcript_visible: visible,
            last_transcript_total: total,
            ..self
        }
    }

    /// Settles the view, and gives the lines that are shown and the scrollbar.
    pub fn resolve_transcript_window(&mut self, total_lines: usize, visible_lines: usize) -> (r: (
        usize,
        usize,
        Option<TranscriptScrollbar>,
    ))
        ensures
            *final(self) == old(self).drawn(total_lines, visible_lines),
            r.0 == old(self).window_top(total_lines, visible_lines),
            r.1 == smaller(saturated(r.0 + visible_lines), total_lines),
            r.2 == (if total_lines > visible_lines && visible_lines > 0 {
                Some(
                    TranscriptScrollbar {
                        top: r.0,
                        visible: visible_lines,
                        total: total_lines,
                    },
                )
            } else {
                None
            }),
            r.0 <= r.1 <= total_lines,
    {
        if self.pending_scroll_delta != 0 {
            self.transcript_scroll = self.transcript_scroll.scrolled_by(
                self.pending_scroll_delta,
                total_lines,
                visible_lines,
            );
            self.pending_scroll_delta = 0;
        }
        let max_start: usize = total_lines.saturating_sub(visible_lines);
        let (scroll_state, top) = self.transcript_scroll.resolve_top(max_start);
        self.transcript_scroll = scroll_state;
        self.last_transcript_top = top;
        self.last_transcript_visible = visible_lines;
        self.last_transcript_total = total_lines;
        let reached: usize = top.saturating_add(visible_lines);
        let end: usize = if reached < total_lines {
            reached
        } else {
            total_lines
        };
        let scrollbar = if total_lines > visible_lines && visible_lines > 0 {
            Some(TranscriptScrollbar { top, visible: visible_lines, total: total_lines })
        } else {
            None
        };
        (top, end, scrollbar)
    }

    /// Remembers where the transcript is drawn.
    pub fn place(&mut self, area: Rect)
        ensures
            *final(self) == (ViewportState {
                last_transcript_area: Some(area),
                last_transcript_padding_top: 0,
                ..*old(self)
            }),
    {
        self.last_transcript_area = Some(area);
        self.last_transcript_padding_top = 0;
    }

    /// Whether a place on the screen is on the scrollbar.
    pub open spec fn on_scrollbar(self, column: u16, row: u16) -> bool {
        self.last_transcript_area matches Some(area) && area.width > 1
            && self.last_transcript_total > self.last_transcript_visible && column
            == saturated_u16(area.x + area.width - 1) && area.y <= row < saturated_u16(
            area.y + area.height,
        )
    }

    pub fn mouse_hits_transcript_scrollbar(&self, mouse: MouseInput) -> (r: bool)
        ensures
            r == self.on_scrollbar(mouse.column, mouse.row),
    {
        match self.last_transcript_area {
            Some(area) => {
                if area.width <= 1 || self.last_transcript_total <= self.last_transcript_visible {
                    return false;
                }
                let scrollbar_col: u16 = area.x.saturating_add(area.width - 1);
                mouse.column == scrollbar_col && mouse.row >= area.y && mouse.row
                    < area.y.saturating_add(area.height)
            },
            None => false,
        }
    }

    /// The columns of the transcript's area that hold text.
    pub open spec fn text_columns_of(area: Rect) -> u16 {
        if area.width <= 2 {
            1
        } else {
            (area.width - 1) as u16
        }
    }

    /// The place in the transcript that is shown at a place on the screen.
    pub open spec fn point_at(
        self,
        lines: Seq<Seq<SpanModel>>,
        column: u16,
        row: u16,
    ) -> Option<TranscriptSelectionPoint> {
        match self.last_transcript_area {
            Some(area) => {
                let offset = row - area.y;
                let line = saturated(
                    self.last_transcript_top + offset - self.last_transcript_padding_top,
                );
                if area.width == 0 || row < area.y || row >= saturated_u16(area.y + area.height)
                    || column < area.x || column >= saturated_u16(
                    area.x + Self::text_columns_of(area),
                ) || offset < self.last_transcript_padding_top || line
                    >= self.last_transcript_total {
                    None
                } else {
                    Some(
                        TranscriptSelectionPoint {
                            line,
                            column: smaller(
                                (column - area.x) as usize,
                                if line < lines.len() {
                                    columns_of_pieces(lines[line as int]) as usize
                                } else {
                                    0
                                },
                            ),
                        },
                    )
                }
            },
            None => None,
        }
    }

    pub fn selection_point_from_mouse(&self, lines: &Vec<Line>, mouse: MouseInput) -> (r: Option<
        TranscriptSelectionPoint,
    >)
        ensures
            r == self.point_at(lines.deep_view(), mouse.column, mouse.row),
    {
        let area = match self.last_transcript_area {
            Some(area) => area,
            None => {
                return None;
            },
        };
        let text_width: u16 = if area.width <= 2 {
            1
        } else {
            area.width - 1
        };
        if area.width == 0 || mouse.row < area.y || mouse.row >= area.y.saturating_add(area.height)
            || mouse.column < area.x || mouse.column >= area.x.saturating_add(text_width) {
            return None;
        }
        let row_offset: usize = (mouse.row - area.y) as usize;
        if row_offset < self.last_transcript_padding_top {
            return None;
        }
        let visual_line: usize = row_offset - self.last_transcript_padding_top;
        let line: usize = self.last_transcript_top.saturating_add(visual_line);
        if line >= self.last_transcript_total {
            return None;
        }
        let raw_column: usize = (mouse.column - area.x) as usize;
        let max_column: usize = if line < lines.len() {
            assert(lines.deep_view()[line as int] == lines@[line as int].deep_view());
            lines[line].width()
        } else {
            0
        };
        let column: usize = if raw_column < max_column {
            raw_column
        } else {
            max_column
        };
        Some(TranscriptSelectionPoint { line, column })
    }

    /// The line that a place on the scrollbar stands for.
    pub open spec fn scrollbar_line(self, area: Rect, row: u16) -> int {
        let max_start = self.last_transcript_total - self.last_transcript_visible;
        let max_row = area.height - 1;
        let at = if row < area.y {
            0
        } else if row - area.y > max_row {
            max_row
        } else {
            row - area.y
        };
        if max_row == 0 {
            0
        } else {
            (saturated(saturated(at * max_start) + max_row / 2) / (max_row as usize)) as int
        }
    }

    /// The state after the scrollbar was dragged to a row.
    pub open spec fn dragged_to(self, row: u16) -> ViewportState {
        match self.last_transcript_area {
            Some(area) => if area.height == 0 || self.last_transcript_total
                <= self.last_transcript_visible {
                self
            } else {
                ViewportState {
                    transcript_scroll: TranscriptScroll::settled(
                        self.scrollbar_line(area, row),
                        self.last_transcript_total - self.last_transcript_visible,
                    ),
                    pending_scroll_delta: 0,
                    ..self
                }
            },
            None => self,
        }
    }

    /// Scrolls to where a row of the scrollbar points, and says whether there is one.
    pub fn scroll_transcript_to_mouse_row(&mut self, row: u16) -> (r: bool)
        ensures
            *final(self) == old(self).dragged_to(row),
            r == (old(self).last_transcript_area matches Some(area) && area.height > 0 && old(
                self,
            ).last_transcript_total > old(self).last_transcript_visible),
    {
        let area = match self.last_transcript_area {
            Some(area) => area,
            None => {
                return false;
            },
        };
        let total: usize = self.last_transcript_total;
        let visible: usize = self.last_transcript_visible;
        if area.height == 0 || total <= visible {
            return false;
        }
        let max_start: usize = total - visible;
        let max_row: usize = (area.height - 1) as usize;
        let offset: usize = row.saturating_sub(area.y) as usize;
        let relative_row: usize = if offset < max_row {
            offset
        } else {
            max_row
        };
        let top: usize = if max_row == 0 {
            0
        } else {
            assert(0 <= relative_row * max_start <= 0x1_0000 * 0x1_0000_0000_0000_0000)
                by (nonlinear_arith)
                requires
                    0 <= relative_row <= 0x1_0000,
                    0 <= max_start <= 0xffff_ffff_ffff_ffff,
            ;
            let product: u128 = (relative_row as u128) * (max_start as u128);
            let scaled: usize = if product > usize::MAX as u128 {
                usize::MAX
            } else {
                product as usize
            };
            scaled.saturating_add(max_row / 2) / max_row
        };
        self.transcript_scroll = if top >= max_start {
            TranscriptScroll::to_bottom()
        } else {
            TranscriptScroll::at_line(top)
        };
        self.pending_scroll_delta = 0;
        true
    }

    /// The state after the mouse was moved with a selection begun.
    pub open spec fn selecting(self, lines: Seq<Seq<SpanModel>>, mouse: MouseInput) -> ViewportState {
        match self.point_at(lines, mouse.column, mouse.row) {
            Some(point) => ViewportState {
                transcript_selection: TranscriptSelection {
                    head: Some(point),
                    ..self.transcript_selection
                },
                ..self
            },
            None => match self.last_transcript_area {
                Some(area) => if mouse.row < area.y {
                    self.moved(-1)
                } else if mouse.row >= saturated_u16(area.y + area.height) {
                    self.moved(1)
                } else {
                    self
                },
                None => self,
            },
        }
    }

    pub fn update_selection_drag(&mut self, lines: &Vec<Line>, mouse: MouseInput)
        ensures
            *final(self) == old(self).selecting(lines.deep_view(), mouse),
    {
        match self.selection_point_from_mouse(lines, mouse) {
            Some(point) => {
                self.transcript_selection.head = Some(point);
                return;
            },
            None => {},
        }
        match self.last_transcript_area {
            Some(area) => {
                if mouse.row < area.y {
                    self.scroll_up(1);
                } else if mouse.row >= area.y.saturating_add(area.height) {
                    self.scroll_down(1);
                }
            },
            None => {},
        }
    }

    /// The state after a turn of the wheel.
    pub open spec fn wheeled(self, direction: ScrollDirection, now: u64) -> ViewportState {
        let lines = if self.mouse_scroll.is_trackpad(now) {
            trackpad_lines(self.mouse_scroll.next_ticks(direction, now))
        } else {
            3
        };
        ViewportState {
            mouse_scroll: MouseScrollState {
                last_event_at: Some(now),
                last_direction: Some(direction),
                rapid_same_direction_ticks: self.mouse_scroll.next_ticks(direction, now),
            },
            pending_scroll_delta: saturated_i32(
                self.pending_scroll_delta + direction.signum() * lines,
            ),
            ..self
        }
    }

    fn wheel(&mut self, direction: ScrollDirection, now: u64)
        ensures
            *final(self) == old(self).wheeled(direction, now),
    {
        let update = self.mouse_scroll.on_scroll_at(direction, now);
        self.pending_scroll_delta = saturate_i32(
            self.pending_scroll_delta as i64 + update.delta_lines as i64,
        );
    }

    /// The state after the left button was pressed.
    pub open spec fn pressed(self, lines: Seq<Seq<SpanModel>>, mouse: MouseInput) -> ViewportState {
        if self.on_scrollbar(mouse.column, mouse.row) {
            ViewportState {
                transcript_scrollbar_dragging: true,
                transcript_selection: TranscriptSelection::nothing(),
                ..self
            }
        } else {
            ViewportState {
                transcript_scrollbar_dragging: false,
                transcript_selection: match self.point_at(lines, mouse.column, mouse.row) {
                    Some(point) => TranscriptSelection {
                        anchor: Some(point),
                        head: Some(point),
                        dragging: true,
                    },
                    None => TranscriptSelection::nothing(),
                },
                ..self
            }
        }
    }

    /// The text that is copied when the left button is released.
    pub open spec fn copied(self, lines: Seq<Seq<SpanModel>>) -> Option<Seq<char>> {
        match selected_text(lines, self.transcript_selection) {
            Some(text) => if text.len() > 0 {
                Some(text)
            } else {
                None
            },
            None => None,
        }
    }

    /// The state after the left button was released.
    pub open spec fn released(self, lines: Seq<Seq<SpanModel>>) -> ViewportState {
        if self.transcript_scrollbar_dragging {
            ViewportState { transcript_scrollbar_dragging: false, ..self }
        } else if !self.transcript_selection.dragging {
            self
        } else {
            ViewportState {
                transcript_selection: if self.copied(lines) is Some {
                    TranscriptSelection { dragging: false, ..self.transcript_selection }
                } else {
                    TranscriptSelection::nothing()
                },
                ..self
            }
        }
    }

    /// The state after the mouse did something at `now`.
    pub open spec fn after_mouse(
        self,
        lines: Seq<Seq<SpanModel>>,
        mouse: MouseInput,
        now: u64,
    ) -> ViewportState {
        match mouse.kind {
            MouseKind::ScrollUp => self.wheeled(ScrollDirection::Up, now),
            MouseKind::ScrollDown => self.wheeled(ScrollDirection::Down, now),
            MouseKind::LeftDown => self.pressed(lines, mouse),
            MouseKind::LeftDrag => if self.transcript_scrollbar_dragging {
                self.dragged_to(mouse.row)
            } else if self.transcript_selection.dragging {
                self.selecting(lines, mouse)
            } else {
                self
            },
            MouseKind::LeftUp => self.released(lines),
            MouseKind::Other => self,
        }
    }

    /// Follows the mouse over the transcript's lines, and gives the text to copy, if any.
    pub fn handle_mouse(&mut self, lines: &Vec<Line>, mouse: MouseInput, now: u64) -> (r: Option<
        String,
    >)
        ensures
            *final(self) == old(self).after_mouse(lines.deep_view(), mouse, now),
            r.deep_view() == (if mouse.kind is LeftUp && !old(self).transcript_scrollbar_dragging
                && old(self).transcript_selection.dragging {
                old(self).copied(lines.deep_view())
            } else {
                None
            }),
    {
        match mouse.kind {
            MouseKind::ScrollUp => {
                self.wheel(ScrollDirection::Up, now);
            },
            MouseKind::ScrollDown => {
                self.wheel(ScrollDirection::Down, now);
            },
            MouseKind::LeftDown => {
                self.transcript_scrollbar_dragging = false;
                self.transcript_selection.dragging = false;
                if self.mouse_hits_transcript_scrollbar(mouse) {
                    self.transcript_selection.clear();
                    self.transcript_scrollbar_dragging = true;
                } else {
                    match self.selection_point_from_mouse(lines, mouse) {
                        Some(point) => {
                            self.transcript_selection = TranscriptSelection {
                                anchor: Some(point),
                                head: Some(point),
                                dragging: true,
                            };
                        },
                        None => {
                            self.transcript_selection.clear();
                        },
                    }
                }
            },
            MouseKind::LeftDrag => {
                if self.transcript_scrollbar_dragging {
                    let _ = self.scroll_transcript_to_mouse_row(mouse.row);
                } else if self.transcript_selection.dragging {
                    self.update_selection_drag(lines, mouse);
                }
            },
            MouseKind::LeftUp => {
                if self.transcript_scrollbar_dragging {
                    self.transcript_scrollbar_dragging = false;
                } else if self.transcript_selection.dragging {
                    let ghost before = self.transcript_selection;
                    self.transcript_selection.dragging = false;
                    assert(self.transcript_selection.ends() == before.ends());
                    match selection_to_text(lines, self.transcript_selection) {
                        Some(text) => {
                            if !text.as_str().is_empty() {
                                return Some(text);
                            }
                        },
                        None => {},
                    }
                    self.transcript_selection.clear();
                }
            },
            MouseKind::Other => {},
        }
        None
    }
}

/// The lines that are shown are lines of the transcript, and fill the view as far as there are
/// any.
pub proof fn law_the_window_is_filled(viewport: ViewportState, total: usize, visible: usize)
    ensures
        0 <= viewport.window_top(total, visible) <= total,
        total <= visible ==> viewport.window_top(total, visible) == 0,
        total > visible ==> viewport.window_top(total, visible) + visible <= total,
{
}

/// Drawing again without new lines shows the same lines.
pub proof fn law_drawing_is_stable(viewport: ViewportState, total: usize, visible: usize)
    ensures
        viewport.drawn(total, visible).window_top(total, visible) == viewport.window_top(
            total,
            visible,
        ),
        viewport.drawn(total, visible).drawn(total, visible) == viewport.drawn(total, visible),
{
}

/// The ends of the scrollbar stand for the ends of the transcript.
pub proof fn law_scrollbar_reaches_both_ends(viewport: ViewportState, area: Rect)
    requires
        viewport.last_transcript_area == Some(area),
        1 < area.height,
        area.y + area.height <= u16::MAX,
        viewport.last_transcript_visible < viewport.last_transcript_total,
        (viewport.last_transcript_total - viewport.last_transcript_visible) * area.height
            <= usize::MAX,
    ensures
        viewport.dragged_to(area.y).transcript_scroll == TranscriptScroll::settled(
            0,
            viewport.last_transcript_total - viewport.last_transcript_visible,
        ),
        viewport.dragged_to((area.y + area.height - 1) as u16).transcript_scroll.is_tail(),
{
    let max_start: int = viewport.last_transcript_total - viewport.last_transcript_visible;
    let max_row: int = area.height - 1;
    assert(0 * max_start == 0);
    assert((max_row / 2) / max_row == 0) by (nonlinear_arith)
        requires
            max_row > 0,
    ;
    let product: int = max_row * max_start;
    let reach: int = if product + max_row / 2 > usize::MAX {
        usize::MAX as int
    } else {
        product + max_row / 2
    };
    assert(0 <= product <= max_start * (max_row + 1)) by (nonlinear_arith)
        requires
            product == max_row * max_start,
            max_row > 0,
            max_start > 0,
    ;
    assert(reach / max_row >= max_start) by (nonlinear_arith)
        requires
            product == max_row * max_start,
            reach >= product,
            max_row > 0,
    ;
}

} // verus!
