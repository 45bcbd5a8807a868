//! The whole screen: the transcript, the footer below it, and the list of sessions over it.
use super::code::{CodeHighlighter, Highlighting};
use super::footer::{
    divide_screen, lemma_footer_without_viewport, narrowed, without_wrap_column, FooterView,
};
use super::picker::{
    framed, heading, inside_frame, picker_area, picker_height, picker_lines, picker_title,
    picker_width, render_session_picker,
};
use super::selection::{apply_transcript_selection, line_with_selection, smaller};
use super::state::{seconds_between, AppModel, AppState, PickerModel};
use super::style::{Line, SpanModel};
use super::transcript::{transcript_lines, TranscriptLineCache, TranscriptModel};
use super::viewport::{saturated_u16, Rect, TranscriptScrollbar, ViewportState};
use vstd::prelude::*;

verus! {

/// The part of the transcript that is drawn.
#[derive(Debug)]
pub struct TranscriptView {
    pub area: Rect,
    pub lines: Vec<Line>,
    pub scrollbar: Option<TranscriptScrollbar>,
}

/// The list of sessions as it is drawn.
#[derive(Debug)]
pub struct PickerView {
    pub area: Rect,
    pub title: String,
    pub inner: Rect,
    pub lines: Vec<Line>,
}

/// All that is drawn.
#[derive(Debug)]
pub struct FrameView {
    pub transcript: TranscriptView,
    pub footer: FooterView,
    pub picker: Option<PickerView>,
}

impl TranscriptView {
    /// Whether this is the transcript of a state in an area, which has `total` lines there, with
    /// its code in these colours.
    pub open spec fn shows(
        self,
        state: AppModel,
        area: Rect,
        now: u64,
        total: usize,
        colors: Highlighting,
    ) -> bool {
        let all = state.lines_in(area, now, colors);
        let visible = area.height as usize;
        let top = state.viewport.window_top(total, visible);
        let end = smaller(super::editor::saturated(top + visible), total);
        &&& self.area == narrowed(area)
        &&& if visible == 0 {
            self.lines.deep_view().len() == 0 && self.scrollbar is None
        } else {
            &&& total == all.len()
            &&& self.lines.deep_view() == Seq::new(
                (end - top) as nat,
                |k: int|
                    line_with_selection(
                        all[top + k],
                        top + k,
                        state.viewport.transcript_selection,
                    ),
            )
            &&& self.scrollbar == (if total > visible {
                Some(TranscriptScrollbar { top: top as usize, visible, total })
            } else {
                None
            })
        }
    }
}

impl PickerView {
    /// Whether this is a list of sessions over a screen.
    pub open spec fn shows(self, picker: PickerModel, outer: Rect) -> bool {
        let width = picker_width(outer);
        let height = picker_height(outer, picker.sessions.len());
        &&& self.area == (Rect {
            x: (outer.x + saturated_u16(outer.width - width) / 2) as u16,
            y: (outer.y + saturated_u16(outer.height - height) / 2) as u16,
            width: width as u16,
            height: height as u16,
        })
        &&& self.title@ == heading(picker.show_all)
        &&& self.inner == framed(self.area)
        &&& self.lines.deep_view() == picker_lines(picker, self.inner.width, self.inner.height)
    }
}

/// The part of the screen above the footer.
pub open spec fn above_footer(area: Rect) -> Rect {
    Rect {
        height: (area.height - if area.height < 2 {
            area.height as int
        } else {
            2
        }) as u16,
        ..area
    }
}

/// The part of the screen that the footer takes.
pub open spec fn at_the_bottom(area: Rect) -> Rect {
    Rect {
        y: (area.y + above_footer(area).height) as u16,
        height: (area.height - above_footer(area).height) as u16,
        ..area
    }
}

impl AppModel {
    /// What the transcript is drawn from.
    pub open spec fn transcript(self, now: u64) -> TranscriptModel {
        TranscriptModel {
            messages: self.messages,
            streaming: self.streaming_text,
            reasoning: self.reasoning_text,
            elapsed: match self.reasoning_started_at {
                Some(started) => Some(seconds_between(started, now) as u64),
                None => None,
            },
            expanded: self.reasoning_expanded,
        }
    }

    /// The lines of the transcript in an area.
    pub open spec fn lines_in(self, area: Rect, now: u64, colors: Highlighting) -> Seq<
        Seq<SpanModel>,
    > {
        let width = narrowed(area).width;
        transcript_lines(
            self.startup_header,
            self.transcript(now),
            if width == 0 {
                1
            } else {
                width
            },
            colors,
        )
    }

    /// The view of the transcript after it was drawn in an area.
    pub open spec fn drawn_viewport(self, area: Rect, total: usize) -> ViewportState {
        let placed = ViewportState {
            last_transcript_area: Some(narrowed(area)),
            last_transcript_padding_top: 0,
            ..self.viewport
        };
        if area.height == 0 {
            ViewportState {
                last_transcript_visible: 0,
                last_transcript_total: 0,
                last_transcript_top: 0,
                ..placed
            }
        } else {
            placed.drawn(total, area.height as usize)
        }
    }
}

impl AppState {
    /// Lays the transcript out in an area. The lines are kept in the cache.
    pub fn render_transcript(
        &mut self,
        cache: &mut TranscriptLineCache,
        area: Rect,
        now: u64,
        highlighter: &CodeHighlighter,
    ) -> (r: TranscriptView)
        requires
            old(cache).wf(highlighter@),
        ensures
            final(cache).wf(highlighter@),
            r.shows(old(self)@, area, now, final(cache).lines.len(), highlighter@),
            final(self)@ == (AppModel {
                viewport: old(self)@.drawn_viewport(area, final(cache).lines.len()),
                ..old(self)@
            }),
            final(self).editor == old(self).editor,
    {
        let content_area = without_wrap_column(area);
        self.viewport.place(content_area);
        if area.height == 0 {
            self.viewport.last_transcript_visible = 0;
            self.viewport.last_transcript_total = 0;
            self.viewport.last_transcript_top = 0;
            let lines: Vec<Line> = Vec::new();
            assert(lines.deep_view().len() == 0);
            return TranscriptView { area: content_area, lines, scrollbar: None };
        }
        let text_width: u16 = if content_area.width == 0 {
            1
        } else {
            content_area.width
        };
        let elapsed = self.reasoning_elapsed_secs(now);
        cache.ensure(
            &self.startup_header,
            &self.messages,
            self.streaming_text.as_str(),
            self.reasoning_text.as_str(),
            elapsed,
            self.reasoning_expanded,
            text_width,
            highlighter,
        );
        assert(cache.lines.deep_view().len() == cache.lines.len());
        let (top, end, scrollbar) = self.viewport.resolve_transcript_window(
            cache.lines.len(),
            area.height as usize,
        );
        let lines = apply_transcript_selection(
            &cache.lines,
            top,
            end,
            self.viewport.transcript_selection,
        );
        assert(lines.deep_view() =~= Seq::new(
            (end - top) as nat,
            |k: int|
                line_with_selection(
                    old(self)@.lines_in(area, now, highlighter@)[top + k],
                    top + k,
                    old(self).viewport.transcript_selection,
                ),
        ));
        TranscriptView { area: content_area, lines, scrollbar }
    }

    /// Lays the list of sessions out over a screen, if it is shown.
    pub fn render_picker(&self, outer: Rect) -> (r: Option<PickerView>)
        requires
            outer.x + outer.width <= u16::MAX,
            outer.y + outer.height <= u16::MAX,
            self@.pending_sessions matches Some(picker) ==> picker.sessions.len() % 0x1_0000 + 4
                <= u16::MAX,
        ensures
            match r {
                Some(view) => self@.pending_sessions matches Some(picker) && view.shows(
                    picker,
                    outer,
                ),
                None => self@.pending_sessions is None,
            },
    {
        match &self.pending_sessions {
            Some(picker) => {
                let area = picker_area(outer, picker);
                let inner = inside_frame(area);
                Some(
                    PickerView {
                        area,
                        title: picker_title(picker),
                        inner,
                        lines: render_session_picker(picker, inner.width, inner.height),
                    },
                )
            },
            None => None,
        }
    }

    /// Lays the whole screen out, unless it has no room at all.
    pub fn render_frame(
        &mut self,
        cache: &mut TranscriptLineCache,
        area: Rect,
        now: u64,
        highlighter: &CodeHighlighter,
    ) -> (r: Option<FrameView>)
        requires
            old(cache).wf(highlighter@),
            old(self)@.editor.wf(),
            area.x + area.width <= u16::MAX,
            area.y + area.height <= u16::MAX,
            old(self)@.pending_sessions matches Some(picker) ==> picker.sessions.len() % 0x1_0000
                + 4 <= u16::MAX,
        ensures
            final(cache).wf(highlighter@),
            final(self).editor == old(self).editor,
            match r {
                Some(view) => {
                    &&& area.width > 0
                    &&& area.height > 0
                    &&& view.transcript.shows(
                        old(self)@,
                        above_footer(area),
                        now,
                        final(cache).lines.len(),
                        highlighter@,
                    )
                    &&& view.footer.shows(old(self)@, at_the_bottom(area))
                    &&& match view.picker {
                        Some(shown) => old(self)@.pending_sessions matches Some(picker)
                            && shown.shows(picker, area),
                        None => old(self)@.pending_sessions is None,
                    }
                    &&& final(self)@ == (AppModel {
                        viewport: old(self)@.drawn_viewport(
                            above_footer(area),
                            final(cache).lines.len(),
                        ),
                        ..old(self)@
                    })
                },
                None => (area.width == 0 || area.height == 0) && final(self)@ == old(self)@,
            },
    {
        if area.width == 0 || area.height == 0 {
            return None;
        }
        let (above, below) = divide_screen(area);
        let transcript = self.render_transcript(cache, above, now, highlighter);
        let footer = self.render_footer(below);
        proof {
            lemma_footer_without_viewport(footer, old(self)@, self@.viewport, below);
        }
        let picker = self.render_picker(area);
        Some(FrameView { transcript, footer, picker })
    }
}

} // verus!
