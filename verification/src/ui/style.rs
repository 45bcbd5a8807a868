//! Styled text: what is handed to the terminal to draw.
use super::width::{text_columns, text_width};
use crate::text::owned;
use vstd::prelude::*;

verus! {

#[derive(Debug, Clone, Copy, PartialEq, Eq, Structural)]
pub enum Color {
    Cyan,
    Green,
    Red,
    Blue,
    Yellow,
    Gray,
    DarkGray,
    Rgb(u8, u8, u8),
}

/// How a piece of text is drawn. A colour that is not set is the terminal's own.
#[derive(Debug, Clone, Copy, PartialEq, Eq, Structural)]
pub struct Style {
    pub fg: Option<Color>,
    pub bg: Option<Color>,
    pub bold: bool,
    pub italic: bool,
    pub underlined: bool,
    pub crossed_out: bool,
}

impl Style {
    pub open spec fn normal() -> Style {
        Style {
            fg: None,
            bg: None,
            bold: false,
            italic: false,
            underlined: false,
            crossed_out: false,
        }
    }

    pub open spec fn colored(color: Color) -> Style {
        Style { fg: Some(color), ..Style::normal() }
    }

    /// The style with another laid over it: its colours win, its modifiers are added.
    pub open spec fn patched(self, over: Style) -> Style {
        Style {
            fg: if over.fg is Some {
                over.fg
            } else {
                self.fg
            },
            bg: if over.bg is Some {
                over.bg
            } else {
                self.bg
            },
            bold: self.bold || over.bold,
            italic: self.italic || over.italic,
            underlined: self.underlined || over.underlined,
            crossed_out: self.crossed_out || over.crossed_out,
        }
    }

    pub fn plain() -> (r: Self)
        ensures
            r == Style::normal(),
    {
        Style {
            fg: None,
            bg: None,
            bold: false,
            italic: false,
            underlined: false,
            crossed_out: false,
        }
    }

    pub fn of(color: Color) -> (r: Self)
        ensures
            r == Style::colored(color),
    {
        Style { fg: Some(color), ..Style::plain() }
    }

    pub fn patch(self, over: Style) -> (r: Self)
        ensures
            r == self.patched(over),
    {
        Style {
            fg: if over.fg.is_some() {
                over.fg
            } else {
                self.fg
            },
            bg: if over.bg.is_some() {
                over.bg
            } else {
                self.bg
            },
            bold: self.bold || over.bold,
            italic: self.italic || over.italic,
            underlined: self.underlined || over.underlined,
            crossed_out: self.crossed_out || over.crossed_out,
        }
    }
}

/// A piece of text in one style.
#[derive(Debug)]
pub struct Span {
    pub content: String,
    pub style: Style,
}

#[verifier::ext_equal]
pub struct SpanModel {
    pub content: Seq<char>,
    pub style: Style,
}

impl DeepView for Span {
    type V = SpanModel;

    open spec fn deep_view(&self) -> SpanModel {
        SpanModel { content: self.content@, style: self.style }
    }
}

pub open spec fn span(content: Seq<char>, style: Style) -> SpanModel {
    SpanModel { content, style }
}

impl Span {
    pub fn styled(content: &str, style: Style) -> (r: Self)
        ensures
            r.deep_view() == span(content@, style),
    {
        Span { content: owned(content), style }
    }

    pub fn raw(content: &str) -> (r: Self)
        ensures
            r.deep_view() == span(content@, Style::normal()),
    {
        Span { content: owned(content), style: Style::plain() }
    }

    pub fn copy(&self) -> (r: Self)
        ensures
            r.deep_view() == self.deep_view(),
    {
        Span { content: self.content.clone(), style: self.style }
    }
}

/// A line of pieces, from left to right.
#[derive(Debug)]
pub struct Line {
    pub spans: Vec<Span>,
}

impl DeepView for Line {
    type V = Seq<SpanModel>;

    open spec fn deep_view(&self) -> Seq<SpanModel> {
        self.spans.deep_view()
    }
}

/// The text of the pieces put together.
pub open spec fn text_of(spans: Seq<SpanModel>) -> Seq<char>
    decreases spans.len(),
{
    if spans.len() == 0 {
        Seq::empty()
    } else {
        text_of(spans.drop_last()) + spans.last().content
    }
}

/// The columns of the pieces one by one, added up as far as they can be counted.
pub open spec fn columns_of_pieces(spans: Seq<SpanModel>) -> nat
    decreases spans.len(),
{
    if spans.len() == 0 {
        0
    } else {
        let sum = columns_of_pieces(spans.drop_last()) + text_columns(spans.last().content);
        if sum > usize::MAX {
            usize::MAX as nat
        } else {
            sum as nat
        }
    }
}

pub fn spans_text(spans: &Vec<Span>) -> (r: String)
    ensures
        r@ == text_of(spans.deep_view()),
{
    let ghost all = spans.deep_view();
    let mut r = String::new();
    let mut i: usize = 0;
    assert(all.take(0) =~= Seq::empty());
    assert(r@ =~= Seq::empty());
    while i < spans.len()
        invariant
            all == spans.deep_view(),
            i <= spans.len(),
            r@ == text_of(all.take(i as int)),
        decreases spans.len() - i,
    {
        assert(all.take(i + 1).drop_last() =~= all.take(i as int));
        r.append(spans[i].content.as_str());
        i += 1;
    }
    assert(all.take(i as int) =~= all);
    r
}

/// The columns of the text of some pieces.
pub fn spans_width(spans: &Vec<Span>) -> (r: usize)
    ensures
        r == text_columns(text_of(spans.deep_view())),
{
    let text = spans_text(spans);
    text_width(text.as_str())
}

impl Line {
    /// An empty line.
    pub fn blank() -> (r: Self)
        ensures
            r.deep_view() == Seq::<SpanModel>::empty(),
    {
        let r = Line { spans: Vec::new() };
        assert(r.deep_view() =~= Seq::<SpanModel>::empty());
        r
    }

    pub fn of(first: Span) -> (r: Self)
        ensures
            r.deep_view() == seq![first.deep_view()],
    {
        let mut spans: Vec<Span> = Vec::new();
        spans.push(first);
        let r = Line { spans };
        assert(r.deep_view() =~= seq![first.deep_view()]);
        r
    }

    pub fn push(&mut self, next: Span)
        ensures
            final(self).deep_view() == old(self).deep_view().push(next.deep_view()),
    {
        let ghost before = self.deep_view();
        self.spans.push(next);
        assert(self.deep_view() =~= before.push(next.deep_view()));
    }

    /// The text of the line.
    pub fn text(&self) -> (r: String)
        ensures
            r@ == text_of(self.deep_view()),
    {
        spans_text(&self.spans)
    }

    /// The columns of the line.
    pub fn width(&self) -> (r: usize)
        ensures
            r == columns_of_pieces(self.deep_view()),
    {
        let ghost all = self.deep_view();
        let mut sum: usize = 0;
        let mut i: usize = 0;
        assert(all.take(0) =~= Seq::empty());
        while i < self.spans.len()
            invariant
                all == self.deep_view(),
                all.len() == self.spans.len(),
                i <= self.spans.len(),
                sum == columns_of_pieces(all.take(i as int)),
            decreases self.spans.len() - i,
        {
            assert(all.take(i + 1).drop_last() =~= all.take(i as int));
            assert(all[i as int] == self.spans@[i as int].deep_view());
            sum = sum.saturating_add(text_width(self.spans[i].content.as_str()));
            i += 1;
        }
        assert(all.take(i as int) =~= all);
        sum
    }

    pub fn copy(&self) -> (r: Self)
        ensures
            r.deep_view() == self.deep_view(),
    {
        Line { spans: copy_spans(&self.spans) }
    }
}

pub fn copy_spans(spans: &Vec<Span>) -> (r: Vec<Span>)
    ensures
        r.deep_view() == spans.deep_view(),
{
    let ghost all = spans.deep_view();
    let mut r: Vec<Span> = Vec::new();
    let mut i: usize = 0;
    assert(r.deep_view() =~= all.take(0));
    while i < spans.len()
        invariant
            all == spans.deep_view(),
            i <= spans.len(),
            r.deep_view() == all.take(i as int),
        decreases spans.len() - i,
    {
        let ghost before = r.deep_view();
        r.push(spans[i].copy());
        assert(r.deep_view() =~= before.push(all[i as int]));
        i += 1;
        assert(r.deep_view() =~= all.take(i as int));
    }
    assert(all.take(i as int) =~= all);
    r
}

/// The same lines with others behind them.
pub fn append_lines(lines: &mut Vec<Line>, more: Vec<Line>)
    ensures
        final(lines).deep_view() == old(lines).deep_view() + more.deep_view(),
{
    let ghost before = lines.deep_view();
    let ghost added = more.deep_view();
    let mut more = more;
    lines.append(&mut more);
    assert(lines.deep_view() =~= before + added);
}

pub fn push_line(lines: &mut Vec<Line>, next: Line)
    ensures
        final(lines).deep_view() == old(lines).deep_view().push(next.deep_view()),
{
    let ghost before = lines.deep_view();
    lines.push(next);
    assert(lines.deep_view() =~= before.push(next.deep_view()));
}

/// A line of one unstyled text; an empty text gives an empty line.
pub open spec fn text_line(text: Seq<char>) -> Seq<SpanModel> {
    if text.len() == 0 {
        Seq::empty()
    } else {
        seq![span(text, Style::normal())]
    }
}

pub fn plain_line(text: &str) -> (r: Line)
    ensures
        r.deep_view() == text_line(text@),
{
    if text.is_empty() {
        Line::blank()
    } else {
        Line::of(Span::raw(text))
    }
}

} // verus!
