//! Breaking text into lines that fit.
use super::style::{push_line, span, text_of, Line, Span, SpanModel, Style};
use super::width::{char_columns, char_width, columns, columns_of};
use crate::text::to_chars;
use vstd::prelude::*;

verus! {

pub const TAB_COLUMNS: usize = 4;

/// The columns that a character of rendered text counts for.
pub open spec fn text_step(c: char) -> nat {
    if c == '\t' {
        TAB_COLUMNS as nat
    } else {
        columns(c)
    }
}

/// The columns that a character of code counts for: a control character takes one.
pub open spec fn code_step(c: char) -> nat {
    if c == '\t' {
        TAB_COLUMNS as nat
    } else {
        match char_columns(c) {
            Some(n) => n as nat,
            None => 1,
        }
    }
}

pub fn text_step_of(c: char) -> (r: usize)
    ensures
        r == text_step(c),
{
    if c == '\t' {
        TAB_COLUMNS
    } else {
        columns_of(c)
    }
}

pub fn code_step_of(c: char) -> (r: usize)
    ensures
        r == code_step(c),
{
    if c == '\t' {
        TAB_COLUMNS
    } else {
        match char_width(c) {
            Some(n) => n,
            None => 1,
        }
    }
}

/// Pieces with one more behind them, if it is not empty.
pub open spec fn with_piece(spans: Seq<SpanModel>, content: Seq<char>, style: Style) -> Seq<
    SpanModel,
> {
    if content.len() == 0 {
        spans
    } else {
        spans.push(span(content, style))
    }
}

/// Lines while they are being broken.
#[verifier::ext_equal]
pub struct Wrapping {
    /// The lines that are complete.
    pub lines: Seq<Seq<SpanModel>>,
    /// The complete pieces of the line that is open.
    pub current: Seq<SpanModel>,
    /// The columns that the open line takes.
    pub used: nat,
    /// The piece that is open.
    pub buffer: Seq<char>,
}

impl Wrapping {
    pub open spec fn start() -> Wrapping {
        Wrapping { lines: Seq::empty(), current: Seq::empty(), used: 0, buffer: Seq::empty() }
    }

    /// One more character: it starts a new line where it no longer fits.
    pub open spec fn add_char(self, c: char, style: Style, width: nat) -> Wrapping {
        if self.used > 0 && self.used + text_step(c) > width {
            Wrapping {
                lines: self.lines.push(with_piece(self.current, self.buffer, style)),
                current: Seq::empty(),
                used: text_step(c),
                buffer: seq![c],
            }
        } else {
            Wrapping { used: self.used + text_step(c), buffer: self.buffer.push(c), ..self }
        }
    }

    pub open spec fn add_chars(self, chars: Seq<char>, style: Style, width: nat) -> Wrapping
        decreases chars.len(),
    {
        if chars.len() == 0 {
            self
        } else {
            self.add_chars(chars.drop_last(), style, width).add_char(chars.last(), style, width)
        }
    }

    /// One more piece.
    pub open spec fn add_span(self, next: SpanModel, width: nat) -> Wrapping {
        let after = self.add_chars(next.content, next.style, width);
        Wrapping {
            current: with_piece(after.current, after.buffer, next.style),
            buffer: Seq::empty(),
            ..after
        }
    }

    pub open spec fn add_spans(self, spans: Seq<SpanModel>, width: nat) -> Wrapping
        decreases spans.len(),
    {
        if spans.len() == 0 {
            self
        } else {
            self.add_spans(spans.drop_last(), width).add_span(spans.last(), width)
        }
    }
}

pub open spec fn at_least_one(width: usize) -> nat {
    if width == 0 {
        1
    } else {
        width as nat
    }
}

/// The lines that some pieces are broken into.
pub open spec fn wrapped(spans: Seq<SpanModel>, width: usize) -> Seq<Seq<SpanModel>> {
    let end = Wrapping::start().add_spans(spans, at_least_one(width));
    end.lines.push(end.current)
}

fn flush_piece(spans: &mut Line, style: Style, buffer: &mut String)
    ensures
        final(spans).deep_view() == with_piece(old(spans).deep_view(), old(buffer)@, style),
        final(buffer)@ == Seq::<char>::empty(),
{
    let mut taken = String::new();
    core::mem::swap(&mut taken, buffer);
    assert(buffer@ =~= Seq::<char>::empty());
    if !taken.as_str().is_empty() {
        spans.push(Span { content: taken, style });
    }
}

/// Breaks some pieces into lines that take at most `width` columns.
pub fn wrap_spans_to_width(spans: &Vec<Span>, width: usize) -> (r: Vec<Line>)
    ensures
        r.deep_view() == wrapped(spans.deep_view(), width),
{
    let width: usize = if width == 0 {
        1
    } else {
        width
    };
    let ghost all = spans.deep_view();
    let mut lines: Vec<Line> = Vec::new();
    let mut current = Line::blank();
    let mut used: usize = 0;
    let mut i: usize = 0;
    proof {
        assert(lines.deep_view() =~= Seq::empty());
        assert(all.take(0) =~= Seq::empty());
        assert(Seq::<char>::empty() =~= Wrapping::start().buffer);
    }
    while i < spans.len()
        invariant
            all == spans.deep_view(),
            i <= spans.len(),
            width >= 1,
            (Wrapping {
                lines: lines.deep_view(),
                current: current.deep_view(),
                used: used as nat,
                buffer: Seq::empty(),
            }) == Wrapping::start().add_spans(all.take(i as int), width as nat),
        decreases spans.len() - i,
    {
        let ghost before = Wrapping::start().add_spans(all.take(i as int), width as nat);
        assert(all.take(i + 1).drop_last() =~= all.take(i as int));
        assert(all[i as int] == spans@[i as int].deep_view());
        let style = spans[i].style;
        let chars = to_chars(spans[i].content.as_str());
        let mut buffer = String::new();
        let mut k: usize = 0;
        assert(chars@.take(0) =~= Seq::empty());
        assert(buffer@ =~= Seq::empty());
        while k < chars.len()
            invariant
                k <= chars.len(),
                width >= 1,
                (Wrapping {
                    lines: lines.deep_view(),
                    current: current.deep_view(),
                    used: used as nat,
                    buffer: buffer@,
                }) == before.add_chars(chars@.take(k as int), style, width as nat),
            decreases chars.len() - k,
        {
            assert(chars@.take(k + 1).drop_last() =~= chars@.take(k as int));
            let c = chars[k];
            let step = text_step_of(c);
            let ghost was = buffer@;
            if used > 0 && (used > width || step > width - used) {
                flush_piece(&mut current, style, &mut buffer);
                let mut done = Line::blank();
                core::mem::swap(&mut done, &mut current);
                push_line(&mut lines, done);
                used = 0;
                buffer.push(c);
                assert(buffer@ =~= seq![c]);
            } else {
                buffer.push(c);
            }
            used += step;
            k += 1;
        }
        assert(chars@.take(k as int) =~= chars@);
        flush_piece(&mut current, style, &mut buffer);
        i += 1;
    }
    assert(all.take(i as int) =~= all);
    push_line(&mut lines, current);
    lines
}

/// The text of some lines put together.
pub open spec fn text_of_lines(lines: Seq<Seq<SpanModel>>) -> Seq<char>
    decreases lines.len(),
{
    if lines.len() == 0 {
        Seq::empty()
    } else {
        text_of_lines(lines.drop_last()) + text_of(lines.last())
    }
}

pub proof fn lemma_piece_text(spans: Seq<SpanModel>, content: Seq<char>, style: Style)
    ensures
        text_of(with_piece(spans, content, style)) == text_of(spans) + content,
{
    if content.len() == 0 {
        assert(text_of(spans) + content =~= text_of(spans));
    } else {
        let more = spans.push(span(content, style));
        assert(more.drop_last() =~= spans);
    }
}

impl Wrapping {
    /// Everything that was put in so far.
    pub open spec fn text(self) -> Seq<char> {
        text_of_lines(self.lines) + text_of(self.current) + self.buffer
    }
}

proof fn lemma_chars_are_kept(w: Wrapping, chars: Seq<char>, style: Style, width: nat)
    ensures
        w.add_chars(chars, style, width).text() == w.text() + chars,
    decreases chars.len(),
{
    if chars.len() == 0 {
        assert(w.text() + chars =~= w.text());
    } else {
        let before = w.add_chars(chars.drop_last(), style, width);
        lemma_chars_are_kept(w, chars.drop_last(), style, width);
        let c = chars.last();
        let after = before.add_char(c, style, width);
        assert(w.text() + chars =~= (w.text() + chars.drop_last()).push(c));
        if before.used > 0 && before.used + text_step(c) > width {
            let line = with_piece(before.current, before.buffer, style);
            lemma_piece_text(before.current, before.buffer, style);
            assert(before.lines.push(line).drop_last() =~= before.lines);
            assert(text_of(Seq::<SpanModel>::empty()) =~= Seq::empty());
            assert(after.text() =~= before.text().push(c));
        } else {
            assert(after.text() =~= before.text().push(c));
        }
    }
}

pub proof fn lemma_spans_are_kept(w: Wrapping, spans: Seq<SpanModel>, width: nat)
    requires
        w.buffer.len() == 0,
    ensures
        w.add_spans(spans, width).text() == w.text() + text_of(spans),
        w.add_spans(spans, width).buffer.len() == 0,
    decreases spans.len(),
{
    if spans.len() == 0 {
        assert(w.text() + text_of(spans) =~= w.text());
    } else {
        let before = w.add_spans(spans.drop_last(), width);
        lemma_spans_are_kept(w, spans.drop_last(), width);
        let next = spans.last();
        let inner = before.add_chars(next.content, next.style, width);
        lemma_chars_are_kept(before, next.content, next.style, width);
        lemma_piece_text(inner.current, inner.buffer, next.style);
        assert(before.add_span(next, width).text() =~= inner.text());
        assert(w.text() + text_of(spans) =~= (w.text() + text_of(spans.drop_last()))
            + next.content);
    }
}

/// Breaking text into lines neither drops nor adds a character.
pub proof fn law_wrapping_keeps_the_text(spans: Seq<SpanModel>, width: usize)
    ensures
        text_of_lines(wrapped(spans, width)) == text_of(spans),
{
    let end = Wrapping::start().add_spans(spans, at_least_one(width));
    lemma_spans_are_kept(Wrapping::start(), spans, at_least_one(width));
    assert(end.lines.push(end.current).drop_last() =~= end.lines);
    assert(text_of_lines(Seq::<Seq<SpanModel>>::empty()) =~= Seq::empty());
    assert(text_of(Seq::<SpanModel>::empty()) =~= Seq::empty());
    assert(Wrapping::start().text() =~= Seq::empty());
    assert(Wrapping::start().text() + text_of(spans) =~= text_of(spans));
    assert(end.text() =~= text_of_lines(end.lines) + text_of(end.current));
}

/// The columns of a text, character by character.
pub open spec fn steps(s: Seq<char>) -> nat
    decreases s.len(),
{
    if s.len() == 0 {
        0
    } else {
        steps(s.drop_last()) + text_step(s.last())
    }
}

/// Whether a line fits, or is too wide on account of a single character.
pub open spec fn fits(text: Seq<char>, width: nat) -> bool {
    steps(text) <= width || exists|i: int|
        0 <= i < text.len() && steps(text) == text_step(#[trigger] text[i])
}

impl Wrapping {
    pub open spec fn fits(self, width: nat) -> bool {
        let open = text_of(self.current) + self.buffer;
        &&& self.used == steps(open)
        &&& fits(open, width)
        &&& forall|i: int| 0 <= i < self.lines.len() ==> fits(text_of(#[trigger] self.lines[i]), width)
    }
}

pub proof fn lemma_char_fits(w: Wrapping, c: char, style: Style, width: nat)
    requires
        w.fits(width),
    ensures
        w.add_char(c, style, width).fits(width),
{
    let open = text_of(w.current) + w.buffer;
    let after = w.add_char(c, style, width);
    if w.used > 0 && w.used + text_step(c) > width {
        let line = with_piece(w.current, w.buffer, style);
        lemma_piece_text(w.current, w.buffer, style);
        assert(text_of(line) == open);
        let next = text_of(after.current) + after.buffer;
        assert(text_of(Seq::<SpanModel>::empty()) =~= Seq::empty());
        assert(next =~= seq![c]);
        assert(seq![c].drop_last() =~= Seq::<char>::empty());
        assert(steps(Seq::<char>::empty()) == 0);
        assert(steps(next) == text_step(c));
        assert(next[0] == c);
        assert forall|i: int| 0 <= i < after.lines.len() implies fits(
            text_of(#[trigger] after.lines[i]),
            width,
        ) by {
            if i < w.lines.len() {
                assert(after.lines[i] == w.lines[i]);
            } else {
                assert(after.lines[i] == line);
            }
        }
    } else {
        let next = text_of(after.current) + after.buffer;
        assert(next =~= open.push(c));
        assert(next.drop_last() =~= open);
        assert(steps(next) == steps(open) + text_step(c));
        if w.used == 0 {
            assert(next[next.len() - 1] == c);
        }
    }
}

pub proof fn lemma_chars_fit(w: Wrapping, chars: Seq<char>, style: Style, width: nat)
    requires
        w.fits(width),
    ensures
        w.add_chars(chars, style, width).fits(width),
    decreases chars.len(),
{
    if chars.len() > 0 {
        lemma_chars_fit(w, chars.drop_last(), style, width);
        lemma_char_fits(
            w.add_chars(chars.drop_last(), style, width),
            chars.last(),
            style,
            width,
        );
    }
}

pub proof fn lemma_spans_fit(w: Wrapping, spans: Seq<SpanModel>, width: nat)
    requires
        w.fits(width),
    ensures
        w.add_spans(spans, width).fits(width),
    decreases spans.len(),
{
    if spans.len() > 0 {
        lemma_spans_fit(w, spans.drop_last(), width);
        let before = w.add_spans(spans.drop_last(), width);
        let next = spans.last();
        lemma_chars_fit(before, next.content, next.style, width);
        let inner = before.add_chars(next.content, next.style, width);
        lemma_piece_text(inner.current, inner.buffer, next.style);
        let after = before.add_span(next, width);
        assert(text_of(after.current) + after.buffer =~= text_of(inner.current) + inner.buffer);
    }
}

/// No line takes more columns than it may, unless a single character does.
pub proof fn law_wrapped_lines_fit(spans: Seq<SpanModel>, width: usize, i: int)
    requires
        0 <= i < wrapped(spans, width).len(),
    ensures
        fits(text_of(wrapped(spans, width)[i]), at_least_one(width)),
{
    let start = Wrapping::start();
    let n = at_least_one(width);
    assert(text_of(Seq::<SpanModel>::empty()) =~= Seq::empty());
    assert(text_of(start.current) + start.buffer =~= Seq::empty());
    assert(steps(Seq::<char>::empty()) == 0);
    assert(start.fits(n));
    lemma_spans_fit(start, spans, n);
    lemma_spans_are_kept(start, spans, n);
    let end = start.add_spans(spans, n);
    assert(text_of(end.current) + end.buffer =~= text_of(end.current));
}

/// A text while it is broken into lines of characters.
pub open spec fn chunks_so_far(s: Seq<char>, width: nat) -> (Seq<Seq<char>>, Seq<char>, nat)
    decreases s.len(),
{
    if s.len() == 0 {
        (Seq::empty(), Seq::empty(), 0)
    } else {
        let (lines, open, used) = chunks_so_far(s.drop_last(), width);
        let c = s.last();
        if used > 0 && used + code_step(c) > width {
            (lines.push(open), seq![c], code_step(c))
        } else {
            (lines, open.push(c), used + code_step(c))
        }
    }
}

/// The lines that a text of code is broken into. An empty text is one empty line.
pub open spec fn chunks(s: Seq<char>, width: usize) -> Seq<Seq<char>> {
    let (lines, open, used) = chunks_so_far(s, at_least_one(width));
    if s.len() == 0 || open.len() > 0 {
        lines.push(open)
    } else {
        lines
    }
}

pub fn wrap_preserving_chars(text: &str, width: usize) -> (r: Vec<String>)
    ensures
        r.deep_view() == chunks(text@, width),
{
    let width: usize = if width == 0 {
        1
    } else {
        width
    };
    let chars = to_chars(text);
    let mut lines: Vec<String> = Vec::new();
    let mut open = String::new();
    let mut used: usize = 0;
    let mut i: usize = 0;
    assert(lines.deep_view() =~= Seq::empty());
    assert(open@ =~= Seq::empty());
    assert(chars@.take(0) =~= Seq::empty());
    while i < chars.len()
        invariant
            chars@ == text@,
            i <= chars.len(),
            width >= 1,
            (lines.deep_view(), open@, used as nat) == chunks_so_far(
                chars@.take(i as int),
                width as nat,
            ),
        decreases chars.len() - i,
    {
        assert(chars@.take(i + 1).drop_last() =~= chars@.take(i as int));
        let c = chars[i];
        let step = code_step_of(c);
        if used > 0 && (used > width || step > width - used) {
            let ghost before = lines.deep_view();
            let ghost done = open@;
            lines.push(open);
            assert(lines.deep_view() =~= before.push(done));
            open = String::new();
            used = 0;
            open.push(c);
            assert(open@ =~= seq![c]);
        } else {
            open.push(c);
        }
        used += step;
        i += 1;
    }
    assert(chars@.take(i as int) =~= text@);
    if text.is_empty() || !open.as_str().is_empty() {
        let ghost before = lines.deep_view();
        let ghost done = open@;
        lines.push(open);
        assert(lines.deep_view() =~= before.push(done));
    }
    lines
}

/// A text of code broken into lines, each in one style.
pub open spec fn styled_chunks(s: Seq<char>, style: Style, width: u16) -> Seq<Seq<SpanModel>> {
    chunks(s, width as usize).map_values(|part: Seq<char>| seq![span(part, style)])
}

pub fn wrap_with_style(text: &str, style: Style, width: u16) -> (r: Vec<Line>)
    ensures
        r.deep_view() == styled_chunks(text@, style, width),
{
    let parts = wrap_preserving_chars(text, width as usize);
    let ghost all = styled_chunks(text@, style, width);
    let mut lines: Vec<Line> = Vec::new();
    let mut i: usize = 0;
    assert(lines.deep_view() =~= all.take(0));
    while i < parts.len()
        invariant
            parts.deep_view() == chunks(text@, width as usize),
            all == styled_chunks(text@, style, width),
            i <= parts.len(),
            lines.deep_view() == all.take(i as int),
        decreases parts.len() - i,
    {
        assert(parts.deep_view()[i as int] == parts@[i as int]@);
        push_line(&mut lines, Line::of(Span::styled(parts[i].as_str(), style)));
        i += 1;
        assert(lines.deep_view() =~= all.take(i as int));
    }
    assert(all.take(i as int) =~= all);
    lines
}

} // verus!
