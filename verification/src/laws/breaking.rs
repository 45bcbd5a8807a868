//! How text is broken into lines and cut to a width: every character keeps its style, and a line
//! ends only where the next character would not fit.
use crate::ui::style::{span, text_of, SpanModel, Style};
use crate::ui::width::{
    columns, cut_end, cut_start, fitting_end, fitting_prefix, fitting_tail, law_taken_text_fits,
    law_taken_text_is_the_longest, tail_start, text_columns, total_columns,
};
use crate::ui::wrap::{
    at_least_one, chunks, chunks_so_far, code_step, fits, lemma_char_fits, lemma_chars_fit,
    lemma_piece_text, lemma_spans_are_kept, lemma_spans_fit, steps, styled_chunks, text_step,
    with_piece, wrapped, Wrapping,
};
use vstd::prelude::*;

verus! {

/// The characters of a text, each with the style it is drawn in.
pub open spec fn in_style(s: Seq<char>, style: Style) -> Seq<(char, Style)> {
    Seq::new(s.len(), |i: int| (s[i], style))
}

/// The characters of some pieces, each with the style it is drawn in.
pub open spec fn painted(spans: Seq<SpanModel>) -> Seq<(char, Style)>
    decreases spans.len(),
{
    if spans.len() == 0 {
        Seq::empty()
    } else {
        painted(spans.drop_last()) + in_style(spans.last().content, spans.last().style)
    }
}

/// The characters of some lines, each with the style it is drawn in.
pub open spec fn painted_lines(lines: Seq<Seq<SpanModel>>) -> Seq<(char, Style)>
    decreases lines.len(),
{
    if lines.len() == 0 {
        Seq::empty()
    } else {
        painted_lines(lines.drop_last()) + painted(lines.last())
    }
}

proof fn lemma_piece_painted(spans: Seq<SpanModel>, content: Seq<char>, style: Style)
    ensures
        painted(with_piece(spans, content, style)) == painted(spans) + in_style(content, style),
{
    if content.len() == 0 {
        assert(painted(spans) + in_style(content, style) =~= painted(spans));
    } else {
        assert(spans.push(span(content, style)).drop_last() =~= spans);
    }
}

spec fn painted_so_far(w: Wrapping, style: Style) -> Seq<(char, Style)> {
    painted_lines(w.lines) + painted(w.current) + in_style(w.buffer, style)
}

proof fn lemma_chars_painted(w: Wrapping, chars: Seq<char>, style: Style, width: nat)
    ensures
        painted_so_far(w.add_chars(chars, style, width), style) == painted_so_far(w, style)
            + in_style(chars, style),
    decreases chars.len(),
{
    if chars.len() == 0 {
        assert(painted_so_far(w, style) + in_style(chars, style) =~= painted_so_far(w, style));
    } else {
        let before = w.add_chars(chars.drop_last(), style, width);
        lemma_chars_painted(w, chars.drop_last(), style, width);
        let c = chars.last();
        let after = before.add_char(c, style, width);
        assert(in_style(chars, style) =~= in_style(chars.drop_last(), style).push((c, style)));
        if before.used > 0 && before.used + text_step(c) > width {
            let line = with_piece(before.current, before.buffer, style);
            lemma_piece_painted(before.current, before.buffer, style);
            assert(before.lines.push(line).drop_last() =~= before.lines);
            assert(painted(Seq::<SpanModel>::empty()) =~= Seq::empty());
            assert(in_style(seq![c], style) =~= seq![(c, style)]);
            assert(painted_so_far(after, style) =~= painted_so_far(before, style).push((c, style)));
        } else {
            assert(in_style(before.buffer.push(c), style) =~= in_style(before.buffer, style).push(
                (c, style),
            ));
            assert(painted_so_far(after, style) =~= painted_so_far(before, style).push((c, style)));
        }
        assert(painted_so_far(w, style) + in_style(chars, style) =~= (painted_so_far(w, style)
            + in_style(chars.drop_last(), style)).push((c, style)));
    }
}

proof fn lemma_spans_painted(spans: Seq<SpanModel>, width: nat)
    ensures
        ({
            let w = Wrapping::start().add_spans(spans, width);
            &&& painted_lines(w.lines) + painted(w.current) == painted(spans)
            &&& w.buffer.len() == 0
        }),
    decreases spans.len(),
{
    if spans.len() > 0 {
        let before = Wrapping::start().add_spans(spans.drop_last(), width);
        lemma_spans_painted(spans.drop_last(), width);
        let next = spans.last();
        let inner = before.add_chars(next.content, next.style, width);
        lemma_chars_painted(before, next.content, next.style, width);
        lemma_piece_painted(inner.current, inner.buffer, next.style);
        let after = before.add_span(next, width);
        assert(in_style(before.buffer, next.style) =~= Seq::empty());
        assert(painted_lines(after.lines) + painted(after.current) =~= painted_so_far(
            inner,
            next.style,
        ));
        assert(painted_so_far(before, next.style) =~= painted(spans.drop_last()));
    } else {
        assert(painted_lines(Seq::<Seq<SpanModel>>::empty()) + painted(Seq::<SpanModel>::empty())
            =~= Seq::empty());
    }
}

/// Broken into lines, every character is still drawn in the style that it was given, in the order
/// in which the characters came.
pub proof fn law_wrapping_keeps_the_styles(spans: Seq<SpanModel>, width: usize)
    ensures
        painted_lines(wrapped(spans, width)) == painted(spans),
{
    let end = Wrapping::start().add_spans(spans, at_least_one(width));
    lemma_spans_painted(spans, at_least_one(width));
    assert(end.lines.push(end.current).drop_last() =~= end.lines);
}

/// What stands behind a line: the text of the next one, or what is still open.
pub open spec fn behind_line(lines: Seq<Seq<SpanModel>>, open: Seq<char>, i: int) -> Seq<char> {
    if i + 1 < lines.len() {
        text_of(lines[i + 1])
    } else {
        open
    }
}

/// Whether a line ends where the character behind it would have been too much.
pub open spec fn full_line(
    lines: Seq<Seq<SpanModel>>,
    open: Seq<char>,
    width: nat,
    i: int,
) -> bool {
    let next = behind_line(lines, open, i);
    next.len() > 0 && steps(text_of(lines[i])) + text_step(next[0]) > width
}

pub open spec fn full_lines(lines: Seq<Seq<SpanModel>>, open: Seq<char>, width: nat) -> bool {
    forall|i: int| 0 <= i < lines.len() ==> #[trigger] full_line(lines, open, width, i)
}

proof fn lemma_char_fills(w: Wrapping, c: char, style: Style, width: nat)
    requires
        w.fits(width),
        full_lines(w.lines, text_of(w.current) + w.buffer, width),
    ensures
        ({
            let after = w.add_char(c, style, width);
            full_lines(after.lines, text_of(after.current) + after.buffer, width)
        }),
{
    let open = text_of(w.current) + w.buffer;
    let after = w.add_char(c, style, width);
    let next = text_of(after.current) + after.buffer;
    assert(text_of(Seq::<SpanModel>::empty()) =~= Seq::empty());
    if w.used > 0 && w.used + text_step(c) > width {
        let line = with_piece(w.current, w.buffer, style);
        lemma_piece_text(w.current, w.buffer, style);
        assert(next =~= seq![c]);
        assert forall|i: int| 0 <= i < after.lines.len() implies #[trigger] full_line(
            after.lines,
            next,
            width,
            i,
        ) by {
            if i < w.lines.len() {
                assert(after.lines[i] == w.lines[i]);
                assert(full_line(w.lines, open, width, i));
                assert(behind_line(after.lines, next, i) == behind_line(w.lines, open, i));
            } else {
                assert(after.lines[i] == line);
            }
        }
    } else {
        assert(next =~= open.push(c));
        assert forall|i: int| 0 <= i < after.lines.len() implies #[trigger] full_line(
            after.lines,
            next,
            width,
            i,
        ) by {
            assert(after.lines[i] == w.lines[i]);
            assert(full_line(w.lines, open, width, i));
        }
    }
}

proof fn lemma_chars_fill(w: Wrapping, chars: Seq<char>, style: Style, width: nat)
    requires
        w.fits(width),
        full_lines(w.lines, text_of(w.current) + w.buffer, width),
    ensures
        ({
            let after = w.add_chars(chars, style, width);
            full_lines(after.lines, text_of(after.current) + after.buffer, width)
        }),
    decreases chars.len(),
{
    if chars.len() > 0 {
        lemma_chars_fill(w, chars.drop_last(), style, width);
        lemma_chars_fit(w, chars.drop_last(), style, width);
        lemma_char_fills(w.add_chars(chars.drop_last(), style, width), chars.last(), style, width);
    }
}

proof fn lemma_spans_fill(w: Wrapping, spans: Seq<SpanModel>, width: nat)
    requires
        w.fits(width),
        full_lines(w.lines, text_of(w.current) + w.buffer, width),
    ensures
        ({
            let after = w.add_spans(spans, width);
            full_lines(after.lines, text_of(after.current) + after.buffer, width)
        }),
    decreases spans.len(),
{
    if spans.len() > 0 {
        let before = w.add_spans(spans.drop_last(), width);
        lemma_spans_fill(w, spans.drop_last(), width);
        lemma_spans_fit(w, spans.drop_last(), width);
        let next = spans.last();
        lemma_chars_fill(before, next.content, next.style, width);
        let inner = before.add_chars(next.content, next.style, width);
        lemma_piece_text(inner.current, inner.buffer, next.style);
        let after = before.add_span(next, width);
        assert(text_of(after.current) + after.buffer =~= text_of(inner.current) + inner.buffer);
    }
}

/// A line is broken only where it has to be: the first character of the next line would not have
/// fitted on it.
pub proof fn law_lines_are_filled(spans: Seq<SpanModel>, width: usize, i: int)
    requires
        0 <= i,
        i + 1 < wrapped(spans, width).len(),
    ensures
        text_of(wrapped(spans, width)[i + 1]).len() > 0,
        steps(text_of(wrapped(spans, width)[i])) + text_step(
            text_of(wrapped(spans, width)[i + 1])[0],
        ) > at_least_one(width),
{
    let start = Wrapping::start();
    let n = at_least_one(width);
    assert(text_of(Seq::<SpanModel>::empty()) =~= Seq::empty());
    assert(text_of(start.current) + start.buffer =~= Seq::empty());
    assert(steps(Seq::<char>::empty()) == 0);
    assert(start.fits(n));
    lemma_spans_fill(start, spans, n);
    lemma_spans_are_kept(start, spans, n);
    let end = start.add_spans(spans, n);
    assert(text_of(end.current) + end.buffer =~= text_of(end.current));
    let open = text_of(end.current);
    assert(end.lines[i] == wrapped(spans, width)[i]);
    assert(full_line(end.lines, open, n, i));
    assert(behind_line(end.lines, open, i) == text_of(wrapped(spans, width)[i + 1]));
}

/// A tab takes four columns wherever text is broken. A character without a width of its own takes
/// none in text and one in code.
pub proof fn law_steps_of_characters(c: char)
    ensures
        text_step('\t') == 4,
        code_step('\t') == 4,
        c != '\t' ==> text_step(c) == columns(c),
        c != '\t' && columns(c) > 0 ==> code_step(c) == columns(c),
{
}

/// The parts of a text, one behind the other.
pub open spec fn put_together(parts: Seq<Seq<char>>) -> Seq<char>
    decreases parts.len(),
{
    if parts.len() == 0 {
        Seq::empty()
    } else {
        put_together(parts.drop_last()) + parts.last()
    }
}

/// The columns that some code takes.
pub open spec fn code_steps(s: Seq<char>) -> nat
    decreases s.len(),
{
    if s.len() == 0 {
        0
    } else {
        code_steps(s.drop_last()) + code_step(s.last())
    }
}

/// Whether some code fits, or is too wide on account of a single character.
pub open spec fn code_fits(s: Seq<char>, width: nat) -> bool {
    code_steps(s) <= width || exists|i: int|
        0 <= i < s.len() && code_steps(s) == code_step(#[trigger] s[i])
}

/// What stands behind a part.
pub open spec fn behind_part(parts: Seq<Seq<char>>, open: Seq<char>, i: int) -> Seq<char> {
    if i + 1 < parts.len() {
        parts[i + 1]
    } else {
        open
    }
}

proof fn lemma_chunks(s: Seq<char>, width: nat)
    ensures
        ({
            let (lines, open, used) = chunks_so_far(s, width);
            &&& put_together(lines) + open == s
            &&& used == code_steps(open)
            &&& code_fits(open, width)
            &&& (s.len() > 0 ==> open.len() > 0)
            &&& forall|i: int|
                0 <= i < lines.len() ==> code_fits(#[trigger] lines[i], width) && behind_part(
                    lines,
                    open,
                    i,
                ).len() > 0 && code_steps(lines[i]) + code_step(behind_part(lines, open, i)[0])
                    > width
        }),
    decreases s.len(),
{
    if s.len() == 0 {
        assert(put_together(Seq::<Seq<char>>::empty()) + Seq::<char>::empty() =~= s);
    } else {
        lemma_chunks(s.drop_last(), width);
        let (lines, open, used) = chunks_so_far(s.drop_last(), width);
        let (more, next, _) = chunks_so_far(s, width);
        let c = s.last();
        assert(s =~= s.drop_last().push(c));
        if used > 0 && used + code_step(c) > width {
            assert(lines.push(open).drop_last() =~= lines);
            assert(put_together(more) + next =~= (put_together(lines) + open).push(c));
            assert(next.drop_last() =~= Seq::<char>::empty());
            assert(code_steps(Seq::<char>::empty()) == 0);
            assert(next.last() == c);
            assert(code_steps(next) == code_step(next[0]));
            assert forall|i: int| 0 <= i < more.len() implies code_fits(#[trigger] more[i], width)
                && behind_part(more, next, i).len() > 0 && code_steps(more[i]) + code_step(
                behind_part(more, next, i)[0],
            ) > width by {
                if i < lines.len() {
                    assert(more[i] == lines[i]);
                    assert(behind_part(more, next, i) == behind_part(lines, open, i));
                } else {
                    assert(more[i] == open);
                }
            }
        } else {
            assert(next.drop_last() =~= open);
            assert(put_together(more) + next =~= (put_together(lines) + open).push(c));
            assert(next[next.len() - 1] == c);
            assert forall|i: int| 0 <= i < more.len() implies code_fits(#[trigger] more[i], width)
                && behind_part(more, next, i).len() > 0 && code_steps(more[i]) + code_step(
                behind_part(more, next, i)[0],
            ) > width by {
                assert(more[i] == lines[i]);
                assert(behind_part(lines, open, i).len() > 0);
            }
        }
    }
}

/// Code that is broken into parts is complete and in order, and there is always a part. No part is
/// too wide, unless a single character is, and none ends before it has to.
pub proof fn law_code_is_broken_where_it_has_to_be(s: Seq<char>, width: usize, i: int)
    ensures
        put_together(chunks(s, width)) == s,
        chunks(s, width).len() > 0,
        0 <= i < chunks(s, width).len() ==> code_fits(chunks(s, width)[i], at_least_one(width)),
        0 <= i && i + 1 < chunks(s, width).len() ==> chunks(s, width)[i + 1].len() > 0
            && code_steps(chunks(s, width)[i]) + code_step(chunks(s, width)[i + 1][0])
            > at_least_one(width),
{
    let n = at_least_one(width);
    lemma_chunks(s, n);
    let (lines, open, used) = chunks_so_far(s, n);
    let parts = chunks(s, width);
    assert(parts == lines.push(open));
    assert(parts.drop_last() =~= lines);
    if 0 <= i < lines.len() {
        assert(parts[i] == lines[i]);
        assert(behind_part(lines, open, i) == parts[i + 1]);
    }
}

/// Each part is a line of one piece in the style that was asked for.
pub proof fn law_parts_of_code_are_lines(s: Seq<char>, style: Style, width: u16, i: int)
    requires
        0 <= i < chunks(s, width as usize).len(),
    ensures
        styled_chunks(s, style, width).len() == chunks(s, width as usize).len(),
        styled_chunks(s, style, width)[i].len() == 1,
        styled_chunks(s, style, width)[i][0].content == chunks(s, width as usize)[i],
        styled_chunks(s, style, width)[i][0].style == style,
{
}

proof fn lemma_tail_start(s: Seq<char>, n: nat, width: usize)
    requires
        n <= s.len(),
    ensures
        n <= tail_start(s, n, width) <= s.len(),
        tail_start(s, n, width) < s.len() ==> text_columns(
            s.skip(tail_start(s, n, width) as int),
        ) <= width,
        forall|m: int|
            n <= m < tail_start(s, n, width) ==> #[trigger] text_columns(s.skip(m)) > width,
    decreases s.len() - n,
{
    if n < s.len() && text_columns(s.skip(n as int)) > width {
        lemma_tail_start(s, n + 1, width);
    }
}

/// The tail of a text that is kept is an end of it that fits, and every longer end does not.
pub proof fn law_tails_are_the_longest_that_fit(s: Seq<char>, width: usize) -> (from: int)
    ensures
        0 <= from <= s.len(),
        fitting_tail(s, width) == s.skip(from),
        from < s.len() ==> text_columns(fitting_tail(s, width)) <= width,
        forall|m: int| 0 <= m < from ==> #[trigger] text_columns(s.skip(m)) > width,
{
    lemma_tail_start(s, 0, width);
    tail_start(s, 0, width) as int
}

/// A text that fits is not cut at its end. Of one that does not, the longest beginning is kept that
/// leaves a column for the mark behind it.
pub proof fn law_cut_ends_keep_the_beginning(s: Seq<char>, width: usize)
    ensures
        text_columns(s) <= width ==> cut_end(s, width) == s,
        text_columns(s) > width && width == 0 ==> cut_end(s, width).len() == 0,
        text_columns(s) > width && width == 1 ==> cut_end(s, width) == "…"@,
        text_columns(s) > width && width >= 2 ==> ({
            let cut = cut_end(s, width);
            &&& cut.len() > 0
            &&& cut.last() == '…'
            &&& cut.len() - 1 <= s.len()
            &&& cut.drop_last() == s.take(cut.len() - 1)
            &&& forall|m: int|
                0 <= m <= s.len() ==> (#[trigger] total_columns(s.take(m)) <= width - 1 <==> m
                    <= cut.len() - 1)
        }),
{
    reveal_strlit("…");
    if width >= 2 {
        let room = (width - 1) as nat;
        law_taken_text_fits(s, room);
        let kept = fitting_prefix(s, room);
        assert((kept + "…"@).drop_last() =~= kept);
        assert forall|m: int| 0 <= m <= s.len() implies (#[trigger] total_columns(s.take(m))
            <= width - 1 <==> m <= kept.len()) by {
            law_taken_text_is_the_longest(s, room, m);
        }
    }
}

proof fn lemma_fitting_end(s: Seq<char>, n: nat, room: int)
    requires
        n <= s.len(),
        room >= 0,
    ensures
        fitting_end(s, n, room) <= n,
        total_columns(s.subrange(fitting_end(s, n, room) as int, n as int)) <= room,
        forall|m: int|
            0 <= m < fitting_end(s, n, room) ==> #[trigger] total_columns(
                s.subrange(m, n as int),
            ) > room,
    decreases n,
{
    let from = fitting_end(s, n, room) as int;
    if n > 0 {
        let last = (n - 1) as nat;
        assert forall|m: int| 0 <= m < n implies #[trigger] total_columns(s.subrange(m, n as int))
            == total_columns(s.subrange(m, last as int)) + columns(s[last as int]) by {
            assert(s.subrange(m, n as int).drop_last() =~= s.subrange(m, last as int));
        }
        if columns(s[last as int]) <= room {
            lemma_fitting_end(s, last, room - columns(s[last as int]));
        } else {
            assert(s.subrange(n as int, n as int) =~= Seq::empty());
        }
    } else {
        assert(s.subrange(0, 0) =~= Seq::empty());
    }
}

/// A text that fits is not cut at its start. Of one that does not, the longest end is kept that
/// leaves a column for the mark before it.
pub proof fn law_cut_starts_keep_the_end(s: Seq<char>, width: usize) -> (from: int)
    ensures
        0 <= from <= s.len(),
        text_columns(s) <= width ==> cut_start(s, width) == s,
        text_columns(s) > width && width == 0 ==> cut_start(s, width).len() == 0,
        text_columns(s) > width && width == 1 ==> cut_start(s, width) == "."@,
        text_columns(s) > width && width >= 2 ==> ({
            let cut = cut_start(s, width);
            &&& cut.len() > 0
            &&& cut[0] == '…'
            &&& cut.skip(1) == s.skip(from)
            &&& total_columns(s.skip(from)) <= width - 1
            &&& forall|m: int| 0 <= m < from ==> #[trigger] total_columns(s.skip(m)) > width - 1
        }),
{
    reveal_strlit("…");
    if width >= 2 {
        lemma_fitting_end(s, s.len(), width - 1);
        let from = fitting_end(s, s.len(), width - 1) as int;
        assert(("…"@ + s.skip(from)).skip(1) =~= s.skip(from));
        assert forall|m: int| 0 <= m <= s.len() implies #[trigger] s.skip(m) == s.subrange(
            m,
            s.len() as int,
        ) by {}
        assert(s.skip(from) == s.subrange(from, s.len() as int));
        assert forall|m: int| 0 <= m < from implies #[trigger] total_columns(s.skip(m)) > width
            - 1 by {
            assert(s.skip(m) == s.subrange(m, s.len() as int));
        }
        from
    } else {
        0
    }
}

} // verus!
