//! Text that is selected in the transcript with the mouse.
use super::editor::saturated;
use super::style::{columns_of_pieces, span, text_of, Color, Line, Span, SpanModel, Style};
use super::width::{text_columns, text_width};
use super::wrap::{code_step, code_step_of, with_piece};
use crate::text::{from_chars, to_chars};
use vstd::prelude::*;

verus! {

#[derive(Debug, Clone, Copy, PartialEq, Eq, Structural)]
pub struct TranscriptSelectionPoint {
    pub line: usize,
    pub column: usize,
}

impl TranscriptSelectionPoint {
    pub open spec fn is_before(self, other: TranscriptSelectionPoint) -> bool {
        self.line < other.line || self.line == other.line && self.column < other.column
    }
}

#[derive(Debug, Clone, Copy, PartialEq, Eq, Structural)]
pub struct TranscriptSelection {
    pub anchor: Option<TranscriptSelectionPoint>,
    pub head: Option<TranscriptSelectionPoint>,
    pub dragging: bool,
}

impl TranscriptSelection {
    pub open spec fn nothing() -> TranscriptSelection {
        TranscriptSelection { anchor: None, head: None, dragging: false }
    }

    pub fn none() -> (r: Self)
        ensures
            r == TranscriptSelection::nothing(),
    {
        TranscriptSelection { anchor: None, head: None, dragging: false }
    }

    pub fn clear(&mut self)
        ensures
            *final(self) == TranscriptSelection::nothing(),
    {
        self.anchor = None;
        self.head = None;
        self.dragging = false;
    }

    /// The two ends in the order of the text.
    pub open spec fn ends(self) -> Option<(TranscriptSelectionPoint, TranscriptSelectionPoint)> {
        match (self.anchor, self.head) {
            (Some(anchor), Some(head)) => if head.is_before(anchor) {
                Some((head, anchor))
            } else {
                Some((anchor, head))
            },
            _ => None,
        }
    }

    pub fn ordered_endpoints(self) -> (r: Option<
        (TranscriptSelectionPoint, TranscriptSelectionPoint),
    >)
        ensures
            r == self.ends(),
    {
        match (self.anchor, self.head) {
            (Some(anchor), Some(head)) => if head.line < anchor.line || head.line == anchor.line
                && head.column < anchor.column {
                Some((head, anchor))
            } else {
                Some((anchor, head))
            },
            _ => None,
        }
    }
}

/// A selection does not depend on the end at which it was begun.
pub proof fn law_selections_have_no_direction(
    a: TranscriptSelectionPoint,
    b: TranscriptSelectionPoint,
)
    ensures
        (TranscriptSelection { anchor: Some(a), head: Some(b), dragging: false }).ends() == (
        TranscriptSelection { anchor: Some(b), head: Some(a), dragging: false }).ends(),
{
}

/// The columns up to the end of a text, added up as far as they can be counted.
pub open spec fn column_after(s: Seq<char>) -> usize
    decreases s.len(),
{
    if s.len() == 0 {
        0
    } else {
        saturated(column_after(s.drop_last()) + code_step(s.last()))
    }
}

/// Whether a character that reaches from one column to another is in a range of columns.
pub open spec fn in_range(from: usize, to: usize, start: usize, end: usize) -> bool {
    to > start && from < end
}

/// The characters of a text that lie in a range of columns.
pub open spec fn sliced(s: Seq<char>, start: usize, end: usize) -> Seq<char>
    decreases s.len(),
{
    if s.len() == 0 {
        Seq::empty()
    } else {
        let rest = sliced(s.drop_last(), start, end);
        if start < end && in_range(column_after(s.drop_last()), column_after(s), start, end) {
            rest.push(s.last())
        } else {
            rest
        }
    }
}

/// Past the range of columns nothing more is taken.
proof fn lemma_past_range(s: Seq<char>, i: int, start: usize, end: usize)
    requires
        0 <= i <= s.len(),
        column_after(s.take(i)) >= end,
    ensures
        sliced(s, start, end) == sliced(s.take(i), start, end),
        column_after(s) >= end,
    decreases s.len() - i,
{
    if i == s.len() {
        assert(s.take(i) =~= s);
    } else {
        assert(s.take(i + 1).drop_last() =~= s.take(i));
        lemma_past_range(s, i + 1, start, end);
    }
}

/// An empty range holds nothing.
proof fn lemma_empty_range(s: Seq<char>, start: usize, end: usize)
    requires
        start >= end,
    ensures
        sliced(s, start, end) == Seq::<char>::empty(),
    decreases s.len(),
{
    if s.len() > 0 {
        lemma_empty_range(s.drop_last(), start, end);
    }
}

pub fn slice_text_by_display_cols(text: &str, start_col: usize, end_col: usize) -> (r: String)
    ensures
        r@ == sliced(text@, start_col, end_col),
{
    let mut out = String::new();
    assert(out@ =~= Seq::empty());
    if start_col >= end_col {
        proof {
            lemma_empty_range(text@, start_col, end_col);
        }
        return out;
    }
    let chars = to_chars(text);
    let mut col: usize = 0;
    let mut i: usize = 0;
    assert(chars@.take(0) =~= Seq::empty());
    while i < chars.len()
        invariant
            chars@ == text@,
            start_col < end_col,
            i <= chars.len(),
            col == column_after(chars@.take(i as int)),
            out@ == sliced(chars@.take(i as int), start_col, end_col),
        decreases chars.len() - i,
    {
        assert(chars@.take(i + 1).drop_last() =~= chars@.take(i as int));
        let next: usize = col.saturating_add(code_step_of(chars[i]));
        if next > start_col && col < end_col {
            out.push(chars[i]);
        }
        col = next;
        i += 1;
        if col >= end_col {
            proof {
                lemma_past_range(chars@, i as int, start_col, end_col);
            }
            return out;
        }
    }
    assert(chars@.take(i as int) =~= text@);
    out
}

pub open spec fn smaller(a: usize, b: usize) -> usize {
    if a < b {
        a
    } else {
        b
    }
}

fn min_of(a: usize, b: usize) -> (r: usize)
    ensures
        r == smaller(a, b),
{
    if a < b {
        a
    } else {
        b
    }
}

/// The columns of line `i` that a selection between two points covers.
pub open spec fn covered(
    i: int,
    width: usize,
    start: TranscriptSelectionPoint,
    end: TranscriptSelectionPoint,
) -> (usize, usize) {
    (
        if i == start.line {
            smaller(start.column, width)
        } else {
            0
        },
        if i == end.line {
            smaller(end.column, width)
        } else {
            width
        },
    )
}

fn cover(
    i: usize,
    width: usize,
    start: TranscriptSelectionPoint,
    end: TranscriptSelectionPoint,
) -> (r: (usize, usize))
    ensures
        r == covered(i as int, width, start, end),
{
    (
        if i == start.line {
            min_of(start.column, width)
        } else {
            0
        },
        if i == end.line {
            min_of(end.column, width)
        } else {
            width
        },
    )
}

/// What is selected of line `i`.
pub open spec fn selected_part(
    lines: Seq<Seq<SpanModel>>,
    i: int,
    start: TranscriptSelectionPoint,
    end: TranscriptSelectionPoint,
) -> Seq<char> {
    let text = text_of(lines[i]);
    let (from, to) = covered(i, text_columns(text), start, end);
    sliced(text, from, to)
}

/// What is selected of the lines before `to`, with line feeds between the lines.
pub open spec fn selected_before(
    lines: Seq<Seq<SpanModel>>,
    to: int,
    start: TranscriptSelectionPoint,
    end: TranscriptSelectionPoint,
) -> Seq<char>
    decreases to - start.line,
{
    if to <= start.line {
        Seq::empty()
    } else if to == start.line + 1 {
        selected_part(lines, to - 1, start, end)
    } else {
        selected_before(lines, to - 1, start, end).push('\n') + selected_part(
            lines,
            to - 1,
            start,
            end,
        )
    }
}

/// The selected text. There is none where the two ends coincide or lie past the transcript.
pub open spec fn selected_text(
    lines: Seq<Seq<SpanModel>>,
    selection: TranscriptSelection,
) -> Option<Seq<char>> {
    match selection.ends() {
        Some((start, end)) => if start == end || end.line >= lines.len() {
            None
        } else {
            Some(selected_before(lines, end.line + 1, start, end))
        },
        None => None,
    }
}

pub fn selection_to_text(lines: &Vec<Line>, selection: TranscriptSelection) -> (r: Option<String>)
    ensures
        r.deep_view() == selected_text(lines.deep_view(), selection),
{
    let (start, end) = match selection.ordered_endpoints() {
        Some(ends) => ends,
        None => {
            return None;
        },
    };
    if start == end || end.line >= lines.len() {
        return None;
    }
    let ghost all = lines.deep_view();
    let mut selected = String::new();
    let mut i: usize = start.line;
    assert(selected@ =~= Seq::empty());
    while i <= end.line
        invariant
            all == lines.deep_view(),
            end.line < lines.len(),
            start.line <= end.line,
            start.line <= i <= end.line + 1,
            selected@ == selected_before(all, i as int, start, end),
        decreases end.line + 1 - i,
    {
        assert(all[i as int] == lines@[i as int].deep_view());
        let text = lines[i].text();
        let (from, to) = cover(i, text_width(text.as_str()), start, end);
        let ghost before = selected@;
        if i > start.line {
            selected.push('\n');
        }
        let part = slice_text_by_display_cols(text.as_str(), from, to);
        selected.append(part.as_str());
        assert(i == start.line ==> selected@ =~= part@);
        i += 1;
    }
    Some(selected)
}

/// The style of selected text.
pub open spec fn selected_style(style: Style, selected: bool) -> Style {
    if selected {
        Style { bg: Some(Color::Rgb(198, 222, 255)), ..style }
    } else {
        style
    }
}

fn selection_style(style: Style, selected: bool) -> (r: Style)
    ensures
        r == selected_style(style, selected),
{
    if selected {
        Style { bg: Some(Color::Rgb(198, 222, 255)), ..style }
    } else {
        style
    }
}

/// A piece of a line split by what is selected: the parts that are complete, the part that is
/// open, whether that one is selected, and the column behind it.
pub open spec fn marked_so_far(
    done: Seq<SpanModel>,
    content: Seq<char>,
    style: Style,
    col: usize,
    start: usize,
    end: usize,
) -> (Seq<SpanModel>, Seq<char>, bool, usize)
    decreases content.len(),
{
    if content.len() == 0 {
        (done, Seq::empty(), false, col)
    } else {
        let (parts, open, selected, at) = marked_so_far(
            done,
            content.drop_last(),
            style,
            col,
            start,
            end,
        );
        let c = content.last();
        let next = saturated(at + code_step(c));
        let here = in_range(at, next, start, end);
        if open.len() > 0 && here != selected {
            (parts.push(span(open, selected_style(style, selected))), seq![c], here, next)
        } else {
            (parts, open.push(c), here, next)
        }
    }
}

/// The pieces of a line split by what is selected, and the column behind them.
pub open spec fn marked(spans: Seq<SpanModel>, start: usize, end: usize) -> (Seq<SpanModel>, usize)
    decreases spans.len(),
{
    if spans.len() == 0 {
        (Seq::empty(), 0)
    } else {
        let (done, col) = marked(spans.drop_last(), start, end);
        let (parts, open, selected, at) = marked_so_far(
            done,
            spans.last().content,
            spans.last().style,
            col,
            start,
            end,
        );
        (with_piece(parts, open, selected_style(spans.last().style, selected)), at)
    }
}

/// Splits one piece behind those that are done, and says what column lies behind it.
fn highlight_span(done: &mut Vec<Span>, piece: &Span, col: usize, start: usize, end: usize) -> (r:
    usize)
    ensures
        ({
            let (parts, open, selected, at) = marked_so_far(
                old(done).deep_view(),
                piece.deep_view().content,
                piece.style,
                col,
                start,
                end,
            );
            &&& r == at
            &&& final(done).deep_view() == with_piece(
                parts,
                open,
                selected_style(piece.style, selected),
            )
        }),
{
    let chars = to_chars(piece.content.as_str());
    let style = piece.style;
    let ghost initial = done.deep_view();
    let mut from: usize = 0;
    let mut at: usize = col;
    let mut selected = false;
    let mut i: usize = 0;
    assert(chars@.take(0) =~= Seq::empty());
    assert(chars@.subrange(0, 0) =~= Seq::empty());
    while i < chars.len()
        invariant
            chars@ == piece.content@,
            style == piece.style,
            from <= i <= chars.len(),
            (done.deep_view(), chars@.subrange(from as int, i as int), selected, at)
                == marked_so_far(initial, chars@.take(i as int), style, col, start, end),
        decreases chars.len() - i,
    {
        assert(chars@.take(i + 1).drop_last() =~= chars@.take(i as int));
        let next: usize = at.saturating_add(code_step_of(chars[i]));
        let here = next > start && at < end;
        if i > from && here != selected {
            let part = from_chars(&chars, from, i);
            let ghost before = done.deep_view();
            done.push(Span { content: part, style: selection_style(style, selected) });
            assert(done.deep_view() =~= before.push(
                span(
                    chars@.subrange(from as int, i as int),
                    selected_style(style, selected),
                ),
            ));
            from = i;
            assert(chars@.subrange(from as int, i + 1) =~= seq![chars@[i as int]]);
        } else {
            assert(chars@.subrange(from as int, i + 1) =~= chars@.subrange(
                from as int,
                i as int,
            ).push(chars@[i as int]));
        }
        selected = here;
        at = next;
        i += 1;
    }
    assert(chars@.take(i as int) =~= chars@);
    if i > from {
        let part = from_chars(&chars, from, i);
        let ghost before = done.deep_view();
        done.push(Span { content: part, style: selection_style(style, selected) });
        assert(done.deep_view() =~= before.push(
            span(chars@.subrange(from as int, i as int), selected_style(style, selected)),
        ));
    }
    at
}

pub fn highlight_line_range(line: &Line, start_col: usize, end_col: usize) -> (r: Line)
    ensures
        r.deep_view() == marked(line.deep_view(), start_col, end_col).0,
{
    let ghost all = line.deep_view();
    let mut highlighted: Vec<Span> = Vec::new();
    let mut col: usize = 0;
    let mut i: usize = 0;
    assert(all.take(0) =~= Seq::empty());
    assert(highlighted.deep_view() =~= Seq::empty());
    while i < line.spans.len()
        invariant
            all == line.deep_view(),
            all.len() == line.spans.len(),
            i <= line.spans.len(),
            (highlighted.deep_view(), col) == marked(all.take(i as int), start_col, end_col),
        decreases line.spans.len() - i,
    {
        assert(all.take(i + 1).drop_last() =~= all.take(i as int));
        assert(all[i as int] == line.spans@[i as int].deep_view());
        col = highlight_span(&mut highlighted, &line.spans[i], col, start_col, end_col);
        i += 1;
    }
    assert(all.take(i as int) =~= all);
    Line { spans: highlighted }
}

/// Line `i` of the transcript as it is shown with a selection.
pub open spec fn line_with_selection(
    line: Seq<SpanModel>,
    i: int,
    selection: TranscriptSelection,
) -> Seq<SpanModel> {
    match selection.ends() {
        Some((start, end)) => {
            let (from, to) = covered(i, columns_of_pieces(line) as usize, start, end);
            if start != end && start.line <= i <= end.line && from < to {
                marked(line, from, to).0
            } else {
                line
            }
        },
        None => line,
    }
}

/// Lines `from` to `to` of the transcript as they are shown with a selection.
pub fn apply_transcript_selection(
    lines: &Vec<Line>,
    from: usize,
    to: usize,
    selection: TranscriptSelection,
) -> (r: Vec<Line>)
    requires
        from <= to <= lines.len(),
    ensures
        r.deep_view() == Seq::new(
            (to - from) as nat,
            |k: int| line_with_selection(lines.deep_view()[from + k], from + k, selection),
        ),
{
    let ghost all = lines.deep_view();
    let ends = selection.ordered_endpoints();
    let mut visible: Vec<Line> = Vec::new();
    let mut i: usize = from;
    assert(visible.deep_view() =~= Seq::empty());
    while i < to
        invariant
            all == lines.deep_view(),
            ends == selection.ends(),
            from <= i <= to <= lines.len(),
            visible.deep_view() == Seq::new(
                (i - from) as nat,
                |k: int| line_with_selection(all[from + k], from + k, selection),
            ),
        decreases to - i,
    {
        assert(all[i as int] == lines@[i as int].deep_view());
        let next = match ends {
            Some((start, end)) => {
                let (a, b) = cover(i, lines[i].width(), start, end);
                if start != end && start.line <= i && i <= end.line && a < b {
                    highlight_line_range(&lines[i], a, b)
                } else {
                    lines[i].copy()
                }
            },
            None => lines[i].copy(),
        };
        let ghost before = visible.deep_view();
        visible.push(next);
        assert(visible.deep_view() =~= before.push(next.deep_view()));
        i += 1;
        assert(visible.deep_view() =~= Seq::new(
            (i - from) as nat,
            |k: int| line_with_selection(all[from + k], from + k, selection),
        ));
    }
    visible
}

proof fn lemma_text_of_push(spans: Seq<SpanModel>, piece: SpanModel)
    ensures
        text_of(spans.push(piece)) == text_of(spans) + piece.content,
{
    assert(spans.push(piece).drop_last() =~= spans);
}

proof fn lemma_marked_text(
    done: Seq<SpanModel>,
    content: Seq<char>,
    style: Style,
    col: usize,
    start: usize,
    end: usize,
)
    ensures
        ({
            let (parts, open, selected, at) = marked_so_far(done, content, style, col, start, end);
            text_of(parts) + open == text_of(done) + content
        }),
    decreases content.len(),
{
    if content.len() == 0 {
        assert(content =~= Seq::empty());
    } else {
        lemma_marked_text(done, content.drop_last(), style, col, start, end);
        let (parts, open, selected, at) = marked_so_far(
            done,
            content.drop_last(),
            style,
            col,
            start,
            end,
        );
        lemma_text_of_push(parts, span(open, selected_style(style, selected)));
        assert(content =~= content.drop_last().push(content.last()));
        assert((text_of(parts) + open) + seq![content.last()] =~= text_of(parts) + open.push(
            content.last(),
        ));
        assert((text_of(done) + content.drop_last()) + seq![content.last()] =~= text_of(done)
            + content);
    }
}

/// Marking a selection changes no text.
pub proof fn law_highlighting_keeps_the_text(spans: Seq<SpanModel>, start: usize, end: usize)
    ensures
        text_of(marked(spans, start, end).0) == text_of(spans),
    decreases spans.len(),
{
    if spans.len() > 0 {
        law_highlighting_keeps_the_text(spans.drop_last(), start, end);
        let (done, col) = marked(spans.drop_last(), start, end);
        let piece = spans.last();
        lemma_marked_text(done, piece.content, piece.style, col, start, end);
        let (parts, open, selected, at) = marked_so_far(
            done,
            piece.content,
            piece.style,
            col,
            start,
            end,
        );
        lemma_text_of_push(parts, span(open, selected_style(piece.style, selected)));
        assert(open.len() == 0 ==> text_of(parts) + open =~= text_of(parts));
    }
}

/// A selection over all columns of a text is the text, unless nothing of it takes a column.
pub proof fn law_whole_lines_are_selected_whole(s: Seq<char>, end: usize)
    requires
        forall|i: int| 0 <= i < s.len() ==> code_step(#[trigger] s[i]) > 0,
        column_after(s) < usize::MAX,
        column_after(s) <= end,
    ensures
        sliced(s, 0, end) == s,
    decreases s.len(),
{
    if s.len() > 0 {
        assert(code_step(s[s.len() - 1]) > 0);
        assert forall|i: int| 0 <= i < s.drop_last().len() implies code_step(
            #[trigger] s.drop_last()[i],
        ) > 0 by {
            assert(s.drop_last()[i] == s[i]);
        }
        law_whole_lines_are_selected_whole(s.drop_last(), end);
        assert(s.drop_last().push(s.last()) =~= s);
    } else {
        assert(sliced(s, 0, end) =~= s);
    }
}

} // verus!
