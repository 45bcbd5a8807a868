//! Tables drawn with box characters.
use super::style::{push_line, span, spans_width, text_of, Color, Line, Span, SpanModel, Style};
use super::width::text_columns;
use super::wrap::{wrap_spans_to_width, wrapped};

use crate::words::{repeat, repeated};
use vstd::prelude::*;

verus! {

/// Where a column's cells stand.
#[derive(Debug, Clone, Copy, PartialEq, Eq, Structural)]
pub enum CellAlignment {
    Left,
    Center,
    Right,
}

/// A cell of a table is a sequence of pieces, a row one of cells.
pub type Cell = Vec<Span>;

/// The sum of some widths.
pub open spec fn total(widths: Seq<usize>) -> nat
    decreases widths.len(),
{
    if widths.len() == 0 {
        0
    } else {
        total(widths.drop_last()) + widths.last() as nat
    }
}

/// The last of the widest columns.
pub open spec fn widest(widths: Seq<usize>) -> int
    decreases widths.len(),
{
    if widths.len() <= 1 {
        0
    } else {
        let before = widest(widths.drop_last());
        if widths.last() >= widths[before] {
            widths.len() - 1
        } else {
            before
        }
    }
}

/// The widths with the last of the widest made one narrower until they fit, or none can be.
pub open spec fn narrowed(widths: Seq<usize>, available: nat) -> Seq<usize>
    decreases total(widths),
    via narrowed_decreases
{
    let i = widest(widths);
    if total(widths) <= available || widths.len() == 0 || widths[i] <= 1 {
        widths
    } else {
        narrowed(widths.update(i, (widths[i] - 1) as usize), available)
    }
}

#[via_fn]
proof fn narrowed_decreases(widths: Seq<usize>, available: nat) {
    if widths.len() > 0 {
        lemma_widest(widths);
        let i = widest(widths);
        if widths[i] > 1 {
            lemma_total_update(widths, i, (widths[i] - 1) as usize);
        }
    }
}

pub proof fn lemma_widest(widths: Seq<usize>)
    requires
        widths.len() > 0,
    ensures
        0 <= widest(widths) < widths.len(),
        forall|i: int| 0 <= i < widths.len() ==> #[trigger] widths[i] <= widths[widest(widths)],
    decreases widths.len(),
{
    if widths.len() > 1 {
        let rest = widths.drop_last();
        lemma_widest(rest);
        assert forall|i: int| 0 <= i < widths.len() implies #[trigger] widths[i] <= widths[widest(
            widths,
        )] by {
            if i < rest.len() {
                assert(rest[i] == widths[i]);
            }
        }
    }
}

pub proof fn lemma_total_update(widths: Seq<usize>, i: int, w: usize)
    requires
        0 <= i < widths.len(),
    ensures
        total(widths.update(i, w)) + widths[i] == total(widths) + w,
    decreases widths.len(),
{
    if i == widths.len() - 1 {
        assert(widths.update(i, w).drop_last() =~= widths.drop_last());
    } else {
        lemma_total_update(widths.drop_last(), i, w);
        assert(widths.update(i, w).drop_last() =~= widths.drop_last().update(i, w));
    }
}

/// A width brought between one and the largest that a column may take at first.
pub open spec fn capped(width: usize, cap: usize) -> usize {
    if width > cap {
        if cap < 1 {
            1
        } else {
            cap
        }
    } else if width < 1 {
        1
    } else {
        width
    }
}

/// The columns that are left for the cells of a table.
pub open spec fn cell_room(count: nat, terminal_width: usize) -> nat {
    let frame = count + 1 + count * 2;
    if terminal_width > frame {
        (terminal_width - frame) as nat
    } else {
        0
    }
}

/// The widths of a table's columns on a terminal.
pub open spec fn constrained(widths: Seq<usize>, terminal_width: usize) -> Seq<usize> {
    let available = cell_room(widths.len(), terminal_width);
    if widths.len() == 0 {
        widths
    } else if available == 0 {
        Seq::new(widths.len(), |i: int| 1usize)
    } else if total(widths) <= available {
        widths
    } else {
        let share = available / widths.len();
        let cap = if share < 4 {
            4usize
        } else {
            share as usize
        };
        narrowed(widths.map_values(|w: usize| capped(w, cap)), available)
    }
}

fn exceeds(widths: &Vec<usize>, available: usize) -> (r: bool)
    ensures
        r == (total(widths@) > available),
{
    let mut room: usize = available;
    let mut i: usize = 0;
    assert(widths@.take(0) =~= Seq::empty());
    while i < widths.len()
        invariant
            i <= widths.len(),
            room == available - total(widths@.take(i as int)),
        decreases widths.len() - i,
    {
        assert(widths@.take(i + 1).drop_last() =~= widths@.take(i as int));
        if widths[i] > room {
            proof {
                lemma_total_grows(widths@, i + 1);
            }
            return true;
        }
        room -= widths[i];
        i += 1;
    }
    assert(widths@.take(i as int) =~= widths@);
    false
}

proof fn lemma_total_grows(widths: Seq<usize>, n: int)
    requires
        0 <= n <= widths.len(),
    ensures
        total(widths.take(n)) <= total(widths),
    decreases widths.len() - n,
{
    if n < widths.len() {
        lemma_total_grows(widths, n + 1);
        assert(widths.take(n + 1).drop_last() =~= widths.take(n));
    } else {
        assert(widths.take(n) =~= widths);
    }
}

fn find_widest(widths: &Vec<usize>) -> (r: usize)
    requires
        widths@.len() > 0,
    ensures
        r == widest(widths@),
        r < widths@.len(),
{
    let mut best: usize = 0;
    let mut i: usize = 1;
    assert(widths@.take(1).len() == 1);
    while i < widths.len()
        invariant
            1 <= i <= widths.len(),
            best < i,
            best == widest(widths@.take(i as int)),
        decreases widths.len() - i,
    {
        assert(widths@.take(i + 1).drop_last() =~= widths@.take(i as int));
        if widths[i] >= widths[best] {
            best = i;
        }
        i += 1;
    }
    assert(widths@.take(i as int) =~= widths@);
    best
}

/// Makes the columns of a table fit the terminal.
pub fn constrain_table_widths(widths: &mut Vec<usize>, terminal_width: usize)
    ensures
        final(widths)@ == constrained(old(widths)@, terminal_width),
        final(widths)@.len() == old(widths)@.len(),
{
    let count: usize = widths.len();
    if count == 0 {
        return;
    }
    let ghost first = widths@;
    let available: usize = terminal_width.saturating_sub(
        count.saturating_add(1).saturating_add(count.saturating_add(count)),
    );
    assert(available == cell_room(first.len(), terminal_width));
    if available == 0 {
        let mut i: usize = 0;
        while i < widths.len()
            invariant
                i <= widths.len(),
                widths@.len() == first.len(),
                forall|j: int| 0 <= j < i ==> #[trigger] widths@[j] == 1,
            decreases widths.len() - i,
        {
            widths[i] = 1;
            i += 1;
        }
        assert(widths@ =~= Seq::new(first.len(), |i: int| 1usize));
        return;
    }
    if !exceeds(widths, available) {
        return;
    }
    let share: usize = available / count;
    let cap: usize = if share < 4 {
        4
    } else {
        share
    };
    let ghost capped_widths = first.map_values(|w: usize| capped(w, cap));
    let mut i: usize = 0;
    while i < widths.len()
        invariant
            i <= widths.len(),
            cap >= 4,
            widths@.len() == first.len(),
            forall|j: int| 0 <= j < i ==> #[trigger] widths@[j] == capped(first[j], cap),
            forall|j: int| i <= j < first.len() ==> #[trigger] widths@[j] == first[j],
        decreases widths.len() - i,
    {
        let w: usize = widths[i];
        widths[i] = if w > cap {
            cap
        } else if w < 1 {
            1
        } else {
            w
        };
        i += 1;
    }
    assert(widths@ =~= capped_widths);
    while exceeds(widths, available)
        invariant
            widths@.len() == first.len(),
            first.len() > 0,
            narrowed(capped_widths, available as nat) == narrowed(widths@, available as nat),
        ensures
            widths@.len() == first.len(),
            widths@ == narrowed(capped_widths, available as nat),
        decreases total(widths@),
    {
        let at: usize = find_widest(widths);
        if widths[at] <= 1 {
            break;
        }
        let ghost before = widths@;
        widths[at] = widths[at] - 1;
        proof {
            lemma_total_update(before, at as int, (before[at as int] - 1) as usize);
            assert(widths@ =~= before.update(at as int, (before[at as int] - 1) as usize));
        }
    }
}

/// The widths that are left when no column is the single character it may shrink to fit.
pub proof fn lemma_narrowed(widths: Seq<usize>, available: nat)
    ensures
        narrowed(widths, available).len() == widths.len(),
        total(narrowed(widths, available)) <= available || forall|i: int|
            0 <= i < widths.len() ==> #[trigger] narrowed(widths, available)[i] <= 1,
    decreases total(widths),
{
    if widths.len() > 0 {
        lemma_widest(widths);
        let i = widest(widths);
        if total(widths) > available && widths[i] > 1 {
            lemma_total_update(widths, i, (widths[i] - 1) as usize);
            lemma_narrowed(widths.update(i, (widths[i] - 1) as usize), available);
        }
    }
}

/// A table's cells fit the terminal, or every column is down to one character.
pub proof fn law_columns_fit(widths: Seq<usize>, terminal_width: usize)
    ensures
        constrained(widths, terminal_width).len() == widths.len(),
        total(constrained(widths, terminal_width)) <= cell_room(widths.len(), terminal_width)
            || forall|i: int|
            0 <= i < widths.len() ==> #[trigger] constrained(widths, terminal_width)[i] <= 1,
{
    let available = cell_room(widths.len(), terminal_width);
    if widths.len() > 0 && available > 0 && total(widths) > available {
        let share = available / widths.len();
        let cap = if share < 4 {
            4usize
        } else {
            share as usize
        };
        lemma_narrowed(widths.map_values(|w: usize| capped(w, cap)), available);
    }
}

pub open spec fn frame_style() -> Style {
    Style::colored(Color::DarkGray)
}

/// The middle of a border: a rule for each column, with a joint between two.
pub open spec fn border_middle(middle: char, widths: Seq<usize>) -> Seq<char>
    decreases widths.len(),
{
    if widths.len() == 0 {
        Seq::empty()
    } else {
        let before = border_middle(middle, widths.drop_last());
        let joint = if widths.len() > 1 {
            before.push(middle)
        } else {
            before
        };
        joint + repeat("─"@, super::editor::saturated(widths.last() + 2) as nat)
    }
}

/// A border of a table.
pub open spec fn border(left: char, middle: char, right: char, widths: Seq<usize>) -> Seq<
    SpanModel,
> {
    seq![
        span((seq![left] + border_middle(middle, widths)).push(right), frame_style()),
    ]
}

pub fn render_table_border(left: char, middle: char, right: char, widths: &Vec<usize>) -> (r: Line)
    ensures
        r.deep_view() == border(left, middle, right, widths@),
{
    let mut text = String::new();
    text.push(left);
    assert(text@ =~= seq![left] + Seq::<char>::empty());
    assert(widths@.take(0) =~= Seq::empty());
    let mut i: usize = 0;
    while i < widths.len()
        invariant
            i <= widths.len(),
            text@ == seq![left] + border_middle(middle, widths@.take(i as int)),
        decreases widths.len() - i,
    {
        let ghost before = border_middle(middle, widths@.take(i as int));
        assert(widths@.take(i + 1).drop_last() =~= widths@.take(i as int));
        if i > 0 {
            text.push(middle);
            assert(text@ =~= seq![left] + before.push(middle));
        }
        let rule = repeated("─", widths[i].saturating_add(2));
        text.append(rule.as_str());
        assert(text@ =~= seq![left] + border_middle(middle, widths@.take(i + 1)));
        i += 1;
    }
    assert(widths@.take(i as int) =~= widths@);
    text.push(right);
    Line::of(Span::styled(text.as_str(), Style::of(Color::DarkGray)))
}

/// The blanks left and right of a cell.
pub open spec fn padding(column: usize, cell: usize, alignment: Option<CellAlignment>) -> (nat, nat) {
    let free = if column > cell {
        (column - cell) as nat
    } else {
        0
    };
    match alignment {
        Some(CellAlignment::Right) => (free, 0),
        Some(CellAlignment::Center) => (free / 2, (free - free / 2) as nat),
        _ => (0, free),
    }
}

pub fn table_padding(column_width: usize, cell_width: usize, alignment: Option<CellAlignment>) -> (r: (
    usize,
    usize,
))
    ensures
        (r.0 as nat, r.1 as nat) == padding(column_width, cell_width, alignment),
{
    let free: usize = column_width.saturating_sub(cell_width);
    match alignment {
        Some(CellAlignment::Right) => (free, 0),
        Some(CellAlignment::Center) => (free / 2, free - free / 2),
        _ => (0, free),
    }
}

/// A padded cell is as wide as its column, where the cell is not wider already.
pub proof fn law_padding_fills_the_column(
    column: usize,
    cell: usize,
    alignment: Option<CellAlignment>,
)
    requires
        cell <= column,
    ensures
        padding(column, cell, alignment).0 + cell + padding(column, cell, alignment).1 == column,
{
}

pub open spec fn item<T>(items: Seq<T>, i: int) -> Option<T> {
    if 0 <= i < items.len() {
        Some(items[i])
    } else {
        None
    }
}

/// The `i`th cell of a row; a row that is too short has empty cells at its end.
pub open spec fn cell_at(row: Seq<Seq<SpanModel>>, i: int) -> Seq<SpanModel> {
    if 0 <= i < row.len() {
        row[i]
    } else {
        Seq::empty()
    }
}

/// The lines of the cells of a row.
pub open spec fn cell_lines(row: Seq<Seq<SpanModel>>, widths: Seq<usize>) -> Seq<
    Seq<Seq<SpanModel>>,
> {
    Seq::new(widths.len(), |i: int| wrapped(cell_at(row, i), widths[i]))
}

pub open spec fn tallest(cells: Seq<Seq<Seq<SpanModel>>>) -> nat
    decreases cells.len(),
{
    if cells.len() == 0 {
        1
    } else {
        let before = tallest(cells.drop_last());
        if cells.last().len() > before {
            cells.last().len()
        } else {
            before
        }
    }
}

pub open spec fn header_style(style: Style) -> Style {
    Style { fg: Some(Color::Cyan), bold: true, ..style }
}

/// The pieces of a cell's line; those of a header are made to stand out.
pub open spec fn cell_pieces(line: Seq<SpanModel>, is_header: bool) -> Seq<SpanModel> {
    if is_header {
        line.map_values(|s: SpanModel| span(s.content, header_style(s.style)))
    } else {
        line
    }
}

pub open spec fn blanks(n: nat) -> Seq<SpanModel> {
    if n > 0 {
        seq![span(repeat(" "@, n), Style::normal())]
    } else {
        Seq::empty()
    }
}

/// One cell's part of a line of a row.
pub open spec fn cell_part(
    line: Seq<SpanModel>,
    width: usize,
    alignment: Option<CellAlignment>,
    is_header: bool,
) -> Seq<SpanModel> {
    let (left, right) = padding(width, text_columns(text_of(line)), alignment);
    blanks(left) + cell_pieces(line, is_header) + blanks(right)
}

/// The first `n` cells' parts of the `k`th line of a row.
pub open spec fn row_line_upto(
    cells: Seq<Seq<Seq<SpanModel>>>,
    widths: Seq<usize>,
    alignments: Seq<CellAlignment>,
    is_header: bool,
    k: int,
    n: nat,
) -> Seq<SpanModel>
    decreases n,
{
    if n == 0 {
        seq![span("│ "@, frame_style())]
    } else {
        let i = n - 1;
        let before = row_line_upto(cells, widths, alignments, is_header, k, i as nat);
        let joined = if i > 0 {
            before.push(span(" │ "@, frame_style()))
        } else {
            before
        };
        joined + cell_part(cell_at(cells[i], k), widths[i], item(alignments, i), is_header)
    }
}

pub open spec fn row_line(
    cells: Seq<Seq<Seq<SpanModel>>>,
    widths: Seq<usize>,
    alignments: Seq<CellAlignment>,
    is_header: bool,
    k: int,
) -> Seq<SpanModel> {
    row_line_upto(cells, widths, alignments, is_header, k, widths.len()).push(
        span(" │"@, frame_style()),
    )
}

/// The lines of a row.
pub open spec fn row_lines(
    row: Seq<Seq<SpanModel>>,
    widths: Seq<usize>,
    alignments: Seq<CellAlignment>,
    is_header: bool,
) -> Seq<Seq<SpanModel>> {
    let cells = cell_lines(row, widths);
    Seq::new(
        tallest(cells),
        |k: int| row_line(cells, widths, alignments, is_header, k),
    )
}

fn push_blanks(line: &mut Line, n: usize)
    ensures
        final(line).deep_view() == old(line).deep_view() + blanks(n as nat),
{
    let ghost before = line.deep_view();
    if n > 0 {
        line.push(Span::raw(repeated(" ", n).as_str()));
    }
    assert(line.deep_view() =~= before + blanks(n as nat));
}

fn push_cell(line: &mut Line, cell: &Line, width: usize, alignment: Option<CellAlignment>, is_header: bool)
    ensures
        final(line).deep_view() == old(line).deep_view() + cell_part(
            cell.deep_view(),
            width,
            alignment,
            is_header,
        ),
{
    let ghost before = line.deep_view();
    let (left, right) = table_padding(width, spans_width(&cell.spans), alignment);
    push_blanks(line, left);
    let ghost start = line.deep_view();
    let ghost pieces = cell_pieces(cell.deep_view(), is_header);
    let mut i: usize = 0;
    assert(start + pieces.take(0) =~= start);
    while i < cell.spans.len()
        invariant
            i <= cell.spans.len(),
            pieces == cell_pieces(cell.deep_view(), is_header),
            pieces.len() == cell.spans.len(),
            line.deep_view() == start + pieces.take(i as int),
        decreases cell.spans.len() - i,
    {
        assert(cell.deep_view()[i as int] == cell.spans@[i as int].deep_view());
        let style = if is_header {
            Style { fg: Some(Color::Cyan), bold: true, ..cell.spans[i].style }
        } else {
            cell.spans[i].style
        };
        line.push(Span { content: cell.spans[i].content.clone(), style });
        assert(line.deep_view() =~= start + pieces.take(i + 1));
        i += 1;
    }
    assert(pieces.take(i as int) =~= pieces);
    push_blanks(line, right);
    assert(line.deep_view() =~= before + cell_part(cell.deep_view(), width, alignment, is_header));
}

fn wrap_cells(row: &Vec<Cell>, widths: &Vec<usize>) -> (r: Vec<Vec<Line>>)
    ensures
        r.deep_view() == cell_lines(row.deep_view(), widths@),
{
    let ghost all = cell_lines(row.deep_view(), widths@);
    let mut cells: Vec<Vec<Line>> = Vec::new();
    let mut i: usize = 0;
    assert(cells.deep_view() =~= all.take(0));
    while i < widths.len()
        invariant
            all == cell_lines(row.deep_view(), widths@),
            i <= widths.len(),
            cells.deep_view() == all.take(i as int),
        decreases widths.len() - i,
    {
        let ghost before = cells.deep_view();
        let lines = if i < row.len() {
            assert(row.deep_view()[i as int] == row@[i as int].deep_view());
            wrap_spans_to_width(&row[i], widths[i])
        } else {
            let none: Vec<Span> = Vec::new();
            assert(none.deep_view() =~= Seq::empty());
            wrap_spans_to_width(&none, widths[i])
        };
        let ghost added = lines.deep_view();
        cells.push(lines);
        assert(cells.deep_view() =~= before.push(added));
        assert(added == all[i as int]);
        i += 1;
        assert(cells.deep_view() =~= all.take(i as int));
    }
    assert(all.take(i as int) =~= all);
    cells
}

fn row_height(cells: &Vec<Vec<Line>>) -> (r: usize)
    ensures
        r == tallest(cells.deep_view()),
{
    let ghost all = cells.deep_view();
    let mut height: usize = 1;
    let mut i: usize = 0;
    assert(all.take(0) =~= Seq::empty());
    while i < cells.len()
        invariant
            all == cells.deep_view(),
            i <= cells.len(),
            height == tallest(all.take(i as int)),
        decreases cells.len() - i,
    {
        assert(all.take(i + 1).drop_last() =~= all.take(i as int));
        assert(all[i as int] == cells@[i as int].deep_view());
        if cells[i].len() > height {
            height = cells[i].len();
        }
        i += 1;
    }
    assert(all.take(i as int) =~= all);
    height
}

fn render_row_line(
    cells: &Vec<Vec<Line>>,
    widths: &Vec<usize>,
    alignments: &Vec<CellAlignment>,
    is_header: bool,
    k: usize,
) -> (r: Line)
    requires
        cells@.len() == widths@.len(),
    ensures
        r.deep_view() == row_line(cells.deep_view(), widths@, alignments@, is_header, k as int),
{
    let ghost all = cells.deep_view();
    let mut line = Line::of(Span::styled("│ ", Style::of(Color::DarkGray)));
    let mut i: usize = 0;
    while i < widths.len()
        invariant
            all == cells.deep_view(),
            cells@.len() == widths@.len(),
            i <= widths.len(),
            line.deep_view() == row_line_upto(
                all,
                widths@,
                alignments@,
                is_header,
                k as int,
                i as nat,
            ),
        decreases widths.len() - i,
    {
        if i > 0 {
            line.push(Span::styled(" │ ", Style::of(Color::DarkGray)));
        }
        let alignment = if i < alignments.len() {
            Some(alignments[i])
        } else {
            None
        };
        assert(all[i as int] == cells@[i as int].deep_view());
        if k < cells[i].len() {
            assert(all[i as int][k as int] == cells@[i as int]@[k as int].deep_view());
            push_cell(&mut line, &cells[i][k], widths[i], alignment, is_header);
        } else {
            let none = Line::blank();
            push_cell(&mut line, &none, widths[i], alignment, is_header);
        }
        i += 1;
    }
    line.push(Span::styled(" │", Style::of(Color::DarkGray)));
    line
}

pub fn render_table_row(
    row: &Vec<Cell>,
    widths: &Vec<usize>,
    alignments: &Vec<CellAlignment>,
    is_header: bool,
) -> (r: Vec<Line>)
    ensures
        r.deep_view() == row_lines(row.deep_view(), widths@, alignments@, is_header),
{
    let cells = wrap_cells(row, widths);
    let height: usize = row_height(&cells);
    let ghost all = row_lines(row.deep_view(), widths@, alignments@, is_header);
    let mut lines: Vec<Line> = Vec::new();
    let mut k: usize = 0;
    assert(lines.deep_view() =~= all.take(0));
    assert(cells@.len() == cells.deep_view().len());
    while k < height
        invariant
            cells@.len() == widths@.len(),
            cells.deep_view() == cell_lines(row.deep_view(), widths@),
            all == row_lines(row.deep_view(), widths@, alignments@, is_header),
            height == all.len(),
            k <= height,
            lines.deep_view() == all.take(k as int),
        decreases height - k,
    {
        push_line(&mut lines, render_row_line(&cells, widths, alignments, is_header, k));
        k += 1;
        assert(lines.deep_view() =~= all.take(k as int));
    }
    assert(all.take(k as int) =~= all);
    lines
}

pub open spec fn longest_row(rows: Seq<Seq<Seq<SpanModel>>>) -> nat
    decreases rows.len(),
{
    if rows.len() == 0 {
        0
    } else {
        let before = longest_row(rows.drop_last());
        if rows.last().len() > before {
            rows.last().len()
        } else {
            before
        }
    }
}

/// The widest cell of a column.
pub open spec fn natural_width(rows: Seq<Seq<Seq<SpanModel>>>, column: int) -> usize
    decreases rows.len(),
{
    if rows.len() == 0 {
        0
    } else {
        let before = natural_width(rows.drop_last(), column);
        let row = rows.last();
        if 0 <= column < row.len() && text_columns(text_of(row[column])) > before {
            text_columns(text_of(row[column]))
        } else {
            before
        }
    }
}

/// The widths that the columns would take.
pub open spec fn natural_widths(rows: Seq<Seq<Seq<SpanModel>>>) -> Seq<usize> {
    Seq::new(longest_row(rows), |c: int| natural_width(rows, c))
}

/// The first `n` rows with the borders between them.
pub open spec fn body_upto(
    rows: Seq<Seq<Seq<SpanModel>>>,
    widths: Seq<usize>,
    alignments: Seq<CellAlignment>,
    n: nat,
) -> Seq<Seq<SpanModel>>
    decreases n,
{
    if n == 0 {
        Seq::empty()
    } else {
        let before = body_upto(rows, widths, alignments, (n - 1) as nat);
        let with_row = before + row_lines(rows[n - 1], widths, alignments, n == 1);
        if n < rows.len() {
            with_row.push(border('├', '┼', '┤', widths))
        } else {
            with_row
        }
    }
}

/// A table of some rows, the first of which is its header.
pub open spec fn table_lines(
    rows: Seq<Seq<Seq<SpanModel>>>,
    alignments: Seq<CellAlignment>,
    terminal_width: usize,
) -> Seq<Seq<SpanModel>> {
    if longest_row(rows) == 0 {
        Seq::empty()
    } else {
        let widths = constrained(natural_widths(rows), terminal_width);
        (seq![border('┌', '┬', '┐', widths)] + body_upto(
            rows,
            widths,
            alignments,
            rows.len(),
        )).push(border('└', '┴', '┘', widths))
    }
}

fn count_columns(rows: &Vec<Vec<Cell>>) -> (r: usize)
    ensures
        r == longest_row(rows.deep_view()),
{
    let ghost all = rows.deep_view();
    let mut count: usize = 0;
    let mut i: usize = 0;
    assert(all.take(0) =~= Seq::empty());
    while i < rows.len()
        invariant
            all == rows.deep_view(),
            i <= rows.len(),
            count == longest_row(all.take(i as int)),
        decreases rows.len() - i,
    {
        assert(all.take(i + 1).drop_last() =~= all.take(i as int));
        assert(all[i as int] == rows@[i as int].deep_view());
        if rows[i].len() > count {
            count = rows[i].len();
        }
        i += 1;
    }
    assert(all.take(i as int) =~= all);
    count
}

fn column_width(rows: &Vec<Vec<Cell>>, column: usize) -> (r: usize)
    ensures
        r == natural_width(rows.deep_view(), column as int),
{
    let ghost all = rows.deep_view();
    let mut width: usize = 0;
    let mut i: usize = 0;
    assert(all.take(0) =~= Seq::empty());
    while i < rows.len()
        invariant
            all == rows.deep_view(),
            i <= rows.len(),
            width == natural_width(all.take(i as int), column as int),
        decreases rows.len() - i,
    {
        assert(all.take(i + 1).drop_last() =~= all.take(i as int));
        assert(all[i as int] == rows@[i as int].deep_view());
        if column < rows[i].len() {
            assert(all[i as int][column as int] == rows@[i as int]@[column as int].deep_view());
            let own = spans_width(&rows[i][column]);
            if own > width {
                width = own;
            }
        }
        i += 1;
    }
    assert(all.take(i as int) =~= all);
    width
}

/// Draws a table.
pub fn render_table(
    rows: &Vec<Vec<Cell>>,
    alignments: &Vec<CellAlignment>,
    terminal_width: usize,
) -> (r: Vec<Line>)
    ensures
        r.deep_view() == table_lines(rows.deep_view(), alignments@, terminal_width),
{
    let ghost all = rows.deep_view();
    let count: usize = count_columns(rows);
    let mut lines: Vec<Line> = Vec::new();
    assert(lines.deep_view() =~= Seq::empty());
    if count == 0 {
        return lines;
    }
    let mut widths: Vec<usize> = Vec::new();
    let mut c: usize = 0;
    while c < count
        invariant
            all == rows.deep_view(),
            count == longest_row(all),
            c <= count,
            widths@ == natural_widths(all).take(c as int),
        decreases count - c,
    {
        widths.push(column_width(rows, c));
        c += 1;
        assert(widths@ =~= natural_widths(all).take(c as int));
    }
    assert(widths@ =~= natural_widths(all));
    constrain_table_widths(&mut widths, terminal_width);
    push_line(&mut lines, render_table_border('┌', '┬', '┐', &widths));
    let ghost top = seq![border('┌', '┬', '┐', widths@)];
    assert(lines.deep_view() =~= top + Seq::<Seq<SpanModel>>::empty());
    let mut i: usize = 0;
    while i < rows.len()
        invariant
            all == rows.deep_view(),
            i <= rows.len(),
            lines.deep_view() == top + body_upto(all, widths@, alignments@, i as nat),
        decreases rows.len() - i,
    {
        let ghost before = body_upto(all, widths@, alignments@, i as nat);
        assert(all[i as int] == rows@[i as int].deep_view());
        let row = render_table_row(&rows[i], &widths, alignments, i == 0);
        let ghost added = row.deep_view();
        super::style::append_lines(&mut lines, row);
        assert(lines.deep_view() =~= top + (before + added));
        if i + 1 < rows.len() {
            let joint = render_table_border('├', '┼', '┤', &widths);
            let ghost line = joint.deep_view();
            push_line(&mut lines, joint);
            assert(lines.deep_view() =~= top + (before + added).push(line));
        }
        i += 1;
    }
    push_line(&mut lines, render_table_border('└', '┴', '┘', &widths));
    lines
}

} // verus!
