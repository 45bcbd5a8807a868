//! What a table promises: how wide its columns are, what stands in a cell, and where the rows and
//! the rules between them stand.
use crate::ui::editor::saturated;
use crate::ui::style::{span, text_of, Color, SpanModel};
use crate::ui::table::{
    blanks, body_upto, border, border_middle, capped, cell_at, cell_lines, cell_part, cell_pieces,
    cell_room, constrained, item, lemma_narrowed, lemma_total_update, lemma_widest, longest_row,
    narrowed, natural_width, natural_widths, padding, row_line, row_line_upto, row_lines,
    table_lines, tallest, total, widest, CellAlignment,
};
use crate::ui::width::text_columns;
use crate::ui::wrap::wrapped;
use crate::words::repeat;
use vstd::prelude::*;

verus! {

/// A column is as wide as its widest cell, and a column without cells takes nothing.
pub proof fn law_columns_are_as_wide_as_their_cells(rows: Seq<Seq<Seq<SpanModel>>>, column: int)
    requires
        0 <= column,
    ensures
        forall|r: int|
            0 <= r < rows.len() && column < #[trigger] rows[r].len() ==> text_columns(
                text_of(rows[r][column]),
            ) <= natural_width(rows, column),
        natural_width(rows, column) == 0 || exists|r: int|
            0 <= r < rows.len() && column < #[trigger] rows[r].len() && text_columns(
                text_of(rows[r][column]),
            ) == natural_width(rows, column),
    decreases rows.len(),
{
    if rows.len() > 0 {
        let before = rows.drop_last();
        law_columns_are_as_wide_as_their_cells(before, column);
        assert forall|r: int|
            0 <= r < rows.len() && column < #[trigger] rows[r].len() implies text_columns(
            text_of(rows[r][column]),
        ) <= natural_width(rows, column) by {
            if r < before.len() {
                assert(before[r] == rows[r]);
            }
        }
        if natural_width(rows, column) > 0 {
            if natural_width(rows, column) == natural_width(before, column) {
                let r = choose|r: int|
                    0 <= r < before.len() && column < #[trigger] before[r].len() && text_columns(
                        text_of(before[r][column]),
                    ) == natural_width(before, column);
                assert(rows[r] == before[r]);
            } else {
                let r = rows.len() - 1;
                assert(column < rows[r].len());
            }
        }
    }
}

/// There are as many columns as the longest row has cells.
pub proof fn law_the_longest_row_counts_the_columns(rows: Seq<Seq<Seq<SpanModel>>>)
    ensures
        natural_widths(rows).len() == longest_row(rows),
        forall|r: int| 0 <= r < rows.len() ==> #[trigger] rows[r].len() <= longest_row(rows),
        longest_row(rows) == 0 || exists|r: int|
            0 <= r < rows.len() && #[trigger] rows[r].len() == longest_row(rows),
        forall|c: int|
            0 <= c < longest_row(rows) ==> #[trigger] natural_widths(rows)[c] == natural_width(
                rows,
                c,
            ),
    decreases rows.len(),
{
    if rows.len() > 0 {
        let before = rows.drop_last();
        law_the_longest_row_counts_the_columns(before);
        assert forall|r: int| 0 <= r < rows.len() implies #[trigger] rows[r].len() <= longest_row(
            rows,
        ) by {
            if r < before.len() {
                assert(before[r] == rows[r]);
            }
        }
        if longest_row(rows) > 0 {
            if longest_row(rows) == longest_row(before) {
                let r = choose|r: int|
                    0 <= r < before.len() && #[trigger] before[r].len() == longest_row(before);
                assert(rows[r] == before[r]);
            } else {
                assert(rows[rows.len() - 1].len() == longest_row(rows));
            }
        }
    }
}

proof fn lemma_narrowed_evenly(widths: Seq<usize>, available: nat)
    requires
        forall|i: int| 0 <= i < widths.len() ==> #[trigger] widths[i] >= 1,
    ensures
        narrowed(widths, available).len() == widths.len(),
        forall|i: int|
            0 <= i < widths.len() ==> 1 <= #[trigger] narrowed(widths, available)[i] <= widths[i],
        forall|i: int, j: int|
            0 <= i < widths.len() && 0 <= j < widths.len() && narrowed(widths, available)[i]
                < widths[i] ==> #[trigger] narrowed(widths, available)[j]
                <= #[trigger] narrowed(widths, available)[i] + 1,
        total(widths) > available ==> total(narrowed(widths, available)) >= available,
        total(widths) <= available ==> narrowed(widths, available) == widths,
    decreases total(widths),
{
    if widths.len() > 0 {
        lemma_widest(widths);
        let i = widest(widths);
        if total(widths) > available && widths[i] > 1 {
            let less = widths.update(i, (widths[i] - 1) as usize);
            lemma_total_update(widths, i, (widths[i] - 1) as usize);
            lemma_narrowed_evenly(less, available);
            let end = narrowed(widths, available);
            assert(end == narrowed(less, available));
            assert forall|a: int, b: int|
                0 <= a < widths.len() && 0 <= b < widths.len() && end[a] < widths[a] implies (
            #[trigger] end[b]) <= #[trigger] end[a] + 1 by {
                assert(end[a] <= less[a] && end[b] <= less[b]);
                assert(widths[b] <= widths[i]);
                if end[a] == less[a] {
                    assert(a == i);
                }
            }
        }
    }
}

/// Columns that fit keep their widths. Where they do not fit, none is wider than it was, unless it
/// was empty, nor than its share of the room where that is four or more; none vanishes; and no more
/// is taken away than has to be, from the widest columns alone.
pub proof fn law_columns_give_way_evenly(widths: Seq<usize>, terminal_width: usize, i: int)
    requires
        0 <= i < widths.len(),
    ensures
        ({
            let n = widths.len();
            let room = cell_room(n, terminal_width);
            let end = constrained(widths, terminal_width);
            &&& end.len() == n
            &&& room == (if terminal_width > 3 * n + 1 {
                terminal_width - (3 * n + 1)
            } else {
                0
            })
            &&& room > 0 && total(widths) <= room ==> end == widths
            &&& room == 0 ==> end[i] == 1
            &&& room > 0 && total(widths) > room ==> {
                &&& 1 <= end[i]
                &&& end[i] <= widths[i] || (end[i] == 1 && widths[i] == 0)
                &&& end[i] <= 4 || end[i] * n <= room
                &&& forall|j: int|
                    0 <= j < n && end[i] < widths[i] && end[i] < 4 ==> #[trigger] end[j] <= end[i]
                        + 1
            }
        }),
{
    let n = widths.len();
    let room = cell_room(n, terminal_width);
    if room > 0 && total(widths) > room {
        let share = room / n;
        let cap = if share < 4 {
            4usize
        } else {
            share as usize
        };
        assert(share * n <= room) by (nonlinear_arith)
            requires
                n > 0,
                share == room / n,
        ;
        assert(share <= room) by (nonlinear_arith)
            requires
                n > 0,
                share == room / n,
        ;
        let first = widths.map_values(|w: usize| capped(w, cap));
        assert forall|k: int| 0 <= k < first.len() implies #[trigger] first[k] >= 1 by {
            assert(first[k] == capped(widths[k], cap));
        }
        lemma_narrowed_evenly(first, room);
        let end = constrained(widths, terminal_width);
        assert(end == narrowed(first, room));
        assert(first[i] == capped(widths[i], cap));
        assert(end[i] <= first[i]);
        if end[i] > 4 {
            assert(end[i] <= share);
            assert(end[i] * n <= share * n) by (nonlinear_arith)
                requires
                    end[i] <= share,
            ;
        }
    }
}

proof fn lemma_repeat_len(s: Seq<char>, n: nat)
    requires
        s.len() == 1,
    ensures
        repeat(s, n).len() == n,
        forall|i: int| 0 <= i < n ==> #[trigger] repeat(s, n)[i] == s[0],
    decreases n,
{
    if n > 0 {
        lemma_repeat_len(s, (n - 1) as nat);
    }
}

proof fn lemma_border_middle(middle: char, widths: Seq<usize>)
    requires
        forall|i: int| 0 <= i < widths.len() ==> #[trigger] widths[i] + 2 <= usize::MAX,
    ensures
        widths.len() > 0 ==> border_middle(middle, widths).len() == total(widths) + 3
            * widths.len() - 1,
        widths.len() == 0 ==> border_middle(middle, widths).len() == 0,
    decreases widths.len(),
{
    reveal_strlit("─");
    if widths.len() > 0 {
        assert forall|i: int| 0 <= i < widths.drop_last().len() implies #[trigger] widths.drop_last()[i]
            + 2 <= usize::MAX by {
            assert(widths.drop_last()[i] == widths[i]);
        }
        lemma_border_middle(middle, widths.drop_last());
        lemma_repeat_len("─"@, saturated(widths.last() + 2) as nat);
    }
}

/// A rule is one piece that starts and ends with its corners. It is as long as the cells with a
/// blank on either side, and the lines between and around them.
pub proof fn law_rules_span_the_table(left: char, middle: char, right: char, widths: Seq<usize>)
    requires
        widths.len() > 0,
        forall|i: int| 0 <= i < widths.len() ==> #[trigger] widths[i] + 2 <= usize::MAX,
    ensures
        ({
            let rule = border(left, middle, right, widths);
            &&& rule.len() == 1
            &&& rule[0].style.fg == Some(Color::DarkGray)
            &&& rule[0].content[0] == left
            &&& rule[0].content.last() == right
            &&& rule[0].content.len() == total(widths) + 3 * widths.len() + 1
        }),
{
    lemma_border_middle(middle, widths);
}

/// With one more column a rule has one more joint, unless it is the first column, and a line that
/// is two longer than the column is wide.
pub proof fn law_rules_join_their_columns(middle: char, widths: Seq<usize>, width: usize, i: int)
    requires
        width + 2 <= usize::MAX,
    ensures
        ({
            let before = border_middle(middle, widths);
            let after = border_middle(middle, widths.push(width));
            let from = before.len() + (if widths.len() > 0 {
                1int
            } else {
                0
            });
            &&& after.len() == from + width + 2
            &&& after.take(before.len() as int) == before
            &&& widths.len() > 0 ==> after[before.len() as int] == middle
            &&& from <= i < after.len() ==> after[i] == '─'
        }),
{
    reveal_strlit("─");
    assert(widths.push(width).drop_last() =~= widths);
    lemma_repeat_len("─"@, (width + 2) as nat);
    let before = border_middle(middle, widths);
    assert(border_middle(middle, widths.push(width)).take(before.len() as int) =~= before);
}

/// What is free of a column stands left of a cell that is aligned to the right, on both sides of
/// one in the middle, where the right side gets the odd blank, and right of every other. There is
/// nothing free where the cell is as wide as the column.
pub proof fn law_cells_are_aligned(column: usize, cell: usize)
    ensures
        column <= cell ==> forall|a: Option<CellAlignment>|
            (#[trigger] padding(column, cell, a)).0 == 0 && padding(column, cell, a).1 == 0,
        column > cell ==> {
            let free = column - cell;
            &&& padding(column, cell, Some(CellAlignment::Right)).0 == free
            &&& padding(column, cell, Some(CellAlignment::Right)).1 == 0
            &&& padding(column, cell, Some(CellAlignment::Left)).0 == 0
            &&& padding(column, cell, Some(CellAlignment::Left)).1 == free
            &&& padding(column, cell, None).0 == 0
            &&& padding(column, cell, None).1 == free
            &&& ({
                let (l, r) = padding(column, cell, Some(CellAlignment::Center));
                l + r == free && (l == r || l + 1 == r)
            })
        },
{
}

proof fn lemma_text_of_sum(a: Seq<SpanModel>, b: Seq<SpanModel>)
    ensures
        text_of(a + b) == text_of(a) + text_of(b),
    decreases b.len(),
{
    if b.len() == 0 {
        assert(a + b =~= a);
        assert(text_of(a) + text_of(b) =~= text_of(a));
    } else {
        lemma_text_of_sum(a, b.drop_last());
        assert((a + b).drop_last() =~= a + b.drop_last());
        assert(text_of(a) + text_of(b) =~= (text_of(a) + text_of(b.drop_last()))
            + b.last().content);
    }
}

proof fn lemma_blanks(n: nat)
    ensures
        text_of(blanks(n)) == repeat(" "@, n),
{
    if n > 0 {
        let one = seq![span(repeat(" "@, n), crate::ui::style::Style::normal())];
        assert(one.drop_last() =~= Seq::<SpanModel>::empty());
        assert(text_of(Seq::<SpanModel>::empty()) =~= Seq::empty());
        assert(text_of(one) =~= repeat(" "@, n));
    } else {
        assert(text_of(blanks(n)) =~= repeat(" "@, n));
    }
}

proof fn lemma_pieces_text(line: Seq<SpanModel>, is_header: bool)
    ensures
        text_of(cell_pieces(line, is_header)) == text_of(line),
    decreases line.len(),
{
    if line.len() > 0 {
        lemma_pieces_text(line.drop_last(), is_header);
        assert(cell_pieces(line, is_header).drop_last() =~= cell_pieces(
            line.drop_last(),
            is_header,
        ));
    } else {
        assert(cell_pieces(line, is_header) =~= line);
    }
}

/// A cell shows its text unchanged between the blanks that fill the column. In the first row its
/// pieces are bold and of the headings' colour, and elsewhere they are drawn as they are.
pub proof fn law_cells_show_their_text(
    line: Seq<SpanModel>,
    width: usize,
    alignment: Option<CellAlignment>,
    is_header: bool,
)
    ensures
        ({
            let (l, r) = padding(width, text_columns(text_of(line)), alignment);
            text_of(cell_part(line, width, alignment, is_header)) == repeat(" "@, l) + text_of(
                line,
            ) + repeat(" "@, r)
        }),
        cell_pieces(line, is_header).len() == line.len(),
        !is_header ==> cell_pieces(line, is_header) == line,
        is_header ==> forall|i: int|
            0 <= i < line.len() ==> (#[trigger] cell_pieces(line, is_header)[i]).content
                == line[i].content && cell_pieces(line, is_header)[i].style.bold
                && cell_pieces(line, is_header)[i].style.fg == Some(Color::Cyan)
                && cell_pieces(line, is_header)[i].style.italic == line[i].style.italic
                && cell_pieces(line, is_header)[i].style.underlined == line[i].style.underlined
                && cell_pieces(line, is_header)[i].style.crossed_out == line[i].style.crossed_out
                && cell_pieces(line, is_header)[i].style.bg == line[i].style.bg,
{
    let (l, r) = padding(width, text_columns(text_of(line)), alignment);
    let pieces = cell_pieces(line, is_header);
    lemma_blanks(l);
    lemma_blanks(r);
    lemma_pieces_text(line, is_header);
    lemma_text_of_sum(blanks(l), pieces);
    lemma_text_of_sum(blanks(l) + pieces, blanks(r));
}

/// A row is as high as its highest cell, and never without a line.
pub proof fn law_rows_are_as_high_as_their_cells(cells: Seq<Seq<Seq<SpanModel>>>)
    ensures
        tallest(cells) >= 1,
        forall|i: int| 0 <= i < cells.len() ==> #[trigger] cells[i].len() <= tallest(cells),
        tallest(cells) == 1 || exists|i: int|
            0 <= i < cells.len() && #[trigger] cells[i].len() == tallest(cells),
    decreases cells.len(),
{
    if cells.len() > 0 {
        let before = cells.drop_last();
        law_rows_are_as_high_as_their_cells(before);
        assert forall|i: int| 0 <= i < cells.len() implies #[trigger] cells[i].len() <= tallest(
            cells,
        ) by {
            if i < before.len() {
                assert(before[i] == cells[i]);
            }
        }
        if tallest(cells) > 1 {
            if tallest(cells) == tallest(before) {
                let i = choose|i: int|
                    0 <= i < before.len() && #[trigger] before[i].len() == tallest(before);
                assert(cells[i] == before[i]);
            } else {
                assert(cells[cells.len() - 1].len() == tallest(cells));
            }
        }
    }
}

/// A cell is broken at the width of its column, and a cell that a row lacks is empty.
pub proof fn law_cells_are_broken_at_their_columns(
    row: Seq<Seq<SpanModel>>,
    widths: Seq<usize>,
    i: int,
)
    requires
        0 <= i < widths.len(),
    ensures
        cell_lines(row, widths).len() == widths.len(),
        i < row.len() ==> cell_lines(row, widths)[i] == wrapped(row[i], widths[i]),
        i >= row.len() ==> cell_lines(row, widths)[i] == wrapped(
            Seq::<SpanModel>::empty(),
            widths[i],
        ),
{
}

proof fn lemma_row_line_grows(
    cells: Seq<Seq<Seq<SpanModel>>>,
    widths: Seq<usize>,
    alignments: Seq<CellAlignment>,
    is_header: bool,
    k: int,
    n: nat,
    m: nat,
)
    requires
        n <= m,
    ensures
        row_line_upto(cells, widths, alignments, is_header, k, n).len() <= row_line_upto(
            cells,
            widths,
            alignments,
            is_header,
            k,
            m,
        ).len(),
        row_line_upto(cells, widths, alignments, is_header, k, m).take(
            row_line_upto(cells, widths, alignments, is_header, k, n).len() as int,
        ) == row_line_upto(cells, widths, alignments, is_header, k, n),
    decreases m,
{
    let some = row_line_upto(cells, widths, alignments, is_header, k, n);
    let more = row_line_upto(cells, widths, alignments, is_header, k, m);
    if n < m {
        lemma_row_line_grows(cells, widths, alignments, is_header, k, n, (m - 1) as nat);
        let before = row_line_upto(cells, widths, alignments, is_header, k, (m - 1) as nat);
        assert(more.take(before.len() as int) =~= before);
        assert(more.take(some.len() as int) =~= before.take(some.len() as int));
    } else {
        assert(more.take(some.len() as int) =~= some);
    }
}

/// A line of a row stands between the lines of the frame. Its cells come in the order of the
/// columns, each aligned as its column is and showing that line of the cell, with a rule between
/// two of them.
pub proof fn law_row_lines_show_their_cells(
    cells: Seq<Seq<Seq<SpanModel>>>,
    widths: Seq<usize>,
    alignments: Seq<CellAlignment>,
    is_header: bool,
    k: int,
    i: int,
) -> (from: int)
    requires
        0 <= i < widths.len(),
    ensures
        ({
            let line = row_line(cells, widths, alignments, is_header, k);
            let part = cell_part(
                cell_at(cells[i], k),
                widths[i],
                item(alignments, i),
                is_header,
            );
            &&& line[0].content == "│ "@
            &&& line.last().content == " │"@
            &&& line[0].style.fg == Some(Color::DarkGray)
            &&& 1 <= from && from + part.len() <= line.len() - 1
            &&& line.subrange(from, from + part.len()) == part
            &&& i == 0 ==> from == 1
            &&& i > 0 ==> line[from - 1].content == " │ "@
            &&& i == widths.len() - 1 ==> from + part.len() == line.len() - 1
        }),
{
    let before = row_line_upto(cells, widths, alignments, is_header, k, i as nat);
    let after = row_line_upto(cells, widths, alignments, is_header, k, (i + 1) as nat);
    let all = row_line_upto(cells, widths, alignments, is_header, k, widths.len());
    let line = row_line(cells, widths, alignments, is_header, k);
    let part = cell_part(cell_at(cells[i], k), widths[i], item(alignments, i), is_header);
    lemma_row_line_grows(cells, widths, alignments, is_header, k, 0, i as nat);
    lemma_row_line_grows(cells, widths, alignments, is_header, k, 0, widths.len());
    lemma_row_line_grows(cells, widths, alignments, is_header, k, (i + 1) as nat, widths.len());
    let first = row_line_upto(cells, widths, alignments, is_header, k, 0);
    assert(first.len() == 1);
    assert(all[0] == all.take(1)[0]);
    assert(line[0] == all[0]);
    let from = after.len() - part.len();
    assert(after.subrange(from, from + part.len()) =~= part);
    assert(line.subrange(from, from + part.len()) =~= all.take(after.len() as int).subrange(
        from,
        from + part.len(),
    ));
    if i > 0 {
        assert(line[from - 1] == all.take(after.len() as int)[from - 1]);
        assert(after[from - 1] == before.push(span(" │ "@, crate::ui::table::frame_style()))[from
            - 1]);
    }
    from
}

/// A row has a line for each line of its highest cell.
pub proof fn law_rows_show_every_line(
    row: Seq<Seq<SpanModel>>,
    widths: Seq<usize>,
    alignments: Seq<CellAlignment>,
    is_header: bool,
    k: int,
)
    requires
        0 <= k < tallest(cell_lines(row, widths)),
    ensures
        row_lines(row, widths, alignments, is_header).len() == tallest(cell_lines(row, widths)),
        row_lines(row, widths, alignments, is_header)[k] == row_line(
            cell_lines(row, widths),
            widths,
            alignments,
            is_header,
            k,
        ),
{
}

proof fn lemma_body_grows(
    rows: Seq<Seq<Seq<SpanModel>>>,
    widths: Seq<usize>,
    alignments: Seq<CellAlignment>,
    n: nat,
    m: nat,
)
    requires
        n <= m,
    ensures
        body_upto(rows, widths, alignments, n).len() <= body_upto(
            rows,
            widths,
            alignments,
            m,
        ).len(),
        body_upto(rows, widths, alignments, m).take(
            body_upto(rows, widths, alignments, n).len() as int,
        ) == body_upto(rows, widths, alignments, n),
    decreases m,
{
    let some = body_upto(rows, widths, alignments, n);
    let more = body_upto(rows, widths, alignments, m);
    if n < m {
        lemma_body_grows(rows, widths, alignments, n, (m - 1) as nat);
        let before = body_upto(rows, widths, alignments, (m - 1) as nat);
        assert(more.take(before.len() as int) =~= before);
        assert(more.take(some.len() as int) =~= before.take(some.len() as int));
    } else {
        assert(more.take(some.len() as int) =~= some);
    }
}

/// A table without cells is not drawn. Any other stands between a rule above and one below; its
/// rows come in order with a rule between two of them, and the first is drawn as the heading.
pub proof fn law_tables_show_their_rows(
    rows: Seq<Seq<Seq<SpanModel>>>,
    alignments: Seq<CellAlignment>,
    terminal_width: usize,
    n: int,
) -> (from: int)
    requires
        0 <= n < rows.len(),
    ensures
        longest_row(rows) == 0 ==> table_lines(rows, alignments, terminal_width).len() == 0,
        longest_row(rows) > 0 ==> ({
            let lines = table_lines(rows, alignments, terminal_width);
            let widths = constrained(natural_widths(rows), terminal_width);
            let row = row_lines(rows[n], widths, alignments, n == 0);
            &&& lines[0] == border('┌', '┬', '┐', widths)
            &&& lines.last() == border('└', '┴', '┘', widths)
            &&& 1 <= from && from + row.len() <= lines.len() - 1
            &&& lines.subrange(from, from + row.len()) == row
            &&& n == 0 ==> from == 1
            &&& n + 1 < rows.len() ==> from + row.len() < lines.len() - 1 && lines[from
                + row.len()] == border('├', '┼', '┤', widths)
            &&& n + 1 == rows.len() ==> from + row.len() == lines.len() - 1
            &&& n > 0 ==> lines[from - 1] == border('├', '┼', '┤', widths)
        }),
{
    let lines = table_lines(rows, alignments, terminal_width);
    let widths = constrained(natural_widths(rows), terminal_width);
    let row = row_lines(rows[n], widths, alignments, n == 0);
    let before = body_upto(rows, widths, alignments, n as nat);
    let after = body_upto(rows, widths, alignments, (n + 1) as nat);
    let all = body_upto(rows, widths, alignments, rows.len());
    lemma_body_grows(rows, widths, alignments, (n + 1) as nat, rows.len());
    lemma_body_grows(rows, widths, alignments, n as nat, (n + 1) as nat);
    let b = before.len() as int;
    let h = row.len() as int;
    let from = b + 1;
    if longest_row(rows) > 0 {
        assert(after.subrange(b, b + h) =~= row);
        assert(lines.subrange(from, from + h) =~= all.take(after.len() as int).subrange(b, b + h));
        if n + 1 < rows.len() {
            assert(lines[from + h] == all.take(after.len() as int)[b + h]);
        }
        if n > 0 {
            assert(before.last() == border('├', '┼', '┤', widths));
            assert(lines[from - 1] == all.take(after.len() as int)[b - 1]);
            assert(after.take(b)[b - 1] == before.last());
        }
    }
    from
}

} // verus!
