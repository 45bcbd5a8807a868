//! How file changes are drawn and counted.
use crate::text::{decimal, starts_with};
use crate::ui::diff::{
    added_style, deleted_style, diff_rows, diff_so_far, diff_step, gutter, hunk_start,
    right_aligned, summary_text, DiffPosition, SummaryModel, Summing,
};
use crate::ui::style::{Color, SpanModel, Style};
use vstd::prelude::*;

verus! {

/// Whether a line belongs to a hunk: it is added, deleted or there before and after.
pub open spec fn hunk_line(line: Seq<char>) -> bool {
    line.len() > 0 && (line[0] == '+' || line[0] == '-' || line[0] == ' ')
}

/// Whether every line belongs to a hunk.
pub open spec fn hunk_lines(lines: Seq<Seq<char>>) -> bool {
    forall|i: int| 0 <= i < lines.len() ==> hunk_line(#[trigger] lines[i])
}

/// How many lines begin with a character.
pub open spec fn beginning_with(lines: Seq<Seq<char>>, sign: char) -> nat
    decreases lines.len(),
{
    if lines.len() == 0 {
        0
    } else {
        beginning_with(lines.drop_last(), sign) + if lines.last().len() > 0 && lines.last()[0]
            == sign {
            1nat
        } else {
            0nat
        }
    }
}

proof fn lemma_first_character(s: Seq<char>, p: Seq<char>)
    requires
        p.len() > 0,
    ensures
        starts_with(s, p) ==> s.len() > 0 && s[0] == p[0],
        p.len() == 1 && s.len() > 0 && s[0] == p[0] ==> starts_with(s, p),
{
    if starts_with(s, p) {
        assert(s.subrange(0, p.len() as int)[0] == p[0]);
    }
    if p.len() == 1 && s.len() > 0 && s[0] == p[0] {
        assert(s.subrange(0, 1) =~= p);
    }
}

proof fn lemma_signs(line: Seq<char>)
    ensures
        starts_with(line, "diff --git "@) ==> line.len() > 0 && line[0] == 'd',
        starts_with(line, "--- "@) ==> line.len() > 0 && line[0] == '-',
        starts_with(line, "+++ "@) ==> line.len() > 0 && line[0] == '+',
        starts_with(line, "@@"@) ==> line.len() > 0 && line[0] == '@',
        starts_with(line, "\\ No newline"@) ==> line.len() > 0 && line[0] == '\\',
        starts_with(line, "+"@) <==> line.len() > 0 && line[0] == '+',
        starts_with(line, "-"@) <==> line.len() > 0 && line[0] == '-',
        starts_with(line, " "@) <==> line.len() > 0 && line[0] == ' ',
{
    reveal_strlit("diff --git ");
    reveal_strlit("--- ");
    reveal_strlit("+++ ");
    reveal_strlit("@@");
    reveal_strlit("\\ No newline");
    reveal_strlit("+");
    reveal_strlit("-");
    reveal_strlit(" ");
    lemma_first_character(line, "diff --git "@);
    lemma_first_character(line, "--- "@);
    lemma_first_character(line, "+++ "@);
    lemma_first_character(line, "@@"@);
    lemma_first_character(line, "\\ No newline"@);
    lemma_first_character(line, "+"@);
    lemma_first_character(line, "-"@);
    lemma_first_character(line, " "@);
}

/// In a hunk that starts at an old and a new line, the drawing is at the old start plus the deleted
/// and the kept lines that came, and at the new start plus the added and the kept ones.
proof fn lemma_hunk_position(
    above: Seq<Seq<char>>,
    header: Seq<char>,
    lines: Seq<Seq<char>>,
    width: u16,
)
    requires
        starts_with(header, "@@"@),
        hunk_start(header) is Some,
        hunk_lines(lines),
        (hunk_start(header)->0).0 + lines.len() <= usize::MAX,
        (hunk_start(header)->0).1 + lines.len() <= usize::MAX,
    ensures
        ({
            let at = diff_so_far(above.push(header) + lines, width).0;
            let (old_start, new_start) = hunk_start(header)->0;
            &&& at.in_hunk
            &&& at.old_line is Some
            &&& at.new_line is Some
            &&& at.old_line->0 == old_start + beginning_with(lines, '-') + beginning_with(
                lines,
                ' ',
            )
            &&& at.new_line->0 == new_start + beginning_with(lines, '+') + beginning_with(
                lines,
                ' ',
            )
            &&& beginning_with(lines, '+') + beginning_with(lines, '-') + beginning_with(lines, ' ')
                == lines.len()
        }),
    decreases lines.len(),
{
    let all = above.push(header) + lines;
    if lines.len() == 0 {
        assert(all =~= above.push(header));
        assert(all.drop_last() =~= above);
        lemma_signs(header);
    } else {
        let front = lines.drop_last();
        assert(hunk_lines(front)) by {
            assert forall|i: int| 0 <= i < front.len() implies hunk_line(#[trigger] front[i]) by {
                assert(lines[i] == front[i]);
            }
        }
        lemma_hunk_position(above, header, front, width);
        assert(all.drop_last() =~= above.push(header) + front);
        assert(all.last() == lines.last());
        assert(hunk_line(lines[lines.len() - 1]));
        lemma_signs(lines.last());
    }
}

/// Lines of a hunk are numbered one after another. An added line, and one that is there before and
/// after, is drawn with the number at which the hunk starts in the new file plus the added and kept
/// lines before it; a deleted one with the number at which it starts in the old file plus the
/// deleted and kept lines before it.
pub proof fn law_hunk_lines_are_numbered(
    above: Seq<Seq<char>>,
    header: Seq<char>,
    lines: Seq<Seq<char>>,
    next: Seq<char>,
    width: u16,
)
    requires
        starts_with(header, "@@"@),
        hunk_start(header) is Some,
        hunk_lines(lines),
        hunk_line(next),
        (hunk_start(header)->0).0 + lines.len() <= usize::MAX,
        (hunk_start(header)->0).1 + lines.len() <= usize::MAX,
    ensures
        ({
            let (old_start, new_start) = hunk_start(header)->0;
            let kept = beginning_with(lines, ' ');
            let in_old = (old_start + beginning_with(lines, '-') + kept) as usize;
            let in_new = (new_start + beginning_with(lines, '+') + kept) as usize;
            let diff = above.push(header) + lines;
            let drawn = diff_so_far(diff.push(next), width).1;
            let drawn_before = diff_so_far(diff, width).1;
            &&& in_old == old_start + beginning_with(lines, '-') + kept
            &&& in_new == new_start + beginning_with(lines, '+') + kept
            &&& next[0] == '+' ==> drawn == drawn_before + diff_rows(
                next.skip(1),
                width,
                Some(in_new),
                '+',
                Color::Green,
                added_style(),
            )
            &&& next[0] == '-' ==> drawn == drawn_before + diff_rows(
                next.skip(1),
                width,
                Some(in_old),
                '-',
                Color::Red,
                deleted_style(),
            )
            &&& next[0] == ' ' ==> drawn == drawn_before + diff_rows(
                next.skip(1),
                width,
                Some(in_new),
                ' ',
                Color::DarkGray,
                Style::colored(Color::Gray),
            )
        }),
{
    lemma_hunk_position(above, header, lines, width);
    lemma_signs(next);
    let diff = above.push(header) + lines;
    assert(diff.push(next).drop_last() =~= diff);
}

/// The number of a line stands before it, at the right of at least four columns, with a blank and
/// the sign of the line behind it; the further rows of a long line show blanks in its place. On a
/// narrow terminal only the sign is shown.
pub proof fn law_numbers_stand_before_their_lines(
    text: Seq<char>,
    width: u16,
    number: usize,
    sign: char,
    color: Color,
    style: Style,
    i: int,
)
    requires
        0 <= i < diff_rows(text, width, Some(number), sign, color, style).len(),
    ensures
        ({
            let row = diff_rows(text, width, Some(number), sign, color, style)[i];
            let digits = decimal(number as nat);
            &&& row.len() >= 3
            &&& row[0].content.len() == 2
            &&& i == 0 && width >= 16 ==> row[1].content.len() == (if digits.len() < 4 {
                4nat
            } else {
                digits.len()
            }) + 2
            &&& i == 0 && width >= 16 ==> row[1].content.subrange(
                row[1].content.len() - 2 - digits.len(),
                row[1].content.len() - 2,
            ) == digits
            &&& i == 0 && width >= 16 ==> row[1].content[row[1].content.len() - 2] == ' '
            &&& i == 0 ==> row[1].content.last() == sign
            &&& i == 0 && width < 16 ==> row[1].content.len() == 1
            &&& row[1].style.fg == Some(color)
            &&& row[2].style == style
        }),
{
    reveal_strlit(" ");
    let digits = decimal(number as nat);
    let before = gutter(width, Some(number), sign);
    lemma_blanks(2);
    if digits.len() < 4 {
        lemma_blanks((4 - digits.len()) as nat);
    }
    if width >= 16 {
        assert(before.subrange(before.len() - 2 - digits.len(), before.len() - 2) =~= digits);
    }
}

proof fn lemma_blanks(n: nat)
    ensures
        crate::words::repeat(" "@, n).len() == n,
    decreases n,
{
    reveal_strlit(" ");
    if n > 0 {
        lemma_blanks((n - 1) as nat);
    }
}

/// The summary of a file counts its added and its deleted lines, each once, and no other line.
pub proof fn law_changed_lines_are_counted(
    done: Seq<SummaryModel>,
    file: SummaryModel,
    lines: Seq<Seq<char>>,
)
    requires
        hunk_lines(lines),
        forall|i: int|
            0 <= i < lines.len() ==> !starts_with(#[trigger] lines[i], "+++"@) && !starts_with(
                lines[i],
                "---"@,
            ),
        file.added + lines.len() <= usize::MAX,
        file.deleted + lines.len() <= usize::MAX,
    ensures
        ({
            let after = (Summing { done, current: Some(file) }).all(lines);
            &&& after.done == done
            &&& after.current is Some
            &&& (after.current->0).path == file.path
            &&& (after.current->0).hunks == file.hunks
            &&& (after.current->0).added == file.added + beginning_with(lines, '+')
            &&& (after.current->0).deleted == file.deleted + beginning_with(lines, '-')
            &&& beginning_with(lines, '+') <= lines.len()
            &&& beginning_with(lines, '-') <= lines.len()
        }),
    decreases lines.len(),
{
    if lines.len() > 0 {
        let front = lines.drop_last();
        assert forall|i: int| 0 <= i < front.len() implies hunk_line(#[trigger] front[i])
            && !starts_with(front[i], "+++"@) && !starts_with(front[i], "---"@) by {
            assert(lines[i] == front[i]);
        }
        law_changed_lines_are_counted(done, file, front);
        let last = lines.last();
        assert(last == lines[lines.len() - 1]);
        assert(hunk_line(last) && !starts_with(last, "+++"@) && !starts_with(last, "---"@));
        lemma_signs(last);
        lemma_headers_have_three_signs(last);
    }
}

proof fn lemma_headers_have_three_signs(line: Seq<char>)
    ensures
        starts_with(line, "+++ "@) ==> starts_with(line, "+++"@),
        starts_with(line, "--- "@) ==> starts_with(line, "---"@),
{
    reveal_strlit("+++ ");
    reveal_strlit("+++");
    reveal_strlit("--- ");
    reveal_strlit("---");
    if starts_with(line, "+++ "@) {
        assert(line.subrange(0, 3) =~= line.subrange(0, 4).take(3));
        assert("+++ "@.take(3) =~= "+++"@);
    }
    if starts_with(line, "--- "@) {
        assert(line.subrange(0, 3) =~= line.subrange(0, 4).take(3));
        assert("--- "@.take(3) =~= "---"@);
    }
}

/// The head of a hunk counts one hunk more and no line.
pub proof fn law_hunks_are_counted(done: Seq<SummaryModel>, file: SummaryModel, header: Seq<char>)
    requires
        starts_with(header, "@@"@),
        file.hunks < usize::MAX,
    ensures
        ({
            let after = (Summing { done, current: Some(file) }).line(header);
            &&& after.done == done
            &&& after.current is Some
            &&& (after.current->0).hunks == file.hunks + 1
            &&& (after.current->0).added == file.added
            &&& (after.current->0).deleted == file.deleted
            &&& (after.current->0).path == file.path
        }),
{
    lemma_signs(header);
}

} // verus!
