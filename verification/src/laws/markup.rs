//! What drawing Markdown promises, event by event: where text goes and in which style, how lists,
//! quotes, tables and code are kept apart, and how code is coloured line by line.
use super::texts::{law_trimming_a_character, lemma_nothing_replaced};
use crate::text::{decimal, trim_end_char};
use crate::ui::code::{
    code_lines, code_lines_so_far, colored, colored_line, highlighted, highlighted_code,
    line_in_state, state_after, syntax_for, syntax_of_extension, syntax_of_plain_text,
    syntax_of_token, Highlighting, PieceModel,
};
use crate::ui::markdown::{
    all_behind, all_wrapped, behind, normalized, quote_marks, rendered, room_beside, CodeModel,
    Prefix, RenderModel, TableModel,
};
use crate::ui::markdown_source::{
    alignment_for, block_tag, block_tag_end, event_content, inline_tag, inline_tag_end,
    level_number, MarkdownModel, MarkdownTagEnd, RawBlockEnd, RawColumn, RawEvent, RawInline,
    RawInlineEnd, RawLevel, TagModel,
};
use crate::ui::style::{text_line, Color, SpanModel, Style};
use crate::ui::table::{table_lines, CellAlignment};
use crate::ui::width::text_columns;
use crate::ui::wrap::wrapped;
use crate::words::{repeat, replace};
use syntect::easy::HighlightLines;
use syntect::parsing::SyntaxSet;
use vstd::prelude::*;

verus! {

/// Whether what is open and what is remembered between the events is the same, but for the lines,
/// the open line, the code and the table.
pub open spec fn same_context(a: RenderModel, b: RenderModel) -> bool {
    &&& a.width == b.width
    &&& a.style == b.style
    &&& a.styles == b.styles
    &&& a.quotes == b.quotes
    &&& a.lists == b.lists
    &&& a.colors == b.colors
}

proof fn lemma_quote_marks(n: nat)
    ensures
        quote_marks(n).len() == n,
        forall|i: int|
            0 <= i < n ==> (#[trigger] quote_marks(n)[i]).content == "│ "@ && quote_marks(
                n,
            )[i].style.fg == Some(Color::DarkGray),
    decreases n,
{
    if n > 0 {
        lemma_quote_marks((n - 1) as nat);
    }
}

/// Text goes behind what stands on the open line, in the style that is open. On an empty line the
/// marks of the quotes come first, one for each.
pub proof fn law_text_goes_on_the_open_line(render: RenderModel, text: Seq<char>)
    requires
        render.code is None,
        render.table is None,
        normalized(text).len() > 0,
    ensures
        ({
            let after = render.event(MarkdownModel::Text(text));
            let front = after.current.drop_last();
            &&& after.current.len() > 0
            &&& after.current.last().content == normalized(text)
            &&& after.current.last().style == render.style
            &&& render.current.len() > 0 ==> front == render.current
            &&& render.current.len() == 0 ==> front.len() == render.quotes && forall|i: int|
                0 <= i < front.len() ==> (#[trigger] front[i]).content == "│ "@
            &&& after.lines == render.lines
            &&& after.code is None
            &&& after.table is None
            &&& same_context(after, render)
            &&& render.event(MarkdownModel::Html(text)) == after
        }),
{
    lemma_quote_marks(render.quotes as nat);
    let after = render.event(MarkdownModel::Text(text));
    assert(after.current.drop_last() =~= render.prefixed());
}

/// Inside a table text goes behind what stands in the open cell, in the style that is open.
pub proof fn law_text_goes_in_the_open_cell(render: RenderModel, text: Seq<char>)
    requires
        render.code is None,
        render.table is Some,
        normalized(text).len() > 0,
    ensures
        ({
            let after = render.event(MarkdownModel::Text(text));
            &&& after.table is Some
            &&& (after.table->0).cell.drop_last() == (render.table->0).cell
            &&& (after.table->0).cell.last().content == normalized(text)
            &&& (after.table->0).cell.last().style == render.style
            &&& (after.table->0).row == (render.table->0).row
            &&& (after.table->0).rows == (render.table->0).rows
            &&& (after.table->0).alignments == (render.table->0).alignments
            &&& after.lines == render.lines
            &&& after.current == render.current
            &&& after.code is None
            &&& same_context(after, render)
        }),
{
    let after = render.event(MarkdownModel::Text(text));
    assert((after.table->0).cell.drop_last() =~= (render.table->0).cell);
}

/// Code within a line is shown as it is written, in yellow on a light ground whatever is open.
pub proof fn law_code_within_lines(render: RenderModel, text: Seq<char>)
    requires
        render.code is None,
        render.table is None,
        text.len() > 0,
    ensures
        ({
            let after = render.event(MarkdownModel::Code(text));
            let style = after.current.last().style;
            &&& after.current.len() > 0
            &&& after.current.last().content == text
            &&& style.fg == Some(Color::Yellow)
            &&& style.bg == Some(Color::Rgb(249, 249, 249))
            &&& !style.bold && !style.italic && !style.underlined && !style.crossed_out
            &&& after.lines == render.lines
            &&& same_context(after, render)
        }),
{
}

/// A break ends the open line, which comes behind the lines that are done. An empty line is not
/// ended.
pub proof fn law_breaks_end_the_line(render: RenderModel)
    requires
        render.code is None,
    ensures
        ({
            let after = render.event(MarkdownModel::Break);
            &&& after.current.len() == 0
            &&& render.current.len() == 0 ==> after == render
            &&& render.current.len() > 0 ==> after.lines.drop_last() == render.lines
                && after.lines.last() == render.current
            &&& after.table == render.table
            &&& same_context(after, render)
            &&& render.event(MarkdownModel::End(MarkdownTagEnd::Paragraph)) == after
            &&& render.event(MarkdownModel::End(MarkdownTagEnd::Item)) == after
        }),
{
    let after = render.event(MarkdownModel::Break);
    if render.current.len() > 0 {
        assert(after.lines.drop_last() =~= render.lines);
    }
}

/// What the tags within a line add to the style, and that the style from before is remembered.
pub proof fn law_tags_add_to_the_style(render: RenderModel, level: u8)
    requires
        render.code is None,
    ensures
        ({
            let emphasis = render.event(MarkdownModel::Start(TagModel::Emphasis));
            let strong = render.event(MarkdownModel::Start(TagModel::Strong));
            let struck = render.event(MarkdownModel::Start(TagModel::Strikethrough));
            let link = render.event(MarkdownModel::Start(TagModel::Link));
            let heading = render.event(MarkdownModel::Start(TagModel::Heading(level)));
            &&& emphasis.style == Style { italic: true, ..render.style }
            &&& strong.style == Style { bold: true, ..render.style }
            &&& struck.style == Style { crossed_out: true, ..render.style }
            &&& link.style == Style { fg: Some(Color::Blue), underlined: true, ..render.style }
            &&& level <= 2 ==> heading.style == Style {
                fg: Some(Color::Cyan),
                bold: true,
                ..render.style
            }
            &&& level > 2 ==> heading.style == Style { bold: true, ..render.style }
            &&& emphasis.styles == render.styles.push(render.style)
            &&& strong.styles == render.styles.push(render.style)
            &&& struck.styles == render.styles.push(render.style)
            &&& link.styles == render.styles.push(render.style)
            &&& heading.styles == render.styles.push(render.style)
            &&& heading.lines == render.lines && heading.current == render.current
            &&& link.lines == render.lines && link.current == render.current
        }),
{
}

/// The end of such a tag brings back the style from before it. The end of a heading also ends the
/// line.
pub proof fn law_ends_of_tags_restore_the_style(render: RenderModel)
    requires
        render.code is None,
        render.styles.len() > 0,
    ensures
        ({
            let inline = render.event(MarkdownModel::End(MarkdownTagEnd::Inline));
            let heading = render.event(MarkdownModel::End(MarkdownTagEnd::Heading));
            &&& inline.style == render.styles.last()
            &&& inline.styles == render.styles.drop_last()
            &&& inline.current == render.current
            &&& inline.lines == render.lines
            &&& heading.style == render.styles.last()
            &&& heading.styles == render.styles.drop_last()
            &&& heading.current.len() == 0
            &&& render.current.len() > 0 ==> heading.lines == render.lines.push(render.current)
        }),
{
}

/// An item of a numbered list is marked with the next number, and one of another list with a dot.
/// Inner lists stand two blanks further in for each list around them.
pub proof fn law_items_are_marked(render: RenderModel)
    requires
        render.code is None,
        render.lists.len() > 0,
        render.current.len() > 0 || render.quotes == 0,
    ensures
        ({
            let after = render.event(MarkdownModel::Start(TagModel::Item));
            let depth = (render.lists.len() - 1) as nat;
            &&& after.current.len() > 0
            &&& after.current.last().style.fg == Some(Color::Cyan)
            &&& after.current.last().style.bold
            &&& render.lists.last() is None ==> after.current.last().content == "• "@
                && after.lists == render.lists
            &&& render.lists.last() is Some ==> {
                let n = render.lists.last()->0;
                &&& after.current.last().content == decimal(n as nat) + ". "@
                &&& after.lists.len() == render.lists.len()
                &&& after.lists.drop_last() == render.lists.drop_last()
                &&& n < u64::MAX ==> after.lists.last() == Some((n + 1) as u64)
                &&& n == u64::MAX ==> after.lists.last() == Some(n)
            }
            &&& depth == 0 ==> after.current.drop_last() == render.current
            &&& depth > 0 ==> after.current.drop_last().drop_last() == render.current
                && after.current.drop_last().last().content == repeat("  "@, depth)
            &&& after.lines == render.lines
            &&& after.style == render.style
            &&& after.quotes == render.quotes
        }),
{
    lemma_quote_marks(render.quotes as nat);
    let after = render.event(MarkdownModel::Start(TagModel::Item));
    let depth = (render.lists.len() - 1) as nat;
    assert(render.prefixed() =~= render.current);
    if render.lists.last() is Some {
        assert(after.lists.drop_last() =~= render.lists.drop_last());
    }
    if depth == 0 {
        assert(after.current.drop_last() =~= render.current);
    } else {
        assert(after.current.drop_last().drop_last() =~= render.current);
    }
}

/// A list is inside the lists that are open until it ends, which ends the line as well.
pub proof fn law_lists_are_nested(render: RenderModel, first: Option<u64>)
    requires
        render.code is None,
    ensures
        ({
            let inside = render.event(MarkdownModel::Start(TagModel::List(first)));
            let after = inside.event(MarkdownModel::End(MarkdownTagEnd::List));
            &&& inside.lists == render.lists.push(first)
            &&& inside.current == render.current
            &&& inside.lines == render.lines
            &&& after.lists == render.lists
            &&& after.current.len() == 0
            &&& render.current.len() > 0 ==> after.lines == render.lines.push(render.current)
        }),
{
    assert(render.lists.push(first).drop_last() =~= render.lists);
}

/// A quote ends the open line and is one deeper than what is around it, until it ends.
pub proof fn law_quotes_are_nested(render: RenderModel)
    requires
        render.code is None,
        render.quotes < usize::MAX,
    ensures
        ({
            let inside = render.event(MarkdownModel::Start(TagModel::BlockQuote));
            let after = inside.event(MarkdownModel::End(MarkdownTagEnd::BlockQuote));
            &&& inside.quotes == render.quotes + 1
            &&& inside.current.len() == 0
            &&& render.current.len() > 0 ==> inside.lines == render.lines.push(render.current)
            &&& render.current.len() == 0 ==> inside.lines == render.lines
            &&& inside.style == render.style
            &&& after.quotes == render.quotes
            &&& after.lines == inside.lines
        }),
{
}

/// A code block collects what comes until it ends, breaks as line ends and nothing else besides.
/// Its end puts the coloured code behind the lines.
pub proof fn law_code_blocks_collect_their_text(
    render: RenderModel,
    lang: Option<Seq<char>>,
    block: CodeModel,
    text: Seq<char>,
    other: TagModel,
)
    ensures
        render.code is None ==> {
            let inside = render.event(MarkdownModel::Start(TagModel::CodeBlock(lang)));
            &&& inside.code is Some
            &&& (inside.code->0).code.len() == 0
            &&& (inside.code->0).lang == (match lang {
                Some(name) => name,
                None => Seq::<char>::empty(),
            })
            &&& inside.current.len() == 0
            &&& render.current.len() > 0 ==> inside.lines == render.lines.push(render.current)
        },
        render.code == Some(block) ==> {
            let after = render.event(MarkdownModel::Text(text));
            let broken = render.event(MarkdownModel::Break);
            let end = render.event(MarkdownModel::End(MarkdownTagEnd::CodeBlock));
            &&& after.code is Some && (after.code->0).code == block.code + text
            &&& (after.code->0).lang == block.lang
            &&& after.lines == render.lines && after.current == render.current
            &&& render.event(MarkdownModel::Code(text)) == after
            &&& broken.code is Some && (broken.code->0).code == block.code.push('\n')
            &&& (broken.code->0).lang == block.lang
            &&& end.code is None
            &&& end.lines == render.lines + highlighted_code(render.colors, block.code, block.lang)
            &&& end.current == render.current
            &&& render.event(MarkdownModel::Start(other)) == render
            &&& render.event(MarkdownModel::Rule) == render
        },
{
    reveal_strlit("\n");
    assert(forall|s: Seq<char>| #[trigger] (s + "\n"@) =~= s.push('\n'));
}

/// A table begins without rows. A cell that ends comes behind the cells of its row, a row behind the
/// rows of its table, and the table's end puts its lines behind the lines.
pub proof fn law_tables_are_collected(
    render: RenderModel,
    alignments: Seq<CellAlignment>,
    table: TableModel,
)
    requires
        render.code is None,
    ensures
        ({
            let inside = render.event(MarkdownModel::Start(TagModel::Table(alignments)));
            &&& inside.table is Some
            &&& (inside.table->0).alignments == alignments
            &&& (inside.table->0).rows.len() == 0
            &&& inside.current.len() == 0
        }),
        render.table == Some(table) ==> {
            let cell = render.event(MarkdownModel::End(MarkdownTagEnd::TableCell));
            let row = render.event(MarkdownModel::End(MarkdownTagEnd::TableRow));
            let end = render.event(MarkdownModel::End(MarkdownTagEnd::Table));
            &&& (cell.table->0).row == table.row.push(table.cell)
            &&& (cell.table->0).rows == table.rows
            &&& (cell.table->0).cell.len() == 0
            &&& table.row.len() > 0 ==> (row.table->0).rows == table.rows.push(table.row)
                && (row.table->0).row.len() == 0
            &&& table.row.len() == 0 ==> row == render
            &&& (row.table->0).alignments == table.alignments
            &&& end.table is None
            &&& end.lines == render.lines + table_lines(
                table.rows,
                table.alignments,
                render.width,
            )
            &&& end.current == render.current
            &&& (render.event(MarkdownModel::Start(TagModel::TableRow)).table->0).row.len() == 0
            &&& (render.event(MarkdownModel::Start(TagModel::TableRow)).table->0).rows
                == table.rows
            &&& (render.event(MarkdownModel::Start(TagModel::TableCell)).table->0).cell.len() == 0
            &&& (render.event(MarkdownModel::Start(TagModel::TableCell)).table->0).row
                == table.row
        },
{
}

/// A rule is a line of its own, and a task is shown with a box that is ticked where it is done.
pub proof fn law_rules_and_tasks(render: RenderModel)
    requires
        render.code is None,
    ensures
        ({
            let after = render.event(MarkdownModel::Rule);
            &&& after.current.len() == 0
            &&& after.lines.len() == render.lines.len() + (if render.current.len() > 0 {
                2nat
            } else {
                1
            })
            &&& after.lines.last().len() == 1
            &&& render.current.len() > 0 ==> after.lines[after.lines.len() - 2] == render.current
        }),
        render.event(MarkdownModel::TaskListMarker(true)) == render.event(
            MarkdownModel::Text("[x] "@),
        ),
        render.event(MarkdownModel::TaskListMarker(false)) == render.event(
            MarkdownModel::Text("[ ] "@),
        ),
        render.event(MarkdownModel::Other) == render,
{
}

/// Events are drawn in the order in which they come.
pub proof fn law_events_are_drawn_in_order(
    render: RenderModel,
    a: Seq<MarkdownModel>,
    b: Seq<MarkdownModel>,
    one: MarkdownModel,
)
    ensures
        render.events(a + b) == render.events(a).events(b),
        render.events(seq![one]) == render.event(one),
        render.events(Seq::empty()) == render,
    decreases b.len(),
{
    assert(seq![one].drop_last() =~= Seq::<MarkdownModel>::empty());
    reveal_with_fuel(RenderModel::events, 2);
    if b.len() == 0 {
        assert(a + b =~= a);
    } else {
        law_events_are_drawn_in_order(render, a, b.drop_last(), one);
        assert((a + b).drop_last() =~= a + b.drop_last());
    }
}

/// Lines are broken one by one, in their order.
pub proof fn law_lines_are_broken_in_order(
    lines: Seq<Seq<SpanModel>>,
    line: Seq<SpanModel>,
    width: usize,
)
    ensures
        all_wrapped(lines.push(line), width) == all_wrapped(lines, width) + wrapped(line, width),
        all_wrapped(Seq::<Seq<SpanModel>>::empty(), width).len() == 0,
{
    assert(lines.push(line).drop_last() =~= lines);
}

/// A text begins with no line, the terminal's own style and nothing open. At its end the open line
/// is ended, and a code block that was never ended is shown.
pub proof fn law_what_is_open_at_the_end_is_shown(
    events: Seq<MarkdownModel>,
    width: usize,
    colors: Highlighting,
)
    ensures
        ({
            let start = RenderModel::start(width, colors);
            let end = start.events(events);
            let lines = end.lines + (if end.current.len() > 0 {
                seq![end.current]
            } else {
                Seq::<Seq<SpanModel>>::empty()
            }) + (match end.code {
                Some(block) => highlighted_code(colors, block.code, block.lang),
                None => Seq::<Seq<SpanModel>>::empty(),
            });
            &&& start.lines.len() == 0 && start.current.len() == 0 && start.styles.len() == 0
            &&& start.quotes == 0 && start.lists.len() == 0
            &&& start.code is None && start.table is None
            &&& start.style == Style::normal()
            &&& rendered(events, width, colors) == all_wrapped(lines, width)
        }),
{
    let start = RenderModel::start(width, colors);
    let end = start.events(events);
    lemma_colors_stay(start, events);
    let closed = end.end_line().end_code();
    let lines = end.lines + (if end.current.len() > 0 {
        seq![end.current]
    } else {
        Seq::<Seq<SpanModel>>::empty()
    }) + (match end.code {
        Some(block) => highlighted_code(colors, block.code, block.lang),
        None => Seq::<Seq<SpanModel>>::empty(),
    });
    assert(closed.lines =~= lines);
}

proof fn lemma_colors_stay(render: RenderModel, events: Seq<MarkdownModel>)
    ensures
        render.events(events).colors == render.colors,
    decreases events.len(),
{
    if events.len() > 0 {
        lemma_colors_stay(render, events.drop_last());
    }
}

proof fn lemma_code_lines_behind(a: Seq<char>, b: Seq<char>)
    ensures
        code_lines_so_far(a.push('\n') + b).0 == code_lines_so_far(a).0.push(
            trim_end_char(code_lines_so_far(a).1, '\r'),
        ) + code_lines_so_far(b).0,
        code_lines_so_far(a.push('\n') + b).1 == code_lines_so_far(b).1,
    decreases b.len(),
{
    let all = a.push('\n') + b;
    let done = code_lines_so_far(a).0.push(trim_end_char(code_lines_so_far(a).1, '\r'));
    if b.len() == 0 {
        assert(all =~= a.push('\n'));
        assert(all.drop_last() =~= a);
        assert(code_lines_so_far(all).0 =~= done + code_lines_so_far(b).0);
        assert(code_lines_so_far(all).1 =~= code_lines_so_far(b).1);
    } else {
        lemma_code_lines_behind(a, b.drop_last());
        assert(all.drop_last() =~= a.push('\n') + b.drop_last());
        assert(code_lines_so_far(all).0 =~= done + code_lines_so_far(b).0);
    }
}

proof fn lemma_one_code_line(a: Seq<char>)
    requires
        forall|i: int| 0 <= i < a.len() ==> #[trigger] a[i] != '\n',
    ensures
        code_lines_so_far(a).0.len() == 0,
        code_lines_so_far(a).1 == a,
    decreases a.len(),
{
    if a.len() > 0 {
        assert forall|i: int| 0 <= i < a.drop_last().len() implies #[trigger] a.drop_last()[i]
            != '\n' by {
            assert(a.drop_last()[i] == a[i]);
        }
        lemma_one_code_line(a.drop_last());
        assert(a.drop_last().push(a.last()) =~= a);
    }
}

/// What stands before the first line end of some code is its first line, without carriage returns
/// at its end, and the lines of the rest follow. Code without a line end is one line, or none if it
/// is empty.
pub proof fn law_line_ends_divide_code(a: Seq<char>, b: Seq<char>)
    requires
        forall|i: int| 0 <= i < a.len() ==> #[trigger] a[i] != '\n',
    ensures
        ({
            let all = code_lines(a.push('\n') + b);
            &&& all.len() > 0
            &&& all.drop_first() == code_lines(b)
            &&& a.len() == 0 || a.last() != '\r' ==> all[0] == a
            &&& all[0].is_prefix_of(a)
            &&& all[0].len() > 0 ==> all[0].last() != '\r'
        }),
        a.len() > 0 && a.last() != '\r' ==> code_lines(a) == seq![a],
        code_lines(Seq::<char>::empty()).len() == 0,
{
    lemma_one_code_line(a);
    lemma_code_lines_behind(a, b);
    let _ = law_trimming_a_character(a, '\r');
    assert(code_lines(a.push('\n') + b).drop_first() =~= code_lines(b));
}

/// A line of code shows its pieces in order, each in its colour. One that cannot be read is shown
/// plain.
pub proof fn law_pieces_of_code_keep_their_colors(
    line: Seq<char>,
    pieces: Seq<PieceModel>,
    i: int,
)
    ensures
        colored_line(line, Some(pieces)).len() == pieces.len(),
        0 <= i < pieces.len() ==> colored_line(line, Some(pieces))[i].content == pieces[i].text
            && colored_line(line, Some(pieces))[i].style.fg == Some(
            Color::Rgb(pieces[i].red, pieces[i].green, pieces[i].blue),
        ),
        line.len() == 0 ==> colored_line(line, None).len() == 0,
        line.len() > 0 ==> {
            &&& colored_line(line, None).len() == 1
            &&& colored_line(line, None)[0].content == line
            &&& colored_line(line, None)[0].style == Style::normal()
        },
{
}

proof fn lemma_states(
    state: HighlightLines<'static>,
    line: Seq<char>,
    rest: Seq<Seq<char>>,
    set: SyntaxSet,
)
    ensures
        state_after(state, seq![line] + rest, set) == state_after(
            line_in_state(state, line, set).1,
            rest,
            set,
        ),
    decreases rest.len(),
{
    let all = seq![line] + rest;
    if rest.len() == 0 {
        assert(all =~= seq![line]);
        assert(all.drop_last() =~= Seq::<Seq<char>>::empty());
        reveal_with_fuel(state_after, 2);
    } else {
        lemma_states(state, line, rest.drop_last(), set);
        assert(all.drop_last() =~= seq![line] + rest.drop_last());
    }
}

/// Lines of code are coloured one after another: each in the state that the lines before it left.
pub proof fn law_code_is_colored_in_order(
    state: HighlightLines<'static>,
    line: Seq<char>,
    rest: Seq<Seq<char>>,
    set: SyntaxSet,
)
    ensures
        ({
            let all = highlighted(state, seq![line] + rest, set);
            &&& all.len() == rest.len() + 1
            &&& all[0] == line_in_state(state, line, set).0
            &&& all.drop_first() == highlighted(line_in_state(state, line, set).1, rest, set)
        }),
{
    let lines = seq![line] + rest;
    let next = line_in_state(state, line, set).1;
    let all = highlighted(state, lines, set);
    assert(lines.take(0) =~= Seq::<Seq<char>>::empty());
    let tail = highlighted(next, rest, set);
    assert forall|i: int| 0 <= i < rest.len() implies all.drop_first()[i] == #[trigger] tail[i] by {
        assert(lines.take(i + 1) =~= seq![line] + rest.take(i));
        lemma_states(state, line, rest.take(i), set);
        assert(all[i + 1] == line_in_state(state_after(state, lines.take(i + 1), set), lines[i
            + 1], set).0);
    }
    assert(all.drop_first() =~= tail);
}

/// Code is shown line by line in the colours that were found for each line.
pub proof fn law_lines_of_code_are_shown(
    lines: Seq<Seq<char>>,
    pieces: Seq<Option<Seq<PieceModel>>>,
    i: int,
)
    requires
        0 <= i < lines.len(),
    ensures
        colored(lines, pieces).len() == lines.len(),
        colored(lines, pieces)[i] == colored_line(lines[i], pieces[i]),
{
}

/// A language is looked up as a token first, by extension only where that finds nothing, and is
/// plain text where neither does.
pub proof fn law_languages_are_looked_up(set: SyntaxSet, lang: Seq<char>)
    ensures
        syntax_of_token(set, lang) is Some ==> syntax_for(set, lang) == syntax_of_token(
            set,
            lang,
        )->0,
        syntax_of_token(set, lang) is None && syntax_of_extension(set, lang) is Some
            ==> syntax_for(set, lang) == syntax_of_extension(set, lang)->0,
        syntax_of_token(set, lang) is None && syntax_of_extension(set, lang) is None
            ==> syntax_for(set, lang) == syntax_of_plain_text(set),
{
}

/// A prefix stands before the first line of a message, and as many blanks as it takes columns
/// before every other. A message without lines is shown as one.
pub proof fn law_messages_stand_behind_their_prefix(
    prefix: Prefix,
    lines: Seq<Seq<SpanModel>>,
    width: u16,
    i: int,
)
    ensures
        lines.len() == 0 ==> all_behind(Some(prefix), lines).len() == 1,
        lines.len() > 0 ==> all_behind(Some(prefix), lines).len() == lines.len(),
        0 <= i < lines.len() ==> {
            let shown = all_behind(Some(prefix), lines)[i];
            &&& shown.len() == lines[i].len() + 1
            &&& shown.skip(1) == lines[i]
            &&& i == 0 ==> shown[0].content == prefix.text@ && shown[0].style.fg == Some(
                prefix.color,
            )
            &&& i > 0 ==> shown[0].content == repeat(" "@, text_columns(prefix.text@) as nat)
        },
        0 <= i < lines.len() ==> all_behind(None, lines)[i] == lines[i],
        text_columns(prefix.text@) < width ==> room_beside(width, Some(prefix)) == width
            - text_columns(prefix.text@),
        text_columns(prefix.text@) >= width ==> room_beside(width, Some(prefix)) == 1,
        width > 0 ==> room_beside(width, None) == width,
        room_beside(0, None) == 1,
{
    if 0 <= i < lines.len() {
        assert(behind(Some(prefix), i == 0, lines[i]).skip(1) =~= lines[i]);
    }
}

/// The symbol that stands for an emoji, and any other character itself.
pub open spec fn symbol_for(c: char) -> char {
    if c == '✅' {
        '✓'
    } else if c == '❌' {
        '✗'
    } else if c == '🔴' || c == '🟡' || c == '🔵' {
        '●'
    } else if c == '📊' {
        '▣'
    } else {
        c
    }
}

spec fn exchanged(s: Seq<char>, c: char, d: char) -> Seq<char> {
    s.map_values(
        |x: char|
            if x == c {
                d
            } else {
                x
            },
    )
}

proof fn lemma_exchanged(s: Seq<char>, c: char, d: char)
    ensures
        replace(s, seq![c], seq![d]) == exchanged(s, c, d),
    decreases s.len(),
{
    if s.len() == 0 {
        assert(exchanged(s, c, d) =~= s);
    } else {
        lemma_exchanged(s.skip(1), c, d);
        assert(s.take(1) =~= seq![s[0]]);
        if s[0] != c {
            assert(s.take(1)[0] != seq![c][0]);
        }
        assert(exchanged(s, c, d) =~= seq![if s[0] == c {
            d
        } else {
            s[0]
        }] + exchanged(s.skip(1), c, d));
    }
}

/// Emoji become symbols one for one and every other character stays, in a text without warning
/// signs. In no text a warning sign is left.
pub proof fn law_emoji_become_symbols(text: Seq<char>, i: int)
    ensures
        forall|k: int| 0 <= k < normalized(text).len() ==> #[trigger] normalized(text)[k] != '⚠',
        (forall|k: int| 0 <= k < text.len() ==> #[trigger] text[k] != '⚠') ==> normalized(
            text,
        ).len() == text.len() && (0 <= i < text.len() ==> normalized(text)[i] == symbol_for(
            text[i],
        )),
{
    reveal_strlit("✅");
    reveal_strlit("✓");
    reveal_strlit("❌");
    reveal_strlit("✗");
    reveal_strlit("🔴");
    reveal_strlit("🟡");
    reveal_strlit("🔵");
    reveal_strlit("●");
    reveal_strlit("📊");
    reveal_strlit("▣");
    reveal_strlit("⚠️");
    reveal_strlit("⚠");
    reveal_strlit("!");
    assert("✅"@ =~= seq!['✅'] && "✓"@ =~= seq!['✓']);
    assert("❌"@ =~= seq!['❌'] && "✗"@ =~= seq!['✗']);
    assert("🔴"@ =~= seq!['🔴'] && "●"@ =~= seq!['●']);
    assert("🟡"@ =~= seq!['🟡'] && "🔵"@ =~= seq!['🔵']);
    assert("📊"@ =~= seq!['📊'] && "▣"@ =~= seq!['▣']);
    assert("⚠"@ =~= seq!['⚠'] && "!"@ =~= seq!['!']);
    let a = replace(text, "✅"@, "✓"@);
    let b = replace(a, "❌"@, "✗"@);
    let c = replace(b, "🔴"@, "●"@);
    let d = replace(c, "🟡"@, "●"@);
    let e = replace(d, "🔵"@, "●"@);
    let f = replace(e, "📊"@, "▣"@);
    let g = replace(f, "⚠️"@, "!"@);
    lemma_exchanged(text, '✅', '✓');
    lemma_exchanged(a, '❌', '✗');
    lemma_exchanged(b, '🔴', '●');
    lemma_exchanged(c, '🟡', '●');
    lemma_exchanged(d, '🔵', '●');
    lemma_exchanged(e, '📊', '▣');
    lemma_exchanged(g, '⚠', '!');
    assert(normalized(text) == exchanged(g, '⚠', '!'));
    if forall|k: int| 0 <= k < text.len() ==> #[trigger] text[k] != '⚠' {
        assert(f.len() == text.len());
        assert forall|k: int| 0 <= k < f.len() implies #[trigger] f[k] == symbol_for(text[k]) by {
            assert(a[k] == exchanged(text, '✅', '✓')[k]);
        }
        assert("⚠️"@[0] == '⚠');
        assert forall|k: int|
            0 <= k <= f.len() - "⚠️"@.len() implies #[trigger] f.subrange(
            k,
            k + "⚠️"@.len(),
        ) != "⚠️"@ by {
            assert(f.subrange(k, k + "⚠️"@.len())[0] == f[k]);
            assert(text[k] != '⚠');
        }
        lemma_nothing_replaced(f, "⚠️"@, "!"@);
        assert(g == f);
    }
}

/// What the events of the parser become: texts keep their text, both breaks are breaks, and what is
/// not drawn is left out.
pub proof fn law_events_keep_their_content(event: RawEvent)
    ensures
        event is SoftBreak || event is HardBreak ==> event_content(event) == MarkdownModel::Break,
        event is Rule ==> event_content(event) == MarkdownModel::Rule,
        event is Start ==> event_content(event) is Start,
        event is End ==> event_content(event) is End,
        event is Text ==> event_content(event) is Text,
        event is Code ==> event_content(event) is Code,
        event is Html || event is InlineHtml ==> event_content(event) is Html,
        event is TaskListMarker ==> event_content(event) == MarkdownModel::TaskListMarker(
            event->TaskListMarker_0,
        ),
        event is FootnoteReference || event is InlineMath || event is DisplayMath
            ==> event_content(event) == MarkdownModel::Other,
        level_number(RawLevel::H1) == 1 && level_number(RawLevel::H2) == 2,
        level_number(RawLevel::H3) == 3 && level_number(RawLevel::H4) == 4,
        level_number(RawLevel::H5) == 5 && level_number(RawLevel::H6) == 6,
        alignment_for(RawColumn::Right) == CellAlignment::Right,
        alignment_for(RawColumn::Center) == CellAlignment::Center,
        alignment_for(RawColumn::Left) == CellAlignment::Left,
        alignment_for(RawColumn::Unset) == CellAlignment::Left,
{
}

/// The tags within a line and in tables: each starts what it is named after, the head of a table is
/// a row of it, and the tags that set a style end alike.
pub proof fn law_tags_start_and_end_what_they_name()
    ensures
        inline_tag(RawInline::Emphasis) == TagModel::Emphasis,
        inline_tag(RawInline::Strong) == TagModel::Strong,
        inline_tag(RawInline::Strikethrough) == TagModel::Strikethrough,
        inline_tag(RawInline::Link) == TagModel::Link,
        inline_tag(RawInline::Image) == TagModel::Other,
        inline_tag(RawInline::TableHead) == TagModel::TableRow,
        inline_tag(RawInline::TableRow) == TagModel::TableRow,
        inline_tag(RawInline::TableCell) == TagModel::TableCell,
        inline_tag_end(RawInlineEnd::Emphasis) == MarkdownTagEnd::Inline,
        inline_tag_end(RawInlineEnd::Strong) == MarkdownTagEnd::Inline,
        inline_tag_end(RawInlineEnd::Strikethrough) == MarkdownTagEnd::Inline,
        inline_tag_end(RawInlineEnd::Link) == MarkdownTagEnd::Inline,
        inline_tag_end(RawInlineEnd::Image) == MarkdownTagEnd::Other,
        inline_tag_end(RawInlineEnd::Table) == MarkdownTagEnd::Table,
        inline_tag_end(RawInlineEnd::TableHead) == MarkdownTagEnd::TableRow,
        inline_tag_end(RawInlineEnd::TableRow) == MarkdownTagEnd::TableRow,
        inline_tag_end(RawInlineEnd::TableCell) == MarkdownTagEnd::TableCell,
        block_tag_end(RawBlockEnd::Paragraph) == MarkdownTagEnd::Paragraph,
        block_tag_end(RawBlockEnd::Heading) == MarkdownTagEnd::Heading,
        block_tag_end(RawBlockEnd::BlockQuote) == MarkdownTagEnd::BlockQuote,
        block_tag_end(RawBlockEnd::CodeBlock) == MarkdownTagEnd::CodeBlock,
        block_tag_end(RawBlockEnd::List) == MarkdownTagEnd::List,
        block_tag_end(RawBlockEnd::Item) == MarkdownTagEnd::Item,
{
}

} // verus!
