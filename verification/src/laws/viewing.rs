//! How the input line, the transcript and the lists are moved through.
use crate::session::ChatModel;
use crate::text::{strip_prefix, utf8_len};
use crate::ui::code::Highlighting;
use crate::ui::cursor::{
    boundary_index, byte_offset, is_boundary, lemma_byte_length, lemma_offset_is_boundary,
    lemma_offsets_grow, lemma_offsets_of_sum, lemma_same_start,
};
use crate::ui::diff::diff_message;
use crate::ui::editor::{
    lemma_splice_offsets, line_count, spliced, touched, touches, EditorModel, PastedInputBlock,
    Touch,
};
use crate::ui::picker::{first_shown, picker_lines, session_line, shown_count};
use crate::ui::scrolling::{trackpad_lines, MouseScrollState, ScrollDirection, TranscriptScroll};
use crate::ui::selection::{
    covered, selected_before, selected_part, selected_text, TranscriptSelection,
    TranscriptSelectionPoint,
};
use crate::ui::state::PickerModel;
use crate::ui::style::SpanModel;
use crate::ui::transcript::{
    chat_lines, messages_lines, reasoning_lines, reasoning_seconds, transcript_lines,
    TranscriptModel,
};
use crate::ui::viewport::{MouseInput, MouseKind, ViewportState};
use vstd::prelude::*;

verus! {

proof fn lemma_untouched(pos: usize, touch: Touch)
    ensures
        touched(Seq::empty(), pos, touch) is None,
{
}

/// The cursor stands before the character at a place of a line without pasted blocks.
pub open spec fn stands_at(editor: EditorModel, i: int) -> bool {
    &&& 0 <= i <= editor.text.len()
    &&& editor.blocks.len() == 0
    &&& editor.cursor == byte_offset(editor.text, i)
    &&& utf8_len(editor.text) <= usize::MAX
}

proof fn lemma_stands_at(editor: EditorModel, i: int)
    requires
        stands_at(editor, i),
    ensures
        editor.position() == editor.cursor,
        editor.outside() == editor.cursor,
        boundary_index(editor.text, editor.cursor as nat) == i,
        forall|pos: usize, touch: Touch| touched(editor.blocks, pos, touch) is None,
        editor.cursor <= utf8_len(editor.text),
{
    lemma_offset_is_boundary(editor.text, i);
    assert(editor.blocks =~= Seq::empty());
    lemma_byte_length(editor.text);
    lemma_offsets_grow(editor.text, i, editor.text.len() as int);
}

/// What is typed goes in where the cursor stands, whole, and the cursor stands behind it; the text
/// on both sides stays.
pub proof fn law_typing_goes_in_at_the_cursor(editor: EditorModel, i: int, new: Seq<char>)
    requires
        stands_at(editor, i),
        utf8_len(editor.text) + utf8_len(new) <= usize::MAX,
    ensures
        ({
            let after = editor.with_text(new);
            &&& after.text.len() == editor.text.len() + new.len()
            &&& after.text.subrange(0, i) == editor.text.subrange(0, i)
            &&& after.text.subrange(i, i + new.len()) == new
            &&& after.text.subrange(i + new.len(), after.text.len() as int) == editor.text.subrange(
                i,
                editor.text.len() as int,
            )
            &&& after.cursor == byte_offset(after.text, i + new.len())
            &&& after.blocks.len() == 0
        }),
{
    lemma_stands_at(editor, i);
    lemma_splice_offsets(editor.text, i, new, i);
    let after = editor.with_text(new);
    if new.len() == 0 {
        assert(after.text.subrange(i, i + new.len()) =~= new);
    } else {
        assert(after.text == spliced(editor.text, i, new));
        assert(after.text.subrange(0, i) =~= editor.text.subrange(0, i));
        assert(after.text.subrange(i, i + new.len()) =~= new);
        assert(after.text.subrange(i + new.len(), after.text.len() as int) =~= editor.text.subrange(
            i,
            editor.text.len() as int,
        ));
    }
}

/// The arrows move the cursor by one character and change nothing else; at the ends it stays.
pub proof fn law_arrows_move_by_one_character(editor: EditorModel, i: int)
    requires
        stands_at(editor, i),
    ensures
        editor.moved_left().text == editor.text,
        editor.moved_right().text == editor.text,
        i > 0 ==> editor.moved_left().cursor == byte_offset(editor.text, i - 1),
        i == 0 ==> editor.moved_left() == editor,
        i < editor.text.len() ==> editor.moved_right().cursor == byte_offset(editor.text, i + 1),
        i == editor.text.len() ==> editor.moved_right() == editor,
{
    lemma_stands_at(editor, i);
    lemma_byte_length(editor.text);
    if i > 0 {
        lemma_offsets_grow(editor.text, i - 1, editor.text.len() as int);
    }
    if i < editor.text.len() {
        lemma_offsets_grow(editor.text, i + 1, editor.text.len() as int);
    }
}

/// Backspace takes out the character before the cursor and the delete key the one behind it; the
/// cursor stands where that was. At the ends nothing is taken.
pub proof fn law_deleting_takes_one_character(editor: EditorModel, i: int)
    requires
        stands_at(editor, i),
    ensures
        i > 0 ==> editor.backspaced().text == editor.text.remove(i - 1)
            && editor.backspaced().cursor == byte_offset(editor.text, i - 1),
        i == 0 ==> editor.backspaced() == editor,
        i < editor.text.len() ==> editor.deleted().text == editor.text.remove(i)
            && editor.deleted().cursor == editor.cursor,
        i == editor.text.len() ==> editor.deleted() == editor,
{
    lemma_stands_at(editor, i);
    lemma_byte_length(editor.text);
    if i > 0 {
        lemma_offsets_grow(editor.text, i - 1, i);
        lemma_offsets_grow(editor.text, i, editor.text.len() as int);
        lemma_offset_is_boundary(editor.text, i - 1);
        assert(editor.backspaced().text =~= editor.text.remove(i - 1));
    }
    if i < editor.text.len() {
        lemma_offsets_grow(editor.text, i, i + 1);
        lemma_offsets_grow(editor.text, i + 1, editor.text.len() as int);
        lemma_offset_is_boundary(editor.text, i + 1);
        assert(editor.deleted().text =~= editor.text.remove(i));
    }
}

/// A text that is pasted is folded into a block if it has more than one line; the block covers just
/// that text and counts its characters and lines.
pub proof fn law_long_pastes_are_folded(editor: EditorModel, i: int, new: Seq<char>)
    requires
        stands_at(editor, i),
        line_count(new) > 1,
        utf8_len(editor.text) + utf8_len(new) <= usize::MAX,
        line_count(new) <= usize::MAX,
        new.len() <= usize::MAX,
        editor.next_id < usize::MAX,
    ensures
        ({
            let after = editor.with_paste(new);
            &&& after.text == editor.with_text(new).text
            &&& after.cursor == editor.with_text(new).cursor
            &&& after.blocks.len() == 1
            &&& after.blocks[0].id == editor.next_id
            &&& after.blocks[0].start == editor.cursor
            &&& after.blocks[0].end == editor.cursor + utf8_len(new)
            &&& after.blocks[0].char_count == new.len()
            &&& after.blocks[0].line_count == line_count(new)
            &&& after.next_id == editor.next_id + 1
        }),
{
    lemma_stands_at(editor, i);
    lemma_splice_offsets(editor.text, i, new, i);
    lemma_byte_length(spliced(editor.text, i, new));
    let after = editor.with_paste(new);
    let plain = editor.with_text(new);
    assert(plain.blocks.len() == 0);
    assert(plain.blocks =~= Seq::empty());
    let block = PastedInputBlock {
        id: editor.next_id,
        start: editor.cursor,
        end: (editor.cursor + utf8_len(new)) as usize,
        line_count: line_count(new) as usize,
        char_count: new.len() as usize,
    };
    assert(plain.blocks.push(block).drop_last() =~= Seq::empty());
    reveal_with_fuel(crate::ui::editor::sorted, 2);
    reveal_with_fuel(crate::ui::editor::inserted, 2);
    assert(editor.cursor + utf8_len(new) <= utf8_len(editor.text) + utf8_len(new));
}

/// Scrolling moves the window by as many lines as were asked for, up or down, but not beyond the
/// ends of the transcript.
pub proof fn law_scrolling_moves_the_window(view: ViewportState, delta: int, total: usize, visible: usize)
    requires
        view.pending_scroll_delta == 0,
        -1_000_000 <= delta <= 1_000_000,
        visible < total,
    ensures
        ({
            let before = view.window_top(total, visible);
            let after = view.moved(delta).window_top(total, visible);
            &&& 0 <= before + delta <= total - visible ==> after == before + delta
            &&& before + delta < 0 ==> after == 0
            &&& before + delta > total - visible ==> after == total - visible
        }),
        view.moved(delta).transcript_selection == view.transcript_selection,
        view.at_bottom().window_top(total, visible) == total - visible,
{
}

/// A turn of the wheel moves by three lines; turns that follow each other closely come from a
/// trackpad and move by one at first, then by two and three.
pub proof fn law_the_wheel_moves_by_lines(view: ViewportState, now: u64)
    requires
        -1_000_000 <= view.pending_scroll_delta <= 1_000_000,
    ensures
        view.mouse_scroll.last_event_at is None ==> view.wheeled(
            ScrollDirection::Down,
            now,
        ).pending_scroll_delta == view.pending_scroll_delta + 3 && view.wheeled(
            ScrollDirection::Up,
            now,
        ).pending_scroll_delta == view.pending_scroll_delta - 3,
        view.mouse_scroll.last_event_at matches Some(last) && now - last >= 35_000_000
            ==> view.wheeled(ScrollDirection::Down, now).pending_scroll_delta
            == view.pending_scroll_delta + 3,
        view.mouse_scroll.last_event_at is Some && now - view.mouse_scroll.last_event_at->0
            < 35_000_000 && view.mouse_scroll.last_direction == Some(ScrollDirection::Up)
            ==> view.wheeled(ScrollDirection::Down, now).pending_scroll_delta
            == view.pending_scroll_delta + 1,
        view.wheeled(ScrollDirection::Up, now).mouse_scroll.last_direction == Some(
            ScrollDirection::Up,
        ),
        view.wheeled(ScrollDirection::Up, now).mouse_scroll.last_event_at == Some(now),
        trackpad_lines(1) == 1,
        trackpad_lines(2) == 1,
        trackpad_lines(3) == 2,
        trackpad_lines(5) == 2,
        trackpad_lines(6) == 3,
{
}

/// Pressing the button on the transcript begins a selection there; moving it moves the other end,
/// and releasing it ends the dragging. Pressing elsewhere clears what was selected.
pub proof fn law_dragging_selects(
    view: ViewportState,
    lines: Seq<Seq<SpanModel>>,
    mouse: MouseInput,
    point: TranscriptSelectionPoint,
)
    ensures
        !view.on_scrollbar(mouse.column, mouse.row) && view.point_at(lines, mouse.column, mouse.row)
            == Some(point) ==> {
            let after = view.pressed(lines, mouse).transcript_selection;
            after.anchor == Some(point) && after.head == Some(point) && after.dragging
        },
        !view.on_scrollbar(mouse.column, mouse.row) && view.point_at(lines, mouse.column, mouse.row)
            is None ==> view.pressed(lines, mouse).transcript_selection.anchor is None,
        view.on_scrollbar(mouse.column, mouse.row) ==> view.pressed(
            lines,
            mouse,
        ).transcript_scrollbar_dragging && view.pressed(lines, mouse).transcript_selection.anchor
            is None,
        view.point_at(lines, mouse.column, mouse.row) == Some(point) ==> {
            let after = view.selecting(lines, mouse).transcript_selection;
            after.head == Some(point) && after.anchor == view.transcript_selection.anchor
        },
        !view.released(lines).transcript_scrollbar_dragging,
        !view.transcript_scrollbar_dragging ==> !view.released(
            lines,
        ).transcript_selection.dragging,
{
}

/// What is selected is read from its earlier end to its later one, whichever was first; nothing is
/// selected where the ends are one place.
pub proof fn law_selections_are_read_in_order(
    lines: Seq<Seq<SpanModel>>,
    a: TranscriptSelectionPoint,
    b: TranscriptSelectionPoint,
    dragging: bool,
)
    ensures
        selected_text(
            lines,
            TranscriptSelection { anchor: Some(a), head: Some(a), dragging },
        ) is None,
        a.line < b.line && b.line < lines.len() ==> selected_text(
            lines,
            TranscriptSelection { anchor: Some(b), head: Some(a), dragging },
        ) == Some(selected_before(lines, b.line + 1, a, b)),
        a.line == b.line && a.column < b.column && b.line < lines.len() ==> selected_text(
            lines,
            TranscriptSelection { anchor: Some(b), head: Some(a), dragging },
        ) == Some(selected_part(lines, a.line as int, a, b)),
        selected_text(
            lines,
            TranscriptSelection { anchor: None, head: Some(a), dragging },
        ) is None,
{
    reveal_with_fuel(selected_before, 2);
}

/// The lines between the ends of a selection are selected whole, the first one from its end on and
/// the last one up to its end; a line feed stands between any two.
pub proof fn law_lines_between_are_selected_whole(
    lines: Seq<Seq<SpanModel>>,
    a: TranscriptSelectionPoint,
    b: TranscriptSelectionPoint,
    to: int,
    width: usize,
)
    requires
        a.line + 1 < to,
    ensures
        selected_before(lines, to, a, b) == selected_before(lines, to - 1, a, b).push('\n')
            + selected_part(lines, to - 1, a, b),
        a.line < to - 1 < b.line ==> covered(to - 1, width, a, b) == (0usize, width),
        to - 1 == b.line && b.column <= width ==> covered(to - 1, width, a, b) == (
            0usize,
            b.column,
        ),
        a.line < b.line && a.column <= width ==> covered(a.line as int, width, a, b) == (
            a.column,
            width,
        ),
{
}

/// The list of sessions shows sessions one below the other, in their order; only the selected one
/// is marked.
pub proof fn law_sessions_are_shown_in_order(picker: PickerModel, width: u16, height: u16, k: int)
    requires
        0 <= k < picker_lines(picker, width, height).len(),
        picker.sessions.len() > 0,
    ensures
        ({
            let start = first_shown(picker, height);
            &&& 0 <= start
            &&& picker_lines(picker, width, height)[k] == session_line(
                picker.sessions[start + k],
                start + k == picker.selected,
                width,
            )
            &&& start + k < picker.sessions.len()
            &&& picker_lines(picker, width, height).len() <= picker.sessions.len()
            &&& height > 0 ==> picker_lines(picker, width, height).len() <= height
            &&& height >= picker.sessions.len() ==> start == 0 && picker_lines(
                picker,
                width,
                height,
            ).len() == picker.sessions.len()
        }),
{
}

/// The transcript shows its messages one after another with an empty line behind each, and then
/// what is being streamed; what comes later changes nothing above it.
pub proof fn law_messages_are_shown_in_order(
    messages: Seq<ChatModel>,
    message: ChatModel,
    width: u16,
    expanded: bool,
    colors: Highlighting,
)
    ensures
        messages_lines(messages.push(message), width, expanded, colors) == (messages_lines(
            messages,
            width,
            expanded,
            colors,
        ) + chat_lines(message, width, expanded, colors)).push(Seq::empty()),
        messages_lines(Seq::empty(), width, expanded, colors).len() == 0,
        message.role == "diff"@ ==> chat_lines(message, width, expanded, colors) == diff_message(
            message.content,
            width,
        ),
{
    reveal(chat_lines);
    reveal_strlit("diff");
    reveal_strlit("reasoning:");
    assert(messages.push(message).drop_last() =~= messages);
    assert("diff"@.len() < "reasoning:"@.len());
}

/// Reasoning is shown with the seconds that it took; its text only where it is expanded.
pub proof fn law_reasoning_is_shown_folded(
    content: Seq<char>,
    elapsed: u64,
    active: bool,
    width: u16,
    colors: Highlighting,
)
    ensures
        ({
            let folded = reasoning_lines(content, elapsed, active, false, width, colors);
            let open = reasoning_lines(content, elapsed, active, true, width, colors);
            &&& folded.len() == 1
            &&& folded[0][1].content == crate::text::decimal(elapsed as nat) + "s"@
            &&& active ==> folded[0].len() == 2 && folded[0][0].content == "Thinking ... "@
            &&& !active ==> folded[0].len() == 3 && folded[0][0].content == "Thought for "@
                && folded[0][2].content == " (ctrl+o to expand)"@ && open[0][2].content
                == " (ctrl+o to collapse)"@
            &&& content.len() == 0 ==> open.len() == 1
            &&& open.len() >= 1
        }),
{
}

} // verus!
