//! What the input line shows: pasted passages folded to labels, and the part around the
//! cursor that fits.
use super::cursor::{
    boundary, boundary_index, is_boundary, lemma_boundary_index, lemma_byte_length,
    lemma_offset_is_boundary, lemma_offsets_grow, lemma_offsets_of_sum, lemma_same_start, locate,
};
use super::editor::{inserted, insert_sorted, sorted, PastedInputBlock};
use super::width::{
    fitting_prefix, fitting_tail, take_width, text_columns, text_width, trim_start_to_width,
};
use crate::text::{byte_len, concat2, from_chars, to_chars, utf8_len};
use vstd::prelude::*;

verus! {

/// The characters between two byte positions.
pub open spec fn slice(text: Seq<char>, from: nat, to: nat) -> Seq<char> {
    text.subrange(boundary_index(text, from), boundary_index(text, to))
}

/// Whether a block lies within a text.
pub open spec fn lies_within(text: Seq<char>, block: PastedInputBlock) -> bool {
    block.start <= block.end <= utf8_len(text)
}

/// The blocks that lie within the text.
pub open spec fn within(text: Seq<char>, blocks: Seq<PastedInputBlock>) -> Seq<PastedInputBlock>
    decreases blocks.len(),
{
    if blocks.len() == 0 {
        Seq::empty()
    } else if lies_within(text, blocks.last()) {
        within(text, blocks.drop_last()).push(blocks.last())
    } else {
        within(text, blocks.drop_last())
    }
}

/// The display while it is put together.
#[verifier::ext_equal]
pub struct Projection {
    /// What is shown of the text before `from`.
    pub shown: Seq<char>,
    /// Where the cursor is in what is shown, once it is known.
    pub cursor: Option<nat>,
    /// How far into the text, in bytes, the display has come.
    pub from: nat,
}

impl Projection {
    pub open spec fn start() -> Projection {
        Projection { shown: Seq::empty(), cursor: None, from: 0 }
    }

    /// The display after one more block, which is shown as its label.
    pub open spec fn add_block(
        self,
        text: Seq<char>,
        cursor: nat,
        block: PastedInputBlock,
    ) -> Projection {
        if block.start < self.from {
            self
        } else {
            let before = self.shown + slice(text, self.from, block.start as nat);
            let found = if self.cursor is Some {
                self.cursor
            } else if self.from <= cursor <= block.start {
                Some((utf8_len(self.shown) + (cursor - self.from)) as nat)
            } else if block.start <= cursor <= block.end {
                Some(utf8_len(before) + utf8_len(block.shown()))
            } else {
                None
            };
            Projection { shown: before + block.shown(), cursor: found, from: block.end as nat }
        }
    }

    pub open spec fn add_blocks(
        self,
        text: Seq<char>,
        cursor: nat,
        blocks: Seq<PastedInputBlock>,
    ) -> Projection
        decreases blocks.len(),
    {
        if blocks.len() == 0 {
            self
        } else {
            self.add_blocks(text, cursor, blocks.drop_last()).add_block(
                text,
                cursor,
                blocks.last(),
            )
        }
    }

    /// The whole display and the cursor in it.
    pub open spec fn finish(self, text: Seq<char>, cursor: nat) -> (Seq<char>, nat) {
        (
            self.shown + slice(text, self.from, utf8_len(text)),
            match self.cursor {
                Some(at) => at,
                None => if cursor >= self.from {
                    (utf8_len(self.shown) + (cursor - self.from)) as nat
                } else {
                    utf8_len(self.shown)
                },
            },
        )
    }
}

/// A text with its blocks folded, and where the cursor is then.
pub open spec fn projected(
    text: Seq<char>,
    blocks: Seq<PastedInputBlock>,
    cursor: nat,
) -> (Seq<char>, nat) {
    let at = boundary(text, cursor);
    Projection::start().add_blocks(text, at, sorted(within(text, blocks))).finish(text, at)
}

/// How far into the text, in bytes, the display has come behind some blocks.
pub open spec fn reached(blocks: Seq<PastedInputBlock>) -> nat
    decreases blocks.len(),
{
    if blocks.len() == 0 {
        0
    } else if blocks.last().start < reached(blocks.drop_last()) {
        reached(blocks.drop_last())
    } else {
        blocks.last().end as nat
    }
}

/// Whether a block covers whole characters of the text.
pub open spec fn covers_characters(text: Seq<char>, block: PastedInputBlock) -> bool {
    is_boundary(text, block.start as nat) && is_boundary(text, block.end as nat)
}

/// Whether the blocks that are shown cover whole characters. A block that begins inside another
/// is not shown.
pub open spec fn on_boundaries(text: Seq<char>, blocks: Seq<PastedInputBlock>) -> bool {
    let line = sorted(within(text, blocks));
    forall|i: int|
        0 <= i < line.len() && (#[trigger] line[i]).start >= reached(line.take(i))
            ==> covers_characters(text, line[i])
}

proof fn lemma_reached(text: Seq<char>, cursor: nat, blocks: Seq<PastedInputBlock>)
    ensures
        Projection::start().add_blocks(text, cursor, blocks).from == reached(blocks),
    decreases blocks.len(),
{
    if blocks.len() > 0 {
        lemma_reached(text, cursor, blocks.drop_last());
    }
}

proof fn lemma_inserted_members(blocks: Seq<PastedInputBlock>, block: PastedInputBlock)
    ensures
        forall|i: int|
            0 <= i < inserted(blocks, block).len() ==> (#[trigger] inserted(blocks, block)[i])
                == block || blocks.contains(inserted(blocks, block)[i]),
    decreases blocks.len(),
{
    if blocks.len() > 0 && blocks.last().start > block.start {
        let front = blocks.drop_last();
        lemma_inserted_members(front, block);
        assert forall|i: int| 0 <= i < inserted(blocks, block).len() implies (#[trigger] inserted(
            blocks,
            block,
        )[i]) == block || blocks.contains(inserted(blocks, block)[i]) by {
            if i < inserted(front, block).len() {
                let found = inserted(front, block)[i];
                assert(inserted(blocks, block)[i] == found);
                if found != block {
                    let k = choose|k: int| 0 <= k < front.len() && front[k] == found;
                    assert(blocks[k] == found);
                }
            } else {
                assert(blocks[blocks.len() - 1] == inserted(blocks, block)[i]);
            }
        }
    } else {
        assert forall|i: int| 0 <= i < inserted(blocks, block).len() implies (#[trigger] inserted(
            blocks,
            block,
        )[i]) == block || blocks.contains(inserted(blocks, block)[i]) by {
            if i < blocks.len() {
                assert(blocks[i] == inserted(blocks, block)[i]);
            }
        }
    }
}

/// The blocks in line are blocks of the text that lie within it.
proof fn lemma_line_members(text: Seq<char>, blocks: Seq<PastedInputBlock>)
    ensures
        forall|i: int|
            0 <= i < sorted(within(text, blocks)).len() ==> lies_within(
                text,
                #[trigger] sorted(within(text, blocks))[i],
            ) && blocks.contains(sorted(within(text, blocks))[i]),
    decreases blocks.len(),
{
    if blocks.len() > 0 {
        let front = blocks.drop_last();
        let last = blocks.last();
        let before = sorted(within(text, front));
        let line = sorted(within(text, blocks));
        lemma_line_members(text, front);
        if lies_within(text, last) {
            assert(within(text, blocks).drop_last() =~= within(text, front));
            lemma_inserted_members(before, last);
        }
        assert forall|i: int| 0 <= i < line.len() implies lies_within(text, #[trigger] line[i])
            && blocks.contains(line[i]) by {
            if lies_within(text, last) && line[i] == last {
                assert(blocks[blocks.len() - 1] == last);
            } else {
                let k = choose|k: int| 0 <= k < before.len() && before[k] == line[i];
                assert(before[k] == line[i]);
                let at = choose|at: int| 0 <= at < front.len() && front[at] == line[i];
                assert(blocks[at] == line[i]);
            }
        }
    }
}

/// Where all blocks cover whole characters, those that are shown do.
pub proof fn lemma_covering_blocks(text: Seq<char>, blocks: Seq<PastedInputBlock>)
    requires
        forall|i: int| 0 <= i < blocks.len() ==> covers_characters(text, #[trigger] blocks[i]),
    ensures
        on_boundaries(text, blocks),
{
    let line = sorted(within(text, blocks));
    lemma_line_members(text, blocks);
    assert forall|i: int| 0 <= i < line.len() implies covers_characters(
        text,
        #[trigger] line[i],
    ) by {
        let at = choose|at: int| 0 <= at < blocks.len() && blocks[at] == line[i];
        assert(covers_characters(text, blocks[at]));
    }
}

proof fn lemma_sum_of_bytes(a: Seq<char>, b: Seq<char>)
    ensures
        utf8_len(a + b) == utf8_len(a) + utf8_len(b),
{
    lemma_byte_length(a);
    lemma_byte_length(b);
    lemma_byte_length(a + b);
    lemma_offsets_of_sum(a, b, b.len() as int);
}

/// A slice between two boundaries has as many bytes as they are apart.
proof fn lemma_slice(text: Seq<char>, from: nat, to: nat)
    requires
        from <= to <= utf8_len(text),
        is_boundary(text, from),
        is_boundary(text, to),
    ensures
        0 <= boundary_index(text, from) <= boundary_index(text, to) <= text.len(),
        utf8_len(slice(text, from, to)) == to - from,
{
    let i = boundary_index(text, from);
    let j = boundary_index(text, to);
    lemma_boundary_index(text, from);
    lemma_boundary_index(text, to);
    if j < i {
        lemma_offsets_grow(text, j, i);
    }
    let head = text.take(i);
    let part = text.subrange(i, j);
    assert(head + part =~= text.take(j));
    lemma_sum_of_bytes(head, part);
    lemma_byte_length(head);
    lemma_byte_length(text.take(j));
    assert(head.take(i) =~= text.take(i));
    lemma_same_start(head, text, i);
    assert(text.take(j).take(j) =~= text.take(j));
    lemma_same_start(text.take(j), text, j);
}

fn collect_within(input: &str, blocks: &[PastedInputBlock]) -> (r: Vec<PastedInputBlock>)
    ensures
        r@ == sorted(within(input@, blocks@)),
{
    let len: usize = byte_len(input);
    let ghost all = blocks@;
    let mut kept: Vec<PastedInputBlock> = Vec::new();
    let mut i: usize = 0;
    while i < blocks.len()
        invariant
            all == blocks@,
            len == utf8_len(input@),
            i <= blocks.len(),
            kept@ == sorted(within(input@, all.take(i as int))),
        decreases blocks.len() - i,
    {
        let block = blocks[i];
        assert(all.take(i + 1).drop_last() =~= all.take(i as int));
        if block.start <= block.end && block.end <= len {
            let ghost before = within(input@, all.take(i as int));
            assert(lies_within(input@, all[i as int]));
            assert(before.push(block).drop_last() =~= before);
            insert_sorted(&mut kept, block);
        }
        i += 1;
    }
    assert(all.take(i as int) =~= all);
    kept
}

/// Folds the blocks of a text, and finds the cursor in what is shown.
pub fn input_display_projection(
    input: &str,
    blocks: &[PastedInputBlock],
    cursor_pos: usize,
) -> (r: (String, usize))
    requires
        on_boundaries(input@, blocks@),
    ensures
        (r.0@, r.1 as nat) == projected(input@, blocks@, cursor_pos as nat),
{
    let chars = to_chars(input);
    let len: usize = byte_len(input);
    let cursor: usize = locate(&chars, cursor_pos).1;
    let kept = collect_within(input, blocks);
    let mut display = String::new();
    let mut found: Option<usize> = None;
    let mut from: usize = 0;
    let mut i: usize = 0;
    proof {
        lemma_boundary_index(input@, cursor_pos as nat);
        lemma_offset_is_boundary(input@, boundary_index(input@, cursor_pos as nat));
        lemma_byte_length(input@);
        lemma_offsets_grow(
            input@,
            boundary_index(input@, cursor_pos as nat),
            input@.len() as int,
        );
        lemma_offset_is_boundary(input@, 0);
        lemma_offset_is_boundary(input@, input@.len() as int);
        assert(display@ =~= Seq::empty());
        assert(kept@.take(0) =~= Seq::empty());
    }
    while i < kept.len()
        invariant
            chars@ == input@,
            len == utf8_len(input@),
            cursor <= len,
            is_boundary(input@, cursor as nat),
            is_boundary(input@, from as nat),
            from <= len,
            i <= kept.len(),
            kept@ == sorted(within(input@, blocks@)),
            on_boundaries(input@, blocks@),
            ({
                let state = Projection::start().add_blocks(
                    input@,
                    cursor as nat,
                    kept@.take(i as int),
                );
                &&& state.shown == display@
                &&& state.from == from
                &&& match found {
                    Some(at) => state.cursor == Some(at as nat),
                    None => state.cursor is None,
                }
            }),
        decreases kept.len() - i,
    {
        let block = kept[i];
        assert(kept@.take(i + 1).drop_last() =~= kept@.take(i as int));
        proof {
            lemma_line_members(input@, blocks@);
            lemma_reached(input@, cursor as nat, kept@.take(i as int));
            assert(lies_within(input@, kept@[i as int]));
        }
        if block.start >= from {
            assert(covers_characters(input@, kept@[i as int]));
            let ghost shown = display@;
            let first: usize = locate(&chars, from).0;
            let last: usize = locate(&chars, block.start).0;
            proof {
                lemma_slice(input@, from as nat, block.start as nat);
            }
            let part = from_chars(&chars, first, last);
            proof {
                lemma_sum_of_bytes(shown, part@);
            }
            display.append(part.as_str());
            let at_start: usize = byte_len(display.as_str());
            if found.is_none() && cursor >= from && cursor <= block.start {
                found = Some(at_start - (block.start - cursor));
            }
            let label = block.label();
            proof {
                lemma_sum_of_bytes(display@, label@);
            }
            display.append(label.as_str());
            if found.is_none() && cursor >= block.start && cursor <= block.end {
                found = Some(byte_len(display.as_str()));
            }
            from = block.end;
        }
        i += 1;
    }
    assert(kept@.take(i as int) =~= kept@);
    let first: usize = locate(&chars, from).0;
    let last: usize = locate(&chars, len).0;
    proof {
        lemma_slice(input@, from as nat, len as nat);
    }
    let part = from_chars(&chars, first, last);
    proof {
        lemma_sum_of_bytes(display@, part@);
    }
    let before: usize = byte_len(display.as_str());
    display.append(part.as_str());
    let total: usize = byte_len(display.as_str());
    let at: usize = match found {
        Some(at) => at,
        None => if cursor >= from {
            total - (len - cursor)
        } else {
            before
        },
    };
    (display, at)
}

/// The part of a text around the cursor that fits into the columns, and the cursor's column.
pub open spec fn plain_view(text: Seq<char>, cursor: nat, width: u16) -> (Seq<char>, u16) {
    if width == 0 {
        (Seq::empty(), 0)
    } else {
        let i = boundary_index(text, cursor);
        let before = fitting_tail(text.take(i), width as usize);
        let used = text_columns(before);
        let room = if used >= width {
            0
        } else {
            width - used
        };
        (
            before + fitting_prefix(text.skip(i), room as nat),
            if used >= width {
                width
            } else {
                used as u16
            },
        )
    }
}

fn input_view_plain(input: &str, cursor_pos: usize, width: u16) -> (r: (String, u16))
    ensures
        (r.0@, r.1) == plain_view(input@, cursor_pos as nat, width),
{
    let chars = to_chars(input);
    let i: usize = locate(&chars, cursor_pos).0;
    if width == 0 {
        let r = String::new();
        assert(r@ =~= Seq::empty());
        return (r, 0);
    }
    let capacity: usize = width as usize;
    let before = from_chars(&chars, 0, i);
    let after = from_chars(&chars, i, chars.len());
    assert(before@ =~= input@.take(i as int));
    assert(after@ =~= input@.skip(i as int));
    let before_visible = trim_start_to_width(before.as_str(), capacity);
    let before_width = text_width(before_visible.as_str());
    let room: usize = if before_width >= capacity {
        0
    } else {
        capacity - before_width
    };
    let after_visible = take_width(after.as_str(), room);
    (
        concat2(before_visible.as_str(), after_visible.as_str()),
        if before_width >= capacity {
            width
        } else {
            before_width as u16
        },
    )
}

/// What the input line shows in `width` columns, and the cursor's column.
pub fn input_view_with_blocks(
    input: &str,
    blocks: &[PastedInputBlock],
    cursor_pos: usize,
    width: u16,
) -> (r: (String, u16))
    requires
        on_boundaries(input@, blocks@),
    ensures
        ({
            let (shown, cursor) = projected(input@, blocks@, cursor_pos as nat);
            (r.0@, r.1) == plain_view(shown, cursor, width)
        }),
{
    let (display, cursor) = input_display_projection(input, blocks, cursor_pos);
    input_view_plain(display.as_str(), cursor, width)
}

/// Without blocks the line shows its text as it is, with the cursor where it is.
pub proof fn law_plain_lines_are_shown_as_they_are(text: Seq<char>, cursor: nat)
    ensures
        projected(text, Seq::empty(), cursor) == (text, boundary(text, cursor)),
{
    let none = Seq::<PastedInputBlock>::empty();
    assert(within(text, none) =~= none);
    assert(sorted(none) =~= none);
    lemma_byte_length(text);
    lemma_offset_is_boundary(text, 0);
    lemma_offset_is_boundary(text, text.len() as int);
    assert(Seq::<char>::empty() + slice(text, 0, utf8_len(text)) =~= text);
    assert(vstd::utf8::encode_utf8(Seq::<char>::empty()).len() == 0);
}

/// The cursor is shown within the columns of the line.
pub proof fn law_cursor_stays_in_view(text: Seq<char>, cursor: nat, width: u16)
    ensures
        plain_view(text, cursor, width).1 <= width,
{
}

} // verus!
