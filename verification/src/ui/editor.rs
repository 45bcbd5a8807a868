//! The input line: its text, its cursor, and the pasted passages that it shows folded.
use super::cursor::{
    boundary, boundary_after, boundary_before, boundary_index, byte_offset, clamp_char_boundary,
    is_boundary, lemma_boundary_index, lemma_byte_length, lemma_offset_is_boundary,
    lemma_offsets_grow, lemma_offsets_of_sum, lemma_same_start, locate, next_char_boundary,
    prev_char_boundary,
};
use super::width::{text_columns, text_width};
use crate::text::{byte_len, concat2, concat3, decimal, decimal_of, from_chars, to_chars, utf8_len};
use vstd::prelude::*;

verus! {

pub const COLLAPSED_PASTE_MIN_WIDTH: usize = 240;

/// A pasted passage of the input, from byte `start` to byte `end`.
#[derive(Debug, Clone, Copy, PartialEq, Eq, Structural)]
pub struct PastedInputBlock {
    pub id: usize,
    pub start: usize,
    pub end: usize,
    pub line_count: usize,
    pub char_count: usize,
}

impl PastedInputBlock {
    /// What is shown in place of the passage.
    pub open spec fn shown(self) -> Seq<char> {
        "[Pasted text #"@ + decimal(self.id as nat) + " +"@ + (if self.line_count > 1 {
            decimal(self.line_count as nat) + " lines]"@
        } else {
            decimal(self.char_count as nat) + " chars]"@
        })
    }

    pub fn label(&self) -> (r: String)
        ensures
            r@ == self.shown(),
    {
        let head = concat3("[Pasted text #", decimal_of(self.id as u64).as_str(), " +");
        let tail = if self.line_count > 1 {
            concat2(decimal_of(self.line_count as u64).as_str(), " lines]")
        } else {
            concat2(decimal_of(self.char_count as u64).as_str(), " chars]")
        };
        concat2(head.as_str(), tail.as_str())
    }
}

/// How many lines a text has, counting what follows the last line feed.
pub open spec fn line_count(s: Seq<char>) -> nat {
    if s.len() == 0 {
        0
    } else {
        line_feeds(s) + 1
    }
}

pub open spec fn line_feeds(s: Seq<char>) -> nat
    decreases s.len(),
{
    if s.len() == 0 {
        0
    } else {
        line_feeds(s.drop_last()) + if s.last() == '\n' {
            1nat
        } else {
            0
        }
    }
}

proof fn lemma_line_feeds(s: Seq<char>)
    ensures
        line_feeds(s) <= s.len(),
    decreases s.len(),
{
    if s.len() > 0 {
        lemma_line_feeds(s.drop_last());
    }
}

pub fn logical_line_count(text: &str) -> (r: usize)
    requires
        text@.len() < usize::MAX,
    ensures
        r == line_count(text@),
{
    let chars = to_chars(text);
    if chars.len() == 0 {
        return 0;
    }
    let mut n: usize = 0;
    let mut i: usize = 0;
    assert(chars@.take(0) =~= Seq::empty());
    while i < chars.len()
        invariant
            chars@ == text@,
            i <= chars.len(),
            n <= i,
            n == line_feeds(chars@.take(i as int)),
        decreases chars.len() - i,
    {
        assert(chars@.take(i + 1).drop_last() =~= chars@.take(i as int));
        if chars[i] == '\n' {
            n += 1;
        }
        i += 1;
    }
    assert(chars@.take(i as int) =~= text@);
    n + 1
}

pub open spec fn saturated(n: int) -> usize {
    if n > usize::MAX {
        usize::MAX
    } else if n < 0 {
        0
    } else {
        n as usize
    }
}

/// A block after `len` bytes were inserted at `pos`.
pub open spec fn pushed(block: PastedInputBlock, pos: usize, len: usize) -> PastedInputBlock {
    if block.start >= pos {
        PastedInputBlock {
            start: saturated(block.start + len),
            end: saturated(block.end + len),
            ..block
        }
    } else if block.end > pos {
        PastedInputBlock { end: saturated(block.end + len), ..block }
    } else {
        block
    }
}

/// The blocks after `len` bytes were inserted at `pos`.
pub open spec fn all_pushed(
    blocks: Seq<PastedInputBlock>,
    pos: usize,
    len: usize,
) -> Seq<PastedInputBlock> {
    blocks.map_values(|block: PastedInputBlock| pushed(block, pos, len))
}

pub fn shift_blocks_for_insert(blocks: &mut Vec<PastedInputBlock>, pos: usize, len: usize)
    ensures
        final(blocks)@ == all_pushed(old(blocks)@, pos, len),
{
    let ghost all = blocks@;
    let mut i: usize = 0;
    while i < blocks.len()
        invariant
            i <= blocks.len(),
            blocks@.len() == all.len(),
            forall|j: int| 0 <= j < i ==> blocks@[j] == pushed(#[trigger] all[j], pos, len),
            forall|j: int| i <= j < all.len() ==> blocks@[j] == #[trigger] all[j],
        decreases blocks.len() - i,
    {
        assert(blocks@[i as int] == all[i as int]);
        let mut block = blocks[i];
        if block.start >= pos {
            block.start = block.start.saturating_add(len);
            block.end = block.end.saturating_add(len);
        } else if block.end > pos {
            block.end = block.end.saturating_add(len);
        }
        blocks[i] = block;
        i += 1;
    }
    assert(blocks@ =~= all_pushed(all, pos, len));
}

/// A block after the bytes from `start` to `end` were taken out.
pub open spec fn pulled(block: PastedInputBlock, start: usize, end: usize) -> PastedInputBlock {
    if block.start >= end {
        let gone = saturated(end - start);
        PastedInputBlock {
            start: saturated(block.start - gone),
            end: saturated(block.end - gone),
            ..block
        }
    } else {
        block
    }
}

/// The blocks after the bytes from `start` to `end` were taken out: those that the range
/// touches are gone.
pub open spec fn all_pulled(
    blocks: Seq<PastedInputBlock>,
    start: usize,
    end: usize,
) -> Seq<PastedInputBlock>
    decreases blocks.len(),
{
    if blocks.len() == 0 {
        Seq::empty()
    } else {
        let rest = all_pulled(blocks.drop_last(), start, end);
        let block = blocks.last();
        if block.end <= start || block.start >= end {
            rest.push(pulled(block, start, end))
        } else {
            rest
        }
    }
}

pub fn shift_blocks_for_delete(blocks: &mut Vec<PastedInputBlock>, start: usize, end: usize)
    ensures
        final(blocks)@ == all_pulled(old(blocks)@, start, end),
{
    let gone: usize = end.saturating_sub(start);
    let ghost all = blocks@;
    let mut kept: Vec<PastedInputBlock> = Vec::new();
    let mut i: usize = 0;
    while i < blocks.len()
        invariant
            blocks@ == all,
            i <= blocks.len(),
            gone == saturated(end - start),
            kept@ == all_pulled(all.take(i as int), start, end),
        decreases blocks.len() - i,
    {
        let mut block = blocks[i];
        assert(all.take(i + 1).drop_last() =~= all.take(i as int));
        if block.end <= start || block.start >= end {
            if block.start >= end {
                block.start = block.start.saturating_sub(gone);
                block.end = block.end.saturating_sub(gone);
            }
            kept.push(block);
        }
        i += 1;
    }
    assert(all.take(i as int) =~= all);
    *blocks = kept;
}

/// The blocks with one more, behind those that start no later.
pub open spec fn inserted(blocks: Seq<PastedInputBlock>, block: PastedInputBlock) -> Seq<
    PastedInputBlock,
>
    decreases blocks.len(),
{
    if blocks.len() == 0 || blocks.last().start <= block.start {
        blocks.push(block)
    } else {
        inserted(blocks.drop_last(), block).push(blocks.last())
    }
}

/// The blocks by their start, those with the same start in their order.
pub open spec fn sorted(blocks: Seq<PastedInputBlock>) -> Seq<PastedInputBlock>
    decreases blocks.len(),
{
    if blocks.len() == 0 {
        Seq::empty()
    } else {
        inserted(sorted(blocks.drop_last()), blocks.last())
    }
}

/// Puts a block in behind those that start no later.
pub fn insert_sorted(blocks: &mut Vec<PastedInputBlock>, block: PastedInputBlock)
    ensures
        final(blocks)@ == inserted(old(blocks)@, block),
        forall|i: int|
            0 <= i < final(blocks)@.len() ==> (#[trigger] final(blocks)@[i]) == block || old(
                blocks,
            )@.contains(final(blocks)@[i]),
{
    let ghost all = blocks@;
    let mut at: usize = blocks.len();
    assert(all.take(at as int) =~= all);
    assert(all.skip(at as int) =~= Seq::empty());
    assert(inserted(all, block) =~= inserted(all.take(at as int), block) + all.skip(at as int));
    while at > 0 && blocks[at - 1].start > block.start
        invariant
            blocks@ == all,
            at <= blocks.len(),
            inserted(all, block) == inserted(all.take(at as int), block) + all.skip(at as int),
        decreases at,
    {
        assert(all.take(at as int).drop_last() =~= all.take(at - 1));
        assert(inserted(all.take(at - 1), block) + all.skip(at - 1) =~= inserted(
            all.take(at - 1),
            block,
        ).push(all[at - 1]) + all.skip(at as int));
        at -= 1;
    }
    blocks.insert(at, block);
    assert(blocks@ =~= all.take(at as int).push(block) + all.skip(at as int));
    assert forall|i: int| 0 <= i < blocks@.len() implies (#[trigger] blocks@[i]) == block
        || all.contains(blocks@[i]) by {
        if i < at {
            assert(all[i] == blocks@[i]);
        } else if i > at {
            assert(all[i - 1] == blocks@[i]);
        }
    }
}

/// Sorted blocks are the same blocks, and their starts do not descend.
pub proof fn law_sorting_keeps_the_blocks(blocks: Seq<PastedInputBlock>)
    ensures
        sorted(blocks).to_multiset() == blocks.to_multiset(),
        forall|i: int, j: int|
            0 <= i < j < sorted(blocks).len() ==> (#[trigger] sorted(blocks)[i]).start <= (
            #[trigger] sorted(blocks)[j]).start,
    decreases blocks.len(),
{
    broadcast use vstd::seq_lib::group_to_multiset_ensures;

    if blocks.len() > 0 {
        law_sorting_keeps_the_blocks(blocks.drop_last());
        lemma_inserted(sorted(blocks.drop_last()), blocks.last());
        assert(blocks =~= blocks.drop_last().push(blocks.last()));
    }
}

proof fn lemma_inserted(blocks: Seq<PastedInputBlock>, block: PastedInputBlock)
    requires
        forall|i: int, j: int|
            0 <= i < j < blocks.len() ==> (#[trigger] blocks[i]).start <= (
            #[trigger] blocks[j]).start,
    ensures
        inserted(blocks, block).to_multiset() == blocks.to_multiset().insert(block),
        forall|i: int, j: int|
            0 <= i < j < inserted(blocks, block).len() ==> (#[trigger] inserted(
                blocks,
                block,
            )[i]).start <= (#[trigger] inserted(blocks, block)[j]).start,
        forall|i: int|
            0 <= i < inserted(blocks, block).len() ==> (#[trigger] inserted(blocks, block)[i])
                == block || blocks.contains(inserted(blocks, block)[i]),
    decreases blocks.len(),
{
    broadcast use vstd::seq_lib::group_to_multiset_ensures;

    if blocks.len() == 0 || blocks.last().start <= block.start {
        let all = blocks.push(block);
        assert forall|i: int| 0 <= i < all.len() implies all[i] == block || blocks.contains(
            all[i],
        ) by {
            if i < blocks.len() {
                assert(blocks[i] == all[i]);
            }
        }
    } else {
        let rest = blocks.drop_last();
        lemma_inserted(rest, block);
        let front = inserted(rest, block);
        let all = front.push(blocks.last());
        assert(blocks =~= rest.push(blocks.last()));
        assert(all.to_multiset() =~= blocks.to_multiset().insert(block));
        assert forall|i: int| 0 <= i < all.len() implies all[i] == block || blocks.contains(
            all[i],
        ) by {
            if i < front.len() {
                if front[i] != block {
                    let k = choose|k: int| 0 <= k < rest.len() && rest[k] == front[i];
                    assert(blocks[k] == all[i]);
                }
            } else {
                assert(blocks[blocks.len() - 1] == all[i]);
            }
        }
        assert forall|i: int, j: int| 0 <= i < j < all.len() implies all[i].start
            <= all[j].start by {
            if j == front.len() {
                assert(front[i] == block || rest.contains(front[i]));
                if front[i] != block {
                    let k = choose|k: int| 0 <= k < rest.len() && rest[k] == front[i];
                    assert(blocks[k] == front[i]);
                }
            } else {
                assert(all[i] == front[i] && all[j] == front[j]);
            }
        }
    }
}

/// How a position lies to a block.
#[derive(Debug, Clone, Copy, PartialEq, Eq, Structural)]
pub enum Touch {
    /// Inside it or at its end.
    Behind,
    /// At its start or inside it.
    At,
    /// Inside it.
    Inside,
}

pub open spec fn touches(block: PastedInputBlock, pos: usize, touch: Touch) -> bool {
    match touch {
        Touch::Behind => block.start < pos && pos <= block.end,
        Touch::At => block.start <= pos && pos < block.end,
        Touch::Inside => block.start < pos && pos < block.end,
    }
}

/// The first block that a position touches.
pub open spec fn touched(blocks: Seq<PastedInputBlock>, pos: usize, touch: Touch) -> Option<
    PastedInputBlock,
>
    decreases blocks.len(),
{
    if blocks.len() == 0 {
        None
    } else if touches(blocks[0], pos, touch) {
        Some(blocks[0])
    } else {
        touched(blocks.drop_first(), pos, touch)
    }
}

proof fn lemma_touched(blocks: Seq<PastedInputBlock>, pos: usize, touch: Touch)
    ensures
        match touched(blocks, pos, touch) {
            Some(block) => touches(block, pos, touch) && blocks.contains(block),
            None => forall|i: int|
                0 <= i < blocks.len() ==> !touches(#[trigger] blocks[i], pos, touch),
        },
    decreases blocks.len(),
{
    if blocks.len() > 0 {
        if touches(blocks[0], pos, touch) {
            assert(blocks.contains(blocks[0]));
        } else {
            let rest = blocks.drop_first();
            lemma_touched(rest, pos, touch);
            match touched(rest, pos, touch) {
                Some(block) => {
                    let k = choose|k: int| 0 <= k < rest.len() && rest[k] == block;
                    assert(blocks[k + 1] == block);
                },
                None => {
                    assert forall|i: int| 0 <= i < blocks.len() implies !touches(
                        #[trigger] blocks[i],
                        pos,
                        touch,
                    ) by {
                        if i > 0 {
                            assert(rest[i - 1] == blocks[i]);
                        }
                    }
                },
            }
        }
    }
}

fn find_touched(blocks: &Vec<PastedInputBlock>, pos: usize, touch: Touch) -> (r: Option<
    PastedInputBlock,
>)
    ensures
        r == touched(blocks@, pos, touch),
{
    let mut i: usize = 0;
    assert(blocks@.skip(0) =~= blocks@);
    while i < blocks.len()
        invariant
            i <= blocks.len(),
            touched(blocks@, pos, touch) == touched(blocks@.skip(i as int), pos, touch),
        decreases blocks.len() - i,
    {
        let block = blocks[i];
        assert(blocks@.skip(i as int)[0] == block);
        assert(blocks@.skip(i as int).drop_first() =~= blocks@.skip(i + 1));
        let hit = match touch {
            Touch::Behind => block.start < pos && pos <= block.end,
            Touch::At => block.start <= pos && pos < block.end,
            Touch::Inside => block.start < pos && pos < block.end,
        };
        if hit {
            return Some(block);
        }
        i += 1;
    }
    None
}

/// The input line.
#[derive(Debug)]
pub struct InputEditor {
    pub input: String,
    /// Where the cursor is, in bytes.
    pub cursor_pos: usize,
    pub pasted_input_blocks: Vec<PastedInputBlock>,
    pub next_pasted_input_id: usize,
}

#[verifier::ext_equal]
pub struct EditorModel {
    pub text: Seq<char>,
    pub cursor: usize,
    pub blocks: Seq<PastedInputBlock>,
    pub next_id: usize,
}

impl View for InputEditor {
    type V = EditorModel;

    open spec fn view(&self) -> EditorModel {
        EditorModel {
            text: self.input@,
            cursor: self.cursor_pos,
            blocks: self.pasted_input_blocks@,
            next_id: self.next_pasted_input_id,
        }
    }
}

pub open spec fn block_fits(text: Seq<char>, block: PastedInputBlock) -> bool {
    &&& block.start < block.end <= utf8_len(text)
    &&& is_boundary(text, block.start as nat)
    &&& is_boundary(text, block.end as nat)
}

/// Blocks cover whole characters of the text, in order and without overlap.
pub open spec fn blocks_fit(text: Seq<char>, blocks: Seq<PastedInputBlock>) -> bool {
    &&& forall|i: int| 0 <= i < blocks.len() ==> block_fits(text, #[trigger] blocks[i])
    &&& forall|i: int, j: int|
        0 <= i < j < blocks.len() ==> (#[trigger] blocks[i]).end <= (#[trigger] blocks[j]).start
}

/// A text with another put in before the character at `i`.
pub open spec fn spliced(text: Seq<char>, i: int, new: Seq<char>) -> Seq<char> {
    text.take(i) + new + text.skip(i)
}

/// A text without the characters from `i` to `j`.
pub open spec fn cut(text: Seq<char>, i: int, j: int) -> Seq<char> {
    text.take(i) + text.skip(j)
}

impl EditorModel {
    pub open spec fn empty() -> EditorModel {
        EditorModel { text: Seq::empty(), cursor: 0, blocks: Seq::empty(), next_id: 1 }
    }

    pub open spec fn wf(self) -> bool {
        blocks_fit(self.text, self.blocks)
    }

    /// The cursor at a character boundary.
    pub open spec fn position(self) -> usize {
        boundary(self.text, self.cursor as nat) as usize
    }

    /// The cursor moved to the end of the block that it is in, if it is in one.
    pub open spec fn outside(self) -> usize {
        match touched(self.blocks, self.position(), Touch::Inside) {
            Some(block) => block.end,
            None => self.position(),
        }
    }

    /// The line with a text put in at the cursor.
    pub open spec fn with_text(self, new: Seq<char>) -> EditorModel {
        if new.len() == 0 {
            self
        } else {
            let pos = self.outside();
            EditorModel {
                text: spliced(self.text, boundary_index(self.text, pos as nat), new),
                cursor: (pos + utf8_len(new)) as usize,
                blocks: all_pushed(self.blocks, pos, utf8_len(new) as usize),
                next_id: self.next_id,
            }
        }
    }

    /// The line with a text put in at the cursor as a block.
    pub open spec fn with_block(self, new: Seq<char>) -> EditorModel {
        if new.len() == 0 {
            self
        } else {
            let pos = self.outside();
            let block = PastedInputBlock {
                id: self.next_id,
                start: pos,
                end: (pos + utf8_len(new)) as usize,
                line_count: line_count(new) as usize,
                char_count: new.len() as usize,
            };
            EditorModel {
                blocks: sorted(self.with_text(new).blocks.push(block)),
                next_id: saturated(self.next_id + 1),
                ..self.with_text(new)
            }
        }
    }

    pub open spec fn collapses(new: Seq<char>) -> bool {
        line_count(new) > 1 || text_columns(new) >= COLLAPSED_PASTE_MIN_WIDTH
    }

    pub open spec fn with_paste(self, new: Seq<char>) -> EditorModel {
        if EditorModel::collapses(new) {
            self.with_block(new)
        } else {
            self.with_text(new)
        }
    }

    /// The line without the bytes from `start` to `end`.
    pub open spec fn without(self, start: usize, end: usize) -> EditorModel {
        if start >= end || end > utf8_len(self.text) {
            self
        } else {
            let text = cut(
                self.text,
                boundary_index(self.text, start as nat),
                boundary_index(self.text, end as nat),
            );
            if text.len() == 0 {
                EditorModel { text, blocks: Seq::empty(), next_id: 1, ..self }
            } else {
                EditorModel { text, blocks: all_pulled(self.blocks, start, end), ..self }
            }
        }
    }

    pub open spec fn at(self, cursor: usize) -> EditorModel {
        EditorModel { cursor, ..self }
    }

    pub open spec fn moved_left(self) -> EditorModel {
        match touched(self.blocks, self.position(), Touch::Behind) {
            Some(block) => self.at(block.start),
            None => match boundary_before(self.text, self.position() as nat) {
                Some(pos) => self.at(pos as usize),
                None => self,
            },
        }
    }

    pub open spec fn moved_right(self) -> EditorModel {
        match touched(self.blocks, self.position(), Touch::At) {
            Some(block) => self.at(block.end),
            None => match boundary_after(self.text, self.position() as nat) {
                Some(pos) => self.at(pos as usize),
                None => self,
            },
        }
    }

    /// The line after the block or character before the cursor was deleted.
    pub open spec fn backspaced(self) -> EditorModel {
        match touched(self.blocks, self.position(), Touch::Behind) {
            Some(block) => self.without(block.start, block.end).at(block.start),
            None => match boundary_before(self.text, self.position() as nat) {
                Some(pos) => self.without(pos as usize, self.position()).at(pos as usize),
                None => self,
            },
        }
    }

    /// The line after the block or character at the cursor was deleted.
    pub open spec fn deleted(self) -> EditorModel {
        match touched(self.blocks, self.position(), Touch::At) {
            Some(block) => self.without(block.start, block.end).at(block.start),
            None => match boundary_after(self.text, self.position() as nat) {
                Some(pos) => self.without(self.position(), pos as usize).at(self.position()),
                None => self,
            },
        }
    }
}

/// Where a character of the text before or after a splice ends up.
pub proof fn lemma_splice_offsets(text: Seq<char>, i: int, new: Seq<char>, k: int)
    requires
        0 <= i <= text.len(),
        0 <= k <= text.len(),
    ensures
        k <= i ==> byte_offset(spliced(text, i, new), k) == byte_offset(text, k),
        k >= i ==> byte_offset(spliced(text, i, new), k + new.len()) == byte_offset(text, k)
            + utf8_len(new),
        utf8_len(spliced(text, i, new)) == utf8_len(text) + utf8_len(new),
{
    let all = spliced(text, i, new);
    let head = text.take(i) + new;
    let tail = text.skip(i);
    lemma_byte_length(new);
    lemma_byte_length(text);
    lemma_byte_length(all);
    if k <= i {
        assert(all.take(k) =~= text.take(k));
        lemma_same_start(all, text, k);
    }
    assert(text.take(i) + tail =~= text);
    lemma_offsets_of_sum(text.take(i), new, new.len() as int);
    if k >= i {
        lemma_offsets_of_sum(head, tail, k - i);
        lemma_offsets_of_sum(text.take(i), tail, k - i);
    }
    lemma_offsets_of_sum(head, tail, tail.len() as int);
    lemma_offsets_of_sum(text.take(i), tail, tail.len() as int);
}

/// Where a character of the text before or after a cut ends up.
proof fn lemma_cut_offsets(text: Seq<char>, i: int, j: int, k: int)
    requires
        0 <= i <= j <= text.len(),
        0 <= k <= text.len(),
    ensures
        k <= i ==> byte_offset(cut(text, i, j), k) == byte_offset(text, k),
        k >= j ==> byte_offset(cut(text, i, j), k - (j - i)) + (byte_offset(text, j)
            - byte_offset(text, i)) == byte_offset(text, k),
        utf8_len(cut(text, i, j)) + (byte_offset(text, j) - byte_offset(text, i)) == utf8_len(
            text,
        ),
{
    let all = cut(text, i, j);
    let head = text.take(i);
    let tail = text.skip(j);
    lemma_byte_length(text);
    lemma_byte_length(all);
    if k <= i {
        assert(all.take(k) =~= text.take(k));
        lemma_same_start(all, text, k);
    }
    assert(text.take(j) + tail =~= text);
    assert(head.take(i) =~= text.take(i));
    lemma_same_start(head, text, i);
    assert(text.take(j).take(j) =~= text.take(j));
    lemma_same_start(text.take(j), text, j);
    if k >= j {
        lemma_offsets_of_sum(head, tail, k - j);
        lemma_offsets_of_sum(text.take(j), tail, k - j);
    }
    lemma_offsets_of_sum(head, tail, tail.len() as int);
    lemma_offsets_of_sum(text.take(j), tail, tail.len() as int);
}

/// A boundary of the text that is not beyond the splice is one of the new text, and one that
/// is not before it is one further on.
proof fn lemma_splice_boundary(text: Seq<char>, pos: nat, new: Seq<char>, p: nat)
    requires
        is_boundary(text, pos),
        is_boundary(text, p),
    ensures
        p <= pos ==> is_boundary(spliced(text, boundary_index(text, pos), new), p),
        p >= pos ==> is_boundary(
            spliced(text, boundary_index(text, pos), new),
            (p + utf8_len(new)) as nat,
        ),
{
    let i = boundary_index(text, pos);
    let k = boundary_index(text, p);
    lemma_boundary_index(text, pos);
    lemma_boundary_index(text, p);
    lemma_splice_offsets(text, i, new, k);
    if p <= pos {
        if k > i {
            lemma_offsets_grow(text, i, k);
        }
        lemma_offset_is_boundary(spliced(text, i, new), k);
    }
    if p >= pos {
        if k < i {
            lemma_offsets_grow(text, k, i);
        }
        lemma_offset_is_boundary(spliced(text, i, new), k + new.len());
    }
}

proof fn lemma_cut_boundary(text: Seq<char>, start: nat, end: nat, p: nat)
    requires
        start <= end,
        is_boundary(text, start),
        is_boundary(text, end),
        is_boundary(text, p),
    ensures
        p <= start ==> is_boundary(
            cut(text, boundary_index(text, start), boundary_index(text, end)),
            p,
        ),
        p >= end ==> is_boundary(
            cut(text, boundary_index(text, start), boundary_index(text, end)),
            (p - (end - start)) as nat,
        ),
        boundary_index(text, start) <= boundary_index(text, end) <= text.len(),
        utf8_len(cut(text, boundary_index(text, start), boundary_index(text, end)))
            == utf8_len(text) - (end - start),
{
    let i = boundary_index(text, start);
    let j = boundary_index(text, end);
    let k = boundary_index(text, p);
    lemma_boundary_index(text, start);
    lemma_boundary_index(text, end);
    lemma_boundary_index(text, p);
    if j < i {
        lemma_offsets_grow(text, j, i);
    }
    lemma_cut_offsets(text, i, j, k);
    if p <= start {
        if k > i {
            lemma_offsets_grow(text, i, k);
        }
        lemma_offset_is_boundary(cut(text, i, j), k);
    }
    if p >= end {
        if k < j {
            lemma_offsets_grow(text, k, j);
        }
        lemma_offset_is_boundary(cut(text, i, j), k - (j - i));
    }
}

proof fn lemma_position(editor: EditorModel)
    ensures
        editor.position() as nat == boundary(editor.text, editor.cursor as nat),
        is_boundary(editor.text, editor.position() as nat),
        editor.position() <= editor.cursor,
        editor.position() <= utf8_len(editor.text),
{
    lemma_boundary_index(editor.text, editor.cursor as nat);
    let i = boundary_index(editor.text, editor.cursor as nat);
    lemma_offset_is_boundary(editor.text, i);
    lemma_byte_length(editor.text);
    lemma_offsets_grow(editor.text, i, editor.text.len() as int);
}

proof fn lemma_outside(editor: EditorModel)
    requires
        editor.wf(),
    ensures
        is_boundary(editor.text, editor.outside() as nat),
        editor.outside() <= utf8_len(editor.text),
        forall|i: int|
            0 <= i < editor.blocks.len() ==> !touches(
                #[trigger] editor.blocks[i],
                editor.outside(),
                Touch::Inside,
            ),
{
    lemma_position(editor);
    lemma_touched(editor.blocks, editor.position(), Touch::Inside);
    match touched(editor.blocks, editor.position(), Touch::Inside) {
        Some(block) => {
            let k = choose|k: int| 0 <= k < editor.blocks.len() && editor.blocks[k] == block;
            assert(block_fits(editor.text, editor.blocks[k]));
            assert forall|i: int| 0 <= i < editor.blocks.len() implies !touches(
                #[trigger] editor.blocks[i],
                editor.outside(),
                Touch::Inside,
            ) by {
                assert(block_fits(editor.text, editor.blocks[i]));
                if i < k {
                    assert(editor.blocks[i].end <= editor.blocks[k].start);
                } else if k < i {
                    assert(editor.blocks[k].end <= editor.blocks[i].start);
                }
            }
        },
        None => {},
    }
}

/// Putting text in at a place outside every block keeps the blocks on their passages.
proof fn lemma_insert_keeps_fit(
    text: Seq<char>,
    blocks: Seq<PastedInputBlock>,
    pos: usize,
    new: Seq<char>,
)
    requires
        blocks_fit(text, blocks),
        is_boundary(text, pos as nat),
        utf8_len(text) + utf8_len(new) <= usize::MAX,
        forall|i: int| 0 <= i < blocks.len() ==> !touches(#[trigger] blocks[i], pos, Touch::Inside),
    ensures
        blocks_fit(
            spliced(text, boundary_index(text, pos as nat), new),
            all_pushed(blocks, pos, utf8_len(new) as usize),
        ),
        forall|i: int|
            0 <= i < blocks.len() ==> {
                let after = #[trigger] all_pushed(blocks, pos, utf8_len(new) as usize)[i];
                (blocks[i].end <= pos && after == blocks[i]) || (blocks[i].start >= pos
                    && after.start == blocks[i].start + utf8_len(new))
            },
{
    let len = utf8_len(new) as usize;
    let after = all_pushed(blocks, pos, len);
    let whole = spliced(text, boundary_index(text, pos as nat), new);
    lemma_boundary_index(text, pos as nat);
    lemma_splice_offsets(text, boundary_index(text, pos as nat), new, 0);
    assert forall|i: int| 0 <= i < after.len() implies block_fits(whole, #[trigger] after[i]) && ((
    blocks[i].end <= pos && after[i] == blocks[i]) || (blocks[i].start >= pos && after[i].start
        == blocks[i].start + len && after[i].end == blocks[i].end + len)) by {
        let block = blocks[i];
        assert(block_fits(text, block));
        assert(!touches(block, pos, Touch::Inside));
        assert(after[i] == pushed(block, pos, len));
        lemma_splice_boundary(text, pos as nat, new, block.start as nat);
        lemma_splice_boundary(text, pos as nat, new, block.end as nat);
    }
    assert forall|i: int, j: int| 0 <= i < j < after.len() implies (#[trigger] after[i]).end <= (
    #[trigger] after[j]).start by {
        assert(blocks[i].end <= blocks[j].start);
        assert(block_fits(text, blocks[i]));
        assert(block_fits(text, blocks[j]));
        assert(block_fits(whole, after[i]));
        assert(block_fits(whole, after[j]));
    }
}

/// Taking out a range that cuts no block keeps the other blocks on their passages.
proof fn lemma_delete_keeps_fit(
    text: Seq<char>,
    blocks: Seq<PastedInputBlock>,
    start: usize,
    end: usize,
)
    requires
        blocks_fit(text, blocks),
        start <= end <= utf8_len(text),
        is_boundary(text, start as nat),
        is_boundary(text, end as nat),
    ensures
        ({
            let after = all_pulled(blocks, start, end);
            let rest = cut(
                text,
                boundary_index(text, start as nat),
                boundary_index(text, end as nat),
            );
            &&& blocks_fit(rest, after)
            &&& forall|i: int|
                0 <= i < after.len() && blocks.len() > 0 ==> (#[trigger] after[i]).end
                    <= pulled(blocks.last(), start, end).end
        }),
    decreases blocks.len(),
{
    let rest = cut(text, boundary_index(text, start as nat), boundary_index(text, end as nat));
    lemma_cut_boundary(text, start as nat, end as nat, start as nat);
    if blocks.len() > 0 {
        let front = blocks.drop_last();
        assert forall|i: int| 0 <= i < front.len() implies block_fits(
            text,
            #[trigger] front[i],
        ) by {
            assert(front[i] == blocks[i]);
        }
        assert forall|i: int, j: int| 0 <= i < j < front.len() implies (
        #[trigger] front[i]).end <= (#[trigger] front[j]).start by {
            assert(front[i] == blocks[i] && front[j] == blocks[j]);
        }
        lemma_delete_keeps_fit(text, front, start, end);
        let block = blocks.last();
        assert(block_fits(text, blocks[blocks.len() - 1]));
        let before = all_pulled(front, start, end);
        let moved = pulled(block, start, end);
        let kept = block.end <= start || block.start >= end;
        if kept {
            lemma_cut_boundary(text, start as nat, end as nat, block.start as nat);
            lemma_cut_boundary(text, start as nat, end as nat, block.end as nat);
            assert(block_fits(rest, moved));
        }
        if front.len() > 0 {
            let last = front.last();
            assert(last == blocks[blocks.len() - 2]);
            assert(block_fits(text, blocks[blocks.len() - 2]));
            assert(blocks[blocks.len() - 2].end <= blocks[blocks.len() - 1].start);
            assert(kept && before.len() > 0 ==> pulled(last, start, end).end <= moved.start || !(
            last.end <= start || last.start >= end));
        }
        lemma_pulled_ends(text, front, start, end, block);
        let after = all_pulled(blocks, start, end);
        assert forall|i: int| 0 <= i < after.len() implies block_fits(
            rest,
            #[trigger] after[i],
        ) by {
            if i < before.len() {
                assert(after[i] == before[i]);
            }
        }
        assert forall|i: int, j: int| 0 <= i < j < after.len() implies (
        #[trigger] after[i]).end <= (#[trigger] after[j]).start by {
            assert(after[i] == before[i]);
            if j < before.len() {
                assert(after[j] == before[j]);
            }
        }
    }
}

/// Blocks that end before another still do after a range was taken out.
proof fn lemma_pulled_ends(
    text: Seq<char>,
    blocks: Seq<PastedInputBlock>,
    start: usize,
    end: usize,
    next: PastedInputBlock,
)
    requires
        start <= end,
        next.start < next.end,
        forall|i: int|
            0 <= i < blocks.len() ==> (#[trigger] blocks[i]).start < blocks[i].end <= next.start,
    ensures
        forall|i: int|
            0 <= i < all_pulled(blocks, start, end).len() ==> {
                let after = #[trigger] all_pulled(blocks, start, end)[i];
                &&& after.end <= pulled(next, start, end).end
                &&& next.end <= start || next.start >= end ==> after.end <= pulled(
                    next,
                    start,
                    end,
                ).start
            },
    decreases blocks.len(),
{
    if blocks.len() > 0 {
        let front = blocks.drop_last();
        assert forall|i: int| 0 <= i < front.len() implies (#[trigger] front[i]).start
            < front[i].end <= next.start by {
            assert(front[i] == blocks[i]);
        }
        lemma_pulled_ends(text, front, start, end, next);
        let block = blocks[blocks.len() - 1];
        assert(block.start < block.end <= next.start);
        let before = all_pulled(front, start, end);
        let after = all_pulled(blocks, start, end);
        assert forall|i: int| 0 <= i < after.len() implies (#[trigger] after[i]).end <= pulled(
            next,
            start,
            end,
        ).end && (next.end <= start || next.start >= end ==> after[i].end <= pulled(
            next,
            start,
            end,
        ).start) by {
            if i < before.len() {
                assert(after[i] == before[i]);
            }
        }
    }
}

impl InputEditor {
    pub fn new() -> (r: Self)
        ensures
            r@ == EditorModel::empty(),
            r@.wf(),
    {
        let r = InputEditor {
            input: String::new(),
            cursor_pos: 0,
            pasted_input_blocks: Vec::new(),
            next_pasted_input_id: 1,
        };
        assert(r@ =~= EditorModel::empty());
        r
    }

    /// Replaces the whole line and puts the cursor at its end.
    pub fn set_text(&mut self, text: &str)
        ensures
            final(self)@ == (EditorModel {
                text: text@,
                cursor: utf8_len(text@) as usize,
                ..EditorModel::empty()
            }),
            final(self)@.wf(),
    {
        self.cursor_pos = byte_len(text);
        self.input = text.to_owned();
        self.clear_input_blocks();
    }

    pub fn clear_input_blocks(&mut self)
        ensures
            final(self)@ == (EditorModel { blocks: Seq::empty(), next_id: 1, ..old(self)@ }),
            final(self)@.wf(),
    {
        self.pasted_input_blocks = Vec::new();
        self.next_pasted_input_id = 1;
        assert(self@ =~= (EditorModel { blocks: Seq::empty(), next_id: 1, ..old(self)@ }));
    }

    /// Takes the whole line out.
    pub fn take_input(&mut self) -> (r: String)
        ensures
            r@ == old(self)@.text,
            final(self)@ == EditorModel::empty(),
            final(self)@.wf(),
    {
        let mut taken = String::new();
        core::mem::swap(&mut taken, &mut self.input);
        self.cursor_pos = 0;
        self.clear_input_blocks();
        assert(self@ =~= EditorModel::empty());
        taken
    }

    fn position(&self) -> (r: usize)
        ensures
            r == self@.position(),
    {
        proof {
            lemma_position(self@);
        }
        clamp_char_boundary(self.input.as_str(), self.cursor_pos)
    }

    fn snap_cursor_out_of_paste_block(&mut self)
        ensures
            final(self)@ == old(self)@.at(old(self)@.outside()),
    {
        let pos = self.position();
        self.cursor_pos = match find_touched(&self.pasted_input_blocks, pos, Touch::Inside) {
            Some(block) => block.end,
            None => pos,
        };
    }

    /// Puts a text in at the cursor.
    pub fn insert_text(&mut self, text: &str)
        requires
            old(self)@.wf(),
            utf8_len(old(self)@.text) + utf8_len(text@) <= usize::MAX,
        ensures
            final(self)@ == old(self)@.with_text(text@),
            final(self)@.wf(),
    {
        if text.is_empty() {
            return;
        }
        let ghost before = self@;
        proof {
            lemma_outside(before);
        }
        self.snap_cursor_out_of_paste_block();
        let chars = to_chars(self.input.as_str());
        let (at, pos) = locate(&chars, self.cursor_pos);
        let len: usize = byte_len(text);
        proof {
            lemma_insert_keeps_fit(before.text, before.blocks, pos, text@);
        }
        shift_blocks_for_insert(&mut self.pasted_input_blocks, pos, len);
        let head = from_chars(&chars, 0, at);
        let tail = from_chars(&chars, at, chars.len());
        self.input = concat3(head.as_str(), text, tail.as_str());
        proof {
            assert(head@ =~= before.text.take(at as int));
            assert(tail@ =~= before.text.skip(at as int));
        }
        self.cursor_pos = pos + len;
    }

    /// Puts a text in at the cursor as a block.
    fn insert_collapsed_paste(&mut self, text: &str)
        requires
            old(self)@.wf(),
            utf8_len(old(self)@.text) + utf8_len(text@) <= usize::MAX,
            text@.len() < usize::MAX,
        ensures
            final(self)@ == old(self)@.with_block(text@),
            final(self)@.wf(),
    {
        if text.is_empty() {
            return;
        }
        let ghost before = self@;
        let ghost pos = before.outside();
        proof {
            lemma_outside(before);
            lemma_insert_keeps_fit(before.text, before.blocks, pos, text@);
            lemma_byte_length(text@);
            lemma_offsets_grow(text@, 0, text@.len() as int);
        }
        self.insert_text(text);
        let end: usize = self.cursor_pos;
        let block = PastedInputBlock {
            id: self.next_pasted_input_id,
            start: end - byte_len(text),
            end,
            line_count: logical_line_count(text),
            char_count: to_chars(text).len(),
        };
        self.next_pasted_input_id = self.next_pasted_input_id.saturating_add(1);
        let ghost shifted = self@.blocks;
        insert_sorted(&mut self.pasted_input_blocks, block);
        proof {
            assert(block.start == pos);
            lemma_sorted_fit(self@.text, shifted);
            assert(shifted.push(block).drop_last() =~= shifted);
            lemma_new_block_fits(before, text@, block);
            assert(self@ =~= before.with_block(text@));
        }
    }

    /// Puts a pasted text in: folded where it is long or has several lines.
    pub fn insert_paste(&mut self, text: &str)
        requires
            old(self)@.wf(),
            utf8_len(old(self)@.text) + utf8_len(text@) <= usize::MAX,
            text@.len() < usize::MAX,
        ensures
            final(self)@ == old(self)@.with_paste(text@),
            final(self)@.wf(),
    {
        if should_collapse_paste(text) {
            self.insert_collapsed_paste(text);
        } else {
            self.insert_text(text);
        }
    }

    pub fn move_to_start(&mut self)
        ensures
            final(self)@ == old(self)@.at(0),
    {
        self.cursor_pos = 0;
    }

    pub fn move_to_end(&mut self)
        ensures
            final(self)@ == old(self)@.at(utf8_len(old(self)@.text) as usize),
    {
        self.cursor_pos = byte_len(self.input.as_str());
    }

    pub fn move_cursor_left(&mut self)
        ensures
            final(self)@ == old(self)@.moved_left(),
            old(self)@.wf() ==> final(self)@.wf(),
    {
        let pos = self.position();
        if let Some(block) = find_touched(&self.pasted_input_blocks, pos, Touch::Behind) {
            self.cursor_pos = block.start;
            return;
        }
        if let Some(before) = prev_char_boundary(self.input.as_str(), pos) {
            self.cursor_pos = before;
        }
    }

    pub fn move_cursor_right(&mut self)
        ensures
            final(self)@ == old(self)@.moved_right(),
            old(self)@.wf() ==> final(self)@.wf(),
    {
        let pos = self.position();
        if let Some(block) = find_touched(&self.pasted_input_blocks, pos, Touch::At) {
            self.cursor_pos = block.end;
            return;
        }
        if let Some(after) = next_char_boundary(self.input.as_str(), pos) {
            self.cursor_pos = after;
        }
    }

    fn delete_input_range(&mut self, start: usize, end: usize)
        requires
            old(self)@.wf(),
            is_boundary(old(self)@.text, start as nat),
            is_boundary(old(self)@.text, end as nat),
        ensures
            final(self)@ == old(self)@.without(start, end),
            final(self)@.wf(),
    {
        if start >= end || end > byte_len(self.input.as_str()) {
            return;
        }
        let ghost before = self@;
        let chars = to_chars(self.input.as_str());
        let from: usize = locate(&chars, start).0;
        let to: usize = locate(&chars, end).0;
        proof {
            lemma_delete_keeps_fit(before.text, before.blocks, start, end);
            lemma_cut_boundary(before.text, start as nat, end as nat, start as nat);
        }
        let head = from_chars(&chars, 0, from);
        let tail = from_chars(&chars, to, chars.len());
        proof {
            assert(head@ =~= before.text.take(from as int));
            assert(tail@ =~= before.text.skip(to as int));
        }
        self.input = concat2(head.as_str(), tail.as_str());
        shift_blocks_for_delete(&mut self.pasted_input_blocks, start, end);
        if self.input.as_str().is_empty() {
            self.clear_input_blocks();
        }
        assert(self@ =~= before.without(start, end));
    }

    /// Deletes the block or character before the cursor.
    pub fn backspace(&mut self)
        requires
            old(self)@.wf(),
        ensures
            final(self)@ == old(self)@.backspaced(),
            final(self)@.wf(),
    {
        let ghost before = self@;
        let pos = self.position();
        proof {
            lemma_position(before);
            lemma_touched(before.blocks, pos, Touch::Behind);
            lemma_boundary_index(before.text, pos as nat);
        }
        if let Some(block) = find_touched(&self.pasted_input_blocks, pos, Touch::Behind) {
            proof {
                let k = choose|k: int| 0 <= k < before.blocks.len() && before.blocks[k] == block;
                assert(block_fits(before.text, before.blocks[k]));
            }
            self.delete_input_range(block.start, block.end);
            self.cursor_pos = block.start;
        } else if let Some(previous) = prev_char_boundary(self.input.as_str(), pos) {
            proof {
                lemma_offset_is_boundary(
                    before.text,
                    boundary_index(before.text, pos as nat) - 1,
                );
            }
            self.delete_input_range(previous, pos);
            self.cursor_pos = previous;
        }
    }

    /// Deletes the block or character at the cursor.
    pub fn delete(&mut self)
        requires
            old(self)@.wf(),
        ensures
            final(self)@ == old(self)@.deleted(),
            final(self)@.wf(),
    {
        let ghost before = self@;
        let pos = self.position();
        proof {
            lemma_position(before);
            lemma_touched(before.blocks, pos, Touch::At);
            lemma_boundary_index(before.text, pos as nat);
        }
        if let Some(block) = find_touched(&self.pasted_input_blocks, pos, Touch::At) {
            proof {
                let k = choose|k: int| 0 <= k < before.blocks.len() && before.blocks[k] == block;
                assert(block_fits(before.text, before.blocks[k]));
            }
            self.delete_input_range(block.start, block.end);
            self.cursor_pos = block.start;
        } else if let Some(next) = next_char_boundary(self.input.as_str(), pos) {
            proof {
                lemma_offset_is_boundary(
                    before.text,
                    boundary_index(before.text, pos as nat) + 1,
                );
            }
            self.delete_input_range(pos, next);
            self.cursor_pos = pos;
        }
    }
}

fn should_collapse_paste(text: &str) -> (r: bool)
    requires
        text@.len() < usize::MAX,
    ensures
        r == EditorModel::collapses(text@),
{
    logical_line_count(text) > 1 || text_width(text) >= COLLAPSED_PASTE_MIN_WIDTH
}

/// Blocks that fit are sorted already.
proof fn lemma_sorted_fit(text: Seq<char>, blocks: Seq<PastedInputBlock>)
    requires
        blocks_fit(text, blocks),
    ensures
        sorted(blocks) == blocks,
    decreases blocks.len(),
{
    if blocks.len() > 0 {
        let front = blocks.drop_last();
        assert forall|i: int| 0 <= i < front.len() implies block_fits(
            text,
            #[trigger] front[i],
        ) by {
            assert(front[i] == blocks[i]);
        }
        assert forall|i: int, j: int| 0 <= i < j < front.len() implies (
        #[trigger] front[i]).end <= (#[trigger] front[j]).start by {
            assert(front[i] == blocks[i] && front[j] == blocks[j]);
        }
        lemma_sorted_fit(text, front);
        if front.len() > 0 {
            assert(block_fits(text, blocks[blocks.len() - 2]));
            assert(blocks[blocks.len() - 2].end <= blocks[blocks.len() - 1].start);
        }
        assert(front.push(blocks.last()) =~= blocks);
    }
}

/// A new block fits among those that were moved to make room for it.
proof fn lemma_new_block_fits(before: EditorModel, new: Seq<char>, block: PastedInputBlock)
    requires
        before.wf(),
        new.len() > 0,
        utf8_len(before.text) + utf8_len(new) <= usize::MAX,
        block.start == before.outside(),
        block.end == before.outside() + utf8_len(new),
    ensures
        blocks_fit(
            before.with_text(new).text,
            inserted(before.with_text(new).blocks, block),
        ),
{
    let pos = before.outside();
    let text = before.with_text(new).text;
    let blocks = before.with_text(new).blocks;
    lemma_outside(before);
    lemma_insert_keeps_fit(before.text, before.blocks, pos, new);
    lemma_boundary_index(before.text, pos as nat);
    lemma_splice_offsets(before.text, boundary_index(before.text, pos as nat), new, 0);
    lemma_splice_boundary(before.text, pos as nat, new, pos as nat);
    lemma_byte_length(new);
    lemma_offsets_grow(new, 0, new.len() as int);
    assert(block_fits(text, block));
    assert forall|i: int| 0 <= i < blocks.len() implies (#[trigger] blocks[i]).end <= block.start
        || blocks[i].start >= block.end by {
        assert(block_fits(before.text, before.blocks[i]));
        assert(blocks[i] == all_pushed(before.blocks, pos, utf8_len(new) as usize)[i]);
    }
    lemma_inserted_fits(text, blocks, block);
}

proof fn lemma_inserted_fits(
    text: Seq<char>,
    blocks: Seq<PastedInputBlock>,
    block: PastedInputBlock,
)
    requires
        blocks_fit(text, blocks),
        block_fits(text, block),
        forall|i: int|
            0 <= i < blocks.len() ==> (#[trigger] blocks[i]).end <= block.start
                || blocks[i].start >= block.end,
    ensures
        blocks_fit(text, inserted(blocks, block)),
        forall|i: int|
            0 <= i < inserted(blocks, block).len() ==> (#[trigger] inserted(blocks, block)[i])
                == block || blocks.contains(inserted(blocks, block)[i]),
    decreases blocks.len(),
{
    let all = inserted(blocks, block);
    if blocks.len() == 0 || blocks.last().start <= block.start {
        assert forall|i: int| 0 <= i < all.len() implies block_fits(text, #[trigger] all[i]) && (
        all[i] == block || blocks.contains(all[i])) by {
            if i < blocks.len() {
                assert(all[i] == blocks[i]);
            }
        }
        assert forall|i: int, j: int| 0 <= i < j < all.len() implies (#[trigger] all[i]).end <= (
        #[trigger] all[j]).start by {
            assert(all[i] == blocks[i]);
            if j < blocks.len() {
                assert(all[j] == blocks[j]);
            } else {
                let last = blocks[blocks.len() - 1];
                assert(block_fits(text, last));
                assert(block_fits(text, blocks[i]));
                assert(last.end <= block.start);
                if i < blocks.len() - 1 {
                    assert(blocks[i].end <= last.start);
                }
            }
        }
    } else {
        let front = blocks.drop_last();
        let last = blocks[blocks.len() - 1];
        assert(block_fits(text, last));
        assert forall|i: int| 0 <= i < front.len() implies block_fits(
            text,
            #[trigger] front[i],
        ) && (front[i].end <= block.start || front[i].start >= block.end) by {
            assert(front[i] == blocks[i]);
        }
        assert forall|i: int, j: int| 0 <= i < j < front.len() implies (
        #[trigger] front[i]).end <= (#[trigger] front[j]).start by {
            assert(front[i] == blocks[i] && front[j] == blocks[j]);
        }
        lemma_inserted_fits(text, front, block);
        let inner = inserted(front, block);
        assert forall|i: int| 0 <= i < all.len() implies block_fits(text, #[trigger] all[i]) && (
        all[i] == block || blocks.contains(all[i])) by {
            if i < inner.len() {
                assert(all[i] == inner[i]);
                if inner[i] != block {
                    let k = choose|k: int| 0 <= k < front.len() && front[k] == inner[i];
                    assert(blocks[k] == all[i]);
                }
            } else {
                assert(all[i] == last);
            }
        }
        assert forall|i: int, j: int| 0 <= i < j < all.len() implies (#[trigger] all[i]).end <= (
        #[trigger] all[j]).start by {
            assert(all[i] == inner[i]);
            if j < inner.len() {
                assert(all[j] == inner[j]);
            } else {
                assert(all[j] == last);
                if inner[i] != block {
                    let k = choose|k: int| 0 <= k < front.len() && front[k] == inner[i];
                    assert(blocks[k].end <= last.start);
                }
            }
        }
    }
}

/// Moving over a block steps over the whole of it, in both directions.
pub proof fn law_cursor_skips_blocks(editor: EditorModel, i: int)
    requires
        editor.wf(),
        0 <= i < editor.blocks.len(),
    ensures
        editor.at(editor.blocks[i].start).moved_right() == editor.at(editor.blocks[i].end),
        editor.at(editor.blocks[i].end).moved_left() == editor.at(editor.blocks[i].start),
{
    let block = editor.blocks[i];
    assert(block_fits(editor.text, block));
    let first = editor.at(block.start);
    let last = editor.at(block.end);
    assert(first.position() == block.start);
    assert(last.position() == block.end);
    lemma_touched(editor.blocks, block.start, Touch::At);
    lemma_touched(editor.blocks, block.end, Touch::Behind);
    assert(touches(editor.blocks[i], block.start, Touch::At));
    assert(touches(editor.blocks[i], block.end, Touch::Behind));
    let a = touched(editor.blocks, block.start, Touch::At)->0;
    let k = choose|k: int| 0 <= k < editor.blocks.len() && editor.blocks[k] == a;
    assert(block_fits(editor.text, editor.blocks[k]));
    if k < i {
        assert(editor.blocks[k].end <= editor.blocks[i].start);
    } else if i < k {
        assert(editor.blocks[i].end <= editor.blocks[k].start);
    }
    let b = touched(editor.blocks, block.end, Touch::Behind)->0;
    let m = choose|m: int| 0 <= m < editor.blocks.len() && editor.blocks[m] == b;
    assert(block_fits(editor.text, editor.blocks[m]));
    if m < i {
        assert(editor.blocks[m].end <= editor.blocks[i].start);
    } else if i < m {
        assert(editor.blocks[i].end <= editor.blocks[m].start);
    }
}

/// Deleting what was just typed gives the line back, as long as the cursor was on a boundary
/// outside every block and the line was not empty.
pub proof fn law_backspace_undoes_typing(editor: EditorModel, c: char)
    requires
        editor.wf(),
        is_boundary(editor.text, editor.cursor as nat),
        editor.outside() == editor.cursor,
        editor.text.len() > 0,
        utf8_len(editor.text) + utf8_len(seq![c]) <= usize::MAX,
    ensures
        editor.with_text(seq![c]).backspaced() == editor,
{
    let new = seq![c];
    let pos = editor.cursor;
    let typed = editor.with_text(new);
    let i = boundary_index(editor.text, pos as nat);
    lemma_outside(editor);
    lemma_boundary_index(editor.text, pos as nat);
    lemma_insert_keeps_fit(editor.text, editor.blocks, pos, new);
    lemma_splice_offsets(editor.text, i, new, i);
    lemma_byte_length(new);
    lemma_offsets_grow(new, 0, 1);
    let len = utf8_len(new);
    lemma_offset_is_boundary(typed.text, i + 1);
    lemma_offset_is_boundary(typed.text, i);
    assert(byte_offset(typed.text, i + 1) == pos + len);
    assert(byte_offset(typed.text, i) == pos);
    assert(typed.cursor == pos + len);
    assert(typed.position() == pos + len);
    lemma_touched(typed.blocks, typed.position(), Touch::Behind);
    assert forall|k: int| 0 <= k < typed.blocks.len() implies !touches(
        #[trigger] typed.blocks[k],
        typed.position(),
        Touch::Behind,
    ) by {
        assert(block_fits(editor.text, editor.blocks[k]));
        assert(typed.blocks[k] == all_pushed(editor.blocks, pos, len as usize)[k]);
    }
    if touched(typed.blocks, typed.position(), Touch::Behind) is Some {
        let b = touched(typed.blocks, typed.position(), Touch::Behind)->0;
        let k = choose|k: int| 0 <= k < typed.blocks.len() && typed.blocks[k] == b;
        assert(!touches(typed.blocks[k], typed.position(), Touch::Behind));
    }
    assert(cut(typed.text, i, i + 1) =~= editor.text);
    assert forall|k: int| 0 <= k < editor.blocks.len() implies (#[trigger] editor.blocks[k]).start
        <= editor.blocks[k].end && editor.blocks[k].end + len <= usize::MAX && !touches(
        editor.blocks[k],
        pos,
        Touch::Inside,
    ) by {
        assert(block_fits(editor.text, editor.blocks[k]));
    }
    law_deleting_an_insert_restores_the_blocks(editor.blocks, pos, len as usize);
    lemma_byte_length(typed.text);
    lemma_offsets_grow(typed.text, i + 1, typed.text.len() as int);
    assert(typed.backspaced() =~= editor);
}

/// Where bytes were put in outside every block, taking them out again gives the blocks back.
pub proof fn law_deleting_an_insert_restores_the_blocks(
    blocks: Seq<PastedInputBlock>,
    pos: usize,
    len: usize,
)
    requires
        forall|i: int|
            0 <= i < blocks.len() ==> (#[trigger] blocks[i]).start <= blocks[i].end
                && blocks[i].end + len <= usize::MAX && !touches(blocks[i], pos, Touch::Inside),
        pos + len <= usize::MAX,
    ensures
        all_pulled(all_pushed(blocks, pos, len), pos, (pos + len) as usize) == blocks,
    decreases blocks.len(),
{
    let after = all_pushed(blocks, pos, len);
    if blocks.len() > 0 {
        let front = blocks.drop_last();
        assert forall|i: int| 0 <= i < front.len() implies (#[trigger] front[i]).start
            <= front[i].end && front[i].end + len <= usize::MAX && !touches(
            front[i],
            pos,
            Touch::Inside,
        ) by {
            assert(front[i] == blocks[i]);
        }
        law_deleting_an_insert_restores_the_blocks(front, pos, len);
        assert(after.drop_last() =~= all_pushed(front, pos, len));
        let block = blocks[blocks.len() - 1];
        assert(after.last() == pushed(block, pos, len));
        assert(pulled(after.last(), pos, (pos + len) as usize) =~= block);
        assert(front.push(block) =~= blocks);
    } else {
        assert(after =~= Seq::empty());
    }
}

/// The text that a block marks.
pub open spec fn marked_text(text: Seq<char>, block: PastedInputBlock) -> Seq<char> {
    text.subrange(
        boundary_index(text, block.start as nat),
        boundary_index(text, block.end as nat),
    )
}

/// After a text was put in, each block marks the text that it marked before.
pub proof fn law_blocks_keep_their_text(editor: EditorModel, new: Seq<char>, i: int)
    requires
        editor.wf(),
        utf8_len(editor.text) + utf8_len(new) <= usize::MAX,
        0 <= i < editor.blocks.len(),
    ensures
        editor.with_text(new).blocks.len() == editor.blocks.len(),
        editor.with_text(new).blocks[i].id == editor.blocks[i].id,
        marked_text(editor.with_text(new).text, editor.with_text(new).blocks[i]) == marked_text(
            editor.text,
            editor.blocks[i],
        ),
{
    if new.len() > 0 {
        let pos = editor.outside();
        let at = boundary_index(editor.text, pos as nat);
        let typed = editor.with_text(new);
        let before = editor.blocks[i];
        let after = typed.blocks[i];
        let first = boundary_index(editor.text, before.start as nat);
        let last = boundary_index(editor.text, before.end as nat);
        lemma_outside(editor);
        assert(block_fits(editor.text, before));
        assert(!touches(editor.blocks[i], pos, Touch::Inside));
        assert(after == pushed(before, pos, utf8_len(new) as usize));
        lemma_boundary_index(editor.text, pos as nat);
        lemma_boundary_index(editor.text, before.start as nat);
        lemma_boundary_index(editor.text, before.end as nat);
        lemma_splice_offsets(editor.text, at, new, first);
        lemma_splice_offsets(editor.text, at, new, last);
        if last < first {
            lemma_offsets_grow(editor.text, last, first);
        }
        if before.end <= pos {
            if at < last {
                lemma_offsets_grow(editor.text, at, last);
            }
            lemma_offset_is_boundary(typed.text, first);
            lemma_offset_is_boundary(typed.text, last);
            assert(typed.text.subrange(first, last) =~= editor.text.subrange(first, last));
        } else {
            if first < at {
                lemma_offsets_grow(editor.text, first, at);
            }
            lemma_offset_is_boundary(typed.text, first + new.len());
            lemma_offset_is_boundary(typed.text, last + new.len());
            assert(typed.text.subrange(first + new.len(), last + new.len())
                =~= editor.text.subrange(first, last));
        }
    }
}

/// Taking out the range that was just put in gives the text and the blocks back.
pub proof fn law_deleting_undoes_inserting(editor: EditorModel, new: Seq<char>)
    requires
        editor.wf(),
        utf8_len(editor.text) + utf8_len(new) <= usize::MAX,
    ensures
        ({
            let pos = editor.outside();
            let back = editor.with_text(new).without(pos, (pos + utf8_len(new)) as usize);
            back.text == editor.text && back.blocks == editor.blocks
        }),
{
    let pos = editor.outside();
    let len = utf8_len(new);
    let at = boundary_index(editor.text, pos as nat);
    let typed = editor.with_text(new);
    lemma_outside(editor);
    if new.len() == 0 {
        assert(new =~= Seq::empty());
        assert(len == 0);
    } else {
        lemma_boundary_index(editor.text, pos as nat);
        lemma_splice_offsets(editor.text, at, new, at);
        lemma_byte_length(new);
        lemma_offsets_grow(new, 0, new.len() as int);
        lemma_offset_is_boundary(typed.text, at);
        lemma_offset_is_boundary(typed.text, at + new.len());
        assert(cut(typed.text, at, at + new.len()) =~= editor.text);
        assert forall|i: int| 0 <= i < editor.blocks.len() implies (#[trigger] editor.blocks[i]).start
            <= editor.blocks[i].end && editor.blocks[i].end + len <= usize::MAX && !touches(
            editor.blocks[i],
            pos,
            Touch::Inside,
        ) by {
            assert(block_fits(editor.text, editor.blocks[i]));
        }
        law_deleting_an_insert_restores_the_blocks(editor.blocks, pos, len as usize);
        if editor.text.len() == 0 {
            lemma_byte_length(editor.text);
            if editor.blocks.len() > 0 {
                assert(block_fits(editor.text, editor.blocks[0]));
            }
            assert(editor.blocks =~= Seq::empty());
        }
    }
}

} // verus!
