//! Byte positions in a text and the character boundaries among them.
use crate::text::{to_chars, utf8_len};
use vstd::prelude::*;
use vstd::utf8::{encode_scalar, encode_utf8};

verus! {

/// The bytes that a character takes in UTF-8.
pub open spec fn char_bytes(c: char) -> nat {
    encode_scalar(c as u32).len()
}

/// Where the `i`th character of a text starts.
pub open spec fn byte_offset(s: Seq<char>, i: int) -> nat
    decreases i,
{
    if i <= 0 {
        0
    } else {
        byte_offset(s, i - 1) + char_bytes(s[i - 1])
    }
}

/// The last of the first `n` characters' ends that is not beyond `pos`.
pub open spec fn index_at(s: Seq<char>, pos: nat, n: int) -> int
    decreases n,
{
    if n <= 0 {
        0
    } else if byte_offset(s, n) <= pos {
        n
    } else {
        index_at(s, pos, n - 1)
    }
}

/// How many characters end at or before `pos`.
pub open spec fn boundary_index(s: Seq<char>, pos: nat) -> int {
    index_at(s, pos, s.len() as int)
}

/// The last character boundary that is not beyond `pos`.
pub open spec fn boundary(s: Seq<char>, pos: nat) -> nat {
    byte_offset(s, boundary_index(s, pos))
}

pub open spec fn is_boundary(s: Seq<char>, pos: nat) -> bool {
    boundary(s, pos) == pos
}

pub proof fn lemma_char_bytes(c: char)
    ensures
        1 <= char_bytes(c) <= 4,
        (c as u32) < 0x80 ==> char_bytes(c) == 1,
        0x80 <= (c as u32) < 0x800 ==> char_bytes(c) == 2,
        0x800 <= (c as u32) < 0x10000 ==> char_bytes(c) == 3,
        0x10000 <= (c as u32) ==> char_bytes(c) == 4,
{
    broadcast use vstd::utf8::char_is_scalar;

    assert(vstd::utf8::is_scalar(c as u32));
}

/// Later characters start at later positions.
pub proof fn lemma_offsets_grow(s: Seq<char>, i: int, j: int)
    requires
        0 <= i <= j <= s.len(),
    ensures
        byte_offset(s, i) + (j - i) <= byte_offset(s, j),
    decreases j - i,
{
    if i < j {
        lemma_offsets_grow(s, i, j - 1);
        lemma_char_bytes(s[j - 1]);
    }
}

proof fn lemma_index_at(s: Seq<char>, pos: nat, n: int)
    requires
        0 <= n <= s.len(),
        n < s.len() ==> byte_offset(s, n + 1) > pos,
    ensures
        0 <= index_at(s, pos, n) <= n,
        byte_offset(s, index_at(s, pos, n)) <= pos,
        index_at(s, pos, n) < s.len() ==> byte_offset(s, index_at(s, pos, n) + 1) > pos,
    decreases n,
{
    if n > 0 && byte_offset(s, n) > pos {
        lemma_index_at(s, pos, n - 1);
    }
}

pub proof fn lemma_boundary_index(s: Seq<char>, pos: nat)
    ensures
        0 <= boundary_index(s, pos) <= s.len(),
        byte_offset(s, boundary_index(s, pos)) <= pos,
        boundary_index(s, pos) < s.len() ==> byte_offset(s, boundary_index(s, pos) + 1) > pos,
{
    lemma_index_at(s, pos, s.len() as int);
}

/// The start of a character is a boundary, and the index of that boundary is the character's.
pub proof fn lemma_offset_is_boundary(s: Seq<char>, i: int)
    requires
        0 <= i <= s.len(),
    ensures
        is_boundary(s, byte_offset(s, i)),
        boundary_index(s, byte_offset(s, i)) == i,
{
    let k = boundary_index(s, byte_offset(s, i));
    lemma_boundary_index(s, byte_offset(s, i));
    if k < i {
        lemma_offsets_grow(s, k + 1, i);
    } else if i < k {
        lemma_offsets_grow(s, i, k);
    }
}

/// An index whose offset is the last one not beyond `pos` is the boundary's index.
pub proof fn lemma_boundary_index_is(s: Seq<char>, pos: nat, i: int)
    requires
        0 <= i <= s.len(),
        byte_offset(s, i) <= pos,
        i < s.len() ==> byte_offset(s, i + 1) > pos,
    ensures
        boundary_index(s, pos) == i,
{
    let k = boundary_index(s, pos);
    lemma_boundary_index(s, pos);
    if k < i {
        lemma_offsets_grow(s, k + 1, i);
    } else if i < k {
        lemma_offsets_grow(s, i + 1, k);
    }
}

/// Offsets depend on the characters before them alone.
pub proof fn lemma_same_start(a: Seq<char>, b: Seq<char>, i: int)
    requires
        0 <= i <= a.len(),
        i <= b.len(),
        a.take(i) == b.take(i),
    ensures
        byte_offset(a, i) == byte_offset(b, i),
    decreases i,
{
    if i > 0 {
        assert(a.take(i - 1) =~= a.take(i).take(i - 1));
        assert(b.take(i - 1) =~= b.take(i).take(i - 1));
        lemma_same_start(a, b, i - 1);
        assert(a[i - 1] == a.take(i)[i - 1]);
        assert(b[i - 1] == b.take(i)[i - 1]);
    }
}

/// Behind a text, the offsets of another go on from its end.
pub proof fn lemma_offsets_of_sum(a: Seq<char>, b: Seq<char>, i: int)
    requires
        0 <= i <= b.len(),
    ensures
        byte_offset(a + b, a.len() + i) == byte_offset(a, a.len() as int) + byte_offset(b, i),
    decreases i,
{
    if i > 0 {
        lemma_offsets_of_sum(a, b, i - 1);
        assert((a + b)[a.len() + i - 1] == b[i - 1]);
    } else {
        assert((a + b).take(a.len() as int) =~= a.take(a.len() as int));
        lemma_same_start(a + b, a, a.len() as int);
    }
}

/// The length of a text in bytes is where its end is.
pub proof fn lemma_byte_length(s: Seq<char>)
    ensures
        utf8_len(s) == byte_offset(s, s.len() as int),
    decreases s.len(),
{
    if s.len() > 0 {
        let head = s.take(1);
        let rest = s.drop_first();
        lemma_byte_length(rest);
        assert(head + rest =~= s);
        lemma_offsets_of_sum(head, rest, rest.len() as int);
        assert(byte_offset(head, 1) == byte_offset(head, 0) + char_bytes(head[0]));
        assert(head[0] == s[0]);
        assert(encode_utf8(s) == encode_scalar(s[0] as u32) + encode_utf8(rest));
    }
}

pub fn bytes_of(c: char) -> (r: usize)
    ensures
        r == char_bytes(c),
        1 <= r <= 4,
{
    proof {
        lemma_char_bytes(c);
    }
    let code = c as u32;
    if code < 0x80 {
        1
    } else if code < 0x800 {
        2
    } else if code < 0x10000 {
        3
    } else {
        4
    }
}

/// The index and the place of the last boundary that is not beyond `pos`.
pub fn locate(chars: &Vec<char>, pos: usize) -> (r: (usize, usize))
    ensures
        r.0 == boundary_index(chars@, pos as nat),
        r.1 == boundary(chars@, pos as nat),
        r.0 <= chars@.len(),
        r.1 <= pos,
{
    let mut i: usize = 0;
    let mut at: usize = 0;
    while i < chars.len() && bytes_of(chars[i]) <= pos - at
        invariant
            i <= chars.len(),
            at <= pos,
            at == byte_offset(chars@, i as int),
        decreases chars.len() - i,
    {
        at += bytes_of(chars[i]);
        i += 1;
    }
    proof {
        lemma_boundary_index_is(chars@, pos as nat, i as int);
    }
    (i, at)
}

/// Moves a position back to a character boundary of the input.
pub fn clamp_char_boundary(input: &str, pos: usize) -> (r: usize)
    ensures
        r == boundary(input@, pos as nat),
        r <= pos,
{
    locate(&to_chars(input), pos).1
}

/// The boundary before the one at a position.
pub open spec fn boundary_before(s: Seq<char>, pos: nat) -> Option<nat> {
    let i = boundary_index(s, pos);
    if i == 0 {
        None
    } else {
        Some(byte_offset(s, i - 1))
    }
}

/// The boundary after the one at a position.
pub open spec fn boundary_after(s: Seq<char>, pos: nat) -> Option<nat> {
    let i = boundary_index(s, pos);
    if i >= s.len() {
        None
    } else {
        Some(byte_offset(s, i + 1))
    }
}

pub fn prev_char_boundary(input: &str, pos: usize) -> (r: Option<usize>)
    ensures
        match r {
            Some(at) => boundary_before(input@, pos as nat) == Some(at as nat) && at < pos,
            None => boundary_before(input@, pos as nat) is None,
        },
{
    let chars = to_chars(input);
    let (i, at) = locate(&chars, pos);
    proof {
        lemma_boundary_index(input@, pos as nat);
    }
    if i == 0 {
        None
    } else {
        Some(at - bytes_of(chars[i - 1]))
    }
}

pub fn next_char_boundary(input: &str, pos: usize) -> (r: Option<usize>)
    ensures
        match r {
            Some(at) => boundary_after(input@, pos as nat) == Some(at as nat) && at <= utf8_len(
                input@,
            ),
            None => boundary_after(input@, pos as nat) is None,
        },
{
    let chars = to_chars(input);
    let (i, at) = locate(&chars, pos);
    let len: usize = crate::text::byte_len(input);
    proof {
        lemma_boundary_index(input@, pos as nat);
        lemma_byte_length(input@);
    }
    if i >= chars.len() {
        None
    } else {
        proof {
            lemma_offsets_grow(input@, i + 1, input@.len() as int);
        }
        Some(at + bytes_of(chars[i]))
    }
}

/// A clamped position is a boundary, and clamping it again leaves it; one step forward from a
/// boundary is undone by one step back.
pub proof fn law_boundaries(s: Seq<char>, pos: nat)
    ensures
        is_boundary(s, boundary(s, pos)),
        boundary(s, pos) <= pos,
        match boundary_after(s, pos) {
            Some(next) => boundary_before(s, next) == Some(boundary(s, pos)),
            None => boundary(s, pos) == utf8_len(s),
        },
{
    lemma_boundary_index(s, pos);
    let i = boundary_index(s, pos);
    lemma_offset_is_boundary(s, i);
    lemma_byte_length(s);
    if i < s.len() {
        lemma_offset_is_boundary(s, i + 1);
    }
}

} // verus!
