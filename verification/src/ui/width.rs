//! How many columns a text takes on the terminal.
use crate::text::{from_chars, to_chars};
use unicode_width::{UnicodeWidthChar, UnicodeWidthStr};
use vstd::prelude::*;

verus! {

/// The columns that a text takes.
pub uninterp spec fn text_columns(text: Seq<char>) -> usize;

/// The columns that a character takes; a control character has none.
pub uninterp spec fn char_columns(c: char) -> Option<usize>;

/// Whether a text holds only the printable characters of ASCII.
pub open spec fn printable_ascii(text: Seq<char>) -> bool {
    forall|i: int| 0 <= i < text.len() ==> ' ' <= #[trigger] text[i] <= '~'
}

/// `UnicodeWidthStr::width` gives the columns of a text, which depend on its characters alone; a
/// text of printable ASCII characters, the empty one too, takes one for each.
#[verifier::external_body]
pub(crate) fn text_width(text: &str) -> (r: usize)
    ensures
        r == text_columns(text@),
        printable_ascii(text@) ==> r == text@.len(),
{
    UnicodeWidthStr::width(text)
}

/// `UnicodeWidthChar::width` gives the columns of a character: one for the printable ASCII
/// characters, `None` for control characters.
#[verifier::external_body]
pub(crate) fn char_width(c: char) -> (r: Option<usize>)
    ensures
        r == char_columns(c),
        ' ' <= c <= '~' ==> r == Some(1usize),
        c < ' ' ==> r is None,
{
    UnicodeWidthChar::width(c)
}

/// The columns of a character, with a control character counting as none.
pub open spec fn columns(c: char) -> nat {
    match char_columns(c) {
        Some(n) => n as nat,
        None => 0,
    }
}

/// The columns of the characters one by one, added up.
pub open spec fn total_columns(s: Seq<char>) -> nat
    decreases s.len(),
{
    if s.len() == 0 {
        0
    } else {
        total_columns(s.drop_last()) + columns(s.last())
    }
}

pub fn columns_of(c: char) -> (r: usize)
    ensures
        r == columns(c),
{
    match char_width(c) {
        Some(n) => n,
        None => 0,
    }
}

/// How many of the characters, after the first `n`, fit into `room` columns one after another.
pub open spec fn fitting(s: Seq<char>, n: nat, room: int) -> nat
    decreases s.len() - n,
{
    if n >= s.len() || columns(s[n as int]) > room {
        n
    } else {
        fitting(s, n + 1, room - columns(s[n as int]))
    }
}

/// The longest beginning of a text whose characters fit into the columns.
pub open spec fn fitting_prefix(s: Seq<char>, width: nat) -> Seq<char> {
    if width == 0 {
        Seq::empty()
    } else {
        s.take(fitting(s, 0, width as int) as int)
    }
}

pub proof fn lemma_fitting(s: Seq<char>, n: nat, room: int)
    requires
        n <= s.len(),
        room >= 0,
    ensures
        n <= fitting(s, n, room) <= s.len(),
        total_columns(s.take(fitting(s, n, room) as int)) <= total_columns(s.take(n as int))
            + room,
    decreases s.len() - n,
{
    if n < s.len() && columns(s[n as int]) <= room {
        lemma_fitting(s, n + 1, room - columns(s[n as int]));
        assert(s.take((n + 1) as int).drop_last() =~= s.take(n as int));
    }
}

/// Takes as much of a text as fits into the columns.
pub fn take_width(value: &str, max_width: usize) -> (r: String)
    ensures
        r@ == fitting_prefix(value@, max_width as nat),
{
    if max_width == 0 {
        let r = String::new();
        assert(r@ =~= Seq::empty());
        return r;
    }
    let chars = to_chars(value);
    let mut end: usize = 0;
    let mut room: usize = max_width;
    while end < chars.len() && columns_of(chars[end]) <= room
        invariant
            chars@ == value@,
            end <= chars.len(),
            fitting(value@, 0, max_width as int) == fitting(value@, end as nat, room as int),
        decreases chars.len() - end,
    {
        room -= columns_of(chars[end]);
        end += 1;
    }
    let r = from_chars(&chars, 0, end);
    assert(r@ =~= value@.take(end as int));
    r
}

/// What is taken fits into the columns, and is a beginning of the text.
pub proof fn law_taken_text_fits(s: Seq<char>, width: nat)
    ensures
        total_columns(fitting_prefix(s, width)) <= width,
        fitting_prefix(s, width).len() <= s.len(),
        fitting_prefix(s, width) == s.take(fitting_prefix(s, width).len() as int),
{
    if width > 0 {
        lemma_fitting(s, 0, width as int);
        assert(s.take(0) =~= Seq::empty());
        assert(total_columns(s.take(0)) == 0);
    } else {
        assert(s.take(0) =~= Seq::empty());
    }
}

proof fn lemma_columns_grow(s: Seq<char>, i: int, j: int)
    requires
        0 <= i <= j <= s.len(),
    ensures
        total_columns(s.take(i)) <= total_columns(s.take(j)),
    decreases j - i,
{
    if i < j {
        lemma_columns_grow(s, i, j - 1);
        assert(s.take(j).drop_last() =~= s.take(j - 1));
    }
}

proof fn lemma_next_does_not_fit(s: Seq<char>, n: nat, room: int)
    requires
        n <= s.len(),
        fitting(s, n, room) < s.len(),
    ensures
        n <= fitting(s, n, room),
        total_columns(s.take((fitting(s, n, room) + 1) as int)) > total_columns(s.take(n as int)) + room,
    decreases s.len() - n,
{
    assert(s.take((n + 1) as int).drop_last() =~= s.take(n as int));
    if columns(s[n as int]) <= room {
        lemma_next_does_not_fit(s, n + 1, room - columns(s[n as int]));
    }
}

/// What is taken is the longest beginning of the text that fits: no longer one does. (Of no columns
/// at all nothing is taken, not even characters that take none.)
pub proof fn law_taken_text_is_the_longest(s: Seq<char>, width: nat, n: int)
    requires
        width > 0,
        0 <= n <= s.len(),
    ensures
        total_columns(s.take(n)) <= width <==> n <= fitting_prefix(s, width).len(),
{
    let end = fitting(s, 0, width as int) as int;
    law_taken_text_fits(s, width);
    lemma_fitting(s, 0, width as int);
    assert(s.take(0) =~= Seq::empty());
    assert(total_columns(s.take(0)) == 0);
    if n <= end {
        lemma_columns_grow(s, n, end);
    } else {
        lemma_next_does_not_fit(s, 0, width as int);
        lemma_columns_grow(s, end + 1, n);
    }
}

/// The first place from `n` on from which the rest of a text takes at most `width` columns.
pub open spec fn tail_start(s: Seq<char>, n: nat, width: usize) -> nat
    decreases s.len() - n,
{
    if n >= s.len() || text_columns(s.skip(n as int)) <= width {
        n
    } else {
        tail_start(s, n + 1, width)
    }
}

/// The longest end of a text that takes at most `width` columns.
pub open spec fn fitting_tail(s: Seq<char>, width: usize) -> Seq<char> {
    s.skip(tail_start(s, 0, width) as int)
}

/// Drops characters from the start of a text until it fits into the columns.
pub fn trim_start_to_width(value: &str, max_width: usize) -> (r: String)
    ensures
        r@ == fitting_tail(value@, max_width),
{
    let chars = to_chars(value);
    let mut from: usize = 0;
    while from < chars.len()
        invariant
            chars@ == value@,
            from <= chars.len(),
            tail_start(value@, 0, max_width) == tail_start(value@, from as nat, max_width),
        decreases chars.len() - from,
    {
        let tail = from_chars(&chars, from, chars.len());
        assert(tail@ =~= value@.skip(from as int));
        if text_width(tail.as_str()) <= max_width {
            return tail;
        }
        from += 1;
    }
    let r = String::new();
    assert(r@ =~= value@.skip(from as int));
    r
}

/// The shortest beginning of the reversed text that overflows is where the end starts.
pub open spec fn fitting_end(s: Seq<char>, n: nat, room: int) -> nat
    decreases n,
{
    if n == 0 || n > s.len() || columns(s[n - 1]) > room {
        n
    } else {
        fitting_end(s, (n - 1) as nat, room - columns(s[n - 1]))
    }
}

/// A text cut at its start to fit into the columns, with an ellipsis in front.
pub open spec fn cut_start(s: Seq<char>, width: usize) -> Seq<char> {
    if text_columns(s) <= width {
        s
    } else if width == 0 {
        Seq::empty()
    } else if width == 1 {
        "."@
    } else {
        "…"@ + s.skip(fitting_end(s, s.len(), width - 1) as int)
    }
}

pub fn truncate_display_width(value: &str, width: usize) -> (r: String)
    ensures
        r@ == cut_start(value@, width),
{
    if text_width(value) <= width {
        return value.to_owned();
    }
    if width == 0 {
        let r = String::new();
        assert(r@ =~= Seq::empty());
        return r;
    }
    if width == 1 {
        return ".".to_owned();
    }
    let chars = to_chars(value);
    let mut from: usize = chars.len();
    let mut room: usize = width - 1;
    while from > 0 && columns_of(chars[from - 1]) <= room
        invariant
            chars@ == value@,
            from <= chars.len(),
            fitting_end(value@, value@.len(), width - 1) == fitting_end(
                value@,
                from as nat,
                room as int,
            ),
        decreases from,
    {
        room -= columns_of(chars[from - 1]);
        from -= 1;
    }
    let tail = from_chars(&chars, from, chars.len());
    assert(tail@ =~= value@.skip(from as int));
    let mut r = "…".to_owned();
    r.append(tail.as_str());
    r
}

/// A text cut at its end to fit into the columns, with an ellipsis behind.
pub open spec fn cut_end(s: Seq<char>, width: usize) -> Seq<char> {
    if text_columns(s) <= width {
        s
    } else if width == 0 {
        Seq::empty()
    } else if width == 1 {
        "…"@
    } else {
        fitting_prefix(s, (width - 1) as nat) + "…"@
    }
}

pub fn truncate_display_width_end(value: &str, width: usize) -> (r: String)
    ensures
        r@ == cut_end(value@, width),
{
    if text_width(value) <= width {
        return value.to_owned();
    }
    if width == 0 {
        let r = String::new();
        assert(r@ =~= Seq::empty());
        return r;
    }
    if width == 1 {
        return "…".to_owned();
    }
    let mut r = take_width(value, width - 1);
    r.append("…");
    r
}

} // verus!
