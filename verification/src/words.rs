//! Words and lines of a text, and the small transformations that displays need.
use crate::text::{from_chars, join, matches_at, to_chars, white_space, is_white_space};
use vstd::prelude::*;

verus! {

/// The complete words of a text and the word that it breaks off in.
pub open spec fn words_so_far(s: Seq<char>) -> (Seq<Seq<char>>, Seq<char>)
    decreases s.len(),
{
    if s.len() == 0 {
        (Seq::empty(), Seq::empty())
    } else {
        let (done, open) = words_so_far(s.drop_last());
        if !white_space(s.last()) {
            (done, open.push(s.last()))
        } else if open.len() > 0 {
            (done.push(open), Seq::empty())
        } else {
            (done, open)
        }
    }
}

/// The longest runs of a text without white space, in order.
pub open spec fn words(s: Seq<char>) -> Seq<Seq<char>> {
    let (done, open) = words_so_far(s);
    if open.len() > 0 {
        done.push(open)
    } else {
        done
    }
}

/// Whether a text is a word: not empty, and without white space.
pub open spec fn is_word(s: Seq<char>) -> bool {
    s.len() > 0 && forall|i: int| 0 <= i < s.len() ==> !white_space(#[trigger] s[i])
}

proof fn lemma_words_so_far(s: Seq<char>)
    ensures
        forall|k: int|
            0 <= k < words_so_far(s).0.len() ==> is_word(#[trigger] words_so_far(s).0[k]),
        words_so_far(s).1.len() > 0 ==> is_word(words_so_far(s).1),
    decreases s.len(),
{
    if s.len() > 0 {
        lemma_words_so_far(s.drop_last());
    }
}

/// The words of a text are words.
pub proof fn lemma_words(s: Seq<char>)
    ensures
        forall|k: int| 0 <= k < words(s).len() ==> is_word(#[trigger] words(s)[k]),
{
    lemma_words_so_far(s);
}

proof fn lemma_word_behind(s: Seq<char>, word: Seq<char>)
    requires
        forall|i: int| 0 <= i < word.len() ==> !white_space(#[trigger] word[i]),
    ensures
        words_so_far(s + word) == (words_so_far(s).0, words_so_far(s).1 + word),
    decreases word.len(),
{
    if word.len() == 0 {
        assert(s + word =~= s);
        assert(words_so_far(s).1 + word =~= words_so_far(s).1);
    } else {
        let front = word.drop_last();
        assert forall|i: int| 0 <= i < front.len() implies !white_space(#[trigger] front[i]) by {
            assert(front[i] == word[i]);
        }
        lemma_word_behind(s, front);
        assert((s + word).drop_last() =~= s + front);
        assert(word[word.len() - 1] == word.last());
        assert((s + word).last() == word.last());
        assert((words_so_far(s).1 + front).push(word.last()) =~= words_so_far(s).1 + word);
    }
}

/// Words with single blanks between them are read as those words.
pub proof fn law_joined_words_are_read_back(parts: Seq<Seq<char>>)
    requires
        forall|k: int| 0 <= k < parts.len() ==> is_word(#[trigger] parts[k]),
    ensures
        words(join(parts, " "@)) == parts,
    decreases parts.len(),
{
    let text = join(parts, " "@);
    reveal_strlit(" ");
    if parts.len() == 0 {
        assert(words(text) =~= parts);
    } else {
        let front = parts.drop_last();
        let last = parts.last();
        let empty = Seq::<char>::empty();
        assert(is_word(parts[parts.len() - 1]));
        if parts.len() == 1 {
            assert(empty + last =~= text);
            lemma_word_behind(empty, last);
            assert(empty + last =~= last);
            assert(words(text) =~= parts);
        } else {
            assert forall|k: int| 0 <= k < front.len() implies is_word(#[trigger] front[k]) by {
                assert(front[k] == parts[k]);
            }
            law_joined_words_are_read_back(front);
            let head = join(front, " "@);
            let gap = head + " "@;
            assert(" "@ =~= seq![' ']);
            assert(gap.drop_last() =~= head);
            assert(gap.last() == ' ');
            assert(words_so_far(gap) == (front, empty));
            lemma_word_behind(gap, last);
            assert(empty + last =~= last);
            assert(front.push(last) =~= parts);
        }
    }
}

pub fn split_words(s: &str) -> (r: Vec<String>)
    ensures
        r.deep_view() == words(s@),
{
    let chars = to_chars(s);
    let mut done: Vec<String> = Vec::new();
    let mut open = String::new();
    let mut i: usize = 0;
    assert(done.deep_view() =~= Seq::empty());
    assert(chars@.take(0) =~= Seq::empty());
    while i < chars.len()
        invariant
            chars@ == s@,
            i <= chars.len(),
            (done.deep_view(), open@) == words_so_far(chars@.take(i as int)),
        decreases chars.len() - i,
    {
        let ghost before = done.deep_view();
        let ghost word = open@;
        assert(chars@.take(i + 1).drop_last() =~= chars@.take(i as int));
        if !is_white_space(chars[i]) {
            open.push(chars[i]);
        } else if !open.as_str().is_empty() {
            done.push(open);
            assert(done.deep_view() =~= before.push(word));
            open = String::new();
        }
        i += 1;
    }
    assert(chars@.take(i as int) =~= s@);
    if !open.as_str().is_empty() {
        let ghost before = done.deep_view();
        let ghost word = open@;
        done.push(open);
        assert(done.deep_view() =~= before.push(word));
    }
    done
}

/// A line without the carriage return that belongs to its end.
pub open spec fn without_return(line: Seq<char>) -> Seq<char> {
    if line.len() > 0 && line.last() == '\r' {
        line.drop_last()
    } else {
        line
    }
}

/// The complete lines of a text and the line that it breaks off in.
pub open spec fn lines_so_far(s: Seq<char>) -> (Seq<Seq<char>>, Seq<char>)
    decreases s.len(),
{
    if s.len() == 0 {
        (Seq::empty(), Seq::empty())
    } else {
        let (done, open) = lines_so_far(s.drop_last());
        if s.last() == '\n' {
            (done.push(without_return(open)), Seq::empty())
        } else {
            (done, open.push(s.last()))
        }
    }
}

/// The lines of a text, without their ends. A last line need not be ended.
pub open spec fn lines(s: Seq<char>) -> Seq<Seq<char>> {
    let (done, open) = lines_so_far(s);
    if open.len() > 0 {
        done.push(open)
    } else {
        done
    }
}

pub fn split_lines(s: &str) -> (r: Vec<String>)
    ensures
        r.deep_view() == lines(s@),
{
    let chars = to_chars(s);
    let mut done: Vec<String> = Vec::new();
    let mut from: usize = 0;
    let mut i: usize = 0;
    assert(done.deep_view() =~= Seq::empty());
    assert(chars@.take(0) =~= Seq::empty());
    assert(chars@.subrange(0, 0) =~= Seq::empty());
    while i < chars.len()
        invariant
            chars@ == s@,
            from <= i <= chars.len(),
            (done.deep_view(), chars@.subrange(from as int, i as int)) == lines_so_far(
                chars@.take(i as int),
            ),
        decreases chars.len() - i,
    {
        let ghost before = done.deep_view();
        let ghost open = chars@.subrange(from as int, i as int);
        assert(chars@.take(i + 1).drop_last() =~= chars@.take(i as int));
        if chars[i] == '\n' {
            let end: usize = if i > from && chars[i - 1] == '\r' {
                i - 1
            } else {
                i
            };
            let line = from_chars(&chars, from, end);
            assert(line@ =~= without_return(open));
            done.push(line);
            assert(done.deep_view() =~= before.push(line@));
            from = i + 1;
            assert(chars@.subrange(from as int, i + 1) =~= Seq::empty());
        } else {
            assert(chars@.subrange(from as int, i + 1) =~= open.push(chars@[i as int]));
        }
        i += 1;
    }
    assert(chars@.take(i as int) =~= s@);
    if from < chars.len() {
        let ghost before = done.deep_view();
        let line = from_chars(&chars, from, chars.len());
        done.push(line);
        assert(done.deep_view() =~= before.push(line@));
    }
    done
}

/// The text with every occurrence of `from` replaced, from left to right.
pub open spec fn replace(s: Seq<char>, from: Seq<char>, to: Seq<char>) -> Seq<char>
    decreases s.len(),
{
    if from.len() == 0 || s.len() < from.len() {
        s
    } else if s.take(from.len() as int) == from {
        to + replace(s.skip(from.len() as int), from, to)
    } else {
        seq![s[0]] + replace(s.skip(1), from, to)
    }
}

pub fn replaced(s: &str, from: &str, to: &str) -> (r: String)
    requires
        from@.len() > 0,
    ensures
        r@ == replace(s@, from@, to@),
{
    let chars = to_chars(s);
    let pattern = to_chars(from);
    let mut out = String::new();
    let mut i: usize = 0;
    assert(chars@.skip(0) =~= chars@);
    while i < chars.len()
        invariant
            chars@ == s@,
            pattern@ == from@,
            from@.len() > 0,
            i <= chars.len(),
            out@ + replace(chars@.skip(i as int), from@, to@) == replace(s@, from@, to@),
        decreases chars.len() - i,
    {
        let ghost rest = chars@.skip(i as int);
        let ghost before = out@;
        if matches_at(&chars, &pattern, i) {
            assert(rest.take(from@.len() as int) =~= from@);
            assert(rest.skip(from@.len() as int) =~= chars@.skip(i + from@.len()));
            out.append(to);
            assert(out@ + replace(chars@.skip(i + from@.len()), from@, to@) =~= before + (to@
                + replace(chars@.skip(i + from@.len()), from@, to@)));
            i += pattern.len();
        } else {
            assert(!(rest.len() >= from@.len() && rest.take(from@.len() as int) == from@)) by {
                if rest.len() >= from@.len() && rest.take(from@.len() as int) == from@ {
                    assert(chars@.subrange(i as int, i + from@.len()) =~= from@);
                }
            }
            assert(rest.skip(1) =~= chars@.skip(i + 1));
            out.push(chars[i]);
            proof {
                let next = replace(rest.skip(1), from@, to@);
                assert(out@ + next =~= before + (seq![rest[0]] + next));
                if rest.len() < from@.len() {
                    assert(rest =~= seq![rest[0]] + rest.skip(1));
                }
            }
            i += 1;
        }
    }
    assert(chars@.skip(i as int) =~= Seq::empty());
    assert(out@ + Seq::<char>::empty() =~= out@);
    out
}

/// The first `n` characters, or all of them.
pub open spec fn first(s: Seq<char>, n: nat) -> Seq<char> {
    if n < s.len() {
        s.take(n as int)
    } else {
        s
    }
}

pub fn first_chars(s: &str, n: usize) -> (r: String)
    ensures
        r@ == first(s@, n as nat),
{
    let chars = to_chars(s);
    let end: usize = if n < chars.len() {
        n
    } else {
        chars.len()
    };
    let r = from_chars(&chars, 0, end);
    assert(r@ =~= first(s@, n as nat));
    r
}

pub fn char_count(s: &str) -> (r: usize)
    ensures
        r == s@.len(),
{
    to_chars(s).len()
}

/// `n` copies of a text.
pub open spec fn repeat(s: Seq<char>, n: nat) -> Seq<char>
    decreases n,
{
    if n == 0 {
        Seq::empty()
    } else {
        repeat(s, (n - 1) as nat) + s
    }
}

pub fn repeated(s: &str, n: usize) -> (r: String)
    ensures
        r@ == repeat(s@, n as nat),
{
    let mut r = String::new();
    let mut i: usize = 0;
    while i < n
        invariant
            i <= n,
            r@ == repeat(s@, i as nat),
        decreases n - i,
    {
        r.append(s);
        i += 1;
    }
    r
}

/// A text cut to `max` characters, its last three then being dots.
pub open spec fn shortened(s: Seq<char>, max: nat) -> Seq<char> {
    if s.len() <= max {
        s
    } else {
        s.take(
            if max <= 3 {
                0
            } else {
                max - 3
            },
        ) + "..."@
    }
}

pub fn shorten(s: &str, max: usize) -> (r: String)
    ensures
        r@ == shortened(s@, max as nat),
{
    let chars = to_chars(s);
    if chars.len() <= max {
        return s.to_owned();
    }
    let keep: usize = if max <= 3 {
        0
    } else {
        max - 3
    };
    let mut r = from_chars(&chars, 0, keep);
    r.append("...");
    assert(r@ =~= shortened(s@, max as nat));
    r
}

/// A shortened text has at most as many characters as were allowed, three dots aside.
pub proof fn law_shortened_texts_fit(s: Seq<char>, max: nat)
    ensures
        shortened(s, max).len() <= max || shortened(s, max) == "..."@,
        s.len() <= max ==> shortened(s, max) == s,
{
    reveal_strlit("...");
    assert(s.take(0) + "..."@ =~= "..."@);
}

/// The lower-case form of an ASCII letter; any other character is left as it is.
pub open spec fn ascii_lower(c: char) -> char {
    if 'A' <= c <= 'Z' {
        ((c as u32) + 32) as char
    } else {
        c
    }
}

pub open spec fn ascii_lowercase(s: Seq<char>) -> Seq<char> {
    s.map_values(|c: char| ascii_lower(c))
}

fn lower_char(c: char) -> (r: char)
    ensures
        r == ascii_lower(c),
{
    match c {
        'A' => 'a',
        'B' => 'b',
        'C' => 'c',
        'D' => 'd',
        'E' => 'e',
        'F' => 'f',
        'G' => 'g',
        'H' => 'h',
        'I' => 'i',
        'J' => 'j',
        'K' => 'k',
        'L' => 'l',
        'M' => 'm',
        'N' => 'n',
        'O' => 'o',
        'P' => 'p',
        'Q' => 'q',
        'R' => 'r',
        'S' => 's',
        'T' => 't',
        'U' => 'u',
        'V' => 'v',
        'W' => 'w',
        'X' => 'x',
        'Y' => 'y',
        'Z' => 'z',
        _ => c,
    }
}

pub fn to_ascii_lowercase(s: &str) -> (r: String)
    ensures
        r@ == ascii_lowercase(s@),
{
    let chars = to_chars(s);
    let mut r = String::new();
    let mut i: usize = 0;
    while i < chars.len()
        invariant
            chars@ == s@,
            i <= chars.len(),
            r@ == ascii_lowercase(s@).take(i as int),
        decreases chars.len() - i,
    {
        r.push(lower_char(chars[i]));
        i += 1;
        assert(r@ =~= ascii_lowercase(s@).take(i as int));
    }
    assert(r@ =~= ascii_lowercase(s@));
    r
}

/// The lower-case form of a text under Unicode's rules.
pub uninterp spec fn lowercase(s: Seq<char>) -> Seq<char>;

/// `str::to_lowercase` gives the lower-case form of a text, which depends on the text alone.
#[verifier::external_body]
pub(crate) fn to_lowercase(s: &str) -> (r: String)
    ensures
        r@ == lowercase(s@),
{
    s.to_lowercase()
}

pub open spec fn is_digit(c: char) -> bool {
    '0' <= c <= '9'
}

pub open spec fn all_digits(s: Seq<char>) -> bool {
    forall|i: int| 0 <= i < s.len() ==> is_digit(#[trigger] s[i])
}

/// The number that a string of digits denotes.
pub open spec fn number(s: Seq<char>) -> nat
    decreases s.len(),
{
    if s.len() == 0 {
        0
    } else {
        number(s.drop_last()) * 10 + (s.last() as nat - '0' as nat) as nat
    }
}

/// A numeral as the standard library reads it: digits, with an optional plus sign in front.
pub open spec fn numeral_digits(s: Seq<char>) -> Seq<char> {
    if s.len() > 0 && s[0] == '+' {
        s.skip(1)
    } else {
        s
    }
}

pub open spec fn parsed_number(s: Seq<char>) -> Option<nat> {
    let digits = numeral_digits(s);
    if digits.len() > 0 && all_digits(digits) && number(digits) <= u64::MAX {
        Some(number(digits))
    } else {
        None
    }
}

proof fn lemma_number_grows(s: Seq<char>, n: int)
    requires
        0 <= n <= s.len(),
        all_digits(s),
    ensures
        number(s.take(n)) <= number(s),
    decreases s.len() - n,
{
    if n < s.len() {
        assert(s.take(n + 1).drop_last() =~= s.take(n));
        assert(is_digit(s[n]));
        lemma_number_grows(s, n + 1);
    } else {
        assert(s.take(n) =~= s);
    }
}

fn digit_value(c: char) -> (r: Option<u64>)
    ensures
        match r {
            Some(d) => is_digit(c) && d == c as nat - '0' as nat && d < 10,
            None => !is_digit(c),
        },
{
    if '0' <= c && c <= '9' {
        Some(c as u64 - '0' as u64)
    } else {
        None
    }
}

/// Reads a numeral.
pub fn parse_number(s: &str) -> (r: Option<u64>)
    ensures
        match r {
            Some(n) => parsed_number(s@) == Some(n as nat),
            None => parsed_number(s@) is None,
        },
{
    let chars = to_chars(s);
    let from: usize = if chars.len() > 0 && chars[0] == '+' {
        1
    } else {
        0
    };
    let ghost digits = numeral_digits(s@);
    assert(chars@.skip(from as int) =~= digits);
    if chars.len() == from {
        return None;
    }
    let mut n: u64 = 0;
    let mut i: usize = from;
    assert(digits.take(0) =~= Seq::empty());
    while i < chars.len()
        invariant
            chars@ == s@,
            digits == chars@.skip(from as int),
            digits == numeral_digits(s@),
            from <= i <= chars.len(),
            n == number(digits.take(i - from)),
            all_digits(digits.take(i - from)),
        decreases chars.len() - i,
    {
        let ghost k = i - from;
        assert(digits.take(k + 1).drop_last() =~= digits.take(k));
        assert(digits[k] == chars@[i as int]);
        match digit_value(chars[i]) {
            Some(d) => {
                assert forall|j: int| 0 <= j < k + 1 implies is_digit(
                    #[trigger] digits.take(k + 1)[j],
                ) by {
                    if j < k {
                        assert(digits.take(k)[j] == digits.take(k + 1)[j]);
                    }
                }
                if n > (u64::MAX - d) / 10 {
                    proof {
                        if all_digits(digits) {
                            lemma_number_grows(digits, k + 1);
                        }
                    }
                    return None;
                }
                n = n * 10 + d;
            },
            None => {
                assert(!is_digit(digits[k]));
                return None;
            },
        }
        i += 1;
    }
    assert(digits.take(i - from) =~= digits);
    Some(n)
}

} // verus!
