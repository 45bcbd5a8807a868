//! What the small functions on texts promise: how a text is trimmed, divided, joined and replaced,
//! how numbers are written and read, and how titles are cleaned.
use crate::listing::{indented, model_row, padded, session_rows, signed, time_text};
use crate::paths::{config_place, data_place, log_place, under_home, without_empty_end};
use crate::session::{
    cleaned_title, one_line, title_mark, unwrapped, without_marks_at_end, without_marks_at_start,
    SessionModel, SummaryModel,
};
use crate::text::{
    decimal, digit, join, trim, trim_end, trim_end_char, trim_start, white_space,
};
use crate::types::ProfileModel;
use crate::words::{
    all_digits, ascii_lower, ascii_lowercase, first, is_digit, lines, lines_so_far, number,
    numeral_digits, parsed_number, repeat, replace, shortened, without_return, words, words_so_far,
};
use vstd::prelude::*;

verus! {

proof fn lemma_trim_start(s: Seq<char>) -> (a: int)
    ensures
        0 <= a <= s.len(),
        trim_start(s) == s.skip(a),
        forall|i: int| 0 <= i < a ==> white_space(#[trigger] s[i]),
        a < s.len() ==> !white_space(s[a]),
    decreases s.len(),
{
    if s.len() > 0 && white_space(s[0]) {
        let a = lemma_trim_start(s.drop_first());
        assert(s.drop_first().skip(a) =~= s.skip(a + 1));
        assert forall|i: int| 0 <= i < a + 1 implies white_space(#[trigger] s[i]) by {
            if i > 0 {
                assert(s.drop_first()[i - 1] == s[i]);
            }
        }
        a + 1
    } else {
        assert(s.skip(0) =~= s);
        0
    }
}

proof fn lemma_trim_end(s: Seq<char>) -> (b: int)
    ensures
        0 <= b <= s.len(),
        trim_end(s) == s.take(b),
        forall|i: int| b <= i < s.len() ==> white_space(#[trigger] s[i]),
        b > 0 ==> !white_space(s[b - 1]),
    decreases s.len(),
{
    if s.len() > 0 && white_space(s.last()) {
        let b = lemma_trim_end(s.drop_last());
        assert(s.drop_last().take(b) =~= s.take(b));
        assert forall|i: int| b <= i < s.len() implies white_space(#[trigger] s[i]) by {
            if i < s.len() - 1 {
                assert(s.drop_last()[i] == s[i]);
            }
        }
        b
    } else {
        assert(s.take(s.len() as int) =~= s);
        s.len() as int
    }
}

/// Trimming takes all white space from both ends of a text and nothing else.
pub proof fn law_trimming_takes_white_space(s: Seq<char>) -> (ends: (int, int))
    ensures
        0 <= ends.0 <= ends.1 <= s.len(),
        trim(s) == s.subrange(ends.0, ends.1),
        forall|i: int| 0 <= i < ends.0 ==> white_space(#[trigger] s[i]),
        forall|i: int| ends.1 <= i < s.len() ==> white_space(#[trigger] s[i]),
        ends.0 < ends.1 ==> !white_space(s[ends.0]) && !white_space(s[ends.1 - 1]),
{
    let a = lemma_trim_start(s);
    let rest = s.skip(a);
    let b = lemma_trim_end(rest);
    assert(rest.take(b) =~= s.subrange(a, a + b));
    assert forall|i: int| a + b <= i < s.len() implies white_space(#[trigger] s[i]) by {
        assert(rest[i - a] == s[i]);
    }
    if b > 0 {
        assert(rest[b - 1] == s[a + b - 1]);
    }
    (a, a + b)
}

/// Taking white space from the start leaves an end of the text, and from the end a beginning.
pub proof fn law_trimming_one_end(s: Seq<char>) -> (ends: (int, int))
    ensures
        0 <= ends.0 <= s.len() && 0 <= ends.1 <= s.len(),
        trim_start(s) == s.skip(ends.0),
        trim_end(s) == s.take(ends.1),
        forall|i: int| 0 <= i < ends.0 ==> white_space(#[trigger] s[i]),
        forall|i: int| ends.1 <= i < s.len() ==> white_space(#[trigger] s[i]),
        ends.0 < s.len() ==> !white_space(s[ends.0]),
        ends.1 > 0 ==> !white_space(s[ends.1 - 1]),
{
    let a = lemma_trim_start(s);
    let b = lemma_trim_end(s);
    (a, b)
}

/// A character is taken from the end of a text as often as it stands there, and no other is.
pub proof fn law_trimming_a_character(s: Seq<char>, c: char) -> (end: int)
    ensures
        0 <= end <= s.len(),
        trim_end_char(s, c) == s.take(end),
        forall|i: int| end <= i < s.len() ==> #[trigger] s[i] == c,
        end > 0 ==> s[end - 1] != c,
    decreases s.len(),
{
    if s.len() > 0 && s.last() == c {
        let end = law_trimming_a_character(s.drop_last(), c);
        assert(s.drop_last().take(end) =~= s.take(end));
        assert forall|i: int| end <= i < s.len() implies #[trigger] s[i] == c by {
            if i < s.len() - 1 {
                assert(s.drop_last()[i] == s[i]);
            }
        }
        end
    } else {
        assert(s.take(s.len() as int) =~= s);
        s.len() as int
    }
}

/// Two lists of parts that are joined together are joined as each of them is, with the separator
/// between them. One part alone is joined to itself, and no part to nothing.
pub proof fn law_joining_puts_separators_between(
    a: Seq<Seq<char>>,
    b: Seq<Seq<char>>,
    one: Seq<char>,
    sep: Seq<char>,
)
    ensures
        join(Seq::<Seq<char>>::empty(), sep).len() == 0,
        join(seq![one], sep) == one,
        a.len() > 0 && b.len() > 0 ==> join(a + b, sep) == join(a, sep) + sep + join(b, sep),
    decreases b.len(),
{
    if a.len() > 0 && b.len() > 0 {
        if b.len() == 1 {
            assert((a + b).drop_last() =~= a);
        } else {
            law_joining_puts_separators_between(a, b.drop_last(), one, sep);
            assert((a + b).drop_last() =~= a + b.drop_last());
            assert(join(a + b, sep) =~= join(a, sep) + sep + join(b, sep));
        }
    }
}

proof fn lemma_words_behind_white_space(a: Seq<char>, w: char, b: Seq<char>)
    requires
        white_space(w),
    ensures
        words_so_far(a.push(w) + b).0 == words(a) + words_so_far(b).0,
        words_so_far(a.push(w) + b).1 == words_so_far(b).1,
    decreases b.len(),
{
    let all = a.push(w) + b;
    if b.len() == 0 {
        assert(all =~= a.push(w));
        assert(all.drop_last() =~= a);
        assert(words_so_far(all).0 =~= words(a) + words_so_far(b).0);
        assert(words_so_far(all).1 =~= words_so_far(b).1);
    } else {
        lemma_words_behind_white_space(a, w, b.drop_last());
        assert(all.drop_last() =~= a.push(w) + b.drop_last());
        assert(words_so_far(all).0 =~= words(a) + words_so_far(b).0);
    }
}

/// A text without white space is one word, or none if it is empty. White space divides words: those
/// before it come first, and those behind it follow.
pub proof fn law_white_space_divides_words(a: Seq<char>, w: char, b: Seq<char>)
    ensures
        white_space(w) ==> words(a.push(w) + b) == words(a) + words(b),
        (forall|i: int| 0 <= i < a.len() ==> !white_space(#[trigger] a[i])) && a.len() > 0
            ==> words(a) == seq![a],
        words(Seq::<char>::empty()).len() == 0,
{
    if white_space(w) {
        lemma_words_behind_white_space(a, w, b);
        assert(words(a.push(w) + b) =~= words(a) + words(b));
    }
    if forall|i: int| 0 <= i < a.len() ==> !white_space(#[trigger] a[i]) {
        lemma_one_word(a);
    }
}

proof fn lemma_one_word(a: Seq<char>)
    requires
        forall|i: int| 0 <= i < a.len() ==> !white_space(#[trigger] a[i]),
    ensures
        words_so_far(a).0.len() == 0,
        words_so_far(a).1 == a,
    decreases a.len(),
{
    if a.len() > 0 {
        assert forall|i: int| 0 <= i < a.drop_last().len() implies !white_space(
            #[trigger] a.drop_last()[i],
        ) by {
            assert(a.drop_last()[i] == a[i]);
        }
        lemma_one_word(a.drop_last());
        assert(a.drop_last().push(a.last()) =~= a);
    }
}

proof fn lemma_lines_behind_an_end(a: Seq<char>, b: Seq<char>)
    ensures
        lines_so_far(a.push('\n') + b).0 == lines_so_far(a).0.push(
            without_return(lines_so_far(a).1),
        ) + lines_so_far(b).0,
        lines_so_far(a.push('\n') + b).1 == lines_so_far(b).1,
    decreases b.len(),
{
    let all = a.push('\n') + b;
    let done = lines_so_far(a).0.push(without_return(lines_so_far(a).1));
    if b.len() == 0 {
        assert(all =~= a.push('\n'));
        assert(all.drop_last() =~= a);
        assert(lines_so_far(all).0 =~= done + lines_so_far(b).0);
        assert(lines_so_far(all).1 =~= lines_so_far(b).1);
    } else {
        lemma_lines_behind_an_end(a, b.drop_last());
        assert(all.drop_last() =~= a.push('\n') + b.drop_last());
        assert(lines_so_far(all).0 =~= done + lines_so_far(b).0);
    }
}

proof fn lemma_one_line_open(a: Seq<char>)
    requires
        forall|i: int| 0 <= i < a.len() ==> #[trigger] a[i] != '\n',
    ensures
        lines_so_far(a).0.len() == 0,
        lines_so_far(a).1 == a,
    decreases a.len(),
{
    if a.len() > 0 {
        assert forall|i: int| 0 <= i < a.drop_last().len() implies #[trigger] a.drop_last()[i]
            != '\n' by {
            assert(a.drop_last()[i] == a[i]);
        }
        lemma_one_line_open(a.drop_last());
        assert(a.drop_last().push(a.last()) =~= a);
    }
}

/// A text without a line end is one line as it is, or none if it is empty. What stands before the
/// first line end is the first line, without the carriage return that may belong to the end, and
/// the lines of the rest follow.
pub proof fn law_line_ends_divide_lines(a: Seq<char>, b: Seq<char>)
    requires
        forall|i: int| 0 <= i < a.len() ==> #[trigger] a[i] != '\n',
    ensures
        a.len() > 0 ==> lines(a) == seq![a],
        lines(Seq::<char>::empty()).len() == 0,
        ({
            let all = lines(a.push('\n') + b);
            &&& all.len() > 0
            &&& all.drop_first() == lines(b)
            &&& a.len() > 0 && a.last() == '\r' ==> all[0] == a.drop_last()
            &&& a.len() == 0 || a.last() != '\r' ==> all[0] == a
        }),
{
    lemma_one_line_open(a);
    lemma_lines_behind_an_end(a, b);
    assert(lines(a.push('\n') + b).drop_first() =~= lines(b));
}

/// A text that does not begin with what is replaced keeps its first character.
proof fn lemma_replace_behind(pre: Seq<char>, from: Seq<char>, to: Seq<char>, rest: Seq<char>)
    requires
        from.len() > 0,
        forall|k: int|
            0 <= k < pre.len() ==> #[trigger] (pre + from + rest).subrange(k, k + from.len())
                != from,
    ensures
        replace(pre + from + rest, from, to) == pre + to + replace(rest, from, to),
    decreases pre.len(),
{
    let s = pre + from + rest;
    if pre.len() == 0 {
        assert(s.take(from.len() as int) =~= from);
        assert(s.skip(from.len() as int) =~= rest);
        assert(pre + to =~= to);
    } else {
        let less = pre.drop_first();
        let t = less + from + rest;
        assert(s.skip(1) =~= t);
        assert(s.subrange(0, 0int + from.len()) =~= s.take(from.len() as int));
        assert forall|k: int| 0 <= k < less.len() implies #[trigger] t.subrange(k, k + from.len())
            != from by {
            assert(s.subrange(k + 1, k + 1 + from.len()) =~= t.subrange(k, k + from.len()));
            assert((pre + from + rest).subrange(k + 1, (k + 1) + from.len()) != from);
        }
        lemma_replace_behind(less, from, to, rest);
        assert(seq![s[0]] + (less + to + replace(rest, from, to)) =~= pre + to + replace(
            rest,
            from,
            to,
        ));
    }
}

/// The first occurrence of what is replaced gives way to its replacement: what stands before it is
/// kept, and what stands behind it is treated in the same way. Where there is no occurrence, nothing
/// changes.
pub proof fn law_occurrences_are_replaced(
    pre: Seq<char>,
    from: Seq<char>,
    to: Seq<char>,
    rest: Seq<char>,
)
    requires
        from.len() > 0,
    ensures
        (forall|k: int|
            0 <= k < pre.len() ==> #[trigger] (pre + from + rest).subrange(k, k + from.len())
                != from) ==> replace(pre + from + rest, from, to) == pre + to + replace(
            rest,
            from,
            to,
        ),
        (forall|k: int|
            0 <= k <= pre.len() - from.len() ==> #[trigger] pre.subrange(k, k + from.len())
                != from) ==> replace(pre, from, to) == pre,
{
    if forall|k: int|
        0 <= k < pre.len() ==> #[trigger] (pre + from + rest).subrange(k, k + from.len()) != from {
        lemma_replace_behind(pre, from, to, rest);
    }
    if forall|k: int|
        0 <= k <= pre.len() - from.len() ==> #[trigger] pre.subrange(k, k + from.len()) != from {
        lemma_nothing_replaced(pre, from, to);
    }
}

pub proof fn lemma_nothing_replaced(s: Seq<char>, from: Seq<char>, to: Seq<char>)
    requires
        from.len() > 0,
        forall|k: int|
            0 <= k <= s.len() - from.len() ==> #[trigger] s.subrange(k, k + from.len()) != from,
    ensures
        replace(s, from, to) == s,
    decreases s.len(),
{
    if s.len() >= from.len() {
        assert(s.subrange(0, 0int + from.len()) =~= s.take(from.len() as int));
        let t = s.skip(1);
        assert forall|k: int| 0 <= k <= t.len() - from.len() implies #[trigger] t.subrange(
            k,
            k + from.len(),
        ) != from by {
            assert(s.subrange(k + 1, (k + 1) + from.len()) =~= t.subrange(k, k + from.len()));
        }
        lemma_nothing_replaced(t, from, to);
        assert(seq![s[0]] + t =~= s);
    }
}

/// A number is written with digits alone, without needless zeros, and is read back as it was.
pub proof fn law_numerals_are_read_back(n: nat)
    ensures
        all_digits(decimal(n)),
        decimal(n).len() > 0,
        number(decimal(n)) == n,
        n > 0 ==> decimal(n)[0] != '0',
        n <= u64::MAX ==> parsed_number(decimal(n)) == Some(n),
    decreases n,
{
    if n >= 10 {
        law_numerals_are_read_back(n / 10);
        let front = decimal(n / 10);
        let all = front.push(digit(n % 10));
        assert(all.drop_last() =~= front);
        assert forall|i: int| 0 <= i < all.len() implies is_digit(#[trigger] all[i]) by {
            if i < front.len() {
                assert(is_digit(front[i]));
            }
        }
        assert(is_digit(all[0]));
    } else {
        assert(decimal(n).drop_last() =~= Seq::<char>::empty());
        assert(number(Seq::<char>::empty()) == 0);
        assert(is_digit(decimal(n)[0]));
    }
}

/// A numeral counts in tens: one digit more stands for ten times as much and the digit.
pub proof fn law_numerals_count_in_tens(s: Seq<char>, d: nat)
    requires
        d < 10,
    ensures
        number(s.push(digit(d))) == number(s) * 10 + d,
        number(Seq::<char>::empty()) == 0,
{
    assert(s.push(digit(d)).drop_last() =~= s);
}

/// Only digits, at most behind a plus sign, are read as a number, and only as far as it fits.
pub proof fn law_only_numerals_are_numbers(s: Seq<char>)
    ensures
        s.len() == 0 ==> parsed_number(s) is None,
        s == seq!['+'] ==> parsed_number(s) is None,
        all_digits(s) && s.len() > 0 && number(s) <= u64::MAX ==> parsed_number(s) == Some(
            number(s),
        ) && parsed_number(seq!['+'] + s) == Some(number(s)),
        all_digits(s) && number(s) > u64::MAX ==> parsed_number(s) is None,
        forall|i: int|
            0 < i < s.len() && !is_digit(#[trigger] s[i]) ==> parsed_number(s) is None,
        s.len() > 0 && !is_digit(s[0]) && s[0] != '+' ==> parsed_number(s) is None,
{
    assert((seq!['+'] + s).skip(1) =~= s);
    if all_digits(s) && s.len() > 0 {
        assert(is_digit(s[0]));
    }
    assert forall|i: int| 0 < i < s.len() && !is_digit(#[trigger] s[i]) implies parsed_number(
        s,
    ) is None by {
        let digits = numeral_digits(s);
        if s[0] == '+' {
            assert(digits[i - 1] == s[i]);
        } else {
            assert(digits[i] == s[i]);
        }
    }
}

/// In lower case a text is as long as it was. Its capital letters of ASCII are the small ones, and
/// every other character is unchanged.
pub proof fn law_lower_case_changes_capitals(s: Seq<char>, i: int)
    requires
        0 <= i < s.len(),
    ensures
        ascii_lowercase(s).len() == s.len(),
        'A' <= s[i] <= 'Z' ==> ascii_lowercase(s)[i] as nat == s[i] as nat + 32,
        !('A' <= s[i] <= 'Z') ==> ascii_lowercase(s)[i] == s[i],
{
    assert(ascii_lowercase(s)[i] == ascii_lower(s[i]));
}

/// A text that is too long keeps its beginning, with three dots behind it, in as many characters as
/// it may have.
pub proof fn law_shortened_texts_keep_their_beginning(s: Seq<char>, max: nat)
    ensures
        s.len() <= max ==> shortened(s, max) == s,
        s.len() > max && max > 3 ==> {
            &&& shortened(s, max).len() == max
            &&& shortened(s, max).take(max - 3) == s.take(max - 3)
            &&& shortened(s, max).skip(max - 3) == seq!['.', '.', '.']
        },
        s.len() > max && max <= 3 ==> shortened(s, max) == seq!['.', '.', '.'],
        first(s, max).len() == (if s.len() < max {
            s.len()
        } else {
            max
        }),
        first(s, max).is_prefix_of(s),
{
    reveal_strlit("...");
    if s.len() > max && max > 3 {
        assert(shortened(s, max).take(max - 3) =~= s.take(max - 3));
        assert(shortened(s, max).skip(max - 3) =~= seq!['.', '.', '.']);
    }
    if s.len() > max && max <= 3 {
        assert(shortened(s, max) =~= seq!['.', '.', '.']);
    }
}

proof fn lemma_marks_at_start(s: Seq<char>) -> (a: int)
    ensures
        0 <= a <= s.len(),
        without_marks_at_start(s) == s.skip(a),
        forall|i: int| 0 <= i < a ==> title_mark(#[trigger] s[i]),
        a < s.len() ==> !title_mark(s[a]),
    decreases s.len(),
{
    if s.len() > 0 && title_mark(s[0]) {
        let a = lemma_marks_at_start(s.drop_first());
        assert(s.drop_first().skip(a) =~= s.skip(a + 1));
        assert forall|i: int| 0 <= i < a + 1 implies title_mark(#[trigger] s[i]) by {
            if i > 0 {
                assert(s.drop_first()[i - 1] == s[i]);
            }
        }
        a + 1
    } else {
        assert(s.skip(0) =~= s);
        0
    }
}

proof fn lemma_marks_at_end(s: Seq<char>) -> (b: int)
    ensures
        0 <= b <= s.len(),
        without_marks_at_end(s) == s.take(b),
        forall|i: int| b <= i < s.len() ==> title_mark(#[trigger] s[i]),
        b > 0 ==> !title_mark(s[b - 1]),
    decreases s.len(),
{
    if s.len() > 0 && title_mark(s.last()) {
        let b = lemma_marks_at_end(s.drop_last());
        assert(s.drop_last().take(b) =~= s.take(b));
        assert forall|i: int| b <= i < s.len() implies title_mark(#[trigger] s[i]) by {
            if i < s.len() - 1 {
                assert(s.drop_last()[i] == s[i]);
            }
        }
        b
    } else {
        assert(s.take(s.len() as int) =~= s);
        s.len() as int
    }
}

/// A title loses the marks around it, and none inside it: quotes, backticks, hashes and colons.
pub proof fn law_titles_lose_the_marks_around_them(s: Seq<char>) -> (ends: (int, int))
    ensures
        0 <= ends.0 <= ends.1 <= s.len(),
        unwrapped(s) == s.subrange(ends.0, ends.1),
        forall|i: int|
            0 <= i < ends.0 || ends.1 <= i < s.len() ==> #[trigger] s[i] == '"' || s[i] == '\''
                || s[i] == '`' || s[i] == '#' || s[i] == ':' || s[i] == '：',
        forall|i: int|
            ends.0 < ends.1 && (i == ends.0 || i == ends.1 - 1) ==> #[trigger] s[i] != '"' && s[i]
                != '\'' && s[i] != '`' && s[i] != '#' && s[i] != ':' && s[i] != '：',
{
    let a = lemma_marks_at_start(s);
    let rest = s.skip(a);
    let b = lemma_marks_at_end(rest);
    assert(rest.take(b) =~= s.subrange(a, a + b));
    assert forall|i: int| a + b <= i < s.len() implies title_mark(#[trigger] s[i]) by {
        assert(rest[i - a] == s[i]);
    }
    if b > 0 {
        assert(rest[b - 1] == s[a + b - 1]);
    }
    (a, a + b)
}

/// A title is kept on one line, without marks and white space around it, in at most sixty
/// characters. One of which nothing is left is none.
pub proof fn law_titles_are_cleaned(title: Seq<char>)
    ensures
        ({
            let bare = trim(unwrapped(one_line(title)));
            &&& bare.len() == 0 ==> cleaned_title(title) is None
            &&& 0 < bare.len() <= 60 ==> cleaned_title(title) == Some(bare)
            &&& bare.len() > 60 ==> cleaned_title(title) == Some(
                bare.take(57) + seq!['.', '.', '.'],
            )
        }),
{
    reveal_strlit("...");
    let bare = trim(unwrapped(one_line(title)));
    if bare.len() > 60 {
        assert(shortened(bare, 60) =~= bare.take(57) + seq!['.', '.', '.']);
    }
}

/// A generated title is taken once, where anything is left of it. Then the session has it and knows
/// that it was generated, and nothing else of the session changes.
pub proof fn law_generated_titles_are_taken_once(session: SessionModel, title: Seq<char>)
    ensures
        session.title_generated || cleaned_title(title) is None ==> session.with_title(title)
            == session,
        !session.title_generated && cleaned_title(title) is Some ==> {
            let with = session.with_title(title);
            &&& with.title == cleaned_title(title)->0
            &&& with.title_generated
            &&& with.id == session.id
            &&& with.schema_version == session.schema_version
            &&& with.workspace_root == session.workspace_root
            &&& with.created_at == session.created_at
            &&& with.updated_at == session.updated_at
            &&& with.provider == session.provider
            &&& with.model == session.model
            &&& with.reasoning_effort == session.reasoning_effort
            &&& with.plan_mode_enabled == session.plan_mode_enabled
            &&& with.pending_plan == session.pending_plan
            &&& with.ui_messages == session.ui_messages
            &&& with.core_messages == session.core_messages
        },
{
}

/// The summary of a session says of it what the session says itself.
pub proof fn law_summaries_repeat_their_session(session: SessionModel)
    ensures
        session.summarized().id == session.id,
        session.summarized().title == session.title,
        session.summarized().workspace_root == session.workspace_root,
        session.summarized().updated_at == session.updated_at,
        session.summarized().provider == session.provider,
        session.summarized().model == session.model,
{
}

proof fn lemma_blanks(n: nat)
    ensures
        repeat(" "@, n).len() == n,
        forall|i: int| 0 <= i < n ==> #[trigger] repeat(" "@, n)[i] == ' ',
    decreases n,
{
    reveal_strlit(" ");
    if n > 0 {
        lemma_blanks((n - 1) as nat);
    }
}

/// A text that is indented stands at the end of its column behind blanks, one that is padded at the
/// start of it before blanks, and neither is cut.
pub proof fn law_columns_are_filled_with_blanks(s: Seq<char>, n: nat, i: int)
    ensures
        ({
            let free = if s.len() < n {
                n - s.len()
            } else {
                0
            };
            &&& indented(s, n).len() == s.len() + free
            &&& indented(s, n).skip(free) == s
            &&& 0 <= i < free ==> indented(s, n)[i] == ' '
            &&& padded(s, n).len() == s.len() + free
            &&& padded(s, n).take(s.len() as int) == s
            &&& s.len() <= i < s.len() + free ==> padded(s, n)[i] == ' '
        }),
{
    let free = if s.len() < n {
        (n - s.len()) as nat
    } else {
        0
    };
    lemma_blanks(free);
    assert(indented(s, n).skip(free as int) =~= s);
    assert(padded(s, n).take(s.len() as int) =~= s);
}

/// In the list of sessions the identifier, the day, the model with its provider and the title stand
/// in columns of their own, where they fit. The workspace is named where all of them are listed.
pub proof fn law_sessions_are_listed_in_columns(session: SummaryModel, all: bool)
    requires
        session.id.len() <= 36,
        session.provider.len() + session.model.len() < 30,
    ensures
        ({
            let rows = session_rows(session, all);
            let row = rows[0];
            let day = first(session.updated_at, 10);
            let model = session.provider.push('/') + session.model;
            &&& rows.len() == (if all {
                2nat
            } else {
                1
            })
            &&& row.len() == 82 + session.title.len()
            &&& row.take(session.id.len() as int) == session.id
            &&& row.subrange(38, 38int + day.len()) == day
            &&& row.subrange(50, 50int + model.len()) == model
            &&& row.skip(82) == session.title
            &&& all ==> rows[1] == "                                      workspace: "@
                + session.workspace_root
        }),
{
    reveal_strlit("  ");
    reveal_strlit("/");
    let day = first(session.updated_at, 10);
    let model = session.provider + "/"@ + session.model;
    assert(model =~= session.provider.push('/') + session.model);
    law_columns_are_filled_with_blanks(session.id, 36, 0);
    law_columns_are_filled_with_blanks(day, 10, 0);
    law_columns_are_filled_with_blanks(model, 30, 0);
    let row = session_rows(session, all)[0];
    assert(padded(session.id, 36).take(session.id.len() as int) =~= row.take(
        session.id.len() as int,
    ));
    assert(row.subrange(38, 38int + day.len()) =~= padded(day, 10).take(day.len() as int));
    assert(row.subrange(50, 50int + model.len()) =~= padded(model, 30).take(model.len() as int));
    assert(row.skip(82) =~= session.title);
}

/// In the list of models the identifier, the context window, the longest output and the efforts
/// stand in columns of their own, where they fit.
pub proof fn law_models_are_listed_in_columns(model: ProfileModel)
    requires
        decimal(model.context_window as nat).len() <= 10,
        decimal(model.max_output_tokens as nat).len() <= 10,
    ensures
        ({
            let row = model_row(model);
            let id = shortened(model.id, 32);
            let window = decimal(model.context_window as nat);
            let output = decimal(model.max_output_tokens as nat);
            &&& row.take(id.len() as int) == id
            &&& row.subrange(43 - window.len(), 43) == window
            &&& row.subrange(54 - output.len(), 54) == output
            &&& row.skip(57) == join(model.effort_names(), seq![','])
        }),
{
    reveal_strlit(" ");
    reveal_strlit("   ");
    reveal_strlit(",");
    let row = model_row(model);
    let id = shortened(model.id, 32);
    let window = decimal(model.context_window as nat);
    let output = decimal(model.max_output_tokens as nat);
    law_shortened_texts_keep_their_beginning(model.id, 32);
    law_columns_are_filled_with_blanks(id, 32, 0);
    law_columns_are_filled_with_blanks(window, 10, 0);
    law_columns_are_filled_with_blanks(output, 10, 0);
    assert(","@ =~= seq![',']);
    assert(row.take(id.len() as int) =~= padded(id, 32).take(id.len() as int));
    assert(row.subrange(43 - window.len(), 43) =~= indented(window, 10).skip(10 - window.len()));
    assert(row.subrange(54 - output.len(), 54) =~= indented(output, 10).skip(10 - output.len()));
    assert(row.skip(57) =~= join(model.effort_names(), ","@));
}

/// A time that the calendar reaches is printed as it writes it, and any other as the number.
pub proof fn law_times_are_printed(value: u64, text: Seq<char>)
    ensures
        time_text(value, Some(text)) == text,
        time_text(value, None) == decimal(value as nat),
        value < 0x8000_0000_0000_0000 ==> signed(value) == value,
        value >= 0x8000_0000_0000_0000 ==> signed(value) == value - 0x1_0000_0000_0000_0000,
{
}

/// Where the files of the program are: each by the name that was given for it, and otherwise at its
/// place in the home directory.
pub proof fn law_files_have_their_places(home: Seq<char>, named: Seq<char>, other: Option<Seq<char>>)
    ensures
        config_place(home).base == home,
        config_place(home).parts == seq![".config"@, "deepcode"@, "config.toml"@],
        log_place(Some(named), other, home).base == named,
        log_place(Some(named), other, home).parts.len() == 0,
        log_place(None, Some(named), home).base == named,
        log_place(None, Some(named), home).parts == seq!["logs"@, "deepcode.log"@],
        log_place(None, None, home).base == home,
        log_place(None, None, home).parts == seq![
            ".local/state/deepcode"@,
            "logs"@,
            "deepcode.log"@,
        ],
        data_place(Some(named), home).base == named,
        data_place(Some(named), home).parts.len() == 0,
        data_place(None, home).base == home,
        data_place(None, home).parts == seq![".local/share/deepcode"@],
{
    assert(config_place(home).parts =~= seq![".config"@, "deepcode"@, "config.toml"@]);
    assert(log_place(None, Some(named), home).parts =~= seq!["logs"@, "deepcode.log"@]);
    assert(log_place(None, None, home).parts =~= seq![
        ".local/state/deepcode"@,
        "logs"@,
        "deepcode.log"@,
    ]);
    assert(data_place(None, home).parts =~= seq![".local/share/deepcode"@]);
}

/// Behind a tilde and a separator stands the path in the home directory. Any other path is in no
/// home directory.
pub proof fn law_paths_behind_a_tilde(rest: Seq<char>, path: Seq<char>)
    requires
        rest.len() > 0,
        rest[0] != '/' && rest[0] != '.',
        rest.last() != '/' && rest.last() != '.',
    ensures
        under_home(seq!['~', '/'] + rest) == Some(rest),
        path.len() == 0 || path[0] != '~' ==> under_home(path) is None,
        path.len() > 1 && path[1] != '/' ==> under_home(path) is None,
{
    let all = seq!['~', '/'] + rest;
    let behind = all.skip(1);
    assert(behind =~= seq!['/'] + rest);
    assert(behind.drop_first() =~= rest);
    reveal_with_fuel(crate::paths::without_empty_start, 3);
    assert(crate::paths::without_empty_start(behind) == rest);
    assert(without_empty_end(rest) == rest);
}

} // verus!
