//! What the screen shows: the parts of a file change, the marks before messages, the line for
//! input, the banner, and where things stand on it.
use super::breaking::{
    law_code_is_broken_where_it_has_to_be, law_tails_are_the_longest_that_fit, put_together,
};
use super::texts::{law_numerals_are_read_back, law_trimming_takes_white_space};
use crate::session::{chat, is_blank};
use crate::text::{decimal, find_char, lemma_find_char, starts_with, strip_prefix, trim, white_space};
use crate::ui::banner::{box_line, box_width, header_lines, HeaderModel};
use crate::ui::code::Highlighting;
use crate::ui::cursor::{boundary_index, lemma_boundary_index};
use crate::ui::diff::{
    before_comma, body_of, code_room, diff_heading, diff_message, diff_path, diff_rows,
    diff_so_far, gutter, heading_lines, hunk_start, parsed_size, path_or_file, strip_all,
    summaries, summary_lines, summary_text, title_of, total_added, total_deleted, Summing,
};
use crate::ui::diff::SummaryModel as FileSummary;
use crate::ui::footer::{cursor_place, input_line, narrowed, safe_columns, ModeModel};
use crate::ui::frame::{above_footer, at_the_bottom};
use crate::ui::input_view::plain_view;
use crate::ui::state::AppModel;
use crate::ui::status::{
    file_name, file_options, first_filled, path_so_far, permission_options, plan_options,
};
use crate::ui::style::{Color, SpanModel, Style};
use crate::ui::transcript::{
    chat_lines, messages_lines, prefix_of, reasoning_lines, transcript_lines, TranscriptModel,
};
use crate::ui::usage::TurnUsage;
use crate::ui::viewport::{Rect, ViewportState};
use crate::ui::width::{
    cut_start, fitting_prefix, fitting_tail, law_taken_text_fits, text_columns, total_columns,
};
use crate::ui::wrap::chunks;
use crate::words::{repeat, words};
use vstd::prelude::*;

verus! {

/// The contents of a changed line, put together from its rows.
pub open spec fn shown_content(rows: Seq<Seq<SpanModel>>) -> Seq<Seq<char>> {
    Seq::new(rows.len(), |i: int| rows[i][2].content)
}

/// A changed line is shown whole, and only its first row has the number before it.
pub proof fn law_changes_are_shown_whole(
    text: Seq<char>,
    width: u16,
    line_number: Option<usize>,
    sign: char,
    color: Color,
    style: Style,
    i: int,
)
    ensures
        ({
            let rows = diff_rows(text, width, line_number, sign, color, style);
            let before = gutter(width, line_number, sign);
            &&& rows.len() > 0
            &&& put_together(shown_content(rows)) == text
            &&& rows[0][1].content == before
            &&& 0 < i < rows.len() ==> rows[i][1].content == repeat(
                " "@,
                text_columns(before) as nat,
            )
            &&& 0 <= i < rows.len() ==> rows[i][1].style.bg == style.bg
        }),
{
    let rows = diff_rows(text, width, line_number, sign, color, style);
    let before = gutter(width, line_number, sign);
    let room = code_room(width, text_columns(before));
    law_code_is_broken_where_it_has_to_be(text, room, 0);
    assert(shown_content(rows) =~= chunks(text, room));
}

proof fn lemma_no_comma(digits: Seq<char>, tail: Seq<char>)
    requires
        forall|i: int| 0 <= i < digits.len() ==> '0' <= #[trigger] digits[i] <= '9',
        tail.len() == 0 || tail[0] == ',',
    ensures
        before_comma(digits + tail) == digits,
{
    let s = digits + tail;
    lemma_find_char(s, ',');
    match find_char(s, ',') {
        Some(at) => {
            if at < digits.len() {
                assert(s[at] == digits[at]);
            }
            if at > digits.len() {
                assert(s[digits.len() as int] == tail[0]);
            }
            assert(s.take(at) =~= digits);
        },
        None => {
            if tail.len() > 0 {
                assert(s[digits.len() as int] == ',');
            }
            assert(s =~= digits);
        },
    }
}

proof fn lemma_start(sign: Seq<char>, n: nat, tail: Seq<char>)
    requires
        sign.len() == 1,
        sign[0] == '-' || sign[0] == '+',
        n <= usize::MAX,
        tail.len() == 0 || tail[0] == ',',
    ensures
        parsed_size(before_comma(strip_all(sign + decimal(n) + tail, sign))) == Some(n),
{
    law_numerals_are_read_back(n);
    let digits = decimal(n);
    let s = sign + digits + tail;
    assert(s.subrange(0, 1) =~= sign);
    assert(s.skip(1) =~= digits + tail);
    reveal_with_fuel(strip_all, 3);
    let rest = digits + tail;
    assert(rest[0] == digits[0]);
    assert(crate::words::is_digit(digits[0]));
    assert(rest.subrange(0, 1)[0] == rest[0]);
    assert(!starts_with(rest, sign));
    assert(strip_all(s, sign) == rest);
    assert forall|i: int| 0 <= i < digits.len() implies '0' <= #[trigger] digits[i] <= '9' by {
        assert(crate::words::is_digit(digits[i]));
    }
    lemma_no_comma(digits, tail);
}

/// The head of a hunk gives the lines at which it starts, before and after the change, whatever the
/// lengths behind the commas are.
pub proof fn law_hunks_start_where_their_heads_say(
    line: Seq<char>,
    old_start: nat,
    old_tail: Seq<char>,
    new_start: nat,
    new_tail: Seq<char>,
)
    requires
        words(line).len() >= 3,
        words(line)[1] == "-"@ + decimal(old_start) + old_tail,
        words(line)[2] == "+"@ + decimal(new_start) + new_tail,
        old_start <= usize::MAX,
        new_start <= usize::MAX,
        old_tail.len() == 0 || old_tail[0] == ',',
        new_tail.len() == 0 || new_tail[0] == ',',
    ensures
        hunk_start(line) == Some((old_start, new_start)),
{
    reveal_strlit("-");
    reveal_strlit("+");
    lemma_start("-"@, old_start, old_tail);
    lemma_start("+"@, new_start, new_tail);
}

/// A line with fewer than three words is no head of a hunk.
pub proof fn law_short_lines_start_no_hunk(line: Seq<char>)
    ensures
        words(line).len() < 3 ==> hunk_start(line) is None,
{
}

/// A title names the operation before its first colon and the file behind it. Without one, a change
/// from no file is a creation, and the target is the file, or how many there are.
pub proof fn law_changes_are_headed(
    before: Seq<char>,
    behind: Seq<char>,
    files: Seq<FileSummary>,
    diff: Seq<Seq<char>>,
)
    requires
        forall|i: int| 0 <= i < before.len() ==> #[trigger] before[i] != ':',
    ensures
        diff_heading(Some(before.push(':') + behind), files, diff) == (trim(before), trim(behind)),
        diff.contains("--- /dev/null"@) ==> diff_heading(None, files, diff).0 == "Create"@,
        !diff.contains("--- /dev/null"@) ==> diff_heading(None, files, diff).0 == "Update"@,
        files.len() == 1 ==> diff_heading(None, files, diff).1 == files[0].path,
        files.len() != 1 ==> diff_heading(None, files, diff).1 == decimal(files.len()) + " files"@,
{
    let title = before.push(':') + behind;
    lemma_find_char(title, ':');
    assert(title[before.len() as int] == ':');
    let at = find_char(title, ':')->0;
    if at < before.len() {
        assert(title[at] == before[at]);
    }
    assert(at == before.len());
    assert(title.take(at) =~= before);
    assert(title.skip(at + 1) =~= behind);
}

/// Only a first line that says so is a title, and all other lines are the change.
pub proof fn law_titles_come_first(raw: Seq<Seq<char>>)
    ensures
        raw.len() > 0 && starts_with(raw[0], "Create:"@) ==> title_of(raw) == Some(raw[0]),
        raw.len() > 0 && starts_with(raw[0], "Update:"@) ==> title_of(raw) == Some(raw[0]),
        raw.len() > 0 && !starts_with(raw[0], "Create:"@) && !starts_with(raw[0], "Update:"@)
            ==> title_of(raw) is None,
        raw.len() == 0 ==> title_of(raw) is None,
        title_of(raw) is None ==> body_of(raw) == raw,
        title_of(raw) is Some ==> body_of(raw) == raw.skip(1),
{
}

/// What a change comes to is told in words: what was added before what was removed, in the singular
/// for one line, and in how many files where there are several.
pub proof fn law_changes_are_summed_up(added: usize, deleted: usize, files: nat)
    requires
        files <= 1,
    ensures
        ({
            let gain = "Added "@ + decimal(added as nat) + (if added == 1 {
                " line"@
            } else {
                " lines"@
            });
            let loss = "removed "@ + decimal(deleted as nat) + (if deleted == 1 {
                " line"@
            } else {
                " lines"@
            });
            &&& added > 0 && deleted > 0 ==> summary_text(added, deleted, files) == "  └ "@ + (gain
                + ", "@ + loss)
            &&& added > 0 && deleted == 0 ==> summary_text(added, deleted, files) == "  └ "@ + gain
            &&& added == 0 && deleted > 0 ==> summary_text(added, deleted, files) == "  └ "@ + loss
            &&& added == 0 && deleted == 0 ==> summary_text(added, deleted, files) == "  └ "@
                + "No changed lines"@
        }),
{
    assert(forall|s: Seq<char>| #[trigger] (s + Seq::<char>::empty()) =~= s);
}

/// Several files are counted behind that.
pub proof fn law_several_files_are_counted(added: usize, deleted: usize, files: nat)
    requires
        files > 1,
    ensures
        summary_text(added, deleted, files) == summary_text(added, deleted, 1) + (" in "@ + decimal(
            files,
        ) + " files"@),
{
    let one = summary_text(added, deleted, 1);
    assert(forall|s: Seq<char>| #[trigger] (s + Seq::<char>::empty()) =~= s);
}

/// The lines of all files are added up, as far as they can be counted.
pub proof fn law_lines_of_files_are_added_up(files: Seq<FileSummary>, one: FileSummary)
    ensures
        total_added(Seq::<FileSummary>::empty()) == 0,
        total_deleted(Seq::<FileSummary>::empty()) == 0,
        total_added(files) + one.added <= usize::MAX ==> total_added(files.push(one))
            == total_added(files) + one.added,
        total_added(files) + one.added > usize::MAX ==> total_added(files.push(one)) == usize::MAX,
        total_deleted(files) + one.deleted <= usize::MAX ==> total_deleted(files.push(one))
            == total_deleted(files) + one.deleted,
        total_deleted(files) + one.deleted > usize::MAX ==> total_deleted(files.push(one))
            == usize::MAX,
{
    assert(files.push(one).drop_last() =~= files);
}

/// A new file in a change ends the one before it, which is kept only where something changed, and
/// starts counting anew under its own name. The name after the change takes the place of the one
/// before it, unless there is no file after it.
pub proof fn law_files_are_told_apart(
    done: Seq<FileSummary>,
    file: FileSummary,
    raw: Seq<char>,
)
    ensures
        starts_with(raw, "diff --git "@) || starts_with(raw, "--- "@) ==> {
            let after = (Summing { done, current: Some(file) }).line(raw);
            &&& file.added > 0 || file.deleted > 0 || file.hunks > 0 ==> after.done == done.push(
                file,
            )
            &&& file.added == 0 && file.deleted == 0 && file.hunks == 0 ==> after.done == done
            &&& after.current is Some
            &&& (after.current->0).path == path_or_file(raw)
            &&& (after.current->0).added == 0
            &&& (after.current->0).deleted == 0
            &&& (after.current->0).hunks == 0
        },
        starts_with(raw, "+++ "@) && !starts_with(raw, "diff --git "@) && !starts_with(
            raw,
            "--- "@,
        ) ==> {
            let after = (Summing { done, current: Some(file) }).line(raw);
            &&& path_or_file(raw) == "/dev/null"@ ==> after == (Summing {
                done,
                current: Some(file),
            })
            &&& path_or_file(raw) != "/dev/null"@ ==> after.done == done && after.current is Some
                && (after.current->0).path == path_or_file(raw) && (after.current->0).added
                == file.added && (after.current->0).deleted == file.deleted
                && (after.current->0).hunks == file.hunks
        },
        (Summing { done, current: Some(file) }).closed() == (if file.added > 0 || file.deleted > 0
            || file.hunks > 0 {
            done.push(file)
        } else {
            done
        }),
{
}

proof fn lemma_trimmed_already(s: Seq<char>)
    requires
        s.len() > 0,
        !white_space(s[0]),
        !white_space(s.last()),
    ensures
        trim(s) == s,
{
    let (a, b) = law_trimming_takes_white_space(s);
    assert(a == 0);
    assert(b == s.len());
    assert(s.subrange(a, b) =~= s);
}

/// The name of a file stands behind the marks of a change, without the letter of its side.
pub proof fn law_names_of_files_are_found(path: Seq<char>)
    requires
        path.len() > 0,
        !white_space(path.last()),
        !white_space('a'),
        !white_space('b'),
        !starts_with(path, "a/"@),
        !starts_with(path, "b/"@),
    ensures
        diff_path("--- "@ + ("a/"@ + path)) == Some(path),
        diff_path("+++ "@ + ("b/"@ + path)) == Some(path),
{
    reveal_strlit("diff --git ");
    reveal_strlit("--- ");
    reveal_strlit("+++ ");
    reveal_strlit("a/");
    reveal_strlit("b/");
    let old_name = "a/"@ + path;
    let new_name = "b/"@ + path;
    let old_line = "--- "@ + old_name;
    let new_line = "+++ "@ + new_name;
    assert(old_line.subrange(0, 4) =~= "--- "@);
    assert(old_line.skip(4) =~= old_name);
    assert(new_line.subrange(0, 4) =~= "+++ "@);
    assert(new_line.skip(4) =~= new_name);
    assert(old_line[0] == '-');
    assert(new_line[0] == '+');
    if starts_with(old_line, "diff --git "@) {
        assert(old_line.subrange(0, "diff --git "@.len() as int)[0] == 'd');
    }
    if starts_with(new_line, "diff --git "@) {
        assert(new_line.subrange(0, "diff --git "@.len() as int)[0] == 'd');
    }
    if starts_with(new_line, "--- "@) {
        assert(new_line.subrange(0, 4)[0] == '-');
    }
    assert(strip_prefix(old_line, "--- "@) == Some(old_name));
    assert(strip_prefix(new_line, "+++ "@) == Some(new_name));
    assert(old_name.last() == path.last());
    assert(new_name.last() == path.last());
    lemma_trimmed_already(old_name);
    lemma_trimmed_already(new_name);
    reveal_with_fuel(strip_all, 3);
    assert(old_name.subrange(0, 2) =~= "a/"@);
    assert(old_name.skip(2) =~= path);
    assert(new_name.subrange(0, 2) =~= "b/"@);
    assert(new_name.skip(2) =~= path);
    assert(new_name[0] == 'b');
    if starts_with(new_name, "a/"@) {
        assert(new_name.subrange(0, 2)[0] == 'a');
    }
    assert(strip_all(path, "a/"@) == path);
    assert(strip_all(path, "b/"@) == path);
    assert(strip_all(old_name, "a/"@) == path);
    assert(strip_all(new_name, "a/"@) == new_name);
    assert(strip_all(new_name, "b/"@) == path);
}

/// A file change is shown with its heading first, what it comes to next, and then its lines.
pub proof fn law_changes_are_shown_in_order(content: Seq<char>, width: u16)
    requires
        width > 0,
    ensures
        ({
            let raw = crate::words::lines(content);
            let diff = body_of(raw);
            let files = summaries(diff);
            let heading = diff_heading(title_of(raw), files, diff);
            let top = heading_lines(heading.0, heading.1, width);
            let shown = diff_message(content, width);
            let drawn = diff_so_far(diff, width).1;
            &&& shown.len() > 0
            &&& top.is_prefix_of(shown)
            &&& drawn.is_suffix_of(shown)
            &&& files.len() == 0 ==> shown == top + drawn
            &&& files.len() > 0 ==> shown == top + summary_lines(files, width) + drawn
        }),
{
    let raw = crate::words::lines(content);
    let diff = body_of(raw);
    let files = summaries(diff);
    let heading = diff_heading(title_of(raw), files, diff);
    let top = heading_lines(heading.0, heading.1, width);
    let drawn = diff_so_far(diff, width).1;
    let full = "● "@ + heading.0 + ("("@ + heading.1 + ")"@);
    law_code_is_broken_where_it_has_to_be(full, width as usize, 0);
    assert(top + Seq::<Seq<SpanModel>>::empty() + drawn =~= top + drawn);
}

/// Each role has its mark: who spoke is seen from it. Every other role has none.
pub proof fn law_roles_have_their_marks(role: Seq<char>)
    ensures
        role == "user"@ ==> prefix_of(role) is Some && (prefix_of(role)->0).text@ == "> "@
            && (prefix_of(role)->0).color == Color::Cyan,
        role == "assistant"@ ==> prefix_of(role) is Some && (prefix_of(role)->0).text@ == "• "@
            && (prefix_of(role)->0).color == Color::Green,
        role == "tool"@ ==> prefix_of(role) is Some && (prefix_of(role)->0).text@ == "▸ "@
            && (prefix_of(role)->0).color == Color::DarkGray,
        role == "error"@ ==> prefix_of(role) is Some && (prefix_of(role)->0).text@ == "x "@
            && (prefix_of(role)->0).color == Color::Red,
        role != "user"@ && role != "assistant"@ && role != "tool"@ && role != "error"@
            ==> prefix_of(role) is None,
{
    reveal_strlit("user");
    reveal_strlit("assistant");
    reveal_strlit("tool");
    reveal_strlit("error");
    assert("user"@[0] == 'u');
    assert("assistant"@[0] == 'a');
    assert("tool"@[0] == 't');
    assert("error"@[0] == 'e');
}

/// The transcript shows the banner first, then the messages, what is being thought, and what is
/// being answered; what there is none of takes no line.
pub proof fn law_the_transcript_is_in_order(
    header: Option<HeaderModel>,
    t: TranscriptModel,
    width: u16,
    colors: Highlighting,
)
    ensures
        ({
            let shown = transcript_lines(header, t, width, colors);
            let messages = messages_lines(t.messages, width, t.expanded, colors);
            &&& shown.len() > 0
            &&& header is None && t.elapsed is None && t.streaming.len() == 0 && messages.len() > 0
                ==> shown == messages
            &&& header is Some && t.elapsed is None && t.streaming.len() == 0 ==> shown
                == header_lines(header->0, width).push(Seq::empty()) + messages
            &&& header is None && t.elapsed is None && t.streaming.len() > 0 ==> shown == (messages
                + chat_lines(chat("assistant"@, t.streaming), width, t.expanded, colors)).push(
                Seq::empty(),
            )
            &&& header is None && t.elapsed is Some && t.streaming.len() == 0 ==> shown == (messages
                + reasoning_lines(
                t.reasoning,
                t.elapsed->0,
                true,
                t.expanded,
                width,
                colors,
            )).push(Seq::empty())
        }),
{
    let shown = transcript_lines(header, t, width, colors);
    let messages = messages_lines(t.messages, width, t.expanded, colors);
    let none = Seq::<Seq<SpanModel>>::empty();
    if header is None && t.elapsed is None && t.streaming.len() == 0 && messages.len() > 0 {
        assert(none + messages + none + none =~= messages);
    }
    if header is Some && t.elapsed is None && t.streaming.len() == 0 {
        let top = header_lines(header->0, width).push(Seq::empty());
        assert(top + messages + none + none =~= top + messages);
    }
    if header is None && t.elapsed is None && t.streaming.len() > 0 {
        let answer = chat_lines(chat("assistant"@, t.streaming), width, t.expanded, colors);
        assert(none + messages + none + answer.push(Seq::empty()) =~= (messages + answer).push(
            Seq::empty(),
        ));
    }
    if header is None && t.elapsed is Some && t.streaming.len() == 0 {
        let thought = reasoning_lines(t.reasoning, t.elapsed->0, true, t.expanded, width, colors);
        assert(none + messages + thought.push(Seq::empty()) + none =~= (messages + thought).push(
            Seq::empty(),
        ));
    }
}

/// What is shown above a plan is its first line that is not blank.
pub proof fn law_plans_are_headed_by_their_first_line(all: Seq<Seq<char>>, k: int)
    requires
        0 <= k < all.len(),
        forall|i: int| 0 <= i < k ==> is_blank(#[trigger] all[i]),
        !is_blank(all[k]),
    ensures
        first_filled(all) == Some(all[k]),
    decreases k,
{
    if k > 0 {
        let rest = all.drop_first();
        assert(is_blank(all[0]));
        assert forall|i: int| 0 <= i < k - 1 implies is_blank(#[trigger] rest[i]) by {
            assert(rest[i] == all[i + 1]);
        }
        assert(rest[k - 1] == all[k]);
        law_plans_are_headed_by_their_first_line(rest, k - 1);
    }
}

proof fn lemma_name_open(front: Seq<char>, name: Seq<char>)
    requires
        forall|i: int| 0 <= i < name.len() ==> #[trigger] name[i] != '/',
    ensures
        path_so_far(front.push('/') + name).1 == name,
    decreases name.len(),
{
    let all = front.push('/') + name;
    if name.len() == 0 {
        assert(all.last() == '/');
        assert(path_so_far(all).1 =~= name);
    } else {
        let less = name.drop_last();
        assert forall|i: int| 0 <= i < less.len() implies #[trigger] less[i] != '/' by {
            assert(less[i] == name[i]);
        }
        lemma_name_open(front, less);
        assert(all.drop_last() =~= front.push('/') + less);
        assert(all.last() == name.last());
        assert(name[name.len() - 1] != '/');
        assert(less.push(name.last()) =~= name);
    }
}

/// A file is named by what stands behind the last separator of its path.
pub proof fn law_files_are_named_by_their_last_part(front: Seq<char>, name: Seq<char>)
    requires
        name.len() > 0,
        name != "."@,
        name != ".."@,
        forall|i: int| 0 <= i < name.len() ==> #[trigger] name[i] != '/',
    ensures
        file_name(front.push('/') + name) == Some(name),
{
    lemma_name_open(front, name);
}

/// The share of the input that a cache held is told with what it was counted from.
pub proof fn law_cached_input_is_told(usage: TurnUsage)
    requires
        usage.cached_input_tokens + usage.cache_miss_input_tokens > 0,
        usage.cached_input_tokens + usage.cache_miss_input_tokens <= usize::MAX,
        usage.cached_input_tokens * 100 <= usize::MAX,
    ensures
        ({
            let all = usage.cached_input_tokens + usage.cache_miss_input_tokens;
            usage.cache_text() == ", cache hit "@ + decimal(
                ((usage.cached_input_tokens * 100) / all) as nat,
            ) + "% ("@ + decimal(usage.cached_input_tokens as nat) + "/"@ + decimal(all as nat)
                + ")"@
        }),
{
    let all: int = usage.cached_input_tokens + usage.cache_miss_input_tokens;
    assert(usage.cacheable() == all);
    assert(usage.hit_rate() == (usage.cached_input_tokens * 100) / all);
}

/// The footer takes the last two lines of the screen, or all of them where there are fewer, and the
/// rest stands above it in the same columns.
pub proof fn law_the_footer_is_at_the_bottom(area: Rect)
    requires
        area.y + area.height <= u16::MAX,
    ensures
        above_footer(area).height + at_the_bottom(area).height == area.height,
        area.height >= 2 ==> at_the_bottom(area).height == 2,
        area.height < 2 ==> at_the_bottom(area).height == area.height,
        above_footer(area).y == area.y,
        at_the_bottom(area).y == area.y + above_footer(area).height,
        above_footer(area).x == area.x && at_the_bottom(area).x == area.x,
        above_footer(area).width == area.width && at_the_bottom(area).width == area.width,
        narrowed(area).x == area.x && narrowed(area).y == area.y,
        narrowed(area).height == area.height,
        area.width > 0 ==> narrowed(area).width == area.width - 1,
        area.width == 0 ==> narrowed(area).width == 0,
        area.width > 1 ==> safe_columns(area.width) == area.width - 1,
        area.width <= 1 ==> safe_columns(area.width) == 0,
{
}

/// The line for input asks what is awaited: a plan before a file change before a permission. It is
/// hidden only while the agent works and nothing was typed, and is otherwise open for typing.
pub proof fn law_the_input_line_asks_what_is_awaited(state: AppModel, width: u16)
    ensures
        state.pending_plan is Some ==> state.input_mode(width) == (ModeModel::PlanApproval {
            options: plan_options((state.pending_plan->0).selected),
        }),
        state.pending_plan is None && state.pending_file_preview is Some ==> state.input_mode(width)
            == (ModeModel::FilePreview {
            options: file_options((state.pending_file_preview->0).selected),
        }),
        state.pending_plan is None && state.pending_file_preview is None
            && state.pending_permission is Some ==> state.input_mode(width) == (
        ModeModel::Permission {
            options: permission_options((state.pending_permission->0).selected),
        }),
        state.pending_plan is None && state.pending_file_preview is None
            && state.pending_permission is None ==> {
            &&& state.working_since is Some && state.editor.text.len() == 0 ==> state.input_mode(
                width,
            ) == ModeModel::HiddenWorking
            &&& state.working_since is None || state.editor.text.len() > 0 ==> state.input_mode(
                width,
            ) is Editing
        },
{
}

/// What is typed stands behind the mark, and the cursor stands in it.
pub proof fn law_typed_text_stands_behind_the_mark(
    visible_input: Seq<char>,
    cursor_col: u16,
    width: u16,
    area: Rect,
)
    requires
        cursor_col + 2 <= u16::MAX,
        area.x + cursor_col + 2 <= u16::MAX,
    ensures
        ({
            let (line, idle, cursor) = input_line(
                ModeModel::Editing { visible_input, cursor_col },
                width,
            );
            &&& line.len() == 2
            &&& line[0].content == "> "@
            &&& line[0].style.fg == Some(Color::Cyan)
            &&& line[1].content == visible_input
            &&& line[1].style == Style::normal()
            &&& !idle
            &&& cursor == cursor_col + 2
            &&& cursor_place(area, cursor) == ((area.x + cursor) as u16, area.y)
        }),
        ({
            let (line, idle, cursor) = input_line(ModeModel::HiddenWorking, width);
            &&& line.len() == 1
            &&& line[0].content == "> "@
            &&& idle
            &&& cursor == 2
        }),
{
}

/// The part of a line that is shown is one piece of it with the cursor in it: the longest end that
/// fits of what stands before the cursor, and as much as fits of what stands behind it.
pub proof fn law_the_line_is_shown_around_the_cursor(
    text: Seq<char>,
    cursor: nat,
    width: u16,
) -> (ends: (int, int))
    requires
        width > 0,
    ensures
        ({
            let at = boundary_index(text, cursor);
            let (shown, column) = plain_view(text, cursor, width);
            &&& 0 <= ends.0 <= at <= ends.1 <= text.len()
            &&& shown == text.subrange(ends.0, ends.1)
            &&& ends.0 < at ==> column == text_columns(text.subrange(ends.0, at))
            &&& forall|m: int|
                0 <= m < ends.0 ==> #[trigger] text_columns(text.take(at).skip(m)) > width
            &&& total_columns(text.subrange(at, ends.1)) + column <= width
        }),
        plain_view(text, cursor, 0).0.len() == 0,
{
    let at = boundary_index(text, cursor);
    lemma_boundary_index(text, cursor);
    let head = text.take(at);
    let tail = text.skip(at);
    let from = law_tails_are_the_longest_that_fit(head, width as usize);
    let before = fitting_tail(head, width as usize);
    let used = text_columns(before);
    let room = if used >= width {
        0
    } else {
        width - used
    };
    law_taken_text_fits(tail, room as nat);
    let kept = fitting_prefix(tail, room as nat);
    let end = at + kept.len();
    assert(before =~= text.subrange(from, at));
    assert(kept =~= text.subrange(at, end));
    assert(before + kept =~= text.subrange(from, end));
    (from, end)
}

/// A terminal that is too narrow for the banner gets the name alone. On any other the logo comes
/// first, in six lines, and a box of six below it: the name, the model and the directory.
pub proof fn law_the_banner_names_model_and_directory(header: HeaderModel, width: u16)
    ensures
        width < 16 ==> header_lines(header, width).len() <= 1,
        width >= 16 ==> {
            let shown = header_lines(header, width);
            let inner = if width < 70 {
                (width - 2) as usize
            } else {
                68
            };
            &&& shown.len() == 12
            &&& box_width(width as usize) == inner
            &&& shown[6].len() == 1 && shown[11].len() == 1
            &&& shown[7][1].content == cut_start(">_ DeepCode (v0.1.0)"@, (inner - 1) as usize)
            &&& shown[9][1].content == cut_start(
                "model:     "@ + cut_start(header.model, 32) + "   /model to change"@,
                (inner - 1) as usize,
            )
            &&& shown[10][1].content == cut_start(
                "directory: "@ + cut_start(header.directory, if inner > 11 {
                    (inner - 11) as usize
                } else {
                    0
                }),
                (inner - 1) as usize,
            )
        },
{
}

/// A line of the box stands between its sides, with blanks behind the text as far as there is room.
pub proof fn law_lines_of_the_box_are_filled(content: Seq<char>, width: usize, style: Style)
    requires
        width > 0,
    ensures
        ({
            let line = box_line(content, width, style);
            let shown = cut_start(content, (width - 1) as usize);
            &&& line.len() == 3
            &&& line[0].content == "│ "@
            &&& line[1].content == shown
            &&& line[1].style == style
            &&& text_columns(shown) < width - 1 ==> line[2].content == repeat(
                " "@,
                (width - 1 - text_columns(shown)) as nat,
            ) + "│"@
            &&& text_columns(shown) >= width - 1 ==> line[2].content == "│"@
        }),
{
    assert(repeat(" "@, 0) + "│"@ =~= "│"@);
}

/// A place on the screen is a place in the text where a line is shown there: the line is counted
/// from the first that is shown, and the column from the left edge, at most to the line's end.
pub proof fn law_places_in_the_text_are_found(
    view: ViewportState,
    area: Rect,
    lines: Seq<Seq<SpanModel>>,
    column: u16,
    row: u16,
)
    requires
        view.last_transcript_area == Some(area),
        view.last_transcript_padding_top == 0,
        area.x + area.width <= u16::MAX,
        area.y + area.height <= u16::MAX,
        area.width > 2,
        view.last_transcript_top + area.height <= usize::MAX,
        crate::ui::style::columns_of_pieces(
            lines[view.last_transcript_top + (row - area.y)],
        ) <= usize::MAX,
        view.last_transcript_total == lines.len(),
    ensures
        ({
            let inside = area.x <= column < area.x + area.width - 1 && area.y <= row < area.y
                + area.height;
            let line = view.last_transcript_top + (row - area.y);
            &&& view.point_at(lines, column, row) is Some <==> inside && line < lines.len()
            &&& inside && line < lines.len() ==> {
                let point = view.point_at(lines, column, row)->0;
                let end = crate::ui::style::columns_of_pieces(lines[line]);
                &&& point.line == line
                &&& column - area.x <= end ==> point.column == column - area.x
                &&& column - area.x > end ==> point.column == end
            }
        }),
{
}

/// Lower rows of the scrollbar stand for later lines.
pub proof fn law_lower_rows_stand_for_later_lines(
    view: ViewportState,
    area: Rect,
    row: u16,
    lower: u16,
)
    requires
        view.last_transcript_visible < view.last_transcript_total,
        area.height > 0,
        row <= lower,
    ensures
        0 <= view.scrollbar_line(area, row) <= view.scrollbar_line(area, lower),
{
    let max_start: int = view.last_transcript_total - view.last_transcript_visible;
    let max_row: int = area.height - 1;
    let a: int = if row < area.y {
        0
    } else if row - area.y > max_row {
        max_row
    } else {
        row - area.y
    };
    let b: int = if lower < area.y {
        0
    } else if lower - area.y > max_row {
        max_row
    } else {
        lower - area.y
    };
    assert(0 <= a <= b);
    assert(a * max_start <= b * max_start) by (nonlinear_arith)
        requires
            0 <= a <= b,
            0 < max_start,
    ;
    assert(0 <= a * max_start) by (nonlinear_arith)
        requires
            0 <= a,
            0 < max_start,
    ;
    if max_row > 0 {
        let x = crate::ui::editor::saturated(
            crate::ui::editor::saturated(a * max_start) + max_row / 2,
        );
        let y = crate::ui::editor::saturated(
            crate::ui::editor::saturated(b * max_start) + max_row / 2,
        );
        assert(x <= y);
        let m = max_row as usize;
        assert(x / m <= y / m) by (nonlinear_arith)
            requires
                x <= y,
                m > 0,
        ;
    }
}

/// The scrollbar is the last column of the text, where there is more text than is shown.
pub proof fn law_the_scrollbar_is_the_last_column(
    view: ViewportState,
    area: Rect,
    column: u16,
    row: u16,
)
    requires
        view.last_transcript_area == Some(area),
        area.x + area.width <= u16::MAX,
        area.y + area.height <= u16::MAX,
    ensures
        view.on_scrollbar(column, row) <==> area.width > 1 && view.last_transcript_total
            > view.last_transcript_visible && column == area.x + area.width - 1 && area.y <= row
            < area.y + area.height,
{
}

} // verus!
