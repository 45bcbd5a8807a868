//! File changes drawn as numbered, coloured lines.
use super::editor::saturated;
use super::style::{append_lines, push_line, span, Color, Line, Span, SpanModel, Style};
use super::width::{text_columns, text_width};
use super::wrap::{chunks, styled_chunks, wrap_preserving_chars, wrap_with_style};
use crate::text::{
    concat2, concat3, decimal, decimal_of, find_char, from_chars, has_prefix,
    lemma_find_char, owned, position_of, same_text, starts_with, strip_prefix, to_chars, trim,
    trimmed, without_prefix,
};
use crate::words::{
    lines, parse_number, parsed_number, repeat, repeated, split_lines, split_words, words,
};
use vstd::prelude::*;

verus! {

pub const LINE_NUMBER_WIDTH: usize = 4;

pub const DIFF_INDENT: usize = 2;

/// What a diff does to one file.
#[derive(Debug)]
pub struct DiffFileSummary {
    pub path: String,
    pub added: usize,
    pub deleted: usize,
    pub hunks: usize,
}

#[verifier::ext_equal]
pub struct SummaryModel {
    pub path: Seq<char>,
    pub added: usize,
    pub deleted: usize,
    pub hunks: usize,
}

impl DeepView for DiffFileSummary {
    type V = SummaryModel;

    open spec fn deep_view(&self) -> SummaryModel {
        SummaryModel {
            path: self.path@,
            added: self.added,
            deleted: self.deleted,
            hunks: self.hunks,
        }
    }
}

impl SummaryModel {
    pub open spec fn of(path: Seq<char>) -> SummaryModel {
        SummaryModel { path, added: 0, deleted: 0, hunks: 0 }
    }

    pub open spec fn changes(self) -> bool {
        self.added > 0 || self.deleted > 0 || self.hunks > 0
    }
}

impl DiffFileSummary {
    fn of(path: &str) -> (r: Self)
        ensures
            r.deep_view() == SummaryModel::of(path@),
    {
        DiffFileSummary { path: owned(path), added: 0, deleted: 0, hunks: 0 }
    }

    fn has_changes(&self) -> (r: bool)
        ensures
            r == self.deep_view().changes(),
    {
        self.added > 0 || self.deleted > 0 || self.hunks > 0
    }
}

/// A text without any number of prefixes.
pub open spec fn strip_all(s: Seq<char>, p: Seq<char>) -> Seq<char>
    decreases s.len(),
{
    if p.len() > 0 && starts_with(s, p) {
        strip_all(s.skip(p.len() as int), p)
    } else {
        s
    }
}

fn without_prefixes(s: &str, p: &str) -> (r: String)
    requires
        p@.len() > 0,
    ensures
        r@ == strip_all(s@, p@),
{
    let mut rest = owned(s);
    loop
        invariant
            p@.len() > 0,
            strip_all(s@, p@) == strip_all(rest@, p@),
        ensures
            rest@ == strip_all(s@, p@),
        decreases rest@.len(),
    {
        match without_prefix(rest.as_str(), p) {
            Some(next) => {
                assert(next@ =~= rest@.skip(p@.len() as int));
                rest = next;
            },
            None => {
                break;
            },
        }
    }
    rest
}

/// The file that a header line of a diff names.
pub open spec fn diff_path(line: Seq<char>) -> Option<Seq<char>> {
    if starts_with(line, "diff --git "@) {
        if words(line).len() > 3 {
            Some(strip_all(words(line)[3], "b/"@))
        } else {
            None
        }
    } else {
        let named = if starts_with(line, "--- "@) {
            strip_prefix(line, "--- "@)
        } else {
            strip_prefix(line, "+++ "@)
        };
        match named {
            Some(path) => Some(strip_all(strip_all(trim(path), "a/"@), "b/"@)),
            None => None,
        }
    }
}

pub fn parse_diff_path(line: &str) -> (r: Option<String>)
    ensures
        r.deep_view() == diff_path(line@),
{
    proof {
        reveal_strlit("a/");
        reveal_strlit("b/");
    }
    if has_prefix(line, "diff --git ") {
        let parts = split_words(line);
        if parts.len() > 3 {
            assert(parts.deep_view()[3] == parts@[3]@);
            return Some(without_prefixes(parts[3].as_str(), "b/"));
        }
        return None;
    }
    let named = if has_prefix(line, "--- ") {
        without_prefix(line, "--- ")
    } else {
        without_prefix(line, "+++ ")
    };
    match named {
        Some(path) => {
            let path = trimmed(path.as_str());
            let path = without_prefixes(path.as_str(), "a/");
            Some(without_prefixes(path.as_str(), "b/"))
        },
        None => None,
    }
}

pub open spec fn path_or_file(line: Seq<char>) -> Seq<char> {
    match diff_path(line) {
        Some(path) => path,
        None => "<file>"@,
    }
}

/// The summaries of the complete files, and the one of the file that the diff is in.
#[verifier::ext_equal]
pub struct Summing {
    pub done: Seq<SummaryModel>,
    pub current: Option<SummaryModel>,
}

impl Summing {
    /// The summary of the file that the diff is in, or of one without a name.
    pub open spec fn open(self) -> SummaryModel {
        match self.current {
            Some(summary) => summary,
            None => SummaryModel::of("<file>"@),
        }
    }

    /// The complete summaries and the open one, if it has changes.
    pub open spec fn closed(self) -> Seq<SummaryModel> {
        match self.current {
            Some(summary) => if summary.changes() {
                self.done.push(summary)
            } else {
                self.done
            },
            None => self.done,
        }
    }

    pub open spec fn line(self, raw: Seq<char>) -> Summing {
        if starts_with(raw, "diff --git "@) || starts_with(raw, "--- "@) {
            Summing { done: self.closed(), current: Some(SummaryModel::of(path_or_file(raw))) }
        } else if starts_with(raw, "+++ "@) {
            if path_or_file(raw) == "/dev/null"@ {
                self
            } else {
                Summing {
                    current: Some(SummaryModel { path: path_or_file(raw), ..self.open() }),
                    ..self
                }
            }
        } else if starts_with(raw, "@@"@) {
            Summing {
                current: Some(
                    SummaryModel { hunks: saturated(self.open().hunks + 1), ..self.open() },
                ),
                ..self
            }
        } else if starts_with(raw, "+"@) && !starts_with(raw, "+++"@) {
            Summing {
                current: Some(
                    SummaryModel { added: saturated(self.open().added + 1), ..self.open() },
                ),
                ..self
            }
        } else if starts_with(raw, "-"@) && !starts_with(raw, "---"@) {
            Summing {
                current: Some(
                    SummaryModel { deleted: saturated(self.open().deleted + 1), ..self.open() },
                ),
                ..self
            }
        } else {
            self
        }
    }

    pub open spec fn all(self, diff: Seq<Seq<char>>) -> Summing
        decreases diff.len(),
    {
        if diff.len() == 0 {
            self
        } else {
            self.all(diff.drop_last()).line(diff.last())
        }
    }
}

/// What a diff does, file by file.
pub open spec fn summaries(diff: Seq<Seq<char>>) -> Seq<SummaryModel> {
    (Summing { done: Seq::empty(), current: None }).all(diff).closed()
}

struct Summer {
    done: Vec<DiffFileSummary>,
    current: Option<DiffFileSummary>,
}

impl View for Summer {
    type V = Summing;

    closed spec fn view(&self) -> Summing {
        Summing { done: self.done.deep_view(), current: self.current.deep_view() }
    }
}

impl Summer {
    fn close(&mut self)
        ensures
            final(self)@ == (Summing { done: old(self)@.closed(), current: None }),
    {
        match self.current.take() {
            Some(summary) => {
                if summary.has_changes() {
                    let ghost before = self.done.deep_view();
                    let ghost added = summary.deep_view();
                    self.done.push(summary);
                    assert(self.done.deep_view() =~= before.push(added));
                }
            },
            None => {},
        }
    }

    fn take_open(&mut self) -> (r: DiffFileSummary)
        ensures
            r.deep_view() == old(self)@.open(),
            final(self)@.done == old(self)@.done,
    {
        match self.current.take() {
            Some(summary) => summary,
            None => DiffFileSummary::of("<file>"),
        }
    }

    fn add_line(&mut self, raw: &str)
        ensures
            final(self)@ == old(self)@.line(raw@),
    {
        if has_prefix(raw, "diff --git ") || has_prefix(raw, "--- ") {
            self.close();
            let path = match parse_diff_path(raw) {
                Some(path) => path,
                None => owned("<file>"),
            };
            self.current = Some(DiffFileSummary::of(path.as_str()));
        } else if has_prefix(raw, "+++ ") {
            let path = match parse_diff_path(raw) {
                Some(path) => path,
                None => owned("<file>"),
            };
            if !same_text(path.as_str(), "/dev/null") {
                let mut open = self.take_open();
                open.path = path;
                self.current = Some(open);
            }
        } else if has_prefix(raw, "@@") {
            let mut open = self.take_open();
            open.hunks = open.hunks.saturating_add(1);
            self.current = Some(open);
        } else if has_prefix(raw, "+") && !has_prefix(raw, "+++") {
            let mut open = self.take_open();
            open.added = open.added.saturating_add(1);
            self.current = Some(open);
        } else if has_prefix(raw, "-") && !has_prefix(raw, "---") {
            let mut open = self.take_open();
            open.deleted = open.deleted.saturating_add(1);
            self.current = Some(open);
        }
    }
}

pub fn summarize_diff(diff_lines: &Vec<String>) -> (r: Vec<DiffFileSummary>)
    ensures
        r.deep_view() == summaries(diff_lines.deep_view()),
{
    let ghost all = diff_lines.deep_view();
    let ghost start = Summing { done: Seq::empty(), current: None };
    let mut summer = Summer { done: Vec::new(), current: None };
    assert(summer.done.deep_view() =~= Seq::empty());
    assert(all.take(0) =~= Seq::empty());
    let mut i: usize = 0;
    while i < diff_lines.len()
        invariant
            all == diff_lines.deep_view(),
            i <= diff_lines.len(),
            summer@ == start.all(all.take(i as int)),
        decreases diff_lines.len() - i,
    {
        assert(all.take(i + 1).drop_last() =~= all.take(i as int));
        assert(all[i as int] == diff_lines@[i as int]@);
        summer.add_line(diff_lines[i].as_str());
        i += 1;
    }
    assert(all.take(i as int) =~= all);
    summer.close();
    summer.done
}

/// The title line of a change, if the text starts with one.
pub open spec fn title_of(raw: Seq<Seq<char>>) -> Option<Seq<char>> {
    if raw.len() > 0 && (starts_with(raw[0], "Create:"@) || starts_with(raw[0], "Update:"@)) {
        Some(raw[0])
    } else {
        None
    }
}

/// The lines behind the title.
pub open spec fn body_of(raw: Seq<Seq<char>>) -> Seq<Seq<char>> {
    if title_of(raw) is Some {
        raw.skip(1)
    } else {
        raw
    }
}

/// What is done, and to what.
pub open spec fn diff_heading(
    title: Option<Seq<char>>,
    files: Seq<SummaryModel>,
    diff: Seq<Seq<char>>,
) -> (Seq<char>, Seq<char>) {
    if title is Some && find_char(title->0, ':') is Some {
        let at = find_char(title->0, ':')->0;
        (trim(title->0.take(at)), trim(title->0.skip(at + 1)))
    } else {
        (
            if diff.contains("--- /dev/null"@) {
                "Create"@
            } else {
                "Update"@
            },
            if files.len() == 1 {
                files[0].path
            } else {
                decimal(files.len()) + " files"@
            },
        )
    }
}

fn contains_line(diff_lines: &Vec<String>, line: &str) -> (r: bool)
    ensures
        r == diff_lines.deep_view().contains(line@),
{
    let mut i: usize = 0;
    while i < diff_lines.len()
        invariant
            i <= diff_lines.len(),
            forall|j: int| 0 <= j < i ==> #[trigger] diff_lines.deep_view()[j] != line@,
        decreases diff_lines.len() - i,
    {
        assert(diff_lines.deep_view()[i as int] == diff_lines@[i as int]@);
        if same_text(diff_lines[i].as_str(), line) {
            return true;
        }
        i += 1;
    }
    false
}

pub fn diff_title(
    title: Option<&str>,
    files: &Vec<DiffFileSummary>,
    diff_lines: &Vec<String>,
) -> (r: (String, String))
    ensures
        (r.0@, r.1@) == diff_heading(
            match title {
                Some(title) => Some(title@),
                None => None,
            },
            files.deep_view(),
            diff_lines.deep_view(),
        ),
{
    if let Some(title) = title {
        let chars = to_chars(title);
        if let Some(at) = position_of(&chars, ':') {
            proof {
                lemma_find_char(title@, ':');
            }
            let operation = from_chars(&chars, 0, at);
            let path = from_chars(&chars, at + 1, chars.len());
            assert(operation@ =~= title@.take(at as int));
            assert(path@ =~= title@.skip(at + 1));
            return (trimmed(operation.as_str()), trimmed(path.as_str()));
        }
    }
    let operation = if contains_line(diff_lines, "--- /dev/null") {
        owned("Create")
    } else {
        owned("Update")
    };
    let target = if files.len() == 1 {
        assert(files.deep_view()[0] == files@[0].deep_view());
        files[0].path.clone()
    } else {
        concat2(decimal_of(files.len() as u64).as_str(), " files")
    };
    (operation, target)
}

pub open spec fn bold() -> Style {
    Style { bold: true, ..Style::normal() }
}

/// The heading of a change: in one line where it fits.
pub open spec fn heading_lines(operation: Seq<char>, target: Seq<char>, width: u16) -> Seq<
    Seq<SpanModel>,
> {
    let full = "● "@ + operation + ("("@ + target + ")"@);
    if text_columns(full) <= width {
        seq![
            seq![
                span("● "@, Style::colored(Color::Green)),
                span(operation, bold()),
                span("("@ + target + ")"@, Style::normal()),
            ],
        ]
    } else {
        styled_chunks(full, bold(), width)
    }
}

fn render_diff_title(operation: &str, target: &str, width: u16) -> (r: Vec<Line>)
    ensures
        r.deep_view() == heading_lines(operation@, target@, width),
{
    let bracketed = concat3("(", target, ")");
    let full = concat3("● ", operation, bracketed.as_str());
    if text_width(full.as_str()) <= width as usize {
        let mut line = Line::of(Span::styled("● ", Style::of(Color::Green)));
        line.push(Span::styled(operation, Style { bold: true, ..Style::plain() }));
        line.push(Span::raw(bracketed.as_str()));
        let mut lines: Vec<Line> = Vec::new();
        push_line(&mut lines, line);
        assert(lines.deep_view()[0] =~= heading_lines(operation@, target@, width)[0]);
        assert(lines.deep_view() =~= heading_lines(operation@, target@, width));
        return lines;
    }
    wrap_with_style(full.as_str(), Style { bold: true, ..Style::plain() }, width)
}

pub open spec fn total_added(files: Seq<SummaryModel>) -> usize
    decreases files.len(),
{
    if files.len() == 0 {
        0
    } else {
        saturated(total_added(files.drop_last()) + files.last().added)
    }
}

pub open spec fn total_deleted(files: Seq<SummaryModel>) -> usize
    decreases files.len(),
{
    if files.len() == 0 {
        0
    } else {
        saturated(total_deleted(files.drop_last()) + files.last().deleted)
    }
}

fn sum_changes(files: &Vec<DiffFileSummary>) -> (r: (usize, usize))
    ensures
        r == (total_added(files.deep_view()), total_deleted(files.deep_view())),
{
    let ghost all = files.deep_view();
    let mut added: usize = 0;
    let mut deleted: usize = 0;
    let mut i: usize = 0;
    assert(all.take(0) =~= Seq::empty());
    while i < files.len()
        invariant
            all == files.deep_view(),
            i <= files.len(),
            added == total_added(all.take(i as int)),
            deleted == total_deleted(all.take(i as int)),
        decreases files.len() - i,
    {
        assert(all.take(i + 1).drop_last() =~= all.take(i as int));
        assert(all[i as int] == files@[i as int].deep_view());
        added = added.saturating_add(files[i].added);
        deleted = deleted.saturating_add(files[i].deleted);
        i += 1;
    }
    assert(all.take(i as int) =~= all);
    (added, deleted)
}

/// The word for a number of lines.
pub open spec fn line_word(n: usize) -> Seq<char> {
    if n == 1 {
        " line"@
    } else {
        " lines"@
    }
}

fn line_word_of(n: usize) -> (r: &'static str)
    ensures
        r@ == line_word(n),
{
    if n == 1 {
        " line"
    } else {
        " lines"
    }
}

pub open spec fn count_of_files(files: nat) -> Seq<char> {
    if files > 1 {
        " in "@ + decimal(files) + " files"@
    } else {
        Seq::empty()
    }
}

/// The summary of a change as one text.
pub open spec fn summary_text(added: usize, deleted: usize, files: nat) -> Seq<char> {
    let gain = "Added "@ + decimal(added as nat) + line_word(added);
    let loss = "removed "@ + decimal(deleted as nat) + line_word(deleted);
    let parts = if added > 0 && deleted > 0 {
        gain + ", "@ + loss
    } else if added > 0 {
        gain
    } else if deleted > 0 {
        loss
    } else {
        "No changed lines"@
    };
    "  └ "@ + parts + count_of_files(files)
}

pub open spec fn dim() -> Style {
    Style::colored(Color::DarkGray)
}

pub open spec fn emphasis() -> Style {
    Style { fg: Some(Color::Gray), bold: true, ..Style::normal() }
}

/// The summary of a change in pieces, with its numbers made to stand out.
pub open spec fn summary_pieces(added: usize, deleted: usize, files: nat) -> Seq<SpanModel> {
    let start = seq![span("  └ "@, dim())];
    let gain = if added > 0 {
        seq![
            span("Added "@, dim()),
            span(decimal(added as nat), emphasis()),
            span(line_word(added), dim()),
        ]
    } else {
        Seq::empty()
    };
    let between = if added > 0 && deleted > 0 {
        seq![span(", "@, dim())]
    } else {
        Seq::empty()
    };
    let loss = if deleted > 0 {
        seq![
            span("removed "@, dim()),
            span(decimal(deleted as nat), emphasis()),
            span(line_word(deleted), dim()),
        ]
    } else {
        Seq::empty()
    };
    let none = if added == 0 && deleted == 0 {
        seq![span("No changed lines"@, dim())]
    } else {
        Seq::empty()
    };
    let end = if files > 1 {
        seq![span(count_of_files(files), dim())]
    } else {
        Seq::empty()
    };
    start + gain + between + loss + none + end
}

pub open spec fn summary_lines(files: Seq<SummaryModel>, width: u16) -> Seq<Seq<SpanModel>> {
    let added = total_added(files);
    let deleted = total_deleted(files);
    let text = summary_text(added, deleted, files.len());
    if text_columns(text) > width {
        styled_chunks(text, dim(), width)
    } else {
        seq![summary_pieces(added, deleted, files.len())]
    }
}

fn file_suffix(files: usize) -> (r: String)
    ensures
        r@ == count_of_files(files as nat),
{
    if files > 1 {
        concat3(" in ", decimal_of(files as u64).as_str(), " files")
    } else {
        let r = String::new();
        assert(r@ =~= Seq::empty());
        r
    }
}

fn summary_string(added: usize, deleted: usize, files: usize) -> (r: String)
    ensures
        r@ == summary_text(added, deleted, files as nat),
{
    let gain = concat3("Added ", decimal_of(added as u64).as_str(), line_word_of(added));
    let loss = concat3("removed ", decimal_of(deleted as u64).as_str(), line_word_of(deleted));
    let parts = if added > 0 && deleted > 0 {
        concat3(gain.as_str(), ", ", loss.as_str())
    } else if added > 0 {
        gain
    } else if deleted > 0 {
        loss
    } else {
        owned("No changed lines")
    };
    concat3("  └ ", parts.as_str(), file_suffix(files).as_str())
}

fn push_count(line: &mut Line, word: &str, n: usize)
    ensures
        final(line).deep_view() == old(line).deep_view() + seq![
            span(word@, dim()),
            span(decimal(n as nat), emphasis()),
            span(line_word(n), dim()),
        ],
{
    let ghost before = line.deep_view();
    line.push(Span::styled(word, Style::of(Color::DarkGray)));
    line.push(
        Span {
            content: decimal_of(n as u64),
            style: Style { fg: Some(Color::Gray), bold: true, ..Style::plain() },
        },
    );
    line.push(Span::styled(line_word_of(n), Style::of(Color::DarkGray)));
    assert(line.deep_view() =~= before + seq![
        span(word@, dim()),
        span(decimal(n as nat), emphasis()),
        span(line_word(n), dim()),
    ]);
}

pub fn render_diff_summary(files: &Vec<DiffFileSummary>, width: u16) -> (r: Vec<Line>)
    ensures
        r.deep_view() == summary_lines(files.deep_view(), width),
{
    let (added, deleted) = sum_changes(files);
    let ghost count = files.deep_view().len();
    let text = summary_string(added, deleted, files.len());
    let base = Style::of(Color::DarkGray);
    if text_width(text.as_str()) > width as usize {
        return wrap_with_style(text.as_str(), base, width);
    }
    let mut line = Line::of(Span::styled("  └ ", base));
    if added > 0 {
        push_count(&mut line, "Added ", added);
    }
    if added > 0 && deleted > 0 {
        line.push(Span::styled(", ", base));
    }
    if deleted > 0 {
        push_count(&mut line, "removed ", deleted);
    }
    if added == 0 && deleted == 0 {
        line.push(Span::styled("No changed lines", base));
    }
    if files.len() > 1 {
        line.push(Span { content: file_suffix(files.len()), style: base });
    }
    assert(line.deep_view() =~= summary_pieces(added, deleted, count));
    let mut lines: Vec<Line> = Vec::new();
    push_line(&mut lines, line);
    assert(lines.deep_view() =~= seq![summary_pieces(added, deleted, count)]);
    lines
}

/// A text up to its first comma.
pub open spec fn before_comma(s: Seq<char>) -> Seq<char> {
    match find_char(s, ',') {
        Some(at) => s.take(at),
        None => s,
    }
}

/// A number that fits the machine's own size.
pub open spec fn parsed_size(s: Seq<char>) -> Option<nat> {
    match parsed_number(s) {
        Some(n) => if n <= usize::MAX {
            Some(n)
        } else {
            None
        },
        None => None,
    }
}

/// Where the old and the new lines of a hunk start.
pub open spec fn hunk_start(line: Seq<char>) -> Option<(nat, nat)> {
    let parts = words(line);
    if parts.len() < 3 {
        None
    } else {
        let old_start = parsed_size(before_comma(strip_all(parts[1], "-"@)));
        let new_start = parsed_size(before_comma(strip_all(parts[2], "+"@)));
        if old_start is Some && new_start is Some {
            Some((old_start->0, new_start->0))
        } else {
            None
        }
    }
}

fn start_number(range: &str, sign: &str) -> (r: Option<usize>)
    requires
        sign@.len() > 0,
    ensures
        match r {
            Some(n) => parsed_size(before_comma(strip_all(range@, sign@))) == Some(n as nat),
            None => parsed_size(before_comma(strip_all(range@, sign@))) is None,
        },
{
    let digits = without_prefixes(range, sign);
    let chars = to_chars(digits.as_str());
    let start = match position_of(&chars, ',') {
        Some(at) => {
            proof {
                lemma_find_char(digits@, ',');
            }
            let start = from_chars(&chars, 0, at);
            assert(start@ =~= digits@.take(at as int));
            start
        },
        None => digits,
    };
    match parse_number(start.as_str()) {
        Some(n) => if n <= usize::MAX as u64 {
            Some(n as usize)
        } else {
            None
        },
        None => None,
    }
}

pub fn parse_hunk_header(line: &str) -> (r: Option<(usize, usize)>)
    ensures
        match r {
            Some((old_start, new_start)) => hunk_start(line@) == Some(
                (old_start as nat, new_start as nat),
            ),
            None => hunk_start(line@) is None,
        },
{
    let parts = split_words(line);
    if parts.len() < 3 {
        return None;
    }
    proof {
        reveal_strlit("-");
        reveal_strlit("+");
        assert(parts.deep_view()[1] == parts@[1]@);
        assert(parts.deep_view()[2] == parts@[2]@);
    }
    let old_start = match start_number(parts[1].as_str(), "-") {
        Some(n) => n,
        None => {
            return None;
        },
    };
    let new_start = match start_number(parts[2].as_str(), "+") {
        Some(n) => n,
        None => {
            return None;
        },
    };
    Some((old_start, new_start))
}

/// A number with blanks in front, so that it takes at least four characters.
pub open spec fn right_aligned(n: usize) -> Seq<char> {
    let digits = decimal(n as nat);
    if digits.len() >= LINE_NUMBER_WIDTH {
        digits
    } else {
        repeat(" "@, (LINE_NUMBER_WIDTH - digits.len()) as nat) + digits
    }
}

/// What stands before a line of a diff: its number and its marker, or on a narrow terminal
/// the marker alone.
pub open spec fn gutter(width: u16, number: Option<usize>, marker: char) -> Seq<char> {
    if width < 16 {
        seq![marker]
    } else {
        ((match number {
            Some(n) => right_aligned(n),
            None => repeat(" "@, LINE_NUMBER_WIDTH as nat),
        }) + " "@).push(marker)
    }
}

pub fn format_line_number(width: u16, line_number: Option<usize>, marker: char) -> (r: String)
    ensures
        r@ == gutter(width, line_number, marker),
{
    if width < 16 {
        let mut r = String::new();
        r.push(marker);
        assert(r@ =~= seq![marker]);
        return r;
    }
    let number = match line_number {
        Some(n) => {
            let digits = decimal_of(n as u64);
            let len: usize = to_chars(digits.as_str()).len();
            if len >= LINE_NUMBER_WIDTH {
                digits
            } else {
                concat2(repeated(" ", LINE_NUMBER_WIDTH - len).as_str(), digits.as_str())
            }
        },
        None => repeated(" ", LINE_NUMBER_WIDTH),
    };
    let mut r = concat2(number.as_str(), " ");
    r.push(marker);
    r
}

/// The columns that are left for the code of a diff line, of which there is at least one.
pub open spec fn code_room(width: u16, gutter_width: usize) -> usize {
    if width > DIFF_INDENT + gutter_width {
        (width - DIFF_INDENT - gutter_width) as usize
    } else {
        1
    }
}

/// One drawn line of a line of a diff.
pub open spec fn diff_row(
    chunk: Seq<char>,
    first: bool,
    width: u16,
    before: Seq<char>,
    gutter_fg: Color,
    style: Style,
) -> Seq<SpanModel> {
    let gutter_width = text_columns(before);
    let room = code_room(width, gutter_width);
    let row = seq![
        span(repeat(" "@, DIFF_INDENT as nat), Style::normal()),
        span(
            if first {
                before
            } else {
                repeat(" "@, gutter_width as nat)
            },
            Style { bg: style.bg, ..Style::colored(gutter_fg) },
        ),
        span(chunk, style),
    ];
    if style.bg is Some && text_columns(chunk) < room {
        row.push(span(repeat(" "@, (room - text_columns(chunk)) as nat), style))
    } else {
        row
    }
}

/// The drawn lines of a line of a diff.
pub open spec fn diff_rows(
    content: Seq<char>,
    width: u16,
    number: Option<usize>,
    marker: char,
    gutter_fg: Color,
    style: Style,
) -> Seq<Seq<SpanModel>> {
    let before = gutter(width, number, marker);
    let parts = chunks(content, code_room(width, text_columns(before)));
    Seq::new(parts.len(), |i: int| diff_row(parts[i], i == 0, width, before, gutter_fg, style))
}

pub fn render_diff_line(
    content: &str,
    width: u16,
    line_number: Option<usize>,
    marker: char,
    gutter_fg: Color,
    content_style: Style,
) -> (r: Vec<Line>)
    ensures
        r.deep_view() == diff_rows(
            content@,
            width,
            line_number,
            marker,
            gutter_fg,
            content_style,
        ),
{
    let prefix = format_line_number(width, line_number, marker);
    let gutter_width = text_width(prefix.as_str());
    let room: usize = if DIFF_INDENT < width as usize && gutter_width < width as usize
        - DIFF_INDENT {
        width as usize - DIFF_INDENT - gutter_width
    } else {
        1
    };
    let parts = wrap_preserving_chars(content, room);
    let ghost all = diff_rows(content@, width, line_number, marker, gutter_fg, content_style);
    let ghost texts = parts.deep_view();
    let mut out: Vec<Line> = Vec::new();
    let mut i: usize = 0;
    assert(out.deep_view() =~= all.take(0));
    while i < parts.len()
        invariant
            prefix@ == gutter(width, line_number, marker),
            gutter_width == text_columns(prefix@),
            room == code_room(width, gutter_width),
            texts == parts.deep_view(),
            texts == chunks(content@, room),
            all == diff_rows(content@, width, line_number, marker, gutter_fg, content_style),
            i <= parts.len(),
            out.deep_view() == all.take(i as int),
        decreases parts.len() - i,
    {
        assert(texts[i as int] == parts@[i as int]@);
        let before = if i == 0 {
            prefix.clone()
        } else {
            repeated(" ", gutter_width)
        };
        let mut line = Line::of(Span::raw(repeated(" ", DIFF_INDENT).as_str()));
        line.push(
            Span { content: before, style: Style { bg: content_style.bg, ..Style::of(gutter_fg) } },
        );
        line.push(Span::styled(parts[i].as_str(), content_style));
        let used = text_width(parts[i].as_str());
        if content_style.bg.is_some() && used < room {
            line.push(Span { content: repeated(" ", room - used), style: content_style });
        }
        assert(line.deep_view() =~= all[i as int]);
        push_line(&mut out, line);
        i += 1;
        assert(out.deep_view() =~= all.take(i as int));
    }
    assert(all.take(i as int) =~= all);
    out
}

/// Where in a diff its drawing is.
#[verifier::ext_equal]
pub struct DiffPosition {
    pub old_line: Option<usize>,
    pub new_line: Option<usize>,
    pub in_hunk: bool,
}

pub open spec fn advanced(line: Option<usize>) -> Option<usize> {
    match line {
        Some(n) => Some(saturated(n + 1)),
        None => None,
    }
}

fn advance(line: Option<usize>) -> (r: Option<usize>)
    ensures
        r == advanced(line),
{
    match line {
        Some(n) => Some(n.saturating_add(1)),
        None => None,
    }
}

pub open spec fn added_style() -> Style {
    Style { fg: Some(Color::Rgb(48, 48, 48)), bg: Some(Color::Rgb(232, 248, 236)), ..Style::normal() }
}

pub open spec fn deleted_style() -> Style {
    Style { fg: Some(Color::Rgb(48, 48, 48)), bg: Some(Color::Rgb(253, 235, 235)), ..Style::normal() }
}

/// What one line of a diff is drawn as, and where the drawing is after it.
pub open spec fn diff_step(at: DiffPosition, raw: Seq<char>, width: u16) -> (
    DiffPosition,
    Seq<Seq<SpanModel>>,
) {
    if starts_with(raw, "diff --git "@) {
        (DiffPosition { in_hunk: false, ..at }, Seq::empty())
    } else if !at.in_hunk && (starts_with(raw, "--- "@) || starts_with(raw, "+++ "@)) {
        (at, Seq::empty())
    } else if starts_with(raw, "@@"@) {
        (
            match hunk_start(raw) {
                Some((old_start, new_start)) => DiffPosition {
                    old_line: Some(old_start as usize),
                    new_line: Some(new_start as usize),
                    in_hunk: true,
                },
                None => DiffPosition { in_hunk: true, ..at },
            },
            Seq::empty(),
        )
    } else if starts_with(raw, "+"@) {
        (
            DiffPosition { new_line: advanced(at.new_line), ..at },
            diff_rows(raw.skip(1), width, at.new_line, '+', Color::Green, added_style()),
        )
    } else if starts_with(raw, "-"@) {
        (
            DiffPosition { old_line: advanced(at.old_line), ..at },
            diff_rows(raw.skip(1), width, at.old_line, '-', Color::Red, deleted_style()),
        )
    } else if starts_with(raw, " "@) {
        (
            DiffPosition {
                old_line: advanced(at.old_line),
                new_line: advanced(at.new_line),
                ..at
            },
            diff_rows(
                raw.skip(1),
                width,
                if at.new_line is Some {
                    at.new_line
                } else {
                    at.old_line
                },
                ' ',
                Color::DarkGray,
                Style::colored(Color::Gray),
            ),
        )
    } else if starts_with(raw, "\\ No newline"@) {
        (at, styled_chunks(raw, Style { italic: true, ..dim() }, width))
    } else {
        (at, styled_chunks(raw, dim(), width))
    }
}

pub open spec fn diff_so_far(diff: Seq<Seq<char>>, width: u16) -> (
    DiffPosition,
    Seq<Seq<SpanModel>>,
)
    decreases diff.len(),
{
    if diff.len() == 0 {
        (DiffPosition { old_line: None, new_line: None, in_hunk: false }, Seq::empty())
    } else {
        let (at, drawn) = diff_so_far(diff.drop_last(), width);
        let (after, more) = diff_step(at, diff.last(), width);
        (after, drawn + more)
    }
}

struct DiffDrawer {
    old_line: Option<usize>,
    new_line: Option<usize>,
    in_hunk: bool,
}

impl View for DiffDrawer {
    type V = DiffPosition;

    closed spec fn view(&self) -> DiffPosition {
        DiffPosition {
            old_line: self.old_line,
            new_line: self.new_line,
            in_hunk: self.in_hunk,
        }
    }
}

impl DiffDrawer {
    fn draw_line(&mut self, raw: &str, width: u16) -> (r: Vec<Line>)
        ensures
            (final(self)@, r.deep_view()) == diff_step(old(self)@, raw@, width),
    {
        let none: Vec<Line> = Vec::new();
        assert(none.deep_view() =~= Seq::empty());
        if has_prefix(raw, "diff --git ") {
            self.in_hunk = false;
            return none;
        }
        if !self.in_hunk && (has_prefix(raw, "--- ") || has_prefix(raw, "+++ ")) {
            return none;
        }
        if has_prefix(raw, "@@") {
            self.in_hunk = true;
            if let Some((old_start, new_start)) = parse_hunk_header(raw) {
                self.old_line = Some(old_start);
                self.new_line = Some(new_start);
            }
            return none;
        }
        proof {
            reveal_strlit("+");
            reveal_strlit("-");
            reveal_strlit(" ");
        }
        if let Some(content) = without_prefix(raw, "+") {
            assert(content@ =~= raw@.skip(1));
            let number = self.new_line;
            self.new_line = advance(number);
            return render_diff_line(
                content.as_str(),
                width,
                number,
                '+',
                Color::Green,
                Style { fg: Some(Color::Rgb(48, 48, 48)), bg: Some(Color::Rgb(232, 248, 236)), ..Style::plain() },
            );
        }
        if let Some(content) = without_prefix(raw, "-") {
            assert(content@ =~= raw@.skip(1));
            let number = self.old_line;
            self.old_line = advance(number);
            return render_diff_line(
                content.as_str(),
                width,
                number,
                '-',
                Color::Red,
                Style { fg: Some(Color::Rgb(48, 48, 48)), bg: Some(Color::Rgb(253, 235, 235)), ..Style::plain() },
            );
        }
        if let Some(content) = without_prefix(raw, " ") {
            assert(content@ =~= raw@.skip(1));
            let number = if self.new_line.is_some() {
                self.new_line
            } else {
                self.old_line
            };
            self.old_line = advance(self.old_line);
            self.new_line = advance(self.new_line);
            return render_diff_line(
                content.as_str(),
                width,
                number,
                ' ',
                Color::DarkGray,
                Style::of(Color::Gray),
            );
        }
        if has_prefix(raw, "\\ No newline") {
            return wrap_with_style(
                raw,
                Style { italic: true, ..Style::of(Color::DarkGray) },
                width,
            );
        }
        wrap_with_style(raw, Style::of(Color::DarkGray), width)
    }
}

pub fn render_diff_lines(diff_lines: &Vec<String>, width: u16) -> (r: Vec<Line>)
    ensures
        r.deep_view() == diff_so_far(diff_lines.deep_view(), width).1,
{
    let ghost all = diff_lines.deep_view();
    let mut drawer = DiffDrawer { old_line: None, new_line: None, in_hunk: false };
    let mut lines: Vec<Line> = Vec::new();
    let mut i: usize = 0;
    assert(lines.deep_view() =~= Seq::empty());
    assert(all.take(0) =~= Seq::empty());
    while i < diff_lines.len()
        invariant
            all == diff_lines.deep_view(),
            i <= diff_lines.len(),
            (drawer@, lines.deep_view()) == diff_so_far(all.take(i as int), width),
        decreases diff_lines.len() - i,
    {
        assert(all.take(i + 1).drop_last() =~= all.take(i as int));
        assert(all[i as int] == diff_lines@[i as int]@);
        let more = drawer.draw_line(diff_lines[i].as_str(), width);
        append_lines(&mut lines, more);
        i += 1;
    }
    assert(all.take(i as int) =~= all);
    lines
}

pub open spec fn at_least_one_column(width: u16) -> u16 {
    if width == 0 {
        1
    } else {
        width
    }
}

/// A change as it is shown: its heading, its summary, and its lines.
pub open spec fn diff_message(content: Seq<char>, width: u16) -> Seq<Seq<SpanModel>> {
    let w = at_least_one_column(width);
    let raw = lines(content);
    let diff = body_of(raw);
    let files = summaries(diff);
    let (operation, target) = diff_heading(title_of(raw), files, diff);
    let summary = if files.len() == 0 {
        Seq::empty()
    } else {
        summary_lines(files, w)
    };
    let drawn = heading_lines(operation, target, w) + summary + diff_so_far(diff, w).1;
    if drawn.len() == 0 {
        seq![Seq::empty()]
    } else {
        drawn
    }
}

/// Draws a change.
pub fn render_diff_message(content: &str, width: u16) -> (r: Vec<Line>)
    ensures
        r.deep_view() == diff_message(content@, width),
{
    let width: u16 = if width == 0 {
        1
    } else {
        width
    };
    let mut raw = split_lines(content);
    let ghost all = raw.deep_view();
    let titled = raw.len() > 0 && (has_prefix(raw[0].as_str(), "Create:") || has_prefix(
        raw[0].as_str(),
        "Update:",
    ));
    assert(raw@.len() > 0 ==> all[0] == raw@[0]@);
    let title = if titled {
        Some(raw.remove(0))
    } else {
        None
    };
    assert(raw.deep_view() =~= body_of(all));
    let files = summarize_diff(&raw);
    let (operation, target) = match &title {
        Some(title) => diff_title(Some(title.as_str()), &files, &raw),
        None => diff_title(None, &files, &raw),
    };
    let mut drawn = render_diff_title(operation.as_str(), target.as_str(), width);
    let ghost heading = drawn.deep_view();
    if files.len() > 0 {
        append_lines(&mut drawn, render_diff_summary(&files, width));
    }
    proof {
        let summary = if files.deep_view().len() == 0 {
            Seq::<Seq<SpanModel>>::empty()
        } else {
            summary_lines(files.deep_view(), width)
        };
        assert(drawn.deep_view() =~= heading + summary);
    }
    append_lines(&mut drawn, render_diff_lines(&raw, width));
    if drawn.len() == 0 {
        assert(drawn.deep_view().len() == 0);
        push_line(&mut drawn, Line::blank());
        assert(drawn.deep_view() =~= seq![Seq::<SpanModel>::empty()]);
    }
    drawn
}

/// Numbers that the summary of a file holds are counted up only by lines that change it.
pub proof fn law_context_lines_are_not_counted(at: Summing, raw: Seq<char>)
    requires
        starts_with(raw, " "@),
    ensures
        at.line(raw) == at,
{
    reveal_strlit(" ");
    reveal_strlit("diff --git ");
    reveal_strlit("--- ");
    reveal_strlit("+++ ");
    reveal_strlit("@@");
    reveal_strlit("+");
    reveal_strlit("-");
    assert(raw[0] == raw.subrange(0, 1)[0]);
    assert(raw[0] == ' ');
    assert(!starts_with(raw, "diff --git "@)) by {
        if starts_with(raw, "diff --git "@) {
            assert(raw.subrange(0, 11)[0] == 'd');
        }
    }
    assert(!starts_with(raw, "--- "@)) by {
        if starts_with(raw, "--- "@) {
            assert(raw.subrange(0, 4)[0] == '-');
        }
    }
    assert(!starts_with(raw, "+++ "@)) by {
        if starts_with(raw, "+++ "@) {
            assert(raw.subrange(0, 4)[0] == '+');
        }
    }
    assert(!starts_with(raw, "@@"@)) by {
        if starts_with(raw, "@@"@) {
            assert(raw.subrange(0, 2)[0] == '@');
        }
    }
    assert(!starts_with(raw, "+"@)) by {
        if starts_with(raw, "+"@) {
            assert(raw.subrange(0, 1)[0] == '+');
        }
    }
    assert(!starts_with(raw, "-"@)) by {
        if starts_with(raw, "-"@) {
            assert(raw.subrange(0, 1)[0] == '-');
        }
    }
}

/// Every line of a hunk is drawn, also one that looks like a file header, and its text is
/// kept: the rows of an added or deleted line hold the line's characters in order.
pub proof fn law_hunk_lines_are_drawn(at: DiffPosition, text: Seq<char>, width: u16)
    requires
        at.in_hunk,
    ensures
        diff_step(at, "+"@ + text, width).1 == diff_rows(
            text,
            width,
            at.new_line,
            '+',
            Color::Green,
            added_style(),
        ),
        diff_step(at, "-"@ + text, width).1 == diff_rows(
            text,
            width,
            at.old_line,
            '-',
            Color::Red,
            deleted_style(),
        ),
{
    reveal_strlit("+");
    reveal_strlit("-");
    reveal_strlit("@@");
    reveal_strlit("diff --git ");
    let plus = "+"@ + text;
    let minus = "-"@ + text;
    assert(plus.subrange(0, 1) =~= "+"@);
    assert(minus.subrange(0, 1) =~= "-"@);
    assert(plus.skip(1) =~= text);
    assert(minus.skip(1) =~= text);
    assert(!starts_with(plus, "@@"@)) by {
        if starts_with(plus, "@@"@) {
            assert(plus.subrange(0, 2)[0] == '@');
        }
    }
    assert(!starts_with(minus, "@@"@)) by {
        if starts_with(minus, "@@"@) {
            assert(minus.subrange(0, 2)[0] == '@');
        }
    }
    assert(!starts_with(minus, "+"@)) by {
        if starts_with(minus, "+"@) {
            assert(minus.subrange(0, 1)[0] == '+');
        }
    }
    assert(!starts_with(plus, "diff --git "@)) by {
        if starts_with(plus, "diff --git "@) {
            assert(plus.subrange(0, 11)[0] == 'd');
        }
    }
    assert(!starts_with(minus, "diff --git "@)) by {
        if starts_with(minus, "diff --git "@) {
            assert(minus.subrange(0, 11)[0] == 'd');
        }
    }
}

} // verus!
