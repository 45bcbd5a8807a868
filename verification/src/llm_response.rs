//! Collecting a streamed model response.
use crate::event::{AgentEvent, EventModel};
use crate::stream::{AccumulatorModel, StreamAccumulator};
use crate::text::{
    byte_len, concat3, find_char, from_chars, has_prefix, join, joined, owned,
    position_of, starts_with, strip_prefix, strip_suffix, to_chars, trim, trim_end_char, trimmed,
    trimmed_end_char, utf8_len, without_prefix, without_suffix,
};
use crate::types::{
    lemma_batch_model, ContentBlock, ContentBlockModel, FinishReason, ResponseBlockModel,
    ResponseContentBlock, StreamDelta, StreamDeltaModel, Usage,
};
use serde_json::Value;
use vstd::prelude::*;

verus! {

pub const SESSION_TITLE_INSTRUCTION: &'static str = "For this response only, begin the final answer with exactly <session-title>concise title</session-title> on its own line, then continue with the normal answer. Use the user's language, describe the task rather than the answer, keep the title under 60 characters, and do not mention this metadata line.";

pub const SESSION_TITLE_OPEN: &'static str = "<session-title>";

pub const SESSION_TITLE_CLOSE: &'static str = "</session-title>";

/// A first line longer than this, in bytes, is no title line.
pub const SESSION_TITLE_BUFFER_LIMIT: usize = 512;

/// Watches the start of a response for a title line and keeps that line out of the
/// visible text.
#[derive(Debug)]
pub struct SessionTitleFilter {
    pub decided: bool,
    pub buffer: String,
    pub title: Option<String>,
}

#[verifier::ext_equal]
pub struct TitleFilterModel {
    pub decided: bool,
    pub buffer: Seq<char>,
    pub title: Option<Seq<char>>,
}

/// What a filter hands on: visible text and a title, where there are any.
#[verifier::ext_equal]
pub struct Filtered {
    pub visible: Option<Seq<char>>,
    pub title: Option<Seq<char>>,
}

/// The title in a title line.
pub open spec fn title_of(line: Seq<char>) -> Option<Seq<char>> {
    match strip_prefix(trim(line), SESSION_TITLE_OPEN@) {
        Some(rest) => match strip_suffix(rest, SESSION_TITLE_CLOSE@) {
            Some(title) => if trim(title).len() > 0 {
                Some(trim(title))
            } else {
                None
            },
            None => None,
        },
        None => None,
    }
}

/// The text, unless it is empty.
pub open spec fn some_text(text: Seq<char>) -> Option<Seq<char>> {
    if text.len() > 0 {
        Some(text)
    } else {
        None
    }
}

impl TitleFilterModel {
    pub open spec fn start(enabled: bool) -> TitleFilterModel {
        TitleFilterModel { decided: !enabled, buffer: Seq::empty(), title: None }
    }

    /// The filter once it has decided and holds nothing back.
    pub open spec fn settled(self, title: Option<Seq<char>>) -> TitleFilterModel {
        TitleFilterModel {
            decided: true,
            buffer: Seq::empty(),
            title: if title is Some {
                title
            } else {
                self.title
            },
        }
    }

    /// Whether what has come so far may still begin with the title marker.
    pub open spec fn may_be_title(text: Seq<char>) -> bool {
        starts_with(SESSION_TITLE_OPEN@, text) || starts_with(text, SESSION_TITLE_OPEN@)
    }

    pub open spec fn push(self, text: Seq<char>) -> (TitleFilterModel, Filtered) {
        let seen = self.buffer + text;
        if self.decided {
            (self, Filtered { visible: some_text(text), title: None })
        } else if !Self::may_be_title(seen) {
            (self.settled(None), Filtered { visible: some_text(seen), title: None })
        } else if find_char(seen, '\n') is Some {
            let newline = find_char(seen, '\n')->0;
            let line = trim_end_char(seen.subrange(0, newline), '\r');
            let rest = seen.subrange(newline + 1, seen.len() as int);
            match title_of(line) {
                Some(title) => (
                    self.settled(Some(title)),
                    Filtered { visible: some_text(rest), title: Some(title) },
                ),
                None => (
                    self.settled(None),
                    Filtered { visible: some_text(line + "\n"@ + rest), title: None },
                ),
            }
        } else if utf8_len(seen) > SESSION_TITLE_BUFFER_LIMIT {
            (self.settled(None), Filtered { visible: some_text(seen), title: None })
        } else {
            (
                TitleFilterModel { buffer: seen, ..self },
                Filtered { visible: None, title: None },
            )
        }
    }

    pub open spec fn finish(self) -> (TitleFilterModel, Option<Filtered>) {
        if self.decided || self.buffer.len() == 0 {
            (self, None)
        } else {
            match title_of(trim_end_char(self.buffer, '\r')) {
                Some(title) => (
                    self.settled(Some(title)),
                    Some(Filtered { visible: None, title: Some(title) }),
                ),
                None => (
                    self.settled(None),
                    Some(Filtered { visible: Some(self.buffer), title: None }),
                ),
            }
        }
    }
}

/// The text of an optional piece.
pub open spec fn text_or_none(text: Option<Seq<char>>) -> Seq<char> {
    match text {
        Some(text) => text,
        None => Seq::empty(),
    }
}

/// Whether the first line of the text ends in a carriage return.
pub open spec fn first_line_ends_in_return(text: Seq<char>) -> bool {
    find_char(text, '\n') matches Some(newline) && newline > 0 && text[newline - 1] == '\r'
}

/// Text without a title is shown as it came: what is shown now and what is still held
/// back make up what was held back and what came. (Carriage returns before the first
/// line break are dropped where that line begins like a title line.)
pub proof fn law_untitled_text_is_kept(filter: TitleFilterModel, text: Seq<char>)
    requires
        filter.decided ==> filter.buffer.len() == 0,
        filter.push(text).1.title is None,
        !first_line_ends_in_return(filter.buffer + text),
    ensures
        text_or_none(filter.push(text).1.visible) + filter.push(text).0.buffer == filter.buffer
            + text,
        filter.push(text).0.decided ==> filter.push(text).0.buffer.len() == 0,
{
    let seen = filter.buffer + text;
    let (next, out) = filter.push(text);
    if filter.decided {
        assert(text_or_none(out.visible) + next.buffer =~= seen);
    } else if TitleFilterModel::may_be_title(seen) && find_char(seen, '\n') is Some {
        let newline = find_char(seen, '\n')->0;
        crate::text::lemma_find_char(seen, '\n');
        let line = seen.subrange(0, newline);
        assert(trim_end_char(line, '\r') == line);
        reveal_strlit("\n");
        assert("\n"@ =~= seq!['\n']);
        assert(line + "\n"@ + seen.subrange(newline + 1, seen.len() as int) =~= seen);
        assert(text_or_none(out.visible) + next.buffer =~= seen);
    } else {
        assert(text_or_none(out.visible) + next.buffer =~= seen);
    }
}

/// A title line never reaches the visible text: where a title is found, what is shown
/// is what follows the first line break.
pub proof fn law_title_line_is_hidden(filter: TitleFilterModel, text: Seq<char>)
    requires
        filter.push(text).1.title is Some,
    ensures
        ({
            let seen = filter.buffer + text;
            let newline = find_char(seen, '\n');
            newline is Some && text_or_none(filter.push(text).1.visible) == seen.subrange(
                newline->0 + 1,
                seen.len() as int,
            )
        }),
{
    let seen = filter.buffer + text;
    crate::text::lemma_find_char(seen, '\n');
    let rest = seen.subrange(find_char(seen, '\n')->0 + 1, seen.len() as int);
    assert(text_or_none(some_text(rest)) =~= rest);
}

/// A response has at most one title: finding one settles the filter, and a settled
/// filter finds none.
pub proof fn law_at_most_one_title(filter: TitleFilterModel, text: Seq<char>)
    ensures
        filter.push(text).1.title is Some ==> !filter.decided && filter.push(text).0.decided,
        filter.decided ==> filter.push(text).0.decided,
        filter.decided ==> filter.finish().1 is None,
{
}

/// Whether the first line of a text, where it has ended, is short enough for a title line.
pub open spec fn first_line_fits(text: Seq<char>) -> bool {
    find_char(text, '\n') matches Some(newline) ==> utf8_len(text.subrange(0, newline))
        <= SESSION_TITLE_BUFFER_LIMIT
}

/// Both of two titles, where there is at most one.
pub open spec fn either_title(a: Option<Seq<char>>, b: Option<Seq<char>>) -> Option<Seq<char>> {
    if a is Some {
        a
    } else {
        b
    }
}

proof fn lemma_marker_has_no_line_end()
    ensures
        SESSION_TITLE_OPEN@.len() == 15,
        SESSION_TITLE_CLOSE@.len() == 16,
        forall|i: int| 0 <= i < 15 ==> SESSION_TITLE_OPEN@[i] != '\n',
        forall|i: int| 0 <= i < 16 ==> SESSION_TITLE_CLOSE@[i] != '\n',
        SESSION_TITLE_OPEN@[0] == '<',
        SESSION_TITLE_CLOSE@[15] == '>',
{
    reveal_strlit("<session-title>");
    reveal_strlit("</session-title>");
}

/// A text that cannot begin with the title marker cannot do so with more behind it, and one that
/// has ended its first line can do so with more behind it where it could before.
proof fn lemma_marker_in_longer_text(text: Seq<char>, more: Seq<char>)
    ensures
        !TitleFilterModel::may_be_title(text) ==> !TitleFilterModel::may_be_title(text + more),
        find_char(text, '\n') is Some && TitleFilterModel::may_be_title(text)
            ==> TitleFilterModel::may_be_title(text + more),
{
    let open = SESSION_TITLE_OPEN@;
    let whole = text + more;
    lemma_marker_has_no_line_end();
    crate::text::lemma_find_char(text, '\n');
    if starts_with(open, whole) {
        assert(open.subrange(0, text.len() as int) =~= text) by {
            assert forall|i: int| 0 <= i < text.len() implies open[i] == text[i] by {
                assert(open.subrange(0, whole.len() as int)[i] == whole[i]);
            }
        }
        assert(starts_with(open, text));
    }
    if starts_with(whole, open) {
        assert forall|i: int| 0 <= i < open.len() implies open[i] == whole[i] by {
            assert(whole.subrange(0, open.len() as int)[i] == whole[i]);
        }
        if text.len() <= open.len() {
            assert(open.subrange(0, text.len() as int) =~= text);
        } else {
            assert(text.subrange(0, open.len() as int) =~= open);
        }
    }
    if find_char(text, '\n') is Some && TitleFilterModel::may_be_title(text) {
        let newline = find_char(text, '\n')->0;
        if starts_with(open, text) {
            assert(open.subrange(0, text.len() as int)[newline] == open[newline]);
        }
        assert(starts_with(text, open));
        assert(whole.subrange(0, open.len() as int) =~= text.subrange(0, open.len() as int));
    }
}

/// It does not matter how a text is divided: two pieces one after the other give the title and the
/// visible text that they give as one, and leave the filter the same. (Where the first line is too
/// long for a title line, it depends on where it is divided whether its end is seen in time.)
pub proof fn law_division_does_not_matter(filter: TitleFilterModel, a: Seq<char>, b: Seq<char>)
    requires
        filter.decided || first_line_fits(filter.buffer + a + b),
    ensures
        ({
            let (one, first) = filter.push(a);
            let (two, second) = one.push(b);
            let (all, whole) = filter.push(a + b);
            &&& two == all
            &&& text_or_none(first.visible) + text_or_none(second.visible) == text_or_none(
                whole.visible,
            )
            &&& either_title(first.title, second.title) == whole.title
            &&& first.title is None || second.title is None
        }),
{
    let (one, first) = filter.push(a);
    let (two, second) = one.push(b);
    let (all, whole) = filter.push(a + b);
    let x = filter.buffer + a;
    let y = x + b;
    assert(filter.buffer + (a + b) =~= y);
    assert(text_or_none(some_text(a)) =~= a);
    assert(text_or_none(some_text(b)) =~= b);
    assert(text_or_none(some_text(a + b)) =~= a + b);
    assert(text_or_none(some_text(x)) =~= x);
    assert(text_or_none(some_text(y)) =~= y);
    if !filter.decided {
        lemma_marker_in_longer_text(x, b);
        crate::text::lemma_find_char(x, '\n');
        crate::text::lemma_find_char(y, '\n');
        if find_char(x, '\n') is Some {
            let newline = find_char(x, '\n')->0;
            crate::text::lemma_find_char_is(y, '\n', newline);
            let line = trim_end_char(x.subrange(0, newline), '\r');
            let rest = x.subrange(newline + 1, x.len() as int);
            let rest_of_all = y.subrange(newline + 1, y.len() as int);
            assert(y.subrange(0, newline) =~= x.subrange(0, newline));
            assert(rest_of_all =~= rest + b);
            assert(text_or_none(some_text(rest)) =~= rest);
            assert(text_or_none(some_text(rest + b)) =~= rest + b);
            assert(line + "\n"@ + rest + b =~= line + "\n"@ + (rest + b));
            assert(text_or_none(some_text(line + "\n"@ + rest)) =~= line + "\n"@ + rest);
            assert(text_or_none(some_text(line + "\n"@ + (rest + b))) =~= line + "\n"@ + (rest
                + b));
        } else if TitleFilterModel::may_be_title(x) && utf8_len(x) > SESSION_TITLE_BUFFER_LIMIT {
            if find_char(y, '\n') is Some {
                let newline = find_char(y, '\n')->0;
                assert(newline >= x.len());
                let tail = y.subrange(x.len() as int, newline);
                assert(y.subrange(0, newline) =~= x + tail);
                crate::text::lemma_utf8_len_of_sum(x, tail);
                assert(false);
            }
            crate::text::lemma_utf8_len_of_sum(x, b);
        }
    }
}

/// The text that some pieces make up.
pub open spec fn whole_text(pieces: Seq<Seq<char>>) -> Seq<char>
    decreases pieces.len(),
{
    if pieces.len() == 0 {
        Seq::empty()
    } else {
        whole_text(pieces.drop_last()) + pieces.last()
    }
}

impl TitleFilterModel {
    /// The filter after some pieces.
    pub open spec fn after(self, pieces: Seq<Seq<char>>) -> TitleFilterModel
        decreases pieces.len(),
    {
        if pieces.len() == 0 {
            self
        } else {
            self.after(pieces.drop_last()).push(pieces.last()).0
        }
    }

    /// The visible text of some pieces.
    pub open spec fn visible_text(self, pieces: Seq<Seq<char>>) -> Seq<char>
        decreases pieces.len(),
    {
        if pieces.len() == 0 {
            Seq::empty()
        } else {
            self.visible_text(pieces.drop_last()) + text_or_none(
                self.after(pieces.drop_last()).push(pieces.last()).1.visible,
            )
        }
    }

    /// The titles that some pieces give, one after another.
    pub open spec fn titles(self, pieces: Seq<Seq<char>>) -> Seq<Seq<char>>
        decreases pieces.len(),
    {
        if pieces.len() == 0 {
            Seq::empty()
        } else {
            match self.after(pieces.drop_last()).push(pieces.last()).1.title {
                Some(title) => self.titles(pieces.drop_last()).push(title),
                None => self.titles(pieces.drop_last()),
            }
        }
    }
}

proof fn lemma_first_line_of_start(a: Seq<char>, b: Seq<char>)
    requires
        first_line_fits(a + b),
    ensures
        first_line_fits(a),
{
    crate::text::lemma_find_char(a, '\n');
    if find_char(a, '\n') is Some {
        let newline = find_char(a, '\n')->0;
        crate::text::lemma_find_char_is(a + b, '\n', newline);
        assert((a + b).subrange(0, newline) =~= a.subrange(0, newline));
    }
}

/// However a response is divided into pieces, the pieces give the title and the visible text that
/// the whole of it gives, and no more than one title.
pub proof fn law_pieces_do_not_matter(pieces: Seq<Seq<char>>)
    requires
        first_line_fits(whole_text(pieces)),
    ensures
        ({
            let start = TitleFilterModel::start(true);
            let (all, whole) = start.push(whole_text(pieces));
            &&& start.after(pieces) == all
            &&& start.visible_text(pieces) == text_or_none(whole.visible)
            &&& start.titles(pieces) == (match whole.title {
                Some(title) => seq![title],
                None => Seq::empty(),
            })
        }),
    decreases pieces.len(),
{
    let start = TitleFilterModel::start(true);
    let (all, whole) = start.push(whole_text(pieces));
    if pieces.len() == 0 {
        let open = SESSION_TITLE_OPEN@;
        assert(start.buffer + whole_text(pieces) =~= Seq::empty());
        assert(open.subrange(0, 0) =~= Seq::empty());
        assert(utf8_len(Seq::empty()) == 0);
        assert(all =~= start);
        assert(text_or_none(whole.visible) =~= Seq::empty());
    } else {
        let rest = pieces.drop_last();
        let last = pieces.last();
        lemma_first_line_of_start(whole_text(rest), last);
        law_pieces_do_not_matter(rest);
        assert(start.buffer + whole_text(rest) + last =~= whole_text(pieces));
        law_division_does_not_matter(start, whole_text(rest), last);
        let first = start.push(whole_text(rest)).1;
        let second = start.after(rest).push(last).1;
        assert(start.titles(rest).len() == if first.title is Some {
            1nat
        } else {
            0
        });
        assert(start.titles(pieces) =~= match whole.title {
            Some(title) => seq![title],
            None => Seq::empty(),
        });
    }
}

/// A response that begins with a title line, in whatever pieces it comes, gives that title once,
/// and shows what follows the line and nothing else.
pub proof fn law_title_line_in_pieces(pieces: Seq<Seq<char>>, title: Seq<char>, rest: Seq<char>)
    requires
        whole_text(pieces) == SESSION_TITLE_OPEN@ + title + SESSION_TITLE_CLOSE@ + "\n"@ + rest,
        find_char(title, '\n') is None,
        trim(title).len() > 0,
        utf8_len(SESSION_TITLE_OPEN@ + title + SESSION_TITLE_CLOSE@) <= SESSION_TITLE_BUFFER_LIMIT,
    ensures
        TitleFilterModel::start(true).titles(pieces) == seq![trim(title)],
        TitleFilterModel::start(true).visible_text(pieces) == rest,
{
    let open = SESSION_TITLE_OPEN@;
    let close = SESSION_TITLE_CLOSE@;
    let text = whole_text(pieces);
    let line = open + title + close;
    let n = line.len() as int;
    lemma_marker_has_no_line_end();
    reveal_strlit("\n");
    crate::text::lemma_find_char(title, '\n');
    assert forall|i: int| 0 <= i < n implies text[i] == line[i] && line[i] != '\n' by {
        if i < open.len() {
            assert(line[i] == open[i]);
        } else if i < open.len() + title.len() {
            assert(line[i] == title[i - open.len()]);
        } else {
            assert(line[i] == close[i - open.len() - title.len()]);
        }
    }
    assert(text[n] == '\n');
    crate::text::lemma_find_char_is(text, '\n', n);
    assert(text.subrange(0, n) =~= line);
    law_pieces_do_not_matter(pieces);
    let start = TitleFilterModel::start(true);
    assert(start.buffer + text =~= text);
    assert(text.subrange(0, open.len() as int) =~= open);
    assert(line.last() == '>' && line[0] == '<');
    assert(trim_end_char(line, '\r') == line);
    assert(trim(line) == line);
    assert(line.subrange(0, open.len() as int) =~= open);
    let inner = line.subrange(open.len() as int, n);
    assert(inner =~= title + close);
    assert(inner.subrange(inner.len() - close.len(), inner.len() as int) =~= close);
    assert(inner.subrange(0, inner.len() - close.len()) =~= title);
    assert(title_of(line) == Some(trim(title)));
    assert(text.subrange(n + 1, text.len() as int) =~= rest);
    assert(text_or_none(some_text(rest)) =~= rest);
}

impl DeepView for SessionTitleFilter {
    type V = TitleFilterModel;

    open spec fn deep_view(&self) -> TitleFilterModel {
        TitleFilterModel {
            decided: self.decided,
            buffer: self.buffer@,
            title: self.title.deep_view(),
        }
    }
}

impl SessionTitleFilter {
    pub fn new(enabled: bool) -> (r: Self)
        ensures
            r.deep_view() == TitleFilterModel::start(enabled),
    {
        SessionTitleFilter { decided: !enabled, buffer: String::new(), title: None }
    }

    /// Takes in a piece of text; gives the text to show and the title, where there
    /// are any.
    pub fn push(&mut self, text: &str) -> (r: (Option<String>, Option<String>))
        ensures
            old(self).deep_view().push(text@) == (
                final(self).deep_view(),
                Filtered { visible: r.0.deep_view(), title: r.1.deep_view() },
            ),
    {
        if self.decided {
            return (nonempty(owned(text)), None);
        }
        self.buffer.append(text);
        let seen = self.buffer.clone();
        if !has_prefix(SESSION_TITLE_OPEN, seen.as_str()) && !has_prefix(
            seen.as_str(),
            SESSION_TITLE_OPEN,
        ) {
            self.decided = true;
            self.buffer = String::new();
            return (nonempty(seen), None);
        }
        let chars = to_chars(seen.as_str());
        if let Some(newline) = position_of(&chars, '\n') {
            let rest = from_chars(&chars, newline + 1, chars.len());
            let whole_line = from_chars(&chars, 0, newline);
            let line = trimmed_end_char(whole_line.as_str(), '\r');
            self.buffer = String::new();
            self.decided = true;
            if let Some(title) = parse_session_title(line.as_str()) {
                self.title = Some(title.clone());
                return (nonempty(rest), Some(title));
            }
            return (nonempty(concat3(line.as_str(), "\n", rest.as_str())), None);
        }
        if byte_len(seen.as_str()) > SESSION_TITLE_BUFFER_LIMIT {
            self.decided = true;
            self.buffer = String::new();
            return (nonempty(seen), None);
        }
        (None, None)
    }

    /// Hands on what is held back once the response has ended.
    pub fn finish(&mut self) -> (r: Option<(Option<String>, Option<String>)>)
        ensures
            old(self).deep_view().finish() == (
                final(self).deep_view(),
                match r {
                    Some((visible, title)) => Some(
                        Filtered { visible: visible.deep_view(), title: title.deep_view() },
                    ),
                    None => None,
                },
            ),
    {
        if self.decided || self.buffer.as_str().is_empty() {
            return None;
        }
        self.decided = true;
        let buffered = self.buffer.clone();
        self.buffer = String::new();
        let line = trimmed_end_char(buffered.as_str(), '\r');
        if let Some(title) = parse_session_title(line.as_str()) {
            self.title = Some(title.clone());
            Some((None, Some(title)))
        } else {
            Some((Some(buffered), None))
        }
    }
}

pub fn parse_session_title(line: &str) -> (r: Option<String>)
    ensures
        r.deep_view() == title_of(line@),
{
    let line = trimmed(line);
    if let Some(rest) = without_prefix(line.as_str(), SESSION_TITLE_OPEN) {
        if let Some(title) = without_suffix(rest.as_str(), SESSION_TITLE_CLOSE) {
            let title = trimmed(title.as_str());
            if !title.as_str().is_empty() {
                return Some(title);
            }
        }
    }
    None
}

pub fn nonempty(value: String) -> (r: Option<String>)
    ensures
        r.deep_view() == some_text(value@),
{
    if value.as_str().is_empty() {
        None
    } else {
        Some(value)
    }
}

/// A tool call that a response asks for.
#[derive(Debug)]
pub struct ToolCall {
    pub id: String,
    pub name: String,
    pub input: Value,
}

#[verifier::ext_equal]
pub struct ToolCallModel {
    pub id: Seq<char>,
    pub name: Seq<char>,
    pub input: Value,
}

impl DeepView for ToolCall {
    type V = ToolCallModel;

    open spec fn deep_view(&self) -> ToolCallModel {
        ToolCallModel { id: self.id@, name: self.name@, input: self.input }
    }
}

impl Clone for ToolCall {
    fn clone(&self) -> (r: Self)
        ensures
            r.deep_view() == self.deep_view(),
    {
        ToolCall { id: self.id.clone(), name: self.name.clone(), input: self.input.clone() }
    }
}

/// The content block that a response block becomes in the conversation.
pub open spec fn content_of(block: ResponseBlockModel) -> ContentBlockModel {
    match block {
        ResponseBlockModel::Text(text) => ContentBlockModel::Text { text },
        ResponseBlockModel::Reasoning { text, metadata } => ContentBlockModel::Reasoning {
            text,
            metadata,
        },
        ResponseBlockModel::ToolUse { id, name, input } => ContentBlockModel::ToolUse {
            id,
            name,
            input,
        },
        ResponseBlockModel::ProviderItem { provider, value } => ContentBlockModel::ProviderItem {
            provider,
            value,
        },
    }
}

/// The content blocks of a response, in order.
pub open spec fn contents_of(blocks: Seq<ResponseBlockModel>) -> Seq<ContentBlockModel> {
    blocks.map_values(|block: ResponseBlockModel| content_of(block))
}

pub fn response_blocks_to_content(blocks: &Vec<ResponseContentBlock>) -> (r: Vec<ContentBlock>)
    ensures
        r.deep_view() == contents_of(blocks.deep_view()),
{
    let mut out: Vec<ContentBlock> = Vec::new();
    let mut i: usize = 0;
    while i < blocks.len()
        invariant
            i <= blocks.len(),
            out.deep_view() == contents_of(blocks.deep_view()).take(i as int),
        decreases blocks.len() - i,
    {
        let ghost before = out.deep_view();
        let block = match &blocks[i] {
            ResponseContentBlock::Text(text) => ContentBlock::Text { text: text.clone() },
            ResponseContentBlock::Reasoning { text, metadata } => ContentBlock::Reasoning {
                text: text.clone(),
                metadata: metadata.clone(),
            },
            ResponseContentBlock::ToolUse { id, name, input } => ContentBlock::ToolUse {
                id: id.clone(),
                name: name.clone(),
                input: input.clone(),
            },
            ResponseContentBlock::ProviderItem { provider, value } =>
                ContentBlock::ProviderItem { provider: provider.clone(), value: value.clone() },
        };
        assert(block.deep_view() == contents_of(blocks.deep_view())[i as int]);
        out.push(block);
        i += 1;
        assert(out.deep_view() =~= before.push(block.deep_view()));
        assert(out.deep_view() =~= contents_of(blocks.deep_view()).take(i as int));
    }
    assert(out.deep_view() =~= contents_of(blocks.deep_view()));
    out
}

/// The tool calls among the blocks of a response, in order.
pub open spec fn calls_in(blocks: Seq<ResponseBlockModel>) -> Seq<ToolCallModel>
    decreases blocks.len(),
{
    if blocks.len() == 0 {
        Seq::empty()
    } else {
        match blocks.last() {
            ResponseBlockModel::ToolUse { id, name, input } => calls_in(blocks.drop_last()).push(
                ToolCallModel { id, name, input },
            ),
            _ => calls_in(blocks.drop_last()),
        }
    }
}

pub fn tool_calls_from_blocks(blocks: &Vec<ResponseContentBlock>) -> (r: Vec<ToolCall>)
    ensures
        r.deep_view() == calls_in(blocks.deep_view()),
{
    let mut out: Vec<ToolCall> = Vec::new();
    let mut i: usize = 0;
    let ghost all = blocks.deep_view();
    assert(out.deep_view() =~= calls_in(all.take(0)));
    while i < blocks.len()
        invariant
            all == blocks.deep_view(),
            i <= blocks.len(),
            out.deep_view() == calls_in(all.take(i as int)),
        decreases blocks.len() - i,
    {
        let ghost before = out.deep_view();
        assert(all.take(i + 1).drop_last() =~= all.take(i as int));
        assert(all[i as int] == blocks@[i as int].deep_view());
        if let ResponseContentBlock::ToolUse { id, name, input } = &blocks[i] {
            let call = ToolCall { id: id.clone(), name: name.clone(), input: input.clone() };
            out.push(call);
            assert(out.deep_view() =~= before.push(call.deep_view()));
        }
        i += 1;
    }
    assert(all.take(i as int) =~= all);
    out
}

/// The texts of the text blocks, in order.
pub open spec fn texts_in(blocks: Seq<ResponseBlockModel>) -> Seq<Seq<char>>
    decreases blocks.len(),
{
    if blocks.len() == 0 {
        Seq::empty()
    } else {
        match blocks.last() {
            ResponseBlockModel::Text(text) => texts_in(blocks.drop_last()).push(text),
            _ => texts_in(blocks.drop_last()),
        }
    }
}

/// The answer in a response: its text blocks, one per line.
pub open spec fn final_text(blocks: Seq<ResponseBlockModel>) -> Seq<char> {
    join(texts_in(blocks), "\n"@)
}

pub fn final_text_from_blocks(blocks: &Vec<ResponseContentBlock>) -> (r: String)
    ensures
        r@ == final_text(blocks.deep_view()),
{
    let mut out: Vec<String> = Vec::new();
    let mut i: usize = 0;
    let ghost all = blocks.deep_view();
    assert(out.deep_view() =~= texts_in(all.take(0)));
    while i < blocks.len()
        invariant
            all == blocks.deep_view(),
            i <= blocks.len(),
            out.deep_view() == texts_in(all.take(i as int)),
        decreases blocks.len() - i,
    {
        let ghost before = out.deep_view();
        assert(all.take(i + 1).drop_last() =~= all.take(i as int));
        assert(all[i as int] == blocks@[i as int].deep_view());
        if let ResponseContentBlock::Text(text) = &blocks[i] {
            out.push(text.clone());
            assert(out.deep_view() =~= before.push(text@));
        }
        i += 1;
    }
    assert(all.take(i as int) =~= all);
    joined(&out, "\n")
}

/// The finish reason after one more was reported: a plain stop does not replace a
/// more telling reason.
pub open spec fn kept_reason(
    current: Option<FinishReason>,
    incoming: FinishReason,
) -> Option<FinishReason> {
    if current is Some && current != Some(FinishReason::Stop) && incoming is Stop {
        current
    } else {
        Some(incoming)
    }
}

pub fn preserve_finish_reason(current: &mut Option<FinishReason>, incoming: FinishReason)
    ensures
        *final(current) == kept_reason(*old(current), incoming),
{
    if let Some(reason) = *current {
        if reason != FinishReason::Stop && incoming == FinishReason::Stop {
            return ;
        }
    }
    *current = Some(incoming);
}

/// The deltas of a batch, and of the batches in it, in order.
pub open spec fn flattened(delta: StreamDeltaModel) -> Seq<StreamDeltaModel>
    decreases delta,
{
    match delta {
        StreamDeltaModel::Batch(deltas) => flattened_all(deltas),
        _ => seq![delta],
    }
}

pub open spec fn flattened_all(deltas: Seq<StreamDeltaModel>) -> Seq<StreamDeltaModel>
    decreases deltas,
{
    if deltas.len() == 0 {
        Seq::empty()
    } else {
        flattened(deltas[0]) + flattened_all(deltas.subrange(1, deltas.len() as int))
    }
}

/// A flattened delta holds no batch.
pub proof fn law_flattening_leaves_no_batch(delta: StreamDeltaModel)
    ensures
        forall|i: int| 0 <= i < flattened(delta).len() ==> !(#[trigger] flattened(delta)[i] is Batch),
    decreases delta,
{
    if let StreamDeltaModel::Batch(deltas) = delta {
        lemma_flattened_all_leaves_no_batch(deltas);
    }
}

proof fn lemma_flattened_all_leaves_no_batch(deltas: Seq<StreamDeltaModel>)
    ensures
        forall|i: int|
            0 <= i < flattened_all(deltas).len() ==> !(#[trigger] flattened_all(
                deltas,
            )[i] is Batch),
    decreases deltas,
{
    if deltas.len() > 0 {
        law_flattening_leaves_no_batch(deltas[0]);
        lemma_flattened_all_leaves_no_batch(deltas.subrange(1, deltas.len() as int));
    }
}

pub fn flatten_delta(delta: StreamDelta) -> (r: Vec<StreamDelta>)
    ensures
        r.deep_view() == flattened(delta.deep_view()),
    decreases delta,
{
    match delta {
        StreamDelta::Batch(deltas) => {
            proof {
                lemma_batch_model(deltas);
            }
            flatten_all(deltas)
        },
        other => {
            let mut out: Vec<StreamDelta> = Vec::new();
            out.push(other);
            assert(out.deep_view() =~= seq![other.deep_view()]);
            out
        },
    }
}

fn flatten_all(deltas: Vec<StreamDelta>) -> (r: Vec<StreamDelta>)
    ensures
        r.deep_view() == flattened_all(deltas.deep_view()),
    decreases deltas,
{
    let ghost all = deltas.deep_view();
    let ghost items = deltas@;
    let mut out: Vec<StreamDelta> = Vec::new();
    assert(all.subrange(0, all.len() as int) =~= all);
    assert(out.deep_view() + flattened_all(all) =~= flattened_all(all));
    for delta in it: deltas
        invariant
            it.seq() == items,
            items == deltas@,
            all == deltas.deep_view(),
            flattened_all(all) == out.deep_view() + flattened_all(
                all.subrange(it.index(), all.len() as int),
            ),
    {
        let ghost rest = all.subrange(it.index(), all.len() as int);
        let ghost before = out.deep_view();
        assert(rest[0] == delta.deep_view());
        assert(rest.subrange(1, rest.len() as int) =~= all.subrange(
            it.index() + 1,
            all.len() as int,
        ));
        let mut flat = flatten_delta(delta);
        let ghost added = flat.deep_view();
        out.append(&mut flat);
        assert(out.deep_view() =~= before + added);
        assert(flattened_all(all) =~= out.deep_view() + flattened_all(
            all.subrange(it.index() + 1, all.len() as int),
        ));
    }
    assert(out.deep_view() =~= flattened_all(all));
    out
}

/// A complete streamed response.
#[derive(Debug)]
pub struct StreamedResponse {
    pub response_blocks: Vec<ResponseContentBlock>,
    pub finish_reason: Option<FinishReason>,
    pub usage: Usage,
    pub session_title_resolved: bool,
}

#[verifier::ext_equal]
pub struct ResponseModel {
    pub blocks: Seq<ResponseBlockModel>,
    pub finish_reason: Option<FinishReason>,
    pub usage: Usage,
    pub session_title_resolved: bool,
}

impl DeepView for StreamedResponse {
    type V = ResponseModel;

    open spec fn deep_view(&self) -> ResponseModel {
        ResponseModel {
            blocks: self.response_blocks.deep_view(),
            finish_reason: self.finish_reason,
            usage: self.usage,
            session_title_resolved: self.session_title_resolved,
        }
    }
}

/// Takes in the deltas of one streamed response and gives the events to emit and, in
/// the end, the whole response.
pub struct ResponseCollector {
    accumulator: StreamAccumulator,
    title_filter: SessionTitleFilter,
    response_blocks: Vec<ResponseContentBlock>,
    finish_reason: Option<FinishReason>,
    usage: Usage,
    capture_session_title: bool,
    pub outbox: Vec<AgentEvent>,
}

#[verifier::ext_equal]
pub struct CollectorModel {
    pub accumulator: AccumulatorModel,
    pub title_filter: TitleFilterModel,
    pub blocks: Seq<ResponseBlockModel>,
    pub finish_reason: Option<FinishReason>,
    pub usage: Usage,
    pub capture_session_title: bool,
    pub outbox: Seq<EventModel>,
}

impl CollectorModel {
    pub open spec fn start(capture_session_title: bool) -> CollectorModel {
        CollectorModel {
            accumulator: AccumulatorModel::empty(),
            title_filter: TitleFilterModel::start(capture_session_title),
            blocks: Seq::empty(),
            finish_reason: None,
            usage: Usage::none(),
            capture_session_title,
            outbox: Seq::empty(),
        }
    }

    pub open spec fn emit(self, event: EventModel) -> CollectorModel {
        CollectorModel { outbox: self.outbox.push(event), ..self }
    }

    /// A delta that carries content, taken into the accumulator.
    pub open spec fn absorb(self, delta: StreamDeltaModel) -> CollectorModel {
        let (accumulator, block) = self.accumulator.step(delta);
        CollectorModel {
            accumulator,
            blocks: self.blocks + crate::stream::emitted(block),
            finish_reason: match delta {
                StreamDeltaModel::Finished(reason) => kept_reason(self.finish_reason, reason),
                _ => self.finish_reason,
            },
            ..self
        }
    }

    /// What the title filter hands on: first the title, then the visible text.
    pub open spec fn announce(self, filtered: Filtered) -> CollectorModel {
        let titled = match filtered.title {
            Some(title) => self.emit(EventModel::SessionTitleGenerated { title }),
            None => self,
        };
        match filtered.visible {
            Some(text) => titled.emit(EventModel::TextDelta(text)).absorb(
                StreamDeltaModel::TextDelta(text),
            ),
            None => titled,
        }
    }

    /// One delta, which is no batch, taken in.
    pub open spec fn accept_one(self, delta: StreamDeltaModel) -> CollectorModel {
        match delta {
            StreamDeltaModel::TextDelta(text) => {
                let (title_filter, filtered) = self.title_filter.push(text);
                CollectorModel { title_filter, ..self }.announce(filtered)
            },
            StreamDeltaModel::ReasoningDelta(text) => self.emit(
                EventModel::ReasoningDelta(text),
            ).absorb(delta),
            StreamDeltaModel::Usage(usage) => CollectorModel {
                usage: self.usage.plus(usage),
                ..self
            },
            _ => self.absorb(delta),
        }
    }

    pub open spec fn accept(self, deltas: Seq<StreamDeltaModel>) -> CollectorModel
        decreases deltas.len(),
    {
        if deltas.len() == 0 {
            self
        } else {
            self.accept(deltas.drop_last()).accept_one(deltas.last())
        }
    }

    /// The collector once the stream has ended and the title filter has let go.
    pub open spec fn closed(self) -> CollectorModel {
        let (title_filter, filtered) = self.title_filter.finish();
        let closed = CollectorModel { title_filter, ..self };
        match filtered {
            Some(filtered) => closed.announce(filtered),
            None => closed,
        }
    }

    pub open spec fn response(self) -> ResponseModel {
        let closed = self.closed();
        ResponseModel {
            blocks: closed.blocks + closed.accumulator.drained(),
            finish_reason: closed.finish_reason,
            usage: closed.usage,
            session_title_resolved: !closed.capture_session_title || closed.title_filter.decided,
        }
    }
}

/// The text that the events show.
pub open spec fn shown_text(events: Seq<EventModel>) -> Seq<char>
    decreases events.len(),
{
    if events.len() == 0 {
        Seq::empty()
    } else {
        shown_text(events.drop_last()) + match events.last() {
            EventModel::TextDelta(text) => text,
            _ => Seq::empty(),
        }
    }
}

impl CollectorModel {
    /// Whether the text shown so far is the text of the response so far.
    pub open spec fn shows_its_text(self) -> bool {
        shown_text(self.outbox) == crate::stream::text_of(self.blocks)
            + self.accumulator.held_text()
    }
}

proof fn lemma_absorb_text(m: CollectorModel, delta: StreamDeltaModel)
    requires
        !(delta is Batch),
    ensures
        ({
            let next = m.absorb(delta);
            crate::stream::text_of(next.blocks) + next.accumulator.held_text()
                == crate::stream::text_of(m.blocks) + m.accumulator.held_text() + match delta {
                StreamDeltaModel::TextDelta(text) => text,
                _ => Seq::empty(),
            }
        }),
{
    let (accumulator, block) = m.accumulator.step(delta);
    crate::stream::law_text_is_conserved(m.accumulator, delta);
    crate::stream::lemma_text_of_concat(m.blocks, crate::stream::emitted(block));
    let added = match delta {
        StreamDeltaModel::TextDelta(text) => text,
        _ => Seq::empty(),
    };
    let base = crate::stream::text_of(m.blocks);
    let out = crate::stream::text_of(crate::stream::emitted(block));
    assert(base + out + accumulator.held_text() =~= base + (out + accumulator.held_text()));
    assert(base + (m.accumulator.held_text() + added) =~= base + m.accumulator.held_text()
        + added);
}

proof fn lemma_emit_shows(m: CollectorModel, event: EventModel)
    ensures
        shown_text(m.emit(event).outbox) == shown_text(m.outbox) + match event {
            EventModel::TextDelta(text) => text,
            _ => Seq::empty(),
        },
{
    assert(m.emit(event).outbox.drop_last() =~= m.outbox);
}

proof fn lemma_announce_shows(m: CollectorModel, filtered: Filtered)
    requires
        m.shows_its_text(),
    ensures
        m.announce(filtered).shows_its_text(),
{
    let titled = match filtered.title {
        Some(title) => m.emit(EventModel::SessionTitleGenerated { title }),
        None => m,
    };
    if let Some(title) = filtered.title {
        lemma_emit_shows(m, EventModel::SessionTitleGenerated { title });
        assert(shown_text(titled.outbox) =~= shown_text(m.outbox));
    }
    if let Some(text) = filtered.visible {
        lemma_emit_shows(titled, EventModel::TextDelta(text));
        lemma_absorb_text(
            titled.emit(EventModel::TextDelta(text)),
            StreamDeltaModel::TextDelta(text),
        );
    }
}

/// The client is shown the text of the response and nothing else: after every delta the
/// text shown is the text that the response holds.
pub proof fn law_shown_text_is_response_text(m: CollectorModel, delta: StreamDeltaModel)
    requires
        m.shows_its_text(),
        !(delta is Batch),
    ensures
        m.accept_one(delta).shows_its_text(),
        m.closed().shows_its_text(),
{
    match delta {
        StreamDeltaModel::TextDelta(text) => {
            let (title_filter, filtered) = m.title_filter.push(text);
            lemma_announce_shows(CollectorModel { title_filter, ..m }, filtered);
        },
        StreamDeltaModel::ReasoningDelta(text) => {
            let event = EventModel::ReasoningDelta(text);
            lemma_emit_shows(m, event);
            lemma_absorb_text(m.emit(event), delta);
            assert(shown_text(m.emit(event).outbox) =~= shown_text(m.outbox));
            let kept = crate::stream::text_of(m.blocks) + m.accumulator.held_text();
            assert(kept + Seq::<char>::empty() =~= kept);
        },
        StreamDeltaModel::Usage(_) => {},
        _ => {
            lemma_absorb_text(m, delta);
            let kept = crate::stream::text_of(m.blocks) + m.accumulator.held_text();
            assert(kept + Seq::<char>::empty() =~= kept);
        },
    }
    let (title_filter, filtered) = m.title_filter.finish();
    if let Some(filtered) = filtered {
        lemma_announce_shows(CollectorModel { title_filter, ..m }, filtered);
    }
}

/// Whether the token counts of the deltas can be added up.
pub open spec fn usage_fits(usage: Usage, deltas: Seq<StreamDeltaModel>) -> bool
    decreases deltas.len(),
{
    deltas.len() == 0 || {
        &&& usage_fits(usage, deltas.drop_last())
        &&& deltas.last() matches StreamDeltaModel::Usage(more) ==> usage_after(
            usage,
            deltas.drop_last(),
        ).can_add(more)
    }
}

/// The token counts after the deltas.
pub open spec fn usage_after(usage: Usage, deltas: Seq<StreamDeltaModel>) -> Usage
    decreases deltas.len(),
{
    if deltas.len() == 0 {
        usage
    } else {
        match deltas.last() {
            StreamDeltaModel::Usage(more) => usage_after(usage, deltas.drop_last()).plus(more),
            _ => usage_after(usage, deltas.drop_last()),
        }
    }
}

pub proof fn lemma_accept_usage(m: CollectorModel, deltas: Seq<StreamDeltaModel>)
    ensures
        m.accept(deltas).usage == usage_after(m.usage, deltas),
    decreases deltas.len(),
{
    if deltas.len() > 0 {
        lemma_accept_usage(m, deltas.drop_last());
    }
}

impl View for ResponseCollector {
    type V = CollectorModel;

    closed spec fn view(&self) -> CollectorModel {
        CollectorModel {
            accumulator: self.accumulator@,
            title_filter: self.title_filter.deep_view(),
            blocks: self.response_blocks.deep_view(),
            finish_reason: self.finish_reason,
            usage: self.usage,
            capture_session_title: self.capture_session_title,
            outbox: self.outbox.deep_view(),
        }
    }
}

impl ResponseCollector {
    pub fn new(capture_session_title: bool) -> (r: Self)
        ensures
            r@ == CollectorModel::start(capture_session_title),
    {
        let r = ResponseCollector {
            accumulator: StreamAccumulator::new(),
            title_filter: SessionTitleFilter::new(capture_session_title),
            response_blocks: Vec::new(),
            finish_reason: None,
            usage: Usage::default(),
            capture_session_title,
            outbox: Vec::new(),
        };
        assert(r@ =~= CollectorModel::start(capture_session_title));
        r
    }

    /// The events emitted so far, which are then forgotten.
    pub fn take_events(&mut self) -> (r: Vec<AgentEvent>)
        ensures
            r.deep_view() == old(self)@.outbox,
            final(self)@ == (CollectorModel { outbox: Seq::empty(), ..old(self)@ }),
    {
        let mut events: Vec<AgentEvent> = Vec::new();
        events.append(&mut self.outbox);
        assert(events.deep_view() =~= old(self)@.outbox);
        assert(self@ =~= (CollectorModel { outbox: Seq::empty(), ..old(self)@ }));
        events
    }

    fn emit(&mut self, event: AgentEvent)
        ensures
            final(self)@ == old(self)@.emit(event.deep_view()),
    {
        self.outbox.push(event);
        assert(self@ =~= old(self)@.emit(event.deep_view()));
    }

    fn absorb(&mut self, delta: StreamDelta)
        ensures
            final(self)@ == old(self)@.absorb(delta.deep_view()),
    {
        if let StreamDelta::Finished(reason) = &delta {
            preserve_finish_reason(&mut self.finish_reason, *reason);
        }
        let block = self.accumulator.process(delta);
        if let Some(block) = block {
            self.response_blocks.push(block);
            assert(self@.blocks =~= old(self)@.blocks + seq![block.deep_view()]);
        } else {
            assert(self@.blocks =~= old(self)@.blocks + Seq::<ResponseBlockModel>::empty());
        }
        assert(self@ =~= old(self)@.absorb(delta.deep_view()));
    }

    fn announce(&mut self, visible: Option<String>, title: Option<String>)
        ensures
            final(self)@ == old(self)@.announce(
                Filtered { visible: visible.deep_view(), title: title.deep_view() },
            ),
    {
        if let Some(title) = title {
            self.emit(AgentEvent::SessionTitleGenerated { title });
        }
        if let Some(text) = visible {
            self.emit(AgentEvent::TextDelta(text.clone()));
            self.absorb(StreamDelta::TextDelta(text));
        }
    }

    fn accept_one(&mut self, delta: StreamDelta)
        requires
            delta.deep_view() matches StreamDeltaModel::Usage(more) ==> old(self)@.usage.can_add(
                more,
            ),
        ensures
            final(self)@ == old(self)@.accept_one(delta.deep_view()),
    {
        match delta {
            StreamDelta::TextDelta(text) => {
                let (visible, title) = self.title_filter.push(text.as_str());
                assert(self@ =~= (CollectorModel {
                    title_filter: self@.title_filter,
                    ..old(self)@
                }));
                self.announce(visible, title);
            },
            StreamDelta::ReasoningDelta(text) => {
                self.emit(AgentEvent::ReasoningDelta(text.clone()));
                self.absorb(StreamDelta::ReasoningDelta(text));
            },
            StreamDelta::Usage(more) => {
                self.usage = self.usage.add_usage(&more);
                assert(self@ =~= old(self)@.accept_one(delta.deep_view()));
            },
            other => {
                self.absorb(other);
            },
        }
    }

    /// Whether the token counts of the deltas can be added to those so far.
    pub fn fits(&self, deltas: &Vec<StreamDelta>) -> (r: bool)
        ensures
            r == usage_fits(self@.usage, deltas.deep_view()),
    {
        let mut usage = self.usage;
        let mut i: usize = 0;
        let mut ok = true;
        let ghost all = deltas.deep_view();
        while i < deltas.len()
            invariant
                all == deltas.deep_view(),
                i <= deltas.len(),
                ok == usage_fits(self@.usage, all.take(i as int)),
                ok ==> usage == usage_after(self@.usage, all.take(i as int)),
            decreases deltas.len() - i,
        {
            assert(all.take(i + 1).drop_last() =~= all.take(i as int));
            assert(all[i as int] == deltas@[i as int].deep_view());
            if let StreamDelta::Usage(more) = &deltas[i] {
                if ok && usage.can_add_usage(more) {
                    usage = usage.add_usage(more);
                } else {
                    ok = false;
                }
            }
            i += 1;
        }
        assert(all.take(i as int) =~= all);
        ok
    }

    /// Takes in deltas that hold no batch.
    pub fn accept(&mut self, deltas: Vec<StreamDelta>)
        requires
            usage_fits(old(self)@.usage, deltas.deep_view()),
        ensures
            final(self)@ == old(self)@.accept(deltas.deep_view()),
    {
        let ghost all = deltas.deep_view();
        let ghost items = deltas@;
        let ghost start = self@;
        for delta in it: deltas
            invariant
                it.seq() == items,
                items == deltas@,
                all == deltas.deep_view(),
                usage_fits(start.usage, all),
                self@ == start.accept(all.take(it.index())),
        {
            assert(all.take(it.index() + 1).drop_last() =~= all.take(it.index()));
            assert(all[it.index()] == delta.deep_view());
            proof {
                lemma_accept_usage(start, all.take(it.index()));
                lemma_usage_fits_prefix(start.usage, all, it.index() + 1);
            }
            self.accept_one(delta);
        }
        assert(all.take(all.len() as int) =~= all);
    }

    /// The response, once the stream has ended; the events that come with its end
    /// stay in the outbox.
    pub fn finish(&mut self) -> (r: StreamedResponse)
        ensures
            r.deep_view() == old(self)@.response(),
            final(self)@.outbox == old(self)@.closed().outbox,
    {
        let ending = self.title_filter.finish();
        assert(self@ =~= (CollectorModel { title_filter: self@.title_filter, ..old(self)@ }));
        if let Some((visible, title)) = ending {
            self.announce(visible, title);
        }
        let ghost closed = self@;
        assert(closed == old(self)@.closed());
        let mut blocks: Vec<ResponseContentBlock> = Vec::new();
        blocks.append(&mut self.response_blocks);
        assert(blocks.deep_view() =~= closed.blocks);
        let mut done = false;
        while !done
            invariant
                self@.outbox == closed.outbox,
                self@.usage == closed.usage,
                self@.finish_reason == closed.finish_reason,
                self@.capture_session_title == closed.capture_session_title,
                self@.title_filter == closed.title_filter,
                closed.blocks + closed.accumulator.drained() == blocks.deep_view()
                    + self@.accumulator.drained(),
                done ==> self@.accumulator.drained().len() == 0,
            decreases self@.accumulator.drained().len() + (if done {
                0nat
            } else {
                1nat
            }),
        {
            let ghost before = self@.accumulator;
            let ghost so_far = blocks.deep_view();
            proof {
                crate::stream::law_flush_drains_in_order(before);
            }
            match self.accumulator.flush() {
                Some(block) => {
                    blocks.push(block);
                    assert(blocks.deep_view() =~= so_far.push(block.deep_view()));
                    assert(so_far + before.drained() =~= blocks.deep_view()
                        + self@.accumulator.drained());
                },
                None => {
                    done = true;
                },
            }
        }
        assert(blocks.deep_view() + self@.accumulator.drained() =~= blocks.deep_view());
        StreamedResponse {
            response_blocks: blocks,
            finish_reason: self.finish_reason,
            usage: self.usage,
            session_title_resolved: !self.capture_session_title || self.title_filter.decided,
        }
    }
}

proof fn lemma_usage_fits_prefix(usage: Usage, deltas: Seq<StreamDeltaModel>, n: int)
    requires
        usage_fits(usage, deltas),
        0 <= n <= deltas.len(),
    ensures
        usage_fits(usage, deltas.take(n)),
    decreases deltas.len(),
{
    if n == deltas.len() {
        assert(deltas.take(n) =~= deltas);
    } else {
        lemma_usage_fits_prefix(usage, deltas.drop_last(), n);
        assert(deltas.drop_last().take(n) =~= deltas.take(n));
    }
}

} // verus!
