//! Saved sessions: their titles, their checks, and the order in which they are listed.
use crate::ids::{is_uuid, parses_as_uuid};
use crate::text::{
    concat2, concat3, decimal, decimal_of, from_chars, join, joined, owned, same_text, to_chars,
    trim, trimmed,
};
use crate::types::{ContentBlock, ContentBlockModel, Message, MessageModel, Role};
use crate::words::{
    law_joined_words_are_read_back, lemma_words, shorten, shortened, split_words, words,
};
use vstd::prelude::*;

verus! {

pub const SESSION_SCHEMA_VERSION: u32 = 1;

pub const TITLE_MAX_CHARS: usize = 60;

/// A message as the transcript shows it.
#[derive(Debug)]
pub struct ChatMessage {
    pub role: String,
    pub content: String,
}

#[verifier::ext_equal]
pub struct ChatModel {
    pub role: Seq<char>,
    pub content: Seq<char>,
}

impl DeepView for ChatMessage {
    type V = ChatModel;

    open spec fn deep_view(&self) -> ChatModel {
        ChatModel { role: self.role@, content: self.content@ }
    }
}

pub open spec fn chat(role: Seq<char>, content: Seq<char>) -> ChatModel {
    ChatModel { role, content }
}

impl ChatMessage {
    pub fn of(role: &str, content: &str) -> (r: Self)
        ensures
            r.deep_view() == chat(role@, content@),
    {
        ChatMessage { role: owned(role), content: owned(content) }
    }

    pub fn copy(&self) -> (r: Self)
        ensures
            r.deep_view() == self.deep_view(),
    {
        ChatMessage { role: self.role.clone(), content: self.content.clone() }
    }
}

pub fn copy_chat(messages: &Vec<ChatMessage>) -> (r: Vec<ChatMessage>)
    ensures
        r.deep_view() == messages.deep_view(),
{
    let ghost all = messages.deep_view();
    let mut r: Vec<ChatMessage> = Vec::new();
    let mut i: usize = 0;
    assert(r.deep_view() =~= all.take(0));
    while i < messages.len()
        invariant
            all == messages.deep_view(),
            i <= messages.len(),
            r.deep_view() == all.take(i as int),
        decreases messages.len() - i,
    {
        let ghost before = r.deep_view();
        r.push(messages[i].copy());
        assert(r.deep_view() =~= before.push(all[i as int]));
        i += 1;
        assert(r.deep_view() =~= all.take(i as int));
    }
    assert(all.take(i as int) =~= all);
    r
}

/// A plan that waits for its review.
#[derive(Debug)]
pub struct SavedPendingPlan {
    pub plan_path: String,
}

impl DeepView for SavedPendingPlan {
    type V = Seq<char>;

    open spec fn deep_view(&self) -> Seq<char> {
        self.plan_path@
    }
}

/// A session as it is saved.
#[derive(Debug)]
pub struct SavedSession {
    pub schema_version: u32,
    pub id: String,
    pub title: String,
    pub title_generated: bool,
    pub workspace_root: String,
    pub created_at: String,
    pub updated_at: String,
    pub provider: String,
    pub model: String,
    pub reasoning_effort: String,
    pub plan_mode_enabled: bool,
    pub pending_plan: Option<SavedPendingPlan>,
    pub ui_messages: Vec<ChatMessage>,
    pub core_messages: Vec<Message>,
}

#[verifier::ext_equal]
pub struct SessionModel {
    pub schema_version: u32,
    pub id: Seq<char>,
    pub title: Seq<char>,
    pub title_generated: bool,
    pub workspace_root: Seq<char>,
    pub created_at: Seq<char>,
    pub updated_at: Seq<char>,
    pub provider: Seq<char>,
    pub model: Seq<char>,
    pub reasoning_effort: Seq<char>,
    pub plan_mode_enabled: bool,
    pub pending_plan: Option<Seq<char>>,
    pub ui_messages: Seq<ChatModel>,
    pub core_messages: Seq<MessageModel>,
}

impl DeepView for SavedSession {
    type V = SessionModel;

    open spec fn deep_view(&self) -> SessionModel {
        SessionModel {
            schema_version: self.schema_version,
            id: self.id@,
            title: self.title@,
            title_generated: self.title_generated,
            workspace_root: self.workspace_root@,
            created_at: self.created_at@,
            updated_at: self.updated_at@,
            provider: self.provider@,
            model: self.model@,
            reasoning_effort: self.reasoning_effort@,
            plan_mode_enabled: self.plan_mode_enabled,
            pending_plan: self.pending_plan.deep_view(),
            ui_messages: self.ui_messages.deep_view(),
            core_messages: self.core_messages.deep_view(),
        }
    }
}

pub open spec fn is_blank(text: Seq<char>) -> bool {
    trim(text).len() == 0
}

/// A text as one line: its words with single blanks between them.
pub open spec fn one_line(text: Seq<char>) -> Seq<char> {
    join(words(text), " "@)
}

pub fn single_line(value: &str) -> (r: String)
    ensures
        r@ == one_line(value@),
{
    joined(&split_words(value), " ")
}

/// Making a text one line twice changes nothing more.
pub proof fn law_one_line_is_lasting(text: Seq<char>)
    ensures
        one_line(one_line(text)) == one_line(text),
{
    lemma_words(text);
    law_joined_words_are_read_back(words(text));
}

/// The first message of the user that is not blank.
pub open spec fn first_request(messages: Seq<ChatModel>) -> Option<Seq<char>>
    decreases messages.len(),
{
    if messages.len() == 0 {
        None
    } else if messages[0].role == "user"@ && !is_blank(messages[0].content) {
        Some(messages[0].content)
    } else {
        first_request(messages.drop_first())
    }
}

/// The title that the messages of a session give it.
pub open spec fn title_from(messages: Seq<ChatModel>) -> Seq<char> {
    match first_request(messages) {
        Some(text) => shortened(one_line(text), TITLE_MAX_CHARS as nat),
        None => "Untitled session"@,
    }
}

pub fn session_title(messages: &Vec<ChatMessage>) -> (r: String)
    ensures
        r@ == title_from(messages.deep_view()),
{
    let ghost all = messages.deep_view();
    let mut i: usize = 0;
    assert(all.skip(0) =~= all);
    while i < messages.len()
        invariant
            all == messages.deep_view(),
            i <= messages.len(),
            first_request(all) == first_request(all.skip(i as int)),
        decreases messages.len() - i,
    {
        assert(all.skip(i as int)[0] == messages@[i as int].deep_view());
        assert(all.skip(i as int).drop_first() =~= all.skip(i + 1));
        if same_text(messages[i].role.as_str(), "user") && !trimmed(
            messages[i].content.as_str(),
        ).as_str().is_empty() {
            let line = single_line(messages[i].content.as_str());
            return shorten(line.as_str(), TITLE_MAX_CHARS);
        }
        i += 1;
    }
    owned("Untitled session")
}

/// The marks that a generated title may be wrapped in.
pub open spec fn title_mark(c: char) -> bool {
    c == '"' || c == '\'' || c == '`' || c == '#' || c == ':' || c == '：'
}

fn is_title_mark(c: char) -> (r: bool)
    ensures
        r == title_mark(c),
{
    c == '"' || c == '\'' || c == '`' || c == '#' || c == ':' || c == '：'
}

pub open spec fn without_marks_at_start(s: Seq<char>) -> Seq<char>
    decreases s.len(),
{
    if s.len() > 0 && title_mark(s[0]) {
        without_marks_at_start(s.drop_first())
    } else {
        s
    }
}

pub open spec fn without_marks_at_end(s: Seq<char>) -> Seq<char>
    decreases s.len(),
{
    if s.len() > 0 && title_mark(s.last()) {
        without_marks_at_end(s.drop_last())
    } else {
        s
    }
}

/// A text without the marks around it.
pub open spec fn unwrapped(s: Seq<char>) -> Seq<char> {
    without_marks_at_end(without_marks_at_start(s))
}

fn trim_marks(s: &str) -> (r: String)
    ensures
        r@ == unwrapped(s@),
{
    let chars = to_chars(s);
    let mut from: usize = 0;
    assert(chars@.skip(0) =~= chars@);
    while from < chars.len() && is_title_mark(chars[from])
        invariant
            chars@ == s@,
            from <= chars.len(),
            without_marks_at_start(s@) == without_marks_at_start(chars@.skip(from as int)),
        decreases chars.len() - from,
    {
        assert(chars@.skip(from as int)[0] == chars@[from as int]);
        assert(chars@.skip(from as int).drop_first() =~= chars@.skip(from + 1));
        from += 1;
    }
    assert(without_marks_at_start(s@) =~= chars@.subrange(from as int, chars@.len() as int));
    let mut to: usize = chars.len();
    while to > from && is_title_mark(chars[to - 1])
        invariant
            chars@ == s@,
            from <= to <= chars.len(),
            unwrapped(s@) == without_marks_at_end(chars@.subrange(from as int, to as int)),
        decreases to,
    {
        assert(chars@.subrange(from as int, to as int).last() == chars@[to - 1]);
        assert(chars@.subrange(from as int, to as int).drop_last() =~= chars@.subrange(
            from as int,
            to - 1,
        ));
        to -= 1;
    }
    from_chars(&chars, from, to)
}

/// A generated title in the form in which it is kept, if anything is left of it.
pub open spec fn cleaned_title(title: Seq<char>) -> Option<Seq<char>> {
    let bare = trim(unwrapped(one_line(title)));
    if bare.len() == 0 {
        None
    } else {
        Some(shortened(bare, TITLE_MAX_CHARS as nat))
    }
}

pub fn clean_title(title: &str) -> (r: Option<String>)
    ensures
        r.deep_view() == cleaned_title(title@),
{
    let line = single_line(title);
    let bare = trim_marks(line.as_str());
    let bare = trimmed(bare.as_str());
    if bare.as_str().is_empty() {
        None
    } else {
        Some(shorten(bare.as_str(), TITLE_MAX_CHARS))
    }
}

/// Whether a block is a text that is not blank.
pub open spec fn says_something(block: ContentBlockModel) -> bool {
    block is Text && !is_blank(block->Text_text)
}

pub open spec fn is_request(message: ChatModel) -> bool {
    message.role == "user"@ && !is_blank(message.content)
}

pub open spec fn some_text(content: Seq<ContentBlockModel>) -> bool {
    exists|i: int| 0 <= i < content.len() && says_something(#[trigger] content[i])
}

pub open spec fn is_core_request(message: MessageModel) -> bool {
    message.role is User && some_text(message.content)
}

impl SessionModel {
    /// Whether the user has said anything in the session.
    pub open spec fn has_request(self) -> bool {
        (exists|i: int|
            0 <= i < self.ui_messages.len() && is_request(#[trigger] self.ui_messages[i])) || (
        exists|i: int|
            0 <= i < self.core_messages.len() && is_core_request(#[trigger] self.core_messages[i]))
    }

    /// A new session.
    pub open spec fn fresh(
        workspace_root: Seq<char>,
        provider: Seq<char>,
        model: Seq<char>,
        reasoning_effort: Seq<char>,
        id: Seq<char>,
        now: Seq<char>,
    ) -> SessionModel {
        SessionModel {
            schema_version: SESSION_SCHEMA_VERSION,
            id,
            title: "Untitled session"@,
            title_generated: false,
            workspace_root,
            created_at: now,
            updated_at: now,
            provider,
            model,
            reasoning_effort,
            plan_mode_enabled: false,
            pending_plan: None,
            ui_messages: Seq::empty(),
            core_messages: Seq::empty(),
        }
    }

    /// The session as it is at `now`: with the title of its messages, unless one was generated.
    pub open spec fn refreshed(self, now: Seq<char>) -> SessionModel {
        SessionModel {
            title: if self.title_generated {
                self.title
            } else {
                title_from(self.ui_messages)
            },
            updated_at: now,
            ..self
        }
    }

    /// Whether a generated title is taken.
    pub open spec fn takes_title(self, title: Seq<char>) -> bool {
        !self.title_generated && cleaned_title(title) is Some
    }

    pub open spec fn with_title(self, title: Seq<char>) -> SessionModel {
        if self.takes_title(title) {
            SessionModel { title: cleaned_title(title)->0, title_generated: true, ..self }
        } else {
            self
        }
    }

    pub open spec fn summarized(self) -> SummaryModel {
        SummaryModel {
            id: self.id,
            title: self.title,
            workspace_root: self.workspace_root,
            updated_at: self.updated_at,
            provider: self.provider,
            model: self.model,
        }
    }

    /// What is wrong with a saved session, if anything. Whether the path of a pending plan is
    /// absolute is for the caller to say.
    pub open spec fn problem(self, plan_is_absolute: bool) -> Option<Seq<char>> {
        if self.schema_version != SESSION_SCHEMA_VERSION {
            Some("Unsupported session schema version "@ + decimal(self.schema_version as nat))
        } else if !parses_as_uuid(self.id) {
            Some("Session contains invalid UUID"@)
        } else if self.pending_plan is Some && (is_blank(self.pending_plan->0)
            || !plan_is_absolute) {
            Some("Session contains invalid pending plan path"@)
        } else {
            None
        }
    }
}

/// A session as it is listed.
#[derive(Debug)]
pub struct SessionSummary {
    pub id: String,
    pub title: String,
    pub workspace_root: String,
    pub updated_at: String,
    pub provider: String,
    pub model: String,
}

#[verifier::ext_equal]
pub struct SummaryModel {
    pub id: Seq<char>,
    pub title: Seq<char>,
    pub workspace_root: Seq<char>,
    pub updated_at: Seq<char>,
    pub provider: Seq<char>,
    pub model: Seq<char>,
}

impl DeepView for SessionSummary {
    type V = SummaryModel;

    open spec fn deep_view(&self) -> SummaryModel {
        SummaryModel {
            id: self.id@,
            title: self.title@,
            workspace_root: self.workspace_root@,
            updated_at: self.updated_at@,
            provider: self.provider@,
            model: self.model@,
        }
    }
}

fn has_text(content: &Vec<ContentBlock>) -> (r: bool)
    ensures
        r == some_text(content.deep_view()),
{
    let mut i: usize = 0;
    while i < content.len()
        invariant
            i <= content.len(),
            forall|j: int| 0 <= j < i ==> !says_something(#[trigger] content.deep_view()[j]),
        decreases content.len() - i,
    {
        assert(content.deep_view()[i as int] == content@[i as int].deep_view());
        if let ContentBlock::Text { text } = &content[i] {
            if !trimmed(text.as_str()).as_str().is_empty() {
                assert(says_something(content.deep_view()[i as int]));
                return true;
            }
        }
        i += 1;
    }
    false
}

impl SavedSession {
    /// A new session, with the id and the time that it is given.
    pub fn new(
        workspace_root: String,
        provider: String,
        model: String,
        reasoning_effort: String,
        id: String,
        now: &str,
    ) -> (r: Self)
        ensures
            r.deep_view() == SessionModel::fresh(
                workspace_root@,
                provider@,
                model@,
                reasoning_effort@,
                id@,
                now@,
            ),
    {
        let r = SavedSession {
            schema_version: SESSION_SCHEMA_VERSION,
            id,
            title: owned("Untitled session"),
            title_generated: false,
            workspace_root,
            created_at: owned(now),
            updated_at: owned(now),
            provider,
            model,
            reasoning_effort,
            plan_mode_enabled: false,
            pending_plan: None,
            ui_messages: Vec::new(),
            core_messages: Vec::new(),
        };
        assert(r.ui_messages.deep_view() =~= Seq::empty());
        assert(r.core_messages.deep_view() =~= Seq::empty());
        r
    }

    pub fn refresh_metadata(&mut self, now: &str)
        ensures
            final(self).deep_view() == old(self).deep_view().refreshed(now@),
    {
        if !self.title_generated {
            self.title = session_title(&self.ui_messages);
        }
        self.updated_at = owned(now);
    }

    /// Takes a generated title, unless the session has one.
    pub fn set_generated_title(&mut self, title: &str) -> (r: bool)
        ensures
            r == old(self).deep_view().takes_title(title@),
            final(self).deep_view() == old(self).deep_view().with_title(title@),
    {
        if self.title_generated {
            return false;
        }
        match clean_title(title) {
            Some(title) => {
                self.title = title;
                self.title_generated = true;
                true
            },
            None => false,
        }
    }

    pub fn has_user_message(&self) -> (r: bool)
        ensures
            r == self.deep_view().has_request(),
    {
        let ghost own = self.deep_view();
        let mut i: usize = 0;
        while i < self.ui_messages.len()
            invariant
                own == self.deep_view(),
                i <= self.ui_messages.len(),
                own.ui_messages.len() == self.ui_messages.len(),
                forall|j: int| 0 <= j < i ==> !is_request(#[trigger] own.ui_messages[j]),
            decreases self.ui_messages.len() - i,
        {
            assert(own.ui_messages[i as int] == self.ui_messages@[i as int].deep_view());
            if same_text(self.ui_messages[i].role.as_str(), "user") && !trimmed(
                self.ui_messages[i].content.as_str(),
            ).as_str().is_empty() {
                assert(is_request(own.ui_messages[i as int]));
                return true;
            }
            i += 1;
        }
        let mut i: usize = 0;
        while i < self.core_messages.len()
            invariant
                own == self.deep_view(),
                i <= self.core_messages.len(),
                own.core_messages.len() == self.core_messages.len(),
                own.ui_messages.len() == self.ui_messages.len(),
                forall|j: int|
                    0 <= j < own.ui_messages.len() ==> !is_request(
                        #[trigger] own.ui_messages[j],
                    ),
                forall|j: int| 0 <= j < i ==> !is_core_request(#[trigger] own.core_messages[j]),
            decreases self.core_messages.len() - i,
        {
            assert(own.core_messages[i as int] == self.core_messages@[i as int].deep_view());
            let from_user = match self.core_messages[i].role {
                Role::User => true,
                _ => false,
            };
            if from_user && has_text(&self.core_messages[i].content) {
                assert(is_core_request(own.core_messages[i as int]));
                return true;
            }
            i += 1;
        }
        false
    }

    /// Makes the session ready to be written, and says whether it is: one in which the user has
    /// said nothing is not.
    pub fn prepare_save(&mut self, now: &str) -> (r: bool)
        ensures
            r == old(self).deep_view().has_request(),
            final(self).deep_view() == (if r {
                old(self).deep_view().refreshed(now@)
            } else {
                old(self).deep_view()
            }),
    {
        if !self.has_user_message() {
            return false;
        }
        self.refresh_metadata(now);
        true
    }

    pub fn summary(&self) -> (r: SessionSummary)
        ensures
            r.deep_view() == self.deep_view().summarized(),
    {
        SessionSummary {
            id: self.id.clone(),
            title: self.title.clone(),
            workspace_root: self.workspace_root.clone(),
            updated_at: self.updated_at.clone(),
            provider: self.provider.clone(),
            model: self.model.clone(),
        }
    }
}

/// Checks a session that was read. Whether the path of its pending plan is absolute is for the
/// caller to say.
pub fn validate_session(session: &SavedSession, plan_is_absolute: bool) -> (r: Result<(), String>)
    ensures
        match r {
            Ok(_) => session.deep_view().problem(plan_is_absolute) is None,
            Err(message) => session.deep_view().problem(plan_is_absolute) == Some(message@),
        },
{
    if session.schema_version != SESSION_SCHEMA_VERSION {
        return Err(
            concat2(
                "Unsupported session schema version ",
                decimal_of(session.schema_version as u64).as_str(),
            ),
        );
    }
    if !is_uuid(session.id.as_str()) {
        return Err(owned("Session contains invalid UUID"));
    }
    if let Some(pending) = &session.pending_plan {
        if trimmed(pending.plan_path.as_str()).as_str().is_empty() || !plan_is_absolute {
            return Err(owned("Session contains invalid pending plan path"));
        }
    }
    Ok(())
}

/// Why a session of this id cannot be looked up, if it cannot.
pub fn check_session_id(id: &str) -> (r: Result<(), String>)
    ensures
        match r {
            Ok(_) => parses_as_uuid(id@),
            Err(message) => !parses_as_uuid(id@) && message@ == "Invalid session id: "@ + id@,
        },
{
    if is_uuid(id) {
        Ok(())
    } else {
        Err(concat2("Invalid session id: ", id))
    }
}

/// Where sessions are kept.
#[derive(Debug)]
pub struct SessionStore {
    root: String,
}

impl View for SessionStore {
    type V = Seq<char>;

    closed spec fn view(&self) -> Seq<char> {
        self.root@
    }
}

impl SessionStore {
    pub fn at(root: String) -> (r: Self)
        ensures
            r@ == root@,
    {
        SessionStore { root }
    }

    pub fn root(&self) -> (r: &str)
        ensures
            r@ == self@,
    {
        self.root.as_str()
    }

    /// The name of the file that holds a session.
    pub fn file_name(id: &str) -> (r: String)
        ensures
            r@ == id@ + ".json"@,
    {
        concat2(id, ".json")
    }

    /// The name of the file that a session is written to before it takes its place.
    pub fn temporary_name(id: &str) -> (r: String)
        ensures
            r@ == "."@ + id@ + ".tmp"@,
    {
        concat3(".", id, ".tmp")
    }
}

/// Whether a text comes before another, character by character.
pub open spec fn before(a: Seq<char>, b: Seq<char>) -> bool
    decreases a.len(),
{
    if b.len() == 0 {
        false
    } else if a.len() == 0 {
        true
    } else if a[0] != b[0] {
        a[0] < b[0]
    } else {
        before(a.drop_first(), b.drop_first())
    }
}

fn comes_before(a: &str, b: &str) -> (r: bool)
    ensures
        r == before(a@, b@),
{
    let left = to_chars(a);
    let right = to_chars(b);
    let mut i: usize = 0;
    assert(left@.skip(0) =~= left@);
    assert(right@.skip(0) =~= right@);
    while i < left.len() && i < right.len()
        invariant
            left@ == a@,
            right@ == b@,
            i <= left.len(),
            i <= right.len(),
            before(a@, b@) == before(left@.skip(i as int), right@.skip(i as int)),
        decreases left.len() - i,
    {
        assert(left@.skip(i as int)[0] == left@[i as int]);
        assert(right@.skip(i as int)[0] == right@[i as int]);
        assert(left@.skip(i as int).drop_first() =~= left@.skip(i + 1));
        assert(right@.skip(i as int).drop_first() =~= right@.skip(i + 1));
        if left[i] != right[i] {
            return left[i] < right[i];
        }
        i += 1;
    }
    i < right.len()
}

proof fn lemma_before_is_an_order(a: Seq<char>, b: Seq<char>, c: Seq<char>)
    ensures
        !before(a, b) && !before(b, c) ==> !before(a, c),
        before(a, b) ==> !before(b, a),
    decreases a.len(),
{
    if a.len() > 0 && b.len() > 0 && c.len() > 0 {
        lemma_before_is_an_order(a.drop_first(), b.drop_first(), c.drop_first());
    } else if a.len() > 0 && b.len() > 0 {
        lemma_before_is_an_order(a.drop_first(), b.drop_first(), c);
    }
}

/// The summaries with one more, behind those that are no older.
pub open spec fn filed(list: Seq<SummaryModel>, next: SummaryModel) -> Seq<SummaryModel>
    decreases list.len(),
{
    if list.len() == 0 || !before(list.last().updated_at, next.updated_at) {
        list.push(next)
    } else {
        filed(list.drop_last(), next).push(list.last())
    }
}

/// Whether a session is listed.
pub open spec fn listed(session: SessionModel, ok: bool, workspace: Option<Seq<char>>) -> bool {
    ok && session.has_request() && (workspace is Some ==> session.workspace_root == workspace->0)
}

/// The summaries of the sessions that are listed, newest first.
pub open spec fn listing(
    sessions: Seq<SessionModel>,
    absolute: Seq<bool>,
    workspace: Option<Seq<char>>,
) -> Seq<SummaryModel>
    decreases sessions.len(),
{
    if sessions.len() == 0 {
        Seq::empty()
    } else {
        let rest = listing(sessions.drop_last(), absolute, workspace);
        let session = sessions.last();
        let ok = session.problem(absolute[sessions.len() - 1]) is None;
        if listed(session, ok, workspace) {
            filed(rest, session.summarized())
        } else {
            rest
        }
    }
}

pub open spec fn limited(list: Seq<SummaryModel>, limit: Option<usize>) -> Seq<SummaryModel> {
    match limit {
        Some(n) => if n < list.len() {
            list.take(n as int)
        } else {
            list
        },
        None => list,
    }
}

fn file_summary(list: &mut Vec<SessionSummary>, next: SessionSummary)
    ensures
        final(list).deep_view() == filed(old(list).deep_view(), next.deep_view()),
{
    let ghost all = list.deep_view();
    let ghost new = next.deep_view();
    let mut at: usize = list.len();
    assert(all.take(at as int) =~= all);
    assert(all.skip(at as int) =~= Seq::empty());
    assert(filed(all, new) =~= filed(all.take(at as int), new) + all.skip(at as int));
    while at > 0 && comes_before(list[at - 1].updated_at.as_str(), next.updated_at.as_str())
        invariant
            list.deep_view() == all,
            all.len() == list.len(),
            new == next.deep_view(),
            at <= list.len(),
            filed(all, new) == filed(all.take(at as int), new) + all.skip(at as int),
        decreases at,
    {
        assert(all[at - 1] == list@[at - 1].deep_view());
        assert(all.take(at as int).drop_last() =~= all.take(at - 1));
        assert(filed(all.take(at - 1), new) + all.skip(at - 1) =~= filed(
            all.take(at - 1),
            new,
        ).push(all[at - 1]) + all.skip(at as int));
        at -= 1;
    }
    if at > 0 {
        assert(all[at - 1] == list@[at - 1].deep_view());
    }
    list.insert(at, next);
    assert(list.deep_view() =~= all.take(at as int).push(new) + all.skip(at as int));
}

/// Lists the sessions that were read: those that are sound, hold a request and belong to the
/// workspace, newest first. `absolute` says of each whether the path of its pending plan is
/// absolute.
pub fn list_sessions(
    sessions: &Vec<SavedSession>,
    absolute: &Vec<bool>,
    workspace: Option<&str>,
    limit: Option<usize>,
) -> (r: Vec<SessionSummary>)
    requires
        absolute@.len() == sessions@.len(),
    ensures
        r.deep_view() == limited(
            listing(
                sessions.deep_view(),
                absolute@,
                match workspace {
                    Some(root) => Some(root@),
                    None => None,
                },
            ),
            limit,
        ),
{
    let ghost all = sessions.deep_view();
    let ghost root = match workspace {
        Some(root) => Some(root@),
        None => None,
    };
    let mut list: Vec<SessionSummary> = Vec::new();
    let mut i: usize = 0;
    assert(all.take(0) =~= Seq::empty());
    assert(list.deep_view() =~= Seq::empty());
    while i < sessions.len()
        invariant
            all == sessions.deep_view(),
            absolute@.len() == sessions@.len(),
            root == (match workspace {
                Some(root) => Some(root@),
                None => None,
            }),
            i <= sessions.len(),
            list.deep_view() == listing(all.take(i as int), absolute@, root),
        decreases sessions.len() - i,
    {
        assert(all.take(i + 1).drop_last() =~= all.take(i as int));
        assert(all[i as int] == sessions@[i as int].deep_view());
        let session = &sessions[i];
        let here = match workspace {
            Some(root) => same_text(session.workspace_root.as_str(), root),
            None => true,
        };
        if validate_session(session, absolute[i]).is_ok() && session.has_user_message() && here {
            file_summary(&mut list, session.summary());
        }
        i += 1;
    }
    assert(all.take(i as int) =~= all);
    if let Some(n) = limit {
        if n < list.len() {
            let ghost before = list.deep_view();
            list.truncate(n);
            assert(list.deep_view() =~= before.take(n as int));
        }
    }
    list
}

/// The id of the newest of the listed sessions, or why there is none.
pub fn latest_session(list: &Vec<SessionSummary>, workspace: &str) -> (r: Result<String, String>)
    ensures
        match r {
            Ok(id) => list@.len() > 0 && id@ == list@[0].id@,
            Err(message) => list@.len() == 0 && message@ == "No sessions found for workspace "@
                + workspace@,
        },
{
    if list.len() == 0 {
        Err(concat2("No sessions found for workspace ", workspace))
    } else {
        Ok(list[0].id.clone())
    }
}

pub open spec fn newest_first(list: Seq<SummaryModel>) -> bool {
    forall|i: int, j: int|
        0 <= i < j < list.len() ==> !before(
            (#[trigger] list[i]).updated_at,
            (#[trigger] list[j]).updated_at,
        )
}

pub proof fn lemma_filed(list: Seq<SummaryModel>, next: SummaryModel)
    requires
        newest_first(list),
    ensures
        newest_first(filed(list, next)),
        filed(list, next).len() == list.len() + 1,
        forall|i: int|
            0 <= i < filed(list, next).len() ==> (#[trigger] filed(list, next)[i]) == next
                || list.contains(filed(list, next)[i]),
    decreases list.len(),
{
    let all = filed(list, next);
    if list.len() == 0 || !before(list.last().updated_at, next.updated_at) {
        assert forall|i: int| 0 <= i < all.len() implies (#[trigger] all[i]) == next
            || list.contains(all[i]) by {
            if i < list.len() {
                assert(list[i] == all[i]);
            }
        }
        assert forall|i: int, j: int| 0 <= i < j < all.len() implies !before(
            (#[trigger] all[i]).updated_at,
            (#[trigger] all[j]).updated_at,
        ) by {
            assert(all[i] == list[i]);
            if j < list.len() {
                assert(all[j] == list[j]);
            } else if i < list.len() - 1 {
                assert(!before(list[i].updated_at, list[list.len() - 1].updated_at));
                lemma_before_is_an_order(
                    list[i].updated_at,
                    list.last().updated_at,
                    next.updated_at,
                );
            }
        }
    } else {
        let front = list.drop_last();
        let last = list.last();
        assert forall|i: int, j: int| 0 <= i < j < front.len() implies !before(
            (#[trigger] front[i]).updated_at,
            (#[trigger] front[j]).updated_at,
        ) by {
            assert(front[i] == list[i] && front[j] == list[j]);
        }
        lemma_filed(front, next);
        let inner = filed(front, next);
        assert forall|i: int| 0 <= i < all.len() implies (#[trigger] all[i]) == next
            || list.contains(all[i]) by {
            if i < inner.len() {
                assert(all[i] == inner[i]);
                if inner[i] != next {
                    let k = choose|k: int| 0 <= k < front.len() && front[k] == inner[i];
                    assert(list[k] == all[i]);
                }
            } else {
                assert(list[list.len() - 1] == all[i]);
            }
        }
        assert forall|i: int, j: int| 0 <= i < j < all.len() implies !before(
            (#[trigger] all[i]).updated_at,
            (#[trigger] all[j]).updated_at,
        ) by {
            assert(all[i] == inner[i]);
            if j < inner.len() {
                assert(all[j] == inner[j]);
            } else {
                assert(all[j] == last);
                if inner[i] == next {
                    lemma_before_is_an_order(last.updated_at, next.updated_at, last.updated_at);
                } else {
                    let k = choose|k: int| 0 <= k < front.len() && front[k] == inner[i];
                    assert(list[k] == inner[i]);
                    assert(!before(list[k].updated_at, list[list.len() - 1].updated_at));
                }
            }
        }
    }
}

/// Whether a summary is that of a sound session of the workspace that holds a request.
pub open spec fn comes_from(
    sessions: Seq<SessionModel>,
    absolute: Seq<bool>,
    workspace: Option<Seq<char>>,
    summary: SummaryModel,
) -> bool {
    exists|k: int|
        0 <= k < sessions.len() && (#[trigger] sessions[k]).summarized() == summary
            && sessions[k].problem(absolute[k]) is None && listed(sessions[k], true, workspace)
}

/// Sessions are listed newest first, and only sound sessions of the workspace in which the
/// user has said something.
pub proof fn law_listings_are_ordered_and_filtered(
    sessions: Seq<SessionModel>,
    absolute: Seq<bool>,
    workspace: Option<Seq<char>>,
)
    requires
        absolute.len() >= sessions.len(),
    ensures
        newest_first(listing(sessions, absolute, workspace)),
        forall|i: int|
            0 <= i < listing(sessions, absolute, workspace).len() ==> comes_from(
                sessions,
                absolute,
                workspace,
                #[trigger] listing(sessions, absolute, workspace)[i],
            ),
    decreases sessions.len(),
{
    if sessions.len() > 0 {
        let front = sessions.drop_last();
        law_listings_are_ordered_and_filtered(front, absolute, workspace);
        let rest = listing(front, absolute, workspace);
        let session = sessions.last();
        let all = listing(sessions, absolute, workspace);
        let ok = session.problem(absolute[sessions.len() - 1]) is None;
        if listed(session, ok, workspace) {
            lemma_filed(rest, session.summarized());
        }
        assert forall|i: int| 0 <= i < all.len() implies comes_from(
            sessions,
            absolute,
            workspace,
            #[trigger] all[i],
        ) by {
            if listed(session, ok, workspace) && all[i] == session.summarized() {
                assert(sessions[sessions.len() - 1] == session);
            } else {
                assert(rest.contains(all[i]));
                let m = choose|m: int| 0 <= m < rest.len() && rest[m] == all[i];
                assert(comes_from(front, absolute, workspace, rest[m]));
                let k = choose|k: int|
                    0 <= k < front.len() && (#[trigger] front[k]).summarized() == rest[m]
                        && front[k].problem(absolute[k]) is None && listed(
                        front[k],
                        true,
                        workspace,
                    );
                assert(sessions[k] == front[k]);
            }
        }
    }
}

/// A generated title is kept: a second one is refused, and refreshing leaves it.
pub proof fn law_generated_titles_are_kept(
    session: SessionModel,
    title: Seq<char>,
    second: Seq<char>,
    now: Seq<char>,
)
    requires
        session.takes_title(title),
    ensures
        ({
            let titled = session.with_title(title);
            &&& !titled.takes_title(second)
            &&& titled.with_title(second) == titled
            &&& titled.refreshed(now).title == cleaned_title(title)->0
            &&& titled.refreshed(now).title.len() <= TITLE_MAX_CHARS
        }),
{
    let bare = trim(unwrapped(one_line(title)));
    crate::words::law_shortened_texts_fit(bare, TITLE_MAX_CHARS as nat);
    reveal_strlit("...");
}

} // verus!
