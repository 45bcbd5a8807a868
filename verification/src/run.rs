//! A single prompt from start to end, outside the terminal client.
use crate::event::{AgentCommand, AgentEvent, CommandModel, EventModel};
use crate::json::{json_text, render_json};
use crate::listing::{pad, padded};
use crate::session::{chat, one_line, ChatMessage, SavedSession, SessionModel};
use crate::text::{
    concat2, concat3, has_prefix, join, joined, owned, same_text, starts_with, to_chars, trim,
    trimmed,
};
use crate::types::{
    clone_messages, text_message, ApprovalScope, EvaluationModel, FileChangePreview, Message,
    MessageModel, PermissionEvaluation, PreviewModel, Role, Usage,
};
use crate::ui::status::{
    activity, call_shows, event_shows, issue, lemma_can_be_shown, start_shows, tool_activity,
    tool_issue_status, truncate_single_line,
};
use crate::ui::usage::{usage_summary, TurnUsage};
use crate::words::{
    ascii_lowercase, lines, lowercase, shorten, shortened, split_lines, to_ascii_lowercase,
    to_lowercase,
};
use serde_json::Value;
use vstd::prelude::*;

verus! {

/// What is asked on the terminal.
#[derive(Debug, Clone, Copy, PartialEq, Eq, Structural)]
pub enum Question {
    Permission,
    Preview,
    SubagentPermission,
    SubagentPreview,
}

/// What is to be done after an event.
#[derive(Debug)]
pub enum RunStep {
    /// Nothing.
    Wait,
    /// A text goes to the output.
    Print { text: String },
    /// Lines go to the terminal.
    Note { lines: Vec<String> },
    /// Lines and a prompt go to the terminal, and a line is read from it.
    Ask { question: Question, request_id: String, lines: Vec<String>, prompt: &'static str },
    /// The session is written.
    Save,
    /// The run ends: the output is ended with a line feed where it lacks one, and lines go to the
    /// terminal.
    End { line_feed: bool, lines: Vec<String> },
}

#[verifier::ext_equal]
pub enum RunStepModel {
    Wait,
    Print { text: Seq<char> },
    Note { lines: Seq<Seq<char>> },
    Ask {
        question: Question,
        request_id: Seq<char>,
        lines: Seq<Seq<char>>,
        prompt: Seq<char>,
    },
    Save,
    End { line_feed: bool, lines: Seq<Seq<char>> },
}

impl DeepView for RunStep {
    type V = RunStepModel;

    open spec fn deep_view(&self) -> RunStepModel {
        match *self {
            RunStep::Wait => RunStepModel::Wait,
            RunStep::Print { text } => RunStepModel::Print { text: text@ },
            RunStep::Note { lines } => RunStepModel::Note { lines: lines.deep_view() },
            RunStep::Ask { question, request_id, lines, prompt } => RunStepModel::Ask {
                question,
                request_id: request_id@,
                lines: lines.deep_view(),
                prompt: prompt@,
            },
            RunStep::Save => RunStepModel::Save,
            RunStep::End { line_feed, lines } => RunStepModel::End {
                line_feed,
                lines: lines.deep_view(),
            },
        }
    }
}

/// What a line that was read means.
#[derive(Debug)]
pub struct Reply {
    pub command: AgentCommand,
    pub note: Option<&'static str>,
    pub quit: bool,
}

/// A run: what was asked, what came of it so far, and the session that keeps it.
#[derive(Debug)]
pub struct OneShot {
    pub prompt_text: String,
    pub session: SavedSession,
    pub final_output: String,
    pub latest_core_messages: Vec<Message>,
    pub last_usage: Option<TurnUsage>,
    pub agent_error: Option<String>,
    pub quit_requested: bool,
}

pub struct OneShotModel {
    pub prompt_text: Seq<char>,
    pub session: SessionModel,
    pub final_output: Seq<char>,
    pub latest_core_messages: Seq<MessageModel>,
    pub last_usage: Option<TurnUsage>,
    pub agent_error: Option<Seq<char>>,
    pub quit_requested: bool,
}

impl View for OneShot {
    type V = OneShotModel;

    open spec fn view(&self) -> OneShotModel {
        OneShotModel {
            prompt_text: self.prompt_text@,
            session: self.session.deep_view(),
            final_output: self.final_output@,
            latest_core_messages: self.latest_core_messages.deep_view(),
            last_usage: self.last_usage,
            agent_error: self.agent_error.deep_view(),
            quit_requested: self.quit_requested,
        }
    }
}

fn one_note(line: String) -> (r: RunStep)
    ensures
        r.deep_view() == (RunStepModel::Note { lines: seq![line@] }),
{
    let mut lines: Vec<String> = Vec::new();
    lines.push(line);
    assert(lines.deep_view() =~= seq![line@]);
    RunStep::Note { lines }
}

fn apart_note(line: String) -> (r: RunStep)
    ensures
        r.deep_view() == (RunStepModel::Note { lines: seq![Seq::empty(), line@] }),
{
    let mut lines: Vec<String> = Vec::new();
    let empty = String::new();
    assert(empty@ =~= Seq::empty());
    lines.push(empty);
    lines.push(line);
    assert(lines.deep_view() =~= seq![Seq::empty(), line@]);
    RunStep::Note { lines }
}

/// The colour of a line of a diff on the terminal.
pub open spec fn line_color(line: Seq<char>) -> Seq<char> {
    if starts_with(line, "@@"@) {
        "\u{1b}[1;36m"@
    } else if starts_with(line, "+"@) {
        "\u{1b}[32m"@
    } else if starts_with(line, "-"@) {
        "\u{1b}[31m"@
    } else {
        "\u{1b}[90m"@
    }
}

fn color_of(line: &str) -> (r: &'static str)
    ensures
        r@ == line_color(line@),
{
    if has_prefix(line, "@@") {
        "\u{1b}[1;36m"
    } else if has_prefix(line, "+") {
        "\u{1b}[32m"
    } else if has_prefix(line, "-") {
        "\u{1b}[31m"
    } else {
        "\u{1b}[90m"
    }
}

/// The lines of a diff that are shown, in colour, and whether a hunk has begun.
pub open spec fn colored_so_far(all: Seq<Seq<char>>) -> (Seq<Seq<char>>, bool)
    decreases all.len(),
{
    if all.len() == 0 {
        (Seq::empty(), false)
    } else {
        let (shown, in_hunk) = colored_so_far(all.drop_last());
        let line = all.last();
        if starts_with(line, "diff --git "@) {
            (shown, false)
        } else if !in_hunk && (starts_with(line, "--- "@) || starts_with(line, "+++ "@)) {
            (shown, in_hunk)
        } else {
            (
                shown.push(line_color(line) + line + "\u{1b}[0m"@),
                in_hunk || starts_with(line, "@@"@),
            )
        }
    }
}

/// A change of a file as it is shown on the terminal.
pub open spec fn colored_diff(preview: PreviewModel) -> Seq<Seq<char>> {
    seq![
        Seq::empty(),
        (if preview.before_exists {
            "Update"@
        } else {
            "Create"@
        }) + ": "@ + preview.path,
    ] + colored_so_far(lines(preview.unified_diff)).0
}

fn print_colored_diff(preview: &FileChangePreview) -> (r: Vec<String>)
    ensures
        r.deep_view() == colored_diff(preview.deep_view()),
{
    let operation = if preview.before_exists {
        "Update"
    } else {
        "Create"
    };
    let mut shown: Vec<String> = Vec::new();
    let empty = String::new();
    assert(empty@ =~= Seq::empty());
    shown.push(empty);
    shown.push(concat3(operation, ": ", preview.path.as_str()));
    let ghost head = shown.deep_view();
    assert(head =~= colored_diff(preview.deep_view()).take(2));
    let diff = split_lines(preview.unified_diff.as_str());
    let ghost all = diff.deep_view();
    let mut in_hunk = false;
    let mut i: usize = 0;
    assert(all.take(0) =~= Seq::empty());
    assert(head + Seq::<Seq<char>>::empty() =~= head);
    while i < diff.len()
        invariant
            all == diff.deep_view(),
            i <= diff.len(),
            shown.deep_view() == head + colored_so_far(all.take(i as int)).0,
            in_hunk == colored_so_far(all.take(i as int)).1,
        decreases diff.len() - i,
    {
        assert(all.take(i + 1).drop_last() =~= all.take(i as int));
        assert(all[i as int] == diff@[i as int]@);
        let line = diff[i].as_str();
        if has_prefix(line, "diff --git ") {
            in_hunk = false;
        } else if !in_hunk && (has_prefix(line, "--- ") || has_prefix(line, "+++ ")) {
        } else {
            if has_prefix(line, "@@") {
                in_hunk = true;
            }
            let ghost before = shown.deep_view();
            let colored = concat3(color_of(line), line, "\u{1b}[0m");
            shown.push(colored);
            assert(shown.deep_view() =~= before.push(colored@));
            assert(shown.deep_view() =~= head + colored_so_far(all.take(i + 1)).0);
        }
        i += 1;
    }
    assert(all.take(i as int) =~= all);
    assert(shown.deep_view() =~= colored_diff(preview.deep_view()));
    shown
}

/// A row of the box that asks for permission.
pub open spec fn box_row(label: Seq<char>, text: Seq<char>, width: nat) -> Seq<char> {
    "║  "@ + label + padded(text, width) + "║"@
}

/// The box that asks for permission.
pub open spec fn permission_box(
    tool_name: Seq<char>,
    input: Value,
    evaluation: EvaluationModel,
) -> Seq<Seq<char>> {
    seq![
        Seq::empty(),
        "╔══════════════════════════════════════════╗"@,
        "║  Permission Required                     ║"@,
        "╠══════════════════════════════════════════╣"@,
        box_row("Tool: "@, tool_name, 34),
        box_row("Risk: "@, evaluation.risk, 34),
        box_row("Sandbox: "@, evaluation.sandbox_policy, 31),
        box_row("Args: "@, shortened(json_text(input), 34), 34),
        "╠══════════════════════════════════════════╣"@,
        "║  [y] once  [s] session  [a] always       ║"@,
        "║  [n] deny  [q] quit                      ║"@,
        "╚══════════════════════════════════════════╝"@,
    ]
}

fn row(label: &str, text: &str, width: usize) -> (r: String)
    ensures
        r@ == box_row(label@, text@, width as nat),
{
    let head = concat3("║  ", label, pad(text, width).as_str());
    concat2(head.as_str(), "║")
}

fn draw_permission_box(tool_name: &str, input: &Value, evaluation: &PermissionEvaluation) -> (r:
    Vec<String>)
    ensures
        r.deep_view() == permission_box(tool_name@, *input, evaluation.deep_view()),
{
    let args = shorten(render_json(input).as_str(), 34);
    let mut rows: Vec<String> = Vec::new();
    let empty = String::new();
    assert(empty@ =~= Seq::empty());
    rows.push(empty);
    rows.push(owned("╔══════════════════════════════════════════╗"));
    rows.push(owned("║  Permission Required                     ║"));
    rows.push(owned("╠══════════════════════════════════════════╣"));
    rows.push(row("Tool: ", tool_name, 34));
    rows.push(row("Risk: ", evaluation.risk.as_str(), 34));
    rows.push(row("Sandbox: ", evaluation.sandbox_policy.as_str(), 31));
    rows.push(row("Args: ", args.as_str(), 34));
    rows.push(owned("╠══════════════════════════════════════════╣"));
    rows.push(owned("║  [y] once  [s] session  [a] always       ║"));
    rows.push(owned("║  [n] deny  [q] quit                      ║"));
    rows.push(owned("╚══════════════════════════════════════════╝"));
    assert(rows.deep_view() =~= permission_box(tool_name@, *input, evaluation.deep_view()));
    rows
}

/// Whether a tool call is reported by the events of the subagents instead.
pub open spec fn delegates(name: Seq<char>) -> bool {
    name == "agent"@ || name == "spawn_agent"@ || name == "wait_agents"@ || name
        == "cancel_agents"@
}

fn is_delegation(name: &str) -> (r: bool)
    ensures
        r == delegates(name@),
{
    same_text(name, "agent") || same_text(name, "spawn_agent") || same_text(name, "wait_agents")
        || same_text(name, "cancel_agents")
}

impl OneShotModel {
    pub open spec fn with_usage(self, usage: Usage) -> OneShotModel {
        let counts = TurnUsage::from_counts(usage);
        if counts.reported() {
            OneShotModel {
                last_usage: Some(
                    match self.last_usage {
                        Some(total) => total.plus(counts),
                        None => counts,
                    },
                ),
                ..self
            }
        } else {
            self
        }
    }

    /// What is said at the end of the run.
    pub open spec fn closing(self) -> RunStepModel {
        let finished = "(agent finished)"@;
        RunStepModel::End {
            line_feed: self.final_output.len() > 0 && self.final_output.last() != '\n',
            lines: match self.last_usage {
                Some(usage) => seq!["("@ + usage.described("usage: in/out "@) + ")"@, finished],
                None => seq![finished],
            },
        }
    }

    /// The session is written, if the user has said anything in it.
    pub open spec fn saving(self, now: Seq<char>) -> (OneShotModel, RunStepModel) {
        if self.session.has_request() {
            (
                OneShotModel { session: self.session.refreshed(now), ..self },
                RunStepModel::Save,
            )
        } else {
            (self, RunStepModel::Wait)
        }
    }

    /// What an event of a subagent does to the run, and what is to be done then, by the path of its
    /// tool call as it is shown.
    pub open spec fn on_subagent_event(self, event: EventModel, shown: Seq<char>) -> (
        OneShotModel,
        RunStepModel,
    ) {
        match event {
            EventModel::ToolCallStarted { name, input, .. } => (
                self,
                RunStepModel::Note {
                    lines: seq![
                        "  • Subagent "@ + activity(name, input, shown).0 + ": "@ + activity(
                            name,
                            input,
                            shown,
                        ).1,
                    ],
                },
            ),
            EventModel::ToolCallFailed { name, error, .. } => (
                self,
                RunStepModel::Note { lines: seq!["  Subagent "@ + issue(name, error)] },
            ),
            EventModel::AgentError { message } => (
                self,
                RunStepModel::Note { lines: seq!["  Subagent issue: "@ + message] },
            ),
            EventModel::TurnComplete(usage) => (self.with_usage(usage), RunStepModel::Wait),
            EventModel::PermissionNeeded { request_id, tool_name, input, evaluation } => (
                self,
                RunStepModel::Ask {
                    question: Question::SubagentPermission,
                    request_id,
                    lines: seq![
                        Seq::empty(),
                        "Subagent permission required: "@ + tool_name + " ("@ + evaluation.risk
                            + ", "@ + json_text(input) + ")"@,
                    ],
                    prompt: "Allow once? [y/N] "@,
                },
            ),
            EventModel::FileChangePreviewNeeded { request_id, preview, .. } => (
                self,
                RunStepModel::Ask {
                    question: Question::SubagentPreview,
                    request_id,
                    lines: colored_diff(preview),
                    prompt: "Apply changes? [y/N] "@,
                },
            ),
            _ => (self, RunStepModel::Wait),
        }
    }

    /// What an event of the agent does to the run, and what is to be done then, by the path of its
    /// tool call as it is shown.
    #[verifier::opaque]
    pub open spec fn on_event(self, event: EventModel, now: Seq<char>, shown: Seq<char>) -> (
        OneShotModel,
        RunStepModel,
    ) {
        match event {
            EventModel::TextDelta(text) => (
                OneShotModel { final_output: self.final_output + text, ..self },
                RunStepModel::Print { text },
            ),
            EventModel::ToolCallStarted { name, input, .. } => if delegates(name) {
                (self, RunStepModel::Wait)
            } else {
                (
                    self,
                    RunStepModel::Note {
                        lines: seq![
                            Seq::empty(),
                            "• "@ + activity(name, input, shown).0 + ": "@ + activity(
                                name,
                                input,
                                shown,
                            ).1,
                        ],
                    },
                )
            },
            EventModel::ToolCallFailed { name, error, .. } => (
                self,
                RunStepModel::Note { lines: seq!["  "@ + issue(name, error)] },
            ),
            EventModel::PermissionNeeded { request_id, tool_name, input, evaluation } => (
                self,
                RunStepModel::Ask {
                    question: Question::Permission,
                    request_id,
                    lines: permission_box(tool_name, input, evaluation),
                    prompt: "> "@,
                },
            ),
            EventModel::FileChangePreviewNeeded { request_id, preview, .. } => (
                self,
                RunStepModel::Ask {
                    question: Question::Preview,
                    request_id,
                    lines: colored_diff(preview),
                    prompt: "Apply changes? [y/N] "@,
                },
            ),
            EventModel::AgentFinished { .. } => (self, self.closing()),
            EventModel::TurnComplete(usage) => (self.with_usage(usage), RunStepModel::Wait),
            EventModel::SessionUpdated { messages } => OneShotModel {
                latest_core_messages: messages,
                session: SessionModel { core_messages: messages, ..self.session },
                ..self
            }.saving(now),
            EventModel::SessionTitleGenerated { title } => if self.session.takes_title(title) {
                OneShotModel { session: self.session.with_title(title), ..self }.saving(now)
            } else {
                (self, RunStepModel::Wait)
            },
            EventModel::AgentError { message } => (
                OneShotModel { agent_error: Some(message), ..self },
                RunStepModel::End {
                    line_feed: false,
                    lines: seq![Seq::empty(), "Error: "@ + message],
                },
            ),
            EventModel::SubagentStarted { task, .. } => (
                self,
                RunStepModel::Note {
                    lines: seq![
                        Seq::empty(),
                        "• Delegated: "@ + shortened(one_line(task), 96),
                    ],
                },
            ),
            EventModel::SubagentEvent { event, .. } => self.on_subagent_event(*event, shown),
            _ => (self, RunStepModel::Wait),
        }
    }

    /// The run with its prompt handed to the agent.
    pub open spec fn begun(prompt: Seq<char>, session: SessionModel) -> OneShotModel {
        OneShotModel {
            prompt_text: prompt,
            session: SessionModel {
                ui_messages: seq![chat("user"@, prompt)],
                core_messages: seq![text_message(Role::User, prompt)],
                ..session
            },
            final_output: Seq::empty(),
            latest_core_messages: Seq::empty(),
            last_usage: None,
            agent_error: None,
            quit_requested: false,
        }
    }

    /// The run at its end, and whether its session is written.
    pub open spec fn concluded(self, now: Seq<char>) -> (OneShotModel, bool) {
        if self.quit_requested || self.latest_core_messages.len() == 0 {
            (self, false)
        } else {
            let session = SessionModel {
                ui_messages: seq![
                    chat("user"@, self.prompt_text),
                    chat("assistant"@, self.final_output),
                ],
                core_messages: self.latest_core_messages,
                ..self.session
            };
            if session.has_request() {
                (OneShotModel { session: session.refreshed(now), ..self }, true)
            } else {
                (OneShotModel { session, ..self }, false)
            }
        }
    }
}

/// What an answer to a request for permission says: whether, for how long, and whether to quit.
pub open spec fn permission_answer(word: Seq<char>) -> (bool, ApprovalScope, bool) {
    if word == "y"@ || word == "yes"@ {
        (true, ApprovalScope::Once, false)
    } else if word == "s"@ || word == "session"@ {
        (true, ApprovalScope::Session, false)
    } else if word == "a"@ || word == "always"@ {
        (true, ApprovalScope::Persistent, false)
    } else if word == "q"@ || word == "quit"@ {
        (false, ApprovalScope::Once, true)
    } else {
        (false, ApprovalScope::Once, false)
    }
}

/// What a word in lower case says to a request for permission.
pub fn read_permission_answer(word: &str) -> (r: (bool, ApprovalScope, bool))
    ensures
        r == permission_answer(word@),
{
    if same_text(word, "y") || same_text(word, "yes") {
        (true, ApprovalScope::Once, false)
    } else if same_text(word, "s") || same_text(word, "session") {
        (true, ApprovalScope::Session, false)
    } else if same_text(word, "a") || same_text(word, "always") {
        (true, ApprovalScope::Persistent, false)
    } else if same_text(word, "q") || same_text(word, "quit") {
        (false, ApprovalScope::Once, true)
    } else {
        (false, ApprovalScope::Once, false)
    }
}

/// Whether a word approves of a change.
pub open spec fn approves_change(word: Seq<char>) -> bool {
    word == "y"@ || word == "yes"@ || word == "a"@ || word == "apply"@
}

/// Whether a word in lower case approves of a change.
pub fn read_preview_answer(word: &str) -> (r: bool)
    ensures
        r == approves_change(word@),
{
    same_text(word, "y") || same_text(word, "yes") || same_text(word, "a") || same_text(
        word,
        "apply",
    )
}

/// What a line that was read says; no line says no.
pub open spec fn answered(question: Question, line: Option<Seq<char>>) -> (
    bool,
    ApprovalScope,
    bool,
) {
    match (question, line) {
        (_, None) => (false, ApprovalScope::Once, false),
        (Question::Permission, Some(line)) => permission_answer(lowercase(trim(line))),
        (Question::SubagentPermission, Some(line)) => {
            let word = ascii_lowercase(trim(line));
            (word == "y"@ || word == "yes"@, ApprovalScope::Once, false)
        },
        (_, Some(line)) => (approves_change(lowercase(trim(line))), ApprovalScope::Once, false),
    }
}

/// The command that tells the agent of an answer.
pub open spec fn answer_command(
    question: Question,
    request_id: Seq<char>,
    approved: bool,
    scope: ApprovalScope,
) -> CommandModel {
    match question {
        Question::Permission => CommandModel::PermissionResponse { request_id, approved, scope },
        Question::SubagentPermission => CommandModel::PermissionResponse {
            request_id,
            approved,
            scope,
        },
        _ => CommandModel::FileChangePreviewResponse { request_id, approved },
    }
}

/// What is said on the terminal of an answer.
pub open spec fn answer_note(question: Question, approved: bool) -> Option<Seq<char>> {
    if approved {
        None
    } else {
        match question {
            Question::Permission => Some("Permission denied."@),
            Question::Preview => Some("Change rejected."@),
            _ => None,
        }
    }
}

impl OneShot {
    /// Begins a run, whose prompt has been handed to the agent.
    pub fn new(prompt: &Vec<String>, session: SavedSession) -> (r: Self)
        ensures
            r@ == OneShotModel::begun(join(prompt.deep_view(), " "@), session.deep_view()),
    {
        let prompt_text = joined(prompt, " ");
        let mut session = session;
        let mut ui_messages: Vec<ChatMessage> = Vec::new();
        ui_messages.push(ChatMessage::of("user", prompt_text.as_str()));
        let mut core_messages: Vec<Message> = Vec::new();
        core_messages.push(Message::of_text(Role::User, prompt_text.as_str()));
        session.ui_messages = ui_messages;
        session.core_messages = core_messages;
        let r = OneShot {
            prompt_text,
            session,
            final_output: String::new(),
            latest_core_messages: Vec::new(),
            last_usage: None,
            agent_error: None,
            quit_requested: false,
        };
        assert(r.session.ui_messages.deep_view() =~= seq![chat("user"@, r.prompt_text@)]);
        assert(r.session.core_messages.deep_view() =~= seq![
            text_message(Role::User, r.prompt_text@),
        ]);
        assert(r.final_output@ =~= Seq::empty());
        assert(r.latest_core_messages.deep_view() =~= Seq::empty());
        r
    }

    fn add_usage(&mut self, usage: Usage)
        ensures
            final(self)@ == old(self)@.with_usage(usage),
    {
        let counts = TurnUsage::of(usage);
        if counts.has_reported_tokens() {
            let total = match self.last_usage {
                Some(total) => {
                    let mut total = total;
                    total.add_assign(&counts);
                    total
                },
                None => counts,
            };
            self.last_usage = Some(total);
        }
    }

    /// Makes the session ready to be written, where there is anything to write.
    pub fn save(&mut self, now: &str) -> (r: RunStep)
        ensures
            (final(self)@, r.deep_view()) == old(self)@.saving(now@),
    {
        if self.session.prepare_save(now) {
            RunStep::Save
        } else {
            RunStep::Wait
        }
    }

    fn close(&self) -> (r: RunStep)
        ensures
            r.deep_view() == self@.closing(),
    {
        let chars = to_chars(self.final_output.as_str());
        let line_feed = chars.len() > 0 && chars[chars.len() - 1] != '\n';
        let mut notes: Vec<String> = Vec::new();
        match &self.last_usage {
            Some(usage) => {
                notes.push(concat3("(", usage_summary(usage).as_str(), ")"));
            },
            None => {},
        }
        notes.push(owned("(agent finished)"));
        assert(notes.deep_view() =~= self@.closing()->End_lines);
        RunStep::End { line_feed, lines: notes }
    }

    fn take_subagent_event(&mut self, event: &AgentEvent) -> (r: RunStep)
        ensures
            exists|shown: Seq<char>|
                start_shows(event.deep_view(), shown) && (final(self)@, r.deep_view())
                    == #[trigger] old(self)@.on_subagent_event(event.deep_view(), shown),
    {
        let ghost mut shown: Seq<char> = Seq::empty();
        let step = match event {
            AgentEvent::ToolCallStarted { name, input, .. } => {
                let (group, detail) = tool_activity(name.as_str(), input);
                proof {
                    shown = choose|shown: Seq<char>|
                        call_shows(name@, *input, shown) && (group@, detail@)
                            == #[trigger] activity(name@, *input, shown);
                }
                let head = concat3("  • Subagent ", group, ": ");
                one_note(concat2(head.as_str(), detail.as_str()))
            },
            AgentEvent::ToolCallFailed { name, error, .. } => {
                let text = tool_issue_status(name.as_str(), error.as_str());
                one_note(concat2("  Subagent ", text.as_str()))
            },
            AgentEvent::AgentError { message } => one_note(
                concat2("  Subagent issue: ", message.as_str()),
            ),
            AgentEvent::TurnComplete(usage) => {
                self.add_usage(*usage);
                RunStep::Wait
            },
            AgentEvent::PermissionNeeded { request_id, tool_name, input, evaluation } => {
                let text = concat3("Subagent permission required: ", tool_name.as_str(), " (");
                let text = concat3(text.as_str(), evaluation.risk.as_str(), ", ");
                let text = concat3(text.as_str(), render_json(input).as_str(), ")");
                let mut notes: Vec<String> = Vec::new();
                let empty = String::new();
                assert(empty@ =~= Seq::empty());
                notes.push(empty);
                notes.push(text);
                assert(notes.deep_view() =~= seq![Seq::empty(), text@]);
                RunStep::Ask {
                    question: Question::SubagentPermission,
                    request_id: request_id.clone(),
                    lines: notes,
                    prompt: "Allow once? [y/N] ",
                }
            },
            AgentEvent::FileChangePreviewNeeded { request_id, preview, .. } => RunStep::Ask {
                question: Question::SubagentPreview,
                request_id: request_id.clone(),
                lines: print_colored_diff(preview),
                prompt: "Apply changes? [y/N] ",
            },
            _ => RunStep::Wait,
        };
        assert((self@, step.deep_view()) == old(self)@.on_subagent_event(
            event.deep_view(),
            shown,
        ));
        step
    }

    /// Takes an event of the agent.
    #[verifier::spinoff_prover]
    pub fn take_event(&mut self, event: AgentEvent, now: &str) -> (r: RunStep)
        ensures
            exists|shown: Seq<char>|
                event_shows(event.deep_view(), shown) && (final(self)@, r.deep_view())
                    == #[trigger] old(self)@.on_event(event.deep_view(), now@, shown),
    {
        reveal(OneShotModel::on_event);
        let ghost mut shown: Seq<char> = Seq::empty();
        let step = match event {
            AgentEvent::TextDelta(text) => {
                self.final_output.append(text.as_str());
                RunStep::Print { text }
            },
            AgentEvent::ToolCallStarted { name, input, .. } => {
                if is_delegation(name.as_str()) {
                    proof {
                        shown = lemma_can_be_shown(name@, input);
                    }
                    RunStep::Wait
                } else {
                    let (group, detail) = tool_activity(name.as_str(), &input);
                    proof {
                        shown = choose|shown: Seq<char>|
                            call_shows(name@, input, shown) && (group@, detail@)
                                == #[trigger] activity(name@, input, shown);
                    }
                    let head = concat3("• ", group, ": ");
                    apart_note(concat2(head.as_str(), detail.as_str()))
                }
            },
            AgentEvent::ToolCallFailed { name, error, .. } => {
                let text = tool_issue_status(name.as_str(), error.as_str());
                one_note(concat2("  ", text.as_str()))
            },
            AgentEvent::PermissionNeeded { request_id, tool_name, input, evaluation } =>
                RunStep::Ask {
                question: Question::Permission,
                request_id,
                lines: draw_permission_box(tool_name.as_str(), &input, &evaluation),
                prompt: "> ",
            },
            AgentEvent::FileChangePreviewNeeded { request_id, preview, .. } => RunStep::Ask {
                question: Question::Preview,
                request_id,
                lines: print_colored_diff(&preview),
                prompt: "Apply changes? [y/N] ",
            },
            AgentEvent::AgentFinished { .. } => self.close(),
            AgentEvent::TurnComplete(usage) => {
                self.add_usage(usage);
                RunStep::Wait
            },
            AgentEvent::SessionUpdated { messages } => {
                self.latest_core_messages = clone_messages(&messages);
                self.session.core_messages = messages;
                self.save(now)
            },
            AgentEvent::SessionTitleGenerated { title } => {
                if self.session.set_generated_title(title.as_str()) {
                    self.save(now)
                } else {
                    RunStep::Wait
                }
            },
            AgentEvent::AgentError { message } => {
                let mut notes: Vec<String> = Vec::new();
                let empty = String::new();
                assert(empty@ =~= Seq::empty());
                notes.push(empty);
                notes.push(concat2("Error: ", message.as_str()));
                assert(notes.deep_view() =~= seq![Seq::empty(), "Error: "@ + message@]);
                self.agent_error = Some(message);
                RunStep::End { line_feed: false, lines: notes }
            },
            AgentEvent::SubagentStarted { task, .. } => {
                let line = truncate_single_line(task.as_str(), 96);
                apart_note(concat2("• Delegated: ", line.as_str()))
            },
            AgentEvent::SubagentEvent { event, .. } => {
                let ghost before = self@;
                let step = self.take_subagent_event(&*event);
                proof {
                    shown = choose|shown: Seq<char>|
                        start_shows(event.deep_view(), shown) && (self@, step.deep_view())
                            == #[trigger] before.on_subagent_event(event.deep_view(), shown);
                }
                step
            },
            _ => RunStep::Wait,
        };
        assert((self@, step.deep_view()) == old(self)@.on_event(event.deep_view(), now@, shown));
        step
    }

    /// Takes the line that was read in answer to a question; `None` where none could be read.
    pub fn take_answer(
        &mut self,
        question: Question,
        request_id: String,
        line: Option<&str>,
    ) -> (r: Reply)
        ensures
            ({
                let (approved, scope, quit) = answered(
                    question,
                    match line {
                        Some(line) => Some(line@),
                        None => None,
                    },
                );
                &&& r.command.deep_view() == answer_command(
                    question,
                    request_id@,
                    approved,
                    scope,
                )
                &&& match r.note {
                    Some(note) => answer_note(question, approved) == Some(note@),
                    None => answer_note(question, approved) is None,
                }
                &&& r.quit == quit
                &&& final(self)@ == (OneShotModel {
                    quit_requested: old(self)@.quit_requested || quit,
                    ..old(self)@
                })
            }),
    {
        let (approved, scope, quit) = match line {
            None => (false, ApprovalScope::Once, false),
            Some(line) => {
                let bare = trimmed(line);
                match question {
                    Question::Permission => read_permission_answer(
                        to_lowercase(bare.as_str()).as_str(),
                    ),
                    Question::SubagentPermission => {
                        let word = to_ascii_lowercase(bare.as_str());
                        (
                            same_text(word.as_str(), "y") || same_text(word.as_str(), "yes"),
                            ApprovalScope::Once,
                            false,
                        )
                    },
                    _ => (
                        read_preview_answer(to_lowercase(bare.as_str()).as_str()),
                        ApprovalScope::Once,
                        false,
                    ),
                }
            },
        };
        if quit {
            self.quit_requested = true;
        }
        let command = match question {
            Question::Permission => AgentCommand::PermissionResponse {
                request_id,
                approved,
                scope,
            },
            Question::SubagentPermission => AgentCommand::PermissionResponse {
                request_id,
                approved,
                scope,
            },
            _ => AgentCommand::FileChangePreviewResponse { request_id, approved },
        };
        let note = if approved {
            None
        } else {
            match question {
                Question::Permission => Some("Permission denied."),
                Question::Preview => Some("Change rejected."),
                _ => None,
            }
        };
        Reply { command, note, quit }
    }

    /// Ends the run, and says whether its session is to be written.
    pub fn conclude(&mut self, now: &str) -> (r: bool)
        ensures
            (final(self)@, r) == old(self)@.concluded(now@),
    {
        if self.quit_requested || self.latest_core_messages.len() == 0 {
            return false;
        }
        let mut ui_messages: Vec<ChatMessage> = Vec::new();
        ui_messages.push(ChatMessage::of("user", self.prompt_text.as_str()));
        ui_messages.push(ChatMessage::of("assistant", self.final_output.as_str()));
        assert(ui_messages.deep_view() =~= seq![
            chat("user"@, self.prompt_text@),
            chat("assistant"@, self.final_output@),
        ]);
        self.session.ui_messages = ui_messages;
        self.session.core_messages = clone_messages(&self.latest_core_messages);
        self.session.prepare_save(now)
    }
}

/// The output is what the agent said, in the order in which it said it.
pub proof fn law_output_is_what_was_said(
    run: OneShotModel,
    event: EventModel,
    now: Seq<char>,
    shown: Seq<char>,
)
    ensures
        run.on_event(event, now, shown).0.final_output == run.final_output + (match event {
            EventModel::TextDelta(text) => text,
            _ => Seq::empty(),
        }),
        run.on_event(event, now, shown).0.prompt_text == run.prompt_text,
{
    reveal(OneShotModel::on_event);
    assert(run.final_output + Seq::<char>::empty() =~= run.final_output);
}

/// A run ends with the agent's work or with its error, and with nothing else.
pub proof fn law_runs_end_with_the_agent(
    run: OneShotModel,
    event: EventModel,
    now: Seq<char>,
    shown: Seq<char>,
)
    ensures
        run.on_event(event, now, shown).1 is End <==> event is AgentFinished || event is AgentError,
        run.on_event(event, now, shown).0.agent_error is Some <==> run.agent_error is Some
            || event is AgentError,
{
    reveal(OneShotModel::on_event);
}

/// Silence is no consent.
pub proof fn law_no_answer_is_a_no(question: Question)
    ensures
        !answered(question, None).0,
{
}

/// What is kept of a finished run is the prompt and the whole output.
pub proof fn law_finished_runs_are_kept(run: OneShotModel, now: Seq<char>)
    requires
        run.concluded(now).1,
    ensures
        run.concluded(now).0.session.ui_messages == seq![
            chat("user"@, run.prompt_text),
            chat("assistant"@, run.final_output),
        ],
        run.concluded(now).0.session.core_messages == run.latest_core_messages,
{
}

} // verus!
