//! The state of the terminal client, and the steps in which it works with the world outside.
use super::banner::{HeaderModel, StartupHeader};
use super::editor::{EditorModel, InputEditor};
use super::status::{
    FilePreviewModel, PendingFilePreview, PendingPermission, PendingPlanApproval, PermissionModel,
    PlanApprovalModel,
};
use super::usage::TurnUsage;
use super::viewport::ViewportState;
use crate::event::{AgentCommand, CommandModel};
use crate::session::{
    chat, copy_chat, ChatMessage, ChatModel, SavedSession, SessionModel, SessionSummary,
    SummaryModel,
};
use crate::text::{concat2, concat3, decimal, decimal_of, owned};
use crate::types::{clone_messages, Message, MessageModel, ModelProfile, ProfileModel};
use crate::words::char_count;
use vstd::prelude::*;

verus! {

/// A moment: on a clock in nanoseconds that does not run backwards, and as a timestamp, with the
/// id that a session which begins then gets.
#[derive(Debug)]
pub struct Moment {
    pub ticks: u64,
    pub stamp: String,
    pub session_id: String,
}

pub struct MomentModel {
    pub ticks: u64,
    pub stamp: Seq<char>,
    pub session_id: Seq<char>,
}

impl DeepView for Moment {
    type V = MomentModel;

    open spec fn deep_view(&self) -> MomentModel {
        MomentModel { ticks: self.ticks, stamp: self.stamp@, session_id: self.session_id@ }
    }
}

/// What is to be done when the client has ended.
#[derive(Debug)]
pub enum TuiAction {
    Exit,
    Resume(String),
}

#[verifier::ext_equal]
pub enum ActionModel {
    Exit,
    Resume(Seq<char>),
}

impl DeepView for TuiAction {
    type V = ActionModel;

    open spec fn deep_view(&self) -> ActionModel {
        match *self {
            TuiAction::Exit => ActionModel::Exit,
            TuiAction::Resume(id) => ActionModel::Resume(id@),
        }
    }
}

/// The list of sessions that one is picked from.
#[derive(Debug)]
pub struct PendingSessionPicker {
    pub sessions: Vec<SessionSummary>,
    pub selected: usize,
    pub show_all: bool,
}

#[verifier::ext_equal]
pub struct PickerModel {
    pub sessions: Seq<SummaryModel>,
    pub selected: usize,
    pub show_all: bool,
}

impl DeepView for PendingSessionPicker {
    type V = PickerModel;

    open spec fn deep_view(&self) -> PickerModel {
        PickerModel {
            sessions: self.sessions.deep_view(),
            selected: self.selected,
            show_all: self.show_all,
        }
    }
}

impl PickerModel {
    /// The session that is selected, if there is one.
    pub open spec fn picked(self) -> Option<SummaryModel> {
        if self.selected < self.sessions.len() {
            Some(self.sessions[self.selected as int])
        } else {
            None
        }
    }
}

impl PendingSessionPicker {
    pub fn selected_session(&self) -> (r: Option<&SessionSummary>)
        ensures
            match r {
                Some(session) => self.deep_view().picked() == Some(session.deep_view()),
                None => self.deep_view().picked() is None,
            },
    {
        if self.selected < self.sessions.len() {
            assert(self.sessions.deep_view()[self.selected as int]
                == self.sessions@[self.selected as int].deep_view());
            Some(&self.sessions[self.selected])
        } else {
            None
        }
    }
}

/// A request for approval that waits until the one before it is answered.
#[derive(Debug)]
pub enum DeferredApproval {
    Permission(PendingPermission),
    FilePreview(PendingFilePreview),
}

#[verifier::ext_equal]
pub enum DeferredModel {
    Permission(PermissionModel),
    FilePreview(FilePreviewModel),
}

impl DeepView for DeferredApproval {
    type V = DeferredModel;

    open spec fn deep_view(&self) -> DeferredModel {
        match *self {
            DeferredApproval::Permission(permission) => DeferredModel::Permission(
                permission.deep_view(),
            ),
            DeferredApproval::FilePreview(preview) => DeferredModel::FilePreview(
                preview.deep_view(),
            ),
        }
    }
}

/// The state of the client.
#[derive(Debug)]
pub struct AppState {
    pub startup_header: Option<StartupHeader>,
    pub editor: InputEditor,
    pub viewport: ViewportState,
    pub messages: Vec<ChatMessage>,
    pub core_messages: Vec<Message>,
    pub streaming_text: String,
    pub reasoning_text: String,
    pub reasoning_started_at: Option<u64>,
    pub reasoning_expanded: bool,
    pub status: String,
    pub running: bool,
    pub plan_mode_enabled: bool,
    pub available_models: Vec<ModelProfile>,
    pub has_model_catalog: bool,
    pub current_model: Option<String>,
    pub reasoning_effort: Option<String>,
    pub has_session_store: bool,
    pub session: Option<SavedSession>,
    pub pending_sessions: Option<PendingSessionPicker>,
    pub exit_action: TuiAction,
    pub pending_plan: Option<PendingPlanApproval>,
    pub pending_permission: Option<PendingPermission>,
    pub pending_file_preview: Option<PendingFilePreview>,
    pub deferred_approvals: Vec<DeferredApproval>,
    pub working_since: Option<u64>,
    pub interrupt_requested: bool,
    pub last_usage: Option<TurnUsage>,
}

pub struct AppModel {
    pub startup_header: Option<HeaderModel>,
    pub editor: EditorModel,
    pub viewport: ViewportState,
    pub messages: Seq<ChatModel>,
    pub core_messages: Seq<MessageModel>,
    pub streaming_text: Seq<char>,
    pub reasoning_text: Seq<char>,
    pub reasoning_started_at: Option<u64>,
    pub reasoning_expanded: bool,
    pub status: Seq<char>,
    pub running: bool,
    pub plan_mode_enabled: bool,
    pub available_models: Seq<ProfileModel>,
    pub has_model_catalog: bool,
    pub current_model: Option<Seq<char>>,
    pub reasoning_effort: Option<Seq<char>>,
    pub has_session_store: bool,
    pub session: Option<SessionModel>,
    pub pending_sessions: Option<PickerModel>,
    pub exit_action: ActionModel,
    pub pending_plan: Option<PlanApprovalModel>,
    pub pending_permission: Option<PermissionModel>,
    pub pending_file_preview: Option<FilePreviewModel>,
    pub deferred_approvals: Seq<DeferredModel>,
    pub working_since: Option<u64>,
    pub interrupt_requested: bool,
    pub last_usage: Option<TurnUsage>,
}

impl View for AppState {
    type V = AppModel;

    open spec fn view(&self) -> AppModel {
        AppModel {
            startup_header: self.startup_header.deep_view(),
            editor: self.editor@,
            viewport: self.viewport,
            messages: self.messages.deep_view(),
            core_messages: self.core_messages.deep_view(),
            streaming_text: self.streaming_text@,
            reasoning_text: self.reasoning_text@,
            reasoning_started_at: self.reasoning_started_at,
            reasoning_expanded: self.reasoning_expanded,
            status: self.status@,
            running: self.running,
            plan_mode_enabled: self.plan_mode_enabled,
            available_models: self.available_models.deep_view(),
            has_model_catalog: self.has_model_catalog,
            current_model: self.current_model.deep_view(),
            reasoning_effort: self.reasoning_effort.deep_view(),
            has_session_store: self.has_session_store,
            session: self.session.deep_view(),
            pending_sessions: self.pending_sessions.deep_view(),
            exit_action: self.exit_action.deep_view(),
            pending_plan: self.pending_plan.deep_view(),
            pending_permission: self.pending_permission.deep_view(),
            pending_file_preview: self.pending_file_preview.deep_view(),
            deferred_approvals: self.deferred_approvals.deep_view(),
            working_since: self.working_since,
            interrupt_requested: self.interrupt_requested,
            last_usage: self.last_usage,
        }
    }
}

/// What was being done when the session was saved.
#[derive(Debug, Clone, Copy, PartialEq, Eq, Structural)]
pub enum SaveReason {
    Event,
    Message,
    Model,
    Effort,
    Title,
}

impl SaveReason {
    /// What is said where the save failed, before the error.
    pub open spec fn complaint(self) -> Seq<char> {
        match self {
            SaveReason::Event => "Could not save session: "@,
            SaveReason::Message => "Message sent, but session save failed: "@,
            SaveReason::Model => "Model switched, but session save failed: "@,
            SaveReason::Effort => "Effort changed, but session save failed: "@,
            SaveReason::Title => "Could not save session title: "@,
        }
    }

    fn words(self) -> (r: &'static str)
        ensures
            r@ == self.complaint(),
    {
        match self {
            SaveReason::Event => "Could not save session: ",
            SaveReason::Message => "Message sent, but session save failed: ",
            SaveReason::Model => "Model switched, but session save failed: ",
            SaveReason::Effort => "Effort changed, but session save failed: ",
            SaveReason::Title => "Could not save session title: ",
        }
    }
}

/// What follows when a command was handed to the agent.
#[derive(Debug)]
pub enum AfterSend {
    /// Nothing more.
    Report,
    /// The next approval that waits is asked for.
    Approval,
    /// The mode stays changed.
    Mode { previous: bool },
    /// The session is saved.
    Message,
    /// The conversation was cleared.
    Clear,
    /// The permissions are awaited.
    Permissions,
    /// The model is changed.
    Model { name: String },
    /// The reasoning effort is changed.
    Effort { effort: String },
}

#[verifier::ext_equal]
pub enum AfterSendModel {
    Report,
    Approval,
    Mode { previous: bool },
    Message,
    Clear,
    Permissions,
    Model { name: Seq<char> },
    Effort { effort: Seq<char> },
}

impl DeepView for AfterSend {
    type V = AfterSendModel;

    open spec fn deep_view(&self) -> AfterSendModel {
        match *self {
            AfterSend::Report => AfterSendModel::Report,
            AfterSend::Approval => AfterSendModel::Approval,
            AfterSend::Mode { previous } => AfterSendModel::Mode { previous },
            AfterSend::Message => AfterSendModel::Message,
            AfterSend::Clear => AfterSendModel::Clear,
            AfterSend::Permissions => AfterSendModel::Permissions,
            AfterSend::Model { name } => AfterSendModel::Model { name: name@ },
            AfterSend::Effort { effort } => AfterSendModel::Effort { effort: effort@ },
        }
    }
}

/// What follows when the session was saved.
#[derive(Debug)]
pub enum AfterSave {
    /// Nothing more.
    Report { reason: SaveReason },
    /// Another session is taken up; where the save failed, the list is shown again.
    Resume { id: String, picker: Option<PendingSessionPicker> },
    /// A new session begins, with the effort of the last one unless another was chosen.
    Clear { effort: String },
}

#[verifier::ext_equal]
pub enum AfterSaveModel {
    Report { reason: SaveReason },
    Resume { id: Seq<char>, picker: Option<PickerModel> },
    Clear { effort: Seq<char> },
}

impl DeepView for AfterSave {
    type V = AfterSaveModel;

    open spec fn deep_view(&self) -> AfterSaveModel {
        match *self {
            AfterSave::Report { reason } => AfterSaveModel::Report { reason },
            AfterSave::Resume { id, picker } => AfterSaveModel::Resume {
                id: id@,
                picker: picker.deep_view(),
            },
            AfterSave::Clear { effort } => AfterSaveModel::Clear { effort: effort@ },
        }
    }
}

/// What follows when the saved sessions were listed.
#[derive(Debug)]
pub enum AfterList {
    /// The list that is shown changes.
    Toggle { picker: PendingSessionPicker },
    /// The list is shown.
    Open,
}

#[verifier::ext_equal]
pub enum AfterListModel {
    Toggle { picker: PickerModel },
    Open,
}

impl DeepView for AfterList {
    type V = AfterListModel;

    open spec fn deep_view(&self) -> AfterListModel {
        match *self {
            AfterList::Toggle { picker } => AfterListModel::Toggle { picker: picker.deep_view() },
            AfterList::Open => AfterListModel::Open,
        }
    }
}

/// What has to be done outside before the client can go on.
#[derive(Debug)]
#[allow(inconsistent_fields)]
pub enum Step {
    /// Nothing; the client goes on or ends.
    Done { go_on: bool },
    /// A command is handed to the agent.
    Send { command: AgentCommand, next: AfterSend },
    /// The session is written.
    Save { next: AfterSave },
    /// The saved sessions are listed, those of one workspace or all.
    List { workspace: Option<String>, next: AfterList },
    /// A saved session is read.
    Load { id: String },
    /// The models of the provider are fetched.
    RefreshModels,
}

#[verifier::ext_equal]
#[allow(inconsistent_fields)]
pub enum StepModel {
    Done { go_on: bool },
    Send { command: CommandModel, next: AfterSendModel },
    Save { next: AfterSaveModel },
    List { workspace: Option<Seq<char>>, next: AfterListModel },
    Load { id: Seq<char> },
    RefreshModels,
}

impl DeepView for Step {
    type V = StepModel;

    open spec fn deep_view(&self) -> StepModel {
        match *self {
            Step::Done { go_on } => StepModel::Done { go_on },
            Step::Send { command, next } => StepModel::Send {
                command: command.deep_view(),
                next: next.deep_view(),
            },
            Step::Save { next } => StepModel::Save { next: next.deep_view() },
            Step::List { workspace, next } => StepModel::List {
                workspace: workspace.deep_view(),
                next: next.deep_view(),
            },
            Step::Load { id } => StepModel::Load { id: id@ },
            Step::RefreshModels => StepModel::RefreshModels,
        }
    }
}

pub open spec fn going_on() -> StepModel {
    StepModel::Done { go_on: true }
}

pub open spec fn ending() -> StepModel {
    StepModel::Done { go_on: false }
}

/// The whole seconds between two readings of a clock, at least one.
pub open spec fn seconds_spent(started: u64, now: u64) -> nat {
    let seconds = seconds_between(started, now);
    if seconds == 0 {
        1
    } else {
        seconds
    }
}

pub open spec fn seconds_between(started: u64, now: u64) -> nat {
    if now < started {
        0
    } else {
        ((now - started) / 1_000_000_000) as nat
    }
}

fn elapsed_seconds(started: u64, now: u64) -> (r: u64)
    ensures
        r == seconds_between(started, now),
{
    if now < started {
        0
    } else {
        (now - started) / 1_000_000_000
    }
}

impl AppModel {
    pub open spec fn initial() -> AppModel {
        AppModel {
            startup_header: None,
            editor: EditorModel::empty(),
            viewport: ViewportState::initial(),
            messages: Seq::empty(),
            core_messages: Seq::empty(),
            streaming_text: Seq::empty(),
            reasoning_text: Seq::empty(),
            reasoning_started_at: None,
            reasoning_expanded: false,
            status: "Ready. Type /exit to quit, Ctrl+C to cancel."@,
            running: true,
            plan_mode_enabled: false,
            available_models: Seq::empty(),
            has_model_catalog: false,
            current_model: None,
            reasoning_effort: None,
            has_session_store: false,
            session: None,
            pending_sessions: None,
            exit_action: ActionModel::Exit,
            pending_plan: None,
            pending_permission: None,
            pending_file_preview: None,
            deferred_approvals: Seq::empty(),
            working_since: None,
            interrupt_requested: false,
            last_usage: None,
        }
    }

    pub open spec fn saying(self, status: Seq<char>) -> AppModel {
        AppModel { status, ..self }
    }

    pub open spec fn showing(self, message: ChatModel) -> AppModel {
        AppModel { messages: self.messages.push(message), ..self }
    }

    /// Whether a turn runs or an answer is awaited.
    pub open spec fn busy(self) -> bool {
        self.working_since is Some || self.pending_plan is Some || self.pending_permission is Some
            || self.pending_file_preview is Some
    }

    /// The state with the reasoning so far put into the transcript.
    pub open spec fn reasoned(self, now: u64) -> AppModel {
        match self.reasoning_started_at {
            Some(started) => if self.reasoning_text.len() == 0 {
                AppModel { reasoning_started_at: None, reasoning_text: Seq::empty(), ..self }
            } else {
                AppModel {
                    reasoning_started_at: None,
                    reasoning_text: Seq::empty(),
                    messages: self.messages.push(
                        chat(
                            "reasoning:"@ + decimal(seconds_spent(started, now)),
                            self.reasoning_text,
                        ),
                    ),
                    ..self
                }
            },
            None => self,
        }
    }

    /// The state with the answer so far put into the transcript.
    pub open spec fn flushed(self) -> AppModel {
        if self.streaming_text.len() == 0 {
            AppModel { streaming_text: Seq::empty(), ..self }
        } else {
            AppModel {
                streaming_text: Seq::empty(),
                messages: self.messages.push(chat("assistant"@, self.streaming_text)),
                ..self
            }
        }
    }

    /// The state with all that was streamed put into the transcript.
    pub open spec fn settled(self, now: u64) -> AppModel {
        self.reasoned(now).flushed()
    }

    /// Whether the session can be saved at all.
    pub open spec fn keeps_session(self) -> bool {
        self.has_session_store && self.session is Some
    }

    /// The state with the session brought up to date.
    pub open spec fn synced(self) -> AppModel {
        if self.keeps_session() {
            let session = self.session->0;
            AppModel {
                session: Some(
                    SessionModel {
                        ui_messages: self.messages,
                        core_messages: self.core_messages,
                        model: match self.current_model {
                            Some(model) => model,
                            None => session.model,
                        },
                        reasoning_effort: match self.reasoning_effort {
                            Some(effort) => effort,
                            None => "off"@,
                        },
                        ..session
                    },
                ),
                ..self
            }
        } else {
            self
        }
    }

    /// The session is written as it stands, if the user has said anything in it.
    pub open spec fn committed(self, next: AfterSaveModel, at: MomentModel) -> (AppModel, StepModel) {
        if self.keeps_session() && (self.session->0).has_request() {
            (
                AppModel { session: Some((self.session->0).refreshed(at.stamp)), ..self },
                StepModel::Save { next },
            )
        } else {
            self.after_saving(next, None, at)
        }
    }

    /// The session is brought up to date and written.
    pub open spec fn persisted(self, next: AfterSaveModel, at: MomentModel) -> (AppModel, StepModel) {
        self.synced().committed(next, at)
    }

    pub open spec fn persisted_for(self, reason: SaveReason, at: MomentModel) -> (
        AppModel,
        StepModel,
    ) {
        self.persisted(AfterSaveModel::Report { reason }, at)
    }

    /// The state with a new session and nothing in its transcript.
    pub open spec fn renewed(self, last_effort: Seq<char>, at: MomentModel) -> AppModel {
        let previous = self.session->0;
        AppModel {
            messages: Seq::empty(),
            core_messages: Seq::empty(),
            streaming_text: Seq::empty(),
            last_usage: None,
            session: Some(
                SessionModel::fresh(
                    previous.workspace_root,
                    previous.provider,
                    match self.current_model {
                        Some(model) => model,
                        None => previous.model,
                    },
                    match self.reasoning_effort {
                        Some(effort) => effort,
                        None => last_effort,
                    },
                    at.session_id,
                    at.stamp,
                ),
            ),
            ..self
        }
    }

    /// What follows a save, given its error if it failed.
    pub open spec fn after_saving(
        self,
        next: AfterSaveModel,
        error: Option<Seq<char>>,
        at: MomentModel,
    ) -> (AppModel, StepModel) {
        match next {
            AfterSaveModel::Report { reason } => match error {
                Some(error) => (self.saying(reason.complaint() + error), going_on()),
                None => (self, going_on()),
            },
            AfterSaveModel::Resume { id, picker } => match error {
                Some(error) => (
                    AppModel {
                        status: "Could not save current session: "@ + error,
                        pending_sessions: picker,
                        ..self
                    },
                    going_on(),
                ),
                None => (
                    AppModel { exit_action: ActionModel::Resume(id), running: false, ..self },
                    ending(),
                ),
            },
            AfterSaveModel::Clear { effort } => match error {
                Some(error) => (
                    self.saying("Could not save current session: "@ + error),
                    going_on(),
                ),
                None => if self.session is Some {
                    (
                        self.renewed(effort, at),
                        StepModel::Send {
                            command: CommandModel::ClearSession,
                            next: AfterSendModel::Clear,
                        },
                    )
                } else {
                    (self, going_on())
                },
            },
        }
    }
}

fn lift(text: &Option<String>) -> (r: Option<String>)
    ensures
        r.deep_view() == text.deep_view(),
{
    match text {
        Some(text) => Some(text.clone()),
        None => None,
    }
}

impl AppState {
    pub fn new() -> (r: Self)
        ensures
            r@ == AppModel::initial(),
            r@.editor.wf(),
    {
        let r = AppState {
            startup_header: None,
            editor: InputEditor::new(),
            viewport: ViewportState::new(),
            messages: Vec::new(),
            core_messages: Vec::new(),
            streaming_text: String::new(),
            reasoning_text: String::new(),
            reasoning_started_at: None,
            reasoning_expanded: false,
            status: owned("Ready. Type /exit to quit, Ctrl+C to cancel."),
            running: true,
            plan_mode_enabled: false,
            available_models: Vec::new(),
            has_model_catalog: false,
            current_model: None,
            reasoning_effort: None,
            has_session_store: false,
            session: None,
            pending_sessions: None,
            exit_action: TuiAction::Exit,
            pending_plan: None,
            pending_permission: None,
            pending_file_preview: None,
            deferred_approvals: Vec::new(),
            working_since: None,
            interrupt_requested: false,
            last_usage: None,
        };
        assert(r.messages.deep_view() =~= Seq::empty());
        assert(r.core_messages.deep_view() =~= Seq::empty());
        assert(r.available_models.deep_view() =~= Seq::empty());
        assert(r.deferred_approvals.deep_view() =~= Seq::empty());
        assert(r.streaming_text@ =~= Seq::empty());
        assert(r.reasoning_text@ =~= Seq::empty());
        r
    }

    pub fn with_messages(messages: Vec<ChatMessage>) -> (r: Self)
        ensures
            r@ == (AppModel { messages: messages.deep_view(), ..AppModel::initial() }),
            r@.editor.wf(),
    {
        let mut state = AppState::new();
        state.messages = messages;
        state
    }

    pub fn with_session(messages: Vec<ChatMessage>, core_messages: Vec<Message>) -> (r: Self)
        ensures
            r@ == (AppModel {
                messages: messages.deep_view(),
                core_messages: core_messages.deep_view(),
                ..AppModel::initial()
            }),
            r@.editor.wf(),
    {
        let mut state = AppState::with_messages(messages);
        state.core_messages = core_messages;
        state
    }

    pub fn say(&mut self, status: &str)
        ensures
            final(self)@ == old(self)@.saying(status@),
            final(self).editor == old(self).editor,
    {
        self.status = owned(status);
    }

    pub fn show(&mut self, role: &str, content: &str)
        ensures
            final(self)@ == old(self)@.showing(chat(role@, content@)),
            final(self).editor == old(self).editor,
    {
        let ghost before = self.messages.deep_view();
        self.messages.push(ChatMessage::of(role, content));
        assert(self.messages.deep_view() =~= before.push(chat(role@, content@)));
    }

    /// Says what came of copying a selection.
    pub fn report_copy(&mut self, text: &str, copied: Result<(), String>)
        ensures
            final(self)@ == old(self)@.saying(
                match copied {
                    Ok(_) => "Copied selection ("@ + decimal(text@.len()) + " chars)."@,
                    Err(error) => "Could not copy selection: "@ + error@,
                },
            ),
            final(self).editor == old(self).editor,
    {
        self.status = match copied {
            Ok(_) => concat3(
                "Copied selection (",
                decimal_of(char_count(text) as u64).as_str(),
                " chars).",
            ),
            Err(error) => concat2("Could not copy selection: ", error.as_str()),
        };
    }

    pub fn is_busy(&self) -> (r: bool)
        ensures
            r == self@.busy(),
    {
        self.working_since.is_some() || self.pending_plan.is_some()
            || self.pending_permission.is_some() || self.pending_file_preview.is_some()
    }

    /// For how long the reasoning has been going on.
    pub fn reasoning_elapsed_secs(&self, now: u64) -> (r: Option<u64>)
        ensures
            match r {
                Some(seconds) => self@.reasoning_started_at matches Some(started) && seconds
                    == seconds_between(started, now),
                None => self@.reasoning_started_at is None,
            },
    {
        match self.reasoning_started_at {
            Some(started) => Some(elapsed_seconds(started, now)),
            None => None,
        }
    }

    pub fn finish_reasoning(&mut self, now: u64)
        ensures
            final(self)@ == old(self)@.reasoned(now),
            final(self).editor == old(self).editor,
    {
        let started: u64 = match self.reasoning_started_at {
            Some(started) => started,
            None => {
                return;
            },
        };
        self.reasoning_started_at = None;
        let text = self.reasoning_text.clone();
        self.reasoning_text = String::new();
        assert(self.reasoning_text@ =~= Seq::empty());
        if text.as_str().is_empty() {
            return;
        }
        let seconds: u64 = elapsed_seconds(started, now);
        let seconds: u64 = if seconds == 0 {
            1
        } else {
            seconds
        };
        let role = concat2("reasoning:", decimal_of(seconds).as_str());
        self.show(role.as_str(), text.as_str());
    }

    pub fn flush_streaming_text(&mut self)
        ensures
            final(self)@ == old(self)@.flushed(),
            final(self).editor == old(self).editor,
    {
        let text = self.streaming_text.clone();
        self.streaming_text = String::new();
        assert(self.streaming_text@ =~= Seq::empty());
        if !text.as_str().is_empty() {
            self.show("assistant", text.as_str());
        }
    }

    pub fn settle(&mut self, now: u64)
        ensures
            final(self)@ == old(self)@.settled(now),
            final(self).editor == old(self).editor,
    {
        self.finish_reasoning(now);
        self.flush_streaming_text();
    }

    fn sync_session(&mut self)
        ensures
            final(self)@ == old(self)@.synced(),
            final(self).editor == old(self).editor,
    {
        if self.has_session_store {
            match self.session.take() {
                Some(session) => {
                    let mut session = session;
                    session.ui_messages = copy_chat(&self.messages);
                    session.core_messages = clone_messages(&self.core_messages);
                    match &self.current_model {
                        Some(model) => {
                            session.model = model.clone();
                        },
                        None => {},
                    }
                    session.reasoning_effort = match &self.reasoning_effort {
                        Some(effort) => effort.clone(),
                        None => owned("off"),
                    };
                    self.session = Some(session);
                },
                None => {},
            }
        }
    }

    /// Writes the session as it stands, where there is anything to write.
    pub fn save_committed_session(&mut self, next: AfterSave, at: &Moment) -> (r: Step)
        ensures
            (final(self)@, r.deep_view()) == old(self)@.committed(
                next.deep_view(),
                at.deep_view(),
            ),
            final(self).editor == old(self).editor,
    {
        if self.has_session_store {
            match self.session.take() {
                Some(session) => {
                    let mut session = session;
                    if session.has_user_message() {
                        session.refresh_metadata(at.stamp.as_str());
                        self.session = Some(session);
                        return Step::Save { next };
                    }
                    self.session = Some(session);
                },
                None => {},
            }
        }
        assert(self@ == old(self)@);
        self.after_save(next, Ok(()), at)
    }

    /// Brings the session up to date and writes it.
    pub fn persist_session(&mut self, next: AfterSave, at: &Moment) -> (r: Step)
        ensures
            (final(self)@, r.deep_view()) == old(self)@.persisted(
                next.deep_view(),
                at.deep_view(),
            ),
            final(self).editor == old(self).editor,
    {
        self.sync_session();
        self.save_committed_session(next, at)
    }

    /// Goes on when the session was written, or could not be.
    pub fn after_save(&mut self, next: AfterSave, saved: Result<(), String>, at: &Moment) -> (r:
        Step)
        ensures
            (final(self)@, r.deep_view()) == old(self)@.after_saving(
                next.deep_view(),
                match saved {
                    Ok(_) => None,
                    Err(error) => Some(error@),
                },
                at.deep_view(),
            ),
            final(self).editor == old(self).editor,
    {
        match next {
            AfterSave::Report { reason } => {
                match saved {
                    Ok(_) => {},
                    Err(error) => {
                        self.status = concat2(reason.words(), error.as_str());
                    },
                }
                Step::Done { go_on: true }
            },
            AfterSave::Resume { id, picker } => match saved {
                Ok(_) => {
                    self.exit_action = TuiAction::Resume(id);
                    self.running = false;
                    Step::Done { go_on: false }
                },
                Err(error) => {
                    self.status = concat2("Could not save current session: ", error.as_str());
                    self.pending_sessions = picker;
                    Step::Done { go_on: true }
                },
            },
            AfterSave::Clear { effort } => match saved {
                Ok(_) => self.renew_session(effort, at),
                Err(error) => {
                    self.status = concat2("Could not save current session: ", error.as_str());
                    Step::Done { go_on: true }
                },
            },
        }
    }

    fn renew_session(&mut self, last_effort: String, at: &Moment) -> (r: Step)
        ensures
            (final(self)@, r.deep_view()) == old(self)@.after_saving(
                AfterSaveModel::Clear { effort: last_effort@ },
                None,
                at.deep_view(),
            ),
            final(self).editor == old(self).editor,
    {
        match self.session.take() {
            Some(previous) => {
                let model = match lift(&self.current_model) {
                    Some(model) => model,
                    None => previous.model,
                };
                let effort = match lift(&self.reasoning_effort) {
                    Some(effort) => effort,
                    None => last_effort,
                };
                let next = SavedSession::new(
                    previous.workspace_root,
                    previous.provider,
                    model,
                    effort,
                    at.session_id.clone(),
                    at.stamp.as_str(),
                );
                self.messages = Vec::new();
                self.core_messages = Vec::new();
                self.streaming_text = String::new();
                self.last_usage = None;
                self.session = Some(next);
                assert(self.messages.deep_view() =~= Seq::empty());
                assert(self.core_messages.deep_view() =~= Seq::empty());
                assert(self.streaming_text@ =~= Seq::empty());
                Step::Send { command: AgentCommand::ClearSession, next: AfterSend::Clear }
            },
            None => {
                assert(self@ == old(self)@);
                Step::Done { go_on: true }
            },
        }
    }
}

/// What is saved is what the transcript holds.
pub proof fn law_saves_hold_the_transcript(state: AppModel, next: AfterSaveModel, at: MomentModel)
    requires
        state.persisted(next, at).1 is Save,
    ensures
        state.persisted(next, at).0.session matches Some(session) && session.ui_messages
            == state.messages && session.core_messages == state.core_messages
            && session.updated_at == at.stamp && session.has_request(),
        state.persisted(next, at).0.messages == state.messages,
{
    let session = state.synced().session->0;
    assert(session.refreshed(at.stamp).ui_messages == session.ui_messages);
    assert(session.refreshed(at.stamp).core_messages == session.core_messages);
    assert(session.has_request());
    if exists|i: int|
        0 <= i < session.ui_messages.len() && crate::session::is_request(
            #[trigger] session.ui_messages[i],
        ) {
        let i = choose|i: int|
            0 <= i < session.ui_messages.len() && crate::session::is_request(
                #[trigger] session.ui_messages[i],
            );
        assert(crate::session::is_request(session.refreshed(at.stamp).ui_messages[i]));
    } else {
        let i = choose|i: int|
            0 <= i < session.core_messages.len() && crate::session::is_core_request(
                #[trigger] session.core_messages[i],
            );
        assert(crate::session::is_core_request(session.refreshed(at.stamp).core_messages[i]));
    }
}

/// A session in which nothing was said is never written.
pub proof fn law_empty_sessions_are_not_saved(
    state: AppModel,
    next: AfterSaveModel,
    at: MomentModel,
)
    requires
        state.keeps_session(),
        !(state.synced().session->0).has_request(),
    ensures
        state.persisted(next, at).1 !is Save,
{
}

} // verus!
