//! What the keys do: in the list of sessions, at a prompt, and in the input line.
use super::choice::{FilePreviewChoice, PermissionChoice, PlanChoice};
use super::editor::EditorModel;
use super::state::{
    ending, going_on, AfterList, AfterListModel, AfterSave, AfterSaveModel, AfterSend,
    AfterSendModel, AppModel, AppState, Moment, MomentModel, PendingSessionPicker, PickerModel,
    Step, StepModel,
};
use super::status::{
    FilePreviewModel, PendingFilePreview, PendingPermission, PendingPlanApproval, PermissionModel,
    PlanApprovalModel,
};
use super::viewport::ViewportState;
use crate::event::{AgentCommand, CommandModel};
use crate::keys::{Key, KeyPress};
use crate::text::{has_prefix, starts_with, utf8_len};
use vstd::prelude::*;

verus! {

/// What a key does at a prompt.
#[derive(Debug)]
pub enum Pick<C> {
    /// Nothing.
    Stay,
    /// Another choice is selected.
    Move(C),
    /// A choice is made.
    Choose(C),
    /// The prompt is left.
    Leave,
    /// The client ends.
    Quit,
}

pub open spec fn is_letter(key: KeyPress, lower: char, upper: char) -> bool {
    key.code == Key::Char(lower) || key.code == Key::Char(upper)
}

fn letter(key: KeyPress, lower: char, upper: char) -> (r: bool)
    ensures
        r == is_letter(key, lower, upper),
{
    match key.code {
        Key::Char(c) => c == lower || c == upper,
        _ => false,
    }
}

/// Whether a key interrupts the client.
pub open spec fn is_break(key: KeyPress) -> bool {
    key.code == Key::Char('c') && key.control
}

fn breaks(key: KeyPress) -> (r: bool)
    ensures
        r == is_break(key),
{
    match key.code {
        Key::Char(c) => c == 'c' && key.control,
        _ => false,
    }
}

pub open spec fn plan_pick(key: KeyPress, selected: PlanChoice) -> Pick<PlanChoice> {
    if key.code is Left {
        Pick::Move(selected.preceding())
    } else if key.code is Right || key.code is Tab {
        Pick::Move(selected.following())
    } else if key.code is Enter {
        if selected is Quit {
            Pick::Quit
        } else {
            Pick::Choose(selected)
        }
    } else if is_letter(key, 'y', 'Y') || is_letter(key, 'a', 'A') {
        Pick::Choose(PlanChoice::Approve)
    } else if is_letter(key, 'r', 'R') {
        Pick::Choose(PlanChoice::Revise)
    } else if is_letter(key, 'n', 'N') || key.code is Esc {
        Pick::Choose(PlanChoice::Reject)
    } else if is_letter(key, 'q', 'Q') || is_break(key) {
        Pick::Quit
    } else {
        Pick::Stay
    }
}

fn pick_plan(key: KeyPress, selected: PlanChoice) -> (r: Pick<PlanChoice>)
    ensures
        r == plan_pick(key, selected),
{
    match key.code {
        Key::Left => Pick::Move(selected.previous()),
        Key::Right => Pick::Move(selected.next()),
        Key::Tab => Pick::Move(selected.next()),
        Key::Enter => match selected {
            PlanChoice::Quit => Pick::Quit,
            _ => Pick::Choose(selected),
        },
        Key::Esc => Pick::Choose(PlanChoice::Reject),
        _ => if letter(key, 'y', 'Y') || letter(key, 'a', 'A') {
            Pick::Choose(PlanChoice::Approve)
        } else if letter(key, 'r', 'R') {
            Pick::Choose(PlanChoice::Revise)
        } else if letter(key, 'n', 'N') {
            Pick::Choose(PlanChoice::Reject)
        } else if letter(key, 'q', 'Q') || breaks(key) {
            Pick::Quit
        } else {
            Pick::Stay
        },
    }
}

pub open spec fn preview_pick(key: KeyPress, selected: FilePreviewChoice) -> Pick<
    FilePreviewChoice,
> {
    if key.code is Left {
        Pick::Move(selected.preceding())
    } else if key.code is Right || key.code is Tab {
        Pick::Move(selected.following())
    } else if key.code is Enter {
        if selected is Quit {
            Pick::Quit
        } else {
            Pick::Choose(selected)
        }
    } else if is_letter(key, 'y', 'Y') || is_letter(key, 'a', 'A') {
        Pick::Choose(FilePreviewChoice::Apply)
    } else if is_letter(key, 'n', 'N') || is_letter(key, 'r', 'R') {
        Pick::Choose(FilePreviewChoice::Reject)
    } else if is_letter(key, 'q', 'Q') || is_break(key) {
        Pick::Quit
    } else if key.code is Esc {
        Pick::Leave
    } else {
        Pick::Stay
    }
}

fn pick_preview(key: KeyPress, selected: FilePreviewChoice) -> (r: Pick<FilePreviewChoice>)
    ensures
        r == preview_pick(key, selected),
{
    match key.code {
        Key::Left => Pick::Move(selected.previous()),
        Key::Right => Pick::Move(selected.next()),
        Key::Tab => Pick::Move(selected.next()),
        Key::Enter => match selected {
            FilePreviewChoice::Quit => Pick::Quit,
            _ => Pick::Choose(selected),
        },
        Key::Esc => Pick::Leave,
        _ => if letter(key, 'y', 'Y') || letter(key, 'a', 'A') {
            Pick::Choose(FilePreviewChoice::Apply)
        } else if letter(key, 'n', 'N') || letter(key, 'r', 'R') {
            Pick::Choose(FilePreviewChoice::Reject)
        } else if letter(key, 'q', 'Q') || breaks(key) {
            Pick::Quit
        } else {
            Pick::Stay
        },
    }
}

pub open spec fn permission_pick(key: KeyPress, selected: PermissionChoice) -> Pick<
    PermissionChoice,
> {
    if key.code is Left {
        Pick::Move(selected.preceding())
    } else if key.code is Right || key.code is Tab {
        Pick::Move(selected.following())
    } else if key.code is Enter {
        if selected is Quit {
            Pick::Quit
        } else {
            Pick::Choose(selected)
        }
    } else if is_letter(key, 'y', 'Y') {
        Pick::Choose(PermissionChoice::AllowOnce)
    } else if is_letter(key, 's', 'S') {
        Pick::Choose(PermissionChoice::AllowSession)
    } else if is_letter(key, 'a', 'A') {
        Pick::Choose(PermissionChoice::AllowAlways)
    } else if is_letter(key, 'n', 'N') {
        Pick::Choose(PermissionChoice::Deny)
    } else if is_letter(key, 'q', 'Q') || is_break(key) {
        Pick::Quit
    } else if key.code is Esc {
        Pick::Leave
    } else {
        Pick::Stay
    }
}

fn pick_permission(key: KeyPress, selected: PermissionChoice) -> (r: Pick<PermissionChoice>)
    ensures
        r == permission_pick(key, selected),
{
    match key.code {
        Key::Left => Pick::Move(selected.previous()),
        Key::Right => Pick::Move(selected.next()),
        Key::Tab => Pick::Move(selected.next()),
        Key::Enter => match selected {
            PermissionChoice::Quit => Pick::Quit,
            _ => Pick::Choose(selected),
        },
        Key::Esc => Pick::Leave,
        _ => if letter(key, 'y', 'Y') {
            Pick::Choose(PermissionChoice::AllowOnce)
        } else if letter(key, 's', 'S') {
            Pick::Choose(PermissionChoice::AllowSession)
        } else if letter(key, 'a', 'A') {
            Pick::Choose(PermissionChoice::AllowAlways)
        } else if letter(key, 'n', 'N') {
            Pick::Choose(PermissionChoice::Deny)
        } else if letter(key, 'q', 'Q') || breaks(key) {
            Pick::Quit
        } else {
            Pick::Stay
        },
    }
}

impl AppModel {
    /// The client ends.
    pub open spec fn quitting(self) -> (AppModel, StepModel) {
        (AppModel { running: false, ..self }, ending())
    }

    /// What a key does in the list of sessions, which is taken out of the state.
    pub open spec fn on_picker_key(self, picker: PickerModel, key: KeyPress, at: MomentModel) -> (
        AppModel,
        StepModel,
    ) {
        let with = |picker: PickerModel|
            (AppModel { pending_sessions: Some(picker), ..self }, going_on());
        if key.code is Up {
            with(
                PickerModel {
                    selected: if picker.selected == 0 {
                        0
                    } else {
                        (picker.selected - 1) as usize
                    },
                    ..picker
                },
            )
        } else if key.code is Down {
            with(
                PickerModel {
                    selected: if picker.sessions.len() == 0 {
                        picker.selected
                    } else if picker.selected + 1 < picker.sessions.len() {
                        (picker.selected + 1) as usize
                    } else {
                        (picker.sessions.len() - 1) as usize
                    },
                    ..picker
                },
            )
        } else if is_letter(key, 'a', 'A') {
            let toggled = PickerModel { show_all: !picker.show_all, ..picker };
            if self.has_session_store {
                (
                    self,
                    StepModel::List {
                        workspace: if toggled.show_all || self.session is None {
                            None
                        } else {
                            Some((self.session->0).workspace_root)
                        },
                        next: AfterListModel::Toggle { picker: toggled },
                    },
                )
            } else {
                with(toggled)
            }
        } else if key.code is Enter {
            match picker.picked() {
                Some(session) => self.persisted(
                    AfterSaveModel::Resume { id: session.id, picker: Some(picker) },
                    at,
                ),
                None => (
                    AppModel { pending_sessions: Some(picker), ..self }.saying(
                        "No sessions found."@,
                    ),
                    going_on(),
                ),
            }
        } else if key.code is Esc || is_letter(key, 'q', 'Q') {
            (self.saying("Session picker closed."@), going_on())
        } else if is_break(key) {
            self.quitting()
        } else {
            with(picker)
        }
    }

    /// What a key does at the review of a plan, which is taken out of the state.
    pub open spec fn on_plan_key(self, plan: PlanApprovalModel, key: KeyPress) -> (
        AppModel,
        StepModel,
    ) {
        let answer = |approved: bool|
            StepModel::Send {
                command: CommandModel::PlanResponse { request_id: plan.request_id, approved },
                next: AfterSendModel::Report,
            };
        match plan_pick(key, plan.selected) {
            Pick::Stay => (AppModel { pending_plan: Some(plan), ..self }, going_on()),
            Pick::Move(choice) => (
                AppModel {
                    pending_plan: Some(PlanApprovalModel { selected: choice, ..plan }),
                    ..self
                },
                going_on(),
            ),
            Pick::Choose(PlanChoice::Approve) => (
                self.saying("Executing approved plan..."@),
                answer(true),
            ),
            Pick::Choose(PlanChoice::Reject) => (self.saying("Plan rejected."@), answer(false)),
            Pick::Choose(PlanChoice::Revise) => (
                AppModel {
                    editor: EditorModel {
                        text: "Revise this plan: "@,
                        cursor: utf8_len("Revise this plan: "@) as usize,
                        ..EditorModel::empty()
                    },
                    working_since: None,
                    ..self
                }.saying("Plan rejected. Edit the revision request and send it."@),
                answer(false),
            ),
            _ => self.quitting(),
        }
    }

    /// What a key does at the review of a file change, which is taken out of the state.
    pub open spec fn on_preview_key(self, preview: FilePreviewModel, key: KeyPress) -> (
        AppModel,
        StepModel,
    ) {
        let answer = |approved: bool|
            StepModel::Send {
                command: CommandModel::FileChangePreviewResponse {
                    request_id: preview.request_id,
                    approved,
                },
                next: AfterSendModel::Approval,
            };
        match preview_pick(key, preview.selected) {
            Pick::Stay => (AppModel { pending_file_preview: Some(preview), ..self }, going_on()),
            Pick::Move(choice) => (
                AppModel {
                    pending_file_preview: Some(FilePreviewModel { selected: choice, ..preview }),
                    ..self
                },
                going_on(),
            ),
            Pick::Choose(FilePreviewChoice::Apply) => (
                self.saying("Applying changes..."@),
                answer(true),
            ),
            Pick::Choose(FilePreviewChoice::Reject) => (
                self.saying("Change rejected."@),
                answer(false),
            ),
            Pick::Leave => (
                AppModel { interrupt_requested: true, ..self }.saying("Change rejected."@),
                answer(false),
            ),
            _ => self.quitting(),
        }
    }

    /// The turn that runs is to be interrupted.
    pub open spec fn interrupting(self) -> (AppModel, StepModel) {
        (
            AppModel { interrupt_requested: true, ..self }.saying("Interrupting..."@),
            StepModel::Send { command: CommandModel::Interrupt, next: AfterSendModel::Report },
        )
    }

    /// What a key does at a request for permission, which is taken out of the state.
    pub open spec fn on_permission_key(self, permission: PermissionModel, key: KeyPress) -> (
        AppModel,
        StepModel,
    ) {
        match permission_pick(key, permission.selected) {
            Pick::Stay => (AppModel { pending_permission: Some(permission), ..self }, going_on()),
            Pick::Move(choice) => (
                AppModel {
                    pending_permission: Some(PermissionModel { selected: choice, ..permission }),
                    ..self
                },
                going_on(),
            ),
            Pick::Choose(choice) => match choice.answer() {
                Some((approved, scope)) => (
                    self.saying(
                        if approved {
                            "Thinking..."@
                        } else {
                            "Permission denied."@
                        },
                    ),
                    StepModel::Send {
                        command: CommandModel::PermissionResponse {
                            request_id: permission.request_id,
                            approved,
                            scope,
                        },
                        next: AfterSendModel::Approval,
                    },
                ),
                None => self.quitting(),
            },
            Pick::Leave => self.interrupting(),
            Pick::Quit => self.quitting(),
        }
    }

    /// The input line is sent: to the agent, or as a command.
    pub open spec fn sending(self, at: MomentModel) -> (AppModel, StepModel) {
        let input = self.editor.text;
        let emptied = AppModel { editor: EditorModel::empty(), ..self };
        if self.working_since is Some && !starts_with(input, "/"@) {
            (self.saying("Already working; press Esc to interrupt."@), going_on())
        } else if starts_with(input, "/"@) {
            emptied.on_command(input, at)
        } else if input.len() == 0 {
            (emptied, going_on())
        } else {
            (
                AppModel {
                    viewport: self.viewport.at_bottom(),
                    last_usage: None,
                    ..emptied.asking(input, at.ticks)
                }.saying(
                    if self.plan_mode_enabled {
                        "Planning..."@
                    } else {
                        "Working..."@
                    },
                ),
                StepModel::Send {
                    command: CommandModel::Process { message: input },
                    next: AfterSendModel::Message,
                },
            )
        }
    }

    pub open spec fn with_editor(self, editor: EditorModel) -> (AppModel, StepModel) {
        (AppModel { editor, ..self }, going_on())
    }

    pub open spec fn with_viewport(self, viewport: ViewportState) -> (AppModel, StepModel) {
        (AppModel { viewport, ..self }, going_on())
    }

    /// The lines that a page key scrolls.
    pub open spec fn page(self) -> int {
        let lines = if self.viewport.last_transcript_visible == 0 {
            1
        } else {
            self.viewport.last_transcript_visible as int
        };
        super::viewport::saturated_i32(lines) as int
    }

    /// What a key does in the input line.
    pub open spec fn on_editing_key(self, key: KeyPress, at: MomentModel) -> (AppModel, StepModel) {
        match key.code {
            Key::BackTab => self.switching_mode(!self.plan_mode_enabled),
            Key::Tab => if key.shift {
                self.switching_mode(!self.plan_mode_enabled)
            } else {
                (self, going_on())
            },
            Key::Esc => if self.working_since is Some {
                self.interrupting()
            } else {
                (self.saying("Press Ctrl+C to exit."@), going_on())
            },
            Key::Up => if key.shift || key.alt {
                self.with_viewport(self.viewport.moved(-3))
            } else {
                (self, going_on())
            },
            Key::Down => if key.shift || key.alt {
                self.with_viewport(self.viewport.moved(3))
            } else {
                (self, going_on())
            },
            Key::PageUp => self.with_viewport(self.viewport.moved(-self.page())),
            Key::PageDown => self.with_viewport(self.viewport.moved(self.page())),
            Key::Enter => self.sending(at),
            Key::Backspace => self.with_editor(self.editor.backspaced()),
            Key::Delete => self.with_editor(self.editor.deleted()),
            Key::Left => self.with_editor(self.editor.moved_left()),
            Key::Right => self.with_editor(self.editor.moved_right()),
            Key::Home => self.with_editor(self.editor.at(0)),
            Key::End => if self.editor.text.len() == 0 {
                self.with_viewport(self.viewport.at_bottom())
            } else {
                self.with_editor(self.editor.at(utf8_len(self.editor.text) as usize))
            },
            Key::Char(c) => if is_break(key) {
                self.quitting()
            } else {
                self.with_editor(self.editor.with_text(seq![c]))
            },
            Key::Other => (self, going_on()),
        }
    }

    /// What a key does.
    pub open spec fn on_key(self, key: KeyPress, at: MomentModel) -> (AppModel, StepModel) {
        if is_letter(key, 'o', 'O') && key.control {
            (AppModel { reasoning_expanded: !self.reasoning_expanded, ..self }, going_on())
        } else if self.pending_sessions is Some {
            AppModel { pending_sessions: None, ..self }.on_picker_key(
                self.pending_sessions->0,
                key,
                at,
            )
        } else if self.pending_plan is Some {
            AppModel { pending_plan: None, ..self }.on_plan_key(self.pending_plan->0, key)
        } else if self.pending_file_preview is Some {
            AppModel { pending_file_preview: None, ..self }.on_preview_key(
                self.pending_file_preview->0,
                key,
            )
        } else if self.pending_permission is Some {
            AppModel { pending_permission: None, ..self }.on_permission_key(
                self.pending_permission->0,
                key,
            )
        } else {
            self.on_editing_key(key, at)
        }
    }

    /// Whether a prompt or the list of sessions takes the keys.
    pub open spec fn prompting(self) -> bool {
        self.pending_plan is Some || self.pending_sessions is Some || self.pending_file_preview is Some
            || self.pending_permission is Some
    }

    /// What pasting a text does.
    pub open spec fn on_paste(self, text: Seq<char>) -> AppModel {
        if self.prompting() {
            self.saying("Finish the current prompt before pasting."@)
        } else {
            AppModel { editor: self.editor.with_paste(text), ..self }
        }
    }
}

impl AppState {
    fn quit(&mut self) -> (r: Step)
        ensures
            (final(self)@, r.deep_view()) == old(self)@.quitting(),
            final(self).editor == old(self).editor,
    {
        self.running = false;
        Step::Done { go_on: false }
    }

    fn toggle_listing(&mut self, picker: PendingSessionPicker) -> (r: Step)
        ensures
            forall|key: KeyPress, at: MomentModel|
                is_letter(key, 'a', 'A') ==> (final(self)@, r.deep_view()) == #[trigger] old(
                    self,
                )@.on_picker_key(picker.deep_view(), key, at),
            final(self).editor == old(self).editor,
    {
        let mut picker = picker;
        picker.show_all = !picker.show_all;
        if self.has_session_store {
            let workspace = if picker.show_all {
                None
            } else {
                match &self.session {
                    Some(session) => Some(session.workspace_root.clone()),
                    None => None,
                }
            };
            return Step::List { workspace, next: AfterList::Toggle { picker } };
        }
        self.pending_sessions = Some(picker);
        Step::Done { go_on: true }
    }

    fn handle_picker_key(&mut self, picker: PendingSessionPicker, key: KeyPress, at: &Moment) -> (r:
        Step)
        ensures
            (final(self)@, r.deep_view()) == old(self)@.on_picker_key(
                picker.deep_view(),
                key,
                at.deep_view(),
            ),
            final(self).editor == old(self).editor,
    {
        let mut picker = picker;
        match key.code {
            Key::Up => {
                picker.selected = picker.selected.saturating_sub(1);
                self.pending_sessions = Some(picker);
                Step::Done { go_on: true }
            },
            Key::Down => {
                if picker.sessions.len() > 0 {
                    let last: usize = picker.sessions.len() - 1;
                    picker.selected = if picker.selected < last {
                        picker.selected + 1
                    } else {
                        last
                    };
                }
                self.pending_sessions = Some(picker);
                Step::Done { go_on: true }
            },
            Key::Enter => {
                let id = match picker.selected_session() {
                    Some(session) => Some(session.id.clone()),
                    None => None,
                };
                match id {
                    Some(id) => self.persist_session(
                        AfterSave::Resume { id, picker: Some(picker) },
                        at,
                    ),
                    None => {
                        self.say("No sessions found.");
                        self.pending_sessions = Some(picker);
                        Step::Done { go_on: true }
                    },
                }
            },
            Key::Esc => {
                self.say("Session picker closed.");
                Step::Done { go_on: true }
            },
            _ => {
                if letter(key, 'a', 'A') {
                    return self.toggle_listing(picker);
                }
                if letter(key, 'q', 'Q') {
                    self.say("Session picker closed.");
                    return Step::Done { go_on: true };
                }
                if breaks(key) {
                    return self.quit();
                }
                self.pending_sessions = Some(picker);
                Step::Done { go_on: true }
            },
        }
    }

    fn handle_plan_key(&mut self, plan: PendingPlanApproval, key: KeyPress) -> (r: Step)
        requires
            old(self)@.editor.wf(),
        ensures
            (final(self)@, r.deep_view()) == old(self)@.on_plan_key(plan.deep_view(), key),
            final(self)@.editor.wf(),
    {
        let mut plan = plan;
        match pick_plan(key, plan.selected) {
            Pick::Stay => {
                self.pending_plan = Some(plan);
                Step::Done { go_on: true }
            },
            Pick::Move(choice) => {
                plan.selected = choice;
                self.pending_plan = Some(plan);
                Step::Done { go_on: true }
            },
            Pick::Choose(PlanChoice::Approve) => {
                self.say("Executing approved plan...");
                Step::Send {
                    command: AgentCommand::PlanResponse {
                        request_id: plan.request_id,
                        approved: true,
                    },
                    next: AfterSend::Report,
                }
            },
            Pick::Choose(PlanChoice::Reject) => {
                self.say("Plan rejected.");
                Step::Send {
                    command: AgentCommand::PlanResponse {
                        request_id: plan.request_id,
                        approved: false,
                    },
                    next: AfterSend::Report,
                }
            },
            Pick::Choose(PlanChoice::Revise) => {
                self.editor.set_text("Revise this plan: ");
                self.working_since = None;
                self.say("Plan rejected. Edit the revision request and send it.");
                Step::Send {
                    command: AgentCommand::PlanResponse {
                        request_id: plan.request_id,
                        approved: false,
                    },
                    next: AfterSend::Report,
                }
            },
            _ => self.quit(),
        }
    }

    fn handle_preview_key(&mut self, preview: PendingFilePreview, key: KeyPress) -> (r: Step)
        ensures
            (final(self)@, r.deep_view()) == old(self)@.on_preview_key(preview.deep_view(), key),
            final(self).editor == old(self).editor,
    {
        let mut preview = preview;
        match pick_preview(key, preview.selected) {
            Pick::Stay => {
                self.pending_file_preview = Some(preview);
                Step::Done { go_on: true }
            },
            Pick::Move(choice) => {
                preview.selected = choice;
                self.pending_file_preview = Some(preview);
                Step::Done { go_on: true }
            },
            Pick::Choose(FilePreviewChoice::Apply) => {
                self.say("Applying changes...");
                Step::Send {
                    command: AgentCommand::FileChangePreviewResponse {
                        request_id: preview.request_id,
                        approved: true,
                    },
                    next: AfterSend::Approval,
                }
            },
            Pick::Choose(FilePreviewChoice::Reject) => {
                self.say("Change rejected.");
                Step::Send {
                    command: AgentCommand::FileChangePreviewResponse {
                        request_id: preview.request_id,
                        approved: false,
                    },
                    next: AfterSend::Approval,
                }
            },
            Pick::Leave => {
                self.interrupt_requested = true;
                self.say("Change rejected.");
                Step::Send {
                    command: AgentCommand::FileChangePreviewResponse {
                        request_id: preview.request_id,
                        approved: false,
                    },
                    next: AfterSend::Approval,
                }
            },
            _ => self.quit(),
        }
    }

    fn interrupt(&mut self) -> (r: Step)
        ensures
            (final(self)@, r.deep_view()) == old(self)@.interrupting(),
            final(self).editor == old(self).editor,
    {
        self.interrupt_requested = true;
        self.say("Interrupting...");
        Step::Send { command: AgentCommand::Interrupt, next: AfterSend::Report }
    }

    fn handle_permission_key(&mut self, permission: PendingPermission, key: KeyPress) -> (r: Step)
        ensures
            (final(self)@, r.deep_view()) == old(self)@.on_permission_key(
                permission.deep_view(),
                key,
            ),
            final(self).editor == old(self).editor,
    {
        let mut permission = permission;
        match pick_permission(key, permission.selected) {
            Pick::Stay => {
                self.pending_permission = Some(permission);
                Step::Done { go_on: true }
            },
            Pick::Move(choice) => {
                permission.selected = choice;
                self.pending_permission = Some(permission);
                Step::Done { go_on: true }
            },
            Pick::Choose(choice) => match choice.response() {
                Some((approved, scope)) => {
                    if approved {
                        self.say("Thinking...");
                    } else {
                        self.say("Permission denied.");
                    }
                    Step::Send {
                        command: AgentCommand::PermissionResponse {
                            request_id: permission.request_id,
                            approved,
                            scope,
                        },
                        next: AfterSend::Approval,
                    }
                },
                None => self.quit(),
            },
            Pick::Leave => self.interrupt(),
            Pick::Quit => self.quit(),
        }
    }

    fn send_input(&mut self, at: &Moment) -> (r: Step)
        requires
            old(self)@.editor.wf(),
        ensures
            (final(self)@, r.deep_view()) == old(self)@.sending(at.deep_view()),
            final(self)@.editor.wf(),
    {
        let command = has_prefix(self.editor.input.as_str(), "/");
        if self.working_since.is_some() && !command {
            self.say("Already working; press Esc to interrupt.");
            return Step::Done { go_on: true };
        }
        let input = self.editor.take_input();
        if command {
            return self.handle_slash_command(input.as_str(), at);
        }
        if input.as_str().is_empty() {
            return Step::Done { go_on: true };
        }
        self.ask(input.as_str(), at.ticks);
        self.viewport.scroll_to_bottom();
        self.last_usage = None;
        if self.plan_mode_enabled {
            self.say("Planning...");
        } else {
            self.say("Working...");
        }
        Step::Send { command: AgentCommand::Process { message: input }, next: AfterSend::Message }
    }

    #[verifier::spinoff_prover]
    fn handle_editing_key(&mut self, key: KeyPress, at: &Moment) -> (r: Step)
        requires
            old(self)@.editor.wf(),
            key.code matches Key::Char(c) ==> utf8_len(old(self)@.editor.text) + utf8_len(seq![c])
                <= usize::MAX,
        ensures
            (final(self)@, r.deep_view()) == old(self)@.on_editing_key(key, at.deep_view()),
            final(self)@.editor.wf(),
    {
        match key.code {
            Key::BackTab => {
                let enabled = !self.plan_mode_enabled;
                return self.set_plan_mode(enabled);
            },
            Key::Tab => {
                if key.shift {
                    let enabled = !self.plan_mode_enabled;
                    return self.set_plan_mode(enabled);
                }
            },
            Key::Esc => {
                if self.working_since.is_some() {
                    return self.interrupt();
                }
                self.say("Press Ctrl+C to exit.");
            },
            Key::Up => {
                if key.shift || key.alt {
                    self.viewport.scroll_up(3);
                }
            },
            Key::Down => {
                if key.shift || key.alt {
                    self.viewport.scroll_down(3);
                }
            },
            Key::PageUp => {
                let visible: usize = self.viewport.last_transcript_visible;
                let page: usize = if visible == 0 {
                    1
                } else {
                    visible
                };
                self.viewport.scroll_up(page);
            },
            Key::PageDown => {
                let visible: usize = self.viewport.last_transcript_visible;
                let page: usize = if visible == 0 {
                    1
                } else {
                    visible
                };
                self.viewport.scroll_down(page);
            },
            Key::Enter => {
                return self.send_input(at);
            },
            Key::Backspace => {
                self.editor.backspace();
            },
            Key::Delete => {
                self.editor.delete();
            },
            Key::Left => {
                self.editor.move_cursor_left();
            },
            Key::Right => {
                self.editor.move_cursor_right();
            },
            Key::Home => {
                self.editor.move_to_start();
            },
            Key::End => {
                if self.editor.input.as_str().is_empty() {
                    self.viewport.scroll_to_bottom();
                } else {
                    self.editor.move_to_end();
                }
            },
            Key::Char(c) => {
                if breaks(key) {
                    return self.quit();
                }
                let mut text = String::new();
                text.push(c);
                assert(text@ =~= seq![c]);
                self.editor.insert_text(text.as_str());
            },
            Key::Other => {},
        }
        Step::Done { go_on: true }
    }

    /// Does what a key asks for.
    #[verifier::spinoff_prover]
    pub fn handle_key(&mut self, key: KeyPress, at: &Moment) -> (r: Step)
        requires
            old(self)@.editor.wf(),
            key.code matches Key::Char(c) ==> utf8_len(old(self)@.editor.text) + utf8_len(seq![c])
                <= usize::MAX,
        ensures
            (final(self)@, r.deep_view()) == old(self)@.on_key(key, at.deep_view()),
            final(self)@.editor.wf(),
    {
        if letter(key, 'o', 'O') && key.control {
            self.reasoning_expanded = !self.reasoning_expanded;
            return Step::Done { go_on: true };
        }
        match self.pending_sessions.take() {
            Some(picker) => {
                return self.handle_picker_key(picker, key, at);
            },
            None => {},
        }
        match self.pending_plan.take() {
            Some(plan) => {
                return self.handle_plan_key(plan, key);
            },
            None => {},
        }
        match self.pending_file_preview.take() {
            Some(preview) => {
                return self.handle_preview_key(preview, key);
            },
            None => {},
        }
        match self.pending_permission.take() {
            Some(permission) => {
                return self.handle_permission_key(permission, key);
            },
            None => {},
        }
        assert(self@ == old(self)@);
        self.handle_editing_key(key, at)
    }

    /// Puts a pasted text into the input line, unless a prompt is open.
    pub fn handle_paste(&mut self, text: &str)
        requires
            old(self)@.editor.wf(),
            utf8_len(old(self)@.editor.text) + utf8_len(text@) <= usize::MAX,
            text@.len() < usize::MAX,
        ensures
            final(self)@ == old(self)@.on_paste(text@),
            final(self)@.editor.wf(),
    {
        if self.pending_plan.is_some() || self.pending_sessions.is_some()
            || self.pending_file_preview.is_some() || self.pending_permission.is_some() {
            self.say("Finish the current prompt before pasting.");
            return;
        }
        self.editor.insert_paste(text);
    }
}

/// Control and `o` show or hide the reasoning, whatever else is going on, and change nothing
/// else.
pub proof fn law_reasoning_toggles_anywhere(state: AppModel, key: KeyPress, at: MomentModel)
    requires
        is_letter(key, 'o', 'O'),
        key.control,
    ensures
        state.on_key(key, at) == (
            AppModel { reasoning_expanded: !state.reasoning_expanded, ..state },
            going_on(),
        ),
        state.on_key(key, at).0.on_key(key, at).0 == state,
{
}

/// A prompt is answered once: with the answer it is gone.
pub proof fn law_prompts_are_answered_once(state: AppModel, key: KeyPress, at: MomentModel)
    requires
        state.pending_sessions is None,
        state.on_key(key, at).1 matches StepModel::Send { command, .. } && (
        command is PlanResponse || command is FileChangePreviewResponse
            || command is PermissionResponse),
    ensures
        ({
            let after = state.on_key(key, at).0;
            match state.on_key(key, at).1->command {
                CommandModel::PlanResponse { request_id, .. } => state.pending_plan matches Some(
                    plan,
                ) && plan.request_id == request_id && after.pending_plan is None,
                CommandModel::FileChangePreviewResponse { request_id, .. } =>
                    state.pending_file_preview matches Some(preview) && preview.request_id
                    == request_id && after.pending_file_preview is None,
                CommandModel::PermissionResponse { request_id, .. } =>
                    state.pending_permission matches Some(permission) && permission.request_id
                    == request_id && after.pending_permission is None,
                _ => true,
            }
        }),
{
    if is_letter(key, 'o', 'O') && key.control {
    } else if state.pending_plan is Some {
    } else if state.pending_file_preview is Some {
    } else if state.pending_permission is Some {
    } else {
        lemma_editing_answers_nothing(state, key, at);
    }
}

/// Whether a step hands the agent an answer to a prompt.
pub open spec fn answers(step: StepModel) -> bool {
    step matches StepModel::Send { command, .. } && (command is PlanResponse
        || command is FileChangePreviewResponse || command is PermissionResponse)
}

proof fn lemma_commands_answer_nothing(state: AppModel, input: Seq<char>, at: MomentModel)
    ensures
        !answers(state.on_command(input, at).1),
{
    let parts = crate::words::words(input);
    assert(!answers(state.clearing(at).1));
    assert(!answers(state.opening_picker().1));
    assert(!answers(state.resuming(parts).1));
    assert(!answers(state.on_model_command(parts).1)) by {
        assert(!answers(state.refreshing().1));
        assert(!answers(state.choosing_model(parts[1]).1));
    }
    assert(!answers(state.on_effort_command(parts).1));
    assert(!answers(state.switching_mode(false).1));
    assert(!answers(state.switching_mode(true).1));
    assert(!answers(state.on_plan_command(input, parts, at.ticks).1));
}

proof fn lemma_editing_answers_nothing(state: AppModel, key: KeyPress, at: MomentModel)
    ensures
        !answers(state.on_editing_key(key, at).1),
{
    if key.code is Enter {
        let emptied = AppModel { editor: EditorModel::empty(), ..state };
        lemma_commands_answer_nothing(emptied, state.editor.text, at);
    }
}

/// While a prompt is open, no key reaches the input line, except to begin the revision of a plan.
pub proof fn law_prompts_take_the_keys(state: AppModel, key: KeyPress, at: MomentModel)
    requires
        state.prompting(),
    ensures
        state.on_key(key, at).0.editor == state.editor || state.pending_plan is Some && state.on_key(
            key,
            at,
        ).0.editor.text == "Revise this plan: "@,
{
}

/// A key that means nothing at a prompt changes nothing.
pub proof fn law_unknown_keys_are_ignored(state: AppModel, key: KeyPress, at: MomentModel)
    requires
        state.prompting(),
        key.code is Other || key.code is Home || key.code is End || key.code is PageUp
            || key.code is PageDown || key.code is Backspace || key.code is Delete
            || key.code is BackTab,
    ensures
        state.on_key(key, at) == (state, going_on()),
{
}

/// The list of sessions is moved through without leaving it.
pub proof fn law_selection_stays_in_the_list(state: AppModel, key: KeyPress, at: MomentModel)
    requires
        state.pending_sessions matches Some(picker) && picker.selected < picker.sessions.len()
            <= usize::MAX,
        key.code is Up || key.code is Down,
    ensures
        state.on_key(key, at).0.pending_sessions matches Some(picker) && picker.selected
            < picker.sessions.len() && picker.sessions == (state.pending_sessions->0).sessions,
{
}

} // verus!
