//! How the client goes on when something was done outside.
use super::banner::HeaderModel;
use super::state::{
    going_on, AfterList, AfterListModel, AfterSave, AfterSaveModel, AfterSend, AfterSendModel,
    AppModel, AppState, DeferredApproval, DeferredModel, Moment, MomentModel, PendingSessionPicker,
    PickerModel, SaveReason, Step, StepModel,
};
use crate::event::{AgentCommand, CommandModel};
use crate::session::{SessionSummary, SummaryModel};
use crate::text::{concat2, concat3, decimal, decimal_of, same_text};
use crate::types::{ModelProfile, ProfileModel};
use vstd::prelude::*;

verus! {

/// What came of fetching the models of the provider.
#[derive(Debug)]
pub enum Refreshed {
    /// The fetch could not be begun.
    NotStarted { error: String },
    /// No models came.
    Failed,
    /// The models, and whether they are from an earlier fetch.
    Models { models: Vec<ModelProfile>, stale: bool },
}

pub enum RefreshedModel {
    NotStarted { error: Seq<char> },
    Failed,
    Models { models: Seq<ProfileModel>, stale: bool },
}

impl DeepView for Refreshed {
    type V = RefreshedModel;

    open spec fn deep_view(&self) -> RefreshedModel {
        match *self {
            Refreshed::NotStarted { error } => RefreshedModel::NotStarted { error: error@ },
            Refreshed::Failed => RefreshedModel::Failed,
            Refreshed::Models { models, stale } => RefreshedModel::Models {
                models: models.deep_view(),
                stale,
            },
        }
    }
}

/// The first model with an id.
pub open spec fn profile_of(models: Seq<ProfileModel>, id: Seq<char>) -> Option<ProfileModel>
    decreases models.len(),
{
    if models.len() == 0 {
        None
    } else if models[0].id == id {
        Some(models[0])
    } else {
        profile_of(models.drop_first(), id)
    }
}

pub fn find_model(models: &Vec<ModelProfile>, id: &str) -> (r: Option<ModelProfile>)
    ensures
        r.deep_view() == profile_of(models.deep_view(), id@),
{
    let ghost all = models.deep_view();
    let mut i: usize = 0;
    assert(all.skip(0) =~= all);
    while i < models.len()
        invariant
            all == models.deep_view(),
            i <= models.len(),
            profile_of(all, id@) == profile_of(all.skip(i as int), id@),
        decreases models.len() - i,
    {
        assert(all.skip(i as int)[0] == models@[i as int].deep_view());
        assert(all.skip(i as int).drop_first() =~= all.skip(i + 1));
        if same_text(models[i].id.as_str(), id) {
            return Some(models[i].clone());
        }
        i += 1;
    }
    None
}

pub open spec fn or_off(effort: Option<Seq<char>>) -> Seq<char> {
    match effort {
        Some(effort) => effort,
        None => "off"@,
    }
}

impl AppModel {
    /// The approval that waits longest is asked for, unless another is.
    pub open spec fn next_approval(self) -> AppModel {
        if self.pending_plan is Some || self.pending_permission is Some
            || self.pending_file_preview is Some || self.deferred_approvals.len() == 0 {
            self
        } else {
            let rest = self.deferred_approvals.drop_first();
            match self.deferred_approvals[0] {
                DeferredModel::Permission(permission) => AppModel {
                    pending_permission: Some(permission),
                    deferred_approvals: rest,
                    ..self
                },
                DeferredModel::FilePreview(preview) => AppModel {
                    pending_file_preview: Some(preview),
                    deferred_approvals: rest,
                    ..self
                },
            }
        }
    }

    /// The profile of the model in use.
    pub open spec fn current_profile(self) -> Option<ProfileModel> {
        match self.current_model {
            Some(id) => profile_of(self.available_models, id),
            None => None,
        }
    }

    /// The header with another label for its model.
    pub open spec fn relabelled(self, label: Seq<char>) -> AppModel {
        AppModel {
            startup_header: match self.startup_header {
                Some(header) => Some(HeaderModel { model: label, ..header }),
                None => None,
            },
            ..self
        }
    }

    /// What follows when a command was handed to the agent, or the agent was gone.
    pub open spec fn after_sending(
        self,
        next: AfterSendModel,
        delivered: bool,
        at: MomentModel,
    ) -> (AppModel, StepModel) {
        if !delivered {
            (
                match next {
                    AfterSendModel::Mode { previous } => AppModel {
                        plan_mode_enabled: previous,
                        ..self
                    }.saying("Agent channel closed; mode was not changed."@),
                    AfterSendModel::Message => AppModel { working_since: None, ..self }.saying(
                        "Agent channel closed."@,
                    ),
                    _ => self.saying("Agent channel closed."@),
                },
                going_on(),
            )
        } else {
            match next {
                AfterSendModel::Report => (self, going_on()),
                AfterSendModel::Approval => (self.next_approval(), going_on()),
                AfterSendModel::Mode { .. } => (self, going_on()),
                AfterSendModel::Message => self.persisted_for(SaveReason::Message, at),
                AfterSendModel::Clear => (
                    self.saying("Conversation cleared. New session started."@),
                    going_on(),
                ),
                AfterSendModel::Permissions => (
                    self.saying("Loading permissions snapshot..."@),
                    going_on(),
                ),
                AfterSendModel::Model { name } => AppModel {
                    current_model: Some(name),
                    ..self
                }.relabelled(name + " "@ + or_off(self.reasoning_effort)).saying(
                    "Model switched to "@ + name + "."@,
                ).persisted_for(SaveReason::Model, at),
                AfterSendModel::Effort { effort } => AppModel {
                    reasoning_effort: Some(effort),
                    ..self
                }.relabelled(
                    match self.current_model {
                        Some(model) => model,
                        None => "unknown"@,
                    } + " "@ + effort,
                ).saying("Reasoning effort set to "@ + effort + "."@).persisted_for(
                    SaveReason::Effort,
                    at,
                ),
            }
        }
    }

    /// What follows when the saved sessions were listed.
    pub open spec fn after_listing(
        self,
        next: AfterListModel,
        listed: Result<Seq<SummaryModel>, Seq<char>>,
    ) -> AppModel {
        match (next, listed) {
            (AfterListModel::Toggle { picker }, Ok(sessions)) => AppModel {
                pending_sessions: Some(PickerModel { sessions, selected: 0, ..picker }),
                ..self
            },
            (AfterListModel::Toggle { picker }, Err(error)) => AppModel {
                pending_sessions: Some(picker),
                ..self
            }.saying("Could not list sessions: "@ + error),
            (AfterListModel::Open, Ok(sessions)) => AppModel {
                pending_sessions: Some(
                    PickerModel { sessions, selected: 0, show_all: false },
                ),
                ..self
            }.saying("Session history."@),
            (AfterListModel::Open, Err(error)) => self.saying(
                "Could not list sessions: "@ + error,
            ),
        }
    }

    /// What follows when a session that is to be resumed was read, or could not be.
    pub open spec fn after_loading(
        self,
        id: Seq<char>,
        error: Option<Seq<char>>,
        at: MomentModel,
    ) -> (AppModel, StepModel) {
        match error {
            None => self.persisted(AfterSaveModel::Resume { id, picker: None }, at),
            Some(error) => (self.saying(error), going_on()),
        }
    }

    /// The models after a fetch: the model in use stays among them.
    pub open spec fn models_with_current(self, fetched: Seq<ProfileModel>) -> Seq<ProfileModel> {
        match self.current_profile() {
            Some(profile) => if profile_of(fetched, profile.id) is Some {
                fetched
            } else {
                seq![profile] + fetched
            },
            None => fetched,
        }
    }

    /// What follows when the models were fetched, or could not be.
    pub open spec fn after_refreshing(self, outcome: RefreshedModel) -> AppModel {
        match outcome {
            RefreshedModel::NotStarted { error } => self.saying(
                "Could not start model refresh: "@ + error,
            ),
            RefreshedModel::Failed => self.saying(
                "Model refresh failed; the current catalog is still available."@,
            ),
            RefreshedModel::Models { models, stale } => {
                let all = self.models_with_current(models);
                let count = decimal(all.len());
                AppModel { available_models: all, ..self }.saying(
                    if stale {
                        "Model refresh used stale data; "@ + count + " models available."@
                    } else {
                        "Model catalog refreshed; "@ + count + " models available."@
                    },
                )
            },
        }
    }

    /// The mode changes, unless a turn runs.
    pub open spec fn switching_mode(self, enabled: bool) -> (AppModel, StepModel) {
        if self.working_since is Some {
            (
                self.saying("Already working; press Esc to interrupt before switching mode."@),
                going_on(),
            )
        } else {
            (
                AppModel { plan_mode_enabled: enabled, ..self }.saying(
                    if enabled {
                        "Switched to Plan mode. Press Shift+Tab for Agent mode."@
                    } else {
                        "Switched to Agent mode. Press Shift+Tab for Plan mode."@
                    },
                ),
                StepModel::Send {
                    command: CommandModel::SetPlanMode { enabled },
                    next: AfterSendModel::Mode { previous: self.plan_mode_enabled },
                },
            )
        }
    }
}

impl AppState {
    /// Asks for the approval that waits longest, unless another is being asked for.
    pub fn activate_next_approval(&mut self)
        ensures
            final(self)@ == old(self)@.next_approval(),
            final(self).editor == old(self).editor,
    {
        if self.pending_plan.is_some() || self.pending_permission.is_some()
            || self.pending_file_preview.is_some() || self.deferred_approvals.len() == 0 {
            return;
        }
        let ghost before = self.deferred_approvals.deep_view();
        let next = self.deferred_approvals.remove(0);
        assert(self.deferred_approvals.deep_view() =~= before.drop_first());
        assert(before[0] == next.deep_view());
        match next {
            DeferredApproval::Permission(permission) => {
                self.pending_permission = Some(permission);
            },
            DeferredApproval::FilePreview(preview) => {
                self.pending_file_preview = Some(preview);
            },
        }
    }

    fn relabel(&mut self, label: String)
        ensures
            final(self)@ == old(self)@.relabelled(label@),
            final(self).editor == old(self).editor,
    {
        match self.startup_header.take() {
            Some(header) => {
                let mut header = header;
                header.model = label;
                self.startup_header = Some(header);
            },
            None => {},
        }
    }

    fn take_up_model(&mut self, name: String, at: &Moment) -> (r: Step)
        ensures
            (final(self)@, r.deep_view()) == old(self)@.after_sending(
                AfterSendModel::Model { name: name@ },
                true,
                at.deep_view(),
            ),
            final(self).editor == old(self).editor,
    {
        let label = match &self.reasoning_effort {
            Some(effort) => concat3(name.as_str(), " ", effort.as_str()),
            None => concat3(name.as_str(), " ", "off"),
        };
        let status = concat3("Model switched to ", name.as_str(), ".");
        self.current_model = Some(name);
        self.relabel(label);
        self.status = status;
        self.persist_session(AfterSave::Report { reason: SaveReason::Model }, at)
    }

    fn take_up_effort(&mut self, effort: String, at: &Moment) -> (r: Step)
        ensures
            (final(self)@, r.deep_view()) == old(self)@.after_sending(
                AfterSendModel::Effort { effort: effort@ },
                true,
                at.deep_view(),
            ),
            final(self).editor == old(self).editor,
    {
        let label = match &self.current_model {
            Some(model) => concat3(model.as_str(), " ", effort.as_str()),
            None => concat3("unknown", " ", effort.as_str()),
        };
        let status = concat3("Reasoning effort set to ", effort.as_str(), ".");
        self.reasoning_effort = Some(effort);
        self.relabel(label);
        self.status = status;
        self.persist_session(AfterSave::Report { reason: SaveReason::Effort }, at)
    }

    /// Goes on when a command was handed to the agent; it is not delivered where the agent is
    /// gone.
    pub fn after_send(&mut self, next: AfterSend, delivered: bool, at: &Moment) -> (r: Step)
        ensures
            (final(self)@, r.deep_view()) == old(self)@.after_sending(
                next.deep_view(),
                delivered,
                at.deep_view(),
            ),
            final(self).editor == old(self).editor,
    {
        if !delivered {
            match next {
                AfterSend::Mode { previous } => {
                    self.plan_mode_enabled = previous;
                    self.say("Agent channel closed; mode was not changed.");
                },
                AfterSend::Message => {
                    self.working_since = None;
                    self.say("Agent channel closed.");
                },
                _ => {
                    self.say("Agent channel closed.");
                },
            }
            return Step::Done { go_on: true };
        }
        match next {
            AfterSend::Report => Step::Done { go_on: true },
            AfterSend::Approval => {
                self.activate_next_approval();
                Step::Done { go_on: true }
            },
            AfterSend::Mode { .. } => Step::Done { go_on: true },
            AfterSend::Message => self.persist_session(
                AfterSave::Report { reason: SaveReason::Message },
                at,
            ),
            AfterSend::Clear => {
                self.say("Conversation cleared. New session started.");
                Step::Done { go_on: true }
            },
            AfterSend::Permissions => {
                self.say("Loading permissions snapshot...");
                Step::Done { go_on: true }
            },
            AfterSend::Model { name } => self.take_up_model(name, at),
            AfterSend::Effort { effort } => self.take_up_effort(effort, at),
        }
    }

    /// Goes on when the saved sessions were listed, or could not be.
    pub fn after_list(
        &mut self,
        next: AfterList,
        listed: Result<Vec<SessionSummary>, String>,
    ) -> (r: Step)
        ensures
            final(self)@ == old(self)@.after_listing(
                next.deep_view(),
                match listed {
                    Ok(sessions) => Ok(sessions.deep_view()),
                    Err(error) => Err(error@),
                },
            ),
            r.deep_view() == going_on(),
            final(self).editor == old(self).editor,
    {
        match next {
            AfterList::Toggle { picker } => {
                let mut picker = picker;
                match listed {
                    Ok(sessions) => {
                        picker.sessions = sessions;
                        picker.selected = 0;
                    },
                    Err(error) => {
                        self.status = concat2("Could not list sessions: ", error.as_str());
                    },
                }
                self.pending_sessions = Some(picker);
            },
            AfterList::Open => match listed {
                Ok(sessions) => {
                    self.pending_sessions = Some(
                        PendingSessionPicker { sessions, selected: 0, show_all: false },
                    );
                    self.say("Session history.");
                },
                Err(error) => {
                    self.status = concat2("Could not list sessions: ", error.as_str());
                },
            },
        }
        Step::Done { go_on: true }
    }

    /// Goes on when a session that is to be resumed was read, or could not be.
    pub fn after_load(&mut self, id: String, loaded: Result<(), String>, at: &Moment) -> (r: Step)
        ensures
            (final(self)@, r.deep_view()) == old(self)@.after_loading(
                id@,
                match loaded {
                    Ok(_) => None,
                    Err(error) => Some(error@),
                },
                at.deep_view(),
            ),
            final(self).editor == old(self).editor,
    {
        match loaded {
            Ok(_) => self.persist_session(AfterSave::Resume { id, picker: None }, at),
            Err(error) => {
                self.status = error;
                Step::Done { go_on: true }
            },
        }
    }

    /// The profile of the model in use.
    pub fn find_current_model(&self) -> (r: Option<ModelProfile>)
        ensures
            r.deep_view() == self@.current_profile(),
    {
        match &self.current_model {
            Some(id) => find_model(&self.available_models, id.as_str()),
            None => None,
        }
    }

    /// Goes on when the models were fetched, or could not be.
    pub fn after_refresh(&mut self, outcome: Refreshed) -> (r: Step)
        requires
            outcome matches Refreshed::Models { models, .. } ==> models.len() < usize::MAX,
        ensures
            final(self)@ == old(self)@.after_refreshing(outcome.deep_view()),
            r.deep_view() == going_on(),
            final(self).editor == old(self).editor,
    {
        match outcome {
            Refreshed::NotStarted { error } => {
                self.status = concat2("Could not start model refresh: ", error.as_str());
            },
            Refreshed::Failed => {
                self.say("Model refresh failed; the current catalog is still available.");
            },
            Refreshed::Models { models, stale } => {
                let ghost fetched = models.deep_view();
                let mut models = models;
                match self.find_current_model() {
                    Some(previous) => {
                        if find_model(&models, previous.id.as_str()).is_none() {
                            models.insert(0, previous);
                            assert(models.deep_view() =~= seq![previous.deep_view()] + fetched);
                        }
                    },
                    None => {},
                }
                let count = decimal_of(models.len() as u64);
                self.available_models = models;
                self.status = if stale {
                    concat3(
                        "Model refresh used stale data; ",
                        count.as_str(),
                        " models available.",
                    )
                } else {
                    concat3("Model catalog refreshed; ", count.as_str(), " models available.")
                };
            },
        }
        Step::Done { go_on: true }
    }

    /// Changes the mode, unless a turn runs.
    pub fn set_plan_mode(&mut self, enabled: bool) -> (r: Step)
        ensures
            (final(self)@, r.deep_view()) == old(self)@.switching_mode(enabled),
            final(self).editor == old(self).editor,
    {
        if self.working_since.is_some() {
            self.say("Already working; press Esc to interrupt before switching mode.");
            return Step::Done { go_on: true };
        }
        let previous = self.plan_mode_enabled;
        self.plan_mode_enabled = enabled;
        if enabled {
            self.say("Switched to Plan mode. Press Shift+Tab for Agent mode.");
        } else {
            self.say("Switched to Agent mode. Press Shift+Tab for Plan mode.");
        }
        Step::Send {
            command: AgentCommand::SetPlanMode { enabled },
            next: AfterSend::Mode { previous },
        }
    }
}

/// While a turn runs, the mode does not change.
pub proof fn law_mode_is_kept_while_working(state: AppModel, enabled: bool)
    requires
        state.working_since is Some,
    ensures
        state.switching_mode(enabled).0.plan_mode_enabled == state.plan_mode_enabled,
        state.switching_mode(enabled).1 == going_on(),
{
}

/// Where the agent is gone, the mode is what it was.
pub proof fn law_undelivered_mode_changes_are_undone(
    state: AppModel,
    enabled: bool,
    at: MomentModel,
)
    requires
        state.working_since is None,
    ensures
        state.switching_mode(enabled).1 matches StepModel::Send { command, next } && state.switching_mode(
            enabled,
        ).0.after_sending(next, false, at).0 == state.saying(
            "Agent channel closed; mode was not changed."@,
        ),
{
}

proof fn lemma_front_is_found(profile: ProfileModel, rest: Seq<ProfileModel>)
    ensures
        profile_of(seq![profile] + rest, profile.id) == Some(profile),
{
    assert((seq![profile] + rest)[0] == profile);
}

proof fn lemma_found_id(models: Seq<ProfileModel>, id: Seq<char>)
    ensures
        profile_of(models, id) matches Some(profile) ==> profile.id == id,
    decreases models.len(),
{
    if models.len() > 0 && models[0].id != id {
        lemma_found_id(models.drop_first(), id);
    }
}

/// A fetch does not lose the model in use.
pub proof fn law_refresh_keeps_the_current_model(
    state: AppModel,
    models: Seq<ProfileModel>,
    stale: bool,
)
    requires
        state.current_profile() is Some,
    ensures
        state.after_refreshing(
            RefreshedModel::Models { models, stale },
        ).current_profile() is Some,
{
    let profile = state.current_profile()->0;
    lemma_found_id(state.available_models, state.current_model->0);
    lemma_front_is_found(profile, models);
}

/// Approvals that wait are asked for one at a time, in the order in which they came.
pub proof fn law_approvals_come_one_at_a_time(state: AppModel)
    ensures
        (state.pending_plan is Some || state.pending_permission is Some
            || state.pending_file_preview is Some) ==> state.next_approval() == state,
        state.next_approval().deferred_approvals == state.deferred_approvals
            || state.next_approval().deferred_approvals == state.deferred_approvals.drop_first(),
{
}

} // verus!
