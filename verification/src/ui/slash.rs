//! The commands that the user gives with a slash.
use super::state::{
    ending, going_on, AfterList, AfterListModel, AfterSave, AfterSaveModel, AfterSend,
    AfterSendModel, AppModel, AppState, Moment, MomentModel, Step, StepModel,
};
use super::steps::{find_model, or_off, profile_of};
use crate::event::{AgentCommand, CommandModel};
use crate::session::chat;
use crate::text::{
    concat2, concat3, join, joined, owned, same_text, strip_prefix, trim, trimmed, without_prefix,
};
use crate::types::{text_message, Message, ModelProfile, ProfileModel, Role};
use crate::words::{ascii_lowercase, split_words, to_ascii_lowercase, words};
use vstd::prelude::*;

verus! {

pub const HELP_STATUS: &'static str = "Commands: /model /effort /permissions /sessions /resume /plan /act /clear /help /exit";

pub const HELP_TEXT: &'static str = "Available commands:\n\n  /model         - Show current and available models\n  /model <name>  - Switch model\n  /model refresh - Refresh the model catalog\n  /effort        - Show current reasoning effort\n  /effort <tier> - Set reasoning effort\n  /permissions   - Show the active permission policy\n  /resume        - Browse this workspace's sessions\n  /resume <id>   - Resume a saved session directly\n  /sessions      - Browse saved sessions\n  /plan          - Enable plan mode\n  /plan off      - Disable plan mode\n  /plan <task>   - Plan one task before execution\n  /act           - Disable plan mode\n  /clear         - Save this session and start a new one\n  /help          - Show this help\n  /exit          - Exit DeepCode";

pub open spec fn ids_of(models: Seq<ProfileModel>) -> Seq<Seq<char>> {
    models.map_values(|model: ProfileModel| model.id)
}

fn model_ids(models: &Vec<ModelProfile>) -> (r: Vec<String>)
    ensures
        r.deep_view() == ids_of(models.deep_view()),
{
    let ghost all = ids_of(models.deep_view());
    let mut ids: Vec<String> = Vec::new();
    let mut i: usize = 0;
    assert(ids.deep_view() =~= all.take(0));
    while i < models.len()
        invariant
            all == ids_of(models.deep_view()),
            i <= models.len(),
            ids.deep_view() == all.take(i as int),
        decreases models.len() - i,
    {
        let ghost before = ids.deep_view();
        let id = models[i].id.clone();
        ids.push(id);
        assert(ids.deep_view() =~= before.push(id@));
        assert(all[i as int] == models.deep_view()[i as int].id);
        i += 1;
        assert(ids.deep_view() =~= all.take(i as int));
    }
    assert(all.take(i as int) =~= all);
    ids
}

fn lists(texts: &Vec<String>, text: &str) -> (r: bool)
    ensures
        r == texts.deep_view().contains(text@),
{
    let mut i: usize = 0;
    while i < texts.len()
        invariant
            i <= texts.len(),
            forall|j: int| 0 <= j < i ==> #[trigger] texts.deep_view()[j] != text@,
        decreases texts.len() - i,
    {
        assert(texts.deep_view()[i as int] == texts@[i as int]@);
        if same_text(texts[i].as_str(), text) {
            return true;
        }
        i += 1;
    }
    false
}

impl AppModel {
    /// The conversation is saved and a new one begun.
    pub open spec fn clearing(self, at: MomentModel) -> (AppModel, StepModel) {
        if self.busy() {
            (
                self.saying("Finish or interrupt the current operation before clearing."@),
                going_on(),
            )
        } else if self.session is Some {
            self.persisted(
                AfterSaveModel::Clear { effort: (self.session->0).reasoning_effort },
                at,
            )
        } else {
            (self.saying("Session storage is unavailable."@), going_on())
        }
    }

    /// The sessions of the workspace are listed.
    pub open spec fn opening_picker(self) -> (AppModel, StepModel) {
        if self.busy() {
            (
                self.saying("Finish or interrupt the current operation before opening sessions."@),
                going_on(),
            )
        } else if !self.keeps_session() {
            (self.saying("Session storage is unavailable."@), going_on())
        } else {
            (
                self,
                StepModel::List {
                    workspace: Some((self.session->0).workspace_root),
                    next: AfterListModel::Open,
                },
            )
        }
    }

    pub open spec fn resuming(self, parts: Seq<Seq<char>>) -> (AppModel, StepModel) {
        if parts.len() == 1 {
            self.opening_picker()
        } else if parts.len() > 2 {
            (self.saying("Usage: /resume [session-id]"@), going_on())
        } else if self.busy() {
            (
                self.saying("Finish or interrupt the current operation before resuming."@),
                going_on(),
            )
        } else if self.has_session_store {
            (self, StepModel::Load { id: parts[1] })
        } else {
            (self, going_on())
        }
    }

    pub open spec fn refreshing(self) -> (AppModel, StepModel) {
        if self.busy() {
            (
                self.saying("Finish or interrupt the current operation before refreshing models."@),
                going_on(),
            )
        } else if !self.has_model_catalog {
            (
                self.saying("Model catalog refresh is unavailable for this session."@),
                going_on(),
            )
        } else {
            (self, StepModel::RefreshModels)
        }
    }

    pub open spec fn choosing_model(self, id: Seq<char>) -> (AppModel, StepModel) {
        let effort = or_off(self.reasoning_effort);
        if self.working_since is Some {
            (
                self.saying("Finish or interrupt the current operation before switching model."@),
                going_on(),
            )
        } else {
            match profile_of(self.available_models, id) {
                Some(profile) => if !profile.supports(effort) {
                    (
                        self.saying(
                            "Model '"@ + profile.id + "' does not support effort '"@ + effort
                                + "'. Supported: "@ + join(profile.effort_names(), ", "@),
                        ),
                        going_on(),
                    )
                } else {
                    (
                        self,
                        StepModel::Send {
                            command: CommandModel::SetModel {
                                model: profile.id,
                                max_tokens: profile.max_output_tokens,
                                context_window: profile.context_window,
                            },
                            next: AfterSendModel::Model { name: profile.id },
                        },
                    )
                },
                None => (
                    self.saying(
                        "Unknown model: "@ + id + ". Use /model to list models."@,
                    ),
                    going_on(),
                ),
            }
        }
    }

    pub open spec fn on_model_command(self, parts: Seq<Seq<char>>) -> (AppModel, StepModel) {
        if parts.len() == 1 {
            (
                self.saying(
                    "Current model: "@ + match self.current_model {
                        Some(model) => model,
                        None => "unknown"@,
                    } + ". Available: "@ + join(ids_of(self.available_models), ", "@),
                ),
                going_on(),
            )
        } else if parts.len() == 2 && parts[1] == "refresh"@ {
            self.refreshing()
        } else if parts.len() != 2 {
            (self.saying("Usage: /model <name|refresh>"@), going_on())
        } else {
            self.choosing_model(parts[1])
        }
    }

    /// The efforts that can be chosen.
    pub open spec fn efforts(self) -> Seq<Seq<char>> {
        match self.current_profile() {
            Some(profile) => profile.effort_names(),
            None => seq!["off"@],
        }
    }

    pub open spec fn on_effort_command(self, parts: Seq<Seq<char>>) -> (AppModel, StepModel) {
        if parts.len() == 1 {
            (
                self.saying(
                    "Current reasoning effort: "@ + or_off(self.reasoning_effort)
                        + ". Available: "@ + join(self.efforts(), ", "@),
                ),
                going_on(),
            )
        } else if parts.len() != 2 {
            (
                self.saying("Usage: /effort <off|minimal|low|medium|high|max|xhigh>"@),
                going_on(),
            )
        } else if self.working_since is Some {
            (
                self.saying("Finish or interrupt the current operation before changing effort."@),
                going_on(),
            )
        } else if !self.efforts().contains(ascii_lowercase(parts[1])) {
            (
                self.saying(
                    "Unsupported reasoning effort: "@ + parts[1] + ". Available: "@ + join(
                        self.efforts(),
                        ", "@,
                    ),
                ),
                going_on(),
            )
        } else {
            (
                self,
                StepModel::Send {
                    command: CommandModel::SetReasoningEffort {
                        effort: Some(ascii_lowercase(parts[1])),
                    },
                    next: AfterSendModel::Effort { effort: ascii_lowercase(parts[1]) },
                },
            )
        }
    }

    /// The state with a message of the user that the agent works on from now on.
    pub open spec fn asking(self, text: Seq<char>, now: u64) -> AppModel {
        AppModel {
            messages: self.messages.push(chat("user"@, text)),
            core_messages: self.core_messages.push(text_message(Role::User, text)),
            streaming_text: Seq::empty(),
            working_since: Some(now),
            interrupt_requested: false,
            ..self
        }
    }

    pub open spec fn planning(self, task: Seq<char>, now: u64) -> (AppModel, StepModel) {
        (
            self.asking(task, now).saying("Planning..."@),
            StepModel::Send {
                command: CommandModel::PlanProcess { message: task },
                next: AfterSendModel::Message,
            },
        )
    }

    pub open spec fn on_plan_command(
        self,
        input: Seq<char>,
        parts: Seq<Seq<char>>,
        now: u64,
    ) -> (AppModel, StepModel) {
        let task = match strip_prefix(input, "/plan"@) {
            Some(rest) => trim(rest),
            None => Seq::empty(),
        };
        if parts.len() == 2 && ascii_lowercase(parts[1]) == "off"@ {
            self.switching_mode(false)
        } else if task.len() == 0 {
            self.switching_mode(true)
        } else {
            self.planning(task, now)
        }
    }

    /// What a command of the user does.
    pub open spec fn on_command(self, input: Seq<char>, at: MomentModel) -> (AppModel, StepModel) {
        let parts = words(input);
        let name = if parts.len() == 0 {
            ""@
        } else {
            parts[0]
        };
        if name == "/exit"@ || name == "/quit"@ {
            (AppModel { running: false, ..self }, ending())
        } else if name == "/clear"@ {
            self.clearing(at)
        } else if name == "/sessions"@ {
            self.opening_picker()
        } else if name == "/permissions"@ {
            (
                self,
                StepModel::Send {
                    command: CommandModel::PermissionsSnapshot,
                    next: AfterSendModel::Permissions,
                },
            )
        } else if name == "/resume"@ {
            self.resuming(parts)
        } else if name == "/model"@ {
            self.on_model_command(parts)
        } else if name == "/effort"@ {
            self.on_effort_command(parts)
        } else if name == "/plan"@ {
            self.on_plan_command(input, parts, at.ticks)
        } else if name == "/act"@ {
            self.switching_mode(false)
        } else if name == "/help"@ {
            (
                self.saying(HELP_STATUS@).showing(chat("assistant"@, HELP_TEXT@)),
                going_on(),
            )
        } else {
            (
                self.saying(
                    "Unknown command: "@ + name + ". Type /help for available commands."@,
                ),
                going_on(),
            )
        }
    }
}

impl AppState {
    fn clear_conversation(&mut self, at: &Moment) -> (r: Step)
        ensures
            (final(self)@, r.deep_view()) == old(self)@.clearing(at.deep_view()),
            final(self).editor == old(self).editor,
    {
        if self.is_busy() {
            self.say("Finish or interrupt the current operation before clearing.");
            return Step::Done { go_on: true };
        }
        let effort = match &self.session {
            Some(session) => Some(session.reasoning_effort.clone()),
            None => None,
        };
        match effort {
            Some(effort) => self.persist_session(AfterSave::Clear { effort }, at),
            None => {
                self.say("Session storage is unavailable.");
                Step::Done { go_on: true }
            },
        }
    }

    /// Begins to show the sessions of the workspace.
    pub fn open_session_picker(&mut self) -> (r: Step)
        ensures
            (final(self)@, r.deep_view()) == old(self)@.opening_picker(),
            final(self).editor == old(self).editor,
    {
        if self.is_busy() {
            self.say("Finish or interrupt the current operation before opening sessions.");
            return Step::Done { go_on: true };
        }
        if self.has_session_store {
            match &self.session {
                Some(session) => {
                    return Step::List {
                        workspace: Some(session.workspace_root.clone()),
                        next: AfterList::Open,
                    };
                },
                None => {},
            }
        }
        self.say("Session storage is unavailable.");
        Step::Done { go_on: true }
    }

    fn resume_by_id(&mut self, parts: &Vec<String>) -> (r: Step)
        requires
            parts.len() >= 1,
        ensures
            (final(self)@, r.deep_view()) == old(self)@.resuming(parts.deep_view()),
            final(self).editor == old(self).editor,
    {
        if parts.len() == 1 {
            return self.open_session_picker();
        }
        if parts.len() > 2 {
            self.say("Usage: /resume [session-id]");
            return Step::Done { go_on: true };
        }
        if self.is_busy() {
            self.say("Finish or interrupt the current operation before resuming.");
            return Step::Done { go_on: true };
        }
        if self.has_session_store {
            assert(parts.deep_view()[1] == parts@[1]@);
            return Step::Load { id: parts[1].clone() };
        }
        Step::Done { go_on: true }
    }

    /// Begins to fetch the models of the provider.
    pub fn refresh_models(&mut self) -> (r: Step)
        ensures
            (final(self)@, r.deep_view()) == old(self)@.refreshing(),
            final(self).editor == old(self).editor,
    {
        if self.is_busy() {
            self.say("Finish or interrupt the current operation before refreshing models.");
            return Step::Done { go_on: true };
        }
        if !self.has_model_catalog {
            self.say("Model catalog refresh is unavailable for this session.");
            return Step::Done { go_on: true };
        }
        Step::RefreshModels
    }

    fn choose_model(&mut self, id: &str) -> (r: Step)
        ensures
            (final(self)@, r.deep_view()) == old(self)@.choosing_model(id@),
            final(self).editor == old(self).editor,
    {
        if self.working_since.is_some() {
            self.say("Finish or interrupt the current operation before switching model.");
            return Step::Done { go_on: true };
        }
        match find_model(&self.available_models, id) {
            Some(profile) => {
                let effort = match &self.reasoning_effort {
                    Some(effort) => effort.clone(),
                    None => owned("off"),
                };
                if !profile.supports_effort_str(effort.as_str()) {
                    let head = concat3(
                        "Model '",
                        profile.id.as_str(),
                        "' does not support effort '",
                    );
                    let head = concat3(head.as_str(), effort.as_str(), "'. Supported: ");
                    let names = joined(&profile.effort_names(), ", ");
                    self.status = concat2(head.as_str(), names.as_str());
                    return Step::Done { go_on: true };
                }
                Step::Send {
                    command: AgentCommand::SetModel {
                        model: profile.id.clone(),
                        max_tokens: profile.max_output_tokens,
                        context_window: profile.context_window,
                    },
                    next: AfterSend::Model { name: profile.id },
                }
            },
            None => {
                self.status = concat3("Unknown model: ", id, ". Use /model to list models.");
                Step::Done { go_on: true }
            },
        }
    }

    fn run_model_command(&mut self, parts: &Vec<String>) -> (r: Step)
        requires
            parts.len() >= 1,
        ensures
            (final(self)@, r.deep_view()) == old(self)@.on_model_command(parts.deep_view()),
            final(self).editor == old(self).editor,
    {
        if parts.len() == 1 {
            let current = match &self.current_model {
                Some(model) => model.clone(),
                None => owned("unknown"),
            };
            let head = concat3("Current model: ", current.as_str(), ". Available: ");
            let choices = joined(&model_ids(&self.available_models), ", ");
            self.status = concat2(head.as_str(), choices.as_str());
            return Step::Done { go_on: true };
        }
        if parts.len() != 2 {
            self.say("Usage: /model <name|refresh>");
            return Step::Done { go_on: true };
        }
        assert(parts.deep_view()[1] == parts@[1]@);
        if same_text(parts[1].as_str(), "refresh") {
            return self.refresh_models();
        }
        self.choose_model(parts[1].as_str())
    }

    fn supported_efforts(&self) -> (r: Vec<String>)
        ensures
            r.deep_view() == self@.efforts(),
    {
        match self.find_current_model() {
            Some(profile) => profile.effort_names(),
            None => {
                let mut efforts: Vec<String> = Vec::new();
                efforts.push(owned("off"));
                assert(efforts.deep_view() =~= seq!["off"@]);
                efforts
            },
        }
    }

    fn run_effort_command(&mut self, parts: &Vec<String>) -> (r: Step)
        requires
            parts.len() >= 1,
        ensures
            (final(self)@, r.deep_view()) == old(self)@.on_effort_command(parts.deep_view()),
            final(self).editor == old(self).editor,
    {
        let supported = self.supported_efforts();
        if parts.len() == 1 {
            let current = match &self.reasoning_effort {
                Some(effort) => effort.clone(),
                None => owned("off"),
            };
            let head = concat3("Current reasoning effort: ", current.as_str(), ". Available: ");
            self.status = concat2(head.as_str(), joined(&supported, ", ").as_str());
            return Step::Done { go_on: true };
        }
        if parts.len() != 2 {
            self.say("Usage: /effort <off|minimal|low|medium|high|max|xhigh>");
            return Step::Done { go_on: true };
        }
        if self.working_since.is_some() {
            self.say("Finish or interrupt the current operation before changing effort.");
            return Step::Done { go_on: true };
        }
        assert(parts.deep_view()[1] == parts@[1]@);
        let effort = to_ascii_lowercase(parts[1].as_str());
        if !lists(&supported, effort.as_str()) {
            let head = concat3(
                "Unsupported reasoning effort: ",
                parts[1].as_str(),
                ". Available: ",
            );
            self.status = concat2(head.as_str(), joined(&supported, ", ").as_str());
            return Step::Done { go_on: true };
        }
        Step::Send {
            command: AgentCommand::SetReasoningEffort { effort: Some(effort.clone()) },
            next: AfterSend::Effort { effort },
        }
    }

    /// Puts a message of the user into the transcript; the agent works on it from now on.
    pub fn ask(&mut self, text: &str, now: u64)
        ensures
            final(self)@ == old(self)@.asking(text@, now),
            final(self).editor == old(self).editor,
    {
        self.show("user", text);
        let ghost before = self.core_messages.deep_view();
        self.core_messages.push(Message::of_text(Role::User, text));
        assert(self.core_messages.deep_view() =~= before.push(text_message(Role::User, text@)));
        self.streaming_text = String::new();
        assert(self.streaming_text@ =~= Seq::empty());
        self.working_since = Some(now);
        self.interrupt_requested = false;
    }

    fn run_plan_command(&mut self, input: &str, parts: &Vec<String>, now: u64) -> (r: Step)
        requires
            parts.len() >= 1,
        ensures
            (final(self)@, r.deep_view()) == old(self)@.on_plan_command(
                input@,
                parts.deep_view(),
                now,
            ),
            final(self).editor == old(self).editor,
    {
        if parts.len() == 2 {
            assert(parts.deep_view()[1] == parts@[1]@);
            let word = to_ascii_lowercase(parts[1].as_str());
            if same_text(word.as_str(), "off") {
                return self.set_plan_mode(false);
            }
        }
        let task = match without_prefix(input, "/plan") {
            Some(rest) => trimmed(rest.as_str()),
            None => String::new(),
        };
        assert(strip_prefix(input@, "/plan"@) is None ==> task@ =~= Seq::empty());
        if task.as_str().is_empty() {
            return self.set_plan_mode(true);
        }
        self.ask(task.as_str(), now);
        self.say("Planning...");
        Step::Send {
            command: AgentCommand::PlanProcess { message: task },
            next: AfterSend::Message,
        }
    }

    /// Carries out a command of the user.
    #[verifier::spinoff_prover]
    pub fn handle_slash_command(&mut self, input: &str, at: &Moment) -> (r: Step)
        ensures
            (final(self)@, r.deep_view()) == old(self)@.on_command(input@, at.deep_view()),
            final(self).editor == old(self).editor,
    {
        let parts = split_words(input);
        let name = if parts.len() == 0 {
            ""
        } else {
            assert(parts.deep_view()[0] == parts@[0]@);
            parts[0].as_str()
        };
        proof {
            reveal_strlit("");
            reveal_strlit("/exit");
            reveal_strlit("/quit");
            reveal_strlit("/clear");
            reveal_strlit("/sessions");
            reveal_strlit("/permissions");
            reveal_strlit("/resume");
            reveal_strlit("/model");
            reveal_strlit("/effort");
            reveal_strlit("/plan");
            reveal_strlit("/act");
            reveal_strlit("/help");
            assert(parts.len() == 0 ==> name@.len() == 0);
        }
        if same_text(name, "/exit") || same_text(name, "/quit") {
            self.running = false;
            return Step::Done { go_on: false };
        }
        if same_text(name, "/clear") {
            return self.clear_conversation(at);
        }
        if same_text(name, "/sessions") {
            return self.open_session_picker();
        }
        if same_text(name, "/permissions") {
            return Step::Send {
                command: AgentCommand::PermissionsSnapshot,
                next: AfterSend::Permissions,
            };
        }
        if same_text(name, "/resume") {
            return self.resume_by_id(&parts);
        }
        if same_text(name, "/model") {
            return self.run_model_command(&parts);
        }
        if same_text(name, "/effort") {
            return self.run_effort_command(&parts);
        }
        if same_text(name, "/plan") {
            return self.run_plan_command(input, &parts, at.ticks);
        }
        if same_text(name, "/act") {
            return self.set_plan_mode(false);
        }
        if same_text(name, "/help") {
            self.say(HELP_STATUS);
            self.show("assistant", HELP_TEXT);
            return Step::Done { go_on: true };
        }
        self.status = concat3(
            "Unknown command: ",
            name,
            ". Type /help for available commands.",
        );
        Step::Done { go_on: true }
    }
}

/// Whether a command leaves the session alone and adds at most to the transcript.
pub open spec fn keeps_to_the_session(state: AppModel, outcome: (AppModel, StepModel)) -> bool {
    &&& outcome.0.session == state.session
    &&& state.messages.is_prefix_of(outcome.0.messages)
    &&& outcome.1 !is List
    &&& outcome.1 !is Load
    &&& outcome.1 !is Save
    &&& outcome.1 !is RefreshModels
}

proof fn lemma_sessions_when_busy(state: AppModel, parts: Seq<Seq<char>>, at: MomentModel)
    requires
        state.busy(),
        parts.len() >= 1,
    ensures
        keeps_to_the_session(state, state.clearing(at)),
        keeps_to_the_session(state, state.opening_picker()),
        keeps_to_the_session(state, state.resuming(parts)),
{
}

proof fn lemma_models_when_busy(state: AppModel, parts: Seq<Seq<char>>)
    requires
        state.busy(),
        parts.len() >= 1,
    ensures
        keeps_to_the_session(state, state.on_model_command(parts)),
{
    if parts.len() == 2 {
        assert(keeps_to_the_session(state, state.refreshing()));
        assert(keeps_to_the_session(state, state.choosing_model(parts[1])));
    }
}

proof fn lemma_efforts_and_plans(
    state: AppModel,
    input: Seq<char>,
    parts: Seq<Seq<char>>,
    now: u64,
)
    requires
        parts.len() >= 1,
    ensures
        keeps_to_the_session(state, state.on_effort_command(parts)),
        keeps_to_the_session(state, state.switching_mode(false)),
        keeps_to_the_session(state, state.on_plan_command(input, parts, now)),
{
    assert(keeps_to_the_session(state, state.on_effort_command(parts)));
    assert(keeps_to_the_session(state, state.switching_mode(false)));
    assert(keeps_to_the_session(state, state.switching_mode(true)));
    let task = match strip_prefix(input, "/plan"@) {
        Some(rest) => trim(rest),
        None => Seq::empty(),
    };
    assert(keeps_to_the_session(state, state.planning(task, now)));
}

/// While a turn runs or an answer is awaited, no command clears the conversation, opens another
/// session or fetches models.
#[verifier::spinoff_prover]
pub proof fn law_busy_clients_keep_their_session(state: AppModel, input: Seq<char>, at: MomentModel)
    requires
        state.busy(),
    ensures
        keeps_to_the_session(state, state.on_command(input, at)),
{
    let parts = words(input);
    if parts.len() >= 1 {
        lemma_sessions_when_busy(state, parts, at);
        lemma_models_when_busy(state, parts);
        lemma_efforts_and_plans(state, input, parts, at.ticks);
    } else {
        reveal_strlit("");
        reveal_strlit("/exit");
        reveal_strlit("/quit");
        reveal_strlit("/clear");
        reveal_strlit("/sessions");
        reveal_strlit("/permissions");
        reveal_strlit("/resume");
        reveal_strlit("/model");
        reveal_strlit("/effort");
        reveal_strlit("/plan");
        reveal_strlit("/act");
        reveal_strlit("/help");
    }
}

/// The new session of a cleared conversation has nothing in it and another id than the last, if
/// the id that it is given is another.
pub proof fn law_cleared_conversations_are_empty(state: AppModel, effort: Seq<char>, at: MomentModel)
    requires
        state.session is Some,
    ensures
        ({
            let (cleared, step) = state.after_saving(AfterSaveModel::Clear { effort }, None, at);
            &&& cleared.messages.len() == 0
            &&& cleared.core_messages.len() == 0
            &&& cleared.session matches Some(next) && next.id == at.session_id
                && next.workspace_root == (state.session->0).workspace_root && !next.has_request()
            &&& step == (StepModel::Send {
                command: CommandModel::ClearSession,
                next: AfterSendModel::Clear,
            })
        }),
{
}

} // verus!
