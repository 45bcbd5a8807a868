//! The agent between turns: taking commands, starting work and following up on it.
use crate::event::{status, status_event, AgentCommand, AgentEvent, CommandModel, EventModel};
use crate::permission_handler::{has_to_wait, must_wait};
use crate::plan_executor::{approval_of, approved_plan_instruction};
use crate::plan_review::{DecisionModel, PlanDecision};
use crate::state::{AgentPhase, AgentState, StateModel};
use crate::text::{concat3, owned};
use crate::types::{clone_messages, Message, MessageModel, ModelProfile, ProfileModel};
use vstd::prelude::*;

verus! {

/// What a command means while the agent works.
#[derive(Clone, Copy, Debug, PartialEq, Eq, Structural)]
pub enum BusyControl {
    Continue,
    Interrupt,
    Shutdown,
}

/// What a command means while the agent works. A command that was routed to a subagent
/// means nothing to the agent itself; a closed channel means a shutdown.
pub open spec fn busy_control(command: Option<CommandModel>, routed: bool) -> BusyControl {
    if routed {
        BusyControl::Continue
    } else {
        match command {
            Some(CommandModel::Interrupt) => BusyControl::Interrupt,
            Some(CommandModel::Shutdown) => BusyControl::Shutdown,
            None => BusyControl::Shutdown,
            Some(_) => BusyControl::Continue,
        }
    }
}

pub fn handle_busy_command(command: &Option<AgentCommand>, routed: bool) -> (r: (
    BusyControl,
    Option<AgentEvent>,
))
    ensures
        r.0 == busy_control(command.deep_view(), routed),
        r.1.deep_view() == (if !routed && command is Some && must_wait(command.deep_view()->0) {
            Some(status_event("Already working; press Esc to interrupt."@))
        } else {
            None
        }),
{
    if routed {
        return (BusyControl::Continue, None);
    }
    match command {
        Some(AgentCommand::Interrupt) => (BusyControl::Interrupt, None),
        Some(AgentCommand::Shutdown) => (BusyControl::Shutdown, None),
        None => (BusyControl::Shutdown, None),
        Some(command) => if has_to_wait(command) {
            (BusyControl::Continue, Some(status("Already working; press Esc to interrupt.")))
        } else {
            (BusyControl::Continue, None)
        },
    }
}

/// What is to be done outside after a command.
#[derive(Debug)]
pub enum LoopAction {
    /// Nothing.
    Idle,
    /// Cancel all subagents and leave.
    Exit,
    /// Hand the answer to the subagent that asked.
    Route { command: AgentCommand },
    /// Interrupt all subagents.
    InterruptSubagents,
    /// Tell the subagents' manager the model of the main agent.
    UpdateModel { model: String },
    /// Tell the subagents' manager which models there are.
    UpdateModels { models: Vec<ModelProfile> },
    /// Tell the subagents' manager the reasoning effort of the main agent.
    UpdateEffort { effort: Option<String> },
    /// Ask the permission policy for its snapshot.
    SnapshotPermissions,
    /// Forget the subagents of earlier turns and make a plan.
    StartPlan,
    /// Forget the subagents of earlier turns and take up a saved plan.
    ResumePlan { plan_path: String },
    /// Forget the subagents of earlier turns and run a turn.
    StartTurn,
}

#[verifier::ext_equal]
pub enum ActionModel {
    Idle,
    Exit,
    Route { command: CommandModel },
    InterruptSubagents,
    UpdateModel { model: Seq<char> },
    UpdateModels { models: Seq<ProfileModel> },
    UpdateEffort { effort: Option<Seq<char>> },
    SnapshotPermissions,
    StartPlan,
    ResumePlan { plan_path: Seq<char> },
    StartTurn,
}

impl DeepView for LoopAction {
    type V = ActionModel;

    open spec fn deep_view(&self) -> ActionModel {
        match *self {
            LoopAction::Idle => ActionModel::Idle,
            LoopAction::Exit => ActionModel::Exit,
            LoopAction::Route { command } => ActionModel::Route { command: command.deep_view() },
            LoopAction::InterruptSubagents => ActionModel::InterruptSubagents,
            LoopAction::UpdateModel { model } => ActionModel::UpdateModel { model: model@ },
            LoopAction::UpdateModels { models } => ActionModel::UpdateModels {
                models: models.deep_view(),
            },
            LoopAction::UpdateEffort { effort } => ActionModel::UpdateEffort {
                effort: effort.deep_view(),
            },
            LoopAction::SnapshotPermissions => ActionModel::SnapshotPermissions,
            LoopAction::StartPlan => ActionModel::StartPlan,
            LoopAction::ResumePlan { plan_path } => ActionModel::ResumePlan {
                plan_path: plan_path@,
            },
            LoopAction::StartTurn => ActionModel::StartTurn,
        }
    }
}

/// What follows a plan review.
#[derive(Clone, Copy, Debug, PartialEq, Eq, Structural)]
pub enum PlanFollowUp {
    /// Carry the plan out.
    Act,
    /// Cancel all subagents and wait for the next command.
    Cancel,
    /// Interrupt all subagents and wait for the next command.
    Interrupt,
    /// Cancel all subagents and leave.
    Exit,
}

/// What follows a turn.
#[derive(Clone, Copy, Debug, PartialEq, Eq, Structural)]
pub struct TurnFollowUp {
    pub interrupt_subagents: bool,
    pub cancel_subagents: bool,
    pub exit: bool,
}

/// The agent between turns.
pub struct AgentLoop {
    pub state: AgentState,
    pub model: String,
    pub max_tokens: usize,
    pub context_window: usize,
    pub outbox: Vec<AgentEvent>,
}

pub struct LoopModel {
    pub state: StateModel,
    pub model: Seq<char>,
    pub max_tokens: usize,
    pub context_window: usize,
    pub outbox: Seq<EventModel>,
}

impl View for AgentLoop {
    type V = LoopModel;

    open spec fn view(&self) -> LoopModel {
        LoopModel {
            state: self.state.deep_view(),
            model: self.model@,
            max_tokens: self.max_tokens,
            context_window: self.context_window,
            outbox: self.outbox.deep_view(),
        }
    }
}

pub open spec fn plan_mode_status(enabled: bool) -> Seq<char> {
    if enabled {
        "Plan mode enabled. New tasks will require plan approval before execution."@
    } else {
        "Agent mode enabled. New tasks will execute directly."@
    }
}

impl LoopModel {
    /// The agent at its start. A title is wanted only where titles are enabled and the
    /// user has not spoken yet.
    pub open spec fn start(
        system_prompt: Option<Seq<char>>,
        initial: Seq<MessageModel>,
        model: Seq<char>,
        max_tokens: usize,
        context_window: usize,
        effort: Option<Seq<char>>,
        session_title_enabled: bool,
    ) -> LoopModel {
        let fresh = StateModel::start(system_prompt, initial);
        LoopModel {
            state: StateModel {
                session_title_pending: fresh.session_title_pending && session_title_enabled,
                reasoning_effort: effort,
                ..fresh
            },
            model,
            max_tokens,
            context_window,
            outbox: Seq::empty(),
        }
    }

    pub open spec fn emit(self, event: EventModel) -> LoopModel {
        LoopModel { outbox: self.outbox.push(event), ..self }
    }

    pub open spec fn tell(self, message: Seq<char>) -> LoopModel {
        self.emit(status_event(message))
    }

    pub open spec fn with_state(self, state: StateModel) -> LoopModel {
        LoopModel { state, ..self }
    }

    pub open spec fn in_phase(self, phase: AgentPhase) -> LoopModel {
        self.with_state(self.state.in_phase(phase))
    }

    pub open spec fn session_updated(self) -> LoopModel {
        self.emit(EventModel::SessionUpdated { messages: self.state.messages })
    }

    pub open spec fn user_said(self, message: Seq<char>) -> LoopModel {
        self.with_state(self.state.push_user(message)).session_updated()
    }

    /// A command taken while idle, with what is to be done outside. A closed channel ends
    /// the loop.
    pub open spec fn command(self, command: Option<CommandModel>) -> (LoopModel, ActionModel) {
        match command {
            None => (self, ActionModel::Exit),
            Some(CommandModel::Shutdown) => (
                self.in_phase(AgentPhase::Finished),
                ActionModel::Exit,
            ),
            Some(CommandModel::Interrupt) => (
                self.emit(EventModel::Interrupted).in_phase(AgentPhase::Idle),
                ActionModel::InterruptSubagents,
            ),
            Some(CommandModel::SetPlanMode { enabled }) => (
                self.with_state(
                    StateModel { plan_mode_enabled: enabled, ..self.state },
                ).tell(plan_mode_status(enabled)),
                ActionModel::Idle,
            ),
            Some(CommandModel::SetModel { model, max_tokens, context_window }) => (
                LoopModel { model, max_tokens, context_window, ..self }.tell(
                    "Model switched to "@ + model + "."@,
                ),
                ActionModel::UpdateModel { model },
            ),
            Some(CommandModel::SetAvailableModels { models }) => (
                self,
                ActionModel::UpdateModels { models },
            ),
            Some(CommandModel::SetReasoningEffort { effort }) => (
                self.with_state(StateModel { reasoning_effort: effort, ..self.state }).tell(
                    "Reasoning effort set to "@ + (match effort {
                        Some(effort) => effort,
                        None => "off"@,
                    }) + "."@,
                ),
                ActionModel::UpdateEffort { effort },
            ),
            Some(CommandModel::ClearSession) => (
                self.with_state(self.state.cleared()).session_updated().tell(
                    "Conversation cleared."@,
                ),
                ActionModel::Idle,
            ),
            Some(CommandModel::PermissionsSnapshot) => (self, ActionModel::SnapshotPermissions),
            Some(CommandModel::ResumePlan { plan_path }) => (
                self,
                ActionModel::ResumePlan { plan_path },
            ),
            Some(CommandModel::PlanProcess { message }) => (
                self.user_said(message),
                ActionModel::StartPlan,
            ),
            Some(CommandModel::Process { message }) => (
                self.user_said(message),
                if self.state.plan_mode_enabled {
                    ActionModel::StartPlan
                } else {
                    ActionModel::StartTurn
                },
            ),
            Some(answer) => (self, ActionModel::Route { command: answer }),
        }
    }

    /// The end of a plan review followed up.
    pub open spec fn plan_decided(self, decision: DecisionModel) -> (LoopModel, PlanFollowUp) {
        match decision {
            DecisionModel::Approved { plan } => (
                self.tell(
                    if self.state.plan_mode_enabled {
                        "Executing approved plan. Plan mode remains enabled for future tasks."@
                    } else {
                        "Executing approved plan."@
                    },
                ).user_said(approval_of(plan)),
                PlanFollowUp::Act,
            ),
            DecisionModel::Rejected => (
                self.in_phase(AgentPhase::Idle).tell("Plan rejected."@).emit(
                    EventModel::AgentFinished { final_message: "Plan rejected."@ },
                ),
                PlanFollowUp::Cancel,
            ),
            DecisionModel::Interrupted => (
                self.emit(EventModel::Interrupted).in_phase(AgentPhase::Idle),
                PlanFollowUp::Interrupt,
            ),
            DecisionModel::Shutdown => (self.in_phase(AgentPhase::Finished), PlanFollowUp::Exit),
            DecisionModel::Failed => (
                if self.state.phase is Error {
                    self
                } else {
                    self.in_phase(AgentPhase::Idle)
                },
                PlanFollowUp::Cancel,
            ),
        }
    }

    /// The end of a turn followed up.
    pub open spec fn turn_ended(self, interrupted: bool, shutdown_requested: bool) -> (
        LoopModel,
        TurnFollowUp,
    ) {
        let stopped = if interrupted {
            self.emit(EventModel::Interrupted).in_phase(AgentPhase::Idle)
        } else {
            self
        };
        (
            if shutdown_requested {
                stopped.in_phase(AgentPhase::Finished)
            } else {
                stopped
            },
            TurnFollowUp {
                interrupt_subagents: interrupted,
                cancel_subagents: shutdown_requested || stopped.state.phase is Error,
                exit: shutdown_requested,
            },
        )
    }
}

impl AgentLoop {
    pub fn new(
        system_prompt: Option<String>,
        initial_messages: Option<Vec<Message>>,
        model: String,
        max_tokens: usize,
        context_window: usize,
        reasoning_effort: Option<String>,
        session_title_enabled: bool,
    ) -> (r: Self)
        ensures
            r@ == LoopModel::start(
                system_prompt.deep_view(),
                match initial_messages {
                    Some(messages) => messages.deep_view(),
                    None => Seq::empty(),
                },
                model@,
                max_tokens,
                context_window,
                reasoning_effort.deep_view(),
                session_title_enabled,
            ),
    {
        let mut state = AgentState::new(system_prompt, initial_messages);
        if !session_title_enabled {
            state.session_title_pending = false;
        }
        state.reasoning_effort = reasoning_effort;
        let r = AgentLoop { state, model, max_tokens, context_window, outbox: Vec::new() };
        assert(r.outbox.deep_view() =~= Seq::empty());
        r
    }

    /// Takes over the history once it has been normalised.
    pub fn history_normalized(&mut self, messages: Vec<Message>)
        ensures
            final(self)@ == old(self)@.with_state(
                StateModel { messages: messages.deep_view(), ..old(self)@.state },
            ),
    {
        self.state.messages = messages;
    }

    /// The state, for a turn or a plan review, which gives it back.
    pub fn lend_state(&mut self) -> (r: AgentState)
        ensures
            r.deep_view() == old(self)@.state,
            final(self)@ == old(self)@.with_state(StateModel::start(None, Seq::empty())),
    {
        let mut state = AgentState::new(None, None);
        core::mem::swap(&mut state, &mut self.state);
        state
    }

    pub fn return_state(&mut self, state: AgentState)
        ensures
            final(self)@ == old(self)@.with_state(state.deep_view()),
    {
        self.state = state;
    }

    /// The events emitted so far, which are then forgotten.
    pub fn take_events(&mut self) -> (r: Vec<AgentEvent>)
        ensures
            r.deep_view() == old(self)@.outbox,
            final(self)@ == (LoopModel { outbox: Seq::empty(), ..old(self)@ }),
    {
        let mut events: Vec<AgentEvent> = Vec::new();
        events.append(&mut self.outbox);
        assert(events.deep_view() =~= old(self)@.outbox);
        assert(self@.outbox =~= Seq::empty());
        events
    }

    fn emit(&mut self, event: AgentEvent)
        ensures
            final(self)@ == old(self)@.emit(event.deep_view()),
    {
        self.outbox.push(event);
        assert(self@.outbox =~= old(self)@.outbox.push(event.deep_view()));
    }

    fn tell(&mut self, message: &str)
        ensures
            final(self)@ == old(self)@.tell(message@),
    {
        self.emit(status(message));
    }

    fn session_updated(&mut self)
        ensures
            final(self)@ == old(self)@.session_updated(),
    {
        let messages = clone_messages(&self.state.messages);
        self.emit(AgentEvent::SessionUpdated { messages });
    }

    fn user_said(&mut self, message: &str)
        ensures
            final(self)@ == old(self)@.user_said(message@),
    {
        self.state.push_user(message);
        self.session_updated();
    }

    /// Takes a command while idle; gives what is to be done outside.
    pub fn command(&mut self, command: Option<AgentCommand>) -> (r: LoopAction)
        ensures
            (final(self)@, r.deep_view()) == old(self)@.command(command.deep_view()),
    {
        let command = match command {
            Some(command) => command,
            None => {
                return LoopAction::Exit;
            },
        };
        match command {
            AgentCommand::Shutdown => {
                self.state.phase = AgentPhase::Finished;
                LoopAction::Exit
            },
            AgentCommand::Interrupt => {
                self.emit(AgentEvent::Interrupted);
                self.state.phase = AgentPhase::Idle;
                LoopAction::InterruptSubagents
            },
            AgentCommand::SetPlanMode { enabled } => {
                self.state.plan_mode_enabled = enabled;
                if enabled {
                    self.tell(
                        "Plan mode enabled. New tasks will require plan approval before execution.",
                    );
                } else {
                    self.tell("Agent mode enabled. New tasks will execute directly.");
                }
                LoopAction::Idle
            },
            AgentCommand::SetModel { model, max_tokens, context_window } => {
                let message = concat3("Model switched to ", model.as_str(), ".");
                self.model = model.clone();
                self.max_tokens = max_tokens;
                self.context_window = context_window;
                self.tell(message.as_str());
                LoopAction::UpdateModel { model }
            },
            AgentCommand::SetAvailableModels { models } => LoopAction::UpdateModels { models },
            AgentCommand::SetReasoningEffort { effort } => {
                let label = match &effort {
                    Some(effort) => effort.clone(),
                    None => owned("off"),
                };
                self.state.reasoning_effort = effort.clone();
                let message = concat3("Reasoning effort set to ", label.as_str(), ".");
                self.tell(message.as_str());
                LoopAction::UpdateEffort { effort }
            },
            AgentCommand::ClearSession => {
                self.state.clear_conversation();
                self.session_updated();
                self.tell("Conversation cleared.");
                LoopAction::Idle
            },
            AgentCommand::PermissionsSnapshot => LoopAction::SnapshotPermissions,
            AgentCommand::ResumePlan { plan_path } => LoopAction::ResumePlan { plan_path },
            AgentCommand::PlanProcess { message } => {
                self.user_said(message.as_str());
                LoopAction::StartPlan
            },
            AgentCommand::Process { message } => {
                let plan_first = self.state.plan_mode_enabled;
                self.user_said(message.as_str());
                if plan_first {
                    LoopAction::StartPlan
                } else {
                    LoopAction::StartTurn
                }
            },
            other => LoopAction::Route { command: other },
        }
    }

    /// Reports the snapshot of the permission policy.
    pub fn permissions_snapshot(&mut self, lines: Vec<String>)
        ensures
            final(self)@ == old(self)@.emit(
                EventModel::PermissionsSnapshot { lines: lines.deep_view() },
            ),
    {
        self.emit(AgentEvent::PermissionsSnapshot { lines });
    }

    /// Follows up on the end of a plan review.
    pub fn handle_plan_decision(&mut self, decision: PlanDecision) -> (r: PlanFollowUp)
        ensures
            (final(self)@, r) == old(self)@.plan_decided(decision.deep_view()),
    {
        match decision {
            PlanDecision::Approved { plan } => {
                if self.state.plan_mode_enabled {
                    self.tell(
                        "Executing approved plan. Plan mode remains enabled for future tasks.",
                    );
                } else {
                    self.tell("Executing approved plan.");
                }
                let message = approved_plan_instruction(plan.as_str());
                self.user_said(message.as_str());
                PlanFollowUp::Act
            },
            PlanDecision::Rejected => {
                self.state.phase = AgentPhase::Idle;
                self.tell("Plan rejected.");
                self.emit(AgentEvent::AgentFinished { final_message: owned("Plan rejected.") });
                PlanFollowUp::Cancel
            },
            PlanDecision::Interrupted => {
                self.emit(AgentEvent::Interrupted);
                self.state.phase = AgentPhase::Idle;
                PlanFollowUp::Interrupt
            },
            PlanDecision::Shutdown => {
                self.state.phase = AgentPhase::Finished;
                PlanFollowUp::Exit
            },
            PlanDecision::Failed => {
                if self.state.phase != AgentPhase::Error {
                    self.state.phase = AgentPhase::Idle;
                }
                PlanFollowUp::Cancel
            },
        }
    }

    /// Follows up on the end of a turn.
    pub fn turn_ended(&mut self, interrupted: bool, shutdown_requested: bool) -> (r: TurnFollowUp)
        ensures
            (final(self)@, r) == old(self)@.turn_ended(interrupted, shutdown_requested),
    {
        if interrupted {
            self.emit(AgentEvent::Interrupted);
            self.state.phase = AgentPhase::Idle;
        }
        let failed = self.state.phase == AgentPhase::Error;
        if shutdown_requested {
            self.state.phase = AgentPhase::Finished;
        }
        TurnFollowUp {
            interrupt_subagents: interrupted,
            cancel_subagents: shutdown_requested || failed,
            exit: shutdown_requested,
        }
    }
}

/// In plan mode no message is acted on before a plan was reviewed.
pub proof fn law_plan_mode_plans_first(m: LoopModel, message: Seq<char>)
    requires
        m.state.plan_mode_enabled,
    ensures
        m.command(Some(CommandModel::Process { message })).1 is StartPlan,
{
}

/// A plan that was not approved is not carried out, and adds nothing to the conversation.
pub proof fn law_unapproved_plans_are_not_carried_out(m: LoopModel, decision: DecisionModel)
    requires
        !(decision is Approved),
    ensures
        !(m.plan_decided(decision).1 is Act),
        m.plan_decided(decision).0.state.messages == m.state.messages,
{
}

/// Commands that only configure the agent leave the conversation alone.
pub proof fn law_settings_leave_the_conversation(m: LoopModel, command: CommandModel)
    requires
        command is SetPlanMode || command is SetModel || command is SetAvailableModels || command
            is SetReasoningEffort || command is PermissionsSnapshot,
    ensures
        m.command(Some(command)).0.state.messages == m.state.messages,
{
}

} // verus!
