//! The commands that the agent takes and the events that it emits.
use crate::types::{
    ApprovalScope, EvaluationModel, FileChangePreview, Message, MessageModel, ModelProfile,
    PermissionEvaluation, PreviewModel, ProfileModel, Usage,
};
use serde_json::Value;
use vstd::prelude::*;

verus! {

/// Commands sent from the client to the agent.
#[derive(Debug)]
pub enum AgentCommand {
    /// Start processing a user message.
    Process { message: String },
    /// Start processing a user message in plan-first mode.
    PlanProcess { message: String },
    /// Take up the review of a plan that was saved earlier.
    ResumePlan { plan_path: String },
    /// Enable or disable persistent plan-first mode.
    SetPlanMode { enabled: bool },
    /// Change the model used by subsequent turns.
    SetModel { model: String, max_tokens: usize, context_window: usize },
    /// Replace the live model catalog used to validate subagent overrides.
    SetAvailableModels { models: Vec<ModelProfile> },
    /// Change reasoning depth used by subsequent requests. `None` disables it.
    SetReasoningEffort { effort: Option<String> },
    /// Clear conversation state while preserving the system prompt.
    ClearSession,
    /// Request a read-only snapshot of the active permissions policy.
    PermissionsSnapshot,
    /// Respond to a plan approval request.
    PlanResponse { request_id: String, approved: bool },
    /// Comment on a plan instead of approving or rejecting it.
    PlanFeedback { request_id: String, feedback: String },
    /// Interrupt the current agent turn and return to idle.
    Interrupt,
    /// Respond to a permission request.
    PermissionResponse { request_id: String, approved: bool, scope: ApprovalScope },
    /// Respond to a file change preview request.
    FileChangePreviewResponse { request_id: String, approved: bool },
    /// Shut down gracefully.
    Shutdown,
}

#[verifier::ext_equal]
pub enum CommandModel {
    Process { message: Seq<char> },
    PlanProcess { message: Seq<char> },
    ResumePlan { plan_path: Seq<char> },
    SetPlanMode { enabled: bool },
    SetModel { model: Seq<char>, max_tokens: usize, context_window: usize },
    SetAvailableModels { models: Seq<ProfileModel> },
    SetReasoningEffort { effort: Option<Seq<char>> },
    ClearSession,
    PermissionsSnapshot,
    PlanResponse { request_id: Seq<char>, approved: bool },
    PlanFeedback { request_id: Seq<char>, feedback: Seq<char> },
    Interrupt,
    PermissionResponse { request_id: Seq<char>, approved: bool, scope: ApprovalScope },
    FileChangePreviewResponse { request_id: Seq<char>, approved: bool },
    Shutdown,
}

impl DeepView for AgentCommand {
    type V = CommandModel;

    open spec fn deep_view(&self) -> CommandModel {
        match *self {
            AgentCommand::Process { message } => CommandModel::Process { message: message@ },
            AgentCommand::PlanProcess { message } => CommandModel::PlanProcess {
                message: message@,
            },
            AgentCommand::ResumePlan { plan_path } => CommandModel::ResumePlan {
                plan_path: plan_path@,
            },
            AgentCommand::SetPlanMode { enabled } => CommandModel::SetPlanMode { enabled },
            AgentCommand::SetModel { model, max_tokens, context_window } =>
                CommandModel::SetModel { model: model@, max_tokens, context_window },
            AgentCommand::SetAvailableModels { models } => CommandModel::SetAvailableModels {
                models: models.deep_view(),
            },
            AgentCommand::SetReasoningEffort { effort } => CommandModel::SetReasoningEffort {
                effort: effort.deep_view(),
            },
            AgentCommand::ClearSession => CommandModel::ClearSession,
            AgentCommand::PermissionsSnapshot => CommandModel::PermissionsSnapshot,
            AgentCommand::PlanResponse { request_id, approved } => CommandModel::PlanResponse {
                request_id: request_id@,
                approved,
            },
            AgentCommand::PlanFeedback { request_id, feedback } => CommandModel::PlanFeedback {
                request_id: request_id@,
                feedback: feedback@,
            },
            AgentCommand::Interrupt => CommandModel::Interrupt,
            AgentCommand::PermissionResponse { request_id, approved, scope } =>
                CommandModel::PermissionResponse { request_id: request_id@, approved, scope },
            AgentCommand::FileChangePreviewResponse { request_id, approved } =>
                CommandModel::FileChangePreviewResponse { request_id: request_id@, approved },
            AgentCommand::Shutdown => CommandModel::Shutdown,
        }
    }
}

/// Events emitted from the agent to the client.
#[derive(Debug)]
pub enum AgentEvent {
    /// A user-facing status update for the current agent activity.
    StatusUpdate { message: String },
    /// A streaming text delta.
    TextDelta(String),
    /// A streaming reasoning delta.
    ReasoningDelta(String),
    /// A tool call is about to be executed.
    ToolCallStarted { id: String, name: String, input: Value },
    /// A tool call has completed successfully.
    ToolCallCompleted { id: String, name: String, result: String },
    /// A tool call failed.
    ToolCallFailed { id: String, name: String, error: String },
    /// Permission is needed for a tool call.
    PermissionNeeded {
        request_id: String,
        tool_name: String,
        input: Value,
        evaluation: PermissionEvaluation,
    },
    /// A file-content change must be reviewed before it is written.
    FileChangePreviewNeeded {
        request_id: String,
        tool_name: String,
        input: Value,
        preview: FileChangePreview,
    },
    /// The agent has produced a plan and needs user approval before acting.
    PlanApprovalNeeded { request_id: String, plan: String, plan_path: String, restored: bool },
    /// One model request has completed.
    TurnComplete(Usage),
    /// The current agent turn was interrupted.
    Interrupted,
    /// The agent run has finished.
    AgentFinished { final_message: String },
    /// The full canonical conversation state changed.
    SessionUpdated { messages: Vec<Message> },
    /// A concise title captured from the first response of a new session.
    SessionTitleGenerated { title: String },
    /// The agent encountered an error.
    AgentError { message: String },
    /// A read-only snapshot of the active permissions policy.
    PermissionsSnapshot { lines: Vec<String> },
    /// A subagent has started working on a task.
    SubagentStarted { task_id: String, task: String },
    /// A subagent has completed its task.
    SubagentCompleted { task_id: String, result: String },
    /// An event emitted by a subagent, forwarded to the parent's client.
    SubagentEvent { task_id: String, event: Box<AgentEvent> },
}

#[verifier::ext_equal]
pub enum EventModel {
    StatusUpdate { message: Seq<char> },
    TextDelta(Seq<char>),
    ReasoningDelta(Seq<char>),
    ToolCallStarted { id: Seq<char>, name: Seq<char>, input: Value },
    ToolCallCompleted { id: Seq<char>, name: Seq<char>, result: Seq<char> },
    ToolCallFailed { id: Seq<char>, name: Seq<char>, error: Seq<char> },
    PermissionNeeded {
        request_id: Seq<char>,
        tool_name: Seq<char>,
        input: Value,
        evaluation: EvaluationModel,
    },
    FileChangePreviewNeeded {
        request_id: Seq<char>,
        tool_name: Seq<char>,
        input: Value,
        preview: PreviewModel,
    },
    PlanApprovalNeeded {
        request_id: Seq<char>,
        plan: Seq<char>,
        plan_path: Seq<char>,
        restored: bool,
    },
    TurnComplete(Usage),
    Interrupted,
    AgentFinished { final_message: Seq<char> },
    SessionUpdated { messages: Seq<MessageModel> },
    SessionTitleGenerated { title: Seq<char> },
    AgentError { message: Seq<char> },
    PermissionsSnapshot { lines: Seq<Seq<char>> },
    SubagentStarted { task_id: Seq<char>, task: Seq<char> },
    SubagentCompleted { task_id: Seq<char>, result: Seq<char> },
    SubagentEvent { task_id: Seq<char>, event: Box<EventModel> },
}

/// The mathematical form of an event.
pub open spec fn event_model(event: AgentEvent) -> EventModel
    decreases event,
{
    match event {
        AgentEvent::StatusUpdate { message } => EventModel::StatusUpdate { message: message@ },
        AgentEvent::TextDelta(text) => EventModel::TextDelta(text@),
        AgentEvent::ReasoningDelta(text) => EventModel::ReasoningDelta(text@),
        AgentEvent::ToolCallStarted { id, name, input } => EventModel::ToolCallStarted {
            id: id@,
            name: name@,
            input,
        },
        AgentEvent::ToolCallCompleted { id, name, result } => EventModel::ToolCallCompleted {
            id: id@,
            name: name@,
            result: result@,
        },
        AgentEvent::ToolCallFailed { id, name, error } => EventModel::ToolCallFailed {
            id: id@,
            name: name@,
            error: error@,
        },
        AgentEvent::PermissionNeeded { request_id, tool_name, input, evaluation } =>
            EventModel::PermissionNeeded {
            request_id: request_id@,
            tool_name: tool_name@,
            input,
            evaluation: evaluation.deep_view(),
        },
        AgentEvent::FileChangePreviewNeeded { request_id, tool_name, input, preview } =>
            EventModel::FileChangePreviewNeeded {
            request_id: request_id@,
            tool_name: tool_name@,
            input,
            preview: preview.deep_view(),
        },
        AgentEvent::PlanApprovalNeeded { request_id, plan, plan_path, restored } =>
            EventModel::PlanApprovalNeeded {
            request_id: request_id@,
            plan: plan@,
            plan_path: plan_path@,
            restored,
        },
        AgentEvent::TurnComplete(usage) => EventModel::TurnComplete(usage),
        AgentEvent::Interrupted => EventModel::Interrupted,
        AgentEvent::AgentFinished { final_message } => EventModel::AgentFinished {
            final_message: final_message@,
        },
        AgentEvent::SessionUpdated { messages } => EventModel::SessionUpdated {
            messages: messages.deep_view(),
        },
        AgentEvent::SessionTitleGenerated { title } => EventModel::SessionTitleGenerated {
            title: title@,
        },
        AgentEvent::AgentError { message } => EventModel::AgentError { message: message@ },
        AgentEvent::PermissionsSnapshot { lines } => EventModel::PermissionsSnapshot {
            lines: lines.deep_view(),
        },
        AgentEvent::SubagentStarted { task_id, task } => EventModel::SubagentStarted {
            task_id: task_id@,
            task: task@,
        },
        AgentEvent::SubagentCompleted { task_id, result } => EventModel::SubagentCompleted {
            task_id: task_id@,
            result: result@,
        },
        AgentEvent::SubagentEvent { task_id, event } => EventModel::SubagentEvent {
            task_id: task_id@,
            event: Box::new(event_model(*event)),
        },
    }
}

impl DeepView for AgentEvent {
    type V = EventModel;

    open spec fn deep_view(&self) -> EventModel {
        event_model(*self)
    }
}

/// A status update with the given text.
pub open spec fn status_event(message: Seq<char>) -> EventModel {
    EventModel::StatusUpdate { message }
}

pub fn status(message: &str) -> (r: AgentEvent)
    ensures
        r.deep_view() == status_event(message@),
{
    AgentEvent::StatusUpdate { message: message.to_owned() }
}

} // verus!
