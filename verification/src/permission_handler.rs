//! Waiting for the user's answers about permissions and file changes.
use crate::event::{status, status_event, AgentCommand, AgentEvent, CommandModel, EventModel};
use crate::text::same_text;
use crate::types::{ApprovalScope, EvaluationModel, PermissionEvaluation};
use vstd::prelude::*;

verus! {

/// How a wait for an answer goes on after a command.
#[derive(Clone, Copy, Debug, PartialEq, Eq, Structural)]
pub enum PermissionOutcome {
    Approved(ApprovalScope),
    Denied,
    Interrupted,
    Shutdown,
}

/// How a file change review ends.
#[derive(Clone, Copy, Debug, PartialEq, Eq, Structural)]
pub enum FilePreviewOutcome {
    Approved,
    Denied,
    Interrupted,
    Shutdown,
}

/// Whether a command starts or configures work, which has to wait.
pub open spec fn must_wait(command: CommandModel) -> bool {
    match command {
        CommandModel::Process { .. } => true,
        CommandModel::PlanProcess { .. } => true,
        CommandModel::ResumePlan { .. } => true,
        CommandModel::SetPlanMode { .. } => true,
        CommandModel::SetModel { .. } => true,
        CommandModel::SetAvailableModels { .. } => true,
        CommandModel::SetReasoningEffort { .. } => true,
        CommandModel::ClearSession => true,
        CommandModel::PermissionsSnapshot => true,
        _ => false,
    }
}

pub fn has_to_wait(command: &AgentCommand) -> (r: bool)
    ensures
        r == must_wait(command.deep_view()),
{
    match command {
        AgentCommand::Process { .. } => true,
        AgentCommand::PlanProcess { .. } => true,
        AgentCommand::ResumePlan { .. } => true,
        AgentCommand::SetPlanMode { .. } => true,
        AgentCommand::SetModel { .. } => true,
        AgentCommand::SetAvailableModels { .. } => true,
        AgentCommand::SetReasoningEffort { .. } => true,
        AgentCommand::ClearSession => true,
        AgentCommand::PermissionsSnapshot => true,
        _ => false,
    }
}

/// What a command means to a wait for the permission with this id. The channel being
/// closed counts as a shutdown.
pub open spec fn permission_answer(
    command: Option<CommandModel>,
    request_id: Seq<char>,
) -> Option<PermissionOutcome> {
    match command {
        None => Some(PermissionOutcome::Shutdown),
        Some(CommandModel::PermissionResponse { request_id: answered, approved, scope }) =>
            if answered != request_id {
                None
            } else if approved {
                Some(PermissionOutcome::Approved(scope))
            } else {
                Some(PermissionOutcome::Denied)
            },
        Some(CommandModel::Interrupt) => Some(PermissionOutcome::Interrupted),
        Some(CommandModel::Shutdown) => Some(PermissionOutcome::Shutdown),
        Some(_) => None,
    }
}

/// What a command means to a wait for the file change review with this id.
pub open spec fn review_answer(
    command: Option<CommandModel>,
    request_id: Seq<char>,
) -> Option<FilePreviewOutcome> {
    match command {
        None => Some(FilePreviewOutcome::Shutdown),
        Some(CommandModel::FileChangePreviewResponse { request_id: answered, approved }) =>
            if answered != request_id {
                None
            } else if approved {
                Some(FilePreviewOutcome::Approved)
            } else {
                Some(FilePreviewOutcome::Denied)
            },
        Some(CommandModel::Interrupt) => Some(FilePreviewOutcome::Interrupted),
        Some(CommandModel::Shutdown) => Some(FilePreviewOutcome::Shutdown),
        Some(_) => None,
    }
}

/// What to tell the user about a command that has to wait.
pub open spec fn waiting_notice(
    command: Option<CommandModel>,
    notice: Seq<char>,
) -> Option<EventModel> {
    match command {
        Some(command) => if must_wait(command) {
            Some(status_event(notice))
        } else {
            None
        },
        None => None,
    }
}

fn notice_if_waiting(command: &Option<AgentCommand>, notice: &str) -> (r: Option<AgentEvent>)
    ensures
        r.deep_view() == waiting_notice(command.deep_view(), notice@),
{
    match command {
        Some(command) => if has_to_wait(command) {
            Some(status(notice))
        } else {
            None
        },
        None => None,
    }
}

/// Takes one command while waiting for a permission: the outcome, once there is one,
/// and what to tell the user meanwhile. Commands that were routed to a subagent do not
/// come here.
pub fn wait_for_permission_response(command: Option<AgentCommand>, request_id: &str) -> (r: (
    Option<PermissionOutcome>,
    Option<AgentEvent>,
))
    ensures
        r.0 == permission_answer(command.deep_view(), request_id@),
        r.1.deep_view() == waiting_notice(
            command.deep_view(),
            "Waiting for permission; answer the prompt first."@,
        ),
{
    let notice = notice_if_waiting(&command, "Waiting for permission; answer the prompt first.");
    let outcome = match command {
        None => Some(PermissionOutcome::Shutdown),
        Some(AgentCommand::PermissionResponse { request_id: answered, approved, scope }) => {
            if !same_text(answered.as_str(), request_id) {
                None
            } else if approved {
                Some(PermissionOutcome::Approved(scope))
            } else {
                Some(PermissionOutcome::Denied)
            }
        },
        Some(AgentCommand::Interrupt) => Some(PermissionOutcome::Interrupted),
        Some(AgentCommand::Shutdown) => Some(PermissionOutcome::Shutdown),
        Some(_) => None,
    };
    (outcome, notice)
}

/// Takes one command while waiting for a file change review.
pub fn wait_for_file_preview_response(command: Option<AgentCommand>, request_id: &str) -> (r: (
    Option<FilePreviewOutcome>,
    Option<AgentEvent>,
))
    ensures
        r.0 == review_answer(command.deep_view(), request_id@),
        r.1.deep_view() == waiting_notice(
            command.deep_view(),
            "Waiting for file change review; answer the prompt first."@,
        ),
{
    let notice = notice_if_waiting(
        &command,
        "Waiting for file change review; answer the prompt first.",
    );
    let outcome = match command {
        None => Some(FilePreviewOutcome::Shutdown),
        Some(AgentCommand::FileChangePreviewResponse { request_id: answered, approved }) => {
            if !same_text(answered.as_str(), request_id) {
                None
            } else if approved {
                Some(FilePreviewOutcome::Approved)
            } else {
                Some(FilePreviewOutcome::Denied)
            }
        },
        Some(AgentCommand::Interrupt) => Some(FilePreviewOutcome::Interrupted),
        Some(AgentCommand::Shutdown) => Some(FilePreviewOutcome::Shutdown),
        Some(_) => None,
    };
    (outcome, notice)
}

/// Why the policy forbids a call: its justification, or else its summary.
pub open spec fn denial_reason(evaluation: EvaluationModel) -> Seq<char> {
    match evaluation.justification {
        Some(reason) => reason,
        None => evaluation.summary,
    }
}

pub fn policy_denial_reason(evaluation: &PermissionEvaluation) -> (r: String)
    ensures
        r@ == denial_reason(evaluation.deep_view()),
{
    match &evaluation.justification {
        Some(reason) => reason.clone(),
        None => evaluation.summary.clone(),
    }
}

/// An answer to another request changes nothing, and nothing but an answer, an
/// interrupt or a shutdown ends the wait.
pub proof fn law_only_the_right_answer_ends_the_wait(command: CommandModel, request_id: Seq<char>)
    ensures
        permission_answer(Some(command), request_id) is Some ==> {
            ||| command is Interrupt
            ||| command is Shutdown
            ||| command matches CommandModel::PermissionResponse { request_id: answered, .. }
                && answered == request_id
        },
        review_answer(Some(command), request_id) is Some ==> {
            ||| command is Interrupt
            ||| command is Shutdown
            ||| command matches CommandModel::FileChangePreviewResponse {
                request_id: answered,
                ..
            } && answered == request_id
        },
{
}

} // verus!
