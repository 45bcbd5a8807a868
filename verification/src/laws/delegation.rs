//! What becomes of the runs of subagents.
use crate::event::EventModel;
use crate::subagent::TaskStatus;
use crate::subagent_run::{ExitModel, ReactionModel, RunModel};
use crate::types::Usage;
use vstd::prelude::*;

verus! {

/// An agent that reports an error has failed with that error, one that was interrupted is
/// interrupted, and one that answers has completed with its answer.
pub proof fn law_the_last_word_decides(run: RunModel, message: Seq<char>)
    ensures
        ({
            let over = run.after(EventModel::AgentError { message }).concluded(ExitModel::Clean);
            &&& over.status is Failed
            &&& over.error == Some(message)
            &&& over.result == run.result
            &&& over.task_id == run.task_id
            &&& over.ended
        }),
        ({
            let over = run.after(EventModel::Interrupted).concluded(ExitModel::Clean);
            &&& over.status is Interrupted
            &&& over.error == Some("Subagent interrupted"@)
            &&& over.result == run.result
            &&& over.task_id == run.task_id
            &&& over.ended
        }),
        ({
            let over = run.after(EventModel::AgentFinished { final_message: message }).concluded(
                ExitModel::Clean,
            );
            &&& over.status is Completed
            &&& over.result == Some(message)
            &&& over.error == run.error
            &&& over.task_id == run.task_id
            &&& over.ended
        }),
{
}

/// Only an answer, an error or an interruption means anything to the run itself.
pub proof fn law_other_events_leave_the_run(run: RunModel, event: EventModel)
    requires
        !(event is AgentFinished),
        !(event is AgentError),
        !(event is Interrupted),
    ensures
        run.after(event) == run,
{
}

/// A run after some events.
pub open spec fn run_after(run: RunModel, events: Seq<EventModel>) -> RunModel
    decreases events.len(),
{
    if events.len() == 0 {
        run
    } else {
        run_after(run, events.drop_last()).after(events.last())
    }
}

/// A run completes only if its agent gave an answer, and what it completes with is an answer that
/// its agent gave; it must also have ended cleanly.
pub proof fn law_runs_complete_only_with_an_answer(
    task_id: Seq<char>,
    events: Seq<EventModel>,
    exit: ExitModel,
)
    ensures
        ({
            let over = run_after(RunModel::started(task_id), events).concluded(exit);
            &&& over.task_id == task_id
            &&& over.status is Completed ==> exit is Clean && over.result is Some
            &&& over.result is Some ==> exists|i: int|
                0 <= i < events.len() && #[trigger] events[i] == (EventModel::AgentFinished {
                    final_message: over.result->0,
                })
        }),
{
    lemma_results_are_answers(task_id, events);
}

proof fn lemma_results_are_answers(task_id: Seq<char>, events: Seq<EventModel>)
    ensures
        ({
            let run = run_after(RunModel::started(task_id), events);
            &&& run.task_id == task_id
            &&& run.status is Completed ==> run.result is Some
            &&& run.result is Some ==> exists|i: int|
                0 <= i < events.len() && #[trigger] events[i] == (EventModel::AgentFinished {
                    final_message: run.result->0,
                })
        }),
    decreases events.len(),
{
    if events.len() > 0 {
        let front = events.drop_last();
        lemma_results_are_answers(task_id, front);
        let before = run_after(RunModel::started(task_id), front);
        let run = run_after(RunModel::started(task_id), events);
        if let EventModel::AgentFinished { final_message } = events.last() {
            assert(events[events.len() - 1] == (EventModel::AgentFinished {
                final_message: run.result->0,
            }));
        } else if run.result is Some {
            let i = choose|i: int|
                0 <= i < front.len() && #[trigger] front[i] == (EventModel::AgentFinished {
                    final_message: before.result->0,
                });
            assert(events[i] == front[i]);
        }
    }
}

/// A run fails when its agent does not end cleanly: with the error that the agent reported, else
/// with how it ended. What it answered is kept.
pub proof fn law_bad_ends_fail_the_run(run: RunModel, error: Seq<char>)
    ensures
        ({
            let over = run.concluded(ExitModel::Failed { error });
            over.status is Failed && over.result == run.result && over.task_id == run.task_id && (
            run.error is None ==> over.error == Some(error)) && (run.error is Some ==> over.error
                == run.error)
        }),
        ({
            let over = run.concluded(ExitModel::Crashed { error });
            over.status is Failed && over.result == run.result && over.task_id == run.task_id && (
            run.error is None ==> over.error == Some("Subagent runtime task failed: "@ + error))
                && (run.error is Some ==> over.error == run.error)
        }),
        ({
            let over = run.concluded(ExitModel::TimedOut);
            over.status is Failed && over.result == run.result && over.task_id == run.task_id && (
            run.error is None ==> over.error == Some("Subagent cleanup timed out"@)) && (
            run.error is Some ==> over.error == run.error)
        }),
{
}

/// A run whose agent says nothing at all has failed, and says so.
pub proof fn law_silent_runs_fail(task_id: Seq<char>)
    ensures
        ({
            let over = RunModel::started(task_id).concluded(ExitModel::Clean);
            &&& over.status is Failed
            &&& over.result is None
            &&& over.error == Some("Subagent event stream closed before a terminal event"@)
            &&& over.task_id == task_id
        }),
{
}

/// A run that has a result or an error is left as it is by a clean end.
pub proof fn law_clean_ends_change_nothing(run: RunModel)
    requires
        run.result is Some || run.error is Some,
    ensures
        run.concluded(ExitModel::Clean) == run,
{
}

/// The parent's client is told of tool calls, token counts and requests for approval, as they are
/// and under the id of the task; it is not told of anything else.
pub proof fn law_told_events_are_unchanged(run: RunModel, event: EventModel)
    ensures
        ({
            let told = event is TurnComplete || event is PermissionNeeded
                || event is FileChangePreviewNeeded || event is ToolCallStarted
                || event is ToolCallCompleted || event is ToolCallFailed;
            let forward = run.reaction(event).forward;
            &&& told <==> forward is Some
            &&& told ==> forward->0 is SubagentEvent
            &&& told ==> (forward->0)->SubagentEvent_task_id == run.task_id
            &&& told ==> *((forward->0)->SubagentEvent_event) == event
        }),
{
}

/// Tokens are counted when a turn is complete, and requests are routed when they are made.
pub proof fn law_usage_and_requests_are_noticed(run: RunModel, event: EventModel)
    ensures
        event matches EventModel::TurnComplete(usage) ==> run.reaction(event).usage == Some(usage),
        !(event is TurnComplete) ==> run.reaction(event).usage is None,
        event matches EventModel::PermissionNeeded { request_id, .. } ==> run.reaction(
            event,
        ).request_id == Some(request_id),
        event matches EventModel::FileChangePreviewNeeded { request_id, .. } ==> run.reaction(
            event,
        ).request_id == Some(request_id),
        !(event is PermissionNeeded) && !(event is FileChangePreviewNeeded) ==> run.reaction(
            event,
        ).request_id is None,
{
}

/// What is shown of a run is its result; its error only where there is none.
pub proof fn law_results_are_shown_before_errors(run: RunModel)
    ensures
        run.result is Some ==> run.display() == run.result->0,
        run.result is None && run.error is Some ==> run.display() == run.error->0,
        run.result is None && run.error is None ==> run.display().len() == 0,
{
}

} // verus!
