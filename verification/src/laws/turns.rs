//! What becomes of a turn: its requests, its tool calls and their answers.
use super::planning::one_answer_more;
use crate::event::EventModel;
use crate::guard::{GuardModel, StreakModel};
use crate::json::json_model;
use crate::llm_response::{calls_in, contents_of, final_text, ResponseModel, ToolCallModel};
use crate::state::{StateModel, ToolResultModel};
use crate::text::decimal;
use crate::turn_executor::{
    InputModel, OutcomeModel, ParallelCallModel, ResumeModel, StageModel, TurnModel,
};
use crate::turn_laws::{law_resuming_keeps_the_conversation, only_grew};
use crate::types::{
    ApprovalScope, ContentBlockModel, Decision, EvaluationModel, FinishReason, MessageModel,
    PreviewModel, Role, ToolSafety,
};
use crate::validation::rejection;
use serde_json::Value;
use vstd::prelude::*;

verus! {

/// Whether all is the same that a single tool call has no part in.
pub open spec fn same_turn(m: TurnModel, n: TurnModel) -> bool {
    &&& n.model == m.model
    &&& n.max_tokens == m.max_tokens
    &&& n.context_window == m.context_window
    &&& n.managed == m.managed
    &&& n.turn == m.turn
    &&& n.interrupted == m.interrupted
    &&& n.shutdown_requested == m.shutdown_requested
    &&& n.force_text_only == m.force_text_only
    &&& n.text_only_request == m.text_only_request
    &&& n.blocked_only_rounds == m.blocked_only_rounds
    &&& n.calls == m.calls
    &&& n.taken == m.taken
    &&& n.batch == m.batch
    &&& n.state.turn_count == m.state.turn_count
    &&& n.state.total_input_tokens == m.state.total_input_tokens
    &&& n.state.total_output_tokens == m.state.total_output_tokens
    &&& n.state.plan_mode_enabled == m.state.plan_mode_enabled
    &&& n.state.reasoning_effort == m.state.reasoning_effort
    &&& n.state.session_title_pending == m.state.session_title_pending
}

/// How often a call has failed in a row.
pub open spec fn failed_before(guard: GuardModel, call: ToolCallModel) -> int {
    if guard.streak is Some && (guard.streak->0).name == call.name && (guard.streak->0).input
        == json_model(call.input) {
        (guard.streak->0).count as int
    } else {
        0
    }
}

/// What the model is told of a failed call: the error, and after the second failure in a row of the
/// same call also not to try it again.
pub open spec fn told_of_failure(guard: GuardModel, call: ToolCallModel, error: Seq<char>) -> Seq<
    char,
> {
    if failed_before(guard, call) == 1 {
        error + "\n\n"@
            + "You have executed this exact tool call twice and it failed both times. Do not retry the same tool with the same input again. Change the input, gather new information first, use a materially different approach, or stop and explain the blocker to the user."@
    } else {
        error
    }
}

/// Whether the failures of a call are counted: one more than before, and those of no other call.
pub open spec fn one_failure_more(
    before: GuardModel,
    after: GuardModel,
    call: ToolCallModel,
) -> bool {
    &&& after.streak is Some
    &&& (after.streak->0).name == call.name
    &&& (after.streak->0).input == json_model(call.input)
    &&& failed_before(before, call) < usize::MAX ==> (after.streak->0).count == failed_before(
        before,
        call,
    ) + 1
}

proof fn lemma_counted_failure(m: TurnModel, call: ToolCallModel, error: Seq<char>)
    ensures
        ({
            let (n, result) = m.counted(call, error, true);
            &&& result.tool_use_id == call.id
            &&& result.content == told_of_failure(m.guard, call, error)
            &&& result.is_error
            &&& one_failure_more(m.guard, n.guard, call)
            &&& same_turn(m, n)
            &&& n.state == m.state
            &&& n.outbox.len() >= m.outbox.len()
            &&& n.outbox.take(m.outbox.len() as int) == m.outbox
            &&& n.blocked_repeat_calls == m.blocked_repeat_calls
        }),
{
    reveal(TurnModel::counted);
    let (n, result) = m.counted(call, error, true);
    assert(n.outbox.take(m.outbox.len() as int) =~= m.outbox);
}

proof fn lemma_tracked_failure(m: TurnModel, error: Seq<char>)
    ensures
        ({
            let n = m.answer_tracked(error, true);
            let call = m.calls[m.taken - 1];
            &&& one_answer_more(
                m.state.messages,
                n.state.messages,
                call.id,
                told_of_failure(m.guard, call, error),
                true,
            )
            &&& one_failure_more(m.guard, n.guard, call)
            &&& same_turn(m, n)
            &&& n.stage is NextCall
            &&& n.outbox.len() > m.outbox.len()
            &&& n.outbox.take(m.outbox.len() as int) == m.outbox
            &&& n.outbox.last() == (EventModel::SessionUpdated { messages: n.state.messages })
            &&& n.blocked_repeat_calls == m.blocked_repeat_calls
        }),
{
    reveal(TurnModel::answer_tracked);
    let call = m.calls[m.taken - 1];
    lemma_counted_failure(m, call, error);
    let n = m.answer_tracked(error, true);
    let (counted, result) = m.counted(call, error, true);
    assert(n.state.messages.drop_last() =~= m.state.messages);
    assert(n.outbox.take(m.outbox.len() as int) =~= counted.outbox.take(m.outbox.len() as int));
}

/// What a tool returned is what the model is told of its call, once and as it is; the client is
/// told the same, and failures before it are forgotten.
pub proof fn law_results_reach_the_model(m: TurnModel, result: Seq<char>, fresh_id: Seq<char>)
    requires
        m.stage is Run || m.stage is RunPreviewed,
    ensures
        ({
            let n = m.step(
                InputModel::Executed { outcome: OutcomeModel::Completed(result) },
                fresh_id,
            );
            let call = m.calls[m.taken - 1];
            &&& one_answer_more(m.state.messages, n.state.messages, call.id, result, false)
            &&& n.guard.streak is None
            &&& same_turn(m, n)
            &&& n.stage is NextCall
            &&& n.outbox == m.outbox.push(
                EventModel::ToolCallCompleted { id: call.id, name: call.name, result },
            ).push(EventModel::SessionUpdated { messages: n.state.messages })
            &&& n.blocked_repeat_calls == m.blocked_repeat_calls
        }),
{
    reveal(TurnModel::outcome_step);
    reveal(TurnModel::executed);
    reveal(TurnModel::answer_tracked);
    reveal(TurnModel::counted);
    let n = m.step(InputModel::Executed { outcome: OutcomeModel::Completed(result) }, fresh_id);
    assert(n.state.messages.drop_last() =~= m.state.messages);
}

/// The error of a tool is what the model is told of its call, as an error; the client is told it,
/// and the failure is counted.
pub proof fn law_errors_reach_the_model(m: TurnModel, error: Seq<char>, fresh_id: Seq<char>)
    requires
        m.stage is Run || m.stage is RunPreviewed,
    ensures
        ({
            let n = m.step(InputModel::Executed { outcome: OutcomeModel::Failed(error) }, fresh_id);
            let call = m.calls[m.taken - 1];
            &&& one_answer_more(
                m.state.messages,
                n.state.messages,
                call.id,
                told_of_failure(m.guard, call, error),
                true,
            )
            &&& one_failure_more(m.guard, n.guard, call)
            &&& same_turn(m, n)
            &&& n.stage is NextCall
            &&& n.outbox.len() > m.outbox.len() + 1
            &&& n.outbox.take(m.outbox.len() as int) == m.outbox
            &&& n.outbox[m.outbox.len() as int] == (EventModel::ToolCallFailed {
                id: call.id,
                name: call.name,
                error,
            })
            &&& n.outbox.last() == (EventModel::SessionUpdated { messages: n.state.messages })
        }),
{
    reveal(TurnModel::outcome_step);
    reveal(TurnModel::executed);
    reveal(TurnModel::call_failed);
    let call = m.calls[m.taken - 1];
    let told = m.at(StageModel::Done).emit(
        EventModel::ToolCallFailed { id: call.id, name: call.name, error },
    );
    lemma_tracked_failure(told, error);
    let n = m.step(InputModel::Executed { outcome: OutcomeModel::Failed(error) }, fresh_id);
    assert(n == told.answer_tracked(error, true));
    assert(n.outbox.take(told.outbox.len() as int)[m.outbox.len() as int]
        == n.outbox[m.outbox.len() as int]);
    assert(n.outbox.take(m.outbox.len() as int) =~= told.outbox.take(m.outbox.len() as int));
    assert(told.outbox.take(m.outbox.len() as int) =~= m.outbox);
}

/// A call of a tool that there is not, or whose input or command does not fit, is not run: the
/// model is told what is wrong with it, and the failure is counted.
pub proof fn law_calls_that_cannot_run_are_answered(
    m: TurnModel,
    message: Seq<char>,
    schema: Value,
    safety: ToolSafety,
    fresh_id: Seq<char>,
)
    requires
        m.batch.len() == 0,
    ensures
        m.stage is Lookup ==> {
            let n = m.step(InputModel::ToolMissing, fresh_id);
            let call = m.calls[m.taken - 1];
            &&& one_answer_more(
                m.state.messages,
                n.state.messages,
                call.id,
                told_of_failure(m.guard, call, "Tool '"@ + call.name + "' not found"@),
                true,
            )
            &&& one_failure_more(m.guard, n.guard, call)
            &&& same_turn(m, n)
            &&& n.stage is NextCall
        },
        m.stage is Lookup ==> {
            let n = m.step(InputModel::ToolFound { schema, safety }, fresh_id);
            let call = m.calls[m.taken - 1];
            let wrong = rejection(call.name, json_model(schema), json_model(call.input));
            &&& same_turn(m, n)
            &&& wrong is None ==> n.stage == (StageModel::Preflight { safety }) && n.state == m.state
                && n.outbox == m.outbox && n.guard == m.guard
            &&& wrong is Some ==> n.stage is NextCall && one_failure_more(m.guard, n.guard, call)
                && one_answer_more(
                m.state.messages,
                n.state.messages,
                call.id,
                told_of_failure(m.guard, call, wrong->0),
                true,
            )
        },
        m.stage is Preflight ==> {
            let n = m.step(InputModel::PreflightRejected { message }, fresh_id);
            let call = m.calls[m.taken - 1];
            &&& one_answer_more(
                m.state.messages,
                n.state.messages,
                call.id,
                told_of_failure(m.guard, call, message),
                true,
            )
            &&& one_failure_more(m.guard, n.guard, call)
            &&& same_turn(m, n)
            &&& n.stage is NextCall
        },
{
    reveal(TurnModel::call_step);
    reveal(TurnModel::flush_then);
    reveal(TurnModel::resume);
    reveal(TurnModel::tool_found);
    let free = m.at(StageModel::Done);
    let call = m.calls[m.taken - 1];
    lemma_tracked_failure(
        free.tell("Adjusting tool selection..."@),
        "Tool '"@ + call.name + "' not found"@,
    );
    lemma_tracked_failure(free.tell("Adjusting tool command..."@), message);
    if let Some(wrong) = rejection(call.name, json_model(schema), json_model(call.input)) {
        lemma_tracked_failure(free.tell("Adjusting tool arguments..."@), wrong);
    }
}

/// A call that could not be checked or previewed has failed with what went wrong, and the client
/// has seen it start.
pub proof fn law_unchecked_calls_fail(m: TurnModel, message: Seq<char>, fresh_id: Seq<char>)
    requires
        m.batch.len() == 0,
    ensures
        forall|input: InputModel|
            (m.stage is Check && input == (InputModel::CheckFailed { message })) || (m.stage
                is Preview && input == (InputModel::PreviewFailed { message })) ==> {
                let n = #[trigger] m.step(input, fresh_id);
                let call = m.calls[m.taken - 1];
                let seen = if m.started {
                    m.outbox
                } else {
                    m.outbox.push(
                        EventModel::ToolCallStarted {
                            id: call.id,
                            name: call.name,
                            input: call.input,
                        },
                    )
                }.push(
                    EventModel::ToolCallFailed { id: call.id, name: call.name, error: message },
                );
                &&& one_answer_more(
                    m.state.messages,
                    n.state.messages,
                    call.id,
                    told_of_failure(m.guard, call, message),
                    true,
                )
                &&& one_failure_more(m.guard, n.guard, call)
                &&& n.stage is NextCall
                &&& n.outbox.len() > seen.len()
                &&& n.outbox.take(seen.len() as int) == seen
            },
{
    reveal(TurnModel::call_step);
    reveal(TurnModel::flush_then);
    reveal(TurnModel::resume);
    reveal(TurnModel::call_failed);
    let free = m.at(StageModel::Done);
    let call = m.calls[m.taken - 1];
    let told = free.ensure_started().emit(
        EventModel::ToolCallFailed { id: call.id, name: call.name, error: message },
    );
    lemma_tracked_failure(told, message);
}

/// A forbidden call is not run: the model is told that permission was denied and why, in the
/// policy's own words where it has any; the client is told why.
pub proof fn law_forbidden_calls_are_answered(
    m: TurnModel,
    evaluation: EvaluationModel,
    fresh_id: Seq<char>,
)
    requires
        m.stage is Check,
        m.batch.len() == 0,
        evaluation.decision is Forbidden,
    ensures
        ({
            let n = m.step(InputModel::Evaluated { evaluation }, fresh_id);
            let call = m.calls[m.taken - 1];
            let reason = if evaluation.justification is Some {
                evaluation.justification->0
            } else {
                evaluation.summary
            };
            &&& one_answer_more(
                m.state.messages,
                n.state.messages,
                call.id,
                told_of_failure(m.guard, call, "Permission denied: "@ + reason),
                true,
            )
            &&& one_failure_more(m.guard, n.guard, call)
            &&& n.stage is NextCall
            &&& same_turn(m, n)
            &&& n.outbox.contains(
                EventModel::ToolCallFailed { id: call.id, name: call.name, error: reason },
            )
        }),
{
    reveal(TurnModel::call_step);
    reveal(TurnModel::evaluated);
    reveal(TurnModel::flush_then);
    reveal(TurnModel::resume);
    reveal(TurnModel::forbid);
    let free = m.at(StageModel::Done);
    let call = m.calls[m.taken - 1];
    let reason = if evaluation.justification is Some {
        evaluation.justification->0
    } else {
        evaluation.summary
    };
    let told = free.ensure_started().emit(
        EventModel::ToolCallFailed { id: call.id, name: call.name, error: reason },
    );
    lemma_tracked_failure(told, "Permission denied: "@ + reason);
    let n = m.step(InputModel::Evaluated { evaluation }, fresh_id);
    let at = told.outbox.len() - 1;
    assert(n.outbox.take(told.outbox.len() as int)[at] == n.outbox[at]);
}

/// A call that is not forbidden goes on to its preview with what the policy said of it.
pub proof fn law_other_calls_go_on_to_their_preview(
    m: TurnModel,
    evaluation: EvaluationModel,
    fresh_id: Seq<char>,
)
    requires
        m.stage is Check,
        !(evaluation.decision is Forbidden),
    ensures
        ({
            let n = m.step(InputModel::Evaluated { evaluation }, fresh_id);
            &&& n.stage == (StageModel::Preview { evaluation })
            &&& n.state == m.state
            &&& n.outbox == m.outbox
            &&& n.guard == m.guard
            &&& same_turn(m, n)
        }),
{
    reveal(TurnModel::call_step);
    reveal(TurnModel::evaluated);
}

/// A file change that the user rejects, and a call that the user denies, is not run, and the model
/// is told so; a denial is also recorded, once and for this call alone. Failures before it are
/// forgotten.
pub proof fn law_denied_calls_are_answered(m: TurnModel, fresh_id: Seq<char>)
    ensures
        m.stage is Review ==> {
            let n = m.step(InputModel::ReviewDenied, fresh_id);
            let call = m.calls[m.taken - 1];
            &&& one_answer_more(
                m.state.messages,
                n.state.messages,
                call.id,
                "File change rejected by user"@,
                true,
            )
            &&& n.guard.streak is None
            &&& n.stage is NextCall
            &&& same_turn(m, n)
            &&& n.outbox == m.outbox.push(
                EventModel::ToolCallFailed {
                    id: call.id,
                    name: call.name,
                    error: "File change rejected by user"@,
                },
            ).push(EventModel::SessionUpdated { messages: n.state.messages })
        },
        m.stage matches StageModel::Permission { sandbox_policy, .. } ==> {
            let n = m.step(InputModel::PermissionDenied, fresh_id);
            let call = m.calls[m.taken - 1];
            &&& n.stage == (StageModel::Record {
                approved: false,
                scope: ApprovalScope::Once,
                sandbox_policy,
            })
            &&& n.state == m.state
            &&& n.outbox == m.outbox.push(
                EventModel::ToolCallFailed {
                    id: call.id,
                    name: call.name,
                    error: "Permission denied by user"@,
                },
            )
            &&& same_turn(m, n)
        },
        m.stage is Record && !m.stage->Record_approved ==> {
            let n = m.step(InputModel::Recorded, fresh_id);
            let call = m.calls[m.taken - 1];
            &&& one_answer_more(
                m.state.messages,
                n.state.messages,
                call.id,
                "Permission denied by user"@,
                true,
            )
            &&& n.guard.streak is None
            &&& n.stage is NextCall
            &&& same_turn(m, n)
        },
{
    reveal(TurnModel::outcome_step);
    reveal(TurnModel::review_denied);
    reveal(TurnModel::permission_denied);
    reveal(TurnModel::recorded);
    reveal(TurnModel::answer);
    let n = m.step(InputModel::ReviewDenied, fresh_id);
    if m.stage is Review {
        assert(n.state.messages.drop_last() =~= m.state.messages);
    }
    let n = m.step(InputModel::Recorded, fresh_id);
    if let StageModel::Record { approved, .. } = m.stage {
        if !approved {
            assert(n.state.messages.drop_last() =~= m.state.messages);
        }
    }
}

/// A call that the user approves is recorded with the scope of the approval and then run in the
/// sandbox that the policy asked for; an approved file change is made as it was shown.
pub proof fn law_approved_calls_are_run(m: TurnModel, scope: ApprovalScope, fresh_id: Seq<char>)
    ensures
        m.stage matches StageModel::Permission { sandbox_policy, .. } ==> {
            let n = m.step(InputModel::PermissionApproved { scope }, fresh_id);
            &&& n.stage == (StageModel::Record { approved: true, scope, sandbox_policy })
            &&& n.state == m.state
            &&& n.outbox == m.outbox
            &&& n.guard == m.guard
            &&& same_turn(m, n)
        },
        m.stage is Record && m.stage->Record_approved ==> {
            let n = m.step(InputModel::Recorded, fresh_id);
            &&& n.stage == (StageModel::Run { sandbox_policy: m.stage->Record_sandbox_policy })
            &&& n.state.messages == m.state.messages
            &&& n.state.phase is ExecutingTools
            &&& n.outbox == m.outbox
            &&& n.guard == m.guard
            &&& same_turn(m, n)
        },
        m.stage matches StageModel::Review { preview, .. } ==> {
            let n = m.step(InputModel::ReviewApproved, fresh_id);
            &&& n.stage == (StageModel::RunPreviewed { preview })
            &&& n.state.messages == m.state.messages
            &&& n.state.phase is ExecutingTools
            &&& n.outbox == m.outbox
            &&& n.guard == m.guard
            &&& same_turn(m, n)
        },
{
    reveal(TurnModel::outcome_step);
    reveal(TurnModel::recorded);
    reveal(TurnModel::run);
    reveal(TurnModel::run_previewed);
}

/// A call without a preview is run if it is allowed and asked about otherwise; one that may run
/// beside others waits for them. What is asked names the call, its input and what the policy said.
pub proof fn law_calls_without_a_preview(
    m: TurnModel,
    evaluation: EvaluationModel,
    fresh_id: Seq<char>,
)
    requires
        m.stage == (StageModel::Preview { evaluation }),
    ensures
        ({
            let n = m.step(InputModel::NoPreview, fresh_id);
            let call = m.calls[m.taken - 1];
            let together = m.can_run_in_parallel && evaluation.decision is Allow;
            let alone = m.batch.len() == 0 && !together;
            let seen = if m.started {
                m.outbox
            } else {
                m.outbox.push(
                    EventModel::ToolCallStarted { id: call.id, name: call.name, input: call.input },
                )
            };
            &&& together ==> n.stage is NextCall && n.state == m.state && n.outbox == m.outbox
                && n.batch.len() == m.batch.len() + 1 && n.batch.drop_last() == m.batch
                && n.batch.last().call == call && n.batch.last().sandbox_policy
                == evaluation.sandbox_policy
            &&& alone && !(evaluation.decision is Forbidden) ==> same_turn(m, n)
                && n.state.messages == m.state.messages
            &&& alone && evaluation.decision is Allow ==> n.stage == (StageModel::Run {
                sandbox_policy: evaluation.sandbox_policy,
            }) && n.state.phase is ExecutingTools && n.outbox == seen
            &&& alone && evaluation.decision is Prompt ==> n.stage == (StageModel::Permission {
                request_id: fresh_id,
                sandbox_policy: evaluation.sandbox_policy,
            }) && n.state.phase is WaitingForPermission && n.outbox == seen.push(
                EventModel::PermissionNeeded {
                    request_id: fresh_id,
                    tool_name: call.name,
                    input: call.input,
                    evaluation,
                },
            )
        }),
{
    reveal(TurnModel::call_step);
    reveal(TurnModel::no_preview);
    reveal(TurnModel::flush_then);
    reveal(TurnModel::resume);
    reveal(TurnModel::resolve);
    reveal(TurnModel::run);
    if m.can_run_in_parallel && evaluation.decision is Allow {
        let n = m.step(InputModel::NoPreview, fresh_id);
        assert(n.batch.drop_last() =~= m.batch);
    }
}

/// A file change is made as it was previewed if it is allowed or changes nothing, and is put to
/// the user otherwise.
pub proof fn law_previews_are_put_to_the_user(
    m: TurnModel,
    evaluation: EvaluationModel,
    preview: PreviewModel,
    is_noop: bool,
    fresh_id: Seq<char>,
)
    requires
        m.stage == (StageModel::Preview { evaluation }),
        m.batch.len() == 0,
    ensures
        ({
            let n = m.step(InputModel::PreviewReady { preview, is_noop }, fresh_id);
            let call = m.calls[m.taken - 1];
            let seen = if m.started {
                m.outbox
            } else {
                m.outbox.push(
                    EventModel::ToolCallStarted { id: call.id, name: call.name, input: call.input },
                )
            };
            let free = is_noop || evaluation.decision is Allow;
            &&& same_turn(m, n)
            &&& n.state.messages == m.state.messages
            &&& free ==> n.stage == (StageModel::RunPreviewed { preview }) && n.outbox == seen
                && n.state.phase is ExecutingTools
            &&& !free ==> n.stage == (StageModel::Review { request_id: fresh_id, preview })
                && n.state.phase is WaitingForPermission && n.outbox == seen.push(
                EventModel::FileChangePreviewNeeded {
                    request_id: fresh_id,
                    tool_name: call.name,
                    input: call.input,
                    preview,
                },
            )
        }),
{
    reveal(TurnModel::call_step);
    reveal(TurnModel::flush_then);
    reveal(TurnModel::resume);
    reveal(TurnModel::review);
    reveal(TurnModel::run_previewed);
}

/// Calls that wait are run before anything else is done: the client sees each of them start, in
/// their order, and what was to be done is kept for afterwards.
pub proof fn law_waiting_calls_are_run_first(
    m: TurnModel,
    message: Seq<char>,
    fresh_id: Seq<char>,
    i: int,
)
    requires
        m.batch.len() > 0,
        0 <= i < m.batch.len(),
    ensures
        forall|input: InputModel|
            ((m.stage is Lookup && input is ToolMissing) || (m.stage is Preflight && input == (
            InputModel::PreflightRejected { message })) || (m.stage is Check && input == (
            InputModel::CheckFailed { message })) || (m.stage is NextCall && input is Advance
                && m.taken >= m.calls.len())) ==> {
                let n = #[trigger] m.step(input, fresh_id);
                &&& n.stage is Batch
                &&& n.state.phase is ExecutingTools
                &&& n.state.messages == m.state.messages
                &&& n.batch == m.batch
                &&& n.taken == m.taken
                &&& n.outbox.len() == m.outbox.len() + m.batch.len()
                &&& n.outbox.take(m.outbox.len() as int) == m.outbox
                &&& n.outbox[m.outbox.len() + i] == (EventModel::ToolCallStarted {
                    id: m.batch[i].call.id,
                    name: m.batch[i].call.name,
                    input: m.batch[i].call.input,
                })
                &&& input is ToolMissing ==> n.stage == (StageModel::Batch {
                    resume: ResumeModel::Missing,
                })
                &&& input is PreflightRejected ==> n.stage == (StageModel::Batch {
                    resume: ResumeModel::Rejected { message },
                })
                &&& input is CheckFailed ==> n.stage == (StageModel::Batch {
                    resume: ResumeModel::Unchecked { message },
                })
                &&& input is Advance ==> n.stage == (StageModel::Batch {
                    resume: ResumeModel::EndRound,
                })
            },
{
    reveal(TurnModel::call_step);
    reveal(TurnModel::flush_then);
    reveal(TurnModel::next_call);
    assert forall|input: InputModel|
        ((m.stage is Lookup && input is ToolMissing) || (m.stage is Preflight && input == (
        InputModel::PreflightRejected { message })) || (m.stage is Check && input == (
        InputModel::CheckFailed { message })) || (m.stage is NextCall && input is Advance
            && m.taken >= m.calls.len())) implies (#[trigger] m.step(input, fresh_id)).outbox.take(
        m.outbox.len() as int,
    ) == m.outbox by {
        let n = m.step(input, fresh_id);
        assert(n.outbox.take(m.outbox.len() as int) =~= m.outbox);
    }
}

/// A call that is the same as one that waits, or that has failed twice in a row, is taken only once
/// those that wait were run. Any other is looked up beside them.
pub proof fn law_same_calls_wait_for_each_other(m: TurnModel, fresh_id: Seq<char>)
    requires
        m.stage is NextCall,
        m.batch.len() > 0,
        m.taken < m.calls.len() <= usize::MAX,
    ensures
        ({
            let n = m.step(InputModel::Advance, fresh_id);
            let call = m.calls[m.taken as int];
            let waits = failed_before(m.guard, call) >= 2 || exists|i: int|
                0 <= i < m.batch.len() && (#[trigger] m.batch[i]).call.name == call.name
                    && json_model(m.batch[i].call.input) == json_model(call.input);
            &&& n.taken == m.taken + 1
            &&& n.calls == m.calls
            &&& n.batch == m.batch
            &&& n.state.messages == m.state.messages
            &&& waits ==> n.stage == (StageModel::Batch { resume: ResumeModel::Recheck })
                && n.state.phase is ExecutingTools
            &&& !waits ==> n.stage is Lookup && n.state == m.state && n.outbox == m.outbox
                && !n.started
        }),
{
    reveal(TurnModel::call_step);
    reveal(TurnModel::next_call);
    reveal(TurnModel::flush_then);
    reveal(TurnModel::recheck);
    let call = m.calls[m.taken as int];
    if exists|i: int|
        0 <= i < m.batch.len() && (#[trigger] m.batch[i]).call.name == call.name && json_model(
            m.batch[i].call.input,
        ) == json_model(call.input) {
        let i = choose|i: int|
            0 <= i < m.batch.len() && (#[trigger] m.batch[i]).call.name == call.name && json_model(
                m.batch[i].call.input,
            ) == json_model(call.input);
        assert(crate::turn_executor::same_call(m.batch[i].call, call));
        assert(crate::turn_executor::is_pending(m.batch, call));
    } else {
        assert(!crate::turn_executor::is_pending(m.batch, call));
    }
}

/// A call that may not run beside others waits for those that wait. One that may is checked beside
/// them.
pub proof fn law_calls_that_run_alone_wait(m: TurnModel, safety: ToolSafety, fresh_id: Seq<char>)
    requires
        m.batch.len() > 0,
        m.stage == (StageModel::Preflight { safety }),
    ensures
        ({
            let n = m.step(InputModel::PreflightPassed, fresh_id);
            let together = safety.is_read_only && safety.is_concurrency_safe;
            &&& n.can_run_in_parallel == together
            &&& n.batch == m.batch
            &&& n.state.messages == m.state.messages
            &&& !together ==> n.stage == (StageModel::Batch {
                resume: ResumeModel::Admit { safety },
            })
            &&& together ==> n.stage is Check && n.outbox == m.outbox
        }),
{
    reveal(TurnModel::call_step);
    reveal(TurnModel::preflight_passed);
    reveal(TurnModel::flush_then);
    reveal(TurnModel::admitted);
    reveal(TurnModel::begin_check);
}

/// A call that is forbidden, that has a preview, or that may not join those that wait is gone on with
/// only once they were run.
pub proof fn law_checked_calls_wait(
    m: TurnModel,
    evaluation: EvaluationModel,
    preview: PreviewModel,
    is_noop: bool,
    message: Seq<char>,
    fresh_id: Seq<char>,
)
    requires
        m.batch.len() > 0,
    ensures
        m.stage is Check && evaluation.decision is Forbidden ==> m.step(
            InputModel::Evaluated { evaluation },
            fresh_id,
        ).stage == (StageModel::Batch { resume: ResumeModel::Forbidden { evaluation } }),
        m.stage is Check && !(evaluation.decision is Forbidden) ==> m.step(
            InputModel::Evaluated { evaluation },
            fresh_id,
        ).stage == (StageModel::Preview { evaluation }),
        m.stage == (StageModel::Preview { evaluation }) ==> {
            &&& m.step(InputModel::PreviewReady { preview, is_noop }, fresh_id).stage == (
            StageModel::Batch { resume: ResumeModel::Review { evaluation, preview, is_noop } })
            &&& m.step(InputModel::PreviewFailed { message }, fresh_id).stage == (
            StageModel::Batch { resume: ResumeModel::Unpreviewed { message } })
            &&& !(m.can_run_in_parallel && evaluation.decision is Allow) ==> m.step(
                InputModel::NoPreview,
                fresh_id,
            ).stage == (StageModel::Batch { resume: ResumeModel::Resolve { evaluation } })
            &&& m.can_run_in_parallel && evaluation.decision is Allow ==> m.step(
                InputModel::NoPreview,
                fresh_id,
            ).stage is NextCall
        },
{
    reveal(TurnModel::call_step);
    reveal(TurnModel::evaluated);
    reveal(TurnModel::no_preview);
    reveal(TurnModel::flush_then);
}

/// What is reported of the outcome of a call that ran beside others.
pub open spec fn reports(result: ToolResultModel, call: ToolCallModel, outcome: OutcomeModel) -> bool {
    &&& result.tool_use_id == call.id
    &&& match outcome {
        OutcomeModel::Completed(text) => result.content == text && !result.is_error,
        OutcomeModel::Failed(error) => result.is_error && error.is_prefix_of(result.content),
    }
}

proof fn lemma_recorded(
    m: TurnModel,
    waiting: Seq<ParallelCallModel>,
    outcomes: Seq<OutcomeModel>,
)
    requires
        waiting.len() == outcomes.len(),
    ensures
        ({
            let (n, results) = m.record_outcomes(waiting, outcomes);
            &&& results.len() == waiting.len()
            &&& n.state == m.state
            &&& same_turn(m, n)
            &&& forall|i: int|
                0 <= i < waiting.len() ==> reports(
                    #[trigger] results[i],
                    waiting[i].call,
                    outcomes[i],
                )
        }),
    decreases waiting.len(),
{
    if waiting.len() > 0 {
        let some = waiting.drop_last();
        let rest = outcomes.drop_last();
        lemma_recorded(m, some, rest);
        let (before, results) = m.record_outcomes(some, rest);
        let call = waiting.last().call;
        reveal(TurnModel::record_outcome);
        reveal(TurnModel::counted);
        let (n, all) = m.record_outcomes(waiting, outcomes);
        match outcomes.last() {
            OutcomeModel::Completed(text) => {},
            OutcomeModel::Failed(error) => {
                lemma_counted_failure(
                    before.emit(
                        EventModel::ToolCallFailed { id: call.id, name: call.name, error },
                    ),
                    call,
                    error,
                );
                assert(error.is_prefix_of(all.last().content));
            },
        }
        assert forall|i: int| 0 <= i < waiting.len() implies reports(
            #[trigger] all[i],
            waiting[i].call,
            outcomes[i],
        ) by {
            if i < some.len() {
                assert(all[i] == results[i]);
                assert(reports(results[i], some[i].call, rest[i]));
            } else {
                assert(all[i] == all.last());
            }
        }
    }
}

/// The calls that ran together are answered by one tool message that has a result for each of
/// them, in their order, with what that call returned.
pub proof fn law_batches_are_answered_in_order(
    m: TurnModel,
    resume: ResumeModel,
    outcomes: Seq<OutcomeModel>,
    fresh_id: Seq<char>,
    i: int,
)
    requires
        m.stage == (StageModel::Batch { resume }),
        outcomes.len() == m.batch.len(),
        0 <= i < m.batch.len(),
    ensures
        ({
            let n = m.step(InputModel::BatchExecuted { outcomes }, fresh_id);
            let at = m.state.messages.len() as int;
            let message = n.state.messages[at];
            &&& n.state.messages.len() > at
            &&& n.state.messages.take(at) == m.state.messages
            &&& message.role is Tool
            &&& message.content.len() == m.batch.len()
            &&& message.content[i] is ToolResult
            &&& message.content[i]->ToolResult_tool_use_id == m.batch[i].call.id
            &&& outcomes[i] matches OutcomeModel::Completed(text)
                ==> message.content[i]->ToolResult_content == text
                && !message.content[i]->ToolResult_is_error
            &&& outcomes[i] matches OutcomeModel::Failed(error) ==> error.is_prefix_of(
                message.content[i]->ToolResult_content,
            ) && message.content[i]->ToolResult_is_error
        }),
{
    reveal(TurnModel::outcome_step);
    reveal(TurnModel::batch_executed);
    let free = m.at(StageModel::Done);
    lemma_recorded(free, m.batch, outcomes);
    let (recorded, results) = free.record_outcomes(m.batch, outcomes);
    let told = TurnModel { batch: Seq::empty(), ..recorded }.with_state(
        recorded.state.push_tool_results(results),
    ).session_updated();
    law_resuming_keeps_the_conversation(told, resume, fresh_id);
    let n = m.step(InputModel::BatchExecuted { outcomes }, fresh_id);
    let at = m.state.messages.len() as int;
    assert(n == told.resume(resume, fresh_id));
    assert(only_grew(told, n));
    assert(told.state.messages.len() == at + 1);
    assert(n.state.messages.subrange(0, at + 1)[at] == told.state.messages[at]);
    assert(n.state.messages.take(at) =~= n.state.messages.subrange(0, at + 1).take(at));
    assert(told.state.messages.take(at) =~= m.state.messages);
    assert(reports(results[i], m.batch[i].call, outcomes[i]));
}

/// Calls are taken one after another in their order. One that has failed twice in a row is not
/// tried again: the model is told so, and nothing is looked up.
pub proof fn law_calls_are_taken_in_order(m: TurnModel, fresh_id: Seq<char>)
    requires
        m.stage is NextCall,
        m.batch.len() == 0,
        m.taken < m.calls.len() <= usize::MAX,
    ensures
        ({
            let n = m.step(InputModel::Advance, fresh_id);
            let call = m.calls[m.taken as int];
            let blocked = failed_before(m.guard, call) >= 2;
            let refusal =
                "Repeated-failure guard blocked this tool call because the same tool and input already failed twice. The tool was not executed. Use a materially different approach or explain the blocker to the user."@;
            &&& n.taken == m.taken + 1
            &&& n.calls == m.calls
            &&& n.guard == m.guard
            &&& n.batch == m.batch
            &&& !blocked ==> n.stage is Lookup && n.state == m.state && n.outbox == m.outbox
                && n.blocked_repeat_calls == m.blocked_repeat_calls && !n.started
            &&& blocked ==> n.stage is NextCall && one_answer_more(
                m.state.messages,
                n.state.messages,
                call.id,
                refusal,
                true,
            ) && (m.blocked_repeat_calls < usize::MAX ==> n.blocked_repeat_calls
                == m.blocked_repeat_calls + 1) && n.outbox == m.outbox.push(
                EventModel::ToolCallStarted { id: call.id, name: call.name, input: call.input },
            ).push(
                EventModel::ToolCallFailed { id: call.id, name: call.name, error: refusal },
            ).push(EventModel::SessionUpdated { messages: n.state.messages })
        }),
{
    reveal(TurnModel::call_step);
    reveal(TurnModel::next_call);
    reveal(TurnModel::flush_then);
    reveal(TurnModel::resume);
    reveal(TurnModel::recheck);
    reveal(TurnModel::answer);
    let n = m.step(InputModel::Advance, fresh_id);
    if failed_before(m.guard, m.calls[m.taken as int]) >= 2 {
        assert(n.state.messages.drop_last() =~= m.state.messages);
    }
}

/// When all calls are taken the next round begins. Rounds in which every call was refused add up,
/// and after the second one the model is to answer with text alone; any other round starts afresh.
pub proof fn law_rounds_follow_each_other(m: TurnModel, fresh_id: Seq<char>)
    requires
        m.stage is NextCall,
        m.batch.len() == 0,
        m.taken >= m.calls.len(),
        m.blocked_only_rounds < usize::MAX,
        m.turn < usize::MAX,
    ensures
        ({
            let n = m.step(InputModel::Advance, fresh_id);
            let refused = m.blocked_repeat_calls == m.calls.len();
            &&& n.stage is Barrier
            &&& n.turn == m.turn + 1
            &&& n.state.turn_count == m.turn + 1
            &&& n.state.messages == m.state.messages
            &&& n.guard == m.guard
            &&& !refused ==> n.blocked_only_rounds == 0 && n.force_text_only == m.force_text_only
                && n.outbox == m.outbox
            &&& refused ==> n.blocked_only_rounds == m.blocked_only_rounds + 1
            &&& refused && m.blocked_only_rounds >= 1 ==> n.force_text_only && n.outbox
                == m.outbox.push(
                EventModel::StatusUpdate {
                    message: "Stopping repeated tool retries and preparing an explanation..."@,
                },
            )
            &&& refused && m.blocked_only_rounds == 0 ==> n.force_text_only == m.force_text_only
                && n.outbox == m.outbox.push(
                EventModel::StatusUpdate {
                    message: "Repeated call blocked; trying a different approach..."@,
                },
            )
        }),
{
    reveal(TurnModel::call_step);
    reveal(TurnModel::next_call);
    reveal(TurnModel::flush_then);
    reveal(TurnModel::resume);
    reveal(TurnModel::end_round);
    reveal(TurnModel::judge_round);
    reveal(TurnModel::begin_round);
}

/// A call that only reads and may run beside others does not wait for them; any other is shown to
/// start before it is checked, and one that changes something waits for the subagents that do.
pub proof fn law_preflight_decides_on_waiting(m: TurnModel, safety: ToolSafety, fresh_id: Seq<char>)
    requires
        m.batch.len() == 0,
        m.stage == (StageModel::Preflight { safety }),
    ensures
        ({
            let n = m.step(InputModel::PreflightPassed, fresh_id);
            let together = safety.is_read_only && safety.is_concurrency_safe;
            let waits = !safety.is_read_only && m.managed;
            &&& n.can_run_in_parallel == together
            &&& n.state == m.state
            &&& n.guard == m.guard
            &&& same_turn(m, n)
            &&& together ==> n.stage is Check && n.outbox == m.outbox && n.started == m.started
            &&& waits ==> n.stage is Workers && n.outbox == m.outbox
            &&& !together && !waits ==> n.stage is Check && n.started && shows_start(m, n)
        }),
{
    reveal(TurnModel::call_step);
    let free = m.at(StageModel::Done);
    assert(m.step(InputModel::PreflightPassed, fresh_id) == free.preflight_passed(safety, fresh_id));
    lemma_preflight(free, safety, fresh_id);
}

/// Whether the client has been shown that the current call starts, and nothing else.
pub open spec fn shows_start(m: TurnModel, n: TurnModel) -> bool {
    n.outbox == m.outbox.push(
        EventModel::ToolCallStarted {
            id: m.calls[m.taken - 1].id,
            name: m.calls[m.taken - 1].name,
            input: m.calls[m.taken - 1].input,
        },
    )
}

proof fn lemma_check_begins(m: TurnModel)
    ensures
        ({
            let n = m.begin_check();
            &&& n.stage is Check
            &&& n.state == m.state
            &&& n.guard == m.guard
            &&& n.can_run_in_parallel == m.can_run_in_parallel
            &&& same_turn(m, n)
            &&& m.can_run_in_parallel ==> n.outbox == m.outbox && n.started == m.started
            &&& !m.can_run_in_parallel ==> n.started && shows_start(m, n)
        }),
{
    reveal(TurnModel::begin_check);
}

proof fn lemma_preflight(m: TurnModel, safety: ToolSafety, fresh_id: Seq<char>)
    requires
        m.batch.len() == 0,
    ensures
        ({
            let n = m.preflight_passed(safety, fresh_id);
            let together = safety.is_read_only && safety.is_concurrency_safe;
            let waits = !safety.is_read_only && m.managed;
            &&& n.can_run_in_parallel == together
            &&& n.state == m.state
            &&& n.guard == m.guard
            &&& same_turn(m, n)
            &&& together ==> n.stage is Check && n.outbox == m.outbox && n.started == m.started
            &&& waits ==> n.stage is Workers && n.outbox == m.outbox
            &&& !together && !waits ==> n.stage is Check && n.started && shows_start(m, n)
        }),
{
    let together = safety.is_read_only && safety.is_concurrency_safe;
    let judged = TurnModel { can_run_in_parallel: together, ..m };
    assert(m.preflight_passed(safety, fresh_id) == judged.admitted(safety)) by {
        reveal(TurnModel::preflight_passed);
        reveal(TurnModel::flush_then);
        reveal(TurnModel::resume);
    }
    lemma_check_begins(judged);
    reveal(TurnModel::admitted);
}

/// Once the subagents that change something are done, the call that waited for them is shown to
/// start and is checked.
pub proof fn law_waiting_for_workers_ends(m: TurnModel, fresh_id: Seq<char>)
    requires
        m.stage is Workers,
    ensures
        ({
            let n = m.step(InputModel::WorkersIdle, fresh_id);
            &&& n.stage is Check
            &&& n.state == m.state
            &&& n.guard == m.guard
            &&& same_turn(m, n)
            &&& !m.can_run_in_parallel ==> n.started && shows_start(m, n)
        }),
{
    reveal(TurnModel::call_step);
    lemma_check_begins(m.at(StageModel::Done));
}

/// A response adds its tokens to the totals and itself to the conversation, and its calls are the
/// ones to take, from the first. A title is no longer waited for once the response settled it.
pub proof fn law_responses_are_kept(m: TurnModel, response: ResponseModel, fresh_id: Seq<char>)
    requires
        m.stage is Generate,
        m.totals_fit(response),
    ensures
        ({
            let n = m.step(InputModel::Responded { response }, fresh_id);
            let refused = response.finish_reason == Some(FinishReason::ContentFilter);
            &&& n.state.total_input_tokens == m.state.total_input_tokens
                + response.usage.input_tokens
            &&& n.state.total_output_tokens == m.state.total_output_tokens
                + response.usage.output_tokens
            &&& n.outbox.len() > m.outbox.len()
            &&& n.outbox[m.outbox.len() as int] == EventModel::TurnComplete(response.usage)
            &&& n.turn == m.turn
            &&& refused ==> n.outbox.last() == (EventModel::AgentError {
                message:
                    "The model refused the request; try another model or revise the request."@,
            })
            &&& !refused ==> n.outbox.len() == m.outbox.len() + 1
            &&& !refused ==> n.state.messages.len() == m.state.messages.len() + 1
            &&& !refused ==> n.state.messages.drop_last() == m.state.messages
            &&& !refused ==> n.state.messages.last().role is Assistant
            &&& !refused ==> n.state.messages.last().content == contents_of(response.blocks)
            &&& !refused ==> n.calls == calls_in(response.blocks) && n.taken == 0
            &&& !refused ==> n.stage == (StageModel::Normalize {
                final_message: final_text(response.blocks),
            })
            &&& !refused ==> (n.state.session_title_pending <==> m.state.session_title_pending
                && !response.session_title_resolved)
        }),
{
    reveal(TurnModel::request_step);
    reveal(TurnModel::responded);
    let n = m.step(InputModel::Responded { response }, fresh_id);
    if response.finish_reason != Some(FinishReason::ContentFilter) {
        assert(n.state.messages.drop_last() =~= m.state.messages);
    }
}

/// A response without calls ends the turn with its text, as it was written; one with calls leads
/// on to them, with nothing waiting and nothing refused yet.
pub proof fn law_answers_without_calls_end_the_turn(
    m: TurnModel,
    messages: Seq<MessageModel>,
    text: Seq<char>,
    fresh_id: Seq<char>,
)
    requires
        m.stage == (StageModel::Normalize { final_message: text }),
    ensures
        ({
            let n = m.step(InputModel::Normalized { messages }, fresh_id);
            &&& n.calls == m.calls
            &&& n.taken == m.taken
            &&& m.calls.len() == 0 ==> n.stage is Done && n.state.messages == messages
                && n.state.phase is Idle && n.outbox == m.outbox.push(
                EventModel::SessionUpdated { messages },
            ).push(EventModel::AgentFinished { final_message: text })
            &&& m.calls.len() > 0 && !m.text_only_request ==> n.stage is NextCall
                && n.state.messages == messages && n.state.phase is ParsingToolCalls
                && n.batch.len() == 0 && n.blocked_repeat_calls == 0 && n.outbox == m.outbox.push(
                EventModel::SessionUpdated { messages },
            ).push(
                EventModel::StatusUpdate {
                    message: "Preparing "@ + decimal(m.calls.len()) + " tool call(s)..."@,
                },
            )
        }),
{
    reveal(TurnModel::request_step);
    reveal(TurnModel::normalized);
    reveal(TurnModel::refuse_calls);
}

/// Calls in an answer that was to be text alone are all refused: one tool message has a refusal for
/// each, in their order, and the turn ends with an explanation of its own.
pub proof fn law_calls_against_orders_are_refused(
    m: TurnModel,
    messages: Seq<MessageModel>,
    text: Seq<char>,
    fresh_id: Seq<char>,
    i: int,
)
    requires
        m.stage == (StageModel::Normalize { final_message: text }),
        m.text_only_request,
        0 <= i < m.calls.len(),
    ensures
        ({
            let n = m.step(InputModel::Normalized { messages }, fresh_id);
            let at = messages.len() as int;
            let refusal =
                "Repeated-failure guard blocked this tool call because the same tool and input already failed twice. The tool was not executed. Use a materially different approach or explain the blocker to the user."@;
            let farewell =
                "Stopped because the model retried an identical tool call after it had already failed twice. The repeated call was not executed."@;
            &&& n.stage is Done
            &&& n.state.phase is Idle
            &&& n.state.messages.len() == at + 2
            &&& n.state.messages.take(at) == messages
            &&& n.state.messages[at].role is Tool
            &&& n.state.messages[at].content.len() == m.calls.len()
            &&& n.state.messages[at].content[i] == (ContentBlockModel::ToolResult {
                tool_use_id: m.calls[i].id,
                content: refusal,
                is_error: true,
            })
            &&& n.state.messages[at + 1].role is Assistant
            &&& n.state.messages[at + 1].content == seq![
                ContentBlockModel::Text { text: farewell },
            ]
            &&& n.outbox.last() == (EventModel::AgentFinished { final_message: farewell })
            &&& n.outbox.contains(
                EventModel::ToolCallFailed {
                    id: m.calls[i].id,
                    name: m.calls[i].name,
                    error: refusal,
                },
            )
        }),
{
    reveal(TurnModel::request_step);
    reveal(TurnModel::normalized);
    reveal(TurnModel::refuse_calls);
    let n = m.step(InputModel::Normalized { messages }, fresh_id);
    let at = messages.len() as int;
    assert(n.state.messages.take(at) =~= messages);
    let k = m.outbox.len() + 1 + i;
    assert(n.outbox[k] == (EventModel::ToolCallFailed {
        id: m.calls[i].id,
        name: m.calls[i].name,
        error:
            "Repeated-failure guard blocked this tool call because the same tool and input already failed twice. The tool was not executed. Use a materially different approach or explain the blocker to the user."@,
    }));
}

/// What subagents found is put to the model as a message of the user.
pub proof fn law_findings_reach_the_model(
    m: TurnModel,
    rendered: Seq<char>,
    count: usize,
    fresh_id: Seq<char>,
)
    requires
        m.stage is Barrier,
    ensures
        ({
            let n = m.step(InputModel::BarrierCompleted { rendered }, fresh_id);
            &&& n.state.messages.len() == m.state.messages.len() + 1
            &&& n.state.messages.drop_last() == m.state.messages
            &&& n.state.messages.last().role is User
            &&& n.state.messages.last().content.len() == 1
            &&& n.state.messages.last().content[0] == (ContentBlockModel::Text {
                text:
                    "Subagents have finished. Their structured results are below. Review them before continuing; retry only when the reported error makes that useful.\n\n"@
                    + rendered,
            })
            &&& n.stage is Estimate
            &&& same_turn(m, n)
            &&& n.outbox == m.outbox.push(EventModel::SessionUpdated { messages: n.state.messages })
        }),
        ({
            let n = m.step(InputModel::BarrierClear, fresh_id);
            n.stage is Estimate && n.state == m.state && n.outbox == m.outbox
        }),
        ({
            let n = m.step(InputModel::BarrierWaiting { count }, fresh_id);
            n.stage is Barrier && n.state == m.state && n.outbox == m.outbox.push(
                EventModel::StatusUpdate {
                    message: "Waiting for "@ + decimal(count as nat)
                        + " outstanding subagent task(s)..."@,
                },
            )
        }),
{
    reveal(TurnModel::request_step);
    reveal(TurnModel::barrier_completed);
    let n = m.step(InputModel::BarrierCompleted { rendered }, fresh_id);
    assert(n.state.messages.drop_last() =~= m.state.messages);
}

/// A conversation is compressed exactly when it needs to be, and a compressed one takes its place;
/// a request that is to be text alone is so once.
pub proof fn law_requests_are_prepared(
    m: TurnModel,
    needed: bool,
    messages: Seq<MessageModel>,
    fresh_id: Seq<char>,
)
    ensures
        m.stage is Estimate ==> {
            let n = m.step(InputModel::Estimated { needs_compression: needed }, fresh_id);
            &&& needed <==> n.stage is Compress
            &&& !needed <==> n.stage is Measure
            &&& n.state.messages == m.state.messages
            &&& needed ==> n.state.phase is CompressingContext && n.outbox == m.outbox.push(
                EventModel::StatusUpdate { message: "Compressing context..."@ },
            )
            &&& !needed ==> n.state.phase is Generating && n.text_only_request == m.force_text_only
                && !n.force_text_only
        },
        m.stage is Compress ==> {
            let n = m.step(InputModel::Compressed { messages }, fresh_id);
            &&& n.stage is Measure
            &&& n.state.messages == messages
            &&& n.state.phase is Generating
            &&& n.text_only_request == m.force_text_only
            &&& !n.force_text_only
            &&& n.outbox == m.outbox.push(
                EventModel::StatusUpdate {
                    message: if m.turn == 0 {
                        "Thinking..."@
                    } else {
                        "Thinking after tools..."@
                    },
                },
            )
        },
{
    reveal(TurnModel::request_step);
    reveal(TurnModel::estimated);
    reveal(TurnModel::compressed);
    reveal(TurnModel::start_request);
}

/// Whatever goes wrong around the model is reported, once and as it is, and ends the turn; the
/// conversation stays.
pub proof fn law_failures_are_reported(m: TurnModel, message: Seq<char>, fresh_id: Seq<char>)
    ensures
        forall|input: InputModel|
            (m.stage is Barrier && input == (InputModel::BarrierFailed { message })) || (m.stage
                is Compress && input == (InputModel::CompressionFailed { message })) || (m.stage
                is Generate && input == (InputModel::GenerationFailed { message })) ==> {
                let n = #[trigger] m.step(input, fresh_id);
                &&& n.stage is Done
                &&& n.state.phase is Error
                &&& n.state.messages == m.state.messages
                &&& n.outbox == m.outbox.push(EventModel::AgentError { message })
            },
        m.stage is Generate ==> {
            let n = m.step(InputModel::StreamFailed, fresh_id);
            &&& n.stage is Done
            &&& n.state.phase is Error
            &&& n.state.messages == m.state.messages
            &&& n.outbox == m.outbox
        },
{
    reveal(TurnModel::request_step);
}

/// A turn begins with the conversation that it is given, and with nothing done.
pub proof fn law_turns_begin_afresh(
    state: StateModel,
    model: Seq<char>,
    max_tokens: usize,
    context_window: usize,
    managed: bool,
)
    ensures
        ({
            let m = TurnModel::begin(state, model, max_tokens, context_window, managed);
            &&& m.state.messages == state.messages
            &&& m.state.turn_count == 0
            &&& m.state.total_input_tokens == state.total_input_tokens
            &&& m.state.total_output_tokens == state.total_output_tokens
            &&& m.model == model
            &&& m.max_tokens == max_tokens
            &&& m.context_window == context_window
            &&& m.managed == managed
            &&& m.turn == 0
            &&& !m.interrupted
            &&& !m.shutdown_requested
            &&& m.guard.streak is None
            &&& !m.force_text_only
            &&& !m.text_only_request
            &&& m.blocked_only_rounds == 0
            &&& m.blocked_repeat_calls == 0
            &&& m.taken == 0
            &&& !m.started
            &&& !m.can_run_in_parallel
            &&& m.calls.len() == 0
            &&& m.batch.len() == 0
            &&& m.outbox.len() == 0
            &&& m.stage is Barrier
        }),
{
    reveal(TurnModel::begin_round);
}

} // verus!
