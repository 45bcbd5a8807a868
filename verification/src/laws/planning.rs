//! What becomes of a plan while it is made.
use crate::event::{CommandModel, EventModel};
use crate::json::{json_model, text_member};
use crate::llm_response::{calls_in, contents_of, final_text, ResponseModel};
use crate::plan_executor::{
    approval_of, plan_answer, GenerationModel, PlanAnswerModel, PlanInputModel, PlanModel,
    PlanStageModel,
};
use crate::state::StateModel;
use crate::text::{decimal, trim};
use crate::turn_executor::OutcomeModel;
use crate::types::{ContentBlockModel, FinishReason, MessageModel, Role, ToolSafety};
use crate::validation::rejection;
use serde_json::Value;
use vstd::prelude::*;

verus! {

/// Whether all that a planner has beside its conversation, its stage and its events is the same.
pub open spec fn same_work(m: PlanModel, n: PlanModel) -> bool {
    &&& n.model == m.model
    &&& n.max_tokens == m.max_tokens
    &&& n.context_window == m.context_window
    &&& n.turn == m.turn
    &&& n.calls == m.calls
    &&& n.taken == m.taken
    &&& n.state.phase == m.state.phase
    &&& n.state.turn_count == m.state.turn_count
    &&& n.state.total_input_tokens == m.state.total_input_tokens
    &&& n.state.total_output_tokens == m.state.total_output_tokens
    &&& n.state.plan_mode_enabled == m.state.plan_mode_enabled
    &&& n.state.reasoning_effort == m.state.reasoning_effort
    &&& n.state.session_title_pending == m.state.session_title_pending
}

/// Whether a conversation is another with one tool message more, whose only block answers a call.
pub open spec fn one_answer_more(
    before: Seq<MessageModel>,
    after: Seq<MessageModel>,
    id: Seq<char>,
    content: Seq<char>,
    is_error: bool,
) -> bool {
    &&& after.len() == before.len() + 1
    &&& after.drop_last() == before
    &&& after.last().role is Tool
    &&& after.last().content.len() == 1
    &&& after.last().content[0] == (ContentBlockModel::ToolResult {
        tool_use_id: id,
        content,
        is_error,
    })
}

proof fn lemma_answer(m: PlanModel, content: Seq<char>, is_error: bool)
    ensures
        ({
            let n = m.answer(content, is_error);
            &&& one_answer_more(
                m.state.messages,
                n.state.messages,
                m.calls[m.taken - 1].id,
                content,
                is_error,
            )
            &&& same_work(m, n)
            &&& n.stage is NextCall
            &&& n.outbox == m.outbox.push(EventModel::SessionUpdated { messages: n.state.messages })
        }),
{
    reveal(PlanModel::answer);
    let n = m.answer(content, is_error);
    assert(n.state.messages.drop_last() =~= m.state.messages);
}

/// What a tool returned is what the model is told of its call, once and as it is; the client is
/// told the same.
pub proof fn law_results_reach_the_planning_model(m: PlanModel, result: Seq<char>)
    requires
        m.stage is Execute,
    ensures
        ({
            let n = m.step(PlanInputModel::Executed { outcome: OutcomeModel::Completed(result) });
            let call = m.calls[m.taken - 1];
            &&& one_answer_more(m.state.messages, n.state.messages, call.id, result, false)
            &&& same_work(m, n)
            &&& n.stage is NextCall
            &&& n.outbox == m.outbox.push(
                EventModel::ToolCallCompleted { id: call.id, name: call.name, result },
            ).push(EventModel::SessionUpdated { messages: n.state.messages })
        }),
{
    reveal(PlanModel::step);
    reveal(PlanModel::executed);
    let call = m.calls[m.taken - 1];
    lemma_answer(
        m.emit(EventModel::ToolCallCompleted { id: call.id, name: call.name, result }),
        result,
        false,
    );
}

proof fn lemma_call_failed(m: PlanModel, error: Seq<char>)
    ensures
        ({
            let n = m.call_failed(error);
            let call = m.calls[m.taken - 1];
            &&& one_answer_more(m.state.messages, n.state.messages, call.id, error, true)
            &&& same_work(m, n)
            &&& n.stage is NextCall
            &&& n.outbox == m.outbox.push(
                EventModel::ToolCallFailed { id: call.id, name: call.name, error },
            ).push(EventModel::SessionUpdated { messages: n.state.messages })
        }),
{
    reveal(PlanModel::call_failed);
    let call = m.calls[m.taken - 1];
    lemma_answer(
        m.emit(EventModel::ToolCallFailed { id: call.id, name: call.name, error }),
        error,
        true,
    );
}

/// The error of a tool is what the model is told of its call, as an error; so is that there is no
/// such tool.
pub proof fn law_errors_reach_the_planning_model(m: PlanModel, error: Seq<char>)
    ensures
        m.stage is Execute ==> {
            let n = m.step(PlanInputModel::Executed { outcome: OutcomeModel::Failed(error) });
            let call = m.calls[m.taken - 1];
            &&& one_answer_more(m.state.messages, n.state.messages, call.id, error, true)
            &&& same_work(m, n)
            &&& n.stage is NextCall
            &&& n.outbox == m.outbox.push(
                EventModel::ToolCallFailed { id: call.id, name: call.name, error },
            ).push(EventModel::SessionUpdated { messages: n.state.messages })
        },
        m.stage is Lookup ==> {
            let n = m.step(PlanInputModel::ToolMissing);
            let call = m.calls[m.taken - 1];
            let missing = "Tool '"@ + call.name + "' not found"@;
            &&& one_answer_more(m.state.messages, n.state.messages, call.id, missing, true)
            &&& same_work(m, n)
            &&& n.stage is NextCall
            &&& n.outbox == m.outbox.push(
                EventModel::ToolCallFailed { id: call.id, name: call.name, error: missing },
            ).push(EventModel::SessionUpdated { messages: n.state.messages })
        },
{
    reveal(PlanModel::step);
    reveal(PlanModel::executed);
    lemma_call_failed(m, error);
    lemma_call_failed(m, "Tool '"@ + m.calls[m.taken - 1].name + "' not found"@);
}

/// A tool that would change something is refused while planning, and the model is told so; a
/// worker is refused likewise; a tool that does no harm and whose input fits is run.
pub proof fn law_refusals_reach_the_planning_model(m: PlanModel, schema: Value, safety: ToolSafety)
    requires
        m.stage is Lookup,
    ensures
        ({
            let n = m.step(PlanInputModel::ToolFound { schema, safety });
            let call = m.calls[m.taken - 1];
            let worker = call.name == "spawn_agent"@ && text_member(
                json_model(call.input),
                "role"@,
            ) != Some("explorer"@);
            let harmless = safety.is_read_only && !safety.requires_approval
                && !safety.is_destructive;
            &&& same_work(m, n)
            &&& worker ==> n.stage is NextCall && one_answer_more(
                m.state.messages,
                n.state.messages,
                call.id,
                "Only explorer subagents are allowed during planning."@,
                true,
            )
            &&& !worker && !harmless ==> n.stage is NextCall && one_answer_more(
                m.state.messages,
                n.state.messages,
                call.id,
                "Tool is not allowed during planning; produce a plan without executing mutating or approval-required tools."@,
                true,
            )
            &&& !worker && harmless ==> match rejection(
                call.name,
                json_model(schema),
                json_model(call.input),
            ) {
                Some(error) => n.stage is NextCall && one_answer_more(
                    m.state.messages,
                    n.state.messages,
                    call.id,
                    error,
                    true,
                ),
                None => n.stage is Execute && n.state.messages == m.state.messages && n.outbox
                    == m.outbox.push(
                    EventModel::ToolCallStarted { id: call.id, name: call.name, input: call.input },
                ),
            }
        }),
{
    reveal(PlanModel::step);
    reveal(PlanModel::tool_found);
    let call = m.calls[m.taken - 1];
    lemma_call_failed(m, "Only explorer subagents are allowed during planning."@);
    lemma_call_failed(
        m,
        "Tool is not allowed during planning; produce a plan without executing mutating or approval-required tools."@,
    );
    if let Some(error) = rejection(call.name, json_model(schema), json_model(call.input)) {
        lemma_call_failed(m, error);
    }
}

/// The calls of a response are taken one after another in their order; when all are taken, a new
/// round begins.
pub proof fn law_planned_calls_are_taken_in_order(m: PlanModel)
    requires
        m.stage is NextCall,
        m.taken <= m.calls.len() <= usize::MAX,
    ensures
        ({
            let n = m.step(PlanInputModel::Advance);
            &&& n.state.messages == m.state.messages
            &&& n.outbox == m.outbox
            &&& n.calls == m.calls
            &&& m.taken < m.calls.len() ==> n.stage is Lookup && n.taken == m.taken + 1
                && n.current() == m.calls[m.taken as int] && n.turn == m.turn && n.state == m.state
            &&& m.taken == m.calls.len() ==> n.stage is Barrier && n.taken == m.taken && (m.turn
                < usize::MAX ==> n.turn == m.turn + 1) && n.state.turn_count == n.turn
                && n.state.phase is Planning
        }),
{
    reveal(PlanModel::step);
    reveal(PlanModel::next_call);
    reveal(PlanModel::begin_round);
}

/// A response adds its tokens to the totals and itself to the conversation, and its calls are the
/// ones to take, from the first. One that was refused adds no message and ends the planning.
pub proof fn law_planning_responses_are_kept(m: PlanModel, response: ResponseModel)
    requires
        m.stage is Generate,
        m.totals_fit(response),
    ensures
        ({
            let n = m.step(PlanInputModel::Responded { response });
            &&& n.state.total_input_tokens == m.state.total_input_tokens
                + response.usage.input_tokens
            &&& n.state.total_output_tokens == m.state.total_output_tokens
                + response.usage.output_tokens
            &&& n.outbox.len() > m.outbox.len()
            &&& n.outbox[m.outbox.len() as int] == EventModel::TurnComplete(response.usage)
            &&& n.turn == m.turn
        }),
        response.finish_reason != Some(FinishReason::ContentFilter) ==> {
            let n = m.step(PlanInputModel::Responded { response });
            &&& n.state.messages.len() == m.state.messages.len() + 1
            &&& n.state.messages.drop_last() == m.state.messages
            &&& n.state.messages.last().role is Assistant
            &&& n.state.messages.last().content == contents_of(response.blocks)
            &&& n.calls == calls_in(response.blocks)
            &&& n.taken == 0
            &&& n.stage == (PlanStageModel::Normalize { final_message: final_text(response.blocks) })
            &&& n.outbox.len() == m.outbox.len() + 1
        },
        response.finish_reason == Some(FinishReason::ContentFilter) ==> {
            let n = m.step(PlanInputModel::Responded { response });
            &&& n.state.messages == m.state.messages
            &&& n.state.phase is Error
            &&& n.stage == (PlanStageModel::Done { generation: GenerationModel::Failed })
            &&& n.outbox.last() == (EventModel::AgentError {
                message:
                    "The model refused the request; try another model or revise the request."@,
            })
        },
{
    reveal(PlanModel::step);
    reveal(PlanModel::responded);
    let n = m.step(PlanInputModel::Responded { response });
    if response.finish_reason != Some(FinishReason::ContentFilter) {
        assert(n.state.messages.drop_last() =~= m.state.messages);
    }
}

/// A response without calls is the plan, as it was written; a blank one is none. One with calls
/// leads on to them.
pub proof fn law_answers_without_calls_are_plans(
    m: PlanModel,
    messages: Seq<MessageModel>,
    text: Seq<char>,
)
    requires
        m.stage == (PlanStageModel::Normalize { final_message: text }),
    ensures
        ({
            let n = m.step(PlanInputModel::Normalized { messages });
            &&& n.state.messages == messages
            &&& n.outbox.len() > m.outbox.len()
            &&& n.outbox[m.outbox.len() as int] == (EventModel::SessionUpdated { messages })
            &&& n.calls == m.calls
            &&& n.taken == m.taken
            &&& m.calls.len() == 0 && trim(text).len() > 0 ==> n.stage == (PlanStageModel::Done {
                generation: GenerationModel::Plan(text),
            })
            &&& m.calls.len() == 0 && trim(text).len() == 0 ==> n.stage == (PlanStageModel::Done {
                generation: GenerationModel::Failed,
            }) && n.outbox.last() == (EventModel::AgentError {
                message: "The model did not produce a plan."@,
            })
            &&& m.calls.len() > 0 ==> n.stage is NextCall && n.outbox.last() == (
            EventModel::StatusUpdate {
                message: "Planning with "@ + decimal(m.calls.len())
                    + " read-only tool call(s)..."@,
            })
        }),
{
    reveal(PlanModel::step);
    reveal(PlanModel::normalized);
}

/// What explorers found is put to the model as a message of the user.
pub proof fn law_findings_reach_the_planning_model(
    m: PlanModel,
    rendered: Seq<char>,
    count: usize,
)
    requires
        m.stage is Barrier,
    ensures
        ({
            let n = m.step(PlanInputModel::BarrierCompleted { rendered });
            &&& n.state.messages.len() == m.state.messages.len() + 1
            &&& n.state.messages.drop_last() == m.state.messages
            &&& n.state.messages.last().role is User
            &&& n.state.messages.last().content.len() == 1
            &&& n.state.messages.last().content[0] == (ContentBlockModel::Text {
                text:
                    "Explorer tasks have finished. Use these structured findings before continuing the plan.\n\n"@
                    + rendered,
            })
            &&& n.stage is Estimate
            &&& same_work(m, n)
            &&& n.outbox == m.outbox.push(EventModel::SessionUpdated { messages: n.state.messages })
        }),
        m.step(PlanInputModel::BarrierClear) == m.at(PlanStageModel::Estimate),
        ({
            let n = m.step(PlanInputModel::BarrierWaiting { count });
            n.stage == m.stage && n.state == m.state && n.outbox == m.outbox.push(
                EventModel::StatusUpdate {
                    message: "Waiting for "@ + decimal(count as nat)
                        + " explorer task(s) before planning..."@,
                },
            )
        }),
{
    reveal(PlanModel::step);
    reveal(PlanModel::barrier_completed);
    let n = m.step(PlanInputModel::BarrierCompleted { rendered });
    assert(n.state.messages.drop_last() =~= m.state.messages);
}

/// A conversation is compressed exactly when it needs to be, and a compressed one takes its place.
pub proof fn law_planning_compresses_when_needed(
    m: PlanModel,
    needed: bool,
    messages: Seq<MessageModel>,
)
    ensures
        m.stage is Estimate ==> {
            let n = m.step(PlanInputModel::Estimated { needs_compression: needed });
            &&& needed <==> n.stage is Compress
            &&& !needed <==> n.stage is Measure
            &&& n.state == m.state
            &&& n.outbox == m.outbox
        },
        m.stage is Compress ==> {
            let n = m.step(PlanInputModel::Compressed { messages });
            n.state.messages == messages && n.stage is Measure && n.outbox == m.outbox && same_work(
                m,
                n,
            )
        },
{
    reveal(PlanModel::step);
}

/// Whatever goes wrong around the model is reported, once and as it is, and ends the planning; the
/// conversation stays.
pub proof fn law_planning_failures_are_reported(m: PlanModel, message: Seq<char>)
    ensures
        forall|input: PlanInputModel|
            input == (PlanInputModel::BarrierFailed { message }) || input == (
            PlanInputModel::CompressionFailed { message }) || input == (
            PlanInputModel::GenerationFailed { message }) ==> {
                let n = #[trigger] m.step(input);
                &&& n.stage == (PlanStageModel::Done { generation: GenerationModel::Failed })
                &&& n.state.phase is Error
                &&& n.state.messages == m.state.messages
                &&& n.outbox == m.outbox.push(EventModel::AgentError { message })
            },
        ({
            let n = m.step(PlanInputModel::StreamFailed);
            &&& n.stage == (PlanStageModel::Done { generation: GenerationModel::Failed })
            &&& n.state.phase is Error
            &&& n.state.messages == m.state.messages
            &&& n.outbox == m.outbox
        }),
        m.step(PlanInputModel::Interrupted).stage == (PlanStageModel::Done {
            generation: GenerationModel::Interrupted,
        }),
        m.step(PlanInputModel::Interrupted).state == m.state,
        m.step(PlanInputModel::ShutdownRequested).stage == (PlanStageModel::Done {
            generation: GenerationModel::Shutdown,
        }),
        m.step(PlanInputModel::ShutdownRequested).state == m.state,
{
    reveal(PlanModel::step);
}

/// Only an answer to the request at hand decides on a plan: approval approves it, denial denies
/// it, and feedback that says something is discussed as it is. A blank one, or one for another
/// request, decides nothing.
pub proof fn law_plans_are_decided_by_their_answers(
    id: Seq<char>,
    other: Seq<char>,
    feedback: Seq<char>,
    approved: bool,
)
    requires
        other != id,
    ensures
        plan_answer(Some(CommandModel::PlanResponse { request_id: id, approved: true }), id) == Some(
            PlanAnswerModel::Approved,
        ),
        plan_answer(Some(CommandModel::PlanResponse { request_id: id, approved: false }), id)
            == Some(PlanAnswerModel::Denied),
        plan_answer(Some(CommandModel::PlanResponse { request_id: other, approved }), id) is None,
        plan_answer(Some(CommandModel::PlanFeedback { request_id: other, feedback }), id) is None,
        trim(feedback).len() > 0 ==> plan_answer(
            Some(CommandModel::PlanFeedback { request_id: id, feedback }),
            id,
        ) == Some(PlanAnswerModel::ContinueDiscussing(feedback)),
        trim(feedback).len() == 0 ==> plan_answer(
            Some(CommandModel::PlanFeedback { request_id: id, feedback }),
            id,
        ) is None,
        plan_answer(Some(CommandModel::Interrupt), id) == Some(PlanAnswerModel::Interrupted),
        plan_answer(Some(CommandModel::Shutdown), id) == Some(PlanAnswerModel::Shutdown),
        plan_answer(None, id) == Some(PlanAnswerModel::Shutdown),
{
}

/// A plan that is approved is handed to the model whole, between a fixed beginning and a fixed
/// end.
pub proof fn law_approved_plans_are_handed_over_whole(plan: Seq<char>, other: Seq<char>)
    ensures
        exists|from: int|
            0 <= from && from + plan.len() <= approval_of(plan).len() && #[trigger] approval_of(
                plan,
            ).subrange(from, from + plan.len()) == plan,
        approval_of(plan) == approval_of(other) ==> plan == other,
{
    let head = crate::plan_executor::APPROVED_PLAN_HEAD@;
    let tail = crate::plan_executor::APPROVED_PLAN_TAIL@;
    let from = head.len() as int;
    assert(approval_of(plan).subrange(from, from + plan.len()) =~= plan);
    if approval_of(plan) == approval_of(other) {
        assert(approval_of(plan).len() == head.len() + plan.len() + tail.len());
        assert(approval_of(other).len() == head.len() + other.len() + tail.len());
        assert(approval_of(other).subrange(from, from + other.len()) =~= other);
    }
}

} // verus!
