//! What holds of every agent turn.
use crate::state::{result_block, result_message, ToolResultModel};
use crate::turn_executor::{
    completed_event, failed_event, is_pending, one_more, started_event, InputModel, OutcomeModel,
    ParallelCallModel, ResumeModel, StageModel, TurnModel, REPEATED_CALL_BLOCKED_MESSAGE,
    SUBAGENT_RESULTS_INTRODUCTION,
};
use crate::types::{ContentBlockModel, EvaluationModel, FinishReason, MessageModel};
use vstd::prelude::*;

verus! {

/// The calls that the tool results among these blocks answer.
pub open spec fn answers_in(content: Seq<ContentBlockModel>) -> Seq<Seq<char>>
    decreases content.len(),
{
    if content.len() == 0 {
        Seq::empty()
    } else {
        match content.last() {
            ContentBlockModel::ToolResult { tool_use_id, .. } => answers_in(
                content.drop_last(),
            ).push(tool_use_id),
            _ => answers_in(content.drop_last()),
        }
    }
}

/// The calls that these messages answer, in order.
pub open spec fn answers(messages: Seq<MessageModel>) -> Seq<Seq<char>>
    decreases messages.len(),
{
    if messages.len() == 0 {
        Seq::empty()
    } else {
        answers(messages.drop_last()) + answers_in(messages.last().content)
    }
}

/// Whether the conversation only grew from `m` to `n`.
pub open spec fn only_grew(m: TurnModel, n: TurnModel) -> bool {
    m.state.messages.len() <= n.state.messages.len() && n.state.messages.subrange(
        0,
        m.state.messages.len() as int,
    ) == m.state.messages
}

/// The calls answered between `m` and `n`.
pub open spec fn answered(m: TurnModel, n: TurnModel) -> Seq<Seq<char>> {
    answers(
        n.state.messages.subrange(
            m.state.messages.len() as int,
            n.state.messages.len() as int,
        ),
    )
}

/// The calls that wait to run together.
pub open spec fn waiting_ids(batch: Seq<ParallelCallModel>) -> Seq<Seq<char>> {
    batch.map_values(|waiting: ParallelCallModel| waiting.call.id)
}

/// Whether the stage is about the call taken up last.
pub open spec fn is_about_current(stage: StageModel) -> bool {
    match stage {
        StageModel::Lookup => true,
        StageModel::Preflight { .. } => true,
        StageModel::Workers => true,
        StageModel::Check => true,
        StageModel::Preview { .. } => true,
        StageModel::Review { .. } => true,
        StageModel::RunPreviewed { .. } => true,
        StageModel::Permission { .. } => true,
        StageModel::Record { .. } => true,
        StageModel::Run { .. } => true,
        StageModel::Batch { resume } => !(resume is EndRound),
        _ => false,
    }
}

pub open spec fn current_id(m: TurnModel, present: bool) -> Seq<Seq<char>> {
    if present {
        seq![m.current().id]
    } else {
        Seq::empty()
    }
}

/// The calls that have been taken up and not answered: those that wait, and then the
/// current one.
pub open spec fn open_calls(m: TurnModel) -> Seq<Seq<char>> {
    waiting_ids(m.batch) + current_id(m, is_about_current(m.stage))
}

/// Nothing waits while a call runs alone or the user is asked about it.
pub open spec fn runs_alone(m: TurnModel) -> bool {
    match m.stage {
        StageModel::Review { .. } => m.batch.len() == 0,
        StageModel::RunPreviewed { .. } => m.batch.len() == 0,
        StageModel::Permission { .. } => m.batch.len() == 0,
        StageModel::Record { .. } => m.batch.len() == 0,
        StageModel::Run { .. } => m.batch.len() == 0,
        _ => true,
    }
}

proof fn lemma_result_answers(results: Seq<ToolResultModel>)
    ensures
        answers_in(result_message(results).content) == results.map_values(
            |result: ToolResultModel| result.tool_use_id,
        ),
    decreases results.len(),
{
    let content = result_message(results).content;
    let ids = results.map_values(|result: ToolResultModel| result.tool_use_id);
    if results.len() > 0 {
        let rest = results.drop_last();
        lemma_result_answers(rest);
        assert(content.drop_last() =~= result_message(rest).content);
        assert(content.last() == result_block(results.last()));
        assert(ids =~= rest.map_values(|result: ToolResultModel| result.tool_use_id).push(
            results.last().tool_use_id,
        ));
    } else {
        assert(content =~= Seq::empty());
        assert(ids =~= Seq::empty());
    }
}

proof fn lemma_answers_concat(a: Seq<MessageModel>, b: Seq<MessageModel>)
    ensures
        answers(a + b) == answers(a) + answers(b),
    decreases b.len(),
{
    if b.len() == 0 {
        assert(a + b =~= a);
        assert(answers(a) + answers(b) =~= answers(a));
    } else {
        lemma_answers_concat(a, b.drop_last());
        assert((a + b).drop_last() =~= a + b.drop_last());
        assert(answers(a + b) =~= answers(a) + answers(b));
    }
}

proof fn lemma_answered_in_turn(m: TurnModel, n: TurnModel, o: TurnModel)
    requires
        only_grew(m, n),
        only_grew(n, o),
    ensures
        only_grew(m, o),
        answered(m, o) == answered(m, n) + answered(n, o),
{
    let a = m.state.messages;
    let b = n.state.messages;
    let c = o.state.messages;
    assert(c.subrange(0, a.len() as int) =~= a) by {
        assert(b.subrange(0, a.len() as int) == a);
        assert forall|i: int| 0 <= i < a.len() implies c[i] == a[i] by {
            assert(c.subrange(0, b.len() as int)[i] == b[i]);
            assert(b.subrange(0, a.len() as int)[i] == a[i]);
        }
    }
    let first = b.subrange(a.len() as int, b.len() as int);
    let second = c.subrange(b.len() as int, c.len() as int);
    assert(c.subrange(a.len() as int, c.len() as int) =~= first + second) by {
        assert forall|i: int| a.len() <= i < b.len() implies c[i] == b[i] by {
            assert(c.subrange(0, b.len() as int)[i] == b[i]);
        }
    }
    lemma_answers_concat(first, second);
}

proof fn lemma_unchanged(m: TurnModel, n: TurnModel)
    requires
        n.state.messages == m.state.messages,
    ensures
        only_grew(m, n),
        answered(m, n) == Seq::<Seq<char>>::empty(),
{
    let a = m.state.messages;
    assert(a.subrange(0, a.len() as int) =~= a);
    assert(a.subrange(a.len() as int, a.len() as int) =~= Seq::empty());
}

proof fn lemma_pushed(m: TurnModel, n: TurnModel, message: MessageModel)
    requires
        n.state.messages == m.state.messages.push(message),
    ensures
        only_grew(m, n),
        answered(m, n) == answers_in(message.content),
{
    reveal_with_fuel(answers, 2);
    let a = m.state.messages;
    let b = n.state.messages;
    assert(b.subrange(0, a.len() as int) =~= a);
    let added = b.subrange(a.len() as int, b.len() as int);
    assert(added =~= seq![message]);
    assert(added.drop_last() =~= Seq::empty());
    assert(answers(added) =~= answers_in(message.content));
}

proof fn lemma_one_result(result: ToolResultModel)
    ensures
        answers_in(result_message(seq![result]).content) == seq![result.tool_use_id],
{
    lemma_result_answers(seq![result]);
    assert(seq![result].map_values(|result: ToolResultModel| result.tool_use_id) =~= seq![
        result.tool_use_id,
    ]);
}

proof fn lemma_answer(m: TurnModel, content: Seq<char>, is_error: bool)
    ensures
        ({
            let n = m.answer(content, is_error);
            &&& only_grew(m, n)
            &&& answered(m, n) == seq![m.current().id]
            &&& n.stage is NextCall
            &&& n.batch == m.batch
        }),
        ({
            let n = m.answer_tracked(content, is_error);
            &&& only_grew(m, n)
            &&& answered(m, n) == seq![m.current().id]
            &&& n.stage is NextCall
            &&& n.batch == m.batch
        }),
{
    reveal(TurnModel::answer);
    reveal(TurnModel::answer_tracked);
    reveal(TurnModel::counted);
    let plain = ToolResultModel { tool_use_id: m.current().id, content, is_error };
    lemma_one_result(plain);
    lemma_pushed(m, m.answer(content, is_error), result_message(seq![plain]));
    let (counted, result) = m.counted(m.current(), content, is_error);
    lemma_one_result(result);
    lemma_pushed(m, m.answer_tracked(content, is_error), result_message(seq![result]));
}

/// What a step owes: the calls that were open are answered in order or still open, and
/// nothing waits while a call runs alone.
spec fn settles(m: TurnModel, n: TurnModel, owed: Seq<Seq<char>>) -> bool {
    &&& only_grew(m, n)
    &&& answered(m, n) + open_calls(n) == owed
    &&& runs_alone(n)
}

proof fn lemma_settles_after(m: TurnModel, n: TurnModel, o: TurnModel, owed: Seq<Seq<char>>)
    requires
        n.state.messages == m.state.messages,
        settles(n, o, owed),
    ensures
        settles(m, o, owed),
{
    lemma_unchanged(m, n);
    lemma_answered_in_turn(m, n, o);
    assert(answered(m, n) + answered(n, o) =~= answered(n, o));
}

proof fn lemma_answer_settles(m: TurnModel, content: Seq<char>, is_error: bool)
    requires
        m.batch.len() == 0,
    ensures
        settles(m, m.answer(content, is_error), seq![m.current().id]),
        settles(m, m.answer_tracked(content, is_error), seq![m.current().id]),
        settles(m, m.call_failed(content), seq![m.current().id]),
{
    lemma_answer(m, content, is_error);
    assert(waiting_ids(m.batch) =~= Seq::empty());
    let id = seq![m.current().id];
    assert(id + (waiting_ids(m.batch) + Seq::empty()) =~= id);
    reveal(TurnModel::call_failed);
    let shown = m.emit(failed_event(m.current(), content));
    lemma_answer(shown, content, true);
    assert(settles(shown, m.call_failed(content), id));
    lemma_settles_after(m, shown, m.call_failed(content), id);
}

proof fn lemma_stays_open(m: TurnModel, n: TurnModel)
    requires
        n.state.messages == m.state.messages,
        n.batch == m.batch,
        n.calls == m.calls,
        n.taken == m.taken,
        is_about_current(n.stage),
        runs_alone(n),
    ensures
        settles(m, n, waiting_ids(m.batch) + seq![m.current().id]),
{
    lemma_unchanged(m, n);
    let open = waiting_ids(m.batch) + seq![m.current().id];
    assert(answered(m, n) + open_calls(n) =~= open);
}

proof fn lemma_recheck_settles(m: TurnModel)
    requires
        m.batch.len() == 0 || !m.is_blocked(),
    ensures
        settles(m, m.recheck(), waiting_ids(m.batch) + seq![m.current().id]),
{
    reveal(TurnModel::recheck);
    let id = seq![m.current().id];
    if m.is_blocked() {
        let shown = m.emit(started_event(m.current())).emit(
            failed_event(m.current(), REPEATED_CALL_BLOCKED_MESSAGE@),
        );
        lemma_answer_settles(shown, REPEATED_CALL_BLOCKED_MESSAGE@, true);
        let n = shown.answer(REPEATED_CALL_BLOCKED_MESSAGE@, true);
        let o = TurnModel { blocked_repeat_calls: one_more(m.blocked_repeat_calls), ..n };
        reveal(TurnModel::answer);
        assert(m.recheck() == o);
        assert(answered(shown, o) == answered(shown, n));
        assert(settles(shown, o, id));
        lemma_settles_after(m, shown, o, id);
        assert(waiting_ids(m.batch) + id =~= id);
    } else {
        lemma_stays_open(m, m.recheck());
    }
}

proof fn lemma_resume_settles(m: TurnModel, resume: ResumeModel, fresh_id: Seq<char>)
    requires
        m.batch.len() == 0,
    ensures
        settles(m, m.resume(resume, fresh_id), current_id(m, !(resume is EndRound))),
{
    reveal(TurnModel::resume);
    let id = seq![m.current().id];
    let n = m.resume(resume, fresh_id);
    assert(waiting_ids(m.batch) =~= Seq::empty());
    assert(waiting_ids(m.batch) + id =~= id);
    match resume {
        ResumeModel::Recheck => lemma_recheck_settles(m),
        ResumeModel::Missing => {
            let told = m.tell("Adjusting tool selection..."@);
            lemma_answer_settles(told, "Tool '"@ + m.current().name + "' not found"@, true);
            lemma_settles_after(m, told, n, id);
        },
        ResumeModel::Invalid { message } => {
            let told = m.tell("Adjusting tool arguments..."@);
            lemma_answer_settles(told, message, true);
            lemma_settles_after(m, told, n, id);
        },
        ResumeModel::Rejected { message } => {
            let told = m.tell("Adjusting tool command..."@);
            lemma_answer_settles(told, message, true);
            lemma_settles_after(m, told, n, id);
        },
        ResumeModel::Admit { safety } => {
            reveal(TurnModel::admitted);
            reveal(TurnModel::begin_check);
            lemma_stays_open(m, n);
        },
        ResumeModel::Unchecked { message } => {
            lemma_answer_settles(m.ensure_started(), message, true);
            lemma_settles_after(m, m.ensure_started(), n, id);
        },
        ResumeModel::Forbidden { evaluation } => lemma_forbid_settles(m, evaluation),
        ResumeModel::Unpreviewed { message } => {
            lemma_answer_settles(m.ensure_started(), message, true);
            lemma_settles_after(m, m.ensure_started(), n, id);
        },
        ResumeModel::Review { .. } => {
            reveal(TurnModel::review);
            reveal(TurnModel::run_previewed);
            lemma_stays_open(m, n);
        },
        ResumeModel::Resolve { evaluation } => {
            lemma_forbid_settles(m, evaluation);
            reveal(TurnModel::resolve);
            reveal(TurnModel::run);
            if !(evaluation.decision is Forbidden) {
                lemma_stays_open(m, n);
            }
        },
        ResumeModel::EndRound => {
            reveal(TurnModel::end_round);
            reveal(TurnModel::judge_round);
            reveal(TurnModel::begin_round);
            lemma_unchanged(m, n);
            assert(answered(m, n) + open_calls(n) =~= Seq::empty());
        },
    }
}

/// What is done once the waiting calls have run takes nothing back of the conversation.
pub proof fn law_resuming_keeps_the_conversation(
    m: TurnModel,
    resume: ResumeModel,
    fresh_id: Seq<char>,
)
    requires
        m.batch.len() == 0,
    ensures
        only_grew(m, m.resume(resume, fresh_id)),
{
    lemma_resume_settles(m, resume, fresh_id);
}

proof fn lemma_forbid_settles(m: TurnModel, evaluation: EvaluationModel)
    requires
        m.batch.len() == 0,
    ensures
        settles(m, m.forbid(evaluation), seq![m.current().id]),
{
    reveal(TurnModel::forbid);
    let reason = crate::permission_handler::denial_reason(evaluation);
    let shown = m.ensure_started().emit(failed_event(m.current(), reason));
    lemma_answer_settles(shown, "Permission denied: "@ + reason, true);
    lemma_settles_after(m, shown, m.forbid(evaluation), seq![m.current().id]);
}

proof fn lemma_flush_settles(m: TurnModel, resume: ResumeModel, fresh_id: Seq<char>)
    ensures
        settles(
            m,
            m.flush_then(resume, fresh_id),
            waiting_ids(m.batch) + current_id(m, !(resume is EndRound)),
        ),
{
    reveal(TurnModel::flush_then);
    let owed = waiting_ids(m.batch) + current_id(m, !(resume is EndRound));
    if m.batch.len() == 0 {
        lemma_resume_settles(m, resume, fresh_id);
        assert(owed =~= current_id(m, !(resume is EndRound)));
    } else {
        let n = m.flush_then(resume, fresh_id);
        lemma_unchanged(m, n);
        assert(answered(m, n) + open_calls(n) =~= owed);
    }
}

proof fn lemma_recorded_ids(
    m: TurnModel,
    waiting: Seq<ParallelCallModel>,
    outcomes: Seq<OutcomeModel>,
)
    requires
        waiting.len() == outcomes.len(),
    ensures
        m.record_outcomes(waiting, outcomes).1.map_values(
            |result: ToolResultModel| result.tool_use_id,
        ) == waiting_ids(waiting),
        ({
            let r = m.record_outcomes(waiting, outcomes).0;
            r == (TurnModel { guard: r.guard, outbox: r.outbox, ..m })
        }),
    decreases waiting.len(),
{
    let id_of = |result: ToolResultModel| result.tool_use_id;
    let results = m.record_outcomes(waiting, outcomes).1;
    if waiting.len() > 0 {
        reveal(TurnModel::record_outcome);
        reveal(TurnModel::counted);
        lemma_recorded_ids(m, waiting.drop_last(), outcomes.drop_last());
        let before = m.record_outcomes(waiting.drop_last(), outcomes.drop_last()).1;
        assert(results.map_values(id_of) =~= before.map_values(id_of).push(
            waiting.last().call.id,
        ));
        assert(waiting_ids(waiting) =~= waiting_ids(waiting.drop_last()).push(
            waiting.last().call.id,
        ));
    } else {
        assert(results.map_values(id_of) =~= waiting_ids(waiting));
    }
}

proof fn lemma_batch_settles(
    m: TurnModel,
    outcomes: Seq<OutcomeModel>,
    resume: ResumeModel,
    fresh_id: Seq<char>,
)
    requires
        m.batch.len() == outcomes.len(),
        m.batch.len() > 0,
    ensures
        settles(
            m,
            m.batch_executed(outcomes, resume, fresh_id),
            waiting_ids(m.batch) + current_id(m, !(resume is EndRound)),
        ),
{
    reveal(TurnModel::batch_executed);
    lemma_recorded_ids(m, m.batch, outcomes);
    let (recorded, results) = m.record_outcomes(m.batch, outcomes);
    let n = TurnModel { batch: Seq::empty(), ..recorded }.with_state(
        recorded.state.push_tool_results(results),
    ).session_updated();
    let o = n.resume(resume, fresh_id);
    let ids = results.map_values(|result: ToolResultModel| result.tool_use_id);
    assert(ids.len() == results.len());
    lemma_result_answers(results);
    lemma_pushed(m, n, result_message(results));
    assert(answered(m, n) == waiting_ids(m.batch));
    lemma_resume_settles(n, resume, fresh_id);
    lemma_answered_in_turn(m, n, o);
    assert(answered(m, o) + open_calls(o) =~= answered(m, n) + (answered(n, o) + open_calls(o)));
}

/// Every tool call is answered exactly once, and in the order in which the model asked
/// for it: at each step the calls that were open, and the one just taken up, are either
/// answered now, in order, or still open. Only an interrupt or a shutdown leaves calls
/// unanswered.
pub proof fn law_calls_are_answered_in_order(m: TurnModel, input: InputModel, fresh_id: Seq<char>)
    requires
        m.wf(),
        m.calls.len() <= usize::MAX,
        m.expects(input),
        !m.is_requesting(),
        !(m.stage is Done),
        runs_alone(m),
        m.stage is Batch ==> m.batch.len() > 0,
        !(input is Interrupted),
        !(input is ShutdownRequested),
    ensures
        ({
            let n = m.step(input, fresh_id);
            let taken = if m.stage is NextCall && m.taken < m.calls.len() {
                seq![m.calls[m.taken as int].id]
            } else {
                Seq::empty()
            };
            &&& only_grew(m, n)
            &&& open_calls(m) + taken == answered(m, n) + open_calls(n)
            &&& runs_alone(n)
            &&& n.stage is Batch ==> n.batch.len() > 0
        }),
{
    reveal(TurnModel::call_step);
    reveal(TurnModel::outcome_step);
    let n = m.step(input, fresh_id);
    let f = m.at(StageModel::Done);
    let owed = waiting_ids(m.batch) + current_id(m, is_about_current(m.stage));
    assert(owed + Seq::empty() =~= owed);
    let id = seq![m.current().id];
    assert(m.batch.len() == 0 ==> waiting_ids(m.batch) + id =~= id);
    lemma_batches_are_not_empty(m, input, fresh_id);
    match input {
        InputModel::Advance => {
            reveal(TurnModel::next_call);
            if m.taken >= m.calls.len() {
                lemma_flush_settles(f, ResumeModel::EndRound, fresh_id);
                lemma_settles_after(m, f, n, owed);
            } else {
                let taken = TurnModel { taken: one_more(f.taken), started: false, ..f };
                let with_taken = waiting_ids(m.batch) + seq![taken.current().id];
                lemma_flush_settles(taken, ResumeModel::Recheck, fresh_id);
                if !(taken.is_blocked() || is_pending(taken.batch, taken.current())) {
                    lemma_recheck_settles(taken);
                }
                lemma_settles_after(m, taken, n, with_taken);
                assert(owed + seq![m.calls[m.taken as int].id] =~= with_taken);
            }
        },
        InputModel::ToolMissing => {
            lemma_flush_settles(f, ResumeModel::Missing, fresh_id);
            lemma_settles_after(m, f, n, owed);
        },
        InputModel::ToolFound { schema, safety } => {
            reveal(TurnModel::tool_found);
            let call = m.current();
            match crate::validation::rejection(
                call.name,
                crate::json::json_model(schema),
                crate::json::json_model(call.input),
            ) {
                Some(message) => {
                    lemma_flush_settles(f, ResumeModel::Invalid { message }, fresh_id);
                    lemma_settles_after(m, f, n, owed);
                },
                None => lemma_stays_open(m, n),
            }
        },
        InputModel::PreflightPassed => {
            reveal(TurnModel::preflight_passed);
            let safety = m.stage->Preflight_safety;
            let parallel = safety.is_read_only && safety.is_concurrency_safe;
            let judged = TurnModel { can_run_in_parallel: parallel, ..f };
            if parallel {
                reveal(TurnModel::admitted);
                reveal(TurnModel::begin_check);
                lemma_stays_open(m, n);
            } else {
                lemma_flush_settles(judged, ResumeModel::Admit { safety }, fresh_id);
                lemma_settles_after(m, judged, n, owed);
            }
        },
        InputModel::PreflightRejected { message } => {
            lemma_flush_settles(f, ResumeModel::Rejected { message }, fresh_id);
            lemma_settles_after(m, f, n, owed);
        },
        InputModel::WorkersIdle => {
            reveal(TurnModel::begin_check);
            lemma_stays_open(m, n);
        },
        InputModel::Evaluated { evaluation } => {
            reveal(TurnModel::evaluated);
            if evaluation.decision is Forbidden {
                lemma_flush_settles(f, ResumeModel::Forbidden { evaluation }, fresh_id);
                lemma_settles_after(m, f, n, owed);
            } else {
                lemma_stays_open(m, n);
            }
        },
        InputModel::CheckFailed { message } => {
            lemma_flush_settles(f, ResumeModel::Unchecked { message }, fresh_id);
            lemma_settles_after(m, f, n, owed);
        },
        InputModel::NoPreview => {
            reveal(TurnModel::no_preview);
            let evaluation = m.stage->Preview_evaluation;
            if m.can_run_in_parallel && evaluation.decision is Allow {
                lemma_unchanged(m, n);
                assert(waiting_ids(n.batch) =~= waiting_ids(m.batch).push(m.current().id));
                assert(answered(m, n) + open_calls(n) =~= owed);
            } else {
                lemma_flush_settles(f, ResumeModel::Resolve { evaluation }, fresh_id);
                lemma_settles_after(m, f, n, owed);
            }
        },
        InputModel::PreviewReady { preview, is_noop } => {
            let evaluation = m.stage->Preview_evaluation;
            lemma_flush_settles(f, ResumeModel::Review { evaluation, preview, is_noop }, fresh_id);
            lemma_settles_after(m, f, n, owed);
        },
        InputModel::PreviewFailed { message } => {
            lemma_flush_settles(f, ResumeModel::Unpreviewed { message }, fresh_id);
            lemma_settles_after(m, f, n, owed);
        },
        InputModel::ReviewApproved => {
            reveal(TurnModel::run_previewed);
            lemma_stays_open(m, n);
        },
        InputModel::ReviewDenied => {
            reveal(TurnModel::review_denied);
            let shown = TurnModel { guard: crate::guard::GuardModel::empty(), ..f }.emit(
                failed_event(f.current(), "File change rejected by user"@),
            );
            lemma_answer_settles(shown, "File change rejected by user"@, true);
            lemma_settles_after(m, shown, n, id);
        },
        InputModel::PermissionApproved { .. } => lemma_stays_open(m, n),
        InputModel::PermissionDenied => {
            reveal(TurnModel::permission_denied);
            lemma_stays_open(m, n);
        },
        InputModel::Recorded => {
            reveal(TurnModel::recorded);
            reveal(TurnModel::run);
            if m.stage->Record_approved {
                lemma_stays_open(m, n);
            } else {
                let reset = TurnModel { guard: crate::guard::GuardModel::empty(), ..f };
                lemma_answer_settles(reset, "Permission denied by user"@, true);
                lemma_settles_after(m, reset, n, id);
            }
        },
        InputModel::Executed { outcome } => {
            reveal(TurnModel::executed);
            match outcome {
                OutcomeModel::Completed(result) => {
                    let shown = f.emit(completed_event(f.current(), result));
                    lemma_answer_settles(shown, result, false);
                    lemma_settles_after(m, shown, n, id);
                },
                OutcomeModel::Failed(error) => {
                    lemma_answer_settles(f, error, true);
                    lemma_settles_after(m, f, n, id);
                },
            }
        },
        InputModel::BatchExecuted { outcomes } => {
            lemma_batch_settles(f, outcomes, m.stage->Batch_resume, fresh_id);
            lemma_settles_after(m, f, n, owed);
        },
        _ => {},
    }
}

proof fn lemma_resume_starts_no_batch(m: TurnModel, resume: ResumeModel, fresh_id: Seq<char>)
    ensures
        !(m.resume(resume, fresh_id).stage is Batch),
{
    reveal(TurnModel::resume);
    reveal(TurnModel::recheck);
    reveal(TurnModel::answer);
    reveal(TurnModel::answer_tracked);
    reveal(TurnModel::call_failed);
    reveal(TurnModel::admitted);
    reveal(TurnModel::begin_check);
    reveal(TurnModel::forbid);
    reveal(TurnModel::review);
    reveal(TurnModel::run_previewed);
    reveal(TurnModel::resolve);
    reveal(TurnModel::run);
    reveal(TurnModel::end_round);
    reveal(TurnModel::judge_round);
    reveal(TurnModel::begin_round);
}

proof fn lemma_flush_starts_full_batch(m: TurnModel, resume: ResumeModel, fresh_id: Seq<char>)
    ensures
        ({
            let n = m.flush_then(resume, fresh_id);
            n.stage is Batch ==> n.batch.len() > 0
        }),
{
    reveal(TurnModel::flush_then);
    lemma_resume_starts_no_batch(m, resume, fresh_id);
}

proof fn lemma_batches_are_not_empty(m: TurnModel, input: InputModel, fresh_id: Seq<char>)
    requires
        m.expects(input),
        !m.is_requesting(),
        !(m.stage is Done),
        !(input is Interrupted),
        !(input is ShutdownRequested),
    ensures
        m.step(input, fresh_id).stage is Batch ==> m.step(input, fresh_id).batch.len() > 0,
{
    reveal(TurnModel::call_step);
    reveal(TurnModel::outcome_step);
    let f = m.at(StageModel::Done);
    match input {
        InputModel::Advance => {
            reveal(TurnModel::next_call);
            reveal(TurnModel::recheck);
            reveal(TurnModel::answer);
            lemma_flush_starts_full_batch(f, ResumeModel::EndRound, fresh_id);
            let taken = TurnModel { taken: one_more(f.taken), started: false, ..f };
            lemma_flush_starts_full_batch(taken, ResumeModel::Recheck, fresh_id);
        },
        InputModel::ToolMissing => {
            lemma_flush_starts_full_batch(f, ResumeModel::Missing, fresh_id);
        },
        InputModel::ToolFound { schema, safety } => {
            reveal(TurnModel::tool_found);
            let call = f.current();
            if let Some(message) = crate::validation::rejection(
                call.name,
                crate::json::json_model(schema),
                crate::json::json_model(call.input),
            ) {
                lemma_flush_starts_full_batch(f, ResumeModel::Invalid { message }, fresh_id);
            }
        },
        InputModel::PreflightPassed => {
            reveal(TurnModel::preflight_passed);
            reveal(TurnModel::admitted);
            reveal(TurnModel::begin_check);
            let safety = m.stage->Preflight_safety;
            let parallel = safety.is_read_only && safety.is_concurrency_safe;
            lemma_flush_starts_full_batch(
                TurnModel { can_run_in_parallel: parallel, ..f },
                ResumeModel::Admit { safety },
                fresh_id,
            );
        },
        InputModel::PreflightRejected { message } => {
            lemma_flush_starts_full_batch(f, ResumeModel::Rejected { message }, fresh_id);
        },
        InputModel::WorkersIdle => {
            reveal(TurnModel::begin_check);
        },
        InputModel::Evaluated { evaluation } => {
            reveal(TurnModel::evaluated);
            lemma_flush_starts_full_batch(f, ResumeModel::Forbidden { evaluation }, fresh_id);
        },
        InputModel::CheckFailed { message } => {
            lemma_flush_starts_full_batch(f, ResumeModel::Unchecked { message }, fresh_id);
        },
        InputModel::NoPreview => {
            reveal(TurnModel::no_preview);
            let evaluation = m.stage->Preview_evaluation;
            lemma_flush_starts_full_batch(f, ResumeModel::Resolve { evaluation }, fresh_id);
        },
        InputModel::PreviewReady { preview, is_noop } => {
            let evaluation = m.stage->Preview_evaluation;
            lemma_flush_starts_full_batch(
                f,
                ResumeModel::Review { evaluation, preview, is_noop },
                fresh_id,
            );
        },
        InputModel::PreviewFailed { message } => {
            lemma_flush_starts_full_batch(f, ResumeModel::Unpreviewed { message }, fresh_id);
        },
        InputModel::ReviewApproved => {
            reveal(TurnModel::run_previewed);
        },
        InputModel::ReviewDenied => {
            reveal(TurnModel::review_denied);
            reveal(TurnModel::answer);
        },
        InputModel::PermissionDenied => {
            reveal(TurnModel::permission_denied);
        },
        InputModel::Recorded => {
            reveal(TurnModel::recorded);
            reveal(TurnModel::run);
            reveal(TurnModel::answer);
        },
        InputModel::Executed { .. } => {
            reveal(TurnModel::executed);
            reveal(TurnModel::answer_tracked);
            reveal(TurnModel::call_failed);
        },
        InputModel::BatchExecuted { outcomes } => {
            reveal(TurnModel::batch_executed);
            let (recorded, results) = f.record_outcomes(f.batch, outcomes);
            let n = TurnModel { batch: Seq::empty(), ..recorded }.with_state(
                recorded.state.push_tool_results(results),
            ).session_updated();
            lemma_resume_starts_no_batch(n, m.stage->Batch_resume, fresh_id);
        },
        _ => {},
    }
}

/// A tool call runs alone only where the policy allows it or the user has approved it,
/// and a previewed change is made only where it changes nothing, the policy allows it, or
/// the user has approved it.
pub proof fn law_no_call_runs_unpermitted(m: TurnModel, input: InputModel, fresh_id: Seq<char>)
    requires
        m.expects(input),
        !(input is Interrupted),
        !(input is ShutdownRequested),
    ensures
        m.step(input, fresh_id).stage is Run ==> {
            ||| m.stage matches StageModel::Preview { evaluation }
                && evaluation.decision is Allow
            ||| m.stage matches StageModel::Batch { resume: ResumeModel::Resolve { evaluation } }
                && evaluation.decision is Allow
            ||| m.stage matches StageModel::Record { approved, .. } && approved
        },
        m.step(input, fresh_id).stage is RunPreviewed ==> {
            ||| m.stage is Review && input is ReviewApproved
            ||| m.stage matches StageModel::Preview { evaluation }
                && input matches InputModel::PreviewReady { is_noop, .. } && (is_noop
                || evaluation.decision is Allow)
            ||| m.stage matches StageModel::Batch {
                resume: ResumeModel::Review { evaluation, is_noop, .. },
            } && (is_noop || evaluation.decision is Allow)
        },
{
    reveal(TurnModel::request_step);
    reveal(TurnModel::call_step);
    reveal(TurnModel::outcome_step);
    let f = m.at(StageModel::Done);
    match input {
        InputModel::Advance => {
            reveal(TurnModel::next_call);
            reveal(TurnModel::recheck);
            reveal(TurnModel::answer);
            lemma_run_after_flush(f, ResumeModel::EndRound, fresh_id);
            let taken = TurnModel { taken: one_more(f.taken), started: false, ..f };
            lemma_run_after_flush(taken, ResumeModel::Recheck, fresh_id);
        },
        InputModel::ToolMissing => lemma_run_after_flush(f, ResumeModel::Missing, fresh_id),
        InputModel::ToolFound { schema, safety } => {
            reveal(TurnModel::tool_found);
            let call = f.current();
            if let Some(message) = crate::validation::rejection(
                call.name,
                crate::json::json_model(schema),
                crate::json::json_model(call.input),
            ) {
                lemma_run_after_flush(f, ResumeModel::Invalid { message }, fresh_id);
            }
        },
        InputModel::PreflightPassed => {
            reveal(TurnModel::preflight_passed);
            reveal(TurnModel::admitted);
            reveal(TurnModel::begin_check);
            let safety = m.stage->Preflight_safety;
            let parallel = safety.is_read_only && safety.is_concurrency_safe;
            lemma_run_after_flush(
                TurnModel { can_run_in_parallel: parallel, ..f },
                ResumeModel::Admit { safety },
                fresh_id,
            );
        },
        InputModel::PreflightRejected { message } => lemma_run_after_flush(
            f,
            ResumeModel::Rejected { message },
            fresh_id,
        ),
        InputModel::WorkersIdle => {
            reveal(TurnModel::begin_check);
        },
        InputModel::Evaluated { evaluation } => {
            reveal(TurnModel::evaluated);
            lemma_run_after_flush(f, ResumeModel::Forbidden { evaluation }, fresh_id);
        },
        InputModel::CheckFailed { message } => lemma_run_after_flush(
            f,
            ResumeModel::Unchecked { message },
            fresh_id,
        ),
        InputModel::NoPreview => {
            reveal(TurnModel::no_preview);
            let evaluation = m.stage->Preview_evaluation;
            lemma_run_after_flush(f, ResumeModel::Resolve { evaluation }, fresh_id);
        },
        InputModel::PreviewReady { preview, is_noop } => lemma_run_after_flush(
            f,
            ResumeModel::Review { evaluation: m.stage->Preview_evaluation, preview, is_noop },
            fresh_id,
        ),
        InputModel::PreviewFailed { message } => lemma_run_after_flush(
            f,
            ResumeModel::Unpreviewed { message },
            fresh_id,
        ),
        InputModel::ReviewApproved => {
            reveal(TurnModel::run_previewed);
        },
        InputModel::ReviewDenied => {
            reveal(TurnModel::review_denied);
            reveal(TurnModel::answer);
        },
        InputModel::PermissionDenied => {
            reveal(TurnModel::permission_denied);
        },
        InputModel::Recorded => {
            reveal(TurnModel::recorded);
            reveal(TurnModel::run);
            reveal(TurnModel::answer);
        },
        InputModel::Executed { .. } => {
            reveal(TurnModel::executed);
            reveal(TurnModel::answer_tracked);
            reveal(TurnModel::call_failed);
        },
        InputModel::BatchExecuted { outcomes } => {
            reveal(TurnModel::batch_executed);
            let (recorded, results) = f.record_outcomes(f.batch, outcomes);
            let n = TurnModel { batch: Seq::empty(), ..recorded }.with_state(
                recorded.state.push_tool_results(results),
            ).session_updated();
            lemma_run_after_resume(n, m.stage->Batch_resume, fresh_id);
        },
        InputModel::PermissionApproved { .. } => {},
        _ => lemma_requests_run_nothing(m, input),
    }
}

proof fn lemma_requests_run_nothing(m: TurnModel, input: InputModel)
    requires
        m.is_requesting(),
        m.expects(input),
        !(input is Interrupted),
        !(input is ShutdownRequested),
    ensures
        !(m.request_step(input).stage is Run),
        !(m.request_step(input).stage is RunPreviewed),
{
    reveal(TurnModel::request_step);
    reveal(TurnModel::barrier_completed);
    reveal(TurnModel::estimated);
    reveal(TurnModel::compressed);
    reveal(TurnModel::measured);
    reveal(TurnModel::start_request);
    reveal(TurnModel::responded);
    reveal(TurnModel::normalized);
    reveal(TurnModel::refuse_calls);
}

proof fn lemma_run_after_resume(m: TurnModel, resume: ResumeModel, fresh_id: Seq<char>)
    ensures
        m.resume(resume, fresh_id).stage is Run ==> {
            resume matches ResumeModel::Resolve { evaluation } && evaluation.decision is Allow
        },
        m.resume(resume, fresh_id).stage is RunPreviewed ==> {
            resume matches ResumeModel::Review { evaluation, is_noop, .. } && (is_noop
                || evaluation.decision is Allow)
        },
{
    reveal(TurnModel::resume);
    reveal(TurnModel::recheck);
    reveal(TurnModel::answer);
    reveal(TurnModel::answer_tracked);
    reveal(TurnModel::call_failed);
    reveal(TurnModel::admitted);
    reveal(TurnModel::begin_check);
    reveal(TurnModel::forbid);
    reveal(TurnModel::review);
    reveal(TurnModel::run_previewed);
    reveal(TurnModel::resolve);
    reveal(TurnModel::run);
    reveal(TurnModel::end_round);
    reveal(TurnModel::judge_round);
    reveal(TurnModel::begin_round);
}

proof fn lemma_run_after_flush(m: TurnModel, resume: ResumeModel, fresh_id: Seq<char>)
    ensures
        m.flush_then(resume, fresh_id).stage is Run ==> {
            resume matches ResumeModel::Resolve { evaluation } && evaluation.decision is Allow
        },
        m.flush_then(resume, fresh_id).stage is RunPreviewed ==> {
            resume matches ResumeModel::Review { evaluation, is_noop, .. } && (is_noop
                || evaluation.decision is Allow)
        },
{
    reveal(TurnModel::flush_then);
    lemma_run_after_resume(m, resume, fresh_id);
}

/// A call that the policy forbids is answered with an error and does not run, whatever
/// waits before it.
pub proof fn law_forbidden_calls_do_not_run(
    m: TurnModel,
    evaluation: EvaluationModel,
    fresh_id: Seq<char>,
)
    requires
        m.stage is Check,
        evaluation.decision is Forbidden,
    ensures
        ({
            let n = m.step(InputModel::Evaluated { evaluation }, fresh_id);
            ||| n.stage is NextCall
            ||| n.stage matches StageModel::Batch { resume } && resume is Forbidden
        }),
        forall|batch_done: TurnModel|
            (#[trigger] batch_done.resume(
                ResumeModel::Forbidden { evaluation },
                fresh_id,
            )).stage is NextCall,
{
    reveal(TurnModel::call_step);
    reveal(TurnModel::evaluated);
    reveal(TurnModel::flush_then);
    reveal(TurnModel::resume);
    reveal(TurnModel::forbid);
    reveal(TurnModel::answer_tracked);
}

/// Stopping leaves the conversation and the events as they are and ends the turn.
pub proof fn law_stopping_changes_nothing_else(m: TurnModel, fresh_id: Seq<char>)
    ensures
        ({
            let n = m.step(InputModel::Interrupted, fresh_id);
            n == (TurnModel { interrupted: true, stage: StageModel::Done, ..m })
        }),
        ({
            let n = m.step(InputModel::ShutdownRequested, fresh_id);
            n == (TurnModel { shutdown_requested: true, stage: StageModel::Done, ..m })
        }),
{
}

/// A refused response leaves no trace in the conversation: it is reported as an error and
/// the turn ends.
pub proof fn law_refused_responses_leave_no_trace(
    m: TurnModel,
    response: crate::llm_response::ResponseModel,
    fresh_id: Seq<char>,
)
    requires
        m.stage is Generate,
        response.finish_reason == Some(FinishReason::ContentFilter),
    ensures
        ({
            let n = m.step(InputModel::Responded { response }, fresh_id);
            &&& n.state.messages == m.state.messages
            &&& n.state.phase is Error
            &&& n.stage is Done
            &&& n.state.session_title_pending == m.state.session_title_pending
            &&& n.outbox.len() == m.outbox.len() + 2
            &&& n.outbox.last() is AgentError
        }),
{
    reveal(TurnModel::request_step);
    reveal(TurnModel::responded);
}

/// A request for text alone is the last of its turn.
pub proof fn law_text_only_requests_end_the_turn(
    m: TurnModel,
    messages: Seq<MessageModel>,
    fresh_id: Seq<char>,
)
    requires
        m.stage is Normalize,
        m.text_only_request,
    ensures
        m.step(InputModel::Normalized { messages }, fresh_id).stage is Done,
{
    reveal(TurnModel::request_step);
    reveal(TurnModel::normalized);
    reveal(TurnModel::refuse_calls);
}

/// Two rounds in a row in which every call was blocked lead to a request for text alone.
pub proof fn law_blocked_rounds_force_text(m: TurnModel)
    requires
        m.blocked_repeat_calls == m.calls.len(),
        m.blocked_only_rounds == 1,
    ensures
        m.end_round().force_text_only,
        m.end_round().start_request().text_only_request,
{
    reveal(TurnModel::end_round);
    reveal(TurnModel::judge_round);
    reveal(TurnModel::begin_round);
    reveal(TurnModel::start_request);
}

/// Whether the machine prepares or sends a request.
pub open spec fn prepares_request(stage: StageModel) -> bool {
    stage is Estimate || stage is Compress || stage is Measure || stage is Generate
}

proof fn lemma_resume_keeps_to_calls(m: TurnModel, resume: ResumeModel, fresh_id: Seq<char>)
    ensures
        m.resume(resume, fresh_id).batch == m.batch,
        !prepares_request(m.resume(resume, fresh_id).stage),
{
    reveal(TurnModel::resume);
    reveal(TurnModel::recheck);
    reveal(TurnModel::answer);
    reveal(TurnModel::answer_tracked);
    reveal(TurnModel::counted);
    reveal(TurnModel::call_failed);
    reveal(TurnModel::admitted);
    reveal(TurnModel::begin_check);
    reveal(TurnModel::forbid);
    reveal(TurnModel::review);
    reveal(TurnModel::run_previewed);
    reveal(TurnModel::resolve);
    reveal(TurnModel::run);
    reveal(TurnModel::end_round);
    reveal(TurnModel::judge_round);
    reveal(TurnModel::begin_round);
}

proof fn lemma_flush_keeps_to_calls(m: TurnModel, resume: ResumeModel, fresh_id: Seq<char>)
    ensures
        m.flush_then(resume, fresh_id).batch == m.batch,
        !prepares_request(m.flush_then(resume, fresh_id).stage),
{
    reveal(TurnModel::flush_then);
    lemma_resume_keeps_to_calls(m, resume, fresh_id);
}

/// What a call does not lead to: a request before the round has ended, or a batch that
/// holds more than this call was allowed to add.
proof fn lemma_calls_keep_to_calls(m: TurnModel, input: InputModel, fresh_id: Seq<char>)
    requires
        m.expects(input),
        !m.is_requesting(),
        !(m.stage is Done),
        !(input is Interrupted),
        !(input is ShutdownRequested),
    ensures
        ({
            let n = m.step(input, fresh_id);
            &&& !prepares_request(n.stage)
            &&& {
                ||| n.batch == m.batch
                ||| input is BatchExecuted && n.batch.len() == 0
                ||| joins_batch(m, input, n)
            }
        }),
{
    reveal(TurnModel::call_step);
    reveal(TurnModel::outcome_step);
    let f = m.at(StageModel::Done);
    match input {
        InputModel::Advance => {
            reveal(TurnModel::next_call);
            reveal(TurnModel::recheck);
            reveal(TurnModel::answer);
            lemma_flush_keeps_to_calls(f, ResumeModel::EndRound, fresh_id);
            let taken = TurnModel { taken: one_more(f.taken), started: false, ..f };
            lemma_flush_keeps_to_calls(taken, ResumeModel::Recheck, fresh_id);
        },
        InputModel::ToolMissing => {
            lemma_flush_keeps_to_calls(f, ResumeModel::Missing, fresh_id);
        },
        InputModel::ToolFound { schema, safety } => {
            reveal(TurnModel::tool_found);
            let call = f.current();
            if let Some(message) = crate::validation::rejection(
                call.name,
                crate::json::json_model(schema),
                crate::json::json_model(call.input),
            ) {
                lemma_flush_keeps_to_calls(f, ResumeModel::Invalid { message }, fresh_id);
            }
        },
        InputModel::PreflightPassed => {
            reveal(TurnModel::preflight_passed);
            reveal(TurnModel::admitted);
            reveal(TurnModel::begin_check);
            let safety = m.stage->Preflight_safety;
            let parallel = safety.is_read_only && safety.is_concurrency_safe;
            lemma_flush_keeps_to_calls(
                TurnModel { can_run_in_parallel: parallel, ..f },
                ResumeModel::Admit { safety },
                fresh_id,
            );
        },
        InputModel::PreflightRejected { message } => {
            lemma_flush_keeps_to_calls(f, ResumeModel::Rejected { message }, fresh_id);
        },
        InputModel::WorkersIdle => {
            reveal(TurnModel::begin_check);
        },
        InputModel::Evaluated { evaluation } => {
            reveal(TurnModel::evaluated);
            lemma_flush_keeps_to_calls(f, ResumeModel::Forbidden { evaluation }, fresh_id);
        },
        InputModel::CheckFailed { message } => {
            lemma_flush_keeps_to_calls(f, ResumeModel::Unchecked { message }, fresh_id);
        },
        InputModel::NoPreview => {
            reveal(TurnModel::no_preview);
            let evaluation = m.stage->Preview_evaluation;
            lemma_flush_keeps_to_calls(f, ResumeModel::Resolve { evaluation }, fresh_id);
        },
        InputModel::PreviewReady { preview, is_noop } => {
            let evaluation = m.stage->Preview_evaluation;
            lemma_flush_keeps_to_calls(
                f,
                ResumeModel::Review { evaluation, preview, is_noop },
                fresh_id,
            );
        },
        InputModel::PreviewFailed { message } => {
            lemma_flush_keeps_to_calls(f, ResumeModel::Unpreviewed { message }, fresh_id);
        },
        InputModel::ReviewApproved => {
            reveal(TurnModel::run_previewed);
        },
        InputModel::ReviewDenied => {
            reveal(TurnModel::review_denied);
            reveal(TurnModel::answer);
        },
        InputModel::PermissionDenied => {
            reveal(TurnModel::permission_denied);
        },
        InputModel::Recorded => {
            reveal(TurnModel::recorded);
            reveal(TurnModel::run);
            reveal(TurnModel::answer);
        },
        InputModel::Executed { .. } => {
            reveal(TurnModel::executed);
            reveal(TurnModel::answer_tracked);
            reveal(TurnModel::counted);
            reveal(TurnModel::call_failed);
        },
        InputModel::BatchExecuted { outcomes } => {
            reveal(TurnModel::batch_executed);
            let (recorded, results) = f.record_outcomes(f.batch, outcomes);
            let n = TurnModel { batch: Seq::empty(), ..recorded }.with_state(
                recorded.state.push_tool_results(results),
            ).session_updated();
            lemma_resume_keeps_to_calls(n, m.stage->Batch_resume, fresh_id);
        },
        _ => {},
    }
}

/// Whether a step puts the current call into the batch, which takes a tool that may run
/// beside others and a policy that allows the call.
pub open spec fn joins_batch(m: TurnModel, input: InputModel, n: TurnModel) -> bool {
    &&& input is NoPreview
    &&& m.can_run_in_parallel
    &&& m.stage matches StageModel::Preview { evaluation }
    &&& evaluation.decision is Allow
    &&& n.batch == m.batch.push(
        ParallelCallModel { call: m.current(), sandbox_policy: evaluation.sandbox_policy },
    )
}

/// A call is set aside to run together with others only where its tool may run beside
/// others and the policy allows the call.
pub proof fn law_only_allowed_calls_run_together(
    m: TurnModel,
    input: InputModel,
    fresh_id: Seq<char>,
)
    requires
        m.expects(input),
    ensures
        ({
            let n = m.step(input, fresh_id);
            ||| n.batch == m.batch
            ||| n.batch.len() == 0
            ||| joins_batch(m, input, n)
        }),
{
    if input is Interrupted || input is ShutdownRequested {
    } else if m.is_requesting() {
        lemma_requests_come_in_order(m, input, fresh_id);
    } else {
        lemma_calls_keep_to_calls(m, input, fresh_id);
    }
}

#[verifier::spinoff_prover]
#[verifier::rlimit(50)]
proof fn lemma_requests_come_in_order(m: TurnModel, input: InputModel, fresh_id: Seq<char>)
    requires
        m.is_requesting(),
        m.expects(input),
        !(input is Interrupted),
        !(input is ShutdownRequested),
    ensures
        ({
            let n = m.step(input, fresh_id);
            &&& n.stage is Estimate ==> input is BarrierClear || input is BarrierCompleted
            &&& n.stage is Compress ==> m.stage is Estimate
            &&& n.stage is Measure ==> m.stage is Estimate || m.stage is Compress
            &&& n.stage is Generate ==> m.stage is Measure
            &&& n.batch == m.batch || n.batch.len() == 0
        }),
{
    reveal(TurnModel::request_step);
    reveal(TurnModel::barrier_completed);
    reveal(TurnModel::estimated);
    reveal(TurnModel::compressed);
    reveal(TurnModel::measured);
    reveal(TurnModel::start_request);
    reveal(TurnModel::responded);
    reveal(TurnModel::normalized);
    reveal(TurnModel::refuse_calls);
}

/// The model is asked nothing while results of subagents are outstanding. Every round begins
/// by waiting for them, only a clear barrier or their results let it go on, each later stage
/// of the request follows the one before it, and the results stand in the conversation then.
pub proof fn law_requests_wait_for_subagents(
    m: TurnModel,
    input: InputModel,
    fresh_id: Seq<char>,
)
    requires
        m.expects(input),
    ensures
        m.begin_round().stage is Barrier,
        ({
            let n = m.step(input, fresh_id);
            &&& n.stage is Estimate ==> m.stage is Barrier && (input is BarrierClear || input
                is BarrierCompleted)
            &&& n.stage is Compress ==> m.stage is Estimate
            &&& n.stage is Measure ==> m.stage is Estimate || m.stage is Compress
            &&& n.stage is Generate ==> m.stage is Measure
            &&& input matches InputModel::BarrierCompleted { rendered } ==> n.state.messages
                == m.state.push_user(SUBAGENT_RESULTS_INTRODUCTION@ + rendered).messages
        }),
{
    reveal(TurnModel::begin_round);
    if input is Interrupted || input is ShutdownRequested {
    } else if m.is_requesting() {
        lemma_requests_come_in_order(m, input, fresh_id);
        reveal(TurnModel::request_step);
        reveal(TurnModel::barrier_completed);
    } else {
        lemma_calls_keep_to_calls(m, input, fresh_id);
    }
}

} // verus!
