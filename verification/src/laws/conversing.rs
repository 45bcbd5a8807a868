//! What commands, plans and answers do to a conversation.
use crate::agent_loop::{busy_control, ActionModel, BusyControl, LoopModel, PlanFollowUp};
use crate::event::{CommandModel, EventModel};
use crate::permission_handler::denial_reason;
use crate::plan_executor::{approval_of, GenerationModel, PlanAnswerModel};
use crate::plan_review::{DecisionModel, ReviewInputModel, ReviewModel, ReviewStageModel};
use crate::state::{StateModel, ToolResultModel};
use crate::types::{ContentBlockModel, EvaluationModel, MessageModel, ProfileModel, Role};
use vstd::prelude::*;

verus! {

/// Whether a conversation is another with one text more, said by someone.
pub open spec fn one_text_more(
    before: Seq<MessageModel>,
    after: Seq<MessageModel>,
    role: Role,
    text: Seq<char>,
) -> bool {
    &&& after.len() == before.len() + 1
    &&& after.drop_last() == before
    &&& after.last().role == role
    &&& after.last().content.len() == 1
    &&& after.last().content[0] == (ContentBlockModel::Text { text })
    &&& after.last().id is None
}

/// What is added to a conversation goes behind it, as it is: a text of the user, the blocks of the
/// assistant, and the results of tools in one message and in their order. No results add nothing.
pub proof fn law_messages_go_behind(
    state: StateModel,
    text: Seq<char>,
    content: Seq<ContentBlockModel>,
    results: Seq<ToolResultModel>,
    i: int,
)
    ensures
        one_text_more(state.messages, state.push_user(text).messages, Role::User, text),
        ({
            let after = state.push_assistant(content);
            &&& after.messages.len() == state.messages.len() + 1
            &&& after.messages.drop_last() == state.messages
            &&& after.messages.last().role is Assistant
            &&& after.messages.last().content == content
        }),
        results.len() == 0 ==> state.push_tool_results(results) == state,
        results.len() > 0 ==> {
            let after = state.push_tool_results(results);
            &&& after.messages.len() == state.messages.len() + 1
            &&& after.messages.drop_last() == state.messages
            &&& after.messages.last().role is Tool
            &&& after.messages.last().content.len() == results.len()
            &&& 0 <= i < results.len() ==> after.messages.last().content[i] == (
            ContentBlockModel::ToolResult {
                tool_use_id: results[i].tool_use_id,
                content: results[i].content,
                is_error: results[i].is_error,
            })
        },
        forall|after: StateModel|
            after == state.push_user(text) || after == state.push_assistant(content) || after
                == state.push_tool_results(results) ==> #[trigger] same_counts(state, after),
{
    assert(state.push_user(text).messages.drop_last() =~= state.messages);
    assert(state.push_assistant(content).messages.drop_last() =~= state.messages);
    if results.len() > 0 {
        assert(state.push_tool_results(results).messages.drop_last() =~= state.messages);
    }
}

/// Whether two states differ in nothing but their conversation.
pub open spec fn same_counts(a: StateModel, b: StateModel) -> bool {
    &&& a.phase == b.phase
    &&& a.turn_count == b.turn_count
    &&& a.total_input_tokens == b.total_input_tokens
    &&& a.total_output_tokens == b.total_output_tokens
    &&& a.plan_mode_enabled == b.plan_mode_enabled
    &&& a.reasoning_effort == b.reasoning_effort
    &&& a.session_title_pending == b.session_title_pending
}

/// A conversation starts with the system prompt, unless it brings a system message of its own; a
/// title is wanted unless the user has spoken before.
pub proof fn law_conversations_start_with_the_prompt(
    prompt: Option<Seq<char>>,
    initial: Seq<MessageModel>,
)
    ensures
        ({
            let state = StateModel::start(prompt, initial);
            let brings = initial.len() > 0 && initial[0].role is System;
            &&& prompt is None || brings ==> state.messages == initial
            &&& prompt is Some && !brings ==> state.messages.len() == initial.len() + 1
                && state.messages.skip(1) == initial && state.messages[0].role is System
                && state.messages[0].content == seq![ContentBlockModel::Text { text: prompt->0 }]
            &&& state.session_title_pending <==> forall|i: int|
                0 <= i < initial.len() ==> !((#[trigger] initial[i]).role is User)
            &&& state.phase is Idle
            &&& state.turn_count == 0
            &&& state.total_input_tokens == 0
            &&& state.total_output_tokens == 0
            &&& !state.plan_mode_enabled
            &&& state.reasoning_effort is None
        }),
{
    let state = StateModel::start(prompt, initial);
    if prompt is Some && !(initial.len() > 0 && initial[0].role is System) {
        assert(state.messages.skip(1) =~= initial);
    }
}

/// Clearing a conversation keeps its system messages in their order and starts all counts anew; the
/// settings stay.
pub proof fn law_clearing_starts_anew(state: StateModel)
    ensures
        state.cleared().phase is Idle,
        state.cleared().turn_count == 0,
        state.cleared().total_input_tokens == 0,
        state.cleared().total_output_tokens == 0,
        state.cleared().session_title_pending,
        state.cleared().plan_mode_enabled == state.plan_mode_enabled,
        state.cleared().reasoning_effort == state.reasoning_effort,
        (forall|i: int| 0 <= i < state.messages.len() ==> (#[trigger] state.messages[i]).role is System)
            ==> state.cleared().messages == state.messages,
        state.cleared().messages.len() <= state.messages.len(),
{
    let is_system = |message: MessageModel| message.role is System;
    lemma_filter_all(state.messages, is_system);
}

proof fn lemma_filter_all(messages: Seq<MessageModel>, keep: spec_fn(MessageModel) -> bool)
    ensures
        (forall|i: int| 0 <= i < messages.len() ==> keep(#[trigger] messages[i])) ==> messages.filter(
            keep,
        ) == messages,
        messages.filter(keep).len() <= messages.len(),
    decreases messages.len(),
{
    reveal(Seq::filter);
    if messages.len() > 0 {
        let front = messages.drop_last();
        lemma_filter_all(front, keep);
        if forall|i: int| 0 <= i < messages.len() ==> keep(#[trigger] messages[i]) {
            assert forall|i: int| 0 <= i < front.len() implies keep(#[trigger] front[i]) by {
                assert(front[i] == messages[i]);
            }
            assert(keep(messages[messages.len() - 1]));
            assert(front.push(messages.last()) =~= messages);
        }
    }
}

/// What the user says is added to the conversation as it is and starts a turn, or a plan where
/// plans come first or were asked for.
pub proof fn law_messages_are_worked_on(m: LoopModel, message: Seq<char>)
    ensures
        ({
            let (n, action) = m.command(Some(CommandModel::Process { message }));
            &&& one_text_more(m.state.messages, n.state.messages, Role::User, message)
            &&& n.outbox == m.outbox.push(EventModel::SessionUpdated { messages: n.state.messages })
            &&& same_counts(m.state, n.state)
            &&& n.model == m.model
            &&& m.state.plan_mode_enabled ==> action is StartPlan
            &&& !m.state.plan_mode_enabled ==> action is StartTurn
        }),
        ({
            let (n, action) = m.command(Some(CommandModel::PlanProcess { message }));
            &&& one_text_more(m.state.messages, n.state.messages, Role::User, message)
            &&& n.outbox == m.outbox.push(EventModel::SessionUpdated { messages: n.state.messages })
            &&& same_counts(m.state, n.state)
            &&& action is StartPlan
        }),
{
    let n = m.command(Some(CommandModel::Process { message })).0;
    assert(n.state.messages.drop_last() =~= m.state.messages);
}

/// A setting takes the value that is asked for, is confirmed, and changes nothing else.
pub proof fn law_settings_take_their_value(
    m: LoopModel,
    enabled: bool,
    model: Seq<char>,
    max_tokens: usize,
    context_window: usize,
    effort: Option<Seq<char>>,
    models: Seq<ProfileModel>,
)
    ensures
        ({
            let (n, action) = m.command(Some(CommandModel::SetPlanMode { enabled }));
            &&& n.state.plan_mode_enabled == enabled
            &&& n.state.messages == m.state.messages
            &&& n.state.reasoning_effort == m.state.reasoning_effort
            &&& n.model == m.model
            &&& action is Idle
            &&& n.outbox == m.outbox.push(
                EventModel::StatusUpdate {
                    message: if enabled {
                        "Plan mode enabled. New tasks will require plan approval before execution."@
                    } else {
                        "Agent mode enabled. New tasks will execute directly."@
                    },
                },
            )
        }),
        ({
            let (n, action) = m.command(
                Some(CommandModel::SetModel { model, max_tokens, context_window }),
            );
            &&& n.model == model
            &&& n.max_tokens == max_tokens
            &&& n.context_window == context_window
            &&& n.state == m.state
            &&& action == (ActionModel::UpdateModel { model })
            &&& n.outbox == m.outbox.push(
                EventModel::StatusUpdate { message: "Model switched to "@ + model + "."@ },
            )
        }),
        ({
            let (n, action) = m.command(Some(CommandModel::SetReasoningEffort { effort }));
            &&& n.state.reasoning_effort == effort
            &&& n.state.plan_mode_enabled == m.state.plan_mode_enabled
            &&& n.state.messages == m.state.messages
            &&& action == (ActionModel::UpdateEffort { effort })
            &&& n.outbox.len() == m.outbox.len() + 1
            &&& effort is Some ==> n.outbox.last() == (EventModel::StatusUpdate {
                message: "Reasoning effort set to "@ + effort->0 + "."@,
            })
            &&& effort is None ==> n.outbox.last() == (EventModel::StatusUpdate {
                message: "Reasoning effort set to "@ + "off"@ + "."@,
            })
        }),
        ({
            let (n, action) = m.command(Some(CommandModel::SetAvailableModels { models }));
            n == m && action == (ActionModel::UpdateModels { models })
        }),
{
}

/// Stopping stops: a shutdown or a closed channel ends the agent, an interruption is reported and
/// reaches the subagents. An answer that nobody waits for goes to the subagents as it is.
pub proof fn law_stopping_stops(m: LoopModel, answer: CommandModel)
    ensures
        m.command(None) == (m, ActionModel::Exit),
        m.command(Some(CommandModel::Shutdown)).1 is Exit,
        m.command(Some(CommandModel::Shutdown)).0.state.phase is Finished,
        m.command(Some(CommandModel::Shutdown)).0.state.messages == m.state.messages,
        m.command(Some(CommandModel::Interrupt)).1 is InterruptSubagents,
        m.command(Some(CommandModel::Interrupt)).0.state.phase is Idle,
        m.command(Some(CommandModel::Interrupt)).0.state.messages == m.state.messages,
        m.command(Some(CommandModel::Interrupt)).0.outbox == m.outbox.push(EventModel::Interrupted),
        answer is PlanResponse || answer is PlanFeedback || answer is PermissionResponse || answer
            is FileChangePreviewResponse ==> m.command(Some(answer)) == (
            m,
            ActionModel::Route { command: answer },
        ),
{
}

/// Clearing a session tells the client what is left of the conversation.
pub proof fn law_clearing_is_told(m: LoopModel)
    ensures
        ({
            let (n, action) = m.command(Some(CommandModel::ClearSession));
            &&& action is Idle
            &&& n.state == m.state.cleared()
            &&& n.outbox == m.outbox.push(
                EventModel::SessionUpdated { messages: n.state.messages },
            ).push(EventModel::StatusUpdate { message: "Conversation cleared."@ })
            &&& n.model == m.model
        }),
{
}

/// Plans to resume and permissions to show are handed on, and nothing changes.
pub proof fn law_requests_are_handed_on(m: LoopModel, plan_path: Seq<char>)
    ensures
        m.command(Some(CommandModel::ResumePlan { plan_path })) == (
            m,
            ActionModel::ResumePlan { plan_path },
        ),
        m.command(Some(CommandModel::PermissionsSnapshot)) == (m, ActionModel::SnapshotPermissions),
{
}

/// An approved plan is put to the model as a message of the user and carried out; a rejected one
/// is said to be so, an interruption is reported, a shutdown ends the agent.
pub proof fn law_decisions_are_followed(m: LoopModel, plan: Seq<char>)
    ensures
        ({
            let (n, next) = m.plan_decided(DecisionModel::Approved { plan });
            &&& next is Act
            &&& one_text_more(m.state.messages, n.state.messages, Role::User, approval_of(plan))
            &&& same_counts(m.state, n.state)
            &&& n.outbox.len() == m.outbox.len() + 2
            &&& n.outbox.last() == (EventModel::SessionUpdated { messages: n.state.messages })
        }),
        ({
            let (n, next) = m.plan_decided(DecisionModel::Rejected);
            &&& next is Cancel
            &&& n.state.phase is Idle
            &&& n.state.messages == m.state.messages
            &&& n.outbox == m.outbox.push(
                EventModel::StatusUpdate { message: "Plan rejected."@ },
            ).push(EventModel::AgentFinished { final_message: "Plan rejected."@ })
        }),
        ({
            let (n, next) = m.plan_decided(DecisionModel::Interrupted);
            &&& next is Interrupt
            &&& n.state.phase is Idle
            &&& n.outbox == m.outbox.push(EventModel::Interrupted)
        }),
        ({
            let (n, next) = m.plan_decided(DecisionModel::Shutdown);
            next is Exit && n.state.phase is Finished && n.outbox == m.outbox
        }),
        ({
            let (n, next) = m.plan_decided(DecisionModel::Failed);
            &&& next is Cancel
            &&& n.outbox == m.outbox
            &&& m.state.phase is Error ==> n.state.phase is Error
            &&& !(m.state.phase is Error) ==> n.state.phase is Idle
        }),
{
    let n = m.plan_decided(DecisionModel::Approved { plan }).0;
    assert(n.state.messages.drop_last() =~= m.state.messages);
}

/// A turn that was interrupted is reported so and interrupts the subagents; one that failed or was
/// shut down cancels them; only a shutdown ends the agent. The conversation stays.
pub proof fn law_turns_end_as_they_were_stopped(m: LoopModel, interrupted: bool, shutdown: bool)
    ensures
        ({
            let (n, next) = m.turn_ended(interrupted, shutdown);
            &&& n.state.messages == m.state.messages
            &&& next.interrupt_subagents == interrupted
            &&& next.exit == shutdown
            &&& next.cancel_subagents == (shutdown || (!interrupted && m.state.phase is Error))
            &&& interrupted ==> n.outbox == m.outbox.push(EventModel::Interrupted)
            &&& !interrupted ==> n.outbox == m.outbox
            &&& shutdown ==> n.state.phase is Finished
            &&& !shutdown && interrupted ==> n.state.phase is Idle
            &&& !shutdown && !interrupted ==> n.state == m.state
        }),
{
}

/// While the agent works, only an interruption or a shutdown of its own stops it.
pub proof fn law_only_stops_stop_a_busy_agent(command: Option<CommandModel>)
    ensures
        busy_control(command, true) is Continue,
        busy_control(command, false) is Interrupt <==> command == Some(CommandModel::Interrupt),
        busy_control(command, false) is Shutdown <==> command is None || command == Some(
            CommandModel::Shutdown,
        ),
{
}

/// A plan that was generated is written, and is asked about as it was generated, under the path
/// that it was written to.
pub proof fn law_generated_plans_are_asked_about(
    m: ReviewModel,
    state: StateModel,
    plan: Seq<char>,
    fresh_id: Seq<char>,
)
    requires
        m.stage is Generate,
    ensures
        ({
            let written = m.step(
                ReviewInputModel::Generated { state, generation: GenerationModel::Plan(plan) },
                fresh_id,
            );
            let asked = written.step(ReviewInputModel::Written, fresh_id);
            &&& written.stage is Write
            &&& written.plan == plan
            &&& written.plan_path == m.plan_path
            &&& written.state == state
            &&& written.outbox == m.outbox
            &&& asked.stage == (ReviewStageModel::Ask { request_id: fresh_id })
            &&& asked.plan == plan
            &&& asked.state.messages == state.messages
            &&& asked.state.phase is WaitingForPlanApproval
            &&& asked.outbox == m.outbox.push(
                EventModel::PlanApprovalNeeded {
                    request_id: fresh_id,
                    plan,
                    plan_path: m.plan_path,
                    restored: false,
                },
            )
        }),
        ({
            let n = m.step(
                ReviewInputModel::Generated { state, generation: GenerationModel::Interrupted },
                fresh_id,
            );
            n.stage == (ReviewStageModel::Done { decision: DecisionModel::Interrupted })
                && n.state == state
        }),
        ({
            let n = m.step(
                ReviewInputModel::Generated { state, generation: GenerationModel::Shutdown },
                fresh_id,
            );
            n.stage == (ReviewStageModel::Done { decision: DecisionModel::Shutdown }) && n.state
                == state
        }),
        ({
            let n = m.step(
                ReviewInputModel::Generated { state, generation: GenerationModel::Failed },
                fresh_id,
            );
            n.stage == (ReviewStageModel::Done { decision: DecisionModel::Failed }) && n.state
                == state
        }),
{
}

/// The answer of the user decides: an approved plan is read back and carried out as it is read,
/// also where it was edited; feedback is put to the model with the plan, and a new plan is made.
pub proof fn law_answers_decide_on_plans(
    m: ReviewModel,
    plan: Seq<char>,
    feedback: Seq<char>,
    fresh_id: Seq<char>,
)
    requires
        m.stage is Ask,
    ensures
        ({
            let read = m.step(
                ReviewInputModel::Answered { outcome: PlanAnswerModel::Approved },
                fresh_id,
            );
            let done = read.step(ReviewInputModel::PlanRead { plan }, fresh_id);
            &&& read.stage is ReadApproved
            &&& done.stage == (ReviewStageModel::Done {
                decision: DecisionModel::Approved { plan },
            })
            &&& done.state == m.state
            &&& plan == m.plan ==> done.outbox == m.outbox
            &&& plan != m.plan ==> done.outbox == m.outbox.push(
                EventModel::StatusUpdate {
                    message: "Using externally edited plan from "@ + m.plan_path + "."@,
                },
            )
        }),
        ({
            let read = m.step(
                ReviewInputModel::Answered {
                    outcome: PlanAnswerModel::ContinueDiscussing(feedback),
                },
                fresh_id,
            );
            let next = read.step(ReviewInputModel::PlanRead { plan }, fresh_id);
            &&& read.stage == (ReviewStageModel::ReadDiscussed { feedback })
            &&& next.stage is Generate
            &&& next.plan_path == m.plan_path
            &&& next.state.messages.len() == m.state.messages.len() + 1
            &&& next.state.messages.drop_last() == m.state.messages
            &&& next.state.messages.last().role is User
            &&& next.state.messages.last().content.len() == 1
            &&& next.state.messages.last().content[0] == (ContentBlockModel::Text {
                text: crate::plan_review::DISCUSSION_HEAD@ + m.plan_path + "\n\nCurrent plan:\n"@
                    + plan + "\n\nUser feedback:\n"@ + feedback,
            })
            &&& next.outbox == m.outbox.push(
                EventModel::SessionUpdated { messages: next.state.messages },
            ).push(EventModel::StatusUpdate { message: "Updating plan from feedback..."@ })
        }),
        m.step(
            ReviewInputModel::Answered { outcome: PlanAnswerModel::Denied },
            fresh_id,
        ).stage == (ReviewStageModel::Done { decision: DecisionModel::Rejected }),
        m.step(
            ReviewInputModel::Answered { outcome: PlanAnswerModel::Interrupted },
            fresh_id,
        ).stage == (ReviewStageModel::Done { decision: DecisionModel::Interrupted }),
        m.step(
            ReviewInputModel::Answered { outcome: PlanAnswerModel::Shutdown },
            fresh_id,
        ).stage == (ReviewStageModel::Done { decision: DecisionModel::Shutdown }),
{
    let next = m.step(
        ReviewInputModel::Answered { outcome: PlanAnswerModel::ContinueDiscussing(feedback) },
        fresh_id,
    ).step(ReviewInputModel::PlanRead { plan }, fresh_id);
    assert(next.state.messages.drop_last() =~= m.state.messages);
}

/// A saved plan is asked about as it is read, as one that was restored; a new one is made first.
pub proof fn law_saved_plans_are_asked_about(
    state: StateModel,
    saved: Seq<char>,
    path: Seq<char>,
    plan: Seq<char>,
    fresh_id: Seq<char>,
)
    ensures
        ({
            let found = ReviewModel::of_saved_plan(state, saved);
            let located = found.step(ReviewInputModel::PathReady { path }, fresh_id);
            let asked = located.step(ReviewInputModel::PlanRead { plan }, fresh_id);
            &&& found.stage == (ReviewStageModel::Locate { saved_path: saved })
            &&& located.stage is Restore
            &&& asked.stage == (ReviewStageModel::Ask { request_id: fresh_id })
            &&& asked.plan == plan
            &&& asked.plan_path == path
            &&& asked.restored
            &&& asked.state.messages == state.messages
            &&& asked.outbox.last() == (EventModel::PlanApprovalNeeded {
                request_id: fresh_id,
                plan,
                plan_path: path,
                restored: true,
            })
        }),
        ({
            let begun = ReviewModel::of_new_plan(state);
            let ready = begun.step(ReviewInputModel::PathReady { path }, fresh_id);
            &&& one_text_more(
                state.messages,
                begun.state.messages,
                Role::User,
                crate::plan_executor::PLANNING_INSTRUCTION@,
            )
            &&& begun.stage is Prepare
            &&& ready.stage is Generate
            &&& ready.plan_path == path
        }),
{
    let begun = ReviewModel::of_new_plan(state);
    assert(begun.state.messages.drop_last() =~= state.messages);
}

/// A file that cannot be used ends the review, and what is wrong is reported as it is.
pub proof fn law_unusable_files_end_the_review(
    m: ReviewModel,
    message: Seq<char>,
    fresh_id: Seq<char>,
)
    ensures
        ({
            let n = m.step(ReviewInputModel::FileFailed { message }, fresh_id);
            &&& n.stage == (ReviewStageModel::Done { decision: DecisionModel::Failed })
            &&& n.state.phase is Error
            &&& n.state.messages == m.state.messages
            &&& n.outbox == m.outbox.push(EventModel::AgentError { message })
        }),
{
}

} // verus!
