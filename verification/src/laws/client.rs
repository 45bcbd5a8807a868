//! What the client shows and keeps of what the agent tells.
use crate::event::EventModel;
use crate::session::{is_blank, SessionModel};
use crate::text::{decimal, join, starts_with};
use crate::types::{EvaluationModel, MessageModel, PreviewModel, ProfileModel, Usage};
use crate::ui::agent_events::is_saved;
use crate::ui::choice::{FilePreviewChoice, PermissionChoice, PlanChoice};
use crate::ui::state::{
    going_on, ActionModel, AfterListModel, AfterSaveModel, AfterSendModel, AppModel, MomentModel,
    PickerModel, SaveReason, StepModel,
};
use crate::ui::status::{activity_text, issue};
use crate::ui::steps::{profile_of, RefreshedModel};
use serde_json::Value;
use vstd::prelude::*;

verus! {

/// Whether a transcript is another with one message more.
pub open spec fn one_entry_more(
    before: AppModel,
    after: AppModel,
    role: Seq<char>,
    content: Seq<char>,
) -> bool {
    &&& after.messages.len() == before.messages.len() + 1
    &&& after.messages.drop_last() == before.messages
    &&& after.messages.last().role == role
    &&& after.messages.last().content == content
}

/// Text and reasoning are put behind what was streamed of each. Reasoning ends when text begins: it
/// goes into the transcript then, whole, with the seconds that it took.
pub proof fn law_streams_are_shown_whole(
    state: AppModel,
    text: Seq<char>,
    now: u64,
    shown: Seq<char>,
)
    ensures
        ({
            let next = state.on_event(EventModel::TextDelta(text), now, shown);
            let thought = state.reasoning_started_at is Some && state.reasoning_text.len() > 0;
            &&& next.streaming_text == state.streaming_text + text
            &&& next.reasoning_started_at is None
            &&& thought ==> one_entry_more(
                state,
                next,
                "reasoning:"@ + decimal(
                    if now >= state.reasoning_started_at->0 + 1_000_000_000 {
                        ((now - state.reasoning_started_at->0) / 1_000_000_000) as nat
                    } else {
                        1
                    },
                ),
                state.reasoning_text,
            ) && next.reasoning_text.len() == 0
            &&& !thought ==> next.messages == state.messages
            &&& next.core_messages == state.core_messages
            &&& next.status == state.status
        }),
        ({
            let next = state.on_event(EventModel::ReasoningDelta(text), now, shown);
            &&& next.reasoning_text == state.reasoning_text + text
            &&& next.streaming_text == state.streaming_text
            &&& next.messages == state.messages
            &&& state.reasoning_started_at is None ==> next.reasoning_started_at == Some(now)
            &&& state.reasoning_started_at is Some ==> next.reasoning_started_at
                == state.reasoning_started_at
        }),
{
    reveal(AppModel::on_event);
    let next = state.on_event(EventModel::TextDelta(text), now, shown);
    if state.reasoning_started_at is Some && state.reasoning_text.len() > 0 {
        assert(next.messages.drop_last() =~= state.messages);
    }
}

/// What was streamed goes into the transcript as one message of the assistant.
pub proof fn law_streamed_answers_become_messages(state: AppModel, now: u64)
    requires
        state.reasoning_started_at is None,
    ensures
        state.streaming_text.len() > 0 ==> one_entry_more(
            state,
            state.settled(now),
            "assistant"@,
            state.streaming_text,
        ),
        state.streaming_text.len() == 0 ==> state.settled(now).messages == state.messages,
        state.settled(now).streaming_text.len() == 0,
        state.settled(now).core_messages == state.core_messages,
        state.settled(now).status == state.status,
{
    if state.streaming_text.len() > 0 {
        assert(state.settled(now).messages.drop_last() =~= state.messages);
    }
}

/// A request for permission is put to the user as it is made, with the least choice selected.
pub proof fn law_permission_is_asked_for(
    state: AppModel,
    id: Seq<char>,
    name: Seq<char>,
    input: Value,
    evaluation: EvaluationModel,
    now: u64,
    shown: Seq<char>,
)
    ensures
        ({
            let next = state.on_event(
                EventModel::PermissionNeeded { request_id: id, tool_name: name, input, evaluation },
                now,
                shown,
            );
            &&& next.pending_permission is Some
            &&& (next.pending_permission->0).request_id == id
            &&& (next.pending_permission->0).tool_name == name
            &&& (next.pending_permission->0).input == input
            &&& (next.pending_permission->0).evaluation == Some(evaluation)
            &&& (next.pending_permission->0).selected is AllowOnce
            &&& next.status == "Permission required: "@ + name
            &&& next.messages == state.settled(now).messages
            &&& next.pending_plan == state.pending_plan
            &&& next.pending_file_preview == state.pending_file_preview
        }),
{
    reveal(AppModel::on_event);
}

/// A file change is put to the user with its diff in the transcript.
pub proof fn law_file_changes_are_shown(
    state: AppModel,
    id: Seq<char>,
    name: Seq<char>,
    input: Value,
    preview: PreviewModel,
    now: u64,
    shown: Seq<char>,
)
    ensures
        ({
            let next = state.on_event(
                EventModel::FileChangePreviewNeeded {
                    request_id: id,
                    tool_name: name,
                    input,
                    preview,
                },
                now,
                shown,
            );
            &&& next.pending_file_preview is Some
            &&& (next.pending_file_preview->0).request_id == id
            &&& (next.pending_file_preview->0).preview == preview
            &&& (next.pending_file_preview->0).selected is Apply
            &&& next.status == "Review changes: "@ + name
            &&& preview.before_exists ==> one_entry_more(
                state.settled(now),
                next,
                "diff"@,
                "Update"@ + ": "@ + preview.path + "\n"@ + preview.unified_diff,
            )
            &&& !preview.before_exists ==> one_entry_more(
                state.settled(now),
                next,
                "diff"@,
                "Create"@ + ": "@ + preview.path + "\n"@ + preview.unified_diff,
            )
        }),
{
    reveal(AppModel::on_event);
    let next = state.on_event(
        EventModel::FileChangePreviewNeeded { request_id: id, tool_name: name, input, preview },
        now,
        shown,
    );
    assert(next.messages.drop_last() =~= state.settled(now).messages);
}

/// A plan is put to the user; it is shown unless it was streamed before or is blank.
pub proof fn law_plans_are_shown(
    state: AppModel,
    id: Seq<char>,
    plan: Seq<char>,
    path: Seq<char>,
    restored: bool,
    now: u64,
    shown: Seq<char>,
)
    ensures
        ({
            let next = state.on_event(
                EventModel::PlanApprovalNeeded {
                    request_id: id,
                    plan,
                    plan_path: path,
                    restored,
                },
                now,
                shown,
            );
            let new = state.streaming_text.len() == 0 && !is_blank(plan);
            &&& next.pending_plan is Some
            &&& (next.pending_plan->0).request_id == id
            &&& (next.pending_plan->0).plan == plan
            &&& (next.pending_plan->0).selected is Approve
            &&& next.status == "Review plan."@
            &&& new ==> one_entry_more(state.settled(now), next, "assistant"@, plan)
            &&& !new ==> next.messages == state.settled(now).messages
        }),
{
    reveal(AppModel::on_event);
    let next = state.on_event(
        EventModel::PlanApprovalNeeded { request_id: id, plan, plan_path: path, restored },
        now,
        shown,
    );
    if state.streaming_text.len() == 0 && !is_blank(plan) {
        assert(next.messages.drop_last() =~= state.settled(now).messages);
    }
}

/// The end of a turn is told: that the client is ready, that it was interrupted, or the error,
/// which also stays in the transcript.
pub proof fn law_ends_of_turns_are_told(
    state: AppModel,
    message: Seq<char>,
    now: u64,
    shown: Seq<char>,
)
    ensures
        ({
            let next = state.on_event(
                EventModel::AgentFinished { final_message: message },
                now,
                shown,
            );
            &&& next.status == "Ready."@
            &&& next.messages == state.settled(now).messages
            &&& next.working_since is None
            &&& !next.interrupt_requested
        }),
        ({
            let next = state.on_event(EventModel::Interrupted, now, shown);
            &&& next.status == "Interrupted."@
            &&& next.messages == state.settled(now).messages
            &&& next.working_since is None
            &&& !next.interrupt_requested
        }),
        ({
            let next = state.on_event(EventModel::AgentError { message }, now, shown);
            &&& next.status == "Error: "@ + message
            &&& one_entry_more(state.settled(now), next, "error"@, "Error: "@ + message)
            &&& next.working_since is None
            &&& !next.interrupt_requested
        }),
{
    reveal(AppModel::on_event);
    let next = state.on_event(EventModel::AgentError { message }, now, shown);
    assert(next.messages.drop_last() =~= state.settled(now).messages);
}

/// The conversation that the agent reports takes the place of the one that was held; the
/// transcript stays.
pub proof fn law_reported_conversations_are_held(
    state: AppModel,
    messages: Seq<MessageModel>,
    now: u64,
    shown: Seq<char>,
)
    ensures
        ({
            let next = state.on_event(EventModel::SessionUpdated { messages }, now, shown);
            &&& next.core_messages == messages
            &&& next.messages == state.messages
            &&& next.streaming_text == state.streaming_text
            &&& next.status == state.status
        }),
{
    reveal(AppModel::on_event);
}

/// Tool calls and words on what goes on are told in the status. A status that speaks of thinking
/// begins the reasoning.
pub proof fn law_what_goes_on_is_told(
    state: AppModel,
    id: Seq<char>,
    name: Seq<char>,
    text: Seq<char>,
    input: Value,
    now: u64,
    shown: Seq<char>,
)
    ensures
        state.on_event(
            EventModel::ToolCallCompleted { id, name, result: text },
            now,
            shown,
        ).status == "Completed "@ + name + "."@,
        state.on_event(
            EventModel::ToolCallCompleted { id, name, result: text },
            now,
            shown,
        ).messages == state.messages,
        state.on_event(EventModel::ToolCallFailed { id, name, error: text }, now, shown).status
            == issue(name, text),
        state.on_event(EventModel::ToolCallFailed { id, name, error: text }, now, shown).messages
            == state.messages,
        name != "agent"@ ==> state.on_event(
            EventModel::ToolCallStarted { id, name, input },
            now,
            shown,
        ).status == activity_text(name, input, shown),
        name == "agent"@ ==> state.on_event(
            EventModel::ToolCallStarted { id, name, input },
            now,
            shown,
        ).status == state.status,
        state.on_event(EventModel::ToolCallStarted { id, name, input }, now, shown).messages
            == state.settled(now).messages,
        ({
            let next = state.on_event(EventModel::StatusUpdate { message: text }, now, shown);
            &&& next.status == text
            &&& !next.interrupt_requested
            &&& next.messages == state.messages
            &&& starts_with(text, "Thinking"@) && state.reasoning_started_at is None
                ==> next.reasoning_started_at == Some(now)
            &&& !starts_with(text, "Thinking"@) || state.reasoning_started_at is Some
                ==> next.reasoning_started_at == state.reasoning_started_at
        }),
{
    reveal(AppModel::on_event);
}

/// The tokens that are shown are those of the last turn that reported any.
pub proof fn law_the_last_tokens_are_shown(
    state: AppModel,
    usage: Usage,
    now: u64,
    shown: Seq<char>,
)
    ensures
        ({
            let next = state.on_event(EventModel::TurnComplete(usage), now, shown);
            let none = usage.input_tokens == 0 && usage.output_tokens == 0
                && usage.cached_input_tokens == 0 && usage.cache_miss_input_tokens == 0
                && usage.reasoning_output_tokens == 0;
            &&& none ==> next.last_usage == state.last_usage
            &&& !none ==> next.last_usage is Some && (next.last_usage->0).input_tokens
                == usage.input_tokens && (next.last_usage->0).output_tokens == usage.output_tokens
                && (next.last_usage->0).cached_input_tokens == usage.cached_input_tokens && (
            next.last_usage->0).cache_miss_input_tokens == usage.cache_miss_input_tokens && (
            next.last_usage->0).reasoning_output_tokens == usage.reasoning_output_tokens
            &&& next.messages == state.messages
            &&& next.status == state.status
        }),
{
    reveal(AppModel::on_event);
}

/// A snapshot of the permissions is shown in the transcript, a line per line.
pub proof fn law_permissions_are_shown(
    state: AppModel,
    lines: Seq<Seq<char>>,
    now: u64,
    shown: Seq<char>,
)
    ensures
        ({
            let next = state.on_event(EventModel::PermissionsSnapshot { lines }, now, shown);
            &&& one_entry_more(state.settled(now), next, "system"@, join(lines, "\n"@))
            &&& next.status == "Permissions snapshot shown."@
        }),
{
    reveal(AppModel::on_event);
    let next = state.on_event(EventModel::PermissionsSnapshot { lines }, now, shown);
    assert(next.messages.drop_last() =~= state.settled(now).messages);
}

/// What a subagent tells changes the status alone.
pub proof fn law_subagents_change_the_status_alone(
    state: AppModel,
    task_id: Seq<char>,
    event: EventModel,
    now: u64,
    shown: Seq<char>,
)
    ensures
        ({
            let next = state.on_event(
                EventModel::SubagentEvent { task_id, event: Box::new(event) },
                now,
                shown,
            );
            &&& next == (AppModel { status: next.status, ..state })
            &&& event matches EventModel::ToolCallStarted { name, input, .. } ==> next.status
                == "Subagent "@ + activity_text(name, input, shown)
            &&& event matches EventModel::ToolCallFailed { name, error, .. } ==> next.status
                == "Subagent "@ + issue(name, error)
            &&& event is TextDelta || event is ReasoningDelta || event is TurnComplete || event
                is StatusUpdate ==> next == state
        }),
{
    reveal(AppModel::on_event);
}

/// The session is saved after every event that changes the transcript or the conversation, and
/// after no event that only streams or reports.
pub proof fn law_what_changes_is_saved(
    state: AppModel,
    event: EventModel,
    at: MomentModel,
    shown: Seq<char>,
)
    ensures
        event is ToolCallStarted || event is PermissionNeeded || event is FileChangePreviewNeeded
            || event is PlanApprovalNeeded || event is AgentFinished || event is Interrupted || event
            is AgentError || event is SessionUpdated || event is PermissionsSnapshot
            ==> state.after_event(event, at, shown) == state.on_event(
            event,
            at.ticks,
            shown,
        ).persisted_for(SaveReason::Event, at),
        event is TextDelta || event is ReasoningDelta || event is StatusUpdate || event
            is TurnComplete || event is ToolCallCompleted || event is ToolCallFailed || event
            is SubagentStarted || event is SubagentCompleted || event is SubagentEvent
            ==> state.after_event(event, at, shown) == (
            state.on_event(event, at.ticks, shown),
            going_on(),
        ),
{
}

/// What is written of a session is the transcript, the conversation, the model and the effort in
/// use; what it was and where it belongs stays.
pub proof fn law_sessions_hold_what_is_in_use(state: AppModel)
    requires
        state.has_session_store,
        state.session is Some,
    ensures
        ({
            let was = state.session->0;
            let session = state.synced().session->0;
            &&& state.synced().session is Some
            &&& session.ui_messages == state.messages
            &&& session.core_messages == state.core_messages
            &&& state.current_model is Some ==> session.model == state.current_model->0
            &&& state.current_model is None ==> session.model == was.model
            &&& state.reasoning_effort is Some ==> session.reasoning_effort
                == state.reasoning_effort->0
            &&& state.reasoning_effort is None ==> session.reasoning_effort == "off"@
            &&& session.id == was.id
            &&& session.title == was.title
            &&& session.title_generated == was.title_generated
            &&& session.workspace_root == was.workspace_root
            &&& session.created_at == was.created_at
            &&& session.provider == was.provider
            &&& session.pending_plan == was.pending_plan
        }),
        state.synced() == (AppModel { session: state.synced().session, ..state }),
{
}

/// A save that failed is told with its reason and nothing is lost; another session is taken up only
/// once this one was saved.
pub proof fn law_failed_saves_lose_nothing(
    state: AppModel,
    reason: SaveReason,
    id: Seq<char>,
    picker: Option<PickerModel>,
    effort: Seq<char>,
    error: Seq<char>,
    at: MomentModel,
)
    ensures
        state.after_saving(AfterSaveModel::Report { reason }, None, at) == (state, going_on()),
        ({
            let (next, step) = state.after_saving(
                AfterSaveModel::Report { reason },
                Some(error),
                at,
            );
            &&& step == going_on()
            &&& next == (AppModel { status: next.status, ..state })
            &&& reason is Event ==> next.status == "Could not save session: "@ + error
            &&& reason is Message ==> next.status == "Message sent, but session save failed: "@
                + error
            &&& reason is Model ==> next.status == "Model switched, but session save failed: "@
                + error
            &&& reason is Effort ==> next.status == "Effort changed, but session save failed: "@
                + error
            &&& reason is Title ==> next.status == "Could not save session title: "@ + error
        }),
        ({
            let (next, step) = state.after_saving(AfterSaveModel::Resume { id, picker }, None, at);
            &&& next.exit_action == ActionModel::Resume(id)
            &&& !next.running
            &&& step == (StepModel::Done { go_on: false })
            &&& next.messages == state.messages
        }),
        ({
            let (next, step) = state.after_saving(
                AfterSaveModel::Resume { id, picker },
                Some(error),
                at,
            );
            &&& next.running == state.running
            &&& next.exit_action == state.exit_action
            &&& next.pending_sessions == picker
            &&& next.status == "Could not save current session: "@ + error
            &&& step == (StepModel::Done { go_on: true })
        }),
        ({
            let (next, step) = state.after_saving(
                AfterSaveModel::Clear { effort },
                Some(error),
                at,
            );
            &&& next == (AppModel { status: "Could not save current session: "@ + error, ..state })
            &&& step == (StepModel::Done { go_on: true })
        }),
{
}

/// A new session is of the same workspace and provider, with the model and the effort in use.
pub proof fn law_new_sessions_keep_the_settings(state: AppModel, effort: Seq<char>, at: MomentModel)
    requires
        state.session is Some,
    ensures
        ({
            let was = state.session->0;
            let next = state.renewed(effort, at);
            let session = next.session->0;
            &&& next.session is Some
            &&& session.workspace_root == was.workspace_root
            &&& session.provider == was.provider
            &&& state.current_model is Some ==> session.model == state.current_model->0
            &&& state.current_model is None ==> session.model == was.model
            &&& state.reasoning_effort is Some ==> session.reasoning_effort
                == state.reasoning_effort->0
            &&& state.reasoning_effort is None ==> session.reasoning_effort == effort
            &&& session.id == at.session_id
            &&& session.created_at == at.stamp
            &&& next.messages.len() == 0
            &&& next.core_messages.len() == 0
            &&& next.streaming_text.len() == 0
            &&& next.last_usage is None
            &&& next.current_model == state.current_model
            &&& next.reasoning_effort == state.reasoning_effort
        }),
{
}

/// A model or an effort that the agent took is in use from then on; one that did not reach it is
/// not.
pub proof fn law_taken_settings_are_in_use(
    state: AppModel,
    name: Seq<char>,
    previous: bool,
    at: MomentModel,
)
    ensures
        state.after_sending(AfterSendModel::Model { name }, true, at).0.current_model == Some(name),
        state.after_sending(
            AfterSendModel::Model { name },
            true,
            at,
        ).0.reasoning_effort == state.reasoning_effort,
        state.after_sending(AfterSendModel::Model { name }, true, at).0.status
            == "Model switched to "@ + name + "."@,
        state.after_sending(
            AfterSendModel::Effort { effort: name },
            true,
            at,
        ).0.reasoning_effort == Some(name),
        state.after_sending(
            AfterSendModel::Effort { effort: name },
            true,
            at,
        ).0.current_model == state.current_model,
        state.after_sending(AfterSendModel::Effort { effort: name }, true, at).0.status
            == "Reasoning effort set to "@ + name + "."@,
        state.after_sending(AfterSendModel::Model { name }, false, at).0.current_model
            == state.current_model,
        state.after_sending(
            AfterSendModel::Effort { effort: name },
            false,
            at,
        ).0.reasoning_effort == state.reasoning_effort,
        state.after_sending(
            AfterSendModel::Mode { previous },
            false,
            at,
        ).0.plan_mode_enabled == previous,
        state.after_sending(AfterSendModel::Message, false, at).0.working_since is None,
        state.after_sending(AfterSendModel::Report, true, at) == (state, going_on()),
        state.after_sending(AfterSendModel::Approval, true, at) == (
            state.next_approval(),
            going_on(),
        ),
        state.after_sending(AfterSendModel::Clear, true, at).0.status
            == "Conversation cleared. New session started."@,
{
}

/// The models that were fetched can be chosen, in their order, and the model in use stays one of
/// them; a fetch that failed changes nothing but the status.
pub proof fn law_fetched_models_can_be_chosen(
    state: AppModel,
    models: Seq<ProfileModel>,
    stale: bool,
    error: Seq<char>,
)
    ensures
        ({
            let next = state.after_refreshing(RefreshedModel::Models { models, stale });
            &&& next.available_models == models || (state.current_profile() is Some
                && next.available_models == seq![state.current_profile()->0] + models)
            &&& state.current_profile() is None ==> next.available_models == models
            &&& state.current_profile() is Some && profile_of(
                models,
                (state.current_profile()->0).id,
            ) is Some ==> next.available_models == models
            &&& next.current_model == state.current_model
            &&& stale ==> next.status == "Model refresh used stale data; "@ + decimal(
                next.available_models.len(),
            ) + " models available."@
            &&& !stale ==> next.status == "Model catalog refreshed; "@ + decimal(
                next.available_models.len(),
            ) + " models available."@
        }),
        state.after_refreshing(RefreshedModel::Failed).available_models == state.available_models,
        state.after_refreshing(RefreshedModel::NotStarted { error }).available_models
            == state.available_models,
        state.after_refreshing(RefreshedModel::NotStarted { error }).status
            == "Could not start model refresh: "@ + error,
{
}

/// The approval that waits longest is asked for next, as it was put off, and the others keep their
/// order.
pub proof fn law_approvals_are_asked_for_in_order(state: AppModel)
    requires
        state.pending_plan is None,
        state.pending_permission is None,
        state.pending_file_preview is None,
        state.deferred_approvals.len() > 0,
    ensures
        ({
            let next = state.next_approval();
            &&& next.deferred_approvals.len() == state.deferred_approvals.len() - 1
            &&& forall|i: int|
                0 <= i < next.deferred_approvals.len() ==> #[trigger] next.deferred_approvals[i]
                    == state.deferred_approvals[i + 1]
            &&& state.deferred_approvals[0] matches crate::ui::state::DeferredModel::Permission(
                permission,
            ) ==> next.pending_permission == Some(permission) && next.pending_file_preview is None
            &&& state.deferred_approvals[0] matches crate::ui::state::DeferredModel::FilePreview(
                preview,
            ) ==> next.pending_file_preview == Some(preview) && next.pending_permission is None
        }),
{
}

/// The mode is switched to what is asked for and the agent is told; should that fail, the mode is
/// what it was.
pub proof fn law_modes_are_switched(state: AppModel, enabled: bool)
    requires
        state.working_since is None,
    ensures
        ({
            let (next, step) = state.switching_mode(enabled);
            &&& next.plan_mode_enabled == enabled
            &&& step is Send
            &&& step->command == (crate::event::CommandModel::SetPlanMode { enabled })
            &&& step->Send_next == (AfterSendModel::Mode { previous: state.plan_mode_enabled })
            &&& enabled ==> next.status == "Switched to Plan mode. Press Shift+Tab for Agent mode."@
            &&& !enabled ==> next.status
                == "Switched to Agent mode. Press Shift+Tab for Plan mode."@
            &&& next.messages == state.messages
        }),
{
}

} // verus!
