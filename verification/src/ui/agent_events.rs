//! What the client makes of the events of the agent.
use super::choice::{FilePreviewChoice, PermissionChoice, PlanChoice};
use super::state::{
    going_on, AfterSave, AfterSaveModel, AppModel, AppState, Moment, MomentModel, SaveReason, Step,
    StepModel,
};
use super::status::{
    activity_text, call_shows, event_shows, first_lines, issue, lemma_can_be_shown, preview_lines,
    start_shows, tool_issue_status, tool_status, truncate_single_line, FilePreviewModel, PendingFilePreview, PendingPermission,
    PendingPlanApproval, PermissionModel, PlanApprovalModel,
};
use super::usage::TurnUsage;
use crate::event::{AgentEvent, EventModel};
use crate::session::{chat, is_blank, one_line};
use crate::text::{concat2, concat3, has_prefix, join, joined, same_text, starts_with, trimmed};
use crate::types::{FileChangePreview, PreviewModel, Usage};
use crate::words::{shorten, shortened};
use vstd::prelude::*;

verus! {

/// The diff of a file change as it is put into the transcript.
pub open spec fn diff_text(preview: PreviewModel) -> Seq<char> {
    (if preview.before_exists {
        "Update"@
    } else {
        "Create"@
    }) + ": "@ + preview.path + "\n"@ + preview.unified_diff
}

impl AppModel {
    /// The state after a turn has ended.
    pub open spec fn idle(self) -> AppModel {
        AppModel {
            working_since: None,
            interrupt_requested: false,
            pending_plan: None,
            pending_permission: None,
            pending_file_preview: None,
            ..self
        }
    }

    pub open spec fn reasoning_begun(self, now: u64) -> AppModel {
        AppModel {
            reasoning_started_at: match self.reasoning_started_at {
                Some(started) => Some(started),
                None => Some(now),
            },
            ..self
        }
    }

    pub open spec fn on_status(self, message: Seq<char>, now: u64) -> AppModel {
        let calm = AppModel { interrupt_requested: false, ..self };
        (if starts_with(message, "Thinking"@) {
            calm.reasoning_begun(now)
        } else {
            calm
        }).saying(message)
    }

    pub open spec fn on_plan(self, request_id: Seq<char>, plan: Seq<char>, now: u64) -> AppModel {
        let settled = self.settled(now);
        AppModel {
            pending_plan: Some(
                PlanApprovalModel { request_id, plan, selected: PlanChoice::Approve },
            ),
            ..if self.streaming_text.len() == 0 && !is_blank(plan) {
                settled.showing(chat("assistant"@, plan))
            } else {
                settled
            }
        }.saying("Review plan."@)
    }

    pub open spec fn on_preview(
        self,
        request_id: Seq<char>,
        tool_name: Seq<char>,
        preview: PreviewModel,
        now: u64,
    ) -> AppModel {
        AppModel {
            pending_file_preview: Some(
                FilePreviewModel { request_id, preview, selected: FilePreviewChoice::Apply },
            ),
            ..self.settled(now).showing(chat("diff"@, diff_text(preview)))
        }.saying("Review changes: "@ + tool_name)
    }

    pub open spec fn on_usage(self, usage: Usage) -> AppModel {
        AppModel {
            last_usage: if TurnUsage::from_counts(usage).reported() {
                Some(TurnUsage::from_counts(usage))
            } else {
                self.last_usage
            },
            ..self
        }
    }

    pub open spec fn on_title(self, title: Seq<char>, at: MomentModel) -> (AppModel, StepModel) {
        if self.keeps_session() && (self.session->0).takes_title(title) {
            AppModel { session: Some((self.session->0).with_title(title)), ..self }.committed(
                AfterSaveModel::Report { reason: SaveReason::Title },
                at,
            )
        } else {
            (self, going_on())
        }
    }

    /// The state after an event of a subagent, which only ever changes the status, by the path of
    /// its tool call as it is shown.
    pub open spec fn on_subagent_event(self, event: EventModel, shown: Seq<char>) -> AppModel {
        match event {
            EventModel::ToolCallStarted { name, input, .. } => self.saying(
                "Subagent "@ + activity_text(name, input, shown),
            ),
            EventModel::ToolCallCompleted { name, result, .. } => if first_lines(
                result,
                2,
                180,
            ).len() > 0 {
                self.saying("Subagent completed "@ + name + "."@)
            } else {
                self
            },
            EventModel::ToolCallFailed { name, error, .. } => self.saying(
                "Subagent "@ + issue(name, error),
            ),
            EventModel::AgentError { message } => self.saying(
                shortened("Subagent issue: "@ + message, 180),
            ),
            _ => self,
        }
    }

    /// The state after an event of the agent, before the session is saved, by the path of its tool
    /// call as it is shown.
    #[verifier::opaque]
    pub open spec fn on_event(self, event: EventModel, now: u64, shown: Seq<char>) -> AppModel {
        match event {
            EventModel::StatusUpdate { message } => self.on_status(message, now),
            EventModel::ReasoningDelta(text) => AppModel {
                reasoning_text: self.reasoning_text + text,
                ..self.reasoning_begun(now)
            },
            EventModel::TextDelta(text) => AppModel {
                streaming_text: self.streaming_text + text,
                ..self.reasoned(now)
            },
            EventModel::ToolCallStarted { name, input, .. } => if name == "agent"@ {
                self.settled(now)
            } else {
                self.settled(now).saying(activity_text(name, input, shown))
            },
            EventModel::ToolCallCompleted { name, .. } => self.saying("Completed "@ + name + "."@),
            EventModel::ToolCallFailed { name, error, .. } => self.saying(issue(name, error)),
            EventModel::PermissionNeeded { request_id, tool_name, input, evaluation } => AppModel {
                pending_permission: Some(
                    PermissionModel {
                        request_id,
                        tool_name,
                        input,
                        evaluation: Some(evaluation),
                        selected: PermissionChoice::AllowOnce,
                    },
                ),
                ..self.settled(now)
            }.saying("Permission required: "@ + tool_name),
            EventModel::FileChangePreviewNeeded { request_id, tool_name, preview, .. } =>
                self.on_preview(request_id, tool_name, preview, now),
            EventModel::PlanApprovalNeeded { request_id, plan, .. } => self.on_plan(
                request_id,
                plan,
                now,
            ),
            EventModel::TurnComplete(usage) => self.on_usage(usage),
            EventModel::AgentFinished { .. } => self.settled(now).idle().saying("Ready."@),
            EventModel::Interrupted => self.settled(now).idle().saying("Interrupted."@),
            EventModel::AgentError { message } => self.settled(now).idle().showing(
                chat("error"@, "Error: "@ + message),
            ).saying("Error: "@ + message),
            EventModel::SessionUpdated { messages } => AppModel { core_messages: messages, ..self },
            EventModel::SessionTitleGenerated { .. } => self,
            EventModel::PermissionsSnapshot { lines } => self.settled(now).showing(
                chat("system"@, join(lines, "\n"@)),
            ).saying("Permissions snapshot shown."@),
            EventModel::SubagentStarted { task, .. } => self.settled(now).saying(
                "Subagent running: "@ + shortened(one_line(task), 96) + "..."@,
            ),
            EventModel::SubagentCompleted { result, .. } => if first_lines(result, 3, 240).len()
                > 0 {
                self.saying("Subagent completed: "@ + first_lines(result, 3, 240))
            } else {
                self
            },
            EventModel::SubagentEvent { event, .. } => self.on_subagent_event(*event, shown),
        }
    }

    /// The state after an event of the agent, and what has to be done then, by the path of its tool
    /// call as it is shown.
    pub open spec fn after_event(self, event: EventModel, at: MomentModel, shown: Seq<char>) -> (
        AppModel,
        StepModel,
    ) {
        if event is SessionTitleGenerated {
            self.on_title(event->title, at)
        } else if is_saved(event) {
            self.on_event(event, at.ticks, shown).persisted_for(SaveReason::Event, at)
        } else {
            (self.on_event(event, at.ticks, shown), going_on())
        }
    }
}

/// Whether the session is saved after an event.
pub open spec fn is_saved(event: EventModel) -> bool {
    match event {
        EventModel::ToolCallStarted { .. } => true,
        EventModel::PermissionNeeded { .. } => true,
        EventModel::FileChangePreviewNeeded { .. } => true,
        EventModel::PlanApprovalNeeded { .. } => true,
        EventModel::AgentFinished { .. } => true,
        EventModel::Interrupted => true,
        EventModel::AgentError { .. } => true,
        EventModel::SessionUpdated { .. } => true,
        EventModel::PermissionsSnapshot { .. } => true,
        _ => false,
    }
}

fn saves(event: &AgentEvent) -> (r: bool)
    ensures
        r == is_saved(event.deep_view()),
{
    match event {
        AgentEvent::ToolCallStarted { .. } => true,
        AgentEvent::PermissionNeeded { .. } => true,
        AgentEvent::FileChangePreviewNeeded { .. } => true,
        AgentEvent::PlanApprovalNeeded { .. } => true,
        AgentEvent::AgentFinished { .. } => true,
        AgentEvent::Interrupted => true,
        AgentEvent::AgentError { .. } => true,
        AgentEvent::SessionUpdated { .. } => true,
        AgentEvent::PermissionsSnapshot { .. } => true,
        _ => false,
    }
}

impl AppState {
    fn become_idle(&mut self)
        ensures
            final(self)@ == old(self)@.idle(),
            final(self).editor == old(self).editor,
    {
        self.working_since = None;
        self.interrupt_requested = false;
        self.pending_plan = None;
        self.pending_permission = None;
        self.pending_file_preview = None;
    }

    fn begin_reasoning(&mut self, now: u64)
        ensures
            final(self)@ == old(self)@.reasoning_begun(now),
            final(self).editor == old(self).editor,
    {
        if self.reasoning_started_at.is_none() {
            self.reasoning_started_at = Some(now);
        }
    }

    fn take_plan(&mut self, request_id: String, plan: String, now: u64)
        ensures
            final(self)@ == old(self)@.on_plan(request_id@, plan@, now),
            final(self).editor == old(self).editor,
    {
        let had_streaming_plan = !self.streaming_text.as_str().is_empty();
        self.settle(now);
        if !had_streaming_plan && !trimmed(plan.as_str()).as_str().is_empty() {
            self.show("assistant", plan.as_str());
        }
        self.pending_plan = Some(
            PendingPlanApproval { request_id, plan, selected: PlanChoice::Approve },
        );
        self.say("Review plan.");
    }

    fn take_preview(
        &mut self,
        request_id: String,
        tool_name: String,
        preview: FileChangePreview,
        now: u64,
    )
        ensures
            final(self)@ == old(self)@.on_preview(
                request_id@,
                tool_name@,
                preview.deep_view(),
                now,
            ),
            final(self).editor == old(self).editor,
    {
        self.settle(now);
        let operation = if preview.before_exists {
            "Update"
        } else {
            "Create"
        };
        let head = concat3(operation, ": ", preview.path.as_str());
        let content = concat3(head.as_str(), "\n", preview.unified_diff.as_str());
        self.show("diff", content.as_str());
        self.pending_file_preview = Some(
            PendingFilePreview { request_id, preview, selected: FilePreviewChoice::Apply },
        );
        self.status = concat2("Review changes: ", tool_name.as_str());
    }

    fn take_subagent_event(&mut self, event: &AgentEvent)
        ensures
            exists|shown: Seq<char>|
                start_shows(event.deep_view(), shown) && final(self)@ == #[trigger] old(
                    self,
                )@.on_subagent_event(event.deep_view(), shown),
            final(self).editor == old(self).editor,
    {
        let ghost mut shown: Seq<char> = Seq::empty();
        match event {
            AgentEvent::ToolCallStarted { name, input, .. } => {
                let activity = tool_status(name.as_str(), input);
                proof {
                    shown = choose|shown: Seq<char>|
                        call_shows(name@, *input, shown) && activity@ == #[trigger] activity_text(
                            name@,
                            *input,
                            shown,
                        );
                }
                self.status = concat2("Subagent ", activity.as_str());
            },
            AgentEvent::ToolCallCompleted { name, result, .. } => {
                let preview = preview_lines(result.as_str(), 2, 180);
                if !preview.as_str().is_empty() {
                    self.status = concat3("Subagent completed ", name.as_str(), ".");
                }
            },
            AgentEvent::ToolCallFailed { name, error, .. } => {
                let text = tool_issue_status(name.as_str(), error.as_str());
                self.status = concat2("Subagent ", text.as_str());
            },
            AgentEvent::AgentError { message } => {
                let text = concat2("Subagent issue: ", message.as_str());
                self.status = shorten(text.as_str(), 180);
            },
            _ => {},
        }
        assert(self@ == old(self)@.on_subagent_event(event.deep_view(), shown));
    }

    /// Takes a generated title, and saves it.
    pub fn apply_generated_session_title(&mut self, title: &str, at: &Moment) -> (r: Step)
        ensures
            (final(self)@, r.deep_view()) == old(self)@.on_title(title@, at.deep_view()),
            final(self).editor == old(self).editor,
    {
        if self.has_session_store {
            match self.session.take() {
                Some(session) => {
                    let mut session = session;
                    let taken = session.set_generated_title(title);
                    self.session = Some(session);
                    if taken {
                        return self.save_committed_session(
                            AfterSave::Report { reason: SaveReason::Title },
                            at,
                        );
                    }
                },
                None => {},
            }
        }
        assert(self@ == old(self)@);
        Step::Done { go_on: true }
    }

    #[verifier::rlimit(80)]
    #[verifier::spinoff_prover]
    fn apply_event(&mut self, event: AgentEvent, now: u64)
        requires
            !(event is SessionTitleGenerated),
        ensures
            exists|shown: Seq<char>|
                event_shows(event.deep_view(), shown) && final(self)@ == #[trigger] old(
                    self,
                )@.on_event(event.deep_view(), now, shown),
            final(self).editor == old(self).editor,
    {
        reveal(AppModel::on_event);
        let ghost mut shown: Seq<char> = Seq::empty();
        match event {
            AgentEvent::StatusUpdate { message } => {
                self.interrupt_requested = false;
                if has_prefix(message.as_str(), "Thinking") {
                    self.begin_reasoning(now);
                }
                self.status = message;
            },
            AgentEvent::ReasoningDelta(text) => {
                self.begin_reasoning(now);
                self.reasoning_text.append(text.as_str());
            },
            AgentEvent::TextDelta(text) => {
                self.finish_reasoning(now);
                self.streaming_text.append(text.as_str());
            },
            AgentEvent::ToolCallStarted { name, input, .. } => {
                self.settle(now);
                if same_text(name.as_str(), "agent") {
                    proof {
                        shown = lemma_can_be_shown(name@, input);
                    }
                } else {
                    let activity = tool_status(name.as_str(), &input);
                    proof {
                        shown = choose|shown: Seq<char>|
                            call_shows(name@, input, shown) && activity@
                                == #[trigger] activity_text(name@, input, shown);
                    }
                    self.status = activity;
                }
            },
            AgentEvent::ToolCallCompleted { name, .. } => {
                self.status = concat3("Completed ", name.as_str(), ".");
            },
            AgentEvent::ToolCallFailed { name, error, .. } => {
                self.status = tool_issue_status(name.as_str(), error.as_str());
            },
            AgentEvent::PermissionNeeded { request_id, tool_name, input, evaluation } => {
                self.settle(now);
                self.status = concat2("Permission required: ", tool_name.as_str());
                self.pending_permission = Some(
                    PendingPermission {
                        request_id,
                        tool_name,
                        input,
                        evaluation: Some(evaluation),
                        selected: PermissionChoice::AllowOnce,
                    },
                );
            },
            AgentEvent::FileChangePreviewNeeded { request_id, tool_name, preview, .. } => {
                self.take_preview(request_id, tool_name, preview, now);
            },
            AgentEvent::PlanApprovalNeeded { request_id, plan, .. } => {
                self.take_plan(request_id, plan, now);
            },
            AgentEvent::TurnComplete(usage) => {
                let usage = TurnUsage::of(usage);
                if usage.has_reported_tokens() {
                    self.last_usage = Some(usage);
                }
            },
            AgentEvent::AgentFinished { .. } => {
                self.settle(now);
                self.become_idle();
                self.say("Ready.");
            },
            AgentEvent::Interrupted => {
                self.settle(now);
                self.become_idle();
                self.say("Interrupted.");
            },
            AgentEvent::AgentError { message } => {
                self.settle(now);
                self.become_idle();
                let text = concat2("Error: ", message.as_str());
                self.show("error", text.as_str());
                self.status = text;
            },
            AgentEvent::SessionUpdated { messages } => {
                self.core_messages = messages;
            },
            AgentEvent::SessionTitleGenerated { .. } => {},
            AgentEvent::PermissionsSnapshot { lines } => {
                self.settle(now);
                let text = joined(&lines, "\n");
                self.show("system", text.as_str());
                self.say("Permissions snapshot shown.");
            },
            AgentEvent::SubagentStarted { task, .. } => {
                self.settle(now);
                let line = truncate_single_line(task.as_str(), 96);
                self.status = concat3("Subagent running: ", line.as_str(), "...");
            },
            AgentEvent::SubagentCompleted { result, .. } => {
                let preview = preview_lines(result.as_str(), 3, 240);
                if !preview.as_str().is_empty() {
                    self.status = concat2("Subagent completed: ", preview.as_str());
                }
            },
            AgentEvent::SubagentEvent { event, .. } => {
                let ghost before = self@;
                self.take_subagent_event(&*event);
                proof {
                    shown = choose|shown: Seq<char>|
                        start_shows(event.deep_view(), shown) && self@
                            == #[trigger] before.on_subagent_event(event.deep_view(), shown);
                }
            },
        }
        assert(self@ == old(self)@.on_event(event.deep_view(), now, shown));
    }

    /// Takes an event of the agent.
    pub fn handle_agent_event(&mut self, event: AgentEvent, at: &Moment) -> (r: Step)
        ensures
            exists|shown: Seq<char>|
                event_shows(event.deep_view(), shown) && (final(self)@, r.deep_view())
                    == #[trigger] old(self)@.after_event(event.deep_view(), at.deep_view(), shown),
            final(self).editor == old(self).editor,
    {
        let ghost before = self@;
        if let AgentEvent::SessionTitleGenerated { title } = &event {
            let step = self.apply_generated_session_title(title.as_str(), at);
            assert((self@, step.deep_view()) == before.after_event(
                event.deep_view(),
                at.deep_view(),
                Seq::empty(),
            ));
            return step;
        }
        let saved = saves(&event);
        self.apply_event(event, at.ticks);
        let ghost shown = choose|shown: Seq<char>|
            event_shows(event.deep_view(), shown) && self@ == #[trigger] before.on_event(
                event.deep_view(),
                at.ticks,
                shown,
            );
        let step = if saved {
            self.persist_session(AfterSave::Report { reason: SaveReason::Event }, at)
        } else {
            Step::Done { go_on: true }
        };
        assert((self@, step.deep_view()) == before.after_event(
            event.deep_view(),
            at.deep_view(),
            shown,
        ));
        step
    }
}

/// Whatever the agent reports, the client goes on, the input line is left alone, and the
/// transcript only grows.
pub proof fn law_events_only_add_to_the_transcript(
    state: AppModel,
    event: EventModel,
    at: MomentModel,
    shown: Seq<char>,
)
    ensures
        state.messages.is_prefix_of(state.after_event(event, at, shown).0.messages),
        state.after_event(event, at, shown).0.editor == state.editor,
        state.after_event(event, at, shown).0.running == state.running,
        state.after_event(event, at, shown).1 != super::state::ending(),
{
    reveal(AppModel::on_event);
}

/// When a turn has ended, no answer is awaited and no turn runs.
pub proof fn law_ended_turns_leave_nothing_open(
    state: AppModel,
    event: EventModel,
    at: MomentModel,
    shown: Seq<char>,
)
    requires
        event is AgentFinished || event is Interrupted || event is AgentError,
    ensures
        !state.after_event(event, at, shown).0.busy(),
        state.after_event(event, at, shown).0.streaming_text.len() == 0,
{
    reveal(AppModel::on_event);
}

} // verus!
