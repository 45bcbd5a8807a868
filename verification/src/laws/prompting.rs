//! What the keys and the commands of the user do.
use crate::event::CommandModel;
use crate::keys::{Key, KeyPress};
use crate::session::SummaryModel;
use crate::text::{starts_with, strip_prefix, trim, utf8_len};
use crate::types::{ApprovalScope, ContentBlockModel, ProfileModel, Role};
use crate::ui::choice::{FilePreviewChoice, PermissionChoice, PlanChoice};
use crate::ui::key_input::{permission_pick, plan_pick, preview_pick, Pick};
use crate::ui::state::{
    going_on, AfterListModel, AfterSaveModel, AfterSendModel, AppModel, MomentModel, PickerModel,
    StepModel,
};
use crate::ui::status::{FilePreviewModel, PermissionModel, PlanApprovalModel};
use crate::ui::steps::profile_of;
use crate::words::{ascii_lowercase, words};
use vstd::prelude::*;

verus! {

/// The choices follow each other in a ring, each once; going back undoes going on.
pub proof fn law_choices_form_a_ring(a: PlanChoice, b: FilePreviewChoice, c: PermissionChoice)
    ensures
        a.following().preceding() == a,
        a.preceding().following() == a,
        a.following().following().following().following() == a,
        a.following() != a && a.following().following() != a,
        PlanChoice::Approve.following() is Revise,
        PlanChoice::Revise.following() is Reject,
        PlanChoice::Reject.following() is Quit,
        b.following().preceding() == b,
        b.preceding().following() == b,
        b.following().following().following() == b,
        b.following() != b,
        FilePreviewChoice::Apply.following() is Reject,
        FilePreviewChoice::Reject.following() is Quit,
        c.following().preceding() == c,
        c.preceding().following() == c,
        c.following().following().following().following().following() == c,
        c.following() != c && c.following().following() != c,
        PermissionChoice::AllowOnce.following() is AllowSession,
        PermissionChoice::AllowSession.following() is AllowAlways,
        PermissionChoice::AllowAlways.following() is Deny,
        PermissionChoice::Deny.following() is Quit,
{
}

/// The state at a request for permission.
pub open spec fn asks_permission(state: AppModel, permission: PermissionModel) -> bool {
    state.pending_permission == Some(permission) && state.pending_plan is None
        && state.pending_file_preview is None && state.pending_sessions is None
}

/// Whether a key is a letter in either case, without the control key.
pub open spec fn typed(key: KeyPress, lower: char, upper: char) -> bool {
    !key.control && (key.code == Key::Char(lower) || key.code == Key::Char(upper))
}

/// A request for permission is answered under its id as the user chose: once, for the session,
/// always, or not at all.
pub proof fn law_permission_is_answered_as_chosen(
    state: AppModel,
    permission: PermissionModel,
    key: KeyPress,
    at: MomentModel,
)
    requires
        asks_permission(state, permission),
    ensures
        ({
            let (next, step) = state.on_key(key, at);
            let entered = |choice: PermissionChoice|
                key.code is Enter && permission.selected == choice;
            let answer = |approved: bool, scope: ApprovalScope|
                StepModel::Send {
                    command: CommandModel::PermissionResponse {
                        request_id: permission.request_id,
                        approved,
                        scope,
                    },
                    next: AfterSendModel::Approval,
                };
            &&& typed(key, 'y', 'Y') || entered(PermissionChoice::AllowOnce) ==> step == answer(
                true,
                ApprovalScope::Once,
            ) && next.pending_permission is None
            &&& typed(key, 's', 'S') || entered(PermissionChoice::AllowSession) ==> step == answer(
                true,
                ApprovalScope::Session,
            ) && next.pending_permission is None
            &&& typed(key, 'a', 'A') || entered(PermissionChoice::AllowAlways) ==> step == answer(
                true,
                ApprovalScope::Persistent,
            ) && next.pending_permission is None
            &&& typed(key, 'n', 'N') || entered(PermissionChoice::Deny) ==> step == answer(
                false,
                ApprovalScope::Once,
            ) && next.pending_permission is None && next.status == "Permission denied."@
            &&& typed(key, 'q', 'Q') || entered(PermissionChoice::Quit) ==> step == (
            StepModel::Done { go_on: false }) && !next.running
            &&& key.code is Esc ==> step == (StepModel::Send {
                command: CommandModel::Interrupt,
                next: AfterSendModel::Report,
            }) && next.interrupt_requested
            &&& key.code is Left ==> step == going_on() && next.pending_permission is Some && (
            next.pending_permission->0).selected == permission.selected.preceding() && (
            next.pending_permission->0).request_id == permission.request_id
            &&& key.code is Right || key.code is Tab ==> step == going_on()
                && next.pending_permission is Some && (next.pending_permission->0).selected
                == permission.selected.following() && (next.pending_permission->0).request_id
                == permission.request_id
        }),
{
}

/// A file change is answered under its id as the user chose.
pub proof fn law_file_changes_are_answered_as_chosen(
    state: AppModel,
    preview: FilePreviewModel,
    key: KeyPress,
    at: MomentModel,
)
    requires
        state.pending_file_preview == Some(preview),
        state.pending_plan is None,
        state.pending_sessions is None,
    ensures
        ({
            let (next, step) = state.on_key(key, at);
            let entered = |choice: FilePreviewChoice| key.code is Enter && preview.selected == choice;
            let answer = |approved: bool|
                StepModel::Send {
                    command: CommandModel::FileChangePreviewResponse {
                        request_id: preview.request_id,
                        approved,
                    },
                    next: AfterSendModel::Approval,
                };
            &&& typed(key, 'y', 'Y') || typed(key, 'a', 'A') || entered(FilePreviewChoice::Apply)
                ==> step == answer(true) && next.pending_file_preview is None && next.status
                == "Applying changes..."@
            &&& typed(key, 'n', 'N') || typed(key, 'r', 'R') || entered(FilePreviewChoice::Reject)
                ==> step == answer(false) && next.pending_file_preview is None && next.status
                == "Change rejected."@
            &&& key.code is Esc ==> step == answer(false) && next.interrupt_requested
                && next.pending_file_preview is None
            &&& typed(key, 'q', 'Q') || entered(FilePreviewChoice::Quit) ==> step == (
            StepModel::Done { go_on: false }) && !next.running
            &&& key.code is Left ==> step == going_on() && next.pending_file_preview is Some && (
            next.pending_file_preview->0).selected == preview.selected.preceding()
            &&& key.code is Right || key.code is Tab ==> step == going_on()
                && next.pending_file_preview is Some && (next.pending_file_preview->0).selected
                == preview.selected.following()
        }),
{
}

/// A plan is answered under its id as the user chose; to revise it is to reject it and to say how.
pub proof fn law_plans_are_answered_as_chosen(
    state: AppModel,
    plan: PlanApprovalModel,
    key: KeyPress,
    at: MomentModel,
)
    requires
        state.pending_plan == Some(plan),
        state.pending_sessions is None,
    ensures
        ({
            let (next, step) = state.on_key(key, at);
            let entered = |choice: PlanChoice| key.code is Enter && plan.selected == choice;
            let answer = |approved: bool|
                StepModel::Send {
                    command: CommandModel::PlanResponse { request_id: plan.request_id, approved },
                    next: AfterSendModel::Report,
                };
            &&& typed(key, 'y', 'Y') || typed(key, 'a', 'A') || entered(PlanChoice::Approve) ==> step
                == answer(true) && next.pending_plan is None && next.status
                == "Executing approved plan..."@
            &&& typed(key, 'n', 'N') || key.code is Esc || entered(PlanChoice::Reject) ==> step
                == answer(false) && next.pending_plan is None && next.status == "Plan rejected."@
            &&& typed(key, 'r', 'R') || entered(PlanChoice::Revise) ==> step == answer(false)
                && next.pending_plan is None && next.editor.text == "Revise this plan: "@
                && next.working_since is None
            &&& typed(key, 'q', 'Q') || entered(PlanChoice::Quit) ==> step == (StepModel::Done {
                go_on: false,
            }) && !next.running
            &&& key.code is Left ==> step == going_on() && next.pending_plan is Some && (
            next.pending_plan->0).selected == plan.selected.preceding()
            &&& key.code is Right || key.code is Tab ==> step == going_on() && next.pending_plan
                is Some && (next.pending_plan->0).selected == plan.selected.following()
        }),
{
}

/// In the list of sessions the arrows move the selection by one, the enter key takes up what is
/// selected once this session is saved, and escaping closes the list.
pub proof fn law_sessions_are_picked(
    state: AppModel,
    picker: PickerModel,
    key: KeyPress,
    at: MomentModel,
)
    requires
        state.pending_sessions == Some(picker),
        picker.sessions.len() <= usize::MAX,
    ensures
        ({
            let (next, step) = state.on_key(key, at);
            let shut = AppModel { pending_sessions: None, ..state };
            let after = next.pending_sessions->0;
            &&& key.code is Up || key.code is Down ==> step == going_on() && next.pending_sessions
                is Some && after.sessions == picker.sessions && after.show_all == picker.show_all
            &&& key.code is Up && picker.selected > 0 ==> after.selected == picker.selected - 1
            &&& key.code is Up && picker.selected == 0 ==> after.selected == 0
            &&& key.code is Down && picker.selected + 1 < picker.sessions.len() ==> after.selected
                == picker.selected + 1
            &&& key.code is Enter && picker.selected < picker.sessions.len() ==> (next, step)
                == shut.persisted(
                AfterSaveModel::Resume {
                    id: picker.sessions[picker.selected as int].id,
                    picker: Some(picker),
                },
                at,
            )
            &&& key.code is Enter && picker.selected >= picker.sessions.len() ==> step == going_on()
                && next.pending_sessions == Some(picker) && next.status == "No sessions found."@
            &&& key.code is Esc || typed(key, 'q', 'Q') ==> step == going_on()
                && next.pending_sessions is None && next.status == "Session picker closed."@
            &&& typed(key, 'a', 'A') && state.has_session_store ==> step is List
                && step->List_next == (AfterListModel::Toggle {
                picker: PickerModel { show_all: !picker.show_all, ..picker },
            }) && (!picker.show_all ==> step->workspace is None) && (picker.show_all && state.session
                is Some ==> step->workspace == Some((state.session->0).workspace_root))
        }),
{
}

/// What the user sends is put into the transcript and the conversation as it is and handed to the
/// agent; the input line is empty then. While the agent works, it is not sent and stays.
pub proof fn law_input_is_sent_as_it_is(state: AppModel, key: KeyPress, at: MomentModel)
    requires
        key.code is Enter,
        !state.prompting(),
        state.editor.text.len() > 0,
        !starts_with(state.editor.text, "/"@),
    ensures
        ({
            let (next, step) = state.on_key(key, at);
            let text = state.editor.text;
            &&& state.working_since is Some ==> step == going_on() && next.editor == state.editor
                && next.messages == state.messages && next.status
                == "Already working; press Esc to interrupt."@
            &&& state.working_since is None ==> {
                &&& step == (StepModel::Send {
                    command: CommandModel::Process { message: text },
                    next: AfterSendModel::Message,
                })
                &&& next.editor.text.len() == 0
                &&& next.messages.len() == state.messages.len() + 1
                &&& next.messages.drop_last() == state.messages
                &&& next.messages.last().role == "user"@
                &&& next.messages.last().content == text
                &&& next.core_messages.len() == state.core_messages.len() + 1
                &&& next.core_messages.drop_last() == state.core_messages
                &&& next.core_messages.last().role is User
                &&& next.core_messages.last().content == seq![ContentBlockModel::Text { text }]
                &&& next.working_since == Some(at.ticks)
                &&& next.last_usage is None
                &&& !next.interrupt_requested
            }
        }),
{
    let next = state.on_key(key, at).0;
    if state.working_since is None {
        assert(next.messages.drop_last() =~= state.messages);
        assert(next.core_messages.drop_last() =~= state.core_messages);
    }
}

/// While the agent works, escaping interrupts it; otherwise it only tells how to leave. Control and
/// the letter c leave.
pub proof fn law_escaping_interrupts(state: AppModel, key: KeyPress, at: MomentModel)
    requires
        !state.prompting(),
    ensures
        key.code is Esc && state.working_since is Some ==> state.on_key(key, at).1 == (
        StepModel::Send { command: CommandModel::Interrupt, next: AfterSendModel::Report })
            && state.on_key(key, at).0.interrupt_requested,
        key.code is Esc && state.working_since is None ==> state.on_key(key, at) == (
            AppModel { status: "Press Ctrl+C to exit."@, ..state },
            going_on(),
        ),
        key.code == Key::Char('c') && key.control ==> state.on_key(key, at).1 == (StepModel::Done {
            go_on: false,
        }) && !state.on_key(key, at).0.running,
        key.code is BackTab ==> state.on_key(key, at) == state.switching_mode(
            !state.plan_mode_enabled,
        ),
        key.code is Tab && key.shift ==> state.on_key(key, at) == state.switching_mode(
            !state.plan_mode_enabled,
        ),
{
}

/// A text that is pasted goes into the input line, but not while a prompt is open.
pub proof fn law_pasting_needs_the_input_line(state: AppModel, text: Seq<char>)
    ensures
        state.prompting() ==> state.on_paste(text) == (AppModel {
            status: "Finish the current prompt before pasting."@,
            ..state
        }),
        !state.prompting() ==> state.on_paste(text) == (AppModel {
            editor: state.editor.with_paste(text),
            ..state
        }),
        state.prompting() <==> state.pending_plan is Some || state.pending_sessions is Some
            || state.pending_file_preview is Some || state.pending_permission is Some,
{
}

proof fn lemma_commands_differ()
    ensures
        "/exit"@[1] == 'e' && "/exit"@.len() == 5,
        "/quit"@[1] == 'q',
        "/clear"@[1] == 'c',
        "/sessions"@[1] == 's',
        "/permissions"@[1] == 'p' && "/permissions"@.len() == 12,
        "/resume"@[1] == 'r',
        "/model"@[1] == 'm',
        "/effort"@[1] == 'e' && "/effort"@.len() == 7,
        "/plan"@[1] == 'p' && "/plan"@.len() == 5,
        "/act"@[1] == 'a',
        "/help"@[1] == 'h',
{
    reveal_strlit("/exit");
    reveal_strlit("/quit");
    reveal_strlit("/clear");
    reveal_strlit("/sessions");
    reveal_strlit("/permissions");
    reveal_strlit("/resume");
    reveal_strlit("/model");
    reveal_strlit("/effort");
    reveal_strlit("/plan");
    reveal_strlit("/act");
    reveal_strlit("/help");
}

/// A command is known by its first word: it ends the client, clears the conversation, lists or
/// resumes sessions, shows permissions, switches the mode, or helps. One that is not known is told
/// so and does nothing.
pub proof fn law_commands_are_known_by_their_first_word(
    state: AppModel,
    input: Seq<char>,
    at: MomentModel,
)
    requires
        words(input).len() > 0,
    ensures
        ({
            let (next, step) = state.on_command(input, at);
            let name = words(input)[0];
            &&& name == "/exit"@ || name == "/quit"@ ==> step == (StepModel::Done { go_on: false })
                && !next.running
            &&& name == "/clear"@ ==> (next, step) == state.clearing(at)
            &&& name == "/sessions"@ ==> (next, step) == state.opening_picker()
            &&& name == "/permissions"@ ==> next == state && step == (StepModel::Send {
                command: CommandModel::PermissionsSnapshot,
                next: AfterSendModel::Permissions,
            })
            &&& name == "/resume"@ ==> (next, step) == state.resuming(words(input))
            &&& name == "/model"@ ==> (next, step) == state.on_model_command(words(input))
            &&& name == "/effort"@ ==> (next, step) == state.on_effort_command(words(input))
            &&& name == "/act"@ ==> (next, step) == state.switching_mode(false)
            &&& name == "/plan"@ ==> (next, step) == state.on_plan_command(
                input,
                words(input),
                at.ticks,
            )
            &&& name == "/help"@ ==> step == going_on() && next.messages.len()
                == state.messages.len() + 1 && next.messages.last().role == "assistant"@
            &&& name != "/exit"@ && name != "/quit"@ && name != "/clear"@ && name != "/sessions"@
                && name != "/permissions"@ && name != "/resume"@ && name != "/model"@ && name
                != "/effort"@ && name != "/act"@ && name != "/plan"@ && name != "/help"@ ==> step
                == going_on() && next == (AppModel {
                status: "Unknown command: "@ + name + ". Type /help for available commands."@,
                ..state
            })
        }),
{
    lemma_commands_differ();
}

/// While an answer is awaited or a turn runs, sessions are neither cleared nor changed; without a
/// store there are none.
pub proof fn law_sessions_change_only_when_idle(
    state: AppModel,
    parts: Seq<Seq<char>>,
    at: MomentModel,
)
    ensures
        state.busy() <==> state.working_since is Some || state.pending_plan is Some
            || state.pending_permission is Some || state.pending_file_preview is Some,
        state.busy() ==> state.clearing(at).0.messages == state.messages && state.clearing(at).1
            == going_on(),
        !state.busy() && state.session is Some ==> state.clearing(at) == state.persisted(
            AfterSaveModel::Clear { effort: (state.session->0).reasoning_effort },
            at,
        ),
        !state.busy() && state.session is None ==> state.clearing(at) == (
            AppModel { status: "Session storage is unavailable."@, ..state },
            going_on(),
        ),
        !state.busy() && state.has_session_store && state.session is Some
            ==> state.opening_picker() == (
            state,
            StepModel::List {
                workspace: Some((state.session->0).workspace_root),
                next: AfterListModel::Open,
            },
        ),
        !state.busy() && !(state.has_session_store && state.session is Some)
            ==> state.opening_picker().1 == going_on(),
        parts.len() == 2 && !state.busy() && state.has_session_store ==> state.resuming(parts) == (
            state,
            StepModel::Load { id: parts[1] },
        ),
        parts.len() == 1 ==> state.resuming(parts) == state.opening_picker(),
        parts.len() > 2 ==> state.resuming(parts).1 == going_on(),
{
}

/// A model is chosen by its name with its own limits, if it takes the effort in use; otherwise the
/// agent is told nothing.
pub proof fn law_models_are_chosen_by_name(state: AppModel, id: Seq<char>, profile: ProfileModel)
    requires
        state.working_since is None,
        profile_of(state.available_models, id) == Some(profile),
    ensures
        ({
            let (next, step) = state.choosing_model(id);
            let effort = if state.reasoning_effort is Some {
                state.reasoning_effort->0
            } else {
                "off"@
            };
            &&& profile.supports(effort) ==> next == state && step == (StepModel::Send {
                command: CommandModel::SetModel {
                    model: profile.id,
                    max_tokens: profile.max_output_tokens,
                    context_window: profile.context_window,
                },
                next: AfterSendModel::Model { name: profile.id },
            })
            &&& !profile.supports(effort) ==> step == going_on() && next.current_model
                == state.current_model
        }),
{
}

/// A model that there is not is told so; while a turn runs no model is chosen.
pub proof fn law_unknown_models_are_told(state: AppModel, id: Seq<char>)
    ensures
        state.working_since is Some ==> state.choosing_model(id) == (
            AppModel {
                status: "Finish or interrupt the current operation before switching model."@,
                ..state
            },
            going_on(),
        ),
        state.working_since is None && profile_of(state.available_models, id) is None
            ==> state.choosing_model(id) == (
            AppModel {
                status: "Unknown model: "@ + id + ". Use /model to list models."@,
                ..state
            },
            going_on(),
        ),
{
}

/// An effort is chosen by its name in any case, if the model in use takes it and no turn runs.
pub proof fn law_efforts_are_chosen_by_name(state: AppModel, parts: Seq<Seq<char>>)
    requires
        parts.len() == 2,
    ensures
        ({
            let (next, step) = state.on_effort_command(parts);
            let name = ascii_lowercase(parts[1]);
            &&& state.working_since is None && state.efforts().contains(name) ==> next == state
                && step == (StepModel::Send {
                command: CommandModel::SetReasoningEffort { effort: Some(name) },
                next: AfterSendModel::Effort { effort: name },
            })
            &&& state.working_since is Some || !state.efforts().contains(name) ==> step
                == going_on() && next.reasoning_effort == state.reasoning_effort
        }),
        state.current_profile() is None ==> state.efforts() == seq!["off"@],
        state.current_profile() is Some ==> state.efforts().len()
            == (state.current_profile()->0).reasoning_efforts.len(),
{
}

/// A plan is asked for with the task that follows the command, as it is; without a task the mode is
/// switched on, and off where that is said.
pub proof fn law_plans_are_asked_for(
    state: AppModel,
    input: Seq<char>,
    parts: Seq<Seq<char>>,
    task: Seq<char>,
    now: u64,
)
    requires
        !(parts.len() == 2 && ascii_lowercase(parts[1]) == "off"@),
        strip_prefix(input, "/plan"@) is Some,
        task == trim(strip_prefix(input, "/plan"@)->0),
    ensures
        task.len() == 0 ==> state.on_plan_command(input, parts, now) == state.switching_mode(true),
        task.len() > 0 ==> {
            let (next, step) = state.on_plan_command(input, parts, now);
            &&& step == (StepModel::Send {
                command: CommandModel::PlanProcess { message: task },
                next: AfterSendModel::Message,
            })
            &&& next.messages.len() == state.messages.len() + 1
            &&& next.messages.drop_last() == state.messages
            &&& next.messages.last().role == "user"@
            &&& next.messages.last().content == task
            &&& next.core_messages.last().role is User
            &&& next.core_messages.last().content == seq![ContentBlockModel::Text { text: task }]
            &&& next.working_since == Some(now)
            &&& next.status == "Planning..."@
        },
{
    let next = state.on_plan_command(input, parts, now).0;
    if task.len() > 0 {
        assert(next.messages.drop_last() =~= state.messages);
    }
}

/// The plan command with the word off switches the mode off.
pub proof fn law_plan_off_switches_off(
    state: AppModel,
    input: Seq<char>,
    parts: Seq<Seq<char>>,
    now: u64,
)
    requires
        parts.len() == 2,
        ascii_lowercase(parts[1]) == "off"@,
    ensures
        state.on_plan_command(input, parts, now) == state.switching_mode(false),
{
}

} // verus!
