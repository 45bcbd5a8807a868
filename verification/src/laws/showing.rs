//! What the client does around the conversation: the list of sessions, the times it tells, what it
//! saves and says, what keys do to the view, and what it shows of a selection and a paste.
use crate::keys::{Key, KeyPress};
use crate::run::permission_box;
use crate::session::{is_blank, SummaryModel};
use crate::text::{decimal, utf8_len};
use crate::types::{EvaluationModel, PreviewModel, ProfileModel};
use crate::ui::agent_events::diff_text;
use crate::ui::cursor::{
    boundary, boundary_index, byte_offset, lemma_byte_length, lemma_offset_is_boundary,
};
use crate::ui::editor::{sorted, PastedInputBlock};
use crate::ui::input_view::{projected, slice, within, Projection};
use crate::ui::picker::{framed, heading, picker_height, picker_width};
use crate::ui::selection::{
    covered, line_with_selection, marked, TranscriptSelection, TranscriptSelectionPoint,
};
use crate::ui::state::{
    going_on, seconds_between, seconds_spent, ActionModel, AfterListModel, AfterSaveModel,
    AppModel, MomentModel, PickerModel, SaveReason, StepModel,
};
use crate::ui::status::{
    activity, first_filled, permission_heading, plan_heading, tool_words, PermissionModel,
};
use crate::ui::style::{columns_of_pieces, Color, SpanModel, Style};
use crate::ui::viewport::Rect;
use crate::workspace_trust::{choice_lines, key_action, PromptAction, TrustDecision};
use crate::words::{lines, shortened};
use serde_json::Value;
use vstd::prelude::*;

verus! {

/// The list of sessions takes the screen but for a column on either side and a line, up to a
/// hundred columns, and no more lines than its sessions and its frame need.
pub proof fn law_the_list_fits_the_screen(outer: Rect, count: nat)
    requires
        count < 0x1_0000,
    ensures
        outer.width >= 102 ==> picker_width(outer) == 100,
        3 < outer.width < 102 ==> picker_width(outer) == outer.width - 2,
        outer.width <= 3 ==> picker_width(outer) == 1,
        outer.height > 1 && count + 4 >= outer.height - 1 ==> picker_height(outer, count)
            == outer.height - 1,
        outer.height > 1 && count + 4 < outer.height - 1 ==> picker_height(outer, count) == count
            + 4,
        outer.height <= 1 ==> picker_height(outer, count) == 1,
{
}

/// Inside a frame there is a column less on either side and a line less above and below.
pub proof fn law_frames_take_one_on_each_side(area: Rect)
    requires
        area.width >= 2,
        area.height >= 2,
        area.x + area.width <= u16::MAX,
        area.y + area.height <= u16::MAX,
    ensures
        framed(area).x == area.x + 1,
        framed(area).y == area.y + 1,
        framed(area).width == area.width - 2,
        framed(area).height == area.height - 2,
        heading(true) == " Sessions - "@ + "All workspaces"@ + " "@,
        heading(false) == " Sessions - "@ + "Current workspace"@ + " "@,
{
}

/// Sessions that were listed are offered from the first one on. A list that cannot be had leaves
/// what was there, and says why.
pub proof fn law_listed_sessions_are_offered(
    state: AppModel,
    picker: PickerModel,
    sessions: Seq<SummaryModel>,
    error: Seq<char>,
)
    ensures
        ({
            let after = state.after_listing(AfterListModel::Toggle { picker }, Ok(sessions));
            &&& after.pending_sessions is Some
            &&& (after.pending_sessions->0).sessions == sessions
            &&& (after.pending_sessions->0).selected == 0
            &&& (after.pending_sessions->0).show_all == picker.show_all
            &&& after.messages == state.messages
            &&& after.status == state.status
        }),
        ({
            let after = state.after_listing(AfterListModel::Toggle { picker }, Err(error));
            &&& after.pending_sessions == Some(picker)
            &&& after.status == "Could not list sessions: "@ + error
        }),
        ({
            let after = state.after_listing(AfterListModel::Open, Ok(sessions));
            &&& after.pending_sessions is Some
            &&& (after.pending_sessions->0).sessions == sessions
            &&& (after.pending_sessions->0).selected == 0
            &&& !(after.pending_sessions->0).show_all
            &&& after.status == "Session history."@
            &&& after.messages == state.messages
        }),
        ({
            let after = state.after_listing(AfterListModel::Open, Err(error));
            &&& after.pending_sessions == state.pending_sessions
            &&& after.status == "Could not list sessions: "@ + error
            &&& after.messages == state.messages
        }),
{
}

/// A session that cannot be loaded is told and changes nothing else. One that can is gone on with
/// once what is there was saved.
pub proof fn law_loaded_sessions_are_gone_on_with(
    state: AppModel,
    id: Seq<char>,
    error: Seq<char>,
    at: MomentModel,
)
    ensures
        state.after_loading(id, Some(error), at) == (
            AppModel { status: error, ..state },
            going_on(),
        ),
        !state.has_session_store || state.session is None ==> {
            let (after, step) = state.after_loading(id, None, at);
            &&& after.exit_action == ActionModel::Resume(id)
            &&& !after.running
            &&& step == (StepModel::Done { go_on: false })
        },
        state.has_session_store && state.session is Some ==> {
            let (after, step) = state.after_loading(id, None, at);
            &&& after.session is Some
            &&& (after.session->0).id == (state.session->0).id
            &&& (after.session->0).ui_messages == state.messages
            &&& (after.session->0).core_messages == state.core_messages
            &&& step == (StepModel::Save {
                next: AfterSaveModel::Resume { id, picker: None },
            }) || (step == (StepModel::Done { go_on: false }) && after.exit_action
                == ActionModel::Resume(id))
        },
{
}

/// A session is saved where there is a place for it and the user has said something in it. It is
/// dated then, and otherwise what comes after the saving comes at once.
pub proof fn law_sessions_with_requests_are_saved(
    state: AppModel,
    next: AfterSaveModel,
    at: MomentModel,
)
    ensures
        state.has_session_store && state.session is Some && (state.session->0).has_request() ==> {
            let (after, step) = state.committed(next, at);
            &&& step == (StepModel::Save { next })
            &&& after.session is Some
            &&& (after.session->0).updated_at == at.stamp
            &&& (after.session->0).id == (state.session->0).id
            &&& (after.session->0).ui_messages == (state.session->0).ui_messages
            &&& after.messages == state.messages
        },
        !(state.has_session_store && state.session is Some && (state.session->0).has_request())
            ==> state.committed(next, at) == state.after_saving(next, None, at),
{
}

/// A generated title goes to the session, where it has none yet, and is saved with it.
pub proof fn law_generated_titles_go_to_the_session(
    state: AppModel,
    title: Seq<char>,
    at: MomentModel,
)
    ensures
        state.has_session_store && state.session is Some && !(state.session->0).title_generated
            && crate::session::cleaned_title(title) is Some && (state.session->0).has_request()
            ==> {
            let (after, step) = state.on_title(title, at);
            &&& (after.session->0).title == crate::session::cleaned_title(title)->0
            &&& (after.session->0).title_generated
            &&& step == (StepModel::Save {
                next: AfterSaveModel::Report { reason: SaveReason::Title },
            })
            &&& after.messages == state.messages
        },
        !state.has_session_store || state.session is None || (state.session->0).title_generated
            || crate::session::cleaned_title(title) is None ==> state.on_title(title, at) == (
            state,
            going_on(),
        ),
{
    if state.session is Some {
        let session = state.session->0;
        let with = session.with_title(title);
        assert(with.ui_messages == session.ui_messages);
        assert(with.core_messages == session.core_messages);
        assert(with.has_request() == session.has_request());
    }
}

/// What a failed saving is told as depends on what was saved.
pub proof fn law_failed_savings_are_told(reason: SaveReason)
    ensures
        reason is Event ==> reason.complaint() == "Could not save session: "@,
        reason is Message ==> reason.complaint() == "Message sent, but session save failed: "@,
        reason is Model ==> reason.complaint() == "Model switched, but session save failed: "@,
        reason is Effort ==> reason.complaint() == "Effort changed, but session save failed: "@,
        reason is Title ==> reason.complaint() == "Could not save session title: "@,
{
}

/// Times are counted in full seconds of a thousand million ticks, and what took time took at least
/// one of them.
pub proof fn law_seconds_are_counted_in_full(started: u64, now: u64)
    ensures
        now >= started ==> {
            let n = seconds_between(started, now);
            n * 1_000_000_000 <= now - started < (n + 1) * 1_000_000_000
        },
        now < started ==> seconds_between(started, now) == 0,
        seconds_spent(started, now) >= 1,
        seconds_between(started, now) >= 1 ==> seconds_spent(started, now) == seconds_between(
            started,
            now,
        ),
        seconds_between(started, now) == 0 ==> seconds_spent(started, now) == 1,
{
}

/// What was streamed becomes a message of the assistant, whole, and nothing is streamed any more.
pub proof fn law_streamed_text_is_put_away(state: AppModel)
    ensures
        state.flushed().streaming_text.len() == 0,
        state.streaming_text.len() == 0 ==> state.flushed().messages == state.messages,
        state.streaming_text.len() > 0 ==> {
            let after = state.flushed();
            &&& after.messages.drop_last() == state.messages
            &&& after.messages.last().role == "assistant"@
            &&& after.messages.last().content == state.streaming_text
        },
{
    assert(state.streaming_text.len() > 0 ==> state.flushed().messages.drop_last()
        =~= state.messages);
}

/// A change is told as an update of a file that is there and as the creation of any other, with its
/// name on the first line and the difference below.
pub proof fn law_changes_name_their_file(preview: PreviewModel)
    ensures
        preview.before_exists ==> diff_text(preview) == "Update"@ + ": "@ + preview.path + "\n"@
            + preview.unified_diff,
        !preview.before_exists ==> diff_text(preview) == "Create"@ + ": "@ + preview.path + "\n"@
            + preview.unified_diff,
{
}

/// The keys that page move the view by as many lines as are shown, and with a modifier the arrows
/// move it by three; nothing else of the state changes.
pub proof fn law_paging_moves_by_what_is_shown(state: AppModel, key: KeyPress, at: MomentModel)
    requires
        !state.prompting(),
        state.viewport.pending_scroll_delta == 0,
        0 < state.viewport.last_transcript_visible <= 0x7fff_ffff,
    ensures
        ({
            let (after, step) = state.on_key(key, at);
            let shown = state.viewport.last_transcript_visible;
            &&& key.code is PageUp ==> after.viewport.pending_scroll_delta == -shown
            &&& key.code is PageDown ==> after.viewport.pending_scroll_delta == shown
            &&& key.code is Up && (key.shift || key.alt)
                ==> after.viewport.pending_scroll_delta == -3
            &&& key.code is Down && (key.shift || key.alt)
                ==> after.viewport.pending_scroll_delta == 3
            &&& key.code is Up && !key.shift && !key.alt ==> after == state
            &&& key.code is Down && !key.shift && !key.alt ==> after == state
            &&& key.code is PageUp || key.code is PageDown || key.code is Up || key.code is Down
                ==> step == going_on() && after.editor == state.editor && after.messages
                == state.messages && after.status == state.status
        }),
{
}

/// Letters go into the input line, and the keys that edit change the input line alone.
pub proof fn law_editing_keys_edit(state: AppModel, key: KeyPress, at: MomentModel, c: char)
    requires
        !state.prompting(),
        !key.control,
    ensures
        ({
            let (after, step) = state.on_key(key, at);
            &&& key.code == Key::Char(c) ==> after == (AppModel {
                editor: state.editor.with_text(seq![c]),
                ..state
            }) && step == going_on()
            &&& key.code is Backspace ==> after == (AppModel {
                editor: state.editor.backspaced(),
                ..state
            })
            &&& key.code is Delete ==> after == (AppModel { editor: state.editor.deleted(), ..state })
            &&& key.code is Left ==> after == (AppModel {
                editor: state.editor.moved_left(),
                ..state
            })
            &&& key.code is Right ==> after == (AppModel {
                editor: state.editor.moved_right(),
                ..state
            })
            &&& key.code is Home ==> after == (AppModel { editor: state.editor.at(0), ..state })
            &&& key.code is End && state.editor.text.len() > 0 ==> after == (AppModel {
                editor: state.editor.at(utf8_len(state.editor.text) as usize),
                ..state
            })
            &&& key.code is End && state.editor.text.len() == 0 ==> after == (AppModel {
                viewport: state.viewport.at_bottom(),
                ..state
            })
        }),
{
}

/// A line outside a selection is shown as it is, and so is every line where nothing is selected.
/// Inside, the marked part starts and ends where the selection does.
pub proof fn law_only_what_is_selected_is_marked(
    line: Seq<SpanModel>,
    i: int,
    anchor: TranscriptSelectionPoint,
    head: TranscriptSelectionPoint,
    dragging: bool,
)
    requires
        anchor.line < head.line || anchor.line == head.line && anchor.column <= head.column,
        columns_of_pieces(line) <= usize::MAX,
    ensures
        ({
            let selection = TranscriptSelection {
                anchor: Some(anchor),
                head: Some(head),
                dragging,
            };
            let width = columns_of_pieces(line) as usize;
            &&& i < anchor.line || i > head.line ==> line_with_selection(line, i, selection)
                == line
            &&& anchor == head ==> line_with_selection(line, i, selection) == line
            &&& anchor.line < i < head.line && width > 0 ==> line_with_selection(
                line,
                i,
                selection,
            ) == marked(line, 0, width).0
            &&& anchor.line == i && i < head.line && anchor.column < width ==> line_with_selection(
                line,
                i,
                selection,
            ) == marked(line, anchor.column, width).0
            &&& anchor.line < i && i == head.line && 0 < head.column < width
                ==> line_with_selection(line, i, selection) == marked(line, 0, head.column).0
            &&& anchor.line == i && i == head.line && anchor.column < head.column < width
                ==> line_with_selection(line, i, selection) == marked(
                line,
                anchor.column,
                head.column,
            ).0
        }),
        line_with_selection(
            line,
            i,
            (TranscriptSelection { anchor: None, head: Some(head), dragging }),
        ) == line,
{
}

/// The model that is in use stays among those that were fetched, in front of them where it is not
/// one of them.
pub proof fn law_the_model_in_use_stays(
    state: AppModel,
    fetched: Seq<ProfileModel>,
    profile: ProfileModel,
)
    requires
        state.current_profile() == Some(profile),
    ensures
        ({
            let all = state.models_with_current(fetched);
            &&& all == fetched || (all.len() == fetched.len() + 1 && all[0] == profile
                && all.drop_first() == fetched)
            &&& crate::ui::steps::profile_of(all, profile.id) is Some
            &&& crate::ui::steps::profile_of(fetched, profile.id) is Some ==> all == fetched
            &&& crate::ui::steps::profile_of(fetched, profile.id) is None ==> all.len()
                == fetched.len() + 1
        }),
{
    assert((seq![profile] + fetched).drop_first() =~= fetched);
}

/// Models are fetched anew only while nothing goes on and where there is a catalog.
pub proof fn law_models_are_fetched_when_idle(state: AppModel)
    ensures
        state.busy() ==> state.refreshing().1 == going_on() && state.refreshing().0.status
            == "Finish or interrupt the current operation before refreshing models."@,
        !state.busy() && !state.has_model_catalog ==> state.refreshing().1 == going_on()
            && state.refreshing().0.status
            == "Model catalog refresh is unavailable for this session."@,
        !state.busy() && state.has_model_catalog ==> state.refreshing() == (
            state,
            StepModel::RefreshModels,
        ),
{
}

/// The answers to whether a folder is trusted stand below each other, and only the selected one is
/// marked.
pub proof fn law_the_selected_answer_is_marked()
    ensures
        choice_lines(0)[0][0].content == "> 1. Yes, I trust this folder"@,
        choice_lines(0)[1][0].content == "  2. No, exit"@,
        choice_lines(1)[0][0].content == "  1. Yes, I trust this folder"@,
        choice_lines(1)[1][0].content == "> 2. No, exit"@,
        choice_lines(0)[0][0].style.bold && !choice_lines(0)[1][0].style.bold,
        !choice_lines(1)[0][0].style.bold && choice_lines(1)[1][0].style.bold,
        choice_lines(0)[0][0].style.fg == Some(Color::Blue),
        choice_lines(1)[1][0].style.fg == Some(Color::Blue),
{
}

/// What each key answers to whether a folder is trusted. Entering takes the selected answer, and
/// leaving does not trust.
pub proof fn law_keys_answer_about_trust(key: KeyPress, selected: usize)
    ensures
        key.code is Up ==> key_action(key, selected) == PromptAction::Select(0),
        key.code is Down || key.code is Tab ==> key_action(key, selected)
            == PromptAction::Select(1),
        key.code is Enter && selected == 0 ==> key_action(key, selected) == PromptAction::Confirm(
            TrustDecision::Trusted,
        ),
        key.code is Enter && selected != 0 ==> key_action(key, selected) == PromptAction::Confirm(
            TrustDecision::Exit,
        ),
        key.code is Esc ==> key_action(key, selected) == PromptAction::Confirm(
            TrustDecision::Exit,
        ),
        key.code == Key::Char('y') || key.code == Key::Char('1') ==> key_action(key, selected)
            == PromptAction::Confirm(TrustDecision::Trusted),
        key.code == Key::Char('n') || key.code == Key::Char('2') || key.code == Key::Char('q')
            ==> key_action(key, selected) == PromptAction::Confirm(TrustDecision::Exit),
        key.code == Key::Char('c') && key.control ==> key_action(key, selected)
            == PromptAction::Confirm(TrustDecision::Exit),
        key.code == Key::Char('c') && !key.control ==> key_action(key, selected)
            == PromptAction::Ignore,
{
}

/// The box that asks for permission shows the tool, its risk, its sandbox and its arguments, each on
/// a line of its own.
pub proof fn law_the_box_names_what_is_asked_for(
    tool_name: Seq<char>,
    input: Value,
    evaluation: EvaluationModel,
)
    ensures
        ({
            let rows = permission_box(tool_name, input, evaluation);
            &&& rows.len() == 12
            &&& rows[4] == "║  "@ + "Tool: "@ + crate::listing::padded(tool_name, 34) + "║"@
            &&& rows[5] == "║  "@ + "Risk: "@ + crate::listing::padded(evaluation.risk, 34) + "║"@
            &&& rows[6] == "║  "@ + "Sandbox: "@ + crate::listing::padded(
                evaluation.sandbox_policy,
                31,
            ) + "║"@
            &&& rows[7] == "║  "@ + "Args: "@ + crate::listing::padded(
                shortened(crate::json::json_text(input), 34),
                34,
            ) + "║"@
        }),
{
}

/// A request for permission is headed by the tool and by how risky it is, and says what the tool is
/// to do where there is anything to say.
pub proof fn law_permission_is_headed_by_its_tool(
    permission: PermissionModel,
    shown: Seq<char>,
)
    ensures
        ({
            let detail = shortened(
                activity(permission.tool_name, permission.input, shown).1,
                72,
            );
            let head = "Permission required: "@ + tool_words(permission.tool_name) + " ("@;
            &&& permission.evaluation is None && detail.len() > 0 ==> permission_heading(
                permission,
                shown,
            ) == head + "approval"@ + ") - "@ + detail
            &&& permission.evaluation is None && detail.len() == 0 ==> permission_heading(
                permission,
                shown,
            ) == head + "approval"@ + ")"@
            &&& permission.evaluation is Some && detail.len() > 0 ==> permission_heading(
                permission,
                shown,
            ) == head + ((permission.evaluation->0).risk + " / "@
                + (permission.evaluation->0).sandbox_policy) + ") - "@ + detail
        }),
{
}

/// A plan is headed by its first line that says something, cut where it is long.
pub proof fn law_plans_are_headed(plan: Seq<char>)
    ensures
        first_filled(lines(plan)) is Some ==> plan_heading(plan) == "Review plan: "@ + shortened(
            first_filled(lines(plan))->0,
            104,
        ),
        first_filled(lines(plan)) is None ==> plan_heading(plan) == "Review plan: "@ + shortened(
            "Plan ready"@,
            104,
        ),
        first_filled(lines(plan)) is Some ==> !is_blank(first_filled(lines(plan))->0),
{
    lemma_first_filled(lines(plan));
}

proof fn lemma_first_filled(all: Seq<Seq<char>>)
    ensures
        first_filled(all) is Some ==> !is_blank(first_filled(all)->0),
    decreases all.len(),
{
    if all.len() > 0 && is_blank(all[0]) {
        lemma_first_filled(all.drop_first());
    }
}

/// A paste that was folded is shown as its label, between what stands before it and what stands
/// behind it. A cursor before it stays where it is, and one at its end stands behind the label.
pub proof fn law_folded_pastes_are_shown_by_their_label(
    text: Seq<char>,
    block: PastedInputBlock,
    i: int,
    j: int,
    k: int,
)
    requires
        0 <= i < j <= text.len(),
        0 <= k <= i,
        block.start == byte_offset(text, i),
        block.end == byte_offset(text, j),
        byte_offset(text, i) <= byte_offset(text, j) <= byte_offset(text, text.len() as int),
        byte_offset(text, k) <= byte_offset(text, i),
    ensures
        projected(text, seq![block], byte_offset(text, k)).0 == text.take(i) + block.shown()
            + text.skip(j),
        projected(text, seq![block], byte_offset(text, k)).1 == byte_offset(text, k),
        block.start < block.end ==> projected(text, seq![block], byte_offset(text, j)).1
            == utf8_len(text.take(i)) + utf8_len(block.shown()),
{
    lemma_byte_length(text);
    lemma_offset_is_boundary(text, 0);
    lemma_offset_is_boundary(text, i);
    lemma_offset_is_boundary(text, j);
    lemma_offset_is_boundary(text, k);
    lemma_offset_is_boundary(text, text.len() as int);
    let one = seq![block];
    let none = Seq::<PastedInputBlock>::empty();
    assert(one.drop_last() =~= none);
    reveal_with_fuel(within, 2);
    assert(within(text, one) =~= one);
    lemma_sorted_one(block);
    reveal_with_fuel(Projection::add_blocks, 2);
    assert(vstd::utf8::encode_utf8(Seq::<char>::empty()).len() == 0);
    assert(Seq::<char>::empty() + slice(text, 0, block.start as nat) =~= text.take(i));
    assert(slice(text, block.end as nat, utf8_len(text)) =~= text.skip(j));
}

proof fn lemma_sorted_one(block: PastedInputBlock)
    ensures
        sorted(seq![block]) == seq![block],
{
    let one = seq![block];
    assert(one.drop_last() =~= Seq::<PastedInputBlock>::empty());
    reveal_with_fuel(sorted, 2);
    assert(sorted(one) =~= one);
}

} // verus!
