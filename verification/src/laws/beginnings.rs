//! What things are when they begin, and what is done with what is not known.
use crate::ids::parses_as_uuid;
use crate::llm_response::either_title;
use crate::plan_executor::managed_name;
use crate::session::SessionModel;
use crate::setup::chat_state;
use crate::text::{decimal, join, starts_with, strip_prefix, strip_suffix};
use crate::types::ProfileModel;
use crate::ui::banner::{header_lines, HeaderModel};
use crate::ui::scrolling::{MouseScrollState, ScrollDirection};
use crate::ui::slash::ids_of;
use crate::ui::state::{going_on, ActionModel, AppModel, MomentModel, StepModel};
use crate::ui::viewport::{MouseInput, MouseKind, Rect, ViewportState};
use crate::ui::style::SpanModel;
use crate::words::{repeat, words};
use crate::workspace_trust::unsupported;
use vstd::prelude::*;

verus! {

/// A client begins with nothing shown, typed, asked or going on, at the end of an empty transcript.
pub proof fn law_clients_begin_empty()
    ensures
        ({
            let state = AppModel::initial();
            &&& state.startup_header is None
            &&& state.editor.text.len() == 0
            &&& state.editor.blocks.len() == 0
            &&& state.messages.len() == 0
            &&& state.core_messages.len() == 0
            &&& state.streaming_text.len() == 0
            &&& state.reasoning_text.len() == 0
            &&& state.reasoning_started_at is None
            &&& !state.reasoning_expanded
            &&& state.status == "Ready. Type /exit to quit, Ctrl+C to cancel."@
            &&& state.running
            &&& !state.plan_mode_enabled
            &&& state.available_models.len() == 0
            &&& !state.has_model_catalog
            &&& state.current_model is None
            &&& state.reasoning_effort is None
            &&& !state.has_session_store
            &&& state.session is None
            &&& state.pending_sessions is None
            &&& state.exit_action is Exit
            &&& state.pending_plan is None
            &&& state.pending_permission is None
            &&& state.pending_file_preview is None
            &&& state.deferred_approvals.len() == 0
            &&& state.working_since is None
            &&& !state.interrupt_requested
            &&& state.last_usage is None
        }),
        ({
            let view = ViewportState::initial();
            &&& view.transcript_scroll.is_tail()
            &&& view.pending_scroll_delta == 0
            &&& !view.transcript_scrollbar_dragging
            &&& view.transcript_selection.anchor is None
            &&& view.transcript_selection.head is None
            &&& !view.transcript_selection.dragging
            &&& view.last_transcript_area is None
            &&& view.last_transcript_top == 0
            &&& view.last_transcript_visible == 0
            &&& view.last_transcript_total == 0
            &&& view.last_transcript_padding_top == 0
            &&& view.mouse_scroll.last_event_at is None
            &&& view.mouse_scroll.last_direction is None
            &&& view.mouse_scroll.rapid_same_direction_ticks == 0
        }),
{
}

/// A chat begins with what its session holds and with the model and effort that were chosen, and has
/// nothing open.
pub proof fn law_chats_begin_with_their_session(
    session: SessionModel,
    header: HeaderModel,
    models: Seq<ProfileModel>,
    model: Seq<char>,
    effort: Option<Seq<char>>,
)
    ensures
        ({
            let state = chat_state(session, header, models, model, effort);
            &&& state.startup_header == Some(header)
            &&& state.messages == session.ui_messages
            &&& state.core_messages == session.core_messages
            &&& state.available_models == models
            &&& state.has_model_catalog
            &&& state.current_model == Some(model)
            &&& state.reasoning_effort == effort
            &&& state.has_session_store
            &&& state.session == Some(session)
            &&& state.editor.text.len() == 0
            &&& state.streaming_text.len() == 0
            &&& state.running
            &&& !state.plan_mode_enabled
            &&& state.exit_action is Exit
            &&& state.pending_plan is None
            &&& state.pending_permission is None
            &&& state.pending_file_preview is None
            &&& state.pending_sessions is None
            &&& state.working_since is None
            &&& state.last_usage is None
        }),
{
}

/// The mouse does what its event says: the wheel scrolls, a press and a drag select or scroll by the
/// bar, and letting go ends that. Other events do nothing.
pub proof fn law_the_mouse_scrolls_and_selects(
    view: ViewportState,
    lines: Seq<Seq<SpanModel>>,
    mouse: MouseInput,
    now: u64,
)
    ensures
        ({
            let after = view.after_mouse(lines, mouse, now);
            &&& mouse.kind is ScrollUp ==> after == view.wheeled(ScrollDirection::Up, now)
            &&& mouse.kind is ScrollDown ==> after == view.wheeled(ScrollDirection::Down, now)
            &&& mouse.kind is LeftDown ==> after == view.pressed(lines, mouse)
            &&& mouse.kind is LeftDrag && view.transcript_scrollbar_dragging ==> after
                == view.dragged_to(mouse.row)
            &&& mouse.kind is LeftDrag && !view.transcript_scrollbar_dragging
                && view.transcript_selection.dragging ==> after == view.selecting(lines, mouse)
            &&& mouse.kind is LeftDrag && !view.transcript_scrollbar_dragging
                && !view.transcript_selection.dragging ==> after == view
            &&& mouse.kind is LeftUp ==> after == view.released(lines)
            &&& mouse.kind is Other ==> after == view
        }),
{
}

/// Dragging the bar does nothing where there is no bar, and otherwise moves the view alone.
pub proof fn law_dragging_the_bar_moves_the_view(view: ViewportState, area: Rect, row: u16)
    ensures
        view.last_transcript_area is None ==> view.dragged_to(row) == view,
        view.last_transcript_area == Some(area) && (area.height == 0 || view.last_transcript_total
            <= view.last_transcript_visible) ==> view.dragged_to(row) == view,
        view.dragged_to(row).transcript_selection == view.transcript_selection,
        view.dragged_to(row).transcript_scrollbar_dragging == view.transcript_scrollbar_dragging,
        view.last_transcript_area == Some(area) && area.height > 0 && view.last_transcript_total
            > view.last_transcript_visible ==> view.dragged_to(row).pending_scroll_delta == 0,
{
}

/// Drawing remembers where the transcript stands and what of it is shown, and uses up the lines that
/// were to be scrolled.
pub proof fn law_drawing_remembers_the_place(state: AppModel, area: Rect, total: usize)
    requires
        area.width > 0,
        area.height > 0,
    ensures
        ({
            let after = state.drawn_viewport(area, total);
            &&& after.last_transcript_area is Some
            &&& (after.last_transcript_area->0).x == area.x
            &&& (after.last_transcript_area->0).y == area.y
            &&& (after.last_transcript_area->0).width == area.width - 1
            &&& (after.last_transcript_area->0).height == area.height
            &&& after.last_transcript_padding_top == 0
            &&& after.last_transcript_total == total
            &&& after.last_transcript_visible == area.height
            &&& after.last_transcript_top == state.viewport.window_top(
                total,
                area.height as usize,
            )
            &&& after.pending_scroll_delta == 0
            &&& after.transcript_selection == state.viewport.transcript_selection
        }),
{
}

/// Ticks of the wheel count up while they come fast and in one direction, as far as they can be
/// counted. A turn of direction starts again with one, and a pause with none.
pub proof fn law_fast_ticks_are_counted(scroll: MouseScrollState, now: u64)
    ensures
        scroll.last_event_at is None ==> scroll.next_ticks(ScrollDirection::Up, now) == 0,
        scroll.is_trackpad(now) && scroll.last_direction == Some(ScrollDirection::Down)
            ==> scroll.next_ticks(ScrollDirection::Up, now) == 1,
        scroll.is_trackpad(now) && scroll.last_direction == Some(ScrollDirection::Up)
            ==> scroll.next_ticks(ScrollDirection::Down, now) == 1,
        scroll.is_trackpad(now) && scroll.last_direction == Some(ScrollDirection::Up)
            && scroll.rapid_same_direction_ticks < 255 ==> scroll.next_ticks(
            ScrollDirection::Up,
            now,
        ) == scroll.rapid_same_direction_ticks + 1,
        scroll.is_trackpad(now) && scroll.last_direction == Some(ScrollDirection::Up)
            && scroll.rapid_same_direction_ticks == 255 ==> scroll.next_ticks(
            ScrollDirection::Up,
            now,
        ) == 255,
        !scroll.is_trackpad(now) ==> scroll.next_ticks(ScrollDirection::Down, now) == 0,
{
}

/// The box of the banner is drawn with its corners and as wide as it is.
pub proof fn law_the_box_has_its_corners(header: HeaderModel, width: u16)
    requires
        width >= 70,
    ensures
        header_lines(header, width)[6][0].content == "┌"@ + repeat("─"@, 68) + "┐"@,
        header_lines(header, width)[11][0].content == "└"@ + repeat("─"@, 68) + "┘"@,
{
}

/// A command that is not known is named, and changes nothing. The help is shown in the transcript.
pub proof fn law_unknown_commands_are_named(
    state: AppModel,
    input: Seq<char>,
    at: MomentModel,
    name: Seq<char>,
)
    requires
        words(input).len() > 0,
        words(input)[0] == name,
        name != "/exit"@ && name != "/quit"@ && name != "/clear"@ && name != "/sessions"@,
        name != "/permissions"@ && name != "/resume"@ && name != "/model"@ && name != "/effort"@,
        name != "/plan"@ && name != "/act"@ && name != "/help"@,
    ensures
        state.on_command(input, at) == (
            AppModel {
                status: "Unknown command: "@ + name + ". Type /help for available commands."@,
                ..state
            },
            going_on(),
        ),
{
}

/// The command for models alone tells the one in use and those there are; with one word it fetches
/// them or chooses one; with more it tells how it is used.
pub proof fn law_the_command_for_models(state: AppModel, parts: Seq<Seq<char>>)
    ensures
        parts.len() == 1 && state.current_model is Some ==> state.on_model_command(parts).0.status
            == "Current model: "@ + state.current_model->0 + ". Available: "@ + join(
            ids_of(state.available_models),
            ", "@,
        ) && state.on_model_command(parts).1 == going_on(),
        parts.len() == 2 && parts[1] == "refresh"@ ==> state.on_model_command(parts)
            == state.refreshing(),
        parts.len() == 2 && parts[1] != "refresh"@ ==> state.on_model_command(parts)
            == state.choosing_model(parts[1]),
        parts.len() > 2 ==> state.on_model_command(parts) == (
            AppModel { status: "Usage: /model <name|refresh>"@, ..state },
            going_on(),
        ),
        ids_of(state.available_models).len() == state.available_models.len(),
        forall|i: int|
            0 <= i < state.available_models.len() ==> #[trigger] ids_of(state.available_models)[i]
                == state.available_models[i].id,
{
}

/// A file is one of the plans that are kept by the program if its name is a UUID between the mark
/// of plans and the ending, and only then.
pub proof fn law_plans_are_known_by_their_names(id: Seq<char>, name: Seq<char>)
    ensures
        managed_name("plan-"@ + (id + ".md"@)) == parses_as_uuid(id),
        !starts_with(name, "plan-"@) ==> !managed_name(name),
        managed_name(name) ==> exists|id: Seq<char>|
            parses_as_uuid(id) && name == "plan-"@ + (#[trigger] (id + ".md"@)),
{
    super::routines::law_beginnings_and_ends_are_taken_off(id + ".md"@, "plan-"@);
    super::routines::law_beginnings_and_ends_are_taken_off(id, ".md"@);
    super::routines::law_beginnings_and_ends_are_taken_off(name, "plan-"@);
    if managed_name(name) {
        let rest = strip_prefix(name, "plan-"@)->0;
        super::routines::law_beginnings_and_ends_are_taken_off(rest, ".md"@);
        let found = strip_suffix(rest, ".md"@)->0;
        assert(name == "plan-"@ + (found + ".md"@));
    }
}

/// The first title that is found is the title.
pub proof fn law_the_first_title_counts(a: Seq<char>, b: Option<Seq<char>>)
    ensures
        either_title(Some(a), b) == Some(a),
        either_title(None, b) == b,
{
}

/// A file of trusted folders in a form that is not known is named with its form.
pub proof fn law_unknown_forms_are_named(version: u32, path: Seq<char>)
    ensures
        unsupported(version, path) == "Unsupported workspace trust schema version "@ + decimal(
            version as nat,
        ) + " in "@ + path,
{
}

} // verus!
