//! The last lines of the screen: the status and the input line.
use super::input_view::{input_view_with_blocks, lemma_covering_blocks, plain_view, projected};
use super::selection::smaller;
use super::state::{AppModel, AppState};
use super::status::{
    call_shows, file_heading, file_options, file_preview_options_line, file_preview_title, permission_heading,
    permission_options, permission_options_line, permission_title, plan_heading, plan_options,
    plan_options_line, plan_title,
};
use super::style::{plain_line, span, text_line, Color, Line, Span, SpanModel, Style};
use super::transcript::status_style;
use super::usage::{append_usage_summary, with_usage};
use super::viewport::{saturated_u16, Rect, ViewportState};
use super::width::{cut_end, text_columns, text_width, truncate_display_width_end};
use crate::text::{concat3, decimal, decimal_of, has_prefix, same_text, starts_with};
use vstd::prelude::*;

verus! {

pub const INPUT_HELP_TEXT: &'static str = "Agent mode · Shift+Tab to switch · Enter to send · Ctrl+C to exit";

pub const PLAN_HELP_TEXT: &'static str = "Plan mode · Shift+Tab to switch · Enter to plan · Ctrl+C to exit";

impl AppModel {
    /// Whether the path of the tool call that is asked about, if it names one, may be shown like
    /// this.
    pub open spec fn request_shows(self, shown: Seq<char>) -> bool {
        self.pending_permission matches Some(permission) ==> call_shows(
            permission.tool_name,
            permission.input,
            shown,
        )
    }

    /// What the status line says, by the path of the tool call that is asked about as it is shown.
    pub open spec fn status_text(self, shown: Seq<char>) -> Seq<char> {
        if self.pending_sessions is Some {
            let picker = self.pending_sessions->0;
            "Sessions ("@ + decimal(picker.sessions.len()) + ", "@ + (if picker.show_all {
                "all workspaces"@
            } else {
                "this workspace"@
            }) + ") - Up/Down select, Enter resume, a toggle, Esc close"@
        } else if self.pending_plan is Some {
            plan_heading((self.pending_plan->0).plan)
        } else if self.pending_file_preview is Some {
            file_heading((self.pending_file_preview->0).preview.path)
        } else if self.pending_permission is Some {
            permission_heading(self.pending_permission->0, shown)
        } else if self.status == "Ready."@ || starts_with(self.status, "Ready. "@) {
            with_usage(
                if self.plan_mode_enabled {
                    PLAN_HELP_TEXT@
                } else {
                    INPUT_HELP_TEXT@
                },
                self.last_usage,
            )
        } else {
            self.status
        }
    }

    /// Whether nothing is to be seen of the input line.
    pub open spec fn hides_input(self) -> bool {
        self.pending_plan is None && self.pending_permission is None
            && self.pending_file_preview is None && self.working_since is Some
            && self.editor.text.len() == 0
    }
}

impl AppState {
    pub fn input_status_text(&self) -> (r: String)
        ensures
            exists|shown: Seq<char>|
                self@.request_shows(shown) && r@ == #[trigger] self@.status_text(shown),
    {
        let permission_text = match &self.pending_permission {
            Some(permission) => permission_title(permission),
            None => String::new(),
        };
        let ghost shown = match self@.pending_permission {
            Some(permission) => choose|shown: Seq<char>|
                call_shows(permission.tool_name, permission.input, shown) && permission_text@
                    == #[trigger] permission_heading(permission, shown),
            None => Seq::empty(),
        };
        let r = self.status_with(permission_text);
        assert(self@.request_shows(shown));
        assert(r@ == self@.status_text(shown));
        r
    }

    /// What the status line says, given what is said of a permission request.
    fn status_with(&self, permission_text: String) -> (r: String)
        ensures
            forall|shown: Seq<char>|
                (self@.pending_permission matches Some(permission) ==> permission_text@
                    == permission_heading(permission, shown)) ==> r@ == #[trigger] self@.status_text(
                    shown,
                ),
    {
        match &self.pending_sessions {
            Some(picker) => {
                let scope = if picker.show_all {
                    "all workspaces"
                } else {
                    "this workspace"
                };
                let count = decimal_of(picker.sessions.len() as u64);
                let head = concat3("Sessions (", count.as_str(), ", ");
                return concat3(
                    head.as_str(),
                    scope,
                    ") - Up/Down select, Enter resume, a toggle, Esc close",
                );
            },
            None => {},
        }
        match &self.pending_plan {
            Some(plan) => {
                return plan_title(plan);
            },
            None => {},
        }
        match &self.pending_file_preview {
            Some(preview) => {
                return file_preview_title(preview);
            },
            None => {},
        }
        match &self.pending_permission {
            Some(_) => {
                return permission_text;
            },
            None => {},
        }
        if same_text(self.status.as_str(), "Ready.") || has_prefix(self.status.as_str(), "Ready. ") {
            let help = if self.plan_mode_enabled {
                PLAN_HELP_TEXT
            } else {
                INPUT_HELP_TEXT
            };
            return append_usage_summary(help, self.last_usage.as_ref());
        }
        self.status.clone()
    }

    pub fn should_hide_empty_input_prompt(&self) -> (r: bool)
        ensures
            r == self@.hides_input(),
    {
        self.pending_plan.is_none() && self.pending_permission.is_none()
            && self.pending_file_preview.is_none() && self.working_since.is_some()
            && self.editor.input.as_str().is_empty()
    }
}

/// What the input line shows.
#[derive(Debug)]
pub enum InputModeSnapshot {
    HiddenWorking,
    Permission { options: String },
    FilePreview { options: String },
    PlanApproval { options: String },
    Editing { visible_input: String, cursor_col: u16 },
}

#[verifier::ext_equal]
pub enum ModeModel {
    HiddenWorking,
    Permission { options: Seq<char> },
    FilePreview { options: Seq<char> },
    PlanApproval { options: Seq<char> },
    Editing { visible_input: Seq<char>, cursor_col: u16 },
}

impl DeepView for InputModeSnapshot {
    type V = ModeModel;

    open spec fn deep_view(&self) -> ModeModel {
        match *self {
            InputModeSnapshot::HiddenWorking => ModeModel::HiddenWorking,
            InputModeSnapshot::Permission { options } => ModeModel::Permission {
                options: options@,
            },
            InputModeSnapshot::FilePreview { options } => ModeModel::FilePreview {
                options: options@,
            },
            InputModeSnapshot::PlanApproval { options } => ModeModel::PlanApproval {
                options: options@,
            },
            InputModeSnapshot::Editing { visible_input, cursor_col } => ModeModel::Editing {
                visible_input: visible_input@,
                cursor_col,
            },
        }
    }
}

/// What the footer shows in a number of columns.
#[derive(Debug)]
pub struct InputSnapshot {
    pub safe_width: u16,
    pub status_text: String,
    pub mode: InputModeSnapshot,
}

/// The columns that are written to: the last one is left free.
pub open spec fn safe_columns(width: u16) -> u16 {
    if width <= 1 {
        0
    } else {
        (width - 1) as u16
    }
}

impl AppModel {
    /// What the input line shows in `safe_width` columns.
    pub open spec fn input_mode(self, safe_width: u16) -> ModeModel {
        if self.hides_input() {
            ModeModel::HiddenWorking
        } else if self.pending_plan is Some {
            ModeModel::PlanApproval { options: plan_options((self.pending_plan->0).selected) }
        } else if self.pending_file_preview is Some {
            ModeModel::FilePreview { options: file_options((self.pending_file_preview->0).selected) }
        } else if self.pending_permission is Some {
            ModeModel::Permission {
                options: permission_options((self.pending_permission->0).selected),
            }
        } else {
            let (shown, cursor) = projected(
                self.editor.text,
                self.editor.blocks,
                self.editor.cursor as nat,
            );
            let (visible_input, cursor_col) = plain_view(
                shown,
                cursor,
                saturated_u16(safe_width - 2),
            );
            ModeModel::Editing { visible_input, cursor_col }
        }
    }
}

impl AppState {
    pub fn input_snapshot_for_width(&self, width: u16) -> (r: InputSnapshot)
        requires
            self@.editor.wf(),
        ensures
            r.safe_width == safe_columns(width),
            exists|shown: Seq<char>|
                self@.request_shows(shown) && r.status_text@ == #[trigger] self@.status_text(shown),
            r.mode.deep_view() == self@.input_mode(safe_columns(width)),
    {
        let safe_width: u16 = width.saturating_sub(1);
        let status_text = self.input_status_text();
        let mode = if self.should_hide_empty_input_prompt() {
            InputModeSnapshot::HiddenWorking
        } else {
            match (&self.pending_plan, &self.pending_file_preview, &self.pending_permission) {
                (Some(plan), _, _) => InputModeSnapshot::PlanApproval {
                    options: plan_options_line(plan),
                },
                (None, Some(preview), _) => InputModeSnapshot::FilePreview {
                    options: file_preview_options_line(preview),
                },
                (None, None, Some(permission)) => InputModeSnapshot::Permission {
                    options: permission_options_line(permission),
                },
                (None, None, None) => {
                    let capacity: u16 = safe_width.saturating_sub(2);
                    proof {
                        lemma_covering_blocks(
                            self.editor.input@,
                            self.editor.pasted_input_blocks@,
                        );
                    }
                    let (visible_input, cursor_col) = input_view_with_blocks(
                        self.editor.input.as_str(),
                        self.editor.pasted_input_blocks.as_slice(),
                        self.editor.cursor_pos,
                        capacity,
                    );
                    InputModeSnapshot::Editing { visible_input, cursor_col }
                },
            }
        };
        InputSnapshot { safe_width, status_text, mode }
    }
}

/// An area without its last column: a character there could make the terminal scroll.
pub open spec fn narrowed(area: Rect) -> Rect {
    Rect { width: saturated_u16(area.width - 1), ..area }
}

pub fn without_wrap_column(area: Rect) -> (r: Rect)
    ensures
        r == narrowed(area),
{
    Rect { width: area.width.saturating_sub(1), ..area }
}

/// The input line as it is drawn, and the column of the cursor in it.
#[derive(Debug)]
pub struct InputLine {
    pub line: Line,
    pub idle: bool,
    pub cursor: u16,
}

/// The input line and the column of the cursor, counted from the left end of the line.
pub open spec fn input_line(mode: ModeModel, safe_width: u16) -> (Seq<SpanModel>, bool, u16) {
    match mode {
        ModeModel::HiddenWorking => (seq![span("> "@, status_style())], true, 2),
        ModeModel::Editing { visible_input, cursor_col } => (
            seq![
                span("> "@, Style::colored(Color::Cyan)),
                span(visible_input, Style::normal()),
            ],
            false,
            saturated_u16(2 + cursor_col),
        ),
        ModeModel::Permission { options } => options_input(options, safe_width),
        ModeModel::FilePreview { options } => options_input(options, safe_width),
        ModeModel::PlanApproval { options } => options_input(options, safe_width),
    }
}

pub open spec fn options_input(options: Seq<char>, safe_width: u16) -> (Seq<SpanModel>, bool, u16) {
    let shown = cut_end(options, safe_width as usize);
    (text_line(shown), false, smaller(text_columns(shown), safe_width as usize) as u16)
}

fn offer_options(options: &str, safe_width: u16) -> (r: InputLine)
    ensures
        (r.line.deep_view(), r.idle, r.cursor) == options_input(options@, safe_width),
{
    let shown = truncate_display_width_end(options, safe_width as usize);
    let columns: usize = text_width(shown.as_str());
    let cursor: u16 = if columns < safe_width as usize {
        columns as u16
    } else {
        safe_width
    };
    InputLine { line: plain_line(shown.as_str()), idle: false, cursor }
}

fn draw_input(mode: &InputModeSnapshot, safe_width: u16) -> (r: InputLine)
    ensures
        (r.line.deep_view(), r.idle, r.cursor) == input_line(mode.deep_view(), safe_width),
{
    match mode {
        InputModeSnapshot::HiddenWorking => {
            let line = Line::of(Span::styled("> ", Style::of(Color::DarkGray)));
            assert(line.deep_view() =~= seq![span("> "@, status_style())]);
            InputLine { line, idle: true, cursor: 2 }
        },
        InputModeSnapshot::Editing { visible_input, cursor_col } => {
            let mut line = Line::of(Span::styled("> ", Style::of(Color::Cyan)));
            line.push(Span::raw(visible_input.as_str()));
            assert(line.deep_view() =~= seq![
                span("> "@, Style::colored(Color::Cyan)),
                span(visible_input@, Style::normal()),
            ]);
            let two: u16 = 2;
            InputLine { line, idle: false, cursor: two.saturating_add(*cursor_col) }
        },
        InputModeSnapshot::Permission { options } => offer_options(options.as_str(), safe_width),
        InputModeSnapshot::FilePreview { options } => offer_options(options.as_str(), safe_width),
        InputModeSnapshot::PlanApproval { options } => offer_options(options.as_str(), safe_width),
    }
}

/// The footer as it is drawn: two areas, the status where there is room for it, and the input
/// line where there is room for that.
#[derive(Debug)]
pub struct FooterView {
    pub status_area: Rect,
    pub input_area: Rect,
    pub status: Option<Line>,
    pub input: Option<InputLine>,
}

/// The place of the cursor on the screen.
pub open spec fn cursor_place(area: Rect, column: u16) -> (u16, u16) {
    (saturated_u16(area.x + column), area.y)
}

impl FooterView {
    /// Whether this is the footer of a state in an area.
    pub open spec fn shows(self, state: AppModel, area: Rect) -> bool {
        let inner = narrowed(area);
        let safe_width = safe_columns(saturated_u16(inner.width + 1));
        &&& self.status_area == (Rect { height: 1, ..inner })
        &&& self.input_area == (Rect {
            y: saturated_u16(inner.y + 1),
            height: saturated_u16(inner.height - 1),
            ..inner
        })
        &&& match self.status {
            Some(line) => area.height >= 1 && exists|shown: Seq<char>|
                state.request_shows(shown) && line.deep_view() == seq![
                    span(
                        cut_end(#[trigger] state.status_text(shown), safe_width as usize),
                        status_style(),
                    ),
                ],
            None => area.height == 0,
        }
        &&& match self.input {
            Some(input) => area.height >= 2 && (input.line.deep_view(), input.idle, input.cursor)
                == input_line(state.input_mode(safe_width), safe_width),
            None => area.height < 2,
        }
    }

    /// Where the cursor is put.
    pub fn cursor_position(&self) -> (r: Option<(u16, u16)>)
        ensures
            r == (match self.input {
                Some(input) => Some(cursor_place(self.input_area, input.cursor)),
                None => None,
            }),
    {
        match &self.input {
            Some(input) => Some(
                (self.input_area.x.saturating_add(input.cursor), self.input_area.y),
            ),
            None => None,
        }
    }
}

impl AppState {
    /// Lays the footer out in an area.
    pub fn render_footer(&self, area: Rect) -> (r: FooterView)
        requires
            self@.editor.wf(),
        ensures
            r.shows(self@, area),
    {
        let inner = without_wrap_column(area);
        let snapshot = self.input_snapshot_for_width(inner.width.saturating_add(1));
        let status_area = Rect { x: inner.x, y: inner.y, width: inner.width, height: 1 };
        let input_area = Rect {
            x: inner.x,
            y: inner.y.saturating_add(1),
            width: inner.width,
            height: inner.height.saturating_sub(1),
        };
        let status = if inner.height >= 1 {
            let text = truncate_display_width_end(
                snapshot.status_text.as_str(),
                snapshot.safe_width as usize,
            );
            let line = Line::of(Span { content: text, style: Style::of(Color::DarkGray) });
            assert(line.deep_view() =~= seq![span(text@, status_style())]);
            Some(line)
        } else {
            None
        };
        let input = if input_area.height == 0 {
            None
        } else {
            Some(draw_input(&snapshot.mode, snapshot.safe_width))
        };
        FooterView { status_area, input_area, status, input }
    }
}

/// The footer is the same wherever the transcript is scrolled to.
pub proof fn lemma_footer_without_viewport(
    view: FooterView,
    state: AppModel,
    viewport: ViewportState,
    area: Rect,
)
    requires
        view.shows(AppModel { viewport, ..state }, area),
    ensures
        view.shows(state, area),
{
    let moved = AppModel { viewport, ..state };
    assert forall|shown: Seq<char>| moved.request_shows(shown) implies state.request_shows(shown)
        && #[trigger] moved.status_text(shown) == state.status_text(shown) by {
    }
}

/// How the screen is divided: the transcript, and the footer of at most two lines below it.
pub fn divide_screen(area: Rect) -> (r: (Rect, Rect))
    requires
        area.y + area.height <= u16::MAX,
    ensures
        ({
            let footer_height = if area.height < 2 {
                area.height as int
            } else {
                2
            };
            &&& r.0 == (Rect { height: (area.height - footer_height) as u16, ..area })
            &&& r.1 == (Rect {
                y: (area.y + area.height - footer_height) as u16,
                height: footer_height as u16,
                ..area
            })
        }),
{
    let footer_height: u16 = if area.height < 2 {
        area.height
    } else {
        2
    };
    let rest: u16 = area.height - footer_height;
    (
        Rect { x: area.x, y: area.y, width: area.width, height: rest },
        Rect { x: area.x, y: area.y + rest, width: area.width, height: footer_height },
    )
}

/// A prompt is never hidden, and neither is a line that has been begun.
pub proof fn law_prompts_are_never_hidden(state: AppModel, safe_width: u16)
    requires
        state.pending_plan is Some || state.pending_permission is Some
            || state.pending_file_preview is Some || state.editor.text.len() > 0,
    ensures
        state.input_mode(safe_width) !is HiddenWorking,
{
}

} // verus!
