//! What tools, prompts and subagents are doing, in a few words.
use super::choice::{FilePreviewChoice, PermissionChoice, PlanChoice};
use crate::json::{json_model, json_str, json_text, render_json, text_member};
use crate::event::EventModel;
use crate::paths::is_plain;
use crate::session::{is_blank, one_line, single_line};
use crate::text::{
    concat2, concat3, contains, contains_text, join, joined, owned, same_text, strip_prefix,
    trimmed, without_prefix,
};
use crate::types::{EvaluationModel, FileChangePreview, PermissionEvaluation, PreviewModel};
use crate::words::{lines, replace, replaced, shorten, shortened, split_lines};
use serde_json::Value;
use vstd::prelude::*;

verus! {

/// A pending permission request from the agent.
#[derive(Debug)]
pub struct PendingPermission {
    pub request_id: String,
    pub tool_name: String,
    pub input: Value,
    pub evaluation: Option<PermissionEvaluation>,
    pub selected: PermissionChoice,
}

#[verifier::ext_equal]
pub struct PermissionModel {
    pub request_id: Seq<char>,
    pub tool_name: Seq<char>,
    pub input: Value,
    pub evaluation: Option<EvaluationModel>,
    pub selected: PermissionChoice,
}

impl DeepView for PendingPermission {
    type V = PermissionModel;

    open spec fn deep_view(&self) -> PermissionModel {
        PermissionModel {
            request_id: self.request_id@,
            tool_name: self.tool_name@,
            input: self.input,
            evaluation: self.evaluation.deep_view(),
            selected: self.selected,
        }
    }
}

/// A file change that waits for its review.
#[derive(Debug)]
pub struct PendingFilePreview {
    pub request_id: String,
    pub preview: FileChangePreview,
    pub selected: FilePreviewChoice,
}

#[verifier::ext_equal]
pub struct FilePreviewModel {
    pub request_id: Seq<char>,
    pub preview: PreviewModel,
    pub selected: FilePreviewChoice,
}

impl DeepView for PendingFilePreview {
    type V = FilePreviewModel;

    open spec fn deep_view(&self) -> FilePreviewModel {
        FilePreviewModel {
            request_id: self.request_id@,
            preview: self.preview.deep_view(),
            selected: self.selected,
        }
    }
}

/// A plan that waits for its review.
#[derive(Debug)]
pub struct PendingPlanApproval {
    pub request_id: String,
    pub plan: String,
    pub selected: PlanChoice,
}

#[verifier::ext_equal]
pub struct PlanApprovalModel {
    pub request_id: Seq<char>,
    pub plan: Seq<char>,
    pub selected: PlanChoice,
}

impl DeepView for PendingPlanApproval {
    type V = PlanApprovalModel;

    open spec fn deep_view(&self) -> PlanApprovalModel {
        PlanApprovalModel {
            request_id: self.request_id@,
            plan: self.plan@,
            selected: self.selected,
        }
    }
}

pub fn truncate_chars(value: &str, max_len: usize) -> (r: String)
    ensures
        r@ == shortened(value@, max_len as nat),
{
    shorten(value, max_len)
}

pub fn truncate_single_line(value: &str, max_len: usize) -> (r: String)
    ensures
        r@ == shortened(one_line(value@), max_len as nat),
{
    shorten(single_line(value).as_str(), max_len)
}

/// The first lines of a text, shortened.
pub open spec fn first_lines(s: Seq<char>, max_lines: nat, max_len: nat) -> Seq<char> {
    let all = lines(s);
    shortened(
        join(
            if max_lines < all.len() {
                all.take(max_lines as int)
            } else {
                all
            },
            "\n"@,
        ),
        max_len,
    )
}

pub fn preview_lines(value: &str, max_lines: usize, max_len: usize) -> (r: String)
    ensures
        r@ == first_lines(value@, max_lines as nat, max_len as nat),
{
    let mut all = split_lines(value);
    if max_lines < all.len() {
        let ghost before = all.deep_view();
        all.truncate(max_lines);
        assert(all.deep_view() =~= before.take(max_lines as int));
    }
    shorten(joined(&all, "\n").as_str(), max_len)
}

pub fn preview_json(input: &Value, max_len: usize) -> (r: String)
    ensures
        r@ == shortened(json_text(*input), max_len as nat),
{
    shorten(render_json(input).as_str(), max_len)
}

/// Whether a segment of a path names something.
pub open spec fn names_something(segment: Seq<char>) -> bool {
    segment.len() > 0 && segment != "."@
}

/// The last segment of a path that names something, and the segment that is open.
pub open spec fn path_so_far(path: Seq<char>) -> (Option<Seq<char>>, Seq<char>)
    decreases path.len(),
{
    if path.len() == 0 {
        (None, Seq::empty())
    } else {
        let (last, open) = path_so_far(path.drop_last());
        if path.last() != '/' {
            (last, open.push(path.last()))
        } else if names_something(open) {
            (Some(open), Seq::empty())
        } else {
            (last, Seq::empty())
        }
    }
}

/// The final component of a path in which `/` alone separates the segments; a path that ends in
/// `..` has none.
pub open spec fn file_name(path: Seq<char>) -> Option<Seq<char>> {
    let (last, open) = path_so_far(path);
    let found = if names_something(open) {
        Some(open)
    } else {
        last
    };
    if found == Some(".."@) {
        None
    } else {
        found
    }
}

/// A path as it is shown, given its final component.
pub open spec fn name_or_path(path: Seq<char>, name: Option<Seq<char>>) -> Seq<char> {
    match name {
        Some(name) => name,
        None => path,
    }
}

/// Whether a path may have this final component on some machine. Where the path is plain, every
/// machine finds the same; elsewhere what it finds stands in the path.
pub open spec fn may_be_named(path: Seq<char>, name: Option<Seq<char>>) -> bool {
    if is_plain(path) {
        name == file_name(path)
    } else {
        name matches Some(name) ==> name.len() > 0 && contains(path, name)
    }
}

/// Whether a path may be shown like this on some machine.
pub open spec fn may_show(path: Seq<char>, shown: Seq<char>) -> bool {
    exists|name: Option<Seq<char>>|
        #[trigger] may_be_named(path, name) && shown == name_or_path(path, name)
}

/// `std::path::Path::file_name` gives the final component of a path. What separates components
/// depends on the machine; of a path that all machines read alike the component is stated, of any
/// other only that it stands in the path.
#[verifier::external_body]
fn file_name_of(path: &str) -> (r: Option<String>)
    ensures
        is_plain(path@) ==> r.deep_view() == file_name(path@),
        r matches Some(name) ==> name@.len() > 0 && contains(path@, name@),
{
    std::path::Path::new(path).file_name().and_then(|name| name.to_str()).map(|name| name.to_string())
}

/// A path as it is shown, given its final component.
pub fn display_name(path: &str, name: Option<String>) -> (r: String)
    ensures
        r@ == name_or_path(path@, name.deep_view()),
{
    match name {
        Some(name) => name,
        None => owned(path),
    }
}

/// A path as it is shown: its final component, where it has one.
pub fn display_path(path: &str) -> (r: String)
    ensures
        may_show(path@, r@),
{
    let name = file_name_of(path);
    assert(may_be_named(path@, name.deep_view()));
    display_name(path, name)
}

/// A plain path is shown as its final component on every machine, and as it is where it has none.
pub proof fn law_plain_paths_are_shown_alike(path: Seq<char>, shown: Seq<char>)
    requires
        is_plain(path),
    ensures
        may_show(path, shown) <==> shown == name_or_path(path, file_name(path)),
{
    assert(may_be_named(path, file_name(path)));
}

/// The name of a tool in words.
pub open spec fn tool_words(name: Seq<char>) -> Seq<char> {
    if name == "read_file"@ {
        "read file"@
    } else if name == "grep"@ {
        "search"@
    } else if name == "glob"@ {
        "file listing"@
    } else if name == "git_status"@ {
        "git status"@
    } else if name == "git_diff"@ {
        "git diff"@
    } else if name == "git_log"@ {
        "git log"@
    } else if name == "shell"@ {
        "command"@
    } else if name == "write_file"@ {
        "file write"@
    } else if name == "edit_file"@ {
        "file edit"@
    } else if name == "git_add"@ {
        "git stage"@
    } else if name == "git_commit"@ {
        "git commit"@
    } else if name == "git_checkout"@ {
        "git checkout"@
    } else if name == "git_branch"@ {
        "git branch"@
    } else if name == "web_fetch"@ {
        "web fetch"@
    } else if name == "web_search"@ {
        "web search"@
    } else if name == "agent"@ {
        "subagent"@
    } else {
        replace(name, "_"@, " "@)
    }
}

pub fn human_tool_name(name: &str) -> (r: String)
    ensures
        r@ == tool_words(name@),
{
    if same_text(name, "read_file") {
        owned("read file")
    } else if same_text(name, "grep") {
        owned("search")
    } else if same_text(name, "glob") {
        owned("file listing")
    } else if same_text(name, "git_status") {
        owned("git status")
    } else if same_text(name, "git_diff") {
        owned("git diff")
    } else if same_text(name, "git_log") {
        owned("git log")
    } else if same_text(name, "shell") {
        owned("command")
    } else if same_text(name, "write_file") {
        owned("file write")
    } else if same_text(name, "edit_file") {
        owned("file edit")
    } else if same_text(name, "git_add") {
        owned("git stage")
    } else if same_text(name, "git_commit") {
        owned("git commit")
    } else if same_text(name, "git_checkout") {
        owned("git checkout")
    } else if same_text(name, "git_branch") {
        owned("git branch")
    } else if same_text(name, "web_fetch") {
        owned("web fetch")
    } else if same_text(name, "web_search") {
        owned("web search")
    } else if same_text(name, "agent") {
        owned("subagent")
    } else {
        proof {
            reveal_strlit("_");
        }
        replaced(name, "_", " ")
    }
}

/// The message of a tool error without the words that every such error starts with.
pub open spec fn bare_error(name: Seq<char>, error: Seq<char>) -> Seq<char> {
    match strip_prefix(error, "Tool execution error: "@ + name + " -- "@) {
        Some(rest) => rest,
        None => match strip_prefix(error, "Tool execution error: "@) {
            Some(rest) => rest,
            None => error,
        },
    }
}

pub fn clean_tool_error(name: &str, error: &str) -> (r: String)
    ensures
        r@ == bare_error(name@, error@),
{
    let own = concat3("Tool execution error: ", name, " -- ");
    match without_prefix(error, own.as_str()) {
        Some(rest) => rest,
        None => match without_prefix(error, "Tool execution error: ") {
            Some(rest) => rest,
            None => owned(error),
        },
    }
}

/// Whether an error is about the arguments of a call.
pub open spec fn about_arguments(error: Seq<char>) -> bool {
    contains(error, "Missing '"@) || contains(error, "Missing or invalid '"@) || contains(
        error,
        "must be a"@,
    ) || contains(error, "Tool input rejected before execution"@)
}

pub fn is_argument_error(error: &str) -> (r: bool)
    ensures
        r == about_arguments(error@),
{
    contains_text(error, "Missing '") || contains_text(error, "Missing or invalid '")
        || contains_text(error, "must be a") || contains_text(
        error,
        "Tool input rejected before execution",
    )
}

/// What is said of a tool call that failed.
pub open spec fn issue(name: Seq<char>, error: Seq<char>) -> Seq<char> {
    if about_arguments(error) {
        "Adjusting "@ + tool_words(name) + " arguments..."@
    } else {
        shortened("Could not use "@ + tool_words(name) + ": "@ + bare_error(name, error), 180)
    }
}

pub fn tool_issue_status(name: &str, error: &str) -> (r: String)
    ensures
        r@ == issue(name@, error@),
{
    if is_argument_error(error) {
        return concat3("Adjusting ", human_tool_name(name).as_str(), " arguments...");
    }
    let head = concat3("Could not use ", human_tool_name(name).as_str(), ": ");
    let text = concat2(head.as_str(), clean_tool_error(name, error).as_str());
    shorten(text.as_str(), 180)
}

/// A member of a tool's input behind a word, or a fallback where the input has none.
pub open spec fn named_or(
    input: Value,
    key: Seq<char>,
    word: Seq<char>,
    fallback: Seq<char>,
) -> Seq<char> {
    match text_member(json_model(input), key) {
        Some(text) => word + text,
        None => fallback,
    }
}

fn name_or(input: &Value, key: &str, word: &str, fallback: &str) -> (r: String)
    ensures
        r@ == named_or(*input, key@, word@, fallback@),
{
    match json_str(input, key) {
        Some(text) => concat2(word, text),
        None => owned(fallback),
    }
}

/// The path that a tool's input names, as it is shown, behind a word, or a fallback where the input
/// names none.
pub open spec fn path_or(
    input: Value,
    word: Seq<char>,
    fallback: Seq<char>,
    shown: Seq<char>,
) -> Seq<char> {
    match text_member(json_model(input), "path"@) {
        Some(_) => word + shown,
        None => fallback,
    }
}

fn shown_or(input: &Value, word: &str, fallback: &str, shown: &str) -> (r: String)
    ensures
        r@ == path_or(*input, word@, fallback@, shown@),
{
    match json_str(input, "path") {
        Some(_) => concat2(word, shown),
        None => owned(fallback),
    }
}

/// A member of a tool's input on one line, or a fallback.
pub open spec fn line_or(input: Value, key: Seq<char>, fallback: Seq<char>) -> Seq<char> {
    match text_member(json_model(input), key) {
        Some(text) => shortened(one_line(text), 96),
        None => shortened(one_line(fallback), 96),
    }
}

fn member_line(input: &Value, key: &str, fallback: &str) -> (r: String)
    ensures
        r@ == line_or(*input, key@, fallback@),
{
    match json_str(input, key) {
        Some(text) => truncate_single_line(text, 96),
        None => truncate_single_line(fallback, 96),
    }
}

/// Where a search looks, if its input names a place.
pub open spec fn search_place(input: Value) -> Option<Seq<char>> {
    let json = json_model(input);
    match text_member(json, "path"@) {
        Some(path) => Some(path),
        None => text_member(json, "directory"@),
    }
}

fn place_of_search<'a>(input: &'a Value) -> (r: Option<&'a str>)
    ensures
        match r {
            Some(path) => search_place(*input) == Some(path@),
            None => search_place(*input) is None,
        },
{
    match json_str(input, "path") {
        Some(path) => Some(path),
        None => json_str(input, "directory"),
    }
}

/// What a search looks for, and where, by the place as it is shown.
pub open spec fn search_detail(input: Value, shown: Seq<char>) -> Seq<char> {
    let place = match search_place(input) {
        Some(_) => shown,
        None => Seq::empty(),
    };
    match text_member(json_model(input), "pattern"@) {
        Some(pattern) => if place.len() > 0 {
            "Search "@ + pattern + " in "@ + place
        } else {
            "Search "@ + pattern
        },
        None => if place.len() > 0 {
            "Search in "@ + place
        } else {
            "Search files"@
        },
    }
}

fn search_text(input: &Value, shown: &str) -> (r: String)
    ensures
        r@ == search_detail(*input, shown@),
{
    let place = match place_of_search(input) {
        Some(_) => owned(shown),
        None => String::new(),
    };
    assert(search_place(*input) is None ==> place@ =~= Seq::empty());
    match json_str(input, "pattern") {
        Some(pattern) => if !place.as_str().is_empty() {
            let head = concat3("Search ", pattern, " in ");
            concat2(head.as_str(), place.as_str())
        } else {
            concat2("Search ", pattern)
        },
        None => if !place.as_str().is_empty() {
            concat2("Search in ", place.as_str())
        } else {
            owned("Search files")
        },
    }
}

/// The path that is shown of a tool call, if it names one.
pub open spec fn call_path(name: Seq<char>, input: Value) -> Option<Seq<char>> {
    if name == "read_file"@ || name == "write_file"@ || name == "edit_file"@ {
        text_member(json_model(input), "path"@)
    } else if name == "grep"@ {
        search_place(input)
    } else {
        None
    }
}

fn path_of_call<'a>(name: &str, input: &'a Value) -> (r: Option<&'a str>)
    ensures
        match r {
            Some(path) => call_path(name@, *input) == Some(path@),
            None => call_path(name@, *input) is None,
        },
{
    if same_text(name, "read_file") || same_text(name, "write_file") || same_text(
        name,
        "edit_file",
    ) {
        json_str(input, "path")
    } else if same_text(name, "grep") {
        place_of_search(input)
    } else {
        None
    }
}

/// Whether the path of a tool call, if it names one, may be shown like this.
pub open spec fn call_shows(name: Seq<char>, input: Value, shown: Seq<char>) -> bool {
    call_path(name, input) matches Some(path) ==> may_show(path, shown)
}

/// The path of a tool call can be shown in some way.
pub proof fn lemma_can_be_shown(name: Seq<char>, input: Value) -> (shown: Seq<char>)
    ensures
        call_shows(name, input, shown),
{
    match call_path(name, input) {
        Some(path) => {
            let found = if is_plain(path) {
                file_name(path)
            } else {
                None
            };
            assert(may_be_named(path, found));
            name_or_path(path, found)
        },
        None => Seq::empty(),
    }
}

/// Whether the path of the tool call that an event starts, if it names one, may be shown like this.
pub open spec fn start_shows(event: EventModel, shown: Seq<char>) -> bool {
    match event {
        EventModel::ToolCallStarted { name, input, .. } => call_shows(name, input, shown),
        _ => true,
    }
}

/// Whether the path of the tool call that an event tells of, of the agent's own or of a
/// subagent's, may be shown like this.
pub open spec fn event_shows(event: EventModel, shown: Seq<char>) -> bool {
    match event {
        EventModel::SubagentEvent { event, .. } => start_shows(*event, shown),
        _ => start_shows(event, shown),
    }
}

/// The group that a tool call belongs to, and what it does, by its path as it is shown.
pub open spec fn activity(name: Seq<char>, input: Value, shown: Seq<char>) -> (
    Seq<char>,
    Seq<char>,
) {
    if name == "read_file"@ {
        ("Explored"@, path_or(input, "Read "@, "Read file"@, shown))
    } else if name == "grep"@ {
        ("Explored"@, search_detail(input, shown))
    } else if name == "glob"@ {
        ("Explored"@, named_or(input, "pattern"@, "List "@, "List files"@))
    } else if name == "git_status"@ {
        ("Explored"@, "Check git status"@)
    } else if name == "git_diff"@ {
        ("Explored"@, "Inspect git diff"@)
    } else if name == "git_log"@ {
        ("Explored"@, "Inspect git log"@)
    } else if name == "shell"@ {
        ("Ran"@, match text_member(json_model(input), "command"@) {
            Some(command) => shortened(one_line(command), 96),
            None => "Run command"@,
        })
    } else if name == "write_file"@ {
        ("Edited"@, path_or(input, "Write "@, "Write file"@, shown))
    } else if name == "edit_file"@ {
        ("Edited"@, path_or(input, "Edit "@, "Edit file"@, shown))
    } else if name == "git_add"@ {
        ("Edited"@, "Stage files"@)
    } else if name == "git_commit"@ {
        ("Edited"@, "Commit changes"@)
    } else if name == "git_checkout"@ {
        ("Edited"@, named_or(input, "branch"@, "Checkout "@, "Checkout branch"@))
    } else if name == "git_branch"@ {
        ("Edited"@, named_or(input, "branch"@, "Update branch "@, "Update branch "@))
    } else if name == "web_fetch"@ {
        ("Browsed"@, line_or(input, "url"@, "Fetch URL"@))
    } else if name == "web_search"@ {
        ("Browsed"@, line_or(input, "query"@, "Search web"@))
    } else if name == "agent"@ {
        ("Delegated"@, line_or(input, "task"@, "Run subagent"@))
    } else {
        ("Used Tool"@, name + " "@ + shortened(json_text(input), 96))
    }
}

/// The group that a tool call belongs to, and what it does.
pub fn tool_activity(name: &str, input: &Value) -> (r: (&'static str, String))
    ensures
        exists|shown: Seq<char>|
            call_shows(name@, *input, shown) && (r.0@, r.1@) == #[trigger] activity(
                name@,
                *input,
                shown,
            ),
{
    let shown = match path_of_call(name, input) {
        Some(path) => display_path(path),
        None => String::new(),
    };
    assert(call_shows(name@, *input, shown@));
    tool_activity_showing(name, input, shown.as_str())
}

/// The group that a tool call belongs to, and what it does, by its path as it is shown.
pub fn tool_activity_showing(name: &str, input: &Value, shown: &str) -> (r: (
    &'static str,
    String,
))
    ensures
        (r.0@, r.1@) == activity(name@, *input, shown@),
{
    if same_text(name, "read_file") {
        ("Explored", shown_or(input, "Read ", "Read file", shown))
    } else if same_text(name, "grep") {
        ("Explored", search_text(input, shown))
    } else if same_text(name, "glob") {
        ("Explored", name_or(input, "pattern", "List ", "List files"))
    } else if same_text(name, "git_status") {
        ("Explored", owned("Check git status"))
    } else if same_text(name, "git_diff") {
        ("Explored", owned("Inspect git diff"))
    } else if same_text(name, "git_log") {
        ("Explored", owned("Inspect git log"))
    } else if same_text(name, "shell") {
        let detail = match json_str(input, "command") {
            Some(command) => truncate_single_line(command, 96),
            None => owned("Run command"),
        };
        ("Ran", detail)
    } else if same_text(name, "write_file") {
        ("Edited", shown_or(input, "Write ", "Write file", shown))
    } else if same_text(name, "edit_file") {
        ("Edited", shown_or(input, "Edit ", "Edit file", shown))
    } else if same_text(name, "git_add") {
        ("Edited", owned("Stage files"))
    } else if same_text(name, "git_commit") {
        ("Edited", owned("Commit changes"))
    } else if same_text(name, "git_checkout") {
        ("Edited", name_or(input, "branch", "Checkout ", "Checkout branch"))
    } else if same_text(name, "git_branch") {
        ("Edited", name_or(input, "branch", "Update branch ", "Update branch "))
    } else if same_text(name, "web_fetch") {
        ("Browsed", member_line(input, "url", "Fetch URL"))
    } else if same_text(name, "web_search") {
        ("Browsed", member_line(input, "query", "Search web"))
    } else if same_text(name, "agent") {
        ("Delegated", member_line(input, "task", "Run subagent"))
    } else {
        ("Used Tool", concat3(name, " ", preview_json(input, 96).as_str()))
    }
}

pub open spec fn activity_text(name: Seq<char>, input: Value, shown: Seq<char>) -> Seq<char> {
    activity(name, input, shown).0 + ": "@ + activity(name, input, shown).1
}

pub fn tool_status(name: &str, input: &Value) -> (r: String)
    ensures
        exists|shown: Seq<char>|
            call_shows(name@, *input, shown) && r@ == #[trigger] activity_text(
                name@,
                *input,
                shown,
            ),
{
    let (group, detail) = tool_activity(name, input);
    let r = concat3(group, ": ", detail.as_str());
    proof {
        let shown = choose|shown: Seq<char>|
            call_shows(name@, *input, shown) && (group@, detail@) == #[trigger] activity(
                name@,
                *input,
                shown,
            );
        assert(r@ == activity_text(name@, *input, shown));
    }
    r
}

/// The first line that is not blank.
pub open spec fn first_filled(all: Seq<Seq<char>>) -> Option<Seq<char>>
    decreases all.len(),
{
    if all.len() == 0 {
        None
    } else if !is_blank(all[0]) {
        Some(all[0])
    } else {
        first_filled(all.drop_first())
    }
}

pub open spec fn plan_heading(plan: Seq<char>) -> Seq<char> {
    "Review plan: "@ + shortened(
        match first_filled(lines(plan)) {
            Some(line) => line,
            None => "Plan ready"@,
        },
        104,
    )
}

pub fn plan_title(plan: &PendingPlanApproval) -> (r: String)
    ensures
        r@ == plan_heading(plan.deep_view().plan),
{
    let all = split_lines(plan.plan.as_str());
    let ghost views = all.deep_view();
    let mut i: usize = 0;
    assert(views.skip(0) =~= views);
    while i < all.len()
        invariant
            views == all.deep_view(),
            views == lines(plan.plan@),
            i <= all.len(),
            first_filled(views) == first_filled(views.skip(i as int)),
        decreases all.len() - i,
    {
        assert(views.skip(i as int)[0] == all@[i as int]@);
        assert(views.skip(i as int).drop_first() =~= views.skip(i + 1));
        if !trimmed(all[i].as_str()).as_str().is_empty() {
            return concat2("Review plan: ", shorten(all[i].as_str(), 104).as_str());
        }
        i += 1;
    }
    concat2("Review plan: ", shorten("Plan ready", 104).as_str())
}

/// A choice as it is offered, in brackets where it is selected.
pub open spec fn offered(label: Seq<char>, selected: bool) -> Seq<char> {
    if selected {
        "["@ + label + "]"@
    } else {
        " "@ + label + " "@
    }
}

fn offer(label: &str, selected: bool) -> (r: String)
    ensures
        r@ == offered(label@, selected),
{
    if selected {
        concat3("[", label, "]")
    } else {
        concat3(" ", label, " ")
    }
}

pub open spec fn options_line(options: Seq<Seq<char>>) -> Seq<char> {
    "←/→ "@ + join(options, "  "@) + "  Enter"@
}

fn render_options(options: &Vec<String>) -> (r: String)
    ensures
        r@ == options_line(options.deep_view()),
{
    concat3("←/→ ", joined(options, "  ").as_str(), "  Enter")
}

pub open spec fn plan_options(selected: PlanChoice) -> Seq<char> {
    options_line(
        seq![
            offered("Approve"@, selected is Approve),
            offered("Revise"@, selected is Revise),
            offered("Reject"@, selected is Reject),
            offered("Quit"@, selected is Quit),
        ],
    )
}

pub fn plan_options_line(plan: &PendingPlanApproval) -> (r: String)
    ensures
        r@ == plan_options(plan.selected),
{
    let mut options: Vec<String> = Vec::new();
    options.push(offer("Approve", plan.selected == PlanChoice::Approve));
    options.push(offer("Revise", plan.selected == PlanChoice::Revise));
    options.push(offer("Reject", plan.selected == PlanChoice::Reject));
    options.push(offer("Quit", plan.selected == PlanChoice::Quit));
    assert(options.deep_view() =~= seq![
        offered("Approve"@, plan.selected is Approve),
        offered("Revise"@, plan.selected is Revise),
        offered("Reject"@, plan.selected is Reject),
        offered("Quit"@, plan.selected is Quit),
    ]);
    render_options(&options)
}

pub open spec fn file_heading(path: Seq<char>) -> Seq<char> {
    "Review changes: "@ + shortened(path, 120)
}

pub fn file_preview_title(preview: &PendingFilePreview) -> (r: String)
    ensures
        r@ == file_heading(preview.deep_view().preview.path),
{
    concat2("Review changes: ", shorten(preview.preview.path.as_str(), 120).as_str())
}

pub open spec fn file_options(selected: FilePreviewChoice) -> Seq<char> {
    options_line(
        seq![
            offered("Apply"@, selected is Apply),
            offered("Reject"@, selected is Reject),
            offered("Quit"@, selected is Quit),
        ],
    )
}

pub fn file_preview_options_line(preview: &PendingFilePreview) -> (r: String)
    ensures
        r@ == file_options(preview.selected),
{
    let mut options: Vec<String> = Vec::new();
    options.push(offer("Apply", preview.selected == FilePreviewChoice::Apply));
    options.push(offer("Reject", preview.selected == FilePreviewChoice::Reject));
    options.push(offer("Quit", preview.selected == FilePreviewChoice::Quit));
    assert(options.deep_view() =~= seq![
        offered("Apply"@, preview.selected is Apply),
        offered("Reject"@, preview.selected is Reject),
        offered("Quit"@, preview.selected is Quit),
    ]);
    render_options(&options)
}

/// The heading of a permission request: the tool, the risk, and what is to be done, by the path as
/// it is shown.
pub open spec fn permission_heading(permission: PermissionModel, shown: Seq<char>) -> Seq<char> {
    let detail = shortened(activity(permission.tool_name, permission.input, shown).1, 72);
    let risk = match permission.evaluation {
        Some(evaluation) => evaluation.risk + " / "@ + evaluation.sandbox_policy,
        None => "approval"@,
    };
    let head = "Permission required: "@ + tool_words(permission.tool_name) + " ("@ + risk;
    if detail.len() == 0 {
        head + ")"@
    } else {
        head + ") - "@ + detail
    }
}

pub fn permission_title(permission: &PendingPermission) -> (r: String)
    ensures
        exists|shown: Seq<char>|
            call_shows(permission.deep_view().tool_name, permission.input, shown) && r@
                == #[trigger] permission_heading(permission.deep_view(), shown),
{
    let tool = human_tool_name(permission.tool_name.as_str());
    let (group, detail) = tool_activity(permission.tool_name.as_str(), &permission.input);
    let ghost shown = choose|shown: Seq<char>|
        call_shows(permission.tool_name@, permission.input, shown) && (group@, detail@)
            == #[trigger] activity(permission.tool_name@, permission.input, shown);
    let detail = shorten(detail.as_str(), 72);
    let risk = match &permission.evaluation {
        Some(evaluation) => concat3(
            evaluation.risk.as_str(),
            " / ",
            evaluation.sandbox_policy.as_str(),
        ),
        None => owned("approval"),
    };
    let head = concat3("Permission required: ", tool.as_str(), " (");
    let head = concat2(head.as_str(), risk.as_str());
    let r = if detail.as_str().is_empty() {
        concat2(head.as_str(), ")")
    } else {
        concat3(head.as_str(), ") - ", detail.as_str())
    };
    assert(r@ == permission_heading(permission.deep_view(), shown));
    r
}

pub open spec fn permission_options(selected: PermissionChoice) -> Seq<char> {
    options_line(
        seq![
            offered("Allow once"@, selected is AllowOnce),
            offered("Allow session"@, selected is AllowSession),
            offered("Always allow"@, selected is AllowAlways),
            offered("Deny"@, selected is Deny),
            offered("Quit"@, selected is Quit),
        ],
    )
}

pub fn permission_options_line(permission: &PendingPermission) -> (r: String)
    ensures
        r@ == permission_options(permission.selected),
{
    let mut options: Vec<String> = Vec::new();
    options.push(offer("Allow once", permission.selected == PermissionChoice::AllowOnce));
    options.push(offer("Allow session", permission.selected == PermissionChoice::AllowSession));
    options.push(offer("Always allow", permission.selected == PermissionChoice::AllowAlways));
    options.push(offer("Deny", permission.selected == PermissionChoice::Deny));
    options.push(offer("Quit", permission.selected == PermissionChoice::Quit));
    assert(options.deep_view() =~= seq![
        offered("Allow once"@, permission.selected is AllowOnce),
        offered("Allow session"@, permission.selected is AllowSession),
        offered("Always allow"@, permission.selected is AllowAlways),
        offered("Deny"@, permission.selected is Deny),
        offered("Quit"@, permission.selected is Quit),
    ]);
    render_options(&options)
}

/// A failed call is never reported at length.
pub proof fn law_issues_are_short(name: Seq<char>, error: Seq<char>)
    requires
        !about_arguments(error),
    ensures
        issue(name, error).len() <= 180,
{
    let text = "Could not use "@ + tool_words(name) + ": "@ + bare_error(name, error);
    crate::words::law_shortened_texts_fit(text, 180);
    reveal_strlit("...");
}

} // verus!
