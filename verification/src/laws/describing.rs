//! How tool calls, errors and states are put into words.
use crate::json::{json_model, json_text, text_member};
use crate::session::{one_line, SummaryModel};
use crate::text::{decimal, join, starts_with, utf8_len};
use crate::ui::banner::{model_label, HeaderModel};
use crate::ui::footer::{INPUT_HELP_TEXT, PLAN_HELP_TEXT};
use crate::ui::picker::{heading, session_line, session_text};
use crate::ui::state::{AppModel, PickerModel};
use crate::ui::status::{
    about_arguments, activity, activity_text, bare_error, first_lines, issue, search_detail,
    tool_words, PermissionModel,
};
use crate::ui::usage::{with_usage, TurnUsage};
use crate::words::{lines, shortened};
use serde_json::Value;
use vstd::prelude::*;

verus! {

proof fn lemma_tools_differ()
    ensures
        "read_file"@.len() == 9 && "read_file"@[0] == 'r',
        "grep"@.len() == 4 && "grep"@[1] == 'r',
        "glob"@.len() == 4 && "glob"@[1] == 'l',
        "git_status"@.len() == 10 && "git_status"@[0] == 'g' && "git_status"@[4] == 's',
        "git_diff"@.len() == 8,
        "git_log"@.len() == 7 && "git_log"@[4] == 'l',
        "shell"@.len() == 5 && "shell"@[0] == 's',
        "write_file"@.len() == 10 && "write_file"@[0] == 'w' && "write_file"@[1] == 'r',
        "edit_file"@.len() == 9 && "edit_file"@[0] == 'e',
        "git_add"@.len() == 7 && "git_add"@[4] == 'a',
        "git_commit"@.len() == 10 && "git_commit"@[0] == 'g' && "git_commit"@[4] == 'c',
        "git_checkout"@.len() == 12,
        "git_branch"@.len() == 10 && "git_branch"@[0] == 'g' && "git_branch"@[4] == 'b',
        "web_fetch"@.len() == 9 && "web_fetch"@[0] == 'w',
        "web_search"@.len() == 10 && "web_search"@[0] == 'w' && "web_search"@[1] == 'e',
        "agent"@.len() == 5 && "agent"@[0] == 'a',
{
    reveal_strlit("read_file");
    reveal_strlit("grep");
    reveal_strlit("glob");
    reveal_strlit("git_status");
    reveal_strlit("git_diff");
    reveal_strlit("git_log");
    reveal_strlit("shell");
    reveal_strlit("write_file");
    reveal_strlit("edit_file");
    reveal_strlit("git_add");
    reveal_strlit("git_commit");
    reveal_strlit("git_checkout");
    reveal_strlit("git_branch");
    reveal_strlit("web_fetch");
    reveal_strlit("web_search");
    reveal_strlit("agent");
}

/// Every tool that is known has its own words; those of another are its name with blanks.
pub proof fn law_tools_have_their_words(name: Seq<char>)
    ensures
        tool_words("read_file"@) == "read file"@,
        tool_words("grep"@) == "search"@,
        tool_words("glob"@) == "file listing"@,
        tool_words("git_status"@) == "git status"@,
        tool_words("git_diff"@) == "git diff"@,
        tool_words("git_log"@) == "git log"@,
        tool_words("shell"@) == "command"@,
        tool_words("write_file"@) == "file write"@,
        tool_words("edit_file"@) == "file edit"@,
        tool_words("git_add"@) == "git stage"@,
        tool_words("git_commit"@) == "git commit"@,
        tool_words("git_checkout"@) == "git checkout"@,
        tool_words("git_branch"@) == "git branch"@,
        tool_words("web_fetch"@) == "web fetch"@,
        tool_words("web_search"@) == "web search"@,
        tool_words("agent"@) == "subagent"@,
{
    lemma_tools_differ();
}

/// A tool call is told by what it does and to what: reading and searching explore, writing and
/// committing edit, commands run, and what is asked of the network is browsed.
pub proof fn law_tool_calls_are_told(name: Seq<char>, input: Value, shown: Seq<char>)
    ensures
        ({
            let json = json_model(input);
            let path = text_member(json, "path"@);
            &&& activity("read_file"@, input, shown) == (
                "Explored"@,
                if path is Some {
                    "Read "@ + shown
                } else {
                    "Read file"@
                },
            )
            &&& activity("write_file"@, input, shown) == (
                "Edited"@,
                if path is Some {
                    "Write "@ + shown
                } else {
                    "Write file"@
                },
            )
            &&& activity("edit_file"@, input, shown) == (
                "Edited"@,
                if path is Some {
                    "Edit "@ + shown
                } else {
                    "Edit file"@
                },
            )
            &&& activity("grep"@, input, shown) == ("Explored"@, search_detail(input, shown))
            &&& activity("glob"@, input, shown) == (
                "Explored"@,
                if text_member(json, "pattern"@) is Some {
                    "List "@ + text_member(json, "pattern"@)->0
                } else {
                    "List files"@
                },
            )
            &&& activity("git_status"@, input, shown) == ("Explored"@, "Check git status"@)
            &&& activity("git_diff"@, input, shown) == ("Explored"@, "Inspect git diff"@)
            &&& activity("git_log"@, input, shown) == ("Explored"@, "Inspect git log"@)
        }),
{
    lemma_tools_differ();
}

/// Commands, changes to the repository, the network and subagents are told likewise, on one line.
pub proof fn law_other_tool_calls_are_told(name: Seq<char>, input: Value, shown: Seq<char>)
    ensures
        ({
            let json = json_model(input);
            let line = |key: Seq<char>, otherwise: Seq<char>|
                shortened(
                    one_line(
                        if text_member(json, key) is Some {
                            text_member(json, key)->0
                        } else {
                            otherwise
                        },
                    ),
                    96,
                );
            &&& activity("shell"@, input, shown) == (
                "Ran"@,
                if text_member(json, "command"@) is Some {
                    shortened(one_line(text_member(json, "command"@)->0), 96)
                } else {
                    "Run command"@
                },
            )
            &&& activity("git_add"@, input, shown) == ("Edited"@, "Stage files"@)
            &&& activity("git_commit"@, input, shown) == ("Edited"@, "Commit changes"@)
            &&& activity("git_checkout"@, input, shown) == (
                "Edited"@,
                if text_member(json, "branch"@) is Some {
                    "Checkout "@ + text_member(json, "branch"@)->0
                } else {
                    "Checkout branch"@
                },
            )
            &&& activity("web_fetch"@, input, shown) == (
                "Browsed"@,
                line("url"@, "Fetch URL"@),
            )
            &&& activity("web_search"@, input, shown) == (
                "Browsed"@,
                line("query"@, "Search web"@),
            )
            &&& activity("agent"@, input, shown) == (
                "Delegated"@,
                line("task"@, "Run subagent"@),
            )
            &&& activity_text(name, input, shown) == activity(name, input, shown).0 + ": "@
                + activity(name, input, shown).1
        }),
        name.len() == 3 ==> activity(name, input, shown) == (
            "Used Tool"@,
            name + " "@ + shortened(json_text(input), 96),
        ),
{
    lemma_tools_differ();
}

/// A search is told by what it looks for and where, as far as either is said.
pub proof fn law_searches_are_told(input: Value, shown: Seq<char>)
    requires
        shown.len() > 0,
    ensures
        ({
            let json = json_model(input);
            let placed = text_member(json, "path"@) is Some || text_member(json, "directory"@)
                is Some;
            let pattern = text_member(json, "pattern"@);
            &&& placed && pattern is Some ==> search_detail(input, shown) == "Search "@ + pattern->0
                + " in "@ + shown
            &&& !placed && pattern is Some ==> search_detail(input, shown) == "Search "@
                + pattern->0
            &&& placed && pattern is None ==> search_detail(input, shown) == "Search in "@ + shown
            &&& !placed && pattern is None ==> search_detail(input, shown) == "Search files"@
        }),
{
}

/// The error of a tool is told without the words that every such error begins with.
pub proof fn law_errors_are_told_bare(name: Seq<char>, text: Seq<char>)
    ensures
        bare_error(name, "Tool execution error: "@ + name + " -- "@ + text) == text,
        !starts_with(text, "Tool execution error: "@) ==> bare_error(name, text) == text,
        about_arguments(text) ==> issue(name, text) == "Adjusting "@ + tool_words(name)
            + " arguments..."@,
        !about_arguments(text) ==> issue(name, text) == shortened(
            "Could not use "@ + tool_words(name) + ": "@ + bare_error(name, text),
            180,
        ),
{
    let own = "Tool execution error: "@ + name + " -- "@;
    let all = own + text;
    assert(all.subrange(0, own.len() as int) =~= own);
    assert(all.subrange(own.len() as int, all.len() as int) =~= text);
    if !starts_with(text, "Tool execution error: "@) && starts_with(text, own) {
        let head = "Tool execution error: "@;
        assert(text.subrange(0, head.len() as int) =~= text.subrange(0, own.len() as int).take(
            head.len() as int,
        ));
        assert(own.take(head.len() as int) =~= head);
    }
}

/// The first lines of a text are its first lines, all of them where there are no more.
pub proof fn law_first_lines_come_first(text: Seq<char>, n: nat, max: nat)
    ensures
        lines(text).len() <= n ==> first_lines(text, n, max) == shortened(
            join(lines(text), "\n"@),
            max,
        ),
        lines(text).len() > n ==> first_lines(text, n, max) == shortened(
            join(lines(text).subrange(0, n as int), "\n"@),
            max,
        ),
{
}

/// What is awaited is told first: a session to pick, a plan, a file change, a permission; and when
/// nothing is, what the keys do, with the tokens of the last turn.
pub proof fn law_the_status_line_tells_what_is_awaited(state: AppModel, shown: Seq<char>)
    ensures
        state.pending_sessions is Some ==> state.status_text(shown) == "Sessions ("@ + decimal(
            (state.pending_sessions->0).sessions.len(),
        ) + ", "@ + (if (state.pending_sessions->0).show_all {
            "all workspaces"@
        } else {
            "this workspace"@
        }) + ") - Up/Down select, Enter resume, a toggle, Esc close"@,
        state.pending_sessions is None && state.pending_plan is None && state.pending_file_preview
            is Some ==> state.status_text(shown) == "Review changes: "@ + shortened(
            (state.pending_file_preview->0).preview.path,
            120,
        ),
        state.pending_sessions is None && state.pending_plan is None && state.pending_file_preview
            is None && state.pending_permission is None && state.status != "Ready."@ && !starts_with(
            state.status,
            "Ready. "@,
        ) ==> state.status_text(shown) == state.status,
        state.pending_sessions is None && state.pending_plan is None && state.pending_file_preview
            is None && state.pending_permission is None && state.status == "Ready."@
            && state.last_usage is None ==> state.status_text(shown) == (
        if state.plan_mode_enabled {
            "Plan mode · Shift+Tab to switch · Enter to plan · Ctrl+C to exit"@
        } else {
            "Agent mode · Shift+Tab to switch · Enter to send · Ctrl+C to exit"@
        }),
{
}

/// The tokens are told behind the rest, in and out; what a cache held and what was reasoned only
/// where there was any.
pub proof fn law_tokens_are_told(base: Seq<char>, usage: TurnUsage, heading: Seq<char>)
    ensures
        with_usage(base, None) == base,
        with_usage(base, Some(usage)) == base + " · "@ + usage.described("last in/out "@),
        usage.cached_input_tokens == 0 && usage.cache_miss_input_tokens == 0
            && usage.reasoning_output_tokens == 0 ==> usage.described(heading) == heading + decimal(
            usage.input_tokens as nat,
        ) + "/"@ + decimal(usage.output_tokens as nat),
        usage.cached_input_tokens == 0 && usage.cache_miss_input_tokens == 0
            && usage.reasoning_output_tokens > 0 ==> usage.described(heading) == heading + decimal(
            usage.input_tokens as nat,
        ) + "/"@ + decimal(usage.output_tokens as nat) + ", reasoning "@ + decimal(
            usage.reasoning_output_tokens as nat,
        ),
{
    let plain = heading + decimal(usage.input_tokens as nat) + "/"@ + decimal(
        usage.output_tokens as nat,
    );
    assert(plain + Seq::<char>::empty() =~= plain);
}

/// A session of the list is told by its mark, the front of its id, its date, its title and its
/// model; only the selected one is marked.
pub proof fn law_listed_sessions_are_told(session: SummaryModel, width: u16)
    ensures
        session_text(session, true) == ">"@ + " "@ + crate::words::first(session.id, 8) + "  "@
            + crate::words::first(session.updated_at, 10) + "  "@ + session.title + "  "@
            + session.provider + "/"@ + session.model,
        session_text(session, false) == " "@ + " "@ + crate::words::first(session.id, 8) + "  "@
            + crate::words::first(session.updated_at, 10) + "  "@ + session.title + "  "@
            + session.provider + "/"@ + session.model,
        session_line(session, true, width)[0].style.bold,
        !session_line(session, false, width)[0].style.bold,
        heading(true) == " Sessions - "@ + "All workspaces"@ + " "@,
        heading(false) == " Sessions - "@ + "Current workspace"@ + " "@,
{
}

/// The label of a model is its name and its effort, off where there is none.
pub proof fn law_labels_name_model_and_effort(model: Seq<char>, effort: Seq<char>)
    ensures
        model_label(model, Some(effort)) == model + " "@ + effort,
        model_label(model, None) == model + " "@ + "off"@,
{
}

} // verus!
