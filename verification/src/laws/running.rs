//! What becomes of a run with a single prompt.
use crate::event::{CommandModel, EventModel};
use crate::json::json_text;
use crate::run::{
    answer_command, answer_note, answered, approves_change, colored_diff, colored_so_far,
    delegates, line_color, permission_answer, permission_box, OneShotModel, Question, RunStepModel,
};
use crate::session::{title_from, SessionModel};
use crate::text::{starts_with, trim};
use crate::types::{
    ApprovalScope, ContentBlockModel, EvaluationModel, MessageModel, PreviewModel, Role, Usage,
};
use crate::ui::status::{activity, issue};
use crate::ui::usage::TurnUsage;
use crate::words::{ascii_lowercase, lines, lowercase};
use serde_json::Value;
use vstd::prelude::*;

verus! {

/// What a word says to a request for permission: yes once, for the session, or always; to quit; and
/// anything else says no.
pub proof fn law_words_of_permission(word: Seq<char>)
    ensures
        word == "y"@ || word == "yes"@ ==> permission_answer(word) == (
            true,
            ApprovalScope::Once,
            false,
        ),
        word == "s"@ || word == "session"@ ==> permission_answer(word) == (
            true,
            ApprovalScope::Session,
            false,
        ),
        word == "a"@ || word == "always"@ ==> permission_answer(word) == (
            true,
            ApprovalScope::Persistent,
            false,
        ),
        word == "q"@ || word == "quit"@ ==> permission_answer(word) == (
            false,
            ApprovalScope::Once,
            true,
        ),
        permission_answer(word).0 ==> word == "y"@ || word == "yes"@ || word == "s"@ || word
            == "session"@ || word == "a"@ || word == "always"@,
        permission_answer(word).2 ==> word == "q"@ || word == "quit"@,
        approves_change(word) <==> word == "y"@ || word == "yes"@ || word == "a"@ || word
            == "apply"@,
{
    reveal_strlit("y");
    reveal_strlit("yes");
    reveal_strlit("s");
    reveal_strlit("session");
    reveal_strlit("a");
    reveal_strlit("always");
    reveal_strlit("q");
    reveal_strlit("quit");
    assert("y"@[0] == 'y' && "yes"@[0] == 'y' && "s"@[0] == 's' && "session"@[0] == 's');
    assert("a"@[0] == 'a' && "always"@[0] == 'a' && "q"@[0] == 'q' && "quit"@[0] == 'q');
}

/// An answer is read without the blanks around it and in any case; one to a subagent counts once.
pub proof fn law_answers_are_read_loosely(line: Seq<char>)
    ensures
        answered(Question::Permission, Some(line)) == permission_answer(lowercase(trim(line))),
        answered(Question::Preview, Some(line)).0 == approves_change(lowercase(trim(line))),
        answered(Question::SubagentPreview, Some(line)).0 == approves_change(lowercase(trim(line))),
        answered(Question::SubagentPermission, Some(line)).0 <==> ascii_lowercase(trim(line))
            == "y"@ || ascii_lowercase(trim(line)) == "yes"@,
        answered(Question::SubagentPermission, Some(line)).1 is Once,
        !answered(Question::SubagentPermission, Some(line)).2,
        !answered(Question::Preview, Some(line)).2,
        !answered(Question::SubagentPreview, Some(line)).2,
{
}

/// The agent is told the answer under the id of the request, with its scope where it has one.
pub proof fn law_answers_reach_the_agent(id: Seq<char>, approved: bool, scope: ApprovalScope)
    ensures
        answer_command(Question::Permission, id, approved, scope) == (
        CommandModel::PermissionResponse { request_id: id, approved, scope }),
        answer_command(Question::SubagentPermission, id, approved, scope) == (
        CommandModel::PermissionResponse { request_id: id, approved, scope }),
        answer_command(Question::Preview, id, approved, scope) == (
        CommandModel::FileChangePreviewResponse { request_id: id, approved }),
        answer_command(Question::SubagentPreview, id, approved, scope) == (
        CommandModel::FileChangePreviewResponse { request_id: id, approved }),
        answer_note(Question::Permission, false) == Some("Permission denied."@),
        answer_note(Question::Preview, false) == Some("Change rejected."@),
        answer_note(Question::Permission, true) is None,
        answer_note(Question::Preview, true) is None,
        answer_note(Question::SubagentPermission, approved) is None,
        answer_note(Question::SubagentPreview, approved) is None,
{
}

/// A run begins with its prompt as the only message and with nothing done.
pub proof fn law_runs_begin_with_the_prompt(prompt: Seq<char>, session: SessionModel)
    ensures
        ({
            let run = OneShotModel::begun(prompt, session);
            &&& run.prompt_text == prompt
            &&& run.session.id == session.id
            &&& run.session.ui_messages.len() == 1
            &&& run.session.ui_messages[0].role == "user"@
            &&& run.session.ui_messages[0].content == prompt
            &&& run.session.core_messages.len() == 1
            &&& run.session.core_messages[0].role is User
            &&& run.session.core_messages[0].content == seq![
                ContentBlockModel::Text { text: prompt },
            ]
            &&& run.final_output.len() == 0
            &&& run.latest_core_messages.len() == 0
            &&& run.last_usage is None
            &&& run.agent_error is None
            &&& !run.quit_requested
        }),
{
}

/// Text is printed as it comes; an error of the agent is told and ends the run; nothing else is
/// kept of either.
pub proof fn law_text_and_errors_are_told(
    run: OneShotModel,
    text: Seq<char>,
    now: Seq<char>,
    shown: Seq<char>,
)
    ensures
        ({
            let (next, step) = run.on_event(EventModel::TextDelta(text), now, shown);
            &&& next.final_output == run.final_output + text
            &&& step == (RunStepModel::Print { text })
            &&& next.session == run.session
            &&& next.last_usage == run.last_usage
            &&& next.agent_error == run.agent_error
        }),
        ({
            let (next, step) = run.on_event(EventModel::AgentError { message: text }, now, shown);
            &&& next.agent_error == Some(text)
            &&& next.final_output == run.final_output
            &&& next.session == run.session
            &&& step == (RunStepModel::End {
                line_feed: false,
                lines: seq![Seq::empty(), "Error: "@ + text],
            })
        }),
{
    reveal(OneShotModel::on_event);
}

/// A finished run ends on a line of its own; its tokens are told where there are any.
pub proof fn law_finished_runs_say_so(
    run: OneShotModel,
    message: Seq<char>,
    now: Seq<char>,
    shown: Seq<char>,
)
    ensures
        ({
            let (next, step) = run.on_event(
                EventModel::AgentFinished { final_message: message },
                now,
                shown,
            );
            &&& next == run
            &&& step is End
            &&& step->line_feed <==> run.final_output.len() > 0 && run.final_output.last() != '\n'
            &&& step->End_lines.last() == "(agent finished)"@
            &&& run.last_usage is None ==> step->End_lines.len() == 1
            &&& run.last_usage is Some ==> step->End_lines.len() == 2 && step->End_lines[0] == "("@
                + (run.last_usage->0).described("usage: in/out "@) + ")"@
        }),
{
    reveal(OneShotModel::on_event);
}

/// Requests are put to the user under their ids: permission with the tool, its risk and its
/// sandbox; a file change with its diff.
pub proof fn law_requests_are_put_to_the_user(
    run: OneShotModel,
    id: Seq<char>,
    name: Seq<char>,
    input: Value,
    evaluation: EvaluationModel,
    preview: PreviewModel,
    now: Seq<char>,
    shown: Seq<char>,
)
    ensures
        run.on_event(
            EventModel::PermissionNeeded { request_id: id, tool_name: name, input, evaluation },
            now,
            shown,
        ) == (
            run,
            RunStepModel::Ask {
                question: Question::Permission,
                request_id: id,
                lines: permission_box(name, input, evaluation),
                prompt: "> "@,
            },
        ),
        run.on_event(
            EventModel::FileChangePreviewNeeded { request_id: id, tool_name: name, input, preview },
            now,
            shown,
        ) == (
            run,
            RunStepModel::Ask {
                question: Question::Preview,
                request_id: id,
                lines: colored_diff(preview),
                prompt: "Apply changes? [y/N] "@,
            },
        ),
        run.on_subagent_event(
            EventModel::PermissionNeeded { request_id: id, tool_name: name, input, evaluation },
            shown,
        ) == (
            run,
            RunStepModel::Ask {
                question: Question::SubagentPermission,
                request_id: id,
                lines: seq![
                    Seq::empty(),
                    "Subagent permission required: "@ + name + " ("@ + evaluation.risk + ", "@
                        + json_text(input) + ")"@,
                ],
                prompt: "Allow once? [y/N] "@,
            },
        ),
        run.on_subagent_event(
            EventModel::FileChangePreviewNeeded { request_id: id, tool_name: name, input, preview },
            shown,
        ) == (
            run,
            RunStepModel::Ask {
                question: Question::SubagentPreview,
                request_id: id,
                lines: colored_diff(preview),
                prompt: "Apply changes? [y/N] "@,
            },
        ),
{
    reveal(OneShotModel::on_event);
}

/// Tool calls are noted, but those that hand work to subagents, which the subagents' own events
/// tell of; failures are noted always.
pub proof fn law_tool_calls_are_noted(
    run: OneShotModel,
    id: Seq<char>,
    name: Seq<char>,
    input: Value,
    error: Seq<char>,
    now: Seq<char>,
    shown: Seq<char>,
)
    ensures
        ({
            let handed = name == "agent"@ || name == "spawn_agent"@ || name == "wait_agents"@ || name
                == "cancel_agents"@;
            let (next, step) = run.on_event(
                EventModel::ToolCallStarted { id, name, input },
                now,
                shown,
            );
            &&& next == run
            &&& handed ==> step is Wait
            &&& !handed ==> step == (RunStepModel::Note {
                lines: seq![
                    Seq::empty(),
                    "• "@ + activity(name, input, shown).0 + ": "@ + activity(
                        name,
                        input,
                        shown,
                    ).1,
                ],
            })
        }),
        run.on_event(EventModel::ToolCallFailed { id, name, error }, now, shown) == (
            run,
            RunStepModel::Note { lines: seq!["  "@ + issue(name, error)] },
        ),
        run.on_subagent_event(EventModel::ToolCallFailed { id, name, error }, shown) == (
            run,
            RunStepModel::Note { lines: seq!["  Subagent "@ + issue(name, error)] },
        ),
{
    reveal(OneShotModel::on_event);
}

/// The conversation that the agent reports is the one that is kept, and the session is written
/// where the user has said something.
pub proof fn law_reported_conversations_are_kept(
    run: OneShotModel,
    messages: Seq<MessageModel>,
    now: Seq<char>,
    shown: Seq<char>,
)
    ensures
        ({
            let (next, step) = run.on_event(EventModel::SessionUpdated { messages }, now, shown);
            &&& next.latest_core_messages == messages
            &&& next.session.core_messages == messages
            &&& next.session.ui_messages == run.session.ui_messages
            &&& next.session.id == run.session.id
            &&& next.final_output == run.final_output
            &&& next.session.has_request() <==> step is Save
            &&& step is Save ==> next.session.updated_at == now
            &&& !(step is Save) ==> step is Wait && next.session.updated_at
                == run.session.updated_at
        }),
{
    reveal(OneShotModel::on_event);
}

/// The tokens of turns are added up, as far as they can be counted; a turn that reports none
/// changes nothing.
pub proof fn law_run_tokens_are_added_up(
    run: OneShotModel,
    usage: Usage,
    now: Seq<char>,
    shown: Seq<char>,
)
    ensures
        ({
            let (next, step) = run.on_event(EventModel::TurnComplete(usage), now, shown);
            let none = usage.input_tokens == 0 && usage.output_tokens == 0
                && usage.cached_input_tokens == 0 && usage.cache_miss_input_tokens == 0
                && usage.reasoning_output_tokens == 0;
            &&& step is Wait
            &&& next.session == run.session
            &&& none ==> next == run
            &&& !none && run.last_usage is None ==> next.last_usage is Some && (
            next.last_usage->0).input_tokens == usage.input_tokens && (
            next.last_usage->0).output_tokens == usage.output_tokens
            &&& !none && run.last_usage is Some && (run.last_usage->0).input_tokens
                + usage.input_tokens <= usize::MAX ==> next.last_usage is Some && (
            next.last_usage->0).input_tokens == (run.last_usage->0).input_tokens
                + usage.input_tokens
            &&& !none && run.last_usage is Some && (run.last_usage->0).output_tokens
                + usage.output_tokens <= usize::MAX ==> next.last_usage is Some && (
            next.last_usage->0).output_tokens == (run.last_usage->0).output_tokens
                + usage.output_tokens
        }),
        run.on_subagent_event(EventModel::TurnComplete(usage), shown) == run.on_event(
            EventModel::TurnComplete(usage),
            now,
            shown,
        ),
{
    reveal(OneShotModel::on_event);
}

/// A run that was quit, or that the agent reported nothing of, is not written again.
pub proof fn law_empty_runs_are_not_written(run: OneShotModel, now: Seq<char>)
    ensures
        run.quit_requested || run.latest_core_messages.len() == 0 ==> run.concluded(now) == (
            run,
            false,
        ),
        !run.quit_requested && run.latest_core_messages.len() > 0 ==> {
            let (end, written) = run.concluded(now);
            &&& end.session.ui_messages.len() == 2
            &&& end.session.ui_messages[0].role == "user"@
            &&& end.session.ui_messages[0].content == run.prompt_text
            &&& end.session.ui_messages[1].role == "assistant"@
            &&& end.session.ui_messages[1].content == run.final_output
            &&& end.session.core_messages == run.latest_core_messages
            &&& end.session.id == run.session.id
            &&& written <==> end.session.has_request()
            &&& written ==> end.session.updated_at == now
        },
{
}

/// Every line of a hunk is shown whole, in the colour of its kind; the names of the files before
/// the first hunk are not.
pub proof fn law_hunk_lines_are_shown_in_colour(
    above: Seq<Seq<char>>,
    line: Seq<char>,
)
    requires
        colored_so_far(above).1,
        !starts_with(line, "diff --git "@),
    ensures
        ({
            let (shown, in_hunk) = colored_so_far(above.push(line));
            &&& in_hunk
            &&& shown.len() == colored_so_far(above).0.len() + 1
            &&& shown.drop_last() == colored_so_far(above).0
            &&& shown.last() == line_color(line) + line + "\u{1b}[0m"@
        }),
        line.len() > 0 && line[0] == '+' ==> line_color(line) == "\u{1b}[32m"@,
        line.len() > 0 && line[0] == '-' ==> line_color(line) == "\u{1b}[31m"@,
        line.len() > 0 && line[0] == ' ' ==> line_color(line) == "\u{1b}[90m"@,
        starts_with(line, "@@"@) ==> line_color(line) == "\u{1b}[1;36m"@,
{
    reveal_strlit("@@");
    reveal_strlit("+");
    reveal_strlit("-");
    assert(above.push(line).drop_last() =~= above);
    let (shown, in_hunk) = colored_so_far(above.push(line));
    assert(shown.drop_last() =~= colored_so_far(above).0);
    if starts_with(line, "@@"@) {
        assert(line.subrange(0, 2)[0] == '@');
    }
    if line.len() > 0 {
        assert(line.subrange(0, 1) =~= seq![line[0]]);
        if line[0] == '+' {
            assert(line.subrange(0, 1) =~= "+"@);
        }
        if line[0] == '-' {
            assert(line.subrange(0, 1) =~= "-"@);
        }
        if starts_with(line, "+"@) {
            assert("+"@[0] == '+');
        }
        if starts_with(line, "-"@) {
            assert("-"@[0] == '-');
        }
    }
}

/// A hunk begins with its head and ends with the next file; file names outside a hunk are left
/// out.
pub proof fn law_file_names_are_left_out(above: Seq<Seq<char>>, line: Seq<char>)
    ensures
        starts_with(line, "diff --git "@) ==> colored_so_far(above.push(line)) == (
            colored_so_far(above).0,
            false,
        ),
        !colored_so_far(above).1 && !starts_with(line, "diff --git "@) && (starts_with(line, "--- "@)
            || starts_with(line, "+++ "@)) ==> colored_so_far(above.push(line)) == colored_so_far(
            above,
        ),
        !starts_with(line, "diff --git "@) && !starts_with(line, "--- "@) && !starts_with(
            line,
            "+++ "@,
        ) ==> (colored_so_far(above.push(line)).1 <==> colored_so_far(above).1 || starts_with(
            line,
            "@@"@,
        )),
{
    assert(above.push(line).drop_last() =~= above);
}

} // verus!
