//! What the smaller routines of the agent promise: how beginnings and ends are taken from texts,
//! how results become messages, what may be called while planning, and which task is next.
use crate::agent_loop::plan_mode_status;
use crate::event::{CommandModel, EventModel};
use crate::json::{json_model, text_member, Json};
use crate::llm_response::ToolCallModel;
use crate::permission_handler::{must_wait, waiting_notice};
use crate::plan_executor::planning_objection;
use crate::setup::wanted_model;
use crate::state::{StateModel, ToolResultModel};
use crate::subagent::{
    next_worker, still_asking, unknown_task, workers_active, ManagerModel, TaskModel,
};
use crate::subagent_run::{answered_request, named_ids};
use crate::text::{ends_with, starts_with, strip_prefix, strip_suffix};
use crate::turn_executor::request_status;
use crate::types::{text_message, ContentBlockModel, ProfileModel, Role, ToolSafety};
use crate::validation::rejection;
use vstd::prelude::*;

verus! {

/// A beginning that is put before a text can be taken off again, and so can an end behind it. What
/// is taken off was there, and where it is not there nothing is.
pub proof fn law_beginnings_and_ends_are_taken_off(s: Seq<char>, p: Seq<char>)
    ensures
        starts_with(p + s, p),
        strip_prefix(p + s, p) == Some(s),
        ends_with(s + p, p),
        strip_suffix(s + p, p) == Some(s),
        strip_prefix(s, p) is Some <==> starts_with(s, p),
        strip_prefix(s, p) is Some ==> p + strip_prefix(s, p)->0 == s,
        strip_suffix(s, p) is Some <==> ends_with(s, p),
        strip_suffix(s, p) is Some ==> strip_suffix(s, p)->0 + p == s,
{
    assert((p + s).subrange(0, p.len() as int) =~= p);
    assert((p + s).subrange(p.len() as int, (p + s).len() as int) =~= s);
    assert((s + p).subrange(s.len() as int, (s + p).len() as int) =~= p);
    assert((s + p).subrange(0, s.len() as int) =~= s);
    if starts_with(s, p) {
        assert(s.subrange(0, p.len() as int) + s.subrange(p.len() as int, s.len() as int) =~= s);
    }
    if ends_with(s, p) {
        assert(s.subrange(0, s.len() - p.len()) + s.subrange(
            s.len() - p.len(),
            s.len() as int,
        ) =~= s);
    }
}

/// The results of tools become one message behind the others, with a block for each in their order.
/// Without results there is none.
pub proof fn law_results_become_one_message(
    state: StateModel,
    results: Seq<ToolResultModel>,
    i: int,
)
    ensures
        results.len() == 0 ==> state.push_tool_results(results) == state,
        results.len() > 0 ==> {
            let after = state.push_tool_results(results);
            let last = after.messages.last();
            &&& after.messages.len() == state.messages.len() + 1
            &&& after.messages.drop_last() == state.messages
            &&& last.role is Tool
            &&& last.id is None
            &&& last.content.len() == results.len()
            &&& 0 <= i < results.len() ==> last.content[i] == (ContentBlockModel::ToolResult {
                tool_use_id: results[i].tool_use_id,
                content: results[i].content,
                is_error: results[i].is_error,
            })
        },
{
    if results.len() > 0 {
        assert(state.push_tool_results(results).messages.drop_last() =~= state.messages);
    }
}

/// One result alone becomes a message with that result.
pub proof fn law_one_result_is_one_block(
    state: StateModel,
    tool_use_id: Seq<char>,
    content: Seq<char>,
    is_error: bool,
)
    ensures
        ({
            let after = state.push_tool_result(tool_use_id, content, is_error);
            let last = after.messages.last();
            &&& after.messages.len() == state.messages.len() + 1
            &&& after.messages.drop_last() == state.messages
            &&& last.role is Tool
            &&& last.content.len() == 1
            &&& last.content[0] == (ContentBlockModel::ToolResult {
                tool_use_id,
                content,
                is_error,
            })
        }),
{
    law_results_become_one_message(
        state,
        seq![ToolResultModel { tool_use_id, content, is_error }],
        0,
    );
}

/// A message of text holds that text alone.
pub proof fn law_messages_hold_their_text(role: Role, text: Seq<char>)
    ensures
        text_message(role, text).role == role,
        text_message(role, text).content.len() == 1,
        text_message(role, text).content[0] == (ContentBlockModel::Text { text }),
        text_message(role, text).id is None,
{
}

/// The mode that was switched to is told.
pub proof fn law_the_mode_is_told(enabled: bool)
    ensures
        enabled ==> plan_mode_status(enabled)
            == "Plan mode enabled. New tasks will require plan approval before execution."@,
        !enabled ==> plan_mode_status(enabled)
            == "Agent mode enabled. New tasks will execute directly."@,
{
}

/// While planning only tools may run that read and need no approval, and of the subagents only
/// explorers. Any other call gets an objection, and so does one whose input does not fit.
pub proof fn law_planning_changes_nothing(call: ToolCallModel, schema: Json, safety: ToolSafety)
    ensures
        !safety.is_read_only || safety.requires_approval || safety.is_destructive
            ==> planning_objection(call, schema, safety) is Some,
        call.name == "spawn_agent"@ && text_member(json_model(call.input), "role"@) != Some(
            "explorer"@,
        ) ==> planning_objection(call, schema, safety) == Some(
            "Only explorer subagents are allowed during planning."@,
        ),
        (call.name != "spawn_agent"@ || text_member(json_model(call.input), "role"@) == Some(
            "explorer"@,
        )) && safety.is_read_only && !safety.requires_approval && !safety.is_destructive
            ==> planning_objection(call, schema, safety) == rejection(
            call.name,
            schema,
            json_model(call.input),
        ),
{
}

/// A command that has to wait is answered with the notice, and any other with nothing.
pub proof fn law_waiting_commands_are_told(command: CommandModel, notice: Seq<char>)
    ensures
        waiting_notice(None, notice) is None,
        must_wait(command) ==> waiting_notice(Some(command), notice) == Some(
            EventModel::StatusUpdate { message: notice },
        ),
        !must_wait(command) ==> waiting_notice(Some(command), notice) is None,
{
}

/// The first request of a turn is told in other words than those after tools.
pub proof fn law_requests_are_told(turn: usize)
    ensures
        turn == 0 ==> request_status(turn) == "Thinking..."@,
        turn > 0 ==> request_status(turn) == "Thinking after tools..."@,
{
}

/// An answer names the request that it answers, and no other command names one.
pub proof fn law_answers_name_their_request(command: CommandModel)
    ensures
        command is PermissionResponse ==> answered_request(command) == Some(
            command->PermissionResponse_request_id,
        ),
        command is FileChangePreviewResponse ==> answered_request(command) == Some(
            command->FileChangePreviewResponse_request_id,
        ),
        command is PlanResponse ==> answered_request(command) == Some(
            command->PlanResponse_request_id,
        ),
        command is PlanFeedback ==> answered_request(command) == Some(
            command->PlanFeedback_request_id,
        ),
        !(command is PermissionResponse) && !(command is FileChangePreviewResponse) && !(
        command is PlanResponse) && !(command is PlanFeedback) ==> answered_request(command)
            is None,
{
}

/// The tasks that a call names are read in their order, where each is a string. Anything else is an
/// error of the tool.
pub proof fn law_named_tasks_are_read(
    members: Map<Seq<char>, Json>,
    items: Seq<Json>,
    tool: Seq<char>,
    i: int,
)
    ensures
        members.contains_key("task_ids"@) && members["task_ids"@] == Json::List(items) ==> {
            let read = named_ids(Json::Object(members), tool);
            &&& read is Ok <==> forall|k: int| 0 <= k < items.len() ==> (#[trigger] items[k])
                is Text
            &&& read is Ok ==> read->Ok_0.len() == items.len()
            &&& read is Ok && 0 <= i < items.len() ==> items[i] == Json::Text(read->Ok_0[i])
            &&& read is Err ==> read->Err_0.tool == tool && read->Err_0.message
                == "Every task id must be a string"@
        },
        !members.contains_key("task_ids"@) ==> {
            let read = named_ids(Json::Object(members), tool);
            read is Err && read->Err_0.tool == tool && read->Err_0.message
                == "Missing 'task_ids' array"@
        },
{
}

/// The worker that is next is the first that is queued.
pub proof fn law_the_first_queued_worker_is_next(tasks: Seq<TaskModel>, from: nat)
    ensures
        next_worker(tasks, from) matches Some(k) ==> {
            &&& from <= k < tasks.len()
            &&& tasks[k].status is Queued
            &&& tasks[k].role is Worker
            &&& forall|i: int|
                from <= i < k ==> !((#[trigger] tasks[i]).status is Queued && tasks[i].role
                    is Worker)
        },
        next_worker(tasks, from) is None ==> forall|i: int|
            from <= i < tasks.len() ==> !((#[trigger] tasks[i]).status is Queued && tasks[i].role
                is Worker),
    decreases tasks.len() - from,
{
    if from < tasks.len() && !(tasks[from as int].status is Queued && tasks[from as int].role
        is Worker) {
        law_the_first_queued_worker_is_next(tasks, from + 1);
    }
}

/// A new task comes behind the others and keeps what it was made with. An explorer waits in line
/// from then on, behind those that wait.
pub proof fn law_new_tasks_come_last(manager: ManagerModel, task: TaskModel)
    requires
        task.role is Explorer,
    ensures
        ({
            let after = manager.arrived(task);
            &&& after.tasks.len() == manager.tasks.len() + 1
            &&& after.tasks.drop_last() == manager.tasks
            &&& after.tasks.last() == task
            &&& after.waiting.drop_last() == manager.waiting
            &&& after.waiting.last() == manager.tasks.len()
            &&& after.settings == manager.settings
            &&& after.models == manager.models
            &&& after.max_concurrent == manager.max_concurrent
        }),
{
    let after = manager.arrived(task);
    assert(after.tasks.drop_last() =~= manager.tasks);
    assert(after.waiting.drop_last() =~= manager.waiting);
}

/// Workers are active while one of them has not ended.
pub proof fn law_workers_are_active_until_they_end(tasks: Seq<TaskModel>, i: int)
    requires
        0 <= i < tasks.len(),
    ensures
        tasks[i].role is Worker && (tasks[i].status is Queued || tasks[i].status is Running)
            ==> workers_active(tasks),
        !workers_active(tasks) && tasks[i].role is Worker ==> !(tasks[i].status is Queued) && !(
        tasks[i].status is Running),
{
}

/// A task that is not known is named in the error of the tool that asked for it.
pub proof fn law_unknown_tasks_are_named(tool: Seq<char>, id: Seq<char>)
    ensures
        unknown_task(tool, id).tool == tool,
        unknown_task(tool, id).message == "Unknown subagent task '"@ + id + "'"@,
{
}

/// Among those that wait, the ones that still ask stay in the order in which they came.
pub proof fn law_those_that_wait_keep_their_order(
    tasks: Seq<TaskModel>,
    line: Seq<int>,
    next: int,
)
    ensures
        tasks[next].asking() ==> still_asking(tasks, line.push(next)) == still_asking(
            tasks,
            line,
        ).push(next),
        !tasks[next].asking() ==> still_asking(tasks, line.push(next)) == still_asking(tasks, line),
        still_asking(tasks, Seq::<int>::empty()).len() == 0,
{
    assert(line.push(next).drop_last() =~= line);
}

/// The model that was asked for is wanted before the configured one, and that before the first that
/// there is.
pub proof fn law_wanted_models(
    asked: Seq<char>,
    configured: Seq<char>,
    other: Option<Seq<char>>,
    available: Seq<ProfileModel>,
)
    requires
        available.len() > 0,
    ensures
        wanted_model(Some(asked), other, available) == asked,
        wanted_model(None, Some(configured), available) == configured,
        wanted_model(None, None, available) == available[0].id,
{
}

} // verus!
