//! What becomes of the tasks that an agent hands to subagents.
use crate::subagent::{
    collected, ended_by_stop, failed, find_profile, find_task, finished, first_unknown,
    lemma_collected, lemma_find_task, lemma_schedule, lemma_set_running, lemma_settled,
    lemma_stopped, reports, role_named, stopped, uncollected, AgentRole, EffectiveModel,
    ManagerModel, TaskModel, TaskStatus, ToolErrorModel,
};
use crate::text::trim;
use crate::types::{ProfileModel, ReasoningEffort};
use vstd::prelude::*;

verus! {

/// A role is known by its name; who names none gets an explorer.
pub proof fn law_roles_are_known_by_name(name: Seq<char>)
    ensures
        role_named(None) == Some(AgentRole::Explorer),
        role_named(Some("explorer"@)) == Some(AgentRole::Explorer),
        role_named(Some("worker"@)) == Some(AgentRole::Worker),
        name != "explorer"@ && name != "worker"@ ==> role_named(Some(name)) is None,
{
    reveal_strlit("explorer");
    reveal_strlit("worker");
    assert("explorer"@.len() != "worker"@.len());
}

proof fn lemma_find_profile(models: Seq<ProfileModel>, id: Seq<char>, k: int)
    ensures
        0 <= k < models.len() && models[k].id == id && (forall|i: int|
            0 <= i < k ==> (#[trigger] models[i]).id != id) ==> find_profile(models, id) == Some(
            models[k],
        ),
        (forall|i: int| 0 <= i < models.len() ==> (#[trigger] models[i]).id != id) ==> find_profile(
            models,
            id,
        ) is None,
    decreases models.len(),
{
    if models.len() > 0 {
        let rest = models.drop_first();
        lemma_find_profile(rest, id, k - 1);
        assert forall|i: int| 0 <= i < rest.len() implies #[trigger] rest[i] == models[i + 1] by {}
        if 0 <= k < models.len() && models[k].id == id && (forall|i: int|
            0 <= i < k ==> (#[trigger] models[i]).id != id) && k > 0 {
            assert(models[0].id != id);
            assert forall|i: int| 0 <= i < k - 1 implies (#[trigger] rest[i]).id != id by {
                assert(models[i + 1].id != id);
            }
        }
        if forall|i: int| 0 <= i < models.len() ==> (#[trigger] models[i]).id != id {
            assert(models[0].id != id);
            assert forall|i: int| 0 <= i < rest.len() implies (#[trigger] rest[i]).id != id by {
                assert(models[i + 1].id != id);
            }
        }
    }
}

/// A subagent runs with the model that was asked for, else with the one set for subagents, else
/// with the main agent's, and likewise for the effort; its limits are those of the model's profile.
/// A model without a profile, or an effort that the model does not take, is refused.
pub proof fn law_subagents_run_as_asked(
    m: ManagerModel,
    model: Option<Seq<char>>,
    effort: Option<Seq<char>>,
    k: int,
)
    ensures
        ({
            let chosen = if model is Some {
                model->0
            } else if m.settings.default_subagent_model is Some {
                m.settings.default_subagent_model->0
            } else {
                m.settings.model
            };
            let wanted = if effort is Some {
                effort
            } else if m.settings.default_subagent_reasoning_effort is Some {
                m.settings.default_subagent_reasoning_effort
            } else {
                m.settings.reasoning_effort
            };
            let found = 0 <= k < m.models.len() && m.models[k].id == chosen && forall|i: int|
                0 <= i < k ==> (#[trigger] m.models[i]).id != chosen;
            let takes = wanted is None || (ReasoningEffort::named(wanted->0) is Some
                && m.models[k].reasoning_efforts.contains(ReasoningEffort::named(wanted->0)->0));
            &&& (forall|i: int| 0 <= i < m.models.len() ==> (#[trigger] m.models[i]).id != chosen)
                ==> m.effective(model, effort) == Err::<EffectiveModel, ToolErrorModel>(
                ToolErrorModel {
                    tool: "spawn_agent"@,
                    message: "Unknown subagent model '"@ + chosen + "'"@,
                },
            )
            &&& found && takes ==> m.effective(model, effort) == Ok::<
                EffectiveModel,
                ToolErrorModel,
            >(
                EffectiveModel {
                    model: chosen,
                    max_tokens: m.models[k].max_output_tokens,
                    context_window: m.models[k].context_window,
                    reasoning_effort: wanted,
                },
            )
            &&& found && !takes ==> m.effective(model, effort) == Err::<
                EffectiveModel,
                ToolErrorModel,
            >(
                ToolErrorModel {
                    tool: "spawn_agent"@,
                    message: "Model '"@ + chosen + "' does not support reasoning effort '"@
                        + wanted->0 + "'"@,
                },
            )
        }),
{
    let chosen = m.chosen_model(model);
    lemma_find_profile(m.models, chosen, k);
}

/// A blank task is refused before anything else; otherwise what is wrong is what is wrong with the
/// settings.
pub proof fn law_blank_tasks_are_refused(
    m: ManagerModel,
    task: Seq<char>,
    model: Option<Seq<char>>,
    effort: Option<Seq<char>>,
)
    ensures
        trim(task).len() == 0 ==> m.spawn_problem(task, model, effort) == Some(
            ToolErrorModel { tool: "spawn_agent"@, message: "Task must not be empty"@ },
        ),
        trim(task).len() > 0 && m.effective(model, effort) is Ok ==> m.spawn_problem(
            task,
            model,
            effort,
        ) is None,
        trim(task).len() > 0 && m.effective(model, effort) is Err ==> m.spawn_problem(
            task,
            model,
            effort,
        ) == Some(m.effective(model, effort)->Err_0),
{
}

/// A new task is queued as it was given, without a result, an error, tokens or a place.
pub proof fn law_new_tasks_are_queued(
    id: Seq<char>,
    task: Seq<char>,
    role: AgentRole,
    model: Seq<char>,
    effort: Option<Seq<char>>,
)
    ensures
        ({
            let t = TaskModel::queued(id, task, role, model, effort);
            &&& t.id == id
            &&& t.task == task
            &&& t.role == role
            &&& t.status is Queued
            &&& t.model == model
            &&& t.reasoning_effort == effort
            &&& t.result is None
            &&& t.error is None
            &&& t.usage.input_tokens == 0
            &&& t.usage.output_tokens == 0
            &&& !t.collected
            &&& !t.has_place
            &&& !t.has_worker_turn
        }),
{
}

/// What is reported of a task is what is noted of it.
pub proof fn law_reports_tell_of_their_tasks(t: TaskModel)
    ensures
        t.snapshot().task_id == t.id,
        t.snapshot().role == t.role,
        t.snapshot().status == t.status,
        t.snapshot().model == t.model,
        t.snapshot().reasoning_effort == t.reasoning_effort,
        t.snapshot().result == t.result,
        t.snapshot().error == t.error,
        t.snapshot().usage == t.usage,
{
}

/// Whether two tasks are one, apart from how it goes.
pub open spec fn same_task(a: TaskModel, b: TaskModel) -> bool {
    &&& a.id == b.id
    &&& a.task == b.task
    &&& a.role == b.role
    &&& a.model == b.model
    &&& a.reasoning_effort == b.reasoning_effort
    &&& a.usage == b.usage
}

/// The end of a run is noted as it is and frees what the task held, unless the task was stopped
/// before: then only that is freed.
pub proof fn law_ends_are_noted(
    t: TaskModel,
    status: TaskStatus,
    result: Option<Seq<char>>,
    error: Option<Seq<char>>,
)
    ensures
        ({
            let after = finished(t, status, result, error);
            let was_stopped = t.status is Interrupted || t.status is Cancelled;
            &&& same_task(t, after)
            &&& after.collected == t.collected
            &&& !after.has_place
            &&& !after.has_worker_turn
            &&& !was_stopped ==> after.status == status && after.result == result && after.error
                == error
            &&& was_stopped ==> after.status == t.status && after.result == t.result && after.error
                == t.error
        }),
{
}

/// A task that could not be run has failed with what went wrong, unless it had ended before.
pub proof fn law_failures_to_run_are_noted(t: TaskModel, error: Seq<char>)
    ensures
        ({
            let after = failed(t, error);
            let over = t.status is Completed || t.status is Failed || t.status is Interrupted
                || t.status is Cancelled;
            &&& same_task(t, after)
            &&& after.collected == t.collected
            &&& !after.has_place
            &&& !after.has_worker_turn
            &&& after.result == t.result
            &&& !over ==> after.status is Failed && after.error == Some(error)
            &&& over ==> after.status == t.status && after.error == t.error
        }),
{
}

/// Stopping tasks gives those that are named and have not ended the status and the reason of the
/// stop; those that have ended keep how they ended, and no other task changes.
pub proof fn law_stops_are_noted(
    m: ManagerModel,
    ids: Seq<Seq<char>>,
    status: TaskStatus,
    reason: Seq<char>,
    i: int,
)
    requires
        m.wf(),
        status.is_stopped(),
        0 <= i < m.tasks.len(),
    ensures
        ({
            let t = m.tasks[i];
            let after = stopped(m.tasks, ids, status, reason)[i];
            let over = t.status is Completed || t.status is Failed || t.status is Interrupted
                || t.status is Cancelled;
            &&& stopped(m.tasks, ids, status, reason).len() == m.tasks.len()
            &&& same_task(t, after)
            &&& after.result == t.result
            &&& after.collected == t.collected
            &&& after.has_place == t.has_place
            &&& after.has_worker_turn == t.has_worker_turn
            &&& ids.contains(t.id) && !over ==> after.status == status && after.error == Some(reason)
            &&& !ids.contains(t.id) || over ==> after == t
        }),
{
    lemma_stopped(m, ids, status, reason);
}

/// The tasks that a stop ends are those that are named and had not ended, each once.
pub proof fn law_stops_end_what_was_active(
    m: ManagerModel,
    ids: Seq<Seq<char>>,
    status: TaskStatus,
    reason: Seq<char>,
    i: int,
)
    requires
        m.wf(),
        status.is_stopped(),
        0 <= i < m.tasks.len(),
    ensures
        ({
            let t = m.tasks[i];
            let over = t.status is Completed || t.status is Failed || t.status is Interrupted
                || t.status is Cancelled;
            ended_by_stop(m.tasks, ids, status, reason).contains(t.id) <==> ids.contains(t.id)
                && !over
        }),
        ended_by_stop(m.tasks, ids, status, reason).no_duplicates(),
    decreases ids.len(),
{
    let ended = ended_by_stop(m.tasks, ids, status, reason);
    if ids.len() == 0 {
    } else {
        let front = ids.drop_last();
        let id = ids.last();
        law_stops_end_what_was_active(m, front, status, reason, i);
        lemma_stopped(m, front, status, reason);
        let before = stopped(m.tasks, front, status, reason);
        let earlier = ended_by_stop(m.tasks, front, status, reason);
        lemma_find_task(before, id);
        assert forall|x: Seq<char>| ids.contains(x) <==> front.contains(x) || x == id by {
            if front.contains(x) {
                let k = choose|k: int| 0 <= k < front.len() && front[k] == x;
                assert(ids[k] == x);
            }
            if x == id {
                assert(ids[ids.len() - 1] == x);
            }
            if ids.contains(x) && x != id {
                let k = choose|k: int| 0 <= k < ids.len() && ids[k] == x;
                assert(front[k] == x);
            }
        }
        if let Some(j) = find_task(before, id) {
            law_stops_end_what_was_active(m, front, status, reason, j);
            assert(before[j].id == m.tasks[j].id);
            if i != j {
                assert(m.tasks[i].id != m.tasks[j].id);
            }
            if !before[j].status.is_terminal() {
                assert(!earlier.contains(id));
                assert(ended == earlier.push(id));
                assert(ended[earlier.len() as int] == id);
                assert forall|x: Seq<char>| ended.contains(x) <==> earlier.contains(x) || x == id by {
                    if earlier.contains(x) {
                        let k = choose|k: int| 0 <= k < earlier.len() && earlier[k] == x;
                        assert(ended[k] == x);
                    }
                    if ended.contains(x) && x != id {
                        let k = choose|k: int| 0 <= k < ended.len() && ended[k] == x;
                        assert(earlier[k] == x);
                    }
                }
            }
        } else {
            assert(before[i].id == m.tasks[i].id);
            assert(m.tasks[i].id != id);
        }
    }
}

/// Taking the results of tasks marks those tasks and changes nothing else.
pub proof fn law_taking_results_only_marks(m: ManagerModel, ids: Seq<Seq<char>>, i: int)
    requires
        m.wf(),
        0 <= i < m.tasks.len(),
    ensures
        ({
            let after = collected(m.tasks, ids)[i];
            let t = m.tasks[i];
            &&& collected(m.tasks, ids).len() == m.tasks.len()
            &&& same_task(t, after)
            &&& after.status == t.status
            &&& after.result == t.result
            &&& after.error == t.error
            &&& after.has_place == t.has_place
            &&& after.has_worker_turn == t.has_worker_turn
            &&& after.collected <==> t.collected || ids.contains(t.id)
        }),
{
    lemma_collected(m, ids);
}

/// The results that nobody has taken are those of the tasks that are not marked, in the order of
/// the tasks.
pub proof fn law_untaken_results_are_named(front: Seq<TaskModel>, t: TaskModel)
    ensures
        uncollected(Seq::empty()).len() == 0,
        t.collected ==> uncollected(front.push(t)) == uncollected(front),
        !t.collected ==> uncollected(front.push(t)) == uncollected(front).push(t.id),
{
    assert(front.push(t).drop_last() =~= front);
}

/// The reports on some tasks come in the order in which the tasks are named, each on the task of
/// its name.
pub proof fn law_reports_come_as_named(m: ManagerModel, ids: Seq<Seq<char>>, k: int, i: int)
    requires
        m.wf(),
        0 <= k < ids.len(),
        0 <= i < m.tasks.len(),
        m.tasks[i].id == ids[k],
    ensures
        reports(m.tasks, ids).len() == ids.len(),
        reports(m.tasks, ids)[k] == m.tasks[i].snapshot(),
{
    lemma_find_task(m.tasks, ids[k]);
    let j = find_task(m.tasks, ids[k])->0;
    if i < j {
        assert(m.tasks[i].id != m.tasks[j].id);
    } else if j < i {
        assert(m.tasks[j].id != m.tasks[i].id);
    }
}

/// Asking for tasks fails with the first name that no task has.
pub proof fn law_unknown_names_are_told(
    tasks: Seq<TaskModel>,
    known: Seq<Seq<char>>,
    unknown: Seq<char>,
    rest: Seq<Seq<char>>,
)
    requires
        forall|k: int|
            0 <= k < known.len() ==> exists|i: int|
                0 <= i < tasks.len() && (#[trigger] tasks[i]).id == #[trigger] known[k],
        forall|i: int| 0 <= i < tasks.len() ==> (#[trigger] tasks[i]).id != unknown,
    ensures
        first_unknown(tasks, known) is None,
        first_unknown(tasks, known.push(unknown) + rest) == Some(unknown),
    decreases known.len(),
{
    let all = known.push(unknown) + rest;
    lemma_find_task(tasks, unknown);
    if known.len() == 0 {
        assert(all[0] == unknown);
    } else {
        let tail = known.drop_first();
        assert(exists|i: int| 0 <= i < tasks.len() && (#[trigger] tasks[i]).id == known[0]);
        lemma_find_task(tasks, known[0]);
        assert forall|k: int| 0 <= k < tail.len() implies exists|i: int|
            0 <= i < tasks.len() && (#[trigger] tasks[i]).id == #[trigger] tail[k] by {
            assert(tail[k] == known[k + 1]);
            assert(exists|i: int| 0 <= i < tasks.len() && (#[trigger] tasks[i]).id == known[k + 1]);
        }
        law_unknown_names_are_told(tasks, tail, unknown, rest);
        assert(all.drop_first() =~= tail.push(unknown) + rest);
        assert(all[0] == known[0]);
    }
}

/// The tasks that are started are those that were queued and run now; each is started as it was
/// given, and no other task changes how it goes.
pub proof fn law_started_tasks_run(m: ManagerModel, i: int)
    requires
        m.wf(),
        0 <= i < m.tasks.len(),
    ensures
        ({
            let before = m.tasks[i];
            let after = m.scheduled().tasks[i];
            let begins = before.status is Queued && after.status is Running;
            &&& m.scheduled().tasks.len() == m.tasks.len()
            &&& same_task(before, after)
            &&& after.result == before.result
            &&& after.error == before.error
            &&& after.collected == before.collected
            &&& !begins ==> after.status == before.status
            &&& begins ==> after.has_place
            &&& begins <==> exists|k: int|
                0 <= k < m.started().len() && (#[trigger] m.started()[k]).task_id == before.id
            &&& forall|k: int|
                0 <= k < m.started().len() && (#[trigger] m.started()[k]).task_id == before.id
                    ==> m.started()[k].task == before.task && m.started()[k].role == before.role
        }),
{
    lemma_settled(m);
    let line = m.settled();
    let n = line.admitted();
    assert forall|k: int| 0 <= k < line.waiting.len() implies 0 <= #[trigger] line.waiting[k]
        < line.tasks.len() && line.tasks[line.waiting[k]].asking()
        && line.tasks[line.waiting[k]].wf() by {
        assert(line.tasks[line.waiting[k]].asking());
    }
    lemma_set_running(line.tasks, line.waiting, n);
    let after = m.scheduled().tasks[i];
    let some = line.waiting.take(n as int);
    assert(line.tasks[i].id == m.tasks[i].id);
    if some.contains(i) {
        let k = choose|k: int| 0 <= k < some.len() && some[k] == i;
        assert(line.waiting[k] == i);
        assert(line.tasks[line.waiting[k]].asking());
        assert(m.started()[k].task_id == m.tasks[i].id);
    }
    assert forall|k: int|
        0 <= k < m.started().len() && (#[trigger] m.started()[k]).task_id
            == m.tasks[i].id implies m.started()[k].task == m.tasks[i].task && m.started()[k].role
        == m.tasks[i].role && some.contains(i) by {
        let j = line.waiting[k];
        assert(0 <= j < line.tasks.len());
        assert(line.tasks[j].id == m.tasks[j].id);
        if i < j {
            assert(m.tasks[i].id != m.tasks[j].id);
        } else if j < i {
            assert(m.tasks[j].id != m.tasks[i].id);
        }
        assert(some[k] == j);
    }
}

} // verus!
