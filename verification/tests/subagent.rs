use deepcode::event::{AgentCommand, AgentEvent};
use deepcode::subagent::{
    AgentRole, AgentRuntimeSettings, AgentTaskManager, TaskStatus, ToolError,
};
use deepcode::subagent_run::{
    cleanup_approval_routes, panic_error, panic_message, route_nested_command, spawn_request,
    task_ids, AgentExit, ApprovalRoutes, SubagentRun,
};
use deepcode::types::{ModelProfile, ReasoningEffort, Usage};
use serde_json::Value;

fn json(text: &str) -> Value {
    serde_json::from_str(text).unwrap()
}

fn model_profile() -> ModelProfile {
    ModelProfile {
        id: "test-model".to_string(),
        provider: "test".to_string(),
        display_name: None,
        context_window: 16_384,
        max_output_tokens: 1_024,
        reasoning_efforts: vec![ReasoningEffort::Off, ReasoningEffort::High],
    }
}

fn manager(max_concurrent: usize) -> AgentTaskManager {
    AgentTaskManager::new(
        AgentRuntimeSettings {
            model: "test-model".to_string(),
            reasoning_effort: Some("off".to_string()),
            default_subagent_model: None,
            default_subagent_reasoning_effort: None,
        },
        vec![model_profile()],
        max_concurrent,
    )
}

fn spawn(manager: &mut AgentTaskManager, id: &str, role: AgentRole) {
    manager
        .spawn(&format!("task {id}"), role, None, None, id.to_string())
        .unwrap();
}

fn usage() -> Usage {
    Usage {
        input_tokens: 10,
        output_tokens: 2,
        cached_input_tokens: 3,
        cache_miss_input_tokens: 7,
        reasoning_output_tokens: 1,
    }
}

/// Runs a task that answers "done" to its end.
fn complete(manager: &mut AgentTaskManager, id: &str) {
    let mut run = SubagentRun::new(id.to_string());
    let reaction = run.take_event(AgentEvent::TurnComplete(usage()));
    let counts = reaction.usage.unwrap();
    assert!(manager.can_record_usage(id, &counts));
    manager.record_usage(id, &counts);
    run.take_event(AgentEvent::AgentFinished { final_message: "done".to_string() });
    run.conclude(AgentExit::Clean);
    manager.finish(id, run.status, run.result, run.error);
    manager.release(id);
}

fn ids(names: &[&str]) -> Vec<String> {
    names.iter().map(|name| name.to_string()).collect()
}

fn started(manager: &mut AgentTaskManager) -> Vec<String> {
    manager
        .schedule()
        .into_iter()
        .map(|task| task.task_id)
        .collect()
}

#[test]
fn explorers_run_concurrently_and_report_complete_usage() {
    let mut manager = manager(3);
    for id in ["a", "b", "c"] {
        spawn(&mut manager, id, AgentRole::Explorer);
    }
    assert_eq!(started(&mut manager), ids(&["a", "b", "c"]));
    assert!(manager.wait(&ids(&["a", "b", "c"])).unwrap().is_none());
    for id in ["a", "b", "c"] {
        complete(&mut manager, id);
    }

    let results = manager.wait(&ids(&["a", "b", "c"])).unwrap().unwrap();

    assert!(results
        .iter()
        .all(|result| result.status == TaskStatus::Completed));
    assert!(results.iter().all(|result| result.usage.input_tokens == 10
        && result.usage.output_tokens == 2
        && result.usage.reasoning_output_tokens == 1));
    assert!(manager.uncollected_task_ids().is_empty());
}

#[test]
fn workers_are_serialized_even_when_agent_capacity_is_higher() {
    let mut manager = manager(3);
    spawn(&mut manager, "one", AgentRole::Worker);
    spawn(&mut manager, "two", AgentRole::Worker);

    assert_eq!(started(&mut manager), ids(&["one"]));
    assert!(started(&mut manager).is_empty());
    complete(&mut manager, "one");
    assert_eq!(started(&mut manager), ids(&["two"]));
}

#[test]
fn cancellation_marks_running_children_and_returns_promptly() {
    let mut manager = manager(1);
    spawn(&mut manager, "long", AgentRole::Explorer);
    started(&mut manager);

    let outcome = manager.cancel(&ids(&["long"])).unwrap();

    assert_eq!(outcome.results[0].status, TaskStatus::Cancelled);
    assert_eq!(outcome.ended, ids(&["long"]));
}

#[test]
fn task_model_override_is_validated_before_spawn() {
    let mut manager = manager(1);

    let error = manager
        .spawn(
            "inspect",
            AgentRole::Explorer,
            Some("missing-model"),
            None,
            "x".to_string(),
        )
        .unwrap_err();

    assert!(error.text().contains("Unknown subagent model"));
    assert!(!manager.has_task("x"));
}

#[test]
fn queued_workers_do_not_starve_explorers() {
    let mut manager = manager(2);
    spawn(&mut manager, "w1", AgentRole::Worker);
    spawn(&mut manager, "w2", AgentRole::Worker);
    spawn(&mut manager, "e", AgentRole::Explorer);

    assert_eq!(started(&mut manager), ids(&["w1", "e"]));
}

#[test]
fn parent_write_barrier_waits_for_worker_completion() {
    let mut manager = manager(2);
    assert!(manager.workers_idle());
    spawn(&mut manager, "worker", AgentRole::Worker);
    started(&mut manager);

    assert!(!manager.workers_idle());
    complete(&mut manager, "worker");
    assert!(manager.workers_idle());
    let results = manager.wait(&ids(&["worker"])).unwrap().unwrap();
    assert_eq!(results[0].status, TaskStatus::Completed);
}

#[test]
fn provider_panic_is_reported_instead_of_leaving_task_running() {
    let mut manager = manager(1);
    spawn(&mut manager, "panic", AgentRole::Explorer);
    started(&mut manager);
    let mut run = SubagentRun::new("panic".to_string());
    run.conclude(AgentExit::Crashed { error: "intentional provider panic".to_string() });
    manager.finish("panic", run.status, run.result, run.error);
    manager.release("panic");

    let results = manager.wait(&ids(&["panic"])).unwrap().unwrap();

    assert_eq!(results[0].status, TaskStatus::Failed);
    assert!(results[0]
        .error
        .as_deref()
        .is_some_and(|error| error.contains("runtime task failed")));
}

#[test]
fn interrupt_all_reports_interrupted_status() {
    let mut manager = manager(1);
    spawn(&mut manager, "long", AgentRole::Explorer);
    started(&mut manager);

    manager.interrupt_all();
    let results = manager.wait(&ids(&["long"])).unwrap().unwrap();

    assert_eq!(results[0].status, TaskStatus::Interrupted);
    assert_eq!(
        results[0].error.as_deref(),
        Some("Interrupted with parent agent")
    );
}

#[test]
fn reset_removes_previous_parent_turn_tasks() {
    let mut manager = manager(1);
    spawn(&mut manager, "inspect", AgentRole::Explorer);
    started(&mut manager);
    complete(&mut manager, "inspect");
    assert_eq!(manager.all_task_ids().len(), 1);

    manager.reset_for_parent_turn();

    assert!(manager.all_task_ids().is_empty());
}

#[test]
fn refreshed_models_are_available_to_subagents() {
    let mut manager = manager(1);
    let mut refreshed = model_profile();
    refreshed.id = "refreshed-model".to_string();
    manager.update_models(vec![model_profile(), refreshed]);
    manager.update_main_model("refreshed-model".to_string());

    spawn(&mut manager, "inspect", AgentRole::Explorer);
    started(&mut manager);
    complete(&mut manager, "inspect");
    let results = manager.wait(&ids(&["inspect"])).unwrap().unwrap();

    assert_eq!(results[0].model, "refreshed-model");
    assert_eq!(results[0].status, TaskStatus::Completed);
}

#[test]
fn task_cleanup_removes_stale_approval_routes() {
    let mut routes = ApprovalRoutes::new();
    routes.register("request", "task");

    cleanup_approval_routes(&mut routes, "task");

    let command = AgentCommand::FileChangePreviewResponse {
        request_id: "request".to_string(),
        approved: true,
    };
    assert_eq!(route_nested_command(&mut routes, &command), None);
}

#[test]
fn answers_find_the_task_that_asked_once() {
    let mut routes = ApprovalRoutes::new();
    routes.register("r1", "t1");
    routes.register("r2", "t2");
    let command = AgentCommand::FileChangePreviewResponse {
        request_id: "r2".to_string(),
        approved: false,
    };
    assert_eq!(route_nested_command(&mut routes, &command), Some("t2".to_string()));
    assert_eq!(route_nested_command(&mut routes, &command), None);
    assert_eq!(route_nested_command(&mut routes, &AgentCommand::Interrupt), None);
}

#[test]
fn panic_messages_preserve_string_payloads() {
    let literal: Box<dyn std::any::Any + Send> = Box::new("specific failure");
    assert_eq!(
        panic_message(
            literal.downcast_ref::<&str>().copied(),
            literal.downcast_ref::<String>()
        ),
        "specific failure"
    );
    let owned: Box<dyn std::any::Any + Send> = Box::new("owned failure".to_string());
    assert_eq!(
        panic_message(
            owned.downcast_ref::<&str>().copied(),
            owned.downcast_ref::<String>()
        ),
        "owned failure"
    );
    assert_eq!(panic_message(None, None), "unknown panic payload");
    assert_eq!(panic_error("x"), "Subagent scheduler panicked: x");
}

#[test]
fn roles_are_named() {
    assert_eq!(AgentRole::parse(None).unwrap(), AgentRole::Explorer);
    assert_eq!(AgentRole::parse(Some("worker")).unwrap(), AgentRole::Worker);
    assert_eq!(
        AgentRole::parse(Some("boss")).unwrap_err().text(),
        "Tool execution error: spawn_agent -- Unknown agent role 'boss'; expected explorer or worker"
    );
    assert!(AgentRole::Explorer.system_prompt().contains("read-only"));
}

#[test]
fn a_stopped_task_stays_stopped() {
    let mut manager = manager(1);
    spawn(&mut manager, "a", AgentRole::Explorer);
    started(&mut manager);
    manager.cancel_all();
    manager.finish("a", TaskStatus::Completed, Some("late".to_string()), None);
    let results = manager.wait(&ids(&["a"])).unwrap().unwrap();
    assert_eq!(results[0].status, TaskStatus::Cancelled);
}

#[test]
fn a_run_without_an_end_has_failed() {
    let mut run = SubagentRun::new("t".to_string());
    run.conclude(AgentExit::Clean);
    assert_eq!(run.status, TaskStatus::Failed);
    assert_eq!(
        run.error.as_deref(),
        Some("Subagent event stream closed before a terminal event")
    );
    assert!(matches!(
        run.completed_event(),
        AgentEvent::SubagentCompleted { result, .. }
            if result == "Subagent event stream closed before a terminal event"
    ));
    let mut late = SubagentRun::new("t".to_string());
    late.conclude(AgentExit::TimedOut);
    assert_eq!(late.error.as_deref(), Some("Subagent cleanup timed out"));
}

#[test]
fn task_ids_are_read_from_the_input() {
    assert_eq!(
        task_ids(&json(r#"{"task_ids": ["a", "b"]}"#), "wait_agents").unwrap(),
        ids(&["a", "b"])
    );
    assert!(task_ids(&json("{}"), "wait_agents").is_err());
}

#[test]
fn spawn_requests_need_a_task() {
    let request = spawn_request(&json(r#"{"task": "look", "role": "worker"}"#)).unwrap();
    assert_eq!(request.task, "look");
    assert_eq!(request.role, AgentRole::Worker);
    let error: ToolError = spawn_request(&json("{}")).unwrap_err();
    assert_eq!(error.message, "Missing 'task' parameter");
}

#[test]
fn unknown_tasks_cannot_be_waited_for() {
    let mut manager = manager(1);
    assert!(manager.wait(&ids(&["nobody"])).is_err());
    assert!(manager.cancel(&ids(&["nobody"])).is_err());
}

#[test]
fn places_are_given_in_the_order_of_asking() {
    let mut manager = manager(1);
    spawn(&mut manager, "w1", AgentRole::Worker);
    assert_eq!(started(&mut manager), ids(&["w1"]));
    spawn(&mut manager, "w2", AgentRole::Worker);
    spawn(&mut manager, "e1", AgentRole::Explorer);
    spawn(&mut manager, "e2", AgentRole::Explorer);
    assert!(started(&mut manager).is_empty());

    complete(&mut manager, "w1");
    assert_eq!(started(&mut manager), ids(&["e1"]));
    spawn(&mut manager, "e3", AgentRole::Explorer);
    complete(&mut manager, "e1");
    assert_eq!(started(&mut manager), ids(&["e2"]));
    complete(&mut manager, "e2");
    assert_eq!(started(&mut manager), ids(&["w2"]));
    complete(&mut manager, "w2");
    assert_eq!(started(&mut manager), ids(&["e3"]));
}

#[test]
fn a_cancelled_task_leaves_the_line() {
    let mut manager = manager(1);
    spawn(&mut manager, "e1", AgentRole::Explorer);
    assert_eq!(started(&mut manager), ids(&["e1"]));
    spawn(&mut manager, "w1", AgentRole::Worker);
    spawn(&mut manager, "e2", AgentRole::Explorer);
    spawn(&mut manager, "w2", AgentRole::Worker);
    manager.cancel(&ids(&["w1"])).unwrap();
    manager.release("w1");

    complete(&mut manager, "e1");
    assert_eq!(started(&mut manager), ids(&["e2"]));
    complete(&mut manager, "e2");
    assert_eq!(started(&mut manager), ids(&["w2"]));
}

#[test]
fn explorers_only_read() {
    assert!(AgentRole::Explorer.reads_only());
    assert!(!AgentRole::Worker.reads_only());
}
