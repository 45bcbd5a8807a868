use deepcode::agent_loop::{
    handle_busy_command, AgentLoop, BusyControl, LoopAction, PlanFollowUp,
};
use deepcode::event::{AgentCommand, AgentEvent};
use deepcode::llm_response::{ResponseCollector, StreamedResponse, ToolCall};
use deepcode::permission_handler::{
    wait_for_file_preview_response, wait_for_permission_response, FilePreviewOutcome,
    PermissionOutcome,
};
use deepcode::plan_executor::{
    check_plan_text, check_resolved_plan_path, check_saved_plan_path, is_managed_plan_filename,
    plan_file_name, reject_symlink, wait_for_plan_response, PlanGeneration, PlanInput,
    PlanMachine, PlanStage,
};
use deepcode::plan_review::{PlanDecision, PlanReview, ReviewInput, ReviewStage};
use deepcode::request::{input_budget, Capabilities};
use deepcode::subagent::{AgentRole, AgentRuntimeSettings, AgentTaskManager, TaskStatus};
use deepcode::turn_executor::{ToolOutcome, TurnInput, TurnMachine, TurnStage};
use deepcode::types::{
    clone_messages, ApprovalScope, ContentBlock, Decision, FileChangePreview, FinishReason,
    Message, ModelProfile, PermissionEvaluation, ReasoningEffort, Role, StreamDelta, ToolSafety,
    Usage,
};
use serde_json::Value;
use std::collections::VecDeque;

const READ_ONLY: ToolSafety = ToolSafety {
    is_read_only: true,
    is_concurrency_safe: true,
    requires_approval: false,
    is_destructive: false,
};
const SAFE_MUTATION: ToolSafety = ToolSafety {
    is_read_only: false,
    is_concurrency_safe: false,
    requires_approval: true,
    is_destructive: false,
};
const DESTRUCTIVE: ToolSafety = ToolSafety {
    is_read_only: false,
    is_concurrency_safe: false,
    requires_approval: true,
    is_destructive: true,
};

#[derive(PartialEq)]
enum Script {
    ToolLoop(Vec<(&'static str, &'static str, &'static str)>),
    Refusal,
    Pending,
    RepeatingFailure { recover: bool, name: &'static str, input: &'static str },
    Delegating,
}

/// The surroundings of an agent: a model that follows a script, tools, a policy, plan files.
struct World {
    script: Script,
    requests: usize,
    executions: usize,
    largest_batch: usize,
    tools: Vec<&'static str>,
    commands: VecDeque<AgentCommand>,
    events: Vec<AgentEvent>,
    files: Vec<(String, String)>,
    answer_reviews: Option<bool>,
    answer_permissions: Option<bool>,
    answer_plans: Option<bool>,
    feedback: Option<(&'static str, &'static str)>,
    edit: Option<&'static str>,
    symlinked: bool,
    ids: usize,
    manager: Option<AgentTaskManager>,
    interrupt_children: bool,
}

fn usage_of(input_tokens: usize, output_tokens: usize) -> Usage {
    Usage {
        input_tokens,
        output_tokens,
        cached_input_tokens: 0,
        cache_miss_input_tokens: 0,
        reasoning_output_tokens: 0,
    }
}

fn call_deltas(id: &str, name: &str, input: &str) -> Vec<StreamDelta> {
    vec![
        StreamDelta::ToolUseStart {
            id: id.to_string(),
            name: name.to_string(),
            index: None,
            input_delta: None,
        },
        StreamDelta::ToolUseInput {
            id: id.to_string(),
            index: None,
            input_delta: input.to_string(),
        },
        StreamDelta::ToolUseEnd { id: id.to_string(), index: None },
    ]
}

fn said(text: &str) -> Vec<StreamDelta> {
    vec![
        StreamDelta::TextDelta(text.to_string()),
        StreamDelta::Finished(FinishReason::Stop),
    ]
}

fn texts(messages: &[Message], role: Role, wanted: &[&str]) -> bool {
    messages.iter().any(|message| {
        message.role == role
            && message.content.iter().any(|block| match block {
                ContentBlock::Text { text } => wanted.iter().all(|part| text.contains(part)),
                ContentBlock::ToolResult { content, .. } => {
                    wanted.iter().all(|part| content.contains(part))
                }
                _ => false,
            })
    })
}

fn schema_of(tool: &str) -> Value {
    let field = if tool == "shell" { "command" } else { "value" };
    let text = if tool == "spawn_agent" {
        r#"{"type": "object", "required": ["task"]}"#.to_string()
    } else {
        format!(r#"{{"type": "object", "properties": {{"{field}": {{"type": "string"}}}}, "required": ["{field}"]}}"#)
    };
    serde_json::from_str(&text).unwrap()
}

fn safety_of(tool: &str) -> ToolSafety {
    match tool {
        "preview_tool" => SAFE_MUTATION,
        "shell" | "preflight_reject_tool" => DESTRUCTIVE,
        _ => READ_ONLY,
    }
}

impl World {
    fn new(script: Script, tools: Vec<&'static str>) -> Self {
        World {
            script,
            requests: 0,
            executions: 0,
            largest_batch: 0,
            tools,
            commands: VecDeque::new(),
            events: Vec::new(),
            files: Vec::new(),
            answer_reviews: None,
            answer_permissions: None,
            answer_plans: None,
            feedback: None,
            edit: None,
            symlinked: false,
            ids: 0,
            manager: None,
            interrupt_children: false,
        }
    }

    fn fresh_id(&mut self) -> String {
        self.ids += 1;
        format!("00000000-0000-4000-8000-{:012}", self.ids)
    }

    /// What the model streams, or nothing where it never answers.
    fn respond(&mut self, messages: &[Message], with_tools: bool) -> Option<Vec<StreamDelta>> {
        self.requests += 1;
        let deltas = match &self.script {
            Script::Pending => return None,
            Script::Refusal => vec![
                StreamDelta::TextDelta("I cannot help with that.".to_string()),
                StreamDelta::Usage(usage_of(10, 5)),
                StreamDelta::Finished(FinishReason::ContentFilter),
                StreamDelta::Finished(FinishReason::Stop),
            ],
            Script::ToolLoop(calls) => {
                if messages.iter().any(|message| message.role == Role::Tool) {
                    vec![
                        StreamDelta::TextDelta("done".to_string()),
                        StreamDelta::Usage(usage_of(10, 5)),
                        StreamDelta::Finished(FinishReason::Stop),
                    ]
                } else {
                    let mut deltas = Vec::new();
                    for (id, name, input) in calls {
                        deltas.extend(call_deltas(id, name, input));
                    }
                    deltas.push(StreamDelta::Usage(usage_of(10, 5)));
                    deltas.push(StreamDelta::Finished(FinishReason::ToolCalls));
                    deltas
                }
            }
            Script::RepeatingFailure { recover, name, input } => {
                if !with_tools {
                    said("I could not complete the repeated operation.")
                } else if *recover && self.requests == 4 {
                    call_deltas("recovery_call", "echo_tool", r#"{"value":"recovered"}"#)
                } else if *recover && self.requests >= 5 {
                    said("Recovered with a different approach.")
                } else {
                    call_deltas(&format!("repeat_call_{}", self.requests), name, input)
                }
            }
            Script::Delegating => {
                if self.requests == 1 {
                    call_deltas(
                        "spawn_1",
                        "spawn_agent",
                        r#"{"task":"inspect","role":"explorer"}"#,
                    )
                } else {
                    assert!(texts(
                        messages,
                        Role::User,
                        &["Subagents have finished", "child evidence"]
                    ));
                    said("final after child")
                }
            }
        };
        Some(deltas)
    }

    fn stream(&mut self, title: bool, deltas: Vec<StreamDelta>) -> StreamedResponse {
        let mut collector = ResponseCollector::new(title);
        assert!(collector.fits(&deltas));
        collector.accept(deltas);
        self.emit(collector.take_events());
        let response = collector.finish();
        self.emit(collector.take_events());
        response
    }

    fn emit(&mut self, events: Vec<AgentEvent>) {
        for event in events {
            match &event {
                AgentEvent::FileChangePreviewNeeded { request_id, .. } => {
                    if let Some(approved) = self.answer_reviews {
                        assert_eq!(self.executions, 0);
                        self.commands.push_back(AgentCommand::FileChangePreviewResponse {
                            request_id: request_id.clone(),
                            approved,
                        });
                    }
                }
                AgentEvent::PermissionNeeded { request_id, .. } => {
                    if let Some(approved) = self.answer_permissions {
                        self.commands.push_back(AgentCommand::PermissionResponse {
                            request_id: request_id.clone(),
                            approved,
                            scope: ApprovalScope::Once,
                        });
                    }
                }
                AgentEvent::PlanApprovalNeeded { request_id, plan_path, .. } => {
                    let request_id = request_id.clone();
                    let path = plan_path.clone();
                    if let Some((draft, feedback)) = self.feedback.take() {
                        self.write(&path, draft);
                        self.commands.push_back(AgentCommand::PlanFeedback {
                            request_id,
                            feedback: feedback.to_string(),
                        });
                    } else {
                        if let Some(edit) = self.edit.take() {
                            self.write(&path, edit);
                        }
                        if let Some(approved) = self.answer_plans {
                            self.commands
                                .push_back(AgentCommand::PlanResponse { request_id, approved });
                        }
                    }
                }
                _ => {}
            }
            self.events.push(event);
        }
    }

    fn write(&mut self, path: &str, text: &str) {
        self.files.retain(|(known, _)| known != path);
        self.files.push((path.to_string(), text.to_string()));
    }

    fn read(&self, path: &str) -> Result<String, String> {
        reject_symlink(path, self.symlinked)?;
        match self.files.iter().find(|(known, text)| known == path && text != "removed") {
            Some((_, text)) => check_plan_text(path, text.clone()),
            None => Err(format!("Cannot read plan '{path}': not found")),
        }
    }

    fn execute(&mut self, call: &ToolCall) -> ToolOutcome {
        match call.name.as_str() {
            "always_fail" => {
                self.executions += 1;
                ToolOutcome::Failed("always_fail: deterministic failure".to_string())
            }
            "shell" => {
                self.executions += 1;
                ToolOutcome::Completed("executed".to_string())
            }
            "spawn_agent" => {
                let manager = self.manager.as_mut().unwrap();
                manager
                    .spawn("inspect", AgentRole::Explorer, None, None, "child".to_string())
                    .unwrap();
                for task in manager.schedule() {
                    self.events.push(AgentEvent::SubagentStarted {
                        task_id: task.task_id,
                        task: task.task,
                    });
                }
                ToolOutcome::Completed("spawned".to_string())
            }
            _ => ToolOutcome::Completed(
                call.input["value"].as_str().unwrap_or("").to_string(),
            ),
        }
    }

    fn evaluate(&self, call: &ToolCall) -> PermissionEvaluation {
        let decision = match (call.name.as_str(), call.input["command"].as_str()) {
            ("shell", Some("rm -rf /")) => Decision::Forbidden,
            ("shell", _) | ("preview_tool", _) => Decision::Prompt,
            _ => Decision::Allow,
        };
        PermissionEvaluation {
            decision,
            justification: None,
            summary: "summary".to_string(),
            risk: "risk".to_string(),
            sandbox_policy: "workspace".to_string(),
        }
    }

    /// Runs one turn to its end.
    fn turn(&mut self, agent: &mut AgentLoop) {
        let state = agent.lend_state();
        let mut machine = TurnMachine::new(
            state,
            agent.model.clone(),
            agent.max_tokens,
            agent.context_window,
            self.manager.is_some(),
        );
        loop {
            let id = self.fresh_id();
            let input = match &machine.stage {
                TurnStage::Done => break,
                TurnStage::Barrier => self.barrier(),
                TurnStage::Estimate => TurnInput::Estimated { needs_compression: false },
                TurnStage::Compress => {
                    TurnInput::Compressed { messages: clone_messages(&machine.state.messages) }
                }
                TurnStage::Measure => {
                    TurnInput::Measured { current_tokens: 1, capabilities: all_capabilities() }
                }
                TurnStage::Generate { .. } => {
                    let messages = machine.request_messages();
                    let title = machine.state.session_title_pending;
                    let with_tools = machine.offers_tools();
                    match self.respond(&messages, with_tools) {
                        Some(deltas) => {
                            TurnInput::Responded { response: self.stream(title, deltas) }
                        }
                        None => loop {
                            let command = self.commands.pop_front();
                            match handle_busy_command(&command, false) {
                                (BusyControl::Interrupt, _) => break TurnInput::Interrupted,
                                (BusyControl::Shutdown, _) => {
                                    break TurnInput::ShutdownRequested
                                }
                                (BusyControl::Continue, notice) => {
                                    self.emit(notice.into_iter().collect())
                                }
                            }
                        },
                    }
                }
                TurnStage::Normalize { .. } => {
                    TurnInput::Normalized { messages: clone_messages(&machine.state.messages) }
                }
                TurnStage::NextCall => TurnInput::Advance,
                TurnStage::Lookup => {
                    let name = machine.current_call().name;
                    if self.tools.iter().any(|tool| *tool == name) {
                        TurnInput::ToolFound { schema: schema_of(&name), safety: safety_of(&name) }
                    } else {
                        TurnInput::ToolMissing
                    }
                }
                TurnStage::Preflight { .. } => {
                    if machine.current_call().name == "preflight_reject_tool" {
                        TurnInput::PreflightRejected {
                            message: "blocked by hard test policy".to_string(),
                        }
                    } else {
                        TurnInput::PreflightPassed
                    }
                }
                TurnStage::Workers => TurnInput::WorkersIdle,
                TurnStage::Check => {
                    TurnInput::Evaluated { evaluation: self.evaluate(&machine.current_call()) }
                }
                TurnStage::Preview { .. } => {
                    if machine.current_call().name == "preview_tool" {
                        TurnInput::PreviewReady {
                            preview: FileChangePreview {
                                path: "test.txt".to_string(),
                                before_exists: true,
                                before: "old\n".to_string(),
                                after: "new\n".to_string(),
                                unified_diff: "--- a/test.txt\n+++ b/test.txt\n@@ -1,1 +1,1 @@\n-old\n+new\n".to_string(),
                            },
                            is_noop: false,
                        }
                    } else {
                        TurnInput::NoPreview
                    }
                }
                TurnStage::Review { request_id, .. } => {
                    let request_id = request_id.clone();
                    loop {
                        let command = self.commands.pop_front();
                        let (outcome, notice) =
                            wait_for_file_preview_response(command, &request_id);
                        self.emit(notice.into_iter().collect());
                        match outcome {
                            Some(FilePreviewOutcome::Approved) => break TurnInput::ReviewApproved,
                            Some(FilePreviewOutcome::Denied) => break TurnInput::ReviewDenied,
                            Some(FilePreviewOutcome::Interrupted) => break TurnInput::Interrupted,
                            Some(FilePreviewOutcome::Shutdown) => {
                                break TurnInput::ShutdownRequested
                            }
                            None => {}
                        }
                    }
                }
                TurnStage::RunPreviewed { .. } => {
                    self.executions += 1;
                    TurnInput::Executed { outcome: ToolOutcome::Completed("applied".to_string()) }
                }
                TurnStage::Permission { request_id, .. } => {
                    let request_id = request_id.clone();
                    loop {
                        let command = self.commands.pop_front();
                        let (outcome, notice) = wait_for_permission_response(command, &request_id);
                        self.emit(notice.into_iter().collect());
                        match outcome {
                            Some(PermissionOutcome::Approved(scope)) => {
                                break TurnInput::PermissionApproved { scope }
                            }
                            Some(PermissionOutcome::Denied) => break TurnInput::PermissionDenied,
                            Some(PermissionOutcome::Interrupted) => break TurnInput::Interrupted,
                            Some(PermissionOutcome::Shutdown) => {
                                break TurnInput::ShutdownRequested
                            }
                            None => {}
                        }
                    }
                }
                TurnStage::Record { .. } => TurnInput::Recorded,
                TurnStage::Run { .. } => {
                    let call = machine.current_call();
                    TurnInput::Executed { outcome: self.execute(&call) }
                }
                TurnStage::Batch { .. } => {
                    self.largest_batch = self.largest_batch.max(machine.batch.len());
                    let outcomes =
                        machine.batch.iter().map(|waiting| self.execute(&waiting.call)).collect();
                    TurnInput::BatchExecuted { outcomes }
                }
            };
            machine.step(input, id);
            self.emit(machine.take_events());
        }
        let interrupted = machine.interrupted;
        let shutdown = machine.shutdown_requested;
        agent.return_state(machine.state);
        let after = agent.turn_ended(interrupted, shutdown);
        if after.interrupt_subagents {
            if let Some(manager) = &mut self.manager {
                manager.interrupt_all();
            }
        }
        self.emit(agent.take_events());
    }

    /// Waits for the subagents whose results were not collected.
    fn barrier(&mut self) -> TurnInput {
        let interrupt = self.interrupt_children;
        let Some(manager) = &mut self.manager else {
            return TurnInput::BarrierClear;
        };
        let pending = manager.uncollected_task_ids();
        if pending.is_empty() {
            return TurnInput::BarrierClear;
        }
        if interrupt {
            return TurnInput::Interrupted;
        }
        match manager.wait(&pending).unwrap() {
            None => {
                let count = pending.len();
                manager.finish(
                    "child",
                    TaskStatus::Completed,
                    Some("child evidence".to_string()),
                    None,
                );
                manager.release("child");
                TurnInput::BarrierWaiting { count }
            }
            Some(results) => {
                let parts: Vec<String> =
                    results.iter().map(|result| result.result.clone().unwrap_or_default()).collect();
                TurnInput::BarrierCompleted { rendered: parts.join("\n") }
            }
        }
    }

    fn generate_plan(&mut self, agent: &AgentLoop, review: &mut PlanReview) -> ReviewInput {
        let state = review.lend_state();
        let mut machine =
            PlanMachine::new(state, agent.model.clone(), agent.max_tokens, agent.context_window);
        loop {
            let input = match &machine.stage {
                PlanStage::Done { .. } => break,
                PlanStage::Barrier => PlanInput::BarrierClear,
                PlanStage::Estimate => PlanInput::Estimated { needs_compression: false },
                PlanStage::Compress => {
                    PlanInput::Compressed { messages: clone_messages(&machine.state.messages) }
                }
                PlanStage::Measure => {
                    PlanInput::Measured { current_tokens: 1, capabilities: all_capabilities() }
                }
                PlanStage::Generate { .. } => {
                    let messages = clone_messages(&machine.state.messages);
                    match self.respond(&messages, true) {
                        Some(deltas) => {
                            PlanInput::Responded { response: self.stream(false, deltas) }
                        }
                        None => PlanInput::StreamFailed,
                    }
                }
                PlanStage::Normalize { .. } => {
                    PlanInput::Normalized { messages: clone_messages(&machine.state.messages) }
                }
                PlanStage::NextCall => PlanInput::Advance,
                PlanStage::Lookup => {
                    let name = machine.current_call().name;
                    if self.tools.iter().any(|tool| *tool == name) {
                        PlanInput::ToolFound { schema: schema_of(&name), safety: safety_of(&name) }
                    } else {
                        PlanInput::ToolMissing
                    }
                }
                PlanStage::Execute => {
                    let call = machine.current_call();
                    PlanInput::Executed { outcome: self.execute(&call) }
                }
            };
            machine.step(input);
            self.emit(machine.take_events());
        }
        let generation = match machine.stage {
            PlanStage::Done { generation } => generation,
            _ => PlanGeneration::Failed,
        };
        ReviewInput::Generated { state: machine.state, generation }
    }

    fn review(&mut self, agent: &mut AgentLoop, saved_path: Option<String>) {
        let state = agent.lend_state();
        let mut review = match saved_path {
            None => PlanReview::of_new_plan(state),
            Some(path) => PlanReview::of_saved_plan(state, path),
        };
        self.emit(review.take_events());
        loop {
            let id = self.fresh_id();
            let input = match &review.stage {
                ReviewStage::Done { .. } => break,
                ReviewStage::Prepare => {
                    ReviewInput::PathReady { path: format!("/plans/{}", plan_file_name(&id)) }
                }
                ReviewStage::Locate { saved_path } => {
                    ReviewInput::PathReady { path: saved_path.clone() }
                }
                ReviewStage::Generate => self.generate_plan(agent, &mut review),
                ReviewStage::Write => {
                    let (path, plan) = (review.plan_path.clone(), review.plan.clone());
                    self.write(&path, &plan);
                    ReviewInput::Written
                }
                ReviewStage::Ask { request_id } => {
                    let request_id = request_id.clone();
                    loop {
                        let command = self.commands.pop_front();
                        let (outcome, notice) = wait_for_plan_response(command, &request_id);
                        self.emit(notice.into_iter().collect());
                        if let Some(outcome) = outcome {
                            break ReviewInput::Answered { outcome };
                        }
                    }
                }
                ReviewStage::Restore
                | ReviewStage::ReadApproved
                | ReviewStage::ReadDiscussed { .. } => match self.read(&review.plan_path) {
                    Ok(plan) => ReviewInput::PlanRead { plan },
                    Err(message) => ReviewInput::FileFailed { message },
                },
            };
            review.step(input, id);
            self.emit(review.take_events());
        }
        let decision = match review.stage {
            ReviewStage::Done { decision } => decision,
            _ => PlanDecision::Failed,
        };
        agent.return_state(review.state);
        let follow_up = agent.handle_plan_decision(decision);
        self.emit(agent.take_events());
        if follow_up == PlanFollowUp::Act {
            self.turn(agent);
        }
    }

    fn run(&mut self, agent: &mut AgentLoop) {
        while let Some(command) = self.commands.pop_front() {
            let action = agent.command(Some(command));
            self.emit(agent.take_events());
            match action {
                LoopAction::Exit => break,
                LoopAction::StartTurn => self.turn(agent),
                LoopAction::StartPlan => self.review(agent, None),
                LoopAction::ResumePlan { plan_path } => self.review(agent, Some(plan_path)),
                _ => {}
            }
        }
    }

    fn has(&self, wanted: fn(&AgentEvent) -> bool) -> bool {
        self.events.iter().any(wanted)
    }

    fn finished_with(&self, message: &str) -> bool {
        self.events.iter().any(|event| {
            matches!(event, AgentEvent::AgentFinished { final_message } if final_message == message)
        })
    }

    fn told(&self, wanted: &str) -> bool {
        self.events
            .iter()
            .any(|event| matches!(event, AgentEvent::StatusUpdate { message } if message == wanted))
    }

    fn session_has(&self, role: Role, wanted: &[&str]) -> bool {
        self.events.iter().any(|event| match event {
            AgentEvent::SessionUpdated { messages } => texts(messages, role, wanted),
            _ => false,
        })
    }

    fn failed_with(&self, wanted: &str) -> bool {
        self.events.iter().any(|event| {
            matches!(event, AgentEvent::ToolCallFailed { error, .. } if error.contains(wanted))
        })
    }

    fn erred_with(&self, wanted: &str) -> bool {
        self.events.iter().any(|event| {
            matches!(event, AgentEvent::AgentError { message } if message.contains(wanted))
        })
    }
}

fn all_capabilities() -> Capabilities {
    Capabilities {
        reasoning_effort: true,
        reasoning_summary: true,
        reasoning_context: true,
        reasoning_display: true,
        verbosity: true,
        parallel_tool_calls: true,
        strict_tools: true,
        prompt_cache_key: true,
    }
}

fn agent() -> AgentLoop {
    AgentLoop::new(None, None, "test-model".to_string(), 128, 4096, None, false)
}

fn go(world: &mut World) {
    world.commands.push_back(AgentCommand::Process { message: "go".to_string() });
    let mut agent = agent();
    world.run(&mut agent);
}

fn plan(world: &mut World) {
    world.commands.push_back(AgentCommand::PlanProcess { message: "go".to_string() });
    let mut agent = agent();
    world.run(&mut agent);
}

fn echo_call() -> Script {
    Script::ToolLoop(vec![("call_1", "echo_tool", r#"{"value":"ok"}"#)])
}

fn test_agent() -> World {
    let mut world = World::new(echo_call(), vec!["echo_tool"]);
    go(&mut world);
    world
}

fn repeating(recover: bool, name: &'static str, input: &'static str) -> World {
    let mut world =
        World::new(Script::RepeatingFailure { recover, name, input }, vec![name, "echo_tool"]);
    go(&mut world);
    world
}

fn preview_agent(approved: bool) -> World {
    let mut world = World::new(
        Script::ToolLoop(vec![("call_1", "preview_tool", r#"{"value":"ok"}"#)]),
        vec!["preview_tool"],
    );
    world.answer_reviews = Some(approved);
    go(&mut world);
    world
}

fn permission_agent(approved: bool) -> World {
    let mut world = World::new(
        Script::ToolLoop(vec![("call_1", "shell", r#"{"command":"cargo check"}"#)]),
        vec!["shell"],
    );
    world.answer_permissions = Some(approved);
    go(&mut world);
    world
}

#[test]
fn refusal_is_reported_without_persisting_assistant_content() {
    let mut world = World::new(Script::Refusal, vec!["echo_tool"]);
    go(&mut world);

    assert!(world.has(|event| matches!(event, AgentEvent::AgentError { .. })));
    assert!(!world.has(|event| matches!(event, AgentEvent::AgentFinished { .. })));
    assert!(world.has(
        |event| matches!(event, AgentEvent::TextDelta(text) if text.contains("cannot help"))
    ));
    let latest = world
        .events
        .iter()
        .filter_map(|event| match event {
            AgentEvent::SessionUpdated { messages } => Some(messages),
            _ => None,
        })
        .next_back()
        .expect("the user message should update the session");
    assert!(latest.iter().all(|message| message.role != Role::Assistant));
}

#[test]
fn agent_executes_tool_and_finishes_with_result_context() {
    let world = test_agent();
    assert!(world.has(
        |event| matches!(event, AgentEvent::ToolCallCompleted { result, .. } if result == "ok")
    ));
    assert!(world.finished_with("done"));
}

#[test]
fn repeated_failure_guard_allows_one_recovery_round_before_stopping() {
    let world = repeating(false, "always_fail", r#"{"value":"same"}"#);
    assert_eq!(world.executions, 2);
    assert_eq!(world.requests, 5);
    assert!(world.told("Changing strategy after a repeated tool failure..."));
    assert!(world.session_has(
        Role::Tool,
        &["Do not retry the same tool with the same input again"]
    ));
    assert!(world.failed_with("Repeated-failure guard blocked"));
    assert!(world.finished_with("I could not complete the repeated operation."));
}

#[test]
fn repeated_failure_guard_keeps_tools_available_for_a_different_approach() {
    let world = repeating(true, "always_fail", r#"{"value":"same"}"#);
    assert_eq!(world.executions, 2);
    assert_eq!(world.requests, 5);
    assert!(world.told("Repeated call blocked; trying a different approach..."));
    assert!(world.has(|event| matches!(
        event,
        AgentEvent::ToolCallCompleted { name, result, .. }
            if name == "echo_tool" && result == "recovered"
    )));
    assert!(world.finished_with("Recovered with a different approach."));
}

#[test]
fn repeated_failure_guard_counts_deterministic_policy_denials() {
    let world = repeating(false, "shell", r#"{"command":"rm -rf /"}"#);
    assert_eq!(world.executions, 0);
    assert_eq!(world.requests, 5);
    assert!(world.session_has(
        Role::Tool,
        &["Permission denied", "Do not retry the same tool"]
    ));
    assert!(world.failed_with("Repeated-failure guard blocked"));
}

#[test]
fn tool_and_final_responses_both_report_usage() {
    let world = test_agent();
    let usage: Vec<_> = world
        .events
        .iter()
        .filter_map(|event| match event {
            AgentEvent::TurnComplete(usage) => Some((usage.input_tokens, usage.output_tokens)),
            _ => None,
        })
        .collect();
    assert_eq!(usage, vec![(10, 5), (10, 5)]);
}

#[test]
fn agent_reports_when_it_resumes_thinking_after_tools() {
    let world = test_agent();
    let tool_completed = world
        .events
        .iter()
        .position(|event| matches!(event, AgentEvent::ToolCallCompleted { .. }))
        .expect("expected tool completion");
    let thinking_after_tools = world
        .events
        .iter()
        .position(|event| {
            matches!(event, AgentEvent::StatusUpdate { message } if message == "Thinking after tools...")
        })
        .expect("expected thinking-after-tools status");
    assert!(tool_completed < thinking_after_tools);
}

#[test]
fn interrupt_stops_a_pending_turn() {
    let mut world = World::new(Script::Pending, vec!["echo_tool"]);
    world.commands.push_back(AgentCommand::Process { message: "go".to_string() });
    world.commands.push_back(AgentCommand::Interrupt);
    world.run(&mut agent());
    assert!(world.has(|event| matches!(event, AgentEvent::Interrupted)));
}

#[test]
fn agent_executes_read_only_tool_calls_in_parallel() {
    let mut world = World::new(
        Script::ToolLoop(vec![
            ("call_1", "delayed_echo", r#"{"value":"one","delay_ms":120}"#),
            ("call_2", "delayed_echo", r#"{"value":"two","delay_ms":120}"#),
            ("call_3", "delayed_echo", r#"{"value":"three","delay_ms":120}"#),
        ]),
        vec!["delayed_echo"],
    );
    go(&mut world);
    assert!(world.largest_batch > 1, "expected overlapping tool executions");
    assert_eq!(
        world
            .events
            .iter()
            .filter(|event| matches!(event, AgentEvent::ToolCallCompleted { .. }))
            .count(),
        3
    );
}

#[test]
fn parallel_tool_results_are_recorded_in_original_order() {
    let mut world = World::new(
        Script::ToolLoop(vec![
            ("call_1", "delayed_echo", r#"{"value":"slow","delay_ms":120}"#),
            ("call_2", "delayed_echo", r#"{"value":"fast","delay_ms":10}"#),
            ("call_3", "delayed_echo", r#"{"value":"middle","delay_ms":60}"#),
        ]),
        vec!["delayed_echo"],
    );
    go(&mut world);
    let tool_message = world
        .events
        .iter()
        .filter_map(|event| match event {
            AgentEvent::SessionUpdated { messages } => messages.last(),
            _ => None,
        })
        .find(|message| message.role == Role::Tool && message.content.len() == 3)
        .expect("expected batched tool result message");
    let results: Vec<_> = tool_message
        .content
        .iter()
        .filter_map(|block| match block {
            ContentBlock::ToolResult { tool_use_id, content, .. } => {
                Some((tool_use_id.as_str(), content.as_str()))
            }
            _ => None,
        })
        .collect();
    assert_eq!(results, vec![("call_1", "slow"), ("call_2", "fast"), ("call_3", "middle")]);
}

#[test]
fn mutating_tool_call_flushes_parallel_batch_as_ordering_barrier() {
    let mut world = World::new(
        Script::ToolLoop(vec![
            ("call_1", "delayed_echo", r#"{"value":"one","delay_ms":60}"#),
            ("call_2", "delayed_echo", r#"{"value":"two","delay_ms":60}"#),
            ("call_3", "preview_tool", r#"{"value":"write"}"#),
            ("call_4", "delayed_echo", r#"{"value":"four","delay_ms":0}"#),
        ]),
        vec!["delayed_echo", "preview_tool"],
    );
    world.answer_reviews = Some(true);
    go(&mut world);
    assert_eq!(world.executions, 1);

    let completed: Vec<_> = world
        .events
        .iter()
        .filter_map(|event| match event {
            AgentEvent::ToolCallCompleted { id, .. } => Some(id.as_str()),
            _ => None,
        })
        .collect();
    assert_eq!(completed, vec!["call_1", "call_2", "call_3", "call_4"]);
    let preview_started = world
        .events
        .iter()
        .position(|event| matches!(event, AgentEvent::ToolCallStarted { id, .. } if id == "call_3"))
        .expect("expected preview tool start");
    let first_batch_done = world
        .events
        .iter()
        .position(
            |event| matches!(event, AgentEvent::ToolCallCompleted { id, .. } if id == "call_2"),
        )
        .expect("expected first parallel batch completion");
    assert!(first_batch_done < preview_started);
}

#[test]
fn agent_waits_for_file_preview_before_execution() {
    let world = preview_agent(true);
    assert!(world.has(|event| matches!(
        event,
        AgentEvent::FileChangePreviewNeeded { preview, .. } if preview.path == "test.txt"
    )));
    assert_eq!(world.executions, 1);
    assert!(world.has(
        |event| matches!(event, AgentEvent::ToolCallCompleted { result, .. } if result == "applied")
    ));
}

#[test]
fn agent_rejects_file_preview_without_execution() {
    let world = preview_agent(false);
    assert!(world.has(|event| matches!(event, AgentEvent::FileChangePreviewNeeded { .. })));
    assert_eq!(world.executions, 0);
    assert!(world.failed_with("rejected"));
}

#[test]
fn user_permission_denial_is_preserved_without_counting_as_a_tool_failure() {
    let world = permission_agent(false);
    assert!(world.has(|event| matches!(event, AgentEvent::PermissionNeeded { .. })));
    assert_eq!(world.executions, 0);
    assert!(world.has(|event| matches!(
        event,
        AgentEvent::ToolCallFailed { error, .. } if error == "Permission denied by user"
    )));
    assert!(world.events.iter().any(|event| match event {
        AgentEvent::SessionUpdated { messages } => messages.iter().any(|message| {
            message.content.iter().any(|block| matches!(
                block,
                ContentBlock::ToolResult { content, .. } if content == "Permission denied by user"
            ))
        }),
        _ => false,
    }));
    assert!(!world.session_has(Role::Tool, &["Do not retry the same tool"]));
}

#[test]
fn user_permission_approval_still_executes_the_tool() {
    let world = permission_agent(true);
    assert!(world.has(|event| matches!(event, AgentEvent::PermissionNeeded { .. })));
    assert_eq!(world.executions, 1);
    assert!(world.has(
        |event| matches!(event, AgentEvent::ToolCallCompleted { result, .. } if result == "executed")
    ));
}

#[test]
fn agent_plan_process_waits_for_approval_then_executes() {
    let mut world = World::new(echo_call(), vec!["echo_tool"]);
    world.answer_plans = Some(true);
    plan(&mut world);
    assert!(world.has(
        |event| matches!(event, AgentEvent::PlanApprovalNeeded { plan, .. } if plan == "done")
    ));
    assert!(world.finished_with("done"));
}

#[test]
fn resumed_plan_review_reloads_and_executes_the_latest_disk_plan() {
    let mut world = World::new(echo_call(), vec!["echo_tool"]);
    world.answer_plans = Some(true);
    let path = format!("/plans/{}", plan_file_name(&world.fresh_id()));
    world.write(&path, "# Persisted plan\n\n1. Inspect\n");
    world.edit = Some("# Edited after restart\n\n1. Execute the latest file\n");
    let mut agent = AgentLoop::new(
        None,
        Some(vec![Message::of_text(Role::User, "original task")]),
        "test-model".to_string(),
        128,
        4096,
        None,
        false,
    );
    world.commands.push_back(AgentCommand::ResumePlan { plan_path: path.clone() });
    world.run(&mut agent);

    assert!(world.events.iter().any(|event| matches!(
        event,
        AgentEvent::PlanApprovalNeeded { plan, plan_path, restored, .. }
            if *restored && plan == "# Persisted plan\n\n1. Inspect\n" && *plan_path == path
    )));
    assert!(world.session_has(
        Role::User,
        &["The user approved this plan", "# Edited after restart", "Execute the latest file"]
    ));
    assert!(world.finished_with("done"));
    assert!(!world.erred_with(""));
}

#[test]
fn plan_feedback_revises_in_the_same_turn_before_execution() {
    let mut world = World::new(echo_call(), vec!["echo_tool"]);
    world.answer_plans = Some(true);
    world.feedback = Some((
        "# Externally edited draft\n\n1. Preserve this disk edit\n",
        "Add an integration-test step",
    ));
    world.edit = Some("# Externally edited plan\n\n1. Execute the edited file\n");
    plan(&mut world);

    let paths: Vec<_> = world
        .events
        .iter()
        .filter_map(|event| match event {
            AgentEvent::PlanApprovalNeeded { plan_path, .. } => Some(plan_path.clone()),
            _ => None,
        })
        .collect();
    assert_eq!(paths.len(), 2);
    assert_eq!(paths[0], paths[1]);
    assert!(world.session_has(Role::User, &["Add an integration-test step"]));
    assert!(world.session_has(
        Role::User,
        &[
            "Continue discussing the proposed plan",
            "# Externally edited draft",
            "Preserve this disk edit"
        ]
    ));
    assert!(world.session_has(
        Role::User,
        &["The user approved this plan", "# Externally edited plan", "Execute the edited file"]
    ));
    assert!(world.finished_with("done"));
    assert!(!world.erred_with(""));
}

fn invalid_plan_file(edit: &'static str, symlinked: bool) -> World {
    let mut world = World::new(echo_call(), vec!["echo_tool"]);
    world.answer_plans = Some(true);
    world.edit = Some(edit);
    world.symlinked = symlinked;
    plan(&mut world);
    assert!(!world.session_has(Role::User, &["The user approved this plan"]));
    assert!(!world.has(|event| matches!(event, AgentEvent::AgentFinished { .. })));
    world
}

#[test]
fn missing_plan_file_is_rejected_before_execution() {
    assert!(invalid_plan_file("removed", false).erred_with("Cannot read plan"));
}

#[test]
fn empty_plan_file_is_rejected_before_execution() {
    assert!(invalid_plan_file(" \n", false).erred_with("is empty"));
}

#[test]
fn symlinked_plan_file_is_rejected_before_execution() {
    assert!(invalid_plan_file("# Replacement plan\n", true)
        .erred_with("symlinked plan storage path"));
}

#[test]
fn agent_rejects_plan_without_execution() {
    let mut world = World::new(echo_call(), vec!["echo_tool"]);
    world.answer_plans = Some(false);
    plan(&mut world);
    assert!(world.has(|event| matches!(event, AgentEvent::PlanApprovalNeeded { .. })));
    assert!(world.finished_with("Plan rejected."));
}

#[test]
fn persistent_plan_mode_routes_process_through_plan_review() {
    let mut world = World::new(echo_call(), vec!["echo_tool"]);
    world.answer_plans = Some(true);
    world.commands.push_back(AgentCommand::SetPlanMode { enabled: true });
    go(&mut world);
    assert!(world.has(|event| matches!(event, AgentEvent::PlanApprovalNeeded { .. })));
    assert!(world.finished_with("done"));
}

#[test]
fn planning_does_not_execute_mutating_tools_before_approval() {
    let mut world = World::new(
        Script::ToolLoop(vec![("call_1", "preview_tool", r#"{"value":"ok"}"#)]),
        vec!["preview_tool"],
    );
    world.answer_plans = Some(false);
    plan(&mut world);
    assert!(world.has(|event| matches!(
        event,
        AgentEvent::ToolCallFailed { name, error, .. }
            if name == "preview_tool" && error.contains("not allowed during planning")
    )));
    assert!(world.has(|event| matches!(event, AgentEvent::PlanApprovalNeeded { .. })));
    assert_eq!(world.executions, 0);
}

#[test]
fn agent_handles_invalid_tool_arguments_as_internal_recovery() {
    let mut world =
        World::new(Script::ToolLoop(vec![("call_1", "echo_tool", "{}")]), vec!["echo_tool"]);
    go(&mut world);
    assert!(world.told("Adjusting tool arguments..."));
    assert!(!world.has(|event| matches!(event, AgentEvent::ToolCallStarted { .. })));
    assert!(!world.has(|event| matches!(event, AgentEvent::ToolCallFailed { .. })));
    assert!(world.finished_with("done"));
}

#[test]
fn agent_handles_hard_policy_rejection_before_permission_prompt() {
    let mut world = World::new(
        Script::ToolLoop(vec![("call_1", "preflight_reject_tool", r#"{"value":"blocked"}"#)]),
        vec!["preflight_reject_tool"],
    );
    go(&mut world);
    assert_eq!(world.executions, 0);
    assert!(world.told("Adjusting tool command..."));
    assert!(!world.has(|event| matches!(event, AgentEvent::PermissionNeeded { .. })));
    assert!(world.finished_with("done"));
}

fn delegating(interrupt: bool) -> World {
    let mut world = World::new(Script::Delegating, vec!["spawn_agent"]);
    world.interrupt_children = interrupt;
    world.manager = Some(AgentTaskManager::new(
        AgentRuntimeSettings {
            model: "test-model".to_string(),
            reasoning_effort: Some("off".to_string()),
            default_subagent_model: None,
            default_subagent_reasoning_effort: None,
        },
        vec![ModelProfile {
            id: "test-model".to_string(),
            provider: "test".to_string(),
            display_name: None,
            context_window: 16_384,
            max_output_tokens: 1_024,
            reasoning_efforts: vec![ReasoningEffort::Off],
        }],
        2,
    ));
    let mut agent = AgentLoop::new(
        Some("parent agent".to_string()),
        None,
        "test-model".to_string(),
        1_024,
        16_384,
        Some("off".to_string()),
        false,
    );
    world.commands.push_back(AgentCommand::Process { message: "delegate".to_string() });
    world.run(&mut agent);
    world
}

#[test]
fn managed_agent_waits_for_child_results_before_requesting_conclusion() {
    let world = delegating(false);
    assert!(world.finished_with("final after child"));
    assert_eq!(world.requests, 2);
    assert!(world.told("Waiting for 1 outstanding subagent task(s)..."));
}

#[test]
fn managed_interrupt_is_emitted_after_children_stop() {
    let mut world = delegating(true);
    assert!(world.has(|event| matches!(event, AgentEvent::Interrupted)));
    let results = world
        .manager
        .as_mut()
        .unwrap()
        .wait(&vec!["child".to_string()])
        .unwrap()
        .unwrap();
    assert_eq!(results[0].status, TaskStatus::Interrupted);
}

#[test]
fn read_plan_file_rejects_missing_and_blank_files() {
    let mut world = World::new(echo_call(), vec![]);
    assert!(world.read("plan.md").unwrap_err().contains("Cannot read plan"));
    world.write("plan.md", " \n\t");
    assert!(world.read("plan.md").unwrap_err().contains("is empty"));
}

#[test]
fn resumed_plan_path_must_be_a_managed_plan_file() {
    let name = plan_file_name("00000000-0000-4000-8000-000000000001");
    assert_eq!(name, "plan-00000000-0000-4000-8000-000000000001.md");
    assert!(is_managed_plan_filename(&name));
    assert!(!is_managed_plan_filename("custom-plan.md"));
    for outcome in [
        check_resolved_plan_path("/outside/plan.md", false, Some(&name)),
        check_resolved_plan_path("/plans/custom-plan.md", true, Some("custom-plan.md")),
        check_resolved_plan_path("/plans/..", true, None),
    ] {
        assert!(outcome.unwrap_err().contains("outside the managed plan directory"));
    }
    assert!(check_resolved_plan_path("/plans/x", true, Some(&name)).is_ok());
    assert!(check_saved_plan_path("plans/x", false).is_err());
    assert!(check_saved_plan_path("/plans/x", true).is_ok());
}

#[test]
fn busy_agents_tell_the_user_to_wait() {
    let command = Some(AgentCommand::Process { message: "more".to_string() });
    let (control, notice) = handle_busy_command(&command, false);
    assert_eq!(control, BusyControl::Continue);
    assert!(matches!(
        notice,
        Some(AgentEvent::StatusUpdate { message })
            if message == "Already working; press Esc to interrupt."
    ));
    assert_eq!(handle_busy_command(&None, false).0, BusyControl::Shutdown);
    assert_eq!(handle_busy_command(&Some(AgentCommand::Interrupt), true).0, BusyControl::Continue);
}

#[test]
fn other_answers_do_not_end_a_wait() {
    let (outcome, _) = wait_for_permission_response(
        Some(AgentCommand::PermissionResponse {
            request_id: "other".to_string(),
            approved: true,
            scope: ApprovalScope::Once,
        }),
        "mine",
    );
    assert!(outcome.is_none());
    let (_, notice) = wait_for_file_preview_response(
        Some(AgentCommand::Process { message: "more".to_string() }),
        "mine",
    );
    assert!(matches!(
        notice,
        Some(AgentEvent::StatusUpdate { message })
            if message == "Waiting for file change review; answer the prompt first."
    ));
}

#[test]
fn a_request_leaves_room_for_the_answer() {
    assert_eq!(input_budget(128, 4096), 4096 - 128);
}

#[test]
fn a_missing_tool_is_reported() {
    let mut world = World::new(echo_call(), vec![]);
    go(&mut world);
    assert!(world.told("Adjusting tool selection..."));
    assert!(world.session_has(Role::Tool, &["Tool 'echo_tool' not found"]));
    assert!(world.finished_with("done"));
}

#[test]
fn clearing_keeps_the_system_prompt() {
    let mut agent = AgentLoop::new(
        Some("be brief".to_string()),
        None,
        "test-model".to_string(),
        128,
        4096,
        None,
        false,
    );
    agent.command(Some(AgentCommand::Process { message: "go".to_string() }));
    assert_eq!(agent.state.messages.len(), 2);
    agent.command(Some(AgentCommand::ClearSession));
    assert_eq!(agent.state.messages.len(), 1);
    assert!(agent.state.messages[0].role == Role::System);
}
