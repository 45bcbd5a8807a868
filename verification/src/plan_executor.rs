//! Planning before acting: producing a plan with read-only tools.
use crate::event::{status, status_event, AgentCommand, AgentEvent, CommandModel, EventModel};
use crate::ids::{fresh_id, is_uuid, parses_as_uuid};
use crate::json::{json_model, json_str, text_member, Json};
use crate::llm_response::{
    calls_in, contents_of, final_text, final_text_from_blocks, response_blocks_to_content,
    tool_calls_from_blocks, ResponseModel, StreamedResponse, ToolCall, ToolCallModel,
};
use crate::permission_handler::has_to_wait;
use crate::request::{
    answer_limit, budget, generate_params, input_budget, params_for, request_max_tokens,
    Capabilities, GenerateParams, ParamsModel,
};
use crate::state::{AgentPhase, AgentState, StateModel};
use crate::text::{
    concat2, concat3, decimal, decimal_of, owned, same_text, strip_prefix, strip_suffix, trim,
    trimmed, without_prefix, without_suffix,
};
use crate::turn_executor::{
    completed_event, failed_event, one_more, started_event, OutcomeModel, ToolOutcome,
    REFUSED_MESSAGE,
};
use crate::types::{clone_messages, FinishReason, Message, MessageModel, ToolSafety};
use crate::validation::{invalid_tool_input_message, rejection};
use serde_json::Value;
use vstd::prelude::*;

verus! {

pub const PLANNING_INSTRUCTION: &'static str = "Plan-Act mode is active. First inspect the workspace only as needed, then produce a concise Markdown plan for the requested task. Do not modify files, run destructive commands, or use network tools while planning. You may spawn read-only explorer subagents and wait for their findings, but must not spawn workers. The plan must include ordered implementation steps and the checks you will run. After the plan, stop and wait for user approval before acting.";

pub const APPROVED_PLAN_HEAD: &'static str = "The user approved this plan. Execute it now.\n\n";

pub const APPROVED_PLAN_TAIL: &'static str = "\n\nAfter each step, check the result before continuing. If a step fails or the observed state contradicts the plan, stop and report the issue instead of continuing.";

pub const EXPLORER_RESULTS_INTRODUCTION: &'static str = "Explorer tasks have finished. Use these structured findings before continuing the plan.\n\n";

pub const ONLY_EXPLORERS_MESSAGE: &'static str = "Only explorer subagents are allowed during planning.";

pub const NOT_WHILE_PLANNING_MESSAGE: &'static str = "Tool is not allowed during planning; produce a plan without executing mutating or approval-required tools.";

pub fn planning_instruction() -> (r: String)
    ensures
        r@ == PLANNING_INSTRUCTION@,
{
    owned(PLANNING_INSTRUCTION)
}

/// The message that has an approved plan carried out.
pub open spec fn approval_of(plan: Seq<char>) -> Seq<char> {
    APPROVED_PLAN_HEAD@ + plan + APPROVED_PLAN_TAIL@
}

pub fn approved_plan_instruction(plan: &str) -> (r: String)
    ensures
        r@ == approval_of(plan@),
{
    concat3(APPROVED_PLAN_HEAD, plan, APPROVED_PLAN_TAIL)
}

/// Whether a file name is one that plans are saved under: `plan-`, a UUID and `.md`.
pub open spec fn managed_name(name: Seq<char>) -> bool {
    match strip_prefix(name, "plan-"@) {
        Some(rest) => match strip_suffix(rest, ".md"@) {
            Some(id) => parses_as_uuid(id),
            None => false,
        },
        None => false,
    }
}

pub fn is_managed_plan_filename(name: &str) -> (r: bool)
    ensures
        r == managed_name(name@),
{
    match without_prefix(name, "plan-") {
        Some(rest) => match without_suffix(rest.as_str(), ".md") {
            Some(id) => is_uuid(id.as_str()),
            None => false,
        },
        None => false,
    }
}

/// The name of the file that a plan with this id is saved under.
pub fn plan_file_name(id: &str) -> (r: String)
    ensures
        r@ == "plan-"@ + id@ + ".md"@,
{
    concat3("plan-", id, ".md")
}

/// A saved plan is named like a managed plan exactly where its id is a UUID.
pub proof fn law_saved_plans_are_managed(id: Seq<char>)
    ensures
        managed_name("plan-"@ + id + ".md"@) == parses_as_uuid(id),
{
    let name = "plan-"@ + id + ".md"@;
    let rest = id + ".md"@;
    assert(name.subrange(0, "plan-"@.len() as int) =~= "plan-"@);
    assert(name.subrange("plan-"@.len() as int, name.len() as int) =~= rest);
    assert(rest.subrange(rest.len() - ".md"@.len(), rest.len() as int) =~= ".md"@);
    assert(rest.subrange(0, rest.len() - ".md"@.len()) =~= id);
}

/// A name for the file of a new plan, which is one that plans are saved under.
pub fn new_plan_file_name() -> (r: String)
    ensures
        managed_name(r@),
        r@.len() == 44,
{
    let id = fresh_id();
    proof {
        law_saved_plans_are_managed(id@);
        reveal_strlit("plan-");
        reveal_strlit(".md");
    }
    plan_file_name(id.as_str())
}

/// Why a saved plan path cannot be taken up before it is looked at: it is not absolute.
pub fn check_saved_plan_path(saved_path: &str, is_absolute: bool) -> (r: Result<(), String>)
    ensures
        r is Ok <==> is_absolute,
        r matches Err(message) ==> message@ == "Persisted plan path "@ + saved_path@
            + " is not absolute."@,
{
    if is_absolute {
        Ok(())
    } else {
        Err(concat3("Persisted plan path ", saved_path, " is not absolute."))
    }
}

/// Why a plan path that was resolved cannot be taken up: it is not directly in the plan
/// directory, or not named like a plan.
pub fn check_resolved_plan_path(
    saved_path: &str,
    in_plan_directory: bool,
    file_name: Option<&str>,
) -> (r: Result<(), String>)
    ensures
        r is Ok <==> in_plan_directory && file_name is Some && managed_name(file_name->0@),
        r matches Err(message) ==> message@ == "Persisted plan file "@ + saved_path@
            + " is outside the managed plan directory."@,
{
    let managed = match file_name {
        Some(name) => is_managed_plan_filename(name),
        None => false,
    };
    if in_plan_directory && managed {
        Ok(())
    } else {
        Err(
            concat3(
                "Persisted plan file ",
                saved_path,
                " is outside the managed plan directory.",
            ),
        )
    }
}

/// A storage path that is a symbolic link is refused.
pub fn reject_symlink(path: &str, is_symlink: bool) -> (r: Result<(), String>)
    ensures
        r is Err <==> is_symlink,
        r matches Err(message) ==> message@ == "Refusing to use symlinked plan storage path "@
            + path@ + "."@,
{
    if is_symlink {
        Err(concat3("Refusing to use symlinked plan storage path ", path, "."))
    } else {
        Ok(())
    }
}

/// A plan file that holds nothing but white space is no plan.
pub fn check_plan_text(path: &str, plan: String) -> (r: Result<String, String>)
    ensures
        trim(plan@).len() > 0 ==> r == Ok::<String, String>(plan),
        trim(plan@).len() == 0 ==> (r matches Err(message) && message@ == "Plan file "@ + path@
            + " is empty; add a plan before approving or continuing."@),
{
    if trimmed(plan.as_str()).as_str().is_empty() {
        Err(
            concat3(
                "Plan file ",
                path,
                " is empty; add a plan before approving or continuing.",
            ),
        )
    } else {
        Ok(plan)
    }
}

/// How a request for plan approval is answered.
#[derive(Debug)]
pub enum PlanResponseOutcome {
    Approved,
    Denied,
    ContinueDiscussing(String),
    Interrupted,
    Shutdown,
}

pub enum PlanAnswerModel {
    Approved,
    Denied,
    ContinueDiscussing(Seq<char>),
    Interrupted,
    Shutdown,
}

impl DeepView for PlanResponseOutcome {
    type V = PlanAnswerModel;

    open spec fn deep_view(&self) -> PlanAnswerModel {
        match *self {
            PlanResponseOutcome::Approved => PlanAnswerModel::Approved,
            PlanResponseOutcome::Denied => PlanAnswerModel::Denied,
            PlanResponseOutcome::ContinueDiscussing(feedback) =>
                PlanAnswerModel::ContinueDiscussing(feedback@),
            PlanResponseOutcome::Interrupted => PlanAnswerModel::Interrupted,
            PlanResponseOutcome::Shutdown => PlanAnswerModel::Shutdown,
        }
    }
}

/// What a command means to a wait for the plan approval with this id. Empty feedback is
/// no answer.
pub open spec fn plan_answer(command: Option<CommandModel>, request_id: Seq<char>) -> Option<
    PlanAnswerModel,
> {
    match command {
        None => Some(PlanAnswerModel::Shutdown),
        Some(CommandModel::PlanResponse { request_id: answered, approved }) => if answered
            != request_id {
            None
        } else if approved {
            Some(PlanAnswerModel::Approved)
        } else {
            Some(PlanAnswerModel::Denied)
        },
        Some(CommandModel::PlanFeedback { request_id: answered, feedback }) => if answered
            == request_id && trim(feedback).len() > 0 {
            Some(PlanAnswerModel::ContinueDiscussing(feedback))
        } else {
            None
        },
        Some(CommandModel::Interrupt) => Some(PlanAnswerModel::Interrupted),
        Some(CommandModel::Shutdown) => Some(PlanAnswerModel::Shutdown),
        Some(_) => None,
    }
}

/// Takes one command while waiting for a plan approval.
pub fn wait_for_plan_response(command: Option<AgentCommand>, request_id: &str) -> (r: (
    Option<PlanResponseOutcome>,
    Option<AgentEvent>,
))
    ensures
        r.0.deep_view() == plan_answer(command.deep_view(), request_id@),
        r.1.deep_view() == crate::permission_handler::waiting_notice(
            command.deep_view(),
            "Waiting for plan approval; answer the prompt first."@,
        ),
{
    let notice = match &command {
        Some(command) => if has_to_wait(command) {
            Some(status("Waiting for plan approval; answer the prompt first."))
        } else {
            None
        },
        None => None,
    };
    let outcome = match command {
        None => Some(PlanResponseOutcome::Shutdown),
        Some(AgentCommand::PlanResponse { request_id: answered, approved }) => {
            if !same_text(answered.as_str(), request_id) {
                None
            } else if approved {
                Some(PlanResponseOutcome::Approved)
            } else {
                Some(PlanResponseOutcome::Denied)
            }
        },
        Some(AgentCommand::PlanFeedback { request_id: answered, feedback }) => {
            if same_text(answered.as_str(), request_id) && !trimmed(
                feedback.as_str(),
            ).as_str().is_empty() {
                Some(PlanResponseOutcome::ContinueDiscussing(feedback))
            } else {
                None
            }
        },
        Some(AgentCommand::Interrupt) => Some(PlanResponseOutcome::Interrupted),
        Some(AgentCommand::Shutdown) => Some(PlanResponseOutcome::Shutdown),
        Some(_) => None,
    };
    (outcome, notice)
}

/// How the generation of a plan ends.
#[derive(Debug)]
pub enum PlanGeneration {
    Plan(String),
    Interrupted,
    Shutdown,
    Failed,
}

#[verifier::ext_equal]
pub enum GenerationModel {
    Plan(Seq<char>),
    Interrupted,
    Shutdown,
    Failed,
}

impl DeepView for PlanGeneration {
    type V = GenerationModel;

    open spec fn deep_view(&self) -> GenerationModel {
        match *self {
            PlanGeneration::Plan(plan) => GenerationModel::Plan(plan@),
            PlanGeneration::Interrupted => GenerationModel::Interrupted,
            PlanGeneration::Shutdown => GenerationModel::Shutdown,
            PlanGeneration::Failed => GenerationModel::Failed,
        }
    }
}

/// What the planner waits for.
#[derive(Debug)]
pub enum PlanStage {
    /// Wait for explorers whose results have not been collected.
    Barrier,
    /// Estimate the conversation's tokens against the input budget.
    Estimate,
    /// Compress the conversation.
    Compress,
    /// Estimate the tokens of the request; say what the model takes part in.
    Measure,
    /// Send the request and collect the response.
    Generate { params: GenerateParams },
    /// Normalise the history.
    Normalize { final_message: String },
    /// Nothing: take up the next call.
    NextCall,
    /// Find the tool of the current call.
    Lookup,
    /// Run the current call.
    Execute,
    /// The generation has ended.
    Done { generation: PlanGeneration },
}

#[verifier::ext_equal]
pub enum PlanStageModel {
    Barrier,
    Estimate,
    Compress,
    Measure,
    Generate { params: ParamsModel },
    Normalize { final_message: Seq<char> },
    NextCall,
    Lookup,
    Execute,
    Done { generation: GenerationModel },
}

impl DeepView for PlanStage {
    type V = PlanStageModel;

    open spec fn deep_view(&self) -> PlanStageModel {
        match *self {
            PlanStage::Barrier => PlanStageModel::Barrier,
            PlanStage::Estimate => PlanStageModel::Estimate,
            PlanStage::Compress => PlanStageModel::Compress,
            PlanStage::Measure => PlanStageModel::Measure,
            PlanStage::Generate { params } => PlanStageModel::Generate {
                params: params.deep_view(),
            },
            PlanStage::Normalize { final_message } => PlanStageModel::Normalize {
                final_message: final_message@,
            },
            PlanStage::NextCall => PlanStageModel::NextCall,
            PlanStage::Lookup => PlanStageModel::Lookup,
            PlanStage::Execute => PlanStageModel::Execute,
            PlanStage::Done { generation } => PlanStageModel::Done {
                generation: generation.deep_view(),
            },
        }
    }
}

/// What the surroundings report to the planner.
#[derive(Debug)]
pub enum PlanInput {
    BarrierClear,
    BarrierWaiting { count: usize },
    BarrierCompleted { rendered: String },
    BarrierFailed { message: String },
    Estimated { needs_compression: bool },
    Compressed { messages: Vec<Message> },
    CompressionFailed { message: String },
    Measured { current_tokens: usize, capabilities: Capabilities },
    GenerationFailed { message: String },
    StreamFailed,
    Responded { response: StreamedResponse },
    Normalized { messages: Vec<Message> },
    Advance,
    ToolMissing,
    ToolFound { schema: Value, safety: ToolSafety },
    Executed { outcome: ToolOutcome },
    Interrupted,
    ShutdownRequested,
}

#[verifier::ext_equal]
pub enum PlanInputModel {
    BarrierClear,
    BarrierWaiting { count: usize },
    BarrierCompleted { rendered: Seq<char> },
    BarrierFailed { message: Seq<char> },
    Estimated { needs_compression: bool },
    Compressed { messages: Seq<MessageModel> },
    CompressionFailed { message: Seq<char> },
    Measured { current_tokens: usize, capabilities: Capabilities },
    GenerationFailed { message: Seq<char> },
    StreamFailed,
    Responded { response: ResponseModel },
    Normalized { messages: Seq<MessageModel> },
    Advance,
    ToolMissing,
    ToolFound { schema: Value, safety: ToolSafety },
    Executed { outcome: OutcomeModel },
    Interrupted,
    ShutdownRequested,
}

impl DeepView for PlanInput {
    type V = PlanInputModel;

    open spec fn deep_view(&self) -> PlanInputModel {
        match *self {
            PlanInput::BarrierClear => PlanInputModel::BarrierClear,
            PlanInput::BarrierWaiting { count } => PlanInputModel::BarrierWaiting { count },
            PlanInput::BarrierCompleted { rendered } => PlanInputModel::BarrierCompleted {
                rendered: rendered@,
            },
            PlanInput::BarrierFailed { message } => PlanInputModel::BarrierFailed {
                message: message@,
            },
            PlanInput::Estimated { needs_compression } => PlanInputModel::Estimated {
                needs_compression,
            },
            PlanInput::Compressed { messages } => PlanInputModel::Compressed {
                messages: messages.deep_view(),
            },
            PlanInput::CompressionFailed { message } => PlanInputModel::CompressionFailed {
                message: message@,
            },
            PlanInput::Measured { current_tokens, capabilities } => PlanInputModel::Measured {
                current_tokens,
                capabilities,
            },
            PlanInput::GenerationFailed { message } => PlanInputModel::GenerationFailed {
                message: message@,
            },
            PlanInput::StreamFailed => PlanInputModel::StreamFailed,
            PlanInput::Responded { response } => PlanInputModel::Responded {
                response: response.deep_view(),
            },
            PlanInput::Normalized { messages } => PlanInputModel::Normalized {
                messages: messages.deep_view(),
            },
            PlanInput::Advance => PlanInputModel::Advance,
            PlanInput::ToolMissing => PlanInputModel::ToolMissing,
            PlanInput::ToolFound { schema, safety } => PlanInputModel::ToolFound {
                schema,
                safety,
            },
            PlanInput::Executed { outcome } => PlanInputModel::Executed {
                outcome: outcome.deep_view(),
            },
            PlanInput::Interrupted => PlanInputModel::Interrupted,
            PlanInput::ShutdownRequested => PlanInputModel::ShutdownRequested,
        }
    }
}

/// Drives the generation of one plan.
pub struct PlanMachine {
    pub model: String,
    pub max_tokens: usize,
    pub context_window: usize,
    pub state: AgentState,
    pub turn: usize,
    /// The calls of the response, and how many of them have been taken up.
    pub calls: Vec<ToolCall>,
    pub taken: usize,
    pub stage: PlanStage,
    pub outbox: Vec<AgentEvent>,
}

pub struct PlanModel {
    pub model: Seq<char>,
    pub max_tokens: usize,
    pub context_window: usize,
    pub state: StateModel,
    pub turn: usize,
    pub calls: Seq<ToolCallModel>,
    pub taken: usize,
    pub stage: PlanStageModel,
    pub outbox: Seq<EventModel>,
}

impl View for PlanMachine {
    type V = PlanModel;

    open spec fn view(&self) -> PlanModel {
        PlanModel {
            model: self.model@,
            max_tokens: self.max_tokens,
            context_window: self.context_window,
            state: self.state.deep_view(),
            turn: self.turn,
            calls: self.calls.deep_view(),
            taken: self.taken,
            stage: self.stage.deep_view(),
            outbox: self.outbox.deep_view(),
        }
    }
}

/// Why a tool call is not allowed while planning, if it is not: only explorers may be
/// started, and only tools that change nothing and need no approval may run.
pub open spec fn planning_objection(
    call: ToolCallModel,
    schema: Json,
    safety: ToolSafety,
) -> Option<Seq<char>> {
    if call.name == "spawn_agent"@ && text_member(json_model(call.input), "role"@) != Some(
        "explorer"@,
    ) {
        Some(ONLY_EXPLORERS_MESSAGE@)
    } else if !safety.is_read_only || safety.requires_approval || safety.is_destructive {
        Some(NOT_WHILE_PLANNING_MESSAGE@)
    } else {
        rejection(call.name, schema, json_model(call.input))
    }
}

fn objection_while_planning(call: &ToolCall, schema: &Value, safety: ToolSafety) -> (r: Option<
    String,
>)
    ensures
        r.deep_view() == planning_objection(call.deep_view(), json_model(*schema), safety),
{
    if same_text(call.name.as_str(), "spawn_agent") {
        let is_explorer = match json_str(&call.input, "role") {
            Some(role) => same_text(role, "explorer"),
            None => false,
        };
        if !is_explorer {
            return Some(owned(ONLY_EXPLORERS_MESSAGE));
        }
    }
    if !safety.is_read_only || safety.requires_approval || safety.is_destructive {
        return Some(owned(NOT_WHILE_PLANNING_MESSAGE));
    }
    invalid_tool_input_message(call.name.as_str(), schema, &call.input)
}

impl PlanModel {
    pub open spec fn begin(
        state: StateModel,
        model: Seq<char>,
        max_tokens: usize,
        context_window: usize,
    ) -> PlanModel {
        PlanModel {
            model,
            max_tokens,
            context_window,
            state,
            turn: 0,
            calls: Seq::empty(),
            taken: 0,
            stage: PlanStageModel::Barrier,
            outbox: Seq::empty(),
        }.begin_round()
    }

    pub open spec fn at(self, stage: PlanStageModel) -> PlanModel {
        PlanModel { stage, ..self }
    }

    pub open spec fn emit(self, event: EventModel) -> PlanModel {
        PlanModel { outbox: self.outbox.push(event), ..self }
    }

    pub open spec fn tell(self, message: Seq<char>) -> PlanModel {
        self.emit(status_event(message))
    }

    pub open spec fn with_state(self, state: StateModel) -> PlanModel {
        PlanModel { state, ..self }
    }

    pub open spec fn in_phase(self, phase: AgentPhase) -> PlanModel {
        self.with_state(self.state.in_phase(phase))
    }

    pub open spec fn session_updated(self) -> PlanModel {
        self.emit(EventModel::SessionUpdated { messages: self.state.messages })
    }

    pub open spec fn done(self, generation: GenerationModel) -> PlanModel {
        self.at(PlanStageModel::Done { generation })
    }

    pub open spec fn fail(self, message: Seq<char>) -> PlanModel {
        self.emit(EventModel::AgentError { message }).in_phase(AgentPhase::Error).done(
            GenerationModel::Failed,
        )
    }

    pub open spec fn has_current(self) -> bool {
        1 <= self.taken <= self.calls.len()
    }

    pub open spec fn current(self) -> ToolCallModel {
        self.calls[self.taken - 1]
    }

    #[verifier::opaque]
    pub open spec fn begin_round(self) -> PlanModel {
        self.with_state(
            StateModel { turn_count: self.turn, phase: AgentPhase::Planning, ..self.state },
        ).at(PlanStageModel::Barrier)
    }

    #[verifier::opaque]
    pub open spec fn barrier_completed(self, rendered: Seq<char>) -> PlanModel {
        self.with_state(
            self.state.push_user(EXPLORER_RESULTS_INTRODUCTION@ + rendered),
        ).session_updated().at(PlanStageModel::Estimate)
    }

    #[verifier::opaque]
    pub open spec fn measured(self, current_tokens: usize, capabilities: Capabilities) -> PlanModel {
        self.at(
            PlanStageModel::Generate {
                params: params_for(
                    answer_limit(self.max_tokens, self.context_window, current_tokens) as usize,
                    capabilities,
                    self.state.reasoning_effort,
                    self.state.messages,
                    "deepcode-plan-"@ + self.model,
                ),
            },
        )
    }

    /// Whether the token totals can take the response's counts.
    pub open spec fn totals_fit(self, response: ResponseModel) -> bool {
        &&& self.state.total_input_tokens + response.usage.input_tokens <= usize::MAX
        &&& self.state.total_output_tokens + response.usage.output_tokens <= usize::MAX
    }

    #[verifier::opaque]
    pub open spec fn responded(self, response: ResponseModel) -> PlanModel {
        let tallied = self.with_state(
            StateModel {
                total_input_tokens: (self.state.total_input_tokens
                    + response.usage.input_tokens) as usize,
                total_output_tokens: (self.state.total_output_tokens
                    + response.usage.output_tokens) as usize,
                ..self.state
            },
        ).emit(EventModel::TurnComplete(response.usage));
        if response.finish_reason == Some(FinishReason::ContentFilter) {
            tallied.fail(REFUSED_MESSAGE@)
        } else {
            PlanModel {
                calls: calls_in(response.blocks),
                taken: 0,
                ..tallied.with_state(tallied.state.push_assistant(contents_of(response.blocks)))
            }.at(PlanStageModel::Normalize { final_message: final_text(response.blocks) })
        }
    }

    #[verifier::opaque]
    pub open spec fn normalized(
        self,
        messages: Seq<MessageModel>,
        final_message: Seq<char>,
    ) -> PlanModel {
        let updated = self.with_state(StateModel { messages, ..self.state }).session_updated();
        if self.calls.len() > 0 {
            updated.tell(
                "Planning with "@ + decimal(self.calls.len()) + " read-only tool call(s)..."@,
            ).at(PlanStageModel::NextCall)
        } else if trim(final_message).len() == 0 {
            updated.fail("The model did not produce a plan."@)
        } else {
            updated.done(GenerationModel::Plan(final_message))
        }
    }

    #[verifier::opaque]
    pub open spec fn next_call(self) -> PlanModel {
        if self.taken >= self.calls.len() {
            PlanModel { turn: one_more(self.turn), ..self }.begin_round()
        } else {
            PlanModel { taken: one_more(self.taken), ..self }.at(PlanStageModel::Lookup)
        }
    }

    /// The current call answered.
    #[verifier::opaque]
    pub open spec fn answer(self, content: Seq<char>, is_error: bool) -> PlanModel {
        self.with_state(
            self.state.push_tool_result(self.current().id, content, is_error),
        ).session_updated().at(PlanStageModel::NextCall)
    }

    #[verifier::opaque]
    pub open spec fn call_failed(self, error: Seq<char>) -> PlanModel {
        self.emit(failed_event(self.current(), error)).answer(error, true)
    }

    #[verifier::opaque]
    pub open spec fn tool_found(self, schema: Value, safety: ToolSafety) -> PlanModel {
        match planning_objection(self.current(), json_model(schema), safety) {
            Some(error) => self.call_failed(error),
            None => self.emit(started_event(self.current())).at(PlanStageModel::Execute),
        }
    }

    #[verifier::opaque]
    pub open spec fn executed(self, outcome: OutcomeModel) -> PlanModel {
        match outcome {
            OutcomeModel::Completed(result) => self.emit(
                completed_event(self.current(), result),
            ).answer(result, false),
            OutcomeModel::Failed(error) => self.call_failed(error),
        }
    }

    pub open spec fn wf(self) -> bool {
        &&& self.taken <= self.calls.len()
        &&& self.stage is Lookup ==> self.has_current()
        &&& self.stage is Execute ==> self.has_current()
    }

    /// Whether the surroundings may report this now.
    pub open spec fn expects(self, input: PlanInputModel) -> bool {
        match input {
            PlanInputModel::BarrierClear => self.stage is Barrier,
            PlanInputModel::BarrierWaiting { .. } => self.stage is Barrier,
            PlanInputModel::BarrierCompleted { .. } => self.stage is Barrier,
            PlanInputModel::BarrierFailed { .. } => self.stage is Barrier,
            PlanInputModel::Estimated { .. } => self.stage is Estimate,
            PlanInputModel::Compressed { .. } => self.stage is Compress,
            PlanInputModel::CompressionFailed { .. } => self.stage is Compress,
            PlanInputModel::Measured { .. } => self.stage is Measure,
            PlanInputModel::GenerationFailed { .. } => self.stage is Generate,
            PlanInputModel::StreamFailed => self.stage is Generate,
            PlanInputModel::Responded { response } => self.stage is Generate && self.totals_fit(
                response,
            ),
            PlanInputModel::Normalized { .. } => self.stage is Normalize,
            PlanInputModel::Advance => self.stage is NextCall,
            PlanInputModel::ToolMissing => self.stage is Lookup,
            PlanInputModel::ToolFound { .. } => self.stage is Lookup,
            PlanInputModel::Executed { .. } => self.stage is Execute,
            PlanInputModel::Interrupted => true,
            PlanInputModel::ShutdownRequested => true,
        }
    }

    /// One report taken in.
    #[verifier::opaque]
    pub open spec fn step(self, input: PlanInputModel) -> PlanModel {
        match input {
            PlanInputModel::BarrierClear => self.at(PlanStageModel::Estimate),
            PlanInputModel::BarrierWaiting { count } => self.tell(
                "Waiting for "@ + decimal(count as nat) + " explorer task(s) before planning..."@,
            ),
            PlanInputModel::BarrierCompleted { rendered } => self.barrier_completed(rendered),
            PlanInputModel::BarrierFailed { message } => self.fail(message),
            PlanInputModel::Estimated { needs_compression } => if needs_compression {
                self.at(PlanStageModel::Compress)
            } else {
                self.at(PlanStageModel::Measure)
            },
            PlanInputModel::Compressed { messages } => self.with_state(
                StateModel { messages, ..self.state },
            ).at(PlanStageModel::Measure),
            PlanInputModel::CompressionFailed { message } => self.fail(message),
            PlanInputModel::Measured { current_tokens, capabilities } => self.measured(
                current_tokens,
                capabilities,
            ),
            PlanInputModel::GenerationFailed { message } => self.fail(message),
            PlanInputModel::StreamFailed => self.in_phase(AgentPhase::Error).done(
                GenerationModel::Failed,
            ),
            PlanInputModel::Responded { response } => self.responded(response),
            PlanInputModel::Normalized { messages } => self.normalized(
                messages,
                self.stage->final_message,
            ),
            PlanInputModel::Advance => self.next_call(),
            PlanInputModel::ToolMissing => self.call_failed(
                "Tool '"@ + self.current().name + "' not found"@,
            ),
            PlanInputModel::ToolFound { schema, safety } => self.tool_found(schema, safety),
            PlanInputModel::Executed { outcome } => self.executed(outcome),
            PlanInputModel::Interrupted => self.done(GenerationModel::Interrupted),
            PlanInputModel::ShutdownRequested => self.done(GenerationModel::Shutdown),
        }
    }
}

/// A planner that is well-formed stays so.
pub proof fn law_planner_keeps_wf(m: PlanModel, input: PlanInputModel)
    requires
        m.wf(),
        m.expects(input),
    ensures
        m.step(input).wf(),
{
    reveal(PlanModel::step);
    reveal(PlanModel::begin_round);
    reveal(PlanModel::barrier_completed);
    reveal(PlanModel::measured);
    reveal(PlanModel::responded);
    reveal(PlanModel::normalized);
    reveal(PlanModel::next_call);
    reveal(PlanModel::answer);
    reveal(PlanModel::call_failed);
    reveal(PlanModel::tool_found);
    reveal(PlanModel::executed);
}

/// While planning, a tool runs only if it changes nothing, needs no approval, is not
/// destructive and its input fits; and only explorers are started.
pub proof fn law_planning_runs_only_harmless_tools(
    m: PlanModel,
    schema: Value,
    safety: ToolSafety,
)
    requires
        m.stage is Lookup,
        m.step(PlanInputModel::ToolFound { schema, safety }).stage is Execute,
    ensures
        safety.is_read_only,
        !safety.requires_approval,
        !safety.is_destructive,
        rejection(m.current().name, json_model(schema), json_model(m.current().input)) is None,
        m.current().name == "spawn_agent"@ ==> text_member(
            json_model(m.current().input),
            "role"@,
        ) == Some("explorer"@),
{
    reveal(PlanModel::step);
    reveal(PlanModel::tool_found);
    reveal(PlanModel::call_failed);
    reveal(PlanModel::answer);
}

/// A plan is never blank.
pub proof fn law_plans_are_not_blank(m: PlanModel, input: PlanInputModel)
    requires
        m.expects(input),
        !(m.stage is Done),
    ensures
        m.step(input).stage matches PlanStageModel::Done { generation: GenerationModel::Plan(plan) }
            ==> trim(plan).len() > 0,
{
    reveal(PlanModel::step);
    reveal(PlanModel::begin_round);
    reveal(PlanModel::barrier_completed);
    reveal(PlanModel::measured);
    reveal(PlanModel::responded);
    reveal(PlanModel::normalized);
    reveal(PlanModel::next_call);
    reveal(PlanModel::answer);
    reveal(PlanModel::call_failed);
    reveal(PlanModel::tool_found);
    reveal(PlanModel::executed);
}

impl PlanMachine {
    pub fn new(
        state: AgentState,
        model: String,
        max_tokens: usize,
        context_window: usize,
    ) -> (r: Self)
        ensures
            r@ == PlanModel::begin(state.deep_view(), model@, max_tokens, context_window),
            r@.wf(),
    {
        proof {
            reveal(PlanModel::begin_round);
        }
        let mut r = PlanMachine {
            model,
            max_tokens,
            context_window,
            state,
            turn: 0,
            calls: Vec::new(),
            taken: 0,
            stage: PlanStage::Barrier,
            outbox: Vec::new(),
        };
        assert(r.calls.deep_view() =~= Seq::empty());
        assert(r.outbox.deep_view() =~= Seq::empty());
        r.begin_round();
        r
    }

    /// The tokens that the conversation may take.
    pub fn input_budget(&self) -> (r: usize)
        ensures
            r == budget(self@.max_tokens, self@.context_window),
    {
        input_budget(self.max_tokens, self.context_window)
    }

    /// The call that the current stage is about.
    pub fn current_call(&self) -> (r: ToolCall)
        requires
            self@.has_current(),
        ensures
            r.deep_view() == self@.current(),
    {
        assert(self@.calls[self.taken - 1] == self.calls@[self.taken - 1].deep_view());
        self.calls[self.taken - 1].clone()
    }

    /// The events emitted so far, which are then forgotten.
    pub fn take_events(&mut self) -> (r: Vec<AgentEvent>)
        ensures
            r.deep_view() == old(self)@.outbox,
            final(self)@ == (PlanModel { outbox: Seq::empty(), ..old(self)@ }),
    {
        let mut events: Vec<AgentEvent> = Vec::new();
        events.append(&mut self.outbox);
        assert(events.deep_view() =~= old(self)@.outbox);
        assert(self@.outbox =~= Seq::empty());
        events
    }

    fn emit(&mut self, event: AgentEvent)
        ensures
            final(self)@ == old(self)@.emit(event.deep_view()),
    {
        self.outbox.push(event);
        assert(self@.outbox =~= old(self)@.outbox.push(event.deep_view()));
    }

    fn tell(&mut self, message: &str)
        ensures
            final(self)@ == old(self)@.tell(message@),
    {
        self.emit(status(message));
    }

    fn session_updated(&mut self)
        ensures
            final(self)@ == old(self)@.session_updated(),
    {
        let messages = clone_messages(&self.state.messages);
        self.emit(AgentEvent::SessionUpdated { messages });
    }

    fn fail(&mut self, message: String)
        ensures
            final(self)@ == old(self)@.fail(message@),
    {
        self.emit(AgentEvent::AgentError { message });
        self.state.phase = AgentPhase::Error;
        self.stage = PlanStage::Done { generation: PlanGeneration::Failed };
    }

    fn begin_round(&mut self)
        ensures
            final(self)@ == old(self)@.begin_round(),
    {
        proof {
            reveal(PlanModel::begin_round);
        }
        self.state.turn_count = self.turn;
        self.state.phase = AgentPhase::Planning;
        self.stage = PlanStage::Barrier;
    }

    fn barrier_completed(&mut self, rendered: &str)
        ensures
            final(self)@ == old(self)@.barrier_completed(rendered@),
    {
        proof {
            reveal(PlanModel::barrier_completed);
        }
        let message = concat2(EXPLORER_RESULTS_INTRODUCTION, rendered);
        self.state.push_user(message.as_str());
        self.session_updated();
        self.stage = PlanStage::Estimate;
    }

    fn measured(&mut self, current_tokens: usize, capabilities: Capabilities)
        ensures
            final(self)@ == old(self)@.measured(current_tokens, capabilities),
    {
        proof {
            reveal(PlanModel::measured);
        }
        let limit: usize = request_max_tokens(
            self.max_tokens,
            self.context_window,
            current_tokens,
        );
        let key = concat2("deepcode-plan-", self.model.as_str());
        let params = generate_params(
            limit,
            capabilities,
            &self.state.reasoning_effort,
            &self.state.messages,
            key,
        );
        self.stage = PlanStage::Generate { params };
    }

    fn responded(&mut self, response: StreamedResponse)
        requires
            old(self)@.totals_fit(response.deep_view()),
        ensures
            final(self)@ == old(self)@.responded(response.deep_view()),
    {
        proof {
            reveal(PlanModel::responded);
        }
        self.state.total_input_tokens = self.state.total_input_tokens + response.usage.input_tokens;
        self.state.total_output_tokens = self.state.total_output_tokens
            + response.usage.output_tokens;
        self.emit(AgentEvent::TurnComplete(response.usage));
        let refused = match response.finish_reason {
            Some(reason) => reason == FinishReason::ContentFilter,
            None => false,
        };
        if refused {
            self.fail(owned(REFUSED_MESSAGE));
            return ;
        }
        let content = response_blocks_to_content(&response.response_blocks);
        self.state.push_assistant(content);
        self.calls = tool_calls_from_blocks(&response.response_blocks);
        self.taken = 0;
        let final_message = final_text_from_blocks(&response.response_blocks);
        self.stage = PlanStage::Normalize { final_message };
    }

    fn normalized(&mut self, messages: Vec<Message>, final_message: String)
        ensures
            final(self)@ == old(self)@.normalized(messages.deep_view(), final_message@),
    {
        proof {
            reveal(PlanModel::normalized);
        }
        self.state.messages = messages;
        self.session_updated();
        if self.calls.len() > 0 {
            let count = decimal_of(self.calls.len() as u64);
            let message = concat3("Planning with ", count.as_str(), " read-only tool call(s)...");
            self.tell(message.as_str());
            self.stage = PlanStage::NextCall;
        } else if trimmed(final_message.as_str()).as_str().is_empty() {
            self.fail(owned("The model did not produce a plan."));
        } else {
            self.stage = PlanStage::Done { generation: PlanGeneration::Plan(final_message) };
        }
    }

    fn next_call(&mut self)
        ensures
            final(self)@ == old(self)@.next_call(),
    {
        proof {
            reveal(PlanModel::next_call);
        }
        if self.taken >= self.calls.len() {
            self.turn = self.turn.saturating_add(1);
            self.begin_round();
        } else {
            self.taken = self.taken + 1;
            self.stage = PlanStage::Lookup;
        }
    }

    fn answer(&mut self, content: &str, is_error: bool)
        requires
            old(self)@.has_current(),
        ensures
            final(self)@ == old(self)@.answer(content@, is_error),
    {
        proof {
            reveal(PlanModel::answer);
        }
        let call = self.current_call();
        self.state.push_tool_result(call.id.as_str(), content, is_error);
        self.session_updated();
        self.stage = PlanStage::NextCall;
    }

    fn push_plan_tool_error(&mut self, error: &str)
        requires
            old(self)@.has_current(),
        ensures
            final(self)@ == old(self)@.call_failed(error@),
    {
        proof {
            reveal(PlanModel::call_failed);
        }
        let call = self.current_call();
        self.emit(
            AgentEvent::ToolCallFailed { id: call.id, name: call.name, error: error.to_owned() },
        );
        self.answer(error, true);
    }

    fn tool_found(&mut self, schema: &Value, safety: ToolSafety)
        requires
            old(self)@.has_current(),
        ensures
            final(self)@ == old(self)@.tool_found(*schema, safety),
    {
        proof {
            reveal(PlanModel::tool_found);
        }
        let call = self.current_call();
        match objection_while_planning(&call, schema, safety) {
            Some(error) => {
                self.push_plan_tool_error(error.as_str());
            },
            None => {
                self.emit(
                    AgentEvent::ToolCallStarted {
                        id: call.id,
                        name: call.name,
                        input: call.input,
                    },
                );
                self.stage = PlanStage::Execute;
            },
        }
    }

    fn executed(&mut self, outcome: ToolOutcome)
        requires
            old(self)@.has_current(),
        ensures
            final(self)@ == old(self)@.executed(outcome.deep_view()),
    {
        proof {
            reveal(PlanModel::executed);
        }
        match outcome {
            ToolOutcome::Completed(result) => {
                let call = self.current_call();
                self.emit(
                    AgentEvent::ToolCallCompleted {
                        id: call.id,
                        name: call.name,
                        result: result.clone(),
                    },
                );
                self.answer(result.as_str(), false);
            },
            ToolOutcome::Failed(error) => {
                self.push_plan_tool_error(error.as_str());
            },
        }
    }

    /// Takes in one report.
    pub fn step(&mut self, input: PlanInput)
        requires
            old(self)@.wf(),
            old(self)@.expects(input.deep_view()),
        ensures
            final(self)@ == old(self)@.step(input.deep_view()),
            final(self)@.wf(),
    {
        proof {
            law_planner_keeps_wf(self@, input.deep_view());
            reveal(PlanModel::step);
        }
        match input {
            PlanInput::BarrierClear => {
                self.stage = PlanStage::Estimate;
            },
            PlanInput::BarrierWaiting { count } => {
                let count = decimal_of(count as u64);
                let message = concat3(
                    "Waiting for ",
                    count.as_str(),
                    " explorer task(s) before planning...",
                );
                self.tell(message.as_str());
            },
            PlanInput::BarrierCompleted { rendered } => {
                self.barrier_completed(rendered.as_str());
            },
            PlanInput::BarrierFailed { message } => {
                self.fail(message);
            },
            PlanInput::Estimated { needs_compression } => {
                self.stage = if needs_compression {
                    PlanStage::Compress
                } else {
                    PlanStage::Measure
                };
            },
            PlanInput::Compressed { messages } => {
                self.state.messages = messages;
                self.stage = PlanStage::Measure;
            },
            PlanInput::CompressionFailed { message } => {
                self.fail(message);
            },
            PlanInput::Measured { current_tokens, capabilities } => {
                self.measured(current_tokens, capabilities);
            },
            PlanInput::GenerationFailed { message } => {
                self.fail(message);
            },
            PlanInput::StreamFailed => {
                self.state.phase = AgentPhase::Error;
                self.stage = PlanStage::Done { generation: PlanGeneration::Failed };
            },
            PlanInput::Responded { response } => {
                self.responded(response);
            },
            PlanInput::Normalized { messages } => {
                let final_message = match &self.stage {
                    PlanStage::Normalize { final_message } => final_message.clone(),
                    _ => String::new(),
                };
                self.normalized(messages, final_message);
            },
            PlanInput::Advance => {
                self.next_call();
            },
            PlanInput::ToolMissing => {
                let call = self.current_call();
                let error = concat3("Tool '", call.name.as_str(), "' not found");
                self.push_plan_tool_error(error.as_str());
            },
            PlanInput::ToolFound { schema, safety } => {
                self.tool_found(&schema, safety);
            },
            PlanInput::Executed { outcome } => {
                self.executed(outcome);
            },
            PlanInput::Interrupted => {
                self.stage = PlanStage::Done { generation: PlanGeneration::Interrupted };
            },
            PlanInput::ShutdownRequested => {
                self.stage = PlanStage::Done { generation: PlanGeneration::Shutdown };
            },
        }
    }
}

} // verus!
