//! One agent turn: model requests and the tool calls they lead to, until the model
//! answers without asking for tools.
//!
//! A [`TurnMachine`] decides; its surroundings act. The machine's stage says what is to
//! be done outside (run a tool, ask the user, send a request); the outcome comes back
//! as a [`TurnInput`], and the machine moves on. Events for the client collect in the
//! machine's outbox.
use crate::event::{status, status_event, AgentEvent, EventModel};
use crate::guard::{GuardModel, RepeatedFailureGuard};
use crate::json::{json_model, same_json};
use crate::llm_response::{
    calls_in, contents_of, final_text, final_text_from_blocks, response_blocks_to_content,
    tool_calls_from_blocks, ResponseModel, StreamedResponse, ToolCall, ToolCallModel,
};
use crate::permission_handler::{denial_reason, policy_denial_reason};
use crate::request::{
    answer_limit, budget, generate_params, input_budget, messages_with_title_instruction,
    params_for, request_max_tokens, with_title_instruction, Capabilities, GenerateParams,
    ParamsModel,
};
use crate::state::{AgentPhase, AgentState, StateModel, ToolResultEntry, ToolResultModel};
use crate::text::{concat2, concat3, decimal, decimal_of, owned, same_text};
use crate::types::{
    clone_messages, ApprovalScope, ContentBlock, ContentBlockModel, Decision, EvaluationModel,
    FileChangePreview, FinishReason, Message, MessageModel, PermissionEvaluation, PreviewModel,
    ToolSafety,
};
use crate::validation::{invalid_tool_input_message, rejection};
use serde_json::Value;
use vstd::prelude::*;

verus! {

/// After this many rounds in which every call was blocked, the model is asked for text
/// alone.
pub const REPEATED_BLOCKED_ROUND_LIMIT: usize = 2;

pub const REPEATED_FAILURE_INSTRUCTION: &'static str = "You have executed this exact tool call twice and it failed both times. Do not retry the same tool with the same input again. Change the input, gather new information first, use a materially different approach, or stop and explain the blocker to the user.";

pub const REPEATED_CALL_BLOCKED_MESSAGE: &'static str = "Repeated-failure guard blocked this tool call because the same tool and input already failed twice. The tool was not executed. Use a materially different approach or explain the blocker to the user.";

pub const STOPPED_RETRYING_MESSAGE: &'static str = "Stopped because the model retried an identical tool call after it had already failed twice. The repeated call was not executed.";

pub const REFUSED_MESSAGE: &'static str = "The model refused the request; try another model or revise the request.";

pub const SUBAGENT_RESULTS_INTRODUCTION: &'static str = "Subagents have finished. Their structured results are below. Review them before continuing; retry only when the reported error makes that useful.\n\n";

/// How a tool call ended.
#[derive(Debug)]
pub enum ToolOutcome {
    Completed(String),
    Failed(String),
}

pub enum OutcomeModel {
    Completed(Seq<char>),
    Failed(Seq<char>),
}

impl DeepView for ToolOutcome {
    type V = OutcomeModel;

    open spec fn deep_view(&self) -> OutcomeModel {
        match *self {
            ToolOutcome::Completed(result) => OutcomeModel::Completed(result@),
            ToolOutcome::Failed(error) => OutcomeModel::Failed(error@),
        }
    }
}

/// A read-only call that waits to run together with others.
#[derive(Debug)]
pub struct ParallelToolCall {
    pub call: ToolCall,
    pub sandbox_policy: String,
}

#[verifier::ext_equal]
pub struct ParallelCallModel {
    pub call: ToolCallModel,
    pub sandbox_policy: Seq<char>,
}

impl DeepView for ParallelToolCall {
    type V = ParallelCallModel;

    open spec fn deep_view(&self) -> ParallelCallModel {
        ParallelCallModel { call: self.call.deep_view(), sandbox_policy: self.sandbox_policy@ }
    }
}

/// What to go on with once the waiting calls have run.
#[derive(Debug)]
pub enum Resume {
    /// Look again whether the current call may run.
    Recheck,
    /// The current call's tool does not exist.
    Missing,
    /// The current call's input does not match the schema.
    Invalid { message: String },
    /// The tool refuses the input outright.
    Rejected { message: String },
    /// The current call has to run alone.
    Admit { safety: ToolSafety },
    /// The permission check failed.
    Unchecked { message: String },
    /// The policy forbids the call.
    Forbidden { evaluation: PermissionEvaluation },
    /// The change could not be previewed.
    Unpreviewed { message: String },
    /// The change has a preview.
    Review { evaluation: PermissionEvaluation, preview: FileChangePreview, is_noop: bool },
    /// The call runs alone, once it is permitted.
    Resolve { evaluation: PermissionEvaluation },
    /// Every call of the response has been taken up.
    EndRound,
}

#[verifier::ext_equal]
pub enum ResumeModel {
    Recheck,
    Missing,
    Invalid { message: Seq<char> },
    Rejected { message: Seq<char> },
    Admit { safety: ToolSafety },
    Unchecked { message: Seq<char> },
    Forbidden { evaluation: EvaluationModel },
    Unpreviewed { message: Seq<char> },
    Review { evaluation: EvaluationModel, preview: PreviewModel, is_noop: bool },
    Resolve { evaluation: EvaluationModel },
    EndRound,
}

impl DeepView for Resume {
    type V = ResumeModel;

    open spec fn deep_view(&self) -> ResumeModel {
        match *self {
            Resume::Recheck => ResumeModel::Recheck,
            Resume::Missing => ResumeModel::Missing,
            Resume::Invalid { message } => ResumeModel::Invalid { message: message@ },
            Resume::Rejected { message } => ResumeModel::Rejected { message: message@ },
            Resume::Admit { safety } => ResumeModel::Admit { safety },
            Resume::Unchecked { message } => ResumeModel::Unchecked { message: message@ },
            Resume::Forbidden { evaluation } => ResumeModel::Forbidden {
                evaluation: evaluation.deep_view(),
            },
            Resume::Unpreviewed { message } => ResumeModel::Unpreviewed { message: message@ },
            Resume::Review { evaluation, preview, is_noop } => ResumeModel::Review {
                evaluation: evaluation.deep_view(),
                preview: preview.deep_view(),
                is_noop,
            },
            Resume::Resolve { evaluation } => ResumeModel::Resolve {
                evaluation: evaluation.deep_view(),
            },
            Resume::EndRound => ResumeModel::EndRound,
        }
    }
}

/// What the machine waits for.
#[derive(Debug)]
pub enum TurnStage {
    /// Wait for subagents whose results have not been collected.
    Barrier,
    /// Estimate the conversation's tokens against the input budget.
    Estimate,
    /// Compress the conversation.
    Compress,
    /// Estimate the tokens of the request; say what the model takes part in.
    Measure,
    /// Send the request and collect the response.
    Generate { params: GenerateParams },
    /// Normalise the history.
    Normalize { final_message: String },
    /// Nothing: take up the next call.
    NextCall,
    /// Find the tool of the current call.
    Lookup,
    /// Let the tool check the input.
    Preflight { safety: ToolSafety },
    /// Wait until no worker subagent is active.
    Workers,
    /// Ask the permission policy.
    Check,
    /// Preview the change that the call would make.
    Preview { evaluation: PermissionEvaluation },
    /// Let the user review the change.
    Review { request_id: String, preview: FileChangePreview },
    /// Make the change that was previewed.
    RunPreviewed { preview: FileChangePreview },
    /// Let the user permit the call.
    Permission { request_id: String, sandbox_policy: String },
    /// Record the user's answer with the permission policy.
    Record { approved: bool, scope: ApprovalScope, sandbox_policy: String },
    /// Run the current call.
    Run { sandbox_policy: String },
    /// Run the waiting calls together.
    Batch { resume: Resume },
    /// The turn has ended.
    Done,
}

#[allow(inconsistent_fields)]
#[verifier::ext_equal]
pub enum StageModel {
    Barrier,
    Estimate,
    Compress,
    Measure,
    Generate { params: ParamsModel },
    Normalize { final_message: Seq<char> },
    NextCall,
    Lookup,
    Preflight { safety: ToolSafety },
    Workers,
    Check,
    Preview { evaluation: EvaluationModel },
    Review { request_id: Seq<char>, preview: PreviewModel },
    RunPreviewed { preview: PreviewModel },
    Permission { request_id: Seq<char>, sandbox_policy: Seq<char> },
    Record { approved: bool, scope: ApprovalScope, sandbox_policy: Seq<char> },
    Run { sandbox_policy: Seq<char> },
    Batch { resume: ResumeModel },
    Done,
}

impl DeepView for TurnStage {
    type V = StageModel;

    open spec fn deep_view(&self) -> StageModel {
        match *self {
            TurnStage::Barrier => StageModel::Barrier,
            TurnStage::Estimate => StageModel::Estimate,
            TurnStage::Compress => StageModel::Compress,
            TurnStage::Measure => StageModel::Measure,
            TurnStage::Generate { params } => StageModel::Generate { params: params.deep_view() },
            TurnStage::Normalize { final_message } => StageModel::Normalize {
                final_message: final_message@,
            },
            TurnStage::NextCall => StageModel::NextCall,
            TurnStage::Lookup => StageModel::Lookup,
            TurnStage::Preflight { safety } => StageModel::Preflight { safety },
            TurnStage::Workers => StageModel::Workers,
            TurnStage::Check => StageModel::Check,
            TurnStage::Preview { evaluation } => StageModel::Preview {
                evaluation: evaluation.deep_view(),
            },
            TurnStage::Review { request_id, preview } => StageModel::Review {
                request_id: request_id@,
                preview: preview.deep_view(),
            },
            TurnStage::RunPreviewed { preview } => StageModel::RunPreviewed {
                preview: preview.deep_view(),
            },
            TurnStage::Permission { request_id, sandbox_policy } => StageModel::Permission {
                request_id: request_id@,
                sandbox_policy: sandbox_policy@,
            },
            TurnStage::Record { approved, scope, sandbox_policy } => StageModel::Record {
                approved,
                scope,
                sandbox_policy: sandbox_policy@,
            },
            TurnStage::Run { sandbox_policy } => StageModel::Run {
                sandbox_policy: sandbox_policy@,
            },
            TurnStage::Batch { resume } => StageModel::Batch { resume: resume.deep_view() },
            TurnStage::Done => StageModel::Done,
        }
    }
}

/// What the surroundings report.
#[derive(Debug)]
pub enum TurnInput {
    BarrierClear,
    BarrierWaiting { count: usize },
    BarrierCompleted { rendered: String },
    BarrierFailed { message: String },
    Estimated { needs_compression: bool },
    Compressed { messages: Vec<Message> },
    CompressionFailed { message: String },
    Measured { current_tokens: usize, capabilities: Capabilities },
    GenerationFailed { message: String },
    StreamFailed,
    Responded { response: StreamedResponse },
    Normalized { messages: Vec<Message> },
    Advance,
    ToolMissing,
    ToolFound { schema: Value, safety: ToolSafety },
    PreflightPassed,
    PreflightRejected { message: String },
    WorkersIdle,
    Evaluated { evaluation: PermissionEvaluation },
    CheckFailed { message: String },
    NoPreview,
    PreviewReady { preview: FileChangePreview, is_noop: bool },
    PreviewFailed { message: String },
    ReviewApproved,
    ReviewDenied,
    PermissionApproved { scope: ApprovalScope },
    PermissionDenied,
    Recorded,
    Executed { outcome: ToolOutcome },
    BatchExecuted { outcomes: Vec<ToolOutcome> },
    Interrupted,
    ShutdownRequested,
}

#[verifier::ext_equal]
pub enum InputModel {
    BarrierClear,
    BarrierWaiting { count: usize },
    BarrierCompleted { rendered: Seq<char> },
    BarrierFailed { message: Seq<char> },
    Estimated { needs_compression: bool },
    Compressed { messages: Seq<MessageModel> },
    CompressionFailed { message: Seq<char> },
    Measured { current_tokens: usize, capabilities: Capabilities },
    GenerationFailed { message: Seq<char> },
    StreamFailed,
    Responded { response: ResponseModel },
    Normalized { messages: Seq<MessageModel> },
    Advance,
    ToolMissing,
    ToolFound { schema: Value, safety: ToolSafety },
    PreflightPassed,
    PreflightRejected { message: Seq<char> },
    WorkersIdle,
    Evaluated { evaluation: EvaluationModel },
    CheckFailed { message: Seq<char> },
    NoPreview,
    PreviewReady { preview: PreviewModel, is_noop: bool },
    PreviewFailed { message: Seq<char> },
    ReviewApproved,
    ReviewDenied,
    PermissionApproved { scope: ApprovalScope },
    PermissionDenied,
    Recorded,
    Executed { outcome: OutcomeModel },
    BatchExecuted { outcomes: Seq<OutcomeModel> },
    Interrupted,
    ShutdownRequested,
}

impl DeepView for TurnInput {
    type V = InputModel;

    open spec fn deep_view(&self) -> InputModel {
        match *self {
            TurnInput::BarrierClear => InputModel::BarrierClear,
            TurnInput::BarrierWaiting { count } => InputModel::BarrierWaiting { count },
            TurnInput::BarrierCompleted { rendered } => InputModel::BarrierCompleted {
                rendered: rendered@,
            },
            TurnInput::BarrierFailed { message } => InputModel::BarrierFailed {
                message: message@,
            },
            TurnInput::Estimated { needs_compression } => InputModel::Estimated {
                needs_compression,
            },
            TurnInput::Compressed { messages } => InputModel::Compressed {
                messages: messages.deep_view(),
            },
            TurnInput::CompressionFailed { message } => InputModel::CompressionFailed {
                message: message@,
            },
            TurnInput::Measured { current_tokens, capabilities } => InputModel::Measured {
                current_tokens,
                capabilities,
            },
            TurnInput::GenerationFailed { message } => InputModel::GenerationFailed {
                message: message@,
            },
            TurnInput::StreamFailed => InputModel::StreamFailed,
            TurnInput::Responded { response } => InputModel::Responded {
                response: response.deep_view(),
            },
            TurnInput::Normalized { messages } => InputModel::Normalized {
                messages: messages.deep_view(),
            },
            TurnInput::Advance => InputModel::Advance,
            TurnInput::ToolMissing => InputModel::ToolMissing,
            TurnInput::ToolFound { schema, safety } => InputModel::ToolFound { schema, safety },
            TurnInput::PreflightPassed => InputModel::PreflightPassed,
            TurnInput::PreflightRejected { message } => InputModel::PreflightRejected {
                message: message@,
            },
            TurnInput::WorkersIdle => InputModel::WorkersIdle,
            TurnInput::Evaluated { evaluation } => InputModel::Evaluated {
                evaluation: evaluation.deep_view(),
            },
            TurnInput::CheckFailed { message } => InputModel::CheckFailed { message: message@ },
            TurnInput::NoPreview => InputModel::NoPreview,
            TurnInput::PreviewReady { preview, is_noop } => InputModel::PreviewReady {
                preview: preview.deep_view(),
                is_noop,
            },
            TurnInput::PreviewFailed { message } => InputModel::PreviewFailed {
                message: message@,
            },
            TurnInput::ReviewApproved => InputModel::ReviewApproved,
            TurnInput::ReviewDenied => InputModel::ReviewDenied,
            TurnInput::PermissionApproved { scope } => InputModel::PermissionApproved { scope },
            TurnInput::PermissionDenied => InputModel::PermissionDenied,
            TurnInput::Recorded => InputModel::Recorded,
            TurnInput::Executed { outcome } => InputModel::Executed {
                outcome: outcome.deep_view(),
            },
            TurnInput::BatchExecuted { outcomes } => InputModel::BatchExecuted {
                outcomes: outcomes.deep_view(),
            },
            TurnInput::Interrupted => InputModel::Interrupted,
            TurnInput::ShutdownRequested => InputModel::ShutdownRequested,
        }
    }
}

/// Drives one agent turn.
pub struct TurnMachine {
    pub model: String,
    pub max_tokens: usize,
    pub context_window: usize,
    /// Whether the agent has subagents to wait for.
    pub managed: bool,
    pub state: AgentState,
    pub turn: usize,
    pub interrupted: bool,
    pub shutdown_requested: bool,
    pub guard: RepeatedFailureGuard,
    pub force_text_only: bool,
    pub text_only_request: bool,
    pub blocked_only_rounds: usize,
    pub blocked_repeat_calls: usize,
    /// The calls of the response, and how many of them have been taken up.
    pub calls: Vec<ToolCall>,
    pub taken: usize,
    pub batch: Vec<ParallelToolCall>,
    pub started: bool,
    pub can_run_in_parallel: bool,
    pub stage: TurnStage,
    pub outbox: Vec<AgentEvent>,
}

pub struct TurnModel {
    pub model: Seq<char>,
    pub max_tokens: usize,
    pub context_window: usize,
    pub managed: bool,
    pub state: StateModel,
    pub turn: usize,
    pub interrupted: bool,
    pub shutdown_requested: bool,
    pub guard: GuardModel,
    pub force_text_only: bool,
    pub text_only_request: bool,
    pub blocked_only_rounds: usize,
    pub blocked_repeat_calls: usize,
    pub calls: Seq<ToolCallModel>,
    pub taken: usize,
    pub batch: Seq<ParallelCallModel>,
    pub started: bool,
    pub can_run_in_parallel: bool,
    pub stage: StageModel,
    pub outbox: Seq<EventModel>,
}

impl View for TurnMachine {
    type V = TurnModel;

    open spec fn view(&self) -> TurnModel {
        TurnModel {
            model: self.model@,
            max_tokens: self.max_tokens,
            context_window: self.context_window,
            managed: self.managed,
            state: self.state.deep_view(),
            turn: self.turn,
            interrupted: self.interrupted,
            shutdown_requested: self.shutdown_requested,
            guard: self.guard@,
            force_text_only: self.force_text_only,
            text_only_request: self.text_only_request,
            blocked_only_rounds: self.blocked_only_rounds,
            blocked_repeat_calls: self.blocked_repeat_calls,
            calls: self.calls.deep_view(),
            taken: self.taken,
            batch: self.batch.deep_view(),
            started: self.started,
            can_run_in_parallel: self.can_run_in_parallel,
            stage: self.stage.deep_view(),
            outbox: self.outbox.deep_view(),
        }
    }
}

pub open spec fn started_event(call: ToolCallModel) -> EventModel {
    EventModel::ToolCallStarted { id: call.id, name: call.name, input: call.input }
}

pub open spec fn failed_event(call: ToolCallModel, error: Seq<char>) -> EventModel {
    EventModel::ToolCallFailed { id: call.id, name: call.name, error }
}

pub open spec fn completed_event(call: ToolCallModel, result: Seq<char>) -> EventModel {
    EventModel::ToolCallCompleted { id: call.id, name: call.name, result }
}

pub open spec fn request_status(turn: usize) -> Seq<char> {
    if turn == 0 {
        "Thinking..."@
    } else {
        "Thinking after tools..."@
    }
}

/// Whether a call with the same tool and input waits in the batch.
pub open spec fn is_pending(batch: Seq<ParallelCallModel>, call: ToolCallModel) -> bool {
    exists|i: int| 0 <= i < batch.len() && same_call(#[trigger] batch[i].call, call)
}

/// Whether two calls have the same tool and the same input.
pub open spec fn same_call(a: ToolCallModel, b: ToolCallModel) -> bool {
    a.name == b.name && json_model(a.input) == json_model(b.input)
}

/// The number, one more, unless that does not fit.
pub open spec fn one_more(n: usize) -> usize {
    if n == usize::MAX {
        n
    } else {
        (n + 1) as usize
    }
}

impl TurnModel {
    pub open spec fn begin(
        state: StateModel,
        model: Seq<char>,
        max_tokens: usize,
        context_window: usize,
        managed: bool,
    ) -> TurnModel {
        TurnModel {
            model,
            max_tokens,
            context_window,
            managed,
            state,
            turn: 0,
            interrupted: false,
            shutdown_requested: false,
            guard: GuardModel::empty(),
            force_text_only: false,
            text_only_request: false,
            blocked_only_rounds: 0,
            blocked_repeat_calls: 0,
            calls: Seq::empty(),
            taken: 0,
            batch: Seq::empty(),
            started: false,
            can_run_in_parallel: false,
            stage: StageModel::Done,
            outbox: Seq::empty(),
        }.begin_round()
    }

    // Small moves.
    pub open spec fn at(self, stage: StageModel) -> TurnModel {
        TurnModel { stage, ..self }
    }

    pub open spec fn emit(self, event: EventModel) -> TurnModel {
        TurnModel { outbox: self.outbox.push(event), ..self }
    }

    pub open spec fn tell(self, message: Seq<char>) -> TurnModel {
        self.emit(status_event(message))
    }

    pub open spec fn with_state(self, state: StateModel) -> TurnModel {
        TurnModel { state, ..self }
    }

    pub open spec fn in_phase(self, phase: AgentPhase) -> TurnModel {
        self.with_state(self.state.in_phase(phase))
    }

    pub open spec fn session_updated(self) -> TurnModel {
        self.emit(EventModel::SessionUpdated { messages: self.state.messages })
    }

    pub open spec fn fail(self, message: Seq<char>) -> TurnModel {
        self.emit(EventModel::AgentError { message }).in_phase(AgentPhase::Error).at(
            StageModel::Done,
        )
    }

    pub open spec fn current(self) -> ToolCallModel {
        self.calls[self.taken - 1]
    }

    pub open spec fn is_blocked(self) -> bool {
        self.guard.blocks(self.current().name, json_model(self.current().input))
    }

    // Rounds.
    #[verifier::opaque]
    pub open spec fn begin_round(self) -> TurnModel {
        self.with_state(StateModel { turn_count: self.turn, ..self.state }).at(StageModel::Barrier)
    }

    #[verifier::opaque]
    pub open spec fn start_request(self) -> TurnModel {
        TurnModel {
            text_only_request: self.force_text_only,
            force_text_only: false,
            ..self.in_phase(AgentPhase::Generating)
        }.tell(request_status(self.turn)).at(StageModel::Measure)
    }

    #[verifier::opaque]
    pub open spec fn barrier_completed(self, rendered: Seq<char>) -> TurnModel {
        self.with_state(
            self.state.push_user(SUBAGENT_RESULTS_INTRODUCTION@ + rendered),
        ).session_updated().at(StageModel::Estimate)
    }

    #[verifier::opaque]
    pub open spec fn estimated(self, needs_compression: bool) -> TurnModel {
        if needs_compression {
            self.in_phase(AgentPhase::CompressingContext).tell("Compressing context..."@).at(
                StageModel::Compress,
            )
        } else {
            self.start_request()
        }
    }

    #[verifier::opaque]
    pub open spec fn compressed(self, messages: Seq<MessageModel>) -> TurnModel {
        self.with_state(StateModel { messages, ..self.state }).start_request()
    }

    #[verifier::opaque]
    pub open spec fn measured(
        self,
        current_tokens: usize,
        capabilities: Capabilities,
    ) -> TurnModel {
        self.at(
            StageModel::Generate {
                params: params_for(
                    answer_limit(self.max_tokens, self.context_window, current_tokens) as usize,
                    capabilities,
                    self.state.reasoning_effort,
                    self.state.messages,
                    "deepcode-"@ + self.model,
                ),
            },
        )
    }

    /// Whether the token totals can take the response's counts.
    pub open spec fn totals_fit(self, response: ResponseModel) -> bool {
        &&& self.state.total_input_tokens + response.usage.input_tokens <= usize::MAX
        &&& self.state.total_output_tokens + response.usage.output_tokens <= usize::MAX
    }

    #[verifier::opaque]
    pub open spec fn responded(self, response: ResponseModel) -> TurnModel {
        let tallied = self.with_state(
            StateModel {
                total_input_tokens: (self.state.total_input_tokens
                    + response.usage.input_tokens) as usize,
                total_output_tokens: (self.state.total_output_tokens
                    + response.usage.output_tokens) as usize,
                ..self.state
            },
        ).emit(EventModel::TurnComplete(response.usage));
        if response.finish_reason == Some(FinishReason::ContentFilter) {
            tallied.fail(REFUSED_MESSAGE@)
        } else {
            TurnModel {
                calls: calls_in(response.blocks),
                taken: 0,
                ..tallied.with_state(
                    StateModel {
                        session_title_pending: self.state.session_title_pending
                            && !response.session_title_resolved,
                        ..tallied.state
                    }.push_assistant(contents_of(response.blocks)),
                )
            }.at(StageModel::Normalize { final_message: final_text(response.blocks) })
        }
    }

    #[verifier::opaque]
    pub open spec fn normalized(
        self,
        messages: Seq<MessageModel>,
        final_message: Seq<char>,
    ) -> TurnModel {
        let updated = self.with_state(StateModel { messages, ..self.state }).session_updated();
        if self.calls.len() == 0 {
            updated.emit(EventModel::AgentFinished { final_message }).in_phase(
                AgentPhase::Idle,
            ).at(StageModel::Done)
        } else if self.text_only_request {
            updated.refuse_calls()
        } else {
            TurnModel {
                batch: Seq::empty(),
                blocked_repeat_calls: 0,
                ..updated.in_phase(AgentPhase::ParsingToolCalls).tell(
                    "Preparing "@ + decimal(self.calls.len()) + " tool call(s)..."@,
                )
            }.at(StageModel::NextCall)
        }
    }

    /// Every call of a response that was to be text alone is answered with a refusal, and
    /// the turn ends.
    #[verifier::opaque]
    pub open spec fn refuse_calls(self) -> TurnModel {
        let refused = TurnModel {
            outbox: self.outbox + self.calls.map_values(
                |call: ToolCallModel| failed_event(call, REPEATED_CALL_BLOCKED_MESSAGE@),
            ),
            ..self
        };
        refused.with_state(
            self.state.push_tool_results(
                self.calls.map_values(
                    |call: ToolCallModel|
                        ToolResultModel {
                            tool_use_id: call.id,
                            content: REPEATED_CALL_BLOCKED_MESSAGE@,
                            is_error: true,
                        },
                ),
            ).push_assistant(
                seq![ContentBlockModel::Text { text: STOPPED_RETRYING_MESSAGE@ }],
            ),
        ).session_updated().emit(
            EventModel::AgentFinished { final_message: STOPPED_RETRYING_MESSAGE@ },
        ).in_phase(AgentPhase::Idle).at(StageModel::Done)
    }

    /// Rounds in which every call was blocked add up; any other round starts afresh.
    #[verifier::opaque]
    pub open spec fn judge_round(self) -> TurnModel {
        let rounds = one_more(self.blocked_only_rounds);
        if self.blocked_repeat_calls != self.calls.len() {
            TurnModel { blocked_only_rounds: 0, ..self }
        } else if rounds >= REPEATED_BLOCKED_ROUND_LIMIT {
            TurnModel { blocked_only_rounds: rounds, force_text_only: true, ..self }.tell(
                "Stopping repeated tool retries and preparing an explanation..."@,
            )
        } else {
            TurnModel { blocked_only_rounds: rounds, ..self }.tell(
                "Repeated call blocked; trying a different approach..."@,
            )
        }
    }

    #[verifier::opaque]
    pub open spec fn end_round(self) -> TurnModel {
        let judged = self.judge_round();
        TurnModel { turn: one_more(judged.turn), ..judged }.begin_round()
    }

    // Results of calls.
    /// A result that the failure guard counts, with what is reported of it.
    #[verifier::opaque]
    pub open spec fn counted(
        self,
        call: ToolCallModel,
        content: Seq<char>,
        is_error: bool,
    ) -> (TurnModel, ToolResultModel) {
        let input = json_model(call.input);
        if !is_error {
            (
                TurnModel { guard: GuardModel::empty(), ..self },
                ToolResultModel { tool_use_id: call.id, content, is_error },
            )
        } else if self.guard.warns(call.name, input) {
            (
                TurnModel { guard: self.guard.failed(call.name, input), ..self }.tell(
                    "Changing strategy after a repeated tool failure..."@,
                ),
                ToolResultModel {
                    tool_use_id: call.id,
                    content: content + "\n\n"@ + REPEATED_FAILURE_INSTRUCTION@,
                    is_error,
                },
            )
        } else {
            (
                TurnModel { guard: self.guard.failed(call.name, input), ..self },
                ToolResultModel { tool_use_id: call.id, content, is_error },
            )
        }
    }

    /// The current call answered with a result that the guard counts.
    #[verifier::opaque]
    pub open spec fn answer_tracked(self, content: Seq<char>, is_error: bool) -> TurnModel {
        let (counted, result) = self.counted(self.current(), content, is_error);
        counted.with_state(
            counted.state.push_tool_results(seq![result]),
        ).session_updated().at(StageModel::NextCall)
    }

    /// The current call answered with a result that the guard does not count.
    #[verifier::opaque]
    pub open spec fn answer(self, content: Seq<char>, is_error: bool) -> TurnModel {
        self.with_state(
            self.state.push_tool_result(self.current().id, content, is_error),
        ).session_updated().at(StageModel::NextCall)
    }

    pub open spec fn ensure_started(self) -> TurnModel {
        if self.started {
            self
        } else {
            self.emit(started_event(self.current()))
        }
    }

    /// The current call failed; the failure is shown and counted.
    #[verifier::opaque]
    pub open spec fn call_failed(self, error: Seq<char>) -> TurnModel {
        self.emit(failed_event(self.current(), error)).answer_tracked(error, true)
    }

    #[verifier::opaque]
    pub open spec fn executed(self, outcome: OutcomeModel) -> TurnModel {
        match outcome {
            OutcomeModel::Completed(result) => self.emit(
                completed_event(self.current(), result),
            ).answer_tracked(result, false),
            OutcomeModel::Failed(error) => self.call_failed(error),
        }
    }

    // The waiting calls.
    #[verifier::opaque]
    pub open spec fn flush_then(self, resume: ResumeModel, fresh_id: Seq<char>) -> TurnModel {
        if self.batch.len() == 0 {
            self.resume(resume, fresh_id)
        } else {
            TurnModel {
                outbox: self.outbox + self.batch.map_values(
                    |waiting: ParallelCallModel| started_event(waiting.call),
                ),
                ..self.in_phase(AgentPhase::ExecutingTools)
            }.at(StageModel::Batch { resume })
        }
    }

    /// The outcome of a call, reported and counted.
    #[verifier::opaque]
    pub open spec fn record_outcome(self, call: ToolCallModel, outcome: OutcomeModel) -> (
        TurnModel,
        ToolResultModel,
    ) {
        match outcome {
            OutcomeModel::Completed(result) => self.emit(completed_event(call, result)).counted(
                call,
                result,
                false,
            ),
            OutcomeModel::Failed(error) => self.emit(failed_event(call, error)).counted(
                call,
                error,
                true,
            ),
        }
    }

    /// The outcomes of calls that ran together, reported and counted one by one.
    pub open spec fn record_outcomes(
        self,
        waiting: Seq<ParallelCallModel>,
        outcomes: Seq<OutcomeModel>,
    ) -> (TurnModel, Seq<ToolResultModel>)
        decreases waiting.len(),
    {
        if waiting.len() == 0 || outcomes.len() == 0 {
            (self, Seq::empty())
        } else {
            let (before, results) = self.record_outcomes(waiting.drop_last(), outcomes.drop_last());
            let (after, result) = before.record_outcome(waiting.last().call, outcomes.last());
            (after, results.push(result))
        }
    }

    #[verifier::opaque]
    pub open spec fn batch_executed(
        self,
        outcomes: Seq<OutcomeModel>,
        resume: ResumeModel,
        fresh_id: Seq<char>,
    ) -> TurnModel {
        let (recorded, results) = self.record_outcomes(self.batch, outcomes);
        TurnModel { batch: Seq::empty(), ..recorded }.with_state(
            recorded.state.push_tool_results(results),
        ).session_updated().resume(resume, fresh_id)
    }

    #[verifier::opaque]
    pub open spec fn resume(self, resume: ResumeModel, fresh_id: Seq<char>) -> TurnModel {
        match resume {
            ResumeModel::Recheck => self.recheck(),
            ResumeModel::Missing => self.tell("Adjusting tool selection..."@).answer_tracked(
                "Tool '"@ + self.current().name + "' not found"@,
                true,
            ),
            ResumeModel::Invalid { message } => self.tell(
                "Adjusting tool arguments..."@,
            ).answer_tracked(message, true),
            ResumeModel::Rejected { message } => self.tell(
                "Adjusting tool command..."@,
            ).answer_tracked(message, true),
            ResumeModel::Admit { safety } => self.admitted(safety),
            ResumeModel::Unchecked { message } => self.ensure_started().call_failed(message),
            ResumeModel::Forbidden { evaluation } => self.forbid(evaluation),
            ResumeModel::Unpreviewed { message } => self.ensure_started().call_failed(message),
            ResumeModel::Review { evaluation, preview, is_noop } => self.review(
                evaluation,
                preview,
                is_noop,
                fresh_id,
            ),
            ResumeModel::Resolve { evaluation } => self.resolve(evaluation, fresh_id),
            ResumeModel::EndRound => self.end_round(),
        }
    }

    // The steps of one call.
    #[verifier::opaque]
    pub open spec fn next_call(self, fresh_id: Seq<char>) -> TurnModel {
        if self.taken >= self.calls.len() {
            self.flush_then(ResumeModel::EndRound, fresh_id)
        } else {
            let taken = TurnModel { taken: one_more(self.taken), started: false, ..self };
            if taken.is_blocked() || is_pending(taken.batch, taken.current()) {
                taken.flush_then(ResumeModel::Recheck, fresh_id)
            } else {
                taken.recheck()
            }
        }
    }

    #[verifier::opaque]
    pub open spec fn recheck(self) -> TurnModel {
        if self.is_blocked() {
            TurnModel {
                blocked_repeat_calls: one_more(self.blocked_repeat_calls),
                ..self.emit(started_event(self.current())).emit(
                    failed_event(self.current(), REPEATED_CALL_BLOCKED_MESSAGE@),
                ).answer(REPEATED_CALL_BLOCKED_MESSAGE@, true)
            }
        } else {
            self.at(StageModel::Lookup)
        }
    }

    #[verifier::opaque]
    pub open spec fn tool_found(
        self,
        schema: Value,
        safety: ToolSafety,
        fresh_id: Seq<char>,
    ) -> TurnModel {
        let call = self.current();
        match rejection(call.name, json_model(schema), json_model(call.input)) {
            Some(message) => self.flush_then(ResumeModel::Invalid { message }, fresh_id),
            None => self.at(StageModel::Preflight { safety }),
        }
    }

    #[verifier::opaque]
    pub open spec fn preflight_passed(self, safety: ToolSafety, fresh_id: Seq<char>) -> TurnModel {
        let parallel = safety.is_read_only && safety.is_concurrency_safe;
        let judged = TurnModel { can_run_in_parallel: parallel, ..self };
        if parallel {
            judged.admitted(safety)
        } else {
            judged.flush_then(ResumeModel::Admit { safety }, fresh_id)
        }
    }

    #[verifier::opaque]
    pub open spec fn admitted(self, safety: ToolSafety) -> TurnModel {
        if !safety.is_read_only && self.managed {
            self.at(StageModel::Workers)
        } else {
            self.begin_check()
        }
    }

    #[verifier::opaque]
    pub open spec fn begin_check(self) -> TurnModel {
        if self.can_run_in_parallel {
            self.at(StageModel::Check)
        } else {
            TurnModel { started: true, ..self.emit(started_event(self.current())) }.at(
                StageModel::Check,
            )
        }
    }

    #[verifier::opaque]
    pub open spec fn evaluated(
        self,
        evaluation: EvaluationModel,
        fresh_id: Seq<char>,
    ) -> TurnModel {
        if evaluation.decision is Forbidden {
            self.flush_then(ResumeModel::Forbidden { evaluation }, fresh_id)
        } else {
            self.at(StageModel::Preview { evaluation })
        }
    }

    #[verifier::opaque]
    pub open spec fn forbid(self, evaluation: EvaluationModel) -> TurnModel {
        let reason = denial_reason(evaluation);
        self.ensure_started().emit(failed_event(self.current(), reason)).answer_tracked(
            "Permission denied: "@ + reason,
            true,
        )
    }

    #[verifier::opaque]
    pub open spec fn review(
        self,
        evaluation: EvaluationModel,
        preview: PreviewModel,
        is_noop: bool,
        fresh_id: Seq<char>,
    ) -> TurnModel {
        let shown = self.ensure_started();
        if is_noop || evaluation.decision is Allow {
            shown.run_previewed(preview)
        } else {
            shown.emit(
                EventModel::FileChangePreviewNeeded {
                    request_id: fresh_id,
                    tool_name: self.current().name,
                    input: self.current().input,
                    preview,
                },
            ).in_phase(AgentPhase::WaitingForPermission).at(
                StageModel::Review { request_id: fresh_id, preview },
            )
        }
    }

    #[verifier::opaque]
    pub open spec fn run_previewed(self, preview: PreviewModel) -> TurnModel {
        self.in_phase(AgentPhase::ExecutingTools).at(StageModel::RunPreviewed { preview })
    }

    #[verifier::opaque]
    pub open spec fn review_denied(self) -> TurnModel {
        TurnModel { guard: GuardModel::empty(), ..self }.emit(
            failed_event(self.current(), "File change rejected by user"@),
        ).answer("File change rejected by user"@, true)
    }

    #[verifier::opaque]
    pub open spec fn no_preview(
        self,
        evaluation: EvaluationModel,
        fresh_id: Seq<char>,
    ) -> TurnModel {
        if self.can_run_in_parallel && evaluation.decision is Allow {
            TurnModel {
                batch: self.batch.push(
                    ParallelCallModel {
                        call: self.current(),
                        sandbox_policy: evaluation.sandbox_policy,
                    },
                ),
                ..self
            }.at(StageModel::NextCall)
        } else {
            self.flush_then(ResumeModel::Resolve { evaluation }, fresh_id)
        }
    }

    #[verifier::opaque]
    pub open spec fn resolve(
        self,
        evaluation: EvaluationModel,
        fresh_id: Seq<char>,
    ) -> TurnModel {
        let shown = self.ensure_started();
        match evaluation.decision {
            Decision::Allow => shown.run(evaluation.sandbox_policy),
            Decision::Forbidden => self.forbid(evaluation),
            Decision::Prompt => shown.emit(
                EventModel::PermissionNeeded {
                    request_id: fresh_id,
                    tool_name: self.current().name,
                    input: self.current().input,
                    evaluation,
                },
            ).in_phase(AgentPhase::WaitingForPermission).at(
                StageModel::Permission {
                    request_id: fresh_id,
                    sandbox_policy: evaluation.sandbox_policy,
                },
            ),
        }
    }

    #[verifier::opaque]
    pub open spec fn run(self, sandbox_policy: Seq<char>) -> TurnModel {
        self.in_phase(AgentPhase::ExecutingTools).at(StageModel::Run { sandbox_policy })
    }

    #[verifier::opaque]
    pub open spec fn permission_denied(self, sandbox_policy: Seq<char>) -> TurnModel {
        self.emit(failed_event(self.current(), "Permission denied by user"@)).at(
            StageModel::Record {
                approved: false,
                scope: ApprovalScope::Once,
                sandbox_policy,
            },
        )
    }

    #[verifier::opaque]
    pub open spec fn recorded(self, approved: bool, sandbox_policy: Seq<char>) -> TurnModel {
        if approved {
            self.run(sandbox_policy)
        } else {
            TurnModel { guard: GuardModel::empty(), ..self }.answer(
                "Permission denied by user"@,
                true,
            )
        }
    }

    /// Whether the surroundings may report this now.
    pub open spec fn expects(self, input: InputModel) -> bool {
        match input {
            InputModel::BarrierClear => self.stage is Barrier,
            InputModel::BarrierWaiting { .. } => self.stage is Barrier,
            InputModel::BarrierCompleted { .. } => self.stage is Barrier,
            InputModel::BarrierFailed { .. } => self.stage is Barrier,
            InputModel::Estimated { .. } => self.stage is Estimate,
            InputModel::Compressed { .. } => self.stage is Compress,
            InputModel::CompressionFailed { .. } => self.stage is Compress,
            InputModel::Measured { .. } => self.stage is Measure,
            InputModel::GenerationFailed { .. } => self.stage is Generate,
            InputModel::StreamFailed => self.stage is Generate,
            InputModel::Responded { response } => self.stage is Generate && self.totals_fit(
                response,
            ),
            InputModel::Normalized { .. } => self.stage is Normalize,
            InputModel::Advance => self.stage is NextCall,
            InputModel::ToolMissing => self.stage is Lookup,
            InputModel::ToolFound { .. } => self.stage is Lookup,
            InputModel::PreflightPassed => self.stage is Preflight,
            InputModel::PreflightRejected { .. } => self.stage is Preflight,
            InputModel::WorkersIdle => self.stage is Workers,
            InputModel::Evaluated { .. } => self.stage is Check,
            InputModel::CheckFailed { .. } => self.stage is Check,
            InputModel::NoPreview => self.stage is Preview,
            InputModel::PreviewReady { .. } => self.stage is Preview,
            InputModel::PreviewFailed { .. } => self.stage is Preview,
            InputModel::ReviewApproved => self.stage is Review,
            InputModel::ReviewDenied => self.stage is Review,
            InputModel::PermissionApproved { .. } => self.stage is Permission,
            InputModel::PermissionDenied => self.stage is Permission,
            InputModel::Recorded => self.stage is Record,
            InputModel::Executed { .. } => self.stage is Run || self.stage is RunPreviewed,
            InputModel::BatchExecuted { outcomes } => self.stage is Batch && outcomes.len()
                == self.batch.len(),
            InputModel::Interrupted => true,
            InputModel::ShutdownRequested => true,
        }
    }

    /// A report about preparing and sending the request, taken in.
    #[verifier::opaque]
    pub open spec fn request_step(self, input: InputModel) -> TurnModel {
        let free = self.at(StageModel::Done);
        match input {
            InputModel::BarrierClear => free.at(StageModel::Estimate),
            InputModel::BarrierWaiting { count } => free.tell(
                "Waiting for "@ + decimal(count as nat) + " outstanding subagent task(s)..."@,
            ).at(StageModel::Barrier),
            InputModel::BarrierCompleted { rendered } => free.barrier_completed(rendered),
            InputModel::BarrierFailed { message } => free.fail(message),
            InputModel::Estimated { needs_compression } => free.estimated(needs_compression),
            InputModel::Compressed { messages } => free.compressed(messages),
            InputModel::CompressionFailed { message } => free.fail(message),
            InputModel::Measured { current_tokens, capabilities } => free.measured(
                current_tokens,
                capabilities,
            ),
            InputModel::GenerationFailed { message } => free.fail(message),
            InputModel::StreamFailed => free.in_phase(AgentPhase::Error),
            InputModel::Responded { response } => free.responded(response),
            InputModel::Normalized { messages } => free.normalized(
                messages,
                self.stage->final_message,
            ),
            _ => self,
        }
    }

    /// A report about preparing a tool call, taken in.
    #[verifier::opaque]
    pub open spec fn call_step(self, input: InputModel, fresh_id: Seq<char>) -> TurnModel {
        let free = self.at(StageModel::Done);
        match input {
            InputModel::Advance => free.next_call(fresh_id),
            InputModel::ToolMissing => free.flush_then(ResumeModel::Missing, fresh_id),
            InputModel::ToolFound { schema, safety } => free.tool_found(schema, safety, fresh_id),
            InputModel::PreflightPassed => free.preflight_passed(
                self.stage->Preflight_safety,
                fresh_id,
            ),
            InputModel::PreflightRejected { message } => free.flush_then(
                ResumeModel::Rejected { message },
                fresh_id,
            ),
            InputModel::WorkersIdle => free.begin_check(),
            InputModel::Evaluated { evaluation } => free.evaluated(evaluation, fresh_id),
            InputModel::CheckFailed { message } => free.flush_then(
                ResumeModel::Unchecked { message },
                fresh_id,
            ),
            InputModel::NoPreview => free.no_preview(self.stage->Preview_evaluation, fresh_id),
            InputModel::PreviewReady { preview, is_noop } => free.flush_then(
                ResumeModel::Review {
                    evaluation: self.stage->Preview_evaluation,
                    preview,
                    is_noop,
                },
                fresh_id,
            ),
            InputModel::PreviewFailed { message } => free.flush_then(
                ResumeModel::Unpreviewed { message },
                fresh_id,
            ),
            _ => self,
        }
    }

    /// The user's answer about a tool call, or its outcome, taken in.
    #[verifier::opaque]
    pub open spec fn outcome_step(self, input: InputModel, fresh_id: Seq<char>) -> TurnModel {
        let free = self.at(StageModel::Done);
        match input {
            InputModel::ReviewApproved => free.run_previewed(self.stage->Review_preview),
            InputModel::ReviewDenied => free.review_denied(),
            InputModel::PermissionApproved { scope } => free.at(
                StageModel::Record {
                    approved: true,
                    scope,
                    sandbox_policy: self.stage->Permission_sandbox_policy,
                },
            ),
            InputModel::PermissionDenied => free.permission_denied(
                self.stage->Permission_sandbox_policy,
            ),
            InputModel::Recorded => free.recorded(
                self.stage->Record_approved,
                self.stage->Record_sandbox_policy,
            ),
            InputModel::Executed { outcome } => free.executed(outcome),
            InputModel::BatchExecuted { outcomes } => free.batch_executed(
                outcomes,
                self.stage->Batch_resume,
                fresh_id,
            ),
            _ => self,
        }
    }

    /// One report taken in.
    pub open spec fn step(self, input: InputModel, fresh_id: Seq<char>) -> TurnModel {
        match input {
            InputModel::Interrupted => TurnModel { interrupted: true, ..self }.at(
                StageModel::Done,
            ),
            InputModel::ShutdownRequested => TurnModel { shutdown_requested: true, ..self }.at(
                StageModel::Done,
            ),
            _ => if self.is_requesting() {
                self.request_step(input)
            } else if self.is_deciding() {
                self.call_step(input, fresh_id)
            } else {
                self.outcome_step(input, fresh_id)
            },
        }
    }

    /// Whether the machine prepares or awaits a model response.
    pub open spec fn is_requesting(self) -> bool {
        ||| self.stage is Barrier
        ||| self.stage is Estimate
        ||| self.stage is Compress
        ||| self.stage is Measure
        ||| self.stage is Generate
        ||| self.stage is Normalize
    }

    /// Whether the machine decides about a tool call.
    pub open spec fn is_deciding(self) -> bool {
        ||| self.stage is NextCall
        ||| self.stage is Lookup
        ||| self.stage is Preflight
        ||| self.stage is Workers
        ||| self.stage is Check
        ||| self.stage is Preview
    }

    /// The conversation that the request carries.
    pub open spec fn request_messages(self) -> Seq<MessageModel> {
        if self.state.session_title_pending {
            with_title_instruction(self.state.messages)
        } else {
            self.state.messages
        }
    }
}

impl TurnModel {
    /// Whether a stage is about the call taken up last.
    pub open spec fn has_current(self) -> bool {
        1 <= self.taken <= self.calls.len()
    }

    pub open spec fn wf(self) -> bool {
        &&& self.taken <= self.calls.len()
        &&& match self.stage {
            StageModel::Lookup => self.has_current(),
            StageModel::Preflight { .. } => self.has_current(),
            StageModel::Workers => self.has_current(),
            StageModel::Check => self.has_current(),
            StageModel::Preview { .. } => self.has_current(),
            StageModel::Review { .. } => self.has_current(),
            StageModel::RunPreviewed { .. } => self.has_current(),
            StageModel::Permission { .. } => self.has_current(),
            StageModel::Record { .. } => self.has_current(),
            StageModel::Run { .. } => self.has_current(),
            StageModel::Batch { resume } => resume is EndRound || self.has_current(),
            _ => true,
        }
    }
}

proof fn lemma_recorded_frame(
    m: TurnModel,
    waiting: Seq<ParallelCallModel>,
    outcomes: Seq<OutcomeModel>,
)
    ensures
        ({
            let r = m.record_outcomes(waiting, outcomes).0;
            r == (TurnModel { guard: r.guard, outbox: r.outbox, ..m })
        }),
        waiting.len() == outcomes.len() ==> m.record_outcomes(waiting, outcomes).1.len()
            == waiting.len(),
    decreases waiting.len(),
{
    if waiting.len() > 0 && outcomes.len() > 0 {
        reveal(TurnModel::record_outcome);
        reveal(TurnModel::counted);
        lemma_recorded_frame(m, waiting.drop_last(), outcomes.drop_last());
    }
}

proof fn lemma_answer_wf(m: TurnModel, content: Seq<char>, is_error: bool)
    requires
        m.taken <= m.calls.len(),
    ensures
        m.answer(content, is_error).wf(),
        m.answer_tracked(content, is_error).wf(),
        m.call_failed(content).wf(),
{
    reveal(TurnModel::answer);
    reveal(TurnModel::answer_tracked);
    reveal(TurnModel::counted);
    reveal(TurnModel::call_failed);
}

proof fn lemma_recheck_wf(m: TurnModel)
    requires
        m.has_current(),
    ensures
        m.recheck().wf(),
{
    reveal(TurnModel::recheck);
    let shown = m.emit(started_event(m.current())).emit(
        failed_event(m.current(), REPEATED_CALL_BLOCKED_MESSAGE@),
    );
    lemma_answer_wf(shown, REPEATED_CALL_BLOCKED_MESSAGE@, true);
    reveal(TurnModel::answer);
}

proof fn lemma_resume_wf(m: TurnModel, resume: ResumeModel, fresh_id: Seq<char>)
    requires
        m.taken <= m.calls.len(),
        resume is EndRound || m.has_current(),
    ensures
        m.resume(resume, fresh_id).wf(),
{
    reveal(TurnModel::resume);
    match resume {
        ResumeModel::Recheck => lemma_recheck_wf(m),
        ResumeModel::Missing => lemma_answer_wf(
            m.tell("Adjusting tool selection..."@),
            "Tool '"@ + m.current().name + "' not found"@,
            true,
        ),
        ResumeModel::Invalid { message } => lemma_answer_wf(
            m.tell("Adjusting tool arguments..."@),
            message,
            true,
        ),
        ResumeModel::Rejected { message } => lemma_answer_wf(
            m.tell("Adjusting tool command..."@),
            message,
            true,
        ),
        ResumeModel::Admit { safety } => {
            reveal(TurnModel::admitted);
            reveal(TurnModel::begin_check);
        },
        ResumeModel::Unchecked { message } => lemma_answer_wf(m.ensure_started(), message, true),
        ResumeModel::Forbidden { evaluation } => lemma_forbid_wf(m, evaluation),
        ResumeModel::Unpreviewed { message } => lemma_answer_wf(m.ensure_started(), message, true),
        ResumeModel::Review { .. } => {
            reveal(TurnModel::review);
            reveal(TurnModel::run_previewed);
        },
        ResumeModel::Resolve { evaluation } => {
            lemma_forbid_wf(m, evaluation);
            reveal(TurnModel::resolve);
            reveal(TurnModel::run);
        },
        ResumeModel::EndRound => {
            reveal(TurnModel::end_round);
            reveal(TurnModel::judge_round);
            reveal(TurnModel::begin_round);
        },
    }
}

proof fn lemma_forbid_wf(m: TurnModel, evaluation: EvaluationModel)
    requires
        m.taken <= m.calls.len(),
    ensures
        m.forbid(evaluation).wf(),
{
    reveal(TurnModel::forbid);
    let reason = denial_reason(evaluation);
    lemma_answer_wf(
        m.ensure_started().emit(failed_event(m.current(), reason)),
        "Permission denied: "@ + reason,
        true,
    );
}

proof fn lemma_flush_wf(m: TurnModel, resume: ResumeModel, fresh_id: Seq<char>)
    requires
        m.taken <= m.calls.len(),
        resume is EndRound || m.has_current(),
    ensures
        m.flush_then(resume, fresh_id).wf(),
{
    reveal(TurnModel::flush_then);
    lemma_resume_wf(m, resume, fresh_id);
}

proof fn lemma_request_steps_wf(m: TurnModel, input: InputModel)
    requires
        m.taken <= m.calls.len(),
    ensures
        input matches InputModel::BarrierCompleted { rendered } ==> m.barrier_completed(
            rendered,
        ).wf(),
        input matches InputModel::Estimated { needs_compression } ==> m.estimated(
            needs_compression,
        ).wf(),
        input matches InputModel::Compressed { messages } ==> m.compressed(messages).wf(),
        input matches InputModel::Measured { current_tokens, capabilities } ==> m.measured(
            current_tokens,
            capabilities,
        ).wf(),
{
    reveal(TurnModel::barrier_completed);
    reveal(TurnModel::estimated);
    reveal(TurnModel::compressed);
    reveal(TurnModel::measured);
    reveal(TurnModel::start_request);
}

proof fn lemma_responded_wf(m: TurnModel, response: ResponseModel)
    requires
        m.taken <= m.calls.len(),
    ensures
        m.responded(response).wf(),
{
    reveal(TurnModel::responded);
}

proof fn lemma_normalized_wf(
    m: TurnModel,
    messages: Seq<MessageModel>,
    final_message: Seq<char>,
)
    requires
        m.taken <= m.calls.len(),
    ensures
        m.normalized(messages, final_message).wf(),
{
    reveal(TurnModel::normalized);
    reveal(TurnModel::refuse_calls);
}

proof fn lemma_next_call_wf(m: TurnModel, fresh_id: Seq<char>)
    requires
        m.taken <= m.calls.len(),
    ensures
        m.next_call(fresh_id).wf(),
{
    reveal(TurnModel::next_call);
    if m.taken >= m.calls.len() {
        lemma_flush_wf(m, ResumeModel::EndRound, fresh_id);
    } else {
        let taken = TurnModel { taken: one_more(m.taken), started: false, ..m };
        lemma_flush_wf(taken, ResumeModel::Recheck, fresh_id);
        lemma_recheck_wf(taken);
    }
}

proof fn lemma_tool_found_wf(
    m: TurnModel,
    schema: Value,
    safety: ToolSafety,
    fresh_id: Seq<char>,
)
    requires
        m.has_current(),
    ensures
        m.tool_found(schema, safety, fresh_id).wf(),
{
    reveal(TurnModel::tool_found);
    let call = m.current();
    if let Some(message) = rejection(call.name, json_model(schema), json_model(call.input)) {
        lemma_flush_wf(m, ResumeModel::Invalid { message }, fresh_id);
    }
}

proof fn lemma_preflight_passed_wf(m: TurnModel, safety: ToolSafety, fresh_id: Seq<char>)
    requires
        m.has_current(),
    ensures
        m.preflight_passed(safety, fresh_id).wf(),
{
    reveal(TurnModel::preflight_passed);
    reveal(TurnModel::admitted);
    reveal(TurnModel::begin_check);
    let parallel = safety.is_read_only && safety.is_concurrency_safe;
    lemma_flush_wf(
        TurnModel { can_run_in_parallel: parallel, ..m },
        ResumeModel::Admit { safety },
        fresh_id,
    );
}

proof fn lemma_check_steps_wf(m: TurnModel, evaluation: EvaluationModel, fresh_id: Seq<char>)
    requires
        m.has_current(),
    ensures
        m.begin_check().wf(),
        m.evaluated(evaluation, fresh_id).wf(),
        m.no_preview(evaluation, fresh_id).wf(),
{
    reveal(TurnModel::begin_check);
    reveal(TurnModel::evaluated);
    reveal(TurnModel::no_preview);
    lemma_flush_wf(m, ResumeModel::Forbidden { evaluation }, fresh_id);
    lemma_flush_wf(m, ResumeModel::Resolve { evaluation }, fresh_id);
}

proof fn lemma_answers_wf(
    m: TurnModel,
    preview: PreviewModel,
    approved: bool,
    sandbox_policy: Seq<char>,
)
    requires
        m.has_current(),
    ensures
        m.run_previewed(preview).wf(),
        m.review_denied().wf(),
        m.permission_denied(sandbox_policy).wf(),
        m.recorded(approved, sandbox_policy).wf(),
{
    reveal(TurnModel::run_previewed);
    reveal(TurnModel::review_denied);
    reveal(TurnModel::permission_denied);
    reveal(TurnModel::recorded);
    reveal(TurnModel::run);
    reveal(TurnModel::answer);
}

proof fn lemma_executed_wf(m: TurnModel, outcome: OutcomeModel)
    requires
        m.has_current(),
    ensures
        m.executed(outcome).wf(),
{
    reveal(TurnModel::executed);
    match outcome {
        OutcomeModel::Completed(result) => lemma_answer_wf(
            m.emit(completed_event(m.current(), result)),
            result,
            false,
        ),
        OutcomeModel::Failed(error) => lemma_answer_wf(m, error, true),
    }
}

proof fn lemma_batch_executed_wf(
    m: TurnModel,
    outcomes: Seq<OutcomeModel>,
    resume: ResumeModel,
    fresh_id: Seq<char>,
)
    requires
        m.taken <= m.calls.len(),
        resume is EndRound || m.has_current(),
    ensures
        m.batch_executed(outcomes, resume, fresh_id).wf(),
{
    reveal(TurnModel::batch_executed);
    lemma_recorded_frame(m, m.batch, outcomes);
    let (recorded, results) = m.record_outcomes(m.batch, outcomes);
    let answered = TurnModel { batch: Seq::empty(), ..recorded }.with_state(
        recorded.state.push_tool_results(results),
    ).session_updated();
    lemma_resume_wf(answered, resume, fresh_id);
}

/// A machine that is well-formed stays so: a stage that is about a call always has one.
pub proof fn law_step_keeps_wf(m: TurnModel, input: InputModel, fresh_id: Seq<char>)
    requires
        m.wf(),
        m.expects(input),
    ensures
        m.step(input, fresh_id).wf(),
{
    reveal(TurnModel::request_step);
    reveal(TurnModel::call_step);
    reveal(TurnModel::outcome_step);
    let f = m.at(StageModel::Done);
    match input {
        InputModel::Interrupted => {},
        InputModel::ShutdownRequested => {},
        InputModel::BarrierCompleted { .. } => {
            lemma_request_steps_wf(f, input);
        },
        InputModel::Estimated { .. } => {
            lemma_request_steps_wf(f, input);
        },
        InputModel::Compressed { .. } => {
            lemma_request_steps_wf(f, input);
        },
        InputModel::Measured { .. } => {
            lemma_request_steps_wf(f, input);
        },
        InputModel::Responded { response } => {
            lemma_responded_wf(f, response);
        },
        InputModel::Normalized { messages } => {
            lemma_normalized_wf(f, messages, m.stage->final_message);
        },
        InputModel::Advance => {
            lemma_next_call_wf(f, fresh_id);
        },
        InputModel::ToolMissing => {
            lemma_flush_wf(f, ResumeModel::Missing, fresh_id);
        },
        InputModel::ToolFound { schema, safety } => {
            lemma_tool_found_wf(f, schema, safety, fresh_id);
        },
        InputModel::PreflightPassed => {
            lemma_preflight_passed_wf(f, m.stage->Preflight_safety, fresh_id);
        },
        InputModel::PreflightRejected { message } => {
            lemma_flush_wf(f, ResumeModel::Rejected { message }, fresh_id);
        },
        InputModel::WorkersIdle => {
            lemma_check_steps_wf(f, m.stage->Preview_evaluation, fresh_id);
        },
        InputModel::Evaluated { evaluation } => {
            lemma_check_steps_wf(f, evaluation, fresh_id);
        },
        InputModel::CheckFailed { message } => {
            lemma_flush_wf(f, ResumeModel::Unchecked { message }, fresh_id);
        },
        InputModel::NoPreview => {
            lemma_check_steps_wf(f, m.stage->Preview_evaluation, fresh_id);
        },
        InputModel::PreviewReady { preview, is_noop } => {
            let evaluation = m.stage->Preview_evaluation;
            lemma_flush_wf(
                f,
                ResumeModel::Review { evaluation, preview, is_noop },
                fresh_id,
            );
        },
        InputModel::PreviewFailed { message } => {
            lemma_flush_wf(f, ResumeModel::Unpreviewed { message }, fresh_id);
        },
        InputModel::ReviewApproved => {
            lemma_answers_wf(f, m.stage->Review_preview, true, Seq::empty());
        },
        InputModel::ReviewDenied => {
            lemma_answers_wf(f, m.stage->Review_preview, true, Seq::empty());
        },
        InputModel::Executed { outcome } => {
            lemma_executed_wf(f, outcome);
        },
        InputModel::PermissionDenied => {
            lemma_answers_wf(
                f,
                m.stage->Review_preview,
                true,
                m.stage->Permission_sandbox_policy,
            );
        },
        InputModel::Recorded => {
            lemma_answers_wf(
                f,
                m.stage->Review_preview,
                m.stage->Record_approved,
                m.stage->Record_sandbox_policy,
            );
        },
        InputModel::BatchExecuted { outcomes } => {
            lemma_batch_executed_wf(f, outcomes, m.stage->Batch_resume, fresh_id);
        },
        _ => {},
    }
}

pub fn model_request_status(turn: usize) -> (r: String)
    ensures
        r@ == request_status(turn),
{
    if turn == 0 {
        owned("Thinking...")
    } else {
        owned("Thinking after tools...")
    }
}

impl TurnMachine {
    pub fn new(
        state: AgentState,
        model: String,
        max_tokens: usize,
        context_window: usize,
        managed: bool,
    ) -> (r: Self)
        ensures
            r@ == TurnModel::begin(
                state.deep_view(),
                model@,
                max_tokens,
                context_window,
                managed,
            ),
            r@.wf(),
    {
        proof {
            reveal(TurnModel::begin_round);
        }
        let mut state = state;
        state.turn_count = 0;
        let r = TurnMachine {
            model,
            max_tokens,
            context_window,
            managed,
            state,
            turn: 0,
            interrupted: false,
            shutdown_requested: false,
            guard: RepeatedFailureGuard::default(),
            force_text_only: false,
            text_only_request: false,
            blocked_only_rounds: 0,
            blocked_repeat_calls: 0,
            calls: Vec::new(),
            taken: 0,
            batch: Vec::new(),
            started: false,
            can_run_in_parallel: false,
            stage: TurnStage::Barrier,
            outbox: Vec::new(),
        };
        assert(r.calls.deep_view() =~= Seq::empty());
        assert(r.batch.deep_view() =~= Seq::empty());
        assert(r.outbox.deep_view() =~= Seq::empty());
        r
    }

    /// The tokens that the conversation may take.
    pub fn input_budget(&self) -> (r: usize)
        ensures
            r == budget(self@.max_tokens, self@.context_window),
    {
        input_budget(self.max_tokens, self.context_window)
    }

    /// Whether the request offers the model any tools.
    pub fn offers_tools(&self) -> (r: bool)
        ensures
            r == !self@.text_only_request,
    {
        !self.text_only_request
    }

    /// The conversation that the request carries.
    pub fn request_messages(&self) -> (r: Vec<Message>)
        ensures
            r.deep_view() == self@.request_messages(),
    {
        if self.state.session_title_pending {
            messages_with_title_instruction(&self.state.messages)
        } else {
            clone_messages(&self.state.messages)
        }
    }

    /// The call that the current stage is about.
    pub fn current_call(&self) -> (r: ToolCall)
        requires
            self@.has_current(),
        ensures
            r.deep_view() == self@.current(),
    {
        assert(self@.calls[self.taken - 1] == self.calls@[self.taken - 1].deep_view());
        self.calls[self.taken - 1].clone()
    }

    /// The events emitted so far, which are then forgotten.
    pub fn take_events(&mut self) -> (r: Vec<AgentEvent>)
        ensures
            r.deep_view() == old(self)@.outbox,
            final(self)@ == (TurnModel { outbox: Seq::empty(), ..old(self)@ }),
    {
        let mut events: Vec<AgentEvent> = Vec::new();
        events.append(&mut self.outbox);
        assert(events.deep_view() =~= old(self)@.outbox);
        assert(self@.outbox =~= Seq::empty());
        events
    }

    fn emit(&mut self, event: AgentEvent)
        ensures
            final(self)@ == old(self)@.emit(event.deep_view()),
    {
        self.outbox.push(event);
        assert(self@.outbox =~= old(self)@.outbox.push(event.deep_view()));
    }

    fn tell(&mut self, message: &str)
        ensures
            final(self)@ == old(self)@.tell(message@),
    {
        self.emit(status(message));
    }

    fn session_updated(&mut self)
        ensures
            final(self)@ == old(self)@.session_updated(),
    {
        let messages = clone_messages(&self.state.messages);
        self.emit(AgentEvent::SessionUpdated { messages });
    }

    fn fail(&mut self, message: String)
        ensures
            final(self)@ == old(self)@.fail(message@),
    {
        self.emit(AgentEvent::AgentError { message });
        self.state.phase = AgentPhase::Error;
        self.stage = TurnStage::Done;
    }

    fn emit_started(&mut self)
        requires
            old(self)@.has_current(),
        ensures
            final(self)@ == old(self)@.emit(started_event(old(self)@.current())),
    {
        let call = self.current_call();
        self.emit(AgentEvent::ToolCallStarted { id: call.id, name: call.name, input: call.input });
    }

    fn emit_failed(&mut self, error: &str)
        requires
            old(self)@.has_current(),
        ensures
            final(self)@ == old(self)@.emit(failed_event(old(self)@.current(), error@)),
    {
        let call = self.current_call();
        self.emit(
            AgentEvent::ToolCallFailed { id: call.id, name: call.name, error: error.to_owned() },
        );
    }

    fn is_blocked(&self) -> (r: bool)
        requires
            self@.has_current(),
        ensures
            r == self@.is_blocked(),
    {
        let call = self.current_call();
        self.guard.should_block(call.name.as_str(), &call.input)
    }

    fn begin_round(&mut self)
        ensures
            final(self)@ == old(self)@.begin_round(),
    {
        proof {
            reveal(TurnModel::begin_round);
        }
        self.state.turn_count = self.turn;
        self.stage = TurnStage::Barrier;
    }

    fn take_stage(&mut self) -> (r: TurnStage)
        ensures
            r.deep_view() == old(self)@.stage,
            final(self)@ == old(self)@.at(StageModel::Done),
    {
        let mut stage = TurnStage::Done;
        core::mem::swap(&mut stage, &mut self.stage);
        stage
    }

    fn barrier_completed(&mut self, rendered: &str)
        ensures
            final(self)@ == old(self)@.barrier_completed(rendered@),
    {
        proof {
            reveal(TurnModel::barrier_completed);
        }
        let message = concat2(SUBAGENT_RESULTS_INTRODUCTION, rendered);
        self.state.push_user(message.as_str());
        self.session_updated();
        self.stage = TurnStage::Estimate;
    }

    fn estimated(&mut self, needs_compression: bool)
        ensures
            final(self)@ == old(self)@.estimated(needs_compression),
    {
        proof {
            reveal(TurnModel::estimated);
        }
        if needs_compression {
            self.state.phase = AgentPhase::CompressingContext;
            self.tell("Compressing context...");
            self.stage = TurnStage::Compress;
        } else {
            self.start_request();
        }
    }

    fn compressed(&mut self, messages: Vec<Message>)
        ensures
            final(self)@ == old(self)@.compressed(messages.deep_view()),
    {
        proof {
            reveal(TurnModel::compressed);
        }
        self.state.messages = messages;
        self.start_request();
    }

    fn permission_denied(&mut self, sandbox_policy: String)
        requires
            old(self)@.has_current(),
        ensures
            final(self)@ == old(self)@.permission_denied(sandbox_policy@),
    {
        proof {
            reveal(TurnModel::permission_denied);
        }
        self.emit_failed("Permission denied by user");
        self.stage = TurnStage::Record {
            approved: false,
            scope: ApprovalScope::Once,
            sandbox_policy,
        };
    }

    fn start_request(&mut self)
        ensures
            final(self)@ == old(self)@.start_request(),
    {
        proof {
            reveal(TurnModel::start_request);
        }
        self.state.phase = AgentPhase::Generating;
        self.text_only_request = self.force_text_only;
        self.force_text_only = false;
        let message = model_request_status(self.turn);
        self.tell(message.as_str());
        self.stage = TurnStage::Measure;
    }

    fn measured(&mut self, current_tokens: usize, capabilities: Capabilities)
        ensures
            final(self)@ == old(self)@.measured(current_tokens, capabilities),
    {
        proof {
            reveal(TurnModel::measured);
        }
        let limit: usize = request_max_tokens(
            self.max_tokens,
            self.context_window,
            current_tokens,
        );
        let key = concat2("deepcode-", self.model.as_str());
        let params = generate_params(
            limit,
            capabilities,
            &self.state.reasoning_effort,
            &self.state.messages,
            key,
        );
        self.stage = TurnStage::Generate { params };
    }

    fn responded(&mut self, response: StreamedResponse)
        requires
            old(self)@.totals_fit(response.deep_view()),
        ensures
            final(self)@ == old(self)@.responded(response.deep_view()),
    {
        proof {
            reveal(TurnModel::responded);
        }
        self.state.total_input_tokens = self.state.total_input_tokens + response.usage.input_tokens;
        self.state.total_output_tokens = self.state.total_output_tokens
            + response.usage.output_tokens;
        self.emit(AgentEvent::TurnComplete(response.usage));
        let refused = match response.finish_reason {
            Some(reason) => reason == FinishReason::ContentFilter,
            None => false,
        };
        if refused {
            self.fail(owned(REFUSED_MESSAGE));
            return ;
        }
        if response.session_title_resolved {
            self.state.session_title_pending = false;
        }
        let content = response_blocks_to_content(&response.response_blocks);
        self.state.push_assistant(content);
        self.calls = tool_calls_from_blocks(&response.response_blocks);
        self.taken = 0;
        let final_message = final_text_from_blocks(&response.response_blocks);
        self.stage = TurnStage::Normalize { final_message };
    }

    fn normalized(&mut self, messages: Vec<Message>, final_message: String)
        ensures
            final(self)@ == old(self)@.normalized(messages.deep_view(), final_message@),
    {
        proof {
            reveal(TurnModel::normalized);
        }
        self.state.messages = messages;
        self.session_updated();
        if self.calls.len() == 0 {
            self.emit(AgentEvent::AgentFinished { final_message });
            self.state.phase = AgentPhase::Idle;
            self.stage = TurnStage::Done;
            return ;
        }
        if self.text_only_request {
            self.refuse_calls();
            return ;
        }
        self.state.phase = AgentPhase::ParsingToolCalls;
        let count = decimal_of(self.calls.len() as u64);
        let message = concat3("Preparing ", count.as_str(), " tool call(s)...");
        self.tell(message.as_str());
        self.batch = Vec::new();
        self.blocked_repeat_calls = 0;
        self.stage = TurnStage::NextCall;
        assert(self@.batch =~= Seq::empty());
    }

    fn refuse_calls(&mut self)
        ensures
            final(self)@ == old(self)@.refuse_calls(),
    {
        proof {
            reveal(TurnModel::refuse_calls);
        }
        let ghost m = self@;
        let ghost events = m.calls.map_values(
            |call: ToolCallModel| failed_event(call, REPEATED_CALL_BLOCKED_MESSAGE@),
        );
        let ghost results = m.calls.map_values(
            |call: ToolCallModel|
                ToolResultModel {
                    tool_use_id: call.id,
                    content: REPEATED_CALL_BLOCKED_MESSAGE@,
                    is_error: true,
                },
        );
        let mut blocked: Vec<ToolResultEntry> = Vec::new();
        let mut i: usize = 0;
        assert(m.outbox + events.take(0) =~= m.outbox);
        while i < self.calls.len()
            invariant
                i <= self.calls.len(),
                self.calls.deep_view() == m.calls,
                events == m.calls.map_values(
                    |call: ToolCallModel| failed_event(call, REPEATED_CALL_BLOCKED_MESSAGE@),
                ),
                results == m.calls.map_values(
                    |call: ToolCallModel|
                        ToolResultModel {
                            tool_use_id: call.id,
                            content: REPEATED_CALL_BLOCKED_MESSAGE@,
                            is_error: true,
                        },
                ),
                self@ == (TurnModel { outbox: m.outbox + events.take(i as int), ..m }),
                blocked.deep_view() == results.take(i as int),
            decreases self.calls.len() - i,
        {
            let ghost before = blocked.deep_view();
            let call = self.calls[i].clone();
            assert(call.deep_view() == m.calls[i as int]);
            let entry = ToolResultEntry::new(
                call.id.as_str(),
                REPEATED_CALL_BLOCKED_MESSAGE,
                true,
            );
            self.emit(
                AgentEvent::ToolCallFailed {
                    id: call.id,
                    name: call.name,
                    error: owned(REPEATED_CALL_BLOCKED_MESSAGE),
                },
            );
            blocked.push(entry);
            assert(blocked.deep_view() =~= before.push(entry.deep_view()));
            assert(results.take(i + 1) =~= results.take(i as int).push(results[i as int]));
            assert(events.take(i + 1) =~= events.take(i as int).push(events[i as int]));
            assert(m.outbox + events.take(i + 1) =~= (m.outbox + events.take(i as int)).push(
                events[i as int],
            ));
            i += 1;
        }
        assert(events.take(i as int) =~= events);
        assert(results.take(i as int) =~= results);
        self.state.push_tool_results(blocked);
        let mut content: Vec<ContentBlock> = Vec::new();
        content.push(ContentBlock::Text { text: owned(STOPPED_RETRYING_MESSAGE) });
        assert(content.deep_view() =~= seq![
            ContentBlockModel::Text { text: STOPPED_RETRYING_MESSAGE@ },
        ]);
        self.state.push_assistant(content);
        self.session_updated();
        self.emit(AgentEvent::AgentFinished { final_message: owned(STOPPED_RETRYING_MESSAGE) });
        self.state.phase = AgentPhase::Idle;
        self.stage = TurnStage::Done;
    }

    fn judge_round(&mut self)
        ensures
            final(self)@ == old(self)@.judge_round(),
    {
        proof {
            reveal(TurnModel::judge_round);
        }
        if self.blocked_repeat_calls != self.calls.len() {
            self.blocked_only_rounds = 0;
            return ;
        }
        self.blocked_only_rounds = self.blocked_only_rounds.saturating_add(1);
        if self.blocked_only_rounds >= REPEATED_BLOCKED_ROUND_LIMIT {
            self.force_text_only = true;
            self.tell("Stopping repeated tool retries and preparing an explanation...");
        } else {
            self.tell("Repeated call blocked; trying a different approach...");
        }
    }

    fn end_round(&mut self)
        ensures
            final(self)@ == old(self)@.end_round(),
    {
        proof {
            reveal(TurnModel::end_round);
        }
        self.judge_round();
        self.turn = self.turn.saturating_add(1);
        self.begin_round();
    }

    fn tracked_tool_result_entry(
        &mut self,
        call: &ToolCall,
        content: &str,
        is_error: bool,
    ) -> (r: ToolResultEntry)
        ensures
            (final(self)@, r.deep_view()) == old(self)@.counted(
                call.deep_view(),
                content@,
                is_error,
            ),
    {
        proof {
            reveal(TurnModel::counted);
        }
        if !is_error {
            self.guard.reset();
            return ToolResultEntry::new(call.id.as_str(), content, is_error);
        }
        if self.guard.record_failure(call.name.as_str(), &call.input) {
            self.tell("Changing strategy after a repeated tool failure...");
            let longer = concat3(content, "\n\n", REPEATED_FAILURE_INSTRUCTION);
            ToolResultEntry::new(call.id.as_str(), longer.as_str(), is_error)
        } else {
            ToolResultEntry::new(call.id.as_str(), content, is_error)
        }
    }

    fn answer_tracked(&mut self, content: &str, is_error: bool)
        requires
            old(self)@.has_current(),
        ensures
            final(self)@ == old(self)@.answer_tracked(content@, is_error),
    {
        proof {
            reveal(TurnModel::answer_tracked);
        }
        let call = self.current_call();
        let entry = self.tracked_tool_result_entry(&call, content, is_error);
        let mut results: Vec<ToolResultEntry> = Vec::new();
        results.push(entry);
        assert(results.deep_view() =~= seq![entry.deep_view()]);
        self.state.push_tool_results(results);
        self.session_updated();
        self.stage = TurnStage::NextCall;
    }

    fn answer(&mut self, content: &str, is_error: bool)
        requires
            old(self)@.has_current(),
        ensures
            final(self)@ == old(self)@.answer(content@, is_error),
    {
        proof {
            reveal(TurnModel::answer);
        }
        let call = self.current_call();
        self.state.push_tool_result(call.id.as_str(), content, is_error);
        self.session_updated();
        self.stage = TurnStage::NextCall;
    }

    fn ensure_started(&mut self)
        requires
            old(self)@.has_current(),
        ensures
            final(self)@ == old(self)@.ensure_started(),
    {
        if !self.started {
            self.emit_started();
        }
    }

    fn call_failed(&mut self, error: &str)
        requires
            old(self)@.has_current(),
        ensures
            final(self)@ == old(self)@.call_failed(error@),
    {
        proof {
            reveal(TurnModel::call_failed);
        }
        self.emit_failed(error);
        self.answer_tracked(error, true);
    }

    fn executed(&mut self, outcome: ToolOutcome)
        requires
            old(self)@.has_current(),
        ensures
            final(self)@ == old(self)@.executed(outcome.deep_view()),
    {
        proof {
            reveal(TurnModel::executed);
        }
        match outcome {
            ToolOutcome::Completed(result) => {
                let call = self.current_call();
                self.emit(
                    AgentEvent::ToolCallCompleted {
                        id: call.id,
                        name: call.name,
                        result: result.clone(),
                    },
                );
                self.answer_tracked(result.as_str(), false);
            },
            ToolOutcome::Failed(error) => {
                self.call_failed(error.as_str());
            },
        }
    }

    /// Has the waiting calls run, if there are any, before going on.
    fn flush_parallel_tool_calls(&mut self, resume: Resume, fresh_id: String)
        requires
            old(self)@.taken <= old(self)@.calls.len(),
            resume is EndRound || old(self)@.has_current(),
        ensures
            final(self)@ == old(self)@.flush_then(resume.deep_view(), fresh_id@),
    {
        proof {
            reveal(TurnModel::flush_then);
        }
        if self.batch.len() == 0 {
            self.resume(resume, fresh_id);
            return ;
        }
        let ghost m = self@.in_phase(AgentPhase::ExecutingTools);
        self.state.phase = AgentPhase::ExecutingTools;
        let ghost events = m.batch.map_values(
            |waiting: ParallelCallModel| started_event(waiting.call),
        );
        let mut i: usize = 0;
        assert(m.outbox + events.take(0) =~= m.outbox);
        while i < self.batch.len()
            invariant
                i <= self.batch.len(),
                self.batch.deep_view() == m.batch,
                events == m.batch.map_values(
                    |waiting: ParallelCallModel| started_event(waiting.call),
                ),
                self@ == (TurnModel { outbox: m.outbox + events.take(i as int), ..m }),
            decreases self.batch.len() - i,
        {
            let call = self.batch[i].call.clone();
            assert(self.batch@[i as int].deep_view() == m.batch[i as int]);
            self.emit(
                AgentEvent::ToolCallStarted { id: call.id, name: call.name, input: call.input },
            );
            assert(m.outbox + events.take(i + 1) =~= (m.outbox + events.take(i as int)).push(
                events[i as int],
            ));
            i += 1;
        }
        assert(events.take(i as int) =~= events);
        self.stage = TurnStage::Batch { resume };
    }

    fn record_outcome(&mut self, call: &ToolCall, outcome: &ToolOutcome) -> (r: ToolResultEntry)
        ensures
            (final(self)@, r.deep_view()) == old(self)@.record_outcome(
                call.deep_view(),
                outcome.deep_view(),
            ),
    {
        proof {
            reveal(TurnModel::record_outcome);
        }
        match outcome {
            ToolOutcome::Completed(result) => {
                self.emit(
                    AgentEvent::ToolCallCompleted {
                        id: call.id.clone(),
                        name: call.name.clone(),
                        result: result.clone(),
                    },
                );
                self.tracked_tool_result_entry(call, result.as_str(), false)
            },
            ToolOutcome::Failed(error) => {
                self.emit(
                    AgentEvent::ToolCallFailed {
                        id: call.id.clone(),
                        name: call.name.clone(),
                        error: error.clone(),
                    },
                );
                self.tracked_tool_result_entry(call, error.as_str(), true)
            },
        }
    }

    fn batch_executed(&mut self, outcomes: Vec<ToolOutcome>, resume: Resume, fresh_id: String)
        requires
            outcomes.deep_view().len() == old(self)@.batch.len(),
            old(self)@.taken <= old(self)@.calls.len(),
            resume is EndRound || old(self)@.has_current(),
        ensures
            final(self)@ == old(self)@.batch_executed(
                outcomes.deep_view(),
                resume.deep_view(),
                fresh_id@,
            ),
    {
        proof {
            reveal(TurnModel::batch_executed);
        }
        let ghost m = self@;
        let ghost all = outcomes.deep_view();
        let mut results: Vec<ToolResultEntry> = Vec::new();
        let mut i: usize = 0;
        assert(results.deep_view() =~= Seq::empty());
        while i < self.batch.len()
            invariant
                i <= self.batch.len(),
                all == outcomes.deep_view(),
                all.len() == self.batch.len(),
                self.batch.deep_view() == m.batch,
                (self@, results.deep_view()) == m.record_outcomes(
                    m.batch.take(i as int),
                    all.take(i as int),
                ),
            decreases self.batch.len() - i,
        {
            let ghost before = results.deep_view();
            assert(m.batch.take(i + 1).drop_last() =~= m.batch.take(i as int));
            assert(all.take(i + 1).drop_last() =~= all.take(i as int));
            proof {
                lemma_recorded_frame(m, m.batch.take(i as int), all.take(i as int));
                lemma_recorded_frame(m, m.batch.take(i + 1), all.take(i + 1));
            }
            let call = self.batch[i].call.clone();
            assert(self.batch@[i as int].deep_view() == m.batch[i as int]);
            assert(all[i as int] == outcomes@[i as int].deep_view());
            let entry = self.record_outcome(&call, &outcomes[i]);
            results.push(entry);
            assert(results.deep_view() =~= before.push(entry.deep_view()));
            assert((self@, results.deep_view()) == m.record_outcomes(
                m.batch.take(i + 1),
                all.take(i + 1),
            ));
            assert(self@.batch == m.batch);
            assert(self.batch.deep_view().len() == self.batch.len());
            i += 1;
        }
        assert(m.batch.take(i as int) =~= m.batch);
        assert(all.take(i as int) =~= all);
        proof {
            lemma_recorded_frame(m, m.batch, all);
        }
        self.batch = Vec::new();
        assert(self@.batch =~= Seq::empty());
        self.state.push_tool_results(results);
        self.session_updated();
        self.resume(resume, fresh_id);
    }

    fn resume(&mut self, resume: Resume, fresh_id: String)
        requires
            old(self)@.taken <= old(self)@.calls.len(),
            resume is EndRound || old(self)@.has_current(),
        ensures
            final(self)@ == old(self)@.resume(resume.deep_view(), fresh_id@),
    {
        proof {
            reveal(TurnModel::resume);
        }
        match resume {
            Resume::Recheck => {
                self.recheck();
            },
            Resume::Missing => {
                let call = self.current_call();
                self.tell("Adjusting tool selection...");
                let message = concat3("Tool '", call.name.as_str(), "' not found");
                self.answer_tracked(message.as_str(), true);
            },
            Resume::Invalid { message } => {
                self.tell("Adjusting tool arguments...");
                self.answer_tracked(message.as_str(), true);
            },
            Resume::Rejected { message } => {
                self.tell("Adjusting tool command...");
                self.answer_tracked(message.as_str(), true);
            },
            Resume::Admit { safety } => {
                self.let_in(safety);
            },
            Resume::Unchecked { message } => {
                self.ensure_started();
                self.call_failed(message.as_str());
            },
            Resume::Forbidden { evaluation } => {
                self.forbid(&evaluation);
            },
            Resume::Unpreviewed { message } => {
                self.ensure_started();
                self.call_failed(message.as_str());
            },
            Resume::Review { evaluation, preview, is_noop } => {
                self.review(&evaluation, preview, is_noop, fresh_id);
            },
            Resume::Resolve { evaluation } => {
                self.resolve(evaluation, fresh_id);
            },
            Resume::EndRound => {
                self.end_round();
            },
        }
    }

    fn call_is_pending(&self, call: &ToolCall) -> (r: bool)
        ensures
            r == is_pending(self@.batch, call.deep_view()),
    {
        let mut i: usize = 0;
        while i < self.batch.len()
            invariant
                i <= self.batch.len(),
                forall|j: int|
                    0 <= j < i ==> !same_call(#[trigger] self@.batch[j].call, call.deep_view()),
            decreases self.batch.len() - i,
        {
            let waiting = &self.batch[i].call;
            assert(self@.batch[i as int].call == waiting.deep_view());
            if same_text(waiting.name.as_str(), call.name.as_str()) && same_json(
                &waiting.input,
                &call.input,
            ) {
                return true;
            }
            i += 1;
        }
        false
    }

    fn next_call(&mut self, fresh_id: String)
        requires
            old(self)@.taken <= old(self)@.calls.len(),
        ensures
            final(self)@ == old(self)@.next_call(fresh_id@),
    {
        proof {
            reveal(TurnModel::next_call);
        }
        if self.taken >= self.calls.len() {
            self.flush_parallel_tool_calls(Resume::EndRound, fresh_id);
            return ;
        }
        self.taken = self.taken + 1;
        self.started = false;
        let call = self.current_call();
        if self.is_blocked() || self.call_is_pending(&call) {
            self.flush_parallel_tool_calls(Resume::Recheck, fresh_id);
        } else {
            self.recheck();
        }
    }

    fn recheck(&mut self)
        requires
            old(self)@.has_current(),
        ensures
            final(self)@ == old(self)@.recheck(),
    {
        proof {
            reveal(TurnModel::recheck);
            reveal(TurnModel::answer);
        }
        if self.is_blocked() {
            self.emit_started();
            self.emit_failed(REPEATED_CALL_BLOCKED_MESSAGE);
            self.answer(REPEATED_CALL_BLOCKED_MESSAGE, true);
            self.blocked_repeat_calls = self.blocked_repeat_calls.saturating_add(1);
        } else {
            self.stage = TurnStage::Lookup;
        }
    }

    fn tool_found(&mut self, schema: &Value, safety: ToolSafety, fresh_id: String)
        requires
            old(self)@.has_current(),
        ensures
            final(self)@ == old(self)@.tool_found(*schema, safety, fresh_id@),
    {
        proof {
            reveal(TurnModel::tool_found);
        }
        let call = self.current_call();
        match invalid_tool_input_message(call.name.as_str(), schema, &call.input) {
            Some(message) => {
                self.flush_parallel_tool_calls(Resume::Invalid { message }, fresh_id);
            },
            None => {
                self.stage = TurnStage::Preflight { safety };
            },
        }
    }

    fn preflight_passed(&mut self, safety: ToolSafety, fresh_id: String)
        requires
            old(self)@.has_current(),
        ensures
            final(self)@ == old(self)@.preflight_passed(safety, fresh_id@),
    {
        proof {
            reveal(TurnModel::preflight_passed);
        }
        self.can_run_in_parallel = safety.is_read_only && safety.is_concurrency_safe;
        if self.can_run_in_parallel {
            self.let_in(safety);
        } else {
            self.flush_parallel_tool_calls(Resume::Admit { safety }, fresh_id);
        }
    }

    fn let_in(&mut self, safety: ToolSafety)
        requires
            old(self)@.has_current(),
        ensures
            final(self)@ == old(self)@.admitted(safety),
    {
        proof {
            reveal(TurnModel::admitted);
        }
        if !safety.is_read_only && self.managed {
            self.stage = TurnStage::Workers;
        } else {
            self.begin_check();
        }
    }

    fn begin_check(&mut self)
        requires
            old(self)@.has_current(),
        ensures
            final(self)@ == old(self)@.begin_check(),
    {
        proof {
            reveal(TurnModel::begin_check);
        }
        if !self.can_run_in_parallel {
            self.emit_started();
            self.started = true;
        }
        self.stage = TurnStage::Check;
    }

    fn evaluated(&mut self, evaluation: PermissionEvaluation, fresh_id: String)
        requires
            old(self)@.has_current(),
        ensures
            final(self)@ == old(self)@.evaluated(evaluation.deep_view(), fresh_id@),
    {
        proof {
            reveal(TurnModel::evaluated);
        }
        if evaluation.decision == Decision::Forbidden {
            self.flush_parallel_tool_calls(Resume::Forbidden { evaluation }, fresh_id);
        } else {
            self.stage = TurnStage::Preview { evaluation };
        }
    }

    fn forbid(&mut self, evaluation: &PermissionEvaluation)
        requires
            old(self)@.has_current(),
        ensures
            final(self)@ == old(self)@.forbid(evaluation.deep_view()),
    {
        proof {
            reveal(TurnModel::forbid);
        }
        let reason = policy_denial_reason(evaluation);
        self.ensure_started();
        self.emit_failed(reason.as_str());
        let message = concat2("Permission denied: ", reason.as_str());
        self.answer_tracked(message.as_str(), true);
    }

    fn review(
        &mut self,
        evaluation: &PermissionEvaluation,
        preview: FileChangePreview,
        is_noop: bool,
        fresh_id: String,
    )
        requires
            old(self)@.has_current(),
        ensures
            final(self)@ == old(self)@.review(
                evaluation.deep_view(),
                preview.deep_view(),
                is_noop,
                fresh_id@,
            ),
    {
        proof {
            reveal(TurnModel::review);
        }
        self.ensure_started();
        if is_noop || evaluation.decision == Decision::Allow {
            self.run_previewed(preview);
            return ;
        }
        let call = self.current_call();
        self.emit(
            AgentEvent::FileChangePreviewNeeded {
                request_id: fresh_id.clone(),
                tool_name: call.name,
                input: call.input,
                preview: preview.clone(),
            },
        );
        self.state.phase = AgentPhase::WaitingForPermission;
        self.stage = TurnStage::Review { request_id: fresh_id, preview };
    }

    fn run_previewed(&mut self, preview: FileChangePreview)
        ensures
            final(self)@ == old(self)@.run_previewed(preview.deep_view()),
    {
        proof {
            reveal(TurnModel::run_previewed);
        }
        self.state.phase = AgentPhase::ExecutingTools;
        self.stage = TurnStage::RunPreviewed { preview };
    }

    fn review_denied(&mut self)
        requires
            old(self)@.has_current(),
        ensures
            final(self)@ == old(self)@.review_denied(),
    {
        proof {
            reveal(TurnModel::review_denied);
        }
        self.guard.reset();
        self.emit_failed("File change rejected by user");
        self.answer("File change rejected by user", true);
    }

    fn no_preview(&mut self, evaluation: PermissionEvaluation, fresh_id: String)
        requires
            old(self)@.has_current(),
        ensures
            final(self)@ == old(self)@.no_preview(evaluation.deep_view(), fresh_id@),
    {
        proof {
            reveal(TurnModel::no_preview);
        }
        if self.can_run_in_parallel && evaluation.decision == Decision::Allow {
            let call = self.current_call();
            let waiting = ParallelToolCall { call, sandbox_policy: evaluation.sandbox_policy };
            self.batch.push(waiting);
            assert(self@.batch =~= old(self)@.batch.push(waiting.deep_view()));
            self.stage = TurnStage::NextCall;
        } else {
            self.flush_parallel_tool_calls(Resume::Resolve { evaluation }, fresh_id);
        }
    }

    fn resolve(&mut self, evaluation: PermissionEvaluation, fresh_id: String)
        requires
            old(self)@.has_current(),
        ensures
            final(self)@ == old(self)@.resolve(evaluation.deep_view(), fresh_id@),
    {
        proof {
            reveal(TurnModel::resolve);
        }
        match evaluation.decision {
            Decision::Allow => {
                self.ensure_started();
                self.run(evaluation.sandbox_policy);
            },
            Decision::Forbidden => {
                self.forbid(&evaluation);
            },
            Decision::Prompt => {
                self.ensure_started();
                let call = self.current_call();
                let sandbox_policy = evaluation.sandbox_policy.clone();
                self.emit(
                    AgentEvent::PermissionNeeded {
                        request_id: fresh_id.clone(),
                        tool_name: call.name,
                        input: call.input,
                        evaluation,
                    },
                );
                self.state.phase = AgentPhase::WaitingForPermission;
                self.stage = TurnStage::Permission { request_id: fresh_id, sandbox_policy };
            },
        }
    }

    fn run(&mut self, sandbox_policy: String)
        ensures
            final(self)@ == old(self)@.run(sandbox_policy@),
    {
        proof {
            reveal(TurnModel::run);
        }
        self.state.phase = AgentPhase::ExecutingTools;
        self.stage = TurnStage::Run { sandbox_policy };
    }

    /// Takes in one report. `fresh_id` names the request to the user that the step may
    /// lead to.
    pub fn step(&mut self, input: TurnInput, fresh_id: String)
        requires
            old(self)@.wf(),
            old(self)@.expects(input.deep_view()),
        ensures
            final(self)@ == old(self)@.step(input.deep_view(), fresh_id@),
            final(self)@.wf(),
    {
        proof {
            law_step_keeps_wf(self@, input.deep_view(), fresh_id@);
        }
        match input {
            TurnInput::Interrupted => {
                self.interrupted = true;
                self.stage = TurnStage::Done;
            },
            TurnInput::ShutdownRequested => {
                self.shutdown_requested = true;
                self.stage = TurnStage::Done;
            },
            other => {
                if self.is_requesting() {
                    self.request_step(other);
                } else if self.is_deciding() {
                    self.call_step(other, fresh_id);
                } else {
                    self.outcome_step(other, fresh_id);
                }
            },
        }
    }

    fn is_requesting(&self) -> (r: bool)
        ensures
            r == self@.is_requesting(),
    {
        match &self.stage {
            TurnStage::Barrier => true,
            TurnStage::Estimate => true,
            TurnStage::Compress => true,
            TurnStage::Measure => true,
            TurnStage::Generate { .. } => true,
            TurnStage::Normalize { .. } => true,
            _ => false,
        }
    }

    fn is_deciding(&self) -> (r: bool)
        ensures
            r == self@.is_deciding(),
    {
        match &self.stage {
            TurnStage::NextCall => true,
            TurnStage::Lookup => true,
            TurnStage::Preflight { .. } => true,
            TurnStage::Workers => true,
            TurnStage::Check => true,
            TurnStage::Preview { .. } => true,
            _ => false,
        }
    }

    fn request_step(&mut self, input: TurnInput)
        requires
            old(self)@.wf(),
            old(self)@.expects(input.deep_view()),
            old(self)@.is_requesting(),
            !(input is Interrupted),
            !(input is ShutdownRequested),
        ensures
            final(self)@ == old(self)@.request_step(input.deep_view()),
    {
        proof {
            reveal(TurnModel::request_step);
        }
        let stage = self.take_stage();
        match input {
            TurnInput::BarrierClear => {
                self.stage = TurnStage::Estimate;
            },
            TurnInput::BarrierWaiting { count } => {
                let count = decimal_of(count as u64);
                let message = concat3(
                    "Waiting for ",
                    count.as_str(),
                    " outstanding subagent task(s)...",
                );
                self.tell(message.as_str());
                self.stage = TurnStage::Barrier;
            },
            TurnInput::BarrierCompleted { rendered } => {
                self.barrier_completed(rendered.as_str());
            },
            TurnInput::BarrierFailed { message } => {
                self.fail(message);
            },
            TurnInput::Estimated { needs_compression } => {
                self.estimated(needs_compression);
            },
            TurnInput::Compressed { messages } => {
                self.compressed(messages);
            },
            TurnInput::CompressionFailed { message } => {
                self.fail(message);
            },
            TurnInput::Measured { current_tokens, capabilities } => {
                self.measured(current_tokens, capabilities);
            },
            TurnInput::GenerationFailed { message } => {
                self.fail(message);
            },
            TurnInput::StreamFailed => {
                self.state.phase = AgentPhase::Error;
            },
            TurnInput::Responded { response } => {
                self.responded(response);
            },
            TurnInput::Normalized { messages } => {
                if let TurnStage::Normalize { final_message } = stage {
                    self.normalized(messages, final_message);
                }
            },
            _ => {},
        }
    }

    fn call_step(&mut self, input: TurnInput, fresh_id: String)
        requires
            old(self)@.wf(),
            old(self)@.expects(input.deep_view()),
            old(self)@.is_deciding(),
            !(input is Interrupted),
            !(input is ShutdownRequested),
        ensures
            final(self)@ == old(self)@.call_step(input.deep_view(), fresh_id@),
    {
        proof {
            reveal(TurnModel::call_step);
        }
        let stage = self.take_stage();
        match input {
            TurnInput::Advance => {
                self.next_call(fresh_id);
            },
            TurnInput::ToolMissing => {
                self.flush_parallel_tool_calls(Resume::Missing, fresh_id);
            },
            TurnInput::ToolFound { schema, safety } => {
                self.tool_found(&schema, safety, fresh_id);
            },
            TurnInput::PreflightPassed => {
                if let TurnStage::Preflight { safety } = stage {
                    self.preflight_passed(safety, fresh_id);
                }
            },
            TurnInput::PreflightRejected { message } => {
                self.flush_parallel_tool_calls(Resume::Rejected { message }, fresh_id);
            },
            TurnInput::WorkersIdle => {
                self.begin_check();
            },
            TurnInput::Evaluated { evaluation } => {
                self.evaluated(evaluation, fresh_id);
            },
            TurnInput::CheckFailed { message } => {
                self.flush_parallel_tool_calls(Resume::Unchecked { message }, fresh_id);
            },
            TurnInput::NoPreview => {
                if let TurnStage::Preview { evaluation } = stage {
                    self.no_preview(evaluation, fresh_id);
                }
            },
            TurnInput::PreviewReady { preview, is_noop } => {
                if let TurnStage::Preview { evaluation } = stage {
                    self.flush_parallel_tool_calls(
                        Resume::Review { evaluation, preview, is_noop },
                        fresh_id,
                    );
                }
            },
            TurnInput::PreviewFailed { message } => {
                self.flush_parallel_tool_calls(Resume::Unpreviewed { message }, fresh_id);
            },
            _ => {},
        }
    }

    fn outcome_step(&mut self, input: TurnInput, fresh_id: String)
        requires
            old(self)@.wf(),
            old(self)@.expects(input.deep_view()),
            !old(self)@.is_requesting(),
            !old(self)@.is_deciding(),
            !(input is Interrupted),
            !(input is ShutdownRequested),
        ensures
            final(self)@ == old(self)@.outcome_step(input.deep_view(), fresh_id@),
    {
        proof {
            reveal(TurnModel::outcome_step);
        }
        let stage = self.take_stage();
        match input {
            TurnInput::ReviewApproved => {
                if let TurnStage::Review { preview, .. } = stage {
                    self.run_previewed(preview);
                }
            },
            TurnInput::ReviewDenied => {
                self.review_denied();
            },
            TurnInput::PermissionApproved { scope } => {
                if let TurnStage::Permission { sandbox_policy, .. } = stage {
                    self.stage = TurnStage::Record { approved: true, scope, sandbox_policy };
                }
            },
            TurnInput::PermissionDenied => {
                if let TurnStage::Permission { sandbox_policy, .. } = stage {
                    self.permission_denied(sandbox_policy);
                }
            },
            TurnInput::Recorded => {
                if let TurnStage::Record { approved, sandbox_policy, .. } = stage {
                    self.recorded(approved, sandbox_policy);
                }
            },
            TurnInput::Executed { outcome } => {
                self.executed(outcome);
            },
            TurnInput::BatchExecuted { outcomes } => {
                if let TurnStage::Batch { resume } = stage {
                    self.batch_executed(outcomes, resume, fresh_id);
                }
            },
            _ => {},
        }
    }

    fn recorded(&mut self, approved: bool, sandbox_policy: String)
        requires
            old(self)@.has_current(),
        ensures
            final(self)@ == old(self)@.recorded(approved, sandbox_policy@),
    {
        proof {
            reveal(TurnModel::recorded);
        }
        if approved {
            self.run(sandbox_policy);
        } else {
            self.guard.reset();
            self.answer("Permission denied by user", true);
        }
    }
}

} // verus!
