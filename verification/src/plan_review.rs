//! The review of a plan: written to a file, shown to the user, discussed, approved or
//! rejected.
use crate::event::{status, status_event, AgentEvent, EventModel};
use crate::plan_executor::{
    GenerationModel, PlanAnswerModel, PlanGeneration, PlanResponseOutcome, PLANNING_INSTRUCTION,
};
use crate::state::{AgentPhase, AgentState, StateModel};
use crate::text::{concat3, same_text};
use crate::types::clone_messages;
use vstd::prelude::*;

verus! {

pub const DISCUSSION_HEAD: &'static str = "Continue discussing the proposed plan. Address the user's feedback or questions, then produce a complete updated plan for approval. Do not execute the plan yet. The current plan below was reloaded from disk and may contain edits made outside DeepCode.\n\nCurrent plan file: ";

/// How a plan review ends.
#[derive(Debug)]
pub enum PlanDecision {
    Approved { plan: String },
    Rejected,
    Interrupted,
    Shutdown,
    Failed,
}

#[verifier::ext_equal]
pub enum DecisionModel {
    Approved { plan: Seq<char> },
    Rejected,
    Interrupted,
    Shutdown,
    Failed,
}

impl DeepView for PlanDecision {
    type V = DecisionModel;

    open spec fn deep_view(&self) -> DecisionModel {
        match *self {
            PlanDecision::Approved { plan } => DecisionModel::Approved { plan: plan@ },
            PlanDecision::Rejected => DecisionModel::Rejected,
            PlanDecision::Interrupted => DecisionModel::Interrupted,
            PlanDecision::Shutdown => DecisionModel::Shutdown,
            PlanDecision::Failed => DecisionModel::Failed,
        }
    }
}

/// What the review waits for.
#[derive(Debug)]
pub enum ReviewStage {
    /// Prepare a path for a new plan.
    Prepare,
    /// Find the plan that was saved under this path.
    Locate { saved_path: String },
    /// Read the saved plan.
    Restore,
    /// Have a plan generated.
    Generate,
    /// Write the plan to its file.
    Write,
    /// Ask the user.
    Ask { request_id: String },
    /// Read the approved plan back.
    ReadApproved,
    /// Read the plan that the feedback is about.
    ReadDiscussed { feedback: String },
    /// The review has ended.
    Done { decision: PlanDecision },
}

#[verifier::ext_equal]
pub enum ReviewStageModel {
    Prepare,
    Locate { saved_path: Seq<char> },
    Restore,
    Generate,
    Write,
    Ask { request_id: Seq<char> },
    ReadApproved,
    ReadDiscussed { feedback: Seq<char> },
    Done { decision: DecisionModel },
}

impl DeepView for ReviewStage {
    type V = ReviewStageModel;

    open spec fn deep_view(&self) -> ReviewStageModel {
        match *self {
            ReviewStage::Prepare => ReviewStageModel::Prepare,
            ReviewStage::Locate { saved_path } => ReviewStageModel::Locate {
                saved_path: saved_path@,
            },
            ReviewStage::Restore => ReviewStageModel::Restore,
            ReviewStage::Generate => ReviewStageModel::Generate,
            ReviewStage::Write => ReviewStageModel::Write,
            ReviewStage::Ask { request_id } => ReviewStageModel::Ask { request_id: request_id@ },
            ReviewStage::ReadApproved => ReviewStageModel::ReadApproved,
            ReviewStage::ReadDiscussed { feedback } => ReviewStageModel::ReadDiscussed {
                feedback: feedback@,
            },
            ReviewStage::Done { decision } => ReviewStageModel::Done {
                decision: decision.deep_view(),
            },
        }
    }
}

/// What the surroundings report to the review.
#[derive(Debug)]
pub enum ReviewInput {
    PathReady { path: String },
    PlanRead { plan: String },
    Generated { state: AgentState, generation: PlanGeneration },
    Written,
    Answered { outcome: PlanResponseOutcome },
    FileFailed { message: String },
}

#[verifier::ext_equal]
pub enum ReviewInputModel {
    PathReady { path: Seq<char> },
    PlanRead { plan: Seq<char> },
    Generated { state: StateModel, generation: GenerationModel },
    Written,
    Answered { outcome: PlanAnswerModel },
    FileFailed { message: Seq<char> },
}

impl DeepView for ReviewInput {
    type V = ReviewInputModel;

    open spec fn deep_view(&self) -> ReviewInputModel {
        match *self {
            ReviewInput::PathReady { path } => ReviewInputModel::PathReady { path: path@ },
            ReviewInput::PlanRead { plan } => ReviewInputModel::PlanRead { plan: plan@ },
            ReviewInput::Generated { state, generation } => ReviewInputModel::Generated {
                state: state.deep_view(),
                generation: generation.deep_view(),
            },
            ReviewInput::Written => ReviewInputModel::Written,
            ReviewInput::Answered { outcome } => ReviewInputModel::Answered {
                outcome: outcome.deep_view(),
            },
            ReviewInput::FileFailed { message } => ReviewInputModel::FileFailed {
                message: message@,
            },
        }
    }
}

/// Drives one plan review.
pub struct PlanReview {
    pub state: AgentState,
    pub plan_path: String,
    pub plan: String,
    pub restored: bool,
    pub stage: ReviewStage,
    pub outbox: Vec<AgentEvent>,
}

pub struct ReviewModel {
    pub state: StateModel,
    pub plan_path: Seq<char>,
    pub plan: Seq<char>,
    pub restored: bool,
    pub stage: ReviewStageModel,
    pub outbox: Seq<EventModel>,
}

impl View for PlanReview {
    type V = ReviewModel;

    open spec fn view(&self) -> ReviewModel {
        ReviewModel {
            state: self.state.deep_view(),
            plan_path: self.plan_path@,
            plan: self.plan@,
            restored: self.restored,
            stage: self.stage.deep_view(),
            outbox: self.outbox.deep_view(),
        }
    }
}

/// The message that has a plan discussed further.
pub open spec fn discussion_of(
    path: Seq<char>,
    plan: Seq<char>,
    feedback: Seq<char>,
) -> Seq<char> {
    DISCUSSION_HEAD@ + path + "\n\nCurrent plan:\n"@ + plan + "\n\nUser feedback:\n"@ + feedback
}

impl ReviewModel {
    pub open spec fn blank(state: StateModel, stage: ReviewStageModel) -> ReviewModel {
        ReviewModel {
            state,
            plan_path: Seq::empty(),
            plan: Seq::empty(),
            restored: false,
            stage,
            outbox: Seq::empty(),
        }
    }

    /// A review of a plan that is still to be made.
    pub open spec fn of_new_plan(state: StateModel) -> ReviewModel {
        Self::blank(
            state.push_user(PLANNING_INSTRUCTION@),
            ReviewStageModel::Prepare,
        ).session_updated()
    }

    /// A review of a plan that was saved earlier.
    pub open spec fn of_saved_plan(state: StateModel, saved_path: Seq<char>) -> ReviewModel {
        Self::blank(state, ReviewStageModel::Locate { saved_path })
    }

    pub open spec fn at(self, stage: ReviewStageModel) -> ReviewModel {
        ReviewModel { stage, ..self }
    }

    pub open spec fn done(self, decision: DecisionModel) -> ReviewModel {
        self.at(ReviewStageModel::Done { decision })
    }

    pub open spec fn emit(self, event: EventModel) -> ReviewModel {
        ReviewModel { outbox: self.outbox.push(event), ..self }
    }

    pub open spec fn tell(self, message: Seq<char>) -> ReviewModel {
        self.emit(status_event(message))
    }

    pub open spec fn session_updated(self) -> ReviewModel {
        self.emit(EventModel::SessionUpdated { messages: self.state.messages })
    }

    pub open spec fn in_phase(self, phase: AgentPhase) -> ReviewModel {
        ReviewModel { state: self.state.in_phase(phase), ..self }
    }

    pub open spec fn fail(self, message: Seq<char>) -> ReviewModel {
        self.emit(EventModel::AgentError { message }).in_phase(AgentPhase::Error).done(
            DecisionModel::Failed,
        )
    }

    pub open spec fn ask(self, request_id: Seq<char>) -> ReviewModel {
        self.emit(
            EventModel::PlanApprovalNeeded {
                request_id,
                plan: self.plan,
                plan_path: self.plan_path,
                restored: self.restored,
            },
        ).in_phase(AgentPhase::WaitingForPlanApproval).at(ReviewStageModel::Ask { request_id })
    }

    /// A plan that was read from its file.
    pub open spec fn plan_read(self, plan: Seq<char>, fresh_id: Seq<char>) -> ReviewModel {
        match self.stage {
            ReviewStageModel::Restore => ReviewModel { plan, restored: true, ..self }.tell(
                "Restoring plan review from "@ + self.plan_path + "."@,
            ).ask(fresh_id),
            ReviewStageModel::ReadDiscussed { feedback } => ReviewModel {
                state: self.state.push_user(discussion_of(self.plan_path, plan, feedback)),
                ..self
            }.session_updated().tell("Updating plan from feedback..."@).at(
                ReviewStageModel::Generate,
            ),
            _ => (if plan != self.plan {
                self.tell("Using externally edited plan from "@ + self.plan_path + "."@)
            } else {
                self
            }).done(DecisionModel::Approved { plan }),
        }
    }

    pub open spec fn generated(
        self,
        state: StateModel,
        generation: GenerationModel,
    ) -> ReviewModel {
        let back = ReviewModel { state, ..self };
        match generation {
            GenerationModel::Plan(plan) => ReviewModel { plan, ..back }.at(
                ReviewStageModel::Write,
            ),
            GenerationModel::Interrupted => back.done(DecisionModel::Interrupted),
            GenerationModel::Shutdown => back.done(DecisionModel::Shutdown),
            GenerationModel::Failed => back.done(DecisionModel::Failed),
        }
    }

    pub open spec fn answered(self, outcome: PlanAnswerModel) -> ReviewModel {
        match outcome {
            PlanAnswerModel::Approved => self.at(ReviewStageModel::ReadApproved),
            PlanAnswerModel::Denied => self.done(DecisionModel::Rejected),
            PlanAnswerModel::ContinueDiscussing(feedback) => self.at(
                ReviewStageModel::ReadDiscussed { feedback },
            ),
            PlanAnswerModel::Interrupted => self.done(DecisionModel::Interrupted),
            PlanAnswerModel::Shutdown => self.done(DecisionModel::Shutdown),
        }
    }

    /// Whether the surroundings may report this now.
    pub open spec fn expects(self, input: ReviewInputModel) -> bool {
        match input {
            ReviewInputModel::PathReady { .. } => self.stage is Prepare || self.stage is Locate,
            ReviewInputModel::PlanRead { .. } => self.stage is Restore || self.stage
                is ReadApproved || self.stage is ReadDiscussed,
            ReviewInputModel::Generated { .. } => self.stage is Generate,
            ReviewInputModel::Written => self.stage is Write,
            ReviewInputModel::Answered { .. } => self.stage is Ask,
            ReviewInputModel::FileFailed { .. } => !(self.stage is Generate) && !(self.stage
                is Ask) && !(self.stage is Done),
        }
    }

    /// One report taken in.
    pub open spec fn step(self, input: ReviewInputModel, fresh_id: Seq<char>) -> ReviewModel {
        match input {
            ReviewInputModel::PathReady { path } => ReviewModel { plan_path: path, ..self }.at(
                if self.stage is Prepare {
                    ReviewStageModel::Generate
                } else {
                    ReviewStageModel::Restore
                },
            ),
            ReviewInputModel::PlanRead { plan } => self.plan_read(plan, fresh_id),
            ReviewInputModel::Generated { state, generation } => self.generated(
                state,
                generation,
            ),
            ReviewInputModel::Written => ReviewModel { restored: false, ..self }.ask(fresh_id),
            ReviewInputModel::Answered { outcome } => self.answered(outcome),
            ReviewInputModel::FileFailed { message } => self.fail(message),
        }
    }
}

/// A plan is carried out only after the user has approved it, and as it then stands in
/// its file.
pub proof fn law_only_approved_plans_are_carried_out(
    m: ReviewModel,
    input: ReviewInputModel,
    fresh_id: Seq<char>,
)
    requires
        m.expects(input),
    ensures
        m.step(input, fresh_id).stage matches ReviewStageModel::Done {
            decision: DecisionModel::Approved { plan },
        } ==> m.stage is ReadApproved && input == (ReviewInputModel::PlanRead { plan }),
        m.step(input, fresh_id).stage is ReadApproved ==> (m.stage is Ask && (input
            matches ReviewInputModel::Answered { outcome } && outcome is Approved)),
{
}

impl PlanReview {
    /// Starts the review of a plan that is still to be made.
    pub fn of_new_plan(state: AgentState) -> (r: Self)
        ensures
            r@ == ReviewModel::of_new_plan(state.deep_view()),
    {
        let mut state = state;
        state.push_user(PLANNING_INSTRUCTION);
        let mut r = Self::blank(state, ReviewStage::Prepare);
        r.session_updated();
        r
    }

    /// Starts the review of a plan that was saved earlier.
    pub fn of_saved_plan(state: AgentState, saved_path: String) -> (r: Self)
        ensures
            r@ == ReviewModel::of_saved_plan(state.deep_view(), saved_path@),
    {
        Self::blank(state, ReviewStage::Locate { saved_path })
    }

    fn blank(state: AgentState, stage: ReviewStage) -> (r: Self)
        ensures
            r@ == ReviewModel::blank(state.deep_view(), stage.deep_view()),
    {
        let r = PlanReview {
            state,
            plan_path: String::new(),
            plan: String::new(),
            restored: false,
            stage,
            outbox: Vec::new(),
        };
        assert(r.outbox.deep_view() =~= Seq::empty());
        r
    }

    /// The state, for the generation of a plan, which gives it back.
    pub fn lend_state(&mut self) -> (r: AgentState)
        ensures
            r.deep_view() == old(self)@.state,
            final(self)@ == (ReviewModel {
                state: StateModel::start(None, Seq::empty()),
                ..old(self)@
            }),
    {
        let mut state = AgentState::new(None, None);
        core::mem::swap(&mut state, &mut self.state);
        state
    }

    /// The events emitted so far, which are then forgotten.
    pub fn take_events(&mut self) -> (r: Vec<AgentEvent>)
        ensures
            r.deep_view() == old(self)@.outbox,
            final(self)@ == (ReviewModel { outbox: Seq::empty(), ..old(self)@ }),
    {
        let mut events: Vec<AgentEvent> = Vec::new();
        events.append(&mut self.outbox);
        assert(events.deep_view() =~= old(self)@.outbox);
        assert(self@.outbox =~= Seq::empty());
        events
    }

    fn emit(&mut self, event: AgentEvent)
        ensures
            final(self)@ == old(self)@.emit(event.deep_view()),
    {
        self.outbox.push(event);
        assert(self@.outbox =~= old(self)@.outbox.push(event.deep_view()));
    }

    fn tell(&mut self, message: &str)
        ensures
            final(self)@ == old(self)@.tell(message@),
    {
        self.emit(status(message));
    }

    fn session_updated(&mut self)
        ensures
            final(self)@ == old(self)@.session_updated(),
    {
        let messages = clone_messages(&self.state.messages);
        self.emit(AgentEvent::SessionUpdated { messages });
    }

    fn fail_plan_file(&mut self, message: String)
        ensures
            final(self)@ == old(self)@.fail(message@),
    {
        self.emit(AgentEvent::AgentError { message });
        self.state.phase = AgentPhase::Error;
        self.stage = ReviewStage::Done { decision: PlanDecision::Failed };
    }

    fn ask(&mut self, request_id: String)
        ensures
            final(self)@ == old(self)@.ask(request_id@),
    {
        self.emit(
            AgentEvent::PlanApprovalNeeded {
                request_id: request_id.clone(),
                plan: self.plan.clone(),
                plan_path: self.plan_path.clone(),
                restored: self.restored,
            },
        );
        self.state.phase = AgentPhase::WaitingForPlanApproval;
        self.stage = ReviewStage::Ask { request_id };
    }

    fn plan_read(&mut self, plan: String, fresh_id: String)
        ensures
            final(self)@ == old(self)@.plan_read(plan@, fresh_id@),
    {
        match &self.stage {
            ReviewStage::Restore => {
                self.plan = plan;
                self.restored = true;
                let message = concat3(
                    "Restoring plan review from ",
                    self.plan_path.as_str(),
                    ".",
                );
                self.tell(message.as_str());
                self.ask(fresh_id);
            },
            ReviewStage::ReadDiscussed { feedback } => {
                let mut message = concat3(
                    DISCUSSION_HEAD,
                    self.plan_path.as_str(),
                    "\n\nCurrent plan:\n",
                );
                message.append(plan.as_str());
                message.append("\n\nUser feedback:\n");
                message.append(feedback.as_str());
                self.state.push_user(message.as_str());
                self.session_updated();
                self.tell("Updating plan from feedback...");
                self.stage = ReviewStage::Generate;
            },
            _ => {
                if !same_text(plan.as_str(), self.plan.as_str()) {
                    let message = concat3(
                        "Using externally edited plan from ",
                        self.plan_path.as_str(),
                        ".",
                    );
                    self.tell(message.as_str());
                }
                self.stage = ReviewStage::Done { decision: PlanDecision::Approved { plan } };
            },
        }
    }

    fn generated(&mut self, state: AgentState, generation: PlanGeneration)
        ensures
            final(self)@ == old(self)@.generated(state.deep_view(), generation.deep_view()),
    {
        self.state = state;
        match generation {
            PlanGeneration::Plan(plan) => {
                self.plan = plan;
                self.stage = ReviewStage::Write;
            },
            PlanGeneration::Interrupted => {
                self.stage = ReviewStage::Done { decision: PlanDecision::Interrupted };
            },
            PlanGeneration::Shutdown => {
                self.stage = ReviewStage::Done { decision: PlanDecision::Shutdown };
            },
            PlanGeneration::Failed => {
                self.stage = ReviewStage::Done { decision: PlanDecision::Failed };
            },
        }
    }

    fn answered(&mut self, outcome: PlanResponseOutcome)
        ensures
            final(self)@ == old(self)@.answered(outcome.deep_view()),
    {
        self.stage = match outcome {
            PlanResponseOutcome::Approved => ReviewStage::ReadApproved,
            PlanResponseOutcome::Denied => ReviewStage::Done { decision: PlanDecision::Rejected },
            PlanResponseOutcome::ContinueDiscussing(feedback) => ReviewStage::ReadDiscussed {
                feedback,
            },
            PlanResponseOutcome::Interrupted => ReviewStage::Done {
                decision: PlanDecision::Interrupted,
            },
            PlanResponseOutcome::Shutdown => ReviewStage::Done {
                decision: PlanDecision::Shutdown,
            },
        };
    }

    /// Takes in one report. `fresh_id` names the request to the user that the step may
    /// lead to.
    pub fn step(&mut self, input: ReviewInput, fresh_id: String)
        requires
            old(self)@.expects(input.deep_view()),
        ensures
            final(self)@ == old(self)@.step(input.deep_view(), fresh_id@),
    {
        match input {
            ReviewInput::PathReady { path } => {
                let is_new = match &self.stage {
                    ReviewStage::Prepare => true,
                    _ => false,
                };
                self.plan_path = path;
                self.stage = if is_new {
                    ReviewStage::Generate
                } else {
                    ReviewStage::Restore
                };
            },
            ReviewInput::PlanRead { plan } => {
                self.plan_read(plan, fresh_id);
            },
            ReviewInput::Generated { state, generation } => {
                self.generated(state, generation);
            },
            ReviewInput::Written => {
                self.restored = false;
                self.ask(fresh_id);
            },
            ReviewInput::Answered { outcome } => {
                self.answered(outcome);
            },
            ReviewInput::FileFailed { message } => {
                self.fail_plan_file(message);
            },
        }
    }
}

} // verus!
