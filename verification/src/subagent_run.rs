//! One run of a subagent: what its events mean to the parent, how it ends, and which
//! approval requests belong to it.
use crate::event::{AgentCommand, AgentEvent, CommandModel, EventModel};
use crate::json::{get_member, json_model, json_models, json_str, member, text_member, Json};
use crate::subagent::{
    own, AgentRole, StartedTask, TaskStatus, ToolError, ToolErrorModel,
};
use crate::text::{concat2, owned, same_text};
use crate::types::Usage;
use serde_json::Value;
use vstd::prelude::*;

verus! {

/// How the agent of a subagent came to its end.
#[derive(Debug)]
pub enum AgentExit {
    /// It returned.
    Clean,
    /// It returned an error.
    Failed { error: String },
    /// Its task could not be joined.
    Crashed { error: String },
    /// It did not return in time and was aborted.
    TimedOut,
}

#[verifier::ext_equal]
pub enum ExitModel {
    Clean,
    Failed { error: Seq<char> },
    Crashed { error: Seq<char> },
    TimedOut,
}

impl DeepView for AgentExit {
    type V = ExitModel;

    open spec fn deep_view(&self) -> ExitModel {
        match *self {
            AgentExit::Clean => ExitModel::Clean,
            AgentExit::Failed { error } => ExitModel::Failed { error: error@ },
            AgentExit::Crashed { error } => ExitModel::Crashed { error: error@ },
            AgentExit::TimedOut => ExitModel::TimedOut,
        }
    }
}

/// What an event of the subagent calls for.
#[derive(Debug)]
pub struct Reaction {
    /// Tokens to count for the task.
    pub usage: Option<Usage>,
    /// An approval request whose answer goes to the subagent.
    pub request_id: Option<String>,
    /// What the parent's client is told.
    pub forward: Option<AgentEvent>,
}

#[verifier::ext_equal]
pub struct ReactionModel {
    pub usage: Option<Usage>,
    pub request_id: Option<Seq<char>>,
    pub forward: Option<EventModel>,
}

impl DeepView for Reaction {
    type V = ReactionModel;

    open spec fn deep_view(&self) -> ReactionModel {
        ReactionModel {
            usage: self.usage,
            request_id: self.request_id.deep_view(),
            forward: self.forward.deep_view(),
        }
    }
}

/// The run of one task.
#[derive(Debug)]
pub struct SubagentRun {
    pub task_id: String,
    pub status: TaskStatus,
    pub result: Option<String>,
    pub error: Option<String>,
    /// Whether an event has ended it.
    pub ended: bool,
}

#[verifier::ext_equal]
pub struct RunModel {
    pub task_id: Seq<char>,
    pub status: TaskStatus,
    pub result: Option<Seq<char>>,
    pub error: Option<Seq<char>>,
    pub ended: bool,
}

impl View for SubagentRun {
    type V = RunModel;

    open spec fn view(&self) -> RunModel {
        RunModel {
            task_id: self.task_id@,
            status: self.status,
            result: self.result.deep_view(),
            error: self.error.deep_view(),
            ended: self.ended,
        }
    }
}

impl RunModel {
    pub open spec fn started(task_id: Seq<char>) -> RunModel {
        RunModel { task_id, status: TaskStatus::Failed, result: None, error: None, ended: false }
    }

    /// An event of the subagent as the parent's client sees it.
    pub open spec fn forwarded(self, event: EventModel) -> Option<EventModel> {
        Some(EventModel::SubagentEvent { task_id: self.task_id, event: Box::new(event) })
    }

    /// The run after an event: an answer, an error or an interruption ends it.
    pub open spec fn after(self, event: EventModel) -> RunModel {
        match event {
            EventModel::AgentFinished { final_message } => RunModel {
                status: TaskStatus::Completed,
                result: Some(final_message),
                ended: true,
                ..self
            },
            EventModel::AgentError { message } => RunModel {
                status: TaskStatus::Failed,
                error: Some(message),
                ended: true,
                ..self
            },
            EventModel::Interrupted => RunModel {
                status: TaskStatus::Interrupted,
                error: Some("Subagent interrupted"@),
                ended: true,
                ..self
            },
            _ => self,
        }
    }

    /// What an event calls for: tool calls, token counts and approval requests reach the
    /// parent's client, streamed text does not.
    pub open spec fn reaction(self, event: EventModel) -> ReactionModel {
        match event {
            EventModel::TurnComplete(usage) => ReactionModel {
                usage: Some(usage),
                request_id: None,
                forward: self.forwarded(event),
            },
            EventModel::PermissionNeeded { request_id, .. } => ReactionModel {
                usage: None,
                request_id: Some(request_id),
                forward: self.forwarded(event),
            },
            EventModel::FileChangePreviewNeeded { request_id, .. } => ReactionModel {
                usage: None,
                request_id: Some(request_id),
                forward: self.forwarded(event),
            },
            EventModel::ToolCallStarted { .. } | EventModel::ToolCallCompleted { .. }
            | EventModel::ToolCallFailed { .. } => ReactionModel {
                usage: None,
                request_id: None,
                forward: self.forwarded(event),
            },
            _ => ReactionModel { usage: None, request_id: None, forward: None },
        }
    }

    /// The run with an error, unless it has one already.
    pub open spec fn failing(self, error: Seq<char>) -> RunModel {
        RunModel {
            status: TaskStatus::Failed,
            error: if self.error is Some {
                self.error
            } else {
                Some(error)
            },
            ..self
        }
    }

    /// The run once its agent is gone.
    pub open spec fn concluded(self, exit: ExitModel) -> RunModel {
        let left = match exit {
            ExitModel::Clean => self,
            ExitModel::Failed { error } => self.failing(error),
            ExitModel::Crashed { error } => self.failing(
                "Subagent runtime task failed: "@ + error,
            ),
            ExitModel::TimedOut => self.failing("Subagent cleanup timed out"@),
        };
        if left.result is None && left.error is None {
            RunModel {
                status: TaskStatus::Failed,
                error: Some("Subagent event stream closed before a terminal event"@),
                ..left
            }
        } else {
            left
        }
    }

    /// What is shown of the run: its result, else its error.
    pub open spec fn display(self) -> Seq<char> {
        match self.result {
            Some(result) => result,
            None => match self.error {
                Some(error) => error,
                None => Seq::empty(),
            },
        }
    }
}

impl SubagentRun {
    pub fn new(task_id: String) -> (r: Self)
        ensures
            r@ == RunModel::started(task_id@),
    {
        SubagentRun { task_id, status: TaskStatus::Failed, result: None, error: None, ended: false }
    }

    fn forward(&self, event: AgentEvent) -> (r: Option<AgentEvent>)
        ensures
            r.deep_view() == self@.forwarded(event.deep_view()),
    {
        Some(AgentEvent::SubagentEvent { task_id: self.task_id.clone(), event: Box::new(event) })
    }

    /// Takes in an event of the subagent.
    pub fn take_event(&mut self, event: AgentEvent) -> (r: Reaction)
        requires
            !old(self)@.ended,
        ensures
            final(self)@ == old(self)@.after(event.deep_view()),
            r.deep_view() == old(self)@.reaction(event.deep_view()),
    {
        match event {
            AgentEvent::TurnComplete(usage) => Reaction {
                usage: Some(usage),
                request_id: None,
                forward: self.forward(AgentEvent::TurnComplete(usage)),
            },
            AgentEvent::PermissionNeeded { request_id, tool_name, input, evaluation } => {
                let id = request_id.clone();
                let again = AgentEvent::PermissionNeeded {
                    request_id,
                    tool_name,
                    input,
                    evaluation,
                };
                Reaction { usage: None, request_id: Some(id), forward: self.forward(again) }
            },
            AgentEvent::FileChangePreviewNeeded { request_id, tool_name, input, preview } => {
                let id = request_id.clone();
                let again = AgentEvent::FileChangePreviewNeeded {
                    request_id,
                    tool_name,
                    input,
                    preview,
                };
                Reaction { usage: None, request_id: Some(id), forward: self.forward(again) }
            },
            AgentEvent::AgentFinished { final_message } => {
                self.status = TaskStatus::Completed;
                self.result = Some(final_message);
                self.ended = true;
                Reaction { usage: None, request_id: None, forward: None }
            },
            AgentEvent::AgentError { message } => {
                self.status = TaskStatus::Failed;
                self.error = Some(message);
                self.ended = true;
                Reaction { usage: None, request_id: None, forward: None }
            },
            AgentEvent::Interrupted => {
                self.status = TaskStatus::Interrupted;
                self.error = Some(owned("Subagent interrupted"));
                self.ended = true;
                Reaction { usage: None, request_id: None, forward: None }
            },
            AgentEvent::ToolCallStarted { id, name, input } => Reaction {
                usage: None,
                request_id: None,
                forward: self.forward(AgentEvent::ToolCallStarted { id, name, input }),
            },
            AgentEvent::ToolCallCompleted { id, name, result } => Reaction {
                usage: None,
                request_id: None,
                forward: self.forward(AgentEvent::ToolCallCompleted { id, name, result }),
            },
            AgentEvent::ToolCallFailed { id, name, error } => Reaction {
                usage: None,
                request_id: None,
                forward: self.forward(AgentEvent::ToolCallFailed { id, name, error }),
            },
            _ => Reaction { usage: None, request_id: None, forward: None },
        }
    }

    fn fail(&mut self, error: String)
        ensures
            final(self)@ == old(self)@.failing(error@),
    {
        self.status = TaskStatus::Failed;
        if self.error.is_none() {
            self.error = Some(error);
        }
    }

    /// Takes in how the agent ended. The run has a result or an error then.
    pub fn conclude(&mut self, exit: AgentExit)
        ensures
            final(self)@ == old(self)@.concluded(exit.deep_view()),
    {
        match exit {
            AgentExit::Clean => {},
            AgentExit::Failed { error } => self.fail(error),
            AgentExit::Crashed { error } => self.fail(
                concat2("Subagent runtime task failed: ", error.as_str()),
            ),
            AgentExit::TimedOut => self.fail(owned("Subagent cleanup timed out")),
        }
        if self.result.is_none() && self.error.is_none() {
            self.status = TaskStatus::Failed;
            self.error = Some(owned("Subagent event stream closed before a terminal event"));
        }
    }

    /// The event that tells of the end of the run.
    pub fn completed_event(&self) -> (r: AgentEvent)
        ensures
            r.deep_view() == (EventModel::SubagentCompleted {
                task_id: self@.task_id,
                result: self@.display(),
            }),
    {
        let result = match &self.result {
            Some(result) => result.clone(),
            None => match &self.error {
                Some(error) => error.clone(),
                None => String::new(),
            },
        };
        AgentEvent::SubagentCompleted { task_id: self.task_id.clone(), result }
    }
}

/// The event that tells of the start of a task.
pub fn started_event(task: &StartedTask) -> (r: AgentEvent)
    ensures
        r.deep_view() == (EventModel::SubagentStarted {
            task_id: task.task_id@,
            task: task.task@,
        }),
{
    AgentEvent::SubagentStarted { task_id: task.task_id.clone(), task: task.task.clone() }
}

/// What a panic left behind, as text: a string literal or a string, where it is one.
pub fn panic_message(literal: Option<&str>, string: Option<&String>) -> (r: String)
    ensures
        r@ == match literal {
            Some(message) => message@,
            None => match string {
                Some(message) => message@,
                None => "unknown panic payload"@,
            },
        },
{
    match literal {
        Some(message) => owned(message),
        None => match string {
            Some(message) => message.clone(),
            None => owned("unknown panic payload"),
        },
    }
}

/// What is noted of a run that panicked.
pub fn panic_error(message: &str) -> (r: String)
    ensures
        r@ == "Subagent scheduler panicked: "@ + message@,
{
    concat2("Subagent scheduler panicked: ", message)
}

/// An approval request that a subagent waits on.
#[derive(Debug)]
struct ApprovalRoute {
    request_id: String,
    task_id: String,
}

#[verifier::ext_equal]
pub struct RouteModel {
    pub request_id: Seq<char>,
    pub task_id: Seq<char>,
}

impl DeepView for ApprovalRoute {
    type V = RouteModel;

    closed spec fn deep_view(&self) -> RouteModel {
        RouteModel { request_id: self.request_id@, task_id: self.task_id@ }
    }
}

/// Which subagent waits on which approval request.
#[derive(Debug)]
pub struct ApprovalRoutes {
    routes: Vec<ApprovalRoute>,
}

impl View for ApprovalRoutes {
    type V = Seq<RouteModel>;

    closed spec fn view(&self) -> Seq<RouteModel> {
        self.routes.deep_view()
    }
}

/// Where the answers to this request go.
pub open spec fn route_of(routes: Seq<RouteModel>, request_id: Seq<char>) -> Option<Seq<char>>
    decreases routes.len(),
{
    if routes.len() == 0 {
        None
    } else if routes.last().request_id == request_id {
        Some(routes.last().task_id)
    } else {
        route_of(routes.drop_last(), request_id)
    }
}

/// The routes but those of one request.
pub open spec fn without_request(
    routes: Seq<RouteModel>,
    request_id: Seq<char>,
) -> Seq<RouteModel>
    decreases routes.len(),
{
    if routes.len() == 0 {
        Seq::empty()
    } else if routes.last().request_id == request_id {
        without_request(routes.drop_last(), request_id)
    } else {
        without_request(routes.drop_last(), request_id).push(routes.last())
    }
}

/// The routes but those to one task.
pub open spec fn without_task(routes: Seq<RouteModel>, task_id: Seq<char>) -> Seq<RouteModel>
    decreases routes.len(),
{
    if routes.len() == 0 {
        Seq::empty()
    } else if routes.last().task_id == task_id {
        without_task(routes.drop_last(), task_id)
    } else {
        without_task(routes.drop_last(), task_id).push(routes.last())
    }
}

/// The request that a command answers.
pub open spec fn answered_request(command: CommandModel) -> Option<Seq<char>> {
    match command {
        CommandModel::PermissionResponse { request_id, .. } => Some(request_id),
        CommandModel::FileChangePreviewResponse { request_id, .. } => Some(request_id),
        CommandModel::PlanResponse { request_id, .. } => Some(request_id),
        CommandModel::PlanFeedback { request_id, .. } => Some(request_id),
        _ => None,
    }
}

impl ApprovalRoutes {
    pub fn new() -> (r: Self)
        ensures
            r@ == Seq::<RouteModel>::empty(),
    {
        let r = ApprovalRoutes { routes: Vec::new() };
        assert(r@ =~= Seq::<RouteModel>::empty());
        r
    }

    fn remove_request(&mut self, request_id: &str)
        ensures
            final(self)@ == without_request(old(self)@, request_id@),
    {
        let ghost all = self@;
        let mut kept: Vec<ApprovalRoute> = Vec::new();
        let mut i: usize = 0;
        assert(kept.deep_view() =~= Seq::empty());
        while i < self.routes.len()
            invariant
                all == self@,
                all.len() == self.routes.len(),
                i <= self.routes.len(),
                kept.deep_view() == without_request(all.take(i as int), request_id@),
            decreases self.routes.len() - i,
        {
            let ghost before = kept.deep_view();
            assert(all.take(i + 1).drop_last() =~= all.take(i as int));
            assert(all[i as int] == self.routes@[i as int].deep_view());
            if !same_text(self.routes[i].request_id.as_str(), request_id) {
                kept.push(
                    ApprovalRoute {
                        request_id: self.routes[i].request_id.clone(),
                        task_id: self.routes[i].task_id.clone(),
                    },
                );
                assert(kept.deep_view() =~= before.push(all[i as int]));
            }
            i += 1;
        }
        assert(all.take(i as int) =~= all);
        self.routes = kept;
    }

    /// Sends the answers to a request to a task.
    pub fn register(&mut self, request_id: &str, task_id: &str)
        ensures
            final(self)@ == without_request(old(self)@, request_id@).push(
                RouteModel { request_id: request_id@, task_id: task_id@ },
            ),
    {
        self.remove_request(request_id);
        let ghost before = self@;
        self.routes.push(ApprovalRoute { request_id: owned(request_id), task_id: owned(task_id) });
        assert(self@ =~= before.push(
            RouteModel { request_id: request_id@, task_id: task_id@ },
        ));
    }

    fn lookup(&self, request_id: &str) -> (r: Option<String>)
        ensures
            r.deep_view() == route_of(self@, request_id@),
    {
        let ghost all = self@;
        let mut n: usize = self.routes.len();
        assert(all.take(n as int) =~= all);
        while n > 0
            invariant
                all == self@,
                all.len() == self.routes.len(),
                n <= self.routes.len(),
                route_of(all, request_id@) == route_of(all.take(n as int), request_id@),
            decreases n,
        {
            assert(all.take(n as int).drop_last() =~= all.take(n - 1));
            assert(all[n - 1] == self.routes@[n - 1].deep_view());
            if same_text(self.routes[n - 1].request_id.as_str(), request_id) {
                return Some(self.routes[n - 1].task_id.clone());
            }
            n -= 1;
        }
        None
    }
}

/// Forgets the requests of a task.
pub fn cleanup_approval_routes(routes: &mut ApprovalRoutes, task_id: &str)
    ensures
        final(routes)@ == without_task(old(routes)@, task_id@),
{
    let ghost all = routes@;
    let mut kept: Vec<ApprovalRoute> = Vec::new();
    let mut i: usize = 0;
    assert(kept.deep_view() =~= Seq::empty());
    while i < routes.routes.len()
        invariant
            all == routes@,
            all.len() == routes.routes.len(),
            i <= routes.routes.len(),
            kept.deep_view() == without_task(all.take(i as int), task_id@),
        decreases routes.routes.len() - i,
    {
        let ghost before = kept.deep_view();
        assert(all.take(i + 1).drop_last() =~= all.take(i as int));
        assert(all[i as int] == routes.routes@[i as int].deep_view());
        if !same_text(routes.routes[i].task_id.as_str(), task_id) {
            kept.push(
                ApprovalRoute {
                    request_id: routes.routes[i].request_id.clone(),
                    task_id: routes.routes[i].task_id.clone(),
                },
            );
            assert(kept.deep_view() =~= before.push(all[i as int]));
        }
        i += 1;
    }
    assert(all.take(i as int) =~= all);
    routes.routes = kept;
}

/// The task that an answer is for, if a subagent waits on it. The request is answered then.
pub fn route_nested_command(routes: &mut ApprovalRoutes, command: &AgentCommand) -> (r: Option<
    String,
>)
    ensures
        match answered_request(command.deep_view()) {
            Some(request_id) => r.deep_view() == route_of(old(routes)@, request_id)
                && final(routes)@ == without_request(old(routes)@, request_id),
            None => r is None && final(routes)@ == old(routes)@,
        },
{
    let request_id = match command {
        AgentCommand::PermissionResponse { request_id, .. } => request_id,
        AgentCommand::FileChangePreviewResponse { request_id, .. } => request_id,
        AgentCommand::PlanResponse { request_id, .. } => request_id,
        AgentCommand::PlanFeedback { request_id, .. } => request_id,
        _ => {
            return None;
        },
    };
    let task_id = routes.lookup(request_id.as_str());
    routes.remove_request(request_id.as_str());
    task_id
}

/// The ids that a tool call names, or what is wrong with them.
pub open spec fn named_ids(input: Json, tool: Seq<char>) -> Result<
    Seq<Seq<char>>,
    ToolErrorModel,
> {
    match member(input, "task_ids"@) {
        Some(Json::List(items)) => if forall|i: int|
            0 <= i < items.len() ==> #[trigger] items[i] is Text {
            Ok(Seq::new(items.len(), |i: int| items[i]->Text_0))
        } else {
            Err(ToolErrorModel { tool, message: "Every task id must be a string"@ })
        },
        _ => Err(ToolErrorModel { tool, message: "Missing 'task_ids' array"@ }),
    }
}

/// The task ids in the input of a tool call.
pub fn task_ids(input: &Value, tool: &str) -> (r: Result<Vec<String>, ToolError>)
    ensures
        match r {
            Ok(ids) => named_ids(json_model(*input), tool@) == Ok::<
                Seq<Seq<char>>,
                ToolErrorModel,
            >(ids.deep_view()),
            Err(error) => named_ids(json_model(*input), tool@) == Err::<
                Seq<Seq<char>>,
                ToolErrorModel,
            >(error.deep_view()),
        },
{
    let found = match get_member(input, "task_ids") {
        Some(list) => list.as_array(),
        None => None,
    };
    let values = match found {
        Some(values) => values,
        None => {
            return Err(ToolError::new(tool, owned("Missing 'task_ids' array")));
        },
    };
    let ghost items = member(json_model(*input), "task_ids"@)->0->List_0;
    let ghost all = Seq::new(items.len(), |i: int| items[i]->Text_0);
    let mut ids: Vec<String> = Vec::new();
    let mut i: usize = 0;
    assert(ids.deep_view() =~= all.take(0));
    while i < values.len()
        invariant
            items == json_models(values@),
            all == Seq::new(items.len(), |i: int| items[i]->Text_0),
            member(json_model(*input), "task_ids"@) == Some(Json::List(items)),
            i <= values.len(),
            forall|j: int| 0 <= j < i ==> #[trigger] items[j] is Text,
            ids.deep_view() == all.take(i as int),
        decreases values.len() - i,
    {
        let ghost before = ids.deep_view();
        assert(items[i as int] == json_model(values@[i as int]));
        match values[i].as_str() {
            Some(id) => {
                ids.push(owned(id));
                assert(ids.deep_view() =~= before.push(all[i as int]));
                assert(all.take(i + 1) =~= before.push(all[i as int]));
            },
            None => {
                return Err(ToolError::new(tool, owned("Every task id must be a string")));
            },
        }
        i += 1;
    }
    assert(all.take(i as int) =~= all);
    Ok(ids)
}

/// What a call of the tool that starts subagents asks for.
#[derive(Debug)]
pub struct SpawnRequest {
    pub task: String,
    pub role: AgentRole,
    pub model: Option<String>,
    pub reasoning_effort: Option<String>,
}

/// Reads the input of a call of the tool that starts subagents.
pub fn spawn_request(input: &Value) -> (r: Result<SpawnRequest, ToolError>)
    ensures
        match text_member(json_model(*input), "task"@) {
            None => r is Err && r->Err_0.deep_view() == crate::subagent::spawn_error(
                "Missing 'task' parameter"@,
            ),
            Some(task) => {
                let role = text_member(json_model(*input), "role"@);
                match crate::subagent::role_named(role) {
                    Some(named) => {
                        &&& r is Ok
                        &&& r->Ok_0.task@ == task
                        &&& r->Ok_0.role == named
                        &&& r->Ok_0.model.deep_view() == text_member(
                            json_model(*input),
                            "model"@,
                        )
                        &&& r->Ok_0.reasoning_effort.deep_view() == text_member(
                            json_model(*input),
                            "reasoning_effort"@,
                        )
                    },
                    None => r is Err && role is Some && r->Err_0.deep_view()
                        == crate::subagent::spawn_error(
                        "Unknown agent role '"@ + role->0 + "'; expected explorer or worker"@,
                    ),
                }
            },
        },
{
    let task = match json_str(input, "task") {
        Some(task) => owned(task),
        None => {
            return Err(ToolError::new("spawn_agent", owned("Missing 'task' parameter")));
        },
    };
    let role = match AgentRole::parse(json_str(input, "role")) {
        Ok(role) => role,
        Err(error) => {
            return Err(error);
        },
    };
    Ok(
        SpawnRequest {
            task,
            role,
            model: own(json_str(input, "model")),
            reasoning_effort: own(json_str(input, "reasoning_effort")),
        },
    )
}

/// A run that is over has a result or an error, and a terminal status.
pub proof fn law_runs_end_with_an_outcome(run: RunModel, exit: ExitModel)
    requires
        run.status.is_terminal(),
    ensures
        run.concluded(exit).status.is_terminal(),
        run.concluded(exit).result is Some || run.concluded(exit).error is Some,
        !(exit is Clean) ==> run.concluded(exit).status is Failed,
{
}

/// What a subagent answered is what its run completes with, if its agent ends cleanly.
pub proof fn law_answers_become_results(run: RunModel, answer: Seq<char>)
    ensures
        ({
            let over = run.after(
                EventModel::AgentFinished { final_message: answer },
            ).concluded(ExitModel::Clean);
            over.status is Completed && over.result == Some(answer) && over.display() == answer
        }),
{
}

/// The routes without a request hold it no more and keep every other.
pub proof fn lemma_without_request(
    routes: Seq<RouteModel>,
    request_id: Seq<char>,
    other: Seq<char>,
)
    ensures
        route_of(without_request(routes, request_id), request_id) is None,
        other != request_id ==> route_of(without_request(routes, request_id), other) == route_of(
            routes,
            other,
        ),
    decreases routes.len(),
{
    if routes.len() > 0 {
        let rest = routes.drop_last();
        lemma_without_request(rest, request_id, other);
        let kept = without_request(rest, request_id);
        assert(kept.push(routes.last()).drop_last() =~= kept);
    }
}

/// Each request is answered once: after an answer has found its subagent, a second answer to
/// the same request finds none, and other requests are still open.
pub proof fn law_requests_are_answered_once(
    routes: Seq<RouteModel>,
    request_id: Seq<char>,
    task_id: Seq<char>,
    other: Seq<char>,
)
    ensures
        ({
            let open = without_request(routes, request_id).push(
                RouteModel { request_id, task_id },
            );
            let answered = without_request(open, request_id);
            &&& route_of(open, request_id) == Some(task_id)
            &&& route_of(answered, request_id) is None
            &&& other != request_id ==> route_of(answered, other) == route_of(routes, other)
        }),
{
    let kept = without_request(routes, request_id);
    let open = kept.push(RouteModel { request_id, task_id });
    assert(open.drop_last() =~= kept);
    lemma_without_request(routes, request_id, other);
    lemma_without_request(open, request_id, other);
}

/// After the cleanup of a task no request leads to it, and those of other tasks are kept.
pub proof fn law_cleanup_closes_the_routes_of_a_task(
    routes: Seq<RouteModel>,
    task_id: Seq<char>,
    i: int,
)
    ensures
        0 <= i < without_task(routes, task_id).len() ==> without_task(routes, task_id)[i].task_id
            != task_id,
        0 <= i < routes.len() && routes[i].task_id != task_id ==> without_task(
            routes,
            task_id,
        ).contains(routes[i]),
    decreases routes.len(),
{
    if routes.len() > 0 {
        let rest = routes.drop_last();
        law_cleanup_closes_the_routes_of_a_task(rest, task_id, i);
        let kept = without_task(rest, task_id);
        let all = without_task(routes, task_id);
        if routes.last().task_id != task_id {
            assert(all == kept.push(routes.last()));
            assert(all[kept.len() as int] == routes.last());
            if 0 <= i < rest.len() && routes[i].task_id != task_id {
                assert(rest[i] == routes[i]);
                let k = choose|k: int| 0 <= k < kept.len() && kept[k] == routes[i];
                assert(all[k] == routes[i]);
            }
        } else if 0 <= i < rest.len() {
            assert(rest[i] == routes[i]);
        }
    }
}

} // verus!
