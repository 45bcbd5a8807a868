//! Subagents: which tasks there are, when they may run, and what became of them.
use crate::text::{concat2, concat3, owned, same_text, trim, trimmed};
use crate::types::{ModelProfile, ProfileModel, Usage};
use vstd::prelude::*;

verus! {

/// What a subagent may do.
#[derive(Debug, Clone, Copy, PartialEq, Eq, Structural)]
pub enum AgentRole {
    Explorer,
    Worker,
}

/// A tool call that cannot be carried out.
#[derive(Debug)]
pub struct ToolError {
    pub tool: String,
    pub message: String,
}

#[verifier::ext_equal]
pub struct ToolErrorModel {
    pub tool: Seq<char>,
    pub message: Seq<char>,
}

impl DeepView for ToolError {
    type V = ToolErrorModel;

    open spec fn deep_view(&self) -> ToolErrorModel {
        ToolErrorModel { tool: self.tool@, message: self.message@ }
    }
}

impl ToolError {
    pub fn new(tool: &str, message: String) -> (r: Self)
        ensures
            r.deep_view() == (ToolErrorModel { tool: tool@, message: message@ }),
    {
        ToolError { tool: tool.to_owned(), message }
    }

    /// The error as it is shown.
    pub fn text(&self) -> (r: String)
        ensures
            r@ == "Tool execution error: "@ + self.tool@ + " -- "@ + self.message@,
    {
        let head = concat3("Tool execution error: ", self.tool.as_str(), " -- ");
        concat2(head.as_str(), self.message.as_str())
    }
}

/// The role with the given name; no name means an explorer.
pub open spec fn role_named(name: Option<Seq<char>>) -> Option<AgentRole> {
    match name {
        None => Some(AgentRole::Explorer),
        Some(name) => if name == "explorer"@ {
            Some(AgentRole::Explorer)
        } else if name == "worker"@ {
            Some(AgentRole::Worker)
        } else {
            None
        },
    }
}

pub open spec fn spawn_error(message: Seq<char>) -> ToolErrorModel {
    ToolErrorModel { tool: "spawn_agent"@, message }
}

impl AgentRole {
    pub fn parse(value: Option<&str>) -> (r: Result<Self, ToolError>)
        ensures
            match r {
                Ok(role) => role_named(
                    match value {
                        Some(value) => Some(value@),
                        None => None,
                    },
                ) == Some(role),
                Err(error) => value is Some && role_named(Some(value->0@)) is None
                    && error.deep_view() == spawn_error(
                    "Unknown agent role '"@ + value->0@ + "'; expected explorer or worker"@,
                ),
            },
    {
        let name = match value {
            Some(name) => name,
            None => {
                return Ok(AgentRole::Explorer);
            },
        };
        if same_text(name, "explorer") {
            Ok(AgentRole::Explorer)
        } else if same_text(name, "worker") {
            Ok(AgentRole::Worker)
        } else {
            Err(
                ToolError::new(
                    "spawn_agent",
                    concat3("Unknown agent role '", name, "'; expected explorer or worker"),
                ),
            )
        }
    }

    /// The instructions that a subagent of this role starts with.
    pub fn system_prompt(self) -> (r: &'static str)
        ensures
            r@ == self.prompt(),
    {
        match self {
            AgentRole::Explorer =>
                "You are a read-only code explorer. Inspect the workspace using available tools, do not modify anything, and return concise evidence-backed findings.",
            AgentRole::Worker =>
                "You are a coding worker. Complete the assigned task using available tools, respect all permission and review prompts, verify the result, and return a concise summary.",
        }
    }

    /// Whether a subagent of this role is given only the tools that read.
    pub fn reads_only(self) -> (r: bool)
        ensures
            r == (self is Explorer),
    {
        match self {
            AgentRole::Explorer => true,
            AgentRole::Worker => false,
        }
    }

    pub open spec fn prompt(self) -> Seq<char> {
        match self {
            AgentRole::Explorer =>
                "You are a read-only code explorer. Inspect the workspace using available tools, do not modify anything, and return concise evidence-backed findings."@,
            AgentRole::Worker =>
                "You are a coding worker. Complete the assigned task using available tools, respect all permission and review prompts, verify the result, and return a concise summary."@,
        }
    }
}

/// How far a task has come.
#[derive(Debug, Clone, Copy, PartialEq, Eq, Structural)]
pub enum TaskStatus {
    Queued,
    Running,
    Completed,
    Failed,
    Interrupted,
    Cancelled,
}

impl TaskStatus {
    pub open spec fn is_terminal(self) -> bool {
        self is Completed || self is Failed || self is Interrupted || self is Cancelled
    }

    pub open spec fn is_stopped(self) -> bool {
        self is Interrupted || self is Cancelled
    }

    pub fn terminal(self) -> (r: bool)
        ensures
            r == self.is_terminal(),
    {
        match self {
            TaskStatus::Completed => true,
            TaskStatus::Failed => true,
            TaskStatus::Interrupted => true,
            TaskStatus::Cancelled => true,
            _ => false,
        }
    }

    fn stopped(self) -> (r: bool)
        ensures
            r == self.is_stopped(),
    {
        match self {
            TaskStatus::Interrupted => true,
            TaskStatus::Cancelled => true,
            _ => false,
        }
    }
}

/// A task as it is reported.
#[derive(Debug)]
pub struct AgentTaskResult {
    pub task_id: String,
    pub role: AgentRole,
    pub status: TaskStatus,
    pub model: String,
    pub reasoning_effort: Option<String>,
    pub result: Option<String>,
    pub error: Option<String>,
    pub usage: Usage,
}

#[verifier::ext_equal]
pub struct TaskResultModel {
    pub task_id: Seq<char>,
    pub role: AgentRole,
    pub status: TaskStatus,
    pub model: Seq<char>,
    pub reasoning_effort: Option<Seq<char>>,
    pub result: Option<Seq<char>>,
    pub error: Option<Seq<char>>,
    pub usage: Usage,
}

impl DeepView for AgentTaskResult {
    type V = TaskResultModel;

    open spec fn deep_view(&self) -> TaskResultModel {
        TaskResultModel {
            task_id: self.task_id@,
            role: self.role,
            status: self.status,
            model: self.model@,
            reasoning_effort: self.reasoning_effort.deep_view(),
            result: self.result.deep_view(),
            error: self.error.deep_view(),
            usage: self.usage,
        }
    }
}

/// The model and effort that subagents fall back on.
#[derive(Debug)]
pub struct AgentRuntimeSettings {
    pub model: String,
    pub reasoning_effort: Option<String>,
    pub default_subagent_model: Option<String>,
    pub default_subagent_reasoning_effort: Option<String>,
}

#[verifier::ext_equal]
pub struct SettingsModel {
    pub model: Seq<char>,
    pub reasoning_effort: Option<Seq<char>>,
    pub default_subagent_model: Option<Seq<char>>,
    pub default_subagent_reasoning_effort: Option<Seq<char>>,
}

impl DeepView for AgentRuntimeSettings {
    type V = SettingsModel;

    open spec fn deep_view(&self) -> SettingsModel {
        SettingsModel {
            model: self.model@,
            reasoning_effort: self.reasoning_effort.deep_view(),
            default_subagent_model: self.default_subagent_model.deep_view(),
            default_subagent_reasoning_effort: self.default_subagent_reasoning_effort.deep_view(),
        }
    }
}

/// A task and what is known of it.
#[derive(Debug)]
struct TaskRecord {
    id: String,
    task: String,
    role: AgentRole,
    status: TaskStatus,
    model: String,
    reasoning_effort: Option<String>,
    result: Option<String>,
    error: Option<String>,
    usage: Usage,
    collected: bool,
    /// Whether it holds one of the places for running tasks.
    has_place: bool,
    /// Whether it is the worker that may go on.
    has_worker_turn: bool,
}

#[verifier::ext_equal]
pub struct TaskModel {
    pub id: Seq<char>,
    pub task: Seq<char>,
    pub role: AgentRole,
    pub status: TaskStatus,
    pub model: Seq<char>,
    pub reasoning_effort: Option<Seq<char>>,
    pub result: Option<Seq<char>>,
    pub error: Option<Seq<char>>,
    pub usage: Usage,
    pub collected: bool,
    pub has_place: bool,
    pub has_worker_turn: bool,
}

impl DeepView for TaskRecord {
    type V = TaskModel;

    closed spec fn deep_view(&self) -> TaskModel {
        TaskModel {
            id: self.id@,
            task: self.task@,
            role: self.role,
            status: self.status,
            model: self.model@,
            reasoning_effort: self.reasoning_effort.deep_view(),
            result: self.result.deep_view(),
            error: self.error.deep_view(),
            usage: self.usage,
            collected: self.collected,
            has_place: self.has_place,
            has_worker_turn: self.has_worker_turn,
        }
    }
}

impl TaskModel {
    pub open spec fn snapshot(self) -> TaskResultModel {
        TaskResultModel {
            task_id: self.id,
            role: self.role,
            status: self.status,
            model: self.model,
            reasoning_effort: self.reasoning_effort,
            result: self.result,
            error: self.error,
            usage: self.usage,
        }
    }

    pub open spec fn queued(
        id: Seq<char>,
        task: Seq<char>,
        role: AgentRole,
        model: Seq<char>,
        reasoning_effort: Option<Seq<char>>,
    ) -> TaskModel {
        TaskModel {
            id,
            task,
            role,
            status: TaskStatus::Queued,
            model,
            reasoning_effort,
            result: None,
            error: None,
            usage: Usage::none(),
            collected: false,
            has_place: false,
            has_worker_turn: false,
        }
    }

    /// The task without the places it held.
    pub open spec fn released(self) -> TaskModel {
        TaskModel { has_place: false, has_worker_turn: false, ..self }
    }

    /// The task stopped, unless it has ended already.
    pub open spec fn stopped(self, status: TaskStatus, reason: Seq<char>) -> TaskModel {
        if self.status.is_terminal() {
            self
        } else {
            TaskModel { status, error: Some(reason), ..self }
        }
    }
}

impl TaskRecord {
    fn snapshot(&self) -> (r: AgentTaskResult)
        ensures
            r.deep_view() == self.deep_view().snapshot(),
    {
        AgentTaskResult {
            task_id: self.id.clone(),
            role: self.role,
            status: self.status,
            model: self.model.clone(),
            reasoning_effort: self.reasoning_effort.clone(),
            result: self.result.clone(),
            error: self.error.clone(),
            usage: self.usage,
        }
    }
}

/// Keeps the tasks of an agent's subagents.
#[derive(Debug)]
pub struct AgentTaskManager {
    settings: AgentRuntimeSettings,
    models: Vec<ModelProfile>,
    tasks: Vec<TaskRecord>,
    /// The positions of the tasks that have asked for a place, in the order in which they asked.
    waiting: Vec<usize>,
    max_concurrent: usize,
}

pub struct ManagerModel {
    pub settings: SettingsModel,
    pub models: Seq<ProfileModel>,
    pub tasks: Seq<TaskModel>,
    pub waiting: Seq<int>,
    pub max_concurrent: usize,
}

/// Some positions as numbers.
pub open spec fn numbers(positions: Seq<usize>) -> Seq<int> {
    positions.map_values(|i: usize| i as int)
}

impl View for AgentTaskManager {
    type V = ManagerModel;

    closed spec fn view(&self) -> ManagerModel {
        ManagerModel {
            settings: self.settings.deep_view(),
            models: self.models.deep_view(),
            tasks: self.tasks.deep_view(),
            waiting: numbers(self.waiting@),
            max_concurrent: self.max_concurrent,
        }
    }
}

/// The place of the task with this id.
pub open spec fn find_task(tasks: Seq<TaskModel>, id: Seq<char>) -> Option<int>
    decreases tasks.len(),
{
    if tasks.len() == 0 {
        None
    } else if tasks.last().id == id {
        Some(tasks.len() - 1)
    } else {
        find_task(tasks.drop_last(), id)
    }
}

pub proof fn lemma_find_task(tasks: Seq<TaskModel>, id: Seq<char>)
    ensures
        match find_task(tasks, id) {
            Some(i) => 0 <= i < tasks.len() && tasks[i].id == id && forall|j: int|
                i < j < tasks.len() ==> #[trigger] tasks[j].id != id,
            None => forall|j: int| 0 <= j < tasks.len() ==> #[trigger] tasks[j].id != id,
        },
    decreases tasks.len(),
{
    if tasks.len() > 0 && tasks.last().id != id {
        let rest = tasks.drop_last();
        lemma_find_task(rest, id);
        assert forall|j: int| 0 <= j < tasks.len() - 1 implies tasks[j] == rest[j] by {
        }
    }
}

/// The first of two choices that is there.
pub open spec fn first_of(a: Option<Seq<char>>, b: Option<Seq<char>>) -> Option<Seq<char>> {
    if a is Some {
        a
    } else {
        b
    }
}

/// The profile of the model with this id.
pub open spec fn find_profile(models: Seq<ProfileModel>, id: Seq<char>) -> Option<ProfileModel>
    decreases models.len(),
{
    if models.len() == 0 {
        None
    } else if models[0].id == id {
        Some(models[0])
    } else {
        find_profile(models.drop_first(), id)
    }
}

/// What a subagent runs with.
#[derive(Debug)]
pub struct EffectiveSettings {
    pub model: String,
    pub max_tokens: usize,
    pub context_window: usize,
    pub reasoning_effort: Option<String>,
}

#[verifier::ext_equal]
pub struct EffectiveModel {
    pub model: Seq<char>,
    pub max_tokens: usize,
    pub context_window: usize,
    pub reasoning_effort: Option<Seq<char>>,
}

impl DeepView for EffectiveSettings {
    type V = EffectiveModel;

    open spec fn deep_view(&self) -> EffectiveModel {
        EffectiveModel {
            model: self.model@,
            max_tokens: self.max_tokens,
            context_window: self.context_window,
            reasoning_effort: self.reasoning_effort.deep_view(),
        }
    }
}

impl ManagerModel {
    /// The model that a subagent uses: the one asked for, else the subagents' default, else
    /// the main agent's.
    pub open spec fn chosen_model(self, asked: Option<Seq<char>>) -> Seq<char> {
        match first_of(asked, self.settings.default_subagent_model) {
            Some(model) => model,
            None => self.settings.model,
        }
    }

    /// The effort that a subagent uses, by the same order of preference.
    pub open spec fn chosen_effort(self, asked: Option<Seq<char>>) -> Option<Seq<char>> {
        first_of(
            first_of(asked, self.settings.default_subagent_reasoning_effort),
            self.settings.reasoning_effort,
        )
    }

    pub open spec fn effective(
        self,
        model: Option<Seq<char>>,
        effort: Option<Seq<char>>,
    ) -> Result<EffectiveModel, ToolErrorModel> {
        let chosen = self.chosen_model(model);
        let chosen_effort = self.chosen_effort(effort);
        match find_profile(self.models, chosen) {
            None => Err(spawn_error("Unknown subagent model '"@ + chosen + "'"@)),
            Some(profile) => if chosen_effort is Some && !profile.supports(chosen_effort->0) {
                Err(
                    spawn_error(
                        "Model '"@ + chosen + "' does not support reasoning effort '"@
                            + chosen_effort->0 + "'"@,
                    ),
                )
            } else {
                Ok(
                    EffectiveModel {
                        model: chosen,
                        max_tokens: profile.max_output_tokens,
                        context_window: profile.context_window,
                        reasoning_effort: chosen_effort,
                    },
                )
            },
        }
    }

    /// What is wrong with a task to start, if anything.
    pub open spec fn spawn_problem(
        self,
        task: Seq<char>,
        model: Option<Seq<char>>,
        effort: Option<Seq<char>>,
    ) -> Option<ToolErrorModel> {
        if trim(task).len() == 0 {
            Some(spawn_error("Task must not be empty"@))
        } else {
            match self.effective(model, effort) {
                Ok(_) => None,
                Err(error) => Some(error),
            }
        }
    }

    pub open spec fn with_tasks(self, tasks: Seq<TaskModel>) -> ManagerModel {
        ManagerModel { tasks, ..self }
    }
}

fn profile_position(models: &Vec<ModelProfile>, id: &str) -> (r: Option<usize>)
    ensures
        match r {
            Some(i) => i < models@.len() && find_profile(models.deep_view(), id@) == Some(
                models@[i as int].deep_view(),
            ),
            None => find_profile(models.deep_view(), id@) is None,
        },
{
    let ghost all = models.deep_view();
    let mut i: usize = 0;
    assert(all.subrange(0, all.len() as int) =~= all);
    while i < models.len()
        invariant
            all == models.deep_view(),
            i <= models.len(),
            find_profile(all, id@) == find_profile(all.subrange(i as int, all.len() as int), id@),
        decreases models.len() - i,
    {
        assert(all.subrange(i as int, all.len() as int).drop_first() =~= all.subrange(
            i + 1,
            all.len() as int,
        ));
        assert(all[i as int] == models@[i as int].deep_view());
        if same_text(models[i].id.as_str(), id) {
            return Some(i);
        }
        i += 1;
    }
    None
}

/// The view of an optional string slice.
pub open spec fn text_option(text: Option<&str>) -> Option<Seq<char>> {
    match text {
        Some(text) => Some(text@),
        None => None,
    }
}

pub(crate) fn own(text: Option<&str>) -> (r: Option<String>)
    ensures
        r.deep_view() == text_option(text),
{
    match text {
        Some(text) => Some(owned(text)),
        None => None,
    }
}

impl AgentTaskManager {
    /// A manager that lets at least one task run at a time.
    pub fn new(
        settings: AgentRuntimeSettings,
        models: Vec<ModelProfile>,
        max_concurrent: usize,
    ) -> (r: Self)
        ensures
            r@ == (ManagerModel {
                settings: settings.deep_view(),
                models: models.deep_view(),
                tasks: Seq::empty(),
                waiting: Seq::empty(),
                max_concurrent: if max_concurrent < 1 {
                    1
                } else {
                    max_concurrent
                },
            }),
    {
        let r = AgentTaskManager {
            settings,
            models,
            tasks: Vec::new(),
            waiting: Vec::new(),
            max_concurrent: if max_concurrent < 1 {
                1
            } else {
                max_concurrent
            },
        };
        assert(r.tasks.deep_view() =~= Seq::empty());
        assert(numbers(r.waiting@) =~= Seq::empty());
        r
    }

    pub fn update_main_model(&mut self, model: String)
        ensures
            final(self)@ == (ManagerModel {
                settings: SettingsModel { model: model@, ..old(self)@.settings },
                ..old(self)@
            }),
    {
        self.settings.model = model;
    }

    pub fn update_main_reasoning_effort(&mut self, effort: Option<String>)
        ensures
            final(self)@ == (ManagerModel {
                settings: SettingsModel {
                    reasoning_effort: effort.deep_view(),
                    ..old(self)@.settings
                },
                ..old(self)@
            }),
    {
        self.settings.reasoning_effort = effort;
    }

    pub fn update_models(&mut self, models: Vec<ModelProfile>)
        ensures
            final(self)@ == (ManagerModel { models: models.deep_view(), ..old(self)@ }),
    {
        self.models = models;
    }

    pub fn effective_settings(
        &self,
        model_override: Option<&str>,
        effort_override: Option<&str>,
    ) -> (r: Result<EffectiveSettings, ToolError>)
        ensures
            match r {
                Ok(settings) => self@.effective(
                    text_option(model_override),
                    text_option(effort_override),
                ) == Ok::<EffectiveModel, ToolErrorModel>(settings.deep_view()),
                Err(error) => self@.effective(
                    text_option(model_override),
                    text_option(effort_override),
                ) == Err::<EffectiveModel, ToolErrorModel>(error.deep_view()),
            },
    {
        let model = match own(model_override) {
            Some(model) => model,
            None => match &self.settings.default_subagent_model {
                Some(model) => model.clone(),
                None => self.settings.model.clone(),
            },
        };
        let effort = match own(effort_override) {
            Some(effort) => Some(effort),
            None => match &self.settings.default_subagent_reasoning_effort {
                Some(effort) => Some(effort.clone()),
                None => self.settings.reasoning_effort.clone(),
            },
        };
        let i: usize = match profile_position(&self.models, model.as_str()) {
            Some(i) => i,
            None => {
                return Err(
                    ToolError::new(
                        "spawn_agent",
                        concat3("Unknown subagent model '", model.as_str(), "'"),
                    ),
                );
            },
        };
        if let Some(wanted) = &effort {
            if !self.models[i].supports_effort_str(wanted.as_str()) {
                let head = concat3(
                    "Model '",
                    model.as_str(),
                    "' does not support reasoning effort '",
                );
                return Err(
                    ToolError::new("spawn_agent", concat3(head.as_str(), wanted.as_str(), "'")),
                );
            }
        }
        Ok(
            EffectiveSettings {
                model,
                max_tokens: self.models[i].max_output_tokens,
                context_window: self.models[i].context_window,
                reasoning_effort: effort,
            },
        )
    }

    fn position(&self, id: &str) -> (r: Option<usize>)
        ensures
            match r {
                Some(i) => find_task(self@.tasks, id@) == Some(i as int) && i < self@.tasks.len()
                    && i < self.tasks@.len(),
                None => find_task(self@.tasks, id@) is None,
            },
    {
        let ghost all = self@.tasks;
        let mut n: usize = self.tasks.len();
        assert(all.take(n as int) =~= all);
        while n > 0
            invariant
                all == self@.tasks,
                all.len() == self.tasks.len(),
                n <= self.tasks.len(),
                find_task(all, id@) == find_task(all.take(n as int), id@),
            decreases n,
        {
            assert(all.take(n as int).drop_last() =~= all.take(n - 1));
            assert(all[n - 1] == self.tasks@[n - 1].deep_view());
            if same_text(self.tasks[n - 1].id.as_str(), id) {
                return Some(n - 1);
            }
            n -= 1;
        }
        None
    }

    /// Queues a task, if it can be carried out: its first report and what it runs with.
    pub fn spawn(
        &mut self,
        task: &str,
        role: AgentRole,
        model_override: Option<&str>,
        effort_override: Option<&str>,
        task_id: String,
    ) -> (r: Result<(AgentTaskResult, EffectiveSettings), ToolError>)
        requires
            old(self)@.wf(),
            find_task(old(self)@.tasks, task_id@) is None,
        ensures
            final(self)@.wf(),
            match r {
                Ok((first, settings)) => {
                    &&& old(self)@.spawn_problem(
                        task@,
                        text_option(model_override),
                        text_option(effort_override),
                    ) is None
                    &&& old(self)@.effective(
                        text_option(model_override),
                        text_option(effort_override),
                    ) == Ok::<EffectiveModel, ToolErrorModel>(settings.deep_view())
                    &&& {
                        let queued = TaskModel::queued(
                            task_id@,
                            task@,
                            role,
                            settings.model@,
                            settings.reasoning_effort.deep_view(),
                        );
                        &&& first.deep_view() == queued.snapshot()
                        &&& final(self)@ == old(self)@.settled().arrived(queued)
                    }
                },
                Err(error) => {
                    &&& old(self)@.spawn_problem(
                        task@,
                        text_option(model_override),
                        text_option(effort_override),
                    ) == Some(error.deep_view())
                    &&& final(self)@ == old(self)@
                },
            },
    {
        if trimmed(task).as_str().is_empty() {
            return Err(ToolError::new("spawn_agent", owned("Task must not be empty")));
        }
        let settings = match self.effective_settings(model_override, effort_override) {
            Ok(settings) => settings,
            Err(error) => {
                return Err(error);
            },
        };
        let record = TaskRecord {
            id: task_id,
            task: owned(task),
            role,
            status: TaskStatus::Queued,
            model: settings.model.clone(),
            reasoning_effort: settings.reasoning_effort.clone(),
            result: None,
            error: None,
            usage: Usage::default(),
            collected: false,
            has_place: false,
            has_worker_turn: false,
        };
        let first = record.snapshot();
        self.settle();
        let ghost before = self@;
        let ghost queued = record.deep_view();
        let at: usize = self.tasks.len();
        self.tasks.push(record);
        proof {
            lemma_settled(old(self)@);
            lemma_find_task(old(self)@.tasks, task_id@);
            assert(self@.tasks =~= before.tasks.push(queued));
            assert(self@.tasks.drop_last() =~= before.tasks);
            lemma_arrived(before, queued);
        }
        match role {
            AgentRole::Explorer => {
                self.waiting.push(at);
                assert(self@.waiting =~= before.waiting.push(at as int));
            },
            AgentRole::Worker => self.settle(),
        }
        Ok((first, settings))
    }
}

/// How many tasks hold a place.
pub open spec fn places(tasks: Seq<TaskModel>) -> nat
    decreases tasks.len(),
{
    if tasks.len() == 0 {
        0
    } else {
        places(tasks.drop_last()) + if tasks.last().has_place {
            1nat
        } else {
            0
        }
    }
}

/// How many tasks hold the workers' turn.
pub open spec fn turns(tasks: Seq<TaskModel>) -> nat
    decreases tasks.len(),
{
    if tasks.len() == 0 {
        0
    } else {
        turns(tasks.drop_last()) + if tasks.last().has_worker_turn {
            1nat
        } else {
            0
        }
    }
}

pub open spec fn distinct_ids(tasks: Seq<TaskModel>) -> bool {
    forall|i: int, j: int|
        0 <= i < j < tasks.len() ==> #[trigger] tasks[i].id != #[trigger] tasks[j].id
}

impl TaskModel {
    /// A worker runs in its turn, only a worker has a turn, what runs holds a place, and what is
    /// queued holds none.
    pub open spec fn wf(self) -> bool {
        &&& self.role is Worker && self.has_place ==> self.has_worker_turn
        &&& self.has_worker_turn ==> self.role is Worker
        &&& self.status is Running ==> self.has_place
        &&& self.status is Queued ==> !self.has_place
    }

    /// Whether the task asks for a place: an explorer as long as it is queued, a worker only once
    /// it has the workers' turn.
    pub open spec fn asking(self) -> bool {
        self.status is Queued && (self.role is Explorer || self.has_worker_turn)
    }

    /// The task with the workers' turn.
    pub open spec fn in_turn(self) -> TaskModel {
        TaskModel { has_worker_turn: true, ..self }
    }

    /// The task set running.
    pub open spec fn placed(self) -> TaskModel {
        TaskModel { has_place: true, status: TaskStatus::Running, ..self }
    }
}

/// Those of some positions whose tasks still ask for a place.
pub open spec fn still_asking(tasks: Seq<TaskModel>, positions: Seq<int>) -> Seq<int>
    decreases positions.len(),
{
    if positions.len() == 0 {
        Seq::empty()
    } else if tasks[positions.last()].asking() {
        still_asking(tasks, positions.drop_last()).push(positions.last())
    } else {
        still_asking(tasks, positions.drop_last())
    }
}

/// The position of the first queued worker from a position on.
pub open spec fn next_worker(tasks: Seq<TaskModel>, from: nat) -> Option<int>
    decreases tasks.len() - from,
{
    if from >= tasks.len() {
        None
    } else if tasks[from as int].status is Queued && tasks[from as int].role is Worker {
        Some(from as int)
    } else {
        next_worker(tasks, from + 1)
    }
}

/// The tasks with those at the first `n` positions set running.
pub open spec fn set_running(tasks: Seq<TaskModel>, positions: Seq<int>, n: nat) -> Seq<TaskModel>
    decreases n,
{
    if n == 0 {
        tasks
    } else {
        let before = set_running(tasks, positions, (n - 1) as nat);
        before.update(positions[n - 1], before[positions[n - 1]].placed())
    }
}

impl ManagerModel {
    /// Places and the turn are given out within their limits, and every task that asks for a
    /// place stands in line once.
    pub open spec fn wf(self) -> bool {
        &&& self.max_concurrent >= 1
        &&& distinct_ids(self.tasks)
        &&& places(self.tasks) <= self.max_concurrent
        &&& turns(self.tasks) <= 1
        &&& forall|i: int| 0 <= i < self.tasks.len() ==> (#[trigger] self.tasks[i]).wf()
        &&& self.waiting.no_duplicates()
        &&& forall|k: int|
            0 <= k < self.waiting.len() ==> 0 <= #[trigger] self.waiting[k] < self.tasks.len()
        &&& forall|i: int|
            0 <= i < self.tasks.len() && (#[trigger] self.tasks[i]).asking()
                ==> self.waiting.contains(i)
    }

    /// The manager with a free workers' turn given to the first queued worker, which asks for its
    /// place behind all that asked before. What no longer asks has left the line.
    pub open spec fn settled(self) -> ManagerModel {
        let line = still_asking(self.tasks, self.waiting);
        match next_worker(self.tasks, 0) {
            Some(i) => if turns(self.tasks) == 0 {
                ManagerModel {
                    tasks: self.tasks.update(i, self.tasks[i].in_turn()),
                    waiting: line.push(i),
                    ..self
                }
            } else {
                ManagerModel { waiting: line, ..self }
            },
            None => ManagerModel { waiting: line, ..self },
        }
    }

    /// The manager with one more task. An explorer asks for a place at once, a worker when it gets
    /// the workers' turn.
    pub open spec fn arrived(self, task: TaskModel) -> ManagerModel {
        let with = self.with_tasks(self.tasks.push(task));
        if task.role is Explorer {
            ManagerModel { waiting: self.waiting.push(self.tasks.len() as int), ..with }
        } else {
            with.settled()
        }
    }

    /// How many of the tasks in line there is room for.
    pub open spec fn admitted(self) -> nat {
        let free = self.max_concurrent - places(self.tasks);
        if self.waiting.len() <= free {
            self.waiting.len()
        } else {
            free as nat
        }
    }

    /// The manager with the first tasks in line set running, as many as there is room for.
    pub open spec fn scheduled(self) -> ManagerModel {
        let line = self.settled();
        ManagerModel {
            tasks: set_running(line.tasks, line.waiting, line.admitted()),
            waiting: line.waiting.skip(line.admitted() as int),
            ..line
        }
    }

    /// The tasks that are set running, in the order in which they asked for a place.
    pub open spec fn started(self) -> Seq<StartedModel> {
        let line = self.settled();
        Seq::new(line.admitted(), |k: int| line.tasks[line.waiting[k]].start())
    }
}

impl TaskModel {
    pub open spec fn start(self) -> StartedModel {
        StartedModel { task_id: self.id, task: self.task, role: self.role }
    }
}

/// A task that may run now.
#[derive(Debug)]
pub struct StartedTask {
    pub task_id: String,
    pub task: String,
    pub role: AgentRole,
}

#[verifier::ext_equal]
pub struct StartedModel {
    pub task_id: Seq<char>,
    pub task: Seq<char>,
    pub role: AgentRole,
}

impl DeepView for StartedTask {
    type V = StartedModel;

    open spec fn deep_view(&self) -> StartedModel {
        StartedModel { task_id: self.task_id@, task: self.task@, role: self.role }
    }
}

/// Replacing one task changes the counts by that task alone.
pub proof fn lemma_counts_update(tasks: Seq<TaskModel>, i: int, task: TaskModel)
    requires
        0 <= i < tasks.len(),
    ensures
        places(tasks.update(i, task)) + (if tasks[i].has_place {
            1nat
        } else {
            0
        }) == places(tasks) + (if task.has_place {
            1nat
        } else {
            0
        }),
        turns(tasks.update(i, task)) + (if tasks[i].has_worker_turn {
            1nat
        } else {
            0
        }) == turns(tasks) + (if task.has_worker_turn {
            1nat
        } else {
            0
        }),
    decreases tasks.len(),
{
    let updated = tasks.update(i, task);
    if i == tasks.len() - 1 {
        assert(updated.drop_last() =~= tasks.drop_last());
    } else {
        lemma_counts_update(tasks.drop_last(), i, task);
        assert(updated.drop_last() =~= tasks.drop_last().update(i, task));
    }
}

proof fn lemma_holders_are_counted(tasks: Seq<TaskModel>, i: int)
    requires
        0 <= i < tasks.len(),
    ensures
        tasks[i].has_place ==> places(tasks) >= 1,
        tasks[i].has_worker_turn ==> turns(tasks) >= 1,
    decreases tasks.len(),
{
    if i < tasks.len() - 1 {
        lemma_holders_are_counted(tasks.drop_last(), i);
    }
}

proof fn lemma_two_turns(tasks: Seq<TaskModel>, i: int, j: int)
    requires
        0 <= i < j < tasks.len(),
        tasks[i].has_worker_turn,
        tasks[j].has_worker_turn,
    ensures
        turns(tasks) >= 2,
    decreases tasks.len(),
{
    if j == tasks.len() - 1 {
        lemma_holders_are_counted(tasks.drop_last(), i);
    } else {
        lemma_two_turns(tasks.drop_last(), i, j);
    }
}

/// Replacing a task by one that holds no more than it did keeps the manager sound.
pub proof fn lemma_update_keeps_wf(manager: ManagerModel, i: int, task: TaskModel)
    requires
        manager.wf(),
        0 <= i < manager.tasks.len(),
        task.id == manager.tasks[i].id,
        task.wf(),
        task.has_place ==> manager.tasks[i].has_place || places(manager.tasks)
            < manager.max_concurrent,
        task.has_worker_turn ==> manager.tasks[i].has_worker_turn || turns(manager.tasks) == 0,
        task.asking() ==> manager.tasks[i].asking(),
    ensures
        manager.with_tasks(manager.tasks.update(i, task)).wf(),
{
    let after = manager.with_tasks(manager.tasks.update(i, task));
    lemma_counts_update(manager.tasks, i, task);
    lemma_holders_are_counted(manager.tasks, i);
    assert forall|k: int|
        0 <= k < after.tasks.len() && (#[trigger] after.tasks[k]).asking() implies after.waiting.contains(
        k,
    ) by {
        assert(manager.tasks[k].asking());
    }
}

/// Only tasks that ask stay in line, each that did stays, and they keep their order.
proof fn lemma_still_asking(tasks: Seq<TaskModel>, positions: Seq<int>)
    ensures
        forall|k: int|
            0 <= k < still_asking(tasks, positions).len() ==> positions.contains(
                #[trigger] still_asking(tasks, positions)[k],
            ) && tasks[still_asking(tasks, positions)[k]].asking(),
        forall|k: int|
            0 <= k < positions.len() && tasks[#[trigger] positions[k]].asking() ==> still_asking(
                tasks,
                positions,
            ).contains(positions[k]),
        positions.no_duplicates() ==> still_asking(tasks, positions).no_duplicates(),
    decreases positions.len(),
{
    if positions.len() > 0 {
        let rest = positions.drop_last();
        let last = positions.last();
        let before = still_asking(tasks, rest);
        let after = still_asking(tasks, positions);
        lemma_still_asking(tasks, rest);
        assert(positions[positions.len() - 1] == last);
        assert forall|k: int| 0 <= k < after.len() implies positions.contains(#[trigger] after[k])
            && tasks[after[k]].asking() by {
            if k < before.len() {
                assert(after[k] == before[k]);
                let at = choose|at: int| 0 <= at < rest.len() && rest[at] == before[k];
                assert(positions[at] == before[k]);
            }
        }
        assert forall|k: int|
            0 <= k < positions.len() && tasks[#[trigger] positions[k]].asking() implies after.contains(
            positions[k],
        ) by {
            if k < rest.len() {
                assert(rest[k] == positions[k]);
                let at = choose|at: int| 0 <= at < before.len() && before[at] == rest[k];
                assert(after[at] == positions[k]);
            } else {
                assert(after[after.len() - 1] == last);
            }
        }
        if positions.no_duplicates() {
            assert(rest.no_duplicates());
            assert forall|k: int| 0 <= k < before.len() implies #[trigger] before[k] != last by {
                let at = choose|at: int| 0 <= at < rest.len() && rest[at] == before[k];
                assert(positions[at] == before[k]);
            }
        }
    }
}

proof fn lemma_next_worker(tasks: Seq<TaskModel>, from: nat)
    ensures
        match next_worker(tasks, from) {
            Some(i) => from <= i < tasks.len() && tasks[i].status is Queued
                && tasks[i].role is Worker,
            None => forall|i: int|
                from <= i < tasks.len() ==> !((#[trigger] tasks[i]).status is Queued
                    && tasks[i].role is Worker),
        },
    decreases tasks.len() - from,
{
    if from < tasks.len() {
        lemma_next_worker(tasks, from + 1);
    }
}

/// Giving the workers' turn out keeps the manager sound and changes nothing else of any task;
/// the line then holds the tasks that ask, and no others.
pub proof fn lemma_settled(manager: ManagerModel)
    requires
        manager.wf(),
    ensures
        manager.settled().wf(),
        manager.settled().tasks.len() == manager.tasks.len(),
        forall|i: int|
            0 <= i < manager.tasks.len() ==> {
                let after = #[trigger] manager.settled().tasks[i];
                after == manager.tasks[i] || (manager.tasks[i].status is Queued
                    && manager.tasks[i].role is Worker && turns(manager.tasks) == 0 && after
                    == manager.tasks[i].in_turn())
            },
        forall|k: int|
            0 <= k < manager.settled().waiting.len()
                ==> manager.settled().tasks[#[trigger] manager.settled().waiting[k]].asking(),
        turns(manager.settled().tasks) == 0 ==> next_worker(manager.settled().tasks, 0) is None,
        places(manager.settled().tasks) == places(manager.tasks),
{
    let line = still_asking(manager.tasks, manager.waiting);
    let after = manager.settled();
    lemma_still_asking(manager.tasks, manager.waiting);
    lemma_next_worker(manager.tasks, 0);
    assert forall|i: int|
        0 <= i < manager.tasks.len() && (#[trigger] manager.tasks[i]).asking() implies line.contains(
        i,
    ) by {
        let at = choose|at: int| 0 <= at < manager.waiting.len() && manager.waiting[at] == i;
        assert(manager.tasks[manager.waiting[at]].asking());
    }
    assert forall|k: int| 0 <= k < line.len() implies 0 <= #[trigger] line[k]
        < manager.tasks.len() by {
        let at = choose|at: int| 0 <= at < manager.waiting.len() && manager.waiting[at] == line[k];
        assert(manager.waiting[at] == line[k]);
    }
    match next_worker(manager.tasks, 0) {
        Some(i) => {
            if turns(manager.tasks) == 0 {
                let task = manager.tasks[i].in_turn();
                lemma_holders_are_counted(manager.tasks, i);
                assert(manager.tasks[i].wf());
                assert(!manager.tasks[i].asking());
                lemma_counts_update(manager.tasks, i, task);
                assert(after.waiting == line.push(i));
                assert(after.waiting[line.len() as int] == i);
                assert forall|k: int| 0 <= k < line.len() implies #[trigger] line[k] != i
                    && after.waiting[k] == line[k] by {
                }
                assert forall|j: int|
                    0 <= j < after.tasks.len() && (#[trigger] after.tasks[j]).asking() implies after.waiting.contains(
                    j,
                ) by {
                    if j != i {
                        assert(manager.tasks[j].asking());
                        let at = choose|at: int| 0 <= at < line.len() && line[at] == j;
                        assert(after.waiting[at] == j);
                    }
                }
            }
        },
        None => {},
    }
}

/// One more task keeps the manager sound.
pub proof fn lemma_arrived(manager: ManagerModel, task: TaskModel)
    requires
        manager.wf(),
        task.status is Queued,
        !task.has_place,
        !task.has_worker_turn,
        forall|i: int| 0 <= i < manager.tasks.len() ==> (#[trigger] manager.tasks[i]).id != task.id,
    ensures
        manager.arrived(task).wf(),
        task.role is Worker ==> manager.with_tasks(manager.tasks.push(task)).wf(),
{
    let with = manager.with_tasks(manager.tasks.push(task));
    let last = manager.tasks.len() as int;
    assert(with.tasks.drop_last() =~= manager.tasks);
    assert forall|i: int| 0 <= i < with.tasks.len() implies (#[trigger] with.tasks[i]).wf() by {
        if i < last {
            assert(with.tasks[i] == manager.tasks[i]);
        }
    }
    assert forall|i: int| 0 <= i < last && (#[trigger] with.tasks[i]).asking() implies manager.waiting.contains(
        i,
    ) by {
        assert(manager.tasks[i].asking());
    }
    if task.role is Explorer {
        let after = manager.arrived(task);
        assert(after.waiting[manager.waiting.len() as int] == last);
        assert forall|i: int|
            0 <= i < after.tasks.len() && (#[trigger] after.tasks[i]).asking() implies after.waiting.contains(
            i,
        ) by {
            if i < last {
                assert(with.tasks[i].asking());
                let at = choose|at: int| 0 <= at < manager.waiting.len() && manager.waiting[at] == i;
                assert(after.waiting[at] == i);
            }
        }
        assert(after.wf());
    } else {
        assert(with.wf());
        lemma_settled(with);
    }
}

/// Setting tasks running takes one place for each, and changes those tasks alone.
pub proof fn lemma_set_running(tasks: Seq<TaskModel>, positions: Seq<int>, n: nat)
    requires
        n <= positions.len(),
        positions.no_duplicates(),
        forall|k: int|
            0 <= k < positions.len() ==> 0 <= #[trigger] positions[k] < tasks.len()
                && tasks[positions[k]].asking() && tasks[positions[k]].wf(),
    ensures
        set_running(tasks, positions, n).len() == tasks.len(),
        places(set_running(tasks, positions, n)) == places(tasks) + n,
        turns(set_running(tasks, positions, n)) == turns(tasks),
        forall|i: int|
            0 <= i < tasks.len() ==> #[trigger] set_running(tasks, positions, n)[i] == (
            if positions.take(n as int).contains(i) {
                tasks[i].placed()
            } else {
                tasks[i]
            }),
    decreases n,
{
    let after = set_running(tasks, positions, n);
    if n > 0 {
        let m = (n - 1) as nat;
        let at = positions[m as int];
        let before = set_running(tasks, positions, m);
        lemma_set_running(tasks, positions, m);
        assert(!positions.take(m as int).contains(at));
        lemma_counts_update(before, at, before[at].placed());
        assert(positions.take(n as int)[m as int] == at);
        assert forall|i: int| 0 <= i < tasks.len() implies #[trigger] after[i] == (
        if positions.take(n as int).contains(i) {
            tasks[i].placed()
        } else {
            tasks[i]
        }) by {
            if i != at {
                assert(after[i] == before[i]);
                if positions.take(m as int).contains(i) {
                    let k = choose|k: int|
                        0 <= k < m && positions.take(m as int)[k] == i;
                    assert(positions.take(n as int)[k] == i);
                }
                if positions.take(n as int).contains(i) {
                    let k = choose|k: int|
                        0 <= k < n && positions.take(n as int)[k] == i;
                    assert(positions.take(m as int)[k] == i);
                }
            }
        }
    } else {
        assert forall|i: int| !positions.take(0).contains(i) by {
        }
    }
}

/// Giving places out keeps the manager sound, the tasks in their order, and what they hold.
pub proof fn lemma_schedule(manager: ManagerModel)
    requires
        manager.wf(),
    ensures
        manager.scheduled().wf(),
        manager.scheduled().tasks.len() == manager.tasks.len(),
        forall|i: int|
            0 <= i < manager.tasks.len() ==> (#[trigger] manager.scheduled().tasks[i]).id
                == manager.tasks[i].id,
        forall|i: int|
            0 <= i < manager.tasks.len() && manager.tasks[i].status.is_terminal()
                ==> #[trigger] manager.scheduled().tasks[i] == manager.tasks[i],
{
    let line = manager.settled();
    let n = line.admitted();
    let after = manager.scheduled();
    lemma_settled(manager);
    lemma_set_running(line.tasks, line.waiting, n);
    let placed = line.waiting.take(n as int);
    assert forall|i: int| 0 <= i < after.tasks.len() implies (#[trigger] after.tasks[i]).wf()
        && after.tasks[i].id == line.tasks[i].id by {
        assert(line.tasks[i].wf());
        if placed.contains(i) {
            let k = choose|k: int| 0 <= k < placed.len() && placed[k] == i;
            assert(line.waiting[k] == i);
            assert(line.tasks[line.waiting[k]].asking());
        }
    }
    assert forall|i: int|
        0 <= i < manager.tasks.len() && manager.tasks[i].status.is_terminal() implies #[trigger] after.tasks[i]
        == manager.tasks[i] by {
        assert(line.tasks[i] == manager.tasks[i]);
        if placed.contains(i) {
            let k = choose|k: int| 0 <= k < placed.len() && placed[k] == i;
            assert(line.waiting[k] == i);
            assert(line.tasks[line.waiting[k]].asking());
        }
    }
    assert forall|k: int| 0 <= k < after.waiting.len() implies #[trigger] after.waiting[k]
        == line.waiting[k + n] by {
    }
    assert forall|i: int|
        0 <= i < after.tasks.len() && (#[trigger] after.tasks[i]).asking() implies after.waiting.contains(
        i,
    ) by {
        assert(!placed.contains(i));
        assert(line.tasks[i].asking());
        let k = choose|k: int| 0 <= k < line.waiting.len() && line.waiting[k] == i;
        if k < n {
            assert(placed[k] == i);
        }
        assert(after.waiting[k - n] == i);
    }
}

fn count_places(tasks: &Vec<TaskRecord>) -> (r: usize)
    ensures
        r == places(tasks.deep_view()),
{
    let ghost all = tasks.deep_view();
    let mut n: usize = 0;
    let mut i: usize = 0;
    while i < tasks.len()
        invariant
            all == tasks.deep_view(),
            i <= tasks.len(),
            n <= i,
            n == places(all.take(i as int)),
        decreases tasks.len() - i,
    {
        assert(all.take(i + 1).drop_last() =~= all.take(i as int));
        assert(all.take(i + 1).last() == tasks@[i as int].deep_view());
        if tasks[i].has_place {
            n += 1;
        }
        i += 1;
    }
    assert(all.take(i as int) =~= all);
    n
}

fn turn_is_taken(tasks: &Vec<TaskRecord>) -> (r: bool)
    ensures
        r == (turns(tasks.deep_view()) > 0),
{
    let ghost all = tasks.deep_view();
    let mut i: usize = 0;
    while i < tasks.len()
        invariant
            all == tasks.deep_view(),
            i <= tasks.len(),
            turns(all.take(i as int)) == 0,
        decreases tasks.len() - i,
    {
        assert(all.take(i + 1).drop_last() =~= all.take(i as int));
        assert(all.take(i + 1).last() == tasks@[i as int].deep_view());
        assert(all[i as int] == tasks@[i as int].deep_view());
        if tasks[i].has_worker_turn {
            proof {
                lemma_holders_are_counted(all, i as int);
            }
            return true;
        }
        i += 1;
    }
    assert(all.take(i as int) =~= all);
    false
}

impl AgentTaskManager {
    /// Whether a task with this id is known.
    pub fn has_task(&self, task_id: &str) -> (r: bool)
        ensures
            r == (find_task(self@.tasks, task_id@) is Some),
    {
        self.position(task_id).is_some()
    }

    /// The position of the first queued worker.
    fn queued_worker(&self) -> (r: Option<usize>)
        ensures
            match r {
                Some(i) => next_worker(self@.tasks, 0) == Some(i as int) && i < self.tasks@.len(),
                None => next_worker(self@.tasks, 0) is None,
            },
    {
        let mut i: usize = 0;
        while i < self.tasks.len()
            invariant
                i <= self.tasks.len(),
                self@.tasks.len() == self.tasks.len(),
                next_worker(self@.tasks, 0) == next_worker(self@.tasks, i as nat),
            decreases self.tasks.len() - i,
        {
            assert(self@.tasks[i as int] == self.tasks@[i as int].deep_view());
            let queued = match self.tasks[i].status {
                TaskStatus::Queued => true,
                _ => false,
            };
            let worker = match self.tasks[i].role {
                AgentRole::Worker => true,
                _ => false,
            };
            if queued && worker {
                return Some(i);
            }
            i += 1;
        }
        None
    }

    /// Lets the tasks that no longer ask for a place leave the line.
    fn prune_line(&mut self)
        requires
            old(self)@.wf(),
        ensures
            final(self)@ == (ManagerModel {
                waiting: still_asking(old(self)@.tasks, old(self)@.waiting),
                ..old(self)@
            }),
            final(self).tasks == old(self).tasks,
    {
        let ghost all = self@.waiting;
        let mut line: Vec<usize> = Vec::new();
        let mut k: usize = 0;
        assert(all.take(0) =~= Seq::empty());
        assert(numbers(line@) =~= Seq::empty());
        while k < self.waiting.len()
            invariant
                *self == *old(self),
                self@.wf(),
                all == self@.waiting,
                all.len() == self.waiting.len(),
                k <= self.waiting.len(),
                numbers(line@) == still_asking(self@.tasks, all.take(k as int)),
            decreases self.waiting.len() - k,
        {
            let ghost before = line@;
            let at: usize = self.waiting[k];
            assert(all[k as int] == at);
            assert(all.take(k + 1).drop_last() =~= all.take(k as int));
            assert(self@.tasks[at as int] == self.tasks@[at as int].deep_view());
            let queued = match self.tasks[at].status {
                TaskStatus::Queued => true,
                _ => false,
            };
            let explorer = match self.tasks[at].role {
                AgentRole::Explorer => true,
                _ => false,
            };
            if queued && (explorer || self.tasks[at].has_worker_turn) {
                line.push(at);
                assert(numbers(line@) =~= numbers(before).push(at as int));
            }
            k += 1;
        }
        assert(all.take(k as int) =~= all);
        self.waiting = line;
    }

    /// Gives a free workers' turn to the first queued worker, which then asks for its place.
    fn settle(&mut self)
        requires
            old(self)@.wf(),
        ensures
            final(self)@.wf(),
            final(self)@ == old(self)@.settled(),
            final(self).tasks@.len() == old(self).tasks@.len(),
    {
        let ghost before = self@;
        proof {
            lemma_settled(before);
        }
        self.prune_line();
        let ghost line = self@.waiting;
        if turn_is_taken(&self.tasks) {
            return;
        }
        if let Some(at) = self.queued_worker() {
            assert(before.tasks[at as int] == self.tasks@[at as int].deep_view());
            self.tasks[at].has_worker_turn = true;
            self.waiting.push(at);
            assert(self@.waiting =~= line.push(at as int));
            assert(self@.tasks =~= before.tasks.update(
                at as int,
                before.tasks[at as int].in_turn(),
            ));
        }
    }

    /// Gives out the places that are free, and reports the tasks that may run now.
    ///
    /// The places go to the tasks in the order in which they asked for one. A queued worker asks
    /// only once it has the workers' turn; otherwise queued workers could keep explorers from
    /// running.
    pub fn schedule(&mut self) -> (r: Vec<StartedTask>)
        requires
            old(self)@.wf(),
        ensures
            final(self)@.wf(),
            final(self)@ == old(self)@.scheduled(),
            r.deep_view() == old(self)@.started(),
    {
        self.settle();
        let ghost line = self@;
        proof {
            lemma_settled(old(self)@);
            lemma_schedule(old(self)@);
        }
        let mut started: Vec<StartedTask> = Vec::new();
        let free: usize = self.max_concurrent - count_places(&self.tasks);
        let admitted: usize = if self.waiting.len() <= free {
            self.waiting.len()
        } else {
            free
        };
        let ghost all = old(self)@.started();
        assert(started.deep_view() =~= all.take(0));
        let mut k: usize = 0;
        while k < admitted
            invariant
                line == old(self)@.settled(),
                line.wf(),
                forall|j: int|
                    0 <= j < line.waiting.len()
                        ==> line.tasks[#[trigger] line.waiting[j]].asking(),
                admitted == line.admitted(),
                admitted <= line.waiting.len(),
                all == old(self)@.started(),
                k <= admitted,
                self@ == line.with_tasks(set_running(line.tasks, line.waiting, k as nat)),
                started.deep_view() == all.take(k as int),
            decreases admitted - k,
        {
            let ghost before = self@;
            let ghost given = started.deep_view();
            proof {
                lemma_set_running(line.tasks, line.waiting, k as nat);
            }
            assert(line.waiting[k as int] == self.waiting@[k as int]);
            let at: usize = self.waiting[k];
            proof {
                if line.waiting.take(k as int).contains(at as int) {
                    let j = choose|j: int|
                        0 <= j < k && line.waiting.take(k as int)[j] == at as int;
                    assert(line.waiting[j] == line.waiting[k as int]);
                }
            }
            assert(before.tasks[at as int] == self.tasks@[at as int].deep_view());
            self.tasks[at].has_place = true;
            self.tasks[at].status = TaskStatus::Running;
            started.push(
                StartedTask {
                    task_id: self.tasks[at].id.clone(),
                    task: self.tasks[at].task.clone(),
                    role: self.tasks[at].role,
                },
            );
            k += 1;
            assert(started.deep_view() =~= given.push(line.tasks[at as int].start()));
            assert(started.deep_view() =~= all.take(k as int));
            assert(self@.tasks =~= before.tasks.update(
                at as int,
                before.tasks[at as int].placed(),
            ));
        }
        assert(all.take(k as int) =~= all);
        let mut rest: Vec<usize> = Vec::new();
        let mut j: usize = admitted;
        let ghost queue = self.waiting@;
        while j < self.waiting.len()
            invariant
                queue == self.waiting@,
                admitted <= j <= self.waiting.len(),
                rest@ == queue.subrange(admitted as int, j as int),
                self@ == line.with_tasks(set_running(line.tasks, line.waiting, admitted as nat)),
            decreases self.waiting.len() - j,
        {
            rest.push(self.waiting[j]);
            j += 1;
            assert(rest@ =~= queue.subrange(admitted as int, j as int));
        }
        self.waiting = rest;
        assert(self@.waiting =~= line.waiting.skip(admitted as int));
        started
    }
}

/// The first of these ids that no task has.
pub open spec fn first_unknown(tasks: Seq<TaskModel>, ids: Seq<Seq<char>>) -> Option<Seq<char>>
    decreases ids.len(),
{
    if ids.len() == 0 {
        None
    } else if find_task(tasks, ids[0]) is None {
        Some(ids[0])
    } else {
        first_unknown(tasks, ids.drop_first())
    }
}

/// The reports of the tasks with these ids.
pub open spec fn reports(tasks: Seq<TaskModel>, ids: Seq<Seq<char>>) -> Seq<TaskResultModel> {
    Seq::new(ids.len(), |i: int| tasks[find_task(tasks, ids[i])->0].snapshot())
}

pub open spec fn all_terminal(tasks: Seq<TaskResultModel>) -> bool {
    forall|i: int| 0 <= i < tasks.len() ==> (#[trigger] tasks[i]).status.is_terminal()
}

/// The tasks with those of these ids marked as collected.
pub open spec fn collected(tasks: Seq<TaskModel>, ids: Seq<Seq<char>>) -> Seq<TaskModel>
    decreases ids.len(),
{
    if ids.len() == 0 {
        tasks
    } else {
        let before = collected(tasks, ids.drop_last());
        match find_task(before, ids.last()) {
            Some(i) => before.update(i, TaskModel { collected: true, ..before[i] }),
            None => before,
        }
    }
}

/// The tasks with those of these ids stopped.
pub open spec fn stopped(
    tasks: Seq<TaskModel>,
    ids: Seq<Seq<char>>,
    status: TaskStatus,
    reason: Seq<char>,
) -> Seq<TaskModel>
    decreases ids.len(),
{
    if ids.len() == 0 {
        tasks
    } else {
        let before = stopped(tasks, ids.drop_last(), status, reason);
        match find_task(before, ids.last()) {
            Some(i) => before.update(i, before[i].stopped(status, reason)),
            None => before,
        }
    }
}

/// Which of these ids name a task that the stop ends.
pub open spec fn ended_by_stop(
    tasks: Seq<TaskModel>,
    ids: Seq<Seq<char>>,
    status: TaskStatus,
    reason: Seq<char>,
) -> Seq<Seq<char>>
    decreases ids.len(),
{
    if ids.len() == 0 {
        Seq::empty()
    } else {
        let before = stopped(tasks, ids.drop_last(), status, reason);
        let ended = ended_by_stop(tasks, ids.drop_last(), status, reason);
        match find_task(before, ids.last()) {
            Some(i) => if before[i].status.is_terminal() {
                ended
            } else {
                ended.push(ids.last())
            },
            None => ended,
        }
    }
}

pub open spec fn task_ids_of(tasks: Seq<TaskModel>) -> Seq<Seq<char>> {
    Seq::new(tasks.len(), |i: int| tasks[i].id)
}

/// The ids of the tasks whose results nobody has taken.
pub open spec fn uncollected(tasks: Seq<TaskModel>) -> Seq<Seq<char>>
    decreases tasks.len(),
{
    if tasks.len() == 0 {
        Seq::empty()
    } else if tasks.last().collected {
        uncollected(tasks.drop_last())
    } else {
        uncollected(tasks.drop_last()).push(tasks.last().id)
    }
}

/// Whether some worker has not ended.
pub open spec fn workers_active(tasks: Seq<TaskModel>) -> bool {
    exists|i: int|
        0 <= i < tasks.len() && (#[trigger] tasks[i]).role is Worker
            && !tasks[i].status.is_terminal()
}

/// What a finished run leaves in the record of its task.
pub open spec fn finished(
    task: TaskModel,
    status: TaskStatus,
    result: Option<Seq<char>>,
    error: Option<Seq<char>>,
) -> TaskModel {
    if task.status.is_stopped() {
        task.released()
    } else {
        TaskModel { status, result, error, ..task.released() }
    }
}

/// What a failure to run leaves in the record of a task.
pub open spec fn failed(task: TaskModel, error: Seq<char>) -> TaskModel {
    if task.status.is_terminal() {
        task.released()
    } else {
        TaskModel { status: TaskStatus::Failed, error: Some(error), ..task.released() }
    }
}

impl ManagerModel {
    /// The manager with the task of this id, if there is one, replaced.
    pub open spec fn replacing(self, id: Seq<char>, task: TaskModel) -> ManagerModel {
        match find_task(self.tasks, id) {
            Some(i) => self.with_tasks(self.tasks.update(i, task)),
            None => self,
        }
    }

    /// The task with this id.
    pub open spec fn task(self, id: Seq<char>) -> TaskModel {
        self.tasks[find_task(self.tasks, id)->0]
    }
}

pub open spec fn unknown_task(tool: Seq<char>, id: Seq<char>) -> ToolErrorModel {
    ToolErrorModel { tool, message: "Unknown subagent task '"@ + id + "'"@ }
}

pub proof fn lemma_collected(manager: ManagerModel, ids: Seq<Seq<char>>)
    requires
        manager.wf(),
    ensures
        manager.with_tasks(collected(manager.tasks, ids)).wf(),
        collected(manager.tasks, ids).len() == manager.tasks.len(),
        forall|i: int|
            0 <= i < manager.tasks.len() ==> {
                let after = #[trigger] collected(manager.tasks, ids)[i];
                after == TaskModel {
                    collected: manager.tasks[i].collected || ids.contains(manager.tasks[i].id),
                    ..manager.tasks[i]
                }
            },
    decreases ids.len(),
{
    if ids.len() > 0 {
        let rest = ids.drop_last();
        lemma_collected(manager, rest);
        let before = collected(manager.tasks, rest);
        lemma_find_task(before, ids.last());
        assert forall|id: Seq<char>| ids.contains(id) implies rest.contains(id) || id
            == ids.last() by {
            let k = choose|k: int| 0 <= k < ids.len() && ids[k] == id;
            if k < ids.len() - 1 {
                assert(rest[k] == id);
            }
        }
        assert forall|id: Seq<char>| rest.contains(id) implies ids.contains(id) by {
            let k = choose|k: int| 0 <= k < rest.len() && rest[k] == id;
            assert(ids[k] == id);
        }
        assert(ids.contains(ids.last())) by {
            assert(ids[ids.len() - 1] == ids.last());
        }
        match find_task(before, ids.last()) {
            Some(i) => {
                lemma_update_keeps_wf(
                    manager.with_tasks(before),
                    i,
                    TaskModel { collected: true, ..before[i] },
                );
            },
            None => {},
        }
    }
}

/// Stopping ends the named tasks that have not ended, and leaves every other task as it was.
pub proof fn lemma_stopped(
    manager: ManagerModel,
    ids: Seq<Seq<char>>,
    status: TaskStatus,
    reason: Seq<char>,
)
    requires
        manager.wf(),
        status.is_stopped(),
    ensures
        manager.with_tasks(stopped(manager.tasks, ids, status, reason)).wf(),
        stopped(manager.tasks, ids, status, reason).len() == manager.tasks.len(),
        forall|i: int|
            0 <= i < manager.tasks.len() ==> #[trigger] stopped(
                manager.tasks,
                ids,
                status,
                reason,
            )[i] == if ids.contains(manager.tasks[i].id) {
                manager.tasks[i].stopped(status, reason)
            } else {
                manager.tasks[i]
            },
    decreases ids.len(),
{
    if ids.len() > 0 {
        let rest = ids.drop_last();
        lemma_stopped(manager, rest, status, reason);
        let before = stopped(manager.tasks, rest, status, reason);
        lemma_find_task(before, ids.last());
        assert forall|id: Seq<char>| ids.contains(id) implies rest.contains(id) || id
            == ids.last() by {
            let k = choose|k: int| 0 <= k < ids.len() && ids[k] == id;
            if k < ids.len() - 1 {
                assert(rest[k] == id);
            }
        }
        assert forall|id: Seq<char>| rest.contains(id) implies ids.contains(id) by {
            let k = choose|k: int| 0 <= k < rest.len() && rest[k] == id;
            assert(ids[k] == id);
        }
        assert(ids.contains(ids.last())) by {
            assert(ids[ids.len() - 1] == ids.last());
        }
        match find_task(before, ids.last()) {
            Some(i) => {
                lemma_update_keeps_wf(
                    manager.with_tasks(before),
                    i,
                    before[i].stopped(status, reason),
                );
            },
            None => {},
        }
    }
}

fn have_all_ended(results: &Vec<AgentTaskResult>) -> (r: bool)
    ensures
        r == all_terminal(results.deep_view()),
{
    let ghost found = results.deep_view();
    let mut i: usize = 0;
    while i < results.len()
        invariant
            found == results.deep_view(),
            i <= results.len(),
            forall|j: int| 0 <= j < i ==> (#[trigger] found[j]).status.is_terminal(),
        decreases results.len() - i,
    {
        assert(found[i as int] == results@[i as int].deep_view());
        if !results[i].status.terminal() {
            return false;
        }
        i += 1;
    }
    true
}

/// What stopping tasks did.
#[derive(Debug)]
pub struct StopOutcome {
    /// The tasks that were ended by it, whose agents are to be interrupted.
    pub ended: Vec<String>,
    /// The reports of all the tasks that were named.
    pub results: Vec<AgentTaskResult>,
}

impl AgentTaskManager {
    fn find_unknown(&self, task_ids: &Vec<String>) -> (r: Option<usize>)
        ensures
            match r {
                Some(i) => i < task_ids@.len() && first_unknown(
                    self@.tasks,
                    task_ids.deep_view(),
                ) == Some(task_ids@[i as int]@),
                None => first_unknown(self@.tasks, task_ids.deep_view()) is None && forall|i: int|
                    0 <= i < task_ids@.len() ==> find_task(
                        self@.tasks,
                        (#[trigger] task_ids@[i])@,
                    ) is Some,
            },
    {
        let ghost ids = task_ids.deep_view();
        let mut i: usize = 0;
        assert(ids.subrange(0, ids.len() as int) =~= ids);
        while i < task_ids.len()
            invariant
                ids == task_ids.deep_view(),
                i <= task_ids.len(),
                first_unknown(self@.tasks, ids) == first_unknown(
                    self@.tasks,
                    ids.subrange(i as int, ids.len() as int),
                ),
                forall|j: int|
                    0 <= j < i ==> find_task(self@.tasks, (#[trigger] task_ids@[j])@) is Some,
            decreases task_ids.len() - i,
        {
            assert(ids.subrange(i as int, ids.len() as int).drop_first() =~= ids.subrange(
                i + 1,
                ids.len() as int,
            ));
            if self.position(task_ids[i].as_str()).is_none() {
                return Some(i);
            }
            i += 1;
        }
        None
    }

    fn snapshots(&self, task_ids: &Vec<String>) -> (r: Vec<AgentTaskResult>)
        requires
            forall|i: int|
                0 <= i < task_ids@.len() ==> find_task(
                    self@.tasks,
                    (#[trigger] task_ids@[i])@,
                ) is Some,
        ensures
            r.deep_view() == reports(self@.tasks, task_ids.deep_view()),
    {
        let ghost ids = task_ids.deep_view();
        let ghost all = reports(self@.tasks, ids);
        let mut results: Vec<AgentTaskResult> = Vec::new();
        let mut i: usize = 0;
        assert(results.deep_view() =~= all.take(0));
        while i < task_ids.len()
            invariant
                ids == task_ids.deep_view(),
                all == reports(self@.tasks, ids),
                i <= task_ids.len(),
                results.deep_view() == all.take(i as int),
                forall|i: int|
                    0 <= i < task_ids@.len() ==> find_task(
                        self@.tasks,
                        (#[trigger] task_ids@[i])@,
                    ) is Some,
            decreases task_ids.len() - i,
        {
            let ghost before = results.deep_view();
            assert(find_task(self@.tasks, task_ids@[i as int]@) is Some);
            if let Some(at) = self.position(task_ids[i].as_str()) {
                let report = self.tasks[at].snapshot();
                results.push(report);
                assert(results.deep_view() =~= before.push(report.deep_view()));
                assert(self@.tasks[at as int] == self.tasks@[at as int].deep_view());
                assert(all.take(i + 1) =~= before.push(report.deep_view()));
            }
            i += 1;
        }
        assert(all.take(i as int) =~= all);
        results
    }

    fn collect(&mut self, task_ids: &Vec<String>)
        requires
            old(self)@.wf(),
        ensures
            final(self)@.wf(),
            final(self)@ == old(self)@.with_tasks(
                collected(old(self)@.tasks, task_ids.deep_view()),
            ),
    {
        let ghost first = self@;
        let ghost ids = task_ids.deep_view();
        let mut i: usize = 0;
        while i < task_ids.len()
            invariant
                ids == task_ids.deep_view(),
                first.wf(),
                i <= task_ids.len(),
                self@ == first.with_tasks(collected(first.tasks, ids.take(i as int))),
            decreases task_ids.len() - i,
        {
            let ghost before = self@;
            assert(ids.take(i + 1).drop_last() =~= ids.take(i as int));
            if let Some(at) = self.position(task_ids[i].as_str()) {
                assert(before.tasks[at as int] == self.tasks@[at as int].deep_view());
                self.tasks[at].collected = true;
                assert(self@.tasks =~= before.tasks.update(
                    at as int,
                    TaskModel { collected: true, ..before.tasks[at as int] },
                ));
            }
            i += 1;
        }
        assert(ids.take(i as int) =~= ids);
        proof {
            lemma_collected(first, ids);
        }
    }

    /// The reports of these tasks once all of them have ended; `None` while one still runs.
    pub fn wait(&mut self, task_ids: &Vec<String>) -> (r: Result<
        Option<Vec<AgentTaskResult>>,
        ToolError,
    >)
        requires
            old(self)@.wf(),
        ensures
            final(self)@.wf(),
            match first_unknown(old(self)@.tasks, task_ids.deep_view()) {
                Some(id) => final(self)@ == old(self)@ && r is Err && r->Err_0.deep_view()
                    == unknown_task("wait_agents"@, id),
                None => {
                    let found = reports(old(self)@.tasks, task_ids.deep_view());
                    if all_terminal(found) {
                        &&& r is Ok && r->Ok_0 is Some && r->Ok_0->0.deep_view() == found
                        &&& final(self)@ == old(self)@.with_tasks(
                            collected(old(self)@.tasks, task_ids.deep_view()),
                        )
                    } else {
                        r is Ok && r->Ok_0 is None && final(self)@ == old(self)@
                    }
                },
            },
    {
        if let Some(i) = self.find_unknown(task_ids) {
            return Err(
                ToolError::new(
                    "wait_agents",
                    concat3("Unknown subagent task '", task_ids[i].as_str(), "'"),
                ),
            );
        }
        let results = self.snapshots(task_ids);
        if !have_all_ended(&results) {
            return Ok(None);
        }
        self.collect(task_ids);
        Ok(Some(results))
    }

    fn mark_stopped(&mut self, task_ids: &Vec<String>, status: TaskStatus, reason: &str) -> (r: Vec<
        String,
    >)
        requires
            old(self)@.wf(),
            status.is_stopped(),
        ensures
            final(self)@.wf(),
            final(self)@ == old(self)@.with_tasks(
                stopped(old(self)@.tasks, task_ids.deep_view(), status, reason@),
            ),
            r.deep_view() == ended_by_stop(
                old(self)@.tasks,
                task_ids.deep_view(),
                status,
                reason@,
            ),
    {
        let ghost first = self@;
        let ghost ids = task_ids.deep_view();
        let mut ended: Vec<String> = Vec::new();
        assert(ended.deep_view() =~= Seq::empty());
        let mut i: usize = 0;
        while i < task_ids.len()
            invariant
                ids == task_ids.deep_view(),
                first.wf(),
                i <= task_ids.len(),
                self@ == first.with_tasks(
                    stopped(first.tasks, ids.take(i as int), status, reason@),
                ),
                ended.deep_view() == ended_by_stop(
                    first.tasks,
                    ids.take(i as int),
                    status,
                    reason@,
                ),
            decreases task_ids.len() - i,
        {
            let ghost before = self@;
            let ghost given = ended.deep_view();
            assert(ids.take(i + 1).drop_last() =~= ids.take(i as int));
            if let Some(at) = self.position(task_ids[i].as_str()) {
                assert(before.tasks[at as int] == self.tasks@[at as int].deep_view());
                if !self.tasks[at].status.terminal() {
                    self.tasks[at].status = status;
                    self.tasks[at].error = Some(owned(reason));
                    ended.push(task_ids[i].clone());
                    assert(ended.deep_view() =~= given.push(task_ids@[i as int]@));
                }
                assert(self@.tasks =~= before.tasks.update(
                    at as int,
                    before.tasks[at as int].stopped(status, reason@),
                ));
            }
            i += 1;
        }
        assert(ids.take(i as int) =~= ids);
        proof {
            lemma_stopped(first, ids, status, reason@);
        }
        ended
    }

    /// Ends those of these tasks that have not ended. Nothing changes where one is unknown.
    fn stop(&mut self, task_ids: &Vec<String>, status: TaskStatus, reason: &str) -> (r: Result<
        StopOutcome,
        ToolError,
    >)
        requires
            old(self)@.wf(),
            status.is_stopped(),
        ensures
            final(self)@.wf(),
            stop_result(old(self)@, task_ids.deep_view(), status, reason@, r, final(self)@),
    {
        if let Some(i) = self.find_unknown(task_ids) {
            return Err(
                ToolError::new(
                    "cancel_agents",
                    concat3("Unknown subagent task '", task_ids[i].as_str(), "'"),
                ),
            );
        }
        let ghost first = self@;
        let ended = self.mark_stopped(task_ids, status, reason);
        assert forall|i: int| 0 <= i < task_ids@.len() implies find_task(
            self@.tasks,
            (#[trigger] task_ids@[i])@,
        ) is Some by {
            lemma_stopped(first, task_ids.deep_view(), status, reason@);
            let id = task_ids@[i]@;
            lemma_find_task(first.tasks, id);
            lemma_find_task(self@.tasks, id);
            let at = find_task(first.tasks, id)->0;
            assert(stopped(first.tasks, task_ids.deep_view(), status, reason@)[at].id == id);
        }
        let results = self.snapshots(task_ids);
        self.collect(task_ids);
        Ok(StopOutcome { ended, results })
    }

    pub fn cancel(&mut self, task_ids: &Vec<String>) -> (r: Result<StopOutcome, ToolError>)
        requires
            old(self)@.wf(),
        ensures
            final(self)@.wf(),
            stop_result(
                old(self)@,
                task_ids.deep_view(),
                TaskStatus::Cancelled,
                "Cancelled by parent agent"@,
                r,
                final(self)@,
            ),
    {
        self.stop(task_ids, TaskStatus::Cancelled, "Cancelled by parent agent")
    }

    /// The ids of all tasks, in the order of their arrival.
    pub fn all_task_ids(&self) -> (r: Vec<String>)
        ensures
            r.deep_view() == task_ids_of(self@.tasks),
    {
        let ghost all = task_ids_of(self@.tasks);
        let mut ids: Vec<String> = Vec::new();
        let mut i: usize = 0;
        assert(ids.deep_view() =~= all.take(0));
        while i < self.tasks.len()
            invariant
                all == task_ids_of(self@.tasks),
                self@.tasks.len() == self.tasks.len(),
                i <= self.tasks.len(),
                ids.deep_view() == all.take(i as int),
            decreases self.tasks.len() - i,
        {
            let ghost before = ids.deep_view();
            ids.push(self.tasks[i].id.clone());
            assert(self@.tasks[i as int] == self.tasks@[i as int].deep_view());
            assert(ids.deep_view() =~= before.push(all[i as int]));
            assert(all.take(i + 1) =~= before.push(all[i as int]));
            i += 1;
        }
        assert(all.take(i as int) =~= all);
        ids
    }

    pub fn cancel_all(&mut self) -> (r: Vec<String>)
        requires
            old(self)@.wf(),
        ensures
            final(self)@.wf(),
            final(self)@ == old(self)@.all_stopped(
                TaskStatus::Cancelled,
                "Cancelled by parent agent"@,
            ),
            r.deep_view() == old(self)@.all_ended(
                TaskStatus::Cancelled,
                "Cancelled by parent agent"@,
            ),
    {
        let ids = self.all_task_ids();
        proof {
            lemma_all_known(self@, ids.deep_view());
        }
        match self.cancel(&ids) {
            Ok(outcome) => outcome.ended,
            Err(_) => Vec::new(),
        }
    }

    pub fn interrupt_all(&mut self) -> (r: Vec<String>)
        requires
            old(self)@.wf(),
        ensures
            final(self)@.wf(),
            final(self)@ == old(self)@.all_stopped(
                TaskStatus::Interrupted,
                "Interrupted with parent agent"@,
            ),
            r.deep_view() == old(self)@.all_ended(
                TaskStatus::Interrupted,
                "Interrupted with parent agent"@,
            ),
    {
        let ids = self.all_task_ids();
        proof {
            lemma_all_known(self@, ids.deep_view());
        }
        match self.stop(&ids, TaskStatus::Interrupted, "Interrupted with parent agent") {
            Ok(outcome) => outcome.ended,
            Err(_) => Vec::new(),
        }
    }

    /// Forgets every task, so that a new turn of the parent agent starts with none. Gives the
    /// ids of the tasks that were still active, to be interrupted, and of all tasks.
    pub fn reset_for_parent_turn(&mut self) -> (r: (Vec<String>, Vec<String>))
        requires
            old(self)@.wf(),
        ensures
            final(self)@.wf(),
            final(self)@ == (ManagerModel {
                tasks: Seq::empty(),
                waiting: Seq::empty(),
                ..old(self)@
            }),
            r.0.deep_view() == old(self)@.all_ended(
                TaskStatus::Cancelled,
                "Cancelled by parent agent"@,
            ),
            r.1.deep_view() == task_ids_of(old(self)@.tasks),
    {
        let ids = self.all_task_ids();
        let ended = self.cancel_all();
        self.tasks = Vec::new();
        self.waiting = Vec::new();
        assert(self@.tasks =~= Seq::empty());
        assert(self@.waiting =~= Seq::empty());
        (ended, ids)
    }

    /// Whether no worker is queued or running.
    pub fn workers_idle(&self) -> (r: bool)
        ensures
            r == !workers_active(self@.tasks),
    {
        let mut i: usize = 0;
        while i < self.tasks.len()
            invariant
                i <= self.tasks.len(),
                self@.tasks.len() == self.tasks.len(),
                forall|j: int|
                    0 <= j < i ==> !((#[trigger] self@.tasks[j]).role is Worker
                        && !self@.tasks[j].status.is_terminal()),
            decreases self.tasks.len() - i,
        {
            assert(self@.tasks[i as int] == self.tasks@[i as int].deep_view());
            let worker = match self.tasks[i].role {
                AgentRole::Worker => true,
                _ => false,
            };
            if worker && !self.tasks[i].status.terminal() {
                return false;
            }
            i += 1;
        }
        true
    }

    pub fn uncollected_task_ids(&self) -> (r: Vec<String>)
        ensures
            r.deep_view() == uncollected(self@.tasks),
    {
        let ghost all = self@.tasks;
        let mut ids: Vec<String> = Vec::new();
        let mut i: usize = 0;
        assert(ids.deep_view() =~= Seq::empty());
        while i < self.tasks.len()
            invariant
                all == self@.tasks,
                all.len() == self.tasks.len(),
                i <= self.tasks.len(),
                ids.deep_view() == uncollected(all.take(i as int)),
            decreases self.tasks.len() - i,
        {
            let ghost before = ids.deep_view();
            assert(all[i as int] == self.tasks@[i as int].deep_view());
            assert(all.take(i + 1).drop_last() =~= all.take(i as int));
            if !self.tasks[i].collected {
                ids.push(self.tasks[i].id.clone());
                assert(ids.deep_view() =~= before.push(all[i as int].id));
            }
            i += 1;
        }
        assert(all.take(i as int) =~= all);
        ids
    }

    /// Whether these counts can be added to those of the task.
    pub fn can_record_usage(&self, task_id: &str, usage: &Usage) -> (r: bool)
        ensures
            r == (find_task(self@.tasks, task_id@) is Some ==> self@.task(task_id@).usage.can_add(
                *usage,
            )),
    {
        match self.position(task_id) {
            Some(at) => {
                assert(self@.tasks[at as int] == self.tasks@[at as int].deep_view());
                self.tasks[at].usage.can_add_usage(usage)
            },
            None => true,
        }
    }

    pub fn record_usage(&mut self, task_id: &str, usage: &Usage)
        requires
            old(self)@.wf(),
            find_task(old(self)@.tasks, task_id@) is Some ==> old(self)@.task(
                task_id@,
            ).usage.can_add(*usage),
        ensures
            final(self)@.wf(),
            final(self)@ == old(self)@.replacing(
                task_id@,
                TaskModel {
                    usage: old(self)@.task(task_id@).usage.plus(*usage),
                    ..old(self)@.task(task_id@)
                },
            ),
    {
        let ghost before = self@;
        if let Some(at) = self.position(task_id) {
            assert(before.tasks[at as int] == self.tasks@[at as int].deep_view());
            let total = self.tasks[at].usage.add_usage(usage);
            self.tasks[at].usage = total;
            proof {
                let after = TaskModel { usage: total, ..before.tasks[at as int] };
                lemma_update_keeps_wf(before, at as int, after);
                assert(self@.tasks =~= before.tasks.update(at as int, after));
            }
        }
    }

    /// Takes the places of a task whose agent is gone.
    pub fn release(&mut self, task_id: &str)
        requires
            old(self)@.wf(),
            find_task(old(self)@.tasks, task_id@) is Some ==> !(old(self)@.task(
                task_id@,
            ).status is Running),
        ensures
            final(self)@.wf(),
            final(self)@ == old(self)@.replacing(task_id@, old(self)@.task(task_id@).released()),
    {
        let ghost before = self@;
        if let Some(at) = self.position(task_id) {
            assert(before.tasks[at as int] == self.tasks@[at as int].deep_view());
            self.tasks[at].has_place = false;
            self.tasks[at].has_worker_turn = false;
            proof {
                let after = before.tasks[at as int].released();
                lemma_update_keeps_wf(before, at as int, after);
                assert(self@.tasks =~= before.tasks.update(at as int, after));
            }
        }
    }

    /// Notes how the run of a task ended. What was cancelled or interrupted stays so.
    pub fn finish(
        &mut self,
        task_id: &str,
        status: TaskStatus,
        result: Option<String>,
        error: Option<String>,
    )
        requires
            old(self)@.wf(),
            status.is_terminal(),
        ensures
            final(self)@.wf(),
            final(self)@ == old(self)@.replacing(
                task_id@,
                finished(
                    old(self)@.task(task_id@),
                    status,
                    result.deep_view(),
                    error.deep_view(),
                ),
            ),
    {
        let ghost before = self@;
        if let Some(at) = self.position(task_id) {
            let ghost after = finished(
                before.tasks[at as int],
                status,
                result.deep_view(),
                error.deep_view(),
            );
            assert(before.tasks[at as int] == self.tasks@[at as int].deep_view());
            if !self.tasks[at].status.stopped() {
                self.tasks[at].status = status;
                self.tasks[at].result = result;
                self.tasks[at].error = error;
            }
            self.tasks[at].has_place = false;
            self.tasks[at].has_worker_turn = false;
            proof {
                lemma_update_keeps_wf(before, at as int, after);
                assert(self@.tasks =~= before.tasks.update(at as int, after));
            }
        }
    }

    /// Notes that a task could not be run. What has ended stays as it is.
    pub fn finish_failed(&mut self, task_id: &str, error: &str)
        requires
            old(self)@.wf(),
        ensures
            final(self)@.wf(),
            final(self)@ == old(self)@.replacing(
                task_id@,
                failed(old(self)@.task(task_id@), error@),
            ),
    {
        let ghost before = self@;
        if let Some(at) = self.position(task_id) {
            let ghost after = failed(before.tasks[at as int], error@);
            assert(before.tasks[at as int] == self.tasks@[at as int].deep_view());
            if !self.tasks[at].status.terminal() {
                self.tasks[at].status = TaskStatus::Failed;
                self.tasks[at].error = Some(owned(error));
            }
            self.tasks[at].has_place = false;
            self.tasks[at].has_worker_turn = false;
            proof {
                lemma_update_keeps_wf(before, at as int, after);
                assert(self@.tasks =~= before.tasks.update(at as int, after));
            }
        }
    }
}

/// What stopping these tasks gives and leaves.
pub open spec fn stop_result(
    before: ManagerModel,
    ids: Seq<Seq<char>>,
    status: TaskStatus,
    reason: Seq<char>,
    r: Result<StopOutcome, ToolError>,
    after: ManagerModel,
) -> bool {
    match first_unknown(before.tasks, ids) {
        Some(id) => after == before && r is Err && r->Err_0.deep_view() == unknown_task(
            "cancel_agents"@,
            id,
        ),
        None => {
            let ended = stopped(before.tasks, ids, status, reason);
            &&& r is Ok
            &&& r->Ok_0.ended.deep_view() == ended_by_stop(before.tasks, ids, status, reason)
            &&& r->Ok_0.results.deep_view() == reports(ended, ids)
            &&& after == before.with_tasks(collected(ended, ids))
        },
    }
}

impl ManagerModel {
    pub open spec fn all_stopped(self, status: TaskStatus, reason: Seq<char>) -> ManagerModel {
        let ids = task_ids_of(self.tasks);
        self.with_tasks(collected(stopped(self.tasks, ids, status, reason), ids))
    }

    pub open spec fn all_ended(self, status: TaskStatus, reason: Seq<char>) -> Seq<Seq<char>> {
        ended_by_stop(self.tasks, task_ids_of(self.tasks), status, reason)
    }
}

proof fn lemma_all_known(manager: ManagerModel, ids: Seq<Seq<char>>)
    requires
        forall|i: int|
            0 <= i < ids.len() ==> task_ids_of(manager.tasks).contains(#[trigger] ids[i]),
    ensures
        first_unknown(manager.tasks, ids) is None,
    decreases ids.len(),
{
    if ids.len() > 0 {
        lemma_find_task(manager.tasks, ids[0]);
        let at = choose|at: int|
            0 <= at < manager.tasks.len() && task_ids_of(manager.tasks)[at] == ids[0];
        assert(manager.tasks[at].id == ids[0]);
        assert forall|i: int| 0 <= i < ids.drop_first().len() implies task_ids_of(
            manager.tasks,
        ).contains(#[trigger] ids.drop_first()[i]) by {
            assert(ids.drop_first()[i] == ids[i + 1]);
        }
        lemma_all_known(manager, ids.drop_first());
    }
}

/// At most one worker runs at a time, whatever the capacity.
pub proof fn law_workers_run_one_at_a_time(manager: ManagerModel, i: int, j: int)
    requires
        manager.wf(),
        0 <= i < manager.tasks.len(),
        0 <= j < manager.tasks.len(),
        manager.tasks[i].role is Worker,
        manager.tasks[j].role is Worker,
        manager.tasks[i].status is Running,
        manager.tasks[j].status is Running,
    ensures
        i == j,
{
    assert(manager.tasks[i].wf());
    assert(manager.tasks[j].wf());
    if i < j {
        lemma_two_turns(manager.tasks, i, j);
    } else if j < i {
        lemma_two_turns(manager.tasks, j, i);
    }
}

/// How many tasks are running.
pub open spec fn running(tasks: Seq<TaskModel>) -> nat
    decreases tasks.len(),
{
    if tasks.len() == 0 {
        0
    } else {
        running(tasks.drop_last()) + if tasks.last().status is Running {
            1nat
        } else {
            0
        }
    }
}

/// No more tasks run than there are places.
pub proof fn law_running_tasks_fit(manager: ManagerModel)
    requires
        manager.wf(),
    ensures
        running(manager.tasks) <= manager.max_concurrent,
{
    lemma_running_hold_places(manager.tasks);
}

proof fn lemma_running_hold_places(tasks: Seq<TaskModel>)
    requires
        forall|i: int| 0 <= i < tasks.len() ==> (#[trigger] tasks[i]).wf(),
    ensures
        running(tasks) <= places(tasks),
    decreases tasks.len(),
{
    if tasks.len() > 0 {
        let rest = tasks.drop_last();
        assert forall|i: int| 0 <= i < rest.len() implies (#[trigger] rest[i]).wf() by {
            assert(rest[i] == tasks[i]);
        }
        lemma_running_hold_places(rest);
        assert(tasks[tasks.len() - 1].wf());
    }
}

/// An explorer is left queued only where every place is taken: queued workers hold none.
/// A worker is left queued only where every place or the workers' turn is taken.
pub proof fn law_free_places_are_given_out(manager: ManagerModel, i: int)
    requires
        manager.wf(),
        0 <= i < manager.tasks.len(),
    ensures
        ({
            let after = manager.scheduled().tasks;
            &&& after[i].status is Queued && after[i].role is Explorer ==> places(after)
                == manager.max_concurrent
            &&& after[i].status is Queued && after[i].role is Worker ==> places(after)
                == manager.max_concurrent || turns(after) == 1
        }),
{
    let line = manager.settled();
    let n = line.admitted();
    let after = manager.scheduled();
    lemma_settled(manager);
    lemma_schedule(manager);
    lemma_set_running(line.tasks, line.waiting, n);
    if after.tasks[i].asking() {
        assert(after.waiting.contains(i));
        assert(n < line.waiting.len());
    }
    lemma_next_worker(line.tasks, 0);
    if after.tasks[i].status is Queued && after.tasks[i].role is Worker {
        assert(line.tasks[i] == after.tasks[i]);
    }
}

/// Where two tasks stand in line and both still ask for a place, the one that asked first keeps
/// its lead when the others leave the line.
proof fn lemma_order_in_line(tasks: Seq<TaskModel>, positions: Seq<int>, a: int)
    requires
        0 <= a < positions.len(),
        tasks[positions[a]].asking(),
    ensures
        ({
            let rank = still_asking(tasks, positions.take(a)).len();
            rank < still_asking(tasks, positions).len() && still_asking(
                tasks,
                positions,
            )[rank as int] == positions[a]
        }),
    decreases positions.len(),
{
    let rest = positions.drop_last();
    if a == positions.len() - 1 {
        assert(positions.take(a) =~= rest);
    } else {
        assert(rest.take(a) =~= positions.take(a));
        assert(rest[a] == positions[a]);
        lemma_order_in_line(tasks, rest, a);
    }
}

/// Places go to the tasks in the order in which they asked: no task runs while one that asked
/// before it is left waiting.
pub proof fn law_no_task_is_passed_over(manager: ManagerModel, a: int, b: int)
    requires
        manager.wf(),
        0 <= a < b < manager.waiting.len(),
        manager.tasks[manager.waiting[a]].asking(),
        manager.tasks[manager.waiting[b]].asking(),
    ensures
        manager.scheduled().tasks[manager.waiting[b]].status is Running
            ==> manager.scheduled().tasks[manager.waiting[a]].status is Running,
{
    let line = manager.settled();
    let n = line.admitted();
    let kept = still_asking(manager.tasks, manager.waiting);
    lemma_settled(manager);
    lemma_set_running(line.tasks, line.waiting, n);
    lemma_order_in_line(manager.tasks, manager.waiting, a);
    lemma_order_in_line(manager.tasks, manager.waiting, b);
    let before_b = manager.waiting.take(b);
    assert(before_b[a] == manager.waiting[a]);
    assert(before_b.take(a) =~= manager.waiting.take(a));
    lemma_order_in_line(manager.tasks, before_b, a);
    let i = still_asking(manager.tasks, manager.waiting.take(a)).len() as int;
    let j = still_asking(manager.tasks, before_b).len() as int;
    assert(i < j);
    assert(line.waiting[i] == kept[i]);
    assert(line.waiting[j] == kept[j]);
    let placed = line.waiting.take(n as int);
    if manager.scheduled().tasks[manager.waiting[b]].status is Running {
        let at = manager.waiting[b];
        assert(line.tasks[line.waiting[j]].asking());
        assert(placed.contains(at));
        let k = choose|k: int| 0 <= k < placed.len() && placed[k] == at;
        assert(line.waiting[k] == line.waiting[j]);
        assert(placed[i] == manager.waiting[a]);
        assert(placed.contains(manager.waiting[a]));
    }
}

/// A worker that gets the workers' turn asks for its place behind every task that asked before it.
pub proof fn law_a_worker_asks_in_its_turn(manager: ManagerModel, i: int)
    requires
        manager.wf(),
        0 <= i < manager.tasks.len(),
        !manager.tasks[i].has_worker_turn,
        manager.settled().tasks[i].has_worker_turn,
    ensures
        manager.settled().waiting == still_asking(manager.tasks, manager.waiting).push(i),
{
    lemma_next_worker(manager.tasks, 0);
}

/// A task that was cancelled or interrupted stays so, with its error: neither the end of its
/// run, a failure, another stop nor the giving out of places changes it.
pub proof fn law_stopped_tasks_stay_stopped(
    manager: ManagerModel,
    i: int,
    status: TaskStatus,
    result: Option<Seq<char>>,
    error: Option<Seq<char>>,
    reason: Seq<char>,
)
    requires
        manager.wf(),
        0 <= i < manager.tasks.len(),
        manager.tasks[i].status.is_stopped(),
    ensures
        finished(manager.tasks[i], status, result, error) == manager.tasks[i].released(),
        failed(manager.tasks[i], reason) == manager.tasks[i].released(),
        manager.tasks[i].stopped(status, reason) == manager.tasks[i],
        manager.scheduled().tasks[i] == manager.tasks[i],
{
    lemma_schedule(manager);
}

/// Cancelling ends every task that is named, and changes no other task.
pub proof fn law_cancelling_ends_the_named_tasks(
    manager: ManagerModel,
    ids: Seq<Seq<char>>,
    reason: Seq<char>,
    i: int,
)
    requires
        manager.wf(),
        0 <= i < manager.tasks.len(),
    ensures
        ({
            let after = collected(
                stopped(manager.tasks, ids, TaskStatus::Cancelled, reason),
                ids,
            );
            &&& after.len() == manager.tasks.len()
            &&& ids.contains(manager.tasks[i].id) ==> after[i].status.is_terminal()
                && after[i].collected
            &&& !ids.contains(manager.tasks[i].id) ==> after[i] == manager.tasks[i]
        }),
{
    lemma_stopped(manager, ids, TaskStatus::Cancelled, reason);
    let ended = stopped(manager.tasks, ids, TaskStatus::Cancelled, reason);
    assert(ended[i].id == manager.tasks[i].id);
    lemma_collected(manager.with_tasks(ended), ids);
    assert(collected(ended, ids)[i].id == manager.tasks[i].id);
}

/// Once everything was cancelled or interrupted, no worker is active and nothing is left to
/// collect.
pub proof fn law_stopping_all_leaves_nothing_active(
    manager: ManagerModel,
    status: TaskStatus,
    reason: Seq<char>,
    i: int,
)
    requires
        manager.wf(),
        status.is_stopped(),
        0 <= i < manager.tasks.len(),
    ensures
        manager.all_stopped(status, reason).tasks[i].status.is_terminal(),
        manager.all_stopped(status, reason).tasks[i].collected,
{
    let ids = task_ids_of(manager.tasks);
    lemma_stopped(manager, ids, status, reason);
    let ended = stopped(manager.tasks, ids, status, reason);
    assert(ids[i] == manager.tasks[i].id);
    assert(ids.contains(manager.tasks[i].id));
    assert(ended[i].id == manager.tasks[i].id);
    lemma_collected(manager.with_tasks(ended), ids);
    assert(collected(ended, ids)[i].id == manager.tasks[i].id);
}

} // verus!
