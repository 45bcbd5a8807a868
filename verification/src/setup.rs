//! How a run of the program is set up: the model and its effort, the tools, and the prompt.
use crate::session::{SavedSession, SessionModel};
use crate::text::{concat2, concat3, owned, same_text};
use crate::types::{ModelProfile, ProfileModel, ReasoningEffort};
use crate::ui::banner::{HeaderModel, StartupHeader};
use crate::ui::state::{AppModel, AppState, TuiAction};
use crate::ui::steps::{find_model, profile_of};
use crate::words::{ascii_lowercase, to_ascii_lowercase};
use vstd::prelude::*;

verus! {

/// Which tools are switched off.
#[derive(Debug)]
pub struct ToolsConfig {
    pub disabled: Vec<String>,
    pub max_file_size_bytes: Option<usize>,
}

impl ToolsConfig {
    pub open spec fn enables(self, name: Seq<char>) -> bool {
        !self.disabled.deep_view().contains(name)
    }
}

pub fn tool_enabled(tools_config: &ToolsConfig, name: &str) -> (r: bool)
    ensures
        r == tools_config.enables(name@),
{
    let ghost disabled = tools_config.disabled.deep_view();
    let mut i: usize = 0;
    while i < tools_config.disabled.len()
        invariant
            disabled == tools_config.disabled.deep_view(),
            i <= tools_config.disabled.len(),
            forall|j: int| 0 <= j < i ==> #[trigger] disabled[j] != name@,
        decreases tools_config.disabled.len() - i,
    {
        assert(disabled[i as int] == tools_config.disabled@[i as int]@);
        if same_text(tools_config.disabled[i].as_str(), name) {
            return false;
        }
        i += 1;
    }
    true
}

/// Whether tasks can be delegated.
pub fn subagents_enabled(tools_config: &ToolsConfig) -> (r: bool)
    ensures
        r == (tools_config.enables("agent"@) && tools_config.enables("spawn_agent"@)),
{
    tool_enabled(tools_config, "agent") && tool_enabled(tools_config, "spawn_agent")
}

/// Which of the tools for delegation are offered.
#[derive(Debug, Clone, Copy, PartialEq, Eq, Structural)]
pub struct SubagentTools {
    pub spawn_agent: bool,
    pub wait_agents: bool,
    pub cancel_agents: bool,
}

pub fn register_subagent_tools(tools_config: &ToolsConfig) -> (r: SubagentTools)
    ensures
        r.spawn_agent == tools_config.enables("spawn_agent"@),
        r.wait_agents == tools_config.enables("wait_agents"@),
        r.cancel_agents == tools_config.enables("cancel_agents"@),
{
    SubagentTools {
        spawn_agent: tool_enabled(tools_config, "spawn_agent"),
        wait_agents: tool_enabled(tools_config, "wait_agents"),
        cancel_agents: tool_enabled(tools_config, "cancel_agents"),
    }
}

pub const PROMPT_MODEL: &'static str = "You are DeepCode, an AI coding agent running in a terminal.\nYou are backed by the configured model `";

pub const PROMPT_WORKSPACE: &'static str = "`. If asked what you are, say you are DeepCode using this configured model; do not claim to be a generic provider assistant.\nWorkspace: ";

pub const PROMPT_TOOLS: &'static str = "\n\nUse the available tools to inspect and modify the workspace. For questions about this project, source code, files, git state, build status, tests, or implementation details, inspect the workspace with tools before answering. Prefer read-only tools first, such as glob, grep, read_file, git_status, and safe shell commands when needed. ";

pub const PROMPT_DELEGATION: &'static str = "For independent investigations, start multiple explorer tasks with spawn_agent. When wait_agents is available, call it once with all task IDs; otherwise the runtime will collect outstanding results before the next model request. Always review those results before giving the final answer. Use worker tasks only for clearly isolated implementation work.\n\n";

pub const PROMPT_STYLE: &'static str = "Keep responses concise, factual, and in the user's language. Explain the actions you took and the findings from tools instead of guessing.";

/// What the model is told about itself, the workspace and its tools.
pub open spec fn system_prompt(
    model: Seq<char>,
    directory: Seq<char>,
    subagents_enabled: bool,
) -> Seq<char> {
    PROMPT_MODEL@ + model + PROMPT_WORKSPACE@ + directory + PROMPT_TOOLS@ + (
    if subagents_enabled {
        PROMPT_DELEGATION@
    } else {
        Seq::empty()
    }) + PROMPT_STYLE@
}

pub fn build_system_prompt(model: &str, directory: &str, subagents_enabled: bool) -> (r: String)
    ensures
        r@ == system_prompt(model@, directory@, subagents_enabled),
{
    let text = concat3(PROMPT_MODEL, model, PROMPT_WORKSPACE);
    let mut text = concat3(text.as_str(), directory, PROMPT_TOOLS);
    let ghost before = text@;
    if subagents_enabled {
        text.append(PROMPT_DELEGATION);
    }
    assert(!subagents_enabled ==> before =~= before + Seq::<char>::empty());
    concat2(text.as_str(), PROMPT_STYLE)
}

/// The model that is to be used: the one asked for, else the one configured, else the first.
pub open spec fn wanted_model(
    asked: Option<Seq<char>>,
    configured: Option<Seq<char>>,
    available: Seq<ProfileModel>,
) -> Seq<char> {
    match asked {
        Some(model) => model,
        None => match configured {
            Some(model) => model,
            None => available[0].id,
        },
    }
}

/// The profile of the model that is to be used, or why there is none.
pub open spec fn chosen_model(
    provider: Seq<char>,
    asked: Option<Seq<char>>,
    configured: Option<Seq<char>>,
    available: Seq<ProfileModel>,
) -> Result<ProfileModel, Seq<char>> {
    if available.len() == 0 {
        Err("Provider '"@ + provider + "' has no discovered models"@)
    } else {
        let model = wanted_model(asked, configured, available);
        match profile_of(available, model) {
            Some(profile) => Ok(profile),
            None => Err(
                "Model '"@ + model + "' is not present in the live or cached catalog for provider '"@
                    + provider + "'"@,
            ),
        }
    }
}

pub fn choose_model(
    provider: &str,
    asked: Option<String>,
    configured: Option<String>,
    available: &Vec<ModelProfile>,
) -> (r: Result<ModelProfile, String>)
    ensures
        match r {
            Ok(profile) => chosen_model(
                provider@,
                asked.deep_view(),
                configured.deep_view(),
                available.deep_view(),
            ) == Ok::<ProfileModel, Seq<char>>(profile.deep_view()),
            Err(message) => chosen_model(
                provider@,
                asked.deep_view(),
                configured.deep_view(),
                available.deep_view(),
            ) == Err::<ProfileModel, Seq<char>>(message@),
        },
{
    if available.len() == 0 {
        return Err(concat3("Provider '", provider, "' has no discovered models"));
    }
    assert(available.deep_view()[0] == available@[0].deep_view());
    let model = match asked {
        Some(model) => model,
        None => match configured {
            Some(model) => model,
            None => available[0].id.clone(),
        },
    };
    match find_model(available, model.as_str()) {
        Some(profile) => Ok(profile),
        None => {
            let head = concat3(
                "Model '",
                model.as_str(),
                "' is not present in the live or cached catalog for provider '",
            );
            Err(concat3(head.as_str(), provider, "'"))
        },
    }
}

/// Why an effort cannot be used.
#[derive(Debug)]
pub enum EffortProblem {
    /// There is no effort of this name.
    Unknown { name: String },
    /// The model does not take it.
    Unsupported { message: String },
}

/// The effort that is to be used: the one asked for, else the model's default, else the
/// provider's, else the one that is recommended.
pub open spec fn wanted_effort(
    asked: Option<Seq<char>>,
    model_default: Option<ReasoningEffort>,
    provider_default: Option<ReasoningEffort>,
    recommended: ReasoningEffort,
) -> Option<ReasoningEffort> {
    match asked {
        Some(name) => ReasoningEffort::named(name),
        None => match (model_default, provider_default) {
            (Some(effort), _) => Some(effort),
            (None, Some(effort)) => Some(effort),
            (None, None) => Some(recommended),
        },
    }
}

pub fn choose_effort(
    profile: &ModelProfile,
    asked: Option<String>,
    model_default: Option<ReasoningEffort>,
    provider_default: Option<ReasoningEffort>,
    recommended: ReasoningEffort,
) -> (r: Result<ReasoningEffort, EffortProblem>)
    ensures
        ({
            let wanted = wanted_effort(
                asked.deep_view(),
                model_default,
                provider_default,
                recommended,
            );
            match r {
                Ok(effort) => wanted == Some(effort)
                    && profile.deep_view().reasoning_efforts.contains(effort),
                Err(EffortProblem::Unknown { name }) => wanted is None && asked.deep_view() == Some(
                    name@,
                ),
                Err(EffortProblem::Unsupported { message }) => wanted matches Some(effort)
                    && !profile.deep_view().reasoning_efforts.contains(effort) && message@
                    == "Model '"@ + profile.deep_view().id
                    + "' does not support configured reasoning effort '"@ + effort.name() + "'"@,
            }
        }),
{
    let effort = match asked {
        Some(name) => match ReasoningEffort::parse(name.as_str()) {
            Some(effort) => effort,
            None => {
                return Err(EffortProblem::Unknown { name });
            },
        },
        None => match (model_default, provider_default) {
            (Some(effort), _) => effort,
            (None, Some(effort)) => effort,
            (None, None) => recommended,
        },
    };
    if !profile.supports_effort(effort) {
        let head = concat3(
            "Model '",
            profile.id.as_str(),
            "' does not support configured reasoning effort '",
        );
        return Err(
            EffortProblem::Unsupported { message: concat3(head.as_str(), effort.as_str(), "'") },
        );
    }
    Ok(effort)
}

/// How much is written to the log.
#[derive(Debug, Clone, Copy, PartialEq, Eq, Structural)]
pub enum LogLevel {
    Trace,
    Debug,
    Info,
    Warn,
    Error,
    Off,
}

/// The level that a word names, in any case; a word that names none stands for `Info`.
pub open spec fn level_of(value: Seq<char>) -> LogLevel {
    let name = ascii_lowercase(value);
    if name == "trace"@ {
        LogLevel::Trace
    } else if name == "debug"@ {
        LogLevel::Debug
    } else if name == "warn"@ || name == "warning"@ {
        LogLevel::Warn
    } else if name == "error"@ {
        LogLevel::Error
    } else if name == "off"@ {
        LogLevel::Off
    } else {
        LogLevel::Info
    }
}

pub fn parse_log_level(value: &str) -> (r: LogLevel)
    ensures
        r == level_of(value@),
{
    let name = to_ascii_lowercase(value);
    if same_text(name.as_str(), "trace") {
        LogLevel::Trace
    } else if same_text(name.as_str(), "debug") {
        LogLevel::Debug
    } else if same_text(name.as_str(), "warn") || same_text(name.as_str(), "warning") {
        LogLevel::Warn
    } else if same_text(name.as_str(), "error") {
        LogLevel::Error
    } else if same_text(name.as_str(), "off") {
        LogLevel::Off
    } else {
        LogLevel::Info
    }
}

/// Which session is to be resumed.
#[derive(Debug)]
pub enum ResumeTarget {
    Last,
    Session(String),
}

/// Exactly one of an id and the wish for the last session must be given.
pub fn resume_target(session_id: Option<String>, last: bool) -> (r: Result<ResumeTarget, String>)
    ensures
        match r {
            Ok(ResumeTarget::Last) => last && session_id is None,
            Ok(ResumeTarget::Session(id)) => !last && session_id == Some(id),
            Err(message) => (session_id is Some) == last && message@
                == "Provide exactly one of <SESSION_ID> or --last"@,
        },
{
    match session_id {
        Some(id) => if last {
            Err(owned("Provide exactly one of <SESSION_ID> or --last"))
        } else {
            Ok(ResumeTarget::Session(id))
        },
        None => if last {
            Ok(ResumeTarget::Last)
        } else {
            Err(owned("Provide exactly one of <SESSION_ID> or --last"))
        },
    }
}

/// The provider, the model and the effort that a chat begins with.
#[derive(Debug)]
pub struct ChatSettings {
    pub provider: Option<String>,
    pub model: Option<String>,
    pub effort: Option<String>,
}

/// A session that is resumed brings its own settings.
pub fn chat_settings(
    session: Option<&SavedSession>,
    provider: &Option<String>,
    model: &Option<String>,
) -> (r: ChatSettings)
    ensures
        match session {
            Some(session) => r.provider.deep_view() == Some(session.deep_view().provider)
                && r.model.deep_view() == Some(session.deep_view().model) && r.effort.deep_view()
                == Some(session.deep_view().reasoning_effort),
            None => r.provider.deep_view() == provider.deep_view() && r.model.deep_view()
                == model.deep_view() && r.effort is None,
        },
{
    match session {
        Some(session) => ChatSettings {
            provider: Some(session.provider.clone()),
            model: Some(session.model.clone()),
            effort: Some(session.reasoning_effort.clone()),
        },
        None => ChatSettings {
            provider: match provider {
                Some(provider) => Some(provider.clone()),
                None => None,
            },
            model: match model {
                Some(model) => Some(model.clone()),
                None => None,
            },
            effort: None,
        },
    }
}

/// The state that a chat begins with.
pub open spec fn chat_state(
    session: SessionModel,
    header: HeaderModel,
    models: Seq<ProfileModel>,
    model: Seq<char>,
    effort: Option<Seq<char>>,
) -> AppModel {
    AppModel {
        startup_header: Some(header),
        messages: session.ui_messages,
        core_messages: session.core_messages,
        available_models: models,
        has_model_catalog: true,
        current_model: Some(model),
        reasoning_effort: effort,
        has_session_store: true,
        session: Some(session),
        ..AppModel::initial()
    }
}

pub fn begin_chat(
    session: SavedSession,
    header: StartupHeader,
    models: Vec<ModelProfile>,
    model: String,
    effort: Option<String>,
) -> (r: AppState)
    ensures
        r@ == chat_state(
            session.deep_view(),
            header.deep_view(),
            models.deep_view(),
            model@,
            effort.deep_view(),
        ),
        r@.editor.wf(),
{
    let messages = crate::session::copy_chat(&session.ui_messages);
    let core_messages = crate::types::clone_messages(&session.core_messages);
    let mut state = AppState::with_session(messages, core_messages);
    state.startup_header = Some(header);
    state.available_models = models;
    state.has_model_catalog = true;
    state.current_model = Some(model);
    state.reasoning_effort = effort;
    state.has_session_store = true;
    state.session = Some(session);
    state
}

/// The session that a chat goes on with, if it does.
pub fn next_session(action: TuiAction) -> (r: Option<String>)
    ensures
        match action {
            TuiAction::Exit => r is None,
            TuiAction::Resume(id) => r == Some(id),
        },
{
    match action {
        TuiAction::Exit => None,
        TuiAction::Resume(id) => Some(id),
    }
}

/// A chat that goes on with a session shows what the session holds.
pub proof fn law_resumed_chats_show_their_session(
    session: SessionModel,
    header: HeaderModel,
    models: Seq<ProfileModel>,
    model: Seq<char>,
    effort: Option<Seq<char>>,
)
    ensures
        chat_state(session, header, models, model, effort).messages == session.ui_messages,
        chat_state(session, header, models, model, effort).synced().session matches Some(kept)
            && kept.id == session.id && kept.ui_messages == session.ui_messages
            && kept.core_messages == session.core_messages,
{
}

} // verus!
