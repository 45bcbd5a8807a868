//! The conversation: messages, content blocks, streaming deltas and the facts
//! about tools and permissions that decisions rest on.
//!
//! Types that hold strings or lists have a mathematical twin, named `...Model`,
//! which `deep_view` gives; contracts speak of the twin.
use crate::json::{json_model, Json};
use crate::text::same_text;
use serde_json::Value;
use vstd::prelude::*;

verus! {

/// Who a message is from.
#[derive(Clone, Copy, Debug, PartialEq, Eq, Structural)]
pub enum Role {
    System,
    User,
    Assistant,
    Tool,
}

/// The tree of an optional value.
pub open spec fn json_option(value: Option<Value>) -> Option<Json> {
    match value {
        Some(value) => Some(json_model(value)),
        None => None,
    }
}

/// One block of a message.
#[derive(Debug)]
pub enum ContentBlock {
    Text { text: String },
    Reasoning { text: String, metadata: Option<Value> },
    ToolUse { id: String, name: String, input: Value },
    ToolResult { tool_use_id: String, content: String, is_error: bool },
    ProviderItem { provider: String, value: Value },
}

#[verifier::ext_equal]
pub enum ContentBlockModel {
    Text { text: Seq<char> },
    Reasoning { text: Seq<char>, metadata: Option<Json> },
    ToolUse { id: Seq<char>, name: Seq<char>, input: Value },
    ToolResult { tool_use_id: Seq<char>, content: Seq<char>, is_error: bool },
    ProviderItem { provider: Seq<char>, value: Value },
}

impl DeepView for ContentBlock {
    type V = ContentBlockModel;

    open spec fn deep_view(&self) -> ContentBlockModel {
        match *self {
            ContentBlock::Text { text } => ContentBlockModel::Text { text: text@ },
            ContentBlock::Reasoning { text, metadata } => ContentBlockModel::Reasoning {
                text: text@,
                metadata: json_option(metadata),
            },
            ContentBlock::ToolUse { id, name, input } => ContentBlockModel::ToolUse {
                id: id@,
                name: name@,
                input,
            },
            ContentBlock::ToolResult { tool_use_id, content, is_error } =>
                ContentBlockModel::ToolResult {
                tool_use_id: tool_use_id@,
                content: content@,
                is_error,
            },
            ContentBlock::ProviderItem { provider, value } => ContentBlockModel::ProviderItem {
                provider: provider@,
                value,
            },
        }
    }
}

impl Clone for ContentBlock {
    fn clone(&self) -> (r: Self)
        ensures
            r.deep_view() == self.deep_view(),
    {
        match self {
            ContentBlock::Text { text } => ContentBlock::Text { text: text.clone() },
            ContentBlock::Reasoning { text, metadata } => ContentBlock::Reasoning {
                text: text.clone(),
                metadata: metadata.clone(),
            },
            ContentBlock::ToolUse { id, name, input } => ContentBlock::ToolUse {
                id: id.clone(),
                name: name.clone(),
                input: input.clone(),
            },
            ContentBlock::ToolResult { tool_use_id, content, is_error } =>
                ContentBlock::ToolResult {
                tool_use_id: tool_use_id.clone(),
                content: content.clone(),
                is_error: *is_error,
            },
            ContentBlock::ProviderItem { provider, value } => ContentBlock::ProviderItem {
                provider: provider.clone(),
                value: value.clone(),
            },
        }
    }
}

/// A message of the conversation.
#[derive(Debug)]
pub struct Message {
    pub role: Role,
    pub content: Vec<ContentBlock>,
    pub id: Option<String>,
}

#[verifier::ext_equal]
pub struct MessageModel {
    pub role: Role,
    pub content: Seq<ContentBlockModel>,
    pub id: Option<Seq<char>>,
}

impl DeepView for Message {
    type V = MessageModel;

    open spec fn deep_view(&self) -> MessageModel {
        MessageModel {
            role: self.role,
            content: self.content.deep_view(),
            id: self.id.deep_view(),
        }
    }
}

impl Clone for Message {
    fn clone(&self) -> (r: Self)
        ensures
            r.deep_view() == self.deep_view(),
    {
        let content = self.content.clone();
        assert(content.deep_view() =~= self.content.deep_view());
        Message { role: self.role, content, id: self.id.clone() }
    }
}

/// A message that holds one text block.
pub open spec fn text_message(role: Role, text: Seq<char>) -> MessageModel {
    MessageModel { role, content: seq![ContentBlockModel::Text { text }], id: None }
}

impl Message {
    /// A message that holds one text block.
    pub fn of_text(role: Role, text: &str) -> (r: Message)
        ensures
            r.deep_view() == text_message(role, text@),
    {
        let mut content: Vec<ContentBlock> = Vec::new();
        content.push(ContentBlock::Text { text: text.to_owned() });
        let r = Message { role, content, id: None };
        assert(r.content.deep_view() =~= seq![ContentBlockModel::Text { text: text@ }]);
        r
    }
}

/// An exact copy of a list of messages.
pub fn clone_messages(messages: &Vec<Message>) -> (r: Vec<Message>)
    ensures
        r.deep_view() == messages.deep_view(),
{
    let r = messages.clone();
    assert(r.deep_view() =~= messages.deep_view());
    r
}

/// How long an approval lasts.
#[derive(Clone, Copy, Debug, PartialEq, Eq, Structural)]
pub enum ApprovalScope {
    Once,
    Session,
    Persistent,
}

/// What the permission policy decides about a tool call.
#[derive(Clone, Copy, Debug, PartialEq, Eq, Structural)]
pub enum Decision {
    Allow,
    Prompt,
    Forbidden,
}

/// What the permission policy says of a tool call.
#[derive(Debug)]
pub struct PermissionEvaluation {
    pub decision: Decision,
    pub justification: Option<String>,
    pub summary: String,
    pub risk: String,
    pub sandbox_policy: String,
}

#[verifier::ext_equal]
pub struct EvaluationModel {
    pub decision: Decision,
    pub justification: Option<Seq<char>>,
    pub summary: Seq<char>,
    pub risk: Seq<char>,
    pub sandbox_policy: Seq<char>,
}

impl DeepView for PermissionEvaluation {
    type V = EvaluationModel;

    open spec fn deep_view(&self) -> EvaluationModel {
        EvaluationModel {
            decision: self.decision,
            justification: self.justification.deep_view(),
            summary: self.summary@,
            risk: self.risk@,
            sandbox_policy: self.sandbox_policy@,
        }
    }
}

impl Clone for PermissionEvaluation {
    fn clone(&self) -> (r: Self)
        ensures
            r.deep_view() == self.deep_view(),
    {
        PermissionEvaluation {
            decision: self.decision,
            justification: self.justification.clone(),
            summary: self.summary.clone(),
            risk: self.risk.clone(),
            sandbox_policy: self.sandbox_policy.clone(),
        }
    }
}

/// A change to a file that has not been made yet.
#[derive(Debug)]
pub struct FileChangePreview {
    pub path: String,
    pub before_exists: bool,
    pub before: String,
    pub after: String,
    pub unified_diff: String,
}

#[verifier::ext_equal]
pub struct PreviewModel {
    pub path: Seq<char>,
    pub before_exists: bool,
    pub before: Seq<char>,
    pub after: Seq<char>,
    pub unified_diff: Seq<char>,
}

impl DeepView for FileChangePreview {
    type V = PreviewModel;

    open spec fn deep_view(&self) -> PreviewModel {
        PreviewModel {
            path: self.path@,
            before_exists: self.before_exists,
            before: self.before@,
            after: self.after@,
            unified_diff: self.unified_diff@,
        }
    }
}

impl Clone for FileChangePreview {
    fn clone(&self) -> (r: Self)
        ensures
            r.deep_view() == self.deep_view(),
    {
        FileChangePreview {
            path: self.path.clone(),
            before_exists: self.before_exists,
            before: self.before.clone(),
            after: self.after.clone(),
            unified_diff: self.unified_diff.clone(),
        }
    }
}

/// What a tool may do to its surroundings.
#[derive(Clone, Copy, Debug, PartialEq, Eq, Structural)]
pub struct ToolSafety {
    pub is_read_only: bool,
    pub is_concurrency_safe: bool,
    pub requires_approval: bool,
    pub is_destructive: bool,
}

/// How much a model is asked to reason.
#[derive(Clone, Copy, Debug, PartialEq, Eq, Structural)]
pub enum ReasoningEffort {
    Off,
    Minimal,
    Low,
    Medium,
    High,
    Max,
    XHigh,
}

impl ReasoningEffort {
    pub open spec fn name(self) -> Seq<char> {
        match self {
            ReasoningEffort::Off => "off"@,
            ReasoningEffort::Minimal => "minimal"@,
            ReasoningEffort::Low => "low"@,
            ReasoningEffort::Medium => "medium"@,
            ReasoningEffort::High => "high"@,
            ReasoningEffort::Max => "max"@,
            ReasoningEffort::XHigh => "xhigh"@,
        }
    }

    pub fn as_str(self) -> (r: &'static str)
        ensures
            r@ == self.name(),
    {
        match self {
            ReasoningEffort::Off => "off",
            ReasoningEffort::Minimal => "minimal",
            ReasoningEffort::Low => "low",
            ReasoningEffort::Medium => "medium",
            ReasoningEffort::High => "high",
            ReasoningEffort::Max => "max",
            ReasoningEffort::XHigh => "xhigh",
        }
    }

    /// The effort with the given name.
    pub open spec fn named(name: Seq<char>) -> Option<ReasoningEffort> {
        if name == "off"@ {
            Some(ReasoningEffort::Off)
        } else if name == "minimal"@ {
            Some(ReasoningEffort::Minimal)
        } else if name == "low"@ {
            Some(ReasoningEffort::Low)
        } else if name == "medium"@ {
            Some(ReasoningEffort::Medium)
        } else if name == "high"@ {
            Some(ReasoningEffort::High)
        } else if name == "max"@ {
            Some(ReasoningEffort::Max)
        } else if name == "xhigh"@ {
            Some(ReasoningEffort::XHigh)
        } else {
            None
        }
    }

    pub fn parse(name: &str) -> (r: Option<ReasoningEffort>)
        ensures
            r == Self::named(name@),
    {
        if same_text(name, "off") {
            Some(ReasoningEffort::Off)
        } else if same_text(name, "minimal") {
            Some(ReasoningEffort::Minimal)
        } else if same_text(name, "low") {
            Some(ReasoningEffort::Low)
        } else if same_text(name, "medium") {
            Some(ReasoningEffort::Medium)
        } else if same_text(name, "high") {
            Some(ReasoningEffort::High)
        } else if same_text(name, "max") {
            Some(ReasoningEffort::Max)
        } else if same_text(name, "xhigh") {
            Some(ReasoningEffort::XHigh)
        } else {
            None
        }
    }
}

/// A model that can be chosen.
#[derive(Debug)]
pub struct ModelProfile {
    pub id: String,
    pub provider: String,
    pub display_name: Option<String>,
    pub context_window: usize,
    pub max_output_tokens: usize,
    pub reasoning_efforts: Vec<ReasoningEffort>,
}

#[verifier::ext_equal]
pub struct ProfileModel {
    pub id: Seq<char>,
    pub provider: Seq<char>,
    pub display_name: Option<Seq<char>>,
    pub context_window: usize,
    pub max_output_tokens: usize,
    pub reasoning_efforts: Seq<ReasoningEffort>,
}

impl DeepView for ModelProfile {
    type V = ProfileModel;

    open spec fn deep_view(&self) -> ProfileModel {
        ProfileModel {
            id: self.id@,
            provider: self.provider@,
            display_name: self.display_name.deep_view(),
            context_window: self.context_window,
            max_output_tokens: self.max_output_tokens,
            reasoning_efforts: self.reasoning_efforts@,
        }
    }
}

impl Clone for ModelProfile {
    fn clone(&self) -> (r: Self)
        ensures
            r.deep_view() == self.deep_view(),
    {
        let reasoning_efforts = self.reasoning_efforts.clone();
        assert(reasoning_efforts@ =~= self.reasoning_efforts@);
        ModelProfile {
            id: self.id.clone(),
            provider: self.provider.clone(),
            display_name: self.display_name.clone(),
            context_window: self.context_window,
            max_output_tokens: self.max_output_tokens,
            reasoning_efforts,
        }
    }
}

impl ProfileModel {
    /// Whether the model takes the effort with this name.
    pub open spec fn supports(self, effort: Seq<char>) -> bool {
        ReasoningEffort::named(effort) matches Some(named) && self.reasoning_efforts.contains(named)
    }

    /// The names of the efforts that the model takes.
    pub open spec fn effort_names(self) -> Seq<Seq<char>> {
        self.reasoning_efforts.map_values(|effort: ReasoningEffort| effort.name())
    }
}

impl ModelProfile {
    pub fn supports_effort(&self, effort: ReasoningEffort) -> (r: bool)
        ensures
            r == self.deep_view().reasoning_efforts.contains(effort),
    {
        let mut i: usize = 0;
        while i < self.reasoning_efforts.len()
            invariant
                i <= self.reasoning_efforts.len(),
                forall|j: int| 0 <= j < i ==> self.reasoning_efforts@[j] != effort,
            decreases self.reasoning_efforts.len() - i,
        {
            if self.reasoning_efforts[i] == effort {
                return true;
            }
            i += 1;
        }
        false
    }

    pub fn supports_effort_str(&self, effort: &str) -> (r: bool)
        ensures
            r == self.deep_view().supports(effort@),
    {
        match ReasoningEffort::parse(effort) {
            Some(named) => self.supports_effort(named),
            None => false,
        }
    }

    pub fn effort_names(&self) -> (r: Vec<String>)
        ensures
            r.deep_view() == self.deep_view().effort_names(),
    {
        let mut names: Vec<String> = Vec::new();
        let mut i: usize = 0;
        while i < self.reasoning_efforts.len()
            invariant
                i <= self.reasoning_efforts.len(),
                names.deep_view() == self.deep_view().effort_names().take(i as int),
            decreases self.reasoning_efforts.len() - i,
        {
            let ghost before = names.deep_view();
            let name = self.reasoning_efforts[i].as_str().to_owned();
            names.push(name);
            assert(names.deep_view() =~= before.push(name@));
            assert(self.deep_view().effort_names()[i as int] == name@);
            i += 1;
            assert(names.deep_view() =~= self.deep_view().effort_names().take(i as int));
        }
        assert(names.deep_view() =~= self.deep_view().effort_names());
        names
    }
}

/// Why a model stopped.
#[derive(Clone, Copy, Debug, PartialEq, Eq, Structural)]
pub enum FinishReason {
    Stop,
    ToolCalls,
    ContentFilter,
    Length,
}

/// Token counts of one request.
#[derive(Clone, Copy, Debug, PartialEq, Eq, Structural)]
pub struct Usage {
    pub input_tokens: usize,
    pub output_tokens: usize,
    pub cached_input_tokens: usize,
    pub cache_miss_input_tokens: usize,
    pub reasoning_output_tokens: usize,
}

impl Usage {
    pub open spec fn none() -> Usage {
        Usage {
            input_tokens: 0,
            output_tokens: 0,
            cached_input_tokens: 0,
            cache_miss_input_tokens: 0,
            reasoning_output_tokens: 0,
        }
    }

    /// Whether every sum of the two counts fits.
    pub open spec fn can_add(self, more: Usage) -> bool {
        &&& self.input_tokens + more.input_tokens <= usize::MAX
        &&& self.output_tokens + more.output_tokens <= usize::MAX
        &&& self.cached_input_tokens + more.cached_input_tokens <= usize::MAX
        &&& self.cache_miss_input_tokens + more.cache_miss_input_tokens <= usize::MAX
        &&& self.reasoning_output_tokens + more.reasoning_output_tokens <= usize::MAX
    }

    /// The two counts added up.
    pub open spec fn plus(self, more: Usage) -> Usage {
        Usage {
            input_tokens: (self.input_tokens + more.input_tokens) as usize,
            output_tokens: (self.output_tokens + more.output_tokens) as usize,
            cached_input_tokens: (self.cached_input_tokens + more.cached_input_tokens) as usize,
            cache_miss_input_tokens: (self.cache_miss_input_tokens
                + more.cache_miss_input_tokens) as usize,
            reasoning_output_tokens: (self.reasoning_output_tokens
                + more.reasoning_output_tokens) as usize,
        }
    }

    pub fn can_add_usage(&self, more: &Usage) -> (r: bool)
        ensures
            r == self.can_add(*more),
    {
        self.input_tokens <= usize::MAX - more.input_tokens && self.output_tokens <= usize::MAX
            - more.output_tokens && self.cached_input_tokens <= usize::MAX
            - more.cached_input_tokens && self.cache_miss_input_tokens <= usize::MAX
            - more.cache_miss_input_tokens && self.reasoning_output_tokens <= usize::MAX
            - more.reasoning_output_tokens
    }

    pub fn add_usage(&self, more: &Usage) -> (r: Usage)
        requires
            self.can_add(*more),
        ensures
            r == self.plus(*more),
    {
        Usage {
            input_tokens: self.input_tokens + more.input_tokens,
            output_tokens: self.output_tokens + more.output_tokens,
            cached_input_tokens: self.cached_input_tokens + more.cached_input_tokens,
            cache_miss_input_tokens: self.cache_miss_input_tokens + more.cache_miss_input_tokens,
            reasoning_output_tokens: self.reasoning_output_tokens + more.reasoning_output_tokens,
        }
    }
}

impl Default for Usage {
    fn default() -> (r: Self)
        ensures
            r == Usage::none(),
    {
        Usage {
            input_tokens: 0,
            output_tokens: 0,
            cached_input_tokens: 0,
            cache_miss_input_tokens: 0,
            reasoning_output_tokens: 0,
        }
    }
}

/// One item of a streamed response.
#[allow(inconsistent_fields)]
#[derive(Debug)]
pub enum StreamDelta {
    TextDelta(String),
    ReasoningDelta(String),
    ReasoningMetadata(Value),
    ProviderItem { provider: String, value: Value },
    ToolUseStart { id: String, name: String, index: Option<usize>, input_delta: Option<String> },
    ToolUseInput { id: String, index: Option<usize>, input_delta: String },
    ToolUseEnd { id: String, index: Option<usize> },
    Usage(Usage),
    Finished(FinishReason),
    Batch(Vec<StreamDelta>),
}

#[allow(inconsistent_fields)]
#[verifier::ext_equal]
pub enum StreamDeltaModel {
    TextDelta(Seq<char>),
    ReasoningDelta(Seq<char>),
    ReasoningMetadata(Value),
    ProviderItem { provider: Seq<char>, value: Value },
    ToolUseStart {
        id: Seq<char>,
        name: Seq<char>,
        index: Option<usize>,
        input_delta: Option<Seq<char>>,
    },
    ToolUseInput { id: Seq<char>, index: Option<usize>, input_delta: Seq<char> },
    ToolUseEnd { id: Seq<char>, index: Option<usize> },
    Usage(Usage),
    Finished(FinishReason),
    Batch(Seq<StreamDeltaModel>),
}

/// The mathematical form of a delta.
pub open spec fn delta_model(delta: StreamDelta) -> StreamDeltaModel
    decreases delta,
{
    match delta {
        StreamDelta::TextDelta(text) => StreamDeltaModel::TextDelta(text@),
        StreamDelta::ReasoningDelta(text) => StreamDeltaModel::ReasoningDelta(text@),
        StreamDelta::ReasoningMetadata(metadata) => StreamDeltaModel::ReasoningMetadata(metadata),
        StreamDelta::ProviderItem { provider, value } => StreamDeltaModel::ProviderItem {
            provider: provider@,
            value,
        },
        StreamDelta::ToolUseStart { id, name, index, input_delta } =>
            StreamDeltaModel::ToolUseStart {
            id: id@,
            name: name@,
            index,
            input_delta: input_delta.deep_view(),
        },
        StreamDelta::ToolUseInput { id, index, input_delta } => StreamDeltaModel::ToolUseInput {
            id: id@,
            index,
            input_delta: input_delta@,
        },
        StreamDelta::ToolUseEnd { id, index } => StreamDeltaModel::ToolUseEnd { id: id@, index },
        StreamDelta::Usage(usage) => StreamDeltaModel::Usage(usage),
        StreamDelta::Finished(reason) => StreamDeltaModel::Finished(reason),
        StreamDelta::Batch(deltas) => StreamDeltaModel::Batch(
            Seq::new(
                deltas@.len(),
                |i: int|
                    if 0 <= i < deltas@.len() {
                        delta_model(deltas@[i])
                    } else {
                        arbitrary()
                    },
            ),
        ),
    }
}

impl DeepView for StreamDelta {
    type V = StreamDeltaModel;

    open spec fn deep_view(&self) -> StreamDeltaModel {
        delta_model(*self)
    }
}

/// A batch is modelled by the models of its deltas.
pub proof fn lemma_batch_model(deltas: Vec<StreamDelta>)
    ensures
        StreamDelta::Batch(deltas).deep_view() == StreamDeltaModel::Batch(deltas.deep_view()),
{
    let models = StreamDelta::Batch(deltas).deep_view()->Batch_0;
    assert forall|i: int| 0 <= i < models.len() implies models[i] == deltas.deep_view()[i] by {
        assert(deltas.deep_view()[i] == delta_model(deltas@[i]));
    }
    assert(models =~= deltas.deep_view());
}

/// One block of a complete model response.
#[derive(Debug)]
pub enum ResponseContentBlock {
    Text(String),
    Reasoning { text: String, metadata: Option<Value> },
    ToolUse { id: String, name: String, input: Value },
    ProviderItem { provider: String, value: Value },
}

#[verifier::ext_equal]
pub enum ResponseBlockModel {
    Text(Seq<char>),
    Reasoning { text: Seq<char>, metadata: Option<Json> },
    ToolUse { id: Seq<char>, name: Seq<char>, input: Value },
    ProviderItem { provider: Seq<char>, value: Value },
}

impl DeepView for ResponseContentBlock {
    type V = ResponseBlockModel;

    open spec fn deep_view(&self) -> ResponseBlockModel {
        match *self {
            ResponseContentBlock::Text(text) => ResponseBlockModel::Text(text@),
            ResponseContentBlock::Reasoning { text, metadata } => ResponseBlockModel::Reasoning {
                text: text@,
                metadata: json_option(metadata),
            },
            ResponseContentBlock::ToolUse { id, name, input } => ResponseBlockModel::ToolUse {
                id: id@,
                name: name@,
                input,
            },
            ResponseContentBlock::ProviderItem { provider, value } =>
                ResponseBlockModel::ProviderItem { provider: provider@, value },
        }
    }
}

} // verus!
