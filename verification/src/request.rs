//! Preparing a request to the model.
use crate::llm_response::SESSION_TITLE_INSTRUCTION;
use crate::text::concat3;
use crate::types::{
    clone_messages, text_message, ContentBlock, ContentBlockModel, Message, MessageModel,
    ReasoningEffort, Role,
};
use vstd::prelude::*;

verus! {

/// What a model takes part in.
#[derive(Clone, Copy, Debug, PartialEq, Eq, Structural)]
pub struct Capabilities {
    pub reasoning_effort: bool,
    pub reasoning_summary: bool,
    pub reasoning_context: bool,
    pub reasoning_display: bool,
    pub verbosity: bool,
    pub parallel_tool_calls: bool,
    pub strict_tools: bool,
    pub prompt_cache_key: bool,
}

/// The parameters of a request. A `bool` asks for the named feature; where it is `false`
/// the request says nothing of it.
#[derive(Debug)]
pub struct GenerateParams {
    pub max_tokens: usize,
    pub reasoning_effort: Option<ReasoningEffort>,
    pub auto_reasoning_summary: bool,
    pub all_turns_reasoning_context: bool,
    pub summarized_reasoning_display: bool,
    pub high_verbosity: bool,
    pub parallel_tool_calls: bool,
    pub strict_tools: bool,
    pub prompt_cache_key: Option<String>,
}

#[verifier::ext_equal]
pub struct ParamsModel {
    pub max_tokens: usize,
    pub reasoning_effort: Option<ReasoningEffort>,
    pub auto_reasoning_summary: bool,
    pub all_turns_reasoning_context: bool,
    pub summarized_reasoning_display: bool,
    pub high_verbosity: bool,
    pub parallel_tool_calls: bool,
    pub strict_tools: bool,
    pub prompt_cache_key: Option<Seq<char>>,
}

impl DeepView for GenerateParams {
    type V = ParamsModel;

    open spec fn deep_view(&self) -> ParamsModel {
        ParamsModel {
            max_tokens: self.max_tokens,
            reasoning_effort: self.reasoning_effort,
            auto_reasoning_summary: self.auto_reasoning_summary,
            all_turns_reasoning_context: self.all_turns_reasoning_context,
            summarized_reasoning_display: self.summarized_reasoning_display,
            high_verbosity: self.high_verbosity,
            parallel_tool_calls: self.parallel_tool_calls,
            strict_tools: self.strict_tools,
            prompt_cache_key: self.prompt_cache_key.deep_view(),
        }
    }
}

/// The tokens that the conversation may take: the context window without what is kept
/// for the answer, which is at most a quarter of the window.
pub open spec fn budget(max_tokens: usize, context_window: usize) -> int {
    let quarter = (context_window / 4) as int;
    context_window - (if max_tokens < quarter {
        max_tokens as int
    } else {
        quarter
    })
}

pub fn input_budget(max_tokens: usize, context_window: usize) -> (r: usize)
    ensures
        r == budget(max_tokens, context_window),
{
    let quarter: usize = context_window / 4;
    let reserved: usize = if max_tokens < quarter {
        max_tokens
    } else {
        quarter
    };
    context_window - reserved
}

/// The tokens kept free for estimates that are too low: a hundredth of the context
/// window, within bounds.
pub open spec fn safety_margin(context_window: usize) -> int {
    let hundredth = (context_window / 100) as int;
    if hundredth < 1_024 {
        1_024
    } else if hundredth > 16_384 {
        16_384
    } else {
        hundredth
    }
}

/// The tokens that an answer may take: no more than the model's limit nor than what the
/// context window leaves, and at least one.
pub open spec fn answer_limit(max_tokens: usize, context_window: usize, current: usize) -> int {
    let left = context_window - current - safety_margin(context_window);
    let limit = if max_tokens < left {
        max_tokens as int
    } else {
        left
    };
    if limit < 1 {
        1
    } else {
        limit
    }
}

pub fn request_max_tokens(
    max_tokens: usize,
    context_window: usize,
    current_tokens: usize,
) -> (r: usize)
    ensures
        r == answer_limit(max_tokens, context_window, current_tokens),
{
    let hundredth: usize = context_window / 100;
    let margin: usize = if hundredth < 1_024 {
        1_024
    } else if hundredth > 16_384 {
        16_384
    } else {
        hundredth
    };
    let used: usize = current_tokens.saturating_add(margin);
    let left: usize = context_window.saturating_sub(used);
    let limit: usize = if max_tokens < left {
        max_tokens
    } else {
        left
    };
    if limit < 1 {
        1
    } else {
        limit
    }
}

/// An answer never exceeds the model's limit, and with the conversation it fits the
/// context window wherever the conversation leaves room for it.
pub proof fn law_answer_fits(max_tokens: usize, context_window: usize, current: usize)
    ensures
        1 <= answer_limit(max_tokens, context_window, current),
        max_tokens >= 1 ==> answer_limit(max_tokens, context_window, current) <= max_tokens,
        current + safety_margin(context_window) < context_window ==> current + answer_limit(
            max_tokens,
            context_window,
            current,
        ) <= context_window,
{
}

/// The first message id in the conversation.
pub open spec fn first_id(messages: Seq<MessageModel>) -> Option<Seq<char>>
    decreases messages.len(),
{
    if messages.len() == 0 {
        None
    } else if messages[0].id is Some {
        messages[0].id
    } else {
        first_id(messages.drop_first())
    }
}

fn first_message_id(messages: &Vec<Message>) -> (r: Option<String>)
    ensures
        r.deep_view() == first_id(messages.deep_view()),
{
    let ghost all = messages.deep_view();
    let mut i: usize = 0;
    assert(all.subrange(0, all.len() as int) =~= all);
    while i < messages.len()
        invariant
            all == messages.deep_view(),
            i <= messages.len(),
            first_id(all) == first_id(all.subrange(i as int, all.len() as int)),
        decreases messages.len() - i,
    {
        assert(all.subrange(i as int, all.len() as int).drop_first() =~= all.subrange(
            i + 1,
            all.len() as int,
        ));
        assert(all[i as int] == messages@[i as int].deep_view());
        if let Some(id) = &messages[i].id {
            return Some(id.clone());
        }
        i += 1;
    }
    None
}

/// The parameters of a request.
pub open spec fn params_for(
    max_tokens: usize,
    capabilities: Capabilities,
    effort: Option<Seq<char>>,
    messages: Seq<MessageModel>,
    fallback_key: Seq<char>,
) -> ParamsModel {
    let reasoning_effort = match effort {
        Some(effort) => ReasoningEffort::named(effort),
        None => None,
    };
    let enrich = capabilities.reasoning_effort && reasoning_effort != Some(ReasoningEffort::Off);
    ParamsModel {
        max_tokens,
        reasoning_effort,
        auto_reasoning_summary: enrich && capabilities.reasoning_summary,
        all_turns_reasoning_context: enrich && capabilities.reasoning_context,
        summarized_reasoning_display: enrich && capabilities.reasoning_display,
        high_verbosity: capabilities.verbosity,
        parallel_tool_calls: capabilities.parallel_tool_calls,
        strict_tools: capabilities.strict_tools,
        prompt_cache_key: if !capabilities.prompt_cache_key {
            None
        } else if first_id(messages) is Some {
            first_id(messages)
        } else {
            Some(fallback_key)
        },
    }
}

pub fn generate_params(
    max_tokens: usize,
    capabilities: Capabilities,
    effort: &Option<String>,
    messages: &Vec<Message>,
    fallback_key: String,
) -> (r: GenerateParams)
    ensures
        r.deep_view() == params_for(
            max_tokens,
            capabilities,
            effort.deep_view(),
            messages.deep_view(),
            fallback_key@,
        ),
{
    let reasoning_effort = match effort {
        Some(effort) => ReasoningEffort::parse(effort.as_str()),
        None => None,
    };
    let is_off = match reasoning_effort {
        Some(effort) => effort == ReasoningEffort::Off,
        None => false,
    };
    let enrich = capabilities.reasoning_effort && !is_off;
    let prompt_cache_key = if !capabilities.prompt_cache_key {
        None
    } else {
        match first_message_id(messages) {
            Some(id) => Some(id),
            None => Some(fallback_key),
        }
    };
    GenerateParams {
        max_tokens,
        reasoning_effort,
        auto_reasoning_summary: enrich && capabilities.reasoning_summary,
        all_turns_reasoning_context: enrich && capabilities.reasoning_context,
        summarized_reasoning_display: enrich && capabilities.reasoning_display,
        high_verbosity: capabilities.verbosity,
        parallel_tool_calls: capabilities.parallel_tool_calls,
        strict_tools: capabilities.strict_tools,
        prompt_cache_key,
    }
}

/// The place of the first message with the given role.
pub open spec fn first_with_role(messages: Seq<MessageModel>, role: Role) -> Option<int>
    decreases messages.len(),
{
    if messages.len() == 0 {
        None
    } else if messages[0].role == role {
        Some(0)
    } else {
        match first_with_role(messages.drop_first(), role) {
            Some(i) => Some(i + 1),
            None => None,
        }
    }
}

proof fn lemma_first_with_role(messages: Seq<MessageModel>, role: Role)
    ensures
        match first_with_role(messages, role) {
            Some(i) => 0 <= i < messages.len() && messages[i].role == role && forall|j: int|
                0 <= j < i ==> #[trigger] messages[j].role != role,
            None => forall|j: int| 0 <= j < messages.len() ==> #[trigger] messages[j].role != role,
        },
    decreases messages.len(),
{
    if messages.len() > 0 && messages[0].role != role {
        let rest = messages.drop_first();
        lemma_first_with_role(rest, role);
        assert forall|j: int| 0 < j < messages.len() implies messages[j] == rest[j - 1] by {
        }
    }
}

/// The conversation with the instruction to give a title: added to the first system
/// message where that starts with text, and otherwise in a system message of its own at
/// the start.
pub open spec fn with_title_instruction(messages: Seq<MessageModel>) -> Seq<MessageModel> {
    let alone = seq![text_message(Role::System, SESSION_TITLE_INSTRUCTION@)] + messages;
    match first_with_role(messages, Role::System) {
        Some(i) => if messages[i].content.len() > 0 {
            match messages[i].content[0] {
                ContentBlockModel::Text { text } => messages.update(
                    i,
                    MessageModel {
                        content: messages[i].content.update(
                            0,
                            ContentBlockModel::Text {
                                text: text + "\n\n"@ + SESSION_TITLE_INSTRUCTION@,
                            },
                        ),
                        ..messages[i]
                    },
                ),
                _ => alone,
            }
        } else {
            alone
        },
        None => alone,
    }
}

pub fn messages_with_title_instruction(messages: &Vec<Message>) -> (r: Vec<Message>)
    ensures
        r.deep_view() == with_title_instruction(messages.deep_view()),
{
    let ghost all = messages.deep_view();
    let mut copy = clone_messages(messages);
    let mut i: usize = 0;
    while i < messages.len() && messages[i].role != Role::System
        invariant
            all == messages.deep_view(),
            i <= messages.len(),
            forall|j: int| 0 <= j < i ==> #[trigger] all[j].role != Role::System,
        ensures
            all == messages.deep_view(),
            i <= messages.len(),
            forall|j: int| 0 <= j < i ==> #[trigger] all[j].role != Role::System,
            i < messages.len() ==> all[i as int].role == Role::System,
        decreases messages.len() - i,
    {
        i += 1;
    }
    proof {
        lemma_first_with_role(all, Role::System);
    }
    if i < messages.len() && messages[i].content.len() > 0 {
        if let ContentBlock::Text { text } = &messages[i].content[0] {
            assert(first_with_role(all, Role::System) == Some(i as int));
            let mut message = messages[i].clone();
            let ghost content = message.deep_view().content;
            assert(content == all[i as int].content);
            let longer = concat3(text.as_str(), "\n\n", SESSION_TITLE_INSTRUCTION);
            message.content[0] = ContentBlock::Text { text: longer };
            assert(message.content.deep_view() =~= content.update(
                0,
                ContentBlockModel::Text { text: longer@ },
            ));
            copy[i] = message;
            assert(copy.deep_view() =~= all.update(i as int, message.deep_view()));
            assert(messages@[i as int].content.deep_view()[0] == ContentBlockModel::Text {
                text: text@,
            });
            return copy;
        }
        assert(messages@[i as int].content.deep_view()[0]
            == messages@[i as int].content@[0].deep_view());
    }
    copy.insert(0, Message::of_text(Role::System, SESSION_TITLE_INSTRUCTION));
    assert(copy.deep_view() =~= seq![text_message(Role::System, SESSION_TITLE_INSTRUCTION@)] + all);
    copy
}

} // verus!
