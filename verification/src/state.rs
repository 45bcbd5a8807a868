//! The mutable state of an agent session.
use crate::types::{
    text_message, ContentBlock, ContentBlockModel, Message, MessageModel, Role,
};
use vstd::prelude::*;

verus! {

/// A tool execution result ready to append to the canonical conversation.
#[derive(Debug)]
pub struct ToolResultEntry {
    pub tool_use_id: String,
    pub content: String,
    pub is_error: bool,
}

#[verifier::ext_equal]
pub struct ToolResultModel {
    pub tool_use_id: Seq<char>,
    pub content: Seq<char>,
    pub is_error: bool,
}

impl DeepView for ToolResultEntry {
    type V = ToolResultModel;

    open spec fn deep_view(&self) -> ToolResultModel {
        ToolResultModel {
            tool_use_id: self.tool_use_id@,
            content: self.content@,
            is_error: self.is_error,
        }
    }
}

impl ToolResultEntry {
    pub fn new(tool_use_id: &str, content: &str, is_error: bool) -> (r: Self)
        ensures
            r.deep_view() == (ToolResultModel {
                tool_use_id: tool_use_id@,
                content: content@,
                is_error,
            }),
    {
        ToolResultEntry {
            tool_use_id: tool_use_id.to_owned(),
            content: content.to_owned(),
            is_error,
        }
    }
}

/// The phase of the agent's work.
#[derive(Debug, Clone, Copy, PartialEq, Eq, Structural)]
pub enum AgentPhase {
    /// Waiting for user input.
    Idle,
    /// Sending a request to the model, collecting the streaming response.
    Generating,
    /// Reading tool calls from the response.
    ParsingToolCalls,
    /// Executing tools (possibly in parallel).
    ExecutingTools,
    /// Waiting for user approval on a tool execution.
    WaitingForPermission,
    /// Generating a plan before execution.
    Planning,
    /// Waiting for user approval on a generated plan.
    WaitingForPlanApproval,
    /// Compressing context before the next request.
    CompressingContext,
    /// Terminal: agent run complete.
    Finished,
    /// Terminal: error encountered.
    Error,
}

/// Holds all mutable state for an agent session.
#[derive(Debug)]
pub struct AgentState {
    pub phase: AgentPhase,
    pub messages: Vec<Message>,
    pub turn_count: usize,
    pub total_input_tokens: usize,
    pub total_output_tokens: usize,
    pub plan_mode_enabled: bool,
    pub reasoning_effort: Option<String>,
    pub session_title_pending: bool,
}

#[verifier::ext_equal]
pub struct StateModel {
    pub phase: AgentPhase,
    pub messages: Seq<MessageModel>,
    pub turn_count: usize,
    pub total_input_tokens: usize,
    pub total_output_tokens: usize,
    pub plan_mode_enabled: bool,
    pub reasoning_effort: Option<Seq<char>>,
    pub session_title_pending: bool,
}

impl DeepView for AgentState {
    type V = StateModel;

    open spec fn deep_view(&self) -> StateModel {
        StateModel {
            phase: self.phase,
            messages: self.messages.deep_view(),
            turn_count: self.turn_count,
            total_input_tokens: self.total_input_tokens,
            total_output_tokens: self.total_output_tokens,
            plan_mode_enabled: self.plan_mode_enabled,
            reasoning_effort: self.reasoning_effort.deep_view(),
            session_title_pending: self.session_title_pending,
        }
    }
}

/// The content block of a tool result.
pub open spec fn result_block(result: ToolResultModel) -> ContentBlockModel {
    ContentBlockModel::ToolResult {
        tool_use_id: result.tool_use_id,
        content: result.content,
        is_error: result.is_error,
    }
}

/// One tool message that carries the results, in order.
pub open spec fn result_message(results: Seq<ToolResultModel>) -> MessageModel {
    MessageModel {
        role: Role::Tool,
        content: results.map_values(|result: ToolResultModel| result_block(result)),
        id: None,
    }
}

/// Whether any message has the given role.
pub open spec fn has_role(messages: Seq<MessageModel>, role: Role) -> bool {
    exists|i: int| 0 <= i < messages.len() && #[trigger] messages[i].role == role
}

impl StateModel {
    /// A new session: the system prompt is added unless the conversation already starts
    /// with one, and a title is still wanted unless the user has spoken.
    pub open spec fn start(
        system_prompt: Option<Seq<char>>,
        initial: Seq<MessageModel>,
    ) -> StateModel {
        StateModel {
            phase: AgentPhase::Idle,
            messages: if system_prompt is Some && !(initial.len() > 0 && initial[0].role
                is System) {
                seq![text_message(Role::System, system_prompt->0)] + initial
            } else {
                initial
            },
            turn_count: 0,
            total_input_tokens: 0,
            total_output_tokens: 0,
            plan_mode_enabled: false,
            reasoning_effort: None,
            session_title_pending: !has_role(initial, Role::User),
        }
    }

    pub open spec fn push(self, message: MessageModel) -> StateModel {
        StateModel { messages: self.messages.push(message), ..self }
    }

    pub open spec fn push_user(self, text: Seq<char>) -> StateModel {
        self.push(text_message(Role::User, text))
    }

    pub open spec fn push_assistant(self, content: Seq<ContentBlockModel>) -> StateModel {
        self.push(MessageModel { role: Role::Assistant, content, id: None })
    }

    pub open spec fn push_tool_results(self, results: Seq<ToolResultModel>) -> StateModel {
        if results.len() == 0 {
            self
        } else {
            self.push(result_message(results))
        }
    }

    pub open spec fn push_tool_result(
        self,
        tool_use_id: Seq<char>,
        content: Seq<char>,
        is_error: bool,
    ) -> StateModel {
        self.push_tool_results(seq![ToolResultModel { tool_use_id, content, is_error }])
    }

    pub open spec fn in_phase(self, phase: AgentPhase) -> StateModel {
        StateModel { phase, ..self }
    }

    /// The session with its conversation cleared: only system messages stay.
    pub open spec fn cleared(self) -> StateModel {
        StateModel {
            phase: AgentPhase::Idle,
            messages: self.messages.filter(|message: MessageModel| message.role is System),
            turn_count: 0,
            total_input_tokens: 0,
            total_output_tokens: 0,
            session_title_pending: true,
            ..self
        }
    }
}

impl AgentState {
    pub fn new(
        system_prompt: Option<String>,
        initial_messages: Option<Vec<Message>>,
    ) -> (r: Self)
        ensures
            r.deep_view() == StateModel::start(
                system_prompt.deep_view(),
                match initial_messages {
                    Some(messages) => messages.deep_view(),
                    None => Seq::empty(),
                },
            ),
    {
        let mut initial = match initial_messages {
            Some(messages) => messages,
            None => Vec::new(),
        };
        let ghost given = initial.deep_view();
        assert(initial_messages is None ==> given =~= Seq::empty());
        let mut has_user = false;
        let mut i: usize = 0;
        while i < initial.len()
            invariant
                given == initial.deep_view(),
                i <= initial.len(),
                has_user == has_role(given.take(i as int), Role::User),
            decreases initial.len() - i,
        {
            assert(given[i as int] == initial@[i as int].deep_view());
            if initial[i].role == Role::User {
                assert(given.take(i + 1)[i as int].role is User);
                has_user = true;
            } else {
                assert(has_role(given.take(i + 1), Role::User) ==> has_role(
                    given.take(i as int),
                    Role::User,
                )) by {
                    if has_role(given.take(i + 1), Role::User) {
                        let j = choose|j: int|
                            0 <= j < given.take(i + 1).len() && #[trigger] given.take(
                                i + 1,
                            )[j].role == Role::User;
                        assert(given.take(i as int)[j].role == Role::User);
                    }
                }
                assert(has_role(given.take(i as int), Role::User) ==> has_role(
                    given.take(i + 1),
                    Role::User,
                )) by {
                    if has_role(given.take(i as int), Role::User) {
                        let j = choose|j: int|
                            0 <= j < given.take(i as int).len() && #[trigger] given.take(
                                i as int,
                            )[j].role == Role::User;
                        assert(given.take(i + 1)[j].role == Role::User);
                    }
                }
            }
            i += 1;
        }
        assert(given.take(i as int) =~= given);
        let starts_with_system = initial.len() > 0 && initial[0].role == Role::System;
        let mut messages: Vec<Message> = Vec::new();
        if let Some(prompt) = system_prompt {
            if !starts_with_system {
                messages.push(Message::of_text(Role::System, prompt.as_str()));
            }
        }
        let ghost head = messages.deep_view();
        messages.append(&mut initial);
        assert(messages.deep_view() =~= head + given);
        let r = AgentState {
            phase: AgentPhase::Idle,
            messages,
            turn_count: 0,
            total_input_tokens: 0,
            total_output_tokens: 0,
            plan_mode_enabled: false,
            reasoning_effort: None,
            session_title_pending: !has_user,
        };
        assert(r.deep_view() =~= StateModel::start(system_prompt.deep_view(), given));
        r
    }

    fn push(&mut self, message: Message)
        ensures
            final(self).deep_view() == old(self).deep_view().push(message.deep_view()),
    {
        self.messages.push(message);
        assert(self.deep_view() =~= old(self).deep_view().push(message.deep_view()));
    }

    /// Adds a user message to the conversation.
    pub fn push_user(&mut self, text: &str)
        ensures
            final(self).deep_view() == old(self).deep_view().push_user(text@),
    {
        self.push(Message::of_text(Role::User, text));
    }

    pub fn clear_conversation(&mut self)
        ensures
            final(self).deep_view() == old(self).deep_view().cleared(),
    {
        let ghost all = self.deep_view().messages;
        let ghost is_system = |message: MessageModel| message.role is System;
        let mut kept: Vec<Message> = Vec::new();
        let mut i: usize = 0;
        assert(kept.deep_view() =~= all.take(0).filter(is_system)) by {
            assert(all.take(0) =~= Seq::empty());
            reveal(Seq::filter);
        }
        while i < self.messages.len()
            invariant
                *self == *old(self),
                all == self.deep_view().messages,
                is_system == |message: MessageModel| message.role is System,
                i <= self.messages.len(),
                kept.deep_view() == all.take(i as int).filter(is_system),
            decreases self.messages.len() - i,
        {
            let ghost before = kept.deep_view();
            assert(all[i as int] == self.messages@[i as int].deep_view());
            assert(all.take(i + 1).drop_last() =~= all.take(i as int));
            proof {
                reveal(Seq::filter);
            }
            if self.messages[i].role == Role::System {
                let message = self.messages[i].clone();
                kept.push(message);
                assert(kept.deep_view() =~= before.push(all[i as int]));
            }
            i += 1;
        }
        assert(all.take(i as int) =~= all);
        self.messages = kept;
        self.turn_count = 0;
        self.total_input_tokens = 0;
        self.total_output_tokens = 0;
        self.phase = AgentPhase::Idle;
        self.session_title_pending = true;
        assert(self.deep_view() =~= old(self).deep_view().cleared());
    }

    /// Adds an assistant response to the conversation.
    pub fn push_assistant(&mut self, blocks: Vec<ContentBlock>)
        ensures
            final(self).deep_view() == old(self).deep_view().push_assistant(blocks.deep_view()),
    {
        self.push(Message { role: Role::Assistant, content: blocks, id: None });
    }

    /// Adds a tool result to the conversation.
    pub fn push_tool_result(&mut self, tool_use_id: &str, content: &str, is_error: bool)
        ensures
            final(self).deep_view() == old(self).deep_view().push_tool_result(
                tool_use_id@,
                content@,
                is_error,
            ),
    {
        let mut results: Vec<ToolResultEntry> = Vec::new();
        results.push(ToolResultEntry::new(tool_use_id, content, is_error));
        assert(results.deep_view() =~= seq![
            ToolResultModel { tool_use_id: tool_use_id@, content: content@, is_error },
        ]);
        self.push_tool_results(results);
    }

    /// Adds one tool message containing multiple tool results.
    pub fn push_tool_results(&mut self, results: Vec<ToolResultEntry>)
        ensures
            final(self).deep_view() == old(self).deep_view().push_tool_results(
                results.deep_view(),
            ),
    {
        if results.len() == 0 {
            return ;
        }
        let ghost wanted = result_message(results.deep_view()).content;
        let mut content: Vec<ContentBlock> = Vec::new();
        let mut i: usize = 0;
        while i < results.len()
            invariant
                wanted == result_message(results.deep_view()).content,
                i <= results.len(),
                content.deep_view() == wanted.take(i as int),
            decreases results.len() - i,
        {
            let ghost before = content.deep_view();
            let block = ContentBlock::ToolResult {
                tool_use_id: results[i].tool_use_id.clone(),
                content: results[i].content.clone(),
                is_error: results[i].is_error,
            };
            assert(block.deep_view() == wanted[i as int]);
            content.push(block);
            assert(content.deep_view() =~= before.push(block.deep_view()));
            i += 1;
            assert(content.deep_view() =~= wanted.take(i as int));
        }
        assert(content.deep_view() =~= wanted);
        self.push(Message { role: Role::Tool, content, id: None });
    }
}

/// Clearing the conversation keeps the system messages and nothing else.
pub proof fn law_clearing_keeps_only_system_messages(state: StateModel)
    ensures
        forall|i: int|
            0 <= i < state.cleared().messages.len() ==> #[trigger] state.cleared().messages[i].role
                is System,
        forall|message: MessageModel|
            state.messages.contains(message) && message.role is System
                ==> #[trigger] state.cleared().messages.contains(message),
{
    let is_system = |message: MessageModel| message.role is System;
    broadcast use vstd::seq_lib::group_filter_ensures;
    assert forall|message: MessageModel|
        state.messages.contains(message) && message.role is System implies #[trigger] state.cleared().messages.contains(
        message,
    ) by {
        let i = choose|i: int|
            0 <= i < state.messages.len() && state.messages[i] == message;
        assert(is_system(state.messages[i]));
    }
}

} // verus!
