//! Chat protocol messages.

use vstd::prelude::*;

verus! {

/// Who speaks in a message.
#[derive(Clone, Copy, Debug, PartialEq, Eq, Structural)]
pub enum MessageRole {
    System,
    User,
    Assistant,
    Tool,
}

/// The function that a tool call names, with its raw JSON arguments.
#[derive(Debug, PartialEq, Eq)]
pub struct FunctionCall {
    pub name: String,
    pub arguments: String,
}

/// One tool call of an assistant turn.
#[derive(Debug, PartialEq, Eq)]
pub struct ToolCall {
    pub id: String,
    pub call_type: String,
    pub function: FunctionCall,
}

/// One message of the history that is sent to a model.
#[derive(Debug, PartialEq, Eq)]
pub struct ChatMessage {
    pub role: MessageRole,
    pub content: String,
    pub name: Option<String>,
    pub tool_calls: Option<Vec<ToolCall>>,
    pub tool_call_id: Option<String>,
    pub reasoning_content: Option<String>,
}

/// What a [`ToolCall`] holds.
pub struct ToolCallView {
    pub id: Seq<char>,
    pub call_type: Seq<char>,
    pub name: Seq<char>,
    pub arguments: Seq<char>,
}

/// What a [`ChatMessage`] holds.
pub struct ChatMessageView {
    pub role: MessageRole,
    pub content: Seq<char>,
    pub name: Option<Seq<char>>,
    pub tool_calls: Option<Seq<ToolCallView>>,
    pub tool_call_id: Option<Seq<char>>,
    pub reasoning_content: Option<Seq<char>>,
}

impl DeepView for ToolCall {
    type V = ToolCallView;

    open spec fn deep_view(&self) -> ToolCallView {
        ToolCallView {
            id: self.id@,
            call_type: self.call_type@,
            name: self.function.name@,
            arguments: self.function.arguments@,
        }
    }
}

impl DeepView for ChatMessage {
    type V = ChatMessageView;

    open spec fn deep_view(&self) -> ChatMessageView {
        ChatMessageView {
            role: self.role,
            content: self.content@,
            name: self.name.deep_view(),
            tool_calls: self.tool_calls.deep_view(),
            tool_call_id: self.tool_call_id.deep_view(),
            reasoning_content: self.reasoning_content.deep_view(),
        }
    }
}

impl ChatMessageView {
    /// A message that holds nothing but its text.
    pub open spec fn plain(role: MessageRole, content: Seq<char>) -> ChatMessageView {
        ChatMessageView {
            role,
            content,
            name: None,
            tool_calls: None,
            tool_call_id: None,
            reasoning_content: None,
        }
    }
}

impl ChatMessage {
    /// A message that holds nothing but its text.
    pub fn plain(role: MessageRole, content: String) -> (r: Self)
        ensures
            r.deep_view() == ChatMessageView::plain(role, content@),
    {
        ChatMessage {
            role,
            content,
            name: None,
            tool_calls: None,
            tool_call_id: None,
            reasoning_content: None,
        }
    }

    /// What the user says.
    pub fn user(content: String) -> (r: Self)
        ensures
            r.deep_view() == ChatMessageView::plain(MessageRole::User, content@),
    {
        ChatMessage::plain(MessageRole::User, content)
    }

    /// What the model answers.
    pub fn assistant(content: String) -> (r: Self)
        ensures
            r.deep_view() == ChatMessageView::plain(MessageRole::Assistant, content@),
    {
        ChatMessage::plain(MessageRole::Assistant, content)
    }
}

impl Clone for ToolCall {
    fn clone(&self) -> (r: Self)
        ensures
            r.deep_view() == self.deep_view(),
    {
        ToolCall {
            id: self.id.clone(),
            call_type: self.call_type.clone(),
            function: FunctionCall {
                name: self.function.name.clone(),
                arguments: self.function.arguments.clone(),
            },
        }
    }
}

impl Clone for ChatMessage {
    fn clone(&self) -> (r: Self)
        ensures
            r.deep_view() == self.deep_view(),
    {
        let r = ChatMessage {
            role: self.role,
            content: self.content.clone(),
            name: self.name.clone(),
            tool_calls: match &self.tool_calls {
                Some(calls) => {
                    let copy = calls.clone();
                    assert(copy.deep_view() =~= calls.deep_view());
                    Some(copy)
                },
                None => None,
            },
            tool_call_id: self.tool_call_id.clone(),
            reasoning_content: self.reasoning_content.clone(),
        };
        r
    }
}

/// Token counts that a provider reports for one call.
#[derive(Clone, Copy, Debug, PartialEq, Eq, Structural)]
pub struct UsageInfo {
    pub prompt_tokens: u64,
    pub completion_tokens: u64,
    pub total_tokens: u64,
    pub reasoning_tokens: u64,
}

/// What a model answers.
#[derive(Debug, PartialEq, Eq)]
pub struct ChatResponse {
    pub content: String,
    pub reasoning_content: Option<String>,
    pub tool_calls: Option<Vec<ToolCall>>,
    pub usage: Option<UsageInfo>,
    /// When the reasoning began, in milliseconds since the epoch.
    pub reasoning_started_at: Option<i64>,
    /// When the reasoning ended, in milliseconds since the epoch.
    pub reasoning_finished_at: Option<i64>,
    pub finish_reason: Option<String>,
}

/// What a [`ChatResponse`] holds.
pub struct ChatResponseView {
    pub content: Seq<char>,
    pub reasoning_content: Option<Seq<char>>,
    pub tool_calls: Option<Seq<ToolCallView>>,
    pub usage: Option<UsageInfo>,
    pub reasoning_started_at: Option<i64>,
    pub reasoning_finished_at: Option<i64>,
    pub finish_reason: Option<Seq<char>>,
}

impl DeepView for ChatResponse {
    type V = ChatResponseView;

    open spec fn deep_view(&self) -> ChatResponseView {
        ChatResponseView {
            content: self.content@,
            reasoning_content: self.reasoning_content.deep_view(),
            tool_calls: self.tool_calls.deep_view(),
            usage: self.usage,
            reasoning_started_at: self.reasoning_started_at,
            reasoning_finished_at: self.reasoning_finished_at,
            finish_reason: self.finish_reason.deep_view(),
        }
    }
}

/// A plain message holds its role and its words, and nothing else.
pub proof fn plain_messages_hold_their_words(role: MessageRole, content: Seq<char>)
    ensures
        ChatMessageView::plain(role, content).role == role,
        ChatMessageView::plain(role, content).content == content,
        ChatMessageView::plain(role, content).name is None,
        ChatMessageView::plain(role, content).tool_calls is None,
        ChatMessageView::plain(role, content).tool_call_id is None,
        ChatMessageView::plain(role, content).reasoning_content is None,
{
}

/// A call is known by its id, its tool and its arguments, and a message by its
/// role, its words and what hangs on them, each as it stands there.
pub proof fn messages_are_read_as_they_stand(call: ToolCall, m: ChatMessage, r: ChatResponse)
    ensures
        call.deep_view().id == call.id@,
        call.deep_view().call_type == call.call_type@,
        call.deep_view().name == call.function.name@,
        call.deep_view().arguments == call.function.arguments@,
        m.deep_view().role == m.role,
        m.deep_view().content == m.content@,
        m.deep_view().name == m.name.deep_view(),
        m.deep_view().tool_calls == m.tool_calls.deep_view(),
        m.deep_view().tool_call_id == m.tool_call_id.deep_view(),
        m.deep_view().reasoning_content == m.reasoning_content.deep_view(),
        r.deep_view().content == r.content@,
        r.deep_view().reasoning_content == r.reasoning_content.deep_view(),
        r.deep_view().tool_calls == r.tool_calls.deep_view(),
        r.deep_view().usage == r.usage,
        r.deep_view().reasoning_started_at == r.reasoning_started_at,
        r.deep_view().reasoning_finished_at == r.reasoning_finished_at,
        r.deep_view().finish_reason == r.finish_reason.deep_view(),
{
}

} // verus!
