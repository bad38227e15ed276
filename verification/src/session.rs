//! The state of one session: its status, its settings, its snapshot for
//! outside readers, and the events it owes the frontend.

use vstd::prelude::*;

use crate::conversation::ConversationSession;
use crate::message::{ChatMessage, UsageInfo};
use crate::text::same_text;

verus! {

/// What a session is doing.
#[derive(Debug)]
pub enum SessionStatus {
    Idle,
    /// The request is on its way; nothing has come back.
    LlmAwaitingFirstChunk,
    /// The model reasons.
    Thinking,
    /// The model replies.
    LlmStreaming { message_id: Option<String> },
    /// Tools run.
    ToolExecuting,
    /// The user has to decide.
    WaitingApproval { request_id: String },
    /// The turn is held, by the debugger or between retries.
    Paused,
}

/// What a [`SessionStatus`] is.
pub enum StatusView {
    Idle,
    LlmAwaitingFirstChunk,
    Thinking,
    LlmStreaming { message_id: Option<Seq<char>> },
    ToolExecuting,
    WaitingApproval { request_id: Seq<char> },
    Paused,
}

impl DeepView for SessionStatus {
    type V = StatusView;

    open spec fn deep_view(&self) -> StatusView {
        match self {
            SessionStatus::Idle => StatusView::Idle,
            SessionStatus::LlmAwaitingFirstChunk => StatusView::LlmAwaitingFirstChunk,
            SessionStatus::Thinking => StatusView::Thinking,
            SessionStatus::LlmStreaming { message_id } => StatusView::LlmStreaming {
                message_id: message_id.deep_view(),
            },
            SessionStatus::ToolExecuting => StatusView::ToolExecuting,
            SessionStatus::WaitingApproval { request_id } => StatusView::WaitingApproval {
                request_id: request_id@,
            },
            SessionStatus::Paused => StatusView::Paused,
        }
    }
}

impl Clone for SessionStatus {
    fn clone(&self) -> (r: Self)
        ensures
            r.deep_view() == self.deep_view(),
    {
        match self {
            SessionStatus::Idle => SessionStatus::Idle,
            SessionStatus::LlmAwaitingFirstChunk => SessionStatus::LlmAwaitingFirstChunk,
            SessionStatus::Thinking => SessionStatus::Thinking,
            SessionStatus::LlmStreaming { message_id } => SessionStatus::LlmStreaming {
                message_id: message_id.clone(),
            },
            SessionStatus::ToolExecuting => SessionStatus::ToolExecuting,
            SessionStatus::WaitingApproval { request_id } => SessionStatus::WaitingApproval {
                request_id: request_id.clone(),
            },
            SessionStatus::Paused => SessionStatus::Paused,
        }
    }
}

/// Whether two optional texts are the same.
pub fn same_option(a: &Option<String>, b: &Option<String>) -> (r: bool)
    ensures
        r == (a.deep_view() == b.deep_view()),
{
    match (a, b) {
        (Some(x), Some(y)) => same_text(x.as_str(), y.as_str()),
        (None, None) => true,
        _ => false,
    }
}

impl SessionStatus {
    /// Whether two statuses are the same.
    pub fn same(&self, other: &SessionStatus) -> (r: bool)
        ensures
            r == (self.deep_view() == other.deep_view()),
    {
        match (self, other) {
            (SessionStatus::Idle, SessionStatus::Idle) => true,
            (SessionStatus::LlmAwaitingFirstChunk, SessionStatus::LlmAwaitingFirstChunk) => true,
            (SessionStatus::Thinking, SessionStatus::Thinking) => true,
            (
                SessionStatus::LlmStreaming { message_id: a },
                SessionStatus::LlmStreaming { message_id: b },
            ) => same_option(a, b),
            (SessionStatus::ToolExecuting, SessionStatus::ToolExecuting) => true,
            (
                SessionStatus::WaitingApproval { request_id: a },
                SessionStatus::WaitingApproval { request_id: b },
            ) => same_text(a.as_str(), b.as_str()),
            (SessionStatus::Paused, SessionStatus::Paused) => true,
            _ => false,
        }
    }
}

/// How much a model reasons before it answers.
#[derive(Debug)]
pub enum ReasoningEffort {
    /// The model decides.
    Auto,
    /// A level that the provider knows by this name.
    Level(String),
}

/// What a [`ReasoningEffort`] is.
pub enum EffortView {
    Auto,
    Level(Seq<char>),
}

impl DeepView for ReasoningEffort {
    type V = EffortView;

    open spec fn deep_view(&self) -> EffortView {
        match self {
            ReasoningEffort::Auto => EffortView::Auto,
            ReasoningEffort::Level(s) => EffortView::Level(s@),
        }
    }
}

impl Clone for ReasoningEffort {
    fn clone(&self) -> (r: Self)
        ensures
            r.deep_view() == self.deep_view(),
    {
        match self {
            ReasoningEffort::Auto => ReasoningEffort::Auto,
            ReasoningEffort::Level(s) => ReasoningEffort::Level(s.clone()),
        }
    }
}

impl EffortView {
    /// The effort as it is persisted.
    pub open spec fn text(self) -> Seq<char> {
        match self {
            EffortView::Auto => "auto"@,
            EffortView::Level(s) => s,
        }
    }
}

impl ReasoningEffort {
    /// The effort as it is persisted.
    pub fn to_text(&self) -> (s: String)
        ensures
            s@ == self.deep_view().text(),
    {
        match self {
            ReasoningEffort::Auto => "auto".to_owned(),
            ReasoningEffort::Level(s) => s.clone(),
        }
    }
}

/// A sampling temperature, as the bits of its single-precision value.
#[derive(Clone, Copy, Debug, PartialEq, Eq, Structural)]
pub struct Temperature {
    pub bits: u32,
}

/// The state of an entry of the todo list.
#[derive(Clone, Copy, Debug, PartialEq, Eq, Structural)]
pub enum TodoStatus {
    Pending,
    InProgress,
    Completed,
}

/// An entry of the todo list.
#[derive(Debug, PartialEq, Eq)]
pub struct TodoItem {
    pub id: String,
    pub content: String,
    pub status: TodoStatus,
}

/// What a [`TodoItem`] holds.
pub struct TodoView {
    pub id: Seq<char>,
    pub content: Seq<char>,
    pub status: TodoStatus,
}

impl DeepView for TodoItem {
    type V = TodoView;

    open spec fn deep_view(&self) -> TodoView {
        TodoView { id: self.id@, content: self.content@, status: self.status }
    }
}

impl Clone for TodoItem {
    fn clone(&self) -> (r: Self)
        ensures
            r.deep_view() == self.deep_view(),
    {
        TodoItem { id: self.id.clone(), content: self.content.clone(), status: self.status }
    }
}

/// How full the context is, for the frontend.
#[derive(Clone, Copy, Debug, PartialEq, Eq, Structural)]
pub struct ContextUsageInfo {
    pub context_window: u64,
    pub input_tokens: u64,
    pub output_tokens: u64,
    pub total_tokens: u64,
    pub max_input_tokens: Option<u64>,
    pub usable_context: u64,
    pub usage_percent: u8,
    pub total_input_tokens: Option<u64>,
    pub total_output_tokens: Option<u64>,
    pub agent_total_input_tokens: Option<u64>,
    pub agent_total_output_tokens: Option<u64>,
}

/// A record that is complete and stands in the log.
#[derive(Debug)]
pub struct RecordComplete {
    pub session_id: String,
    pub role: String,
    pub message_id: String,
    pub content: String,
    pub tool_name: String,
    pub tool_call_id: String,
    pub is_error: bool,
    pub seq: u64,
}

/// What a [`RecordComplete`] holds.
pub struct RecordView {
    pub session_id: Seq<char>,
    pub role: Seq<char>,
    pub message_id: Seq<char>,
    pub content: Seq<char>,
    pub tool_name: Seq<char>,
    pub tool_call_id: Seq<char>,
    pub is_error: bool,
    pub seq: u64,
}

impl DeepView for RecordComplete {
    type V = RecordView;

    open spec fn deep_view(&self) -> RecordView {
        RecordView {
            session_id: self.session_id@,
            role: self.role@,
            message_id: self.message_id@,
            content: self.content@,
            tool_name: self.tool_name@,
            tool_call_id: self.tool_call_id@,
            is_error: self.is_error,
            seq: self.seq,
        }
    }
}

/// What the session owes the world outside, in order.
#[derive(Debug)]
pub enum ChunkEvent {
    /// The status changed: publish the session state.
    SessionState,
    /// A compaction begins.
    CompactingStarted,
    /// A compaction is over.
    CompactingEnded,
    ContextUsage(ContextUsageInfo),
    Record(RecordComplete),
    Error { user_message: String, detail: String, error_type: String, message_id: String },
    /// Write the streaming line to the log.
    FlushStreamingLine,
    /// Drop the streaming line: its content stands in the log.
    RemoveStreamingLine,
    /// Show a question of the model to the user.
    AskQuestion {
        request_id: String,
        question: String,
        options: Vec<String>,
        title: Option<String>,
        timeout_seconds: u32,
    },
    /// The retained message of this type is stale.
    ClearRetained { event_type: String },
    /// The todo list of the session changed.
    TodoListUpdated { todos: Vec<TodoItem> },
    /// A tool, or the user with a question, is still at work.
    ToolProgress { session_id: String, tool_call_id: String, elapsed_ms: u64, timeout_ms: u64 },
    /// Count a call for the agent as a whole.
    AgentUsage(UsageInfo),
    /// A turn is over; this is its answer.
    Done { content: String, message_id: String },
    /// The log holds new lines.
    NewDataAvailable,
}

/// What a [`ChunkEvent`] is.
pub enum ChunkView {
    SessionState,
    CompactingStarted,
    CompactingEnded,
    ContextUsage(ContextUsageInfo),
    Record(RecordView),
    Error {
        user_message: Seq<char>,
        detail: Seq<char>,
        error_type: Seq<char>,
        message_id: Seq<char>,
    },
    FlushStreamingLine,
    RemoveStreamingLine,
    AskQuestion {
        request_id: Seq<char>,
        question: Seq<char>,
        options: Seq<Seq<char>>,
        title: Option<Seq<char>>,
        timeout_seconds: u32,
    },
    ClearRetained { event_type: Seq<char> },
    TodoListUpdated { todos: Seq<TodoView> },
    ToolProgress {
        session_id: Seq<char>,
        tool_call_id: Seq<char>,
        elapsed_ms: u64,
        timeout_ms: u64,
    },
    AgentUsage(UsageInfo),
    Done { content: Seq<char>, message_id: Seq<char> },
    NewDataAvailable,
}

impl DeepView for ChunkEvent {
    type V = ChunkView;

    open spec fn deep_view(&self) -> ChunkView {
        match self {
            ChunkEvent::SessionState => ChunkView::SessionState,
            ChunkEvent::CompactingStarted => ChunkView::CompactingStarted,
            ChunkEvent::CompactingEnded => ChunkView::CompactingEnded,
            ChunkEvent::ContextUsage(u) => ChunkView::ContextUsage(*u),
            ChunkEvent::Record(r) => ChunkView::Record(r.deep_view()),
            ChunkEvent::Error { user_message, detail, error_type, message_id } => ChunkView::Error {
                user_message: user_message@,
                detail: detail@,
                error_type: error_type@,
                message_id: message_id@,
            },
            ChunkEvent::FlushStreamingLine => ChunkView::FlushStreamingLine,
            ChunkEvent::RemoveStreamingLine => ChunkView::RemoveStreamingLine,
            ChunkEvent::AskQuestion {
                request_id,
                question,
                options,
                title,
                timeout_seconds,
            } => ChunkView::AskQuestion {
                request_id: request_id@,
                question: question@,
                options: options.deep_view(),
                title: title.deep_view(),
                timeout_seconds: *timeout_seconds,
            },
            ChunkEvent::ClearRetained { event_type } => ChunkView::ClearRetained {
                event_type: event_type@,
            },
            ChunkEvent::TodoListUpdated { todos } => ChunkView::TodoListUpdated {
                todos: todos.deep_view(),
            },
            ChunkEvent::ToolProgress {
                session_id,
                tool_call_id,
                elapsed_ms,
                timeout_ms,
            } => ChunkView::ToolProgress {
                session_id: session_id@,
                tool_call_id: tool_call_id@,
                elapsed_ms: *elapsed_ms,
                timeout_ms: *timeout_ms,
            },
            ChunkEvent::AgentUsage(u) => ChunkView::AgentUsage(*u),
            ChunkEvent::Done { content, message_id } => ChunkView::Done {
                content: content@,
                message_id: message_id@,
            },
            ChunkEvent::NewDataAvailable => ChunkView::NewDataAvailable,
        }
    }
}

/// What outside readers see of a session.
#[derive(Debug)]
pub struct SessionSnapshot {
    pub session_id: String,
    pub status: String,
    pub model: Option<String>,
    pub provider: Option<String>,
    /// The calibrated token ratio, as the bits of its double-precision value.
    pub ratio_bits: Option<u64>,
    pub todos_json: Option<String>,
    pub context_usage: Option<String>,
}

/// What a [`SessionSnapshot`] holds.
pub struct SnapshotView {
    pub session_id: Seq<char>,
    pub status: Seq<char>,
    pub model: Option<Seq<char>>,
    pub provider: Option<Seq<char>>,
    pub ratio_bits: Option<u64>,
    pub todos_json: Option<Seq<char>>,
    pub context_usage: Option<Seq<char>>,
}

impl DeepView for SessionSnapshot {
    type V = SnapshotView;

    open spec fn deep_view(&self) -> SnapshotView {
        SnapshotView {
            session_id: self.session_id@,
            status: self.status@,
            model: self.model.deep_view(),
            provider: self.provider.deep_view(),
            ratio_bits: self.ratio_bits,
            todos_json: self.todos_json.deep_view(),
            context_usage: self.context_usage.deep_view(),
        }
    }
}

impl Clone for SessionSnapshot {
    fn clone(&self) -> (r: Self)
        ensures
            r.deep_view() == self.deep_view(),
    {
        SessionSnapshot {
            session_id: self.session_id.clone(),
            status: self.status.clone(),
            model: self.model.clone(),
            provider: self.provider.clone(),
            ratio_bits: self.ratio_bits,
            todos_json: self.todos_json.clone(),
            context_usage: self.context_usage.clone(),
        }
    }
}

/// The part of a session that turns read and change.
#[derive(Debug)]
pub struct SessionState {
    pub status: SessionStatus,
    pub model: Option<String>,
    pub provider: Option<String>,
    pub temperature: Option<Temperature>,
    pub reasoning_effort: Option<ReasoningEffort>,
    pub model_ratio_bits: Option<u64>,
    pub history: Vec<ChatMessage>,
    pub conversation: Option<ConversationSession>,
    pub is_compacted: bool,
    /// Who the user is, for summaries in the user's language.
    pub identity_context: Option<String>,
    pub todos: Vec<TodoItem>,
    pub snapshot: SessionSnapshot,
}

/// The part of a session that talks to the world outside.
#[derive(Debug)]
pub struct SessionCore {
    pub session_id: Option<String>,
    /// A title that was made in the background.
    pub title: Option<String>,
    /// How often a streaming line was written to the log in this response.
    pub streaming_flush_count: u64,
    /// The number of the next record.
    pub next_seq: u64,
    pub outbox: Vec<ChunkEvent>,
}

impl SessionCore {
    /// Owes the world one more event.
    pub fn send(&mut self, event: ChunkEvent)
        ensures
            final(self).outbox.deep_view() == old(self).outbox.deep_view().push(event.deep_view()),
            *final(self) == (SessionCore { outbox: final(self).outbox, ..*old(self) }),
    {
        self.outbox.push(event);
        assert(self.outbox.deep_view() =~= old(self).outbox.deep_view().push(event.deep_view()));
    }

    /// The number of the next record; the one after it follows, and the
    /// counter wraps around.
    pub fn take_seq(&mut self) -> (n: u64)
        ensures
            n == old(self).next_seq,
            final(self).next_seq == old(self).next_seq.wrapping_add(1),
            *final(self) == (SessionCore { next_seq: final(self).next_seq, ..*old(self) }),
    {
        let n: u64 = self.next_seq;
        self.next_seq = n.wrapping_add(1);
        n
    }

    /// A line of the response that streams in was written to the log: what it
    /// holds is not to be logged again. The count stops at its largest value.
    pub fn line_flushed(&mut self)
        ensures
            final(self).streaming_flush_count == (if old(self).streaming_flush_count < u64::MAX {
                old(self).streaming_flush_count + 1
            } else {
                u64::MAX as int
            }),
            *final(self) == (SessionCore {
                streaming_flush_count: final(self).streaming_flush_count,
                ..*old(self)
            }),
    {
        if self.streaming_flush_count < u64::MAX {
            self.streaming_flush_count = self.streaming_flush_count + 1;
        }
    }
}

/// An effort is written down as its level, or as the word for leaving it to the
/// model.
pub proof fn efforts_are_written_by_level(level: Seq<char>)
    ensures
        EffortView::Auto.text() == "auto"@,
        EffortView::Level(level).text() == level,
{
}

} // verus!
