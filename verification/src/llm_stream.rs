//! Assembly of a streamed model response.
//!
//! The host owns the stream, the clock and the session; this module decides,
//! event by event, what is kept, what the host has to do about it, and when
//! the response is complete.

use vstd::prelude::*;

use crate::agent_loop::AgentLoop;
use crate::clock::now_millis;
use crate::json::{parse_json, parsed_json, rewrite_json, rewritten};
use crate::message::{ChatResponse, ChatResponseView, ToolCall, ToolCallView, UsageInfo};
use crate::session::{ChunkView, SessionCore, SessionState, SessionStatus, StatusView};
use crate::text::same_text;

verus! {

/// A control signal of the user or the debugger.
#[derive(Clone, Copy, Debug, PartialEq, Eq, Structural)]
pub enum ControlDecision {
    Continue,
    Stop,
    Pause,
}

/// What arrives while a response streams in.
#[derive(Debug)]
pub enum StreamInput {
    /// A piece of the answer.
    Content(String),
    /// A piece of the reasoning.
    ReasoningContent(String),
    /// A tool call begins.
    ToolCallStart(ToolCall),
    /// A piece of the arguments of the tool call at `index`.
    ToolCallChunk { index: u64, arguments: String },
    /// The provider closes the response.
    Finished(ChatResponse),
    /// The stream broke; `overflow` says that the request did not fit.
    Error { overflow: bool },
    /// The stream ended without being closed.
    End,
    /// The user cancelled the request; the control signal may say more.
    Cancelled(ControlDecision),
    /// Nothing arrived for a while; here is the control signal.
    Idle(ControlDecision),
}

/// What a [`StreamInput`] is.
pub enum InputView {
    Content(Seq<char>),
    ReasoningContent(Seq<char>),
    ToolCallStart(ToolCallView),
    ToolCallChunk { index: u64, arguments: Seq<char> },
    Finished(ChatResponseView),
    Error { overflow: bool },
    End,
    Cancelled(ControlDecision),
    Idle(ControlDecision),
}

impl DeepView for StreamInput {
    type V = InputView;

    open spec fn deep_view(&self) -> InputView {
        match self {
            StreamInput::Content(s) => InputView::Content(s@),
            StreamInput::ReasoningContent(s) => InputView::ReasoningContent(s@),
            StreamInput::ToolCallStart(tc) => InputView::ToolCallStart(tc.deep_view()),
            StreamInput::ToolCallChunk { index, arguments } => InputView::ToolCallChunk {
                index: *index,
                arguments: arguments@,
            },
            StreamInput::Finished(r) => InputView::Finished(r.deep_view()),
            StreamInput::Error { overflow } => InputView::Error { overflow: *overflow },
            StreamInput::End => InputView::End,
            StreamInput::Cancelled(c) => InputView::Cancelled(*c),
            StreamInput::Idle(c) => InputView::Idle(*c),
        }
    }
}

/// Who a streaming line belongs to.
#[derive(Clone, Copy, Debug, PartialEq, Eq, Structural)]
pub enum LineRole {
    Assistant,
    Thought,
}

/// What the host has to do, in order.
#[derive(Debug)]
pub enum StreamAction {
    /// The session status becomes "the model is replying".
    ShowReplying,
    /// The session status becomes "the model is thinking".
    ShowThinking,
    /// Make the streaming line one of this role: a line of another role is
    /// written to the log first.
    SwitchLine(LineRole),
    /// Append to the streaming line.
    AppendDelta { role: LineRole, text: String },
    /// Tell the frontend that there is something new.
    NotifyNewData,
    /// Deliver the trailing partial line.
    ForceFlushDelta,
    /// Write the streaming line to the log.
    FlushLine,
    /// Remember that the debugger paused the turn.
    RememberPause,
    /// Tell the frontend that the response was stopped, with what there is.
    EmitStopped(String),
}

/// What a [`StreamAction`] is.
pub enum ActionView {
    ShowReplying,
    ShowThinking,
    SwitchLine(LineRole),
    AppendDelta { role: LineRole, text: Seq<char> },
    NotifyNewData,
    ForceFlushDelta,
    FlushLine,
    RememberPause,
    EmitStopped(Seq<char>),
}

impl DeepView for StreamAction {
    type V = ActionView;

    open spec fn deep_view(&self) -> ActionView {
        match self {
            StreamAction::ShowReplying => ActionView::ShowReplying,
            StreamAction::ShowThinking => ActionView::ShowThinking,
            StreamAction::SwitchLine(r) => ActionView::SwitchLine(*r),
            StreamAction::AppendDelta { role, text } => ActionView::AppendDelta {
                role: *role,
                text: text@,
            },
            StreamAction::NotifyNewData => ActionView::NotifyNewData,
            StreamAction::ForceFlushDelta => ActionView::ForceFlushDelta,
            StreamAction::FlushLine => ActionView::FlushLine,
            StreamAction::RememberPause => ActionView::RememberPause,
            StreamAction::EmitStopped(s) => ActionView::EmitStopped(s@),
        }
    }
}

/// How the stream goes on after an event.
#[derive(Clone, Copy, Debug, PartialEq, Eq, Structural)]
pub enum StreamNext {
    /// Wait for the next event.
    Continue,
    /// The response is complete.
    Complete,
    /// The response was stopped.
    Stopped,
    /// Return the stream's error.
    Fail,
    /// Compact the history; if it shrank, send the request once more.
    CompactAndRetry,
}

/// A response in the making.
#[derive(Debug)]
pub struct StreamState {
    content: String,
    reasoning: String,
    tool_calls: Option<Vec<ToolCall>>,
    usage: Option<UsageInfo>,
    finish_reason: Option<String>,
    started_at: Option<i64>,
    finished_at: Option<i64>,
    in_progress: bool,
    /// Argument text by tool-call index, each index once.
    buffers: Vec<(u64, String)>,
    /// Indices whose argument text is complete JSON.
    complete: Vec<u64>,
}

/// What a [`StreamState`] holds.
pub struct StreamView {
    pub content: Seq<char>,
    pub reasoning: Seq<char>,
    pub tool_calls: Option<Seq<ToolCallView>>,
    pub usage: Option<UsageInfo>,
    pub finish_reason: Option<Seq<char>>,
    pub started_at: Option<i64>,
    pub finished_at: Option<i64>,
    pub in_progress: bool,
    /// Argument text by tool-call index.
    pub buffers: Map<u64, Seq<char>>,
    /// Indices whose argument text is complete JSON.
    pub complete: Set<u64>,
}

/// The map that a list of indexed texts stands for.
pub open spec fn buffer_map(entries: Seq<(u64, String)>) -> Map<u64, Seq<char>>
    decreases entries.len(),
{
    if entries.len() == 0 {
        Map::empty()
    } else {
        buffer_map(entries.drop_last()).insert(entries.last().0, entries.last().1@)
    }
}

pub open spec fn distinct_indices(entries: Seq<(u64, String)>) -> bool {
    forall|i: int, j: int|
        0 <= i < j < entries.len() ==> (#[trigger] entries[i]).0 != (#[trigger] entries[j]).0
}

impl DeepView for StreamState {
    type V = StreamView;

    closed spec fn deep_view(&self) -> StreamView {
        StreamView {
            content: self.content@,
            reasoning: self.reasoning@,
            tool_calls: self.tool_calls.deep_view(),
            usage: self.usage,
            finish_reason: self.finish_reason.deep_view(),
            started_at: self.started_at,
            finished_at: self.finished_at,
            in_progress: self.in_progress,
            buffers: buffer_map(self.buffers@),
            complete: self.complete@.to_set(),
        }
    }
}

/// The state after an event, what the host has to do, and how to go on.
pub struct StepResult {
    pub state: StreamView,
    pub actions: Seq<ActionView>,
    pub next: StreamNext,
}

impl StreamView {
    pub open spec fn start() -> StreamView {
        StreamView {
            content: Seq::empty(),
            reasoning: Seq::empty(),
            tool_calls: None,
            usage: None,
            finish_reason: None,
            started_at: None,
            finished_at: None,
            in_progress: false,
            buffers: Map::empty(),
            complete: Set::empty(),
        }
    }

    /// Reasoning that was going on is over at `now`.
    pub open spec fn reasoning_over(self, now: i64) -> StreamView {
        if self.in_progress {
            StreamView { finished_at: Some(now), in_progress: false, ..self }
        } else {
            self
        }
    }

    pub open spec fn on_content(self, chunk: Seq<char>, now: i64) -> StepResult {
        let over = self.reasoning_over(now);
        let rest = seq![
            ActionView::SwitchLine(LineRole::Assistant),
            ActionView::AppendDelta { role: LineRole::Assistant, text: chunk },
            ActionView::NotifyNewData,
        ];
        StepResult {
            state: StreamView { content: self.content + chunk, ..over },
            actions: if self.content.len() == 0 {
                seq![ActionView::ShowReplying] + rest
            } else {
                rest
            },
            next: StreamNext::Continue,
        }
    }

    pub open spec fn on_reasoning(self, chunk: Seq<char>, now: i64) -> StepResult {
        let rest = seq![
            ActionView::SwitchLine(LineRole::Thought),
            ActionView::AppendDelta { role: LineRole::Thought, text: chunk },
            ActionView::NotifyNewData,
        ];
        StepResult {
            state: StreamView {
                reasoning: self.reasoning + chunk,
                started_at: if self.started_at is Some {
                    self.started_at
                } else {
                    Some(now)
                },
                in_progress: true,
                ..self
            },
            actions: if self.started_at is None {
                seq![ActionView::ShowThinking] + rest
            } else {
                rest
            },
            next: StreamNext::Continue,
        }
    }

    pub open spec fn on_tool_call(self, tc: ToolCallView, now: i64) -> StepResult {
        let over = self.reasoning_over(now);
        StepResult {
            state: StreamView {
                tool_calls: Some(
                    match self.tool_calls {
                        Some(calls) => calls.push(tc),
                        None => seq![tc],
                    },
                ),
                ..over
            },
            actions: seq![ActionView::NotifyNewData],
            next: StreamNext::Continue,
        }
    }

    /// The argument text of an index with one more piece.
    pub open spec fn extended(self, index: u64, piece: Seq<char>) -> Seq<char> {
        if self.buffers.contains_key(index) {
            self.buffers[index] + piece
        } else {
            piece
        }
    }

    /// Pieces are joined until they are complete JSON; what comes after that
    /// is a stale duplicate.
    pub open spec fn on_chunk(self, index: u64, piece: Seq<char>) -> StepResult {
        let text = self.extended(index, piece);
        StepResult {
            state: if self.complete.contains(index) {
                self
            } else {
                StreamView {
                    buffers: self.buffers.insert(index, text),
                    complete: if parsed_json(text) is Ok {
                        self.complete.insert(index)
                    } else {
                        self.complete
                    },
                    ..self
                }
            },
            actions: Seq::empty(),
            next: StreamNext::Continue,
        }
    }

    /// What streamed in is preferred to what the closing event repeats, but
    /// for tool calls, which only the closing event has complete.
    pub open spec fn on_finished(self, resp: ChatResponseView, now: i64) -> StepResult {
        StepResult {
            state: StreamView {
                content: if self.content.len() == 0 {
                    resp.content
                } else {
                    self.content
                },
                reasoning: if self.reasoning.len() > 0 {
                    self.reasoning
                } else {
                    match resp.reasoning_content {
                        Some(r) => r,
                        None => Seq::empty(),
                    }
                },
                tool_calls: if resp.tool_calls is Some {
                    resp.tool_calls
                } else {
                    self.tool_calls
                },
                usage: resp.usage,
                finish_reason: if resp.finish_reason is Some {
                    resp.finish_reason
                } else {
                    self.finish_reason
                },
                finished_at: if self.in_progress {
                    Some(now)
                } else {
                    self.finished_at
                },
                ..self
            },
            actions: seq![ActionView::ForceFlushDelta, ActionView::FlushLine],
            next: StreamNext::Complete,
        }
    }

    /// The response is stopped with what there is.
    pub open spec fn stopped(self, pause: bool) -> StepResult {
        let rest = seq![ActionView::FlushLine, ActionView::EmitStopped(self.content)];
        StepResult {
            state: self,
            actions: if pause {
                seq![ActionView::RememberPause] + rest
            } else {
                rest
            },
            next: StreamNext::Stopped,
        }
    }

    pub open spec fn unchanged(self, next: StreamNext) -> StepResult {
        StepResult { state: self, actions: Seq::empty(), next }
    }

    /// One event. `control` is the control signal polled when it arrived:
    /// stop and pause go before the event.
    pub open spec fn step(
        self,
        input: InputView,
        control: ControlDecision,
        now: i64,
        retry_on_overflow: bool,
    ) -> StepResult {
        match input {
            InputView::End => self.unchanged(StreamNext::Complete),
            InputView::Cancelled(c) => self.stopped(c == ControlDecision::Pause),
            InputView::Idle(c) => if c == ControlDecision::Continue {
                self.unchanged(StreamNext::Continue)
            } else {
                self.stopped(c == ControlDecision::Pause)
            },
            _ => if control != ControlDecision::Continue {
                self.stopped(control == ControlDecision::Pause)
            } else {
                match input {
                    InputView::Content(s) => self.on_content(s, now),
                    InputView::ReasoningContent(s) => self.on_reasoning(s, now),
                    InputView::ToolCallStart(tc) => self.on_tool_call(tc, now),
                    InputView::ToolCallChunk { index, arguments } => self.on_chunk(
                        index,
                        arguments,
                    ),
                    InputView::Finished(r) => self.on_finished(r, now),
                    InputView::Error { overflow } => StepResult {
                        state: self,
                        actions: seq![ActionView::FlushLine],
                        next: if retry_on_overflow && overflow {
                            StreamNext::CompactAndRetry
                        } else {
                            StreamNext::Fail
                        },
                    },
                    _ => self.unchanged(StreamNext::Continue),
                }
            },
        }
    }

    /// The call at index `i` has no arguments of its own, but some were
    /// streamed for it.
    pub open spec fn needs_arguments(self, i: int) -> bool {
        &&& self.tool_calls is Some
        &&& 0 <= i < self.tool_calls->0.len()
        &&& i <= u64::MAX
        &&& self.buffers.contains_key(i as u64)
        &&& (self.tool_calls->0[i].arguments.len() == 0 || self.tool_calls->0[i].arguments
            == "{}"@)
    }

    /// The tool calls, each that needs arguments with those given for it.
    pub open spec fn with_arguments(self, resolved: Seq<Option<Seq<char>>>) -> Option<
        Seq<ToolCallView>,
    > {
        match self.tool_calls {
            None => None,
            Some(calls) => Some(
                Seq::new(
                    calls.len(),
                    |i: int|
                        if self.needs_arguments(i) && i < resolved.len() && resolved[i] is Some {
                            ToolCallView { arguments: resolved[i]->0, ..calls[i] }
                        } else {
                            calls[i]
                        },
                ),
            ),
        }
    }

    /// The complete response.
    pub open spec fn response(self, resolved: Seq<Option<Seq<char>>>) -> ChatResponseView {
        ChatResponseView {
            content: self.content,
            reasoning_content: if self.reasoning.len() == 0 {
                None
            } else {
                Some(self.reasoning)
            },
            tool_calls: self.with_arguments(resolved),
            usage: self.usage,
            reasoning_started_at: self.started_at,
            reasoning_finished_at: self.finished_at,
            finish_reason: self.finish_reason,
        }
    }
}

/// The response of a stopped stream: what there is of the text, and nothing
/// of the tool calls.
pub open spec fn stopped_response(content: Seq<char>, reasoning: Seq<char>) -> ChatResponseView {
    ChatResponseView {
        content,
        reasoning_content: if reasoning.len() == 0 {
            None
        } else {
            Some(reasoning)
        },
        tool_calls: None,
        usage: None,
        reasoning_started_at: None,
        reasoning_finished_at: None,
        finish_reason: Some("stopped"@),
    }
}

/// Build a partial response for stream stop.
pub fn build_stopped_response(content: String, reasoning_content: String) -> (r: ChatResponse)
    ensures
        r.deep_view() == stopped_response(content@, reasoning_content@),
{
    ChatResponse {
        content,
        reasoning_content: if reasoning_content.as_str().is_empty() {
            None
        } else {
            Some(reasoning_content)
        },
        tool_calls: None,
        usage: None,
        reasoning_started_at: None,
        reasoning_finished_at: None,
        finish_reason: Some("stopped".to_owned()),
    }
}

// ── Executable assembly ─────────────────────────────────────────────────

proof fn lemma_buffer_map(entries: Seq<(u64, String)>)
    requires
        distinct_indices(entries),
    ensures
        forall|k: u64| #[trigger]
            buffer_map(entries).contains_key(k) <==> exists|i: int|
                0 <= i < entries.len() && (#[trigger] entries[i]).0 == k,
        forall|i: int|
            0 <= i < entries.len() ==> buffer_map(entries).contains_key((#[trigger] entries[i]).0)
                && buffer_map(entries)[entries[i].0] == entries[i].1@,
    decreases entries.len(),
{
    if entries.len() > 0 {
        let before = entries.drop_last();
        let n = entries.len() - 1;
        assert forall|i: int, j: int| 0 <= i < j < before.len() implies (#[trigger] before[i]).0 != (
        #[trigger] before[j]).0 by {
            assert(entries[i].0 != entries[j].0);
        }
        lemma_buffer_map(before);
        assert forall|k: u64| #[trigger] buffer_map(entries).contains_key(k) implies exists|i: int|
            0 <= i < entries.len() && (#[trigger] entries[i]).0 == k by {
            if k == entries[n].0 {
                assert(entries[n].0 == k);
            } else {
                assert(buffer_map(before).contains_key(k));
                let i = choose|i: int| 0 <= i < before.len() && (#[trigger] before[i]).0 == k;
                assert(entries[i].0 == k);
            }
        }
        assert forall|i: int| 0 <= i < entries.len() implies buffer_map(entries).contains_key(
            (#[trigger] entries[i]).0,
        ) && buffer_map(entries)[entries[i].0] == entries[i].1@ by {
            if i < n {
                assert(before[i] == entries[i]);
                assert(entries[i].0 != entries[n].0);
            }
        }
    }
}

/// The position of `index` among the argument texts.
fn buffer_position(buffers: &Vec<(u64, String)>, index: u64) -> (r: Option<usize>)
    requires
        distinct_indices(buffers@),
    ensures
        match r {
            Some(i) => i < buffers.len() && buffers@[i as int].0 == index && buffer_map(
                buffers@,
            ).contains_key(index) && buffer_map(buffers@)[index] == buffers@[i as int].1@,
            None => !buffer_map(buffers@).contains_key(index) && forall|j: int|
                0 <= j < buffers.len() ==> (#[trigger] buffers@[j]).0 != index,
        },
{
    proof {
        lemma_buffer_map(buffers@);
    }
    let mut i: usize = 0;
    while i < buffers.len()
        invariant
            i <= buffers.len(),
            distinct_indices(buffers@),
            forall|j: int| 0 <= j < i ==> (#[trigger] buffers@[j]).0 != index,
        decreases buffers.len() - i,
    {
        if buffers[i].0 == index {
            proof {
                lemma_buffer_map(buffers@);
            }
            return Some(i);
        }
        i = i + 1;
    }
    None
}

fn has_index(list: &Vec<u64>, index: u64) -> (r: bool)
    ensures
        r == list@.to_set().contains(index),
{
    let mut i: usize = 0;
    while i < list.len()
        invariant
            i <= list.len(),
            forall|j: int| 0 <= j < i ==> list@[j] != index,
        decreases list.len() - i,
    {
        if list[i] == index {
            assert(list@.contains(index));
            return true;
        }
        i = i + 1;
    }
    assert(!list@.contains(index));
    false
}

/// What the caller learns from one event.
#[derive(Debug)]
pub struct StreamStep {
    pub actions: Vec<StreamAction>,
    pub next: StreamNext,
}

impl StreamState {
    #[verifier::type_invariant]
    closed spec fn wf(self) -> bool {
        distinct_indices(self.buffers@)
    }

    /// An empty response.
    pub fn new() -> (r: Self)
        ensures
            r.deep_view() == StreamView::start(),
    {
        let r = StreamState {
            content: String::new(),
            reasoning: String::new(),
            tool_calls: None,
            usage: None,
            finish_reason: None,
            started_at: None,
            finished_at: None,
            in_progress: false,
            buffers: Vec::new(),
            complete: Vec::new(),
        };
        assert(r.complete@.to_set() =~= Set::empty());
        r
    }

    fn end_reasoning(&mut self, now: i64)
        ensures
            final(self).deep_view() == old(self).deep_view().reasoning_over(now),
    {
        proof {
            use_type_invariant(&*self);
        }
        if self.in_progress {
            self.finished_at = Some(now);
            self.in_progress = false;
        }
    }

    fn on_content(&mut self, chunk: String, now: i64) -> (r: StreamStep)
        ensures
            ({
                let s = old(self).deep_view().on_content(chunk@, now);
                &&& final(self).deep_view() == s.state
                &&& r.actions.deep_view() == s.actions
                &&& r.next == s.next
            }),
    {
        let mut actions: Vec<StreamAction> = Vec::new();
        if self.content.as_str().is_empty() {
            actions.push(StreamAction::ShowReplying);
        }
        self.end_reasoning(now);
        proof {
            use_type_invariant(&*self);
        }
        let mut content = self.content.clone();
        content.append(chunk.as_str());
        self.content = content;
        actions.push(StreamAction::SwitchLine(LineRole::Assistant));
        actions.push(StreamAction::AppendDelta { role: LineRole::Assistant, text: chunk });
        actions.push(StreamAction::NotifyNewData);
        assert(actions.deep_view() =~= old(self).deep_view().on_content(chunk@, now).actions);
        StreamStep { actions, next: StreamNext::Continue }
    }

    fn on_reasoning(&mut self, chunk: String, now: i64) -> (r: StreamStep)
        ensures
            ({
                let s = old(self).deep_view().on_reasoning(chunk@, now);
                &&& final(self).deep_view() == s.state
                &&& r.actions.deep_view() == s.actions
                &&& r.next == s.next
            }),
    {
        let mut actions: Vec<StreamAction> = Vec::new();
        proof {
            use_type_invariant(&*self);
        }
        if self.started_at.is_none() {
            self.started_at = Some(now);
            actions.push(StreamAction::ShowThinking);
        }
        self.in_progress = true;
        let mut reasoning = self.reasoning.clone();
        reasoning.append(chunk.as_str());
        self.reasoning = reasoning;
        actions.push(StreamAction::SwitchLine(LineRole::Thought));
        actions.push(StreamAction::AppendDelta { role: LineRole::Thought, text: chunk });
        actions.push(StreamAction::NotifyNewData);
        assert(actions.deep_view() =~= old(self).deep_view().on_reasoning(chunk@, now).actions);
        StreamStep { actions, next: StreamNext::Continue }
    }

    fn on_tool_call(&mut self, tc: ToolCall, now: i64) -> (r: StreamStep)
        ensures
            ({
                let s = old(self).deep_view().on_tool_call(tc.deep_view(), now);
                &&& final(self).deep_view() == s.state
                &&& r.actions.deep_view() == s.actions
                &&& r.next == s.next
            }),
    {
        self.end_reasoning(now);
        proof {
            use_type_invariant(&*self);
        }
        let mut taken: Option<Vec<ToolCall>> = None;
        std::mem::swap(&mut taken, &mut self.tool_calls);
        let mut calls: Vec<ToolCall> = match taken {
            Some(calls) => calls,
            None => Vec::new(),
        };
        let ghost before = calls.deep_view();
        calls.push(tc);
        assert(calls.deep_view() =~= before.push(tc.deep_view()));
        assert(calls.deep_view() =~= old(self).deep_view().on_tool_call(
            tc.deep_view(),
            now,
        ).state.tool_calls->0);
        self.tool_calls = Some(calls);
        let mut actions: Vec<StreamAction> = Vec::new();
        actions.push(StreamAction::NotifyNewData);
        assert(actions.deep_view() =~= seq![ActionView::NotifyNewData]);
        StreamStep { actions, next: StreamNext::Continue }
    }

    fn on_chunk(&mut self, index: u64, piece: String) -> (r: StreamStep)
        ensures
            ({
                let s = old(self).deep_view().on_chunk(index, piece@);
                &&& final(self).deep_view() == s.state
                &&& r.actions.deep_view() == s.actions
                &&& r.next == s.next
            }),
    {
        let actions: Vec<StreamAction> = Vec::new();
        assert(actions.deep_view() =~= Seq::empty());
        let step = StreamStep { actions, next: StreamNext::Continue };
        if has_index(&self.complete, index) {
            return step;
        }
        proof {
            use_type_invariant(&*self);
            lemma_buffer_map(self.buffers@);
        }
        let ghost before = self.buffers@;
        let ghost text_spec = self.deep_view().extended(index, piece@);
        let at = buffer_position(&self.buffers, index);
        let text: String = match at {
            Some(i) => crate::text::join2(self.buffers[i].1.as_str(), piece.as_str()),
            None => piece,
        };
        assert(text@ == text_spec);
        let is_complete = parse_json(text.as_str()).is_ok();
        let mut buffers: Vec<(u64, String)> = Vec::new();
        std::mem::swap(&mut buffers, &mut self.buffers);
        match at {
            Some(i) => {
                let _gone = buffers.remove(i);
                buffers.insert(i, (index, text));
                proof {
                    let after = buffers@;
                    assert(after =~= before.update(i as int, (index, text)));
                    assert forall|a: int, b: int| 0 <= a < b < after.len() implies (
                    #[trigger] after[a]).0 != (#[trigger] after[b]).0 by {
                        assert(before[a].0 != before[b].0);
                    }
                    lemma_buffer_map(after);
                    assert forall|k: u64| #[trigger]
                        buffer_map(after).contains_key(k) == buffer_map(before).insert(
                            index,
                            text_spec,
                        ).contains_key(k) by {
                        if buffer_map(after).contains_key(k) {
                            let j = choose|j: int|
                                0 <= j < after.len() && (#[trigger] after[j]).0 == k;
                            assert(before[j].0 == k);
                        }
                        if buffer_map(before).contains_key(k) {
                            let j = choose|j: int|
                                0 <= j < before.len() && (#[trigger] before[j]).0 == k;
                            assert(after[j].0 == k);
                        }
                        assert(after[i as int].0 == index);
                    }
                    assert forall|k: u64| #[trigger]
                        buffer_map(after).contains_key(k) implies buffer_map(after)[k]
                        == buffer_map(before).insert(index, text_spec)[k] by {
                        let j = choose|j: int|
                            0 <= j < after.len() && (#[trigger] after[j]).0 == k;
                        if j != i {
                            assert(before[j] == after[j]);
                            assert(after[i as int].0 == index);
                        }
                    }
                    assert(buffer_map(after) =~= buffer_map(before).insert(index, text_spec));
                }
            },
            None => {
                buffers.push((index, text));
                proof {
                    let after = buffers@;
                    assert(after.drop_last() =~= before);
                    assert forall|a: int, b: int| 0 <= a < b < after.len() implies (
                    #[trigger] after[a]).0 != (#[trigger] after[b]).0 by {
                        assert(before[a] == after[a]);
                        if b < before.len() {
                            assert(before[b] == after[b]);
                        }
                    }
                }
            },
        }
        self.buffers = buffers;
        if is_complete {
            let mut complete: Vec<u64> = Vec::new();
            std::mem::swap(&mut complete, &mut self.complete);
            let ghost complete_before = complete@;
            complete.push(index);
            assert(complete@.to_set() =~= complete_before.to_set().insert(index)) by {
                assert forall|k: u64| complete@.to_set().contains(k)
                    == complete_before.to_set().insert(index).contains(k) by {
                    if complete_before.contains(k) {
                        let j = choose|j: int|
                            0 <= j < complete_before.len() && complete_before[j] == k;
                        assert(complete@[j] == k);
                    }
                    assert(complete@[complete@.len() - 1] == index);
                }
            }
            self.complete = complete;
        }
        step
    }

    fn on_finished(&mut self, resp: ChatResponse, now: i64) -> (r: StreamStep)
        ensures
            ({
                let s = old(self).deep_view().on_finished(resp.deep_view(), now);
                &&& final(self).deep_view() == s.state
                &&& r.actions.deep_view() == s.actions
                &&& r.next == s.next
            }),
    {
        proof {
            use_type_invariant(&*self);
        }
        if self.in_progress {
            self.finished_at = Some(now);
        }
        if resp.finish_reason.is_some() {
            self.finish_reason = resp.finish_reason;
        }
        if self.content.as_str().is_empty() {
            self.content = resp.content;
        }
        if self.reasoning.as_str().is_empty() {
            self.reasoning = match resp.reasoning_content {
                Some(r) => r,
                None => String::new(),
            };
        }
        if resp.tool_calls.is_some() {
            self.tool_calls = resp.tool_calls;
        }
        self.usage = resp.usage;
        let mut actions: Vec<StreamAction> = Vec::new();
        actions.push(StreamAction::ForceFlushDelta);
        actions.push(StreamAction::FlushLine);
        assert(actions.deep_view() =~= seq![ActionView::ForceFlushDelta, ActionView::FlushLine]);
        StreamStep { actions, next: StreamNext::Complete }
    }

    fn stopped(&self, pause: bool) -> (r: StreamStep)
        ensures
            ({
                let s = self.deep_view().stopped(pause);
                &&& r.actions.deep_view() == s.actions
                &&& r.next == s.next
            }),
    {
        let mut actions: Vec<StreamAction> = Vec::new();
        if pause {
            actions.push(StreamAction::RememberPause);
        }
        actions.push(StreamAction::FlushLine);
        actions.push(StreamAction::EmitStopped(self.content.clone()));
        assert(actions.deep_view() =~= self.deep_view().stopped(pause).actions);
        StreamStep { actions, next: StreamNext::Stopped }
    }

    /// Takes in one event. `control` is the control signal polled when it
    /// arrived, `now` the time in milliseconds; `retry_on_overflow` says
    /// whether a request that does not fit may be compacted and sent again.
    pub fn step(
        &mut self,
        input: StreamInput,
        control: ControlDecision,
        now: i64,
        retry_on_overflow: bool,
    ) -> (r: StreamStep)
        ensures
            ({
                let s = old(self).deep_view().step(
                    input.deep_view(),
                    control,
                    now,
                    retry_on_overflow,
                );
                &&& final(self).deep_view() == s.state
                &&& r.actions.deep_view() == s.actions
                &&& r.next == s.next
            }),
    {
        let nothing: Vec<StreamAction> = Vec::new();
        assert(nothing.deep_view() =~= Seq::empty());
        match input {
            StreamInput::End => StreamStep { actions: nothing, next: StreamNext::Complete },
            StreamInput::Cancelled(c) => self.stopped(c == ControlDecision::Pause),
            StreamInput::Idle(c) => if c == ControlDecision::Continue {
                StreamStep { actions: nothing, next: StreamNext::Continue }
            } else {
                self.stopped(c == ControlDecision::Pause)
            },
            other => {
                if control != ControlDecision::Continue {
                    return self.stopped(control == ControlDecision::Pause);
                }
                match other {
                    StreamInput::Content(s) => self.on_content(s, now),
                    StreamInput::ReasoningContent(s) => self.on_reasoning(s, now),
                    StreamInput::ToolCallStart(tc) => self.on_tool_call(tc, now),
                    StreamInput::ToolCallChunk { index, arguments } => self.on_chunk(
                        index,
                        arguments,
                    ),
                    StreamInput::Finished(resp) => self.on_finished(resp, now),
                    StreamInput::Error { overflow } => {
                        let mut actions: Vec<StreamAction> = Vec::new();
                        actions.push(StreamAction::FlushLine);
                        assert(actions.deep_view() =~= seq![ActionView::FlushLine]);
                        let next = if retry_on_overflow && overflow {
                            StreamNext::CompactAndRetry
                        } else {
                            StreamNext::Fail
                        };
                        StreamStep { actions, next }
                    },
                    _ => StreamStep { actions: nothing, next: StreamNext::Continue },
                }
            },
        }
    }

    /// An event was taken in at `now`.
    pub open spec fn stepped(
        before: StreamView,
        input: InputView,
        control: ControlDecision,
        now: i64,
        retry_on_overflow: bool,
        after: StreamView,
        r: StreamStep,
    ) -> bool {
        let s = before.step(input, control, now, retry_on_overflow);
        &&& after == s.state
        &&& r.actions.deep_view() == s.actions
        &&& r.next == s.next
    }

    /// Takes in one event at this moment. The other parameters are those of
    /// [`StreamState::step`].
    pub fn step_now(
        &mut self,
        input: StreamInput,
        control: ControlDecision,
        retry_on_overflow: bool,
    ) -> (r: StreamStep)
        ensures
            exists|now: i64| #[trigger]
                Self::stepped(
                    old(self).deep_view(),
                    input.deep_view(),
                    control,
                    now,
                    retry_on_overflow,
                    final(self).deep_view(),
                    r,
                ),
    {
        let now: i64 = now_millis();
        let ghost before = self.deep_view();
        let r = self.step(input, control, now, retry_on_overflow);
        assert(Self::stepped(
            before,
            input.deep_view(),
            control,
            now,
            retry_on_overflow,
            self.deep_view(),
            r,
        ));
        r
    }

    /// The response of a stopped stream.
    pub fn into_stopped(self) -> (r: ChatResponse)
        ensures
            r.deep_view() == stopped_response(
                self.deep_view().content,
                self.deep_view().reasoning,
            ),
    {
        build_stopped_response(self.content.clone(), self.reasoning.clone())
    }

    /// The argument text that was streamed for the call at index `i`, where
    /// the call has none of its own.
    pub fn streamed_arguments(&self, i: usize) -> (r: Option<String>)
        ensures
            match r {
                Some(text) => self.deep_view().needs_arguments(i as int) && text@
                    == self.deep_view().buffers[i as u64],
                None => !self.deep_view().needs_arguments(i as int),
            },
    {
        match &self.tool_calls {
            Some(calls) => {
                if i >= calls.len() {
                    return None;
                }
                assert(self.deep_view().tool_calls->0[i as int] == calls@[i as int].deep_view());
                let own = calls[i].function.arguments.as_str();
                if !own.is_empty() && !same_text(own, "{}") {
                    return None;
                }
                proof {
                    use_type_invariant(self);
                }
                match buffer_position(&self.buffers, i as u64) {
                    Some(at) => Some(self.buffers[at].1.clone()),
                    None => None,
                }
            },
            None => None,
        }
    }

    /// The tool of the call at index `i`.
    pub fn tool_name(&self, i: usize) -> (r: Option<&str>)
        ensures
            match r {
                Some(name) => {
                    &&& self.deep_view().tool_calls matches Some(calls)
                    &&& i < calls.len()
                    &&& name@ == calls[i as int].name
                },
                None => self.deep_view().tool_calls matches Some(calls) ==> i >= calls.len(),
            },
    {
        match &self.tool_calls {
            Some(calls) => {
                if i >= calls.len() {
                    return None;
                }
                assert(self.deep_view().tool_calls->0[i as int] == calls@[i as int].deep_view());
                Some(calls[i].function.name.as_str())
            },
            None => None,
        }
    }

    /// The number of tool calls.
    pub fn tool_call_count(&self) -> (n: usize)
        ensures
            n == (match self.deep_view().tool_calls {
                Some(calls) => calls.len(),
                None => 0,
            }),
    {
        match &self.tool_calls {
            Some(calls) => calls.len(),
            None => 0,
        }
    }

    /// The complete response. `resolved` holds, for each tool call that needs
    /// them, the arguments made of what was streamed.
    pub fn into_response(self, resolved: &Vec<Option<String>>) -> (r: ChatResponse)
        ensures
            r.deep_view() == self.deep_view().response(resolved.deep_view()),
    {
        let tool_calls: Option<Vec<ToolCall>> = match &self.tool_calls {
            Some(calls) => {
                let ghost want = self.deep_view().with_arguments(resolved.deep_view())->0;
                let mut out: Vec<ToolCall> = Vec::new();
                let mut i: usize = 0;
                while i < calls.len()
                    invariant
                        i <= calls.len(),
                        out.len() == i,
                        self.tool_calls == Some(*calls),
                        want == self.deep_view().with_arguments(resolved.deep_view())->0,
                        forall|k: int| 0 <= k < i ==> (#[trigger] out@[k]).deep_view() == want[k],
                    decreases calls.len() - i,
                {
                    let mut call = calls[i].clone();
                    assert(self.deep_view().tool_calls->0[i as int]
                        == calls@[i as int].deep_view());
                    if self.streamed_arguments(i).is_some() && i < resolved.len() {
                        assert(resolved.deep_view()[i as int] == resolved@[i as int].deep_view());
                        if let Some(text) = &resolved[i] {
                            call.function.arguments = text.clone();
                        }
                    }
                    assert(call.deep_view() == want[i as int]);
                    out.push(call);
                    i = i + 1;
                }
                assert(out.deep_view() =~= want);
                Some(out)
            },
            None => None,
        };
        ChatResponse {
            content: self.content.clone(),
            reasoning_content: if self.reasoning.as_str().is_empty() {
                None
            } else {
                Some(self.reasoning.clone())
            },
            tool_calls,
            usage: self.usage,
            reasoning_started_at: self.started_at,
            reasoning_finished_at: self.finished_at,
            finish_reason: self.finish_reason.clone(),
        }
    }
}

// ── Streamed arguments ──────────────────────────────────────────────────

/// What was made of streamed argument text.
#[derive(Debug)]
pub enum ResolvedArgs {
    /// The text is JSON: this.
    Valid(String),
    /// The text holds JSON in the midst of prose: this.
    Recovered(String),
    /// The text is beyond recovery; `marker` tells the model so.
    Invalid { marker: String },
}

/// The arguments of a call, made of what was streamed for it: the document,
/// written anew, or the marker.
pub open spec fn argument_text(resolved: ResolvedArgs) -> Option<Seq<char>> {
    match resolved {
        ResolvedArgs::Valid(json) => rewritten(json@),
        ResolvedArgs::Recovered(json) => rewritten(json@),
        ResolvedArgs::Invalid { marker } => Some(marker@),
    }
}

/// The arguments of each call for which something was streamed.
pub open spec fn argument_texts(resolved: Seq<Option<ResolvedArgs>>) -> Seq<Option<Seq<char>>> {
    resolved.map_values(
        |r: Option<ResolvedArgs>|
            match r {
                Some(r) => argument_text(r),
                None => None,
            },
    )
}

impl StreamState {
    /// The complete response. `resolved` holds, for each tool call that needs
    /// arguments, what was made of the text that was streamed for it. A call
    /// for which there is no text keeps what it has.
    pub fn into_resolved_response(self, resolved: &Vec<Option<ResolvedArgs>>) -> (r: ChatResponse)
        ensures
            r.deep_view() == self.deep_view().response(argument_texts(resolved@)),
    {
        let ghost want = argument_texts(resolved@);
        let mut texts: Vec<Option<String>> = Vec::new();
        let mut i: usize = 0;
        while i < resolved.len()
            invariant
                i <= resolved.len(),
                texts.len() == i,
                want == argument_texts(resolved@),
                forall|k: int| 0 <= k < i ==> (#[trigger] texts@[k]).deep_view() == want[k],
            decreases resolved.len() - i,
        {
            let text: Option<String> = match &resolved[i] {
                Some(ResolvedArgs::Valid(json)) => rewrite_json(json.as_str()),
                Some(ResolvedArgs::Recovered(json)) => rewrite_json(json.as_str()),
                Some(ResolvedArgs::Invalid { marker }) => Some(marker.clone()),
                None => None,
            };
            assert(text.deep_view() == want[i as int]);
            texts.push(text);
            i = i + 1;
        }
        assert(texts.deep_view() =~= want);
        self.into_response(&texts)
    }
}

// ── The session while a response streams in ─────────────────────────────

/// The status that an action shows, where it shows one.
pub open spec fn shown_status(action: ActionView) -> Option<StatusView> {
    match action {
        ActionView::ShowReplying => Some(StatusView::LlmStreaming { message_id: None }),
        ActionView::ShowThinking => Some(StatusView::Thinking),
        _ => None,
    }
}

impl AgentLoop {
    /// Begins to take in a response: nothing of it is in the log yet.
    pub fn begin_stream(&mut self) -> (r: StreamState)
        ensures
            r.deep_view() == StreamView::start(),
            *final(self) == (AgentLoop {
                session_core: SessionCore {
                    streaming_flush_count: 0,
                    ..old(self).session_core
                },
                ..*old(self)
            }),
    {
        self.session_core.streaming_flush_count = 0;
        StreamState::new()
    }

    /// Shows how a response comes along: the status that an action asks for is
    /// taken on. Whether the action was one of those; the others are the
    /// host's.
    pub fn show_stream_action(&mut self, action: &StreamAction) -> (shown: bool)
        ensures
            shown == (shown_status(action.deep_view()) is Some),
            match shown_status(action.deep_view()) {
                Some(s) => {
                    &&& final(self).session.status.deep_view() == s
                    &&& final(self).session_core.outbox.deep_view() == (if old(
                        self,
                    ).session.status.deep_view() == s {
                        old(self).session_core.outbox.deep_view()
                    } else {
                        old(self).session_core.outbox.deep_view().push(ChunkView::SessionState)
                    })
                },
                None => *final(self) == *old(self),
            },
            *final(self) == (AgentLoop {
                session: SessionState { status: final(self).session.status, ..old(self).session },
                session_core: SessionCore {
                    outbox: final(self).session_core.outbox,
                    ..old(self).session_core
                },
                ..*old(self)
            }),
    {
        match action {
            StreamAction::ShowReplying => {
                let _ = self.transition_status(SessionStatus::LlmStreaming { message_id: None });
                true
            },
            StreamAction::ShowThinking => {
                let _ = self.transition_status(SessionStatus::Thinking);
                true
            },
            _ => false,
        }
    }
}

/// Whether a request that did not fit is sent again: only a history that the
/// compaction made smaller is worth another attempt.
pub fn retry_after_compaction(tokens_before: u64, tokens_after: u64) -> (r: bool)
    ensures
        r == (tokens_after < tokens_before),
{
    tokens_after < tokens_before
}

// ── Laws ────────────────────────────────────────────────────────────────

/// An event with the moment it arrived.
pub struct TimedInput {
    pub input: InputView,
    pub now: i64,
}

/// The state after a series of events without control signals.
pub open spec fn run_stream(events: Seq<TimedInput>, retry: bool) -> StreamView
    decreases events.len(),
{
    if events.len() == 0 {
        StreamView::start()
    } else {
        run_stream(events.drop_last(), retry).step(
            events.last().input,
            ControlDecision::Continue,
            events.last().now,
            retry,
        ).state
    }
}

/// The pieces of the answer, joined.
pub open spec fn joined_content(events: Seq<TimedInput>) -> Seq<char>
    decreases events.len(),
{
    if events.len() == 0 {
        Seq::empty()
    } else {
        match events.last().input {
            InputView::Content(s) => joined_content(events.drop_last()) + s,
            _ => joined_content(events.drop_last()),
        }
    }
}

/// The pieces of the reasoning, joined.
pub open spec fn joined_reasoning(events: Seq<TimedInput>) -> Seq<char>
    decreases events.len(),
{
    if events.len() == 0 {
        Seq::empty()
    } else {
        match events.last().input {
            InputView::ReasoningContent(s) => joined_reasoning(events.drop_last()) + s,
            _ => joined_reasoning(events.drop_last()),
        }
    }
}

/// Nothing of the answer is lost, repeated or reordered: until the closing
/// event, the text is the pieces in the order in which they came, and the
/// reasoning likewise, each apart from the other.
pub proof fn streamed_text_is_the_pieces(events: Seq<TimedInput>, retry: bool)
    requires
        forall|i: int| 0 <= i < events.len() ==> !((#[trigger] events[i]).input is Finished),
    ensures
        run_stream(events, retry).content == joined_content(events),
        run_stream(events, retry).reasoning == joined_reasoning(events),
    decreases events.len(),
{
    if events.len() > 0 {
        let before = events.drop_last();
        assert forall|i: int| 0 <= i < before.len() implies !((#[trigger] before[i]).input
            is Finished) by {
            assert(events[i] == before[i]);
        }
        streamed_text_is_the_pieces(before, retry);
        assert(!(events[events.len() - 1].input is Finished));
    }
}

/// The text that some actions put on a line of a role.
pub open spec fn shown_by(actions: Seq<ActionView>, role: LineRole) -> Seq<char>
    decreases actions.len(),
{
    if actions.len() == 0 {
        Seq::empty()
    } else {
        let before = shown_by(actions.drop_last(), role);
        match actions.last() {
            ActionView::AppendDelta { role: of, text } => if of == role {
                before + text
            } else {
                before
            },
            _ => before,
        }
    }
}

/// The text that a series of events without control signals put on lines of a
/// role.
pub open spec fn shown_text(events: Seq<TimedInput>, retry: bool, role: LineRole) -> Seq<char>
    decreases events.len(),
{
    if events.len() == 0 {
        Seq::empty()
    } else {
        let step = run_stream(events.drop_last(), retry).step(
            events.last().input,
            ControlDecision::Continue,
            events.last().now,
            retry,
        );
        shown_text(events.drop_last(), retry, role) + shown_by(step.actions, role)
    }
}

/// One action that is no delta shows nothing.
proof fn lemma_shown_push(actions: Seq<ActionView>, a: ActionView, role: LineRole)
    ensures
        shown_by(actions.push(a), role) == (match a {
            ActionView::AppendDelta { role: of, text } => if of == role {
                shown_by(actions, role) + text
            } else {
                shown_by(actions, role)
            },
            _ => shown_by(actions, role),
        }),
{
    assert(actions.push(a).drop_last() =~= actions);
}

/// What a step shows: a piece of the answer or of the reasoning, on a line of
/// its own role.
proof fn lemma_shown_by_step(s: StreamView, input: InputView, now: i64, retry: bool, role: LineRole)
    requires
        !(input is Finished),
    ensures
        shown_by(s.step(input, ControlDecision::Continue, now, retry).actions, role) == (match input {
            InputView::Content(text) => if role == LineRole::Assistant {
                text
            } else {
                Seq::empty()
            },
            InputView::ReasoningContent(text) => if role == LineRole::Thought {
                text
            } else {
                Seq::empty()
            },
            _ => Seq::empty(),
        }),
{
    let none = Seq::<ActionView>::empty();
    let actions = s.step(input, ControlDecision::Continue, now, retry).actions;
    match input {
        InputView::Content(text) => {
            let first = if s.content.len() == 0 {
                none.push(ActionView::ShowReplying)
            } else {
                none
            };
            let switched = first.push(ActionView::SwitchLine(LineRole::Assistant));
            let delta = ActionView::AppendDelta { role: LineRole::Assistant, text };
            lemma_shown_push(none, ActionView::ShowReplying, role);
            lemma_shown_push(first, ActionView::SwitchLine(LineRole::Assistant), role);
            lemma_shown_push(switched, delta, role);
            lemma_shown_push(switched.push(delta), ActionView::NotifyNewData, role);
            assert(actions =~= switched.push(delta).push(ActionView::NotifyNewData));
            assert(Seq::<char>::empty() + text =~= text);
        },
        InputView::ReasoningContent(text) => {
            let first = if s.started_at is None {
                none.push(ActionView::ShowThinking)
            } else {
                none
            };
            let switched = first.push(ActionView::SwitchLine(LineRole::Thought));
            let delta = ActionView::AppendDelta { role: LineRole::Thought, text };
            lemma_shown_push(none, ActionView::ShowThinking, role);
            lemma_shown_push(first, ActionView::SwitchLine(LineRole::Thought), role);
            lemma_shown_push(switched, delta, role);
            lemma_shown_push(switched.push(delta), ActionView::NotifyNewData, role);
            assert(actions =~= switched.push(delta).push(ActionView::NotifyNewData));
            assert(Seq::<char>::empty() + text =~= text);
        },
        _ => {
            reveal_with_fuel(shown_by, 5);
        },
    }
}

/// The user sees what the model said: until the closing event, the text shown
/// on the lines of the answer is the answer so far, and that on the lines of
/// thought is the reasoning so far.
pub proof fn shown_text_is_the_response(events: Seq<TimedInput>, retry: bool)
    requires
        forall|i: int| 0 <= i < events.len() ==> !((#[trigger] events[i]).input is Finished),
    ensures
        shown_text(events, retry, LineRole::Assistant) == run_stream(events, retry).content,
        shown_text(events, retry, LineRole::Thought) == run_stream(events, retry).reasoning,
    decreases events.len(),
{
    if events.len() > 0 {
        let before = events.drop_last();
        assert forall|i: int| 0 <= i < before.len() implies !((#[trigger] before[i]).input
            is Finished) by {
            assert(events[i] == before[i]);
        }
        shown_text_is_the_response(before, retry);
        let last = events[events.len() - 1];
        let s = run_stream(before, retry);
        lemma_shown_by_step(s, last.input, last.now, retry, LineRole::Assistant);
        lemma_shown_by_step(s, last.input, last.now, retry, LineRole::Thought);
        assert(s.content + Seq::<char>::empty() =~= s.content);
        assert(s.reasoning + Seq::<char>::empty() =~= s.reasoning);
    }
}

/// The closing event never replaces text that streamed in.
pub proof fn streamed_text_is_preferred(s: StreamView, resp: ChatResponseView, now: i64)
    ensures
        s.content.len() > 0 ==> s.on_finished(resp, now).state.content == s.content,
        s.reasoning.len() > 0 ==> s.on_finished(resp, now).state.reasoning == s.reasoning,
        s.content.len() == 0 ==> s.on_finished(resp, now).state.content == resp.content,
{
}

/// Argument text that is marked complete is JSON.
pub open spec fn complete_arguments_parse(s: StreamView) -> bool {
    forall|i: u64| #[trigger]
        s.complete.contains(i) ==> s.buffers.contains_key(i) && parsed_json(s.buffers[i]) is Ok
}

/// Whatever arrives, argument text that became complete JSON stays as it is:
/// later pieces for the same call are discarded.
pub proof fn complete_arguments_are_frozen(
    s: StreamView,
    input: InputView,
    control: ControlDecision,
    now: i64,
    retry: bool,
)
    requires
        complete_arguments_parse(s),
    ensures
        ({
            let after = s.step(input, control, now, retry).state;
            &&& complete_arguments_parse(after)
            &&& forall|i: u64| #[trigger]
                s.complete.contains(i) ==> after.complete.contains(i) && after.buffers[i]
                    == s.buffers[i]
        }),
{
}

/// No response starts with arguments marked complete.
pub proof fn nothing_is_complete_at_the_start()
    ensures
        complete_arguments_parse(StreamView::start()),
{
}

/// A stopped response keeps the text so far and drops every tool call, so that
/// nothing runs on arguments that may be cut off.
pub proof fn stopping_drops_tool_calls(
    s: StreamView,
    input: InputView,
    control: ControlDecision,
    now: i64,
    retry: bool,
)
    requires
        s.step(input, control, now, retry).next == StreamNext::Stopped,
    ensures
        ({
            let step = s.step(input, control, now, retry);
            let resp = stopped_response(step.state.content, step.state.reasoning);
            &&& step.state == s
            &&& resp.content == s.content
            &&& resp.tool_calls is None
            &&& step.actions.last() == ActionView::EmitStopped(s.content)
        }),
{
}

/// A stop or a pause is honoured at every event, before the event itself,
/// except where the stream has ended anyway.
pub proof fn stop_is_always_honoured(
    s: StreamView,
    input: InputView,
    control: ControlDecision,
    now: i64,
    retry: bool,
)
    requires
        control != ControlDecision::Continue,
        !(input is End),
        !(input is Idle),
    ensures
        s.step(input, control, now, retry).next == StreamNext::Stopped,
{
}

/// The tool calls that began, in the order in which they came.
pub open spec fn begun_calls(events: Seq<TimedInput>) -> Seq<ToolCallView>
    decreases events.len(),
{
    if events.len() == 0 {
        Seq::empty()
    } else {
        match events.last().input {
            InputView::ToolCallStart(tc) => begun_calls(events.drop_last()).push(tc),
            _ => begun_calls(events.drop_last()),
        }
    }
}

/// No tool call is lost or reordered: until the closing event, the tool calls
/// are those that began, in their order, each as it began.
pub proof fn streamed_calls_are_those_begun(events: Seq<TimedInput>, retry: bool)
    requires
        forall|i: int| 0 <= i < events.len() ==> !((#[trigger] events[i]).input is Finished),
    ensures
        match run_stream(events, retry).tool_calls {
            Some(calls) => calls == begun_calls(events) && calls.len() > 0,
            None => begun_calls(events).len() == 0,
        },
    decreases events.len(),
{
    if events.len() > 0 {
        let before = events.drop_last();
        assert forall|i: int| 0 <= i < before.len() implies !((#[trigger] before[i]).input
            is Finished) by {
            assert(events[i] == before[i]);
        }
        streamed_calls_are_those_begun(before, retry);
        let last = events[events.len() - 1];
        if last.input is ToolCallStart && run_stream(before, retry).tool_calls is None {
            assert(begun_calls(events) =~= seq![last.input->ToolCallStart_0]);
        }
    }
}

/// The tool calls of a finished response are those of the closing event, which
/// has them complete; where it has none, those that began. So are its words,
/// its reasoning and its reason to end, but the other way round: what streamed
/// in goes first. The usage is that of the closing event.
pub proof fn closing_event_completes_the_response(
    events: Seq<TimedInput>,
    resp: ChatResponseView,
    now: i64,
    retry: bool,
)
    requires
        forall|i: int| 0 <= i < events.len() ==> !((#[trigger] events[i]).input is Finished),
    ensures
        ({
            let step = run_stream(events, retry).step(
                InputView::Finished(resp),
                ControlDecision::Continue,
                now,
                retry,
            );
            let done = step.state;
            &&& step.next == StreamNext::Complete
            &&& resp.tool_calls matches Some(calls) ==> done.tool_calls == Some(calls)
            &&& resp.tool_calls is None && begun_calls(events).len() > 0 ==> done.tool_calls
                == Some(begun_calls(events))
            &&& resp.tool_calls is None && begun_calls(events).len() == 0 ==> done.tool_calls
                is None
            &&& joined_content(events).len() > 0 ==> done.content == joined_content(events)
            &&& joined_content(events).len() == 0 ==> done.content == resp.content
            &&& joined_reasoning(events).len() > 0 ==> done.reasoning == joined_reasoning(events)
            &&& joined_reasoning(events).len() == 0 ==> match resp.reasoning_content {
                Some(thought) => done.reasoning == thought,
                None => done.reasoning.len() == 0,
            }
            &&& done.usage == resp.usage
            &&& done.finish_reason == resp.finish_reason
            &&& done.buffers == run_stream(events, retry).buffers
        }),
{
    only_closing_events_count_the_cost(events, retry);
    streamed_text_is_the_pieces(events, retry);
    streamed_calls_are_those_begun(events, retry);
}

/// The response holds what the state holds, field by field: no reasoning where
/// there is none, the moments of the reasoning, and every call under its id and
/// its tool. A call keeps arguments of its own; where it has none, or `{}`, and
/// some were streamed for it, it gets what was made of them.
pub proof fn response_is_what_was_collected(
    s: StreamView,
    resolved: Seq<Option<Seq<char>>>,
    i: int,
)
    ensures
        ({
            let r = s.response(resolved);
            &&& r.content == s.content
            &&& r.reasoning_content is Some <==> s.reasoning.len() > 0
            &&& r.reasoning_content matches Some(thought) ==> thought == s.reasoning
            &&& r.usage == s.usage
            &&& r.finish_reason == s.finish_reason
            &&& r.reasoning_started_at == s.started_at
            &&& r.reasoning_finished_at == s.finished_at
            &&& r.tool_calls is Some <==> s.tool_calls is Some
            &&& s.tool_calls matches Some(calls) ==> {
                let out = r.tool_calls->0;
                &&& out.len() == calls.len()
                &&& 0 <= i < calls.len() ==> {
                    let own = calls[i].arguments;
                    let streamed = i <= u64::MAX && s.buffers.contains_key(i as u64);
                    &&& out[i].id == calls[i].id && out[i].name == calls[i].name
                    &&& out[i].call_type == calls[i].call_type
                    &&& own.len() > 0 && own != "{}"@ ==> out[i].arguments == own
                    &&& !streamed ==> out[i].arguments == own
                    &&& (own.len() == 0 || own == "{}"@) && streamed && i < resolved.len()
                        && resolved[i] is Some ==> out[i].arguments == resolved[i]->0
                }
            }
        }),
{
}

/// The pieces of arguments that came for the call at an index, joined.
pub open spec fn joined_arguments(events: Seq<TimedInput>, index: u64) -> Seq<char>
    decreases events.len(),
{
    if events.len() == 0 {
        Seq::empty()
    } else {
        match events.last().input {
            InputView::ToolCallChunk { index: at, arguments } => if at == index {
                joined_arguments(events.drop_last(), index) + arguments
            } else {
                joined_arguments(events.drop_last(), index)
            },
            _ => joined_arguments(events.drop_last(), index),
        }
    }
}

/// An event is a piece of arguments for the call at an index.
pub open spec fn is_piece_for(input: InputView, index: u64) -> bool {
    input is ToolCallChunk && input->index == index
}

/// A piece came for the call at an index.
pub open spec fn has_piece(events: Seq<TimedInput>, index: u64) -> bool {
    exists|i: int| 0 <= i < events.len() && is_piece_for((#[trigger] events[i]).input, index)
}

/// The arguments of one call never mix with those of another and keep their
/// order: until they are complete JSON, what was streamed for a call is the
/// pieces that came for it, joined.
pub proof fn streamed_arguments_are_the_pieces(events: Seq<TimedInput>, retry: bool, index: u64)
    ensures
        ({
            let s = run_stream(events, retry);
            &&& s.buffers.contains_key(index) <==> has_piece(events, index)
            &&& s.buffers.contains_key(index) && !s.complete.contains(index) ==> s.buffers[index]
                == joined_arguments(events, index) && !(parsed_json(s.buffers[index]) is Ok)
            &&& !s.buffers.contains_key(index) ==> joined_arguments(events, index).len() == 0
                && !s.complete.contains(index)
            &&& s.complete.contains(index) ==> s.buffers.contains_key(index) && parsed_json(
                s.buffers[index],
            ) is Ok && s.buffers[index].is_prefix_of(joined_arguments(events, index))
        }),
    decreases events.len(),
{
    if events.len() > 0 {
        let before = events.drop_last();
        let last = events[events.len() - 1];
        let s = run_stream(before, retry);
        streamed_arguments_are_the_pieces(before, retry, index);
        if has_piece(before, index) {
            let i = choose|i: int|
                0 <= i < before.len() && is_piece_for((#[trigger] before[i]).input, index);
            assert(events[i] == before[i]);
            assert(has_piece(events, index));
        }
        if has_piece(events, index) && !has_piece(before, index) {
            let i = choose|i: int|
                0 <= i < events.len() && is_piece_for((#[trigger] events[i]).input, index);
            if i < before.len() {
                assert(before[i] == events[i]);
            }
        }
        if let InputView::ToolCallChunk { index: at, arguments } = last.input {
            if at == index {
                assert(has_piece(events, index));
                assert(Seq::<char>::empty() + arguments =~= arguments);
                if !s.buffers.contains_key(index) {
                    assert(joined_arguments(before, index) =~= Seq::<char>::empty());
                }
            }
        }
    }
}

/// Reasoning is timed from its first piece to what ends it: the first moment
/// stays, and the last one is that of the first piece of the answer, tool call
/// or closing event behind it.
pub proof fn reasoning_is_timed(
    s: StreamView,
    input: InputView,
    now: i64,
    retry: bool,
)
    ensures
        ({
            let after = s.step(input, ControlDecision::Continue, now, retry).state;
            &&& s.started_at is Some ==> after.started_at == s.started_at
            &&& s.started_at is None ==> after.started_at == (if input is ReasoningContent {
                Some(now)
            } else {
                None
            })
            &&& input is ReasoningContent ==> after.in_progress && after.finished_at
                == s.finished_at
            &&& s.in_progress && (input is Content || input is ToolCallStart || input is Finished)
                ==> after.finished_at == Some(now)
            &&& s.in_progress && (input is Content || input is ToolCallStart)
                ==> !after.in_progress
            &&& !s.in_progress && !(input is ReasoningContent) ==> after.finished_at
                == s.finished_at && !after.in_progress
        }),
{
}

/// What the frontend learns of an event, beside the text: that the model
/// begins to think or to answer, once each, on a line of the right role; that
/// the answer is over, with everything delivered and logged; and of a stop,
/// what there is, with a pause remembered only where there was one.
pub proof fn every_event_is_announced(
    s: StreamView,
    input: InputView,
    control: ControlDecision,
    now: i64,
    retry: bool,
)
    ensures
        ({
            let step = s.step(input, control, now, retry);
            let goes_on = control == ControlDecision::Continue;
            &&& step.actions.contains(ActionView::ShowReplying) <==> goes_on && input is Content
                && s.content.len() == 0
            &&& step.actions.contains(ActionView::ShowThinking) <==> goes_on
                && input is ReasoningContent && s.started_at is None
            &&& goes_on && input is Content ==> step.actions.contains(
                ActionView::SwitchLine(LineRole::Assistant),
            ) && step.actions.last() == ActionView::NotifyNewData && step.next
                == StreamNext::Continue
            &&& goes_on && input is ReasoningContent ==> step.actions.contains(
                ActionView::SwitchLine(LineRole::Thought),
            ) && step.actions.last() == ActionView::NotifyNewData && step.next
                == StreamNext::Continue
            &&& goes_on && input is ToolCallStart ==> step.actions == seq![
                ActionView::NotifyNewData,
            ] && step.next == StreamNext::Continue
            &&& goes_on && input is ToolCallChunk ==> step.actions.len() == 0 && step.next
                == StreamNext::Continue
            &&& goes_on && input is Finished ==> step.actions == seq![
                ActionView::ForceFlushDelta,
                ActionView::FlushLine,
            ]
            &&& input is End ==> step.actions.len() == 0 && step.next == StreamNext::Complete
                && step.state == s
            &&& step.next == StreamNext::Stopped ==> step.actions.contains(ActionView::FlushLine)
            &&& step.actions.contains(ActionView::RememberPause) <==> match input {
                InputView::End => false,
                InputView::Cancelled(c) => c == ControlDecision::Pause,
                InputView::Idle(c) => c == ControlDecision::Pause,
                _ => control == ControlDecision::Pause,
            }
        }),
{
    let step = s.step(input, control, now, retry);
    let a = step.actions;
    if step.next == StreamNext::Stopped {
        if a.len() == 3 {
            assert(a[0] == ActionView::RememberPause);
            assert(a[1] == ActionView::FlushLine);
        } else {
            assert(a[0] == ActionView::FlushLine);
        }
    } else if control == ControlDecision::Continue {
        match input {
            InputView::Content(_) => {
                if s.content.len() == 0 {
                    assert(a[0] == ActionView::ShowReplying);
                    assert(a[1] == ActionView::SwitchLine(LineRole::Assistant));
                } else {
                    assert(a[0] == ActionView::SwitchLine(LineRole::Assistant));
                }
            },
            InputView::ReasoningContent(_) => {
                if s.started_at is None {
                    assert(a[0] == ActionView::ShowThinking);
                    assert(a[1] == ActionView::SwitchLine(LineRole::Thought));
                } else {
                    assert(a[0] == ActionView::SwitchLine(LineRole::Thought));
                }
            },
            _ => {},
        }
    }
}

/// A stream that breaks is an error, its line is logged, and nothing of what
/// was collected changes; only a request that did not fit is tried again after
/// a compaction, and only where that is allowed.
pub proof fn broken_streams_fail(s: StreamView, overflow: bool, now: i64, retry: bool)
    ensures
        ({
            let step = s.step(
                InputView::Error { overflow },
                ControlDecision::Continue,
                now,
                retry,
            );
            &&& step.next == StreamNext::CompactAndRetry <==> overflow && retry
            &&& step.next == StreamNext::Fail <==> !(overflow && retry)
            &&& step.state == s
            &&& step.actions == seq![ActionView::FlushLine]
        }),
{
}

/// Waiting changes nothing: a cancelled request is stopped, and a quiet stream
/// only where the user asks for it.
pub proof fn quiet_streams_wait(
    s: StreamView,
    c: ControlDecision,
    control: ControlDecision,
    now: i64,
    retry: bool,
)
    ensures
        s.step(InputView::Idle(c), control, now, retry).state == s,
        s.step(InputView::Idle(c), control, now, retry).next == (if c
            == ControlDecision::Continue {
            StreamNext::Continue
        } else {
            StreamNext::Stopped
        }),
        s.step(InputView::Cancelled(c), control, now, retry).next == StreamNext::Stopped,
{
}

/// A stopped response says so, and holds what there is of the words and of the
/// reasoning, and nothing else.
pub proof fn stopped_response_holds_the_text(content: Seq<char>, reasoning: Seq<char>)
    ensures
        ({
            let r = stopped_response(content, reasoning);
            &&& r.content == content
            &&& r.reasoning_content is Some <==> reasoning.len() > 0
            &&& r.reasoning_content matches Some(thought) ==> thought == reasoning
            &&& r.tool_calls is None && r.usage is None
            &&& r.reasoning_started_at is None && r.reasoning_finished_at is None
            &&& r.finish_reason == Some("stopped"@)
        }),
{
}

/// What was made of streamed arguments: JSON is written anew from what the
/// parser reads in it, whether it stood alone or in the midst of prose; beyond
/// recovery, the model is told by the marker.
pub proof fn resolved_arguments_are_json_or_the_marker(r: ResolvedArgs)
    ensures
        r matches ResolvedArgs::Valid(json) ==> match parsed_json(json@) {
            Ok(tree) => argument_text(r) == crate::json::json_text(tree),
            Err(_) => argument_text(r) is None,
        },
        r matches ResolvedArgs::Recovered(json) ==> match parsed_json(json@) {
            Ok(tree) => argument_text(r) == crate::json::json_text(tree),
            Err(_) => argument_text(r) is None,
        },
        r matches ResolvedArgs::Invalid { marker } ==> argument_text(r) == Some(marker@),
{
}

/// A reply that streams in and a thought are shown as such; no other action
/// changes the status.
pub proof fn replies_and_thoughts_are_shown(action: ActionView)
    ensures
        action is ShowReplying ==> shown_status(action) == Some(
            StatusView::LlmStreaming { message_id: None },
        ),
        action is ShowThinking ==> shown_status(action) == Some(StatusView::Thinking),
        !(action is ShowReplying) && !(action is ShowThinking) ==> shown_status(action) is None,
{
}

/// Before the closing event nothing is known of what a response costs or of how
/// it ended.
pub proof fn only_closing_events_count_the_cost(events: Seq<TimedInput>, retry: bool)
    requires
        forall|i: int| 0 <= i < events.len() ==> !((#[trigger] events[i]).input is Finished),
    ensures
        run_stream(events, retry).usage is None,
        run_stream(events, retry).finish_reason is None,
    decreases events.len(),
{
    if events.len() > 0 {
        let before = events.drop_last();
        assert forall|i: int| 0 <= i < before.len() implies !((
        #[trigger] before[i]).input is Finished) by {
            assert(before[i] == events[i]);
        }
        only_closing_events_count_the_cost(before, retry);
        assert(!(events[events.len() - 1].input is Finished));
    }
}

/// Resolved arguments go to the calls in whose places they stand.
pub proof fn resolved_arguments_keep_their_places(resolved: Seq<Option<ResolvedArgs>>, i: int)
    requires
        0 <= i < resolved.len(),
    ensures
        argument_texts(resolved).len() == resolved.len(),
        resolved[i] is None ==> argument_texts(resolved)[i] is None,
        resolved[i] matches Some(r) ==> argument_texts(resolved)[i] == argument_text(r),
{
}

/// An event of a stream is read as what it is, with what it carries.
pub proof fn events_are_read_as_they_come(input: StreamInput)
    ensures
        input matches StreamInput::Content(s) ==> input.deep_view() == InputView::Content(s@),
        input matches StreamInput::ReasoningContent(s) ==> input.deep_view()
            == InputView::ReasoningContent(s@),
        input matches StreamInput::ToolCallStart(tc) ==> input.deep_view()
            == InputView::ToolCallStart(tc.deep_view()),
        input matches StreamInput::ToolCallChunk { index, arguments } ==> input.deep_view() == (
        InputView::ToolCallChunk { index, arguments: arguments@ }),
        input matches StreamInput::Finished(r) ==> input.deep_view() == InputView::Finished(
            r.deep_view(),
        ),
        input matches StreamInput::Error { overflow } ==> input.deep_view() == (InputView::Error {
            overflow,
        }),
        input is End ==> input.deep_view() is End,
        input matches StreamInput::Cancelled(c) ==> input.deep_view() == InputView::Cancelled(c),
        input matches StreamInput::Idle(c) ==> input.deep_view() == InputView::Idle(c),
{
}

} // verus!
