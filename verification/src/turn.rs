//! What a turn leaves behind: the records of a response, of its tool calls and
//! of their results, in the history, in the log and for the frontend.

use vstd::prelude::*;

use crate::agent_loop::AgentLoop;
use crate::conversation::{ConversationSession, ConversationView};
use crate::error::RuntimeError;
use crate::ids::{is_uuid_v4, new_uuid};
use crate::json::{lemma_object_view, members_view, Json, JsonView, Member, MemberView};
use crate::message::{
    ChatMessage, ChatMessageView, ChatResponse, ChatResponseView, MessageRole, ToolCall,
    ToolCallView,
};
use crate::session::{
    ChunkEvent, ChunkView, RecordComplete, RecordView, SessionCore, SessionState, SessionStatus,
    StatusView,
};
use crate::text::{same_text, signed_decimal, signed_decimal_spec};
use crate::think::{
    extract_think_block, extract_think_spec, strip_think_block, strip_think_spec,
};
use crate::tool_call::{is_tool_error, looks_like_tool_error};
use crate::tool_pipeline::{
    blocked_pattern, deduped, dedup_tool_calls, LoopPattern, LoopVerdict, ResponseLevel,
};

verus! {

// ── Thoughts ────────────────────────────────────────────────────────────

/// A moment in milliseconds, or nothing.
pub open spec fn moment_json(at: Option<i64>) -> JsonView {
    match at {
        Some(n) => JsonView::Number(signed_decimal_spec(n as int)),
        None => JsonView::Null,
    }
}

/// When the reasoning began and ended, where either is known.
pub open spec fn think_metadata(r: ChatResponseView) -> Option<JsonView> {
    if r.reasoning_started_at is Some || r.reasoning_finished_at is Some {
        Some(
            JsonView::Object(
                seq![
                    MemberView { name: "endTime"@, value: moment_json(r.reasoning_finished_at) },
                    MemberView { name: "startTime"@, value: moment_json(r.reasoning_started_at) },
                ],
            ),
        )
    } else {
        None
    }
}

fn moment(at: Option<i64>) -> (r: Json)
    ensures
        r.deep_view() == moment_json(at),
{
    match at {
        Some(n) => Json::Number(signed_decimal(n)),
        None => Json::Null,
    }
}

/// An object of two members.
fn object2(name1: &str, value1: Json, name2: &str, value2: Json) -> (r: Json)
    ensures
        r.deep_view() == JsonView::Object(
            seq![
                MemberView { name: name1@, value: value1.deep_view() },
                MemberView { name: name2@, value: value2.deep_view() },
            ],
        ),
{
    let mut members: Vec<Member> = Vec::new();
    members.push(Member { name: name1.to_owned(), value: value1 });
    members.push(Member { name: name2.to_owned(), value: value2 });
    assert(members_view(members@) =~= seq![
        MemberView { name: name1@, value: value1.deep_view() },
        MemberView { name: name2@, value: value2.deep_view() },
    ]);
    let r = Json::Object(members);
    proof {
        lemma_object_view(&r);
    }
    r
}

/// Build think message metadata with timing info from a response.
pub fn build_think_metadata(response: &ChatResponse) -> (r: Option<Json>)
    ensures
        r.deep_view() == think_metadata(response.deep_view()),
{
    if response.reasoning_started_at.is_some() || response.reasoning_finished_at.is_some() {
        Some(
            object2(
                "endTime",
                moment(response.reasoning_finished_at),
                "startTime",
                moment(response.reasoning_started_at),
            ),
        )
    } else {
        None
    }
}

/// The thought of a response: its reasoning, which goes before a think block
/// in the answer.
pub open spec fn thought_of(r: ChatResponseView) -> Option<Seq<char>> {
    match r.reasoning_content {
        Some(reasoning) => if reasoning.len() > 0 {
            Some(reasoning)
        } else {
            None
        },
        None => extract_think_spec(r.content),
    }
}

/// The conversation with the thought of a response in it.
pub open spec fn with_thought(c: ConversationView, r: ChatResponseView) -> ConversationView {
    match thought_of(r) {
        Some(t) => c.append("thought"@, t, think_metadata(r), None),
        None => c,
    }
}

/// Persist the thought of a response to the conversation, if it has one.
pub fn persist_think_to_conversation(
    conversation: &mut ConversationSession,
    response: &ChatResponse,
)
    ensures
        final(conversation).deep_view() == with_thought(
            old(conversation).deep_view(),
            response.deep_view(),
        ),
{
    let metadata = build_think_metadata(response);
    match &response.reasoning_content {
        Some(reasoning) => {
            if !reasoning.as_str().is_empty() {
                conversation.append_message("thought", reasoning.as_str(), metadata);
            }
        },
        None => {
            if let Some(thought) = extract_think_block(response.content.as_str()) {
                conversation.append_message("thought", thought.as_str(), metadata);
            }
        },
    }
}

// ── Text responses ──────────────────────────────────────────────────────

/// The conversation with a response in it: its thought, then its answer
/// without think blocks, where any of it remains.
pub open spec fn with_response(c: ConversationView, r: ChatResponseView) -> ConversationView {
    let thought = with_thought(c, r);
    if strip_think_spec(r.content).len() > 0 {
        thought.append("assistant"@, strip_think_spec(r.content), None, None)
    } else {
        thought
    }
}

impl AgentLoop {
    /// The state that a response without tool calls leaves behind.
    pub open spec fn text_answered(
        before: AgentLoop,
        after: AgentLoop,
        response: ChatResponseView,
    ) -> bool {
        let streamed = before.session_core.streaming_flush_count > 0;
        &&& after.session.history.deep_view() == before.session.history.deep_view().push(
            ChatMessageView::plain(MessageRole::Assistant, response.content),
        )
        &&& after.session.conversation.deep_view() == (if streamed {
            before.session.conversation.deep_view()
        } else {
            match before.session.conversation {
                Some(c) => Some(with_response(c.deep_view(), response)),
                None => None,
            }
        })
        &&& after.session_core.outbox.deep_view() == (if streamed {
            before.session_core.outbox.deep_view().push(ChunkView::FlushStreamingLine)
        } else if before.session.conversation is Some {
            before.session_core.outbox.deep_view().push(ChunkView::RemoveStreamingLine)
        } else {
            before.session_core.outbox.deep_view()
        })
    }

    /// Handle a response without tool calls: log it unless it was logged while
    /// it streamed in, and append the answer, without its reasoning, to the
    /// history. Gives the answer back.
    pub fn handle_text_response(&mut self, response: &ChatResponse) -> (content: String)
        ensures
            content@ == response.content@,
            Self::text_answered(*old(self), *final(self), response.deep_view()),
            *final(self) == (AgentLoop {
                session: SessionState {
                    history: final(self).session.history,
                    conversation: final(self).session.conversation,
                    ..old(self).session
                },
                session_core: SessionCore {
                    outbox: final(self).session_core.outbox,
                    ..old(self).session_core
                },
                ..*old(self)
            }),
    {
        if self.session_core.streaming_flush_count > 0 {
            self.session_core.send(ChunkEvent::FlushStreamingLine);
        } else {
            match self.session.conversation.take() {
                Some(mut conversation) => {
                    persist_think_to_conversation(&mut conversation, response);
                    let text = strip_think_block(response.content.as_str());
                    if !text.as_str().is_empty() {
                        conversation.append_message("assistant", text.as_str(), None);
                    }
                    self.session.conversation = Some(conversation);
                    self.session_core.send(ChunkEvent::RemoveStreamingLine);
                },
                None => {},
            }
        }
        self.append_history(ChatMessage::assistant(response.content.clone()));
        response.content.clone()
    }

    /// Appends a message to the history.
    pub fn append_history(&mut self, m: ChatMessage)
        ensures
            final(self).session.history.deep_view() == old(self).session.history.deep_view().push(
                m.deep_view(),
            ),
            *final(self) == (AgentLoop {
                session: SessionState { history: final(self).session.history, ..old(self).session },
                ..*old(self)
            }),
    {
        self.session.history.push(m);
        assert(self.session.history.deep_view() =~= old(self).session.history.deep_view().push(
            m.deep_view(),
        ));
    }
}

// ── Tool records ────────────────────────────────────────────────────────

/// What is recorded beside the text of a tool call or result.
pub open spec fn call_metadata(call: ToolCallView) -> JsonView {
    JsonView::Object(
        seq![
            MemberView { name: "tool_call_id"@, value: JsonView::Text(call.id) },
            MemberView { name: "tool_name"@, value: JsonView::Text(call.name) },
        ],
    )
}

/// The counter after `n` records.
pub open spec fn seq_after(seq: u64, n: int) -> u64
    decreases n,
{
    if n <= 0 {
        seq
    } else {
        seq_after(seq, n - 1).wrapping_add(1)
    }
}

/// The records of one turn: the calls or their results, one line each.
pub struct Records {
    pub role: Seq<char>,
    pub calls: Seq<ToolCallView>,
    pub contents: Seq<Seq<char>>,
    /// The id of each record, the same in the log and for the frontend.
    pub ids: Seq<Seq<char>>,
    /// Whether a record that reads like an error is marked as one.
    pub mark_errors: bool,
}

impl Records {
    /// The conversation with the first `n` records in it.
    pub open spec fn logged(self, c: ConversationView, n: int) -> ConversationView
        decreases n,
    {
        if n <= 0 {
            c
        } else {
            self.logged(c, n - 1).append(
                self.role,
                self.contents[n - 1],
                Some(call_metadata(self.calls[n - 1])),
                Some(self.ids[n - 1]),
            )
        }
    }

    /// The event of record `i`.
    pub open spec fn event(self, session_id: Seq<char>, seq: u64, i: int) -> ChunkView {
        ChunkView::Record(
            RecordView {
                session_id,
                role: self.role,
                message_id: self.ids[i],
                content: self.contents[i],
                tool_name: self.calls[i].name,
                tool_call_id: self.calls[i].id,
                is_error: self.mark_errors && is_tool_error(self.contents[i]),
                seq,
            },
        )
    }

    /// What is owed the frontend after the first `n` records, which are
    /// numbered from `seq` on.
    pub open spec fn sent(
        self,
        outbox: Seq<ChunkView>,
        session_id: Seq<char>,
        seq: u64,
        n: int,
    ) -> Seq<ChunkView>
        decreases n,
    {
        if n <= 0 {
            outbox
        } else {
            self.sent(outbox, session_id, seq, n - 1).push(
                self.event(session_id, seq_after(seq, n - 1), n - 1),
            )
        }
    }
}

/// What is recorded beside the text of a tool call or result.
fn metadata_of(call: &ToolCall) -> (r: Json)
    ensures
        r.deep_view() == call_metadata(call.deep_view()),
{
    object2(
        "tool_call_id",
        Json::Text(call.id.clone()),
        "tool_name",
        Json::Text(call.function.name.clone()),
    )
}

impl AgentLoop {
    /// The id under which the session speaks to the frontend.
    pub open spec fn session_label(&self) -> Seq<char> {
        match self.session_core.session_id {
            Some(id) => id@,
            None => Seq::empty(),
        }
    }

    /// Records the calls or results of a turn in the log and for the frontend,
    /// where the session has a log.
    fn record_tools(
        &mut self,
        role: &str,
        calls: &Vec<ToolCall>,
        contents: &Vec<String>,
        ids: &Vec<String>,
        n: usize,
        mark_errors: bool,
    )
        requires
            n <= calls.len(),
            n <= contents.len(),
            n <= ids.len(),
        ensures
            ({
                let records = Records {
                    role: role@,
                    calls: calls.deep_view(),
                    contents: contents.deep_view(),
                    ids: ids.deep_view(),
                    mark_errors,
                };
                match old(self).session.conversation {
                    Some(c) => {
                        &&& final(self).session.conversation matches Some(after)
                            && after.deep_view() == records.logged(c.deep_view(), n as int)
                        &&& final(self).session_core.outbox.deep_view() == records.sent(
                            old(self).session_core.outbox.deep_view(),
                            old(self).session_label(),
                            old(self).session_core.next_seq,
                            n as int,
                        )
                        &&& final(self).session_core.next_seq == seq_after(
                            old(self).session_core.next_seq,
                            n as int,
                        )
                    },
                    None => *final(self) == *old(self),
                }
            }),
            *final(self) == (AgentLoop {
                session: SessionState {
                    conversation: final(self).session.conversation,
                    ..old(self).session
                },
                session_core: SessionCore {
                    outbox: final(self).session_core.outbox,
                    next_seq: final(self).session_core.next_seq,
                    ..old(self).session_core
                },
                ..*old(self)
            }),
    {
        let session_id = match &self.session_core.session_id {
            Some(id) => id.clone(),
            None => String::new(),
        };
        let mut conversation = match self.session.conversation.take() {
            Some(c) => c,
            None => {
                return;
            },
        };
        let ghost records = Records {
            role: role@,
            calls: calls.deep_view(),
            contents: contents.deep_view(),
            ids: ids.deep_view(),
            mark_errors,
        };
        let ghost c0 = conversation.deep_view();
        let ghost before = *self;
        let mut i: usize = 0;
        while i < n
            invariant
                i <= n,
                n <= calls.len(),
                n <= contents.len(),
                n <= ids.len(),
                session_id@ == old(self).session_label(),
                records == (Records {
                    role: role@,
                    calls: calls.deep_view(),
                    contents: contents.deep_view(),
                    ids: ids.deep_view(),
                    mark_errors,
                }),
                before.session_core == old(self).session_core,
                conversation.deep_view() == records.logged(c0, i as int),
                self.session_core.outbox.deep_view() == records.sent(
                    before.session_core.outbox.deep_view(),
                    session_id@,
                    before.session_core.next_seq,
                    i as int,
                ),
                self.session_core.next_seq == seq_after(before.session_core.next_seq, i as int),
                *self == (AgentLoop {
                    session_core: SessionCore {
                        outbox: self.session_core.outbox,
                        next_seq: self.session_core.next_seq,
                        ..before.session_core
                    },
                    ..before
                }),
            decreases n - i,
        {
            proof {
                assert(records.calls[i as int] == calls@[i as int].deep_view());
                assert(records.contents[i as int] == contents@[i as int]@);
                assert(records.ids[i as int] == ids@[i as int]@);
            }
            conversation.append_message_with_id(
                role,
                contents[i].as_str(),
                Some(metadata_of(&calls[i])),
                Some(ids[i].clone()),
            );
            let is_error = mark_errors && looks_like_tool_error(contents[i].as_str());
            let seq = self.session_core.take_seq();
            self.session_core.send(
                ChunkEvent::Record(
                    RecordComplete {
                        session_id: session_id.clone(),
                        role: role.to_owned(),
                        message_id: ids[i].clone(),
                        content: contents[i].clone(),
                        tool_name: calls[i].function.name.clone(),
                        tool_call_id: calls[i].id.clone(),
                        is_error,
                        seq,
                    },
                ),
            );
            i = i + 1;
        }
        self.session.conversation = Some(conversation);
    }

    /// The calls of a response that run: each signature once.
    pub open spec fn calls_of(response: ChatResponseView) -> Seq<ToolCallView> {
        match response.tool_calls {
            Some(calls) => deduped(calls),
            None => Seq::empty(),
        }
    }

    /// The state that the tool calls of a response leave behind, given the id
    /// of each record.
    pub open spec fn prepared(
        before: AgentLoop,
        after: AgentLoop,
        response: ChatResponseView,
        ids: Seq<Seq<char>>,
    ) -> bool {
        let calls = Self::calls_of(response);
        let records = Records {
            role: "tool_call"@,
            calls,
            contents: calls.map_values(|c: ToolCallView| c.arguments),
            ids,
            mark_errors: false,
        };
        let streamed = before.session_core.streaming_flush_count > 0;
        let n = calls.len() as int;
        &&& after.session.history.deep_view() == before.session.history.deep_view().push(
            ChatMessageView {
                reasoning_content: response.reasoning_content,
                tool_calls: Some(calls),
                ..ChatMessageView::plain(MessageRole::Assistant, response.content)
            },
        )
        &&& match before.session.conversation {
            Some(c) => {
                let base = if streamed {
                    c.deep_view()
                } else {
                    with_thought(c.deep_view(), response)
                };
                &&& after.session.conversation.deep_view() == Some(records.logged(base, n))
                &&& after.session_core.outbox.deep_view() == records.sent(
                    before.session_core.outbox.deep_view(),
                    before.session_label(),
                    before.session_core.next_seq,
                    n,
                )
                &&& after.session_core.next_seq == seq_after(before.session_core.next_seq, n)
            },
            None => after.session.conversation is None && after.session_core == before.session_core,
        }
        &&& after == (AgentLoop {
            session: SessionState {
                history: after.session.history,
                conversation: after.session.conversation,
                ..before.session
            },
            session_core: SessionCore {
                outbox: after.session_core.outbox,
                next_seq: after.session_core.next_seq,
                ..before.session_core
            },
            ..before
        })
    }

    /// Prepares the tool calls of a response, with the ids of the records
    /// given. The streaming line has been written to the log before.
    ///
    /// Logs the thought unless it was logged while it streamed in, drops
    /// repeated calls, appends the assistant message with its reasoning to the
    /// history, and records each call.
    pub fn prepare_tool_calls_with_ids(&mut self, response: &ChatResponse, ids: &Vec<String>) -> (r:
        Vec<ToolCall>)
        requires
            ids.len() >= Self::calls_of(response.deep_view()).len(),
        ensures
            r.deep_view() == Self::calls_of(response.deep_view()),
            Self::prepared(*old(self), *final(self), response.deep_view(), ids.deep_view()),
    {
        let ghost view = response.deep_view();
        if self.session_core.streaming_flush_count == 0 {
            match self.session.conversation.take() {
                Some(mut conversation) => {
                    persist_think_to_conversation(&mut conversation, response);
                    self.session.conversation = Some(conversation);
                },
                None => {},
            }
        }
        let calls: Vec<ToolCall> = match &response.tool_calls {
            Some(calls) => dedup_tool_calls(calls),
            None => Vec::new(),
        };
        assert(calls.deep_view() =~= Self::calls_of(view));
        let copy = calls.clone();
        assert(copy.deep_view() =~= calls.deep_view());
        self.append_history(
            ChatMessage {
                reasoning_content: response.reasoning_content.clone(),
                tool_calls: Some(copy),
                ..ChatMessage::assistant(response.content.clone())
            },
        );
        let mut contents: Vec<String> = Vec::new();
        let mut i: usize = 0;
        while i < calls.len()
            invariant
                i <= calls.len(),
                contents.len() == i,
                forall|k: int|
                    0 <= k < i ==> (#[trigger] contents@[k])@ == calls@[k].function.arguments@,
            decreases calls.len() - i,
        {
            contents.push(calls[i].function.arguments.clone());
            i = i + 1;
        }
        assert(contents.deep_view() =~= calls.deep_view().map_values(
            |c: ToolCallView| c.arguments,
        )) by {
            assert forall|k: int| 0 <= k < calls.len() implies contents.deep_view()[k]
                == calls.deep_view()[k].arguments by {
                assert(contents@[k]@ == calls@[k].function.arguments@);
            }
        }
        let n: usize = calls.len();
        assert(calls.deep_view().len() == n);
        self.record_tools("tool_call", &calls, &contents, ids, n, false);
        calls
    }

    /// Prepares the tool calls of a response. Each record gets a fresh random
    /// id, the same in the log and for the frontend.
    pub fn prepare_tool_calls(&mut self, response: &ChatResponse) -> (r: Vec<ToolCall>)
        ensures
            r.deep_view() == Self::calls_of(response.deep_view()),
            exists|ids: Seq<Seq<char>>|
                Self::prepared(*old(self), *final(self), response.deep_view(), ids)
                    && Self::calls_of(response.deep_view()).len() <= ids.len() && (forall|i: int|
                    0 <= i < ids.len() ==> is_uuid_v4(#[trigger] ids[i])),
    {
        let n: usize = match &response.tool_calls {
            Some(calls) => calls.len(),
            None => 0,
        };
        proof {
            if let Some(calls) = &response.tool_calls {
                assert(calls.deep_view().len() == calls.len());
                lemma_deduped_len(calls.deep_view());
            }
        }
        let ids = fresh_ids(n);
        let r = self.prepare_tool_calls_with_ids(response, &ids);
        proof {
            let views = ids.deep_view();
            assert(Self::prepared(*old(self), *self, response.deep_view(), views));
        }
        r
    }

    /// The state that the results of a turn leave behind, given the id of each
    /// record: one record per call that has a result.
    pub open spec fn results_recorded(
        before: AgentLoop,
        after: AgentLoop,
        calls: Seq<ToolCallView>,
        results: Seq<Seq<char>>,
        ids: Seq<Seq<char>>,
    ) -> bool {
        let records = Records {
            role: "tool_result"@,
            calls,
            contents: results,
            ids,
            mark_errors: true,
        };
        let n = if calls.len() <= results.len() {
            calls.len() as int
        } else {
            results.len() as int
        };
        &&& match before.session.conversation {
            Some(c) => {
                &&& after.session.conversation.deep_view() == Some(
                    records.logged(c.deep_view(), n),
                )
                &&& after.session_core.outbox.deep_view() == records.sent(
                    before.session_core.outbox.deep_view(),
                    before.session_label(),
                    before.session_core.next_seq,
                    n,
                )
                &&& after.session_core.next_seq == seq_after(before.session_core.next_seq, n)
            },
            None => after == before,
        }
        &&& after == (AgentLoop {
            session: SessionState {
                conversation: after.session.conversation,
                ..before.session
            },
            session_core: SessionCore {
                outbox: after.session_core.outbox,
                next_seq: after.session_core.next_seq,
                ..before.session_core
            },
            ..before
        })
    }

    /// Records tool results, with the ids of the records given.
    pub fn persist_tool_results_with_ids(
        &mut self,
        calls: &Vec<ToolCall>,
        results: &Vec<String>,
        ids: &Vec<String>,
    )
        requires
            ids.len() >= calls.len() || ids.len() >= results.len(),
        ensures
            Self::results_recorded(
                *old(self),
                *final(self),
                calls.deep_view(),
                results.deep_view(),
                ids.deep_view(),
            ),
    {
        let n: usize = if calls.len() <= results.len() {
            calls.len()
        } else {
            results.len()
        };
        assert(calls.deep_view().len() == calls.len());
        assert(results.deep_view().len() == results.len());
        self.record_tools("tool_result", calls, results, ids, n, true);
    }

    /// Records tool results. Each record gets a fresh random id, the same in
    /// the log and for the frontend.
    pub fn persist_and_emit_tool_results(
        &mut self,
        deduped_calls: &Vec<ToolCall>,
        tool_results: &Vec<String>,
    )
        ensures
            exists|ids: Seq<Seq<char>>|
                Self::results_recorded(
                    *old(self),
                    *final(self),
                    deduped_calls.deep_view(),
                    tool_results.deep_view(),
                    ids,
                ) && ids.len() == deduped_calls.len() && (forall|i: int|
                    0 <= i < ids.len() ==> is_uuid_v4(#[trigger] ids[i])),
    {
        let ids = fresh_ids(deduped_calls.len());
        self.persist_tool_results_with_ids(deduped_calls, tool_results, &ids);
        proof {
            let views = ids.deep_view();
            assert(Self::results_recorded(
                *old(self),
                *self,
                deduped_calls.deep_view(),
                tool_results.deep_view(),
                views,
            ));
            assert(views.len() == deduped_calls.len());
            assert forall|i: int| 0 <= i < views.len() implies is_uuid_v4(#[trigger] views[i]) by {
                assert(is_uuid_v4(ids.deep_view()[i]));
            }
        }
    }
}

/// `n` fresh ids.
fn fresh_ids(n: usize) -> (ids: Vec<String>)
    ensures
        ids.len() == n,
        forall|i: int| 0 <= i < n ==> is_uuid_v4(#[trigger] ids.deep_view()[i]),
{
    let mut ids: Vec<String> = Vec::new();
    let mut i: usize = 0;
    while i < n
        invariant
            i <= n,
            ids.len() == i,
            forall|k: int| 0 <= k < i ==> is_uuid_v4((#[trigger] ids@[k])@),
        decreases n - i,
    {
        ids.push(new_uuid());
        i = i + 1;
    }
    assert forall|k: int| 0 <= k < n implies is_uuid_v4(#[trigger] ids.deep_view()[k]) by {
        assert(ids.deep_view()[k] == ids@[k]@);
    }
    ids
}

pub proof fn lemma_deduped_len(calls: Seq<ToolCallView>)
    ensures
        deduped(calls).len() <= calls.len(),
    decreases calls.len(),
{
    if calls.len() > 0 {
        lemma_deduped_len(calls.drop_last());
    }
}

// ── Loop detection after the run ────────────────────────────────────────

/// What the loop detector found after the run.
pub struct PostCheck {
    /// Warnings for the model, in order.
    pub warnings: Seq<Seq<char>>,
    /// The reason to end the turn.
    pub broke: Option<Seq<char>>,
}

/// What the model is told of a loop that is only warned of.
pub open spec fn loop_warning(pattern: LoopPattern, message: Seq<char>) -> Seq<char> {
    if pattern == LoopPattern::SameToolFlood {
        "[System Warning] "@ + message
            + " This tool has been called excessively. Please STOP using this tool and try a different approach (e.g., use file_read to verify results, or switch to another tool) to complete the task."@
    } else {
        "[System Warning] "@ + message
    }
}

/// The verdicts on the first `n` calls. Blocked calls do not count, and
/// nothing counts after the turn is ended.
pub open spec fn post_check(
    blocked_info: Seq<(usize, LoopPattern)>,
    verdicts: Seq<LoopVerdict>,
    n: int,
) -> PostCheck
    decreases n,
{
    if n <= 0 {
        PostCheck { warnings: Seq::empty(), broke: None }
    } else {
        let before = post_check(blocked_info, verdicts, n - 1);
        if before.broke is Some || blocked_pattern(blocked_info, n - 1, 0) is Some {
            before
        } else {
            match verdicts[n - 1] {
                LoopVerdict::Loop { level, pattern, message } => match level {
                    ResponseLevel::Warning => PostCheck {
                        warnings: before.warnings.push(loop_warning(pattern, message@)),
                        ..before
                    },
                    ResponseLevel::Block => before,
                    ResponseLevel::Break => PostCheck { broke: Some(message@), ..before },
                },
                LoopVerdict::NoLoop => before,
            }
        }
    }
}

/// A note of the system in the history.
pub open spec fn system_note(content: Seq<char>) -> ChatMessageView {
    ChatMessageView {
        name: Some("system"@),
        ..ChatMessageView::plain(MessageRole::User, content)
    }
}

/// The notes, one message each.
pub open spec fn system_notes(contents: Seq<Seq<char>>) -> Seq<ChatMessageView> {
    contents.map_values(|c: Seq<char>| system_note(c))
}

fn is_blocked(info: &Vec<(usize, LoopPattern)>, idx: usize) -> (r: bool)
    ensures
        r == (blocked_pattern(info@, idx as int, 0) is Some),
{
    let mut k: usize = 0;
    while k < info.len()
        invariant
            k <= info.len(),
            blocked_pattern(info@, idx as int, 0) == blocked_pattern(info@, idx as int, k as int),
        decreases info.len() - k,
    {
        if info[k].0 == idx {
            return true;
        }
        k = k + 1;
    }
    false
}

impl AgentLoop {
    /// The state that a check for loops leaves behind, and what it gives.
    pub open spec fn loops_checked(
        before: AgentLoop,
        after: AgentLoop,
        check: PostCheck,
        r: Result<(), RuntimeError>,
    ) -> bool {
        &&& after.session.history.deep_view() == before.session.history.deep_view() + system_notes(
            check.warnings,
        )
        &&& match check.broke {
            Some(m) => {
                &&& r matches Err(RuntimeError::LoopDetected(text)) && text@ == m
                &&& after.session.status.deep_view() == StatusView::Idle
                &&& after.session_core.outbox.deep_view() == if before.session.status.deep_view()
                    == StatusView::Idle {
                    before.session_core.outbox.deep_view()
                } else {
                    before.session_core.outbox.deep_view().push(ChunkView::SessionState)
                }
            },
            None => r is Ok && after.session.status == before.session.status && after.session_core
                == before.session_core,
        }
    }

    /// Post-execution loop detection. `verdicts` holds what the detector says
    /// of each call; those of blocked calls, and those after one that ends the
    /// turn, are ignored. Warnings go to the end of the history, after all
    /// tool results. A loop that has to be broken ends the turn.
    pub fn post_check_loop_detection(
        &mut self,
        blocked_info: &Vec<(usize, LoopPattern)>,
        verdicts: &Vec<LoopVerdict>,
    ) -> (r: Result<(), RuntimeError>)
        ensures
            Self::loops_checked(
                *old(self),
                *final(self),
                post_check(blocked_info@, verdicts@, verdicts.len() as int),
                r,
            ),
            *final(self) == (AgentLoop {
                session: SessionState {
                    history: final(self).session.history,
                    status: final(self).session.status,
                    ..old(self).session
                },
                session_core: SessionCore {
                    outbox: final(self).session_core.outbox,
                    ..old(self).session_core
                },
                ..*old(self)
            }),
    {
        let ghost history = self.session.history.deep_view();
        let mut broke: Option<String> = None;
        let mut i: usize = 0;
        assert(history + system_notes(Seq::empty()) =~= history);
        while i < verdicts.len()
            invariant
                i <= verdicts.len(),
                history == old(self).session.history.deep_view(),
                broke.deep_view() == post_check(blocked_info@, verdicts@, i as int).broke,
                self.session.history.deep_view() == history + system_notes(
                    post_check(blocked_info@, verdicts@, i as int).warnings,
                ),
                *self == (AgentLoop {
                    session: SessionState { history: self.session.history, ..old(self).session },
                    ..*old(self)
                }),
            decreases verdicts.len() - i,
        {
            let ghost before = post_check(blocked_info@, verdicts@, i as int).warnings;
            if broke.is_none() && !is_blocked(blocked_info, i) {
                if let LoopVerdict::Loop { level, pattern, message } = &verdicts[i] {
                    match *level {
                        ResponseLevel::Warning => {
                            let mut text = "[System Warning] ".to_owned();
                            text.append(message.as_str());
                            if *pattern == LoopPattern::SameToolFlood {
                                text.append(
                                    " This tool has been called excessively. Please STOP using this tool and try a different approach (e.g., use file_read to verify results, or switch to another tool) to complete the task.",
                                );
                            }
                            let ghost note = text@;
                            self.append_history(
                                ChatMessage {
                                    name: Some("system".to_owned()),
                                    ..ChatMessage::user(text)
                                },
                            );
                            assert(system_notes(before.push(note)) =~= system_notes(before).push(
                                system_note(note),
                            ));
                            assert(self.session.history.deep_view() =~= history + system_notes(
                                before.push(note),
                            ));
                        },
                        ResponseLevel::Block => {},
                        ResponseLevel::Break => {
                            broke = Some(message.clone());
                        },
                    }
                }
            }
            i = i + 1;
        }
        match broke {
            Some(message) => {
                let _ = self.transition_status(SessionStatus::Idle);
                Err(RuntimeError::LoopDetected(message))
            },
            None => Ok(()),
        }
    }
}

// ── Budget ──────────────────────────────────────────────────────────────

/// What the budget guard says of a request.
#[derive(Debug)]
pub enum BudgetCheckResult {
    Allowed,
    Exceeded { reason: String, action: String },
}

/// The tokens that a request is checked for: those of the history, and some
/// for the answer.
pub fn budget_estimate(history_tokens: u64) -> (r: u64)
    requires
        history_tokens + 500 <= u64::MAX,
    ensures
        r == history_tokens + 500,
{
    history_tokens + 500
}

impl AgentLoop {
    /// The state that a budget check leaves behind, and what it gives.
    pub open spec fn budget_checked(
        before: AgentLoop,
        after: AgentLoop,
        check: BudgetCheckResult,
        r: Result<(), RuntimeError>,
    ) -> bool {
        match check {
            BudgetCheckResult::Exceeded { reason, action } => if action@ == "deny"@ {
                &&& r matches Err(RuntimeError::BudgetExceeded(text)) && text@ == reason@
                &&& after.session.status.deep_view() == StatusView::Idle
                &&& after.session.history == before.session.history
                &&& after.session_core.outbox.deep_view() == if before.session.status.deep_view()
                    == StatusView::Idle {
                    before.session_core.outbox.deep_view()
                } else {
                    before.session_core.outbox.deep_view().push(ChunkView::SessionState)
                }
            } else if action@ == "warn"@ {
                &&& r is Ok
                &&& after.session.history.deep_view() == before.session.history.deep_view().push(
                    system_note("[System Warning] "@ + reason@),
                )
                &&& after.session.status == before.session.status
                &&& after.session_core == before.session_core
            } else {
                r is Ok && after == before
            },
            BudgetCheckResult::Allowed => r is Ok && after == before,
        }
    }

    /// Acts on what the budget guard says: a denied request ends the turn, a
    /// warning goes to the history, anything else passes.
    pub fn check_budget_and_warn(&mut self, check: &BudgetCheckResult) -> (r: Result<
        (),
        RuntimeError,
    >)
        ensures
            Self::budget_checked(*old(self), *final(self), *check, r),
            *final(self) == (AgentLoop {
                session: SessionState {
                    history: final(self).session.history,
                    status: final(self).session.status,
                    ..old(self).session
                },
                session_core: SessionCore {
                    outbox: final(self).session_core.outbox,
                    ..old(self).session_core
                },
                ..*old(self)
            }),
    {
        match check {
            BudgetCheckResult::Allowed => Ok(()),
            BudgetCheckResult::Exceeded { reason, action } => {
                proof {
                    reveal_strlit("deny");
                    reveal_strlit("warn");
                    assert("deny"@[0] != "warn"@[0]);
                }
                if same_text(action.as_str(), "deny") {
                    let _ = self.transition_status(SessionStatus::Idle);
                    Err(RuntimeError::BudgetExceeded(reason.clone()))
                } else if same_text(action.as_str(), "warn") {
                    let text = crate::text::join2("[System Warning] ", reason.as_str());
                    self.append_history(
                        ChatMessage {
                            name: Some("system".to_owned()),
                            ..ChatMessage::user(text)
                        },
                    );
                    Ok(())
                } else {
                    Ok(())
                }
            },
        }
    }
}

// ── Laws ────────────────────────────────────────────────────────────────

/// The records of a turn reach the log in order, each under the id under which
/// the frontend gets it.
pub proof fn log_and_frontend_agree(
    records: Records,
    c: ConversationView,
    outbox: Seq<ChunkView>,
    session_id: Seq<char>,
    seq: u64,
    n: int,
    i: int,
)
    requires
        0 <= i < n,
    ensures
        ({
            let ops = records.logged(c, n).ops;
            let sent = records.sent(outbox, session_id, seq, n);
            &&& ops.len() == c.ops.len() + n
            &&& sent.len() == outbox.len() + n
            &&& ops[c.ops.len() + i] is Append
            &&& ops[c.ops.len() + i]->Append_0.id == Some(records.ids[i])
            &&& ops[c.ops.len() + i]->Append_0.content == records.contents[i]
            &&& sent[outbox.len() + i] is Record
            &&& sent[outbox.len() + i]->Record_0.message_id == records.ids[i]
            &&& sent[outbox.len() + i]->Record_0.content == records.contents[i]
        }),
    decreases n,
{
    lemma_records_len(records, c, outbox, session_id, seq, n - 1);
    if i < n - 1 {
        log_and_frontend_agree(records, c, outbox, session_id, seq, n - 1, i);
    }
}

proof fn lemma_records_len(
    records: Records,
    c: ConversationView,
    outbox: Seq<ChunkView>,
    session_id: Seq<char>,
    seq: u64,
    n: int,
)
    requires
        0 <= n,
    ensures
        records.logged(c, n).ops.len() == c.ops.len() + n,
        records.sent(outbox, session_id, seq, n).len() == outbox.len() + n,
    decreases n,
{
    if n > 0 {
        lemma_records_len(records, c, outbox, session_id, seq, n - 1);
    }
}

/// What counts as the thought of a response: its reasoning where it has some;
/// where it says nothing of reasoning at all, what stands in its think block.
pub proof fn thoughts_are_the_reasoning(r: ChatResponseView)
    ensures
        r.reasoning_content matches Some(t) ==> match thought_of(r) {
            Some(thought) => thought == t && t.len() > 0,
            None => t.len() == 0,
        },
        r.reasoning_content is None ==> thought_of(r) == extract_think_spec(r.content),
{
}

/// What is logged of an answer: its thought, with the moments between which the
/// model thought, then its words without think blocks, each where there is any,
/// in this order, and nothing else.
pub proof fn answers_are_logged_thought_first(c: ConversationView, r: ChatResponseView)
    ensures
        ({
            let ops = with_response(c, r).ops;
            let n = c.ops.len() as int;
            let thought = thought_of(r);
            let words = strip_think_spec(r.content);
            &&& ops.take(n) == c.ops
            &&& ops.len() == n + (if thought is Some {
                1int
            } else {
                0
            }) + (if words.len() > 0 {
                1int
            } else {
                0
            })
            &&& thought matches Some(t) ==> {
                &&& ops[n] is Append
                &&& ops[n]->Append_0.role == "thought"@
                &&& ops[n]->Append_0.content == t
                &&& ops[n]->Append_0.metadata == think_metadata(r)
            }
            &&& words.len() > 0 ==> {
                &&& ops.last() is Append
                &&& ops.last()->Append_0.role == "assistant"@
                &&& ops.last()->Append_0.content == words
                &&& ops.last()->Append_0.metadata is None
            }
        }),
{
    let ops = with_response(c, r).ops;
    assert(ops.take(c.ops.len() as int) =~= c.ops);
}

/// A thought carries when it began and when it ended, where either is known.
pub proof fn thoughts_carry_their_moments(r: ChatResponseView)
    ensures
        think_metadata(r) is Some <==> r.reasoning_started_at is Some || r.reasoning_finished_at
            is Some,
        think_metadata(r) matches Some(m) ==> {
            &&& m.get("startTime"@) == Some(
                match r.reasoning_started_at {
                    Some(at) => JsonView::Number(signed_decimal_spec(at as int)),
                    None => JsonView::Null,
                },
            )
            &&& m.get("endTime"@) == Some(
                match r.reasoning_finished_at {
                    Some(at) => JsonView::Number(signed_decimal_spec(at as int)),
                    None => JsonView::Null,
                },
            )
        },
{
    reveal_strlit("startTime");
    reveal_strlit("endTime");
    assert("startTime"@.len() != "endTime"@.len());
    reveal_with_fuel(crate::json::member_from, 3);
}

/// After an answer the history ends with it, word for word and without its
/// reasoning; it is logged once: by the line that streamed in, or now, and then
/// that line is dropped.
pub proof fn answers_are_logged_once(before: AgentLoop, after: AgentLoop, r: ChatResponseView)
    requires
        AgentLoop::text_answered(before, after, r),
    ensures
        ({
            let n = before.session.history.deep_view().len() as int;
            let history = after.session.history.deep_view();
            let out = after.session_core.outbox.deep_view();
            &&& history.len() == n + 1
            &&& history.take(n) == before.session.history.deep_view()
            &&& history.last().role == MessageRole::Assistant
            &&& history.last().content == r.content
            &&& history.last().reasoning_content is None
            &&& history.last().tool_calls is None
            &&& before.session_core.streaming_flush_count > 0 ==> {
                &&& after.session.conversation.deep_view()
                    == before.session.conversation.deep_view()
                &&& out == before.session_core.outbox.deep_view().push(
                    ChunkView::FlushStreamingLine,
                )
            }
            &&& before.session_core.streaming_flush_count == 0
                && before.session.conversation is Some ==> {
                &&& after.session.conversation.deep_view() == Some(
                    with_response(before.session.conversation->0.deep_view(), r),
                )
                &&& out == before.session_core.outbox.deep_view().push(
                    ChunkView::RemoveStreamingLine,
                )
            }
            &&& before.session_core.streaming_flush_count == 0
                && before.session.conversation is None ==> out
                == before.session_core.outbox.deep_view()
        }),
{
    let n = before.session.history.deep_view().len() as int;
    assert(after.session.history.deep_view().take(n) =~= before.session.history.deep_view());
}

/// A record names its call: in the log by the metadata, for the frontend by its
/// fields. Each is of the role and the text of the record, counted up by one
/// from the last; only results that read as errors are marked as such.
pub proof fn records_name_their_calls(
    records: Records,
    c: ConversationView,
    outbox: Seq<ChunkView>,
    session_id: Seq<char>,
    seq: u64,
    n: int,
    i: int,
)
    requires
        0 <= i < n,
    ensures
        ({
            let op = records.logged(c, n).ops[c.ops.len() + i]->Append_0;
            let sent = records.sent(outbox, session_id, seq, n)[outbox.len() + i]->Record_0;
            let call = records.calls[i];
            &&& op.role == records.role && sent.role == records.role
            &&& op.metadata matches Some(m) && m.text_at("tool_call_id"@) == Some(call.id)
                && m.text_at("tool_name"@) == Some(call.name)
            &&& sent.tool_call_id == call.id
            &&& sent.tool_name == call.name
            &&& sent.session_id == session_id
            &&& sent.is_error <==> records.mark_errors && is_tool_error(records.contents[i])
            &&& sent.seq == (seq + i) % 0x1_0000_0000_0000_0000
            &&& forall|j: int| 0 <= j < c.ops.len() ==> records.logged(c, n).ops[j] == c.ops[j]
            &&& forall|j: int|
                0 <= j < outbox.len() ==> records.sent(outbox, session_id, seq, n)[j] == outbox[j]
        }),
    decreases n,
{
    log_and_frontend_agree(records, c, outbox, session_id, seq, n, i);
    if i < n - 1 {
        records_name_their_calls(records, c, outbox, session_id, seq, n - 1, i);
        log_and_frontend_agree(records, c, outbox, session_id, seq, n - 1, i);
        lemma_records_stay(records, c, outbox, session_id, seq, n);
    } else {
        lemma_records_stay(records, c, outbox, session_id, seq, n);
        lemma_seq_after(seq, i);
        lemma_call_metadata(records.calls[i]);
    }
}

proof fn lemma_records_stay(
    records: Records,
    c: ConversationView,
    outbox: Seq<ChunkView>,
    session_id: Seq<char>,
    seq: u64,
    n: int,
)
    requires
        0 <= n,
    ensures
        records.logged(c, n).ops.len() == c.ops.len() + n,
        records.sent(outbox, session_id, seq, n).len() == outbox.len() + n,
        forall|j: int| 0 <= j < c.ops.len() ==> records.logged(c, n).ops[j] == c.ops[j],
        forall|j: int|
            0 <= j < outbox.len() ==> records.sent(outbox, session_id, seq, n)[j] == outbox[j],
    decreases n,
{
    if n > 0 {
        lemma_records_stay(records, c, outbox, session_id, seq, n - 1);
    }
}

proof fn lemma_seq_after(seq: u64, n: int)
    requires
        0 <= n,
    ensures
        seq_after(seq, n) == (seq + n) % 0x1_0000_0000_0000_0000,
    decreases n,
{
    if n > 0 {
        lemma_seq_after(seq, n - 1);
    }
}

proof fn lemma_call_metadata(call: ToolCallView)
    ensures
        call_metadata(call).text_at("tool_call_id"@) == Some(call.id),
        call_metadata(call).text_at("tool_name"@) == Some(call.name),
{
    reveal_strlit("tool_call_id");
    reveal_strlit("tool_name");
    assert("tool_call_id"@.len() != "tool_name"@.len());
    reveal_with_fuel(crate::json::member_from, 3);
}

/// A turn that calls tools leaves one message in the history: its words, its
/// reasoning and the first of each call. What is logged behind the thought is
/// one record for each of these calls, with its arguments; the thought itself is
/// logged only where it did not stream in.
pub proof fn tool_turns_leave_their_calls(
    before: AgentLoop,
    after: AgentLoop,
    r: ChatResponseView,
    ids: Seq<Seq<char>>,
    i: int,
)
    requires
        AgentLoop::prepared(before, after, r, ids),
        0 <= i < AgentLoop::calls_of(r).len(),
        before.session.conversation is Some,
    ensures
        ({
            let made = AgentLoop::calls_of(r);
            let history = after.session.history.deep_view();
            let c = before.session.conversation->0.deep_view();
            let ops = after.session.conversation.deep_view()->0.ops;
            let thought = if before.session_core.streaming_flush_count == 0 && thought_of(r)
                is Some {
                1int
            } else {
                0
            };
            &&& history.len() == before.session.history.deep_view().len() + 1
            &&& history.last().role == MessageRole::Assistant
            &&& history.last().content == r.content
            &&& history.last().reasoning_content == r.reasoning_content
            &&& history.last().tool_calls == Some(made)
            &&& ops.len() == c.ops.len() + thought + made.len()
            &&& ops[c.ops.len() + thought + i] is Append
            &&& ops[c.ops.len() + thought + i]->Append_0.role == "tool_call"@
            &&& ops[c.ops.len() + thought + i]->Append_0.content == made[i].arguments
            &&& ops[c.ops.len() + thought + i]->Append_0.id == Some(ids[i])
        }),
{
    let made = AgentLoop::calls_of(r);
    let n = made.len() as int;
    let c = before.session.conversation->0.deep_view();
    let records = Records {
        role: "tool_call"@,
        calls: made,
        contents: made.map_values(|c: ToolCallView| c.arguments),
        ids,
        mark_errors: false,
    };
    let base = if before.session_core.streaming_flush_count > 0 {
        c
    } else {
        with_thought(c, r)
    };
    let outbox = before.session_core.outbox.deep_view();
    assert(after.session.conversation.deep_view() == Some(records.logged(base, n)));
    log_and_frontend_agree(
        records,
        base,
        outbox,
        before.session_label(),
        before.session_core.next_seq,
        n,
        i,
    );
    records_name_their_calls(
        records,
        base,
        outbox,
        before.session_label(),
        before.session_core.next_seq,
        n,
        i,
    );
    assert(records.contents[i] == made[i].arguments);
}

/// A call that ran and was not blocked, at which the turn is broken off.
pub open spec fn breaks_at(
    blocked_info: Seq<(usize, LoopPattern)>,
    verdicts: Seq<LoopVerdict>,
    k: int,
) -> bool {
    &&& blocked_pattern(blocked_info, k, 0) is None
    &&& verdicts[k] matches LoopVerdict::Loop { level, .. } && level == ResponseLevel::Break
}

/// The turn is broken off at the first call for which the loop detector says so
/// among those that were not blocked before the run, and with its reason; it
/// goes on where there is none.
pub proof fn turns_break_at_the_first_loop(
    blocked_info: Seq<(usize, LoopPattern)>,
    verdicts: Seq<LoopVerdict>,
    n: int,
    k: int,
)
    requires
        0 <= k <= n,
        forall|j: int| 0 <= j < k ==> !#[trigger] breaks_at(blocked_info, verdicts, j),
    ensures
        k == n ==> post_check(blocked_info, verdicts, n).broke is None,
        k < n && breaks_at(blocked_info, verdicts, k) ==> {
            &&& post_check(blocked_info, verdicts, n).broke == Some(verdicts[k]->message@)
            &&& post_check(blocked_info, verdicts, n).warnings == post_check(
                blocked_info,
                verdicts,
                k,
            ).warnings
        },
    decreases n,
{
    if n > 0 {
        if k < n {
            turns_break_at_the_first_loop(blocked_info, verdicts, n - 1, k);
            if k == n - 1 {
                turns_break_at_the_first_loop(blocked_info, verdicts, k, k);
            }
        } else {
            turns_break_at_the_first_loop(blocked_info, verdicts, n - 1, k - 1);
            assert(!breaks_at(blocked_info, verdicts, n - 1));
        }
    }
}

/// The model is warned of a call that ran and that the loop detector warns of,
/// and of no other, in the order of the calls, until the turn is broken off.
pub proof fn loops_are_warned_of(
    blocked_info: Seq<(usize, LoopPattern)>,
    verdicts: Seq<LoopVerdict>,
    k: int,
)
    requires
        0 <= k,
        post_check(blocked_info, verdicts, k).broke is None,
    ensures
        ({
            let before = post_check(blocked_info, verdicts, k).warnings;
            let after = post_check(blocked_info, verdicts, k + 1).warnings;
            let warned = blocked_pattern(blocked_info, k, 0) is None && (
            verdicts[k] matches LoopVerdict::Loop { level, .. } && level == ResponseLevel::Warning);
            &&& !warned ==> after == before
            &&& warned ==> after.len() == before.len() + 1 && after.drop_last() == before
            &&& warned && verdicts[k]->pattern != LoopPattern::SameToolFlood ==> after.last()
                == "[System Warning] "@ + verdicts[k]->message@
            &&& warned && verdicts[k]->pattern == LoopPattern::SameToolFlood ==> after.last()
                == "[System Warning] "@ + verdicts[k]->message@
                + " This tool has been called excessively. Please STOP using this tool and try a different approach (e.g., use file_read to verify results, or switch to another tool) to complete the task."@
        }),
{
    let before = post_check(blocked_info, verdicts, k).warnings;
    let after = post_check(blocked_info, verdicts, k + 1).warnings;
    if after.len() > before.len() {
        assert(after.drop_last() =~= before);
    }
}

/// A note of the system speaks as a user named `system`.
pub proof fn notes_speak_as_the_system(contents: Seq<Seq<char>>, i: int)
    requires
        0 <= i < contents.len(),
    ensures
        system_notes(contents).len() == contents.len(),
        system_notes(contents)[i].role == MessageRole::User,
        system_notes(contents)[i].name == Some("system"@),
        system_notes(contents)[i].content == contents[i],
        system_notes(contents)[i].tool_calls is None,
{
}

/// A request over the budget: where it is denied, the turn ends with the reason
/// and the session is idle; where the user is only warned, the model is told
/// the reason; otherwise nothing happens.
pub proof fn budgets_are_kept(
    before: AgentLoop,
    after: AgentLoop,
    check: BudgetCheckResult,
    r: Result<(), RuntimeError>,
)
    requires
        AgentLoop::budget_checked(before, after, check, r),
    ensures
        r is Err <==> (check is Exceeded && check->action@ == "deny"@),
        check matches BudgetCheckResult::Exceeded { reason, action } ==> {
            &&& action@ == "deny"@ ==> {
                &&& r->Err_0 is BudgetExceeded
                &&& r->Err_0->BudgetExceeded_0@ == reason@
                &&& after.session.status.deep_view() == StatusView::Idle
                &&& after.session.history.deep_view() == before.session.history.deep_view()
            }
            &&& action@ == "warn"@ ==> {
                let told = after.session.history.deep_view();
                &&& told.len() == before.session.history.deep_view().len() + 1
                &&& told.last().role == MessageRole::User
                &&& told.last().name == Some("system"@)
                &&& told.last().content == "[System Warning] "@ + reason@
            }
            &&& action@ != "deny"@ && action@ != "warn"@ ==> after == before
        },
        check is Allowed ==> after == before,
{
    reveal_strlit("deny");
    reveal_strlit("warn");
    assert("deny"@[0] != "warn"@[0]);
}

/// A loop ends the turn with its reason, and the session is idle; a warning goes
/// to the model as a note, each in its place, and the turn goes on.
pub proof fn loops_end_the_turn(
    before: AgentLoop,
    after: AgentLoop,
    check: PostCheck,
    r: Result<(), RuntimeError>,
    i: int,
)
    requires
        AgentLoop::loops_checked(before, after, check, r),
        0 <= i < check.warnings.len(),
    ensures
        ({
            let n = before.session.history.deep_view().len() as int;
            let told = after.session.history.deep_view();
            &&& told.len() == n + check.warnings.len()
            &&& told.take(n) == before.session.history.deep_view()
            &&& told[n + i].role == MessageRole::User
            &&& told[n + i].name == Some("system"@)
            &&& told[n + i].content == check.warnings[i]
        }),
        r is Ok <==> check.broke is None,
        r matches Err(e) ==> e is LoopDetected && Some(e->LoopDetected_0@) == check.broke
            && after.session.status.deep_view() == StatusView::Idle,
        r is Ok ==> after.session.status == before.session.status,
{
    let n = before.session.history.deep_view().len() as int;
    assert(after.session.history.deep_view().take(n) =~= before.session.history.deep_view());
    notes_speak_as_the_system(check.warnings, i);
}

/// Each result is logged and shown under its call, in order: as many as there
/// are calls and results, and the history stays as it is.
pub proof fn results_are_recorded_under_their_calls(
    before: AgentLoop,
    after: AgentLoop,
    made: Seq<ToolCallView>,
    results: Seq<Seq<char>>,
    ids: Seq<Seq<char>>,
    i: int,
)
    requires
        AgentLoop::results_recorded(before, after, made, results, ids),
        before.session.conversation is Some,
        0 <= i < made.len(),
        i < results.len(),
    ensures
        ({
            let had = before.session.conversation->0.deep_view().ops.len() as int;
            let ops = after.session.conversation.deep_view()->0.ops;
            let shown = before.session_core.outbox.deep_view().len() as int;
            let sent = after.session_core.outbox.deep_view()[shown + i];
            let n = if made.len() <= results.len() {
                made.len() as int
            } else {
                results.len() as int
            };
            &&& after.session.conversation is Some
            &&& ops.len() == had + n
            &&& ops[had + i] is Append
            &&& ops[had + i]->Append_0.role == "tool_result"@
            &&& ops[had + i]->Append_0.content == results[i]
            &&& ops[had + i]->Append_0.id == Some(ids[i])
            &&& sent is Record
            &&& sent->Record_0.tool_call_id == made[i].id
            &&& sent->Record_0.is_error <==> is_tool_error(results[i])
            &&& after.session.history == before.session.history
        }),
{
    let records = Records {
        role: "tool_result"@,
        calls: made,
        contents: results,
        ids,
        mark_errors: true,
    };
    let n = if made.len() <= results.len() {
        made.len() as int
    } else {
        results.len() as int
    };
    let c = before.session.conversation->0.deep_view();
    let outbox = before.session_core.outbox.deep_view();
    log_and_frontend_agree(
        records,
        c,
        outbox,
        before.session_label(),
        before.session_core.next_seq,
        n,
        i,
    );
    records_name_their_calls(
        records,
        c,
        outbox,
        before.session_label(),
        before.session_core.next_seq,
        n,
        i,
    );
    lemma_records_stay(
        records,
        c,
        outbox,
        before.session_label(),
        before.session_core.next_seq,
        n,
    );
}

/// A session speaks to the frontend under its id, and without one under none.
pub proof fn sessions_speak_under_their_id(l: AgentLoop)
    ensures
        l.session_core.session_id matches Some(id) ==> l.session_label() == id@,
        l.session_core.session_id is None ==> l.session_label().len() == 0,
{
}

} // verus!
