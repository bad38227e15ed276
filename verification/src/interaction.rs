//! Questions of the model to the user.

use vstd::prelude::*;

use crate::agent_loop::AgentLoop;
use crate::ids::{is_uuid_v4, new_uuid};
use crate::json::{parse_json, parsed_json, Json, JsonView};
use crate::message::ToolCall;
use crate::session::{
    ChunkEvent, ChunkView, SessionCore, SessionState, SessionStatus, StatusView,
};
use crate::tool_run::{heartbeat, APPROVAL_TIMEOUT_SECS};

verus! {

/// A question to the user.
#[derive(Debug)]
pub struct Question {
    pub question: String,
    pub options: Vec<String>,
    pub title: Option<String>,
}

/// The arguments of an `ask_user_question` call, or what the model is told
/// where they are not JSON.
pub fn question_arguments(tc: &ToolCall) -> (r: Result<Json, String>)
    ensures
        match parsed_json(tc.function.arguments@) {
            Ok(v) => r matches Ok(j) && j.deep_view() == v,
            Err(e) => r matches Err(text) && text@
                == "Error: ask_user_question arguments are not valid JSON: "@ + e,
        },
{
    match parse_json(tc.function.arguments.as_str()) {
        Ok(j) => Ok(j),
        Err(e) => Err(
            crate::text::join2(
                "Error: ask_user_question arguments are not valid JSON: ",
                e.as_str(),
            ),
        ),
    }
}

/// What the model is told of arguments that make no question.
pub fn invalid_question(reason: &str) -> (r: String)
    ensures
        r@ == "Error: ask_user_question invalid params: "@ + reason@,
{
    crate::text::join2("Error: ask_user_question invalid params: ", reason)
}

/// What is shown of a question that waits, and whether its time is up.
pub open spec fn question_beat(
    session_id: Seq<char>,
    request_id: Seq<char>,
    elapsed_ms: u64,
    timeout_secs: u32,
) -> (ChunkView, bool) {
    (
        ChunkView::ToolProgress {
            session_id,
            tool_call_id: request_id,
            elapsed_ms,
            timeout_ms: (timeout_secs * 1000) as u64,
        },
        elapsed_ms >= timeout_secs * 1000,
    )
}

/// The heartbeat of a question that the user has not answered after
/// `elapsed_ms`, and whether it is the last one.
pub fn question_heartbeat(
    session_id: &str,
    request_id: &str,
    elapsed_ms: u64,
    timeout_secs: u32,
) -> (r: (ChunkEvent, bool))
    ensures
        (r.0.deep_view(), r.1) == question_beat(
            session_id@,
            request_id@,
            elapsed_ms,
            timeout_secs,
        ),
{
    heartbeat(session_id, request_id, elapsed_ms, timeout_secs as u64 * 1000)
}

impl AgentLoop {
    /// How long the user may take: what the agent is set to, cut to 32 bits,
    /// else the default. The model has no say in it.
    pub open spec fn question_timeout(&self) -> int {
        match self.core.overrides.approval_timeout_secs {
            Some(t) => t as int % 0x1_0000_0000,
            None => APPROVAL_TIMEOUT_SECS as int,
        }
    }

    /// The state in which a question waits for its answer.
    pub open spec fn question_asked(
        before: AgentLoop,
        after: AgentLoop,
        question: Question,
        request_id: Seq<char>,
    ) -> bool {
        let asked = before.session_core.outbox.deep_view().push(
            ChunkView::AskQuestion {
                request_id,
                question: question.question@,
                options: question.options.deep_view(),
                title: question.title.deep_view(),
                timeout_seconds: before.question_timeout() as u32,
            },
        );
        let waiting = StatusView::WaitingApproval { request_id };
        &&& after.session.status.deep_view() == waiting
        &&& after.session_core.outbox.deep_view() == (if before.session.status.deep_view()
            == waiting {
            asked
        } else {
            asked.push(ChunkView::SessionState)
        })
        &&& after == (AgentLoop {
            session: SessionState { status: after.session.status, ..before.session },
            session_core: SessionCore {
                outbox: after.session_core.outbox,
                ..before.session_core
            },
            ..before
        })
    }

    /// Puts a question to the user under a given id, and waits.
    pub fn ask_question_with_id(&mut self, question: Question, request_id: String)
        ensures
            Self::question_asked(*old(self), *final(self), question, request_id@),
    {
        let timeout_seconds: u32 = match self.core.overrides.approval_timeout_secs {
            Some(t) => {
                assert(t as u32 == t % 0x1_0000_0000) by (bit_vector);
                t as u32
            },
            None => APPROVAL_TIMEOUT_SECS as u32,
        };
        self.session_core.send(
            ChunkEvent::AskQuestion {
                request_id: request_id.clone(),
                question: question.question,
                options: question.options,
                title: question.title,
                timeout_seconds,
            },
        );
        let _ = self.transition_status(SessionStatus::WaitingApproval { request_id });
    }

    /// Handle an `ask_user_question` call: puts the question to the user under
    /// a fresh id, which comes back, and waits.
    pub fn handle_ask_user_question(&mut self, question: Question) -> (request_id: String)
        ensures
            exists|id: Seq<char>| is_uuid_v4(id) && request_id@ == #[trigger] ("q-"@ + id),
            Self::question_asked(*old(self), *final(self), question, request_id@),
    {
        let id = new_uuid();
        let request_id = crate::text::join2("q-", id.as_str());
        assert(is_uuid_v4(id@) && request_id@ == "q-"@ + id@);
        let r = request_id.clone();
        self.ask_question_with_id(question, request_id);
        r
    }

    /// The state and the outbox once a question was answered or given up.
    pub open spec fn question_finished(before: AgentLoop, after: AgentLoop) -> bool {
        let cleared = before.session_core.outbox.deep_view().push(
            ChunkView::ClearRetained { event_type: "ask_question"@ },
        );
        &&& after.session_core.outbox.deep_view() == (if before.session.status.deep_view()
            == StatusView::LlmAwaitingFirstChunk {
            cleared
        } else {
            cleared.push(ChunkView::SessionState)
        })
        &&& after.session.status.deep_view() == StatusView::LlmAwaitingFirstChunk
    }

    /// The user answered, or the time ran out: the question is stale, and the
    /// turn goes on.
    pub fn finish_question(&mut self)
        ensures
            Self::question_finished(*old(self), *final(self)),
            *final(self) == (AgentLoop {
                session: SessionState { status: final(self).session.status, ..old(self).session },
                session_core: SessionCore {
                    outbox: final(self).session_core.outbox,
                    ..old(self).session_core
                },
                ..*old(self)
            }),
    {
        self.session_core.send(
            ChunkEvent::ClearRetained { event_type: "ask_question".to_owned() },
        );
        let _ = self.transition_status(SessionStatus::LlmAwaitingFirstChunk);
    }
}

/// A question waits as long as the user has set for approvals, else five
/// minutes.
pub proof fn questions_wait_as_approvals_do(l: AgentLoop)
    ensures
        l.core.overrides.approval_timeout_secs is None ==> l.question_timeout() == 300,
        l.core.overrides.approval_timeout_secs matches Some(t) ==> (t <= u32::MAX
            ==> l.question_timeout() == t),
        0 <= l.question_timeout() <= u32::MAX,
{
}

/// A question is shown as it was asked, under its id and with the time that it
/// waits; the session waits for its answer, and the frontend hears of it.
pub proof fn questions_are_shown_as_asked(
    before: AgentLoop,
    after: AgentLoop,
    q: Question,
    request_id: Seq<char>,
)
    requires
        AgentLoop::question_asked(before, after, q, request_id),
    ensures
        ({
            let had = before.session_core.outbox.deep_view();
            let sent = after.session_core.outbox.deep_view();
            let asked = sent[had.len() as int];
            &&& sent.len() > had.len() && sent.take(had.len() as int) == had
            &&& asked is AskQuestion
            &&& asked->AskQuestion_request_id == request_id
            &&& asked->question == q.question@
            &&& asked->options == q.options.deep_view()
            &&& asked->title == q.title.deep_view()
            &&& asked->AskQuestion_timeout_seconds == before.question_timeout()
            &&& after.session.status.deep_view() is WaitingApproval
            &&& after.session.status.deep_view()->request_id == request_id
            &&& before.session.status.deep_view() != after.session.status.deep_view()
                ==> sent.last() == ChunkView::SessionState && sent.len() == had.len() + 2
            &&& after.session.history == before.session.history
            &&& after.session.conversation == before.session.conversation
        }),
{
    let had = before.session_core.outbox.deep_view();
    assert(after.session_core.outbox.deep_view().take(had.len() as int) =~= had);
    questions_wait_as_approvals_do(before);
}

/// A question whose turn is over is taken from the frontend, and the model is
/// waited for again.
pub proof fn finished_questions_are_cleared(before: AgentLoop, after: AgentLoop)
    requires
        AgentLoop::question_finished(before, after),
    ensures
        ({
            let had = before.session_core.outbox.deep_view();
            let sent = after.session_core.outbox.deep_view();
            &&& sent.len() > had.len() && sent.take(had.len() as int) == had
            &&& sent[had.len() as int] is ClearRetained
            &&& sent[had.len() as int]->event_type == "ask_question"@
            &&& after.session.status.deep_view() is LlmAwaitingFirstChunk
            &&& sent.last() == ChunkView::SessionState <==> before.session.status.deep_view()
                != after.session.status.deep_view()
        }),
{
    let had = before.session_core.outbox.deep_view();
    assert(after.session_core.outbox.deep_view().take(had.len() as int) =~= had);
}

/// A question is given up once as many milliseconds have passed as it waits
/// seconds a thousand times over, and no sooner.
pub proof fn questions_are_given_up_on_time(
    session_id: Seq<char>,
    request_id: Seq<char>,
    elapsed_ms: u64,
    timeout_secs: u32,
)
    ensures
        ({
            let (shown, up) = question_beat(session_id, request_id, elapsed_ms, timeout_secs);
            &&& up <==> elapsed_ms >= 1000 * timeout_secs
            &&& shown is ToolProgress
            &&& shown->ToolProgress_session_id == session_id
            &&& shown->ToolProgress_tool_call_id == request_id
            &&& shown->elapsed_ms == elapsed_ms
            &&& shown->timeout_ms == 1000 * timeout_secs
        }),
{
}

} // verus!
