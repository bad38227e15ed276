//! Closing a session: the memory is tidied, the messages since the last summary
//! are summarised for it, and the conversation is closed.

use vstd::prelude::*;

use crate::agent_loop::AgentLoop;
use crate::conversation::{ConversationOp, ConversationView, OpView};
use crate::distill::{targets_are_ordered_and_distinct, DistillView, ResolvedDistill};
use crate::error::RuntimeError;
use crate::message::{ChatMessage, ChatMessageView, MessageRole, UsageInfo};
use crate::session::{ChunkEvent, ChunkView, SessionCore, SessionState};

verus! {

/// The number of system messages at the start of a history, from `from` on.
pub open spec fn leading_systems(history: Seq<ChatMessageView>, from: int) -> int
    decreases history.len() - from,
{
    if from < 0 || from >= history.len() || history[from].role != MessageRole::System {
        0
    } else {
        1 + leading_systems(history, from + 1)
    }
}

/// Where the messages begin that no summary covers: after the last summary, or
/// after the system messages at the start.
pub open spec fn tail_start(history: Seq<ChatMessageView>, summary_at: Option<usize>) -> int {
    match summary_at {
        Some(i) => i + 1,
        None => leading_systems(history, 0),
    }
}

/// A step of closing a session.
#[derive(Debug, Clone, Copy, PartialEq, Eq, Structural)]
pub enum CloseStep {
    /// Run the tasks of the long-term memory that follow a compaction.
    TidyMemory,
    /// Begin to summarise the tail. Nothing waits for the summary.
    Summarise,
    /// Close the writer of the conversation. An error here is that of the close.
    CloseWriter,
}

/// What is done when a session closes.
pub open spec fn is_plan(
    plan: ClosePlan,
    session_id: Seq<char>,
    history: Seq<ChatMessageView>,
    summary_at: Option<usize>,
    targets: Seq<DistillView>,
) -> bool {
    &&& plan.session_id@ == session_id
    &&& plan.steps@ == close_steps(plan.tail.len() > 0)
    &&& plan.tail.deep_view() == history.skip(tail_start(history, summary_at))
    &&& plan.targets.deep_view() == targets
}

/// The summary of a tail as it begins, and what is done first.
pub open spec fn is_begun(t: TailDistill, session_id: Seq<char>, a: TailActionView) -> bool {
    &&& t.session_id@ == session_id
    &&& t.phase == TailPhase::Calling(0)
    &&& a == TailActionView::Call(t.targets.deep_view()[0])
}

/// The steps of closing a session, in their order: the tail is summarised only
/// where there is one, the writer is closed whatever comes of the rest.
pub open spec fn close_steps(has_tail: bool) -> Seq<CloseStep> {
    if has_tail {
        seq![CloseStep::TidyMemory, CloseStep::Summarise, CloseStep::CloseWriter]
    } else {
        seq![CloseStep::TidyMemory, CloseStep::CloseWriter]
    }
}

/// What closing a session takes.
#[derive(Debug)]
pub struct ClosePlan {
    pub session_id: String,
    /// What to do, in order.
    pub steps: Vec<CloseStep>,
    /// The messages to summarise; where there are none, no target is asked.
    pub tail: Vec<ChatMessage>,
    /// The targets to ask, most preferred first.
    pub targets: Vec<ResolvedDistill>,
}

impl AgentLoop {
    /// Close the conversation session and trigger session-level distillation:
    /// what to do, what there is to summarise, and who is asked. `summary_at`
    /// is where the last summary stands in the history. Nothing where no
    /// session is active.
    pub fn close_session_with_distillation(&self, summary_at: Option<usize>) -> (r: Option<
        ClosePlan,
    >)
        requires
            summary_at matches Some(i) ==> i < self.session.history.len(),
        ensures
            match self.session.conversation {
                Some(c) => r matches Some(plan) && {
                    &&& plan.targets.len() > 0
                    &&& is_plan(
                        plan,
                        c.session_id@,
                        self.session.history.deep_view(),
                        summary_at,
                        self.targets(),
                    )
                },
                None => r is None,
            },
    {
        let session_id = match &self.session.conversation {
            Some(c) => c.session_id.clone(),
            None => {
                return None;
            },
        };
        let ghost views = self.session.history.deep_view();
        let history = &self.session.history;
        let start: usize = match summary_at {
            Some(i) => i + 1,
            None => {
                let mut n: usize = 0;
                while n < history.len() && history[n].role == MessageRole::System
                    invariant
                        n <= history.len(),
                        views == history.deep_view(),
                        leading_systems(views, 0) == n + leading_systems(views, n as int),
                    decreases history.len() - n,
                {
                    assert(views[n as int] == history@[n as int].deep_view());
                    n = n + 1;
                }
                assert(n < history.len() ==> views[n as int] == history@[n as int].deep_view());
                n
            },
        };
        let mut tail: Vec<ChatMessage> = Vec::new();
        let mut i: usize = start;
        assert(tail.deep_view() =~= views.subrange(start as int, start as int));
        while i < history.len()
            invariant
                start <= i <= history.len(),
                views == history.deep_view(),
                tail.deep_view() == views.subrange(start as int, i as int),
            decreases history.len() - i,
        {
            let ghost before = tail.deep_view();
            let copy = history[i].clone();
            assert(views[i as int] == history@[i as int].deep_view());
            tail.push(copy);
            assert(tail.deep_view() =~= before.push(views[i as int]));
            assert(views.subrange(start as int, i + 1) =~= views.subrange(
                start as int,
                i as int,
            ).push(views[i as int]));
            i = i + 1;
        }
        assert(views.skip(start as int) =~= views.subrange(start as int, views.len() as int));
        let targets = self.resolve_distill_targets();
        proof {
            targets_are_ordered_and_distinct(*self);
            assert(targets.deep_view().len() == targets.len());
        }
        let mut steps: Vec<CloseStep> = Vec::new();
        steps.push(CloseStep::TidyMemory);
        if !tail.is_empty() {
            steps.push(CloseStep::Summarise);
        }
        steps.push(CloseStep::CloseWriter);
        assert(steps@ =~= close_steps(tail.len() > 0));
        Some(ClosePlan { session_id, steps, tail, targets })
    }
}

// ── Summarising the tail ────────────────────────────────────────────────

/// Where the summary of a closing session stands.
#[derive(Debug)]
pub enum TailPhase {
    /// The target at this place is asked.
    Calling(usize),
    /// The summary goes to the long-term memory.
    Remembering,
    Done,
}

/// The summary of a closing session.
#[derive(Debug)]
pub struct TailDistill {
    pub session_id: String,
    pub targets: Vec<ResolvedDistill>,
    pub phase: TailPhase,
}

/// What came of an action.
#[derive(Debug)]
pub enum TailEvent {
    /// The call failed; `detail` is the error in words.
    Failed { error: RuntimeError, detail: String },
    Summarised { summary: String, usage: UsageInfo },
    /// The summary was written, or writing it failed.
    Remembered,
}

/// What to do next.
#[derive(Debug)]
pub enum TailAction {
    /// Ask this target for a summary.
    Call(ResolvedDistill),
    /// Write the summary to the long-term memory.
    Remember { summary: String, session_id: String },
    /// Nothing is left to do.
    Finish,
    /// The event does not belong to this phase.
    Ignore,
}

/// What a [`TailAction`] is.
pub enum TailActionView {
    Call(DistillView),
    Remember { summary: Seq<char>, session_id: Seq<char> },
    Finish,
    Ignore,
}

impl DeepView for TailAction {
    type V = TailActionView;

    open spec fn deep_view(&self) -> TailActionView {
        match self {
            TailAction::Call(t) => TailActionView::Call(t.deep_view()),
            TailAction::Remember { summary, session_id } => TailActionView::Remember {
                summary: summary@,
                session_id: session_id@,
            },
            TailAction::Finish => TailActionView::Finish,
            TailAction::Ignore => TailActionView::Ignore,
        }
    }
}

impl TailDistill {
    /// The next phase and what to do. A summary that no cheaper model would do
    /// better ends the search, as the last target does.
    pub open spec fn next(&self, event: TailEvent) -> (TailPhase, TailActionView) {
        match (self.phase, event) {
            (TailPhase::Calling(i), TailEvent::Failed { error, .. }) => if i + 1
                < self.targets.len() && !error.spec_is_final_summary() {
                (
                    TailPhase::Calling((i + 1) as usize),
                    TailActionView::Call(self.targets.deep_view()[i + 1]),
                )
            } else {
                (TailPhase::Done, TailActionView::Finish)
            },
            (TailPhase::Calling(_), TailEvent::Summarised { summary, .. }) => (
                TailPhase::Remembering,
                TailActionView::Remember { summary: summary@, session_id: self.session_id@ },
            ),
            (TailPhase::Remembering, TailEvent::Remembered) => (
                TailPhase::Done,
                TailActionView::Finish,
            ),
            (phase, _) => (phase, TailActionView::Ignore),
        }
    }

    /// Whether an event leaves the session without a summary: the user is told.
    pub open spec fn gives_up(&self, event: TailEvent) -> bool {
        self.phase is Calling && event is Failed && self.next(event).0 is Done
    }

    /// What the user is told when no target gave a summary.
    pub open spec fn failure(&self, event: TailEvent) -> ChunkView {
        ChunkView::Error {
            user_message:
                "Session memory distillation failed. The conversation is saved, but its summary memory was not written."@,
            detail: event->detail@,
            error_type: "DistillationFailed"@,
            message_id: "tail-distill-"@ + self.session_id@,
        }
    }
}

impl ClosePlan {
    /// The summary of the tail, if there is anything to summarise, and the
    /// target to ask first.
    pub fn start_distillation(self) -> (r: Option<(TailDistill, TailAction)>)
        requires
            self.targets.len() > 0,
        ensures
            r is Some <==> self.tail.len() > 0,
            r matches Some((t, a)) ==> {
                &&& t.targets == self.targets
                &&& is_begun(t, self.session_id@, a.deep_view())
            },
    {
        if self.tail.is_empty() {
            return None;
        }
        let first = self.targets[0].clone();
        assert(self.targets.deep_view()[0] == self.targets@[0].deep_view());
        Some(
            (
                TailDistill {
                    session_id: self.session_id,
                    targets: self.targets,
                    phase: TailPhase::Calling(0),
                },
                TailAction::Call(first),
            ),
        )
    }
}

impl AgentLoop {
    /// What a step of the last summary leaves in the log and in the outbox.
    pub open spec fn tail_counted(
        before: AgentLoop,
        after: AgentLoop,
        tail: TailDistill,
        event: TailEvent,
    ) -> bool {
        &&& after.session.conversation.deep_view() == (match (
            before.session.conversation,
            tail.phase,
            event,
        ) {
            (Some(c), TailPhase::Calling(_), TailEvent::Summarised { usage, .. }) => Some(
                c.deep_view().with_op(OpView::AccumulateUsage(usage)),
            ),
            (c, _, _) => c.deep_view(),
        })
        &&& after.session_core.outbox.deep_view() == (match (tail.phase, event) {
            (
                TailPhase::Calling(_),
                TailEvent::Summarised { usage, .. },
            ) => before.session_core.outbox.deep_view().push(ChunkView::AgentUsage(usage)),
            _ => if tail.gives_up(event) {
                before.session_core.outbox.deep_view().push(tail.failure(event))
            } else {
                before.session_core.outbox.deep_view()
            },
        })
    }

    /// Takes what came of an action, and says what to do next. A summary call
    /// is counted for the session and for the agent; where no target gave a
    /// summary the user is told.
    pub fn tail_step(&mut self, tail: &mut TailDistill, event: TailEvent) -> (r: TailAction)
        ensures
            r.deep_view() == old(tail).next(event).1,
            *final(tail) == (TailDistill { phase: old(tail).next(event).0, ..*old(tail) }),
            Self::tail_counted(*old(self), *final(self), *old(tail), event),
            *final(self) == (AgentLoop {
                session: SessionState {
                    conversation: final(self).session.conversation,
                    ..old(self).session
                },
                session_core: SessionCore {
                    outbox: final(self).session_core.outbox,
                    ..old(self).session_core
                },
                ..*old(self)
            }),
    {
        let mut phase = TailPhase::Done;
        std::mem::swap(&mut phase, &mut tail.phase);
        match (phase, event) {
            (TailPhase::Calling(i), TailEvent::Failed { error, detail }) => {
                let n: usize = tail.targets.len();
                if n > 0 && i < n - 1 && !error.is_final_summary() {
                    let target = tail.targets[i + 1].clone();
                    assert(tail.targets.deep_view()[i + 1] == tail.targets@[i + 1].deep_view());
                    tail.phase = TailPhase::Calling(i + 1);
                    TailAction::Call(target)
                } else {
                    self.session_core.send(
                        ChunkEvent::Error {
                            user_message:
                                "Session memory distillation failed. The conversation is saved, but its summary memory was not written.".to_owned(),
                            detail,
                            error_type: "DistillationFailed".to_owned(),
                            message_id: crate::text::join2(
                                "tail-distill-",
                                tail.session_id.as_str(),
                            ),
                        },
                    );
                    TailAction::Finish
                }
            },
            (TailPhase::Calling(_), TailEvent::Summarised { summary, usage }) => {
                match self.session.conversation.take() {
                    Some(mut conversation) => {
                        conversation.push_op(ConversationOp::AccumulateUsage(usage));
                        self.session.conversation = Some(conversation);
                    },
                    None => {},
                }
                self.session_core.send(ChunkEvent::AgentUsage(usage));
                tail.phase = TailPhase::Remembering;
                TailAction::Remember { summary, session_id: tail.session_id.clone() }
            },
            (TailPhase::Remembering, TailEvent::Remembered) => TailAction::Finish,
            (phase, _) => {
                tail.phase = phase;
                TailAction::Ignore
            },
        }
    }
}

// ── Laws ────────────────────────────────────────────────────────────────

/// Closing a session closes its conversation: that is the last step, and it is
/// taken once, whether or not there is something to summarise.
pub proof fn closing_ends_with_the_writer(has_tail: bool)
    ensures
        close_steps(has_tail).last() == CloseStep::CloseWriter,
        forall|i: int|
            0 <= i < close_steps(has_tail).len() - 1 ==> #[trigger] close_steps(has_tail)[i]
                != CloseStep::CloseWriter,
        close_steps(has_tail).first() == CloseStep::TidyMemory,
        close_steps(has_tail).contains(CloseStep::Summarise) <==> has_tail,
{
    if has_tail {
        assert(close_steps(has_tail)[1] == CloseStep::Summarise);
    }
}

/// Nothing of the history is summarised twice and nothing after the last
/// summary is left out: the tail begins right after it.
pub proof fn tail_follows_the_last_summary(history: Seq<ChatMessageView>, at: usize)
    requires
        at < history.len(),
    ensures
        history.take(at + 1) + history.skip(tail_start(history, Some(at))) == history,
{
    assert(history.take(at + 1) + history.skip(at + 1) =~= history);
}

/// Without a summary the whole history is summarised but the system messages
/// at its start.
pub proof fn tail_skips_leading_systems(history: Seq<ChatMessageView>)
    ensures
        0 <= tail_start(history, None) <= history.len(),
        forall|i: int|
            0 <= i < tail_start(history, None) ==> (#[trigger] history[i]).role
                == MessageRole::System,
        tail_start(history, None) < history.len() ==> history[tail_start(history, None)].role
            != MessageRole::System,
{
    lemma_leading_systems(history, 0);
}

proof fn lemma_leading_systems(history: Seq<ChatMessageView>, from: int)
    requires
        0 <= from <= history.len(),
    ensures
        0 <= leading_systems(history, from) <= history.len() - from,
        forall|i: int|
            from <= i < from + leading_systems(history, from) ==> (#[trigger] history[i]).role
                == MessageRole::System,
        from + leading_systems(history, from) < history.len() ==> history[from + leading_systems(
            history,
            from,
        )].role != MessageRole::System,
    decreases history.len() - from,
{
    if from < history.len() && history[from].role == MessageRole::System {
        lemma_leading_systems(history, from + 1);
    }
}

/// The user is told of a failure exactly when the search ends without a
/// summary: never while a target is left that may do better, and never after a
/// summary.
pub proof fn failure_is_reported_at_the_end(t: TailDistill, e: TailEvent)
    ensures
        t.gives_up(e) ==> t.next(e).1 is Finish,
        t.gives_up(e) ==> e->error.spec_is_final_summary() || t.phase->Calling_0 + 1
            >= t.targets.len(),
        t.phase is Remembering || t.phase is Done ==> !t.gives_up(e),
{
}

/// A failed call is tried with the next target, unless the failure is final or
/// no target is left: then the summary is given up.
pub proof fn failed_targets_are_passed_over(t: TailDistill, e: TailEvent)
    requires
        t.phase is Calling,
        e is Failed,
    ensures
        ({
            let i = t.phase->Calling_0;
            let on = i + 1 < t.targets.len() && !e->error.spec_is_final_summary();
            &&& on ==> t.next(e).0 == TailPhase::Calling((i + 1) as usize) && t.next(e).1
                == TailActionView::Call(t.targets.deep_view()[i + 1]) && !t.gives_up(e)
            &&& !on ==> t.next(e).0 is Done && t.next(e).1 is Finish && t.gives_up(e)
        }),
{
}

/// A summary is written to the memory, under the session, and then all is done;
/// an event that does not belong to the phase changes nothing.
pub proof fn summaries_are_remembered(t: TailDistill, e: TailEvent)
    ensures
        t.phase is Calling && e is Summarised ==> {
            &&& t.next(e).0 is Remembering
            &&& t.next(e).1 is Remember
            &&& t.next(e).1->summary == e->summary@
            &&& t.next(e).1->session_id == t.session_id@
        },
        t.phase is Remembering && e is Remembered ==> t.next(e).0 is Done && t.next(e).1 is Finish,
        t.phase is Done || (t.phase is Remembering && !(e is Remembered)) || (t.phase is Calling
            && e is Remembered) ==> t.next(e).0 == t.phase && t.next(e).1 is Ignore,
{
}

/// What a summary cost is counted once, in the log and for the frontend, and
/// nothing else is; giving up is reported with what went wrong.
pub proof fn last_summary_is_counted(
    before: AgentLoop,
    after: AgentLoop,
    t: TailDistill,
    e: TailEvent,
)
    requires
        AgentLoop::tail_counted(before, after, t, e),
    ensures
        ({
            let sent = after.session_core.outbox.deep_view();
            let had = before.session_core.outbox.deep_view();
            &&& t.phase is Calling && e is Summarised ==> {
                &&& sent == had.push(ChunkView::AgentUsage(e->usage))
                &&& before.session.conversation is Some ==> after.session.conversation.deep_view()
                    == Some(
                    before.session.conversation->0.deep_view().with_op(
                        OpView::AccumulateUsage(e->usage),
                    ),
                )
            }
            &&& !(t.phase is Calling && e is Summarised) ==> after.session.conversation.deep_view()
                == before.session.conversation.deep_view()
            &&& t.gives_up(e) ==> {
                &&& sent.len() == had.len() + 1
                &&& sent.last() is Error
                &&& sent.last()->detail == e->detail@
                &&& sent.last()->error_type == "DistillationFailed"@
                &&& sent.last()->Error_message_id == "tail-distill-"@ + t.session_id@
            }
            &&& !t.gives_up(e) && !(t.phase is Calling && e is Summarised) ==> sent == had
        }),
{
}

/// What was said since the last summary is summarised when a session closes,
/// where anything was; then, and in any case, its log is closed.
pub proof fn tails_are_summarised(
    plan: ClosePlan,
    id: Seq<char>,
    history: Seq<ChatMessageView>,
    summary_at: Option<usize>,
    targets: Seq<DistillView>,
)
    requires
        is_plan(plan, id, history, summary_at, targets),
        summary_at matches Some(i) ==> i < history.len(),
    ensures
        plan.session_id@ == id,
        plan.targets.deep_view() == targets,
        summary_at matches Some(i) ==> plan.tail.deep_view() == history.skip(i + 1),
        summary_at matches Some(i) ==> (plan.steps@.contains(CloseStep::Summarise) <==> i + 1
            < history.len()),
        summary_at is None && history.len() > 0 && history[0].role != MessageRole::System
            ==> plan.tail.deep_view() == history && plan.steps@.contains(CloseStep::Summarise),
        plan.steps@.last() == CloseStep::CloseWriter,
{
    tail_skips_leading_systems(history);
    closing_ends_with_the_writer(plan.tail.len() > 0);
    assert(history.skip(0) =~= history);
    assert(plan.tail.deep_view().len() == plan.tail.len());
}

/// The summary begins with the first target, for the session that closes.
pub proof fn tails_begin_with_the_first_target(t: TailDistill, id: Seq<char>, a: TailActionView)
    requires
        is_begun(t, id, a),
    ensures
        t.phase is Calling && t.phase->Calling_0 == 0,
        a is Call && a->Call_0 == t.targets.deep_view()[0],
        t.session_id@ == id,
{
}

} // verus!
