//! Collection of the results of tool calls that run in parallel.
//!
//! The host spawns the calls and listens; this module decides, event by event,
//! whether to go on listening and what the host has to do. Results come out in
//! the order of the calls, one for each.

use vstd::prelude::*;

use crate::ids::{is_uuid_v4, new_uuid};
use crate::llm_stream::ControlDecision;
use crate::overrides::RuntimeConfigOverrides;
use crate::session::{ChunkEvent, ChunkView};
use crate::shell_approval::{ApprovalDecision, ApprovalRequest, RequestView};
use crate::text::same_text;

verus! {

/// How long a user may take to answer the approvals of one turn, in seconds.
pub const APPROVAL_TIMEOUT_SECS: u64 = 300;

// ── Messages that were put aside ────────────────────────────────────────

/// A message that reaches a turn while it runs.
#[derive(Debug)]
pub enum InboundMessage {
    /// The user decided on a request.
    ApprovalDecision { request_id: String, decision: ApprovalDecision },
    /// A held turn goes on.
    ContinueExecution { session_id: String, reason: String },
    Stop { reason: String },
    /// Settings that were pushed.
    UpdateRuntimeConfig(RuntimeConfigOverrides),
}

/// The messages that are decisions of the user, or those that are not, in
/// order.
pub open spec fn picked(messages: Seq<InboundMessage>, decisions: bool) -> Seq<InboundMessage>
    decreases messages.len(),
{
    if messages.len() == 0 {
        messages
    } else {
        let before = picked(messages.drop_last(), decisions);
        if messages.last() is ApprovalDecision == decisions {
            before.push(messages.last())
        } else {
            before
        }
    }
}

/// Before tools run: takes the decisions of the user out of the messages that
/// were put aside, so that requests which wait for them are settled at once.
/// Where no request waits, nothing is taken.
pub fn take_decisions(deferred: &mut Vec<InboundMessage>, waiting: bool) -> (r: Vec<InboundMessage>)
    ensures
        waiting ==> r@ == picked(old(deferred)@, true) && final(deferred)@ == picked(
            old(deferred)@,
            false,
        ),
        !waiting ==> r.len() == 0 && final(deferred)@ == old(deferred)@,
{
    let mut decisions: Vec<InboundMessage> = Vec::new();
    if !waiting {
        return decisions;
    }
    let mut others: Vec<InboundMessage> = Vec::new();
    let ghost all = deferred@;
    let ghost mut done: int = 0;
    assert(all.take(0) =~= Seq::empty());
    assert(all.skip(0) =~= all);
    while deferred.len() > 0
        invariant
            0 <= done <= all.len(),
            deferred@ == all.skip(done),
            decisions@ == picked(all.take(done), true),
            others@ == picked(all.take(done), false),
        decreases deferred.len(),
    {
        proof {
            assert(all.take(done + 1).drop_last() =~= all.take(done));
            assert(all.skip(done)[0] == all[done]);
        }
        let m = deferred.remove(0);
        if let InboundMessage::ApprovalDecision { .. } = &m {
            decisions.push(m);
        } else {
            others.push(m);
        }
        proof {
            done = done + 1;
            assert(deferred@ =~= all.skip(done));
        }
    }
    assert(all.take(done) =~= all);
    std::mem::swap(deferred, &mut others);
    decisions
}

// ── Heartbeat ───────────────────────────────────────────────────────────

/// What is shown of a tool that runs, and whether its time is up.
pub open spec fn tool_beat(
    session_id: Seq<char>,
    tool_call_id: Seq<char>,
    elapsed_ms: u64,
    timeout_ms: u64,
) -> (ChunkView, bool) {
    (
        ChunkView::ToolProgress { session_id, tool_call_id, elapsed_ms, timeout_ms },
        elapsed_ms >= timeout_ms,
    )
}

/// The heartbeat of a call that has run for `elapsed_ms`, and whether it is
/// the last one: none follows once the time is up.
pub fn heartbeat(session_id: &str, tool_call_id: &str, elapsed_ms: u64, timeout_ms: u64) -> (r: (
    ChunkEvent,
    bool,
))
    ensures
        (r.0.deep_view(), r.1) == tool_beat(session_id@, tool_call_id@, elapsed_ms, timeout_ms),
{
    let event = ChunkEvent::ToolProgress {
        session_id: session_id.to_owned(),
        tool_call_id: tool_call_id.to_owned(),
        elapsed_ms,
        timeout_ms,
    };
    (event, elapsed_ms >= timeout_ms)
}

// ── The run ─────────────────────────────────────────────────────────────

/// What happens while tools run.
#[derive(Debug)]
pub enum RunEvent {
    /// The call at `index` is done.
    Done { index: usize, content: String, transient: bool },
    /// No more results will come.
    ResultsClosed,
    /// The turn ran out of time.
    IterationDeadline,
    /// A call asks for approval, under an id of its own.
    ApprovalRequested { request_id: String, request: ApprovalRequest },
    /// No more approvals will be asked for.
    ApprovalChannelClosed,
    /// A message of the user was handled: it may have settled a request, and
    /// it may have been a control signal.
    Inbound { settled: Option<String>, control: ControlDecision },
    /// The user can no longer answer.
    InboundClosed,
    /// The user took too long to answer.
    ApprovalDeadline,
    /// The request was cancelled; the control signal may say more.
    Cancelled(ControlDecision),
    /// Nothing happened for a while; here is the control signal.
    Tick(ControlDecision),
}

/// What a [`RunEvent`] is.
pub enum EventView {
    Done { index: int, content: Seq<char>, transient: bool },
    ResultsClosed,
    IterationDeadline,
    ApprovalRequested { request_id: Seq<char>, request: RequestView },
    ApprovalChannelClosed,
    Inbound { settled: Option<Seq<char>>, control: ControlDecision },
    InboundClosed,
    ApprovalDeadline,
    Cancelled(ControlDecision),
    Tick(ControlDecision),
}

impl DeepView for RunEvent {
    type V = EventView;

    open spec fn deep_view(&self) -> EventView {
        match self {
            RunEvent::Done { index, content, transient } => EventView::Done {
                index: *index as int,
                content: content@,
                transient: *transient,
            },
            RunEvent::ResultsClosed => EventView::ResultsClosed,
            RunEvent::IterationDeadline => EventView::IterationDeadline,
            RunEvent::ApprovalRequested { request_id, request } => EventView::ApprovalRequested {
                request_id: request_id@,
                request: request.deep_view(),
            },
            RunEvent::ApprovalChannelClosed => EventView::ApprovalChannelClosed,
            RunEvent::Inbound { settled, control } => EventView::Inbound {
                settled: settled.deep_view(),
                control: *control,
            },
            RunEvent::InboundClosed => EventView::InboundClosed,
            RunEvent::ApprovalDeadline => EventView::ApprovalDeadline,
            RunEvent::Cancelled(c) => EventView::Cancelled(*c),
            RunEvent::Tick(c) => EventView::Tick(*c),
        }
    }
}

/// What the host has to do, in order.
#[derive(Debug)]
pub enum RunAction {
    /// Abort every call that still runs.
    AbortTools,
    /// Show the request to the user.
    AnnounceApproval { request_id: String, request: ApprovalRequest },
    /// The session status becomes "waiting for the user".
    ShowWaiting { request_id: String },
    /// Start the timer for the user's answers.
    StartApprovalTimer,
    /// Start the timer of the turn anew: a user's decision does not count
    /// against it.
    RestartIterationTimer,
    /// Answer each of these requests with a rejection.
    RejectAll { request_ids: Vec<String>, reason: String },
    /// Take back the requests that the frontend still shows.
    ClearApprovalCards,
}

/// What a [`RunAction`] is.
pub enum RunActionView {
    AbortTools,
    AnnounceApproval { request_id: Seq<char>, request: RequestView },
    ShowWaiting { request_id: Seq<char> },
    StartApprovalTimer,
    RestartIterationTimer,
    RejectAll { request_ids: Seq<Seq<char>>, reason: Seq<char> },
    ClearApprovalCards,
}

impl DeepView for RunAction {
    type V = RunActionView;

    open spec fn deep_view(&self) -> RunActionView {
        match self {
            RunAction::AbortTools => RunActionView::AbortTools,
            RunAction::AnnounceApproval { request_id, request } => RunActionView::AnnounceApproval {
                request_id: request_id@,
                request: request.deep_view(),
            },
            RunAction::ShowWaiting { request_id } => RunActionView::ShowWaiting {
                request_id: request_id@,
            },
            RunAction::StartApprovalTimer => RunActionView::StartApprovalTimer,
            RunAction::RestartIterationTimer => RunActionView::RestartIterationTimer,
            RunAction::RejectAll { request_ids, reason } => RunActionView::RejectAll {
                request_ids: request_ids.deep_view(),
                reason: reason@,
            },
            RunAction::ClearApprovalCards => RunActionView::ClearApprovalCards,
        }
    }
}

/// A result that came in.
#[derive(Debug)]
pub struct Collected {
    pub index: usize,
    pub content: String,
    pub transient: bool,
}

/// What a [`Collected`] is.
pub struct CollectedView {
    pub index: int,
    pub content: Seq<char>,
    pub transient: bool,
}

impl DeepView for Collected {
    type V = CollectedView;

    open spec fn deep_view(&self) -> CollectedView {
        CollectedView {
            index: self.index as int,
            content: self.content@,
            transient: self.transient,
        }
    }
}

/// Calls that run, and what came of them so far.
#[derive(Debug)]
pub struct ToolRun {
    /// The names of the tools called, in the order of the calls.
    pub names: Vec<String>,
    /// Whether approvals go through the gateway.
    pub gateway: bool,
    pub collected: Vec<Collected>,
    /// The approval requests that no one has answered, oldest first.
    pub pending: Vec<String>,
    /// Whether the timer for the user's answers runs.
    pub approval_timer: bool,
    /// The control signal that ended the run.
    pub interrupt: Option<ControlDecision>,
}

/// What a [`ToolRun`] holds.
pub struct RunView {
    pub names: Seq<Seq<char>>,
    pub gateway: bool,
    pub collected: Seq<CollectedView>,
    pub pending: Seq<Seq<char>>,
    pub approval_timer: bool,
    pub interrupt: Option<ControlDecision>,
}

impl DeepView for ToolRun {
    type V = RunView;

    open spec fn deep_view(&self) -> RunView {
        RunView {
            names: self.names.deep_view(),
            gateway: self.gateway,
            collected: self.collected.deep_view(),
            pending: self.pending.deep_view(),
            approval_timer: self.approval_timer,
            interrupt: self.interrupt,
        }
    }
}

/// The run after an event, what the host has to do, and whether the run is
/// over.
pub struct RunStepView {
    pub run: RunView,
    pub actions: Seq<RunActionView>,
    pub over: bool,
}

/// `ids` without the entries equal to `id`.
pub open spec fn without(ids: Seq<Seq<char>>, id: Seq<char>) -> Seq<Seq<char>>
    decreases ids.len(),
{
    if ids.len() == 0 {
        ids
    } else {
        let before = without(ids.drop_last(), id);
        if ids.last() == id {
            before
        } else {
            before.push(ids.last())
        }
    }
}

impl RunView {
    /// Every call has a result.
    pub open spec fn is_full(self) -> bool {
        self.collected.len() >= self.names.len()
    }

    /// Go on, unless every call has a result.
    pub open spec fn go_on(self, actions: Seq<RunActionView>) -> RunStepView {
        RunStepView { run: self, actions, over: self.is_full() }
    }

    /// A control signal: stop and pause end the run.
    pub open spec fn on_control(self, control: ControlDecision) -> RunStepView {
        if control == ControlDecision::Continue {
            self.go_on(Seq::empty())
        } else {
            RunStepView {
                run: RunView { interrupt: Some(control), ..self },
                actions: seq![RunActionView::AbortTools],
                over: true,
            }
        }
    }

    /// Every request that is still open is rejected.
    pub open spec fn reject_pending(self, reason: Seq<char>) -> RunStepView {
        RunView { pending: Seq::empty(), ..self }.go_on(
            seq![RunActionView::RejectAll { request_ids: self.pending, reason }],
        )
    }

    pub open spec fn on_request(self, request_id: Seq<char>, request: RequestView) -> RunStepView {
        let timer = if self.approval_timer {
            Seq::empty()
        } else {
            seq![RunActionView::StartApprovalTimer]
        };
        RunView {
            pending: without(self.pending, request_id).push(request_id),
            approval_timer: true,
            ..self
        }.go_on(
            seq![
                RunActionView::AnnounceApproval { request_id, request },
                RunActionView::ShowWaiting { request_id },
            ] + timer + seq![RunActionView::RestartIterationTimer],
        )
    }

    /// One event. Approvals and messages of the user only come through the
    /// gateway.
    pub open spec fn step(self, event: EventView) -> RunStepView {
        match event {
            EventView::Done { index, content, transient } => RunView {
                collected: self.collected.push(CollectedView { index, content, transient }),
                ..self
            }.go_on(Seq::empty()),
            EventView::ResultsClosed => RunStepView {
                run: self,
                actions: Seq::empty(),
                over: true,
            },
            EventView::IterationDeadline => RunStepView {
                run: self,
                actions: seq![RunActionView::AbortTools],
                over: true,
            },
            EventView::Cancelled(c) => self.on_control(c),
            EventView::Tick(c) => self.on_control(c),
            _ => if !self.gateway {
                self.go_on(Seq::empty())
            } else {
                match event {
                    EventView::ApprovalRequested { request_id, request } => self.on_request(
                        request_id,
                        request,
                    ),
                    EventView::Inbound { settled, control } => (match settled {
                        Some(id) => RunView { pending: without(self.pending, id), ..self },
                        None => self,
                    }).on_control(control),
                    EventView::InboundClosed => self.reject_pending(
                        "Inbound channel closed; approval can never be answered"@,
                    ),
                    EventView::ApprovalDeadline => RunView {
                        approval_timer: false,
                        ..self
                    }.reject_pending("tool approval timed out after 300s"@),
                    _ => self.go_on(Seq::empty()),
                }
            },
        }
    }

    /// What the host has to do once the run is over: requests that no one has
    /// answered are rejected, so that nothing waits for them.
    pub open spec fn cleanup(self) -> Seq<RunActionView> {
        if self.gateway && self.pending.len() > 0 {
            seq![
                RunActionView::RejectAll {
                    request_ids: self.pending,
                    reason: "Iteration aborted before user response"@,
                },
                RunActionView::ClearApprovalCards,
            ]
        } else {
            Seq::empty()
        }
    }

    /// The first result that came in for the call at `index`, from position
    /// `from` on.
    pub open spec fn first_result(self, index: int, from: int) -> Option<CollectedView>
        decreases self.collected.len() - from,
    {
        if from < 0 || from >= self.collected.len() {
            None
        } else if self.collected[from].index == index {
            Some(self.collected[from])
        } else {
            self.first_result(index, from + 1)
        }
    }

    /// The result of the call at `index`: the first one that came in, or the
    /// note that none did.
    pub open spec fn result(self, index: int) -> (Seq<char>, bool) {
        match self.first_result(index, 0) {
            Some(c) => (c.content, c.transient),
            None => (
                "Error: iteration timed out, tool "@ + self.names[index] + " not completed"@,
                false,
            ),
        }
    }

    /// One result per call, in the order of the calls.
    pub open spec fn results(self) -> Seq<(Seq<char>, bool)> {
        Seq::new(self.names.len(), |i: int| self.result(i))
    }
}

/// What the host learns from one event.
#[derive(Debug)]
pub struct RunStep {
    pub actions: Vec<RunAction>,
    pub over: bool,
}

/// `ids` without the entries equal to `id`.
fn remove_id(ids: &Vec<String>, id: &str) -> (r: Vec<String>)
    ensures
        r.deep_view() == without(ids.deep_view(), id@),
{
    let ghost all = ids.deep_view();
    let mut out: Vec<String> = Vec::new();
    let mut i: usize = 0;
    assert(all.take(0) =~= Seq::empty());
    assert(out.deep_view() =~= Seq::empty());
    while i < ids.len()
        invariant
            i <= ids.len(),
            all == ids.deep_view(),
            out.deep_view() == without(all.take(i as int), id@),
        decreases ids.len() - i,
    {
        assert(all.take(i + 1).drop_last() =~= all.take(i as int));
        assert(all[i as int] == ids@[i as int]@);
        if !same_text(ids[i].as_str(), id) {
            let ghost before = out.deep_view();
            out.push(ids[i].clone());
            assert(out.deep_view() =~= before.push(all[i as int]));
        }
        i = i + 1;
    }
    assert(all.take(ids.len() as int) =~= all);
    out
}

/// No action.
fn no_actions() -> (r: Vec<RunAction>)
    ensures
        r.len() == 0,
        r.deep_view() == Seq::<RunActionView>::empty(),
{
    let r: Vec<RunAction> = Vec::new();
    assert(r.deep_view() =~= Seq::empty());
    r
}

impl ToolRun {
    /// Calls that have just been started. Nothing is asked of the user yet,
    /// but `pending` requests may be left over.
    pub fn new(names: Vec<String>, gateway: bool, pending: Vec<String>) -> (r: Self)
        ensures
            r.deep_view() == RunView::begun(names.deep_view(), gateway, pending.deep_view()),
    {
        let collected: Vec<Collected> = Vec::new();
        assert(collected.deep_view() =~= Seq::empty());
        ToolRun { names, gateway, collected, pending, approval_timer: false, interrupt: None }
    }

    /// Whether every call has a result.
    pub fn is_full(&self) -> (r: bool)
        ensures
            r == self.deep_view().is_full(),
    {
        self.collected.len() >= self.names.len()
    }

    fn go_on(&self, actions: Vec<RunAction>) -> (r: RunStep)
        ensures
            r.actions == actions,
            r.over == self.deep_view().is_full(),
    {
        RunStep { actions, over: self.is_full() }
    }

    fn on_control(&mut self, control: ControlDecision) -> (r: RunStep)
        ensures
            ({
                let s = old(self).deep_view().on_control(control);
                &&& final(self).deep_view() == s.run
                &&& r.actions.deep_view() == s.actions
                &&& r.over == s.over
            }),
    {
        if control == ControlDecision::Continue {
            self.go_on(no_actions())
        } else {
            self.interrupt = Some(control);
            let mut actions = no_actions();
            actions.push(RunAction::AbortTools);
            assert(actions.deep_view() =~= seq![RunActionView::AbortTools]);
            RunStep { actions, over: true }
        }
    }

    fn reject_pending(&mut self, reason: &str) -> (r: RunStep)
        ensures
            ({
                let s = old(self).deep_view().reject_pending(reason@);
                &&& final(self).deep_view() == s.run
                &&& r.actions.deep_view() == s.actions
                &&& r.over == s.over
            }),
    {
        let mut request_ids: Vec<String> = Vec::new();
        assert(request_ids.deep_view() =~= Seq::empty());
        std::mem::swap(&mut request_ids, &mut self.pending);
        let mut actions = no_actions();
        actions.push(RunAction::RejectAll { request_ids, reason: reason.to_owned() });
        assert(actions.deep_view() =~= old(self).deep_view().reject_pending(reason@).actions);
        self.go_on(actions)
    }

    fn on_request(&mut self, request_id: String, request: ApprovalRequest) -> (r: RunStep)
        ensures
            ({
                let s = old(self).deep_view().on_request(request_id@, request.deep_view());
                &&& final(self).deep_view() == s.run
                &&& r.actions.deep_view() == s.actions
                &&& r.over == s.over
            }),
    {
        let mut pending = remove_id(&self.pending, request_id.as_str());
        let ghost rest = pending.deep_view();
        pending.push(request_id.clone());
        assert(pending.deep_view() =~= rest.push(request_id@));
        self.pending = pending;
        let mut actions = no_actions();
        let ghost view = request.deep_view();
        actions.push(RunAction::AnnounceApproval { request_id: request_id.clone(), request });
        actions.push(RunAction::ShowWaiting { request_id });
        if !self.approval_timer {
            self.approval_timer = true;
            actions.push(RunAction::StartApprovalTimer);
        }
        actions.push(RunAction::RestartIterationTimer);
        assert(actions.deep_view() =~= old(self).deep_view().on_request(request_id@, view).actions);
        self.go_on(actions)
    }

    /// Takes in one event.
    pub fn step(&mut self, event: RunEvent) -> (r: RunStep)
        ensures
            ({
                let s = old(self).deep_view().step(event.deep_view());
                &&& final(self).deep_view() == s.run
                &&& r.actions.deep_view() == s.actions
                &&& r.over == s.over
            }),
    {
        match event {
            RunEvent::Done { index, content, transient } => {
                let c = Collected { index, content, transient };
                self.collected.push(c);
                assert(self.collected.deep_view() =~= old(self).collected.deep_view().push(
                    c.deep_view(),
                ));
                self.go_on(no_actions())
            },
            RunEvent::ResultsClosed => RunStep { actions: no_actions(), over: true },
            RunEvent::IterationDeadline => {
                let mut actions = no_actions();
                actions.push(RunAction::AbortTools);
                assert(actions.deep_view() =~= seq![RunActionView::AbortTools]);
                RunStep { actions, over: true }
            },
            RunEvent::Cancelled(c) => self.on_control(c),
            RunEvent::Tick(c) => self.on_control(c),
            other => {
                if !self.gateway {
                    return self.go_on(no_actions());
                }
                match other {
                    RunEvent::ApprovalRequested { request_id, request } => self.on_request(
                        request_id,
                        request,
                    ),
                    RunEvent::Inbound { settled, control } => {
                        if let Some(id) = &settled {
                            self.pending = remove_id(&self.pending, id.as_str());
                        }
                        self.on_control(control)
                    },
                    RunEvent::InboundClosed => self.reject_pending(
                        "Inbound channel closed; approval can never be answered",
                    ),
                    RunEvent::ApprovalDeadline => {
                        self.approval_timer = false;
                        self.reject_pending("tool approval timed out after 300s")
                    },
                    _ => self.go_on(no_actions()),
                }
            },
        }
    }

    /// A call asks for approval: the request gets a fresh random id, which
    /// comes back, and is taken in under it.
    pub fn approval_requested(&mut self, request: ApprovalRequest) -> (r: (String, RunStep))
        ensures
            is_uuid_v4(r.0@),
            ({
                let s = old(self).deep_view().step(
                    EventView::ApprovalRequested {
                        request_id: r.0@,
                        request: request.deep_view(),
                    },
                );
                &&& final(self).deep_view() == s.run
                &&& r.1.actions.deep_view() == s.actions
                &&& r.1.over == s.over
            }),
    {
        let request_id = new_uuid();
        let id = request_id.clone();
        let step = self.step(RunEvent::ApprovalRequested { request_id, request });
        (id, step)
    }

    /// What the host has to do once the run is over. No request stays open.
    pub fn cleanup(&mut self) -> (actions: Vec<RunAction>)
        ensures
            actions.deep_view() == old(self).deep_view().cleanup(),
            final(self).deep_view() == old(self).deep_view().cleaned(),
    {
        let mut actions = no_actions();
        if self.gateway {
            let mut request_ids: Vec<String> = Vec::new();
            assert(request_ids.deep_view() =~= Seq::empty());
            std::mem::swap(&mut request_ids, &mut self.pending);
            assert(request_ids.deep_view() == old(self).deep_view().pending);
            assert(request_ids.deep_view().len() == request_ids.len());
            assert(self.pending.deep_view() =~= Seq::empty());
            if request_ids.len() > 0 {
                actions.push(
                    RunAction::RejectAll {
                        request_ids,
                        reason: "Iteration aborted before user response".to_owned(),
                    },
                );
                actions.push(RunAction::ClearApprovalCards);
                assert(actions.deep_view() =~= old(self).deep_view().cleanup());
            }
        }
        actions
    }

    fn find_result(&self, index: usize) -> (r: Option<usize>)
        ensures
            match r {
                Some(k) => k < self.collected.len() && self.deep_view().first_result(
                    index as int,
                    0,
                ) == Some(self.collected@[k as int].deep_view()),
                None => self.deep_view().first_result(index as int, 0) is None,
            },
    {
        let mut k: usize = 0;
        while k < self.collected.len()
            invariant
                k <= self.collected.len(),
                self.deep_view().first_result(index as int, 0) == self.deep_view().first_result(
                    index as int,
                    k as int,
                ),
            decreases self.collected.len() - k,
        {
            assert(self.deep_view().collected[k as int] == self.collected@[k as int].deep_view());
            if self.collected[k].index == index {
                return Some(k);
            }
            k = k + 1;
        }
        None
    }

    /// One result per call, in the order of the calls.
    pub fn results(&self) -> (r: Vec<(String, bool)>)
        ensures
            r.deep_view() == self.deep_view().results(),
    {
        let ghost want = self.deep_view().results();
        let mut out: Vec<(String, bool)> = Vec::new();
        let mut i: usize = 0;
        while i < self.names.len()
            invariant
                i <= self.names.len(),
                out.len() == i,
                want == self.deep_view().results(),
                forall|k: int| 0 <= k < i ==> (#[trigger] out@[k]).deep_view() == want[k],
            decreases self.names.len() - i,
        {
            assert(self.deep_view().names[i as int] == self.names@[i as int]@);
            let entry: (String, bool) = match self.find_result(i) {
                Some(k) => (self.collected[k].content.clone(), self.collected[k].transient),
                None => (
                    crate::text::join3(
                        "Error: iteration timed out, tool ",
                        self.names[i].as_str(),
                        " not completed",
                    ),
                    false,
                ),
            };
            assert(entry.deep_view() == want[i as int]);
            out.push(entry);
            i = i + 1;
        }
        assert(out.deep_view() =~= want);
        out
    }
}

// ── Laws ────────────────────────────────────────────────────────────────

/// Every call gets exactly one result, at its own place: the first one that
/// came in for it, whatever the order of arrival; else an error that names the
/// tool.
pub proof fn every_call_is_answered_in_order(run: RunView, i: int)
    requires
        0 <= i < run.names.len(),
    ensures
        run.results().len() == run.names.len(),
        (exists|k: int| 0 <= k < run.collected.len() && (#[trigger] run.collected[k]).index == i)
            ==> exists|k: int|
            0 <= k < run.collected.len() && (#[trigger] run.collected[k]).index == i
                && run.results()[i] == (run.collected[k].content, run.collected[k].transient)
                && forall|j: int| 0 <= j < k ==> (#[trigger] run.collected[j]).index != i,
        (forall|k: int| 0 <= k < run.collected.len() ==> (#[trigger] run.collected[k]).index != i)
            ==> run.results()[i].0 == "Error: iteration timed out, tool "@ + run.names[i]
            + " not completed"@,
{
    lemma_first_result(run, i, 0);
}

proof fn lemma_first_result(run: RunView, index: int, from: int)
    requires
        0 <= from <= run.collected.len(),
    ensures
        match run.first_result(index, from) {
            Some(c) => exists|k: int|
                from <= k < run.collected.len() && #[trigger] run.collected[k] == c && c.index
                    == index && forall|j: int|
                    from <= j < k ==> (#[trigger] run.collected[j]).index != index,
            None => forall|k: int|
                from <= k < run.collected.len() ==> (#[trigger] run.collected[k]).index != index,
        },
    decreases run.collected.len() - from,
{
    if from < run.collected.len() {
        if run.collected[from].index == index {
            assert(run.collected[from] == run.first_result(index, from)->0);
        } else {
            lemma_first_result(run, index, from + 1);
            if let Some(c) = run.first_result(index, from + 1) {
                let k = choose|k: int|
                    from + 1 <= k < run.collected.len() && #[trigger] run.collected[k] == c
                        && c.index == index && forall|j: int|
                        from + 1 <= j < k ==> (#[trigger] run.collected[j]).index != index;
                assert(run.collected[k] == c);
            }
        }
    }
}

/// A result that came in is never taken back: no event changes the results
/// collected so far, nor the calls.
pub proof fn collected_results_stay(run: RunView, event: EventView)
    ensures
        run.step(event).run.names == run.names,
        run.step(event).run.gateway == run.gateway,
        run.collected.is_prefix_of(run.step(event).run.collected),
{
}

/// Stop and pause end a run at once, with the calls aborted; nothing else
/// leaves an interrupt behind.
pub proof fn control_ends_the_run(run: RunView, event: EventView)
    ensures
        ({
            let control = match event {
                EventView::Cancelled(c) => c,
                EventView::Tick(c) => c,
                EventView::Inbound { control, .. } => if run.gateway {
                    control
                } else {
                    ControlDecision::Continue
                },
                _ => ControlDecision::Continue,
            };
            let after = run.step(event);
            &&& control != ControlDecision::Continue ==> after.over && after.run.interrupt == Some(
                control,
            ) && after.actions == seq![RunActionView::AbortTools]
            &&& control == ControlDecision::Continue ==> after.run.interrupt == run.interrupt
        }),
{
}

/// An approval is announced when it is asked for, and gives the turn its full
/// time again.
pub proof fn approvals_restart_the_clock(
    run: RunView,
    request_id: Seq<char>,
    request: RequestView,
)
    requires
        run.gateway,
    ensures
        ({
            let after = run.step(EventView::ApprovalRequested { request_id, request });
            &&& after.actions[0] == RunActionView::AnnounceApproval { request_id, request }
            &&& after.actions.last() == RunActionView::RestartIterationTimer
            &&& after.run.pending.last() == request_id
            &&& after.run.approval_timer
        }),
{
}

/// Nothing waits for ever: when the user can no longer answer, took too long,
/// or the run is over, every open request is rejected.
pub proof fn open_requests_are_rejected(run: RunView)
    requires
        run.gateway,
        run.pending.len() > 0,
    ensures
        run.step(EventView::InboundClosed).run.pending.len() == 0,
        run.step(EventView::InboundClosed).actions[0] is RejectAll,
        run.step(EventView::InboundClosed).actions[0]->request_ids == run.pending,
        run.step(EventView::ApprovalDeadline).run.pending.len() == 0,
        run.step(EventView::ApprovalDeadline).actions[0] is RejectAll,
        run.step(EventView::ApprovalDeadline).actions[0]->request_ids == run.pending,
        run.cleanup()[0] is RejectAll,
        run.cleanup()[0]->request_ids == run.pending,
{
}

/// The user's decisions are taken out of the messages that were put aside and
/// nothing else is; both keep their order.
pub proof fn decisions_are_taken_out_in_order(
    a: Seq<InboundMessage>,
    b: Seq<InboundMessage>,
    m: InboundMessage,
    decisions: bool,
)
    ensures
        picked(a + b, decisions) == picked(a, decisions) + picked(b, decisions),
        m is ApprovalDecision ==> picked(seq![m], true) == seq![m] && picked(seq![m], false).len()
            == 0,
        !(m is ApprovalDecision) ==> picked(seq![m], false) == seq![m] && picked(
            seq![m],
            true,
        ).len() == 0,
    decreases b.len(),
{
    let none = Seq::<InboundMessage>::empty();
    assert(seq![m].drop_last() =~= none);
    assert(picked(none, true) =~= none && picked(none, false) =~= none);
    assert(none.push(m) =~= seq![m]);
    if b.len() == 0 {
        assert(a + b =~= a);
        assert(picked(a, decisions) + picked(b, decisions) =~= picked(a, decisions));
    } else {
        decisions_are_taken_out_in_order(a, b.drop_last(), m, decisions);
        assert((a + b).drop_last() =~= a + b.drop_last());
        assert((a + b).last() == b.last());
        assert(picked(a + b, decisions) =~= picked(a, decisions) + picked(b, decisions));
    }
}

/// A result that comes in is kept with its call, as it came, behind those that
/// came before, and the run is over once there are as many as calls; nothing
/// else adds a result.
pub proof fn results_are_collected_as_they_come(run: RunView, event: EventView)
    ensures
        event matches EventView::Done { index, content, transient } ==> {
            let after = run.step(event);
            &&& after.run.collected.len() == run.collected.len() + 1
            &&& after.run.collected.last().index == index
            &&& after.run.collected.last().content == content
            &&& after.run.collected.last().transient == transient
            &&& after.actions.len() == 0
            &&& after.over <==> run.collected.len() + 1 >= run.names.len()
            &&& after.run.pending == run.pending
        },
        !(event is Done) ==> run.step(event).run.collected == run.collected,
{
}

/// When a run is over: where no more results will come, where its time is up,
/// where the user stops or pauses it, and where every call has its result. What
/// still runs then is aborted where it could go on.
pub proof fn runs_end_when_they_should(run: RunView, event: EventView)
    ensures
        run.step(EventView::ResultsClosed).over,
        run.step(EventView::ResultsClosed).actions.len() == 0,
        run.step(EventView::IterationDeadline).over,
        run.step(EventView::IterationDeadline).actions == seq![RunActionView::AbortTools],
        run.step(EventView::IterationDeadline).run == run,
        run.step(EventView::ResultsClosed).run == run,
        run.step(event).over && !(event is ResultsClosed) && !(event is IterationDeadline)
            && run.step(event).run.interrupt == run.interrupt && run.interrupt is None ==> run.step(
            event,
        ).run.collected.len() >= run.names.len(),
        run.step(event).run.collected.len() >= run.names.len() ==> run.step(event).over,
        run.step(EventView::Tick(ControlDecision::Continue)).run == run,
        run.step(EventView::Tick(ControlDecision::Continue)).actions.len() == 0,
        run.step(EventView::Cancelled(ControlDecision::Continue)).run == run,
{
}

/// `without` takes out an entry and nothing else.
proof fn lemma_without(ids: Seq<Seq<char>>, id: Seq<char>)
    ensures
        !without(ids, id).contains(id),
        forall|k: Seq<char>| k != id ==> (#[trigger] without(ids, id).contains(k) <==> ids.contains(
            k,
        )),
    decreases ids.len(),
{
    if ids.len() > 0 {
        let before = ids.drop_last();
        lemma_without(before, id);
        let rest = without(before, id);
        let all = without(ids, id);
        assert forall|k: Seq<char>| k != id implies (#[trigger] all.contains(k) <==> ids.contains(
            k,
        )) by {
            if ids.contains(k) {
                let i = choose|i: int| 0 <= i < ids.len() && ids[i] == k;
                if i < before.len() {
                    assert(before[i] == k);
                    assert(before.contains(k));
                    assert(rest.contains(k));
                    let j = choose|j: int| 0 <= j < rest.len() && rest[j] == k;
                    assert(all[j] == k);
                } else {
                    assert(all[all.len() - 1] == k);
                }
            }
            if all.contains(k) {
                let j = choose|j: int| 0 <= j < all.len() && all[j] == k;
                if j < rest.len() {
                    assert(rest[j] == k);
                    assert(rest.contains(k));
                    assert(before.contains(k));
                    let i = choose|i: int| 0 <= i < before.len() && before[i] == k;
                    assert(ids[i] == k);
                } else {
                    assert(ids[ids.len() - 1] == k);
                }
            }
        }
        assert(!all.contains(id)) by {
            if all.contains(id) {
                let j = choose|j: int| 0 <= j < all.len() && all[j] == id;
                if j < rest.len() {
                    assert(rest[j] == id);
                    assert(rest.contains(id));
                }
            }
        }
    } else {
        assert(without(ids, id) =~= ids);
    }
}

/// Which requests wait for an answer: one that was asked for waits, once, until
/// it is settled, and the others are not touched by either.
pub proof fn requests_wait_until_settled(
    run: RunView,
    id: Seq<char>,
    request: RequestView,
    control: ControlDecision,
    k: Seq<char>,
)
    requires
        run.gateway,
    ensures
        ({
            let asked = run.step(EventView::ApprovalRequested { request_id: id, request }).run;
            let settled = run.step(EventView::Inbound { settled: Some(id), control }).run;
            let other = run.step(EventView::Inbound { settled: None, control }).run;
            &&& asked.pending.contains(id)
            &&& !asked.pending.drop_last().contains(id)
            &&& !settled.pending.contains(id)
            &&& k != id ==> (settled.pending.contains(k) <==> run.pending.contains(k))
            &&& k != id ==> (asked.pending.contains(k) <==> run.pending.contains(k))
            &&& other.pending == run.pending
        }),
{
    lemma_without(run.pending, id);
    let rest = without(run.pending, id);
    let asked = rest.push(id);
    assert(asked[asked.len() - 1] == id);
    assert(asked.drop_last() =~= rest);
    if k != id {
        if rest.contains(k) {
            let j = choose|j: int| 0 <= j < rest.len() && rest[j] == k;
            assert(asked[j] == k);
        }
        if asked.contains(k) {
            let j = choose|j: int| 0 <= j < asked.len() && asked[j] == k;
            assert(rest[j] == k);
        }
    }
}

/// What a request for approval does: it is shown, the session waits for it, the
/// timer for answers is started unless it runs, and the time of the turn begins
/// anew.
pub proof fn requests_are_shown(run: RunView, request_id: Seq<char>, request: RequestView)
    requires
        run.gateway,
    ensures
        ({
            let a = run.step(EventView::ApprovalRequested { request_id, request }).actions;
            &&& a[0] == RunActionView::AnnounceApproval { request_id, request }
            &&& a[1] == RunActionView::ShowWaiting { request_id }
            &&& a.last() == RunActionView::RestartIterationTimer
            &&& run.approval_timer ==> a.len() == 3
            &&& !run.approval_timer ==> a.len() == 4 && a[2] == RunActionView::StartApprovalTimer
        }),
{
}

/// Requests that no one answers are rejected with the reason: the user can no
/// longer answer, took too long, or the turn was over first. Then the timer is
/// stopped, or the cards are taken back.
pub proof fn unanswered_requests_are_rejected_with_the_reason(run: RunView)
    requires
        run.gateway,
    ensures
        run.step(EventView::InboundClosed).actions == seq![
            RunActionView::RejectAll {
                request_ids: run.pending,
                reason: "Inbound channel closed; approval can never be answered"@,
            },
        ],
        run.step(EventView::ApprovalDeadline).actions == seq![
            RunActionView::RejectAll {
                request_ids: run.pending,
                reason: "tool approval timed out after 300s"@,
            },
        ],
        !run.step(EventView::ApprovalDeadline).run.approval_timer,
        run.pending.len() > 0 ==> run.cleanup() == seq![
            RunActionView::RejectAll {
                request_ids: run.pending,
                reason: "Iteration aborted before user response"@,
            },
            RunActionView::ClearApprovalCards,
        ],
        run.pending.len() == 0 ==> run.cleanup().len() == 0,
        APPROVAL_TIMEOUT_SECS == 300,
{
}

/// Where approvals do not go through the gateway, nothing of them touches the
/// run.
pub proof fn gates_beside_the_run_do_not_touch_it(run: RunView, event: EventView)
    requires
        !run.gateway,
        event is ApprovalRequested || event is Inbound || event is InboundClosed
            || event is ApprovalDeadline || event is ApprovalChannelClosed,
    ensures
        run.step(event).run == run,
        run.step(event).actions.len() == 0,
        run.cleanup().len() == 0,
{
}

impl RunView {
    /// A run that begins.
    pub open spec fn begun(
        names: Seq<Seq<char>>,
        gateway: bool,
        pending: Seq<Seq<char>>,
    ) -> RunView {
        RunView {
            names,
            gateway,
            collected: Seq::empty(),
            pending,
            approval_timer: false,
            interrupt: None,
        }
    }

    /// A run that was cleaned up.
    pub open spec fn cleaned(self) -> RunView {
        RunView {
            pending: if self.gateway {
                Seq::empty()
            } else {
                self.pending
            },
            ..self
        }
    }
}

/// A run begins without results and without an interruption; it is over at once
/// where it has no calls.
pub proof fn runs_begin_empty(names: Seq<Seq<char>>, gateway: bool, pending: Seq<Seq<char>>)
    ensures
        ({
            let run = RunView::begun(names, gateway, pending);
            &&& run.names == names
            &&& run.gateway == gateway
            &&& run.pending == pending
            &&& run.collected.len() == 0
            &&& !run.approval_timer
            &&& run.interrupt is None
            &&& run.is_full() <==> names.len() == 0
        }),
{
}

/// A run that is cleaned up waits for no request that it could answer, and keeps
/// its results.
pub proof fn cleaned_runs_wait_for_nothing(run: RunView)
    ensures
        run.gateway ==> run.cleaned().pending.len() == 0,
        !run.gateway ==> run.cleaned() == run,
        run.cleaned().collected == run.collected,
        run.cleaned().interrupt == run.interrupt,
        run.cleaned().results() == run.results(),
{
    assert(run.cleaned().results() =~= run.results()) by {
        lemma_same_results(run, run.cleaned());
    }
}

proof fn lemma_same_results(a: RunView, b: RunView)
    requires
        a.names == b.names,
        a.collected == b.collected,
    ensures
        a.results() == b.results(),
{
    assert forall|i: int| 0 <= i < a.names.len() implies a.results()[i] == b.results()[i] by {
        lemma_same_first(a, b, i, 0);
    }
    assert(a.results() =~= b.results());
}

proof fn lemma_same_first(a: RunView, b: RunView, index: int, from: int)
    requires
        a.collected == b.collected,
    ensures
        a.first_result(index, from) == b.first_result(index, from),
    decreases a.collected.len() - from,
{
    if 0 <= from < a.collected.len() && a.collected[from].index != index {
        lemma_same_first(a, b, index, from + 1);
    }
}

/// A tool's time is up once as many milliseconds have passed as it was given,
/// and no sooner; what is shown names the tool's call and both times.
pub proof fn tools_are_given_their_time(
    session_id: Seq<char>,
    id: Seq<char>,
    elapsed_ms: u64,
    timeout_ms: u64,
)
    ensures
        ({
            let (shown, up) = tool_beat(session_id, id, elapsed_ms, timeout_ms);
            &&& up <==> !(elapsed_ms < timeout_ms)
            &&& shown is ToolProgress
            &&& shown->ToolProgress_session_id == session_id
            &&& shown->ToolProgress_tool_call_id == id
            &&& shown->elapsed_ms == elapsed_ms
            &&& shown->timeout_ms == timeout_ms
        }),
{
}

} // verus!
