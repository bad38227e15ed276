//! Summarising the history when the context fills up.
//!
//! A compaction asks one summary target after the other. The summary that
//! comes back takes the place of the middle of the history; only when every
//! target failed, the oldest messages are dropped instead.

use vstd::prelude::*;

use crate::agent_loop::AgentLoop;
use crate::context::{
    needs_emergency_trim, reaches, reaches_percent, UsageTotals,
    CONTEXT_COMPACT_PERCENT, CONTEXT_CRITICAL_PERCENT, KEEP_LAST_ROUNDS,
};
use crate::conversation::{
    CompactionEventMeta, CompactionMetaView, ConversationOp, ConversationView, OpView,
};
use crate::distill::{targets_are_ordered_and_distinct, DistillView, ResolvedDistill};
use crate::message::UsageInfo;
use crate::session::{ChunkEvent, ChunkView, SessionCore, SessionState};

verus! {

/// Where a compaction stands.
#[derive(Debug)]
pub enum CompactPhase {
    /// The target at this place is asked.
    Calling(usize),
    /// The summary takes the place of the middle of the history.
    Replacing { model: String, summary: String, stripped: String },
    /// The summary goes to the long-term memory. The history takes `tokens`.
    Remembering { tokens: u64 },
    /// Every target failed: the oldest messages are dropped.
    TrimmingFifo,
    /// The history is still too large and is cut down.
    TrimmingHard,
    Done,
}

/// What a [`CompactPhase`] is.
pub enum PhaseView {
    Calling(int),
    Replacing { model: Seq<char>, summary: Seq<char>, stripped: Seq<char> },
    Remembering { tokens: u64 },
    TrimmingFifo,
    TrimmingHard,
    Done,
}

impl DeepView for CompactPhase {
    type V = PhaseView;

    open spec fn deep_view(&self) -> PhaseView {
        match self {
            CompactPhase::Calling(i) => PhaseView::Calling(*i as int),
            CompactPhase::Replacing { model, summary, stripped } => PhaseView::Replacing {
                model: model@,
                summary: summary@,
                stripped: stripped@,
            },
            CompactPhase::Remembering { tokens } => PhaseView::Remembering { tokens: *tokens },
            CompactPhase::TrimmingFifo => PhaseView::TrimmingFifo,
            CompactPhase::TrimmingHard => PhaseView::TrimmingHard,
            CompactPhase::Done => PhaseView::Done,
        }
    }
}

/// A compaction under way.
#[derive(Debug)]
pub struct Compaction {
    /// The tokens that the history may take.
    pub budget: u64,
    /// The tokens that it took when the compaction began.
    pub before_tokens: u64,
    /// The targets to ask, most preferred first.
    pub targets: Vec<ResolvedDistill>,
    pub phase: CompactPhase,
}

/// What a [`Compaction`] holds.
pub struct CompactionView {
    pub budget: u64,
    pub before_tokens: u64,
    pub targets: Seq<DistillView>,
    pub phase: PhaseView,
}

impl DeepView for Compaction {
    type V = CompactionView;

    open spec fn deep_view(&self) -> CompactionView {
        CompactionView {
            budget: self.budget,
            before_tokens: self.before_tokens,
            targets: self.targets.deep_view(),
            phase: self.phase.deep_view(),
        }
    }
}

/// What came of an action.
#[derive(Debug)]
pub enum CompactEvent {
    /// The call failed.
    Failed,
    /// The call gave a summary. `model` is the one that was asked, `stripped`
    /// the summary without its metadata blocks.
    Summarised { model: String, summary: String, stripped: String, usage: UsageInfo },
    /// The history holds the summary and takes `tokens`.
    Replaced { tokens: u64 },
    /// The long-term memory holds the summary and was maintained.
    Remembered,
    /// The history was trimmed and takes `tokens`.
    Trimmed { tokens: u64 },
}

/// What a [`CompactEvent`] is.
pub enum CompactEventView {
    Failed,
    Summarised { model: Seq<char>, summary: Seq<char>, stripped: Seq<char>, usage: UsageInfo },
    Replaced { tokens: u64 },
    Remembered,
    Trimmed { tokens: u64 },
}

impl DeepView for CompactEvent {
    type V = CompactEventView;

    open spec fn deep_view(&self) -> CompactEventView {
        match self {
            CompactEvent::Failed => CompactEventView::Failed,
            CompactEvent::Summarised { model, summary, stripped, usage } => {
                CompactEventView::Summarised {
                    model: model@,
                    summary: summary@,
                    stripped: stripped@,
                    usage: *usage,
                }
            },
            CompactEvent::Replaced { tokens } => CompactEventView::Replaced { tokens: *tokens },
            CompactEvent::Remembered => CompactEventView::Remembered,
            CompactEvent::Trimmed { tokens } => CompactEventView::Trimmed { tokens: *tokens },
        }
    }
}

/// What to do next.
#[derive(Debug)]
pub enum CompactAction {
    /// Ask this target for a summary.
    Call(ResolvedDistill),
    /// Put the summary in the place of the middle of the history.
    Replace { summary: String, keep_last_rounds: usize },
    /// Write the summary to the long-term memory and maintain it.
    Remember { summary: String, session_id: String },
    /// Drop the oldest messages until the history fits.
    TrimFifo,
    /// Cut the history down.
    EmergencyTrim,
    /// Tell the world that the compaction is over.
    Finish,
    /// The event does not belong to this phase.
    Ignore,
}

/// What a [`CompactAction`] is.
pub enum CompactActionView {
    Call(DistillView),
    Replace { summary: Seq<char>, keep_last_rounds: int },
    Remember { summary: Seq<char>, session_id: Seq<char> },
    TrimFifo,
    EmergencyTrim,
    Finish,
    Ignore,
}

impl DeepView for CompactAction {
    type V = CompactActionView;

    open spec fn deep_view(&self) -> CompactActionView {
        match self {
            CompactAction::Call(t) => CompactActionView::Call(t.deep_view()),
            CompactAction::Replace { summary, keep_last_rounds } => CompactActionView::Replace {
                summary: summary@,
                keep_last_rounds: *keep_last_rounds as int,
            },
            CompactAction::Remember { summary, session_id } => CompactActionView::Remember {
                summary: summary@,
                session_id: session_id@,
            },
            CompactAction::TrimFifo => CompactActionView::TrimFifo,
            CompactAction::EmergencyTrim => CompactActionView::EmergencyTrim,
            CompactAction::Finish => CompactActionView::Finish,
            CompactAction::Ignore => CompactActionView::Ignore,
        }
    }
}

impl CompactionView {
    /// The next phase and what to do, for the session `session_id`.
    pub open spec fn next(self, session_id: Seq<char>, event: CompactEventView) -> (
        PhaseView,
        CompactActionView,
    ) {
        match (self.phase, event) {
            (PhaseView::Calling(i), CompactEventView::Failed) => if i + 1 < self.targets.len() {
                (PhaseView::Calling(i + 1), CompactActionView::Call(self.targets[i + 1]))
            } else {
                (PhaseView::TrimmingFifo, CompactActionView::TrimFifo)
            },
            (
                PhaseView::Calling(_),
                CompactEventView::Summarised { model, summary, stripped, usage },
            ) => (
                PhaseView::Replacing { model, summary, stripped },
                CompactActionView::Replace {
                    summary: stripped,
                    keep_last_rounds: KEEP_LAST_ROUNDS as int,
                },
            ),
            (PhaseView::Replacing { summary, .. }, CompactEventView::Replaced { tokens }) => (
                PhaseView::Remembering { tokens },
                CompactActionView::Remember { summary, session_id },
            ),
            (PhaseView::Remembering { tokens }, CompactEventView::Remembered) => if reaches(
                tokens as int,
                CONTEXT_CRITICAL_PERCENT,
                self.budget,
            ) {
                (PhaseView::TrimmingHard, CompactActionView::EmergencyTrim)
            } else {
                (PhaseView::Done, CompactActionView::Finish)
            },
            (PhaseView::TrimmingFifo, CompactEventView::Trimmed { tokens }) => if tokens
                > self.budget {
                (PhaseView::TrimmingHard, CompactActionView::EmergencyTrim)
            } else {
                (PhaseView::Done, CompactActionView::Finish)
            },
            (PhaseView::TrimmingHard, CompactEventView::Trimmed { .. }) => (
                PhaseView::Done,
                CompactActionView::Finish,
            ),
            _ => (self.phase, CompactActionView::Ignore),
        }
    }

    /// The compaction after an event.
    pub open spec fn after(self, event: CompactEventView) -> CompactionView {
        CompactionView { phase: self.next(Seq::empty(), event).0, ..self }
    }

    /// The conversation after an event: the summary call is counted without
    /// touching the size of the last request, then the new size of the history
    /// is noted, then the summary is logged.
    pub open spec fn logged(self, c: ConversationView, event: CompactEventView) -> ConversationView {
        match (self.phase, event) {
            (PhaseView::Calling(_), CompactEventView::Summarised { usage, .. }) => c.with_op(
                OpView::AccumulateCompactionUsage(usage),
            ),
            (PhaseView::Replacing { model, stripped, .. }, CompactEventView::Replaced { tokens }) =>
            c.with_op(OpView::SetHistoryAnchor(tokens)).with_op(
                OpView::AppendCompaction {
                    summary: stripped,
                    meta: CompactionMetaView {
                        compacted_from_id: Seq::empty(),
                        compacted_to_id: Seq::empty(),
                        keep_last_rounds: KEEP_LAST_ROUNDS as int,
                        model,
                        before_tokens: self.before_tokens,
                        after_tokens: tokens,
                    },
                },
            ),
            _ => c,
        }
    }

    /// What is owed the world after an event: the summary call counts for the
    /// agent.
    pub open spec fn sent(self, outbox: Seq<ChunkView>, event: CompactEventView) -> Seq<ChunkView> {
        match (self.phase, event) {
            (PhaseView::Calling(_), CompactEventView::Summarised { usage, .. }) => outbox.push(
                ChunkView::AgentUsage(usage),
            ),
            _ => outbox,
        }
    }
}

fn no_text() -> (r: String)
    ensures
        r@ == Seq::<char>::empty(),
{
    String::new()
}

/// A compaction begins: the user forces it, or the history has reached
/// [`CONTEXT_COMPACT_PERCENT`] of its budget; never where there is no budget.
pub open spec fn is_due(budget: u64, tokens: u64, force: bool) -> bool {
    budget != 0 && (force || reaches(tokens as int, CONTEXT_COMPACT_PERCENT, budget))
}

/// The outbox once a compaction is over.
pub open spec fn compaction_ended(outbox: Seq<ChunkView>) -> Seq<ChunkView> {
    outbox.push(ChunkView::CompactingEnded).push(ChunkView::SessionState)
}

impl CompactionView {
    /// A compaction that begins.
    pub open spec fn begun(budget: u64, tokens: u64, targets: Seq<DistillView>) -> CompactionView {
        CompactionView { budget, before_tokens: tokens, targets, phase: PhaseView::Calling(0) }
    }

    /// The history is a summary and its last rounds, and all is written.
    pub open spec fn completed_by(self, event: CompactEventView) -> bool {
        self.phase is Remembering && event is Remembered
    }
}

impl AgentLoop {
    /// The id of the conversation, or nothing.
    pub open spec fn conversation_id(&self) -> Seq<char> {
        match self.session.conversation {
            Some(c) => c.session_id@,
            None => Seq::empty(),
        }
    }

    fn conversation_id_text(&self) -> (r: String)
        ensures
            r@ == self.conversation_id(),
    {
        match &self.session.conversation {
            Some(c) => c.session_id.clone(),
            None => no_text(),
        }
    }

    /// Begins a compaction where the history has reached
    /// [`CONTEXT_COMPACT_PERCENT`] of its budget, or where the user forces
    /// one; never where there is no budget. Comes with what to do first: ask
    /// the most preferred target.
    pub fn compact_history_if_needed(&mut self, budget: u64, current_tokens: u64, force: bool) -> (r:
        Option<(Compaction, CompactAction)>)
        ensures
            r is Some <==> is_due(budget, current_tokens, force),
            r matches Some((c, action)) ==> {
                &&& c.deep_view() == CompactionView::begun(
                    budget,
                    current_tokens,
                    old(self).targets(),
                )
                &&& action.deep_view() == CompactActionView::Call(old(self).targets()[0])
            },
            final(self).session_core.outbox.deep_view() == (if r is Some {
                old(self).session_core.outbox.deep_view().push(ChunkView::CompactingStarted)
            } else {
                old(self).session_core.outbox.deep_view()
            }),
            *final(self) == (AgentLoop {
                session_core: SessionCore {
                    outbox: final(self).session_core.outbox,
                    ..old(self).session_core
                },
                ..*old(self)
            }),
    {
        if budget == 0 {
            return None;
        }
        if !force && !reaches_percent(current_tokens, CONTEXT_COMPACT_PERCENT, budget) {
            return None;
        }
        let targets = self.resolve_distill_targets();
        proof {
            targets_are_ordered_and_distinct(*self);
            assert(targets.deep_view().len() == targets.len());
            assert(targets.deep_view()[0] == targets@[0].deep_view());
        }
        let first = CompactAction::Call(targets[0].clone());
        self.session_core.send(ChunkEvent::CompactingStarted);
        Some(
            (
                Compaction {
                    budget,
                    before_tokens: current_tokens,
                    targets,
                    phase: CompactPhase::Calling(0),
                },
                first,
            ),
        )
    }

    /// Takes what came of an action, and says what to do next. An event that
    /// does not belong to the phase changes nothing.
    pub fn compact_step(&mut self, compaction: &mut Compaction, event: CompactEvent) -> (r:
        CompactAction)
        ensures
            ({
                let c = old(compaction).deep_view();
                let e = event.deep_view();
                let next = c.next(old(self).conversation_id(), e);
                &&& r.deep_view() == next.1
                &&& final(compaction).deep_view() == (CompactionView { phase: next.0, ..c })
                &&& final(self).session.conversation.deep_view() == (match old(
                    self,
                ).session.conversation {
                    Some(conv) => Some(c.logged(conv.deep_view(), e)),
                    None => None,
                })
                &&& final(self).session_core.outbox.deep_view() == c.sent(
                    old(self).session_core.outbox.deep_view(),
                    e,
                )
                &&& final(self).session.is_compacted == (old(self).session.is_compacted
                    || c.completed_by(e))
            }),
            *final(self) == (AgentLoop {
                session: SessionState {
                    conversation: final(self).session.conversation,
                    is_compacted: final(self).session.is_compacted,
                    ..old(self).session
                },
                session_core: SessionCore {
                    outbox: final(self).session_core.outbox,
                    ..old(self).session_core
                },
                ..*old(self)
            }),
    {
        let session_id = self.conversation_id_text();
        let mut phase = CompactPhase::Done;
        std::mem::swap(&mut phase, &mut compaction.phase);
        match (phase, event) {
            (CompactPhase::Calling(i), CompactEvent::Failed) => {
                let n: usize = compaction.targets.len();
                if n > 0 && i < n - 1 {
                    let target = compaction.targets[i + 1].clone();
                    assert(compaction.targets.deep_view()[i + 1]
                        == compaction.targets@[i + 1].deep_view());
                    compaction.phase = CompactPhase::Calling(i + 1);
                    CompactAction::Call(target)
                } else {
                    compaction.phase = CompactPhase::TrimmingFifo;
                    CompactAction::TrimFifo
                }
            },
            (
                CompactPhase::Calling(_),
                CompactEvent::Summarised { model, summary, stripped, usage },
            ) => {
                match self.session.conversation.take() {
                    Some(mut conversation) => {
                        conversation.push_op(ConversationOp::AccumulateCompactionUsage(usage));
                        self.session.conversation = Some(conversation);
                    },
                    None => {},
                }
                self.session_core.send(ChunkEvent::AgentUsage(usage));
                let text = stripped.clone();
                compaction.phase = CompactPhase::Replacing { model, summary, stripped };
                CompactAction::Replace { summary: text, keep_last_rounds: KEEP_LAST_ROUNDS }
            },
            (
                CompactPhase::Replacing { model, summary, stripped },
                CompactEvent::Replaced { tokens },
            ) => {
                match self.session.conversation.take() {
                    Some(mut conversation) => {
                        conversation.push_op(ConversationOp::SetHistoryAnchor(tokens));
                        conversation.push_op(
                            ConversationOp::AppendCompaction {
                                summary: stripped,
                                meta: CompactionEventMeta {
                                    compacted_from_id: no_text(),
                                    compacted_to_id: no_text(),
                                    keep_last_rounds: KEEP_LAST_ROUNDS,
                                    model,
                                    before_tokens: compaction.before_tokens,
                                    after_tokens: tokens,
                                },
                            },
                        );
                        self.session.conversation = Some(conversation);
                    },
                    None => {},
                }
                compaction.phase = CompactPhase::Remembering { tokens };
                CompactAction::Remember { summary, session_id }
            },
            (CompactPhase::Remembering { tokens }, CompactEvent::Remembered) => {
                self.session.is_compacted = true;
                if reaches_percent(tokens, CONTEXT_CRITICAL_PERCENT, compaction.budget) {
                    compaction.phase = CompactPhase::TrimmingHard;
                    CompactAction::EmergencyTrim
                } else {
                    compaction.phase = CompactPhase::Done;
                    CompactAction::Finish
                }
            },
            (CompactPhase::TrimmingFifo, CompactEvent::Trimmed { tokens }) => {
                if needs_emergency_trim(tokens, compaction.budget) {
                    compaction.phase = CompactPhase::TrimmingHard;
                    CompactAction::EmergencyTrim
                } else {
                    compaction.phase = CompactPhase::Done;
                    CompactAction::Finish
                }
            },
            (CompactPhase::TrimmingHard, CompactEvent::Trimmed { tokens: _ }) => {
                compaction.phase = CompactPhase::Done;
                CompactAction::Finish
            },
            (phase, _) => {
                compaction.phase = phase;
                CompactAction::Ignore
            },
        }
    }

    /// Tells the world that a compaction is over: its end, the session state,
    /// and, where the model is known, how full the context is now.
    pub fn finish_compaction(
        &mut self,
        model_name: &str,
        input_budget: u64,
        tokens: u64,
        percent: u8,
        totals: UsageTotals,
    )
        ensures
            final(self).session_core.outbox.deep_view() == old(self).with_history_report(
                compaction_ended(old(self).session_core.outbox.deep_view()),
                model_name@,
                input_budget,
                tokens,
                percent,
                totals,
            ),
            *final(self) == (AgentLoop {
                session_core: SessionCore {
                    outbox: final(self).session_core.outbox,
                    ..old(self).session_core
                },
                ..*old(self)
            }),
    {
        self.session_core.send(ChunkEvent::CompactingEnded);
        self.session_core.send(ChunkEvent::SessionState);
        self.report_history(model_name, input_budget, tokens, percent, totals);
    }
}

// ── Laws ────────────────────────────────────────────────────────────────

/// The compaction after the first `n` targets failed.
pub open spec fn after_failures(c: CompactionView, n: int) -> CompactionView
    decreases n,
{
    if n <= 0 {
        c
    } else {
        after_failures(c, n - 1).after(CompactEventView::Failed)
    }
}

/// The targets are asked in order, each once; old messages are dropped only
/// when every target failed.
pub proof fn history_is_cut_only_when_all_targets_fail(c: CompactionView, n: int)
    requires
        c.phase == PhaseView::Calling(0),
        c.targets.len() > 0,
        0 <= n <= c.targets.len(),
    ensures
        after_failures(c, n).targets == c.targets,
        after_failures(c, n).phase == (if n < c.targets.len() {
            PhaseView::Calling(n)
        } else {
            PhaseView::TrimmingFifo
        }),
        0 < n < c.targets.len() ==> after_failures(c, n - 1).next(
            Seq::empty(),
            CompactEventView::Failed,
        ).1 == CompactActionView::Call(c.targets[n]),
    decreases n,
{
    if n > 0 {
        history_is_cut_only_when_all_targets_fail(c, n - 1);
    }
}

/// A summary exists: the history holds it, or is about to.
pub open spec fn summarised(p: PhaseView) -> bool {
    p is Replacing || p is Remembering || p is TrimmingHard || p is Done
}

/// Once there is a summary, no other target is asked and no message is dropped
/// for want of one, whatever happens.
pub proof fn one_summary_is_enough(c: CompactionView, id: Seq<char>, e: CompactEventView)
    requires
        summarised(c.phase),
    ensures
        summarised(c.next(id, e).0),
        !(c.next(id, e).1 is Call),
        !(c.next(id, e).1 is TrimFifo),
{
}

/// How many steps a phase is away from the end, at most.
pub open spec fn steps_left(c: CompactionView) -> int {
    match c.phase {
        PhaseView::Calling(i) => 4 + c.targets.len() - i,
        PhaseView::Replacing { .. } => 3,
        PhaseView::Remembering { .. } => 2,
        PhaseView::TrimmingFifo => 2,
        PhaseView::TrimmingHard => 1,
        PhaseView::Done => 0,
    }
}

/// A compaction ends: every event that belongs to its phase brings it closer
/// to the end, and the step into the end tells the world.
pub proof fn every_compaction_ends(c: CompactionView, id: Seq<char>, e: CompactEventView)
    requires
        c.phase matches PhaseView::Calling(i) ==> 0 <= i < c.targets.len(),
    ensures
        c.next(id, e).1 is Ignore ==> c.after(e) == c,
        !(c.next(id, e).1 is Ignore) ==> 0 <= steps_left(c.after(e)) < steps_left(c),
        c.next(id, e).1 is Finish <==> c.after(e).phase is Done && !(c.phase is Done),
{
}

/// Summary calls never count as the last request, and the log of one
/// compaction holds the usage before the new size and the new size before the
/// summary.
pub proof fn compaction_is_logged_in_order(
    c: CompactionView,
    conv: ConversationView,
    summarised: CompactEventView,
    replaced: CompactEventView,
)
    requires
        c.phase is Calling,
        summarised is Summarised,
        replaced is Replaced,
    ensures
        ({
            let once = c.logged(conv, summarised);
            let twice = c.after(summarised).logged(once, replaced);
            let n = conv.ops.len() as int;
            &&& twice.ops.len() == n + 3
            &&& twice.ops.take(n) == conv.ops
            &&& twice.ops[n] == OpView::AccumulateCompactionUsage(summarised->usage)
            &&& twice.ops[n + 1] == OpView::SetHistoryAnchor(replaced->Replaced_tokens)
            &&& twice.ops[n + 2] is AppendCompaction
            &&& twice.ops[n + 2]->summary == summarised->stripped
            &&& twice.ops[n + 2]->AppendCompaction_meta.after_tokens == replaced->Replaced_tokens
        }),
{
    let once = c.logged(conv, summarised);
    let twice = c.after(summarised).logged(once, replaced);
    assert(twice.ops.take(conv.ops.len() as int) =~= conv.ops);
}

/// The model sees what the log holds: the text that takes the place of the
/// middle of the history is the text that the record of the same compaction
/// logs, and it is the summary without its metadata blocks. The long-term
/// memory gets the full summary, under the id of the session. Three rounds stay,
/// in the history and by the record.
pub proof fn history_log_and_memory_get_their_summaries(
    c: CompactionView,
    conv: ConversationView,
    id: Seq<char>,
    summarised: CompactEventView,
    replaced: CompactEventView,
)
    requires
        c.phase is Calling,
        summarised is Summarised,
        replaced is Replaced,
    ensures
        ({
            let first = c.next(id, summarised);
            let later = c.after(summarised);
            let second = later.next(id, replaced);
            let log = later.logged(conv, replaced);
            let record = log.ops.last();
            &&& first.1 is Replace
            &&& first.1->Replace_summary == summarised->stripped
            &&& first.1->keep_last_rounds == 3
            &&& log.ops.len() == conv.ops.len() + 2
            &&& record is AppendCompaction
            &&& record->summary == first.1->Replace_summary
            &&& record->AppendCompaction_meta.keep_last_rounds == first.1->keep_last_rounds
            &&& record->AppendCompaction_meta.model == summarised->model
            &&& record->AppendCompaction_meta.before_tokens == c.before_tokens
            &&& record->AppendCompaction_meta.after_tokens == replaced->Replaced_tokens
            &&& record->AppendCompaction_meta.compacted_from_id.len() == 0
            &&& record->AppendCompaction_meta.compacted_to_id.len() == 0
            &&& second.1 is Remember
            &&& second.1->Remember_summary == summarised->summary
            &&& second.1->session_id == id
        }),
{
}

/// A summary that leaves the history at nineteen twentieths of its budget or
/// more is followed by cutting the history down; a smaller one ends the
/// compaction. Without a summary the history is cut down only where dropping
/// the oldest messages left it over its budget.
pub proof fn history_is_cut_down_only_where_it_is_too_large(
    c: CompactionView,
    id: Seq<char>,
    tokens: u64,
)
    ensures
        c.phase == (PhaseView::Remembering { tokens }) ==> {
            let next = c.next(id, CompactEventView::Remembered);
            &&& next.1 is EmergencyTrim <==> 20 * tokens >= 19 * c.budget
            &&& next.1 is Finish <==> 20 * tokens < 19 * c.budget
        },
        c.phase is TrimmingFifo ==> {
            let next = c.next(id, CompactEventView::Trimmed { tokens });
            &&& next.1 is EmergencyTrim <==> tokens > c.budget
            &&& next.1 is Finish <==> tokens <= c.budget
        },
        c.phase is TrimmingHard ==> c.next(id, CompactEventView::Trimmed { tokens }).1 is Finish,
{
    assert(CONTEXT_CRITICAL_PERCENT == 95);
}

/// A call that gives a summary is counted once, for the session and for the
/// agent; nothing else that happens in a compaction counts as a call or is
/// logged, but for the record of the summary.
pub proof fn only_summary_calls_are_counted(
    c: CompactionView,
    conv: ConversationView,
    outbox: Seq<ChunkView>,
    e: CompactEventView,
)
    ensures
        c.phase is Calling && e is Summarised ==> {
            &&& c.logged(conv, e).ops == conv.ops.push(
                OpView::AccumulateCompactionUsage(e->usage),
            )
            &&& c.sent(outbox, e) == outbox.push(ChunkView::AgentUsage(e->usage))
        },
        !(c.phase is Calling && e is Summarised) ==> c.sent(outbox, e) == outbox,
        !(c.phase is Calling && e is Summarised) && !(c.phase is Replacing && e is Replaced)
            ==> c.logged(conv, e) == conv,
{
}

/// A failed call is followed by the next target, whatever the session; the
/// last one by dropping the oldest messages.
pub proof fn next_target_follows_a_failure(c: CompactionView, id: Seq<char>, i: int)
    requires
        c.phase == PhaseView::Calling(i),
        0 <= i < c.targets.len(),
    ensures
        i + 1 < c.targets.len() ==> c.next(id, CompactEventView::Failed).1
            == CompactActionView::Call(c.targets[i + 1]),
        i + 1 == c.targets.len() ==> c.next(id, CompactEventView::Failed).1
            == CompactActionView::TrimFifo,
{
}

/// A compaction begins where four fifths of the budget are reached, or where the
/// user forces it, but never without a budget; it begins with the first target
/// and remembers how large the history was.
pub proof fn compactions_begin_when_due(
    budget: u64,
    tokens: u64,
    force: bool,
    targets: Seq<DistillView>,
)
    ensures
        budget == 0 ==> !is_due(budget, tokens, force),
        budget > 0 && force ==> is_due(budget, tokens, force),
        budget > 0 && !force ==> (is_due(budget, tokens, force) <==> 5 * tokens >= 4 * budget),
        CompactionView::begun(budget, tokens, targets).phase == PhaseView::Calling(0),
        CompactionView::begun(budget, tokens, targets).budget == budget,
        CompactionView::begun(budget, tokens, targets).before_tokens == tokens,
        CompactionView::begun(budget, tokens, targets).targets == targets,
{
}

/// A session counts as compacted once the summary was written to the memory, and
/// not sooner.
pub proof fn sessions_are_compacted_by_summaries(c: CompactionView, e: CompactEventView)
    ensures
        c.completed_by(e) ==> c.phase is Remembering && e is Remembered,
        c.phase is Remembering && e is Remembered ==> c.completed_by(e),
        c.phase is Calling || c.phase is TrimmingFifo || c.phase is Done ==> !c.completed_by(e),
{
}

/// The end of a compaction is told before the state of the session.
pub proof fn ends_of_compactions_are_told(outbox: Seq<ChunkView>)
    ensures
        compaction_ended(outbox).len() == outbox.len() + 2,
        compaction_ended(outbox)[outbox.len() as int] == ChunkView::CompactingEnded,
        compaction_ended(outbox).last() == ChunkView::SessionState,
{
}

/// A summary is remembered under the id of the conversation, where there is one.
pub proof fn summaries_are_kept_under_the_conversation(l: AgentLoop)
    ensures
        l.session.conversation matches Some(c) ==> l.conversation_id() == c.session_id@,
        l.session.conversation is None ==> l.conversation_id().len() == 0,
{
}

/// An event that does not belong to the phase is passed over: nothing is done,
/// logged or told.
pub proof fn events_out_of_turn_are_passed_over(
    c: CompactionView,
    id: Seq<char>,
    e: CompactEventView,
    conv: ConversationView,
    outbox: Seq<ChunkView>,
)
    requires
        !(c.phase is Calling && (e is Failed || e is Summarised)),
        !(c.phase is Replacing && e is Replaced),
        !(c.phase is Remembering && e is Remembered),
        !((c.phase is TrimmingFifo || c.phase is TrimmingHard) && e is Trimmed),
    ensures
        c.next(id, e).0 == c.phase,
        c.next(id, e).1 is Ignore,
        c.logged(conv, e) == conv,
        c.sent(outbox, e) == outbox,
        !c.completed_by(e),
{
}

/// Of a summary both forms are known, the whole one and the one that the history
/// gets, each by its own name; and so are the parts of what is done with them.
pub proof fn summaries_are_told_apart(e: CompactEvent, a: CompactAction)
    ensures
        e matches CompactEvent::Summarised { model, summary, stripped, usage } ==> {
            &&& e.deep_view() is Summarised
            &&& e.deep_view()->model == model@
            &&& e.deep_view()->summary == summary@
            &&& e.deep_view()->stripped == stripped@
            &&& e.deep_view()->usage == usage
        },
        e matches CompactEvent::Replaced { tokens } ==> e.deep_view() is Replaced
            && e.deep_view()->Replaced_tokens == tokens,
        e matches CompactEvent::Trimmed { tokens } ==> e.deep_view() is Trimmed
            && e.deep_view()->Trimmed_tokens == tokens,
        a matches CompactAction::Replace { summary, keep_last_rounds } ==> a.deep_view() is Replace
            && a.deep_view()->Replace_summary == summary@ && a.deep_view()->keep_last_rounds
            == keep_last_rounds,
        a matches CompactAction::Remember { summary, session_id } ==> a.deep_view() is Remember
            && a.deep_view()->Remember_summary == summary@ && a.deep_view()->session_id
            == session_id@,
{
}

} // verus!
