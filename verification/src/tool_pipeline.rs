//! The way of the tool calls of one turn: deduplication, loop detection before
//! the run, routing, and the merge of the results.

use vstd::prelude::*;

use crate::agent_loop::AgentLoop;
use crate::message::{ToolCall, ToolCallView};
use crate::session::{ChunkView, SessionCore, SessionState, SessionStatus, StatusView};
use crate::text::{list_contains, same_text};

verus! {

// ── Deduplication ───────────────────────────────────────────────────────

/// What makes two calls of one turn the same.
pub open spec fn signature(call: ToolCallView) -> Seq<char> {
    call.name + ":"@ + call.arguments
}

/// Some call of `calls` has the signature `sig`.
pub open spec fn has_signature(calls: Seq<ToolCallView>, sig: Seq<char>) -> bool {
    exists|i: int| 0 <= i < calls.len() && signature(#[trigger] calls[i]) == sig
}

/// The first call of each signature, in order.
pub open spec fn deduped(calls: Seq<ToolCallView>) -> Seq<ToolCallView>
    decreases calls.len(),
{
    if calls.len() == 0 {
        calls
    } else {
        let before = deduped(calls.drop_last());
        if has_signature(calls.drop_last(), signature(calls.last())) {
            before
        } else {
            before.push(calls.last())
        }
    }
}

fn signature_of(call: &ToolCall) -> (s: String)
    ensures
        s@ == signature(call.deep_view()),
{
    crate::text::join3(
        call.function.name.as_str(),
        ":",
        call.function.arguments.as_str(),
    )
}

/// The first call of each signature, in order.
pub fn dedup_tool_calls(calls: &Vec<ToolCall>) -> (r: Vec<ToolCall>)
    ensures
        r.deep_view() == deduped(calls.deep_view()),
{
    let ghost all = calls.deep_view();
    let mut seen: Vec<String> = Vec::new();
    let mut out: Vec<ToolCall> = Vec::new();
    let mut i: usize = 0;
    assert(all.take(0) =~= Seq::empty());
    assert(out.deep_view() =~= deduped(all.take(0)));
    while i < calls.len()
        invariant
            i <= calls.len(),
            all == calls.deep_view(),
            seen.len() == i,
            forall|k: int| 0 <= k < i ==> (#[trigger] seen@[k])@ == signature(all[k]),
            out.deep_view() == deduped(all.take(i as int)),
        decreases calls.len() - i,
    {
        let ghost before_calls = all.take(i as int);
        assert(all.take(i + 1).drop_last() =~= before_calls);
        assert(all[i as int] == calls@[i as int].deep_view());
        let sig = signature_of(&calls[i]);
        let known = list_contains(&seen, sig.as_str());
        proof {
            let sigs = seen.deep_view();
            if known {
                let h = choose|h: int| 0 <= h < sigs.len() && sigs[h] == sig@;
                assert(sigs[h] == seen@[h]@);
                assert(signature(before_calls[h]) == sig@);
            } else if has_signature(before_calls, sig@) {
                let h = choose|h: int|
                    0 <= h < before_calls.len() && signature(#[trigger] before_calls[h]) == sig@;
                assert(seen@[h]@ == signature(all[h]));
                assert(sigs[h] == sig@);
            }
        }
        seen.push(sig);
        if !known {
            let ghost before = out.deep_view();
            let copy = calls[i].clone();
            out.push(copy);
            assert(out.deep_view() =~= before.push(all[i as int]));
        }
        i = i + 1;
    }
    assert(all.take(calls.len() as int) =~= all);
    out
}

// ── Loop detection before the run ───────────────────────────────────────

/// How the loop detector answers.
#[derive(Clone, Copy, Debug, PartialEq, Eq, Structural)]
pub enum ResponseLevel {
    Warning,
    Block,
    Break,
}

/// The kind of a loop.
#[derive(Clone, Copy, Debug, PartialEq, Eq, Structural)]
pub enum LoopPattern {
    /// One tool is called too often in a short time.
    SameToolFlood,
    /// The same call again and again.
    ExactRepeat,
    /// Calls alternate without end.
    PingPong,
    /// Different calls, the same result.
    NoProgress,
}

/// What the loop detector says of one call.
#[derive(Debug)]
pub enum LoopVerdict {
    NoLoop,
    Loop { level: ResponseLevel, pattern: LoopPattern, message: String },
}

/// A verdict that keeps a call from running. A warning does not.
pub open spec fn blocks(v: LoopVerdict) -> bool {
    v matches LoopVerdict::Loop { level, .. } && level != ResponseLevel::Warning
}

/// The calls that may run.
pub open spec fn allowed(calls: Seq<ToolCallView>, verdicts: Seq<LoopVerdict>) -> Seq<ToolCallView>
    decreases calls.len(),
{
    if calls.len() == 0 {
        calls
    } else {
        let n = calls.len() - 1;
        let before = allowed(calls.drop_last(), verdicts);
        if blocks(verdicts[n]) {
            before
        } else {
            before.push(calls.last())
        }
    }
}

/// The calls that are blocked: their places, and the pattern of each.
pub open spec fn blocked(n: int, verdicts: Seq<LoopVerdict>) -> Seq<(usize, LoopPattern)>
    decreases n,
{
    if n <= 0 {
        Seq::empty()
    } else {
        let before = blocked(n - 1, verdicts);
        if blocks(verdicts[n - 1]) {
            before.push(((n - 1) as usize, verdicts[n - 1]->pattern))
        } else {
            before
        }
    }
}

/// Pre-execution loop detection: which calls run, and which are blocked.
/// `verdicts` holds what the detector says of each call.
pub fn pre_check_loop_detection(
    deduped_calls: &Vec<ToolCall>,
    verdicts: &Vec<LoopVerdict>,
) -> (r: (Vec<ToolCall>, Vec<(usize, LoopPattern)>))
    requires
        verdicts.len() == deduped_calls.len(),
    ensures
        r.0.deep_view() == allowed(deduped_calls.deep_view(), verdicts@),
        r.1@ == blocked(deduped_calls.len() as int, verdicts@),
{
    let ghost all = deduped_calls.deep_view();
    let mut run: Vec<ToolCall> = Vec::new();
    let mut stop: Vec<(usize, LoopPattern)> = Vec::new();
    let mut i: usize = 0;
    assert(all.take(0) =~= Seq::empty());
    assert(run.deep_view() =~= allowed(all.take(0), verdicts@));
    while i < deduped_calls.len()
        invariant
            i <= deduped_calls.len(),
            verdicts.len() == deduped_calls.len(),
            all == deduped_calls.deep_view(),
            run.deep_view() == allowed(all.take(i as int), verdicts@),
            stop@ == blocked(i as int, verdicts@),
        decreases deduped_calls.len() - i,
    {
        assert(all.take(i + 1).drop_last() =~= all.take(i as int));
        assert(all[i as int] == deduped_calls@[i as int].deep_view());
        let ghost before = run.deep_view();
        match &verdicts[i] {
            LoopVerdict::NoLoop => {
                let copy = deduped_calls[i].clone();
                run.push(copy);
                assert(run.deep_view() =~= before.push(all[i as int]));
            },
            LoopVerdict::Loop { level, pattern, .. } => {
                if *level == ResponseLevel::Warning {
                    let copy = deduped_calls[i].clone();
                    run.push(copy);
                    assert(run.deep_view() =~= before.push(all[i as int]));
                } else {
                    stop.push((i, *pattern));
                }
            },
        }
        i = i + 1;
    }
    assert(all.take(deduped_calls.len() as int) =~= all);
    (run, stop)
}

// ── Routing ─────────────────────────────────────────────────────────────

/// How a call is carried out.
#[derive(Clone, Copy, Debug, PartialEq, Eq, Structural)]
pub enum CallRoute {
    /// Ask the user and wait for the answer.
    AskUser,
    /// Update the todo list of the session.
    TodoWrite,
    /// Run beside the others.
    Parallel,
}

/// The route of a call, by the name of its tool.
pub open spec fn route_spec(name: Seq<char>) -> CallRoute {
    if name == "ask_user_question"@ {
        CallRoute::AskUser
    } else if name == "todo_write"@ {
        CallRoute::TodoWrite
    } else {
        CallRoute::Parallel
    }
}

/// The route of a call, by the name of its tool.
pub fn route_call(name: &str) -> (r: CallRoute)
    ensures
        r == route_spec(name@),
{
    if same_text(name, "ask_user_question") {
        CallRoute::AskUser
    } else if same_text(name, "todo_write") {
        CallRoute::TodoWrite
    } else {
        CallRoute::Parallel
    }
}

/// How many of the first `n` calls run beside the others.
pub open spec fn side_by_side(calls: Seq<ToolCallView>, n: int) -> int
    decreases n,
{
    if n <= 0 {
        0
    } else {
        side_by_side(calls, n - 1) + if route_spec(calls[n - 1].name) == CallRoute::Parallel {
            1int
        } else {
            0int
        }
    }
}

/// The calls that run beside each other, in order.
pub open spec fn parallel_calls(calls: Seq<ToolCallView>) -> Seq<ToolCallView>
    decreases calls.len(),
{
    if calls.len() == 0 {
        calls
    } else {
        let before = parallel_calls(calls.drop_last());
        if route_spec(calls.last().name) == CallRoute::Parallel {
            before.push(calls.last())
        } else {
            before
        }
    }
}

/// The calls of a turn on their way.
#[derive(Debug)]
pub struct Dispatch {
    /// The route of each call.
    pub routes: Vec<CallRoute>,
    /// The calls that run beside each other.
    pub parallel: Vec<ToolCall>,
}

impl AgentLoop {
    /// Sends the calls of a turn on their way: the session shows that tools
    /// run, and each call gets its route.
    pub fn begin_dispatch(&mut self, calls: &Vec<ToolCall>) -> (r: Dispatch)
        ensures
            r.routes.len() == calls.len(),
            forall|i: int|
                0 <= i < calls.len() ==> (#[trigger] r.routes@[i]) == route_spec(
                    calls.deep_view()[i].name,
                ),
            r.parallel.deep_view() == parallel_calls(calls.deep_view()),
            final(self).session.status.deep_view() == StatusView::ToolExecuting,
            final(self).session_core.outbox.deep_view() == (if old(
                self,
            ).session.status.deep_view() == StatusView::ToolExecuting {
                old(self).session_core.outbox.deep_view()
            } else {
                old(self).session_core.outbox.deep_view().push(ChunkView::SessionState)
            }),
            *final(self) == (AgentLoop {
                session: SessionState { status: final(self).session.status, ..old(self).session },
                session_core: SessionCore {
                    outbox: final(self).session_core.outbox,
                    ..old(self).session_core
                },
                ..*old(self)
            }),
    {
        let _ = self.transition_status(SessionStatus::ToolExecuting);
        let ghost all = calls.deep_view();
        let mut routes: Vec<CallRoute> = Vec::new();
        let mut parallel: Vec<ToolCall> = Vec::new();
        let mut i: usize = 0;
        assert(all.take(0) =~= Seq::empty());
        assert(parallel.deep_view() =~= parallel_calls(all.take(0)));
        while i < calls.len()
            invariant
                i <= calls.len(),
                all == calls.deep_view(),
                routes.len() == i,
                forall|k: int|
                    0 <= k < i ==> (#[trigger] routes@[k]) == route_spec(all[k].name),
                parallel.deep_view() == parallel_calls(all.take(i as int)),
            decreases calls.len() - i,
        {
            assert(all.take(i + 1).drop_last() =~= all.take(i as int));
            assert(all[i as int] == calls@[i as int].deep_view());
            let route = route_call(calls[i].function.name.as_str());
            if route == CallRoute::Parallel {
                let ghost before = parallel.deep_view();
                let copy = calls[i].clone();
                parallel.push(copy);
                assert(parallel.deep_view() =~= before.push(all[i as int]));
            }
            routes.push(route);
            i = i + 1;
        }
        assert(all.take(calls.len() as int) =~= all);
        Dispatch { routes, parallel }
    }
}

// ── Merging ─────────────────────────────────────────────────────────────

/// A tool result: its text, and whether it is shown only once.
pub type ToolResult = (String, bool);

/// How many of the first `n` calls ran beside the others.
pub open spec fn parallel_before(special: Seq<Option<(Seq<char>, bool)>>, n: int) -> int
    decreases n,
{
    if n <= 0 {
        0
    } else {
        parallel_before(special, n - 1) + if special[n - 1] is None {
            1int
        } else {
            0int
        }
    }
}

/// The results of the executed calls in order: those of the special calls at
/// their places, those of the others in between.
pub open spec fn executed_results(
    special: Seq<Option<(Seq<char>, bool)>>,
    parallel: Seq<(Seq<char>, bool)>,
) -> Seq<(Seq<char>, bool)> {
    Seq::new(
        special.len(),
        |i: int|
            match special[i] {
                Some(r) => r,
                None => parallel[parallel_before(special, i)],
            },
    )
}

proof fn lemma_parallel_before(special: Seq<Option<(Seq<char>, bool)>>, i: int, n: int)
    requires
        0 <= i <= n <= special.len(),
    ensures
        0 <= parallel_before(special, i) <= parallel_before(special, n),
        parallel_before(special, i) <= i,
        i < n && special[i] is None ==> parallel_before(special, i) < parallel_before(special, n),
    decreases n,
{
    if n > 0 {
        if i < n {
            lemma_parallel_before(special, i, n - 1);
        } else {
            lemma_parallel_before(special, i - 1, n - 1);
        }
    }
}

/// Merges the results of the special calls, at their places, with those of the
/// calls that ran in parallel, in order.
pub fn merge_executed(special: &Vec<Option<ToolResult>>, parallel: &Vec<ToolResult>) -> (r: Vec<
    ToolResult,
>)
    requires
        parallel.len() == parallel_before(special.deep_view(), special.len() as int),
    ensures
        r.deep_view() == executed_results(special.deep_view(), parallel.deep_view()),
{
    let ghost places = special.deep_view();
    let ghost want = executed_results(places, parallel.deep_view());
    let mut out: Vec<ToolResult> = Vec::new();
    let mut used: usize = 0;
    let mut i: usize = 0;
    while i < special.len()
        invariant
            i <= special.len(),
            out.len() == i,
            places == special.deep_view(),
            want == executed_results(places, parallel.deep_view()),
            parallel.len() == parallel_before(places, special.len() as int),
            used == parallel_before(places, i as int),
            used <= parallel.len(),
            forall|k: int| 0 <= k < i ==> (#[trigger] out@[k]).deep_view() == want[k],
        decreases special.len() - i,
    {
        proof {
            lemma_parallel_before(places, i as int, special.len() as int);
            lemma_parallel_before(places, i + 1, special.len() as int);
            assert(places[i as int] == special@[i as int].deep_view());
        }
        let entry: ToolResult = match &special[i] {
            Some(r) => (r.0.clone(), r.1),
            None => {
                assert(parallel.deep_view()[used as int] == parallel@[used as int].deep_view());
                let r: ToolResult = (parallel[used].0.clone(), parallel[used].1);
                used = used + 1;
                r
            },
        };
        assert(entry.deep_view() == want[i as int]);
        out.push(entry);
        i = i + 1;
    }
    assert(out.deep_view() =~= want);
    out
}

/// The pattern of the blocked call at `idx`, from position `from` on.
pub open spec fn blocked_pattern(
    info: Seq<(usize, LoopPattern)>,
    idx: int,
    from: int,
) -> Option<LoopPattern>
    decreases info.len() - from,
{
    if from < 0 || from >= info.len() {
        None
    } else if info[from].0 == idx {
        Some(info[from].1)
    } else {
        blocked_pattern(info, idx, from + 1)
    }
}

/// What the model is told of a blocked call.
pub open spec fn blocked_message(pattern: LoopPattern) -> Seq<char> {
    if pattern == LoopPattern::SameToolFlood {
        "Loop detected: this tool has been called too many times in a short period. Please STOP using this tool and try a different approach (e.g., use file_read to verify results, or switch to another tool)."@
    } else {
        "Loop detected: this tool call has been blocked because it was repeated too many times with the same parameters. Try a different approach."@
    }
}

/// How many of the first `n` calls were not blocked.
pub open spec fn executed_before(info: Seq<(usize, LoopPattern)>, n: int) -> int
    decreases n,
{
    if n <= 0 {
        0
    } else {
        executed_before(info, n - 1) + if blocked_pattern(info, n - 1, 0) is None {
            1int
        } else {
            0int
        }
    }
}

/// One result per call, in the order of the calls: the reason for a blocked
/// one, its result for any other; nothing where a result is missing.
pub open spec fn merged_results(
    n: nat,
    info: Seq<(usize, LoopPattern)>,
    executed: Seq<(Seq<char>, bool)>,
) -> Seq<(Seq<char>, bool)> {
    Seq::new(
        n,
        |i: int|
            match blocked_pattern(info, i, 0) {
                Some(p) => (blocked_message(p), false),
                None => if executed_before(info, i) < executed.len() {
                    executed[executed_before(info, i)]
                } else {
                    (Seq::empty(), false)
                },
            },
    )
}

fn find_blocked(info: &Vec<(usize, LoopPattern)>, idx: usize) -> (r: Option<LoopPattern>)
    ensures
        r == blocked_pattern(info@, idx as int, 0),
{
    let mut k: usize = 0;
    while k < info.len()
        invariant
            k <= info.len(),
            blocked_pattern(info@, idx as int, 0) == blocked_pattern(info@, idx as int, k as int),
        decreases info.len() - k,
    {
        if info[k].0 == idx {
            return Some(info[k].1);
        }
        k = k + 1;
    }
    None
}

proof fn lemma_executed_before(info: Seq<(usize, LoopPattern)>, n: int)
    requires
        0 <= n,
    ensures
        0 <= executed_before(info, n) <= n,
    decreases n,
{
    if n > 0 {
        lemma_executed_before(info, n - 1);
    }
}

/// Merges the results of the executed calls with the reasons of the blocked
/// ones, in the order of the `n` calls.
pub fn merge_tool_results(
    n: usize,
    blocked_info: &Vec<(usize, LoopPattern)>,
    executed: &Vec<ToolResult>,
) -> (r: Vec<ToolResult>)
    ensures
        r.deep_view() == merged_results(n as nat, blocked_info@, executed.deep_view()),
{
    let ghost want = merged_results(n as nat, blocked_info@, executed.deep_view());
    let mut out: Vec<ToolResult> = Vec::new();
    let mut used: usize = 0;
    let mut i: usize = 0;
    while i < n
        invariant
            i <= n,
            out.len() == i,
            want == merged_results(n as nat, blocked_info@, executed.deep_view()),
            used == executed_before(blocked_info@, i as int),
            used <= i,
            forall|k: int| 0 <= k < i ==> (#[trigger] out@[k]).deep_view() == want[k],
        decreases n - i,
    {
        proof {
            lemma_executed_before(blocked_info@, i + 1);
        }
        let entry: ToolResult = match find_blocked(blocked_info, i) {
            Some(LoopPattern::SameToolFlood) => (
                "Loop detected: this tool has been called too many times in a short period. Please STOP using this tool and try a different approach (e.g., use file_read to verify results, or switch to another tool).".to_owned(),
                false,
            ),
            Some(_) => (
                "Loop detected: this tool call has been blocked because it was repeated too many times with the same parameters. Try a different approach.".to_owned(),
                false,
            ),
            None => {
                let r: ToolResult = if used < executed.len() {
                    assert(executed.deep_view()[used as int] == executed@[used as int].deep_view());
                    (executed[used].0.clone(), executed[used].1)
                } else {
                    (String::new(), false)
                };
                used = used + 1;
                r
            },
        };
        assert(entry.deep_view() == want[i as int]);
        out.push(entry);
        i = i + 1;
    }
    assert(out.deep_view() =~= want);
    out
}

/// All results of a turn, one per call, in the order of the `n` calls: the
/// reasons of the blocked ones, the results of the special ones at their
/// places among the calls that were allowed, and those of the calls that ran
/// in parallel in between.
pub fn dispatch_and_merge_tools(
    n: usize,
    blocked_info: &Vec<(usize, LoopPattern)>,
    special: &Vec<Option<ToolResult>>,
    parallel: &Vec<ToolResult>,
) -> (r: Vec<ToolResult>)
    requires
        parallel.len() == parallel_before(special.deep_view(), special.len() as int),
    ensures
        r.deep_view() == merged_results(
            n as nat,
            blocked_info@,
            executed_results(special.deep_view(), parallel.deep_view()),
        ),
{
    let executed = merge_executed(special, parallel);
    merge_tool_results(n, blocked_info, &executed)
}

// ── Laws ────────────────────────────────────────────────────────────────

/// No two calls that remain have the same signature.
pub proof fn deduped_calls_are_distinct(calls: Seq<ToolCallView>, i: int, j: int)
    requires
        0 <= i < j < deduped(calls).len(),
    ensures
        signature(deduped(calls)[i]) != signature(deduped(calls)[j]),
    decreases calls.len(),
{
    let rest = calls.drop_last();
    let before = deduped(rest);
    if j < before.len() {
        deduped_calls_are_distinct(rest, i, j);
    } else {
        lemma_deduped_from(rest, i);
        if signature(before[i]) == signature(calls.last()) {
            let k = choose|k: int| 0 <= k < rest.len() && #[trigger] rest[k] == before[i];
            assert(signature(rest[k]) == signature(calls.last()));
        }
    }
}

proof fn lemma_deduped_from(calls: Seq<ToolCallView>, i: int)
    requires
        0 <= i < deduped(calls).len(),
    ensures
        exists|k: int| 0 <= k < calls.len() && #[trigger] calls[k] == deduped(calls)[i],
    decreases calls.len(),
{
    let rest = calls.drop_last();
    if i < deduped(rest).len() {
        lemma_deduped_from(rest, i);
        let k = choose|k: int| 0 <= k < rest.len() && #[trigger] rest[k] == deduped(rest)[i];
        assert(calls[k] == deduped(calls)[i]);
    } else {
        assert(calls[calls.len() - 1] == deduped(calls)[i]);
    }
}

/// No signature is lost: every call of the turn is among those that remain, or
/// one with the same tool and arguments text is.
pub proof fn deduplication_loses_no_signature(calls: Seq<ToolCallView>)
    ensures
        forall|sig: Seq<char>|
            has_signature(calls, sig) == #[trigger] has_signature(deduped(calls), sig),
    decreases calls.len(),
{
    if calls.len() > 0 {
        let rest = calls.drop_last();
        let before = deduped(rest);
        let after = deduped(calls);
        deduplication_loses_no_signature(rest);
        assert forall|sig: Seq<char>|
            has_signature(calls, sig) == #[trigger] has_signature(after, sig) by {
            if has_signature(calls, sig) {
                let i = choose|i: int| 0 <= i < calls.len() && signature(#[trigger] calls[i]) == sig;
                if i < rest.len() {
                    assert(signature(rest[i]) == sig);
                    assert(has_signature(rest, sig));
                    assert(has_signature(before, sig));
                    let k = choose|k: int|
                        0 <= k < before.len() && signature(#[trigger] before[k]) == sig;
                    assert(signature(after[k]) == sig);
                } else if has_signature(rest, sig) {
                    assert(has_signature(before, sig));
                } else {
                    assert(signature(after[after.len() - 1]) == sig);
                }
            }
            if has_signature(after, sig) {
                let k = choose|k: int| 0 <= k < after.len() && signature(#[trigger] after[k]) == sig;
                lemma_deduped_from(calls, k);
                let i = choose|i: int| 0 <= i < calls.len() && #[trigger] calls[i] == after[k];
                assert(signature(calls[i]) == sig);
            }
        }
    }
}

/// Every call gets a result, and a blocked one the reason for it.
pub proof fn blocked_calls_get_their_reason(
    n: nat,
    info: Seq<(usize, LoopPattern)>,
    executed: Seq<(Seq<char>, bool)>,
    i: int,
)
    requires
        0 <= i < n,
    ensures
        merged_results(n, info, executed).len() == n,
        blocked_pattern(info, i, 0) is Some ==> merged_results(n, info, executed)[i] == (
            blocked_message(blocked_pattern(info, i, 0)->0),
            false,
        ),
{
}

proof fn lemma_blocked_pattern_of(verdicts: Seq<LoopVerdict>, n: int, idx: int)
    requires
        0 <= n <= verdicts.len(),
        n <= usize::MAX,
        0 <= idx,
    ensures
        ({
            let info = blocked(n, verdicts);
            &&& info.len() <= n
            &&& forall|k: int| 0 <= k < info.len() ==> (#[trigger] info[k]).0 < n
            &&& blocked_pattern(info, idx, 0) == if idx < n && blocks(verdicts[idx]) {
                Some(verdicts[idx]->pattern)
            } else {
                None
            }
        }),
    decreases n,
{
    if n > 0 {
        lemma_blocked_pattern_of(verdicts, n - 1, idx);
        let before = blocked(n - 1, verdicts);
        if blocks(verdicts[n - 1]) {
            lemma_pattern_push(before, ((n - 1) as usize, verdicts[n - 1]->pattern), idx, 0);
        }
    }
}

proof fn lemma_pattern_push(
    info: Seq<(usize, LoopPattern)>,
    entry: (usize, LoopPattern),
    idx: int,
    from: int,
)
    requires
        0 <= from <= info.len(),
    ensures
        blocked_pattern(info.push(entry), idx, from) == match blocked_pattern(info, idx, from) {
            Some(p) => Some(p),
            None => if entry.0 == idx {
                Some(entry.1)
            } else {
                None
            },
        },
    decreases info.len() - from,
{
    if from < info.len() {
        if info[from].0 != idx {
            lemma_pattern_push(info, entry, idx, from + 1);
        }
    } else {
        assert(blocked_pattern(info.push(entry), idx, from + 1) is None);
    }
}

proof fn lemma_allowed_at(calls: Seq<ToolCallView>, verdicts: Seq<LoopVerdict>, i: int)
    requires
        calls.len() <= verdicts.len() <= usize::MAX,
        0 <= i < calls.len(),
        !blocks(verdicts[i]),
    ensures
        ({
            let info = blocked(verdicts.len() as int, verdicts);
            &&& 0 <= executed_before(info, i) < allowed(calls, verdicts).len()
            &&& allowed(calls, verdicts)[executed_before(info, i)] == calls[i]
        }),
    decreases calls.len(),
{
    let info = blocked(verdicts.len() as int, verdicts);
    let rest = calls.drop_last();
    if i < rest.len() {
        lemma_allowed_at(rest, verdicts, i);
    } else {
        lemma_allowed_len(rest, verdicts);
        lemma_executed_before(info, i);
    }
}

proof fn lemma_allowed_len(calls: Seq<ToolCallView>, verdicts: Seq<LoopVerdict>)
    requires
        calls.len() <= verdicts.len() <= usize::MAX,
    ensures
        allowed(calls, verdicts).len() == executed_before(
            blocked(verdicts.len() as int, verdicts),
            calls.len() as int,
        ),
    decreases calls.len(),
{
    if calls.len() > 0 {
        lemma_allowed_len(calls.drop_last(), verdicts);
        lemma_blocked_pattern_of(verdicts, verdicts.len() as int, calls.len() - 1);
    }
}

/// A call that was not blocked gets its own result: where every allowed call
/// was executed, and `executed` holds the results in the order of the allowed
/// calls, the result at the place of a call is the one made for that call.
pub proof fn results_go_to_their_calls(
    calls: Seq<ToolCallView>,
    verdicts: Seq<LoopVerdict>,
    executed: Seq<(Seq<char>, bool)>,
    i: int,
)
    requires
        calls.len() == verdicts.len() <= usize::MAX,
        executed.len() == allowed(calls, verdicts).len(),
        0 <= i < calls.len(),
        !blocks(verdicts[i]),
    ensures
        ({
            let info = blocked(calls.len() as int, verdicts);
            let at = executed_before(info, i);
            &&& 0 <= at < executed.len()
            &&& allowed(calls, verdicts)[at] == calls[i]
            &&& merged_results(calls.len(), info, executed)[i] == executed[at]
        }),
{
    lemma_allowed_at(calls, verdicts, i);
    lemma_blocked_pattern_of(verdicts, verdicts.len() as int, i);
}

proof fn lemma_parallel_calls(calls: Seq<ToolCallView>, i: int)
    requires
        0 <= i < calls.len(),
    ensures
        parallel_calls(calls).len() == side_by_side(calls, calls.len() as int),
        0 <= side_by_side(calls, i),
        route_spec(calls[i].name) == CallRoute::Parallel ==> side_by_side(calls, i)
            < parallel_calls(calls).len() && parallel_calls(calls)[side_by_side(calls, i)]
            == calls[i],
    decreases calls.len(),
{
    let rest = calls.drop_last();
    lemma_side_by_side_len(calls);
    lemma_side_by_side_len(rest);
    lemma_same_start(calls, i);
    if i < rest.len() {
        lemma_parallel_calls(rest, i);
        assert(rest[i] == calls[i]);
        let at = side_by_side(rest, i);
        if route_spec(calls[i].name) == CallRoute::Parallel {
            assert(parallel_calls(calls)[at] == parallel_calls(rest)[at]);
        }
    } else {
        assert(side_by_side(calls, i) == parallel_calls(rest).len());
    }
}

proof fn lemma_side_by_side_len(calls: Seq<ToolCallView>)
    ensures
        parallel_calls(calls).len() == side_by_side(calls, calls.len() as int),
    decreases calls.len(),
{
    if calls.len() > 0 {
        lemma_side_by_side_len(calls.drop_last());
        lemma_same_start(calls, calls.len() - 1);
    }
}

/// What the first calls are does not depend on the last one.
proof fn lemma_same_start(calls: Seq<ToolCallView>, n: int)
    requires
        0 <= n < calls.len(),
    ensures
        side_by_side(calls, n) == side_by_side(calls.drop_last(), n),
        0 <= side_by_side(calls, n),
    decreases n,
{
    if n > 0 {
        lemma_same_start(calls, n - 1);
    }
}

proof fn lemma_places(
    calls: Seq<ToolCallView>,
    special: Seq<Option<(Seq<char>, bool)>>,
    n: int,
)
    requires
        special.len() == calls.len(),
        forall|k: int|
            0 <= k < calls.len() ==> ((#[trigger] special[k]) is None <==> route_spec(
                calls[k].name,
            ) == CallRoute::Parallel),
        0 <= n <= calls.len(),
    ensures
        parallel_before(special, n) == side_by_side(calls, n),
    decreases n,
{
    if n > 0 {
        lemma_places(calls, special, n - 1);
        assert(special[n - 1] is None <==> route_spec(calls[n - 1].name) == CallRoute::Parallel);
    }
}

/// Each allowed call gets its own result back: where the calls with a route of
/// their own have a result at their place, and `parallel` holds the results of
/// the others in the order in which those were sent on their way, the merge
/// gives every call the result that was made for it.
pub proof fn merged_results_belong_to_their_calls(
    calls: Seq<ToolCallView>,
    special: Seq<Option<(Seq<char>, bool)>>,
    parallel: Seq<(Seq<char>, bool)>,
    i: int,
)
    requires
        special.len() == calls.len(),
        forall|k: int|
            0 <= k < calls.len() ==> ((#[trigger] special[k]) is None <==> route_spec(
                calls[k].name,
            ) == CallRoute::Parallel),
        parallel.len() == parallel_calls(calls).len(),
        0 <= i < calls.len(),
    ensures
        executed_results(special, parallel).len() == calls.len(),
        parallel.len() == parallel_before(special, special.len() as int),
        special[i] matches Some(r) ==> executed_results(special, parallel)[i] == r,
        special[i] is None ==> {
            let at = side_by_side(calls, i);
            &&& 0 <= at < parallel.len()
            &&& parallel_calls(calls)[at] == calls[i]
            &&& executed_results(special, parallel)[i] == parallel[at]
        },
{
    lemma_places(calls, special, i);
    lemma_places(calls, special, calls.len() as int);
    lemma_parallel_calls(calls, i);
    assert(special[i] is None <==> route_spec(calls[i].name) == CallRoute::Parallel);
}

/// Two calls are the same where they call the same tool with the same
/// arguments; two of the same tool, or with the same arguments, are told apart
/// by the rest.
pub proof fn calls_are_told_apart(a: ToolCallView, b: ToolCallView)
    ensures
        a.name == b.name ==> (signature(a) == signature(b) <==> a.arguments == b.arguments),
        a.arguments == b.arguments ==> (signature(a) == signature(b) <==> a.name == b.name),
{
    let x = signature(a);
    let y = signature(b);
    reveal_strlit(":");
    if x == y && a.name == b.name {
        assert(a.arguments =~= b.arguments) by {
            assert(x.len() == y.len());
            assert forall|i: int| 0 <= i < a.arguments.len() implies a.arguments[i]
                == b.arguments[i] by {
                assert(x[a.name.len() + 1 + i] == a.arguments[i]);
                assert(y[a.name.len() + 1 + i] == b.arguments[i]);
            }
        }
    }
    if x == y && a.arguments == b.arguments {
        assert(a.name =~= b.name) by {
            assert(x.len() == y.len());
            assert forall|i: int| 0 <= i < a.name.len() implies a.name[i] == b.name[i] by {
                assert(x[i] == a.name[i]);
                assert(y[i] == b.name[i]);
            }
        }
    }
}

/// Of calls that are the same the first one runs, as it was made, and each of
/// the others is left out: the kept calls are those at the places `at`, in their
/// order, and these are the places where no earlier call is the same.
pub proof fn first_of_each_call_runs(calls: Seq<ToolCallView>) -> (at: Seq<int>)
    ensures
        at.len() == deduped(calls).len(),
        forall|i: int, j: int| 0 <= i < j < at.len() ==> at[i] < at[j],
        forall|i: int|
            0 <= i < at.len() ==> 0 <= #[trigger] at[i] < calls.len() && deduped(calls)[i]
                == calls[at[i]],
        forall|k: int|
            0 <= k < calls.len() ==> (at.contains(k) <==> !has_signature(
                calls.take(k),
                signature(#[trigger] calls[k]),
            )),
    decreases calls.len(),
{
    if calls.len() == 0 {
        Seq::empty()
    } else {
        let before = calls.drop_last();
        let last = calls.len() - 1;
        let at = first_of_each_call_runs(before);
        assert(calls.take(last) =~= before);
        let fresh = !has_signature(before, signature(calls.last()));
        let longer = if fresh {
            at.push(last)
        } else {
            at
        };
        assert forall|k: int| 0 <= k < calls.len() implies (longer.contains(k) <==> !has_signature(
            calls.take(k),
            signature(#[trigger] calls[k]),
        )) by {
            if k < last {
                assert(before[k] == calls[k]);
                assert(before.take(k) =~= calls.take(k));
                if at.contains(k) {
                    let i = choose|i: int| 0 <= i < at.len() && at[i] == k;
                    assert(longer[i] == k);
                }
                if longer.contains(k) {
                    let i = choose|i: int| 0 <= i < longer.len() && longer[i] == k;
                    assert(at[i] == k);
                }
            } else {
                if fresh {
                    assert(longer[at.len() as int] == last);
                }
                if at.contains(last) {
                    let i = choose|i: int| 0 <= i < at.len() && at[i] == last;
                    assert(at[i] < before.len());
                }
            }
        }
        longer
    }
}

/// A call runs unless the loop detector blocks it or breaks the turn off at it;
/// a warning lets it run.
pub proof fn warned_calls_run(v: LoopVerdict)
    ensures
        v is NoLoop ==> !blocks(v),
        v matches LoopVerdict::Loop { level, .. } ==> match level {
            ResponseLevel::Warning => !blocks(v),
            ResponseLevel::Block => blocks(v),
            ResponseLevel::Break => blocks(v),
        },
{
}

/// As many calls run as are not blocked; the blocked ones are listed by their
/// places, in order, each with the pattern that blocked it.
pub proof fn every_call_runs_or_is_blocked(calls: Seq<ToolCallView>, verdicts: Seq<LoopVerdict>)
    requires
        calls.len() <= verdicts.len(),
        calls.len() <= usize::MAX,
    ensures
        ({
            let info = blocked(calls.len() as int, verdicts);
            &&& allowed(calls, verdicts).len() + info.len() == calls.len()
            &&& forall|i: int|
                0 <= i < info.len() ==> (#[trigger] info[i]).0 < calls.len() && blocks(
                    verdicts[info[i].0 as int],
                ) && info[i].1 == verdicts[info[i].0 as int]->pattern
            &&& forall|i: int, j: int| 0 <= i < j < info.len() ==> info[i].0 < info[j].0
        }),
    decreases calls.len(),
{
    if calls.len() > 0 {
        every_call_runs_or_is_blocked(calls.drop_last(), verdicts);
    }
}

/// Two tools are answered by the session itself; all others run side by side.
pub proof fn calls_are_routed_by_name(name: Seq<char>)
    ensures
        route_spec(name) == CallRoute::AskUser <==> name == "ask_user_question"@,
        route_spec(name) == CallRoute::TodoWrite <==> name == "todo_write"@,
        route_spec(name) == CallRoute::Parallel <==> name != "ask_user_question"@ && name
            != "todo_write"@,
{
    reveal_strlit("ask_user_question");
    reveal_strlit("todo_write");
    assert("ask_user_question"@.len() != "todo_write"@.len());
}

/// The calls that run side by side, of two stretches of calls one after the
/// other.
pub proof fn side_by_side_calls_keep_their_order(
    a: Seq<ToolCallView>,
    b: Seq<ToolCallView>,
    call: ToolCallView,
)
    ensures
        parallel_calls(a + b) == parallel_calls(a) + parallel_calls(b),
        route_spec(call.name) == CallRoute::Parallel ==> parallel_calls(seq![call]) == seq![call],
        route_spec(call.name) != CallRoute::Parallel ==> parallel_calls(seq![call]).len() == 0,
    decreases b.len(),
{
    let none = Seq::<ToolCallView>::empty();
    assert(seq![call].drop_last() =~= none);
    assert(parallel_calls(none) =~= none);
    assert(none.push(call) =~= seq![call]);
    if b.len() == 0 {
        assert(a + b =~= a);
        assert(parallel_calls(a) + parallel_calls(b) =~= parallel_calls(a));
    } else {
        side_by_side_calls_keep_their_order(a, b.drop_last(), call);
        assert((a + b).drop_last() =~= a + b.drop_last());
        assert((a + b).last() == b.last());
        assert(parallel_calls(a + b) =~= parallel_calls(a) + parallel_calls(b));
    }
}

/// A blocked call is answered by what blocked it: a flood of calls of one tool
/// by the advice to stop using it, any other loop by the advice to try another
/// way.
pub proof fn blocked_calls_are_told_why(p: LoopPattern)
    ensures
        p == LoopPattern::SameToolFlood ==> blocked_message(p)
            == "Loop detected: this tool has been called too many times in a short period. Please STOP using this tool and try a different approach (e.g., use file_read to verify results, or switch to another tool)."@,
        p != LoopPattern::SameToolFlood ==> blocked_message(p)
            == "Loop detected: this tool call has been blocked because it was repeated too many times with the same parameters. Try a different approach."@,
{
}

/// Two calls are the same where their tools and their arguments are, as long as
/// the names hold no colon.
pub proof fn same_calls_have_one_signature(a: ToolCallView, b: ToolCallView)
    requires
        forall|i: int| 0 <= i < a.name.len() ==> #[trigger] a.name[i] != ':',
        forall|i: int| 0 <= i < b.name.len() ==> #[trigger] b.name[i] != ':',
    ensures
        signature(a) == signature(b) <==> a.name == b.name && a.arguments == b.arguments,
{
    reveal_strlit(":");
    assert(":"@.len() == 1 && ":"@[0] == ':');
    let n = a.name.len() as int;
    let m = b.name.len() as int;
    if signature(a) == signature(b) {
        assert(signature(a)[n] == ':');
        assert(signature(b)[m] == ':');
        if n < m {
            assert(signature(b)[n] == b.name[n]);
        }
        if m < n {
            assert(signature(a)[m] == a.name[m]);
        }
        assert(n == m);
        assert(a.name =~= signature(a).take(n));
        assert(b.name =~= signature(b).take(n));
        assert(a.arguments =~= signature(a).skip(n + 1));
        assert(b.arguments =~= signature(b).skip(n + 1));
    }
}

/// A blocked call is answered by why it was blocked, whatever ran; a call whose
/// result is missing is answered by nothing.
pub proof fn blocked_calls_are_answered_by_their_pattern(
    calls: Seq<ToolCallView>,
    verdicts: Seq<LoopVerdict>,
    executed: Seq<(Seq<char>, bool)>,
    i: int,
)
    requires
        calls.len() == verdicts.len() <= usize::MAX,
        0 <= i < calls.len(),
    ensures
        ({
            let info = blocked(calls.len() as int, verdicts);
            let r = merged_results(calls.len(), info, executed)[i];
            &&& blocks(verdicts[i]) ==> r == (blocked_message(verdicts[i]->pattern), false)
            &&& !blocks(verdicts[i]) && executed.len() == 0 ==> r.0.len() == 0 && !r.1
        }),
{
    lemma_blocked_pattern_of(verdicts, verdicts.len() as int, i);
    lemma_executed_count(blocked(calls.len() as int, verdicts), i);
}

proof fn lemma_executed_count(info: Seq<(usize, LoopPattern)>, n: int)
    requires
        0 <= n,
    ensures
        0 <= executed_before(info, n) <= n,
    decreases n,
{
    if n > 0 {
        lemma_executed_count(info, n - 1);
    }
}

} // verus!
