//! What a log gives back of what was written to it: a restore rebuilds the
//! messages that the turns of a session left in its history.

use vstd::prelude::*;

use crate::agent_loop::AgentLoop;
use crate::attachments::{record_text, with_attachments, AttachedView};
use crate::conversation::{ConversationView, EntryView, OpView, PendingView};
use crate::json::{member_from, JsonView};
use crate::message::{ChatMessageView, ChatResponseView, MessageRole, ToolCallView};
use crate::restorer::{
    calls, calls_at, is_call_at, is_paired, last_marker, leading_systems, lemma_systems_end,
    lemma_without_orphans_len, marker_message, outcome, replay, with_call, without_orphans, working,
    Collected, ReplayView,
};
use crate::restore_laws::{lemma_orphans_after_prefix, lemma_replay_systems};
use crate::think::strip_think_spec;
use crate::turn::{call_metadata, thought_of, with_response, with_thought, Records};

verus! {

// ── Lines ───────────────────────────────────────────────────────────────

/// A line on disk. The writer adds an id and the time to what it is given, and
/// nothing else; an attachment is a line of the system, a compaction a line of
/// its own kind.
pub open spec fn is_written(op: OpView, e: EntryView) -> bool {
    match op {
        OpView::Append(p) => {
            &&& e.role == p.role
            &&& e.content == p.content
            &&& e.metadata == p.metadata
            &&& e.kind is None
        },
        OpView::AppendAttachment { content, .. } => is_row(e, "system"@, content),
        OpView::AppendCompaction { summary, .. } => e.is_marker() && e.content == summary,
        _ => false,
    }
}

/// What a conversation was given to write between two moments stands on disk
/// as `rows`.
pub open spec fn lines_written(
    before: ConversationView,
    after: ConversationView,
    rows: Seq<EntryView>,
) -> bool {
    &&& after.ops.len() == before.ops.len() + rows.len()
    &&& forall|i: int|
        0 <= i < rows.len() ==> is_written(after.ops[before.ops.len() + i], #[trigger] rows[i])
}

/// A line of a role and a text.
pub open spec fn is_row(e: EntryView, role: Seq<char>, content: Seq<char>) -> bool {
    e.kind is None && e.role == role && e.content == content
}

/// The line of a tool call.
pub open spec fn is_call_row(e: EntryView, call: ToolCallView) -> bool {
    is_row(e, "tool_call"@, call.arguments) && e.metadata == Some(call_metadata(call))
}

/// The line of a tool result.
pub open spec fn is_result_row(e: EntryView, call: ToolCallView, result: Seq<char>) -> bool {
    is_row(e, "tool_result"@, result) && e.metadata == Some(call_metadata(call))
}

/// The lines of some calls, from line `from` on.
pub open spec fn call_rows(rows: Seq<EntryView>, from: int, calls: Seq<ToolCallView>) -> bool {
    forall|k: int| 0 <= k < calls.len() ==> is_call_row(rows[from + k], #[trigger] calls[k])
}

/// The lines of the results of some calls, from line `from` on.
pub open spec fn result_rows(
    rows: Seq<EntryView>,
    from: int,
    calls: Seq<ToolCallView>,
    results: Seq<Seq<char>>,
) -> bool {
    forall|k: int|
        0 <= k < calls.len() ==> is_result_row(rows[from + k], #[trigger] calls[k], results[k])
}

/// A call that a log can hold: it has an id and a tool.
pub open spec fn can_be_logged(call: ToolCallView) -> bool {
    call.id.len() > 0 && call.name.len() > 0 && call.call_type == "function"@
}

/// 1 where something is there.
pub open spec fn one_if(there: bool) -> int {
    if there {
        1
    } else {
        0
    }
}

/// The lines of a round of tool calls: the reasoning, what the model said
/// beside the calls, the calls, and their results.
pub open spec fn is_round(
    rows: Seq<EntryView>,
    r: ChatResponseView,
    calls: Seq<ToolCallView>,
    results: Seq<Seq<char>>,
) -> bool {
    let t = one_if(r.reasoning_content is Some);
    let a = one_if(r.content.len() > 0);
    &&& results.len() == calls.len()
    &&& rows.len() == t + a + calls.len() + calls.len()
    &&& r.reasoning_content is Some ==> is_row(rows[0], "thought"@, r.reasoning_content->0)
    &&& r.content.len() > 0 ==> is_row(rows[t], "assistant"@, r.content)
    &&& call_rows(rows, t + a, calls)
    &&& result_rows(rows, t + a + calls.len(), calls, results)
}

/// The lines of what the model said before its tool calls, written while it
/// streamed in: the reasoning, then the words.
pub open spec fn is_shown(rows: Seq<EntryView>, r: ChatResponseView) -> bool {
    let t = one_if(r.reasoning_content is Some);
    &&& rows.len() == t + one_if(r.content.len() > 0)
    &&& r.reasoning_content is Some ==> is_row(rows[0], "thought"@, r.reasoning_content->0)
    &&& r.content.len() > 0 ==> is_row(rows[t], "assistant"@, r.content)
}

/// Where a round without reasoning can begin: no reasoning waits for a call,
/// and where the model says nothing beside its calls, the last message is not
/// one that they would join.
pub open spec fn starts_afresh(s: ReplayView, r: ChatResponseView) -> bool {
    &&& s.pending is None
    &&& r.content.len() > 0 || s.messages.len() == 0 || s.messages.last().role
        != MessageRole::Assistant
}

/// The records of the calls of a response.
pub open spec fn call_records(r: ChatResponseView, ids: Seq<Seq<char>>) -> Records {
    let made = AgentLoop::calls_of(r);
    Records {
        role: "tool_call"@,
        calls: made,
        contents: made.map_values(|c: ToolCallView| c.arguments),
        ids,
        mark_errors: false,
    }
}

/// The records of the results of the calls of a response.
pub open spec fn result_records(
    r: ChatResponseView,
    results: Seq<Seq<char>>,
    ids: Seq<Seq<char>>,
) -> Records {
    Records {
        role: "tool_result"@,
        calls: AgentLoop::calls_of(r),
        contents: results,
        ids,
        mark_errors: true,
    }
}

// ── Messages ────────────────────────────────────────────────────────────

/// The message of a response that calls tools.
pub open spec fn call_message(r: ChatResponseView, calls: Seq<ToolCallView>) -> ChatMessageView {
    ChatMessageView {
        reasoning_content: r.reasoning_content,
        tool_calls: Some(calls),
        ..ChatMessageView::plain(MessageRole::Assistant, r.content)
    }
}

/// The message of a tool result.
pub open spec fn result_message(call: ToolCallView, result: Seq<char>) -> ChatMessageView {
    ChatMessageView {
        name: Some(call.name),
        tool_call_id: Some(call.id),
        ..ChatMessageView::plain(MessageRole::Tool, result)
    }
}

/// The messages of the results of the first `n` calls.
pub open spec fn result_messages(
    calls: Seq<ToolCallView>,
    results: Seq<Seq<char>>,
    n: int,
) -> Seq<ChatMessageView>
    decreases n,
{
    if n <= 0 {
        Seq::empty()
    } else {
        result_messages(calls, results, n - 1).push(result_message(calls[n - 1], results[n - 1]))
    }
}

/// The messages of a round of tool calls.
pub open spec fn round_messages(
    r: ChatResponseView,
    calls: Seq<ToolCallView>,
    results: Seq<Seq<char>>,
) -> Seq<ChatMessageView> {
    seq![call_message(r, calls)] + result_messages(calls, results, calls.len() as int)
}

/// The messages of the records of the first `n` attachments.
pub open spec fn attachment_messages(items: Seq<AttachedView>, n: int) -> Seq<ChatMessageView>
    decreases n,
{
    if n <= 0 {
        Seq::empty()
    } else {
        attachment_messages(items, n - 1).push(
            ChatMessageView::plain(MessageRole::System, record_text(items[n - 1].meta)),
        )
    }
}

/// The messages of system entries.
pub open spec fn system_messages(entries: Seq<EntryView>) -> Seq<ChatMessageView> {
    entries.map_values(|e: EntryView| ChatMessageView::plain(MessageRole::System, e.content))
}

/// A message with more calls.
spec fn with_calls(m: ChatMessageView, more: Seq<ToolCallView>) -> ChatMessageView {
    if more.len() == 0 {
        m
    } else {
        ChatMessageView {
            tool_calls: Some(
                match m.tool_calls {
                    Some(calls) => calls + more,
                    None => more,
                },
            ),
            ..m
        }
    }
}

// ── Single lines ────────────────────────────────────────────────────────

pub(crate) proof fn lemma_roles_differ()
    ensures
        "assistant"@ != "thought"@ && "assistant"@ != "system"@ && "assistant"@ != "user"@,
        "tool_call"@ != "thought"@ && "tool_call"@ != "system"@ && "tool_call"@ != "user"@,
        "tool_call"@ != "assistant"@,
        "tool_result"@ != "thought"@ && "tool_result"@ != "system"@ && "tool_result"@ != "user"@,
        "tool_result"@ != "assistant"@ && "tool_result"@ != "tool_call"@,
        "thought"@ != "system"@ && "thought"@ != "user"@ && "system"@ != "user"@,
        "tool_call_id"@ != "tool_name"@,
{
    reveal_strlit("thought");
    reveal_strlit("system");
    reveal_strlit("user");
    reveal_strlit("assistant");
    reveal_strlit("tool_call");
    reveal_strlit("tool_result");
    reveal_strlit("tool_call_id");
    reveal_strlit("tool_name");
    assert("assistant"@[0] == 'a' && "tool_call"@[0] == 't');
    assert("assistant"@.len() == 9 && "tool_call"@.len() == 9);
    assert("thought"@.len() == 7 && "system"@.len() == 6 && "user"@.len() == 4);
    assert("tool_result"@.len() == 11);
    assert("tool_call_id"@.len() == 12 && "tool_name"@.len() == 9);
}

proof fn lemma_metadata(e: EntryView, call: ToolCallView)
    requires
        e.metadata == Some(call_metadata(call)),
    ensures
        e.meta_text("tool_call_id"@) == Some(call.id),
        e.meta_text("tool_name"@) == Some(call.name),
{
    lemma_roles_differ();
    reveal_with_fuel(member_from, 3);
}

proof fn lemma_call_step(s: ReplayView, e: EntryView, call: ToolCallView, next: bool)
    requires
        is_call_row(e, call),
        can_be_logged(call),
    ensures
        s.step(e, next) == s.tool_call(call),
{
    lemma_roles_differ();
    lemma_metadata(e, call);
}

proof fn lemma_result_step(s: ReplayView, e: EntryView, call: ToolCallView, result: Seq<char>, next: bool)
    requires
        is_result_row(e, call, result),
        can_be_logged(call),
    ensures
        s.step(e, next).messages == s.messages.push(result_message(call, result)),
        s.step(e, next).pending == s.pending,
{
    lemma_roles_differ();
    lemma_metadata(e, call);
}

// ── Runs of lines ───────────────────────────────────────────────────────

/// The calls from line `n` on join the message that is open there.
proof fn lemma_calls_join(entries: Seq<EntryView>, n: int, calls: Seq<ToolCallView>, k: int)
    requires
        0 <= n,
        0 <= k <= calls.len(),
        n + k <= entries.len(),
        call_rows(entries, n, calls),
        forall|i: int| 0 <= i < calls.len() ==> can_be_logged(#[trigger] calls[i]),
        replay(entries, n).pending is None,
        replay(entries, n).messages.len() > 0,
        replay(entries, n).messages.last().role == MessageRole::Assistant,
    ensures
        ({
            let s = replay(entries, n);
            let t = replay(entries, n + k);
            &&& t.pending is None
            &&& t.messages == s.messages.drop_last().push(
                with_calls(s.messages.last(), calls.take(k)),
            )
        }),
    decreases k,
{
    let s = replay(entries, n);
    if k == 0 {
        assert(s.messages.drop_last().push(s.messages.last()) =~= s.messages);
    } else {
        lemma_calls_join(entries, n, calls, k - 1);
        let before = replay(entries, n + k - 1);
        let call = calls[k - 1];
        assert(is_call_row(entries[n + k - 1], call));
        lemma_call_step(before, entries[n + k - 1], call, is_call_at(entries, n + k));
        assert(before.messages.drop_last() =~= s.messages.drop_last());
        assert(calls.take(k) =~= calls.take(k - 1).push(call));
        let m = s.messages.last();
        match m.tool_calls {
            Some(had) => {
                assert(had + calls.take(k) =~= (had + calls.take(k - 1)).push(call));
                if k == 1 {
                    assert(had + calls.take(k) =~= had.push(call));
                }
            },
            None => {
                if k == 1 {
                    assert(calls.take(k) =~= seq![call]);
                }
            },
        }
        assert(with_call(before.messages.last(), call) == with_calls(m, calls.take(k)));
    }
}

/// The calls from line `n` on share a message of their own where none is open,
/// or where reasoning waits for them.
proof fn lemma_calls_open(entries: Seq<EntryView>, n: int, calls: Seq<ToolCallView>)
    requires
        0 <= n,
        0 < calls.len(),
        n + calls.len() <= entries.len(),
        call_rows(entries, n, calls),
        forall|i: int| 0 <= i < calls.len() ==> can_be_logged(#[trigger] calls[i]),
        ({
            let s = replay(entries, n);
            s.pending is Some || s.messages.len() == 0 || s.messages.last().role
                != MessageRole::Assistant
        }),
    ensures
        ({
            let s = replay(entries, n);
            let t = replay(entries, n + calls.len());
            &&& t.pending is None
            &&& t.messages == s.messages.push(
                ChatMessageView {
                    reasoning_content: s.pending,
                    tool_calls: Some(calls),
                    ..ChatMessageView::plain(MessageRole::Assistant, Seq::empty())
                },
            )
        }),
{
    let s = replay(entries, n);
    let first = calls[0];
    let rest = calls.skip(1);
    assert(is_call_row(entries[n + 0], first));
    lemma_call_step(s, entries[n], first, is_call_at(entries, n + 1));
    let opened = replay(entries, n + 1);
    assert(call_rows(entries, n + 1, rest)) by {
        assert forall|k: int| 0 <= k < rest.len() implies is_call_row(
            entries[n + 1 + k],
            #[trigger] rest[k],
        ) by {
            assert(is_call_row(entries[n + (k + 1)], calls[k + 1]));
        }
    }
    assert forall|i: int| 0 <= i < rest.len() implies can_be_logged(#[trigger] rest[i]) by {
        assert(can_be_logged(calls[i + 1]));
    }
    lemma_calls_join(entries, n + 1, rest, rest.len() as int);
    assert(rest.take(rest.len() as int) =~= rest);
    assert(opened.messages.drop_last() =~= s.messages);
    assert(seq![first] + rest =~= calls);
    if rest.len() == 0 {
        assert(seq![first] =~= calls);
    }
}

/// The results from line `n` on become messages, one each.
proof fn lemma_results(
    entries: Seq<EntryView>,
    n: int,
    calls: Seq<ToolCallView>,
    results: Seq<Seq<char>>,
    k: int,
)
    requires
        0 <= n,
        0 <= k <= calls.len(),
        n + k <= entries.len(),
        result_rows(entries, n, calls, results),
        forall|i: int| 0 <= i < calls.len() ==> can_be_logged(#[trigger] calls[i]),
    ensures
        replay(entries, n + k).messages == replay(entries, n).messages + result_messages(
            calls,
            results,
            k,
        ),
        replay(entries, n + k).pending == replay(entries, n).pending,
    decreases k,
{
    let s = replay(entries, n);
    if k == 0 {
        assert(s.messages + Seq::<ChatMessageView>::empty() =~= s.messages);
    } else {
        lemma_results(entries, n, calls, results, k - 1);
        let before = replay(entries, n + k - 1);
        let call = calls[k - 1];
        assert(is_result_row(entries[n + (k - 1)], call, results[k - 1]));
        lemma_result_step(
            before,
            entries[n + k - 1],
            call,
            results[k - 1],
            is_call_at(entries, n + k),
        );
        assert((s.messages + result_messages(calls, results, k - 1)).push(
            result_message(call, results[k - 1]),
        ) =~= s.messages + result_messages(calls, results, k));
    }
}

/// The lines of a round become its messages.
proof fn lemma_round(
    entries: Seq<EntryView>,
    n: int,
    rows: Seq<EntryView>,
    r: ChatResponseView,
    calls: Seq<ToolCallView>,
    results: Seq<Seq<char>>,
)
    requires
        0 <= n,
        n + rows.len() == entries.len(),
        entries.skip(n) == rows,
        is_round(rows, r, calls, results),
        0 < calls.len(),
        forall|i: int| 0 <= i < calls.len() ==> can_be_logged(#[trigger] calls[i]),
        r.reasoning_content is None ==> starts_afresh(replay(entries, n), r),
    ensures
        replay(entries, entries.len() as int).messages == replay(entries, n).messages
            + round_messages(r, calls, results),
{
    lemma_roles_differ();
    let t = one_if(r.reasoning_content is Some);
    let a = one_if(r.content.len() > 0);
    let s = replay(entries, n);
    assert forall|i: int| 0 <= i < rows.len() implies entries[n + i] == #[trigger] rows[i] by {
        assert(entries.skip(n)[i] == entries[n + i]);
    }
    if r.reasoning_content is Some {
        assert(entries[n + 0] == rows[0]);
    }
    let thought = replay(entries, n + t);
    assert(thought.messages == s.messages && thought.pending == (if r.reasoning_content is Some {
        r.reasoning_content
    } else {
        s.pending
    }));
    assert(call_rows(entries, n + t + a, calls)) by {
        assert forall|k: int| 0 <= k < calls.len() implies is_call_row(
            entries[n + t + a + k],
            #[trigger] calls[k],
        ) by {
            assert(entries[n + (t + a + k)] == rows[t + a + k]);
        }
    }
    assert(result_rows(entries, n + t + a + calls.len(), calls, results)) by {
        assert forall|k: int| 0 <= k < calls.len() implies is_result_row(
            entries[n + t + a + calls.len() + k],
            #[trigger] calls[k],
            results[k],
        ) by {
            assert(entries[n + (t + a + calls.len() + k)] == rows[t + a + calls.len() + k]);
        }
    }
    if r.content.len() > 0 {
        assert(entries[n + t] == rows[t]);
        assert(is_call_row(entries[n + t + a + 0], calls[0]));
        assert(is_call_at(entries, n + t + 1));
        let said = replay(entries, n + t + a);
        assert(said == thought.step(entries[n + t], true));
        lemma_calls_join(entries, n + t + a, calls, calls.len() as int);
        assert(calls.take(calls.len() as int) =~= calls);
        assert(said.messages.drop_last() =~= s.messages);
    } else {
        assert(r.content =~= Seq::empty());
        lemma_calls_open(entries, n + t + a, calls);
    }
    let called = replay(entries, n + t + a + calls.len());
    assert(called.messages == s.messages.push(call_message(r, calls)));
    lemma_results(entries, n + t + a + calls.len(), calls, results, calls.len() as int);
    assert(s.messages.push(call_message(r, calls)) + result_messages(
        calls,
        results,
        calls.len() as int,
    ) =~= s.messages + round_messages(r, calls, results));
}

// ── A log that grows ────────────────────────────────────────────────────

/// No line of `rows` marks a compaction.
spec fn unmarked(rows: Seq<EntryView>) -> bool {
    forall|i: int| 0 <= i < rows.len() ==> (#[trigger] rows[i]).kind is None
}

proof fn lemma_last_marker_stays(log: Seq<EntryView>, rows: Seq<EntryView>)
    requires
        unmarked(rows),
    ensures
        last_marker(log + rows) == last_marker(log),
    decreases rows.len(),
{
    if rows.len() == 0 {
        assert(log + rows =~= log);
    } else {
        let entries = log + rows;
        assert(entries.last() == rows.last());
        assert(entries.drop_last() =~= log + rows.drop_last());
        assert(unmarked(rows.drop_last()));
        lemma_last_marker_stays(log, rows.drop_last());
    }
}

proof fn lemma_marker_in_range(entries: Seq<EntryView>)
    ensures
        last_marker(entries) matches Some(c) ==> 0 <= c < entries.len(),
    decreases entries.len(),
{
    if entries.len() > 0 {
        lemma_marker_in_range(entries.drop_last());
    }
}

proof fn lemma_working_grows(log: Seq<EntryView>, rows: Seq<EntryView>)
    requires
        unmarked(rows),
    ensures
        working(log + rows) == working(log) + rows,
        last_marker(log + rows) == last_marker(log),
{
    lemma_last_marker_stays(log, rows);
    lemma_marker_in_range(log);
    match last_marker(log) {
        Some(c) => {
            assert((log + rows).take(c) =~= log.take(c));
            assert((log + rows).skip(c) =~= log.skip(c) + rows);
            let systems = leading_systems(log.take(c));
            assert(systems + (log.skip(c) + rows) =~= (systems + log.skip(c)) + rows);
        },
        None => {},
    }
}

/// What follows decides only how the last line before it is read, and only
/// where that is an answer and a call follows.
proof fn lemma_replay_of_start(log: Seq<EntryView>, rows: Seq<EntryView>, n: int)
    requires
        0 <= n <= log.len(),
        n == log.len() ==> n == 0 || !is_call_at(log + rows, n) || log[n - 1].role != "assistant"@
            || log[n - 1].is_marker(),
    ensures
        replay(log + rows, n) == replay(log, n),
    decreases n,
{
    if n > 0 {
        lemma_replay_of_start(log, rows, n - 1);
        assert((log + rows)[n - 1] == log[n - 1]);
        if n < log.len() {
            assert((log + rows)[n] == log[n]);
        }
        lemma_roles_differ();
    }
}

/// The results of a round are kept: the calls that they answer stand before
/// them.
proof fn lemma_round_is_kept(
    messages: Seq<ChatMessageView>,
    r: ChatResponseView,
    made: Seq<ToolCallView>,
    results: Seq<Seq<char>>,
    k: int,
)
    requires
        0 <= k <= made.len(),
    ensures
        without_orphans(messages.push(call_message(r, made)) + result_messages(made, results, k))
            == without_orphans(messages).push(call_message(r, made)) + result_messages(
            made,
            results,
            k,
        ),
    decreases k,
{
    let asked = messages.push(call_message(r, made));
    let kept = without_orphans(messages).push(call_message(r, made));
    if k == 0 {
        assert(asked + Seq::<ChatMessageView>::empty() =~= asked);
        assert(kept + Seq::<ChatMessageView>::empty() =~= kept);
        assert(asked.drop_last() =~= messages);
        assert(is_paired(messages, asked.last()));
    } else {
        lemma_round_is_kept(messages, r, made, results, k - 1);
        let m = result_message(made[k - 1], results[k - 1]);
        let before = asked + result_messages(made, results, k - 1);
        let all = asked + result_messages(made, results, k);
        assert(all.drop_last() =~= before);
        assert(all.last() == m);
        assert(before[messages.len() as int] == call_message(r, made));
        assert(calls_at(before, made[k - 1].id, messages.len() as int, k - 1));
        assert(calls(before, made[k - 1].id));
        assert(is_paired(before, m));
        assert((kept + result_messages(made, results, k - 1)).push(m) =~= kept + result_messages(
            made,
            results,
            k,
        ));
    }
}

// ── Laws ────────────────────────────────────────────────────────────────

/// A log that grew by a round of tool calls restores to the history that grew
/// by the messages of the round: one message with the reasoning, the words and
/// the calls, and one for each result.
pub proof fn tool_round_is_restored(
    log: Seq<EntryView>,
    skipped: nat,
    rows: Seq<EntryView>,
    r: ChatResponseView,
    made: Seq<ToolCallView>,
    results: Seq<Seq<char>>,
)
    requires
        is_round(rows, r, made, results),
        made.len() > 0,
        forall|i: int| 0 <= i < made.len() ==> can_be_logged(#[trigger] made[i]),
        r.reasoning_content is None ==> starts_afresh(
            replay(working(log), working(log).len() as int),
            r,
        ),
    ensures
        outcome(Collected { entries: log + rows, skipped }).messages == outcome(
            Collected { entries: log, skipped },
        ).messages + round_messages(r, made, results),
{
    let t = one_if(r.reasoning_content is Some);
    let a = one_if(r.content.len() > 0);
    assert(unmarked(rows)) by {
        assert forall|i: int| 0 <= i < rows.len() implies (#[trigger] rows[i]).kind is None by {
            if i >= t + a + made.len() {
                let k = i - (t + a + made.len());
                assert(is_result_row(rows[t + a + made.len() + k], made[k], results[k]));
            } else if i >= t + a {
                let k = i - (t + a);
                assert(is_call_row(rows[t + a + k], made[k]));
            }
        }
    }
    lemma_working_grows(log, rows);
    let work = working(log);
    let n = work.len() as int;
    let entries = work + rows;
    let s = replay(work, n);
    lemma_roles_differ();
    assert(entries[n] == rows[0]);
    assert(is_call_row(rows[t + a + 0], made[0]));
    if n > 0 && is_call_at(entries, n) && work[n - 1].role == "assistant"@
        && !work[n - 1].is_marker() {
        assert(s.messages.last().role == MessageRole::Assistant);
    }
    lemma_replay_of_start(work, rows, n);
    assert(entries.skip(n) =~= rows);
    lemma_round(entries, n, rows, r, made, results);
    lemma_round_is_kept(s.messages, r, made, results, made.len() as int);
    let asked = s.messages.push(call_message(r, made));
    let answers = result_messages(made, results, made.len() as int);
    assert(s.messages + round_messages(r, made, results) =~= asked + answers);
    assert(without_orphans(s.messages).push(call_message(r, made)) + answers
        =~= without_orphans(s.messages) + round_messages(r, made, results));
}

/// What the records of some calls or results add to a conversation.
proof fn lemma_logged(records: Records, c: ConversationView, n: int)
    requires
        0 <= n,
    ensures
        records.logged(c, n).ops.len() == c.ops.len() + n,
        forall|j: int|
            0 <= j < c.ops.len() ==> #[trigger] records.logged(c, n).ops[j] == c.ops[j],
        forall|i: int|
            0 <= i < n ==> records.logged(c, n).ops[c.ops.len() + i] == OpView::Append(
                PendingView {
                    role: records.role,
                    content: #[trigger] records.contents[i],
                    metadata: Some(call_metadata(records.calls[i])),
                    id: Some(records.ids[i]),
                },
            ),
    decreases n,
{
    if n > 0 {
        lemma_logged(records, c, n - 1);
    }
}

/// What stands in the log of tool calls and their results is a round: the
/// reasoning, the calls and the results, in this order.
pub proof fn logged_calls_are_a_round(
    c: ConversationView,
    r: ChatResponseView,
    call_ids: Seq<Seq<char>>,
    results: Seq<Seq<char>>,
    result_ids: Seq<Seq<char>>,
    rows: Seq<EntryView>,
)
    requires
        results.len() == AgentLoop::calls_of(r).len(),
        r.content.len() == 0,
        thought_of(r) == r.reasoning_content,
        lines_written(
            c,
            result_records(r, results, result_ids).logged(
                call_records(r, call_ids).logged(
                    with_thought(c, r),
                    AgentLoop::calls_of(r).len() as int,
                ),
                AgentLoop::calls_of(r).len() as int,
            ),
            rows,
        ),
    ensures
        is_round(rows, r, AgentLoop::calls_of(r), results),
{
    let made = AgentLoop::calls_of(r);
    let m = made.len() as int;
    let t = one_if(r.reasoning_content is Some);
    let thought = with_thought(c, r);
    let asked = call_records(r, call_ids).logged(thought, m);
    let done = result_records(r, results, result_ids).logged(asked, m);
    lemma_logged(call_records(r, call_ids), thought, m);
    lemma_logged(result_records(r, results, result_ids), asked, m);
    assert(rows.len() == t + m + m);
    if r.reasoning_content is Some {
        assert(is_written(done.ops[c.ops.len() as int], rows[0]));
        assert(done.ops[c.ops.len() as int] == thought.ops[c.ops.len() as int]);
    }
    assert forall|k: int| 0 <= k < m implies is_call_row(rows[t + k], #[trigger] made[k]) by {
        let at = thought.ops.len() + k;
        assert(call_records(r, call_ids).contents[k] == made[k].arguments);
        assert(done.ops[at] == asked.ops[at]);
        assert(is_written(done.ops[c.ops.len() + (t + k)], rows[t + k]));
    }
    assert forall|k: int| 0 <= k < m implies is_result_row(
        rows[t + m + k],
        #[trigger] made[k],
        results[k],
    ) by {
        assert(result_records(r, results, result_ids).contents[k] == results[k]);
        assert(is_written(done.ops[c.ops.len() + (t + m + k)], rows[t + m + k]));
    }
}

/// A resumed session goes on where it was left: of a turn that called tools, a
/// restore gives back the very message that the turn put into the history, and
/// behind it the results.
pub proof fn tool_turn_is_restored(
    before: AgentLoop,
    asked: AgentLoop,
    done: AgentLoop,
    r: ChatResponseView,
    call_ids: Seq<Seq<char>>,
    results: Seq<Seq<char>>,
    result_ids: Seq<Seq<char>>,
    log: Seq<EntryView>,
    skipped: nat,
    rows: Seq<EntryView>,
)
    requires
        AgentLoop::prepared(before, asked, r, call_ids),
        AgentLoop::results_recorded(asked, done, AgentLoop::calls_of(r), results, result_ids),
        before.session.conversation is Some,
        before.session_core.streaming_flush_count == 0,
        lines_written(
            before.session.conversation->0.deep_view(),
            done.session.conversation->0.deep_view(),
            rows,
        ),
        results.len() == AgentLoop::calls_of(r).len(),
        results.len() > 0,
        forall|i: int|
            0 <= i < results.len() ==> can_be_logged(#[trigger] AgentLoop::calls_of(r)[i]),
        r.content.len() == 0,
        thought_of(r) == r.reasoning_content,
        r.reasoning_content is None ==> starts_afresh(
            replay(working(log), working(log).len() as int),
            r,
        ),
    ensures
        outcome(Collected { entries: log + rows, skipped }).messages == outcome(
            Collected { entries: log, skipped },
        ).messages.push(asked.session.history.deep_view().last()) + result_messages(
            AgentLoop::calls_of(r),
            results,
            results.len() as int,
        ),
{
    let made = AgentLoop::calls_of(r);
    let c = before.session.conversation->0.deep_view();
    assert(asked.session.conversation.deep_view() == Some(
        call_records(r, call_ids).logged(with_thought(c, r), made.len() as int),
    ));
    assert(asked.session.conversation is Some);
    logged_calls_are_a_round(c, r, call_ids, results, result_ids, rows);
    tool_round_is_restored(log, skipped, rows, r, made, results);
    let kept = outcome(Collected { entries: log, skipped }).messages;
    assert(asked.session.history.deep_view().last() == call_message(r, made));
    assert(kept + round_messages(r, made, results) =~= kept.push(call_message(r, made))
        + result_messages(made, results, results.len() as int));
}

/// What stands in the log of a turn that called tools and had streamed in is a
/// round: what was shown, the calls and the results, in this order.
proof fn lemma_streamed_round(
    c: ConversationView,
    r: ChatResponseView,
    call_ids: Seq<Seq<char>>,
    results: Seq<Seq<char>>,
    result_ids: Seq<Seq<char>>,
    shown: Seq<EntryView>,
    rows: Seq<EntryView>,
)
    requires
        results.len() == AgentLoop::calls_of(r).len(),
        is_shown(shown, r),
        lines_written(
            c,
            result_records(r, results, result_ids).logged(
                call_records(r, call_ids).logged(c, AgentLoop::calls_of(r).len() as int),
                AgentLoop::calls_of(r).len() as int,
            ),
            rows,
        ),
    ensures
        is_round(shown + rows, r, AgentLoop::calls_of(r), results),
{
    let made = AgentLoop::calls_of(r);
    let m = made.len() as int;
    let t = one_if(r.reasoning_content is Some);
    let a = one_if(r.content.len() > 0);
    let all = shown + rows;
    let asked = call_records(r, call_ids).logged(c, m);
    let done = result_records(r, results, result_ids).logged(asked, m);
    lemma_logged(call_records(r, call_ids), c, m);
    lemma_logged(result_records(r, results, result_ids), asked, m);
    assert(rows.len() == m + m);
    if r.reasoning_content is Some {
        assert(all[0] == shown[0]);
    }
    if r.content.len() > 0 {
        assert(all[t] == shown[t]);
    }
    assert forall|k: int| 0 <= k < m implies is_call_row(all[t + a + k], #[trigger] made[k]) by {
        let at = c.ops.len() + k;
        assert(call_records(r, call_ids).contents[k] == made[k].arguments);
        assert(done.ops[at] == asked.ops[at]);
        assert(is_written(done.ops[c.ops.len() + k], rows[k]));
        assert(all[t + a + k] == rows[k]);
    }
    assert forall|k: int| 0 <= k < m implies is_result_row(
        all[t + a + m + k],
        #[trigger] made[k],
        results[k],
    ) by {
        assert(result_records(r, results, result_ids).contents[k] == results[k]);
        assert(is_written(done.ops[c.ops.len() + (m + k)], rows[m + k]));
        assert(all[t + a + m + k] == rows[m + k]);
    }
}

/// A resumed session goes on where it was left, also after a turn that said
/// something beside its tool calls and streamed in: of what was shown and
/// logged, a restore gives back the very message that the turn put into the
/// history, and behind it the results.
pub proof fn streamed_tool_turn_is_restored(
    before: AgentLoop,
    asked: AgentLoop,
    done: AgentLoop,
    r: ChatResponseView,
    call_ids: Seq<Seq<char>>,
    results: Seq<Seq<char>>,
    result_ids: Seq<Seq<char>>,
    log: Seq<EntryView>,
    skipped: nat,
    shown: Seq<EntryView>,
    rows: Seq<EntryView>,
)
    requires
        AgentLoop::prepared(before, asked, r, call_ids),
        AgentLoop::results_recorded(asked, done, AgentLoop::calls_of(r), results, result_ids),
        before.session.conversation is Some,
        before.session_core.streaming_flush_count > 0,
        is_shown(shown, r),
        lines_written(
            before.session.conversation->0.deep_view(),
            done.session.conversation->0.deep_view(),
            rows,
        ),
        results.len() == AgentLoop::calls_of(r).len(),
        results.len() > 0,
        forall|i: int|
            0 <= i < results.len() ==> can_be_logged(#[trigger] AgentLoop::calls_of(r)[i]),
        r.reasoning_content is None ==> starts_afresh(
            replay(working(log), working(log).len() as int),
            r,
        ),
    ensures
        outcome(Collected { entries: log + shown + rows, skipped }).messages == outcome(
            Collected { entries: log, skipped },
        ).messages.push(asked.session.history.deep_view().last()) + result_messages(
            AgentLoop::calls_of(r),
            results,
            results.len() as int,
        ),
{
    let made = AgentLoop::calls_of(r);
    let c = before.session.conversation->0.deep_view();
    assert(asked.session.conversation.deep_view() == Some(
        call_records(r, call_ids).logged(c, made.len() as int),
    ));
    assert(asked.session.conversation is Some);
    lemma_streamed_round(c, r, call_ids, results, result_ids, shown, rows);
    tool_round_is_restored(log, skipped, shown + rows, r, made, results);
    assert(log + (shown + rows) =~= log + shown + rows);
    let kept = outcome(Collected { entries: log, skipped }).messages;
    assert(asked.session.history.deep_view().last() == call_message(r, made));
    assert(kept + round_messages(r, made, results) =~= kept.push(call_message(r, made))
        + result_messages(made, results, results.len() as int));
}

/// A line that stands for a message of its own becomes that message.
proof fn lemma_plain_row(
    log: Seq<EntryView>,
    skipped: nat,
    row: EntryView,
    role: MessageRole,
)
    requires
        row.kind is None,
        (row.role == "user"@ && role == MessageRole::User) || (row.role == "system"@ && role
            == MessageRole::System),
    ensures
        outcome(Collected { entries: log.push(row), skipped }).messages == outcome(
            Collected { entries: log, skipped },
        ).messages.push(ChatMessageView::plain(role, row.content)),
{
    lemma_roles_differ();
    reveal_strlit("thought");
    reveal_strlit("system");
    reveal_strlit("user");
    assert("user"@.len() == 4 && "system"@.len() == 6 && "thought"@.len() == 7);
    let rows = seq![row];
    assert(log.push(row) =~= log + rows);
    assert(unmarked(rows));
    lemma_working_grows(log, rows);
    let work = working(log);
    let n = work.len() as int;
    let entries = work + rows;
    assert(entries[n] == row);
    lemma_replay_of_start(work, rows, n);
    let s = replay(work, n);
    let m = ChatMessageView::plain(role, row.content);
    assert(replay(entries, n + 1) == s.step(row, is_call_at(entries, n + 1)));
    let all = s.messages.push(m);
    assert(replay(entries, n + 1).messages == all);
    assert(all.drop_last() =~= s.messages);
    assert(is_paired(s.messages, all.last()));
}

/// A log that grew by what the user said restores to the history that grew by
/// it.
pub proof fn user_message_is_restored(
    log: Seq<EntryView>,
    skipped: nat,
    c: ConversationView,
    content: Seq<char>,
    metadata: Option<JsonView>,
    id: Option<Seq<char>>,
    rows: Seq<EntryView>,
)
    requires
        lines_written(c, c.append("user"@, content, metadata, id), rows),
    ensures
        outcome(Collected { entries: log + rows, skipped }).messages == outcome(
            Collected { entries: log, skipped },
        ).messages.push(ChatMessageView::plain(MessageRole::User, content)),
{
    assert(rows.len() == 1);
    assert(is_written(
        c.append("user"@, content, metadata, id).ops[c.ops.len() as int],
        rows[0],
    ));
    assert(log + rows =~= log.push(rows[0]));
    lemma_plain_row(log, skipped, rows[0], MessageRole::User);
}

/// A log that grew by the records of attachments restores to the history that
/// grew by a system message for each.
pub proof fn attachments_are_restored(
    log: Seq<EntryView>,
    skipped: nat,
    c: ConversationView,
    items: Seq<AttachedView>,
    n: int,
    rows: Seq<EntryView>,
)
    requires
        0 <= n <= items.len(),
        lines_written(c, with_attachments(c, items, n), rows),
    ensures
        outcome(Collected { entries: log + rows, skipped }).messages == outcome(
            Collected { entries: log, skipped },
        ).messages + attachment_messages(items, n),
    decreases n,
{
    let kept = outcome(Collected { entries: log, skipped }).messages;
    lemma_attachment_ops(c, items, n);
    if n == 0 {
        assert(log + rows =~= log);
        assert(kept + attachment_messages(items, n) =~= kept);
    } else {
        let after = with_attachments(c, items, n);
        let earlier = with_attachments(c, items, n - 1);
        let first = rows.drop_last();
        lemma_attachment_ops(c, items, n - 1);
        assert(lines_written(c, earlier, first)) by {
            assert forall|i: int| 0 <= i < first.len() implies is_written(
                earlier.ops[c.ops.len() + i],
                #[trigger] first[i],
            ) by {
                assert(is_written(after.ops[c.ops.len() + i], rows[i]));
                assert(after.ops[c.ops.len() + i] == earlier.ops[c.ops.len() + i]);
            }
        }
        attachments_are_restored(log, skipped, c, items, n - 1, first);
        let last = rows[n - 1];
        assert(is_written(after.ops[c.ops.len() + (n - 1)], last));
        assert(log + rows =~= (log + first).push(last));
        lemma_plain_row(log + first, skipped, last, MessageRole::System);
        assert((kept + attachment_messages(items, n - 1)).push(
            ChatMessageView::plain(MessageRole::System, last.content),
        ) =~= kept + attachment_messages(items, n));
    }
}

proof fn lemma_attachment_ops(c: ConversationView, items: Seq<AttachedView>, n: int)
    requires
        0 <= n,
    ensures
        with_attachments(c, items, n).ops.len() == c.ops.len() + n,
    decreases n,
{
    if n > 0 {
        lemma_attachment_ops(c, items, n - 1);
    }
}

/// A log that grew by a compaction restores to the system messages at its
/// start and the summary, and nothing else.
pub proof fn compaction_is_restored(log: Seq<EntryView>, skipped: nat, op: OpView, row: EntryView)
    requires
        op is AppendCompaction,
        is_written(op, row),
    ensures
        outcome(Collected { entries: log.push(row), skipped }).messages == system_messages(
            leading_systems(log),
        ).push(marker_message(op->AppendCompaction_summary)),
        outcome(Collected { entries: log.push(row), skipped }).had_compaction,
{
    let entries = log.push(row);
    let c = log.len() as int;
    assert(last_marker(entries) == Some(c));
    assert(entries.take(c) =~= log);
    assert(entries.skip(c) =~= seq![row]);
    let systems = leading_systems(log);
    lemma_systems_end(log, 0);
    let work = working(entries);
    let k = systems.len() as int;
    assert(work =~= systems.push(row));
    assert forall|i: int| 0 <= i < k implies (#[trigger] work[i]).is_plain_system() by {
        assert(work[i] == log[i]);
    }
    lemma_replay_systems(work, k);
    let all = replay(work, k + 1).messages;
    assert(work[k] == row);
    assert(all == replay(work, k).messages.push(marker_message(row.content)));
    assert(all =~= system_messages(systems).push(marker_message(row.content)));
    assert forall|i: int| 0 <= i < k + 1 implies (#[trigger] all[i]).role != MessageRole::Tool by {
        if i < k {
            assert(all[i] == replay(work, k).messages[i]);
        }
    }
    lemma_orphans_after_prefix(all, k + 1);
    lemma_without_orphans_len(all);
    assert(without_orphans(all).take(k + 1) =~= without_orphans(all));
    assert(all.take(k + 1) =~= all);
}

/// A log that grew by an answer restores to the history that grew by it; the
/// thought before it stays out.
pub proof fn text_reply_is_restored(
    log: Seq<EntryView>,
    skipped: nat,
    c: ConversationView,
    r: ChatResponseView,
    rows: Seq<EntryView>,
)
    requires
        lines_written(c, with_response(c, r), rows),
        strip_think_spec(r.content) == r.content,
        r.content.len() > 0,
    ensures
        outcome(Collected { entries: log + rows, skipped }).messages == outcome(
            Collected { entries: log, skipped },
        ).messages.push(ChatMessageView::plain(MessageRole::Assistant, r.content)),
{
    let t = one_if(thought_of(r) is Some);
    let reply = ChatMessageView::plain(MessageRole::Assistant, r.content);
    assert(rows.len() == t + 1);
    assert(is_written(with_response(c, r).ops[c.ops.len() + t], rows[t]));
    assert(is_row(rows[t], "assistant"@, r.content));
    if thought_of(r) is Some {
        assert(is_written(with_response(c, r).ops[c.ops.len() as int], rows[0]));
        assert(is_row(rows[0], "thought"@, thought_of(r)->0));
    }
    assert(unmarked(rows));
    lemma_working_grows(log, rows);
    lemma_roles_differ();
    let work = working(log);
    let n = work.len() as int;
    let entries = work + rows;
    let s = replay(work, n);
    assert(entries[n] == rows[0]);
    assert(entries[n + t] == rows[t]);
    reveal_strlit("thought");
    reveal_strlit("tool_call");
    lemma_replay_of_start(work, rows, n);
    let thought = replay(entries, n + t);
    assert(thought.messages == s.messages);
    assert(replay(entries, n + t + 1) == thought.step(rows[t], is_call_at(entries, n + t + 1)));
    assert(replay(entries, n + t + 1).messages == s.messages.push(reply));
    let all = s.messages.push(reply);
    assert(all.drop_last() =~= s.messages);
    assert(is_paired(s.messages, all.last()));
}

} // verus!
