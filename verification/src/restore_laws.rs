//! What holds of every restore.

use vstd::prelude::*;

use crate::conversation::EntryView;
use crate::message::{ChatMessageView, MessageRole, ToolCallView};
use crate::restorer::{
    calls, calls_at, collect, head_end, is_call_at, is_paired, last_marker, leading_systems,
    lemma_head_end, lemma_last_marker, lemma_replay_counts, lemma_systems_end,
    lemma_without_orphans_len, marker_message, only_systems, outcome, replay, scan_all, scan_fast,
    scan_head, systems_end, with_call, without_orphans, working, Collected, LineView, ReplayView,
};
use crate::round_trip::lemma_roles_differ;
use crate::text::has_text;

verus! {

// ── Tool pairing ────────────────────────────────────────────────────────

/// Dropping orphans drops no tool call.
proof fn lemma_calls_survive(messages: Seq<ChatMessageView>, id: Seq<char>)
    ensures
        calls(messages, id) == calls(without_orphans(messages), id),
    decreases messages.len(),
{
    if messages.len() > 0 {
        let before = messages.drop_last();
        let kept_before = without_orphans(before);
        let kept = without_orphans(messages);
        lemma_calls_survive(before, id);
        if calls(messages, id) {
            let (i, k) = choose|i: int, k: int| calls_at(messages, id, i, k);
            if i < before.len() {
                assert(calls_at(before, id, i, k));
                let (j, h) = choose|j: int, h: int| calls_at(kept_before, id, j, h);
                assert(calls_at(kept, id, j, h));
            } else {
                assert(calls_at(kept, id, kept.len() - 1, k));
            }
        }
        if calls(kept, id) {
            let (j, h) = choose|j: int, h: int| calls_at(kept, id, j, h);
            if j < kept_before.len() {
                assert(calls_at(kept_before, id, j, h));
                let (i, k) = choose|i: int, k: int| calls_at(before, id, i, k);
                assert(calls_at(messages, id, i, k));
            } else {
                assert(calls_at(messages, id, messages.len() - 1, h));
            }
        }
    }
}

proof fn lemma_kept_are_paired(messages: Seq<ChatMessageView>, i: int)
    requires
        0 <= i < without_orphans(messages).len(),
    ensures
        is_paired(without_orphans(messages).take(i), without_orphans(messages)[i]),
    decreases messages.len(),
{
    let before = messages.drop_last();
    let kept_before = without_orphans(before);
    let kept = without_orphans(messages);
    if i < kept_before.len() {
        lemma_kept_are_paired(before, i);
        assert(kept.take(i) =~= kept_before.take(i));
    } else {
        assert(kept.take(i) =~= kept_before);
        let m = messages.last();
        if m.role == MessageRole::Tool {
            lemma_calls_survive(before, m.tool_call_id->0);
        }
    }
}

/// Every restored tool result answers a tool call that a restored assistant
/// message makes before it.
pub proof fn restored_tool_results_are_paired(collected: Collected, i: int)
    requires
        0 <= i < outcome(collected).messages.len(),
    ensures
        is_paired(outcome(collected).messages.take(i), outcome(collected).messages[i]),
{
    let work = working(collected.entries);
    lemma_kept_are_paired(replay(work, work.len() as int).messages, i);
}

proof fn lemma_all_paired_are_kept(messages: Seq<ChatMessageView>)
    requires
        forall|i: int|
            0 <= i < messages.len() ==> is_paired(#[trigger] messages.take(i), messages[i]),
    ensures
        without_orphans(messages) == messages,
    decreases messages.len(),
{
    if messages.len() > 0 {
        let before = messages.drop_last();
        assert forall|i: int| 0 <= i < before.len() implies is_paired(
            #[trigger] before.take(i),
            before[i],
        ) by {
            assert(before.take(i) =~= messages.take(i));
        }
        lemma_all_paired_are_kept(before);
        assert(messages.take(messages.len() - 1) =~= before);
        assert(before.push(messages.last()) =~= messages);
    }
}

/// Dropping orphans leaves no orphan: doing it a second time drops nothing.
pub proof fn orphans_are_dropped_once(messages: Seq<ChatMessageView>)
    ensures
        without_orphans(without_orphans(messages)) == without_orphans(messages),
{
    let kept = without_orphans(messages);
    assert forall|i: int| 0 <= i < kept.len() implies is_paired(
        #[trigger] kept.take(i),
        kept[i],
    ) by {
        lemma_kept_are_paired(messages, i);
    }
    lemma_all_paired_are_kept(kept);
}

/// Dropping orphans drops tool results and nothing else, and none that an
/// earlier call matches: the kept messages are those at the places `at`, in
/// their order, and these are the places of the paired messages.
pub proof fn orphans_are_all_that_is_dropped(messages: Seq<ChatMessageView>) -> (at: Seq<int>)
    ensures
        at.len() == without_orphans(messages).len(),
        forall|i: int, j: int| 0 <= i < j < at.len() ==> at[i] < at[j],
        forall|i: int|
            0 <= i < at.len() ==> 0 <= #[trigger] at[i] < messages.len() && without_orphans(
                messages,
            )[i] == messages[at[i]],
        forall|k: int|
            0 <= k < messages.len() ==> (at.contains(k) <==> is_paired(
                messages.take(k),
                #[trigger] messages[k],
            )),
    decreases messages.len(),
{
    if messages.len() == 0 {
        Seq::empty()
    } else {
        let before = messages.drop_last();
        let last = messages.len() - 1;
        let at = orphans_are_all_that_is_dropped(before);
        assert(messages.take(last) =~= before);
        let longer = if is_paired(before, messages.last()) {
            at.push(last)
        } else {
            at
        };
        assert forall|k: int| 0 <= k < messages.len() implies (longer.contains(k) <==> is_paired(
            messages.take(k),
            #[trigger] messages[k],
        )) by {
            if k < last {
                assert(before[k] == messages[k]);
                assert(before.take(k) =~= messages.take(k));
                if at.contains(k) {
                    let i = choose|i: int| 0 <= i < at.len() && at[i] == k;
                    assert(longer[i] == k);
                }
                if longer.contains(k) {
                    let i = choose|i: int| 0 <= i < longer.len() && longer[i] == k;
                    assert(at[i] == k);
                }
            } else {
                if is_paired(before, messages.last()) {
                    assert(longer[at.len() as int] == last);
                }
                if at.contains(last) {
                    let i = choose|i: int| 0 <= i < at.len() && at[i] == last;
                    assert(at[i] < before.len());
                }
            }
        }
        longer
    }
}

// ── Where messages come from ────────────────────────────────────────────

/// An entry that may become a message: a compaction marker, or an entry of one
/// of the roles that speak in the context.
pub open spec fn speaks(e: EntryView) -> bool {
    ||| e.is_marker()
    ||| e.role == "system"@
    ||| e.role == "user"@
    ||| e.role == "assistant"@
    ||| e.role == "tool_result"@
}

/// The text of `m` is that of an entry that speaks, or `m` only hosts tool
/// calls.
pub open spec fn comes_from(entries: Seq<EntryView>, m: ChatMessageView) -> bool {
    ||| m.role == MessageRole::Assistant && m.content.len() == 0 && m.tool_calls is Some
    ||| exists|j: int|
        0 <= j < entries.len() && speaks(#[trigger] entries[j]) && entries[j].content == m.content
}

proof fn lemma_replay_sources(entries: Seq<EntryView>, n: int, i: int)
    requires
        0 <= n <= entries.len(),
        0 <= i < replay(entries, n).messages.len(),
    ensures
        comes_from(entries, replay(entries, n).messages[i]),
    decreases n,
{
    if n > 0 {
        let before = replay(entries, n - 1);
        let after = replay(entries, n);
        let e = entries[n - 1];
        if i < before.messages.len() {
            lemma_replay_sources(entries, n - 1, i);
            assert(after.messages[i].content == before.messages[i].content);
            assert(after.messages[i].role == before.messages[i].role);
        } else if e.is_marker() || e.role != "tool_call"@ {
            reveal_strlit("thought");
            reveal_strlit("system");
            reveal_strlit("user");
            reveal_strlit("assistant");
            reveal_strlit("tool_result");
            assert(speaks(entries[n - 1]));
        }
    }
}

proof fn lemma_kept_is_replayed(messages: Seq<ChatMessageView>, i: int) -> (j: int)
    requires
        0 <= i < without_orphans(messages).len(),
    ensures
        0 <= j < messages.len(),
        messages[j] == without_orphans(messages)[i],
    decreases messages.len(),
{
    let before = messages.drop_last();
    if i < without_orphans(before).len() {
        lemma_kept_is_replayed(before, i)
    } else {
        messages.len() - 1
    }
}

/// Thoughts stay out of the context: the text of every restored message is
/// that of a retained entry that speaks, unless the message has no text and
/// only hosts tool calls.
pub proof fn restored_messages_come_from_entries(collected: Collected, i: int)
    requires
        0 <= i < outcome(collected).messages.len(),
    ensures
        comes_from(working(collected.entries), outcome(collected).messages[i]),
{
    let work = working(collected.entries);
    let all = replay(work, work.len() as int).messages;
    let j = lemma_kept_is_replayed(all, i);
    lemma_replay_sources(work, work.len() as int, j);
}

// ── Reasoning ───────────────────────────────────────────────────────────

/// A tool call that a replay can use: it names its id and its tool.
pub open spec fn names_a_call(e: EntryView) -> bool {
    let call_id = e.meta_text("tool_call_id"@);
    let tool_name = e.meta_text("tool_name"@);
    &&& !e.is_marker()
    &&& e.role == "tool_call"@
    &&& call_id is Some && call_id->0.len() > 0
    &&& tool_name is Some && tool_name->0.len() > 0
}

/// Where entry `j` is an answer and a tool call follows it, that call can be
/// used.
pub open spec fn call_can_be_used(entries: Seq<EntryView>, j: int) -> bool {
    entries[j].role == "assistant"@ && !entries[j].is_marker() && is_call_at(entries, j + 1)
        ==> names_a_call(entries[j + 1])
}

/// The message makes tool calls.
pub open spec fn makes_calls(m: ChatMessageView) -> bool {
    m.role == MessageRole::Assistant && m.tool_calls is Some && m.tool_calls->0.len() > 0
}

proof fn lemma_reasoning(entries: Seq<EntryView>, n: int, i: int)
    requires
        0 <= n <= entries.len(),
        0 <= i < replay(entries, n).messages.len(),
        forall|j: int| 0 <= j < entries.len() ==> #[trigger] call_can_be_used(entries, j),
        replay(entries, n).messages[i].reasoning_content is Some,
    ensures
        makes_calls(replay(entries, n).messages[i]) || {
            &&& i == replay(entries, n).messages.len() - 1
            &&& replay(entries, n).messages[i].role == MessageRole::Assistant
            &&& replay(entries, n).pending is None
            &&& n > 0 && entries[n - 1].role == "assistant"@ && !entries[n - 1].is_marker()
            &&& is_call_at(entries, n)
        },
    decreases n,
{
    if n > 0 {
        let before = replay(entries, n - 1);
        let after = replay(entries, n);
        let e = entries[n - 1];
        lemma_roles_differ();
        if i < before.messages.len() {
            assert(after.messages[i].reasoning_content == before.messages[i].reasoning_content);
            lemma_reasoning(entries, n - 1, i);
            if !makes_calls(before.messages[i]) {
                assert(call_can_be_used(entries, n - 2));
                assert(names_a_call(e));
                assert(before.messages.last() == before.messages[i]);
                let call = ToolCallView {
                    id: e.meta_text("tool_call_id"@)->0,
                    call_type: "function"@,
                    name: e.meta_text("tool_name"@)->0,
                    arguments: e.content,
                };
                assert(after == before.tool_call(call));
                assert(after.messages[i] == with_call(before.messages[i], call));
                assert(makes_calls(after.messages[i]));
            } else {
                assert(after.messages[i] == before.messages[i] || after.messages[i]
                    == after.messages.last());
                assert(makes_calls(after.messages[i]));
            }
        } else {
            assert(e.role == "assistant"@ || e.role == "tool_call"@);
        }
    }
}

/// Reasoning comes back only where it belongs: every restored message with
/// reasoning makes tool calls. A tool call that follows an answer must name its
/// id and its tool.
pub proof fn restored_reasoning_belongs_to_calls(collected: Collected, i: int)
    requires
        0 <= i < outcome(collected).messages.len(),
        forall|j: int|
            0 <= j < working(collected.entries).len() ==> #[trigger] call_can_be_used(
                working(collected.entries),
                j,
            ),
    ensures
        outcome(collected).messages[i].reasoning_content is Some ==> makes_calls(
            outcome(collected).messages[i],
        ),
{
    let work = working(collected.entries);
    let all = replay(work, work.len() as int).messages;
    let j = lemma_kept_is_replayed(all, i);
    if all[j].reasoning_content is Some {
        lemma_reasoning(work, work.len() as int, j);
    }
}

// ── Compaction ──────────────────────────────────────────────────────────

/// The system entries at the start are all of the entries where there is
/// nothing else.
proof fn lemma_leading_of_systems(entries: Seq<EntryView>)
    requires
        forall|i: int| 0 <= i < entries.len() ==> (#[trigger] entries[i]).is_plain_system(),
    ensures
        leading_systems(entries) == entries,
{
    lemma_systems_end(entries, 0);
    assert(entries.take(entries.len() as int) =~= entries);
}

/// Where the system entries at the start end does not depend on what follows
/// the first other entry.
proof fn lemma_systems_end_is(entries: Seq<EntryView>, i: int, n: int)
    requires
        0 <= i <= n <= entries.len(),
        forall|j: int| i <= j < n ==> (#[trigger] entries[j]).is_plain_system(),
        n < entries.len() ==> !entries[n].is_plain_system(),
    ensures
        systems_end(entries, i) == n,
    decreases n - i,
{
    if i < n {
        assert(entries[i].is_plain_system());
        lemma_systems_end_is(entries, i + 1, n);
    }
}

/// One more entry belongs to the system entries at the start if it is one and
/// nothing else stands before it.
proof fn lemma_leading_grows(entries: Seq<EntryView>, e: EntryView)
    ensures
        leading_systems(entries.push(e)) == (if leading_systems(entries).len() == entries.len()
            && e.is_plain_system() {
            entries.push(e)
        } else {
            leading_systems(entries)
        }),
{
    let more = entries.push(e);
    let n = systems_end(entries, 0);
    lemma_systems_end(entries, 0);
    assert forall|j: int| 0 <= j < n implies (#[trigger] more[j]).is_plain_system() by {
        assert(entries[j].is_plain_system());
    }
    if n == entries.len() && e.is_plain_system() {
        lemma_systems_end_is(more, 0, n + 1);
        assert(more.take(n + 1) =~= more);
    } else {
        lemma_systems_end_is(more, 0, n);
        assert(more.take(n) =~= entries.take(n));
    }
}

proof fn lemma_marker_is(entries: Seq<EntryView>, c: int)
    requires
        0 <= c < entries.len(),
        entries[c].is_marker(),
        forall|i: int| c < i < entries.len() ==> !(#[trigger] entries[i]).is_marker(),
    ensures
        last_marker(entries) == Some(c),
    decreases entries.len(),
{
    if c < entries.len() - 1 {
        assert(!entries[entries.len() - 1].is_marker());
        assert forall|i: int| c < i < entries.len() - 1 implies !(
        #[trigger] entries.drop_last()[i]).is_marker() by {
            assert(!entries[i].is_marker());
        }
        lemma_marker_is(entries.drop_last(), c);
    }
}

/// The retained entries of a compacted log: the plain system entries at its
/// start, then the marker, then entries that hold no marker.
proof fn lemma_working_shape(entries: Seq<EntryView>) -> (k: int)
    requires
        last_marker(entries) is Some,
    ensures
        ({
            let work = working(entries);
            let c = last_marker(entries)->0;
            &&& 0 <= k < work.len()
            &&& 0 <= c < entries.len()
            &&& work[k] == entries[c]
            &&& work[k].is_marker()
            &&& forall|i: int| 0 <= i < k ==> (#[trigger] work[i]).is_plain_system()
            &&& forall|i: int| k < i < work.len() ==> !(#[trigger] work[i]).is_marker()
            &&& work.take(k) == leading_systems(entries.take(c))
            &&& work.skip(k) == entries.skip(c)
            &&& last_marker(work) == Some(k)
        }),
{
    lemma_last_marker(entries);
    let c = last_marker(entries)->0;
    let systems = leading_systems(entries.take(c));
    lemma_systems_end(entries.take(c), 0);
    let work = working(entries);
    let k = systems.len() as int;
    assert forall|i: int| 0 <= i < k implies (#[trigger] work[i]).is_plain_system() by {
        assert(work[i] == systems[i]);
        assert(systems[i] == entries.take(c)[i]);
    }
    assert forall|i: int| k < i < work.len() implies !(#[trigger] work[i]).is_marker() by {
        assert(work[i] == entries[c + (i - k)]);
    }
    assert(work[k] == entries[c]);
    assert(work.take(k) =~= systems);
    assert(work.skip(k) =~= entries.skip(c));
    lemma_marker_is(work, k);
    k
}

/// What a compaction summarised away never comes back: only the retained
/// entries count, and retaining them a second time changes nothing.
pub proof fn retained_entries_are_stable(entries: Seq<EntryView>)
    ensures
        working(working(entries)) == working(entries),
        last_marker(working(entries)) is Some == last_marker(entries) is Some,
{
    if last_marker(entries) is Some {
        let k = lemma_working_shape(entries);
        let work = working(entries);
        let systems = work.take(k);
        assert forall|i: int| 0 <= i < systems.len() implies (
        #[trigger] systems[i]).is_plain_system() by {
            assert(work[i].is_plain_system());
        }
        lemma_leading_of_systems(systems);
        assert(systems + work.skip(k) =~= work);
    }
}

/// Replaying plain system entries gives their messages, one each.
pub(crate) proof fn lemma_replay_systems(entries: Seq<EntryView>, n: int)
    requires
        0 <= n <= entries.len(),
        forall|i: int| 0 <= i < n ==> (#[trigger] entries[i]).is_plain_system(),
    ensures
        replay(entries, n).messages.len() == n,
        forall|i: int|
            0 <= i < n ==> (#[trigger] replay(entries, n).messages[i])
                == ChatMessageView::plain(MessageRole::System, entries[i].content),
    decreases n,
{
    if n > 0 {
        lemma_replay_systems(entries, n - 1);
        assert(entries[n - 1].is_plain_system());
        reveal_strlit("thought");
        reveal_strlit("system");
        assert("thought"@.len() != "system"@.len());
        let before = replay(entries, n - 1).messages;
        let after = replay(entries, n).messages;
        assert(after == before.push(
            ChatMessageView::plain(MessageRole::System, entries[n - 1].content),
        ));
    }
}

/// Replaying entries without a marker leaves the first `k + 1` messages alone
/// where message `k` is no assistant turn, and adds no named user message.
proof fn lemma_replay_tail(entries: Seq<EntryView>, k: int, n: int)
    requires
        0 <= k < n <= entries.len(),
        replay(entries, k + 1).messages.len() == k + 1,
        replay(entries, k + 1).messages[k].role == MessageRole::User,
        forall|i: int| k < i < entries.len() ==> !(#[trigger] entries[i]).is_marker(),
    ensures
        replay(entries, n).messages.len() >= k + 1,
        replay(entries, n).messages.take(k + 1) == replay(entries, k + 1).messages,
        forall|i: int|
            k < i < replay(entries, n).messages.len() && (#[trigger] replay(
                entries,
                n,
            ).messages[i]).role == MessageRole::User ==> replay(entries, n).messages[i].name
                is None,
    decreases n,
{
    if n == k + 1 {
        assert(replay(entries, n).messages.take(k + 1) =~= replay(entries, k + 1).messages);
    } else {
        lemma_replay_tail(entries, k, n - 1);
        let before = replay(entries, n - 1);
        let after = replay(entries, n);
        assert(!entries[n - 1].is_marker());
        assert(before.messages.take(k + 1)[k] == before.messages[k]);
        assert(after.messages.take(k + 1) =~= before.messages.take(k + 1));
        assert forall|i: int|
            k < i < after.messages.len() && (#[trigger] after.messages[i]).role
                == MessageRole::User implies after.messages[i].name is None by {
            if i < before.messages.len() {
                assert(before.messages[i].role == after.messages[i].role);
                assert(before.messages[i].name == after.messages[i].name);
            }
        }
    }
}

/// Dropping orphans leaves a prefix without tool messages where it is.
pub(crate) proof fn lemma_orphans_after_prefix(messages: Seq<ChatMessageView>, k: int)
    requires
        0 <= k <= messages.len(),
        forall|i: int| 0 <= i < k ==> (#[trigger] messages[i]).role != MessageRole::Tool,
    ensures
        without_orphans(messages).len() >= k,
        without_orphans(messages).take(k) == messages.take(k),
    decreases messages.len(),
{
    if messages.len() == 0 {
        assert(without_orphans(messages).take(k) =~= messages.take(k));
    } else if k < messages.len() {
        lemma_orphans_after_prefix(messages.drop_last(), k);
        assert(without_orphans(messages).take(k) =~= without_orphans(messages.drop_last()).take(k));
        assert(messages.take(k) =~= messages.drop_last().take(k));
    } else {
        assert(messages[messages.len() - 1].role != MessageRole::Tool);
        lemma_orphans_after_prefix(messages.drop_last(), k - 1);
        assert(messages.drop_last().take(k - 1) =~= messages.drop_last());
        let before = without_orphans(messages.drop_last());
        lemma_without_orphans_len(messages.drop_last());
        assert(before.take(k - 1) =~= before);
        assert(without_orphans(messages) =~= messages);
        assert(without_orphans(messages).take(k) =~= messages.take(k));
    }
}

/// The message index at which a compacted history holds its marker.
pub open spec fn marker_index(entries: Seq<EntryView>) -> int {
    leading_systems(entries.take(last_marker(entries)->0)).len() as int
}

/// A compacted history is the system messages at the start of the log, then
/// the summary of the last compaction, then the rest; and no other message
/// poses as a summary.
pub proof fn compacted_history_is_anchored(collected: Collected)
    requires
        last_marker(collected.entries) is Some,
    ensures
        ({
            let messages = outcome(collected).messages;
            let k = marker_index(collected.entries);
            &&& 0 <= k < messages.len()
            &&& messages[k] == marker_message(
                collected.entries[last_marker(collected.entries)->0].content,
            )
            &&& forall|i: int|
                0 <= i < k ==> (#[trigger] messages[i]) == ChatMessageView::plain(
                    MessageRole::System,
                    collected.entries[i].content,
                )
            &&& forall|i: int|
                k < i < messages.len() && (#[trigger] messages[i]).role == MessageRole::User
                    ==> messages[i].name is None
        }),
{
    let entries = collected.entries;
    let work = working(entries);
    let k = lemma_working_shape(entries);
    assert(work.take(k).len() == k);
    let all = replay(work, work.len() as int).messages;
    lemma_replay_systems(work, k);
    assert(replay(work, k + 1).messages == replay(work, k).messages.push(
        marker_message(work[k].content),
    ));
    lemma_replay_tail(work, k, work.len() as int);
    assert forall|i: int| 0 <= i < k + 1 implies (#[trigger] all[i]).role != MessageRole::Tool by {
        assert(all.take(k + 1)[i] == replay(work, k + 1).messages[i]);
    }
    lemma_orphans_after_prefix(all, k + 1);
    let kept = without_orphans(all);
    let c = last_marker(entries)->0;
    lemma_systems_end(entries.take(c), 0);
    assert forall|i: int| 0 <= i < k implies (#[trigger] kept[i]) == ChatMessageView::plain(
        MessageRole::System,
        entries[i].content,
    ) by {
        assert(kept.take(k + 1)[i] == all.take(k + 1)[i]);
        assert(replay(work, k + 1).messages[i] == replay(work, k).messages[i]);
        assert(work[i] == work.take(k)[i]);
        assert(leading_systems(entries.take(c))[i] == entries.take(c)[i]);
    }
    assert(kept.take(k + 1)[k] == all.take(k + 1)[k]);
    assert forall|i: int|
        k < i < kept.len() && (#[trigger] kept[i]).role == MessageRole::User implies kept[i].name
        is None by {
        lemma_kept_tail_source(all, k + 1, i);
    }
}

/// A kept message after the untouched prefix comes from after that prefix.
proof fn lemma_kept_tail_source(messages: Seq<ChatMessageView>, k: int, i: int)
    requires
        0 <= k <= i < without_orphans(messages).len(),
        k <= messages.len(),
        forall|j: int| 0 <= j < k ==> (#[trigger] messages[j]).role != MessageRole::Tool,
    ensures
        exists|j: int| k <= j < messages.len() && #[trigger] messages[j] == without_orphans(
            messages,
        )[i],
    decreases messages.len(),
{
    let before = messages.drop_last();
    let kept_before = without_orphans(before);
    lemma_without_orphans_len(messages);
    lemma_without_orphans_len(before);
    if i < kept_before.len() {
        assert forall|j: int| 0 <= j < k implies (#[trigger] before[j]).role
            != MessageRole::Tool by {
            assert(messages[j].role != MessageRole::Tool);
        }
        lemma_kept_tail_source(before, k, i);
        let j = choose|j: int| k <= j < before.len() && #[trigger] before[j] == kept_before[i];
        assert(messages[j] == without_orphans(messages)[i]);
    } else {
        assert(messages[messages.len() - 1] == without_orphans(messages)[i]);
    }
}

// ── Offsets ─────────────────────────────────────────────────────────────

/// A stale offset loses nothing: where it leads to no compaction marker, the
/// restore is that of the whole log.
pub proof fn stale_offset_reads_the_whole_log(
    lines: Seq<LineView>,
    len: u64,
    abs: u64,
    at_offset: Option<EntryView>,
)
    requires
        last_marker(scan_fast(lines, len, abs, at_offset).entries) is None,
    ensures
        outcome(collect(lines, len, Some(abs), at_offset)) == outcome(
            collect(lines, len, None, at_offset),
        ),
{
}

/// An offset beyond the end of the log is stale.
pub proof fn offset_past_the_end_is_stale(
    lines: Seq<LineView>,
    len: u64,
    abs: u64,
    at_offset: Option<EntryView>,
)
    requires
        len < abs,
        forall|i: int| 0 <= i < lines.len() ==> (#[trigger] lines[i]).start < abs,
    ensures
        last_marker(scan_fast(lines, len, abs, at_offset).entries) is None,
{
    lemma_head_end(lines, abs, 0);
    assert(lines.take(lines.len() as int) =~= lines);
    lemma_head_has_no_marker(lines);
}

proof fn lemma_head_has_no_marker(lines: Seq<LineView>)
    ensures
        last_marker(scan_head(lines).entries) is None,
        forall|i: int|
            0 <= i < scan_head(lines).entries.len() ==> (#[trigger] scan_head(
                lines,
            ).entries[i]).is_plain_system(),
    decreases lines.len(),
{
    if lines.len() > 0 {
        lemma_head_has_no_marker(lines.drop_last());
        let before = scan_head(lines.drop_last()).entries;
        if !lines.last().blank() && only_systems(lines.drop_last()) && lines.last().retained()
            is Some {
            let e = lines.last().retained()->0;
            assert(before.push(e).drop_last() =~= before);
        }
    }
}

/// The byte offset `abs` is where line `h` starts, and that line holds the last
/// compaction marker of the log.
pub open spec fn offset_marks(
    lines: Seq<LineView>,
    abs: u64,
    at_offset: Option<EntryView>,
    h: int,
) -> bool {
    &&& 0 <= h < lines.len()
    &&& lines[h].start == abs
    &&& !lines[h].blank()
    &&& at_offset is Some
    &&& at_offset->0.is_marker()
    &&& lines[h].decoded() == at_offset
    &&& forall|i: int| 0 <= i < h ==> (#[trigger] lines[i]).start < abs
    &&& forall|i: int|
        h < i < lines.len() && !(#[trigger] lines[i]).blank() && lines[i].decoded() is Some
            ==> !lines[i].decoded()->0.is_marker()
}

/// The text test before the offset recognises every plain system entry.
pub open spec fn systems_are_recognised(lines: Seq<LineView>, h: int) -> bool {
    forall|i: int|
        0 <= i < h && !(#[trigger] lines[i]).blank() && lines[i].decoded() is Some
            && lines[i].decoded()->0.is_plain_system() ==> lines[i].looks_like_system()
}

/// Scanning two stretches of lines one after the other.
proof fn lemma_scan_concat(a: Seq<LineView>, b: Seq<LineView>)
    ensures
        scan_all(a + b) == scan_all(a).then_collect(scan_all(b)),
    decreases b.len(),
{
    if b.len() == 0 {
        assert(a + b =~= a);
        assert(scan_all(a).entries + scan_all(b).entries =~= scan_all(a).entries);
    } else {
        lemma_scan_concat(a, b.drop_last());
        assert((a + b).drop_last() =~= a + b.drop_last());
        assert((a + b).last() == b.last());
        assert(scan_all(a + b).entries =~= scan_all(a).entries + scan_all(b).entries);
    }
}

/// What is retained of the lines before the offset is the system entries at the
/// start of all that decodes there; the rest is skipped.
proof fn lemma_head_is_systems(lines: Seq<LineView>)
    requires
        systems_are_recognised(lines, lines.len() as int),
    ensures
        scan_head(lines).entries == leading_systems(scan_all(lines).entries),
        only_systems(lines) <==> leading_systems(scan_all(lines).entries).len() == scan_all(
            lines,
        ).entries.len(),
        scan_head(lines).entries.len() + scan_head(lines).skipped == scan_all(lines).entries.len()
            + scan_all(lines).skipped,
    decreases lines.len(),
{
    if lines.len() > 0 {
        let before = lines.drop_last();
        assert forall|i: int|
            0 <= i < before.len() && !(#[trigger] before[i]).blank() && before[i].decoded() is Some
                && before[i].decoded()->0.is_plain_system() implies before[i].looks_like_system() by {
            assert(lines[i] == before[i]);
        }
        lemma_head_is_systems(before);
        let line = lines[lines.len() - 1];
        let all = scan_all(before).entries;
        lemma_systems_end(all, 0);
        if only_systems(before) {
            assert(leading_systems(all) =~= all);
        }
        if !line.blank() && line.decoded() is Some {
            lemma_leading_grows(all, line.decoded()->0);
        }
        assert(only_systems(lines) <==> only_systems(before) && !line.ends_systems()) by {
            if only_systems(lines) {
                assert forall|i: int| 0 <= i < before.len() implies !(
                #[trigger] before[i]).ends_systems() by {
                    assert(!lines[i].ends_systems());
                }
                assert(!lines[lines.len() - 1].ends_systems());
            }
            if only_systems(before) && !line.ends_systems() {
                assert forall|i: int| 0 <= i < lines.len() implies !(
                #[trigger] lines[i]).ends_systems() by {
                    if i < before.len() {
                        assert(!before[i].ends_systems());
                    }
                }
            }
        }
    } else {
        assert(scan_head(lines).entries =~= leading_systems(scan_all(lines).entries));
    }
}

proof fn lemma_scan_has_no_marker(lines: Seq<LineView>)
    requires
        forall|i: int|
            0 <= i < lines.len() && !(#[trigger] lines[i]).blank() && lines[i].decoded() is Some
                ==> !lines[i].decoded()->0.is_marker(),
    ensures
        forall|i: int|
            0 <= i < scan_all(lines).entries.len() ==> !(#[trigger] scan_all(
                lines,
            ).entries[i]).is_marker(),
    decreases lines.len(),
{
    if lines.len() > 0 {
        let before = lines.drop_last();
        assert forall|i: int|
            0 <= i < before.len() && !(#[trigger] before[i]).blank() && before[i].decoded()
                is Some implies !before[i].decoded()->0.is_marker() by {
            assert(lines[i] == before[i]);
        }
        lemma_scan_has_no_marker(before);
        assert(lines[lines.len() - 1] == lines.last());
        let all = scan_all(lines).entries;
        assert forall|i: int| 0 <= i < all.len() implies !(#[trigger] all[i]).is_marker() by {
            if i < scan_all(before).entries.len() {
                assert(all[i] == scan_all(before).entries[i]);
            }
        }
    }
}

/// The offset is a shortcut and no more: where it marks the last compaction
/// and the system lines before it are recognised, the restore is that of the
/// whole log, counts included.
#[verifier::rlimit(40)]
#[verifier::spinoff_prover]
pub proof fn offset_restores_what_the_whole_log_does(
    lines: Seq<LineView>,
    len: u64,
    abs: u64,
    at_offset: Option<EntryView>,
    h: int,
)
    requires
        offset_marks(lines, abs, at_offset, h),
        systems_are_recognised(lines, h),
    ensures
        outcome(collect(lines, len, Some(abs), at_offset)) == outcome(
            collect(lines, len, None, at_offset),
        ),
{
    lemma_head_end(lines, abs, 0);
    if head_end(lines, abs, 0) < h {
        assert(lines[head_end(lines, abs, 0)].start < abs);
    }
    assert(head_end(lines, abs, 0) == h) by {
        if head_end(lines, abs, 0) > h {
            assert(lines[h].start < abs);
        }
    }
    let marker = at_offset->0;
    let head_lines = lines.take(h);
    let tail_lines = lines.skip(h + 1);
    let one = lines.subrange(h, h + 1);
    assert(lines =~= head_lines + one + tail_lines);
    lemma_scan_concat(head_lines + one, tail_lines);
    lemma_scan_concat(head_lines, one);
    assert(one.drop_last() =~= Seq::empty());
    assert(one.last() == lines[h]);
    assert(scan_all(one.drop_last()) == Collected::empty());
    assert(scan_all(one).entries =~= seq![marker]);
    assert(scan_all(one).skipped == 0);
    assert forall|i: int|
        0 <= i < head_lines.len() && !(#[trigger] head_lines[i]).blank() && head_lines[i].decoded()
            is Some && head_lines[i].decoded()->0.is_plain_system() implies
        head_lines[i].looks_like_system() by {
        assert(lines[i] == head_lines[i]);
    }
    lemma_head_is_systems(head_lines);
    lemma_head_has_no_marker(head_lines);
    assert forall|i: int|
        0 <= i < tail_lines.len() && !(#[trigger] tail_lines[i]).blank() && tail_lines[i].decoded()
            is Some implies !tail_lines[i].decoded()->0.is_marker() by {
        assert(lines[h + 1 + i] == tail_lines[i]);
    }
    lemma_scan_has_no_marker(tail_lines);
    let before = scan_all(head_lines);
    let head = scan_head(head_lines);
    let tail = scan_all(tail_lines);
    let full = scan_all(lines);
    let fast = scan_fast(lines, len, abs, at_offset);
    assert(full.entries =~= before.entries + seq![marker] + tail.entries);
    assert(fast.entries =~= head.entries + seq![marker] + tail.entries);
    let cf = before.entries.len() as int;
    let ch = head.entries.len() as int;
    assert forall|i: int| cf < i < full.entries.len() implies !(
    #[trigger] full.entries[i]).is_marker() by {
        assert(full.entries[i] == tail.entries[i - cf - 1]);
    }
    assert forall|i: int| ch < i < fast.entries.len() implies !(
    #[trigger] fast.entries[i]).is_marker() by {
        assert(fast.entries[i] == tail.entries[i - ch - 1]);
    }
    lemma_marker_is(full.entries, cf);
    lemma_marker_is(fast.entries, ch);
    assert(full.entries.take(cf) =~= before.entries);
    assert(fast.entries.take(ch) =~= head.entries);
    assert(full.entries.skip(cf) =~= fast.entries.skip(ch));
    lemma_leading_of_systems(head.entries);
    lemma_systems_end(before.entries, 0);
    assert(working(full.entries) == working(fast.entries));
}

// ── Conservation ────────────────────────────────────────────────────────

/// The number of lines that are not blank.
pub open spec fn content_lines(lines: Seq<LineView>) -> nat
    decreases lines.len(),
{
    if lines.len() == 0 {
        0
    } else {
        content_lines(lines.drop_last()) + if lines.last().blank() {
            0nat
        } else {
            1nat
        }
    }
}

proof fn lemma_scan_counts(lines: Seq<LineView>)
    ensures
        scan_all(lines).entries.len() + scan_all(lines).skipped == content_lines(lines),
        scan_head(lines).entries.len() + scan_head(lines).skipped == content_lines(lines),
    decreases lines.len(),
{
    if lines.len() > 0 {
        lemma_scan_counts(lines.drop_last());
    }
}

proof fn lemma_content_concat(a: Seq<LineView>, b: Seq<LineView>)
    ensures
        content_lines(a + b) == content_lines(a) + content_lines(b),
    decreases b.len(),
{
    if b.len() == 0 {
        assert(a + b =~= a);
    } else {
        lemma_content_concat(a, b.drop_last());
        assert((a + b).drop_last() =~= a + b.drop_last());
    }
}

/// Every collected entry and every skipped line is counted exactly once, as
/// replayed or as skipped.
pub proof fn restore_counts_every_entry(collected: Collected)
    ensures
        outcome(collected).replayed + outcome(collected).skipped == collected.entries.len()
            + collected.skipped,
{
    let work = working(collected.entries);
    lemma_replay_counts(work, work.len() as int);
    lemma_without_orphans_len(replay(work, work.len() as int).messages);
    if last_marker(collected.entries) is Some {
        lemma_last_marker(collected.entries);
        lemma_systems_end(collected.entries.take(last_marker(collected.entries)->0), 0);
    }
}

/// A restore accounts for the whole log: the lines that hold something are
/// replayed or skipped, none twice, none silently. An offset must be the start
/// of a line, and what decodes there the entry of that line.
pub proof fn restore_accounts_for_every_line(
    lines: Seq<LineView>,
    len: u64,
    abs: Option<u64>,
    at_offset: Option<EntryView>,
)
    requires
        abs is Some && at_offset is Some && at_offset->0.is_marker() ==> {
            let h = head_end(lines, abs->0, 0);
            h < lines.len() && lines[h].start == abs->0 && !lines[h].blank()
        },
    ensures
        ({
            let o = outcome(collect(lines, len, abs, at_offset));
            o.replayed + o.skipped == content_lines(lines)
        }),
{
    restore_counts_every_entry(collect(lines, len, abs, at_offset));
    lemma_scan_counts(lines);
    if let Some(abs) = abs {
        let h = head_end(lines, abs, 0);
        lemma_head_end(lines, abs, 0);
        lemma_scan_counts(lines.take(h));
        lemma_scan_counts(lines.skip(h));
        assert(lines =~= lines.take(h) + lines.skip(h));
        lemma_content_concat(lines.take(h), lines.skip(h));
        if h < lines.len() && lines[h].start == abs {
            let one = lines.subrange(h, h + 1);
            lemma_scan_counts(lines.skip(h + 1));
            assert(lines.skip(h) =~= one + lines.skip(h + 1));
            lemma_content_concat(one, lines.skip(h + 1));
            assert(one.drop_last() =~= Seq::empty());
            assert(one.last() == lines[h]);
            assert(content_lines(one.drop_last()) == 0);
        } else if h >= lines.len() && len < abs {
            lemma_head_has_no_marker(lines.take(h));
        }
    }
}

// ── Entries ─────────────────────────────────────────────────────────────

/// What the user, the system and the model said is restored word for word, in
/// the role in which it was said; a marker of a compaction is the user's word
/// under its name. What was thought before is then used up, and stays with an
/// answer only where a call follows it.
pub proof fn words_are_restored_in_their_role(s: ReplayView, e: EntryView, next_is_call: bool)
    ensures
        ({
            let after = s.step(e, next_is_call);
            let m = after.messages.last();
            let said = e.role == "user"@ || e.role == "system"@ || e.role == "assistant"@;
            &&& e.is_marker() || said ==> {
                &&& after.messages.drop_last() == s.messages
                &&& after.messages.len() == s.messages.len() + 1
                &&& m.content == e.content
                &&& m.tool_calls is None
                &&& m.tool_call_id is None
                &&& after.pending is None
                &&& after.replayed == s.replayed + 1
                &&& after.skipped == s.skipped
            }
            &&& e.is_marker() ==> m.role == MessageRole::User && m.name == Some(
                "compaction_summary"@,
            )
            &&& !e.is_marker() && said ==> m.name is None
            &&& !e.is_marker() && e.role == "user"@ ==> m.role == MessageRole::User
                && m.reasoning_content is None
            &&& !e.is_marker() && e.role == "system"@ ==> m.role == MessageRole::System
                && m.reasoning_content is None
            &&& !e.is_marker() && e.role == "assistant"@ ==> {
                &&& m.role == MessageRole::Assistant
                &&& next_is_call ==> m.reasoning_content == s.pending
                &&& !next_is_call ==> m.reasoning_content is None
            }
        }),
{
    lemma_roles_differ();
    assert(s.step(e, next_is_call).messages.drop_last() =~= s.messages || !(e.is_marker() || e.role
        == "user"@ || e.role == "system"@ || e.role == "assistant"@));
}

/// A thought is kept for what follows, in place of one before it, and is no
/// message of its own; an entry of a role that is not known is passed over.
pub proof fn thoughts_wait_for_what_follows(s: ReplayView, e: EntryView, next_is_call: bool)
    requires
        !e.is_marker(),
    ensures
        ({
            let after = s.step(e, next_is_call);
            let known = e.role == "user"@ || e.role == "system"@ || e.role == "assistant"@ || e.role
                == "tool_call"@ || e.role == "tool_result"@ || e.role == "thought"@;
            &&& e.role == "thought"@ ==> after.pending == Some(e.content) && after.messages
                == s.messages && after.replayed == s.replayed && after.skipped == s.skipped + 1
            &&& !known ==> after.messages == s.messages && after.pending == s.pending
                && after.replayed == s.replayed && after.skipped == s.skipped + 1
        }),
{
    lemma_roles_differ();
}

/// A call is restored where it names itself and its tool: with the words of the
/// model right before it, where nothing was thought in between; else on its own,
/// with the thought. A call without a name is passed over.
pub proof fn calls_are_restored_by_name(s: ReplayView, e: EntryView, next_is_call: bool)
    requires
        !e.is_marker(),
        e.role == "tool_call"@,
    ensures
        ({
            let after = s.step(e, next_is_call);
            let id = e.meta_text("tool_call_id"@);
            let name = e.meta_text("tool_name"@);
            let named = id is Some && id->0.len() > 0 && name is Some && name->0.len() > 0;
            let joins = s.pending is None && s.messages.len() > 0 && s.messages.last().role
                == MessageRole::Assistant;
            let m = after.messages.last();
            &&& !named ==> after.messages == s.messages && after.pending == s.pending
                && after.skipped == s.skipped + 1 && after.replayed == s.replayed
            &&& named ==> {
                &&& m.role == MessageRole::Assistant
                &&& m.tool_calls is Some
                &&& m.tool_calls->0.last().id == id->0
                &&& m.tool_calls->0.last().name == name->0
                &&& m.tool_calls->0.last().arguments == e.content
                &&& m.tool_calls->0.last().call_type == "function"@
                &&& after.pending is None
                &&& after.replayed == s.replayed + 1
                &&& after.skipped == s.skipped
            }
            &&& named && joins ==> {
                &&& after.messages.len() == s.messages.len()
                &&& m.content == s.messages.last().content
                &&& m.reasoning_content == s.messages.last().reasoning_content
                &&& s.messages.last().tool_calls is None ==> m.tool_calls->0.len() == 1
                &&& s.messages.last().tool_calls matches Some(had) ==> m.tool_calls->0.drop_last()
                    == had
            }
            &&& named && !joins ==> {
                &&& after.messages.len() == s.messages.len() + 1
                &&& after.messages.drop_last() == s.messages
                &&& m.content.len() == 0
                &&& m.reasoning_content == s.pending
                &&& m.tool_calls->0.len() == 1
            }
        }),
{
    lemma_roles_differ();
    let after = s.step(e, next_is_call);
    let joins = s.pending is None && s.messages.len() > 0 && s.messages.last().role
        == MessageRole::Assistant;
    if joins {
        match s.messages.last().tool_calls {
            Some(had) => {
                if after.messages.last().tool_calls is Some && after.replayed == s.replayed + 1 {
                    assert(after.messages.last().tool_calls->0.drop_last() =~= had);
                }
            },
            None => {},
        }
    } else if after.replayed == s.replayed + 1 {
        assert(after.messages.drop_last() =~= s.messages);
    }
}

/// A result is restored where it names its call: as the tool's word, under the
/// tool's name; a thought before it stays for what follows.
pub proof fn results_are_restored_by_call(s: ReplayView, e: EntryView, next_is_call: bool)
    requires
        !e.is_marker(),
        e.role == "tool_result"@,
    ensures
        ({
            let after = s.step(e, next_is_call);
            let id = e.meta_text("tool_call_id"@);
            let named = id is Some && id->0.len() > 0;
            &&& after.pending == s.pending
            &&& !named ==> after.messages == s.messages && after.skipped == s.skipped + 1
            &&& named ==> {
                let m = after.messages.last();
                &&& after.messages.drop_last() == s.messages
                &&& after.messages.len() == s.messages.len() + 1
                &&& m.role == MessageRole::Tool
                &&& m.content == e.content
                &&& m.tool_call_id == id
                &&& m.name == e.meta_text("tool_name"@)
                &&& m.tool_calls is None
                &&& after.replayed == s.replayed + 1
            }
        }),
{
    lemma_roles_differ();
    let after = s.step(e, next_is_call);
    if after.replayed == s.replayed + 1 {
        assert(after.messages.drop_last() =~= s.messages);
    }
}

// ── Lines ───────────────────────────────────────────────────────────────

/// A log is read line by line, in order: a line that can be read is an entry, a
/// blank one is nothing, and any other is counted as skipped.
pub proof fn logs_are_read_line_by_line(a: Seq<LineView>, b: Seq<LineView>, line: LineView)
    ensures
        scan_all(a + b).entries == scan_all(a).entries + scan_all(b).entries,
        scan_all(a + b).skipped == scan_all(a).skipped + scan_all(b).skipped,
        line.blank() ==> scan_all(seq![line]).entries.len() == 0 && scan_all(seq![line]).skipped
            == 0,
        !line.blank() && line.decoded() is Some ==> scan_all(seq![line]).entries == seq![
            line.decoded()->0,
        ] && scan_all(seq![line]).skipped == 0,
        !line.blank() && line.decoded() is None ==> scan_all(seq![line]).entries.len() == 0
            && scan_all(seq![line]).skipped == 1,
        line.text is None ==> line.decoded() is None && !line.blank(),
        line.text is Some ==> line.decoded() == line.entry,
    decreases b.len(),
{
    reveal_with_fuel(scan_all, 3);
    assert(seq![line].drop_last() =~= Seq::<LineView>::empty());
    if b.len() == 0 {
        assert(a + b =~= a);
        assert(scan_all(a).entries + scan_all(b).entries =~= scan_all(a).entries);
    } else {
        assert((a + b).drop_last() =~= a + b.drop_last());
        assert((a + b).last() == b.last());
        logs_are_read_line_by_line(a, b.drop_last(), line);
        assert(scan_all(a + b).entries =~= scan_all(a).entries + scan_all(b).entries);
    }
}

/// What is worked with after a compaction: the system's words at the very start,
/// and all from the last marker on; without a compaction all of it.
pub proof fn history_starts_at_the_last_marker(entries: Seq<EntryView>, c: int)
    requires
        -1 <= c < entries.len(),
        c >= 0 ==> entries[c].is_marker(),
        forall|i: int| c < i < entries.len() ==> !(#[trigger] entries[i]).is_marker(),
    ensures
        c < 0 ==> working(entries) == entries,
        c >= 0 ==> {
            let n = leading_systems(entries.take(c)).len() as int;
            &&& 0 <= n <= c
            &&& working(entries).len() == n + entries.len() - c
            &&& working(entries).take(n) == entries.take(n)
            &&& working(entries).skip(n) == entries.skip(c)
            &&& forall|i: int| 0 <= i < n ==> (#[trigger] entries[i]).is_plain_system()
            &&& n < c ==> !entries[n].is_plain_system()
        },
{
    lemma_last_marker(entries);
    if c >= 0 {
        assert(entries[c].is_marker());
        assert(last_marker(entries) == Some(c));
        let head = entries.take(c);
        lemma_systems_end(head, 0);
        let n = systems_end(head, 0);
        assert(leading_systems(head).len() == n);
        assert(working(entries).take(n) =~= entries.take(n));
        assert(working(entries).skip(n) =~= entries.skip(c));
        assert forall|i: int| 0 <= i < n implies (#[trigger] entries[i]).is_plain_system() by {
            assert(head[i] == entries[i]);
        }
        if n < c {
            assert(head[n] == entries[n]);
        }
    }
}

/// A restore says that there was a compaction where it saw a marker.
pub proof fn markers_are_told(collected: Collected, i: int)
    ensures
        0 <= i < collected.entries.len() && collected.entries[i].is_marker() ==> outcome(
            collected,
        ).had_compaction,
        (forall|k: int|
            0 <= k < collected.entries.len() ==> !(#[trigger] collected.entries[k]).is_marker())
            ==> !outcome(collected).had_compaction,
{
    lemma_last_marker(collected.entries);
}

/// The head of a log is searched for the system's words alone: a line that says
/// it is the system's, and no compaction's, and is, is kept, as long as no line of
/// another kind came before it; every other line that is not blank is counted as
/// skipped.
pub proof fn early_words_of_the_system_are_kept(lines: Seq<LineView>, line: LineView)
    ensures
        ({
            let before = scan_head(lines);
            let after = scan_head(lines.push(line));
            let says_so = line.text is Some && has_text(line.text->0, "\"role\":\"system\""@)
                && !has_text(line.text->0, "\"kind\":\"compaction\""@);
            let is_one = line.text is Some && line.entry is Some && line.entry->0.role
                == "system"@ && line.entry->0.kind is None;
            &&& line.blank() ==> after == before
            &&& !line.blank() && only_systems(lines) && says_so && is_one ==> after.entries
                == before.entries.push(line.entry->0) && after.skipped == before.skipped
            &&& !line.blank() && !(only_systems(lines) && says_so && is_one) ==> after.entries
                == before.entries && after.skipped == before.skipped + 1
            &&& only_systems(lines) && line.blank() ==> only_systems(lines.push(line))
            &&& !line.blank() && line.text is Some && line.entry is Some && !(says_so && is_one)
                ==> !only_systems(lines.push(line))
        }),
{
    let all = lines.push(line);
    assert(all.drop_last() =~= lines);
    assert(all.last() == line);
    if only_systems(lines) && line.blank() {
        assert forall|i: int| 0 <= i < all.len() implies !(#[trigger] all[i]).ends_systems() by {
            if i < lines.len() {
                assert(!lines[i].ends_systems());
            }
        }
    }
    if !line.blank() && line.text is Some && line.entry is Some && line.retained() is None {
        assert(all[lines.len() as int].ends_systems());
    }
}

/// A result that no call asked for counts as skipped, not as restored; what was
/// passed over before counts as skipped too: a line that could not be read, an
/// entry that a compaction replaced, an entry that makes no message.
pub proof fn orphans_count_as_skipped(collected: Collected)
    ensures
        ({
            let work = working(collected.entries);
            let all = replay(work, work.len() as int);
            let orphans = all.messages.len() - outcome(collected).messages.len();
            &&& 0 <= orphans
            &&& outcome(collected).replayed + orphans == all.replayed
            &&& outcome(collected).skipped == collected.skipped + (collected.entries.len()
                - work.len()) + all.skipped + orphans
            &&& outcome(collected).messages.len() <= outcome(collected).replayed
        }),
{
    let work = working(collected.entries);
    lemma_replay_counts(work, work.len() as int);
    lemma_without_orphans_len(replay(work, work.len() as int).messages);
    lemma_last_marker(collected.entries);
    if last_marker(collected.entries) is Some {
        let c = last_marker(collected.entries)->0;
        lemma_systems_end(collected.entries.take(c), 0);
    }
}

} // verus!
