//! Session resume: rebuild the in-memory history from a conversation log.
//!
//! The log is an append-only list of lines. Restoration walks it front to back
//! and translates each entry into the chat messages that the session held
//! when it ended.
//!
//! - `thought` entries never become messages; the reasoning they hold is
//!   carried onto the assistant turn that makes the next tool calls.
//! - `user`, `assistant` and `system` entries are kept.
//! - `tool_call` entries are merged onto the assistant message right before
//!   them; where there is none, an assistant message without text hosts them.
//! - `tool_result` entries become tool messages; one that no earlier tool call
//!   matches is dropped.
//! - The last `compaction` entry becomes a user message named
//!   `compaction_summary`; what stands before it is discarded, the system
//!   messages at the start of the log excepted.
//! - Lines that do not decode are skipped.

use vstd::prelude::*;

use crate::conversation::{ConversationEntry, EntryView};
use crate::message::{
    ChatMessage, ChatMessageView, FunctionCall, MessageRole, ToolCall, ToolCallView,
};
use crate::restore_laws::orphans_are_dropped_once;
use crate::text::{contains, has_text, same_text, trim, trim_spec};

verus! {

// ── The log ─────────────────────────────────────────────────────────────

/// One physical line of a conversation log.
#[derive(Debug)]
pub struct LogLine {
    /// Byte offset of the line in the file.
    pub start: u64,
    /// The text of the line, where its bytes are text.
    pub text: Option<String>,
    /// The entry that the text decodes to, where it does.
    pub entry: Option<ConversationEntry>,
}

/// A conversation log: its lines, and its length in bytes.
#[derive(Debug)]
pub struct SessionLog {
    pub lines: Vec<LogLine>,
    pub len: u64,
}

/// What a [`LogLine`] holds.
pub struct LineView {
    pub start: u64,
    pub text: Option<Seq<char>>,
    pub entry: Option<EntryView>,
}

impl DeepView for LogLine {
    type V = LineView;

    open spec fn deep_view(&self) -> LineView {
        LineView {
            start: self.start,
            text: self.text.deep_view(),
            entry: self.entry.deep_view(),
        }
    }
}

impl LineView {
    /// The line holds nothing but white space.
    pub open spec fn blank(self) -> bool {
        self.text matches Some(t) && trim_spec(t).len() == 0
    }

    /// The entry of the line, where it is text and decodes.
    pub open spec fn decoded(self) -> Option<EntryView> {
        if self.text is Some {
            self.entry
        } else {
            None
        }
    }

    /// The text test that spares a line before the compaction offset.
    pub open spec fn looks_like_system(self) -> bool {
        self.text matches Some(t) && has_text(t, "\"role\":\"system\""@) && !has_text(
            t,
            "\"kind\":\"compaction\""@,
        )
    }

    /// The system entry that may survive although it stands before the
    /// compaction offset.
    pub open spec fn retained(self) -> Option<EntryView> {
        if self.looks_like_system() {
            match self.decoded() {
                Some(e) => if e.is_plain_system() {
                    Some(e)
                } else {
                    None
                },
                None => None,
            }
        } else {
            None
        }
    }

    /// The line holds an entry that is not retained: the system entries at the
    /// start of the log end here.
    pub open spec fn ends_systems(self) -> bool {
        !self.blank() && self.decoded() is Some && self.retained() is None
    }
}

// ── Outcome ─────────────────────────────────────────────────────────────

/// Outcome of a successful restore.
#[derive(Debug)]
pub struct RestoreOutcome {
    /// Messages ready to install into the history.
    pub messages: Vec<ChatMessage>,
    /// Whether replay was anchored at a compaction summary.
    pub had_compaction: bool,
    /// Number of entries that contributed to the message list.
    pub replayed_entry_count: usize,
    /// Number of entries that were skipped: corrupt, orphaned tool results,
    /// pre-compaction noise, or filtered out.
    pub skipped_entry_count: usize,
}

/// Errors that abort restoration; the caller falls back to an empty history.
#[derive(Debug)]
pub enum RestoreError {
    /// File could not be opened or read.
    Io(String),
}

impl RestoreError {
    /// The error as text.
    pub fn message(&self) -> (s: String)
        ensures
            s@ == "io error: "@ + self->Io_0@,
    {
        match self {
            RestoreError::Io(e) => crate::text::join2("io error: ", e.as_str()),
        }
    }
}

/// What a [`RestoreOutcome`] holds.
pub struct OutcomeView {
    pub messages: Seq<ChatMessageView>,
    pub had_compaction: bool,
    pub replayed: nat,
    pub skipped: nat,
}

impl DeepView for RestoreOutcome {
    type V = OutcomeView;

    open spec fn deep_view(&self) -> OutcomeView {
        OutcomeView {
            messages: self.messages.deep_view(),
            had_compaction: self.had_compaction,
            replayed: self.replayed_entry_count as nat,
            skipped: self.skipped_entry_count as nat,
        }
    }
}

// ── Collecting the entries ──────────────────────────────────────────────

/// Entries that may enter the context, and how many lines were skipped.
pub struct Collected {
    pub entries: Seq<EntryView>,
    pub skipped: nat,
}

impl Collected {
    pub open spec fn empty() -> Collected {
        Collected { entries: Seq::empty(), skipped: 0 }
    }

    /// One more line, which holds `entry` or is skipped.
    pub open spec fn with(self, entry: Option<EntryView>) -> Collected {
        match entry {
            Some(e) => Collected { entries: self.entries.push(e), skipped: self.skipped },
            None => Collected { entries: self.entries, skipped: self.skipped + 1 },
        }
    }

    /// What `self` collected, followed by what `tail` did.
    pub open spec fn then_collect(self, tail: Collected) -> Collected {
        Collected {
            entries: self.entries + tail.entries,
            skipped: self.skipped + tail.skipped,
        }
    }
}

/// Every line: blank ones are passed over, the others decode or are skipped.
pub open spec fn scan_all(lines: Seq<LineView>) -> Collected
    decreases lines.len(),
{
    if lines.len() == 0 {
        Collected::empty()
    } else {
        let before = scan_all(lines.drop_last());
        if lines.last().blank() {
            before
        } else {
            before.with(lines.last().decoded())
        }
    }
}

/// No line holds anything but the system entries at the start of a log.
pub open spec fn only_systems(lines: Seq<LineView>) -> bool {
    forall|i: int| 0 <= i < lines.len() ==> !(#[trigger] lines[i]).ends_systems()
}

/// The lines before the compaction offset: only the system entries at the
/// start of the log are retained.
pub open spec fn scan_head(lines: Seq<LineView>) -> Collected
    decreases lines.len(),
{
    if lines.len() == 0 {
        Collected::empty()
    } else {
        let before = scan_head(lines.drop_last());
        if lines.last().blank() {
            before
        } else if only_systems(lines.drop_last()) {
            before.with(lines.last().retained())
        } else {
            before.with(None)
        }
    }
}

/// The index of the first line at or after `i` that starts at or after byte
/// `abs`, or the number of lines.
pub open spec fn head_end(lines: Seq<LineView>, abs: u64, i: int) -> int
    decreases lines.len() - i,
{
    if i < 0 || i >= lines.len() {
        lines.len() as int
    } else if lines[i].start >= abs {
        i
    } else {
        head_end(lines, abs, i + 1)
    }
}

/// What the log from byte `abs` on holds: the entry at that byte if it is a
/// compaction marker, then every line that follows.
pub open spec fn scan_from_offset(
    lines: Seq<LineView>,
    abs: u64,
    at_offset: Option<EntryView>,
) -> Collected {
    let h = head_end(lines, abs, 0);
    let on_line = h < lines.len() && lines[h].start == abs;
    let marker = if at_offset is Some && at_offset->0.is_marker() {
        Collected { entries: seq![at_offset->0], skipped: 0 }
    } else if on_line && !lines[h].blank() {
        Collected { entries: Seq::empty(), skipped: 1 }
    } else {
        Collected::empty()
    };
    let rest = if on_line {
        lines.skip(h + 1)
    } else {
        lines.skip(h)
    };
    marker.then_collect(scan_all(rest))
}

/// The entries that a log restores from when it was last compacted at byte
/// `abs`, as far as the log reaches that byte.
pub open spec fn scan_fast(
    lines: Seq<LineView>,
    len: u64,
    abs: u64,
    at_offset: Option<EntryView>,
) -> Collected {
    let h = head_end(lines, abs, 0);
    let head = scan_head(lines.take(h));
    if h < lines.len() || len >= abs {
        head.then_collect(scan_from_offset(lines, abs, at_offset))
    } else {
        head
    }
}

/// The index of the last compaction marker.
pub open spec fn last_marker(entries: Seq<EntryView>) -> Option<int>
    decreases entries.len(),
{
    if entries.len() == 0 {
        None
    } else if entries.last().is_marker() {
        Some(entries.len() - 1)
    } else {
        last_marker(entries.drop_last())
    }
}

/// The entries that a restore draws on. An offset that does not lead to a
/// compaction marker is not trusted: the whole log is read instead.
pub open spec fn collect(
    lines: Seq<LineView>,
    len: u64,
    abs: Option<u64>,
    at_offset: Option<EntryView>,
) -> Collected {
    match abs {
        Some(abs) => {
            let fast = scan_fast(lines, len, abs, at_offset);
            if last_marker(fast.entries) is Some {
                fast
            } else {
                scan_all(lines)
            }
        },
        None => scan_all(lines),
    }
}

/// The index of the first entry at or after `i` that is no plain system entry,
/// or the number of entries.
pub open spec fn systems_end(entries: Seq<EntryView>, i: int) -> int
    decreases entries.len() - i,
{
    if i < 0 || i >= entries.len() {
        entries.len() as int
    } else if entries[i].is_plain_system() {
        systems_end(entries, i + 1)
    } else {
        i
    }
}

/// The plain system entries that stand before anything else.
pub open spec fn leading_systems(entries: Seq<EntryView>) -> Seq<EntryView> {
    entries.take(systems_end(entries, 0))
}

/// The entries to replay: with a compaction, the system entries at the start
/// of the log, the last marker, and what follows it; else all of them.
pub open spec fn working(entries: Seq<EntryView>) -> Seq<EntryView> {
    match last_marker(entries) {
        Some(c) => leading_systems(entries.take(c)) + entries.skip(c),
        None => entries,
    }
}

// ── Replay ──────────────────────────────────────────────────────────────

/// Replay in progress.
pub struct ReplayView {
    pub messages: Seq<ChatMessageView>,
    /// Reasoning for the next turn that makes tool calls.
    pub pending: Option<Seq<char>>,
    pub replayed: nat,
    pub skipped: nat,
}

/// The marker message of a compaction.
pub open spec fn marker_message(content: Seq<char>) -> ChatMessageView {
    ChatMessageView {
        name: Some("compaction_summary"@),
        ..ChatMessageView::plain(MessageRole::User, content)
    }
}

/// The calls of a message, with one more.
pub open spec fn with_call(m: ChatMessageView, call: ToolCallView) -> ChatMessageView {
    ChatMessageView {
        tool_calls: Some(
            match m.tool_calls {
                Some(calls) => calls.push(call),
                None => seq![call],
            },
        ),
        ..m
    }
}

impl ReplayView {
    pub open spec fn start() -> ReplayView {
        ReplayView { messages: Seq::empty(), pending: None, replayed: 0, skipped: 0 }
    }

    /// One more message; the pending reasoning is used up.
    pub open spec fn push(self, m: ChatMessageView) -> ReplayView {
        ReplayView {
            messages: self.messages.push(m),
            pending: None,
            replayed: self.replayed + 1,
            skipped: self.skipped,
        }
    }

    /// An entry that leaves no message.
    pub open spec fn skip(self) -> ReplayView {
        ReplayView { skipped: self.skipped + 1, ..self }
    }

    /// A tool call: merged onto the assistant message right before it, unless
    /// reasoning stands between them, else on a message of its own.
    pub open spec fn tool_call(self, call: ToolCallView) -> ReplayView {
        if self.pending is None && self.messages.len() > 0 && self.messages.last().role
            == MessageRole::Assistant {
            ReplayView {
                messages: self.messages.drop_last().push(with_call(self.messages.last(), call)),
                pending: None,
                replayed: self.replayed + 1,
                skipped: self.skipped,
            }
        } else {
            self.push(
                ChatMessageView {
                    tool_calls: Some(seq![call]),
                    reasoning_content: self.pending,
                    ..ChatMessageView::plain(MessageRole::Assistant, Seq::empty())
                },
            )
        }
    }

    /// One entry. `next_is_call` says whether a tool call follows it.
    pub open spec fn step(self, e: EntryView, next_is_call: bool) -> ReplayView {
        let call_id = e.meta_text("tool_call_id"@);
        let tool_name = e.meta_text("tool_name"@);
        let has_id = call_id is Some && call_id->0.len() > 0;
        let has_name = tool_name is Some && tool_name->0.len() > 0;
        if e.is_marker() {
            self.push(marker_message(e.content))
        } else if e.role == "thought"@ {
            ReplayView { pending: Some(e.content), skipped: self.skipped + 1, ..self }
        } else if e.role == "system"@ {
            self.push(ChatMessageView::plain(MessageRole::System, e.content))
        } else if e.role == "user"@ {
            self.push(ChatMessageView::plain(MessageRole::User, e.content))
        } else if e.role == "assistant"@ {
            self.push(
                ChatMessageView {
                    reasoning_content: if next_is_call {
                        self.pending
                    } else {
                        None
                    },
                    ..ChatMessageView::plain(MessageRole::Assistant, e.content)
                },
            )
        } else if e.role == "tool_call"@ {
            if has_id && has_name {
                self.tool_call(
                    ToolCallView {
                        id: call_id->0,
                        call_type: "function"@,
                        name: tool_name->0,
                        arguments: e.content,
                    },
                )
            } else {
                self.skip()
            }
        } else if e.role == "tool_result"@ {
            if has_id {
                ReplayView {
                    pending: self.pending,
                    ..self.push(
                        ChatMessageView {
                            name: tool_name,
                            tool_call_id: call_id,
                            ..ChatMessageView::plain(MessageRole::Tool, e.content)
                        },
                    )
                }
            } else {
                self.skip()
            }
        } else {
            self.skip()
        }
    }
}

/// A tool call stands at index `i`.
pub open spec fn is_call_at(entries: Seq<EntryView>, i: int) -> bool {
    0 <= i < entries.len() && entries[i].role == "tool_call"@
}

/// The first `n` entries, replayed.
pub open spec fn replay(entries: Seq<EntryView>, n: int) -> ReplayView
    decreases n,
{
    if n <= 0 {
        ReplayView::start()
    } else {
        replay(entries, n - 1).step(entries[n - 1], is_call_at(entries, n))
    }
}

/// Some assistant message of `messages` makes the tool call `id`.
pub open spec fn calls(messages: Seq<ChatMessageView>, id: Seq<char>) -> bool {
    exists|i: int, k: int| #[trigger] calls_at(messages, id, i, k)
}

/// The assistant message `i` makes the tool call `id` as its call `k`.
pub open spec fn calls_at(messages: Seq<ChatMessageView>, id: Seq<char>, i: int, k: int) -> bool {
    &&& 0 <= i < messages.len()
    &&& messages[i].role == MessageRole::Assistant
    &&& messages[i].tool_calls is Some
    &&& 0 <= k < messages[i].tool_calls->0.len()
    &&& messages[i].tool_calls->0[k].id == id
}

/// A tool message answers a call that was made before it; any other message
/// needs no partner.
pub open spec fn is_paired(before: Seq<ChatMessageView>, m: ChatMessageView) -> bool {
    m.role == MessageRole::Tool ==> m.tool_call_id is Some && calls(before, m.tool_call_id->0)
}

/// The messages without the tool results that no earlier call matches.
pub open spec fn without_orphans(messages: Seq<ChatMessageView>) -> Seq<ChatMessageView>
    decreases messages.len(),
{
    if messages.len() == 0 {
        messages
    } else {
        let before = without_orphans(messages.drop_last());
        if is_paired(messages.drop_last(), messages.last()) {
            before.push(messages.last())
        } else {
            before
        }
    }
}

/// The outcome of a restore from the collected entries.
pub open spec fn outcome(collected: Collected) -> OutcomeView {
    let work = working(collected.entries);
    let replayed = replay(work, work.len() as int);
    let kept = without_orphans(replayed.messages);
    let dropped = (replayed.messages.len() - kept.len()) as nat;
    let noise = (collected.entries.len() - work.len()) as nat;
    OutcomeView {
        messages: kept,
        had_compaction: last_marker(collected.entries) is Some,
        replayed: (replayed.replayed - dropped) as nat,
        skipped: collected.skipped + noise + replayed.skipped + dropped,
    }
}

// ── Executable restore ──────────────────────────────────────────────────

impl LogLine {
    fn blank(&self) -> (r: bool)
        ensures
            r == self.deep_view().blank(),
    {
        match &self.text {
            Some(t) => trim(t.as_str()).as_str().is_empty(),
            None => false,
        }
    }

    fn decoded(&self) -> (r: Option<&ConversationEntry>)
        ensures
            r.deep_view() == self.deep_view().decoded(),
    {
        if self.text.is_some() {
            self.entry.as_ref()
        } else {
            None
        }
    }

    fn retained(&self) -> (r: Option<&ConversationEntry>)
        ensures
            r.deep_view() == self.deep_view().retained(),
    {
        let looks_like_system = match &self.text {
            Some(t) => contains(t.as_str(), "\"role\":\"system\"") && !contains(
                t.as_str(),
                "\"kind\":\"compaction\"",
            ),
            None => false,
        };
        if looks_like_system {
            match self.decoded() {
                Some(e) => if e.is_plain_system() {
                    Some(e)
                } else {
                    None
                },
                None => None,
            }
        } else {
            None
        }
    }
}

/// No more lines are collected or skipped than there are.
proof fn lemma_scan_bounds(lines: Seq<LineView>)
    ensures
        scan_all(lines).entries.len() + scan_all(lines).skipped <= lines.len(),
        scan_head(lines).entries.len() + scan_head(lines).skipped <= lines.len(),
    decreases lines.len(),
{
    if lines.len() > 0 {
        lemma_scan_bounds(lines.drop_last());
    }
}

/// Collects every line from `from` on.
fn read_all_entries<'a>(
    lines: &'a Vec<LogLine>,
    from: usize,
    entries: &mut Vec<&'a ConversationEntry>,
    skipped: &mut usize,
)
    requires
        from <= lines.len(),
        old(entries).len() + *old(skipped) + (lines.len() - from) <= usize::MAX,
    ensures
        ({
            let got = scan_all(lines.deep_view().skip(from as int));
            &&& final(entries).deep_view() == old(entries).deep_view() + got.entries
            &&& *final(skipped) == *old(skipped) + got.skipped
        }),
{
    let ghost all = lines.deep_view().skip(from as int);
    let mut i: usize = from;
    assert(all.take(0) =~= Seq::empty());
    assert(entries.deep_view() =~= old(entries).deep_view() + scan_all(all.take(0)).entries);
    while i < lines.len()
        invariant
            from <= i <= lines.len(),
            all == lines.deep_view().skip(from as int),
            old(entries).len() + *old(skipped) + (lines.len() - from) <= usize::MAX,
            entries.deep_view() == old(entries).deep_view() + scan_all(all.take(i - from)).entries,
            *skipped == *old(skipped) + scan_all(all.take(i - from)).skipped,
        decreases lines.len() - i,
    {
        proof {
            assert(all.take(i + 1 - from).drop_last() =~= all.take(i - from));
            assert(all[i - from] == lines@[i as int].deep_view());
            lemma_scan_bounds(all.take(i - from));
        }
        if !lines[i].blank() {
            match lines[i].decoded() {
                Some(e) => {
                    let ghost before = entries.deep_view();
                    entries.push(e);
                    assert(entries.deep_view() =~= before.push(e.deep_view()));
                },
                None => {
                    *skipped = *skipped + 1;
                },
            }
        }
        i = i + 1;
        assert(entries.deep_view() =~= old(entries).deep_view() + scan_all(
            all.take(i - from),
        ).entries);
    }
    assert(all.take(lines.len() - from) =~= all);
}

/// Collects what is retained of the lines before `end`.
fn read_head_entries<'a>(lines: &'a Vec<LogLine>, end: usize) -> (r: (
    Vec<&'a ConversationEntry>,
    usize,
))
    requires
        end <= lines.len(),
    ensures
        r.0.deep_view() == scan_head(lines.deep_view().take(end as int)).entries,
        r.1 == scan_head(lines.deep_view().take(end as int)).skipped,
{
    let ghost all = lines.deep_view();
    let mut entries: Vec<&'a ConversationEntry> = Vec::new();
    let mut skipped: usize = 0;
    let mut open = true;
    let mut i: usize = 0;
    assert(all.take(0) =~= Seq::empty());
    assert(entries.deep_view() =~= scan_head(all.take(0)).entries);
    while i < end
        invariant
            i <= end <= lines.len(),
            all == lines.deep_view(),
            entries.deep_view() == scan_head(all.take(i as int)).entries,
            skipped == scan_head(all.take(i as int)).skipped,
            open == only_systems(all.take(i as int)),
        decreases end - i,
    {
        let ghost so_far = all.take(i as int);
        let ghost longer = all.take(i + 1);
        proof {
            assert(longer.drop_last() =~= so_far);
            assert(longer[i as int] == lines@[i as int].deep_view());
            assert forall|j: int| 0 <= j < i implies #[trigger] longer[j] == so_far[j] by {}
            lemma_scan_bounds(so_far);
        }
        if !lines[i].blank() {
            let retained = lines[i].retained();
            if open && retained.is_some() {
                let e = retained.unwrap();
                let ghost before = entries.deep_view();
                entries.push(e);
                assert(entries.deep_view() =~= before.push(e.deep_view()));
            } else {
                if lines[i].decoded().is_some() {
                    open = false;
                }
                skipped = skipped + 1;
            }
        }
        proof {
            if only_systems(longer) {
                assert forall|j: int| 0 <= j < i implies !(#[trigger] so_far[j]).ends_systems() by {
                    assert(!longer[j].ends_systems());
                }
                assert(!longer[i as int].ends_systems());
            }
            if only_systems(so_far) && !longer[i as int].ends_systems() {
                assert forall|j: int| 0 <= j < i + 1 implies !(
                #[trigger] longer[j]).ends_systems() by {
                    if j < i {
                        assert(!so_far[j].ends_systems());
                    }
                }
            }
        }
        i = i + 1;
    }
    (entries, skipped)
}

/// The index of the first line that starts at or after byte `abs`.
fn find_head_end(lines: &Vec<LogLine>, abs: u64) -> (h: usize)
    ensures
        h <= lines.len(),
        h == head_end(lines.deep_view(), abs, 0),
{
    let mut i: usize = 0;
    while i < lines.len() && lines[i].start < abs
        invariant
            i <= lines.len(),
            head_end(lines.deep_view(), abs, 0) == head_end(lines.deep_view(), abs, i as int),
        decreases lines.len() - i,
    {
        assert(lines.deep_view()[i as int] == lines@[i as int].deep_view());
        i = i + 1;
    }
    if i < lines.len() {
        assert(lines.deep_view()[i as int] == lines@[i as int].deep_view());
    }
    i
}

pub proof fn lemma_last_marker(entries: Seq<EntryView>)
    ensures
        last_marker(entries) matches Some(c) ==> {
            &&& 0 <= c < entries.len()
            &&& entries[c].is_marker()
            &&& forall|i: int| c < i < entries.len() ==> !(#[trigger] entries[i]).is_marker()
        },
        last_marker(entries) is None ==> forall|i: int|
            0 <= i < entries.len() ==> !(#[trigger] entries[i]).is_marker(),
    decreases entries.len(),
{
    if entries.len() > 0 && !entries.last().is_marker() {
        lemma_last_marker(entries.drop_last());
        assert forall|i: int| 0 <= i < entries.len() - 1 implies #[trigger] entries[i]
            == entries.drop_last()[i] by {}
    }
}

/// The index of the last compaction marker.
fn find_last_marker(entries: &Vec<&ConversationEntry>) -> (r: Option<usize>)
    ensures
        match r {
            Some(c) => c < entries.len() && last_marker(entries.deep_view()) == Some(c as int),
            None => last_marker(entries.deep_view()) is None,
        },
{
    let ghost all = entries.deep_view();
    let mut n: usize = entries.len();
    assert(all.take(n as int) =~= all);
    while n > 0
        invariant
            n <= entries.len(),
            all == entries.deep_view(),
            last_marker(all) == last_marker(all.take(n as int)),
        decreases n,
    {
        assert(all.take(n as int).drop_last() =~= all.take(n - 1));
        assert(all.take(n as int).last() == entries@[n - 1].deep_view());
        if entries[n - 1].is_marker() {
            return Some(n - 1);
        }
        n = n - 1;
    }
    assert(all.take(0) =~= Seq::empty());
    None
}

/// Where the plain system entries at the start end.
pub proof fn lemma_systems_end(entries: Seq<EntryView>, i: int)
    requires
        0 <= i <= entries.len(),
    ensures
        i <= systems_end(entries, i) <= entries.len(),
        forall|j: int|
            i <= j < systems_end(entries, i) ==> (#[trigger] entries[j]).is_plain_system(),
        systems_end(entries, i) < entries.len() ==> !entries[systems_end(
            entries,
            i,
        )].is_plain_system(),
    decreases entries.len() - i,
{
    if i < entries.len() && entries[i].is_plain_system() {
        lemma_systems_end(entries, i + 1);
    }
}

/// The entries to replay.
fn working_entries<'a>(
    entries: &Vec<&'a ConversationEntry>,
    marker: Option<usize>,
) -> (r: Vec<&'a ConversationEntry>)
    requires
        match marker {
            Some(c) => c < entries.len() && last_marker(entries.deep_view()) == Some(c as int),
            None => last_marker(entries.deep_view()) is None,
        },
    ensures
        r.deep_view() == working(entries.deep_view()),
        r.len() <= entries.len(),
{
    let ghost all = entries.deep_view();
    let c: usize = match marker {
        Some(c) => c,
        None => 0,
    };
    let mut out: Vec<&'a ConversationEntry> = Vec::new();
    let ghost head = all.take(c as int);
    let mut i: usize = 0;
    assert(out.deep_view() =~= head.take(0));
    while i < c && entries[i].is_plain_system()
        invariant
            i <= c <= entries.len(),
            all == entries.deep_view(),
            head == all.take(c as int),
            out.deep_view() == head.take(i as int),
            systems_end(head, 0) == systems_end(head, i as int),
        decreases c - i,
    {
        assert(head[i as int] == entries@[i as int].deep_view());
        let ghost before = out.deep_view();
        out.push(entries[i]);
        assert(out.deep_view() =~= before.push(head[i as int]));
        assert(head.take(i + 1) =~= head.take(i as int).push(head[i as int]));
        i = i + 1;
    }
    if i < c {
        assert(head[i as int] == entries@[i as int].deep_view());
    }
    let ghost systems = leading_systems(head);
    proof {
        lemma_systems_end(head, 0);
    }
    assert(out.deep_view() =~= systems + all.subrange(c as int, c as int));
    let mut j: usize = c;
    while j < entries.len()
        invariant
            c <= j <= entries.len(),
            all == entries.deep_view(),
            systems.len() <= c,
            out.deep_view() == systems + all.subrange(c as int, j as int),
        decreases entries.len() - j,
    {
        let ghost before = out.deep_view();
        out.push(entries[j]);
        assert(out.deep_view() =~= before.push(all[j as int]));
        assert(all.subrange(c as int, j + 1) =~= all.subrange(c as int, j as int).push(
            all[j as int],
        ));
        j = j + 1;
        assert(out.deep_view() =~= systems + all.subrange(c as int, j as int));
    }
    assert(all.subrange(c as int, all.len() as int) =~= all.skip(c as int));
    if marker.is_none() {
        assert(systems =~= Seq::empty());
        assert(out.deep_view() =~= all);
    }
    assert(out.len() == out.deep_view().len());
    out
}

/// Replay in progress.
struct Replay {
    messages: Vec<ChatMessage>,
    pending: Option<String>,
    replayed: usize,
    skipped: usize,
}

impl DeepView for Replay {
    type V = ReplayView;

    closed spec fn deep_view(&self) -> ReplayView {
        ReplayView {
            messages: self.messages.deep_view(),
            pending: self.pending.deep_view(),
            replayed: self.replayed as nat,
            skipped: self.skipped as nat,
        }
    }
}

impl Replay {
    fn push(&mut self, m: ChatMessage)
        requires
            old(self).replayed < usize::MAX,
        ensures
            final(self).deep_view() == old(self).deep_view().push(m.deep_view()),
    {
        self.messages.push(m);
        self.pending = None;
        self.replayed = self.replayed + 1;
        assert(self.messages.deep_view() =~= old(self).messages.deep_view().push(m.deep_view()));
    }

    fn tool_call(&mut self, call: ToolCall)
        requires
            old(self).replayed < usize::MAX,
        ensures
            final(self).deep_view() == old(self).deep_view().tool_call(call.deep_view()),
    {
        let ghost before = self.messages.deep_view();
        let n: usize = self.messages.len();
        let merges = self.pending.is_none() && n > 0 && self.messages[n - 1].role
            == MessageRole::Assistant;
        if merges {
            assert(before.last() == self.messages@[n - 1].deep_view());
            let mut last = self.messages.pop().unwrap();
            assert(self.messages.deep_view() =~= before.drop_last());
            let mut made: Vec<ToolCall> = match last.tool_calls.take() {
                Some(calls) => calls,
                None => Vec::new(),
            };
            let ghost made_before = made.deep_view();
            made.push(call);
            assert(made.deep_view() =~= made_before.push(call.deep_view()));
            assert(made.deep_view() =~= with_call(before.last(), call.deep_view()).tool_calls->0);
            last.tool_calls = Some(made);
            let ghost rest = self.messages.deep_view();
            self.messages.push(last);
            assert(self.messages.deep_view() =~= rest.push(last.deep_view()));
            assert(last.deep_view() =~= with_call(before.last(), call.deep_view()));
            self.replayed = self.replayed + 1;
        } else {
            let mut made: Vec<ToolCall> = Vec::new();
            made.push(call);
            assert(made.deep_view() =~= seq![call.deep_view()]);
            let reasoning = self.pending.take();
            let m = ChatMessage {
                role: MessageRole::Assistant,
                content: String::new(),
                name: None,
                tool_calls: Some(made),
                tool_call_id: None,
                reasoning_content: reasoning,
            };
            self.push(m);
        }
    }

    fn step(&mut self, e: &ConversationEntry, next_is_call: bool)
        requires
            old(self).replayed < usize::MAX,
            old(self).skipped < usize::MAX,
        ensures
            final(self).deep_view() == old(self).deep_view().step(e.deep_view(), next_is_call),
    {
        if e.is_marker() {
            self.push(
                ChatMessage {
                    name: Some("compaction_summary".to_owned()),
                    ..ChatMessage::user(e.content.clone())
                },
            );
        } else if same_text(e.role.as_str(), "thought") {
            self.pending = Some(e.content.clone());
            self.skipped = self.skipped + 1;
        } else if same_text(e.role.as_str(), "system") {
            self.push(ChatMessage::plain(MessageRole::System, e.content.clone()));
        } else if same_text(e.role.as_str(), "user") {
            self.push(ChatMessage::user(e.content.clone()));
        } else if same_text(e.role.as_str(), "assistant") {
            let reasoning = if next_is_call {
                self.pending.take()
            } else {
                None
            };
            self.push(
                ChatMessage {
                    reasoning_content: reasoning,
                    ..ChatMessage::assistant(e.content.clone())
                },
            );
        } else if same_text(e.role.as_str(), "tool_call") {
            match (e.meta_text("tool_call_id"), e.meta_text("tool_name")) {
                (Some(id), Some(name)) => {
                    if id.as_str().is_empty() || name.as_str().is_empty() {
                        self.skipped = self.skipped + 1;
                    } else {
                        self.tool_call(
                            ToolCall {
                                id,
                                call_type: "function".to_owned(),
                                function: FunctionCall { name, arguments: e.content.clone() },
                            },
                        );
                    }
                },
                _ => {
                    self.skipped = self.skipped + 1;
                },
            }
        } else if same_text(e.role.as_str(), "tool_result") {
            match e.meta_text("tool_call_id") {
                Some(id) => {
                    if id.as_str().is_empty() {
                        self.skipped = self.skipped + 1;
                    } else {
                        let name = e.meta_text("tool_name");
                        let pending = self.pending.take();
                        self.push(
                            ChatMessage {
                                tool_call_id: Some(id),
                                name,
                                ..ChatMessage::plain(MessageRole::Tool, e.content.clone())
                            },
                        );
                        self.pending = pending;
                    }
                },
                None => {
                    self.skipped = self.skipped + 1;
                },
            }
        } else {
            self.skipped = self.skipped + 1;
        }
    }
}

/// Each entry is either replayed or skipped.
pub proof fn lemma_replay_counts(entries: Seq<EntryView>, n: int)
    requires
        0 <= n <= entries.len(),
    ensures
        replay(entries, n).replayed + replay(entries, n).skipped == n,
        replay(entries, n).messages.len() <= replay(entries, n).replayed,
    decreases n,
{
    if n > 0 {
        lemma_replay_counts(entries, n - 1);
    }
}

/// Replays every entry.
fn replay_entries(entries: &Vec<&ConversationEntry>) -> (r: Replay)
    ensures
        r.deep_view() == replay(entries.deep_view(), entries.len() as int),
{
    let ghost all = entries.deep_view();
    let mut r = Replay { messages: Vec::new(), pending: None, replayed: 0, skipped: 0 };
    assert(r.messages.deep_view() =~= Seq::empty());
    let mut i: usize = 0;
    while i < entries.len()
        invariant
            i <= entries.len(),
            all == entries.deep_view(),
            r.deep_view() == replay(all, i as int),
        decreases entries.len() - i,
    {
        proof {
            lemma_replay_counts(all, i as int);
            assert(all[i as int] == entries@[i as int].deep_view());
            if i + 1 < entries.len() {
                assert(all[i + 1] == entries@[i + 1].deep_view());
            }
        }
        let next_is_call = i + 1 < entries.len() && same_text(
            entries[i + 1].role.as_str(),
            "tool_call",
        );
        r.step(entries[i], next_is_call);
        i = i + 1;
    }
    r
}

/// Whether one of the first `n` messages makes the tool call `id`.
fn is_called(messages: &Vec<ChatMessage>, n: usize, id: &String) -> (r: bool)
    requires
        n <= messages.len(),
    ensures
        r == calls(messages.deep_view().take(n as int), id@),
{
    let ghost seen = messages.deep_view().take(n as int);
    let mut i: usize = 0;
    while i < n
        invariant
            i <= n <= messages.len(),
            seen == messages.deep_view().take(n as int),
            forall|j: int, k: int| j < i ==> !calls_at(seen, id@, j, k),
        decreases n - i,
    {
        assert(seen[i as int] == messages@[i as int].deep_view());
        if messages[i].role == MessageRole::Assistant {
            if let Some(made) = &messages[i].tool_calls {
                let mut k: usize = 0;
                while k < made.len()
                    invariant
                        i < n <= messages.len(),
                        k <= made.len(),
                        messages@[i as int].role == MessageRole::Assistant,
                        messages@[i as int].tool_calls == Some(*made),
                        seen == messages.deep_view().take(n as int),
                        seen[i as int] == messages@[i as int].deep_view(),
                        forall|h: int| h < k ==> !calls_at(seen, id@, i as int, h),
                    decreases made.len() - k,
                {
                    assert(seen[i as int].tool_calls->0[k as int] == made@[k as int].deep_view());
                    if made[k].id == *id {
                        assert(calls_at(seen, id@, i as int, k as int));
                        return true;
                    }
                    k = k + 1;
                }
            }
        }
        i = i + 1;
    }
    false
}

pub proof fn lemma_without_orphans_len(messages: Seq<ChatMessageView>)
    ensures
        without_orphans(messages).len() <= messages.len(),
    decreases messages.len(),
{
    if messages.len() > 0 {
        lemma_without_orphans_len(messages.drop_last());
    }
}

/// Drops every tool message whose call no earlier assistant message makes, and
/// says how many there were. What is left holds no such message: to drop them
/// once more changes nothing.
pub fn drop_orphan_tool_results(messages: &mut Vec<ChatMessage>) -> (removed: usize)
    ensures
        final(messages).deep_view() == without_orphans(old(messages).deep_view()),
        removed == old(messages).len() - final(messages).len(),
        final(messages).len() <= old(messages).len(),
        without_orphans(final(messages).deep_view()) == final(messages).deep_view(),
        without_orphans(old(messages).deep_view()) == old(messages).deep_view() ==> removed == 0,
{
    proof {
        orphans_are_dropped_once(messages.deep_view());
    }
    let ghost all = messages.deep_view();
    let mut keep: Vec<bool> = Vec::new();
    let mut i: usize = 0;
    while i < messages.len()
        invariant
            i <= messages.len(),
            keep.len() == i,
            *messages == *old(messages),
            all == messages.deep_view(),
            forall|j: int| 0 <= j < i ==> (#[trigger] keep@[j]) == is_paired(all.take(j), all[j]),
        decreases messages.len() - i,
    {
        assert(all[i as int] == messages@[i as int].deep_view());
        let kept = if messages[i].role == MessageRole::Tool {
            match &messages[i].tool_call_id {
                Some(id) => is_called(messages, i, id),
                None => false,
            }
        } else {
            true
        };
        keep.push(kept);
        i = i + 1;
    }
    let n: usize = messages.len();
    let mut rest: Vec<ChatMessage> = Vec::new();
    std::mem::swap(&mut rest, messages);
    let mut kept_rev: Vec<ChatMessage> = Vec::new();
    let mut left: usize = n;
    let ghost whole = rest@;
    assert(whole.take(n as int) =~= whole);
    assert(all.take(n as int) =~= all);
    while left > 0
        invariant
            left <= n,
            n == all.len(),
            keep.len() == n,
            rest@ == whole.take(left as int),
            whole.len() == n,
            forall|j: int| 0 <= j < n ==> all[j] == (#[trigger] whole[j]).deep_view(),
            forall|j: int| 0 <= j < n ==> (#[trigger] keep@[j]) == is_paired(all.take(j), all[j]),
            kept_rev.len() <= n - left,
            without_orphans(all) == without_orphans(all.take(left as int)) + kept_rev.deep_view().reverse(),
        decreases left,
    {
        let ghost part = all.take(left as int);
        assert(part.drop_last() =~= all.take(left - 1));
        let m = rest.pop().unwrap();
        assert(rest@ =~= whole.take(left - 1));
        left = left - 1;
        assert(m == whole[left as int]);
        if keep[left] {
            let ghost before = kept_rev.deep_view();
            kept_rev.push(m);
            assert(kept_rev.deep_view() =~= before.push(all[left as int]));
            assert(without_orphans(all) =~= without_orphans(all.take(left as int))
                + kept_rev.deep_view().reverse());
        }
    }
    assert(without_orphans(all) =~= kept_rev.deep_view().reverse());
    let m: usize = kept_rev.len();
    let ghost rev = kept_rev.deep_view();
    while kept_rev.len() > 0
        invariant
            kept_rev.len() <= m,
            rev.len() == m,
            kept_rev.deep_view() == rev.take(kept_rev.len() as int),
            messages.deep_view() == rev.skip(kept_rev.len() as int).reverse(),
        decreases kept_rev.len(),
    {
        let ghost left_view = kept_rev.deep_view();
        let ghost got = messages.deep_view();
        let x = kept_rev.pop().unwrap();
        assert(kept_rev.deep_view() =~= left_view.drop_last());
        assert(x.deep_view() == left_view.last());
        messages.push(x);
        assert(messages.deep_view() =~= got.push(x.deep_view()));
        assert(messages.deep_view() =~= rev.skip(kept_rev.len() as int).reverse());
        assert(kept_rev.deep_view() =~= rev.take(kept_rev.len() as int));
    }
    assert(messages.deep_view() =~= rev.reverse());
    assert(messages.deep_view().len() == messages.len());
    n - m
}

/// Rebuild a replay-ready message sequence from a conversation log.
///
/// `log` is what reading the file gave: its lines, or the error. The caller
/// provides `compaction_abs`, the byte offset of the last compaction entry,
/// where the session has one, and `at_offset`, the entry that the text at that
/// offset decodes to. With an offset the history is the system entries at
/// the start of the log, the compaction marker, and what follows. Without one, or where the
/// offset does not lead to a marker, the whole log is read and anchored at its
/// last marker.
pub fn restore_history_from_jsonl(
    log: Result<&SessionLog, String>,
    compaction_abs: Option<u64>,
    at_offset: Option<&ConversationEntry>,
) -> (r: Result<RestoreOutcome, RestoreError>)
    requires
        log matches Ok(l) ==> l.lines.len() < usize::MAX,
    ensures
        match log {
            Ok(l) => r matches Ok(o) && o.deep_view() == outcome(
                collect(l.lines.deep_view(), l.len, compaction_abs, at_offset.deep_view()),
            ),
            Err(e) => r matches Err(RestoreError::Io(text)) && text == e,
        },
{
    let log = match log {
        Ok(l) => l,
        Err(e) => {
            return Err(RestoreError::Io(e));
        },
    };
    let lines = &log.lines;
    let ghost all = lines.deep_view();
    let mut entries: Vec<&ConversationEntry> = Vec::new();
    let mut skipped: usize = 0;
    assert(all.skip(0) =~= all);
    assert(entries.deep_view() =~= Seq::empty());
    match compaction_abs {
        Some(abs) => {
            let h = find_head_end(lines, abs);
            let (head, head_skipped) = read_head_entries(lines, h);
            let ghost head_got = scan_head(all.take(h as int));
            proof {
                lemma_scan_bounds(all.take(h as int));
                assert(head.deep_view().len() == head.len());
            }
            entries = head;
            skipped = head_skipped;
            if h < lines.len() || log.len >= abs {
                let on_line = h < lines.len() && lines[h].start == abs;
                assert(h < lines.len() ==> all[h as int] == lines@[h as int].deep_view());
                let is_marker = match at_offset {
                    Some(e) => e.is_marker(),
                    None => false,
                };
                if is_marker {
                    let e = at_offset.unwrap();
                    entries.push(e);
                    assert(entries.deep_view() =~= head_got.entries.push(e.deep_view()));
                } else if on_line && !lines[h].blank() {
                    skipped = skipped + 1;
                }
                let from: usize = if on_line {
                    h + 1
                } else {
                    h
                };
                let ghost mid = entries.deep_view();
                read_all_entries(lines, from, &mut entries, &mut skipped);
                assert(entries.deep_view() =~= scan_fast(
                    all,
                    log.len,
                    abs,
                    at_offset.deep_view(),
                ).entries);
            }
            if find_last_marker(&entries).is_none() {
                entries = Vec::new();
                skipped = 0;
                assert(entries.deep_view() =~= Seq::empty());
                read_all_entries(lines, 0, &mut entries, &mut skipped);
                assert(entries.deep_view() =~= scan_all(all).entries);
            }
        },
        None => {
            read_all_entries(lines, 0, &mut entries, &mut skipped);
            assert(entries.deep_view() =~= scan_all(all).entries);
        },
    }
    let ghost collected = collect(all, log.len, compaction_abs, at_offset.deep_view());
    assert(entries.deep_view() == collected.entries && skipped == collected.skipped);
    proof {
        lemma_collect_bounds(all, log.len, compaction_abs, at_offset.deep_view());
        assert(entries.deep_view().len() == entries.len());
    }
    let marker = find_last_marker(&entries);
    let work = working_entries(&entries, marker);
    let replayed = replay_entries(&work);
    proof {
        assert(work.deep_view().len() == work.len());
        lemma_replay_counts(work.deep_view(), work.len() as int);
    }
    let mut messages = replayed.messages;
    let ghost replayed_messages = messages.deep_view();
    let dropped = drop_orphan_tool_results(&mut messages);
    proof {
        assert(messages.deep_view().len() == messages.len());
        assert(replayed_messages.len() == replayed.deep_view().messages.len());
        lemma_without_orphans_len(replayed_messages);
    }
    let noise: usize = entries.len() - work.len();
    Ok(
        RestoreOutcome {
            messages,
            had_compaction: marker.is_some(),
            replayed_entry_count: replayed.replayed - dropped,
            skipped_entry_count: skipped + noise + replayed.skipped + dropped,
        },
    )
}

/// At most one entry beyond the lines is collected: the one at the offset.
proof fn lemma_collect_bounds(
    lines: Seq<LineView>,
    len: u64,
    abs: Option<u64>,
    at_offset: Option<EntryView>,
)
    ensures
        ({
            let c = collect(lines, len, abs, at_offset);
            c.entries.len() + c.skipped <= lines.len() + 1
        }),
{
    lemma_scan_bounds(lines);
    if let Some(abs) = abs {
        lemma_head_end(lines, abs, 0);
        let h = head_end(lines, abs, 0);
        lemma_scan_bounds(lines.take(h));
        lemma_scan_bounds(lines.skip(h));
        if h < lines.len() {
            lemma_scan_bounds(lines.skip(h + 1));
        }
    }
}

pub proof fn lemma_head_end(lines: Seq<LineView>, abs: u64, i: int)
    requires
        0 <= i <= lines.len(),
    ensures
        i <= head_end(lines, abs, i) <= lines.len(),
        forall|j: int| i <= j < head_end(lines, abs, i) ==> (#[trigger] lines[j]).start < abs,
        head_end(lines, abs, i) < lines.len() ==> lines[head_end(lines, abs, i)].start >= abs,
    decreases lines.len() - i,
{
    if i < lines.len() && lines[i].start < abs {
        lemma_head_end(lines, abs, i + 1);
    }
}

} // verus!
