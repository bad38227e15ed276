//! The conversation log: its entries, and the session that writes them.

use vstd::prelude::*;

use crate::json::{Json, JsonView};
use crate::message::UsageInfo;
use crate::session_config::{
    ConfigView, SessionConfigDelta, SessionConfigSnapshot,
};
use crate::text::same_text;

verus! {

/// One line of the conversation log.
#[derive(Debug)]
pub struct ConversationEntry {
    pub id: String,
    pub ts: String,
    pub role: String,
    pub content: String,
    pub metadata: Option<Json>,
    pub kind: Option<String>,
}

/// What a [`ConversationEntry`] holds.
pub struct EntryView {
    pub id: Seq<char>,
    pub ts: Seq<char>,
    pub role: Seq<char>,
    pub content: Seq<char>,
    pub metadata: Option<JsonView>,
    pub kind: Option<Seq<char>>,
}

impl DeepView for ConversationEntry {
    type V = EntryView;

    open spec fn deep_view(&self) -> EntryView {
        EntryView {
            id: self.id@,
            ts: self.ts@,
            role: self.role@,
            content: self.content@,
            metadata: self.metadata.deep_view(),
            kind: self.kind.deep_view(),
        }
    }
}

impl EntryView {
    /// The entry records a compaction.
    pub open spec fn is_marker(self) -> bool {
        self.kind == Some("compaction"@)
    }

    /// The entry is a system message and nothing else.
    pub open spec fn is_plain_system(self) -> bool {
        self.role == "system"@ && self.kind is None
    }

    /// The metadata member `key`, where it is text.
    pub open spec fn meta_text(self, key: Seq<char>) -> Option<Seq<char>> {
        match self.metadata {
            Some(m) => m.text_at(key),
            None => None,
        }
    }
}

impl ConversationEntry {
    /// Whether the entry records a compaction.
    pub fn is_marker(&self) -> (r: bool)
        ensures
            r == self.deep_view().is_marker(),
    {
        match &self.kind {
            Some(k) => same_text(k.as_str(), "compaction"),
            None => false,
        }
    }

    /// Whether the entry is a system message and nothing else.
    pub fn is_plain_system(&self) -> (r: bool)
        ensures
            r == self.deep_view().is_plain_system(),
    {
        same_text(self.role.as_str(), "system") && self.kind.is_none()
    }

    /// The metadata member `key`, where it is text.
    pub fn meta_text(&self, key: &str) -> (r: Option<String>)
        ensures
            r.deep_view() == self.deep_view().meta_text(key@),
    {
        match &self.metadata {
            Some(m) => match m.get_str(key) {
                Some(s) => Some(s.to_owned()),
                None => None,
            },
            None => None,
        }
    }
}

// ── Writing ─────────────────────────────────────────────────────────────

/// A line to append to the log. The writer gives it an id where it has none,
/// and the time.
#[derive(Debug)]
pub struct PendingEntry {
    pub role: String,
    pub content: String,
    pub metadata: Option<Json>,
    pub id: Option<String>,
}

/// What a [`PendingEntry`] holds.
pub struct PendingView {
    pub role: Seq<char>,
    pub content: Seq<char>,
    pub metadata: Option<JsonView>,
    pub id: Option<Seq<char>>,
}

impl DeepView for PendingEntry {
    type V = PendingView;

    open spec fn deep_view(&self) -> PendingView {
        PendingView {
            role: self.role@,
            content: self.content@,
            metadata: self.metadata.deep_view(),
            id: self.id.deep_view(),
        }
    }
}

/// What is recorded beside a compaction summary.
#[derive(Debug)]
pub struct CompactionEventMeta {
    pub compacted_from_id: String,
    pub compacted_to_id: String,
    pub keep_last_rounds: usize,
    pub model: String,
    pub before_tokens: u64,
    pub after_tokens: u64,
}

/// What a [`CompactionEventMeta`] holds.
pub struct CompactionMetaView {
    pub compacted_from_id: Seq<char>,
    pub compacted_to_id: Seq<char>,
    pub keep_last_rounds: int,
    pub model: Seq<char>,
    pub before_tokens: u64,
    pub after_tokens: u64,
}

impl DeepView for CompactionEventMeta {
    type V = CompactionMetaView;

    open spec fn deep_view(&self) -> CompactionMetaView {
        CompactionMetaView {
            compacted_from_id: self.compacted_from_id@,
            compacted_to_id: self.compacted_to_id@,
            keep_last_rounds: self.keep_last_rounds as int,
            model: self.model@,
            before_tokens: self.before_tokens,
            after_tokens: self.after_tokens,
        }
    }
}

/// What is recorded of something the user attached.
#[derive(Debug, PartialEq, Eq)]
pub enum AttachmentMeta {
    FileUpload { document_id: String, filename: String, format: String, size_bytes: u64 },
    ImageUpload {
        document_id: String,
        filename: String,
        format: String,
        size_bytes: u64,
        width: Option<u32>,
        height: Option<u32>,
    },
    AttachedFile { abs_path: String, name: String },
    AttachedSelection { abs_path: String, name: String, start_line: u32, end_line: u32 },
    AttachedFolder { abs_path: String, name: String },
}

/// What an [`AttachmentMeta`] holds.
pub enum AttachmentMetaView {
    FileUpload {
        document_id: Seq<char>,
        filename: Seq<char>,
        format: Seq<char>,
        size_bytes: u64,
    },
    ImageUpload {
        document_id: Seq<char>,
        filename: Seq<char>,
        format: Seq<char>,
        size_bytes: u64,
        width: Option<u32>,
        height: Option<u32>,
    },
    AttachedFile { abs_path: Seq<char>, name: Seq<char> },
    AttachedSelection {
        abs_path: Seq<char>,
        name: Seq<char>,
        start_line: u32,
        end_line: u32,
    },
    AttachedFolder { abs_path: Seq<char>, name: Seq<char> },
}

impl DeepView for AttachmentMeta {
    type V = AttachmentMetaView;

    open spec fn deep_view(&self) -> AttachmentMetaView {
        match self {
            AttachmentMeta::FileUpload { document_id, filename, format, size_bytes } => {
                AttachmentMetaView::FileUpload {
                    document_id: document_id@,
                    filename: filename@,
                    format: format@,
                    size_bytes: *size_bytes,
                }
            },
            AttachmentMeta::ImageUpload {
                document_id,
                filename,
                format,
                size_bytes,
                width,
                height,
            } => AttachmentMetaView::ImageUpload {
                document_id: document_id@,
                filename: filename@,
                format: format@,
                size_bytes: *size_bytes,
                width: *width,
                height: *height,
            },
            AttachmentMeta::AttachedFile { abs_path, name } => AttachmentMetaView::AttachedFile {
                abs_path: abs_path@,
                name: name@,
            },
            AttachmentMeta::AttachedSelection { abs_path, name, start_line, end_line } => {
                AttachmentMetaView::AttachedSelection {
                    abs_path: abs_path@,
                    name: name@,
                    start_line: *start_line,
                    end_line: *end_line,
                }
            },
            AttachmentMeta::AttachedFolder { abs_path, name } => {
                AttachmentMetaView::AttachedFolder { abs_path: abs_path@, name: name@ }
            },
        }
    }
}

/// What a session asks of its writer, in order.
#[derive(Debug)]
pub enum ConversationOp {
    /// Append a line.
    Append(PendingEntry),
    /// Append a system line that records something the user attached.
    AppendAttachment { content: String, meta: AttachmentMeta, id: Option<String> },
    /// Append a compaction marker.
    AppendCompaction { summary: String, meta: CompactionEventMeta },
    /// Count a call of the main dialog.
    AccumulateUsage(UsageInfo),
    /// Count a call that summarised; the size of the last request stays.
    AccumulateCompactionUsage(UsageInfo),
    /// The history now takes this many tokens.
    SetHistoryAnchor(u64),
    /// Persist the title.
    SetTitle(String),
    /// Persist the reasoning effort.
    SetReasoningEffort(Option<String>),
    /// Persist the model and its provider.
    SetModelProvider { model: String, provider: Option<String> },
    /// Persist a change of the settings, and tell the world.
    ApplyConfig(SessionConfigDelta),
    /// Publish what the session does, its token ratio, as the bits of its
    /// double-precision value, and how full the context is.
    PublishState { status: String, ratio_bits: u64, context_usage: String },
}

/// What a [`ConversationOp`] is.
pub enum OpView {
    Append(PendingView),
    AppendAttachment { content: Seq<char>, meta: AttachmentMetaView, id: Option<Seq<char>> },
    AppendCompaction { summary: Seq<char>, meta: CompactionMetaView },
    AccumulateUsage(UsageInfo),
    AccumulateCompactionUsage(UsageInfo),
    SetHistoryAnchor(u64),
    SetTitle(Seq<char>),
    SetReasoningEffort(Option<Seq<char>>),
    SetModelProvider { model: Seq<char>, provider: Option<Seq<char>> },
    ApplyConfig(ConfigView),
    PublishState { status: Seq<char>, ratio_bits: u64, context_usage: Seq<char> },
}

impl DeepView for ConversationOp {
    type V = OpView;

    open spec fn deep_view(&self) -> OpView {
        match self {
            ConversationOp::Append(e) => OpView::Append(e.deep_view()),
            ConversationOp::AppendAttachment { content, meta, id } => OpView::AppendAttachment {
                content: content@,
                meta: meta.deep_view(),
                id: id.deep_view(),
            },
            ConversationOp::AppendCompaction { summary, meta } => OpView::AppendCompaction {
                summary: summary@,
                meta: meta.deep_view(),
            },
            ConversationOp::AccumulateUsage(u) => OpView::AccumulateUsage(*u),
            ConversationOp::AccumulateCompactionUsage(u) => OpView::AccumulateCompactionUsage(*u),
            ConversationOp::SetHistoryAnchor(n) => OpView::SetHistoryAnchor(*n),
            ConversationOp::SetTitle(t) => OpView::SetTitle(t@),
            ConversationOp::SetReasoningEffort(e) => OpView::SetReasoningEffort(e.deep_view()),
            ConversationOp::SetModelProvider { model, provider } => OpView::SetModelProvider {
                model: model@,
                provider: provider.deep_view(),
            },
            ConversationOp::ApplyConfig(delta) => OpView::ApplyConfig(delta.deep_view()),
            ConversationOp::PublishState { status, ratio_bits, context_usage } => {
                OpView::PublishState {
                    status: status@,
                    ratio_bits: *ratio_bits,
                    context_usage: context_usage@,
                }
            },
        }
    }
}

/// The conversation of a session: who it is, its settings, and what its writer
/// still has to do.
#[derive(Debug)]
pub struct ConversationSession {
    pub session_id: String,
    pub config: SessionConfigSnapshot,
    /// Grows with every change of the settings from outside.
    pub config_version: u64,
    pub ops: Vec<ConversationOp>,
}

/// What a [`ConversationSession`] holds.
pub struct ConversationView {
    pub session_id: Seq<char>,
    pub config: ConfigView,
    pub config_version: u64,
    pub ops: Seq<OpView>,
}

impl DeepView for ConversationSession {
    type V = ConversationView;

    open spec fn deep_view(&self) -> ConversationView {
        ConversationView {
            session_id: self.session_id@,
            config: self.config.deep_view(),
            config_version: self.config_version,
            ops: self.ops.deep_view(),
        }
    }
}

impl ConversationView {
    /// One more thing for the writer to do.
    pub open spec fn with_op(self, op: OpView) -> ConversationView {
        ConversationView { ops: self.ops.push(op), ..self }
    }

    /// A line to append.
    pub open spec fn append(
        self,
        role: Seq<char>,
        content: Seq<char>,
        metadata: Option<JsonView>,
        id: Option<Seq<char>>,
    ) -> ConversationView {
        self.with_op(OpView::Append(PendingView { role, content, metadata, id }))
    }

    /// The conversation under a title: nothing to do where it has that title.
    pub open spec fn titled(self, title: Seq<char>) -> ConversationView {
        if self.config.title == Some(title) {
            self
        } else {
            ConversationView {
                config: ConfigView { title: Some(title), ..self.config },
                ..self.with_op(OpView::SetTitle(title))
            }
        }
    }

    /// The conversation with a change of its settings.
    pub open spec fn configured(self, delta: ConfigView) -> ConversationView {
        ConversationView {
            config: self.config.changed(delta),
            config_version: self.config_version.wrapping_add(1),
            ..self.with_op(OpView::ApplyConfig(delta))
        }
    }

    /// The conversation with another effort, which is persisted.
    pub open spec fn with_effort(self, effort: Option<Seq<char>>) -> ConversationView {
        ConversationView {
            config: ConfigView { reasoning_effort: effort, ..self.config },
            ..self.with_op(OpView::SetReasoningEffort(effort))
        }
    }

    /// The conversation with another model, and its provider where one is
    /// given.
    pub open spec fn with_model(
        self,
        model: Seq<char>,
        provider: Option<Seq<char>>,
    ) -> ConversationView {
        ConversationView {
            config: ConfigView {
                model: Some(model),
                provider: if provider is Some {
                    provider
                } else {
                    self.config.provider
                },
                ..self.config
            },
            ..self.with_op(OpView::SetModelProvider { model, provider })
        }
    }
}

impl ConversationSession {
    /// A conversation with nothing to write.
    pub fn new(session_id: String, config: SessionConfigSnapshot) -> (r: Self)
        ensures
            r.deep_view() == (ConversationView {
                session_id: session_id@,
                config: config.deep_view(),
                config_version: 0,
                ops: Seq::empty(),
            }),
    {
        let ops: Vec<ConversationOp> = Vec::new();
        assert(ops.deep_view() =~= Seq::empty());
        ConversationSession { session_id, config, config_version: 0, ops }
    }

    /// Another hand on the same conversation: the same settings, and nothing
    /// to write.
    pub fn shared(&self) -> (r: Self)
        ensures
            r.deep_view() == (ConversationView { ops: Seq::empty(), ..self.deep_view() }),
    {
        let ops: Vec<ConversationOp> = Vec::new();
        assert(ops.deep_view() =~= Seq::empty());
        ConversationSession {
            session_id: self.session_id.clone(),
            config: self.config.clone(),
            config_version: self.config_version,
            ops,
        }
    }

    /// Changes the settings from outside: each that the delta holds is
    /// replaced, the others stay.
    pub fn apply_config(&mut self, delta: SessionConfigDelta)
        ensures
            final(self).deep_view() == old(self).deep_view().configured(delta.deep_view()),
    {
        self.config.change(&delta);
        self.config_version = self.config_version.wrapping_add(1);
        self.push_op(ConversationOp::ApplyConfig(delta));
    }

    /// Sets the effort without telling anyone; the next change of the settings
    /// carries it.
    pub fn set_reasoning_effort_raw(&mut self, effort: Option<String>)
        ensures
            final(self).deep_view() == (ConversationView {
                config: ConfigView {
                    reasoning_effort: effort.deep_view(),
                    ..old(self).deep_view().config
                },
                ..old(self).deep_view()
            }),
    {
        self.config.reasoning_effort = effort;
    }

    /// Sets the effort and persists it.
    pub fn update_reasoning_effort(&mut self, effort: Option<String>)
        ensures
            final(self).deep_view() == old(self).deep_view().with_effort(effort.deep_view()),
    {
        self.config.reasoning_effort = effort.clone();
        self.push_op(ConversationOp::SetReasoningEffort(effort));
    }

    /// Sets the model, and the provider where one is given, and persists both.
    pub fn update_model_provider(&mut self, model: &str, provider: Option<String>)
        ensures
            final(self).deep_view() == old(self).deep_view().with_model(
                model@,
                provider.deep_view(),
            ),
    {
        self.config.model = Some(model.to_owned());
        if provider.is_some() {
            self.config.provider = provider.clone();
        }
        self.push_op(ConversationOp::SetModelProvider { model: model.to_owned(), provider });
    }

    /// Asks one more thing of the writer.
    pub fn push_op(&mut self, op: ConversationOp)
        ensures
            final(self).deep_view() == old(self).deep_view().with_op(op.deep_view()),
    {
        self.ops.push(op);
        assert(self.ops.deep_view() =~= old(self).ops.deep_view().push(op.deep_view()));
    }

    /// Appends a line that the writer gives an id.
    pub fn append_message(&mut self, role: &str, content: &str, metadata: Option<Json>)
        ensures
            final(self).deep_view() == old(self).deep_view().append(
                role@,
                content@,
                metadata.deep_view(),
                None,
            ),
    {
        self.append_message_with_id(role, content, metadata, None);
    }

    /// Appends a line under a given id.
    pub fn append_message_with_id(
        &mut self,
        role: &str,
        content: &str,
        metadata: Option<Json>,
        id: Option<String>,
    )
        ensures
            final(self).deep_view() == old(self).deep_view().append(
                role@,
                content@,
                metadata.deep_view(),
                id.deep_view(),
            ),
    {
        let entry = PendingEntry {
            role: role.to_owned(),
            content: content.to_owned(),
            metadata,
            id,
        };
        self.push_op(ConversationOp::Append(entry));
    }

    /// Gives the conversation a title; whether it was another one before.
    pub fn update_title_force(&mut self, title: &str) -> (changed: bool)
        ensures
            final(self).deep_view() == old(self).deep_view().titled(title@),
            changed == (old(self).deep_view().config.title != Some(title@)),
    {
        let same = match &self.config.title {
            Some(t) => same_text(t.as_str(), title),
            None => false,
        };
        if same {
            return false;
        }
        self.config.title = Some(title.to_owned());
        self.push_op(ConversationOp::SetTitle(title.to_owned()));
        true
    }
}

/// Every change of a conversation is logged as one operation behind those that
/// were there, and what was logged before stays.
pub proof fn changes_are_logged_in_order(
    c: ConversationView,
    op: OpView,
    delta: ConfigView,
    effort: Option<Seq<char>>,
    model: Seq<char>,
    provider: Option<Seq<char>>,
    title: Seq<char>,
)
    ensures
        c.with_op(op).ops == c.ops.push(op),
        c.with_op(op).config == c.config,
        c.configured(delta).ops == c.ops.push(OpView::ApplyConfig(delta)),
        c.with_effort(effort).ops == c.ops.push(OpView::SetReasoningEffort(effort)),
        c.with_model(model, provider).ops == c.ops.push(
            OpView::SetModelProvider { model, provider },
        ),
        c.config.title != Some(title) ==> c.titled(title).ops == c.ops.push(
            OpView::SetTitle(title),
        ),
        c.config.title == Some(title) ==> c.titled(title).ops == c.ops,
        c.with_op(op).session_id == c.session_id,
        c.configured(delta).session_id == c.session_id,
        c.with_effort(effort).session_id == c.session_id,
        c.with_model(model, provider).session_id == c.session_id,
        c.titled(title).session_id == c.session_id,
{
}

/// A message is logged with the role, the words, the metadata and the id that
/// it was given.
pub proof fn messages_are_logged_as_given(
    c: ConversationView,
    role: Seq<char>,
    content: Seq<char>,
    metadata: Option<JsonView>,
    id: Option<Seq<char>>,
)
    ensures
        ({
            let after = c.append(role, content, metadata, id);
            &&& after.ops.len() == c.ops.len() + 1
            &&& after.ops.drop_last() == c.ops
            &&& after.ops.last() is Append
            &&& after.ops.last()->Append_0.role == role
            &&& after.ops.last()->Append_0.content == content
            &&& after.ops.last()->Append_0.metadata == metadata
            &&& after.ops.last()->Append_0.id == id
            &&& after.config == c.config
            &&& after.config_version == c.config_version
        }),
{
    assert(c.append(role, content, metadata, id).ops.drop_last() =~= c.ops);
}

/// Settings are read back as they were changed: a change of all of them counts
/// the version up, a change of the effort sets it or takes it away, and a change
/// of the model keeps the provider where none is named.
pub proof fn changed_settings_are_read_back(
    c: ConversationView,
    delta: ConfigView,
    effort: Option<Seq<char>>,
    model: Seq<char>,
    provider: Option<Seq<char>>,
    title: Seq<char>,
)
    ensures
        delta.model is Some ==> c.configured(delta).config.model == delta.model,
        delta.model is None ==> c.configured(delta).config.model == c.config.model,
        delta.reasoning_effort is Some ==> c.configured(delta).config.reasoning_effort
            == delta.reasoning_effort,
        c.config_version < u64::MAX ==> c.configured(delta).config_version == c.config_version + 1,
        c.with_effort(effort).config.reasoning_effort == effort,
        c.with_effort(effort).config.model == c.config.model,
        c.with_model(model, provider).config.model == Some(model),
        provider is Some ==> c.with_model(model, provider).config.provider == provider,
        provider is None ==> c.with_model(model, provider).config.provider == c.config.provider,
        c.with_model(model, provider).config.reasoning_effort == c.config.reasoning_effort,
        c.titled(title).config.title == Some(title),
        c.titled(title).config.model == c.config.model,
        c.titled(title).config_version == c.config_version,
{
}

/// What an entry of the log is: a mark of a compaction by its kind, whatever its
/// role; a plain word of the system by its role, where it has no kind.
pub proof fn entries_are_told_by_kind_and_role(e: EntryView)
    ensures
        e.kind == Some("compaction"@) ==> e.is_marker() && !e.is_plain_system(),
        e.kind is None ==> !e.is_marker() && (e.is_plain_system() <==> e.role == "system"@),
        e.kind is Some ==> !e.is_plain_system(),
{
}

} // verus!
