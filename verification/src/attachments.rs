//! What the user attaches to a message: its record in the log, and the hint
//! that points the model at it.

use vstd::prelude::*;

use crate::agent_loop::AgentLoop;
use crate::conversation::{
    AttachmentMeta, AttachmentMetaView, ConversationOp, ConversationView, OpView,
};
use crate::session::SessionState;
use crate::text::{chars_of, decimal, decimal_spec, same_text, string_of};

verus! {

/// Something the user attached to a message.
#[derive(Debug, PartialEq, Eq)]
pub enum AttachedItem {
    /// A document that was uploaded.
    FileUpload {
        document_id: String,
        filename: String,
        format: String,
        size_bytes: u64,
        client_id: Option<String>,
    },
    /// An image that was uploaded. The model sees the picture itself.
    ImageUpload {
        document_id: String,
        filename: String,
        format: String,
        size_bytes: u64,
        width: Option<u32>,
        height: Option<u32>,
        client_id: Option<String>,
    },
    /// A file of the workspace.
    AttachedFile { abs_path: String, name: String, client_id: Option<String> },
    /// Some lines of a file of the workspace.
    AttachedSelection {
        abs_path: String,
        name: String,
        start_line: u32,
        end_line: u32,
        client_id: Option<String>,
    },
    /// A directory of the workspace.
    AttachedFolder { abs_path: String, name: String, client_id: Option<String> },
}

/// What an [`AttachedItem`] holds: what is recorded of it, and its id.
pub struct AttachedView {
    pub meta: AttachmentMetaView,
    pub client_id: Option<Seq<char>>,
}

impl DeepView for AttachedItem {
    type V = AttachedView;

    open spec fn deep_view(&self) -> AttachedView {
        match self {
            AttachedItem::FileUpload { document_id, filename, format, size_bytes, client_id } => {
                AttachedView {
                    meta: AttachmentMetaView::FileUpload {
                        document_id: document_id@,
                        filename: filename@,
                        format: format@,
                        size_bytes: *size_bytes,
                    },
                    client_id: client_id.deep_view(),
                }
            },
            AttachedItem::ImageUpload {
                document_id,
                filename,
                format,
                size_bytes,
                width,
                height,
                client_id,
            } => AttachedView {
                meta: AttachmentMetaView::ImageUpload {
                    document_id: document_id@,
                    filename: filename@,
                    format: format@,
                    size_bytes: *size_bytes,
                    width: *width,
                    height: *height,
                },
                client_id: client_id.deep_view(),
            },
            AttachedItem::AttachedFile { abs_path, name, client_id } => AttachedView {
                meta: AttachmentMetaView::AttachedFile { abs_path: abs_path@, name: name@ },
                client_id: client_id.deep_view(),
            },
            AttachedItem::AttachedSelection {
                abs_path,
                name,
                start_line,
                end_line,
                client_id,
            } => AttachedView {
                meta: AttachmentMetaView::AttachedSelection {
                    abs_path: abs_path@,
                    name: name@,
                    start_line: *start_line,
                    end_line: *end_line,
                },
                client_id: client_id.deep_view(),
            },
            AttachedItem::AttachedFolder { abs_path, name, client_id } => AttachedView {
                meta: AttachmentMetaView::AttachedFolder { abs_path: abs_path@, name: name@ },
                client_id: client_id.deep_view(),
            },
        }
    }
}

impl Clone for AttachedItem {
    fn clone(&self) -> (r: Self)
        ensures
            r.deep_view() == self.deep_view(),
    {
        match self {
            AttachedItem::FileUpload { document_id, filename, format, size_bytes, client_id } => {
                AttachedItem::FileUpload {
                    document_id: document_id.clone(),
                    filename: filename.clone(),
                    format: format.clone(),
                    size_bytes: *size_bytes,
                    client_id: client_id.clone(),
                }
            },
            AttachedItem::ImageUpload {
                document_id,
                filename,
                format,
                size_bytes,
                width,
                height,
                client_id,
            } => AttachedItem::ImageUpload {
                document_id: document_id.clone(),
                filename: filename.clone(),
                format: format.clone(),
                size_bytes: *size_bytes,
                width: *width,
                height: *height,
                client_id: client_id.clone(),
            },
            AttachedItem::AttachedFile { abs_path, name, client_id } => {
                AttachedItem::AttachedFile {
                    abs_path: abs_path.clone(),
                    name: name.clone(),
                    client_id: client_id.clone(),
                }
            },
            AttachedItem::AttachedSelection {
                abs_path,
                name,
                start_line,
                end_line,
                client_id,
            } => AttachedItem::AttachedSelection {
                abs_path: abs_path.clone(),
                name: name.clone(),
                start_line: *start_line,
                end_line: *end_line,
                client_id: client_id.clone(),
            },
            AttachedItem::AttachedFolder { abs_path, name, client_id } => {
                AttachedItem::AttachedFolder {
                    abs_path: abs_path.clone(),
                    name: name.clone(),
                    client_id: client_id.clone(),
                }
            },
        }
    }
}

// ── Records ─────────────────────────────────────────────────────────────

/// The text of an upload's record.
pub open spec fn upload_text(
    kind: Seq<char>,
    filename: Seq<char>,
    format: Seq<char>,
    size: u64,
) -> Seq<char> {
    kind + filename + " ("@ + format + ", "@ + decimal_spec(size as nat) + " bytes)"@
}

/// The text of the line that records an attachment.
pub open spec fn record_text(meta: AttachmentMetaView) -> Seq<char> {
    match meta {
        AttachmentMetaView::FileUpload { filename, format, size_bytes, .. } => upload_text(
            "Uploaded file: "@,
            filename,
            format,
            size_bytes,
        ),
        AttachmentMetaView::ImageUpload { filename, format, size_bytes, .. } => upload_text(
            "Uploaded image: "@,
            filename,
            format,
            size_bytes,
        ),
        AttachmentMetaView::AttachedFile { name, .. } => "Attached file: "@ + name,
        AttachmentMetaView::AttachedSelection { name, start_line, end_line, .. } => {
            "Attached selection: "@ + name + " (L"@ + decimal_spec(start_line as nat) + "-L"@
                + decimal_spec(end_line as nat) + ")"@
        },
        AttachmentMetaView::AttachedFolder { name, .. } => "Attached folder: "@ + name,
    }
}

/// The conversation with the records of the first `n` attachments in it.
pub open spec fn with_attachments(
    c: ConversationView,
    items: Seq<AttachedView>,
    n: int,
) -> ConversationView
    decreases n,
{
    if n <= 0 {
        c
    } else {
        with_attachments(c, items, n - 1).with_op(
            OpView::AppendAttachment {
                content: record_text(items[n - 1].meta),
                meta: items[n - 1].meta,
                id: items[n - 1].client_id,
            },
        )
    }
}

fn make_upload_text(kind: &str, filename: &str, format: &str, size: u64) -> (r: String)
    ensures
        r@ == upload_text(kind@, filename@, format@, size),
{
    let mut s = kind.to_owned();
    s.append(filename);
    s.append(" (");
    s.append(format);
    s.append(", ");
    s.append(decimal(size).as_str());
    s.append(" bytes)");
    s
}

/// The record of an attachment.
fn record_of(item: &AttachedItem) -> (r: ConversationOp)
    ensures
        r.deep_view() == (OpView::AppendAttachment {
            content: record_text(item.deep_view().meta),
            meta: item.deep_view().meta,
            id: item.deep_view().client_id,
        }),
{
    match item {
        AttachedItem::FileUpload { document_id, filename, format, size_bytes, client_id } => {
            ConversationOp::AppendAttachment {
                content: make_upload_text(
                    "Uploaded file: ",
                    filename.as_str(),
                    format.as_str(),
                    *size_bytes,
                ),
                meta: AttachmentMeta::FileUpload {
                    document_id: document_id.clone(),
                    filename: filename.clone(),
                    format: format.clone(),
                    size_bytes: *size_bytes,
                },
                id: client_id.clone(),
            }
        },
        AttachedItem::ImageUpload {
            document_id,
            filename,
            format,
            size_bytes,
            width,
            height,
            client_id,
        } => ConversationOp::AppendAttachment {
            content: make_upload_text(
                "Uploaded image: ",
                filename.as_str(),
                format.as_str(),
                *size_bytes,
            ),
            meta: AttachmentMeta::ImageUpload {
                document_id: document_id.clone(),
                filename: filename.clone(),
                format: format.clone(),
                size_bytes: *size_bytes,
                width: *width,
                height: *height,
            },
            id: client_id.clone(),
        },
        AttachedItem::AttachedFile { abs_path, name, client_id } => {
            ConversationOp::AppendAttachment {
                content: crate::text::join2("Attached file: ", name.as_str()),
                meta: AttachmentMeta::AttachedFile {
                    abs_path: abs_path.clone(),
                    name: name.clone(),
                },
                id: client_id.clone(),
            }
        },
        AttachedItem::AttachedSelection { abs_path, name, start_line, end_line, client_id } => {
            let mut content = "Attached selection: ".to_owned();
            content.append(name.as_str());
            content.append(" (L");
            content.append(decimal(*start_line as u64).as_str());
            content.append("-L");
            content.append(decimal(*end_line as u64).as_str());
            content.append(")");
            ConversationOp::AppendAttachment {
                content,
                meta: AttachmentMeta::AttachedSelection {
                    abs_path: abs_path.clone(),
                    name: name.clone(),
                    start_line: *start_line,
                    end_line: *end_line,
                },
                id: client_id.clone(),
            }
        },
        AttachedItem::AttachedFolder { abs_path, name, client_id } => {
            ConversationOp::AppendAttachment {
                content: crate::text::join2("Attached folder: ", name.as_str()),
                meta: AttachmentMeta::AttachedFolder {
                    abs_path: abs_path.clone(),
                    name: name.clone(),
                },
                id: client_id.clone(),
            }
        },
    }
}

impl AgentLoop {
    /// Persist attached items as standalone system entries of the
    /// conversation, where there is one.
    pub fn write_attached_items(&mut self, items: &Vec<AttachedItem>)
        ensures
            final(self).session.conversation.deep_view() == (match old(self).session.conversation {
                Some(c) => Some(
                    with_attachments(c.deep_view(), items.deep_view(), items.len() as int),
                ),
                None => None,
            }),
            *final(self) == (AgentLoop {
                session: SessionState {
                    conversation: final(self).session.conversation,
                    ..old(self).session
                },
                ..*old(self)
            }),
    {
        match self.session.conversation.take() {
            Some(mut conversation) => {
                let ghost c = conversation.deep_view();
                let ghost views = items.deep_view();
                let mut i: usize = 0;
                while i < items.len()
                    invariant
                        i <= items.len(),
                        views == items.deep_view(),
                        conversation.deep_view() == with_attachments(c, views, i as int),
                    decreases items.len() - i,
                {
                    assert(views[i as int] == items@[i as int].deep_view());
                    conversation.push_op(record_of(&items[i]));
                    i = i + 1;
                }
                self.session.conversation = Some(conversation);
            },
            None => {},
        }
    }
}

// ── Hints ───────────────────────────────────────────────────────────────

/// The extension under which an upload of a format is stored.
pub open spec fn safe_extension(format: Seq<char>) -> Seq<char> {
    if format == "pdf"@ {
        "pdf"@
    } else if format == "docx"@ {
        "docx"@
    } else if format == "pptx"@ {
        "pptx"@
    } else if format == "xlsx"@ {
        "xlsx"@
    } else if format == "png"@ {
        "png"@
    } else if format == "jpg"@ || format == "jpeg"@ {
        "jpg"@
    } else if format == "gif"@ {
        "gif"@
    } else if format == "webp"@ {
        "webp"@
    } else {
        "bin"@
    }
}

/// A path without the slashes at its end.
pub open spec fn trim_slashes(s: Seq<char>) -> Seq<char>
    decreases s.len(),
{
    if s.len() > 0 && s.last() == '/' {
        trim_slashes(s.drop_last())
    } else {
        s
    }
}

/// Where an upload lies on disk.
pub open spec fn upload_path(
    work_dir: Option<Seq<char>>,
    document_id: Seq<char>,
    format: Seq<char>,
) -> Seq<char> {
    (match work_dir {
        Some(dir) => trim_slashes(dir),
        None => "<work_dir>"@,
    }) + "/files/"@ + document_id + "."@ + safe_extension(format)
}

/// The hint for an attachment. Images are seen by the model anyway, and there
/// is no tool that reads a directory at once: neither gets a hint.
pub open spec fn hint_line(meta: AttachmentMetaView, work_dir: Option<Seq<char>>) -> Option<
    Seq<char>,
> {
    match meta {
        AttachmentMetaView::AttachedFile { abs_path, .. } => Some("- file: `"@ + abs_path + "`"@),
        AttachmentMetaView::AttachedSelection { abs_path, start_line, end_line, .. } => Some(
            if start_line != end_line {
                "- file: `"@ + abs_path + "` (L"@ + decimal_spec(start_line as nat) + "-L"@
                    + decimal_spec(end_line as nat) + ")"@
            } else {
                "- file: `"@ + abs_path + "` (L"@ + decimal_spec(start_line as nat) + ")"@
            },
        ),
        AttachmentMetaView::FileUpload { document_id, filename, format, .. } => Some(
            "- file: `"@ + filename + "` (id="@ + document_id + ", format="@ + format + ", path="@
                + upload_path(work_dir, document_id, format) + ")"@,
        ),
        AttachmentMetaView::ImageUpload { .. } => None,
        AttachmentMetaView::AttachedFolder { .. } => None,
    }
}

/// The hints for the first `n` attachments, in order.
pub open spec fn hint_lines(
    items: Seq<AttachedView>,
    work_dir: Option<Seq<char>>,
    n: int,
) -> Seq<Seq<char>>
    decreases n,
{
    if n <= 0 {
        Seq::empty()
    } else {
        match hint_line(items[n - 1].meta, work_dir) {
            Some(line) => hint_lines(items, work_dir, n - 1).push(line),
            None => hint_lines(items, work_dir, n - 1),
        }
    }
}

/// Lines, with a line break between each two.
pub open spec fn join_lines(lines: Seq<Seq<char>>) -> Seq<char>
    decreases lines.len(),
{
    if lines.len() == 0 {
        Seq::empty()
    } else if lines.len() == 1 {
        lines[0]
    } else {
        join_lines(lines.drop_last()) + "\n"@ + lines.last()
    }
}

/// A message with the hints for what is attached to it.
pub open spec fn hinted(
    content: Seq<char>,
    items: Seq<AttachedView>,
    work_dir: Option<Seq<char>>,
) -> Seq<char> {
    let lines = hint_lines(items, work_dir, items.len() as int);
    if lines.len() == 0 {
        content
    } else {
        (if content.len() == 0 {
            Seq::empty()
        } else {
            content + "\n\n"@
        })
            + "[Attached workspace files & uploads — use `read_file` / `doc_reader` on demand]\n"@
            + join_lines(lines)
    }
}

fn extension_of(format: &str) -> (r: String)
    ensures
        r@ == safe_extension(format@),
{
    if same_text(format, "pdf") {
        "pdf".to_owned()
    } else if same_text(format, "docx") {
        "docx".to_owned()
    } else if same_text(format, "pptx") {
        "pptx".to_owned()
    } else if same_text(format, "xlsx") {
        "xlsx".to_owned()
    } else if same_text(format, "png") {
        "png".to_owned()
    } else if same_text(format, "jpg") || same_text(format, "jpeg") {
        "jpg".to_owned()
    } else if same_text(format, "gif") {
        "gif".to_owned()
    } else if same_text(format, "webp") {
        "webp".to_owned()
    } else {
        "bin".to_owned()
    }
}

fn without_end_slashes(s: &str) -> (r: String)
    ensures
        r@ == trim_slashes(s@),
{
    let chars = chars_of(s);
    let mut n: usize = chars.len();
    assert(chars@.take(n as int) =~= chars@);
    while n > 0 && chars[n - 1] == '/'
        invariant
            n <= chars.len(),
            trim_slashes(chars@) == trim_slashes(chars@.take(n as int)),
        decreases n,
    {
        assert(chars@.take(n as int).drop_last() =~= chars@.take(n - 1));
        n = n - 1;
    }
    assert(chars@.take(n as int) =~= chars@.subrange(0, n as int));
    string_of(&chars, 0, n)
}

fn make_hint_line(item: &AttachedItem, work_dir: Option<&str>) -> (r: Option<String>)
    ensures
        r.deep_view() == hint_line(
            item.deep_view().meta,
            match work_dir {
                Some(d) => Some(d@),
                None => None,
            },
        ),
{
    match item {
        AttachedItem::AttachedFile { abs_path, .. } => {
            let mut s = "- file: `".to_owned();
            s.append(abs_path.as_str());
            s.append("`");
            Some(s)
        },
        AttachedItem::AttachedSelection { abs_path, start_line, end_line, .. } => {
            let mut s = "- file: `".to_owned();
            s.append(abs_path.as_str());
            s.append("` (L");
            s.append(decimal(*start_line as u64).as_str());
            if *start_line != *end_line {
                s.append("-L");
                s.append(decimal(*end_line as u64).as_str());
            }
            s.append(")");
            Some(s)
        },
        AttachedItem::FileUpload { document_id, filename, format, .. } => {
            let mut path = match work_dir {
                Some(dir) => without_end_slashes(dir),
                None => "<work_dir>".to_owned(),
            };
            path.append("/files/");
            path.append(document_id.as_str());
            path.append(".");
            path.append(extension_of(format.as_str()).as_str());
            let mut s = "- file: `".to_owned();
            s.append(filename.as_str());
            s.append("` (id=");
            s.append(document_id.as_str());
            s.append(", format=");
            s.append(format.as_str());
            s.append(", path=");
            s.append(path.as_str());
            s.append(")");
            Some(s)
        },
        AttachedItem::ImageUpload { .. } => None,
        AttachedItem::AttachedFolder { .. } => None,
    }
}

/// Lines, with a line break between each two.
pub fn join_with_newlines(lines: &Vec<String>) -> (r: String)
    ensures
        r@ == join_lines(lines.deep_view()),
{
    let ghost all = lines.deep_view();
    let mut s = String::new();
    let mut i: usize = 0;
    assert(all.take(0) =~= Seq::empty());
    assert(s@ =~= join_lines(all.take(0)));
    while i < lines.len()
        invariant
            i <= lines.len(),
            all == lines.deep_view(),
            s@ == join_lines(all.take(i as int)),
        decreases lines.len() - i,
    {
        assert(all[i as int] == lines@[i as int]@);
        assert(all.take(i + 1).drop_last() =~= all.take(i as int));
        if i > 0 {
            s.append("\n");
        }
        s.append(lines[i].as_str());
        assert(s@ =~= join_lines(all.take(i + 1)));
        i = i + 1;
    }
    assert(all.take(lines.len() as int) =~= all);
    s
}

/// The message with a hint for each attachment that a tool can read: the
/// message itself where there is none.
pub fn build_attachment_hint(
    user_content: &str,
    items: Option<&[AttachedItem]>,
    work_dir: Option<&str>,
) -> (r: String)
    ensures
        r@ == (match items {
            Some(list) => hinted(
                user_content@,
                list.deep_view(),
                match work_dir {
                    Some(d) => Some(d@),
                    None => None,
                },
            ),
            None => user_content@,
        }),
{
    let list = match items {
        Some(l) => l,
        None => {
            return user_content.to_owned();
        },
    };
    let ghost views = list.deep_view();
    let ghost dir: Option<Seq<char>> = match work_dir {
        Some(d) => Some(d@),
        None => None,
    };
    let mut lines: Vec<String> = Vec::new();
    let mut i: usize = 0;
    assert(lines.deep_view() =~= Seq::empty());
    while i < list.len()
        invariant
            i <= list.len(),
            views == list.deep_view(),
            dir == (match work_dir {
                Some(d) => Some(d@),
                None => None,
            }),
            lines.deep_view() == hint_lines(views, dir, i as int),
        decreases list.len() - i,
    {
        assert(views[i as int] == list@[i as int].deep_view());
        if let Some(line) = make_hint_line(&list[i], work_dir) {
            let ghost before = lines.deep_view();
            lines.push(line);
            assert(lines.deep_view() =~= before.push(line@));
        }
        i = i + 1;
    }
    assert(views.len() == list.len());
    assert(lines.deep_view().len() == lines.len());
    if lines.is_empty() {
        return user_content.to_owned();
    }
    let mut s = String::new();
    if !user_content.is_empty() {
        s.append(user_content);
        s.append("\n\n");
        assert(s@ =~= user_content@ + "\n\n"@);
    } else {
        assert(s@ =~= Seq::empty());
    }
    s.append("[Attached workspace files & uploads — use `read_file` / `doc_reader` on demand]\n");
    s.append(join_with_newlines(&lines).as_str());
    s
}

// ── Laws ────────────────────────────────────────────────────────────────

/// The user's own words stay at the start of a hinted message.
pub proof fn hint_keeps_the_message(
    content: Seq<char>,
    items: Seq<AttachedView>,
    work_dir: Option<Seq<char>>,
)
    ensures
        content.is_prefix_of(hinted(content, items, work_dir)),
{
    assert(hinted(content, items, work_dir).take(content.len() as int) =~= content);
}

/// Attachments that no tool reads leave a message as it is.
pub proof fn silent_attachments_change_nothing(
    content: Seq<char>,
    items: Seq<AttachedView>,
    work_dir: Option<Seq<char>>,
)
    requires
        forall|i: int|
            0 <= i < items.len() ==> (#[trigger] items[i]).meta is ImageUpload
                || items[i].meta is AttachedFolder,
    ensures
        hinted(content, items, work_dir) == content,
{
    lemma_no_hints(items, work_dir, items.len() as int);
}

proof fn lemma_no_hints(items: Seq<AttachedView>, work_dir: Option<Seq<char>>, n: int)
    requires
        0 <= n <= items.len(),
        forall|i: int|
            0 <= i < items.len() ==> (#[trigger] items[i]).meta is ImageUpload
                || items[i].meta is AttachedFolder,
    ensures
        hint_lines(items, work_dir, n).len() == 0,
    decreases n,
{
    if n > 0 {
        lemma_no_hints(items, work_dir, n - 1);
        assert(items[n - 1].meta is ImageUpload || items[n - 1].meta is AttachedFolder);
    }
}

/// Every attachment is recorded, in order, under the id that its sender gave
/// it, and nothing else is written.
pub proof fn every_attachment_is_recorded(
    c: ConversationView,
    items: Seq<AttachedView>,
    n: int,
    i: int,
)
    requires
        0 <= i < n <= items.len(),
    ensures
        with_attachments(c, items, n).ops.len() == c.ops.len() + n,
        with_attachments(c, items, n).ops[c.ops.len() + i] == (OpView::AppendAttachment {
            content: record_text(items[i].meta),
            meta: items[i].meta,
            id: items[i].client_id,
        }),
    decreases n,
{
    lemma_attachments_len(c, items, n - 1);
    if i < n - 1 {
        every_attachment_is_recorded(c, items, n - 1, i);
    }
}

proof fn lemma_attachments_len(c: ConversationView, items: Seq<AttachedView>, n: int)
    requires
        0 <= n,
    ensures
        with_attachments(c, items, n).ops.len() == c.ops.len() + n,
    decreases n,
{
    if n > 0 {
        lemma_attachments_len(c, items, n - 1);
    }
}

/// The record of an attachment names it, with its kind; of an upload also the
/// format and the size, of a selection also the lines.
pub proof fn records_name_the_attachment(meta: AttachmentMetaView)
    ensures
        meta matches AttachmentMetaView::FileUpload { filename, format, size_bytes, .. }
            ==> record_text(meta) == "Uploaded file: "@ + filename + " ("@ + format + ", "@
            + decimal_spec(size_bytes as nat) + " bytes)"@,
        meta matches AttachmentMetaView::ImageUpload { filename, format, size_bytes, .. }
            ==> record_text(meta) == "Uploaded image: "@ + filename + " ("@ + format + ", "@
            + decimal_spec(size_bytes as nat) + " bytes)"@,
        meta matches AttachmentMetaView::AttachedFile { name, .. } ==> record_text(meta)
            == "Attached file: "@ + name,
        meta matches AttachmentMetaView::AttachedFolder { name, .. } ==> record_text(meta)
            == "Attached folder: "@ + name,
        meta matches AttachmentMetaView::AttachedSelection { name, start_line, end_line, .. }
            ==> record_text(meta) == "Attached selection: "@ + name + " (L"@ + decimal_spec(
            start_line as nat,
        ) + "-L"@ + decimal_spec(end_line as nat) + ")"@,
{
}

/// A known format is the extension of the stored file, with one extension for
/// JPEG; an unknown one is stored as bytes, so that nothing of the format's own
/// words ends up in a path.
pub proof fn only_known_extensions_are_used(format: Seq<char>)
    ensures
        safe_extension("pdf"@) == "pdf"@,
        safe_extension("docx"@) == "docx"@,
        safe_extension("pptx"@) == "pptx"@,
        safe_extension("xlsx"@) == "xlsx"@,
        safe_extension("png"@) == "png"@,
        safe_extension("jpg"@) == "jpg"@,
        safe_extension("jpeg"@) == "jpg"@,
        safe_extension("gif"@) == "gif"@,
        safe_extension("webp"@) == "webp"@,
        safe_extension(format) == format || safe_extension(format) == "bin"@ || (format
            == "jpeg"@ && safe_extension(format) == "jpg"@),
        format != "pdf"@ && format != "docx"@ && format != "pptx"@ && format != "xlsx"@ && format
            != "png"@ && format != "jpg"@ && format != "jpeg"@ && format != "gif"@ && format
            != "webp"@ ==> safe_extension(format) == "bin"@,
{
    reveal_strlit("pdf");
    reveal_strlit("docx");
    reveal_strlit("pptx");
    reveal_strlit("xlsx");
    reveal_strlit("png");
    reveal_strlit("jpg");
    reveal_strlit("jpeg");
    reveal_strlit("gif");
    reveal_strlit("webp");
    assert("pdf"@[1] == 'd' && "png"@[1] == 'n' && "jpg"@[1] == 'p' && "gif"@[1] == 'i');
    assert("docx"@[0] == 'd' && "pptx"@[0] == 'p' && "xlsx"@[0] == 'x' && "jpeg"@[0] == 'j'
        && "webp"@[0] == 'w');
    assert("pdf"@.len() == 3 && "png"@.len() == 3 && "jpg"@.len() == 3 && "gif"@.len() == 3);
    assert("docx"@.len() == 4 && "pptx"@.len() == 4 && "xlsx"@.len() == 4 && "jpeg"@.len() == 4
        && "webp"@.len() == 4);
}

/// A directory loses the slashes at its end, all of them, and nothing else.
pub proof fn only_end_slashes_are_trimmed(s: Seq<char>)
    ensures
        ({
            let t = trim_slashes(s);
            &&& t.len() <= s.len()
            &&& t == s.take(t.len() as int)
            &&& forall|i: int| t.len() <= i < s.len() ==> #[trigger] s[i] == '/'
            &&& t.len() > 0 ==> t.last() != '/'
        }),
    decreases s.len(),
{
    if s.len() > 0 && s.last() == '/' {
        only_end_slashes_are_trimmed(s.drop_last());
        let t = trim_slashes(s);
        assert(t =~= s.take(t.len() as int));
        assert forall|i: int| t.len() <= i < s.len() implies #[trigger] s[i] == '/' by {
            if i < s.len() - 1 {
                assert(s.drop_last()[i] == s[i]);
            }
        }
    } else {
        assert(s.take(s.len() as int) =~= s);
    }
}

/// An upload lies among the files of the working directory, under its id; the
/// slashes at the end of the directory make no difference.
pub proof fn uploads_lie_under_their_id(dir: Seq<char>, id: Seq<char>, format: Seq<char>)
    ensures
        upload_path(Some(dir), id, format) == trim_slashes(dir) + "/files/"@ + id + "."@
            + safe_extension(format),
        upload_path(Some(dir.push('/')), id, format) == upload_path(Some(dir), id, format),
        upload_path(None, id, format) == "<work_dir>"@ + "/files/"@ + id + "."@ + safe_extension(
            format,
        ),
{
    assert(dir.push('/').drop_last() =~= dir);
}

/// The model is pointed at every file, selection and document, by what it opens
/// them with; pictures and folders get no line.
pub proof fn files_are_pointed_at(meta: AttachmentMetaView, work_dir: Option<Seq<char>>)
    ensures
        hint_line(meta, work_dir) is None <==> meta is ImageUpload || meta is AttachedFolder,
        meta matches AttachmentMetaView::AttachedFile { abs_path, .. } ==> hint_line(meta, work_dir)
            == Some("- file: `"@ + abs_path + "`"@),
        meta matches AttachmentMetaView::AttachedSelection { abs_path, start_line, end_line, .. }
            ==> {
            &&& start_line == end_line ==> hint_line(meta, work_dir) == Some(
                "- file: `"@ + abs_path + "` (L"@ + decimal_spec(start_line as nat) + ")"@,
            )
            &&& start_line != end_line ==> hint_line(meta, work_dir) == Some(
                "- file: `"@ + abs_path + "` (L"@ + decimal_spec(start_line as nat) + "-L"@
                    + decimal_spec(end_line as nat) + ")"@,
            )
        },
        meta matches AttachmentMetaView::FileUpload { document_id, filename, format, .. }
            ==> hint_line(meta, work_dir) == Some(
            "- file: `"@ + filename + "` (id="@ + document_id + ", format="@ + format + ", path="@
                + upload_path(work_dir, document_id, format) + ")"@,
        ),
{
}

/// The lines stand in the order of the attachments, each where it has one.
pub proof fn hints_stand_in_order(
    items: Seq<AttachedView>,
    work_dir: Option<Seq<char>>,
    n: int,
)
    requires
        0 <= n < items.len(),
    ensures
        hint_line(items[n].meta, work_dir) matches Some(line) ==> hint_lines(items, work_dir, n + 1)
            == hint_lines(items, work_dir, n).push(line),
        hint_line(items[n].meta, work_dir) is None ==> hint_lines(items, work_dir, n + 1)
            == hint_lines(items, work_dir, n),
        hint_lines(items, work_dir, 0).len() == 0,
{
}

/// Lines are joined by one line break between each two, and none at the end.
pub proof fn lines_are_joined_by_breaks(
    a: Seq<Seq<char>>,
    b: Seq<Seq<char>>,
    line: Seq<char>,
)
    ensures
        join_lines(seq![line]) == line,
        join_lines(Seq::empty()).len() == 0,
        a.len() > 0 && b.len() > 0 ==> join_lines(a + b) == join_lines(a) + "\n"@ + join_lines(b),
    decreases b.len(),
{
    if a.len() > 0 && b.len() > 1 {
        lines_are_joined_by_breaks(a, b.drop_last(), line);
        assert((a + b).drop_last() =~= a + b.drop_last());
        assert(join_lines(a + b) =~= join_lines(a) + "\n"@ + join_lines(b));
    } else if a.len() > 0 && b.len() == 1 {
        assert((a + b).drop_last() =~= a);
    }
}

/// The hint stands behind the message, a blank line between them, where there is
/// a message; without a line to show there is no hint.
pub proof fn hints_stand_behind_the_message(
    content: Seq<char>,
    items: Seq<AttachedView>,
    work_dir: Option<Seq<char>>,
)
    ensures
        ({
            let lines = hint_lines(items, work_dir, items.len() as int);
            let hint =
                "[Attached workspace files & uploads — use `read_file` / `doc_reader` on demand]\n"@
                + join_lines(lines);
            &&& lines.len() == 0 ==> hinted(content, items, work_dir) == content
            &&& lines.len() > 0 && content.len() == 0 ==> hinted(content, items, work_dir) == hint
            &&& lines.len() > 0 && content.len() > 0 ==> hinted(content, items, work_dir) == content
                + "\n\n"@ + hint
        }),
{
    let lines = hint_lines(items, work_dir, items.len() as int);
    let hint =
        "[Attached workspace files & uploads — use `read_file` / `doc_reader` on demand]\n"@
        + join_lines(lines);
    if lines.len() > 0 && content.len() == 0 {
        assert(hinted(content, items, work_dir) =~= hint);
    }
    if lines.len() > 0 && content.len() > 0 {
        assert(hinted(content, items, work_dir) =~= content + "\n\n"@ + hint);
    }
}

} // verus!
