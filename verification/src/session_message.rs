//! The messages that a session takes.

use vstd::prelude::*;

use crate::attachments::{AttachedItem, AttachedView};
use crate::builtin_tools::{
    AgentToolEntry, BuiltinToolEntry, BuiltinView, ToolDef, ToolDefView, ToolFlagView,
};
use crate::overrides::{OverridesView, RuntimeConfigOverrides};
use crate::text::{
    byte_len, chars_of, debug_str, debug_str_text, decimal, decimal_spec, decimal_wide, string_of,
    utf8_len,
};

verus! {

/// A part of a message with more than text in it.
#[derive(Debug)]
pub enum ContentPart {
    Text(String),
    ImageUrl(String),
}

/// What a [`ContentPart`] is.
pub enum ContentPartView {
    Text(Seq<char>),
    ImageUrl(Seq<char>),
}

impl DeepView for ContentPart {
    type V = ContentPartView;

    open spec fn deep_view(&self) -> ContentPartView {
        match self {
            ContentPart::Text(s) => ContentPartView::Text(s@),
            ContentPart::ImageUrl(s) => ContentPartView::ImageUrl(s@),
        }
    }
}

impl Clone for ContentPart {
    fn clone(&self) -> (r: Self)
        ensures
            r.deep_view() == self.deep_view(),
    {
        match self {
            ContentPart::Text(s) => ContentPart::Text(s.clone()),
            ContentPart::ImageUrl(s) => ContentPart::ImageUrl(s.clone()),
        }
    }
}

/// A compression that the user asks for.
#[derive(Clone, Copy, Debug, PartialEq, Eq, Structural)]
pub enum CompressionAction {
    /// Put placeholders in the place of old tool results.
    CompressToolResults,
    /// Summarise the history.
    CompressSummary,
}

/// Messages that can be sent to a session.
pub enum SessionMessage {
    /// User chat message to process.
    ChatMessage {
        content: String,
        message_id: String,
        /// Skill instructions for the system prompt.
        skill_instructions: Option<String>,
        attached_items: Option<Vec<AttachedItem>>,
        content_parts: Option<Vec<ContentPart>>,
    },
    /// Continue execution after a pause.
    ContinueExecution,
    /// Apply runtime config overrides.
    UpdateRuntimeConfig(RuntimeConfigOverrides),
    /// Update workspace context text.
    UpdateWorkspaceContext { context_text: String },
    /// The tools of the connected MCP servers changed.
    UpdateMcpTools { mcp_tools: Option<Vec<ToolDef>> },
    /// The user wishes tools on or off.
    UpdateBuiltinTools { entries: Vec<AgentToolEntry> },
    /// A sidecar offers a tool.
    AddDynamicBuiltinTool { entry: BuiltinToolEntry },
    /// A sidecar's tool is gone.
    RemoveDynamicBuiltinTool { name: String },
    /// Update the title of the session's conversation.
    UpdateSessionTitle { title: String },
    /// The directory in which tools run changed.
    SetWorkDir { path: String },
    /// The prompt file of the workspace changed, or there is none.
    SetWorkspacePromptFile { content: Option<String> },
    /// Who the user is.
    UpdateIdentityContext { identity_context: Option<String> },
    /// The list of providers changed.
    ProviderListUpdated,
    /// Stop the current turn.
    Stop { reason: String },
    /// Let the debugger in.
    EnableDebugMode,
    /// Close the session gracefully. Its log is preserved.
    Close,
    /// Summarise the history now.
    CompactContext,
    CompressAction(CompressionAction),
    /// Another embedding model is served.
    UpdateEmbedConfig {
        embed_endpoint: String,
        embed_model_id: String,
        embed_dimension: usize,
    },
    /// No embedding model is served.
    DisableEmbedConfig,
    /// Tell the model what happened outside.
    SystemNotification { content: String },
}

/// What a [`SessionMessage`] is.
pub enum MessageView {
    ChatMessage {
        content: Seq<char>,
        message_id: Seq<char>,
        skill_instructions: Option<Seq<char>>,
        attached_items: Option<Seq<AttachedView>>,
        content_parts: Option<Seq<ContentPartView>>,
    },
    ContinueExecution,
    UpdateRuntimeConfig(OverridesView),
    UpdateWorkspaceContext { context_text: Seq<char> },
    UpdateMcpTools { mcp_tools: Option<Seq<ToolDefView>> },
    UpdateBuiltinTools { entries: Seq<ToolFlagView> },
    AddDynamicBuiltinTool { entry: BuiltinView },
    RemoveDynamicBuiltinTool { name: Seq<char> },
    UpdateSessionTitle { title: Seq<char> },
    SetWorkDir { path: Seq<char> },
    SetWorkspacePromptFile { content: Option<Seq<char>> },
    UpdateIdentityContext { identity_context: Option<Seq<char>> },
    ProviderListUpdated,
    Stop { reason: Seq<char> },
    EnableDebugMode,
    Close,
    CompactContext,
    CompressAction(CompressionAction),
    UpdateEmbedConfig {
        embed_endpoint: Seq<char>,
        embed_model_id: Seq<char>,
        embed_dimension: int,
    },
    DisableEmbedConfig,
    SystemNotification { content: Seq<char> },
}

impl DeepView for SessionMessage {
    type V = MessageView;

    open spec fn deep_view(&self) -> MessageView {
        match self {
            SessionMessage::ChatMessage {
                content,
                message_id,
                skill_instructions,
                attached_items,
                content_parts,
            } => MessageView::ChatMessage {
                content: content@,
                message_id: message_id@,
                skill_instructions: skill_instructions.deep_view(),
                attached_items: attached_items.deep_view(),
                content_parts: content_parts.deep_view(),
            },
            SessionMessage::ContinueExecution => MessageView::ContinueExecution,
            SessionMessage::UpdateRuntimeConfig(o) => {
                MessageView::UpdateRuntimeConfig(o.deep_view())
            },
            SessionMessage::UpdateWorkspaceContext { context_text } => {
                MessageView::UpdateWorkspaceContext { context_text: context_text@ }
            },
            SessionMessage::UpdateMcpTools { mcp_tools } => MessageView::UpdateMcpTools {
                mcp_tools: mcp_tools.deep_view(),
            },
            SessionMessage::UpdateBuiltinTools { entries } => MessageView::UpdateBuiltinTools {
                entries: entries.deep_view(),
            },
            SessionMessage::AddDynamicBuiltinTool { entry } => {
                MessageView::AddDynamicBuiltinTool { entry: entry.deep_view() }
            },
            SessionMessage::RemoveDynamicBuiltinTool { name } => {
                MessageView::RemoveDynamicBuiltinTool { name: name@ }
            },
            SessionMessage::UpdateSessionTitle { title } => MessageView::UpdateSessionTitle {
                title: title@,
            },
            SessionMessage::SetWorkDir { path } => MessageView::SetWorkDir { path: path@ },
            SessionMessage::SetWorkspacePromptFile { content } => {
                MessageView::SetWorkspacePromptFile { content: content.deep_view() }
            },
            SessionMessage::UpdateIdentityContext { identity_context } => {
                MessageView::UpdateIdentityContext {
                    identity_context: identity_context.deep_view(),
                }
            },
            SessionMessage::ProviderListUpdated => MessageView::ProviderListUpdated,
            SessionMessage::Stop { reason } => MessageView::Stop { reason: reason@ },
            SessionMessage::EnableDebugMode => MessageView::EnableDebugMode,
            SessionMessage::Close => MessageView::Close,
            SessionMessage::CompactContext => MessageView::CompactContext,
            SessionMessage::CompressAction(a) => MessageView::CompressAction(*a),
            SessionMessage::UpdateEmbedConfig {
                embed_endpoint,
                embed_model_id,
                embed_dimension,
            } => MessageView::UpdateEmbedConfig {
                embed_endpoint: embed_endpoint@,
                embed_model_id: embed_model_id@,
                embed_dimension: *embed_dimension as int,
            },
            SessionMessage::DisableEmbedConfig => MessageView::DisableEmbedConfig,
            SessionMessage::SystemNotification { content } => MessageView::SystemNotification {
                content: content@,
            },
        }
    }
}

impl Clone for SessionMessage {
    fn clone(&self) -> (r: Self)
        ensures
            r.deep_view() == self.deep_view(),
    {
        match self {
            SessionMessage::ChatMessage {
                content,
                message_id,
                skill_instructions,
                attached_items,
                content_parts,
            } => SessionMessage::ChatMessage {
                content: content.clone(),
                message_id: message_id.clone(),
                skill_instructions: skill_instructions.clone(),
                attached_items: match attached_items {
                    Some(items) => {
                        let copy = items.clone();
                        assert(copy.deep_view() =~= items.deep_view());
                        Some(copy)
                    },
                    None => None,
                },
                content_parts: match content_parts {
                    Some(parts) => {
                        let copy = parts.clone();
                        assert(copy.deep_view() =~= parts.deep_view());
                        Some(copy)
                    },
                    None => None,
                },
            },
            SessionMessage::ContinueExecution => SessionMessage::ContinueExecution,
            SessionMessage::UpdateRuntimeConfig(o) => {
                SessionMessage::UpdateRuntimeConfig(o.clone())
            },
            SessionMessage::UpdateWorkspaceContext { context_text } => {
                SessionMessage::UpdateWorkspaceContext { context_text: context_text.clone() }
            },
            SessionMessage::UpdateMcpTools { mcp_tools } => SessionMessage::UpdateMcpTools {
                mcp_tools: match mcp_tools {
                    Some(tools) => {
                        let copy = tools.clone();
                        assert(copy.deep_view() =~= tools.deep_view());
                        Some(copy)
                    },
                    None => None,
                },
            },
            SessionMessage::UpdateBuiltinTools { entries } => {
                let copy = entries.clone();
                assert(copy.deep_view() =~= entries.deep_view());
                SessionMessage::UpdateBuiltinTools { entries: copy }
            },
            SessionMessage::AddDynamicBuiltinTool { entry } => {
                SessionMessage::AddDynamicBuiltinTool { entry: entry.clone() }
            },
            SessionMessage::RemoveDynamicBuiltinTool { name } => {
                SessionMessage::RemoveDynamicBuiltinTool { name: name.clone() }
            },
            SessionMessage::UpdateSessionTitle { title } => SessionMessage::UpdateSessionTitle {
                title: title.clone(),
            },
            SessionMessage::SetWorkDir { path } => SessionMessage::SetWorkDir {
                path: path.clone(),
            },
            SessionMessage::SetWorkspacePromptFile { content } => {
                SessionMessage::SetWorkspacePromptFile { content: content.clone() }
            },
            SessionMessage::UpdateIdentityContext { identity_context } => {
                SessionMessage::UpdateIdentityContext {
                    identity_context: identity_context.clone(),
                }
            },
            SessionMessage::ProviderListUpdated => SessionMessage::ProviderListUpdated,
            SessionMessage::Stop { reason } => SessionMessage::Stop { reason: reason.clone() },
            SessionMessage::EnableDebugMode => SessionMessage::EnableDebugMode,
            SessionMessage::Close => SessionMessage::Close,
            SessionMessage::CompactContext => SessionMessage::CompactContext,
            SessionMessage::CompressAction(a) => SessionMessage::CompressAction(*a),
            SessionMessage::UpdateEmbedConfig {
                embed_endpoint,
                embed_model_id,
                embed_dimension,
            } => SessionMessage::UpdateEmbedConfig {
                embed_endpoint: embed_endpoint.clone(),
                embed_model_id: embed_model_id.clone(),
                embed_dimension: *embed_dimension,
            },
            SessionMessage::DisableEmbedConfig => SessionMessage::DisableEmbedConfig,
            SessionMessage::SystemNotification { content } => SessionMessage::SystemNotification {
                content: content.clone(),
            },
        }
    }
}

// ── Debug text ──────────────────────────────────────────────────────────

/// A truth value in words.
pub open spec fn bool_text(b: bool) -> Seq<char> {
    if b {
        "true"@
    } else {
        "false"@
    }
}

/// An optional number in words.
pub open spec fn option_number_text(n: Option<int>) -> Seq<char> {
    match n {
        Some(n) => "Some("@ + decimal_spec(n as nat) + ")"@,
        None => "None"@,
    }
}

/// An optional text in words.
pub open spec fn option_str_text(s: Option<Seq<char>>) -> Seq<char> {
    match s {
        Some(s) => "Some("@ + debug_str_text(s) + ")"@,
        None => "None"@,
    }
}

/// How many of the first `n` flags are on.
pub open spec fn enabled_count(entries: Seq<ToolFlagView>, n: int) -> int
    decreases n,
{
    if n <= 0 {
        0
    } else if entries[n - 1].enabled {
        enabled_count(entries, n - 1) + 1
    } else {
        enabled_count(entries, n - 1)
    }
}

/// The first characters of a text, at most `n`.
pub open spec fn first_chars(s: Seq<char>, n: int) -> Seq<char> {
    if s.len() <= n {
        s
    } else {
        s.take(n)
    }
}

impl MessageView {
    /// The message as it is logged: what it is, and no more of its contents
    /// than is needed to follow it. `temperature` is a pushed temperature in
    /// words.
    pub open spec fn debug(self, temperature: Seq<char>) -> Seq<char> {
        match self {
            MessageView::ChatMessage {
                content,
                message_id,
                skill_instructions,
                attached_items,
                content_parts,
            } => {
                "ChatMessage { content: "@ + debug_str_text(first_chars(content, 64))
                    + ", message_id: "@ + debug_str_text(message_id) + ", has_skill: "@ + bool_text(
                    skill_instructions is Some,
                ) + ", attached_count: "@ + decimal_spec(
                    match attached_items {
                        Some(items) => items.len(),
                        None => 0,
                    },
                ) + ", has_content_parts: "@ + bool_text(content_parts is Some) + " }"@
            },
            MessageView::ContinueExecution => "ContinueExecution"@,
            MessageView::UpdateRuntimeConfig(o) => {
                "UpdateRuntimeConfig { max_output_tokens: "@ + option_number_text(
                    match o.max_output_tokens {
                        Some(n) => Some(n as int),
                        None => None,
                    },
                ) + ", max_iterations: "@ + option_number_text(
                    match o.max_iterations {
                        Some(n) => Some(n as int),
                        None => None,
                    },
                ) + ", temperature: "@ + temperature + ", context_window: "@ + option_number_text(
                    match o.context_window {
                        Some(n) => Some(n as int),
                        None => None,
                    },
                ) + ", has_system_prompt: "@ + bool_text(o.system_prompt_override is Some)
                    + ", shell_approval_threshold: "@ + option_str_text(o.shell_approval_threshold)
                    + ", approval_timeout_secs: "@ + option_number_text(
                    match o.approval_timeout_secs {
                        Some(n) => Some(n as int),
                        None => None,
                    },
                ) + " }"@
            },
            MessageView::UpdateWorkspaceContext { context_text } => {
                "UpdateWorkspaceContext { len: "@ + decimal_spec(utf8_len(context_text)) + " }"@
            },
            MessageView::UpdateMcpTools { mcp_tools } => {
                "UpdateMcpTools { mcp_tool_count: "@ + decimal_spec(
                    match mcp_tools {
                        Some(tools) => tools.len(),
                        None => 0,
                    },
                ) + " }"@
            },
            MessageView::UpdateBuiltinTools { entries } => {
                "UpdateBuiltinTools { entry_count: "@ + decimal_spec(entries.len())
                    + ", enabled_count: "@ + decimal_spec(
                    enabled_count(entries, entries.len() as int) as nat,
                ) + " }"@
            },
            MessageView::AddDynamicBuiltinTool { entry } => {
                "AddDynamicBuiltinTool { name: "@ + debug_str_text(entry.tool.name) + ", enabled: "@
                    + bool_text(entry.enabled) + " }"@
            },
            MessageView::RemoveDynamicBuiltinTool { name } => {
                "RemoveDynamicBuiltinTool { name: "@ + debug_str_text(name) + " }"@
            },
            MessageView::UpdateSessionTitle { title } => {
                "UpdateSessionTitle { title: "@ + debug_str_text(title) + " }"@
            },
            MessageView::SetWorkDir { path } => {
                "SetWorkDir { path: "@ + debug_str_text(path) + " }"@
            },
            MessageView::SetWorkspacePromptFile { content } => {
                "SetWorkspacePromptFile { has_content: "@ + bool_text(content is Some)
                    + ", content_len: "@ + option_number_text(
                    match content {
                        Some(c) => Some(utf8_len(c) as int),
                        None => None,
                    },
                ) + " }"@
            },
            MessageView::UpdateIdentityContext { identity_context } => {
                "UpdateIdentityContext { has_identity: "@ + bool_text(identity_context is Some)
                    + " }"@
            },
            MessageView::ProviderListUpdated => "ProviderListUpdated"@,
            MessageView::Stop { reason } => "Stop { reason: "@ + debug_str_text(reason) + " }"@,
            MessageView::EnableDebugMode => "EnableDebugMode"@,
            MessageView::Close => "Close"@,
            MessageView::CompactContext => "CompactContext"@,
            MessageView::CompressAction(a) => {
                "CompressAction("@ + debug_str_text(
                    match a {
                        CompressionAction::CompressToolResults => "CompressToolResults"@,
                        CompressionAction::CompressSummary => "CompressSummary"@,
                    },
                ) + ")"@
            },
            MessageView::UpdateEmbedConfig {
                embed_endpoint,
                embed_model_id,
                embed_dimension,
            } => {
                "UpdateEmbedConfig { embed_endpoint: "@ + debug_str_text(embed_endpoint)
                    + ", embed_model_id: "@ + debug_str_text(embed_model_id)
                    + ", embed_dimension: "@ + decimal_spec(embed_dimension as nat) + " }"@
            },
            MessageView::DisableEmbedConfig => "DisableEmbedConfig"@,
            MessageView::SystemNotification { content } => {
                "SystemNotification { len: "@ + decimal_spec(utf8_len(content)) + " }"@
            },
        }
    }
}

fn bool_str(b: bool) -> (r: String)
    ensures
        r@ == bool_text(b),
{
    if b {
        "true".to_owned()
    } else {
        "false".to_owned()
    }
}

fn option_number(n: Option<u128>) -> (r: String)
    ensures
        r@ == option_number_text(
            match n {
                Some(n) => Some(n as int),
                None => None,
            },
        ),
{
    match n {
        Some(n) => crate::text::join3("Some(", decimal_wide(n).as_str(), ")"),
        None => "None".to_owned(),
    }
}

fn option_str(s: &Option<String>) -> (r: String)
    ensures
        r@ == option_str_text(s.deep_view()),
{
    match s {
        Some(s) => crate::text::join3("Some(", debug_str(s.as_str()).as_str(), ")"),
        None => "None".to_owned(),
    }
}

fn text_bytes(s: &str) -> (r: u128)
    ensures
        r == utf8_len(s@),
{
    let chars = chars_of(s);
    assert(chars@.take(chars.len() as int) =~= chars@);
    byte_len(&chars, chars.len())
}

fn start_of(s: &str) -> (r: String)
    ensures
        r@ == first_chars(s@, 64),
{
    let chars = chars_of(s);
    let n: usize = if chars.len() <= 64 {
        chars.len()
    } else {
        64
    };
    assert(chars@.subrange(0, n as int) =~= first_chars(s@, 64));
    string_of(&chars, 0, n)
}

fn count_enabled(entries: &Vec<AgentToolEntry>) -> (r: usize)
    ensures
        r == enabled_count(entries.deep_view(), entries.len() as int),
{
    let ghost views = entries.deep_view();
    let mut r: usize = 0;
    let mut i: usize = 0;
    while i < entries.len()
        invariant
            i <= entries.len(),
            r <= i,
            views == entries.deep_view(),
            r == enabled_count(views, i as int),
        decreases entries.len() - i,
    {
        assert(views[i as int] == entries@[i as int].deep_view());
        if entries[i].enabled {
            r = r + 1;
        }
        i = i + 1;
    }
    r
}

fn list_len<T: DeepView>(list: &Option<Vec<T>>) -> (r: u64)
    ensures
        r == (match list.deep_view() {
            Some(l) => l.len(),
            None => 0,
        }),
{
    match list {
        Some(l) => l.len() as u64,
        None => 0,
    }
}

impl SessionMessage {
    /// The message as it is logged. `temperature` is a pushed temperature in
    /// words.
    pub fn debug_text(&self, temperature: &str) -> (r: String)
        ensures
            r@ == self.deep_view().debug(temperature@),
    {
        match self {
            SessionMessage::ChatMessage {
                content,
                message_id,
                skill_instructions,
                attached_items,
                content_parts,
            } => {
                let mut s = "ChatMessage { content: ".to_owned();
                s.append(debug_str(start_of(content.as_str()).as_str()).as_str());
                s.append(", message_id: ");
                s.append(debug_str(message_id.as_str()).as_str());
                s.append(", has_skill: ");
                s.append(bool_str(skill_instructions.is_some()).as_str());
                s.append(", attached_count: ");
                s.append(decimal(list_len(attached_items)).as_str());
                s.append(", has_content_parts: ");
                s.append(bool_str(content_parts.is_some()).as_str());
                s.append(" }");
                s
            },
            SessionMessage::ContinueExecution => "ContinueExecution".to_owned(),
            SessionMessage::UpdateRuntimeConfig(o) => {
                let mut s = "UpdateRuntimeConfig { max_output_tokens: ".to_owned();
                s.append(
                    option_number(
                        match o.max_output_tokens {
                            Some(n) => Some(n as u128),
                            None => None,
                        },
                    ).as_str(),
                );
                s.append(", max_iterations: ");
                s.append(
                    option_number(
                        match o.max_iterations {
                            Some(n) => Some(n as u128),
                            None => None,
                        },
                    ).as_str(),
                );
                s.append(", temperature: ");
                s.append(temperature);
                s.append(", context_window: ");
                s.append(
                    option_number(
                        match o.context_window {
                            Some(n) => Some(n as u128),
                            None => None,
                        },
                    ).as_str(),
                );
                s.append(", has_system_prompt: ");
                s.append(bool_str(o.system_prompt_override.is_some()).as_str());
                s.append(", shell_approval_threshold: ");
                s.append(option_str(&o.shell_approval_threshold).as_str());
                s.append(", approval_timeout_secs: ");
                s.append(
                    option_number(
                        match o.approval_timeout_secs {
                            Some(n) => Some(n as u128),
                            None => None,
                        },
                    ).as_str(),
                );
                s.append(" }");
                s
            },
            SessionMessage::UpdateWorkspaceContext { context_text } => {
                crate::text::join3(
                    "UpdateWorkspaceContext { len: ",
                    decimal_wide(text_bytes(context_text.as_str())).as_str(),
                    " }",
                )
            },
            SessionMessage::UpdateMcpTools { mcp_tools } => {
                crate::text::join3(
                    "UpdateMcpTools { mcp_tool_count: ",
                    decimal(list_len(mcp_tools)).as_str(),
                    " }",
                )
            },
            SessionMessage::UpdateBuiltinTools { entries } => {
                assert(entries.deep_view().len() == entries.len());
                let mut s = "UpdateBuiltinTools { entry_count: ".to_owned();
                s.append(decimal(entries.len() as u64).as_str());
                s.append(", enabled_count: ");
                s.append(decimal(count_enabled(entries) as u64).as_str());
                s.append(" }");
                s
            },
            SessionMessage::AddDynamicBuiltinTool { entry } => {
                let mut s = "AddDynamicBuiltinTool { name: ".to_owned();
                s.append(debug_str(entry.tool.name.as_str()).as_str());
                s.append(", enabled: ");
                s.append(bool_str(entry.enabled).as_str());
                s.append(" }");
                s
            },
            SessionMessage::RemoveDynamicBuiltinTool { name } => {
                crate::text::join3(
                    "RemoveDynamicBuiltinTool { name: ",
                    debug_str(name.as_str()).as_str(),
                    " }",
                )
            },
            SessionMessage::UpdateSessionTitle { title } => {
                crate::text::join3(
                    "UpdateSessionTitle { title: ",
                    debug_str(title.as_str()).as_str(),
                    " }",
                )
            },
            SessionMessage::SetWorkDir { path } => {
                crate::text::join3("SetWorkDir { path: ", debug_str(path.as_str()).as_str(), " }")
            },
            SessionMessage::SetWorkspacePromptFile { content } => {
                let mut s = "SetWorkspacePromptFile { has_content: ".to_owned();
                s.append(bool_str(content.is_some()).as_str());
                s.append(", content_len: ");
                s.append(
                    option_number(
                        match content {
                            Some(c) => Some(text_bytes(c.as_str())),
                            None => None,
                        },
                    ).as_str(),
                );
                s.append(" }");
                s
            },
            SessionMessage::UpdateIdentityContext { identity_context } => {
                crate::text::join3(
                    "UpdateIdentityContext { has_identity: ",
                    bool_str(identity_context.is_some()).as_str(),
                    " }",
                )
            },
            SessionMessage::ProviderListUpdated => "ProviderListUpdated".to_owned(),
            SessionMessage::Stop { reason } => {
                crate::text::join3("Stop { reason: ", debug_str(reason.as_str()).as_str(), " }")
            },
            SessionMessage::EnableDebugMode => "EnableDebugMode".to_owned(),
            SessionMessage::Close => "Close".to_owned(),
            SessionMessage::CompactContext => "CompactContext".to_owned(),
            SessionMessage::CompressAction(a) => {
                let name = match a {
                    CompressionAction::CompressToolResults => "CompressToolResults",
                    CompressionAction::CompressSummary => "CompressSummary",
                };
                crate::text::join3("CompressAction(", debug_str(name).as_str(), ")")
            },
            SessionMessage::UpdateEmbedConfig {
                embed_endpoint,
                embed_model_id,
                embed_dimension,
            } => {
                let mut s = "UpdateEmbedConfig { embed_endpoint: ".to_owned();
                s.append(debug_str(embed_endpoint.as_str()).as_str());
                s.append(", embed_model_id: ");
                s.append(debug_str(embed_model_id.as_str()).as_str());
                s.append(", embed_dimension: ");
                s.append(decimal(*embed_dimension as u64).as_str());
                s.append(" }");
                s
            },
            SessionMessage::DisableEmbedConfig => "DisableEmbedConfig".to_owned(),
            SessionMessage::SystemNotification { content } => {
                crate::text::join3(
                    "SystemNotification { len: ",
                    decimal_wide(text_bytes(content.as_str())).as_str(),
                    " }",
                )
            },
        }
    }
}

/// A long message is shown by its first sixty-four characters, so that two which
/// begin alike are shown alike.
pub proof fn long_texts_are_shown_by_their_start(s: Seq<char>, a: Seq<char>, b: Seq<char>)
    ensures
        s.len() <= 64 ==> first_chars(s, 64) == s,
        s.len() > 64 ==> first_chars(s, 64).len() == 64 && first_chars(s, 64).is_prefix_of(s),
        s.len() >= 64 ==> first_chars(s + a, 64) == first_chars(s + b, 64),
{
    if s.len() >= 64 {
        assert(first_chars(s + a, 64) =~= s.take(64));
        assert(first_chars(s + b, 64) =~= s.take(64));
    }
}

/// The tools that a message enables are counted one by one.
pub proof fn enabled_tools_are_counted(entries: Seq<ToolFlagView>, n: int)
    requires
        0 <= n < entries.len(),
    ensures
        enabled_count(entries, 0) == 0,
        entries[n].enabled ==> enabled_count(entries, n + 1) == enabled_count(entries, n) + 1,
        !entries[n].enabled ==> enabled_count(entries, n + 1) == enabled_count(entries, n),
{
}

/// What is private in a message is not shown in the log of the host: of a
/// workspace, a prompt file, a notification and a user only how much there is.
pub proof fn private_texts_are_shown_by_their_length(a: Seq<char>, b: Seq<char>, t: Seq<char>)
    requires
        utf8_len(a) == utf8_len(b),
    ensures
        (MessageView::UpdateWorkspaceContext { context_text: a }).debug(t) == (
        MessageView::UpdateWorkspaceContext { context_text: b }).debug(t),
        (MessageView::SetWorkspacePromptFile { content: Some(a) }).debug(t) == (
        MessageView::SetWorkspacePromptFile { content: Some(b) }).debug(t),
        (MessageView::SystemNotification { content: a }).debug(t) == (
        MessageView::SystemNotification { content: b }).debug(t),
        (MessageView::UpdateIdentityContext { identity_context: Some(a) }).debug(t) == (
        MessageView::UpdateIdentityContext { identity_context: Some(b) }).debug(t),
{
}

/// Small values are shown as they are written in the language.
pub proof fn small_values_are_shown(n: int, s: Seq<char>)
    ensures
        bool_text(true) == "true"@,
        bool_text(false) == "false"@,
        option_number_text(Some(n)) == "Some("@ + decimal_spec(n as nat) + ")"@,
        option_number_text(None) == "None"@,
        option_str_text(Some(s)) == "Some("@ + debug_str_text(s) + ")"@,
        option_str_text(None) == "None"@,
{
}

/// The signals are shown by their names.
pub proof fn signals_are_shown_by_name(t: Seq<char>, reason: Seq<char>)
    ensures
        MessageView::ContinueExecution.debug(t) == "ContinueExecution"@,
        MessageView::ProviderListUpdated.debug(t) == "ProviderListUpdated"@,
        MessageView::EnableDebugMode.debug(t) == "EnableDebugMode"@,
        MessageView::Close.debug(t) == "Close"@,
        MessageView::CompactContext.debug(t) == "CompactContext"@,
        MessageView::DisableEmbedConfig.debug(t) == "DisableEmbedConfig"@,
        (MessageView::Stop { reason }).debug(t) == "Stop { reason: "@ + debug_str_text(reason)
            + " }"@,
        (MessageView::UpdateSessionTitle { title: reason }).debug(t)
            == "UpdateSessionTitle { title: "@ + debug_str_text(reason) + " }"@,
{
}

} // verus!
