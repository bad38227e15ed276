//! What is pushed to all sessions: settings, tools, providers, and who the
//! user is.

use vstd::prelude::*;

use crate::agent_loop::AgentCore;
use crate::attachments::{join_lines, join_with_newlines};
use crate::builtin_tools::{
    add_tool, all_flagged, apply_builtin_enabled_entries, rebuild_full_tool_specs_with_mcp,
    remove_tool, specs_with_mcp, with_tool, without_tool, AgentToolEntry, BuiltinToolEntry,
    ToolDef,
};
use crate::error::RuntimeError;
use crate::json::Json;
use crate::llm_effects::effort_text;
use crate::model::ProviderListItem;
use crate::overrides::RuntimeConfigOverrides;
use crate::session::ReasoningEffort;
use crate::session_config::{
    effective_effort, resolve_effective_reasoning_effort, ConfigView, SessionConfigDelta,
};
use crate::session_handle::{HandleOp, HandleOpView, HandleView};
use crate::session_manager::{
    all_done, failed_sessions, session_not_found, SessionManager, SessionManagerConfig,
};
use crate::session_message::{MessageView, SessionMessage};
use crate::str_map::StrMap;
use crate::user_profile::{format_user_profile_context, profile_lines, UserProfile};

verus! {

/// A key of a provider.
#[derive(Debug)]
pub struct KeyEntry {
    pub provider_id: String,
    pub api_key: String,
}

/// An MCP server that could not be reached.
#[derive(Debug)]
pub struct McpConnectionFailure {
    pub server_name: String,
    pub error_message: String,
}

/// A session whose effort was set.
pub open spec fn effort_set(h: HandleView, effort: Seq<char>) -> HandleView {
    h.done(
        HandleOpView::Configure(
            ConfigView { reasoning_effort: Some(effort), ..ConfigView::none() },
        ),
    )
}

/// The keys of the first `n` entries; a later one wins.
pub open spec fn vault_of(entries: Seq<KeyEntry>, n: int) -> Map<Seq<char>, String>
    decreases n,
{
    if n <= 0 {
        Map::empty()
    } else {
        vault_of(entries, n - 1).insert(entries[n - 1].provider_id@, entries[n - 1].api_key)
    }
}

/// The summary models of the first `n` providers; a later one wins.
pub open spec fn compact_models_of(list: Seq<ProviderListItem>, n: int) -> Map<
    Seq<char>,
    Option<String>,
>
    decreases n,
{
    if n <= 0 {
        Map::empty()
    } else {
        compact_models_of(list, n - 1).insert(list[n - 1].id@, list[n - 1].compact_model)
    }
}

fn make_vault(entries: &Vec<KeyEntry>) -> (r: StrMap<String>)
    ensures
        r@ == vault_of(entries@, entries.len() as int),
{
    let mut r: StrMap<String> = StrMap::new();
    let mut i: usize = 0;
    while i < entries.len()
        invariant
            i <= entries.len(),
            r@ == vault_of(entries@, i as int),
        decreases entries.len() - i,
    {
        let _ = r.insert(entries[i].provider_id.clone(), entries[i].api_key.clone());
        i = i + 1;
    }
    r
}

fn make_compact_models(list: &Vec<ProviderListItem>) -> (r: StrMap<Option<String>>)
    ensures
        r@ == compact_models_of(list@, list.len() as int),
{
    let mut r: StrMap<Option<String>> = StrMap::new();
    let mut i: usize = 0;
    while i < list.len()
        invariant
            i <= list.len(),
            r@ == compact_models_of(list@, i as int),
        decreases list.len() - i,
    {
        let _ = r.insert(list[i].id.clone(), list[i].compact_model.clone());
        i = i + 1;
    }
    r
}

/// The lines for the first `n` servers that could not be reached.
pub open spec fn failure_lines(failures: Seq<McpConnectionFailure>, n: int) -> Seq<Seq<char>>
    decreases n,
{
    if n <= 0 {
        Seq::empty()
    } else {
        failure_lines(failures, n - 1).push(
            "- Server \""@ + failures[n - 1].server_name@ + "\": "@ + failures[n
                - 1].error_message@,
        )
    }
}

/// What the model is told of servers that could not be reached.
pub open spec fn failure_notification(failures: Seq<McpConnectionFailure>) -> Seq<char> {
    "MCP server connection failed:\n"@ + join_lines(failure_lines(failures, failures.len() as int))
        + "\n\nYou are an AI agent. If any of the above MCP servers require dependencies that need to be installed, use your shell tools to install them. After installation, ask the user to re-enable the MCP server."@
}

fn make_notification(failures: &Vec<McpConnectionFailure>) -> (r: String)
    ensures
        r@ == failure_notification(failures@),
{
    let mut lines: Vec<String> = Vec::new();
    let mut i: usize = 0;
    assert(lines.deep_view() =~= Seq::empty());
    while i < failures.len()
        invariant
            i <= failures.len(),
            lines.deep_view() == failure_lines(failures@, i as int),
        decreases failures.len() - i,
    {
        let ghost before = lines.deep_view();
        let mut s = "- Server \"".to_owned();
        s.append(failures[i].server_name.as_str());
        s.append("\": ");
        s.append(failures[i].error_message.as_str());
        let ghost line = s@;
        lines.push(s);
        assert(lines.deep_view() =~= before.push(line));
        i = i + 1;
    }
    let mut s = "MCP server connection failed:\n".to_owned();
    s.append(join_with_newlines(&lines).as_str());
    s.append(
        "\n\nYou are an AI agent. If any of the above MCP servers require dependencies that need to be installed, use your shell tools to install them. After installation, ask the user to re-enable the MCP server.",
    );
    s
}

impl SessionManager {
    /// All sessions after pushed settings: each is told in its inbox and past
    /// it, and a temperature is persisted.
    pub open spec fn overrides_pushed(
        handles: Map<Seq<char>, HandleView>,
        overrides: RuntimeConfigOverrides,
    ) -> Map<Seq<char>, HandleView> {
        let o = overrides.deep_view();
        let told = all_done(
            all_done(handles, HandleOpView::Send(MessageView::UpdateRuntimeConfig(o))),
            HandleOpView::SendFast(o),
        );
        if o.temperature is Some {
            all_done(
                told,
                HandleOpView::Configure(
                    ConfigView { temperature: o.temperature, ..ConfigView::none() },
                ),
            )
        } else {
            told
        }
    }

    /// The manager once settings were pushed to it.
    pub open spec fn overrides_applied(
        before: SessionManager,
        after: SessionManager,
        overrides: RuntimeConfigOverrides,
    ) -> bool {
        &&& after.runtime_overrides.deep_view() == before.runtime_overrides.deep_view().merged(
            overrides.deep_view(),
        )
        &&& after.core.overrides.deep_view() == before.core.overrides.deep_view().merged(
            overrides.deep_view(),
        )
        &&& after.core.builtin_tools.deep_view() == AgentCore::synced_tools(
            before.core.builtin_tools.deep_view(),
            before.core.platform_tools.deep_view(),
            overrides.tool_compression_enabled,
        )
        &&& after.handles() == Self::overrides_pushed(before.handles(), overrides)
    }

    /// Apply a runtime config override: it is kept for sessions to come, put
    /// on the template, and sent to every session. A temperature is persisted
    /// with every session. The sessions whose inbox did not take it come back.
    pub fn apply_runtime_config_override(&mut self, overrides: &RuntimeConfigOverrides) -> (failed:
        Vec<String>)
        ensures
            old(self).books_agree() ==> final(self).books_agree(),
            Self::overrides_applied(*old(self), *final(self), *overrides),
            failed_sessions(
                old(self).handles(),
                HandleOpView::Send(MessageView::UpdateRuntimeConfig(overrides.deep_view())),
                failed.deep_view(),
            ),
            *final(self) == (SessionManager {
                runtime_overrides: final(self).runtime_overrides,
                core: AgentCore {
                    overrides: final(self).core.overrides,
                    builtin_tools: final(self).core.builtin_tools,
                    ..old(self).core
                },
                sessions: final(self).sessions,
                ..*old(self)
            }),
    {
        self.runtime_overrides.merge(overrides);
        self.core.apply_runtime_config(overrides);
        let failed = self.broadcast(&SessionMessage::UpdateRuntimeConfig(overrides.clone()));
        let _ = self.for_all(&HandleOp::SendFast(overrides));
        if overrides.temperature.is_some() {
            let delta = SessionConfigDelta {
                temperature: overrides.temperature,
                ..SessionConfigDelta::default()
            };
            let _ = self.for_all(&HandleOp::Configure(&delta));
        }
        failed
    }

    /// All sessions after the MCP tools changed.
    pub open spec fn mcp_pushed(
        handles: Map<Seq<char>, HandleView>,
        tools: Option<Vec<ToolDef>>,
        failures: Seq<McpConnectionFailure>,
    ) -> Map<Seq<char>, HandleView> {
        let told = all_done(
            handles,
            HandleOpView::Send(MessageView::UpdateMcpTools { mcp_tools: tools.deep_view() }),
        );
        if failures.len() > 0 {
            all_done(
                told,
                HandleOpView::Send(
                    MessageView::SystemNotification { content: failure_notification(failures) },
                ),
            )
        } else {
            told
        }
    }

    /// The manager after the MCP tools changed.
    pub open spec fn mcp_applied(
        before: SessionManager,
        after: SessionManager,
        tools: Option<Vec<ToolDef>>,
        failures: Seq<McpConnectionFailure>,
    ) -> bool {
        &&& after.mcp_tools.deep_view() == tools.deep_view()
        &&& after.config.full_tool_specs.deep_view() == specs_with_mcp(
            before.config.full_tool_specs.deep_view(),
            tools.deep_view(),
        )
        &&& after.handles() == Self::mcp_pushed(before.handles(), tools, failures)
        &&& after == (SessionManager {
            mcp_tools: after.mcp_tools,
            config: SessionManagerConfig {
                full_tool_specs: after.config.full_tool_specs,
                ..before.config
            },
            sessions: after.sessions,
            ..before
        })
    }

    fn set_mcp_tools(&mut self, tools: Option<Vec<ToolDef>>, failures: &Vec<McpConnectionFailure>)
        ensures
            old(self).books_agree() ==> final(self).books_agree(),
            Self::mcp_applied(*old(self), *final(self), tools, failures@),
    {
        let copy = match &tools {
            Some(list) => {
                let copy = list.clone();
                assert(copy.deep_view() =~= list.deep_view());
                Some(copy)
            },
            None => None,
        };
        let _ = self.broadcast(&SessionMessage::UpdateMcpTools { mcp_tools: copy });
        rebuild_full_tool_specs_with_mcp(&mut self.config.full_tool_specs, &tools);
        self.mcp_tools = tools;
        if !failures.is_empty() {
            let content = make_notification(failures);
            let _ = self.broadcast(&SessionMessage::SystemNotification { content });
        }
    }

    /// Apply the tools of MCP servers that were connected in the background,
    /// and tell the model of those that could not be reached.
    pub fn apply_mcp_connection_result(
        &mut self,
        tools: Vec<ToolDef>,
        failures: &Vec<McpConnectionFailure>,
    )
        ensures
            old(self).books_agree() ==> final(self).books_agree(),
            Self::mcp_applied(*old(self), *final(self), Some(tools), failures@),
    {
        self.set_mcp_tools(Some(tools), failures);
    }

    /// Apply a change of the MCP servers: `None` where all were disconnected,
    /// else the tools of those that were connected and those that could not be
    /// reached.
    pub fn apply_mcp_servers(
        &mut self,
        connected: Option<(Vec<ToolDef>, Vec<McpConnectionFailure>)>,
    )
        ensures
            old(self).books_agree() ==> final(self).books_agree(),
            match connected {
                Some((tools, failures)) => Self::mcp_applied(
                    *old(self),
                    *final(self),
                    Some(tools),
                    failures@,
                ),
                None => Self::mcp_applied(*old(self), *final(self), None, Seq::empty()),
            },
    {
        match connected {
            Some((tools, failures)) => self.set_mcp_tools(Some(tools), &failures),
            None => {
                let none: Vec<McpConnectionFailure> = Vec::new();
                assert(none@ =~= Seq::empty());
                self.set_mcp_tools(None, &none);
            },
        }
    }

    /// Switch tools on and off as the user wishes: on the template, so that
    /// sessions to come see it, and in every session.
    pub fn apply_builtin_tools_enabled(&mut self, entries: &Vec<AgentToolEntry>)
        ensures
            old(self).books_agree() ==> final(self).books_agree(),
            final(self).core.builtin_tools.deep_view() == all_flagged(
                old(self).core.builtin_tools.deep_view(),
                entries.deep_view(),
            ),
            final(self).handles() == all_done(
                old(self).handles(),
                HandleOpView::Send(
                    MessageView::UpdateBuiltinTools { entries: entries.deep_view() },
                ),
            ),
            *final(self) == (SessionManager {
                core: AgentCore {
                    builtin_tools: final(self).core.builtin_tools,
                    ..old(self).core
                },
                sessions: final(self).sessions,
                ..*old(self)
            }),
    {
        apply_builtin_enabled_entries(&mut self.core.builtin_tools, entries);
        let copy = entries.clone();
        assert(copy.deep_view() =~= entries.deep_view());
        let _ = self.broadcast(&SessionMessage::UpdateBuiltinTools { entries: copy });
    }

    /// Register a tool that a sidecar offers, in the place of an earlier one
    /// of its name. Sessions to come inherit it, and every session is told.
    pub fn register_dynamic_tool(&mut self, entry: BuiltinToolEntry)
        ensures
            old(self).books_agree() ==> final(self).books_agree(),
            final(self).dynamic_builtin_tools.deep_view() == with_tool(
                old(self).dynamic_builtin_tools.deep_view(),
                entry.deep_view(),
            ),
            final(self).handles() == all_done(
                old(self).handles(),
                HandleOpView::Send(
                    MessageView::AddDynamicBuiltinTool { entry: entry.deep_view() },
                ),
            ),
            *final(self) == (SessionManager {
                dynamic_builtin_tools: final(self).dynamic_builtin_tools,
                sessions: final(self).sessions,
                ..*old(self)
            }),
    {
        let copy = entry.clone();
        let _ = add_tool(&mut self.dynamic_builtin_tools, entry);
        let _ = self.broadcast(&SessionMessage::AddDynamicBuiltinTool { entry: copy });
    }

    /// Unregister a sidecar's tool by name. Removing one that is not there
    /// still tells every session.
    pub fn unregister_dynamic_tool(&mut self, name: &str)
        ensures
            old(self).books_agree() ==> final(self).books_agree(),
            final(self).dynamic_builtin_tools.deep_view() == without_tool(
                old(self).dynamic_builtin_tools.deep_view(),
                name@,
            ),
            final(self).handles() == all_done(
                old(self).handles(),
                HandleOpView::Send(MessageView::RemoveDynamicBuiltinTool { name: name@ }),
            ),
            *final(self) == (SessionManager {
                dynamic_builtin_tools: final(self).dynamic_builtin_tools,
                sessions: final(self).sessions,
                ..*old(self)
            }),
    {
        let _ = remove_tool(&mut self.dynamic_builtin_tools, name);
        let _ = self.broadcast(
            &SessionMessage::RemoveDynamicBuiltinTool { name: name.to_owned() },
        );
    }

    /// The names of the sidecars' tools, and whether each is enabled.
    pub fn dynamic_builtin_tool_names(&self) -> (r: Vec<(String, bool)>)
        ensures
            r.len() == self.dynamic_builtin_tools.len(),
            forall|i: int|
                0 <= i < r.len() ==> (#[trigger] r@[i]).0@
                    == self.dynamic_builtin_tools.deep_view()[i].tool.name && r@[i].1
                    == self.dynamic_builtin_tools.deep_view()[i].enabled,
    {
        let mut r: Vec<(String, bool)> = Vec::new();
        let mut i: usize = 0;
        while i < self.dynamic_builtin_tools.len()
            invariant
                i <= self.dynamic_builtin_tools.len(),
                r.len() == i,
                forall|k: int|
                    0 <= k < i ==> (#[trigger] r@[k]).0@
                        == self.dynamic_builtin_tools.deep_view()[k].tool.name && r@[k].1
                        == self.dynamic_builtin_tools.deep_view()[k].enabled,
            decreases self.dynamic_builtin_tools.len() - i,
        {
            assert(self.dynamic_builtin_tools.deep_view()[i as int]
                == self.dynamic_builtin_tools@[i as int].deep_view());
            r.push(
                (
                    self.dynamic_builtin_tools[i].tool.name.clone(),
                    self.dynamic_builtin_tools[i].enabled,
                ),
            );
            i = i + 1;
        }
        r
    }

    /// The manager once a new list of providers came in. Where the core is shared,
    /// the models for summaries and the version stay as they were.
    pub open spec fn providers_listed(
        before: SessionManager,
        after: SessionManager,
        list: Vec<ProviderListItem>,
        version: u64,
        keys: Seq<KeyEntry>,
        core_is_shared: bool,
    ) -> bool {
        &&& if core_is_shared {
            &&& after.core.provider_compact_models == before.core.provider_compact_models
            &&& after.core.provider_list_version == before.core.provider_list_version
        } else {
            &&& after.core.provider_compact_models@ == compact_models_of(list@, list.len() as int)
            &&& after.core.provider_list_version == version
        }
        &&& after.core.provider_key_vault@ == vault_of(keys, keys.len() as int)
        &&& after.handles() == all_done(
            before.handles(),
            HandleOpView::Send(MessageView::ProviderListUpdated),
        )
        &&& after == (SessionManager {
            core: AgentCore {
                global_provider_list: list,
                provider_list_version: after.core.provider_list_version,
                provider_compact_models: after.core.provider_compact_models,
                provider_key_vault: after.core.provider_key_vault,
                ..before.core
            },
            sessions: after.sessions,
            ..before
        })
    }

    /// Update the global provider list and the keys, and tell every session.
    /// The version and the summary models are updated too, but for a core that
    /// others hold as well (`core_is_shared`).
    pub fn update_global_provider_list(
        &mut self,
        provider_list: Vec<ProviderListItem>,
        provider_list_version: u64,
        provider_key_vault: &Vec<KeyEntry>,
        core_is_shared: bool,
    )
        ensures
            old(self).books_agree() ==> final(self).books_agree(),
            Self::providers_listed(
                *old(self),
                *final(self),
                provider_list,
                provider_list_version,
                provider_key_vault@,
                core_is_shared,
            ),
    {
        if !core_is_shared {
            self.core.provider_compact_models = make_compact_models(&provider_list);
            self.core.provider_list_version = provider_list_version;
        }
        self.core.global_provider_list = provider_list;
        self.core.provider_key_vault = make_vault(provider_key_vault);
        let _ = self.broadcast(&SessionMessage::ProviderListUpdated);
    }

    /// Update the search providers and their keys.
    pub fn update_search_config(
        &mut self,
        search_key_vault: &Vec<KeyEntry>,
        search_list: Vec<Json>,
    )
        ensures
            old(self).books_agree() ==> final(self).books_agree(),
            final(self).core.search_key_vault@ == vault_of(
                search_key_vault@,
                search_key_vault.len() as int,
            ),
            *final(self) == (SessionManager {
                core: AgentCore {
                    search_provider_list: search_list,
                    search_key_vault: final(self).core.search_key_vault,
                    ..old(self).core
                },
                ..*old(self)
            }),
    {
        self.core.search_key_vault = make_vault(search_key_vault);
        self.core.search_provider_list = search_list;
    }

    /// The manager once it was told who the user is, or that nobody is known.
    pub open spec fn user_introduced(
        before: SessionManager,
        after: SessionManager,
        identity: Option<Seq<char>>,
    ) -> bool {
        &&& after.config.identity_context.deep_view() == identity
        &&& after.handles() == all_done(
            before.handles(),
            HandleOpView::Send(MessageView::UpdateIdentityContext { identity_context: identity }),
        )
    }

    /// Update who the user is, and tell every session.
    pub fn update_user_identity(&mut self, profile: Option<&UserProfile>)
        ensures
            old(self).books_agree() ==> final(self).books_agree(),
            Self::user_introduced(
                *old(self),
                *final(self),
                match profile {
                    Some(p) => Some(join_lines(profile_lines(*p))),
                    None => None,
                },
            ),
            *final(self) == (SessionManager {
                config: SessionManagerConfig {
                    identity_context: final(self).config.identity_context,
                    ..old(self).config
                },
                sessions: final(self).sessions,
                ..*old(self)
            }),
    {
        let identity_context = match profile {
            Some(p) => Some(format_user_profile_context(p)),
            None => None,
        };
        self.config.identity_context = identity_context.clone();
        let _ = self.broadcast(&SessionMessage::UpdateIdentityContext { identity_context });
    }

    /// Another embedding model is served: tell every session.
    pub fn handle_embedding_config_update(
        &mut self,
        embed_endpoint: String,
        embed_model_id: String,
        embed_dimension: usize,
    )
        ensures
            old(self).books_agree() ==> final(self).books_agree(),
            final(self).handles() == all_done(
                old(self).handles(),
                HandleOpView::Send(
                    MessageView::UpdateEmbedConfig {
                        embed_endpoint: embed_endpoint@,
                        embed_model_id: embed_model_id@,
                        embed_dimension: embed_dimension as int,
                    },
                ),
            ),
            *final(self) == (SessionManager { sessions: final(self).sessions, ..*old(self) }),
    {
        let _ = self.broadcast(
            &SessionMessage::UpdateEmbedConfig { embed_endpoint, embed_model_id, embed_dimension },
        );
    }

    /// No embedding model is served: tell every session.
    pub fn clear_embedding_config(&mut self)
        ensures
            old(self).books_agree() ==> final(self).books_agree(),
            final(self).handles() == all_done(
                old(self).handles(),
                HandleOpView::Send(MessageView::DisableEmbedConfig),
            ),
            *final(self) == (SessionManager { sessions: final(self).sessions, ..*old(self) }),
    {
        let _ = self.broadcast(&SessionMessage::DisableEmbedConfig);
    }

    // ── One session ─────────────────────────────────────────────────────

    /// A session after a switch of its model: the effort is the new model's
    /// default, and model and effort are published as one change.
    pub open spec fn model_switched(
        h: HandleView,
        effort: Option<Seq<char>>,
        model: Seq<char>,
        provider: Option<Seq<char>>,
    ) -> HandleView {
        HandleView {
            conversation: match h.conversation {
                Some(c) => Some(
                    (crate::conversation::ConversationView {
                        config: ConfigView { reasoning_effort: effort, ..c.config },
                        ..c
                    }).configured(ConfigView { model: Some(model), provider, ..ConfigView::none() }),
                ),
                None => None,
            },
            ..h
        }
    }

    /// The sessions once a setting went to one of them, which is `changed` by it.
    pub open spec fn session_routed(
        before: SessionManager,
        after: SessionManager,
        session_id: Seq<char>,
        changed: HandleView,
        r: Result<(), RuntimeError>,
    ) -> bool {
        if before.handles().contains_key(session_id) {
            &&& r is Ok
            &&& after.handles() == before.handles().insert(session_id, changed)
        } else {
            &&& r matches Err(RuntimeError::Config(text)) && text@ == session_not_found(session_id)
            &&& after == before
        }
    }

    /// Route a model switch to a session. The user's choice of an effort is
    /// cleared: the new model's default holds, as `default_effort` gives it.
    pub fn route_model_switch(
        &mut self,
        session_id: &str,
        model: String,
        provider: Option<String>,
        default_effort: Option<ReasoningEffort>,
    ) -> (r: Result<(), RuntimeError>)
        ensures
            old(self).books_agree() ==> final(self).books_agree(),
            Self::session_routed(
                *old(self),
                *final(self),
                session_id@,
                Self::model_switched(
                    old(self).handles()[session_id@],
                    effort_text(
                        effective_effort(
                            old(self).core.caps(model@),
                            default_effort.deep_view(),
                            None,
                        ),
                    ),
                    model@,
                    provider.deep_view(),
                ),
                r,
            ),
            *final(self) == (SessionManager { sessions: final(self).sessions, ..*old(self) }),
    {
        if !self.sessions.contains_key(session_id) {
            return Err(
                RuntimeError::Config(crate::text::join2("Session not found: ", session_id)),
            );
        }
        let effort = resolve_effective_reasoning_effort(
            self.core.get_model_capabilities(model.as_str()),
            default_effort,
            None,
        );
        let text = match &effort {
            Some(e) => Some(e.to_text()),
            None => None,
        };
        match self.sessions.remove(session_id) {
            Some(mut handle) => {
                match handle.conversation.take() {
                    Some(mut conversation) => {
                        conversation.set_reasoning_effort_raw(text);
                        conversation.apply_config(
                            SessionConfigDelta {
                                model: Some(model),
                                provider,
                                ..SessionConfigDelta::default()
                            },
                        );
                        handle.conversation = Some(conversation);
                    },
                    None => {},
                }
                let _ = self.sessions.insert(session_id.to_owned(), handle);
                assert(self.handles() =~= old(self).handles().insert(
                    session_id@,
                    handle.deep_view(),
                ));
            },
            None => {},
        }
        Ok(())
    }

    /// Route a reasoning effort to a session.
    pub fn route_reasoning_effort(&mut self, session_id: &str, effort: String) -> (r: Result<
        (),
        RuntimeError,
    >)
        ensures
            old(self).books_agree() ==> final(self).books_agree(),
            Self::session_routed(
                *old(self),
                *final(self),
                session_id@,
                effort_set(old(self).handles()[session_id@], effort@),
                r,
            ),
            *final(self) == (SessionManager { sessions: final(self).sessions, ..*old(self) }),
    {
        if !self.sessions.contains_key(session_id) {
            return Err(
                RuntimeError::Config(crate::text::join2("Session not found: ", session_id)),
            );
        }
        let delta = SessionConfigDelta {
            reasoning_effort: Some(effort),
            ..SessionConfigDelta::default()
        };
        match self.sessions.remove(session_id) {
            Some(mut handle) => {
                let _ = handle.apply(&HandleOp::Configure(&delta));
                let _ = self.sessions.insert(session_id.to_owned(), handle);
                assert(self.handles() =~= old(self).handles().insert(
                    session_id@,
                    handle.deep_view(),
                ));
            },
            None => {},
        }
        Ok(())
    }

    /// The name of the first provider, or nothing.
    pub fn provider_name(&self) -> (r: String)
        ensures
            r@ == (if self.core.global_provider_list.len() > 0 {
                self.core.global_provider_list@[0].id@
            } else {
                Seq::empty()
            }),
    {
        if self.core.global_provider_list.len() > 0 {
            self.core.global_provider_list[0].id.clone()
        } else {
            let none = String::new();
            assert(none@ =~= Seq::empty());
            none
        }
    }

    // ── Debugger ────────────────────────────────────────────────────────

    /// The manager once the debugger was asked for; `started` where it was not
    /// there before.
    pub open spec fn debugging_enabled(
        before: SessionManager,
        after: SessionManager,
        started: bool,
    ) -> bool {
        &&& started == !before.debug_enabled
        &&& !started ==> after == before
        &&& started ==> {
            &&& after.debug_enabled
            &&& after.handles() == all_done(before.handles(), HandleOpView::EnableDebug)
            &&& forall|k: Seq<char>| #[trigger]
                after.debug_controllers@.contains_key(k)
                    <==> before.debug_controllers@.contains_key(k)
                    || before.handles().contains_key(k)
        }
    }

    /// Switch the debugger on: every session gets to know it, now or when its
    /// turn allows, and the debugger every session. Nothing where it is on.
    pub fn enable_debug_mode(&mut self) -> (started: bool)
        ensures
            old(self).books_agree() ==> final(self).books_agree(),
            Self::debugging_enabled(*old(self), *final(self), started),
            *final(self) == (SessionManager {
                debug_enabled: final(self).debug_enabled,
                debug_controllers: final(self).debug_controllers,
                sessions: final(self).sessions,
                ..*old(self)
            }),
    {
        if self.debug_enabled {
            return false;
        }
        self.debug_enabled = true;
        let keys = self.active_sessions();
        let ghost ids = keys.deep_view();
        let mut i: usize = 0;
        assert(ids.len() == keys.len());
        assert(self.handles() == old(self).handles());
        assert forall|k: Seq<char>| #[trigger] ids.contains(k)
            == old(self).handles().contains_key(k) by {
            assert(self.handles().contains_key(k) == ids.contains(k));
        }
        while i < keys.len()
            invariant
                i <= keys.len(),
                ids == keys.deep_view(),
                ids.len() == keys.len(),
                forall|k: Seq<char>| #[trigger]
                    ids.contains(k) == old(self).handles().contains_key(k),
                forall|k: Seq<char>| #[trigger]
                    self.debug_controllers@.contains_key(k) <==> old(
                        self,
                    ).debug_controllers@.contains_key(k) || exists|j: int|
                        0 <= j < i && #[trigger] ids[j] == k,
                *self == (SessionManager {
                    debug_enabled: true,
                    debug_controllers: self.debug_controllers,
                    ..*old(self)
                }),
            decreases keys.len() - i,
        {
            let ghost known = self.debug_controllers@;
            assert(ids[i as int] == keys@[i as int]@);
            let _ = self.debug_controllers.insert(keys[i].clone(), ());
            proof {
                assert forall|k: Seq<char>| #[trigger]
                    self.debug_controllers@.contains_key(k) <==> old(
                        self,
                    ).debug_controllers@.contains_key(k) || exists|j: int|
                        0 <= j < i + 1 && #[trigger] ids[j] == k by {
                    if k == ids[i as int] {
                        assert(ids[i as int] == k);
                    } else {
                        assert(self.debug_controllers@.contains_key(k) == known.contains_key(k));
                        if known.contains_key(k) && !old(self).debug_controllers@.contains_key(k) {
                            let j = choose|j: int| 0 <= j < i && #[trigger] ids[j] == k;
                            assert(ids[j] == k);
                        }
                    }
                }
            }
            i = i + 1;
        }
        proof {
            assert forall|k: Seq<char>| #[trigger]
                self.debug_controllers@.contains_key(k) <==> old(
                    self,
                ).debug_controllers@.contains_key(k) || old(self).handles().contains_key(k) by {
                assert(ids.contains(k) == old(self).handles().contains_key(k));
                if ids.contains(k) {
                    let j = choose|j: int| 0 <= j < ids.len() && ids[j] == k;
                    assert(ids[j] == k);
                }
                if exists|j: int| 0 <= j < i && #[trigger] ids[j] == k {
                    let j = choose|j: int| 0 <= j < i && #[trigger] ids[j] == k;
                    assert(ids.contains(ids[j]));
                }
            }
        }
        let _ = self.for_all(&HandleOp::EnableDebug);
        true
    }
}

// ── Laws ────────────────────────────────────────────────────────────────

/// A model switch is published once, with the new model and its effort
/// together.
pub proof fn model_switch_is_published_once(
    h: HandleView,
    effort: Option<Seq<char>>,
    model: Seq<char>,
    provider: Option<Seq<char>>,
)
    requires
        h.conversation is Some,
    ensures
        ({
            let before = h.conversation->0;
            let after = SessionManager::model_switched(h, effort, model, provider).conversation->0;
            &&& after.ops.len() == before.ops.len() + 1
            &&& after.config.model == Some(model)
            &&& after.config.reasoning_effort == effort
            &&& after.config_version == before.config_version.wrapping_add(1)
        }),
{
}

/// A push reaches sessions that exist and sessions to come: what the template
/// and the kept overrides say after it agrees on every pushed setting.
pub proof fn pushes_reach_new_sessions(
    before: SessionManager,
    after: SessionManager,
    pushed: crate::overrides::OverridesView,
)
    requires
        after.runtime_overrides.deep_view() == before.runtime_overrides.deep_view().merged(pushed),
        after.core.overrides.deep_view() == before.core.overrides.deep_view().merged(pushed),
    ensures
        after.core.overrides.deep_view().merged(after.runtime_overrides.deep_view()).merged(pushed)
            == after.core.overrides.deep_view().merged(after.runtime_overrides.deep_view()),
{
}

/// Of the keys of a provider the last one counts; a provider without one has
/// none.
pub proof fn last_key_of_a_provider_counts(entries: Seq<KeyEntry>, i: int, id: Seq<char>)
    requires
        -1 <= i < entries.len(),
        i >= 0 ==> entries[i].provider_id@ == id,
        forall|j: int| i < j < entries.len() ==> (#[trigger] entries[j]).provider_id@ != id,
    ensures
        vault_of(entries, entries.len() as int).contains_key(id) <==> i >= 0,
        i >= 0 ==> vault_of(entries, entries.len() as int)[id] == entries[i].api_key,
{
    lemma_last_key(entries, i, id, entries.len() as int);
}

proof fn lemma_last_key(entries: Seq<KeyEntry>, i: int, id: Seq<char>, n: int)
    requires
        -1 <= i < n <= entries.len() || (i == -1 && n == 0),
        i >= 0 ==> entries[i].provider_id@ == id,
        forall|j: int| i < j < n ==> (#[trigger] entries[j]).provider_id@ != id,
    ensures
        vault_of(entries, n).contains_key(id) <==> i >= 0,
        i >= 0 ==> vault_of(entries, n)[id] == entries[i].api_key,
    decreases n,
{
    if n > 0 && i < n - 1 {
        lemma_last_key(entries, i, id, n - 1);
    }
}

/// Every listed provider has its model for summaries, or none, under its id; of
/// two with one id the last counts.
pub proof fn last_provider_of_an_id_counts(list: Seq<ProviderListItem>, i: int, id: Seq<char>)
    requires
        -1 <= i < list.len(),
        i >= 0 ==> list[i].id@ == id,
        forall|j: int| i < j < list.len() ==> (#[trigger] list[j]).id@ != id,
    ensures
        compact_models_of(list, list.len() as int).contains_key(id) <==> i >= 0,
        i >= 0 ==> compact_models_of(list, list.len() as int)[id] == list[i].compact_model,
{
    lemma_last_provider(list, i, id, list.len() as int);
}

proof fn lemma_last_provider(list: Seq<ProviderListItem>, i: int, id: Seq<char>, n: int)
    requires
        -1 <= i < n <= list.len() || (i == -1 && n == 0),
        i >= 0 ==> list[i].id@ == id,
        forall|j: int| i < j < n ==> (#[trigger] list[j]).id@ != id,
    ensures
        compact_models_of(list, n).contains_key(id) <==> i >= 0,
        i >= 0 ==> compact_models_of(list, n)[id] == list[i].compact_model,
    decreases n,
{
    if n > 0 && i < n - 1 {
        lemma_last_provider(list, i, id, n - 1);
    }
}

/// A new list of providers is taken, with its keys; its version and its models
/// for summaries only where the core is not shared. Every session hears of it.
pub proof fn provider_lists_are_taken(
    before: SessionManager,
    after: SessionManager,
    list: Vec<ProviderListItem>,
    version: u64,
    keys: Seq<KeyEntry>,
    core_is_shared: bool,
    id: Seq<char>,
)
    requires
        SessionManager::providers_listed(before, after, list, version, keys, core_is_shared),
    ensures
        after.core.global_provider_list == list,
        after.core.provider_key_vault@ == vault_of(keys, keys.len() as int),
        !core_is_shared ==> after.core.provider_list_version == version
            && after.core.provider_compact_models@ == compact_models_of(list@, list.len() as int),
        core_is_shared ==> after.core.provider_list_version == before.core.provider_list_version
            && after.core.provider_compact_models == before.core.provider_compact_models,
        before.handles().contains_key(id) && before.handles()[id].link.verdict() is None
            ==> after.handles()[id].inbox == before.handles()[id].inbox.push(
            MessageView::ProviderListUpdated,
        ),
{
}

/// Every server that failed is named with what went wrong, in order, one to a
/// line.
pub proof fn failed_servers_are_named(failures: Seq<McpConnectionFailure>, n: int, i: int)
    requires
        0 <= i < n <= failures.len(),
    ensures
        failure_lines(failures, n).len() == n,
        failure_lines(failures, n)[i] == "- Server \""@ + failures[i].server_name@ + "\": "@
            + failures[i].error_message@,
    decreases n,
{
    reveal_with_fuel(failure_lines, 2);
    if i < n - 1 {
        failed_servers_are_named(failures, n - 1, i);
    } else if n > 1 {
        failed_servers_are_named(failures, n - 1, 0);
    }
}

/// The model is told of failed servers by these lines, between a heading and a
/// word on what it can do.
pub proof fn failures_are_told_by_their_lines(failures: Seq<McpConnectionFailure>)
    ensures
        failure_notification(failures) == "MCP server connection failed:\n"@ + join_lines(
            failure_lines(failures, failures.len() as int),
        )
            + "\n\nYou are an AI agent. If any of the above MCP servers require dependencies that need to be installed, use your shell tools to install them. After installation, ask the user to re-enable the MCP server."@,
{
}

/// Each session that can take it is told of pushed settings, in its inbox and
/// past it; a pushed temperature also goes into its log, and nothing else does.
pub proof fn pushed_settings_reach_every_session(
    handles: Map<Seq<char>, HandleView>,
    overrides: RuntimeConfigOverrides,
    id: Seq<char>,
)
    requires
        handles.contains_key(id),
    ensures
        ({
            let o = overrides.deep_view();
            let before = handles[id];
            let after = SessionManager::overrides_pushed(handles, overrides)[id];
            &&& SessionManager::overrides_pushed(handles, overrides).dom() == handles.dom()
            &&& before.link.verdict() is None ==> after.inbox == before.inbox.push(
                MessageView::UpdateRuntimeConfig(o),
            )
            &&& before.link.verdict() is Some ==> after.inbox == before.inbox
            &&& before.fast_link.verdict() is None ==> after.fast_inbox == before.fast_inbox.push(o)
            &&& before.fast_link.verdict() is Some ==> after.fast_inbox == before.fast_inbox
            &&& o.temperature is None ==> after.conversation == before.conversation
            &&& o.temperature is Some ==> (before.conversation matches Some(c) ==> {
                &&& after.conversation is Some
                &&& after.conversation->0.config.temperature == o.temperature
                &&& after.conversation->0.config.model == c.config.model
                &&& after.conversation->0.config.reasoning_effort == c.config.reasoning_effort
                &&& after.conversation->0.ops.len() == c.ops.len() + 1
            })
        }),
{
    assert(SessionManager::overrides_pushed(handles, overrides).dom() =~= handles.dom());
}

/// Pushed settings are kept for the sessions to come, by the manager and by the
/// core.
pub proof fn pushed_settings_are_remembered(
    before: SessionManager,
    after: SessionManager,
    overrides: RuntimeConfigOverrides,
)
    requires
        SessionManager::overrides_applied(before, after, overrides),
    ensures
        ({
            let o = overrides.deep_view();
            &&& o.temperature is Some ==> after.runtime_overrides.deep_view().temperature
                == o.temperature && after.core.overrides.deep_view().temperature == o.temperature
            &&& o.context_window is Some ==> after.runtime_overrides.deep_view().context_window
                == o.context_window && after.core.overrides.deep_view().context_window
                == o.context_window
            &&& o.max_iterations is None ==> after.runtime_overrides.deep_view().max_iterations
                == before.runtime_overrides.deep_view().max_iterations
            &&& o.tool_compression_enabled is None ==> after.core.builtin_tools.deep_view()
                == before.core.builtin_tools.deep_view()
            &&& after.handles().dom() == before.handles().dom()
        }),
{
    assert(after.handles().dom() =~= before.handles().dom());
}

/// Each session is told of the servers' tools, and then of the servers that
/// failed, where any did.
pub proof fn server_tools_reach_every_session(
    handles: Map<Seq<char>, HandleView>,
    tools: Option<Vec<ToolDef>>,
    failures: Seq<McpConnectionFailure>,
    id: Seq<char>,
)
    requires
        handles.contains_key(id),
        !handles[id].link.closed,
        handles[id].link.free >= 2,
    ensures
        ({
            let before = handles[id].inbox;
            let after = SessionManager::mcp_pushed(handles, tools, failures)[id].inbox;
            let told = MessageView::UpdateMcpTools { mcp_tools: tools.deep_view() };
            &&& failures.len() == 0 ==> after == before.push(told)
            &&& failures.len() > 0 ==> after == before.push(told).push(
                MessageView::SystemNotification { content: failure_notification(failures) },
            )
        }),
{
}

/// Every session is told who the user is, and the sessions to come will know.
pub proof fn users_are_introduced_to_every_session(
    before: SessionManager,
    after: SessionManager,
    identity: Option<Seq<char>>,
    id: Seq<char>,
)
    requires
        SessionManager::user_introduced(before, after, identity),
        before.handles().contains_key(id),
        before.handles()[id].link.verdict() is None,
    ensures
        after.config.identity_context.deep_view() == identity,
        after.handles()[id].inbox.last() == (MessageView::UpdateIdentityContext {
            identity_context: identity,
        }),
        after.handles()[id].inbox.len() == before.handles()[id].inbox.len() + 1,
{
}

/// A setting goes to its session alone; an unknown session is named.
pub proof fn settings_reach_their_session(
    before: SessionManager,
    after: SessionManager,
    id: Seq<char>,
    changed: HandleView,
    r: Result<(), RuntimeError>,
    other: Seq<char>,
)
    requires
        SessionManager::session_routed(before, after, id, changed, r),
        other != id,
    ensures
        r is Ok <==> before.handles().contains_key(id),
        r is Ok ==> after.handles()[id] == changed,
        r matches Err(e) ==> e is Config && e->Config_0@ == "Session not found: "@ + id && after
            == before,
        after.handles().contains_key(other) <==> before.handles().contains_key(other),
        before.handles().contains_key(other) ==> after.handles()[other] == before.handles()[other],
{
}

/// A switch of the model sets the model and the effort; the provider too, where
/// one is named; it sends the session nothing and keeps its other settings.
pub proof fn model_switches_keep_the_rest(
    h: HandleView,
    effort: Option<Seq<char>>,
    model: Seq<char>,
    provider: Option<Seq<char>>,
)
    ensures
        ({
            let after = SessionManager::model_switched(h, effort, model, provider);
            &&& after.inbox == h.inbox
            &&& h.conversation is None ==> after == h
            &&& h.conversation matches Some(c) ==> {
                let config = after.conversation->0.config;
                &&& after.conversation is Some
                &&& config.model == Some(model)
                &&& config.reasoning_effort == effort
                &&& provider is Some ==> config.provider == provider
                &&& provider is None ==> config.provider == c.config.provider
                &&& config.temperature == c.config.temperature
                &&& config.title == c.config.title
                &&& config.workspace_id == c.config.workspace_id
            }
        }),
{
}

/// A set effort is what the session's settings say from then on, and nothing
/// else of them changes.
pub proof fn set_efforts_are_read_back(h: HandleView, effort: Seq<char>)
    ensures
        effort_set(h, effort).inbox == h.inbox,
        h.conversation matches Some(c) ==> {
            let config = effort_set(h, effort).conversation->0.config;
            &&& config.reasoning_effort == Some(effort)
            &&& config.model == c.config.model
            &&& config.provider == c.config.provider
            &&& config.temperature == c.config.temperature
        },
{
}

/// The debugger is started once; then every session has a controller and waits
/// for the debugger.
pub proof fn debugging_is_started_once(
    before: SessionManager,
    after: SessionManager,
    started: bool,
    id: Seq<char>,
)
    requires
        SessionManager::debugging_enabled(before, after, started),
    ensures
        before.debug_enabled ==> !started && after == before,
        !before.debug_enabled ==> started && after.debug_enabled,
        started && before.handles().contains_key(id) ==> after.debug_controllers@.contains_key(id)
            && after.handles()[id].debug_pending,
        started && !before.handles().contains_key(id) ==> (after.debug_controllers@.contains_key(id)
            <==> before.debug_controllers@.contains_key(id)),
{
}

/// The servers' tools are kept for the sessions to come, and stand behind the
/// runtime's own in the list of all tools; every session is told.
pub proof fn server_tools_are_kept(
    before: SessionManager,
    after: SessionManager,
    tools: Option<Vec<ToolDef>>,
    failures: Seq<McpConnectionFailure>,
    id: Seq<char>,
)
    requires
        SessionManager::mcp_applied(before, after, tools, failures),
    ensures
        after.mcp_tools.deep_view() == tools.deep_view(),
        after.config.full_tool_specs.deep_view() == specs_with_mcp(
            before.config.full_tool_specs.deep_view(),
            tools.deep_view(),
        ),
        after.handles().contains_key(id) <==> before.handles().contains_key(id),
        before.handles().contains_key(id) && before.handles()[id].link.verdict() is None
            ==> after.handles()[id].inbox[before.handles()[id].inbox.len() as int] == (
        MessageView::UpdateMcpTools { mcp_tools: tools.deep_view() }),
        after.core == before.core,
{
}

} // verus!
