//! The agent loop of one session: what it knows, and the steps that need no
//! one else.

use vstd::prelude::*;

use crate::builtin_tools::{
    compression_off_removes_platform_tools, platform_protected, sync_platform_tools, with_platform,
    without_platform, BuiltinToolEntry, BuiltinView, ToolDef,
};
use crate::conversation::{ConversationOp, ConversationView, OpView};
use crate::json::Json;
use crate::message::ChatMessage;
use crate::model::{
    find_model, find_provider, lookup_model, lookup_provider, ModelCapabilitiesInfo,
    ProviderListItem,
};
use crate::overrides::RuntimeConfigOverrides;
use crate::session::{
    ChunkEvent, ChunkView, ReasoningEffort, SessionCore, SessionSnapshot, SessionState,
    SessionStatus, SnapshotView, StatusView, Temperature,
};
use crate::str_map::StrMap;

verus! {

/// What all sessions of an agent share. Each session works on a copy of its
/// own, made from a template.
#[derive(Debug)]
pub struct AgentCore {
    pub agent_id: String,
    pub work_dir: String,
    /// How many sessions are kept, where the agent's settings say nothing.
    pub max_sessions: usize,
    /// The model of the current provider.
    pub model: String,
    pub global_provider_list: Vec<ProviderListItem>,
    pub provider_list_version: u64,
    /// The key of each provider that has one. Held in memory only.
    pub provider_key_vault: StrMap<String>,
    /// The model that each provider offers for summaries.
    pub provider_compact_models: StrMap<Option<String>>,
    /// The provider and model that the user picked for summaries.
    pub default_compact_model: Option<(String, String)>,
    /// The key of each search provider that has one. Held in memory only.
    pub search_key_vault: StrMap<String>,
    /// The search providers, each as the document that describes it.
    pub search_provider_list: Vec<Json>,
    /// Settings that were pushed at runtime.
    pub overrides: RuntimeConfigOverrides,
    pub manifest_temperature: Option<Temperature>,
    /// How the package asks for summaries, where it says so.
    pub compaction_prompt: Option<String>,
    /// The tools that come with the runtime.
    pub builtin_tools: Vec<BuiltinToolEntry>,
    /// The tools that manage the context, whether registered or not.
    pub platform_tools: Vec<BuiltinToolEntry>,
    /// The tools of the connected MCP servers.
    pub mcp_tools: Option<Vec<ToolDef>>,
    /// Where the long-term memory lies, once it is set up.
    pub memory_store: Option<String>,
}

/// The agent loop of one session.
#[derive(Debug)]
pub struct AgentLoop {
    pub core: AgentCore,
    pub session: SessionState,
    pub session_core: SessionCore,
    /// The user message of this turn, to be repeated at the end of the request.
    pub pending_user_message: Option<ChatMessage>,
    /// Tool results to be shown to the model once.
    pub pending_transient_tool_msgs: Vec<ChatMessage>,
    pub last_reasoning_effort: Option<ReasoningEffort>,
    pub last_thinking_mode: Option<String>,
    pub last_input_chars: u64,
    /// Whether memories have been retrieved for this session.
    pub memory_retrieved_for_session: bool,
}

impl AgentCore {
    /// What is known of a model: the entry of the first provider that has it.
    pub open spec fn caps(&self, model: Seq<char>) -> Option<ModelCapabilitiesInfo> {
        match find_model(self.global_provider_list@, model, 0) {
            Some(entry) => Some(entry.capabilities),
            None => None,
        }
    }

    /// What is known of a model.
    pub fn get_model_capabilities(&self, model: &str) -> (r: Option<&ModelCapabilitiesInfo>)
        ensures
            match r {
                Some(c) => self.caps(model@) == Some(*c),
                None => self.caps(model@) is None,
            },
    {
        match lookup_model(&self.global_provider_list, model) {
            Some(entry) => Some(&entry.capabilities),
            None => None,
        }
    }

    /// A copy of what is known of a model.
    pub(crate) fn copy_model_capabilities(&self, model: &str) -> (r: Option<ModelCapabilitiesInfo>)
        ensures
            r == self.caps(model@),
    {
        match self.get_model_capabilities(model) {
            Some(caps) => Some(caps.clone()),
            None => None,
        }
    }

    /// How many tokens a model may answer with, where the model is listed.
    pub open spec fn output_limit(&self, model: Seq<char>) -> Option<u64> {
        match find_model(self.global_provider_list@, model, 0) {
            Some(entry) => Some(entry.max_output_tokens_limit),
            None => None,
        }
    }

    /// How many tokens a model may answer with, where the model is listed.
    pub fn max_output_tokens_limit_for_model(&self, model: &str) -> (r: Option<u64>)
        ensures
            r == self.output_limit(model@),
    {
        match lookup_model(&self.global_provider_list, model) {
            Some(entry) => Some(entry.max_output_tokens_limit),
            None => None,
        }
    }

    /// A provider can be called when it is listed and has a key or needs none.
    pub open spec fn provider_usable(&self, id: Seq<char>) -> bool {
        find_provider(self.global_provider_list@, id, 0) matches Some(p) && (p.local
            || self.provider_key_vault@.contains_key(id))
    }

    /// Whether the provider that the user picked for summaries can be called.
    pub fn is_default_compact_provider_available(&self) -> (r: bool)
        ensures
            r == (self.default_compact_model matches Some(pair) && self.provider_usable(pair.0@)),
    {
        match &self.default_compact_model {
            Some(pair) => match lookup_provider(&self.global_provider_list, pair.0.as_str()) {
                Some(p) => p.local || self.provider_key_vault.contains_key(pair.0.as_str()),
                None => false,
            },
            None => false,
        }
    }
}

impl AgentCore {
    /// The tools once the context tools are switched on or off, or left.
    pub open spec fn synced_tools(
        tools: Seq<BuiltinView>,
        platform: Seq<BuiltinView>,
        switch: Option<bool>,
    ) -> Seq<BuiltinView> {
        match switch {
            Some(true) => with_platform(tools, platform, platform.len() as int),
            Some(false) => without_platform(tools),
            None => tools,
        }
    }

    /// Takes over pushed settings: those that the push holds replace the ones
    /// before, and a switch of the context tools registers them or takes them
    /// out.
    pub fn apply_runtime_config(&mut self, overrides: &RuntimeConfigOverrides)
        ensures
            final(self).overrides.deep_view() == old(self).overrides.deep_view().merged(
                overrides.deep_view(),
            ),
            final(self).builtin_tools.deep_view() == Self::synced_tools(
                old(self).builtin_tools.deep_view(),
                old(self).platform_tools.deep_view(),
                overrides.tool_compression_enabled,
            ),
            *final(self) == (AgentCore {
                overrides: final(self).overrides,
                builtin_tools: final(self).builtin_tools,
                ..*old(self)
            }),
    {
        self.overrides.merge(overrides);
        match overrides.tool_compression_enabled {
            Some(enabled) => {
                sync_platform_tools(&mut self.builtin_tools, &self.platform_tools, enabled);
                assert(self.platform_tools.deep_view().len() == self.platform_tools.len());
            },
            None => {},
        }
    }
}

impl AgentCore {
    /// The core of a new session: the template's identity, settings and tools,
    /// each copied, and from `shared` what all sessions have in common: the
    /// providers, their models and keys, and the long-term memory.
    pub open spec fn copied_for_session(template: AgentCore, shared: AgentCore, r: AgentCore) -> bool {
        &&& r.agent_id@ == template.agent_id@
        &&& r.work_dir@ == template.work_dir@
        &&& r.max_sessions == template.max_sessions
        &&& r.model@ == template.model@
        &&& r.overrides.deep_view() == template.overrides.deep_view()
        &&& r.manifest_temperature == template.manifest_temperature
        &&& r.compaction_prompt.deep_view() == template.compaction_prompt.deep_view()
        &&& r.builtin_tools.deep_view() == template.builtin_tools.deep_view()
        &&& r.platform_tools.deep_view() == template.platform_tools.deep_view()
        &&& r == (AgentCore {
            agent_id: r.agent_id,
            work_dir: r.work_dir,
            max_sessions: r.max_sessions,
            model: r.model,
            overrides: r.overrides,
            manifest_temperature: r.manifest_temperature,
            compaction_prompt: r.compaction_prompt,
            builtin_tools: r.builtin_tools,
            platform_tools: r.platform_tools,
            ..shared
        })
    }

    /// The core of a new session.
    pub fn clone_for_session(&self, shared: AgentCore) -> (r: AgentCore)
        ensures
            Self::copied_for_session(*self, shared, r),
    {
        let builtin_tools = self.builtin_tools.clone();
        let platform_tools = self.platform_tools.clone();
        assert(builtin_tools.deep_view() =~= self.builtin_tools.deep_view());
        assert(platform_tools.deep_view() =~= self.platform_tools.deep_view());
        AgentCore {
            agent_id: self.agent_id.clone(),
            work_dir: self.work_dir.clone(),
            max_sessions: self.max_sessions,
            model: self.model.clone(),
            overrides: self.overrides.clone(),
            manifest_temperature: self.manifest_temperature,
            compaction_prompt: self.compaction_prompt.clone(),
            builtin_tools,
            platform_tools,
            ..shared
        }
    }
}

/// Where the memory of a working directory lies.
pub open spec fn memory_path(work_dir: Seq<char>) -> Seq<char> {
    if work_dir.len() == 0 || work_dir.last() == '/' {
        work_dir + "memory/private.grafeo"@
    } else {
        work_dir + "/memory/private.grafeo"@
    }
}

impl AgentLoop {
    // ── Model ───────────────────────────────────────────────────────────

    /// The model of the session, else that of the provider.
    pub open spec fn current_model(&self) -> Seq<char> {
        match self.session.model {
            Some(m) => m@,
            None => self.core.model@,
        }
    }

    /// The model of the session, else that of the provider.
    pub fn resolve_current_model(&self) -> (r: String)
        ensures
            r@ == self.current_model(),
    {
        match &self.session.model {
            Some(m) => m.clone(),
            None => self.core.model.clone(),
        }
    }

    /// Update the LLM provider at runtime: the host has put the provider in
    /// its place, and `model` is the one that it is asked for from now on.
    pub fn update_provider(&mut self, model: String)
        ensures
            *final(self) == (AgentLoop {
                core: AgentCore { model, ..old(self).core },
                ..*old(self)
            }),
    {
        self.core.model = model;
    }

    // ── Memory ──────────────────────────────────────────────────────────

    /// Sets up the long-term memory of a working directory. The store lies in
    /// `{work_dir}/memory/private.grafeo`.
    pub fn init_memory_store(&mut self, work_dir: &str)
        ensures
            final(self).core.memory_store.deep_view() == Some(memory_path(work_dir@)),
            *final(self) == (AgentLoop {
                core: AgentCore { memory_store: final(self).core.memory_store, ..old(self).core },
                ..*old(self)
            }),
    {
        let chars = crate::text::chars_of(work_dir);
        let n: usize = chars.len();
        let path = if n == 0 || chars[n - 1] == '/' {
            crate::text::join2(work_dir, "memory/private.grafeo")
        } else {
            crate::text::join2(work_dir, "/memory/private.grafeo")
        };
        self.core.memory_store = Some(path);
    }

    // ── Status ──────────────────────────────────────────────────────────

    /// The status and the outbox once the status was set; `changed` where it was
    /// another one.
    pub open spec fn status_moved(
        before: AgentLoop,
        after: AgentLoop,
        status: StatusView,
        changed: bool,
    ) -> bool {
        &&& changed == (status != before.session.status.deep_view())
        &&& after.session.status.deep_view() == status
        &&& after.session_core.outbox.deep_view() == (if changed {
            before.session_core.outbox.deep_view().push(ChunkView::SessionState)
        } else {
            before.session_core.outbox.deep_view()
        })
    }

    /// Transition session status, and owe the world a session state if the
    /// status changed. Returns whether it did.
    pub fn transition_status(&mut self, new_status: SessionStatus) -> (changed: bool)
        ensures
            Self::status_moved(*old(self), *final(self), new_status.deep_view(), changed),
            *final(self) == (AgentLoop {
                session: SessionState {
                    status: final(self).session.status,
                    ..old(self).session
                },
                session_core: SessionCore {
                    outbox: final(self).session_core.outbox,
                    ..old(self).session_core
                },
                ..*old(self)
            }),
    {
        if self.session.status.same(&new_status) {
            return false;
        }
        self.session.status = new_status;
        self.session_core.send(ChunkEvent::SessionState);
        true
    }

    /// The snapshot and the log once the state of the session was published.
    pub open spec fn state_emitted(
        before: AgentLoop,
        after: AgentLoop,
        status: Seq<char>,
        todos: Option<Seq<char>>,
        usage: Option<Seq<char>>,
    ) -> bool {
        &&& after.session.snapshot.deep_view() == (SnapshotView {
            session_id: before.session.snapshot.session_id@,
            status,
            model: before.session.model.deep_view(),
            provider: before.session.provider.deep_view(),
            ratio_bits: before.session.model_ratio_bits,
            todos_json: if before.session.todos.len() == 0 {
                None
            } else {
                todos
            },
            context_usage: if usage is Some {
                usage
            } else {
                before.session.snapshot.context_usage.deep_view()
            },
        })
        &&& after.session.conversation.deep_view() == (match before.session.conversation {
            Some(c) => Some(
                c.deep_view().with_op(
                    OpView::PublishState {
                        status,
                        ratio_bits: match before.session.model_ratio_bits {
                            Some(bits) => bits,
                            None => 0,
                        },
                        context_usage: match usage {
                            Some(text) => text,
                            None => Seq::empty(),
                        },
                    },
                ),
            ),
            None => None,
        })
    }

    /// Publishes the state of the session, and brings the snapshot for outside
    /// readers up to date. `status_json` and `todos_json` are the serialised
    /// status and todo list, `context_usage` the serialised context usage where
    /// it can be computed; where it cannot, the snapshot keeps the one that
    /// stands there. An empty todo list is not shown.
    pub fn emit_session_state(
        &mut self,
        status_json: String,
        todos_json: Option<String>,
        context_usage: Option<String>,
    )
        ensures
            Self::state_emitted(
                *old(self),
                *final(self),
                status_json@,
                todos_json.deep_view(),
                context_usage.deep_view(),
            ),
            *final(self) == (AgentLoop {
                session: SessionState {
                    conversation: final(self).session.conversation,
                    snapshot: final(self).session.snapshot,
                    ..old(self).session
                },
                ..*old(self)
            }),
    {
        match self.session.conversation.take() {
            Some(mut conversation) => {
                let shown = match &context_usage {
                    Some(text) => text.clone(),
                    None => {
                        let none = String::new();
                        assert(none@ =~= Seq::empty());
                        none
                    },
                };
                let ratio_bits: u64 = match self.session.model_ratio_bits {
                    Some(bits) => bits,
                    None => 0,
                };
                conversation.push_op(
                    ConversationOp::PublishState {
                        status: status_json.clone(),
                        ratio_bits,
                        context_usage: shown,
                    },
                );
                self.session.conversation = Some(conversation);
            },
            None => {},
        }
        let kept = self.session.snapshot.context_usage.clone();
        self.session.snapshot = SessionSnapshot {
            session_id: self.session.snapshot.session_id.clone(),
            status: status_json,
            model: self.session.model.clone(),
            provider: self.session.provider.clone(),
            ratio_bits: self.session.model_ratio_bits,
            todos_json: if self.session.todos.is_empty() {
                None
            } else {
                todos_json
            },
            context_usage: if context_usage.is_some() {
                context_usage
            } else {
                kept
            },
        };
    }

    // ── Identity and title ──────────────────────────────────────────────

    /// The id of the active conversation, if there is one.
    pub fn current_session_id(&self) -> (r: Option<&str>)
        ensures
            match r {
                Some(id) => self.session.conversation matches Some(c) && c.session_id@ == id@,
                None => self.session.conversation is None,
            },
    {
        match &self.session.conversation {
            Some(c) => Some(c.session_id.as_str()),
            None => None,
        }
    }

    /// Update the title of the currently active conversation session.
    ///
    /// Returns `Some(true)` if the title was actually written (different from
    /// current), `Some(false)` if the title was already the same (no-op), or
    /// `None` if no active session exists.
    pub fn update_session_title(&mut self, title: &str) -> (r: Option<bool>)
        ensures
            match old(self).session.conversation {
                Some(c) => {
                    &&& r == Some(c.deep_view().config.title != Some(title@))
                    &&& final(self).session.conversation matches Some(after) && after.deep_view()
                        == c.deep_view().titled(title@)
                },
                None => r is None && final(self).session.conversation is None,
            },
            *final(self) == (AgentLoop {
                session: SessionState {
                    conversation: final(self).session.conversation,
                    ..old(self).session
                },
                ..*old(self)
            }),
    {
        match self.session.conversation.take() {
            Some(mut conversation) => {
                let changed = conversation.update_title_force(title);
                self.session.conversation = Some(conversation);
                Some(changed)
            },
            None => None,
        }
    }

    /// Persists a title that was made in the background, if there is one.
    /// Doing so twice is the same as doing so once.
    pub fn flush_pending_title(&mut self)
        ensures
            final(self).session.conversation.deep_view() == (match (
                old(self).session_core.title,
                old(self).session.conversation,
            ) {
                (Some(t), Some(c)) => Some(c.deep_view().titled(t@)),
                (_, c) => c.deep_view(),
            }),
            *final(self) == (AgentLoop {
                session: SessionState {
                    conversation: final(self).session.conversation,
                    ..old(self).session
                },
                ..*old(self)
            }),
    {
        match &self.session_core.title {
            Some(t) => {
                let title = t.clone();
                let _ = self.update_session_title(title.as_str());
            },
            None => {},
        }
    }
}

// ── Laws ────────────────────────────────────────────────────────────────

/// Giving a conversation the title it has changes nothing: titling twice is
/// the same as titling once.
pub proof fn titling_is_idempotent(c: ConversationView, title: Seq<char>)
    ensures
        c.titled(title).titled(title) == c.titled(title),
        c.titled(title).config.title == Some(title),
{
}

/// What is known of a model is what its entry says: what it can do, and how many
/// tokens it may answer with; both are known or neither.
pub proof fn models_are_known_by_their_entry(core: AgentCore, model: Seq<char>)
    ensures
        core.caps(model) is Some <==> core.output_limit(model) is Some,
        find_model(core.global_provider_list@, model, 0) matches Some(entry) ==> core.caps(model)
            == Some(entry.capabilities) && core.output_limit(model) == Some(
            entry.max_output_tokens_limit,
        ),
        find_model(core.global_provider_list@, model, 0) is None ==> core.caps(model) is None,
{
}

/// A provider that runs on this machine needs no key; another needs one; and one
/// that is not listed cannot be called.
pub proof fn remote_providers_need_a_key(core: AgentCore, id: Seq<char>)
    ensures
        ({
            let found = find_provider(core.global_provider_list@, id, 0);
            let key = core.provider_key_vault@.contains_key(id);
            &&& found is None ==> !core.provider_usable(id)
            &&& found is Some && found->0.local ==> core.provider_usable(id)
            &&& found is Some && !found->0.local ==> (core.provider_usable(id) <==> key)
        }),
{
}

/// A session with a model of its own talks to that, else to the provider's.
pub proof fn sessions_talk_to_their_model(l: AgentLoop)
    ensures
        l.session.model matches Some(m) ==> l.current_model() == m@,
        l.session.model is None ==> l.current_model() == l.core.model@,
{
}

/// The memory of an agent lies below its directory, behind one slash.
pub proof fn memory_lies_below_the_directory(dir: Seq<char>)
    ensures
        dir.len() > 0 && dir.last() != '/' ==> memory_path(dir) == dir
            + "/memory/private.grafeo"@ && memory_path(dir) == memory_path(dir.push('/')),
        memory_path(dir).take(dir.len() as int) == dir,
{
    reveal_strlit("/memory/private.grafeo");
    reveal_strlit("memory/private.grafeo");
    assert(memory_path(dir).take(dir.len() as int) =~= dir);
    if dir.len() > 0 && dir.last() != '/' {
        assert("/memory/private.grafeo"@ =~= seq!['/'] + "memory/private.grafeo"@);
        assert(memory_path(dir) =~= memory_path(dir.push('/')));
    }
}

/// The frontend hears of a status where it is another one than before, once.
pub proof fn status_changes_are_announced(
    before: AgentLoop,
    after: AgentLoop,
    status: StatusView,
    changed: bool,
)
    requires
        AgentLoop::status_moved(before, after, status, changed),
    ensures
        after.session.status.deep_view() == status,
        before.session.status.deep_view() == status ==> !changed
            && after.session_core.outbox.deep_view() == before.session_core.outbox.deep_view(),
        before.session.status.deep_view() != status ==> {
            &&& changed
            &&& after.session_core.outbox.deep_view().len()
                == before.session_core.outbox.deep_view().len() + 1
            &&& after.session_core.outbox.deep_view().last() == ChunkView::SessionState
            &&& after.session_core.outbox.deep_view().drop_last()
                == before.session_core.outbox.deep_view()
        },
{
    assert(after.session_core.outbox.deep_view().drop_last()
        =~= before.session_core.outbox.deep_view() || !changed);
}

/// What is published of a session is what it is now: its status, its model, its
/// provider, its todos where it has any, and the last usage that was known; the
/// log is told the same status and the usage of this moment.
pub proof fn published_state_is_that_of_the_session(
    before: AgentLoop,
    after: AgentLoop,
    status: Seq<char>,
    todos: Option<Seq<char>>,
    usage: Option<Seq<char>>,
)
    requires
        AgentLoop::state_emitted(before, after, status, todos, usage),
    ensures
        ({
            let s = after.session.snapshot.deep_view();
            &&& s.status == status
            &&& s.session_id == before.session.snapshot.session_id@
            &&& s.model == before.session.model.deep_view()
            &&& s.provider == before.session.provider.deep_view()
            &&& s.ratio_bits == before.session.model_ratio_bits
            &&& before.session.todos.len() == 0 ==> s.todos_json is None
            &&& before.session.todos.len() > 0 ==> s.todos_json == todos
            &&& usage is Some ==> s.context_usage == usage
            &&& usage is None ==> s.context_usage
                == before.session.snapshot.context_usage.deep_view()
            &&& before.session.conversation is None ==> after.session.conversation is None
            &&& before.session.conversation matches Some(c) ==> {
                let ops = after.session.conversation.deep_view()->0.ops;
                &&& ops.len() == c.deep_view().ops.len() + 1
                &&& ops.last() is PublishState
                &&& ops.last()->status == status
                &&& usage matches Some(text) ==> ops.last()->context_usage == text
                &&& usage is None ==> ops.last()->context_usage.len() == 0
                &&& before.session.model_ratio_bits matches Some(bits) ==> ops.last()->ratio_bits
                    == bits
            }
        }),
{
}

/// Where the settings say nothing of the context tools, the tools stay; where
/// they are switched on or off, they come or go.
pub proof fn context_tools_follow_the_switch(
    tools: Seq<BuiltinView>,
    platform: Seq<BuiltinView>,
    i: int,
)
    ensures
        AgentCore::synced_tools(tools, platform, None) == tools,
        AgentCore::synced_tools(tools, platform, Some(false)) == without_platform(tools),
        AgentCore::synced_tools(tools, platform, Some(true)) == with_platform(
            tools,
            platform,
            platform.len() as int,
        ),
        0 <= i < without_platform(tools).len() ==> !platform_protected(
            AgentCore::synced_tools(tools, platform, Some(false))[i].tool.name,
        ),
{
    if 0 <= i < without_platform(tools).len() {
        compression_off_removes_platform_tools(tools, i);
    }
}

/// The core of a session is the agent's: its name, its directory, its model, its
/// settings and its tools. What all sessions have in common, they share: the
/// providers with their keys, and the memory.
pub proof fn cores_are_copied_and_shared(template: AgentCore, shared: AgentCore, r: AgentCore)
    requires
        AgentCore::copied_for_session(template, shared, r),
    ensures
        r.agent_id@ == template.agent_id@,
        r.work_dir@ == template.work_dir@,
        r.model@ == template.model@,
        r.max_sessions == template.max_sessions,
        r.overrides.deep_view() == template.overrides.deep_view(),
        r.manifest_temperature == template.manifest_temperature,
        r.compaction_prompt.deep_view() == template.compaction_prompt.deep_view(),
        r.builtin_tools.deep_view() == template.builtin_tools.deep_view(),
        r.platform_tools.deep_view() == template.platform_tools.deep_view(),
        r.global_provider_list == shared.global_provider_list,
        r.provider_key_vault == shared.provider_key_vault,
        r.provider_compact_models == shared.provider_compact_models,
        r.default_compact_model == shared.default_compact_model,
        r.memory_store == shared.memory_store,
        r.mcp_tools == shared.mcp_tools,
{
}

} // verus!
