//! The task of one session: it takes messages one after the other, and says
//! what has to be done outside.

use vstd::prelude::*;

use crate::agent_loop::{AgentCore, AgentLoop};
use crate::attachments::{build_attachment_hint, hinted, AttachedItem};
use crate::builtin_tools::{
    add_tool, add_tools, all_flagged, apply_builtin_enabled_entries, first_named,
    lemma_nothing_to_remove, rebuild_context_tool_definitions, remove_tool, visible_specs,
    with_tool, with_tools, without_tool, BuiltinToolEntry, BuiltinView, ToolDef,
};
use crate::context::{usage_report, UsageTotals};
use crate::conversation::ConversationView;
use crate::json::{Json, JsonView};
use crate::llm_effects::{
    apply_llm_effects, effects_applied, provider_to_rebuild, switches_model,
};
use crate::message::{ChatMessage, ChatMessageView, MessageRole};
use crate::overrides::{newer, RuntimeConfigOverrides};
use crate::session::{
    ChunkEvent, ChunkView, ContextUsageInfo, ReasoningEffort, SessionCore, SessionState,
};
use crate::session_config::{ConfigView, SessionConfigSnapshot};
use crate::session_message::{CompressionAction, ContentPart, SessionMessage};
use crate::text::{is_space, trim, trim_spec, trimming_takes_only_outer_space};

verus! {

/// What the requests of a session are built from.
#[derive(Debug)]
pub struct TaskContext {
    pub system_prompt: String,
    pub identity_context: Option<String>,
    /// The tools that the model sees, but for those of MCP servers.
    pub tool_definitions: Vec<Json>,
    /// The model that requests ask for.
    pub override_model: Option<String>,
    pub workspace_context: Option<String>,
    pub workspace_prompt_file: Option<String>,
    pub skill_instructions: Option<String>,
}

/// The task of one session.
#[derive(Debug)]
pub struct SessionTask {
    pub session_id: String,
    pub agent_loop: AgentLoop,
    pub context: TaskContext,
    /// The last user message and its id, to be run again by the debugger.
    pub last_user_message: Option<(String, String)>,
    /// The settings as the last request saw them.
    pub last_config_version: u64,
    pub last_config: SessionConfigSnapshot,
}

/// What the debugger does.
#[derive(Clone, Copy, Debug, PartialEq, Eq, Structural)]
pub enum DebugState {
    Running,
    Paused,
    Stepping,
    Stopped,
}

/// What is known outside when a message is taken.
#[derive(Clone, Copy, Debug, PartialEq, Eq, Structural)]
pub struct TaskFacts {
    /// What the model leaves for input next to its output.
    pub input_budget: u64,
    /// The size of the history, and its share of the usable context.
    pub history_tokens: u64,
    pub usage_percent: u8,
    pub totals: UsageTotals,
    /// The dimension of the vectors in the long-term memory.
    pub embedding_dim: Option<usize>,
    pub debug_state: Option<DebugState>,
}

/// A turn to run.
#[derive(Debug)]
pub struct ChatTurn {
    /// The user's words with hints for what is attached.
    pub content: String,
    /// The user's words alone.
    pub raw_user_message: String,
    pub message_id: String,
    pub attached_items: Option<Vec<AttachedItem>>,
    pub content_parts: Option<Vec<ContentPart>>,
    /// Whether image parts have to be made from what is attached first.
    pub derive_images: bool,
    /// Whether the debugger has to let the turn run first.
    pub resume_debugger: bool,
}

/// What has to be done outside.
#[derive(Debug)]
pub enum TaskStep {
    /// Nothing: take the next message.
    Next,
    RunTurn(ChatTurn),
    /// Cut a wait for another attempt short, and let a paused turn go on.
    ContinueExecution { reason: String },
    ForwardStop { reason: String },
    /// Summarise the history, whatever its size.
    Compact { model_name: String },
    /// Put placeholders in the place of old tool results.
    CompressToolResults,
    /// Embed with another model; where `migrate` is set, re-embed what the
    /// long-term memory holds first.
    SwitchEmbedding { endpoint: String, model_id: String, dimension: usize, migrate: bool },
    DisableEmbedding,
    EnableDebug,
    /// Close the session.
    Shutdown,
}

/// The message of an error for the user.
#[derive(Debug)]
pub struct ErrorInfo {
    pub user_message: String,
    pub detail: String,
    pub error_type: String,
}

/// The outbox once a turn is over.
pub open spec fn turn_reported(
    outbox: Seq<ChunkView>,
    result: Result<String, ErrorInfo>,
    message_id: Seq<char>,
    replayed: bool,
) -> Seq<ChunkView> {
    match result {
        Ok(response) => {
            let done = outbox.push(ChunkView::Done { content: response@, message_id });
            if replayed {
                done
            } else {
                done.push(ChunkView::NewDataAvailable)
            }
        },
        Err(e) => outbox.push(
            ChunkView::Error {
                user_message: e.user_message@,
                detail: e.detail@,
                error_type: e.error_type@,
                message_id,
            },
        ),
    }
}

/// The debugger lets a turn run that it had stopped.
pub open spec fn runs_again(state: Option<DebugState>) -> bool {
    state == Some(DebugState::Running) || state == Some(DebugState::Stepping)
}

fn no_config() -> (r: SessionConfigSnapshot)
    ensures
        r.deep_view() == ConfigView::none(),
{
    SessionConfigSnapshot::default()
}

/// A message with nothing in it.
pub open spec fn empty_message(
    content: Seq<char>,
    attached: Option<Vec<AttachedItem>>,
    parts: Option<Vec<ContentPart>>,
) -> bool {
    &&& trim_spec(content).len() == 0
    &&& (attached matches Some(items) ==> items.len() == 0)
    &&& (parts matches Some(p) ==> p.len() == 0)
}

impl SessionTask {
    /// The model of the session, or nothing.
    pub open spec fn session_model_or_none(session: SessionState) -> Seq<char> {
        match session.model {
            Some(m) => m@,
            None => Seq::empty(),
        }
    }

    /// A task as it is made for a session.
    pub open spec fn is_built_from(
        &self,
        core: AgentCore,
        session: SessionState,
        dynamic_tools: Seq<BuiltinView>,
        overrides: RuntimeConfigOverrides,
    ) -> bool {
        let own = self.agent_loop.core;
        &&& own.builtin_tools.deep_view() == AgentCore::synced_tools(
            with_tools(core.builtin_tools.deep_view(), dynamic_tools, dynamic_tools.len() as int),
            core.platform_tools.deep_view(),
            overrides.tool_compression_enabled,
        )
        &&& own.model@ == Self::session_model_or_none(session)
        &&& own.overrides.deep_view() == core.overrides.deep_view().merged(overrides.deep_view())
        &&& own == (AgentCore {
            builtin_tools: own.builtin_tools,
            mcp_tools: own.mcp_tools,
            model: own.model,
            overrides: own.overrides,
            ..core
        })
        &&& self.agent_loop.session == (SessionState {
            temperature: newer(session.temperature, own.overrides.deep_view().temperature),
            ..session
        })
        &&& self.agent_loop.pending_user_message is None
        &&& self.agent_loop.pending_transient_tool_msgs.len() == 0
        &&& self.agent_loop.last_reasoning_effort is None
        &&& self.agent_loop.last_thinking_mode is None
        &&& self.agent_loop.last_input_chars == 0
        &&& !self.agent_loop.memory_retrieved_for_session
        &&& self.context.tool_definitions.deep_view() == visible_specs(
            own.builtin_tools.deep_view(),
        )
        &&& self.context.override_model.deep_view() == session.model.deep_view()
        &&& self.context.workspace_context is None
        &&& self.context.workspace_prompt_file is None
        &&& self.context.skill_instructions is None
        &&& self.last_user_message is None
        &&& match session.conversation {
            Some(c) => self.last_config_version == c.config_version && self.last_config.deep_view()
                == c.config.deep_view(),
            None => self.last_config_version == 0 && self.last_config.deep_view()
                == ConfigView::none(),
        }
    }

    /// Create the task of a session. `core` is a copy of the shared template
    /// of its own; the tools that sidecars offer and the pushed settings are
    /// put on top, so the session starts with the current tools and values.
    /// The model is shown the tools that are then enabled.
    pub fn new(
        core: AgentCore,
        session: SessionState,
        session_core: SessionCore,
        system_prompt: String,
        session_id: String,
        identity_context: Option<String>,
        mcp_tools: Option<Vec<ToolDef>>,
        dynamic_builtin_tools: &Vec<BuiltinToolEntry>,
        runtime_overrides: &RuntimeConfigOverrides,
    ) -> (task: Self)
        ensures
            task.tools_in_sync(),
            task.session_id == session_id,
            task.agent_loop.session_core == session_core,
            task.context.system_prompt == system_prompt,
            task.context.identity_context == identity_context,
            task.agent_loop.core.mcp_tools == mcp_tools,
            task.is_built_from(
                core,
                session,
                dynamic_builtin_tools.deep_view(),
                *runtime_overrides,
            ),
    {
        let mut core = core;
        let mut session = session;
        add_tools(&mut core.builtin_tools, dynamic_builtin_tools);
        core.mcp_tools = mcp_tools;
        core.model = match &session.model {
            Some(m) => m.clone(),
            None => {
                let none = String::new();
                assert(none@ =~= Seq::empty());
                none
            },
        };
        core.apply_runtime_config(runtime_overrides);
        if core.overrides.temperature.is_some() {
            session.temperature = core.overrides.temperature;
        }
        let tool_definitions = rebuild_context_tool_definitions(&core.builtin_tools);
        let override_model = session.model.clone();
        let (last_config_version, last_config) = match &session.conversation {
            Some(c) => (c.config_version, c.config.clone()),
            None => (0, no_config()),
        };
        SessionTask {
            session_id,
            agent_loop: AgentLoop {
                core,
                session,
                session_core,
                pending_user_message: None,
                pending_transient_tool_msgs: Vec::new(),
                last_reasoning_effort: None,
                last_thinking_mode: None,
                last_input_chars: 0,
                memory_retrieved_for_session: false,
            },
            context: TaskContext {
                system_prompt,
                identity_context,
                tool_definitions,
                override_model,
                workspace_context: None,
                workspace_prompt_file: None,
                skill_instructions: None,
            },
            last_user_message: None,
            last_config_version,
            last_config,
        }
    }

    /// The model by which a resumed session is reported.
    pub open spec fn reported_model(&self) -> Seq<char> {
        match self.agent_loop.session.model {
            Some(m) => m@,
            None => "unknown"@,
        }
    }

    /// What the session knows of the user, and what was sent, once it runs.
    pub open spec fn started(
        before: SessionTask,
        after: SessionTask,
        persisted: Option<ContextUsageInfo>,
    ) -> bool {
        let published = before.agent_loop.session_core.outbox.deep_view().push(
            ChunkView::SessionState,
        );
        &&& after.agent_loop.session.identity_context.deep_view()
            == before.context.identity_context.deep_view()
        &&& after.agent_loop.session_core.outbox.deep_view() == (
        if before.agent_loop.session.conversation is Some && persisted is Some
            && before.agent_loop.core.caps(before.reported_model()) is Some {
            published.push(ChunkView::ContextUsage(persisted->0))
        } else {
            published
        })
    }

    /// Begins to run: the summaries learn who the user is, the session state
    /// is published, and, where the log holds token counts of a known model,
    /// how full the context was. `persisted` is the report that those counts
    /// give.
    pub fn start(&mut self, persisted: Option<ContextUsageInfo>)
        ensures
            old(self).tools_in_sync() ==> final(self).tools_in_sync(),
            Self::started(*old(self), *final(self), persisted),
            *final(self) == (SessionTask {
                agent_loop: AgentLoop {
                    session: SessionState {
                        identity_context: final(self).agent_loop.session.identity_context,
                        ..old(self).agent_loop.session
                    },
                    session_core: SessionCore {
                        outbox: final(self).agent_loop.session_core.outbox,
                        ..old(self).agent_loop.session_core
                    },
                    ..old(self).agent_loop
                },
                ..*old(self)
            }),
    {
        self.agent_loop.session.identity_context = self.context.identity_context.clone();
        self.agent_loop.session_core.send(ChunkEvent::SessionState);
        if self.agent_loop.session.conversation.is_some() {
            let model = match &self.agent_loop.session.model {
                Some(m) => m.clone(),
                None => "unknown".to_owned(),
            };
            let known = self.agent_loop.core.get_model_capabilities(model.as_str()).is_some();
            match persisted {
                Some(info) => if known {
                    self.agent_loop.session_core.send(ChunkEvent::ContextUsage(info));
                },
                None => {},
            }
        }
    }

    // ── Settings ────────────────────────────────────────────────────────

    /// Takes over the settings of the shared conversation as they stand: the
    /// manager may have changed them while a turn ran.
    pub fn see_config(&mut self, config: &SessionConfigSnapshot, config_version: u64)
        ensures
            old(self).tools_in_sync() ==> final(self).tools_in_sync(),
            final(self).agent_loop.session.conversation.deep_view() == (match old(
                self,
            ).agent_loop.session.conversation {
                Some(c) => Some(
                    ConversationView {
                        config: config.deep_view(),
                        config_version,
                        ..c.deep_view()
                    },
                ),
                None => None,
            }),
            *final(self) == (SessionTask {
                agent_loop: AgentLoop {
                    session: SessionState {
                        conversation: final(self).agent_loop.session.conversation,
                        ..old(self).agent_loop.session
                    },
                    ..old(self).agent_loop
                },
                ..*old(self)
            }),
    {
        match self.agent_loop.session.conversation.take() {
            Some(mut c) => {
                c.config = config.clone();
                c.config_version = config_version;
                self.agent_loop.session.conversation = Some(c);
            },
            None => {},
        }
    }

    /// The settings changed since the last request.
    pub open spec fn config_is_stale(&self) -> bool {
        self.agent_loop.session.conversation matches Some(c) && c.config_version
            != self.last_config_version
    }

    /// The provider that has to be built because the settings changed since
    /// the last request.
    pub fn stale_provider(&self) -> (r: Option<&String>)
        ensures
            match r {
                Some(p) => self.config_is_stale() && {
                    let now = self.agent_loop.session.conversation->0.config.deep_view();
                    switches_model(now, self.last_config.deep_view()) && now.provider == Some(p@)
                },
                None => self.config_is_stale() ==> {
                    let now = self.agent_loop.session.conversation->0.config.deep_view();
                    !switches_model(now, self.last_config.deep_view()) || now.provider is None
                },
            },
    {
        match &self.agent_loop.session.conversation {
            Some(c) => if c.config_version != self.last_config_version {
                provider_to_rebuild(&c.config, &self.last_config)
            } else {
                None
            },
            None => None,
        }
    }

    /// At the boundary between two turns: takes over settings that changed
    /// since the last one. Whether there were any. The other parameters are
    /// those of [`apply_llm_effects`].
    pub fn poll_config(
        &mut self,
        rebuilt: bool,
        default_effort: Option<ReasoningEffort>,
        new_effort: Option<ReasoningEffort>,
    ) -> (changed: bool)
        ensures
            old(self).tools_in_sync() ==> final(self).tools_in_sync(),
            changed == old(self).config_is_stale(),
            !final(self).config_is_stale(),
            !changed ==> *final(self) == *old(self),
            changed ==> {
                let c = old(self).agent_loop.session.conversation->0;
                let now = c.config.deep_view();
                let prev = old(self).last_config.deep_view();
                &&& final(self).last_config_version == c.config_version
                &&& final(self).last_config.deep_view() == now
                &&& effects_applied(
                    old(self).agent_loop,
                    final(self).agent_loop,
                    old(self).context.override_model.deep_view(),
                    final(self).context.override_model.deep_view(),
                    now,
                    prev,
                    rebuilt,
                    default_effort.deep_view(),
                    new_effort.deep_view(),
                )
            },
            *final(self) == (SessionTask {
                agent_loop: AgentLoop {
                    core: AgentCore {
                        model: final(self).agent_loop.core.model,
                        ..old(self).agent_loop.core
                    },
                    session: SessionState {
                        model: final(self).agent_loop.session.model,
                        provider: final(self).agent_loop.session.provider,
                        reasoning_effort: final(self).agent_loop.session.reasoning_effort,
                        conversation: final(self).agent_loop.session.conversation,
                        ..old(self).agent_loop.session
                    },
                    ..old(self).agent_loop
                },
                context: TaskContext {
                    override_model: final(self).context.override_model,
                    ..old(self).context
                },
                last_config_version: final(self).last_config_version,
                last_config: final(self).last_config,
                ..*old(self)
            }),
    {
        let (version, snapshot) = match &self.agent_loop.session.conversation {
            Some(c) => {
                if c.config_version == self.last_config_version {
                    return false;
                }
                (c.config_version, c.config.clone())
            },
            None => {
                return false;
            },
        };
        apply_llm_effects(
            &mut self.agent_loop,
            &mut self.context.override_model,
            &snapshot,
            &self.last_config,
            rebuilt,
            default_effort,
            new_effort,
        );
        self.last_config = snapshot;
        self.last_config_version = version;
        true
    }

    // ── Debugger ────────────────────────────────────────────────────────

    /// The debugger resumed while no turn runs: the last user message is run
    /// again, where there is one and the debugger lets it run.
    pub fn replay_on_resume(&self, state: Option<DebugState>) -> (r: Option<(&String, &String)>)
        ensures
            match r {
                Some((content, id)) => runs_again(state) && self.last_user_message == Some(
                    (*content, *id),
                ),
                None => !runs_again(state) || self.last_user_message is None,
            },
    {
        let can_continue = match state {
            Some(DebugState::Running) => true,
            Some(DebugState::Stepping) => true,
            _ => false,
        };
        if !can_continue {
            return None;
        }
        match &self.last_user_message {
            Some(pair) => Some((&pair.0, &pair.1)),
            None => None,
        }
    }

    // ── Results ─────────────────────────────────────────────────────────

    /// A turn is over, or could not begin: the frontend gets the answer or the
    /// error. After an answer to a new message, and not to one that was run
    /// again, it also learns that the log holds new lines.
    pub fn turn_finished(
        &mut self,
        result: Result<String, ErrorInfo>,
        message_id: String,
        replayed: bool,
    )
        ensures
            old(self).tools_in_sync() ==> final(self).tools_in_sync(),
            final(self).agent_loop.session_core.outbox.deep_view() == turn_reported(
                old(self).agent_loop.session_core.outbox.deep_view(),
                result,
                message_id@,
                replayed,
            ),
            *final(self) == (SessionTask {
                agent_loop: AgentLoop {
                    session_core: SessionCore {
                        outbox: final(self).agent_loop.session_core.outbox,
                        ..old(self).agent_loop.session_core
                    },
                    ..old(self).agent_loop
                },
                ..*old(self)
            }),
    {
        match result {
            Ok(response) => {
                self.agent_loop.session_core.send(
                    ChunkEvent::Done { content: response, message_id },
                );
                if !replayed {
                    self.agent_loop.session_core.send(ChunkEvent::NewDataAvailable);
                }
            },
            Err(e) => {
                self.agent_loop.session_core.send(
                    ChunkEvent::Error {
                        user_message: e.user_message,
                        detail: e.detail,
                        error_type: e.error_type,
                        message_id,
                    },
                );
            },
        }
    }

    /// Tool results were compressed: where any was, the session state is
    /// published.
    pub fn tool_results_compressed(&mut self, compressed: usize)
        ensures
            old(self).tools_in_sync() ==> final(self).tools_in_sync(),
            final(self).agent_loop.session_core.outbox.deep_view() == (if compressed > 0 {
                old(self).agent_loop.session_core.outbox.deep_view().push(ChunkView::SessionState)
            } else {
                old(self).agent_loop.session_core.outbox.deep_view()
            }),
            *final(self) == (SessionTask {
                agent_loop: AgentLoop {
                    session_core: SessionCore {
                        outbox: final(self).agent_loop.session_core.outbox,
                        ..old(self).agent_loop.session_core
                    },
                    ..old(self).agent_loop
                },
                ..*old(self)
            }),
    {
        if compressed > 0 {
            self.agent_loop.session_core.send(ChunkEvent::SessionState);
        }
    }

    // ── Messages ────────────────────────────────────────────────────────

    /// The model that a forced summary is for.
    pub open spec fn compaction_model(&self) -> Seq<char> {
        match self.agent_loop.session.model {
            Some(m) => m@,
            None => "default"@,
        }
    }

    fn compaction_model_name(&self) -> (r: String)
        ensures
            r@ == self.compaction_model(),
    {
        match &self.agent_loop.session.model {
            Some(m) => m.clone(),
            None => "default".to_owned(),
        }
    }

    /// The settings that a push leaves behind: the core takes them over, the
    /// session takes over the temperature, the model is shown the tools that
    /// are then enabled, a new window is reported, and the state published.
    pub open spec fn config_pushed(
        before: SessionTask,
        after: SessionTask,
        overrides: RuntimeConfigOverrides,
        facts: TaskFacts,
    ) -> bool {
        let core = after.agent_loop.core;
        let model = before.agent_loop.current_model();
        let reported = match (overrides.context_window, before.agent_loop.core.caps(model)) {
            (Some(_), Some(caps)) => before.agent_loop.session_core.outbox.deep_view().push(
                ChunkView::ContextUsage(
                    usage_report(
                        caps,
                        after.agent_loop.effective_window(caps),
                        after.agent_loop.effective_usable(caps, facts.input_budget),
                        facts.history_tokens,
                        0,
                        facts.usage_percent,
                        facts.totals,
                    ),
                ),
            ),
            _ => before.agent_loop.session_core.outbox.deep_view(),
        };
        &&& core.overrides.deep_view() == before.agent_loop.core.overrides.deep_view().merged(
            overrides.deep_view(),
        )
        &&& core.builtin_tools.deep_view() == AgentCore::synced_tools(
            before.agent_loop.core.builtin_tools.deep_view(),
            before.agent_loop.core.platform_tools.deep_view(),
            overrides.tool_compression_enabled,
        )
        &&& after.context.tool_definitions.deep_view() == visible_specs(
            core.builtin_tools.deep_view(),
        )
        &&& after.agent_loop.session.temperature == newer(
            before.agent_loop.session.temperature,
            overrides.temperature,
        )
        &&& after.agent_loop.session_core.outbox.deep_view() == reported.push(
            ChunkView::SessionState,
        )
        &&& after == (SessionTask {
            agent_loop: AgentLoop {
                core: AgentCore {
                    overrides: core.overrides,
                    builtin_tools: core.builtin_tools,
                    ..before.agent_loop.core
                },
                session: SessionState {
                    temperature: after.agent_loop.session.temperature,
                    ..before.agent_loop.session
                },
                session_core: SessionCore {
                    outbox: after.agent_loop.session_core.outbox,
                    ..before.agent_loop.session_core
                },
                ..before.agent_loop
            },
            context: TaskContext {
                tool_definitions: after.context.tool_definitions,
                ..before.context
            },
            ..before
        })
    }

    fn push_config(&mut self, overrides: &RuntimeConfigOverrides, facts: &TaskFacts)
        ensures
            Self::config_pushed(*old(self), *final(self), *overrides, *facts),
    {
        self.agent_loop.core.apply_runtime_config(overrides);
        self.context.tool_definitions = rebuild_context_tool_definitions(
            &self.agent_loop.core.builtin_tools,
        );
        self.agent_loop.apply_runtime_config(
            overrides,
            facts.input_budget,
            facts.history_tokens,
            facts.usage_percent,
            facts.totals,
        );
        self.agent_loop.session_core.send(ChunkEvent::SessionState);
    }

    /// Only the tools changed, and what the model sees of them.
    pub open spec fn only_tools(before: SessionTask, after: SessionTask) -> bool {
        after == (SessionTask {
            agent_loop: AgentLoop {
                core: AgentCore {
                    builtin_tools: after.agent_loop.core.builtin_tools,
                    ..before.agent_loop.core
                },
                ..before.agent_loop
            },
            context: TaskContext {
                tool_definitions: after.context.tool_definitions,
                ..before.context
            },
            ..before
        })
    }

    /// What a chat message leaves behind, and what it asks for.
    pub open spec fn chat_taken(
        before: SessionTask,
        after: SessionTask,
        content: Seq<char>,
        message_id: Seq<char>,
        skill_instructions: Option<String>,
        attached_items: Option<Vec<AttachedItem>>,
        content_parts: Option<Vec<ContentPart>>,
        debug_state: Option<DebugState>,
        r: TaskStep,
    ) -> bool {
        if empty_message(content, attached_items, content_parts) {
            r is Next && after == before
        } else {
            &&& r matches TaskStep::RunTurn(turn) && {
                &&& turn.content@ == (match attached_items {
                    Some(items) => hinted(
                        content,
                        items.deep_view(),
                        Some(before.agent_loop.core.work_dir@),
                    ),
                    None => content,
                })
                &&& turn.raw_user_message@ == content
                &&& turn.message_id@ == message_id
                &&& turn.attached_items == attached_items
                &&& turn.content_parts == content_parts
                &&& turn.derive_images == (attached_items matches Some(items) && items.len() > 0)
                &&& turn.resume_debugger == (debug_state == Some(DebugState::Paused) || debug_state
                    == Some(DebugState::Stopped))
            }
            &&& after.last_user_message matches Some(pair) && pair.0@ == content && pair.1@
                == message_id
            &&& after.context.skill_instructions == skill_instructions
            &&& after == (SessionTask {
                context: TaskContext {
                    skill_instructions: after.context.skill_instructions,
                    ..before.context
                },
                last_user_message: after.last_user_message,
                ..before
            })
        }
    }

    /// The model is shown exactly the tools that are enabled.
    pub open spec fn tools_in_sync(&self) -> bool {
        self.context.tool_definitions.deep_view() == visible_specs(
            self.agent_loop.core.builtin_tools.deep_view(),
        )
    }

    /// A chat message: one with nothing in it is ignored; any other is kept
    /// for the debugger, its skill takes the place of the last one, and its
    /// turn is run with hints for what is attached.
    pub fn on_chat_message(
        &mut self,
        content: String,
        message_id: String,
        skill_instructions: Option<String>,
        attached_items: Option<Vec<AttachedItem>>,
        content_parts: Option<Vec<ContentPart>>,
        debug_state: Option<DebugState>,
    ) -> (r: TaskStep)
        ensures
            old(self).tools_in_sync() ==> final(self).tools_in_sync(),
            Self::chat_taken(
                *old(self),
                *final(self),
                content@,
                message_id@,
                skill_instructions,
                attached_items,
                content_parts,
                debug_state,
                r,
            ),
    {
        let has_attached = match &attached_items {
            Some(items) => !items.is_empty(),
            None => false,
        };
        let has_parts = match &content_parts {
            Some(parts) => !parts.is_empty(),
            None => false,
        };
        if trim(content.as_str()).as_str().is_empty() && !has_attached && !has_parts {
            return TaskStep::Next;
        }
        self.last_user_message = Some((content.clone(), message_id.clone()));
        let hinted_content = build_attachment_hint(
            content.as_str(),
            match &attached_items {
                Some(items) => Some(items.as_slice()),
                None => None,
            },
            Some(self.agent_loop.core.work_dir.as_str()),
        );
        proof {
            if let Some(items) = &attached_items {
                assert(items.deep_view() =~= items@.map_values(|i: AttachedItem| i.deep_view()));
            }
        }
        self.context.skill_instructions = skill_instructions;
        let resume_debugger = match debug_state {
            Some(DebugState::Paused) => true,
            Some(DebugState::Stopped) => true,
            _ => false,
        };
        TaskStep::RunTurn(
            ChatTurn {
                content: hinted_content,
                raw_user_message: content,
                message_id,
                attached_items,
                content_parts,
                derive_images: has_attached,
                resume_debugger,
            },
        )
    }

    /// The task once a message was taken, and what has to be done outside.
    pub open spec fn message_taken(
        before: SessionTask,
        after: SessionTask,
        msg: Option<SessionMessage>,
        facts: TaskFacts,
        r: TaskStep,
    ) -> bool {
        match msg {
            None => r is Shutdown && after == before,
            Some(SessionMessage::Close) => r is Shutdown && after == before,
            Some(SessionMessage::ChatMessage {
                content,
                message_id,
                skill_instructions,
                attached_items,
                content_parts,
            }) => Self::chat_taken(
                before,
                after,
                content@,
                message_id@,
                skill_instructions,
                attached_items,
                content_parts,
                facts.debug_state,
                r,
            ),
            Some(SessionMessage::ContinueExecution) => {
                &&& r matches TaskStep::ContinueExecution { reason } && reason@
                    == "user_requested"@
                &&& after == before
            },
            Some(SessionMessage::UpdateRuntimeConfig(overrides)) => r is Next
                && Self::config_pushed(before, after, overrides, facts),
            Some(SessionMessage::UpdateWorkspaceContext { context_text }) => {
                &&& r is Next
                &&& after == (SessionTask {
                    context: TaskContext {
                        workspace_context: Some(context_text),
                        ..before.context
                    },
                    ..before
                })
            },
            Some(SessionMessage::UpdateMcpTools { mcp_tools }) => {
                &&& r is Next
                &&& after == (SessionTask {
                    agent_loop: AgentLoop {
                        core: AgentCore { mcp_tools, ..before.agent_loop.core },
                        ..before.agent_loop
                    },
                    ..before
                })
            },
            Some(SessionMessage::UpdateBuiltinTools { entries }) => {
                &&& r is Next
                &&& after.agent_loop.core.builtin_tools.deep_view() == all_flagged(
                    before.agent_loop.core.builtin_tools.deep_view(),
                    entries.deep_view(),
                )
                &&& after.context.tool_definitions.deep_view() == visible_specs(
                    after.agent_loop.core.builtin_tools.deep_view(),
                )
                &&& Self::only_tools(before, after)
            },
            Some(SessionMessage::AddDynamicBuiltinTool { entry }) => {
                &&& r is Next
                &&& after.agent_loop.core.builtin_tools.deep_view() == with_tool(
                    before.agent_loop.core.builtin_tools.deep_view(),
                    entry.deep_view(),
                )
                &&& after.context.tool_definitions.deep_view() == visible_specs(
                    after.agent_loop.core.builtin_tools.deep_view(),
                )
                &&& Self::only_tools(before, after)
            },
            Some(SessionMessage::RemoveDynamicBuiltinTool { name }) => {
                &&& r is Next
                &&& after.agent_loop.core.builtin_tools.deep_view() == without_tool(
                    before.agent_loop.core.builtin_tools.deep_view(),
                    name@,
                )
                &&& after.context.tool_definitions.deep_view() == (if first_named(
                    before.agent_loop.core.builtin_tools.deep_view(),
                    name@,
                    0,
                ) is Some {
                    visible_specs(after.agent_loop.core.builtin_tools.deep_view())
                } else {
                    before.context.tool_definitions.deep_view()
                })
                &&& Self::only_tools(before, after)
            },
            Some(SessionMessage::UpdateSessionTitle { title }) => {
                &&& r is Next
                &&& after.agent_loop.session.conversation.deep_view() == (
                match before.agent_loop.session.conversation {
                    Some(c) => Some(c.deep_view().titled(title@)),
                    None => None,
                })
                &&& after == (SessionTask {
                    agent_loop: AgentLoop {
                        session: SessionState {
                            conversation: after.agent_loop.session.conversation,
                            ..before.agent_loop.session
                        },
                        ..before.agent_loop
                    },
                    ..before
                })
            },
            Some(SessionMessage::SetWorkDir { .. }) => r is Next && after == before,
            Some(SessionMessage::SetWorkspacePromptFile { content }) => {
                &&& r is Next
                &&& after == (SessionTask {
                    context: TaskContext {
                        workspace_prompt_file: content,
                        ..before.context
                    },
                    ..before
                })
            },
            Some(SessionMessage::UpdateIdentityContext { identity_context }) => {
                let next = match identity_context {
                    Some(text) => text@,
                    None => Seq::empty(),
                };
                &&& r is Next
                &&& after.context.identity_context.deep_view() == Some(next)
                &&& after.agent_loop.session.identity_context.deep_view() == (
                if next.len() == 0 {
                    None
                } else {
                    Some(next)
                })
                &&& after == (SessionTask {
                    agent_loop: AgentLoop {
                        session: SessionState {
                            identity_context: after.agent_loop.session.identity_context,
                            ..before.agent_loop.session
                        },
                        ..before.agent_loop
                    },
                    context: TaskContext {
                        identity_context: after.context.identity_context,
                        ..before.context
                    },
                    ..before
                })
            },
            Some(SessionMessage::ProviderListUpdated) => {
                &&& r is Next
                &&& after.agent_loop.session_core.outbox.deep_view()
                    == before.agent_loop.session_core.outbox.deep_view().push(
                    ChunkView::SessionState,
                )
                &&& after == (SessionTask {
                    agent_loop: AgentLoop {
                        session_core: SessionCore {
                            outbox: after.agent_loop.session_core.outbox,
                            ..before.agent_loop.session_core
                        },
                        ..before.agent_loop
                    },
                    ..before
                })
            },
            Some(SessionMessage::Stop { reason }) => {
                &&& r matches TaskStep::ForwardStop { reason: why } && why == reason
                &&& after == before
            },
            Some(SessionMessage::EnableDebugMode) => r is EnableDebug && after == before,
            Some(SessionMessage::CompactContext) => {
                &&& r matches TaskStep::Compact { model_name } && model_name@
                    == before.compaction_model()
                &&& after == before
            },
            Some(SessionMessage::CompressAction(CompressionAction::CompressSummary)) => {
                &&& r matches TaskStep::Compact { model_name } && model_name@
                    == before.compaction_model()
                &&& after == before
            },
            Some(SessionMessage::CompressAction(CompressionAction::CompressToolResults)) => r
                is CompressToolResults && after == before,
            Some(SessionMessage::UpdateEmbedConfig {
                embed_endpoint,
                embed_model_id,
                embed_dimension,
            }) => {
                &&& r matches TaskStep::SwitchEmbedding {
                    endpoint,
                    model_id,
                    dimension,
                    migrate,
                } && {
                    &&& endpoint == embed_endpoint
                    &&& model_id == embed_model_id
                    &&& dimension == embed_dimension
                    &&& migrate == (facts.embedding_dim matches Some(d) && d
                        != embed_dimension)
                }
                &&& after == before
            },
            Some(SessionMessage::DisableEmbedConfig) => r is DisableEmbedding && after
                == before,
            Some(SessionMessage::SystemNotification { content }) => {
                &&& r is Next
                &&& after.agent_loop.session.history.deep_view() == (
                if before.agent_loop.session.history.len() == 0 {
                    before.agent_loop.session.history.deep_view()
                } else {
                    before.agent_loop.session.history.deep_view().push(
                        ChatMessageView::plain(
                            MessageRole::User,
                            "[System Notification] "@ + content@,
                        ),
                    )
                })
                &&& after == (SessionTask {
                    agent_loop: AgentLoop {
                        session: SessionState {
                            history: after.agent_loop.session.history,
                            ..before.agent_loop.session
                        },
                        ..before.agent_loop
                    },
                    ..before
                })
            },
        }
    }

    /// Takes one message; `None` is the end of all messages. Says what has to
    /// be done outside. Where the model was shown the tools that are enabled,
    /// it still is.
    pub fn on_message(&mut self, msg: Option<SessionMessage>, facts: &TaskFacts) -> (r: TaskStep)
        ensures
            old(self).tools_in_sync() ==> final(self).tools_in_sync(),
            Self::message_taken(*old(self), *final(self), msg, *facts, r),
    {
        let msg = match msg {
            Some(m) => m,
            None => {
                return TaskStep::Shutdown;
            },
        };
        match msg {
            SessionMessage::Close => TaskStep::Shutdown,
            SessionMessage::ChatMessage {
                content,
                message_id,
                skill_instructions,
                attached_items,
                content_parts,
            } => self.on_chat_message(
                content,
                message_id,
                skill_instructions,
                attached_items,
                content_parts,
                facts.debug_state,
            ),
            SessionMessage::ContinueExecution => TaskStep::ContinueExecution {
                reason: "user_requested".to_owned(),
            },
            SessionMessage::UpdateRuntimeConfig(overrides) => {
                self.push_config(&overrides, facts);
                TaskStep::Next
            },
            SessionMessage::UpdateWorkspaceContext { context_text } => {
                self.context.workspace_context = Some(context_text);
                TaskStep::Next
            },
            SessionMessage::UpdateMcpTools { mcp_tools } => {
                self.agent_loop.core.mcp_tools = mcp_tools;
                TaskStep::Next
            },
            SessionMessage::UpdateBuiltinTools { entries } => {
                apply_builtin_enabled_entries(&mut self.agent_loop.core.builtin_tools, &entries);
                self.context.tool_definitions = rebuild_context_tool_definitions(
                    &self.agent_loop.core.builtin_tools,
                );
                TaskStep::Next
            },
            SessionMessage::AddDynamicBuiltinTool { entry } => {
                let _ = add_tool(&mut self.agent_loop.core.builtin_tools, entry);
                self.context.tool_definitions = rebuild_context_tool_definitions(
                    &self.agent_loop.core.builtin_tools,
                );
                TaskStep::Next
            },
            SessionMessage::RemoveDynamicBuiltinTool { name } => {
                proof {
                    lemma_nothing_to_remove(
                        self.agent_loop.core.builtin_tools.deep_view(),
                        name@,
                    );
                }
                let removed = remove_tool(
                    &mut self.agent_loop.core.builtin_tools,
                    name.as_str(),
                );
                if removed {
                    self.context.tool_definitions = rebuild_context_tool_definitions(
                        &self.agent_loop.core.builtin_tools,
                    );
                }
                TaskStep::Next
            },
            SessionMessage::UpdateSessionTitle { title } => {
                let _ = self.agent_loop.update_session_title(title.as_str());
                TaskStep::Next
            },
            SessionMessage::SetWorkDir { .. } => TaskStep::Next,
            SessionMessage::SetWorkspacePromptFile { content } => {
                self.context.workspace_prompt_file = content;
                TaskStep::Next
            },
            SessionMessage::UpdateIdentityContext { identity_context } => {
                let next = match identity_context {
                    Some(text) => text,
                    None => {
                        let none = String::new();
                        assert(none@ =~= Seq::empty());
                        none
                    },
                };
                self.agent_loop.session.identity_context = if next.as_str().is_empty() {
                    None
                } else {
                    Some(next.clone())
                };
                self.context.identity_context = Some(next);
                TaskStep::Next
            },
            SessionMessage::ProviderListUpdated => {
                self.agent_loop.session_core.send(ChunkEvent::SessionState);
                TaskStep::Next
            },
            SessionMessage::Stop { reason } => TaskStep::ForwardStop { reason },
            SessionMessage::EnableDebugMode => TaskStep::EnableDebug,
            SessionMessage::CompactContext => TaskStep::Compact {
                model_name: self.compaction_model_name(),
            },
            SessionMessage::CompressAction(action) => match action {
                CompressionAction::CompressToolResults => TaskStep::CompressToolResults,
                CompressionAction::CompressSummary => TaskStep::Compact {
                    model_name: self.compaction_model_name(),
                },
            },
            SessionMessage::UpdateEmbedConfig {
                embed_endpoint,
                embed_model_id,
                embed_dimension,
            } => {
                let migrate = match facts.embedding_dim {
                    Some(d) => d != embed_dimension,
                    None => false,
                };
                TaskStep::SwitchEmbedding {
                    endpoint: embed_endpoint,
                    model_id: embed_model_id,
                    dimension: embed_dimension,
                    migrate,
                }
            },
            SessionMessage::DisableEmbedConfig => TaskStep::DisableEmbedding,
            SessionMessage::SystemNotification { content } => {
                if !self.agent_loop.session.history.is_empty() {
                    let text = crate::text::join2("[System Notification] ", content.as_str());
                    self.agent_loop.append_history(ChatMessage::user(text));
                }
                TaskStep::Next
            },
        }
    }
}

/// A message of nothing but space, with nothing attached, starts no turn; one
/// with a visible character, an attachment or a part does.
pub proof fn blank_messages_start_no_turn(
    content: Seq<char>,
    attached: Option<Vec<AttachedItem>>,
    parts: Option<Vec<ContentPart>>,
    i: int,
)
    ensures
        0 <= i < content.len() && !is_space(content[i]) ==> !empty_message(
            content,
            attached,
            parts,
        ),
        attached is Some && attached->0.len() > 0 ==> !empty_message(content, attached, parts),
        parts is Some && parts->0.len() > 0 ==> !empty_message(content, attached, parts),
        (forall|k: int| 0 <= k < content.len() ==> is_space(#[trigger] content[k])) && (attached
            is None || attached->0.len() == 0) && (parts is None || parts->0.len() == 0)
            ==> empty_message(content, attached, parts),
{
    trimming_takes_only_outer_space(content);
    let t = trim_spec(content);
    let (a, b) = choose|a: int, b: int|
        0 <= a <= b <= content.len() && t == #[trigger] content.subrange(a, b) && (forall|k: int|
            0 <= k < a || b <= k < content.len() ==> is_space(#[trigger] content[k]));
    if t.len() > 0 {
        assert(t[0] == content[a]);
    }
}

/// A turn runs with the user's words, and with hints for what they attached; the
/// words alone and the id are kept for a second run.
pub proof fn turns_run_with_the_users_words(
    before: SessionTask,
    after: SessionTask,
    content: Seq<char>,
    message_id: Seq<char>,
    skill: Option<String>,
    attached: Option<Vec<AttachedItem>>,
    parts: Option<Vec<ContentPart>>,
    debug_state: Option<DebugState>,
    r: TaskStep,
)
    requires
        SessionTask::chat_taken(
            before,
            after,
            content,
            message_id,
            skill,
            attached,
            parts,
            debug_state,
            r,
        ),
    ensures
        r is RunTurn <==> !empty_message(content, attached, parts),
        r matches TaskStep::RunTurn(turn) ==> {
            &&& turn.raw_user_message@ == content
            &&& turn.message_id@ == message_id
            &&& attached is None ==> turn.content@ == content
            &&& attached matches Some(items) ==> turn.content@ == hinted(
                content,
                items.deep_view(),
                Some(before.agent_loop.core.work_dir@),
            )
            &&& turn.attached_items == attached
            &&& turn.content_parts == parts
            &&& turn.derive_images <==> attached is Some && attached->0.len() > 0
            &&& turn.resume_debugger <==> debug_state == Some(DebugState::Paused) || debug_state
                == Some(DebugState::Stopped)
            &&& after.last_user_message matches Some(pair) && pair.0@ == content && pair.1@
                == message_id
            &&& after.context.skill_instructions == skill
            &&& after.agent_loop == before.agent_loop
        },
        !(r is RunTurn) ==> r is Next && after == before,
{
}

/// Messages that are for the host change nothing here, and the host is told what
/// they say.
pub proof fn the_host_is_told_what_it_has_to_do(
    before: SessionTask,
    after: SessionTask,
    msg: Option<SessionMessage>,
    facts: TaskFacts,
    r: TaskStep,
)
    requires
        SessionTask::message_taken(before, after, msg, facts, r),
    ensures
        msg is None || msg->0 is Close ==> r is Shutdown,
        r is Shutdown ==> (msg is None || msg->0 is Close) && after == before,
        msg matches Some(SessionMessage::ContinueExecution) ==> r is ContinueExecution
            && r->ContinueExecution_reason@ == "user_requested"@ && after == before,
        msg matches Some(SessionMessage::Stop { reason }) ==> r is ForwardStop
            && r->ForwardStop_reason == reason && after == before,
        msg matches Some(SessionMessage::EnableDebugMode) ==> r is EnableDebug && after == before,
        msg matches Some(SessionMessage::DisableEmbedConfig) ==> r is DisableEmbedding && after
            == before,
        msg matches Some(SessionMessage::CompressAction(CompressionAction::CompressToolResults))
            ==> r is CompressToolResults && after == before,
        msg matches Some(SessionMessage::CompactContext) ==> r is Compact && after == before,
        msg matches Some(SessionMessage::CompressAction(CompressionAction::CompressSummary)) ==> r
            is Compact && after == before,
        r is Compact ==> {
            &&& before.agent_loop.session.model matches Some(m) ==> r->model_name@ == m@
            &&& before.agent_loop.session.model is None ==> r->model_name@ == "default"@
        },
        msg matches Some(
            SessionMessage::UpdateEmbedConfig { embed_endpoint, embed_model_id, embed_dimension },
        ) ==> {
            &&& r is SwitchEmbedding && after == before
            &&& r->endpoint == embed_endpoint
            &&& r->model_id == embed_model_id
            &&& r->dimension == embed_dimension
            &&& r->migrate <==> facts.embedding_dim is Some && facts.embedding_dim->0
                != embed_dimension
        },
{
}

/// Messages that change what the next request holds: the workspace, its prompt
/// file, the user, the title, the servers' tools.
pub proof fn the_next_request_follows_the_messages(
    before: SessionTask,
    after: SessionTask,
    msg: Option<SessionMessage>,
    facts: TaskFacts,
    r: TaskStep,
)
    requires
        SessionTask::message_taken(before, after, msg, facts, r),
    ensures
        msg matches Some(SessionMessage::UpdateWorkspaceContext { context_text }) ==> r is Next
            && after.context.workspace_context == Some(context_text) && after.agent_loop
            == before.agent_loop,
        msg matches Some(SessionMessage::SetWorkspacePromptFile { content }) ==> r is Next
            && after.context.workspace_prompt_file == content && after.agent_loop
            == before.agent_loop,
        msg matches Some(SessionMessage::UpdateMcpTools { mcp_tools }) ==> r is Next
            && after.agent_loop.core.mcp_tools == mcp_tools && after.context == before.context,
        msg matches Some(SessionMessage::UpdateIdentityContext { identity_context }) ==> {
            &&& r is Next
            &&& after.context.identity_context is Some
            &&& identity_context matches Some(text) ==> after.context.identity_context->0@ == text@
            &&& identity_context is None ==> after.context.identity_context->0@.len() == 0
            &&& identity_context is Some && identity_context->0@.len() > 0
                ==> after.agent_loop.session.identity_context.deep_view() == Some(
                identity_context->0@,
            )
            &&& identity_context is None || identity_context->0@.len() == 0
                ==> after.agent_loop.session.identity_context is None
        },
        msg matches Some(SessionMessage::UpdateSessionTitle { title }) ==> r is Next && (
        before.agent_loop.session.conversation is Some
            ==> after.agent_loop.session.conversation.deep_view()->0.config.title == Some(title@)),
        msg matches Some(SessionMessage::SystemNotification { content }) ==> {
            let had = before.agent_loop.session.history.deep_view();
            let has = after.agent_loop.session.history.deep_view();
            &&& r is Next
            &&& had.len() == 0 ==> has == had
            &&& had.len() > 0 ==> has.len() == had.len() + 1 && has.take(had.len() as int) == had
                && has.last().role == MessageRole::User && has.last().content
                == "[System Notification] "@ + content@
        },
        msg matches Some(SessionMessage::ProviderListUpdated) ==> r is Next
            && after.agent_loop.session_core.outbox.deep_view()
            == before.agent_loop.session_core.outbox.deep_view().push(ChunkView::SessionState),
{
    let had = before.agent_loop.session.history.deep_view();
    let has = after.agent_loop.session.history.deep_view();
    if msg is Some && msg->0 is SystemNotification && had.len() > 0 {
        assert(has.take(had.len() as int) =~= had);
    }
}

/// Messages about tools change the tools as they say, and the model is shown
/// those that are enabled.
pub proof fn tools_follow_the_messages(
    before: SessionTask,
    after: SessionTask,
    msg: Option<SessionMessage>,
    facts: TaskFacts,
    r: TaskStep,
)
    requires
        SessionTask::message_taken(before, after, msg, facts, r),
        before.tools_in_sync(),
    ensures
        ({
            let had = before.agent_loop.core.builtin_tools.deep_view();
            let has = after.agent_loop.core.builtin_tools.deep_view();
            &&& msg matches Some(SessionMessage::UpdateBuiltinTools { entries }) ==> has
                == all_flagged(had, entries.deep_view()) && after.tools_in_sync()
            &&& msg matches Some(SessionMessage::AddDynamicBuiltinTool { entry }) ==> has
                == with_tool(had, entry.deep_view()) && after.tools_in_sync()
            &&& msg matches Some(SessionMessage::RemoveDynamicBuiltinTool { name }) ==> has
                == without_tool(had, name@) && after.tools_in_sync()
        }),
{
    match msg {
        Some(SessionMessage::RemoveDynamicBuiltinTool { name }) => {
            lemma_nothing_to_remove(before.agent_loop.core.builtin_tools.deep_view(), name@);
        },
        _ => {},
    }
}

/// A push of settings is kept, a pushed temperature becomes the session's, the
/// frontend hears of the state, and of the context where its size was pushed and
/// the model is known.
pub proof fn pushed_settings_are_kept(
    before: SessionTask,
    after: SessionTask,
    overrides: RuntimeConfigOverrides,
    facts: TaskFacts,
)
    requires
        SessionTask::config_pushed(before, after, overrides, facts),
    ensures
        ({
            let kept = after.agent_loop.core.overrides.deep_view();
            let had = before.agent_loop.session_core.outbox.deep_view();
            let sent = after.agent_loop.session_core.outbox.deep_view();
            let reports = overrides.context_window is Some && before.agent_loop.core.caps(
                before.agent_loop.current_model(),
            ) is Some;
            &&& overrides.deep_view().max_iterations is Some ==> kept.max_iterations
                == overrides.deep_view().max_iterations
            &&& overrides.deep_view().context_window is Some ==> kept.context_window
                == overrides.deep_view().context_window
            &&& overrides.temperature is Some ==> after.agent_loop.session.temperature
                == overrides.temperature
            &&& overrides.temperature is None ==> after.agent_loop.session.temperature
                == before.agent_loop.session.temperature
            &&& sent.last() == ChunkView::SessionState
            &&& sent.len() == had.len() + (if reports {
                2int
            } else {
                1
            })
            &&& reports ==> sent[had.len() as int] is ContextUsage
            &&& after.tools_in_sync()
            &&& after.agent_loop.session.history == before.agent_loop.session.history
            &&& after.agent_loop.session.model == before.agent_loop.session.model
        }),
{
}

/// A session that begins to run announces its state, and then how full its
/// context was, where that was stored and its model is known; what it knows of
/// the user is what its requests hold.
pub proof fn sessions_announce_themselves(
    before: SessionTask,
    after: SessionTask,
    persisted: Option<ContextUsageInfo>,
)
    requires
        SessionTask::started(before, after, persisted),
    ensures
        ({
            let had = before.agent_loop.session_core.outbox.deep_view();
            let sent = after.agent_loop.session_core.outbox.deep_view();
            let model = match before.agent_loop.session.model {
                Some(m) => m@,
                None => "unknown"@,
            };
            let reports = before.agent_loop.session.conversation is Some && persisted is Some
                && before.agent_loop.core.caps(model) is Some;
            &&& sent[had.len() as int] == ChunkView::SessionState
            &&& reports ==> sent.len() == had.len() + 2 && sent.last() == ChunkView::ContextUsage(
                persisted->0,
            )
            &&& !reports ==> sent.len() == had.len() + 1
            &&& after.agent_loop.session.identity_context.deep_view()
                == before.context.identity_context.deep_view()
        }),
{
}

/// The end of a turn is told once, with its id: by the answer, or by the error
/// as it was put into words; that the log holds new lines is told only of an
/// answer to a new message.
pub proof fn ends_of_turns_are_told(
    outbox: Seq<ChunkView>,
    result: Result<String, ErrorInfo>,
    message_id: Seq<char>,
    replayed: bool,
)
    ensures
        ({
            let sent = turn_reported(outbox, result, message_id, replayed);
            let told = sent[outbox.len() as int];
            &&& sent.take(outbox.len() as int) == outbox
            &&& result matches Ok(response) ==> told is Done && told->Done_content == response@
                && told->Done_message_id == message_id
            &&& result matches Err(e) ==> told is Error && told->user_message == e.user_message@
                && told->detail == e.detail@ && told->error_type == e.error_type@
                && told->Error_message_id == message_id
            &&& sent.len() == outbox.len() + 2 <==> result is Ok && !replayed
            &&& sent.len() == outbox.len() + 1 <==> result is Err || replayed
            &&& result is Ok && !replayed ==> sent.last() == ChunkView::NewDataAvailable
        }),
{
    let sent = turn_reported(outbox, result, message_id, replayed);
    assert(sent.take(outbox.len() as int) =~= outbox);
}

/// Settings are taken over where the log has a version of them that was not yet
/// seen; without a log there are none.
pub proof fn unseen_settings_are_taken_over(t: SessionTask)
    ensures
        t.agent_loop.session.conversation is None ==> !t.config_is_stale(),
        t.agent_loop.session.conversation matches Some(c) ==> (t.config_is_stale()
            <==> c.config_version != t.last_config_version),
{
}

/// A task begins with what the session is: its history, its model, the settings
/// that were pushed, of which a temperature becomes the session's own; it shows
/// the model the tools that are enabled, and has seen the settings that the log
/// holds.
pub proof fn tasks_begin_with_their_session(
    t: SessionTask,
    core: AgentCore,
    session: SessionState,
    dynamic_tools: Seq<BuiltinView>,
    overrides: RuntimeConfigOverrides,
)
    requires
        t.is_built_from(core, session, dynamic_tools, overrides),
    ensures
        t.tools_in_sync(),
        !t.config_is_stale(),
        t.agent_loop.session.history == session.history,
        t.agent_loop.session.model == session.model,
        t.agent_loop.session.conversation == session.conversation,
        session.model matches Some(m) ==> t.agent_loop.core.model@ == m@ && (
        t.context.override_model.deep_view() == Some(m@)),
        session.model is None ==> t.agent_loop.core.model@.len() == 0
            && t.context.override_model is None,
        overrides.deep_view().temperature is Some ==> t.agent_loop.session.temperature
            == overrides.deep_view().temperature,
        overrides.deep_view().temperature is None && core.overrides.deep_view().temperature is Some
            ==> t.agent_loop.session.temperature == core.overrides.deep_view().temperature,
        overrides.deep_view().temperature is None && core.overrides.deep_view().temperature is None
            ==> t.agent_loop.session.temperature == session.temperature,
        t.agent_loop.core.global_provider_list == core.global_provider_list,
        t.last_user_message is None,
{
}

/// A message is run again where the debugger goes on or takes a step.
pub proof fn debuggers_run_messages_again()
    ensures
        runs_again(Some(DebugState::Running)),
        runs_again(Some(DebugState::Stepping)),
        !runs_again(Some(DebugState::Paused)),
        !runs_again(Some(DebugState::Stopped)),
        !runs_again(None),
{
}

} // verus!
