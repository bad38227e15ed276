//! Creating and resuming sessions.

use vstd::prelude::*;

use crate::agent_loop::AgentCore;
use crate::builtin_tools::{
    all_flagged, compression_off_removes_platform_tools, flagged, platform_protected,
    visible_specs, with_tools, ToolFlagView,
};
use crate::conversation::{ConversationSession, ConversationView};
use crate::error::RuntimeError;
use crate::ids::{is_uuid_v4, new_uuid};
use crate::llm_effects::effort_text;
use crate::manager_workspace::{briefed, moved};
use crate::message::ChatMessageView;
use crate::restorer::{RestoreError, RestoreOutcome};
use crate::session::{
    EffortView, ReasoningEffort, SessionCore, SessionSnapshot, SessionState, SessionStatus,
    SnapshotView, StatusView, Temperature,
};
use crate::session_config::{
    effective_effort, resolve_effective_reasoning_effort, SessionConfigSnapshot,
};
use crate::session_handle::{HandleView, Link, SessionHandle};
use crate::session_manager::{SessionManager, SessionOpenOutcome};
use crate::session_message::{MessageView, SessionMessage};
use crate::session_task::SessionTask;
use crate::text::{chars_of, same_text};

verus! {

/// A model and a provider, where there are any.
pub type Pair = (Option<Seq<char>>, Option<Seq<char>>);

/// What the host knows when a session starts.
#[derive(Debug)]
pub struct SessionStart {
    /// What the default effort of the session's model stands for.
    pub default_effort: Option<ReasoningEffort>,
    /// What the persisted effort stands for.
    pub persisted_effort: Option<ReasoningEffort>,
    /// The temperature where nothing configures one.
    pub default_temperature: Temperature,
    /// The history of a session that is resumed, see [`usable_history`].
    pub restored: Option<RestoreOutcome>,
    /// The serialised report that the persisted token counts give.
    pub context_usage: Option<String>,
    /// What the model is told of the workspace that the session starts in.
    pub workspace_context: String,
    /// The prompt file of that workspace.
    pub workspace_prompt: Option<String>,
    /// How many settings the lane past the inbox takes.
    pub fast_capacity: usize,
    /// The time, in milliseconds on the host's clock.
    pub now: u64,
}

/// What came of opening a session.
#[derive(Debug)]
pub struct Opened {
    pub outcome: SessionOpenOutcome,
    /// The task of a session that was resumed, for the host to run.
    pub task: Option<SessionTask>,
    /// The input and output tokens of a session that was resumed, for the host
    /// to merge into the totals of the agent.
    pub merge_totals: Option<(u64, u64)>,
}

// ── Restored history ────────────────────────────────────────────────────

/// A text is a given lower-case one, in any case of its ASCII letters.
pub open spec fn same_ignoring_case(s: Seq<char>, lower: Seq<char>) -> bool {
    &&& s.len() == lower.len()
    &&& forall|i: int| 0 <= i < s.len() ==> ascii_lower(#[trigger] s[i]) == lower[i]
}

/// An ASCII capital in lower case; any other character is left.
pub open spec fn ascii_lower(c: char) -> char {
    if 'A' <= c && c <= 'Z' {
        ((c as u32 + 32) as u32) as char
    } else {
        c
    }
}

/// The operator has switched resuming off.
pub open spec fn resume_is_disabled(value: Option<Seq<char>>) -> bool {
    value matches Some(v) && (v == "1"@ || same_ignoring_case(v, seq!['t', 'r', 'u', 'e']))
}

fn matches_letter(c: char, lower: char, upper: char) -> (r: bool)
    requires
        'a' <= lower && lower <= 'z',
        lower as u32 == upper as u32 + 32,
    ensures
        r == (ascii_lower(c) == lower),
{
    c == lower || c == upper
}

/// Whether the operator has switched resuming off: the variable is `1`, or
/// `true` in any case.
pub fn resume_disabled(value: Option<&str>) -> (r: bool)
    ensures
        r == resume_is_disabled(
            match value {
                Some(v) => Some(v@),
                None => None,
            },
        ),
{
    match value {
        Some(v) => {
            if same_text(v, "1") {
                return true;
            }
            let chars = chars_of(v);
            if chars.len() != 4 {
                return false;
            }
            let r = matches_letter(chars[0], 't', 'T') && matches_letter(chars[1], 'r', 'R')
                && matches_letter(chars[2], 'u', 'U') && matches_letter(chars[3], 'e', 'E');
            proof {
                let lower = seq!['t', 'r', 'u', 'e'];
                assert(chars@ =~= v@);
                if r {
                    assert forall|i: int| 0 <= i < v@.len() implies ascii_lower(#[trigger] v@[i])
                        == lower[i] by {
                        if i == 0 {
                        } else if i == 1 {
                        } else if i == 2 {
                        } else {
                            assert(i == 3);
                        }
                    }
                } else if same_ignoring_case(v@, lower) {
                    assert(ascii_lower(v@[0]) == lower[0]);
                    assert(ascii_lower(v@[1]) == lower[1]);
                    assert(ascii_lower(v@[2]) == lower[2]);
                    assert(ascii_lower(v@[3]) == lower[3]);
                }
            }
            r
        },
        None => false,
    }
}

/// The history that a session is resumed with, where there is one.
pub open spec fn history_to_resume(
    disabled: bool,
    restored: Option<Result<RestoreOutcome, RestoreError>>,
) -> Option<RestoreOutcome> {
    match restored {
        Some(Ok(o)) => if !disabled && o.messages.len() > 0 {
            Some(o)
        } else {
            None
        },
        _ => None,
    }
}

/// The history that a session resumes with: none where resuming is switched
/// off, where the log could not be read, or where it holds nothing.
pub fn usable_history(
    disabled: bool,
    restored: Option<Result<RestoreOutcome, RestoreError>>,
) -> (r: Option<RestoreOutcome>)
    ensures
        r == history_to_resume(disabled, restored),
{
    match restored {
        Some(Ok(o)) => if !disabled && o.messages.len() > 0 {
            Some(o)
        } else {
            None
        },
        _ => None,
    }
}

// ── The first state ─────────────────────────────────────────────────────

/// The first temperature that is configured: pushed, of the agent, of its
/// package, else the default.
pub open spec fn first_temperature(
    pushed: Option<Temperature>,
    agent: Option<Temperature>,
    manifest: Option<Temperature>,
    default: Temperature,
) -> Temperature {
    if pushed is Some {
        pushed->0
    } else if agent is Some {
        agent->0
    } else if manifest is Some {
        manifest->0
    } else {
        default
    }
}

/// The effort of a new session. Without a model there is none.
pub open spec fn first_effort(
    core: AgentCore,
    conversation: Option<ConversationView>,
    choice: Pair,
    default_effort: Option<EffortView>,
    persisted_effort: Option<EffortView>,
) -> Option<EffortView> {
    match choice.0 {
        Some(model) => effective_effort(
            core.caps(model),
            default_effort,
            if conversation matches Some(c) && c.config.reasoning_effort is Some {
                persisted_effort
            } else {
                None
            },
        ),
        None => None,
    }
}

/// The conversation of a new session: a model is persisted where it had none,
/// and an effort where it had none.
pub open spec fn settled(
    conversation: Option<ConversationView>,
    choice: Pair,
    effort: Option<EffortView>,
) -> Option<ConversationView> {
    match conversation {
        Some(c) => {
            let with_model = if c.config.model is None && choice.0 is Some {
                c.with_model(choice.0->0, choice.1)
            } else {
                c
            };
            Some(
                if choice.0 is Some && c.config.reasoning_effort is None {
                    with_model.with_effort(effort_text(effort))
                } else {
                    with_model
                },
            )
        },
        None => None,
    }
}

impl SessionManager {
    /// A model and a provider that a session may start with: its own where it
    /// has both, else the pair that was last in use.
    pub open spec fn may_start_with(
        &self,
        conversation: Option<ConversationView>,
        choice: Pair,
    ) -> bool {
        if conversation matches Some(c) && c.config.model is Some && c.config.provider is Some {
            choice == (conversation->0.config.model, conversation->0.config.provider)
        } else {
            self.last_in_use(choice)
        }
    }

    /// The model and the provider that a session starts with.
    pub fn initial_model_and_provider(&self, conversation: &Option<ConversationSession>) -> (r: (
        Option<String>,
        Option<String>,
    ))
        ensures
            self.may_start_with(
                conversation.deep_view(),
                (r.0.deep_view(), r.1.deep_view()),
            ),
    {
        match conversation {
            Some(c) => if c.config.model.is_some() && c.config.provider.is_some() {
                return (c.config.model.clone(), c.config.provider.clone());
            },
            None => {},
        }
        self.current_model_and_provider()
    }

    /// The first state of a session.
    pub open spec fn is_initial_state(
        &self,
        r: SessionState,
        conversation: Option<ConversationView>,
        choice: Pair,
        start: SessionStart,
    ) -> bool {
        let effort = first_effort(
            self.core,
            conversation,
            choice,
            start.default_effort.deep_view(),
            start.persisted_effort.deep_view(),
        );
        &&& r.status.deep_view() == StatusView::Idle
        &&& r.model.deep_view() == choice.0
        &&& r.provider.deep_view() == choice.1
        &&& r.temperature == Some(
            first_temperature(
                self.runtime_overrides.temperature,
                self.core.overrides.temperature,
                self.core.manifest_temperature,
                start.default_temperature,
            ),
        )
        &&& r.reasoning_effort.deep_view() == effort
        &&& r.model_ratio_bits is None
        &&& r.history.deep_view() == (match start.restored {
            Some(o) => o.messages.deep_view(),
            None => Seq::<ChatMessageView>::empty(),
        })
        &&& r.conversation.deep_view() == settled(conversation, choice, effort)
        &&& r.is_compacted == (start.restored matches Some(o) && o.had_compaction)
        &&& r.identity_context is None
        &&& r.todos.len() == 0
    }

    /// What outside readers see of a session before it has run.
    pub open spec fn initial_snapshot(
        &self,
        session_id: Seq<char>,
        conversation: Option<ConversationView>,
        choice: Pair,
        context_usage: Option<Seq<char>>,
    ) -> SnapshotView {
        let model = match choice.0 {
            Some(m) => m,
            None => "unknown"@,
        };
        SnapshotView {
            session_id,
            status: Seq::empty(),
            model: choice.0,
            provider: choice.1,
            ratio_bits: None,
            todos_json: None,
            context_usage: if conversation is Some && self.core.caps(model) is Some {
                context_usage
            } else {
                None
            },
        }
    }

    /// The first state of a session with a given model and provider. Every
    /// field is set when this returns. The host fits the restored history into
    /// the budget of the model.
    pub fn initial_session_state(
        &self,
        session_id: &str,
        conversation: Option<ConversationSession>,
        choice: (Option<String>, Option<String>),
        start: SessionStart,
    ) -> (r: SessionState)
        ensures
            self.is_initial_state(
                r,
                conversation.deep_view(),
                (choice.0.deep_view(), choice.1.deep_view()),
                start,
            ),
            r.snapshot.deep_view() == self.initial_snapshot(
                session_id@,
                conversation.deep_view(),
                (choice.0.deep_view(), choice.1.deep_view()),
                start.context_usage.deep_view(),
            ),
    {
        let (model, provider) = choice;
        let mut conversation = conversation;
        let mut persisted: Option<ReasoningEffort> = None;
        let mut had_effort = false;
        match &conversation {
            Some(c) => if c.config.reasoning_effort.is_some() {
                had_effort = true;
                persisted = start.persisted_effort;
            },
            None => {},
        }
        let mut reasoning_effort: Option<ReasoningEffort> = None;
        match &model {
            Some(m) => {
                reasoning_effort =
                resolve_effective_reasoning_effort(
                    self.core.get_model_capabilities(m.as_str()),
                    start.default_effort,
                    persisted,
                );
                match conversation.take() {
                    Some(mut c) => {
                        if c.config.model.is_none() {
                            c.update_model_provider(m.as_str(), provider.clone());
                        }
                        if !had_effort {
                            let text = match &reasoning_effort {
                                Some(e) => Some(e.to_text()),
                                None => None,
                            };
                            c.update_reasoning_effort(text);
                        }
                        conversation = Some(c);
                    },
                    None => {},
                }
            },
            None => {},
        }
        let temperature = if self.runtime_overrides.temperature.is_some() {
            self.runtime_overrides.temperature
        } else if self.core.overrides.temperature.is_some() {
            self.core.overrides.temperature
        } else if self.core.manifest_temperature.is_some() {
            self.core.manifest_temperature
        } else {
            Some(start.default_temperature)
        };
        let named = match &model {
            Some(m) => m.clone(),
            None => "unknown".to_owned(),
        };
        let known = self.core.get_model_capabilities(named.as_str()).is_some();
        let context_usage = if conversation.is_some() && known {
            start.context_usage
        } else {
            None
        };
        let status = String::new();
        assert(status@ =~= Seq::empty());
        let snapshot = SessionSnapshot {
            session_id: session_id.to_owned(),
            status,
            model: model.clone(),
            provider: provider.clone(),
            ratio_bits: None,
            todos_json: None,
            context_usage,
        };
        let (history, is_compacted) = match start.restored {
            Some(o) => (o.messages, o.had_compaction),
            None => (Vec::new(), false),
        };
        assert(start.restored is None ==> history.deep_view() =~= Seq::<ChatMessageView>::empty());
        SessionState {
            status: SessionStatus::Idle,
            model,
            provider,
            temperature,
            reasoning_effort,
            model_ratio_bits: None,
            history,
            conversation,
            is_compacted,
            identity_context: None,
            todos: Vec::new(),
            snapshot,
        }
    }

    /// Build the first state of a new or resumed session: with its own model
    /// and provider where it has both, else with the pair that was last in
    /// use.
    pub fn build_initial_session_state(
        &self,
        session_id: &str,
        conversation: Option<ConversationSession>,
        start: SessionStart,
    ) -> (r: SessionState)
        ensures
            self.may_start_with(
                conversation.deep_view(),
                (r.model.deep_view(), r.provider.deep_view()),
            ),
            self.is_initial_state(
                r,
                conversation.deep_view(),
                (r.model.deep_view(), r.provider.deep_view()),
                start,
            ),
            r.snapshot.deep_view() == self.initial_snapshot(
                session_id@,
                conversation.deep_view(),
                (r.model.deep_view(), r.provider.deep_view()),
                start.context_usage.deep_view(),
            ),
    {
        let choice = self.initial_model_and_provider(&conversation);
        self.initial_session_state(session_id, conversation, choice, start)
    }

    // ── Creating ────────────────────────────────────────────────────────

    /// The workspace that a session starts in: its own, else the default one.
    pub open spec fn starts_in(&self, conversation: Option<ConversationView>) -> Seq<char> {
        if conversation matches Some(c) && c.config.workspace_id is Some {
            conversation->0.config.workspace_id->0
        } else {
            self.default_workspace_id@
        }
    }

    /// The workspace that a session starts in.
    pub fn initial_workspace(&self, conversation: &Option<ConversationSession>) -> (r: String)
        ensures
            r@ == self.starts_in(conversation.deep_view()),
    {
        match conversation {
            Some(c) => match &c.config.workspace_id {
                Some(w) => {
                    return w.clone();
                },
                None => {},
            },
            None => {},
        }
        self.default_workspace_id.clone()
    }

    /// The handle of a session that was just created: idle, in its workspace,
    /// and told of it.
    pub open spec fn new_handle(
        &self,
        session_id: Seq<char>,
        conversation: Option<ConversationView>,
        state: SessionState,
        start: SessionStart,
    ) -> HandleView {
        let workspace = self.starts_in(conversation);
        briefed(
            moved(
                HandleView {
                    session_id,
                    status: StatusView::Idle,
                    last_active_at: start.now,
                    link: Link { free: self.config.inbound_channel_capacity, closed: false },
                    inbox: Seq::empty(),
                    fast_link: Link { free: start.fast_capacity, closed: false },
                    fast_inbox: Seq::empty(),
                    snapshot: state.snapshot.deep_view(),
                    workspace_id: workspace,
                    current_work_dir: self.workspace_dir(workspace),
                    conversation: match state.conversation.deep_view() {
                        Some(c) => Some(ConversationView { ops: Seq::empty(), ..c }),
                        None => None,
                    },
                    debug_pending: false,
                    finished: false,
                },
                workspace,
                self.workspace_dir(workspace),
            ),
            start.workspace_context@,
            start.workspace_prompt.deep_view(),
        )
    }

    /// The task of a session that was just created has the tools and settings
    /// that hold for new sessions, and its first state. `shared` is a core with
    /// what all sessions have in common.
    pub open spec fn is_new_task(
        &self,
        task: SessionTask,
        session_id: Seq<char>,
        conversation: Option<ConversationView>,
        shared: AgentCore,
        start: SessionStart,
    ) -> bool {
        let core = task.agent_loop.core;
        let session = task.agent_loop.session;
        let choice = (session.model.deep_view(), session.provider.deep_view());
        &&& task.session_id@ == session_id
        &&& core.builtin_tools.deep_view() == AgentCore::synced_tools(
            with_tools(
                self.core.builtin_tools.deep_view(),
                self.dynamic_builtin_tools.deep_view(),
                self.dynamic_builtin_tools.len() as int,
            ),
            self.core.platform_tools.deep_view(),
            self.runtime_overrides.tool_compression_enabled,
        )
        &&& core.mcp_tools.deep_view() == self.mcp_tools.deep_view()
        &&& core.model@ == SessionTask::session_model_or_none(session)
        &&& core.overrides.deep_view() == self.core.overrides.deep_view().merged(
            self.runtime_overrides.deep_view(),
        )
        &&& core.agent_id@ == self.core.agent_id@
        &&& core.work_dir@ == self.core.work_dir@
        &&& core.max_sessions == self.core.max_sessions
        &&& core.manifest_temperature == self.core.manifest_temperature
        &&& core.compaction_prompt.deep_view() == self.core.compaction_prompt.deep_view()
        &&& core.platform_tools.deep_view() == self.core.platform_tools.deep_view()
        &&& core == (AgentCore {
            agent_id: core.agent_id,
            work_dir: core.work_dir,
            max_sessions: core.max_sessions,
            model: core.model,
            overrides: core.overrides,
            manifest_temperature: core.manifest_temperature,
            compaction_prompt: core.compaction_prompt,
            builtin_tools: core.builtin_tools,
            platform_tools: core.platform_tools,
            mcp_tools: core.mcp_tools,
            ..shared
        })
        &&& self.is_initial_state(session, conversation, choice, start)
        &&& session.snapshot.deep_view() == self.initial_snapshot(
            session_id,
            conversation,
            choice,
            start.context_usage.deep_view(),
        )
        &&& task.agent_loop.session_core.session_id.deep_view() == Some(session_id)
        &&& task.agent_loop.session_core.title is None
        &&& task.agent_loop.session_core.streaming_flush_count == 0
        &&& task.agent_loop.session_core.next_seq == 0
        &&& task.agent_loop.session_core.outbox.len() == 0
        &&& task.agent_loop.pending_user_message is None
        &&& task.agent_loop.pending_transient_tool_msgs.len() == 0
        &&& !task.agent_loop.memory_retrieved_for_session
        &&& task.context.system_prompt@ == self.config.system_prompt@
        &&& task.context.identity_context.deep_view() == self.config.identity_context.deep_view()
        &&& task.context.tool_definitions.deep_view() == visible_specs(
            core.builtin_tools.deep_view(),
        )
        &&& task.context.override_model.deep_view() == session.model.deep_view()
        &&& task.context.workspace_context is None
        &&& task.context.workspace_prompt_file is None
        &&& task.context.skill_instructions is None
        &&& task.last_user_message is None
    }

    /// The manager once a session was created.
    pub open spec fn session_created(
        before: SessionManager,
        after: SessionManager,
        session_id: Seq<char>,
        conversation: Option<ConversationView>,
        committed_lines: Option<usize>,
        state: SessionState,
        start: SessionStart,
    ) -> bool {
        &&& after.handles() == before.handles().insert(
            session_id,
            before.new_handle(session_id, conversation, state, start),
        )
        &&& after.pending_workspaces@ == before.pending_workspaces@.remove(session_id)
        &&& after.session_committed_lines@ == (match committed_lines {
            Some(n) => before.session_committed_lines@.insert(session_id, n),
            None => before.session_committed_lines@,
        })
        &&& after.debug_controllers@ == (if before.debug_enabled {
            before.debug_controllers@.insert(session_id, ())
        } else {
            before.debug_controllers@
        })
        &&& after.urgent_stops@ == before.urgent_stops@.insert(session_id, ())
        &&& after.cancel_handles@ == before.cancel_handles@.insert(session_id, 0)
        &&& after.session_snapshots@ == before.session_snapshots@.insert(session_id, ())
        &&& after.session_configs@ == (if conversation is Some {
            before.session_configs@.insert(session_id, ())
        } else {
            before.session_configs@
        })
        &&& after.latest_session matches Some((id, title)) && id@ == session_id
            && title.deep_view() == (match conversation {
            Some(c) => c.config.title,
            None => None,
        })
        &&& after == (SessionManager {
            sessions: after.sessions,
            pending_workspaces: after.pending_workspaces,
            session_committed_lines: after.session_committed_lines,
            debug_controllers: after.debug_controllers,
            urgent_stops: after.urgent_stops,
            cancel_handles: after.cancel_handles,
            session_snapshots: after.session_snapshots,
            session_configs: after.session_configs,
            latest_session: after.latest_session,
            ..before
        })
    }

    /// Create a new session with a specific ID and optional conversation.
    ///
    /// With a conversation the session persists what it says; `committed_lines`
    /// is then the number of lines in its log. The task comes back, for the
    /// host to run.
    pub fn create_session_with_id_and_conversation(
        &mut self,
        session_id: String,
        conversation: Option<ConversationSession>,
        committed_lines: Option<usize>,
        shared: AgentCore,
        start: SessionStart,
    ) -> (task: SessionTask)
        requires
            old(self).resolver is Some,
            old(self).config.inbound_channel_capacity > 0,
        ensures
            old(self).books_agree() && (conversation is Some || !old(self).handles().contains_key(
                session_id@,
            )) ==> final(self).books_agree(),
            old(self).may_start_with(
                conversation.deep_view(),
                (
                    task.agent_loop.session.model.deep_view(),
                    task.agent_loop.session.provider.deep_view(),
                ),
            ),
            old(self).is_new_task(task, session_id@, conversation.deep_view(), shared, start),
            Self::session_created(
                *old(self),
                *final(self),
                session_id@,
                conversation.deep_view(),
                committed_lines,
                task.agent_loop.session,
                start,
            ),
    {
        let workspace = self.initial_workspace(&conversation);
        let title = match &conversation {
            Some(c) => c.config.title.clone(),
            None => None,
        };
        let has_conversation = conversation.is_some();
        let work_dir = match &self.resolver {
            Some(w) => Some(w.resolve(workspace.as_str())),
            None => None,
        };
        let workspace_context = start.workspace_context.clone();
        let workspace_prompt = start.workspace_prompt.clone();
        let fast_capacity = start.fast_capacity;
        let now = start.now;
        let choice = self.initial_model_and_provider(&conversation);
        let state = self.initial_session_state(session_id.as_str(), conversation, choice, start);
        let snapshot = state.snapshot.clone();
        let hand = match &state.conversation {
            Some(c) => Some(c.shared()),
            None => None,
        };
        let mcp_tools = match &self.mcp_tools {
            Some(list) => {
                let copy = list.clone();
                assert(copy.deep_view() =~= list.deep_view());
                Some(copy)
            },
            None => None,
        };
        let session_core = SessionCore {
            session_id: Some(session_id.clone()),
            title: None,
            streaming_flush_count: 0,
            next_seq: 0,
            outbox: Vec::new(),
        };
        let task = SessionTask::new(
            self.core.clone_for_session(shared),
            state,
            session_core,
            self.config.system_prompt.clone(),
            session_id.clone(),
            self.config.identity_context.clone(),
            mcp_tools,
            &self.dynamic_builtin_tools,
            &self.runtime_overrides,
        );
        if self.debug_enabled {
            let _ = self.debug_controllers.insert(session_id.clone(), ());
        }
        match committed_lines {
            Some(n) => {
                let _ = self.session_committed_lines.insert(session_id.clone(), n);
            },
            None => {},
        }
        let _ = self.urgent_stops.insert(session_id.clone(), ());
        let _ = self.cancel_handles.insert(session_id.clone(), 0);
        if has_conversation {
            let _ = self.session_configs.insert(session_id.clone(), ());
        }
        let inbox: Vec<SessionMessage> = Vec::new();
        let fast_inbox = Vec::new();
        assert(inbox.deep_view() =~= Seq::empty());
        let handle = SessionHandle {
            session_id: session_id.clone(),
            status: SessionStatus::Idle,
            last_active_at: now,
            link: Link { free: self.config.inbound_channel_capacity, closed: false },
            inbox,
            fast_link: Link { free: fast_capacity, closed: false },
            fast_inbox,
            snapshot,
            workspace_id: workspace.clone(),
            current_work_dir: work_dir,
            conversation: hand,
            debug_pending: false,
            finished: false,
        };
        assert(handle.fast_inbox.deep_view() =~= Seq::empty());
        let ghost bare = handle.deep_view();
        let _ = self.sessions.insert(session_id.clone(), handle);
        assert(self.handles() =~= old(self).handles().insert(session_id@, bare));
        let _ = self.session_snapshots.insert(session_id.clone(), ());
        self.set_latest_session(session_id.clone(), title);
        self.set_session_workspace(session_id.as_str(), workspace.as_str());
        self.update_session_workspace_context(
            session_id.as_str(),
            workspace_context,
            workspace_prompt,
        );
        assert(self.handles() =~= old(self).handles().insert(
            session_id@,
            old(self).new_handle(
                session_id@,
                conversation.deep_view(),
                task.agent_loop.session,
                start,
            ),
        ));
        task
    }

    /// Create a new session with a specific ID that persists nothing.
    pub fn create_session_with_id(
        &mut self,
        session_id: String,
        shared: AgentCore,
        start: SessionStart,
    ) -> (task: SessionTask)
        requires
            old(self).resolver is Some,
            old(self).config.inbound_channel_capacity > 0,
        ensures
            old(self).books_agree() && !old(self).handles().contains_key(task.session_id@)
                ==> final(self).books_agree(),
            old(self).last_in_use(
                (
                    task.agent_loop.session.model.deep_view(),
                    task.agent_loop.session.provider.deep_view(),
                ),
            ),
            old(self).is_new_task(task, session_id@, None, shared, start),
            Self::session_created(
                *old(self),
                *final(self),
                session_id@,
                None,
                None,
                task.agent_loop.session,
                start,
            ),
    {
        self.create_session_with_id_and_conversation(session_id, None, None, shared, start)
    }

    /// Create a new session under a fresh ID.
    pub fn create_session(&mut self, shared: AgentCore, start: SessionStart) -> (task: SessionTask)
        requires
            old(self).resolver is Some,
            old(self).config.inbound_channel_capacity > 0,
        ensures
            old(self).books_agree() && !old(self).handles().contains_key(task.session_id@)
                ==> final(self).books_agree(),
            is_uuid_v4(task.session_id@),
            old(self).last_in_use(
                (
                    task.agent_loop.session.model.deep_view(),
                    task.agent_loop.session.provider.deep_view(),
                ),
            ),
            old(self).is_new_task(task, task.session_id@, None, shared, start),
            Self::session_created(
                *old(self),
                *final(self),
                task.session_id@,
                None,
                None,
                task.agent_loop.session,
                start,
            ),
    {
        self.create_session_with_id(new_uuid(), shared, start)
    }

    /// How many sessions may run at a time.
    pub open spec fn most_sessions(&self, configured: Option<usize>) -> usize {
        match configured {
            Some(n) => n,
            None => self.core.max_sessions,
        }
    }

    /// How many sessions are kept: as the agent's settings say, else as the
    /// runtime's do.
    pub fn session_limit(&self, configured: Option<usize>) -> (r: usize)
        ensures
            r == self.most_sessions(configured),
    {
        match configured {
            Some(n) => n,
            None => self.core.max_sessions,
        }
    }

    /// The settings that a session starts with that was asked for in the
    /// frontend.
    pub fn frontend_config(
        workspace_id: Option<&str>,
        model: Option<&str>,
        provider: Option<&str>,
    ) -> (r: SessionConfigSnapshot)
        ensures
            r.deep_view() == (crate::session_config::ConfigView {
                workspace_id: text_of(workspace_id),
                model: text_of(model),
                provider: text_of(provider),
                ..crate::session_config::ConfigView::none()
            }),
    {
        SessionConfigSnapshot {
            model: owned(model),
            provider: owned(provider),
            workspace_id: owned(workspace_id),
            reasoning_effort: None,
            temperature: None,
            title: None,
        }
    }

    /// Create a new session from a frontend request: with a conversation of its
    /// own that starts with the given settings, and an empty log.
    pub fn create_frontend_session(
        &mut self,
        session_id: String,
        workspace_id: Option<&str>,
        model: Option<&str>,
        provider: Option<&str>,
        shared: AgentCore,
        start: SessionStart,
    ) -> (task: SessionTask)
        requires
            old(self).resolver is Some,
            old(self).config.inbound_channel_capacity > 0,
        ensures
            old(self).books_agree() ==> final(self).books_agree(),
            ({
                let conversation = Some(
                    ConversationView {
                        session_id: session_id@,
                        config: crate::session_config::ConfigView {
                            workspace_id: text_of(workspace_id),
                            model: text_of(model),
                            provider: text_of(provider),
                            ..crate::session_config::ConfigView::none()
                        },
                        config_version: 0,
                        ops: Seq::empty(),
                    },
                );
                &&& old(self).may_start_with(
                    conversation,
                    (
                        task.agent_loop.session.model.deep_view(),
                        task.agent_loop.session.provider.deep_view(),
                    ),
                )
                &&& old(self).is_new_task(task, session_id@, conversation, shared, start)
                &&& Self::session_created(
                    *old(self),
                    *final(self),
                    session_id@,
                    conversation,
                    Some(0),
                    task.agent_loop.session,
                    start,
                )
            }),
    {
        let config = Self::frontend_config(workspace_id, model, provider);
        let conversation = ConversationSession::new(session_id.clone(), config);
        self.create_session_with_id_and_conversation(
            session_id,
            Some(conversation),
            Some(Self::new_committed_lines()),
            shared,
            start,
        )
    }

    /// The manager once a session was opened, and what the host is given.
    pub open spec fn session_opened(
        before: SessionManager,
        after: SessionManager,
        session_id: Seq<char>,
        on_disk: Option<Result<ConversationSession, String>>,
        totals: Option<(u64, u64)>,
        shared: AgentCore,
        start: SessionStart,
        r: Result<Opened, RuntimeError>,
    ) -> bool {
        if before.handles().contains_key(session_id) {
            &&& r matches Ok(o) && o.outcome == SessionOpenOutcome::AlreadyActive && o.task is None
                && o.merge_totals is None
            &&& after == before
        } else {
            match on_disk {
                None => {
                    &&& r matches Err(RuntimeError::Config(text)) && text@
                        == "Session not found on disk: "@ + session_id
                    &&& after == before
                },
                Some(Err(e)) => {
                    &&& r matches Err(RuntimeError::Config(text)) && text@
                        == "Session not found on disk: "@ + session_id + " ("@ + e@ + ")"@
                    &&& after == before
                },
                Some(Ok(c)) => {
                    &&& r matches Ok(o)
                    &&& o.outcome == SessionOpenOutcome::ResumedFromDisk
                    &&& o.merge_totals == totals
                    &&& o.task matches Some(task)
                    &&& before.may_start_with(
                        Some(c.deep_view()),
                        (
                            task.agent_loop.session.model.deep_view(),
                            task.agent_loop.session.provider.deep_view(),
                        ),
                    )
                    &&& before.is_new_task(task, session_id, Some(c.deep_view()), shared, start)
                    &&& Self::session_created(
                        before,
                        after,
                        session_id,
                        Some(c.deep_view()),
                        Some(0),
                        task.agent_loop.session,
                        start,
                    )
                },
            }
        }
    }

    /// Activate a session.
    ///
    /// An active session is left alone. One whose log is on disk is brought
    /// into memory: `on_disk` is what reading it gave, where there is one, and
    /// `totals` are the input and output tokens that it has persisted. An
    /// error where there is none, or where it could not be read.
    pub fn open(
        &mut self,
        session_id: &str,
        on_disk: Option<Result<ConversationSession, String>>,
        totals: Option<(u64, u64)>,
        shared: AgentCore,
        start: SessionStart,
    ) -> (r: Result<Opened, RuntimeError>)
        requires
            old(self).resolver is Some,
            old(self).config.inbound_channel_capacity > 0,
        ensures
            old(self).books_agree() ==> final(self).books_agree(),
            Self::session_opened(
                *old(self),
                *final(self),
                session_id@,
                on_disk,
                totals,
                shared,
                start,
                r,
            ),
    {
        if self.sessions.contains_key(session_id) {
            return Ok(
                Opened {
                    outcome: SessionOpenOutcome::AlreadyActive,
                    task: None,
                    merge_totals: None,
                },
            );
        }
        match on_disk {
            None => Err(
                RuntimeError::Config(
                    crate::text::join2("Session not found on disk: ", session_id),
                ),
            ),
            Some(Err(e)) => {
                let mut text = crate::text::join2("Session not found on disk: ", session_id);
                text.append(" (");
                text.append(e.as_str());
                text.append(")");
                Err(RuntimeError::Config(text))
            },
            Some(Ok(conversation)) => {
                let task = self.create_session_with_id_and_conversation(
                    session_id.to_owned(),
                    Some(conversation),
                    Some(Self::new_committed_lines()),
                    shared,
                    start,
                );
                Ok(
                    Opened {
                        outcome: SessionOpenOutcome::ResumedFromDisk,
                        task: Some(task),
                        merge_totals: totals,
                    },
                )
            },
        }
    }

    /// The model, the provider and the time of the last activity of a session,
    /// as its meta file has them; nothing where it could not be read.
    pub fn session_metadata_summary(
        meta: Option<(Option<String>, Option<String>, String)>,
    ) -> (r: (Option<String>, Option<String>, Option<String>))
        ensures
            match meta {
                Some((model, provider, last_active_at)) => r == (
                    model,
                    provider,
                    Some(last_active_at),
                ),
                None => r == (None::<String>, None::<String>, None::<String>),
            },
    {
        match meta {
            Some((model, provider, last_active_at)) => (model, provider, Some(last_active_at)),
            None => (None, None, None),
        }
    }
}

/// A borrowed text.
pub open spec fn text_of(s: Option<&str>) -> Option<Seq<char>> {
    match s {
        Some(t) => Some(t@),
        None => None,
    }
}

fn owned(s: Option<&str>) -> (r: Option<String>)
    ensures
        r.deep_view() == text_of(s),
{
    match s {
        Some(t) => Some(t.to_owned()),
        None => None,
    }
}

// ── Laws ────────────────────────────────────────────────────────────────

/// A session that is created after the context tools were switched off shows
/// the model none of them.
pub proof fn new_sessions_follow_the_switch(
    manager: SessionManager,
    task: SessionTask,
    session_id: Seq<char>,
    conversation: Option<ConversationView>,
    shared: AgentCore,
    start: SessionStart,
    i: int,
)
    requires
        manager.is_new_task(task, session_id, conversation, shared, start),
        manager.runtime_overrides.tool_compression_enabled == Some(false),
        0 <= i < task.agent_loop.core.builtin_tools.deep_view().len(),
    ensures
        !platform_protected(task.agent_loop.core.builtin_tools.deep_view()[i].tool.name),
{
    compression_off_removes_platform_tools(
        with_tools(
            manager.core.builtin_tools.deep_view(),
            manager.dynamic_builtin_tools.deep_view(),
            manager.dynamic_builtin_tools.len() as int,
        ),
        i,
    );
}

/// A session that is created after the user switched tools on and off starts
/// with their wishes: the wish for a tool holds, and no tool that manages the
/// context is off.
pub proof fn new_sessions_keep_the_users_wishes(
    before: SessionManager,
    after: SessionManager,
    entries: Seq<ToolFlagView>,
    task: SessionTask,
    session_id: Seq<char>,
    conversation: Option<ConversationView>,
    shared: AgentCore,
    start: SessionStart,
    i: int,
)
    requires
        after.core.builtin_tools.deep_view() == all_flagged(
            before.core.builtin_tools.deep_view(),
            entries,
        ),
        after.is_new_task(task, session_id, conversation, shared, start),
        after.dynamic_builtin_tools.len() == 0,
        after.runtime_overrides.tool_compression_enabled is None,
        0 <= i < before.core.builtin_tools.deep_view().len(),
    ensures
        task.agent_loop.core.builtin_tools.deep_view()[i] == flagged(
            before.core.builtin_tools.deep_view()[i],
            entries,
        ),
        platform_protected(before.core.builtin_tools.deep_view()[i].tool.name)
            ==> task.agent_loop.core.builtin_tools.deep_view()[i].enabled,
{
}

/// Opening a session makes it active, so opening it again changes nothing.
pub proof fn opened_sessions_are_active(
    before: SessionManager,
    after: SessionManager,
    session_id: Seq<char>,
    conversation: Option<ConversationView>,
    committed_lines: Option<usize>,
    state: SessionState,
    start: SessionStart,
)
    requires
        SessionManager::session_created(
            before,
            after,
            session_id,
            conversation,
            committed_lines,
            state,
            start,
        ),
    ensures
        after.handles().contains_key(session_id),
        after.handles()[session_id].workspace_id == before.starts_in(conversation),
        after.handles()[session_id].status == StatusView::Idle,
        after.cancel_handles@.contains_key(session_id),
        forall|k: Seq<char>|
            k != session_id && before.handles().contains_key(k) ==> after.handles().contains_key(k)
                && #[trigger] after.handles()[k] == before.handles()[k],
{
}

/// A session that comes back has the model, the provider and the title that
/// were persisted.
pub proof fn resumed_sessions_keep_their_settings(
    manager: SessionManager,
    conversation: ConversationView,
    choice: Pair,
    effort: Option<EffortView>,
)
    requires
        conversation.config.model is Some,
        conversation.config.provider is Some,
        manager.may_start_with(Some(conversation), choice),
    ensures
        choice == (conversation.config.model, conversation.config.provider),
        settled(Some(conversation), choice, effort)->0.config.model == conversation.config.model,
        settled(Some(conversation), choice, effort)->0.config.provider
            == conversation.config.provider,
        settled(Some(conversation), choice, effort)->0.config.title == conversation.config.title,
        conversation.config.reasoning_effort is Some ==> settled(
            Some(conversation),
            choice,
            effort,
        ) == Some(conversation),
{
}

/// What a session was given when it was created need not be given again: once
/// a model and an effort are persisted, starting with the same model persists
/// nothing more.
pub proof fn settling_is_idempotent(
    conversation: ConversationView,
    choice: Pair,
    effort: EffortView,
)
    requires
        choice.0 is Some,
    ensures
        settled(settled(Some(conversation), choice, Some(effort)), choice, Some(effort))
            == settled(Some(conversation), choice, Some(effort)),
{
}

/// Resuming is switched off by a one or by the word true, in whatever case, and
/// by nothing else.
pub proof fn resuming_is_switched_off_by_word(value: Seq<char>)
    ensures
        resume_is_disabled(Some("1"@)),
        resume_is_disabled(Some("true"@)),
        resume_is_disabled(Some("TRUE"@)),
        resume_is_disabled(Some("True"@)),
        !resume_is_disabled(None),
        value.len() != 1 && value.len() != 4 ==> !resume_is_disabled(Some(value)),
        !resume_is_disabled(Some("0"@)),
{
    reveal_strlit("1");
    reveal_strlit("0");
    reveal_strlit("true");
    reveal_strlit("TRUE");
    reveal_strlit("True");
    assert("1"@.len() == 1 && "0"@.len() == 1);
    assert("0"@[0] != "1"@[0]);
    assert(same_ignoring_case("true"@, seq!['t', 'r', 'u', 'e']));
    assert('T' as u32 + 32 == 't' as u32 && 'R' as u32 + 32 == 'r' as u32 && 'U' as u32 + 32
        == 'u' as u32 && 'E' as u32 + 32 == 'e' as u32);
    assert(same_ignoring_case("TRUE"@, seq!['t', 'r', 'u', 'e']));
    assert(same_ignoring_case("True"@, seq!['t', 'r', 'u', 'e']));
}

/// A history is resumed whole where resuming is on and the log could be read and
/// holds a message; else the session starts without one.
pub proof fn only_read_histories_are_resumed(
    disabled: bool,
    restored: Option<Result<RestoreOutcome, RestoreError>>,
)
    ensures
        history_to_resume(true, restored) is None,
        restored is None ==> history_to_resume(disabled, restored) is None,
        restored is Some && restored->0 is Err ==> history_to_resume(disabled, restored) is None,
        restored is Some && restored->0 is Ok ==> {
            let o = restored->0->Ok_0;
            &&& !disabled && o.messages.len() > 0 ==> history_to_resume(disabled, restored) == Some(
                o,
            )
            &&& o.messages.len() == 0 ==> history_to_resume(disabled, restored) is None
        },
{
}

/// A session starts with the temperature that was pushed last, else with the
/// agent's, else with the manifest's, else with the default.
pub proof fn temperatures_are_taken_in_order(
    pushed: Option<Temperature>,
    agent: Option<Temperature>,
    manifest: Option<Temperature>,
    default: Temperature,
    t: Temperature,
)
    ensures
        first_temperature(Some(t), agent, manifest, default) == t,
        first_temperature(None, Some(t), manifest, default) == t,
        first_temperature(None, None, Some(t), default) == t,
        first_temperature(None, None, None, default) == default,
{
}

/// A new session is idle and empty but for what was restored; it talks to the
/// model that was chosen, at the temperature that comes first.
pub proof fn new_sessions_start_as_they_should(
    m: SessionManager,
    r: SessionState,
    conversation: Option<ConversationView>,
    choice: Pair,
    start: SessionStart,
)
    requires
        m.is_initial_state(r, conversation, choice, start),
    ensures
        r.status.deep_view() == StatusView::Idle,
        r.model.deep_view() == choice.0,
        r.provider.deep_view() == choice.1,
        r.temperature is Some,
        m.runtime_overrides.temperature is Some ==> r.temperature
            == m.runtime_overrides.temperature,
        m.runtime_overrides.temperature is None && m.core.overrides.temperature is Some
            ==> r.temperature == m.core.overrides.temperature,
        m.runtime_overrides.temperature is None && m.core.overrides.temperature is None
            && m.core.manifest_temperature is Some ==> r.temperature == m.core.manifest_temperature,
        m.runtime_overrides.temperature is None && m.core.overrides.temperature is None
            && m.core.manifest_temperature is None ==> r.temperature == Some(
            start.default_temperature,
        ),
        start.restored matches Some(o) ==> r.history.deep_view() == o.messages.deep_view()
            && r.is_compacted == o.had_compaction,
        start.restored is None ==> r.history.deep_view().len() == 0 && !r.is_compacted,
        r.todos.len() == 0,
        r.identity_context is None,
        conversation is None ==> r.conversation is None,
{
}

/// A session that was left with an effort of its own goes on with it; a new one
/// takes what its model has; and without a model there is none.
pub proof fn first_efforts_are_the_sessions_own(
    core: AgentCore,
    conversation: Option<ConversationView>,
    choice: Pair,
    default_effort: Option<EffortView>,
    persisted: Option<EffortView>,
)
    ensures
        ({
            let e = first_effort(core, conversation, choice, default_effort, persisted);
            let own = conversation is Some && conversation->0.config.reasoning_effort is Some;
            &&& choice.0 is None ==> e is None
            &&& choice.0 is Some && own && persisted is Some ==> e == persisted
            &&& choice.0 is Some && !own ==> e == effective_effort(
                core.caps(choice.0->0),
                default_effort,
                None,
            )
        }),
{
}

/// A new session's log learns of the model where it had none, and of the effort
/// where it had none; of what it had it learns nothing.
pub proof fn new_settings_are_logged_where_missing(
    c: ConversationView,
    choice: Pair,
    effort: Option<EffortView>,
)
    requires
        choice.0 is Some,
    ensures
        ({
            let after = settled(Some(c), choice, effort)->0;
            &&& c.config.model is None ==> after.config.model == choice.0
            &&& c.config.model is None && choice.1 is Some ==> after.config.provider == choice.1
            &&& c.config.model is Some ==> after.config.model == c.config.model
                && after.config.provider == c.config.provider
            &&& c.config.reasoning_effort is Some ==> after.config.reasoning_effort
                == c.config.reasoning_effort
            &&& c.config.reasoning_effort is None ==> after.config.reasoning_effort == effort_text(
                effort,
            )
            &&& after.ops.len() == c.ops.len() + (if c.config.model is None {
                1int
            } else {
                0
            }) + (if c.config.reasoning_effort is None {
                1int
            } else {
                0
            })
            &&& after.config.title == c.config.title
            &&& after.config.workspace_id == c.config.workspace_id
        }),
{
}

/// A session with a workspace of its own starts there, another in the default
/// one.
pub proof fn sessions_start_in_their_workspace(
    m: SessionManager,
    conversation: Option<ConversationView>,
)
    ensures
        conversation is None ==> m.starts_in(conversation) == m.default_workspace_id@,
        conversation matches Some(c) ==> {
            &&& c.config.workspace_id matches Some(id) ==> m.starts_in(conversation) == id
            &&& c.config.workspace_id is None ==> m.starts_in(conversation)
                == m.default_workspace_id@
        },
{
}

/// What is shown of a new session: its id, its model, its provider, and how full
/// its context was where it has a log and its model is known.
pub proof fn new_sessions_are_shown(
    m: SessionManager,
    id: Seq<char>,
    conversation: Option<ConversationView>,
    choice: Pair,
    usage: Option<Seq<char>>,
)
    ensures
        ({
            let s = m.initial_snapshot(id, conversation, choice, usage);
            &&& s.session_id == id
            &&& s.model == choice.0
            &&& s.provider == choice.1
            &&& s.status.len() == 0
            &&& s.todos_json is None
            &&& s.ratio_bits is None
            &&& conversation is None ==> s.context_usage is None
            &&& choice.0 matches Some(model) ==> {
                &&& m.core.caps(model) is None ==> s.context_usage is None
                &&& m.core.caps(model) is Some && conversation is Some ==> s.context_usage == usage
            }
        }),
{
}

/// A session that is opened is known everywhere from then on, and is the latest;
/// its lines are counted where they are, and it waits for no workspace.
pub proof fn opened_sessions_are_in_the_books(
    before: SessionManager,
    after: SessionManager,
    id: Seq<char>,
    conversation: Option<ConversationView>,
    lines: Option<usize>,
    state: SessionState,
    start: SessionStart,
)
    requires
        SessionManager::session_created(before, after, id, conversation, lines, state, start),
    ensures
        after.handles().contains_key(id),
        after.handles()[id].session_id == id,
        after.handles()[id].last_active_at == start.now,
        !after.handles()[id].finished,
        after.urgent_stops@.contains_key(id),
        after.cancel_handles@.contains_key(id) && after.cancel_handles@[id] == 0,
        after.session_snapshots@.contains_key(id),
        conversation is Some ==> after.session_configs@.contains_key(id),
        before.debug_enabled ==> after.debug_controllers@.contains_key(id),
        !before.debug_enabled ==> after.debug_controllers@ == before.debug_controllers@,
        !after.pending_workspaces@.contains_key(id),
        lines matches Some(n) ==> after.session_committed_lines@[id] == n,
        lines is None ==> after.session_committed_lines@ == before.session_committed_lines@,
        after.latest_session matches Some(pair) && pair.0@ == id,
        conversation matches Some(c) ==> (after.latest_session matches Some(pair)
            && pair.1.deep_view() == c.config.title),
{
}

/// A session that runs is not opened twice; one that does not is resumed from
/// its log, and without a log that can be read it is not found, with the reason
/// where there is one.
pub proof fn sessions_are_opened_once(
    before: SessionManager,
    after: SessionManager,
    id: Seq<char>,
    on_disk: Option<Result<ConversationSession, String>>,
    totals: Option<(u64, u64)>,
    shared: AgentCore,
    start: SessionStart,
    r: Result<Opened, RuntimeError>,
)
    requires
        SessionManager::session_opened(before, after, id, on_disk, totals, shared, start, r),
    ensures
        ({
            let active = before.handles().contains_key(id);
            let readable = on_disk is Some && on_disk->0 is Ok;
            &&& r is Ok <==> active || readable
            &&& active ==> after == before && r->Ok_0.task is None && r->Ok_0.outcome
                == SessionOpenOutcome::AlreadyActive && r->Ok_0.merge_totals is None
            &&& !active && readable ==> {
                &&& after.handles().contains_key(id)
                &&& r->Ok_0.outcome == SessionOpenOutcome::ResumedFromDisk
                &&& r->Ok_0.task is Some
                &&& r->Ok_0.task->0.session_id@ == id
                &&& r->Ok_0.merge_totals == totals
                &&& after.session_committed_lines@[id] == 0
            }
            &&& r is Err ==> after == before && r->Err_0 is Config
            &&& !active && on_disk is None ==> r->Err_0->Config_0@
                == "Session not found on disk: "@ + id
            &&& !active && on_disk is Some && on_disk->0 is Err ==> r->Err_0->Config_0@
                == "Session not found on disk: "@ + id + " ("@ + on_disk->0->Err_0@ + ")"@
        }),
{
}

/// As many sessions may run as the host says, else as many as the agent has.
pub proof fn hosts_limit_the_sessions(m: SessionManager, n: usize)
    ensures
        m.most_sessions(Some(n)) == n,
        m.most_sessions(None) == m.core.max_sessions,
{
}

/// A new session is handed over idle, with room in its inbox but for what it is
/// told of its workspace, which comes first; its log is shared, with nothing left
/// to write.
pub proof fn new_sessions_are_told_where_they_are(
    m: SessionManager,
    id: Seq<char>,
    conversation: Option<ConversationView>,
    state: SessionState,
    start: SessionStart,
)
    requires
        m.resolver is Some,
    ensures
        ({
            let h = m.new_handle(id, conversation, state, start);
            let room = m.config.inbound_channel_capacity;
            let told = MessageView::UpdateWorkspaceContext {
                context_text: start.workspace_context@,
            };
            &&& h.session_id == id
            &&& h.status == StatusView::Idle
            &&& h.last_active_at == start.now
            &&& h.snapshot == state.snapshot.deep_view()
            &&& h.workspace_id == m.starts_in(conversation)
            &&& h.current_work_dir == Some(m.resolver->0.dir_of(m.starts_in(conversation)))
            &&& h.fast_inbox.len() == 0
            &&& h.fast_link.free == start.fast_capacity
            &&& !h.debug_pending && !h.finished && !h.link.closed && !h.fast_link.closed
            &&& room >= 2 ==> h.inbox == seq![
                told,
                MessageView::SetWorkspacePromptFile { content: start.workspace_prompt.deep_view() },
            ] && h.link.free + 2 == room
            &&& room == 1 ==> h.inbox == seq![told] && h.link.free == 0
            &&& h.conversation is Some <==> state.conversation is Some
            &&& h.conversation matches Some(c) ==> c.config.workspace_id == Some(
                m.starts_in(conversation),
            ) && c.config.model == state.conversation.deep_view()->0.config.model
        }),
{
    let h = m.new_handle(id, conversation, state, start);
    let told = MessageView::UpdateWorkspaceContext { context_text: start.workspace_context@ };
    if m.config.inbound_channel_capacity >= 2 {
        assert(h.inbox =~= seq![
            told,
            MessageView::SetWorkspacePromptFile { content: start.workspace_prompt.deep_view() },
        ]);
    } else if m.config.inbound_channel_capacity == 1 {
        assert(h.inbox =~= seq![told]);
    }
}

} // verus!
