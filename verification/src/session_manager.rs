//! Lifecycle of many concurrent sessions: who exists, who is told what, and
//! what is forgotten when a session goes.

use vstd::prelude::*;

use crate::agent_loop::AgentCore;
use crate::builtin_tools::{BuiltinToolEntry, ToolDef};
use crate::error::RuntimeError;
use crate::json::{Json, JsonView};
use crate::overrides::{OverridesView, RuntimeConfigOverrides};
use crate::session::{SessionSnapshot, SessionStatus, StatusView};
use crate::session_handle::{
    HandleOp, HandleOpView, HandleView, SendError, SessionHandle,
};
use crate::session_message::{MessageView, SessionMessage};
use crate::str_map::StrMap;

verus! {

/// Session lifecycle state observable from outside the manager.
#[derive(Clone, Copy, Debug, PartialEq, Eq, Structural)]
pub enum SessionLifecycleState {
    /// Neither in memory nor on disk.
    NotFound,
    /// On disk, but not in memory.
    Closed,
    /// In memory.
    Active,
}

/// Outcome of an explicit [`SessionManager::open`] call.
#[derive(Clone, Copy, Debug, PartialEq, Eq, Structural)]
pub enum SessionOpenOutcome {
    /// Session was already in memory; the call was a no-op.
    AlreadyActive,
    /// Session was on disk and is now in memory.
    ResumedFromDisk,
}

/// What a session may spend. Costs are the bits of their double-precision
/// values.
#[derive(Debug)]
pub struct Budget {
    pub daily_tokens: Option<u64>,
    pub monthly_tokens: Option<u64>,
    pub daily_cost_usd_bits: Option<u64>,
    pub monthly_cost_usd_bits: Option<u64>,
    pub exceeded_action: String,
}

/// Configuration for [`SessionManager`].
#[derive(Debug)]
pub struct SessionManagerConfig {
    /// Channel capacity for each session's inbound message queue.
    pub inbound_channel_capacity: usize,
    /// System prompt to use for all sessions.
    pub system_prompt: String,
    /// Per-session token budget.
    pub per_session_budget: Budget,
    /// History max tokens per session.
    pub history_max_tokens: u64,
    /// The specs of all tools, those of MCP servers last.
    pub full_tool_specs: Vec<ToolDef>,
    /// Who the user is.
    pub identity_context: Option<String>,
}

impl Default for SessionManagerConfig {
    fn default() -> (r: Self)
        ensures
            r.inbound_channel_capacity == 64,
            r.system_prompt@ == ""@,
            r.per_session_budget.daily_tokens is None,
            r.per_session_budget.monthly_tokens is None,
            r.per_session_budget.daily_cost_usd_bits is None,
            r.per_session_budget.monthly_cost_usd_bits is None,
            r.per_session_budget.exceeded_action@ == "warn"@,
            r.history_max_tokens == 128_000,
            r.full_tool_specs.len() == 0,
            r.identity_context is None,
    {
        SessionManagerConfig {
            inbound_channel_capacity: 64,
            system_prompt: "".to_owned(),
            per_session_budget: Budget {
                daily_tokens: None,
                monthly_tokens: None,
                daily_cost_usd_bits: None,
                monthly_cost_usd_bits: None,
                exceeded_action: "warn".to_owned(),
            },
            history_max_tokens: 128_000,
            full_tool_specs: Vec::new(),
            identity_context: None,
        }
    }
}

/// How much of a log has been delivered: so many lines, and so many characters
/// of the next.
#[derive(Clone, Copy, Debug, PartialEq, Eq, Structural)]
pub struct DeliveryCursor {
    pub line_number: usize,
    pub char_offset: usize,
}

/// The directories that sessions may work in.
#[derive(Debug)]
pub struct Workspaces {
    pub agent_home: String,
    /// The path of each workspace.
    pub dirs: StrMap<String>,
}

/// Lifecycle manager for multiple concurrent sessions.
pub struct SessionManager {
    /// The template from which the core of each session is copied.
    pub core: AgentCore,
    /// The sessions in memory.
    pub sessions: StrMap<SessionHandle>,
    pub config: SessionManagerConfig,
    /// Settings that were pushed and hold for every new session too.
    pub runtime_overrides: RuntimeConfigOverrides,
    /// The tools of the connected MCP servers.
    pub mcp_tools: Option<Vec<ToolDef>>,
    /// Tools that sidecars offer; new sessions inherit them.
    pub dynamic_builtin_tools: Vec<BuiltinToolEntry>,
    /// The workspace that a session wants back once it exists again.
    pub pending_workspaces: StrMap<String>,
    /// The workspace of new sessions.
    pub default_workspace_id: String,
    pub resolver: Option<Workspaces>,
    /// Whether the debugger is on.
    pub debug_enabled: bool,
    /// The sessions that the debugger knows.
    pub debug_controllers: StrMap<()>,
    /// The sessions that can be stopped at once.
    pub urgent_stops: StrMap<()>,
    /// The current request of each session that can be cancelled.
    pub cancel_handles: StrMap<u64>,
    /// The lines that stand in the log of each session.
    pub session_committed_lines: StrMap<usize>,
    pub session_delivery_cursors: StrMap<DeliveryCursor>,
    /// The sessions whose state can be read from outside.
    pub session_snapshots: StrMap<()>,
    /// The sessions whose settings can be changed from outside.
    pub session_configs: StrMap<()>,
    /// The session that was last created or resumed, and its title.
    pub latest_session: Option<(String, Option<String>)>,
}

/// The session that a message names, or what its sender is told.
pub open spec fn names_session(params: JsonView, r: Result<String, RuntimeError>) -> bool {
    match params.text_at("session_id"@) {
        Some(id) => if id.len() > 0 {
            r matches Ok(s) && s@ == id
        } else {
            r matches Err(RuntimeError::Config(text)) && text@
                == "Missing or empty session_id parameter — every message must carry a session_id"@
        },
        None => r matches Err(RuntimeError::Config(text)) && text@
            == "Missing or empty session_id parameter — every message must carry a session_id"@,
    }
}

/// What is returned where a session is not in memory.
pub open spec fn session_not_found(id: Seq<char>) -> Seq<char> {
    "Session not found: "@ + id
}

/// The sessions on which an operation fails, each once.
pub open spec fn failed_sessions(
    handles: Map<Seq<char>, HandleView>,
    op: HandleOpView,
    failed: Seq<Seq<char>>,
) -> bool {
    &&& failed.no_duplicates()
    &&& forall|k: Seq<char>| #[trigger]
        failed.contains(k) <==> handles.contains_key(k) && handles[k].fails(op)
}

/// All sessions after an operation.
pub open spec fn all_done(handles: Map<Seq<char>, HandleView>, op: HandleOpView) -> Map<
    Seq<char>,
    HandleView,
> {
    handles.map_values(|h: HandleView| h.done(op))
}

impl SessionManager {
    /// The sessions in memory.
    pub open spec fn handles(&self) -> Map<Seq<char>, HandleView> {
        self.sessions@.map_values(|h: SessionHandle| h.deep_view())
    }

    /// Create a manager without sessions.
    pub fn new(core: AgentCore, config: SessionManagerConfig) -> (r: Self)
        ensures
            r.books_agree(),
            r.core == core,
            r.config == config,
            r.handles() == Map::<Seq<char>, HandleView>::empty(),
            r.runtime_overrides.deep_view() == OverridesView::none(),
            r.mcp_tools is None,
            r.dynamic_builtin_tools.len() == 0,
            r.pending_workspaces@ == Map::<Seq<char>, String>::empty(),
            r.default_workspace_id@ == "__agent_home__"@,
            r.resolver is None,
            !r.debug_enabled,
            r.debug_controllers@ == Map::<Seq<char>, ()>::empty(),
            r.urgent_stops@ == Map::<Seq<char>, ()>::empty(),
            r.cancel_handles@ == Map::<Seq<char>, u64>::empty(),
            r.session_committed_lines@ == Map::<Seq<char>, usize>::empty(),
            r.session_delivery_cursors@ == Map::<Seq<char>, DeliveryCursor>::empty(),
            r.session_snapshots@ == Map::<Seq<char>, ()>::empty(),
            r.session_configs@ == Map::<Seq<char>, ()>::empty(),
            r.latest_session is None,
    {
        let r = SessionManager {
            core,
            sessions: StrMap::new(),
            config,
            runtime_overrides: RuntimeConfigOverrides::default(),
            mcp_tools: None,
            dynamic_builtin_tools: Vec::new(),
            pending_workspaces: StrMap::new(),
            default_workspace_id: "__agent_home__".to_owned(),
            resolver: None,
            debug_enabled: false,
            debug_controllers: StrMap::new(),
            urgent_stops: StrMap::new(),
            cancel_handles: StrMap::new(),
            session_committed_lines: StrMap::new(),
            session_delivery_cursors: StrMap::new(),
            session_snapshots: StrMap::new(),
            session_configs: StrMap::new(),
            latest_session: None,
        };
        assert(r.handles() =~= Map::empty());
        r
    }

    // ── Forgetting ──────────────────────────────────────────────────────

    /// The books of the manager agree: every session stands under its own id,
    /// every session and no other can be stopped and cancelled and shows its
    /// state, those that persist something and no others show their settings,
    /// and the debugger knows every session once it is on.
    pub open spec fn books_agree(&self) -> bool {
        &&& forall|k: Seq<char>| #[trigger]
            self.handles().contains_key(k) ==> self.handles()[k].session_id == k
        &&& forall|k: Seq<char>| #[trigger]
            self.urgent_stops@.contains_key(k) <==> self.handles().contains_key(k)
        &&& forall|k: Seq<char>| #[trigger]
            self.cancel_handles@.contains_key(k) <==> self.handles().contains_key(k)
        &&& forall|k: Seq<char>| #[trigger]
            self.session_snapshots@.contains_key(k) <==> self.handles().contains_key(k)
        &&& forall|k: Seq<char>| #[trigger]
            self.session_configs@.contains_key(k) <==> self.handles().contains_key(k)
                && self.handles()[k].conversation is Some
        &&& self.debug_enabled ==> forall|k: Seq<char>|
            self.handles().contains_key(k) ==> #[trigger] self.debug_controllers@.contains_key(k)
    }

    /// Nothing is left of a session, but for a workspace it wants back.
    pub open spec fn forgotten(before: SessionManager, after: SessionManager, id: Seq<char>) -> bool {
        &&& after.handles() == before.handles().remove(id)
        &&& after.urgent_stops@ == before.urgent_stops@.remove(id)
        &&& after.cancel_handles@ == before.cancel_handles@.remove(id)
        &&& after.session_committed_lines@ == before.session_committed_lines@.remove(id)
        &&& after.session_delivery_cursors@ == before.session_delivery_cursors@.remove(id)
        &&& after.session_snapshots@ == before.session_snapshots@.remove(id)
        &&& after.session_configs@ == before.session_configs@.remove(id)
        &&& after == (SessionManager {
            sessions: after.sessions,
            urgent_stops: after.urgent_stops,
            cancel_handles: after.cancel_handles,
            session_committed_lines: after.session_committed_lines,
            session_delivery_cursors: after.session_delivery_cursors,
            session_snapshots: after.session_snapshots,
            session_configs: after.session_configs,
            ..before
        })
    }

    /// Nothing is left of a session, not even a workspace it wants back.
    pub open spec fn forgotten_for_good(
        before: SessionManager,
        after: SessionManager,
        id: Seq<char>,
    ) -> bool {
        &&& after.pending_workspaces@ == before.pending_workspaces@.remove(id)
        &&& Self::forgotten(
            before,
            (SessionManager { pending_workspaces: before.pending_workspaces, ..after }),
            id,
        )
    }

    pub(crate) fn forget(&mut self, id: &str) -> (r: Option<SessionHandle>)
        ensures
            Self::forgotten(*old(self), *final(self), id@),
            match r {
                Some(h) => old(self).handles().contains_key(id@) && old(self).handles()[id@]
                    == h.deep_view(),
                None => !old(self).handles().contains_key(id@),
            },
    {
        let r = self.sessions.remove(id);
        let _ = self.urgent_stops.remove(id);
        let _ = self.cancel_handles.remove(id);
        let _ = self.session_committed_lines.remove(id);
        let _ = self.session_delivery_cursors.remove(id);
        let _ = self.session_snapshots.remove(id);
        let _ = self.session_configs.remove(id);
        assert(self.handles() =~= old(self).handles().remove(id@));
        r
    }

    /// The sessions once one of them was closed, and what the host is given.
    pub open spec fn session_closed(
        before: SessionManager,
        after: SessionManager,
        session_id: Seq<char>,
        r: Result<SessionHandle, RuntimeError>,
    ) -> bool {
        if before.handles().contains_key(session_id) {
            &&& r matches Ok(h) && h.deep_view() == before.handles()[session_id].closing()
            &&& Self::forgotten_for_good(before, after, session_id)
        } else {
            &&& r matches Err(RuntimeError::Config(text)) && text@ == session_not_found(session_id)
            &&& after == before
        }
    }

    /// Close a session by ID: it is told to close, and the manager forgets it.
    /// Its log is preserved. An error where the session does not exist.
    pub fn close_session(&mut self, session_id: &str) -> (r: Result<SessionHandle, RuntimeError>)
        ensures
            old(self).books_agree() ==> final(self).books_agree(),
            Self::session_closed(*old(self), *final(self), session_id@, r),
    {
        if !self.sessions.contains_key(session_id) {
            return Err(
                RuntimeError::Config(crate::text::join2("Session not found: ", session_id)),
            );
        }
        match self.forget(session_id) {
            Some(mut handle) => {
                let _ = self.pending_workspaces.remove(session_id);
                handle.tell_close();
                Ok(handle)
            },
            None => Err(
                RuntimeError::Config(crate::text::join2("Session not found: ", session_id)),
            ),
        }
    }

    /// Delete a session: where it is in memory it is told to close, and its
    /// handle comes back so that its end can be waited for. The manager
    /// forgets it either way; its files are the host's to delete.
    pub fn delete_session(&mut self, session_id: &str) -> (r: Option<SessionHandle>)
        ensures
            old(self).books_agree() ==> final(self).books_agree(),
            match r {
                Some(h) => old(self).handles().contains_key(session_id@) && h.deep_view() == old(
                    self,
                ).handles()[session_id@].closing(),
                None => !old(self).handles().contains_key(session_id@),
            },
            Self::forgotten_for_good(*old(self), *final(self), session_id@),
    {
        let handle = self.forget(session_id);
        let _ = self.pending_workspaces.remove(session_id);
        match handle {
            Some(mut handle) => {
                handle.tell_close();
                Some(handle)
            },
            None => None,
        }
    }

    // ── Messages ────────────────────────────────────────────────────────

    /// The sessions once a message was sent to one of them, and what the sender
    /// is told.
    pub open spec fn message_sent(
        before: SessionManager,
        after: SessionManager,
        session_id: Seq<char>,
        msg: MessageView,
        r: Result<(), RuntimeError>,
    ) -> bool {
        if !before.handles().contains_key(session_id) {
            &&& r matches Err(RuntimeError::Config(text)) && text@ == session_not_found(session_id)
            &&& after == before
        } else {
            match before.handles()[session_id].link.verdict() {
                None => {
                    &&& r is Ok
                    &&& after.handles() == before.handles().insert(
                        session_id,
                        before.handles()[session_id].sent(msg),
                    )
                    &&& after == (SessionManager { sessions: after.sessions, ..before })
                },
                Some(SendError::Full) => {
                    &&& r matches Err(RuntimeError::Config(text)) && text@
                        == "Session channel full: "@ + session_id
                    &&& after == before
                },
                Some(SendError::Closed) => {
                    &&& r matches Err(RuntimeError::Config(text)) && text@ == session_not_found(
                        session_id,
                    )
                    &&& Self::forgotten(before, after, session_id)
                },
            }
        }
    }

    /// Send a message to a specific session.
    ///
    /// Returns an error if the session does not exist, is behind (the message
    /// is dropped and the session stays), or is gone (the manager forgets it,
    /// so that the next attempt finds no session).
    pub fn send_to_session(&mut self, session_id: &str, msg: SessionMessage) -> (r: Result<
        (),
        RuntimeError,
    >)
        ensures
            old(self).books_agree() ==> final(self).books_agree(),
            Self::message_sent(*old(self), *final(self), session_id@, msg.deep_view(), r),
    {
        let link = match self.sessions.get(session_id) {
            Some(handle) => handle.link,
            None => {
                return Err(
                    RuntimeError::Config(crate::text::join2("Session not found: ", session_id)),
                );
            },
        };
        if link.closed {
            let _ = self.forget(session_id);
            return Err(
                RuntimeError::Config(crate::text::join2("Session not found: ", session_id)),
            );
        }
        if link.free == 0 {
            return Err(
                RuntimeError::Config(crate::text::join2("Session channel full: ", session_id)),
            );
        }
        match self.sessions.remove(session_id) {
            Some(mut handle) => {
                let _ = handle.send(msg);
                let _ = self.sessions.insert(session_id.to_owned(), handle);
                assert(self.handles() =~= old(self).handles().insert(
                    session_id@,
                    handle.deep_view(),
                ));
            },
            None => {},
        }
        Ok(())
    }

    /// Does an operation on every session; the sessions on which it failed
    /// come back.
    pub fn for_all(&mut self, op: &HandleOp) -> (failed: Vec<String>)
        ensures
            old(self).books_agree() ==> final(self).books_agree(),
            final(self).handles() == all_done(old(self).handles(), op.what()),
            failed_sessions(old(self).handles(), op.what(), failed.deep_view()),
            *final(self) == (SessionManager { sessions: final(self).sessions, ..*old(self) }),
    {
        let ghost before = self.handles();
        let ghost what = op.what();
        let keys = self.sessions.keys();
        let ghost ids = keys.deep_view();
        let mut failed: Vec<String> = Vec::new();
        let mut i: usize = 0;
        proof {
            assert(ids.len() == keys.len());
            assert forall|k: Seq<char>| before.contains_key(k) == ids.contains(k) by {
                assert(self.sessions@.contains_key(k) == ids.contains(k));
            }
        }
        while i < keys.len()
            invariant
                i <= keys.len(),
                ids == keys.deep_view(),
                ids.len() == keys.len(),
                ids.no_duplicates(),
                what == op.what(),
                before == old(self).handles(),
                forall|k: Seq<char>| before.contains_key(k) == #[trigger] ids.contains(k),
                self.handles().dom() =~= before.dom(),
                forall|j: int|
                    0 <= j < i ==> self.handles()[#[trigger] ids[j]] == before[ids[j]].done(what),
                forall|j: int|
                    i <= j < ids.len() ==> self.handles()[#[trigger] ids[j]] == before[ids[j]],
                failed.deep_view().no_duplicates(),
                forall|k: Seq<char>| #[trigger]
                    failed.deep_view().contains(k) <==> exists|j: int|
                        0 <= j < i && #[trigger] ids[j] == k && before[k].fails(what),
                *self == (SessionManager { sessions: self.sessions, ..*old(self) }),
            decreases keys.len() - i,
        {
            let id = &keys[i];
            let ghost at = self.handles();
            let ghost sofar = failed.deep_view();
            proof {
                assert(ids[i as int] == id@);
                assert(ids.contains(id@));
                assert(before.dom().contains(id@));
                assert(self.handles().dom().contains(id@));
                assert(self.sessions@.contains_key(id@));
            }
            match self.sessions.remove(id.as_str()) {
                Some(mut handle) => {
                    let bad = handle.apply(op);
                    let _ = self.sessions.insert(id.clone(), handle);
                    assert(self.handles() =~= at.insert(id@, before[id@].done(what)));
                    if bad {
                        failed.push(id.clone());
                        assert(failed.deep_view() =~= sofar.push(id@));
                    }
                    proof {
                        assert forall|j: int| 0 <= j < i + 1 implies self.handles()[
                            #[trigger] ids[j]
                        ] == before[ids[j]].done(what) by {
                            if j < i {
                                assert(ids[j] != ids[i as int]);
                            }
                        }
                        assert forall|j: int| i + 1 <= j < ids.len() implies self.handles()[
                            #[trigger] ids[j]
                        ] == before[ids[j]] by {
                            assert(ids[j] != ids[i as int]);
                        }
                        lemma_failed_grows(
                            ids,
                            before,
                            what,
                            sofar,
                            failed.deep_view(),
                            i as int,
                            bad,
                        );
                    }
                },
                None => {},
            }
            i = i + 1;
        }
        proof {
            assert(self.handles() =~= all_done(before, what)) by {
                assert forall|k: Seq<char>| #[trigger] before.contains_key(k) implies self.handles()[k]
                    == before[k].done(what) by {
                    assert(ids.contains(k));
                    let j = choose|j: int| 0 <= j < ids.len() && ids[j] == k;
                    assert(self.handles()[ids[j]] == before[ids[j]].done(what));
                }
            }
            assert forall|k: Seq<char>| #[trigger]
                failed.deep_view().contains(k) <==> before.contains_key(k) && before[k].fails(
                    what,
                ) by {
                if failed.deep_view().contains(k) {
                    let j = choose|j: int|
                        0 <= j < i && #[trigger] ids[j] == k && before[k].fails(what);
                    assert(ids.contains(ids[j]));
                }
                if before.contains_key(k) && before[k].fails(what) {
                    assert(ids.contains(k));
                    let j = choose|j: int| 0 <= j < ids.len() && ids[j] == k;
                    assert(ids[j] == k);
                }
            }
        }
        failed
    }

    /// Broadcast a message to all active sessions.
    ///
    /// Returns the IDs of the sessions that did not take it.
    pub fn broadcast(&mut self, msg: &SessionMessage) -> (failed: Vec<String>)
        ensures
            old(self).books_agree() ==> final(self).books_agree(),
            final(self).handles() == all_done(
                old(self).handles(),
                HandleOpView::Send(msg.deep_view()),
            ),
            failed_sessions(
                old(self).handles(),
                HandleOpView::Send(msg.deep_view()),
                failed.deep_view(),
            ),
            *final(self) == (SessionManager { sessions: final(self).sessions, ..*old(self) }),
    {
        self.for_all(&HandleOp::Send(msg))
    }

    // ── Observing ───────────────────────────────────────────────────────

    /// Where a session stands; `on_disk` where its log exists.
    pub open spec fn lifecycle(
        &self,
        session_id: Seq<char>,
        on_disk: bool,
    ) -> SessionLifecycleState {
        if self.handles().contains_key(session_id) {
            SessionLifecycleState::Active
        } else if on_disk {
            SessionLifecycleState::Closed
        } else {
            SessionLifecycleState::NotFound
        }
    }

    /// Observe the lifecycle state of a session. `on_disk` says whether its
    /// meta file exists.
    pub fn get_lifecycle_state(&self, session_id: &str, on_disk: bool) -> (r: SessionLifecycleState)
        ensures
            r == self.lifecycle(session_id@, on_disk),
    {
        if self.sessions.contains_key(session_id) {
            SessionLifecycleState::Active
        } else if on_disk {
            SessionLifecycleState::Closed
        } else {
            SessionLifecycleState::NotFound
        }
    }

    /// Look up a session handle by ID.
    pub fn get_session(&self, session_id: &str) -> (r: Option<&SessionHandle>)
        ensures
            match r {
                Some(h) => self.handles().contains_key(session_id@) && self.handles()[session_id@]
                    == h.deep_view(),
                None => !self.handles().contains_key(session_id@),
            },
    {
        self.sessions.get(session_id)
    }

    /// Get all active session IDs, each once.
    pub fn active_sessions(&self) -> (r: Vec<String>)
        ensures
            r.deep_view().no_duplicates(),
            forall|k: Seq<char>| r.deep_view().contains(k) == #[trigger] self.handles().contains_key(
                k,
            ),
    {
        let r = self.sessions.keys();
        assert forall|k: Seq<char>| r.deep_view().contains(k)
            == #[trigger] self.handles().contains_key(k) by {
            assert(self.sessions@.contains_key(k) == r.deep_view().contains(k));
        }
        r
    }

    /// Get the number of active sessions.
    pub fn session_count(&self) -> (r: usize)
        ensures
            r == self.handles().dom().len(),
    {
        assert(self.handles().dom() =~= self.sessions@.dom());
        self.sessions.len()
    }

    /// Get the runtime snapshot of a session.
    pub fn snapshot_session_state(&self, session_id: &str) -> (r: Option<SessionSnapshot>)
        ensures
            match r {
                Some(s) => self.handles().contains_key(session_id@) && s.deep_view()
                    == self.handles()[session_id@].snapshot,
                None => !self.handles().contains_key(session_id@),
            },
    {
        match self.sessions.get(session_id) {
            Some(handle) => Some(handle.snapshot.clone()),
            None => None,
        }
    }

    /// Get the current status of all active sessions, each once.
    pub fn session_statuses(&self) -> (r: Vec<(String, SessionStatus)>)
        ensures
            r.len() == self.handles().dom().len(),
            forall|i: int|
                0 <= i < r.len() ==> self.handles().contains_key((#[trigger] r@[i]).0@)
                    && self.handles()[r@[i].0@].status == r@[i].1.deep_view(),
            forall|k: Seq<char>| #[trigger]
                self.handles().contains_key(k) ==> exists|i: int|
                    0 <= i < r.len() && (#[trigger] r@[i]).0@ == k,
    {
        let keys = self.sessions.keys();
        let ghost ids = keys.deep_view();
        let mut r: Vec<(String, SessionStatus)> = Vec::new();
        let mut i: usize = 0;
        assert(ids.len() == keys.len());
        while i < keys.len()
            invariant
                i <= keys.len(),
                ids == keys.deep_view(),
                ids.len() == keys.len(),
                r.len() == i,
                forall|k: Seq<char>| ids.contains(k) == #[trigger] self.sessions@.contains_key(k),
                forall|j: int|
                    0 <= j < i ==> (#[trigger] r@[j]).0@ == ids[j] && self.handles().contains_key(
                        ids[j],
                    ) && self.handles()[ids[j]].status == r@[j].1.deep_view(),
            decreases keys.len() - i,
        {
            proof {
                assert(ids[i as int] == keys@[i as int]@);
                assert(ids.contains(ids[i as int]));
                assert(self.sessions@.contains_key(ids[i as int]));
            }
            match self.sessions.get(keys[i].as_str()) {
                Some(handle) => r.push((keys[i].clone(), handle.status.clone())),
                None => {},
            }
            i = i + 1;
        }
        proof {
            assert(self.handles().dom() =~= self.sessions@.dom());
            ids.unique_seq_to_set();
            assert(ids.to_set() =~= self.sessions@.dom()) by {
                assert forall|k: Seq<char>| ids.to_set().contains(k)
                    == self.sessions@.dom().contains(k) by {
                    assert(ids.contains(k) == self.sessions@.contains_key(k));
                }
            }
            assert forall|k: Seq<char>| #[trigger] self.handles().contains_key(k) implies exists|
                i: int,
            |
                0 <= i < r.len() && (#[trigger] r@[i]).0@ == k by {
                assert(self.sessions@.contains_key(k));
                assert(ids.contains(k));
                let j = choose|j: int| 0 <= j < ids.len() && ids[j] == k;
                assert(r@[j].0@ == k);
            }
        }
        r
    }

    /// The current request of a session, by which it can be cancelled; nothing
    /// where the session is not registered.
    pub fn cancel_handle(&self, session_id: &str) -> (r: Option<u64>)
        ensures
            match r {
                Some(g) => self.cancel_handles@.contains_key(session_id@)
                    && self.cancel_handles@[session_id@] == g,
                None => !self.cancel_handles@.contains_key(session_id@),
            },
    {
        match self.cancel_handles.get(session_id) {
            Some(g) => Some(*g),
            None => None,
        }
    }

    /// The id of the agent.
    pub fn agent_id(&self) -> (r: &str)
        ensures
            r@ == self.core.agent_id@,
    {
        self.core.agent_id.as_str()
    }

    /// The directory of the agent.
    pub fn agent_home(&self) -> (r: &str)
        ensures
            r@ == self.core.work_dir@,
    {
        self.core.work_dir.as_str()
    }

    /// The template from which the core of each session is copied.
    pub fn shared_core(&self) -> (r: &AgentCore)
        ensures
            *r == self.core,
    {
        &self.core
    }

    /// The sessions whose settings can be changed from outside.
    pub fn session_configs(&self) -> (r: &StrMap<()>)
        ensures
            *r == self.session_configs,
    {
        &self.session_configs
    }

    /// Store the session that was last created or resumed.
    pub fn set_latest_session(&mut self, session_id: String, title: Option<String>)
        ensures
            old(self).books_agree() ==> final(self).books_agree(),
            *final(self) == (SessionManager {
                latest_session: Some((session_id, title)),
                ..*old(self)
            }),
    {
        self.latest_session = Some((session_id, title));
    }

    /// The session that was last created or resumed, and its title.
    pub fn latest_session(&self) -> (r: &Option<(String, Option<String>)>)
        ensures
            *r == self.latest_session,
    {
        &self.latest_session
    }

    // ── Delivery cursors ────────────────────────────────────────────────

    /// The lines in the log of a session; none where it has no log.
    pub open spec fn committed_lines(&self, session_id: Seq<char>) -> usize {
        if self.session_committed_lines@.contains_key(session_id) {
            self.session_committed_lines@[session_id]
        } else {
            0
        }
    }

    /// Per-session committed line count.
    pub fn committed_lines_for(&self, session_id: &str) -> (r: usize)
        ensures
            r == self.committed_lines(session_id@),
    {
        match self.session_committed_lines.get(session_id) {
            Some(n) => *n,
            None => 0,
        }
    }

    /// The writer of a session has written: its log holds so many lines.
    pub fn note_committed_lines(&mut self, session_id: &str, lines: usize)
        ensures
            old(self).books_agree() ==> final(self).books_agree(),
            final(self).session_committed_lines@ == old(self).session_committed_lines@.insert(
                session_id@,
                lines,
            ),
            *final(self) == (SessionManager {
                session_committed_lines: final(self).session_committed_lines,
                ..*old(self)
            }),
    {
        let _ = self.session_committed_lines.insert(session_id.to_owned(), lines);
    }

    /// The count of a log that nothing was written to.
    pub fn new_committed_lines() -> (r: usize)
        ensures
            r == 0,
    {
        0
    }

    /// Where the delivery of a session's log stands. A session that was never
    /// asked about starts at the end of its log: what stands there was
    /// delivered when it was opened.
    pub open spec fn cursor_of(&self, session_id: Seq<char>) -> DeliveryCursor {
        if self.session_delivery_cursors@.contains_key(session_id) {
            self.session_delivery_cursors@[session_id]
        } else {
            DeliveryCursor { line_number: self.committed_lines(session_id), char_offset: 0 }
        }
    }

    /// Get the per-session delivery cursor. The first call fixes it.
    pub fn get_delivery_cursor(&mut self, session_id: &str) -> (r: DeliveryCursor)
        ensures
            old(self).books_agree() ==> final(self).books_agree(),
            r == old(self).cursor_of(session_id@),
            final(self).session_delivery_cursors@ == old(
                self,
            ).session_delivery_cursors@.insert(session_id@, r),
            *final(self) == (SessionManager {
                session_delivery_cursors: final(self).session_delivery_cursors,
                ..*old(self)
            }),
    {
        match self.session_delivery_cursors.get(session_id) {
            Some(c) => {
                let cursor = *c;
                assert(self.session_delivery_cursors@ =~= self.session_delivery_cursors@.insert(
                    session_id@,
                    cursor,
                ));
                cursor
            },
            None => {
                let initial = DeliveryCursor {
                    line_number: self.committed_lines_for(session_id),
                    char_offset: 0,
                };
                let _ = self.session_delivery_cursors.insert(session_id.to_owned(), initial);
                initial
            },
        }
    }

    /// Advance the delivery cursor after a delivery.
    pub fn advance_delivery_cursor(
        &mut self,
        session_id: &str,
        line_number: usize,
        char_offset: usize,
    )
        ensures
            old(self).books_agree() ==> final(self).books_agree(),
            final(self).session_delivery_cursors@ == old(
                self,
            ).session_delivery_cursors@.insert(
                session_id@,
                DeliveryCursor { line_number, char_offset },
            ),
            *final(self) == (SessionManager {
                session_delivery_cursors: final(self).session_delivery_cursors,
                ..*old(self)
            }),
    {
        let _ = self.session_delivery_cursors.insert(
            session_id.to_owned(),
            DeliveryCursor { line_number, char_offset },
        );
    }

    /// Reset the delivery cursor to the end of the log, after all of it was
    /// delivered.
    pub fn reset_delivery_cursor(&mut self, session_id: &str, total_lines: usize)
        ensures
            old(self).books_agree() ==> final(self).books_agree(),
            final(self).session_delivery_cursors@ == old(
                self,
            ).session_delivery_cursors@.insert(
                session_id@,
                DeliveryCursor { line_number: total_lines, char_offset: 0 },
            ),
            *final(self) == (SessionManager {
                session_delivery_cursors: final(self).session_delivery_cursors,
                ..*old(self)
            }),
    {
        self.advance_delivery_cursor(session_id, total_lines, 0);
    }

    /// Extract the target session ID from request params. Every message must
    /// carry one.
    pub fn require_session_id(params: &Json) -> (r: Result<String, RuntimeError>)
        ensures
            names_session(params.deep_view(), r),
    {
        match params.get_str("session_id") {
            Some(id) => if !id.is_empty() {
                return Ok(id.to_owned());
            },
            None => {},
        }
        Err(
            RuntimeError::Config(
                "Missing or empty session_id parameter — every message must carry a session_id".to_owned(),
            ),
        )
    }
}

/// One more step of [`SessionManager::for_all`].
proof fn lemma_failed_grows(
    ids: Seq<Seq<char>>,
    before: Map<Seq<char>, HandleView>,
    what: HandleOpView,
    sofar: Seq<Seq<char>>,
    now: Seq<Seq<char>>,
    i: int,
    bad: bool,
)
    requires
        0 <= i < ids.len(),
        now == (if bad {
            sofar.push(ids[i])
        } else {
            sofar
        }),
        ids.no_duplicates(),
        bad == before[ids[i]].fails(what),
        sofar.no_duplicates(),
        forall|k: Seq<char>| #[trigger]
            sofar.contains(k) <==> exists|j: int|
                0 <= j < i && #[trigger] ids[j] == k && before[k].fails(what),
    ensures
        now.no_duplicates(),
        forall|k: Seq<char>| #[trigger]
            now.contains(k) <==> exists|j: int|
                0 <= j < i + 1 && #[trigger] ids[j] == k && before[k].fails(what),
{
    assert(!sofar.contains(ids[i])) by {
        if sofar.contains(ids[i]) {
            let j = choose|j: int|
                0 <= j < i && #[trigger] ids[j] == ids[i] && before[ids[i]].fails(what);
            assert(ids[j] != ids[i]);
        }
    }
    assert forall|k: Seq<char>| #[trigger]
        now.contains(k) <==> exists|j: int|
            0 <= j < i + 1 && #[trigger] ids[j] == k && before[k].fails(what) by {
        if now.contains(k) {
            let p = choose|p: int| 0 <= p < now.len() && now[p] == k;
            if p < sofar.len() {
                assert(sofar[p] == k);
                assert(sofar.contains(k));
                let j = choose|j: int|
                    0 <= j < i && #[trigger] ids[j] == k && before[k].fails(what);
                assert(ids[j] == k);
            } else {
                assert(ids[i] == k);
            }
        }
        if exists|j: int| 0 <= j < i + 1 && #[trigger] ids[j] == k && before[k].fails(what) {
            let j = choose|j: int|
                0 <= j < i + 1 && #[trigger] ids[j] == k && before[k].fails(what);
            if j < i {
                assert(sofar.contains(k));
                let p = choose|p: int| 0 <= p < sofar.len() && sofar[p] == k;
                assert(now[p] == k);
            } else {
                assert(now[now.len() - 1] == k);
            }
        }
    }
    assert forall|a: int, b: int|
        0 <= a < now.len() && 0 <= b < now.len() && a != b implies now[a] != now[b] by {
        if bad && a == sofar.len() {
            assert(sofar.contains(sofar[b]));
        } else if bad && b == sofar.len() {
            assert(sofar.contains(sofar[a]));
        }
    }
}

// ── Laws ────────────────────────────────────────────────────────────────

/// A session that the manager forgot is not known anywhere any more, and every
/// other session is untouched.
pub proof fn forgotten_sessions_leave_no_trace(
    before: SessionManager,
    after: SessionManager,
    id: Seq<char>,
    other: Seq<char>,
)
    requires
        SessionManager::forgotten(before, after, id),
        other != id,
    ensures
        !after.handles().contains_key(id),
        !after.urgent_stops@.contains_key(id),
        !after.cancel_handles@.contains_key(id),
        !after.session_committed_lines@.contains_key(id),
        !after.session_delivery_cursors@.contains_key(id),
        !after.session_snapshots@.contains_key(id),
        !after.session_configs@.contains_key(id),
        after.handles().contains_key(other) == before.handles().contains_key(other),
        before.handles().contains_key(other) ==> after.handles()[other] == before.handles()[other],
        after.cursor_of(other) == before.cursor_of(other),
        after.cancel_handles@.contains_key(other) == before.cancel_handles@.contains_key(other),
{
}

/// After a session went, its delivery starts anew.
pub proof fn forgotten_cursor_starts_anew(before: SessionManager, after: SessionManager, id: Seq<char>)
    requires
        SessionManager::forgotten(before, after, id),
    ensures
        after.cursor_of(id) == (DeliveryCursor { line_number: 0, char_offset: 0 }),
{
}

/// A cursor that was set is the one that is read, and no other session's
/// cursor moves with it.
pub proof fn set_cursor_is_read_back(
    before: SessionManager,
    after: SessionManager,
    id: Seq<char>,
    cursor: DeliveryCursor,
    other: Seq<char>,
)
    requires
        after.session_delivery_cursors@ == before.session_delivery_cursors@.insert(id, cursor),
        after.session_committed_lines@ == before.session_committed_lines@,
        other != id,
    ensures
        after.cursor_of(id) == cursor,
        after.cursor_of(other) == before.cursor_of(other),
{
}

/// A cursor that was once read or set stays where it is while the log grows:
/// what is written after it is still to be delivered.
pub proof fn cursor_waits_for_delivery(before: SessionManager, after: SessionManager, id: Seq<char>)
    requires
        before.session_delivery_cursors@.contains_key(id),
        after.session_delivery_cursors@ == before.session_delivery_cursors@,
    ensures
        after.cursor_of(id) == before.cursor_of(id),
{
}

/// A full channel costs a message and nothing else; only a closed one costs
/// the session.
pub proof fn backpressure_keeps_the_session(h: HandleView, msg: MessageView)
    ensures
        h.link.verdict() == Some(SendError::Full) ==> h.done(HandleOpView::Send(msg)) == h,
        h.link.verdict() is None ==> h.done(HandleOpView::Send(msg)).inbox == h.inbox.push(msg),
{
}

/// A message reaches its session alone, behind what waits there; where the
/// session has no room, nothing happens and the sender is told; where nobody
/// listens any more, the session is forgotten; and an unknown session is named.
pub proof fn messages_reach_their_session(
    before: SessionManager,
    after: SessionManager,
    id: Seq<char>,
    msg: MessageView,
    r: Result<(), RuntimeError>,
    other: Seq<char>,
)
    requires
        SessionManager::message_sent(before, after, id, msg, r),
        other != id,
    ensures
        ({
            let known = before.handles().contains_key(id);
            let link = before.handles()[id].link;
            &&& r is Ok <==> known && !link.closed && link.free > 0
            &&& r is Ok ==> {
                &&& after.handles().contains_key(id)
                &&& after.handles()[id].inbox == before.handles()[id].inbox.push(msg)
                &&& after.handles()[id].link.free + 1 == link.free
            }
            &&& r is Err ==> r->Err_0 is Config
            &&& !known || link.closed ==> r->Err_0->Config_0@ == "Session not found: "@ + id
            &&& known && !link.closed && link.free == 0 ==> r->Err_0->Config_0@
                == "Session channel full: "@ + id && after == before
            &&& known && link.closed ==> !after.handles().contains_key(id)
            &&& after.handles().contains_key(other) <==> before.handles().contains_key(other)
            &&& before.handles().contains_key(other) ==> after.handles()[other]
                == before.handles()[other]
        }),
{
}

/// A session that is closed is told so and forgotten, with the workspace that it
/// waits for; an unknown one is named, and nothing happens.
pub proof fn closed_sessions_are_told_and_forgotten(
    before: SessionManager,
    after: SessionManager,
    id: Seq<char>,
    r: Result<SessionHandle, RuntimeError>,
)
    requires
        SessionManager::session_closed(before, after, id, r),
    ensures
        r is Ok <==> before.handles().contains_key(id),
        r matches Ok(h) ==> {
            &&& h.deep_view().inbox == before.handles()[id].inbox.push(MessageView::Close)
            &&& h.deep_view().session_id == before.handles()[id].session_id
            &&& !after.handles().contains_key(id)
            &&& !after.pending_workspaces@.contains_key(id)
            &&& !after.cancel_handles@.contains_key(id)
            &&& !after.session_configs@.contains_key(id)
        },
        r matches Err(e) ==> e is Config && e->Config_0@ == "Session not found: "@ + id && after
            == before,
{
}

/// A session that runs is active, whether or not it has a log; one that does not
/// run is closed where it has a log, else unknown.
pub proof fn sessions_stand_where_they_should(m: SessionManager, id: Seq<char>)
    ensures
        m.handles().contains_key(id) ==> forall|on_disk: bool| #[trigger]
            m.lifecycle(id, on_disk) == SessionLifecycleState::Active,
        !m.handles().contains_key(id) ==> m.lifecycle(id, true) == SessionLifecycleState::Closed
            && m.lifecycle(id, false) == SessionLifecycleState::NotFound,
{
}

/// A message names its session by a text that is not empty; every other message
/// is refused.
pub proof fn messages_name_their_session(params: JsonView, r: Result<String, RuntimeError>)
    requires
        names_session(params, r),
    ensures
        r is Ok <==> params.text_at("session_id"@) is Some && params.text_at("session_id"@)->0.len()
            > 0,
        r matches Ok(id) ==> params.text_at("session_id"@) == Some(id@),
        r matches Err(e) ==> e is Config && e->Config_0@
            == "Missing or empty session_id parameter — every message must carry a session_id"@,
{
}

/// What is done to all sessions is done to each, and to no other; the sessions
/// that could not take it are named, once each.
pub proof fn every_session_is_reached(
    handles: Map<Seq<char>, HandleView>,
    op: HandleOpView,
    failed: Seq<Seq<char>>,
    id: Seq<char>,
)
    requires
        failed_sessions(handles, op, failed),
    ensures
        all_done(handles, op).contains_key(id) <==> handles.contains_key(id),
        handles.contains_key(id) ==> all_done(handles, op)[id] == handles[id].done(op),
        failed.contains(id) ==> handles.contains_key(id) && handles[id].fails(op),
        handles.contains_key(id) && handles[id].fails(op) ==> failed.contains(id),
        failed.no_duplicates(),
{
}

/// A session whose lines were delivered is read on from where it was left;
/// another from behind the lines that were committed before it was opened.
pub proof fn delivery_goes_on_where_it_stopped(m: SessionManager, id: Seq<char>)
    ensures
        m.session_delivery_cursors@.contains_key(id) ==> m.cursor_of(id)
            == m.session_delivery_cursors@[id],
        !m.session_delivery_cursors@.contains_key(id) ==> m.cursor_of(id).char_offset == 0,
        !m.session_delivery_cursors@.contains_key(id) && m.session_committed_lines@.contains_key(id)
            ==> m.cursor_of(id).line_number == m.session_committed_lines@[id],
        !m.session_delivery_cursors@.contains_key(id)
            && !m.session_committed_lines@.contains_key(id) ==> m.cursor_of(id).line_number == 0,
{
}

} // verus!
