//! The directories that sessions work in.

use vstd::prelude::*;

use crate::session_config::{ConfigView, SessionConfigDelta};
use crate::session_handle::{HandleOp, HandleOpView, HandleView, SessionHandle};
use crate::session_manager::{SessionManager, Workspaces};
use crate::session_message::{MessageView, SessionMessage};
use crate::text::same_text;

verus! {

/// The workspace of an agent that has none: its own directory.
pub open spec fn agent_home_id() -> Seq<char> {
    "__agent_home__"@
}

impl Workspaces {
    /// A session may work there.
    pub open spec fn knows(&self, workspace_id: Seq<char>) -> bool {
        workspace_id == agent_home_id() || self.dirs@.contains_key(workspace_id)
    }

    /// The directory of a workspace; the agent's own where there is no such
    /// workspace.
    pub open spec fn dir_of(&self, workspace_id: Seq<char>) -> Seq<char> {
        if workspace_id == agent_home_id() || !self.dirs@.contains_key(workspace_id) {
            self.agent_home@
        } else {
            self.dirs@[workspace_id]@
        }
    }

    /// Whether a session may work there.
    pub fn is_known(&self, workspace_id: &str) -> (r: bool)
        ensures
            r == self.knows(workspace_id@),
    {
        same_text(workspace_id, "__agent_home__") || self.dirs.contains_key(workspace_id)
    }

    /// The directory of a workspace; the agent's own where there is no such
    /// workspace.
    pub fn resolve(&self, workspace_id: &str) -> (r: String)
        ensures
            r@ == self.dir_of(workspace_id@),
    {
        if same_text(workspace_id, "__agent_home__") {
            return self.agent_home.clone();
        }
        match self.dirs.get(workspace_id) {
            Some(dir) => dir.clone(),
            None => self.agent_home.clone(),
        }
    }
}

/// A change of the workspace alone.
pub open spec fn workspace_change(workspace_id: Seq<char>) -> ConfigView {
    ConfigView { workspace_id: Some(workspace_id), ..ConfigView::none() }
}

/// A session that was moved to a workspace; `dir` is its directory, where that
/// is known.
pub open spec fn moved(h: HandleView, workspace_id: Seq<char>, dir: Option<Seq<char>>) -> HandleView {
    HandleView {
        workspace_id,
        current_work_dir: if dir is Some {
            dir
        } else {
            h.current_work_dir
        },
        ..h.done(HandleOpView::Configure(workspace_change(workspace_id)))
    }
}

/// A session that was told of its workspace.
pub open spec fn briefed(
    h: HandleView,
    context_text: Seq<char>,
    prompt: Option<Seq<char>>,
) -> HandleView {
    h.done(HandleOpView::Send(MessageView::UpdateWorkspaceContext { context_text })).done(
        HandleOpView::Send(MessageView::SetWorkspacePromptFile { content: prompt }),
    )
}

/// None of the first `n` ids is `id`.
spec fn not_among(ids: Seq<Seq<char>>, n: int, id: Seq<char>) -> bool {
    forall|j: int| 0 <= j < n ==> #[trigger] ids[j] != id
}

fn move_to(handle: &mut SessionHandle, workspace_id: &str, dir: Option<String>)
    ensures
        final(handle).deep_view() == moved(
            old(handle).deep_view(),
            workspace_id@,
            dir.deep_view(),
        ),
{
    let delta = SessionConfigDelta {
        workspace_id: Some(workspace_id.to_owned()),
        ..SessionConfigDelta::default()
    };
    let _ = handle.apply(&HandleOp::Configure(&delta));
    handle.workspace_id = workspace_id.to_owned();
    if dir.is_some() {
        handle.current_work_dir = dir;
    }
}

impl SessionManager {
    /// Set the directories that sessions may work in. Has to be done before a
    /// session is created.
    pub fn set_resolver(&mut self, resolver: Workspaces)
        ensures
            old(self).books_agree() ==> final(self).books_agree(),
            *final(self) == (SessionManager { resolver: Some(resolver), ..*old(self) }),
    {
        self.resolver = Some(resolver);
    }

    /// The directories that sessions may work in.
    pub fn resolver(&self) -> (r: &Option<Workspaces>)
        ensures
            *r == self.resolver,
    {
        &self.resolver
    }

    /// The directory of a workspace, where directories are known at all.
    pub open spec fn workspace_dir(&self, workspace_id: Seq<char>) -> Option<Seq<char>> {
        match self.resolver {
            Some(w) => Some(w.dir_of(workspace_id)),
            None => None,
        }
    }

    /// The manager once a session was moved to a workspace.
    pub open spec fn session_moved(
        before: SessionManager,
        after: SessionManager,
        session_id: Seq<char>,
        workspace_id: Seq<char>,
    ) -> bool {
        &&& after.pending_workspaces@ == before.pending_workspaces@.remove(session_id)
        &&& after.handles() == (if before.handles().contains_key(session_id) {
            before.handles().insert(
                session_id,
                moved(
                    before.handles()[session_id],
                    workspace_id,
                    before.workspace_dir(workspace_id),
                ),
            )
        } else {
            before.handles()
        })
        &&& after == (SessionManager {
            pending_workspaces: after.pending_workspaces,
            sessions: after.sessions,
            ..before
        })
    }

    /// Set the current workspace for a specific session: its id, its directory
    /// and its persisted settings at once. It does not wait for a workspace
    /// any more.
    pub fn set_session_workspace(&mut self, session_id: &str, workspace_id: &str)
        ensures
            old(self).books_agree() ==> final(self).books_agree(),
            Self::session_moved(*old(self), *final(self), session_id@, workspace_id@),
    {
        let _ = self.pending_workspaces.remove(session_id);
        let dir = match &self.resolver {
            Some(w) => Some(w.resolve(workspace_id)),
            None => None,
        };
        if !self.sessions.contains_key(session_id) {
            return ;
        }
        match self.sessions.remove(session_id) {
            Some(mut handle) => {
                move_to(&mut handle, workspace_id, dir);
                let _ = self.sessions.insert(session_id.to_owned(), handle);
                assert(self.handles() =~= old(self).handles().insert(
                    session_id@,
                    handle.deep_view(),
                ));
            },
            None => {},
        }
    }

    /// Set the session workspace, for callers that have looked the workspace
    /// up themselves.
    pub fn set_session_workspace_with_resolver(&mut self, session_id: &str, workspace_id: &str)
        ensures
            old(self).books_agree() ==> final(self).books_agree(),
            Self::session_moved(*old(self), *final(self), session_id@, workspace_id@),
    {
        self.set_session_workspace(session_id, workspace_id);
    }

    /// The workspace that a switch leads to: the wanted one where sessions may
    /// work there, else the agent's own.
    pub open spec fn switch_target(&self, workspace_id: Seq<char>) -> Seq<char> {
        if self.resolver matches Some(w) && !w.knows(workspace_id) {
            agent_home_id()
        } else {
            workspace_id
        }
    }

    /// The workspace that a switch leads to.
    pub fn effective_workspace(&self, workspace_id: &str) -> (r: String)
        ensures
            r@ == self.switch_target(workspace_id@),
    {
        match &self.resolver {
            Some(w) => if w.is_known(workspace_id) {
                workspace_id.to_owned()
            } else {
                "__agent_home__".to_owned()
            },
            None => workspace_id.to_owned(),
        }
    }

    /// The manager once a session was asked to switch to a workspace; `effective`
    /// is the one that it switched to.
    pub open spec fn switch_routed(
        before: SessionManager,
        after: SessionManager,
        session_id: Seq<char>,
        workspace_id: Seq<char>,
        context_text: Seq<char>,
        prompt: Option<Seq<char>>,
        effective: Seq<char>,
    ) -> bool {
        &&& effective == before.switch_target(workspace_id)
        &&& after.pending_workspaces@ == (if effective == workspace_id {
            before.pending_workspaces@.remove(session_id)
        } else {
            before.pending_workspaces@.insert(session_id, after.pending_workspaces@[session_id])
        })
        &&& effective != workspace_id ==> after.pending_workspaces@[session_id]@ == workspace_id
        &&& after.handles() == (if before.handles().contains_key(session_id) {
            before.handles().insert(
                session_id,
                briefed(
                    moved(
                        before.handles()[session_id],
                        effective,
                        before.workspace_dir(effective),
                    ),
                    context_text,
                    prompt,
                ),
            )
        } else {
            before.handles()
        })
    }

    /// Switch a session to another workspace: the one entry point for every
    /// interface. A workspace in which sessions may not work is remembered as
    /// pending, and the session falls back to the agent's own directory. The
    /// session is told of the workspace it is in then: `context_text` and
    /// `prompt` are what the host knows of that one. It comes back.
    pub fn route_workspace_switch(
        &mut self,
        session_id: &str,
        workspace_id: &str,
        context_text: String,
        prompt: Option<String>,
    ) -> (effective: String)
        requires
            old(self).resolver is Some,
        ensures
            old(self).books_agree() ==> final(self).books_agree(),
            Self::switch_routed(
                *old(self),
                *final(self),
                session_id@,
                workspace_id@,
                context_text@,
                prompt.deep_view(),
                effective@,
            ),
            *final(self) == (SessionManager {
                pending_workspaces: final(self).pending_workspaces,
                sessions: final(self).sessions,
                ..*old(self)
            }),
    {
        let effective = self.effective_workspace(workspace_id);
        self.set_session_workspace(session_id, effective.as_str());
        if !same_text(effective.as_str(), workspace_id) {
            self.add_pending_workspace(session_id, workspace_id);
            assert(self.pending_workspaces@ =~= old(self).pending_workspaces@.insert(
                session_id@,
                self.pending_workspaces@[session_id@],
            ));
        }
        let ghost mid = self.handles();
        self.update_session_workspace_context(session_id, context_text, prompt);
        assert(self.handles() =~= (if old(self).handles().contains_key(session_id@) {
            old(self).handles().insert(
                session_id@,
                briefed(mid[session_id@], context_text@, prompt.deep_view()),
            )
        } else {
            old(self).handles()
        }));
        effective
    }

    /// The workspace of a session; that of an unknown one is the agent's home.
    pub open spec fn workspace_of(&self, session_id: Seq<char>) -> Seq<char> {
        if self.handles().contains_key(session_id) {
            self.handles()[session_id].workspace_id
        } else {
            agent_home_id()
        }
    }

    /// Get the current workspace ID for a session: the agent's own where the
    /// session is not found.
    pub fn session_workspace_id(&self, session_id: &str) -> (r: String)
        ensures
            r@ == self.workspace_of(session_id@),
    {
        match self.sessions.get(session_id) {
            Some(handle) => handle.workspace_id.clone(),
            None => "__agent_home__".to_owned(),
        }
    }

    /// Tell a session of the workspace it is in: the text for the model, and
    /// the prompt file of the workspace. What a full or closed channel does
    /// not take is lost.
    pub fn update_session_workspace_context(
        &mut self,
        session_id: &str,
        context_text: String,
        prompt: Option<String>,
    )
        requires
            old(self).resolver is Some,
        ensures
            old(self).books_agree() ==> final(self).books_agree(),
            final(self).handles() == (if old(self).handles().contains_key(session_id@) {
                old(self).handles().insert(
                    session_id@,
                    briefed(
                        old(self).handles()[session_id@],
                        context_text@,
                        prompt.deep_view(),
                    ),
                )
            } else {
                old(self).handles()
            }),
            *final(self) == (SessionManager { sessions: final(self).sessions, ..*old(self) }),
    {
        if !self.sessions.contains_key(session_id) {
            return ;
        }
        match self.sessions.remove(session_id) {
            Some(mut handle) => {
                let _ = handle.apply(
                    &HandleOp::Send(&SessionMessage::UpdateWorkspaceContext { context_text }),
                );
                let _ = handle.apply(
                    &HandleOp::Send(&SessionMessage::SetWorkspacePromptFile { content: prompt }),
                );
                let _ = self.sessions.insert(session_id.to_owned(), handle);
                assert(self.handles() =~= old(self).handles().insert(
                    session_id@,
                    handle.deep_view(),
                ));
            },
            None => {},
        }
    }

    /// Set the default workspace ID for new sessions.
    pub fn set_default_workspace_id(&mut self, workspace_id: &str)
        ensures
            old(self).books_agree() ==> final(self).books_agree(),
            final(self).default_workspace_id@ == workspace_id@,
            *final(self) == (SessionManager {
                default_workspace_id: final(self).default_workspace_id,
                ..*old(self)
            }),
    {
        self.default_workspace_id = workspace_id.to_owned();
    }

    /// The workspace of a session was deleted.
    pub open spec fn orphaned(h: HandleView, resolver: Workspaces) -> bool {
        !resolver.knows(h.workspace_id)
    }

    /// A session after deleted workspaces were reconciled.
    pub open spec fn reconciled(h: HandleView, resolver: Workspaces) -> HandleView {
        if Self::orphaned(h, resolver) {
            moved(h, agent_home_id(), Some(resolver.agent_home@))
        } else {
            h
        }
    }

    /// The manager once the sessions of deleted workspaces were moved home.
    pub open spec fn all_reconciled(
        before: SessionManager,
        after: SessionManager,
        resolver: Workspaces,
    ) -> bool {
        &&& after.handles() == before.handles().map_values(
            |h: HandleView| Self::reconciled(h, resolver),
        )
        &&& forall|k: Seq<char>| #[trigger]
            after.pending_workspaces@.contains_key(k)
                <==> before.pending_workspaces@.contains_key(k) || (before.handles().contains_key(k)
                && Self::orphaned(before.handles()[k], resolver))
        &&& forall|k: Seq<char>| #[trigger]
            after.pending_workspaces@.contains_key(k) ==> (if before.handles().contains_key(k)
                && Self::orphaned(before.handles()[k], resolver) {
                after.pending_workspaces@[k]@ == before.handles()[k].workspace_id
            } else {
                after.pending_workspaces@[k] == before.pending_workspaces@[k]
            })
    }

    /// Reconcile deleted workspaces: every session whose workspace is no
    /// longer there falls back to the agent's own directory, and the workspace
    /// it had is remembered as pending.
    pub fn reconcile_deleted_workspaces(&mut self, resolver: &Workspaces)
        ensures
            old(self).books_agree() ==> final(self).books_agree(),
            Self::all_reconciled(*old(self), *final(self), *resolver),
            *final(self) == (SessionManager {
                pending_workspaces: final(self).pending_workspaces,
                sessions: final(self).sessions,
                ..*old(self)
            }),
    {
        let ghost before = self.handles();
        let ghost waiting = self.pending_workspaces@;
        let keys = self.sessions.keys();
        let ghost ids = keys.deep_view();
        let mut i: usize = 0;
        proof {
            assert(ids.len() == keys.len());
            assert forall|k: Seq<char>| before.contains_key(k) == #[trigger] ids.contains(k) by {
                assert(self.sessions@.contains_key(k) == ids.contains(k));
            }
        }
        while i < keys.len()
            invariant
                i <= keys.len(),
                ids == keys.deep_view(),
                ids.len() == keys.len(),
                ids.no_duplicates(),
                before == old(self).handles(),
                waiting == old(self).pending_workspaces@,
                forall|k: Seq<char>| before.contains_key(k) == #[trigger] ids.contains(k),
                self.handles().dom() =~= before.dom(),
                forall|j: int|
                    0 <= j < i ==> self.handles()[#[trigger] ids[j]] == Self::reconciled(
                        before[ids[j]],
                        *resolver,
                    ),
                forall|j: int|
                    i <= j < ids.len() ==> self.handles()[#[trigger] ids[j]] == before[ids[j]],
                forall|j: int|
                    0 <= j < i ==> (if Self::orphaned(before[#[trigger] ids[j]], *resolver) {
                        self.pending_workspaces@.contains_key(ids[j])
                            && self.pending_workspaces@[ids[j]]@ == before[ids[j]].workspace_id
                    } else {
                        self.pending_workspaces@.contains_key(ids[j]) == waiting.contains_key(
                            ids[j],
                        ) && self.pending_workspaces@[ids[j]] == waiting[ids[j]]
                    }),
                forall|k: Seq<char>|
                    not_among(ids, i as int, k) ==> (
                    #[trigger] self.pending_workspaces@.contains_key(k)) == waiting.contains_key(k)
                        && self.pending_workspaces@[k] == waiting[k],
                *self == (SessionManager {
                    pending_workspaces: self.pending_workspaces,
                    sessions: self.sessions,
                    ..*old(self)
                }),
            decreases keys.len() - i,
        {
            let id = &keys[i];
            let ghost at = self.handles();
            let ghost waiting_at = self.pending_workspaces@;
            proof {
                assert(ids[i as int] == id@);
                assert(ids.contains(id@));
                assert(before.dom().contains(id@));
                assert(self.handles().dom().contains(id@));
                assert(self.sessions@.contains_key(id@));
                assert forall|j: int| 0 <= j < i implies #[trigger] ids[j] != id@ by {
                    assert(ids[j] != ids[i as int]);
                }
                assert(not_among(ids, i as int, id@));
                assert(self.pending_workspaces@.contains_key(id@) == waiting.contains_key(id@));
            }
            match self.sessions.remove(id.as_str()) {
                Some(mut handle) => {
                    if !resolver.is_known(handle.workspace_id.as_str()) {
                        let gone = handle.workspace_id.clone();
                        let _ = self.pending_workspaces.insert(id.clone(), gone);
                        move_to(&mut handle, "__agent_home__", Some(resolver.agent_home.clone()));
                    }
                    let _ = self.sessions.insert(id.clone(), handle);
                    assert(self.handles() =~= at.insert(
                        id@,
                        Self::reconciled(before[id@], *resolver),
                    ));
                },
                None => {},
            }
            proof {
                assert forall|j: int| 0 <= j < i + 1 implies self.handles()[#[trigger] ids[j]]
                    == Self::reconciled(before[ids[j]], *resolver) by {
                    if j < i {
                        assert(ids[j] != ids[i as int]);
                    }
                }
                assert forall|j: int| i + 1 <= j < ids.len() implies self.handles()[
                    #[trigger] ids[j]
                ] == before[ids[j]] by {
                    assert(ids[j] != ids[i as int]);
                }
                assert forall|k: Seq<char>|
                    not_among(ids, i + 1, k) implies (
                #[trigger] self.pending_workspaces@.contains_key(k)) == waiting.contains_key(k)
                    && self.pending_workspaces@[k] == waiting[k] by {
                    assert(ids[i as int] != k);
                    assert(not_among(ids, i as int, k));
                    assert(waiting_at.contains_key(k) == waiting.contains_key(k));
                    assert(self.pending_workspaces@.contains_key(k) == waiting_at.contains_key(k));
                }
            }
            i = i + 1;
        }
        proof {
            let want = before.map_values(|h: HandleView| Self::reconciled(h, *resolver));
            assert(self.handles() =~= want) by {
                assert forall|k: Seq<char>| #[trigger] before.contains_key(k) implies self.handles()[k]
                    == want[k] by {
                    assert(ids.contains(k));
                    let j = choose|j: int| 0 <= j < ids.len() && ids[j] == k;
                    assert(self.handles()[ids[j]] == Self::reconciled(before[ids[j]], *resolver));
                }
            }
            assert forall|k: Seq<char>| #[trigger]
                self.pending_workspaces@.contains_key(k) == (waiting.contains_key(k) || (
                before.contains_key(k) && Self::orphaned(before[k], *resolver))) && (
            self.pending_workspaces@.contains_key(k) ==> if before.contains_key(k)
                && Self::orphaned(before[k], *resolver) {
                self.pending_workspaces@[k]@ == before[k].workspace_id
            } else {
                self.pending_workspaces@[k] == waiting[k]
            }) by {
                if before.contains_key(k) {
                    assert(ids.contains(k));
                    let j = choose|j: int| 0 <= j < ids.len() && ids[j] == k;
                    assert(ids[j] == k);
                } else {
                    assert forall|j: int| 0 <= j < i implies #[trigger] ids[j] != k by {
                        assert(ids.contains(ids[j]));
                    }
                    assert(not_among(ids, i as int, k));
                }
            }
        }
    }

    /// Get the pending workspace ID for a session, if any.
    pub fn pending_workspace_id(&self, session_id: &str) -> (r: Option<&str>)
        ensures
            match r {
                Some(w) => self.pending_workspaces@.contains_key(session_id@) && w@
                    == self.pending_workspaces@[session_id@]@,
                None => !self.pending_workspaces@.contains_key(session_id@),
            },
    {
        match self.pending_workspaces.get(session_id) {
            Some(w) => Some(w.as_str()),
            None => None,
        }
    }

    /// Register a pending workspace for a session: one that is not there, but
    /// may be added again.
    pub fn add_pending_workspace(&mut self, session_id: &str, workspace_id: &str)
        ensures
            old(self).books_agree() ==> final(self).books_agree(),
            final(self).pending_workspaces@ == old(self).pending_workspaces@.insert(
                session_id@,
                final(self).pending_workspaces@[session_id@],
            ),
            final(self).pending_workspaces@[session_id@]@ == workspace_id@,
            *final(self) == (SessionManager {
                pending_workspaces: final(self).pending_workspaces,
                ..*old(self)
            }),
    {
        let _ = self.pending_workspaces.insert(session_id.to_owned(), workspace_id.to_owned());
    }
}

// ── Laws ────────────────────────────────────────────────────────────────

/// A switch to a workspace in which sessions may not work is not lost: the
/// session falls back to the agent's own directory.
pub proof fn refused_switch_falls_back(manager: SessionManager, workspace_id: Seq<char>)
    requires
        manager.resolver matches Some(w) && !w.knows(workspace_id),
    ensures
        manager.switch_target(workspace_id) == agent_home_id(),
        manager.workspace_dir(manager.switch_target(workspace_id)) == Some(
            manager.resolver->0.agent_home@,
        ),
        manager.switch_target(manager.switch_target(workspace_id)) == agent_home_id(),
{
}

/// Once deleted workspaces were reconciled every session works in a workspace
/// that is there, and reconciling again changes no session.
pub proof fn reconciling_is_idempotent(h: HandleView, resolver: Workspaces)
    ensures
        !SessionManager::orphaned(SessionManager::reconciled(h, resolver), resolver),
        SessionManager::reconciled(SessionManager::reconciled(h, resolver), resolver)
            == SessionManager::reconciled(h, resolver),
{
}

/// The agent's home is always known; another workspace where it has a directory,
/// which is then its own; one that is not known lies in the home.
pub proof fn workspaces_lie_in_their_directories(w: Workspaces, id: Seq<char>)
    ensures
        w.knows("__agent_home__"@),
        w.dir_of("__agent_home__"@) == w.agent_home@,
        id != "__agent_home__"@ ==> (w.knows(id) <==> w.dirs@.contains_key(id)),
        id != "__agent_home__"@ && w.dirs@.contains_key(id) ==> w.dir_of(id) == w.dirs@[id]@,
        !w.knows(id) ==> w.dir_of(id) == w.agent_home@,
{
}

/// A switch goes to the workspace that was asked for where it is known, or where
/// nothing is known of workspaces; else home.
pub proof fn known_workspaces_are_switched_to(m: SessionManager, id: Seq<char>)
    ensures
        m.resolver is None ==> m.switch_target(id) == id,
        m.resolver matches Some(w) ==> {
            &&& w.knows(id) ==> m.switch_target(id) == id
            &&& !w.knows(id) ==> m.switch_target(id) == "__agent_home__"@
            &&& m.workspace_dir(id) == Some(w.dir_of(id))
        },
        m.resolver is None ==> m.workspace_dir(id) is None,
{
}

/// A session that is moved has the new workspace, and its directory where that
/// is known; the log learns of the workspace and of nothing else.
pub proof fn moved_sessions_know_where_they_are(
    h: HandleView,
    id: Seq<char>,
    dir: Option<Seq<char>>,
)
    ensures
        moved(h, id, dir).workspace_id == id,
        dir is Some ==> moved(h, id, dir).current_work_dir == dir,
        dir is None ==> moved(h, id, dir).current_work_dir == h.current_work_dir,
        moved(h, id, dir).inbox == h.inbox,
        moved(h, id, dir).status == h.status,
        h.conversation is None ==> moved(h, id, dir).conversation is None,
        h.conversation matches Some(c) ==> {
            let after = moved(h, id, dir).conversation->0;
            &&& moved(h, id, dir).conversation is Some
            &&& after.config.workspace_id == Some(id)
            &&& after.config.model == c.config.model
            &&& after.config.title == c.config.title
            &&& after.ops.len() == c.ops.len() + 1
        },
{
}

/// A session that has room is told of its workspace first, then of the prompt
/// file.
pub proof fn briefed_sessions_are_told_twice(
    h: HandleView,
    text: Seq<char>,
    prompt: Option<Seq<char>>,
)
    ensures
        h.link.verdict() is None && h.link.free >= 2 ==> briefed(h, text, prompt).inbox
            == h.inbox.push(MessageView::UpdateWorkspaceContext { context_text: text }).push(
            MessageView::SetWorkspacePromptFile { content: prompt },
        ),
        h.link.verdict() is None && h.link.free == 1 ==> briefed(h, text, prompt).inbox
            == h.inbox.push(MessageView::UpdateWorkspaceContext { context_text: text }),
        h.link.verdict() is Some ==> briefed(h, text, prompt) == h,
        briefed(h, text, prompt).workspace_id == h.workspace_id,
        briefed(h, text, prompt).conversation == h.conversation,
{
}

/// A session is moved to the workspace that it asks for, or home where that is
/// not known; then the wish is kept, and dropped where it came true. No other
/// session is touched.
pub proof fn wishes_for_a_workspace_are_kept(
    before: SessionManager,
    after: SessionManager,
    id: Seq<char>,
    workspace_id: Seq<char>,
    text: Seq<char>,
    prompt: Option<Seq<char>>,
    effective: Seq<char>,
    other: Seq<char>,
)
    requires
        SessionManager::switch_routed(
            before,
            after,
            id,
            workspace_id,
            text,
            prompt,
            effective,
        ),
        before.resolver is Some,
        other != id,
    ensures
        ({
            let known = before.resolver->0.knows(workspace_id);
            &&& known ==> effective == workspace_id && !after.pending_workspaces@.contains_key(id)
            &&& !known ==> effective == "__agent_home__"@ && after.pending_workspaces@.contains_key(
                id,
            ) && after.pending_workspaces@[id]@ == workspace_id
            &&& before.handles().contains_key(id) ==> {
                &&& after.handles()[id].workspace_id == effective
                &&& after.handles()[id].current_work_dir == Some(
                    before.resolver->0.dir_of(effective),
                )
            }
            &&& after.handles().contains_key(other) <==> before.handles().contains_key(other)
            &&& before.handles().contains_key(other) ==> after.handles()[other]
                == before.handles()[other]
            &&& after.pending_workspaces@.contains_key(other)
                <==> before.pending_workspaces@.contains_key(other)
        }),
{
}

/// The sessions of deleted workspaces are moved home, and the workspace that
/// they lost is kept as their wish; the other sessions stay.
pub proof fn lost_workspaces_are_wished_for(
    before: SessionManager,
    after: SessionManager,
    w: Workspaces,
    id: Seq<char>,
)
    requires
        SessionManager::all_reconciled(before, after, w),
        before.handles().contains_key(id),
    ensures
        ({
            let h = before.handles()[id];
            &&& after.handles().contains_key(id)
            &&& w.knows(h.workspace_id) ==> after.handles()[id] == h
            &&& !w.knows(h.workspace_id) ==> {
                &&& after.handles()[id].workspace_id == "__agent_home__"@
                &&& after.handles()[id].current_work_dir == Some(w.agent_home@)
                &&& after.pending_workspaces@.contains_key(id)
                &&& after.pending_workspaces@[id]@ == h.workspace_id
            }
        }),
{
}

/// A session is in the workspace that its handle says; an unknown one is at
/// home.
pub proof fn unknown_sessions_are_at_home(m: SessionManager, id: Seq<char>)
    ensures
        m.handles().contains_key(id) ==> m.workspace_of(id) == m.handles()[id].workspace_id,
        !m.handles().contains_key(id) ==> m.workspace_of(id) == "__agent_home__"@,
{
}

/// A session that is given a workspace is moved there and waits for no other; no
/// other session is touched, and an unknown one only loses its wish.
pub proof fn given_workspaces_are_taken(
    before: SessionManager,
    after: SessionManager,
    id: Seq<char>,
    workspace_id: Seq<char>,
    other: Seq<char>,
)
    requires
        SessionManager::session_moved(before, after, id, workspace_id),
        other != id,
    ensures
        !after.pending_workspaces@.contains_key(id),
        before.handles().contains_key(id) ==> after.handles()[id].workspace_id == workspace_id,
        before.handles().contains_key(id) && before.resolver is Some
            ==> after.handles()[id].current_work_dir == Some(
            before.resolver->0.dir_of(workspace_id),
        ),
        !before.handles().contains_key(id) ==> after.handles() == before.handles(),
        after.handles().contains_key(other) <==> before.handles().contains_key(other),
        before.handles().contains_key(other) ==> after.handles()[other] == before.handles()[other],
        after.pending_workspaces@.contains_key(other) <==> before.pending_workspaces@.contains_key(
            other,
        ),
{
}

} // verus!
