//! Sessions that are over, sessions that are idle, and the model that was last
//! in use.

use vstd::prelude::*;

use crate::model::ProviderListItem;
use crate::session::{SessionStatus, StatusView};
use crate::session_handle::{HandleView, SessionHandle};
use crate::session_manager::SessionManager;
use crate::session_message::MessageView;

verus! {

/// A session that has been idle for longer than `idle_timeout`, at a given
/// time. Times are in milliseconds; a clock that ran backwards counts as no
/// time.
pub open spec fn idle_for(h: HandleView, now: u64, idle_timeout: u64) -> bool {
    &&& h.status == StatusView::Idle
    &&& (if now >= h.last_active_at {
        now - h.last_active_at
    } else {
        0
    }) > idle_timeout
}

/// The first model that any provider offers, from the provider at `from` on.
pub open spec fn first_model(list: Seq<ProviderListItem>, from: int) -> Option<Seq<char>>
    decreases list.len() - from,
{
    if from < 0 || from >= list.len() {
        None
    } else if list[from].models.len() > 0 {
        Some(list[from].models@[0].id@)
    } else {
        first_model(list, from + 1)
    }
}

/// The first model of the first provider, and that provider.
pub open spec fn first_pair(list: Seq<ProviderListItem>) -> (Option<Seq<char>>, Option<Seq<char>>) {
    if list.len() == 0 {
        (None, None)
    } else {
        (
            if list[0].models.len() > 0 {
                Some(list[0].models@[0].id@)
            } else {
                None
            },
            Some(list[0].id@),
        )
    }
}

/// A session shows the model that it uses, and, where that is asked for, the
/// provider.
pub open spec fn shows_model(h: HandleView, with_provider: bool) -> bool {
    h.snapshot.model is Some && (with_provider ==> h.snapshot.provider is Some)
}

impl SessionManager {
    /// Nothing is left of some sessions, but for workspaces they want back.
    pub open spec fn all_forgotten(
        before: SessionManager,
        after: SessionManager,
        ids: Set<Seq<char>>,
    ) -> bool {
        &&& after.handles() == before.handles().remove_keys(ids)
        &&& after.urgent_stops@ == before.urgent_stops@.remove_keys(ids)
        &&& after.cancel_handles@ == before.cancel_handles@.remove_keys(ids)
        &&& after.session_committed_lines@ == before.session_committed_lines@.remove_keys(ids)
        &&& after.session_delivery_cursors@ == before.session_delivery_cursors@.remove_keys(ids)
        &&& after.session_snapshots@ == before.session_snapshots@.remove_keys(ids)
        &&& after.session_configs@ == before.session_configs@.remove_keys(ids)
        &&& after == (SessionManager {
            sessions: after.sessions,
            urgent_stops: after.urgent_stops,
            cancel_handles: after.cancel_handles,
            session_committed_lines: after.session_committed_lines,
            session_delivery_cursors: after.session_delivery_cursors,
            session_snapshots: after.session_snapshots,
            session_configs: after.session_configs,
            ..before
        })
    }

    /// The sessions whose task has ended.
    pub open spec fn finished_sessions(&self) -> Set<Seq<char>> {
        Set::new(|k: Seq<char>| self.handles().contains_key(k) && self.handles()[k].finished)
    }

    /// The sessions that have been idle for so long.
    pub open spec fn idle_sessions(&self, now: u64, idle_timeout: u64) -> Set<Seq<char>> {
        Set::new(
            |k: Seq<char>|
                self.handles().contains_key(k) && idle_for(self.handles()[k], now, idle_timeout),
        )
    }

    /// The handle of a session that had been idle for so long, told to close.
    pub open spec fn was_idle(&self, h: HandleView, now: u64, idle_timeout: u64) -> bool {
        exists|k: Seq<char>| #[trigger]
            self.idle_sessions(now, idle_timeout).contains(k) && h == self.handles()[k].closing()
    }

    fn forget_all(&mut self, ids: &Vec<String>) -> (gone: Vec<SessionHandle>)
        requires
            ids.deep_view().no_duplicates(),
            forall|j: int|
                0 <= j < ids.len() ==> old(self).handles().contains_key(
                    (#[trigger] ids.deep_view()[j]),
                ),
        ensures
            old(self).books_agree() ==> final(self).books_agree(),
            Self::all_forgotten(*old(self), *final(self), ids.deep_view().to_set()),
            gone.len() == ids.len(),
            forall|j: int|
                0 <= j < gone.len() ==> (#[trigger] gone@[j]).deep_view() == old(self).handles()[
                    ids.deep_view()[j]
                ],
    {
        let ghost all = ids.deep_view();
        let mut gone: Vec<SessionHandle> = Vec::new();
        let mut i: usize = 0;
        proof {
            assert(all.len() == ids.len());
            assert(all.take(0).to_set() =~= Set::empty());
            lemma_removing_nothing(self.handles());
            lemma_removing_nothing(self.urgent_stops@);
            lemma_removing_nothing(self.cancel_handles@);
            lemma_removing_nothing(self.session_committed_lines@);
            lemma_removing_nothing(self.session_delivery_cursors@);
            lemma_removing_nothing(self.session_snapshots@);
            lemma_removing_nothing(self.session_configs@);
        }
        while i < ids.len()
            invariant
                i <= ids.len(),
                all == ids.deep_view(),
                all.len() == ids.len(),
                all.no_duplicates(),
                forall|j: int|
                    0 <= j < all.len() ==> old(self).handles().contains_key(#[trigger] all[j]),
                Self::all_forgotten(*old(self), *self, all.take(i as int).to_set()),
                gone.len() == i,
                forall|j: int|
                    0 <= j < i ==> (#[trigger] gone@[j]).deep_view() == old(self).handles()[all[j]],
            decreases ids.len() - i,
        {
            let ghost at = *self;
            let ghost before = all.take(i as int).to_set();
            let ghost after = all.take(i + 1).to_set();
            proof {
                assert(all[i as int] == ids@[i as int]@);
                assert(!all.take(i as int).contains(all[i as int])) by {
                    if all.take(i as int).contains(all[i as int]) {
                        let j = choose|j: int|
                            0 <= j < i && all.take(i as int)[j] == all[i as int];
                        assert(all[j] == all[i as int]);
                    }
                }
                assert(old(self).handles().contains_key(all[i as int]));
                assert(self.handles().contains_key(all[i as int]));
                assert(after =~= before.insert(all[i as int])) by {
                    assert forall|k: Seq<char>| after.contains(k) == before.insert(
                        all[i as int],
                    ).contains(k) by {
                        let longer = all.take(i + 1);
                        if longer.contains(k) {
                            let j = choose|j: int| 0 <= j < longer.len() && longer[j] == k;
                            if j < i {
                                assert(all.take(i as int)[j] == k);
                                assert(all.take(i as int).contains(k));
                            }
                        }
                        if all.take(i as int).contains(k) {
                            let j = choose|j: int| 0 <= j < i && all.take(i as int)[j] == k;
                            assert(all.take(i + 1)[j] == k);
                        }
                        assert(all.take(i + 1)[i as int] == all[i as int]);
                    }
                }
            }
            match self.forget(ids[i].as_str()) {
                Some(handle) => gone.push(handle),
                None => {},
            }
            proof {
                let id = all[i as int];
                lemma_removing_one_more(old(self).handles(), before, id);
                lemma_removing_one_more(old(self).urgent_stops@, before, id);
                lemma_removing_one_more(old(self).cancel_handles@, before, id);
                lemma_removing_one_more(old(self).session_committed_lines@, before, id);
                lemma_removing_one_more(old(self).session_delivery_cursors@, before, id);
                lemma_removing_one_more(old(self).session_snapshots@, before, id);
                lemma_removing_one_more(old(self).session_configs@, before, id);
            }
            i = i + 1;
        }
        assert(all.take(i as int) =~= all);
        gone
    }

    /// Reap completed sessions: the manager forgets those whose task has
    /// ended.
    pub fn reap_finished(&mut self)
        ensures
            old(self).books_agree() ==> final(self).books_agree(),
            Self::all_forgotten(*old(self), *final(self), old(self).finished_sessions()),
    {
        let keys = self.active_sessions();
        let ghost ids = keys.deep_view();
        let mut finished: Vec<String> = Vec::new();
        let mut i: usize = 0;
        assert(ids.len() == keys.len());
        assert(finished.deep_view() =~= Seq::empty());
        while i < keys.len()
            invariant
                i <= keys.len(),
                *self == *old(self),
                ids == keys.deep_view(),
                ids.len() == keys.len(),
                ids.no_duplicates(),
                forall|k: Seq<char>| ids.contains(k) == #[trigger] self.handles().contains_key(k),
                picked(
                    ids.take(i as int),
                    finished.deep_view(),
                    |k: Seq<char>| self.handles()[k].finished,
                ),
            decreases keys.len() - i,
        {
            let ghost sofar = finished.deep_view();
            proof {
                assert(ids[i as int] == keys@[i as int]@);
                assert(ids.contains(ids[i as int]));
                assert(self.handles().contains_key(ids[i as int]));
            }
            let over = match self.sessions.get(keys[i].as_str()) {
                Some(handle) => handle.finished,
                None => false,
            };
            if over {
                finished.push(keys[i].clone());
                assert(finished.deep_view() =~= sofar.push(ids[i as int]));
            }
            proof {
                lemma_picked_step(
                    ids,
                    i as int,
                    sofar,
                    finished.deep_view(),
                    |k: Seq<char>| self.handles()[k].finished,
                    over,
                );
            }
            i = i + 1;
        }
        proof {
            assert(ids.take(i as int) =~= ids);
            lemma_picked(
                ids,
                finished.deep_view(),
                |k: Seq<char>| self.handles()[k].finished,
                self.handles(),
            );
            assert(finished.deep_view().to_set() =~= self.finished_sessions());
        }
        let _ = self.forget_all(&finished);
    }

    /// Evict idle sessions from memory: those that are idle, and have been for
    /// longer than `idle_timeout`. Each is told to close, and its handle comes
    /// back so that its end can be waited for. Their logs stay.
    pub fn evict_idle_sessions(&mut self, now: u64, idle_timeout: u64) -> (evicted: Vec<
        SessionHandle,
    >)
        ensures
            old(self).books_agree() ==> final(self).books_agree(),
            Self::all_forgotten(
                *old(self),
                *final(self),
                old(self).idle_sessions(now, idle_timeout),
            ),
            forall|j: int|
                0 <= j < evicted.len() ==> old(self).was_idle(
                    (#[trigger] evicted@[j]).deep_view(),
                    now,
                    idle_timeout,
                ),
            forall|k: Seq<char>| #[trigger]
                old(self).idle_sessions(now, idle_timeout).contains(k) ==> exists|j: int|
                    0 <= j < evicted.len() && (#[trigger] evicted@[j]).deep_view() == old(
                        self,
                    ).handles()[k].closing(),
    {
        let ghost pred = |k: Seq<char>| idle_for(self.handles()[k], now, idle_timeout);
        let keys = self.active_sessions();
        let ghost ids = keys.deep_view();
        let mut idle: Vec<String> = Vec::new();
        let mut i: usize = 0;
        assert(ids.len() == keys.len());
        assert(idle.deep_view() =~= Seq::empty());
        while i < keys.len()
            invariant
                i <= keys.len(),
                *self == *old(self),
                ids == keys.deep_view(),
                ids.len() == keys.len(),
                ids.no_duplicates(),
                pred == (|k: Seq<char>| idle_for(self.handles()[k], now, idle_timeout)),
                forall|k: Seq<char>| ids.contains(k) == #[trigger] self.handles().contains_key(k),
                picked(ids.take(i as int), idle.deep_view(), pred),
            decreases keys.len() - i,
        {
            let ghost sofar = idle.deep_view();
            proof {
                assert(ids[i as int] == keys@[i as int]@);
                assert(ids.contains(ids[i as int]));
                assert(self.handles().contains_key(ids[i as int]));
            }
            let evict = match self.sessions.get(keys[i].as_str()) {
                Some(handle) => {
                    let elapsed: u64 = if now >= handle.last_active_at {
                        now - handle.last_active_at
                    } else {
                        0
                    };
                    handle.status.same(&SessionStatus::Idle) && elapsed > idle_timeout
                },
                None => false,
            };
            if evict {
                idle.push(keys[i].clone());
                assert(idle.deep_view() =~= sofar.push(ids[i as int]));
            }
            proof {
                lemma_picked_step(ids, i as int, sofar, idle.deep_view(), pred, evict);
            }
            i = i + 1;
        }
        proof {
            assert(ids.take(i as int) =~= ids);
            lemma_picked(ids, idle.deep_view(), pred, self.handles());
            assert(idle.deep_view().to_set() =~= self.idle_sessions(now, idle_timeout));
        }
        let ghost them = idle.deep_view();
        let mut gone = self.forget_all(&idle);
        let ghost taken = gone@;
        let mut evicted: Vec<SessionHandle> = Vec::new();
        let n: usize = gone.len();
        while gone.len() > 0
            invariant
                n == taken.len(),
                gone@ == taken.take(gone.len() as int),
                gone.len() + evicted.len() == n,
                forall|j: int|
                    0 <= j < evicted.len() ==> (#[trigger] evicted@[j]).deep_view() == taken[n - 1
                        - j].deep_view().closing(),
            decreases gone.len(),
        {
            match gone.pop() {
                Some(mut handle) => {
                    handle.tell_close();
                    evicted.push(handle);
                    assert(gone@ =~= taken.take(gone.len() as int));
                },
                None => {},
            }
        }
        proof {
            let set = old(self).idle_sessions(now, idle_timeout);
            assert forall|j: int| 0 <= j < evicted.len() implies old(self).was_idle(
                (#[trigger] evicted@[j]).deep_view(),
                now,
                idle_timeout,
            ) by {
                let k = them[n - 1 - j];
                assert(them.contains(k));
                assert(them.to_set().contains(k));
                assert(set.contains(k));
                assert(taken[n - 1 - j].deep_view() == old(self).handles()[k]);
            }
            assert forall|k: Seq<char>| #[trigger] set.contains(k) implies exists|j: int|
                0 <= j < evicted.len() && (#[trigger] evicted@[j]).deep_view() == old(
                    self,
                ).handles()[k].closing() by {
                assert(them.to_set().contains(k));
                assert(them.contains(k));
                let p = choose|p: int| 0 <= p < them.len() && them[p] == k;
                let j = n - 1 - p;
                assert(taken[p].deep_view() == old(self).handles()[k]);
                assert(evicted@[j].deep_view() == taken[n - 1 - j].deep_view().closing());
            }
        }
        evicted
    }

    // ── The model that was last in use ──────────────────────────────────

    /// A session that shows its model and was active no earlier than any other
    /// that does. Where several were last active at the same time, each is
    /// one.
    pub open spec fn is_latest(&self, id: Seq<char>, with_provider: bool) -> bool {
        &&& self.handles().contains_key(id)
        &&& shows_model(self.handles()[id], with_provider)
        &&& forall|k: Seq<char>| #[trigger]
            self.handles().contains_key(k) && shows_model(self.handles()[k], with_provider)
                ==> self.handles()[k].last_active_at <= self.handles()[id].last_active_at
    }

    /// No session shows its model.
    pub open spec fn has_none(&self, with_provider: bool) -> bool {
        forall|k: Seq<char>| #[trigger]
            self.handles().contains_key(k) ==> !shows_model(self.handles()[k], with_provider)
    }

    fn latest(&self, with_provider: bool) -> (r: Option<&SessionHandle>)
        ensures
            match r {
                Some(h) => exists|id: Seq<char>| #[trigger]
                    self.is_latest(id, with_provider) && self.handles()[id] == h.deep_view(),
                None => self.has_none(with_provider),
            },
    {
        let keys = self.sessions.keys();
        let ghost ids = keys.deep_view();
        let mut best: Option<&SessionHandle> = None;
        let ghost mut best_id: Seq<char> = Seq::empty();
        let mut i: usize = 0;
        assert(ids.len() == keys.len());
        while i < keys.len()
            invariant
                i <= keys.len(),
                ids == keys.deep_view(),
                ids.len() == keys.len(),
                forall|k: Seq<char>| ids.contains(k) == #[trigger] self.sessions@.contains_key(k),
                match best {
                    Some(h) => self.handles().contains_key(best_id) && self.handles()[best_id]
                        == h.deep_view() && shows_model(h.deep_view(), with_provider) && forall|j: int|
                        0 <= j < i && shows_model(self.handles()[#[trigger] ids[j]], with_provider)
                            ==> self.handles()[ids[j]].last_active_at <= h.last_active_at,
                    None => forall|j: int|
                        0 <= j < i ==> !shows_model(self.handles()[#[trigger] ids[j]], with_provider),
                },
            decreases keys.len() - i,
        {
            proof {
                assert(ids[i as int] == keys@[i as int]@);
                assert(ids.contains(ids[i as int]));
                assert(self.sessions@.contains_key(ids[i as int]));
            }
            match self.sessions.get(keys[i].as_str()) {
                Some(handle) => {
                    assert(self.handles()[ids[i as int]] == handle.deep_view());
                    if handle.snapshot.model.is_some() && (!with_provider
                        || handle.snapshot.provider.is_some()) {
                        let newer = match best {
                            Some(h) => handle.last_active_at >= h.last_active_at,
                            None => true,
                        };
                        if newer {
                            best = Some(handle);
                            proof {
                                best_id = ids[i as int];
                            }
                        }
                    }
                },
                None => {},
            }
            i = i + 1;
        }
        proof {
            assert forall|k: Seq<char>| #[trigger] self.handles().contains_key(k) implies exists|
                j: int,
            |
                0 <= j < ids.len() && ids[j] == k by {
                assert(self.sessions@.contains_key(k));
                assert(ids.contains(k));
            }
            if best is Some {
                assert(self.is_latest(best_id, with_provider));
            }
        }
        best
    }

    /// The model that was last in use: that of a session that was last active
    /// among those with a model, else the first that any provider offers.
    pub fn current_model_name(&self) -> (r: Option<String>)
        ensures
            ({
                ||| exists|id: Seq<char>| #[trigger]
                    self.is_latest(id, false) && r.deep_view() == self.handles()[id].snapshot.model
                ||| self.has_none(false) && r.deep_view() == first_model(
                    self.core.global_provider_list@,
                    0,
                )
            }),
    {
        match self.latest(false) {
            Some(handle) => handle.snapshot.model.clone(),
            None => {
                let list = &self.core.global_provider_list;
                let mut i: usize = 0;
                while i < list.len()
                    invariant
                        i <= list.len(),
                        list == &self.core.global_provider_list,
                        first_model(list@, 0) == first_model(list@, i as int),
                        self.has_none(false),
                    decreases list.len() - i,
                {
                    if list[i].models.len() > 0 {
                        return Some(list[i].models[0].id.clone());
                    }
                    i = i + 1;
                }
                None
            },
        }
    }

    /// A model and its provider as they were last in use together.
    pub open spec fn last_in_use(&self, pair: (Option<Seq<char>>, Option<Seq<char>>)) -> bool {
        ||| exists|id: Seq<char>| #[trigger]
            self.is_latest(id, true) && pair == (
                self.handles()[id].snapshot.model,
                self.handles()[id].snapshot.provider,
            )
        ||| self.has_none(true) && pair == first_pair(self.core.global_provider_list@)
    }

    /// The model and the provider that were last in use, both of the same
    /// session, so that a model is never paired with another's provider; else
    /// the first provider and its first model.
    pub fn current_model_and_provider(&self) -> (r: (Option<String>, Option<String>))
        ensures
            self.last_in_use((r.0.deep_view(), r.1.deep_view())),
    {
        match self.latest(true) {
            Some(handle) => (handle.snapshot.model.clone(), handle.snapshot.provider.clone()),
            None => {
                let list = &self.core.global_provider_list;
                if list.len() == 0 {
                    return (None, None);
                }
                let model = if list[0].models.len() > 0 {
                    Some(list[0].models[0].id.clone())
                } else {
                    None
                };
                (model, Some(list[0].id.clone()))
            },
        }
    }
}

/// The ids that satisfy a condition, in order.
spec fn picked(ids: Seq<Seq<char>>, out: Seq<Seq<char>>, pred: spec_fn(Seq<char>) -> bool) -> bool {
    &&& out.no_duplicates()
    &&& forall|k: Seq<char>| #[trigger] out.contains(k) <==> ids.contains(k) && pred(k)
}

proof fn lemma_picked_step(
    ids: Seq<Seq<char>>,
    i: int,
    sofar: Seq<Seq<char>>,
    now: Seq<Seq<char>>,
    pred: spec_fn(Seq<char>) -> bool,
    take: bool,
)
    requires
        0 <= i < ids.len(),
        ids.no_duplicates(),
        picked(ids.take(i), sofar, pred),
        take == pred(ids[i]),
        now == (if take {
            sofar.push(ids[i])
        } else {
            sofar
        }),
    ensures
        picked(ids.take(i + 1), now, pred),
{
    let before = ids.take(i);
    let after = ids.take(i + 1);
    assert(after =~= before.push(ids[i]));
    assert(!before.contains(ids[i])) by {
        if before.contains(ids[i]) {
            let j = choose|j: int| 0 <= j < before.len() && before[j] == ids[i];
            assert(ids[j] == ids[i]);
        }
    }
    assert(!sofar.contains(ids[i]));
    assert forall|k: Seq<char>| after.contains(k) == (before.contains(k) || k == ids[i]) by {
        if after.contains(k) {
            let j = choose|j: int| 0 <= j < after.len() && after[j] == k;
            if j < i {
                assert(before[j] == k);
            }
        }
        if before.contains(k) {
            let j = choose|j: int| 0 <= j < before.len() && before[j] == k;
            assert(after[j] == k);
        }
        assert(after[i] == ids[i]);
    }
    assert forall|k: Seq<char>| #[trigger] now.contains(k) <==> after.contains(k) && pred(k) by {
        if take {
            if now.contains(k) {
                let j = choose|j: int| 0 <= j < now.len() && now[j] == k;
                if j < sofar.len() {
                    assert(sofar[j] == k);
                    assert(sofar.contains(k));
                }
            }
            if sofar.contains(k) {
                let j = choose|j: int| 0 <= j < sofar.len() && sofar[j] == k;
                assert(now[j] == k);
            }
            assert(now[sofar.len() as int] == ids[i]);
        }
        assert(sofar.contains(k) <==> before.contains(k) && pred(k));
    }
    assert forall|a: int, b: int|
        0 <= a < now.len() && 0 <= b < now.len() && a != b implies now[a] != now[b] by {
        if take && a == sofar.len() {
            assert(sofar.contains(sofar[b]));
        } else if take && b == sofar.len() {
            assert(sofar.contains(sofar[a]));
        }
    }
}

proof fn lemma_picked(
    ids: Seq<Seq<char>>,
    out: Seq<Seq<char>>,
    pred: spec_fn(Seq<char>) -> bool,
    handles: Map<Seq<char>, HandleView>,
)
    requires
        picked(ids, out, pred),
        forall|k: Seq<char>| ids.contains(k) == #[trigger] handles.contains_key(k),
    ensures
        out.no_duplicates(),
        forall|j: int| 0 <= j < out.len() ==> handles.contains_key(#[trigger] out[j]),
        forall|k: Seq<char>| #[trigger]
            out.to_set().contains(k) <==> handles.contains_key(k) && pred(k),
{
    assert forall|j: int| 0 <= j < out.len() implies handles.contains_key(#[trigger] out[j]) by {
        assert(out.contains(out[j]));
    }
    assert forall|k: Seq<char>| #[trigger]
        out.to_set().contains(k) <==> handles.contains_key(k) && pred(k) by {
        assert(out.to_set().contains(k) == out.contains(k));
        assert(ids.contains(k) == handles.contains_key(k));
    }
}

proof fn lemma_removing_nothing<V>(m: Map<Seq<char>, V>)
    ensures
        m.remove_keys(Set::<Seq<char>>::empty()) == m,
{
    assert(m.remove_keys(Set::<Seq<char>>::empty()) =~= m);
}

proof fn lemma_removing_one_more<V>(m: Map<Seq<char>, V>, ids: Set<Seq<char>>, id: Seq<char>)
    ensures
        m.remove_keys(ids).remove(id) == m.remove_keys(ids.insert(id)),
{
    assert(m.remove_keys(ids).remove(id) =~= m.remove_keys(ids.insert(id)));
}

// ── Laws ────────────────────────────────────────────────────────────────

/// Only idle sessions are evicted: one that works, waits for the user or is
/// paused stays, however long ago it was active.
pub proof fn busy_sessions_stay(
    before: SessionManager,
    after: SessionManager,
    now: u64,
    idle_timeout: u64,
    id: Seq<char>,
)
    requires
        SessionManager::all_forgotten(before, after, before.idle_sessions(now, idle_timeout)),
        before.handles().contains_key(id),
        before.handles()[id].status != StatusView::Idle,
    ensures
        after.handles().contains_key(id),
        after.handles()[id] == before.handles()[id],
{
}

/// Reaping leaves no session whose task has ended, and reaping again changes
/// no session.
pub proof fn reaping_is_complete(before: SessionManager, after: SessionManager)
    requires
        SessionManager::all_forgotten(before, after, before.finished_sessions()),
    ensures
        after.finished_sessions() == Set::<Seq<char>>::empty(),
        forall|k: Seq<char>| #[trigger]
            after.handles().contains_key(k) <==> before.handles().contains_key(k)
                && !before.handles()[k].finished,
{
    assert(after.finished_sessions() =~= Set::<Seq<char>>::empty());
}

/// The model and the provider of a new session come from the same place: a
/// model of one session is never paired with the provider of another.
pub proof fn model_and_provider_belong_together(
    manager: SessionManager,
    pair: (Option<Seq<char>>, Option<Seq<char>>),
)
    requires
        manager.last_in_use(pair),
    ensures
        (exists|id: Seq<char>| #[trigger]
            manager.handles().contains_key(id) && manager.handles()[id].snapshot.model == pair.0
                && manager.handles()[id].snapshot.provider == pair.1) || pair == first_pair(
            manager.core.global_provider_list@,
        ),
{
    if !(manager.has_none(true) && pair == first_pair(manager.core.global_provider_list@)) {
        let id = choose|id: Seq<char>| #[trigger]
            manager.is_latest(id, true) && pair == (
                manager.handles()[id].snapshot.model,
                manager.handles()[id].snapshot.provider,
            );
        assert(manager.handles().contains_key(id));
    }
}

/// A session is idle for too long where it is idle and was last used more than
/// that long ago; one that was used in what the clock calls the future is not.
pub proof fn idle_time_is_counted_from_the_last_use(h: HandleView, now: u64, timeout: u64)
    ensures
        idle_for(h, now, timeout) <==> h.status == StatusView::Idle && now > h.last_active_at
            + timeout,
        h.status == StatusView::Idle && now == h.last_active_at + timeout ==> !idle_for(
            h,
            now,
            timeout,
        ),
        now <= h.last_active_at ==> !idle_for(h, now, timeout),
{
}

/// The sessions that are evicted are those that were idle for too long, and no
/// others; those stay as they were.
pub proof fn only_idle_sessions_go(
    before: SessionManager,
    after: SessionManager,
    now: u64,
    timeout: u64,
    id: Seq<char>,
)
    requires
        SessionManager::all_forgotten(before, after, before.idle_sessions(now, timeout)),
        before.handles().contains_key(id),
    ensures
        ({
            let h = before.handles()[id];
            let goes = h.status == StatusView::Idle && now > h.last_active_at + timeout;
            &&& after.handles().contains_key(id) <==> !goes
            &&& !goes ==> after.handles()[id] == h
            &&& goes ==> !after.cancel_handles@.contains_key(id)
                && !after.session_configs@.contains_key(id)
                && !after.session_delivery_cursors@.contains_key(id)
        }),
{
}

/// The model that is proposed first is the first one of the first provider that
/// has any; of a pair, the provider is the first one, with its first model where
/// it has one.
pub proof fn first_models_are_proposed(list: Seq<ProviderListItem>, i: int)
    requires
        0 <= i <= list.len(),
        forall|j: int| 0 <= j < i ==> (#[trigger] list[j]).models.len() == 0,
    ensures
        i < list.len() && list[i].models.len() > 0 ==> first_model(list, 0) == Some(
            list[i].models@[0].id@,
        ),
        i == list.len() ==> first_model(list, 0) is None,
        list.len() == 0 ==> first_pair(list).0 is None && first_pair(list).1 is None,
        list.len() > 0 ==> first_pair(list).1 == Some(list[0].id@),
        list.len() > 0 && list[0].models.len() > 0 ==> first_pair(list).0 == Some(
            list[0].models@[0].id@,
        ),
        list.len() > 0 && list[0].models.len() == 0 ==> first_pair(list).0 is None,
{
    lemma_first_model(list, i, 0);
}

proof fn lemma_first_model(list: Seq<ProviderListItem>, i: int, from: int)
    requires
        0 <= from <= i <= list.len(),
        forall|j: int| 0 <= j < i ==> (#[trigger] list[j]).models.len() == 0,
    ensures
        i < list.len() && list[i].models.len() > 0 ==> first_model(list, from) == Some(
            list[i].models@[0].id@,
        ),
        i == list.len() ==> first_model(list, from) is None,
    decreases i - from,
{
    if from < i {
        lemma_first_model(list, i, from + 1);
    }
}

/// A session that was used last, and shows a model and a provider, decides what
/// new sessions start with; one that shows no provider does not.
pub proof fn last_used_session_decides(
    m: SessionManager,
    pair: (Option<Seq<char>>, Option<Seq<char>>),
    id: Seq<char>,
)
    requires
        m.last_in_use(pair),
        m.handles().contains_key(id),
        m.handles()[id].snapshot.model is Some,
        m.handles()[id].snapshot.provider is Some,
        forall|k: Seq<char>|
            m.handles().contains_key(k) && k != id ==> (
            #[trigger] m.handles()[k]).last_active_at < m.handles()[id].last_active_at,
    ensures
        pair == (m.handles()[id].snapshot.model, m.handles()[id].snapshot.provider),
{
    assert(shows_model(m.handles()[id], true));
    if m.has_none(true) {
        assert(m.handles().contains_key(id));
    }
    let other = choose|k: Seq<char>| #[trigger]
        m.is_latest(k, true) && pair == (
            m.handles()[k].snapshot.model,
            m.handles()[k].snapshot.provider,
        );
    assert(m.is_latest(other, true));
    if other != id {
        assert(m.handles()[id].last_active_at <= m.handles()[other].last_active_at);
        assert(m.handles()[other].last_active_at < m.handles()[id].last_active_at);
    }
}

/// A session that is evicted is told to close, and keeps all else.
pub proof fn evicted_sessions_are_told_to_close(
    m: SessionManager,
    h: HandleView,
    now: u64,
    timeout: u64,
)
    requires
        m.was_idle(h, now, timeout),
    ensures
        h.inbox.len() > 0 && h.inbox.last() == MessageView::Close,
        exists|k: Seq<char>| #[trigger]
            m.handles().contains_key(k) && m.handles()[k].status == StatusView::Idle && now
                > m.handles()[k].last_active_at + timeout && h.inbox.drop_last()
                == m.handles()[k].inbox && h.conversation == m.handles()[k].conversation,
{
    let k = choose|k: Seq<char>| #[trigger]
        m.idle_sessions(now, timeout).contains(k) && h == m.handles()[k].closing();
    assert(m.handles().contains_key(k));
    assert(h.inbox.drop_last() =~= m.handles()[k].inbox);
}

/// The last used of the sessions that show a model is one of them, and none of
/// them was used later.
pub proof fn latest_session_was_used_last(
    m: SessionManager,
    id: Seq<char>,
    other: Seq<char>,
    with_provider: bool,
)
    requires
        m.is_latest(id, with_provider),
    ensures
        m.handles().contains_key(id),
        m.handles()[id].snapshot.model is Some,
        with_provider ==> m.handles()[id].snapshot.provider is Some,
        m.handles().contains_key(other) && m.handles()[other].snapshot.model is Some && (
        !with_provider || m.handles()[other].snapshot.provider is Some)
            ==> m.handles()[other].last_active_at <= m.handles()[id].last_active_at,
{
}

} // verus!
