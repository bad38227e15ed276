//! Which model writes the summaries of a session, and which ones stand in for
//! it when its call fails.

use vstd::prelude::*;

use crate::agent_loop::AgentLoop;
use crate::text::same_text;

verus! {

/// Where a summary target comes from.
#[derive(Clone, Copy, Debug, PartialEq, Eq, Structural)]
pub enum DistillTier {
    /// The user's pick across all providers.
    GlobalDefault,
    /// The summary model of the session's provider.
    ProviderCompact,
    /// The session's chat model.
    CurrentChat,
}

/// The provider and model for a summary call.
#[derive(Debug)]
pub struct ResolvedDistill {
    pub provider_id: String,
    pub model_id: String,
    pub tier: DistillTier,
}

/// What a [`ResolvedDistill`] holds.
pub struct DistillView {
    pub provider_id: Seq<char>,
    pub model_id: Seq<char>,
    pub tier: DistillTier,
}

impl DeepView for ResolvedDistill {
    type V = DistillView;

    open spec fn deep_view(&self) -> DistillView {
        DistillView {
            provider_id: self.provider_id@,
            model_id: self.model_id@,
            tier: self.tier,
        }
    }
}

impl Clone for ResolvedDistill {
    fn clone(&self) -> (r: Self)
        ensures
            r.deep_view() == self.deep_view(),
    {
        ResolvedDistill {
            provider_id: self.provider_id.clone(),
            model_id: self.model_id.clone(),
            tier: self.tier,
        }
    }
}

/// The provider to call.
#[derive(Clone, Copy, Debug, PartialEq, Eq, Structural)]
pub enum ProviderChoice {
    /// The session's own.
    Session,
    /// One that was built for the target.
    Rebuilt,
}

/// What a summary call is made with.
#[derive(Debug)]
pub struct SummaryCall {
    pub provider: ProviderChoice,
    pub model: String,
    pub tier: DistillTier,
    /// How the summary is asked for; the built-in way where there is none. What
    /// the user put in the place of the dialog's system prompt has no say.
    pub prompt: Option<String>,
    /// Who the user is, so that the summary is in their language.
    pub identity_context: Option<String>,
}

/// Two targets are the same call.
pub open spec fn same_call(a: DistillView, b: DistillView) -> bool {
    a.provider_id == b.provider_id && a.model_id == b.model_id
}

/// Some target of `list` is the same call as `t`.
pub open spec fn has_call(list: Seq<DistillView>, t: DistillView) -> bool {
    exists|i: int| 0 <= i < list.len() && same_call(#[trigger] list[i], t)
}

/// The first target of each call, in order.
pub open spec fn distinct_calls(list: Seq<DistillView>) -> Seq<DistillView>
    decreases list.len(),
{
    if list.len() == 0 {
        list
    } else {
        let before = distinct_calls(list.drop_last());
        if has_call(before, list.last()) {
            before
        } else {
            before.push(list.last())
        }
    }
}

/// Zero or one target as a list.
pub open spec fn as_list(t: Option<DistillView>) -> Seq<DistillView> {
    match t {
        Some(t) => seq![t],
        None => Seq::empty(),
    }
}

impl AgentLoop {
    /// The provider of the session, or nothing.
    pub open spec fn session_provider(&self) -> Seq<char> {
        match self.session.provider {
            Some(p) => p@,
            None => Seq::empty(),
        }
    }

    fn session_provider_id(&self) -> (r: String)
        ensures
            r@ == self.session_provider(),
    {
        match &self.session.provider {
            Some(p) => p.clone(),
            None => String::new(),
        }
    }

    /// The summary model of the session's provider.
    pub open spec fn provider_compact(&self) -> Option<Seq<char>> {
        let models = self.core.provider_compact_models@;
        if models.contains_key(self.session_provider()) && models[self.session_provider()] is Some {
            Some(models[self.session_provider()]->0@)
        } else {
            None
        }
    }

    fn provider_compact_model(&self) -> (r: Option<String>)
        ensures
            r.deep_view() == self.provider_compact(),
    {
        let pid = self.session_provider_id();
        match self.core.provider_compact_models.get(pid.as_str()) {
            Some(Some(m)) => Some(m.clone()),
            _ => None,
        }
    }

    /// The model by whose tokens a text to summarise is measured.
    pub open spec fn probe_model(&self) -> Seq<char> {
        match self.core.default_compact_model {
            Some(pair) => pair.1@,
            None => match self.provider_compact() {
                Some(m) => m,
                None => self.current_model(),
            },
        }
    }

    /// The model by whose tokens a text to summarise is measured: the one that
    /// the user picked, else the provider's, else the chat model.
    pub fn distill_probe_model(&self) -> (r: String)
        ensures
            r@ == self.probe_model(),
    {
        match &self.core.default_compact_model {
            Some(pair) => pair.1.clone(),
            None => match self.provider_compact_model() {
                Some(m) => m,
                None => self.resolve_current_model(),
            },
        }
    }

    /// A model is known and holds `tokens`.
    pub open spec fn fits(&self, model: Seq<char>, tokens: u64) -> bool {
        self.core.caps(model) matches Some(c) && c.context_window >= tokens
    }

    fn model_fits(&self, model: &str, tokens: u64) -> (r: bool)
        ensures
            r == self.fits(model@, tokens),
    {
        match self.core.get_model_capabilities(model) {
            Some(c) => c.context_window >= tokens,
            None => false,
        }
    }

    /// The user's pick, where its provider can be called.
    pub open spec fn global_target(&self) -> Option<DistillView> {
        match self.core.default_compact_model {
            Some(pair) => if self.core.provider_usable(pair.0@) {
                Some(
                    DistillView {
                        provider_id: pair.0@,
                        model_id: pair.1@,
                        tier: DistillTier::GlobalDefault,
                    },
                )
            } else {
                None
            },
            None => None,
        }
    }

    /// The summary model of the session's provider, where there is one.
    pub open spec fn compact_target(&self) -> Option<DistillView> {
        if self.session_provider().len() > 0 && self.provider_compact() is Some {
            Some(
                DistillView {
                    provider_id: self.session_provider(),
                    model_id: self.provider_compact()->0,
                    tier: DistillTier::ProviderCompact,
                },
            )
        } else {
            None
        }
    }

    /// The chat model.
    pub open spec fn chat_target(&self) -> DistillView {
        DistillView {
            provider_id: self.session_provider(),
            model_id: self.current_model(),
            tier: DistillTier::CurrentChat,
        }
    }

    /// The first target that is known and large enough; the chat model where
    /// none is.
    pub open spec fn best_target(&self, tokens: u64) -> DistillView {
        if self.global_target() is Some && self.fits(self.global_target()->0.model_id, tokens) {
            self.global_target()->0
        } else if self.compact_target() is Some && self.fits(
            self.compact_target()->0.model_id,
            tokens,
        ) {
            self.compact_target()->0
        } else {
            self.chat_target()
        }
    }

    /// Every target that can be tried, each call once, in the order of
    /// preference.
    pub open spec fn targets(&self) -> Seq<DistillView> {
        distinct_calls(
            as_list(self.global_target()) + as_list(self.compact_target()) + seq![
                self.chat_target(),
            ],
        )
    }

    /// Probe whether the user's pick can serve as a summary target right now.
    pub fn try_global_default_target(&self) -> (r: Option<ResolvedDistill>)
        ensures
            r.deep_view() == self.global_target(),
    {
        if !self.core.is_default_compact_provider_available() {
            return None;
        }
        match &self.core.default_compact_model {
            Some(pair) => Some(
                ResolvedDistill {
                    provider_id: pair.0.clone(),
                    model_id: pair.1.clone(),
                    tier: DistillTier::GlobalDefault,
                },
            ),
            None => None,
        }
    }

    /// Probe whether the session provider has a summary model.
    pub fn try_provider_compact_target(&self) -> (r: Option<ResolvedDistill>)
        ensures
            r.deep_view() == self.compact_target(),
    {
        let pid = self.session_provider_id();
        if pid.as_str().is_empty() {
            return None;
        }
        match self.provider_compact_model() {
            Some(m) => Some(
                ResolvedDistill {
                    provider_id: pid,
                    model_id: m,
                    tier: DistillTier::ProviderCompact,
                },
            ),
            None => None,
        }
    }

    fn current_chat_target(&self) -> (r: ResolvedDistill)
        ensures
            r.deep_view() == self.chat_target(),
    {
        ResolvedDistill {
            provider_id: self.session_provider_id(),
            model_id: self.resolve_current_model(),
            tier: DistillTier::CurrentChat,
        }
    }

    /// Resolve the model to use for a summary of `estimated_tokens` tokens, as
    /// counted for [`AgentLoop::distill_probe_model`].
    pub fn resolve_distill_model(&self, estimated_tokens: u64) -> (r: ResolvedDistill)
        ensures
            r.deep_view() == self.best_target(estimated_tokens),
    {
        if let Some(t) = self.try_global_default_target() {
            if self.model_fits(t.model_id.as_str(), estimated_tokens) {
                return t;
            }
        }
        if let Some(t) = self.try_provider_compact_target() {
            if self.model_fits(t.model_id.as_str(), estimated_tokens) {
                return t;
            }
        }
        self.current_chat_target()
    }

    /// The targets to try one after the other, most preferred first. The chat
    /// model is always among the calls, so the list is never empty.
    pub fn resolve_distill_targets(&self) -> (r: Vec<ResolvedDistill>)
        ensures
            r.deep_view() == self.targets(),
    {
        let mut list: Vec<ResolvedDistill> = Vec::new();
        if let Some(t) = self.try_global_default_target() {
            list.push(t);
        }
        if let Some(t) = self.try_provider_compact_target() {
            list.push(t);
        }
        list.push(self.current_chat_target());
        assert(list.deep_view() =~= as_list(self.global_target()) + as_list(self.compact_target())
            + seq![self.chat_target()]);
        keep_distinct(&list)
    }

    /// The provider, model and tier of a call to a target. `rebuilt` says
    /// whether the target's provider could be built, where it is not the
    /// session's own: where it could not, the session's provider is called
    /// with the session's model, never with another's.
    pub open spec fn call_of(&self, t: DistillView, rebuilt: bool) -> (
        ProviderChoice,
        Seq<char>,
        DistillTier,
    ) {
        if t.provider_id == self.session_provider() || t.provider_id.len() == 0 {
            (ProviderChoice::Session, t.model_id, t.tier)
        } else if rebuilt {
            (ProviderChoice::Rebuilt, t.model_id, t.tier)
        } else {
            (ProviderChoice::Session, self.current_model(), DistillTier::CurrentChat)
        }
    }

    /// Whether a target needs a provider of its own.
    pub fn needs_own_provider(&self, resolved: &ResolvedDistill) -> (r: bool)
        ensures
            r == (resolved.provider_id@ != self.session_provider() && resolved.provider_id@.len()
                > 0),
    {
        let pid = self.session_provider_id();
        !same_text(resolved.provider_id.as_str(), pid.as_str())
            && !resolved.provider_id.as_str().is_empty()
    }

    /// The provider, model and tier of a call to a target.
    pub fn distill_provider(&self, resolved: &ResolvedDistill, rebuilt: bool) -> (r: (
        ProviderChoice,
        String,
        DistillTier,
    ))
        ensures
            (r.0, r.1@, r.2) == self.call_of(resolved.deep_view(), rebuilt),
    {
        if !self.needs_own_provider(resolved) {
            (ProviderChoice::Session, resolved.model_id.clone(), resolved.tier)
        } else if rebuilt {
            (ProviderChoice::Rebuilt, resolved.model_id.clone(), resolved.tier)
        } else {
            (ProviderChoice::Session, self.resolve_current_model(), DistillTier::CurrentChat)
        }
    }

    /// What a summary call to a target is made with.
    pub fn summary_call(&self, resolved: &ResolvedDistill, rebuilt: bool) -> (r: SummaryCall)
        ensures
            (r.provider, r.model@, r.tier) == self.call_of(resolved.deep_view(), rebuilt),
            r.prompt.deep_view() == self.core.compaction_prompt.deep_view(),
            r.identity_context.deep_view() == self.session.identity_context.deep_view(),
    {
        let (provider, model, tier) = self.distill_provider(resolved, rebuilt);
        SummaryCall {
            provider,
            model,
            tier,
            prompt: self.core.compaction_prompt.clone(),
            identity_context: self.session.identity_context.clone(),
        }
    }
}

fn holds_call(list: &Vec<ResolvedDistill>, t: &ResolvedDistill) -> (r: bool)
    ensures
        r == has_call(list.deep_view(), t.deep_view()),
{
    let mut i: usize = 0;
    while i < list.len()
        invariant
            i <= list.len(),
            forall|j: int|
                0 <= j < i ==> !same_call(#[trigger] list.deep_view()[j], t.deep_view()),
        decreases list.len() - i,
    {
        assert(list.deep_view()[i as int] == list@[i as int].deep_view());
        if same_text(list[i].provider_id.as_str(), t.provider_id.as_str()) && same_text(
            list[i].model_id.as_str(),
            t.model_id.as_str(),
        ) {
            return true;
        }
        i = i + 1;
    }
    false
}

fn keep_distinct(list: &Vec<ResolvedDistill>) -> (r: Vec<ResolvedDistill>)
    ensures
        r.deep_view() == distinct_calls(list.deep_view()),
{
    let ghost all = list.deep_view();
    let mut out: Vec<ResolvedDistill> = Vec::new();
    let mut i: usize = 0;
    assert(all.take(0) =~= Seq::empty());
    assert(out.deep_view() =~= distinct_calls(all.take(0)));
    while i < list.len()
        invariant
            i <= list.len(),
            all == list.deep_view(),
            out.deep_view() == distinct_calls(all.take(i as int)),
        decreases list.len() - i,
    {
        assert(all.take(i + 1).drop_last() =~= all.take(i as int));
        assert(all[i as int] == list@[i as int].deep_view());
        if !holds_call(&out, &list[i]) {
            let ghost before = out.deep_view();
            let copy = list[i].clone();
            out.push(copy);
            assert(out.deep_view() =~= before.push(all[i as int]));
        }
        i = i + 1;
    }
    assert(all.take(list.len() as int) =~= all);
    out
}

// ── Laws ────────────────────────────────────────────────────────────────

/// The rank of a tier: the lower, the more preferred.
pub open spec fn tier_rank(t: DistillTier) -> int {
    match t {
        DistillTier::GlobalDefault => 0,
        DistillTier::ProviderCompact => 1,
        DistillTier::CurrentChat => 2,
    }
}

/// Where a kept target comes from.
proof fn lemma_kept_from(list: Seq<DistillView>, k: int) -> (i: int)
    requires
        0 <= k < distinct_calls(list).len(),
    ensures
        0 <= i < list.len(),
        list[i] == distinct_calls(list)[k],
    decreases list.len(),
{
    let rest = list.drop_last();
    if k < distinct_calls(rest).len() {
        lemma_kept_from(rest, k)
    } else {
        list.len() - 1
    }
}

/// Two kept targets are different calls and stand in their old order.
proof fn lemma_kept_in_order(list: Seq<DistillView>, i: int, j: int) -> (from: (int, int))
    requires
        0 <= i < j < distinct_calls(list).len(),
    ensures
        !same_call(distinct_calls(list)[i], distinct_calls(list)[j]),
        0 <= from.0 < from.1 < list.len(),
        list[from.0] == distinct_calls(list)[i],
        list[from.1] == distinct_calls(list)[j],
    decreases list.len(),
{
    let rest = list.drop_last();
    let before = distinct_calls(rest);
    if j < before.len() {
        lemma_kept_in_order(rest, i, j)
    } else {
        let a = lemma_kept_from(rest, i);
        assert(!same_call(before[i], list.last()));
        (a, list.len() - 1)
    }
}

/// No call is lost.
proof fn lemma_call_is_kept(list: Seq<DistillView>, i: int)
    requires
        0 <= i < list.len(),
    ensures
        has_call(distinct_calls(list), list[i]),
    decreases list.len(),
{
    let rest = list.drop_last();
    let before = distinct_calls(rest);
    let d = distinct_calls(list);
    if i < rest.len() {
        lemma_call_is_kept(rest, i);
        let k = choose|k: int| 0 <= k < before.len() && same_call(#[trigger] before[k], rest[i]);
        assert(same_call(d[k], list[i]));
    } else if !has_call(before, list.last()) {
        assert(same_call(d[d.len() - 1], list[i]));
    }
}

proof fn lemma_distinct_len(list: Seq<DistillView>)
    ensures
        distinct_calls(list).len() <= list.len(),
    decreases list.len(),
{
    if list.len() > 0 {
        lemma_distinct_len(list.drop_last());
    }
}

/// The targets of a session: at least one and at most three, no call twice,
/// in the order of preference, and the chat model among the calls.
pub proof fn targets_are_ordered_and_distinct(l: AgentLoop)
    ensures
        1 <= l.targets().len() <= 3,
        has_call(l.targets(), l.chat_target()),
        forall|i: int, j: int|
            0 <= i < j < l.targets().len() ==> !same_call(
                #[trigger] l.targets()[i],
                #[trigger] l.targets()[j],
            ) && tier_rank(l.targets()[i].tier) < tier_rank(l.targets()[j].tier),
{
    let list = as_list(l.global_target()) + as_list(l.compact_target()) + seq![l.chat_target()];
    let d = l.targets();
    lemma_distinct_len(list);
    lemma_call_is_kept(list, list.len() - 1);
    assert forall|i: int, j: int| 0 <= i < j < d.len() implies !same_call(
        #[trigger] d[i],
        #[trigger] d[j],
    ) && tier_rank(d[i].tier) < tier_rank(d[j].tier) by {
        let from = lemma_kept_in_order(list, i, j);
    }
}

/// The user's pick comes first whenever its provider can be called.
pub proof fn usable_pick_comes_first(l: AgentLoop)
    requires
        l.global_target() is Some,
    ensures
        l.targets()[0] == l.global_target()->0,
        l.targets()[0].tier == DistillTier::GlobalDefault,
{
    let g = l.global_target()->0;
    let list = as_list(l.global_target()) + as_list(l.compact_target()) + seq![l.chat_target()];
    assert(list[0] == g);
    lemma_first_is_kept(list);
}

proof fn lemma_first_is_kept(list: Seq<DistillView>)
    requires
        list.len() > 0,
    ensures
        distinct_calls(list).len() > 0,
        distinct_calls(list)[0] == list[0],
    decreases list.len(),
{
    if list.len() > 1 {
        lemma_first_is_kept(list.drop_last());
    } else {
        assert(distinct_calls(list.drop_last()) =~= Seq::empty());
    }
}

/// A model is never sent to a provider that is not its own: a call through
/// the session's provider uses the session's model or one that the target
/// says is the session provider's.
pub proof fn models_stay_with_their_provider(l: AgentLoop, t: DistillView, rebuilt: bool)
    ensures
        ({
            let call = l.call_of(t, rebuilt);
            call.0 == ProviderChoice::Session ==> call.1 == l.current_model() || t.provider_id
                == l.session_provider() || t.provider_id.len() == 0
        }),
{
}

/// What each target is: the user's pick of provider and model, where that
/// provider can be called; the model that the session's provider has for
/// summaries; the model that the session talks to.
pub proof fn targets_are_what_was_picked(l: AgentLoop)
    ensures
        l.core.default_compact_model is None ==> l.global_target() is None,
        l.core.default_compact_model matches Some(pair) ==> {
            &&& l.global_target() is Some <==> l.core.provider_usable(pair.0@)
            &&& l.global_target() matches Some(t) ==> t.provider_id == pair.0@ && t.model_id
                == pair.1@ && t.tier == DistillTier::GlobalDefault
        },
        l.session.provider is None ==> l.compact_target() is None && l.chat_target().provider_id
            == Seq::<char>::empty(),
        l.session.provider matches Some(p) ==> {
            &&& l.chat_target().provider_id == p@
            &&& l.compact_target() is Some <==> p@.len() > 0
                && l.core.provider_compact_models@.contains_key(p@)
                && l.core.provider_compact_models@[p@] is Some
            &&& l.compact_target() matches Some(t) ==> t.provider_id == p@ && t.model_id
                == l.core.provider_compact_models@[p@]->0@ && t.tier
                == DistillTier::ProviderCompact
        },
        l.session.model matches Some(m) ==> l.chat_target().model_id == m@,
        l.session.model is None ==> l.chat_target().model_id == l.core.model@,
        l.chat_target().tier == DistillTier::CurrentChat,
{
}

/// A summary is asked of the first target whose model is known to take the
/// text: the user's pick before the provider's; where neither is, of the model
/// that the session talks to.
pub proof fn first_target_that_fits_is_taken(l: AgentLoop, tokens: u64)
    ensures
        ({
            let global = l.global_target() is Some && l.fits(l.global_target()->0.model_id, tokens);
            let compact = l.compact_target() is Some && l.fits(
                l.compact_target()->0.model_id,
                tokens,
            );
            let best = l.best_target(tokens);
            &&& best.tier == DistillTier::GlobalDefault <==> global
            &&& best.tier == DistillTier::ProviderCompact <==> !global && compact
            &&& best.tier == DistillTier::CurrentChat <==> !global && !compact
            &&& global ==> Some(best) == l.global_target()
            &&& !global && compact ==> Some(best) == l.compact_target()
            &&& !global && !compact ==> best == l.chat_target()
        }),
{
}

/// A model takes a text that is no longer than its window; one that is not
/// listed takes none. So what takes a text takes a shorter one too.
pub proof fn known_windows_decide(l: AgentLoop, model: Seq<char>, tokens: u64, fewer: u64)
    requires
        fewer <= tokens,
    ensures
        l.core.caps(model) is None ==> !l.fits(model, tokens),
        l.core.caps(model) matches Some(c) ==> (l.fits(model, tokens) <==> tokens
            <= c.context_window),
        l.fits(model, tokens) ==> l.fits(model, fewer),
{
}

/// The targets are tried in the order of their tiers, and each that makes a call
/// of its own is tried.
pub proof fn every_target_is_tried(l: AgentLoop)
    ensures
        l.global_target() matches Some(t) ==> has_call(l.targets(), t),
        l.compact_target() matches Some(t) ==> has_call(l.targets(), t),
        l.global_target() is None && l.compact_target() is Some ==> l.targets()[0]
            == l.compact_target()->0,
        l.global_target() is None && l.compact_target() is None ==> l.targets() == seq![
            l.chat_target(),
        ],
        l.global_target() matches Some(g) ==> (l.compact_target() matches Some(c) ==> (
        !same_call(g, c) ==> l.targets().len() > 1 && l.targets()[1] == c)),
{
    reveal_with_fuel(distinct_calls, 5);
    let g = as_list(l.global_target());
    let c = as_list(l.compact_target());
    let chat = seq![l.chat_target()];
    let all = g + c + chat;
    assert(all.drop_last() =~= g + c);
    assert(all.last() == l.chat_target());
    if c.len() == 1 {
        assert((g + c).drop_last() =~= g);
        assert((g + c).last() == c[0]);
    } else {
        assert(g + c =~= g);
    }
    if g.len() == 1 {
        assert(g.drop_last() =~= Seq::<DistillView>::empty());
    }
    let kept = distinct_calls(g);
    assert(kept =~= g);
    let more = distinct_calls(g + c);
    assert(l.targets() == (if has_call(more, l.chat_target()) {
        more
    } else {
        more.push(l.chat_target())
    }));
    if g.len() == 1 {
        assert(same_call(l.targets()[0], g[0]));
    }
    if c.len() == 1 {
        if has_call(g, c[0]) {
            assert(more == g);
            let i = choose|i: int| 0 <= i < g.len() && same_call(#[trigger] g[i], c[0]);
            assert(same_call(l.targets()[i], c[0]));
        } else {
            assert(more == g.push(c[0]));
            assert(same_call(l.targets()[g.len() as int], c[0]));
        }
    }
    if g.len() == 1 && c.len() == 1 && has_call(g, c[0]) {
        let i = choose|i: int| 0 <= i < g.len() && same_call(#[trigger] g[i], c[0]);
        assert(i == 0);
    }
}

/// A target of another provider is called through a provider of its own; where
/// that could not be built, the session's model is asked instead.
pub proof fn targets_are_called_through_their_provider(l: AgentLoop, t: DistillView)
    ensures
        t.provider_id == l.session_provider() || t.provider_id.len() == 0 ==> forall|rebuilt: bool|
            #[trigger]
            l.call_of(t, rebuilt) == (ProviderChoice::Session, t.model_id, t.tier),
        t.provider_id != l.session_provider() && t.provider_id.len() > 0 ==> {
            &&& l.call_of(t, true) == (ProviderChoice::Rebuilt, t.model_id, t.tier)
            &&& l.call_of(t, false) == (
                ProviderChoice::Session,
                l.current_model(),
                DistillTier::CurrentChat,
            )
        },
{
}

/// How long a text may be is asked of the user's pick, else of the model that
/// the provider has for summaries, else of the session's.
pub proof fn probes_ask_the_likely_model(l: AgentLoop)
    ensures
        l.core.default_compact_model matches Some(pair) ==> l.probe_model() == pair.1@,
        l.core.default_compact_model is None ==> (l.compact_target() matches Some(t) ==> (
        l.probe_model() == t.model_id)),
        l.core.default_compact_model is None && l.provider_compact() is None ==> l.probe_model()
            == l.current_model(),
{
}

} // verus!
