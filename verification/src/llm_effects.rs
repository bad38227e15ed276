//! What a change of the settings does to the next request. It is applied at
//! the boundary between two turns.

use vstd::prelude::*;

use crate::agent_loop::{AgentCore, AgentLoop};
use crate::session::{
    same_option, EffortView, ReasoningEffort, SessionState,
};
use crate::session_config::{
    effective_effort, resolve_effective_reasoning_effort, ConfigView, SessionConfigSnapshot,
};

verus! {

/// The model or its provider changed, and there is a model to switch to.
pub open spec fn switches_model(now: ConfigView, prev: ConfigView) -> bool {
    (now.model != prev.model || now.provider != prev.provider) && now.model is Some
}

/// The effort changed while the model stayed.
pub open spec fn changes_effort(now: ConfigView, prev: ConfigView) -> bool {
    now.model == prev.model && now.reasoning_effort != prev.reasoning_effort
        && now.reasoning_effort is Some
}

/// The effort as it is persisted.
pub open spec fn effort_text(effort: Option<EffortView>) -> Option<Seq<char>> {
    match effort {
        Some(e) => Some(e.text()),
        None => None,
    }
}

/// The provider that has to be built for a change, where there is one.
pub fn provider_to_rebuild<'a>(
    snapshot: &'a SessionConfigSnapshot,
    prev: &SessionConfigSnapshot,
) -> (r: Option<&'a String>)
    ensures
        match r {
            Some(p) => switches_model(snapshot.deep_view(), prev.deep_view())
                && snapshot.deep_view().provider == Some(p@),
            None => !switches_model(snapshot.deep_view(), prev.deep_view())
                || snapshot.deep_view().provider is None,
        },
{
    let same = same_option(&snapshot.model, &prev.model) && same_option(
        &snapshot.provider,
        &prev.provider,
    );
    if same || snapshot.model.is_none() {
        return None;
    }
    match &snapshot.provider {
        Some(p) => Some(p),
        None => None,
    }
}

/// The loop and the model of the next request once a change of the settings is
/// applied.
pub open spec fn effects_applied(
    before: AgentLoop,
    after: AgentLoop,
    override_before: Option<Seq<char>>,
    override_after: Option<Seq<char>>,
    now: ConfigView,
    prev: ConfigView,
    rebuilt: bool,
    default_effort: Option<EffortView>,
    new_effort: Option<EffortView>,
) -> bool {
    let switched = switches_model(now, prev);
    let reset = effective_effort(before.core.caps(now.model->0), default_effort, None);
    &&& after.session.model.deep_view() == (if switched {
        now.model
    } else {
        before.session.model.deep_view()
    })
    &&& after.session.provider.deep_view() == (if switched && now.provider is Some {
        now.provider
    } else {
        before.session.provider.deep_view()
    })
    &&& after.core.model@ == (if switched && now.provider is Some && rebuilt {
        now.model->0
    } else {
        before.core.model@
    })
    &&& override_after == (if switched {
        now.model
    } else {
        override_before
    })
    &&& after.session.reasoning_effort.deep_view() == (if changes_effort(now, prev) {
        new_effort
    } else if switched {
        reset
    } else {
        before.session.reasoning_effort.deep_view()
    })
    &&& after.session.conversation.deep_view() == (match before.session.conversation {
        Some(c) => Some(
            if switched {
                c.deep_view().with_effort(effort_text(reset))
            } else {
                c.deep_view()
            },
        ),
        None => None,
    })
}

/// Apply LLM-side effects of a config change.
///
/// A switch of the model or the provider moves the session over, clears the
/// effort to the new model's default and persists that; a change of the effort
/// alone is taken over. `rebuilt` says whether the provider could be built
/// (see [`provider_to_rebuild`]): where it could not, the old one is kept.
/// `default_effort` is what the new model's default effort stands for,
/// `new_effort` what the effort of the snapshot stands for, and
/// `override_model` the model that requests ask for.
pub fn apply_llm_effects(
    agent_loop: &mut AgentLoop,
    override_model: &mut Option<String>,
    snapshot: &SessionConfigSnapshot,
    prev: &SessionConfigSnapshot,
    rebuilt: bool,
    default_effort: Option<ReasoningEffort>,
    new_effort: Option<ReasoningEffort>,
)
    ensures
        effects_applied(
            *old(agent_loop),
            *final(agent_loop),
            old(override_model).deep_view(),
            final(override_model).deep_view(),
            snapshot.deep_view(),
            prev.deep_view(),
            rebuilt,
            default_effort.deep_view(),
            new_effort.deep_view(),
        ),
        *final(agent_loop) == (AgentLoop {
            core: AgentCore { model: final(agent_loop).core.model, ..old(agent_loop).core },
            session: SessionState {
                model: final(agent_loop).session.model,
                provider: final(agent_loop).session.provider,
                reasoning_effort: final(agent_loop).session.reasoning_effort,
                conversation: final(agent_loop).session.conversation,
                ..old(agent_loop).session
            },
            ..*old(agent_loop)
        }),
{
    let model_changed = !same_option(&snapshot.model, &prev.model);
    let provider_changed = !same_option(&snapshot.provider, &prev.provider);
    if model_changed || provider_changed {
        match &snapshot.model {
            Some(model) => {
                agent_loop.session.model = Some(model.clone());
                match &snapshot.provider {
                    Some(provider) => {
                        agent_loop.session.provider = Some(provider.clone());
                        if rebuilt {
                            agent_loop.update_provider(model.clone());
                        }
                    },
                    None => {},
                }
                *override_model = Some(model.clone());
                let effort = resolve_effective_reasoning_effort(
                    agent_loop.core.get_model_capabilities(model.as_str()),
                    default_effort,
                    None,
                );
                let text = match &effort {
                    Some(e) => Some(e.to_text()),
                    None => None,
                };
                agent_loop.session.reasoning_effort = effort;
                match agent_loop.session.conversation.take() {
                    Some(mut conversation) => {
                        conversation.update_reasoning_effort(text);
                        agent_loop.session.conversation = Some(conversation);
                    },
                    None => {},
                }
            },
            None => {},
        }
    }
    if !model_changed && !same_option(&snapshot.reasoning_effort, &prev.reasoning_effort)
        && snapshot.reasoning_effort.is_some() {
        agent_loop.session.reasoning_effort = new_effort;
    }
}

// ── Laws ────────────────────────────────────────────────────────────────

/// Settings that the model does not see change nothing: a new title or
/// workspace leaves model, provider and effort alone.
pub proof fn unrelated_changes_have_no_effect(now: ConfigView, prev: ConfigView)
    requires
        now.model == prev.model,
        now.provider == prev.provider,
        now.reasoning_effort == prev.reasoning_effort,
    ensures
        !switches_model(now, prev),
        !changes_effort(now, prev),
{
}

/// The model is switched where the settings name one and it, or its provider,
/// is another than before.
pub proof fn named_models_are_switched_to(now: ConfigView, prev: ConfigView)
    ensures
        now.model is None ==> !switches_model(now, prev),
        now.model is Some && now.model != prev.model ==> switches_model(now, prev),
        now.model is Some && now.provider != prev.provider ==> switches_model(now, prev),
        now.model == prev.model && now.provider == prev.provider ==> !switches_model(now, prev),
{
}

/// The effort is changed where the settings name another one for the same
/// model.
pub proof fn named_efforts_are_taken(now: ConfigView, prev: ConfigView)
    ensures
        now.reasoning_effort is None ==> !changes_effort(now, prev),
        now.model != prev.model ==> !changes_effort(now, prev),
        now.model == prev.model && now.reasoning_effort is Some && now.reasoning_effort
            != prev.reasoning_effort ==> changes_effort(now, prev),
        now.reasoning_effort == prev.reasoning_effort ==> !changes_effort(now, prev),
{
}

/// After a switch the next request goes to the new model, of the new provider
/// where one is named; the effort starts over as the new model has it, unless a
/// new one came along, and the log is told the effort that it started over with.
pub proof fn switched_sessions_talk_to_the_new_model(
    before: AgentLoop,
    after: AgentLoop,
    override_before: Option<Seq<char>>,
    override_after: Option<Seq<char>>,
    now: ConfigView,
    prev: ConfigView,
    rebuilt: bool,
    default_effort: Option<EffortView>,
    new_effort: Option<EffortView>,
)
    requires
        effects_applied(
            before,
            after,
            override_before,
            override_after,
            now,
            prev,
            rebuilt,
            default_effort,
            new_effort,
        ),
        now.model is Some,
        now.model != prev.model || now.provider != prev.provider,
    ensures
        after.current_model() == now.model->0,
        override_after == now.model,
        now.provider is Some ==> after.session.provider.deep_view() == now.provider,
        now.provider is None ==> after.session.provider.deep_view()
            == before.session.provider.deep_view(),
        rebuilt && now.provider is Some ==> after.core.model@ == now.model->0,
        !rebuilt || now.provider is None ==> after.core.model@ == before.core.model@,
        now.model != prev.model ==> after.session.reasoning_effort.deep_view() == effective_effort(
            before.core.caps(now.model->0),
            default_effort,
            None,
        ),
        before.session.conversation is Some ==> {
            let reset = effective_effort(before.core.caps(now.model->0), default_effort, None);
            let c = after.session.conversation.deep_view()->0;
            &&& after.session.conversation is Some
            &&& reset is None ==> c.config.reasoning_effort is None
            &&& reset matches Some(e) ==> c.config.reasoning_effort == Some(e.text())
        },
{
}

/// Where no model is switched to, the model and the provider stay and nothing is
/// logged; a new effort for the same model is taken, else the old one stays.
pub proof fn unswitched_sessions_keep_their_model(
    before: AgentLoop,
    after: AgentLoop,
    override_before: Option<Seq<char>>,
    override_after: Option<Seq<char>>,
    now: ConfigView,
    prev: ConfigView,
    rebuilt: bool,
    default_effort: Option<EffortView>,
    new_effort: Option<EffortView>,
)
    requires
        effects_applied(
            before,
            after,
            override_before,
            override_after,
            now,
            prev,
            rebuilt,
            default_effort,
            new_effort,
        ),
        now.model is None || (now.model == prev.model && now.provider == prev.provider),
    ensures
        after.current_model() == before.current_model(),
        after.core.model@ == before.core.model@,
        override_after == override_before,
        after.session.provider.deep_view() == before.session.provider.deep_view(),
        after.session.conversation.deep_view() == before.session.conversation.deep_view(),
        now.model == prev.model && now.reasoning_effort is Some && now.reasoning_effort
            != prev.reasoning_effort ==> after.session.reasoning_effort.deep_view() == new_effort,
        now.reasoning_effort is None || now.reasoning_effort == prev.reasoning_effort
            ==> after.session.reasoning_effort.deep_view()
            == before.session.reasoning_effort.deep_view(),
{
}

} // verus!
