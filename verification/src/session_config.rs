//! Session configuration: the partial update that every interface sends, the
//! snapshot that every interface reads, and the effective context window.

use vstd::prelude::*;

use crate::model::ModelCapabilitiesInfo;
use crate::overrides::newer;
use crate::session::{EffortView, ReasoningEffort, Temperature};

verus! {

/// Partial session config update: each field is `None` (unchanged) or the new
/// value.
#[derive(Debug)]
pub struct SessionConfigDelta {
    pub model: Option<String>,
    pub provider: Option<String>,
    pub workspace_id: Option<String>,
    pub reasoning_effort: Option<String>,
    pub temperature: Option<Temperature>,
    pub title: Option<String>,
}

/// Read-only snapshot of current session config.
#[derive(Debug)]
pub struct SessionConfigSnapshot {
    pub model: Option<String>,
    pub provider: Option<String>,
    pub workspace_id: Option<String>,
    pub reasoning_effort: Option<String>,
    pub temperature: Option<Temperature>,
    pub title: Option<String>,
}

/// What a [`SessionConfigDelta`] or a [`SessionConfigSnapshot`] holds.
pub struct ConfigView {
    pub model: Option<Seq<char>>,
    pub provider: Option<Seq<char>>,
    pub workspace_id: Option<Seq<char>>,
    pub reasoning_effort: Option<Seq<char>>,
    pub temperature: Option<Temperature>,
    pub title: Option<Seq<char>>,
}

impl DeepView for SessionConfigDelta {
    type V = ConfigView;

    open spec fn deep_view(&self) -> ConfigView {
        ConfigView {
            model: self.model.deep_view(),
            provider: self.provider.deep_view(),
            workspace_id: self.workspace_id.deep_view(),
            reasoning_effort: self.reasoning_effort.deep_view(),
            temperature: self.temperature,
            title: self.title.deep_view(),
        }
    }
}

impl DeepView for SessionConfigSnapshot {
    type V = ConfigView;

    open spec fn deep_view(&self) -> ConfigView {
        ConfigView {
            model: self.model.deep_view(),
            provider: self.provider.deep_view(),
            workspace_id: self.workspace_id.deep_view(),
            reasoning_effort: self.reasoning_effort.deep_view(),
            temperature: self.temperature,
            title: self.title.deep_view(),
        }
    }
}

impl ConfigView {
    /// Nothing is set.
    pub open spec fn none() -> ConfigView {
        ConfigView {
            model: None,
            provider: None,
            workspace_id: None,
            reasoning_effort: None,
            temperature: None,
            title: None,
        }
    }

    /// The settings after a change.
    pub open spec fn changed(self, delta: ConfigView) -> ConfigView {
        ConfigView {
            model: newer(self.model, delta.model),
            provider: newer(self.provider, delta.provider),
            workspace_id: newer(self.workspace_id, delta.workspace_id),
            reasoning_effort: newer(self.reasoning_effort, delta.reasoning_effort),
            temperature: newer(self.temperature, delta.temperature),
            title: newer(self.title, delta.title),
        }
    }
}

impl Default for SessionConfigDelta {
    fn default() -> (r: Self)
        ensures
            r.deep_view() == ConfigView::none(),
    {
        SessionConfigDelta {
            model: None,
            provider: None,
            workspace_id: None,
            reasoning_effort: None,
            temperature: None,
            title: None,
        }
    }
}

impl Default for SessionConfigSnapshot {
    fn default() -> (r: Self)
        ensures
            r.deep_view() == ConfigView::none(),
    {
        SessionConfigSnapshot {
            model: None,
            provider: None,
            workspace_id: None,
            reasoning_effort: None,
            temperature: None,
            title: None,
        }
    }
}

impl Clone for SessionConfigDelta {
    fn clone(&self) -> (r: Self)
        ensures
            r.deep_view() == self.deep_view(),
    {
        SessionConfigDelta {
            model: self.model.clone(),
            provider: self.provider.clone(),
            workspace_id: self.workspace_id.clone(),
            reasoning_effort: self.reasoning_effort.clone(),
            temperature: self.temperature,
            title: self.title.clone(),
        }
    }
}

impl Clone for SessionConfigSnapshot {
    fn clone(&self) -> (r: Self)
        ensures
            r.deep_view() == self.deep_view(),
    {
        SessionConfigSnapshot {
            model: self.model.clone(),
            provider: self.provider.clone(),
            workspace_id: self.workspace_id.clone(),
            reasoning_effort: self.reasoning_effort.clone(),
            temperature: self.temperature,
            title: self.title.clone(),
        }
    }
}

impl SessionConfigSnapshot {
    /// Replaces each setting that the delta holds.
    pub fn change(&mut self, delta: &SessionConfigDelta)
        ensures
            final(self).deep_view() == old(self).deep_view().changed(delta.deep_view()),
    {
        if delta.model.is_some() {
            self.model = delta.model.clone();
        }
        if delta.provider.is_some() {
            self.provider = delta.provider.clone();
        }
        if delta.workspace_id.is_some() {
            self.workspace_id = delta.workspace_id.clone();
        }
        if delta.reasoning_effort.is_some() {
            self.reasoning_effort = delta.reasoning_effort.clone();
        }
        if delta.temperature.is_some() {
            self.temperature = delta.temperature;
        }
        if delta.title.is_some() {
            self.title = delta.title.clone();
        }
    }
}

// ── Reasoning effort ────────────────────────────────────────────────────

/// The effort of a session: what was persisted, else the model's default,
/// else `Auto` where the model can reason, else none. `default_effort` and
/// `persisted` are what the texts stand for, where they stand for anything.
pub open spec fn effective_effort(
    caps: Option<ModelCapabilitiesInfo>,
    default_effort: Option<EffortView>,
    persisted: Option<EffortView>,
) -> Option<EffortView> {
    if persisted is Some {
        persisted
    } else if caps is Some && caps->0.default_reasoning_effort is Some && default_effort is Some {
        default_effort
    } else if caps is Some && caps->0.supports_reasoning == Some(true) {
        Some(EffortView::Auto)
    } else {
        None
    }
}

/// Resolve the effective reasoning effort for a session: the single source of
/// truth for every path that reads or writes it.
pub fn resolve_effective_reasoning_effort(
    caps: Option<&ModelCapabilitiesInfo>,
    default_effort: Option<ReasoningEffort>,
    persisted: Option<ReasoningEffort>,
) -> (r: Option<ReasoningEffort>)
    ensures
        r.deep_view() == effective_effort(
            match caps {
                Some(c) => Some(*c),
                None => None,
            },
            default_effort.deep_view(),
            persisted.deep_view(),
        ),
{
    if persisted.is_some() {
        return persisted;
    }
    match caps {
        Some(c) => {
            if c.default_reasoning_effort.is_some() && default_effort.is_some() {
                return default_effort;
            }
            match c.supports_reasoning {
                Some(true) => Some(ReasoningEffort::Auto),
                _ => None,
            }
        },
        None => None,
    }
}

// ── Context window ──────────────────────────────────────────────────────

/// Lower bound of the valid context-window range.
pub const CONTEXT_WINDOW_FLOOR: u64 = 8_192;

/// Upper bound of the valid context-window range, larger than any model window.
pub const CONTEXT_WINDOW_CEILING: u64 = 4_194_304;

/// The window of a session that nothing else configures.
pub const DEFAULT_CONTEXT_WINDOW: u64 = 200_000;

/// A context window that counts as configured. Zero, a missing value and a
/// value out of range all mean "no override, fall to the next layer".
pub open spec fn valid_window(n: u64) -> bool {
    CONTEXT_WINDOW_FLOOR <= n <= CONTEXT_WINDOW_CEILING
}

/// Value validity, the single interpretation point for "invalid".
pub fn is_valid_context_window(n: u64) -> (r: bool)
    ensures
        r == valid_window(n),
{
    CONTEXT_WINDOW_FLOOR <= n && n <= CONTEXT_WINDOW_CEILING
}

/// A layer that sets the window.
pub open spec fn layer_sets(layer: Option<u64>) -> bool {
    layer is Some && valid_window(layer->0)
}

/// The first layer with a valid value wins: session, agent, manifest, default.
pub open spec fn resolved_window(
    session: Option<u64>,
    agent: Option<u64>,
    manifest: Option<u64>,
) -> u64 {
    if layer_sets(session) {
        session->0
    } else if layer_sets(agent) {
        agent->0
    } else if layer_sets(manifest) {
        manifest->0
    } else {
        DEFAULT_CONTEXT_WINDOW
    }
}

/// The resolved window, and never more than the model has.
pub open spec fn effective_window(
    session: Option<u64>,
    agent: Option<u64>,
    manifest: Option<u64>,
    model_window: Option<u64>,
) -> u64 {
    let resolved = resolved_window(session, agent, manifest);
    match model_window {
        Some(w) => if resolved <= w {
            resolved
        } else {
            w
        },
        None => resolved,
    }
}

fn layer_is_set(layer: Option<u64>) -> (r: bool)
    ensures
        r == layer_sets(layer),
{
    match layer {
        Some(n) => is_valid_context_window(n),
        None => false,
    }
}

/// Resolve the effective context window cap for a session.
///
/// Each layer takes the first valid value: the session's own override, the
/// agent's setting, the manifest's default, then `DEFAULT_CONTEXT_WINDOW`.
/// Invalid values fall through, never clamped and never an error. The result
/// is capped by the model's window where that is known.
pub fn resolve_effective_context_window(
    session_override: Option<u64>,
    agent_override: Option<u64>,
    manifest_window: Option<u64>,
    model_caps: Option<&ModelCapabilitiesInfo>,
) -> (r: u64)
    ensures
        r == effective_window(
            session_override,
            agent_override,
            manifest_window,
            match model_caps {
                Some(caps) => Some(caps.context_window),
                None => None,
            },
        ),
{
    let resolved: u64 = if layer_is_set(session_override) {
        session_override.unwrap()
    } else if layer_is_set(agent_override) {
        agent_override.unwrap()
    } else if layer_is_set(manifest_window) {
        manifest_window.unwrap()
    } else {
        DEFAULT_CONTEXT_WINDOW
    };
    match model_caps {
        Some(caps) => if resolved <= caps.context_window {
            resolved
        } else {
            caps.context_window
        },
        None => resolved,
    }
}

// ── Laws ────────────────────────────────────────────────────────────────

/// What the user chose stays, whatever the model can do; and a session of a
/// model that can reason always has an effort.
pub proof fn chosen_effort_stays(
    caps: Option<ModelCapabilitiesInfo>,
    default_effort: Option<EffortView>,
    persisted: Option<EffortView>,
)
    ensures
        persisted is Some ==> effective_effort(caps, default_effort, persisted) == persisted,
        caps is Some && caps->0.supports_reasoning == Some(true) ==> effective_effort(
            caps,
            default_effort,
            persisted,
        ) is Some,
        caps is None && persisted is None ==> effective_effort(caps, default_effort, persisted)
            is None,
{
}

/// An empty change changes nothing, and two changes are one.
pub proof fn changes_can_be_grouped(config: ConfigView, a: ConfigView, b: ConfigView)
    ensures
        config.changed(ConfigView::none()) == config,
        config.changed(a).changed(b) == config.changed(a.changed(b)),
{
}

/// A session never gets more than its model's window; without a model the
/// window is a legal configuration, whatever the layers hold.
pub proof fn window_is_capped_and_legal(
    session: Option<u64>,
    agent: Option<u64>,
    manifest: Option<u64>,
    model_window: Option<u64>,
)
    ensures
        model_window is Some ==> effective_window(session, agent, manifest, model_window)
            <= model_window->0,
        valid_window(resolved_window(session, agent, manifest)),
        valid_window(effective_window(session, agent, manifest, None)),
{
}

/// An invalid value is the same as no value, at any layer.
pub proof fn invalid_layers_are_absent(
    bad: u64,
    session: Option<u64>,
    agent: Option<u64>,
    manifest: Option<u64>,
    model_window: Option<u64>,
)
    requires
        !valid_window(bad),
    ensures
        effective_window(Some(bad), agent, manifest, model_window) == effective_window(
            None,
            agent,
            manifest,
            model_window,
        ),
        effective_window(session, Some(bad), manifest, model_window) == effective_window(
            session,
            None,
            manifest,
            model_window,
        ),
        effective_window(session, agent, Some(bad), model_window) == effective_window(
            session,
            agent,
            None,
            model_window,
        ),
{
}

/// A change sets the fields that it names and leaves the others.
pub proof fn changes_set_what_they_name(config: ConfigView, delta: ConfigView)
    ensures
        ({
            let after = config.changed(delta);
            &&& delta.model is Some ==> after.model == delta.model
            &&& delta.model is None ==> after.model == config.model
            &&& delta.provider is Some ==> after.provider == delta.provider
            &&& delta.provider is None ==> after.provider == config.provider
            &&& delta.workspace_id is Some ==> after.workspace_id == delta.workspace_id
            &&& delta.workspace_id is None ==> after.workspace_id == config.workspace_id
            &&& delta.reasoning_effort is Some ==> after.reasoning_effort == delta.reasoning_effort
            &&& delta.reasoning_effort is None ==> after.reasoning_effort
                == config.reasoning_effort
            &&& delta.temperature is Some ==> after.temperature == delta.temperature
            &&& delta.temperature is None ==> after.temperature == config.temperature
            &&& delta.title is Some ==> after.title == delta.title
            &&& delta.title is None ==> after.title == config.title
        }),
{
}

/// The user's choice of effort goes before all else; a model that has an effort
/// of its own takes that; another that can reason takes what it thinks fit; and
/// a model that cannot, or of which nothing is known, takes none.
pub proof fn efforts_are_taken_in_order(
    caps: Option<ModelCapabilitiesInfo>,
    default_effort: Option<EffortView>,
    persisted: Option<EffortView>,
)
    ensures
        ({
            let r = effective_effort(caps, default_effort, persisted);
            &&& persisted is Some ==> r == persisted
            &&& persisted is None && caps is None ==> r is None
            &&& persisted is None ==> (caps matches Some(c) ==> {
                let own = c.default_reasoning_effort is Some && default_effort is Some;
                &&& own ==> r == default_effort
                &&& !own && c.supports_reasoning == Some(true) ==> r == Some(EffortView::Auto)
                &&& !own && c.supports_reasoning != Some(true) ==> r is None
            })
        }),
{
}

/// The window is that of the session, else that of the agent, else that of the
/// manifest, each where it is sound, else two hundred thousand tokens; and never
/// more than the model takes.
pub proof fn windows_are_taken_in_order(
    session: Option<u64>,
    agent: Option<u64>,
    manifest: Option<u64>,
    model_window: Option<u64>,
    n: u64,
)
    requires
        8192 <= n <= 4_194_304,
    ensures
        effective_window(Some(n), agent, manifest, None) == n,
        effective_window(None, Some(n), manifest, None) == n,
        effective_window(None, None, Some(n), None) == n,
        effective_window(None, None, None, None) == 200_000,
        ({
            let free = effective_window(session, agent, manifest, None);
            let capped = effective_window(session, agent, manifest, Some(n));
            &&& free <= n ==> capped == free
            &&& free >= n ==> capped == n
        }),
{
}

/// Windows from eight thousand to four million tokens are sound, and no others.
pub proof fn sound_windows_lie_between_the_bounds(n: u64)
    ensures
        valid_window(n) <==> 8192 <= n && n <= 4_194_304,
{
}

/// The fields of a change and of the settings are read under their own names.
pub proof fn settings_are_read_by_name(delta: SessionConfigDelta, now: SessionConfigSnapshot)
    ensures
        delta.deep_view().model == delta.model.deep_view(),
        delta.deep_view().provider == delta.provider.deep_view(),
        delta.deep_view().workspace_id == delta.workspace_id.deep_view(),
        delta.deep_view().reasoning_effort == delta.reasoning_effort.deep_view(),
        delta.deep_view().temperature == delta.temperature,
        delta.deep_view().title == delta.title.deep_view(),
        now.deep_view().model == now.model.deep_view(),
        now.deep_view().provider == now.provider.deep_view(),
        now.deep_view().workspace_id == now.workspace_id.deep_view(),
        now.deep_view().reasoning_effort == now.reasoning_effort.deep_view(),
        now.deep_view().temperature == now.temperature,
        now.deep_view().title == now.title.deep_view(),
{
}

} // verus!
