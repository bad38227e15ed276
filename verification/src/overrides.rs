//! Settings that are pushed at runtime, and how they stack.

use vstd::prelude::*;

use crate::session::Temperature;

verus! {

/// The settings of an agent as they are kept on disk.
#[derive(Debug)]
pub struct AgentConfig {
    pub max_output_tokens: Option<u64>,
    pub max_iterations: Option<u32>,
    pub temperature: Option<Temperature>,
    pub context_window: Option<u64>,
    pub system_prompt_override: Option<String>,
    pub shell_approval_threshold: Option<String>,
    pub approval_timeout_secs: Option<u64>,
    pub tool_compression_enabled: Option<bool>,
    /// How many sessions are kept. Not part of the runtime overrides.
    pub max_sessions: Option<usize>,
}

/// Accumulated runtime config overrides. They are applied on top of the shared
/// template each time a new session is spawned, so a change holds for sessions
/// created after it too.
#[derive(Debug)]
pub struct RuntimeConfigOverrides {
    pub max_output_tokens: Option<u64>,
    pub max_iterations: Option<u32>,
    pub temperature: Option<Temperature>,
    pub context_window: Option<u64>,
    pub system_prompt_override: Option<String>,
    pub shell_approval_threshold: Option<String>,
    pub approval_timeout_secs: Option<u64>,
    /// Whether the tools that retrieve and abandon context are registered.
    pub tool_compression_enabled: Option<bool>,
}

/// What [`RuntimeConfigOverrides`] hold.
pub struct OverridesView {
    pub max_output_tokens: Option<u64>,
    pub max_iterations: Option<u32>,
    pub temperature: Option<Temperature>,
    pub context_window: Option<u64>,
    pub system_prompt_override: Option<Seq<char>>,
    pub shell_approval_threshold: Option<Seq<char>>,
    pub approval_timeout_secs: Option<u64>,
    pub tool_compression_enabled: Option<bool>,
}

impl DeepView for RuntimeConfigOverrides {
    type V = OverridesView;

    open spec fn deep_view(&self) -> OverridesView {
        OverridesView {
            max_output_tokens: self.max_output_tokens,
            max_iterations: self.max_iterations,
            temperature: self.temperature,
            context_window: self.context_window,
            system_prompt_override: self.system_prompt_override.deep_view(),
            shell_approval_threshold: self.shell_approval_threshold.deep_view(),
            approval_timeout_secs: self.approval_timeout_secs,
            tool_compression_enabled: self.tool_compression_enabled,
        }
    }
}

/// The newer value where there is one.
pub open spec fn newer<T>(kept: Option<T>, pushed: Option<T>) -> Option<T> {
    if pushed is Some {
        pushed
    } else {
        kept
    }
}

impl OverridesView {
    /// Nothing is overridden.
    pub open spec fn none() -> OverridesView {
        OverridesView {
            max_output_tokens: None,
            max_iterations: None,
            temperature: None,
            context_window: None,
            system_prompt_override: None,
            shell_approval_threshold: None,
            approval_timeout_secs: None,
            tool_compression_enabled: None,
        }
    }

    /// The overrides after a newer push.
    pub open spec fn merged(self, pushed: OverridesView) -> OverridesView {
        OverridesView {
            max_output_tokens: newer(self.max_output_tokens, pushed.max_output_tokens),
            max_iterations: newer(self.max_iterations, pushed.max_iterations),
            temperature: newer(self.temperature, pushed.temperature),
            context_window: newer(self.context_window, pushed.context_window),
            system_prompt_override: newer(
                self.system_prompt_override,
                pushed.system_prompt_override,
            ),
            shell_approval_threshold: newer(
                self.shell_approval_threshold,
                pushed.shell_approval_threshold,
            ),
            approval_timeout_secs: newer(self.approval_timeout_secs, pushed.approval_timeout_secs),
            tool_compression_enabled: newer(
                self.tool_compression_enabled,
                pushed.tool_compression_enabled,
            ),
        }
    }
}

impl AgentConfig {
    /// The settings that take part in the runtime overrides.
    pub open spec fn projected(&self) -> OverridesView {
        OverridesView {
            max_output_tokens: self.max_output_tokens,
            max_iterations: self.max_iterations,
            temperature: self.temperature,
            context_window: self.context_window,
            system_prompt_override: self.system_prompt_override.deep_view(),
            shell_approval_threshold: self.shell_approval_threshold.deep_view(),
            approval_timeout_secs: self.approval_timeout_secs,
            tool_compression_enabled: self.tool_compression_enabled,
        }
    }
}

impl Default for RuntimeConfigOverrides {
    fn default() -> (r: Self)
        ensures
            r.deep_view() == OverridesView::none(),
    {
        RuntimeConfigOverrides {
            max_output_tokens: None,
            max_iterations: None,
            temperature: None,
            context_window: None,
            system_prompt_override: None,
            shell_approval_threshold: None,
            approval_timeout_secs: None,
            tool_compression_enabled: None,
        }
    }
}

impl Clone for RuntimeConfigOverrides {
    fn clone(&self) -> (r: Self)
        ensures
            r.deep_view() == self.deep_view(),
    {
        RuntimeConfigOverrides {
            max_output_tokens: self.max_output_tokens,
            max_iterations: self.max_iterations,
            temperature: self.temperature,
            context_window: self.context_window,
            system_prompt_override: self.system_prompt_override.clone(),
            shell_approval_threshold: self.shell_approval_threshold.clone(),
            approval_timeout_secs: self.approval_timeout_secs,
            tool_compression_enabled: self.tool_compression_enabled,
        }
    }
}

impl RuntimeConfigOverrides {
    /// Returns true when no override value has been set.
    pub fn is_empty(&self) -> (r: bool)
        ensures
            r == (self.deep_view() == OverridesView::none()),
    {
        self.max_output_tokens.is_none() && self.max_iterations.is_none()
            && self.temperature.is_none() && self.context_window.is_none()
            && self.system_prompt_override.is_none() && self.shell_approval_threshold.is_none()
            && self.approval_timeout_secs.is_none() && self.tool_compression_enabled.is_none()
    }

    /// Merge in a newer push. `Some` values replace; `None` preserves the
    /// previously cached override.
    pub fn merge(&mut self, other: &Self)
        ensures
            final(self).deep_view() == old(self).deep_view().merged(other.deep_view()),
    {
        if other.max_output_tokens.is_some() {
            self.max_output_tokens = other.max_output_tokens;
        }
        if other.max_iterations.is_some() {
            self.max_iterations = other.max_iterations;
        }
        if other.temperature.is_some() {
            self.temperature = other.temperature;
        }
        if other.context_window.is_some() {
            self.context_window = other.context_window;
        }
        if other.system_prompt_override.is_some() {
            self.system_prompt_override = other.system_prompt_override.clone();
        }
        if other.shell_approval_threshold.is_some() {
            self.shell_approval_threshold = other.shell_approval_threshold.clone();
        }
        if other.approval_timeout_secs.is_some() {
            self.approval_timeout_secs = other.approval_timeout_secs;
        }
        if other.tool_compression_enabled.is_some() {
            self.tool_compression_enabled = other.tool_compression_enabled;
        }
    }

    /// Apply this override onto an [`AgentConfig`] for persistence to disk.
    /// `Some` values are written; `None` preserves the value that stands
    /// there.
    pub fn apply_to(&self, cfg: &mut AgentConfig)
        ensures
            final(cfg).projected() == old(cfg).projected().merged(self.deep_view()),
            final(cfg).max_sessions == old(cfg).max_sessions,
    {
        if self.max_output_tokens.is_some() {
            cfg.max_output_tokens = self.max_output_tokens;
        }
        if self.max_iterations.is_some() {
            cfg.max_iterations = self.max_iterations;
        }
        if self.temperature.is_some() {
            cfg.temperature = self.temperature;
        }
        if self.context_window.is_some() {
            cfg.context_window = self.context_window;
        }
        if self.system_prompt_override.is_some() {
            cfg.system_prompt_override = self.system_prompt_override.clone();
        }
        if self.shell_approval_threshold.is_some() {
            cfg.shell_approval_threshold = self.shell_approval_threshold.clone();
        }
        if self.approval_timeout_secs.is_some() {
            cfg.approval_timeout_secs = self.approval_timeout_secs;
        }
        if self.tool_compression_enabled.is_some() {
            cfg.tool_compression_enabled = self.tool_compression_enabled;
        }
    }
}

impl<'a> From<&'a AgentConfig> for RuntimeConfigOverrides {
    /// The settings of an [`AgentConfig`] that take part in the runtime
    /// overrides, each as it stands there.
    fn from(cfg: &'a AgentConfig) -> (r: Self) {
        RuntimeConfigOverrides {
            max_output_tokens: cfg.max_output_tokens,
            max_iterations: cfg.max_iterations,
            temperature: cfg.temperature,
            context_window: cfg.context_window,
            system_prompt_override: cfg.system_prompt_override.clone(),
            shell_approval_threshold: cfg.shell_approval_threshold.clone(),
            approval_timeout_secs: cfg.approval_timeout_secs,
            tool_compression_enabled: cfg.tool_compression_enabled,
        }
    }
}

impl<'a> vstd::std_specs::convert::FromSpecImpl<&'a AgentConfig> for RuntimeConfigOverrides {
    open spec fn obeys_from_spec() -> bool {
        true
    }

    open spec fn from_spec(cfg: &'a AgentConfig) -> Self {
        RuntimeConfigOverrides {
            max_output_tokens: cfg.max_output_tokens,
            max_iterations: cfg.max_iterations,
            temperature: cfg.temperature,
            context_window: cfg.context_window,
            system_prompt_override: cfg.system_prompt_override,
            shell_approval_threshold: cfg.shell_approval_threshold,
            approval_timeout_secs: cfg.approval_timeout_secs,
            tool_compression_enabled: cfg.tool_compression_enabled,
        }
    }
}

// ── Laws ────────────────────────────────────────────────────────────────

/// Reading the settings of a config back gives what takes part in the
/// overrides, so a push that was applied to a config is read back merged.
pub proof fn stored_push_reads_back(before: AgentConfig, after: AgentConfig, push: OverridesView)
    requires
        after.projected() == before.projected().merged(push),
    ensures
        <RuntimeConfigOverrides as vstd::std_specs::convert::FromSpec<&AgentConfig>>::from_spec(
            &after,
        ).deep_view() == before.projected().merged(push),
{
}

/// An empty push changes nothing.
pub proof fn empty_push_changes_nothing(kept: OverridesView)
    ensures
        kept.merged(OverridesView::none()) == kept,
        OverridesView::none().merged(kept) == kept,
{
}

/// Pushing twice is pushing the two merged: nothing depends on how pushes are
/// grouped.
pub proof fn pushes_can_be_grouped(kept: OverridesView, a: OverridesView, b: OverridesView)
    ensures
        kept.merged(a).merged(b) == kept.merged(a.merged(b)),
{
}

/// The same push twice is the same as once.
pub proof fn repeated_push_changes_nothing(kept: OverridesView, a: OverridesView)
    ensures
        kept.merged(a).merged(a) == kept.merged(a),
{
}

/// A push sets the fields that it names and leaves the others.
pub proof fn pushes_set_what_they_name(kept: OverridesView, pushed: OverridesView)
    ensures
        ({
            let after = kept.merged(pushed);
            &&& pushed.max_output_tokens is Some ==> after.max_output_tokens
                == pushed.max_output_tokens
            &&& pushed.max_output_tokens is None ==> after.max_output_tokens
                == kept.max_output_tokens
            &&& pushed.max_iterations is Some ==> after.max_iterations == pushed.max_iterations
            &&& pushed.max_iterations is None ==> after.max_iterations == kept.max_iterations
            &&& pushed.temperature is Some ==> after.temperature == pushed.temperature
            &&& pushed.temperature is None ==> after.temperature == kept.temperature
            &&& pushed.context_window is Some ==> after.context_window == pushed.context_window
            &&& pushed.context_window is None ==> after.context_window == kept.context_window
            &&& pushed.system_prompt_override is Some ==> after.system_prompt_override
                == pushed.system_prompt_override
            &&& pushed.system_prompt_override is None ==> after.system_prompt_override
                == kept.system_prompt_override
            &&& pushed.shell_approval_threshold is Some ==> after.shell_approval_threshold
                == pushed.shell_approval_threshold
            &&& pushed.shell_approval_threshold is None ==> after.shell_approval_threshold
                == kept.shell_approval_threshold
            &&& pushed.approval_timeout_secs is Some ==> after.approval_timeout_secs
                == pushed.approval_timeout_secs
            &&& pushed.approval_timeout_secs is None ==> after.approval_timeout_secs
                == kept.approval_timeout_secs
            &&& pushed.tool_compression_enabled is Some ==> after.tool_compression_enabled
                == pushed.tool_compression_enabled
            &&& pushed.tool_compression_enabled is None ==> after.tool_compression_enabled
                == kept.tool_compression_enabled
        }),
{
}

/// What is read out of the stored settings is each field under its own name.
pub proof fn stored_settings_are_read_by_name(cfg: AgentConfig)
    ensures
        cfg.projected().max_output_tokens == cfg.max_output_tokens,
        cfg.projected().max_iterations == cfg.max_iterations,
        cfg.projected().temperature == cfg.temperature,
        cfg.projected().context_window == cfg.context_window,
        cfg.projected().system_prompt_override == cfg.system_prompt_override.deep_view(),
        cfg.projected().shell_approval_threshold == cfg.shell_approval_threshold.deep_view(),
        cfg.projected().approval_timeout_secs == cfg.approval_timeout_secs,
        cfg.projected().tool_compression_enabled == cfg.tool_compression_enabled,
{
}

/// The fields of a push are read under their own names.
pub proof fn pushes_are_read_by_name(o: RuntimeConfigOverrides)
    ensures
        o.deep_view().max_output_tokens == o.max_output_tokens,
        o.deep_view().max_iterations == o.max_iterations,
        o.deep_view().temperature == o.temperature,
        o.deep_view().context_window == o.context_window,
        o.deep_view().system_prompt_override == o.system_prompt_override.deep_view(),
        o.deep_view().shell_approval_threshold == o.shell_approval_threshold.deep_view(),
        o.deep_view().approval_timeout_secs == o.approval_timeout_secs,
        o.deep_view().tool_compression_enabled == o.tool_compression_enabled,
{
}

} // verus!
