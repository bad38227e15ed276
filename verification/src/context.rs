//! How full the context is: thresholds, reports for the frontend, and what a
//! request to the model carries.

use vstd::prelude::*;

use crate::agent_loop::AgentLoop;
use crate::builtin_tools::{ToolDef, ToolDefView};
use crate::json::{Json, JsonView};
use crate::message::{ChatMessage, ChatMessageView, ChatResponse, MessageRole, UsageInfo};
use crate::model::{find_model, ModelCapabilitiesInfo, ProviderListItem, ProviderModelEntry};
use crate::overrides::{newer, RuntimeConfigOverrides};
use crate::text::{debug_list, debug_list_text};
use crate::session::{
    ChunkEvent, ChunkView, ContextUsageInfo, EffortView, ReasoningEffort, SessionCore,
    SessionState, Temperature,
};

verus! {

// ── Thresholds ──────────────────────────────────────────────────────────

/// From here on history is trimmed before large results are appended. Like the
/// others, a share of the usable input budget.
pub const CONTEXT_WARN_PERCENT: u8 = 70;

/// From here on the history is summarised.
pub const CONTEXT_COMPACT_PERCENT: u8 = 80;

/// Above this the history is cut down before the next call.
pub const CONTEXT_HARD_PERCENT: u8 = 90;

/// From here on the history is cut down even after a summary.
pub const CONTEXT_CRITICAL_PERCENT: u8 = 95;

/// Number of conversational rounds kept at the tail after a summary.
pub const KEEP_LAST_ROUNDS: usize = 3;

/// `tokens` is at least `percent` of `budget`.
pub open spec fn reaches(tokens: int, percent: u8, budget: u64) -> bool {
    tokens * 100 >= percent * budget
}

/// `tokens` is more than `percent` of `budget`.
pub open spec fn exceeds(tokens: int, percent: u8, budget: u64) -> bool {
    tokens * 100 > percent * budget
}

fn share(percent: u8, budget: u64) -> (r: u128)
    ensures
        r == percent * budget,
{
    assert(percent * budget <= 255 * 0xffff_ffff_ffff_ffff) by (nonlinear_arith)
        requires
            percent <= 255,
            budget <= 0xffff_ffff_ffff_ffff,
    ;
    percent as u128 * budget as u128
}

/// Whether `tokens` is at least `percent` of `budget`.
pub fn reaches_percent(tokens: u64, percent: u8, budget: u64) -> (r: bool)
    ensures
        r == reaches(tokens as int, percent, budget),
{
    tokens as u128 * 100 >= share(percent, budget)
}

/// Whether `tokens` is more than `percent` of `budget`.
pub fn exceeds_percent(tokens: u64, percent: u8, budget: u64) -> (r: bool)
    ensures
        r == exceeds(tokens as int, percent, budget),
{
    tokens as u128 * 100 > share(percent, budget)
}

/// How the history stands before a call.
#[derive(Clone, Copy, Debug, PartialEq, Eq, Structural)]
pub enum ContextLevel {
    Fine,
    /// Above [`CONTEXT_WARN_PERCENT`].
    Approaching,
    /// Above [`CONTEXT_HARD_PERCENT`]: cut the history down, and build the
    /// request anew if that took anything out.
    Over,
}

/// Context usage circuit-breaking: how the history stands before a call.
pub fn check_context_overflow(tokens: u64, usable: u64) -> (r: ContextLevel)
    ensures
        r == (if exceeds(tokens as int, CONTEXT_HARD_PERCENT, usable) {
            ContextLevel::Over
        } else if exceeds(tokens as int, CONTEXT_WARN_PERCENT, usable) {
            ContextLevel::Approaching
        } else {
            ContextLevel::Fine
        }),
        r == ContextLevel::Over <==> 10 * tokens > 9 * usable,
        r == ContextLevel::Fine <==> 10 * tokens <= 7 * usable,
{
    if exceeds_percent(tokens, CONTEXT_HARD_PERCENT, usable) {
        ContextLevel::Over
    } else if exceeds_percent(tokens, CONTEXT_WARN_PERCENT, usable) {
        ContextLevel::Approaching
    } else {
        ContextLevel::Fine
    }
}

/// Whether the request has to be built anew: the history was over the limit,
/// and cutting it down took `removed` messages out.
pub fn needs_rebuild(level: ContextLevel, removed: usize) -> (r: bool)
    ensures
        r == (level == ContextLevel::Over && removed > 0),
{
    level == ContextLevel::Over && removed > 0
}

/// Whether dropping the oldest messages was not enough, so that the history
/// has to be cut down further.
pub fn needs_emergency_trim(tokens: u64, budget: u64) -> (r: bool)
    ensures
        r == (tokens > budget),
{
    tokens > budget
}

/// The sum of token counts.
pub open spec fn total_tokens(counts: Seq<u64>) -> int
    decreases counts.len(),
{
    if counts.len() == 0 {
        0
    } else {
        total_tokens(counts.drop_last()) + counts.last()
    }
}

pub proof fn lemma_total_bound(counts: Seq<u64>)
    ensures
        0 <= total_tokens(counts) <= counts.len() * 0xffff_ffff_ffff_ffff,
    decreases counts.len(),
{
    if counts.len() > 0 {
        lemma_total_bound(counts.drop_last());
    }
}

/// The sum of token counts.
pub fn sum_tokens(counts: &Vec<u64>) -> (r: u128)
    ensures
        r == total_tokens(counts@),
        r <= counts.len() * 0xffff_ffff_ffff_ffff,
{
    let mut r: u128 = 0;
    let mut i: usize = 0;
    while i < counts.len()
        invariant
            i <= counts.len(),
            r == total_tokens(counts@.take(i as int)),
        decreases counts.len() - i,
    {
        proof {
            assert(counts@.take(i + 1).drop_last() =~= counts@.take(i as int));
            lemma_total_bound(counts@.take(i + 1));
        }
        r = r + counts[i] as u128;
        i = i + 1;
    }
    proof {
        assert(counts@.take(counts.len() as int) =~= counts@);
        lemma_total_bound(counts@);
    }
    r
}

/// Whether history has to be trimmed to make room for tool results, given how
/// many tokens each of them takes.
pub fn pre_trim_for_tool_results(tokens: u64, result_tokens: &Vec<u64>, usable: u64) -> (r: bool)
    ensures
        r == exceeds(tokens + total_tokens(result_tokens@), CONTEXT_WARN_PERCENT, usable),
        r <==> 10 * (tokens + total_tokens(result_tokens@)) > 7 * usable,
{
    let sum = sum_tokens(result_tokens);
    let limit = share(CONTEXT_WARN_PERCENT, usable);
    let total: u128 = tokens as u128;
    if sum > 0xffff_ffff_ffff_ffff_ffff {
        return true;
    }
    (total + sum) * 100 > limit
}

// ── Budget ──────────────────────────────────────────────────────────────

/// Cumulative token counts for a report.
#[derive(Clone, Copy, Debug, PartialEq, Eq, Structural)]
pub struct UsageTotals {
    pub session_input: Option<u64>,
    pub session_output: Option<u64>,
    pub agent_input: u64,
    pub agent_output: u64,
}

/// A report on a history of `tokens` tokens and an answer of `output`.
pub open spec fn usage_report(
    caps: ModelCapabilitiesInfo,
    window: u64,
    usable: u64,
    tokens: u64,
    output: u64,
    percent: u8,
    totals: UsageTotals,
) -> ContextUsageInfo {
    ContextUsageInfo {
        context_window: window,
        input_tokens: tokens,
        output_tokens: output,
        total_tokens: (tokens + output) as u64,
        max_input_tokens: caps.max_input_tokens,
        usable_context: usable,
        usage_percent: percent,
        total_input_tokens: totals.session_input,
        total_output_tokens: totals.session_output,
        agent_total_input_tokens: Some(totals.agent_input),
        agent_total_output_tokens: Some(totals.agent_output),
    }
}

fn make_report(
    caps: &ModelCapabilitiesInfo,
    window: u64,
    usable: u64,
    tokens: u64,
    output: u64,
    percent: u8,
    totals: UsageTotals,
) -> (r: ContextUsageInfo)
    requires
        tokens + output <= u64::MAX,
    ensures
        r == usage_report(*caps, window, usable, tokens, output, percent, totals),
{
    ContextUsageInfo {
        context_window: window,
        input_tokens: tokens,
        output_tokens: output,
        total_tokens: tokens + output,
        max_input_tokens: caps.max_input_tokens,
        usable_context: usable,
        usage_percent: percent,
        total_input_tokens: totals.session_input,
        total_output_tokens: totals.session_output,
        agent_total_input_tokens: Some(totals.agent_input),
        agent_total_output_tokens: Some(totals.agent_output),
    }
}

impl AgentLoop {
    /// The window of a model under the user's cap; a cap of zero is none.
    pub open spec fn effective_window(&self, caps: ModelCapabilitiesInfo) -> u64 {
        match self.core.overrides.context_window {
            Some(cap) => if cap != 0 && cap < caps.context_window {
                cap
            } else {
                caps.context_window
            },
            None => caps.context_window,
        }
    }

    /// What of the window can be used for input.
    pub open spec fn effective_usable(&self, caps: ModelCapabilitiesInfo, input_budget: u64) -> u64 {
        if input_budget < self.effective_window(caps) {
            input_budget
        } else {
            self.effective_window(caps)
        }
    }

    /// Resolve the effective (clamped) context budget for display: what is
    /// known of the model, its window and what of it can be used for input.
    /// `input_budget` is what the model leaves for input next to its output.
    /// Nothing where the model is not known.
    pub fn effective_context_budget(&self, model_name: &str, input_budget: u64) -> (r: Option<
        (&ModelCapabilitiesInfo, u64, u64),
    >)
        ensures
            match r {
                Some((caps, window, usable)) => {
                    &&& self.core.caps(model_name@) == Some(*caps)
                    &&& window == self.effective_window(*caps)
                    &&& usable == self.effective_usable(*caps, input_budget)
                },
                None => self.core.caps(model_name@) is None,
            },
    {
        match self.core.get_model_capabilities(model_name) {
            Some(caps) => {
                let window: u64 = match self.core.overrides.context_window {
                    Some(cap) => if cap != 0 && cap < caps.context_window {
                        cap
                    } else {
                        caps.context_window
                    },
                    None => caps.context_window,
                };
                let usable: u64 = if input_budget < window {
                    input_budget
                } else {
                    window
                };
                Some((caps, window, usable))
            },
            None => None,
        }
    }

    /// The outbox once it holds how full the context is, where the model is known.
    pub open spec fn with_history_report(
        &self,
        outbox: Seq<ChunkView>,
        model: Seq<char>,
        input_budget: u64,
        tokens: u64,
        percent: u8,
        totals: UsageTotals,
    ) -> Seq<ChunkView> {
        match self.core.caps(model) {
            Some(caps) => outbox.push(
                ChunkView::ContextUsage(
                    usage_report(
                        caps,
                        self.effective_window(caps),
                        self.effective_usable(caps, input_budget),
                        tokens,
                        0,
                        percent,
                        totals,
                    ),
                ),
            ),
            None => outbox,
        }
    }

    /// Owes the world a report on the history, where the model is known.
    pub fn report_history(
        &mut self,
        model_name: &str,
        input_budget: u64,
        tokens: u64,
        percent: u8,
        totals: UsageTotals,
    )
        ensures
            final(self).session_core.outbox.deep_view() == old(self).with_history_report(
                old(self).session_core.outbox.deep_view(),
                model_name@,
                input_budget,
                tokens,
                percent,
                totals,
            ),
            *final(self) == (AgentLoop {
                session_core: SessionCore {
                    outbox: final(self).session_core.outbox,
                    ..old(self).session_core
                },
                ..*old(self)
            }),
    {
        let report = match self.effective_context_budget(model_name, input_budget) {
            Some((caps, window, usable)) => Some(
                make_report(caps, window, usable, tokens, 0, percent, totals),
            ),
            None => None,
        };
        match report {
            Some(info) => self.session_core.send(ChunkEvent::ContextUsage(info)),
            None => {},
        }
    }

    /// Apply runtime config overrides to the session, once the core has taken
    /// its part. A temperature is taken over at once, and a new window is
    /// reported at once: `tokens` is the size of the history, `percent` its
    /// share of the usable context.
    pub fn apply_runtime_config(
        &mut self,
        overrides: &RuntimeConfigOverrides,
        input_budget: u64,
        tokens: u64,
        percent: u8,
        totals: UsageTotals,
    )
        ensures
            final(self).session.temperature == newer(
                old(self).session.temperature,
                overrides.temperature,
            ),
            final(self).session_core.outbox.deep_view() == (if overrides.context_window is Some {
                old(self).with_history_report(
                    old(self).session_core.outbox.deep_view(),
                    old(self).current_model(),
                    input_budget,
                    tokens,
                    percent,
                    totals,
                )
            } else {
                old(self).session_core.outbox.deep_view()
            }),
            *final(self) == (AgentLoop {
                session: SessionState {
                    temperature: final(self).session.temperature,
                    ..old(self).session
                },
                session_core: SessionCore {
                    outbox: final(self).session_core.outbox,
                    ..old(self).session_core
                },
                ..*old(self)
            }),
    {
        if overrides.temperature.is_some() {
            self.session.temperature = overrides.temperature;
        }
        if overrides.context_window.is_some() {
            let model = self.resolve_current_model();
            self.report_history(model.as_str(), input_budget, tokens, percent, totals);
        }
    }
}

// ── Requests ────────────────────────────────────────────────────────────

/// How a request asks the model to answer.
#[derive(Debug)]
pub struct RequestParams {
    pub reasoning_effort: Option<ReasoningEffort>,
    pub thinking_mode: Option<String>,
    pub temperature: Temperature,
}

/// A request to a model.
#[derive(Debug)]
pub struct ChatRequest {
    pub model: String,
    pub messages: Vec<ChatMessage>,
    pub tools: Option<Vec<Json>>,
    pub params: RequestParams,
    /// What is known of the model.
    pub capabilities: Option<ModelCapabilitiesInfo>,
    /// How many tokens the model may answer with, where that is known.
    pub max_output_limit: Option<u64>,
}

/// The value of the first layer that has one.
pub open spec fn first_of<T>(a: Option<T>, b: Option<T>) -> Option<T> {
    if a is Some {
        a
    } else {
        b
    }
}

impl AgentLoop {
    /// The reasoning effort of a request: the session's, else the model's
    /// default.
    pub open spec fn request_effort(&self, default_effort: Option<EffortView>) -> Option<
        EffortView,
    > {
        first_of(self.session.reasoning_effort.deep_view(), default_effort)
    }

    /// The thinking mode of a model.
    pub open spec fn request_thinking(&self, model: Seq<char>) -> Option<Seq<char>> {
        match self.core.caps(model) {
            Some(caps) => caps.thinking_mode.deep_view(),
            None => None,
        }
    }

    /// The temperature of a request: the session's, else the agent's, else the
    /// package's, else the given one.
    pub open spec fn request_temperature(&self, fallback: Temperature) -> Temperature {
        match first_of(
            self.session.temperature,
            first_of(self.core.overrides.temperature, self.core.manifest_temperature),
        ) {
            Some(t) => t,
            None => fallback,
        }
    }

    /// Resolves how a request asks the model to answer, and keeps the effort
    /// and the mode for a repeated call. `default_effort` is what the model's
    /// default effort stands for.
    pub fn resolve_request_params(
        &mut self,
        model: &str,
        default_effort: Option<ReasoningEffort>,
        fallback: Temperature,
    ) -> (r: RequestParams)
        ensures
            r.reasoning_effort.deep_view() == old(self).request_effort(default_effort.deep_view()),
            r.thinking_mode.deep_view() == old(self).request_thinking(model@),
            r.temperature == old(self).request_temperature(fallback),
            final(self).last_reasoning_effort.deep_view() == r.reasoning_effort.deep_view(),
            final(self).last_thinking_mode.deep_view() == r.thinking_mode.deep_view(),
            *final(self) == (AgentLoop {
                last_reasoning_effort: final(self).last_reasoning_effort,
                last_thinking_mode: final(self).last_thinking_mode,
                ..*old(self)
            }),
    {
        let reasoning_effort = match &self.session.reasoning_effort {
            Some(e) => Some(e.clone()),
            None => default_effort,
        };
        let thinking_mode = match self.core.get_model_capabilities(model) {
            Some(caps) => caps.thinking_mode.clone(),
            None => None,
        };
        let temperature = match self.session.temperature {
            Some(t) => t,
            None => match self.core.overrides.temperature {
                Some(t) => t,
                None => match self.core.manifest_temperature {
                    Some(t) => t,
                    None => fallback,
                },
            },
        };
        self.last_reasoning_effort = match &reasoning_effort {
            Some(e) => Some(e.clone()),
            None => None,
        };
        self.last_thinking_mode = thinking_mode.clone();
        RequestParams { reasoning_effort, thinking_mode, temperature }
    }

    /// The messages of a request: what never changes first, so that a provider
    /// can cache it. The system prompt, the whole history, what changes from
    /// call to call, and the user's message once more where one is staged.
    pub open spec fn request_layout(
        &self,
        system_prompt: Seq<char>,
        dynamic_context: Option<Seq<char>>,
    ) -> Seq<ChatMessageView> {
        seq![ChatMessageView::plain(MessageRole::System, system_prompt)]
            + self.session.history.deep_view() + (match dynamic_context {
            Some(text) => seq![ChatMessageView::plain(MessageRole::User, text)],
            None => Seq::empty(),
        }) + (match self.pending_user_message {
            Some(m) => seq![m.deep_view()],
            None => Seq::empty(),
        })
    }

    /// Lays out the messages of a request.
    pub fn lay_out_request(&self, system_prompt: &str, dynamic_context: Option<&str>) -> (r: Vec<
        ChatMessage,
    >)
        ensures
            r.deep_view() == self.request_layout(
                system_prompt@,
                match dynamic_context {
                    Some(text) => Some(text@),
                    None => None,
                },
            ),
    {
        let mut r: Vec<ChatMessage> = Vec::new();
        r.push(ChatMessage::plain(MessageRole::System, system_prompt.to_owned()));
        let ghost first = seq![ChatMessageView::plain(MessageRole::System, system_prompt@)];
        let ghost history = self.session.history.deep_view();
        assert(r.deep_view() =~= first + history.take(0));
        let mut i: usize = 0;
        while i < self.session.history.len()
            invariant
                i <= self.session.history.len(),
                history == self.session.history.deep_view(),
                r.deep_view() == first + history.take(i as int),
            decreases self.session.history.len() - i,
        {
            let ghost before = r.deep_view();
            let copy = self.session.history[i].clone();
            assert(history[i as int] == copy.deep_view());
            r.push(copy);
            assert(r.deep_view() =~= before.push(history[i as int]));
            assert(r.deep_view() =~= first + history.take(i + 1));
            i = i + 1;
        }
        assert(history.take(i as int) =~= history);
        let ghost stable = r.deep_view();
        match dynamic_context {
            Some(text) => {
                r.push(ChatMessage::user(text.to_owned()));
                assert(r.deep_view() =~= stable + seq![
                    ChatMessageView::plain(MessageRole::User, text@),
                ]);
            },
            None => {
                assert(r.deep_view() =~= stable + Seq::<ChatMessageView>::empty());
            },
        }
        let ghost laid_out = r.deep_view();
        match &self.pending_user_message {
            Some(m) => {
                r.push(m.clone());
                assert(r.deep_view() =~= laid_out + seq![m.deep_view()]);
            },
            None => {
                assert(r.deep_view() =~= laid_out + Seq::<ChatMessageView>::empty());
            },
        }
        r
    }

    /// A request to a model, as it is made for a turn.
    pub open spec fn is_request(
        &self,
        r: ChatRequest,
        model: Seq<char>,
        system_prompt: Seq<char>,
        dynamic_context: Option<Seq<char>>,
        tools: Option<Seq<JsonView>>,
        default_effort: Option<EffortView>,
        fallback: Temperature,
    ) -> bool {
        &&& r.model@ == model
        &&& r.messages.deep_view() == self.request_layout(system_prompt, dynamic_context)
        &&& r.tools.deep_view() == (match (tools, self.core.mcp_tools) {
            (Some(builtin), Some(mcp)) => Some(
                builtin + tool_specs(mcp.deep_view(), mcp.len() as int),
            ),
            (Some(builtin), None) => Some(builtin),
            (None, _) => None,
        })
        &&& r.params.reasoning_effort.deep_view() == self.request_effort(default_effort)
        &&& r.params.thinking_mode.deep_view() == self.request_thinking(model)
        &&& r.params.temperature == self.request_temperature(fallback)
        &&& r.capabilities == self.core.caps(model)
        &&& r.max_output_limit == self.core.output_limit(model)
    }

    /// Builds a request: its messages, the tools that the model may call, how
    /// it is asked to answer, what is known of it and how much it may answer. `tools` are the built-in tools that the
    /// model sees; those of the MCP servers follow them, and a request without
    /// tools gets none.
    pub fn build_chat_request(
        &mut self,
        model: &str,
        system_prompt: &str,
        dynamic_context: Option<&str>,
        tools: Option<Vec<Json>>,
        default_effort: Option<ReasoningEffort>,
        fallback: Temperature,
    ) -> (r: ChatRequest)
        ensures
            old(self).is_request(
                r,
                model@,
                system_prompt@,
                match dynamic_context {
                    Some(text) => Some(text@),
                    None => None,
                },
                tools.deep_view(),
                default_effort.deep_view(),
                fallback,
            ),
            final(self).last_reasoning_effort.deep_view() == r.params.reasoning_effort.deep_view(),
            final(self).last_thinking_mode.deep_view() == r.params.thinking_mode.deep_view(),
            *final(self) == (AgentLoop {
                last_reasoning_effort: final(self).last_reasoning_effort,
                last_thinking_mode: final(self).last_thinking_mode,
                ..*old(self)
            }),
    {
        let params = self.resolve_request_params(model, default_effort, fallback);
        let messages = self.lay_out_request(system_prompt, dynamic_context);
        let tools = match tools {
            Some(mut all) => {
                match &self.core.mcp_tools {
                    Some(mcp) => append_specs(&mut all, mcp),
                    None => {},
                }
                Some(all)
            },
            None => None,
        };
        ChatRequest {
            model: model.to_owned(),
            messages,
            tools,
            params,
            capabilities: self.core.copy_model_capabilities(model),
            max_output_limit: self.core.max_output_tokens_limit_for_model(model),
        }
    }

    /// A request to a model, as it is made again within a turn.
    pub open spec fn is_rebuilt_request(
        &self,
        r: ChatRequest,
        model: Seq<char>,
        system_prompt: Seq<char>,
        dynamic_context: Option<Seq<char>>,
        tools: Option<Seq<JsonView>>,
        temperature: Temperature,
    ) -> bool {
        &&& r.model@ == model
        &&& r.messages.deep_view() == self.request_layout(system_prompt, dynamic_context)
        &&& r.tools.deep_view() == tools
        &&& r.params.reasoning_effort.deep_view() == self.last_reasoning_effort.deep_view()
        &&& r.params.thinking_mode.deep_view() == self.last_thinking_mode.deep_view()
        &&& r.params.temperature == temperature
        &&& r.capabilities == self.core.caps(model)
        &&& r.max_output_limit == self.core.output_limit(model)
    }

    /// Builds a request once more after the history was compacted because the
    /// first one did not fit: the same staged message at its end, and the
    /// effort and the mode of the first one. `tools` and `temperature` are
    /// those of the builder.
    pub fn rebuild_request(
        &self,
        model: &str,
        system_prompt: &str,
        dynamic_context: Option<&str>,
        tools: Option<Vec<Json>>,
        temperature: Temperature,
    ) -> (r: ChatRequest)
        ensures
            r.tools == tools,
            self.is_rebuilt_request(
                r,
                model@,
                system_prompt@,
                match dynamic_context {
                    Some(text) => Some(text@),
                    None => None,
                },
                tools.deep_view(),
                temperature,
            ),
    {
        let messages = self.lay_out_request(system_prompt, dynamic_context);
        let reasoning_effort = match &self.last_reasoning_effort {
            Some(e) => Some(e.clone()),
            None => None,
        };
        ChatRequest {
            model: model.to_owned(),
            messages,
            tools,
            params: RequestParams {
                reasoning_effort,
                thinking_mode: self.last_thinking_mode.clone(),
                temperature,
            },
            capabilities: self.core.copy_model_capabilities(model),
            max_output_limit: self.core.max_output_tokens_limit_for_model(model),
        }
    }

    /// Finishes a request of `input_chars` characters: notes its size, and
    /// appends the tool results that the model sees only once.
    pub fn finish_chat_request(&mut self, messages: &mut Vec<ChatMessage>, input_chars: u64)
        ensures
            final(messages).deep_view() == old(messages).deep_view() + old(
                self,
            ).pending_transient_tool_msgs.deep_view(),
            final(self).last_input_chars == input_chars,
            final(self).pending_transient_tool_msgs.deep_view() == Seq::<ChatMessageView>::empty(),
            *final(self) == (AgentLoop {
                last_input_chars: final(self).last_input_chars,
                pending_transient_tool_msgs: final(self).pending_transient_tool_msgs,
                ..*old(self)
            }),
    {
        self.last_input_chars = input_chars;
        messages.append(&mut self.pending_transient_tool_msgs);
        proof {
            assert(messages.deep_view() =~= old(messages).deep_view() + old(
                self,
            ).pending_transient_tool_msgs.deep_view());
            assert(self.pending_transient_tool_msgs.deep_view() =~= Seq::empty());
        }
    }
}

/// The specs of the first `n` tools.
pub open spec fn tool_specs(tools: Seq<ToolDefView>, n: int) -> Seq<JsonView>
    decreases n,
{
    if n <= 0 {
        Seq::empty()
    } else {
        tool_specs(tools, n - 1).push(tools[n - 1].spec)
    }
}

fn append_specs(all: &mut Vec<Json>, tools: &Vec<ToolDef>)
    ensures
        final(all).deep_view() == old(all).deep_view() + tool_specs(
            tools.deep_view(),
            tools.len() as int,
        ),
{
    let ghost before = all.deep_view();
    let ghost list = tools.deep_view();
    let mut i: usize = 0;
    assert(before + tool_specs(list, 0) =~= before);
    while i < tools.len()
        invariant
            i <= tools.len(),
            list == tools.deep_view(),
            all.deep_view() == before + tool_specs(list, i as int),
        decreases tools.len() - i,
    {
        let ghost at = all.deep_view();
        assert(list[i as int] == tools@[i as int].deep_view());
        all.push(tools[i].spec.clone());
        assert(all.deep_view() =~= at.push(list[i as int].spec));
        assert(all.deep_view() =~= before + tool_specs(list, i + 1));
        i = i + 1;
    }
}

// ── Usage of a response ─────────────────────────────────────────────────

/// The ids of the models of one provider.
pub open spec fn model_ids(models: Seq<ProviderModelEntry>) -> Seq<Seq<char>> {
    models.map_values(|m: ProviderModelEntry| m.id@)
}

/// The ids of all models, provider by provider.
pub open spec fn all_model_ids(list: Seq<ProviderListItem>) -> Seq<Seq<char>>
    decreases list.len(),
{
    if list.len() == 0 {
        Seq::empty()
    } else {
        all_model_ids(list.drop_last()) + model_ids(list.last().models@)
    }
}

fn list_model_ids(list: &Vec<ProviderListItem>) -> (r: Vec<String>)
    ensures
        r.deep_view() == all_model_ids(list@),
{
    let mut r: Vec<String> = Vec::new();
    let mut i: usize = 0;
    assert(r.deep_view() =~= all_model_ids(list@.take(0)));
    while i < list.len()
        invariant
            i <= list.len(),
            r.deep_view() == all_model_ids(list@.take(i as int)),
        decreases list.len() - i,
    {
        let ghost before = r.deep_view();
        let models = &list[i].models;
        let mut k: usize = 0;
        assert(r.deep_view() =~= before + model_ids(models@.take(0)));
        while k < models.len()
            invariant
                k <= models.len(),
                r.deep_view() == before + model_ids(models@.take(k as int)),
            decreases models.len() - k,
        {
            let ghost now = r.deep_view();
            r.push(models[k].id.clone());
            assert(r.deep_view() =~= now.push(models@[k as int].id@));
            assert(model_ids(models@.take(k + 1)) =~= model_ids(models@.take(k as int)).push(
                models@[k as int].id@,
            ));
            k = k + 1;
        }
        assert(models@.take(models.len() as int) =~= models@);
        assert(list@.take(i + 1).drop_last() =~= list@.take(i as int));
        i = i + 1;
    }
    assert(list@.take(list.len() as int) =~= list@);
    r
}

/// What the user is told when nothing is known of a model.
pub open spec fn missing_caps_message(model: Seq<char>, available: Seq<char>) -> Seq<char> {
    "Model capabilities not found for '"@ + model + "'. Available: "@ + available
        + ". Check that the model name matches exactly (case-sensitive). Context usage display and compaction accuracy may be affected."@
}

/// What is known beside a response when its usage is processed.
#[derive(Clone, Copy, Debug, PartialEq, Eq, Structural)]
pub struct UsageFacts {
    /// The size of the history, as counted here.
    pub local_estimate: u64,
    /// The token ratio after calibration, as the bits of its double-precision
    /// value.
    pub ratio_bits: Option<u64>,
    /// The report that the provider's own counts give.
    pub measured: ContextUsageInfo,
    /// What the model leaves for input next to its output.
    pub input_budget: u64,
    /// The share of the local estimate in the usable context.
    pub estimate_percent: u8,
    /// The totals once this response is counted.
    pub totals: UsageTotals,
}

/// Whether a provider counted the prompt. Where it did not, the count of the
/// history is not calibrated by it.
pub fn prompt_tokens_reliable(usage: &UsageInfo) -> (r: bool)
    ensures
        r == (usage.prompt_tokens > 0),
{
    usage.prompt_tokens > 0
}

impl AgentLoop {
    /// The report on a response: by the provider's counts where it counted the
    /// prompt, else by the local estimate; with the totals of the session
    /// where it has a log, and those of the agent.
    pub open spec fn response_report(
        &self,
        caps: ModelCapabilitiesInfo,
        usage: UsageInfo,
        facts: UsageFacts,
    ) -> ContextUsageInfo {
        let base = if usage.prompt_tokens > 0 {
            facts.measured
        } else {
            ContextUsageInfo {
                total_input_tokens: None,
                total_output_tokens: None,
                ..usage_report(
                    caps,
                    self.effective_window(caps),
                    self.effective_usable(caps, facts.input_budget),
                    facts.local_estimate,
                    usage.completion_tokens,
                    facts.estimate_percent,
                    facts.totals,
                )
            }
        };
        let counted = self.session.conversation is Some && facts.totals.session_input is Some
            && facts.totals.session_output is Some;
        ContextUsageInfo {
            total_input_tokens: if counted {
                facts.totals.session_input
            } else {
                base.total_input_tokens
            },
            total_output_tokens: if counted {
                facts.totals.session_output
            } else {
                base.total_output_tokens
            },
            agent_total_input_tokens: Some(facts.totals.agent_input),
            agent_total_output_tokens: Some(facts.totals.agent_output),
            ..base
        }
    }

    /// The state once the tokens of a response were counted.
    pub open spec fn usage_counted(
        before: AgentLoop,
        after: AgentLoop,
        usage: UsageInfo,
        model: Seq<char>,
        facts: UsageFacts,
    ) -> bool {
        &&& after.session.model_ratio_bits == (if usage.prompt_tokens > 0 && facts.ratio_bits
            is Some {
            facts.ratio_bits
        } else {
            before.session.model_ratio_bits
        })
        &&& match before.core.caps(model) {
            Some(caps) => {
                &&& after.session.conversation.deep_view() == (match before.session.conversation {
                    Some(c) => Some(
                        c.deep_view().with_op(crate::conversation::OpView::AccumulateUsage(usage)),
                    ),
                    None => None,
                })
                &&& after.session_core.outbox.deep_view()
                    == before.session_core.outbox.deep_view().push(
                    ChunkView::AgentUsage(usage),
                ).push(ChunkView::ContextUsage(before.response_report(caps, usage, facts)))
            },
            None => {
                &&& after.session.conversation == before.session.conversation
                &&& after.session_core.outbox.deep_view()
                    == before.session_core.outbox.deep_view().push(
                    ChunkView::Error {
                        user_message: missing_caps_message(
                            model,
                            debug_list_text(all_model_ids(before.core.global_provider_list@)),
                        ),
                        detail: Seq::empty(),
                        error_type: "ContextOverflow"@,
                        message_id: "caps-missing-"@ + model,
                    },
                )
            },
        }
    }

    /// Process the usage of a response, once the history is calibrated: keep
    /// the calibrated ratio, count the call and report how full the context
    /// is; where nothing is known of the model, tell the user so. Returns the
    /// tokens that the call counts against the budget; the history has to be
    /// checked for a summary. A response without usage asks for neither.
    pub fn process_llm_response_usage(
        &mut self,
        response: &ChatResponse,
        current_model: &str,
        facts: &UsageFacts,
    ) -> (spent: Option<u64>)
        requires
            match response.usage {
                Some(u) => u.prompt_tokens == 0 && old(self).core.caps(current_model@) is Some
                    ==> facts.local_estimate + u.completion_tokens <= u64::MAX,
                None => true,
            },
        ensures
            spent == (match response.usage {
                Some(usage) => Some(usage.total_tokens),
                None => None,
            }),
            match response.usage {
                Some(usage) => Self::usage_counted(
                    *old(self),
                    *final(self),
                    usage,
                    current_model@,
                    *facts,
                ),
                None => *final(self) == *old(self),
            },
            *final(self) == (AgentLoop {
                session: SessionState {
                    model_ratio_bits: final(self).session.model_ratio_bits,
                    conversation: final(self).session.conversation,
                    ..old(self).session
                },
                session_core: SessionCore {
                    outbox: final(self).session_core.outbox,
                    ..old(self).session_core
                },
                ..*old(self)
            }),
    {
        let usage = match response.usage {
            Some(u) => u,
            None => {
                return None;
            },
        };
        let reliable = prompt_tokens_reliable(&usage);
        if reliable && facts.ratio_bits.is_some() {
            self.session.model_ratio_bits = facts.ratio_bits;
        }
        let report = match self.effective_context_budget(current_model, facts.input_budget) {
            Some((caps, window, usable)) => {
                let base = if reliable {
                    facts.measured
                } else {
                    let estimate = make_report(
                        caps,
                        window,
                        usable,
                        facts.local_estimate,
                        usage.completion_tokens,
                        facts.estimate_percent,
                        facts.totals,
                    );
                    ContextUsageInfo {
                        total_input_tokens: None,
                        total_output_tokens: None,
                        ..estimate
                    }
                };
                let counted = self.session.conversation.is_some()
                    && facts.totals.session_input.is_some()
                    && facts.totals.session_output.is_some();
                Some(
                    ContextUsageInfo {
                        total_input_tokens: if counted {
                            facts.totals.session_input
                        } else {
                            base.total_input_tokens
                        },
                        total_output_tokens: if counted {
                            facts.totals.session_output
                        } else {
                            base.total_output_tokens
                        },
                        agent_total_input_tokens: Some(facts.totals.agent_input),
                        agent_total_output_tokens: Some(facts.totals.agent_output),
                        ..base
                    },
                )
            },
            None => None,
        };
        match report {
            Some(info) => {
                match self.session.conversation.take() {
                    Some(mut conversation) => {
                        conversation.push_op(
                            crate::conversation::ConversationOp::AccumulateUsage(usage),
                        );
                        self.session.conversation = Some(conversation);
                    },
                    None => {},
                }
                self.session_core.send(ChunkEvent::AgentUsage(usage));
                self.session_core.send(ChunkEvent::ContextUsage(info));
            },
            None => {
                let available = list_model_ids(&self.core.global_provider_list);
                let mut message = "Model capabilities not found for '".to_owned();
                message.append(current_model);
                message.append("'. Available: ");
                message.append(debug_list(&available).as_str());
                message.append(
                    ". Check that the model name matches exactly (case-sensitive). Context usage display and compaction accuracy may be affected.",
                );
                let detail = String::new();
                assert(detail@ =~= Seq::empty());
                self.session_core.send(
                    ChunkEvent::Error {
                        user_message: message,
                        detail,
                        error_type: "ContextOverflow".to_owned(),
                        message_id: crate::text::join2("caps-missing-", current_model),
                    },
                );
            },
        }
        Some(usage.total_tokens)
    }
}

// ── Laws ────────────────────────────────────────────────────────────────

/// The thresholds are ordered: who is over a higher one is over the lower
/// ones.
pub proof fn thresholds_are_ordered(tokens: int, budget: u64)
    ensures
        reaches(tokens, CONTEXT_CRITICAL_PERCENT, budget) ==> reaches(
            tokens,
            CONTEXT_COMPACT_PERCENT,
            budget,
        ),
        exceeds(tokens, CONTEXT_HARD_PERCENT, budget) ==> exceeds(
            tokens,
            CONTEXT_WARN_PERCENT,
            budget,
        ),
        exceeds(tokens, CONTEXT_CRITICAL_PERCENT, budget) ==> exceeds(
            tokens,
            CONTEXT_HARD_PERCENT,
            budget,
        ),
{
}

/// What is shown never exceeds what the model has: the window is at most the
/// model's and the user's cap, and what can be used of it is at most the
/// window and what the model leaves for input.
pub proof fn shown_budget_is_clamped(l: AgentLoop, caps: ModelCapabilitiesInfo, input_budget: u64)
    ensures
        l.effective_window(caps) <= caps.context_window,
        l.core.overrides.context_window matches Some(cap) ==> cap == 0 || l.effective_window(caps)
            <= cap,
        l.effective_usable(caps, input_budget) <= l.effective_window(caps),
        l.effective_usable(caps, input_budget) <= input_budget,
{
}

/// A staged user message stands in a request twice, in the history and at its
/// end, word for word; where none is staged, the request ends with what the
/// history or the changing part ends with.
pub proof fn staged_message_ends_the_request(
    agent_loop: AgentLoop,
    system_prompt: Seq<char>,
    dynamic_context: Option<Seq<char>>,
)
    ensures
        ({
            let r = agent_loop.request_layout(system_prompt, dynamic_context);
            let history = agent_loop.session.history.deep_view();
            &&& r[0] == ChatMessageView::plain(MessageRole::System, system_prompt)
            &&& r.subrange(1, 1 + history.len() as int) == history
            &&& agent_loop.pending_user_message matches Some(m) ==> r.last() == m.deep_view()
            &&& agent_loop.pending_user_message is None && dynamic_context is None
                && history.len() > 0 ==> r.last() == history.last()
            &&& dynamic_context matches Some(text) ==> r[1 + history.len() as int]
                == ChatMessageView::plain(MessageRole::User, text)
        }),
{
    let r = agent_loop.request_layout(system_prompt, dynamic_context);
    let history = agent_loop.session.history.deep_view();
    assert(r.subrange(1, 1 + history.len() as int) =~= history);
}

/// Which temperature a request has: that of the session where it has one,
/// whatever the agent and the package say; else that of the agent; else that of
/// the package; else the fallback.
pub proof fn sessions_set_their_temperature(l: AgentLoop, t: Temperature, fallback: Temperature)
    ensures
        l.session.temperature == Some(t) ==> l.request_temperature(fallback) == t,
        l.session.temperature is None && l.core.overrides.temperature == Some(t)
            ==> l.request_temperature(fallback) == t,
        l.session.temperature is None && l.core.overrides.temperature is None
            && l.core.manifest_temperature == Some(t) ==> l.request_temperature(fallback) == t,
        l.session.temperature is None && l.core.overrides.temperature is None
            && l.core.manifest_temperature is None ==> l.request_temperature(fallback) == fallback,
{
}

/// Which effort a request asks for: that of the session where it has one, else
/// the model's default; and which mode of thinking: that of the model, where it
/// is known.
pub proof fn sessions_set_their_effort(
    l: AgentLoop,
    effort: ReasoningEffort,
    default_effort: Option<EffortView>,
    model: Seq<char>,
)
    ensures
        l.session.reasoning_effort == Some(effort) ==> l.request_effort(default_effort) == Some(
            effort.deep_view(),
        ),
        l.session.reasoning_effort is None ==> l.request_effort(default_effort) == default_effort,
        l.core.caps(model) is None ==> l.request_thinking(model) is None,
        l.core.caps(model) matches Some(caps) ==> match caps.thinking_mode {
            Some(mode) => l.request_thinking(model) == Some(mode@),
            None => l.request_thinking(model) is None,
        },
{
}

/// A request holds the system prompt, the history, what changes and the staged
/// message, each where there is one, and nothing else.
pub proof fn requests_hold_nothing_else(
    l: AgentLoop,
    system_prompt: Seq<char>,
    dynamic_context: Option<Seq<char>>,
)
    ensures
        l.request_layout(system_prompt, dynamic_context).len() == 1 + l.session.history.len() + (
        if dynamic_context is Some {
            1int
        } else {
            0
        }) + (if l.pending_user_message is Some {
            1int
        } else {
            0
        }),
{
    assert(l.session.history.deep_view().len() == l.session.history.len());
}

/// The specs of the tools stand in the order of the tools, one for each.
pub proof fn specs_follow_the_tools(tools: Seq<ToolDefView>, n: int)
    requires
        0 <= n <= tools.len(),
    ensures
        tool_specs(tools, n).len() == n,
        forall|i: int| 0 <= i < n ==> #[trigger] tool_specs(tools, n)[i] == tools[i].spec,
    decreases n,
{
    if n > 0 {
        specs_follow_the_tools(tools, n - 1);
    }
}

/// Where the thresholds lie: history is trimmed before large results above
/// seven tenths, summarised from four fifths on, cut down before a call above
/// nine tenths, and even after a summary from nineteen twentieths on.
pub proof fn thresholds_lie_where_they_should(tokens: int, budget: u64)
    ensures
        exceeds(tokens, CONTEXT_WARN_PERCENT, budget) <==> 10 * tokens > 7 * budget,
        reaches(tokens, CONTEXT_COMPACT_PERCENT, budget) <==> 5 * tokens >= 4 * budget,
        exceeds(tokens, CONTEXT_HARD_PERCENT, budget) <==> 10 * tokens > 9 * budget,
        reaches(tokens, CONTEXT_CRITICAL_PERCENT, budget) <==> 20 * tokens >= 19 * budget,
        KEEP_LAST_ROUNDS == 3,
{
}

/// The sum of token counts is what adding them one by one gives, in any
/// grouping.
pub proof fn token_counts_add_up(a: Seq<u64>, b: Seq<u64>, n: u64)
    ensures
        total_tokens(Seq::<u64>::empty()) == 0,
        total_tokens(a.push(n)) == total_tokens(a) + n,
        total_tokens(a + b) == total_tokens(a) + total_tokens(b),
    decreases b.len(),
{
    assert(a.push(n).drop_last() =~= a);
    if b.len() == 0 {
        assert(a + b =~= a);
    } else {
        token_counts_add_up(a, b.drop_last(), n);
        assert((a + b).drop_last() =~= a + b.drop_last());
        assert((a + b).last() == b.last());
    }
}

/// The shown window is the smaller of the model's and the user's cap, where
/// that is set; what can be used of it is the smaller of the window and what
/// the model leaves for input.
pub proof fn shown_budget_is_the_smaller(
    l: AgentLoop,
    caps: ModelCapabilitiesInfo,
    input_budget: u64,
)
    ensures
        l.effective_window(caps) == caps.context_window || l.core.overrides.context_window == Some(
            l.effective_window(caps),
        ),
        l.core.overrides.context_window is None || l.core.overrides.context_window == Some(0u64)
            ==> l.effective_window(caps) == caps.context_window,
        l.effective_window(caps) == 0 ==> caps.context_window == 0,
        l.effective_usable(caps, input_budget) == l.effective_window(caps) || l.effective_usable(
            caps,
            input_budget,
        ) == input_budget,
{
}

/// A report shows the size of the history as input, the answer as output, and
/// both together as the total, with the totals so far.
pub proof fn reports_show_what_was_counted(
    caps: ModelCapabilitiesInfo,
    window: u64,
    usable: u64,
    tokens: u64,
    output: u64,
    percent: u8,
    totals: UsageTotals,
)
    requires
        tokens + output <= u64::MAX,
    ensures
        ({
            let r = usage_report(caps, window, usable, tokens, output, percent, totals);
            &&& r.input_tokens == tokens
            &&& r.output_tokens == output
            &&& r.total_tokens == r.input_tokens + r.output_tokens
            &&& r.context_window == window
            &&& r.usable_context == usable
            &&& r.usage_percent == percent
            &&& r.max_input_tokens == caps.max_input_tokens
            &&& r.total_input_tokens == totals.session_input
            &&& r.total_output_tokens == totals.session_output
            &&& r.agent_total_input_tokens == Some(totals.agent_input)
            &&& r.agent_total_output_tokens == Some(totals.agent_output)
        }),
{
}

/// A response is reported by the provider's own counts where it counted the
/// prompt, else by the local estimate; the agent's totals stand in every report,
/// the session's where it has a log that counts.
pub proof fn responses_are_reported_by_what_is_reliable(
    l: AgentLoop,
    caps: ModelCapabilitiesInfo,
    usage: UsageInfo,
    facts: UsageFacts,
)
    requires
        facts.local_estimate + usage.completion_tokens <= u64::MAX,
    ensures
        ({
            let r = l.response_report(caps, usage, facts);
            &&& r.agent_total_input_tokens == Some(facts.totals.agent_input)
            &&& r.agent_total_output_tokens == Some(facts.totals.agent_output)
            &&& usage.prompt_tokens > 0 ==> {
                &&& r.input_tokens == facts.measured.input_tokens
                &&& r.output_tokens == facts.measured.output_tokens
                &&& r.total_tokens == facts.measured.total_tokens
                &&& r.context_window == facts.measured.context_window
                &&& r.usable_context == facts.measured.usable_context
                &&& r.usage_percent == facts.measured.usage_percent
                &&& r.max_input_tokens == facts.measured.max_input_tokens
            }
            &&& usage.prompt_tokens == 0 ==> {
                &&& r.input_tokens == facts.local_estimate
                &&& r.output_tokens == usage.completion_tokens
                &&& r.total_tokens == facts.local_estimate + usage.completion_tokens
                &&& r.context_window == l.effective_window(caps)
                &&& r.usable_context == l.effective_usable(caps, facts.input_budget)
                &&& r.usage_percent == facts.estimate_percent
                &&& r.max_input_tokens == caps.max_input_tokens
            }
            &&& l.session.conversation is Some && facts.totals.session_input is Some
                && facts.totals.session_output is Some ==> r.total_input_tokens
                == facts.totals.session_input && r.total_output_tokens
                == facts.totals.session_output
            &&& l.session.conversation is None && usage.prompt_tokens == 0
                ==> r.total_input_tokens is None && r.total_output_tokens is None
        }),
{
}

/// The user is shown every model that some provider lists, and no other, in the
/// order of the providers and of their lists.
pub proof fn every_listed_model_is_named(a: Seq<ProviderListItem>, p: ProviderListItem, k: int)
    ensures
        all_model_ids(a.push(p)).len() == all_model_ids(a).len() + p.models.len(),
        all_model_ids(a).is_prefix_of(all_model_ids(a.push(p))),
        0 <= k < p.models.len() ==> all_model_ids(a.push(p))[all_model_ids(a).len() + k]
            == p.models@[k].id@,
        all_model_ids(Seq::<ProviderListItem>::empty()).len() == 0,
{
    assert(a.push(p).drop_last() =~= a);
}

/// A request goes to the model with what is known of it: the prompt, the history
/// and the rest as they are laid out, the model's own limit, and the tools of
/// the runtime before those of the servers; without tools of the runtime there
/// are none.
pub proof fn requests_hold_what_the_turn_needs(
    l: AgentLoop,
    r: ChatRequest,
    model: Seq<char>,
    system_prompt: Seq<char>,
    dynamic_context: Option<Seq<char>>,
    tools: Option<Seq<JsonView>>,
    default_effort: Option<EffortView>,
    fallback: Temperature,
)
    requires
        l.is_request(
            r,
            model,
            system_prompt,
            dynamic_context,
            tools,
            default_effort,
            fallback,
        ),
    ensures
        r.model@ == model,
        r.messages.deep_view().len() > l.session.history.deep_view().len(),
        r.messages.deep_view()[0].role == MessageRole::System,
        r.messages.deep_view()[0].content == system_prompt,
        r.messages.deep_view().subrange(1, 1 + l.session.history.deep_view().len() as int)
            == l.session.history.deep_view(),
        l.session.temperature matches Some(t) ==> r.params.temperature == t,
        l.session.reasoning_effort matches Some(e) ==> r.params.reasoning_effort.deep_view()
            == Some(e.deep_view()),
        find_model(l.core.global_provider_list@, model, 0) matches Some(entry) ==> r.capabilities
            == Some(entry.capabilities) && r.max_output_limit == Some(
            entry.max_output_tokens_limit,
        ),
        find_model(l.core.global_provider_list@, model, 0) is None ==> r.capabilities is None
            && r.max_output_limit is None,
        tools is None ==> r.tools is None,
        tools matches Some(builtin) ==> {
            &&& r.tools is Some
            &&& r.tools.deep_view()->0.len() == builtin.len() + (match l.core.mcp_tools {
                Some(mcp) => mcp.len() as int,
                None => 0,
            })
            &&& r.tools.deep_view()->0.take(builtin.len() as int) == builtin
            &&& l.core.mcp_tools matches Some(mcp) ==> forall|i: int|
                0 <= i < mcp.len() ==> #[trigger] r.tools.deep_view()->0[builtin.len() + i]
                    == mcp.deep_view()[i].spec
        },
{
    staged_message_ends_the_request(l, system_prompt, dynamic_context);
    requests_hold_nothing_else(l, system_prompt, dynamic_context);
    match (tools, l.core.mcp_tools) {
        (Some(builtin), Some(mcp)) => {
            specs_follow_the_tools(mcp.deep_view(), mcp.len() as int);
            assert(r.tools.deep_view()->0.take(builtin.len() as int) =~= builtin);
        },
        (Some(builtin), None) => {
            assert(r.tools.deep_view()->0.take(builtin.len() as int) =~= builtin);
        },
        _ => {},
    }
}

/// A request that is made again asks for what the first one did: the same effort
/// and way of thinking, the same tools, the temperature that it is given; and it
/// holds the history as it is by then.
pub proof fn rebuilt_requests_ask_the_same(
    l: AgentLoop,
    first: ChatRequest,
    r: ChatRequest,
    model: Seq<char>,
    system_prompt: Seq<char>,
    dynamic_context: Option<Seq<char>>,
    tools: Option<Seq<JsonView>>,
    temperature: Temperature,
)
    requires
        l.last_reasoning_effort.deep_view() == first.params.reasoning_effort.deep_view(),
        l.last_thinking_mode.deep_view() == first.params.thinking_mode.deep_view(),
        l.is_rebuilt_request(
            r,
            model,
            system_prompt,
            dynamic_context,
            tools,
            temperature,
        ),
    ensures
        r.model@ == model,
        r.params.reasoning_effort.deep_view() == first.params.reasoning_effort.deep_view(),
        r.params.thinking_mode.deep_view() == first.params.thinking_mode.deep_view(),
        r.params.temperature == temperature,
        r.tools.deep_view() == tools,
        r.messages.deep_view()[0].content == system_prompt,
        r.messages.deep_view().subrange(1, 1 + l.session.history.deep_view().len() as int)
            == l.session.history.deep_view(),
        r.capabilities == l.core.caps(model),
        r.max_output_limit == l.core.output_limit(model),
{
    staged_message_ends_the_request(l, system_prompt, dynamic_context);
}

/// How full the context is, is told where the model is known, with the counts
/// that were taken and no output.
pub proof fn histories_are_reported(
    l: AgentLoop,
    outbox: Seq<ChunkView>,
    model: Seq<char>,
    input_budget: u64,
    tokens: u64,
    percent: u8,
    totals: UsageTotals,
)
    ensures
        ({
            let sent = l.with_history_report(outbox, model, input_budget, tokens, percent, totals);
            &&& l.core.caps(model) is None ==> sent == outbox
            &&& l.core.caps(model) matches Some(caps) ==> {
                &&& sent.len() == outbox.len() + 1
                &&& sent.drop_last() == outbox
                &&& sent.last() is ContextUsage
                &&& sent.last()->ContextUsage_0.input_tokens == tokens
                &&& sent.last()->ContextUsage_0.output_tokens == 0
                &&& sent.last()->ContextUsage_0.usage_percent == percent
                &&& sent.last()->ContextUsage_0.context_window == l.effective_window(caps)
                &&& sent.last()->ContextUsage_0.usable_context == l.effective_usable(
                    caps,
                    input_budget,
                )
            }
        }),
{
    let sent = l.with_history_report(outbox, model, input_budget, tokens, percent, totals);
    if l.core.caps(model) is Some {
        assert(sent.drop_last() =~= outbox);
    }
}

/// What a response cost is counted in the log and told, first the cost, then the
/// context, where the model is known; else the user is told that it is not. The
/// count of the history is calibrated only by a prompt that was counted.
pub proof fn costs_are_counted_and_told(
    before: AgentLoop,
    after: AgentLoop,
    usage: UsageInfo,
    model: Seq<char>,
    facts: UsageFacts,
)
    requires
        AgentLoop::usage_counted(before, after, usage, model, facts),
    ensures
        ({
            let had = before.session_core.outbox.deep_view();
            let sent = after.session_core.outbox.deep_view();
            let n = had.len() as int;
            &&& usage.prompt_tokens == 0 || facts.ratio_bits is None
                ==> after.session.model_ratio_bits == before.session.model_ratio_bits
            &&& usage.prompt_tokens > 0 && facts.ratio_bits is Some
                ==> after.session.model_ratio_bits == facts.ratio_bits
            &&& before.core.caps(model) is Some ==> {
                &&& sent.len() == n + 2
                &&& sent[n] == ChunkView::AgentUsage(usage)
                &&& sent[n + 1] is ContextUsage
                &&& before.session.conversation matches Some(c)
                    ==> after.session.conversation.deep_view() == Some(
                    c.deep_view().with_op(crate::conversation::OpView::AccumulateUsage(usage)),
                )
            }
            &&& before.core.caps(model) is None ==> {
                &&& sent.len() == n + 1
                &&& sent[n] is Error
                &&& sent[n]->error_type == "ContextOverflow"@
                &&& sent[n]->Error_message_id == "caps-missing-"@ + model
                &&& sent[n]->detail.len() == 0
                &&& after.session.conversation == before.session.conversation
            }
        }),
{
}

/// The user is told which model is not known, and which are.
pub proof fn unknown_models_are_named(model: Seq<char>, available: Seq<char>)
    ensures
        missing_caps_message(model, available) == "Model capabilities not found for '"@ + model
            + "'. Available: "@ + available
            + ". Check that the model name matches exactly (case-sensitive). Context usage display and compaction accuracy may be affected."@,
{
}

} // verus!
