//! Which model summarises, and the compaction that asks it.

use acowork_runtime::close::{CloseStep, TailAction, TailEvent};
use acowork_runtime::compaction::{CompactAction, CompactEvent, CompactPhase, Compaction};
use acowork_runtime::conversation::{ConversationOp, ConversationSession};
use acowork_runtime::distill::{DistillTier, ProviderChoice};
use acowork_runtime::error::{RuntimeError, SummaryError};
use acowork_runtime::message::{ChatMessage, MessageRole, UsageInfo};
use acowork_runtime::session::ChunkEvent;
use acowork_runtime::session_config::SessionConfigSnapshot;
use acowork_runtime::agent_loop::{AgentCore, AgentLoop};
use acowork_runtime::model::{ModelCapabilitiesInfo, ProviderListItem, ProviderModelEntry};
use acowork_runtime::overrides::RuntimeConfigOverrides;
use acowork_runtime::session::{SessionCore, SessionSnapshot, SessionState, SessionStatus};
use acowork_runtime::str_map::StrMap;

fn caps(context_window: u64) -> ModelCapabilitiesInfo {
    ModelCapabilitiesInfo {
        context_window,
        max_output_tokens: 4096,
        max_input_tokens: None,
        supports_tool_calling: true,
        supports_reasoning: None,
        supports_attachment: None,
        supports_temperature: None,
        name: None,
        family: None,
        knowledge_cutoff: None,
        default_reasoning_effort: None,
        thinking_mode: None,
    }
}

fn build_core() -> AgentCore {
    AgentCore {
        agent_id: "com.test.compact".to_string(),
        work_dir: "/work".to_string(),
        max_sessions: 10,
        model: "deepseek-v4-flash".to_string(),
        global_provider_list: Vec::new(),
        provider_list_version: 0,
        provider_key_vault: StrMap::new(),
        provider_compact_models: StrMap::new(),
        default_compact_model: None,
        search_key_vault: StrMap::new(),
        search_provider_list: Vec::new(),
        overrides: RuntimeConfigOverrides::default(),
        manifest_temperature: None,
        compaction_prompt: None,
        builtin_tools: Vec::new(),
        platform_tools: Vec::new(),
        mcp_tools: None,
        memory_store: None,
    }
}

fn build_loop() -> AgentLoop {
    AgentLoop {
        core: build_core(),
        session: SessionState {
            status: SessionStatus::Idle,
            model: None,
            provider: None,
            temperature: None,
            reasoning_effort: None,
            model_ratio_bits: None,
            history: Vec::new(),
            conversation: None,
            is_compacted: false,
            identity_context: None,
            todos: Vec::new(),
            snapshot: SessionSnapshot {
                session_id: String::new(),
                status: String::new(),
                model: None,
                provider: None,
                ratio_bits: None,
                todos_json: None,
                context_usage: None,
            },
        },
        session_core: SessionCore {
            session_id: None,
            title: None,
            streaming_flush_count: 0,
            next_seq: 0,
            outbox: Vec::new(),
        },
        pending_user_message: None,
        pending_transient_tool_msgs: Vec::new(),
        last_reasoning_effort: None,
        last_thinking_mode: None,
        last_input_chars: 0,
        memory_retrieved_for_session: false,
    }
}

fn entry(id: &str, window: u64, limit: u64) -> ProviderModelEntry {
    ProviderModelEntry { id: id.to_string(), capabilities: caps(window), max_output_tokens_limit: limit }
}

fn seed_providers(loop_: &mut AgentLoop) {
    loop_.core.global_provider_list = vec![
        ProviderListItem {
            id: "deepseek".to_string(),
            base_url: "https://api.deepseek.com/v1".to_string(),
            local: false,
            compact_model: Some("deepseek-v4-flash".to_string()),
            custom: false,
            models: vec![
                entry("deepseek-v4-flash", 128_000, 32_768),
                entry("deepseek-v4-pro", 128_000, 32_768),
            ],
        },
        ProviderListItem {
            id: "ollama-local".to_string(),
            base_url: "http://localhost:11434/v1".to_string(),
            local: true,
            compact_model: None,
            custom: false,
            models: vec![
                entry("qwen2.5:0.5b", 32_000, 16_384),
                entry("llama3:8b", 8_000, 8_192),
            ],
        },
    ];
    // Only the cloud provider has a key; the local one needs none.
    loop_.core.provider_key_vault.insert("deepseek".to_string(), "sk-test-deepseek".to_string());
}

fn set_session(loop_: &mut AgentLoop, provider: &str, model: &str) {
    loop_.session.provider = Some(provider.to_string());
    loop_.session.model = Some(model.to_string());
}

fn set_provider_compact(loop_: &mut AgentLoop, provider: &str, compact: Option<&str>) {
    loop_
        .core
        .provider_compact_models
        .insert(provider.to_string(), compact.map(|s| s.to_string()));
}

/// A token for every four characters.
fn estimate(text: &str) -> u64 {
    text.len() as u64 / 4
}

fn usage() -> UsageInfo {
    UsageInfo { prompt_tokens: 50, completion_tokens: 25, total_tokens: 75, reasoning_tokens: 0 }
}

#[test]
fn tier1_global_default_is_picked_when_set_and_available() {
    let mut loop_ = build_loop();
    seed_providers(&mut loop_);
    set_session(&mut loop_, "deepseek", "deepseek-v4-pro");
    set_provider_compact(&mut loop_, "deepseek", Some("deepseek-v4-flash"));

    loop_.core.default_compact_model =
        Some(("ollama-local".to_string(), "qwen2.5:0.5b".to_string()));

    let resolved = loop_.resolve_distill_model(estimate("hello world"));
    assert_eq!(resolved.provider_id, "ollama-local");
    assert_eq!(resolved.model_id, "qwen2.5:0.5b");
    assert!(matches!(resolved.tier, DistillTier::GlobalDefault));
}

#[test]
fn tier1_global_default_falls_through_when_provider_unavailable() {
    let mut loop_ = build_loop();
    seed_providers(&mut loop_);
    set_session(&mut loop_, "deepseek", "deepseek-v4-pro");
    set_provider_compact(&mut loop_, "deepseek", Some("deepseek-v4-flash"));

    loop_.core.default_compact_model =
        Some(("mistral".to_string(), "mistral-small".to_string()));

    let resolved = loop_.resolve_distill_model(estimate("hello world"));
    assert_eq!(resolved.provider_id, "deepseek");
    assert_eq!(resolved.model_id, "deepseek-v4-flash");
    assert!(matches!(resolved.tier, DistillTier::ProviderCompact));
}

#[test]
fn tier1_global_default_falls_through_when_context_too_small() {
    let mut loop_ = build_loop();
    seed_providers(&mut loop_);
    set_session(&mut loop_, "deepseek", "deepseek-v4-pro");
    set_provider_compact(&mut loop_, "deepseek", Some("deepseek-v4-flash"));

    loop_.core.default_compact_model =
        Some(("ollama-local".to_string(), "llama3:8b".to_string()));

    let long_input = "x".repeat(50_000);
    let resolved = loop_.resolve_distill_model(estimate(&long_input));
    assert_eq!(resolved.provider_id, "deepseek");
    assert_eq!(resolved.model_id, "deepseek-v4-flash");
    assert!(matches!(resolved.tier, DistillTier::ProviderCompact));
}

#[test]
fn tier1_falls_through_when_model_not_in_capabilities() {
    let mut loop_ = build_loop();
    seed_providers(&mut loop_);
    set_session(&mut loop_, "deepseek", "deepseek-v4-pro");
    set_provider_compact(&mut loop_, "deepseek", Some("deepseek-v4-flash"));

    loop_.core.default_compact_model =
        Some(("ollama-local".to_string(), "ghost-model-99".to_string()));

    let resolved = loop_.resolve_distill_model(estimate("hi"));
    assert!(matches!(resolved.tier, DistillTier::ProviderCompact));
    assert_eq!(resolved.model_id, "deepseek-v4-flash");
}

#[test]
fn no_global_default_goes_straight_to_tier2_provider_compact() {
    let mut loop_ = build_loop();
    seed_providers(&mut loop_);
    set_session(&mut loop_, "deepseek", "deepseek-v4-pro");
    set_provider_compact(&mut loop_, "deepseek", Some("deepseek-v4-flash"));
    assert!(loop_.core.default_compact_model.is_none());

    let resolved = loop_.resolve_distill_model(estimate("hi"));
    assert_eq!(resolved.provider_id, "deepseek");
    assert_eq!(resolved.model_id, "deepseek-v4-flash");
    assert!(matches!(resolved.tier, DistillTier::ProviderCompact));
}

#[test]
fn tier1_and_tier2_both_fail_goes_to_tier3_current_chat() {
    let mut loop_ = build_loop();
    seed_providers(&mut loop_);
    set_session(&mut loop_, "deepseek", "deepseek-v4-pro");
    set_provider_compact(&mut loop_, "deepseek", None);

    loop_.core.default_compact_model =
        Some(("mistral".to_string(), "mistral-small".to_string()));

    let resolved = loop_.resolve_distill_model(estimate("hi"));
    assert_eq!(resolved.provider_id, "deepseek");
    assert_eq!(resolved.model_id, "deepseek-v4-pro");
    assert!(matches!(resolved.tier, DistillTier::CurrentChat));
}

#[test]
fn tier3_falls_back_to_chat_model_when_session_provider_empty() {
    let mut loop_ = build_loop();
    seed_providers(&mut loop_);
    loop_.session.provider = None;
    loop_.session.model = Some("deepseek-v4-pro".to_string());
    set_provider_compact(&mut loop_, "deepseek", None);
    loop_.core.default_compact_model = None;

    let resolved = loop_.resolve_distill_model(estimate("hi"));
    assert_eq!(resolved.provider_id, "");
    assert_eq!(resolved.model_id, "deepseek-v4-pro");
    assert!(matches!(resolved.tier, DistillTier::CurrentChat));
}


#[test]
fn default_compact_provider_available_local_without_key() {
    let mut loop_ = build_loop();
    seed_providers(&mut loop_);
    loop_.core.default_compact_model =
        Some(("ollama-local".to_string(), "qwen2.5:0.5b".to_string()));
    assert!(
        loop_.core.is_default_compact_provider_available(),
        "local provider without key must be usable"
    );
}

#[test]
fn default_compact_provider_unavailable_cloud_without_key() {
    let mut loop_ = build_loop();
    seed_providers(&mut loop_);
    loop_.core.default_compact_model =
        Some(("deepseek".to_string(), "deepseek-v4-flash".to_string()));
    assert!(loop_.core.is_default_compact_provider_available());

    loop_.core.provider_key_vault.remove("deepseek");
    assert!(!loop_.core.is_default_compact_provider_available());
}

#[test]
fn default_compact_provider_unavailable_when_not_set() {
    let loop_ = build_loop();
    assert!(!loop_.core.is_default_compact_provider_available());
}


#[test]
fn resolved_distill_uses_compact_model_when_global_default_available() {
    let mut loop_ = build_loop();
    seed_providers(&mut loop_);
    set_session(&mut loop_, "deepseek", "deepseek-v4-flash");
    set_provider_compact(&mut loop_, "deepseek", None); // no Tier 2

    loop_.core.default_compact_model =
        Some(("ollama-local".to_string(), "qwen2.5:0.5b".to_string()));

    let resolved = loop_.resolve_distill_model(estimate("some long text"));
    assert_eq!(resolved.provider_id, "ollama-local");
    assert_eq!(resolved.model_id, "qwen2.5:0.5b");
    assert!(matches!(resolved.tier, DistillTier::GlobalDefault));
}


#[test]
fn targets_list_returns_three_tiers_in_priority_order() {
    let mut loop_ = build_loop();
    seed_providers(&mut loop_);
    set_session(&mut loop_, "deepseek", "deepseek-v4-pro");
    set_provider_compact(&mut loop_, "deepseek", Some("deepseek-v4-flash"));
    loop_.core.default_compact_model =
        Some(("ollama-local".to_string(), "qwen2.5:0.5b".to_string()));

    let targets = loop_.resolve_distill_targets();
    assert_eq!(targets.len(), 3, "expected three targets, got {targets:?}");
    assert!(matches!(targets[0].tier, DistillTier::GlobalDefault));
    assert!(matches!(targets[1].tier, DistillTier::ProviderCompact));
    assert!(matches!(targets[2].tier, DistillTier::CurrentChat));
    assert_eq!(targets[0].provider_id, "ollama-local");
    assert_eq!(targets[1].provider_id, "deepseek");
    assert_eq!(targets[1].model_id, "deepseek-v4-flash");
    assert_eq!(targets[2].model_id, "deepseek-v4-pro");
}

#[test]
fn targets_list_collapses_to_current_chat_when_only_tier3_is_available() {
    let mut loop_ = build_loop();
    seed_providers(&mut loop_);
    set_session(&mut loop_, "deepseek", "deepseek-v4-pro");
    set_provider_compact(&mut loop_, "deepseek", None);
    assert!(loop_.core.default_compact_model.is_none());

    let targets = loop_.resolve_distill_targets();
    assert_eq!(targets.len(), 1, "expected one target, got {targets:?}");
    assert!(matches!(targets[0].tier, DistillTier::CurrentChat));
    assert_eq!(targets[0].model_id, "deepseek-v4-pro");
}

#[test]
fn targets_list_dedups_duplicate_provider_model_pairs() {
    let mut loop_ = build_loop();
    seed_providers(&mut loop_);
    set_session(&mut loop_, "deepseek", "deepseek-v4-flash");
    set_provider_compact(&mut loop_, "deepseek", Some("deepseek-v4-flash"));
    loop_.core.default_compact_model =
        Some(("deepseek".to_string(), "deepseek-v4-flash".to_string()));

    let targets = loop_.resolve_distill_targets();
    let unique: std::collections::HashSet<(String, String)> = targets
        .iter()
        .map(|t| (t.provider_id.clone(), t.model_id.clone()))
        .collect();
    assert_eq!(
        unique.len(),
        targets.len(),
        "duplicate (provider, model) pairs not allowed"
    );
    assert!(
        targets.len() <= 2,
        "expected at most 2 distinct targets (global default + maybe one other), got {targets:?}"
    );
    assert!(targets.iter().any(|t| matches!(t.tier, DistillTier::GlobalDefault)));
}

#[test]
fn call_phase_fallback_skips_failing_tier_and_uses_next() {
    let mut loop_ = build_loop();
    seed_providers(&mut loop_);
    set_session(&mut loop_, "deepseek", "deepseek-v4-pro");
    set_provider_compact(&mut loop_, "deepseek", Some("deepseek-v4-flash"));
    loop_.core.default_compact_model =
        Some(("ollama-local".to_string(), "qwen2.5:0.5b".to_string()));
    for i in 0..10 {
        loop_.session.history.push(ChatMessage::user(format!("Message #{i}")));
        loop_.session.history.push(ChatMessage::assistant(format!("Reply #{i}")));
    }

    let (mut compaction, first) = loop_.compact_history_if_needed(100_000, 10, true).unwrap();
    let mut log: Vec<String> = match first {
        CompactAction::Call(target) => vec![target.model_id],
        other => panic!("the most preferred target comes first; got {other:?}"),
    };
    assert_eq!(log[0], "qwen2.5:0.5b");
    // The first target fails, the second one answers.
    match loop_.compact_step(&mut compaction, CompactEvent::Failed) {
        CompactAction::Call(target) => log.push(target.model_id),
        other => panic!("expected fallback to retry; got {other:?}"),
    }
    assert!(log.len() >= 2, "expected fallback to retry; actual call log: {log:?}");
    assert_eq!(log[1], "deepseek-v4-flash");
    let summarised = CompactEvent::Summarised {
        model: log[1].clone(),
        summary: "<summary>ok</summary>".to_string(),
        stripped: "<summary>ok</summary>".to_string(),
        usage: usage(),
    };
    match loop_.compact_step(&mut compaction, summarised) {
        CompactAction::Replace { summary, keep_last_rounds } => {
            assert_eq!(summary, "<summary>ok</summary>");
            assert_eq!(keep_last_rounds, 3);
        }
        other => panic!("the summary takes the place of the history; got {other:?}"),
    }
}

#[test]
fn call_phase_fallback_when_all_tiers_fail_does_fifo_trim() {
    let mut loop_ = build_loop();
    seed_providers(&mut loop_);
    set_session(&mut loop_, "deepseek", "deepseek-v4-pro");
    set_provider_compact(&mut loop_, "deepseek", Some("deepseek-v4-flash"));
    loop_.core.default_compact_model =
        Some(("ollama-local".to_string(), "qwen2.5:0.5b".to_string()));

    let (mut compaction, _) = loop_.compact_history_if_needed(100_000, 10, true).unwrap();
    assert!(matches!(
        loop_.compact_step(&mut compaction, CompactEvent::Failed),
        CompactAction::Call(_)
    ));
    assert!(matches!(
        loop_.compact_step(&mut compaction, CompactEvent::Failed),
        CompactAction::Call(_)
    ));
    // No compaction marker: the oldest messages are dropped instead.
    assert!(matches!(
        loop_.compact_step(&mut compaction, CompactEvent::Failed),
        CompactAction::TrimFifo
    ));
    assert!(matches!(compaction.phase, CompactPhase::TrimmingFifo));
    assert!(!loop_.session.is_compacted);
    assert!(matches!(
        loop_.compact_step(&mut compaction, CompactEvent::Trimmed { tokens: 5 }),
        CompactAction::Finish
    ));
}

#[test]
fn a_history_that_is_still_too_large_is_cut_down() {
    let mut loop_ = build_loop();
    set_session(&mut loop_, "deepseek", "deepseek-v4-pro");
    let (mut compaction, _) = loop_.compact_history_if_needed(1_000, 990, false).unwrap();
    assert!(matches!(
        loop_.compact_step(&mut compaction, CompactEvent::Failed),
        CompactAction::TrimFifo
    ));
    assert!(matches!(
        loop_.compact_step(&mut compaction, CompactEvent::Trimmed { tokens: 1_001 }),
        CompactAction::EmergencyTrim
    ));
    assert!(matches!(
        loop_.compact_step(&mut compaction, CompactEvent::Trimmed { tokens: 100 }),
        CompactAction::Finish
    ));
    assert!(matches!(
        loop_.compact_step(&mut compaction, CompactEvent::Failed),
        CompactAction::Ignore
    ));
}

#[test]
fn compaction_waits_for_four_fifths_of_the_budget() {
    let mut loop_ = build_loop();
    set_session(&mut loop_, "deepseek", "deepseek-v4-pro");
    assert!(loop_.compact_history_if_needed(1_000, 799, false).is_none());
    let c: Option<(Compaction, CompactAction)> = loop_.compact_history_if_needed(1_000, 800, false);
    assert!(c.is_some());
    assert!(loop_.compact_history_if_needed(0, 800, true).is_none());
}

#[test]
fn a_compaction_is_logged_in_order() {
    let mut loop_ = build_loop();
    set_session(&mut loop_, "deepseek", "deepseek-v4-pro");
    loop_.session.conversation =
        Some(ConversationSession::new("s1".to_string(), SessionConfigSnapshot::default()));
    let (mut c, _) = loop_.compact_history_if_needed(1_000, 900, false).unwrap();
    let summarised = CompactEvent::Summarised {
        model: "deepseek-v4-pro".to_string(),
        summary: "full".to_string(),
        stripped: "short".to_string(),
        usage: usage(),
    };
    assert!(matches!(loop_.compact_step(&mut c, summarised), CompactAction::Replace { .. }));
    match loop_.compact_step(&mut c, CompactEvent::Replaced { tokens: 120 }) {
        CompactAction::Remember { summary, session_id } => {
            assert_eq!(summary, "full");
            assert_eq!(session_id, "s1");
        }
        other => panic!("the summary goes to the memory; got {other:?}"),
    }
    assert!(matches!(loop_.compact_step(&mut c, CompactEvent::Remembered), CompactAction::Finish));
    assert!(loop_.session.is_compacted);
    let ops = &loop_.session.conversation.as_ref().unwrap().ops;
    let logged = ops
        .iter()
        .find_map(|op| match op {
            ConversationOp::AppendCompaction { summary, meta } => Some((summary, meta)),
            _ => None,
        })
        .unwrap();
    assert_eq!(logged.0, "short");
    assert_eq!(logged.1.before_tokens, 900);
    assert_eq!(logged.1.after_tokens, 120);
    assert!(matches!(loop_.session_core.outbox[0], ChunkEvent::CompactingStarted));
}

#[test]
fn summaries_of_another_provider_need_one_built() {
    let mut loop_ = build_loop();
    seed_providers(&mut loop_);
    set_session(&mut loop_, "deepseek", "deepseek-v4-pro");
    loop_.core.default_compact_model =
        Some(("ollama-local".to_string(), "qwen2.5:0.5b".to_string()));
    let target = &loop_.resolve_distill_targets()[0];
    assert!(loop_.needs_own_provider(target));
    let (choice, model, tier) = loop_.distill_provider(target, true);
    assert_eq!(choice, ProviderChoice::Rebuilt);
    assert_eq!(model, "qwen2.5:0.5b");
    assert_eq!(tier, DistillTier::GlobalDefault);
    // Where it cannot be built, the session's own provider and model serve.
    let (choice, model, tier) = loop_.distill_provider(target, false);
    assert_eq!(choice, ProviderChoice::Session);
    assert_eq!(model, "deepseek-v4-pro");
    assert_eq!(tier, DistillTier::CurrentChat);
}

#[test]
fn closing_distils_what_follows_the_last_summary() {
    let mut loop_ = build_loop();
    set_session(&mut loop_, "deepseek", "deepseek-v4-pro");
    loop_.session.conversation =
        Some(ConversationSession::new("s1".to_string(), SessionConfigSnapshot::default()));
    loop_.session.history.push(ChatMessage::plain(MessageRole::System, "sys".to_string()));
    loop_.session.history.push(ChatMessage::user("old summary".to_string()));
    loop_.session.history.push(ChatMessage::user("u".to_string()));
    loop_.session.history.push(ChatMessage::assistant("a".to_string()));
    let plan = loop_.close_session_with_distillation(Some(1)).unwrap();
    let texts: Vec<&str> = plan.tail.iter().map(|m| m.content.as_str()).collect();
    assert_eq!(texts, vec!["u", "a"]);
    assert_eq!(plan.session_id, "s1");
    assert_eq!(
        plan.steps,
        vec![CloseStep::TidyMemory, CloseStep::Summarise, CloseStep::CloseWriter]
    );
    let done = loop_.close_session_with_distillation(Some(3)).unwrap();
    assert_eq!(done.steps, vec![CloseStep::TidyMemory, CloseStep::CloseWriter]);
    assert!(done.start_distillation().is_none());

    let (mut tail, action) = plan.start_distillation().unwrap();
    assert!(matches!(action, TailAction::Call(_)));
    let failed = TailEvent::Failed {
        error: RuntimeError::Summary(SummaryError {
            message: "no".to_string(),
            retryable: false,
        }),
        detail: "no".to_string(),
    };
    assert!(matches!(loop_.tail_step(&mut tail, failed), TailAction::Finish));
    assert!(matches!(loop_.session_core.outbox.last(), Some(ChunkEvent::Error { .. })));
}

#[test]
fn summaries_are_asked_for_in_the_packages_way() {
    let mut loop_ = build_loop();
    loop_.core.compaction_prompt = Some("Summarise briefly.".to_string());
    loop_.session.identity_context = Some("who".to_string());
    let targets = loop_.resolve_distill_targets();
    let call = loop_.summary_call(&targets[targets.len() - 1], false);
    assert_eq!(call.prompt.as_deref(), Some("Summarise briefly."));
    assert_eq!(call.identity_context.as_deref(), Some("who"));
    assert_eq!(call.tier, DistillTier::CurrentChat);
    assert_eq!(call.provider, ProviderChoice::Session);
}
