//! Many sessions side by side.

use acowork_runtime::agent_loop::AgentCore;
use acowork_runtime::builtin_tools::{AgentToolEntry, BuiltinToolEntry, ToolDef};
use acowork_runtime::conversation::{ConversationOp, ConversationSession};
use acowork_runtime::error::RuntimeError;
use acowork_runtime::json::{parse_json, Json, Member};
use acowork_runtime::manager_config::{KeyEntry, McpConnectionFailure};
use acowork_runtime::message::ChatMessage;
use acowork_runtime::model::{ModelCapabilitiesInfo, ProviderListItem, ProviderModelEntry};
use acowork_runtime::overrides::{AgentConfig, RuntimeConfigOverrides};
use acowork_runtime::restorer::{RestoreError, RestoreOutcome};
use acowork_runtime::session::{ReasoningEffort, SessionStatus, Temperature};
use acowork_runtime::session_config::SessionConfigSnapshot;
use acowork_runtime::session_init::{resume_disabled, usable_history, SessionStart};
use acowork_runtime::session_manager::{
    SessionLifecycleState, SessionManager, SessionManagerConfig, SessionOpenOutcome, Workspaces,
};
use acowork_runtime::session_message::SessionMessage;
use acowork_runtime::str_map::StrMap;
use acowork_runtime::user_profile::{format_user_profile_context, UserProfile};

fn build_core() -> AgentCore {
    AgentCore {
        agent_id: "com.test.compact".to_string(),
        work_dir: "/work".to_string(),
        max_sessions: 10,
        model: "deepseek-v4-flash".to_string(),
        global_provider_list: Vec::new(),
        provider_list_version: 0,
        provider_key_vault: StrMap::new(),
        provider_compact_models: StrMap::new(),
        default_compact_model: None,
        search_key_vault: StrMap::new(),
        search_provider_list: Vec::new(),
        overrides: RuntimeConfigOverrides::default(),
        manifest_temperature: None,
        compaction_prompt: None,
        builtin_tools: Vec::new(),
        platform_tools: Vec::new(),
        mcp_tools: None,
        memory_store: None,
    }
}


fn bits(value: f32) -> Temperature {
    Temperature { bits: value.to_bits() }
}

fn tool(name: &str) -> ToolDef {
    ToolDef {
        name: name.to_string(),
        spec: Json::Object(vec![Member {
            name: "name".to_string(),
            value: Json::Text(name.to_string()),
        }]),
    }
}

fn registered(name: &str, enabled: bool) -> BuiltinToolEntry {
    BuiltinToolEntry { tool: tool(name), enabled }
}

fn platform() -> Vec<BuiltinToolEntry> {
    vec![registered("context_retrieve", true), registered("context_abandon", true)]
}

fn workspaces() -> Workspaces {
    let mut dirs = StrMap::new();
    dirs.insert("ws1".to_string(), "/srv/one".to_string());
    Workspaces { agent_home: "/home/agent".to_string(), dirs }
}

fn manager_with(core: AgentCore) -> SessionManager {
    let mut manager = SessionManager::new(core, SessionManagerConfig::default());
    manager.set_resolver(workspaces());
    manager
}

fn manager() -> SessionManager {
    manager_with(build_core())
}

fn start() -> SessionStart {
    SessionStart {
        default_effort: None,
        persisted_effort: None,
        default_temperature: bits(0.7),
        restored: None,
        context_usage: None,
        workspace_context: "context".to_string(),
        workspace_prompt: None,
        fast_capacity: 8,
        now: 1_000,
    }
}

fn caps() -> ModelCapabilitiesInfo {
    ModelCapabilitiesInfo {
        context_window: 128_000,
        max_output_tokens: 4096,
        max_input_tokens: None,
        supports_tool_calling: true,
        supports_reasoning: Some(true),
        supports_attachment: None,
        supports_temperature: None,
        name: None,
        family: None,
        knowledge_cutoff: None,
        default_reasoning_effort: Some("high".to_string()),
        thinking_mode: None,
    }
}

fn provider(id: &str, models: &[&str]) -> ProviderListItem {
    ProviderListItem {
        id: id.to_string(),
        base_url: String::new(),
        local: false,
        compact_model: Some(format!("{id}-small")),
        custom: false,
        models: models
            .iter()
            .map(|m| ProviderModelEntry {
                id: m.to_string(),
                capabilities: caps(),
                max_output_tokens_limit: 4096,
            })
            .collect(),
    }
}

fn conversation(id: &str) -> ConversationSession {
    ConversationSession::new(id.to_string(), SessionConfigSnapshot::default())
}

fn names(tools: &[BuiltinToolEntry]) -> Vec<String> {
    tools.iter().map(|e| e.tool.name.clone()).collect()
}

fn config_error(r: Result<(), RuntimeError>) -> String {
    match r {
        Err(RuntimeError::Config(text)) => text,
        other => panic!("expected a config error, got {other:?}"),
    }
}

// ── RuntimeConfigOverrides ─────────────────────────────────────────

#[test]
fn test_overrides_is_empty() {
    let ov = RuntimeConfigOverrides::default();
    assert!(ov.is_empty());
}

#[test]
fn test_overrides_merge() {
    let mut ov = RuntimeConfigOverrides::default();
    ov.merge(&RuntimeConfigOverrides { max_output_tokens: Some(100), ..Default::default() });
    assert!(!ov.is_empty());
    assert_eq!(ov.max_output_tokens, Some(100));

    // Re-merge with Some replaces
    ov.merge(&RuntimeConfigOverrides { max_output_tokens: Some(200), ..Default::default() });
    assert_eq!(ov.max_output_tokens, Some(200));

    // None preserves
    ov.merge(&RuntimeConfigOverrides::default());
    assert_eq!(ov.max_output_tokens, Some(200));
}

#[test]
fn overrides_that_were_applied_are_read_back() {
    let mut cfg = AgentConfig {
        max_output_tokens: Some(1),
        max_iterations: None,
        temperature: None,
        context_window: None,
        system_prompt_override: None,
        shell_approval_threshold: None,
        approval_timeout_secs: None,
        tool_compression_enabled: None,
        max_sessions: Some(5),
    };
    let push = RuntimeConfigOverrides {
        max_output_tokens: Some(2),
        tool_compression_enabled: Some(false),
        ..Default::default()
    };
    push.apply_to(&mut cfg);
    let back = RuntimeConfigOverrides::from(&cfg);
    assert_eq!(back.max_output_tokens, Some(2));
    assert_eq!(back.tool_compression_enabled, Some(false));
    assert_eq!(cfg.max_sessions, Some(5));
}

// ── require_session_id ─────────────────────────────────────────────

fn params(text: &str) -> Json {
    parse_json(text).unwrap()
}

#[test]
fn test_require_session_id_valid() {
    let params = params(r#"{ "session_id": "test-sid" }"#);
    assert_eq!(SessionManager::require_session_id(&params).unwrap(), "test-sid");
}

#[test]
fn test_require_session_id_missing() {
    let params = params("{}");
    assert!(SessionManager::require_session_id(&params).is_err());
}

#[test]
fn test_require_session_id_empty() {
    let params = params(r#"{ "session_id": "" }"#);
    assert!(SessionManager::require_session_id(&params).is_err());
}

// ── New sessions see pushed tools ──────────────────────────────────

#[test]
fn test_new_session_after_compression_toggle_omits_platform_tools() {
    let mut core = build_core();
    core.platform_tools = platform();
    core.builtin_tools = platform();
    assert!(names(&core.builtin_tools).iter().any(|n| n == "context_retrieve"));
    let mut manager = manager_with(core);

    manager.apply_runtime_config_override(&RuntimeConfigOverrides {
        tool_compression_enabled: Some(false),
        ..Default::default()
    });
    let task = manager.create_session_with_id("s1".to_string(), build_core(), start());

    let template_names_after = names(&manager.core.builtin_tools);
    assert!(!template_names_after.iter().any(|n| n == "context_retrieve"));
    assert!(!template_names_after.iter().any(|n| n == "context_abandon"));
    let session_names = names(&task.agent_loop.core.builtin_tools);
    assert!(!session_names.iter().any(|n| n == "context_retrieve"));
    assert!(!session_names.iter().any(|n| n == "context_abandon"));
    let visible_names: Vec<&str> =
        task.context.tool_definitions.iter().filter_map(|v| v.get_str("name")).collect();
    assert!(!visible_names.contains(&"context_retrieve"));
    assert!(!visible_names.contains(&"context_abandon"));
}

#[test]
fn test_builtin_tools_enabled_syncs_template_for_future_sessions() {
    let mut core = build_core();
    core.platform_tools = platform();
    core.builtin_tools = platform();
    let mut manager = manager_with(core);
    assert!(!names(&manager.core.builtin_tools).iter().any(|n| n == "shell"));
    let patch = vec![
        AgentToolEntry { name: "context_retrieve".to_string(), enabled: false },
        AgentToolEntry { name: "shell".to_string(), enabled: true },
    ];
    manager.core.builtin_tools.push(registered("shell", false));

    manager.apply_builtin_tools_enabled(&patch);
    let task = manager.create_session_with_id("later".to_string(), build_core(), start());

    let find = |name: &str| {
        task.agent_loop
            .core
            .builtin_tools
            .iter()
            .find(|e| e.tool.name == name)
            .unwrap_or_else(|| panic!("{name} must be in the tools of a later session"))
    };
    assert!(find("shell").enabled);
    for name in ["context_retrieve", "context_abandon"] {
        assert!(find(name).enabled, "{name} must stay enabled");
    }
}

#[test]
fn sidecar_tools_reach_old_and_new_sessions() {
    let mut manager = manager();
    manager.create_session_with_id("old".to_string(), build_core(), start());
    manager.register_dynamic_tool(registered("codebase", true));
    assert_eq!(manager.dynamic_builtin_tool_names(), vec![("codebase".to_string(), true)]);
    assert!(matches!(
        manager.get_session("old").unwrap().inbox.last(),
        Some(SessionMessage::AddDynamicBuiltinTool { .. })
    ));
    let task = manager.create_session_with_id("new".to_string(), build_core(), start());
    assert_eq!(names(&task.agent_loop.core.builtin_tools), vec!["codebase".to_string()]);
    manager.unregister_dynamic_tool("codebase");
    assert!(manager.dynamic_builtin_tool_names().is_empty());
}

// ── Delivery cursors ───────────────────────────────────────────────

#[test]
fn test_cursor_get_initializes_to_committed_lines() {
    let mut store = manager();
    store.note_committed_lines("s1", 42);

    let c = store.get_delivery_cursor("s1");
    assert_eq!(c.line_number, 42);
    assert_eq!(c.char_offset, 0);

    store.advance_delivery_cursor("s1", 50, 10);
    let c = store.get_delivery_cursor("s1");
    assert_eq!(c.line_number, 50);
    assert_eq!(c.char_offset, 10);
}

#[test]
fn test_cursor_get_no_committed_lines_defaults_to_zero() {
    let mut store = manager();
    let c = store.get_delivery_cursor("s2");
    assert_eq!(c.line_number, 0);
    assert_eq!(c.char_offset, 0);
}

#[test]
fn test_cursor_advance_updates_value() {
    let mut store = manager();

    store.advance_delivery_cursor("s1", 10, 5);
    let c = store.get_delivery_cursor("s1");
    assert_eq!(c.line_number, 10);
    assert_eq!(c.char_offset, 5);

    store.advance_delivery_cursor("s1", 15, 20);
    let c = store.get_delivery_cursor("s1");
    assert_eq!(c.line_number, 15);
    assert_eq!(c.char_offset, 20);
}

#[test]
fn test_cursor_reset_sets_to_total_lines() {
    let mut store = manager();

    store.advance_delivery_cursor("s1", 5, 10);
    assert_eq!(store.get_delivery_cursor("s1").line_number, 5);

    store.reset_delivery_cursor("s1", 100);
    let c = store.get_delivery_cursor("s1");
    assert_eq!(c.line_number, 100);
    assert_eq!(c.char_offset, 0);
}

#[test]
fn test_cursor_remove_clears_entry() {
    let mut store = manager();
    store.advance_delivery_cursor("s1", 10, 5);
    assert!(store.session_delivery_cursors.contains_key("s1"));

    store.delete_session("s1");
    assert!(!store.session_delivery_cursors.contains_key("s1"));

    let c = store.get_delivery_cursor("s1");
    assert_eq!(c.line_number, 0);
}

#[test]
fn test_cursor_isolation_between_sessions() {
    let mut store = manager();

    store.advance_delivery_cursor("s1", 10, 5);
    store.advance_delivery_cursor("s2", 20, 15);

    assert_eq!(store.get_delivery_cursor("s1").line_number, 10);
    assert_eq!(store.get_delivery_cursor("s2").line_number, 20);

    store.advance_delivery_cursor("s1", 15, 0);
    assert_eq!(store.get_delivery_cursor("s2").line_number, 20);

    store.delete_session("s1");
    assert_eq!(store.get_delivery_cursor("s2").line_number, 20);
}

// ── Lifecycle ──────────────────────────────────────────────────────

#[test]
fn fresh_sessions_get_fresh_ids() {
    let mut manager = manager();
    let a = manager.create_session(build_core(), start()).session_id;
    let b = manager.create_session(build_core(), start()).session_id;
    assert_eq!(a.len(), 36);
    assert_eq!(a.as_bytes()[14], b'4');
    assert_ne!(a, b);
    assert_eq!(manager.session_count(), 2);
    assert_eq!(manager.active_sessions().len(), 2);
}

#[test]
fn a_new_session_is_idle_in_its_workspace_and_told_of_it() {
    let mut manager = manager();
    manager.set_default_workspace_id("ws1");
    manager.create_session_with_id("s1".to_string(), build_core(), start());
    let handle = manager.get_session("s1").unwrap();
    assert!(handle.status.same(&SessionStatus::Idle));
    assert_eq!(handle.workspace_id, "ws1");
    assert_eq!(handle.current_work_dir.as_deref(), Some("/srv/one"));
    assert!(matches!(handle.inbox[0], SessionMessage::UpdateWorkspaceContext { .. }));
    assert!(matches!(handle.inbox[1], SessionMessage::SetWorkspacePromptFile { content: None }));
    assert_eq!(manager.cancel_handle("s1"), Some(0));
    assert_eq!(manager.session_workspace_id("s1"), "ws1");
    assert_eq!(manager.session_workspace_id("nobody"), "__agent_home__");
    assert_eq!(manager.snapshot_session_state("s1").unwrap().session_id, "s1");
    assert!(manager.snapshot_session_state("nobody").is_none());
    let state = manager.build_initial_session_state("s2", None, start());
    assert!(state.status.same(&SessionStatus::Idle));
    assert_eq!(state.snapshot.session_id, "s2");
    assert_eq!(state.temperature, Some(bits(0.7)));
}

#[test]
fn opening_resumes_once() {
    let mut manager = manager();
    assert_eq!(manager.get_lifecycle_state("s1", false), SessionLifecycleState::NotFound);
    assert_eq!(manager.get_lifecycle_state("s1", true), SessionLifecycleState::Closed);
    let mut c = conversation("s1");
    c.config.title = Some("Trip".to_string());
    let opened = manager
        .open("s1", Some(Ok(c)), Some((7, 9)), build_core(), start())
        .unwrap();
    assert_eq!(opened.outcome, SessionOpenOutcome::ResumedFromDisk);
    assert_eq!(opened.merge_totals, Some((7, 9)));
    assert!(opened.task.is_some());
    assert_eq!(manager.get_lifecycle_state("s1", true), SessionLifecycleState::Active);
    assert_eq!(manager.latest_session(), &Some(("s1".to_string(), Some("Trip".to_string()))));
    let again = manager
        .open("s1", Some(Ok(conversation("s1"))), None, build_core(), start())
        .unwrap();
    assert_eq!(again.outcome, SessionOpenOutcome::AlreadyActive);
    assert!(again.task.is_none());
}

#[test]
fn opening_what_is_not_there_is_an_error() {
    let mut manager = manager();
    match manager.open("gone", None, None, build_core(), start()) {
        Err(RuntimeError::Config(text)) => assert_eq!(text, "Session not found on disk: gone"),
        other => panic!("expected an error, got {other:?}"),
    }
    let broken = Some(Err("bad meta".to_string()));
    match manager.open("gone", broken, None, build_core(), start()) {
        Err(RuntimeError::Config(text)) => {
            assert_eq!(text, "Session not found on disk: gone (bad meta)")
        }
        other => panic!("expected an error, got {other:?}"),
    }
    assert_eq!(manager.session_count(), 0);
}

#[test]
fn closing_forgets_the_session_and_tells_it() {
    let mut manager = manager();
    manager.create_session_with_id("s1".to_string(), build_core(), start());
    let handle = manager.close_session("s1").unwrap();
    assert!(matches!(handle.inbox.last(), Some(SessionMessage::Close)));
    assert!(manager.get_session("s1").is_none());
    assert_eq!(manager.cancel_handle("s1"), None);
    match manager.close_session("s1") {
        Err(RuntimeError::Config(text)) => assert_eq!(text, "Session not found: s1"),
        _ => panic!("a closed session is not found"),
    }
}

#[test]
fn a_full_channel_keeps_the_session_and_a_closed_one_does_not() {
    let mut core = build_core();
    core.agent_id = "a".to_string();
    let mut manager = SessionManager::new(
        core,
        SessionManagerConfig { inbound_channel_capacity: 3, ..SessionManagerConfig::default() },
    );
    manager.set_resolver(workspaces());
    manager.create_session_with_id("s1".to_string(), build_core(), start());
    assert!(manager.send_to_session("s1", SessionMessage::ContinueExecution).is_ok());
    let text = config_error(manager.send_to_session("s1", SessionMessage::ContinueExecution));
    assert_eq!(text, "Session channel full: s1");
    assert!(manager.get_session("s1").is_some());
    assert_eq!(manager.broadcast(&SessionMessage::ProviderListUpdated), vec!["s1".to_string()]);

    let mut handle = manager.sessions.remove("s1").unwrap();
    handle.link.closed = true;
    manager.sessions.insert("s1".to_string(), handle);
    let text = config_error(manager.send_to_session("s1", SessionMessage::ContinueExecution));
    assert_eq!(text, "Session not found: s1");
    assert!(manager.get_session("s1").is_none());
    assert_eq!(manager.cancel_handle("s1"), None);
}

#[test]
fn only_idle_sessions_are_evicted() {
    let mut manager = manager();
    manager.create_session_with_id("idle".to_string(), build_core(), start());
    manager.create_session_with_id("busy".to_string(), build_core(), start());
    manager.create_session_with_id(
        "recent".to_string(),
        build_core(),
        SessionStart { now: 4_500, ..start() },
    );
    let mut busy = manager.sessions.remove("busy").unwrap();
    busy.status = SessionStatus::ToolExecuting;
    manager.sessions.insert("busy".to_string(), busy);
    let exactly = manager.evict_idle_sessions(start().now + 5_000, 5_000);
    assert!(exactly.is_empty());
    let evicted = manager.evict_idle_sessions(start().now + 5_001, 5_000);
    assert_eq!(evicted.len(), 1);
    assert_eq!(evicted[0].session_id, "idle");
    assert!(matches!(evicted[0].inbox.last(), Some(SessionMessage::Close)));
    assert!(manager.get_session("busy").is_some());
    assert!(manager.get_session("recent").is_some());
    assert_eq!(manager.session_statuses().len(), 2);
}

#[test]
fn finished_sessions_are_reaped() {
    let mut manager = manager();
    manager.create_session_with_id("a".to_string(), build_core(), start());
    manager.create_session_with_id("b".to_string(), build_core(), start());
    let mut a = manager.sessions.remove("a").unwrap();
    a.finished = true;
    manager.sessions.insert("a".to_string(), a);
    manager.reap_finished();
    assert_eq!(manager.active_sessions(), vec!["b".to_string()]);
    assert_eq!(manager.cancel_handle("a"), None);
}

#[test]
fn resuming_can_be_switched_off() {
    assert!(resume_disabled(Some("1")));
    assert!(resume_disabled(Some("TrUe")));
    assert!(!resume_disabled(Some("yes")));
    assert!(!resume_disabled(Some("tru3")));
    assert!(!resume_disabled(None));
    let outcome = |n: usize| RestoreOutcome {
        messages: (0..n).map(|i| ChatMessage::user(format!("{i}"))).collect(),
        had_compaction: true,
        replayed_entry_count: n,
        skipped_entry_count: 0,
    };
    assert!(usable_history(false, Some(Ok(outcome(1)))).is_some());
    assert!(usable_history(true, Some(Ok(outcome(1)))).is_none());
    assert!(usable_history(false, Some(Ok(outcome(0)))).is_none());
    assert!(usable_history(false, Some(Err(RestoreError::Io("x".to_string())))).is_none());

    let mut manager = manager();
    let s = SessionStart { restored: usable_history(false, Some(Ok(outcome(2)))), ..start() };
    let task = manager.create_session_with_id("s1".to_string(), build_core(), s);
    assert_eq!(task.agent_loop.session.history.len(), 2);
    assert!(task.agent_loop.session.is_compacted);
}

// ── Models ─────────────────────────────────────────────────────────

#[test]
fn a_new_session_starts_with_the_pair_last_in_use() {
    let mut core = build_core();
    core.global_provider_list = vec![provider("p0", &[]), provider("p1", &["m1"])];
    let mut manager = manager_with(core);
    assert_eq!(manager.provider_name(), "p0");
    assert_eq!(manager.current_model_name().as_deref(), Some("m1"));
    assert_eq!(manager.current_model_and_provider(), (None, Some("p0".to_string())));

    let mut c = conversation("s1");
    c.config.model = Some("m1".to_string());
    c.config.provider = Some("p1".to_string());
    manager.create_session_with_id_and_conversation(
        "s1".to_string(),
        Some(c),
        Some(3),
        build_core(),
        start(),
    );
    assert_eq!(manager.committed_lines_for("s1"), 3);
    assert_eq!(
        manager.current_model_and_provider(),
        (Some("m1".to_string()), Some("p1".to_string()))
    );
    let s = SessionStart {
        default_effort: Some(ReasoningEffort::Level("high".to_string())),
        ..start()
    };
    let task = manager.create_frontend_session(
        "s2".to_string(),
        Some("ws1"),
        None,
        None,
        build_core(),
        s,
    );
    let session = &task.agent_loop.session;
    assert_eq!(session.model.as_deref(), Some("m1"));
    assert_eq!(session.provider.as_deref(), Some("p1"));
    // What it was given is persisted.
    let c = session.conversation.as_ref().unwrap();
    assert_eq!(c.config.model.as_deref(), Some("m1"));
    assert_eq!(c.config.reasoning_effort.as_deref(), Some("high"));
    assert!(matches!(c.ops[0], ConversationOp::SetModelProvider { .. }));
    assert!(matches!(c.ops[1], ConversationOp::SetReasoningEffort(_)));
    assert_eq!(manager.session_limit(None), 10);
    assert_eq!(manager.session_limit(Some(4)), 4);
}

#[test]
fn the_temperature_comes_from_the_first_layer_that_has_one() {
    let mut core = build_core();
    let mut manager = manager_with(build_core());
    let task = manager.create_session_with_id("s1".to_string(), build_core(), start());
    assert_eq!(task.agent_loop.session.temperature, Some(bits(0.7)));
    core.manifest_temperature = Some(bits(0.5));
    let mut manager = manager_with(core);
    let task = manager.create_session_with_id("s1".to_string(), build_core(), start());
    assert_eq!(task.agent_loop.session.temperature, Some(bits(0.5)));
    manager.apply_runtime_config_override(&RuntimeConfigOverrides {
        temperature: Some(bits(0.1)),
        ..Default::default()
    });
    let task = manager.create_session_with_id("s2".to_string(), build_core(), start());
    assert_eq!(task.agent_loop.session.temperature, Some(bits(0.1)));
}

#[test]
fn a_pushed_temperature_is_persisted_everywhere() {
    let mut manager = manager();
    manager.create_session_with_id_and_conversation(
        "s1".to_string(),
        Some(conversation("s1")),
        Some(0),
        build_core(),
        start(),
    );
    let failed = manager.apply_runtime_config_override(&RuntimeConfigOverrides {
        temperature: Some(bits(0.2)),
        ..Default::default()
    });
    assert!(failed.is_empty());
    let handle = manager.get_session("s1").unwrap();
    assert_eq!(handle.conversation.as_ref().unwrap().config.temperature, Some(bits(0.2)));
    assert_eq!(handle.fast_inbox.len(), 1);
    assert!(matches!(handle.inbox.last(), Some(SessionMessage::UpdateRuntimeConfig(_))));
}

#[test]
fn a_model_switch_resets_the_effort_in_one_change() {
    let mut core = build_core();
    core.global_provider_list = vec![provider("p1", &["m1", "m2"])];
    let mut manager = manager_with(core);
    manager.create_session_with_id_and_conversation(
        "s1".to_string(),
        Some(conversation("s1")),
        Some(0),
        build_core(),
        start(),
    );
    manager.route_reasoning_effort("s1", "low".to_string()).unwrap();
    let before = manager.get_session("s1").unwrap().conversation.as_ref().unwrap();
    assert_eq!(before.config.reasoning_effort.as_deref(), Some("low"));
    let changes = before.ops.len();
    manager
        .route_model_switch("s1", "m2".to_string(), Some("p1".to_string()), None)
        .unwrap();
    let after = manager.get_session("s1").unwrap().conversation.as_ref().unwrap();
    assert_eq!(after.config.model.as_deref(), Some("m2"));
    assert_eq!(after.config.reasoning_effort.as_deref(), Some("auto"));
    assert_eq!(after.ops.len(), changes + 1);
    let text = config_error(manager.route_model_switch("nobody", "m2".to_string(), None, None));
    assert_eq!(text, "Session not found: nobody");
    assert_eq!(
        config_error(manager.route_reasoning_effort("nobody", "low".to_string())),
        "Session not found: nobody"
    );
}

#[test]
fn a_new_provider_list_replaces_models_and_keys() {
    let mut manager = manager();
    manager.create_session_with_id("s1".to_string(), build_core(), start());
    let keys = vec![KeyEntry { provider_id: "p1".to_string(), api_key: "k1".to_string() }];
    manager.update_global_provider_list(vec![provider("p1", &["m1"])], 7, &keys, false);
    assert_eq!(manager.shared_core().provider_list_version, 7);
    assert_eq!(
        manager.core.provider_compact_models.get("p1"),
        Some(&Some("p1-small".to_string()))
    );
    assert_eq!(manager.core.provider_key_vault.get("p1"), Some(&"k1".to_string()));
    manager.update_global_provider_list(vec![provider("p2", &["m2"])], 8, &Vec::new(), true);
    assert_eq!(manager.core.provider_key_vault.len(), 0);
    assert_eq!(manager.core.global_provider_list[0].id, "p2");
    assert_eq!(manager.shared_core().provider_list_version, 7);
    assert!(manager.core.provider_compact_models.get("p1").is_some());
    manager.update_global_provider_list(Vec::new(), 8, &Vec::new(), false);
    assert_eq!(manager.shared_core().provider_list_version, 8);
    assert_eq!(manager.core.provider_compact_models.len(), 0);
    assert!(matches!(
        manager.get_session("s1").unwrap().inbox.last(),
        Some(SessionMessage::ProviderListUpdated)
    ));
    let web = Member { name: "id".to_string(), value: Json::Text("web".to_string()) };
    manager.update_search_config(&keys, vec![Json::Object(vec![web])]);
    assert_eq!(manager.core.search_provider_list[0].get_str("id"), Some("web"));
    assert_eq!(manager.core.search_key_vault.get("p1"), Some(&"k1".to_string()));
}

// ── MCP ────────────────────────────────────────────────────────────

#[test]
fn servers_that_could_not_be_reached_are_told_to_the_model() {
    let mut manager = manager();
    manager.create_session_with_id("s1".to_string(), build_core(), start());
    let failures = vec![McpConnectionFailure {
        server_name: "git".to_string(),
        error_message: "no node".to_string(),
    }];
    manager.apply_mcp_connection_result(vec![tool("mcp_git_log")], &failures);
    assert_eq!(manager.config.full_tool_specs.len(), 1);
    match manager.get_session("s1").unwrap().inbox.last() {
        Some(SessionMessage::SystemNotification { content }) => {
            assert!(content.starts_with(
                "MCP server connection failed:\n- Server \"git\": no node\n\nYou are an AI agent."
            ));
            assert!(content.ends_with("ask the user to re-enable the MCP server."));
        }
        _ => panic!("the model is told of failures"),
    }
    manager.apply_mcp_servers(None);
    assert!(manager.mcp_tools.is_none());
    assert!(manager.config.full_tool_specs.is_empty());
    manager.apply_mcp_servers(Some((vec![tool("mcp_a")], Vec::new())));
    assert!(matches!(
        manager.get_session("s1").unwrap().inbox.last(),
        Some(SessionMessage::UpdateMcpTools { mcp_tools: Some(_) })
    ));
}

// ── Workspaces ─────────────────────────────────────────────────────

#[test]
fn a_refused_switch_is_remembered() {
    let mut manager = manager();
    manager.create_session_with_id("s1".to_string(), build_core(), start());
    let to = manager.route_workspace_switch("s1", "ghost", "t".to_string(), None);
    assert_eq!(to, "__agent_home__");
    assert_eq!(manager.pending_workspace_id("s1"), Some("ghost"));
    assert_eq!(
        manager.get_session("s1").unwrap().current_work_dir.as_deref(),
        Some("/home/agent")
    );
    let to = manager.route_workspace_switch("s1", "ws1", "t".to_string(), None);
    assert_eq!(to, "ws1");
    assert_eq!(manager.pending_workspace_id("s1"), None);
    assert_eq!(manager.session_workspace_id("s1"), "ws1");
    manager.set_session_workspace_with_resolver("s1", "__agent_home__");
    assert_eq!(manager.session_workspace_id("s1"), "__agent_home__");
}

#[test]
fn deleted_workspaces_fall_back_and_wait() {
    let mut manager = manager();
    manager.create_session_with_id_and_conversation(
        "s1".to_string(),
        Some(conversation("s1")),
        Some(0),
        build_core(),
        start(),
    );
    manager.create_session_with_id("s2".to_string(), build_core(), start());
    manager.set_session_workspace("s1", "ws1");
    let left = Workspaces { agent_home: "/home/agent".to_string(), dirs: StrMap::new() };
    manager.reconcile_deleted_workspaces(&left);
    assert_eq!(manager.session_workspace_id("s1"), "__agent_home__");
    assert_eq!(manager.pending_workspace_id("s1"), Some("ws1"));
    assert_eq!(manager.pending_workspace_id("s2"), None);
    let c = manager.get_session("s1").unwrap().conversation.as_ref().unwrap();
    assert_eq!(c.config.workspace_id.as_deref(), Some("__agent_home__"));
}

// ── The rest ───────────────────────────────────────────────────────

#[test]
fn the_debugger_is_switched_on_once() {
    let mut manager = manager();
    manager.create_session_with_id("s1".to_string(), build_core(), start());
    assert!(manager.enable_debug_mode());
    assert!(!manager.enable_debug_mode());
    let handle = manager.get_session("s1").unwrap();
    assert!(handle.debug_pending);
    assert!(matches!(handle.inbox.last(), Some(SessionMessage::EnableDebugMode)));
    assert!(manager.debug_controllers.contains_key("s1"));
    manager.create_session_with_id("s2".to_string(), build_core(), start());
    assert!(manager.debug_controllers.contains_key("s2"));
}

#[test]
fn the_user_is_described_line_by_line() {
    let profile = UserProfile {
        display_name: "Alice".to_string(),
        language: "zh-CN".to_string(),
        timezone: "Asia/Shanghai".to_string(),
        city: Some("Shanghai".to_string()),
        country: None,
        occupation: None,
        communication_style: Some("concise".to_string()),
        custom: vec![("Pet".to_string(), "cat".to_string())],
    };
    assert_eq!(
        format_user_profile_context(&profile),
        "- Display Name: Alice\n- Language: zh-CN\n- Timezone: Asia/Shanghai\n- City: Shanghai\n\
         - Communication Style: concise\n- Pet: cat"
    );
    let mut manager = manager();
    manager.create_session_with_id("s1".to_string(), build_core(), start());
    manager.update_user_identity(Some(&profile));
    assert!(manager.config.identity_context.is_some());
    manager.update_user_identity(None);
    assert!(manager.config.identity_context.is_none());
    assert!(matches!(
        manager.get_session("s1").unwrap().inbox.last(),
        Some(SessionMessage::UpdateIdentityContext { identity_context: None })
    ));
    manager.handle_embedding_config_update("e".to_string(), "m".to_string(), 3);
    manager.clear_embedding_config();
    assert!(matches!(
        manager.get_session("s1").unwrap().inbox.last(),
        Some(SessionMessage::DisableEmbedConfig)
    ));
}

#[test]
fn a_missing_meta_file_gives_an_empty_summary() {
    assert_eq!(SessionManager::session_metadata_summary(None), (None, None, None));
    let meta = Some((Some("m".to_string()), None, "2026".to_string()));
    assert_eq!(
        SessionManager::session_metadata_summary(meta),
        (Some("m".to_string()), None, Some("2026".to_string()))
    );
}
