//! A turn of one session.

use acowork_runtime::attachments::AttachedItem;
use acowork_runtime::builtin_tools::{AgentToolEntry, BuiltinToolEntry, ToolDef};
use acowork_runtime::context::{
    check_context_overflow, exceeds_percent, needs_emergency_trim, needs_rebuild,
    pre_trim_for_tool_results, prompt_tokens_reliable, reaches_percent, ContextLevel, UsageFacts, UsageTotals,
};
use acowork_runtime::conversation::{
    AttachmentMeta, ConversationEntry, ConversationOp, ConversationSession,
};
use acowork_runtime::error::RuntimeError;
use acowork_runtime::interaction::{
    invalid_question, question_arguments, question_heartbeat, Question,
};
use acowork_runtime::json::{Json, Member};
use acowork_runtime::llm_effects::provider_to_rebuild;
use acowork_runtime::llm_stream::StreamAction;
use acowork_runtime::memory::{MemoryContext, MemoryPlan, RetrievedMemories};
use acowork_runtime::message::{
    ChatMessage, ChatResponse, FunctionCall, MessageRole, ToolCall, UsageInfo,
};
use acowork_runtime::model::{ModelCapabilitiesInfo, ProviderListItem, ProviderModelEntry};
use acowork_runtime::restorer::{restore_history_from_jsonl, LogLine, SessionLog};
use acowork_runtime::session::{
    ChunkEvent, ContextUsageInfo, ReasoningEffort, Temperature, TodoItem, TodoStatus,
};
use acowork_runtime::session_config::{
    resolve_effective_reasoning_effort, SessionConfigDelta, SessionConfigSnapshot,
};
use acowork_runtime::session_message::{CompressionAction, SessionMessage};
use acowork_runtime::session_task::{DebugState, ErrorInfo, SessionTask, TaskFacts, TaskStep};
use acowork_runtime::text::{
    contains, debug_list, decimal, decimal_wide, signed_decimal, trim, truncate_utf8,
};
use acowork_runtime::tool_pipeline::{CallRoute, LoopPattern, LoopVerdict, ResponseLevel};
use acowork_runtime::turn::{budget_estimate, build_think_metadata, BudgetCheckResult};
use acowork_runtime::agent_loop::{AgentCore, AgentLoop};
use acowork_runtime::overrides::RuntimeConfigOverrides;
use acowork_runtime::session::{SessionCore, SessionSnapshot, SessionState, SessionStatus};
use acowork_runtime::str_map::StrMap;

fn caps(context_window: u64) -> ModelCapabilitiesInfo {
    ModelCapabilitiesInfo {
        context_window,
        max_output_tokens: 4096,
        max_input_tokens: None,
        supports_tool_calling: true,
        supports_reasoning: None,
        supports_attachment: None,
        supports_temperature: None,
        name: None,
        family: None,
        knowledge_cutoff: None,
        default_reasoning_effort: None,
        thinking_mode: None,
    }
}

fn build_core() -> AgentCore {
    AgentCore {
        agent_id: "com.test.compact".to_string(),
        work_dir: "/work".to_string(),
        max_sessions: 10,
        model: "deepseek-v4-flash".to_string(),
        global_provider_list: Vec::new(),
        provider_list_version: 0,
        provider_key_vault: StrMap::new(),
        provider_compact_models: StrMap::new(),
        default_compact_model: None,
        search_key_vault: StrMap::new(),
        search_provider_list: Vec::new(),
        overrides: RuntimeConfigOverrides::default(),
        manifest_temperature: None,
        compaction_prompt: None,
        builtin_tools: Vec::new(),
        platform_tools: Vec::new(),
        mcp_tools: None,
        memory_store: None,
    }
}

fn build_loop() -> AgentLoop {
    AgentLoop {
        core: build_core(),
        session: SessionState {
            status: SessionStatus::Idle,
            model: None,
            provider: None,
            temperature: None,
            reasoning_effort: None,
            model_ratio_bits: None,
            history: Vec::new(),
            conversation: None,
            is_compacted: false,
            identity_context: None,
            todos: Vec::new(),
            snapshot: SessionSnapshot {
                session_id: String::new(),
                status: String::new(),
                model: None,
                provider: None,
                ratio_bits: None,
                todos_json: None,
                context_usage: None,
            },
        },
        session_core: SessionCore {
            session_id: None,
            title: None,
            streaming_flush_count: 0,
            next_seq: 0,
            outbox: Vec::new(),
        },
        pending_user_message: None,
        pending_transient_tool_msgs: Vec::new(),
        last_reasoning_effort: None,
        last_thinking_mode: None,
        last_input_chars: 0,
        memory_retrieved_for_session: false,
    }
}

fn with_conversation() -> AgentLoop {
    let mut loop_ = build_loop();
    loop_.session_core.session_id = Some("s1".to_string());
    loop_.session.conversation =
        Some(ConversationSession::new("s1".to_string(), SessionConfigSnapshot::default()));
    loop_
}

fn response(content: &str) -> ChatResponse {
    ChatResponse {
        content: content.to_string(),
        reasoning_content: None,
        tool_calls: None,
        usage: None,
        reasoning_started_at: None,
        reasoning_finished_at: None,
        finish_reason: None,
    }
}

fn call(name: &str, id: &str) -> ToolCall {
    ToolCall {
        id: id.to_string(),
        call_type: "function".to_string(),
        function: FunctionCall { name: name.to_string(), arguments: "{}".to_string() },
    }
}

fn ops(loop_: &AgentLoop) -> &Vec<ConversationOp> {
    &loop_.session.conversation.as_ref().unwrap().ops
}

fn listed(model: &str) -> Vec<ProviderListItem> {
    vec![ProviderListItem {
        id: "p".to_string(),
        base_url: String::new(),
        local: false,
        compact_model: None,
        custom: false,
        models: vec![ProviderModelEntry {
            id: model.to_string(),
            capabilities: caps(1_000),
            max_output_tokens_limit: 100,
        }],
    }]
}

fn totals() -> UsageTotals {
    UsageTotals { session_input: None, session_output: None, agent_input: 0, agent_output: 0 }
}

// ── Requests ───────────────────────────────────────────────────────

fn tool(name: &str) -> ToolDef {
    ToolDef {
        name: name.to_string(),
        spec: Json::Object(vec![Member {
            name: "name".to_string(),
            value: Json::Text(name.to_string()),
        }]),
    }
}

#[test]
fn build_chat_request_block_layout_b_contains_current_and_d_duplicate() {
    let mut loop_ = build_loop();
    loop_.session.history.push(ChatMessage::user("First turn".to_string()));
    loop_.session.history.push(ChatMessage::assistant("First reply".to_string()));
    let current = ChatMessage::user("Second turn".to_string());
    loop_.session.history.push(current.clone());
    loop_.pending_user_message = Some(current.clone());

    let request = loop_.build_chat_request(
        "test-model",
        "Kernel",
        Some("Active Task List: Task 1"),
        None,
        None,
        Temperature { bits: 0 },
    );

    assert_eq!(request.messages[0].role, MessageRole::System);
    assert!(!request.messages[0].content.contains("Active Task List"));
    assert!(request
        .messages
        .iter()
        .any(|m| m.role == MessageRole::User && m.content == "Second turn"));
    let block_c =
        request.messages.iter().find(|m| m.content.contains("Active Task List")).unwrap();
    assert_eq!(block_c.role, MessageRole::User);
    let block_d = request.messages.last().unwrap();
    assert_eq!(block_d.role, MessageRole::User);
    assert_eq!(block_d.content, current.content);
    assert_eq!(request.messages.iter().filter(|m| m.content == "Second turn").count(), 2);
}

#[test]
fn build_chat_request_block_d_none_in_tool_iteration() {
    let mut loop_ = build_loop();
    loop_.session.history.push(ChatMessage::user("Turn".to_string()));
    let mut with_tools = ChatMessage::assistant(String::new());
    with_tools.tool_calls = Some(vec![call("test_tool", "toolu_1")]);
    loop_.session.history.push(with_tools);
    let mut result = ChatMessage::plain(MessageRole::Tool, "ok".to_string());
    result.tool_call_id = Some("toolu_1".to_string());
    loop_.session.history.push(result);
    loop_.pending_user_message = None;

    let request =
        loop_.build_chat_request("test-model", "Kernel", None, None, None, Temperature { bits: 0 });

    let last = request.messages.last().unwrap();
    assert_eq!(last.role, MessageRole::Tool);
    assert_eq!(request.messages.iter().filter(|m| m.content == "Turn").count(), 1);
}

#[test]
fn tools_of_servers_follow_the_built_in_ones() {
    let mut loop_ = build_loop();
    loop_.core.mcp_tools = Some(vec![tool("mcp_a")]);
    let none = Temperature { bits: 0 };
    let request =
        loop_.build_chat_request("m", "k", None, Some(vec![tool("shell").spec]), None, none);
    let names: Vec<String> = request
        .tools
        .unwrap()
        .iter()
        .map(|t| t.get_str("name").unwrap().to_string())
        .collect();
    assert_eq!(names, vec!["shell", "mcp_a"]);
    loop_.core.global_provider_list = listed("m");
    let request = loop_.build_chat_request("m", "k", None, None, None, none);
    assert_eq!(request.max_output_limit, Some(100));
    assert_eq!(request.capabilities, Some(caps(1_000)));
    assert!(loop_.build_chat_request("m", "k", None, None, None, none).tools.is_none());
    loop_.pending_transient_tool_msgs.push(ChatMessage::user("once".to_string()));
    let mut messages = Vec::new();
    loop_.finish_chat_request(&mut messages, 42);
    assert_eq!(messages[0].content, "once");
    assert_eq!(loop_.last_input_chars, 42);
    assert!(loop_.pending_transient_tool_msgs.is_empty());
}

#[test]
fn auto_inject_does_not_set_flag_without_provider() {
    let loop_ = build_loop();
    let mut context = MemoryContext { retrieved: None, confirmation_hint: None };
    let plan = loop_.retrieve_and_inject_memories("hello", &mut context, false, true);
    assert!(matches!(plan, MemoryPlan::NoProvider));
    assert!(!loop_.memory_retrieved_for_session);
    let plan = loop_.retrieve_and_inject_memories("hello again", &mut context, false, true);
    assert!(matches!(plan, MemoryPlan::NoProvider));
    assert!(!loop_.memory_retrieved_for_session);
}

#[test]
fn memories_of_an_earlier_turn_are_cleared() {
    let mut loop_ = with_conversation();
    let mut context = MemoryContext {
        retrieved: Some("stale".to_string()),
        confirmation_hint: None,
    };
    match loop_.retrieve_and_inject_memories("hello", &mut context, true, true) {
        MemoryPlan::Retrieve { session_id, query } => {
            assert_eq!(session_id.as_deref(), Some("s1"));
            assert_eq!(query, "hello");
        }
        other => panic!("the first message looks for memories: {other:?}"),
    }
    assert!(context.retrieved.is_none());
    loop_.inject_memories(
        &mut context,
        Some(RetrievedMemories { formatted_text: "m".to_string(), ambiguous_hint: None }),
    );
    assert_eq!(context.retrieved.as_deref(), Some("m"));
    assert!(loop_.memory_retrieved_for_session);
    assert!(matches!(
        loop_.retrieve_and_inject_memories("again", &mut context, true, false),
        MemoryPlan::Publish { .. }
    ));
    assert!(context.retrieved.is_none());
}

// ── Replies and tool results ───────────────────────────────────────

#[test]
fn a_text_reply_stands_in_history_log_and_outbox() {
    let mut loop_ = with_conversation();
    let content = loop_.handle_text_response(&response("answer"));
    assert_eq!(content, "answer");
    assert_eq!(loop_.session.history.last().unwrap().content, "answer");
    let logged = ops(&loop_).iter().any(|op| {
        matches!(op, ConversationOp::Append(e) if e.role == "assistant" && e.content == "answer")
    });
    assert!(logged);
}

#[test]
fn what_was_logged_while_it_streamed_in_is_not_logged_again() {
    let mut loop_ = with_conversation();
    let before = ops(&loop_).len();
    loop_.session_core.line_flushed();
    assert_eq!(loop_.session_core.streaming_flush_count, 1);
    loop_.handle_text_response(&response("answer"));
    assert_eq!(ops(&loop_).len(), before);
    assert!(matches!(
        loop_.session_core.outbox.last(),
        Some(ChunkEvent::FlushStreamingLine)
    ));
}

#[test]
fn tool_calls_and_results_are_logged_under_the_ids_that_are_shown() {
    let mut loop_ = with_conversation();
    let mut r = response("");
    r.tool_calls = Some(vec![call("shell", "t1"), call("shell", "t1")]);
    let calls = loop_.prepare_tool_calls(&r);
    assert_eq!(calls.len(), 1);
    loop_.persist_and_emit_tool_results(&calls, &vec!["Error: no".to_string()]);
    let shown: Vec<(String, bool)> = loop_
        .session_core
        .outbox
        .iter()
        .filter_map(|e| match e {
            ChunkEvent::Record(rec) => Some((rec.message_id.clone(), rec.is_error)),
            _ => None,
        })
        .collect();
    let logged: Vec<String> = ops(&loop_)
        .iter()
        .filter_map(|op| match op {
            ConversationOp::Append(e) if e.role.starts_with("tool") => e.id.clone(),
            _ => None,
        })
        .collect();
    assert_eq!(shown.iter().map(|s| s.0.clone()).collect::<Vec<_>>(), logged);
    assert!(shown.last().unwrap().1);
    assert_ne!(logged[0], logged[1]);
}

/// The log that the writer makes of what a conversation gave it.
fn log_of(loop_: &AgentLoop) -> SessionLog {
    let lines: Vec<LogLine> = ops(loop_)
        .iter()
        .filter_map(|op| match op {
            ConversationOp::Append(e) => Some(e),
            _ => None,
        })
        .enumerate()
        .map(|(i, e)| LogLine {
            start: i as u64,
            text: Some("line".to_string()),
            entry: Some(ConversationEntry {
                id: format!("e{i}"),
                ts: "2026-01-01T00:00:00Z".to_string(),
                role: e.role.clone(),
                content: e.content.clone(),
                metadata: e.metadata.clone(),
                kind: None,
            }),
        })
        .collect();
    let len = lines.len() as u64;
    SessionLog { lines, len }
}

#[test]
fn a_turn_is_restored_as_it_stood() {
    let mut loop_ = with_conversation();
    loop_.session.history.clear();
    let mut r = response("");
    r.reasoning_content = Some("look first".to_string());
    r.tool_calls = Some(vec![call("grep", "t1"), call("glob", "t2")]);
    let calls = loop_.prepare_tool_calls(&r);
    let results = vec!["two hits".to_string(), "Error: none".to_string()];
    loop_.persist_and_emit_tool_results(&calls, &results);
    loop_.handle_text_response(&response("found"));

    let log = log_of(&loop_);
    let restored = restore_history_from_jsonl(Ok(&log), None, None).unwrap().messages;
    assert_eq!(restored.len(), 4);
    assert_eq!(restored[0], loop_.session.history[0]);
    assert_eq!(restored[0].reasoning_content.as_deref(), Some("look first"));
    assert_eq!(restored[1].tool_call_id.as_deref(), Some("t1"));
    assert_eq!(restored[2].content, "Error: none");
    assert_eq!(&restored[3], loop_.session.history.last().unwrap());
}

#[test]
fn reasoning_times_are_kept() {
    let mut r = response("x");
    assert!(build_think_metadata(&r).is_none());
    r.reasoning_started_at = Some(1);
    r.reasoning_finished_at = Some(4);
    assert!(build_think_metadata(&r).is_some());
}

#[test]
fn loops_warn_and_break() {
    let mut loop_ = build_loop();
    let warn = LoopVerdict::Loop {
        level: ResponseLevel::Warning,
        pattern: LoopPattern::NoProgress,
        message: "slow down".to_string(),
    };
    assert!(loop_.post_check_loop_detection(&Vec::new(), &vec![warn]).is_ok());
    let warning = loop_.session.history.last().unwrap();
    assert_eq!(warning.name.as_deref(), Some("system"));
    let stop = LoopVerdict::Loop {
        level: ResponseLevel::Break,
        pattern: LoopPattern::ExactRepeat,
        message: "stop".to_string(),
    };
    loop_.session.status = SessionStatus::ToolExecuting;
    assert!(matches!(
        loop_.post_check_loop_detection(&Vec::new(), &vec![stop]),
        Err(RuntimeError::LoopDetected(_))
    ));
    assert!(loop_.session.status.same(&SessionStatus::Idle));
}

#[test]
fn a_spent_budget_warns_or_ends_the_turn() {
    let mut loop_ = build_loop();
    assert!(loop_.check_budget_and_warn(&BudgetCheckResult::Allowed).is_ok());
    let over = |action: &str| BudgetCheckResult::Exceeded {
        reason: "daily".to_string(),
        action: action.to_string(),
    };
    assert!(loop_.check_budget_and_warn(&over("warn")).is_ok());
    assert_eq!(loop_.session.history.last().unwrap().content, "[System Warning] daily");
    assert!(matches!(
        loop_.check_budget_and_warn(&over("deny")),
        Err(RuntimeError::BudgetExceeded(_))
    ));
    assert_eq!(budget_estimate(100), 600);
}

// ── Context ────────────────────────────────────────────────────────

#[test]
fn thresholds_are_exact() {
    assert!(reaches_percent(80, 80, 100));
    assert!(!reaches_percent(79, 80, 100));
    assert!(!exceeds_percent(90, 90, 100));
    assert!(exceeds_percent(91, 90, 100));
    assert_eq!(check_context_overflow(70, 100), ContextLevel::Fine);
    assert_eq!(check_context_overflow(71, 100), ContextLevel::Approaching);
    assert_eq!(check_context_overflow(91, 100), ContextLevel::Over);
    assert!(needs_rebuild(ContextLevel::Over, 1));
    assert!(!needs_rebuild(ContextLevel::Over, 0));
    assert!(!needs_rebuild(ContextLevel::Approaching, 1));
    assert!(needs_emergency_trim(101, 100));
    assert!(!needs_emergency_trim(100, 100));
    assert!(pre_trim_for_tool_results(80, &vec![20], 100));
    assert!(!pre_trim_for_tool_results(10, &vec![20], 100));
}

#[test]
fn usage_is_counted_for_session_and_agent() {
    let mut loop_ = with_conversation();
    loop_.core.global_provider_list = listed("m");
    let usage =
        UsageInfo { prompt_tokens: 9, completion_tokens: 1, total_tokens: 10, reasoning_tokens: 0 };
    assert!(prompt_tokens_reliable(&usage));
    let mut r = response("x");
    r.usage = Some(usage);
    let facts = UsageFacts {
        local_estimate: 5,
        ratio_bits: None,
        measured: ContextUsageInfo {
            context_window: 1_000,
            input_tokens: 9,
            output_tokens: 1,
            total_tokens: 10,
            max_input_tokens: None,
            usable_context: 900,
            usage_percent: 1,
            total_input_tokens: None,
            total_output_tokens: None,
            agent_total_input_tokens: None,
            agent_total_output_tokens: None,
        },
        input_budget: 900,
        estimate_percent: 1,
        totals: totals(),
    };
    assert_eq!(loop_.process_llm_response_usage(&r, "m", &facts), Some(10));
    assert_eq!(loop_.process_llm_response_usage(&response("x"), "m", &facts), None);
    assert!(ops(&loop_).iter().any(|op| matches!(op, ConversationOp::AccumulateUsage(u) if *u == usage)));
    assert!(loop_
        .session_core
        .outbox
        .iter()
        .any(|e| matches!(e, ChunkEvent::AgentUsage(u) if *u == usage)));
}

// ── Loop ───────────────────────────────────────────────────────────

#[test]
fn titles_are_written_once() {
    let mut loop_ = build_loop();
    assert_eq!(loop_.update_session_title("t"), None);
    assert_eq!(loop_.current_session_id(), None);
    let mut loop_ = with_conversation();
    assert_eq!(loop_.current_session_id(), Some("s1"));
    assert_eq!(loop_.update_session_title("t"), Some(true));
    assert_eq!(loop_.update_session_title("t"), Some(false));
    assert_eq!(ops(&loop_).len(), 1);
    loop_.session_core.title = Some("made".to_string());
    loop_.flush_pending_title();
    loop_.flush_pending_title();
    assert_eq!(ops(&loop_).len(), 2);
}

#[test]
fn the_memory_lies_below_the_working_directory() {
    let mut loop_ = build_loop();
    loop_.init_memory_store("/work");
    assert_eq!(loop_.core.memory_store.as_deref(), Some("/work/memory/private.grafeo"));
    loop_.init_memory_store("/work/");
    assert_eq!(loop_.core.memory_store.as_deref(), Some("/work/memory/private.grafeo"));
}

#[test]
fn only_a_change_of_status_is_published() {
    let mut loop_ = build_loop();
    assert!(!loop_.transition_status(SessionStatus::Idle));
    assert!(loop_.transition_status(SessionStatus::Thinking));
    assert_eq!(loop_.session_core.outbox.len(), 1);
    loop_.session.snapshot.context_usage = Some("u".to_string());
    loop_.emit_session_state("thinking".to_string(), None, None);
    assert_eq!(loop_.session.snapshot.context_usage.as_deref(), Some("u"));
    assert_eq!(loop_.session.snapshot.status, "thinking");

    let mut loop_ = with_conversation();
    loop_.session.todos = vec![TodoItem {
        id: "1".to_string(),
        content: "x".to_string(),
        status: TodoStatus::Pending,
    }];
    loop_.emit_session_state("idle".to_string(), Some("[1]".to_string()), Some("c".to_string()));
    assert_eq!(loop_.session.snapshot.todos_json.as_deref(), Some("[1]"));
    assert!(matches!(
        &ops(&loop_)[0],
        ConversationOp::PublishState { status, ratio_bits: 0, context_usage }
            if status == "idle" && context_usage == "c"
    ));
    loop_.session.todos.clear();
    loop_.emit_session_state("idle".to_string(), Some("[]".to_string()), None);
    assert!(loop_.session.snapshot.todos_json.is_none());
}

#[test]
fn attachments_are_logged_one_by_one() {
    let mut loop_ = with_conversation();
    let items = vec![AttachedItem::AttachedFolder {
        abs_path: "/work/src".to_string(),
        name: "src".to_string(),
        client_id: None,
    }];
    loop_.write_attached_items(&items);
    assert!(matches!(
        &ops(&loop_)[0],
        ConversationOp::AppendAttachment { meta: AttachmentMeta::AttachedFolder { name, .. }, .. }
            if name == "src"
    ));
}

#[test]
fn a_question_is_shown_and_taken_back() {
    let mut loop_ = build_loop();
    let id = loop_.handle_ask_user_question(Question {
        question: "?".to_string(),
        options: vec!["a".to_string()],
        title: None,
    });
    assert!(id.starts_with("q-"));
    assert_eq!(id.len(), 38);
    assert!(matches!(
        &loop_.session.status,
        SessionStatus::WaitingApproval { request_id } if *request_id == id
    ));
    loop_.finish_question();
    let n = loop_.session_core.outbox.len();
    assert!(matches!(
        &loop_.session_core.outbox[n - 2],
        ChunkEvent::ClearRetained { event_type } if event_type == "ask_question"
    ));
    assert!(loop_.session.status.same(&SessionStatus::LlmAwaitingFirstChunk));
    assert!(question_heartbeat("s", "q", 300_000, 300).1);
    let (beat, last) = question_heartbeat("s", "q", 299_999, 300);
    assert!(!last);
    assert!(matches!(
        beat,
        ChunkEvent::ToolProgress { session_id, tool_call_id, elapsed_ms: 299_999, timeout_ms: 300_000 }
            if session_id == "s" && tool_call_id == "q"
    ));
    assert_eq!(invalid_question("x"), "Error: ask_user_question invalid params: x");
    assert!(question_arguments(&call("ask_user_question", "1")).is_ok());
}

#[test]
fn a_written_todo_list_is_kept_and_shown() {
    let mut loop_ = build_loop();
    let item = TodoItem {
        id: "1".to_string(),
        content: "c".to_string(),
        status: TodoStatus::Completed,
    };
    let reply = loop_.finish_todo_write(vec![item], true, Some("- [x] c"));
    assert_eq!(reply, "Todo list updated (1 items, merge=true):\n- [x] c");
    assert_eq!(loop_.session.todos.len(), 1);
    assert!(matches!(
        loop_.session_core.outbox.last(),
        Some(ChunkEvent::TodoListUpdated { todos }) if todos[0].content == "c"
    ));
    assert_eq!(loop_.finish_todo_write(Vec::new(), false, None), "Todo list is now empty.");
}

#[test]
fn calls_are_sent_on_their_way() {
    let mut loop_ = build_loop();
    let calls = vec![call("shell", "1"), call("todo_write", "2"), call("grep", "3")];
    let dispatch = loop_.begin_dispatch(&calls);
    assert_eq!(
        dispatch.routes,
        vec![CallRoute::Parallel, CallRoute::TodoWrite, CallRoute::Parallel]
    );
    let names: Vec<&str> = dispatch.parallel.iter().map(|c| c.function.name.as_str()).collect();
    assert_eq!(names, vec!["shell", "grep"]);
    assert!(loop_.session.status.same(&SessionStatus::ToolExecuting));
    assert_eq!(loop_.session_core.outbox.len(), 1);
}

#[test]
fn a_response_begins_with_nothing_in_the_log() {
    let mut loop_ = build_loop();
    loop_.session_core.streaming_flush_count = 3;
    let state = loop_.begin_stream();
    assert_eq!(loop_.session_core.streaming_flush_count, 0);
    assert_eq!(state.tool_call_count(), 0);
    assert!(loop_.show_stream_action(&StreamAction::ShowThinking));
    assert!(loop_.session.status.same(&SessionStatus::Thinking));
    assert!(loop_.show_stream_action(&StreamAction::ShowReplying));
    assert!(!loop_.show_stream_action(&StreamAction::FlushLine));
    assert!(loop_.session.status.same(&SessionStatus::LlmStreaming { message_id: None }));
}

#[test]
fn a_repeated_request_asks_as_the_first_one_did() {
    let mut loop_ = build_loop();
    loop_.session.history = vec![ChatMessage::user("old".to_string())];
    loop_.pending_user_message = Some(ChatMessage::user("now".to_string()));
    loop_.session.reasoning_effort = Some(ReasoningEffort::Level("high".to_string()));
    let first =
        loop_.build_chat_request("m", "Kernel", None, None, None, Temperature { bits: 1 });
    assert_eq!(first.messages.last().unwrap().content, "now");
    loop_.session.reasoning_effort = None;
    loop_.session.history.clear();
    assert_eq!(first.max_output_limit, None);
    assert_eq!(first.capabilities, None);
    loop_.core.global_provider_list = listed("m");
    let again = loop_.rebuild_request("m", "Kernel", None, None, Temperature { bits: 2 });
    assert_eq!(again.max_output_limit, Some(100));
    assert_eq!(again.capabilities, Some(caps(1_000)));
    assert_eq!(loop_.core.max_output_tokens_limit_for_model("other"), None);
    assert_eq!(again.messages.len(), 2);
    assert_eq!(again.messages.last().unwrap().content, "now");
    assert!(matches!(&again.params.reasoning_effort, Some(ReasoningEffort::Level(l)) if l == "high"));
    assert_eq!(again.params.temperature, Temperature { bits: 2 });
}

// ── Settings ───────────────────────────────────────────────────────

#[test]
fn the_effort_that_was_chosen_stays() {
    let mut c = caps(1_000);
    c.supports_reasoning = Some(true);
    let level = |s: &str| ReasoningEffort::Level(s.to_string());
    let text = |e: Option<ReasoningEffort>| e.map(|e| e.to_text());
    assert_eq!(
        text(resolve_effective_reasoning_effort(Some(&c), None, Some(level("low")))),
        Some("low".to_string())
    );
    assert_eq!(
        text(resolve_effective_reasoning_effort(Some(&c), None, None)),
        Some("auto".to_string())
    );
    c.default_reasoning_effort = Some("high".to_string());
    assert_eq!(
        text(resolve_effective_reasoning_effort(Some(&c), Some(level("high")), None)),
        Some("high".to_string())
    );
    assert_eq!(text(resolve_effective_reasoning_effort(None, Some(level("high")), None)), None);
}

#[test]
fn changes_leave_the_rest_alone() {
    let mut config = SessionConfigSnapshot::default();
    config.change(&SessionConfigDelta {
        title: Some("t".to_string()),
        ..SessionConfigDelta::default()
    });
    config.change(&SessionConfigDelta {
        model: Some("m".to_string()),
        provider: Some("p".to_string()),
        ..SessionConfigDelta::default()
    });
    assert_eq!(config.title.as_deref(), Some("t"));
    let before = SessionConfigSnapshot::default();
    assert_eq!(provider_to_rebuild(&config, &before).map(|s| s.as_str()), Some("p"));
    assert!(provider_to_rebuild(&config, &config).is_none());
}

// ── Task ───────────────────────────────────────────────────────────

fn task() -> SessionTask {
    let loop_ = with_conversation();
    let mut core = build_core();
    core.builtin_tools = vec![BuiltinToolEntry { tool: tool("shell"), enabled: true }];
    core.global_provider_list = listed("m2");
    SessionTask::new(
        core,
        loop_.session,
        loop_.session_core,
        "prompt".to_string(),
        "s1".to_string(),
        None,
        None,
        &Vec::new(),
        &RuntimeConfigOverrides::default(),
    )
}

fn facts() -> TaskFacts {
    TaskFacts {
        input_budget: 900,
        history_tokens: 10,
        usage_percent: 1,
        totals: totals(),
        embedding_dim: Some(3),
        debug_state: None,
    }
}

fn chat(content: &str) -> SessionMessage {
    SessionMessage::ChatMessage {
        content: content.to_string(),
        message_id: "m1".to_string(),
        skill_instructions: None,
        attached_items: None,
        content_parts: None,
    }
}

#[test]
fn messages_say_what_to_do() {
    let mut t = task();
    assert!(matches!(t.on_message(Some(chat("  ")), &facts()), TaskStep::Next));
    match t.on_message(Some(chat("hi")), &facts()) {
        TaskStep::RunTurn(turn) => {
            assert_eq!(turn.content, "hi");
            assert!(!turn.derive_images);
        }
        other => panic!("a message runs a turn: {other:?}"),
    }
    assert_eq!(
        t.replay_on_resume(Some(DebugState::Running)),
        Some((&"hi".to_string(), &"m1".to_string()))
    );
    assert_eq!(t.replay_on_resume(Some(DebugState::Paused)), None);
    assert!(matches!(t.on_message(Some(SessionMessage::Close), &facts()), TaskStep::Shutdown));
    assert!(matches!(t.on_message(None, &facts()), TaskStep::Shutdown));
    let compress = SessionMessage::CompressAction(CompressionAction::CompressSummary);
    assert!(matches!(
        t.on_message(Some(compress), &facts()),
        TaskStep::Compact { model_name } if model_name == "default"
    ));
    let embed = SessionMessage::UpdateEmbedConfig {
        embed_endpoint: "e".to_string(),
        embed_model_id: "m".to_string(),
        embed_dimension: 4,
    };
    assert!(matches!(
        t.on_message(Some(embed), &facts()),
        TaskStep::SwitchEmbedding { migrate: true, .. }
    ));
}

#[test]
fn the_model_sees_the_tools_that_are_on() {
    let mut t = task();
    assert_eq!(t.context.tool_definitions.len(), 1);
    let off = SessionMessage::UpdateBuiltinTools {
        entries: vec![AgentToolEntry { name: "shell".to_string(), enabled: false }],
    };
    t.on_message(Some(off), &facts());
    assert!(t.context.tool_definitions.is_empty());
}

#[test]
fn settings_from_outside_hold_from_the_next_turn() {
    let mut t = task();
    let mut shared = t.agent_loop.session.conversation.as_ref().unwrap().shared();
    shared.apply_config(SessionConfigDelta {
        model: Some("m2".to_string()),
        provider: Some("p".to_string()),
        ..SessionConfigDelta::default()
    });
    assert!(t.stale_provider().is_none());
    t.see_config(&shared.config, shared.config_version);
    assert_eq!(t.stale_provider().map(|s| s.as_str()), Some("p"));
    assert!(t.poll_config(true, None, None));
    assert_eq!(t.agent_loop.session.model.as_deref(), Some("m2"));
    assert_eq!(t.context.override_model.as_deref(), Some("m2"));
    assert_eq!(t.agent_loop.core.model, "m2");
    assert!(!t.poll_config(true, None, None));
}

#[test]
fn ends_of_turns_are_told() {
    let mut t = task();
    t.turn_finished(Ok("done".to_string()), "m1".to_string(), false);
    let n = t.agent_loop.session_core.outbox.len();
    assert!(matches!(t.agent_loop.session_core.outbox[n - 2], ChunkEvent::Done { .. }));
    assert!(matches!(t.agent_loop.session_core.outbox[n - 1], ChunkEvent::NewDataAvailable));
    let error = ErrorInfo {
        user_message: "u".to_string(),
        detail: "d".to_string(),
        error_type: "e".to_string(),
    };
    t.turn_finished(Err(error), "m1".to_string(), false);
    assert!(matches!(t.agent_loop.session_core.outbox.last(), Some(ChunkEvent::Error { .. })));
}

#[test]
fn messages_are_described_for_the_log() {
    let text = SessionMessage::Close.debug_text("");
    assert_eq!(text, "Close");
    let text = SessionMessage::UpdateSessionTitle { title: "a\"b".to_string() }.debug_text("");
    assert!(text.contains("a\\\"b"), "got: {text}");
}

// ── Text ───────────────────────────────────────────────────────────

#[test]
fn texts_are_cut_and_counted_by_bytes() {
    assert_eq!(truncate_utf8("héllo", 2), "h");
    assert_eq!(truncate_utf8("héllo", 3), "hé");
    assert_eq!(trim("  a b \n"), "a b");
    assert!(contains("abc", "bc"));
    assert_eq!(decimal(0), "0");
    assert_eq!(decimal(u64::MAX), "18446744073709551615");
    assert_eq!(decimal_wide(u128::MAX), u128::MAX.to_string());
    assert_eq!(signed_decimal(-5), "-5");
    assert_eq!(signed_decimal(i64::MIN), i64::MIN.to_string());
    let list = vec!["a".to_string(), "b\n".to_string()];
    assert_eq!(debug_list(&list), format!("{list:?}"));
}
