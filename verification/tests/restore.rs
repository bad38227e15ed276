//! Rebuilding a history from a conversation log.

use acowork_runtime::conversation::ConversationEntry;
use acowork_runtime::json::{parse_json, Json};
use acowork_runtime::jsonl::{split_lines, text_at};
use acowork_runtime::message::{ChatMessage, FunctionCall, MessageRole, ToolCall};
use acowork_runtime::restorer::{
    drop_orphan_tool_results, restore_history_from_jsonl, LogLine, RestoreError, RestoreOutcome, SessionLog,
};

/// A log in the making.
struct Log {
    bytes: Vec<u8>,
    next: usize,
}

impl Log {
    fn new() -> Log {
        Log { bytes: Vec::new(), next: 0 }
    }

    fn line(&mut self, role: &str, content: &str, metadata: Option<&str>, kind: Option<&str>) {
        let mut entry = serde_json::Map::new();
        self.next += 1;
        entry.insert("id".to_string(), serde_json::Value::from(format!("e{}", self.next)));
        entry.insert("ts".to_string(), serde_json::Value::from("2026-01-01T00:00:00Z"));
        entry.insert("role".to_string(), serde_json::Value::from(role));
        entry.insert("content".to_string(), serde_json::Value::from(content));
        if let Some(m) = metadata {
            entry.insert("metadata".to_string(), serde_json::from_str(m).unwrap());
        }
        if let Some(k) = kind {
            entry.insert("kind".to_string(), serde_json::Value::from(k));
        }
        self.raw(&serde_json::Value::Object(entry).to_string());
    }

    fn append_message(&mut self, role: &str, content: &str, metadata: Option<&str>) {
        self.line(role, content, metadata, None);
    }

    fn append_compaction_event(&mut self, summary: &str) {
        self.line("system", summary, None, Some("compaction"));
    }

    fn raw(&mut self, text: &str) {
        self.bytes.extend_from_slice(text.as_bytes());
        self.bytes.push(b'\n');
    }

    fn restore(&self, compaction_abs: Option<u64>) -> RestoreOutcome {
        let lines = split_lines(&self.bytes)
            .into_iter()
            .map(|raw| {
                let entry = raw.text.as_deref().and_then(decode);
                LogLine { start: raw.start, text: raw.text, entry }
            })
            .collect();
        let log = SessionLog { lines, len: self.bytes.len() as u64 };
        let at = compaction_abs
            .and_then(|abs| text_at(&self.bytes, abs))
            .and_then(|text| decode(&text));
        restore_history_from_jsonl(Ok(&log), compaction_abs, at.as_ref()).unwrap()
    }

    fn last_compaction_offset(&self) -> u64 {
        let mut cursor = 0u64;
        let mut last_start = None;
        for line in self.bytes.split(|&b| b == b'\n') {
            let content = String::from_utf8_lossy(line);
            if content.contains("\"kind\":\"compaction\"") {
                last_start = Some(cursor);
            }
            cursor += (line.len() + 1) as u64;
        }
        last_start.expect("expected at least one compaction entry")
    }
}

/// The entry that a line holds.
fn decode(text: &str) -> Option<ConversationEntry> {
    let json = parse_json(text).ok()?;
    Some(ConversationEntry {
        id: json.get_str("id")?.to_string(),
        ts: json.get_str("ts")?.to_string(),
        role: json.get_str("role")?.to_string(),
        content: json.get_str("content")?.to_string(),
        metadata: match json.get("metadata") {
            None | Some(Json::Null) => None,
            Some(m) => Some(m.clone()),
        },
        kind: json.get_str("kind").map(|s| s.to_string()),
    })
}

#[test]
fn restore_simple_user_assistant_roundtrip() {
    let mut session = Log::new();
    session.append_message("user", "hi", None);
    session.append_message("assistant", "hello", None);

    let outcome = session.restore(None);
    assert!(!outcome.had_compaction);
    assert_eq!(outcome.messages.len(), 2);
    assert!(matches!(outcome.messages[0].role, MessageRole::User));
    assert_eq!(outcome.messages[0].content, "hi");
    assert!(matches!(outcome.messages[1].role, MessageRole::Assistant));
    assert_eq!(outcome.messages[1].content, "hello");
}

#[test]
fn restore_drops_thought_lines() {
    let mut session = Log::new();
    session.append_message("user", "q", None);
    session.append_message("thought", "internal monologue", None);
    session.append_message("assistant", "a", None);

    let outcome = session.restore(None);
    assert_eq!(outcome.messages.len(), 2, "thought should not enter context");
    assert!(outcome.messages.iter().all(|m| !matches!(m.role, MessageRole::System)));
    assert!(outcome.skipped_entry_count >= 1);
}

#[test]
fn restore_folds_reasoning_onto_tool_call_rounds() {
    let mut session = Log::new();
    session.append_message("user", "q1", None);
    // Thought, assistant content and tool call.
    session.append_message("thought", "rc-one", None);
    session.append_message("assistant", "listing", None);
    session.append_message(
        "tool_call",
        r#"{"path":"."}"#,
        Some(r#"{"tool_name":"glob_search","tool_call_id":"tc_1"}"#),
    );
    session.append_message(
        "tool_result",
        "a.rs",
        Some(r#"{"tool_name":"glob_search","tool_call_id":"tc_1"}"#),
    );
    // Thought and tool call only: a new assistant turn.
    session.append_message("thought", "rc-two", None);
    session.append_message(
        "tool_call",
        r#"{"path":"./src"}"#,
        Some(r#"{"tool_name":"glob_search","tool_call_id":"tc_2"}"#),
    );
    session.append_message(
        "tool_result",
        "main.rs",
        Some(r#"{"tool_name":"glob_search","tool_call_id":"tc_2"}"#),
    );

    let outcome = session.restore(None);
    assert_eq!(outcome.messages.len(), 5);
    assert!(matches!(outcome.messages[0].role, MessageRole::User));
    assert!(matches!(outcome.messages[1].role, MessageRole::Assistant));
    assert_eq!(outcome.messages[1].reasoning_content.as_deref(), Some("rc-one"));
    let calls1 = outcome.messages[1].tool_calls.as_ref().unwrap();
    assert_eq!(calls1.len(), 1);
    assert_eq!(calls1[0].id, "tc_1");
    assert!(matches!(outcome.messages[2].role, MessageRole::Tool));
    assert!(matches!(outcome.messages[3].role, MessageRole::Assistant));
    assert_eq!(
        outcome.messages[3].reasoning_content.as_deref(),
        Some("rc-two"),
        "thought before an empty-content tool round must become that \
         round's reasoning_content (not merge into the previous round)"
    );
    let calls2 = outcome.messages[3].tool_calls.as_ref().unwrap();
    assert_eq!(calls2.len(), 1);
    assert_eq!(calls2[0].id, "tc_2");
    assert!(matches!(outcome.messages[4].role, MessageRole::Tool));
    assert_eq!(outcome.messages[4].tool_call_id.as_deref(), Some("tc_2"));
}

#[test]
fn restore_merges_tool_calls_onto_assistant() {
    let mut session = Log::new();
    session.append_message("user", "list files", None);
    session.append_message("assistant", "", None);
    session.append_message(
        "tool_call",
        r#"{"path":"."}"#,
        Some(r#"{"tool_name":"glob_search","tool_call_id":"tc_1"}"#),
    );
    session.append_message(
        "tool_call",
        r#"{"path":"./src"}"#,
        Some(r#"{"tool_name":"glob_search","tool_call_id":"tc_2"}"#),
    );
    session.append_message(
        "tool_result",
        "a.rs\nb.rs",
        Some(r#"{"tool_name":"glob_search","tool_call_id":"tc_1"}"#),
    );
    session.append_message(
        "tool_result",
        "main.rs",
        Some(r#"{"tool_name":"glob_search","tool_call_id":"tc_2"}"#),
    );

    let outcome = session.restore(None);
    assert_eq!(outcome.messages.len(), 4);
    assert!(matches!(outcome.messages[0].role, MessageRole::User));
    assert!(matches!(outcome.messages[1].role, MessageRole::Assistant));
    let calls = outcome.messages[1].tool_calls.as_ref().unwrap();
    assert_eq!(calls.len(), 2);
    assert_eq!(calls[0].id, "tc_1");
    assert_eq!(calls[1].id, "tc_2");
    assert!(matches!(outcome.messages[2].role, MessageRole::Tool));
    assert_eq!(outcome.messages[2].tool_call_id.as_deref(), Some("tc_1"));
    assert!(matches!(outcome.messages[3].role, MessageRole::Tool));
    assert_eq!(outcome.messages[3].tool_call_id.as_deref(), Some("tc_2"));
}

#[test]
fn restore_drops_orphan_tool_result() {
    let mut session = Log::new();
    session.append_message("user", "q", None);
    session.append_message(
        "tool_result",
        "stale",
        Some(r#"{"tool_name":"x","tool_call_id":"missing"}"#),
    );
    session.append_message("assistant", "ok", None);

    let outcome = session.restore(None);
    assert_eq!(outcome.messages.len(), 2);
    assert!(outcome.skipped_entry_count >= 1);
}

#[test]
fn restore_anchors_at_last_compaction() {
    let mut session = Log::new();
    session.append_message("user", "u1", None);
    session.append_message("assistant", "a1", None);
    session.append_message("user", "u2", None);
    session.append_message("assistant", "a2", None);
    session.append_compaction_event("<summary>compacted u1..a2</summary>");
    session.append_message("user", "u3", None);
    session.append_message("assistant", "a3", None);

    let outcome = session.restore(None);
    assert!(outcome.had_compaction);
    assert_eq!(outcome.messages.len(), 3);
    assert!(matches!(outcome.messages[0].role, MessageRole::User));
    assert_eq!(outcome.messages[0].name.as_deref(), Some("compaction_summary"));
    assert!(outcome.messages[0].content.contains("compacted u1..a2"));
    assert!(matches!(outcome.messages[1].role, MessageRole::User));
    assert_eq!(outcome.messages[1].content, "u3");
    assert!(matches!(outcome.messages[2].role, MessageRole::Assistant));
    assert_eq!(outcome.messages[2].content, "a3");
}

#[test]
fn restore_skips_corrupt_lines() {
    let mut session = Log::new();
    session.append_message("user", "ok1", None);
    session.raw("{not valid json");
    session.append_message("user", "ok2", None);

    let outcome = session.restore(None);
    assert_eq!(outcome.messages.len(), 2);
    assert!(outcome.skipped_entry_count >= 1);
}

#[test]
fn restore_fast_path_honors_last_compaction_offset() {
    let mut session = Log::new();
    session.append_message("system", "identity", None);
    session.append_message("user", "u1", None);
    session.append_message("assistant", "a1", None);
    session.append_compaction_event("<summary>first compaction</summary>");
    session.append_message("user", "stale-between", None);
    session.append_message("assistant", "stale-between-a", None);
    session.append_compaction_event("<summary>second compaction</summary>");
    session.append_message("user", "u3", None);
    session.append_message("assistant", "a3", None);

    let abs = session.last_compaction_offset();
    let outcome = session.restore(Some(abs));

    assert!(outcome.had_compaction);
    assert_eq!(outcome.messages.len(), 4);
    assert!(matches!(outcome.messages[0].role, MessageRole::System));
    assert_eq!(outcome.messages[0].content, "identity");
    assert!(matches!(outcome.messages[1].role, MessageRole::User));
    assert_eq!(outcome.messages[1].name.as_deref(), Some("compaction_summary"));
    assert!(outcome.messages[1].content.contains("second compaction"));
    assert_eq!(outcome.messages[2].content, "u3");
    assert_eq!(outcome.messages[3].content, "a3");
    assert!(!outcome.messages.iter().any(|m| m.content.contains("stale-between")));
    assert!(!outcome.messages.iter().any(|m| m.content.contains("first compaction")));
}

#[test]
fn restore_fast_path_falls_back_when_offset_stale() {
    let mut session = Log::new();
    session.append_message("user", "pre", None);
    session.append_compaction_event("<summary>only</summary>");
    session.append_message("user", "post", None);

    let huge = session.bytes.len() as u64 + 4096;
    let outcome = session.restore(Some(huge));
    assert!(outcome.had_compaction);
    assert_eq!(outcome.messages.len(), 2);
    assert_eq!(outcome.messages[0].name.as_deref(), Some("compaction_summary"));
    assert_eq!(outcome.messages[1].content, "post");
}

#[test]
fn unreadable_log_is_an_error() {
    let r = restore_history_from_jsonl(Err("no such file".to_string()), None, None);
    match r {
        Err(e @ RestoreError::Io(_)) => assert_eq!(e.message(), "io error: no such file"),
        Ok(_) => panic!("an unreadable log restores nothing"),
    }
}

#[test]
fn lines_that_are_no_text_are_skipped() {
    let mut session = Log::new();
    session.append_message("user", "ok1", None);
    session.bytes.extend_from_slice(&[0xff, 0xfe, b'\n']);
    session.append_message("user", "ok2", None);
    let outcome = session.restore(None);
    assert_eq!(outcome.messages.len(), 2);
    assert_eq!(outcome.replayed_entry_count, 2);
    assert_eq!(outcome.skipped_entry_count, 1);
}

#[test]
fn offsets_lead_to_the_same_history_as_a_full_scan() {
    let mut session = Log::new();
    session.append_message("user", "u1", None);
    session.append_compaction_event("<summary>s</summary>");
    session.append_message("user", "u2", None);
    let full = session.restore(None);
    let fast = session.restore(Some(session.last_compaction_offset()));
    let texts = |o: &RestoreOutcome| -> Vec<String> {
        o.messages.iter().map(|m| m.content.clone()).collect()
    };
    assert_eq!(texts(&full), texts(&fast));
}

fn told(outcome: &RestoreOutcome) -> Vec<(MessageRole, String)> {
    outcome.messages.iter().map(|m| (m.role, m.content.clone())).collect()
}

#[test]
fn only_the_system_messages_at_the_start_survive_a_compaction() {
    let mut session = Log::new();
    session.append_message("system", "s0", None);
    session.append_message("user", "u1", None);
    session.append_message("system", "s1", None);
    session.append_compaction_event("c");
    session.append_message("user", "u2", None);
    let expected = vec![
        (MessageRole::System, "s0".to_string()),
        (MessageRole::User, "c".to_string()),
        (MessageRole::User, "u2".to_string()),
    ];
    let full = session.restore(None);
    assert_eq!(told(&full), expected);
    assert_eq!((full.replayed_entry_count, full.skipped_entry_count), (3, 2));
    let fast = session.restore(Some(session.last_compaction_offset()));
    assert_eq!(told(&fast), expected);
    assert_eq!((fast.replayed_entry_count, fast.skipped_entry_count), (3, 2));
}

#[test]
fn a_corrupt_line_does_not_end_the_system_messages_at_the_start() {
    let mut session = Log::new();
    session.append_message("system", "s0", None);
    session.raw("{ broken");
    session.append_message("system", "s1", None);
    session.append_message("user", "u1", None);
    session.append_compaction_event("c");
    let expected = vec![
        (MessageRole::System, "s0".to_string()),
        (MessageRole::System, "s1".to_string()),
        (MessageRole::User, "c".to_string()),
    ];
    assert_eq!(told(&session.restore(None)), expected);
    let fast = session.restore(Some(session.last_compaction_offset()));
    assert_eq!(told(&fast), expected);
    assert_eq!((fast.replayed_entry_count, fast.skipped_entry_count), (3, 2));
}

#[test]
fn an_earlier_compaction_ends_the_system_messages_at_the_start() {
    let mut session = Log::new();
    session.append_message("system", "s0", None);
    session.append_compaction_event("c1");
    session.append_message("system", "s1", None);
    session.append_compaction_event("c2");
    let expected =
        vec![(MessageRole::System, "s0".to_string()), (MessageRole::User, "c2".to_string())];
    assert_eq!(told(&session.restore(None)), expected);
    assert_eq!(told(&session.restore(Some(session.last_compaction_offset()))), expected);
}

#[test]
fn orphans_are_dropped_and_the_rest_keeps_its_order() {
    let call = "{\"tool_call_id\":\"c1\",\"tool_name\":\"t\"}";
    let stray = "{\"tool_call_id\":\"c9\",\"tool_name\":\"t\"}";
    let mut session = Log::new();
    session.append_message("tool_result", "early", Some(call));
    session.append_message("user", "u", None);
    session.append_message("tool_call", "{}", Some(call));
    session.append_message("tool_result", "r1", Some(call));
    session.append_message("tool_result", "lost", Some(stray));
    session.append_message("assistant", "a", None);
    let outcome = session.restore(None);
    assert_eq!(
        told(&outcome),
        vec![
            (MessageRole::User, "u".to_string()),
            (MessageRole::Assistant, String::new()),
            (MessageRole::Tool, "r1".to_string()),
            (MessageRole::Assistant, "a".to_string()),
        ]
    );
    assert_eq!((outcome.replayed_entry_count, outcome.skipped_entry_count), (4, 2));
}

#[test]
fn reasoning_comes_back_only_with_tool_calls() {
    let call = "{\"tool_call_id\":\"c1\",\"tool_name\":\"t\"}";
    let mut session = Log::new();
    session.append_message("thought", "t0", None);
    session.append_message("assistant", "said", None);
    session.append_message("user", "u", None);
    session.append_message("thought", "t1", None);
    session.append_message("assistant", "doing", None);
    session.append_message("tool_call", "{}", Some(call));
    let outcome = session.restore(None);
    for m in &outcome.messages {
        assert_eq!(m.reasoning_content.is_some(), m.tool_calls.is_some());
    }
    assert_eq!(outcome.messages[2].reasoning_content.as_deref(), Some("t1"));
    assert_eq!(outcome.messages[2].content, "doing");
}

#[test]
fn what_was_said_attached_and_summarised_comes_back() {
    let call = "{\"tool_call_id\":\"c1\",\"tool_name\":\"t\"}";
    let mut session = Log::new();
    session.append_message("system", "identity", None);
    session.append_message("system", "Attached folder: src", None);
    session.append_message("user", "look", None);
    session.append_message("thought", "why", None);
    session.append_message("assistant", "looking", None);
    session.append_message("tool_call", "{}", Some(call));
    session.append_message("tool_result", "found", Some(call));
    let before = session.restore(None);
    assert_eq!(
        told(&before),
        vec![
            (MessageRole::System, "identity".to_string()),
            (MessageRole::System, "Attached folder: src".to_string()),
            (MessageRole::User, "look".to_string()),
            (MessageRole::Assistant, "looking".to_string()),
            (MessageRole::Tool, "found".to_string()),
        ]
    );
    assert_eq!(before.messages[3].reasoning_content.as_deref(), Some("why"));
    session.append_compaction_event("summary");
    let after = session.restore(None);
    assert!(after.had_compaction);
    assert_eq!(
        told(&after),
        vec![
            (MessageRole::System, "identity".to_string()),
            (MessageRole::System, "Attached folder: src".to_string()),
            (MessageRole::User, "summary".to_string()),
        ]
    );
    assert_eq!(after.messages[2].name.as_deref(), Some("compaction_summary"));
}

#[test]
fn dropping_orphans_a_second_time_drops_nothing() {
    let tool = |id: Option<&str>, text: &str| -> ChatMessage {
        let mut m = ChatMessage::plain(MessageRole::Tool, text.to_string());
        m.tool_call_id = id.map(|id| id.to_string());
        m
    };
    let mut asks = ChatMessage::assistant("a".to_string());
    asks.tool_calls = Some(vec![ToolCall {
        id: "c1".to_string(),
        call_type: "function".to_string(),
        function: FunctionCall { name: "t".to_string(), arguments: "{}".to_string() },
    }]);
    let mut messages = vec![
        tool(Some("c1"), "early"),
        ChatMessage::user("u".to_string()),
        asks,
        tool(Some("c1"), "r1"),
        tool(Some("c2"), "stray"),
        tool(None, "unnamed"),
        tool(Some("c1"), "r2"),
    ];
    assert_eq!(drop_orphan_tool_results(&mut messages), 3);
    let texts: Vec<String> = messages.iter().map(|m| m.content.clone()).collect();
    assert_eq!(texts, vec!["u", "a", "r1", "r2"]);
    assert_eq!(drop_orphan_tool_results(&mut messages), 0);
    assert_eq!(messages.len(), 4);
}
