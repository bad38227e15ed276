//! Tool calls: planning, approval, running side by side, and merging.

use acowork_runtime::json::{parse_json, Json};
use acowork_runtime::llm_stream::ControlDecision;
use acowork_runtime::message::{FunctionCall, ToolCall};
use acowork_runtime::session::TodoStatus;
use acowork_runtime::shell_approval::{
    after_gate_response, after_handle_decision, cancelled_while_waiting, check_shell_approval,
    command_to_assess, is_shell_tool, risk_meets_threshold, shell_command, ApprovalDecision,
    ApprovalRequest, ApprovalResponse, ApprovalRoute, ApprovalStep, RiskAssessment,
    ShellApprovalThreshold, ShellRisk,
};
use acowork_runtime::todo::{handle_todo_write, todo_reply};
use acowork_runtime::tool_call::{
    cancelled_by_user, finish_call, looks_like_tool_error, plan_call, timed_out, CallPlan,
    ToolOutput,
};
use acowork_runtime::tool_pipeline::{
    dedup_tool_calls, dispatch_and_merge_tools, merge_executed, merge_tool_results,
    pre_check_loop_detection, route_call, CallRoute, LoopPattern, LoopVerdict, ResponseLevel,
};
use acowork_runtime::session::ChunkEvent;
use acowork_runtime::tool_run::{
    heartbeat, take_decisions, InboundMessage, RunAction, RunEvent, ToolRun,
};
use acowork_runtime::tool_trim::trim_tool_results_for_context;

fn make_tool_call(name: &str, arguments: &str, id: &str) -> ToolCall {
    ToolCall {
        id: id.to_string(),
        call_type: "function".to_string(),
        function: FunctionCall { name: name.to_string(), arguments: arguments.to_string() },
    }
}

/// Runs a call against a registry of tools that all answer with `answer`.
fn execute_single_tool(names: &[&str], call: &ToolCall, answer: &str) -> (String, bool) {
    let names: Vec<String> = names.iter().map(|n| n.to_string()).collect();
    match plan_call(&names, call) {
        CallPlan::Reply(text) => (text, false),
        CallPlan::Execute { .. } => finish_call(Ok(ToolOutput {
            ok: true,
            content: answer.to_string(),
            error: None,
        })),
    }
}

#[test]
fn test_execute_single_tool_context_retrieve_not_transient() {
    let tc = make_tool_call("context_retrieve", r#"{"tool_call_id": "toolu_xyz"}"#, "call_xyz");
    let (content, is_transient) = execute_single_tool(&["context_retrieve"], &tc, "found");
    assert!(!is_transient, "got content={content:?}, is_transient={is_transient}");
}

#[test]
fn test_execute_single_tool_context_abandon_not_transient() {
    let tc = make_tool_call("context_abandon", r#"{"tool_call_id": "toolu_xyz"}"#, "call_xyz");
    let (content, is_transient) =
        execute_single_tool(&["context_abandon"], &tc, "Tool result replaced by a placeholder");
    assert!(!is_transient);
    assert!(content.contains("placeholder") || content.contains("Tool result"));
}

#[test]
fn test_execute_single_tool_unknown_tool_not_transient() {
    let tc = make_tool_call("unknown_tool", "{}", "call_unknown");
    let (content, is_transient) = execute_single_tool(&[], &tc, "");
    assert!(!is_transient, "got: {content:?}");
    assert_eq!(content, "Unknown tool: unknown_tool");
}

#[test]
fn broken_arguments_are_not_run() {
    let names = vec!["a".to_string()];
    match plan_call(&names, &make_tool_call("a", "{\"x\":", "1")) {
        CallPlan::Reply(text) => {
            assert!(text.starts_with(
                "Error: Tool 'a' arguments are not valid JSON and could not be parsed: "
            ));
            assert!(text.ends_with("Arguments preview (first 200 bytes): {\"x\":"));
        }
        other => panic!("must not run: {other:?}"),
    }
    let cut = r#"{"error":"TOOL_CALL_INCOMPLETE","message":"cut off"}"#;
    match plan_call(&names, &make_tool_call("a", cut, "1")) {
        CallPlan::Reply(text) => assert_eq!(text, "cut off"),
        other => panic!("must not run: {other:?}"),
    }
    match plan_call(&names, &make_tool_call("a", "{\"x\":1}", "1")) {
        CallPlan::Execute { tool, params } => {
            assert_eq!(tool, 0);
            assert!(matches!(params.get("x"), Some(Json::Number(n)) if n == "1"));
        }
        other => panic!("must run: {other:?}"),
    }
}

#[test]
fn outcomes_are_put_into_words() {
    let failed = |content: &str, error: Option<&str>| {
        finish_call(Ok(ToolOutput {
            ok: false,
            content: content.to_string(),
            error: error.map(|e| e.to_string()),
        }))
        .0
    };
    assert_eq!(failed("", Some("no")), "Error: no");
    assert_eq!(failed("out", None), "out\nError: unknown error");
    assert_eq!(finish_call(Err("gone".to_string())).0, "Tool execution error: gone");
    assert_eq!(timed_out("sh", 1500).0, "Error: Tool 'sh' timed out after 1500ms");
    assert_eq!(cancelled_by_user("sh").0, "Error: Cancelled by user while running 'sh'");
    assert!(looks_like_tool_error("  Error: x"));
    assert!(looks_like_tool_error("Loop detected: y"));
    assert!(!looks_like_tool_error("fine"));
}

// ── Approval ───────────────────────────────────────────────────────

fn assess(risk: ShellRisk) -> RiskAssessment {
    RiskAssessment {
        risk,
        label: "label".to_string(),
        reason: "reason".to_string(),
        executable_paths: Vec::new(),
        provenance_elevated: false,
    }
}

/// The error that a shell call gives, where it may not run.
fn approve(
    params: &str,
    risk: ShellRisk,
    threshold: ShellApprovalThreshold,
    answer: ApprovalResponse,
) -> Option<String> {
    assert!(is_shell_tool("shell"));
    let command = shell_command(params)?;
    let assessment = assess(risk);
    match check_shell_approval("shell", &command, &assessment, threshold, "tc") {
        ApprovalStep::Proceed => None,
        ApprovalStep::Reject(text) => Some(text),
        ApprovalStep::Ask(_) => after_gate_response(&command, &assessment, answer),
    }
}

#[test]
fn test_auto_approve_still_blocks_blocked_commands() {
    let result = approve(
        r#"{"command": "rm -rf /"}"#,
        ShellRisk::Blocked,
        ShellApprovalThreshold::AutoApprove,
        ApprovalResponse::Approved,
    );
    assert!(result.is_some(), "Blocked command must be rejected even under AutoApprove");
    let err = result.unwrap();
    assert!(err.contains("blocked"), "error should mention blocking; got: {err}");
}

#[test]
fn test_auto_approve_allows_safe_commands() {
    let result = approve(
        r#"{"command": "echo hello"}"#,
        ShellRisk::Low,
        ShellApprovalThreshold::AutoApprove,
        ApprovalResponse::Approved,
    );
    assert!(result.is_none(), "safe command must pass under AutoApprove");
}

#[test]
fn test_low_threshold_prompts_for_low_risk() {
    let result = approve(
        r#"{"command": "echo hello"}"#,
        ShellRisk::Low,
        ShellApprovalThreshold::Low,
        ApprovalResponse::Rejected,
    );
    assert!(result.is_some(), "Low threshold must ask before Low-risk commands");
    let err = result.unwrap();
    assert!(err.contains("rejected"), "expected rejection message; got: {err}");
}

#[test]
fn risks_are_ordered() {
    assert!(risk_meets_threshold(ShellRisk::High, ShellRisk::Medium));
    assert!(!risk_meets_threshold(ShellRisk::Low, ShellRisk::Medium));
    assert_eq!(shell_command("{}"), None);
    assert_eq!(shell_command(r#"{"command":""}"#), None);
    let decision =
        ApprovalDecision { approved: false, allow_all_session: false, reason: None };
    assert!(after_handle_decision("c", &assess(ShellRisk::High), &decision)
        .unwrap()
        .ends_with("Reason: rejected by user"));
    assert_eq!(
        cancelled_while_waiting("ls"),
        "Error: Cancelled by user while waiting for approval of 'ls'"
    );
}

#[test]
fn only_shell_commands_are_assessed() {
    let params = r#"{"command": "ls"}"#;
    assert_eq!(
        command_to_assess(ApprovalRoute::Gateway, "bash", params).as_deref(),
        Some("ls")
    );
    assert_eq!(command_to_assess(ApprovalRoute::Gate, "pwsh", params).as_deref(), Some("ls"));
    assert_eq!(command_to_assess(ApprovalRoute::Nobody, "bash", params), None);
    assert_eq!(command_to_assess(ApprovalRoute::Gateway, "grep", params), None);
    assert_eq!(command_to_assess(ApprovalRoute::Gateway, "bash", "{"), None);
}

// ── Running ────────────────────────────────────────────────────────

fn run(names: &[&str]) -> ToolRun {
    ToolRun::new(names.iter().map(|n| n.to_string()).collect(), true, Vec::new())
}

fn request() -> ApprovalRequest {
    ApprovalRequest {
        tool_name: "shell".to_string(),
        action: "ls".to_string(),
        risk_level: ShellRisk::High,
        reason: String::new(),
        executable_paths: Vec::new(),
        provenance_elevated: false,
        tool_call_id: "t".to_string(),
    }
}

#[test]
fn results_stand_in_the_order_of_the_calls() {
    let mut r = run(&["a", "b"]);
    let done = |index: usize, content: &str| RunEvent::Done {
        index,
        content: content.to_string(),
        transient: false,
    };
    assert!(!r.step(done(1, "second")).over);
    assert!(r.step(done(0, "first")).over);
    assert_eq!(r.results(), vec![("first".to_string(), false), ("second".to_string(), false)]);
}

#[test]
fn calls_without_a_result_are_named() {
    let mut r = run(&["slow"]);
    let step = r.step(RunEvent::IterationDeadline);
    assert!(step.over);
    assert!(matches!(step.actions[0], RunAction::AbortTools));
    assert_eq!(r.results()[0].0, "Error: iteration timed out, tool slow not completed");
}

#[test]
fn open_requests_are_rejected_when_time_is_up() {
    let mut r = run(&["shell"]);
    let asked = RunEvent::ApprovalRequested { request_id: "q1".to_string(), request: request() };
    let step = r.step(asked);
    assert!(matches!(step.actions[0], RunAction::AnnounceApproval { .. }));
    assert!(matches!(step.actions[2], RunAction::StartApprovalTimer));
    assert!(matches!(step.actions[3], RunAction::RestartIterationTimer));
    let step = r.step(RunEvent::ApprovalDeadline);
    match &step.actions[0] {
        RunAction::RejectAll { request_ids, reason } => {
            assert_eq!(request_ids, &vec!["q1".to_string()]);
            assert_eq!(reason, "tool approval timed out after 300s");
        }
        other => panic!("open requests are rejected: {other:?}"),
    }
    assert!(r.cleanup().is_empty());
}

#[test]
fn a_stop_ends_the_run_and_cleans_up() {
    let mut r = run(&["shell"]);
    r.step(RunEvent::ApprovalRequested { request_id: "q1".to_string(), request: request() });
    let step = r.step(RunEvent::Inbound { settled: None, control: ControlDecision::Stop });
    assert!(step.over);
    assert_eq!(r.interrupt, Some(ControlDecision::Stop));
    let left = r.cleanup();
    assert!(matches!(left[0], RunAction::RejectAll { .. }));
    assert!(matches!(left[1], RunAction::ClearApprovalCards));
}

#[test]
fn requests_get_ids_of_their_own() {
    let mut r = run(&["shell"]);
    let (first, step) = r.approval_requested(request());
    assert!(matches!(
        &step.actions[0],
        RunAction::AnnounceApproval { request_id, .. } if *request_id == first
    ));
    let (second, _) = r.approval_requested(request());
    assert_ne!(first, second);
    assert_eq!(first.len(), 36);
    for (i, c) in first.chars().enumerate() {
        match i {
            8 | 13 | 18 | 23 => assert_eq!(c, '-'),
            14 => assert_eq!(c, '4'),
            19 => assert!("89ab".contains(c)),
            _ => assert!("0123456789abcdef".contains(c)),
        }
    }
    assert_eq!(first.as_bytes()[14], b'4');
    assert_eq!(r.pending, vec![first, second]);
}

#[test]
fn decisions_that_were_put_aside_come_first() {
    let mut deferred = vec![
        InboundMessage::Stop { reason: "a".to_string() },
        InboundMessage::ApprovalDecision {
            request_id: "q1".to_string(),
            decision: ApprovalDecision {
                approved: true,
                allow_all_session: false,
                reason: None,
            },
        },
        InboundMessage::Stop { reason: "b".to_string() },
    ];
    assert!(take_decisions(&mut deferred, false).is_empty());
    assert_eq!(deferred.len(), 3);
    let decisions = take_decisions(&mut deferred, true);
    assert_eq!(decisions.len(), 1);
    assert!(matches!(&deferred[0], InboundMessage::Stop { reason } if reason == "a"));
    assert!(matches!(&deferred[1], InboundMessage::Stop { reason } if reason == "b"));
}

#[test]
fn the_heart_beats_until_the_time_is_up() {
    let (beat, last) = heartbeat("s", "t", 5_000, 60_000);
    assert!(!last);
    assert!(matches!(
        beat,
        ChunkEvent::ToolProgress { elapsed_ms: 5_000, timeout_ms: 60_000, .. }
    ));
    assert!(heartbeat("s", "t", 60_000, 60_000).1);
}

// ── Merging ────────────────────────────────────────────────────────

#[test]
fn blocked_calls_answer_in_their_place() {
    let calls = vec![
        make_tool_call("a", "{}", "1"),
        make_tool_call("b", "{}", "2"),
        make_tool_call("c", "{}", "3"),
    ];
    let verdicts = vec![
        LoopVerdict::NoLoop,
        LoopVerdict::Loop {
            level: ResponseLevel::Block,
            pattern: LoopPattern::ExactRepeat,
            message: String::new(),
        },
        LoopVerdict::Loop {
            level: ResponseLevel::Warning,
            pattern: LoopPattern::PingPong,
            message: String::new(),
        },
    ];
    let (allowed, blocked) = pre_check_loop_detection(&calls, &verdicts);
    assert_eq!(allowed.len(), 2);
    assert_eq!(blocked, vec![(1, LoopPattern::ExactRepeat)]);
    let executed = vec![("ra".to_string(), false), ("rc".to_string(), false)];
    let merged = merge_tool_results(3, &blocked, &executed);
    assert_eq!(merged[0].0, "ra");
    assert!(merged[1].0.starts_with("Loop detected: this tool call has been blocked"));
    assert_eq!(merged[2].0, "rc");
}

#[test]
fn calls_go_their_ways_and_come_back_in_order() {
    assert_eq!(route_call("ask_user_question"), CallRoute::AskUser);
    assert_eq!(route_call("todo_write"), CallRoute::TodoWrite);
    assert_eq!(route_call("shell"), CallRoute::Parallel);
    let special = vec![None, Some(("todo".to_string(), false)), None];
    let parallel = vec![("p0".to_string(), false), ("p1".to_string(), false)];
    let merged: Vec<String> =
        merge_executed(&special, &parallel).into_iter().map(|r| r.0).collect();
    assert_eq!(merged, vec!["p0", "todo", "p1"]);
    let blocked = vec![(0, LoopPattern::SameToolFlood)];
    let all: Vec<String> = dispatch_and_merge_tools(4, &blocked, &special, &parallel)
        .into_iter()
        .map(|r| r.0)
        .collect();
    assert!(all[0].starts_with("Loop detected: this tool has been called too many times"));
    assert_eq!(&all[1..], &["p0", "todo", "p1"]);
    let twice = vec![make_tool_call("a", "{}", "1"), make_tool_call("a", "{}", "1")];
    assert_eq!(dedup_tool_calls(&twice).len(), 1);
}

#[test]
fn large_results_are_cut_where_the_context_is_full() {
    let big = "x".repeat(8_000);
    let mut results = vec![big.clone(), "small".to_string()];
    let cut = trim_tool_results_for_context(&mut results, &vec![2_000, 1], 2_000, 500);
    assert_eq!(cut, 1);
    assert!(results[0].len() < big.len());
    assert_eq!(results[1], "small");
    let mut fits = vec!["ok".to_string()];
    assert_eq!(trim_tool_results_for_context(&mut fits, &vec![1], 2_000, 500), 0);
    assert_eq!(fits[0], "ok");
}

// ── Todo list ──────────────────────────────────────────────────────

#[test]
fn a_todo_list_is_read_whole_or_not_at_all() {
    let good = r#"{"todos":[{"id":"1","content":"c","status":"in_progress"}],"merge":true}"#;
    let write = handle_todo_write(&make_tool_call("todo_write", good, "1")).unwrap();
    assert!(write.merge);
    assert_eq!(write.items[0].status, TodoStatus::InProgress);
    let bad = r#"{"todos":[{"id":"1","content":"c","status":"later"}]}"#;
    assert!(handle_todo_write(&make_tool_call("todo_write", bad, "1")).is_err());
    assert_eq!(
        handle_todo_write(&make_tool_call("todo_write", "{}", "1")).unwrap_err(),
        "Error: todo_write requires a 'todos' array parameter"
    );
    assert!(handle_todo_write(&make_tool_call("todo_write", "{", "1"))
        .unwrap_err()
        .starts_with("Error: todo_write arguments are not valid JSON: "));
    assert_eq!(todo_reply(2, false, Some("- x")), "Todo list updated (2 items, merge=false):\n- x");
    assert_eq!(todo_reply(0, true, None), "Todo list is now empty.");
    assert!(parse_json("[1, \"a\", null, true, 1.5]").is_ok());
}
