//! The laws of the library, on values.

use acowork_runtime::builtin_tools::{
    add_tool, apply_builtin_enabled_entries, remove_tool, sync_platform_tools, AgentToolEntry,
    BuiltinToolEntry, ToolDef,
};
use acowork_runtime::context::{check_context_overflow, needs_emergency_trim, ContextLevel};
use acowork_runtime::error::{CoreError, ProviderError, RuntimeError};
use acowork_runtime::json::Json;
use acowork_runtime::jsonl::split_lines;
use acowork_runtime::message::{FunctionCall, ToolCall};
use acowork_runtime::overrides::RuntimeConfigOverrides;
use acowork_runtime::retry::{decide_retry_action, RetryAction};
use acowork_runtime::session::Temperature;
use acowork_runtime::session_config::{
    is_valid_context_window, resolve_effective_context_window, SessionConfigDelta,
    SessionConfigSnapshot,
};
use acowork_runtime::shell_approval::{
    check_shell_approval, ApprovalStep, RiskAssessment, ShellApprovalThreshold, ShellRisk,
};
use acowork_runtime::think::strip_think_block;
use acowork_runtime::tool_call::{cancelled_by_user, looks_like_tool_error, timed_out};
use acowork_runtime::tool_pipeline::dedup_tool_calls;
use acowork_runtime::tool_trim::trim_tool_results_for_context;

fn named(name: &str, enabled: bool) -> BuiltinToolEntry {
    BuiltinToolEntry { tool: ToolDef { name: name.to_string(), spec: Json::Null }, enabled }
}

fn seen(tools: &[BuiltinToolEntry]) -> Vec<(String, bool)> {
    tools.iter().map(|t| (t.tool.name.clone(), t.enabled)).collect()
}

fn called(name: &str, arguments: &str, id: &str) -> ToolCall {
    ToolCall {
        id: id.to_string(),
        call_type: "function".to_string(),
        function: FunctionCall { name: name.to_string(), arguments: arguments.to_string() },
    }
}

fn pushed(iterations: Option<u32>, window: Option<u64>) -> RuntimeConfigOverrides {
    RuntimeConfigOverrides {
        max_iterations: iterations,
        context_window: window,
        ..RuntimeConfigOverrides::default()
    }
}

#[test]
fn stripping_again_changes_nothing() {
    for text in [
        "plain",
        "<think>a</think>b",
        "a<think>b",
        "x<think>1</think>y<think>2</think>z",
        "<thi<think>a</think>nk>b</think>c",
    ] {
        let once = strip_think_block(text);
        assert_eq!(strip_think_block(&once), once);
    }
}

#[test]
fn waits_never_get_shorter() {
    let e = RuntimeError::Core(CoreError::Provider(ProviderError::network("down".to_string())));
    let mut last = 0;
    for (fast, long, persistent) in (0..3)
        .map(|n| (n, 0, 0))
        .chain((0..3).map(|n| (3, n, 0)))
        .chain((0..6).map(|n| (3, 3, n)))
    {
        let wait = match decide_retry_action(&e, fast, long, persistent) {
            RetryAction::FastRetry { backoff_ms, .. } => backoff_ms,
            RetryAction::LongRetry { wait_ms, .. } => wait_ms,
            RetryAction::Persistent { wait_ms, .. } => wait_ms,
            RetryAction::GiveUp => panic!("a network error heals"),
        };
        assert!(last <= wait && wait <= 1_800_000);
        last = wait;
    }
    assert_eq!(last, 1_800_000);
}

#[test]
fn pushes_can_be_merged_in_any_grouping() {
    let (a, b, c) = (pushed(Some(1), None), pushed(None, Some(9_000)), pushed(Some(3), None));
    let mut left = a.clone();
    left.merge(&b);
    left.merge(&c);
    let mut tail = b.clone();
    tail.merge(&c);
    let mut right = a.clone();
    right.merge(&tail);
    for merged in [&left, &right] {
        assert_eq!(merged.max_iterations, Some(3));
        assert_eq!(merged.context_window, Some(9_000));
    }
    left.merge(&RuntimeConfigOverrides::default());
    left.merge(&c);
    assert_eq!(left.max_iterations, Some(3));
    assert_eq!(left.context_window, Some(9_000));
}

#[test]
fn changes_can_be_made_in_any_grouping() {
    let mut config = SessionConfigSnapshot::default();
    config.change(&SessionConfigDelta {
        model: Some("m".to_string()),
        temperature: Some(Temperature { bits: 1 }),
        ..SessionConfigDelta::default()
    });
    config.change(&SessionConfigDelta {
        model: Some("n".to_string()),
        title: Some("t".to_string()),
        ..SessionConfigDelta::default()
    });
    assert_eq!(config.model.as_deref(), Some("n"));
    assert_eq!(config.title.as_deref(), Some("t"));
    assert_eq!(config.temperature, Some(Temperature { bits: 1 }));
    assert_eq!(config.provider, None);
}

#[test]
fn tools_are_added_once_and_removed_for_good() {
    let mut tools = vec![named("bash", true)];
    assert!(!add_tool(&mut tools, named("lsp", true)));
    let once = seen(&tools);
    assert!(add_tool(&mut tools, named("lsp", true)));
    assert_eq!(seen(&tools), once);
    assert!(remove_tool(&mut tools, "lsp"));
    assert!(!remove_tool(&mut tools, "lsp"));
    assert_eq!(seen(&tools), vec![("bash".to_string(), true)]);
}

#[test]
fn protected_tools_cannot_be_switched_off() {
    let mut tools = vec![named("bash", true), named("context_retrieve", true)];
    let off = |name: &str| AgentToolEntry { name: name.to_string(), enabled: false };
    apply_builtin_enabled_entries(&mut tools, &vec![off("bash"), off("context_retrieve")]);
    assert_eq!(
        seen(&tools),
        vec![("bash".to_string(), false), ("context_retrieve".to_string(), true)]
    );
    let platform = vec![named("context_retrieve", true), named("context_abandon", true)];
    sync_platform_tools(&mut tools, &platform, false);
    assert_eq!(seen(&tools), vec![("bash".to_string(), false)]);
    sync_platform_tools(&mut tools, &platform, true);
    assert_eq!(tools.len(), 3);
}

#[test]
fn a_greater_risk_is_never_let_through_sooner() {
    let risks = [ShellRisk::Low, ShellRisk::Medium, ShellRisk::High, ShellRisk::Blocked];
    for threshold in [
        ShellApprovalThreshold::Low,
        ShellApprovalThreshold::Medium,
        ShellApprovalThreshold::High,
        ShellApprovalThreshold::AutoApprove,
    ] {
        let mut free = true;
        for risk in risks {
            let assessment = RiskAssessment {
                risk,
                label: "l".to_string(),
                reason: "r".to_string(),
                executable_paths: Vec::new(),
                provenance_elevated: false,
            };
            let step = check_shell_approval("bash", "c", &assessment, threshold, "t1");
            let runs = matches!(step, ApprovalStep::Proceed);
            assert!(free || !runs);
            free = runs;
            if threshold == ShellApprovalThreshold::AutoApprove {
                assert!(!matches!(step, ApprovalStep::Ask(_)));
            }
        }
        assert!(!free);
    }
}

#[test]
fn calls_that_say_the_same_are_made_once() {
    let calls = vec![
        called("grep", "{}", "1"),
        called("grep", "{}", "2"),
        called("grep", "{\"a\":1}", "3"),
        called("glob", "{}", "4"),
    ];
    let ids: Vec<String> = dedup_tool_calls(&calls).iter().map(|c| c.id.clone()).collect();
    assert_eq!(ids, ["1", "3", "4"]);
}

#[test]
fn calls_that_were_cut_short_look_failed() {
    for (text, transient) in [timed_out("bash", 5), cancelled_by_user("bash")] {
        assert!(looks_like_tool_error(&text));
        assert!(!transient);
    }
}

#[test]
fn lines_begin_where_the_last_one_ended() {
    let lines = split_lines(&b"ab\n\ncd\nlast".to_vec());
    let starts: Vec<u64> = lines.iter().map(|l| l.start).collect();
    assert_eq!(starts, [0, 3, 4, 7]);
    assert_eq!(lines[3].text.as_deref().map(|t| t.trim()), Some("last"));
}

#[test]
fn windows_are_legal_whatever_is_configured() {
    for layer in [None, Some(0), Some(100), Some(8_192), Some(5_000_000)] {
        for other in [None, Some(1), Some(64_000)] {
            assert!(is_valid_context_window(resolve_effective_context_window(
                layer, other, None, None
            )));
        }
    }
}

#[test]
fn fuller_contexts_are_never_judged_milder() {
    let severity = |level: ContextLevel| match level {
        ContextLevel::Fine => 0,
        ContextLevel::Approaching => 1,
        ContextLevel::Over => 2,
    };
    let mut last = 0;
    for tokens in 0..=120 {
        let now = severity(check_context_overflow(tokens, 100));
        assert!(last <= now);
        last = now;
    }
    assert_eq!(last, 2);
    assert!(!needs_emergency_trim(0, 100));
}

#[test]
fn small_results_are_spared() {
    let small = "s".repeat(40);
    let large = "x".repeat(40_000);
    let mut results = vec![small.clone(), large.clone()];
    let cut = trim_tool_results_for_context(&mut results, &vec![10, 10_000], 2_000, 0);
    assert_eq!(cut, 1);
    assert_eq!(results[0], small);
    assert!(results[1].len() < large.len());
    assert!(results[1].starts_with("xxxx"));
}
