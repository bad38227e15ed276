//! Putting a streamed response together.

use acowork_runtime::json::rewrite_json;
use acowork_runtime::llm_stream::{
    build_stopped_response, retry_after_compaction, ControlDecision, LineRole, ResolvedArgs,
    StreamAction, StreamInput, StreamNext, StreamState,
};
use acowork_runtime::message::{ChatResponse, FunctionCall, ToolCall, UsageInfo};

fn go(state: &mut StreamState, input: StreamInput, now: i64) -> (Vec<StreamAction>, StreamNext) {
    let step = state.step(input, ControlDecision::Continue, now, true);
    (step.actions, step.next)
}

fn closing() -> ChatResponse {
    ChatResponse {
        content: "repeated".to_string(),
        reasoning_content: None,
        tool_calls: None,
        usage: Some(UsageInfo {
            prompt_tokens: 1,
            completion_tokens: 2,
            total_tokens: 3,
            reasoning_tokens: 0,
        }),
        reasoning_started_at: None,
        reasoning_finished_at: None,
        finish_reason: Some("stop".to_string()),
    }
}

fn call(id: &str, arguments: &str) -> ToolCall {
    ToolCall {
        id: id.to_string(),
        call_type: "function".to_string(),
        function: FunctionCall { name: "f".to_string(), arguments: arguments.to_string() },
    }
}

#[test]
fn what_streamed_in_is_the_response() {
    let mut s = StreamState::new();
    let (actions, _) = go(&mut s, StreamInput::ReasoningContent("why".to_string()), 10);
    assert!(matches!(actions[0], StreamAction::ShowThinking));
    assert!(matches!(actions[1], StreamAction::SwitchLine(LineRole::Thought)));
    let (actions, _) = go(&mut s, StreamInput::Content("Hel".to_string()), 20);
    assert!(matches!(actions[0], StreamAction::ShowReplying));
    let (actions, _) = go(&mut s, StreamInput::Content("lo".to_string()), 21);
    assert!(matches!(actions[0], StreamAction::SwitchLine(LineRole::Assistant)));
    let (_, next) = go(&mut s, StreamInput::Finished(closing()), 30);
    assert_eq!(next, StreamNext::Complete);
    let r = s.into_response(&Vec::new());
    assert_eq!(r.content, "Hello");
    assert_eq!(r.reasoning_content.as_deref(), Some("why"));
    assert_eq!(r.reasoning_started_at, Some(10));
    assert_eq!(r.reasoning_finished_at, Some(20));
    assert_eq!(r.usage.unwrap().total_tokens, 3);
    assert_eq!(r.finish_reason.as_deref(), Some("stop"));
}

#[test]
fn streamed_arguments_are_joined_until_they_are_complete() {
    let mut s = StreamState::new();
    go(&mut s, StreamInput::ToolCallStart(call("1", "")), 0);
    for piece in ["{\"a\":", "1}", "{\"a\":1}"] {
        go(
            &mut s,
            StreamInput::ToolCallChunk { index: 0, arguments: piece.to_string() },
            0,
        );
    }
    assert_eq!(s.tool_call_count(), 1);
    assert!(s.tool_name(0).is_some());
    assert_eq!(s.tool_name(1), None);
    // The piece after the complete text is a stale duplicate.
    let text = s.streamed_arguments(0).unwrap();
    assert_eq!(text, "{\"a\":1}");
    let r = s.into_response(&vec![Some(text)]);
    assert_eq!(r.tool_calls.unwrap()[0].function.arguments, "{\"a\":1}");
}

#[test]
fn arguments_of_their_own_are_kept() {
    let mut s = StreamState::new();
    go(&mut s, StreamInput::ToolCallStart(call("1", "{\"own\":1}")), 0);
    go(&mut s, StreamInput::ToolCallChunk { index: 0, arguments: "{}".to_string() }, 0);
    assert_eq!(s.streamed_arguments(0), None);
    let r = s.into_response(&vec![Some("other".to_string())]);
    assert_eq!(r.tool_calls.unwrap()[0].function.arguments, "{\"own\":1}");
}

#[test]
fn resolved_arguments_are_written_out() {
    let mut s = StreamState::new();
    for i in 0..4 {
        go(&mut s, StreamInput::ToolCallStart(call("c", "")), 0);
        go(&mut s, StreamInput::ToolCallChunk { index: i, arguments: "x".to_string() }, 0);
    }
    let json = "{ \"a\" : [ 1 ] }".to_string();
    let r = s.into_resolved_response(&vec![
        Some(ResolvedArgs::Valid(json.clone())),
        Some(ResolvedArgs::Recovered(json)),
        Some(ResolvedArgs::Invalid { marker: "cut".to_string() }),
        None,
    ]);
    let calls = r.tool_calls.unwrap();
    assert_eq!(calls[0].function.arguments, "{\"a\":[1]}");
    assert_eq!(calls[1].function.arguments, "{\"a\":[1]}");
    assert_eq!(calls[2].function.arguments, "cut");
    assert_eq!(calls[3].function.arguments, "");
    assert_eq!(rewrite_json("{ \"a\" : 1.50 }"), Some("{\"a\":1.5}".to_string()));
    assert_eq!(rewrite_json("{"), None);
}

#[test]
fn reasoning_is_timed_by_the_clock() {
    let mut s = StreamState::new();
    let before = chrono::Utc::now().timestamp_millis();
    let thought = StreamInput::ReasoningContent("why".to_string());
    s.step_now(thought, ControlDecision::Continue, true);
    s.step_now(StreamInput::Content("so".to_string()), ControlDecision::Continue, true);
    let after = chrono::Utc::now().timestamp_millis();
    let r = s.into_response(&Vec::new());
    assert!(before <= r.reasoning_started_at.unwrap());
    assert!(r.reasoning_finished_at.unwrap() <= after);
}

#[test]
fn a_stop_keeps_what_there_is() {
    let mut s = StreamState::new();
    go(&mut s, StreamInput::Content("part".to_string()), 0);
    let step = s.step(
        StreamInput::Content("lost".to_string()),
        ControlDecision::Pause,
        0,
        true,
    );
    assert_eq!(step.next, StreamNext::Stopped);
    assert!(matches!(step.actions[0], StreamAction::RememberPause));
    assert!(matches!(&step.actions[2], StreamAction::EmitStopped(t) if t == "part"));
    let r = s.into_stopped();
    assert_eq!(r.content, "part");
    assert_eq!(r.finish_reason.as_deref(), Some("stopped"));
    let r = build_stopped_response(String::new(), "r".to_string());
    assert_eq!(r.reasoning_content.as_deref(), Some("r"));
    assert!(r.tool_calls.is_none());
}

#[test]
fn an_overflow_is_retried_once() {
    let mut s = StreamState::new();
    let (_, next) = go(&mut s, StreamInput::Error { overflow: true }, 0);
    assert_eq!(next, StreamNext::CompactAndRetry);
    let step =
        s.step(StreamInput::Error { overflow: true }, ControlDecision::Continue, 0, false);
    assert_eq!(step.next, StreamNext::Fail);
    assert!(retry_after_compaction(10, 9));
    assert!(!retry_after_compaction(10, 10));
}
