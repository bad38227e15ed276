//! The effective context window.

use acowork_runtime::model::ModelCapabilitiesInfo;
use acowork_runtime::session_config::{
    is_valid_context_window, resolve_effective_context_window, CONTEXT_WINDOW_CEILING,
    CONTEXT_WINDOW_FLOOR, DEFAULT_CONTEXT_WINDOW,
};

fn caps(window: u64) -> ModelCapabilitiesInfo {
    ModelCapabilitiesInfo {
        context_window: window,
        max_output_tokens: 8_192,
        max_input_tokens: None,
        supports_tool_calling: true,
        supports_reasoning: None,
        supports_attachment: None,
        supports_temperature: None,
        name: None,
        family: None,
        knowledge_cutoff: None,
        default_reasoning_effort: None,
        thinking_mode: None,
    }
}

#[test]
fn layer3_fallback_then_min_with_model() {
    // session/agent/manifest all absent -> 200K default, min(model 128K)
    let got = resolve_effective_context_window(None, None, None, Some(&caps(128_000)));
    assert_eq!(got, 128_000);
}

#[test]
fn invalid_layer1_falls_to_layer2() {
    // agent Some(0) is invalid (old "no limit" sentinel) -> fall to manifest 64K
    let got = resolve_effective_context_window(None, Some(0), Some(64_000), None);
    assert_eq!(got, 64_000);
}

#[test]
fn top_layer_wins() {
    let got = resolve_effective_context_window(Some(96_000), Some(32_000), Some(64_000), None);
    assert_eq!(got, 96_000);
}

#[test]
fn clear_is_invalid() {
    // session Some(0) = "cleared" = invalid -> fall to agent 32K
    let got = resolve_effective_context_window(Some(0), Some(32_000), None, None);
    assert_eq!(got, 32_000);
}

#[test]
fn cleared_session_falls_to_default_then_min_with_model() {
    // session 0 + no agent/manifest -> 200K default, min(model 1M) = 200K
    let got = resolve_effective_context_window(Some(0), None, None, Some(&caps(1_000_000)));
    assert_eq!(got, DEFAULT_CONTEXT_WINDOW);
}

#[test]
fn out_of_range_layer0_is_invalid() {
    // session 5M is above CEILING -> invalid -> fall to agent 32K
    let got = resolve_effective_context_window(Some(5_000_000), Some(32_000), None, None);
    assert_eq!(got, 32_000);
}

#[test]
fn no_model_caps_no_panic() {
    let got = resolve_effective_context_window(Some(96_000), Some(32_000), Some(64_000), None);
    assert_eq!(got, 96_000);
}

#[test]
fn smaller_model_window_wins() {
    // model window 8K < resolved 96K -> min = 8K
    let got =
        resolve_effective_context_window(Some(96_000), Some(32_000), None, Some(&caps(8_000)));
    assert_eq!(got, 8_000);
}

#[test]
fn out_of_range_agent_layer_falls_to_manifest() {
    let got = resolve_effective_context_window(None, Some(10), Some(64_000), None);
    assert_eq!(got, 64_000);
}

#[test]
fn below_floor_is_invalid() {
    let got = resolve_effective_context_window(Some(1_000), Some(32_000), None, None);
    assert_eq!(got, 32_000);
}

#[test]
fn validity_bounds() {
    assert!(!is_valid_context_window(0));
    assert!(!is_valid_context_window(CONTEXT_WINDOW_FLOOR - 1));
    assert!(is_valid_context_window(CONTEXT_WINDOW_FLOOR));
    assert!(is_valid_context_window(CONTEXT_WINDOW_CEILING));
    assert!(!is_valid_context_window(CONTEXT_WINDOW_CEILING + 1));
    assert!(!is_valid_context_window(u64::MAX));
}
