//! Reasoning blocks in replies.

use acowork_runtime::think::{extract_think_block, strip_think_block};

#[test]
fn strip_think_no_tags() {
    assert_eq!(strip_think_block("hello world"), "hello world");
}

#[test]
fn strip_think_standard_single() {
    assert_eq!(
        strip_think_block("<think>reasoning</think>answer"),
        "answer"
    );
}

#[test]
fn strip_think_standard_with_surrounding() {
    assert_eq!(
        strip_think_block("before<think>inner</think>after"),
        "beforeafter"
    );
}

#[test]
fn strip_think_minimax_single() {
    assert_eq!(
        strip_think_block("<!think>reasoningwillReturnanswer"),
        "answer"
    );
}

#[test]
fn strip_think_minimax_with_surrounding() {
    assert_eq!(
        strip_think_block("before<!think>innerwillReturnafter"),
        "beforeafter"
    );
}

#[test]
fn strip_think_multiple_blocks() {
    assert_eq!(
        strip_think_block("A<think>T1</think>B<think>T2</think>C"),
        "ABC"
    );
}

#[test]
fn strip_think_mixed_formats() {
    assert_eq!(
        strip_think_block("A<think>T1</think>B<!think>T2willReturnC"),
        "ABC"
    );
}

#[test]
fn strip_think_unclosed_standard() {
    assert_eq!(
        strip_think_block("answer<think>unclosed reasoning"),
        "answer"
    );
}

#[test]
fn strip_think_unclosed_minimax() {
    assert_eq!(
        strip_think_block("answer<!think>unclosed reasoning"),
        "answer"
    );
}

#[test]
fn strip_think_empty_content() {
    assert_eq!(strip_think_block(""), "");
}

#[test]
fn strip_think_only_think_block() {
    assert_eq!(strip_think_block("<think>just thinking</think>"), "");
}

#[test]
fn extract_gives_the_trimmed_block() {
    assert_eq!(extract_think_block("a<think> why </think>b"), Some("why".to_string()));
    assert_eq!(extract_think_block("nothing here"), None);
    assert_eq!(extract_think_block("</think><think>x</think>"), Some("x".to_string()));
    assert_eq!(
        extract_think_block("a</think>b<think> why </think>c"),
        Some("why".to_string())
    );
    assert_eq!(extract_think_block("</think><think>x"), None);
    assert_eq!(extract_think_block("<think></think>"), None);
}
