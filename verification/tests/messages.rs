//! Tests of message construction and preparation.

use nanoai::types::Role;
use nanoai::types::Usage;
use nanoai::types::CompletionResponse;
use nanoai::types::RequestStats;
use nanoai::utils::message;
use nanoai::utils::prepare_messages;

#[test]
fn test_message_creation() {
    let msg = message(Role::User, "Hello");
    assert_eq!(msg.role, Role::User);
    assert_eq!(msg.content, "Hello");
}

#[test]
fn test_prepare_messages_with_system_message() {
    let system_message = "You are a helpful assistant.";
    let messages = vec![message(Role::User, "Hello")];
    let prepared = prepare_messages(system_message, &messages);
    assert_eq!(prepared.len(), 2);
    assert_eq!(prepared[0].role, Role::System);
    assert_eq!(prepared[0].content, system_message);
    assert_eq!(prepared[1].role, Role::User);
}

#[test]
fn test_prepare_messages_without_system_message() {
    let system_message = "";
    let messages = vec![message(Role::User, "Hello")];
    let prepared = prepare_messages(system_message, &messages);
    assert_eq!(prepared.len(), 1);
    assert_eq!(prepared[0].role, Role::User);
}

#[test]
fn first_content_takes_first_choice() {
    let resp = CompletionResponse {
        id: "r1".to_string(),
        choices: vec![
            nanoai::types::Choice {
                finish_reason: "stop".to_string(),
                index: 0,
                message: message(Role::Assistant, "first"),
            },
            nanoai::types::Choice {
                finish_reason: "stop".to_string(),
                index: 1,
                message: message(Role::Assistant, "second"),
            },
        ],
        created: 7,
        model: "m".to_string(),
        system_fingerprint: None,
        object: "chat.completion".to_string(),
        usage: Usage { completion_tokens: 2, prompt_tokens: 3, total_tokens: 5 },
    };
    assert_eq!(resp.first_content(), "first");
}

#[test]
fn first_content_of_empty_choices_is_empty() {
    let resp = CompletionResponse {
        id: "r2".to_string(),
        choices: vec![],
        created: 0,
        model: "m".to_string(),
        system_fingerprint: None,
        object: "chat.completion".to_string(),
        usage: Usage::default(),
    };
    assert_eq!(resp.first_content(), "");
}

#[test]
fn stats_from_usage_copies_counts() {
    let usage = Usage { completion_tokens: 10, prompt_tokens: 20, total_tokens: 30 };
    let stats = RequestStats::from_usage(&usage, &"deepseek-chat".to_string(), 1234, Some(99));
    assert_eq!(stats.duration_ms, 1234);
    assert_eq!(stats.prompt_tokens, Some(20));
    assert_eq!(stats.completion_tokens, Some(10));
    assert_eq!(stats.total_tokens, Some(30));
    assert_eq!(stats.model, "deepseek-chat");
    assert_eq!(stats.timestamp_ms, Some(99));
}
