use saelora::api::chat::util::{filter_client_messages, role_counts, total_chars};
use saelora::api::chat::{
    backend_error, backend_messages, conversation_failure, creation_mode, history_limit, history_messages,
    latest_user_text, mode_interval_ms, normalize_mode, pending_after_last_saelora, system_prompt,
    tick_plan, tick_reply, user_turn_delta, validate_chat_request, ChatRequestError, TickPlan,
};
use saelora::db::error::DbError;
use saelora::db::user_data::ChatMessageRecord;
use saelora::openrouter::{ChatChoice, ChatCompletionResponse, HttpError, Message};

fn m(role: &str, content: &str) -> Message {
    Message {
        role: role.to_string(),
        content: content.to_string(),
    }
}

fn row(id: i64, role: &str, content: &str, at: i64) -> ChatMessageRecord {
    ChatMessageRecord {
        id,
        conversation_id: 1,
        role: role.to_string(),
        content: content.to_string(),
        created_at: at,
    }
}

#[test]
fn filter_keeps_user_and_assistant_with_content() {
    let msgs = vec![
        m(" user ", "hi"),
        m("system", "x"),
        m("assistant", "  "),
        m("assistant", "yo"),
        m("tool", "z"),
    ];
    let out = filter_client_messages(&msgs);
    assert_eq!(out.len(), 2);
    assert_eq!(out[0].role, "user");
    assert_eq!(out[0].content, "hi");
    assert_eq!(out[1].role, "assistant");
    let again = filter_client_messages(&out);
    assert_eq!(again.len(), 2);
}

#[test]
fn role_counts_and_sizes() {
    let msgs = vec![m("user", "héllo"), m(" assistant", "ab"), m("user", ""), m("x", "c")];
    assert_eq!(role_counts(&msgs), "u=2 a=1");
    assert_eq!(total_chars(&msgs), 6 + 2 + 0 + 1);
}

#[test]
fn modes_normalize_and_schedule() {
    assert_eq!(normalize_mode(" Hourly "), Some("hourly"));
    assert_eq!(normalize_mode("weekly"), Some("weekly"));
    assert_eq!(normalize_mode("monthly"), None);
    assert_eq!(creation_mode("  "), Some("instant"));
    assert_eq!(creation_mode("DAILY"), Some("daily"));
    assert_eq!(creation_mode("x"), None);
    assert_eq!(mode_interval_ms("hourly"), Some(3_600_000));
    assert_eq!(mode_interval_ms("daily"), Some(86_400_000));
    assert_eq!(mode_interval_ms("weekly"), Some(604_800_000));
    assert_eq!(mode_interval_ms("instant"), None);
}

#[test]
fn pending_counts_user_messages_after_last_answer() {
    let rows = vec![
        row(1, "user", "a", 10),
        row(2, "saelora", "b", 20),
        row(3, "user", "c", 30),
        row(4, "user", "d", 40),
    ];
    assert_eq!(pending_after_last_saelora(&rows), (2, Some(20)));
    let rows2 = vec![row(1, "user", "a", 10), row(2, "user", "b", 11)];
    assert_eq!(pending_after_last_saelora(&rows2), (2, None));
    assert_eq!(latest_user_text(&rows), "d");
    let h = history_messages(&rows);
    assert_eq!(h.len(), 4);
    assert_eq!(h[1].role, "assistant");
}

#[test]
fn chat_request_validation_errors_in_order() {
    assert_eq!(
        validate_chat_request(&[], "c").err(),
        Some(ChatRequestError::MissingMessages)
    );
    assert_eq!(
        validate_chat_request(&[m("system", "x")], "c").err(),
        Some(ChatRequestError::NoUsableMessages)
    );
    assert_eq!(
        validate_chat_request(&[m("assistant", "x")], "c").err(),
        Some(ChatRequestError::MissingUserMessage)
    );
    assert_eq!(
        validate_chat_request(&[m("user", "x")], "  ").err(),
        Some(ChatRequestError::MissingConversationId)
    );
    assert_eq!(ChatRequestError::MissingConversationId.message(), "missing conversation_id");
    let ok = validate_chat_request(&[m("user", " first "), m("assistant", "a"), m("user", " last ")], " 7 ")
        .ok()
        .unwrap();
    assert_eq!(ok.latest_user_content, "last");
    assert_eq!(ok.conversation_id, "7");
    assert_eq!(ok.messages.len(), 3);
}

#[test]
fn backend_request_layout() {
    assert_eq!(system_prompt("  be nice "), "be nice");
    assert_eq!(system_prompt(" "), saelora::config::DEFAULT_SYSTEM_PROMPT.trim());
    let out = backend_messages("p".to_string(), Some("ctx".to_string()), vec![m("user", "u")]);
    assert_eq!(out.len(), 3);
    assert_eq!((out[0].role.as_str(), out[0].content.as_str()), ("system", "p"));
    assert_eq!((out[1].role.as_str(), out[1].content.as_str()), ("system", "ctx"));
    assert_eq!(out[2].content, "u");
    assert_eq!(backend_messages("p".to_string(), None, vec![]).len(), 1);
    assert_eq!(user_turn_delta(&[m("assistant", "a"), m("user", "b")]), 1);
    assert_eq!(user_turn_delta(&[m("user", "a"), m("assistant", "b")]), 0);
    assert_eq!(user_turn_delta(&[]), 0);
    assert_eq!(history_limit(0), 2000);
    assert_eq!(history_limit(50_000), 10_000);
    assert_eq!(history_limit(7), 7);
}

#[test]
fn tick_plans() {
    let rows = vec![row(1, "user", "a", 10), row(2, "saelora", "b", 1000), row(3, "user", "c", 2000)];
    assert!(matches!(tick_plan("instant", &rows, 0), TickPlan::Idle { pending: 0 }));
    match tick_plan("hourly", &rows, 5000) {
        TickPlan::NotDue { pending, next_due_at } => {
            assert_eq!(pending, 1);
            assert_eq!(next_due_at, 1000 + 3_600_000);
        }
        _ => panic!("expected NotDue"),
    }
    match tick_plan("hourly", &rows, 3_601_000) {
        TickPlan::Reply { pending, history } => {
            assert_eq!(pending, 1);
            assert_eq!(history.len(), 3);
        }
        _ => panic!("expected Reply"),
    }
    let answered = vec![row(1, "user", "a", 10), row(2, "saelora", "b", 20)];
    assert!(matches!(tick_plan("daily", &answered, 0), TickPlan::Idle { pending: 0 }));
}

fn resp(contents: &[&str]) -> ChatCompletionResponse {
    ChatCompletionResponse {
        id: String::new(),
        object: String::new(),
        created: 0,
        model: String::new(),
        choices: contents
            .iter()
            .enumerate()
            .map(|(i, c)| ChatChoice {
                index: i as i64,
                message: m("assistant", c),
                finish_reason: None,
            })
            .collect(),
        usage: None,
    }
}

#[test]
fn tick_reply_takes_first_non_blank_choice() {
    assert_eq!(tick_reply(&resp(&[" hi "])), Some("hi".to_string()));
    assert_eq!(tick_reply(&resp(&["  ", "x"])), None);
    assert_eq!(tick_reply(&resp(&[])), None);
}

#[test]
fn backend_errors_map_to_client_answers() {
    let e = |s: Option<u16>| {
        let mut he = HttpError::client("x");
        he.status = s;
        backend_error(&he)
    };
    let a = e(Some(401));
    assert_eq!((a.status, a.code.as_str()), (502, "backend_auth"));
    let a = e(Some(403));
    assert_eq!(a.message, "backend authentication failed");
    let a = e(Some(404));
    assert_eq!((a.status, a.code.as_str()), (502, "backend_model_not_found"));
    let a = e(Some(429));
    assert_eq!(
        (a.status, a.error_type.as_str(), a.code.as_str()),
        (429, "rate_limit_error", "rate_limit_exceeded")
    );
    let a = e(Some(400));
    assert_eq!(a.code, "backend_bad_request");
    let a = e(Some(500));
    assert_eq!((a.status, a.message.as_str()), (502, "backend error"));
    let a = e(None);
    assert_eq!(a.code, "backend_error");
}

#[test]
fn conversation_failures_map_to_status() {
    assert_eq!(
        conversation_failure(&DbError::InvalidConversation, "failed to rename conversation"),
        (400, "invalid conversation id")
    );
    assert_eq!(
        conversation_failure(&DbError::NotFound, "failed to rename conversation"),
        (404, "conversation not found")
    );
    assert_eq!(
        conversation_failure(&DbError::Sql("disk full".to_string()), "failed to rename conversation"),
        (500, "failed to rename conversation")
    );
}

#[test]
fn completions_need_an_instant_conversation() {
    assert_eq!(saelora::api::chat::completion_mode_refusal("instant"), None);
    assert_eq!(saelora::api::chat::completion_mode_refusal("daily"), Some("conversation mode is not instant"));
}
