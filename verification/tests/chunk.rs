use saelora::api::chat::chunk::{delta_content, rewrite_chunk_json};

#[test]
fn chunks_show_public_id_and_model() {
    let raw = r#"{"id":"gen-1","created":5,"model":"openai/gpt-4o-mini","choices":[{"delta":{"content":"hi"}}]}"#;
    let out = rewrite_chunk_json(raw, "chatcmpl-x", 42);
    let v: serde_json::Value = serde_json::from_str(&out).unwrap();
    assert_eq!(v["id"], "chatcmpl-x");
    assert_eq!(v["created"], 42);
    assert_eq!(v["model"], "saelora");
    assert_eq!(v["choices"][0]["delta"]["content"], "hi");
    assert!(v.get("error").is_none());
}

#[test]
fn chunk_errors_hide_the_backend_message() {
    let raw = r#"{"error":{"message":"key sk-secret rejected","code":401}}"#;
    let v: serde_json::Value = serde_json::from_str(&rewrite_chunk_json(raw, "p", 1)).unwrap();
    assert_eq!(v["error"]["message"], "backend error");
    assert_eq!(v["error"]["code"], 401);
    let raw = r#"{"error":"plain"}"#;
    let v: serde_json::Value = serde_json::from_str(&rewrite_chunk_json(raw, "p", 1)).unwrap();
    assert_eq!(v["error"], "plain");
}

#[test]
fn non_json_chunks_pass_unchanged() {
    assert_eq!(rewrite_chunk_json("not json", "p", 1), "not json");
    assert_eq!(rewrite_chunk_json("[1,2]", "p", 1), "[1,2]");
}

#[test]
fn delta_content_reads_the_first_choice() {
    assert_eq!(
        delta_content(r#"{"choices":[{"delta":{"content":"Hel"}},{"delta":{"content":"x"}}]}"#),
        Some("Hel".to_string())
    );
    assert_eq!(delta_content(r#"{"choices":[{"delta":{"content":""}}]}"#), None);
    assert_eq!(delta_content(r#"{"choices":[{"delta":{}}]}"#), None);
    assert_eq!(delta_content(r#"{"choices":[]}"#), None);
    assert_eq!(delta_content(r#"{"choices":[{"delta":{"content":7}}]}"#), None);
    assert_eq!(delta_content("garbage"), None);
}
