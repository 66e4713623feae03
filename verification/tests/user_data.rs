use saelora::db::error::DbError;
use saelora::db::user_data::{
    ingest_claimable, ingest_error_text, normalize_conversation_id, normalize_conversation_summary_content, normalize_mode,
    normalize_model, normalize_or_default_conversation_id, normalize_title,
};

#[test]
fn conversation_ids_are_positive_digits() {
    assert_eq!(normalize_conversation_id(" 12 "), Ok(12));
    assert_eq!(normalize_conversation_id("0"), Err(DbError::InvalidConversation));
    assert_eq!(normalize_conversation_id("-1"), Err(DbError::InvalidConversation));
    assert_eq!(normalize_conversation_id("1a"), Err(DbError::InvalidConversation));
    assert_eq!(normalize_or_default_conversation_id("  "), Ok(1));
    assert_eq!(normalize_or_default_conversation_id("9"), Ok(9));
}

#[test]
fn titles_modes_and_texts() {
    assert_eq!(normalize_title("  ", "New chat"), "New chat");
    assert_eq!(normalize_title(" hi ", "x"), "hi");
    assert_eq!(normalize_title(&"t".repeat(200), "x").chars().count(), 120);
    assert_eq!(normalize_mode(" Daily "), Ok("daily".to_string()));
    assert_eq!(normalize_mode("yearly"), Err(DbError::InvalidStatus));
    assert!(normalize_model("  ").is_err());
    assert_eq!(normalize_model(" m "), Ok("m".to_string()));
    assert!(normalize_conversation_summary_content(" ").is_err());
}

#[test]
fn ingest_claim_and_error_text() {
    assert!(!ingest_claimable(false, None, false));
    assert!(ingest_claimable(true, None, false));
    assert!(!ingest_claimable(true, Some("running"), false));
    assert!(!ingest_claimable(true, Some("done"), true));
    assert!(ingest_claimable(true, Some("done"), false));
    assert!(ingest_claimable(true, Some("failed"), true));
    assert_eq!(ingest_error_text("  boom  "), "boom");
    let long = "é".repeat(600);
    let t = ingest_error_text(&long);
    assert_eq!(t.len(), 1024);
    assert_eq!(ingest_error_text(&"a".repeat(1500)).len(), 1024);
}
