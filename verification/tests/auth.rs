use saelora::db::manager::Manager;
use saelora::api::auth::{
    bearer_token, check_link_request, check_setup_request, invite_email, invite_failure,
    link_delivery, link_eligible, link_issue_outcome, link_mail_bodies, login_failure,
    magic_link_url, check_register_request, clear_registered, register_decision, register_failure, setup_allowed, setup_failure, token_failure_status,
    LinkDelivery,
};
use saelora::config::default_settings;
use saelora::db::error::DbError;

#[test]
fn bearer_token_parsing_is_case_insensitive_and_trims() {
    assert_eq!(bearer_token(Some("bEaReR   abc123  ")).as_deref(), Some("abc123"));
    assert!(bearer_token(Some("Token abc123")).is_none());
}

#[test]
fn bearer_token_edge_cases() {
    assert!(bearer_token(None).is_none());
    assert!(bearer_token(Some("bearer")).is_none());
    assert_eq!(bearer_token(Some("Bearer ")), None);
    assert_eq!(bearer_token(Some(" Bearer x ")).as_deref(), Some("x"));
    assert_eq!(token_failure_status(&DbError::Unauthorized), 401);
    assert_eq!(token_failure_status(&DbError::NotFound), 500);
}

#[test]
fn setup_requests_are_checked() {
    assert_eq!(check_setup_request("  ", "password123").err().unwrap().message, "missing token");
    let e = check_setup_request("t", " short ").err().unwrap();
    assert_eq!((e.status, e.message.as_str()), (400, "password too short"));
    assert_eq!(check_setup_request(" tok ", "12345678").ok().unwrap(), "tok");
    assert!(setup_allowed(true, false));
    assert!(setup_allowed(false, true));
    assert!(!setup_allowed(false, false));
    assert_eq!(setup_failure(&DbError::TokenInvalid).message, "invalid or expired token");
    assert_eq!(setup_failure(&DbError::Unauthorized).message, "invalid token");
    assert_eq!(setup_failure(&DbError::NotFound).status, 500);
}

#[test]
fn link_requests_and_eligibility() {
    assert_eq!(check_link_request(" ").err().unwrap().message, "missing email");
    assert_eq!(check_link_request("nope").err().unwrap().message, "invalid email");
    assert_eq!(check_link_request(" a@b.co ").ok().unwrap(), "a@b.co");
    assert!(link_eligible(Some(("active", "hash")), false));
    assert!(!link_eligible(Some(("active", "  ")), false));
    assert!(!link_eligible(Some(("disabled", "hash")), false));
    assert!(link_eligible(None, true));
    assert!(!link_eligible(None, false));
}

#[test]
fn issuing_a_link_does_not_leak_eligibility() {
    let r = link_issue_outcome(false, Ok("t".to_string())).err().unwrap();
    assert_eq!((r.status, r.message.as_str()), (200, ""));
    let r = link_issue_outcome(true, Err(DbError::Unauthorized)).err().unwrap();
    assert_eq!((r.status, r.message.as_str()), (200, ""));
    let r = link_issue_outcome(true, Err(DbError::InvalidEmail)).err().unwrap();
    assert_eq!((r.status, r.message.as_str()), (400, "invalid email"));
    assert_eq!(link_issue_outcome(true, Ok("t".to_string())).ok(), Some("t".to_string()));
}

#[test]
fn magic_link_urls_and_mail() {
    let mut s = default_settings();
    assert_eq!(magic_link_url(&s, "abc"), "http://localhost:8080/app/#setup=abc");
    s.public_base = "saelora.ai/".to_string();
    assert_eq!(magic_link_url(&s, "abc"), "https://saelora.ai/app/#setup=abc");
    let (text, html) = link_mail_bodies("U");
    assert_eq!(
        text,
        "Use this link to set your password and sign in:\nU\nIf you didn't request this, you can ignore it."
    );
    assert!(html.contains("<a href=\"U\">U</a>"));
    assert_eq!(link_delivery(true, "x"), LinkDelivery::Mail);
    assert_eq!(link_delivery(false, "http://127.0.0.1:8080"), LinkDelivery::LogLink);
    assert_eq!(link_delivery(false, "https://saelora.ai"), LinkDelivery::LogNotice);
}

#[test]
fn registration_checks_input_first() {
    let msg = |e: &str, p: &str| check_register_request(e, p).unwrap_err().message;
    assert_eq!(msg("", "x"), "missing email or password");
    assert_eq!(msg("bad", "password1"), "invalid email");
    assert_eq!(msg("a@b.co", "short"), "password too short");
    assert_eq!(check_register_request(" a@b.co ", "password123").unwrap(), "a@b.co");
    assert_eq!(login_failure(&DbError::Unauthorized).status, 401);
    assert_eq!(login_failure(&DbError::NotFound).message, "server error");
}

#[test]
fn registration_requires_whitelist_and_reports_pending() {
    let mut m = Manager::new("x");
    let r = register_decision("r@example.com", false, &m).unwrap();
    assert_eq!((r.status, r.message.as_str()), (403, "invite required"));
    m.waitlist_add("r@example.com").unwrap();
    let r = register_decision("r@example.com", false, &m).unwrap();
    assert_eq!((r.status, r.message.as_str()), (403, "you are on the waitlist"));
    m.whitelist_add("R@Example.com").unwrap();
    assert!(register_decision("r@example.com", false, &m).is_none());
    let r = register_decision("r@example.com", true, &m).unwrap();
    assert_eq!((r.status, r.message.as_str()), (409, "account already exists"));
    clear_registered(&mut m, "r@example.com");
    assert!(!m.waitlist_has("r@example.com"));
    assert!(!m.whitelist_has("r@example.com"));
    assert_eq!(register_failure(&DbError::UserExists).status, 409);
    assert_eq!(register_failure(&DbError::InvalidEmail).message, "invalid email");
    assert_eq!(register_failure(&DbError::Sql("x".to_string())).status, 500);
}

#[test]
fn invitations_read_the_right_body() {
    assert_eq!(
        invite_email("application/json; charset=utf-8", Some("j@x.io".to_string()), Some("f@x.io".to_string())),
        "j@x.io"
    );
    assert_eq!(invite_email("application/x-www-form-urlencoded", None, Some("f@x.io".to_string())), "f@x.io");
    assert_eq!(invite_email("application/json", None, Some("f@x.io".to_string())), "");
    assert_eq!(invite_failure(&DbError::InvalidEmail).status, 400);
    assert_eq!(invite_failure(&DbError::Io("x".to_string())).message, "server error");
}
