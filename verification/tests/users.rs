use saelora::crypto::{hash_password, hex_encode, sha256_hex, verify_password};
use saelora::db::error::DbError;
use saelora::api::auth::{bearer_token, token_failure_status};
use saelora::db::users::{
    admin_to_promote, auth_user_from_token, consume_magic_token_set_password, get_message_counts,
    is_admin_user, peek_magic_token_email, plan_magic_token, plan_new_user, plan_session_token,
    session_is_live, set_user_status, token_expiry, token_hash_of, verify_login, AccountChange,
    AccountRow, LoginRow, MagicTokenRow, SessionUser, UserRecord,
};

#[test]
fn hex_and_digest() {
    assert_eq!(hex_encode(&[0x00, 0xab, 0x7f]), "00ab7f");
    assert_eq!(
        sha256_hex(b"abc"),
        "ba7816bf8f01cfea414140de5dae2223b00361a396177a9cb410ff61f20015ad"
    );
    assert_eq!(token_hash_of("  abc "), Some(sha256_hex(b"abc")));
    assert_eq!(token_hash_of("   "), None);
}

#[test]
fn expiry_saturates() {
    assert_eq!(token_expiry(1000, 2, 60), 3000);
    assert_eq!(token_expiry(1000, 0, 60), 61_000);
    assert_eq!(token_expiry(i64::MAX - 5, 10, 60), i64::MAX);
    assert_eq!(token_expiry(0, i64::MAX, 60), i64::MAX);
}

#[test]
fn magic_tokens_are_planned_for_valid_addresses() {
    assert_eq!(plan_magic_token("nope", 60, None).err(), Some(DbError::InvalidEmail));
    assert_eq!(
        plan_magic_token("a@b.co", 60, Some("disabled")).err(),
        Some(DbError::Unauthorized)
    );
    let p = plan_magic_token(" A@b.co ", 60, Some("active")).ok().unwrap();
    assert_eq!(p.email, "A@b.co");
    assert_eq!(p.grant.raw.len(), 64);
    assert_eq!(p.grant.token_hash, sha256_hex(p.grant.raw.as_bytes()));
    assert_eq!(p.grant.expires_at, p.grant.created_at + 60_000);
    let q = plan_magic_token("a@b.co", 60, None).ok().unwrap();
    assert_ne!(p.grant.raw, q.grant.raw);
}

#[test]
fn session_tokens_need_a_user() {
    assert_eq!(plan_session_token("  ", 10).err(), Some(DbError::Unauthorized));
    let (uid, g) = plan_session_token(" u1 ", 10).ok().unwrap();
    assert_eq!(uid, "u1");
    assert_eq!(token_hash_of(&g.raw), Some(g.token_hash.clone()));
}

fn row(expires_at: i64, used_at: Option<i64>) -> MagicTokenRow {
    MagicTokenRow {
        id: "t1".to_string(),
        email: "a@b.co".to_string(),
        expires_at,
        used_at,
    }
}

#[test]
fn magic_token_expiry_is_enforced() {
    assert_eq!(peek_magic_token_email(Some(row(100, None)), 50).ok(), Some("a@b.co".to_string()));
    assert_eq!(peek_magic_token_email(Some(row(100, None)), 100).err(), Some(DbError::TokenInvalid));
    assert_eq!(peek_magic_token_email(Some(row(100, Some(1))), 50).err(), Some(DbError::TokenInvalid));
    assert_eq!(peek_magic_token_email(None, 0).err(), Some(DbError::TokenInvalid));
}

#[test]
fn magic_token_requires_allow_create_user_for_new_accounts_and_is_one_time() {
    assert_eq!(peek_magic_token_email(Some(row(100, None)), 0).ok(), Some("a@b.co".to_string()));
    let r = consume_magic_token_set_password(Some(row(100, None)), None, false, 0);
    assert_eq!(r.err(), Some(DbError::TokenInvalid));
    assert_eq!(peek_magic_token_email(Some(row(100, None)), 0).ok(), Some("a@b.co".to_string()));
    let p = consume_magic_token_set_password(Some(row(100, None)), None, true, 7).ok().unwrap();
    assert_eq!(p.used_at, 7);
    assert_eq!(p.token_id, "t1");
    match &p.change {
        AccountChange::CreateNew(id) => {
            assert!(!id.trim().is_empty());
            assert_eq!(id.len(), 36);
        }
        _ => panic!("expected a new account"),
    }
    // Once consumed, the link is marked used and refused from then on.
    assert_eq!(peek_magic_token_email(Some(row(100, Some(0))), 0), Err(DbError::TokenInvalid));
    assert_eq!(
        consume_magic_token_set_password(Some(row(100, Some(0))), None, true, 0).err(),
        Some(DbError::TokenInvalid)
    );
    let acct = AccountRow {
        id: "u1".to_string(),
        status: "pending".to_string(),
    };
    let p = consume_magic_token_set_password(Some(row(100, None)), Some(acct), false, 0).ok().unwrap();
    assert!(matches!(p.change, AccountChange::UpdateExisting(ref id) if id == "u1"));
    assert_eq!(p.token_id, "t1");
    let disabled = AccountRow {
        id: "u2".to_string(),
        status: "disabled".to_string(),
    };
    assert_eq!(
        consume_magic_token_set_password(Some(row(100, None)), Some(disabled), true, 0).err(),
        Some(DbError::TokenInvalid)
    );
    assert_eq!(
        consume_magic_token_set_password(Some(row(100, Some(5))), None, true, 0).err(),
        Some(DbError::TokenInvalid)
    );
}

#[test]
fn passwords_verify_only_against_their_hash() {
    let h = hash_password("password123").unwrap();
    assert!(h.starts_with("$argon2"));
    assert!(verify_password("password123", &h));
    assert!(!verify_password("wrong", &h));
    assert!(!verify_password("password123", "not a hash"));
}

fn login_row(status: &str, hash: &str) -> LoginRow {
    LoginRow {
        id: "u1".to_string(),
        email: "a@b.co".to_string(),
        status: status.to_string(),
        created_at: 7,
        password_hash: hash.to_string(),
    }
}

#[test]
fn create_user_and_verify_login_are_case_insensitive() {
    let h = hash_password("password123").unwrap();
    let u = plan_new_user("Test@Example.com", "active", 0).unwrap();
    assert_eq!(u.email, "Test@Example.com");
    // The store finds the row whatever the case of the address; the login
    // decision then holds for either spelling.
    let stored = |hash: &str| LoginRow {
        id: u.id.clone(),
        email: u.email.clone(),
        status: u.status.clone(),
        created_at: u.created_at,
        password_hash: hash.to_string(),
    };
    assert!(verify_login("test@example.com", Some(stored(&h)), "password123").is_ok());
    assert!(verify_login("TEST@EXAMPLE.COM", Some(stored(&h)), "password123").is_ok());
    assert_eq!(
        verify_login("test@example.com", Some(stored(&h)), "wrong").err(),
        Some(DbError::Unauthorized)
    );
}

#[test]
fn disabled_user_cannot_login_or_receive_magic_tokens() {
    let h = hash_password("password123").unwrap();
    let u = verify_login("a@b.co", Some(login_row("active", &h)), "password123").unwrap();
    assert_eq!((u.id.as_str(), u.created_at), ("u1", 7));
    assert_eq!(
        verify_login("a@b.co", Some(login_row("disabled", &h)), "password123").err(),
        Some(DbError::Unauthorized)
    );
    assert_eq!(
        plan_magic_token("disabled@example.com", 3600, Some("disabled")).err(),
        Some(DbError::Unauthorized)
    );
    assert_eq!(
        verify_login("a@b.co", Some(login_row("active", " ")), "password123").err(),
        Some(DbError::Unauthorized)
    );
    assert_eq!(
        verify_login("a@b.co", Some(login_row("active", &h)), "wrong").err(),
        Some(DbError::Unauthorized)
    );
    assert_eq!(verify_login(" ", None, "x").err(), Some(DbError::Unauthorized));
}

fn session(status: &str, expires_at: Option<i64>, revoked_at: Option<i64>) -> SessionUser {
    SessionUser {
        user: UserRecord {
            id: "u".to_string(),
            email: "u@example.com".to_string(),
            status: status.to_string(),
            created_at: 1,
        },
        expires_at,
        revoked_at,
    }
}

#[test]
fn session_tokens_revoke_and_expire_and_require_active_user() {
    let (uid, g) = plan_session_token("u", 3600).ok().unwrap();
    assert_eq!(uid, "u");
    let now = g.created_at;
    let live = session("active", Some(g.expires_at), None);
    assert_eq!(auth_user_from_token(Some(live), now).unwrap().id, "u");
    // Revoked.
    let revoked = session("active", Some(g.expires_at), Some(now));
    assert_eq!(auth_user_from_token(Some(revoked), now).err(), Some(DbError::Unauthorized));
    // Expired.
    let expired = session("active", Some(0), None);
    assert_eq!(auth_user_from_token(Some(expired), now).err(), Some(DbError::Unauthorized));
    assert_eq!(
        auth_user_from_token(Some(session("active", Some(g.expires_at), None)), g.expires_at).err(),
        Some(DbError::Unauthorized)
    );
    // Disabled account with an unexpired token.
    let disabled = session("disabled", Some(g.expires_at), None);
    assert_eq!(auth_user_from_token(Some(disabled), now).err(), Some(DbError::Unauthorized));
    assert_eq!(auth_user_from_token(None, now).err(), Some(DbError::Unauthorized));
    assert!(session_is_live(Some(10), None, 5));
    assert!(!session_is_live(Some(10), None, 10));
    assert!(!session_is_live(Some(10), Some(1), 5));
    assert!(session_is_live(None, None, 5));
}

#[test]
fn login_and_logout_flow_is_consistent() {
    let h = hash_password("password123").unwrap();
    assert!(verify_login("login@example.com", Some(login_row("active", &h)), "password123").is_ok());
    assert_eq!(
        verify_login("login@example.com", Some(login_row("active", &h)), "wrong").err(),
        Some(DbError::Unauthorized)
    );
    assert_eq!(verify_login("unknown@example.com", None, "password123").err(), Some(DbError::Unauthorized));
    let (_, g) = plan_session_token("u", 3600).ok().unwrap();
    let header = format!("Bearer {}", g.raw);
    assert_eq!(bearer_token(Some(header.as_str())), Some(g.raw.clone()));
    let now = g.created_at;
    assert!(auth_user_from_token(Some(session("active", Some(g.expires_at), None)), now).is_ok());
    // After logout the session row is revoked: `me` answers 401.
    let e = auth_user_from_token(Some(session("active", Some(g.expires_at), Some(now))), now).unwrap_err();
    assert_eq!(token_failure_status(&e), 401);
    assert_eq!(bearer_token(None), None);
}

#[test]
fn earliest_active_user_is_admin() {
    let admin = plan_new_user("admin@example.com", "active", 0).unwrap();
    let other = plan_new_user("other@example.com", "active", 1).unwrap();
    assert!(admin.is_admin);
    assert!(!other.is_admin);
    assert!(is_admin_user("active", 1));
    // The admin is disabled: no active admin is left, so the oldest active
    // account is promoted.
    assert!(!is_admin_user("disabled", 1));
    let rows = vec![
        (admin.id.clone(), "disabled".to_string(), 10),
        (other.id.clone(), "active".to_string(), 20),
    ];
    assert_eq!(admin_to_promote(0, &rows), Some(1));
    assert_eq!(admin_to_promote(1, &rows), None);
    let all = vec![
        ("a".to_string(), "active".to_string(), 30),
        ("b".to_string(), "active".to_string(), 20),
        ("c".to_string(), "active".to_string(), 20),
        ("d".to_string(), "pending".to_string(), 5),
    ];
    assert_eq!(admin_to_promote(0, &all), Some(1));
    assert_eq!(admin_to_promote(0, &vec![("d".to_string(), "pending".to_string(), 5)]), None);
}

#[test]
fn status_changes_and_admin_flag() {
    assert_eq!(set_user_status(" ", "active").err(), Some(DbError::Unauthorized));
    assert_eq!(set_user_status("u", "gone").err(), Some(DbError::InvalidStatus));
    assert_eq!(
        set_user_status(" u ", " disabled ").ok(),
        Some(("u".to_string(), "disabled".to_string()))
    );
    assert!(is_admin_user("active", 1));
    assert!(!is_admin_user("disabled", 1));
    assert!(!is_admin_user("active", 0));
}

#[test]
fn message_counts_take_the_last_value() {
    let rows = vec![
        ("user_messages".to_string(), 3),
        ("saelora_messages".to_string(), -2),
        ("user_messages".to_string(), 5),
        ("other".to_string(), 9),
    ];
    assert_eq!(get_message_counts(&rows), (5, 0));
    assert_eq!(get_message_counts(&vec![]), (0, 0));
}

#[test]
fn new_user_plan_sets_status_and_first_admin() {
    let u = plan_new_user(" A@Example.com ", " ", 0).unwrap();
    assert_eq!(u.email, "A@Example.com");
    assert_eq!(u.status, "pending");
    assert!(!u.is_admin);
    let u = plan_new_user("a@example.com", "active", 0).unwrap();
    assert!(u.is_admin);
    assert_eq!(u.id.len(), 36);
    assert!(!plan_new_user("a@example.com", "active", 2).unwrap().is_admin);
    assert_eq!(plan_new_user("nope", "active", 0).unwrap_err(), DbError::InvalidEmail);
}

#[test]
fn new_uuid_is_hyphenated_lowercase() {
    let id = saelora::crypto::new_uuid().unwrap();
    assert_eq!(id.len(), 36);
    assert!(id.chars().all(|c| c.is_ascii_digit() || ('a'..='f').contains(&c) || c == '-'));
    assert_eq!(id.chars().nth(14), Some('4'));
    assert!(matches!(id.chars().nth(19), Some('8' | '9' | 'a' | 'b')));
    assert_eq!(id.chars().filter(|c| *c == '-').count(), 4);
    assert_eq!(id.chars().nth(8), Some('-'));
    assert_eq!(id.chars().nth(23), Some('-'));
    assert_ne!(id, saelora::crypto::new_uuid().unwrap());
}

#[test]
fn used_links_and_revoked_sessions_stay_dead() {
    assert!(!session_is_live(Some(100), Some(5), 0));
    assert!(!session_is_live(Some(100), None, 100));
    assert!(session_is_live(Some(100), None, 99));
    let used = MagicTokenRow { id: "t".to_string(), email: "a@b.co".to_string(), expires_at: 100, used_at: Some(1) };
    assert_eq!(peek_magic_token_email(Some(used), 0), Err(DbError::TokenInvalid));
}

#[test]
fn uuid_text_matches_the_uuid_crate() {
    let cases: [[u8; 16]; 3] = [
        [0; 16],
        [0xff; 16],
        [70, 235, 208, 238, 14, 109, 67, 201, 185, 13, 204, 195, 90, 145, 63, 62],
    ];
    for b in cases {
        let expected = uuid::Builder::from_random_bytes(b).into_uuid().to_string();
        assert_eq!(saelora::crypto::uuid_text(&b), expected);
    }
    assert_eq!(saelora::crypto::uuid_text(&[0; 16]), "00000000-0000-4000-8000-000000000000");
    assert_eq!(saelora::crypto::uuid_text(&[0xff; 16]), "ffffffff-ffff-4fff-bfff-ffffffffffff");
}
