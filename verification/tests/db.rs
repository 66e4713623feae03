use saelora::db::error::DbError;
use saelora::db::manager::Manager;
use saelora::db::util::looks_like_email;

fn new_mgr() -> (tempfile::TempDir, Manager) {
    let td = tempfile::tempdir().expect("tempdir");
    let mgr = Manager::new(td.path().to_str().unwrap());
    (td, mgr)
}

#[test]
fn db_looks_like_email_rejects_obvious_garbage() {
    assert!(looks_like_email("a@b.co"));
    assert!(looks_like_email("Test.User+tag@example.com"));

    assert!(!looks_like_email(""));
    assert!(!looks_like_email("   "));
    assert!(!looks_like_email("no-at-sign.example.com"));
    assert!(!looks_like_email("@example.com"));
    assert!(!looks_like_email("a@"));
    assert!(!looks_like_email("a@example"));
    assert!(!looks_like_email("a@exa mple.com"));
    assert!(looks_like_email("a@example.com\n"));
    assert!(!looks_like_email("a@example.\ncom"));
}

#[test]
fn tests_looks_like_email_rejects_obvious_garbage() {
    assert!(looks_like_email("a@b.co"));
    assert!(looks_like_email("Test.User+tag@example.com"));

    assert!(!looks_like_email(""));
    assert!(!looks_like_email("   "));
    assert!(!looks_like_email("no-at-sign.example.com"));
    assert!(!looks_like_email("@example.com"));
    assert!(!looks_like_email("a@"));
    assert!(!looks_like_email("a@example"));
    assert!(!looks_like_email("a@exa mple.com"));
    assert!(looks_like_email("a@example.com\n"));
    assert!(!looks_like_email("a@example.\ncom"));
}

#[test]
fn db_waitlist_add_is_case_insensitive_and_dedupes() {
    let (_td, mut mgr) = new_mgr();

    mgr.waitlist_add("Test@Example.com").unwrap();
    mgr.waitlist_add("test@example.com").unwrap();
    mgr.waitlist_add("TEST@EXAMPLE.COM").unwrap();

    assert_eq!(mgr.waitlist_count(), 1);
    assert!(mgr.waitlist_has("test@example.com"));
    assert!(mgr.waitlist_has("TEST@example.com"));
}

#[test]
fn tests_waitlist_add_is_case_insensitive_and_dedupes() {
    let (_td, mut mgr) = new_mgr();

    mgr.waitlist_add("Test@Example.com").unwrap();
    mgr.waitlist_add("test@example.com").unwrap();
    mgr.waitlist_add("TEST@EXAMPLE.COM").unwrap();

    assert_eq!(mgr.waitlist_count(), 1);
    assert!(mgr.waitlist_has("test@example.com"));
    assert!(mgr.waitlist_has("TEST@example.com"));
}

#[test]
fn db_whitelist_add_remove_case_insensitive_and_dedupes() {
    let (_td, mut mgr) = new_mgr();

    mgr.whitelist_add("A@Example.com").unwrap();
    mgr.whitelist_add("a@example.com").unwrap();
    assert_eq!(mgr.whitelist_count(), 1);
    assert!(mgr.whitelist_has("a@example.com"));

    mgr.whitelist_remove("A@EXAMPLE.COM");
    assert_eq!(mgr.whitelist_count(), 0);
    assert!(!mgr.whitelist_has("a@example.com"));
}

#[test]
fn tests_whitelist_add_remove_case_insensitive_and_dedupes() {
    let (_td, mut mgr) = new_mgr();

    mgr.whitelist_add("A@Example.com").unwrap();
    mgr.whitelist_add("a@example.com").unwrap();
    assert_eq!(mgr.whitelist_count(), 1);
    assert!(mgr.whitelist_has("a@example.com"));

    mgr.whitelist_remove("A@EXAMPLE.COM");
    assert_eq!(mgr.whitelist_count(), 0);
    assert!(!mgr.whitelist_has("a@example.com"));
}

#[test]
fn waitlist_rejects_invalid_email_and_lists_in_order() {
    let mut mgr = Manager::new("d");
    assert_eq!(mgr.waitlist_add("nope"), Err(DbError::InvalidEmail));
    mgr.waitlist_add("b@example.com").unwrap();
    mgr.waitlist_add("a@example.com").unwrap();
    let l = mgr.waitlist_list();
    assert_eq!(l.len(), 2);
    assert_eq!(l[0].email, "b@example.com");
    assert_eq!(l[1].email, "a@example.com");
    mgr.waitlist_remove("B@example.com");
    assert_eq!(mgr.waitlist_count(), 1);
}

#[test]
fn manager_paths_live_under_the_data_dir() {
    let mgr = Manager::new("data");
    assert!(mgr.users_db_path().starts_with("data"));
    assert!(mgr.waitlist_path().starts_with("data"));
    assert!(mgr.whitelist_path().starts_with("data"));
    assert!(mgr.user_data_db_path("../x").is_err());
    assert!(mgr.user_data_db_path("abc-123").unwrap().contains("abc-123"));
}

#[test]
fn listing_count_and_membership_agree_after_add_and_remove() {
    let mut m = Manager::new("x");
    m.waitlist_add("a@example.com").unwrap();
    m.waitlist_add("B@example.com").unwrap();
    m.waitlist_add(" A@EXAMPLE.com ").unwrap();
    assert_eq!(m.waitlist_count(), 2);
    assert_eq!(m.waitlist_list().len(), m.waitlist_count());
    for r in m.waitlist_list() {
        assert!(m.waitlist_has(&r.email));
    }
    assert!(!m.waitlist_has("c@example.com"));
    m.waitlist_remove("b@EXAMPLE.com");
    assert_eq!(m.waitlist_count(), 1);
    assert!(!m.waitlist_has("b@example.com"));
    m.waitlist_remove("c@example.com");
    assert_eq!(m.waitlist_list().len(), 1);
}
