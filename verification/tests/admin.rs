use saelora::api::admin::{guard_failure_message, guard_status, invite_list, status_change_failure, InviteList};
use saelora::db::error::DbError;

#[test]
fn admin_guard_answers() {
    assert_eq!(guard_failure_message(403), "forbidden");
    assert_eq!(guard_failure_message(401), "unauthorized");
    assert_eq!(guard_failure_message(500), "server error");
    assert_eq!(guard_status(true), None);
    assert_eq!(guard_status(false), Some(403));
}

#[test]
fn invite_removal_targets_a_list() {
    assert_eq!(invite_list(" WhiteList "), InviteList::Whitelist);
    assert_eq!(invite_list("pending"), InviteList::Waitlist);
    assert_eq!(invite_list(""), InviteList::Waitlist);
    assert_eq!(status_change_failure(&DbError::InvalidStatus), (400, "invalid status"));
    assert_eq!(status_change_failure(&DbError::NotFound), (500, "failed to update user"));
}
