//! The administration endpoints' decisions.
use crate::db::error::DbError;
use crate::text::{ascii_lower, lower_str, str_eq, trim, trim_str};
use vstd::prelude::*;

verus! {

/// The message a refused administrator check is answered with.
pub fn guard_failure_message(status: u16) -> (m: &'static str)
    ensures
        m@ == (if status == 403 {
            "forbidden"@
        } else if status == 401 {
            "unauthorized"@
        } else {
            "server error"@
        }),
{
    if status == 403 {
        "forbidden"
    } else if status == 401 {
        "unauthorized"
    } else {
        "server error"
    }
}

/// The status of the administrator check once the user is known.
pub fn guard_status(is_admin: bool) -> (s: Option<u16>)
    ensures
        s == (if is_admin {
            None
        } else {
            Some(403u16)
        }),
{
    if is_admin {
        None
    } else {
        Some(403)
    }
}

/// Which list an invitation is removed from.
#[derive(Debug, Clone, Copy, PartialEq, Eq, Structural)]
pub enum InviteList {
    Waitlist,
    Whitelist,
}

/// `whitelist` (in any case, trimmed) names the whitelist; anything else
/// the waitlist.
pub fn invite_list(list: &str) -> (r: InviteList)
    ensures
        r == (if ascii_lower(trim(list@)) == "whitelist"@ {
            InviteList::Whitelist
        } else {
            InviteList::Waitlist
        }),
{
    let l = lower_str(trim_str(list).as_str());
    if str_eq(l.as_str(), "whitelist") {
        InviteList::Whitelist
    } else {
        InviteList::Waitlist
    }
}

/// How a failed status change is answered.
pub fn status_change_failure(e: &DbError) -> (r: (u16, &'static str))
    ensures
        *e == DbError::InvalidStatus ==> r.0 == 400 && r.1@ == "invalid status"@,
        *e != DbError::InvalidStatus ==> r.0 == 500 && r.1@ == "failed to update user"@,
{
    match e {
        DbError::InvalidStatus => (400, "invalid status"),
        _ => (500, "failed to update user"),
    }
}

} // verus!
