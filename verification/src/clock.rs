//! The wall clock.
use vstd::prelude::*;

verus! {

/// `SystemTime::now().duration_since(UNIX_EPOCH)` in milliseconds: `None`
/// when the clock reads before the Unix epoch (or too far past it for an
/// `i64`).  A time it gives is never negative; beyond that the value depends
/// on the time of the call, so nothing more is stated of it.
/// `chrono::Utc::now` reads the same clock but panics on one set before the
/// epoch; read here, such a clock becomes an error its callers report.
#[verifier::external_body]
pub(crate) fn now_ms() -> (r: Option<i64>)
    ensures
        r matches Some(t) ==> t >= 0,
{
    match std::time::SystemTime::now().duration_since(std::time::UNIX_EPOCH) {
        Ok(d) => i64::try_from(d.as_millis()).ok(),
        Err(_) => None,
    }
}

} // verus!
