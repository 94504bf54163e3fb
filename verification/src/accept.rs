//! What follows an attempt to accept a connection.

use vstd::prelude::*;

verus! {

/// How many milliseconds pass before connections are accepted again after a failure.
pub const ACCEPT_RETRY_DELAY: u64 = 500;

/// How many milliseconds to wait before the next connection is accepted: after a
/// failure a fixed delay, after success none at all.
pub fn wait_after_accept<T, E>(accepted: &Result<T, E>) -> (millis: Option<u64>)
    ensures
        millis is Some <==> accepted is Err,
        millis matches Some(n) ==> n == ACCEPT_RETRY_DELAY,
{
    match accepted {
        Ok(_) => None,
        Err(_) => Some(ACCEPT_RETRY_DELAY),
    }
}

/// After a failure, and only then, half a second passes before connections are
/// accepted again.
pub proof fn law_failed_accept_is_tried_again<T, E>(accepted: Result<T, E>, millis: Option<u64>)
    requires
        call_ensures(wait_after_accept::<T, E>, (&accepted,), millis),
    ensures
        accepted is Ok ==> millis is None,
        accepted is Err ==> millis == Some(500u64),
{
}

} // verus!
