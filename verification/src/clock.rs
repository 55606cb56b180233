use vstd::prelude::*;

verus! {

/// Calls `chrono::Utc::now` and `timestamp_millis`: the milliseconds between the
/// Unix epoch and now. Nothing is promised of the number, since it is whatever
/// the system clock says.
#[verifier::external_body]
pub(crate) fn now_millis() -> i64 {
    chrono::Utc::now().timestamp_millis()
}

/// `millis` is what a look at the system clock gave.
pub closed spec fn is_clock_reading(millis: i64) -> bool {
    call_ensures(now_millis, (), millis)
}

/// A time counts as read from the clock only where the clock gave it.
pub(crate) proof fn law_readings_come_from_the_clock(millis: i64)
    ensures
        is_clock_reading(millis) <==> call_ensures(now_millis, (), millis),
{
}

} // verus!
