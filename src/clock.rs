use vstd::prelude::*;

verus! {

/// Relies on chrono::Utc::now and DateTime::timestamp_micros: the current UTC
/// time as microseconds since the Unix epoch. It depends on the time alone, so
/// nothing is stated of it.
#[verifier::external_body]
pub(crate) fn now_micros() -> i64 {
    chrono::Utc::now().timestamp_micros()
}

/// The stamp that follows `last` when the clock reads `now`: the clock reading
/// if it is later, else one microsecond after `last` (saturating at the largest
/// stamp), so that stamps strictly increase.
pub open spec fn next_stamp(last: i64, now: i64) -> i64 {
    if now > last {
        now
    } else if last < i64::MAX {
        (last + 1) as i64
    } else {
        last
    }
}

pub fn following_stamp(last: i64, now: i64) -> (r: i64)
    ensures
        r == next_stamp(last, now),
{
    if now > last {
        now
    } else if last < i64::MAX {
        last + 1
    } else {
        last
    }
}

} // verus!
