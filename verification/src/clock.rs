//! The wall clock, reduced to plain milliseconds.
//!
//! Everything timed in this library works over logical milliseconds, so
//! the only thing taken from the system is one opaque "now" reading; all
//! arithmetic on it is done here, in verified code.

use vstd::prelude::*;

verus! {

#[verifier::external_type_specification]
#[verifier::external_body]
pub struct ExOffsetDateTime(time::OffsetDateTime);

/// Relies on time::OffsetDateTime::now_utc: the current instant in UTC.
/// Nothing is assumed about the returned instant.
#[verifier::external_body]
fn now_utc() -> time::OffsetDateTime {
    time::OffsetDateTime::now_utc()
}

/// Relies on time::OffsetDateTime::unix_timestamp_nanos: the instant as
/// nanoseconds since the Unix epoch (negative before 1970).  Nothing
/// further is assumed of the value.
#[verifier::external_body]
fn unix_nanos(t: time::OffsetDateTime) -> i128 {
    t.unix_timestamp_nanos()
}

/// The current time as whole milliseconds since the Unix epoch, clamped
/// into the band every timed function of this library accepts: instants
/// before the epoch read as zero, and the (unreachable) far future is
/// capped just below the parser's time bound.
pub fn now_ms() -> (r: u64)
    ensures
        r < 0x4000_0000_0000_0000,
{
    let t = now_utc();
    let ns = unix_nanos(t);
    if ns <= 0 {
        0
    } else {
        let ms = ns / 1_000_000;
        if ms >= 0x4000_0000_0000_0000 {
            0x4000_0000_0000_0000 - 1
        } else {
            ms as u64
        }
    }
}

} // verus!
