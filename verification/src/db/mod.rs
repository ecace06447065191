//! Records of the users, sessions and audit tables, and the computations
//! made around the queries on them.
pub mod audit;
pub mod sessions;
pub mod users;

use vstd::prelude::*;

verus! {

/// Seconds since the Unix epoch as the clock gave them: `Some(secs)` when the
/// clock is after the epoch, `None` when it is before.
/// The result is the value of the seconds count as an `i64` (two's complement
/// truncation, as `as i64` does), or 0 when the clock is before the epoch.
pub fn unix_from_elapsed(elapsed: Option<u64>) -> (r: i64)
    ensures
        r == (match elapsed {
            Some(s) => s as i64,
            None => 0i64,
        }),
{
    match elapsed {
        Some(s) => s as i64,
        None => 0,
    }
}

/// `std::time::SystemTime`, carried through without looking inside.
#[verifier::external_type_specification]
#[verifier::external_body]
pub struct ExSystemTime(std::time::SystemTime);

/// Reads the system clock through `SystemTime::now`. Nothing is stated of
/// the value: it is the time.
#[verifier::external_body]
fn system_time_now() -> (r: std::time::SystemTime) {
    std::time::SystemTime::now()
}

/// The time from the Unix epoch to `t`, through
/// `SystemTime::duration_since(UNIX_EPOCH)`, or `None` where `t` is before the
/// epoch (the call's error). Nothing is stated of the value: it depends on the
/// clock reading `t`, which is opaque here.
#[verifier::external_body]
fn elapsed_since_epoch(t: std::time::SystemTime) -> (r: Option<std::time::Duration>) {
    t.duration_since(std::time::UNIX_EPOCH).ok()
}

/// The whole seconds in `d`, through `Duration::as_secs`. Nothing is stated of
/// the value: a `Duration` is opaque here.
#[verifier::external_body]
fn whole_secs(d: std::time::Duration) -> (r: u64) {
    d.as_secs()
}

/// The current time in Unix seconds (0 if the clock is before the epoch).
/// The value is the clock's reading, converted as `unix_from_elapsed` states;
/// since every `i64` is the conversion of some reading, no clause holds of
/// every outcome beyond the type.
pub fn now_unix() -> (r: i64) {
    let elapsed = match elapsed_since_epoch(system_time_now()) {
        Some(d) => Some(whole_secs(d)),
        None => None,
    };
    unix_from_elapsed(elapsed)
}

} // verus!
