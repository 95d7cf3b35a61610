//! The sources of time and of fresh identifiers that the library reads.

use vstd::prelude::*;

verus! {

/// The largest duration `std::time::Duration` can hold, in nanoseconds.
pub const DURATION_MAX_NANOS: u128 = 18446744073709551615999999999u128;

/// Milliseconds since the Unix epoch on the system clock
/// (`std::time::SystemTime::now`); 0 when the clock is set before the epoch.
/// Nothing is promised of the value: it is whatever the clock reads.
#[verifier::external_body]
pub(crate) fn system_now_millis() -> u64 {
    match std::time::SystemTime::now().duration_since(std::time::UNIX_EPOCH) {
        Ok(d) => d.as_millis() as u64,
        Err(_) => 0,
    }
}

/// Nanoseconds since the Unix epoch on the system clock
/// (`std::time::SystemTime::now`); 0 when the clock is set before the epoch.
/// Nothing is promised of the value: it is whatever the clock reads.
#[verifier::external_body]
pub(crate) fn system_now_nanos() -> u128 {
    match std::time::SystemTime::now().duration_since(std::time::UNIX_EPOCH) {
        Ok(d) => d.as_nanos(),
        Err(_) => 0,
    }
}

/// Milliseconds since the Unix epoch (UTC) on the system clock; 0 before
/// the epoch, and the largest `i64` past what it holds.
pub(crate) fn utc_now_millis() -> (t: i64)
    ensures
        t >= 0,
{
    let ms = system_now_millis();
    if ms > 0x7fff_ffff_ffff_ffffu64 {
        0x7fff_ffff_ffff_ffffi64
    } else {
        ms as i64
    }
}

/// Nanoseconds since the Unix epoch (UTC) on the system clock, or `None`
/// for instants an `i64` of nanoseconds cannot hold (after 2262); 0 before
/// the epoch.
pub(crate) fn utc_now_nanos() -> (t: Option<i64>)
    ensures
        t matches Some(n) ==> n >= 0,
{
    let ns = system_now_nanos();
    if ns > 0x7fff_ffff_ffff_ffffu128 {
        None
    } else {
        Some(ns as i64)
    }
}

/// Whole seconds since the Unix epoch (UTC) on the system clock; 0 before
/// the epoch.
pub(crate) fn utc_now_secs() -> (t: i64)
    ensures
        t >= 0,
{
    utc_now_millis() / 1000
}

/// A fresh random identifier from `uuid::Uuid::new_v4`, in its hyphenated
/// text form, which the `uuid` crate documents as 36 characters long.
#[verifier::external_body]
pub(crate) fn new_uuid_string() -> (id: String)
    ensures
        id@.len() == 36,
{
    uuid::Uuid::new_v4().to_string()
}

} // verus!
