//! How old the cached quotes are.
//!
//! The last good quotes are kept between runs together with the time they were
//! fetched, so a restart can show them at once and judge whether they are stale.

use vstd::prelude::*;
use crate::config::{Config, clamped_refresh_secs};

verus! {

#[verifier::external_type_specification]
#[verifier::external_body]
pub struct ExSystemTime(std::time::SystemTime);

#[verifier::external_type_specification]
#[verifier::external_body]
pub struct ExSystemTimeError(std::time::SystemTimeError);

/// Calls `SystemTime::now`. The clock's reading is not stated.
#[verifier::external_body]
fn system_now() -> std::time::SystemTime {
    std::time::SystemTime::now()
}

/// Calls `SystemTime::duration_since` with the Unix epoch; it fails when the time is
/// before the epoch. Nothing is stated of the duration, which depends on the clock.
#[verifier::external_body]
fn since_unix_epoch(t: &std::time::SystemTime) -> std::result::Result<std::time::Duration, std::time::SystemTimeError> {
    t.duration_since(std::time::UNIX_EPOCH)
}

/// What `Duration::as_secs` returns for a duration: its whole seconds.
pub uninterp spec fn secs_of(d: std::time::Duration) -> u64;

/// Calls `Duration::as_secs`, which depends on the duration alone.
#[verifier::external_body]
fn whole_secs(d: &std::time::Duration) -> (r: u64)
    ensures
        r == secs_of(*d),
{
    d.as_secs()
}

/// The whole seconds since the epoch that a clock reading measured, or zero when the
/// reading was earlier than the epoch.
pub fn secs_or_zero(since: std::result::Result<std::time::Duration, std::time::SystemTimeError>) -> (r: u64)
    ensures
        match since {
            Ok(d) => r == secs_of(d),
            Err(_) => r == 0,
        },
{
    match since {
        Ok(d) => whole_secs(&d),
        Err(_) => 0,
    }
}

/// Unix seconds now, or zero if the clock reads earlier than the epoch.
pub fn now_secs() -> u64 {
    secs_or_zero(since_unix_epoch(&system_now()))
}

/// The age in seconds of quotes fetched at `fetched_at`, as seen at `now`; quotes
/// stamped in the future count as fresh.
pub fn cache_age(now: u64, fetched_at: u64) -> (age: u64)
    ensures
        age == (if now >= fetched_at {
            now - fetched_at
        } else {
            0
        }),
{
    if now >= fetched_at {
        now - fetched_at
    } else {
        0
    }
}

/// Whether the cached quotes serve startup on their own: there are some, and they are
/// no older than the refresh period. Startup then shows them without a request;
/// otherwise it fetches at once, still showing whatever the cache held meanwhile.
pub fn cache_serves_startup(cached_quotes: usize, age: u64, config: &Config) -> (r: bool)
    ensures
        r == (cached_quotes > 0 && age <= clamped_refresh_secs(config.refresh_secs)),
{
    cached_quotes > 0 && age <= config.refresh_period_secs()
}

} // verus!
