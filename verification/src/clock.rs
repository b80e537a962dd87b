use vstd::prelude::*;

verus! {

/// Relies on chrono::Utc::now and chrono::Datelike::year: the calendar year,
/// in UTC, of the instant the system clock reports. The result depends on
/// the clock, so nothing is promised of it.
#[verifier::external_body]
fn utc_year_now() -> i32 {
    chrono::Datelike::year(&chrono::Utc::now())
}

/// Relies on chrono::Utc::now and chrono::DateTime::to_rfc3339: the instant
/// the system clock reports, written as an RFC 3339 date-and-time string.
/// The result depends on the clock, so nothing is promised of it.
#[verifier::external_body]
fn utc_now_rfc3339() -> String {
    chrono::Utc::now().to_rfc3339()
}

/// The current period: the wall-clock year in UTC. The result depends on the
/// clock, so nothing is promised of it; whatever year comes back, the draw
/// engine's behaviour for that year is pinned by its own contract.
pub fn current_period() -> i32 {
    utc_year_now()
}

/// A timestamp for a new ledger row: the wall-clock instant in UTC, as text.
pub fn now_timestamp() -> String {
    utc_now_rfc3339()
}

} // verus!
