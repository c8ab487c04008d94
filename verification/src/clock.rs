use vstd::prelude::*;

verus! {

/// Relies on chrono's `Utc::now`: the present moment, as whole seconds since
/// the Unix epoch.  Nothing can be promised of a clock's reading.
#[verifier::external_body]
pub(crate) fn now_timestamp() -> i64 {
    chrono::Utc::now().timestamp()
}

/// Relies on chrono's `Utc::now` and its date handling: midnight at the
/// start of the current UTC day, as seconds since the Unix epoch — the
/// retention cutoff under which anything checked off yesterday or earlier
/// expires.  Nothing can be promised of a clock's reading.
#[verifier::external_body]
pub(crate) fn start_of_today() -> i64 {
    let today = chrono::Utc::now().date_naive();
    today.and_time(chrono::NaiveTime::MIN).and_utc().timestamp()
}

} // verus!
