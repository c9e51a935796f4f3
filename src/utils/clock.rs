use vstd::prelude::*;

verus! {

/// Relies on chrono's conversion of the system time (`From<SystemTime>` for
/// `DateTime<Utc>`) and DateTime::timestamp: the current time in whole seconds
/// since the Unix epoch, negative for a clock set before it. Nothing is
/// promised of its value.
#[verifier::external_body]
pub(crate) fn now_seconds() -> (r: i64) {
    chrono::DateTime::<chrono::Utc>::from(std::time::SystemTime::now()).timestamp()
}

/// The current time for token checks: a clock before the epoch reads as zero.
pub(crate) fn now_unsigned() -> (r: u64) {
    let now = now_seconds();
    if now < 0 {
        0
    } else {
        now as u64
    }
}

} // verus!
