use vstd::prelude::*;

verus! {

/// Relies on chrono's `Utc::now` and `DateTime::timestamp`: the current time in
/// whole seconds since the Unix epoch. Nothing is promised of the value.
#[verifier::external_body]
pub(crate) fn current_timestamp() -> (t: i64) {
    chrono::Utc::now().timestamp()
}

} // verus!
