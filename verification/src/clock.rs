//! The time of an access, which the library carries and never reads.

use vstd::prelude::*;
use chrono::{NaiveDateTime, Utc};

verus! {

/// `chrono::NaiveDateTime`, a date and a time of day without a time zone.
/// The library holds universal time in it.
#[verifier::external_type_specification]
#[verifier::external_body]
pub struct ExNaiveDateTime(NaiveDateTime);

/// The present moment in universal time. `Utc::now` reads the system clock,
/// and `DateTime::naive_utc` gives that moment's date and time of day.
/// Nothing is claimed of the moment returned. `Utc::now` panics where the
/// clock stands before 1970.
#[verifier::external_body]
pub(crate) fn now() -> NaiveDateTime {
    Utc::now().naive_utc()
}

} // verus!
