//! Outside types that trait values carry through the library unread.

use vstd::prelude::*;

verus! {

/// `rust_decimal::Decimal`: an exact decimal, carried as it is.
#[verifier::external_type_specification]
#[verifier::external_body]
pub struct ExDecimal(rust_decimal::Decimal);

/// `chrono::NaiveDateTime`: a date and time of day with no zone. An instant in UTC is
/// held as the date and time it reads in UTC, which loses nothing.
#[verifier::external_type_specification]
#[verifier::external_body]
pub struct ExNaiveDateTime(chrono::NaiveDateTime);

/// `chrono::NaiveDate`: a calendar date, carried as it is.
#[verifier::external_type_specification]
#[verifier::external_body]
pub struct ExNaiveDate(chrono::NaiveDate);

/// `chrono::TimeDelta`: a signed span of time, carried as it is.
#[verifier::external_type_specification]
#[verifier::external_body]
pub struct ExTimeDelta(chrono::TimeDelta);

/// `serde_json::Value`: a JSON value, carried as it is.
#[verifier::external_type_specification]
#[verifier::external_body]
pub struct ExJsonValue(serde_json::Value);

/// `serde_json::Value::clone`, which `#[derive(Clone)]` writes field by field: the copy
/// is the same JSON value as the original.
pub assume_specification[ <serde_json::Value as Clone>::clone ](v: &serde_json::Value) -> (r: serde_json::Value)
    ensures
        r == *v,
;

} // verus!
