use crate::common::literal::Literal;
use crate::common::number::{ieee_from_integer, Number};
use chrono::offset::Utc;
use vstd::prelude::*;

verus! {

/// The builtin `clock`: no arguments, the time in seconds since the Unix epoch.
#[derive(Debug, Clone, Copy)]
pub struct Clock;

/// Reads the wall clock.
///
/// Trusted: calls `chrono::offset::Utc::now` and `DateTime::timestamp`. The
/// result depends on the moment of the call, so the contract claims nothing of
/// it. Where the system clock stands before the Unix epoch, `Utc::now` ends
/// the process.
#[verifier::external_body]
fn now_seconds() -> (seconds: i64) {
    Utc::now().timestamp()
}

impl Clock {
    /// The moment of the call, in whole seconds since the Unix epoch.
    pub fn read() -> (seconds: i64) {
        now_seconds()
    }

    /// The value that `clock()` gives for a reading of the wall clock.
    pub fn value(seconds: i64) -> (r: Literal)
        ensures
            r == Literal::Number(Number { bits: ieee_from_integer(seconds) }),
    {
        Literal::Number(Number::from_integer(seconds))
    }
}

} // verus!
