//! The calendar time that a `Date` header carries.

use vstd::prelude::*;

verus! {

/// A moment in GMT, field by field as a `Date` header spells it.
///
/// The fields hold what was read. The day is not held against the month, nor the
/// hour, minute and second against a clock's limits.
#[derive(Clone, Copy, Debug, PartialEq, Eq, Structural)]
pub struct Time {
    pub year: u16,
    /// 1 for January up to 12 for December.
    pub month: u8,
    /// 0 for Sunday up to 6 for Saturday.
    pub day_of_week: u8,
    pub day: u8,
    pub hour: u8,
    pub minute: u8,
    pub second: u8,
}

impl Time {
    /// The month and the weekday lie within their ranges.
    pub open spec fn well_formed(self) -> bool {
        1 <= self.month <= 12 && self.day_of_week <= 6
    }
}

} // verus!
