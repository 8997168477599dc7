use vstd::prelude::*;

use crate::SvdError;

verus! {

/// Define constraints for writing values to a field
#[derive(Clone, Copy, Debug, PartialEq, Eq, Structural)]
pub enum WriteConstraint {
    /// If `true`, only the last read value can be written.
    WriteAsRead(bool),
    /// If `true`, only the values listed in the enumeratedValues list can be written.
    UseEnumeratedValues(bool),
    /// A range of numbers that can be written.
    Range(WriteConstraintRange),
}

/// The smallest and largest number that can be written.
#[derive(Clone, Copy, Debug, PartialEq, Eq, Structural)]
pub struct WriteConstraintRange {
    /// Specify the smallest number to be written to the field
    pub min: u64,
    /// Specify the largest number to be written to the field.
    pub max: u64,
}

/// Errors for [`WriteConstraintRange::check_range`]
#[derive(Debug, PartialEq, Eq)]
pub enum Error {
    /// The value is not in range.
    OutOfRange(u64, core::ops::Range<u64>),
    /// Minimum is greater than maximum.
    ReversedRange(u64, u64),
}

impl Clone for Error {
    fn clone(&self) -> (r: Self)
        ensures
            r == *self,
    {
        match self {
            Error::OutOfRange(v, range) => Error::OutOfRange(
                *v,
                core::ops::Range { start: range.start, end: range.end },
            ),
            Error::ReversedRange(a, b) => Error::ReversedRange(*a, *b),
        }
    }
}

/// `start <= v < end`.
pub open spec fn in_range(v: u64, range: core::ops::Range<u64>) -> bool {
    range.start <= v && v < range.end
}

impl WriteConstraintRange {
    /// What [`Self::check_range`] answers: a reversed constraint first, then
    /// the first of `min`, `max` outside `range`.
    pub open spec fn check_range_spec(self, range: core::ops::Range<u64>) -> Result<(), SvdError> {
        if self.min > self.max {
            Err(SvdError::WriteConstraint(Error::ReversedRange(self.min, self.max)))
        } else if !in_range(self.min, range) {
            Err(SvdError::WriteConstraint(Error::OutOfRange(self.min, range)))
        } else if !in_range(self.max, range) {
            Err(SvdError::WriteConstraint(Error::OutOfRange(self.max, range)))
        } else {
            Ok(())
        }
    }

    /// Checks that the constraint is ordered and lies within `range`.
    pub(crate) fn check_range(&self, range: core::ops::Range<u64>) -> (r: Result<(), SvdError>)
        ensures
            r == self.check_range_spec(range),
    {
        if self.min > self.max {
            return Err(SvdError::WriteConstraint(Error::ReversedRange(self.min, self.max)));
        }
        if !(range.start <= self.min && self.min < range.end) {
            return Err(
                SvdError::WriteConstraint(
                    Error::OutOfRange(self.min, core::ops::Range { start: range.start, end: range.end }),
                ),
            );
        }
        if !(range.start <= self.max && self.max < range.end) {
            return Err(
                SvdError::WriteConstraint(
                    Error::OutOfRange(self.max, core::ops::Range { start: range.start, end: range.end }),
                ),
            );
        }
        Ok(())
    }
}

} // verus!
