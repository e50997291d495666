use vstd::prelude::*;

verus! {

/// The fatal failure conditions of the calculator.
///
/// Every error aborts the whole run: there is no partial-result mode.
/// Duplicate-date removal is not an error (see [`crate::normalize`]); it is
/// reported as a count beside the normalized list.
#[derive(Clone, Copy, Debug, PartialEq, Eq, Structural)]
pub enum VisaError {
    /// A piece of input text does not match the `YYYY-MM-DD` date format.
    ParseError,
    /// The input source cannot be opened or read.
    IoError,
    /// An interval's end precedes its start, or the date list cannot be
    /// paired into entry/exit intervals (odd count).
    InvalidInterval,
    /// The system clock cannot be resolved to a calendar date.
    ClockError,
}

impl VisaError {
    /// The human-readable description of each error kind.
    pub open spec fn describe_spec(self) -> Seq<char> {
        match self {
            VisaError::ParseError => "text does not match the YYYY-MM-DD date format"@,
            VisaError::IoError => "the input could not be read"@,
            VisaError::InvalidInterval => "end date is before the start date, or a date is left unpaired"@,
            VisaError::ClockError => "the current date could not be determined"@,
        }
    }

    /// A human-readable message for this error.
    pub fn describe(&self) -> (r: &'static str)
        ensures
            r@ == self.describe_spec(),
    {
        match self {
            VisaError::ParseError => "text does not match the YYYY-MM-DD date format",
            VisaError::IoError => "the input could not be read",
            VisaError::InvalidInterval => "end date is before the start date, or a date is left unpaired",
            VisaError::ClockError => "the current date could not be determined",
        }
    }
}

} // verus!
