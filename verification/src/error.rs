//! The ways a scan can fail. Every one of them ends the scan.

use vstd::prelude::*;

verus! {

/// Why a scan stopped without completing.
#[derive(Clone, Copy, Debug, PartialEq, Eq, Structural)]
pub enum ScanError {
    /// A page could not be fetched.
    Transport,
    /// The last-page indicator is absent or is not a number.
    PageCount,
    /// The address of a listing page could not be formed.
    PageUrl,
    /// A listing entry has no link to its report.
    EntryLink,
    /// The link of a listing entry cannot be resolved against the site.
    EntryUrl,
    /// The status description lacks the separator before the date.
    DateSeparator,
    /// The text after the separator is not a date.
    DateFormat,
    /// A risk or category line lacks the colon before its value.
    LabelValue,
}

/// The classes of failure.
#[derive(Clone, Copy, Debug, PartialEq, Eq, Structural)]
pub enum ErrorClass {
    /// A fetch failed.
    Transport,
    /// A page lacks an element or a separator that must be there.
    Structure,
    /// A date could not be read.
    DateParse,
}

impl ScanError {
    /// The class of this failure.
    pub open spec fn class_of(self) -> ErrorClass {
        match self {
            ScanError::Transport => ErrorClass::Transport,
            ScanError::DateFormat => ErrorClass::DateParse,
            _ => ErrorClass::Structure,
        }
    }

    /// The class of this failure.
    pub fn class(&self) -> (r: ErrorClass)
        ensures
            r == self.class_of(),
    {
        match self {
            ScanError::Transport => ErrorClass::Transport,
            ScanError::DateFormat => ErrorClass::DateParse,
            _ => ErrorClass::Structure,
        }
    }
}

} // verus!
