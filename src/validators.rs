use vstd::prelude::*;

use crate::block::Block;

verus! {

/// How serious a failed check is: `Low < Medium < High`.
///
/// Fixed per validator; the driver decides which levels are fatal.
#[derive(Clone, Copy, Debug, PartialEq, Eq, Structural, PartialOrd, Ord, Hash)]
pub enum ValidationLevel {
    Low,
    Medium,
    High,
}

/// The field of a record that a diagnosis points at.
#[derive(Clone, Copy, Debug, PartialEq, Eq, Structural, Hash)]
pub enum LineType {
    Name,
    Sequence,
    PlusLine,
    Quality,
}

/// One failed check: which validator failed, on which field, where, and why.
///
/// `col_no` is a 1-based position within the field, or `None` when the
/// failure concerns the record as a whole.
#[derive(Debug)]
pub struct Error {
    pub code: String,
    pub name: String,
    pub message: String,
    pub line_type: LineType,
    pub col_no: Option<usize>,
}

impl Error {
    pub fn new(
        code: &str,
        name: &str,
        message: &str,
        line_type: LineType,
        col_no: Option<usize>,
    ) -> (e: Error)
        ensures
            e.code@ == code@,
            e.name@ == name@,
            e.message@ == message@,
            e.line_type == line_type,
            e.col_no == col_no,
    {
        Error {
            code: code.to_owned(),
            name: name.to_owned(),
            message: message.to_owned(),
            line_type,
            col_no,
        }
    }
}

/// A single-pass check: decided from one record alone, with no state kept
/// between records.
pub trait SingleReadValidator {
    /// A short identifier, stable and unique across validators.
    fn code(&self) -> &'static str;

    /// A human-readable name of the check.
    fn name(&self) -> &'static str;

    fn level(&self) -> ValidationLevel;

    /// Reports the first violation in the record, if any.
    fn validate(&self, b: &Block) -> Result<(), Error>;
}

/// A two-pass check: the validator first sees every record of the run (its
/// own accumulation step), then `validate` replays the records in the same
/// order.
pub trait SingleReadValidatorMut {
    /// The validator's internal state is consistent.
    spec fn state_valid(&self) -> bool;

    /// A short identifier, stable and unique across validators.
    fn code(&self) -> &'static str;

    /// A human-readable name of the check.
    fn name(&self) -> &'static str;

    fn level(&self) -> ValidationLevel;

    /// Reports whether the record fails, given everything seen so far.
    fn validate(&mut self, b: &Block) -> (r: Result<(), Error>)
        requires
            old(self).state_valid(),
        ensures
            final(self).state_valid(),
    ;
}

} // verus!
