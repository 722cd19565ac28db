//! Failures of the input stream, which end a run.

use vstd::prelude::*;
use vstd::string::StringExecFns;

verus! {

/// Why a run stopped before the end of its input. Each kind carries the
/// diagnostic of the component that failed.
#[derive(Debug)]
pub enum EngineError {
    /// The decoder could not make a record of a row.
    CsvError(String),
    /// The byte source could not be read.
    IoError(String),
}

impl EngineError {
    /// The line that reports this failure: a label for its kind, the
    /// diagnostic, and a line break.
    pub open spec fn spec_message(self) -> Seq<char> {
        match self {
            EngineError::CsvError(detail) => "CSV data reading error: "@ + detail@ + "\n"@,
            EngineError::IoError(detail) => "IO error: "@ + detail@ + "\n"@,
        }
    }

    /// The line that reports this failure.
    pub fn message(&self) -> (r: String)
        ensures
            r@ == self.spec_message(),
    {
        match self {
            EngineError::CsvError(detail) => String::from_str("CSV data reading error: ").concat(
                detail.as_str(),
            ).concat("\n"),
            EngineError::IoError(detail) => String::from_str("IO error: ").concat(
                detail.as_str(),
            ).concat("\n"),
        }
    }

    /// A copy of this failure.
    pub fn duplicate(&self) -> (r: EngineError)
        ensures
            r == *self,
    {
        match self {
            EngineError::CsvError(detail) => EngineError::CsvError(detail.clone()),
            EngineError::IoError(detail) => EngineError::IoError(detail.clone()),
        }
    }
}

} // verus!
