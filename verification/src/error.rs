//! Why a run ends without a report.

use vstd::prelude::*;

verus! {

/// The failures of a run. Each one ends the run at once; no partial report
/// is produced.
#[derive(Debug)]
pub enum AnalysisError {
    /// The argument list does not hold exactly one path.
    Usage,
    /// The container has no code section.
    SectionNotFound,
    /// The code section reaches beyond the end of the file, so its bytes
    /// cannot be read.
    SectionOutOfBounds,
    /// The decoder could not process the code section.
    Decode(capstone::Error),
}

} // verus!
