use vstd::prelude::*;

verus! {

/// The failures that the search reports to its caller.
#[derive(Debug, Clone, PartialEq, Eq)]
pub enum GrepError {
    /// The regular expression could not be compiled.
    InvalidPattern { pattern: String, reason: String },
    /// The file-name glob could not be compiled.
    InvalidGlob { glob: String, reason: String },
    /// A file's bytes are not valid UTF-8 text.
    DecodeFailure { file_name: String },
}

} // verus!
