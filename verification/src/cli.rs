//! The command line arguments of the tool, as plain values.

use vstd::prelude::*;

verus! {

/// The arguments: exactly one source of commit messages (a message, a file,
/// a commit hash, or a range of commits starting at `from_hash`), and the
/// output options.
pub struct Cli {
    /// The commit message to be checked.
    pub message: Option<String>,
    /// Path to a file containing the commit message.
    pub file: Option<String>,
    /// Commit hash.
    pub hash: Option<String>,
    /// First commit of a range.
    pub from_hash: Option<String>,
    /// Last commit of a range.
    pub to_hash: String,
    /// Skip the detailed error messages.
    pub skip_detail: bool,
    /// Do not repeat the input in the error report.
    pub hide_input: bool,
    /// Print nothing.
    pub quiet: bool,
    /// Print progress information.
    pub verbose: bool,
    /// Maximum length of the header, in bytes.
    pub max_header_length: Option<usize>,
}

} // verus!
