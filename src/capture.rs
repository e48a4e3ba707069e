//! What a finished external tool hands back.
use vstd::prelude::*;

verus! {

/// The exit status and both output streams of a tool that ran to its end.
pub struct CapturedOutput {
    /// The tool's exit status reported success.
    pub success: bool,
    pub stdout: Vec<u8>,
    pub stderr: Vec<u8>,
}

/// The views of a list of strings.
pub open spec fn views(v: Seq<String>) -> Seq<Seq<char>> {
    v.map_values(|s: String| s@)
}

} // verus!
