//! What is launched, and how a launch fails.
//!
//! The program is found by name on the search path. It gets the launcher's
//! own environment with every variable of the synthesized map set on top of
//! it, so a toolchain variable wins over an inherited one of the same name.
//! The launcher does not wait for the program.
use vstd::prelude::*;

verus! {

/// The program that is launched in the toolchain's environment.
pub const TARGET_PROGRAM: &'static str = "neovide.exe";

/// Why the program could not be started.
pub enum LaunchError {
    /// The program was not found or could not be started; the message is the
    /// system's.
    SpawnFailed { message: String },
}

} // verus!
