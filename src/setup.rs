//! Running the toolchain's setup script and capturing the environment it leaves.
//!
//! The script and the dump of the environment run in one interpreter session,
//! the dump only where the script succeeded: the script's changes live only in
//! that interpreter's process.
use vstd::prelude::*;
use vstd::utf8::{decode_utf8, valid_utf8};
use crate::capture::{views, CapturedOutput};
use crate::text::{decode_lossy, decode_utf8_text, joined, lossy_text, text_of};

verus! {

/// Where the setup script lives, below the installation root.
pub const SETUP_SCRIPT_SUFFIX: &'static str = "\\VC\\Auxiliary\\Build\\vcvarsall.bat";

/// The command interpreter that runs the script.
pub const INTERPRETER: &'static str = "cmd";

/// Tells the interpreter to run one command line and exit.
pub const RUN_AND_EXIT: &'static str = "/C";

/// The target architecture handed to the setup script.
pub const TARGET_ARCH: &'static str = "x64";

/// Runs the next command only where the previous one succeeded.
pub const AND_THEN: &'static str = "&&";

/// Writes the whole environment, one `NAME=VALUE` per line.
pub const DUMP_COMMAND: &'static str = "set";

/// Why no environment could be captured.
pub enum SetupError {
    /// The interpreter could not be started.
    InterpreterInvocationFailed { message: String },
    /// The script, or the dump after it, reported failure.
    SetupScriptFailed { stderr: String },
    /// The dump is not valid UTF-8.
    MalformedOutput,
}

/// The setup script's path below the installation root `installation`.
pub fn setup_script_path(installation: &str) -> (r: String)
    ensures
        r@ == installation@ + SETUP_SCRIPT_SUFFIX@,
{
    joined(installation, SETUP_SCRIPT_SUFFIX)
}

/// The interpreter's arguments: run the script, then, if it succeeded, dump
/// the environment.
pub open spec fn interpreter_args_spec(script: Seq<char>) -> Seq<Seq<char>> {
    seq![RUN_AND_EXIT@, script, TARGET_ARCH@, AND_THEN@, DUMP_COMMAND@]
}

/// The interpreter's arguments for the setup script at `script`.
pub fn interpreter_arguments(script: &str) -> (r: Vec<String>)
    ensures
        views(r@) == interpreter_args_spec(script@),
{
    let mut r: Vec<String> = Vec::new();
    r.push(text_of(RUN_AND_EXIT));
    r.push(text_of(script));
    r.push(text_of(TARGET_ARCH));
    r.push(text_of(AND_THEN));
    r.push(text_of(DUMP_COMMAND));
    assert(views(r@) =~= interpreter_args_spec(script@));
    r
}

/// The interpreter ran, reported success and wrote valid UTF-8.
pub open spec fn setup_succeeds(run: Result<CapturedOutput, String>) -> bool {
    match run {
        Ok(o) => o.success && valid_utf8(o.stdout@),
        Err(_) => false,
    }
}

/// The text that a successful run wrote.
pub open spec fn snapshot_of(run: Result<CapturedOutput, String>) -> Seq<char> {
    match run {
        Ok(o) => decode_utf8(o.stdout@),
        Err(_) => Seq::empty(),
    }
}

/// What the interpreter's run says, as the environment dump or the error.
pub open spec fn setup_outcome(run: Result<CapturedOutput, String>, r: Result<String, SetupError>) -> bool {
    match run {
        Err(m) => r == Err::<String, SetupError>(
            SetupError::InterpreterInvocationFailed { message: m },
        ),
        Ok(o) => if !o.success {
            match r {
                Err(SetupError::SetupScriptFailed { stderr }) => stderr@ == lossy_text(o.stderr@),
                _ => false,
            }
        } else if !valid_utf8(o.stdout@) {
            r == Err::<String, SetupError>(SetupError::MalformedOutput)
        } else {
            match r {
                Ok(s) => s@ == decode_utf8(o.stdout@),
                Err(_) => false,
            }
        },
    }
}

/// Reads the environment dump out of the interpreter's run: `Err(message)`
/// where the interpreter could not be started, else what it reported.
pub fn interpret_setup(run: Result<CapturedOutput, String>) -> (r: Result<String, SetupError>)
    ensures
        setup_outcome(run, r),
        r is Ok <==> setup_succeeds(run),
        r matches Ok(s) ==> s@ == snapshot_of(run),
{
    match run {
        Err(message) => Err(SetupError::InterpreterInvocationFailed { message }),
        Ok(o) => {
            if !o.success {
                let stderr = decode_lossy(&o.stderr);
                Err(SetupError::SetupScriptFailed { stderr })
            } else {
                match decode_utf8_text(o.stdout) {
                    Some(text) => Ok(text),
                    None => Err(SetupError::MalformedOutput),
                }
            }
        },
    }
}

} // verus!
