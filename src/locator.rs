//! Finding the toolchain installation through the installation locator.
use vstd::prelude::*;
use vstd::utf8::{decode_utf8, valid_utf8};
use crate::capture::{views, CapturedOutput};
use crate::text::{decode_lossy, decode_utf8_text, joined, lossy_text, text_of, trim_text, trimmed};

verus! {

/// Where the locator lives, below the program files directory.
pub const LOCATOR_SUFFIX: &'static str = "\\Microsoft Visual Studio\\Installer\\vswhere.exe";

/// The program files directory used when the environment names none.
pub const DEFAULT_PROGRAM_FILES: &'static str = "C:\\Program Files";

/// The component that the installation must provide.
pub const REQUIRED_COMPONENT: &'static str = "Microsoft.VisualStudio.Component.VC.Tools.x86.x64";

pub const ARG_LATEST: &'static str = "-latest";

pub const ARG_PRODUCTS: &'static str = "-products";

pub const ANY_PRODUCT: &'static str = "*";

pub const ARG_REQUIRES: &'static str = "-requires";

pub const ARG_PROPERTY: &'static str = "-property";

pub const INSTALLATION_PATH_PROPERTY: &'static str = "installationPath";

/// Why no installation was found.
pub enum DiscoveryError {
    /// The locator could not be started.
    ToolInvocationFailed { message: String },
    /// The locator ran and reported failure; both streams are kept.
    ToolReportedFailure { stdout: String, stderr: String },
    /// The locator's output is not valid UTF-8.
    MalformedOutput,
}

/// The view of an optional string.
pub open spec fn opt_view(o: Option<String>) -> Option<Seq<char>> {
    match o {
        Some(s) => Some(s@),
        None => None,
    }
}

/// The program files directory: the 32-bit one where it is set, else the
/// native one, else the default.
pub open spec fn program_files_dir(x86: Option<Seq<char>>, native: Option<Seq<char>>) -> Seq<
    char,
> {
    match x86 {
        Some(d) => d,
        None => match native {
            Some(d) => d,
            None => DEFAULT_PROGRAM_FILES@,
        },
    }
}

/// The arguments that ask for the root of the newest installation of any
/// product that provides the required component.
pub open spec fn locator_args_spec() -> Seq<Seq<char>> {
    seq![
        ARG_LATEST@,
        ARG_PRODUCTS@,
        ANY_PRODUCT@,
        ARG_REQUIRES@,
        REQUIRED_COMPONENT@,
        ARG_PROPERTY@,
        INSTALLATION_PATH_PROPERTY@,
    ]
}

/// The locator's path, from the values of the two program files variables
/// (`None` where a variable is unset).
pub fn locator_path(program_files_x86: Option<String>, program_files: Option<String>) -> (r:
    String)
    ensures
        r@ == program_files_dir(opt_view(program_files_x86), opt_view(program_files))
            + LOCATOR_SUFFIX@,
{
    let dir = match program_files_x86 {
        Some(d) => d,
        None => match program_files {
            Some(d) => d,
            None => text_of(DEFAULT_PROGRAM_FILES),
        },
    };
    joined(dir.as_str(), LOCATOR_SUFFIX)
}

/// The locator's arguments.
pub fn locator_arguments() -> (r: Vec<String>)
    ensures
        views(r@) == locator_args_spec(),
{
    let mut r: Vec<String> = Vec::new();
    r.push(text_of(ARG_LATEST));
    r.push(text_of(ARG_PRODUCTS));
    r.push(text_of(ANY_PRODUCT));
    r.push(text_of(ARG_REQUIRES));
    r.push(text_of(REQUIRED_COMPONENT));
    r.push(text_of(ARG_PROPERTY));
    r.push(text_of(INSTALLATION_PATH_PROPERTY));
    assert(views(r@) =~= locator_args_spec());
    r
}

/// The locator ran, reported success and wrote valid UTF-8.
pub open spec fn locator_succeeds(run: Result<CapturedOutput, String>) -> bool {
    match run {
        Ok(o) => o.success && valid_utf8(o.stdout@),
        Err(_) => false,
    }
}

/// What the locator's run says, as the installation root or the error.
pub open spec fn discovery_outcome(run: Result<CapturedOutput, String>, r: Result<
    String,
    DiscoveryError,
>) -> bool {
    match run {
        Err(m) => r == Err::<String, DiscoveryError>(
            DiscoveryError::ToolInvocationFailed { message: m },
        ),
        Ok(o) => if !o.success {
            match r {
                Err(DiscoveryError::ToolReportedFailure { stdout, stderr }) => stdout@ == lossy_text(
                    o.stdout@,
                ) && stderr@ == lossy_text(o.stderr@),
                _ => false,
            }
        } else if !valid_utf8(o.stdout@) {
            r == Err::<String, DiscoveryError>(DiscoveryError::MalformedOutput)
        } else {
            match r {
                Ok(p) => p@ == trimmed(decode_utf8(o.stdout@)),
                Err(_) => false,
            }
        },
    }
}

/// Reads the installation root out of the locator's run: `Err(message)` where
/// the locator could not be started, else what it reported.
pub fn interpret_locator(run: Result<CapturedOutput, String>) -> (r: Result<String, DiscoveryError>)
    ensures
        discovery_outcome(run, r),
        r is Ok <==> locator_succeeds(run),
{
    match run {
        Err(message) => Err(DiscoveryError::ToolInvocationFailed { message }),
        Ok(o) => {
            if !o.success {
                let stdout = decode_lossy(&o.stdout);
                let stderr = decode_lossy(&o.stderr);
                Err(DiscoveryError::ToolReportedFailure { stdout, stderr })
            } else {
                match decode_utf8_text(o.stdout) {
                    Some(text) => Ok(trim_text(text.as_str())),
                    None => Err(DiscoveryError::MalformedOutput),
                }
            }
        },
    }
}

} // verus!
