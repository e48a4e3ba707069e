use neovide_msvc::capture::CapturedOutput;
use neovide_msvc::locator::{interpret_locator, locator_arguments, locator_path, DiscoveryError};
use neovide_msvc::setup::{interpret_setup, interpreter_arguments, setup_script_path, SetupError};

fn captured(success: bool, stdout: &[u8], stderr: &[u8]) -> CapturedOutput {
    CapturedOutput { success, stdout: stdout.to_vec(), stderr: stderr.to_vec() }
}

#[test]
fn locator_path_prefers_the_x86_directory() {
    let p = locator_path(Some("D:\\PF86".to_string()), Some("D:\\PF".to_string()));
    assert_eq!(p, "D:\\PF86\\Microsoft Visual Studio\\Installer\\vswhere.exe");
}

#[test]
fn locator_path_falls_back_to_native_directory() {
    let p = locator_path(None, Some("D:\\PF".to_string()));
    assert_eq!(p, "D:\\PF\\Microsoft Visual Studio\\Installer\\vswhere.exe");
}

#[test]
fn locator_path_falls_back_to_default() {
    let p = locator_path(None, None);
    assert_eq!(p, "C:\\Program Files\\Microsoft Visual Studio\\Installer\\vswhere.exe");
}

#[test]
fn locator_arguments_ask_for_latest_installation_path() {
    assert_eq!(
        locator_arguments(),
        vec![
            "-latest",
            "-products",
            "*",
            "-requires",
            "Microsoft.VisualStudio.Component.VC.Tools.x86.x64",
            "-property",
            "installationPath",
        ]
    );
}

#[test]
fn locator_output_is_trimmed() {
    let r = interpret_locator(Ok(captured(true, b"  D:\\VS\\2022\r\n", b"")));
    assert!(matches!(r, Ok(ref p) if p == "D:\\VS\\2022"));
}

#[test]
fn locator_reported_failure_keeps_both_streams() {
    let r = interpret_locator(Ok(captured(false, b"partial", b"no instances found")));
    match r {
        Err(DiscoveryError::ToolReportedFailure { stdout, stderr }) => {
            assert_eq!(stdout, "partial");
            assert_eq!(stderr, "no instances found");
        }
        _ => panic!("expected a reported failure"),
    }
}

#[test]
fn locator_reported_failure_decodes_invalid_bytes_lossily() {
    let r = interpret_locator(Ok(captured(false, b"", b"bad \xff")));
    match r {
        Err(DiscoveryError::ToolReportedFailure { stderr, .. }) => {
            assert_eq!(stderr, "bad \u{FFFD}");
        }
        _ => panic!("expected a reported failure"),
    }
}

#[test]
fn locator_that_cannot_start_is_an_invocation_failure() {
    let r = interpret_locator(Err("not found".to_string()));
    assert!(matches!(r, Err(DiscoveryError::ToolInvocationFailed { ref message }) if message == "not found"));
}

#[test]
fn locator_output_that_is_not_utf8_is_malformed() {
    let r = interpret_locator(Ok(captured(true, b"D:\\\xff", b"")));
    assert!(matches!(r, Err(DiscoveryError::MalformedOutput)));
}

#[test]
fn setup_script_lies_below_the_installation() {
    assert_eq!(setup_script_path("D:\\VS\\2022"), "D:\\VS\\2022\\VC\\Auxiliary\\Build\\vcvarsall.bat");
}

#[test]
fn interpreter_runs_script_then_dump() {
    assert_eq!(
        interpreter_arguments("D:\\s.bat"),
        vec!["/C", "D:\\s.bat", "x64", "&&", "set"]
    );
}

#[test]
fn setup_output_is_kept_whole() {
    let r = interpret_setup(Ok(captured(true, b"Banner\nA=1\n", b"")));
    assert!(matches!(r, Ok(ref s) if s == "Banner\nA=1\n"));
}

#[test]
fn setup_failure_keeps_stderr() {
    let r = interpret_setup(Ok(captured(false, b"A=1\n", b"bad arch")));
    assert!(matches!(r, Err(SetupError::SetupScriptFailed { ref stderr }) if stderr == "bad arch"));
}

#[test]
fn interpreter_that_cannot_start_is_an_invocation_failure() {
    let r = interpret_setup(Err("no cmd".to_string()));
    assert!(matches!(r, Err(SetupError::InterpreterInvocationFailed { ref message }) if message == "no cmd"));
}

#[test]
fn setup_output_that_is_not_utf8_is_malformed() {
    let r = interpret_setup(Ok(captured(true, b"A=\xfe\n", b"")));
    assert!(matches!(r, Err(SetupError::MalformedOutput)));
}
