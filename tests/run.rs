use neovide_msvc::capture::CapturedOutput;
use neovide_msvc::launch::LaunchError;
use neovide_msvc::locator::DiscoveryError;
use neovide_msvc::run::{Action, Event, Failure, Run, Stage};
use neovide_msvc::setup::SetupError;

/// Stands in for the outside tools and records what it was asked to do.
struct Double {
    locator: Option<Result<CapturedOutput, String>>,
    setup: Option<Result<CapturedOutput, String>>,
    launch: Option<Result<(), String>>,
    calls: Vec<String>,
    launched: Vec<(Vec<(String, String)>, Vec<String>)>,
    failure: Option<Failure>,
}

fn ok(stdout: &[u8]) -> Result<CapturedOutput, String> {
    Ok(CapturedOutput { success: true, stdout: stdout.to_vec(), stderr: Vec::new() })
}

fn failed(stderr: &[u8]) -> Result<CapturedOutput, String> {
    Ok(CapturedOutput { success: false, stdout: Vec::new(), stderr: stderr.to_vec() })
}

fn double(
    locator: Result<CapturedOutput, String>,
    setup: Result<CapturedOutput, String>,
    launch: Result<(), String>,
) -> Double {
    Double {
        locator: Some(locator),
        setup: Some(setup),
        launch: Some(launch),
        calls: Vec::new(),
        launched: Vec::new(),
        failure: None,
    }
}

fn drive(run: &mut Run, d: &mut Double) {
    let mut action = run.step(Event::Begin);
    loop {
        action = match action {
            Action::RunLocator { program, args } => {
                d.calls.push(format!("locator {} {}", program, args.join(" ")));
                run.step(Event::LocatorFinished(d.locator.take().unwrap()))
            }
            Action::RunSetup { program, args } => {
                d.calls.push(format!("setup {} {}", program, args.join(" ")));
                run.step(Event::SetupFinished(d.setup.take().unwrap()))
            }
            Action::Launch { program, environment, args } => {
                d.calls.push(format!("launch {}", program));
                let mut env = environment.entries().clone();
                env.sort();
                d.launched.push((env, args));
                run.step(Event::LaunchFinished(d.launch.take().unwrap()))
            }
            Action::Report(f) => {
                d.failure = Some(f);
                return;
            }
            Action::Finish | Action::Idle => return,
        }
    }
}

fn args() -> Vec<String> {
    vec!["--foo".to_string(), "bar".to_string()]
}

#[test]
fn end_to_end_scenario() {
    let mut run = Run::new("L.exe".to_string(), args());
    let mut d = double(
        ok(b"D:\\VS\\2022\r\n"),
        ok(b"Banner text\nVCINSTALLDIR=D:\\VS\\2022\\VC\\\nPATH=D:\\VS\\2022\\VC\\bin;C:\\Windows\n"),
        Ok(()),
    );
    drive(&mut run, &mut d);
    assert_eq!(d.calls.len(), 3);
    assert!(d.calls[0].starts_with("locator L.exe -latest"));
    assert_eq!(
        d.calls[1],
        "setup cmd /C D:\\VS\\2022\\VC\\Auxiliary\\Build\\vcvarsall.bat x64 && set"
    );
    assert_eq!(d.calls[2], "launch neovide.exe");
    assert_eq!(d.launched.len(), 1);
    let (env, launched_args) = &d.launched[0];
    assert_eq!(
        env,
        &vec![
            ("PATH".to_string(), "D:\\VS\\2022\\VC\\bin;C:\\Windows".to_string()),
            ("VCINSTALLDIR".to_string(), "D:\\VS\\2022\\VC\\".to_string()),
        ]
    );
    assert_eq!(launched_args, &args());
    assert_eq!(run.stage(), Stage::Done);
    assert_eq!(run.exit_code(), 0);
    assert!(d.failure.is_none());
}

#[test]
fn failure_propagation_scenario() {
    let mut run = Run::new("L.exe".to_string(), args());
    let mut d = double(failed(b"no instances found"), ok(b"A=1\n"), Ok(()));
    drive(&mut run, &mut d);
    assert_eq!(d.calls.len(), 1);
    assert!(d.launched.is_empty());
    match d.failure {
        Some(Failure::Discovery(DiscoveryError::ToolReportedFailure { ref stderr, .. })) => {
            assert_eq!(stderr, "no instances found");
        }
        _ => panic!("expected the locator's reported failure"),
    }
    assert_eq!(run.stage(), Stage::Failed);
    assert_ne!(run.exit_code(), 0);
}

#[test]
fn no_launch_when_setup_fails() {
    let mut run = Run::new("L.exe".to_string(), args());
    let mut d = double(ok(b"D:\\VS\n"), failed(b"bad arch"), Ok(()));
    drive(&mut run, &mut d);
    assert_eq!(d.calls.len(), 2);
    assert!(d.launched.is_empty());
    assert!(matches!(
        d.failure,
        Some(Failure::Setup(SetupError::SetupScriptFailed { ref stderr })) if stderr == "bad arch"
    ));
    assert_ne!(run.exit_code(), 0);
}

#[test]
fn no_launch_when_dump_is_malformed() {
    let mut run = Run::new("L.exe".to_string(), args());
    let mut d = double(ok(b"D:\\VS\n"), ok(b"A=\xff\n"), Ok(()));
    drive(&mut run, &mut d);
    assert!(d.launched.is_empty());
    assert!(matches!(d.failure, Some(Failure::Setup(SetupError::MalformedOutput))));
}

#[test]
fn launch_failure_is_reported() {
    let mut run = Run::new("L.exe".to_string(), Vec::new());
    let mut d = double(ok(b"D:\\VS\n"), ok(b"A=1\n"), Err("not found".to_string()));
    drive(&mut run, &mut d);
    assert_eq!(d.launched.len(), 1);
    assert!(matches!(
        d.failure,
        Some(Failure::Launch(LaunchError::SpawnFailed { ref message })) if message == "not found"
    ));
    assert_eq!(run.stage(), Stage::Failed);
    assert_ne!(run.exit_code(), 0);
}

#[test]
fn events_out_of_order_change_nothing() {
    let mut run = Run::new("L.exe".to_string(), Vec::new());
    assert!(matches!(run.step(Event::SetupFinished(ok(b"A=1\n"))), Action::Idle));
    assert_eq!(run.stage(), Stage::Start);
    assert!(matches!(run.step(Event::Begin), Action::RunLocator { .. }));
    assert!(matches!(run.step(Event::Begin), Action::Idle));
    assert!(matches!(run.step(Event::LaunchFinished(Ok(()))), Action::Idle));
    assert_eq!(run.stage(), Stage::Discovering);
}

#[test]
fn failed_run_stays_failed() {
    let mut run = Run::new("L.exe".to_string(), Vec::new());
    run.step(Event::Begin);
    assert!(matches!(run.step(Event::LocatorFinished(Err("gone".to_string()))), Action::Report(_)));
    assert!(matches!(run.step(Event::SetupFinished(ok(b"A=1\n"))), Action::Idle));
    assert!(matches!(run.step(Event::Begin), Action::Idle));
    assert_eq!(run.stage(), Stage::Failed);
    assert_ne!(run.exit_code(), 0);
}
