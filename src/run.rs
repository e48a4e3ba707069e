//! The run: discover, synthesize, parse, launch, strictly in that order.
//!
//! A [`Run`] decides; the caller does the work. Each [`Event`] reports how the
//! work that the previous [`Action`] asked for went, and [`Run::step`] answers
//! with the next action. The first failure ends the run: nothing is started
//! after it, and above all the program is never launched with an environment
//! that was not captured and parsed in full.
use vstd::prelude::*;
use crate::capture::{views, CapturedOutput};
use crate::envmap::EnvironmentMap;
use crate::launch::{LaunchError, TARGET_PROGRAM};
use crate::locator::{
    discovery_outcome, interpret_locator, locator_args_spec, locator_arguments, locator_succeeds,
    DiscoveryError,
};
use crate::parser::{environment_of, parse_environment};
use crate::setup::{
    interpret_setup, interpreter_args_spec, interpreter_arguments, setup_outcome, setup_script_path,
    setup_succeeds, snapshot_of, SetupError, INTERPRETER, SETUP_SCRIPT_SUFFIX,
};
use crate::text::{text_of, trimmed};
use vstd::utf8::decode_utf8;

verus! {

/// Where a run stands.
#[derive(Clone, Copy, PartialEq, Eq, Structural, Debug)]
pub enum Stage {
    Start,
    /// The locator was asked for the installation.
    Discovering,
    /// The setup script and the dump were asked for.
    Synthesizing,
    /// The program was asked to be launched.
    Launching,
    /// The program was started.
    Done,
    /// A step failed; the run is over.
    Failed,
}

/// The failure that ended a run.
pub enum Failure {
    Discovery(DiscoveryError),
    Setup(SetupError),
    Launch(LaunchError),
}

/// How the work that was asked for went.
pub enum Event {
    /// The run is to begin.
    Begin,
    /// The locator ran (or, `Err(message)`, could not be started).
    LocatorFinished(Result<CapturedOutput, String>),
    /// The interpreter ran (or, `Err(message)`, could not be started).
    SetupFinished(Result<CapturedOutput, String>),
    /// The program was started (or, `Err(message)`, could not be).
    LaunchFinished(Result<(), String>),
}

/// The work that the run asks for next.
pub enum Action {
    /// Run `program` with `args` and capture its output.
    RunLocator { program: String, args: Vec<String> },
    /// Run the interpreter `program` with `args` and capture its output.
    RunSetup { program: String, args: Vec<String> },
    /// Start `program`, found on the search path, with `args` and with
    /// `environment` set on top of the inherited one; do not wait for it.
    Launch { program: String, environment: EnvironmentMap, args: Vec<String> },
    /// Report the failure and exit with a non-zero status.
    Report(Failure),
    /// Exit with status zero.
    Finish,
    /// Nothing to do: the event does not belong to the current stage.
    Idle,
}

/// The captured run that an event carries; unspecified for the others.
pub open spec fn run_of(e: Event) -> Result<CapturedOutput, String> {
    match e {
        Event::LocatorFinished(r) => r,
        Event::SetupFinished(r) => r,
        _ => arbitrary(),
    }
}

/// The stage after `e` arrives in stage `s`. An event that does not belong to
/// `s` changes nothing.
pub open spec fn next_stage(s: Stage, e: Event) -> Stage {
    match e {
        Event::Begin => if s == Stage::Start {
            Stage::Discovering
        } else {
            s
        },
        Event::LocatorFinished(r) => if s == Stage::Discovering {
            if locator_succeeds(r) {
                Stage::Synthesizing
            } else {
                Stage::Failed
            }
        } else {
            s
        },
        Event::SetupFinished(r) => if s == Stage::Synthesizing {
            if setup_succeeds(r) {
                Stage::Launching
            } else {
                Stage::Failed
            }
        } else {
            s
        },
        Event::LaunchFinished(r) => if s == Stage::Launching {
            if r is Ok {
                Stage::Done
            } else {
                Stage::Failed
            }
        } else {
            s
        },
    }
}

/// `e` arriving in stage `s` launches the program.
pub open spec fn launches(s: Stage, e: Event) -> bool {
    s == Stage::Synthesizing && e is SetupFinished && setup_succeeds(run_of(e))
}

/// `e` arriving in stage `s` starts an external tool or the program.
pub open spec fn starts_work(s: Stage, e: Event) -> bool {
    ||| s == Stage::Start && e is Begin
    ||| s == Stage::Discovering && e is LocatorFinished && locator_succeeds(run_of(e))
    ||| launches(s, e)
}

/// The stage after the events `es` arrived, in order, from stage `s`.
pub open spec fn stage_after(s: Stage, es: Seq<Event>) -> Stage
    decreases es.len(),
{
    if es.len() == 0 {
        s
    } else {
        next_stage(stage_after(s, es.drop_last()), es.last())
    }
}

proof fn lemma_stage_after_push(s: Stage, es: Seq<Event>, j: int)
    requires
        0 <= j < es.len(),
    ensures
        stage_after(s, es.take(j + 1)) == next_stage(stage_after(s, es.take(j)), es[j]),
{
    assert(es.take(j + 1).drop_last() =~= es.take(j));
}

/// Once a run has failed it stays failed, and nothing is started any more,
/// whatever events arrive.
pub proof fn lemma_failure_is_final(s: Stage, es: Seq<Event>, i: int)
    requires
        0 <= i <= es.len(),
        stage_after(s, es.take(i)) == Stage::Failed,
    ensures
        forall|j: int| i <= j <= es.len() ==> #[trigger] stage_after(s, es.take(j)) == Stage::Failed,
        forall|j: int| i <= j < es.len() ==> !starts_work(#[trigger] stage_after(s, es.take(j)), es[j]),
{
    assert forall|j: int| i <= j <= es.len() implies #[trigger] stage_after(s, es.take(j))
        == Stage::Failed by {
        lemma_failed_until(s, es, i, j);
    }
}

proof fn lemma_failed_until(s: Stage, es: Seq<Event>, i: int, j: int)
    requires
        0 <= i <= j <= es.len(),
        stage_after(s, es.take(i)) == Stage::Failed,
    ensures
        stage_after(s, es.take(j)) == Stage::Failed,
    decreases j - i,
{
    if i < j {
        lemma_stage_after_push(s, es, i);
        lemma_failed_until(s, es, i + 1, j);
    }
}

/// If the setup script or the dump after it fails, the run fails there and
/// the program is never launched afterwards.
pub proof fn lemma_no_launch_after_setup_failure(s: Stage, es: Seq<Event>, i: int)
    requires
        0 <= i < es.len(),
        stage_after(s, es.take(i)) == Stage::Synthesizing,
        es[i] is SetupFinished,
        !setup_succeeds(run_of(es[i])),
    ensures
        !launches(stage_after(s, es.take(i)), es[i]),
        forall|j: int| i < j <= es.len() ==> #[trigger] stage_after(s, es.take(j)) == Stage::Failed,
        forall|j: int| i <= j < es.len() ==> !launches(#[trigger] stage_after(s, es.take(j)), es[j]),
{
    lemma_stage_after_push(s, es, i);
    lemma_failure_is_final(s, es, i + 1);
    assert forall|j: int| i <= j < es.len() implies !launches(
        #[trigger] stage_after(s, es.take(j)),
        es[j],
    ) by {
        if j > i {
            assert(stage_after(s, es.take(j)) == Stage::Failed);
        }
    }
}

/// If the locator fails, the run fails there: neither the setup script nor
/// the program is started afterwards.
pub proof fn lemma_nothing_runs_after_locator_failure(s: Stage, es: Seq<Event>, i: int)
    requires
        0 <= i < es.len(),
        stage_after(s, es.take(i)) == Stage::Discovering,
        es[i] is LocatorFinished,
        !locator_succeeds(run_of(es[i])),
    ensures
        !starts_work(stage_after(s, es.take(i)), es[i]),
        forall|j: int| i < j <= es.len() ==> #[trigger] stage_after(s, es.take(j)) == Stage::Failed,
        forall|j: int| i <= j < es.len() ==> !starts_work(#[trigger] stage_after(s, es.take(j)), es[j]),
{
    lemma_stage_after_push(s, es, i);
    lemma_failure_is_final(s, es, i + 1);
    assert forall|j: int| i <= j < es.len() implies !starts_work(
        #[trigger] stage_after(s, es.take(j)),
        es[j],
    ) by {
        if j > i {
            assert(stage_after(s, es.take(j)) == Stage::Failed);
        }
    }
}

/// One run of the launcher.
pub struct Run {
    stage: Stage,
    locator: String,
    args: Vec<String>,
}

impl Run {
    pub closed spec fn spec_stage(&self) -> Stage {
        self.stage
    }

    /// The locator's path.
    pub closed spec fn spec_locator(&self) -> Seq<char> {
        self.locator@
    }

    /// The arguments handed on to the program.
    pub closed spec fn spec_args(&self) -> Seq<String> {
        self.args@
    }

    /// A run that will ask the locator at `locator` and hand `args` on to
    /// the program.
    pub fn new(locator: String, args: Vec<String>) -> (r: Run)
        ensures
            r.spec_stage() == Stage::Start,
            r.spec_locator() == locator@,
            r.spec_args() == args@,
    {
        Run { stage: Stage::Start, locator, args }
    }

    /// Where the run stands.
    pub fn stage(&self) -> (s: Stage)
        ensures
            s == self.spec_stage(),
    {
        self.stage
    }

    /// The exit status: zero once the program was started, else non-zero.
    pub fn exit_code(&self) -> (c: i32)
        ensures
            c == 0 <==> self.spec_stage() == Stage::Done,
    {
        if self.stage == Stage::Done {
            0
        } else {
            1
        }
    }

    /// Takes in how the last piece of work went and decides the next.
    pub fn step(&mut self, e: Event) -> (r: Action)
        ensures
            final(self).spec_stage() == next_stage(old(self).spec_stage(), e),
            final(self).spec_locator() == old(self).spec_locator(),
            final(self).spec_args() == old(self).spec_args(),
            (r is RunLocator || r is RunSetup || r is Launch) <==> starts_work(
                old(self).spec_stage(),
                e,
            ),
            r is RunLocator <==> (old(self).spec_stage() == Stage::Start && e is Begin),
            r matches Action::RunLocator { program, args } ==> program@ == old(self).spec_locator()
                && views(args@) == locator_args_spec(),
            r is RunSetup <==> (old(self).spec_stage() == Stage::Discovering && e is LocatorFinished
                && locator_succeeds(run_of(e))),
            r matches Action::RunSetup { program, args } ==> program@ == INTERPRETER@ && views(
                args@,
            ) == interpreter_args_spec(
                trimmed(decode_utf8(run_of(e)->Ok_0.stdout@)) + SETUP_SCRIPT_SUFFIX@,
            ),
            r is Launch <==> launches(old(self).spec_stage(), e),
            r matches Action::Launch { program, environment, args } ==> program@ == TARGET_PROGRAM@
                && environment.wf() && environment@ == environment_of(snapshot_of(run_of(e)))
                && args@ == old(self).spec_args(),
            r is Report <==> (old(self).spec_stage() != Stage::Failed && final(self).spec_stage()
                == Stage::Failed),
            r matches Action::Report(f) ==> match f {
                Failure::Discovery(d) => old(self).spec_stage() == Stage::Discovering
                    && discovery_outcome(run_of(e), Err(d)),
                Failure::Setup(s) => old(self).spec_stage() == Stage::Synthesizing && setup_outcome(
                    run_of(e),
                    Err(s),
                ),
                Failure::Launch(LaunchError::SpawnFailed { message }) => old(self).spec_stage()
                    == Stage::Launching && e == Event::LaunchFinished(Err(message)),
            },
            r is Finish <==> (old(self).spec_stage() == Stage::Launching && (e matches Event::LaunchFinished(res) && res is Ok)),
    {
        match e {
            Event::Begin => {
                if self.stage == Stage::Start {
                    self.stage = Stage::Discovering;
                    Action::RunLocator { program: self.locator.clone(), args: locator_arguments() }
                } else {
                    Action::Idle
                }
            },
            Event::LocatorFinished(run) => {
                if self.stage == Stage::Discovering {
                    match interpret_locator(run) {
                        Ok(installation) => {
                            self.stage = Stage::Synthesizing;
                            let script = setup_script_path(installation.as_str());
                            Action::RunSetup {
                                program: text_of(INTERPRETER),
                                args: interpreter_arguments(script.as_str()),
                            }
                        },
                        Err(d) => {
                            self.stage = Stage::Failed;
                            Action::Report(Failure::Discovery(d))
                        },
                    }
                } else {
                    Action::Idle
                }
            },
            Event::SetupFinished(run) => {
                if self.stage == Stage::Synthesizing {
                    match interpret_setup(run) {
                        Ok(snapshot) => {
                            let environment = parse_environment(snapshot.as_str());
                            self.stage = Stage::Launching;
                            Action::Launch {
                                program: text_of(TARGET_PROGRAM),
                                environment,
                                args: copy_strings(&self.args),
                            }
                        },
                        Err(s) => {
                            self.stage = Stage::Failed;
                            Action::Report(Failure::Setup(s))
                        },
                    }
                } else {
                    Action::Idle
                }
            },
            Event::LaunchFinished(res) => {
                if self.stage == Stage::Launching {
                    match res {
                        Ok(()) => {
                            self.stage = Stage::Done;
                            Action::Finish
                        },
                        Err(message) => {
                            self.stage = Stage::Failed;
                            Action::Report(Failure::Launch(LaunchError::SpawnFailed { message }))
                        },
                    }
                } else {
                    Action::Idle
                }
            },
        }
    }
}

/// A copy of `v`.
fn copy_strings(v: &Vec<String>) -> (r: Vec<String>)
    ensures
        r@ == v@,
{
    let mut r: Vec<String> = Vec::new();
    let mut i: usize = 0;
    while i < v.len()
        invariant
            i <= v@.len(),
            r@ == v@.take(i as int),
        decreases v@.len() - i,
    {
        r.push(v[i].clone());
        assert(r@ =~= v@.take(i + 1));
        i = i + 1;
    }
    assert(v@.take(v@.len() as int) =~= v@);
    r
}

} // verus!
