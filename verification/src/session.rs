//! A run of a command: its steps are performed one after the other, up to the first that fails.
use crate::failure::{status_words, Failure, FailureView};
use crate::step::{plan_of, Invocation, InvocationView, Role, Step, StepView};
use crate::text::{is_decimal, law_signed_decimal_digits};
use vstd::prelude::*;

verus! {

/// What the operating system refused while a step was performed.
#[derive(Copy, Clone, Debug, PartialEq, Eq, Structural)]
pub enum Fault {
    /// To create the directory, or to start the program.
    Start,
    /// To take what is written to the program's standard input.
    Feed,
    /// To wait for the program's end.
    Await,
}

/// What came of a step.
#[derive(Copy, Clone, Debug, PartialEq, Eq)]
pub enum Report {
    /// The text is printed, or the directory is there.
    Done,
    /// The operating system refused.
    Refused { fault: Fault },
    /// The program ended, with an exit status unless a signal ended it.
    Exited { success: bool, code: Option<i32> },
}

/// How a command ends.
#[derive(Debug, PartialEq, Eq)]
pub enum Outcome {
    /// Every step succeeded.
    Success,
    /// A step failed.
    Failed { failure: Failure },
    /// The session on the remote machine ended without success: its status is handed on.
    HandedOn { code: i32 },
}

/// An outcome as the contracts speak of it.
pub ghost enum OutcomeView {
    Success,
    Failed { failure: FailureView },
    HandedOn { code: i32 },
}

impl View for Outcome {
    type V = OutcomeView;

    open spec fn view(&self) -> OutcomeView {
        match *self {
            Outcome::Success => OutcomeView::Success,
            Outcome::Failed { failure } => OutcomeView::Failed { failure: failure@ },
            Outcome::HandedOn { code } => OutcomeView::HandedOn { code },
        }
    }
}

/// What an optional outcome holds.
pub open spec fn optional_outcome(outcome: Option<Outcome>) -> Option<OutcomeView> {
    match outcome {
        Some(o) => Some(o@),
        None => None,
    }
}

impl OutcomeView {
    /// The exit status of the tool.
    pub open spec fn status(self) -> i32 {
        match self {
            OutcomeView::Success => 0,
            OutcomeView::Failed { .. } => 1,
            OutcomeView::HandedOn { code } => code,
        }
    }
}

impl Outcome {
    /// The exit status of the tool.
    pub fn exit_status(&self) -> (r: i32)
        ensures
            r == self@.status(),
    {
        match self {
            Outcome::Success => 0,
            Outcome::Failed { .. } => 1,
            Outcome::HandedOn { code } => *code,
        }
    }
}

/// Whether `report` can come of `step`. Only a program that is written to can refuse the writing,
/// or be started and then fail to be waited for.
pub open spec fn fits(step: StepView, report: Report) -> bool {
    match step {
        StepView::Print(_) => report is Done,
        StepView::CreateDir(_) => report is Done || report == (Report::Refused {
            fault: Fault::Start,
        }),
        StepView::Run(invocation) => report is Exited || (report matches Report::Refused { fault }
            && (fault == Fault::Start || invocation.input is Some)),
    }
}

/// How a run ends where its program was refused.
pub open spec fn refusal(invocation: InvocationView, fault: Fault) -> FailureView {
    match fault {
        Fault::Start => if invocation.role == Role::Shell {
            FailureView::ShellSpawn
        } else {
            FailureView::Spawn { program: invocation.program }
        },
        Fault::Feed => FailureView::Feed,
        Fault::Await => FailureView::Await,
    }
}

/// How a run ends where its program ended without success.
pub open spec fn bad_exit(invocation: InvocationView, code: Option<i32>) -> OutcomeView {
    match invocation.role {
        Role::Command => OutcomeView::Failed { failure: FailureView::CommandExit { code } },
        Role::Script => OutcomeView::Failed { failure: FailureView::ScriptExit { code } },
        Role::Local => OutcomeView::Failed {
            failure: FailureView::LocalExit { program: invocation.program, code },
        },
        Role::Shell => OutcomeView::HandedOn {
            code: match code {
                Some(c) => c,
                None => 1,
            },
        },
    }
}

/// What `report` of `step` means: the end of the run, or, with `None`, that it goes on.
pub open spec fn verdict(step: StepView, report: Report) -> Option<OutcomeView> {
    match (step, report) {
        (StepView::CreateDir(path), Report::Refused { .. }) => Some(
            OutcomeView::Failed { failure: FailureView::CreateDir { path } },
        ),
        (StepView::Run(invocation), Report::Refused { fault }) => Some(
            OutcomeView::Failed { failure: refusal(invocation, fault) },
        ),
        (StepView::Run(invocation), Report::Exited { success: false, code }) => Some(
            bad_exit(invocation, code),
        ),
        _ => None,
    }
}

/// Tells how a run ends where its program was refused.
fn judge_refusal(invocation: &Invocation, fault: Fault) -> (r: Failure)
    ensures
        r@ == refusal(invocation@, fault),
{
    match fault {
        Fault::Start => match invocation.role {
            Role::Shell => Failure::ShellSpawn,
            _ => Failure::Spawn { program: invocation.program.clone() },
        },
        Fault::Feed => Failure::Feed,
        Fault::Await => Failure::Await,
    }
}

/// Tells how a run ends where its program ended without success.
fn judge_exit(invocation: &Invocation, code: Option<i32>) -> (r: Outcome)
    ensures
        r@ == bad_exit(invocation@, code),
{
    match invocation.role {
        Role::Command => Outcome::Failed { failure: Failure::CommandExit { code } },
        Role::Script => Outcome::Failed { failure: Failure::ScriptExit { code } },
        Role::Local => Outcome::Failed {
            failure: Failure::LocalExit { program: invocation.program.clone(), code },
        },
        Role::Shell => Outcome::HandedOn {
            code: match code {
                Some(c) => c,
                None => 1,
            },
        },
    }
}

/// Tells what `report` of `step` means: the end of the run, or, with `None`, that it goes on.
pub fn judge(step: &Step, report: Report) -> (r: Option<Outcome>)
    ensures
        optional_outcome(r) == verdict(step@, report),
{
    match report {
        Report::Done => None,
        Report::Refused { fault } => match step {
            Step::Print(_) => None,
            Step::CreateDir(path) => Some(
                Outcome::Failed { failure: Failure::CreateDir { path: path.clone() } },
            ),
            Step::Run(invocation) => Some(
                Outcome::Failed { failure: judge_refusal(invocation, fault) },
            ),
        },
        Report::Exited { success, code } => match step {
            Step::Run(invocation) => if success {
                None
            } else {
                Some(judge_exit(invocation, code))
            },
            _ => None,
        },
    }
}

/// A run of a command.
pub struct Session {
    steps: Vec<Step>,
    next: usize,
    outcome: Option<Outcome>,
}

/// A run as the contracts speak of it: the steps, how many of them succeeded, and how the run
/// ended, if it did.
pub ghost struct SessionView {
    pub steps: Seq<StepView>,
    pub next: int,
    pub outcome: Option<OutcomeView>,
}

impl SessionView {
    /// The run before its first step.
    pub open spec fn begun(steps: Seq<StepView>) -> SessionView {
        SessionView {
            steps,
            next: 0,
            outcome: if steps.len() == 0 {
                Some(OutcomeView::Success)
            } else {
                None
            },
        }
    }

    /// The step to perform, unless the run has ended.
    pub open spec fn due(self) -> Option<StepView> {
        if self.outcome is Some {
            None
        } else {
            Some(self.steps[self.next])
        }
    }

    /// The run after `report` of the step that was due.
    pub open spec fn after(self, report: Report) -> SessionView {
        match verdict(self.steps[self.next], report) {
            Some(end) => SessionView { outcome: Some(end), ..self },
            None => SessionView {
                next: self.next + 1,
                outcome: if self.next + 1 == self.steps.len() {
                    Some(OutcomeView::Success)
                } else {
                    None
                },
                ..self
            },
        }
    }
}

impl View for Session {
    type V = SessionView;

    closed spec fn view(&self) -> SessionView {
        SessionView {
            steps: plan_of(self.steps@),
            next: self.next as int,
            outcome: optional_outcome(self.outcome),
        }
    }
}

impl Session {
    /// While a run has not ended there is a step to perform.
    #[verifier::type_invariant]
    spec fn inv(self) -> bool {
        self.outcome is None ==> self.next < self.steps@.len()
    }

    /// Begins a run of `steps`.
    pub fn new(steps: Vec<Step>) -> (r: Session)
        ensures
            r@ == SessionView::begun(plan_of(steps@)),
    {
        let outcome = if steps.len() == 0 {
            Some(Outcome::Success)
        } else {
            None
        };
        Session { steps, next: 0, outcome }
    }

    /// The step to perform, unless the run has ended.
    pub fn current(&self) -> (r: Option<&Step>)
        ensures
            r is Some <==> self@.due() is Some,
            r matches Some(step) ==> self@.due() == Some(step@),
    {
        proof {
            use_type_invariant(self);
        }
        match self.outcome {
            Some(_) => None,
            None => Some(&self.steps[self.next]),
        }
    }

    /// How the run ended, if it did.
    pub fn outcome(&self) -> (r: Option<&Outcome>)
        ensures
            r is Some <==> self@.outcome is Some,
            r matches Some(outcome) ==> self@.outcome == Some(outcome@),
    {
        match &self.outcome {
            Some(outcome) => Some(outcome),
            None => None,
        }
    }

    /// Whether `report` can come of the step that is due.
    pub fn accepts(&self, report: Report) -> (r: bool)
        ensures
            r == (self@.due() matches Some(step) && fits(step, report)),
    {
        match self.current() {
            None => false,
            Some(Step::Print(_)) => matches!(report, Report::Done),
            Some(Step::CreateDir(_)) => matches!(
                report,
                Report::Done | Report::Refused { fault: Fault::Start }
            ),
            Some(Step::Run(invocation)) => match report {
                Report::Done => false,
                Report::Refused { fault: Fault::Start } => true,
                Report::Refused { .. } => invocation.input.is_some(),
                Report::Exited { .. } => true,
            },
        }
    }

    /// Takes the report of the step that was due: the run ends or goes on to the next step.
    pub fn report(&mut self, report: Report)
        requires
            old(self)@.due() matches Some(step) && fits(step, report),
        ensures
            final(self)@ == old(self)@.after(report),
    {
        proof {
            use_type_invariant(&*self);
        }
        let total: usize = self.steps.len();
        match judge(&self.steps[self.next], report) {
            Some(end) => {
                self.outcome = Some(end);
            },
            None => {
                if self.next + 1 == total {
                    self.outcome = Some(Outcome::Success);
                }
                self.next = self.next + 1;
            },
        }
    }
}

/// Whether a report tells of a failure: the operating system refused, or the program ended without
/// success.
pub open spec fn tells_failure(report: Report) -> bool {
    report is Refused || report matches Report::Exited { success: false, .. }
}

/// A program that is refused or that ends without success ends the run, and not with success; one
/// that ends with success does not end it. Neither the program's role nor its status matters.
pub proof fn law_programs_end_the_run_iff_they_fail(invocation: InvocationView, report: Report)
    ensures
        verdict(StepView::Run(invocation), report) is Some <==> tells_failure(report),
        verdict(StepView::Run(invocation), report) != Some(OutcomeView::Success),
{
}

/// A directory that cannot be created ends the run with a failure; printing does not end it.
pub proof fn law_other_steps_end_the_run_iff_refused(path: Seq<char>, text: Seq<char>, fault: Fault)
    ensures
        verdict(StepView::CreateDir(path), Report::Refused { fault }) == Some(
            OutcomeView::Failed { failure: FailureView::CreateDir { path } },
        ),
        verdict(StepView::CreateDir(path), Report::Done) is None,
        verdict(StepView::Print(text), Report::Done) is None,
{
}

/// Whether `words` are the exit status `code`: its digits, or `unknown` where there is none.
pub open spec fn tells_status(words: Seq<char>, code: Option<i32>) -> bool {
    match code {
        None => words == "unknown"@,
        Some(c) => if c < 0 {
            words.len() > 0 && words[0] == '-' && is_decimal(words.skip(1), -(c as int))
        } else {
            is_decimal(words, c as int)
        },
    }
}

/// What a run tells that ended in a failure.
pub open spec fn told(outcome: Option<OutcomeView>) -> Seq<char> {
    match outcome {
        Some(OutcomeView::Failed { failure }) => failure.text(),
        _ => Seq::empty(),
    }
}

/// A program that ends without success fails the run, with a message that tells its role and its
/// status; a session's status is handed on instead, or 1 where a signal ended it.
pub proof fn law_bad_exits_are_told(invocation: InvocationView, code: Option<i32>)
    ensures
        ({
            let end = verdict(StepView::Run(invocation), Report::Exited { success: false, code });
            let words = status_words(code);
            &&& tells_status(words, code)
            &&& match invocation.role {
                Role::Command => end matches Some(OutcomeView::Failed { .. }) && told(end)
                    == "remote command exited with status "@ + words,
                Role::Script => end matches Some(OutcomeView::Failed { .. }) && told(end)
                    == "remote script exited with status "@ + words,
                Role::Local => end matches Some(OutcomeView::Failed { .. }) && told(end)
                    == invocation.program + " exited with status "@ + (if code is Some {
                    "Some("@ + words + ")"@
                } else {
                    "None"@
                }),
                Role::Shell => end == Some(
                    OutcomeView::HandedOn {
                        code: if code is Some {
                            code->Some_0
                        } else {
                            1
                        },
                    },
                ),
            }
        }),
{
    if let Some(c) = code {
        law_signed_decimal_digits(c as int);
    }
}

/// A refusal fails the run, with a message that tells what was refused.
pub proof fn law_refusals_are_told(invocation: InvocationView, path: Seq<char>, fault: Fault)
    ensures
        ({
            let end = verdict(StepView::Run(invocation), Report::Refused { fault });
            &&& end matches Some(OutcomeView::Failed { .. })
            &&& told(end) == match fault {
                Fault::Start => if invocation.role == Role::Shell {
                    "failed to spawn `ssh` "@
                } else {
                    "failed to spawn `"@ + invocation.program
                        + "` — is it installed and on your PATH?"@
                },
                Fault::Feed => "failed to write script to remote powershell over ssh stdin"@,
                Fault::Await => "failed waiting on ssh"@,
            }
        }),
        told(verdict(StepView::CreateDir(path), Report::Refused { fault }))
            == "failed to create destination dir "@ + path,
        FailureView::OneInstanceOnly.text()
            == "`logs tail` only supports one instance at a time — pass `ictrading` or `ftmo` "@,
{
}

/// The tool exits with 0 after success, with 1 after a failure, and with the status of a session
/// that is handed on.
pub proof fn law_exit_statuses(failure: FailureView, code: i32)
    ensures
        OutcomeView::Success.status() == 0,
        (OutcomeView::Failed { failure }).status() == 1,
        (OutcomeView::HandedOn { code }).status() == code,
{
}

/// Every report that can come of a step is accepted: printing is done; a directory is there or is
/// refused; a program ends, or is not started, or, where it is written to, breaks off.
pub proof fn law_every_report_fits(
    text: Seq<char>,
    path: Seq<char>,
    invocation: InvocationView,
    fault: Fault,
    success: bool,
    code: Option<i32>,
)
    ensures
        fits(StepView::Print(text), Report::Done),
        fits(StepView::CreateDir(path), Report::Done),
        fits(StepView::CreateDir(path), Report::Refused { fault: Fault::Start }),
        fits(StepView::Run(invocation), Report::Exited { success, code }),
        fits(StepView::Run(invocation), Report::Refused { fault: Fault::Start }),
        invocation.input is Some ==> fits(StepView::Run(invocation), Report::Refused { fault }),
{
}

/// Failures and outcomes are seen as they are.
pub proof fn law_outcomes_are_seen_as_they_are(
    outcome: Outcome,
    failure: Failure,
    text: String,
    code: Option<i32>,
    status: i32,
)
    ensures
        Outcome::Success@ == OutcomeView::Success,
        (Outcome::Failed { failure })@ == (OutcomeView::Failed { failure: failure@ }),
        (Outcome::HandedOn { code: status })@ == (OutcomeView::HandedOn { code: status }),
        optional_outcome(Some(outcome)) == Some(outcome@),
        optional_outcome(None) == None::<OutcomeView>,
        Failure::OneInstanceOnly@ == FailureView::OneInstanceOnly,
        (Failure::CreateDir { path: text })@ == (FailureView::CreateDir { path: text@ }),
        (Failure::Spawn { program: text })@ == (FailureView::Spawn { program: text@ }),
        Failure::ShellSpawn@ == FailureView::ShellSpawn,
        Failure::Feed@ == FailureView::Feed,
        Failure::Await@ == FailureView::Await,
        (Failure::CommandExit { code })@ == (FailureView::CommandExit { code }),
        (Failure::ScriptExit { code })@ == (FailureView::ScriptExit { code }),
        (Failure::LocalExit { program: text, code })@ == (FailureView::LocalExit {
            program: text@,
            code,
        }),
{
}

} // verus!
