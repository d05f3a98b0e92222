//! The steps that a command of the tool consists of.
use crate::config::optional;
use crate::text::{join, joined, texts};
use vstd::prelude::*;

verus! {

/// What a program is run for. It decides how a failure of the program is answered.
#[derive(Copy, Clone, Debug, PartialEq, Eq, Structural)]
pub enum Role {
    /// ssh, to run one command on the remote machine.
    Command,
    /// ssh, to run a script that is written to its standard input.
    Script,
    /// A program that copies files to this machine.
    Local,
    /// ssh, for a session that the user types into.
    Shell,
}

/// A program to run, with its arguments and what is written to its standard input.
#[derive(Debug, PartialEq, Eq)]
pub struct Invocation {
    pub role: Role,
    pub program: String,
    pub args: Vec<String>,
    pub input: Option<String>,
}

/// One step of a command.
#[derive(Debug, PartialEq, Eq)]
pub enum Step {
    /// Print a text and a line feed.
    Print(String),
    /// Create a local directory, with its parents, where it is missing.
    CreateDir(String),
    /// Run a program and wait for its end.
    Run(Invocation),
}

/// An invocation as the contracts speak of it.
pub ghost struct InvocationView {
    pub role: Role,
    pub program: Seq<char>,
    pub args: Seq<Seq<char>>,
    pub input: Option<Seq<char>>,
}

/// A step as the contracts speak of it.
pub ghost enum StepView {
    Print(Seq<char>),
    CreateDir(Seq<char>),
    Run(InvocationView),
}

impl View for Invocation {
    type V = InvocationView;

    open spec fn view(&self) -> InvocationView {
        InvocationView {
            role: self.role,
            program: self.program@,
            args: texts(self.args@),
            input: optional(self.input),
        }
    }
}

impl View for Step {
    type V = StepView;

    open spec fn view(&self) -> StepView {
        match *self {
            Step::Print(text) => StepView::Print(text@),
            Step::CreateDir(path) => StepView::CreateDir(path@),
            Step::Run(invocation) => StepView::Run(invocation@),
        }
    }
}

/// A list of steps as the contracts speak of it.
pub open spec fn plan_of(steps: Seq<Step>) -> Seq<StepView> {
    Seq::new(steps.len(), |i: int| steps[i]@)
}

/// The run of `command` on the remote machine `host`, at a terminal.
pub open spec fn remote_command(host: Seq<char>, command: Seq<char>) -> InvocationView {
    InvocationView {
        role: Role::Command,
        program: "ssh"@,
        args: seq!["-t"@, host, command],
        input: None,
    }
}

/// The run of `script` by a PowerShell on the remote machine `host`.
pub open spec fn remote_script(host: Seq<char>, script: Seq<char>) -> InvocationView {
    InvocationView {
        role: Role::Script,
        program: "ssh"@,
        args: seq![host, "powershell -NoProfile -Command -"@],
        input: Some(script),
    }
}

/// The run of a program that copies files to this machine.
pub open spec fn local_program(program: Seq<char>, args: Seq<Seq<char>>) -> InvocationView {
    InvocationView { role: Role::Local, program, args, input: None }
}

/// The session on the remote machine `host`.
pub open spec fn remote_shell(host: Seq<char>) -> InvocationView {
    InvocationView { role: Role::Shell, program: "ssh"@, args: seq![host], input: None }
}

/// A program and its arguments, in order, as one line.
pub open spec fn command_line(invocation: InvocationView) -> Seq<char> {
    invocation.program + " "@ + joined(invocation.args, " "@)
}

/// The lines that a dry run prints in the place of an invocation: the command line of the program;
/// for a script, ssh's host and remote command with the script between two marks.
pub open spec fn preview_lines(invocation: InvocationView) -> Seq<Seq<char>> {
    let args = invocation.args;
    match invocation.role {
        Role::Command | Role::Local | Role::Shell => seq!["[dry-run] "@ + command_line(invocation)],
        Role::Script => seq![
            "[dry-run] "@ + invocation.program + " "@ + args[0] + " -- "@ + args[1] + " <<'PS1'"@,
            invocation.input->Some_0,
            "PS1"@,
        ],
    }
}

/// The steps of an invocation: the program is run, or, in a dry run, shown.
pub open spec fn run_or_show(invocation: InvocationView, dry_run: bool) -> Seq<StepView> {
    if dry_run {
        let lines = preview_lines(invocation);
        Seq::new(lines.len(), |i: int| StepView::Print(lines[i]))
    } else {
        seq![StepView::Run(invocation)]
    }
}

/// Lists the steps that run a program to which nothing is written, or show its command line.
pub(crate) fn run_program(role: Role, program: &str, args: Vec<String>, dry_run: bool) -> (r: Vec<
    Step,
>)
    requires
        role != Role::Script,
    ensures
        plan_of(r@) == run_or_show(
            (InvocationView { role, program: program@, args: texts(args@), input: None }),
            dry_run,
        ),
{
    let ghost invocation = InvocationView {
        role,
        program: program@,
        args: texts(args@),
        input: None,
    };
    let steps: Vec<Step> = if dry_run {
        let mut line = "[dry-run] ".to_owned();
        line.append(program);
        line.append(" ");
        line.append(join(&args, " ").as_str());
        assert(line@ =~= "[dry-run] "@ + command_line(invocation));
        vec![Step::Print(line)]
    } else {
        vec![Step::Run(Invocation { role, program: program.to_owned(), args, input: None })]
    };
    assert(plan_of(steps@) =~= run_or_show(invocation, dry_run));
    steps
}

/// Lists the steps that run `ps_command` on the remote machine `host`, or show it.
pub fn run_remote(host: &str, ps_command: &str, dry_run: bool) -> (r: Vec<Step>)
    ensures
        plan_of(r@) == run_or_show(remote_command(host@, ps_command@), dry_run),
{
    let args: Vec<String> = vec!["-t".to_owned(), host.to_owned(), ps_command.to_owned()];
    assert(texts(args@) =~= remote_command(host@, ps_command@).args);
    run_program(Role::Command, "ssh", args, dry_run)
}

/// Lists the steps that run `script` by a PowerShell on the remote machine `host`, or show it.
pub fn run_remote_script(host: &str, script: &str, dry_run: bool) -> (r: Vec<Step>)
    ensures
        plan_of(r@) == run_or_show(remote_script(host@, script@), dry_run),
{
    let ghost invocation = remote_script(host@, script@);
    let steps: Vec<Step> = if dry_run {
        let mut line = "[dry-run] ".to_owned();
        line.append("ssh");
        line.append(" ");
        line.append(host);
        line.append(" -- ");
        line.append("powershell -NoProfile -Command -");
        line.append(" <<'PS1'");
        vec![Step::Print(line), Step::Print(script.to_owned()), Step::Print("PS1".to_owned())]
    } else {
        let args: Vec<String> = vec![
            host.to_owned(),
            "powershell -NoProfile -Command -".to_owned(),
        ];
        assert(texts(args@) =~= invocation.args);
        vec![
            Step::Run(
                Invocation {
                    role: Role::Script,
                    program: "ssh".to_owned(),
                    args,
                    input: Some(script.to_owned()),
                },
            ),
        ]
    };
    assert(plan_of(steps@) =~= run_or_show(invocation, dry_run));
    steps
}

/// Lists the steps that run a program that copies files to this machine, or show it.
pub fn run_local(program: &str, args: Vec<String>, dry_run: bool) -> (r: Vec<Step>)
    ensures
        plan_of(r@) == run_or_show(local_program(program@, texts(args@)), dry_run),
{
    run_program(Role::Local, program, args, dry_run)
}

} // verus!
