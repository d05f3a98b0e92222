use nexus_ctl::cli::Env;
use nexus_ctl::commands::{cmd_restart, cmd_shell, cmd_start, cmd_stop};
use nexus_ctl::config::Config;
use nexus_ctl::failure::Failure;
use nexus_ctl::session::{judge, Fault, Outcome, Report, Session};
use nexus_ctl::step::{Invocation, Role, Step};

fn config() -> Config {
    Config {
        host: "u@h".to_string(),
        remote_project: r"C:\p".to_string(),
        task_prefix: "t".to_string(),
    }
}

fn exited(code: Option<i32>) -> Report {
    Report::Exited { success: code == Some(0), code }
}

fn program(role: Role, name: &str, input: Option<&str>) -> Step {
    Step::Run(Invocation {
        role,
        program: name.to_string(),
        args: Vec::new(),
        input: input.map(|i| i.to_string()),
    })
}

/// Runs `steps`; the program number `bad` ends as `report` says, the others succeed. Gives the
/// outcome's exit status, its message and the number of programs that were run.
fn drive(steps: Vec<Step>, bad: usize, report: Report) -> (i32, Option<String>, usize) {
    let mut session = Session::new(steps);
    let mut programs = 0;
    while let Some(step) = session.current() {
        let now = match step {
            Step::Run(_) => {
                programs += 1;
                if programs == bad { report } else { exited(Some(0)) }
            }
            _ => Report::Done,
        };
        assert!(session.accepts(now));
        session.report(now);
    }
    let outcome = session.outcome().unwrap();
    let message = match outcome {
        Outcome::Failed { failure } => Some(failure.message()),
        _ => None,
    };
    (outcome.exit_status(), message, programs)
}

#[test]
fn a_run_whose_steps_succeed() {
    assert_eq!(
        drive(cmd_start(&config(), Env::All, false), 0, Report::Done),
        (0, None, 2)
    );
    assert_eq!(drive(Vec::new(), 0, Report::Done), (0, None, 0));
}

#[test]
fn the_first_failure_ends_the_run() {
    assert_eq!(
        drive(cmd_start(&config(), Env::All, false), 1, exited(Some(5))),
        (1, Some("remote command exited with status 5".to_string()), 1)
    );
    assert_eq!(
        drive(cmd_stop(&config(), Env::All, 60, true, false), 2, exited(None)),
        (1, Some("remote command exited with status unknown".to_string()), 2)
    );
}

#[test]
fn a_restart_whose_stop_fails_starts_nothing() {
    assert_eq!(
        drive(cmd_restart(&config(), Env::Ftmo, 60, false), 1, exited(Some(-1))),
        (1, Some("remote script exited with status -1".to_string()), 1)
    );
    assert_eq!(drive(cmd_restart(&config(), Env::Ftmo, 60, false), 0, Report::Done), (0, None, 2));
}

#[test]
fn the_status_of_a_shell_is_handed_on() {
    assert_eq!(drive(cmd_shell(&config(), false), 1, exited(Some(130))), (130, None, 1));
    assert_eq!(drive(cmd_shell(&config(), false), 1, exited(None)), (1, None, 1));
    assert_eq!(drive(cmd_shell(&config(), false), 1, exited(Some(0))), (0, None, 1));
}

fn message(step: &Step, report: Report) -> String {
    match judge(step, report) {
        Some(Outcome::Failed { failure }) => failure.message(),
        other => panic!("{:?}", other),
    }
}

#[test]
fn messages_of_refusals() {
    let start = Report::Refused { fault: Fault::Start };
    assert_eq!(
        message(&Step::CreateDir("/d".to_string()), start),
        "failed to create destination dir /d"
    );
    for role in [Role::Command, Role::Local] {
        assert_eq!(
            message(&program(role, "scp", None), start),
            "failed to spawn `scp` — is it installed and on your PATH?"
        );
    }
    assert_eq!(
        message(&program(Role::Script, "ssh", Some("x")), start),
        "failed to spawn `ssh` — is it installed and on your PATH?"
    );
    assert_eq!(message(&program(Role::Shell, "ssh", None), start), "failed to spawn `ssh` ");
    assert_eq!(
        message(&program(Role::Script, "ssh", Some("x")), Report::Refused { fault: Fault::Feed }),
        "failed to write script to remote powershell over ssh stdin"
    );
    assert_eq!(
        message(&program(Role::Script, "ssh", Some("x")), Report::Refused { fault: Fault::Await }),
        "failed waiting on ssh"
    );
}

#[test]
fn messages_of_bad_exits() {
    assert_eq!(
        message(&program(Role::Local, "rsync", None), exited(Some(23))),
        "rsync exited with status Some(23)"
    );
    assert_eq!(
        message(&program(Role::Local, "scp", None), exited(None)),
        "scp exited with status None"
    );
    assert_eq!(
        message(&program(Role::Script, "ssh", Some("x")), exited(None)),
        "remote script exited with status unknown"
    );
    assert_eq!(
        Failure::OneInstanceOnly.message(),
        "`logs tail` only supports one instance at a time — pass `ictrading` or `ftmo` "
    );
}

#[test]
fn a_success_goes_on() {
    assert_eq!(judge(&program(Role::Local, "scp", None), exited(Some(0))), None);
    assert_eq!(judge(&Step::Print("x".to_string()), Report::Done), None);
    assert_eq!(judge(&Step::CreateDir("/d".to_string()), Report::Done), None);
}

#[test]
fn reports_that_a_step_cannot_give() {
    let session = Session::new(vec![Step::Print("x".to_string())]);
    assert!(session.accepts(Report::Done));
    assert!(!session.accepts(exited(Some(0))));
    let session = Session::new(vec![program(Role::Command, "ssh", None)]);
    assert!(session.accepts(Report::Refused { fault: Fault::Start }));
    assert!(!session.accepts(Report::Refused { fault: Fault::Feed }));
    assert!(!session.accepts(Report::Done));
    assert!(!Session::new(Vec::new()).accepts(Report::Done));
}
