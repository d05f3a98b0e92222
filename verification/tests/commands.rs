use nexus_ctl::cli::{Commands, Env, LogsAction, DEFAULT_DEST, DEFAULT_ENV, DEFAULT_GRACE, DEFAULT_LINES};
use nexus_ctl::commands::{
    cmd_kill, cmd_logs_pull, cmd_logs_tail, cmd_restart, cmd_shell, cmd_start, cmd_status,
    cmd_stop, plan,
};
use nexus_ctl::config::{
    host, log_path, remote_project, shellexpand_home, task_name, task_prefix, to_forward_slashes,
    Config,
};
use nexus_ctl::failure::Failure;
use nexus_ctl::powershell::GRACEFUL_STOP_SCRIPT;
use nexus_ctl::step::{Invocation, Role, Step};

fn defaults() -> Config {
    Config {
        host: host(None),
        remote_project: remote_project(None),
        task_prefix: task_prefix(None),
    }
}

fn small() -> Config {
    Config {
        host: "u@h".to_string(),
        remote_project: r"C:\p".to_string(),
        task_prefix: "t".to_string(),
    }
}

fn print(text: &str) -> Step {
    Step::Print(text.to_string())
}

fn program(role: Role, name: &str, args: &[&str], input: Option<&str>) -> Step {
    Step::Run(Invocation {
        role,
        program: name.to_string(),
        args: args.iter().map(|a| a.to_string()).collect(),
        input: input.map(|i| i.to_string()),
    })
}

fn remote(command: &str) -> Step {
    program(Role::Command, "ssh", &["-t", "u@h", command], None)
}

#[test]
fn instances_of_each_choice() {
    assert_eq!(Env::Ictrading.instances(), vec!["ictrading"]);
    assert_eq!(Env::Ftmo.instances(), vec!["ftmo"]);
    assert_eq!(Env::All.instances(), vec!["ictrading", "ftmo"]);
}

#[test]
fn defaults_of_the_settings() {
    assert_eq!(host(None), "Marci@windows.tail0212d0.ts.net");
    assert_eq!(remote_project(None), r"C:\Users\Marci\Desktop\nexus-trade");
    assert_eq!(task_prefix(None), "nexus-trade");
    assert_eq!(host(Some("me@box".to_string())), "me@box");
    assert_eq!(remote_project(Some(String::new())), "");
    assert_eq!(task_prefix(Some("x".to_string())), "x");
}

#[test]
fn defaults_of_the_arguments() {
    assert_eq!(DEFAULT_ENV, Env::All);
    assert_eq!(DEFAULT_GRACE, 60);
    assert_eq!(DEFAULT_LINES, 50);
    assert_eq!(DEFAULT_DEST, "~/Desktop/nexus-trade-logs");
}

#[test]
fn names_and_paths_of_an_instance() {
    assert_eq!(task_name(&defaults(), "ftmo"), "nexus-trade-ftmo");
    assert_eq!(
        log_path(&defaults(), "ictrading"),
        r"C:\Users\Marci\Desktop\nexus-trade\logs\ictrading.log"
    );
}

#[test]
fn slashes_of_a_windows_path() {
    assert_eq!(to_forward_slashes(r"C:\Users\Märci\x"), "C:/Users/Märci/x");
    assert_eq!(to_forward_slashes("a/b"), "a/b");
    assert_eq!(to_forward_slashes(""), "");
}

#[test]
fn home_of_a_path() {
    let home = Some("/home/u".to_string());
    assert_eq!(shellexpand_home("~/Desktop", &home), "/home/u/Desktop");
    assert_eq!(shellexpand_home("~/", &home), "/home/u/");
    assert_eq!(shellexpand_home("~", &home), "~");
    assert_eq!(shellexpand_home("~x/y", &home), "~x/y");
    assert_eq!(shellexpand_home("/a/~/b", &home), "/a/~/b");
    assert_eq!(shellexpand_home("~/Desktop", &None), "~/Desktop");
    assert_eq!(shellexpand_home("~/é", &Some(String::new())), "/é");
}

#[test]
fn start_of_both() {
    assert_eq!(
        cmd_start(&small(), Env::All, false),
        vec![
            print("==> starting ictrading"),
            remote("powershell -NoProfile -Command \"Start-ScheduledTask -TaskName 't-ictrading'\""),
            print("==> starting ftmo"),
            remote("powershell -NoProfile -Command \"Start-ScheduledTask -TaskName 't-ftmo'\""),
        ]
    );
}

#[test]
fn start_in_a_dry_run() {
    assert_eq!(
        cmd_start(&defaults(), Env::Ictrading, true),
        vec![
            print("==> starting ictrading"),
            print(
                "[dry-run] ssh -t Marci@windows.tail0212d0.ts.net powershell -NoProfile -Command \
                 \"Start-ScheduledTask -TaskName 'nexus-trade-ictrading'\""
            ),
        ]
    );
}

#[test]
fn stop_by_force() {
    let command = "powershell -NoProfile -Command \"Stop-ScheduledTask -TaskName 't-ftmo'; \
        Get-CimInstance Win32_Process -Filter `\"Name='uv.exe'`\" | \
        Where-Object { $_.CommandLine -like '*.env.ftmo*' } | \
        ForEach-Object { Stop-Process -Id $_.ProcessId -Force -ErrorAction SilentlyContinue }\"";
    assert_eq!(
        cmd_stop(&small(), Env::Ftmo, 60, true, false),
        vec![
            print(
                "==> force-stopping ftmo immediately (no grace period — it will NOT close positions)"
            ),
            remote(command),
        ]
    );
}

#[test]
fn force_does_not_look_at_the_grace_period() {
    assert_eq!(
        cmd_stop(&small(), Env::All, 1, true, false),
        cmd_stop(&small(), Env::All, 99, true, false)
    );
}

#[test]
fn stop_gracefully() {
    let script = format!(
        "$Instance = 'ftmo'\n$EnvFilter = '.env.ftmo'\n$GraceSeconds = 120\n$TaskName = 't-ftmo'\n{}",
        GRACEFUL_STOP_SCRIPT
    );
    assert_eq!(
        cmd_stop(&small(), Env::Ftmo, 120, false, false),
        vec![
            print("==> stopping ftmo gracefully (grace period: 120s)"),
            program(
                Role::Script,
                "ssh",
                &["u@h", "powershell -NoProfile -Command -"],
                Some(&script)
            ),
        ]
    );
    assert_eq!(
        cmd_stop(&small(), Env::Ftmo, 120, false, true),
        vec![
            print("==> stopping ftmo gracefully (grace period: 120s)"),
            print("[dry-run] ssh u@h -- powershell -NoProfile -Command - <<'PS1'"),
            print(&script),
            print("PS1"),
        ]
    );
}

#[test]
fn graceful_script_is_the_known_one() {
    assert!(GRACEFUL_STOP_SCRIPT.starts_with("\n$ErrorActionPreference = 'Stop'\n"));
    assert!(GRACEFUL_STOP_SCRIPT.contains("GenerateConsoleCtrlEvent(0, 0)"));
    assert!(GRACEFUL_STOP_SCRIPT.contains("    Start-Sleep -Seconds 2\n"));
    assert!(GRACEFUL_STOP_SCRIPT.contains("Stop-Process -Id $targetPid -Force"));
    assert!(GRACEFUL_STOP_SCRIPT
        .ends_with("Stop-ScheduledTask -TaskName $TaskName -ErrorAction SilentlyContinue\n"));
}

#[test]
fn a_quote_in_the_task_prefix_is_doubled_in_the_script() {
    let config = Config {
        task_prefix: "it's".to_string(),
        ..small()
    };
    match &cmd_stop(&config, Env::Ftmo, 5, false, false)[1] {
        Step::Run(invocation) => {
            let script = invocation.input.as_ref().unwrap();
            assert!(script.contains("\n$GraceSeconds = 5\n$TaskName = 'it''s-ftmo'\n"));
        }
        other => panic!("{:?}", other),
    }
}

#[test]
fn restart_is_stop_then_start() {
    for dry_run in [false, true] {
        let mut both = cmd_stop(&small(), Env::Ftmo, 7, false, dry_run);
        both.append(&mut cmd_start(&small(), Env::Ftmo, dry_run));
        assert_eq!(cmd_restart(&small(), Env::Ftmo, 7, dry_run), both);
    }
}

#[test]
fn all_is_one_then_the_other() {
    let mut starts = cmd_start(&small(), Env::Ictrading, false);
    starts.append(&mut cmd_start(&small(), Env::Ftmo, false));
    assert_eq!(cmd_start(&small(), Env::All, false), starts);
    let mut stops = cmd_stop(&small(), Env::Ictrading, 9, false, true);
    stops.append(&mut cmd_stop(&small(), Env::Ftmo, 9, false, true));
    assert_eq!(cmd_stop(&small(), Env::All, 9, false, true), stops);
}

#[test]
fn status_of_both() {
    let command = "powershell -NoProfile -Command \"Get-ScheduledTaskInfo -TaskName 't-ictrading'; \
        Get-ScheduledTaskInfo -TaskName 't-ftmo'; \
        Get-Process uv -ErrorAction SilentlyContinue | Select-Object Id, StartTime\"";
    assert_eq!(cmd_status(&small(), false), vec![remote(command)]);
    assert_eq!(
        cmd_status(&small(), true),
        vec![print(&format!("[dry-run] ssh -t u@h {}", command))]
    );
}

#[test]
fn kill_of_both() {
    let command = "powershell -NoProfile -Command \
        \"Get-Process uv -ErrorAction SilentlyContinue | Stop-Process -Force\"";
    assert_eq!(cmd_kill(&small(), false), vec![remote(command)]);
    assert_eq!(
        cmd_kill(&small(), true),
        vec![print(&format!("[dry-run] ssh -t u@h {}", command))]
    );
}

#[test]
fn tail_of_one() {
    let command =
        "powershell -NoProfile -Command \"Get-Content 'C:\\p\\logs\\ftmo.log' -Wait -Tail 200\"";
    assert_eq!(
        cmd_logs_tail(&small(), Env::Ftmo, 200, false),
        Ok(vec![
            print("==> tailing ftmo (Ctrl+C to stop; the task keeps running)"),
            remote(command),
        ])
    );
}

#[test]
fn tail_of_both_is_refused() {
    for dry_run in [false, true] {
        assert_eq!(
            cmd_logs_tail(&small(), Env::All, 50, dry_run),
            Err(Failure::OneInstanceOnly)
        );
    }
}

#[test]
fn pull_by_scp() {
    let home = Some("/home/u".to_string());
    assert_eq!(
        cmd_logs_pull(&small(), &home, Env::All, DEFAULT_DEST, false, false),
        vec![
            Step::CreateDir("/home/u/Desktop/nexus-trade-logs".to_string()),
            print("==> scp ictrading.log -> /home/u/Desktop/nexus-trade-logs"),
            program(
                Role::Local,
                "scp",
                &["u@h:C:/p/logs/ictrading.log", "/home/u/Desktop/nexus-trade-logs/"],
                None
            ),
            print("==> scp ftmo.log -> /home/u/Desktop/nexus-trade-logs"),
            program(
                Role::Local,
                "scp",
                &["u@h:C:/p/logs/ftmo.log", "/home/u/Desktop/nexus-trade-logs/"],
                None
            ),
        ]
    );
}

#[test]
fn pull_of_both_creates_the_directory_once() {
    let mut first = cmd_logs_pull(&small(), &None, Env::Ictrading, "/d", false, false);
    let second = cmd_logs_pull(&small(), &None, Env::Ftmo, "/d", false, false);
    first.extend(second.into_iter().skip(1));
    assert_eq!(cmd_logs_pull(&small(), &None, Env::All, "/d", false, false), first);
}

#[test]
fn pull_by_rsync() {
    let expected = vec![
        Step::CreateDir("/d".to_string()),
        print("==> rsync logs -> /d"),
        program(Role::Local, "rsync", &["-avz", "u@h:C:/p/logs/", "/d/"], None),
    ];
    assert_eq!(cmd_logs_pull(&small(), &None, Env::All, "/d", true, false), expected);
    assert_eq!(cmd_logs_pull(&small(), &None, Env::Ftmo, "/d", true, false), expected);
}

#[test]
fn pull_in_a_dry_run() {
    assert_eq!(
        cmd_logs_pull(&small(), &None, Env::Ftmo, "~/d", false, true),
        vec![
            print("==> scp ftmo.log -> ~/d"),
            print("[dry-run] scp u@h:C:/p/logs/ftmo.log ~/d/"),
        ]
    );
    assert_eq!(
        cmd_logs_pull(&small(), &None, Env::Ftmo, "/d", true, true),
        vec![
            print("==> rsync logs -> /d"),
            print("[dry-run] rsync -avz u@h:C:/p/logs/ /d/"),
        ]
    );
}

#[test]
fn shell_on_the_host() {
    assert_eq!(
        cmd_shell(&defaults(), false),
        vec![program(Role::Shell, "ssh", &["Marci@windows.tail0212d0.ts.net"], None)]
    );
    assert_eq!(
        cmd_shell(&defaults(), true),
        vec![print("[dry-run] ssh Marci@windows.tail0212d0.ts.net")]
    );
}

fn every_command() -> Vec<Commands> {
    vec![
        Commands::Start { env: Env::All },
        Commands::Stop { env: Env::All, grace: 60, force: false },
        Commands::Stop { env: Env::Ftmo, grace: 60, force: true },
        Commands::Restart { env: Env::All, grace: 60 },
        Commands::Status,
        Commands::Kill,
        Commands::Logs { action: LogsAction::Tail { env: Env::Ftmo, lines: 50 } },
        Commands::Logs {
            action: LogsAction::Pull { env: Env::All, dest: "~/d".to_string(), rsync: false },
        },
        Commands::Logs {
            action: LogsAction::Pull { env: Env::All, dest: "~/d".to_string(), rsync: true },
        },
        Commands::Shell,
    ]
}

#[test]
fn a_dry_run_only_prints_and_shows_each_program() {
    let home = Some("/h".to_string());
    for command in every_command() {
        let real = plan(&small(), &home, &command, false).unwrap();
        let dry = plan(&small(), &home, &command, true).unwrap();
        assert!(!real.is_empty());
        assert!(dry.iter().all(|s| matches!(s, Step::Print(_))));
        let mut printed = dry.iter();
        for step in &real {
            match step {
                Step::Print(_) => assert_eq!(printed.next(), Some(step)),
                Step::CreateDir(_) => {}
                Step::Run(invocation) => {
                    let line = match printed.next() {
                        Some(Step::Print(line)) => line,
                        other => panic!("{:?}", other),
                    };
                    let expected = match invocation.role {
                        Role::Script => format!(
                            "[dry-run] ssh {} -- {} <<'PS1'",
                            invocation.args[0], invocation.args[1]
                        ),
                        _ => format!(
                            "[dry-run] {} {}",
                            invocation.program,
                            invocation.args.join(" ")
                        ),
                    };
                    assert_eq!(*line, expected);
                    assert!(line.contains("u@h"));
                    if let Some(input) = &invocation.input {
                        assert_eq!(printed.next(), Some(&print(input)));
                        assert_eq!(printed.next(), Some(&print("PS1")));
                    }
                }
            }
        }
        assert_eq!(printed.next(), None);
    }
}

#[test]
fn a_plan_is_that_of_its_command() {
    let c = small();
    let home = Some("/h".to_string());
    let of = |command: Commands| plan(&c, &home, &command, false);
    assert_eq!(of(Commands::Start { env: Env::Ftmo }), Ok(cmd_start(&c, Env::Ftmo, false)));
    assert_eq!(
        of(Commands::Stop { env: Env::Ftmo, grace: 3, force: true }),
        Ok(cmd_stop(&c, Env::Ftmo, 3, true, false))
    );
    assert_eq!(
        of(Commands::Restart { env: Env::Ftmo, grace: 3 }),
        Ok(cmd_restart(&c, Env::Ftmo, 3, false))
    );
    assert_eq!(of(Commands::Status), Ok(cmd_status(&c, false)));
    assert_eq!(of(Commands::Kill), Ok(cmd_kill(&c, false)));
    assert_eq!(of(Commands::Shell), Ok(cmd_shell(&c, false)));
    assert_eq!(
        of(Commands::Logs { action: LogsAction::Tail { env: Env::All, lines: 1 } }),
        Err(Failure::OneInstanceOnly)
    );
    assert_eq!(
        of(Commands::Logs {
            action: LogsAction::Pull { env: Env::Ftmo, dest: "~/d".to_string(), rsync: true }
        }),
        Ok(cmd_logs_pull(&c, &home, Env::Ftmo, "~/d", true, false))
    );
}

#[test]
fn a_restart_kills_what_lingers() {
    match &cmd_restart(&small(), Env::Ftmo, 60, false)[1] {
        Step::Run(invocation) => {
            let script = invocation.input.as_ref().unwrap();
            assert!(script.contains("\nStop-Process -Id $targetPid -Force"));
        }
        other => panic!("{:?}", other),
    }
}

#[test]
fn a_double_quote_in_the_task_prefix_is_escaped_in_a_command() {
    let config = Config {
        task_prefix: "a\"b".to_string(),
        ..small()
    };
    assert_eq!(
        cmd_start(&config, Env::Ftmo, false)[1],
        remote("powershell -NoProfile -Command \"Start-ScheduledTask -TaskName 'a`\"b-ftmo'\"")
    );
}
