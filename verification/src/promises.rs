//! What each command does, spelled out: the programs that it runs, with every argument, and the
//! lines that it prints.
use crate::cli::{names, CommandView, Commands, Env, LogsAction};
use crate::commands::{
    command_plan, copy_job, force_stop_job, graceful_stop_job, in_turn, kill_command, kill_plan,
    pull_plan, refused, restart_plan, shell_plan, start_job, start_plan, status_command,
    status_plan, stop_plan, tail_plan, Job,
};
use crate::config::{home_expanded, is_slashed, law_slashed, slashed, ConfigView};
use crate::powershell::{
    doubled, escaped, law_literal_is_read_back, law_ps_line_is_read_back, ps_line, quotes_command,
    read_literal, stop_script, GRACEFUL_STOP_SCRIPT,
};
use crate::step::{
    local_program, plan_of, remote_command, remote_script, remote_shell, run_or_show, Invocation,
    InvocationView, Role, Step, StepView,
};
use crate::text::{
    decimal, is_decimal, joined, law_decimal_digits, law_joined_concat, law_joined_one,
    law_replaced_concat, law_replaced_one,
};
use vstd::prelude::*;

verus! {

/// Whether `step` runs `statement` by PowerShell on the machine `host`, through ssh at a terminal.
pub open spec fn runs_statement(step: StepView, host: Seq<char>, statement: Seq<char>) -> bool {
    &&& step matches StepView::Run(invocation)
    &&& invocation.role == Role::Command
    &&& invocation.program == "ssh"@
    &&& invocation.args.len() == 3
    &&& invocation.args[0] == "-t"@
    &&& invocation.args[1] == host
    &&& invocation.args[2] == "powershell -NoProfile -Command \""@ + escaped(statement) + "\""@
    &&& quotes_command(invocation.args[2], statement)
    &&& invocation.input is None
}

/// Whether `step` feeds a PowerShell on the machine `host`, through ssh, a script that begins with
/// the assignments of a graceful stop, which `read_literal` reads as `instance`, `filter` and
/// `task`, with `seconds` written between, and goes on with the script of a graceful stop.
pub open spec fn feeds_stop_script(
    step: StepView,
    host: Seq<char>,
    instance: Seq<char>,
    filter: Seq<char>,
    seconds: Seq<char>,
    task: Seq<char>,
) -> bool {
    let before_first = "$Instance = '"@;
    let before_second = "\n$EnvFilter = '"@;
    let before_third = "\n$GraceSeconds = "@ + seconds + "\n$TaskName = '"@;
    &&& step matches StepView::Run(invocation)
    &&& invocation.role == Role::Script
    &&& invocation.program == "ssh"@
    &&& invocation.args == seq![host, "powershell -NoProfile -Command -"@]
    &&& invocation.input matches Some(script)
    &&& before_first.is_prefix_of(script)
    &&& read_literal(script.skip(before_first.len() as int)) matches Some((first, behind_first))
    &&& first == instance
    &&& before_second.is_prefix_of(behind_first)
    &&& read_literal(behind_first.skip(before_second.len() as int)) matches Some(
        (second, behind_second),
    )
    &&& second == filter
    &&& before_third.is_prefix_of(behind_second)
    &&& read_literal(behind_second.skip(before_third.len() as int)) matches Some(
        (third, behind_third),
    )
    &&& third == task
    &&& behind_third == "\n"@ + GRACEFUL_STOP_SCRIPT@
}

/// Whether `step` runs `program` on this machine with the arguments `args`.
pub open spec fn runs_local(step: StepView, program: Seq<char>, args: Seq<Seq<char>>) -> bool {
    &&& step matches StepView::Run(invocation)
    &&& invocation.role == Role::Local
    &&& invocation.program == program
    &&& invocation.args == args
    &&& invocation.input is None
}

/// The steps of the job of every instance are two each: its line, then its program.
proof fn lemma_in_turn_at(instances: Seq<Seq<char>>, job: spec_fn(Seq<char>) -> Job)
    ensures
        in_turn(instances, job, false).len() == 2 * instances.len(),
        forall|k: int|
            0 <= k < instances.len() ==> {
                &&& in_turn(instances, job, false)[2 * k] == StepView::Print(
                    job(#[trigger] instances[k]).line,
                )
                &&& in_turn(instances, job, false)[2 * k + 1] == StepView::Run(
                    job(instances[k]).invocation,
                )
            },
    decreases instances.len(),
{
    if instances.len() > 0 {
        let shorter = instances.drop_last();
        lemma_in_turn_at(shorter, job);
        let earlier = in_turn(shorter, job, false);
        let all = in_turn(instances, job, false);
        assert forall|k: int| 0 <= k < instances.len() implies {
            &&& all[2 * k] == StepView::Print(job(#[trigger] instances[k]).line)
            &&& all[2 * k + 1] == StepView::Run(job(instances[k]).invocation)
        } by {
            if k < shorter.len() {
                assert(shorter[k] == instances[k]);
                assert(all[2 * k] == earlier[2 * k]);
                assert(all[2 * k + 1] == earlier[2 * k + 1]);
            }
        }
    }
}

/// The names of the instances.
pub proof fn law_instances()
    ensures
        Env::Ictrading.instance_names() == seq!["ictrading"@],
        Env::Ftmo.instance_names() == seq!["ftmo"@],
        Env::All.instance_names() == seq!["ictrading"@, "ftmo"@],
{
}

/// `start` announces and starts the task of each instance, one instance after the other.
pub proof fn law_start(config: ConfigView, home: Option<Seq<char>>, env: Env)
    ensures
        ({
            let plan = command_plan(config, home, CommandView::Start { env }, false);
            let instances = env.instance_names();
            &&& plan.len() == 2 * instances.len()
            &&& forall|k: int|
                0 <= k < instances.len() ==> {
                    &&& plan[2 * k] == StepView::Print("==> starting "@ + #[trigger] instances[k])
                    &&& runs_statement(
                        plan[2 * k + 1],
                        config.host,
                        "Start-ScheduledTask -TaskName '"@ + (config.task_prefix + "-"@
                            + instances[k]) + "'"@,
                    )
                }
        }),
{
    let instances = env.instance_names();
    let plan = command_plan(config, home, CommandView::Start { env }, false);
    lemma_in_turn_at(instances, start_job(config));
    assert forall|k: int| 0 <= k < instances.len() implies {
        &&& plan[2 * k] == StepView::Print("==> starting "@ + #[trigger] instances[k])
        &&& runs_statement(
            plan[2 * k + 1],
            config.host,
            "Start-ScheduledTask -TaskName '"@ + (config.task_prefix + "-"@ + instances[k]) + "'"@,
        )
    } by {
        reveal_strlit("'");
        law_ps_line_is_read_back(
            "Start-ScheduledTask -TaskName '"@ + (config.task_prefix + "-"@ + instances[k]) + "'"@,
        );
    }
}

/// `stop` with force announces and stops the task of each instance and kills the processes that
/// run with the instance's own file of settings, one instance after the other.
pub proof fn law_stop_by_force(config: ConfigView, home: Option<Seq<char>>, env: Env, grace: u32)
    ensures
        ({
            let plan = command_plan(
                config,
                home,
                CommandView::Stop { env, grace, force: true },
                false,
            );
            let instances = env.instance_names();
            &&& plan.len() == 2 * instances.len()
            &&& forall|k: int|
                0 <= k < instances.len() ==> {
                    &&& plan[2 * k] == StepView::Print(
                        "==> force-stopping "@ + #[trigger] instances[k]
                            + " immediately (no grace period — it will NOT close positions)"@,
                    )
                    &&& runs_statement(
                        plan[2 * k + 1],
                        config.host,
                        "Stop-ScheduledTask -TaskName '"@ + (config.task_prefix + "-"@
                            + instances[k])
                            + "'; Get-CimInstance Win32_Process -Filter \"Name='uv.exe'\" | Where-Object { $_.CommandLine -like '*.env."@
                            + instances[k]
                            + "*' } | ForEach-Object { Stop-Process -Id $_.ProcessId -Force -ErrorAction SilentlyContinue }"@,
                    )
                }
        }),
{
    let instances = env.instance_names();
    let plan = command_plan(config, home, CommandView::Stop { env, grace, force: true }, false);
    lemma_in_turn_at(instances, force_stop_job(config));
    assert forall|k: int| 0 <= k < instances.len() implies {
        &&& plan[2 * k] == StepView::Print(
            "==> force-stopping "@ + #[trigger] instances[k]
                + " immediately (no grace period — it will NOT close positions)"@,
        )
        &&& runs_statement(
            plan[2 * k + 1],
            config.host,
            "Stop-ScheduledTask -TaskName '"@ + (config.task_prefix + "-"@ + instances[k])
                + "'; Get-CimInstance Win32_Process -Filter \"Name='uv.exe'\" | Where-Object { $_.CommandLine -like '*.env."@
                + instances[k]
                + "*' } | ForEach-Object { Stop-Process -Id $_.ProcessId -Force -ErrorAction SilentlyContinue }"@,
        )
    } by {
        reveal_strlit(
            "*' } | ForEach-Object { Stop-Process -Id $_.ProcessId -Force -ErrorAction SilentlyContinue }",
        );
        law_ps_line_is_read_back(
            "Stop-ScheduledTask -TaskName '"@ + (config.task_prefix + "-"@ + instances[k])
                + "'; Get-CimInstance Win32_Process -Filter \"Name='uv.exe'\" | Where-Object { $_.CommandLine -like '*.env."@
                + instances[k]
                + "*' } | ForEach-Object { Stop-Process -Id $_.ProcessId -Force -ErrorAction SilentlyContinue }"@,
        );
    }
}

proof fn lemma_stop_script_is_fed(config: ConfigView, instance: Seq<char>, grace: u32)
    ensures
        feeds_stop_script(
            StepView::Run(graceful_stop_job(config, grace)(instance).invocation),
            config.host,
            instance,
            ".env."@ + instance,
            decimal(grace as nat),
            config.task_prefix + "-"@ + instance,
        ),
{
    let script = stop_script(config, instance, grace as nat);
    let seconds = decimal(grace as nat);
    let task = config.task_prefix + "-"@ + instance;
    let filter = ".env."@ + instance;
    let body = GRACEFUL_STOP_SCRIPT@;
    let before_first = "$Instance = '"@;
    let before_second = "\n$EnvFilter = '"@;
    let before_third = "\n$GraceSeconds = "@ + seconds + "\n$TaskName = '"@;
    let third = doubled(task) + "'"@ + ("\n"@ + body);
    let second = doubled(filter) + "'"@ + (before_third + third);
    let first = doubled(instance) + "'"@ + (before_second + second);
    reveal_strlit("'");
    reveal_strlit("\n");
    reveal_strlit("'\n");
    reveal_strlit("\n$GraceSeconds = ");
    reveal_strlit("'\n$GraceSeconds = ");
    reveal_strlit("\n$EnvFilter = '");
    reveal_strlit("'\n$EnvFilter = '");
    assert("'"@ + "\n"@ =~= "'\n"@);
    assert("'"@ + "\n$GraceSeconds = "@ =~= "'\n$GraceSeconds = "@);
    assert("'"@ + "\n$EnvFilter = '"@ =~= "'\n$EnvFilter = '"@);
    assert(script =~= before_first + first);
    law_literal_is_read_back(instance, before_second + second);
    law_literal_is_read_back(filter, before_third + third);
    law_literal_is_read_back(task, "\n"@ + body);
    assert(script.take(before_first.len() as int) =~= before_first);
    assert(script.skip(before_first.len() as int) =~= first);
    assert((before_second + second).take(before_second.len() as int) =~= before_second);
    assert((before_second + second).skip(before_second.len() as int) =~= second);
    assert((before_third + third).take(before_third.len() as int) =~= before_third);
    assert((before_third + third).skip(before_third.len() as int) =~= third);
}

/// `stop` without force announces and stops each instance by a script of its own, one instance
/// after the other: the script names that instance, the file of settings that its processes run
/// with, its task, and the seconds that were asked for.
pub proof fn law_stop_gracefully(config: ConfigView, home: Option<Seq<char>>, env: Env, grace: u32)
    ensures
        ({
            let plan = command_plan(
                config,
                home,
                CommandView::Stop { env, grace, force: false },
                false,
            );
            let instances = env.instance_names();
            let seconds = decimal(grace as nat);
            &&& is_decimal(seconds, grace as int)
            &&& plan.len() == 2 * instances.len()
            &&& forall|k: int|
                0 <= k < instances.len() ==> {
                    &&& plan[2 * k] == StepView::Print(
                        "==> stopping "@ + #[trigger] instances[k] + " gracefully (grace period: "@
                            + seconds + "s)"@,
                    )
                    &&& feeds_stop_script(
                        plan[2 * k + 1],
                        config.host,
                        instances[k],
                        ".env."@ + instances[k],
                        seconds,
                        config.task_prefix + "-"@ + instances[k],
                    )
                }
        }),
{
    let instances = env.instance_names();
    let plan = command_plan(config, home, CommandView::Stop { env, grace, force: false }, false);
    let seconds = decimal(grace as nat);
    law_decimal_digits(grace as nat);
    lemma_in_turn_at(instances, graceful_stop_job(config, grace));
    assert forall|k: int| 0 <= k < instances.len() implies {
        &&& plan[2 * k] == StepView::Print(
            "==> stopping "@ + #[trigger] instances[k] + " gracefully (grace period: "@ + seconds
                + "s)"@,
        )
        &&& feeds_stop_script(
            plan[2 * k + 1],
            config.host,
            instances[k],
            ".env."@ + instances[k],
            seconds,
            config.task_prefix + "-"@ + instances[k],
        )
    } by {
        lemma_stop_script_is_fed(config, instances[k], grace);
    }
}

/// `restart` first stops each instance gracefully, as `stop` does, by a script that names that
/// instance, its file of settings, its task and the seconds that were asked for, then starts the
/// task of each.
pub proof fn law_restart(config: ConfigView, home: Option<Seq<char>>, env: Env, grace: u32)
    ensures
        ({
            let plan = command_plan(config, home, CommandView::Restart { env, grace }, false);
            let instances = env.instance_names();
            let n = instances.len() as int;
            let seconds = decimal(grace as nat);
            &&& is_decimal(seconds, grace as int)
            &&& plan.len() == 4 * n
            &&& forall|k: int|
                0 <= k < n ==> {
                    &&& plan[2 * k] == StepView::Print(
                        "==> stopping "@ + #[trigger] instances[k] + " gracefully (grace period: "@
                            + seconds + "s)"@,
                    )
                    &&& feeds_stop_script(
                        plan[2 * k + 1],
                        config.host,
                        instances[k],
                        ".env."@ + instances[k],
                        seconds,
                        config.task_prefix + "-"@ + instances[k],
                    )
                    &&& plan[2 * n + 2 * k] == StepView::Print("==> starting "@ + instances[k])
                    &&& runs_statement(
                        plan[2 * n + 2 * k + 1],
                        config.host,
                        "Start-ScheduledTask -TaskName '"@ + (config.task_prefix + "-"@
                            + instances[k]) + "'"@,
                    )
                }
        }),
{
    let instances = env.instance_names();
    let n = instances.len() as int;
    let stop = command_plan(config, home, CommandView::Stop { env, grace, force: false }, false);
    let start = command_plan(config, home, CommandView::Start { env }, false);
    let plan = command_plan(config, home, CommandView::Restart { env, grace }, false);
    law_stop_gracefully(config, home, env, grace);
    law_start(config, home, env);
    assert(plan =~= stop + start);
    assert forall|j: int| 0 <= j < 2 * n implies plan[j] == stop[j] && plan[2 * n + j]
        == start[j] by {}
}

/// `status` asks for the tasks of both instances and for the processes, in one command.
pub proof fn law_status(config: ConfigView, home: Option<Seq<char>>)
    ensures
        ({
            let plan = command_plan(config, home, CommandView::Status, false);
            &&& plan.len() == 1
            &&& runs_statement(
                plan[0],
                config.host,
                "Get-ScheduledTaskInfo -TaskName '"@ + (config.task_prefix + "-"@ + "ictrading"@)
                    + "'"@ + "; "@ + ("Get-ScheduledTaskInfo -TaskName '"@ + (config.task_prefix
                    + "-"@ + "ftmo"@) + "'"@) + "; "@
                    + "Get-Process uv -ErrorAction SilentlyContinue | Select-Object Id, StartTime"@,
            )
        }),
{
    let one = "Get-ScheduledTaskInfo -TaskName '"@ + (config.task_prefix + "-"@ + "ictrading"@)
        + "'"@;
    let two = "Get-ScheduledTaskInfo -TaskName '"@ + (config.task_prefix + "-"@ + "ftmo"@) + "'"@;
    let three = "Get-Process uv -ErrorAction SilentlyContinue | Select-Object Id, StartTime"@;
    let parts = seq![one, two, three];
    let sep = "; "@;
    law_joined_one(one, sep);
    law_joined_one(two, sep);
    law_joined_one(three, sep);
    law_joined_concat(seq![one], seq![two], sep);
    law_joined_concat(seq![one] + seq![two], seq![three], sep);
    assert(parts =~= seq![one] + seq![two] + seq![three]);
    assert(status_command(config) == one + sep + two + sep + three);
    reveal_strlit("Get-Process uv -ErrorAction SilentlyContinue | Select-Object Id, StartTime");
    law_ps_line_is_read_back(status_command(config));
}

/// `kill` kills the processes of both instances.
pub proof fn law_kill(config: ConfigView, home: Option<Seq<char>>)
    ensures
        ({
            let plan = command_plan(config, home, CommandView::Kill, false);
            &&& plan.len() == 1
            &&& runs_statement(
                plan[0],
                config.host,
                "Get-Process uv -ErrorAction SilentlyContinue | Stop-Process -Force"@,
            )
        }),
{
    reveal_strlit("Get-Process uv -ErrorAction SilentlyContinue | Stop-Process -Force");
    law_ps_line_is_read_back(kill_command());
}

/// `logs tail` of one instance announces and follows the log of that instance, from as many last
/// lines on as were asked for.
pub proof fn law_logs_tail(
    config: ConfigView,
    home: Option<Seq<char>>,
    env: Env,
    instance: Seq<char>,
    lines: u32,
)
    requires
        env.instance_names() == seq![instance],
    ensures
        ({
            let plan = command_plan(config, home, CommandView::Tail { env, lines }, false);
            let number = decimal(lines as nat);
            &&& is_decimal(number, lines as int)
            &&& plan.len() == 2
            &&& plan[0] == StepView::Print(
                "==> tailing "@ + instance + " (Ctrl+C to stop; the task keeps running)"@,
            )
            &&& runs_statement(
                plan[1],
                config.host,
                "Get-Content '"@ + (config.remote_project + r"\logs\"@ + instance + ".log"@)
                    + "' -Wait -Tail "@ + number,
            )
        }),
{
    let number = decimal(lines as nat);
    law_decimal_digits(lines as nat);
    assert(env.instance_names()[0] == instance);
    assert(env != Env::All) by {
        assert(env.instance_names().len() == 1);
    }
    let statement = "Get-Content '"@ + (config.remote_project + r"\logs\"@ + instance + ".log"@)
        + "' -Wait -Tail "@ + number;
    assert(statement.last() == number[number.len() - 1]);
    law_ps_line_is_read_back(statement);
}

/// `logs tail` of both instances is refused, and nothing else is.
pub proof fn law_only_tail_of_both_is_refused(command: CommandView)
    ensures
        refused(command) <==> exists|lines: u32|
            command == (CommandView::Tail { env: Env::All, lines }),
{
    if refused(command) {
        assert(command == (CommandView::Tail { env: Env::All, lines: command->Tail_lines }));
    }
}

/// `logs pull` by scp creates the local directory, then announces and copies the log of each
/// instance from the project's directory on the remote machine into it.
pub proof fn law_pull_by_scp(
    config: ConfigView,
    home: Option<Seq<char>>,
    env: Env,
    dest: Seq<char>,
)
    ensures
        ({
            let plan = command_plan(
                config,
                home,
                CommandView::Pull { env, dest, rsync: false },
                false,
            );
            let instances = env.instance_names();
            let dir = home_expanded(dest, home);
            let project = slashed(config.remote_project);
            &&& is_slashed(project, config.remote_project)
            &&& plan.len() == 1 + 2 * instances.len()
            &&& plan[0] == StepView::CreateDir(dir)
            &&& forall|k: int|
                0 <= k < instances.len() ==> {
                    &&& plan[1 + 2 * k] == StepView::Print(
                        "==> scp "@ + #[trigger] instances[k] + ".log -> "@ + dir,
                    )
                    &&& runs_local(
                        plan[2 + 2 * k],
                        "scp"@,
                        seq![
                            config.host + ":"@ + project + "/logs/"@ + instances[k] + ".log"@,
                            dir + "/"@,
                        ],
                    )
                }
        }),
{
    let plan = command_plan(config, home, CommandView::Pull { env, dest, rsync: false }, false);
    let instances = env.instance_names();
    let dir = home_expanded(dest, home);
    let copies = in_turn(instances, copy_job(config, dir), false);
    law_slashed(config.remote_project);
    lemma_in_turn_at(instances, copy_job(config, dir));
    assert(plan =~= seq![StepView::CreateDir(dir)] + copies);
    assert forall|j: int| 0 <= j < copies.len() implies plan[1 + j] == copies[j] by {}
}

/// `logs pull` by rsync creates the local directory, then announces and brings the whole directory
/// of logs of the project on the remote machine into it.
pub proof fn law_pull_by_rsync(
    config: ConfigView,
    home: Option<Seq<char>>,
    env: Env,
    dest: Seq<char>,
)
    ensures
        ({
            let plan = command_plan(
                config,
                home,
                CommandView::Pull { env, dest, rsync: true },
                false,
            );
            let dir = home_expanded(dest, home);
            let project = slashed(config.remote_project);
            &&& is_slashed(project, config.remote_project)
            &&& plan.len() == 3
            &&& plan[0] == StepView::CreateDir(dir)
            &&& plan[1] == StepView::Print("==> rsync logs -> "@ + dir)
            &&& runs_local(
                plan[2],
                "rsync"@,
                seq!["-avz"@, config.host + ":"@ + project + "/logs/"@, dir + "/"@],
            )
        }),
{
    law_slashed(config.remote_project);
}

/// `shell` runs ssh with the host as its only argument, at the user's own terminal.
pub proof fn law_shell(config: ConfigView, home: Option<Seq<char>>)
    ensures
        command_plan(config, home, CommandView::Shell, false) == seq![
            StepView::Run(
                InvocationView {
                    role: Role::Shell,
                    program: "ssh"@,
                    args: seq![config.host],
                    input: None,
                },
            ),
        ],
{
}

/// The steps of each command are the steps that its own function lists.
pub proof fn law_commands_are_their_functions(
    config: ConfigView,
    home: Option<Seq<char>>,
    env: Env,
    grace: u32,
    force: bool,
    lines: u32,
    dest: Seq<char>,
    rsync: bool,
    dry_run: bool,
)
    ensures
        start_plan(config, env, dry_run) == command_plan(
            config,
            home,
            CommandView::Start { env },
            dry_run,
        ),
        stop_plan(config, env, grace, force, dry_run) == command_plan(
            config,
            home,
            CommandView::Stop { env, grace, force },
            dry_run,
        ),
        restart_plan(config, env, grace, dry_run) == command_plan(
            config,
            home,
            CommandView::Restart { env, grace },
            dry_run,
        ),
        status_plan(config, dry_run) == command_plan(config, home, CommandView::Status, dry_run),
        kill_plan(config, dry_run) == command_plan(config, home, CommandView::Kill, dry_run),
        env != Env::All ==> tail_plan(config, env.instance_names()[0], lines, dry_run)
            == command_plan(config, home, CommandView::Tail { env, lines }, dry_run),
        pull_plan(config, env, home_expanded(dest, home), rsync, dry_run) == command_plan(
            config,
            home,
            CommandView::Pull { env, dest, rsync },
            dry_run,
        ),
        shell_plan(config, dry_run) == command_plan(config, home, CommandView::Shell, dry_run),
{
}

/// The steps of an invocation: outside a dry run the program is run as it is; in a dry run its
/// command line is printed, or, of a script, the here-document.
pub proof fn law_run_or_show(invocation: InvocationView)
    ensures
        run_or_show(invocation, false) == seq![StepView::Run(invocation)],
        invocation.role != Role::Script ==> run_or_show(invocation, true) == seq![
            StepView::Print(
                "[dry-run] "@ + (invocation.program + " "@ + joined(invocation.args, " "@)),
            ),
        ],
        invocation.role == Role::Script && invocation.args.len() == 2 ==> (
        invocation.input matches Some(script) ==> run_or_show(invocation, true) == seq![
            StepView::Print(
                "[dry-run] "@ + invocation.program + " "@ + invocation.args[0] + " -- "@
                    + invocation.args[1] + " <<'PS1'"@,
            ),
            StepView::Print(script),
            StepView::Print("PS1"@),
        ]),
{
    if invocation.role != Role::Script {
        assert(run_or_show(invocation, true) =~= seq![
            StepView::Print(
                "[dry-run] "@ + (invocation.program + " "@ + joined(invocation.args, " "@)),
            ),
        ]);
    } else if invocation.input is Some {
        assert(run_or_show(invocation, true) =~= seq![
            StepView::Print(
                "[dry-run] "@ + invocation.program + " "@ + invocation.args[0] + " -- "@
                    + invocation.args[1] + " <<'PS1'"@,
            ),
            StepView::Print(invocation.input->Some_0),
            StepView::Print("PS1"@),
        ]);
    }
}

/// The program, the arguments and the standard input by which each kind of work is done.
pub proof fn law_invocations(
    host: Seq<char>,
    text: Seq<char>,
    program: Seq<char>,
    args: Seq<Seq<char>>,
)
    ensures
        remote_command(host, text) == (InvocationView {
            role: Role::Command,
            program: "ssh"@,
            args: seq!["-t"@, host, text],
            input: None,
        }),
        remote_script(host, text) == (InvocationView {
            role: Role::Script,
            program: "ssh"@,
            args: seq![host, "powershell -NoProfile -Command -"@],
            input: Some(text),
        }),
        local_program(program, args) == (InvocationView {
            role: Role::Local,
            program,
            args,
            input: None,
        }),
        remote_shell(host) == (InvocationView {
            role: Role::Shell,
            program: "ssh"@,
            args: seq![host],
            input: None,
        }),
{
}

/// The line that `ps` writes, part by part: every double quote gets a backtick, every other
/// character stays, and the whole stands between double quotes behind the call of PowerShell.
pub proof fn law_ps_line(a: Seq<char>, b: Seq<char>, c: char)
    ensures
        ps_line(a) == "powershell -NoProfile -Command \""@ + escaped(a) + "\""@,
        escaped(a + b) == escaped(a) + escaped(b),
        escaped(seq!['"']) == seq!['`', '"'],
        escaped(Seq::empty()) == Seq::<char>::empty(),
        c != '"' ==> escaped(seq![c]) == seq![c],
        doubled(a + b) == doubled(a) + doubled(b),
        doubled(seq!['\'']) == seq!['\'', '\''],
        doubled(Seq::empty()) == Seq::<char>::empty(),
        c != '\'' ==> doubled(seq![c]) == seq![c],
{
    reveal_strlit("`\"");
    reveal_strlit("''");
    law_replaced_concat(a, b, '"', "`\""@);
    law_replaced_concat(a, b, '\'', "''"@);
    law_replaced_one(c, '"', "`\""@);
    law_replaced_one(c, '\'', "''"@);
    assert("`\""@ =~= seq!['`', '"']);
    assert("''"@ =~= seq!['\'', '\'']);
}

/// The script of a graceful stop is its assignments and the fixed text.
pub proof fn law_stop_script(config: ConfigView, instance: Seq<char>, grace: u32)
    ensures
        is_decimal(decimal(grace as nat), grace as int),
        feeds_stop_script(
            StepView::Run(
                InvocationView {
                    role: Role::Script,
                    program: "ssh"@,
                    args: seq![config.host, "powershell -NoProfile -Command -"@],
                    input: Some(stop_script(config, instance, grace as nat)),
                },
            ),
            config.host,
            instance,
            ".env."@ + instance,
            decimal(grace as nat),
            config.task_prefix + "-"@ + instance,
        ),
{
    law_decimal_digits(grace as nat);
    lemma_stop_script_is_fed(config, instance, grace);
}

/// The fixed text of a graceful stop, to the letter: it finds the process of the instance, sends it
/// what Ctrl+C sends, waits for its end up to the grace period, and kills it only after that.
pub proof fn law_text_of_a_graceful_stop()
    ensures
        GRACEFUL_STOP_SCRIPT@ == r#"
$ErrorActionPreference = 'Stop'

$proc = Get-CimInstance Win32_Process -Filter "Name='uv.exe'" |
    Where-Object { $_.CommandLine -like "*$EnvFilter*" } |
    Select-Object -First 1

if (-not $proc) {
    Write-Host "[$Instance] no running uv.exe process found (already stopped?)"
    Stop-ScheduledTask -TaskName $TaskName -ErrorAction SilentlyContinue
    exit 0
}

$targetPid = $proc.ProcessId
Write-Host "[$Instance] PID $targetPid -- sending graceful stop signal (same as Ctrl+C)"

Add-Type -Name NexusCtrlC -Namespace NexusCtl -MemberDefinition @"
[System.Runtime.InteropServices.DllImport("kernel32.dll", SetLastError = true)]
public static extern bool AttachConsole(uint dwProcessId);
[System.Runtime.InteropServices.DllImport("kernel32.dll", SetLastError = true)]
public static extern bool FreeConsole();
[System.Runtime.InteropServices.DllImport("kernel32.dll")]
public static extern bool SetConsoleCtrlHandler(IntPtr HandlerRoutine, bool Add);
[System.Runtime.InteropServices.DllImport("kernel32.dll")]
public static extern bool GenerateConsoleCtrlEvent(uint dwCtrlEvent, uint dwProcessGroupId);
"@

[NexusCtl.NexusCtrlC]::FreeConsole() | Out-Null
[NexusCtl.NexusCtrlC]::AttachConsole([uint32]$targetPid) | Out-Null
[NexusCtl.NexusCtrlC]::SetConsoleCtrlHandler([IntPtr]::Zero, $true) | Out-Null
[NexusCtl.NexusCtrlC]::GenerateConsoleCtrlEvent(0, 0) | Out-Null
Start-Sleep -Milliseconds 500
[NexusCtl.NexusCtrlC]::FreeConsole() | Out-Null

Write-Host "[$Instance] waiting up to $GraceSeconds second(s) for a clean shutdown..."
$deadline = (Get-Date).AddSeconds($GraceSeconds)
while ((Get-Date) -lt $deadline) {
    if (-not (Get-Process -Id $targetPid -ErrorAction SilentlyContinue)) {
        Write-Host "[$Instance] exited cleanly."
        Stop-ScheduledTask -TaskName $TaskName -ErrorAction SilentlyContinue
        exit 0
    }
    Start-Sleep -Seconds 2
}

Write-Host "[$Instance] WARNING: still running after $GraceSeconds second(s) -- force-killing now."
Write-Host "[$Instance] WARNING: it did not get to run its own shutdown logic -- verify open positions manually."
Stop-Process -Id $targetPid -Force -ErrorAction SilentlyContinue
Stop-ScheduledTask -TaskName $TaskName -ErrorAction SilentlyContinue
"#@,
{
}

/// Commands are seen with the arguments that the user gave.
pub proof fn law_commands_are_seen_as_they_are(
    env: Env,
    grace: u32,
    force: bool,
    lines: u32,
    dest: String,
    rsync: bool,
    list: Seq<&'static str>,
)
    ensures
        (Commands::Start { env })@ == (CommandView::Start { env }),
        (Commands::Stop { env, grace, force })@ == (CommandView::Stop { env, grace, force }),
        (Commands::Restart { env, grace })@ == (CommandView::Restart { env, grace }),
        Commands::Status@ == CommandView::Status,
        Commands::Kill@ == CommandView::Kill,
        (Commands::Logs { action: LogsAction::Tail { env, lines } })@ == (CommandView::Tail {
            env,
            lines,
        }),
        (Commands::Logs { action: LogsAction::Pull { env, dest, rsync } })@ == (
        CommandView::Pull { env, dest: dest@, rsync }),
        Commands::Shell@ == CommandView::Shell,
        names(list).len() == list.len(),
        forall|i: int| 0 <= i < list.len() ==> #[trigger] names(list)[i] == list[i]@,
{
}

/// Steps are seen as they are: what is printed, what is created, and of a program its role, its
/// name, every argument in its place, and its standard input.
pub proof fn law_steps_are_seen_as_they_are(
    steps: Seq<Step>,
    text: String,
    invocation: Invocation,
)
    ensures
        Step::Print(text)@ == StepView::Print(text@),
        Step::CreateDir(text)@ == StepView::CreateDir(text@),
        Step::Run(invocation)@ == StepView::Run(invocation@),
        invocation@.role == invocation.role,
        invocation@.program == invocation.program@,
        invocation@.args.len() == invocation.args@.len(),
        forall|i: int|
            0 <= i < invocation.args@.len() ==> #[trigger] invocation@.args[i]
                == invocation.args@[i]@,
        invocation.input is None ==> invocation@.input is None,
        invocation.input matches Some(input) ==> invocation@.input == Some(input@),
        plan_of(steps).len() == steps.len(),
        forall|i: int| 0 <= i < steps.len() ==> #[trigger] plan_of(steps)[i] == steps[i]@,
{
}

} // verus!
