//! What holds of the commands as a whole, and of their runs.
use crate::cli::{CommandView, Env};
use crate::commands::{
    command_plan, copy_job, in_turn, kill_command, kill_plan, pull_plan, refused, remote_logs,
    restart_plan, shell_plan, start_job, start_plan, status_command, status_plan, stop_job,
    stop_plan, sync_job, tail_job, Job,
};
use crate::config::{home_expanded, ConfigView};
use crate::powershell::{
    force_stop_statement, law_ps_line_is_read_back, ps_line, quotes_command, start_statement,
    tail_statement,
};
use crate::session::{tells_failure, verdict, OutcomeView, Report, SessionView};
use crate::step::{command_line, run_or_show, InvocationView, Role, StepView};
use crate::text::joined;
use vstd::prelude::*;

verus! {

/// What a dry run has in the place of a step: a text is printed all the same, a directory is not
/// created, and a program is shown.
pub open spec fn shown(step: StepView) -> Seq<StepView> {
    match step {
        StepView::Print(_) => seq![step],
        StepView::CreateDir(_) => Seq::empty(),
        StepView::Run(invocation) => run_or_show(invocation, true),
    }
}

/// What a dry run has in the place of a list of steps.
pub open spec fn all_shown(steps: Seq<StepView>) -> Seq<StepView>
    decreases steps.len(),
{
    if steps.len() == 0 {
        Seq::empty()
    } else {
        all_shown(steps.drop_last()) + shown(steps.last())
    }
}

proof fn lemma_all_shown_concat(a: Seq<StepView>, b: Seq<StepView>)
    ensures
        all_shown(a + b) == all_shown(a) + all_shown(b),
    decreases b.len(),
{
    if b.len() == 0 {
        assert(a + b =~= a);
    } else {
        lemma_all_shown_concat(a, b.drop_last());
        assert((a + b).drop_last() =~= a + b.drop_last());
    }
    assert(all_shown(a + b) =~= all_shown(a) + all_shown(b));
}

proof fn lemma_all_shown_one(step: StepView)
    ensures
        all_shown(seq![step]) == shown(step),
{
    assert(all_shown(seq![step].drop_last()) =~= Seq::empty());
    assert(all_shown(seq![step]) =~= shown(step));
}

proof fn lemma_job_shown(job: Job)
    ensures
        all_shown(job.steps(false)) == job.steps(true),
{
    lemma_all_shown_concat(seq![StepView::Print(job.line)], run_or_show(job.invocation, false));
    lemma_all_shown_one(StepView::Print(job.line));
    lemma_all_shown_one(StepView::Run(job.invocation));
}

proof fn lemma_in_turn_shown(instances: Seq<Seq<char>>, job: spec_fn(Seq<char>) -> Job)
    ensures
        all_shown(in_turn(instances, job, false)) == in_turn(instances, job, true),
    decreases instances.len(),
{
    if instances.len() > 0 {
        let earlier = in_turn(instances.drop_last(), job, false);
        lemma_in_turn_shown(instances.drop_last(), job);
        lemma_job_shown(job(instances.last()));
        lemma_all_shown_concat(earlier, job(instances.last()).steps(false));
    }
}

/// A dry run goes through the steps of the command in their order and prints, for each program
/// that would be run, the lines that show it.
pub proof fn law_dry_run_shows_the_steps(
    config: ConfigView,
    home: Option<Seq<char>>,
    command: CommandView,
)
    ensures
        command_plan(config, home, command, true) == all_shown(
            command_plan(config, home, command, false),
        ),
{
    match command {
        CommandView::Start { env } => {
            lemma_in_turn_shown(env.instance_names(), start_job(config));
        },
        CommandView::Stop { env, grace, force } => {
            lemma_in_turn_shown(env.instance_names(), stop_job(config, grace, force));
        },
        CommandView::Restart { env, grace } => {
            lemma_in_turn_shown(env.instance_names(), start_job(config));
            lemma_in_turn_shown(env.instance_names(), stop_job(config, grace, false));
            lemma_all_shown_concat(
                stop_plan(config, env, grace, false, false),
                start_plan(config, env, false),
            );
        },
        CommandView::Status => {
            lemma_all_shown_one(status_plan(config, false)[0]);
        },
        CommandView::Kill => {
            lemma_all_shown_one(kill_plan(config, false)[0]);
        },
        CommandView::Tail { env, lines } => {
            lemma_job_shown(tail_job(config, env.instance_names()[0], lines));
        },
        CommandView::Pull { env, dest, rsync } => {
            let dir = home_expanded(dest, home);
            let copies = if rsync {
                sync_job(config, dir).steps(false)
            } else {
                in_turn(env.instance_names(), copy_job(config, dir), false)
            };
            lemma_job_shown(sync_job(config, dir));
            lemma_in_turn_shown(env.instance_names(), copy_job(config, dir));
            lemma_all_shown_one(StepView::CreateDir(dir));
            lemma_all_shown_concat(seq![StepView::CreateDir(dir)], copies);
        },
        CommandView::Shell => {
            lemma_all_shown_one(shell_plan(config, false)[0]);
        },
    }
}

proof fn lemma_all_shown_prints(steps: Seq<StepView>)
    ensures
        forall|k: int| 0 <= k < all_shown(steps).len() ==> (#[trigger] all_shown(steps)[k]) is Print,
    decreases steps.len(),
{
    if steps.len() > 0 {
        lemma_all_shown_prints(steps.drop_last());
        let earlier = all_shown(steps.drop_last());
        assert forall|k: int| 0 <= k < all_shown(steps).len() implies (#[trigger] all_shown(
            steps,
        )[k]) is Print by {
            if k < earlier.len() {
                assert(all_shown(steps)[k] == earlier[k]);
            } else {
                assert(all_shown(steps)[k] == shown(steps.last())[k - earlier.len()]);
            }
        }
    }
}

/// A dry run only prints: it runs no program and creates no directory.
pub proof fn law_dry_run_only_prints(
    config: ConfigView,
    home: Option<Seq<char>>,
    command: CommandView,
)
    ensures
        forall|k: int|
            0 <= k < command_plan(config, home, command, true).len() ==> (#[trigger] command_plan(
                config,
                home,
                command,
                true,
            )[k]) is Print,
{
    law_dry_run_shows_the_steps(config, home, command);
    lemma_all_shown_prints(command_plan(config, home, command, false));
}

/// Whether every program that `steps` run satisfies `p`.
pub open spec fn all_runs(steps: Seq<StepView>, p: spec_fn(InvocationView) -> bool) -> bool {
    forall|k: int|
        0 <= k < steps.len() && (#[trigger] steps[k]) is Run ==> p(steps[k]->Run_0)
}

proof fn lemma_all_runs_concat(
    a: Seq<StepView>,
    b: Seq<StepView>,
    p: spec_fn(InvocationView) -> bool,
)
    requires
        all_runs(a, p),
        all_runs(b, p),
    ensures
        all_runs(a + b, p),
{
    assert forall|k: int|
        0 <= k < (a + b).len() && (#[trigger] (a + b)[k]) is Run implies p((a + b)[k]->Run_0) by {
        if k < a.len() {
            assert((a + b)[k] == a[k]);
        } else {
            assert((a + b)[k] == b[k - a.len()]);
        }
    }
}

proof fn lemma_all_runs_in_turn(
    instances: Seq<Seq<char>>,
    job: spec_fn(Seq<char>) -> Job,
    p: spec_fn(InvocationView) -> bool,
)
    requires
        forall|instance: Seq<char>| p((#[trigger] job(instance)).invocation),
    ensures
        all_runs(in_turn(instances, job, false), p),
    decreases instances.len(),
{
    if instances.len() > 0 {
        lemma_all_runs_in_turn(instances.drop_last(), job, p);
        lemma_all_runs_concat(
            in_turn(instances.drop_last(), job, false),
            job(instances.last()).steps(false),
            p,
        );
    }
}

/// Whether a program reaches the remote machine of `config`, in the form that its role has.
pub open spec fn aimed(config: ConfigView, invocation: InvocationView) -> bool {
    let args = invocation.args;
    match invocation.role {
        Role::Command => {
            &&& invocation.program == "ssh"@
            &&& args.len() == 3
            &&& args[0] == "-t"@
            &&& args[1] == config.host
            &&& invocation.input is None
        },
        Role::Script => {
            &&& invocation.program == "ssh"@
            &&& args == seq![config.host, "powershell -NoProfile -Command -"@]
            &&& invocation.input is Some
        },
        Role::Local => {
            &&& invocation.program == "scp"@ || invocation.program == "rsync"@
            &&& args.len() >= 2
            &&& remote_logs(config).is_prefix_of(args[args.len() - 2])
            &&& invocation.input is None
        },
        Role::Shell => {
            &&& invocation.program == "ssh"@
            &&& args == seq![config.host]
            &&& invocation.input is None
        },
    }
}

/// Every program that a command runs reaches the remote machine of the settings.
pub proof fn law_every_program_is_aimed(
    config: ConfigView,
    home: Option<Seq<char>>,
    command: CommandView,
)
    ensures
        all_runs(
            command_plan(config, home, command, false),
            |invocation: InvocationView| aimed(config, invocation),
        ),
{
    let p = |invocation: InvocationView| aimed(config, invocation);
    match command {
        CommandView::Start { env } => {
            lemma_all_runs_in_turn(env.instance_names(), start_job(config), p);
        },
        CommandView::Stop { env, grace, force } => {
            lemma_all_runs_in_turn(env.instance_names(), stop_job(config, grace, force), p);
        },
        CommandView::Restart { env, grace } => {
            lemma_all_runs_in_turn(env.instance_names(), start_job(config), p);
            lemma_all_runs_in_turn(env.instance_names(), stop_job(config, grace, false), p);
            lemma_all_runs_concat(
                stop_plan(config, env, grace, false, false),
                start_plan(config, env, false),
                p,
            );
        },
        CommandView::Pull { env, dest, rsync } => {
            let dir = home_expanded(dest, home);
            if rsync {
                assert(p(sync_job(config, dir).invocation));
            } else {
                lemma_all_runs_in_turn(env.instance_names(), copy_job(config, dir), p);
                lemma_all_runs_concat(
                    seq![StepView::CreateDir(dir)],
                    in_turn(env.instance_names(), copy_job(config, dir), false),
                    p,
                );
            }
        },
        _ => {},
    }
}

/// Whether a dry run shows a program as it would be run: its command line, and nothing but that; a
/// script as a here-document behind ssh's host, a separator and the remote command.
pub open spec fn shown_in_full(invocation: InvocationView) -> bool {
    let args = invocation.args;
    let start = "[dry-run] "@ + invocation.program + " "@;
    match invocation.role {
        Role::Command | Role::Local | Role::Shell => {
            &&& invocation.input is None
            &&& shown(StepView::Run(invocation)) == seq![
                StepView::Print("[dry-run] "@ + invocation.program + " "@ + joined(args, " "@)),
            ]
        },
        Role::Script => {
            &&& args.len() == 2
            &&& invocation.input matches Some(script) && shown(StepView::Run(invocation)) == seq![
                StepView::Print(start + args[0] + " -- "@ + args[1] + " <<'PS1'"@),
                StepView::Print(script),
                StepView::Print("PS1"@),
            ]
        },
    }
}

proof fn lemma_aimed_is_shown_in_full(config: ConfigView, invocation: InvocationView)
    requires
        aimed(config, invocation),
    ensures
        shown_in_full(invocation),
{
    let args = invocation.args;
    let steps = shown(StepView::Run(invocation));
    match invocation.role {
        Role::Script => {
            let start = "[dry-run] "@ + invocation.program + " "@;
            assert(steps =~= seq![
                StepView::Print(start + args[0] + " -- "@ + args[1] + " <<'PS1'"@),
                StepView::Print(invocation.input->Some_0),
                StepView::Print("PS1"@),
            ]);
        },
        _ => {
            let line = "[dry-run] "@ + invocation.program + " "@ + joined(args, " "@);
            assert(line =~= "[dry-run] "@ + command_line(invocation));
            assert(steps =~= seq![StepView::Print(line)]);
        },
    }
}

/// What a dry run prints in the place of a program is the exact command that would run: the
/// program's name and all its arguments, in order, letter for letter. A script is shown as a
/// here-document instead: ssh, the host, a separating ` -- ` that is no argument of the program,
/// the remote command and the mark `<<'PS1'`, then the script that would be written to it, and the
/// closing mark.
pub proof fn law_dry_run_shows_programs_in_full(
    config: ConfigView,
    home: Option<Seq<char>>,
    command: CommandView,
)
    ensures
        all_runs(
            command_plan(config, home, command, false),
            |invocation: InvocationView| shown_in_full(invocation),
        ),
{
    law_every_program_is_aimed(config, home, command);
    let steps = command_plan(config, home, command, false);
    let p = |invocation: InvocationView| aimed(config, invocation);
    assert forall|k: int| 0 <= k < steps.len() && (#[trigger] steps[k]) is Run implies shown_in_full(
        steps[k]->Run_0,
    ) by {
        assert(p(steps[k]->Run_0));
        lemma_aimed_is_shown_in_full(config, steps[k]->Run_0);
    }
}

/// The PowerShell commands that a command of the tool runs on the remote machine one by one, in
/// order. A graceful stop runs a script instead.
pub open spec fn remote_statements(config: ConfigView, command: CommandView) -> Seq<Seq<char>> {
    match command {
        CommandView::Start { env } | CommandView::Restart { env, .. } =>
            env.instance_names().map_values(
                |instance: Seq<char>| start_statement(config.task_of(instance)),
            ),
        CommandView::Stop { env, force: true, .. } => env.instance_names().map_values(
            |instance: Seq<char>| force_stop_statement(config.task_of(instance), instance),
        ),
        CommandView::Status => seq![status_command(config)],
        CommandView::Kill => seq![kill_command()],
        CommandView::Tail { env, lines } => if env == Env::All {
            Seq::empty()
        } else {
            seq![tail_statement(config.log_of(env.instance_names()[0]), lines as nat)]
        },
        _ => Seq::empty(),
    }
}

/// The last arguments of the programs that run one command on the remote machine, in order: the
/// lines that ssh hands on.
pub open spec fn remote_lines(steps: Seq<StepView>) -> Seq<Seq<char>>
    decreases steps.len(),
{
    if steps.len() == 0 {
        Seq::empty()
    } else {
        let earlier = remote_lines(steps.drop_last());
        match steps.last() {
            StepView::Run(invocation) if invocation.role == Role::Command => earlier.push(
                invocation.args.last(),
            ),
            _ => earlier,
        }
    }
}

proof fn lemma_remote_lines_concat(a: Seq<StepView>, b: Seq<StepView>)
    ensures
        remote_lines(a + b) == remote_lines(a) + remote_lines(b),
    decreases b.len(),
{
    if b.len() == 0 {
        assert(a + b =~= a);
    } else {
        lemma_remote_lines_concat(a, b.drop_last());
        assert((a + b).drop_last() =~= a + b.drop_last());
    }
    assert(remote_lines(a + b) =~= remote_lines(a) + remote_lines(b));
}

proof fn lemma_remote_lines_one(step: StepView)
    ensures
        remote_lines(seq![step]) == (match step {
            StepView::Run(invocation) if invocation.role == Role::Command => seq![
                invocation.args.last(),
            ],
            _ => Seq::empty(),
        }),
{
    assert(remote_lines(seq![step].drop_last()) =~= Seq::empty());
    assert(remote_lines(seq![step]) =~= match step {
        StepView::Run(invocation) if invocation.role == Role::Command => seq![
            invocation.args.last(),
        ],
        _ => Seq::empty(),
    });
}

proof fn lemma_remote_lines_job(job: Job)
    ensures
        remote_lines(job.steps(false)) == (if job.invocation.role == Role::Command {
            seq![job.invocation.args.last()]
        } else {
            Seq::empty()
        }),
{
    lemma_remote_lines_concat(seq![StepView::Print(job.line)], run_or_show(job.invocation, false));
    lemma_remote_lines_one(StepView::Print(job.line));
    lemma_remote_lines_one(StepView::Run(job.invocation));
    assert(remote_lines(job.steps(false)) =~= if job.invocation.role == Role::Command {
        seq![job.invocation.args.last()]
    } else {
        Seq::empty()
    });
}

proof fn lemma_remote_lines_in_turn(instances: Seq<Seq<char>>, job: spec_fn(Seq<char>) -> Job)
    ensures
        (forall|instance: Seq<char>| (#[trigger] job(instance)).invocation.role == Role::Command)
            ==> remote_lines(in_turn(instances, job, false)) == instances.map_values(
            |instance: Seq<char>| job(instance).invocation.args.last(),
        ),
        (forall|instance: Seq<char>| (#[trigger] job(instance)).invocation.role != Role::Command)
            ==> remote_lines(in_turn(instances, job, false)) == Seq::<Seq<char>>::empty(),
    decreases instances.len(),
{
    let lines = remote_lines(in_turn(instances, job, false));
    let last_args = instances.map_values(
        |instance: Seq<char>| job(instance).invocation.args.last(),
    );
    if instances.len() > 0 {
        let earlier = in_turn(instances.drop_last(), job, false);
        lemma_remote_lines_in_turn(instances.drop_last(), job);
        lemma_remote_lines_job(job(instances.last()));
        lemma_remote_lines_concat(earlier, job(instances.last()).steps(false));
        if job(instances.last()).invocation.role == Role::Command {
            assert(lines =~= remote_lines(earlier).push(last_args.last()));
        } else {
            assert(lines =~= remote_lines(earlier));
        }
    }
    if forall|instance: Seq<char>| (#[trigger] job(instance)).invocation.role == Role::Command {
        assert(lines =~= last_args);
    }
    if forall|instance: Seq<char>| (#[trigger] job(instance)).invocation.role != Role::Command {
        assert(lines =~= Seq::empty());
    }
}

/// The lines that ssh hands on are those that `ps` writes for the command's statements.
proof fn lemma_remote_lines_of_command(
    config: ConfigView,
    home: Option<Seq<char>>,
    command: CommandView,
)
    ensures
        remote_lines(command_plan(config, home, command, false)) == remote_statements(
            config,
            command,
        ).map_values(|statement: Seq<char>| ps_line(statement)),
{
    let lines = remote_lines(command_plan(config, home, command, false));
    let expected = remote_statements(config, command).map_values(
        |statement: Seq<char>| ps_line(statement),
    );
    match command {
        CommandView::Start { env } => {
            lemma_remote_lines_in_turn(env.instance_names(), start_job(config));
        },
        CommandView::Stop { env, grace, force } => {
            lemma_remote_lines_in_turn(env.instance_names(), stop_job(config, grace, force));
        },
        CommandView::Restart { env, grace } => {
            lemma_remote_lines_in_turn(env.instance_names(), start_job(config));
            lemma_remote_lines_in_turn(env.instance_names(), stop_job(config, grace, false));
            lemma_remote_lines_concat(
                stop_plan(config, env, grace, false, false),
                start_plan(config, env, false),
            );
        },
        CommandView::Status => {
            lemma_remote_lines_one(status_plan(config, false)[0]);
        },
        CommandView::Kill => {
            lemma_remote_lines_one(kill_plan(config, false)[0]);
        },
        CommandView::Tail { env, lines } => {
            lemma_remote_lines_job(tail_job(config, env.instance_names()[0], lines));
        },
        CommandView::Pull { env, dest, rsync } => {
            let dir = home_expanded(dest, home);
            lemma_remote_lines_one(StepView::CreateDir(dir));
            lemma_remote_lines_job(sync_job(config, dir));
            lemma_remote_lines_in_turn(env.instance_names(), copy_job(config, dir));
            lemma_remote_lines_concat(
                seq![StepView::CreateDir(dir)],
                if rsync {
                    sync_job(config, dir).steps(false)
                } else {
                    in_turn(env.instance_names(), copy_job(config, dir), false)
                },
            );
        },
        CommandView::Shell => {
            lemma_remote_lines_one(shell_plan(config, false)[0]);
        },
    }
    assert(lines =~= expected);
}

/// No statement ends with a backtick.
proof fn lemma_statements_end(config: ConfigView, command: CommandView, k: int)
    requires
        0 <= k < remote_statements(config, command).len(),
    ensures
        remote_statements(config, command)[k].len() > 0,
        remote_statements(config, command)[k].last() != '`',
{
    reveal_strlit("'");
    reveal_strlit(
        "*' } | ForEach-Object { Stop-Process -Id $_.ProcessId -Force -ErrorAction SilentlyContinue }",
    );
    reveal_strlit("Get-Process uv -ErrorAction SilentlyContinue | Select-Object Id, StartTime");
    reveal_strlit("Get-Process uv -ErrorAction SilentlyContinue | Stop-Process -Force");
}

/// Of the lines that ssh hands on to run one command each, `read_quoted` gives back the commands
/// meant: the statements of the command, each of them, in order, whatever quotes the settings hold.
pub proof fn law_remote_commands_are_read_back(
    config: ConfigView,
    home: Option<Seq<char>>,
    command: CommandView,
)
    ensures
        ({
            let lines = remote_lines(command_plan(config, home, command, false));
            let statements = remote_statements(config, command);
            &&& lines.len() == statements.len()
            &&& forall|k: int|
                0 <= k < lines.len() ==> quotes_command(#[trigger] lines[k], statements[k])
        }),
{
    let lines = remote_lines(command_plan(config, home, command, false));
    let statements = remote_statements(config, command);
    lemma_remote_lines_of_command(config, home, command);
    assert forall|k: int| 0 <= k < lines.len() implies quotes_command(
        #[trigger] lines[k],
        statements[k],
    ) by {
        lemma_statements_end(config, command, k);
        law_ps_line_is_read_back(statements[k]);
    }
}

/// A command has steps, unless it is refused.
pub proof fn law_commands_have_steps(
    config: ConfigView,
    home: Option<Seq<char>>,
    command: CommandView,
    dry_run: bool,
)
    ensures
        command_plan(config, home, command, dry_run).len() > 0 <==> !refused(command),
{
}

proof fn lemma_in_turn_concat(
    a: Seq<Seq<char>>,
    b: Seq<Seq<char>>,
    job: spec_fn(Seq<char>) -> Job,
    dry_run: bool,
)
    ensures
        in_turn(a + b, job, dry_run) == in_turn(a, job, dry_run) + in_turn(b, job, dry_run),
    decreases b.len(),
{
    if b.len() == 0 {
        assert(a + b =~= a);
    } else {
        lemma_in_turn_concat(a, b.drop_last(), job, dry_run);
        assert((a + b).drop_last() =~= a + b.drop_last());
    }
    assert(in_turn(a + b, job, dry_run) =~= in_turn(a, job, dry_run) + in_turn(b, job, dry_run));
}

proof fn lemma_all_is_both(job: spec_fn(Seq<char>) -> Job, dry_run: bool)
    ensures
        in_turn(Env::All.instance_names(), job, dry_run) == in_turn(
            Env::Ictrading.instance_names(),
            job,
            dry_run,
        ) + in_turn(Env::Ftmo.instance_names(), job, dry_run),
{
    let (a, b) = (Env::Ictrading.instance_names(), Env::Ftmo.instance_names());
    assert(Env::All.instance_names() =~= a + b);
    lemma_in_turn_concat(a, b, job, dry_run);
}

/// To start all instances is to start one, then the other.
pub proof fn law_start_all(config: ConfigView, dry_run: bool)
    ensures
        start_plan(config, Env::All, dry_run) == start_plan(config, Env::Ictrading, dry_run)
            + start_plan(config, Env::Ftmo, dry_run),
{
    lemma_all_is_both(start_job(config), dry_run);
}

/// To stop all instances is to stop one, then the other.
pub proof fn law_stop_all(config: ConfigView, grace: u32, force: bool, dry_run: bool)
    ensures
        stop_plan(config, Env::All, grace, force, dry_run) == stop_plan(
            config,
            Env::Ictrading,
            grace,
            force,
            dry_run,
        ) + stop_plan(config, Env::Ftmo, grace, force, dry_run),
{
    lemma_all_is_both(stop_job(config, grace, force), dry_run);
}

/// To copy the logs of all instances is to create the directory once and to copy the one log, then
/// the other.
pub proof fn law_copy_all(config: ConfigView, dest: Seq<char>, dry_run: bool)
    ensures
        ({
            let first = pull_plan(config, Env::Ictrading, dest, false, dry_run);
            let second = pull_plan(config, Env::Ftmo, dest, false, dry_run);
            pull_plan(config, Env::All, dest, false, dry_run) == first + (if dry_run {
                second
            } else {
                second.skip(1)
            })
        }),
{
    lemma_all_is_both(copy_job(config, dest), dry_run);
    let first = pull_plan(config, Env::Ictrading, dest, false, dry_run);
    let second = pull_plan(config, Env::Ftmo, dest, false, dry_run);
    assert(pull_plan(config, Env::All, dest, false, dry_run) =~= first + (if dry_run {
        second
    } else {
        second.skip(1)
    }));
}

proof fn lemma_in_turn_creates_nothing(instances: Seq<Seq<char>>, job: spec_fn(Seq<char>) -> Job)
    ensures
        forall|k: int|
            0 <= k < in_turn(instances, job, false).len() ==> !((#[trigger] in_turn(
                instances,
                job,
                false,
            )[k]) is CreateDir),
    decreases instances.len(),
{
    if instances.len() > 0 {
        let steps = in_turn(instances, job, false);
        let earlier = in_turn(instances.drop_last(), job, false);
        lemma_in_turn_creates_nothing(instances.drop_last(), job);
        assert forall|k: int| 0 <= k < steps.len() implies !((#[trigger] steps[k]) is CreateDir) by {
            if k < earlier.len() {
                assert(steps[k] == earlier[k]);
            } else {
                assert(steps[k] == job(instances.last()).steps(false)[k - earlier.len()]);
            }
        }
    }
}

/// Before it copies anything, `logs pull` creates the directory that it fills, once.
pub proof fn law_pull_creates_the_directory_first(
    config: ConfigView,
    env: Env,
    dest: Seq<char>,
    use_rsync: bool,
)
    ensures
        pull_plan(config, env, dest, use_rsync, false).len() > 0,
        pull_plan(config, env, dest, use_rsync, false)[0] == StepView::CreateDir(dest),
        forall|k: int|
            0 < k < pull_plan(config, env, dest, use_rsync, false).len() ==> !((
            #[trigger] pull_plan(config, env, dest, use_rsync, false)[k]) is CreateDir),
{
    let steps = pull_plan(config, env, dest, use_rsync, false);
    let copies = in_turn(env.instance_names(), copy_job(config, dest), false);
    lemma_in_turn_creates_nothing(env.instance_names(), copy_job(config, dest));
    assert forall|k: int| 0 < k < steps.len() implies !((#[trigger] steps[k]) is CreateDir) by {
        if !use_rsync {
            assert(steps[k] == copies[k - 1]);
        }
    }
}

/// To restart is to stop gracefully, then to start.
pub proof fn law_restart_stops_then_starts(
    config: ConfigView,
    home: Option<Seq<char>>,
    env: Env,
    grace: u32,
    dry_run: bool,
)
    ensures
        command_plan(config, home, CommandView::Restart { env, grace }, dry_run) == command_plan(
            config,
            home,
            CommandView::Stop { env, grace, force: false },
            dry_run,
        ) + command_plan(config, home, CommandView::Start { env }, dry_run),
{
}

/// A stop by force does not depend on the grace period.
pub proof fn law_force_ignores_grace(
    config: ConfigView,
    env: Env,
    grace: u32,
    other: u32,
    dry_run: bool,
)
    ensures
        stop_plan(config, env, grace, true, dry_run) == stop_plan(config, env, other, true, dry_run),
{
}

/// rsync brings the logs of every instance, whichever was asked for.
pub proof fn law_rsync_ignores_instances(
    config: ConfigView,
    env: Env,
    other: Env,
    dest: Seq<char>,
    dry_run: bool,
)
    ensures
        pull_plan(config, env, dest, true, dry_run) == pull_plan(config, other, dest, true, dry_run),
{
}

/// A run after the reports of its first steps, in order.
pub open spec fn after_all(session: SessionView, reports: Seq<Report>) -> SessionView
    decreases reports.len(),
{
    if reports.len() == 0 {
        session
    } else {
        after_all(session, reports.drop_last()).after(reports.last())
    }
}

/// Whether the first `n` reports tell of no failure.
pub open spec fn succeeded(reports: Seq<Report>, n: int) -> bool {
    forall|i: int| 0 <= i < n ==> !tells_failure(#[trigger] reports[i])
}

/// Whether `report` tells that `step` failed: a program ended without success or was refused, or a
/// directory was refused.
pub open spec fn failed(step: StepView, report: Report) -> bool {
    ||| step is Run && tells_failure(report)
    ||| step is CreateDir && report is Refused
}

/// While the reports tell of no failure the steps are due one after the other, each once; the run
/// ends, with success, behind the last.
pub proof fn law_steps_follow_each_other(steps: Seq<StepView>, reports: Seq<Report>)
    requires
        reports.len() <= steps.len(),
        succeeded(reports, reports.len() as int),
    ensures
        after_all(SessionView::begun(steps), reports) == (SessionView {
            steps,
            next: reports.len() as int,
            outcome: if reports.len() == steps.len() {
                Some(OutcomeView::Success)
            } else {
                None
            },
        }),
        after_all(SessionView::begun(steps), reports).due() == (if reports.len() == steps.len() {
            None
        } else {
            Some(steps[reports.len() as int])
        }),
    decreases reports.len(),
{
    if reports.len() > 0 {
        let earlier = reports.drop_last();
        assert forall|i: int| 0 <= i < earlier.len() implies !tells_failure(
            #[trigger] earlier[i],
        ) by {
            assert(earlier[i] == reports[i]);
        }
        law_steps_follow_each_other(steps, earlier);
        assert(!tells_failure(reports[reports.len() - 1]));
    }
}

/// The first step that fails ends the run, and not with success: no later step is due.
pub proof fn law_first_failure_ends_the_run(steps: Seq<StepView>, reports: Seq<Report>)
    requires
        0 < reports.len() <= steps.len(),
        succeeded(reports, reports.len() - 1),
        failed(steps[reports.len() - 1], reports.last()),
    ensures
        after_all(SessionView::begun(steps), reports) == (SessionView {
            steps,
            next: reports.len() - 1,
            outcome: verdict(steps[reports.len() - 1], reports.last()),
        }),
        after_all(SessionView::begun(steps), reports).due() is None,
        after_all(SessionView::begun(steps), reports).outcome is Some,
        after_all(SessionView::begun(steps), reports).outcome != Some(OutcomeView::Success),
{
    let earlier = reports.drop_last();
    assert forall|i: int| 0 <= i < earlier.len() implies !tells_failure(#[trigger] earlier[i]) by {
        assert(earlier[i] == reports[i]);
    }
    law_steps_follow_each_other(steps, earlier);
}

/// A restart whose stop fails starts nothing: all that was performed belongs to the stop, and the
/// tool fails, with exit status 1.
pub proof fn law_failed_stop_starts_nothing(
    config: ConfigView,
    env: Env,
    grace: u32,
    reports: Seq<Report>,
)
    requires
        ({
            let steps = restart_plan(config, env, grace, false);
            let stop = stop_plan(config, env, grace, false, false);
            &&& 0 < reports.len() <= stop.len()
            &&& succeeded(reports, reports.len() - 1)
            &&& failed(steps[reports.len() - 1], reports.last())
        }),
    ensures
        ({
            let steps = restart_plan(config, env, grace, false);
            let stop = stop_plan(config, env, grace, false, false);
            let end = after_all(SessionView::begun(steps), reports);
            &&& end.due() is None
            &&& end.outcome matches Some(outcome) && outcome is Failed && outcome.status() == 1
            &&& steps.take(end.next + 1) == stop.take(end.next + 1)
        }),
{
    let steps = restart_plan(config, env, grace, false);
    let stop = stop_plan(config, env, grace, false, false);
    law_first_failure_ends_the_run(steps, reports);
    assert(steps.take(reports.len() as int) =~= stop.take(reports.len() as int));
    let p = |invocation: InvocationView| invocation.role == Role::Script;
    lemma_all_runs_in_turn(env.instance_names(), stop_job(config, grace, false), p);
    let at = reports.len() - 1;
    assert(steps[at] == stop[at]);
    assert(stop[at] is Run ==> p(stop[at]->Run_0));
}

} // verus!
