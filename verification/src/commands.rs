//! The commands of the tool: which steps each consists of.
use crate::cli::{names, Commands, CommandView, Env, LogsAction};
use crate::config::{
    home_expanded, log_path, optional, shellexpand_home, slashed, task_name, to_forward_slashes,
    Config, ConfigView,
};
use crate::failure::Failure;
use crate::powershell::{
    force_stop_statement, graceful_stop, ps, ps_line, start_statement, stop_script, tail_statement,
    task_info_statement,
};
use crate::step::{
    local_program, plan_of, remote_command, remote_script, remote_shell, run_local, run_or_show,
    run_program, run_remote, run_remote_script, InvocationView, Role, Step, StepView,
};
use crate::text::{decimal, decimal_text, join, joined, texts};
use vstd::prelude::*;

verus! {

/// A program to run, and the line that announces it.
pub ghost struct Job {
    pub line: Seq<char>,
    pub invocation: InvocationView,
}

impl Job {
    /// The steps of the job: it is announced, then run, or, in a dry run, shown.
    pub open spec fn steps(self, dry_run: bool) -> Seq<StepView> {
        seq![StepView::Print(self.line)] + run_or_show(self.invocation, dry_run)
    }
}

/// The steps of the job of every instance, one instance after the other.
pub open spec fn in_turn(
    instances: Seq<Seq<char>>,
    job: spec_fn(Seq<char>) -> Job,
    dry_run: bool,
) -> Seq<StepView>
    decreases instances.len(),
{
    if instances.len() == 0 {
        Seq::empty()
    } else {
        in_turn(instances.drop_last(), job, dry_run) + job(instances.last()).steps(dry_run)
    }
}

/// The job that starts one instance.
pub open spec fn start_job(config: ConfigView) -> spec_fn(Seq<char>) -> Job {
    |instance: Seq<char>|
        Job {
            line: "==> starting "@ + instance,
            invocation: remote_command(
                config.host,
                ps_line(start_statement(config.task_of(instance))),
            ),
        }
}

/// The job that stops one instance at once.
pub open spec fn force_stop_job(config: ConfigView) -> spec_fn(Seq<char>) -> Job {
    |instance: Seq<char>|
        Job {
            line: "==> force-stopping "@ + instance
                + " immediately (no grace period — it will NOT close positions)"@,
            invocation: remote_command(
                config.host,
                ps_line(force_stop_statement(config.task_of(instance), instance)),
            ),
        }
}

/// The job that stops one instance gracefully.
pub open spec fn graceful_stop_job(config: ConfigView, grace: u32) -> spec_fn(Seq<char>) -> Job {
    |instance: Seq<char>|
        Job {
            line: "==> stopping "@ + instance + " gracefully (grace period: "@ + decimal(
                grace as nat,
            ) + "s)"@,
            invocation: remote_script(config.host, stop_script(config, instance, grace as nat)),
        }
}

/// The job that stops one instance.
pub open spec fn stop_job(config: ConfigView, grace: u32, force: bool) -> spec_fn(Seq<char>) -> Job {
    if force {
        force_stop_job(config)
    } else {
        graceful_stop_job(config, grace)
    }
}

/// The steps of `start`.
pub open spec fn start_plan(config: ConfigView, env: Env, dry_run: bool) -> Seq<StepView> {
    in_turn(env.instance_names(), start_job(config), dry_run)
}

/// The steps of `stop`.
pub open spec fn stop_plan(
    config: ConfigView,
    env: Env,
    grace: u32,
    force: bool,
    dry_run: bool,
) -> Seq<StepView> {
    in_turn(env.instance_names(), stop_job(config, grace, force), dry_run)
}

/// The steps of `restart`.
pub open spec fn restart_plan(
    config: ConfigView,
    env: Env,
    grace: u32,
    dry_run: bool,
) -> Seq<StepView> {
    stop_plan(config, env, grace, false, dry_run) + start_plan(config, env, dry_run)
}

/// The command that shows the state of both instances.
pub open spec fn status_command(config: ConfigView) -> Seq<char> {
    joined(
        seq![
            task_info_statement(config.task_of("ictrading"@)),
            task_info_statement(config.task_of("ftmo"@)),
            "Get-Process uv -ErrorAction SilentlyContinue | Select-Object Id, StartTime"@,
        ],
        "; "@,
    )
}

/// The steps of `status`.
pub open spec fn status_plan(config: ConfigView, dry_run: bool) -> Seq<StepView> {
    run_or_show(remote_command(config.host, ps_line(status_command(config))), dry_run)
}

/// The command that kills the processes of both instances.
pub open spec fn kill_command() -> Seq<char> {
    "Get-Process uv -ErrorAction SilentlyContinue | Stop-Process -Force"@
}

/// The steps of `kill`.
pub open spec fn kill_plan(config: ConfigView, dry_run: bool) -> Seq<StepView> {
    run_or_show(remote_command(config.host, ps_line(kill_command())), dry_run)
}

/// The job that follows the log of one instance.
pub open spec fn tail_job(config: ConfigView, instance: Seq<char>, lines: u32) -> Job {
    Job {
        line: "==> tailing "@ + instance + " (Ctrl+C to stop; the task keeps running)"@,
        invocation: remote_command(
            config.host,
            ps_line(tail_statement(config.log_of(instance), lines as nat)),
        ),
    }
}

/// The steps of `logs tail` for one instance.
pub open spec fn tail_plan(
    config: ConfigView,
    instance: Seq<char>,
    lines: u32,
    dry_run: bool,
) -> Seq<StepView> {
    tail_job(config, instance, lines).steps(dry_run)
}

/// The directory of the logs on the remote machine, as scp and rsync address it.
pub open spec fn remote_logs(config: ConfigView) -> Seq<char> {
    config.host + ":"@ + slashed(config.remote_project) + "/logs/"@
}

/// The job that copies the log of one instance into `dest`.
pub open spec fn copy_job(config: ConfigView, dest: Seq<char>) -> spec_fn(Seq<char>) -> Job {
    |instance: Seq<char>|
        Job {
            line: "==> scp "@ + instance + ".log -> "@ + dest,
            invocation: local_program(
                "scp"@,
                seq![remote_logs(config) + instance + ".log"@, dest + "/"@],
            ),
        }
}

/// The job that brings the whole directory of logs to `dest`.
pub open spec fn sync_job(config: ConfigView, dest: Seq<char>) -> Job {
    Job {
        line: "==> rsync logs -> "@ + dest,
        invocation: local_program(
            "rsync"@,
            seq!["-avz"@, remote_logs(config), dest + "/"@],
        ),
    }
}

/// The steps of `logs pull` into the directory `dest`: it is created first, but for a dry run.
pub open spec fn pull_plan(
    config: ConfigView,
    env: Env,
    dest: Seq<char>,
    use_rsync: bool,
    dry_run: bool,
) -> Seq<StepView> {
    (if dry_run {
        Seq::empty()
    } else {
        seq![StepView::CreateDir(dest)]
    }) + (if use_rsync {
        sync_job(config, dest).steps(dry_run)
    } else {
        in_turn(env.instance_names(), copy_job(config, dest), dry_run)
    })
}

/// The steps of `shell`.
pub open spec fn shell_plan(config: ConfigView, dry_run: bool) -> Seq<StepView> {
    run_or_show(remote_shell(config.host), dry_run)
}

/// Lists the steps that start the instances of `env`.
pub fn cmd_start(config: &Config, env: Env, dry_run: bool) -> (r: Vec<Step>)
    ensures
        plan_of(r@) == start_plan(config@, env, dry_run),
{
    let instances = env.instances();
    let ghost job = start_job(config@);
    let mut steps: Vec<Step> = Vec::new();
    assert(plan_of(steps@) =~= in_turn(names(instances@).take(0), job, dry_run));
    for k in 0..instances.len()
        invariant
            job == start_job(config@),
            plan_of(steps@) == in_turn(names(instances@).take(k as int), job, dry_run),
    {
        let instance: &'static str = instances[k];
        let ghost before = steps@;
        let mut line = "==> starting ".to_owned();
        line.append(instance);
        let mut statement = "Start-ScheduledTask -TaskName '".to_owned();
        statement.append(task_name(config, instance).as_str());
        statement.append("'");
        let mut run = run_remote(config.host.as_str(), ps(statement.as_str()).as_str(), dry_run);
        let ghost ran = run@;
        steps.push(Step::Print(line));
        steps.append(&mut run);
        proof {
            lemma_next_instance(names(instances@), job, dry_run, k as int);
            assert(plan_of(steps@) =~= plan_of(before) + (seq![StepView::Print(line@)] + plan_of(
                ran,
            )));
        }
    }
    assert(names(instances@).take(instances@.len() as int) =~= names(instances@));
    steps
}

/// The steps up to and including instance `k` are those before it, then its own.
proof fn lemma_next_instance(
    instances: Seq<Seq<char>>,
    job: spec_fn(Seq<char>) -> Job,
    dry_run: bool,
    k: int,
)
    requires
        0 <= k < instances.len(),
    ensures
        in_turn(instances.take(k + 1), job, dry_run) == in_turn(instances.take(k), job, dry_run)
            + job(instances[k]).steps(dry_run),
{
    assert(instances.take(k + 1).drop_last() =~= instances.take(k));
}

/// Lists the steps that stop the instances of `env`: at once with `force`, else gracefully within
/// `grace` seconds.
pub fn cmd_stop(config: &Config, env: Env, grace: u32, force: bool, dry_run: bool) -> (r: Vec<Step>)
    ensures
        plan_of(r@) == stop_plan(config@, env, grace, force, dry_run),
{
    let instances = env.instances();
    let ghost job = stop_job(config@, grace, force);
    let mut steps: Vec<Step> = Vec::new();
    assert(plan_of(steps@) =~= in_turn(names(instances@).take(0), job, dry_run));
    for k in 0..instances.len()
        invariant
            job == stop_job(config@, grace, force),
            plan_of(steps@) == in_turn(names(instances@).take(k as int), job, dry_run),
    {
        let instance: &'static str = instances[k];
        let ghost before = steps@;
        proof {
            lemma_next_instance(names(instances@), job, dry_run, k as int);
        }
        if force {
            let mut line = "==> force-stopping ".to_owned();
            line.append(instance);
            line.append(" immediately (no grace period — it will NOT close positions)");
            let mut statement = "Stop-ScheduledTask -TaskName '".to_owned();
            statement.append(task_name(config, instance).as_str());
            statement.append(
                "'; Get-CimInstance Win32_Process -Filter \"Name='uv.exe'\" | Where-Object { $_.CommandLine -like '*.env.",
            );
            statement.append(instance);
            statement.append(
                "*' } | ForEach-Object { Stop-Process -Id $_.ProcessId -Force -ErrorAction SilentlyContinue }",
            );
            let mut run = run_remote(config.host.as_str(), ps(statement.as_str()).as_str(), dry_run);
            let ghost ran = run@;
            steps.push(Step::Print(line));
            steps.append(&mut run);
            assert(plan_of(steps@) =~= plan_of(before) + (seq![StepView::Print(line@)] + plan_of(
                ran,
            )));
        } else {
            let mut line = "==> stopping ".to_owned();
            line.append(instance);
            line.append(" gracefully (grace period: ");
            line.append(decimal_text(grace).as_str());
            line.append("s)");
            let script = graceful_stop(config, instance, grace);
            let mut run = run_remote_script(config.host.as_str(), script.as_str(), dry_run);
            let ghost ran = run@;
            steps.push(Step::Print(line));
            steps.append(&mut run);
            assert(plan_of(steps@) =~= plan_of(before) + (seq![StepView::Print(line@)] + plan_of(
                ran,
            )));
        }
    }
    assert(names(instances@).take(instances@.len() as int) =~= names(instances@));
    steps
}

/// Lists the steps that stop the instances of `env` gracefully, then start them.
pub fn cmd_restart(config: &Config, env: Env, grace: u32, dry_run: bool) -> (r: Vec<Step>)
    ensures
        plan_of(r@) == restart_plan(config@, env, grace, dry_run),
{
    let mut steps = cmd_stop(config, env, grace, false, dry_run);
    let mut starts = cmd_start(config, env, dry_run);
    let ghost (stopped, started) = (steps@, starts@);
    steps.append(&mut starts);
    assert(plan_of(steps@) =~= plan_of(stopped) + plan_of(started));
    steps
}

/// Lists the steps that show the scheduled tasks of both instances and the running processes.
pub fn cmd_status(config: &Config, dry_run: bool) -> (r: Vec<Step>)
    ensures
        plan_of(r@) == status_plan(config@, dry_run),
{
    let instances = Env::All.instances();
    let mut parts: Vec<String> = Vec::new();
    for k in 0..instances.len()
        invariant
            parts@.len() == k,
            forall|j: int|
                0 <= j < k ==> #[trigger] parts@[j]@ == task_info_statement(
                    config@.task_of(names(instances@)[j]),
                ),
    {
        let mut statement = "Get-ScheduledTaskInfo -TaskName '".to_owned();
        statement.append(task_name(config, instances[k]).as_str());
        statement.append("'");
        parts.push(statement);
    }
    assert(names(instances@).len() == 2);
    parts.push(
        "Get-Process uv -ErrorAction SilentlyContinue | Select-Object Id, StartTime".to_owned(),
    );
    assert(texts(parts@) =~= seq![
        task_info_statement(config@.task_of("ictrading"@)),
        task_info_statement(config@.task_of("ftmo"@)),
        "Get-Process uv -ErrorAction SilentlyContinue | Select-Object Id, StartTime"@,
    ]);
    run_remote(config.host.as_str(), ps(join(&parts, "; ").as_str()).as_str(), dry_run)
}

/// Lists the steps that kill the processes of both instances.
pub fn cmd_kill(config: &Config, dry_run: bool) -> (r: Vec<Step>)
    ensures
        plan_of(r@) == kill_plan(config@, dry_run),
{
    run_remote(
        config.host.as_str(),
        ps("Get-Process uv -ErrorAction SilentlyContinue | Stop-Process -Force").as_str(),
        dry_run,
    )
}

/// Lists the steps that follow the log of one instance from its last `lines` lines on. More than
/// one instance at a time is refused.
pub fn cmd_logs_tail(config: &Config, env: Env, lines: u32, dry_run: bool) -> (r: Result<
    Vec<Step>,
    Failure,
>)
    ensures
        r is Err <==> env == Env::All,
        r matches Err(failure) ==> failure == Failure::OneInstanceOnly,
        r matches Ok(steps) ==> plan_of(steps@) == tail_plan(
            config@,
            env.instance_names()[0],
            lines,
            dry_run,
        ),
{
    let instances = env.instances();
    assert(names(instances@).len() == instances@.len());
    if instances.len() > 1 {
        return Err(Failure::OneInstanceOnly);
    }
    let instance: &'static str = instances[0];
    assert(instance@ == names(instances@)[0]);
    let mut line = "==> tailing ".to_owned();
    line.append(instance);
    line.append(" (Ctrl+C to stop; the task keeps running)");
    let mut statement = "Get-Content '".to_owned();
    statement.append(log_path(config, instance).as_str());
    statement.append("' -Wait -Tail ");
    statement.append(decimal_text(lines).as_str());
    let mut run = run_remote(config.host.as_str(), ps(statement.as_str()).as_str(), dry_run);
    let ghost ran = run@;
    let mut steps: Vec<Step> = vec![Step::Print(line)];
    steps.append(&mut run);
    assert(plan_of(steps@) =~= seq![StepView::Print(line@)] + plan_of(ran));
    Ok(steps)
}

/// Writes the directory of the logs on the remote machine, as scp and rsync address it.
fn remote_logs_text(config: &Config) -> (r: String)
    ensures
        r@ == remote_logs(config@),
{
    let mut out = config.host.clone();
    out.append(":");
    out.append(to_forward_slashes(config.remote_project.as_str()).as_str());
    out.append("/logs/");
    out
}

/// Lists the steps that copy logs into the local directory `dest`, whose leading `~/` stands for
/// `home`: the whole directory of logs with `use_rsync`, else the log of each instance of `env`.
pub fn cmd_logs_pull(
    config: &Config,
    home: &Option<String>,
    env: Env,
    dest: &str,
    use_rsync: bool,
    dry_run: bool,
) -> (r: Vec<Step>)
    ensures
        plan_of(r@) == pull_plan(
            config@,
            env,
            home_expanded(dest@, optional(*home)),
            use_rsync,
            dry_run,
        ),
{
    let dest = shellexpand_home(dest, home);
    let mut steps: Vec<Step> = Vec::new();
    if !dry_run {
        steps.push(Step::CreateDir(dest.clone()));
    }
    let ghost first = plan_of(steps@);
    assert(first =~= if dry_run {
        Seq::empty()
    } else {
        seq![StepView::CreateDir(dest@)]
    });
    let mut target = dest.clone();
    target.append("/");
    if use_rsync {
        let mut line = "==> rsync logs -> ".to_owned();
        line.append(dest.as_str());
        let args: Vec<String> = vec!["-avz".to_owned(), remote_logs_text(config), target];
        assert(texts(args@) =~= seq!["-avz"@, remote_logs(config@), dest@ + "/"@]);
        let mut run = run_local("rsync", args, dry_run);
        let ghost ran = run@;
        steps.push(Step::Print(line));
        steps.append(&mut run);
        assert(plan_of(steps@) =~= first + (seq![StepView::Print(line@)] + plan_of(ran)));
        return steps;
    }
    let instances = env.instances();
    let ghost job = copy_job(config@, dest@);
    assert(plan_of(steps@) =~= first + in_turn(names(instances@).take(0), job, dry_run));
    for k in 0..instances.len()
        invariant
            target@ == dest@ + "/"@,
            job == copy_job(config@, dest@),
            plan_of(steps@) == first + in_turn(names(instances@).take(k as int), job, dry_run),
    {
        let instance: &'static str = instances[k];
        let ghost before = steps@;
        let mut remote = remote_logs_text(config);
        remote.append(instance);
        remote.append(".log");
        let mut line = "==> scp ".to_owned();
        line.append(instance);
        line.append(".log -> ");
        line.append(dest.as_str());
        let args: Vec<String> = vec![remote, target.clone()];
        assert(texts(args@) =~= seq![remote_logs(config@) + instance@ + ".log"@, dest@ + "/"@]);
        let mut run = run_local("scp", args, dry_run);
        let ghost ran = run@;
        steps.push(Step::Print(line));
        steps.append(&mut run);
        proof {
            lemma_next_instance(names(instances@), job, dry_run, k as int);
            assert(plan_of(steps@) =~= plan_of(before) + (seq![StepView::Print(line@)] + plan_of(
                ran,
            )));
            assert(plan_of(steps@) =~= first + in_turn(names(instances@).take(k + 1), job, dry_run));
        }
    }
    assert(names(instances@).take(instances@.len() as int) =~= names(instances@));
    steps
}

/// Lists the steps that open a session on the remote machine.
pub fn cmd_shell(config: &Config, dry_run: bool) -> (r: Vec<Step>)
    ensures
        plan_of(r@) == shell_plan(config@, dry_run),
{
    let args: Vec<String> = vec![config.host.clone()];
    assert(texts(args@) =~= remote_shell(config@.host).args);
    run_program(Role::Shell, "ssh", args, dry_run)
}

/// The steps of a command; none where the command is refused.
pub open spec fn command_plan(
    config: ConfigView,
    home: Option<Seq<char>>,
    command: CommandView,
    dry_run: bool,
) -> Seq<StepView> {
    match command {
        CommandView::Start { env } => start_plan(config, env, dry_run),
        CommandView::Stop { env, grace, force } => stop_plan(config, env, grace, force, dry_run),
        CommandView::Restart { env, grace } => restart_plan(config, env, grace, dry_run),
        CommandView::Status => status_plan(config, dry_run),
        CommandView::Kill => kill_plan(config, dry_run),
        CommandView::Tail { env, lines } => if env == Env::All {
            Seq::empty()
        } else {
            tail_plan(config, env.instance_names()[0], lines, dry_run)
        },
        CommandView::Pull { env, dest, rsync } => pull_plan(
            config,
            env,
            home_expanded(dest, home),
            rsync,
            dry_run,
        ),
        CommandView::Shell => shell_plan(config, dry_run),
    }
}

/// Whether a command is refused: it is `logs tail` of more than one instance.
pub open spec fn refused(command: CommandView) -> bool {
    command matches CommandView::Tail { env, .. } && env == Env::All
}

/// Lists the steps of `command`.
pub fn plan(config: &Config, home: &Option<String>, command: &Commands, dry_run: bool) -> (r: Result<
    Vec<Step>,
    Failure,
>)
    ensures
        r is Err <==> refused(command@),
        r matches Err(failure) ==> failure == Failure::OneInstanceOnly,
        r matches Ok(steps) ==> plan_of(steps@) == command_plan(
            config@,
            optional(*home),
            command@,
            dry_run,
        ),
{
    match command {
        Commands::Start { env } => Ok(cmd_start(config, *env, dry_run)),
        Commands::Stop { env, grace, force } => Ok(
            cmd_stop(config, *env, *grace, *force, dry_run),
        ),
        Commands::Restart { env, grace } => Ok(cmd_restart(config, *env, *grace, dry_run)),
        Commands::Status => Ok(cmd_status(config, dry_run)),
        Commands::Kill => Ok(cmd_kill(config, dry_run)),
        Commands::Logs { action } => match action {
            LogsAction::Tail { env, lines } => cmd_logs_tail(config, *env, *lines, dry_run),
            LogsAction::Pull { env, dest, rsync } => Ok(
                cmd_logs_pull(config, home, *env, dest.as_str(), *rsync, dry_run),
            ),
        },
        Commands::Shell => Ok(cmd_shell(config, dry_run)),
    }
}

} // verus!
