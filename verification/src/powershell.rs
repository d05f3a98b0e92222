//! The PowerShell text that is sent to the remote machine.
use crate::config::{task_name, Config, ConfigView};
use crate::text::{decimal, decimal_text, lemma_replaced_front, replace_char, replaced};
use vstd::prelude::*;

verus! {

/// The script of a graceful stop. It reads the variables `$Instance`, `$EnvFilter`,
/// `$GraceSeconds` and `$TaskName`.
pub const GRACEFUL_STOP_SCRIPT: &'static str = r#"
$ErrorActionPreference = 'Stop'

$proc = Get-CimInstance Win32_Process -Filter "Name='uv.exe'" |
    Where-Object { $_.CommandLine -like "*$EnvFilter*" } |
    Select-Object -First 1

if (-not $proc) {
    Write-Host "[$Instance] no running uv.exe process found (already stopped?)"
    Stop-ScheduledTask -TaskName $TaskName -ErrorAction SilentlyContinue
    exit 0
}

$targetPid = $proc.ProcessId
Write-Host "[$Instance] PID $targetPid -- sending graceful stop signal (same as Ctrl+C)"

Add-Type -Name NexusCtrlC -Namespace NexusCtl -MemberDefinition @"
[System.Runtime.InteropServices.DllImport("kernel32.dll", SetLastError = true)]
public static extern bool AttachConsole(uint dwProcessId);
[System.Runtime.InteropServices.DllImport("kernel32.dll", SetLastError = true)]
public static extern bool FreeConsole();
[System.Runtime.InteropServices.DllImport("kernel32.dll")]
public static extern bool SetConsoleCtrlHandler(IntPtr HandlerRoutine, bool Add);
[System.Runtime.InteropServices.DllImport("kernel32.dll")]
public static extern bool GenerateConsoleCtrlEvent(uint dwCtrlEvent, uint dwProcessGroupId);
"@

[NexusCtl.NexusCtrlC]::FreeConsole() | Out-Null
[NexusCtl.NexusCtrlC]::AttachConsole([uint32]$targetPid) | Out-Null
[NexusCtl.NexusCtrlC]::SetConsoleCtrlHandler([IntPtr]::Zero, $true) | Out-Null
[NexusCtl.NexusCtrlC]::GenerateConsoleCtrlEvent(0, 0) | Out-Null
Start-Sleep -Milliseconds 500
[NexusCtl.NexusCtrlC]::FreeConsole() | Out-Null

Write-Host "[$Instance] waiting up to $GraceSeconds second(s) for a clean shutdown..."
$deadline = (Get-Date).AddSeconds($GraceSeconds)
while ((Get-Date) -lt $deadline) {
    if (-not (Get-Process -Id $targetPid -ErrorAction SilentlyContinue)) {
        Write-Host "[$Instance] exited cleanly."
        Stop-ScheduledTask -TaskName $TaskName -ErrorAction SilentlyContinue
        exit 0
    }
    Start-Sleep -Seconds 2
}

Write-Host "[$Instance] WARNING: still running after $GraceSeconds second(s) -- force-killing now."
Write-Host "[$Instance] WARNING: it did not get to run its own shutdown logic -- verify open positions manually."
Stop-Process -Id $targetPid -Force -ErrorAction SilentlyContinue
Stop-ScheduledTask -TaskName $TaskName -ErrorAction SilentlyContinue
"#;

/// A command with a backtick before every double quote, as the inside of a double-quoted text.
pub open spec fn escaped(command: Seq<char>) -> Seq<char> {
    replaced(command, '"', "`\""@)
}

/// The command line that calls PowerShell with `command`, escaped, between double quotes.
pub open spec fn ps_line(command: Seq<char>) -> Seq<char> {
    "powershell -NoProfile -Command \""@ + escaped(command) + "\""@
}

/// `s` with every single quote doubled, as the inside of a single-quoted literal.
pub open spec fn doubled(s: Seq<char>) -> Seq<char> {
    replaced(s, '\'', "''"@)
}

/// Wraps `command` into the command line that calls PowerShell with it.
pub fn ps(command: &str) -> (r: String)
    ensures
        r@ == ps_line(command@),
{
    let mut out = "powershell -NoProfile -Command \"".to_owned();
    out.append(replace_char(command, '"', "`\"").as_str());
    out.append("\"");
    out
}

/// Escapes `s` for the inside of a single-quoted literal.
pub fn ps_single_quote(s: &str) -> (r: String)
    ensures
        r@ == doubled(s@),
{
    replace_char(s, '\'', "''")
}

/// The statement that starts the scheduled task `task`.
pub open spec fn start_statement(task: Seq<char>) -> Seq<char> {
    "Start-ScheduledTask -TaskName '"@ + task + "'"@
}

/// The statements that stop the scheduled task of `instance` and kill its processes at once.
pub open spec fn force_stop_statement(task: Seq<char>, instance: Seq<char>) -> Seq<char> {
    "Stop-ScheduledTask -TaskName '"@ + task
        + "'; Get-CimInstance Win32_Process -Filter \"Name='uv.exe'\" | Where-Object { $_.CommandLine -like '*.env."@
        + instance
        + "*' } | ForEach-Object { Stop-Process -Id $_.ProcessId -Force -ErrorAction SilentlyContinue }"@
}

/// The statement that shows the scheduled task `task`.
pub open spec fn task_info_statement(task: Seq<char>) -> Seq<char> {
    "Get-ScheduledTaskInfo -TaskName '"@ + task + "'"@
}

/// The statement that follows the file `path` from its last `lines` lines on.
pub open spec fn tail_statement(path: Seq<char>, lines: nat) -> Seq<char> {
    "Get-Content '"@ + path + "' -Wait -Tail "@ + decimal(lines)
}

/// The assignments that the script of a graceful stop begins with.
pub open spec fn stop_header(config: ConfigView, instance: Seq<char>, grace: nat) -> Seq<char> {
    "$Instance = '"@ + doubled(instance) + "'\n$EnvFilter = '"@ + doubled(".env."@ + instance)
        + "'\n$GraceSeconds = "@ + decimal(grace) + "\n$TaskName = '"@ + doubled(
        config.task_of(instance),
    ) + "'\n"@
}

/// The whole script that stops `instance` gracefully.
pub open spec fn stop_script(config: ConfigView, instance: Seq<char>, grace: nat) -> Seq<char> {
    stop_header(config, instance, grace) + GRACEFUL_STOP_SCRIPT@
}

/// Writes the script that stops `instance` gracefully within `grace` seconds.
pub fn graceful_stop(config: &Config, instance: &str, grace: u32) -> (r: String)
    ensures
        r@ == stop_script(config@, instance@, grace as nat),
{
    let mut filter = ".env.".to_owned();
    filter.append(instance);
    let mut out = "$Instance = '".to_owned();
    out.append(ps_single_quote(instance).as_str());
    out.append("'\n$EnvFilter = '");
    out.append(ps_single_quote(filter.as_str()).as_str());
    out.append("'\n$GraceSeconds = ");
    out.append(decimal_text(grace).as_str());
    out.append("\n$TaskName = '");
    out.append(ps_single_quote(task_name(config, instance).as_str()).as_str());
    out.append("'\n");
    out.append(GRACEFUL_STOP_SCRIPT);
    out
}

/// A reader of single-quoted literals that knows the quote and its doubling, and nothing else of
/// PowerShell. From behind the opening quote it gives what the literal holds, and the text behind
/// the closing quote; `None` where no quote closes it.
pub open spec fn read_literal(s: Seq<char>) -> Option<(Seq<char>, Seq<char>)>
    decreases s.len(),
{
    if s.len() == 0 {
        None
    } else if s[0] == '\'' && !(s.len() >= 2 && s[1] == '\'') {
        Some((Seq::empty(), s.skip(1)))
    } else {
        match read_literal(s.skip(if s[0] == '\'' { 2 } else { 1 })) {
            Some((value, rest)) => Some((seq![s[0]] + value, rest)),
            None => None,
        }
    }
}

/// A reader of double-quoted texts that knows the quote and its escape by a backtick, and nothing
/// else: variables and other escapes are plain characters to it. From behind the opening quote it
/// gives what the text holds, and what stands behind the closing quote; `None` where no quote
/// closes it.
pub open spec fn read_quoted(s: Seq<char>) -> Option<(Seq<char>, Seq<char>)>
    decreases s.len(),
{
    if s.len() == 0 {
        None
    } else if s[0] == '"' {
        Some((Seq::empty(), s.skip(1)))
    } else if s[0] == '`' && s.len() >= 2 && s[1] == '"' {
        match read_quoted(s.skip(2)) {
            Some((value, rest)) => Some((seq!['"'] + value, rest)),
            None => None,
        }
    } else {
        match read_quoted(s.skip(1)) {
            Some((value, rest)) => Some((seq![s[0]] + value, rest)),
            None => None,
        }
    }
}

/// `read_literal` gives back a text whose single quotes were doubled, and ends at the closing
/// quote.
pub proof fn law_literal_is_read_back(s: Seq<char>, rest: Seq<char>)
    requires
        rest.len() > 0 ==> rest[0] != '\'',
    ensures
        read_literal(doubled(s) + "'"@ + rest) == Some((s, rest)),
    decreases s.len(),
{
    reveal_strlit("''");
    reveal_strlit("'");
    let whole = doubled(s) + "'"@ + rest;
    if s.len() == 0 {
        assert(whole.skip(1) =~= rest);
        assert(s =~= Seq::<char>::empty());
    } else {
        let tail = s.drop_first();
        law_literal_is_read_back(tail, rest);
        lemma_replaced_front(s, '\'', "''"@);
        assert(whole.skip(
            if s[0] == '\'' {
                2
            } else {
                1
            },
        ) =~= doubled(tail) + "'"@ + rest);
        assert(seq![s[0]] + tail =~= s);
    }
}

/// `read_quoted` gives back a command whose double quotes were escaped, and ends at the closing
/// quote. A command that ends with a backtick would escape the closing quote.
pub proof fn law_quoted_is_read_back(command: Seq<char>, rest: Seq<char>)
    requires
        command.len() > 0 ==> command.last() != '`',
    ensures
        read_quoted(escaped(command) + "\""@ + rest) == Some((command, rest)),
    decreases command.len(),
{
    reveal_strlit("`\"");
    reveal_strlit("\"");
    let whole = escaped(command) + "\""@ + rest;
    if command.len() == 0 {
        assert(whole.skip(1) =~= rest);
        assert(command =~= Seq::<char>::empty());
    } else {
        let tail = command.drop_first();
        if tail.len() > 0 {
            assert(tail.last() == command.last());
            lemma_replaced_front(tail, '"', "`\""@);
        }
        law_quoted_is_read_back(tail, rest);
        lemma_replaced_front(command, '"', "`\""@);
        assert(whole.skip(
            if command[0] == '"' {
                2
            } else {
                1
            },
        ) =~= escaped(tail) + "\""@ + rest);
        assert(seq![command[0]] + tail =~= command);
    }
}

/// `read_literal` gives back the instance, the filter for its processes and the name of its task
/// from the assignments of a graceful stop, whatever these hold.
pub proof fn law_stop_header_is_read_back(config: ConfigView, instance: Seq<char>, grace: nat)
    ensures
        ({
            let task = config.task_of(instance);
            let third = doubled(task) + "'"@ + "\n"@;
            let behind_second = "\n$GraceSeconds = "@ + decimal(grace) + "\n$TaskName = '"@ + third;
            let second = doubled(".env."@ + instance) + "'"@ + behind_second;
            let first = doubled(instance) + "'"@ + ("\n$EnvFilter = '"@ + second);
            &&& stop_header(config, instance, grace) == "$Instance = '"@ + first
            &&& read_literal(first) == Some((instance, "\n$EnvFilter = '"@ + second))
            &&& read_literal(second) == Some((".env."@ + instance, behind_second))
            &&& read_literal(third) == Some((task, "\n"@))
        }),
{
    let task = config.task_of(instance);
    let third = doubled(task) + "'"@ + "\n"@;
    let behind_second = "\n$GraceSeconds = "@ + decimal(grace) + "\n$TaskName = '"@ + third;
    let second = doubled(".env."@ + instance) + "'"@ + behind_second;
    reveal_strlit("'");
    reveal_strlit("\n");
    reveal_strlit("'\n");
    reveal_strlit("\n$GraceSeconds = ");
    reveal_strlit("'\n$GraceSeconds = ");
    reveal_strlit("\n$EnvFilter = '");
    reveal_strlit("'\n$EnvFilter = '");
    assert("'"@ + "\n"@ =~= "'\n"@);
    assert("'"@ + "\n$GraceSeconds = "@ =~= "'\n$GraceSeconds = "@);
    assert("'"@ + "\n$EnvFilter = '"@ =~= "'\n$EnvFilter = '"@);
    assert(stop_header(config, instance, grace) =~= "$Instance = '"@ + (doubled(instance) + "'"@ + (
    "\n$EnvFilter = '"@ + second)));
    law_literal_is_read_back(instance, "\n$EnvFilter = '"@ + second);
    law_literal_is_read_back(".env."@ + instance, behind_second);
    law_literal_is_read_back(task, "\n"@);
}

/// Whether `line` is the start of a PowerShell call and one double-quoted text, which `read_quoted`
/// reads as `command`.
pub open spec fn quotes_command(line: Seq<char>, command: Seq<char>) -> bool {
    let start = "powershell -NoProfile -Command \""@;
    &&& start.is_prefix_of(line)
    &&& read_quoted(line.skip(start.len() as int)) == Some((command, Seq::<char>::empty()))
}

/// `read_quoted` gives back the command of a line that `ps` wrote, whatever quotes the command
/// holds, unless it ends with a backtick.
pub proof fn law_ps_line_is_read_back(command: Seq<char>)
    requires
        command.len() > 0 ==> command.last() != '`',
    ensures
        quotes_command(ps_line(command), command),
{
    let start = "powershell -NoProfile -Command \""@;
    law_quoted_is_read_back(command, Seq::empty());
    assert(ps_line(command).skip(start.len() as int) =~= escaped(command) + "\""@ + Seq::empty());
    assert(start =~= ps_line(command).take(start.len() as int));
}

} // verus!
