# nexus-ctl

A small CLI that wraps the manual PowerShell commands by which the trading instances on a Windows
machine are run: `start`, `stop`, `restart`, `status`, `kill`, `logs tail`, `logs pull` and `shell`.
`--dry-run` prints the exact command that would run without executing it.

- `src/` is the library, verified with Verus. It turns a command and the settings into a list of
  steps (`commands`, `step`, `powershell`, `config`), decides after each step whether the run goes on
  (`session`, `failure`), and reads the file of settings (`dotenv`). `laws` holds what is proved of
  the commands as a whole.
- `app/` is the program around it: the command line, the environment, and the performing of steps.
- `tests/` runs the library on concrete values.

| Variable                   | Default                              |
|----------------------------|--------------------------------------|
| `NEXUS_CTL_HOST`           | `Marci@windows.tail0212d0.ts.net`    |
| `NEXUS_CTL_REMOTE_PROJECT` | `C:\Users\Marci\Desktop\nexus-trade` |
| `NEXUS_CTL_TASK_PREFIX`    | `nexus-trade`                        |

The variables may also stand in `~/.config/nexus-ctl/.env`, one `KEY=value` to a line. A variable of
the environment comes before the file.
