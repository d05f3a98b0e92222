//! What a user can ask for on the command line.
use vstd::prelude::*;

verus! {

/// The instances that a command is about where the user names none: both.
pub const DEFAULT_ENV: Env = Env::All;

/// The seconds that a graceful stop waits where the user gives no number.
pub const DEFAULT_GRACE: u32 = 60;

/// The lines of a log that `logs tail` shows first where the user gives no number.
pub const DEFAULT_LINES: u32 = 50;

/// The directory that `logs pull` fills where the user gives none.
pub const DEFAULT_DEST: &'static str = "~/Desktop/nexus-trade-logs";

/// Which of the trading instances a command is about.
#[derive(Copy, Clone, Debug, PartialEq, Eq, Structural)]
pub enum Env {
    Ictrading,
    Ftmo,
    All,
}

/// A command of the tool, with its arguments.
#[derive(Debug, PartialEq, Eq)]
pub enum Commands {
    /// Starts instances.
    Start { env: Env },
    /// Stops instances: by a signal and `grace` seconds of waiting, or at once with `force`.
    Stop { env: Env, grace: u32, force: bool },
    /// Stops instances gracefully, then starts them.
    Restart { env: Env, grace: u32 },
    /// Shows the scheduled tasks of both instances and the running processes.
    Status,
    /// Kills the processes of both instances.
    Kill,
    /// Reads logs.
    Logs { action: LogsAction },
    /// Opens a session on the remote machine.
    Shell,
}

/// What to do with the logs.
#[derive(Debug, PartialEq, Eq)]
pub enum LogsAction {
    /// Follows the log of one instance, from its last `lines` lines on.
    Tail { env: Env, lines: u32 },
    /// Copies logs into the local directory `dest`: incrementally with `rsync`, else by full copies.
    Pull { env: Env, dest: String, rsync: bool },
}

/// What each name of a list holds.
pub open spec fn names(list: Seq<&'static str>) -> Seq<Seq<char>> {
    Seq::new(list.len(), |i: int| list[i]@)
}

impl Env {
    /// The names of the instances, in the order in which commands take them.
    pub open spec fn instance_names(self) -> Seq<Seq<char>> {
        match self {
            Env::Ictrading => seq!["ictrading"@],
            Env::Ftmo => seq!["ftmo"@],
            Env::All => seq!["ictrading"@, "ftmo"@],
        }
    }

    /// Lists the names of the instances.
    pub fn instances(self) -> (r: Vec<&'static str>)
        ensures
            names(r@) == self.instance_names(),
    {
        let r: Vec<&'static str> = match self {
            Env::Ictrading => vec!["ictrading"],
            Env::Ftmo => vec!["ftmo"],
            Env::All => vec!["ictrading", "ftmo"],
        };
        assert(names(r@) =~= self.instance_names());
        r
    }
}

/// A command as the contracts speak of it.
pub ghost enum CommandView {
    Start { env: Env },
    Stop { env: Env, grace: u32, force: bool },
    Restart { env: Env, grace: u32 },
    Status,
    Kill,
    Tail { env: Env, lines: u32 },
    Pull { env: Env, dest: Seq<char>, rsync: bool },
    Shell,
}

impl View for Commands {
    type V = CommandView;

    open spec fn view(&self) -> CommandView {
        match *self {
            Commands::Start { env } => CommandView::Start { env },
            Commands::Stop { env, grace, force } => CommandView::Stop { env, grace, force },
            Commands::Restart { env, grace } => CommandView::Restart { env, grace },
            Commands::Status => CommandView::Status,
            Commands::Kill => CommandView::Kill,
            Commands::Logs { action: LogsAction::Tail { env, lines } } => CommandView::Tail {
                env,
                lines,
            },
            Commands::Logs { action: LogsAction::Pull { env, dest, rsync } } => CommandView::Pull {
                env,
                dest: dest@,
                rsync,
            },
            Commands::Shell => CommandView::Shell,
        }
    }
}

} // verus!
