//! Where the remote machine is and what is on it.
use crate::text::replace_char;
use vstd::prelude::*;

verus! {

/// The variable that names the host that ssh connects to.
pub const HOST_VARIABLE: &'static str = "NEXUS_CTL_HOST";

/// The variable that names the project's directory on the remote machine.
pub const REMOTE_PROJECT_VARIABLE: &'static str = "NEXUS_CTL_REMOTE_PROJECT";

/// The variable that holds the first part of every scheduled task's name.
pub const TASK_PREFIX_VARIABLE: &'static str = "NEXUS_CTL_TASK_PREFIX";

/// The host that ssh connects to where `NEXUS_CTL_HOST` is not set.
pub const DEFAULT_HOST: &'static str = "Marci@windows.tail0212d0.ts.net";

/// The project's directory on the remote machine where `NEXUS_CTL_REMOTE_PROJECT` is not set.
pub const DEFAULT_REMOTE_PROJECT: &'static str = r"C:\Users\Marci\Desktop\nexus-trade";

/// The first part of every scheduled task's name where `NEXUS_CTL_TASK_PREFIX` is not set.
pub const DEFAULT_TASK_PREFIX: &'static str = "nexus-trade";

/// What a variable holds, or `default` where it is not set.
pub open spec fn setting(variable: Option<Seq<char>>, default: Seq<char>) -> Seq<char> {
    match variable {
        Some(value) => value,
        None => default,
    }
}

/// What an optional string holds.
pub open spec fn optional(s: Option<String>) -> Option<Seq<char>> {
    match s {
        Some(text) => Some(text@),
        None => None,
    }
}

/// The host that ssh connects to, given what `NEXUS_CTL_HOST` holds.
pub fn host(variable: Option<String>) -> (r: String)
    ensures
        r@ == setting(optional(variable), DEFAULT_HOST@),
{
    match variable {
        Some(value) => value,
        None => DEFAULT_HOST.to_owned(),
    }
}

/// The project's directory on the remote machine, given what `NEXUS_CTL_REMOTE_PROJECT` holds.
pub fn remote_project(variable: Option<String>) -> (r: String)
    ensures
        r@ == setting(optional(variable), DEFAULT_REMOTE_PROJECT@),
{
    match variable {
        Some(value) => value,
        None => DEFAULT_REMOTE_PROJECT.to_owned(),
    }
}

/// The first part of every scheduled task's name, given what `NEXUS_CTL_TASK_PREFIX` holds.
pub fn task_prefix(variable: Option<String>) -> (r: String)
    ensures
        r@ == setting(optional(variable), DEFAULT_TASK_PREFIX@),
{
    match variable {
        Some(value) => value,
        None => DEFAULT_TASK_PREFIX.to_owned(),
    }
}

/// The settings that commands are made from.
#[derive(Debug, PartialEq, Eq)]
pub struct Config {
    pub host: String,
    pub remote_project: String,
    pub task_prefix: String,
}

/// The settings as the contracts speak of them.
pub ghost struct ConfigView {
    pub host: Seq<char>,
    pub remote_project: Seq<char>,
    pub task_prefix: Seq<char>,
}

impl View for Config {
    type V = ConfigView;

    open spec fn view(&self) -> ConfigView {
        ConfigView {
            host: self.host@,
            remote_project: self.remote_project@,
            task_prefix: self.task_prefix@,
        }
    }
}

impl ConfigView {
    /// The name of the scheduled task that runs `instance`.
    pub open spec fn task_of(self, instance: Seq<char>) -> Seq<char> {
        self.task_prefix + "-"@ + instance
    }

    /// The path of the log of `instance` on the remote machine.
    pub open spec fn log_of(self, instance: Seq<char>) -> Seq<char> {
        self.remote_project + r"\logs\"@ + instance + ".log"@
    }
}

/// The name of the scheduled task that runs `instance`.
pub fn task_name(config: &Config, instance: &str) -> (r: String)
    ensures
        r@ == config@.task_of(instance@),
{
    let mut out = config.task_prefix.clone();
    out.append("-");
    out.append(instance);
    out
}

/// The path of the log of `instance` on the remote machine.
pub fn log_path(config: &Config, instance: &str) -> (r: String)
    ensures
        r@ == config@.log_of(instance@),
{
    let mut out = config.remote_project.clone();
    out.append(r"\logs\");
    out.append(instance);
    out.append(".log");
    out
}

/// A path with a slash in the place of every backslash.
pub open spec fn slashed(path: Seq<char>) -> Seq<char> {
    path.map_values(
        |c: char|
            if c == '\\' {
                '/'
            } else {
                c
            },
    )
}

/// To put one character in the place of another is to map each character.
proof fn lemma_replaced_by_slash(path: Seq<char>)
    ensures
        crate::text::replaced(path, '\\', "/"@) == slashed(path),
    decreases path.len(),
{
    reveal_strlit("/");
    if path.len() > 0 {
        lemma_replaced_by_slash(path.drop_last());
        assert(slashed(path) =~= slashed(path.drop_last()).push(slashed(path).last()));
    }
    assert(crate::text::replaced(path, '\\', "/"@) =~= slashed(path));
}

/// Writes a Windows path with forward slashes, as scp and rsync read it.
pub fn to_forward_slashes(windows_path: &str) -> (r: String)
    ensures
        r@ == slashed(windows_path@),
{
    proof {
        lemma_replaced_by_slash(windows_path@);
    }
    replace_char(windows_path, '\\', "/")
}

/// `path` with `home` in the place of a leading tilde that a slash follows; `path` itself where it
/// does not begin so, or where no home directory is known.
pub open spec fn home_expanded(path: Seq<char>, home: Option<Seq<char>>) -> Seq<char> {
    match home {
        Some(dir) if path.len() >= 2 && path[0] == '~' && path[1] == '/' => dir + path.skip(1),
        _ => path,
    }
}

/// Expands a leading `~/` of `path`, given what `HOME` holds.
pub fn shellexpand_home(path: &str, home: &Option<String>) -> (r: String)
    ensures
        r@ == home_expanded(path@, optional(*home)),
{
    if let Some(dir) = home {
        let n: usize = path.unicode_len();
        if n >= 2 && path.get_char(0) == '~' && path.get_char(1) == '/' {
            let mut out = dir.clone();
            out.append(path.substring_char(1, n));
            return out;
        }
    }
    path.to_owned()
}

/// A variable that is set decides, whatever it holds; one that is not leaves the default.
pub proof fn law_setting(value: Seq<char>, default: Seq<char>)
    ensures
        setting(Some(value), default) == value,
        setting(None, default) == default,
{
}

/// The variables and the defaults of the settings.
pub proof fn law_names_and_defaults_of_settings()
    ensures
        HOST_VARIABLE@ == "NEXUS_CTL_HOST"@,
        REMOTE_PROJECT_VARIABLE@ == "NEXUS_CTL_REMOTE_PROJECT"@,
        TASK_PREFIX_VARIABLE@ == "NEXUS_CTL_TASK_PREFIX"@,
        DEFAULT_HOST@ == "Marci@windows.tail0212d0.ts.net"@,
        DEFAULT_REMOTE_PROJECT@ == r"C:\Users\Marci\Desktop\nexus-trade"@,
        DEFAULT_TASK_PREFIX@ == "nexus-trade"@,
{
}

/// The settings and an optional string are seen as they are.
pub proof fn law_config_is_seen_as_it_is(config: Config, text: String)
    ensures
        config@.host == config.host@,
        config@.remote_project == config.remote_project@,
        config@.task_prefix == config.task_prefix@,
        optional(Some(text)) == Some(text@),
        optional(None) == None::<Seq<char>>,
{
}

/// Instances that differ in their name have tasks that differ in their name.
pub proof fn law_tasks_differ(config: ConfigView, a: Seq<char>, b: Seq<char>)
    requires
        a != b,
    ensures
        config.task_of(a) != config.task_of(b),
        config.log_of(a) != config.log_of(b),
{
    let task = config.task_prefix + "-"@;
    assert(config.task_of(a).skip(task.len() as int) =~= a);
    assert(config.task_of(b).skip(task.len() as int) =~= b);
    let log = config.remote_project + r"\logs\"@;
    let (la, lb) = (config.log_of(a), config.log_of(b));
    let end = ".log"@.len() as int;
    assert(la.subrange(log.len() as int, la.len() - end) =~= a);
    assert(lb.subrange(log.len() as int, lb.len() - end) =~= b);
}

/// Whether `p` is `path` with a slash at each backslash, and the same character everywhere else.
pub open spec fn is_slashed(p: Seq<char>, path: Seq<char>) -> bool {
    &&& p.len() == path.len()
    &&& forall|i: int|
        0 <= i < path.len() ==> #[trigger] p[i] == (if path[i] == '\\' {
            '/'
        } else {
            path[i]
        })
}

/// A path is turned character by character.
pub proof fn law_slashed(path: Seq<char>)
    ensures
        is_slashed(slashed(path), path),
{
}

/// A leading `~/` becomes the home directory and a slash; the rest of the path stays.
pub proof fn law_home_is_put_in(dir: Seq<char>, rest: Seq<char>)
    ensures
        home_expanded("~/"@ + rest, Some(dir)) == dir + "/"@ + rest,
{
    reveal_strlit("~/");
    reveal_strlit("/");
    assert(home_expanded("~/"@ + rest, Some(dir)) =~= dir + "/"@ + rest);
}

/// A path without a leading `~/` stays as it is, and so does every path where no home directory is
/// known.
pub proof fn law_other_paths_stay(path: Seq<char>, home: Option<Seq<char>>)
    ensures
        home_expanded(path, None) == path,
        !"~/"@.is_prefix_of(path) ==> home_expanded(path, home) == path,
{
    reveal_strlit("~/");
    if path.len() >= 2 && path[0] == '~' && path[1] == '/' {
        assert("~/"@ =~= path.take(2));
        assert("~/"@.is_prefix_of(path));
    }
}

} // verus!
