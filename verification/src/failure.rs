//! What can go wrong, and how it is told.
use crate::text::{signed_decimal, signed_decimal_text};
use vstd::prelude::*;

verus! {

/// Why a command failed.
#[derive(Debug, PartialEq, Eq)]
pub enum Failure {
    /// `logs tail` was asked for more than one instance.
    OneInstanceOnly,
    /// The directory for the logs could not be created.
    CreateDir { path: String },
    /// A program could not be started.
    Spawn { program: String },
    /// ssh could not be started for a session.
    ShellSpawn,
    /// The script could not be written to ssh.
    Feed,
    /// The end of ssh could not be waited for.
    Await,
    /// A command on the remote machine ended without success.
    CommandExit { code: Option<i32> },
    /// A script on the remote machine ended without success.
    ScriptExit { code: Option<i32> },
    /// A program on this machine ended without success.
    LocalExit { program: String, code: Option<i32> },
}

/// A failure as the contracts speak of it.
pub ghost enum FailureView {
    OneInstanceOnly,
    CreateDir { path: Seq<char> },
    Spawn { program: Seq<char> },
    ShellSpawn,
    Feed,
    Await,
    CommandExit { code: Option<i32> },
    ScriptExit { code: Option<i32> },
    LocalExit { program: Seq<char>, code: Option<i32> },
}

impl View for Failure {
    type V = FailureView;

    open spec fn view(&self) -> FailureView {
        match *self {
            Failure::OneInstanceOnly => FailureView::OneInstanceOnly,
            Failure::CreateDir { path } => FailureView::CreateDir { path: path@ },
            Failure::Spawn { program } => FailureView::Spawn { program: program@ },
            Failure::ShellSpawn => FailureView::ShellSpawn,
            Failure::Feed => FailureView::Feed,
            Failure::Await => FailureView::Await,
            Failure::CommandExit { code } => FailureView::CommandExit { code },
            Failure::ScriptExit { code } => FailureView::ScriptExit { code },
            Failure::LocalExit { program, code } => FailureView::LocalExit {
                program: program@,
                code,
            },
        }
    }
}

/// An exit status in words: its number, or `unknown` where the program was ended by a signal.
pub open spec fn status_words(code: Option<i32>) -> Seq<char> {
    match code {
        Some(c) => signed_decimal(c as int),
        None => "unknown"@,
    }
}

/// An exit status as an optional number is written in Rust.
pub open spec fn status_option(code: Option<i32>) -> Seq<char> {
    match code {
        Some(c) => "Some("@ + signed_decimal(c as int) + ")"@,
        None => "None"@,
    }
}

impl FailureView {
    /// The message that tells of a failure.
    pub open spec fn text(self) -> Seq<char> {
        match self {
            FailureView::OneInstanceOnly =>
                "`logs tail` only supports one instance at a time — pass `ictrading` or `ftmo` "@,
            FailureView::CreateDir { path } => "failed to create destination dir "@ + path,
            FailureView::Spawn { program } => "failed to spawn `"@ + program
                + "` — is it installed and on your PATH?"@,
            FailureView::ShellSpawn => "failed to spawn `ssh` "@,
            FailureView::Feed => "failed to write script to remote powershell over ssh stdin"@,
            FailureView::Await => "failed waiting on ssh"@,
            FailureView::CommandExit { code } => "remote command exited with status "@
                + status_words(code),
            FailureView::ScriptExit { code } => "remote script exited with status "@
                + status_words(code),
            FailureView::LocalExit { program, code } => program + " exited with status "@
                + status_option(code),
        }
    }
}

/// Writes an exit status in words.
fn status_words_text(code: Option<i32>) -> (r: String)
    ensures
        r@ == status_words(code),
{
    match code {
        Some(c) => signed_decimal_text(c),
        None => "unknown".to_owned(),
    }
}

/// Writes an exit status as an optional number.
fn status_option_text(code: Option<i32>) -> (r: String)
    ensures
        r@ == status_option(code),
{
    match code {
        Some(c) => {
            let mut out = "Some(".to_owned();
            out.append(signed_decimal_text(c).as_str());
            out.append(")");
            out
        },
        None => "None".to_owned(),
    }
}

impl Failure {
    /// Writes the message that tells of the failure.
    pub fn message(&self) -> (r: String)
        ensures
            r@ == self@.text(),
    {
        match self {
            Failure::OneInstanceOnly =>
                "`logs tail` only supports one instance at a time — pass `ictrading` or `ftmo` ".to_owned(),
            Failure::CreateDir { path } => {
                let mut out = "failed to create destination dir ".to_owned();
                out.append(path.as_str());
                out
            },
            Failure::Spawn { program } => {
                let mut out = "failed to spawn `".to_owned();
                out.append(program.as_str());
                out.append("` — is it installed and on your PATH?");
                out
            },
            Failure::ShellSpawn => "failed to spawn `ssh` ".to_owned(),
            Failure::Feed =>
                "failed to write script to remote powershell over ssh stdin".to_owned(),
            Failure::Await => "failed waiting on ssh".to_owned(),
            Failure::CommandExit { code } => {
                let mut out = "remote command exited with status ".to_owned();
                out.append(status_words_text(*code).as_str());
                out
            },
            Failure::ScriptExit { code } => {
                let mut out = "remote script exited with status ".to_owned();
                out.append(status_words_text(*code).as_str());
                out
            },
            Failure::LocalExit { program, code } => {
                let mut out = program.clone();
                out.append(" exited with status ");
                out.append(status_option_text(*code).as_str());
                out
            },
        }
    }
}

} // verus!
