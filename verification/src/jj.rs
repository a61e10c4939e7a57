//! Keeping Jujutsu's bookmark tracking in step with the git remotes that
//! `init` and `eject` rewire, in a repository where jj is colocated with
//! git. Every step is best-effort for the caller; this module decides the
//! steps and what their failures mean.

use crate::error::AirlockError;
use crate::text::{push_str, trim, trim_seq};
use vstd::prelude::*;

verus! {

/// A jj command of the bookmark synchronisation.
#[derive(Debug, Clone, PartialEq, Eq)]
pub enum JjCommand {
    /// `jj git import`.
    GitImport,
    /// `jj bookmark track 'glob:*@<remote>'`.
    Track(String),
    /// `jj bookmark untrack 'glob:*@<remote>'`.
    Untrack(String),
}

/// The bookmark pattern naming every bookmark of `remote`.
pub fn bookmark_glob(remote: &str) -> (r: String)
    ensures
        r@ == "glob:*@"@ + remote@,
{
    let mut g = "glob:*@".to_string();
    push_str(&mut g, remote);
    g
}

/// The error of a jj command that exited with a failure: which command,
/// and its standard error, trimmed.
pub fn jj_failure(cmd: &JjCommand, stderr: &str) -> (r: AirlockError)
    ensures
        r matches AirlockError::Git(m) && m@ == match cmd {
            JjCommand::GitImport => "jj git import failed: "@,
            JjCommand::Track(_) => "jj bookmark track failed: "@,
            JjCommand::Untrack(_) => "jj bookmark untrack failed: "@,
        } + trim_seq(stderr@),
{
    let mut m = match cmd {
        JjCommand::GitImport => "jj git import failed: ".to_string(),
        JjCommand::Track(_) => "jj bookmark track failed: ".to_string(),
        JjCommand::Untrack(_) => "jj bookmark untrack failed: ".to_string(),
    };
    push_str(&mut m, trim(stderr));
    AirlockError::Git(m)
}

/// A bookmark synchronisation in progress: the commands still to run.
#[derive(Debug)]
pub struct JjSync {
    /// Commands, in order, each with whether its failure ends the sync.
    steps: Vec<(JjCommand, bool)>,
    /// How many have run.
    done: usize,
}

impl JjSync {
    /// The commands, each with whether its failure ends the sync.
    pub closed spec fn steps(&self) -> Seq<(JjCommand, bool)> {
        self.steps@
    }

    /// How many commands have run.
    pub closed spec fn done(&self) -> nat {
        self.done as nat
    }

    /// The next command to run, if any.
    pub fn next_command(&self) -> (r: Option<&JjCommand>)
        ensures
            self.done() < self.steps().len() ==> (r matches Some(c) && *c == self.steps()[self.done() as int].0),
            self.done() >= self.steps().len() ==> r is None,
    {
        if self.done < self.steps.len() {
            Some(&self.steps[self.done].0)
        } else {
            None
        }
    }

    /// Records the outcome of the command that ran. Returns the outcome of
    /// the whole synchronisation once it is decided: the error of a command
    /// whose failure ends it, or success after the last command.
    pub fn on_outcome(&mut self, outcome: Result<(), AirlockError>) -> (r: Option<Result<(), AirlockError>>)
        requires
            old(self).done() < old(self).steps().len(),
        ensures
            final(self).steps() == old(self).steps(),
            final(self).done() == old(self).done() + 1,
            outcome is Err && old(self).steps()[old(self).done() as int].1 ==> r == Some(outcome),
            !(outcome is Err && old(self).steps()[old(self).done() as int].1) ==> if final(self).done()
                == old(self).steps().len() {
                r matches Some(x) && x is Ok
            } else {
                r is None
            },
    {
        let n = self.steps.len();
        let fatal = self.steps[self.done].1;
        assert(self.done < n);
        self.done = self.done + 1;
        match outcome {
            Err(e) => {
                if fatal {
                    return Some(Err(e));
                }
            },
            Ok(()) => {},
        }
        if self.done == self.steps.len() {
            Some(Ok(()))
        } else {
            None
        }
    }
}

/// The synchronisation after `init`: import the rewired refs, track
/// `origin` (the local gate), then untrack `upstream` (whose failure, as for
/// a fresh repository without bookmarks, does not matter).
pub fn sync_after_init() -> (r: JjSync)
    ensures
        r.done() == 0,
        r.steps().len() == 3,
        r.steps()[0] == (JjCommand::GitImport, true),
        r.steps()[1].0 matches JjCommand::Track(x) && x@ == "origin"@,
        r.steps()[1].1,
        r.steps()[2].0 matches JjCommand::Untrack(x) && x@ == "upstream"@,
        !r.steps()[2].1,
{
    let mut steps: Vec<(JjCommand, bool)> = Vec::new();
    steps.push((JjCommand::GitImport, true));
    steps.push((JjCommand::Track("origin".to_string()), true));
    steps.push((JjCommand::Untrack("upstream".to_string()), false));
    JjSync { steps, done: 0 }
}

/// The synchronisation after `eject`: import the restored refs, then
/// track `origin` (the real remote again).
pub fn sync_after_eject() -> (r: JjSync)
    ensures
        r.done() == 0,
        r.steps().len() == 2,
        r.steps()[0] == (JjCommand::GitImport, true),
        r.steps()[1].0 matches JjCommand::Track(x) && x@ == "origin"@,
        r.steps()[1].1,
{
    let mut steps: Vec<(JjCommand, bool)> = Vec::new();
    steps.push((JjCommand::GitImport, true));
    steps.push((JjCommand::Track("origin".to_string()), true));
    JjSync { steps, done: 0 }
}

} // verus!
