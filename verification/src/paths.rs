//! Locations of Airlock's directories and files.
//!
//! Paths are kept as strings and joined the way a Unix `PathBuf::push`
//! joins them: an absolute segment replaces the base, otherwise a `/` is
//! inserted unless the base is empty or already ends with one.

use crate::error::AirlockError;
use crate::text::push_str;
use vstd::prelude::*;

verus! {

/// Unix path joining (`PathBuf::join`).
pub open spec fn path_join(base: Seq<char>, seg: Seq<char>) -> Seq<char> {
    if seg.len() > 0 && seg[0] == '/' {
        seg
    } else if base.len() > 0 && base.last() != '/' {
        base + seq!['/'] + seg
    } else {
        base + seg
    }
}

/// Joins a path segment onto a base path.
pub fn join_path(base: &str, seg: &str) -> (r: String)
    ensures
        r@ == path_join(base@, seg@),
{
    let seg_len = seg.unicode_len();
    if seg_len > 0 && seg.get_char(0) == '/' {
        return seg.to_owned();
    }
    let base_len = base.unicode_len();
    let mut out = base.to_owned();
    if base_len > 0 && base.get_char(base_len - 1) != '/' {
        crate::text::push_char(&mut out, '/');
    }
    push_str(&mut out, seg);
    out
}

/// `a` followed by `b`.
pub fn concat(a: &str, b: &str) -> (r: String)
    ensures
        r@ == a@ + b@,
{
    let mut out = a.to_owned();
    push_str(&mut out, b);
    out
}

/// Provides paths to Airlock directories and files.
#[derive(Debug, Clone)]
pub struct AirlockPaths {
    /// Root directory (~/.airlock).
    root: String,
}

impl AirlockPaths {
    /// The root directory.
    pub closed spec fn root_path(&self) -> Seq<char> {
        self.root@
    }

    /// The paths rooted as `Self::new` roots them: `AIRLOCK_HOME` when it is
    /// set, otherwise `.airlock` under the home directory; an error when
    /// neither is known.
    pub fn from_environment(airlock_home: Option<String>, home_dir: Option<String>) -> (r: Result<
        Self,
        AirlockError,
    >)
        ensures
            airlock_home matches Some(h) ==> (r matches Ok(p) && p.root_path() == h@),
            home_dir matches Some(h) ==> (airlock_home is None ==> (r matches Ok(p)
                && p.root_path() == path_join(h@, ".airlock"@))),
            airlock_home is None && home_dir is None ==> r matches Err(
                AirlockError::Filesystem(_),
            ),
    {
        match airlock_home {
            Some(h) => Ok(AirlockPaths { root: h }),
            None => match home_dir {
                Some(h) => Ok(AirlockPaths { root: join_path(h.as_str(), ".airlock") }),
                None => Err(
                    AirlockError::Filesystem(
                        String::from_str("Could not determine home directory"),
                    ),
                ),
            },
        }
    }

    /// Paths under a custom root directory.
    pub fn with_root(root: String) -> (r: Self)
        ensures
            r.root_path() == root@,
    {
        AirlockPaths { root }
    }

    /// The root directory (~/.airlock).
    pub fn root(&self) -> (r: &String)
        ensures
            r@ == self.root_path(),
    {
        &self.root
    }

    /// The global config file (~/.airlock/config.yml).
    pub fn global_config(&self) -> (r: String)
        ensures
            r@ == path_join(self.root_path(), "config.yml"@),
    {
        join_path(self.root.as_str(), "config.yml")
    }

    /// The state database (~/.airlock/state.sqlite).
    pub fn database(&self) -> (r: String)
        ensures
            r@ == path_join(self.root_path(), "state.sqlite"@),
    {
        join_path(self.root.as_str(), "state.sqlite")
    }

    /// The repos directory (~/.airlock/repos).
    pub fn repos_dir(&self) -> (r: String)
        ensures
            r@ == path_join(self.root_path(), "repos"@),
    {
        join_path(self.root.as_str(), "repos")
    }

    /// A repo's bare gate (~/.airlock/repos/{repo_id}.git).
    pub fn repo_gate(&self, repo_id: &str) -> (r: String)
        ensures
            r@ == path_join(path_join(self.root_path(), "repos"@), repo_id@ + ".git"@),
    {
        let name = concat(repo_id, ".git");
        join_path(self.repos_dir().as_str(), name.as_str())
    }

    /// The artifacts directory (~/.airlock/artifacts).
    pub fn artifacts_dir(&self) -> (r: String)
        ensures
            r@ == path_join(self.root_path(), "artifacts"@),
    {
        join_path(self.root.as_str(), "artifacts")
    }

    /// A repo's artifacts directory.
    pub fn repo_artifacts(&self, repo_id: &str) -> (r: String)
        ensures
            r@ == path_join(path_join(self.root_path(), "artifacts"@), repo_id@),
    {
        join_path(self.artifacts_dir().as_str(), repo_id)
    }

    /// A run's artifacts directory (~/.airlock/artifacts/{repo_id}/{run_id}).
    pub fn run_artifacts(&self, repo_id: &str, run_id: &str) -> (r: String)
        ensures
            r@ == path_join(path_join(path_join(self.root_path(), "artifacts"@), repo_id@), run_id@),
    {
        join_path(self.repo_artifacts(repo_id).as_str(), run_id)
    }

    /// The locks directory (~/.airlock/locks).
    pub fn locks_dir(&self) -> (r: String)
        ensures
            r@ == path_join(self.root_path(), "locks"@),
    {
        join_path(self.root.as_str(), "locks")
    }

    /// A repo's lock file (~/.airlock/locks/{repo_id}.lock).
    pub fn repo_lock(&self, repo_id: &str) -> (r: String)
        ensures
            r@ == path_join(path_join(self.root_path(), "locks"@), repo_id@ + ".lock"@),
    {
        let name = concat(repo_id, ".lock");
        join_path(self.locks_dir().as_str(), name.as_str())
    }

    /// The bin directory (~/.airlock/bin).
    pub fn bin_dir(&self) -> (r: String)
        ensures
            r@ == path_join(self.root_path(), "bin"@),
    {
        join_path(self.root.as_str(), "bin")
    }

    /// The upload-pack wrapper script (~/.airlock/bin/airlock-upload-pack).
    pub fn upload_pack_wrapper(&self) -> (r: String)
        ensures
            r@ == path_join(path_join(self.root_path(), "bin"@), "airlock-upload-pack"@),
    {
        join_path(self.bin_dir().as_str(), "airlock-upload-pack")
    }

    /// The worktrees directory (~/.airlock/worktrees).
    pub fn worktrees_dir(&self) -> (r: String)
        ensures
            r@ == path_join(self.root_path(), "worktrees"@),
    {
        join_path(self.root.as_str(), "worktrees")
    }

    /// Short-lived worktrees used while syncing (~/.airlock/worktrees/{repo_id}/sync).
    pub fn sync_worktree_dir(&self, repo_id: &str) -> (r: String)
        ensures
            r@ == path_join(path_join(path_join(self.root_path(), "worktrees"@), repo_id@), "sync"@),
    {
        let d = join_path(self.worktrees_dir().as_str(), repo_id);
        join_path(d.as_str(), "sync")
    }

    /// A repo's persistent worktree (~/.airlock/worktrees/{repo_id}/persistent).
    pub fn repo_worktree(&self, repo_id: &str) -> (r: String)
        ensures
            r@ == path_join(
                path_join(path_join(self.root_path(), "worktrees"@), repo_id@),
                "persistent"@,
            ),
    {
        let d = join_path(self.worktrees_dir().as_str(), repo_id);
        join_path(d.as_str(), "persistent")
    }

    /// A run's worktree (~/.airlock/worktrees/{repo_id}/{run_id}).
    pub fn run_worktree(&self, repo_id: &str, run_id: &str) -> (r: String)
        ensures
            r@ == path_join(path_join(path_join(self.root_path(), "worktrees"@), repo_id@), run_id@),
    {
        let d = join_path(self.worktrees_dir().as_str(), repo_id);
        join_path(d.as_str(), run_id)
    }

    /// An intent's worktree (~/.airlock/worktrees/{repo_id}/{run_id}/{intent_id}).
    pub fn intent_worktree(&self, repo_id: &str, run_id: &str, intent_id: &str) -> (r: String)
        ensures
            r@ == path_join(
                path_join(path_join(path_join(self.root_path(), "worktrees"@), repo_id@), run_id@),
                intent_id@,
            ),
    {
        let d = self.run_worktree(repo_id, run_id);
        join_path(d.as_str(), intent_id)
    }

    /// The branch name for an intent: `airlock/{run_id}/{intent_id}`.
    pub fn intent_branch_name(run_id: &str, intent_id: &str) -> (r: String)
        ensures
            r@ == "airlock/"@ + run_id@ + "/"@ + intent_id@,
    {
        let mut out = String::from_str("airlock/");
        push_str(&mut out, run_id);
        push_str(&mut out, "/");
        push_str(&mut out, intent_id);
        out
    }

    /// The Unix domain socket (~/.airlock/socket).
    pub fn socket(&self) -> (r: String)
        ensures
            r@ == path_join(self.root_path(), "socket"@),
    {
        join_path(self.root.as_str(), "socket")
    }

    /// The IPC endpoint name: on Unix, the socket path.
    pub fn socket_name(&self) -> (r: String)
        ensures
            r@ == path_join(self.root_path(), "socket"@),
    {
        self.socket()
    }

    /// The directories that must exist, in the order they are created.
    pub fn required_dirs(&self) -> (r: Vec<String>)
        ensures
            r@.len() == 6,
            r@[0]@ == self.root_path(),
            r@[1]@ == path_join(self.root_path(), "repos"@),
            r@[2]@ == path_join(self.root_path(), "artifacts"@),
            r@[3]@ == path_join(self.root_path(), "locks"@),
            r@[4]@ == path_join(self.root_path(), "worktrees"@),
            r@[5]@ == path_join(self.root_path(), "bin"@),
    {
        let mut v: Vec<String> = Vec::new();
        v.push(self.root.clone());
        v.push(self.repos_dir());
        v.push(self.artifacts_dir());
        v.push(self.locks_dir());
        v.push(self.worktrees_dir());
        v.push(self.bin_dir());
        v
    }
}

/// Distinct runs of a repo get distinct worktrees, none of them the
/// persistent one unless the run is named "persistent".
pub proof fn law_run_worktrees_distinct(root: Seq<char>, repo: Seq<char>, a: Seq<char>, b: Seq<char>)
    requires
        a != b,
        a.len() > 0 && a[0] != '/',
        b.len() > 0 && b[0] != '/',
    ensures
        path_join(path_join(path_join(root, "worktrees"@), repo), a) != path_join(
            path_join(path_join(root, "worktrees"@), repo),
            b,
        ),
{
    let d = path_join(path_join(root, "worktrees"@), repo);
    let ja = path_join(d, a);
    let jb = path_join(d, b);
    if d.len() > 0 && d.last() != '/' {
        let pre = d + seq!['/'];
        assert(ja == pre + a);
        assert(jb == pre + b);
        if ja == jb {
            assert(ja.subrange(pre.len() as int, ja.len() as int) =~= a);
            assert(jb.subrange(pre.len() as int, jb.len() as int) =~= b);
        }
    } else {
        if ja == jb {
            assert(ja.subrange(d.len() as int, ja.len() as int) =~= a);
            assert(jb.subrange(d.len() as int, jb.len() as int) =~= b);
        }
    }
}

} // verus!
