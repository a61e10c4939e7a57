//! The decisions of running a stage: its environment variables, where its
//! logs go, which shell runs it, how its outcome becomes a step result,
//! which base commit a run is diffed against, and when a log stops growing.
//! Spawning processes and touching files is the caller's.

use crate::paths::{path_join, AirlockPaths};
use crate::pipeline::{finished_step_status, null_sha, opt_text, requires_pause};
use crate::text::{
    decimal, join, join_seq, lines, lines_seq, push_decimal, push_signed_decimal, push_str,
    rfind_char, seq_starts_with, signed_decimal, strip_prefix, trim, trim_seq,
};
use crate::types::{ApprovalMode, StepDefinition, StepResult, StepStatus};
use vstd::prelude::*;

verus! {

// =============================================================================
// Log files
// =============================================================================

/// Maximum size in bytes of one log file; writes beyond it are dropped.
pub const MAX_LOG_FILE_SIZE: u64 = 50 * 1024 * 1024;

/// What is written to a log once it reaches the cap.
pub const LOG_TRUNCATED_MARKER: &'static str = "\n[log truncated at 50 MB]\n";

/// What appending to a capped log file does.
#[derive(Debug, Clone, Copy, PartialEq, Eq, Structural)]
pub enum LogAppend {
    /// The file is full: nothing is written.
    Drop,
    /// The content would pass the cap: the truncation marker is written
    /// instead, once.
    WriteMarker,
    /// The content is appended.
    Write,
}

/// Length in characters (and bytes) of the truncation marker.
pub const LOG_MARKER_LEN: u64 = 26;

/// What appending `content_len` bytes does to a log of `size` bytes that
/// is `marked` when its truncation marker has been written: a marked log,
/// or one at the cap, drops every write; content that would pass the cap
/// is replaced by the marker; anything else is appended.
pub open spec fn append_action(size: u64, marked: bool, content_len: u64) -> LogAppend {
    if marked || size >= MAX_LOG_FILE_SIZE {
        LogAppend::Drop
    } else if size + content_len > MAX_LOG_FILE_SIZE {
        LogAppend::WriteMarker
    } else {
        LogAppend::Write
    }
}

/// What appending `content_len` bytes to a log of `current_size` bytes,
/// `marked` or not, does.
pub fn log_append_action(current_size: u64, content_len: u64, marked: bool) -> (r: LogAppend)
    ensures
        r == append_action(current_size, marked, content_len),
{
    if marked || current_size >= MAX_LOG_FILE_SIZE {
        LogAppend::Drop
    } else if content_len > MAX_LOG_FILE_SIZE - current_size {
        LogAppend::WriteMarker
    } else {
        LogAppend::Write
    }
}

/// The state of a capped log: its size, and whether it has been marked.
#[derive(Debug, Clone, Copy, PartialEq, Eq, Structural)]
pub struct CappedLog {
    pub size: u64,
    pub marked: bool,
}

/// The log after appending `content_len` bytes: unchanged when the write is
/// dropped; grown by the marker, and marked, when the marker is written;
/// grown by the content otherwise.
pub open spec fn after_append(log: CappedLog, content_len: u64) -> CappedLog {
    match append_action(log.size, log.marked, content_len) {
        LogAppend::Drop => log,
        LogAppend::WriteMarker => CappedLog { size: (log.size + LOG_MARKER_LEN) as u64, marked: true },
        LogAppend::Write => CappedLog { size: (log.size + content_len) as u64, marked: log.marked },
    }
}

impl CappedLog {
    /// Appends `content_len` bytes; says what is written.
    pub fn append(&mut self, content_len: u64) -> (r: LogAppend)
        ensures
            r == append_action(old(self).size, old(self).marked, content_len),
            *final(self) == after_append(*old(self), content_len),
    {
        let r = log_append_action(self.size, content_len, self.marked);
        match r {
            LogAppend::Drop => {},
            LogAppend::WriteMarker => {
                self.size = self.size + LOG_MARKER_LEN;
                self.marked = true;
            },
            LogAppend::Write => {
                self.size = self.size + content_len;
            },
        }
        r
    }
}

/// Once the marker is written, every later write is dropped and the log
/// stays as it is.
pub proof fn law_marked_log_drops_writes(log: CappedLog, content_len: u64)
    requires
        log.marked,
    ensures
        append_action(log.size, log.marked, content_len) == LogAppend::Drop,
        after_append(log, content_len) == log,
{
}

/// Writing the marker marks the log.
pub proof fn law_marker_marks_log(log: CappedLog, content_len: u64)
    requires
        append_action(log.size, log.marked, content_len) == LogAppend::WriteMarker,
    ensures
        after_append(log, content_len).marked,
{
}

/// A log that starts within the cap never grows past the cap plus the
/// marker: content is appended only while it fits.
pub proof fn law_log_growth_bounded(log: CappedLog, content_len: u64)
    requires
        log.size <= MAX_LOG_FILE_SIZE + LOG_MARKER_LEN,
    ensures
        after_append(log, content_len).size <= MAX_LOG_FILE_SIZE + LOG_MARKER_LEN,
        append_action(log.size, log.marked, content_len) == LogAppend::Write ==> log.size
            + content_len <= MAX_LOG_FILE_SIZE,
{
}

/// The directory of a stage's logs:
/// `<run artifacts>/logs/<stage>`, or `<run artifacts>/logs/<job>/<stage>`.
pub open spec fn stage_logs_dir_spec(
    root: Seq<char>,
    repo_id: Seq<char>,
    run_id: Seq<char>,
    stage_name: Seq<char>,
    job_key: Option<Seq<char>>,
) -> Seq<char> {
    let logs = path_join(
        path_join(path_join(path_join(root, "artifacts"@), repo_id), run_id),
        "logs"@,
    );
    match job_key {
        Some(k) => path_join(path_join(logs, k), stage_name),
        None => path_join(logs, stage_name),
    }
}

/// The directory of a stage's logs (to be created before the stage runs).
pub fn stage_logs_dir(
    paths: &AirlockPaths,
    repo_id: &str,
    run_id: &str,
    stage_name: &str,
    job_key: Option<&str>,
) -> (r: String)
    ensures
        r@ == stage_logs_dir_spec(paths.root_path(), repo_id@, run_id@, stage_name@, match job_key {
            Some(k) => Some(k@),
            None => None,
        }),
{
    let run_dir = paths.run_artifacts(repo_id, run_id);
    let logs = crate::paths::join_path(run_dir.as_str(), "logs");
    match job_key {
        Some(k) => {
            let d = crate::paths::join_path(logs.as_str(), k);
            crate::paths::join_path(d.as_str(), stage_name)
        },
        None => crate::paths::join_path(logs.as_str(), stage_name),
    }
}

// =============================================================================
// The stage environment
// =============================================================================

/// Environment variables provided to each stage.
#[derive(Debug, Clone)]
pub struct StageEnvironment {
    /// Unique run identifier (UUID).
    pub run_id: String,
    /// Branch being pushed (e.g., "refs/heads/feature/add-auth").
    pub branch: String,
    /// Base commit SHA (before push).
    pub base_sha: String,
    /// Head commit SHA (after push).
    pub head_sha: String,
    /// Absolute path to run worktree (also CWD).
    pub worktree: String,
    /// Directory for run-level artifacts (shared by all stages).
    pub artifacts: String,
    /// Directory for this stage's log files (stdout.log, stderr.log).
    pub logs_dir: String,
    /// Path to write JSON result (optional).
    pub stage_result_path: String,
    /// Path to the original working repository.
    pub repo_root: String,
    /// URL of the upstream remote.
    pub upstream_url: String,
    /// Path to the bare gate repository.
    pub gate_path: String,
    /// Default branch of the upstream repository (e.g., "main" or "master").
    pub default_branch: String,
    /// Job key (from workflow jobs map).
    pub job_key: Option<String>,
    /// Job display name.
    pub job_name: Option<String>,
    /// Git author name from the working repo (user.name config).
    pub git_author_name: Option<String>,
    /// Git author email from the working repo (user.email config).
    pub git_author_email: Option<String>,
}

/// Parameters for building a stage environment.
pub struct StageEnvironmentParams<'a> {
    /// Airlock paths.
    pub paths: &'a AirlockPaths,
    /// Repository ID.
    pub repo_id: &'a str,
    /// Run ID.
    pub run_id: &'a str,
    /// Stage name.
    pub stage_name: &'a str,
    /// Branch being pushed.
    pub branch: &'a str,
    /// Base commit SHA.
    pub base_sha: &'a str,
    /// Head commit SHA.
    pub head_sha: &'a str,
    /// Path to the worktree.
    pub worktree_path: &'a str,
    /// Path to the original repository root.
    pub repo_root: &'a str,
    /// URL of the upstream remote.
    pub upstream_url: &'a str,
    /// Path to the bare gate repository.
    pub gate_path: &'a str,
    /// Job key; logs then go under `logs/{job_key}/{stage_name}/`.
    pub job_key: Option<&'a str>,
}

/// A `(name, value)` list of environment variables, as text.
pub open spec fn env_view(v: Seq<(String, String)>) -> Seq<(Seq<char>, Seq<char>)> {
    v.map_values(|p: (String, String)| (p.0@, p.1@))
}

/// Appends `(name, value)` when the value is present.
pub open spec fn push_opt(
    v: Seq<(Seq<char>, Seq<char>)>,
    name: Seq<char>,
    value: Option<String>,
) -> Seq<(Seq<char>, Seq<char>)> {
    match value {
        Some(x) => v.push((name, x@)),
        None => v,
    }
}

/// The environment of a stage, in order: the run's identity, paths and
/// branches; the job's key and name when known; the author's identity when
/// known; Airlock as committer; and, when the daemon's binary directory is
/// known, a `PATH` of that directory followed by the user's `PATH`.
pub open spec fn env_spec(e: StageEnvironment, exe_dir: Option<Seq<char>>, user_path: Seq<char>) -> Seq<
    (Seq<char>, Seq<char>),
> {
    let base = seq![
        ("AIRLOCK_RUN_ID"@, e.run_id@),
        ("AIRLOCK_BRANCH"@, e.branch@),
        ("AIRLOCK_BASE_SHA"@, e.base_sha@),
        ("AIRLOCK_HEAD_SHA"@, e.head_sha@),
        ("AIRLOCK_WORKTREE"@, e.worktree@),
        ("AIRLOCK_ARTIFACTS"@, e.artifacts@),
        ("AIRLOCK_STAGE_RESULT"@, e.stage_result_path@),
        ("AIRLOCK_REPO_ROOT"@, e.repo_root@),
        ("AIRLOCK_UPSTREAM_URL"@, e.upstream_url@),
        ("AIRLOCK_GATE_PATH"@, e.gate_path@),
        ("AIRLOCK_DEFAULT_BRANCH"@, e.default_branch@),
    ];
    let with_job = push_opt(push_opt(base, "AIRLOCK_JOB_KEY"@, e.job_key), "AIRLOCK_JOB_NAME"@, e.job_name);
    let with_author = push_opt(
        push_opt(with_job, "GIT_AUTHOR_NAME"@, e.git_author_name),
        "GIT_AUTHOR_EMAIL"@,
        e.git_author_email,
    );
    let with_committer = with_author.push(("GIT_COMMITTER_NAME"@, "Airlock"@)).push(
        ("GIT_COMMITTER_EMAIL"@, "airlock@airlockhq.com"@),
    );
    match exe_dir {
        Some(d) => with_committer.push(("PATH"@, d + ":"@ + user_path)),
        None => with_committer,
    }
}

fn push_env(v: &mut Vec<(String, String)>, name: &str, value: &String)
    ensures
        env_view(final(v)@) == env_view(old(v)@).push((name@, value@)),
{
    v.push((name.to_string(), value.clone()));
    proof {
        assert(env_view(v@) =~= env_view(old(v)@).push((name@, value@)));
    }
}

fn push_env_opt(v: &mut Vec<(String, String)>, name: &str, value: &Option<String>)
    ensures
        env_view(final(v)@) == push_opt(env_view(old(v)@), name@, *value),
{
    match value {
        Some(x) => push_env(v, name, x),
        None => {},
    }
}

impl StageEnvironment {
    /// The environment variables of the stage, in order (see `env_spec`).
    /// `exe_dir` is the directory of the daemon's binary, when known, and
    /// `user_path` the user's login `PATH`.
    pub fn to_env_vars(&self, exe_dir: Option<&str>, user_path: &str) -> (r: Vec<(String, String)>)
        ensures
            env_view(r@) == env_spec(*self, match exe_dir {
                Some(d) => Some(d@),
                None => None,
            }, user_path@),
    {
        let mut env: Vec<(String, String)> = Vec::new();
        push_env(&mut env, "AIRLOCK_RUN_ID", &self.run_id);
        push_env(&mut env, "AIRLOCK_BRANCH", &self.branch);
        push_env(&mut env, "AIRLOCK_BASE_SHA", &self.base_sha);
        push_env(&mut env, "AIRLOCK_HEAD_SHA", &self.head_sha);
        push_env(&mut env, "AIRLOCK_WORKTREE", &self.worktree);
        push_env(&mut env, "AIRLOCK_ARTIFACTS", &self.artifacts);
        push_env(&mut env, "AIRLOCK_STAGE_RESULT", &self.stage_result_path);
        push_env(&mut env, "AIRLOCK_REPO_ROOT", &self.repo_root);
        push_env(&mut env, "AIRLOCK_UPSTREAM_URL", &self.upstream_url);
        push_env(&mut env, "AIRLOCK_GATE_PATH", &self.gate_path);
        push_env(&mut env, "AIRLOCK_DEFAULT_BRANCH", &self.default_branch);
        proof {
            assert(env_view(env@) =~= seq![
                ("AIRLOCK_RUN_ID"@, self.run_id@),
                ("AIRLOCK_BRANCH"@, self.branch@),
                ("AIRLOCK_BASE_SHA"@, self.base_sha@),
                ("AIRLOCK_HEAD_SHA"@, self.head_sha@),
                ("AIRLOCK_WORKTREE"@, self.worktree@),
                ("AIRLOCK_ARTIFACTS"@, self.artifacts@),
                ("AIRLOCK_STAGE_RESULT"@, self.stage_result_path@),
                ("AIRLOCK_REPO_ROOT"@, self.repo_root@),
                ("AIRLOCK_UPSTREAM_URL"@, self.upstream_url@),
                ("AIRLOCK_GATE_PATH"@, self.gate_path@),
                ("AIRLOCK_DEFAULT_BRANCH"@, self.default_branch@),
            ]);
        }
        push_env_opt(&mut env, "AIRLOCK_JOB_KEY", &self.job_key);
        push_env_opt(&mut env, "AIRLOCK_JOB_NAME", &self.job_name);
        push_env_opt(&mut env, "GIT_AUTHOR_NAME", &self.git_author_name);
        push_env_opt(&mut env, "GIT_AUTHOR_EMAIL", &self.git_author_email);
        push_env(&mut env, "GIT_COMMITTER_NAME", &"Airlock".to_string());
        push_env(&mut env, "GIT_COMMITTER_EMAIL", &"airlock@airlockhq.com".to_string());
        match exe_dir {
            Some(d) => {
                let mut p = d.to_string();
                push_str(&mut p, ":");
                push_str(&mut p, user_path);
                push_env(&mut env, "PATH", &p);
            },
            None => {},
        }
        env
    }
}

/// The environment of a stage, from its parameters and what was found out
/// about the repository: the logs directory, the upstream's default branch
/// and the author's configured name and email. The job name is left to the
/// caller.
pub fn build_stage_environment(
    params: &StageEnvironmentParams,
    default_branch: String,
    git_author_name: Option<String>,
    git_author_email: Option<String>,
) -> (r: StageEnvironment)
    ensures
        r.run_id@ == params.run_id@,
        r.branch@ == params.branch@,
        r.base_sha@ == params.base_sha@,
        r.head_sha@ == params.head_sha@,
        r.worktree@ == params.worktree_path@,
        r.artifacts@ == path_join(
            path_join(path_join(params.paths.root_path(), "artifacts"@), params.repo_id@),
            params.run_id@,
        ),
        r.logs_dir@ == stage_logs_dir_spec(
            params.paths.root_path(),
            params.repo_id@,
            params.run_id@,
            params.stage_name@,
            match params.job_key {
                Some(k) => Some(k@),
                None => None,
            },
        ),
        r.stage_result_path@ == path_join(r.logs_dir@, "result.json"@),
        r.repo_root@ == params.repo_root@,
        r.upstream_url@ == params.upstream_url@,
        r.gate_path@ == params.gate_path@,
        r.default_branch == default_branch,
        opt_text(r.job_key) == match params.job_key {
            Some(k) => Some(k@),
            None => None,
        },
        r.job_name is None,
        r.git_author_name == git_author_name,
        r.git_author_email == git_author_email,
{
    let logs_dir = stage_logs_dir(
        params.paths,
        params.repo_id,
        params.run_id,
        params.stage_name,
        params.job_key,
    );
    let artifacts = params.paths.run_artifacts(params.repo_id, params.run_id);
    let stage_result_path = crate::paths::join_path(logs_dir.as_str(), "result.json");
    StageEnvironment {
        run_id: params.run_id.to_string(),
        branch: params.branch.to_string(),
        base_sha: params.base_sha.to_string(),
        head_sha: params.head_sha.to_string(),
        worktree: params.worktree_path.to_string(),
        artifacts,
        logs_dir,
        stage_result_path,
        repo_root: params.repo_root.to_string(),
        upstream_url: params.upstream_url.to_string(),
        gate_path: params.gate_path.to_string(),
        default_branch,
        job_key: match params.job_key {
            Some(k) => Some(k.to_string()),
            None => None,
        },
        job_name: None,
        git_author_name,
        git_author_email,
    }
}

// =============================================================================
// Shells
// =============================================================================

/// The shell a stage runs in and its arguments: the stage's own shell, or
/// the user's login shell, each as a login shell (`-l -c`).
pub fn stage_shell(stage: &StepDefinition, login_shell: &str) -> (r: (String, Vec<String>))
    ensures
        r.0@ == match stage.shell {
            Some(s) => s@,
            None => login_shell@,
        },
        r.1@.len() == 2,
        r.1@[0]@ == "-l"@,
        r.1@[1]@ == "-c"@,
{
    let shell = match &stage.shell {
        Some(s) => s.clone(),
        None => login_shell.to_string(),
    };
    let mut args: Vec<String> = Vec::new();
    args.push("-l".to_string());
    args.push("-c".to_string());
    (shell, args)
}

/// The shell tried when the first cannot be started: `sh -c`, only for a
/// stage that did not name its shell.
pub fn fallback_shell(stage: &StepDefinition) -> (r: Option<(String, Vec<String>)>)
    ensures
        stage.shell is Some ==> r is None,
        stage.shell is None ==> (r matches Some(p) && p.0@ == "sh"@ && p.1@.len() == 1 && p.1@[0]@
            == "-c"@),
{
    match &stage.shell {
        Some(_) => None,
        None => {
            let mut args: Vec<String> = Vec::new();
            args.push("-c".to_string());
            Some(("sh".to_string(), args))
        },
    }
}

// =============================================================================
// Stage outcomes
// =============================================================================

/// Result of executing a single stage.
#[derive(Debug, Clone)]
pub struct StageExecutionResult {
    /// Exit code of the command.
    pub exit_code: i32,
    /// Standard output captured.
    pub stdout: String,
    /// Standard error captured.
    pub stderr: String,
    /// Duration of the execution in milliseconds.
    pub duration_ms: i64,
    /// Whether the stage passed (exit_code == 0).
    pub passed: bool,
}

/// The result of a stage whose process exited: its exit code (-1 when
/// killed by a signal), and it passed exactly when that code is 0.
pub fn exited_result(code: Option<i32>, stdout: String, stderr: String, duration_ms: i64) -> (r:
    StageExecutionResult)
    ensures
        r.exit_code == match code {
            Some(c) => c,
            None => -1i32,
        },
        r.passed == (r.exit_code == 0),
        r.stdout == stdout,
        r.stderr == stderr,
        r.duration_ms == duration_ms,
{
    let exit_code = match code {
        Some(c) => c,
        None => -1,
    };
    StageExecutionResult { exit_code, stdout, stderr, duration_ms, passed: exit_code == 0 }
}

/// The result of a stage cancelled by a newer push.
pub fn cancelled_result(duration_ms: i64) -> (r: StageExecutionResult)
    ensures
        r.exit_code == -1,
        !r.passed,
        r.stdout@.len() == 0,
        r.stderr@ == "Cancelled: superseded by newer push"@,
        r.duration_ms == duration_ms,
{
    StageExecutionResult {
        exit_code: -1,
        stdout: String::new(),
        stderr: "Cancelled: superseded by newer push".to_string(),
        duration_ms,
        passed: false,
    }
}

/// The fractional part of `f` thousandths, as a duration prints it: none
/// when zero, else a dot and the digits without trailing zeros.
pub open spec fn fraction_text(f: nat) -> Seq<char> {
    if f == 0 {
        seq![]
    } else if f % 10 != 0 {
        "."@ + decimal(f / 100) + decimal((f / 10) % 10) + decimal(f % 10)
    } else if (f / 10) % 10 != 0 {
        "."@ + decimal(f / 100) + decimal((f / 10) % 10)
    } else {
        "."@ + decimal(f / 100)
    }
}

/// A whole number of milliseconds as a `Duration` prints with `{:?}`:
/// seconds (with their fraction) from one second on, else milliseconds,
/// and `0ns` for zero.
pub open spec fn duration_text(ms: nat) -> Seq<char> {
    if ms >= 1000 {
        decimal(ms / 1000) + fraction_text(ms % 1000) + "s"@
    } else if ms > 0 {
        decimal(ms) + "ms"@
    } else {
        "0ns"@
    }
}

/// Appends `duration_text(ms)`.
pub fn push_duration(out: &mut String, ms: u64)
    ensures
        final(out)@ == old(out)@ + duration_text(ms as nat),
{
    if ms >= 1000 {
        push_decimal(out, ms / 1000);
        let f = ms % 1000;
        if f != 0 {
            push_str(out, ".");
            push_decimal(out, f / 100);
            if f % 10 != 0 {
                push_decimal(out, (f / 10) % 10);
                push_decimal(out, f % 10);
            } else if (f / 10) % 10 != 0 {
                push_decimal(out, (f / 10) % 10);
            }
        }
        push_str(out, "s");
    } else if ms > 0 {
        push_decimal(out, ms);
        push_str(out, "ms");
    } else {
        push_str(out, "0ns");
    }
}

/// The result of a stage that ran past its timeout of `timeout_ms`
/// milliseconds.
pub fn timed_out_result(timeout_ms: u64, duration_ms: i64) -> (r: StageExecutionResult)
    ensures
        r.exit_code == -1,
        !r.passed,
        r.stdout@.len() == 0,
        r.stderr@ == "Stage timed out after "@ + duration_text(timeout_ms as nat),
        r.duration_ms == duration_ms,
{
    let mut msg = "Stage timed out after ".to_string();
    push_duration(&mut msg, timeout_ms);
    StageExecutionResult { exit_code: -1, stdout: String::new(), stderr: msg, duration_ms, passed: false }
}

/// The result of a stage whose process could not be waited for.
pub fn process_error_result(error: &str, duration_ms: i64) -> (r: StageExecutionResult)
    ensures
        r.exit_code == -1,
        !r.passed,
        r.stdout@.len() == 0,
        r.stderr@ == "Process error: "@ + error@,
        r.duration_ms == duration_ms,
{
    let mut msg = "Process error: ".to_string();
    push_str(&mut msg, error);
    StageExecutionResult { exit_code: -1, stdout: String::new(), stderr: msg, duration_ms, passed: false }
}

/// The timeout of a step in seconds: its own, or one hour.
pub fn step_timeout_secs(step: &StepDefinition) -> (r: u64)
    ensures
        r == match step.timeout {
            Some(t) => t,
            None => 3600,
        },
{
    match step.timeout {
        Some(t) => t,
        None => 60 * 60,
    }
}

/// The first `n` lines of `s`.
pub open spec fn first_lines(s: Seq<char>, n: int) -> Seq<Seq<char>> {
    if lines_seq(s).len() <= n {
        lines_seq(s)
    } else {
        lines_seq(s).take(n)
    }
}

/// The error recorded for a failed stage: its exit code, then the first ten
/// lines of its standard error, or "No error output".
pub open spec fn failure_text(exit_code: i32, stderr: Seq<char>) -> Seq<char> {
    "Exit code: "@ + signed_decimal(exit_code as int) + ". "@ + if stderr.len() > 0 {
        join_seq(first_lines(stderr, 10), "\n"@)
    } else {
        "No error output"@
    }
}

/// The error recorded for a failed stage.
pub fn failure_message(exit_code: i32, stderr: &str) -> (r: String)
    ensures
        r@ == failure_text(exit_code, stderr@),
{
    let mut msg = "Exit code: ".to_string();
    push_signed_decimal(&mut msg, exit_code as i64);
    push_str(&mut msg, ". ");
    if stderr.unicode_len() > 0 {
        let all = lines(stderr);
        let mut first: Vec<String> = Vec::new();
        let mut i: usize = 0;
        while i < all.len() && i < 10
            invariant
                i <= all@.len(),
                i <= 10,
                first@.len() == i,
                all@.map_values(|l: String| l@) == lines_seq(stderr@),
                forall|k: int| 0 <= k < i ==> (#[trigger] first@[k])@ == all@[k]@,
            decreases all.len() - i,
        {
            first.push(all[i].clone());
            i = i + 1;
        }
        proof {
            assert(all@.map_values(|l: String| l@).len() == all@.len());
            if all@.len() <= 10 {
                assert(i == all@.len());
                assert forall|k: int| 0 <= k < i implies first@.map_values(|l: String| l@)[k]
                    == lines_seq(stderr@)[k] by {
                    assert(all@.map_values(|l: String| l@)[k] == all@[k]@);
                }
                assert(first@.map_values(|l: String| l@) =~= lines_seq(stderr@));
            } else {
                assert(i == 10);
                assert forall|k: int| 0 <= k < i implies first@.map_values(|l: String| l@)[k]
                    == lines_seq(stderr@).take(10)[k] by {
                    assert(all@.map_values(|l: String| l@)[k] == all@[k]@);
                }
                assert(first@.map_values(|l: String| l@) =~= lines_seq(stderr@).take(10));
            }
        }
        let body = join(&first, "\n");
        push_str(&mut msg, body.as_str());
    } else {
        push_str(&mut msg, "No error output");
    }
    msg
}

/// The record of a step that has run: passed (or awaiting approval where
/// the step asks for it) on exit code 0, else failed with the failure text.
pub fn finish_step_result(
    id: &str,
    run_id: &str,
    stage: &StepDefinition,
    started_at: i64,
    completed_at: i64,
    exec: &StageExecutionResult,
    has_pending_patches: bool,
) -> (r: StepResult)
    ensures
        r.id@ == id@,
        r.run_id@ == run_id@,
        r.job_id@.len() == 0,
        r.name@ == stage.name@,
        r.step_order == 0,
        r.status == if !exec.passed {
            StepStatus::Failed
        } else if requires_pause(stage.require_approval, has_pending_patches) {
            StepStatus::AwaitingApproval
        } else {
            StepStatus::Passed
        },
        r.exit_code == Some(exec.exit_code),
        r.duration_ms == Some(exec.duration_ms),
        exec.passed ==> r.error is None,
        !exec.passed ==> opt_text(r.error) == Some(failure_text(exec.exit_code, exec.stderr@)),
        r.started_at == Some(started_at),
        r.completed_at == Some(completed_at),
{
    let status = finished_step_status(exec.passed, stage.require_approval, has_pending_patches);
    let error = if exec.passed {
        None
    } else {
        Some(failure_message(exec.exit_code, exec.stderr.as_str()))
    };
    StepResult {
        id: id.to_string(),
        run_id: run_id.to_string(),
        job_id: String::new(),
        name: stage.name.clone(),
        status,
        step_order: 0,
        exit_code: Some(exec.exit_code),
        duration_ms: Some(exec.duration_ms),
        error,
        started_at: Some(started_at),
        completed_at: Some(completed_at),
    }
}

// =============================================================================
// Base commits and default branches
// =============================================================================

/// Why a run's base commit has to be recomputed, if it does: a null base
/// (a new branch) or one that is not an ancestor of the head (a force push).
pub fn base_sha_fallback_reason(base_sha: &str, is_ancestor: bool) -> (r: Option<&'static str>)
    ensures
        null_sha(base_sha@) ==> (r matches Some(s) && s@ == "new branch"@),
        !null_sha(base_sha@) && !is_ancestor ==> (r matches Some(s) && s@ == "force push"@),
        !null_sha(base_sha@) && is_ancestor ==> r is None,
{
    if crate::pipeline::is_null_sha(base_sha) {
        Some("new branch")
    } else if !is_ancestor {
        Some("force push")
    } else {
        None
    }
}

/// The first non-empty trimmed output of the probes, in order.
pub open spec fn first_found(probes: Seq<Option<Seq<char>>>) -> Option<Seq<char>>
    decreases probes.len(),
{
    if probes.len() == 0 {
        None
    } else if probes[0] matches Some(o) && trim_seq(o).len() > 0 {
        Some(trim_seq(probes[0]->0))
    } else {
        first_found(probes.drop_first())
    }
}

fn found(o: &Option<String>) -> (r: Option<String>)
    ensures
        (*o matches Some(s) && trim_seq(s@).len() > 0) ==> (r matches Some(t) && t@ == trim_seq(o->0@)),
        !(*o matches Some(s) && trim_seq(s@).len() > 0) ==> r is None,
{
    match o {
        Some(s) => {
            let t = trim(s.as_str());
            if t.unicode_len() > 0 {
                Some(t.to_string())
            } else {
                None
            }
        },
        None => None,
    }
}

/// The base commit of a run whose pushed base cannot be used: the
/// merge-base of the head with `main`, else with `master`, else `HEAD~20`,
/// each when its command succeeded with output; else the root commit (the
/// last line of `git rev-list --max-parents=0 HEAD`, whose output is
/// `None` when the command could not run), an error when there is none.
pub fn merge_base_fallback(
    with_main: Option<String>,
    with_master: Option<String>,
    head_back_20: Option<String>,
    root_commits: Option<String>,
) -> (r: Result<String, String>)
    ensures
        first_found(seq![opt_text(with_main), opt_text(with_master), opt_text(head_back_20)]) matches Some(
            s,
        ) ==> (r matches Ok(t) && t@ == s),
        first_found(seq![opt_text(with_main), opt_text(with_master), opt_text(head_back_20)]) is None
            ==> match root_commits {
            None => (r matches Err(m) && m@ == "Failed to find root commit"@),
            Some(out) => if lines_seq(out@).len() > 0 && trim_seq(lines_seq(out@).last()).len() > 0 {
                r matches Ok(t) && t@ == trim_seq(lines_seq(out@).last())
            } else {
                r matches Err(m) && m@ == "Could not resolve effective base SHA: no commits found"@
            },
        },
{
    let ghost probes = seq![opt_text(with_main), opt_text(with_master), opt_text(head_back_20)];
    proof {
        assert(probes.drop_first() =~= seq![opt_text(with_master), opt_text(head_back_20)]);
        assert(probes.drop_first().drop_first() =~= seq![opt_text(head_back_20)]);
        assert(probes.drop_first().drop_first().drop_first() =~= Seq::<Option<Seq<char>>>::empty());
        reveal_with_fuel(first_found, 4);
    }
    match found(&with_main) {
        Some(s) => {
            return Ok(s);
        },
        None => {},
    }
    match found(&with_master) {
        Some(s) => {
            return Ok(s);
        },
        None => {},
    }
    match found(&head_back_20) {
        Some(s) => {
            return Ok(s);
        },
        None => {},
    }
    match root_commits {
        None => Err("Failed to find root commit".to_string()),
        Some(out) => {
            let ls = lines(out.as_str());
            if ls.len() > 0 {
                let last = trim(ls[ls.len() - 1].as_str());
                if last.unicode_len() > 0 {
                    return Ok(last.to_string());
                }
            }
            Err("Could not resolve effective base SHA: no commits found".to_string())
        },
    }
}

/// The base commit a run is diffed against: the pushed base when it is an
/// ancestor of the head; else (a new branch, or a force push) the
/// merge-base fallback computed from the probes, which the caller gathers
/// only then (`is_ancestor` is only consulted for a base other than the
/// null sha).
pub fn resolve_effective_base_sha(
    base_sha: &str,
    is_ancestor: bool,
    with_main: Option<String>,
    with_master: Option<String>,
    head_back_20: Option<String>,
    root_commits: Option<String>,
) -> (r: Result<String, String>)
    ensures
        !null_sha(base_sha@) && is_ancestor ==> (r matches Ok(s) && s@ == base_sha@),
        null_sha(base_sha@) || !is_ancestor ==> {
            let probes = seq![opt_text(with_main), opt_text(with_master), opt_text(head_back_20)];
            match first_found(probes) {
                Some(s) => r matches Ok(t) && t@ == s,
                None => match root_commits {
                    None => r matches Err(m) && m@ == "Failed to find root commit"@,
                    Some(out) => if lines_seq(out@).len() > 0 && trim_seq(lines_seq(out@).last()).len() > 0 {
                        r matches Ok(t) && t@ == trim_seq(lines_seq(out@).last())
                    } else {
                        r matches Err(m) && m@ == "Could not resolve effective base SHA: no commits found"@
                    },
                },
            }
        },
{
    match base_sha_fallback_reason(base_sha, is_ancestor) {
        None => Ok(base_sha.to_string()),
        Some(_) => merge_base_fallback(with_main, with_master, head_back_20, root_commits),
    }
}

/// The default branch of the upstream, from what the bare gate repository shows: the
/// target of `refs/remotes/origin/HEAD` (from the trimmed output of
/// `git symbolic-ref`, when it names an `origin` branch), else `main` when
/// `origin/main` exists, else `master` when `origin/master` exists, else
/// `main`.
pub fn default_branch_from_probes(symbolic_ref: Option<&str>, has_main: bool, has_master: bool) -> (r:
    String)
    ensures
        (symbolic_ref matches Some(o) && seq_starts_with(trim_seq(o@), "refs/remotes/origin/"@))
            ==> r@ == trim_seq(symbolic_ref->0@).skip(20),
        !(symbolic_ref matches Some(o) && seq_starts_with(trim_seq(o@), "refs/remotes/origin/"@))
            ==> r@ == if has_main {
            "main"@
        } else if has_master {
            "master"@
        } else {
            "main"@
        },
{
    proof {
        reveal_strlit("refs/remotes/origin/");
    }
    match symbolic_ref {
        Some(o) => {
            let t = trim(o);
            match strip_prefix(t, "refs/remotes/origin/") {
                Some(b) => {
                    return b.to_string();
                },
                None => {},
            }
        },
        None => {},
    }
    if has_main {
        "main".to_string()
    } else if has_master {
        "master".to_string()
    } else {
        "main".to_string()
    }
}

} // verus!
