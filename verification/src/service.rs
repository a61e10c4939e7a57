//! Installing the daemon as a user service (launchd on macOS, systemd on
//! Linux): where the service files go, what they hold, and which answers of
//! the service managers mean success. Running the managers is the caller's.

use crate::error::AirlockError;
use crate::paths::{path_join, AirlockPaths};
use crate::text::{contains, push_str, replace_all, replace_seq, seq_contains, str_eq, trim, trim_seq};
use vstd::prelude::*;

verus! {

/// The user's home directory (`dirs::home_dir`), as text. It depends on the
/// environment: nothing is claimed of it.
#[verifier::external_body]
fn home_dir() -> (r: Option<String>) {
    match dirs::home_dir() {
        Some(p) => Some(p.to_string_lossy().into_owned()),
        None => None,
    }
}

/// The character is an ASCII digit.
pub open spec fn is_digit(c: char) -> bool {
    '0' <= c && c <= '9'
}

/// The value of a string of decimal digits.
pub open spec fn digits_value(s: Seq<char>) -> int
    decreases s.len(),
{
    if s.len() == 0 {
        0
    } else {
        digits_value(s.drop_last()) * 10 + (s.last() as int - '0' as int)
    }
}

/// What `str::parse::<u32>` accepts: an optional `+`, then one or more
/// ASCII digits whose value fits in a `u32` (no whitespace, no `-`).
pub open spec fn parses_as_u32(s: Seq<char>) -> bool {
    &&& unsigned_digits(s).len() > 0
    &&& all_digits(unsigned_digits(s))
    &&& digits_value(unsigned_digits(s)) <= u32::MAX
}

/// The text after an optional leading `+`.
pub open spec fn unsigned_digits(s: Seq<char>) -> Seq<char> {
    if s.len() > 0 && s[0] == '+' {
        s.skip(1)
    } else {
        s
    }
}

/// Every character is an ASCII digit.
pub open spec fn all_digits(d: Seq<char>) -> bool {
    forall|i: int| 0 <= i < d.len() ==> is_digit(#[trigger] d[i])
}

proof fn lemma_digits_value_nonneg(d: Seq<char>)
    requires
        forall|k: int| 0 <= k < d.len() ==> is_digit(#[trigger] d[k]),
    ensures
        digits_value(d) >= 0,
    decreases d.len(),
{
    if d.len() > 0 {
        lemma_digits_value_nonneg(d.drop_last());
        assert(is_digit(d[d.len() - 1]));
    }
}

proof fn lemma_digits_value_grows(d: Seq<char>, i: int, j: int)
    requires
        0 <= i <= j <= d.len(),
        forall|k: int| 0 <= k < d.len() ==> is_digit(#[trigger] d[k]),
    ensures
        digits_value(d.take(i)) <= digits_value(d.take(j)),
    decreases j - i,
{
    if i < j {
        lemma_digits_value_grows(d, i, j - 1);
        assert(d.take(j).drop_last() =~= d.take(j - 1));
        assert(d.take(j).last() == d[j - 1]);
        assert(is_digit(d[j - 1]));
        lemma_digits_value_nonneg(d.take(j - 1));
    } else {
        assert(d.take(i) =~= d.take(j));
    }
}

/// Whether `s` reads as a `u32`, as `str::parse::<u32>` decides.
fn is_u32_text(s: &str) -> (r: bool)
    ensures
        r == parses_as_u32(s@),
{
    let n = s.unicode_len();
    let start: usize = if n > 0 && s.get_char(0) == '+' {
        1
    } else {
        0
    };
    let ghost d = s@.skip(start as int);
    proof {
        assert(s@.skip(0) =~= s@);
        assert(d == unsigned_digits(s@));
    }
    if start >= n {
        return false;
    }
    let mut value: u64 = 0;
    let mut i: usize = start;
    while i < n
        invariant
            start <= i <= n,
            n == s@.len(),
            d == s@.skip(start as int),
            d == unsigned_digits(s@),
            d.len() == n - start,
            forall|k: int| 0 <= k < i - start ==> is_digit(#[trigger] d[k]),
            value == digits_value(d.take(i - start)),
            value <= u32::MAX,
        decreases n - i,
    {
        let c = s.get_char(i);
        assert(d[i - start] == c);
        if !('0' <= c && c <= '9') {
            assert(!is_digit(d[i - start]));
            assert(!all_digits(d));
            return false;
        }
        let digit: u64 = (c as u64) - ('0' as u64);
        assert(d.take(i - start + 1).drop_last() =~= d.take(i - start));
        assert(d.take(i - start + 1).last() == c);
        let next = value * 10 + digit;
        if next > 4294967295u64 {
            proof {
                if all_digits(d) {
                    lemma_digits_value_grows(d, i - start + 1, d.len() as int);
                    assert(d.take(d.len() as int) =~= d);
                }
            }
            return false;
        }
        value = next;
        i = i + 1;
    }
    proof {
        assert(d.take(n - start) =~= d);
    }
    true
}

/// Service manager for the Airlock daemon.
#[derive(Debug, Clone)]
pub struct ServiceManager {
    /// Path to the daemon executable.
    daemon_path: String,
    /// User's home directory.
    home_dir: String,
    /// Airlock paths.
    paths: AirlockPaths,
}

/// Where the launchd plist goes under a home directory.
pub open spec fn plist_path_spec(home: Seq<char>) -> Seq<char> {
    path_join(home, "Library/LaunchAgents/dev.airlock.daemon.plist"@)
}

/// Where the systemd unit goes under a home directory.
pub open spec fn unit_path_spec(home: Seq<char>) -> Seq<char> {
    path_join(home, ".config/systemd/user/airlockd.service"@)
}

impl ServiceManager {
    /// The daemon executable.
    pub closed spec fn daemon(&self) -> Seq<char> {
        self.daemon_path@
    }

    /// The user's home directory.
    pub closed spec fn home(&self) -> Seq<char> {
        self.home_dir@
    }

    /// The Airlock root.
    pub closed spec fn airlock_root(&self) -> Seq<char> {
        self.paths.root_path()
    }

    /// A service manager for the daemon at `daemon_path`, with the user's
    /// home directory; an error when it cannot be determined.
    pub fn new(daemon_path: String, paths: AirlockPaths) -> (r: Result<Self, AirlockError>)
        ensures
            r matches Ok(m) ==> m.daemon() == daemon_path@ && m.airlock_root() == paths.root_path(),
            r matches Err(e) ==> e matches AirlockError::Filesystem(_),
    {
        match home_dir() {
            Some(h) => Ok(ServiceManager { daemon_path, home_dir: h, paths }),
            None => Err(AirlockError::Filesystem("Could not determine home directory".to_string())),
        }
    }

    /// A service manager with a custom home directory (its Airlock root is
    /// `.airlock` under it).
    pub fn with_home_dir(daemon_path: String, home_dir: String) -> (r: Result<Self, AirlockError>)
        ensures
            r matches Ok(m) && m.daemon() == daemon_path@ && m.home() == home_dir@ && m.airlock_root()
                == path_join(home_dir@, ".airlock"@),
    {
        let root = crate::paths::join_path(home_dir.as_str(), ".airlock");
        let paths = AirlockPaths::with_root(root);
        Ok(ServiceManager { daemon_path, home_dir, paths })
    }

    /// The daemon executable.
    pub fn daemon_path(&self) -> (r: &String)
        ensures
            r@ == self.daemon(),
    {
        &self.daemon_path
    }

    /// The Airlock paths.
    pub fn paths(&self) -> (r: &AirlockPaths)
        ensures
            r.root_path() == self.airlock_root(),
    {
        &self.paths
    }

    /// The path of the launchd plist (macOS).
    pub fn launchd_plist_path(&self) -> (r: String)
        ensures
            r@ == plist_path_spec(self.home()),
    {
        crate::paths::join_path(self.home_dir.as_str(), "Library/LaunchAgents/dev.airlock.daemon.plist")
    }

    /// The path of the systemd unit (Linux).
    pub fn systemd_unit_path(&self) -> (r: String)
        ensures
            r@ == unit_path_spec(self.home()),
    {
        crate::paths::join_path(self.home_dir.as_str(), ".config/systemd/user/airlockd.service")
    }

    /// The directory of the daemon's logs (created before installing).
    pub fn logs_dir(&self) -> (r: String)
        ensures
            r@ == path_join(self.airlock_root(), "logs"@),
    {
        crate::paths::join_path(self.paths.root().as_str(), "logs")
    }

    /// The launchd plist: the template with `{{DAEMON_PATH}}` and then
    /// `{{HOME}}` replaced.
    pub fn generate_launchd_plist(&self, template: &str) -> (r: String)
        ensures
            r@ == replace_seq(
                replace_seq(template@, "{{DAEMON_PATH}}"@, self.daemon()),
                "{{HOME}}"@,
                self.home(),
            ),
    {
        proof {
            reveal_strlit("{{DAEMON_PATH}}");
            reveal_strlit("{{HOME}}");
        }
        let a = replace_all(template, "{{DAEMON_PATH}}", self.daemon_path.as_str());
        replace_all(a.as_str(), "{{HOME}}", self.home_dir.as_str())
    }

    /// The systemd unit: the template with `{{DAEMON_PATH}}` replaced.
    pub fn generate_systemd_unit(&self, template: &str) -> (r: String)
        ensures
            r@ == replace_seq(template@, "{{DAEMON_PATH}}"@, self.daemon()),
    {
        proof {
            reveal_strlit("{{DAEMON_PATH}}");
        }
        replace_all(template, "{{DAEMON_PATH}}", self.daemon_path.as_str())
    }
}

/// Whether `launchctl bootstrap` failed only because the service is already
/// loaded.
pub open spec fn already_loaded(stderr: Seq<char>) -> bool {
    seq_contains(stderr, "already loaded"@) || seq_contains(stderr, "service already loaded"@)
        || seq_contains(stderr, "37: Operation already in progress"@)
}

/// The outcome of `launchctl bootstrap`: success, or a failure that only
/// says the service is already loaded, is fine; any other failure is an
/// error that quotes the standard error.
pub fn launchd_load_outcome(success: bool, stderr: &str) -> (r: Result<(), AirlockError>)
    ensures
        success || already_loaded(stderr@) ==> r is Ok,
        !(success || already_loaded(stderr@)) ==> (r matches Err(AirlockError::ServiceOperation(m))
            && m@ == "Failed to load service: "@ + stderr@),
{
    if success || contains(stderr, "already loaded") || contains(stderr, "service already loaded")
        || contains(stderr, "37: Operation already in progress") {
        Ok(())
    } else {
        let mut m = "Failed to load service: ".to_string();
        push_str(&mut m, stderr);
        Err(AirlockError::ServiceOperation(m))
    }
}

/// Whether `launchctl bootout` failed only because the service is not
/// loaded.
pub open spec fn not_loaded_launchd(stderr: Seq<char>) -> bool {
    seq_contains(stderr, "Could not find specified service"@) || seq_contains(
        stderr,
        "No such process"@,
    ) || seq_contains(stderr, "3: No such process"@) || seq_contains(stderr, "113:"@)
}

/// The outcome of `launchctl bootout`: success, or a failure that only says
/// the service is not loaded, is fine; any other failure is an error.
pub fn launchd_unload_outcome(success: bool, stderr: &str) -> (r: Result<(), AirlockError>)
    ensures
        success || not_loaded_launchd(stderr@) ==> r is Ok,
        !(success || not_loaded_launchd(stderr@)) ==> (r matches Err(
            AirlockError::ServiceOperation(m),
        ) && m@ == "Failed to unload service: "@ + stderr@),
{
    if success || contains(stderr, "Could not find specified service") || contains(
        stderr,
        "No such process",
    ) || contains(stderr, "3: No such process") || contains(stderr, "113:") {
        Ok(())
    } else {
        let mut m = "Failed to unload service: ".to_string();
        push_str(&mut m, stderr);
        Err(AirlockError::ServiceOperation(m))
    }
}

/// The outcome of `systemctl --user enable --now`: an error that quotes
/// the standard error when it failed.
pub fn systemd_load_outcome(success: bool, stderr: &str) -> (r: Result<(), AirlockError>)
    ensures
        success ==> r is Ok,
        !success ==> (r matches Err(AirlockError::ServiceOperation(m)) && m@ == "Failed to start service: "@
            + stderr@),
{
    if success {
        Ok(())
    } else {
        let mut m = "Failed to start service: ".to_string();
        push_str(&mut m, stderr);
        Err(AirlockError::ServiceOperation(m))
    }
}

/// The outcome of `systemctl --user disable --now`: success, or a failure
/// that only says the unit is not loaded or missing, is fine.
pub fn systemd_unload_outcome(success: bool, stderr: &str) -> (r: Result<(), AirlockError>)
    ensures
        success || seq_contains(stderr@, "not loaded"@) || seq_contains(stderr@, "No such file"@)
            ==> r is Ok,
        !(success || seq_contains(stderr@, "not loaded"@) || seq_contains(stderr@, "No such file"@))
            ==> (r matches Err(AirlockError::ServiceOperation(m)) && m@ == "Failed to stop service: "@
            + stderr@),
{
    if success || contains(stderr, "not loaded") || contains(stderr, "No such file") {
        Ok(())
    } else {
        let mut m = "Failed to stop service: ".to_string();
        push_str(&mut m, stderr);
        Err(AirlockError::ServiceOperation(m))
    }
}

/// `w` is the first whitespace-separated word of `s`.
pub open spec fn first_word_of(s: Seq<char>, w: Seq<char>) -> bool {
    exists|a: int, b: int|
        0 <= a < b <= s.len() && w == s.subrange(a, b) && (forall|j: int|
            0 <= j < a ==> crate::text::is_ws(#[trigger] s[j])) && !crate::text::is_ws(s[a]) && (b
            == s.len() || crate::text::is_ws(s[b])) && (forall|j: int|
            a <= j < b ==> !crate::text::is_ws(#[trigger] s[j]))
}

/// Whether `launchctl list dev.airlock.daemon` shows a running daemon: the
/// command succeeded and the first field of its output (the PID; `-` when
/// loaded but not running) reads as a number.
pub fn launchd_is_running(success: bool, stdout: &str) -> (r: bool)
    ensures
        !success ==> !r,
        success && crate::text::all_ws(stdout@) ==> !r,
        r ==> success && exists|w: Seq<char>|
            first_word_of(stdout@, w) && w != "-"@ && parses_as_u32(w),
        success && !crate::text::all_ws(stdout@) && (forall|w: Seq<char>|
            #[trigger] first_word_of(stdout@, w) ==> w != "-"@ && parses_as_u32(w)) ==> r,
{
    if !success {
        return false;
    }
    let first = match crate::text::first_word(stdout) {
        Some(w) => {
            assert(first_word_of(stdout@, w@));
            w
        },
        None => "-",
    };
    !str_eq(first, "-") && is_u32_text(first)
}

/// Whether `systemctl --user is-active airlockd.service` printed `active`.
pub fn systemd_is_running(stdout: &str) -> (r: bool)
    ensures
        r == (trim_seq(stdout@) == "active"@),
{
    str_eq(trim(stdout), "active")
}

} // verus!
