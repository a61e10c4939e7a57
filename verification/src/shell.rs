//! The user's login shell and `PATH`, as the daemon finds them out: it
//! usually runs without the user's environment.

use crate::text::{rfind_char, seq_starts_with, str_eq, strip_prefix, trim, trim_seq};
use vstd::prelude::*;

verus! {

/// The user's login shell: `$SHELL` when set and not empty, else the one
/// the system's user database gives, else `bash`.
pub fn choose_login_shell(env_shell: Option<String>, system_shell: Option<String>) -> (r: String)
    ensures
        (env_shell matches Some(s) && s@.len() > 0) ==> r == env_shell->0,
        !(env_shell matches Some(s) && s@.len() > 0) && system_shell is Some ==> r == system_shell->0,
        !(env_shell matches Some(s) && s@.len() > 0) && system_shell is None ==> r@ == "bash"@,
{
    match env_shell {
        Some(s) => {
            if s.unicode_len() > 0 {
                return s;
            }
        },
        None => {},
    }
    match system_shell {
        Some(s) => s,
        None => "bash".to_string(),
    }
}

/// The login shell in the output of `dscl . -read /Users/<name> UserShell`
/// (`UserShell: /bin/zsh`): what follows `UserShell:`, trimmed, if not empty.
pub fn parse_dscl_shell(stdout: &str) -> (r: Option<String>)
    ensures
        (seq_starts_with(trim_seq(stdout@), "UserShell:"@) && trim_seq(trim_seq(stdout@).skip(10)).len()
            > 0) ==> (r matches Some(s) && s@ == trim_seq(trim_seq(stdout@).skip(10))),
        !(seq_starts_with(trim_seq(stdout@), "UserShell:"@) && trim_seq(trim_seq(stdout@).skip(10)).len()
            > 0) ==> r is None,
{
    proof {
        reveal_strlit("UserShell:");
    }
    let t = trim(stdout);
    match strip_prefix(t, "UserShell:") {
        Some(rest) => {
            let s = trim(rest);
            if s.unicode_len() > 0 {
                Some(s.to_string())
            } else {
                None
            }
        },
        None => None,
    }
}

/// The text after the last `:` of `s` (all of `s` when it has none).
pub open spec fn after_last_colon(s: Seq<char>) -> Seq<char> {
    match crate::text::last_index_of(s, ':') {
        Some(i) => s.skip(i + 1),
        None => s,
    }
}

/// The login shell in the output of `getent passwd <name>`
/// (`name:x:uid:gid:info:home:shell`): the last field, if not empty.
pub fn parse_getent_shell(stdout: &str) -> (r: Option<String>)
    ensures
        after_last_colon(trim_seq(stdout@)).len() > 0 ==> (r matches Some(s) && s@ == after_last_colon(
            trim_seq(stdout@),
        )),
        after_last_colon(trim_seq(stdout@)).len() == 0 ==> r is None,
{
    let t = trim(stdout);
    let field = match rfind_char(t, ':') {
        Some(i) => {
            let n = t.unicode_len();
            let f = t.substring_char(i + 1, n);
            proof {
                assert(f@ =~= t@.skip(i + 1));
            }
            f
        },
        None => t,
    };
    if field.unicode_len() > 0 {
        Some(field.to_string())
    } else {
        None
    }
}

/// The `PATH` used when the login shell gives none.
pub const DEFAULT_PATH: &'static str = "/usr/local/bin:/usr/bin:/bin:/usr/sbin:/sbin";

/// The user's `PATH`: what the login shell printed, trimmed, if not empty;
/// else the daemon's own `PATH`; else a default.
pub fn choose_user_path(login_output: Option<&str>, env_path: Option<String>) -> (r: String)
    ensures
        (login_output matches Some(o) && trim_seq(o@).len() > 0) ==> r@ == trim_seq(login_output->0@),
        !(login_output matches Some(o) && trim_seq(o@).len() > 0) && env_path is Some ==> r
            == env_path->0,
        !(login_output matches Some(o) && trim_seq(o@).len() > 0) && env_path is None ==> r@
            == DEFAULT_PATH@,
{
    match login_output {
        Some(o) => {
            let t = trim(o);
            if t.unicode_len() > 0 {
                return t.to_string();
            }
        },
        None => {},
    }
    match env_path {
        Some(p) => p,
        None => DEFAULT_PATH.to_string(),
    }
}

/// The text after the last `/` of `s` (all of `s` when it has none).
pub open spec fn basename(s: Seq<char>) -> Seq<char> {
    match crate::text::last_index_of(s, '/') {
        Some(i) => s.skip(i + 1),
        None => s,
    }
}

/// Whether a shell takes `-i` together with `-c`: only `bash` and `zsh`
/// (by the last component of their path) are trusted to.
pub fn shell_supports_interactive(shell: &str) -> (r: bool)
    ensures
        r == (basename(shell@) == "bash"@ || basename(shell@) == "zsh"@),
{
    let base = match rfind_char(shell, '/') {
        Some(i) => {
            let n = shell.unicode_len();
            let b = shell.substring_char(i + 1, n);
            proof {
                assert(b@ =~= shell@.skip(i + 1));
            }
            b
        },
        None => shell,
    };
    str_eq(base, "bash") || str_eq(base, "zsh")
}

/// The arguments that make the login shell print the user's `PATH`:
/// `-l -i -c 'echo $PATH'` for a shell that takes `-i`, else
/// `-l -c 'echo $PATH'`.
pub fn path_probe_args(shell: &str) -> (r: Vec<&'static str>)
    ensures
        (basename(shell@) == "bash"@ || basename(shell@) == "zsh"@) ==> r@.len() == 4 && r@[0]@
            == "-l"@ && r@[1]@ == "-i"@ && r@[2]@ == "-c"@ && r@[3]@ == "echo $PATH"@,
        !(basename(shell@) == "bash"@ || basename(shell@) == "zsh"@) ==> r@.len() == 3 && r@[0]@
            == "-l"@ && r@[1]@ == "-c"@ && r@[2]@ == "echo $PATH"@,
{
    let mut v: Vec<&'static str> = Vec::new();
    v.push("-l");
    if shell_supports_interactive(shell) {
        v.push("-i");
    }
    v.push("-c");
    v.push("echo $PATH");
    v
}

} // verus!
