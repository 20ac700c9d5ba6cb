//! Pure helpers for the host's terminal environment.
//!
//! The host assembles the environment of the embedded terminal and probes
//! the system for the user's shell; both involve reading the process
//! environment and running system utilities, which stay in the host. The
//! string computations they rest on are here, verified: prepending the
//! sidecar directory to a search path, picking the shell from what the
//! probes found, and reading the shell field of a passwd line.

use crate::render::suffix_after_last;
use crate::render::suffix_after_last_string;
use vstd::prelude::*;
use vstd::string::StringExecFns;

verus! {

/// The search path for the embedded terminal: the sidecar directory, a `:`
/// separator, then the inherited search path, so bundled binaries win.
pub fn prepend_search_path(dir: &String, existing: &String) -> (r: String)
    ensures
        r@ == dir@ + seq![':'] + existing@,
{
    proof {
        reveal_strlit(":");
        assert(":"@ =~= seq![':']);
    }
    let mut s = dir.clone();
    s.append(":");
    s.append(existing.as_str());
    s
}

/// The shell the terminal launches: the login shell the system reports
/// when there is one, else the environment's shell, else the platform
/// fallback. The host runs the probes and passes in what they found.
pub fn choose_shell(login: Option<String>, env_shell: Option<String>, fallback: String) -> (r:
    String)
    ensures
        login matches Some(s) ==> r@ == s@,
        login is None ==> (env_shell matches Some(s) ==> r@ == s@),
        login is None && env_shell is None ==> r@ == fallback@,
{
    match login {
        Some(s) => s,
        None => match env_shell {
            Some(s) => s,
            None => fallback,
        },
    }
}

/// The shell field of a passwd line: the text after the last `:`, or
/// `None` when that field is empty. The host trims the line first and
/// still checks that the reported shell exists before using it.
pub fn passwd_shell_field(line: &String) -> (r: Option<String>)
    ensures
        match r {
            Some(s) => s@ == suffix_after_last(line@, ':') && s@.len() > 0,
            None => suffix_after_last(line@, ':').len() == 0,
        },
{
    let f = suffix_after_last_string(line, ':');
    if f.as_str().is_empty() {
        None
    } else {
        Some(f)
    }
}

} // verus!
