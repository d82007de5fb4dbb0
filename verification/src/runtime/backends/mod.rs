//! Backend logic: tmux control-mode protocol, tmux key handling, and the rules that
//! name tmux sessions and windows and choose the backend.
pub mod tmux_control_mode;
pub mod tmux;
pub mod local_pty;

use vstd::prelude::*;
use crate::text::{chars_of, str_equal, string_from_chars, string_of};

verus! {

/// Name of the variable that selects the backend (`local` or `tmux`).
pub const PMUX_BACKEND_ENV: &'static str = "PMUX_BACKEND";

/// Backend used when nothing selects another.
pub const DEFAULT_BACKEND: &'static str = "local";

/// Last component of a path, as `Path::file_name` gives it (`None` for a path that ends
/// in `..` or has no components).
pub uninterp spec fn path_file_name(path: Seq<char>) -> Option<Seq<char>>;

/// Last component of a path.
/// Trusted: calls `Path::file_name` (std) on the path; the result is named
/// [`path_file_name`]. A component of a `&str` path is valid UTF-8, so the lossy
/// conversion keeps it unchanged.
#[verifier::external_body]
pub(crate) fn file_name_of(path: &str) -> (r: Option<String>)
    ensures
        match r { Some(s) => path_file_name(path@) == Some(s@), None => path_file_name(path@) is None },
{
    std::path::Path::new(path).file_name().map(|n| n.to_string_lossy().into_owned())
}

/// Session name of a workspace: `pmux-` and the last path component, or `pmux-default`.
pub open spec fn session_name_spec(path: Seq<char>) -> Seq<char> {
    "pmux-"@ + match path_file_name(path) { Some(n) => n, None => "default"@ }
}

/// tmux session of a workspace (one repository = one session), e.g. `/foo/repo` gives
/// `pmux-repo`.
pub fn session_name_for_workspace(workspace_path: &str) -> (r: String)
    ensures
        r@ == session_name_spec(workspace_path@),
{
    let name = match file_name_of(workspace_path) {
        Some(n) => n,
        None => string_of("default"),
    };
    let mut v = chars_of("pmux-");
    let n = chars_of(name.as_str());
    let mut i: usize = 0;
    let ghost v0 = v@;
    while i < n.len()
        invariant
            i <= n.len(),
            v@ == v0 + n@.take(i as int),
        decreases n.len() - i,
    {
        v.push(n[i]);
        proof { assert(v@ =~= v0 + n@.take(i + 1)); }
        i = i + 1;
    }
    proof { assert(n@.take(n@.len() as int) =~= n@); }
    string_from_chars(&v)
}

/// Characters allowed in a window name; others become `-`.
pub open spec fn window_char(c: char) -> char {
    if ('a' <= c && c <= 'z') || ('A' <= c && c <= 'Z') || ('0' <= c && c <= '9') || c == '-' || c == '_' { c } else { '-' }
}

/// Window name of a worktree: `main` for the main worktree (empty or `main` branch),
/// else the branch name with every character outside `[A-Za-z0-9_-]` turned into `-`.
pub open spec fn window_name_spec(branch: Seq<char>) -> Seq<char> {
    let name = if branch.len() == 0 || branch == "main"@ { "main"@ } else { branch };
    name.map_values(|c: char| window_char(c))
}

/// tmux window of a worktree (one worktree = one window).
pub fn window_name_for_worktree(_worktree_path: &str, branch_name: &str) -> (r: String)
    ensures
        r@ == window_name_spec(branch_name@),
{
    let name = if branch_name.is_empty() || str_equal(branch_name, "main") { chars_of("main") } else { chars_of(branch_name) };
    let mut out: Vec<char> = Vec::new();
    let mut i: usize = 0;
    while i < name.len()
        invariant
            i <= name.len(),
            out@ == name@.take(i as int).map_values(|c: char| window_char(c)),
        decreases name.len() - i,
    {
        let c = name[i];
        let d = if ('a' <= c && c <= 'z') || ('A' <= c && c <= 'Z') || ('0' <= c && c <= '9') || c == '-' || c == '_' { c } else { '-' };
        out.push(d);
        proof { assert(out@ =~= name@.take(i + 1).map_values(|c: char| window_char(c))); }
        i = i + 1;
    }
    proof { assert(name@.take(name@.len() as int) =~= name@); }
    string_from_chars(&out)
}

/// `session:window` target of a worktree's window.
pub fn window_target(workspace_path: &str, window_name: &str) -> (r: String)
    ensures
        r@ == session_name_spec(workspace_path@) + seq![':'] + window_name@,
{
    let s = session_name_for_workspace(workspace_path);
    let mut v = chars_of(s.as_str());
    v.push(':');
    let w = chars_of(window_name);
    let ghost v0 = v@;
    let mut i: usize = 0;
    while i < w.len()
        invariant
            i <= w.len(),
            v@ == v0 + w@.take(i as int),
        decreases w.len() - i,
    {
        v.push(w[i]);
        proof { assert(v@ =~= v0 + w@.take(i + 1)); }
        i = i + 1;
    }
    proof { assert(w@.take(w@.len() as int) =~= w@); }
    string_from_chars(&v)
}

/// A backend name that is accepted.
pub open spec fn valid_backend(b: Seq<char>) -> bool {
    b == "local"@ || b == "tmux"@
}

/// Backend choice: the environment value if set, else the configured one, else
/// `local`; a value other than `local` or `tmux` falls back to `local`.
pub open spec fn choose_backend_spec(from_env: Option<Seq<char>>, from_config: Option<Seq<char>>) -> Seq<char> {
    let raw = match from_env { Some(e) => e, None => match from_config { Some(c) => c, None => "local"@ } };
    if valid_backend(raw) { raw } else { "local"@ }
}

/// Chooses the backend from the environment value and the configured value.
pub fn choose_backend(from_env: Option<&str>, from_config: Option<&str>) -> (r: String)
    ensures
        r@ == choose_backend_spec(
            match from_env { Some(e) => Some(e@), None => None },
            match from_config { Some(c) => Some(c@), None => None },
        ),
{
    let raw: &str = match from_env {
        Some(e) => e,
        None => match from_config { Some(c) => c, None => DEFAULT_BACKEND },
    };
    if str_equal(raw, "local") || str_equal(raw, "tmux") {
        string_of(raw)
    } else {
        string_of(DEFAULT_BACKEND)
    }
}


/// How to start the runtime of a worktree.
#[derive(Debug, Clone)]
pub enum RuntimePlan {
    /// A local terminal; with a message when tmux was asked for but is not available.
    Local { fallback_message: Option<String> },
    /// A tmux window in the workspace's session.
    Tmux { session_name: String, window_name: String },
}

/// The message shown when tmux was asked for but is not available.
pub open spec fn fallback_text() -> Seq<char> {
    "tmux 不可用，已回退到 local"@
}

/// How to start the runtime of a worktree on the chosen backend: tmux (when it is
/// available) in the workspace's session and the branch's window; otherwise locally,
/// telling the user when tmux was asked for.
pub fn plan_runtime(backend: &str, tmux_available: bool, workspace_path: &str, worktree_path: &str, branch_name: &str) -> (r: RuntimePlan)
    ensures
        backend@ == "tmux"@ && tmux_available ==> (r matches RuntimePlan::Tmux { session_name, window_name }
            && session_name@ == session_name_spec(workspace_path@) && window_name@ == window_name_spec(branch_name@)),
        backend@ == "tmux"@ && !tmux_available ==> (r matches RuntimePlan::Local { fallback_message: Some(m) } && m@ == fallback_text()),
        backend@ != "tmux"@ ==> (r matches RuntimePlan::Local { fallback_message: None }),
{
    if str_equal(backend, "tmux") {
        if !tmux_available {
            return RuntimePlan::Local { fallback_message: Some(string_of("tmux 不可用，已回退到 local")) };
        }
        RuntimePlan::Tmux {
            session_name: session_name_for_workspace(workspace_path),
            window_name: window_name_for_worktree(worktree_path, branch_name),
        }
    } else {
        RuntimePlan::Local { fallback_message: None }
    }
}

/// Why a backend cannot reattach, or the tmux session and window to reattach to.
pub open spec fn recovery_spec(backend: Seq<char>, session: Seq<char>, window: Seq<char>) -> Result<(Seq<char>, Seq<char>), Seq<char>> {
    if backend == "local"@ || backend == "local_pty"@ {
        Err("local_pty does not support session recovery"@)
    } else if backend == "tmux"@ {
        Ok((session, window))
    } else {
        Err("unknown backend: "@ + backend)
    }
}

/// What to reattach to for a kept worktree: its tmux session and window; a local
/// terminal cannot be reattached and other backends are unknown.
pub fn recovery_target(backend: &str, state: &crate::runtime::state::WorktreeState) -> (r: Result<(String, String), crate::runtime::agent_runtime::RuntimeError>)
    ensures
        match recovery_spec(backend@, state.backend_session_id@, state.backend_window_id@) {
            Ok((s, w)) => r matches Ok((a, b)) && a@ == s && b@ == w,
            Err(m) => r matches Err(crate::runtime::agent_runtime::RuntimeError::Backend(e)) && e@ == m,
        },
{
    if str_equal(backend, "local") || str_equal(backend, "local_pty") {
        return Err(crate::runtime::agent_runtime::RuntimeError::Backend(string_of("local_pty does not support session recovery")));
    }
    if str_equal(backend, "tmux") {
        return Ok((state.backend_session_id.clone(), state.backend_window_id.clone()));
    }
    let mut v = chars_of("unknown backend: ");
    let b = chars_of(backend);
    let mut i: usize = 0;
    let ghost v0 = v@;
    while i < b.len()
        invariant
            i <= b.len(),
            v@ == v0 + b@.take(i as int),
        decreases b.len() - i,
    {
        v.push(b[i]);
        proof { assert(v@ =~= v0 + b@.take(i + 1)); }
        i = i + 1;
    }
    proof { assert(b@.take(b@.len() as int) =~= b@); }
    Err(crate::runtime::agent_runtime::RuntimeError::Backend(string_from_chars(&v)))
}

} // verus!
