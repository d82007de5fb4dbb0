//! The application state that is kept between runs: window, sidebar, workspaces.
use vstd::prelude::*;
use crate::clock::now_millis;
use crate::text::str_equal;
use crate::config::strs;

verus! {

/// Window geometry.
#[derive(Clone, Copy, Debug, PartialEq, Eq)]
pub struct WindowState {
    pub size: (u32, u32),
    pub position: (i32, i32),
    pub maximized: bool,
}

impl WindowState {
    /// A 1200 by 800 window at (100, 100), not maximized.
    pub fn new() -> (r: Self)
        ensures
            r == (WindowState { size: (1200, 800), position: (100, 100), maximized: false }),
    {
        WindowState { size: (1200, 800), position: (100, 100), maximized: false }
    }
}

impl Default for WindowState {
    fn default() -> (r: Self)
        ensures
            r == (WindowState { size: (1200, 800), position: (100, 100), maximized: false }),
    {
        WindowState::new()
    }
}

/// How many recent workspaces are kept.
pub const MAX_RECENT_WORKSPACES: usize = 10;

/// Seconds between automatic saves.
pub const AUTO_SAVE_SECS: u64 = 30;

/// The recent workspaces other than `p`, in order.
pub open spec fn others(v: Seq<String>, p: Seq<char>) -> Seq<String>
    decreases v.len(),
{
    if v.len() == 0 { Seq::empty() } else {
        let r = others(v.drop_last(), p);
        if v.last()@ != p { r.push(v.last()) } else { r }
    }
}

/// The recent list after opening `p`: `p` first, then the others, at most ten.
pub open spec fn with_recent(v: Seq<String>, p: String) -> Seq<String> {
    let s = seq![p] + others(v, p@);
    if s.len() > MAX_RECENT_WORKSPACES { s.take(MAX_RECENT_WORKSPACES as int) } else { s }
}

/// Whether an automatic save is due at time `now`, given the last save.
pub open spec fn auto_save_due(last_saved: Option<u64>, now: u64) -> bool {
    match last_saved {
        None => true,
        Some(t) => (if now >= t { (now - t) as int } else { 0int }) / 1000 > AUTO_SAVE_SECS,
    }
}

/// Application state kept between runs.
#[derive(Clone, Debug)]
pub struct AppState {
    pub window_state: WindowState,
    /// Sidebar width in pixels.
    pub sidebar_width: u32,
    /// Index of the active workspace.
    pub active_workspace_index: usize,
    /// Recently opened workspaces, newest first.
    pub recent_workspaces: Vec<String>,
    /// The open workspace, if any.
    pub workspace_path: Option<String>,
    /// An error to show; not kept between runs.
    pub error_message: Option<String>,
    /// When the state was last saved, in milliseconds since the Unix epoch.
    pub last_saved: Option<u64>,
}

fn without_path(v: &Vec<String>, p: &str) -> (r: Vec<String>)
    ensures
        r@ == others(v@, p@),
{
    let mut out: Vec<String> = Vec::new();
    let mut i: usize = 0;
    while i < v.len()
        invariant
            i <= v.len(),
            out@ == others(v@.take(i as int), p@),
        decreases v.len() - i,
    {
        proof { assert(v@.take(i + 1).drop_last() =~= v@.take(i as int)); }
        if !str_equal(v[i].as_str(), p) {
            out.push(v[i].clone());
        }
        i = i + 1;
    }
    proof { assert(v@.take(v@.len() as int) =~= v@); }
    out
}

impl AppState {
    /// Default state: default window, sidebar 250, nothing open.
    pub fn new() -> (r: Self)
        ensures
            r.window_state == (WindowState { size: (1200, 800), position: (100, 100), maximized: false }),
            r.sidebar_width == 250,
            r.active_workspace_index == 0,
            r.recent_workspaces@.len() == 0,
            r.workspace_path is None,
            r.error_message is None,
            r.last_saved is None,
    {
        AppState {
            window_state: WindowState::new(),
            sidebar_width: 250,
            active_workspace_index: 0,
            recent_workspaces: Vec::new(),
            workspace_path: None,
            error_message: None,
            last_saved: None,
        }
    }

    /// Default state with `path` open and recent.
    pub fn with_workspace(path: &str) -> (r: Self)
        ensures
            r.workspace_path matches Some(p) && p@ == path@,
            strs(r.recent_workspaces@) == seq![path@],
            r.sidebar_width == 250,
            r.error_message is None,
    {
        let mut state = AppState::new();
        state.workspace_path = Some(path.to_string());
        state.add_recent_workspace(path);
        proof { assert(strs(state.recent_workspaces@) =~= seq![path@]); }
        state
    }

    /// Default state showing an error.
    pub fn with_error(message: &str) -> (r: Self)
        ensures
            r.error_message matches Some(m) && m@ == message@,
            r.workspace_path is None,
            r.sidebar_width == 250,
    {
        let mut state = AppState::new();
        state.error_message = Some(message.to_string());
        state
    }

    /// Whether a workspace is open.
    pub fn has_workspace(&self) -> (r: bool)
        ensures
            r == (self.workspace_path is Some),
    {
        self.workspace_path.is_some()
    }

    /// Puts `path` first among the recent workspaces, without duplicates, keeping ten.
    pub fn add_recent_workspace(&mut self, path: &str)
        ensures
            final(self).recent_workspaces@.len() > 0,
            final(self).recent_workspaces@[0]@ == path@,
            ({
                let s = seq![path@] + strs(others(old(self).recent_workspaces@, path@));
                strs(final(self).recent_workspaces@) == (if s.len() > MAX_RECENT_WORKSPACES { s.take(MAX_RECENT_WORKSPACES as int) } else { s })
            }),
            final(self).workspace_path == old(self).workspace_path,
            final(self).sidebar_width == old(self).sidebar_width,
            final(self).error_message == old(self).error_message,
            final(self).window_state == old(self).window_state,
            final(self).active_workspace_index == old(self).active_workspace_index,
            final(self).last_saved == old(self).last_saved,
    {
        let mut v = without_path(&self.recent_workspaces, path);
        let ghost rest = v@;
        v.insert(0, path.to_string());
        if v.len() > MAX_RECENT_WORKSPACES {
            v.truncate(MAX_RECENT_WORKSPACES);
        }
        self.recent_workspaces = v;
        proof {
            let s = seq![path@] + strs(rest);
            assert(strs(seq![self.recent_workspaces@[0]] + rest) =~= s);
            if s.len() > MAX_RECENT_WORKSPACES {
                assert(strs(self.recent_workspaces@) =~= s.take(MAX_RECENT_WORKSPACES as int));
            } else {
                assert(strs(self.recent_workspaces@) =~= s);
            }
        }
    }

    /// Sets the window size.
    pub fn update_window_size(&mut self, width: u32, height: u32)
        ensures
            final(self).window_state == (WindowState { size: (width, height), ..old(self).window_state }),
            final(self).sidebar_width == old(self).sidebar_width,
    {
        self.window_state.size = (width, height);
    }

    /// Sets the window position.
    pub fn update_window_position(&mut self, x: i32, y: i32)
        ensures
            final(self).window_state == (WindowState { position: (x, y), ..old(self).window_state }),
            final(self).sidebar_width == old(self).sidebar_width,
    {
        self.window_state.position = (x, y);
    }

    /// Sets whether the window is maximized.
    pub fn set_maximized(&mut self, maximized: bool)
        ensures
            final(self).window_state == (WindowState { maximized, ..old(self).window_state }),
            final(self).sidebar_width == old(self).sidebar_width,
    {
        self.window_state.maximized = maximized;
    }

    /// Sets the sidebar width, kept between 200 and 400.
    pub fn set_sidebar_width(&mut self, width: u32)
        ensures
            final(self).sidebar_width == (if width < 200 { 200 } else if width > 400 { 400 } else { width }),
            final(self).window_state == old(self).window_state,
    {
        self.sidebar_width = if width < 200 { 200 } else if width > 400 { 400 } else { width };
    }

    /// Sets the active workspace.
    pub fn set_active_workspace(&mut self, index: usize)
        ensures
            final(self).active_workspace_index == index,
            final(self).sidebar_width == old(self).sidebar_width,
    {
        self.active_workspace_index = index;
    }

    /// Records a save at time `now`.
    pub fn mark_saved_at(&mut self, now: u64)
        ensures
            final(self).last_saved == Some(now),
            final(self).sidebar_width == old(self).sidebar_width,
    {
        self.last_saved = Some(now);
    }

    /// Records a save now, by the system clock.
    pub fn mark_saved(&mut self)
        ensures
            final(self).last_saved is Some,
            final(self).sidebar_width == old(self).sidebar_width,
    {
        self.mark_saved_at(now_millis());
    }

    /// Whether an automatic save is due at time `now`: never saved, or more than 30 whole
    /// seconds ago.
    pub fn should_auto_save_at(&self, now: u64) -> (r: bool)
        ensures
            r == auto_save_due(self.last_saved, now),
    {
        match self.last_saved {
            None => true,
            Some(t) => (if now >= t { now - t } else { 0 }) / 1000 > AUTO_SAVE_SECS,
        }
    }

    /// Whether an automatic save is due now, by the system clock.
    pub fn should_auto_save(&self) -> (r: bool)
        ensures
            self.last_saved is None ==> r,
            exists|now: u64| r == #[trigger] auto_save_due(self.last_saved, now),
    {
        let now = now_millis();
        self.should_auto_save_at(now)
    }
}

impl Default for AppState {
    fn default() -> (r: Self)
        ensures
            r.sidebar_width == 250,
            r.active_workspace_index == 0,
            r.recent_workspaces@.len() == 0,
            r.workspace_path is None,
            r.error_message is None,
            r.last_saved is None,
    {
        AppState::new()
    }
}

proof fn lemma_others_excludes(v: Seq<String>, p: Seq<char>)
    ensures
        forall|i: int| 0 <= i < others(v, p).len() ==> (#[trigger] others(v, p)[i])@ != p,
        others(v, p).len() <= v.len(),
    decreases v.len(),
{
    if v.len() > 0 {
        lemma_others_excludes(v.drop_last(), p);
    }
}

/// The recent list never holds a workspace twice once it has none twice, keeps at most
/// ten, and reopening a workspace moves it to the front without growing the list.
pub proof fn law_recent_list(v: Seq<String>, p: String)
    requires
        strs(v).no_duplicates(),
    ensures
        strs(with_recent(v, p)).no_duplicates(),
        with_recent(v, p).len() <= MAX_RECENT_WORKSPACES,
        with_recent(v, p)[0] == p,
{
    lemma_others_excludes(v, p@);
    lemma_others_unique(v, p@);
    let s = seq![p] + others(v, p@);
    assert(strs(s).no_duplicates()) by {
        assert forall|i: int, j: int| 0 <= i < s.len() && 0 <= j < s.len() && i != j implies strs(s)[i] != strs(s)[j] by {
            if i == 0 {
                assert(others(v, p@)[j - 1]@ != p@);
            } else if j == 0 {
                assert(others(v, p@)[i - 1]@ != p@);
            } else {
                assert(strs(others(v, p@))[i - 1] != strs(others(v, p@))[j - 1]);
            }
        }
    }
    if s.len() > MAX_RECENT_WORKSPACES {
        let t = s.take(MAX_RECENT_WORKSPACES as int);
        assert(strs(t).no_duplicates()) by {
            assert forall|i: int, j: int| 0 <= i < t.len() && 0 <= j < t.len() && i != j implies strs(t)[i] != strs(t)[j] by {
                assert(strs(s)[i] != strs(s)[j]);
            }
        }
    }
}

proof fn lemma_others_unique(v: Seq<String>, p: Seq<char>)
    requires
        strs(v).no_duplicates(),
    ensures
        strs(others(v, p)).no_duplicates(),
        forall|x: String| others(v, p).contains(x) ==> v.contains(x),
    decreases v.len(),
{
    if v.len() > 0 {
        let d = v.drop_last();
        assert(strs(d).no_duplicates()) by {
            assert forall|i: int, j: int| 0 <= i < d.len() && 0 <= j < d.len() && i != j implies strs(d)[i] != strs(d)[j] by {
                assert(strs(v)[i] != strs(v)[j]);
            }
        }
        lemma_others_unique(d, p);
        let r = others(d, p);
        if v.last()@ != p {
            let rr = r.push(v.last());
            assert forall|x: String| rr.contains(x) implies v.contains(x) by {
                if r.contains(x) {
                    assert(d.contains(x));
                    let k = choose|k: int| 0 <= k < d.len() && d[k] == x;
                    assert(v[k] == x);
                } else {
                    assert(v[v.len() - 1] == x);
                }
            }
            assert(strs(rr).no_duplicates()) by {
                assert forall|i: int, j: int| 0 <= i < rr.len() && 0 <= j < rr.len() && i != j implies strs(rr)[i] != strs(rr)[j] by {
                    if i == r.len() || j == r.len() {
                        let k = if i == r.len() { j } else { i };
                        assert(r.contains(r[k]));
                        assert(d.contains(r[k]));
                        let m = choose|m: int| 0 <= m < d.len() && d[m] == r[k];
                        assert(strs(v)[m] != strs(v)[v.len() - 1]);
                    } else {
                        assert(strs(r)[i] != strs(r)[j]);
                    }
                }
            }
        } else {
            assert forall|x: String| r.contains(x) implies v.contains(x) by {
                assert(d.contains(x));
                let k = choose|k: int| 0 <= k < d.len() && d[k] == x;
                assert(v[k] == x);
            }
        }
    }
}

} // verus!
