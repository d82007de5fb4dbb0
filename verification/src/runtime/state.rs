//! What is kept between runs to reattach to backend sessions: for each workspace, its
//! worktrees and the sessions, windows and panes that run them.
use vstd::prelude::*;
use crate::text::str_equal;

verus! {

/// One worktree and where it runs.
#[derive(Clone, Debug)]
pub struct WorktreeState {
    pub branch: String,
    pub path: String,
    pub agent_id: String,
    pub pane_ids: Vec<String>,
    pub backend: String,
    pub backend_session_id: String,
    pub backend_window_id: String,
    /// The pane layout, as JSON, for restoring split panes.
    pub split_tree_json: Option<String>,
}

/// A workspace and its worktrees.
#[derive(Clone, Debug)]
pub struct WorkspaceState {
    pub path: String,
    pub worktrees: Vec<WorktreeState>,
}

/// A workspace as plain values.
pub struct WorkspaceView {
    pub path: Seq<char>,
    pub worktrees: Seq<WorktreeState>,
}

impl View for WorkspaceState {
    type V = WorkspaceView;

    open spec fn view(&self) -> WorkspaceView {
        WorkspaceView { path: self.path@, worktrees: self.worktrees@ }
    }
}

/// Views of workspaces.
pub open spec fn ws_views(v: Seq<WorkspaceState>) -> Seq<WorkspaceView> {
    v.map_values(|w: WorkspaceState| w@)
}

/// Everything kept for reattaching.
#[derive(Clone, Debug)]
pub struct RuntimeState {
    pub workspaces: Vec<WorkspaceState>,
}

/// Whether `i` is the first index of a workspace with path `p`.
pub open spec fn first_workspace_at(ws: Seq<WorkspaceView>, p: Seq<char>, i: int) -> bool {
    0 <= i < ws.len() && ws[i].path == p && forall|j: int| 0 <= j < i ==> (#[trigger] ws[j]).path != p
}

/// Index of the first workspace with path `p`.
pub open spec fn workspace_pos(ws: Seq<WorkspaceView>, p: Seq<char>) -> Option<int> {
    if exists|i: int| first_workspace_at(ws, p, i) { Some(choose|i: int| first_workspace_at(ws, p, i)) } else { None }
}

/// Whether `i` is the first index of a worktree with path `p`.
pub open spec fn first_worktree_at(ts: Seq<WorktreeState>, p: Seq<char>, i: int) -> bool {
    0 <= i < ts.len() && ts[i].path@ == p && forall|j: int| 0 <= j < i ==> (#[trigger] ts[j]).path@ != p
}

/// Index of the first worktree with path `p`.
pub open spec fn worktree_pos(ts: Seq<WorktreeState>, p: Seq<char>) -> Option<int> {
    if exists|i: int| first_worktree_at(ts, p, i) { Some(choose|i: int| first_worktree_at(ts, p, i)) } else { None }
}

/// The workspaces after recording worktree `t` in the workspace at `p`: it replaces the
/// first worktree with the same path or is added last; a new workspace is added last.
pub open spec fn upsert_spec(ws: Seq<WorkspaceView>, p: Seq<char>, t: WorktreeState) -> Seq<WorkspaceView> {
    match workspace_pos(ws, p) {
        Some(i) => {
            let w = ws[i];
            let trees = match worktree_pos(w.worktrees, t.path@) {
                Some(k) => w.worktrees.update(k, t),
                None => w.worktrees.push(t),
            };
            ws.update(i, WorkspaceView { path: w.path, worktrees: trees })
        },
        None => ws.push(WorkspaceView { path: p, worktrees: seq![t] }),
    }
}

proof fn lemma_first_workspace_unique(ws: Seq<WorkspaceView>, p: Seq<char>, i: int)
    requires
        first_workspace_at(ws, p, i),
    ensures
        workspace_pos(ws, p) == Some(i),
{
    let c = choose|c: int| first_workspace_at(ws, p, c);
    if c < i {
        assert(ws[c].path != p);
    } else if c > i {
        assert(ws[i].path != p);
    }
}

proof fn lemma_first_worktree_unique(ts: Seq<WorktreeState>, p: Seq<char>, i: int)
    requires
        first_worktree_at(ts, p, i),
    ensures
        worktree_pos(ts, p) == Some(i),
{
    let c = choose|c: int| first_worktree_at(ts, p, c);
    if c < i {
        assert(ts[c].path@ != p);
    } else if c > i {
        assert(ts[i].path@ != p);
    }
}

fn find_workspace_index(ws: &Vec<WorkspaceState>, p: &str) -> (r: Option<usize>)
    ensures
        match r {
            Some(i) => workspace_pos(ws_views(ws@), p@) == Some(i as int) && i < ws@.len(),
            None => workspace_pos(ws_views(ws@), p@) is None,
        },
{
    let ghost v = ws_views(ws@);
    let mut i: usize = 0;
    while i < ws.len()
        invariant
            i <= ws.len(),
            v == ws_views(ws@),
            forall|j: int| 0 <= j < i ==> (#[trigger] v[j]).path != p@,
        decreases ws.len() - i,
    {
        if str_equal(ws[i].path.as_str(), p) {
            proof {
                assert(first_workspace_at(v, p@, i as int));
                lemma_first_workspace_unique(v, p@, i as int);
            }
            return Some(i);
        }
        i = i + 1;
    }
    proof {
        if exists|k: int| first_workspace_at(v, p@, k) {
            let k = choose|k: int| first_workspace_at(v, p@, k);
            assert(v[k].path != p@);
        }
    }
    None
}

fn find_worktree_index(ts: &Vec<WorktreeState>, p: &str) -> (r: Option<usize>)
    ensures
        match r {
            Some(i) => worktree_pos(ts@, p@) == Some(i as int) && i < ts@.len(),
            None => worktree_pos(ts@, p@) is None,
        },
{
    let mut i: usize = 0;
    while i < ts.len()
        invariant
            i <= ts.len(),
            forall|j: int| 0 <= j < i ==> (#[trigger] ts@[j]).path@ != p@,
        decreases ts.len() - i,
    {
        if str_equal(ts[i].path.as_str(), p) {
            proof {
                assert(first_worktree_at(ts@, p@, i as int));
                lemma_first_worktree_unique(ts@, p@, i as int);
            }
            return Some(i);
        }
        i = i + 1;
    }
    proof {
        if exists|k: int| first_worktree_at(ts@, p@, k) {
            let k = choose|k: int| first_worktree_at(ts@, p@, k);
            assert(ts@[k].path@ != p@);
        }
    }
    None
}

impl RuntimeState {
    /// Nothing kept.
    pub fn new() -> (r: Self)
        ensures
            r.workspaces@.len() == 0,
    {
        RuntimeState { workspaces: Vec::new() }
    }

    /// The first workspace with path `path`.
    pub fn find_workspace(&self, path: &str) -> (r: Option<&WorkspaceState>)
        ensures
            match workspace_pos(ws_views(self.workspaces@), path@) {
                Some(i) => r matches Some(w) && *w == self.workspaces@[i],
                None => r is None,
            },
    {
        match find_workspace_index(&self.workspaces, path) {
            Some(i) => Some(&self.workspaces[i]),
            None => None,
        }
    }

    /// The first workspace with path `path`, to be changed in place; whatever is written
    /// through it becomes that workspace, and the others stay as they are.
    pub fn find_workspace_mut(&mut self, path: &str) -> (r: Option<&mut WorkspaceState>)
        ensures
            match workspace_pos(ws_views(old(self).workspaces@), path@) {
                Some(i) => r matches Some(w) && *w == old(self).workspaces@[i]
                    && final(self).workspaces@ == old(self).workspaces@.update(i, *final(w)),
                None => r is None && final(self).workspaces@ == old(self).workspaces@,
            },
    {
        match find_workspace_index(&self.workspaces, path) {
            Some(i) => Some(&mut self.workspaces[i]),
            None => None,
        }
    }

    /// Records worktree `worktree` in the workspace at `workspace_path`: it replaces the
    /// first worktree with the same path or is added; an unknown workspace is added.
    pub fn upsert_worktree(&mut self, workspace_path: &str, worktree: WorktreeState)
        ensures
            ws_views(final(self).workspaces@) == upsert_spec(ws_views(old(self).workspaces@), workspace_path@, worktree),
    {
        let ghost v = ws_views(self.workspaces@);
        let ghost t = worktree;
        match find_workspace_index(&self.workspaces, workspace_path) {
            Some(i) => {
                let mut ws = self.workspaces.remove(i);
                proof { assert(ws@ == v[i as int]); }
                let ghost trees = ws.worktrees@;
                match find_worktree_index(&ws.worktrees, worktree.path.as_str()) {
                    Some(k) => {
                        ws.worktrees.set(k, worktree);
                    },
                    None => {
                        ws.worktrees.push(worktree);
                    },
                }
                self.workspaces.insert(i, ws);
                proof {
                    assert(ws_views(self.workspaces@) =~= upsert_spec(v, workspace_path@, t));
                }
            },
            None => {
                let mut trees: Vec<WorktreeState> = Vec::new();
                trees.push(worktree);
                self.workspaces.push(WorkspaceState { path: workspace_path.to_string(), worktrees: trees });
                proof {
                    assert(trees@ =~= seq![t]);
                    assert(ws_views(self.workspaces@) =~= upsert_spec(v, workspace_path@, t));
                }
            },
        }
    }
}

impl Default for RuntimeState {
    fn default() -> (r: Self)
        ensures
            r.workspaces@.len() == 0,
    {
        RuntimeState::new()
    }
}

/// Recording the same worktree twice is recording it once.
pub proof fn law_upsert_idempotent(ws: Seq<WorkspaceView>, p: Seq<char>, t: WorktreeState)
    ensures
        upsert_spec(upsert_spec(ws, p, t), p, t) == upsert_spec(ws, p, t),
{
    let once = upsert_spec(ws, p, t);
    match workspace_pos(ws, p) {
        Some(i) => {
            assert(first_workspace_at(once, p, i)) by {
                assert forall|j: int| 0 <= j < i implies (#[trigger] once[j]).path != p by {
                    assert(once[j] == ws[j]);
                }
            }
            lemma_first_workspace_unique(once, p, i);
            let w = ws[i];
            let trees = once[i].worktrees;
            match worktree_pos(w.worktrees, t.path@) {
                Some(k) => {
                    assert(first_worktree_at(trees, t.path@, k)) by {
                        assert forall|j: int| 0 <= j < k implies (#[trigger] trees[j]).path@ != t.path@ by {
                            assert(trees[j] == w.worktrees[j]);
                        }
                    }
                    lemma_first_worktree_unique(trees, t.path@, k);
                    assert(trees.update(k, t) =~= trees);
                },
                None => {
                    let n = w.worktrees.len() as int;
                    assert(trees[n].path@ == t.path@);
                    if exists|m: int| first_worktree_at(trees, t.path@, m) {
                        let m = choose|m: int| first_worktree_at(trees, t.path@, m);
                        if m < n {
                            assert(trees[m] == w.worktrees[m]);
                            assert(first_worktree_at(w.worktrees, t.path@, m)) by {
                                assert forall|j: int| 0 <= j < m implies (#[trigger] w.worktrees[j]).path@ != t.path@ by {
                                    assert(trees[j] == w.worktrees[j]);
                                }
                            }
                        }
                    }
                    assert(first_worktree_at(trees, t.path@, n)) by {
                        assert forall|j: int| 0 <= j < n implies (#[trigger] trees[j]).path@ != t.path@ by {
                            assert(trees[j] == w.worktrees[j]);
                            if w.worktrees[j].path@ == t.path@ {
                                lemma_some_first_worktree(w.worktrees, t.path@, j);
                            }
                        }
                    }
                    lemma_first_worktree_unique(trees, t.path@, n);
                    assert(trees.update(n, t) =~= trees);
                },
            }
            assert(once.update(i, WorkspaceView { path: once[i].path, worktrees: once[i].worktrees }) =~= once);
        },
        None => {
            let n = ws.len() as int;
            assert(once[n].path == p);
            assert(first_workspace_at(once, p, n)) by {
                assert forall|j: int| 0 <= j < n implies (#[trigger] once[j]).path != p by {
                    assert(once[j] == ws[j]);
                    if ws[j].path == p {
                        lemma_some_first_workspace(ws, p, j);
                    }
                }
            }
            lemma_first_workspace_unique(once, p, n);
            let trees = once[n].worktrees;
            assert(trees =~= seq![t]);
            assert(first_worktree_at(trees, t.path@, 0));
            lemma_first_worktree_unique(trees, t.path@, 0);
            assert(trees.update(0, t) =~= trees);
            assert(once.update(n, WorkspaceView { path: once[n].path, worktrees: trees }) =~= once);
        },
    }
}

proof fn lemma_some_first_workspace(ws: Seq<WorkspaceView>, p: Seq<char>, j: int)
    requires
        0 <= j < ws.len(),
        ws[j].path == p,
    ensures
        exists|i: int| first_workspace_at(ws, p, i),
    decreases j,
{
    if exists|k: int| 0 <= k < j && ws[k].path == p {
        let k = choose|k: int| 0 <= k < j && ws[k].path == p;
        lemma_some_first_workspace(ws, p, k);
    } else {
        assert(first_workspace_at(ws, p, j));
    }
}

proof fn lemma_some_first_worktree(ts: Seq<WorktreeState>, p: Seq<char>, j: int)
    requires
        0 <= j < ts.len(),
        ts[j].path@ == p,
    ensures
        exists|i: int| first_worktree_at(ts, p, i),
    decreases j,
{
    if exists|k: int| 0 <= k < j && ts[k].path@ == p {
        let k = choose|k: int| 0 <= k < j && ts[k].path@ == p;
        lemma_some_first_worktree(ts, p, k);
    } else {
        assert(first_worktree_at(ts, p, j));
    }
}

} // verus!
