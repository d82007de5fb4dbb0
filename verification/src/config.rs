//! The application configuration: open workspaces, the active one, the worktree chosen
//! in each repository, and the runtime backend.
use vstd::prelude::*;
use crate::text::{str_equal, string_of};

verus! {

/// Texts of strings.
pub open spec fn strs(v: Seq<String>) -> Seq<Seq<char>> {
    v.map_values(|s: String| s@)
}

/// The map that a list of (key, value) pairs gives, a later pair winning over an
/// earlier one with the same key.
pub open spec fn pairs_map(s: Seq<(String, usize)>) -> Map<Seq<char>, usize>
    decreases s.len(),
{
    if s.len() == 0 {
        Map::empty()
    } else {
        pairs_map(s.drop_last()).insert(s.last().0@, s.last().1)
    }
}

/// No key occurs twice.
pub open spec fn keys_unique(s: Seq<(String, usize)>) -> bool {
    forall|i: int, j: int| 0 <= i < j < s.len() ==> (#[trigger] s[i]).0@ != (#[trigger] s[j]).0@
}

/// Application configuration.
#[derive(Debug, Clone)]
pub struct Config {
    /// Rows kept in the terminal row cache; 0 means the default of 200.
    pub terminal_row_cache_size: usize,
    /// The single workspace of older configurations.
    pub recent_workspace: Option<String>,
    /// Open workspaces (repository paths).
    pub workspace_paths: Vec<String>,
    /// Index of the active workspace tab.
    pub active_workspace_index: usize,
    /// Worktree index chosen per repository path; each path at most once.
    pub per_repo_worktree_index: Vec<(String, usize)>,
    /// Runtime backend: `local` or `tmux`.
    pub backend: String,
}

/// Backends a configuration may name.
pub open spec fn valid_backend(b: Seq<char>) -> bool {
    b == "local"@ || b == "tmux"@
}

/// Whether the legacy workspace is taken over: no workspace is open and the legacy one
/// is set and not empty.
pub open spec fn migration_applies(c: Config) -> bool {
    c.workspace_paths@.len() == 0 && (c.recent_workspace matches Some(p) && p@.len() > 0)
}

/// The workspace that opens first: the first open workspace, else the legacy one.
pub open spec fn recent_workspace_spec(c: Config) -> Option<Seq<char>> {
    if c.workspace_paths@.len() > 0 {
        Some(c.workspace_paths@[0]@)
    } else {
        match c.recent_workspace { Some(p) => Some(p@), None => None }
    }
}

/// What recording the single workspace `path` does to a configuration: it becomes the
/// legacy workspace; an empty path clears the open workspaces, the active index and the
/// worktree indexes; a path not yet open becomes the only open workspace, active; an
/// open one leaves the list and the active index as they were. The worktree indexes
/// (but for an empty path), the backend and the row cache size stay.
pub open spec fn workspace_saved(old: Config, path: Seq<char>, new: Config) -> bool {
    &&& (new.recent_workspace matches Some(p) && p@ == path)
    &&& new.backend == old.backend
    &&& new.terminal_row_cache_size == old.terminal_row_cache_size
    &&& if path.len() == 0 {
        new.workspace_paths@.len() == 0 && new.active_workspace_index == 0 && new.per_repo_worktree_index@.len() == 0
    } else if strs(old.workspace_paths@).contains(path) {
        new.workspace_paths@ == old.workspace_paths@ && new.active_workspace_index == old.active_workspace_index
            && new.per_repo_worktree_index@ == old.per_repo_worktree_index@
    } else {
        strs(new.workspace_paths@) == seq![path] && new.active_workspace_index == 0
            && new.per_repo_worktree_index@ == old.per_repo_worktree_index@
    }
}

proof fn lemma_pairs_map_update(s: Seq<(String, usize)>, j: int, k: String, v: usize)
    requires
        keys_unique(s),
        0 <= j < s.len(),
        s[j].0@ == k@,
    ensures
        pairs_map(s.update(j, (k, v))) == pairs_map(s).insert(k@, v),
        keys_unique(s.update(j, (k, v))),
    decreases s.len(),
{
    let t = s.update(j, (k, v));
    assert(keys_unique(t)) by {
        assert forall|a: int, b: int| 0 <= a < b < t.len() implies (#[trigger] t[a]).0@ != (#[trigger] t[b]).0@ by {
            assert(s[a].0@ != s[b].0@);
        }
    }
    if j == s.len() - 1 {
        assert(t.drop_last() =~= s.drop_last());
        assert(pairs_map(t) =~= pairs_map(s).insert(k@, v));
    } else {
        let d = s.drop_last();
        assert(keys_unique(d)) by {
            assert forall|a: int, b: int| 0 <= a < b < d.len() implies (#[trigger] d[a]).0@ != (#[trigger] d[b]).0@ by {
                assert(s[a].0@ != s[b].0@);
            }
        }
        lemma_pairs_map_update(d, j, k, v);
        assert(t.drop_last() =~= d.update(j, (k, v)));
        assert(s[j].0@ != s.last().0@);
        assert(pairs_map(t) =~= pairs_map(s).insert(k@, v));
    }
}

proof fn lemma_pairs_map_absent(s: Seq<(String, usize)>, k: Seq<char>)
    requires
        forall|i: int| 0 <= i < s.len() ==> (#[trigger] s[i]).0@ != k,
    ensures
        !pairs_map(s).dom().contains(k),
    decreases s.len(),
{
    if s.len() > 0 {
        lemma_pairs_map_absent(s.drop_last(), k);
    }
}

proof fn lemma_pairs_map_present(s: Seq<(String, usize)>, i: int)
    requires
        keys_unique(s),
        0 <= i < s.len(),
    ensures
        pairs_map(s).dom().contains(s[i].0@),
        pairs_map(s)[s[i].0@] == s[i].1,
    decreases s.len(),
{
    if i < s.len() - 1 {
        let d = s.drop_last();
        assert(keys_unique(d)) by {
            assert forall|a: int, b: int| 0 <= a < b < d.len() implies (#[trigger] d[a]).0@ != (#[trigger] d[b]).0@ by {
                assert(s[a].0@ != s[b].0@);
            }
        }
        lemma_pairs_map_present(d, i);
        assert(s[i].0@ != s.last().0@);
    }
}

fn key_index(v: &Vec<(String, usize)>, k: &str) -> (r: Option<usize>)
    ensures
        match r {
            Some(i) => i < v@.len() && v@[i as int].0@ == k@,
            None => forall|i: int| 0 <= i < v@.len() ==> (#[trigger] v@[i]).0@ != k@,
        },
{
    let mut i: usize = 0;
    while i < v.len()
        invariant
            i <= v.len(),
            forall|j: int| 0 <= j < i ==> (#[trigger] v@[j]).0@ != k@,
        decreases v.len() - i,
    {
        if str_equal(v[i].0.as_str(), k) {
            return Some(i);
        }
        i = i + 1;
    }
    None
}

fn upsert(v: &mut Vec<(String, usize)>, k: &str, val: usize)
    requires
        keys_unique(old(v)@),
    ensures
        keys_unique(final(v)@),
        pairs_map(final(v)@) == pairs_map(old(v)@).insert(k@, val),
{
    match key_index(v, k) {
        Some(i) => {
            let ks = k.to_string();
            proof { lemma_pairs_map_update(v@, i as int, ks, val); }
            v.set(i, (ks, val));
        },
        None => {
            let ks = k.to_string();
            v.push((ks, val));
            proof {
                assert(v@.drop_last() =~= old(v)@);
                assert(keys_unique(v@)) by {
                    assert forall|a: int, b: int| 0 <= a < b < v@.len() implies (#[trigger] v@[a]).0@ != (#[trigger] v@[b]).0@ by {
                        if b == v@.len() - 1 {
                            assert(old(v)@[a].0@ != k@);
                        } else {
                            assert(old(v)@[a].0@ != old(v)@[b].0@);
                        }
                    }
                }
            }
        },
    }
}

fn contains_string(v: &Vec<String>, s: &str) -> (r: bool)
    ensures
        r == strs(v@).contains(s@),
{
    let mut i: usize = 0;
    while i < v.len()
        invariant
            i <= v.len(),
            forall|j: int| 0 <= j < i ==> (#[trigger] v@[j])@ != s@,
        decreases v.len() - i,
    {
        if str_equal(v[i].as_str(), s) {
            proof { assert(strs(v@)[i as int] == s@); }
            return true;
        }
        i = i + 1;
    }
    proof {
        if strs(v@).contains(s@) {
            let j = choose|j: int| 0 <= j < strs(v@).len() && strs(v@)[j] == s@;
            assert(v@[j]@ != s@);
        }
    }
    false
}

impl Config {
    /// The map of chosen worktree indexes.
    pub open spec fn worktree_map(&self) -> Map<Seq<char>, usize> {
        pairs_map(self.per_repo_worktree_index@)
    }

    /// Each repository path occurs at most once in the worktree indexes.
    pub open spec fn wf(&self) -> bool {
        keys_unique(self.per_repo_worktree_index@)
    }

    /// The defaults: row cache 200, no workspaces, backend `local`.
    pub fn new() -> (r: Self)
        ensures
            r.terminal_row_cache_size == 200,
            r.recent_workspace is None,
            r.workspace_paths@.len() == 0,
            r.active_workspace_index == 0,
            r.per_repo_worktree_index@.len() == 0,
            r.backend@ == "local"@,
            r.wf(),
    {
        Config {
            terminal_row_cache_size: 200,
            recent_workspace: None,
            workspace_paths: Vec::new(),
            active_workspace_index: 0,
            per_repo_worktree_index: Vec::new(),
            backend: string_of("local"),
        }
    }

    /// Takes the legacy workspace as the only open one where none is open.
    pub fn migrate_from_legacy(&mut self)
        ensures
            ({
                let o = *old(self);
                let f = *final(self);
                if migration_applies(o) {
                    &&& strs(f.workspace_paths@) == seq![o.recent_workspace->0@]
                    &&& f.active_workspace_index == 0
                } else {
                    &&& f.workspace_paths@ == o.workspace_paths@
                    &&& f.active_workspace_index == o.active_workspace_index
                }
            }),
            final(self).recent_workspace == old(self).recent_workspace,
            final(self).per_repo_worktree_index@ == old(self).per_repo_worktree_index@,
            final(self).backend == old(self).backend,
            final(self).terminal_row_cache_size == old(self).terminal_row_cache_size,
    {
        if self.workspace_paths.len() == 0 {
            match &self.recent_workspace {
                Some(path) => {
                    if !path.as_str().is_empty() {
                        let mut v: Vec<String> = Vec::new();
                        v.push(path.clone());
                        proof { assert(strs(v@) =~= seq![path@]); }
                        self.workspace_paths = v;
                        self.active_workspace_index = 0;
                    }
                },
                None => {},
            }
        }
    }

    /// Makes a configuration just read from disk usable: an unknown backend becomes
    /// `local`, then the legacy workspace is migrated. Returns whether the backend was
    /// replaced.
    pub fn normalize_loaded(&mut self) -> (r: bool)
        ensures
            loaded_normalized(*old(self), *final(self)),
            r == !valid_backend(old(self).backend@),
            final(self).backend@ == (if r { "local"@ } else { old(self).backend@ }),
            ({
                let o = *old(self);
                let f = *final(self);
                if migration_applies(o) {
                    &&& strs(f.workspace_paths@) == seq![o.recent_workspace->0@]
                    &&& f.active_workspace_index == 0
                } else {
                    &&& f.workspace_paths@ == o.workspace_paths@
                    &&& f.active_workspace_index == o.active_workspace_index
                }
            }),
            final(self).recent_workspace == old(self).recent_workspace,
            final(self).per_repo_worktree_index@ == old(self).per_repo_worktree_index@,
            final(self).terminal_row_cache_size == old(self).terminal_row_cache_size,
    {
        let valid = str_equal(self.backend.as_str(), "local") || str_equal(self.backend.as_str(), "tmux");
        if !valid {
            self.backend = string_of("local");
        }
        self.migrate_from_legacy();
        !valid
    }

    /// The workspace that opens first: the first open workspace, else the legacy one.
    pub fn get_recent_workspace(&self) -> (r: Option<String>)
        ensures
            (match r { Some(p) => Some(p@), None => None }) == recent_workspace_spec(*self),
    {
        if self.workspace_paths.len() > 0 {
            Some(self.workspace_paths[0].clone())
        } else {
            match &self.recent_workspace {
                Some(p) => Some(p.clone()),
                None => None,
            }
        }
    }

    /// All open workspaces.
    pub fn get_workspace_paths(&self) -> (r: Vec<String>)
        ensures
            strs(r@) == strs(self.workspace_paths@),
    {
        let mut out: Vec<String> = Vec::new();
        let mut i: usize = 0;
        while i < self.workspace_paths.len()
            invariant
                i <= self.workspace_paths.len(),
                strs(out@) == strs(self.workspace_paths@.take(i as int)),
            decreases self.workspace_paths.len() - i,
        {
            let ghost before = out@;
            out.push(self.workspace_paths[i].clone());
            proof {
                assert(strs(out@) =~= strs(before).push(self.workspace_paths@[i as int]@));
                assert(strs(self.workspace_paths@.take(i + 1)) =~= strs(self.workspace_paths@.take(i as int)).push(self.workspace_paths@[i as int]@));
            }
            i = i + 1;
        }
        proof { assert(self.workspace_paths@.take(self.workspace_paths@.len() as int) =~= self.workspace_paths@); }
        out
    }

    /// Records a single workspace: an empty path clears all workspaces and worktree
    /// indexes; a path not yet open becomes the only open workspace.
    pub fn save_workspace(&mut self, path: &str)
        requires
            old(self).wf(),
        ensures
            final(self).wf(),
            workspace_saved(*old(self), path@, *final(self)),
            final(self).recent_workspace matches Some(p) && p@ == path@,
            path@.len() == 0 ==> final(self).workspace_paths@.len() == 0 && final(self).active_workspace_index == 0
                && final(self).per_repo_worktree_index@.len() == 0,
            path@.len() > 0 && strs(old(self).workspace_paths@).contains(path@) ==>
                final(self).workspace_paths@ == old(self).workspace_paths@
                && final(self).active_workspace_index == old(self).active_workspace_index
                && final(self).per_repo_worktree_index@ == old(self).per_repo_worktree_index@,
            path@.len() > 0 && !strs(old(self).workspace_paths@).contains(path@) ==>
                strs(final(self).workspace_paths@) == seq![path@] && final(self).active_workspace_index == 0
                && final(self).per_repo_worktree_index@ == old(self).per_repo_worktree_index@,
            final(self).backend == old(self).backend,
            final(self).terminal_row_cache_size == old(self).terminal_row_cache_size,
    {
        self.recent_workspace = Some(path.to_string());
        if path.is_empty() {
            self.workspace_paths = Vec::new();
            self.active_workspace_index = 0;
            self.per_repo_worktree_index = Vec::new();
        } else if !contains_string(&self.workspace_paths, path) {
            let mut v: Vec<String> = Vec::new();
            v.push(path.to_string());
            proof { assert(strs(v@) =~= seq![path@]); }
            self.workspace_paths = v;
            self.active_workspace_index = 0;
        }
    }

    /// Records the open workspaces, the active one (at most the last index) and the
    /// chosen worktree of each repository (a later pair winning); the first workspace
    /// also becomes the legacy one.
    pub fn save_workspaces(&mut self, paths: &Vec<String>, active_index: usize, per_repo_worktree_index: &Vec<(String, usize)>)
        ensures
            strs(final(self).workspace_paths@) == strs(paths@),
            final(self).active_workspace_index == (if paths@.len() == 0 { 0 } else if active_index < paths@.len() - 1 { active_index as int } else { paths@.len() - 1 }),
            final(self).worktree_map() == pairs_map(per_repo_worktree_index@),
            final(self).wf(),
            (match final(self).recent_workspace { Some(p) => Some(p@), None => None })
                == (if paths@.len() > 0 { Some(paths@[0]@) } else { None::<Seq<char>> }),
            final(self).backend == old(self).backend,
            final(self).terminal_row_cache_size == old(self).terminal_row_cache_size,
    {
        let mut ps: Vec<String> = Vec::new();
        let mut i: usize = 0;
        while i < paths.len()
            invariant
                i <= paths.len(),
                strs(ps@) == strs(paths@.take(i as int)),
            decreases paths.len() - i,
        {
            let ghost before = ps@;
            ps.push(paths[i].clone());
            proof {
                assert(strs(ps@) =~= strs(before).push(paths@[i as int]@));
                assert(strs(paths@.take(i + 1)) =~= strs(paths@.take(i as int)).push(paths@[i as int]@));
            }
            i = i + 1;
        }
        proof { assert(paths@.take(paths@.len() as int) =~= paths@); }
        self.workspace_paths = ps;
        let last = if paths.len() > 0 { paths.len() - 1 } else { 0 };
        self.active_workspace_index = if active_index < last { active_index } else { last };
        let mut m: Vec<(String, usize)> = Vec::new();
        let mut j: usize = 0;
        while j < per_repo_worktree_index.len()
            invariant
                j <= per_repo_worktree_index.len(),
                keys_unique(m@),
                pairs_map(m@) == pairs_map(per_repo_worktree_index@.take(j as int)),
            decreases per_repo_worktree_index.len() - j,
        {
            proof { assert(per_repo_worktree_index@.take(j + 1).drop_last() =~= per_repo_worktree_index@.take(j as int)); }
            let (k, v) = (&per_repo_worktree_index[j].0, per_repo_worktree_index[j].1);
            upsert(&mut m, k.as_str(), v);
            j = j + 1;
        }
        proof { assert(per_repo_worktree_index@.take(per_repo_worktree_index@.len() as int) =~= per_repo_worktree_index@); }
        self.per_repo_worktree_index = m;
        self.recent_workspace = if self.workspace_paths.len() > 0 { Some(self.workspace_paths[0].clone()) } else { None };
        proof {
            if paths@.len() > 0 {
                assert(strs(self.workspace_paths@)[0] == strs(paths@)[0]);
            }
        }
    }

    /// Rows kept in the terminal row cache (200 where 0 is set).
    pub fn terminal_row_cache_size(&self) -> (r: usize)
        ensures
            r == (if self.terminal_row_cache_size == 0 { 200 } else { self.terminal_row_cache_size }),
    {
        if self.terminal_row_cache_size == 0 { 200 } else { self.terminal_row_cache_size }
    }

    /// The chosen worktree indexes, each repository once.
    pub fn get_per_repo_worktree_index(&self) -> (r: Vec<(String, usize)>)
        requires
            self.wf(),
        ensures
            keys_unique(r@),
            pairs_map(r@) == self.worktree_map(),
    {
        let mut out: Vec<(String, usize)> = Vec::new();
        let mut i: usize = 0;
        while i < self.per_repo_worktree_index.len()
            invariant
                i <= self.per_repo_worktree_index.len(),
                self.wf(),
                keys_unique(out@),
                pairs_map(out@) == pairs_map(self.per_repo_worktree_index@.take(i as int)),
            decreases self.per_repo_worktree_index.len() - i,
        {
            proof { assert(self.per_repo_worktree_index@.take(i + 1).drop_last() =~= self.per_repo_worktree_index@.take(i as int)); }
            upsert(&mut out, self.per_repo_worktree_index[i].0.as_str(), self.per_repo_worktree_index[i].1);
            i = i + 1;
        }
        proof { assert(self.per_repo_worktree_index@.take(self.per_repo_worktree_index@.len() as int) =~= self.per_repo_worktree_index@); }
        out
    }

    /// The chosen worktree index of one repository.
    pub fn worktree_index_for(&self, repo_path: &str) -> (r: Option<usize>)
        requires
            self.wf(),
        ensures
            r == (if self.worktree_map().dom().contains(repo_path@) { Some(self.worktree_map()[repo_path@]) } else { None }),
    {
        match key_index(&self.per_repo_worktree_index, repo_path) {
            Some(i) => {
                proof { lemma_pairs_map_present(self.per_repo_worktree_index@, i as int); }
                Some(self.per_repo_worktree_index[i].1)
            },
            None => {
                proof { lemma_pairs_map_absent(self.per_repo_worktree_index@, repo_path@); }
                None
            },
        }
    }
}

impl Default for Config {
    fn default() -> (r: Self)
        ensures
            r.terminal_row_cache_size == 200,
            r.recent_workspace is None,
            r.workspace_paths@.len() == 0,
            r.active_workspace_index == 0,
            r.per_repo_worktree_index@.len() == 0,
            r.backend@ == "local"@,
            r.wf(),
    {
        Config::new()
    }
}

/// What reading a configuration from disk does to what was parsed (`o`) to give `f`:
/// an unknown backend becomes `local`, a known one stays; the legacy workspace is taken
/// as the only open one where none is open; everything else stays.
pub open spec fn loaded_normalized(o: Config, f: Config) -> bool {
    &&& f.backend@ == (if valid_backend(o.backend@) { o.backend@ } else { "local"@ })
    &&& if migration_applies(o) {
        strs(f.workspace_paths@) == seq![o.recent_workspace->0@] && f.active_workspace_index == 0
    } else {
        f.workspace_paths@ == o.workspace_paths@ && f.active_workspace_index == o.active_workspace_index
    }
    &&& f.recent_workspace == o.recent_workspace
    &&& f.per_repo_worktree_index@ == o.per_repo_worktree_index@
    &&& f.terminal_row_cache_size == o.terminal_row_cache_size
}

/// A configuration read from disk always names a known backend, keeps a known one, and
/// still opens the workspace that the parsed file would have opened first; a legacy
/// workspace ends up in the list of open workspaces.
pub proof fn law_loaded_config(o: Config, f: Config)
    requires
        loaded_normalized(o, f),
    ensures
        valid_backend(f.backend@),
        valid_backend(o.backend@) ==> f.backend@ == o.backend@,
        o.workspace_paths@.len() > 0 || (o.recent_workspace matches Some(p) && p@.len() > 0) ==> recent_workspace_spec(f) == recent_workspace_spec(o),
        migration_applies(o) ==> f.workspace_paths@.len() == 1,
{
    if migration_applies(o) {
        assert(strs(f.workspace_paths@).len() == 1);
        assert(strs(f.workspace_paths@)[0] == f.workspace_paths@[0]@);
    }
}

/// After recording a new non-empty workspace, it is the one that opens first.
pub proof fn law_saved_workspace_opens_first(c: Config, path: Seq<char>)
    requires
        strs(c.workspace_paths@) == seq![path],
    ensures
        recent_workspace_spec(c) == Some(path),
{
    assert(strs(c.workspace_paths@).len() == 1);
    assert(strs(c.workspace_paths@)[0] == path);
    assert(c.workspace_paths@[0]@ == path);
}

} // verus!
