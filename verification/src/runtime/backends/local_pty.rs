//! The bookkeeping of the local terminal backend, which runs a shell per pane directly
//! in a pseudo-terminal: pane names, the table of panes and their sizes, and which
//! requests a pane answers. Opening the pseudo-terminals and moving their bytes is the
//! caller's part.
use vstd::prelude::*;
use crate::text::{extend_str, string_from_chars, push_decimal, decimal, str_equal, string_of};
use crate::runtime::agent_runtime::RuntimeError;

verus! {

/// What is typed into a pane to show the branch's changes against `main`.
pub const DIFF_COMMAND: &'static str = "git diff main...HEAD --color=always\n";

/// Pane id of the single-pane runtime of a worktree: `local:` and the path.
pub open spec fn runtime_pane_id_spec(worktree_path: Seq<char>) -> Seq<char> {
    "local:"@ + worktree_path
}

/// Pane id of the single-pane runtime of a worktree.
pub fn runtime_pane_id(worktree_path: &str) -> (r: String)
    ensures
        r@ == runtime_pane_id_spec(worktree_path@),
{
    let mut v: Vec<char> = Vec::new();
    extend_str(&mut v, "local:");
    extend_str(&mut v, worktree_path);
    string_from_chars(&v)
}

/// Pane id of a named pane of a worktree: `local:`, the path, `:` and the name.
pub open spec fn agent_pane_id_spec(worktree_path: Seq<char>, name: Seq<char>) -> Seq<char> {
    "local:"@ + worktree_path + ":"@ + name
}

/// Pane id of a named pane of a worktree.
pub fn agent_pane_id(worktree_path: &str, name: &str) -> (r: String)
    ensures
        r@ == agent_pane_id_spec(worktree_path@, name@),
{
    let mut v: Vec<char> = Vec::new();
    extend_str(&mut v, "local:");
    extend_str(&mut v, worktree_path);
    extend_str(&mut v, ":");
    extend_str(&mut v, name);
    string_from_chars(&v)
}

/// Name of the pane made by the `n`-th split: `pane` and `n`.
pub open spec fn split_pane_name(n: u64) -> Seq<char> {
    "pane"@ + decimal(n as nat)
}

/// The single pane of a worktree's runtime, and its size.
#[derive(Debug, Clone)]
pub struct LocalPtyRuntime {
    pub worktree_path: String,
    pub pane_id: String,
    pub cols: u16,
    pub rows: u16,
}

/// The ids under which a single-pane runtime lists its pane: none, the pane id, the
/// worktree path, or `local:` and the path.
pub open spec fn runtime_answers(p: LocalPtyRuntime, agent_id: Seq<char>) -> bool {
    agent_id.len() == 0 || agent_id == p.pane_id@ || agent_id == p.worktree_path@
        || agent_id == runtime_pane_id_spec(p.worktree_path@)
}

impl LocalPtyRuntime {
    /// The runtime of a worktree, with a terminal of `cols` by `rows`.
    pub fn new(worktree_path: &str, cols: u16, rows: u16) -> (r: Self)
        ensures
            r.worktree_path@ == worktree_path@,
            r.pane_id@ == runtime_pane_id_spec(worktree_path@),
            r.cols == cols,
            r.rows == rows,
    {
        LocalPtyRuntime { worktree_path: string_of(worktree_path), pane_id: runtime_pane_id(worktree_path), cols, rows }
    }

    /// The worktree the runtime's shell runs in.
    pub fn worktree_path(&self) -> (r: &str)
        ensures
            r@ == self.worktree_path@,
    {
        self.worktree_path.as_str()
    }

    /// The id of the runtime's pane.
    pub fn pane_id(&self) -> (r: &str)
        ensures
            r@ == self.pane_id@,
    {
        self.pane_id.as_str()
    }

    /// Input, focus and output go only to the runtime's own pane.
    pub fn check_pane(&self, pane_id: &str) -> (r: Result<(), RuntimeError>)
        ensures
            pane_id@ == self.pane_id@ ==> r is Ok,
            pane_id@ != self.pane_id@ ==> (r matches Err(RuntimeError::PaneNotFound(p)) && p@ == pane_id@),
    {
        if str_equal(pane_id, self.pane_id.as_str()) { Ok(()) } else { Err(RuntimeError::PaneNotFound(string_of(pane_id))) }
    }

    /// Records the new size of the runtime's pane; any other pane is not found.
    pub fn resize(&mut self, pane_id: &str, cols: u16, rows: u16) -> (r: Result<(), RuntimeError>)
        ensures
            pane_id@ == old(self).pane_id@ ==> r is Ok && *final(self) == (LocalPtyRuntime { cols, rows, ..*old(self) }),
            pane_id@ != old(self).pane_id@ ==> (r matches Err(RuntimeError::PaneNotFound(p)) && p@ == pane_id@) && *final(self) == *old(self),
    {
        if str_equal(pane_id, self.pane_id.as_str()) {
            self.cols = cols;
            self.rows = rows;
            Ok(())
        } else {
            Err(RuntimeError::PaneNotFound(string_of(pane_id)))
        }
    }

    /// Size of a pane: the runtime's own, or 80 by 24 for any other.
    pub fn get_pane_dimensions(&self, pane_id: &str) -> (r: (u16, u16))
        ensures
            r == (if pane_id@ == self.pane_id@ { (self.cols, self.rows) } else { (80u16, 24u16) }),
    {
        if str_equal(pane_id, self.pane_id.as_str()) { (self.cols, self.rows) } else { (80, 24) }
    }

    /// The panes of an agent: the runtime's pane when the id names this runtime, none
    /// otherwise.
    pub fn list_panes(&self, agent_id: &str) -> (r: Vec<String>)
        ensures
            runtime_answers(*self, agent_id@) ==> r@.len() == 1 && r@[0]@ == self.pane_id@,
            !runtime_answers(*self, agent_id@) ==> r@.len() == 0,
    {
        let prefixed = runtime_pane_id(self.worktree_path.as_str());
        if agent_id.is_empty() || str_equal(agent_id, self.pane_id.as_str())
            || str_equal(agent_id, self.worktree_path.as_str()) || str_equal(agent_id, prefixed.as_str()) {
            let mut v: Vec<String> = Vec::new();
            v.push(self.pane_id.clone());
            v
        } else {
            Vec::new()
        }
    }
}

/// One pane of a worktree's agent and its size.
#[derive(Debug, Clone)]
pub struct LocalPane {
    pub pane_id: String,
    pub cols: u16,
    pub rows: u16,
}

/// The panes of a worktree's agent, in the order they were made, with the size new
/// panes get and the number of splits so far.
#[derive(Debug, Clone)]
pub struct LocalPtyAgent {
    pub worktree_path: String,
    pub panes: Vec<LocalPane>,
    pub pane_counter: u64,
    pub cols: u16,
    pub rows: u16,
}

/// The ids of a sequence of panes.
pub open spec fn pane_ids_of(ps: Seq<LocalPane>) -> Seq<Seq<char>> {
    ps.map_values(|p: LocalPane| p.pane_id@)
}

impl LocalPtyAgent {
    /// No two panes share an id.
    pub open spec fn well_formed(self) -> bool {
        forall|i: int, j: int| 0 <= i < j < self.panes@.len() ==> self.panes@[i].pane_id@ != self.panes@[j].pane_id@
    }

    /// The pane ids, in the order the panes were made.
    pub open spec fn ids(self) -> Seq<Seq<char>> {
        pane_ids_of(self.panes@)
    }

    /// The table has a pane with this id.
    pub open spec fn has_pane(self, id: Seq<char>) -> bool {
        exists|i: int| 0 <= i < self.panes@.len() && self.panes@[i].pane_id@ == id
    }

    /// Size of the pane with this id, if there is one.
    pub open spec fn size_of(self, id: Seq<char>) -> Option<(u16, u16)> {
        if self.has_pane(id) {
            let i = choose|i: int| 0 <= i < self.panes@.len() && self.panes@[i].pane_id@ == id;
            Some((self.panes@[i].cols, self.panes@[i].rows))
        } else {
            None
        }
    }

    proof fn lemma_size_at(self, i: int)
        requires
            self.well_formed(),
            0 <= i < self.panes@.len(),
        ensures
            self.size_of(self.panes@[i].pane_id@) == Some((self.panes@[i].cols, self.panes@[i].rows)),
    {
        let id = self.panes@[i].pane_id@;
        assert(self.has_pane(id));
        let j = choose|j: int| 0 <= j < self.panes@.len() && self.panes@[j].pane_id@ == id;
        if j != i {
            if j < i { assert(self.panes@[j].pane_id@ != self.panes@[i].pane_id@); }
            else { assert(self.panes@[i].pane_id@ != self.panes@[j].pane_id@); }
        }
    }

    fn find(&self, id: &str) -> (r: Option<usize>)
        ensures
            match r {
                Some(i) => i < self.panes@.len() && self.panes@[i as int].pane_id@ == id@,
                None => !self.has_pane(id@),
            },
    {
        let mut i: usize = 0;
        while i < self.panes.len()
            invariant
                i <= self.panes@.len(),
                forall|k: int| 0 <= k < i ==> self.panes@[k].pane_id@ != id@,
            decreases self.panes@.len() - i,
        {
            if str_equal(self.panes[i].pane_id.as_str(), id) {
                return Some(i);
            }
            i = i + 1;
        }
        None
    }

    /// The agent of a worktree, with its first pane, `main`, of `cols` by `rows`.
    pub fn new(worktree_path: &str, cols: u16, rows: u16) -> (r: Self)
        ensures
            r.well_formed(),
            r.worktree_path@ == worktree_path@,
            r.cols == cols,
            r.rows == rows,
            r.pane_counter == 0,
            r.ids() == seq![agent_pane_id_spec(worktree_path@, "main"@)],
            r.size_of(agent_pane_id_spec(worktree_path@, "main"@)) == Some((cols, rows)),
    {
        let mut t = LocalPtyAgent { worktree_path: string_of(worktree_path), panes: Vec::new(), pane_counter: 0, cols, rows };
        t.create_pane("main");
        proof {
            assert(t.ids() =~= seq![agent_pane_id_spec(worktree_path@, "main"@)]);
        }
        t
    }

    /// Makes the pane with this name, of the table's size, and gives its id; a pane that
    /// already has the id is replaced in place.
    pub fn create_pane(&mut self, name: &str) -> (r: String)
        requires
            old(self).well_formed(),
        ensures
            r@ == agent_pane_id_spec(old(self).worktree_path@, name@),
            final(self).well_formed(),
            final(self).worktree_path == old(self).worktree_path,
            final(self).cols == old(self).cols,
            final(self).rows == old(self).rows,
            final(self).pane_counter == old(self).pane_counter,
            final(self).ids() == (if old(self).has_pane(r@) { old(self).ids() } else { old(self).ids().push(r@) }),
            final(self).size_of(r@) == Some((old(self).cols, old(self).rows)),
            forall|id: Seq<char>| id != r@ ==> final(self).size_of(id) == old(self).size_of(id),
    {
        let id = agent_pane_id(self.worktree_path.as_str(), name);
        let ghost old_t = *self;
        let pane = LocalPane { pane_id: id.clone(), cols: self.cols, rows: self.rows };
        match self.find(id.as_str()) {
            Some(i) => {
                self.panes.set(i, pane);
                proof {
                    assert(self.ids() =~= old_t.ids()) by {
                        assert forall|k: int| 0 <= k < self.panes@.len() implies self.ids()[k] == old_t.ids()[k] by {}
                    }
                    self.lemma_size_at(i as int);
                    assert forall|other: Seq<char>| other != id@ implies self.size_of(other) == old_t.size_of(other) by {
                        if old_t.has_pane(other) {
                            let k = choose|k: int| 0 <= k < old_t.panes@.len() && old_t.panes@[k].pane_id@ == other;
                            old_t.lemma_size_at(k);
                            self.lemma_size_at(k);
                        } else {
                            if self.has_pane(other) {
                                let k = choose|k: int| 0 <= k < self.panes@.len() && self.panes@[k].pane_id@ == other;
                                assert(old_t.panes@[k].pane_id@ == other);
                            }
                        }
                    }
                }
            },
            None => {
                self.panes.push(pane);
                proof {
                    let n = old_t.panes@.len() as int;
                    assert(self.ids() =~= old_t.ids().push(id@));
                    self.lemma_size_at(n);
                    assert forall|other: Seq<char>| other != id@ implies self.size_of(other) == old_t.size_of(other) by {
                        if old_t.has_pane(other) {
                            let k = choose|k: int| 0 <= k < old_t.panes@.len() && old_t.panes@[k].pane_id@ == other;
                            old_t.lemma_size_at(k);
                            self.lemma_size_at(k);
                        } else {
                            if self.has_pane(other) {
                                let k = choose|k: int| 0 <= k < self.panes@.len() && self.panes@[k].pane_id@ == other;
                                assert(k != n);
                                assert(old_t.panes@[k].pane_id@ == other);
                            }
                        }
                    }
                }
            },
        }
        id
    }

    /// Splits off a new pane, named after the number of splits so far, which goes up by
    /// one (wrapping to 0 after the largest `u64`).
    pub fn split_pane(&mut self) -> (r: String)
        requires
            old(self).well_formed(),
        ensures
            r@ == agent_pane_id_spec(old(self).worktree_path@, split_pane_name(old(self).pane_counter)),
            final(self).well_formed(),
            final(self).pane_counter == (if old(self).pane_counter == u64::MAX { 0 } else { (old(self).pane_counter + 1) as u64 }),
            final(self).ids() == (if old(self).has_pane(r@) { old(self).ids() } else { old(self).ids().push(r@) }),
            final(self).size_of(r@) == Some((old(self).cols, old(self).rows)),
            forall|id: Seq<char>| id != r@ ==> final(self).size_of(id) == old(self).size_of(id),
    {
        let n = self.pane_counter;
        self.pane_counter = if n == u64::MAX { 0 } else { n + 1 };
        let mut name: Vec<char> = Vec::new();
        extend_str(&mut name, "pane");
        push_decimal(&mut name, n);
        let name = string_from_chars(&name);
        let ghost mid = *self;
        let r = self.create_pane(name.as_str());
        proof {
            assert(mid.ids() =~= old(self).ids());
            assert(forall|id: Seq<char>| #![auto] mid.has_pane(id) == old(self).has_pane(id));
            assert(forall|id: Seq<char>| #![auto] mid.size_of(id) == old(self).size_of(id));
        }
        r
    }

    /// The first pane made, if any.
    pub fn primary_pane_id(&self) -> (r: Option<String>)
        ensures
            self.ids().len() == 0 ==> r is None,
            self.ids().len() > 0 ==> (r matches Some(p) && p@ == self.ids()[0]),
    {
        if self.panes.len() == 0 { None } else { Some(self.panes[0].pane_id.clone()) }
    }

    /// All pane ids, in the order the panes were made.
    pub fn list_all_panes(&self) -> (r: Vec<String>)
        ensures
            r@.len() == self.ids().len(),
            forall|i: int| 0 <= i < r@.len() ==> r@[i]@ == self.ids()[i],
    {
        let mut v: Vec<String> = Vec::new();
        for i in 0..self.panes.len()
            invariant
                v@.len() == i,
                forall|k: int| 0 <= k < i ==> v@[k]@ == self.ids()[k],
        {
            v.push(self.panes[i].pane_id.clone());
        }
        v
    }

    /// Input and focus go only to a pane of the table.
    pub fn check_pane(&self, pane_id: &str) -> (r: Result<(), RuntimeError>)
        ensures
            self.has_pane(pane_id@) ==> r is Ok,
            !self.has_pane(pane_id@) ==> (r matches Err(RuntimeError::PaneNotFound(p)) && p@ == pane_id@),
    {
        match self.find(pane_id) {
            Some(_) => Ok(()),
            None => Err(RuntimeError::PaneNotFound(string_of(pane_id))),
        }
    }

    /// Size of a pane, or the table's size for an unknown one.
    pub fn get_pane_dimensions(&self, pane_id: &str) -> (r: (u16, u16))
        requires
            self.well_formed(),
        ensures
            r == match self.size_of(pane_id@) { Some(s) => s, None => (self.cols, self.rows) },
    {
        match self.find(pane_id) {
            Some(i) => {
                proof { self.lemma_size_at(i as int); }
                (self.panes[i].cols, self.panes[i].rows)
            },
            None => (self.cols, self.rows),
        }
    }

    /// Records the new size of a pane of the table; an unknown pane is not found.
    pub fn resize(&mut self, pane_id: &str, cols: u16, rows: u16) -> (r: Result<(), RuntimeError>)
        requires
            old(self).well_formed(),
        ensures
            final(self).well_formed(),
            final(self).ids() == old(self).ids(),
            final(self).cols == old(self).cols,
            final(self).rows == old(self).rows,
            final(self).pane_counter == old(self).pane_counter,
            old(self).has_pane(pane_id@) ==> r is Ok && final(self).size_of(pane_id@) == Some((cols, rows)),
            !old(self).has_pane(pane_id@) ==> (r matches Err(RuntimeError::PaneNotFound(p)) && p@ == pane_id@),
            forall|id: Seq<char>| id != pane_id@ ==> final(self).size_of(id) == old(self).size_of(id),
    {
        let ghost old_t = *self;
        match self.find(pane_id) {
            Some(i) => {
                let id = self.panes[i].pane_id.clone();
                self.panes.set(i, LocalPane { pane_id: id, cols, rows });
                proof {
                    assert(self.ids() =~= old_t.ids()) by {
                        assert forall|k: int| 0 <= k < self.panes@.len() implies self.ids()[k] == old_t.ids()[k] by {}
                    }
                    self.lemma_size_at(i as int);
                    assert forall|other: Seq<char>| other != pane_id@ implies self.size_of(other) == old_t.size_of(other) by {
                        if old_t.has_pane(other) {
                            let k = choose|k: int| 0 <= k < old_t.panes@.len() && old_t.panes@[k].pane_id@ == other;
                            old_t.lemma_size_at(k);
                            self.lemma_size_at(k);
                        } else if self.has_pane(other) {
                            let k = choose|k: int| 0 <= k < self.panes@.len() && self.panes@[k].pane_id@ == other;
                            assert(old_t.panes@[k].pane_id@ == other);
                        }
                    }
                }
                Ok(())
            },
            None => Err(RuntimeError::PaneNotFound(string_of(pane_id))),
        }
    }

    /// Where and how to show the diff: in the given pane, or else the first one; with no
    /// pane at all, or a pane the table does not have, it fails. Gives the pane (which
    /// is sent [`DIFF_COMMAND`]) and the message `Diff displayed in pane ` and its id.
    pub fn plan_diff(&self, requested: Option<&str>) -> (r: Result<(String, String), RuntimeError>)
        ensures
            ({
                let target: Option<Seq<char>> = match requested {
                    Some(p) => Some(p@),
                    None => if self.ids().len() > 0 { Some(self.ids()[0]) } else { None },
                };
                match target {
                    None => r matches Err(RuntimeError::Backend(m)) && m@ == "No pane available"@,
                    Some(t) => if self.has_pane(t) {
                        r matches Ok((p, msg)) && p@ == t && msg@ == "Diff displayed in pane "@ + t
                    } else {
                        r matches Err(RuntimeError::PaneNotFound(p)) && p@ == t
                    },
                }
            }),
    {
        let target: String = match requested {
            Some(p) => string_of(p),
            None => match self.primary_pane_id() {
                Some(p) => p,
                None => return Err(RuntimeError::Backend(string_of("No pane available"))),
            },
        };
        if self.check_pane(target.as_str()).is_err() {
            return Err(RuntimeError::PaneNotFound(target));
        }
        let mut v: Vec<char> = Vec::new();
        extend_str(&mut v, "Diff displayed in pane ");
        extend_str(&mut v, target.as_str());
        Ok((target, string_from_chars(&v)))
    }
}

/// What the writer of a pane sends at once: every chunk queued so far, in order.
pub open spec fn batched(chunks: Seq<Vec<u8>>) -> Seq<u8>
    decreases chunks.len(),
{
    if chunks.len() == 0 { Seq::empty() } else { batched(chunks.drop_last()) + chunks.last()@ }
}

/// Joins the queued input chunks of a pane into one write.
pub fn batch_chunks(chunks: &Vec<Vec<u8>>) -> (r: Vec<u8>)
    ensures
        r@ == batched(chunks@),
{
    let mut out: Vec<u8> = Vec::new();
    for i in 0..chunks.len()
        invariant
            out@ == batched(chunks@.take(i as int)),
    {
        proof { assert(chunks@.take(i as int + 1).drop_last() =~= chunks@.take(i as int)); }
        let mut j: usize = 0;
        let ghost before = out@;
        while j < chunks[i].len()
            invariant
                0 <= i < chunks@.len(),
                j <= chunks@[i as int]@.len(),
                out@ == before + chunks@[i as int]@.take(j as int),
            decreases chunks@[i as int]@.len() - j,
        {
            out.push(chunks[i][j]);
            j = j + 1;
            proof { assert(out@ =~= before + chunks@[i as int]@.take(j as int)); }
        }
        proof { assert(chunks@[i as int]@.take(j as int) =~= chunks@[i as int]@); }
    }
    proof { assert(chunks@.take(chunks@.len() as int) =~= chunks@); }
    out
}

} // verus!
