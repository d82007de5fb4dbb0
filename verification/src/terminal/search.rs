//! Finding a text in the visible lines of a terminal.
use vstd::prelude::*;
use vstd::utf8::encode_utf8;

verus! {

/// A match of the searched text: screen line (0 at the top), byte column and length.
#[derive(Debug, Clone, Copy)]
pub struct SearchMatch {
    pub line: i32,
    pub col: usize,
    pub len: usize,
}

/// Whether `q` occurs in `t` at byte `i`.
pub open spec fn occurs_at(t: Seq<u8>, q: Seq<u8>, i: int) -> bool {
    0 <= i && i + q.len() <= t.len() && t.subrange(i, i + q.len()) == q
}

/// The first place at or after `i` where `q` occurs in `t`.
pub open spec fn first_from(t: Seq<u8>, q: Seq<u8>, i: int) -> Option<int>
    decreases t.len() - i,
{
    if i < 0 || i >= t.len() || i + q.len() > t.len() {
        None
    } else if occurs_at(t, q, i) {
        Some(i)
    } else {
        first_from(t, q, i + 1)
    }
}

/// The places of the occurrences of a non-empty `q` in `t` from `i` on, each search
/// starting after the previous occurrence (so they do not overlap).
pub open spec fn occurrences_from(t: Seq<u8>, q: Seq<u8>, i: int) -> Seq<int>
    decreases t.len() - i,
{
    if q.len() == 0 || i < 0 {
        Seq::empty()
    } else {
        match first_from(t, q, i) {
            None => Seq::empty(),
            Some(p) => if p >= i && p + q.len() <= t.len() {
                seq![p] + occurrences_from(t, q, p + q.len())
            } else {
                Seq::empty()
            },
        }
    }
}

/// The matches of `q` in the line at row `row` whose bytes are `t`.
pub open spec fn row_matches(row: int, t: Seq<u8>, q: Seq<u8>) -> Seq<SearchMatch> {
    occurrences_from(t, q, 0).map_values(|p: int| SearchMatch { line: row as i32, col: p as usize, len: q.len() as usize })
}

/// The matches of `q` in the first `n` lines, top to bottom and left to right.
pub open spec fn rows_matches(lines: Seq<String>, q: Seq<u8>, n: int) -> Seq<SearchMatch>
    decreases n,
{
    if n <= 0 {
        Seq::empty()
    } else {
        rows_matches(lines, q, n - 1) + row_matches(n - 1, encode_utf8(lines[n - 1]@), q)
    }
}

/// Every match of `query` in `lines`; nothing for an empty query.
pub open spec fn search_spec(lines: Seq<String>, query: Seq<char>) -> Seq<SearchMatch> {
    if query.len() == 0 { Seq::empty() } else { rows_matches(lines, encode_utf8(query), lines.len() as int) }
}

proof fn lemma_first_from_bounds(t: Seq<u8>, q: Seq<u8>, i: int)
    requires
        0 <= i,
    ensures
        first_from(t, q, i) matches Some(p) ==> i <= p && occurs_at(t, q, p),
    decreases t.len() - i,
{
    if i < t.len() && i + q.len() <= t.len() && !occurs_at(t, q, i) {
        lemma_first_from_bounds(t, q, i + 1);
    }
}

/// Whether `q` occurs in `t` at `i`.
fn occurs_at_exec(t: &[u8], q: &[u8], i: usize) -> (r: bool)
    requires
        i + q@.len() <= t@.len(),
    ensures
        r == occurs_at(t@, q@, i as int),
{
    let n = t.len();
    let mut k: usize = 0;
    while k < q.len()
        invariant
            k <= q@.len(),
            n == t@.len(),
            i + q@.len() <= n,
            t@.subrange(i as int, i + k) == q@.subrange(0, k as int),
        decreases q@.len() - k,
    {
        if t[i + k] != q[k] {
            assert(t@.subrange(i as int, i + q@.len())[k as int] != q@[k as int]);
            return false;
        }
        assert(t@.subrange(i as int, i + k + 1) =~= t@.subrange(i as int, i + k).push(t@[i + k]));
        assert(q@.subrange(0, k + 1) =~= q@.subrange(0, k as int).push(q@[k as int]));
        k = k + 1;
    }
    assert(q@.subrange(0, q@.len() as int) =~= q@);
    true
}

/// The first place at or after `start` where `q` occurs in `t`.
fn find_from(t: &[u8], q: &[u8], start: usize) -> (r: Option<usize>)
    requires
        q@.len() > 0,
    ensures
        match first_from(t@, q@, start as int) {
            Some(p) => r == Some(p as usize),
            None => r is None,
        },
        r matches Some(p) ==> first_from(t@, q@, start as int) == Some(p as int),
{
    let n = t.len();
    let mut i = start;
    if i >= n || q.len() > n - i {
        return None;
    }
    while i < n && q.len() <= n - i
        invariant
            start <= i,
            n == t@.len(),
            q@.len() > 0,
            first_from(t@, q@, start as int) == first_from(t@, q@, i as int),
        decreases n - i,
    {
        if occurs_at_exec(t, q, i) {
            return Some(i);
        }
        i = i + 1;
    }
    None
}

/// Every match of `query` in the visible `lines` (row 0 at the top): in each line the
/// search starts again after each match, so matches do not overlap; an empty query
/// finds nothing.
pub fn search_lines(lines: &Vec<String>, query: &str) -> (r: Vec<SearchMatch>)
    requires
        lines@.len() <= i32::MAX,
    ensures
        r@ == search_spec(lines@, query@),
{
    let mut out: Vec<SearchMatch> = Vec::new();
    let q = query.as_bytes();
    if q.len() == 0 {
        proof {
            if query@.len() > 0 { assert(encode_utf8(query@).len() > 0); }
        }
        return out;
    }
    proof {
        if query@.len() == 0 { assert(encode_utf8(query@) =~= Seq::<u8>::empty()); }
    }
    let mut row: usize = 0;
    while row < lines.len()
        invariant
            row <= lines@.len(),
            lines@.len() <= i32::MAX,
            q@ == encode_utf8(query@),
            q@.len() > 0,
            query@.len() > 0,
            out@ == rows_matches(lines@, q@, row as int),
        decreases lines@.len() - row,
    {
        let t = lines[row].as_str().as_bytes();
        let ghost before = out@;
        let ghost r = row as int;
        let n = t.len();
        let mut start: usize = 0;
        let ghost all = occurrences_from(t@, q@, 0);
        let ghost mk = |p: int| SearchMatch { line: r as i32, col: p as usize, len: q@.len() as usize };
        loop
            invariant
                start <= t@.len(),
                n == t@.len(),
                q@.len() > 0,
                r == row as int,
                mk == (|p: int| SearchMatch { line: r as i32, col: p as usize, len: q@.len() as usize }),
                out@ + occurrences_from(t@, q@, start as int).map_values(mk) == before + all.map_values(mk),
                all == occurrences_from(t@, q@, 0),
            ensures
                out@ == before + all.map_values(mk),
            decreases t@.len() - start,
        {
            proof { lemma_first_from_bounds(t@, q@, start as int); }
            let found = find_from(t, q, start);
            match found {
                None => {
                    assert(occurrences_from(t@, q@, start as int) =~= Seq::empty());
                    assert(out@ + Seq::<SearchMatch>::empty() =~= out@);
                    break;
                },
                Some(p) => {
                    assert(first_from(t@, q@, start as int) == Some(p as int));
                    assert(start <= p && p + q@.len() <= t@.len());
                    let ghost rest = occurrences_from(t@, q@, p + q@.len());
                    assert(occurrences_from(t@, q@, start as int) == seq![p as int] + rest);
                    assert((seq![p as int] + rest).map_values(mk) =~= seq![mk(p as int)] + rest.map_values(mk));
                    out.push(SearchMatch { line: row as i32, col: p, len: q.len() });
                    assert(out@ + rest.map_values(mk) =~= before + all.map_values(mk));
                    start = p + q.len();
                },
            }
        }
        proof {
            assert(t@ == encode_utf8(lines@[r]@));
            assert(row_matches(r, t@, q@) =~= all.map_values(mk));
            assert(rows_matches(lines@, q@, r + 1) == rows_matches(lines@, q@, r) + row_matches(r, encode_utf8(lines@[r]@), q@));
        }
        row = row + 1;
    }
    out
}

proof fn lemma_first_from_least(t: Seq<u8>, q: Seq<u8>, i: int)
    requires
        0 <= i,
        q.len() > 0,
    ensures
        match first_from(t, q, i) {
            Some(p) => forall|j: int| i <= j < p ==> !occurs_at(t, q, j),
            None => forall|j: int| i <= j ==> !occurs_at(t, q, j),
        },
    decreases t.len() - i,
{
    if i < t.len() && i + q.len() <= t.len() && !occurs_at(t, q, i) {
        lemma_first_from_least(t, q, i + 1);
    }
}

proof fn lemma_occurrences_unfold(t: Seq<u8>, q: Seq<u8>, i: int)
    requires
        0 <= i,
        q.len() > 0,
        first_from(t, q, i) is Some,
    ensures
        i <= first_from(t, q, i)->0,
        occurs_at(t, q, first_from(t, q, i)->0),
        occurrences_from(t, q, i) == seq![first_from(t, q, i)->0] + occurrences_from(t, q, first_from(t, q, i)->0 + q.len()),
{
    lemma_first_from_bounds(t, q, i);
}

proof fn lemma_occurrences_valid(t: Seq<u8>, q: Seq<u8>, i: int)
    requires
        0 <= i,
        q.len() > 0,
    ensures
        forall|k: int| 0 <= k < occurrences_from(t, q, i).len() ==>
            i <= #[trigger] occurrences_from(t, q, i)[k] && occurs_at(t, q, occurrences_from(t, q, i)[k]),
    decreases t.len() - i,
{
    if first_from(t, q, i) is Some {
        lemma_occurrences_unfold(t, q, i);
        let p0 = first_from(t, q, i)->0;
        lemma_occurrences_valid(t, q, p0 + q.len());
        let rest = occurrences_from(t, q, p0 + q.len());
        let occ = occurrences_from(t, q, i);
        assert forall|k: int| 0 <= k < occ.len() implies i <= #[trigger] occ[k] && occurs_at(t, q, occ[k]) by {
            if k > 0 { assert(occ[k] == rest[k - 1]); }
        }
    }
}

proof fn lemma_occurrences_ordered(t: Seq<u8>, q: Seq<u8>, i: int)
    requires
        0 <= i,
        q.len() > 0,
    ensures
        forall|k: int| 0 <= k < occurrences_from(t, q, i).len() - 1 ==>
            #[trigger] occurrences_from(t, q, i)[k] + q.len() <= occurrences_from(t, q, i)[k + 1],
    decreases t.len() - i,
{
    if first_from(t, q, i) is Some {
        lemma_occurrences_unfold(t, q, i);
        let p0 = first_from(t, q, i)->0;
        let n = p0 + q.len();
        lemma_occurrences_ordered(t, q, n);
        lemma_occurrences_valid(t, q, n);
        let rest = occurrences_from(t, q, n);
        let occ = occurrences_from(t, q, i);
        assert forall|k: int| 0 <= k < occ.len() - 1 implies #[trigger] occ[k] + q.len() <= occ[k + 1] by {
            if k > 0 {
                assert(occ[k] == rest[k - 1]);
                assert(occ[k + 1] == rest[k]);
            } else {
                assert(occ[1] == rest[0]);
            }
        }
    }
}

proof fn lemma_occurrences_complete(t: Seq<u8>, q: Seq<u8>, i: int)
    requires
        0 <= i,
        q.len() > 0,
    ensures
        forall|p: int| i <= p && #[trigger] occurs_at(t, q, p) ==> exists|k: int|
            0 <= k < occurrences_from(t, q, i).len() && #[trigger] occurrences_from(t, q, i)[k] <= p < occurrences_from(t, q, i)[k] + q.len(),
    decreases t.len() - i,
{
    lemma_first_from_least(t, q, i);
    if first_from(t, q, i) is Some {
        lemma_occurrences_unfold(t, q, i);
        let p0 = first_from(t, q, i)->0;
        let n = p0 + q.len();
        lemma_occurrences_complete(t, q, n);
        let rest = occurrences_from(t, q, n);
        let occ = occurrences_from(t, q, i);
        assert forall|p: int| i <= p && #[trigger] occurs_at(t, q, p) implies exists|k: int|
            0 <= k < occ.len() && #[trigger] occ[k] <= p < occ[k] + q.len() by {
            if p < n {
                assert(occ[0] <= p < occ[0] + q.len());
            } else {
                let k = choose|k: int| 0 <= k < rest.len() && #[trigger] rest[k] <= p < rest[k] + q.len();
                assert(occ[k + 1] == rest[k]);
            }
        }
    }
}

/// The places reported in a line are real occurrences of the query, in increasing
/// order and without overlap, and every occurrence of the query is reported or overlaps
/// a reported one.
pub proof fn law_occurrences_sound_and_complete(t: Seq<u8>, q: Seq<u8>)
    requires
        q.len() > 0,
    ensures
        forall|k: int| 0 <= k < occurrences_from(t, q, 0).len() ==> occurs_at(t, q, #[trigger] occurrences_from(t, q, 0)[k]),
        forall|k: int| 0 <= k < occurrences_from(t, q, 0).len() - 1 ==>
            #[trigger] occurrences_from(t, q, 0)[k] + q.len() <= occurrences_from(t, q, 0)[k + 1],
        forall|p: int| #[trigger] occurs_at(t, q, p) ==> exists|k: int|
            0 <= k < occurrences_from(t, q, 0).len() && #[trigger] occurrences_from(t, q, 0)[k] <= p < occurrences_from(t, q, 0)[k] + q.len(),
{
    lemma_occurrences_valid(t, q, 0);
    lemma_occurrences_ordered(t, q, 0);
    lemma_occurrences_complete(t, q, 0);
}

} // verus!
