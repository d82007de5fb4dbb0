//! Which shell markers lie in the visible part of the terminal.
use vstd::prelude::*;
use crate::shell_integration::ShellMarker;

verus! {

/// The grid lines of the viewport rows, top to bottom, from the grid line of each cell
/// in display order: a row is a run of cells on one line.
pub open spec fn collapse_runs(cells: Seq<i32>) -> Seq<i32>
    decreases cells.len(),
{
    if cells.len() == 0 {
        Seq::empty()
    } else {
        let r = collapse_runs(cells.drop_last());
        if r.len() > 0 && r.last() == cells.last() { r } else { r.push(cells.last()) }
    }
}

proof fn lemma_collapse_last(cells: Seq<i32>)
    requires
        cells.len() > 0,
    ensures
        collapse_runs(cells).len() > 0,
        collapse_runs(cells).last() == cells.last(),
    decreases cells.len(),
{
}

/// The grid line of each viewport row, from the grid line of each cell in display order.
pub fn viewport_lines(cell_lines: &Vec<i32>) -> (r: Vec<i32>)
    ensures
        r@ == collapse_runs(cell_lines@),
{
    let mut out: Vec<i32> = Vec::new();
    let mut i: usize = 0;
    while i < cell_lines.len()
        invariant
            i <= cell_lines@.len(),
            out@ == collapse_runs(cell_lines@.take(i as int)),
        decreases cell_lines@.len() - i,
    {
        proof {
            assert(cell_lines@.take(i + 1).drop_last() =~= cell_lines@.take(i as int));
            if i > 0 { lemma_collapse_last(cell_lines@.take(i as int)); }
        }
        let l = cell_lines[i];
        if out.len() == 0 || out[out.len() - 1] != l {
            out.push(l);
        }
        i = i + 1;
    }
    proof { assert(cell_lines@.take(cell_lines@.len() as int) =~= cell_lines@); }
    out
}

/// Whether grid line `g` is the line of a viewport row in `start..end`.
pub open spec fn line_in_view(rows: Seq<i32>, start: int, end: int, g: i32) -> bool {
    exists|v: int| start <= v < end && 0 <= v < rows.len() && rows[v] == g
}

/// The markers on lines shown in viewport rows `start..end`, in their order.
pub open spec fn markers_in_view(markers: Seq<ShellMarker>, rows: Seq<i32>, start: int, end: int) -> Seq<ShellMarker> {
    markers.filter(|m: ShellMarker| line_in_view(rows, start, end, m.line as i32))
}

fn in_view(rows: &Vec<i32>, start: usize, end: usize, g: i32) -> (r: bool)
    ensures
        r == line_in_view(rows@, start as int, end as int, g),
{
    let mut v = start;
    while v < end && v < rows.len()
        invariant
            start <= v,
            forall|j: int| start <= j < v && j < rows@.len() ==> rows@[j] != g,
        decreases end - v,
    {
        if rows[v] == g {
            return true;
        }
        v = v + 1;
    }
    proof {
        assert forall|j: int| start <= j < end && 0 <= j < rows@.len() implies rows@[j] != g by {
            if j >= v {
                assert(v >= end || v >= rows@.len());
            }
        }
    }
    false
}

/// The shell markers whose line is shown in viewport rows `start..end`, where `rows`
/// holds the grid line of each viewport row (see [`viewport_lines`]).
pub fn visible_markers(markers: &Vec<ShellMarker>, rows: &Vec<i32>, start: usize, end: usize) -> (r: Vec<ShellMarker>)
    ensures
        r@ == markers_in_view(markers@, rows@, start as int, end as int),
{
    let mut out: Vec<ShellMarker> = Vec::new();
    let mut i: usize = 0;
    while i < markers.len()
        invariant
            i <= markers@.len(),
            out@ == markers_in_view(markers@.take(i as int), rows@, start as int, end as int),
        decreases markers@.len() - i,
    {
        let m = markers[i];
        proof {
            assert(markers@.take(i + 1) =~= markers@.take(i as int).push(m));
            markers@.take(i as int).lemma_filter_push(m, |m: ShellMarker| line_in_view(rows@, start as int, end as int, m.line as i32));
        }
        if in_view(rows, start, end, m.line as i32) {
            out.push(m);
        }
        i = i + 1;
    }
    proof { assert(markers@.take(markers@.len() as int) =~= markers@); }
    out
}

} // verus!
