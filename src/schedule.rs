//! Which ordered core pairs a sweep over an `n x n` grid measures.

use vstd::prelude::*;

verus! {

/// What the sweep does with one cell `(i, j)` of the grid.
#[derive(Clone, Copy, Debug, PartialEq, Eq, Structural)]
pub enum CellKind {
    /// Not measured and not shown (upper triangle and diagonal of a symmetric pattern).
    Omitted,
    /// Not measured, shown as an empty cell (diagonal of an asymmetric pattern).
    Blank,
    /// The pattern is run on `(cores[i], cores[j])`.
    Measured,
}

/// Whether the sweep runs the pattern on the cell `(i, j)`.
pub open spec fn is_measured(symmetric: bool, i: int, j: int) -> bool {
    if symmetric {
        i > j
    } else {
        i != j
    }
}

/// Row-major order of cells.
pub open spec fn pair_before(a: (usize, usize), b: (usize, usize)) -> bool {
    a.0 < b.0 || (a.0 == b.0 && a.1 < b.1)
}

/// Number of measured cells in an `n x n` grid.
pub open spec fn measured_count(n: nat, symmetric: bool) -> nat {
    if symmetric {
        (n * (n - 1) / 2) as nat
    } else {
        (n * (n - 1)) as nat
    }
}

/// `s` lists every measured cell of the `n x n` grid exactly once, in row-major order.
pub open spec fn is_pair_schedule(s: Seq<(usize, usize)>, n: nat, symmetric: bool) -> bool {
    &&& forall|k: int|
        0 <= k < s.len() ==> {
            &&& (#[trigger] s[k]).0 < n
            &&& s[k].1 < n
            &&& is_measured(symmetric, s[k].0 as int, s[k].1 as int)
        }
    &&& forall|a: int, b: int| 0 <= a < b < s.len() ==> pair_before(#[trigger] s[a], #[trigger] s[b])
    &&& forall|i: usize, j: usize|
        i < n && j < n && is_measured(symmetric, i as int, j as int) ==> exists|k: int|
            0 <= k < s.len() && #[trigger] s[k] == (i, j)
}

/// Classifies the cell `(i, j)` for a pattern that is (or is not) symmetric.
pub fn cell_kind(symmetric: bool, i: usize, j: usize) -> (r: CellKind)
    ensures
        (r == CellKind::Measured) == is_measured(symmetric, i as int, j as int),
        (r == CellKind::Blank) == (!symmetric && i == j),
{
    if symmetric {
        if i <= j {
            CellKind::Omitted
        } else {
            CellKind::Measured
        }
    } else if i == j {
        CellKind::Blank
    } else {
        CellKind::Measured
    }
}

/// The cells that a sweep over `n` cores measures, in the order it measures them.
pub fn pair_schedule(n: usize, symmetric: bool) -> (r: Vec<(usize, usize)>)
    ensures
        is_pair_schedule(r@, n as nat, symmetric),
        r@.len() == measured_count(n as nat, symmetric),
{
    let mut r: Vec<(usize, usize)> = Vec::new();
    let mut i: usize = 0;
    while i < n
        invariant
            i <= n,
            forall|k: int|
                0 <= k < r@.len() ==> {
                    &&& (#[trigger] r@[k]).0 < i
                    &&& r@[k].1 < n
                    &&& is_measured(symmetric, r@[k].0 as int, r@[k].1 as int)
                },
            forall|a: int, b: int| 0 <= a < b < r@.len() ==> pair_before(#[trigger] r@[a], #[trigger] r@[b]),
            forall|p: usize, q: usize|
                p < i && q < n && is_measured(symmetric, p as int, q as int) ==> exists|k: int|
                    0 <= k < r@.len() && #[trigger] r@[k] == (p, q),
            r@.len() == (if symmetric { i * (i - 1) / 2 } else { i * (n - 1) }),
        decreases n - i,
    {
        let ghost start = r@.len();
        let mut j: usize = 0;
        while j < n
            invariant
                i < n,
                j <= n,
                start <= r@.len(),
                forall|k: int|
                    0 <= k < r@.len() ==> {
                        &&& (#[trigger] r@[k]).0 <= i
                        &&& r@[k].1 < n
                        &&& is_measured(symmetric, r@[k].0 as int, r@[k].1 as int)
                    },
                forall|k: int| start <= k < r@.len() ==> (#[trigger] r@[k]).0 == i && r@[k].1 < j,
                forall|k: int| 0 <= k < start ==> (#[trigger] r@[k]).0 < i,
                forall|a: int, b: int| 0 <= a < b < r@.len() ==> pair_before(#[trigger] r@[a], #[trigger] r@[b]),
                forall|p: usize, q: usize|
                    (p < i || (p == i && q < j)) && q < n && is_measured(symmetric, p as int, q as int)
                        ==> exists|k: int| 0 <= k < r@.len() && #[trigger] r@[k] == (p, q),
                r@.len() == start + (if symmetric {
                    if j <= i { j as int } else { i as int }
                } else {
                    if j <= i { j as int } else { j - 1 }
                }),
            decreases n - j,
        {
            if cell_kind(symmetric, i, j) == CellKind::Measured {
                let ghost prev = r@;
                r.push((i, j));
                assert(forall|k: int| 0 <= k < prev.len() ==> r@[k] == prev[k]);
                assert(r@[r@.len() - 1] == (i, j));
                assert forall|p: usize, q: usize|
                    (p < i || (p == i && q < j + 1)) && q < n && is_measured(symmetric, p as int, q as int)
                        implies exists|k: int| 0 <= k < r@.len() && #[trigger] r@[k] == (p, q) by {
                    if p == i && q == j {
                        assert(r@[r@.len() - 1] == (p, q));
                    } else {
                        let k = choose|k: int| 0 <= k < prev.len() && #[trigger] prev[k] == (p, q);
                        assert(r@[k] == (p, q));
                    }
                }
            }
            j = j + 1;
        }
        proof {
            let ii = i as int;
            let nn = n as int;
            if symmetric {
                assert((ii + 1) * ii / 2 == ii * (ii - 1) / 2 + ii) by (nonlinear_arith)
                    requires ii >= 0;
            } else {
                assert((ii + 1) * (nn - 1) == ii * (nn - 1) + (nn - 1)) by (nonlinear_arith);
            }
        }
        i = i + 1;
    }
    r
}

/// A symmetric pattern is run on exactly one of the two orders of each pair of
/// distinct cores.
pub proof fn lemma_symmetric_one_direction(s: Seq<(usize, usize)>, n: nat, i: usize, j: usize)
    requires
        is_pair_schedule(s, n, true),
        i < n,
        j < n,
        i != j,
    ensures
        (exists|k: int| 0 <= k < s.len() && #[trigger] s[k] == (i, j)) != (exists|k: int|
            0 <= k < s.len() && #[trigger] s[k] == (j, i)),
{
    if exists|k: int| 0 <= k < s.len() && #[trigger] s[k] == (i, j) {
        let k = choose|k: int| 0 <= k < s.len() && #[trigger] s[k] == (i, j);
        assert(is_measured(true, s[k].0 as int, s[k].1 as int));
        assert forall|m: int| 0 <= m < s.len() implies #[trigger] s[m] != (j, i) by {
            assert(is_measured(true, s[m].0 as int, s[m].1 as int));
        }
    } else {
        assert(!is_measured(true, i as int, j as int));
        assert(is_measured(true, j as int, i as int));
    }
}

/// An asymmetric pattern is run on both orders of each pair of distinct cores,
/// so the results for `(i, j)` and `(j, i)` are measured independently.
pub proof fn lemma_asymmetric_both_directions(s: Seq<(usize, usize)>, n: nat, i: usize, j: usize)
    requires
        is_pair_schedule(s, n, false),
        i < n,
        j < n,
        i != j,
    ensures
        exists|k: int| 0 <= k < s.len() && #[trigger] s[k] == (i, j),
        exists|k: int| 0 <= k < s.len() && #[trigger] s[k] == (j, i),
{
    assert(is_measured(false, i as int, j as int));
    assert(is_measured(false, j as int, i as int));
}

} // verus!
