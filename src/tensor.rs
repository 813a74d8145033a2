//! The latency tensor: for each cell `(i, j)` of an `n x n` core grid, the
//! samples measured on that pair, or nothing where the cell is not applicable.

use vstd::prelude::*;
use crate::schedule::is_measured;

verus! {

/// Samples of a sweep over `n` cores, stored row-major, one cell per ordered pair.
/// A cell holds `num_samples` values once measured, and `None` otherwise.
pub struct LatencyTensor<T> {
    n: usize,
    num_samples: usize,
    symmetric: bool,
    cells: Vec<Option<Vec<T>>>,
}

/// The contents of one cell, as a mathematical sequence.
pub open spec fn cell_view<T>(c: Option<Vec<T>>) -> Option<Seq<T>> {
    match c {
        Some(v) => Some(v@),
        None => None,
    }
}

/// All the samples of a row-major sequence of cells, in order, skipping empty cells.
pub open spec fn flatten_cells<T>(cells: Seq<Option<Seq<T>>>) -> Seq<T>
    decreases cells.len(),
{
    if cells.len() == 0 {
        Seq::empty()
    } else {
        flatten_cells(cells.drop_last()) + match cells.last() {
            Some(v) => v,
            None => Seq::empty(),
        }
    }
}

proof fn lemma_cell_index(n: int, i: int, j: int)
    requires
        0 <= i < n,
        0 <= j < n,
    ensures
        0 <= i * n + j < n * n,
{
    assert(i * n + j < n * n) by (nonlinear_arith)
        requires 0 <= i < n, 0 <= j < n;
    assert(0 <= i * n) by (nonlinear_arith)
        requires 0 <= i, 0 <= n;
}

impl<T> LatencyTensor<T> {
    pub closed spec fn size(&self) -> nat {
        self.n as nat
    }

    pub closed spec fn samples_per_cell(&self) -> nat {
        self.num_samples as nat
    }

    /// Whether the pattern that fills this tensor is symmetric.
    pub closed spec fn is_symmetric(&self) -> bool {
        self.symmetric
    }

    /// The cells in row-major order.
    pub closed spec fn cells(&self) -> Seq<Option<Seq<T>>> {
        self.cells@.map_values(|c: Option<Vec<T>>| cell_view(c))
    }

    /// The cell `(i, j)`.
    pub open spec fn cell(&self, i: int, j: int) -> Option<Seq<T>> {
        self.cells()[i * self.size() + j]
    }

    /// Every cell is in the grid, and a filled cell is one that the sweep measures
    /// and holds exactly `samples_per_cell()` samples.
    pub closed spec fn wf(&self) -> bool {
        &&& self.n * self.n <= usize::MAX
        &&& self.cells@.len() == self.n * self.n
        &&& forall|i: int, j: int|
            0 <= i < self.n && 0 <= j < self.n && (#[trigger] self.cells@[i * self.n + j]) is Some ==> {
                &&& is_measured(self.symmetric, i, j)
                &&& self.cells@[i * self.n + j]->Some_0@.len() == self.num_samples
            }
    }

    /// An empty tensor for `n` cores and `num_samples` samples per pair.
    pub fn new(n: usize, num_samples: usize, symmetric: bool) -> (r: Self)
        requires
            n * n <= usize::MAX,
        ensures
            r.wf(),
            r.size() == n,
            r.samples_per_cell() == num_samples,
            r.is_symmetric() == symmetric,
            r.cells().len() == n * n,
            forall|k: int| 0 <= k < n * n ==> #[trigger] r.cells()[k] is None,
    {
        let total: usize = n * n;
        let mut cells: Vec<Option<Vec<T>>> = Vec::new();
        let mut k: usize = 0;
        while k < total
            invariant
                k <= total,
                total == n * n,
                cells@.len() == k,
                forall|m: int| 0 <= m < k ==> #[trigger] cells@[m] is None,
            decreases total - k,
        {
            cells.push(None);
            k = k + 1;
        }
        let r = LatencyTensor { n, num_samples, symmetric, cells };
        assert forall|i: int, j: int|
            0 <= i < n && 0 <= j < n implies (#[trigger] r.cells@[i * n + j]) is None by {
            lemma_cell_index(n as int, i, j);
        }
        r
    }

    /// Number of cores.
    pub fn n(&self) -> (r: usize)
        ensures
            r == self.size(),
    {
        self.n
    }

    /// Number of samples stored per measured pair.
    pub fn num_samples(&self) -> (r: usize)
        ensures
            r == self.samples_per_cell(),
    {
        self.num_samples
    }

    /// Stores the output of one run on the pair `(i, j)`. The run was asked for one
    /// sample more than the tensor keeps: its first sample is the warm-up one and
    /// is dropped.
    pub fn record(&mut self, i: usize, j: usize, run_output: Vec<T>)
        requires
            old(self).wf(),
            i < old(self).size(),
            j < old(self).size(),
            is_measured(old(self).is_symmetric(), i as int, j as int),
            run_output@.len() == old(self).samples_per_cell() + 1,
        ensures
            final(self).wf(),
            final(self).size() == old(self).size(),
            final(self).samples_per_cell() == old(self).samples_per_cell(),
            final(self).is_symmetric() == old(self).is_symmetric(),
            final(self).cells() == old(self).cells().update(
                i * old(self).size() + j,
                Some(run_output@.subrange(1, run_output@.len() as int)),
            ),
    {
        proof {
            lemma_cell_index(self.n as int, i as int, j as int);
        }
        let mut kept = run_output;
        let _warm_up = kept.remove(0);
        assert(kept@ =~= run_output@.subrange(1, run_output@.len() as int));
        let k: usize = i * self.n + j;
        let ghost before = self.cells@;
        self.cells.set(k, Some(kept));
        assert(self.cells() =~= before.map_values(|c: Option<Vec<T>>| cell_view(c)).update(
            k as int,
            Some(run_output@.subrange(1, run_output@.len() as int)),
        ));
        assert forall|p: int, q: int|
            0 <= p < self.n && 0 <= q < self.n && (#[trigger] self.cells@[p * self.n + q]) is Some implies {
            &&& is_measured(self.symmetric, p, q)
            &&& self.cells@[p * self.n + q]->Some_0@.len() == self.num_samples
        } by {
            lemma_cell_index(self.n as int, p, q);
            if p * self.n + q == k {
                assert(p == i && q == j) by (nonlinear_arith)
                    requires
                        p * self.n + q == i * self.n + j,
                        0 <= p < self.n, 0 <= q < self.n, 0 <= i < self.n, 0 <= j < self.n;
            } else {
                assert(before[p * self.n + q] == self.cells@[p * self.n + q]);
            }
        }
    }

    /// The samples stored for the pair `(i, j)`, if it was measured.
    pub fn samples(&self, i: usize, j: usize) -> (r: Option<&Vec<T>>)
        requires
            self.wf(),
            i < self.size(),
            j < self.size(),
        ensures
            match r {
                Some(v) => self.cell(i as int, j as int) == Some(v@),
                None => self.cell(i as int, j as int) is None,
            },
    {
        proof {
            lemma_cell_index(self.n as int, i as int, j as int);
        }
        match &self.cells[i * self.n + j] {
            Some(v) => Some(v),
            None => None,
        }
    }
}

/// In a well-formed tensor a cell that the sweep does not measure is not applicable:
/// the diagonal always, and for a symmetric pattern the upper triangle too.
/// A measured cell holds exactly `samples_per_cell()` samples.
pub proof fn lemma_cell_shape<T>(t: &LatencyTensor<T>, i: int, j: int)
    requires
        t.wf(),
        0 <= i < t.size(),
        0 <= j < t.size(),
    ensures
        !is_measured(t.is_symmetric(), i, j) ==> t.cell(i, j) is None,
        t.cell(i, j) matches Some(s) ==> s.len() == t.samples_per_cell(),
{
    lemma_cell_index(t.n as int, i, j);
    assert(t.cell(i, j) == cell_view(t.cells@[i * t.n + j]));
}

impl<T: Copy> LatencyTensor<T> {
    /// Every stored sample, row by row, skipping cells that are not applicable.
    pub fn populated_samples(&self) -> (r: Vec<T>)
        ensures
            r@ == flatten_cells(self.cells()),
    {
        let mut r: Vec<T> = Vec::new();
        let mut k: usize = 0;
        while k < self.cells.len()
            invariant
                k <= self.cells@.len(),
                r@ == flatten_cells(self.cells().take(k as int)),
            decreases self.cells@.len() - k,
        {
            assert(self.cells().take(k as int + 1).drop_last() =~= self.cells().take(k as int));
            match &self.cells[k] {
                Some(v) => {
                    let ghost base = r@;
                    let mut m: usize = 0;
                    while m < v.len()
                        invariant
                            m <= v@.len(),
                            r@ == base + v@.take(m as int),
                        decreases v@.len() - m,
                    {
                        r.push(v[m]);
                        assert(v@.take(m as int + 1) =~= v@.take(m as int).push(v@[m as int]));
                        m = m + 1;
                    }
                    assert(v@.take(m as int) =~= v@);
                },
                None => {
                    assert(flatten_cells(self.cells().take(k as int + 1)) =~= r@);
                },
            }
            k = k + 1;
        }
        assert(self.cells().take(k as int) =~= self.cells());
        r
    }
}

} // verus!
