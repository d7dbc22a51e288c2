//! The part of the sky that a survey covers, as a set of cells.
use crate::cell::{lemma_ancestor_zero, HEALPixCell};
use vstd::prelude::*;

verus! {

/// Whether two cells share a part of the sky: one lies at or above the
/// other.
pub open spec fn cells_overlap(a: HEALPixCell, b: HEALPixCell) -> bool {
    a.is_ancestor_of(b) || b.is_ancestor_of(a)
}

/// Whether one of `cells` shares a part of the sky with `cell`.
pub open spec fn spec_intersects_cell(cells: Seq<HEALPixCell>, cell: HEALPixCell) -> bool {
    exists|k: int| 0 <= k < cells.len() && cells_overlap(#[trigger] cells[k], cell)
}

/// Tells whether two cells share a part of the sky.
pub fn overlap(a: &HEALPixCell, b: &HEALPixCell) -> (r: bool)
    requires
        a.wf(),
        b.wf(),
    ensures
        r == cells_overlap(*a, *b),
{
    proof {
        lemma_ancestor_zero(*a);
        lemma_ancestor_zero(*b);
    }
    if a.depth() <= b.depth() {
        let up: HEALPixCell = b.ancestor(b.depth() - a.depth());
        up == *a
    } else {
        let up: HEALPixCell = a.ancestor(a.depth() - b.depth());
        up == *b
    }
}

/// A union of cells of the pixelization.
#[derive(Debug)]
pub struct HEALPixCoverage {
    cells: Vec<HEALPixCell>,
}

impl View for HEALPixCoverage {
    type V = Seq<HEALPixCell>;

    closed spec fn view(&self) -> Seq<HEALPixCell> {
        self.cells@
    }
}

impl HEALPixCoverage {
    /// Every cell of the coverage is a cell of the pixelization.
    pub open spec fn wf(&self) -> bool {
        forall|k: int| 0 <= k < self@.len() ==> (#[trigger] self@[k]).wf()
    }

    /// The coverage made of `cells`, or nothing when one of them is no
    /// cell of the pixelization.
    pub fn from_cells(cells: Vec<HEALPixCell>) -> (r: Option<HEALPixCoverage>)
        ensures
            match r {
                Some(coverage) => coverage@ == cells@ && coverage.wf(),
                None => exists|k: int| 0 <= k < cells@.len() && !(#[trigger] cells@[k]).wf(),
            },
    {
        let n: usize = cells.len();
        let mut i: usize = 0;
        while i < n
            invariant
                n == cells@.len(),
                i <= n,
                forall|k: int| 0 <= k < i ==> (#[trigger] cells@[k]).wf(),
            decreases n - i,
        {
            if !cells[i].is_valid() {
                return None;
            }
            i = i + 1;
        }
        Some(HEALPixCoverage { cells })
    }

    /// Number of cells that the coverage is made of.
    pub fn len(&self) -> (n: usize)
        ensures
            n == self@.len(),
    {
        self.cells.len()
    }

    /// Whether the coverage shares a part of the sky with `cell`.
    pub fn intersects_cell(&self, cell: &HEALPixCell) -> (r: bool)
        requires
            self.wf(),
            cell.wf(),
        ensures
            r == spec_intersects_cell(self@, *cell),
    {
        let n: usize = self.cells.len();
        let mut i: usize = 0;
        while i < n
            invariant
                self.wf(),
                cell.wf(),
                n == self@.len(),
                i <= n,
                forall|k: int| 0 <= k < i ==> !cells_overlap(#[trigger] self@[k], *cell),
            decreases n - i,
        {
            if overlap(&self.cells[i], cell) {
                return true;
            }
            i = i + 1;
        }
        false
    }
}

} // verus!
