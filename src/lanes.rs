//! Fan-out of multi-valued results: the k-th output of every cell goes to lane k,
//! and a lane with no value for a cell holds the missing-value sentinel there, so
//! that every lane stays aligned with the sampled cells.
use crate::value::Sample;
use vstd::prelude::*;

verus! {

/// The largest number of outputs of any cell.
pub open spec fn widest<E>(cells: Seq<Seq<E>>) -> nat
    decreases cells.len(),
{
    if cells.len() == 0 {
        0
    } else {
        let w = widest(cells.drop_last());
        let l = cells.last().len();
        if w >= l {
            w
        } else {
            l
        }
    }
}

/// What lane `k` holds for cell `c`: the cell's `k`-th output, or the padding entry.
pub open spec fn lane_entry<P>(cells: Seq<Seq<(P, Sample)>>, k: int, c: int, pad: P) -> (P, Sample) {
    if k < cells[c].len() {
        cells[c][k]
    } else {
        (pad, Sample::missing_spec())
    }
}

/// Lane `k` over all cells.
pub open spec fn lane<P>(cells: Seq<Seq<(P, Sample)>>, k: int, pad: P) -> Seq<(P, Sample)> {
    Seq::new(cells.len(), |c: int| lane_entry(cells, k, c, pad))
}

/// Every lane of the fan-out of `cells`.
pub open spec fn fanned<P>(cells: Seq<Seq<(P, Sample)>>, pad: P) -> Seq<Seq<(P, Sample)>> {
    Seq::new(widest(cells), |k: int| lane(cells, k, pad))
}

pub open spec fn views<E>(v: Seq<Vec<E>>) -> Seq<Seq<E>> {
    v.map_values(|x: Vec<E>| x@)
}

/// The outputs of the cells sampled so far, to be laid out in lanes.
pub struct Lanes<P> {
    cells: Vec<Vec<(P, Sample)>>,
    width: usize,
    pad: P,
}

impl<P: Copy> Lanes<P> {
    /// The outputs of each cell pushed so far, in order.
    pub closed spec fn cells(&self) -> Seq<Seq<(P, Sample)>> {
        views(self.cells@)
    }

    /// The coordinate that padding entries carry.
    pub closed spec fn pad(&self) -> P {
        self.pad
    }

    pub closed spec fn wf(&self) -> bool {
        self.width == widest(self.cells())
    }

    pub fn new(pad: P) -> (r: Self)
        ensures
            r.wf(),
            r.cells() == Seq::<Seq<(P, Sample)>>::empty(),
            r.pad() == pad,
    {
        let r = Lanes { cells: Vec::new(), width: 0, pad };
        assert(r.cells() =~= Seq::<Seq<(P, Sample)>>::empty());
        r
    }

    /// Records the outputs of the next cell (none where its evaluation failed).
    pub fn push(&mut self, outs: Vec<(P, Sample)>)
        requires
            old(self).wf(),
        ensures
            final(self).wf(),
            final(self).cells() == old(self).cells().push(outs@),
            final(self).pad() == old(self).pad(),
    {
        let l = outs.len();
        self.cells.push(outs);
        proof {
            assert(self.cells() =~= old(self).cells().push(outs@));
            assert(self.cells().drop_last() =~= old(self).cells());
        }
        if l > self.width {
            self.width = l;
        }
    }

    /// The lanes: as many as the widest cell has outputs, each as long as there are cells.
    pub fn finish(self) -> (r: Vec<Vec<(P, Sample)>>)
        requires
            self.wf(),
        ensures
            views(r@) == fanned(self.cells(), self.pad()),
    {
        let ghost cells = self.cells();
        let mut out: Vec<Vec<(P, Sample)>> = Vec::with_capacity(self.width);
        let mut k: usize = 0;
        while k < self.width
            invariant
                cells == self.cells(),
                k <= self.width,
                self.width == widest(cells),
                out@.len() == k,
                forall|j: int| 0 <= j < k ==> (#[trigger] out@[j])@ == lane(cells, j, self.pad),
            decreases self.width - k,
        {
            let mut ln: Vec<(P, Sample)> = Vec::with_capacity(self.cells.len());
            let mut c: usize = 0;
            while c < self.cells.len()
                invariant
                    cells == self.cells(),
                    c <= self.cells.len(),
                    ln@.len() == c,
                    forall|d: int| 0 <= d < c ==> ln@[d] == lane_entry(cells, k as int, d, self.pad),
                decreases self.cells.len() - c,
            {
                let cell = &self.cells[c];
                assert(cells[c as int] == cell@);
                if k < cell.len() {
                    ln.push(cell[k]);
                } else {
                    ln.push((self.pad, Sample::missing()));
                }
                c += 1;
            }
            assert(ln@ =~= lane(cells, k as int, self.pad));
            out.push(ln);
            k += 1;
        }
        assert(views(out@) =~= fanned(cells, self.pad));
        out
    }
}

} // verus!

verus! {

proof fn lemma_widest_bounds<E>(cells: Seq<Seq<E>>)
    ensures
        forall|c: int| 0 <= c < cells.len() ==> (#[trigger] cells[c]).len() <= widest(cells),
        cells.len() > 0 ==> exists|c: int| 0 <= c < cells.len() && (#[trigger] cells[c]).len() == widest(cells),
    decreases cells.len(),
{
    if cells.len() > 0 {
        let d = cells.drop_last();
        lemma_widest_bounds(d);
        assert forall|c: int| 0 <= c < cells.len() implies (#[trigger] cells[c]).len() <= widest(cells) by {
            if c < d.len() {
                assert(cells[c] == d[c]);
            }
        }
        if widest(d) >= cells.last().len() && d.len() > 0 {
            let w = choose|c: int| 0 <= c < d.len() && (#[trigger] d[c]).len() == widest(d);
            assert(cells[w] == d[w]);
        } else {
            assert(cells[cells.len() - 1] == cells.last());
        }
    }
}

/// Fan-out keeps lanes aligned: there are as many lanes as the most outputs of
/// any cell, at least one cell has that many, every lane has one entry per cell,
/// and lane `k` holds a cell's `k`-th output where the cell has more than `k`
/// outputs and the missing-value sentinel (with the padding key) elsewhere.
pub proof fn fan_out_is_aligned<P>(cells: Seq<Seq<(P, Sample)>>, pad: P)
    ensures
        fanned(cells, pad).len() == widest(cells),
        forall|c: int| 0 <= c < cells.len() ==> (#[trigger] cells[c]).len() <= widest(cells),
        cells.len() > 0 ==> exists|c: int| 0 <= c < cells.len() && (#[trigger] cells[c]).len() == widest(cells),
        forall|k: int| 0 <= k < widest(cells) ==> (#[trigger] fanned(cells, pad)[k]).len() == cells.len(),
        forall|k: int, c: int|
            0 <= k < widest(cells) && 0 <= c < cells.len() ==> #[trigger] fanned(cells, pad)[k][c] == if k
                < cells[c].len() {
                cells[c][k]
            } else {
                (pad, Sample::missing_spec())
            },
{
    lemma_widest_bounds(cells);
}

} // verus!
