//! The set of classified plots and the requests that re-sample them.
use crate::draw::Output;
use crate::kind::{Outcome, Plot, Roles};
use crate::source::{init, initialized, Compiled};
use crate::text::{name_views, offset, source_of, source_text};
use crate::sampler::{
    coord_total, eval_total, grid_result, isqrt, line_result,
    slice_result, specialize_total, Axis, Span, Tick,
};
use vstd::prelude::*;

verus! {

/// The most steps a sweep takes along one axis; larger requests are clamped.
pub const MAX_STEPS: usize = 32768;

/// The outputs of the slots that gave one, in slot order.
pub open spec fn kept(rs: Seq<Option<(Output, bool)>>) -> Seq<Output>
    decreases rs.len(),
{
    if rs.len() == 0 {
        Seq::empty()
    } else {
        let k = kept(rs.drop_last());
        match rs.last() {
            Some((o, _)) => k.push(o),
            None => k,
        }
    }
}

/// Some slot gave an output flagged complex.
pub open spec fn any_flag(rs: Seq<Option<(Output, bool)>>) -> bool {
    exists|k: int| 0 <= k < rs.len() && (#[trigger] rs[k]) is Some && rs[k]->Some_0.1
}

pub open spec fn is_root(r: usize, n: usize) -> bool {
    r * r <= n < (r + 1) * (r + 1)
}

/// A sampling request, with its step counts already resolved.
#[derive(Clone, Copy, Debug, PartialEq, Eq, Structural)]
pub enum Request {
    /// Sweep the horizontal interval in `count` steps.
    Plane { count: usize },
    /// Sweep the requested grid in `nx` by `ny` steps.
    Space { nx: usize, ny: usize },
    /// Sweep a slice of the requested grid in `count` steps, held `slice` steps
    /// from the middle of `x` (of `y` when `view_x`).
    Slice { count: usize, slice: isize, view_x: bool },
}

/// The entries of `hidden` below `n`, in their order.
pub open spec fn in_range(hidden: Seq<usize>, n: int) -> Seq<usize>
    decreases hidden.len(),
{
    if hidden.len() == 0 {
        Seq::empty()
    } else {
        let r = in_range(hidden.drop_last(), n);
        if (hidden.last() as int) < n {
            r.push(hidden.last())
        } else {
            r
        }
    }
}

proof fn lemma_in_range_below(hidden: Seq<usize>, n: int)
    ensures
        forall|k: int| 0 <= k < in_range(hidden, n).len() ==> (#[trigger] in_range(hidden, n)[k] as int) < n,
    decreases hidden.len(),
{
    if hidden.len() > 0 {
        let p = in_range(hidden.drop_last(), n);
        lemma_in_range_below(hidden.drop_last(), n);
        assert forall|k: int| 0 <= k < in_range(hidden, n).len() implies (#[trigger] in_range(
            hidden,
            n,
        )[k] as int) < n by {
            if k < p.len() {
                assert(in_range(hidden, n)[k] == p[k]);
            }
        }
    }
}

/// The hidden slots that exist among `n` slots.
fn keep_in_range(list: &Vec<usize>, n: usize) -> (r: Vec<usize>)
    ensures
        r@ == in_range(list@, n as int),
        forall|k: int| 0 <= k < r@.len() ==> r@[k] < n,
{
    let mut r: Vec<usize> = Vec::new();
    let mut k: usize = 0;
    while k < list.len()
        invariant
            k <= list.len(),
            r@ == in_range(list@.take(k as int), n as int),
        decreases list.len() - k,
    {
        proof {
            assert(list@.take(k + 1).drop_last() =~= list@.take(k as int));
        }
        if list[k] < n {
            r.push(list[k]);
        }
        k += 1;
    }
    proof {
        assert(list@.take(list.len() as int) =~= list@);
        lemma_in_range_below(list@, n as int);
    }
    r
}

/// The registry: one slot per source segment, `None` where classification
/// failed, and the slots the renderer hides.
pub struct Data<E> {
    pub data: Vec<Option<Plot<E>>>,
    pub blacklist: Vec<usize>,
}

fn holds(list: &Vec<usize>, i: usize) -> (r: bool)
    ensures
        r == list@.contains(i),
{
    let mut k: usize = 0;
    while k < list.len()
        invariant
            k <= list.len(),
            forall|j: int| 0 <= j < k ==> list@[j] != i,
        decreases list.len() - k,
    {
        if list[k] == i {
            return true;
        }
        k += 1;
    }
    false
}

impl<E> Data<E> {
    pub open spec fn first_slot(n: Option<usize>) -> int {
        match n {
            Some(k) => k as int,
            None => 0,
        }
    }

    /// How many slots a request covers: the target alone if it exists, else all.
    pub open spec fn slot_count(&self, n: Option<usize>) -> int {
        match n {
            Some(k) => if k < self.data.len() {
                1
            } else {
                0
            },
            None => self.data.len() as int,
        }
    }

    /// The target when it names an existing slot; else none, so that every slot is sampled.
    pub open spec fn target_slot(&self, t: Option<usize>) -> Option<usize> {
        match t {
            Some(k) => if k < self.data.len() {
                Some(k)
            } else {
                None
            },
            None => None,
        }
    }

    /// Every hidden slot is a slot of the registry.
    pub open spec fn hidden_in_range(&self) -> bool {
        forall|k: int| 0 <= k < self.blacklist@.len() ==> (#[trigger] self.blacklist@[k] as int) < self.data@.len()
    }

    /// Slot `i` holds a plot and is not hidden.
    pub open spec fn shown(&self, i: int) -> bool {
        !self.blacklist@.contains(i as usize) && self.data@[i] is Some
    }

    /// `rs[p]` is what slot `first_slot(n) + p` gave to pass `j`: nothing where
    /// the slot is hidden or empty, else a result of sampling its plot.
    pub open spec fn slots_give<
        C: Fn(Tick) -> u64,
        S: Fn(&E, Axis, Tick) -> E,
        V: Fn(&E, Axis, Tick) -> Outcome,
    >(&self, n: Option<usize>, rs: Seq<Option<(Output, bool)>>, j: Job, coord: C, specialize: S, eval: V) -> bool {
        &&& rs.len() == self.slot_count(n)
        &&& forall|p: int|
            #![trigger rs[p]]
            0 <= p < rs.len() ==> if self.shown(Self::first_slot(n) + p) {
                sampled(self.data@[Self::first_slot(n) + p]->Some_0, j, coord, specialize, eval, rs[p])
            } else {
                rs[p] is None
            }
    }

    /// Samples every shown slot that the request covers, in slot order.
    fn each_slot<
        C: Fn(Tick) -> u64,
        S: Fn(&E, Axis, Tick) -> E,
        V: Fn(&E, Axis, Tick) -> Outcome,
    >(&self, n: Option<usize>, req: Job, coord: &C, specialize: &S, eval: &V) -> (r: (
        Vec<Output>,
        bool,
        Ghost<Seq<Option<(Output, bool)>>>,
    ))
        requires
            job_fits(req),
            coord_total(*coord),
            specialize_total::<E, S>(*specialize),
            eval_total::<E, V>(*eval),
        ensures
            self.slots_give(n, r.2@, req, *coord, *specialize, *eval),
            r.0@ == kept(r.2@),
            r.1 == any_flag(r.2@),
    {
        let (first, count) = match n {
            Some(k) => (k, if k < self.data.len() {
                1
            } else {
                0
            }),
            None => (0, self.data.len()),
        };
        let mut out: Vec<Output> = Vec::new();
        let mut complex = false;
        let ghost mut rs: Seq<Option<(Output, bool)>> = Seq::empty();
        let mut p: usize = 0;
        while p < count
            invariant
                p <= count,
                first == Self::first_slot(n),
                count == self.slot_count(n),
                count > 0 ==> first + count <= self.data.len(),
                job_fits(req),
                coord_total(*coord),
                specialize_total::<E, S>(*specialize),
                eval_total::<E, V>(*eval),
                rs.len() == p,
                forall|q: int|
                    #![trigger rs[q]]
                    0 <= q < p ==> if self.shown(first + q) {
                        sampled(self.data@[first + q]->Some_0, req, *coord, *specialize, *eval, rs[q])
                    } else {
                        rs[q] is None
                    },
                out@ == kept(rs),
                complex == any_flag(rs),
            decreases count - p,
        {
            let i = first + p;
            let r = if holds(&self.blacklist, i) {
                None
            } else {
                match &self.data[i] {
                    None => None,
                    Some(plot) => self.plot_for(plot, req, coord, specialize, eval),
                }
            };
            let ghost before = rs;
            proof {
                rs = rs.push(r);
                assert(rs.drop_last() =~= before);
                if r is Some && r->Some_0.1 {
                    assert(rs[p as int] == r);
                }
                if any_flag(before) {
                    let w = choose|k: int| 0 <= k < before.len() && (#[trigger] before[k]) is Some
                        && before[k]->Some_0.1;
                    assert(rs[w] == before[w]);
                }
                if any_flag(rs) && !(r is Some && r->Some_0.1) {
                    let w = choose|k: int| 0 <= k < rs.len() && (#[trigger] rs[k]) is Some
                        && rs[k]->Some_0.1;
                    assert(w < before.len());
                    assert(before[w] == rs[w]);
                }
                assert forall|q: int|
                    #![trigger rs[q]]
                    0 <= q < p + 1 implies if self.shown(first + q) {
                        sampled(self.data@[first + q]->Some_0, req, *coord, *specialize, *eval, rs[q])
                    } else {
                        rs[q] is None
                    } by {
                    if q < p {
                        assert(rs[q] == before[q]);
                    }
                }
            }
            match r {
                Some((o, b)) => {
                    out.push(o);
                    complex = complex || b;
                },
                None => {},
            }
            p += 1;
        }
        (out, complex, Ghost(rs))
    }
}

/// What one plot gives to a plane request of `len` steps: plots of both axes that
/// follow the reference interval are swept over it as a grid of `isqrt(len)` steps
/// a side; other plots that follow it are swept over it as a line; functions of
/// one axis are swept over the horizontal interval; functions of both axes give nothing.
pub open spec fn sampled_2d<
    E,
    C: Fn(Tick) -> u64,
    S: Fn(&E, Axis, Tick) -> E,
    V: Fn(&E, Axis, Tick) -> Outcome,
>(plot: Plot<E>, len: usize, coord: C, specialize: S, eval: V, r: Option<(Output, bool)>) -> bool {
    let t = plot.graph_type;
    if t.takes_plane() && t.follows_reference() {
        exists|s: usize|
            is_root(s, len) && #[trigger] grid_result(
                plot,
                (Span::Reference, Span::Reference),
                s,
                s,
                coord,
                specialize,
                eval,
                r,
            )
    } else if t.follows_reference() {
        line_result(plot, Span::Reference, len, coord, eval, r)
    } else if !t.takes_plane() {
        line_result(plot, Span::ViewX, len, coord, eval, r)
    } else {
        r is None
    }
}

/// What one plot gives to a space request of `lenx` by `leny` steps: only plots
/// whose values live in space give anything; functions of both axes are swept
/// over the requested grid, or over the reference interval when they follow it;
/// curves that follow it are swept over it as a line of `lenx * leny` steps.
pub open spec fn sampled_3d<
    E,
    C: Fn(Tick) -> u64,
    S: Fn(&E, Axis, Tick) -> E,
    V: Fn(&E, Axis, Tick) -> Outcome,
>(
    plot: Plot<E>,
    lenx: usize,
    leny: usize,
    coord: C,
    specialize: S,
    eval: V,
    r: Option<(Output, bool)>,
) -> bool {
    let t = plot.graph_type;
    if !t.gives_space() {
        r is None
    } else if t.takes_plane() && !t.follows_reference() {
        grid_result(plot, (Span::ViewX, Span::ViewY), lenx, leny, coord, specialize, eval, r)
    } else if t.takes_plane() {
        grid_result(plot, (Span::Reference, Span::Reference), lenx, leny, coord, specialize, eval, r)
    } else if t.follows_reference() {
        line_result(plot, Span::Reference, (lenx * leny) as usize, coord, eval, r)
    } else {
        r is None
    }
}

pub open spec fn clamped(n: usize) -> usize {
    if n > MAX_STEPS {
        MAX_STEPS
    } else {
        n
    }
}

/// The slot a re-sampling request targets: the one the renderer's index names,
/// unless that index belongs to one lane of a multi-valued plot; then every slot
/// is re-sampled.
pub fn resolve_target(slot: Option<usize>, in_list: bool) -> (r: Option<usize>)
    ensures
        r == if in_list {
            None
        } else {
            slot
        },
{
    if in_list {
        None
    } else {
        slot
    }
}



/// One sampling pass, as each slot sees it.
#[derive(Clone, Copy)]
pub enum Job {
    Plane(usize),
    Space(usize, usize),
    Slice(usize, usize, isize, bool),
}

pub open spec fn job_fits(j: Job) -> bool {
    match j {
        Job::Plane(len) => len < usize::MAX,
        Job::Space(lenx, leny) => lenx <= MAX_STEPS && leny <= MAX_STEPS,
        Job::Slice(lenx, leny, _, _) => lenx < usize::MAX && leny < usize::MAX,
    }
}

pub open spec fn sampled<
    E,
    C: Fn(Tick) -> u64,
    S: Fn(&E, Axis, Tick) -> E,
    V: Fn(&E, Axis, Tick) -> Outcome,
>(plot: Plot<E>, j: Job, coord: C, specialize: S, eval: V, r: Option<(Output, bool)>) -> bool {
    match j {
        Job::Plane(len) => sampled_2d(plot, len, coord, specialize, eval, r),
        Job::Space(lenx, leny) => sampled_3d(plot, lenx, leny, coord, specialize, eval, r),
        Job::Slice(lenx, leny, slice, view_x) => slice_result(
            plot,
            slice,
            lenx,
            leny,
            view_x,
            coord,
            specialize,
            eval,
            r,
        ),
    }
}


impl<E> Data<E> {
    fn plot_2d<
        C: Fn(Tick) -> u64,
        S: Fn(&E, Axis, Tick) -> E,
        V: Fn(&E, Axis, Tick) -> Outcome,
    >(&self, plot: &Plot<E>, len: usize, coord: &C, specialize: &S, eval: &V) -> (r: Option<(Output, bool)>)
        requires
            len < usize::MAX,
            coord_total(*coord),
            specialize_total::<E, S>(*specialize),
            eval_total::<E, V>(*eval),
        ensures
            sampled_2d(*plot, len, *coord, *specialize, *eval, r),
    {
        let a = plot.graph_type.is_3d_i();
        let b = plot.graph_type.on_var();
        if a && b {
            let s = isqrt(len);
            let r = self.get_3d(plot, (Span::Reference, Span::Reference), s, s, coord, specialize, eval);
            assert(is_root(s, len));
            assert(grid_result(*plot, (Span::Reference, Span::Reference), s, s, *coord, *specialize, *eval, r));
            r
        } else if b {
            self.get_2d(plot, Span::Reference, len, coord, eval)
        } else if !a {
            self.get_2d(plot, Span::ViewX, len, coord, eval)
        } else {
            None
        }
    }

    fn plot_3d<
        C: Fn(Tick) -> u64,
        S: Fn(&E, Axis, Tick) -> E,
        V: Fn(&E, Axis, Tick) -> Outcome,
    >(&self, plot: &Plot<E>, lenx: usize, leny: usize, coord: &C, specialize: &S, eval: &V) -> (r: Option<
        (Output, bool),
    >)
        requires
            lenx <= MAX_STEPS,
            leny <= MAX_STEPS,
            coord_total(*coord),
            specialize_total::<E, S>(*specialize),
            eval_total::<E, V>(*eval),
        ensures
            sampled_3d(*plot, lenx, leny, *coord, *specialize, *eval, r),
    {
        if !plot.graph_type.is_3d_o() {
            return None;
        }
        let a = plot.graph_type.is_3d_i();
        let b = plot.graph_type.on_var();
        if a && !b {
            self.get_3d(plot, (Span::ViewX, Span::ViewY), lenx, leny, coord, specialize, eval)
        } else if a {
            self.get_3d(plot, (Span::Reference, Span::Reference), lenx, leny, coord, specialize, eval)
        } else if b {
            assert(lenx * leny <= MAX_STEPS * MAX_STEPS) by (nonlinear_arith)
                requires
                    lenx <= MAX_STEPS,
                    leny <= MAX_STEPS,
            ;
            self.get_2d(plot, Span::Reference, lenx * leny, coord, eval)
        } else {
            None
        }
    }

    fn plot_for<
        C: Fn(Tick) -> u64,
        S: Fn(&E, Axis, Tick) -> E,
        V: Fn(&E, Axis, Tick) -> Outcome,
    >(&self, plot: &Plot<E>, j: Job, coord: &C, specialize: &S, eval: &V) -> (r: Option<(Output, bool)>)
        requires
            job_fits(j),
            coord_total(*coord),
            specialize_total::<E, S>(*specialize),
            eval_total::<E, V>(*eval),
        ensures
            sampled(*plot, j, *coord, *specialize, *eval, r),
    {
        match j {
            Job::Plane(len) => self.plot_2d(plot, len, coord, specialize, eval),
            Job::Space(lenx, leny) => self.plot_3d(plot, lenx, leny, coord, specialize, eval),
            Job::Slice(lenx, leny, slice, view_x) => self.get_2d_slice(
                plot,
                slice,
                lenx,
                leny,
                view_x,
                coord,
                specialize,
                eval,
            ),
        }
    }
}

impl<E> Data<E> {
    pub open spec fn generated_2d<
        C: Fn(Tick) -> u64,
        S: Fn(&E, Axis, Tick) -> E,
        V: Fn(&E, Axis, Tick) -> Outcome,
    >(&self, len: usize, n: Option<usize>, coord: C, specialize: S, eval: V, r: (Vec<Output>, bool)) -> bool {
        exists|rs: Seq<Option<(Output, bool)>>|
            #[trigger] self.slots_give(n, rs, Job::Plane(len), coord, specialize, eval)
                && r.0@ == kept(rs) && r.1 == any_flag(rs)
    }

    pub open spec fn generated_3d<
        C: Fn(Tick) -> u64,
        S: Fn(&E, Axis, Tick) -> E,
        V: Fn(&E, Axis, Tick) -> Outcome,
    >(&self, lenx: usize, leny: usize, n: Option<usize>, coord: C, specialize: S, eval: V, r: (Vec<Output>, bool)) -> bool {
        exists|rs: Seq<Option<(Output, bool)>>|
            #[trigger] self.slots_give(n, rs, Job::Space(lenx, leny), coord, specialize, eval)
                && r.0@ == kept(rs) && r.1 == any_flag(rs)
    }

    pub open spec fn generated_slice<
        C: Fn(Tick) -> u64,
        S: Fn(&E, Axis, Tick) -> E,
        V: Fn(&E, Axis, Tick) -> Outcome,
    >(
        &self,
        lenx: usize,
        leny: usize,
        slice: isize,
        view_x: bool,
        n: Option<usize>,
        coord: C,
        specialize: S,
        eval: V,
        r: (Vec<Output>, bool),
    ) -> bool {
        exists|rs: Seq<Option<(Output, bool)>>|
            #[trigger] self.slots_give(n, rs, Job::Slice(lenx, leny, slice, view_x), coord, specialize, eval)
                && r.0@ == kept(rs) && r.1 == any_flag(rs)
    }

    /// Samples the target slot `n` (every slot when `None`) for a plane request of
    /// `len` steps, skipping hidden and empty slots; the flag tells whether any
    /// output is complex.
    pub fn generate_2d<
        C: Fn(Tick) -> u64,
        S: Fn(&E, Axis, Tick) -> E,
        V: Fn(&E, Axis, Tick) -> Outcome,
    >(&self, len: usize, n: Option<usize>, coord: &C, specialize: &S, eval: &V) -> (r: (Vec<Output>, bool))
        requires
            len < usize::MAX,
            coord_total(*coord),
            specialize_total::<E, S>(*specialize),
            eval_total::<E, V>(*eval),
        ensures
            self.generated_2d(len, n, *coord, *specialize, *eval, r),
    {
        let (out, complex, rs) = self.each_slot(n, Job::Plane(len), coord, specialize, eval);
        (out, complex)
    }

    /// Samples for a space request of `lenx` by `leny` steps; only plots whose
    /// values live in space give an output.
    pub fn generate_3d<
        C: Fn(Tick) -> u64,
        S: Fn(&E, Axis, Tick) -> E,
        V: Fn(&E, Axis, Tick) -> Outcome,
    >(&self, lenx: usize, leny: usize, n: Option<usize>, coord: &C, specialize: &S, eval: &V) -> (r: (
        Vec<Output>,
        bool,
    ))
        requires
            lenx <= MAX_STEPS,
            leny <= MAX_STEPS,
            coord_total(*coord),
            specialize_total::<E, S>(*specialize),
            eval_total::<E, V>(*eval),
        ensures
            self.generated_3d(lenx, leny, n, *coord, *specialize, *eval, r),
    {
        let (out, complex, rs) = self.each_slot(n, Job::Space(lenx, leny), coord, specialize, eval);
        (out, complex)
    }

    /// Samples every covered slot along a slice of the requested grid.
    pub fn generate_2d_slice<
        C: Fn(Tick) -> u64,
        S: Fn(&E, Axis, Tick) -> E,
        V: Fn(&E, Axis, Tick) -> Outcome,
    >(
        &self,
        lenx: usize,
        leny: usize,
        slice: isize,
        view_x: bool,
        n: Option<usize>,
        coord: &C,
        specialize: &S,
        eval: &V,
    ) -> (r: (Vec<Output>, bool))
        requires
            lenx < usize::MAX,
            leny < usize::MAX,
            coord_total(*coord),
            specialize_total::<E, S>(*specialize),
            eval_total::<E, V>(*eval),
        ensures
            self.generated_slice(lenx, leny, slice, view_x, n, *coord, *specialize, *eval, r),
    {
        let (out, complex, rs) = self.each_slot(n, Job::Slice(lenx, leny, slice, view_x), coord, specialize, eval);
        (out, complex)
    }

    /// Replaces every slot from the renderer's names: the source text is rebuilt
    /// from them (variables at `hidden` positions left out) and classified anew
    /// by `init`; where that fails the registry is left empty. Hidden slots that
    /// no longer exist are dropped from the hidden list. Gives the source
    /// text, the new display names (none where `init` gave none for a non-empty
    /// list of names), and whether some plot's values live in space.
    pub fn update_name<D: Fn(&String), K: Fn(&String) -> Option<Compiled<E>>, P: Fn(&E, Roles) -> Outcome>(
        &mut self,
        name: &Vec<(Vec<String>, String)>,
        hidden: &Vec<usize>,
        apply: &D,
        compile: &K,
        probe: &P,
    ) -> (r: (String, Option<Vec<(Vec<String>, String)>>, bool))
        requires
            offset(name_views(name@), name@.len() as int) < usize::MAX,
            forall|d: &String| #[trigger] call_requires(*apply, (d,)),
            forall|t: &String| #[trigger] call_requires(*compile, (t,)),
            forall|e: &E, h: Roles| #[trigger] call_requires(*probe, (e, h)),
        ensures
            r.0@ == source_of(name_views(name@), hidden@),
            final(self).blacklist@ == in_range(old(self).blacklist@, final(self).data@.len() as int),
            final(self).hidden_in_range(),
            r.2 == final(self).any_space(),
            exists|i: Result<(Vec<Option<Plot<E>>>, Vec<(Vec<String>, String)>, Roles), &'static str>|
                #[trigger] initialized(r.0@, *compile, *probe, i) && match i {
                    Ok((d, n, _)) => final(self).data@ == d@ && r.1 == if n@.len() > 0 || name@.len() == 0 {
                        Some(n)
                    } else {
                        None
                    },
                    Err(_) => final(self).data@.len() == 0 && (r.1 is Some <==> name@.len() == 0)
                        && (r.1 is Some ==> r.1->Some_0@.len() == 0),
                },
    {
        let func = source_text(name, hidden);
        let res = init(func.as_str(), apply, compile, probe);
        let ghost res_snap = res;
        let new_name = match res {
            Ok((data, names, _)) => {
                self.data = data;
                names
            },
            Err(_) => {
                self.data = Vec::new();
                Vec::new()
            },
        };
        let names = if new_name.len() > 0 || name.len() == 0 {
            Some(new_name)
        } else {
            None
        };
        self.blacklist = keep_in_range(&self.blacklist, self.data.len());
        let is_3d = self.is_3d();
        let r = (func, names, is_3d);
        assert(match res_snap {
            Ok((d, n, _)) => self.data@ == d@ && r.1 == if n@.len() > 0 || name@.len() == 0 {
                Some(n)
            } else {
                None
            },
            Err(_) => self.data@.len() == 0 && (r.1 is Some <==> name@.len() == 0) && (r.1 is Some
                ==> r.1->Some_0@.len() == 0),
        });
        assert(initialized(r.0@, *compile, *probe, res_snap));
        r
    }

    pub open spec fn any_space(&self) -> bool {
        exists|i: int|
            0 <= i < self.data.len() && (#[trigger] self.data@[i]) is Some
                && self.data@[i]->Some_0.graph_type.gives_space()
    }

    /// Some plot's values live in space.
    pub fn is_3d(&self) -> (r: bool)
        ensures
            r == self.any_space(),
    {
        let mut k: usize = 0;
        while k < self.data.len()
            invariant
                k <= self.data.len(),
                forall|i: int|
                    0 <= i < k ==> !((#[trigger] self.data@[i]) is Some
                        && self.data@[i]->Some_0.graph_type.gives_space()),
            decreases self.data.len() - k,
        {
            if let Some(p) = &self.data[k] {
                if p.graph_type.is_3d_o() {
                    return true;
                }
            }
            k += 1;
        }
        false
    }

    /// Applies a viewport request: records the hidden slots that exist, clamps the step
    /// counts to `MAX_STEPS`, and re-samples the target slot with the sampler the
    /// request calls for; every slot when there is no target or it names no slot.
    pub fn update_data<
        C: Fn(Tick) -> u64,
        S: Fn(&E, Axis, Tick) -> E,
        V: Fn(&E, Axis, Tick) -> Outcome,
    >(
        &mut self,
        bound: Request,
        hidden: Vec<usize>,
        target: Option<usize>,
        coord: &C,
        specialize: &S,
        eval: &V,
    ) -> (r: (Vec<Output>, bool))
        requires
            coord_total(*coord),
            specialize_total::<E, S>(*specialize),
            eval_total::<E, V>(*eval),
        ensures
            final(self).data@ == old(self).data@,
            final(self).blacklist@ == in_range(hidden@, old(self).data@.len() as int),
            final(self).hidden_in_range(),
            match bound {
                Request::Plane { count } => final(self).generated_2d(
                    clamped(count),
                    old(self).target_slot(target),
                    *coord,
                    *specialize,
                    *eval,
                    r,
                ),
                Request::Space { nx, ny } => final(self).generated_3d(
                    clamped(nx),
                    clamped(ny),
                    old(self).target_slot(target),
                    *coord,
                    *specialize,
                    *eval,
                    r,
                ),
                Request::Slice { count, slice, view_x } => final(self).generated_slice(
                    clamped(count),
                    clamped(count),
                    slice,
                    view_x,
                    old(self).target_slot(target),
                    *coord,
                    *specialize,
                    *eval,
                    r,
                ),
            },
    {
        self.blacklist = keep_in_range(&hidden, self.data.len());
        let target = match target {
            Some(k) => if k < self.data.len() {
                Some(k)
            } else {
                None
            },
            None => None,
        };
        match bound {
            Request::Plane { count } => {
                let c = if count > MAX_STEPS {
                    MAX_STEPS
                } else {
                    count
                };
                self.generate_2d(c, target, coord, specialize, eval)
            },
            Request::Space { nx, ny } => {
                let x = if nx > MAX_STEPS {
                    MAX_STEPS
                } else {
                    nx
                };
                let y = if ny > MAX_STEPS {
                    MAX_STEPS
                } else {
                    ny
                };
                self.generate_3d(x, y, target, coord, specialize, eval)
            },
            Request::Slice { count, slice, view_x } => {
                let c = if count > MAX_STEPS {
                    MAX_STEPS
                } else {
                    count
                };
                self.generate_2d_slice(c, c, slice, view_x, target, coord, specialize, eval)
            },
        }
    }
}

} // verus!
