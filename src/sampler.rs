//! The sampling strategies: a sweep along one axis, a sweep over a grid that
//! specializes the expression once per row, and a slice of a grid held at one
//! position. The evaluator is handed in as three functions:
//! `coord` gives the number at a tick, `specialize` substitutes a variable at a
//! tick and simplifies, `eval` substitutes a variable at a tick and evaluates.
use crate::draw::{joined, Drawn, draw_grid, draw_line, draw_slice, drawn_of, render_grid, render_line, render_slice, Output};
use crate::kind::{Outcome, Plot, Type, Val};
use crate::lanes::views;
use crate::registry::Data;
use vstd::prelude::*;

verus! {

/// A variable of an expression.
#[derive(Clone, Copy, Debug, PartialEq, Eq, Structural)]
pub enum Axis {
    X,
    Y,
}

/// An interval to sample: the requested horizontal or vertical range, or the
/// reference interval that parametric plots follow.
#[derive(Clone, Copy, Debug, PartialEq, Eq, Structural)]
pub enum Span {
    ViewX,
    ViewY,
    Reference,
}

/// A position on an interval split into `steps` equal steps.
#[derive(Clone, Copy, Debug, PartialEq, Eq, Structural)]
pub enum Tick {
    /// The `index`-th of the `steps + 1` ends of the steps.
    Step { span: Span, index: usize, steps: usize },
    /// `offset` steps away from the middle of the interval.
    Centre { span: Span, offset: isize, steps: usize },
}

pub open spec fn step(span: Span, k: int, n: usize) -> Tick {
    Tick::Step { span, index: k as usize, steps: n }
}

pub open spec fn coord_total<C: Fn(Tick) -> u64>(coord: C) -> bool {
    forall|t: Tick| #[trigger] call_requires(coord, (t,))
}

pub open spec fn eval_total<E, V: Fn(&E, Axis, Tick) -> Outcome>(eval: V) -> bool {
    forall|e: &E, a: Axis, t: Tick| #[trigger] call_requires(eval, (e, a, t))
}

pub open spec fn specialize_total<E, S: Fn(&E, Axis, Tick) -> E>(specialize: S) -> bool {
    forall|e: &E, a: Axis, t: Tick| #[trigger] call_requires(specialize, (e, a, t))
}

/// `o` and `xs` are what `eval` and `coord` may give at the `n + 1` ticks of `span`,
/// `var` being substituted in `f`.
pub open spec fn swept_line<E, C: Fn(Tick) -> u64, V: Fn(&E, Axis, Tick) -> Outcome>(
    f: &E,
    var: Axis,
    span: Span,
    n: usize,
    coord: C,
    eval: V,
    o: Seq<Outcome>,
    xs: Seq<u64>,
) -> bool {
    &&& o.len() == n + 1
    &&& xs.len() == n + 1
    &&& forall|k: int| 0 <= k <= n ==> call_ensures(eval, (f, var, step(span, k, n)), #[trigger] o[k])
    &&& forall|k: int| 0 <= k <= n ==> call_ensures(coord, (step(span, k, n),), #[trigger] xs[k])
}

/// A grid of `nx + 1` by `ny + 1` ticks: row `j` is `f` specialized at the `j`-th
/// tick of `y` (`rows_e[j]`), evaluated at every tick of `x`.
pub open spec fn swept_grid<
    E,
    C: Fn(Tick) -> u64,
    S: Fn(&E, Axis, Tick) -> E,
    V: Fn(&E, Axis, Tick) -> Outcome,
>(
    f: &E,
    spans: (Span, Span),
    nx: usize,
    ny: usize,
    coord: C,
    specialize: S,
    eval: V,
    rows_e: Seq<E>,
    o: Seq<Seq<Outcome>>,
    xs: Seq<u64>,
    ys: Seq<u64>,
) -> bool {
    &&& rows_e.len() == ny + 1
    &&& o.len() == ny + 1
    &&& xs.len() == nx + 1
    &&& ys.len() == ny + 1
    &&& forall|j: int|
        0 <= j <= ny ==> call_ensures(specialize, (f, Axis::Y, step(spans.1, j, ny)), #[trigger] rows_e[j])
    &&& forall|j: int| 0 <= j <= ny ==> (#[trigger] o[j]).len() == nx + 1
    &&& forall|j: int, i: int|
        0 <= j <= ny && 0 <= i <= nx ==> call_ensures(
            eval,
            (&rows_e[j], Axis::X, step(spans.0, i, nx)),
            #[trigger] o[j][i],
        )
    &&& forall|i: int| 0 <= i <= nx ==> call_ensures(coord, (step(spans.0, i, nx),), #[trigger] xs[i])
    &&& forall|j: int| 0 <= j <= ny ==> call_ensures(coord, (step(spans.1, j, ny),), #[trigger] ys[j])
}

/// The plot's values vary over the domain, so it has to be evaluated there.
pub open spec fn is_swept(t: Type) -> bool {
    match t.val {
        Val::Num(None) | Val::Vector(None) | Val::Vector3D | Val::List => true,
        _ => false,
    }
}

/// The variable a line sweep substitutes: `y` for functions of `y`, else `x`.
pub open spec fn line_var(t: Type) -> Axis {
    if (t.val is Num || t.val is List) && t.inverted() {
        Axis::Y
    } else {
        Axis::X
    }
}

/// What `get_2d` may return for `data`: the plot drawn from its results at the
/// ticks of `span`, or, for a plot that does not vary, drawn from nothing.
pub open spec fn line_result<E, C: Fn(Tick) -> u64, V: Fn(&E, Axis, Tick) -> Outcome>(
    data: Plot<E>,
    span: Span,
    len: usize,
    coord: C,
    eval: V,
    r: Option<(Output, bool)>,
) -> bool {
    if is_swept(data.graph_type) {
        exists|o: Seq<Outcome>, xs: Seq<u64>|
            #[trigger] swept_line(&data.func, line_var(data.graph_type), span, len, coord, eval, o, xs)
                && drawn_of(r) == render_line(data.graph_type, o, xs)
    } else {
        drawn_of(r) == render_line(data.graph_type, Seq::empty(), Seq::empty())
    }
}

/// What `get_3d` may return for `data` over the grid of `spans`.
pub open spec fn grid_result<
    E,
    C: Fn(Tick) -> u64,
    S: Fn(&E, Axis, Tick) -> E,
    V: Fn(&E, Axis, Tick) -> Outcome,
>(
    data: Plot<E>,
    spans: (Span, Span),
    lenx: usize,
    leny: usize,
    coord: C,
    specialize: S,
    eval: V,
    r: Option<(Output, bool)>,
) -> bool {
    if is_swept(data.graph_type) {
        exists|rows_e: Seq<E>, o: Seq<Seq<Outcome>>, xs: Seq<u64>, ys: Seq<u64>|
            #[trigger] swept_grid(&data.func, spans, lenx, leny, coord, specialize, eval, rows_e, o, xs, ys)
                && drawn_of(r) == render_grid(data.graph_type, o, xs, ys)
    } else {
        drawn_of(r) == render_grid(data.graph_type, Seq::empty(), Seq::empty(), Seq::empty())
    }
}

/// What `get_2d_slice` may return for `data`.
pub open spec fn slice_result<
    E,
    C: Fn(Tick) -> u64,
    S: Fn(&E, Axis, Tick) -> E,
    V: Fn(&E, Axis, Tick) -> Outcome,
>(
    data: Plot<E>,
    slice: isize,
    lenx: usize,
    leny: usize,
    view_x: bool,
    coord: C,
    specialize: S,
    eval: V,
    r: Option<(Output, bool)>,
) -> bool {
    if is_sliced(data.graph_type) {
        exists|e2: E, h: u64, o: Seq<Outcome>, xs: Seq<u64>|
            #![trigger swept_line(&e2, slice_sweep(view_x, lenx, leny).0, slice_sweep(view_x, lenx, leny).1, slice_sweep(view_x, lenx, leny).2, coord, eval, o, xs), render_slice(data.graph_type, h, o, xs)]
            call_ensures(specialize, (&data.func, held_var(view_x), held_tick(view_x, slice, lenx, leny)), e2)
                && call_ensures(coord, (held_tick(view_x, slice, lenx, leny),), h)
                && swept_line(&e2, slice_sweep(view_x, lenx, leny).0, slice_sweep(view_x, lenx, leny).1, slice_sweep(view_x, lenx, leny).2, coord, eval, o, xs)
                && drawn_of(r) == render_slice(data.graph_type, h, o, xs)
    } else {
        drawn_of(r) == render_slice(data.graph_type, 0, Seq::empty(), Seq::empty())
    }
}

/// Evaluates `f` at the `n + 1` ticks of `span`.
fn sweep_line<E, C: Fn(Tick) -> u64, V: Fn(&E, Axis, Tick) -> Outcome>(
    f: &E,
    var: Axis,
    span: Span,
    n: usize,
    coord: &C,
    eval: &V,
) -> (r: (Vec<Outcome>, Vec<u64>))
    requires
        n < usize::MAX,
        coord_total(*coord),
        eval_total::<E, V>(*eval),
    ensures
        swept_line(f, var, span, n, *coord, *eval, r.0@, r.1@),
{
    let mut o: Vec<Outcome> = Vec::new();
    let mut xs: Vec<u64> = Vec::new();
    let mut k: usize = 0;
    while k <= n
        invariant
            k <= n + 1,
            n < usize::MAX,
            coord_total(*coord),
            eval_total::<E, V>(*eval),
            o@.len() == k,
            xs@.len() == k,
            forall|j: int| 0 <= j < k ==> call_ensures(*eval, (f, var, step(span, j, n)), #[trigger] o@[j]),
            forall|j: int| 0 <= j < k ==> call_ensures(*coord, (step(span, j, n),), #[trigger] xs@[j]),
        decreases n + 1 - k,
    {
        let t = Tick::Step { span, index: k, steps: n };
        assert(t == step(span, k as int, n));
        let v = eval(f, var, t);
        let x = coord(t);
        o.push(v);
        xs.push(x);
        k += 1;
    }
    (o, xs)
}

/// Evaluates `f` over the grid of ticks of `spans`, specializing it once per row.
fn sweep_grid<
    E,
    C: Fn(Tick) -> u64,
    S: Fn(&E, Axis, Tick) -> E,
    V: Fn(&E, Axis, Tick) -> Outcome,
>(
    f: &E,
    spans: (Span, Span),
    nx: usize,
    ny: usize,
    coord: &C,
    specialize: &S,
    eval: &V,
) -> (r: (Vec<Vec<Outcome>>, Vec<u64>, Vec<u64>, Ghost<Seq<E>>))
    requires
        nx < usize::MAX,
        ny < usize::MAX,
        coord_total(*coord),
        specialize_total::<E, S>(*specialize),
        eval_total::<E, V>(*eval),
    ensures
        swept_grid(f, spans, nx, ny, *coord, *specialize, *eval, r.3@, views(r.0@), r.1@, r.2@),
{
    let mut rows: Vec<Vec<Outcome>> = Vec::new();
    let mut ys: Vec<u64> = Vec::new();
    let ghost mut rows_e: Seq<E> = Seq::empty();
    let mut j: usize = 0;
    while j <= ny
        invariant
            j <= ny + 1,
            nx < usize::MAX,
            ny < usize::MAX,
            coord_total(*coord),
            specialize_total::<E, S>(*specialize),
            eval_total::<E, V>(*eval),
            rows@.len() == j,
            ys@.len() == j,
            rows_e.len() == j,
            forall|q: int|
                0 <= q < j ==> call_ensures(*specialize, (f, Axis::Y, step(spans.1, q, ny)), #[trigger] rows_e[q]),
            forall|q: int| 0 <= q < j ==> (#[trigger] rows@[q])@.len() == nx + 1,
            forall|q: int, i: int|
                0 <= q < j && 0 <= i <= nx ==> call_ensures(
                    *eval,
                    (&rows_e[q], Axis::X, step(spans.0, i, nx)),
                    #[trigger] rows@[q]@[i],
                ),
            forall|q: int| 0 <= q < j ==> call_ensures(*coord, (step(spans.1, q, ny),), #[trigger] ys@[q]),
        decreases ny + 1 - j,
    {
        let t = Tick::Step { span: spans.1, index: j, steps: ny };
        assert(t == step(spans.1, j as int, ny));
        let row_e = specialize(f, Axis::Y, t);
        let y = coord(t);
        let (row, _) = sweep_line(&row_e, Axis::X, spans.0, nx, coord, eval);
        proof {
            rows_e = rows_e.push(row_e);
        }
        rows.push(row);
        ys.push(y);
        j += 1;
    }
    let mut xs: Vec<u64> = Vec::new();
    let mut i: usize = 0;
    while i <= nx
        invariant
            i <= nx + 1,
            nx < usize::MAX,
            coord_total(*coord),
            xs@.len() == i,
            forall|q: int| 0 <= q < i ==> call_ensures(*coord, (step(spans.0, q, nx),), #[trigger] xs@[q]),
        decreases nx + 1 - i,
    {
        let t = Tick::Step { span: spans.0, index: i, steps: nx };
        assert(t == step(spans.0, i as int, nx));
        xs.push(coord(t));
        i += 1;
    }
    proof {
        assert forall|q: int| 0 <= q <= ny implies (#[trigger] views(rows@)[q]).len() == nx + 1 by {}
        assert forall|q: int, i: int| 0 <= q <= ny && 0 <= i <= nx implies call_ensures(
            *eval,
            (&rows_e[q], Axis::X, step(spans.0, i, nx)),
            #[trigger] views(rows@)[q][i],
        ) by {
            assert(views(rows@)[q] == rows@[q]@);
        }
    }
    (rows, xs, ys, Ghost(rows_e))
}

/// The variable a slice holds: `y` when `view_x`, else `x`.
pub open spec fn held_var(view_x: bool) -> Axis {
    if view_x {
        Axis::Y
    } else {
        Axis::X
    }
}

/// Where a slice holds its variable: `slice` steps from the middle of its interval.
pub open spec fn held_tick(view_x: bool, slice: isize, lenx: usize, leny: usize) -> Tick {
    if view_x {
        Tick::Centre { span: Span::ViewY, offset: slice, steps: leny }
    } else {
        Tick::Centre { span: Span::ViewX, offset: slice, steps: lenx }
    }
}

/// The variable, interval and step count a slice sweeps.
pub open spec fn slice_sweep(view_x: bool, lenx: usize, leny: usize) -> (Axis, Span, usize) {
    if view_x {
        (Axis::X, Span::ViewX, lenx)
    } else {
        (Axis::Y, Span::ViewY, leny)
    }
}

pub open spec fn is_sliced(t: Type) -> bool {
    t.val is Num && t.val->Num_0 is None || t.val is List
}

impl<E> Data<E> {
    /// Samples a plot along `span` in `len` steps: `len + 1` evaluations of the
    /// plot's variable (`y` for functions of `y`, else `x`), then drawn as
    /// `render_line` says. Constant plots and literal point sets are drawn without
    /// evaluating anything.
    pub fn get_2d<C: Fn(Tick) -> u64, V: Fn(&E, Axis, Tick) -> Outcome>(
        &self,
        data: &Plot<E>,
        span: Span,
        len: usize,
        coord: &C,
        eval: &V,
    ) -> (r: Option<(Output, bool)>)
        requires
            len < usize::MAX,
            coord_total(*coord),
            eval_total::<E, V>(*eval),
        ensures
            line_result(*data, span, len, *coord, *eval, r),
    {
        let t = &data.graph_type;
        match &t.val {
            Val::Num(None) | Val::Vector(None) | Val::Vector3D | Val::List => {
                let inverted = t.inv();
                let var = match &t.val {
                    Val::Num(_) | Val::List => if inverted {
                        Axis::Y
                    } else {
                        Axis::X
                    },
                    _ => Axis::X,
                };
                assert(var == line_var(*t));
                let (o, xs) = sweep_line(&data.func, var, span, len, coord, eval);
                let r = draw_line(t, &o, &xs);
                assert(swept_line(&data.func, line_var(*t), span, len, *coord, *eval, o@, xs@));
                r
            },
            _ => {
                let o: Vec<Outcome> = Vec::new();
                let xs: Vec<u64> = Vec::new();
                draw_line(t, &o, &xs)
            },
        }
    }

    /// Samples a plot over the grid of `spans` in `lenx` by `leny` steps: for each of
    /// the `leny + 1` ticks of `y` the expression is specialized once, then evaluated
    /// at the `lenx + 1` ticks of `x`; drawn as `render_grid` says.
    pub fn get_3d<
        C: Fn(Tick) -> u64,
        S: Fn(&E, Axis, Tick) -> E,
        V: Fn(&E, Axis, Tick) -> Outcome,
    >(
        &self,
        data: &Plot<E>,
        spans: (Span, Span),
        lenx: usize,
        leny: usize,
        coord: &C,
        specialize: &S,
        eval: &V,
    ) -> (r: Option<(Output, bool)>)
        requires
            lenx < usize::MAX,
            leny < usize::MAX,
            coord_total(*coord),
            specialize_total::<E, S>(*specialize),
            eval_total::<E, V>(*eval),
        ensures
            grid_result(*data, spans, lenx, leny, *coord, *specialize, *eval, r),
    {
        let t = &data.graph_type;
        match &t.val {
            Val::Num(None) | Val::Vector(None) | Val::Vector3D | Val::List => {
                let (rows, xs, ys, rows_e) = sweep_grid(&data.func, spans, lenx, leny, coord, specialize, eval);
                assert forall|j: int| 0 <= j < rows.len() implies (#[trigger] rows@[j]).len() == xs.len() by {
                    assert(views(rows@)[j] == rows@[j]@);
                }
                let r = draw_grid(t, &rows, &xs, &ys);
                assert(swept_grid(&data.func, spans, lenx, leny, *coord, *specialize, *eval, rows_e@, views(rows@), xs@, ys@));
                r
            },
            _ => {
                let rows: Vec<Vec<Outcome>> = Vec::new();
                let xs: Vec<u64> = Vec::new();
                let ys: Vec<u64> = Vec::new();
                assert(views(rows@) =~= Seq::<Seq<Outcome>>::empty());
                draw_grid(t, &rows, &xs, &ys)
            },
        }
    }

    /// Samples a plot along a slice of the requested grid: the held variable (`x`, or
    /// `y` when `view_x`) is fixed `slice` steps from the middle of its interval and
    /// the expression specialized there once; the other variable is then swept as a
    /// line. Drawn as `render_slice` says, with the held position's number `h`.
    pub fn get_2d_slice<
        C: Fn(Tick) -> u64,
        S: Fn(&E, Axis, Tick) -> E,
        V: Fn(&E, Axis, Tick) -> Outcome,
    >(
        &self,
        data: &Plot<E>,
        slice: isize,
        lenx: usize,
        leny: usize,
        view_x: bool,
        coord: &C,
        specialize: &S,
        eval: &V,
    ) -> (r: Option<(Output, bool)>)
        requires
            lenx < usize::MAX,
            leny < usize::MAX,
            coord_total(*coord),
            specialize_total::<E, S>(*specialize),
            eval_total::<E, V>(*eval),
        ensures
            slice_result(*data, slice, lenx, leny, view_x, *coord, *specialize, *eval, r),
    {
        let t = &data.graph_type;
        let (hv, hs, hn, sv, ss, sn) = if view_x {
            (Axis::Y, Span::ViewY, leny, Axis::X, Span::ViewX, lenx)
        } else {
            (Axis::X, Span::ViewX, lenx, Axis::Y, Span::ViewY, leny)
        };
        match &t.val {
            Val::Num(None) | Val::List => {
                let ht = Tick::Centre { span: hs, offset: slice, steps: hn };
                let e2 = specialize(&data.func, hv, ht);
                let h = coord(ht);
                let (o, xs) = sweep_line(&e2, sv, ss, sn, coord, eval);
                let r = draw_slice(t, h, &o, &xs);
                assert(swept_line(&e2, sv, ss, sn, *coord, *eval, o@, xs@));
                assert(hv == held_var(view_x) && ht == held_tick(view_x, slice, lenx, leny));
                assert((sv, ss, sn) == slice_sweep(view_x, lenx, leny));
                assert(call_ensures(*specialize, (&data.func, held_var(view_x), held_tick(view_x, slice, lenx, leny)), e2));
                assert(call_ensures(*coord, (held_tick(view_x, slice, lenx, leny),), h));
                assert(drawn_of(r) == render_slice(data.graph_type, h, o@, xs@));
                assert(swept_line(&e2, slice_sweep(view_x, lenx, leny).0, slice_sweep(view_x, lenx, leny).1, slice_sweep(view_x, lenx, leny).2, *coord, *eval, o@, xs@));
                assert(is_sliced(data.graph_type));
                r
            },
            _ => {
                let o: Vec<Outcome> = Vec::new();
                let xs: Vec<u64> = Vec::new();
                draw_slice(t, 0, &o, &xs)
            },
        }
    }
}

/// Every series of `d` has `m` entries; every lane of a list has `m` entries.
pub open spec fn aligned(d: Drawn, m: int) -> bool {
    match d {
        Drawn::Width(v) => v.len() == m,
        Drawn::Width3D(v) => v.len() == m,
        Drawn::Coord(v) => v.len() == m,
        Drawn::Coord3D(v) => v.len() == m,
        Drawn::List2D(l) => forall|k: int| 0 <= k < l.len() ==> (#[trigger] l[k]).len() == m,
        Drawn::List3D(l) => forall|k: int| 0 <= k < l.len() ==> (#[trigger] l[k]).len() == m,
        Drawn::Constant(_, _) | Drawn::Point(_, _) => true,
    }
}

/// Sampling a varying plot along a line of `n` steps gives series of exactly
/// `n + 1` entries: one per tick, failed evaluations included; a multi-valued
/// plot gives lanes of `n + 1` entries each.
pub proof fn line_samples_are_aligned<E, C: Fn(Tick) -> u64, V: Fn(&E, Axis, Tick) -> Outcome>(
    data: Plot<E>,
    span: Span,
    n: usize,
    coord: C,
    eval: V,
    r: Option<(Output, bool)>,
)
    requires
        line_result(data, span, n, coord, eval, r),
        is_swept(data.graph_type),
        r is Some,
    ensures
        aligned((r->0).0@, n + 1),
{
    let (o, xs) = choose|o: Seq<Outcome>, xs: Seq<u64>|
        #[trigger] swept_line(&data.func, line_var(data.graph_type), span, n, coord, eval, o, xs)
            && drawn_of(r) == render_line(data.graph_type, o, xs);
    assert(o.len() == n + 1);
}

proof fn lemma_joined_len<A>(rows: Seq<Seq<A>>, w: int)
    requires
        forall|j: int| 0 <= j < rows.len() ==> (#[trigger] rows[j]).len() == w,
    ensures
        joined(rows).len() == rows.len() * w,
    decreases rows.len(),
{
    if rows.len() > 0 {
        lemma_joined_len(rows.drop_last(), w);
        assert(joined(rows).len() == (rows.len() - 1) * w + w);
        assert((rows.len() - 1) * w + w == rows.len() * w) by (nonlinear_arith);
    }
}

/// Sampling a varying plot over a grid of `nx` by `ny` steps gives series of
/// exactly `(nx + 1) * (ny + 1)` entries, lanes included.
pub proof fn grid_samples_are_aligned<
    E,
    C: Fn(Tick) -> u64,
    S: Fn(&E, Axis, Tick) -> E,
    V: Fn(&E, Axis, Tick) -> Outcome,
>(
    data: Plot<E>,
    spans: (Span, Span),
    nx: usize,
    ny: usize,
    coord: C,
    specialize: S,
    eval: V,
    r: Option<(Output, bool)>,
)
    requires
        grid_result(data, spans, nx, ny, coord, specialize, eval, r),
        is_swept(data.graph_type),
        r is Some,
    ensures
        aligned((r->0).0@, (nx + 1) * (ny + 1)),
{
    let (rows_e, o, xs, ys) = choose|rows_e: Seq<E>, o: Seq<Seq<Outcome>>, xs: Seq<u64>, ys: Seq<u64>|
        #[trigger] swept_grid(&data.func, spans, nx, ny, coord, specialize, eval, rows_e, o, xs, ys)
            && drawn_of(r) == render_grid(data.graph_type, o, xs, ys);
    let w = nx + 1;
    assert(w * (ny + 1) == (nx + 1) * (ny + 1)) by (nonlinear_arith)
        requires
            w == nx + 1,
    ;
    assert(o.len() * w == (nx + 1) * (ny + 1)) by (nonlinear_arith)
        requires
            w == nx + 1,
            o.len() == ny + 1,
    ;
    match data.graph_type.val {
        Val::Num(None) => {
            let m = o.map_values(|row: Seq<Outcome>| row.map_values(|x: Outcome| crate::draw::num_sample(x)));
            lemma_joined_len(m, w);
        },
        Val::Vector(None) => {
            let m = o.map_values(|row: Seq<Outcome>| row.map_values(|x: Outcome| crate::draw::pair_sample(x)));
            lemma_joined_len(m, w);
        },
        Val::Vector3D => {
            let m = o.map_values(|row: Seq<Outcome>| row.map_values(|x: Outcome| crate::draw::triple_sample(x)));
            lemma_joined_len(m, w);
        },
        Val::List => {
            let m = Seq::new(
                o.len(),
                |j: int| Seq::new(o[j].len(), |i: int| crate::draw::list_outputs(o[j][i], (xs[i], ys[j]))),
            );
            lemma_joined_len(m, w);
        },
        _ => {},
    }
}

/// The integer square root: the largest `r` with `r * r <= n`.
pub fn isqrt(n: usize) -> (r: usize)
    ensures
        r * r <= n < (r + 1) * (r + 1),
        r <= n,
{
    let mut r: usize = 0;
    while r < n && r + 1 <= n / (r + 1)
        invariant
            r * r <= n,
            r <= n,
        decreases n - r,
    {
        proof {
            let q: int = r + 1;
            let m: int = n as int;
            assert(q * q <= m) by (nonlinear_arith)
                requires
                    q <= m / q,
                    q > 0,
            ;
            assert(r < m) by (nonlinear_arith)
                requires
                    q * q <= m,
                    q == r + 1,
            ;
        }
        r += 1;
    }
    proof {
        let q: int = r + 1;
        let m: int = n as int;
        if r < n {
            assert(m < q * q) by (nonlinear_arith)
                requires
                    q > m / q,
                    q > 0,
            ;
        } else {
            assert(m < q * q) by (nonlinear_arith)
                requires
                    q == m + 1,
                    m >= 0,
            ;
        }
    }
    r
}

} // verus!
