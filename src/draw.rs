//! Turning the evaluator's results over a sampled domain into renderer-facing
//! series. Everything here is a function of the results alone.
use crate::compact::{any_imag, compact, compact_coord, compact_coord3d, compact_keyed, compacted, compacted_keyed, samples_of};
use crate::kind::{Mat, Outcome, Type, Val};
use crate::lanes::{fanned, views, Lanes};
use crate::value::{Complex, Sample, NAN, ZERO};
use vstd::prelude::*;

verus! {

/// A sampled plot, ready for the renderer. Numbers are binary64 bit patterns.
#[derive(Clone, Debug)]
pub enum Output {
    /// Values at the ticks of the horizontal interval.
    Width(Vec<Complex>),
    /// Values over a grid, row by row (or along a slice of it).
    Width3D(Vec<Complex>),
    /// Points of a plane curve: abscissa and value.
    Coord(Vec<(u64, Complex)>),
    /// Points in space: position and value.
    Coord3D(Vec<((u64, u64), Complex)>),
    /// A constant, and whether it is drawn against the vertical axis.
    Constant(Complex, bool),
    /// A single point of the plane.
    Point(u64, u64),
    /// Aligned lanes of plane points.
    List2D(Vec<Vec<(u64, Complex)>>),
    /// Aligned lanes of points in space.
    List3D(Vec<Vec<((u64, u64), Complex)>>),
}

/// `Output` with sequences in place of vectors.
pub enum Drawn {
    Width(Seq<Complex>),
    Width3D(Seq<Complex>),
    Coord(Seq<(u64, Complex)>),
    Coord3D(Seq<((u64, u64), Complex)>),
    Constant(Complex, bool),
    Point(u64, u64),
    List2D(Seq<Seq<(u64, Complex)>>),
    List3D(Seq<Seq<((u64, u64), Complex)>>),
}

impl View for Output {
    type V = Drawn;

    open spec fn view(&self) -> Drawn {
        match self {
            Output::Width(v) => Drawn::Width(v@),
            Output::Width3D(v) => Drawn::Width3D(v@),
            Output::Coord(v) => Drawn::Coord(v@),
            Output::Coord3D(v) => Drawn::Coord3D(v@),
            Output::Constant(c, b) => Drawn::Constant(*c, *b),
            Output::Point(x, y) => Drawn::Point(*x, *y),
            Output::List2D(l) => Drawn::List2D(views(l@)),
            Output::List3D(l) => Drawn::List3D(views(l@)),
        }
    }
}

pub open spec fn drawn_of(r: Option<(Output, bool)>) -> Option<(Drawn, bool)> {
    match r {
        Some((o, b)) => Some((o@, b)),
        None => None,
    }
}

/// The value of a number result; the missing sentinel for anything else.
pub open spec fn num_sample(o: Outcome) -> Sample {
    match o {
        Outcome::Num(s) => s,
        _ => Sample::missing_spec(),
    }
}

/// A point of a plane curve from a two-component result: first real part, second value.
pub open spec fn pair_sample(o: Outcome) -> (u64, Sample) {
    match o {
        Outcome::Vector(v) => if v@.len() == 2 {
            (v@[0].re, v@[1])
        } else {
            (NAN, Sample::missing_spec())
        },
        _ => (NAN, Sample::missing_spec()),
    }
}

/// A point of a space curve from a three-component result.
pub open spec fn triple_sample(o: Outcome) -> ((u64, u64), Sample) {
    match o {
        Outcome::Vector(v) => if v@.len() == 3 {
            ((v@[0].re, v@[1].re), v@[2])
        } else {
            ((NAN, NAN), Sample::missing_spec())
        },
        _ => ((NAN, NAN), Sample::missing_spec()),
    }
}

/// A point of a function of `y`: the result's real part, then the input as a real value.
pub open spec fn inverse_sample(o: Outcome, x: u64) -> (u64, Sample) {
    match o {
        Outcome::Num(s) => (s.re, Sample { re: x, im: ZERO }),
        _ => (NAN, Sample::missing_spec()),
    }
}

/// The outputs of one cell of a multi-valued plot, each keyed by the cell's position.
pub open spec fn list_outputs<P>(o: Outcome, key: P) -> Seq<(P, Sample)> {
    match o {
        Outcome::Vector(v) => v@.map_values(|s: Sample| (key, s)),
        _ => Seq::empty(),
    }
}

/// The outputs of one cell of a multi-valued function of `y`.
pub open spec fn inverse_outputs(o: Outcome, x: u64) -> Seq<(u64, Sample)> {
    match o {
        Outcome::Vector(v) => v@.map_values(|s: Sample| (s.re, Sample { re: x, im: ZERO })),
        _ => Seq::empty(),
    }
}

/// Rows laid end to end.
pub open spec fn joined<A>(rows: Seq<Seq<A>>) -> Seq<A>
    decreases rows.len(),
{
    if rows.len() == 0 {
        Seq::empty()
    } else {
        joined(rows.drop_last()) + rows.last()
    }
}

pub open spec fn drawn_lanes<P>(lanes: Seq<Seq<(P, Sample)>>) -> Seq<Seq<(P, Complex)>> {
    lanes.map_values(|l: Seq<(P, Sample)>| compacted_keyed(l))
}

pub open spec fn lanes_complex<P>(lanes: Seq<Seq<(P, Sample)>>) -> bool {
    exists|k: int| 0 <= k < lanes.len() && any_imag(samples_of(#[trigger] lanes[k]))
}

pub open spec fn constant_complex(c: Complex) -> bool {
    c is Complex || c is Imag
}

pub open spec fn plane_literal(m: Seq<(u64, u64)>) -> Seq<(u64, Complex)> {
    m.map_values(|p: (u64, u64)| (p.0, Complex::Real(p.1)))
}

pub open spec fn space_literal(m: Seq<(u64, u64, u64)>) -> Seq<((u64, u64), Complex)> {
    m.map_values(|p: (u64, u64, u64)| ((p.0, p.1), Complex::Real(p.2)))
}

/// The cells of a multi-valued plot over a line.
pub open spec fn line_cells(t: Type, o: Seq<Outcome>, xs: Seq<u64>) -> Seq<Seq<(u64, Sample)>> {
    if t.inverted() {
        Seq::new(o.len(), |k: int| inverse_outputs(o[k], xs[k]))
    } else {
        Seq::new(o.len(), |k: int| list_outputs(o[k], xs[k]))
    }
}

/// What a plot draws from its results `o` at the abscissas `xs` of a line.
pub open spec fn render_line(t: Type, o: Seq<Outcome>, xs: Seq<u64>) -> Option<(Drawn, bool)> {
    match t.val {
        Val::Num(Some(c)) => Some((Drawn::Constant(c, t.inverted()), constant_complex(c))),
        Val::Num(None) => if t.inverted() {
            let k = Seq::new(o.len(), |i: int| inverse_sample(o[i], xs[i]));
            Some((Drawn::Coord(compacted_keyed(k)), any_imag(samples_of(k))))
        } else {
            let s = o.map_values(|x: Outcome| num_sample(x));
            Some((Drawn::Width(compacted(s)), any_imag(s)))
        },
        Val::Vector(Some(v)) => Some((Drawn::Point(v.0, v.1), false)),
        Val::Vector(None) => {
            let k = o.map_values(|x: Outcome| pair_sample(x));
            Some((Drawn::Coord(compacted_keyed(k)), any_imag(samples_of(k))))
        },
        Val::Vector3D => {
            let k = o.map_values(|x: Outcome| triple_sample(x));
            Some((Drawn::Coord3D(compacted_keyed(k)), any_imag(samples_of(k))))
        },
        Val::List => {
            let l = fanned(line_cells(t, o, xs), NAN);
            Some((Drawn::List2D(drawn_lanes(l)), lanes_complex(l)))
        },
        Val::Matrix(Mat::D2(m)) => Some((Drawn::Coord(plane_literal(m@)), false)),
        Val::Matrix(Mat::D3(_)) => None,
    }
}

/// The cells of a multi-valued plot over a grid, row by row.
pub open spec fn grid_cells(rows: Seq<Seq<Outcome>>, xs: Seq<u64>, ys: Seq<u64>) -> Seq<
    Seq<((u64, u64), Sample)>,
> {
    joined(
        Seq::new(
            rows.len(),
            |j: int| Seq::new(rows[j].len(), |i: int| list_outputs(rows[j][i], (xs[i], ys[j]))),
        ),
    )
}

pub open spec fn map_rows<A>(rows: Seq<Seq<Outcome>>, f: spec_fn(Outcome) -> A) -> Seq<A> {
    joined(rows.map_values(|r: Seq<Outcome>| r.map_values(f)))
}

/// What a plot draws from its results over a grid: `rows[j][i]` at `(xs[i], ys[j])`.
pub open spec fn render_grid(t: Type, rows: Seq<Seq<Outcome>>, xs: Seq<u64>, ys: Seq<u64>) -> Option<
    (Drawn, bool),
> {
    match t.val {
        Val::Num(Some(c)) => Some((Drawn::Constant(c, t.inverted()), constant_complex(c))),
        Val::Num(None) => {
            let s = map_rows(rows, |x: Outcome| num_sample(x));
            Some((Drawn::Width3D(compacted(s)), any_imag(s)))
        },
        Val::Vector(Some(v)) => Some((Drawn::Point(v.0, v.1), false)),
        Val::Vector(None) => {
            let k = map_rows(rows, |x: Outcome| pair_sample(x));
            Some((Drawn::Coord(compacted_keyed(k)), any_imag(samples_of(k))))
        },
        Val::Vector3D => {
            let k = map_rows(rows, |x: Outcome| triple_sample(x));
            Some((Drawn::Coord3D(compacted_keyed(k)), any_imag(samples_of(k))))
        },
        Val::List => {
            let l = fanned(grid_cells(rows, xs, ys), (NAN, NAN));
            Some((Drawn::List3D(drawn_lanes(l)), lanes_complex(l)))
        },
        Val::Matrix(Mat::D3(m)) => Some((Drawn::Coord3D(space_literal(m@)), false)),
        Val::Matrix(Mat::D2(_)) => None,
    }
}

/// What a plot draws along a slice of a grid held at `h`: results `o` at `xs`.
pub open spec fn render_slice(t: Type, h: u64, o: Seq<Outcome>, xs: Seq<u64>) -> Option<(Drawn, bool)> {
    match t.val {
        Val::Num(Some(c)) => Some((Drawn::Constant(c, t.inverted()), constant_complex(c))),
        Val::Num(None) => {
            let s = o.map_values(|x: Outcome| num_sample(x));
            Some((Drawn::Width3D(compacted(s)), any_imag(s)))
        },
        Val::List => {
            let l = fanned(Seq::new(o.len(), |k: int| list_outputs(o[k], (h, xs[k]))), (NAN, NAN));
            Some((Drawn::List3D(drawn_lanes(l)), lanes_complex(l)))
        },
        Val::Matrix(Mat::D2(m)) => Some((Drawn::Coord(plane_literal(m@)), false)),
        _ => None,
    }
}

fn num_sample_of(o: &Outcome) -> (r: Sample)
    ensures
        r == num_sample(*o),
{
    match o {
        Outcome::Num(s) => *s,
        _ => Sample::missing(),
    }
}

fn pair_sample_of(o: &Outcome) -> (r: (u64, Sample))
    ensures
        r == pair_sample(*o),
{
    match o {
        Outcome::Vector(v) => if v.len() == 2 {
            (v[0].re, v[1])
        } else {
            (NAN, Sample::missing())
        },
        _ => (NAN, Sample::missing()),
    }
}

fn triple_sample_of(o: &Outcome) -> (r: ((u64, u64), Sample))
    ensures
        r == triple_sample(*o),
{
    match o {
        Outcome::Vector(v) => if v.len() == 3 {
            ((v[0].re, v[1].re), v[2])
        } else {
            ((NAN, NAN), Sample::missing())
        },
        _ => ((NAN, NAN), Sample::missing()),
    }
}

fn inverse_sample_of(o: &Outcome, x: u64) -> (r: (u64, Sample))
    ensures
        r == inverse_sample(*o, x),
{
    match o {
        Outcome::Num(s) => (s.re, Sample { re: x, im: ZERO }),
        _ => (NAN, Sample::missing()),
    }
}

fn outputs_of<P: Copy>(o: &Outcome, key: P) -> (r: Vec<(P, Sample)>)
    ensures
        r@ == list_outputs(*o, key),
{
    let mut r: Vec<(P, Sample)> = Vec::new();
    if let Outcome::Vector(v) = o {
        let mut k: usize = 0;
        while k < v.len()
            invariant
                k <= v.len(),
                r@.len() == k,
                forall|j: int| 0 <= j < k ==> r@[j] == (key, v@[j]),
            decreases v.len() - k,
        {
            r.push((key, v[k]));
            k += 1;
        }
        assert(r@ =~= list_outputs(*o, key));
    } else {
        assert(r@ =~= list_outputs(*o, key));
    }
    r
}

fn inverse_outputs_of(o: &Outcome, x: u64) -> (r: Vec<(u64, Sample)>)
    ensures
        r@ == inverse_outputs(*o, x),
{
    let mut r: Vec<(u64, Sample)> = Vec::new();
    if let Outcome::Vector(v) = o {
        let mut k: usize = 0;
        while k < v.len()
            invariant
                k <= v.len(),
                r@.len() == k,
                forall|j: int| 0 <= j < k ==> r@[j] == (v@[j].re, Sample { re: x, im: ZERO }),
            decreases v.len() - k,
        {
            r.push((v[k].re, Sample { re: x, im: ZERO }));
            k += 1;
        }
        assert(r@ =~= inverse_outputs(*o, x));
    } else {
        assert(r@ =~= inverse_outputs(*o, x));
    }
    r
}

fn num_samples(o: &Vec<Outcome>) -> (r: Vec<Sample>)
    ensures
        r@ == o@.map_values(|x: Outcome| num_sample(x)),
{
    let mut r: Vec<Sample> = Vec::with_capacity(o.len());
    let mut k: usize = 0;
    while k < o.len()
        invariant
            k <= o.len(),
            r@.len() == k,
            forall|j: int| 0 <= j < k ==> r@[j] == num_sample(o@[j]),
        decreases o.len() - k,
    {
        r.push(num_sample_of(&o[k]));
        k += 1;
    }
    assert(r@ =~= o@.map_values(|x: Outcome| num_sample(x)));
    r
}

fn pair_samples(o: &Vec<Outcome>) -> (r: Vec<(u64, Sample)>)
    ensures
        r@ == o@.map_values(|x: Outcome| pair_sample(x)),
{
    let mut r: Vec<(u64, Sample)> = Vec::with_capacity(o.len());
    let mut k: usize = 0;
    while k < o.len()
        invariant
            k <= o.len(),
            r@.len() == k,
            forall|j: int| 0 <= j < k ==> r@[j] == pair_sample(o@[j]),
        decreases o.len() - k,
    {
        r.push(pair_sample_of(&o[k]));
        k += 1;
    }
    assert(r@ =~= o@.map_values(|x: Outcome| pair_sample(x)));
    r
}

fn triple_samples(o: &Vec<Outcome>) -> (r: Vec<((u64, u64), Sample)>)
    ensures
        r@ == o@.map_values(|x: Outcome| triple_sample(x)),
{
    let mut r: Vec<((u64, u64), Sample)> = Vec::with_capacity(o.len());
    let mut k: usize = 0;
    while k < o.len()
        invariant
            k <= o.len(),
            r@.len() == k,
            forall|j: int| 0 <= j < k ==> r@[j] == triple_sample(o@[j]),
        decreases o.len() - k,
    {
        r.push(triple_sample_of(&o[k]));
        k += 1;
    }
    assert(r@ =~= o@.map_values(|x: Outcome| triple_sample(x)));
    r
}

/// Compacts every lane on its own; the flag tells whether any lane is complex.
pub fn compact_lanes<P: Copy>(lanes: Vec<Vec<(P, Sample)>>) -> (r: (Vec<Vec<(P, Complex)>>, bool))
    ensures
        views(r.0@) == drawn_lanes(views(lanes@)),
        r.1 == lanes_complex(views(lanes@)),
{
    let ghost l = views(lanes@);
    let mut out: Vec<Vec<(P, Complex)>> = Vec::with_capacity(lanes.len());
    let mut any = false;
    let n = lanes.len();
    let mut k: usize = 0;
    let mut src = lanes;
    // reversed once, so that popping walks the lanes in order
    let mut rev: Vec<Vec<(P, Sample)>> = Vec::with_capacity(n);
    while src.len() > 0
        invariant
            src@.len() + rev@.len() == n,
            n == l.len(),
            forall|j: int| 0 <= j < src@.len() ==> (#[trigger] src@[j])@ == l[j],
            forall|j: int| 0 <= j < rev@.len() ==> (#[trigger] rev@[j])@ == l[n - 1 - j],
        decreases src.len(),
    {
        let x = src.pop().unwrap();
        rev.push(x);
    }
    while k < n
        invariant
            k <= n,
            n == l.len(),
            rev@.len() == n - k,
            forall|j: int| 0 <= j < rev@.len() ==> (#[trigger] rev@[j])@ == l[n - 1 - j],
            out@.len() == k,
            forall|j: int| 0 <= j < k ==> (#[trigger] out@[j])@ == compacted_keyed(l[j]),
            any == exists|j: int| 0 <= j < k && any_imag(samples_of(#[trigger] l[j])),
        decreases n - k,
    {
        let x = rev.pop().unwrap();
        assert(x@ == l[k as int]);
        let (c, b) = compact_keyed(x);
        proof {
            if b {
                assert(any_imag(samples_of(l[k as int])));
            }
            if !any && !b {
                assert forall|j: int| 0 <= j < k + 1 implies !any_imag(samples_of(#[trigger] l[j])) by {}
            }
        }
        out.push(c);
        any = any || b;
        k += 1;
    }
    assert(views(out@) =~= drawn_lanes(l));
    (out, any)
}

fn plane_literal_of(m: &Vec<(u64, u64)>) -> (r: Vec<(u64, Complex)>)
    ensures
        r@ == plane_literal(m@),
{
    let mut r: Vec<(u64, Complex)> = Vec::with_capacity(m.len());
    let mut k: usize = 0;
    while k < m.len()
        invariant
            k <= m.len(),
            r@.len() == k,
            forall|j: int| 0 <= j < k ==> r@[j] == (m@[j].0, Complex::Real(m@[j].1)),
        decreases m.len() - k,
    {
        r.push((m[k].0, Complex::Real(m[k].1)));
        k += 1;
    }
    assert(r@ =~= plane_literal(m@));
    r
}

fn space_literal_of(m: &Vec<(u64, u64, u64)>) -> (r: Vec<((u64, u64), Complex)>)
    ensures
        r@ == space_literal(m@),
{
    let mut r: Vec<((u64, u64), Complex)> = Vec::with_capacity(m.len());
    let mut k: usize = 0;
    while k < m.len()
        invariant
            k <= m.len(),
            r@.len() == k,
            forall|j: int| 0 <= j < k ==> r@[j] == ((m@[j].0, m@[j].1), Complex::Real(m@[j].2)),
        decreases m.len() - k,
    {
        r.push(((m[k].0, m[k].1), Complex::Real(m[k].2)));
        k += 1;
    }
    assert(r@ =~= space_literal(m@));
    r
}

/// What a plot draws from its results `o` at the abscissas `xs` of a line.
pub fn draw_line(t: &Type, o: &Vec<Outcome>, xs: &Vec<u64>) -> (r: Option<(Output, bool)>)
    requires
        o.len() == xs.len(),
    ensures
        drawn_of(r) == render_line(*t, o@, xs@),
{
    match &t.val {
        Val::Num(Some(c)) => Some(
            (Output::Constant(*c, t.inv()), matches!(c, Complex::Complex(_, _) | Complex::Imag(_))),
        ),
        Val::Num(None) => {
            if t.inv() {
                let mut k_s: Vec<(u64, Sample)> = Vec::with_capacity(o.len());
                let mut k: usize = 0;
                while k < o.len()
                    invariant
                        k <= o.len(),
                        o.len() == xs.len(),
                        k_s@.len() == k,
                        forall|j: int| 0 <= j < k ==> k_s@[j] == inverse_sample(o@[j], xs@[j]),
                    decreases o.len() - k,
                {
                    k_s.push(inverse_sample_of(&o[k], xs[k]));
                    k += 1;
                }
                assert(k_s@ =~= Seq::new(o@.len(), |i: int| inverse_sample(o@[i], xs@[i])));
                let (a, b) = compact_coord(k_s);
                Some((Output::Coord(a), b))
            } else {
                let (a, b) = compact(num_samples(o));
                Some((Output::Width(a), b))
            }
        },
        Val::Vector(Some(v)) => Some((Output::Point(v.0, v.1), false)),
        Val::Vector(None) => {
            let (a, b) = compact_coord(pair_samples(o));
            Some((Output::Coord(a), b))
        },
        Val::Vector3D => {
            let (a, b) = compact_coord3d(triple_samples(o));
            Some((Output::Coord3D(a), b))
        },
        Val::List => {
            let inv = t.inv();
            let mut lanes: Lanes<u64> = Lanes::new(NAN);
            let mut k: usize = 0;
            while k < o.len()
                invariant
                    k <= o.len(),
                    o.len() == xs.len(),
                    inv == t.inverted(),
                    lanes.wf(),
                    lanes.pad() == NAN,
                    lanes.cells() =~= line_cells(*t, o@, xs@).take(k as int),
                decreases o.len() - k,
            {
                let cell = if inv {
                    inverse_outputs_of(&o[k], xs[k])
                } else {
                    outputs_of(&o[k], xs[k])
                };
                lanes.push(cell);
                assert(line_cells(*t, o@, xs@).take(k + 1) =~= line_cells(*t, o@, xs@).take(
                    k as int,
                ).push(cell@));
                k += 1;
            }
            assert(line_cells(*t, o@, xs@).take(o.len() as int) =~= line_cells(*t, o@, xs@));
            let (a, b) = compact_lanes(lanes.finish());
            Some((Output::List2D(a), b))
        },
        Val::Matrix(Mat::D2(m)) => Some((Output::Coord(plane_literal_of(m)), false)),
        Val::Matrix(Mat::D3(_)) => None,
    }
}

proof fn lemma_joined_take<A>(rows: Seq<Seq<A>>, j: int)
    requires
        0 <= j < rows.len(),
    ensures
        joined(rows.take(j + 1)) == joined(rows.take(j)) + rows[j],
{
    assert(rows.take(j + 1).drop_last() =~= rows.take(j));
}

/// Lays rows end to end, each first mapped by `f`.
fn join_mapped<A: Copy>(
    rows: &Vec<Vec<Outcome>>,
    f: Ghost<spec_fn(Outcome) -> A>,
    g: impl Fn(&Vec<Outcome>) -> Vec<A>,
) -> (r: Vec<A>)
    requires
        forall|row: &Vec<Outcome>| call_requires(g, (row,)),
        forall|row: &Vec<Outcome>, out: Vec<A>|
            call_ensures(g, (row,), out) ==> out@ == row@.map_values(f@),
    ensures
        r@ == map_rows(views(rows@), f@),
{
    let ghost m = views(rows@).map_values(|row: Seq<Outcome>| row.map_values(f@));
    let mut r: Vec<A> = Vec::new();
    let mut j: usize = 0;
    while j < rows.len()
        invariant
            j <= rows.len(),
            m == views(rows@).map_values(|row: Seq<Outcome>| row.map_values(f@)),
            forall|row: &Vec<Outcome>| call_requires(g, (row,)),
            forall|row: &Vec<Outcome>, out: Vec<A>|
                call_ensures(g, (row,), out) ==> out@ == row@.map_values(f@),
            r@ == joined(m.take(j as int)),
        decreases rows.len() - j,
    {
        let part = g(&rows[j]);
        let mut i: usize = 0;
        let ghost before = r@;
        while i < part.len()
            invariant
                i <= part.len(),
                r@ == before + part@.take(i as int),
            decreases part.len() - i,
        {
            r.push(part[i]);
            assert(part@.take(i + 1) =~= part@.take(i as int).push(part@[i as int]));
            i += 1;
        }
        proof {
            lemma_joined_take(m, j as int);
            assert(part@.take(part.len() as int) =~= part@);
            assert(m[j as int] == part@);
        }
        j += 1;
    }
    assert(m.take(rows.len() as int) =~= m);
    r
}

/// What a plot draws from its results over a grid: `rows[j][i]` at `(xs[i], ys[j])`.
pub fn draw_grid(t: &Type, rows: &Vec<Vec<Outcome>>, xs: &Vec<u64>, ys: &Vec<u64>) -> (r: Option<
    (Output, bool),
>)
    requires
        rows.len() == ys.len(),
        forall|j: int| 0 <= j < rows.len() ==> (#[trigger] rows@[j]).len() == xs.len(),
    ensures
        drawn_of(r) == render_grid(*t, views(rows@), xs@, ys@),
{
    match &t.val {
        Val::Num(Some(c)) => Some(
            (Output::Constant(*c, t.inv()), matches!(c, Complex::Complex(_, _) | Complex::Imag(_))),
        ),
        Val::Num(None) => {
            let s = join_mapped(rows, Ghost(|x: Outcome| num_sample(x)), |row: &Vec<Outcome>| -> (out: Vec<Sample>)
                ensures
                    out@ == row@.map_values(|x: Outcome| num_sample(x)),
                { num_samples(row) });
            let (a, b) = compact(s);
            Some((Output::Width3D(a), b))
        },
        Val::Vector(Some(v)) => Some((Output::Point(v.0, v.1), false)),
        Val::Vector(None) => {
            let s = join_mapped(rows, Ghost(|x: Outcome| pair_sample(x)), |row: &Vec<Outcome>| -> (out: Vec<(u64, Sample)>)
                ensures
                    out@ == row@.map_values(|x: Outcome| pair_sample(x)),
                { pair_samples(row) });
            let (a, b) = compact_coord(s);
            Some((Output::Coord(a), b))
        },
        Val::Vector3D => {
            let s = join_mapped(rows, Ghost(|x: Outcome| triple_sample(x)), |row: &Vec<Outcome>| -> (out: Vec<((u64, u64), Sample)>)
                ensures
                    out@ == row@.map_values(|x: Outcome| triple_sample(x)),
                { triple_samples(row) });
            let (a, b) = compact_coord3d(s);
            Some((Output::Coord3D(a), b))
        },
        Val::List => {
            let ghost rs = views(rows@);
            let ghost per_row = Seq::new(
                rs.len(),
                |j: int| Seq::new(rs[j].len(), |i: int| list_outputs(rs[j][i], (xs@[i], ys@[j]))),
            );
            let mut lanes: Lanes<(u64, u64)> = Lanes::new((NAN, NAN));
            let mut j: usize = 0;
            while j < rows.len()
                invariant
                    j <= rows.len(),
                    rows.len() == ys.len(),
                    rs == views(rows@),
                    forall|q: int| 0 <= q < rows.len() ==> (#[trigger] rows@[q]).len() == xs.len(),
                    per_row == Seq::new(
                        rs.len(),
                        |j: int| Seq::new(rs[j].len(), |i: int| list_outputs(rs[j][i], (xs@[i], ys@[j]))),
                    ),
                    lanes.wf(),
                    lanes.pad() == (NAN, NAN),
                    lanes.cells() == joined(per_row.take(j as int)),
                decreases rows.len() - j,
            {
                let row = &rows[j];
                assert(rs[j as int] == row@);
                let ghost before = lanes.cells();
                let mut i: usize = 0;
                while i < row.len()
                    invariant
                        i <= row.len(),
                        row.len() == xs.len(),
                        j < ys.len(),
                        rs[j as int] == row@,
                        lanes.wf(),
                        lanes.pad() == (NAN, NAN),
                        lanes.cells() == before + per_row[j as int].take(i as int),
                        per_row[j as int] == Seq::new(rs[j as int].len(), |i: int| list_outputs(rs[j as int][i], (xs@[i], ys@[j as int]))),
                    decreases row.len() - i,
                {
                    let cell = outputs_of(&row[i], (xs[i], ys[j]));
                    lanes.push(cell);
                    assert(per_row[j as int].take(i + 1) =~= per_row[j as int].take(i as int).push(cell@));
                    i += 1;
                }
                proof {
                    lemma_joined_take(per_row, j as int);
                    assert(per_row[j as int].take(row.len() as int) =~= per_row[j as int]);
                }
                j += 1;
            }
            assert(per_row.take(rows.len() as int) =~= per_row);
            let (a, b) = compact_lanes(lanes.finish());
            Some((Output::List3D(a), b))
        },
        Val::Matrix(Mat::D3(m)) => Some((Output::Coord3D(space_literal_of(m)), false)),
        Val::Matrix(Mat::D2(_)) => None,
    }
}

/// What a plot draws along a slice of a grid held at `h`: results `o` at `xs`.
pub fn draw_slice(t: &Type, h: u64, o: &Vec<Outcome>, xs: &Vec<u64>) -> (r: Option<(Output, bool)>)
    requires
        o.len() == xs.len(),
    ensures
        drawn_of(r) == render_slice(*t, h, o@, xs@),
{
    match &t.val {
        Val::Num(Some(c)) => Some(
            (Output::Constant(*c, t.inv()), matches!(c, Complex::Complex(_, _) | Complex::Imag(_))),
        ),
        Val::Num(None) => {
            let (a, b) = compact(num_samples(o));
            Some((Output::Width3D(a), b))
        },
        Val::List => {
            let ghost cells = Seq::new(o@.len(), |k: int| list_outputs(o@[k], (h, xs@[k])));
            let mut lanes: Lanes<(u64, u64)> = Lanes::new((NAN, NAN));
            let mut k: usize = 0;
            while k < o.len()
                invariant
                    k <= o.len(),
                    o.len() == xs.len(),
                    cells == Seq::new(o@.len(), |k: int| list_outputs(o@[k], (h, xs@[k]))),
                    lanes.wf(),
                    lanes.pad() == (NAN, NAN),
                    lanes.cells() =~= cells.take(k as int),
                decreases o.len() - k,
            {
                let cell = outputs_of(&o[k], (h, xs[k]));
                lanes.push(cell);
                assert(cells.take(k + 1) =~= cells.take(k as int).push(cell@));
                k += 1;
            }
            assert(cells.take(o.len() as int) =~= cells);
            let (a, b) = compact_lanes(lanes.finish());
            Some((Output::List3D(a), b))
        },
        Val::Matrix(Mat::D2(m)) => Some((Output::Coord(plane_literal_of(m)), false)),
        _ => None,
    }
}

} // verus!
