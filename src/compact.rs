//! The batch decision that turns a sampled series of (real, imaginary) pairs into
//! one representation for the whole series.
use crate::value::{is_finite, is_zero, zero, finite, Complex, Sample, ZERO};
use vstd::prelude::*;

verus! {

/// Which parts of each sample a series keeps.
#[derive(Clone, Copy, Debug, PartialEq, Eq, Structural)]
pub enum Channel {
    Real,
    Imag,
    Both,
}

/// Some sample of `s` has a finite non-zero imaginary part.
pub open spec fn any_imag(s: Seq<Sample>) -> bool {
    exists|k: int| 0 <= k < s.len() && (#[trigger] s[k]).has_imag()
}

/// Every sample of `s` has a real part that is zero or not finite.
pub open spec fn all_real_void(s: Seq<Sample>) -> bool {
    forall|k: int| 0 <= k < s.len() ==> (#[trigger] s[k]).real_is_void()
}

/// The representation of a whole series: real only unless some sample is complex;
/// then imaginary only where no real part carries anything, else both parts.
pub open spec fn channel_of(s: Seq<Sample>) -> Channel {
    if !any_imag(s) {
        Channel::Real
    } else if all_real_void(s) {
        Channel::Imag
    } else {
        Channel::Both
    }
}

pub open spec fn project(s: Sample, c: Channel) -> Complex {
    match c {
        Channel::Real => Complex::Real(s.re),
        Channel::Imag => Complex::Imag(s.im),
        Channel::Both => Complex::Complex(s.re, s.im),
    }
}

/// A series in the representation its channel calls for.
pub open spec fn compacted(s: Seq<Sample>) -> Seq<Complex> {
    s.map_values(|x: Sample| project(x, channel_of(s)))
}

/// The samples of a keyed series.
pub open spec fn samples_of<P>(s: Seq<(P, Sample)>) -> Seq<Sample> {
    s.map_values(|e: (P, Sample)| e.1)
}

/// A keyed series in the representation its samples call for; keys are kept.
pub open spec fn compacted_keyed<P>(s: Seq<(P, Sample)>) -> Seq<(P, Complex)> {
    s.map_values(|e: (P, Sample)| (e.0, project(e.1, channel_of(samples_of(s)))))
}

/// A series read back as samples.
pub open spec fn expanded(s: Seq<Complex>) -> Seq<Sample> {
    s.map_values(|c: Complex| c.parts_spec())
}

fn project_one(s: Sample, c: Channel) -> (r: Complex)
    ensures
        r == project(s, c),
{
    match c {
        Channel::Real => Complex::Real(s.re),
        Channel::Imag => Complex::Imag(s.im),
        Channel::Both => Complex::Complex(s.re, s.im),
    }
}

/// The channel of a series given by `at`, over the first `len` positions.
fn channel_by<F: Fn(usize) -> Sample>(len: usize, at: &F, s: Ghost<Seq<Sample>>) -> (c: Channel)
    requires
        s@.len() == len,
        forall|k: usize| k < len ==> call_requires(*at, (k,)),
        forall|k: usize, r: Sample| k < len && call_ensures(*at, (k,), r) ==> r == s@[k as int],
    ensures
        c == channel_of(s@),
{
    let mut imag = false;
    let mut void = true;
    let mut k: usize = 0;
    while k < len
        invariant
            k <= len,
            s@.len() == len,
            forall|j: usize| j < len ==> call_requires(*at, (j,)),
            forall|j: usize, r: Sample| j < len && call_ensures(*at, (j,), r) ==> r == s@[j as int],
            imag == any_imag(s@.subrange(0, k as int)),
            void == all_real_void(s@.subrange(0, k as int)),
        decreases len - k,
    {
        let x = at(k);
        proof {
            let a = s@.subrange(0, k as int);
            let b = s@.subrange(0, k as int + 1);
            assert(b =~= a.push(s@[k as int]));
            if any_imag(a) {
                let w = choose|j: int| 0 <= j < a.len() && (#[trigger] a[j]).has_imag();
                assert(b[w] == a[w]);
            }
            if any_imag(b) && !x.has_imag() {
                let w = choose|j: int| 0 <= j < b.len() && (#[trigger] b[j]).has_imag();
                assert(w < a.len());
                assert(a[w] == b[w]);
            }
            if x.has_imag() {
                assert(b[k as int] == x);
            }
            if all_real_void(b) {
                assert forall|j: int| 0 <= j < a.len() implies (#[trigger] a[j]).real_is_void() by {
                    assert(b[j] == a[j]);
                }
                assert(b[k as int] == x);
            }
        }
        imag = imag || x.has_imag_part();
        void = void && x.real_part_is_void();
        k += 1;
    }
    assert(s@.subrange(0, len as int) =~= s@);
    if !imag {
        Channel::Real
    } else if void {
        Channel::Imag
    } else {
        Channel::Both
    }
}

/// Compacts a sampled series: the flag tells whether any sample has a finite
/// non-zero imaginary part; the series is then given as real parts only (not
/// complex), imaginary parts only (complex, and no real part carries anything),
/// or both parts.
pub fn compact(graph: Vec<Sample>) -> (r: (Vec<Complex>, bool))
    ensures
        r.0@ == compacted(graph@),
        r.1 == any_imag(graph@),
{
    let g = &graph;
    let c = channel_by(graph.len(), &(|k: usize| -> (r: Sample)
        requires
            k < g.len(),
        ensures
            r == g@[k as int],
        { g[k] }), Ghost(graph@));
    let mut out: Vec<Complex> = Vec::with_capacity(graph.len());
    let mut k: usize = 0;
    while k < graph.len()
        invariant
            k <= graph.len(),
            c == channel_of(graph@),
            out@.len() == k,
            forall|j: int| 0 <= j < k ==> out@[j] == project(graph@[j], c),
        decreases graph.len() - k,
    {
        out.push(project_one(graph[k], c));
        k += 1;
    }
    assert(out@ =~= compacted(graph@));
    (out, c != Channel::Real)
}

/// Compacts a keyed series; the keys (coordinates) are kept as they are.
pub fn compact_keyed<P: Copy>(graph: Vec<(P, Sample)>) -> (r: (Vec<(P, Complex)>, bool))
    ensures
        r.0@ == compacted_keyed(graph@),
        r.1 == any_imag(samples_of(graph@)),
{
    let g = &graph;
    let ghost s = samples_of(graph@);
    let c = channel_by(graph.len(), &(|k: usize| -> (r: Sample)
        requires
            k < g.len(),
        ensures
            r == samples_of(g@)[k as int],
        { g[k].1 }), Ghost(s));
    let mut out: Vec<(P, Complex)> = Vec::with_capacity(graph.len());
    let mut k: usize = 0;
    while k < graph.len()
        invariant
            k <= graph.len(),
            c == channel_of(samples_of(graph@)),
            out@.len() == k,
            forall|j: int| 0 <= j < k ==> out@[j] == (graph@[j].0, project(graph@[j].1, c)),
        decreases graph.len() - k,
    {
        let e = graph[k];
        out.push((e.0, project_one(e.1, c)));
        k += 1;
    }
    assert(out@ =~= compacted_keyed(graph@));
    (out, c != Channel::Real)
}

/// Compacts a series of points of a plane curve (parameter, value).
pub fn compact_coord(graph: Vec<(u64, Sample)>) -> (r: (Vec<(u64, Complex)>, bool))
    ensures
        r.0@ == compacted_keyed(graph@),
        r.1 == any_imag(samples_of(graph@)),
{
    compact_keyed(graph)
}

/// Compacts a series of points of a space curve or surface ((x, y), value).
pub fn compact_coord3d(graph: Vec<((u64, u64), Sample)>) -> (r: (
    Vec<((u64, u64), Complex)>,
    bool,
))
    ensures
        r.0@ == compacted_keyed(graph@),
        r.1 == any_imag(samples_of(graph@)),
{
    compact_keyed(graph)
}

pub open spec fn constant_of(c: Sample) -> Complex {
    let re0 = is_zero(c.re) && is_finite(c.re);
    let im0 = is_zero(c.im) && is_finite(c.im);
    if re0 && im0 {
        Complex::Real(ZERO)
    } else if im0 {
        Complex::Real(c.re)
    } else if re0 {
        Complex::Imag(c.im)
    } else {
        Complex::Complex(c.re, c.im)
    }
}

/// The representation of a single constant: the parts that are not exactly zero.
pub fn compact_constant(c: Sample) -> (r: Complex)
    ensures
        r == constant_of(c),
{
    let re0 = zero(c.re) && finite(c.re);
    let im0 = zero(c.im) && finite(c.im);
    if re0 && im0 {
        Complex::Real(ZERO)
    } else if im0 {
        Complex::Real(c.re)
    } else if re0 {
        Complex::Imag(c.im)
    } else {
        Complex::Complex(c.re, c.im)
    }
}

/// One sample with a finite non-zero imaginary part flags the whole series as
/// complex, and then no sample keeps its real part alone.
pub proof fn one_complex_sample_flags_series(s: Seq<Sample>, k: int)
    requires
        0 <= k < s.len(),
        s[k].has_imag(),
    ensures
        any_imag(s),
        forall|j: int| 0 <= j < s.len() ==> !(#[trigger] compacted(s)[j] is Real),
{
}

/// Compaction is idempotent: compacting a compacted series, read back as samples,
/// gives the same representation and the same complex flag.
pub proof fn compaction_is_idempotent(s: Seq<Sample>)
    ensures
        compacted(expanded(compacted(s))) == compacted(s),
        any_imag(expanded(compacted(s))) == any_imag(s),
{
    let c = channel_of(s);
    let t = expanded(compacted(s));
    assert(is_zero(ZERO) && is_finite(ZERO)) by (bit_vector);
    assert(t.len() == s.len());
    if c == Channel::Both {
        assert forall|k: int| 0 <= k < s.len() implies t[k] == s[k] by {}
        assert(t =~= s);
    } else if c == Channel::Real {
        assert forall|k: int| 0 <= k < t.len() implies !(#[trigger] t[k]).has_imag() by {}
        assert(channel_of(t) == Channel::Real);
        assert(compacted(t) =~= compacted(s));
    } else {
        assert forall|k: int| 0 <= k < t.len() implies (#[trigger] t[k]).has_imag() == s[k].has_imag()
            && t[k].real_is_void() by {}
        let w = choose|k: int| 0 <= k < s.len() && (#[trigger] s[k]).has_imag();
        assert(t[w].has_imag());
        assert(any_imag(t));
        assert(all_real_void(t));
        assert(channel_of(t) == Channel::Imag);
        assert(compacted(t) =~= compacted(s));
    }
}

} // verus!
