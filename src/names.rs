//! Display metadata for the renderer: which parts of each plot's values to show.
use crate::draw::{Drawn, Output};
use crate::lanes::views;
use crate::value::Complex;
use vstd::prelude::*;

verus! {

broadcast use vstd::std_specs::vec::vec_clone_deep_view_proof;

/// Which parts of a plot's values the renderer shows.
#[derive(Clone, Copy, Debug, PartialEq, Eq, Structural)]
pub enum Show {
    Real,
    Imag,
    Complex,
    Absent,
}

/// A plot's display name, the variables bound with it, and what to show of it.
#[derive(Clone, Debug)]
pub struct Name {
    pub name: String,
    pub show: Show,
    pub vars: Vec<String>,
}

pub open spec fn real_in<P>(s: Seq<(P, Complex)>) -> bool {
    exists|k: int| 0 <= k < s.len() && (#[trigger] s[k]).1.shows_real()
}

pub open spec fn imag_in<P>(s: Seq<(P, Complex)>) -> bool {
    exists|k: int| 0 <= k < s.len() && (#[trigger] s[k]).1.shows_imag()
}

pub open spec fn real_in_plain(s: Seq<Complex>) -> bool {
    exists|k: int| 0 <= k < s.len() && (#[trigger] s[k]).shows_real()
}

pub open spec fn imag_in_plain(s: Seq<Complex>) -> bool {
    exists|k: int| 0 <= k < s.len() && (#[trigger] s[k]).shows_imag()
}

pub open spec fn real_in_lanes<P>(l: Seq<Seq<(P, Complex)>>) -> bool {
    exists|k: int| 0 <= k < l.len() && real_in(#[trigger] l[k])
}

pub open spec fn imag_in_lanes<P>(l: Seq<Seq<(P, Complex)>>) -> bool {
    exists|k: int| 0 <= k < l.len() && imag_in(#[trigger] l[k])
}

/// Whether an output carries real parts, and whether it carries imaginary parts.
pub open spec fn parts_of(d: Drawn) -> (bool, bool) {
    match d {
        Drawn::Width(v) => (real_in_plain(v), imag_in_plain(v)),
        Drawn::Width3D(v) => (real_in_plain(v), imag_in_plain(v)),
        Drawn::Coord(v) => (real_in(v), imag_in(v)),
        Drawn::Coord3D(v) => (real_in(v), imag_in(v)),
        Drawn::Constant(c, _) => (c.shows_real(), c.shows_imag()),
        Drawn::Point(_, _) => (true, false),
        Drawn::List2D(l) => (real_in_lanes(l), imag_in_lanes(l)),
        Drawn::List3D(l) => (real_in_lanes(l), imag_in_lanes(l)),
    }
}

pub open spec fn show_of(p: (bool, bool)) -> Show {
    if p.0 && p.1 {
        Show::Complex
    } else if p.1 {
        Show::Imag
    } else {
        Show::Real
    }
}

fn find_real<P>(v: &Vec<(P, Complex)>) -> (r: bool)
    ensures
        r == real_in(v@),
{
    let mut k: usize = 0;
    while k < v.len()
        invariant
            k <= v.len(),
            forall|j: int| 0 <= j < k ==> !(#[trigger] v@[j]).1.shows_real(),
        decreases v.len() - k,
    {
        if v[k].1.has_real_channel() {
            assert(v@[k as int].1.shows_real());
            return true;
        }
        k += 1;
    }
    false
}

fn find_imag<P>(v: &Vec<(P, Complex)>) -> (r: bool)
    ensures
        r == imag_in(v@),
{
    let mut k: usize = 0;
    while k < v.len()
        invariant
            k <= v.len(),
            forall|j: int| 0 <= j < k ==> !(#[trigger] v@[j]).1.shows_imag(),
        decreases v.len() - k,
    {
        if v[k].1.has_imag_channel() {
            assert(v@[k as int].1.shows_imag());
            return true;
        }
        k += 1;
    }
    false
}

fn find_real_plain(v: &Vec<Complex>) -> (r: bool)
    ensures
        r == real_in_plain(v@),
{
    let mut k: usize = 0;
    while k < v.len()
        invariant
            k <= v.len(),
            forall|j: int| 0 <= j < k ==> !(#[trigger] v@[j]).shows_real(),
        decreases v.len() - k,
    {
        if v[k].has_real_channel() {
            assert(v@[k as int].shows_real());
            return true;
        }
        k += 1;
    }
    false
}

fn find_imag_plain(v: &Vec<Complex>) -> (r: bool)
    ensures
        r == imag_in_plain(v@),
{
    let mut k: usize = 0;
    while k < v.len()
        invariant
            k <= v.len(),
            forall|j: int| 0 <= j < k ==> !(#[trigger] v@[j]).shows_imag(),
        decreases v.len() - k,
    {
        if v[k].has_imag_channel() {
            assert(v@[k as int].shows_imag());
            return true;
        }
        k += 1;
    }
    false
}

fn lanes_parts<P>(l: &Vec<Vec<(P, Complex)>>) -> (r: (bool, bool))
    ensures
        r == (real_in_lanes(views(l@)), imag_in_lanes(views(l@))),
{
    let ghost v = views(l@);
    let mut re = false;
    let mut im = false;
    let mut k: usize = 0;
    while k < l.len()
        invariant
            k <= l.len(),
            v == views(l@),
            re == exists|j: int| 0 <= j < k && real_in(#[trigger] v[j]),
            im == exists|j: int| 0 <= j < k && imag_in(#[trigger] v[j]),
        decreases l.len() - k,
    {
        let a = find_real(&l[k]);
        let b = find_imag(&l[k]);
        proof {
            assert(v[k as int] == l@[k as int]@);
            if a {
                assert(real_in(v[k as int]));
            }
            if b {
                assert(imag_in(v[k as int]));
            }
            if !re && !a {
                assert forall|j: int| 0 <= j < k + 1 implies !real_in(#[trigger] v[j]) by {}
            }
            if !im && !b {
                assert forall|j: int| 0 <= j < k + 1 implies !imag_in(#[trigger] v[j]) by {}
            }
        }
        re = re || a;
        im = im || b;
        k += 1;
    }
    (re, im)
}

/// Whether an output carries real parts, and whether it carries imaginary parts.
pub fn ri(data: &Output) -> (r: (bool, bool))
    ensures
        r == parts_of(data@),
{
    match data {
        Output::Width(v) => (find_real_plain(v), find_imag_plain(v)),
        Output::Width3D(v) => (find_real_plain(v), find_imag_plain(v)),
        Output::Coord(v) => (find_real(v), find_imag(v)),
        Output::Coord3D(v) => (find_real(v), find_imag(v)),
        Output::Constant(c, _) => (c.has_real_channel(), c.has_imag_channel()),
        Output::Point(_, _) => (true, false),
        Output::List2D(l) => lanes_parts(l),
        Output::List3D(l) => lanes_parts(l),
    }
}

/// Pairs each display name with the output at the same position and says which
/// parts of it to show: both, imaginary only, or real only; `Show::Absent` where
/// there is no output for it.
pub fn get_names(graph: &Vec<Output>, names: &Vec<(Vec<String>, String)>) -> (r: Vec<Name>)
    ensures
        r@.len() == names@.len(),
        forall|k: int|
            0 <= k < r@.len() ==> (#[trigger] r@[k]).show == if k < graph@.len() {
                show_of(parts_of(graph@[k]@))
            } else {
                Show::Absent
            } && r@[k].name@ == names@[k].1@ && r@[k].vars.deep_view() == names@[k].0.deep_view(),
{
    let mut r: Vec<Name> = Vec::with_capacity(names.len());
    let mut k: usize = 0;
    while k < names.len()
        invariant
            k <= names.len(),
            r@.len() == k,
            forall|j: int|
                0 <= j < k ==> (#[trigger] r@[j]).show == if j < graph@.len() {
                    show_of(parts_of(graph@[j]@))
                } else {
                    Show::Absent
                } && r@[j].name@ == names@[j].1@ && r@[j].vars.deep_view() == names@[j].0.deep_view(),
        decreases names.len() - k,
    {
        let show = if k < graph.len() {
            let (re, im) = ri(&graph[k]);
            if re && im {
                Show::Complex
            } else if im {
                Show::Imag
            } else {
                Show::Real
            }
        } else {
            Show::Absent
        };
        let (vars, name) = &names[k];
        r.push(Name { name: name.clone(), show, vars: vars.clone() });
        k += 1;
    }
    r
}

} // verus!
