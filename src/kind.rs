//! What a plot is: the shape of its expression's result, decided once from a
//! probe evaluation and never revisited while sampling.
use crate::compact::{compact_constant, constant_of};
use crate::value::{Complex, Sample};
use vstd::prelude::*;

verus! {

/// What the evaluator returned for one evaluation.
#[derive(Clone, Debug)]
pub enum Outcome {
    Num(Sample),
    Vector(Vec<Sample>),
    Matrix(Vec<Vec<Sample>>),
    Failed,
}

/// Which free axes an expression uses, and whether it is meant as a graph of them.
#[derive(Clone, Copy, Debug, PartialEq, Eq, Structural)]
pub struct Roles {
    pub graph: bool,
    pub x: bool,
    pub y: bool,
}

/// A literal point set: points of the plane, or of space.
#[derive(Clone, Debug)]
pub enum Mat {
    D2(Vec<(u64, u64)>),
    D3(Vec<(u64, u64, u64)>),
}

/// The shape of a plot's values.
#[derive(Clone, Debug)]
pub enum Val {
    /// A number: constant (value given) or a function of the free axes.
    Num(Option<Complex>),
    /// A point of the plane: constant (given) or a curve of a parameter.
    Vector(Option<(u64, u64)>),
    /// A curve in space.
    Vector3D,
    /// A literal point set.
    Matrix(Mat),
    /// A varying number of outputs per evaluation.
    List,
}

/// `Val` with its point sets as sequences.
pub enum Shape {
    Num(Option<Complex>),
    Vector(Option<(u64, u64)>),
    Vector3D,
    D2(Seq<(u64, u64)>),
    D3(Seq<(u64, u64, u64)>),
    List,
}

impl View for Val {
    type V = Shape;

    open spec fn view(&self) -> Shape {
        match self {
            Val::Num(c) => Shape::Num(*c),
            Val::Vector(v) => Shape::Vector(*v),
            Val::Vector3D => Shape::Vector3D,
            Val::Matrix(Mat::D2(m)) => Shape::D2(m@),
            Val::Matrix(Mat::D3(m)) => Shape::D3(m@),
            Val::List => Shape::List,
        }
    }
}

impl Mat {
    pub fn is_3d(&self) -> (r: bool)
        ensures
            r == (self is D3),
    {
        match self {
            Mat::D3(_) => true,
            _ => false,
        }
    }
}

/// The classification of one plot.
#[derive(Clone, Debug)]
pub struct Type {
    pub val: Val,
    pub how: Roles,
    /// Whether the plot is drawn with its axes swapped; `None` decides from `how`.
    pub inv: Option<bool>,
}

impl Type {
    pub open spec fn inverted(&self) -> bool {
        match self.inv {
            Some(i) => i,
            None => !self.how.x && self.how.y,
        }
    }

    pub open spec fn takes_plane(&self) -> bool {
        self.how.x && self.how.y
    }

    pub open spec fn gives_space(&self) -> bool {
        match self.val {
            Val::Num(_) => self.takes_plane(),
            Val::Vector(_) => false,
            Val::Vector3D => true,
            Val::Matrix(m) => m is D3,
            Val::List => false,
        }
    }

    pub open spec fn follows_reference(&self) -> bool {
        self.val is Vector || self.val is Vector3D
    }

    /// The plot is a function of `y` drawn against the vertical axis.
    pub fn inv(&self) -> (r: bool)
        ensures
            r == self.inverted(),
    {
        if let Some(inv) = self.inv {
            inv
        } else {
            !self.how.x && self.how.y
        }
    }

    /// The plot takes both `x` and `y`.
    pub fn is_3d_i(&self) -> (r: bool)
        ensures
            r == self.takes_plane(),
    {
        self.how.x && self.how.y
    }

    /// The plot's values live in space.
    pub fn is_3d_o(&self) -> (r: bool)
        ensures
            r == self.gives_space(),
    {
        match &self.val {
            Val::Num(_) => self.is_3d_i(),
            Val::Vector(_) => false,
            Val::Vector3D => true,
            Val::Matrix(m) => m.is_3d(),
            Val::List => false,
        }
    }

    /// The plot is swept over the reference interval instead of the requested one.
    pub fn on_var(&self) -> (r: bool)
        ensures
            r == self.follows_reference(),
    {
        match self.val {
            Val::Vector(_) => true,
            Val::Vector3D => true,
            _ => false,
        }
    }
}

/// One token of a compiled expression, as far as classification reads it.
#[derive(Clone, Debug)]
pub enum Token {
    /// A call of the named function.
    Func(String),
    /// The plus-or-minus operator.
    PlusMinus,
    Other,
}

/// The functions that give several results for one input.
pub open spec fn multi_output_name(s: Seq<char>) -> bool {
    s == "cubic"@ || s == "domain_coloring_rgb"@ || s == "quadratic"@ || s == "quad"@ || s
        == "quartic"@ || s == "unity"@ || s == "solve"@ || s == "isolate"@
}

pub open spec fn multi_output(t: Token) -> bool {
    match t {
        Token::Func(s) => multi_output_name(s@),
        Token::PlusMinus => true,
        Token::Other => false,
    }
}

pub open spec fn has_multi_output(ts: Seq<Token>) -> bool {
    exists|k: int| 0 <= k < ts.len() && multi_output(#[trigger] ts[k])
}

fn same_text(a: &str, b: &str) -> (r: bool)
    ensures
        r == (a@ == b@),
{
    let n = a.unicode_len();
    if n != b.unicode_len() {
        return false;
    }
    let mut k: usize = 0;
    while k < n
        invariant
            n == a@.len() == b@.len(),
            k <= n,
            forall|j: int| 0 <= j < k ==> a@[j] == b@[j],
        decreases n - k,
    {
        if a.get_char(k) != b.get_char(k) {
            return false;
        }
        k += 1;
    }
    assert(a@ =~= b@);
    true
}

fn is_multi_output(t: &Token) -> (r: bool)
    ensures
        r == multi_output(*t),
{
    match t {
        Token::Func(s) => {
            let s = s.as_str();
            same_text(s, "cubic") || same_text(s, "domain_coloring_rgb") || same_text(s, "quadratic")
                || same_text(s, "quad") || same_text(s, "quartic") || same_text(s, "unity")
                || same_text(s, "solve") || same_text(s, "isolate")
        },
        Token::PlusMinus => true,
        Token::Other => false,
    }
}

fn any_multi_output(ts: &Vec<Token>) -> (r: bool)
    ensures
        r == has_multi_output(ts@),
{
    let mut k: usize = 0;
    while k < ts.len()
        invariant
            k <= ts.len(),
            forall|j: int| 0 <= j < k ==> !multi_output(#[trigger] ts@[j]),
        decreases ts.len() - k,
    {
        if is_multi_output(&ts[k]) {
            return true;
        }
        k += 1;
    }
    false
}

pub open spec fn is_list_spec(func: Seq<Token>, funcvar: Seq<(String, Vec<Token>)>) -> bool {
    has_multi_output(func) || exists|k: int|
        0 <= k < funcvar.len() && has_multi_output((#[trigger] funcvar[k]).1@)
}

/// A static scan: the expression, or one of the functions it defines, calls a
/// function with several results (a root solver, plus-or-minus).
pub fn is_list(func: &Vec<Token>, funcvar: &Vec<(String, Vec<Token>)>) -> (r: bool)
    ensures
        r == is_list_spec(func@, funcvar@),
{
    if any_multi_output(func) {
        return true;
    }
    let mut k: usize = 0;
    while k < funcvar.len()
        invariant
            k <= funcvar.len(),
            !has_multi_output(func@),
            forall|j: int| 0 <= j < k ==> !has_multi_output((#[trigger] funcvar@[j]).1@),
        decreases funcvar.len() - k,
    {
        if any_multi_output(&funcvar[k].1) {
            return true;
        }
        k += 1;
    }
    false
}

/// Rows all as long as the first, and that length is 2 or 3.
pub open spec fn point_rows(m: Seq<Vec<Sample>>) -> bool {
    m.len() > 0 && (m[0]@.len() == 2 || m[0]@.len() == 3) && forall|r: int|
        0 <= r < m.len() ==> (#[trigger] m[r])@.len() == m[0]@.len()
}

pub open spec fn plane_points(m: Seq<Vec<Sample>>) -> Seq<(u64, u64)> {
    Seq::new(m.len(), |r: int| (m[r]@[0].re, m[r]@[1].re))
}

pub open spec fn space_points(m: Seq<Vec<Sample>>) -> Seq<(u64, u64, u64)> {
    Seq::new(m.len(), |r: int| (m[r]@[0].re, m[r]@[1].re, m[r]@[2].re))
}

/// The classification of a probe result: the shape, and the `inv` it fixes.
pub open spec fn classified(probe: Outcome, how: Roles, from_x: bool, list: bool) -> Option<
    (Shape, Option<bool>),
> {
    match probe {
        Outcome::Num(c) => if !how.graph {
            Some((Shape::Num(Some(constant_of(c))), Some(!from_x)))
        } else {
            Some((Shape::Num(None), None))
        },
        Outcome::Vector(v) => if list {
            Some((Shape::List, None))
        } else if v@.len() == 2 && !how.graph {
            Some((Shape::Vector(Some((v@[0].re, v@[1].re))), None))
        } else if v@.len() == 2 {
            Some((Shape::Vector(None), None))
        } else if v@.len() == 3 {
            Some((Shape::Vector3D, None))
        } else {
            None
        },
        Outcome::Matrix(m) => if !how.graph && point_rows(m@) {
            if m@[0]@.len() == 2 {
                Some((Shape::D2(plane_points(m@)), None))
            } else {
                Some((Shape::D3(space_points(m@)), None))
            }
        } else {
            None
        },
        Outcome::Failed => None,
    }
}

fn rows_are_points(m: &Vec<Vec<Sample>>) -> (r: bool)
    ensures
        r == point_rows(m@),
{
    if m.len() == 0 {
        return false;
    }
    let w = m[0].len();
    if w != 2 && w != 3 {
        return false;
    }
    let mut k: usize = 0;
    while k < m.len()
        invariant
            k <= m.len(),
            m.len() > 0,
            w == m@[0]@.len(),
            forall|r: int| 0 <= r < k ==> (#[trigger] m@[r])@.len() == w,
        decreases m.len() - k,
    {
        if m[k].len() != w {
            return false;
        }
        k += 1;
    }
    true
}

/// `r` is the classification of `probe`.
pub open spec fn classifies(probe: Outcome, how: Roles, from_x: bool, list: bool, r: Option<Type>) -> bool {
    match classified(probe, how, from_x, list) {
        Some((s, inv)) => r is Some && r->0.val@ == s && r->0.inv == inv && r->0.how == how,
        None => r is None,
    }
}

/// Classification is stable: two classifications of the same probe result, with
/// the same roles and flags, agree on whether there is a plot, on its shape, on
/// its `inv` and on its roles.
pub proof fn classification_is_stable(
    probe: Outcome,
    how: Roles,
    from_x: bool,
    list: bool,
    a: Option<Type>,
    b: Option<Type>,
)
    requires
        classifies(probe, how, from_x, list, a),
        classifies(probe, how, from_x, list, b),
    ensures
        a is Some <==> b is Some,
        a is Some ==> a->0.val@ == b->0.val@ && a->0.inv == b->0.inv && a->0.how == b->0.how,
{
}

/// Classifies an expression from one probe evaluation. `how` gives the axes it
/// uses, `from_x` that its text was written `x=...`, and `list` that it calls a
/// function with several results. `None`: the result has no plottable shape.
pub fn classify(probe: &Outcome, how: Roles, from_x: bool, list: bool) -> (r: Option<Type>)
    ensures
        classifies(*probe, how, from_x, list, r),
{
    match probe {
        Outcome::Num(c) => {
            if !how.graph {
                Some(Type { val: Val::Num(Some(compact_constant(*c))), how, inv: Some(!from_x) })
            } else {
                Some(Type { val: Val::Num(None), how, inv: None })
            }
        },
        Outcome::Vector(v) => {
            if list {
                Some(Type { val: Val::List, how, inv: None })
            } else if v.len() == 2 && !how.graph {
                Some(Type { val: Val::Vector(Some((v[0].re, v[1].re))), how, inv: None })
            } else if v.len() == 2 {
                Some(Type { val: Val::Vector(None), how, inv: None })
            } else if v.len() == 3 {
                Some(Type { val: Val::Vector3D, how, inv: None })
            } else {
                None
            }
        },
        Outcome::Matrix(m) => {
            if !how.graph && rows_are_points(m) {
                let plane = m[0].len() == 2;
                let mut k: usize = 0;
                let mut d2: Vec<(u64, u64)> = Vec::new();
                let mut d3: Vec<(u64, u64, u64)> = Vec::new();
                while k < m.len()
                    invariant
                        k <= m.len(),
                        point_rows(m@),
                        plane == (m@[0]@.len() == 2),
                        plane ==> d2@.len() == k,
                        !plane ==> d3@.len() == k,
                        plane ==> forall|r: int| 0 <= r < k ==> d2@[r] == plane_points(m@)[r],
                        !plane ==> forall|r: int| 0 <= r < k ==> d3@[r] == space_points(m@)[r],
                    decreases m.len() - k,
                {
                    let row = &m[k];
                    assert(row@.len() == m@[0]@.len());
                    if plane {
                        d2.push((row[0].re, row[1].re));
                    } else {
                        d3.push((row[0].re, row[1].re, row[2].re));
                    }
                    k += 1;
                }
                if plane {
                    assert(d2@ =~= plane_points(m@));
                    Some(Type { val: Val::Matrix(Mat::D2(d2)), how, inv: None })
                } else {
                    assert(d3@ =~= space_points(m@));
                    Some(Type { val: Val::Matrix(Mat::D3(d3)), how, inv: None })
                }
            } else {
                None
            }
        },
        Outcome::Failed => None,
    }
}

} // verus!

verus! {

/// A classified plot: its compiled expression (opaque here) and its type.
#[derive(Clone, Debug)]
pub struct Plot<E> {
    pub func: E,
    pub graph_type: Type,
}

} // verus!
