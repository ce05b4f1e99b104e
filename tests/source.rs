use kalc_plot::draw::Output;
use kalc_plot::kind::{Mat, Outcome, Roles, Token, Val};
use kalc_plot::registry::{Data, Request};
use kalc_plot::sampler::{Axis, Span, Tick};
use kalc_plot::source::{init, take_vars, Compiled};
use kalc_plot::text::{source_text, split_text};
use kalc_plot::value::{Complex, Sample};
use std::cell::RefCell;

#[derive(Clone, Copy, Debug, PartialEq)]
enum Fx {
    Square,
    Sine,
    Pair,
    Cloud,
    Roots,
}

fn run(f: Fx, x: f64) -> Outcome {
    let n = |v: f64| Sample { re: v.to_bits(), im: 0f64.to_bits() };
    match f {
        Fx::Square => Outcome::Num(n(x * x)),
        Fx::Sine => Outcome::Num(n(x.sin())),
        Fx::Pair => Outcome::Vector(vec![n(1.0), n(2.0)]),
        Fx::Cloud => Outcome::Matrix(vec![vec![n(1.0), n(2.0), n(3.0)]]),
        Fx::Roots => Outcome::Vector(vec![n(x), n(-x)]),
    }
}

/// A tiny compiler for the expressions the tests use.
fn compile(t: &String) -> Option<Compiled<(Fx, f64)>> {
    let graph_x = Roles { graph: true, x: true, y: false };
    let none = Roles { graph: false, x: false, y: false };
    let (f, how, tokens) = match t.as_str() {
        "(x^2)" => (Fx::Square, graph_x, vec![Token::Other]),
        "(sin(x))" => (Fx::Sine, graph_x, vec![Token::Func("sin".to_string())]),
        "({1,2})" => (Fx::Pair, none, vec![Token::Other]),
        "({{1,2,3}})" => (Fx::Cloud, none, vec![Token::Other]),
        "(±x)" => (Fx::Roots, graph_x, vec![Token::PlusMinus]),
        _ => return None,
    };
    Some(Compiled { func: (f, 0.0), how, tokens, var_tokens: Vec::new() })
}

fn probe(e: &(Fx, f64), _: Roles) -> Outcome {
    run(e.0, 0.0)
}

fn at(t: Tick, lo: f64, hi: f64) -> f64 {
    match t {
        Tick::Step { index, steps, .. } => lo + index as f64 * (hi - lo) / steps as f64,
        Tick::Centre { offset, steps, .. } => lo + (offset as f64 + steps as f64 / 2.0) * (hi - lo) / steps as f64,
    }
}

fn views(v: &[String]) -> Vec<&str> {
    v.iter().map(|s| s.as_str()).collect()
}

#[test]
fn split_keeps_empty_pieces() {
    assert_eq!(views(&split_text("a#b##c", '#')), vec!["a", "b", "", "c"]);
    assert_eq!(views(&split_text("", '#')), vec![""]);
    assert_eq!(views(&split_text("é;ü", ';')), vec!["é", "ü"]);
}

#[test]
fn directives_come_before_the_expression() {
    let (vars, body) = take_vars("a=2;b=3;a*x+b");
    assert_eq!(views(&vars), vec!["a=2", "b=3"]);
    assert_eq!(body, "a*x+b");
    let (vars, body) = take_vars("x^2");
    assert!(vars.is_empty());
    assert_eq!(body, "x^2");
}

#[test]
fn source_text_from_names() {
    let names = vec![
        (vec!["a=1".to_string(), "".to_string()], "a*x".to_string()),
        (vec!["b=2".to_string()], "".to_string()),
        (Vec::new(), "y=x".to_string()),
        (Vec::new(), "".to_string()),
        (vec!["c=3".to_string()], "c".to_string()),
    ];
    assert_eq!(source_text(&names, &Vec::new()), "a=1;a*x#b=2;y=x#c=3;c");
    // positions: a=1 0, "" 1, name 2, b=2 3, name 4, name 5, name 6, c=3 7
    assert_eq!(source_text(&names, &vec![0, 7]), "a*x#b=2;y=x#c");
    assert_eq!(source_text(&Vec::new(), &Vec::new()), "");
}

#[test]
fn init_classifies_each_segment() {
    let applied = RefCell::new(Vec::new());
    let apply = |d: &String| applied.borrow_mut().push(d.clone());
    let (data, names, how) = init("k=1;x^2#oops#{1,2}#x=sin(x)", &apply, &compile, &probe).unwrap();
    assert_eq!(data.len(), 4);
    assert!(matches!(data[0].as_ref().unwrap().graph_type.val, Val::Num(None)));
    assert!(data[1].is_none());
    assert!(matches!(data[2].as_ref().unwrap().graph_type.val, Val::Vector(Some(_))));
    let sine = data[3].as_ref().unwrap();
    assert_eq!(sine.func.0, Fx::Sine);
    assert!(how.graph && how.x && !how.y);
    assert_eq!(*applied.borrow(), vec!["k=1".to_string()]);
    assert_eq!(names[0], (vec!["k=1".to_string()], "x^2".to_string()));
    assert_eq!(names[3].1, "x=sin(x)");
}

#[test]
fn init_fails_without_any_plot() {
    let apply = |_: &String| {};
    assert_eq!(init("oops#nope", &apply, &compile, &probe).err(), Some("no data"));
}

#[test]
fn literal_points_in_space_make_both_axes() {
    let apply = |_: &String| {};
    let (data, _, how) = init("{{1,2,3}}", &apply, &compile, &probe).unwrap();
    assert!(matches!(data[0].as_ref().unwrap().graph_type.val, Val::Matrix(Mat::D3(_))));
    assert!(how.x && how.y);
}

#[test]
fn plus_minus_makes_a_list() {
    let apply = |_: &String| {};
    let (data, _, _) = init("±x", &apply, &compile, &probe).unwrap();
    assert!(matches!(data[0].as_ref().unwrap().graph_type.val, Val::List));
}

fn sample_plane(text: &str, steps: usize) -> (Vec<Output>, bool, usize) {
    let apply = |_: &String| {};
    let (data, _, _) = init(text, &apply, &compile, &probe).unwrap();
    let n = data.len();
    let mut d = Data { data, blacklist: Vec::new() };
    let coord = |t: Tick| at(t, -2.0, 2.0).to_bits();
    let specialize = |e: &(Fx, f64), _: Axis, t: Tick| (e.0, at(t, -2.0, 2.0));
    let eval = |e: &(Fx, f64), _: Axis, t: Tick| run(e.0, at(t, -2.0, 2.0));
    let (out, complex) = d.update_data(Request::Plane { count: steps }, Vec::new(), None, &coord, &specialize, &eval);
    (out, complex, n)
}

fn real_values(o: &Output) -> Vec<f64> {
    match o {
        Output::Width(v) => v
            .iter()
            .map(|c| match c {
                Complex::Real(r) => f64::from_bits(*r),
                _ => panic!("not real only"),
            })
            .collect(),
        _ => panic!("expected a width series"),
    }
}

#[test]
fn parabola_and_sine_end_to_end() {
    let (out, complex, n) = sample_plane("x^2#sin(x)", 5);
    assert_eq!(n, 2);
    assert!(!complex);
    assert_eq!(out.len(), 2);
    let xs: Vec<f64> = (0..=5).map(|i| -2.0 + i as f64 * 4.0 / 5.0).collect();
    let p = real_values(&out[0]);
    let s = real_values(&out[1]);
    assert_eq!(p.len(), 6);
    for i in 0..=5 {
        assert!((p[i] - xs[i] * xs[i]).abs() < 1e-12);
        assert!((s[i] - xs[i].sin()).abs() < 1e-12);
    }
}

#[test]
fn semicolon_marks_a_directive() {
    let (out, _, n) = sample_plane("x^2;sin(x)", 5);
    assert_eq!(n, 1);
    assert_eq!(out.len(), 1);
}

#[test]
fn update_name_rebuilds_and_reclassifies() {
    let mut d: Data<(Fx, f64)> = Data { data: Vec::new(), blacklist: Vec::new() };
    let apply = |_: &String| {};
    let names = vec![(Vec::new(), "x^2".to_string()), (Vec::new(), "sin(x)".to_string())];
    let (text, new_names, is_3d) = d.update_name(&names, &Vec::new(), &apply, &compile, &probe);
    assert_eq!(text, "x^2#sin(x)");
    assert_eq!(d.data.len(), 2);
    assert_eq!(new_names.unwrap().len(), 2);
    assert!(!is_3d);
    let bad = vec![(Vec::new(), "oops".to_string())];
    let (_, none, _) = d.update_name(&bad, &Vec::new(), &apply, &compile, &probe);
    assert!(none.is_none());
    assert!(d.data.is_empty());
}

#[test]
fn span_is_passed_to_coordinates() {
    let spans = std::cell::Cell::new(0);
    let coord = |t: Tick| {
        if let Tick::Step { span: Span::Reference, .. } = t {
            spans.set(spans.get() + 1);
        }
        0
    };
    let apply = |_: &String| {};
    let (data, _, _) = init("{1,2}", &apply, &compile, &probe).unwrap();
    let d = Data { data, blacklist: Vec::new() };
    let (out, _) = d.generate_2d(3, None, &coord, &|e: &(Fx, f64), _: Axis, _: Tick| *e, &|e: &(Fx, f64), _: Axis, _: Tick| run(e.0, 0.0));
    assert!(matches!(out[0], Output::Point(_, _)));
    assert_eq!(spans.get(), 0);
}

#[test]
fn renaming_drops_hidden_slots_that_no_longer_exist() {
    let mut d: Data<(Fx, f64)> = Data { data: Vec::new(), blacklist: vec![0, 1, 5] };
    let apply = |_: &String| {};
    let names = vec![(Vec::new(), "x^2".to_string()), (Vec::new(), "sin(x)".to_string())];
    d.update_name(&names, &Vec::new(), &apply, &compile, &probe);
    assert_eq!(d.blacklist, vec![0, 1]);
}
