use kalc_plot::draw::Output;
use kalc_plot::kind::{classify, is_list, Mat, Outcome, Plot, Roles, Token, Type, Val};
use kalc_plot::lanes::Lanes;
use kalc_plot::names::{get_names, Show};
use kalc_plot::registry::{resolve_target, Data, Request, MAX_STEPS};
use kalc_plot::sampler::{isqrt, Axis, Span, Tick};
use kalc_plot::value::{Complex, Sample, NAN};

/// A test expression: a function of `x` and `y`, with the values substituted so far.
#[derive(Clone, Copy)]
struct Ex {
    f: fn(f64, f64) -> Outcome,
    x: f64,
    y: f64,
}

fn ex(f: fn(f64, f64) -> Outcome) -> Ex {
    Ex { f, x: 0.0, y: 0.0 }
}

fn num(v: f64) -> Outcome {
    Outcome::Num(Sample { re: v.to_bits(), im: 0f64.to_bits() })
}

fn cnum(re: f64, im: f64) -> Outcome {
    Outcome::Num(Sample { re: re.to_bits(), im: im.to_bits() })
}

fn vector(vs: &[f64]) -> Outcome {
    Outcome::Vector(vs.iter().map(|v| Sample { re: v.to_bits(), im: 0f64.to_bits() }).collect())
}

/// The number at a tick, with the view `[-2, 2]` on both axes and the reference interval `[0, 1]`.
fn at(t: Tick) -> u64 {
    let range = |s: Span| match s {
        Span::ViewX | Span::ViewY => (-2.0, 2.0),
        Span::Reference => (0.0, 1.0),
    };
    let v = match t {
        Tick::Step { span, index, steps } => {
            let (a, b) = range(span);
            a + index as f64 * (b - a) / steps as f64
        }
        Tick::Centre { span, offset, steps } => {
            let (a, b) = range(span);
            a + (offset as f64 + steps as f64 / 2.0) * (b - a) / steps as f64
        }
    };
    v.to_bits()
}

fn put(e: &Ex, a: Axis, t: Tick) -> Ex {
    let v = f64::from_bits(at(t));
    match a {
        Axis::X => Ex { x: v, ..*e },
        Axis::Y => Ex { y: v, ..*e },
    }
}

fn eval(e: &Ex, a: Axis, t: Tick) -> Outcome {
    let e = put(e, a, t);
    (e.f)(e.x, e.y)
}

/// A registry with no slots, to sample single plots with.
fn host() -> Data<Ex> {
    Data { data: Vec::new(), blacklist: Vec::new() }
}

fn plot(f: fn(f64, f64) -> Outcome, val: Val, x: bool, y: bool) -> Plot<Ex> {
    Plot {
        func: ex(f),
        graph_type: Type { val, how: Roles { graph: true, x, y }, inv: None },
    }
}

fn reals(v: &[Complex]) -> Vec<f64> {
    v.iter()
        .map(|c| match c {
            Complex::Real(r) => f64::from_bits(*r),
            _ => panic!("not real only"),
        })
        .collect()
}

#[test]
fn parabola_is_a_scalar_of_x() {
    let how = Roles { graph: true, x: true, y: false };
    let a = classify(&num(0.0), how, false, false).unwrap();
    let b = classify(&num(0.0), how, false, false).unwrap();
    assert!(matches!(a.val, Val::Num(None)));
    assert!(matches!(b.val, Val::Num(None)));
    assert!(a.how.x && !a.how.y);
    assert_eq!(a.inv, b.inv);
}

#[test]
fn classification_by_shape() {
    let off = Roles { graph: false, x: false, y: false };
    let on = Roles { graph: true, x: true, y: false };
    assert!(matches!(
        classify(&cnum(0.0, 2.0), off, false, false).unwrap().val,
        Val::Num(Some(Complex::Imag(_)))
    ));
    assert_eq!(classify(&num(3.0), off, true, false).unwrap().inv, Some(false));
    assert!(matches!(
        classify(&vector(&[1.0, 2.0]), off, false, false).unwrap().val,
        Val::Vector(Some((a, b))) if a == 1f64.to_bits() && b == 2f64.to_bits()
    ));
    assert!(matches!(classify(&vector(&[1.0, 2.0]), on, false, false).unwrap().val, Val::Vector(None)));
    assert!(matches!(classify(&vector(&[1.0, 2.0, 3.0]), on, false, false).unwrap().val, Val::Vector3D));
    assert!(matches!(classify(&vector(&[1.0, 2.0]), on, false, true).unwrap().val, Val::List));
    assert!(classify(&vector(&[1.0, 2.0, 3.0, 4.0]), on, false, false).is_none());
    assert!(classify(&Outcome::Failed, on, false, false).is_none());
    let rows = |w: usize| -> Outcome {
        Outcome::Matrix(vec![
            (0..w).map(|k| Sample { re: (k as f64).to_bits(), im: 0 }).collect(),
            (0..w).map(|k| Sample { re: (k as f64 + 10.0).to_bits(), im: 0 }).collect(),
        ])
    };
    match classify(&rows(3), off, false, false).unwrap().val {
        Val::Matrix(Mat::D3(m)) => assert_eq!(m[1], (10f64.to_bits(), 11f64.to_bits(), 12f64.to_bits())),
        _ => panic!("expected points in space"),
    }
    assert!(matches!(classify(&rows(2), off, false, false).unwrap().val, Val::Matrix(Mat::D2(_))));
    assert!(classify(&rows(4), off, false, false).is_none());
    assert!(classify(&rows(2), on, false, false).is_none());
}

#[test]
fn list_scan_finds_multi_output_calls() {
    let plain = vec![Token::Func("sin".to_string()), Token::Other];
    assert!(!is_list(&plain, &Vec::new()));
    assert!(is_list(&vec![Token::PlusMinus], &Vec::new()));
    assert!(is_list(&plain, &vec![("f".to_string(), vec![Token::Func("quadratic".to_string())])]));
    assert!(is_list(&vec![Token::Func("solve".to_string())], &Vec::new()));
    assert!(!is_list(&vec![Token::Func("solver".to_string())], &Vec::new()));
}

#[test]
fn lanes_pad_missing_outputs() {
    let mut l: Lanes<u64> = Lanes::new(NAN);
    for c in 0..4u64 {
        let one = (c, Sample { re: c, im: 0 });
        if c % 2 == 0 {
            l.push(vec![one, (c, Sample { re: c + 100, im: 0 })]);
        } else {
            l.push(vec![one]);
        }
    }
    let lanes = l.finish();
    assert_eq!(lanes.len(), 2);
    assert!(lanes.iter().all(|x| x.len() == 4));
    assert_eq!(lanes[1][0], (0, Sample { re: 100, im: 0 }));
    assert_eq!(lanes[1][1], (NAN, Sample::missing()));
    assert_eq!(lanes[1][3], (NAN, Sample::missing()));
    assert_eq!(lanes[0][3], (3, Sample { re: 3, im: 0 }));
}

#[test]
fn late_lane_is_backfilled() {
    let mut l: Lanes<u64> = Lanes::new(NAN);
    l.push(Vec::new());
    l.push(vec![(1, Sample { re: 5, im: 0 })]);
    let lanes = l.finish();
    assert_eq!(lanes, vec![vec![(NAN, Sample::missing()), (1, Sample { re: 5, im: 0 })]]);
}

#[test]
fn list_plot_fans_out_into_aligned_lanes() {
    // three steps over [-2, 2]: whole numbers at the ends only
    let p = plot(|x, _| if x.fract() == 0.0 { vector(&[x, -x]) } else { vector(&[x]) }, Val::List, true, false);
    let (out, complex) = host().get_2d(&p, Span::ViewX, 3, &at, &eval).unwrap();
    assert!(!complex);
    match out {
        Output::List2D(l) => {
            assert_eq!(l.len(), 2);
            assert!(l.iter().all(|lane| lane.len() == 4));
            assert_eq!(l[1][1], (NAN, Complex::Real(NAN)));
            assert_eq!(l[1][2], (NAN, Complex::Real(NAN)));
            assert_eq!(l[1][0], ((-2f64).to_bits(), Complex::Real(2f64.to_bits())));
            assert_eq!(l[1][3], (2f64.to_bits(), Complex::Real((-2f64).to_bits())));
        }
        _ => panic!("expected lanes"),
    }
}

#[test]
fn line_sweep_has_one_entry_per_tick() {
    let p = plot(|x, _| num(x * x), Val::Num(None), true, false);
    let (out, complex) = host().get_2d(&p, Span::ViewX, 4, &at, &eval).unwrap();
    assert!(!complex);
    match out {
        Output::Width(v) => assert_eq!(reals(&v), vec![4.0, 1.0, 0.0, 1.0, 4.0]),
        _ => panic!("expected a width series"),
    }
}

#[test]
fn failed_cells_become_nan() {
    let p = plot(|x, _| if x == 0.0 { Outcome::Failed } else { num(1.0 / x) }, Val::Num(None), true, false);
    let (out, _) = host().get_2d(&p, Span::ViewX, 2, &at, &eval).unwrap();
    match out {
        Output::Width(v) => {
            assert_eq!(v.len(), 3);
            assert_eq!(v[1], Complex::Real(NAN));
            assert_eq!(v[0], Complex::Real((-0.5f64).to_bits()));
        }
        _ => panic!("expected a width series"),
    }
}

#[test]
fn function_of_y_is_drawn_sideways() {
    let p = Plot {
        func: ex(|_, y| num(y + 1.0)),
        graph_type: Type { val: Val::Num(None), how: Roles { graph: true, x: false, y: true }, inv: None },
    };
    let (out, complex) = host().get_2d(&p, Span::ViewX, 2, &at, &eval).unwrap();
    assert!(!complex);
    match out {
        Output::Coord(v) => {
            assert_eq!(v.len(), 3);
            assert_eq!(v[0], ((-1f64).to_bits(), Complex::Real((-2f64).to_bits())));
            assert_eq!(v[2], (3f64.to_bits(), Complex::Real(2f64.to_bits())));
        }
        _ => panic!("expected coordinates"),
    }
}

#[test]
fn parametric_curve_and_constants() {
    let curve = plot(|x, _| vector(&[x, 2.0 * x]), Val::Vector(None), false, false);
    let (out, _) = host().get_2d(&curve, Span::Reference, 2, &at, &eval).unwrap();
    match out {
        Output::Coord(v) => assert_eq!(v[2], (1f64.to_bits(), Complex::Real(2f64.to_bits()))),
        _ => panic!("expected coordinates"),
    }
    let point = plot(|_, _| Outcome::Failed, Val::Vector(Some((1, 2))), false, false);
    assert!(matches!(host().get_2d(&point, Span::ViewX, 2, &at, &eval), Some((Output::Point(1, 2), false))));
    let c = plot(|_, _| Outcome::Failed, Val::Num(Some(Complex::Imag(5))), false, false);
    assert!(matches!(host().get_2d(&c, Span::ViewX, 2, &at, &eval), Some((Output::Constant(Complex::Imag(5), _), true))));
    let m3 = plot(|_, _| Outcome::Failed, Val::Matrix(Mat::D3(vec![(1, 2, 3)])), false, false);
    assert!(host().get_2d(&m3, Span::ViewX, 2, &at, &eval).is_none());
    let m2 = plot(|_, _| Outcome::Failed, Val::Matrix(Mat::D2(vec![(1, 2)])), false, false);
    assert!(matches!(host().get_2d(&m2, Span::ViewX, 2, &at, &eval), Some((Output::Coord(v), false)) if v == vec![(1, Complex::Real(2))]));
}

fn spec_ex(e: &Ex, a: Axis, t: Tick) -> Ex {
    put(e, a, t)
}

#[test]
fn grid_sweep_is_row_major() {
    let p = plot(|x, y| num(x + 10.0 * y), Val::Num(None), true, true);
    let (out, _) = host().get_3d(&p, (Span::ViewX, Span::ViewY), 2, 4, &at, &spec_ex, &eval).unwrap();
    match out {
        Output::Width3D(v) => {
            assert_eq!(v.len(), 15);
            assert_eq!(f64::from_bits(match v[3] { Complex::Real(r) => r, _ => panic!() }), -2.0 - 10.0);
            assert_eq!(f64::from_bits(match v[14] { Complex::Real(r) => r, _ => panic!() }), 2.0 + 20.0);
        }
        _ => panic!("expected a surface"),
    }
}

#[test]
fn grid_list_lanes_cover_every_cell() {
    let p = plot(|x, y| if x > 0.0 { vector(&[x, y]) } else { vector(&[x]) }, Val::List, true, true);
    let (out, _) = host().get_3d(&p, (Span::ViewX, Span::ViewY), 2, 2, &at, &spec_ex, &eval).unwrap();
    match out {
        Output::List3D(l) => {
            assert_eq!(l.len(), 2);
            assert!(l.iter().all(|lane| lane.len() == 9));
            assert_eq!(l[1][0], ((NAN, NAN), Complex::Real(NAN)));
        }
        _ => panic!("expected lanes"),
    }
}

#[test]
fn slice_at_middle_matches_grid_column() {
    let f = |x: f64, y: f64| num(x * y + x);
    let p = plot(f, Val::Num(None), true, true);
    let (grid, _) = host().get_3d(&p, (Span::ViewX, Span::ViewY), 4, 4, &at, &spec_ex, &eval).unwrap();
    let (slice, _) = host().get_2d_slice(&p, 0, 4, 4, false, &at, &spec_ex, &eval).unwrap();
    let (g, s) = match (grid, slice) {
        (Output::Width3D(g), Output::Width3D(s)) => (reals(&g), reals(&s)),
        _ => panic!("expected surfaces"),
    };
    assert_eq!(s.len(), 5);
    for j in 0..5 {
        assert!((s[j] - g[j * 5 + 2]).abs() < 1e-12);
    }
    let (sy, _) = host().get_2d_slice(&p, 0, 4, 4, true, &at, &spec_ex, &eval).unwrap();
    match sy {
        Output::Width3D(v) => {
            let v = reals(&v);
            for i in 0..5 {
                assert!((v[i] - g[2 * 5 + i]).abs() < 1e-12);
            }
        }
        _ => panic!("expected a surface"),
    }
}

#[test]
fn slice_skips_curves() {
    let p = plot(|x, _| vector(&[x, x]), Val::Vector(None), true, true);
    assert!(host().get_2d_slice(&p, 1, 4, 4, false, &at, &spec_ex, &eval).is_none());
}

#[test]
fn integer_square_root() {
    assert_eq!(isqrt(0), 0);
    assert_eq!(isqrt(1), 1);
    assert_eq!(isqrt(15), 3);
    assert_eq!(isqrt(16), 4);
    assert_eq!(isqrt(400), 20);
}

fn registry() -> Data<Ex> {
    Data {
        data: vec![
            Some(plot(|x, _| num(x * x), Val::Num(None), true, false)),
            None,
            Some(plot(|x, _| cnum(x, 1.0), Val::Num(None), true, false)),
            Some(plot(|x, y| num(x * y), Val::Num(None), true, true)),
        ],
        blacklist: Vec::new(),
    }
}

#[test]
fn plane_update_skips_hidden_and_empty_slots() {
    let mut d = registry();
    let (out, complex) = d.update_data(Request::Plane { count: 4 }, vec![2], None, &at, &spec_ex, &eval);
    assert_eq!(out.len(), 1);
    assert!(!complex);
    assert_eq!(d.blacklist, vec![2]);
    let (out, complex) = d.update_data(Request::Plane { count: 4 }, Vec::new(), None, &at, &spec_ex, &eval);
    assert_eq!(out.len(), 2);
    assert!(complex);
    match &out[0] {
        Output::Width(v) => assert_eq!(v.len(), 5),
        _ => panic!("expected a width series"),
    }
}

#[test]
fn update_of_one_target() {
    let mut d = registry();
    let (out, complex) = d.update_data(Request::Plane { count: 2 }, Vec::new(), Some(2), &at, &spec_ex, &eval);
    assert_eq!(out.len(), 1);
    assert!(complex);
    let (out, _) = d.update_data(Request::Plane { count: 2 }, Vec::new(), Some(9), &at, &spec_ex, &eval);
    assert_eq!(out.len(), 2);
}

#[test]
fn space_update_samples_surfaces_only() {
    let mut d = registry();
    assert!(d.is_3d());
    let (out, _) = d.update_data(Request::Space { nx: 3, ny: 2 }, Vec::new(), None, &at, &spec_ex, &eval);
    assert_eq!(out.len(), 1);
    match &out[0] {
        Output::Width3D(v) => assert_eq!(v.len(), 12),
        _ => panic!("expected a surface"),
    }
    let (out, _) = d.update_data(Request::Slice { count: 4, slice: 0, view_x: false }, Vec::new(), None, &at, &spec_ex, &eval);
    assert_eq!(out.len(), 3);
}

#[test]
fn large_requests_are_clamped() {
    let mut d = Data { data: vec![Some(plot(|x, _| num(x), Val::Num(None), true, false))], blacklist: Vec::new() };
    let (out, _) = d.update_data(Request::Plane { count: usize::MAX }, Vec::new(), None, &at, &spec_ex, &eval);
    match &out[0] {
        Output::Width(v) => assert_eq!(v.len(), MAX_STEPS + 1),
        _ => panic!("expected a width series"),
    }
}

#[test]
fn target_resolution_falls_back_for_lanes() {
    assert_eq!(resolve_target(Some(3), false), Some(3));
    assert_eq!(resolve_target(Some(3), true), None);
    assert_eq!(resolve_target(None, false), None);
}

#[test]
fn names_show_the_parts_present() {
    let graph = vec![
        Output::Width(vec![Complex::Real(1)]),
        Output::Width(vec![Complex::Imag(1)]),
        Output::Coord(vec![(0, Complex::Real(1)), (1, Complex::Imag(2))]),
        Output::Point(1, 2),
    ];
    let names: Vec<(Vec<String>, String)> = (0..5).map(|k| (vec!["a=1".to_string()], format!("f{k}"))).collect();
    let r = get_names(&graph, &names);
    let shows: Vec<Show> = r.iter().map(|n| n.show).collect();
    assert_eq!(shows, vec![Show::Real, Show::Imag, Show::Complex, Show::Real, Show::Absent]);
    assert_eq!(r[3].name, "f3");
    assert_eq!(r[0].vars, vec!["a=1".to_string()]);
}

#[test]
fn hidden_slots_past_the_registry_are_dropped() {
    let mut d = registry();
    let (out, _) = d.update_data(Request::Plane { count: 2 }, vec![4, 0, 9], None, &at, &spec_ex, &eval);
    assert_eq!(d.blacklist, vec![0]);
    assert_eq!(out.len(), 1);
}
