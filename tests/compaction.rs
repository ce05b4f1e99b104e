use kalc_plot::compact::{compact, compact_constant, compact_coord, compact_coord3d};
use kalc_plot::value::{Complex, Sample, NAN};

fn s(re: f64, im: f64) -> Sample {
    Sample { re: re.to_bits(), im: im.to_bits() }
}

fn re(v: &[Complex]) -> Vec<f64> {
    v.iter()
        .map(|c| match c {
            Complex::Real(r) => f64::from_bits(*r),
            _ => panic!("not real only: {:?}", c),
        })
        .collect()
}

#[test]
fn one_complex_sample_flags_whole_series() {
    let (out, complex) = compact(vec![s(1.0, 0.0), s(2.0, 0.0), s(3.0, 0.0001)]);
    assert!(complex);
    assert_eq!(
        out,
        vec![
            Complex::Complex(1f64.to_bits(), 0f64.to_bits()),
            Complex::Complex(2f64.to_bits(), 0f64.to_bits()),
            Complex::Complex(3f64.to_bits(), 0.0001f64.to_bits()),
        ]
    );
}

#[test]
fn zero_real_parts_give_imaginary_only() {
    let (out, _) = compact(vec![s(0.0, 1.0), s(0.0, 2.0), s(0.0, -1.0)]);
    let im: Vec<f64> = out
        .iter()
        .map(|c| match c {
            Complex::Imag(i) => f64::from_bits(*i),
            _ => panic!("not imaginary only: {:?}", c),
        })
        .collect();
    assert_eq!(im, vec![1.0, 2.0, -1.0]);
}

#[test]
fn complex_flag_follows_imaginary_parts() {
    let (_, a) = compact(vec![s(0.0, 1.0), s(0.0, 2.0), s(0.0, -1.0)]);
    assert!(a);
    let (_, b) = compact(vec![s(1.0, 0.0), s(2.0, f64::NAN), s(3.0, f64::INFINITY)]);
    assert!(!b);
}

#[test]
fn real_series_stays_real() {
    let (out, complex) = compact(vec![s(1.0, 0.0), s(-2.0, 0.0), s(0.0, 0.0)]);
    assert!(!complex);
    assert_eq!(re(&out), vec![1.0, -2.0, 0.0]);
}

#[test]
fn nan_real_parts_count_as_void() {
    let (out, complex) = compact(vec![s(f64::NAN, 1.0), s(-0.0, 2.0)]);
    assert!(complex);
    assert_eq!(out, vec![Complex::Imag(1f64.to_bits()), Complex::Imag(2f64.to_bits())]);
}

#[test]
fn mixed_series_keeps_both_parts() {
    let (out, complex) = compact(vec![s(1.0, 1.0), s(0.0, 0.0)]);
    assert!(complex);
    assert_eq!(out[1], Complex::Complex(0, 0));
}

#[test]
fn compacting_twice_changes_nothing() {
    for series in [
        vec![s(1.0, 0.0), s(-2.0, 0.0), s(0.0, 0.0)],
        vec![s(0.0, 1.0), s(0.0, 2.0), s(0.0, -1.0)],
        vec![s(1.0, 0.0), s(2.0, 0.0), s(3.0, 0.0001)],
        vec![s(f64::NAN, f64::NAN)],
    ] {
        let (once, a) = compact(series);
        let (twice, b) = compact(once.iter().map(|c| c.parts()).collect());
        assert_eq!(once, twice);
        assert_eq!(a, b);
    }
}

#[test]
fn empty_series_is_real() {
    let (out, complex) = compact(Vec::new());
    assert!(out.is_empty());
    assert!(!complex);
}

#[test]
fn keyed_series_keep_their_keys() {
    let (out, complex) = compact_coord(vec![(7, s(1.0, 0.0)), (8, s(2.0, 0.0))]);
    assert!(!complex);
    assert_eq!(out, vec![(7, Complex::Real(1f64.to_bits())), (8, Complex::Real(2f64.to_bits()))]);
    let (out3, complex3) = compact_coord3d(vec![((1, 2), s(0.0, 3.0))]);
    assert!(complex3);
    assert_eq!(out3, vec![((1, 2), Complex::Imag(3f64.to_bits()))]);
}

#[test]
fn constants_keep_non_zero_parts() {
    assert_eq!(compact_constant(s(0.0, 0.0)), Complex::Real(0));
    assert_eq!(compact_constant(s(-0.0, 0.0)), Complex::Real(0));
    assert_eq!(compact_constant(s(2.5, 0.0)), Complex::Real(2.5f64.to_bits()));
    assert_eq!(compact_constant(s(0.0, -1.0)), Complex::Imag((-1f64).to_bits()));
    assert_eq!(
        compact_constant(s(1.0, 2.0)),
        Complex::Complex(1f64.to_bits(), 2f64.to_bits())
    );
    assert_eq!(
        compact_constant(Sample { re: NAN, im: 0 }),
        Complex::Real(NAN)
    );
}
