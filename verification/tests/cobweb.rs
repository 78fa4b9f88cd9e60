use attractors::error::AnalysisError;
use attractors::poincare::{cobweb_path, make_cobweb};
use attractors::scalar::Scalar;

fn s(v: f64) -> Scalar {
    Scalar::from_bits(v.to_bits())
}

fn n(x: Scalar) -> f64 {
    f64::from_bits(x.to_bits())
}

fn numbers(values: &[Scalar]) -> Vec<f64> {
    values.iter().map(|x| n(*x)).collect()
}

fn p(r: f64) -> f64 {
    (1.0 + std::f64::consts::E.powi(-1) * (r.powi(-2) - 1.0)).powf(-0.5)
}

fn p_map(r: Scalar) -> Scalar {
    s(p(n(r)))
}

fn halve(r: Scalar) -> Scalar {
    s(n(r) / 2.0)
}

fn root_below_one(r: Scalar) -> Scalar {
    s((n(r) - 1.0).sqrt())
}

#[test]
fn cobweb_of_four_iterations_has_eight_points() {
    let (xs, ys) = cobweb_path(p_map, 4, s(0.5)).unwrap();
    assert_eq!(xs.len(), 8);
    assert_eq!(ys.len(), 8);
    assert_eq!(n(xs[0]), 0.5);
    assert_eq!(ys[0].to_bits(), 0);
    assert_eq!(n(xs[1]), 0.5);
    assert_eq!(n(ys[1]), p(0.5));
}

#[test]
fn cobweb_of_the_return_map_is_fixed_by_its_iterates() {
    let (xs, ys) = cobweb_path(p_map, 4, s(0.5)).unwrap();
    let r0 = 0.5;
    let r1 = p(r0);
    let r2 = p(r1);
    let r3 = p(r2);
    let r4 = p(r3);
    assert_eq!(numbers(&xs), vec![r0, r0, r1, r1, r2, r2, r3, r3]);
    assert_eq!(numbers(&ys), vec![0.0, r1, r1, r2, r2, r3, r3, r4]);
}

#[test]
fn cobweb_of_halving() {
    let (xs, ys) = cobweb_path(halve, 3, s(8.0)).unwrap();
    assert_eq!(numbers(&xs), vec![8.0, 8.0, 4.0, 4.0, 2.0, 2.0]);
    assert_eq!(numbers(&ys), vec![0.0, 4.0, 4.0, 2.0, 2.0, 1.0]);
}

#[test]
fn cobweb_length_is_twice_the_iterations() {
    for iterations in 0..40 {
        let (xs, ys) = cobweb_path(halve, iterations, s(1.0)).unwrap();
        assert_eq!(xs.len(), 2 * iterations);
        assert_eq!(ys.len(), 2 * iterations);
    }
}

#[test]
fn cobweb_of_no_iterations_is_empty() {
    let (xs, ys) = cobweb_path(p_map, 0, s(0.5)).unwrap();
    assert!(xs.is_empty() && ys.is_empty());
}

#[test]
fn make_cobweb_gives_as_many_points_as_asked_for() {
    for points in 0..30 {
        let (xs, ys) = make_cobweb(halve, points, s(1.0)).unwrap();
        assert_eq!(xs.len(), points);
        assert_eq!(ys.len(), points);
    }
}

#[test]
fn make_cobweb_with_an_odd_number_of_points_ends_on_the_diagonal() {
    let (xs, ys) = make_cobweb(halve, 5, s(8.0)).unwrap();
    assert_eq!(numbers(&xs), vec![8.0, 8.0, 4.0, 4.0, 2.0]);
    assert_eq!(numbers(&ys), vec![0.0, 4.0, 4.0, 2.0, 2.0]);
}

#[test]
fn make_cobweb_of_one_point_does_not_ask_the_map() {
    let never = |_: Scalar| -> Scalar { panic!("the map was applied") };
    let (xs, ys) = make_cobweb(never, 1, s(f64::NAN)).unwrap();
    assert_eq!(xs.len(), 1);
    assert!(n(xs[0]).is_nan());
    assert_eq!(ys[0].to_bits(), 0);
}

#[test]
fn the_map_is_applied_once_for_each_point_on_the_curve() {
    let calls = std::cell::Cell::new(0);
    let counting = |r: Scalar| {
        calls.set(calls.get() + 1);
        s(n(r) / 2.0)
    };
    let (xs, _) = make_cobweb(&counting, 9, s(1.0)).unwrap();
    assert_eq!(xs.len(), 9);
    assert_eq!(calls.get(), 4);
}

#[test]
fn a_value_outside_the_domain_is_an_error() {
    assert_eq!(cobweb_path(root_below_one, 4, s(0.5)), Err(AnalysisError::NumericDomainError));
    assert_eq!(make_cobweb(root_below_one, 2, s(0.5)), Err(AnalysisError::NumericDomainError));
}

#[test]
fn leaving_the_domain_later_is_an_error_too() {
    let step_down = |r: Scalar| s((n(r) - 1.0).sqrt());
    // sqrt(5 - 1) = 2, sqrt(2 - 1) = 1, sqrt(1 - 1) = 0, sqrt(0 - 1) is no number.
    assert!(make_cobweb(step_down, 7, s(5.0)).is_ok());
    assert_eq!(make_cobweb(step_down, 8, s(5.0)), Err(AnalysisError::NumericDomainError));
}

#[test]
fn an_infinite_value_is_an_error() {
    let reciprocal = |r: Scalar| s(1.0 / n(r));
    assert_eq!(cobweb_path(reciprocal, 1, s(0.0)), Err(AnalysisError::NumericDomainError));
}

#[test]
fn a_start_that_is_no_number_is_an_error_once_the_map_is_needed() {
    assert_eq!(cobweb_path(halve, 1, s(f64::NAN)), Err(AnalysisError::NumericDomainError));
    assert_eq!(cobweb_path(halve, 3, s(f64::INFINITY)), Err(AnalysisError::NumericDomainError));
}

#[test]
fn the_return_map_at_zero_is_zero() {
    let (xs, ys) = cobweb_path(p_map, 2, s(0.0)).unwrap();
    assert_eq!(numbers(&xs), vec![0.0, 0.0, 0.0, 0.0]);
    assert_eq!(numbers(&ys), vec![0.0, 0.0, 0.0, 0.0]);
}

#[test]
fn the_return_map_draws_iterates_towards_one() {
    let (xs, _) = cobweb_path(p_map, 15, s(0.1)).unwrap();
    let first = n(xs[0]);
    let last = n(xs[29]);
    assert!((1.0 - last).abs() < (1.0 - first).abs());
    let (xs, _) = cobweb_path(p_map, 15, s(1.8)).unwrap();
    assert!((n(xs[29]) - 1.0).abs() < 0.8);
}
