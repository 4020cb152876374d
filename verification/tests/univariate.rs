//! Tests of evaluation domains, barycentric extrapolation and
//! interpolation.

use tower_snark::field::mul128;
use tower_snark::univariate::{
    evaluate_univariate, extrapolate_line_scalar, DefaultEvaluationDomainFactory,
    EvaluationDomain, EvaluationDomainFactory, InterpolationDomain,
};
use tower_snark::error::Error;

fn eval_naive(coeffs: &Vec<u128>, x: u128) -> u128 {
    // Sum of coeff_i * x^i with explicit powers.
    let mut acc: u128 = 0;
    let mut xp: u128 = 1;
    for c in coeffs.iter() {
        acc ^= mul128(*c, xp);
        xp = mul128(xp, x);
    }
    acc
}

#[test]
fn test_new_domain() {
    let domain_factory = DefaultEvaluationDomainFactory { dummy: false };
    let domain = domain_factory.create(3).unwrap();
    assert_eq!(domain.points, vec![0u128, 1, 2]);
}

#[test]
fn test_new_oversized_domain() {
    let domain_factory = DefaultEvaluationDomainFactory { dummy: false };
    assert!(matches!(domain_factory.create(300), Err(Error::DomainSizeTooLarge)));
}

#[test]
fn test_evaluate_univariate() {
    // Fixed coefficient values.
    let coeffs: Vec<u128> = vec![0x9a, 0x3f, 0x02, 0xd1, 0x55, 0x11];
    let x: u128 = 0xab;
    assert_eq!(evaluate_univariate(&coeffs, x), eval_naive(&coeffs, x));
}

#[test]
fn test_evaluate_univariate_no_coeffs() {
    let x: u128 = 0x12345;
    assert_eq!(evaluate_univariate(&vec![], x), 0);
}

#[test]
fn test_random_extrapolate() {
    // A degree-6 polynomial on a domain of 7 distinct points.
    let points: Vec<u128> = vec![3, 7, 11, 19, 30, 71, 99];
    let domain = EvaluationDomain::from_points(points).unwrap();
    let coeffs: Vec<u128> = vec![5, 80, 120, 31, 9, 1, 200];
    let values: Vec<u128> = domain
        .points()
        .iter()
        .map(|&x| evaluate_univariate(&coeffs, x))
        .collect();
    let x: u128 = 0xdeadbeef;
    let expected_y = evaluate_univariate(&coeffs, x);
    assert_eq!(domain.extrapolate(&values, x).unwrap(), expected_y);
}

#[test]
fn test_interpolation() {
    let points: Vec<u128> = vec![3, 7, 11, 19, 30, 71, 99];
    let domain = EvaluationDomain::from_points(points).unwrap();
    let coeffs: Vec<u128> = vec![5, 80, 120, 31, 9, 1, 200];
    let values: Vec<u128> = domain
        .points()
        .iter()
        .map(|&x| evaluate_univariate(&coeffs, x))
        .collect();
    let interpolated = InterpolationDomain::from(domain).interpolate(&values).unwrap();
    assert_eq!(interpolated, coeffs);
}

#[test]
fn test_barycentric_byte_domain() {
    // Domain {0,1,2,3} in the byte field, polynomial 1 + x + x^2,
    // extrapolated at 5, compared against Horner evaluation.
    let domain_factory = DefaultEvaluationDomainFactory { dummy: false };
    let domain = domain_factory.create(4).unwrap();
    let coeffs: Vec<u128> = vec![1, 1, 1];
    let values: Vec<u128> = domain
        .points()
        .iter()
        .map(|&x| evaluate_univariate(&coeffs, x))
        .collect();
    let expected = evaluate_univariate(&coeffs, 5);
    assert_eq!(domain.extrapolate(&values, 5).unwrap(), expected);
}

#[test]
fn test_duplicate_domain_point() {
    assert!(matches!(
        EvaluationDomain::from_points(vec![1, 2, 1]),
        Err(Error::DuplicateDomainPoint)
    ));
}

#[test]
fn test_extrapolate_wrong_length() {
    let domain = EvaluationDomain::from_points(vec![0, 1, 2]).unwrap();
    assert!(matches!(
        domain.extrapolate(&vec![1, 2], 9),
        Err(Error::ExtrapolateNumberOfEvaluations)
    ));
}

#[test]
fn test_extrapolate_line_scalar_values() {
    // x0 + z * (x1 - x0) over the tower field.
    let x0: u128 = 0x17;
    let x1: u128 = 0xf0;
    let z: u128 = 0x02;
    assert_eq!(extrapolate_line_scalar(x0, x1, z), x0 ^ mul128(x1 ^ x0, z));
    assert_eq!(extrapolate_line_scalar(x0, x1, 0), x0);
    assert_eq!(extrapolate_line_scalar(x0, x1, 1), x1);
}
