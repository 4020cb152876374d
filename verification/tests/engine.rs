//! Tests of the sumcheck round-evaluation engine.

use tower_snark::composition::ArithCircuitPoly;
use tower_snark::expr::ArithExpr;
use tower_snark::multilinear::{MultilinearCol, MultilinearQuery};
use tower_snark::field::{mul128, mul128_b8};
use tower_snark::packed::Packed;
use tower_snark::sumcheck::{
    calculate_round_evals, EvaluationOrder, SumcheckEvaluator, SumcheckMultilinear,
};

fn identity_evaluator(n_ml: usize, end: usize, var: usize) -> SumcheckEvaluator {
    SumcheckEvaluator {
        composition: ArithCircuitPoly::new(ArithExpr::Var(var)),
        eval_points_start: 0,
        eval_points_end: end,
        const_eval_suffix: 0,
        suffix_row: vec![0; n_ml.max(var + 1)],
    }
}

fn transparent(n_vars: usize, scalars: &Vec<u128>) -> SumcheckMultilinear {
    SumcheckMultilinear::Transparent { multilinear: MultilinearCol::from_scalars(n_vars, scalars) }
}

#[test]
fn test_round_evals_identity_sums() {
    // One multilinear over 3 variables; the identity composition. The
    // round evaluation at 0 is the sum of the even-index scalars, at 1
    // the sum of the odd-index ones (low-to-high order fixes the lowest
    // variable).
    let scalars: Vec<u128> = vec![3, 5, 7, 11, 13, 17, 19, 23];
    let mls = vec![transparent(3, &scalars)];
    let evs = vec![identity_evaluator(1, 2, 0)];
    let r = calculate_round_evals(
        EvaluationOrder::LowToHigh,
        3,
        None,
        &mls,
        &evs,
        &vec![],
    )
    .unwrap();
    let expected_0 = scalars[0] ^ scalars[2] ^ scalars[4] ^ scalars[6];
    let expected_1 = scalars[1] ^ scalars[3] ^ scalars[5] ^ scalars[7];
    assert_eq!(r[0].0, vec![expected_0, expected_1]);

    // High-to-low fixes the highest variable instead.
    let r2 = calculate_round_evals(
        EvaluationOrder::HighToLow,
        3,
        None,
        &mls,
        &evs,
        &vec![],
    )
    .unwrap();
    let expected_lo = scalars[0] ^ scalars[1] ^ scalars[2] ^ scalars[3];
    let expected_hi = scalars[4] ^ scalars[5] ^ scalars[6] ^ scalars[7];
    assert_eq!(r2[0].0, vec![expected_lo, expected_hi]);
}

#[test]
fn test_infinity_point_is_difference() {
    // With the point at infinity scheduled, its round evaluation for a
    // degree-1 composition equals the sum at 1 minus the sum at 0.
    let scalars: Vec<u128> = vec![0xaa, 0xbb, 0xcc, 0xdd, 1, 2, 3, 4];
    let mls = vec![transparent(3, &scalars)];
    let evs = vec![identity_evaluator(1, 3, 0)];
    let r = calculate_round_evals(EvaluationOrder::LowToHigh, 3, None, &mls, &evs, &vec![])
        .unwrap();
    assert_eq!(r[0].0.len(), 3);
    assert_eq!(r[0].0[2], r[0].0[0] ^ r[0].0[1]);
}

#[test]
fn test_finite_point_interpolation() {
    // A finite evaluation point z past the special indices: each
    // multilinear is read as evals_0 + z * (evals_1 - evals_0).
    let scalars: Vec<u128> = vec![9, 4];
    let mls = vec![transparent(1, &scalars)];
    let evs = vec![identity_evaluator(1, 4, 0)];
    let z: u8 = 7;
    let r = calculate_round_evals(EvaluationOrder::LowToHigh, 1, None, &mls, &evs, &vec![z])
        .unwrap();
    let expected = scalars[0] ^ mul128_b8(scalars[0] ^ scalars[1], z);
    assert_eq!(r[0].0.len(), 4);
    assert_eq!(r[0].0[0], scalars[0]);
    assert_eq!(r[0].0[1], scalars[1]);
    assert_eq!(r[0].0[3], expected);
}

#[test]
fn test_wrong_finite_point_count() {
    let scalars: Vec<u128> = vec![9, 4];
    let mls = vec![transparent(1, &scalars)];
    let evs = vec![identity_evaluator(1, 4, 0)];
    assert!(calculate_round_evals(EvaluationOrder::LowToHigh, 1, None, &mls, &evs, &vec![])
        .is_err());
}

#[test]
fn test_order_equivalence_final_round() {
    // In the final round a single variable remains: both orders read the
    // same two restrictions and produce identical evaluations.
    let scalars: Vec<u128> = vec![0x123456789abcdef0, 0x0fedcba987654321];
    let mls = vec![transparent(1, &scalars)];
    let evs = vec![identity_evaluator(1, 3, 0)];
    let lo = calculate_round_evals(EvaluationOrder::LowToHigh, 1, None, &mls, &evs, &vec![])
        .unwrap();
    let evs2 = vec![identity_evaluator(1, 3, 0)];
    let hi = calculate_round_evals(EvaluationOrder::HighToLow, 1, None, &mls, &evs2, &vec![])
        .unwrap();
    assert_eq!(lo[0].0, hi[0].0);
}

#[test]
fn test_folded_shortcut_matches_materialized() {
    // A folded multilinear with a packed prefix and a constant suffix
    // contributes exactly like a fully materialized multilinear whose
    // tail holds the suffix value.
    let suffix: u128 = 0x77;
    let prefix = Packed { l0: 10, l1: 20, l2: 30, l3: 40 };
    let folded = SumcheckMultilinear::Folded {
        large_field_folded_evals: vec![prefix],
        suffix_eval: suffix,
    };
    let full: Vec<u128> = vec![10, 20, 30, 40, suffix, suffix, suffix, suffix];
    let materialized = transparent(3, &full);

    let evs = vec![identity_evaluator(1, 3, 0)];
    let r_folded =
        calculate_round_evals(EvaluationOrder::LowToHigh, 3, None, &vec![folded], &evs, &vec![])
            .unwrap();
    let evs2 = vec![identity_evaluator(1, 3, 0)];
    let r_full = calculate_round_evals(
        EvaluationOrder::LowToHigh,
        3,
        None,
        &vec![materialized],
        &evs2,
        &vec![],
    )
    .unwrap();
    assert_eq!(r_folded[0].0, r_full[0].0);
}

#[test]
fn test_product_composition_round() {
    // Two multilinears with the product composition over 2 variables.
    let a: Vec<u128> = vec![1, 2, 3, 4];
    let b: Vec<u128> = vec![5, 6, 7, 8];
    let mls = vec![transparent(2, &a), transparent(2, &b)];
    let comp = ArithCircuitPoly::new(ArithExpr::Mul(
        Box::new(ArithExpr::Var(0)),
        Box::new(ArithExpr::Var(1)),
    ));
    let evs = vec![SumcheckEvaluator {
        composition: comp,
        eval_points_start: 0,
        eval_points_end: 2,
        const_eval_suffix: 0,
        suffix_row: vec![0, 0],
    }];
    let r = calculate_round_evals(EvaluationOrder::LowToHigh, 2, None, &mls, &evs, &vec![])
        .unwrap();
    let expected_0 = mul128(a[0], b[0]) ^ mul128(a[2], b[2]);
    let expected_1 = mul128(a[1], b[1]) ^ mul128(a[3], b[3]);
    assert_eq!(r[0].0, vec![expected_0, expected_1]);
}

#[test]
fn test_tensor_query_expansion() {
    let z: u128 = 0xab;
    let q = MultilinearQuery::expand(&vec![z]);
    assert_eq!(q.expansion, vec![1 ^ z, z]);

    let q0 = MultilinearQuery::with_capacity();
    assert_eq!(q0.expansion, vec![1]);

    let z2: u128 = 0x03;
    let q2 = MultilinearQuery::expand(&vec![z, z2]);
    assert_eq!(
        q2.expansion,
        vec![
            mul128(1 ^ z, 1 ^ z2),
            mul128(z, 1 ^ z2),
            mul128(1 ^ z, z2),
            mul128(z, z2),
        ]
    );
}

#[test]
fn test_round_evals_with_tensor_query() {
    // A 3-variate transparent multilinear with one pre-switchover
    // challenge pending: round evaluations are taken over the contracted
    // 2-variate polynomial.
    let scalars: Vec<u128> = vec![3, 5, 7, 11, 13, 17, 19, 23];
    let mls = vec![transparent(3, &scalars)];
    let z: u128 = 0x09;
    let q = MultilinearQuery::expand(&vec![z]);
    let evs = vec![identity_evaluator(1, 2, 0)];
    let r = calculate_round_evals(EvaluationOrder::LowToHigh, 2, Some(&q), &mls, &evs, &vec![])
        .unwrap();
    // Contracted scalars: g(y) = (1-z) * f(0, y) + z * f(1, y) over the
    // lowest variable.
    let g: Vec<u128> = (0..4)
        .map(|y| mul128(1 ^ z, scalars[2 * y]) ^ mul128(z, scalars[2 * y + 1]))
        .collect();
    let expected_0 = g[0] ^ g[2];
    let expected_1 = g[1] ^ g[3];
    assert_eq!(r[0].0, vec![expected_0, expected_1]);
}
