//! Tests of the oracle registry, the composite oracle and the index
//! composition.

use tower_snark::composition::{
    index_composition, ArithCircuitPoly, CompositionPoly, IndexComposition,
};
use tower_snark::error::Error;
use tower_snark::expr::ArithExpr;
use tower_snark::oracle::{
    CommittedBatchSpec, CommittedId, CompositePolyOracle, MultilinearOracleSet,
};

fn var(v: usize) -> ArithExpr {
    ArithExpr::Var(v)
}

fn konst(c: u128) -> ArithExpr {
    ArithExpr::Const(c)
}

fn add(a: ArithExpr, b: ArithExpr) -> ArithExpr {
    ArithExpr::Add(Box::new(a), Box::new(b))
}

fn mul(a: ArithExpr, b: ArithExpr) -> ArithExpr {
    ArithExpr::Mul(Box::new(a), Box::new(b))
}

/// A three-variable test composition whose constants sit in the byte
/// field: `q0 * q1 + q2 * 125`.
fn test_byte_composition() -> ArithCircuitPoly {
    ArithCircuitPoly::new(add(mul(var(0), var(1)), mul(var(2), konst(125))))
}

#[test]
fn test_composite_tower_level() {
    let round_id = 0;
    let n_vars = 5;

    let mut oracles = MultilinearOracleSet::new();
    let batch_id_2b = oracles.add_committed_batch(CommittedBatchSpec {
        round_id,
        n_vars,
        n_polys: 1,
        tower_level: 1,
    });
    let poly_2b = oracles.committed_oracle_id(CommittedId { batch_id: batch_id_2b, index: 0 });

    let batch_id_8b = oracles.add_committed_batch(CommittedBatchSpec {
        round_id,
        n_vars,
        n_polys: 1,
        tower_level: 3,
    });
    let poly_8b = oracles.committed_oracle_id(CommittedId { batch_id: batch_id_8b, index: 0 });

    let batch_id_32b = oracles.add_committed_batch(CommittedBatchSpec {
        round_id,
        n_vars,
        n_polys: 1,
        tower_level: 5,
    });
    let poly_32b = oracles.committed_oracle_id(CommittedId { batch_id: batch_id_32b, index: 0 });

    let composite = CompositePolyOracle::new(
        n_vars,
        vec![
            oracles.oracle(poly_2b).duplicate(),
            oracles.oracle(poly_2b).duplicate(),
            oracles.oracle(poly_2b).duplicate(),
        ],
        test_byte_composition(),
    )
    .unwrap();
    assert_eq!(composite.binary_tower_level(), 3);

    let composite = CompositePolyOracle::new(
        n_vars,
        vec![
            oracles.oracle(poly_2b).duplicate(),
            oracles.oracle(poly_8b).duplicate(),
            oracles.oracle(poly_8b).duplicate(),
        ],
        test_byte_composition(),
    )
    .unwrap();
    assert_eq!(composite.binary_tower_level(), 3);

    let composite = CompositePolyOracle::new(
        n_vars,
        vec![
            oracles.oracle(poly_2b).duplicate(),
            oracles.oracle(poly_8b).duplicate(),
            oracles.oracle(poly_32b).duplicate(),
        ],
        test_byte_composition(),
    )
    .unwrap();
    assert_eq!(composite.binary_tower_level(), 5);
}

#[test]
fn tests_expr() {
    // Var(0) * (Var(1) + 1) injected at positions [1, 2] of a
    // three-variable query reads as Var(1) * (Var(2) + 1).
    let expr = mul(var(0), add(var(1), konst(1)));
    let circuit = ArithCircuitPoly::new(expr);
    let composition: IndexComposition<ArithCircuitPoly, 2> =
        IndexComposition::new(3, [1, 2], circuit).unwrap();
    assert_eq!(composition.expression(), mul(var(1), add(var(2), konst(1))));
}

#[test]
fn test_composite_arity_mismatch() {
    let oracles = {
        let mut s = MultilinearOracleSet::new();
        s.add_committed(5, 3);
        s
    };
    let r = CompositePolyOracle::new(
        5,
        vec![oracles.oracle(0).duplicate()],
        test_byte_composition(),
    );
    assert!(matches!(r, Err(Error::CompositionMismatch)));
}

#[test]
fn test_composite_wrong_n_vars() {
    let mut oracles = MultilinearOracleSet::new();
    oracles.add_committed(5, 3);
    oracles.add_committed(5, 3);
    oracles.add_committed(4, 3);
    let r = CompositePolyOracle::new(
        5,
        vec![
            oracles.oracle(0).duplicate(),
            oracles.oracle(1).duplicate(),
            oracles.oracle(2).duplicate(),
        ],
        test_byte_composition(),
    );
    assert!(matches!(r, Err(Error::IncorrectNumberOfVariables { expected: 5 })));
}

#[test]
fn test_incorrect_query_size() {
    let comp = test_byte_composition();
    assert!(matches!(
        comp.evaluate(&vec![1, 2]),
        Err(Error::IncorrectQuerySize { expected: 3 })
    ));
    assert!(comp.evaluate(&vec![1, 2, 3]).is_ok());
}

#[test]
fn test_index_composition_out_of_bounds() {
    let circuit = ArithCircuitPoly::new(mul(var(0), var(1)));
    let r: Result<IndexComposition<ArithCircuitPoly, 2>, Error> =
        IndexComposition::new(3, [1, 5], circuit);
    assert!(matches!(r, Err(Error::IndexCompositionIndicesOutOfBounds)));
}

#[test]
fn test_index_composition_factory() {
    let circuit = ArithCircuitPoly::new(mul(var(0), var(1)));
    let superset: Vec<usize> = vec![10, 11, 12, 13];
    let c = index_composition(&superset, [12, 10], circuit).unwrap();
    assert_eq!(c.indices, vec![2, 0]);
    assert_eq!(c.n_vars(), 4);

    let circuit2 = ArithCircuitPoly::new(mul(var(0), var(1)));
    let r = index_composition(&superset, [12, 99], circuit2);
    assert!(matches!(r, Err(Error::MixedMultilinearNotFound)));
}
