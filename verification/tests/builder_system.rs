//! Tests of the constraint-system builder, the witness index, and a
//! small end-to-end table with a computed column checked row by row.

use tower_snark::builder::{ConstraintComposition, ConstraintSystemBuilder};
use tower_snark::channel::{Channel, FlushDirection, FlushOpts};
use tower_snark::composition::{ArithCircuitPoly, CompositionPoly};
use tower_snark::error::Error;
use tower_snark::expr::ArithExpr;
use tower_snark::field::{inv128, mul128, TOWER_LEVEL_B128};

fn var(v: usize) -> ArithExpr {
    ArithExpr::Var(v)
}

fn konst(c: u128) -> ArithExpr {
    ArithExpr::Const(c)
}

fn add(a: ArithExpr, b: ArithExpr) -> ArithExpr {
    ArithExpr::Add(Box::new(a), Box::new(b))
}

fn mul(a: ArithExpr, b: ArithExpr) -> ArithExpr {
    ArithExpr::Mul(Box::new(a), Box::new(b))
}

#[test]
fn test_builder_linear_combination_errors() {
    let mut b = ConstraintSystemBuilder::new();
    let c1 = b.add_committed("c1".to_string(), 3, 3);
    let _c2 = b.add_committed("c2".to_string(), 4, 3);
    // Unknown id.
    let r = b.add_linear_combination("bad".to_string(), 3, vec![(99, 1)]);
    assert!(matches!(r, Err(Error::OracleNotFound)));
    // Log-size mismatch.
    let r = b.add_linear_combination("bad".to_string(), 3, vec![(c1, 1), (1, 1)]);
    assert!(matches!(r, Err(Error::LogSizeMismatch)));
    // A good one.
    let lc = b.add_linear_combination("ok".to_string(), 3, vec![(c1, 1)]).unwrap();
    assert_eq!(lc, 2);
}

#[test]
fn test_builder_assert_zero_errors() {
    let mut b = ConstraintSystemBuilder::new();
    let c1 = b.add_committed("c1".to_string(), 3, 7);
    let comp = ConstraintComposition::Circuit(ArithCircuitPoly::new(mul(var(0), var(1))));
    // Wrong arity.
    let r = b.assert_zero(vec![c1], comp);
    assert!(matches!(r, Err(Error::CompositionMismatch)));
    // Unknown id.
    let comp2 = ConstraintComposition::Circuit(ArithCircuitPoly::new(mul(var(0), var(1))));
    let r = b.assert_zero(vec![c1, 42], comp2);
    assert!(matches!(r, Err(Error::OracleNotFound)));
    // A good one; the stored constraint arity matches its id list.
    let comp3 = ConstraintComposition::Circuit(ArithCircuitPoly::new(mul(var(0), var(1))));
    let c2 = b.add_committed("c2".to_string(), 3, 7);
    b.assert_zero(vec![c1, c2], comp3).unwrap();
    assert_eq!(b.constraints.len(), 1);
    assert_eq!(b.constraints[0].oracle_ids.len(), b.constraints[0].composition.n_vars());
}

#[test]
fn test_namespaces() {
    let mut b = ConstraintSystemBuilder::new();
    b.push_namespace("round".to_string());
    b.push_namespace("s_box".to_string());
    assert_eq!(b.namespace_stack.len(), 2);
    b.pop_namespace();
    assert_eq!(b.namespace_stack.len(), 1);
    b.pop_namespace();
    b.pop_namespace();
    assert_eq!(b.namespace_stack.len(), 0);
}

#[test]
fn test_flush_opts_default() {
    let opts = FlushOpts::default();
    assert_eq!(opts.multiplicity, 1);
    assert!(opts.selectors.is_empty());
    let ch = Channel { name: "state".to_string() };
    assert_eq!(ch.name, "state");
    assert_ne!(FlushDirection::Push, FlushDirection::Pull);
}

#[test]
fn test_m3_computed_col() {
    // A table of 8 rows with committed_1 = i, committed_2 = i + 10 and
    // computed = (c1 + c2) * c1 * 10 + 1; the zero constraint
    // expr - computed holds on every row, and mutating any computed
    // entry breaks the validation.
    let n_rows = 8usize;
    let log_size = 3usize;
    let mut b = ConstraintSystemBuilder::new_with_witness();
    let c1 = b.add_committed("committed_1".to_string(), log_size, TOWER_LEVEL_B128);
    let c2 = b.add_committed("committed_2".to_string(), log_size, TOWER_LEVEL_B128);
    let computed = b.add_committed("computed".to_string(), log_size, TOWER_LEVEL_B128);
    let expr = add(
        mul(mul(add(var(0), var(1)), var(0)), konst(10)),
        konst(1),
    );
    // computed = expr  <=>  expr + computed == 0 in a binary field.
    let constraint_expr = add(expr, var(2));
    let comp = ConstraintComposition::Circuit(ArithCircuitPoly::new(constraint_expr));
    b.assert_zero(vec![c1, c2, computed], comp).unwrap();

    let col1: Vec<u128> = (0..n_rows as u128).collect();
    let col2: Vec<u128> = (0..n_rows as u128).map(|i| i + 10).collect();
    let col3: Vec<u128> = (0..n_rows)
        .map(|i| mul128(mul128(col1[i] ^ col2[i], col1[i]), 10) ^ 1)
        .collect();
    b.witness_set_words(c1, col1.clone());
    b.witness_set_words(c2, col2.clone());
    b.witness_set_words(computed, col3.clone());
    assert!(b.validate_witness().is_ok());

    // Any single mutation of a computed entry breaks the validation.
    for z in 0..n_rows {
        let mut bad = col3.clone();
        bad[z] ^= 0x40;
        b.witness_set_words(computed, bad);
        assert!(matches!(b.validate_witness(), Err(Error::WitnessInvalid)), "mutated row {z}");
    }
    // Removing a column breaks it differently.
    let mut b2 = ConstraintSystemBuilder::new_with_witness();
    let d1 = b2.add_committed("d1".to_string(), log_size, TOWER_LEVEL_B128);
    let comp2 = ConstraintComposition::Circuit(ArithCircuitPoly::new(mul(var(0), var(1))));
    b2.assert_zero(vec![d1, d1], comp2).unwrap();
    assert!(matches!(b2.validate_witness(), Err(Error::WitnessNotFound)));
    // A missized column is its own failure.
    b2.witness_set_words(d1, vec![0; 4]);
    assert!(matches!(b2.validate_witness(), Err(Error::WitnessSizeMismatch)));
}

#[test]
fn test_tower_field_inverse() {
    // The 128-bit field really is a field: x * x^(-1) == 1 for sample
    // elements spanning several tower levels.
    for &x in [
        0x2u128,
        0x53,
        0x1234,
        0xdeadbeef,
        0x0123_4567_89ab_cdef,
        0x0123_4567_89ab_cdef_fedc_ba98_7654_3210,
    ]
    .iter()
    {
        assert_eq!(mul128(x, inv128(x)), 1, "x = {x:#x}");
    }
    assert_eq!(inv128(0), 0);
    assert_eq!(mul128(0, 5), 0);
    assert_eq!(mul128(1, 0xabcd), 0xabcd);
}
