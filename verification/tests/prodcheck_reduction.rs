//! The product-check reduction and the compositions it builds on.

use sumcheck_core::common::Error;
use sumcheck_core::composition::{
    CompositionPoly, ProductComposition, SimpleMultGateComposition,
};
use sumcheck_core::field::Scalar;
use sumcheck_core::oracle::MultilinearPolyOracle;
use sumcheck_core::prodcheck::{reduce_prodcheck_claim, ProdcheckClaim};

#[test]
fn test_simple_mult_gate_composition() {
    let gate = SimpleMultGateComposition;
    assert_eq!(gate.n_vars(), 3);
    assert_eq!(gate.degree(), 2);
    // 5 - 2 * 3 = -1 = 96 mod 97.
    let value = gate
        .evaluate(&vec![
            Scalar::from_u64(5),
            Scalar::from_u64(2),
            Scalar::from_u64(3),
        ])
        .unwrap();
    assert_eq!(value.v, 96);
    // The constraint vanishes exactly when the output is the product.
    let zero = gate
        .evaluate(&vec![
            Scalar::from_u64(6),
            Scalar::from_u64(2),
            Scalar::from_u64(3),
        ])
        .unwrap();
    assert_eq!(zero.v, 0);
    assert_eq!(
        gate.evaluate(&vec![Scalar::from_u64(1)]).err().unwrap(),
        Error::IncorrectQuerySize
    );
}

#[test]
fn test_product_composition() {
    let product = ProductComposition::new(3);
    assert_eq!(product.n_vars(), 3);
    assert_eq!(product.degree(), 3);
    let value = product
        .evaluate(&vec![
            Scalar::from_u64(7),
            Scalar::from_u64(11),
            Scalar::from_u64(13),
        ])
        .unwrap();
    assert_eq!(value.v, (7 * 11 * 13) % 97);
}

#[test]
fn test_reduce_prodcheck_claim_structure() {
    let n_vars = 3usize;
    let t_oracle = MultilinearPolyOracle::Committed { id: 0, n_vars };
    let u_oracle = MultilinearPolyOracle::Committed { id: 1, n_vars };
    let grand_prod_oracle = MultilinearPolyOracle::Committed {
        id: 2,
        n_vars: n_vars + 1,
    };
    let claim = ProdcheckClaim {
        t_oracle: t_oracle.clone(),
        u_oracle: u_oracle.clone(),
        n_vars,
    };
    let reduced = reduce_prodcheck_claim(&claim, grand_prod_oracle.clone()).unwrap();

    // The zerocheck claim is over n_vars + 1 variables with the simple
    // multiplication gate (individual degree two) on three merged
    // oracles.
    let t_prime = &reduced.t_prime_claim.poly;
    assert_eq!(t_prime.n_vars, n_vars + 1);
    assert_eq!(t_prime.max_individual_degree, 2);
    assert_eq!(t_prime.inner.len(), 3);
    let expected_out = MultilinearPolyOracle::Merged(
        Box::new(t_oracle),
        Box::new(MultilinearPolyOracle::ProjectLastVar {
            inner: Box::new(grand_prod_oracle.clone()),
            value: Scalar::one(),
        }),
    );
    assert_eq!(t_prime.inner[0], expected_out);
    let expected_in1 = MultilinearPolyOracle::Merged(
        Box::new(u_oracle),
        Box::new(MultilinearPolyOracle::ProjectFirstVar {
            inner: Box::new(grand_prod_oracle.clone()),
            value: Scalar::zero(),
        }),
    );
    assert_eq!(t_prime.inner[1], expected_in1);
    let expected_in2 = MultilinearPolyOracle::Merged(
        Box::new(MultilinearPolyOracle::ProjectLastVar {
            inner: Box::new(grand_prod_oracle.clone()),
            value: Scalar::zero(),
        }),
        Box::new(MultilinearPolyOracle::ProjectFirstVar {
            inner: Box::new(grand_prod_oracle.clone()),
            value: Scalar::one(),
        }),
    );
    assert_eq!(t_prime.inner[2], expected_in2);

    // The grand product claim pins the polynomial to one at the point
    // (0, 1, ..., 1), which is not a random point.
    let gp = &reduced.grand_product_poly_claim;
    assert_eq!(gp.eval.v, 1);
    assert_eq!(gp.eval_point.len(), n_vars + 1);
    assert_eq!(gp.eval_point[0].v, 0);
    for coordinate in &gp.eval_point[1..] {
        assert_eq!(coordinate.v, 1);
    }
    assert!(!gp.is_random_point);

    // A grand product oracle of the wrong arity is rejected.
    let wrong = MultilinearPolyOracle::Committed { id: 3, n_vars };
    assert_eq!(
        reduce_prodcheck_claim(&claim, wrong).err().unwrap(),
        Error::IncorrectNumberOfVariables
    );
}
