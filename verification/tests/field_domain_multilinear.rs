//! The scalar field, the evaluation domain's interpolation, and the
//! multilinear operations: exact values and error variants.

use sumcheck_core::backend::make_portable_backend;
use sumcheck_core::common::Error;
use sumcheck_core::domain::{extrapolate_line, EvaluationDomain};
use sumcheck_core::field::{Scalar, FIELD_MODULUS};
use sumcheck_core::multilinear::{MultilinearExtension, MultilinearQuery};
use sumcheck_core::univariate::evaluate_univariate;

#[test]
fn test_field_arithmetic_exact() {
    let a = Scalar::from_u64(90);
    let b = Scalar::from_u64(15);
    assert_eq!(a.add(b).v, 8); // 105 mod 97
    assert_eq!(b.sub(a).v, 22); // -75 mod 97
    assert_eq!(a.mul(b).v, 1350 % FIELD_MODULUS);
    assert_eq!(a.neg().v, 7);
    // Every nonzero element has an inverse; zero has none.
    for v in 1..FIELD_MODULUS {
        let x = Scalar { v };
        let inv = x.inv().expect("nonzero scalar must be invertible");
        assert_eq!(x.mul(inv).v, 1);
    }
    assert!(Scalar::zero().inv().is_none());
}

#[test]
fn test_interpolation_round_trip() {
    // Interpolating evaluations over the standard domain yields
    // coefficients that reproduce the values at every domain point.
    let domain = EvaluationDomain::standard(4).unwrap();
    let values = vec![
        Scalar::from_u64(7),
        Scalar::from_u64(3),
        Scalar::from_u64(90),
        Scalar::from_u64(11),
    ];
    let coeffs = domain.interpolate(&values).unwrap();
    assert_eq!(coeffs.len(), 4);
    for (i, expected) in values.iter().enumerate() {
        let x = Scalar::from_u64(i as u64);
        assert_eq!(evaluate_univariate(&coeffs, x).v, expected.v);
    }
    // Extrapolation evaluates the same polynomial off the domain.
    let off = domain.extrapolate(&values, Scalar::from_u64(10)).unwrap();
    assert_eq!(off.v, evaluate_univariate(&coeffs, Scalar::from_u64(10)).v);

    // A linear polynomial: interpolate [5, 12] over {0, 1} -> 5 + 7 X.
    let line_domain = EvaluationDomain::standard(2).unwrap();
    let line = line_domain
        .interpolate(&vec![Scalar::from_u64(5), Scalar::from_u64(12)])
        .unwrap();
    assert_eq!(line[0].v, 5);
    assert_eq!(line[1].v, 7);
}

#[test]
fn test_domain_errors() {
    // Duplicate points are rejected at construction.
    let dup = vec![Scalar::from_u64(1), Scalar::from_u64(1)];
    assert_eq!(
        EvaluationDomain::from_points(dup).err().unwrap(),
        Error::DuplicateDomainPoint
    );
    // A value list of the wrong length is rejected.
    let domain = EvaluationDomain::standard(3).unwrap();
    let short = vec![Scalar::from_u64(1)];
    assert_eq!(
        domain.interpolate(&short).err().unwrap(),
        Error::EvaluationDomainMismatch
    );
    // A domain with a repeated point has a denominator without an
    // inverse.
    let degenerate = EvaluationDomain {
        points: vec![Scalar::from_u64(2), Scalar::from_u64(2)],
    };
    let values = vec![Scalar::from_u64(1), Scalar::from_u64(2)];
    assert_eq!(
        degenerate.interpolate(&values).err().unwrap(),
        Error::NonInvertibleDivisor
    );
    // The standard domain cannot exceed the field size.
    assert!(EvaluationDomain::standard(FIELD_MODULUS as usize + 1).is_err());
}

#[test]
fn test_extrapolate_line_exact() {
    let x0 = Scalar::from_u64(5);
    let x1 = Scalar::from_u64(9);
    assert_eq!(extrapolate_line(x0, x1, Scalar::zero()).v, 5);
    assert_eq!(extrapolate_line(x0, x1, Scalar::one()).v, 9);
    assert_eq!(extrapolate_line(x0, x1, Scalar::from_u64(3)).v, 17);
}

#[test]
fn test_tensor_expansion_exact() {
    // Tensor of challenges [2, 3]: entry t multiplies, per challenge,
    // the challenge where t's bit is set and one minus it where clear.
    let query = MultilinearQuery::with_full_query(&vec![
        Scalar::from_u64(2),
        Scalar::from_u64(3),
    ])
    .unwrap();
    let expansion = &query.expansion;
    assert_eq!(expansion.len(), 4);
    assert_eq!(expansion[0].v, 2); // (1-2)(1-3) = 2
    assert_eq!(expansion[1].v, 93); // 2 (1-3) = -4
    assert_eq!(expansion[2].v, 94); // (1-2) 3 = -3
    assert_eq!(expansion[3].v, 6); // 2 * 3
    let backend = make_portable_backend();
    let via_backend = backend
        .tensor_product_full_query(&vec![Scalar::from_u64(2), Scalar::from_u64(3)])
        .unwrap();
    for (x, y) in via_backend.iter().zip(expansion.iter()) {
        assert_eq!(x.v, y.v);
    }
}

#[test]
fn test_multilinear_evaluation_and_folding() {
    // The table of x0 + 2 x1 on the hypercube: [0, 1, 2, 3].
    let table = MultilinearExtension::from_values(vec![
        Scalar::from_u64(0),
        Scalar::from_u64(1),
        Scalar::from_u64(2),
        Scalar::from_u64(3),
    ])
    .unwrap();
    assert_eq!(table.n_vars, 2);
    // Evaluate at (5, 7): 5 + 14 = 19.
    let query = MultilinearQuery::with_full_query(&vec![
        Scalar::from_u64(5),
        Scalar::from_u64(7),
    ])
    .unwrap();
    assert_eq!(table.evaluate(&query).unwrap().v, 19);
    // Folding the first variable at 5 gives the table of 5 + 2 x1.
    let partial = MultilinearQuery::with_full_query(&vec![Scalar::from_u64(5)]).unwrap();
    let folded = table.evaluate_partial_low(&partial).unwrap();
    assert_eq!(folded.n_vars, 1);
    assert_eq!(folded.evals.len(), 2);
    assert_eq!(folded.evals[0].v, 5);
    assert_eq!(folded.evals[1].v, 7);
    // A non-power-of-two table is rejected.
    let bad = vec![Scalar::from_u64(1); 3];
    assert_eq!(
        MultilinearExtension::from_values(bad).err().unwrap(),
        Error::IncorrectNumberOfVariables
    );
    // Out-of-range lookups are reported.
    assert_eq!(
        table.evaluate_on_hypercube(4).err().unwrap(),
        Error::IncorrectNumberOfVariables
    );
}

#[test]
fn test_eq_ind_tensor_sums_to_one() {
    // The equality indicator sums to one over the hypercube, whatever the
    // challenges.
    let challenges = vec![
        Scalar::from_u64(13),
        Scalar::from_u64(57),
        Scalar::from_u64(96),
    ];
    let eq_ind = sumcheck_core::multilinear::eq_ind_partial_eval(&challenges).unwrap();
    let mut total = Scalar::zero();
    for entry in &eq_ind.evals {
        total = total.add(*entry);
    }
    assert_eq!(total.v, 1);
}
