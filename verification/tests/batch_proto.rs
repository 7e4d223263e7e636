//! Batching: heterogeneous-arity zerocheck claims through one transcript,
//! the descending-order requirement, and the batched final-evaluation
//! check.

use sumcheck_core::batch::{batch_prove, batch_verify, batch_verify_final};
use sumcheck_core::challenger::MixingChallenger;
use sumcheck_core::common::{Error, SumcheckClaim, SumcheckRoundClaim, ZerocheckClaim};
use sumcheck_core::composition::{MultilinearComposite, ProductComposition};
use sumcheck_core::domain::EvaluationDomain;
use sumcheck_core::field::Scalar;
use sumcheck_core::multilinear::MultilinearExtension;
use sumcheck_core::oracle::{CompositePolyOracle, MultilinearPolyOracle};
use sumcheck_core::prover_state::ConstantSwitchover;

fn next_val(state: &mut u64) -> u64 {
    *state = state
        .wrapping_mul(6364136223846793005)
        .wrapping_add(1442695040888963407);
    *state >> 33
}

fn vanishing_multilinears(
    seed: &mut u64,
    n_vars: usize,
    n_multilinears: usize,
) -> Vec<MultilinearExtension> {
    (0..n_multilinears)
        .map(|j| {
            let values = (0..(1usize << n_vars))
                .map(|i| {
                    if i % n_multilinears != j {
                        Scalar::from_u64(next_val(seed))
                    } else {
                        Scalar::zero()
                    }
                })
                .collect::<Vec<_>>();
            MultilinearExtension::from_values(values).unwrap()
        })
        .collect()
}

fn product_oracle(n_vars: usize, n_multilinears: usize) -> CompositePolyOracle {
    let inner = (0..n_multilinears)
        .map(|id| MultilinearPolyOracle::Committed { id, n_vars })
        .collect::<Vec<_>>();
    CompositePolyOracle::new(n_vars, inner, n_multilinears).unwrap()
}

fn make_instance(
    seed: &mut u64,
    n_vars: usize,
    n_multilinears: usize,
) -> (ZerocheckClaim, MultilinearComposite<ProductComposition>, EvaluationDomain) {
    let multilins = vanishing_multilinears(seed, n_vars, n_multilinears);
    let witness = MultilinearComposite::new(
        n_vars,
        ProductComposition::new(n_multilinears),
        multilins,
    )
    .unwrap();
    let claim = ZerocheckClaim {
        poly: product_oracle(n_vars, n_multilinears),
    };
    let domain = EvaluationDomain::standard(n_multilinears + 1).unwrap();
    (claim, witness, domain)
}

/// Batching claims with shared transcript: different numbers of underlying
/// multilinears, different degrees and different numbers of variables, in
/// descending arity order.
#[test]
fn test_prove_verify_batch() {
    let mut seed = 0u64;
    let mut claims = Vec::new();
    let mut witnesses = Vec::new();
    let mut domains = Vec::new();
    let mut max_n_vars = 0usize;

    // One claim on 6 variables: a product of four multilinears vanishes
    // (degree 4).
    let (claim, witness, domain) = make_instance(&mut seed, 6, 4);
    max_n_vars = max_n_vars.max(6);
    claims.push(claim);
    witnesses.push(witness);
    domains.push(domain);

    // Two claims on 4 variables: products of two and of three
    // multilinears vanish (degrees 2 and 3).
    let (claim, witness, domain) = make_instance(&mut seed, 4, 2);
    max_n_vars = max_n_vars.max(4);
    claims.push(claim);
    witnesses.push(witness);
    domains.push(domain);
    let (claim, witness, domain) = make_instance(&mut seed, 4, 3);
    claims.push(claim);
    witnesses.push(witness);
    domains.push(domain);

    assert_eq!(claims.len(), witnesses.len());
    let prover_challenger = MixingChallenger::new();
    let mut verifier_challenger = prover_challenger.clone();
    let mut prover_challenger = prover_challenger;
    let prove_output = batch_prove(
        &claims,
        witnesses,
        &domains,
        &mut prover_challenger,
        &ConstantSwitchover { round: 3 },
    )
    .unwrap();
    let proof = prove_output.proof;
    assert_eq!(proof.rounds.len(), max_n_vars);

    let evalcheck_claims = batch_verify(&claims, &proof, &mut verifier_challenger).unwrap();
    assert_eq!(evalcheck_claims.len(), claims.len());
    for (verified, proved) in evalcheck_claims
        .iter()
        .zip(prove_output.evalcheck_claims.iter())
    {
        assert_eq!(verified.eval.v, proved.eval.v);
        assert_eq!(verified.eval_point.len(), proved.eval_point.len());
        for (x, y) in verified.eval_point.iter().zip(proved.eval_point.iter()) {
            assert_eq!(x.v, y.v);
        }
    }
}

/// Batch ordering: a batch of claims with arities 8, 6 and 4 runs exactly
/// 8 global rounds and files exactly 3 evaluation claims, each with an
/// eval-point length equal to its own arity; a set not sorted descending
/// is rejected.
#[test]
fn test_batch_ordering_and_arities() {
    let mut seed = 3u64;
    let mut claims = Vec::new();
    let mut witnesses = Vec::new();
    let mut domains = Vec::new();
    for n_vars in [8usize, 6, 4] {
        let (claim, witness, domain) = make_instance(&mut seed, n_vars, 2);
        claims.push(claim);
        witnesses.push(witness);
        domains.push(domain);
    }
    let mut prover_challenger = MixingChallenger::new();
    let mut verifier_challenger = prover_challenger.clone();
    let output = batch_prove(
        &claims,
        witnesses,
        &domains,
        &mut prover_challenger,
        &ConstantSwitchover { round: 2 },
    )
    .unwrap();
    assert_eq!(output.proof.rounds.len(), 8);
    let verified = batch_verify(&claims, &output.proof, &mut verifier_challenger).unwrap();
    assert_eq!(verified.len(), 3);
    assert_eq!(verified[0].eval_point.len(), 8);
    assert_eq!(verified[1].eval_point.len(), 6);
    assert_eq!(verified[2].eval_point.len(), 4);

    // Claims out of descending order are rejected.
    let mut unsorted = Vec::new();
    for n_vars in [4usize, 6, 8] {
        let (claim, _witness, _domain) = make_instance(&mut seed, n_vars, 2);
        unsorted.push(claim);
    }
    let mut challenger = MixingChallenger::new();
    assert_eq!(
        batch_verify(&unsorted, &output.proof, &mut challenger)
            .err()
            .unwrap(),
        Error::OraclesOutOfOrder
    );

    // An empty batch is rejected.
    let empty: Vec<ZerocheckClaim> = Vec::new();
    let mut challenger = MixingChallenger::new();
    assert_eq!(
        batch_verify(&empty, &output.proof, &mut challenger)
            .err()
            .unwrap(),
        Error::EmptyClaimsArray
    );
}

/// The final batched reduction: evaluation claims carry the point suffix
/// matching each claim's arity, and a batched evaluation that disagrees
/// with the final running sum is rejected.
#[test]
fn test_batch_verify_final_checks() {
    let claims = vec![
        SumcheckClaim {
            poly: product_oracle(3, 2),
            sum: Scalar::from_u64(5),
        },
        SumcheckClaim {
            poly: product_oracle(2, 2),
            sum: Scalar::from_u64(9),
        },
    ];
    let batch_coeffs = vec![Scalar::from_u64(4), Scalar::from_u64(6)];
    let evals = vec![Scalar::from_u64(10), Scalar::from_u64(20)];
    // 4 * 10 + 6 * 20 = 160 = 63 mod 97.
    let point = vec![
        Scalar::from_u64(2),
        Scalar::from_u64(3),
        Scalar::from_u64(5),
    ];
    let good_final = SumcheckRoundClaim {
        partial_point: point.clone(),
        current_round_sum: Scalar::from_u64(63),
    };
    let out = batch_verify_final(&claims, &batch_coeffs, &evals, good_final).unwrap();
    assert_eq!(out.len(), 2);
    assert_eq!(out[0].eval_point.len(), 3);
    assert_eq!(out[1].eval_point.len(), 2);
    // The shorter claim reads the last two challenges.
    assert_eq!(out[1].eval_point[0].v, 3);
    assert_eq!(out[1].eval_point[1].v, 5);
    assert_eq!(out[0].eval.v, 10);
    assert_eq!(out[1].eval.v, 20);

    let bad_final = SumcheckRoundClaim {
        partial_point: point.clone(),
        current_round_sum: Scalar::from_u64(64),
    };
    assert_eq!(
        batch_verify_final(&claims, &batch_coeffs, &evals, bad_final)
            .err()
            .unwrap(),
        Error::BatchEvaluationMismatch
    );

    let unsorted = vec![
        SumcheckClaim {
            poly: product_oracle(2, 2),
            sum: Scalar::from_u64(9),
        },
        SumcheckClaim {
            poly: product_oracle(3, 2),
            sum: Scalar::from_u64(5),
        },
    ];
    let another_final = SumcheckRoundClaim {
        partial_point: vec![Scalar::from_u64(2), Scalar::from_u64(3)],
        current_round_sum: Scalar::from_u64(63),
    };
    assert_eq!(
        batch_verify_final(&unsorted, &batch_coeffs, &evals, another_final)
            .err()
            .unwrap(),
        Error::OraclesOutOfOrder
    );

    // One batching coefficient per claim.
    let short_coeffs = vec![Scalar::from_u64(4)];
    let third_final = SumcheckRoundClaim {
        partial_point: point,
        current_round_sum: Scalar::from_u64(63),
    };
    assert_eq!(
        batch_verify_final(&claims, &short_coeffs, &evals, third_final)
            .err()
            .unwrap(),
        Error::NumberOfBatchCoeffs
    );
}

/// The batched verifier's validation chain: every instance needs a round
/// to run, the proof must carry one message per global round and one final
/// evaluation per claim.
#[test]
fn test_batch_verify_validation_errors() {
    let mut seed = 17u64;
    let mut claims = Vec::new();
    let mut witnesses = Vec::new();
    let mut domains = Vec::new();
    for n_vars in [4usize, 3] {
        let (claim, witness, domain) = make_instance(&mut seed, n_vars, 2);
        claims.push(claim);
        witnesses.push(witness);
        domains.push(domain);
    }
    let mut prover_challenger = MixingChallenger::new();
    let output = batch_prove(
        &claims,
        witnesses,
        &domains,
        &mut prover_challenger,
        &ConstantSwitchover { round: 1 },
    )
    .unwrap();

    // One message per global round.
    let mut truncated = output.proof.clone();
    truncated.rounds.pop();
    let mut challenger = MixingChallenger::new();
    assert_eq!(
        batch_verify(&claims, &truncated, &mut challenger)
            .err()
            .unwrap(),
        Error::NumberOfRounds
    );

    // One final evaluation per claim.
    let mut missing_eval = output.proof.clone();
    missing_eval.evals.pop();
    let mut challenger = MixingChallenger::new();
    assert_eq!(
        batch_verify(&claims, &missing_eval, &mut challenger)
            .err()
            .unwrap(),
        Error::NumberOfFinalEvaluations
    );

    // A claim with no variables has no round to enter.
    let zero_arity = ZerocheckClaim {
        poly: product_oracle(0, 2),
    };
    let mut padded_claims = claims.clone();
    padded_claims.push(zero_arity);
    let mut padded_proof = output.proof.clone();
    padded_proof.evals.push(Scalar::zero());
    let mut challenger = MixingChallenger::new();
    assert_eq!(
        batch_verify(&padded_claims, &padded_proof, &mut challenger)
            .err()
            .unwrap(),
        Error::IncorrectNumberOfVariables
    );

    // An empty round message is rejected.
    let mut empty_round = output.proof.clone();
    empty_round.rounds[1] = sumcheck_core::common::SumcheckRound { coeffs: Vec::new() };
    let mut challenger = MixingChallenger::new();
    assert_eq!(
        batch_verify(&claims, &empty_round, &mut challenger)
            .err()
            .unwrap(),
        Error::NumberOfCoefficients
    );
}
