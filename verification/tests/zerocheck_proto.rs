//! Zerocheck: prover/verifier interaction over a transcript, the
//! zero-claim invariant at round zero, and the weighted identity defense.

use sumcheck_core::challenger::{Challenger, MixingChallenger};
use sumcheck_core::common::{Error, ZerocheckClaim};
use sumcheck_core::composition::{MultilinearComposite, ProductComposition};
use sumcheck_core::domain::EvaluationDomain;
use sumcheck_core::field::Scalar;
use sumcheck_core::multilinear::{MultilinearExtension, MultilinearQuery};
use sumcheck_core::oracle::{CompositePolyOracle, MultilinearPolyOracle};
use sumcheck_core::prover_state::ConstantSwitchover;
use sumcheck_core::zerocheck::{prove, verify, ZerocheckProver};

fn next_val(state: &mut u64) -> u64 {
    *state = state
        .wrapping_mul(6364136223846793005)
        .wrapping_add(1442695040888963407);
    *state >> 33
}

/// Multilinears whose pointwise product vanishes on the whole hypercube:
/// at vertex `i`, multilinear `i % n_multilinears` is zero.
fn generate_poly_helper(
    seed: &mut u64,
    n_vars: usize,
    n_multilinears: usize,
) -> Vec<MultilinearExtension> {
    let multilinears = (0..n_multilinears)
        .map(|j| {
            let values = (0..(1usize << n_vars))
                .map(|i| {
                    if i % n_multilinears != j {
                        Scalar::from_u64(next_val(seed))
                    } else {
                        Scalar::zero()
                    }
                })
                .collect::<Vec<_>>();
            MultilinearExtension::from_values(values).unwrap()
        })
        .collect::<Vec<_>>();

    // Sanity check that the product vanishes everywhere.
    for i in 0..(1usize << n_vars) {
        let mut product = Scalar::one();
        for multilinear in &multilinears {
            product = product.mul(multilinear.evaluate_on_hypercube(i).unwrap());
        }
        assert_eq!(product.v, 0, "zerocheck witness must vanish");
    }
    multilinears
}

fn product_oracle(n_vars: usize, n_multilinears: usize) -> CompositePolyOracle {
    let inner = (0..n_multilinears)
        .map(|id| MultilinearPolyOracle::Committed { id, n_vars })
        .collect::<Vec<_>>();
    CompositePolyOracle::new(n_vars, inner, n_multilinears).unwrap()
}

fn test_prove_verify_interaction_helper(
    seed: &mut u64,
    n_vars: usize,
    n_multilinears: usize,
    switchover_rd: usize,
) {
    let multilins = generate_poly_helper(seed, n_vars, n_multilinears);
    let zc_witness = MultilinearComposite::new(
        n_vars,
        ProductComposition::new(n_multilinears),
        multilins,
    )
    .unwrap();
    let zc_claim = ZerocheckClaim {
        poly: product_oracle(n_vars, n_multilinears),
    };
    let domain = EvaluationDomain::standard(n_multilinears + 1).unwrap();
    let mut prover_challenger = MixingChallenger::new();
    let mut verifier_challenger = prover_challenger.clone();

    let output = prove(
        &zc_claim,
        zc_witness.clone(),
        &domain,
        &mut prover_challenger,
        &ConstantSwitchover { round: switchover_rd },
    )
    .expect("failed to prove zerocheck");

    let verified_claim = verify(
        &zc_claim,
        &output.zerocheck_proof,
        &mut verifier_challenger,
    )
    .expect("failed to verify zerocheck");

    // Prover and verifier agree on the reduced evalcheck claim.
    assert_eq!(verified_claim.eval.v, output.evalcheck_claim.eval.v);
    assert_eq!(
        verified_claim.eval_point.len(),
        output.evalcheck_claim.eval_point.len()
    );
    for (x, y) in verified_claim
        .eval_point
        .iter()
        .zip(output.evalcheck_claim.eval_point.iter())
    {
        assert_eq!(x.v, y.v);
    }
    assert_eq!(verified_claim.eval_point.len(), n_vars);
    assert!(output.evalcheck_claim.is_random_point);

    // The evalcheck claim is correct: the witness really evaluates there.
    let query = MultilinearQuery::with_full_query(&verified_claim.eval_point).unwrap();
    let actual = zc_witness.evaluate(&query).unwrap();
    assert_eq!(actual.v, verified_claim.eval.v);
}

#[test]
fn test_zerocheck_prove_verify_interaction_basic() {
    let mut seed = 0u64;
    for n_vars in 2..8usize {
        for n_multilinears in 1..5usize {
            for switchover_rd in 1..=(n_vars / 2) {
                test_prove_verify_interaction_helper(
                    &mut seed,
                    n_vars,
                    n_multilinears,
                    switchover_rd,
                );
            }
        }
    }
}

#[test]
fn test_zerocheck_prove_verify_interaction_pigeonhole_cores() {
    // The reduction is scheduled one vertex at a time here, so exercise
    // the arities a worker pool of one to eight threads would pick.
    let mut seed = 0u64;
    for n_threads in [1usize, 2, 4, 8] {
        let n_vars = (usize::BITS - (n_threads - 1).leading_zeros()) as usize + 1;
        for n_multilinears in 1..5usize {
            for switchover_rd in 1..=(n_vars / 2).max(1) {
                test_prove_verify_interaction_helper(
                    &mut seed,
                    n_vars.max(2),
                    n_multilinears,
                    switchover_rd,
                );
            }
        }
    }
}

/// Zero-claim invariant: a zerocheck starts with a running sum of zero,
/// and the first round's message has `degree - 1` coefficients: the
/// evaluations at zero and one are never computed because both are known
/// to vanish.
#[test]
fn test_zero_claim_round_zero() {
    let mut seed = 5u64;
    let n_vars = 3usize;
    let n_multilinears = 2usize;
    let multilins = generate_poly_helper(&mut seed, n_vars, n_multilinears);
    let witness = MultilinearComposite::new(
        n_vars,
        ProductComposition::new(n_multilinears),
        multilins,
    )
    .unwrap();
    let claim = ZerocheckClaim {
        poly: product_oracle(n_vars, n_multilinears),
    };
    let domain = EvaluationDomain::standard(n_multilinears + 1).unwrap();
    let challenges = vec![Scalar::from_u64(7), Scalar::from_u64(11)];
    let mut prover = ZerocheckProver::new(
        &domain,
        &claim,
        witness,
        &challenges,
        &ConstantSwitchover { round: 1 },
    )
    .unwrap();
    assert_eq!(prover.round_claim.current_round_sum.v, 0);
    assert_eq!(prover.round_claim.partial_point.len(), 0);
    let first_round = prover.execute_round(None).unwrap();
    // Degree-2 composite: the full round polynomial has 3 coefficients;
    // the constant one is omitted, and of the remaining evaluations only
    // X = 2 was computed.
    assert_eq!(first_round.coeffs.len(), n_multilinears);
}

/// Usage and verification errors on the zerocheck side.
#[test]
fn test_zerocheck_errors() {
    let mut seed = 9u64;
    let n_vars = 2usize;
    let multilins = generate_poly_helper(&mut seed, n_vars, 2);
    let witness =
        MultilinearComposite::new(n_vars, ProductComposition::new(2), multilins).unwrap();
    let domain = EvaluationDomain::standard(3).unwrap();
    let challenges = vec![Scalar::from_u64(7)];

    // Degree zero is rejected.
    let degree_zero = ZerocheckClaim {
        poly: CompositePolyOracle::new(
            n_vars,
            vec![
                MultilinearPolyOracle::Committed { id: 0, n_vars },
                MultilinearPolyOracle::Committed { id: 1, n_vars },
            ],
            0,
        )
        .unwrap(),
    };
    assert_eq!(
        ZerocheckProver::new(
            &domain,
            &degree_zero,
            witness.clone(),
            &challenges,
            &ConstantSwitchover { round: 1 }
        )
        .err()
        .unwrap(),
        Error::PolynomialDegreeIsZero
    );

    // Too few zerocheck challenges.
    let claim = ZerocheckClaim {
        poly: product_oracle(n_vars, 2),
    };
    assert_eq!(
        ZerocheckProver::new(
            &domain,
            &claim,
            witness.clone(),
            &Vec::new(),
            &ConstantSwitchover { round: 1 }
        )
        .err()
        .unwrap(),
        Error::NotEnoughZerocheckChallenges
    );

    // A proof with the wrong number of rounds is rejected.
    let mut challenger = MixingChallenger::new();
    let mut verifier_challenger = challenger.clone();
    let output = prove(
        &claim,
        witness,
        &domain,
        &mut challenger,
        &ConstantSwitchover { round: 1 },
    )
    .unwrap();
    let mut truncated = output.zerocheck_proof.clone();
    truncated.rounds.pop();
    assert_eq!(
        verify(&claim, &truncated, &mut verifier_challenger)
            .err()
            .unwrap(),
        Error::NumberOfRounds
    );

    // A zerocheck challenge of exactly one leaves the weighted identity's
    // denominator without an inverse; the round reports it instead of
    // dividing.
    let mut seed2 = 21u64;
    let n_vars2 = 2usize;
    let multilins2 = generate_poly_helper(&mut seed2, n_vars2, 2);
    let witness2 =
        MultilinearComposite::new(n_vars2, ProductComposition::new(2), multilins2).unwrap();
    let claim2 = ZerocheckClaim {
        poly: product_oracle(n_vars2, 2),
    };
    let unit_challenges = vec![Scalar::one()];
    let mut prover = ZerocheckProver::new(
        &domain,
        &claim2,
        witness2,
        &unit_challenges,
        &ConstantSwitchover { round: 1 },
    )
    .unwrap();
    let _first = prover.execute_round(None).unwrap();
    assert_eq!(
        prover
            .execute_round(Some(Scalar::from_u64(4)))
            .err()
            .unwrap(),
        Error::NonInvertibleDivisor
    );
}

/// The zerocheck-challenge-weighted sum identity: in every round after the
/// first, the full round polynomial recovered from the truncated message
/// satisfies `alpha * r(1) + (1 - alpha) * r(0) = s`; in the first round
/// both `r(0)` and `r(1)` vanish.
#[test]
fn test_weighted_sum_identity_every_round() {
    let mut seed = 13u64;
    let n_vars = 4usize;
    let n_multilinears = 3usize;
    let multilins = generate_poly_helper(&mut seed, n_vars, n_multilinears);
    let witness = MultilinearComposite::new(
        n_vars,
        ProductComposition::new(n_multilinears),
        multilins,
    )
    .unwrap();
    let claim = ZerocheckClaim {
        poly: product_oracle(n_vars, n_multilinears),
    };
    let domain = EvaluationDomain::standard(n_multilinears + 1).unwrap();
    let mut prover_challenger = MixingChallenger::new();
    let mut verifier_challenger = prover_challenger.clone();
    let output = prove(
        &claim,
        witness,
        &domain,
        &mut prover_challenger,
        &ConstantSwitchover { round: 2 },
    )
    .unwrap();

    // Replay the verifier's transcript by hand to inspect each round.
    let mut alphas = Vec::new();
    for _ in 0..(n_vars - 1) {
        alphas.push(verifier_challenger.sample());
    }
    let mut current_sum = Scalar::zero();
    for (round_no, round) in output.zerocheck_proof.rounds.iter().enumerate() {
        // Recover the omitted constant coefficient.
        let mut coeff_total = Scalar::zero();
        for &coeff in &round.coeffs {
            coeff_total = coeff_total.add(coeff);
        }
        let constant = if round_no == 0 {
            Scalar::zero()
        } else {
            let alpha = alphas[round_no - 1];
            current_sum.sub(alpha.mul(coeff_total))
        };
        let mut full = vec![constant];
        full.extend_from_slice(&round.coeffs);
        let eval_at_zero = full[0];
        let mut eval_at_one = Scalar::zero();
        for &coeff in &full {
            eval_at_one = eval_at_one.add(coeff);
        }
        if round_no == 0 {
            // Round zero: both unit evaluations vanish by construction.
            assert_eq!(eval_at_zero.v, 0);
        } else {
            let alpha = alphas[round_no - 1];
            let weighted = alpha
                .mul(eval_at_one)
                .add(Scalar::one().sub(alpha).mul(eval_at_zero));
            assert_eq!(weighted.v, current_sum.v);
        }
        for &coeff in &round.coeffs {
            verifier_challenger.observe(coeff);
        }
        let challenge = verifier_challenger.sample();
        current_sum = sumcheck_core::univariate::evaluate_univariate(&full, challenge);
    }
}
