//! Regular sumcheck: prover/verifier interaction, the concrete
//! deterministic-transcript scenario, the sum identity, and the usage
//! errors.

use sumcheck_core::challenger::{Challenger, FixedChallenger, MixingChallenger};
use sumcheck_core::common::{
    setup_first_round_claim, Error, SumcheckClaim, SumcheckRound, SumcheckRoundClaim,
};
use sumcheck_core::composition::{
    CompositionPoly, MultilinearComposite, ProductComposition, SimpleMultGateComposition,
};
use sumcheck_core::domain::EvaluationDomain;
use sumcheck_core::field::Scalar;
use sumcheck_core::multilinear::{MultilinearExtension, MultilinearQuery};
use sumcheck_core::oracle::{CompositePolyOracle, MultilinearPolyOracle};
use sumcheck_core::prover_state::ConstantSwitchover;
use sumcheck_core::sumcheck::{
    prove, validate_witness, verify_final, verify_round, SumcheckProver,
};

fn next_val(state: &mut u64) -> u64 {
    *state = state
        .wrapping_mul(6364136223846793005)
        .wrapping_add(1442695040888963407);
    *state >> 33
}

fn random_multilinear(state: &mut u64, n_vars: usize) -> MultilinearExtension {
    let values = (0..(1usize << n_vars))
        .map(|_| Scalar::from_u64(next_val(state)))
        .collect::<Vec<_>>();
    MultilinearExtension::from_values(values).unwrap()
}

fn product_oracle(n_vars: usize, n_multilinears: usize) -> CompositePolyOracle {
    let inner = (0..n_multilinears)
        .map(|id| MultilinearPolyOracle::Committed { id, n_vars })
        .collect::<Vec<_>>();
    CompositePolyOracle::new(n_vars, inner, n_multilinears).unwrap()
}

fn hypercube_sum<C: CompositionPoly>(witness: &MultilinearComposite<C>) -> Scalar {
    let mut sum = Scalar::zero();
    for i in 0..(1usize << witness.n_vars) {
        sum = sum.add(witness.evaluate_on_hypercube(i).unwrap());
    }
    sum
}

/// Full prover/verifier round trip: the verifier's recomputed claim chain
/// accepts the proof, and the composite evaluated at the challenge point
/// reproduces the final claimed evaluation.
#[test]
fn test_sumcheck_prove_verify_round_trip() {
    let mut seed = 7u64;
    for n_vars in 1..6usize {
        for n_multilinears in 1..4usize {
            let multilins = (0..n_multilinears)
                .map(|_| random_multilinear(&mut seed, n_vars))
                .collect::<Vec<_>>();
            let witness = MultilinearComposite::new(
                n_vars,
                ProductComposition::new(n_multilinears),
                multilins,
            )
            .unwrap();
            let sum = hypercube_sum(&witness);
            let claim = SumcheckClaim {
                poly: product_oracle(n_vars, n_multilinears),
                sum,
            };
            assert!(validate_witness(&claim, &witness).is_ok());
            let domain = EvaluationDomain::standard(n_multilinears + 1).unwrap();
            let mut prover_challenger = MixingChallenger::new();
            let output = prove(
                &claim,
                witness.clone(),
                &domain,
                &mut prover_challenger,
                &ConstantSwitchover { round: (n_vars / 2).max(1) },
            )
            .unwrap();
            assert_eq!(output.sumcheck_proof.rounds.len(), n_vars);

            // Verifier side, replaying the transcript.
            let mut verifier_challenger = MixingChallenger::new();
            let mut round_claim = setup_first_round_claim(&claim);
            let mut challenges = Vec::new();
            for round in &output.sumcheck_proof.rounds {
                for &coeff in &round.coeffs {
                    verifier_challenger.observe(coeff);
                }
                let challenge = verifier_challenger.sample();
                challenges.push(challenge);
                round_claim = verify_round(
                    round_claim,
                    challenge,
                    SumcheckRound { coeffs: round.coeffs.clone() },
                )
                .unwrap();
            }
            let verified = verify_final(&claim.poly, round_claim).unwrap();
            assert_eq!(verified.eval.v, output.evalcheck_claim.eval.v);
            assert_eq!(
                verified.eval_point.len(),
                output.evalcheck_claim.eval_point.len()
            );
            assert!(verified.is_random_point);

            // Fold-evaluate equivalence: evaluating the original composite
            // at the challenge point reproduces the final claimed value.
            let query = MultilinearQuery::with_full_query(&challenges).unwrap();
            let direct = witness.evaluate(&query).unwrap();
            assert_eq!(direct.v, verified.eval.v);
        }
    }
}

/// The sum identity: for every round, the full round polynomial recovered
/// from the truncated message satisfies `r(0) + r(1) = s`.
#[test]
fn test_sum_identity_every_round() {
    let mut seed = 11u64;
    let n_vars = 4usize;
    let n_multilinears = 3usize;
    let multilins = (0..n_multilinears)
        .map(|_| random_multilinear(&mut seed, n_vars))
        .collect::<Vec<_>>();
    let witness =
        MultilinearComposite::new(n_vars, ProductComposition::new(n_multilinears), multilins)
            .unwrap();
    let sum = hypercube_sum(&witness);
    let claim = SumcheckClaim {
        poly: product_oracle(n_vars, n_multilinears),
        sum,
    };
    let domain = EvaluationDomain::standard(n_multilinears + 1).unwrap();
    let mut challenger = MixingChallenger::new();
    let output = prove(
        &claim,
        witness,
        &domain,
        &mut challenger,
        &ConstantSwitchover { round: 2 },
    )
    .unwrap();

    let mut verifier_challenger = MixingChallenger::new();
    let mut current_sum = claim.sum;
    let mut round_claim = setup_first_round_claim(&claim);
    for round in &output.sumcheck_proof.rounds {
        // Recover the omitted top coefficient from the sum identity.
        let mut full = round.coeffs.clone();
        let mut total = Scalar::zero();
        for &coeff in &full {
            total = total.add(coeff);
        }
        let top = current_sum.sub(full[0]).sub(total);
        full.push(top);
        // r(0) + r(1) must equal the running sum.
        let eval_at_zero = full[0];
        let mut eval_at_one = Scalar::zero();
        for &coeff in &full {
            eval_at_one = eval_at_one.add(coeff);
        }
        assert_eq!(eval_at_zero.add(eval_at_one).v, current_sum.v);

        for &coeff in &round.coeffs {
            verifier_challenger.observe(coeff);
        }
        let challenge = verifier_challenger.sample();
        round_claim = verify_round(
            round_claim,
            challenge,
            SumcheckRound { coeffs: round.coeffs.clone() },
        )
        .unwrap();
        current_sum = round_claim.current_round_sum;
    }
}

/// The concrete deterministic scenario: multilinears over 3 variables,
/// the multiplication-gate composite with a padding table chosen so the
/// hypercube sum is a known constant, the fixed challenge sequence
/// `[2, 3, 5]`, a 3-round proof, and the final evalcheck point `[2, 3, 5]`.
#[test]
fn test_concrete_scenario_fixed_transcript() {
    let n_vars = 3usize;
    let a_values = [3u64, 1, 4, 1, 5, 9, 2, 6];
    let b_values = [2u64, 7, 1, 8, 2, 8, 1, 8];
    let known_sum = 42u64;
    // Pick the first table so that f = m0 - a * b sums to the
    // known constant: m0[i] = a[i] * b[i] everywhere except vertex 0,
    // which carries the whole sum.
    let a = MultilinearExtension::from_values(
        a_values.iter().map(|&v| Scalar::from_u64(v)).collect(),
    )
    .unwrap();
    let b = MultilinearExtension::from_values(
        b_values.iter().map(|&v| Scalar::from_u64(v)).collect(),
    )
    .unwrap();
    let out_values = (0..8)
        .map(|i| {
            let product = Scalar::from_u64(a_values[i]).mul(Scalar::from_u64(b_values[i]));
            if i == 0 {
                product.add(Scalar::from_u64(known_sum))
            } else {
                product
            }
        })
        .collect::<Vec<_>>();
    let out = MultilinearExtension::from_values(out_values).unwrap();
    let witness = MultilinearComposite::new(
        n_vars,
        SimpleMultGateComposition,
        vec![out, a, b],
    )
    .unwrap();
    let sum = Scalar::from_u64(known_sum);
    let inner = (0..3)
        .map(|id| MultilinearPolyOracle::Committed { id, n_vars })
        .collect::<Vec<_>>();
    let claim = SumcheckClaim {
        poly: CompositePolyOracle::new(n_vars, inner, 2).unwrap(),
        sum,
    };
    assert!(validate_witness(&claim, &witness).is_ok());
    let domain = EvaluationDomain::standard(3).unwrap();
    let fixed = vec![
        Scalar::from_u64(2),
        Scalar::from_u64(3),
        Scalar::from_u64(5),
    ];
    let mut prover_challenger = FixedChallenger::new(fixed.clone());
    let output = prove(
        &claim,
        witness.clone(),
        &domain,
        &mut prover_challenger,
        &ConstantSwitchover { round: 1 },
    )
    .unwrap();
    assert_eq!(output.sumcheck_proof.rounds.len(), 3);
    assert_eq!(output.evalcheck_claim.eval_point.len(), 3);
    assert_eq!(output.evalcheck_claim.eval_point[0].v, 2);
    assert_eq!(output.evalcheck_claim.eval_point[1].v, 3);
    assert_eq!(output.evalcheck_claim.eval_point[2].v, 5);

    // Verifier recomputation over the same fixed transcript.
    let mut verifier_challenger = FixedChallenger::new(fixed.clone());
    let mut round_claim = setup_first_round_claim(&claim);
    for round in &output.sumcheck_proof.rounds {
        let challenge = verifier_challenger.sample();
        round_claim = verify_round(
            round_claim,
            challenge,
            SumcheckRound { coeffs: round.coeffs.clone() },
        )
        .unwrap();
    }
    let verified = verify_final(&claim.poly, round_claim).unwrap();
    assert_eq!(verified.eval.v, output.evalcheck_claim.eval.v);
    let query = MultilinearQuery::with_full_query(&fixed).unwrap();
    assert_eq!(witness.evaluate(&query).unwrap().v, verified.eval.v);
}

#[test]
fn test_prover_usage_errors() {
    let mut seed = 3u64;
    let n_vars = 2usize;
    let multilins = vec![random_multilinear(&mut seed, n_vars)];
    let witness =
        MultilinearComposite::new(n_vars, ProductComposition::new(1), multilins).unwrap();
    let sum = hypercube_sum(&witness);
    let domain = EvaluationDomain::standard(2).unwrap();

    // A constant composition trivializes the protocol.
    let degree_zero_claim = SumcheckClaim {
        poly: CompositePolyOracle::new(
            n_vars,
            vec![MultilinearPolyOracle::Committed { id: 0, n_vars }],
            0,
        )
        .unwrap(),
        sum,
    };
    assert_eq!(
        SumcheckProver::new(
            &domain,
            &degree_zero_claim,
            witness.clone(),
            &ConstantSwitchover { round: 1 }
        )
        .err()
        .unwrap(),
        Error::PolynomialDegreeIsZero
    );

    // Arity mismatch between claim and witness.
    let mismatched_claim = SumcheckClaim {
        poly: product_oracle(n_vars + 1, 1),
        sum,
    };
    assert_eq!(
        SumcheckProver::new(
            &domain,
            &mismatched_claim,
            witness.clone(),
            &ConstantSwitchover { round: 1 }
        )
        .err()
        .unwrap(),
        Error::ProverClaimWitnessMismatch
    );

    // The evaluation domain must have degree + 1 points.
    let claim = SumcheckClaim {
        poly: product_oracle(n_vars, 1),
        sum,
    };
    let wrong_domain = EvaluationDomain::standard(5).unwrap();
    assert_eq!(
        SumcheckProver::new(
            &wrong_domain,
            &claim,
            witness.clone(),
            &ConstantSwitchover { round: 1 }
        )
        .err()
        .unwrap(),
        Error::EvaluationDomainMismatch
    );

    // Challenge presence must match the round number.
    let mut prover = SumcheckProver::new(
        &domain,
        &claim,
        witness.clone(),
        &ConstantSwitchover { round: 1 },
    )
    .unwrap();
    assert_eq!(
        prover.execute_round(Some(Scalar::from_u64(1))).err().unwrap(),
        Error::PreviousRoundChallengePresent
    );
    let _first = prover.execute_round(None).unwrap();
    assert_eq!(
        prover.execute_round(None).err().unwrap(),
        Error::PreviousRoundChallengeAbsent
    );
    let _second = prover.execute_round(Some(Scalar::from_u64(5))).unwrap();
    // All rounds executed: one more is a usage error, and finalizing now
    // succeeds.
    assert_eq!(
        prover
            .execute_round(Some(Scalar::from_u64(6)))
            .err()
            .unwrap(),
        Error::TooManyExecuteRoundCalls
    );
    assert!(prover.finalize(Some(Scalar::from_u64(6))).is_ok());

    // Premature finalize.
    let mut early = SumcheckProver::new(
        &domain,
        &claim,
        witness.clone(),
        &ConstantSwitchover { round: 1 },
    )
    .unwrap();
    let _ = early.execute_round(None).unwrap();
    assert_eq!(
        early.finalize(Some(Scalar::from_u64(2))).err().unwrap(),
        Error::PrematureFinalizeCall
    );

    // An empty round message is rejected.
    let empty = SumcheckRound { coeffs: Vec::new() };
    let start = SumcheckRoundClaim {
        partial_point: Vec::new(),
        current_round_sum: sum,
    };
    assert_eq!(
        verify_round(start, Scalar::from_u64(2), empty).err().unwrap(),
        Error::NumberOfCoefficients
    );

    // Naive validation detects a wrong claimed sum.
    let wrong_sum_claim = SumcheckClaim {
        poly: product_oracle(n_vars, 1),
        sum: sum.add(Scalar::from_u64(1)),
    };
    assert_eq!(
        validate_witness(&wrong_sum_claim, &witness).err().unwrap(),
        Error::NaiveValidation
    );

    // A composition rejects a query of the wrong width.
    let comp = ProductComposition::new(2);
    assert_eq!(
        comp.evaluate(&vec![Scalar::from_u64(1)]).err().unwrap(),
        Error::IncorrectQuerySize
    );
}

/// Switchover idempotence: the representation transitions exactly once at
/// the chosen round (including both boundary values), and the folded table
/// strictly halves each round down to a single entry.
#[test]
fn test_switchover_transitions_once_and_halves() {
    let mut seed = 19u64;
    let n_vars = 4usize;
    // Only `n_vars - 1` folds happen in a run, so a switchover of
    // `n_vars` keeps the multilinear transparent throughout; every value
    // up to `n_vars - 1` transitions it exactly once.
    for switchover in [1usize, 2, 3] {
        let multilins = vec![random_multilinear(&mut seed, n_vars)];
        let witness =
            MultilinearComposite::new(n_vars, ProductComposition::new(1), multilins).unwrap();
        let sum = hypercube_sum(&witness);
        let claim = SumcheckClaim {
            poly: product_oracle(n_vars, 1),
            sum,
        };
        let domain = EvaluationDomain::standard(2).unwrap();
        let mut prover = SumcheckProver::new(
            &domain,
            &claim,
            witness,
            &ConstantSwitchover { round: switchover },
        )
        .unwrap();
        let mut transitions = 0usize;
        let mut was_folded = false;
        let mut prev_challenge = None;
        for round in 0..n_vars {
            let _ = prover.execute_round(prev_challenge).unwrap();
            prev_challenge = Some(Scalar::from_u64(3 + round as u64));
            let folded_len = match &prover.state.multilinears[0] {
                sumcheck_core::prover_state::SumcheckMultilinear::Transparent {
                    small_field_multilin,
                    ..
                } => {
                    assert!(!was_folded, "a folded multilinear never reverts");
                    assert_eq!(small_field_multilin.evals.len(), 1 << n_vars);
                    None
                }
                sumcheck_core::prover_state::SumcheckMultilinear::Folded {
                    large_field_folded_multilin,
                } => Some(large_field_folded_multilin.evals.len()),
            };
            if let Some(len) = folded_len {
                if !was_folded {
                    transitions += 1;
                    was_folded = true;
                    // The transition happens exactly at the switchover round.
                    assert_eq!(prover.state.round, switchover.min(n_vars));
                }
                // Post-transition the table is exactly halved per round.
                assert_eq!(len, 1 << (n_vars - prover.state.round));
            }
        }
        let _ = prover.finalize(prev_challenge).unwrap();
        assert_eq!(transitions, 1);
    }

    // Boundary value: a switchover of `n_vars` is never reached by the
    // `n_vars - 1` folds, so the representation never transitions (and in
    // particular never reverts).
    let multilins = vec![random_multilinear(&mut seed, n_vars)];
    let witness =
        MultilinearComposite::new(n_vars, ProductComposition::new(1), multilins).unwrap();
    let sum = hypercube_sum(&witness);
    let claim = SumcheckClaim {
        poly: product_oracle(n_vars, 1),
        sum,
    };
    let domain = EvaluationDomain::standard(2).unwrap();
    let mut prover = SumcheckProver::new(
        &domain,
        &claim,
        witness,
        &ConstantSwitchover { round: n_vars },
    )
    .unwrap();
    let mut prev_challenge = None;
    for round in 0..n_vars {
        let _ = prover.execute_round(prev_challenge).unwrap();
        prev_challenge = Some(Scalar::from_u64(3 + round as u64));
        assert!(matches!(
            prover.state.multilinears[0],
            sumcheck_core::prover_state::SumcheckMultilinear::Transparent { .. }
        ));
    }
    let _ = prover.finalize(prev_challenge).unwrap();
}
