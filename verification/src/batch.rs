//! The batch coordinator: many zerocheck instances of possibly different
//! arity driven through one shared transcript.
//!
//! Claims are admitted sorted descending by arity. An instance with `m`
//! variables participates in the last `m` of the `max(n_vars)` global
//! rounds, so every instance's zerocheck challenges are a suffix of the
//! largest instance's. Each instance entering a round draws a
//! transcript-sampled batching coefficient, and the round's messages are
//! sent as one coefficient list: the scaled sum of the active instances'
//! messages, which keeps the combined degree bounded.

use vstd::prelude::*;

verus! {

use crate::challenger::{observe_slice, sample_vec, Challenger};
use crate::common::{
    Error, EvalcheckClaim, SumcheckClaim, SumcheckRound, SumcheckRoundClaim, ZerocheckClaim,
};
use crate::composition::{CompositionPoly, MultilinearComposite};
use crate::domain::EvaluationDomain;
use crate::field::{fadd_int, fmul_int, Scalar};
use crate::prover_state::SwitchoverPolicy;
use crate::sumcheck::copy_scalars;
use crate::univariate::{vals, wf_scalars};
use crate::zerocheck::ZerocheckProver;
use vstd::arithmetic::power2::pow2;

/// Claims sorted descending by number of variables.
pub open spec fn sorted_descending_zc(claims: Seq<ZerocheckClaim>) -> bool {
    forall|i: int|
        0 <= i < claims.len() - 1 ==> (#[trigger] claims[i]).poly.n_vars >= claims[i
            + 1].poly.n_vars
}

/// Claims sorted descending by number of variables.
pub open spec fn sorted_descending_sc(claims: Seq<SumcheckClaim>) -> bool {
    forall|i: int|
        0 <= i < claims.len() - 1 ==> (#[trigger] claims[i]).poly.n_vars >= claims[i
            + 1].poly.n_vars
}

/// The number of global rounds a batch runs: the arity of its largest
/// claim.
pub open spec fn batch_n_rounds(claims: Seq<SumcheckClaim>) -> int {
    if claims.len() > 0 {
        claims[0].poly.n_vars as int
    } else {
        0
    }
}

/// The batched final evaluation: the sum of each claim's evaluation scaled
/// by its batching coefficient.
pub open spec fn weighted_eval_sum(evals: Seq<int>, coeffs: Seq<int>, upto: int) -> int
    decreases upto,
{
    if upto <= 0 {
        0
    } else {
        fadd_int(
            weighted_eval_sum(evals, coeffs, upto - 1),
            fmul_int(evals[upto - 1], coeffs[upto - 1]),
        )
    }
}

/// A batched zerocheck proof: one combined message per global round, and
/// each instance's claimed final evaluation.
#[derive(Clone, Debug)]
pub struct ZerocheckBatchProof {
    pub rounds: Vec<SumcheckRound>,
    pub evals: Vec<Scalar>,
}

impl ZerocheckBatchProof {
    pub open spec fn wf(self) -> bool {
        (forall|i: int| 0 <= i < self.rounds@.len() ==> (#[trigger] self.rounds@[i]).wf())
            && wf_scalars(self.evals@)
    }
}

/// What batch proving produces: the shared proof, and one evalcheck claim
/// per instance.
#[derive(Clone, Debug)]
pub struct ZerocheckBatchProveOutput {
    pub evalcheck_claims: Vec<EvalcheckClaim>,
    pub proof: ZerocheckBatchProof,
}

/// Add a scaled message into the batched accumulator, growing it when the
/// message is longer.
fn add_scaled_coeffs(accumulator: &mut Vec<Scalar>, scale: Scalar, coeffs: &Vec<Scalar>)
    requires
        wf_scalars(old(accumulator)@),
        scale.wf(),
        wf_scalars(coeffs@),
    ensures
        wf_scalars(final(accumulator)@),
        final(accumulator)@.len() == if old(accumulator)@.len() >= coeffs@.len() {
            old(accumulator)@.len()
        } else {
            coeffs@.len()
        },
        forall|k: int|
            0 <= k < final(accumulator)@.len() ==> (#[trigger] final(accumulator)@[k])@
                == fadd_int(
                if k < old(accumulator)@.len() {
                    old(accumulator)@[k]@
                } else {
                    0
                },
                fmul_int(
                    scale@,
                    if k < coeffs@.len() {
                        coeffs@[k]@
                    } else {
                        0
                    },
                ),
            ),
{
    let ghost pre = accumulator@;
    let mut k: usize = 0;
    while k < accumulator.len()
        invariant
            wf_scalars(pre),
            scale.wf(),
            wf_scalars(coeffs@),
            k <= accumulator@.len(),
            accumulator@.len() == pre.len(),
            wf_scalars(accumulator@),
            forall|t: int|
                0 <= t < k ==> (#[trigger] accumulator@[t])@ == fadd_int(
                    pre[t]@,
                    fmul_int(
                        scale@,
                        if t < coeffs@.len() {
                            coeffs@[t]@
                        } else {
                            0
                        },
                    ),
                ),
            forall|t: int| k <= t < pre.len() ==> accumulator@[t] == pre[t],
        decreases accumulator@.len() - k,
    {
        proof {
            assert(accumulator@[k as int].wf());
        }
        let add_on = if k < coeffs.len() {
            proof {
                assert(coeffs@[k as int].wf());
            }
            scale.mul(coeffs[k])
        } else {
            proof {
                crate::field::lemma_small_mod_identity(0);
                assert(scale@ * 0 == 0);
            }
            Scalar::zero()
        };
        let cur = accumulator[k];
        accumulator.set(k, cur.add(add_on));
        k = k + 1;
    }
    while k < coeffs.len()
        invariant
            wf_scalars(pre),
            scale.wf(),
            wf_scalars(coeffs@),
            pre.len() <= k <= coeffs@.len() || (k == pre.len() && k >= coeffs@.len()),
            accumulator@.len() == k || (accumulator@.len() == pre.len() && pre.len()
                >= coeffs@.len()),
            wf_scalars(accumulator@),
            forall|t: int|
                0 <= t < accumulator@.len() && t < k ==> (#[trigger] accumulator@[t])@
                    == fadd_int(
                    if t < pre.len() {
                        pre[t]@
                    } else {
                        0
                    },
                    fmul_int(
                        scale@,
                        if t < coeffs@.len() {
                            coeffs@[t]@
                        } else {
                            0
                        },
                    ),
                ),
        decreases coeffs@.len() - k,
    {
        proof {
            assert(coeffs@[k as int].wf());
        }
        accumulator.push(Scalar::zero().add(scale.mul(coeffs[k])));
        k = k + 1;
    }
}

/// A batch of well-formed degree-one instances: every claim is multilinear
/// (individual degree one), has a round to run, matches its witness and its
/// two-point domain, and fits the machine. No interpolation or division
/// happens for such a batch, so no sampled challenge can fail it.
pub open spec fn zc_batch_degree_one_ok<C: CompositionPoly>(
    claims: Seq<ZerocheckClaim>,
    witnesses: Seq<MultilinearComposite<C>>,
    domains: Seq<EvaluationDomain>,
) -> bool {
    &&& claims.len() > 0
    &&& sorted_descending_zc(claims)
    &&& witnesses.len() == claims.len()
    &&& domains.len() == claims.len()
    &&& forall|i: int|
        0 <= i < claims.len() ==> (#[trigger] claims[i]).poly.max_individual_degree == 1
            && claims[i].poly.n_vars >= 1 && witnesses[i].n_vars == claims[i].poly.n_vars
            && domains[i].points@.len() == 2 && vstd::arithmetic::power2::pow2(
            claims[i].poly.n_vars as nat,
        ) <= usize::MAX
}

/// Prove a batch of zerocheck claims over one shared transcript.
///
/// The claims must come sorted descending by number of variables; each
/// instance joins at the global round where its own arity starts fitting
/// and is scaled by a freshly sampled batching coefficient.
#[verifier::rlimit(100)]
pub fn batch_prove<'a, C: CompositionPoly, S: SwitchoverPolicy, CH: Challenger>(
    claims: &Vec<ZerocheckClaim>,
    witnesses: Vec<MultilinearComposite<C>>,
    domains: &'a Vec<EvaluationDomain>,
    challenger: &mut CH,
    switchover_policy: &S,
) -> (r: Result<ZerocheckBatchProveOutput, Error>)
    requires
        old(challenger).wf(),
        forall|i: int| 0 <= i < claims@.len() ==> (#[trigger] claims@[i]).wf(),
        forall|i: int| 0 <= i < witnesses@.len() ==> (#[trigger] witnesses@[i]).wf(),
        forall|i: int| 0 <= i < domains@.len() ==> (#[trigger] domains@[i]).wf(),
    ensures
        final(challenger).wf(),
        claims@.len() == 0 ==> r is Err && r->Err_0 == Error::EmptyClaimsArray,
        claims@.len() > 0 && !sorted_descending_zc(claims@) ==> r is Err && r->Err_0
            == Error::OraclesOutOfOrder,
        claims@.len() > 0 && sorted_descending_zc(claims@) && witnesses@.len()
            != claims@.len() ==> r is Err && r->Err_0 == Error::ProverClaimWitnessMismatch,
        claims@.len() > 0 && sorted_descending_zc(claims@) && witnesses@.len()
            == claims@.len() && domains@.len() != claims@.len() ==> r is Err && r->Err_0
            == Error::EvaluationDomainMismatch,
        claims@.len() > 0 && sorted_descending_zc(claims@) && witnesses@.len()
            == claims@.len() && domains@.len() == claims@.len() && claims@[0].poly.n_vars
            == 0 ==> r is Err && r->Err_0 == Error::IncorrectNumberOfVariables,
        zc_batch_degree_one_ok(claims@, witnesses@, domains@) ==> r is Ok,
        r is Ok ==> {
            let out = r->Ok_0;
            &&& out.proof.wf()
            &&& out.proof.rounds@.len() == claims@[0].poly.n_vars
            &&& out.proof.evals@.len() == claims@.len()
            &&& out.evalcheck_claims@.len() == claims@.len()
            &&& forall|i: int|
                0 <= i < claims@.len() ==> (#[trigger] out.evalcheck_claims@[i]).wf()
                    && out.evalcheck_claims@[i].eval_point@.len() == claims@[i].poly.n_vars
                    && crate::oracle::same_oracle(
                    out.evalcheck_claims@[i].poly,
                    claims@[i].poly,
                )
        },
{
    let n_claims = claims.len();
    if n_claims == 0 {
        return Err(Error::EmptyClaimsArray);
    }
    let mut i: usize = 1;
    while i < n_claims
        invariant
            challenger.wf(),
            forall|j: int| 0 <= j < claims@.len() ==> (#[trigger] claims@[j]).wf(),
            n_claims == claims@.len(),
            1 <= i,
            forall|j: int|
                0 <= j < i - 1 ==> (#[trigger] claims@[j]).poly.n_vars >= claims@[j
                    + 1].poly.n_vars,
        decreases n_claims - i,
    {
        if claims[i - 1].poly.n_vars < claims[i].poly.n_vars {
            return Err(Error::OraclesOutOfOrder);
        }
        i = i + 1;
    }
    if witnesses.len() != n_claims {
        return Err(Error::ProverClaimWitnessMismatch);
    }
    if domains.len() != n_claims {
        return Err(Error::EvaluationDomainMismatch);
    }
    let max_n_vars = claims[0].n_vars();
    if max_n_vars == 0 {
        return Err(Error::IncorrectNumberOfVariables);
    }
    let ghost degree_one_batch = zc_batch_degree_one_ok(claims@, witnesses@, domains@);
    proof {
        assert forall|j: int| 0 <= j < claims@.len() implies (#[trigger] claims@[
            j]).poly.n_vars <= max_n_vars by {
            lemma_sorted_head_bound(claims@, j);
        }
    }
    let zerocheck_challenges = sample_vec(challenger, max_n_vars - 1);
    // Build one prover per instance; each takes the suffix of the shared
    // zerocheck challenges that its arity needs. Its batching coefficient
    // is drawn when it first becomes active.
    let mut provers: Vec<(ZerocheckProver<'a, C>, Option<Scalar>)> = Vec::new();
    let mut rest = witnesses;
    let mut idx: usize = 0;
    while rest.len() > 0
        invariant
            challenger.wf(),
            sorted_descending_zc(claims@),
            forall|j: int| 0 <= j < claims@.len() ==> (#[trigger] claims@[j]).wf(),
            forall|j: int| 0 <= j < domains@.len() ==> (#[trigger] domains@[j]).wf(),
            forall|j: int| 0 <= j < rest@.len() ==> (#[trigger] rest@[j]).wf(),
            forall|j: int| 0 <= j < rest@.len() ==> #[trigger] rest@[j] == witnesses@[idx + j],
            wf_scalars(zerocheck_challenges@),
            n_claims == claims@.len(),
            witnesses@.len() == n_claims,
            degree_one_batch == zc_batch_degree_one_ok(claims@, witnesses@, domains@),
            max_n_vars == claims@[0].poly.n_vars,
            max_n_vars >= 1,
            forall|j: int|
                0 <= j < claims@.len() ==> (#[trigger] claims@[j]).poly.n_vars
                    <= max_n_vars,
            zerocheck_challenges@.len() == max_n_vars - 1,
            n_claims == claims@.len(),
            domains@.len() == n_claims,
            idx + rest@.len() == n_claims,
            provers@.len() == idx,
            forall|j: int|
                0 <= j < idx ==> (#[trigger] provers@[j]).0.wf() && provers@[j].0.round == 0
                    && provers@[j].0.oracle.n_vars == claims@[j].poly.n_vars
                    && provers@[j].1 is None && crate::oracle::same_oracle(
                    provers@[j].0.oracle,
                    claims@[j].poly,
                ),
        decreases rest@.len(),
    {
        let witness = match remove_first(&mut rest) {
            Some(w) => w,
            None => {
                proof {
                    assert(false);
                }
                return Err(Error::ProverClaimWitnessMismatch);
            },
        };
        let prover = match ZerocheckProver::new(
            &domains[idx],
            &claims[idx],
            witness,
            &zerocheck_challenges,
            switchover_policy,
        ) {
            Ok(p) => p,
            Err(e) => {
                proof {
                    if degree_one_batch {
                        // A degree-one instance always constructs: nothing
                        // needs inverting and the scratch is empty.
                        vstd::arithmetic::mul::lemma_mul_basics(
                            pow2((claims@[idx as int].poly.n_vars - 1) as nat) as int,
                        );
                        assert(crate::zerocheck::zc_new_ok(
                            domains@[idx as int],
                            claims@[idx as int],
                            witness,
                            zerocheck_challenges@,
                        ));
                        assert(false);
                    }
                }
                return Err(e);
            },
        };
        provers.push((prover, None));
        idx = idx + 1;
    }
    // Run the global rounds; instances join late so their challenges are
    // the suffix of the shared sequence.
    let mut rounds: Vec<SumcheckRound> = Vec::new();
    let mut prev_challenge: Option<Scalar> = None;
    let mut round_no: usize = 0;
    proof {
        assert forall|j: int| 0 <= j < claims@.len() implies (#[trigger] claims@[
            j]).poly.n_vars <= max_n_vars by {
            lemma_sorted_head_bound(claims@, j);
        }
    }
    while round_no < max_n_vars
        invariant
            challenger.wf(),
            sorted_descending_zc(claims@),
            forall|j: int|
                0 <= j < claims@.len() ==> (#[trigger] claims@[j]).poly.n_vars
                    <= max_n_vars,
            forall|j: int| 0 <= j < claims@.len() ==> (#[trigger] claims@[j]).wf(),
            n_claims == claims@.len(),
            n_claims >= 1,
            witnesses@.len() == n_claims,
            domains@.len() == n_claims,
            degree_one_batch == zc_batch_degree_one_ok(claims@, witnesses@, domains@),
            provers@.len() == n_claims,
            max_n_vars == claims@[0].poly.n_vars,
            round_no <= max_n_vars,
            prev_challenge is Some <==> round_no > 0,
            prev_challenge is Some ==> prev_challenge->0.wf(),
            rounds@.len() == round_no,
            forall|j: int| 0 <= j < round_no ==> (#[trigger] rounds@[j]).wf(),
            forall|j: int|
                0 <= j < n_claims ==> (#[trigger] provers@[j]).0.wf()
                    && provers@[j].0.oracle.n_vars == claims@[j].poly.n_vars
                    && crate::oracle::same_oracle(provers@[j].0.oracle, claims@[j].poly)
                    && (provers@[j].1 is Some ==> provers@[j].1->0.wf())
                    && provers@[j].0.round as int == (if claims@[j].poly.n_vars as int
                    + round_no >= max_n_vars {
                    claims@[j].poly.n_vars + round_no - max_n_vars
                } else {
                    0
                }),
        decreases max_n_vars - round_no,
    {
        let mut batched: Vec<Scalar> = Vec::new();
        let mut next_provers: Vec<(ZerocheckProver<'a, C>, Option<Scalar>)> = Vec::new();
        let mut rest_provers = provers;
        let mut j: usize = 0;
        while rest_provers.len() > 0
            invariant
                challenger.wf(),
                sorted_descending_zc(claims@),
                forall|t: int|
                    0 <= t < claims@.len() ==> (#[trigger] claims@[t]).poly.n_vars
                        <= max_n_vars,
                forall|t: int| 0 <= t < claims@.len() ==> (#[trigger] claims@[t]).wf(),
                n_claims == claims@.len(),
                witnesses@.len() == n_claims,
                domains@.len() == n_claims,
                degree_one_batch == zc_batch_degree_one_ok(claims@, witnesses@, domains@),
                max_n_vars == claims@[0].poly.n_vars,
                round_no < max_n_vars,
                prev_challenge is Some <==> round_no > 0,
                prev_challenge is Some ==> prev_challenge->0.wf(),
                j + rest_provers@.len() == n_claims,
                next_provers@.len() == j,
                wf_scalars(batched@),
                forall|t: int|
                    0 <= t < rest_provers@.len() ==> (#[trigger] rest_provers@[t]).0.wf()
                        && rest_provers@[t].0.oracle.n_vars == claims@[j + t].poly.n_vars
                        && crate::oracle::same_oracle(
                        rest_provers@[t].0.oracle,
                        claims@[j + t].poly,
                    ) && (rest_provers@[t].1 is Some ==> rest_provers@[t].1->0.wf())
                        && rest_provers@[t].0.round as int == (if claims@[j
                        + t].poly.n_vars as int + round_no >= max_n_vars {
                        claims@[j + t].poly.n_vars + round_no - max_n_vars
                    } else {
                        0
                    }),
                forall|t: int|
                    0 <= t < j ==> (#[trigger] next_provers@[t]).0.wf()
                        && next_provers@[t].0.oracle.n_vars == claims@[t].poly.n_vars
                        && crate::oracle::same_oracle(
                        next_provers@[t].0.oracle,
                        claims@[t].poly,
                    ) && (next_provers@[t].1 is Some ==> next_provers@[t].1->0.wf())
                        && next_provers@[t].0.round as int == (if claims@[
                        t].poly.n_vars as int + round_no + 1 >= max_n_vars {
                        claims@[t].poly.n_vars + round_no + 1 - max_n_vars
                    } else {
                        0
                    }),
            decreases rest_provers@.len(),
        {
            let pair = match remove_first(&mut rest_provers) {
                Some(p) => p,
                None => {
                    return Err(Error::NumberOfBatchCoeffs);
                },
            };
            let (mut prover, mut coeff) = pair;
            let instance_n_vars = prover.n_vars();
            if instance_n_vars >= max_n_vars - round_no {
                // The instance participates in this round.
                if coeff.is_none() {
                    // Joining now: draw its batching coefficient.
                    coeff = Some(challenger.sample());
                }
                let scale = match coeff {
                    Some(s) => s,
                    None => {
                        proof {
                            assert(false);
                        }
                        return Err(Error::NumberOfBatchCoeffs);
                    },
                };
                let instance_prev = if prover.round > 0 {
                    prev_challenge
                } else {
                    None
                };
                let instance_round = match prover.execute_round(instance_prev) {
                    Ok(rp) => rp,
                    Err(e) => {
                        proof {
                            if degree_one_batch {
                                // A degree-one round has nothing to
                                // interpolate or invert: it cannot fail.
                                assert(crate::zerocheck::zc_execute_ok(
                                    prover,
                                    instance_prev,
                                ));
                                assert(false);
                            }
                        }
                        return Err(e);
                    },
                };
                add_scaled_coeffs(&mut batched, scale, &instance_round.coeffs);
            }
            next_provers.push((prover, coeff));
            j = j + 1;
        }
        provers = next_provers;
        observe_slice(challenger, &batched);
        prev_challenge = Some(challenger.sample());
        rounds.push(SumcheckRound { coeffs: batched });
        round_no = round_no + 1;
    }
    // Collect each instance's reduced claim.
    let mut evals: Vec<Scalar> = Vec::new();
    let mut evalcheck_claims: Vec<EvalcheckClaim> = Vec::new();
    let mut rest_provers = provers;
    let mut taken: usize = 0;
    while rest_provers.len() > 0
        invariant
            challenger.wf(),
            sorted_descending_zc(claims@),
            forall|t: int| 0 <= t < claims@.len() ==> (#[trigger] claims@[t]).wf(),
            n_claims == claims@.len(),
            witnesses@.len() == n_claims,
            domains@.len() == n_claims,
            degree_one_batch == zc_batch_degree_one_ok(claims@, witnesses@, domains@),
            max_n_vars == claims@[0].poly.n_vars,
            prev_challenge is Some,
            prev_challenge->0.wf(),
            taken + rest_provers@.len() == n_claims,
            evals@.len() == taken,
            wf_scalars(evals@),
            evalcheck_claims@.len() == taken,
            forall|t: int|
                0 <= t < rest_provers@.len() ==> (#[trigger] rest_provers@[t]).0.wf()
                    && rest_provers@[t].0.round == rest_provers@[t].0.oracle.n_vars
                    && rest_provers@[t].0.oracle.n_vars == claims@[taken + t].poly.n_vars
                    && crate::oracle::same_oracle(
                    rest_provers@[t].0.oracle,
                    claims@[taken + t].poly,
                ),
            forall|t: int|
                0 <= t < taken ==> (#[trigger] evalcheck_claims@[t]).wf()
                    && evalcheck_claims@[t].eval_point@.len() == claims@[t].poly.n_vars
                    && crate::oracle::same_oracle(
                    evalcheck_claims@[t].poly,
                    claims@[t].poly,
                ),
        decreases rest_provers@.len(),
    {
        let pair = match remove_first(&mut rest_provers) {
            Some(p) => p,
            None => {
                proof {
                    assert(false);
                }
                return Err(Error::NumberOfFinalEvaluations);
            },
        };
        let (prover, _coeff) = pair;
        proof {
            lemma_sorted_head_bound(claims@, taken as int);
        }
        let instance_prev = if prover.round > 0 {
            prev_challenge
        } else {
            None
        };
        let reduced = match prover.finalize(instance_prev) {
            Ok(rc) => rc,
            Err(e) => {
                proof {
                    assert(false);
                }
                return Err(e);
            },
        };
        evals.push(reduced.eval);
        let evalcheck_claim = match crate::common::finalize_evalcheck_claim(
            &claims[taken].poly,
            reduced,
        ) {
            Ok(ec) => ec,
            Err(e) => {
                proof {
                    assert(false);
                }
                return Err(e);
            },
        };
        evalcheck_claims.push(evalcheck_claim);
        taken = taken + 1;
    }
    Ok(ZerocheckBatchProveOutput {
        evalcheck_claims,
        proof: ZerocheckBatchProof { rounds, evals },
    })
}


/// Take the first element out of a vector.
fn remove_first<T>(v: &mut Vec<T>) -> (r: Option<T>)
    ensures
        old(v)@.len() == 0 ==> r is None && final(v)@ == old(v)@,
        old(v)@.len() > 0 ==> r is Some && r->0 == old(v)@[0] && final(v)@ == old(
            v,
        )@.drop_first(),
{
    if v.len() == 0 {
        return None;
    }
    let first = v.remove(0);
    proof {
        assert(final(v)@ =~= old(v)@.drop_first());
    }
    Some(first)
}

/// Verify a batch of zerocheck claims over one shared transcript.
///
/// Rejects a claim set not sorted descending by number of variables, runs
/// `max(n_vars)` global rounds of the weighted reduction, checks the
/// batched final evaluation against the instances' claimed evaluations and
/// files one evalcheck claim per instance, each at the suffix of the
/// challenge point matching its own arity.
#[verifier::rlimit(100)]
pub fn batch_verify<CH: Challenger>(
    claims: &Vec<ZerocheckClaim>,
    proof: &ZerocheckBatchProof,
    challenger: &mut CH,
) -> (r: Result<Vec<EvalcheckClaim>, Error>)
    requires
        old(challenger).wf(),
        forall|i: int| 0 <= i < claims@.len() ==> (#[trigger] claims@[i]).wf(),
        proof.wf(),
    ensures
        final(challenger).wf(),
        claims@.len() == 0 ==> r is Err && r->Err_0 == Error::EmptyClaimsArray,
        claims@.len() > 0 && !sorted_descending_zc(claims@) ==> r is Err && r->Err_0
            == Error::OraclesOutOfOrder,
        claims@.len() > 0 && sorted_descending_zc(claims@) && claims@[claims@.len()
            - 1].poly.n_vars == 0 ==> r is Err && r->Err_0
            == Error::IncorrectNumberOfVariables,
        zc_batch_shape_ok(claims@, *proof) && proof.rounds@.len() != claims@[0].poly.n_vars
            ==> r is Err && r->Err_0 == Error::NumberOfRounds,
        zc_batch_shape_ok(claims@, *proof) && proof.rounds@.len() == claims@[0].poly.n_vars
            && proof.evals@.len() != claims@.len() ==> r is Err && r->Err_0
            == Error::NumberOfFinalEvaluations,
        // An empty round message is the one remaining validation failure.
        zc_batch_messages_ok(claims@, *proof) && !(forall|i: int|
            0 <= i < proof.rounds@.len()
                ==> (#[trigger] proof.rounds@[i]).coeffs@.len() > 0) ==> r is Err
            && r->Err_0 == Error::NumberOfCoefficients,
        // Past validation, acceptance is decided only by the final
        // evaluation check under the sampled challenges.
        zc_batch_messages_ok(claims@, *proof) && (forall|i: int|
            0 <= i < proof.rounds@.len()
                ==> (#[trigger] proof.rounds@[i]).coeffs@.len() > 0) ==> (r is Ok
            || (r is Err && r->Err_0 == Error::BatchEvaluationMismatch)),
        r is Ok ==> zc_batch_messages_ok(claims@, *proof) && r->Ok_0@.len()
            == claims@.len(),
        r is Ok ==> forall|i: int|
            0 <= i < claims@.len() ==> (#[trigger] r->Ok_0@[i]).wf()
                && r->Ok_0@[i].eval_point@.len() == claims@[i].poly.n_vars
                && r->Ok_0@[i].eval_point@ == r->Ok_0@[0].eval_point@.subrange(
                claims@[0].poly.n_vars - claims@[i].poly.n_vars,
                claims@[0].poly.n_vars as int,
            ) && r->Ok_0@[i].eval == proof.evals@[i] && crate::oracle::same_oracle(
                r->Ok_0@[i].poly,
                claims@[i].poly,
            ),
{
    let n_claims = claims.len();
    if n_claims == 0 {
        return Err(Error::EmptyClaimsArray);
    }
    let mut i: usize = 1;
    while i < n_claims
        invariant
            challenger.wf(),
            forall|j: int| 0 <= j < claims@.len() ==> (#[trigger] claims@[j]).wf(),
            n_claims == claims@.len(),
            1 <= i,
            forall|j: int|
                0 <= j < i - 1 ==> (#[trigger] claims@[j]).poly.n_vars >= claims@[j
                    + 1].poly.n_vars,
        decreases n_claims - i,
    {
        if claims[i - 1].poly.n_vars < claims[i].poly.n_vars {
            return Err(Error::OraclesOutOfOrder);
        }
        i = i + 1;
    }
    // With the claims descending, the smallest arity is the last one;
    // every instance must still have a round to run.
    if claims[n_claims - 1].n_vars() == 0 {
        return Err(Error::IncorrectNumberOfVariables);
    }
    let max_n_vars = claims[0].n_vars();
    if proof.rounds.len() != max_n_vars {
        return Err(Error::NumberOfRounds);
    }
    if proof.evals.len() != n_claims {
        return Err(Error::NumberOfFinalEvaluations);
    }
    proof {
        lemma_sorted_tail_bound(claims@, 0);
    }
    let zerocheck_challenges = sample_vec(challenger, max_n_vars - 1);
    let reductor = crate::reduce::ZerocheckReductor { alphas: &zerocheck_challenges };
    let mut batch_coeffs: Vec<Scalar> = Vec::new();
    let mut round_claim = SumcheckRoundClaim {
        partial_point: Vec::new(),
        current_round_sum: Scalar::zero(),
    };
    let mut round_no: usize = 0;
    while round_no < max_n_vars
        invariant
            challenger.wf(),
            sorted_descending_zc(claims@),
            forall|j: int| 0 <= j < claims@.len() ==> (#[trigger] claims@[j]).wf(),
            proof.wf(),
            n_claims == claims@.len(),
            n_claims >= 1,
            claims@[n_claims - 1].poly.n_vars >= 1,
            max_n_vars == claims@[0].poly.n_vars,
            max_n_vars >= 1,
            proof.rounds@.len() == max_n_vars,
            proof.evals@.len() == n_claims,
            wf_scalars(zerocheck_challenges@),
            zerocheck_challenges@.len() == max_n_vars - 1,
            reductor.alphas@ == zerocheck_challenges@,
            round_no <= max_n_vars,
            batch_coeffs@.len() <= n_claims,
            wf_scalars(batch_coeffs@),
            forall|t: int|
                0 <= t < batch_coeffs@.len() ==> (#[trigger] claims@[t]).poly.n_vars as int
                    + round_no >= max_n_vars,
            batch_coeffs@.len() == n_claims || (claims@[
            batch_coeffs@.len() as int].poly.n_vars as int + round_no <= max_n_vars),
            round_claim.wf(),
            round_claim.partial_point@.len() == round_no,
            forall|i: int|
                0 <= i < round_no ==> (#[trigger] proof.rounds@[i]).coeffs@.len() > 0,
        decreases max_n_vars - round_no,
    {
        // Draw a batching coefficient for each instance entering this
        // round; entrants extend the active prefix of the sorted claims.
        while batch_coeffs.len() < n_claims && claims[batch_coeffs.len()].poly.n_vars
            >= max_n_vars - round_no
            invariant
                challenger.wf(),
                sorted_descending_zc(claims@),
                forall|j: int| 0 <= j < claims@.len() ==> (#[trigger] claims@[j]).wf(),
                n_claims == claims@.len(),
                max_n_vars == claims@[0].poly.n_vars,
                round_no < max_n_vars,
                batch_coeffs@.len() <= n_claims,
                wf_scalars(batch_coeffs@),
                forall|t: int|
                    0 <= t < batch_coeffs@.len() ==> (#[trigger] claims@[
                    t]).poly.n_vars as int + round_no >= max_n_vars,
            decreases n_claims - batch_coeffs@.len(),
        {
            let coeff = challenger.sample();
            batch_coeffs.push(coeff);
        }
        proof {
            assert(proof.rounds@[round_no as int].wf());
        }
        let round_proof = SumcheckRound {
            coeffs: copy_scalars(&proof.rounds[round_no].coeffs),
        };
        observe_slice(challenger, &round_proof.coeffs);
        let challenge = challenger.sample();
        round_claim = match reductor.reduce_round_claim(
            round_no,
            round_claim,
            challenge,
            round_proof,
        ) {
            Ok(c) => c,
            Err(e) => {
                proof {
                    assert(proof.rounds@[round_no as int].coeffs@.len() == 0);
                }
                return Err(e);
            },
        };
        round_no = round_no + 1;
    }
    // Every claim has entered by now: the active prefix covers them all.
    proof {
        if batch_coeffs@.len() < n_claims {
            lemma_sorted_tail_bound(claims@, batch_coeffs@.len() as int);
            assert(false);
        }
    }
    // The batched final evaluation must match the claimed per-instance
    // evaluations.
    let mut batched_eval = Scalar::zero();
    let mut j: usize = 0;
    while j < n_claims
        invariant
            proof.wf(),
            n_claims == claims@.len(),
            proof.evals@.len() == n_claims,
            batch_coeffs@.len() == n_claims,
            wf_scalars(batch_coeffs@),
            j <= n_claims,
            batched_eval.wf(),
        decreases n_claims - j,
    {
        proof {
            assert(proof.evals@[j as int].wf());
            assert(batch_coeffs@[j as int].wf());
        }
        batched_eval = batched_eval.add(proof.evals[j].mul(batch_coeffs[j]));
        j = j + 1;
    }
    if batched_eval.v != round_claim.current_round_sum.v {
        return Err(Error::BatchEvaluationMismatch);
    }
    // File one evalcheck claim per instance, at the suffix of the point
    // matching its arity.
    let mut eval_claims: Vec<EvalcheckClaim> = Vec::new();
    let mut j: usize = 0;
    while j < n_claims
        invariant
            challenger.wf(),
            forall|t: int| 0 <= t < claims@.len() ==> (#[trigger] claims@[t]).wf(),
            proof.wf(),
            n_claims == claims@.len(),
            proof.evals@.len() == n_claims,
            max_n_vars == claims@[0].poly.n_vars,
            sorted_descending_zc(claims@),
            round_claim.wf(),
            round_claim.partial_point@.len() == max_n_vars,
            j <= n_claims,
            eval_claims@.len() == j,
            forall|t: int|
                0 <= t < j ==> (#[trigger] eval_claims@[t]).wf()
                    && eval_claims@[t].eval_point@.len() == claims@[t].poly.n_vars
                    && eval_claims@[t].eval_point@ == round_claim.partial_point@.subrange(
                    max_n_vars - claims@[t].poly.n_vars,
                    max_n_vars as int,
                ) && eval_claims@[t].eval == proof.evals@[t]
                    && crate::oracle::same_oracle(eval_claims@[t].poly, claims@[t].poly),
        decreases n_claims - j,
    {
        let claim_n_vars = claims[j].n_vars();
        proof {
            lemma_sorted_head_bound(claims@, j as int);
        }
        let start = max_n_vars - claim_n_vars;
        let mut point: Vec<Scalar> = Vec::new();
        let mut t: usize = start;
        while t < max_n_vars
            invariant
                round_claim.wf(),
                round_claim.partial_point@.len() == max_n_vars,
                start <= t <= max_n_vars,
                start == max_n_vars - claim_n_vars,
                point@.len() == t - start,
                wf_scalars(point@),
                forall|u: int|
                    0 <= u < t - start ==> point@[u] == round_claim.partial_point@[start
                        + u],
            decreases max_n_vars - t,
        {
            proof {
                assert(round_claim.partial_point@[t as int].wf());
            }
            point.push(round_claim.partial_point[t]);
            t = t + 1;
        }
        proof {
            assert(proof.evals@[j as int].wf());
            assert(point@ =~= round_claim.partial_point@.subrange(
                start as int,
                max_n_vars as int,
            ));
        }
        let reduced = crate::common::ReducedClaim {
            eval_point: point,
            eval: proof.evals[j],
        };
        let ec = match crate::common::finalize_evalcheck_claim(&claims[j].poly, reduced) {
            Ok(ec) => ec,
            Err(e) => {
                proof {
                    assert(false);
                }
                return Err(e);
            },
        };
        eval_claims.push(ec);
        j = j + 1;
    }
    proof {
        assert forall|i: int| 0 <= i < claims@.len() implies (
        #[trigger] eval_claims@[i]).eval_point@ == eval_claims@[0].eval_point@.subrange(
            claims@[0].poly.n_vars - claims@[i].poly.n_vars,
            claims@[0].poly.n_vars as int,
        ) by {
            lemma_sorted_head_bound(claims@, i);
            assert(eval_claims@[0].eval_point@ =~= round_claim.partial_point@);
            assert(eval_claims@[0].eval_point@.subrange(
                claims@[0].poly.n_vars - claims@[i].poly.n_vars,
                claims@[0].poly.n_vars as int,
            ) =~= round_claim.partial_point@.subrange(
                max_n_vars as int - claims@[i].poly.n_vars,
                max_n_vars as int,
            ));
        }
    }
    Ok(eval_claims)
}

/// The shape validations of a zerocheck batch: claims present, sorted,
/// every arity positive.
pub open spec fn zc_batch_shape_ok(claims: Seq<ZerocheckClaim>, proof: ZerocheckBatchProof)
    -> bool {
    &&& claims.len() > 0
    &&& sorted_descending_zc(claims)
    &&& claims[claims.len() - 1].poly.n_vars >= 1
}

/// All shape validations of a zerocheck batch, message counts included.
pub open spec fn zc_batch_messages_ok(
    claims: Seq<ZerocheckClaim>,
    proof: ZerocheckBatchProof,
) -> bool {
    &&& zc_batch_shape_ok(claims, proof)
    &&& proof.rounds.len() == claims[0].poly.n_vars
    &&& proof.evals.len() == claims.len()
}

/// In a descending claim list, no arity is below the last.
proof fn lemma_sorted_tail_bound(claims: Seq<ZerocheckClaim>, j: int)
    requires
        sorted_descending_zc(claims),
        0 <= j < claims.len(),
    ensures
        claims[j].poly.n_vars >= claims[claims.len() - 1].poly.n_vars,
    decreases claims.len() - j,
{
    if j < claims.len() - 1 {
        lemma_sorted_tail_bound(claims, j + 1);
    }
}


/// In a descending claim list, no arity exceeds the first.
proof fn lemma_sorted_head_bound(claims: Seq<ZerocheckClaim>, j: int)
    requires
        sorted_descending_zc(claims),
        0 <= j < claims.len(),
    ensures
        claims[j].poly.n_vars <= claims[0].poly.n_vars,
    decreases j,
{
    if j > 0 {
        lemma_sorted_head_bound(claims, j - 1);
    }
}

/// Verifies a batch sumcheck proof final step, reducing the final batched
/// claim to one evaluation claim per instance.
#[verifier::rlimit(100)]
pub fn batch_verify_final(
    claims: &Vec<SumcheckClaim>,
    batch_coeffs: &Vec<Scalar>,
    evals: &Vec<Scalar>,
    final_claim: SumcheckRoundClaim,
) -> (r: Result<Vec<EvalcheckClaim>, Error>)
    requires
        forall|i: int| 0 <= i < claims@.len() ==> (#[trigger] claims@[i]).wf(),
        wf_scalars(batch_coeffs@),
        wf_scalars(evals@),
        final_claim.wf(),
    ensures
        r is Ok <==> (sorted_descending_sc(claims@) && final_claim.partial_point@.len()
            == batch_n_rounds(claims@) && batch_coeffs@.len() == claims@.len()
            && evals@.len() == claims@.len() && weighted_eval_sum(
            vals(evals@),
            vals(batch_coeffs@),
            claims@.len() as int,
        ) == final_claim.current_round_sum@),
        !sorted_descending_sc(claims@) ==> r is Err && r->Err_0 == Error::OraclesOutOfOrder,
        sorted_descending_sc(claims@) && final_claim.partial_point@.len()
            != batch_n_rounds(claims@) ==> r is Err && r->Err_0 == Error::NumberOfRounds,
        sorted_descending_sc(claims@) && final_claim.partial_point@.len()
            == batch_n_rounds(claims@) && batch_coeffs@.len() != claims@.len() ==> r is Err
            && r->Err_0 == Error::NumberOfBatchCoeffs,
        sorted_descending_sc(claims@) && final_claim.partial_point@.len()
            == batch_n_rounds(claims@) && batch_coeffs@.len() == claims@.len()
            && evals@.len() != claims@.len() ==> r is Err && r->Err_0
            == Error::NumberOfFinalEvaluations,
        sorted_descending_sc(claims@) && final_claim.partial_point@.len()
            == batch_n_rounds(claims@) && batch_coeffs@.len() == claims@.len()
            && evals@.len() == claims@.len() && weighted_eval_sum(
            vals(evals@),
            vals(batch_coeffs@),
            claims@.len() as int,
        ) != final_claim.current_round_sum@ ==> r is Err && r->Err_0
            == Error::BatchEvaluationMismatch,
        r is Ok ==> r->Ok_0@.len() == claims@.len(),
        r is Ok ==> forall|i: int|
            0 <= i < claims@.len() ==> (#[trigger] r->Ok_0@[i]).wf()
                && r->Ok_0@[i].eval_point@.len() == claims@[i].poly.n_vars
                && r->Ok_0@[i].eval_point@ == final_claim.partial_point@.subrange(
                batch_n_rounds(claims@) - claims@[i].poly.n_vars,
                batch_n_rounds(claims@),
            ) && r->Ok_0@[i].eval == evals@[i] && crate::oracle::same_oracle(
                r->Ok_0@[i].poly,
                claims@[i].poly,
            ) && r->Ok_0@[i].is_random_point,
{
    let n_claims = claims.len();
    let mut i: usize = 1;
    while i < n_claims
        invariant
            forall|j: int| 0 <= j < claims@.len() ==> (#[trigger] claims@[j]).wf(),
            n_claims == claims@.len(),
            1 <= i,
            forall|j: int|
                0 <= j < i - 1 ==> (#[trigger] claims@[j]).poly.n_vars >= claims@[j
                    + 1].poly.n_vars,
        decreases n_claims - i,
    {
        if claims[i - 1].poly.n_vars < claims[i].poly.n_vars {
            return Err(Error::OraclesOutOfOrder);
        }
        i = i + 1;
    }
    let n_rounds = if n_claims > 0 {
        claims[0].n_vars()
    } else {
        0
    };
    if final_claim.partial_point.len() != n_rounds {
        return Err(Error::NumberOfRounds);
    }
    if claims.len() != batch_coeffs.len() {
        return Err(Error::NumberOfBatchCoeffs);
    }
    if evals.len() != claims.len() {
        return Err(Error::NumberOfFinalEvaluations);
    }
    let mut batched_eval = Scalar::zero();
    let mut j: usize = 0;
    while j < n_claims
        invariant
            n_claims == claims@.len(),
            evals@.len() == n_claims,
            batch_coeffs@.len() == n_claims,
            wf_scalars(evals@),
            wf_scalars(batch_coeffs@),
            j <= n_claims,
            batched_eval.wf(),
            batched_eval@ == weighted_eval_sum(vals(evals@), vals(batch_coeffs@), j as int),
        decreases n_claims - j,
    {
        proof {
            assert(evals@[j as int].wf());
            assert(batch_coeffs@[j as int].wf());
        }
        batched_eval = batched_eval.add(evals[j].mul(batch_coeffs[j]));
        j = j + 1;
    }
    if batched_eval.v != final_claim.current_round_sum.v {
        return Err(Error::BatchEvaluationMismatch);
    }
    proof {
        assert(batched_eval@ == final_claim.current_round_sum@);
    }
    let mut eval_claims: Vec<EvalcheckClaim> = Vec::new();
    let mut j: usize = 0;
    while j < n_claims
        invariant
            forall|t: int| 0 <= t < claims@.len() ==> (#[trigger] claims@[t]).wf(),
            n_claims == claims@.len(),
            evals@.len() == n_claims,
            wf_scalars(evals@),
            n_rounds == (if n_claims > 0 {
                claims@[0].poly.n_vars as int
            } else {
                0
            }),
            forall|t: int|
                0 <= t < claims@.len() - 1 ==> (#[trigger] claims@[t]).poly.n_vars
                    >= claims@[t + 1].poly.n_vars,
            final_claim.wf(),
            final_claim.partial_point@.len() == n_rounds,
            j <= n_claims,
            eval_claims@.len() == j,
            forall|t: int|
                0 <= t < j ==> (#[trigger] eval_claims@[t]).wf()
                    && eval_claims@[t].eval_point@.len() == claims@[t].poly.n_vars
                    && eval_claims@[t].eval_point@ == final_claim.partial_point@.subrange(
                    n_rounds - claims@[t].poly.n_vars,
                    n_rounds as int,
                ) && eval_claims@[t].eval == evals@[t] && crate::oracle::same_oracle(
                    eval_claims@[t].poly,
                    claims@[t].poly,
                ) && eval_claims@[t].is_random_point,
        decreases n_claims - j,
    {
        let claim_n_vars = claims[j].n_vars();
        proof {
            lemma_sorted_head_bound_sc(claims@, j as int);
        }
        let start = n_rounds - claim_n_vars;
        let mut point: Vec<Scalar> = Vec::new();
        let mut t: usize = start;
        while t < n_rounds
            invariant
                final_claim.wf(),
                final_claim.partial_point@.len() == n_rounds,
                start <= t <= n_rounds,
                start == n_rounds - claim_n_vars,
                point@.len() == t - start,
                wf_scalars(point@),
                forall|u: int|
                    0 <= u < t - start ==> point@[u] == final_claim.partial_point@[start
                        + u],
            decreases n_rounds - t,
        {
            proof {
                assert(final_claim.partial_point@[t as int].wf());
            }
            point.push(final_claim.partial_point[t]);
            t = t + 1;
        }
        proof {
            assert(evals@[j as int].wf());
            assert(point@ =~= final_claim.partial_point@.subrange(
                start as int,
                n_rounds as int,
            ));
        }
        let reduced = crate::common::ReducedClaim { eval_point: point, eval: evals[j] };
        let ec = match crate::common::finalize_evalcheck_claim(&claims[j].poly, reduced) {
            Ok(ec) => ec,
            Err(e) => {
                proof {
                    assert(false);
                }
                return Err(e);
            },
        };
        eval_claims.push(ec);
        j = j + 1;
    }
    Ok(eval_claims)
}

/// In a descending claim list, no arity exceeds the first.
proof fn lemma_sorted_head_bound_sc(claims: Seq<SumcheckClaim>, j: int)
    requires
        forall|t: int|
            0 <= t < claims.len() - 1 ==> (#[trigger] claims[t]).poly.n_vars >= claims[t
                + 1].poly.n_vars,
        0 <= j < claims.len(),
    ensures
        claims[j].poly.n_vars <= claims[0].poly.n_vars,
    decreases j,
{
    if j > 0 {
        lemma_sorted_head_bound_sc(claims, j - 1);
    }
}

} // verus!
