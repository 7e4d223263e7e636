//! Claim reductors: the verifier-side step that turns one round claim plus
//! one round message into the next round claim.
//!
//! The prover omits one coefficient of each round polynomial. The regular
//! sumcheck reductor recovers the top coefficient from `s = r(0) + r(1)`;
//! the zerocheck reductor recovers the constant coefficient, from
//! `r(0) = r(1) = 0` in the first round and from the zerocheck-challenge
//! weighted identity `s = alpha * r(1) + (1 - alpha) * r(0)` afterwards.

use vstd::prelude::*;

verus! {

use crate::common::{Error, SumcheckRound, SumcheckRoundClaim};
use crate::field::Scalar;
use crate::univariate::{
    eval_uni, fsum_scalars, lemma_vals_push, vals, wf_scalars,
    with_recovered_top, with_recovered_zc_const,
};

/// The full round polynomial the zerocheck verifier uses in round zero: the
/// constant coefficient is zero because `r(0) = 0` is known a priori.
pub open spec fn zc_round0_full(c: Seq<int>) -> Seq<int> {
    seq![0int] + c
}

/// Reduce a regular sumcheck round claim.
///
/// Recovers the omitted top coefficient from the sum identity, evaluates the
/// full round polynomial at the sampled challenge and appends the challenge
/// to the partial point.
pub fn reduce_sumcheck_claim_round(
    claim: SumcheckRoundClaim,
    challenge: Scalar,
    proof: SumcheckRound,
) -> (r: Result<SumcheckRoundClaim, Error>)
    requires
        claim.wf(),
        challenge.wf(),
        proof.wf(),
    ensures
        r is Err <==> proof.coeffs@.len() == 0,
        r is Err ==> r->Err_0 == Error::NumberOfCoefficients,
        r is Ok ==> r->Ok_0.wf() && r->Ok_0.partial_point@ == claim.partial_point@.push(challenge)
            && r->Ok_0.current_round_sum@ == eval_uni(
            with_recovered_top(claim.current_round_sum@, vals(proof.coeffs@)),
            challenge@,
        ),
{
    let SumcheckRoundClaim { mut partial_point, current_round_sum } = claim;
    let SumcheckRound { mut coeffs } = proof;
    if coeffs.len() == 0 {
        return Err(Error::NumberOfCoefficients);
    }
    let total = fsum_scalars(&coeffs);
    let last_coeff = current_round_sum.sub(coeffs[0]).sub(total);
    proof {
        lemma_vals_push(coeffs@, last_coeff);
    }
    coeffs.push(last_coeff);
    let new_round_sum = crate::univariate::evaluate_univariate(&coeffs, challenge);
    partial_point.push(challenge);
    Ok(SumcheckRoundClaim { partial_point, current_round_sum: new_round_sum })
}

/// Reduce a zerocheck round claim.
///
/// `alpha` is `None` in round zero, where the constant coefficient is known
/// to be zero, and `Some` of that round's zerocheck challenge afterwards.
pub fn reduce_zerocheck_claim_round(
    claim: SumcheckRoundClaim,
    challenge: Scalar,
    proof: SumcheckRound,
    alpha: Option<Scalar>,
) -> (r: Result<SumcheckRoundClaim, Error>)
    requires
        claim.wf(),
        challenge.wf(),
        proof.wf(),
        alpha is Some ==> alpha->0.wf(),
    ensures
        r is Err <==> proof.coeffs@.len() == 0,
        r is Err ==> r->Err_0 == Error::NumberOfCoefficients,
        r is Ok ==> r->Ok_0.wf() && r->Ok_0.partial_point@ == claim.partial_point@.push(
            challenge,
        ),
        r is Ok && alpha is None ==> r->Ok_0.current_round_sum@ == eval_uni(
            zc_round0_full(vals(proof.coeffs@)),
            challenge@,
        ),
        r is Ok && alpha is Some ==> r->Ok_0.current_round_sum@ == eval_uni(
            with_recovered_zc_const(claim.current_round_sum@, alpha->0@, vals(proof.coeffs@)),
            challenge@,
        ),
{
    let SumcheckRoundClaim { mut partial_point, current_round_sum } = claim;
    let SumcheckRound { coeffs } = proof;
    if coeffs.len() == 0 {
        return Err(Error::NumberOfCoefficients);
    }
    let const_coeff = match alpha {
        None => Scalar::zero(),
        Some(a) => {
            let total = fsum_scalars(&coeffs);
            current_round_sum.sub(a.mul(total))
        },
    };
    let ghost target = if alpha is None {
        zc_round0_full(vals(coeffs@))
    } else {
        with_recovered_zc_const(current_round_sum@, alpha->0@, vals(coeffs@))
    };
    let mut full: Vec<Scalar> = Vec::new();
    full.push(const_coeff);
    let mut i: usize = 0;
    while i < coeffs.len()
        invariant
            wf_scalars(coeffs@),
            const_coeff.wf(),
            full@.len() == i + 1,
            i <= coeffs.len(),
            full@[0] == const_coeff,
            forall|j: int| 1 <= j < full@.len() ==> full@[j] == coeffs@[j - 1],
            wf_scalars(full@),
        decreases coeffs.len() - i,
    {
        full.push(coeffs[i]);
        i = i + 1;
    }
    proof {
        assert(vals(full@) =~= target);
    }
    let new_round_sum = crate::univariate::evaluate_univariate(&full, challenge);
    partial_point.push(challenge);
    Ok(SumcheckRoundClaim { partial_point, current_round_sum: new_round_sum })
}

/// The regular sumcheck reductor.
pub struct SumcheckReductor;

impl SumcheckReductor {
    /// Reduce one round claim; the round index plays no role for regular
    /// sumcheck.
    pub fn reduce_round_claim(
        &self,
        _round: usize,
        claim: SumcheckRoundClaim,
        challenge: Scalar,
        round_proof: SumcheckRound,
    ) -> (r: Result<SumcheckRoundClaim, Error>)
        requires
            claim.wf(),
            challenge.wf(),
            round_proof.wf(),
        ensures
            r is Err <==> round_proof.coeffs@.len() == 0,
            r is Err ==> r->Err_0 == Error::NumberOfCoefficients,
            r is Ok ==> r->Ok_0.wf() && r->Ok_0.partial_point@ == claim.partial_point@.push(
                challenge,
            ) && r->Ok_0.current_round_sum@ == eval_uni(
                with_recovered_top(claim.current_round_sum@, vals(round_proof.coeffs@)),
                challenge@,
            ),
    {
        reduce_sumcheck_claim_round(claim, challenge, round_proof)
    }
}

/// The zerocheck reductor: carries the zerocheck challenges the prover and
/// verifier share.
pub struct ZerocheckReductor<'a> {
    pub alphas: &'a Vec<Scalar>,
}

impl<'a> ZerocheckReductor<'a> {
    /// Reduce the claim of round `round`; rounds past the first use the
    /// round's zerocheck challenge.
    pub fn reduce_round_claim(
        &self,
        round: usize,
        claim: SumcheckRoundClaim,
        challenge: Scalar,
        round_proof: SumcheckRound,
    ) -> (r: Result<SumcheckRoundClaim, Error>)
        requires
            claim.wf(),
            challenge.wf(),
            round_proof.wf(),
            wf_scalars(self.alphas@),
            round >= 1 ==> round - 1 < self.alphas@.len(),
        ensures
            r is Err <==> round_proof.coeffs@.len() == 0,
            r is Err ==> r->Err_0 == Error::NumberOfCoefficients,
            r is Ok ==> r->Ok_0.wf() && r->Ok_0.partial_point@ == claim.partial_point@.push(
                challenge,
            ),
            r is Ok && round == 0 ==> r->Ok_0.current_round_sum@ == eval_uni(
                zc_round0_full(vals(round_proof.coeffs@)),
                challenge@,
            ),
            r is Ok && round >= 1 ==> r->Ok_0.current_round_sum@ == eval_uni(
                with_recovered_zc_const(
                    claim.current_round_sum@,
                    self.alphas@[round - 1]@,
                    vals(round_proof.coeffs@),
                ),
                challenge@,
            ),
    {
        let alpha = if round == 0 {
            None
        } else {
            Some(self.alphas[round - 1])
        };
        reduce_zerocheck_claim_round(claim, challenge, round_proof, alpha)
    }
}

} // verus!
