//! Claims, round messages, proofs and the error taxonomy shared by the
//! prover and the verifier.

use vstd::prelude::*;

verus! {

use crate::field::Scalar;
use crate::oracle::CompositePolyOracle;
use crate::univariate::wf_scalars;

/// Every failure the engine reports.
///
/// Usage errors mark protocol-integration bugs and are fail-fast;
/// verification failures mark an invalid proof; the inversion variant
/// carries a math/domain error out of the interpolation layer.
#[derive(Clone, Copy, Debug, PartialEq, Eq, Structural)]
pub enum Error {
    /// An evaluation domain may not repeat a point.
    DuplicateDomainPoint,
    /// A constant composition trivializes the protocol.
    PolynomialDegreeIsZero,
    /// A multilinear's arity does not match the expected variable count.
    IncorrectNumberOfVariables,
    /// The witness does not match the claim it is supposed to prove.
    ProverClaimWitnessMismatch,
    /// `finalize` was called before all rounds were executed.
    PrematureFinalizeCall,
    /// `execute_round` was called more than `n_vars` times.
    TooManyExecuteRoundCalls,
    /// A round after the first was executed without the previous round's
    /// challenge.
    PreviousRoundChallengeAbsent,
    /// The first round was executed with a challenge, but none was sampled
    /// yet.
    PreviousRoundChallengePresent,
    /// A received round proof carries no coefficients.
    NumberOfCoefficients,
    /// The number of received rounds does not match the claim's arity.
    NumberOfRounds,
    /// Batched claims must be sorted descending by number of variables.
    OraclesOutOfOrder,
    /// One batching coefficient is expected per batched claim.
    NumberOfBatchCoeffs,
    /// One final evaluation is expected per batched claim.
    NumberOfFinalEvaluations,
    /// The batched final evaluations do not match the running batched sum.
    BatchEvaluationMismatch,
    /// Naive witness validation found a hypercube sum differing from the
    /// claimed one.
    NaiveValidation,
    /// A composition was queried with the wrong number of scalars.
    IncorrectQuerySize,
    /// Fewer zerocheck challenges were supplied than rounds need.
    NotEnoughZerocheckChallenges,
    /// The evaluation domain does not have `degree + 1` points.
    EvaluationDomainMismatch,
    /// A divisor of the interpolation layer had no multiplicative inverse.
    NonInvertibleDivisor,
    /// Provers admitted to one batch must agree on shared randomness.
    InconsistentBatchProvers,
    /// A batch needs at least one claim.
    EmptyClaimsArray,
}

/// The claim a single round reduces: the challenges bound so far, and what
/// the round polynomial must sum to.
#[derive(Clone, Debug)]
pub struct SumcheckRoundClaim {
    pub partial_point: Vec<Scalar>,
    pub current_round_sum: Scalar,
}

impl SumcheckRoundClaim {
    pub open spec fn wf(self) -> bool {
        wf_scalars(self.partial_point@) && self.current_round_sum.wf()
    }
}

/// One round's message: the round polynomial's coefficients with one
/// coefficient omitted.
#[derive(Clone, Debug)]
pub struct SumcheckRound {
    pub coeffs: Vec<Scalar>,
}

impl SumcheckRound {
    pub open spec fn wf(self) -> bool {
        wf_scalars(self.coeffs@)
    }
}

/// A full proof: one truncated coefficient list per round.
#[derive(Clone, Debug)]
pub struct SumcheckProof {
    pub rounds: Vec<SumcheckRound>,
}

impl SumcheckProof {
    pub open spec fn wf(self) -> bool {
        forall|i: int| 0 <= i < self.rounds@.len() ==> (#[trigger] self.rounds@[i]).wf()
    }
}

/// The claim left over once all rounds are done: the composite evaluates to
/// `eval` at `eval_point`.
#[derive(Clone, Debug)]
pub struct ReducedClaim {
    pub eval_point: Vec<Scalar>,
    pub eval: Scalar,
}

impl ReducedClaim {
    pub open spec fn wf(self) -> bool {
        wf_scalars(self.eval_point@) && self.eval.wf()
    }

    /// A finished round claim is exactly a reduced claim.
    pub fn from_round_claim(claim: SumcheckRoundClaim) -> (r: ReducedClaim)
        ensures
            r.eval_point == claim.partial_point,
            r.eval == claim.current_round_sum,
    {
        ReducedClaim { eval_point: claim.partial_point, eval: claim.current_round_sum }
    }
}

/// A sumcheck claim: the composite described by `poly` sums to `sum` over
/// its Boolean hypercube.
#[derive(Clone, Debug)]
pub struct SumcheckClaim {
    pub poly: CompositePolyOracle,
    pub sum: Scalar,
}

impl SumcheckClaim {
    pub open spec fn wf(self) -> bool {
        self.poly.wf() && self.sum.wf()
    }

    pub fn n_vars(&self) -> (r: usize)
        ensures
            r == self.poly.n_vars,
    {
        self.poly.n_vars()
    }
}

/// A zerocheck claim: the composite described by `poly` vanishes on its
/// whole Boolean hypercube.
#[derive(Clone, Debug)]
pub struct ZerocheckClaim {
    pub poly: CompositePolyOracle,
}

impl ZerocheckClaim {
    pub open spec fn wf(self) -> bool {
        self.poly.wf()
    }

    pub fn n_vars(&self) -> (r: usize)
        ensures
            r == self.poly.n_vars,
    {
        self.poly.n_vars()
    }
}

/// The arity and claimed sum of a claim, abstracted over its kind.
#[derive(Clone, Debug)]
pub struct AbstractSumcheckClaim {
    pub n_vars: usize,
    pub sum: Scalar,
}

impl SumcheckClaim {
    /// The abstract view of a sumcheck claim.
    pub fn to_abstract(&self) -> (r: AbstractSumcheckClaim)
        ensures
            r.n_vars == self.poly.n_vars,
            r.sum == self.sum,
    {
        AbstractSumcheckClaim { n_vars: self.poly.n_vars, sum: self.sum }
    }
}

/// An evaluation claim handed to the evalcheck layer: the composite
/// described by `poly` evaluates to `eval` at `eval_point`.
#[derive(Clone, Debug)]
pub struct EvalcheckClaim {
    pub poly: CompositePolyOracle,
    pub eval_point: Vec<Scalar>,
    pub eval: Scalar,
    pub is_random_point: bool,
}

impl EvalcheckClaim {
    pub open spec fn wf(self) -> bool {
        self.poly.wf() && wf_scalars(self.eval_point@) && self.eval.wf()
    }
}

/// What proving a sumcheck claim produces.
#[derive(Clone, Debug)]
pub struct SumcheckProveOutput {
    pub evalcheck_claim: EvalcheckClaim,
    pub sumcheck_proof: SumcheckProof,
}

/// What proving a zerocheck claim produces.
#[derive(Clone, Debug)]
pub struct ZerocheckProveOutput {
    pub evalcheck_claim: EvalcheckClaim,
    pub zerocheck_proof: SumcheckProof,
}

/// The round claim a protocol starts from: no challenges bound, the claimed
/// sum as the running sum.
pub fn setup_first_round_claim(claim: &SumcheckClaim) -> (r: SumcheckRoundClaim)
    ensures
        r.partial_point@.len() == 0,
        r.current_round_sum == claim.sum,
{
    SumcheckRoundClaim { partial_point: Vec::new(), current_round_sum: claim.sum }
}

/// A round has a previous-round challenge exactly when it is not the first.
pub fn validate_rd_challenge(prev_rd_challenge: &Option<Scalar>, round: usize) -> (r: Result<
    (),
    Error,
>)
    ensures
        r is Ok <==> (prev_rd_challenge is Some <==> round > 0),
        r is Err ==> r->Err_0 == (if round == 0 {
            Error::PreviousRoundChallengePresent
        } else {
            Error::PreviousRoundChallengeAbsent
        }),
{
    match prev_rd_challenge {
        Some(_) => if round == 0 {
            Err(Error::PreviousRoundChallengePresent)
        } else {
            Ok(())
        },
        None => if round == 0 {
            Ok(())
        } else {
            Err(Error::PreviousRoundChallengeAbsent)
        },
    }
}

/// Wrap a finished reduction into an evaluation claim for the evalcheck
/// layer, after checking that all of the oracle's variables were bound.
pub fn finalize_evalcheck_claim(poly_oracle: &CompositePolyOracle, reduced_claim: ReducedClaim)
    -> (r: Result<EvalcheckClaim, Error>)
    ensures
        r is Ok <==> reduced_claim.eval_point@.len() == poly_oracle.n_vars,
        r is Ok ==> crate::oracle::same_oracle(r->Ok_0.poly, *poly_oracle)
            && r->Ok_0.eval_point == reduced_claim.eval_point
            && r->Ok_0.eval == reduced_claim.eval && r->Ok_0.is_random_point,
        r is Err ==> r->Err_0 == Error::NumberOfRounds,
{
    if reduced_claim.eval_point.len() != poly_oracle.n_vars {
        return Err(Error::NumberOfRounds);
    }
    Ok(EvalcheckClaim {
        poly: poly_oracle.clone(),
        eval_point: reduced_claim.eval_point,
        eval: reduced_claim.eval,
        is_random_point: true,
    })
}

} // verus!
