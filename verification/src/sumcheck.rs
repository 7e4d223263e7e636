//! The regular sumcheck protocol: proving that a composite multilinear
//! polynomial sums to a claimed value over its Boolean hypercube.
//!
//! Each round the prover sends the round polynomial's evaluations
//! interpolated into coefficients, with the top coefficient omitted; the
//! verifier recovers it from the sum identity `s = r(0) + r(1)` and reduces
//! the claim through the sampled challenge.

use vstd::prelude::*;

verus! {

use crate::challenger::{observe_slice, Challenger};
use crate::common::{
    validate_rd_challenge, Error, SumcheckClaim, SumcheckRound,
    SumcheckRoundClaim,
};
use crate::composition::{CompositionPoly, MultilinearComposite};
use crate::domain::{
    denom, extrapolate_line, lagrange_coeffs, poly_add, EvaluationDomain,
};
use crate::field::{fadd_int, fsub_int, has_inv, Scalar};
use crate::prover_state::{
    accum_round_evals, ProverState, SumcheckRoundEvaluator, SwitchoverPolicy,
};
use crate::univariate::{vals, wf_scalars};
use vstd::arithmetic::power2::pow2;

/// Each multilinear's pair of evaluations linearly extrapolated to the
/// domain point `x`.
pub open spec fn extrap_vals(e0: Seq<int>, e1: Seq<int>, x: int) -> Seq<int> {
    Seq::new(e0.len(), |j: int| crate::domain::extrapolate_line_int(e0[j], e1[j], x))
}

/// One vertex's contribution to the regular sumcheck round evaluations: the
/// composition at the 1-evaluations, then at each interpolated point
/// `points[2], ..., points[degree]`.
pub open spec fn regular_vertex_contribution<C: CompositionPoly>(
    comp: C,
    points: Seq<int>,
    degree: nat,
    e0: Seq<int>,
    e1: Seq<int>,
) -> Seq<int> {
    Seq::new(
        degree,
        |k: int|
            if k == 0 {
                comp.spec_evaluate(e1)
            } else {
                comp.spec_evaluate(extrap_vals(e0, e1, points[k + 1]))
            },
    )
}

/// The round evaluations accumulated over the first `upto` vertex pairs.
pub open spec fn regular_accum<C: CompositionPoly>(
    comp: C,
    points: Seq<int>,
    degree: nat,
    st: ProverState,
    upto: int,
) -> Seq<int>
    decreases upto,
{
    if upto <= 0 {
        Seq::new(degree, |k: int| 0int)
    } else {
        poly_add(
            regular_accum(comp, points, degree, st, upto - 1),
            regular_vertex_contribution(
                comp,
                points,
                degree,
                st.vertex_evals(upto - 1, 0),
                st.vertex_evals(upto - 1, 1),
            ),
        )
    }
}

/// Whether the domain admits interpolation: every Lagrange denominator has
/// an inverse.
pub open spec fn interpolation_ok(points: Seq<int>) -> bool {
    forall|j: int| 0 <= j < points.len() ==> has_inv(#[trigger] denom(points, j))
}

/// The truncated coefficient message of a regular sumcheck round: prepend
/// `r(0) = s - r(1)` to the accumulated evaluations, interpolate, and drop
/// the top coefficient.
pub open spec fn regular_coeffs_of(points: Seq<int>, s: int, round_evals: Seq<int>) -> Seq<
    int,
> {
    lagrange_coeffs(points, seq![fsub_int(s, round_evals[0])] + round_evals).drop_last()
}

/// Evaluator for the regular sumcheck protocol.
pub struct RegularSumcheckEvaluator<'a, C: CompositionPoly> {
    pub degree: usize,
    pub composition: &'a C,
    pub evaluation_domain: &'a EvaluationDomain,
}

impl<'a, C: CompositionPoly> SumcheckRoundEvaluator for RegularSumcheckEvaluator<'a, C> {
    open spec fn wf(&self) -> bool {
        &&& self.degree >= 1
        &&& self.evaluation_domain.wf()
        &&& self.evaluation_domain.points@.len() == self.degree + 1
    }

    open spec fn input_arity(&self) -> nat {
        self.composition.spec_n_vars()
    }

    open spec fn spec_n_round_evals(&self) -> nat {
        self.degree as nat
    }

    open spec fn chunk_size(&self) -> nat {
        0
    }

    open spec fn vertex_ok(&self, i: int) -> bool {
        true
    }

    open spec fn vertex_contribution(&self, i: int, e0: Seq<int>, e1: Seq<int>) -> Seq<int> {
        regular_vertex_contribution(
            *self.composition,
            self.evaluation_domain.points_view(),
            self.degree as nat,
            e0,
            e1,
        )
    }

    open spec fn q_writes(&self, i: int, e0: Seq<int>, e1: Seq<int>) -> Seq<int> {
        Seq::empty()
    }

    proof fn lemma_shapes(&self, i: int, e0: Seq<int>, e1: Seq<int>) {
        let c = self.vertex_contribution(i, e0, e1);
        assert forall|k: int| 0 <= k < c.len() implies crate::field::reduced(
            #[trigger] c[k]) by {
            if k == 0 {
                self.composition.lemma_evaluate_reduced(e1);
            } else {
                self.composition.lemma_evaluate_reduced(
                    extrap_vals(e0, e1, self.evaluation_domain.points_view()[k + 1]),
                );
            }
        }
    }

    fn n_round_evals(&self) -> (r: usize) {
        self.degree
    }

    fn process_vertex(
        &self,
        i: usize,
        evals_0: &Vec<Scalar>,
        evals_1: &Vec<Scalar>,
        round_evals: &mut Vec<Scalar>,
        round_q: &mut Vec<Scalar>,
    ) {
        let ghost pre = round_evals@;
        let ghost contribution = self.vertex_contribution(
            i as int,
            vals(evals_0@),
            vals(evals_1@),
        );
        let value_at_one = match self.composition.evaluate(evals_1) {
            Ok(v) => v,
            Err(_) => {
                proof {
                    assert(false);
                }
                return ;
            },
        };
        let cur0 = round_evals[0];
        round_evals.set(0, cur0.add(value_at_one));
        let n_points = self.evaluation_domain.points.len();
        let mut d: usize = 2;
        while d < n_points
            invariant
                self.wf(),
                n_points == self.degree + 1,
                evals_0@.len() == self.input_arity(),
                evals_1@.len() == self.input_arity(),
                wf_scalars(evals_0@),
                wf_scalars(evals_1@),
                2 <= d <= n_points,
                round_evals@.len() == pre.len(),
                pre.len() == self.degree,
                wf_scalars(pre),
                wf_scalars(round_evals@),
                contribution == self.vertex_contribution(i as int, vals(evals_0@), vals(
                    evals_1@,
                )),
                forall|k: int|
                    0 <= k < d - 1 ==> (#[trigger] round_evals@[k])@ == fadd_int(
                        pre[k]@,
                        contribution[k],
                    ),
                forall|k: int| d - 1 <= k < pre.len() ==> round_evals@[k] == pre[k],
            decreases n_points - d,
        {
            let x = self.evaluation_domain.points[d];
            let mut evals_z: Vec<Scalar> = Vec::new();
            let mut j: usize = 0;
            proof {
                assert(self.evaluation_domain.points@[d as int].wf());
            }
            while j < evals_0.len()
                invariant
                    wf_scalars(evals_0@),
                    wf_scalars(evals_1@),
                    evals_1@.len() == evals_0@.len(),
                    x.wf(),
                    j <= evals_0@.len(),
                    evals_z@.len() == j,
                    wf_scalars(evals_z@),
                    forall|t: int|
                        0 <= t < j ==> (#[trigger] evals_z@[t])@
                            == crate::domain::extrapolate_line_int(
                            evals_0@[t]@,
                            evals_1@[t]@,
                            x@,
                        ),
                decreases evals_0@.len() - j,
            {
                proof {
                    assert(evals_0@[j as int].wf());
                    assert(evals_1@[j as int].wf());
                }
                evals_z.push(extrapolate_line(evals_0[j], evals_1[j], x));
                j = j + 1;
            }
            proof {
                assert(vals(evals_z@) =~= extrap_vals(vals(evals_0@), vals(evals_1@), x@));
            }
            let value = match self.composition.evaluate(&evals_z) {
                Ok(v) => v,
                Err(_) => {
                    proof {
                        assert(false);
                    }
                    return ;
                },
            };
            let cur = round_evals[d - 1];
            round_evals.set(d - 1, cur.add(value));
            d = d + 1;
        }
    }

    open spec fn coeffs_ok(&self, current_round_sum: int, round_evals: Seq<int>) -> bool {
        interpolation_ok(self.evaluation_domain.points_view())
    }

    open spec fn spec_coeffs(&self, current_round_sum: int, round_evals: Seq<int>) -> Seq<
        int,
    > {
        regular_coeffs_of(
            self.evaluation_domain.points_view(),
            current_round_sum,
            round_evals,
        )
    }

    fn round_evals_to_coeffs(&self, current_round_sum: Scalar, round_evals: Vec<Scalar>) -> (r:
        Result<Vec<Scalar>, Error>) {
        // r(0) is derivable from the identity r(0) = s - r(1).
        let zero_eval = current_round_sum.sub(round_evals[0]);
        let mut full_evals: Vec<Scalar> = Vec::new();
        full_evals.push(zero_eval);
        let mut t: usize = 0;
        while t < round_evals.len()
            invariant
                wf_scalars(round_evals@),
                zero_eval.wf(),
                t <= round_evals@.len(),
                full_evals@.len() == t + 1,
                wf_scalars(full_evals@),
                full_evals@[0] == zero_eval,
                forall|u: int| 1 <= u < t + 1 ==> full_evals@[u] == round_evals@[u - 1],
            decreases round_evals@.len() - t,
        {
            full_evals.push(round_evals[t]);
            t = t + 1;
        }
        proof {
            assert(vals(full_evals@) =~= seq![fsub_int(current_round_sum@, vals(round_evals@)[0])]
                + vals(round_evals@));
        }
        let coeffs = match self.evaluation_domain.interpolate(&full_evals) {
            Ok(c) => c,
            Err(e) => {
                proof {
                    assert(full_evals@.len() == self.evaluation_domain.points@.len());
                }
                return Err(Error::NonInvertibleDivisor);
            },
        };
        // The top coefficient is recoverable by the verifier: trim it.
        let mut trimmed: Vec<Scalar> = Vec::new();
        let mut t: usize = 0;
        while t < coeffs.len() - 1
            invariant
                wf_scalars(coeffs@),
                coeffs@.len() >= 1,
                t <= coeffs@.len() - 1,
                trimmed@.len() == t,
                wf_scalars(trimmed@),
                forall|u: int| 0 <= u < t ==> trimmed@[u] == coeffs@[u],
            decreases coeffs@.len() - 1 - t,
        {
            trimmed.push(coeffs[t]);
            t = t + 1;
        }
        proof {
            assert(vals(trimmed@) =~= vals(coeffs@).drop_last());
            assert(vals(coeffs@).drop_last() =~= self.spec_coeffs(
                current_round_sum@,
                vals(round_evals@),
            ));
        }
        Ok(trimmed)
    }
}

/// The regular accumulation is what the generic fold engine accumulates for
/// this evaluator.
pub proof fn lemma_regular_accum_eq<'a, C: CompositionPoly>(
    ev: RegularSumcheckEvaluator<'a, C>,
    st: ProverState,
    upto: int,
)
    ensures
        accum_round_evals(ev, st, upto) == regular_accum(
            *ev.composition,
            ev.evaluation_domain.points_view(),
            ev.degree as nat,
            st,
            upto,
        ),
    decreases upto,
{
    if upto <= 0 {
        assert(accum_round_evals(ev, st, upto) =~= regular_accum(
            *ev.composition,
            ev.evaluation_domain.points_view(),
            ev.degree as nat,
            st,
            upto,
        ));
    } else {
        lemma_regular_accum_eq(ev, st, upto - 1);
        assert(accum_round_evals(ev, st, upto) =~= regular_accum(
            *ev.composition,
            ev.evaluation_domain.points_view(),
            ev.degree as nat,
            st,
            upto,
        ));
    }
}

/// The sum of a composite's evaluations over the first `upto` hypercube
/// vertices.
pub open spec fn hypercube_sum<C: CompositionPoly>(
    witness: MultilinearComposite<C>,
    upto: int,
) -> int
    decreases upto,
{
    if upto <= 0 {
        0
    } else {
        fadd_int(hypercube_sum(witness, upto - 1), witness.spec_hypercube_eval(upto - 1))
    }
}

/// Check a sumcheck witness naively: sum the composite over the whole
/// hypercube and compare with the claimed sum.
pub fn validate_witness<C: CompositionPoly>(
    claim: &SumcheckClaim,
    witness: &MultilinearComposite<C>,
) -> (r: Result<(), Error>)
    requires
        claim.wf(),
        witness.wf(),
        pow2(witness.n_vars as nat) <= usize::MAX,
    ensures
        r is Ok <==> hypercube_sum(*witness, pow2(witness.n_vars as nat) as int)
            == claim.sum@,
        r is Err ==> r->Err_0 == Error::NaiveValidation,
{
    let size = crate::prover_state::pow2_exec(witness.n_vars);
    let mut acc = Scalar::zero();
    let mut i: usize = 0;
    while i < size
        invariant
            claim.wf(),
            witness.wf(),
            pow2(witness.n_vars as nat) <= usize::MAX,
            size == pow2(witness.n_vars as nat),
            i <= size,
            acc.wf(),
            acc@ == hypercube_sum(*witness, i as int),
        decreases size - i,
    {
        let v = match witness.evaluate_on_hypercube(i) {
            Ok(v) => v,
            Err(_) => {
                proof {
                    assert(false);
                }
                return Err(Error::NaiveValidation);
            },
        };
        acc = acc.add(v);
        i = i + 1;
    }
    if acc.v == claim.sum.v {
        proof {
            assert(acc@ == claim.sum@);
        }
        Ok(())
    } else {
        Err(Error::NaiveValidation)
    }
}

/// Copy a scalar vector.
pub fn copy_scalars(v: &Vec<Scalar>) -> (r: Vec<Scalar>)
    ensures
        r@ == v@,
{
    let mut out: Vec<Scalar> = Vec::new();
    let mut i: usize = 0;
    while i < v.len()
        invariant
            i <= v@.len(),
            out@.len() == i,
            forall|j: int| 0 <= j < i ==> out@[j] == v@[j],
        decreases v@.len() - i,
    {
        out.push(v[i]);
        i = i + 1;
    }
    proof {
        assert(out@ =~= v@);
    }
    out
}

/// A sumcheck protocol prover.
///
/// Instantiated by `new`, followed by exactly `n_vars` `execute_round`
/// calls — the first with no challenge, each later one with the challenge
/// sampled after the previous round — and one `finalize` call.
pub struct SumcheckProver<'a, C: CompositionPoly> {
    pub oracle: crate::oracle::CompositePolyOracle,
    pub composition: C,
    pub domain: &'a EvaluationDomain,
    pub round_claim: SumcheckRoundClaim,
    pub round: usize,
    pub last_round_proof: Option<SumcheckRound>,
    pub state: ProverState,
}

impl<'a, C: CompositionPoly> SumcheckProver<'a, C> {
    pub open spec fn wf(self) -> bool {
        &&& self.oracle.wf()
        &&& self.oracle.max_individual_degree >= 1
        &&& self.domain.wf()
        &&& self.domain.points@.len() == self.oracle.max_individual_degree + 1
        &&& self.composition.spec_n_vars() == self.state.multilinears@.len()
        &&& self.state.wf()
        &&& self.state.n_vars == self.oracle.n_vars
        &&& self.round <= self.oracle.n_vars
        &&& (if self.round == 0 {
            self.state.round == 0
        } else {
            self.state.round == self.round - 1
        })
        &&& self.round_claim.wf()
        &&& self.round_claim.partial_point@.len() == self.state.round
        &&& (self.round > 0 ==> self.last_round_proof is Some)
        &&& (self.last_round_proof is Some ==> self.last_round_proof->0.wf()
            && self.last_round_proof->0.coeffs@.len() == self.oracle.max_individual_degree)
    }

    /// Start a new sumcheck instance for a claim and its witness.
    pub fn new<S: SwitchoverPolicy>(
        domain: &'a EvaluationDomain,
        sumcheck_claim: &SumcheckClaim,
        sumcheck_witness: MultilinearComposite<C>,
        switchover_policy: &S,
    ) -> (r: Result<SumcheckProver<'a, C>, Error>)
        requires
            domain.wf(),
            sumcheck_claim.wf(),
            sumcheck_witness.wf(),
        ensures
            r is Ok <==> (sumcheck_claim.poly.max_individual_degree >= 1
                && sumcheck_witness.n_vars == sumcheck_claim.poly.n_vars
                && domain.points@.len() == sumcheck_claim.poly.max_individual_degree + 1
                && pow2(sumcheck_claim.poly.n_vars as nat) <= usize::MAX),
            r is Ok ==> {
                let pr = r->Ok_0;
                &&& pr.wf()
                &&& pr.round == 0
                &&& crate::oracle::same_oracle(pr.oracle, sumcheck_claim.poly)
                &&& pr.composition == sumcheck_witness.composition
                &&& pr.domain == domain
                &&& pr.round_claim.partial_point@.len() == 0
                &&& pr.round_claim.current_round_sum == sumcheck_claim.sum
                &&& pr.last_round_proof is None
                &&& pr.state.round == 0
                &&& pr.state.multilinears@.len() == sumcheck_witness.multilinears@.len()
                &&& forall|i: int|
                    0 <= i < pr.state.multilinears@.len() ==> ((
                    #[trigger] pr.state.multilinears@[i]) matches
                        crate::prover_state::SumcheckMultilinear::Transparent {
                        small_field_multilin,
                        ..
                    } && small_field_multilin == sumcheck_witness.multilinears@[i])
            },
            sumcheck_claim.poly.max_individual_degree == 0 ==> r is Err && r->Err_0
                == Error::PolynomialDegreeIsZero,
            sumcheck_claim.poly.max_individual_degree >= 1 && sumcheck_witness.n_vars
                != sumcheck_claim.poly.n_vars ==> r is Err && r->Err_0
                == Error::ProverClaimWitnessMismatch,
            sumcheck_claim.poly.max_individual_degree >= 1 && sumcheck_witness.n_vars
                == sumcheck_claim.poly.n_vars && domain.points@.len()
                != sumcheck_claim.poly.max_individual_degree + 1 ==> r is Err && r->Err_0
                == Error::EvaluationDomainMismatch,
            sumcheck_claim.poly.max_individual_degree >= 1 && sumcheck_witness.n_vars
                == sumcheck_claim.poly.n_vars && domain.points@.len()
                == sumcheck_claim.poly.max_individual_degree + 1 && pow2(
                sumcheck_claim.poly.n_vars as nat,
            ) > usize::MAX ==> r is Err && r->Err_0 == Error::IncorrectNumberOfVariables,
    {
        let n_vars = sumcheck_claim.n_vars();
        if sumcheck_claim.poly.max_individual_degree() == 0 {
            return Err(Error::PolynomialDegreeIsZero);
        }
        if sumcheck_witness.n_vars() != n_vars {
            return Err(Error::ProverClaimWitnessMismatch);
        }
        if let Err(e) = crate::domain::check_evaluation_domain(
            sumcheck_claim.poly.max_individual_degree(),
            domain,
        ) {
            return Err(e);
        }
        let state = match ProverState::new(
            n_vars,
            sumcheck_witness.multilinears,
            switchover_policy,
        ) {
            Ok(st) => st,
            Err(e) => {
                return Err(e);
            },
        };
        let round_claim = SumcheckRoundClaim {
            partial_point: Vec::new(),
            current_round_sum: sumcheck_claim.sum,
        };
        Ok(SumcheckProver {
            oracle: sumcheck_claim.poly.clone(),
            composition: sumcheck_witness.composition,
            domain,
            round_claim,
            round: 0,
            last_round_proof: None,
            state,
        })
    }

    pub fn n_vars(&self) -> (r: usize)
        ensures
            r == self.oracle.n_vars,
    {
        self.oracle.n_vars
    }

    /// Reduce the running round claim through the sampled challenge, using
    /// the round message sent last.
    fn reduce_claim(&mut self, prev_rd_challenge: Scalar) -> (r: Result<(), Error>)
        requires
            old(self).round_claim.wf(),
            old(self).last_round_proof is Some,
            old(self).last_round_proof->0.wf(),
            old(self).last_round_proof->0.coeffs@.len() >= 1,
            prev_rd_challenge.wf(),
        ensures
            r is Ok,
            final(self).oracle == old(self).oracle,
            final(self).composition == old(self).composition,
            final(self).domain == old(self).domain,
            final(self).round == old(self).round,
            final(self).last_round_proof == old(self).last_round_proof,
            final(self).state == old(self).state,
            final(self).round_claim.wf(),
            final(self).round_claim.partial_point@ == old(self).round_claim.partial_point@.push(prev_rd_challenge),
            final(self).round_claim.current_round_sum@ == crate::univariate::eval_uni(
                crate::univariate::with_recovered_top(
                    old(self).round_claim.current_round_sum@,
                    vals(old(self).last_round_proof->0.coeffs@),
                ),
                prev_rd_challenge@,
            ),
    {
        let reductor = crate::reduce::SumcheckReductor;
        let round_claim = SumcheckRoundClaim {
            partial_point: copy_scalars(&self.round_claim.partial_point),
            current_round_sum: self.round_claim.current_round_sum,
        };
        let round_proof = match &self.last_round_proof {
            Some(rp) => SumcheckRound { coeffs: copy_scalars(&rp.coeffs) },
            None => {
                proof {
                    assert(false);
                }
                return Err(Error::NumberOfCoefficients);
            },
        };
        let new_round_claim = match reductor.reduce_round_claim(
            self.round,
            round_claim,
            prev_rd_challenge,
            round_proof,
        ) {
            Ok(c) => c,
            Err(_) => {
                proof {
                    assert(false);
                }
                return Err(Error::NumberOfCoefficients);
            },
        };
        self.round_claim = new_round_claim;
        Ok(())
    }

    /// Execute one round: fold in the previous challenge (for rounds after
    /// the first), reduce the running claim, and compute this round's
    /// truncated coefficient message.
    pub fn execute_round(&mut self, prev_rd_challenge: Option<Scalar>) -> (r: Result<
        SumcheckRound,
        Error,
    >)
        requires
            old(self).wf(),
            prev_rd_challenge is Some ==> prev_rd_challenge->0.wf(),
        ensures
            !(prev_rd_challenge is Some <==> old(self).round > 0) ==> r is Err && r->Err_0
                == (if old(self).round == 0 {
                Error::PreviousRoundChallengePresent
            } else {
                Error::PreviousRoundChallengeAbsent
            }) && *final(self) == *old(self),
            (prev_rd_challenge is Some <==> old(self).round > 0) && old(self).round >= old(self).oracle.n_vars ==> r is Err && r->Err_0 == Error::TooManyExecuteRoundCalls
                && *final(self) == *old(self),
            r is Ok <==> ((prev_rd_challenge is Some <==> old(self).round > 0) && old(self).round < old(self).oracle.n_vars && interpolation_ok(
                old(self).domain.points_view(),
            )),
            (prev_rd_challenge is Some <==> old(self).round > 0) && old(self).round < old(self).oracle.n_vars && r is Err ==> r->Err_0 == Error::NonInvertibleDivisor,
            r is Ok ==> {
                let rp = r->Ok_0;
                let st = final(self).state;
                let s = final(self).round_claim.current_round_sum@;
                &&& final(self).wf()
                &&& final(self).round == old(self).round + 1
                &&& final(self).oracle == old(self).oracle
                &&& final(self).composition == old(self).composition
                &&& final(self).domain == old(self).domain
                &&& st.round == old(self).round
                &&& (prev_rd_challenge is None ==> st == old(self).state
                    && final(self).round_claim == old(self).round_claim)
                &&& (prev_rd_challenge is Some ==> (forall|i: int|
                    0 <= i < old(self).state.multilinears@.len()
                        ==> crate::prover_state::folds_to(
                        old(self).state,
                        st,
                        prev_rd_challenge->0@,
                        i,
                    )) && final(self).round_claim.partial_point@ == old(self).round_claim.partial_point@.push(prev_rd_challenge->0) && s
                    == crate::univariate::eval_uni(
                    crate::univariate::with_recovered_top(
                        old(self).round_claim.current_round_sum@,
                        vals(old(self).last_round_proof->0.coeffs@),
                    ),
                    prev_rd_challenge->0@,
                ))
                &&& rp.wf()
                &&& rp.coeffs@.len() == old(self).oracle.max_individual_degree
                &&& vals(rp.coeffs@) == regular_coeffs_of(
                    old(self).domain.points_view(),
                    s,
                    regular_accum(
                        old(self).composition,
                        old(self).domain.points_view(),
                        old(self).oracle.max_individual_degree as nat,
                        st,
                        pow2((old(self).oracle.n_vars - old(self).round - 1) as nat) as int,
                    ),
                )
                &&& final(self).last_round_proof is Some
                &&& final(self).last_round_proof->0.coeffs@ == rp.coeffs@
            },
    {
        if let Err(e) = validate_rd_challenge(&prev_rd_challenge, self.round) {
            return Err(e);
        }
        if self.round >= self.oracle.n_vars {
            return Err(Error::TooManyExecuteRoundCalls);
        }
        if let Some(challenge) = prev_rd_challenge {
            if let Err(e) = self.state.fold(challenge) {
                proof {
                    assert(false);
                }
                return Err(e);
            }
            if let Err(e) = self.reduce_claim(challenge) {
                proof {
                    assert(false);
                }
                return Err(e);
            }
        }
        let degree = self.oracle.max_individual_degree();
        let evaluator = RegularSumcheckEvaluator {
            degree,
            composition: &self.composition,
            evaluation_domain: self.domain,
        };
        let mut scratch_q: Vec<Scalar> = Vec::new();
        proof {
            assert(evaluator.chunk_size() == 0);
            assert(pow2((self.state.n_vars - self.state.round - 1) as nat)
                * evaluator.chunk_size() == 0)
                by (nonlinear_arith)
                requires
                    evaluator.chunk_size() == 0,
            ;
        }
        let round_coeffs = match self.state.calculate_round_coeffs(
            &evaluator,
            self.round_claim.current_round_sum,
            &mut scratch_q,
        ) {
            Ok(c) => c,
            Err(e) => {
                proof {
                    crate::prover_state::lemma_accum_shape(
                        evaluator,
                        self.state,
                        pow2((self.state.n_vars - self.state.round - 1) as nat) as int,
                    );
                }
                return Err(e);
            },
        };
        proof {
            let n_v = pow2((self.state.n_vars - self.state.round - 1) as nat) as int;
            let total = accum_round_evals(evaluator, self.state, n_v);
            let s = self.round_claim.current_round_sum@;
            let points = self.domain.points_view();
            lemma_regular_accum_eq(evaluator, self.state, n_v);
            assert(vals(round_coeffs@) == evaluator.spec_coeffs(s, total));
            assert(evaluator.spec_coeffs(s, total) == regular_coeffs_of(points, s, total));
            crate::domain::lemma_lagrange_len(points, seq![fsub_int(s, total[0])] + total);
            assert(regular_coeffs_of(points, s, total).len() == points.len() - 1);
            assert(vals(round_coeffs@).len() == round_coeffs@.len());
            assert(round_coeffs@.len() == self.oracle.max_individual_degree);
        }
        let stored = SumcheckRound { coeffs: copy_scalars(&round_coeffs) };
        let proof_round = SumcheckRound { coeffs: round_coeffs };
        self.last_round_proof = Some(stored);
        self.round = self.round + 1;
        Ok(proof_round)
    }

    /// Finish the instance after all rounds, reducing through the final
    /// challenge, and hand back the reduced claim.
    pub fn finalize(self, prev_rd_challenge: Option<Scalar>) -> (r: Result<
        crate::common::ReducedClaim,
        Error,
    >)
        requires
            self.wf(),
            prev_rd_challenge is Some ==> prev_rd_challenge->0.wf(),
        ensures
            !(prev_rd_challenge is Some <==> self.round > 0) ==> r is Err && r->Err_0 == (
            if self.round == 0 {
                Error::PreviousRoundChallengePresent
            } else {
                Error::PreviousRoundChallengeAbsent
            }),
            (prev_rd_challenge is Some <==> self.round > 0) && self.round
                != self.oracle.n_vars ==> r is Err && r->Err_0
                == Error::PrematureFinalizeCall,
            r is Ok <==> ((prev_rd_challenge is Some <==> self.round > 0) && self.round
                == self.oracle.n_vars),
            r is Ok ==> {
                let rc = r->Ok_0;
                &&& rc.wf()
                &&& rc.eval_point@.len() == self.oracle.n_vars
                &&& (prev_rd_challenge is Some ==> rc.eval_point@
                    == self.round_claim.partial_point@.push(prev_rd_challenge->0)
                    && rc.eval@ == crate::univariate::eval_uni(
                    crate::univariate::with_recovered_top(
                        self.round_claim.current_round_sum@,
                        vals(self.last_round_proof->0.coeffs@),
                    ),
                    prev_rd_challenge->0@,
                ))
                &&& (prev_rd_challenge is None ==> rc.eval_point@
                    == self.round_claim.partial_point@ && rc.eval
                    == self.round_claim.current_round_sum)
            },
    {
        let mut this = self;
        if let Err(e) = validate_rd_challenge(&prev_rd_challenge, this.round) {
            return Err(e);
        }
        if this.round != this.oracle.n_vars {
            return Err(Error::PrematureFinalizeCall);
        }
        if let Some(challenge) = prev_rd_challenge {
            if let Err(e) = this.reduce_claim(challenge) {
                proof {
                    assert(false);
                }
                return Err(e);
            }
        }
        Ok(crate::common::ReducedClaim::from_round_claim(this.round_claim))
    }
}

/// Prove a sumcheck-to-evalcheck reduction: one round message per variable,
/// each observed by the transcript before the next challenge is sampled.
pub fn prove<'a, C: CompositionPoly, S: SwitchoverPolicy, CH: Challenger>(
    claim: &SumcheckClaim,
    witness: MultilinearComposite<C>,
    domain: &'a EvaluationDomain,
    challenger: &mut CH,
    switchover_policy: &S,
) -> (r: Result<crate::common::SumcheckProveOutput, Error>)
    requires
        claim.wf(),
        witness.wf(),
        domain.wf(),
        old(challenger).wf(),
    ensures
        final(challenger).wf(),
        r is Ok <==> (claim.poly.max_individual_degree >= 1 && witness.n_vars
            == claim.poly.n_vars && domain.points@.len()
            == claim.poly.max_individual_degree + 1 && pow2(claim.poly.n_vars as nat)
            <= usize::MAX && (claim.poly.n_vars >= 1 ==> interpolation_ok(
            domain.points_view(),
        ))),
        claim.poly.max_individual_degree == 0 ==> r is Err && r->Err_0
            == Error::PolynomialDegreeIsZero,
        claim.poly.max_individual_degree >= 1 && witness.n_vars != claim.poly.n_vars
            ==> r is Err && r->Err_0 == Error::ProverClaimWitnessMismatch,
        claim.poly.max_individual_degree >= 1 && witness.n_vars == claim.poly.n_vars
            && domain.points@.len() != claim.poly.max_individual_degree + 1 ==> r is Err
            && r->Err_0 == Error::EvaluationDomainMismatch,
        claim.poly.max_individual_degree >= 1 && witness.n_vars == claim.poly.n_vars
            && domain.points@.len() == claim.poly.max_individual_degree + 1 && pow2(
            claim.poly.n_vars as nat,
        ) > usize::MAX ==> r is Err && r->Err_0 == Error::IncorrectNumberOfVariables,
        claim.poly.max_individual_degree >= 1 && witness.n_vars == claim.poly.n_vars
            && domain.points@.len() == claim.poly.max_individual_degree + 1 && pow2(
            claim.poly.n_vars as nat,
        ) <= usize::MAX && claim.poly.n_vars >= 1 && !interpolation_ok(
            domain.points_view(),
        ) ==> r is Err && r->Err_0 == Error::NonInvertibleDivisor,
        r is Ok ==> {
            let out = r->Ok_0;
            &&& out.sumcheck_proof.rounds@.len() == claim.poly.n_vars
            &&& out.sumcheck_proof.wf()
            &&& forall|i: int|
                0 <= i < out.sumcheck_proof.rounds@.len()
                    ==> (#[trigger] out.sumcheck_proof.rounds@[i]).coeffs@.len()
                    == claim.poly.max_individual_degree
            &&& out.evalcheck_claim.wf()
            &&& out.evalcheck_claim.eval_point@.len() == claim.poly.n_vars
            &&& crate::oracle::same_oracle(out.evalcheck_claim.poly, claim.poly)
            &&& out.evalcheck_claim.is_random_point
        },
{
    let mut sumcheck_prover = match SumcheckProver::new(
        domain,
        claim,
        witness,
        switchover_policy,
    ) {
        Ok(p) => p,
        Err(e) => {
            return Err(e);
        },
    };
    let n_vars = claim.n_vars();
    let mut prev_rd_challenge: Option<Scalar> = None;
    let mut rd_proofs: Vec<SumcheckRound> = Vec::new();
    let mut round_no: usize = 0;
    while round_no < n_vars
        invariant
            claim.wf(),
            domain.wf(),
            challenger.wf(),
            n_vars == claim.poly.n_vars,
            round_no <= n_vars,
            sumcheck_prover.wf(),
            sumcheck_prover.round == round_no,
            sumcheck_prover.oracle.n_vars == n_vars,
            sumcheck_prover.oracle.max_individual_degree
                == claim.poly.max_individual_degree,
            claim.poly.max_individual_degree >= 1,
            witness.n_vars == claim.poly.n_vars,
            domain.points@.len() == claim.poly.max_individual_degree + 1,
            pow2(claim.poly.n_vars as nat) <= usize::MAX,
            sumcheck_prover.domain == domain,
            round_no > 0 ==> interpolation_ok(domain.points_view()),
            prev_rd_challenge is Some <==> round_no > 0,
            prev_rd_challenge is Some ==> prev_rd_challenge->0.wf(),
            rd_proofs@.len() == round_no,
            forall|i: int|
                0 <= i < round_no ==> (#[trigger] rd_proofs@[i]).wf()
                    && rd_proofs@[i].coeffs@.len() == claim.poly.max_individual_degree,
        decreases n_vars - round_no,
    {
        let sumcheck_round = match sumcheck_prover.execute_round(prev_rd_challenge) {
            Ok(rp) => rp,
            Err(e) => {
                return Err(e);
            },
        };
        observe_slice(challenger, &sumcheck_round.coeffs);
        prev_rd_challenge = Some(challenger.sample());
        rd_proofs.push(sumcheck_round);
        round_no = round_no + 1;
    }
    let reduced_claim = match sumcheck_prover.finalize(prev_rd_challenge) {
        Ok(rc) => rc,
        Err(e) => {
            proof {
                assert(false);
            }
            return Err(e);
        },
    };
    let evalcheck_claim = match crate::common::finalize_evalcheck_claim(
        &claim.poly,
        reduced_claim,
    ) {
        Ok(ec) => ec,
        Err(e) => {
            proof {
                assert(false);
            }
            return Err(e);
        },
    };
    Ok(crate::common::SumcheckProveOutput {
        evalcheck_claim,
        sumcheck_proof: crate::common::SumcheckProof { rounds: rd_proofs },
    })
}

/// Verifies a sumcheck round reduction proof: evaluate the recovered round
/// polynomial at the challenge and reduce to the next round claim.
pub fn verify_round(claim: SumcheckRoundClaim, challenge: Scalar, proof: SumcheckRound) -> (r:
    Result<SumcheckRoundClaim, Error>)
    requires
        claim.wf(),
        challenge.wf(),
        proof.wf(),
    ensures
        r is Err <==> proof.coeffs@.len() == 0,
        r is Err ==> r->Err_0 == Error::NumberOfCoefficients,
        r is Ok ==> r->Ok_0.wf() && r->Ok_0.partial_point@ == claim.partial_point@.push(
            challenge,
        ) && r->Ok_0.current_round_sum@ == crate::univariate::eval_uni(
            crate::univariate::with_recovered_top(
                claim.current_round_sum@,
                vals(proof.coeffs@),
            ),
            challenge@,
        ),
{
    crate::reduce::reduce_sumcheck_claim_round(claim, challenge, proof)
}

/// Verifies a zerocheck round reduction proof; `zerocheck_challenge` is
/// `None` for the first round.
pub fn verify_zerocheck_round(
    claim: SumcheckRoundClaim,
    challenge: Scalar,
    proof: SumcheckRound,
    zerocheck_challenge: Option<Scalar>,
) -> (r: Result<SumcheckRoundClaim, Error>)
    requires
        claim.wf(),
        challenge.wf(),
        proof.wf(),
        zerocheck_challenge is Some ==> zerocheck_challenge->0.wf(),
    ensures
        r is Err <==> proof.coeffs@.len() == 0,
        r is Err ==> r->Err_0 == Error::NumberOfCoefficients,
        r is Ok ==> r->Ok_0.wf() && r->Ok_0.partial_point@ == claim.partial_point@.push(
            challenge,
        ),
        r is Ok && zerocheck_challenge is None ==> r->Ok_0.current_round_sum@
            == crate::univariate::eval_uni(
            crate::reduce::zc_round0_full(vals(proof.coeffs@)),
            challenge@,
        ),
        r is Ok && zerocheck_challenge is Some ==> r->Ok_0.current_round_sum@
            == crate::univariate::eval_uni(
            crate::univariate::with_recovered_zc_const(
                claim.current_round_sum@,
                zerocheck_challenge->0@,
                vals(proof.coeffs@),
            ),
            challenge@,
        ),
{
    crate::reduce::reduce_zerocheck_claim_round(claim, challenge, proof, zerocheck_challenge)
}

/// Verifies the final step of a sumcheck reduction, after all rounds.
pub fn verify_final(
    poly_oracle: &crate::oracle::CompositePolyOracle,
    claim: SumcheckRoundClaim,
) -> (r: Result<crate::common::EvalcheckClaim, Error>)
    ensures
        r is Ok <==> claim.partial_point@.len() == poly_oracle.n_vars,
        r is Ok ==> crate::oracle::same_oracle(r->Ok_0.poly, *poly_oracle)
            && r->Ok_0.eval_point == claim.partial_point && r->Ok_0.eval
            == claim.current_round_sum && r->Ok_0.is_random_point,
        r is Err ==> r->Err_0 == Error::NumberOfRounds,
{
    let reduced = crate::common::ReducedClaim::from_round_claim(claim);
    crate::common::finalize_evalcheck_claim(poly_oracle, reduced)
}

} // verus!
