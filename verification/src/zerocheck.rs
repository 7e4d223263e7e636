//! The zerocheck protocol: proving that a composite multilinear polynomial
//! vanishes on its whole Boolean hypercube.
//!
//! Zerocheck weights each vertex by the equality indicator against the
//! zerocheck challenges. Two simplifications follow: in the first round
//! `r(0) = r(1) = 0` are known a priori, so only the evaluations at
//! `X = 2, ..., degree` are computed; in later rounds `r(1)` is read off
//! the running auxiliary polynomial `Q-bar` instead of re-evaluating the
//! composition, and `r(0)` is recovered from the weighted identity
//! `s = alpha * r(1) + (1 - alpha) * r(0)`.

use vstd::prelude::*;

verus! {

use crate::challenger::{observe_slice, sample_vec, Challenger};
use crate::common::{
    validate_rd_challenge, Error, SumcheckProof, SumcheckRound, SumcheckRoundClaim,
    ZerocheckClaim, ZerocheckProveOutput,
};
use crate::composition::{CompositionPoly, MultilinearComposite};
use crate::domain::{
    extrapolate_line, extrapolate_line_int, lagrange_coeffs, EvaluationDomain,
};
use crate::field::{
    fadd_int, finv_int, fmul_int, fsub_int, has_inv, Scalar,
};
use crate::multilinear::MultilinearExtension;
use crate::prover_state::{ProverState, SumcheckRoundEvaluator, SwitchoverPolicy};
use crate::sumcheck::{copy_scalars, extrap_vals, interpolation_ok};
use crate::univariate::{vals, wf_scalars};
use vstd::arithmetic::power2::{lemma_pow2_pos, lemma_pow2_unfold, pow2};

/// One vertex's contribution in the first zerocheck round: the composition
/// at the interpolated points `points[2], ..., points[degree]`, each
/// weighted by the equality indicator at the vertex. `r(0)` and `r(1)` are
/// never queried.
pub open spec fn zc_first_contribution<C: CompositionPoly>(
    comp: C,
    points: Seq<int>,
    degree: nat,
    eq_vals: Seq<int>,
    i: int,
    e0: Seq<int>,
    e1: Seq<int>,
) -> Seq<int> {
    Seq::new(
        (degree - 1) as nat,
        |k: int| fmul_int(comp.spec_evaluate(extrap_vals(e0, e1, points[k + 2])), eq_vals[i]),
    )
}

/// The auxiliary values the first round caches: each composite value
/// divided by `x * (x - 1)` at its domain point.
pub open spec fn zc_first_q_writes<C: CompositionPoly>(
    comp: C,
    points: Seq<int>,
    degree: nat,
    denom_inv: Seq<int>,
    e0: Seq<int>,
    e1: Seq<int>,
) -> Seq<int> {
    Seq::new(
        (degree - 1) as nat,
        |k: int|
            fmul_int(comp.spec_evaluate(extrap_vals(e0, e1, points[k + 2])), denom_inv[k]),
    )
}

/// One vertex's contribution in a later zerocheck round: `r(1)` is read off
/// `Q-bar`, the rest is the weighted composition at the interpolated
/// points.
pub open spec fn zc_later_contribution<C: CompositionPoly>(
    comp: C,
    points: Seq<int>,
    degree: nat,
    eq_vals: Seq<int>,
    q_bar_vals: Seq<int>,
    i: int,
    e0: Seq<int>,
    e1: Seq<int>,
) -> Seq<int> {
    Seq::new(
        degree,
        |k: int|
            if k == 0 {
                fmul_int(q_bar_vals[2 * i + 1], eq_vals[i])
            } else {
                fmul_int(comp.spec_evaluate(extrap_vals(e0, e1, points[k + 1])), eq_vals[i])
            },
    )
}

/// The auxiliary values a later round caches: the composite minus the
/// extrapolated `Q-bar`, divided by `x * (x - 1)` at each domain point.
pub open spec fn zc_later_q_writes<C: CompositionPoly>(
    comp: C,
    points: Seq<int>,
    degree: nat,
    denom_inv: Seq<int>,
    q_bar_vals: Seq<int>,
    i: int,
    e0: Seq<int>,
    e1: Seq<int>,
) -> Seq<int> {
    Seq::new(
        (degree - 1) as nat,
        |k: int|
            fmul_int(
                fsub_int(
                    comp.spec_evaluate(extrap_vals(e0, e1, points[k + 2])),
                    extrapolate_line_int(
                        q_bar_vals[2 * i],
                        q_bar_vals[2 * i + 1],
                        points[k + 2],
                    ),
                ),
                denom_inv[k],
            ),
    )
}

/// The first-round zerocheck message: interpolate through the two known
/// zeros at `X = 0, 1` and drop the constant coefficient, which the
/// verifier knows to be zero.
pub open spec fn zc_first_coeffs_of(points: Seq<int>, round_evals: Seq<int>) -> Seq<int> {
    lagrange_coeffs(points, seq![0int, 0int] + round_evals).drop_first()
}

/// A later-round zerocheck message: recover `r(0)` from the weighted
/// identity, interpolate, and drop the constant coefficient.
pub open spec fn zc_later_coeffs_of(
    points: Seq<int>,
    alpha: int,
    s: int,
    round_evals: Seq<int>,
) -> Seq<int> {
    lagrange_coeffs(
        points,
        seq![fmul_int(fsub_int(s, fmul_int(alpha, round_evals[0])), finv_int(fsub_int(1, alpha)))]
            + round_evals,
    ).drop_first()
}

/// Evaluator for the first round of the zerocheck protocol.
pub struct ZerocheckFirstRoundEvaluator<'a, C: CompositionPoly> {
    pub composition: &'a C,
    pub evaluation_domain: &'a EvaluationDomain,
    pub degree: usize,
    pub eq_ind: &'a MultilinearExtension,
    pub denom_inv: &'a Vec<Scalar>,
}

impl<'a, C: CompositionPoly> SumcheckRoundEvaluator for ZerocheckFirstRoundEvaluator<'a, C> {
    open spec fn wf(&self) -> bool {
        &&& self.degree >= 2
        &&& self.evaluation_domain.wf()
        &&& self.evaluation_domain.points@.len() == self.degree + 1
        &&& self.eq_ind.wf()
        &&& wf_scalars(self.denom_inv@)
        &&& self.denom_inv@.len() == self.degree - 1
    }

    open spec fn input_arity(&self) -> nat {
        self.composition.spec_n_vars()
    }

    open spec fn spec_n_round_evals(&self) -> nat {
        (self.degree - 1) as nat
    }

    open spec fn chunk_size(&self) -> nat {
        (self.degree - 1) as nat
    }

    open spec fn vertex_ok(&self, i: int) -> bool {
        0 <= i < self.eq_ind.evals@.len()
    }

    open spec fn vertex_contribution(&self, i: int, e0: Seq<int>, e1: Seq<int>) -> Seq<int> {
        zc_first_contribution(
            *self.composition,
            self.evaluation_domain.points_view(),
            self.degree as nat,
            self.eq_ind.values(),
            i,
            e0,
            e1,
        )
    }

    open spec fn q_writes(&self, i: int, e0: Seq<int>, e1: Seq<int>) -> Seq<int> {
        zc_first_q_writes(
            *self.composition,
            self.evaluation_domain.points_view(),
            self.degree as nat,
            vals(self.denom_inv@),
            e0,
            e1,
        )
    }

    proof fn lemma_shapes(&self, i: int, e0: Seq<int>, e1: Seq<int>) {
        let c = self.vertex_contribution(i, e0, e1);
        let q = self.q_writes(i, e0, e1);
        assert forall|k: int| 0 <= k < c.len() implies crate::field::reduced(
            #[trigger] c[k]) by {
            vstd::arithmetic::div_mod::lemma_mod_bound(
                self.composition.spec_evaluate(
                    extrap_vals(e0, e1, self.evaluation_domain.points_view()[k + 2]),
                ) * self.eq_ind.values()[i],
                crate::field::field_p(),
            );
        }
        assert forall|k: int| 0 <= k < q.len() implies crate::field::reduced(
            #[trigger] q[k]) by {
            vstd::arithmetic::div_mod::lemma_mod_bound(
                self.composition.spec_evaluate(
                    extrap_vals(e0, e1, self.evaluation_domain.points_view()[k + 2]),
                ) * vals(self.denom_inv@)[k],
                crate::field::field_p(),
            );
        }
    }

    fn n_round_evals(&self) -> (r: usize) {
        // With r(0) = r(1) = 0 known a priori, only the evaluations at
        // X = 2, ..., degree are needed.
        self.degree - 1
    }

    fn process_vertex(
        &self,
        i: usize,
        evals_0: &Vec<Scalar>,
        evals_1: &Vec<Scalar>,
        round_evals: &mut Vec<Scalar>,
        round_q: &mut Vec<Scalar>,
    ) {
        let ghost pre = round_evals@;
        let ghost pre_q = round_q@;
        let ghost contribution = self.vertex_contribution(
            i as int,
            vals(evals_0@),
            vals(evals_1@),
        );
        let ghost writes = self.q_writes(i as int, vals(evals_0@), vals(evals_1@));
        let chunk = self.degree - 1;
        let eq_ind_factor = self.eq_ind.evals[i];
        proof {
            assert(self.eq_ind.evals@[i as int].wf());
            vstd::arithmetic::mul::lemma_mul_is_distributive_add_other_way(
                chunk as int,
                i as int,
                1,
            );
            vstd::arithmetic::mul::lemma_mul_inequality(i as int, i as int + 1, chunk as int);
        }
        let base = i * chunk;
        let n_points = self.evaluation_domain.points.len();
        let mut d: usize = 2;
        while d < n_points
            invariant
                self.wf(),
                evals_0@.len() == self.input_arity(),
                evals_1@.len() == self.input_arity(),
                wf_scalars(evals_0@),
                wf_scalars(evals_1@),
                eq_ind_factor.wf(),
                eq_ind_factor@ == self.eq_ind.values()[i as int],
                n_points == self.degree + 1,
                chunk == self.degree - 1,
                base == i * chunk,
                base + chunk <= pre_q.len(),
                2 <= d <= n_points,
                round_evals@.len() == pre.len(),
                pre.len() == chunk,
                wf_scalars(pre),
                wf_scalars(round_evals@),
                round_q@.len() == pre_q.len(),
                pre_q.len() <= usize::MAX,
                wf_scalars(pre_q),
                wf_scalars(round_q@),
                contribution == self.vertex_contribution(i as int, vals(evals_0@), vals(
                    evals_1@,
                )),
                writes == self.q_writes(i as int, vals(evals_0@), vals(evals_1@)),
                forall|k: int|
                    0 <= k < d - 2 ==> (#[trigger] round_evals@[k])@ == fadd_int(
                        pre[k]@,
                        contribution[k],
                    ),
                forall|k: int| d - 2 <= k < pre.len() ==> round_evals@[k] == pre[k],
                forall|t: int|
                    base <= t < base + (d - 2) ==> (#[trigger] round_q@[t])@ == writes[t
                        - base],
                forall|t: int|
                    0 <= t < pre_q.len() && !(base <= t < base + (d - 2))
                        ==> #[trigger] round_q@[t] == pre_q[t],
            decreases n_points - d,
        {
            let x = self.evaluation_domain.points[d];
            proof {
                assert(self.evaluation_domain.points@[d as int].wf());
            }
            let mut evals_z: Vec<Scalar> = Vec::new();
            let mut j: usize = 0;
            while j < evals_0.len()
                invariant
                    wf_scalars(evals_0@),
                    wf_scalars(evals_1@),
                    evals_1@.len() == evals_0@.len(),
                    x.wf(),
                    j <= evals_0@.len(),
                    evals_z@.len() == j,
                    wf_scalars(evals_z@),
                    forall|t: int|
                        0 <= t < j ==> (#[trigger] evals_z@[t])@ == extrapolate_line_int(
                            evals_0@[t]@,
                            evals_1@[t]@,
                            x@,
                        ),
                decreases evals_0@.len() - j,
            {
                proof {
                    assert(evals_0@[j as int].wf());
                    assert(evals_1@[j as int].wf());
                }
                evals_z.push(extrapolate_line(evals_0[j], evals_1[j], x));
                j = j + 1;
            }
            proof {
                assert(vals(evals_z@) =~= extrap_vals(vals(evals_0@), vals(evals_1@), x@));
            }
            let composite_value = match self.composition.evaluate(&evals_z) {
                Ok(v) => v,
                Err(_) => {
                    proof {
                        assert(false);
                    }
                    return ;
                },
            };
            let cur = round_evals[d - 2];
            round_evals.set(d - 2, cur.add(composite_value.mul(eq_ind_factor)));
            proof {
                assert(self.denom_inv@[d - 2].wf());
            }
            round_q.set(base + (d - 2), composite_value.mul(self.denom_inv[d - 2]));
            d = d + 1;
        }
    }

    open spec fn coeffs_ok(&self, current_round_sum: int, round_evals: Seq<int>) -> bool {
        interpolation_ok(self.evaluation_domain.points_view())
    }

    open spec fn spec_coeffs(&self, current_round_sum: int, round_evals: Seq<int>) -> Seq<
        int,
    > {
        zc_first_coeffs_of(self.evaluation_domain.points_view(), round_evals)
    }

    fn round_evals_to_coeffs(&self, current_round_sum: Scalar, round_evals: Vec<Scalar>) -> (r:
        Result<Vec<Scalar>, Error>) {
        // r(0) = r(1) = 0 are known a priori.
        let mut full_evals: Vec<Scalar> = Vec::new();
        full_evals.push(Scalar::zero());
        full_evals.push(Scalar::zero());
        let mut t: usize = 0;
        while t < round_evals.len()
            invariant
                wf_scalars(round_evals@),
                t <= round_evals@.len(),
                full_evals@.len() == t + 2,
                wf_scalars(full_evals@),
                full_evals@[0]@ == 0,
                full_evals@[1]@ == 0,
                forall|u: int| 2 <= u < t + 2 ==> full_evals@[u] == round_evals@[u - 2],
            decreases round_evals@.len() - t,
        {
            full_evals.push(round_evals[t]);
            t = t + 1;
        }
        proof {
            assert(vals(full_evals@) =~= seq![0int, 0int] + vals(round_evals@));
        }
        let coeffs = match self.evaluation_domain.interpolate(&full_evals) {
            Ok(c) => c,
            Err(e) => {
                proof {
                    assert(full_evals@.len() == self.evaluation_domain.points@.len());
                }
                return Err(Error::NonInvertibleDivisor);
            },
        };
        // The constant coefficient is zero; it is omitted from the message.
        let mut trimmed: Vec<Scalar> = Vec::new();
        let mut t: usize = 1;
        while t < coeffs.len()
            invariant
                wf_scalars(coeffs@),
                coeffs@.len() >= 1,
                1 <= t <= coeffs@.len(),
                trimmed@.len() == t - 1,
                wf_scalars(trimmed@),
                forall|u: int| 0 <= u < t - 1 ==> trimmed@[u] == coeffs@[u + 1],
            decreases coeffs@.len() - t,
        {
            trimmed.push(coeffs[t]);
            t = t + 1;
        }
        proof {
            assert(vals(trimmed@) =~= vals(coeffs@).drop_first());
            assert(vals(coeffs@).drop_first() =~= self.spec_coeffs(
                current_round_sum@,
                vals(round_evals@),
            ));
        }
        Ok(trimmed)
    }
}

/// Evaluator for the later rounds of the zerocheck protocol.
pub struct ZerocheckLaterRoundEvaluator<'a, C: CompositionPoly> {
    pub composition: &'a C,
    pub evaluation_domain: &'a EvaluationDomain,
    pub degree: usize,
    pub eq_ind: &'a MultilinearExtension,
    pub round_zerocheck_challenge: Scalar,
    pub denom_inv: &'a Vec<Scalar>,
    pub round_q_bar: &'a MultilinearExtension,
}

impl<'a, C: CompositionPoly> SumcheckRoundEvaluator for ZerocheckLaterRoundEvaluator<'a, C> {
    open spec fn wf(&self) -> bool {
        &&& self.degree >= 2
        &&& self.evaluation_domain.wf()
        &&& self.evaluation_domain.points@.len() == self.degree + 1
        &&& self.eq_ind.wf()
        &&& self.round_q_bar.wf()
        &&& self.round_q_bar.evals@.len() == 2 * self.eq_ind.evals@.len()
        &&& self.round_zerocheck_challenge.wf()
        &&& wf_scalars(self.denom_inv@)
        &&& self.denom_inv@.len() == self.degree - 1
    }

    open spec fn input_arity(&self) -> nat {
        self.composition.spec_n_vars()
    }

    open spec fn spec_n_round_evals(&self) -> nat {
        self.degree as nat
    }

    open spec fn chunk_size(&self) -> nat {
        (self.degree - 1) as nat
    }

    open spec fn vertex_ok(&self, i: int) -> bool {
        0 <= i < self.eq_ind.evals@.len()
    }

    open spec fn vertex_contribution(&self, i: int, e0: Seq<int>, e1: Seq<int>) -> Seq<int> {
        zc_later_contribution(
            *self.composition,
            self.evaluation_domain.points_view(),
            self.degree as nat,
            self.eq_ind.values(),
            self.round_q_bar.values(),
            i,
            e0,
            e1,
        )
    }

    open spec fn q_writes(&self, i: int, e0: Seq<int>, e1: Seq<int>) -> Seq<int> {
        zc_later_q_writes(
            *self.composition,
            self.evaluation_domain.points_view(),
            self.degree as nat,
            vals(self.denom_inv@),
            self.round_q_bar.values(),
            i,
            e0,
            e1,
        )
    }

    proof fn lemma_shapes(&self, i: int, e0: Seq<int>, e1: Seq<int>) {
        let c = self.vertex_contribution(i, e0, e1);
        let q = self.q_writes(i, e0, e1);
        assert forall|k: int| 0 <= k < c.len() implies crate::field::reduced(
            #[trigger] c[k]) by {
            if k == 0 {
                vstd::arithmetic::div_mod::lemma_mod_bound(
                    self.round_q_bar.values()[2 * i + 1] * self.eq_ind.values()[i],
                    crate::field::field_p(),
                );
            } else {
                vstd::arithmetic::div_mod::lemma_mod_bound(
                    self.composition.spec_evaluate(
                        extrap_vals(e0, e1, self.evaluation_domain.points_view()[k + 1]),
                    ) * self.eq_ind.values()[i],
                    crate::field::field_p(),
                );
            }
        }
        assert forall|k: int| 0 <= k < q.len() implies crate::field::reduced(
            #[trigger] q[k]) by {
            vstd::arithmetic::div_mod::lemma_mod_bound(
                fsub_int(
                    self.composition.spec_evaluate(
                        extrap_vals(e0, e1, self.evaluation_domain.points_view()[k + 2]),
                    ),
                    extrapolate_line_int(
                        self.round_q_bar.values()[2 * i],
                        self.round_q_bar.values()[2 * i + 1],
                        self.evaluation_domain.points_view()[k + 2],
                    ),
                ) * vals(self.denom_inv@)[k],
                crate::field::field_p(),
            );
        }
    }

    fn n_round_evals(&self) -> (r: usize) {
        // The identity relating r(0), r(1) and the claimed sum lets the
        // verifier recover the constant coefficient, so evaluations at
        // X = 1, ..., degree suffice.
        self.degree
    }

    fn process_vertex(
        &self,
        i: usize,
        evals_0: &Vec<Scalar>,
        evals_1: &Vec<Scalar>,
        round_evals: &mut Vec<Scalar>,
        round_q: &mut Vec<Scalar>,
    ) {
        let ghost pre = round_evals@;
        let ghost pre_q = round_q@;
        let ghost contribution = self.vertex_contribution(
            i as int,
            vals(evals_0@),
            vals(evals_1@),
        );
        let ghost writes = self.q_writes(i as int, vals(evals_0@), vals(evals_1@));
        let chunk = self.degree - 1;
        let eq_ind_factor = self.eq_ind.evals[i];
        let qb_len = self.round_q_bar.evals.len();
        proof {
            assert(2 * i + 1 < qb_len);
        }
        let q_bar_zero = self.round_q_bar.evals[2 * i];
        let q_bar_one = self.round_q_bar.evals[2 * i + 1];
        proof {
            assert(self.eq_ind.evals@[i as int].wf());
            assert(self.round_q_bar.evals@[2 * i as int].wf());
            assert(self.round_q_bar.evals@[2 * i as int + 1].wf());
            vstd::arithmetic::mul::lemma_mul_is_distributive_add_other_way(
                chunk as int,
                i as int,
                1,
            );
            vstd::arithmetic::mul::lemma_mul_inequality(i as int, i as int + 1, chunk as int);
        }
        let base = i * chunk;
        // r(1) is read off Q-bar instead of re-evaluating the composition.
        let cur0 = round_evals[0];
        round_evals.set(0, cur0.add(q_bar_one.mul(eq_ind_factor)));
        let n_points = self.evaluation_domain.points.len();
        let mut d: usize = 2;
        while d < n_points
            invariant
                self.wf(),
                evals_0@.len() == self.input_arity(),
                evals_1@.len() == self.input_arity(),
                wf_scalars(evals_0@),
                wf_scalars(evals_1@),
                eq_ind_factor.wf(),
                eq_ind_factor@ == self.eq_ind.values()[i as int],
                q_bar_zero.wf(),
                q_bar_one.wf(),
                q_bar_zero@ == self.round_q_bar.values()[2 * i as int],
                q_bar_one@ == self.round_q_bar.values()[2 * i as int + 1],
                n_points == self.degree + 1,
                chunk == self.degree - 1,
                base == i * chunk,
                base + chunk <= pre_q.len(),
                2 <= d <= n_points,
                round_evals@.len() == pre.len(),
                pre.len() == self.degree,
                wf_scalars(pre),
                wf_scalars(round_evals@),
                round_q@.len() == pre_q.len(),
                pre_q.len() <= usize::MAX,
                wf_scalars(pre_q),
                wf_scalars(round_q@),
                contribution == self.vertex_contribution(i as int, vals(evals_0@), vals(
                    evals_1@,
                )),
                writes == self.q_writes(i as int, vals(evals_0@), vals(evals_1@)),
                round_evals@[0]@ == fadd_int(pre[0]@, contribution[0]),
                forall|k: int|
                    1 <= k < d - 1 ==> (#[trigger] round_evals@[k])@ == fadd_int(
                        pre[k]@,
                        contribution[k],
                    ),
                forall|k: int| d - 1 <= k < pre.len() ==> round_evals@[k] == pre[k],
                forall|t: int|
                    base <= t < base + (d - 2) ==> (#[trigger] round_q@[t])@ == writes[t
                        - base],
                forall|t: int|
                    0 <= t < pre_q.len() && !(base <= t < base + (d - 2))
                        ==> #[trigger] round_q@[t] == pre_q[t],
            decreases n_points - d,
        {
            let x = self.evaluation_domain.points[d];
            proof {
                assert(self.evaluation_domain.points@[d as int].wf());
            }
            let mut evals_z: Vec<Scalar> = Vec::new();
            let mut j: usize = 0;
            while j < evals_0.len()
                invariant
                    wf_scalars(evals_0@),
                    wf_scalars(evals_1@),
                    evals_1@.len() == evals_0@.len(),
                    x.wf(),
                    j <= evals_0@.len(),
                    evals_z@.len() == j,
                    wf_scalars(evals_z@),
                    forall|t: int|
                        0 <= t < j ==> (#[trigger] evals_z@[t])@ == extrapolate_line_int(
                            evals_0@[t]@,
                            evals_1@[t]@,
                            x@,
                        ),
                decreases evals_0@.len() - j,
            {
                proof {
                    assert(evals_0@[j as int].wf());
                    assert(evals_1@[j as int].wf());
                }
                evals_z.push(extrapolate_line(evals_0[j], evals_1[j], x));
                j = j + 1;
            }
            proof {
                assert(vals(evals_z@) =~= extrap_vals(vals(evals_0@), vals(evals_1@), x@));
            }
            let composite_value = match self.composition.evaluate(&evals_z) {
                Ok(v) => v,
                Err(_) => {
                    proof {
                        assert(false);
                    }
                    return ;
                },
            };
            let cur = round_evals[d - 1];
            round_evals.set(d - 1, cur.add(composite_value.mul(eq_ind_factor)));
            // Cache Q values that update Q-bar for the next round.
            let specialized_qbar_eval = extrapolate_line(q_bar_zero, q_bar_one, x);
            proof {
                assert(self.denom_inv@[d - 2].wf());
            }
            round_q.set(
                base + (d - 2),
                composite_value.sub(specialized_qbar_eval).mul(self.denom_inv[d - 2]),
            );
            d = d + 1;
        }
    }

    open spec fn coeffs_ok(&self, current_round_sum: int, round_evals: Seq<int>) -> bool {
        interpolation_ok(self.evaluation_domain.points_view()) && has_inv(
            fsub_int(1, self.round_zerocheck_challenge@),
        )
    }

    open spec fn spec_coeffs(&self, current_round_sum: int, round_evals: Seq<int>) -> Seq<
        int,
    > {
        zc_later_coeffs_of(
            self.evaluation_domain.points_view(),
            self.round_zerocheck_challenge@,
            current_round_sum,
            round_evals,
        )
    }

    fn round_evals_to_coeffs(&self, current_round_sum: Scalar, round_evals: Vec<Scalar>) -> (r:
        Result<Vec<Scalar>, Error>) {
        // r(0) = (s - alpha * r(1)) / (1 - alpha): the weighted identity,
        // using the round's zerocheck challenge. A challenge equal to one
        // leaves the denominator without an inverse and is reported.
        let alpha = self.round_zerocheck_challenge;
        let alpha_bar = Scalar::one().sub(alpha);
        let zero_eval_denom_inv = match alpha_bar.inv() {
            Some(d) => d,
            None => {
                return Err(Error::NonInvertibleDivisor);
            },
        };
        let one_evaluation = round_evals[0];
        let zero_evaluation_numerator = current_round_sum.sub(alpha.mul(one_evaluation));
        let zero_evaluation = zero_evaluation_numerator.mul(zero_eval_denom_inv);
        let mut full_evals: Vec<Scalar> = Vec::new();
        full_evals.push(zero_evaluation);
        let mut t: usize = 0;
        while t < round_evals.len()
            invariant
                wf_scalars(round_evals@),
                zero_evaluation.wf(),
                t <= round_evals@.len(),
                full_evals@.len() == t + 1,
                wf_scalars(full_evals@),
                full_evals@[0] == zero_evaluation,
                forall|u: int| 1 <= u < t + 1 ==> full_evals@[u] == round_evals@[u - 1],
            decreases round_evals@.len() - t,
        {
            full_evals.push(round_evals[t]);
            t = t + 1;
        }
        proof {
            assert(vals(full_evals@) =~= seq![
                fmul_int(
                    fsub_int(current_round_sum@, fmul_int(alpha@, vals(round_evals@)[0])),
                    finv_int(fsub_int(1, alpha@)),
                ),
            ] + vals(round_evals@));
        }
        let coeffs = match self.evaluation_domain.interpolate(&full_evals) {
            Ok(c) => c,
            Err(e) => {
                proof {
                    assert(full_evals@.len() == self.evaluation_domain.points@.len());
                }
                return Err(Error::NonInvertibleDivisor);
            },
        };
        // The constant coefficient is recoverable by the verifier: trim it.
        let mut trimmed: Vec<Scalar> = Vec::new();
        let mut t: usize = 1;
        while t < coeffs.len()
            invariant
                wf_scalars(coeffs@),
                coeffs@.len() >= 1,
                1 <= t <= coeffs@.len(),
                trimmed@.len() == t - 1,
                wf_scalars(trimmed@),
                forall|u: int| 0 <= u < t - 1 ==> trimmed@[u] == coeffs@[u + 1],
            decreases coeffs@.len() - t,
        {
            trimmed.push(coeffs[t]);
            t = t + 1;
        }
        proof {
            assert(vals(trimmed@) =~= vals(coeffs@).drop_first());
            assert(vals(coeffs@).drop_first() =~= self.spec_coeffs(
                current_round_sum@,
                vals(round_evals@),
            ));
        }
        Ok(trimmed)
    }
}

/// The first-round evaluations accumulated over the first `upto` vertex
/// pairs.
pub open spec fn zc_first_accum<C: CompositionPoly>(
    comp: C,
    points: Seq<int>,
    degree: nat,
    eq_vals: Seq<int>,
    st: ProverState,
    upto: int,
) -> Seq<int>
    decreases upto,
{
    if upto <= 0 {
        Seq::new((degree - 1) as nat, |k: int| 0int)
    } else {
        crate::domain::poly_add(
            zc_first_accum(comp, points, degree, eq_vals, st, upto - 1),
            zc_first_contribution(
                comp,
                points,
                degree,
                eq_vals,
                upto - 1,
                st.vertex_evals(upto - 1, 0),
                st.vertex_evals(upto - 1, 1),
            ),
        )
    }
}

/// A later round's evaluations accumulated over the first `upto` vertex
/// pairs.
pub open spec fn zc_later_accum<C: CompositionPoly>(
    comp: C,
    points: Seq<int>,
    degree: nat,
    eq_vals: Seq<int>,
    q_bar_vals: Seq<int>,
    st: ProverState,
    upto: int,
) -> Seq<int>
    decreases upto,
{
    if upto <= 0 {
        Seq::new(degree, |k: int| 0int)
    } else {
        crate::domain::poly_add(
            zc_later_accum(comp, points, degree, eq_vals, q_bar_vals, st, upto - 1),
            zc_later_contribution(
                comp,
                points,
                degree,
                eq_vals,
                q_bar_vals,
                upto - 1,
                st.vertex_evals(upto - 1, 0),
                st.vertex_evals(upto - 1, 1),
            ),
        )
    }
}

proof fn lemma_zc_first_accum_eq<'a, C: CompositionPoly>(
    ev: ZerocheckFirstRoundEvaluator<'a, C>,
    st: ProverState,
    upto: int,
)
    ensures
        crate::prover_state::accum_round_evals(ev, st, upto) == zc_first_accum(
            *ev.composition,
            ev.evaluation_domain.points_view(),
            ev.degree as nat,
            ev.eq_ind.values(),
            st,
            upto,
        ),
    decreases upto,
{
    if upto <= 0 {
        assert(crate::prover_state::accum_round_evals(ev, st, upto) =~= zc_first_accum(
            *ev.composition,
            ev.evaluation_domain.points_view(),
            ev.degree as nat,
            ev.eq_ind.values(),
            st,
            upto,
        ));
    } else {
        lemma_zc_first_accum_eq(ev, st, upto - 1);
        assert(crate::prover_state::accum_round_evals(ev, st, upto) =~= zc_first_accum(
            *ev.composition,
            ev.evaluation_domain.points_view(),
            ev.degree as nat,
            ev.eq_ind.values(),
            st,
            upto,
        ));
    }
}

proof fn lemma_zc_later_accum_eq<'a, C: CompositionPoly>(
    ev: ZerocheckLaterRoundEvaluator<'a, C>,
    st: ProverState,
    upto: int,
)
    ensures
        crate::prover_state::accum_round_evals(ev, st, upto) == zc_later_accum(
            *ev.composition,
            ev.evaluation_domain.points_view(),
            ev.degree as nat,
            ev.eq_ind.values(),
            ev.round_q_bar.values(),
            st,
            upto,
        ),
    decreases upto,
{
    if upto <= 0 {
        assert(crate::prover_state::accum_round_evals(ev, st, upto) =~= zc_later_accum(
            *ev.composition,
            ev.evaluation_domain.points_view(),
            ev.degree as nat,
            ev.eq_ind.values(),
            ev.round_q_bar.values(),
            st,
            upto,
        ));
    } else {
        lemma_zc_later_accum_eq(ev, st, upto - 1);
        assert(crate::prover_state::accum_round_evals(ev, st, upto) =~= zc_later_accum(
            *ev.composition,
            ev.evaluation_domain.points_view(),
            ev.degree as nat,
            ev.eq_ind.values(),
            ev.round_q_bar.values(),
            st,
            upto,
        ));
    }
}

/// The structural half of what zerocheck construction needs: a positive
/// degree and arity, a fitting domain, a matching witness, enough
/// challenges, and state that fits the machine.
pub open spec fn zc_sizes_ok<C: CompositionPoly>(
    domain: EvaluationDomain,
    claim: ZerocheckClaim,
    witness: MultilinearComposite<C>,
    zerocheck_challenges: Seq<Scalar>,
) -> bool {
    let n = claim.poly.n_vars;
    let d = claim.poly.max_individual_degree;
    &&& d >= 1
    &&& n >= 1
    &&& domain.points@.len() == d + 1
    &&& witness.n_vars == n
    &&& zerocheck_challenges.len() >= n - 1
    &&& pow2(n as nat) <= usize::MAX
    &&& pow2((n - 1) as nat) * (d - 1) <= usize::MAX
}

/// When zerocheck construction succeeds: the structural conditions, and an
/// inverse for `x * (x - 1)` at every domain point past the first two.
pub open spec fn zc_new_ok<C: CompositionPoly>(
    domain: EvaluationDomain,
    claim: ZerocheckClaim,
    witness: MultilinearComposite<C>,
    zerocheck_challenges: Seq<Scalar>,
) -> bool {
    &&& zc_sizes_ok(domain, claim, witness, zerocheck_challenges)
    &&& (forall|k: int|
        0 <= k < claim.poly.max_individual_degree - 1 ==> #[trigger] has_inv(
            fmul_int(
                domain.points_view()[k + 2],
                fsub_int(domain.points_view()[k + 2], 1),
            ),
        ))
}

/// A zerocheck protocol prover.
///
/// Instantiated by `new`, followed by exactly `n_vars` `execute_round`
/// calls — the first with no challenge, each later one with the challenge
/// sampled after the previous round — and one `finalize` call.
pub struct ZerocheckProver<'a, C: CompositionPoly> {
    pub oracle: crate::oracle::CompositePolyOracle,
    pub composition: C,
    pub domain: &'a EvaluationDomain,
    pub round_claim: SumcheckRoundClaim,
    pub round: usize,
    pub last_round_proof: Option<SumcheckRound>,
    pub state: ProverState,
    pub zerocheck_challenges: Vec<Scalar>,
    pub round_eq_ind: MultilinearExtension,
    pub round_q: Vec<Scalar>,
    pub round_q_bar: Option<MultilinearExtension>,
    pub smaller_denom_inv: Vec<Scalar>,
    pub smaller_domain: EvaluationDomain,
}

impl<'a, C: CompositionPoly> ZerocheckProver<'a, C> {
    pub open spec fn wf(self) -> bool {
        let n = self.oracle.n_vars;
        let d = self.oracle.max_individual_degree;
        let r = self.state.round;
        &&& self.oracle.wf()
        &&& d >= 1
        &&& n >= 1
        &&& self.domain.wf()
        &&& self.domain.points@.len() == d + 1
        &&& self.composition.spec_n_vars() == self.state.multilinears@.len()
        &&& self.state.wf()
        &&& self.state.n_vars == n
        &&& self.round <= n
        &&& (if self.round == 0 {
            r == 0
        } else {
            r == self.round - 1
        })
        &&& self.round_claim.wf()
        &&& self.round_claim.partial_point@.len() == r
        &&& (self.round > 0 ==> self.last_round_proof is Some)
        &&& (self.last_round_proof is Some ==> self.last_round_proof->0.wf()
            && self.last_round_proof->0.coeffs@.len() == d)
        &&& wf_scalars(self.zerocheck_challenges@)
        &&& self.zerocheck_challenges@.len() == n - 1
        &&& self.round_eq_ind.wf()
        &&& self.round_eq_ind.n_vars as int == n - 1 - r
        &&& wf_scalars(self.round_q@)
        &&& self.round_q@.len() == pow2((n - 1 - r) as nat) * (d - 1)
        &&& (self.state.round == 0 <==> self.round_q_bar is None)
        &&& (self.round_q_bar is Some ==> self.round_q_bar->0.wf()
            && self.round_q_bar->0.n_vars as int == n - r)
        &&& self.smaller_domain.wf()
        &&& self.smaller_domain.points@.len() == d - 1
        &&& (forall|k: int|
            0 <= k < d - 1 ==> (#[trigger] self.smaller_domain.points@[k])
                == self.domain.points@[k + 2])
        &&& wf_scalars(self.smaller_denom_inv@)
        &&& self.smaller_denom_inv@.len() == d - 1
        &&& (forall|k: int|
            0 <= k < d - 1 ==> (#[trigger] self.smaller_denom_inv@[k])@ == finv_int(
                fmul_int(
                    self.domain.points_view()[k + 2],
                    fsub_int(self.domain.points_view()[k + 2], 1),
                ),
            ))
    }

    pub fn n_vars(&self) -> (r: usize)
        ensures
            r == self.oracle.n_vars,
    {
        self.oracle.n_vars
    }

    /// Start a new zerocheck instance for a claim and its witness. The
    /// zerocheck challenges must cover the claim's rounds; the last
    /// `n_vars - 1` of them are used, so batched instances share a
    /// challenge suffix.
    ///
    /// Construction succeeds exactly on the inputs `zc_new_ok` admits; the
    /// starting round claim is the empty point with a running sum of zero.
    pub fn new<S: SwitchoverPolicy>(
        domain: &'a EvaluationDomain,
        claim: &ZerocheckClaim,
        witness: MultilinearComposite<C>,
        zerocheck_challenges: &Vec<Scalar>,
        switchover_policy: &S,
    ) -> (r: Result<ZerocheckProver<'a, C>, Error>)
        requires
            domain.wf(),
            claim.wf(),
            witness.wf(),
            wf_scalars(zerocheck_challenges@),
        ensures
            r is Ok <==> zc_new_ok(*domain, *claim, witness, zerocheck_challenges@),
            r is Ok ==> {
                let pr = r->Ok_0;
                &&& pr.wf()
                &&& pr.round == 0
                &&& crate::oracle::same_oracle(pr.oracle, claim.poly)
                &&& pr.composition == witness.composition
                &&& pr.domain == domain
                &&& pr.round_claim.partial_point@.len() == 0
                &&& pr.round_claim.current_round_sum@ == 0
                &&& pr.last_round_proof is None
                &&& pr.state.round == 0
                &&& pr.zerocheck_challenges@ == zerocheck_challenges@.subrange(
                    zerocheck_challenges@.len() - (claim.poly.n_vars - 1),
                    zerocheck_challenges@.len() as int,
                )
                &&& pr.round_eq_ind.values() == crate::multilinear::tensor_expand(
                    vals(pr.zerocheck_challenges@),
                )
                &&& pr.round_q_bar is None
                &&& pr.round_q@.len() == pow2((claim.poly.n_vars - 1) as nat)
                    * (claim.poly.max_individual_degree - 1)
                &&& (forall|t: int|
                    0 <= t < pr.round_q@.len() ==> (#[trigger] pr.round_q@[t])@ == 0)
            },
            claim.poly.max_individual_degree == 0 ==> r is Err && r->Err_0
                == Error::PolynomialDegreeIsZero,
            claim.poly.max_individual_degree >= 1 && claim.poly.n_vars == 0 ==> r is Err
                && r->Err_0 == Error::IncorrectNumberOfVariables,
            claim.poly.max_individual_degree >= 1 && claim.poly.n_vars >= 1
                && domain.points@.len() != claim.poly.max_individual_degree + 1 ==> r is Err
                && r->Err_0 == Error::EvaluationDomainMismatch,
            claim.poly.max_individual_degree >= 1 && claim.poly.n_vars >= 1
                && domain.points@.len() == claim.poly.max_individual_degree + 1
                && witness.n_vars != claim.poly.n_vars ==> r is Err && r->Err_0
                == Error::ProverClaimWitnessMismatch,
            claim.poly.max_individual_degree >= 1 && claim.poly.n_vars >= 1
                && domain.points@.len() == claim.poly.max_individual_degree + 1
                && witness.n_vars == claim.poly.n_vars && zerocheck_challenges@.len()
                < claim.poly.n_vars - 1 ==> r is Err && r->Err_0
                == Error::NotEnoughZerocheckChallenges,
            claim.poly.max_individual_degree >= 1 && claim.poly.n_vars >= 1
                && domain.points@.len() == claim.poly.max_individual_degree + 1
                && witness.n_vars == claim.poly.n_vars && zerocheck_challenges@.len()
                >= claim.poly.n_vars - 1 && !(pow2(claim.poly.n_vars as nat) <= usize::MAX
                && pow2((claim.poly.n_vars - 1) as nat) * (
            claim.poly.max_individual_degree - 1) <= usize::MAX) ==> r is Err && r->Err_0
                == Error::IncorrectNumberOfVariables,
            r is Err && zc_sizes_ok(*domain, *claim, witness, zerocheck_challenges@)
                ==> r->Err_0 == Error::NonInvertibleDivisor,
    {
        let n_vars = claim.n_vars();
        let degree = claim.poly.max_individual_degree();
        if degree == 0 {
            return Err(Error::PolynomialDegreeIsZero);
        }
        if n_vars == 0 {
            return Err(Error::IncorrectNumberOfVariables);
        }
        if let Err(e) = crate::domain::check_evaluation_domain(degree, domain) {
            return Err(e);
        }
        if witness.n_vars() != n_vars {
            return Err(Error::ProverClaimWitnessMismatch);
        }
        let needed_challenges = n_vars - 1;
        if zerocheck_challenges.len() < needed_challenges {
            return Err(Error::NotEnoughZerocheckChallenges);
        }
        proof {
            assert forall|t: int|
                0 <= t < witness.multilinears@.len() implies (
            #[trigger] witness.multilinears@[t]).n_vars == n_vars by {
                assert(witness.multilinears@[t].wf());
            }
        }
        let state = match ProverState::new(
            n_vars,
            witness.multilinears,
            switchover_policy,
        ) {
            Ok(st) => st,
            Err(e) => {
                // Construction of the fold state fails only when the table
                // size exceeds the machine.
                proof {
                    assert(pow2(n_vars as nat) > usize::MAX);
                }
                return Err(e);
            },
        };
        // The last `n_vars - 1` challenges.
        let start = zerocheck_challenges.len() - needed_challenges;
        let mut used_challenges: Vec<Scalar> = Vec::new();
        let mut i: usize = start;
        while i < zerocheck_challenges.len()
            invariant
                wf_scalars(zerocheck_challenges@),
                start <= i <= zerocheck_challenges@.len(),
                start == zerocheck_challenges@.len() - needed_challenges,
                used_challenges@.len() == i - start,
                wf_scalars(used_challenges@),
                forall|j: int|
                    0 <= j < i - start ==> used_challenges@[j] == zerocheck_challenges@[start
                        + j],
            decreases zerocheck_challenges@.len() - i,
        {
            used_challenges.push(zerocheck_challenges[i]);
            i = i + 1;
        }
        proof {
            assert(used_challenges@ =~= zerocheck_challenges@.subrange(
                start as int,
                zerocheck_challenges@.len() as int,
            ));
        }
        let round_eq_ind = match crate::multilinear::eq_ind_partial_eval(&used_challenges) {
            Ok(e) => e,
            Err(e) => {
                // Unreachable: the indicator's table is half the witness's.
                proof {
                    vstd::arithmetic::power2::lemma_pow2_strictly_increases(
                        (n_vars - 1) as nat,
                        n_vars as nat,
                    );
                    assert(false);
                }
                return Err(e);
            },
        };
        proof {
            crate::multilinear::lemma_tensor_expand_len(vals(used_challenges@));
            assert(round_eq_ind.n_vars == needed_challenges);
        }
        // Scratch for the cached Q values: one chunk of `degree - 1`
        // entries per vertex pair.
        proof {
            vstd::arithmetic::power2::lemma_pow2_strictly_increases(
                (n_vars - 1) as nat,
                n_vars as nat,
            );
        }
        let half = crate::prover_state::pow2_exec(n_vars - 1);
        let chunk = degree - 1;
        if chunk > 0 && half > usize::MAX / chunk {
            proof {
                vstd::arithmetic::mul::lemma_mul_inequality(
                    (usize::MAX as int) / (chunk as int) + 1,
                    half as int,
                    chunk as int,
                );
                vstd::arithmetic::div_mod::lemma_fundamental_div_mod(
                    usize::MAX as int,
                    chunk as int,
                );
                vstd::arithmetic::div_mod::lemma_mod_bound(usize::MAX as int, chunk as int);
                vstd::arithmetic::mul::lemma_mul_is_distributive_add_other_way(
                    chunk as int,
                    (usize::MAX as int) / (chunk as int),
                    1,
                );
                vstd::arithmetic::mul::lemma_mul_is_commutative(
                    (usize::MAX as int) / (chunk as int),
                    chunk as int,
                );
                assert(pow2((n_vars - 1) as nat) * (degree - 1) > usize::MAX);
            }
            return Err(Error::IncorrectNumberOfVariables);
        }
        proof {
            if chunk > 0 {
                vstd::arithmetic::mul::lemma_mul_inequality(
                    half as int,
                    (usize::MAX as int) / (chunk as int),
                    chunk as int,
                );
                vstd::arithmetic::div_mod::lemma_fundamental_div_mod(
                    usize::MAX as int,
                    chunk as int,
                );
                vstd::arithmetic::div_mod::lemma_mod_bound(
                    usize::MAX as int,
                    chunk as int,
                );
                vstd::arithmetic::mul::lemma_mul_is_commutative(
                    (usize::MAX as int) / (chunk as int),
                    chunk as int,
                );
            }
        }
        let q_len = half * chunk;
        proof {
            assert(pow2((n_vars - 1) as nat) * (degree - 1) <= usize::MAX);
        }
        let mut round_q: Vec<Scalar> = Vec::new();
        let mut i: usize = 0;
        while i < q_len
            invariant
                i <= q_len,
                round_q@.len() == i,
                wf_scalars(round_q@),
                forall|t: int| 0 <= t < i ==> (#[trigger] round_q@[t])@ == 0,
            decreases q_len - i,
        {
            round_q.push(Scalar::zero());
            i = i + 1;
        }
        // Inverses of x * (x - 1) over the domain points past 0 and 1.
        let mut smaller_denom_inv: Vec<Scalar> = Vec::new();
        let mut smaller_points: Vec<Scalar> = Vec::new();
        let mut k: usize = 0;
        while k < chunk
            invariant
                domain.wf(),
                domain.points@.len() == degree + 1,
                degree >= 1,
                degree == claim.poly.max_individual_degree,
                n_vars >= 1,
                n_vars == claim.poly.n_vars,
                witness.n_vars == n_vars,
                zerocheck_challenges@.len() >= n_vars - 1,
                pow2(n_vars as nat) <= usize::MAX,
                pow2((n_vars - 1) as nat) * (degree - 1) <= usize::MAX,
                chunk == degree - 1,
                k <= chunk,
                forall|j: int|
                    0 <= j < k ==> #[trigger] has_inv(
                        fmul_int(
                            domain.points_view()[j + 2],
                            fsub_int(domain.points_view()[j + 2], 1),
                        ),
                    ),
                smaller_denom_inv@.len() == k,
                smaller_points@.len() == k,
                wf_scalars(smaller_denom_inv@),
                wf_scalars(smaller_points@),
                forall|j: int|
                    0 <= j < k ==> (#[trigger] smaller_denom_inv@[j])@ == finv_int(
                        fmul_int(
                            domain.points_view()[j + 2],
                            fsub_int(domain.points_view()[j + 2], 1),
                        ),
                    ),
                forall|j: int|
                    0 <= j < k ==> (#[trigger] smaller_points@[j]) == domain.points@[j + 2],
            decreases chunk - k,
        {
            let x = domain.points[k + 2];
            proof {
                assert(domain.points@[k + 2].wf());
            }
            let denom_value = x.mul(x.sub(Scalar::one()));
            let inv = match denom_value.inv() {
                Some(v) => v,
                None => {
                    proof {
                        assert(!has_inv(
                            fmul_int(
                                domain.points_view()[k + 2],
                                fsub_int(domain.points_view()[k + 2], 1),
                            ),
                        ));
                    }
                    return Err(Error::NonInvertibleDivisor);
                },
            };
            smaller_denom_inv.push(inv);
            smaller_points.push(x);
            k = k + 1;
        }
        let smaller_domain = EvaluationDomain { points: smaller_points };
        let round_claim = SumcheckRoundClaim {
            partial_point: Vec::new(),
            current_round_sum: Scalar::zero(),
        };
        Ok(ZerocheckProver {
            oracle: claim.poly.clone(),
            composition: witness.composition,
            domain,
            round_claim,
            round: 0,
            last_round_proof: None,
            state,
            zerocheck_challenges: used_challenges,
            round_eq_ind,
            round_q,
            round_q_bar: None,
            smaller_denom_inv,
            smaller_domain,
        })
    }
}

/// The value the cached Q chunk of vertex `i` extrapolates to at the
/// sampled challenge; the degree-one and degree-two claims shortcut the
/// interpolation.
pub open spec fn specialized_q_value(
    old_q: Seq<int>,
    smaller_points: Seq<int>,
    d: nat,
    ch: int,
    i: int,
) -> int {
    if d == 1 {
        0
    } else if d == 2 {
        old_q[i]
    } else {
        crate::univariate::eval_uni(
            lagrange_coeffs(smaller_points, old_q.subrange(i * (d - 1), (i + 1) * (d - 1))),
            ch,
        )
    }
}

impl<'a, C: CompositionPoly> ZerocheckProver<'a, C> {
    /// Halve the equality-indicator multilinear for the next round by
    /// summing hypercube-adjacent evaluations.
    fn update_round_eq_ind(&mut self) -> (r: Result<(), Error>)
        requires
            old(self).round_eq_ind.wf(),
            old(self).round_eq_ind.n_vars >= 1,
        ensures
            r is Ok,
            final(self).round_eq_ind.wf(),
            final(self).round_eq_ind.n_vars == old(self).round_eq_ind.n_vars - 1,
            final(self).round_eq_ind.evals@.len() * 2 == old(self).round_eq_ind.evals@.len(),
            forall|i: int|
                0 <= i < final(self).round_eq_ind.evals@.len()
                    ==> #[trigger] final(self).round_eq_ind.values()[i] == fadd_int(
                    old(self).round_eq_ind.values()[2 * i],
                    old(self).round_eq_ind.values()[2 * i + 1],
                ),
            final(self).oracle == old(self).oracle,
            final(self).composition == old(self).composition,
            final(self).domain == old(self).domain,
            final(self).round_claim == old(self).round_claim,
            final(self).round == old(self).round,
            final(self).last_round_proof == old(self).last_round_proof,
            final(self).state == old(self).state,
            final(self).zerocheck_challenges == old(self).zerocheck_challenges,
            final(self).round_q == old(self).round_q,
            final(self).round_q_bar == old(self).round_q_bar,
            final(self).smaller_denom_inv == old(self).smaller_denom_inv,
            final(self).smaller_domain == old(self).smaller_domain,
    {
        let old_len = self.round_eq_ind.evals.len();
        proof {
            lemma_pow2_unfold(self.round_eq_ind.n_vars as nat);
        }
        let half = old_len / 2;
        proof {
            assert(2 * half == old_len);
        }
        let mut new_evals: Vec<Scalar> = Vec::new();
        let mut i: usize = 0;
        while i < half
            invariant
                self.round_eq_ind.wf(),
                old_len == self.round_eq_ind.evals@.len(),
                2 * half == old_len,
                i <= half,
                new_evals@.len() == i,
                wf_scalars(new_evals@),
                forall|j: int|
                    0 <= j < i ==> (#[trigger] new_evals@[j])@ == fadd_int(
                        self.round_eq_ind.values()[2 * j],
                        self.round_eq_ind.values()[2 * j + 1],
                    ),
            decreases half - i,
        {
            proof {
                assert(self.round_eq_ind.evals@[2 * i as int].wf());
                assert(self.round_eq_ind.evals@[2 * i as int + 1].wf());
            }
            let e0 = self.round_eq_ind.evals[2 * i];
            let e1 = self.round_eq_ind.evals[2 * i + 1];
            new_evals.push(e0.add(e1));
            i = i + 1;
        }
        self.round_eq_ind = MultilinearExtension {
            n_vars: self.round_eq_ind.n_vars - 1,
            evals: new_evals,
        };
        proof {
            vstd::arithmetic::power2::lemma_pow2_unfold(
                old(self).round_eq_ind.n_vars as nat,
            );
        }
        Ok(())
    }

    /// Update the cached Q values and fold them into the running Q-bar
    /// polynomial for the next round.
    fn update_round_q(&mut self, prev_rd_challenge: Scalar) -> (r: Result<(), Error>)
        requires
            prev_rd_challenge.wf(),
            old(self).oracle.max_individual_degree >= 1,
            old(self).round >= 1,
            old(self).round < old(self).oracle.n_vars,
            pow2(old(self).oracle.n_vars as nat) <= usize::MAX,
            old(self).domain.wf(),
            old(self).smaller_domain.wf(),
            old(self).smaller_domain.points@.len() == old(self).oracle.max_individual_degree
                - 1,
            wf_scalars(old(self).round_q@),
            old(self).round_q@.len() == pow2(
                (old(self).oracle.n_vars - old(self).round) as nat,
            ) * (old(self).oracle.max_individual_degree - 1),
            old(self).round_q_bar is Some ==> old(self).round_q_bar->0.wf() && old(self).round_q_bar->0.n_vars as int == old(self).oracle.n_vars - old(self).round + 1,
        ensures
            r is Ok <==> (old(self).oracle.max_individual_degree <= 2 || interpolation_ok(
                old(self).smaller_domain.points_view(),
            )),
            r is Err ==> r->Err_0 == Error::NonInvertibleDivisor,
            r is Ok ==> ({
                let n = old(self).oracle.n_vars;
                let d = old(self).oracle.max_individual_degree;
                let rd = old(self).round;
                let ch = prev_rd_challenge@;
                let coeff = fmul_int(ch, fsub_int(ch, 1));
                &&& final(self).round_q@.len() * 2 == old(self).round_q@.len()
                &&& wf_scalars(final(self).round_q@)
                &&& final(self).round_q_bar is Some
                &&& final(self).round_q_bar->0.wf()
                &&& final(self).round_q_bar->0.n_vars as int == n - rd
                &&& final(self).round_q_bar->0.evals@.len() == pow2((n - rd) as nat)
                &&& forall|i: int|
                    0 <= i < pow2((n - rd) as nat) ==> final(self).round_q_bar->0.values()[i]
                        == fadd_int(
                        fmul_int(
                            coeff,
                            specialized_q_value(
                                vals(old(self).round_q@),
                                old(self).smaller_domain.points_view(),
                                d as nat,
                                ch,
                                i,
                            ),
                        ),
                        if old(self).round_q_bar is Some {
                            crate::multilinear::partial_eval_low(
                                old(self).round_q_bar->0.values(),
                                crate::multilinear::tensor_expand(seq![ch]),
                            )[i]
                        } else {
                            0
                        },
                    )
            }),
            final(self).oracle == old(self).oracle,
            final(self).composition == old(self).composition,
            final(self).domain == old(self).domain,
            final(self).round_claim == old(self).round_claim,
            final(self).round == old(self).round,
            final(self).last_round_proof == old(self).last_round_proof,
            final(self).state == old(self).state,
            final(self).zerocheck_challenges == old(self).zerocheck_challenges,
            final(self).round_eq_ind == old(self).round_eq_ind,
            final(self).smaller_denom_inv == old(self).smaller_denom_inv,
            final(self).smaller_domain == old(self).smaller_domain,
    {
        let ghost pre = *self;
        let rd_vars = self.oracle.n_vars - self.round;
        let degree = self.oracle.max_individual_degree;
        let chunk = degree - 1;
        proof {
            if ((rd_vars) as nat) < self.oracle.n_vars as nat {
                vstd::arithmetic::power2::lemma_pow2_strictly_increases(
                    rd_vars as nat,
                    self.oracle.n_vars as nat,
                );
            }
            vstd::arithmetic::power2::lemma_pow2_pos(rd_vars as nat);
        }
        let n_chunks = crate::prover_state::pow2_exec(rd_vars);
        let new_q_len = self.round_q.len() / 2;
        // Specialize the cached chunks to the sampled challenge.
        let mut specialized_q_values: Vec<Scalar> = Vec::new();
        if chunk == 0 {
            // A multilinear claim caches nothing.
            let mut i: usize = 0;
            while i < n_chunks
                invariant
                    i <= n_chunks,
                    specialized_q_values@.len() == i,
                    wf_scalars(specialized_q_values@),
                    forall|j: int|
                        0 <= j < i ==> (#[trigger] specialized_q_values@[j])@ == 0,
                decreases n_chunks - i,
            {
                specialized_q_values.push(Scalar::zero());
                i = i + 1;
            }
        } else if chunk == 1 {
            // A degree-two claim needs no interpolation.
            specialized_q_values = copy_scalars(&self.round_q);
        } else {
            let ghost sp = self.smaller_domain.points_view();
            let ghost qv = vals(self.round_q@);
            let mut i: usize = 0;
            while i < n_chunks
                invariant
                    *self == *old(self),
                    self.smaller_domain.wf(),
                    self.smaller_domain.points@.len() == chunk,
                    sp == self.smaller_domain.points_view(),
                    qv == vals(self.round_q@),
                    wf_scalars(self.round_q@),
                    self.round_q@.len() == n_chunks * chunk,
                    self.round_q@.len() <= usize::MAX,
                    chunk >= 2,
                    chunk + 1 == old(self).oracle.max_individual_degree,
                    prev_rd_challenge.wf(),
                    i <= n_chunks,
                    specialized_q_values@.len() == i,
                    wf_scalars(specialized_q_values@),
                    forall|j: int|
                        0 <= j < i ==> (#[trigger] specialized_q_values@[j])@
                            == specialized_q_value(qv, sp, (chunk + 1) as nat, prev_rd_challenge@, j),
                    i > 0 ==> interpolation_ok(sp),
                decreases n_chunks - i,
            {
                proof {
                    vstd::arithmetic::mul::lemma_mul_inequality(
                        i as int + 1,
                        n_chunks as int,
                        chunk as int,
                    );
                    vstd::arithmetic::mul::lemma_mul_is_distributive_add_other_way(
                        chunk as int,
                        i as int,
                        1,
                    );
                    vstd::arithmetic::mul::lemma_mul_inequality(
                        i as int,
                        i as int + 1,
                        chunk as int,
                    );
                }
                let base = i * chunk;
                let mut chunk_vals: Vec<Scalar> = Vec::new();
                let mut t: usize = 0;
                while t < chunk
                    invariant
                        wf_scalars(self.round_q@),
                        qv == vals(self.round_q@),
                        base + chunk <= self.round_q@.len(),
                        self.round_q@.len() <= usize::MAX,
                        t <= chunk,
                        chunk_vals@.len() == t,
                        wf_scalars(chunk_vals@),
                        forall|u: int|
                            0 <= u < t ==> (#[trigger] chunk_vals@[u]) == self.round_q@[base
                                + u],
                    decreases chunk - t,
                {
                    proof {
                        assert(self.round_q@[base + t].wf());
                    }
                    chunk_vals.push(self.round_q[base + t]);
                    t = t + 1;
                }
                proof {
                    assert(vals(chunk_vals@) =~= qv.subrange(
                        i as int * chunk as int,
                        (i as int + 1) * chunk as int,
                    ));
                }
                let value = match self.smaller_domain.extrapolate(
                    &chunk_vals,
                    prev_rd_challenge,
                ) {
                    Ok(v) => v,
                    Err(e) => {
                        proof {
                            assert(chunk_vals@.len() == self.smaller_domain.points@.len());
                        }
                        return Err(Error::NonInvertibleDivisor);
                    },
                };
                specialized_q_values.push(value);
                i = i + 1;
            }
            proof {
                // A completed pass means every denominator was invertible.
                if n_chunks > 0 {
                } else {
                    vstd::arithmetic::power2::lemma_pow2_pos(rd_vars as nat);
                }
            }
        }
        proof {
            if chunk >= 2 {
                vstd::arithmetic::power2::lemma_pow2_pos(rd_vars as nat);
            }
        }
        // Scale by challenge * (challenge - 1) and add the specialized
        // previous Q-bar.
        let coeff = prev_rd_challenge.mul(prev_rd_challenge.sub(Scalar::one()));
        let folded_prev: Option<MultilinearExtension> = match &self.round_q_bar {
            Some(prev_q_bar) => {
                let single = crate::multilinear::MultilinearQuery::new();
                proof {
                    vstd::arithmetic::power2::lemma2_to64();
                }
                let query = match single.update_one(prev_rd_challenge) {
                    Ok(q) => q,
                    Err(_) => {
                        proof {
                            assert(false);
                        }
                        return Err(Error::IncorrectNumberOfVariables);
                    },
                };
                proof {
                    assert(query.challenges@ =~= seq![prev_rd_challenge@]);
                }
                let folded = match prev_q_bar.evaluate_partial_low(&query) {
                    Ok(f) => f,
                    Err(_) => {
                        proof {
                            assert(false);
                        }
                        return Err(Error::IncorrectNumberOfVariables);
                    },
                };
                Some(folded)
            },
            None => None,
        };
        let ghost prev_q_bar_was_some = self.round_q_bar is Some;
        proof {
            lemma_pow2_unfold((pre.oracle.n_vars - pre.round + 1) as nat);
            if prev_q_bar_was_some {
                assert(folded_prev is Some);
                assert(folded_prev->0.evals@.len() == pow2(
                    (pre.oracle.n_vars - pre.round) as nat,
                ));
            }
            vstd::arithmetic::mul::lemma_mul_basics(
                pow2((pre.oracle.n_vars - pre.round) as nat) as int,
            );
            assert(specialized_q_values@.len() == n_chunks);
        }
        let mut new_q_bar_values: Vec<Scalar> = Vec::new();
        let mut i: usize = 0;
        while i < n_chunks
            invariant
                i <= n_chunks,
                coeff.wf(),
                coeff@ == fmul_int(prev_rd_challenge@, fsub_int(prev_rd_challenge@, 1)),
                specialized_q_values@.len() == n_chunks,
                wf_scalars(specialized_q_values@),
                prev_q_bar_was_some ==> folded_prev is Some && folded_prev->0.wf()
                    && folded_prev->0.evals@.len() == n_chunks,
                !prev_q_bar_was_some ==> folded_prev is None,
                new_q_bar_values@.len() == i,
                wf_scalars(new_q_bar_values@),
                forall|j: int|
                    0 <= j < i ==> (#[trigger] new_q_bar_values@[j])@ == fadd_int(
                        fmul_int(coeff@, specialized_q_values@[j]@),
                        if prev_q_bar_was_some {
                            folded_prev->0.values()[j]
                        } else {
                            0
                        },
                    ),
            decreases n_chunks - i,
        {
            proof {
                assert(specialized_q_values@[i as int].wf());
            }
            let scaled = coeff.mul(specialized_q_values[i]);
            let combined = match &folded_prev {
                Some(f) => {
                    proof {
                        assert(f.evals@[i as int].wf());
                    }
                    scaled.add(f.evals[i])
                },
                None => {
                    proof {
                        crate::field::lemma_small_mod_identity(scaled@);
                    }
                    scaled
                },
            };
            new_q_bar_values.push(combined);
            i = i + 1;
        }
        self.round_q_bar = Some(MultilinearExtension { n_vars: rd_vars, evals: new_q_bar_values });
        proof {
            lemma_pow2_unfold(rd_vars as nat);
            vstd::arithmetic::mul::lemma_mul_is_associative(
                2,
                pow2((rd_vars - 1) as nat) as int,
                (degree - 1) as int,
            );
            assert(self.round_q@.len() == 2 * (pow2((rd_vars - 1) as nat) * (degree - 1)));
            vstd::arithmetic::div_mod::lemma_div_multiples_vanish(
                (pow2((rd_vars - 1) as nat) * (degree - 1)) as int,
                2,
            );
        }
        self.round_q.truncate(new_q_len);
        Ok(())
    }
}

impl<'a, C: CompositionPoly> ZerocheckProver<'a, C> {
    /// Compute the current round's truncated coefficient message with the
    /// round family's evaluator; degree-one claims shortcut to the zero
    /// polynomial.
    fn compute_round_coeffs(&mut self) -> (r: Result<Vec<Scalar>, Error>)
        requires
            old(self).wf_mid(),
        ensures
            final(self).wf_mid(),
            r is Ok <==> (old(self).oracle.max_individual_degree == 1 || (interpolation_ok(
                old(self).domain.points_view(),
            ) && (old(self).round >= 1 ==> has_inv(
                fsub_int(1, old(self).zerocheck_challenges@[old(self).round - 1]@),
            )))),
            r is Err ==> r->Err_0 == Error::NonInvertibleDivisor,
            r is Ok ==> {
                let c = r->Ok_0;
                let n = old(self).oracle.n_vars;
                let d = old(self).oracle.max_individual_degree;
                let rd = old(self).round;
                &&& wf_scalars(c@)
                &&& c@.len() == d
                &&& (d == 1 ==> vals(c@) == seq![0int])
                &&& (d >= 2 && rd == 0 ==> vals(c@) == zc_first_coeffs_of(
                    old(self).domain.points_view(),
                    zc_first_accum(
                        old(self).composition,
                        old(self).domain.points_view(),
                        d as nat,
                        old(self).round_eq_ind.values(),
                        old(self).state,
                        pow2((n - rd - 1) as nat) as int,
                    ),
                ))
                &&& (d >= 2 && rd >= 1 ==> vals(c@) == zc_later_coeffs_of(
                    old(self).domain.points_view(),
                    old(self).zerocheck_challenges@[rd - 1]@,
                    old(self).round_claim.current_round_sum@,
                    zc_later_accum(
                        old(self).composition,
                        old(self).domain.points_view(),
                        d as nat,
                        old(self).round_eq_ind.values(),
                        old(self).round_q_bar->0.values(),
                        old(self).state,
                        pow2((n - rd - 1) as nat) as int,
                    ),
                ))
            },
            final(self).oracle == old(self).oracle,
            final(self).composition == old(self).composition,
            final(self).domain == old(self).domain,
            final(self).round_claim == old(self).round_claim,
            final(self).round == old(self).round,
            final(self).last_round_proof == old(self).last_round_proof,
            final(self).state == old(self).state,
            final(self).zerocheck_challenges == old(self).zerocheck_challenges,
            final(self).round_eq_ind == old(self).round_eq_ind,
            final(self).round_q_bar == old(self).round_q_bar,
            final(self).smaller_denom_inv == old(self).smaller_denom_inv,
            final(self).smaller_domain == old(self).smaller_domain,
            final(self).round_q@.len() == old(self).round_q@.len(),
            wf_scalars(final(self).round_q@),
    {
        let degree = self.oracle.max_individual_degree;
        if degree == 1 {
            let mut c: Vec<Scalar> = Vec::new();
            c.push(Scalar::zero());
            proof {
                assert(vals(c@) =~= seq![0int]);
            }
            return Ok(c);
        }
        let n = self.oracle.n_vars;
        let rd = self.round;
        let ghost n_vertices = pow2((n - rd - 1) as nat) as int;
        proof {
            lemma_pow2_pos((n - rd - 1) as nat);
        }
        if rd == 0 {
            let evaluator = ZerocheckFirstRoundEvaluator {
                composition: &self.composition,
                evaluation_domain: self.domain,
                degree,
                eq_ind: &self.round_eq_ind,
                denom_inv: &self.smaller_denom_inv,
            };
            let result = self.state.calculate_round_coeffs(
                &evaluator,
                self.round_claim.current_round_sum,
                &mut self.round_q,
            );
            proof {
                lemma_zc_first_accum_eq(evaluator, self.state, n_vertices);
                if result is Ok {
                    let total = crate::prover_state::accum_round_evals(
                        evaluator,
                        self.state,
                        n_vertices,
                    );
                    crate::prover_state::lemma_accum_shape(evaluator, self.state, n_vertices);
                    crate::domain::lemma_lagrange_len(
                        self.domain.points_view(),
                        seq![0int, 0int] + total,
                    );
                    assert(vals(result->Ok_0@) == zc_first_coeffs_of(
                        self.domain.points_view(),
                        total,
                    ));
                    assert(result->Ok_0@.len() == degree as int);
                }
            }
            result
        } else {
            let alpha = self.zerocheck_challenges[rd - 1];
            proof {
                assert(self.zerocheck_challenges@[rd - 1].wf());
            }
            let q_bar_ref = match &self.round_q_bar {
                Some(q) => q,
                None => {
                    proof {
                        assert(false);
                    }
                    return Err(Error::NonInvertibleDivisor);
                },
            };
            let evaluator = ZerocheckLaterRoundEvaluator {
                composition: &self.composition,
                evaluation_domain: self.domain,
                degree,
                eq_ind: &self.round_eq_ind,
                round_zerocheck_challenge: alpha,
                denom_inv: &self.smaller_denom_inv,
                round_q_bar: q_bar_ref,
            };
            proof {
                lemma_pow2_unfold((n - rd) as nat);
            }
            let result = self.state.calculate_round_coeffs(
                &evaluator,
                self.round_claim.current_round_sum,
                &mut self.round_q,
            );
            proof {
                lemma_zc_later_accum_eq(evaluator, self.state, n_vertices);
                if result is Ok {
                    let total = crate::prover_state::accum_round_evals(
                        evaluator,
                        self.state,
                        n_vertices,
                    );
                    crate::prover_state::lemma_accum_shape(evaluator, self.state, n_vertices);
                    crate::domain::lemma_lagrange_len(
                        self.domain.points_view(),
                        seq![
                            fmul_int(
                                fsub_int(
                                    self.round_claim.current_round_sum@,
                                    fmul_int(alpha@, total[0]),
                                ),
                                finv_int(fsub_int(1, alpha@)),
                            ),
                        ] + total,
                    );
                    assert(vals(result->Ok_0@) == zc_later_coeffs_of(
                        self.domain.points_view(),
                        alpha@,
                        self.round_claim.current_round_sum@,
                        total,
                    ));
                    assert(result->Ok_0@.len() == degree as int);
                }
            }
            result
        }
    }

    /// The invariant that holds between the fold/update phase and the
    /// message computation of one round: the auxiliary state has already
    /// advanced to the round about to be computed.
    pub open spec fn wf_mid(self) -> bool {
        let n = self.oracle.n_vars;
        let d = self.oracle.max_individual_degree;
        let rd = self.round;
        &&& self.oracle.wf()
        &&& d >= 1
        &&& n >= 1
        &&& rd < n
        &&& self.domain.wf()
        &&& self.domain.points@.len() == d + 1
        &&& self.composition.spec_n_vars() == self.state.multilinears@.len()
        &&& self.state.wf()
        &&& self.state.n_vars == n
        &&& self.state.round == rd
        &&& self.round_claim.wf()
        &&& wf_scalars(self.zerocheck_challenges@)
        &&& self.zerocheck_challenges@.len() == n - 1
        &&& self.round_eq_ind.wf()
        &&& self.round_eq_ind.n_vars as int == n - 1 - rd
        &&& wf_scalars(self.round_q@)
        &&& self.round_q@.len() == pow2((n - 1 - rd) as nat) * (d - 1)
        &&& (rd >= 1 ==> self.round_q_bar is Some)
        &&& (self.round_q_bar is Some ==> self.round_q_bar->0.wf()
            && self.round_q_bar->0.n_vars as int == n - rd)
        &&& self.smaller_domain.wf()
        &&& self.smaller_domain.points@.len() == d - 1
        &&& wf_scalars(self.smaller_denom_inv@)
        &&& self.smaller_denom_inv@.len() == d - 1
    }
}

/// When one zerocheck round can run: the challenge is present exactly when
/// the round is not the first, rounds remain, and every divisor the round
/// needs has an inverse.
pub open spec fn zc_execute_ok<'a, C: CompositionPoly>(
    pr: ZerocheckProver<'a, C>,
    prev_rd_challenge: Option<Scalar>,
) -> bool {
    let d = pr.oracle.max_individual_degree;
    &&& (prev_rd_challenge is Some <==> pr.round > 0)
    &&& pr.round < pr.oracle.n_vars
    &&& (d >= 2 ==> interpolation_ok(pr.domain.points_view()))
    &&& (prev_rd_challenge is Some ==> (d <= 2 || interpolation_ok(
        pr.smaller_domain.points_view(),
    )))
    &&& (prev_rd_challenge is Some && d >= 2 ==> has_inv(
        fsub_int(1, pr.zerocheck_challenges@[pr.round - 1]@),
    ))
}

impl<'a, C: CompositionPoly> ZerocheckProver<'a, C> {
    /// Reduce the running round claim through the sampled challenge, using
    /// the round message sent last and the zerocheck-challenge-weighted
    /// identity.
    fn reduce_claim(&mut self, prev_rd_challenge: Scalar) -> (r: Result<(), Error>)
        requires
            old(self).round >= 1,
            old(self).round_claim.wf(),
            old(self).last_round_proof is Some,
            old(self).last_round_proof->0.wf(),
            old(self).last_round_proof->0.coeffs@.len() >= 1,
            wf_scalars(old(self).zerocheck_challenges@),
            old(self).round >= 2 ==> old(self).round - 2 < old(self).zerocheck_challenges@.len(),
            prev_rd_challenge.wf(),
        ensures
            r is Ok,
            final(self).oracle == old(self).oracle,
            final(self).composition == old(self).composition,
            final(self).domain == old(self).domain,
            final(self).round == old(self).round,
            final(self).last_round_proof == old(self).last_round_proof,
            final(self).state == old(self).state,
            final(self).zerocheck_challenges == old(self).zerocheck_challenges,
            final(self).round_eq_ind == old(self).round_eq_ind,
            final(self).round_q == old(self).round_q,
            final(self).round_q_bar == old(self).round_q_bar,
            final(self).smaller_denom_inv == old(self).smaller_denom_inv,
            final(self).smaller_domain == old(self).smaller_domain,
            final(self).round_claim.wf(),
            final(self).round_claim.partial_point@ == old(self).round_claim.partial_point@.push(prev_rd_challenge),
            old(self).round == 1 ==> final(self).round_claim.current_round_sum@
                == crate::univariate::eval_uni(
                crate::reduce::zc_round0_full(vals(old(self).last_round_proof->0.coeffs@)),
                prev_rd_challenge@,
            ),
            old(self).round >= 2 ==> final(self).round_claim.current_round_sum@
                == crate::univariate::eval_uni(
                crate::univariate::with_recovered_zc_const(
                    old(self).round_claim.current_round_sum@,
                    old(self).zerocheck_challenges@[old(self).round - 2]@,
                    vals(old(self).last_round_proof->0.coeffs@),
                ),
                prev_rd_challenge@,
            ),
    {
        let reductor = crate::reduce::ZerocheckReductor { alphas: &self.zerocheck_challenges };
        let round_claim = SumcheckRoundClaim {
            partial_point: copy_scalars(&self.round_claim.partial_point),
            current_round_sum: self.round_claim.current_round_sum,
        };
        let round_proof = match &self.last_round_proof {
            Some(rp) => SumcheckRound { coeffs: copy_scalars(&rp.coeffs) },
            None => {
                proof {
                    assert(false);
                }
                return Err(Error::NumberOfCoefficients);
            },
        };
        let new_round_claim = match reductor.reduce_round_claim(
            self.round - 1,
            round_claim,
            prev_rd_challenge,
            round_proof,
        ) {
            Ok(c) => c,
            Err(_) => {
                proof {
                    assert(false);
                }
                return Err(Error::NumberOfCoefficients);
            },
        };
        self.round_claim = new_round_claim;
        Ok(())
    }

    /// Execute one round: fold in the previous challenge, advance the
    /// equality indicator and the cached Q state, reduce the running claim,
    /// and compute this round's truncated coefficient message.
    pub fn execute_round(&mut self, prev_rd_challenge: Option<Scalar>) -> (r: Result<
        SumcheckRound,
        Error,
    >)
        requires
            old(self).wf(),
            prev_rd_challenge is Some ==> prev_rd_challenge->0.wf(),
        ensures
            !(prev_rd_challenge is Some <==> old(self).round > 0) ==> r is Err && r->Err_0
                == (if old(self).round == 0 {
                Error::PreviousRoundChallengePresent
            } else {
                Error::PreviousRoundChallengeAbsent
            }) && *final(self) == *old(self),
            (prev_rd_challenge is Some <==> old(self).round > 0) && old(self).round >= old(self).oracle.n_vars ==> r is Err && r->Err_0 == Error::TooManyExecuteRoundCalls
                && *final(self) == *old(self),
            r is Ok <==> zc_execute_ok(*old(self), prev_rd_challenge),
            (prev_rd_challenge is Some <==> old(self).round > 0) && old(self).round < old(self).oracle.n_vars && r is Err ==> r->Err_0 == Error::NonInvertibleDivisor,
            r is Ok ==> {
                let rp = r->Ok_0;
                let st = final(self).state;
                let n = old(self).oracle.n_vars;
                let d = old(self).oracle.max_individual_degree;
                let rd = old(self).round;
                &&& final(self).wf()
                &&& final(self).round == rd + 1
                &&& final(self).oracle == old(self).oracle
                &&& final(self).composition == old(self).composition
                &&& final(self).domain == old(self).domain
                &&& final(self).zerocheck_challenges == old(self).zerocheck_challenges
                &&& st.round == rd
                &&& (prev_rd_challenge is None ==> st == old(self).state && final(self).round_claim == old(self).round_claim && final(self).round_eq_ind == old(self).round_eq_ind)
                &&& (prev_rd_challenge is Some ==> (forall|i: int|
                    0 <= i < old(self).state.multilinears@.len()
                        ==> crate::prover_state::folds_to(
                        old(self).state,
                        st,
                        prev_rd_challenge->0@,
                        i,
                    )) && final(self).round_claim.partial_point@ == old(self).round_claim.partial_point@.push(prev_rd_challenge->0) && (forall|i: int|
                    0 <= i < final(self).round_eq_ind.evals@.len()
                        ==> #[trigger] final(self).round_eq_ind.values()[i] == fadd_int(
                        old(self).round_eq_ind.values()[2 * i],
                        old(self).round_eq_ind.values()[2 * i + 1],
                    )))
                &&& (prev_rd_challenge is Some && rd == 1
                    ==> final(self).round_claim.current_round_sum@
                    == crate::univariate::eval_uni(
                    crate::reduce::zc_round0_full(
                        vals(old(self).last_round_proof->0.coeffs@),
                    ),
                    prev_rd_challenge->0@,
                ))
                &&& (prev_rd_challenge is Some && rd >= 2
                    ==> final(self).round_claim.current_round_sum@
                    == crate::univariate::eval_uni(
                    crate::univariate::with_recovered_zc_const(
                        old(self).round_claim.current_round_sum@,
                        old(self).zerocheck_challenges@[rd - 2]@,
                        vals(old(self).last_round_proof->0.coeffs@),
                    ),
                    prev_rd_challenge->0@,
                ))
                &&& rp.wf()
                &&& rp.coeffs@.len() == d
                &&& (d == 1 ==> vals(rp.coeffs@) == seq![0int])
                &&& (d >= 2 && rd == 0 ==> vals(rp.coeffs@) == zc_first_coeffs_of(
                    old(self).domain.points_view(),
                    zc_first_accum(
                        old(self).composition,
                        old(self).domain.points_view(),
                        d as nat,
                        final(self).round_eq_ind.values(),
                        st,
                        pow2((n - 1) as nat) as int,
                    ),
                ))
                &&& (d >= 2 && rd >= 1 ==> final(self).round_q_bar is Some && vals(
                    rp.coeffs@,
                ) == zc_later_coeffs_of(
                    old(self).domain.points_view(),
                    old(self).zerocheck_challenges@[rd - 1]@,
                    final(self).round_claim.current_round_sum@,
                    zc_later_accum(
                        old(self).composition,
                        old(self).domain.points_view(),
                        d as nat,
                        final(self).round_eq_ind.values(),
                        final(self).round_q_bar->0.values(),
                        st,
                        pow2((n - rd - 1) as nat) as int,
                    ),
                ))
                &&& final(self).last_round_proof is Some
                &&& final(self).last_round_proof->0.coeffs@ == rp.coeffs@
            },
    {
        if let Err(e) = validate_rd_challenge(&prev_rd_challenge, self.round) {
            return Err(e);
        }
        if self.round >= self.oracle.n_vars {
            return Err(Error::TooManyExecuteRoundCalls);
        }
        if let Some(challenge) = prev_rd_challenge {
            if let Err(e) = self.state.fold(challenge) {
                proof {
                    assert(false);
                }
                return Err(e);
            }
            if let Err(e) = self.update_round_eq_ind() {
                proof {
                    assert(false);
                }
                return Err(e);
            }
            proof {
                lemma_pow2_unfold((old(self).oracle.n_vars - old(self).round) as nat);
                vstd::arithmetic::mul::lemma_mul_is_associative(
                    2,
                    pow2((old(self).oracle.n_vars - old(self).round - 1) as nat) as int,
                    (old(self).oracle.max_individual_degree - 1) as int,
                );
            }
            if let Err(e) = self.update_round_q(challenge) {
                return Err(e);
            }
            if let Err(e) = self.reduce_claim(challenge) {
                proof {
                    assert(false);
                }
                return Err(e);
            }
        }
        proof {
            if prev_rd_challenge is Some {
                lemma_pow2_unfold((old(self).oracle.n_vars - old(self).round) as nat);
                vstd::arithmetic::mul::lemma_mul_is_associative(
                    2,
                    pow2((old(self).oracle.n_vars - old(self).round - 1) as nat) as int,
                    (old(self).oracle.max_individual_degree - 1) as int,
                );
            }
            assert(self.wf_mid());
        }
        let round_coeffs = match self.compute_round_coeffs() {
            Ok(c) => c,
            Err(e) => {
                return Err(e);
            },
        };
        let stored = SumcheckRound { coeffs: copy_scalars(&round_coeffs) };
        let proof_round = SumcheckRound { coeffs: round_coeffs };
        self.last_round_proof = Some(stored);
        self.round = self.round + 1;
        Ok(proof_round)
    }

    /// Finish the instance after all rounds, reducing through the final
    /// challenge, and hand back the reduced claim.
    pub fn finalize(self, prev_rd_challenge: Option<Scalar>) -> (r: Result<
        crate::common::ReducedClaim,
        Error,
    >)
        requires
            self.wf(),
            prev_rd_challenge is Some ==> prev_rd_challenge->0.wf(),
        ensures
            !(prev_rd_challenge is Some <==> self.round > 0) ==> r is Err && r->Err_0 == (
            if self.round == 0 {
                Error::PreviousRoundChallengePresent
            } else {
                Error::PreviousRoundChallengeAbsent
            }),
            (prev_rd_challenge is Some <==> self.round > 0) && self.round
                != self.oracle.n_vars ==> r is Err && r->Err_0
                == Error::PrematureFinalizeCall,
            r is Ok <==> ((prev_rd_challenge is Some <==> self.round > 0) && self.round
                == self.oracle.n_vars),
            r is Ok ==> {
                let rc = r->Ok_0;
                &&& rc.wf()
                &&& rc.eval_point@.len() == self.oracle.n_vars
                &&& (prev_rd_challenge is Some ==> rc.eval_point@
                    == self.round_claim.partial_point@.push(prev_rd_challenge->0))
                &&& (prev_rd_challenge is Some && self.round == 1 ==> rc.eval@
                    == crate::univariate::eval_uni(
                    crate::reduce::zc_round0_full(vals(self.last_round_proof->0.coeffs@)),
                    prev_rd_challenge->0@,
                ))
                &&& (prev_rd_challenge is Some && self.round >= 2 ==> rc.eval@
                    == crate::univariate::eval_uni(
                    crate::univariate::with_recovered_zc_const(
                        self.round_claim.current_round_sum@,
                        self.zerocheck_challenges@[self.round - 2]@,
                        vals(self.last_round_proof->0.coeffs@),
                    ),
                    prev_rd_challenge->0@,
                ))
            },
    {
        let mut this = self;
        if let Err(e) = validate_rd_challenge(&prev_rd_challenge, this.round) {
            return Err(e);
        }
        if this.round != this.oracle.n_vars {
            return Err(Error::PrematureFinalizeCall);
        }
        if let Some(challenge) = prev_rd_challenge {
            if let Err(e) = this.reduce_claim(challenge) {
                proof {
                    assert(false);
                }
                return Err(e);
            }
        }
        Ok(crate::common::ReducedClaim::from_round_claim(this.round_claim))
    }

    /// Two zerocheck provers may share one batch when the shorter one's
    /// zerocheck challenges are a suffix of the longer one's.
    pub fn batch_proving_consistent(&self, other: &ZerocheckProver<'a, C>) -> (r: bool)
        ensures
            r <==> (other.zerocheck_challenges@.len() <= self.zerocheck_challenges@.len()
                && forall|j: int|
                0 <= j < other.zerocheck_challenges@.len()
                    ==> #[trigger] other.zerocheck_challenges@[j]
                    == self.zerocheck_challenges@[self.zerocheck_challenges@.len()
                    - other.zerocheck_challenges@.len() + j]),
    {
        let common = other.zerocheck_challenges.len();
        if common > self.zerocheck_challenges.len() {
            return false;
        }
        let self_len = self.zerocheck_challenges.len();
        let offset = self_len - common;
        let mut j: usize = 0;
        while j < common
            invariant
                common == other.zerocheck_challenges@.len(),
                common <= self.zerocheck_challenges@.len(),
                self_len == self.zerocheck_challenges@.len(),
                offset == self.zerocheck_challenges@.len() - common,
                j <= common,
                forall|t: int|
                    0 <= t < j ==> #[trigger] other.zerocheck_challenges@[t]
                        == self.zerocheck_challenges@[offset + t],
            decreases common - j,
        {
            if self.zerocheck_challenges[offset + j].v != other.zerocheck_challenges[j].v {
                proof {
                    assert(other.zerocheck_challenges@[j as int]
                        != self.zerocheck_challenges@[offset + j]);
                }
                return false;
            }
            j = j + 1;
        }
        true
    }
}

/// Prove a zerocheck-to-evalcheck reduction: the zerocheck challenges are
/// sampled up front, then one round message per variable is exchanged.
pub fn prove<'a, C: CompositionPoly, S: SwitchoverPolicy, CH: Challenger>(
    claim: &ZerocheckClaim,
    witness: MultilinearComposite<C>,
    domain: &'a EvaluationDomain,
    challenger: &mut CH,
    switchover_policy: &S,
) -> (r: Result<ZerocheckProveOutput, Error>)
    requires
        claim.wf(),
        witness.wf(),
        domain.wf(),
        old(challenger).wf(),
    ensures
        final(challenger).wf(),
        witness.n_vars == 0 ==> r is Err && r->Err_0 == Error::IncorrectNumberOfVariables,
        witness.n_vars >= 1 && claim.poly.max_individual_degree == 0 ==> r is Err
            && r->Err_0 == Error::PolynomialDegreeIsZero,
        witness.n_vars >= 1 && claim.poly.max_individual_degree >= 1 && claim.poly.n_vars
            == 0 ==> r is Err && r->Err_0 == Error::IncorrectNumberOfVariables,
        witness.n_vars >= 1 && claim.poly.max_individual_degree >= 1 && claim.poly.n_vars
            >= 1 && domain.points@.len() != claim.poly.max_individual_degree + 1
            ==> r is Err && r->Err_0 == Error::EvaluationDomainMismatch,
        witness.n_vars >= 1 && claim.poly.max_individual_degree >= 1 && claim.poly.n_vars
            >= 1 && domain.points@.len() == claim.poly.max_individual_degree + 1
            && witness.n_vars != claim.poly.n_vars ==> r is Err && r->Err_0
            == Error::ProverClaimWitnessMismatch,
        // Degree-one instances never interpolate or divide: no sampled
        // challenge can fail them, so success is owed outright.
        witness.n_vars >= 1 && claim.poly.max_individual_degree == 1
            && claim.poly.n_vars == witness.n_vars && domain.points@.len() == 2 && pow2(
            claim.poly.n_vars as nat,
        ) <= usize::MAX ==> r is Ok,
        r is Ok ==> {
            let out = r->Ok_0;
            &&& out.zerocheck_proof.rounds@.len() == claim.poly.n_vars
            &&& out.zerocheck_proof.wf()
            &&& forall|i: int|
                0 <= i < out.zerocheck_proof.rounds@.len()
                    ==> (#[trigger] out.zerocheck_proof.rounds@[i]).coeffs@.len()
                    == claim.poly.max_individual_degree
            &&& out.evalcheck_claim.wf()
            &&& out.evalcheck_claim.eval_point@.len() == claim.poly.n_vars
            &&& crate::oracle::same_oracle(out.evalcheck_claim.poly, claim.poly)
            &&& out.evalcheck_claim.is_random_point
        },
{
    let n_vars = witness.n_vars();
    if n_vars == 0 {
        return Err(Error::IncorrectNumberOfVariables);
    }
    let ghost degree_one_instance = claim.poly.max_individual_degree == 1
        && claim.poly.n_vars == witness.n_vars && domain.points@.len() == 2 && pow2(
        claim.poly.n_vars as nat,
    ) <= usize::MAX;
    let zerocheck_challenges = sample_vec(challenger, n_vars - 1);
    let mut zerocheck_prover = match ZerocheckProver::new(
        domain,
        claim,
        witness,
        &zerocheck_challenges,
        switchover_policy,
    ) {
        Ok(p) => p,
        Err(e) => {
            proof {
                if degree_one_instance {
                    vstd::arithmetic::mul::lemma_mul_basics(
                        pow2((claim.poly.n_vars - 1) as nat) as int,
                    );
                    assert(false);
                }
            }
            return Err(e);
        },
    };
    let claim_n_vars = claim.n_vars();
    let mut prev_rd_challenge: Option<Scalar> = None;
    let mut rd_proofs: Vec<SumcheckRound> = Vec::new();
    let mut round_no: usize = 0;
    while round_no < claim_n_vars
        invariant
            claim.wf(),
            domain.wf(),
            challenger.wf(),
            claim_n_vars == claim.poly.n_vars,
            round_no <= claim_n_vars,
            zerocheck_prover.wf(),
            zerocheck_prover.round == round_no,
            zerocheck_prover.oracle.n_vars == claim_n_vars,
            zerocheck_prover.oracle.max_individual_degree
                == claim.poly.max_individual_degree,
            claim.poly.max_individual_degree >= 1,
            claim.poly.n_vars >= 1,
            witness.n_vars == claim.poly.n_vars,
            domain.points@.len() == claim.poly.max_individual_degree + 1,
            degree_one_instance == (claim.poly.max_individual_degree == 1
                && claim.poly.n_vars == witness.n_vars && domain.points@.len() == 2
                && pow2(claim.poly.n_vars as nat) <= usize::MAX),
            prev_rd_challenge is Some <==> round_no > 0,
            prev_rd_challenge is Some ==> prev_rd_challenge->0.wf(),
            rd_proofs@.len() == round_no,
            forall|i: int|
                0 <= i < round_no ==> (#[trigger] rd_proofs@[i]).wf()
                    && rd_proofs@[i].coeffs@.len() == claim.poly.max_individual_degree,
        decreases claim_n_vars - round_no,
    {
        let zerocheck_round = match zerocheck_prover.execute_round(prev_rd_challenge) {
            Ok(rp) => rp,
            Err(e) => {
                proof {
                    if degree_one_instance {
                        // A degree-one round has nothing to interpolate or
                        // invert, so it cannot fail.
                        assert(false);
                    }
                }
                return Err(e);
            },
        };
        observe_slice(challenger, &zerocheck_round.coeffs);
        prev_rd_challenge = Some(challenger.sample());
        rd_proofs.push(zerocheck_round);
        round_no = round_no + 1;
    }
    let reduced_claim = match zerocheck_prover.finalize(prev_rd_challenge) {
        Ok(rc) => rc,
        Err(e) => {
            proof {
                assert(false);
            }
            return Err(e);
        },
    };
    let evalcheck_claim = match crate::common::finalize_evalcheck_claim(
        &claim.poly,
        reduced_claim,
    ) {
        Ok(ec) => ec,
        Err(e) => {
            proof {
                assert(false);
            }
            return Err(e);
        },
    };
    Ok(ZerocheckProveOutput {
        evalcheck_claim,
        zerocheck_proof: SumcheckProof { rounds: rd_proofs },
    })
}

/// Verify a zerocheck-to-evalcheck reduction: replay the transcript,
/// reduce every round through the sampled challenge, and wrap the final
/// claim for the evalcheck layer.
pub fn verify<CH: Challenger>(
    claim: &ZerocheckClaim,
    proof: &SumcheckProof,
    challenger: &mut CH,
) -> (r: Result<crate::common::EvalcheckClaim, Error>)
    requires
        claim.wf(),
        proof.wf(),
        old(challenger).wf(),
    ensures
        final(challenger).wf(),
        r is Ok <==> (claim.poly.max_individual_degree >= 1 && claim.poly.n_vars >= 1
            && proof.rounds@.len() == claim.poly.n_vars && (forall|i: int|
            0 <= i < proof.rounds@.len()
                ==> (#[trigger] proof.rounds@[i]).coeffs@.len() > 0)),
        claim.poly.max_individual_degree == 0 ==> r is Err && r->Err_0
            == Error::PolynomialDegreeIsZero,
        claim.poly.max_individual_degree >= 1 && claim.poly.n_vars == 0 ==> r is Err
            && r->Err_0 == Error::IncorrectNumberOfVariables,
        claim.poly.max_individual_degree >= 1 && claim.poly.n_vars >= 1
            && proof.rounds@.len() != claim.poly.n_vars ==> r is Err && r->Err_0
            == Error::NumberOfRounds,
        claim.poly.max_individual_degree >= 1 && claim.poly.n_vars >= 1
            && proof.rounds@.len() == claim.poly.n_vars && !(forall|i: int|
            0 <= i < proof.rounds@.len()
                ==> (#[trigger] proof.rounds@[i]).coeffs@.len() > 0) ==> r is Err
            && r->Err_0 == Error::NumberOfCoefficients,
        r is Ok ==> {
            let ec = r->Ok_0;
            &&& ec.wf()
            &&& ec.eval_point@.len() == claim.poly.n_vars
            &&& crate::oracle::same_oracle(ec.poly, claim.poly)
            &&& ec.is_random_point
        },
{
    if claim.poly.max_individual_degree() == 0 {
        return Err(Error::PolynomialDegreeIsZero);
    }
    let n_vars = claim.n_vars();
    if n_vars == 0 {
        return Err(Error::IncorrectNumberOfVariables);
    }
    if proof.rounds.len() != n_vars {
        return Err(Error::NumberOfRounds);
    }
    let zerocheck_challenges = sample_vec(challenger, n_vars - 1);
    let reductor = crate::reduce::ZerocheckReductor { alphas: &zerocheck_challenges };
    let mut round_claim = SumcheckRoundClaim {
        partial_point: Vec::new(),
        current_round_sum: Scalar::zero(),
    };
    let mut round_no: usize = 0;
    while round_no < n_vars
        invariant
            claim.wf(),
            proof.wf(),
            challenger.wf(),
            n_vars == claim.poly.n_vars,
            n_vars >= 1,
            claim.poly.max_individual_degree >= 1,
            proof.rounds@.len() == n_vars,
            wf_scalars(zerocheck_challenges@),
            zerocheck_challenges@.len() == n_vars - 1,
            reductor.alphas@ == zerocheck_challenges@,
            round_no <= n_vars,
            round_claim.wf(),
            round_claim.partial_point@.len() == round_no,
            forall|i: int|
                0 <= i < round_no ==> (#[trigger] proof.rounds@[i]).coeffs@.len() > 0,
        decreases n_vars - round_no,
    {
        proof {
            assert(proof.rounds@[round_no as int].wf());
        }
        let round_proof = SumcheckRound {
            coeffs: copy_scalars(&proof.rounds[round_no].coeffs),
        };
        observe_slice(challenger, &round_proof.coeffs);
        let challenge = challenger.sample();
        round_claim = match reductor.reduce_round_claim(
            round_no,
            round_claim,
            challenge,
            round_proof,
        ) {
            Ok(c) => c,
            Err(e) => {
                proof {
                    assert(proof.rounds@[round_no as int].coeffs@.len() == 0);
                }
                return Err(e);
            },
        };
        round_no = round_no + 1;
    }
    let reduced = crate::common::ReducedClaim::from_round_claim(round_claim);
    crate::common::finalize_evalcheck_claim(&claim.poly, reduced)
}

} // verus!
