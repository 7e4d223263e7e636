//! The fold engine: the prover state shared by regular sumcheck and
//! zerocheck.
//!
//! The state owns every multilinear of one instance. A multilinear starts
//! `Transparent` (kept in its original table, folded lazily by inner
//! products against the growing tensor query) and transitions to `Folded`
//! (an explicit table, halved on every later fold) once its switchover
//! round arrives. One round computes the round polynomial's evaluations by
//! a reduction over all hypercube vertex pairs; summation over the
//! hypercube commutes, so the reduction may be scheduled in any order, and
//! here runs vertex by vertex. The per-vertex evaluations are obtained by
//! direct sampling in round zero and after switchover, and by subcube inner
//! products against the tensor query in between.

use vstd::prelude::*;

verus! {

use crate::common::Error;
use crate::field::{fadd_int, Scalar};
use crate::multilinear::{
    inner_prod, tensor_inner_product, MultilinearExtension,
    MultilinearQuery,
};
use crate::univariate::{vals, wf_scalars, wf_vals};
use vstd::arithmetic::power2::{lemma_pow2_adds, lemma_pow2_pos, lemma_pow2_strictly_increases, lemma_pow2_unfold,
    pow2};
use vstd::arithmetic::mul::{lemma_mul_inequality, lemma_mul_is_commutative};

/// The switchover strategy: for a multilinear of the given field-extension
/// degree, the round at which it moves to its folded representation.
pub trait SwitchoverPolicy: Sized {
    /// The chosen round, as a function of the extension degree.
    spec fn spec_switchover_round(&self, extension_degree: nat) -> nat;

    /// The chosen round, as a function of the extension degree.
    fn switchover_round(&self, extension_degree: usize) -> (r: usize)
        ensures
            r as nat == self.spec_switchover_round(extension_degree as nat),
    ;
}

/// A policy that switches every multilinear over at one fixed round.
#[derive(Clone, Copy, Debug, PartialEq, Eq, Structural)]
pub struct ConstantSwitchover {
    pub round: usize,
}

impl SwitchoverPolicy for ConstantSwitchover {
    open spec fn spec_switchover_round(&self, extension_degree: nat) -> nat {
        self.round as nat
    }

    fn switchover_round(&self, extension_degree: usize) -> (r: usize) {
        self.round
    }
}

/// One multilinear of a sumcheck instance, in its current representation.
#[derive(Clone, Debug)]
pub enum SumcheckMultilinear {
    /// Kept in its original table; folded lazily through the tensor query
    /// until its switchover round arrives.
    Transparent { switchover: usize, small_field_multilin: MultilinearExtension },
    /// Projected into an explicit table, halved on each later fold.
    Folded { large_field_folded_multilin: MultilinearExtension },
}

impl SumcheckMultilinear {
    /// The representation invariant at round `round` of an `n_vars`-round
    /// instance.
    pub open spec fn wf_at(self, n_vars: nat, round: nat) -> bool {
        match self {
            SumcheckMultilinear::Transparent { switchover, small_field_multilin } => {
                &&& small_field_multilin.wf()
                &&& small_field_multilin.n_vars as nat == n_vars
                &&& (round == 0 || switchover as nat > round)
            },
            SumcheckMultilinear::Folded { large_field_folded_multilin } => {
                &&& large_field_folded_multilin.wf()
                &&& large_field_folded_multilin.n_vars as nat + round == n_vars
            },
        }
    }
}

/// Compute `2^e` as a machine integer, detecting overflow.
pub fn checked_pow2(e: usize) -> (r: Option<usize>)
    ensures
        r is Some <==> pow2(e as nat) <= usize::MAX,
        r is Some ==> r->0 == pow2(e as nat),
{
    proof {
        vstd::arithmetic::power2::lemma2_to64();
    }
    let mut size: usize = 1;
    let mut k: usize = 0;
    while k < e
        invariant
            k <= e,
            size == pow2(k as nat),
        decreases e - k,
    {
        proof {
            assert(pow2(k as nat + 1) == 2 * pow2(k as nat)) by {
                vstd::arithmetic::power2::lemma_pow2_unfold(k as nat + 1);
            }
        }
        if size > usize::MAX / 2 {
            proof {
                assert(pow2(k as nat + 1) > usize::MAX);
                if k as nat + 1 < e as nat {
                    lemma_pow2_strictly_increases(k as nat + 1, e as nat);
                }
            }
            return None;
        }
        size = size * 2;
        k = k + 1;
    }
    Some(size)
}

/// Compute `2^e` as a machine integer.
pub fn pow2_exec(e: usize) -> (r: usize)
    requires
        pow2(e as nat) <= usize::MAX,
    ensures
        r == pow2(e as nat),
{
    proof {
        vstd::arithmetic::power2::lemma2_to64();
    }
    let mut r: usize = 1;
    let mut k: usize = 0;
    while k < e
        invariant
            k <= e,
            r == pow2(k as nat),
            pow2(e as nat) <= usize::MAX,
        decreases e - k,
    {
        proof {
            assert(pow2(k as nat + 1) == 2 * pow2(k as nat)) by {
                vstd::arithmetic::power2::lemma_pow2_unfold(k as nat + 1);
            }
            if k as nat + 1 < e as nat {
                lemma_pow2_strictly_increases(k as nat + 1, e as nat);
            }
        }
        r = r * 2;
        k = k + 1;
    }
    r
}

/// A prover state for a generalized sumcheck protocol.
///
/// Expected use: one `calculate_round_coeffs` per round, and one `fold`
/// with the sampled challenge before each round after the first.
#[derive(Clone)]
pub struct ProverState {
    pub n_vars: usize,
    pub round: usize,
    pub multilinears: Vec<SumcheckMultilinear>,
    pub query: Option<MultilinearQuery>,
}

impl ProverState {
    /// Whether any multilinear is still in its transparent representation.
    pub open spec fn has_transparent(self) -> bool {
        exists|i: int|
            0 <= i < self.multilinears@.len() && (#[trigger] self.multilinears@[i])
                is Transparent
    }

    pub open spec fn wf(self) -> bool {
        &&& self.round <= self.n_vars
        &&& pow2(self.n_vars as nat) <= usize::MAX
        &&& forall|i: int|
            0 <= i < self.multilinears@.len() ==> (#[trigger] self.multilinears@[i]).wf_at(
                self.n_vars as nat,
                self.round as nat,
            )
        &&& self.query is Some ==> self.query->0.wf() && self.query->0.n_vars == self.round
        &&& self.has_transparent() ==> self.query is Some
    }

    /// The evaluation, at hypercube vertex `2i + low`, of multilinear `j`
    /// with the challenges received so far already bound.
    pub open spec fn ml_eval(self, j: int, i: int, low: int) -> int {
        match self.multilinears@[j] {
            SumcheckMultilinear::Folded { large_field_folded_multilin } => {
                large_field_folded_multilin.values()[2 * i + low]
            },
            SumcheckMultilinear::Transparent { small_field_multilin, .. } => {
                if self.round == 0 {
                    small_field_multilin.values()[2 * i + low]
                } else {
                    inner_prod(
                        vals(self.query->0.expansion@),
                        small_field_multilin.values(),
                        (2 * i + low) * pow2(self.round as nat),
                        pow2(self.round as nat),
                    )
                }
            },
        }
    }

    /// The tuple of all multilinears' evaluations at vertex `2i + low`.
    pub open spec fn vertex_evals(self, i: int, low: int) -> Seq<int> {
        Seq::new(self.multilinears@.len(), |j: int| self.ml_eval(j, i, low))
    }

    /// Start a new instance: every multilinear begins transparent, with the
    /// switchover round the policy picks for its extension degree.
    pub fn new<S: SwitchoverPolicy>(
        n_rounds: usize,
        multilinears: Vec<MultilinearExtension>,
        switchover_policy: &S,
    ) -> (r: Result<ProverState, Error>)
        requires
            forall|i: int| 0 <= i < multilinears@.len() ==> (#[trigger] multilinears@[i]).wf(),
        ensures
            r is Ok <==> (pow2(n_rounds as nat) <= usize::MAX && forall|i: int|
                0 <= i < multilinears@.len() ==> (#[trigger] multilinears@[i]).n_vars
                    == n_rounds),
            r is Ok ==> {
                let st = r->Ok_0;
                &&& st.wf()
                &&& st.round == 0
                &&& st.n_vars == n_rounds
                &&& st.multilinears@.len() == multilinears@.len()
                &&& forall|i: int|
                    0 <= i < multilinears@.len() ==> (#[trigger] st.multilinears@[i])
                        == (SumcheckMultilinear::Transparent {
                        switchover: switchover_policy.spec_switchover_round(1) as usize,
                        small_field_multilin: multilinears@[i],
                    })
                &&& st.query is Some && st.query->0.n_vars == 0
            },
            r is Err ==> r->Err_0 == Error::IncorrectNumberOfVariables,
    {
        let ghost orig = multilinears@;
        let mut i: usize = 0;
        while i < multilinears.len()
            invariant
                orig == multilinears@,
                forall|j: int| 0 <= j < orig.len() ==> (#[trigger] orig[j]).wf(),
                i <= orig.len(),
                forall|j: int| 0 <= j < i ==> (#[trigger] orig[j]).n_vars == n_rounds,
            decreases orig.len() - i,
        {
            if multilinears[i].n_vars() != n_rounds {
                return Err(Error::IncorrectNumberOfVariables);
            }
            i = i + 1;
        }
        if checked_pow2(n_rounds).is_none() {
            return Err(Error::IncorrectNumberOfVariables);
        }
        // The switchover round for scalar tables, whose extension degree is
        // one.
        let switchover = switchover_policy.switchover_round(1);
        let mut rev: Vec<MultilinearExtension> = Vec::new();
        let mut rest = multilinears;
        while rest.len() > 0
            invariant
                rev@.len() + rest@.len() == orig.len(),
                rest@ == orig.take(rest@.len() as int),
                forall|j: int|
                    0 <= j < rev@.len() ==> #[trigger] rev@[j] == orig[orig.len() - 1 - j],
            decreases rest@.len(),
        {
            let m = match rest.pop() {
                Some(m) => m,
                None => {
                    return Err(Error::IncorrectNumberOfVariables);
                },
            };
            proof {
                assert(orig.take(rest@.len() as int + 1).drop_last() =~= orig.take(
                    rest@.len() as int,
                ));
            }
            rev.push(m);
        }
        let mut wrapped: Vec<SumcheckMultilinear> = Vec::new();
        while rev.len() > 0
            invariant
                wrapped@.len() + rev@.len() == orig.len(),
                forall|j: int|
                    0 <= j < rev@.len() ==> #[trigger] rev@[j] == orig[orig.len() - 1 - j],
                forall|j: int|
                    0 <= j < wrapped@.len() ==> #[trigger] wrapped@[j]
                        == (SumcheckMultilinear::Transparent {
                        switchover,
                        small_field_multilin: orig[j],
                    }),
            decreases rev@.len(),
        {
            let m = match rev.pop() {
                Some(m) => m,
                None => {
                    return Err(Error::IncorrectNumberOfVariables);
                },
            };
            wrapped.push(SumcheckMultilinear::Transparent { switchover, small_field_multilin: m });
        }
        let state = ProverState {
            n_vars: n_rounds,
            round: 0,
            multilinears: wrapped,
            query: Some(MultilinearQuery::new()),
        };
        Ok(state)
    }
}

/// How one multilinear moves under a fold with `challenge`: a transparent
/// one whose switchover round has arrived is projected through the full
/// tensor query; a transparent one whose round has not come is untouched; a
/// folded one is halved against the single-challenge tensor. A folded
/// multilinear never reverts.
pub open spec fn folds_to(pre: ProverState, post: ProverState, challenge: int, i: int) -> bool {
    match pre.multilinears@[i] {
        SumcheckMultilinear::Transparent { switchover, small_field_multilin } => {
            if switchover as nat <= pre.round as nat + 1 {
                post.multilinears@[i] matches SumcheckMultilinear::Folded {
                    large_field_folded_multilin,
                } && large_field_folded_multilin.values()
                    == crate::multilinear::partial_eval_low(
                    small_field_multilin.values(),
                    crate::multilinear::tensor_expand(pre.query->0.challenges@.push(challenge)),
                )
            } else {
                post.multilinears@[i] == pre.multilinears@[i]
            }
        },
        SumcheckMultilinear::Folded { large_field_folded_multilin } => {
            post.multilinears@[i] matches SumcheckMultilinear::Folded {
                large_field_folded_multilin: halved,
            } && halved.values() == crate::multilinear::partial_eval_low(
                large_field_folded_multilin.values(),
                crate::multilinear::tensor_expand(seq![challenge]),
            )
        },
    }
}

impl ProverState {
    /// Fold every multilinear with the previous round's sampled challenge:
    /// transparent ones whose switchover round arrived are projected into
    /// their folded representation, folded ones are halved, and the tensor
    /// query grows by the challenge (or is discarded once nothing
    /// transparent remains).
    pub fn fold(&mut self, prev_rd_challenge: Scalar) -> (r: Result<(), Error>)
        requires
            old(self).wf(),
            old(self).round < old(self).n_vars,
            prev_rd_challenge.wf(),
        ensures
            r is Ok,
            final(self).wf(),
            final(self).n_vars == old(self).n_vars,
            final(self).round == old(self).round + 1,
            final(self).multilinears@.len() == old(self).multilinears@.len(),
            forall|i: int|
                0 <= i < old(self).multilinears@.len() ==> folds_to(
                    *old(self),
                    *final(self),
                    prev_rd_challenge@,
                    i,
                ),
            final(self).query is None <==> !final(self).has_transparent(),
            old(self).query is Some && final(self).query is Some
                ==> final(self).query->0.challenges@
                == old(self).query->0.challenges@.push(prev_rd_challenge@),
    {
        let ghost pre = *self;
        let round = self.round + 1;
        self.round = round;
        proof {
            if pre.round as nat + 1 < pre.n_vars as nat {
                lemma_pow2_strictly_increases(pre.round as nat + 1, pre.n_vars as nat);
            }
        }
        let new_query: Option<MultilinearQuery> = match &self.query {
            Some(q) => {
                proof {
                    assert(2 * q.expansion@.len() == pow2(pre.round as nat + 1)) by {
                        vstd::arithmetic::power2::lemma_pow2_unfold(pre.round as nat + 1);
                    }
                }
                match q.update_one(prev_rd_challenge) {
                    Ok(nq) => Some(nq),
                    Err(_) => {
                        proof {
                            assert(false);
                        }
                        return Err(Error::IncorrectNumberOfVariables);
                    },
                }
            },
            None => None,
        };
        let partial_query = {
            let empty = MultilinearQuery::new();
            proof {
                vstd::arithmetic::power2::lemma2_to64();
            }
            match empty.update_one(prev_rd_challenge) {
                Ok(pq) => pq,
                Err(_) => {
                    proof {
                        assert(false);
                    }
                    return Err(Error::IncorrectNumberOfVariables);
                },
            }
        };
        proof {
            assert(partial_query.challenges@ =~= seq![prev_rd_challenge@]);
        }
        let n = self.multilinears.len();
        let mut i: usize = 0;
        while i < n
            invariant
                pre.wf(),
                pre.round < pre.n_vars,
                prev_rd_challenge.wf(),
                round == pre.round + 1,
                n == pre.multilinears@.len(),
                self.n_vars == pre.n_vars,
                self.round == round,
                self.query == pre.query,
                self.multilinears@.len() == n,
                i <= n,
                partial_query.wf(),
                partial_query.n_vars == 1,
                partial_query.challenges@ == seq![prev_rd_challenge@],
                pre.query is Some ==> new_query is Some && new_query->0.wf()
                    && new_query->0.n_vars == round && new_query->0.challenges@
                    == pre.query->0.challenges@.push(prev_rd_challenge@),
                pre.query is None ==> new_query is None,
                forall|j: int| i <= j < n ==> self.multilinears@[j] == pre.multilinears@[j],
                forall|j: int|
                    0 <= j < i ==> folds_to(pre, *self, prev_rd_challenge@, j),
                forall|j: int|
                    0 <= j < i ==> (#[trigger] self.multilinears@[j]).wf_at(
                        pre.n_vars as nat,
                        round as nat,
                    ),
            decreases n - i,
        {
            proof {
                assert(pre.multilinears@[i as int].wf_at(pre.n_vars as nat, pre.round as nat));
            }
            let replacement: Option<SumcheckMultilinear> = match &self.multilinears[i] {
                SumcheckMultilinear::Transparent { switchover, small_field_multilin } => {
                    if *switchover <= round {
                        let query_ref = match &new_query {
                            Some(q) => q,
                            None => {
                                proof {
                                    assert(pre.has_transparent());
                                    assert(false);
                                }
                                return Err(Error::IncorrectNumberOfVariables);
                            },
                        };
                        let folded = match small_field_multilin.evaluate_partial_low(query_ref) {
                            Ok(f) => f,
                            Err(_) => {
                                proof {
                                    assert(false);
                                }
                                return Err(Error::IncorrectNumberOfVariables);
                            },
                        };
                        Some(SumcheckMultilinear::Folded { large_field_folded_multilin: folded })
                    } else {
                        None
                    }
                },
                SumcheckMultilinear::Folded { large_field_folded_multilin } => {
                    let halved = match large_field_folded_multilin.evaluate_partial_low(
                        &partial_query,
                    ) {
                        Ok(h) => h,
                        Err(_) => {
                            proof {
                                assert(false);
                            }
                            return Err(Error::IncorrectNumberOfVariables);
                        },
                    };
                    Some(SumcheckMultilinear::Folded { large_field_folded_multilin: halved })
                },
            };
            let ghost before_set = *self;
            if let Some(new_value) = replacement {
                self.multilinears.set(i, new_value);
            }
            proof {
                if pre.multilinears@[i as int] is Transparent {
                    assert(pre.has_transparent());
                }
                assert(folds_to(pre, *self, prev_rd_challenge@, i as int));
                assert(self.multilinears@[i as int].wf_at(pre.n_vars as nat, round as nat));
                assert forall|j: int| 0 <= j < i implies folds_to(
                    pre,
                    *self,
                    prev_rd_challenge@,
                    j,
                ) by {
                    assert(self.multilinears@[j] == before_set.multilinears@[j]);
                    assert(folds_to(pre, before_set, prev_rd_challenge@, j));
                }
                assert forall|j: int| 0 <= j < i implies (
                #[trigger] self.multilinears@[j]).wf_at(pre.n_vars as nat, round as nat) by {
                    assert(self.multilinears@[j] == before_set.multilinears@[j]);
                }
            }
            i = i + 1;
        }
        let ghost after_loop = *self;
        let any_transparent_left = has_transparent_exec(&self.multilinears);
        self.query = if any_transparent_left {
            new_query
        } else {
            None
        };
        proof {
            assert(self.multilinears == after_loop.multilinears);
            assert forall|j: int| 0 <= j < n implies folds_to(
                pre,
                *self,
                prev_rd_challenge@,
                j,
            ) by {
                assert(folds_to(pre, after_loop, prev_rd_challenge@, j));
                assert(self.multilinears@[j] == after_loop.multilinears@[j]);
            }
            if any_transparent_left {
                let j = choose|j: int|
                    0 <= j < n && (#[trigger] after_loop.multilinears@[j]) is Transparent;
                assert(folds_to(pre, after_loop, prev_rd_challenge@, j));
                assert(pre.multilinears@[j] is Transparent);
                assert(pre.has_transparent());
            }
        }
        Ok(())
    }
}

/// A strategy object that turns per-vertex multilinear evaluations into
/// round-polynomial evaluations, and those into the round's coefficient
/// message. Regular sumcheck and the two zerocheck round families implement
/// it.
pub trait SumcheckRoundEvaluator: Sized {
    /// The implementation's own invariant.
    spec fn wf(&self) -> bool;

    /// How many multilinear evaluations one vertex supplies.
    spec fn input_arity(&self) -> nat;

    /// How many round-polynomial evaluations the round accumulates.
    spec fn spec_n_round_evals(&self) -> nat;

    /// How many auxiliary values one vertex writes into the scratch buffer.
    spec fn chunk_size(&self) -> nat;

    /// Which vertex indices the evaluator may be asked about.
    spec fn vertex_ok(&self, i: int) -> bool;

    /// The vertex's additive contribution to the round evaluations.
    spec fn vertex_contribution(&self, i: int, e0: Seq<int>, e1: Seq<int>) -> Seq<int>;

    /// The auxiliary values the vertex writes.
    spec fn q_writes(&self, i: int, e0: Seq<int>, e1: Seq<int>) -> Seq<int>;

    /// Contributions and writes have their stated shapes.
    proof fn lemma_shapes(&self, i: int, e0: Seq<int>, e1: Seq<int>)
        requires
            self.wf(),
        ensures
            self.vertex_contribution(i, e0, e1).len() == self.spec_n_round_evals(),
            wf_vals(self.vertex_contribution(i, e0, e1)),
            self.q_writes(i, e0, e1).len() == self.chunk_size(),
            wf_vals(self.q_writes(i, e0, e1)),
    ;

    /// How many round-polynomial evaluations the round accumulates.
    fn n_round_evals(&self) -> (r: usize)
        requires
            self.wf(),
        ensures
            r as nat == self.spec_n_round_evals(),
    ;

    /// Fold one vertex's evaluations into the accumulators and write its
    /// auxiliary chunk.
    fn process_vertex(
        &self,
        i: usize,
        evals_0: &Vec<Scalar>,
        evals_1: &Vec<Scalar>,
        round_evals: &mut Vec<Scalar>,
        round_q: &mut Vec<Scalar>,
    )
        requires
            self.wf(),
            self.vertex_ok(i as int),
            evals_0@.len() == self.input_arity(),
            wf_scalars(evals_0@),
            evals_1@.len() == self.input_arity(),
            wf_scalars(evals_1@),
            old(round_evals)@.len() == self.spec_n_round_evals(),
            wf_scalars(old(round_evals)@),
            (i + 1) * self.chunk_size() <= old(round_q)@.len(),
            old(round_q)@.len() <= usize::MAX,
            wf_scalars(old(round_q)@),
        ensures
            final(round_evals)@.len() == old(round_evals)@.len(),
            wf_scalars(final(round_evals)@),
            forall|k: int|
                0 <= k < old(round_evals)@.len() ==> (#[trigger] final(round_evals)@[k])@
                    == fadd_int(
                    old(round_evals)@[k]@,
                    self.vertex_contribution(i as int, vals(evals_0@), vals(evals_1@))[k],
                ),
            final(round_q)@.len() == old(round_q)@.len(),
            wf_scalars(final(round_q)@),
            forall|t: int|
                i * self.chunk_size() <= t < (i + 1) * self.chunk_size()
                    ==> (#[trigger] final(round_q)@[t])@ == self.q_writes(
                    i as int,
                    vals(evals_0@),
                    vals(evals_1@),
                )[t - i * self.chunk_size()],
            forall|t: int|
                0 <= t < old(round_q)@.len() && !(i * self.chunk_size() <= t < (i + 1)
                    * self.chunk_size()) ==> #[trigger] final(round_q)@[t] == old(
                    round_q,
                )@[t],
    ;

    /// When the accumulated evaluations can be interpolated into a
    /// coefficient message.
    spec fn coeffs_ok(&self, current_round_sum: int, round_evals: Seq<int>) -> bool;

    /// The coefficient message the round sends.
    spec fn spec_coeffs(&self, current_round_sum: int, round_evals: Seq<int>) -> Seq<int>;

    /// Interpolate the accumulated evaluations into the round's coefficient
    /// message.
    fn round_evals_to_coeffs(&self, current_round_sum: Scalar, round_evals: Vec<Scalar>) -> (r:
        Result<Vec<Scalar>, Error>)
        requires
            self.wf(),
            current_round_sum.wf(),
            round_evals@.len() == self.spec_n_round_evals(),
            wf_scalars(round_evals@),
        ensures
            r is Ok <==> self.coeffs_ok(current_round_sum@, vals(round_evals@)),
            r is Ok ==> vals(r->Ok_0@) == self.spec_coeffs(
                current_round_sum@,
                vals(round_evals@),
            ) && wf_scalars(r->Ok_0@),
            r is Err ==> r->Err_0 == Error::NonInvertibleDivisor,
    ;
}

/// The round evaluations accumulated over the first `upto` vertices.
pub open spec fn accum_round_evals<E: SumcheckRoundEvaluator>(
    ev: E,
    st: ProverState,
    upto: int,
) -> Seq<int>
    decreases upto,
{
    if upto <= 0 {
        Seq::new(ev.spec_n_round_evals(), |k: int| 0int)
    } else {
        crate::domain::poly_add(
            accum_round_evals(ev, st, upto - 1),
            ev.vertex_contribution(upto - 1, st.vertex_evals(upto - 1, 0), st.vertex_evals(upto - 1, 1)),
        )
    }
}

pub proof fn lemma_accum_shape<E: SumcheckRoundEvaluator>(ev: E, st: ProverState, upto: int)
    requires
        ev.wf(),
    ensures
        accum_round_evals(ev, st, upto).len() == ev.spec_n_round_evals(),
        wf_vals(accum_round_evals(ev, st, upto)),
    decreases upto,
{
    if upto > 0 {
        lemma_accum_shape(ev, st, upto - 1);
        ev.lemma_shapes(upto - 1, st.vertex_evals(upto - 1, 0), st.vertex_evals(upto - 1, 1));
        assert forall|k: int|
            0 <= k < accum_round_evals(ev, st, upto).len() implies crate::field::reduced(
            #[trigger] accum_round_evals(ev, st, upto)[k]) by {
            vstd::arithmetic::div_mod::lemma_mod_bound(
                accum_round_evals(ev, st, upto - 1)[k] + ev.vertex_contribution(
                    upto - 1,
                    st.vertex_evals(upto - 1, 0),
                    st.vertex_evals(upto - 1, 1),
                )[k],
                crate::field::field_p(),
            );
        }
    }
}

impl ProverState {
    /// Compute the round's coefficient message: reduce over all remaining
    /// hypercube vertex pairs, handing each pair's multilinear evaluations
    /// to the evaluator, then interpolate the accumulated evaluations.
    ///
    /// Each multilinear's pair of evaluations is sampled directly in round
    /// zero and once folded, and obtained by subcube inner products against
    /// the tensor query for transparent multilinears in between.
    pub fn calculate_round_coeffs<E: SumcheckRoundEvaluator>(
        &self,
        evaluator: &E,
        current_round_sum: Scalar,
        round_q: &mut Vec<Scalar>,
    ) -> (r: Result<Vec<Scalar>, Error>)
        requires
            self.wf(),
            self.round < self.n_vars,
            evaluator.wf(),
            evaluator.input_arity() == self.multilinears@.len(),
            forall|i: int|
                0 <= i < pow2((self.n_vars - self.round - 1) as nat)
                    ==> evaluator.vertex_ok(i),
            current_round_sum.wf(),
            old(round_q)@.len() == pow2((self.n_vars - self.round - 1) as nat)
                * evaluator.chunk_size(),
            wf_scalars(old(round_q)@),
        ensures
            ({
                let n_vertices = pow2((self.n_vars - self.round - 1) as nat) as int;
                let total = accum_round_evals(*evaluator, *self, n_vertices);
                &&& (r is Ok <==> evaluator.coeffs_ok(current_round_sum@, total))
                &&& (r is Ok ==> vals(r->Ok_0@) == evaluator.spec_coeffs(
                    current_round_sum@,
                    total,
                ) && wf_scalars(r->Ok_0@))
                &&& (r is Err ==> r->Err_0 == Error::NonInvertibleDivisor)
                &&& final(round_q)@.len() == old(round_q)@.len()
                &&& wf_scalars(final(round_q)@)
                &&& forall|i: int, t: int|
                    0 <= i < n_vertices && 0 <= t < evaluator.chunk_size()
                        ==> (#[trigger] final(round_q)@[i * evaluator.chunk_size() + t])@
                        == evaluator.q_writes(
                        i,
                        self.vertex_evals(i, 0),
                        self.vertex_evals(i, 1),
                    )[t]
            }),
    {
        let rd_vars = self.n_vars - self.round;
        proof {
            if ((rd_vars - 1) as nat) < self.n_vars as nat {
                lemma_pow2_strictly_increases((rd_vars - 1) as nat, self.n_vars as nat);
            }
        }
        let n_vertices = pow2_exec(rd_vars - 1);
        let ghost cs = evaluator.chunk_size();
        let q_len_exec = round_q.len();
        let ghost q_len = old(round_q)@.len();
        proof {
            assert(q_len == q_len_exec);
        }
        let n_evals = evaluator.n_round_evals();
        let mut round_evals: Vec<Scalar> = Vec::new();
        let mut k: usize = 0;
        while k < n_evals
            invariant
                k <= n_evals,
                round_evals@.len() == k,
                wf_scalars(round_evals@),
                forall|t: int| 0 <= t < k ==> (#[trigger] round_evals@[t])@ == 0,
            decreases n_evals - k,
        {
            round_evals.push(Scalar::zero());
            k = k + 1;
        }
        proof {
            assert(vals(round_evals@) =~= accum_round_evals(*evaluator, *self, 0));
        }
        let n_multilinears = self.multilinears.len();
        let mut i: usize = 0;
        while i < n_vertices
            invariant
                self.wf(),
                self.round < self.n_vars,
                evaluator.wf(),
                evaluator.input_arity() == self.multilinears@.len(),
                current_round_sum.wf(),
                n_multilinears == self.multilinears@.len(),
                rd_vars == self.n_vars - self.round,
                n_vertices == pow2((rd_vars - 1) as nat),
                cs == evaluator.chunk_size(),
                n_evals == evaluator.spec_n_round_evals(),
                forall|v: int| 0 <= v < n_vertices ==> evaluator.vertex_ok(v),
                i <= n_vertices,
                round_evals@.len() == n_evals,
                wf_scalars(round_evals@),
                vals(round_evals@) == accum_round_evals(*evaluator, *self, i as int),
                round_q@.len() == q_len,
                q_len == n_vertices * cs,
                q_len <= usize::MAX,
                wf_scalars(round_q@),
                forall|v: int, t: int|
                    0 <= v < i && 0 <= t < cs ==> (#[trigger] round_q@[v * cs + t])@
                        == evaluator.q_writes(
                        v,
                        self.vertex_evals(v, 0),
                        self.vertex_evals(v, 1),
                    )[t],
            decreases n_vertices - i,
        {
            let (evals_0, evals_1) = self.vertex_eval_pair(i, rd_vars, n_vertices);
            proof {
                lemma_mul_inequality(i as int + 1, n_vertices as int, cs as int);
            }
            let ghost pre_evals = round_evals@;
            let ghost pre_q = round_q@;
            evaluator.process_vertex(i, &evals_0, &evals_1, &mut round_evals, round_q);
            proof {
                evaluator.lemma_shapes(
                    i as int,
                    self.vertex_evals(i as int, 0),
                    self.vertex_evals(i as int, 1),
                );
                lemma_accum_shape(*evaluator, *self, i as int);
                assert(vals(round_evals@) =~= accum_round_evals(
                    *evaluator,
                    *self,
                    i as int + 1,
                ));
                assert forall|v: int, t: int|
                    0 <= v < i + 1 && 0 <= t < cs implies (#[trigger] round_q@[v * cs + t])@
                        == evaluator.q_writes(
                        v,
                        self.vertex_evals(v, 0),
                        self.vertex_evals(v, 1),
                    )[t] by {
                    if v < i {
                        lemma_mul_inequality(v + 1, i as int, cs as int);
                        vstd::arithmetic::mul::lemma_mul_is_distributive_add_other_way(
                            cs as int,
                            v,
                            1,
                        );
                        vstd::arithmetic::mul::lemma_mul_is_distributive_add_other_way(
                            cs as int,
                            i as int,
                            1,
                        );
                        assert(v * cs + t < i * cs);
                        assert(round_q@[v * cs + t] == pre_q[v * cs + t]);
                    } else {
                        vstd::arithmetic::mul::lemma_mul_is_distributive_add_other_way(
                            cs as int,
                            i as int,
                            1,
                        );
                        assert(round_q@[v * cs + t] == round_q@[i as int * cs + t]);
                    }
                }
            }
            i = i + 1;
        }
        evaluator.round_evals_to_coeffs(current_round_sum, round_evals)
    }

    /// The pair of evaluations, at the two children of vertex `i`, of every
    /// multilinear in its current representation.
    fn vertex_eval_pair(&self, i: usize, rd_vars: usize, n_vertices: usize) -> (r: (
        Vec<Scalar>,
        Vec<Scalar>,
    ))
        requires
            self.wf(),
            self.round < self.n_vars,
            rd_vars == self.n_vars - self.round,
            n_vertices == pow2((rd_vars - 1) as nat),
            i < n_vertices,
        ensures
            r.0@.len() == self.multilinears@.len(),
            r.1@.len() == self.multilinears@.len(),
            wf_scalars(r.0@),
            wf_scalars(r.1@),
            vals(r.0@) == self.vertex_evals(i as int, 0),
            vals(r.1@) == self.vertex_evals(i as int, 1),
    {
        let n_multilinears = self.multilinears.len();
        let mut evals_0: Vec<Scalar> = Vec::new();
        let mut evals_1: Vec<Scalar> = Vec::new();
        let mut j: usize = 0;
        proof {
            lemma_pow2_unfold(rd_vars as nat);
            lemma_pow2_pos((rd_vars - 1) as nat);
            if (rd_vars as nat) < self.n_vars as nat {
                lemma_pow2_strictly_increases(rd_vars as nat, self.n_vars as nat);
            }
        }
        while j < n_multilinears
            invariant
                self.wf(),
                self.round < self.n_vars,
                rd_vars == self.n_vars - self.round,
                n_vertices == pow2((rd_vars - 1) as nat),
                2 * n_vertices == pow2(rd_vars as nat),
                2 * n_vertices <= usize::MAX,
                i < n_vertices,
                n_multilinears == self.multilinears@.len(),
                j <= n_multilinears,
                evals_0@.len() == j,
                evals_1@.len() == j,
                wf_scalars(evals_0@),
                wf_scalars(evals_1@),
                forall|t: int|
                    0 <= t < j ==> (#[trigger] evals_0@[t])@ == self.ml_eval(t, i as int, 0),
                forall|t: int|
                    0 <= t < j ==> (#[trigger] evals_1@[t])@ == self.ml_eval(t, i as int, 1),
            decreases n_multilinears - j,
        {
            proof {
                assert(self.multilinears@[j as int].wf_at(
                    self.n_vars as nat,
                    self.round as nat,
                ));
            }
            let (e0, e1): (Scalar, Scalar) = match &self.multilinears[j] {
                SumcheckMultilinear::Folded { large_field_folded_multilin } => {
                    proof {
                        lemma_pow2_adds((rd_vars - 1) as nat, 1);
                        vstd::arithmetic::power2::lemma2_to64();
                    }
                    (
                        large_field_folded_multilin.evals[2 * i],
                        large_field_folded_multilin.evals[2 * i + 1],
                    )
                },
                SumcheckMultilinear::Transparent { small_field_multilin, .. } => {
                    if self.round == 0 {
                        (small_field_multilin.evals[2 * i], small_field_multilin.evals[2 * i
                            + 1])
                    } else {
                        let query = match &self.query {
                            Some(q) => q,
                            None => {
                                // Unreachable: a transparent multilinear
                                // keeps the query alive.
                                proof {
                                    assert(self.multilinears@[j as int] is Transparent);
                                    assert(self.has_transparent());
                                    assert(false);
                                }
                                return (evals_0, evals_1);
                            },
                        };
                        let chunk = query.expansion.len();
                        proof {
                            lemma_pow2_adds(self.round as nat, rd_vars as nat);
                            lemma_mul_inequality(
                                2 * i as int + 2,
                                pow2(rd_vars as nat) as int,
                                chunk as int,
                            );
                            vstd::arithmetic::mul::lemma_mul_is_distributive_add_other_way(
                                chunk as int,
                                2 * i as int,
                                2,
                            );
                            vstd::arithmetic::mul::lemma_mul_is_distributive_add_other_way(
                                chunk as int,
                                2 * i as int,
                                1,
                            );
                            lemma_mul_is_commutative(
                                pow2(rd_vars as nat) as int,
                                chunk as int,
                            );
                        }
                        let base0 = (2 * i) * chunk;
                        let base1 = base0 + chunk;
                        let v0 = tensor_inner_product(
                            &query.expansion,
                            &small_field_multilin.evals,
                            base0,
                        );
                        let v1 = tensor_inner_product(
                            &query.expansion,
                            &small_field_multilin.evals,
                            base1,
                        );
                        (v0, v1)
                    }
                },
            };
            evals_0.push(e0);
            evals_1.push(e1);
            j = j + 1;
        }
        proof {
            assert(vals(evals_0@) =~= self.vertex_evals(i as int, 0));
            assert(vals(evals_1@) =~= self.vertex_evals(i as int, 1));
        }
        (evals_0, evals_1)
    }
}

/// Whether any multilinear of the list is still transparent.
fn has_transparent_exec(multilinears: &Vec<SumcheckMultilinear>) -> (r: bool)
    ensures
        r <==> exists|i: int|
            0 <= i < multilinears@.len() && (#[trigger] multilinears@[i]) is Transparent,
{
    let mut i: usize = 0;
    while i < multilinears.len()
        invariant
            i <= multilinears@.len(),
            forall|j: int| 0 <= j < i ==> !((#[trigger] multilinears@[j]) is Transparent),
        decreases multilinears@.len() - i,
    {
        match &multilinears[i] {
            SumcheckMultilinear::Transparent { .. } => {
                assert(multilinears@[i as int] is Transparent);
                return true;
            },
            SumcheckMultilinear::Folded { .. } => {
            },
        }
        i = i + 1;
    }
    false
}

/// A folded multilinear's table halves on every round and reaches a single
/// entry exactly at the final round.
pub proof fn lemma_folded_length(st: ProverState, i: int)
    requires
        st.wf(),
        0 <= i < st.multilinears@.len(),
        st.multilinears@[i] is Folded,
    ensures
        st.multilinears@[i]->Folded_large_field_folded_multilin.evals@.len() == pow2(
            (st.n_vars - st.round) as nat,
        ),
        st.round == st.n_vars
            ==> st.multilinears@[i]->Folded_large_field_folded_multilin.evals@.len() == 1,
{
    assert(st.multilinears@[i].wf_at(st.n_vars as nat, st.round as nat));
    vstd::arithmetic::power2::lemma2_to64();
}

/// A multilinear's representation transitions exactly once: a folded one
/// never reverts, and a transparent one folds precisely when the fold
/// reaches its switchover round.
pub proof fn lemma_switchover_transition(
    pre: ProverState,
    post: ProverState,
    challenge: int,
    i: int,
)
    requires
        pre.wf(),
        post.wf(),
        pre.round < pre.n_vars,
        post.round == pre.round + 1,
        post.n_vars == pre.n_vars,
        0 <= i < pre.multilinears@.len(),
        i < post.multilinears@.len(),
        folds_to(pre, post, challenge, i),
    ensures
        pre.multilinears@[i] is Folded ==> post.multilinears@[i] is Folded,
        pre.multilinears@[i] matches SumcheckMultilinear::Transparent { switchover, .. }
            ==> (post.multilinears@[i] is Folded <==> switchover <= post.round),
        pre.multilinears@[i] is Folded
            ==> 2 * post.multilinears@[i]->Folded_large_field_folded_multilin.evals@.len()
            == pre.multilinears@[i]->Folded_large_field_folded_multilin.evals@.len(),
{
    match pre.multilinears@[i] {
        SumcheckMultilinear::Folded { large_field_folded_multilin } => {
            lemma_folded_length(pre, i);
            lemma_folded_length(post, i);
            assert(pre.multilinears@[i].wf_at(pre.n_vars as nat, pre.round as nat));
            vstd::arithmetic::power2::lemma_pow2_unfold((pre.n_vars - pre.round) as nat);
        },
        SumcheckMultilinear::Transparent { .. } => {
        },
    }
}

} // verus!
