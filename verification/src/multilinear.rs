//! Multilinear polynomials in evaluation form, tensor queries, and partial
//! evaluation (folding).
//!
//! A multilinear over `n` variables is stored as its `2^n` evaluations on
//! the Boolean hypercube, lowest-index variable in the lowest index bit.
//! Folding binds the lowest variables to challenges by inner products
//! against the tensor expansion of those challenges, halving the table once
//! per bound variable.

use vstd::prelude::*;

verus! {

use crate::common::Error;
use crate::field::{fadd_int, fmul_int, fsub_int, Scalar};
use crate::univariate::{vals, wf_scalars, wf_vals};
use vstd::arithmetic::power2::{
    lemma2_to64, lemma2_to64_rest, lemma_pow2_adds, lemma_pow2_pos,
    lemma_pow2_strictly_increases, lemma_pow2_unfold, pow2,
};
use vstd::arithmetic::mul::{lemma_mul_inequality};

/// A power of two that fits the machine has an exponent below the word
/// width.
pub proof fn lemma_pow2_fits_usize(n: nat)
    requires
        pow2(n) <= usize::MAX,
    ensures
        n < 64,
{
    if n >= 64 {
        lemma2_to64();
        lemma2_to64_rest();
        if n > 64 {
            lemma_pow2_strictly_increases(64, n);
        }
    }
}

/// Inner product of the first `k` entries of `t` with the `k` entries of
/// `e` starting at `base`.
pub open spec fn inner_prod(t: Seq<int>, e: Seq<int>, base: int, k: nat) -> int
    decreases k,
{
    if k == 0 {
        0
    } else {
        fadd_int(
            inner_prod(t, e, base, (k - 1) as nat),
            fmul_int(t[k - 1], e[base + k - 1]),
        )
    }
}

/// The tensor expansion of a challenge list: entry `t` is the product over
/// challenge `j` of `ch[j]` where bit `j` of `t` is set and `1 - ch[j]`
/// where it is clear.
pub open spec fn tensor_expand(ch: Seq<int>) -> Seq<int>
    decreases ch.len(),
{
    if ch.len() == 0 {
        seq![1int]
    } else {
        let half = tensor_expand(ch.drop_last());
        let c = ch.last();
        Seq::new(
            2 * half.len(),
            |t: int|
                if t < half.len() {
                    fmul_int(half[t], fsub_int(1, c))
                } else {
                    fmul_int(half[t - half.len()], c)
                },
        )
    }
}

pub proof fn lemma_tensor_expand_len(ch: Seq<int>)
    ensures
        tensor_expand(ch).len() == pow2(ch.len()),
    decreases ch.len(),
{
    if ch.len() == 0 {
        lemma2_to64();
    } else {
        lemma_tensor_expand_len(ch.drop_last());
        lemma_pow2_unfold(ch.len());
    }
}

/// The low-variable partial evaluation of table `e` against tensor `t`:
/// entry `i` is the inner product of `t` with the `i`-th chunk of `e`.
pub open spec fn partial_eval_low(e: Seq<int>, t: Seq<int>) -> Seq<int> {
    Seq::new(e.len() / t.len(), |i: int| inner_prod(t, e, i * t.len(), t.len()))
}

/// A multilinear polynomial in evaluation form.
#[derive(Clone, Debug)]
pub struct MultilinearExtension {
    pub n_vars: usize,
    pub evals: Vec<Scalar>,
}

impl MultilinearExtension {
    /// The integer representatives of the evaluation table.
    pub open spec fn values(self) -> Seq<int> {
        vals(self.evals@)
    }

    /// A table of the right power-of-two length, all entries reduced.
    pub open spec fn wf(self) -> bool {
        self.evals@.len() == pow2(self.n_vars as nat) && wf_scalars(self.evals@)
    }

    /// Wrap an evaluation table whose length is a power of two.
    pub fn from_values(values: Vec<Scalar>) -> (r: Result<MultilinearExtension, Error>)
        requires
            wf_scalars(values@),
        ensures
            r is Ok <==> exists|k: nat| k <= 64 && pow2(k) == values@.len(),
            r is Ok ==> r->Ok_0.wf() && r->Ok_0.evals == values && pow2(
                r->Ok_0.n_vars as nat,
            ) == values@.len(),
            r is Err ==> r->Err_0 == Error::IncorrectNumberOfVariables,
    {
        let value_count = values.len();
        let mut size: usize = 1;
        let mut n: usize = 0;
        proof {
            lemma2_to64();
        }
        while size < values.len() && n < 64
            invariant
                size == pow2(n as nat),
                n <= 64,
                values@.len() == value_count,
                forall|k: nat| k < n ==> pow2(k) < values@.len(),
            decreases 64 - n,
        {
            proof {
                lemma_pow2_unfold(n as nat + 1);
                lemma_pow2_pos(n as nat);
            }
            if size > usize::MAX / 2 {
                proof {
                    assert forall|k: nat| k <= 64 implies pow2(k) != values@.len() by {
                        if k > n {
                            if k > n + 1 {
                                lemma_pow2_strictly_increases(n as nat + 1, k);
                            }
                            assert(pow2(n as nat + 1) == 2 * pow2(n as nat));
                            assert(pow2(k) >= 2 * size);
                        }
                    }
                }
                return Err(Error::IncorrectNumberOfVariables);
            }
            size = size * 2;
            n = n + 1;
        }
        if size == values.len() {
            Ok(MultilinearExtension { n_vars: n, evals: values })
        } else {
            proof {
                if size < values@.len() {
                    lemma2_to64();
                    lemma2_to64_rest();
                    assert(n == 64);
                    assert(false);
                }
                assert forall|k: nat| k <= 64 implies pow2(k) != values@.len() by {
                    if k < n {
                        assert(pow2(k) < values@.len());
                    } else if k > n {
                        lemma_pow2_strictly_increases(n as nat, k);
                    }
                }
            }
            Err(Error::IncorrectNumberOfVariables)
        }
    }

    pub fn n_vars(&self) -> (r: usize)
        ensures
            r == self.n_vars,
    {
        self.n_vars
    }

    /// The number of hypercube evaluations.
    pub fn size(&self) -> (r: usize)
        ensures
            r == self.evals@.len(),
    {
        self.evals.len()
    }

    /// Look one hypercube vertex up.
    pub fn evaluate_on_hypercube(&self, index: usize) -> (r: Result<Scalar, Error>)
        requires
            self.wf(),
        ensures
            r is Ok <==> index < self.evals@.len(),
            r is Ok ==> r->Ok_0 == self.evals@[index as int] && r->Ok_0.wf(),
            r is Err ==> r->Err_0 == Error::IncorrectNumberOfVariables,
    {
        if index < self.evals.len() {
            Ok(self.evals[index])
        } else {
            Err(Error::IncorrectNumberOfVariables)
        }
    }
}

/// Inner product of a full tensor with one chunk of an evaluation table.
pub fn tensor_inner_product(t: &Vec<Scalar>, e: &Vec<Scalar>, base: usize) -> (r: Scalar)
    requires
        wf_scalars(t@),
        wf_scalars(e@),
        base + t@.len() <= e@.len(),
    ensures
        r.wf(),
        r@ == inner_prod(vals(t@), vals(e@), base as int, t@.len()),
{
    let e_len = e.len();
    let mut acc = Scalar::zero();
    let mut j: usize = 0;
    while j < t.len()
        invariant
            wf_scalars(t@),
            wf_scalars(e@),
            base + t@.len() <= e@.len(),
            e@.len() == e_len,
            j <= t@.len(),
            acc.wf(),
            acc@ == inner_prod(vals(t@), vals(e@), base as int, j as nat),
        decreases t@.len() - j,
    {
        proof {
            assert(t@[j as int].wf());
            assert(e@[base + j].wf());
        }
        acc = acc.add(t[j].mul(e[base + j]));
        j = j + 1;
    }
    acc
}

/// The tensor expansion of the challenges received so far.
#[derive(Clone)]
pub struct MultilinearQuery {
    pub n_vars: usize,
    pub expansion: Vec<Scalar>,
    pub challenges: Ghost<Seq<int>>,
}

impl MultilinearQuery {
    pub open spec fn wf(self) -> bool {
        &&& self.challenges@.len() == self.n_vars as nat
        &&& wf_vals(self.challenges@)
        &&& vals(self.expansion@) == tensor_expand(self.challenges@)
        &&& self.expansion@.len() == pow2(self.n_vars as nat)
        &&& wf_scalars(self.expansion@)
    }

    /// The empty query: no challenges bound yet.
    pub fn new() -> (r: MultilinearQuery)
        ensures
            r.wf(),
            r.n_vars == 0,
            r.challenges@ == Seq::<int>::empty(),
    {
        let mut expansion: Vec<Scalar> = Vec::new();
        expansion.push(Scalar::one());
        proof {
            assert(vals(expansion@) =~= tensor_expand(Seq::<int>::empty()));
            lemma2_to64();
        }
        MultilinearQuery { n_vars: 0, expansion, challenges: Ghost(Seq::empty()) }
    }

    pub fn n_vars(&self) -> (r: usize)
        ensures
            r == self.n_vars,
    {
        self.n_vars
    }

    /// Extend the query by one more sampled challenge, doubling the tensor.
    pub fn update_one(&self, challenge: Scalar) -> (r: Result<MultilinearQuery, Error>)
        requires
            self.wf(),
            challenge.wf(),
        ensures
            r is Ok <==> 2 * self.expansion@.len() <= usize::MAX,
            r is Ok ==> r->Ok_0.wf() && r->Ok_0.n_vars == self.n_vars + 1
                && r->Ok_0.challenges@ == self.challenges@.push(challenge@),
            r is Err ==> r->Err_0 == Error::IncorrectNumberOfVariables,
    {
        let len = self.expansion.len();
        proof {
            lemma_pow2_pos(self.n_vars as nat);
            lemma_pow2_fits_usize(self.n_vars as nat);
        }
        if len > usize::MAX / 2 {
            return Err(Error::IncorrectNumberOfVariables);
        }
        let one_minus = Scalar::one().sub(challenge);
        let mut expansion: Vec<Scalar> = Vec::new();
        let mut i: usize = 0;
        while i < len
            invariant
                self.wf(),
                challenge.wf(),
                one_minus.wf(),
                one_minus@ == fsub_int(1, challenge@),
                len == self.expansion@.len(),
                i <= len,
                expansion@.len() == i,
                wf_scalars(expansion@),
                forall|j: int|
                    0 <= j < i ==> (#[trigger] expansion@[j])@ == fmul_int(
                        self.expansion@[j]@,
                        fsub_int(1, challenge@),
                    ),
            decreases len - i,
        {
            expansion.push(self.expansion[i].mul(one_minus));
            i = i + 1;
        }
        let mut i: usize = 0;
        while i < len
            invariant
                self.wf(),
                challenge.wf(),
                len == self.expansion@.len(),
                i <= len,
                expansion@.len() == len + i,
                wf_scalars(expansion@),
                forall|j: int|
                    0 <= j < len ==> (#[trigger] expansion@[j])@ == fmul_int(
                        self.expansion@[j]@,
                        fsub_int(1, challenge@),
                    ),
                forall|j: int|
                    len <= j < len + i ==> (#[trigger] expansion@[j])@ == fmul_int(
                        self.expansion@[j - len]@,
                        challenge@,
                    ),
            decreases len - i,
        {
            expansion.push(self.expansion[i].mul(challenge));
            i = i + 1;
        }
        let ghost new_challenges = self.challenges@.push(challenge@);
        proof {
            assert(new_challenges.drop_last() =~= self.challenges@);
            assert(vals(expansion@) =~= tensor_expand(new_challenges));
            lemma_pow2_unfold(self.n_vars as nat + 1);
        }
        Ok(MultilinearQuery {
            n_vars: self.n_vars + 1,
            expansion,
            challenges: Ghost(new_challenges),
        })
    }

    /// Build the full tensor expansion of a challenge list.
    pub fn with_full_query(query: &Vec<Scalar>) -> (r: Result<MultilinearQuery, Error>)
        requires
            wf_scalars(query@),
        ensures
            r is Ok <==> pow2(query@.len()) <= usize::MAX,
            r is Ok ==> r->Ok_0.wf() && r->Ok_0.n_vars == query@.len()
                && r->Ok_0.challenges@ == vals(query@),
            r is Err ==> r->Err_0 == Error::IncorrectNumberOfVariables,
    {
        let mut cur = MultilinearQuery::new();
        let mut j: usize = 0;
        proof {
            assert(vals(query@.take(0)) =~= Seq::<int>::empty());
        }
        while j < query.len()
            invariant
                wf_scalars(query@),
                j <= query@.len(),
                cur.wf(),
                cur.n_vars == j,
                cur.challenges@ == vals(query@.take(j as int)),
            decreases query@.len() - j,
        {
            let next = match cur.update_one(query[j]) {
                Ok(next) => next,
                Err(e) => {
                    proof {
                        // A failed extension pins the whole expansion past
                        // the machine: 2^(j+1) already exceeds it.
                        lemma_pow2_unfold(j as nat + 1);
                        if ((j + 1) as nat) < query@.len() {
                            lemma_pow2_strictly_increases(j as nat + 1, query@.len());
                        }
                    }
                    return Err(e);
                },
            };
            proof {
                assert(vals(query@.take(j as int)).push(query@[j as int]@) =~= vals(
                    query@.take(j as int + 1),
                ));
            }
            cur = next;
            j = j + 1;
        }
        proof {
            assert(vals(query@.take(query@.len() as int)) =~= vals(query@));
        }
        let full_size = cur.expansion.len();
        proof {
            assert(pow2(query@.len()) == full_size);
        }
        Ok(cur)
    }
}

impl MultilinearExtension {
    /// Bind the lowest `query.n_vars` variables to the query's challenges.
    ///
    /// Each output entry is the inner product of the tensor with one chunk
    /// of the table; the arity drops by the query's arity.
    pub fn evaluate_partial_low(&self, query: &MultilinearQuery) -> (r: Result<
        MultilinearExtension,
        Error,
    >)
        requires
            self.wf(),
            query.wf(),
        ensures
            r is Ok <==> query.n_vars <= self.n_vars,
            r is Ok ==> r->Ok_0.wf() && r->Ok_0.n_vars == self.n_vars - query.n_vars
                && r->Ok_0.values() == partial_eval_low(self.values(), vals(query.expansion@)),
            r is Err ==> r->Err_0 == Error::IncorrectNumberOfVariables,
    {
        if query.n_vars() > self.n_vars {
            return Err(Error::IncorrectNumberOfVariables);
        }
        let chunk = query.expansion.len();
        let out_vars = self.n_vars - query.n_vars;
        let ghost n_out = pow2(out_vars as nat);
        proof {
            lemma_pow2_adds(out_vars as nat, query.n_vars as nat);
            lemma_pow2_pos(out_vars as nat);
            lemma_pow2_pos(query.n_vars as nat);
        }
        assert(n_out * chunk == self.evals@.len());
        let n_out_exec = self.evals.len() / chunk;
        proof {
            assert(self.evals@.len() as int / chunk as int == n_out) by {
                vstd::arithmetic::div_mod::lemma_div_multiples_vanish(
                    n_out as int,
                    chunk as int,
                );
            }
        }
        let mut out: Vec<Scalar> = Vec::new();
        let mut i: usize = 0;
        while i < n_out_exec
            invariant
                self.wf(),
                query.wf(),
                chunk == query.expansion@.len(),
                n_out * chunk == self.evals@.len(),
                n_out_exec == n_out,
                self.evals@.len() <= usize::MAX,
                chunk >= 1,
                i <= n_out,
                out@.len() == i,
                wf_scalars(out@),
                forall|j: int|
                    0 <= j < i ==> (#[trigger] out@[j])@ == inner_prod(
                        vals(query.expansion@),
                        self.values(),
                        j * chunk,
                        chunk as nat,
                    ),
            decreases n_out_exec - i,
        {
            proof {
                lemma_mul_inequality(i as int + 1, n_out as int, chunk as int);
                assert(i * chunk + chunk == (i + 1) * chunk) by {
                    vstd::arithmetic::mul::lemma_mul_is_distributive_add_other_way(
                        chunk as int,
                        i as int,
                        1,
                    );
                }
            }
            let base = i * chunk;
            out.push(tensor_inner_product(&query.expansion, &self.evals, base));
            i = i + 1;
        }
        proof {
            assert(vals(out@) =~= partial_eval_low(self.values(), vals(query.expansion@)));
        }
        Ok(MultilinearExtension { n_vars: out_vars, evals: out })
    }

    /// Evaluate the multilinear at a full query point.
    pub fn evaluate(&self, query: &MultilinearQuery) -> (r: Result<Scalar, Error>)
        requires
            self.wf(),
            query.wf(),
        ensures
            r is Ok <==> query.n_vars == self.n_vars,
            r is Ok ==> r->Ok_0.wf() && r->Ok_0@ == inner_prod(
                vals(query.expansion@),
                self.values(),
                0,
                self.evals@.len() as nat,
            ),
            r is Err ==> r->Err_0 == Error::IncorrectNumberOfVariables,
    {
        if query.n_vars() != self.n_vars {
            return Err(Error::IncorrectNumberOfVariables);
        }
        Ok(tensor_inner_product(&query.expansion, &self.evals, 0))
    }
}

/// A table folded by a single challenge: each adjacent pair collapses to
/// its line through the challenge.
pub open spec fn fold_once(e: Seq<int>, c: int) -> Seq<int> {
    Seq::new(
        e.len() / 2,
        |i: int|
            fadd_int(fmul_int(fsub_int(1, c), e[2 * i]), fmul_int(c, e[2 * i + 1])),
    )
}

/// The entries at even hypercube vertices.
pub open spec fn even_entries(e: Seq<int>) -> Seq<int> {
    Seq::new(e.len() / 2, |i: int| e[2 * i])
}

/// The entries at odd hypercube vertices.
pub open spec fn odd_entries(e: Seq<int>) -> Seq<int> {
    Seq::new(e.len() / 2, |i: int| e[2 * i + 1])
}

/// Partial evaluation against a single-challenge tensor is exactly the
/// pairwise fold.
pub proof fn lemma_partial_eval_is_fold_once(e: Seq<int>, c: int)
    requires
        crate::univariate::wf_vals(e),
        crate::field::reduced(c),
    ensures
        partial_eval_low(e, tensor_expand(seq![c])) == fold_once(e, c),
{
    let t = tensor_expand(seq![c]);
    assert(seq![c].drop_last() =~= Seq::<int>::empty());
    assert(tensor_expand(seq![c].drop_last()) =~= seq![1int]);
    assert(seq![c].last() == c);
    vstd::arithmetic::div_mod::lemma_mod_bound(1 - c, crate::field::field_p());
    crate::field::lemma_small_mod_identity(fsub_int(1, c));
    assert(t.len() == 2);
    assert(t[0] == fmul_int(1, fsub_int(1, c)));
    assert(t[1] == fmul_int(1, c));
    assert(1 * fsub_int(1, c) == fsub_int(1, c));
    assert(1 * c == c);
    crate::field::lemma_small_mod_identity(c);
    assert(t[0] == fsub_int(1, c));
    assert(t[1] == c);
    assert forall|i: int|
        0 <= i < e.len() / 2 implies #[trigger] partial_eval_low(e, t)[i] == fold_once(
        e,
        c,
    )[i] by {
        let f0 = fmul_int(fsub_int(1, c), e[2 * i]);
        let f1 = fmul_int(c, e[2 * i + 1]);
        assert(inner_prod(t, e, i * 2, 2) == fadd_int(inner_prod(t, e, i * 2, 1), fmul_int(
            t[1],
            e[i * 2 + 1],
        )));
        assert(inner_prod(t, e, i * 2, 0) == 0);
        assert(inner_prod(t, e, i * 2, 1) == fadd_int(0, fmul_int(t[0], e[i * 2])));
        vstd::arithmetic::div_mod::lemma_mod_bound(
            fsub_int(1, c) * e[2 * i],
            crate::field::field_p(),
        );
        crate::field::lemma_small_mod_identity(f0);
        assert(fadd_int(0, f0) == f0);
        crate::field::lemma_fmul_comm(fsub_int(1, c), e[2 * i]);
        crate::field::lemma_fmul_comm(c, e[2 * i + 1]);
        assert(i * 2 == 2 * i);
    }
    assert(partial_eval_low(e, t) =~= fold_once(e, c));
}

/// The key algebraic step of the fold-evaluate equivalence: one pair's
/// folded value added to a line evaluation is again a line evaluation,
/// with the pair folded into the endpoints.
proof fn lemma_extrapolate_add_pair(e0: int, e1: int, a: int, b: int, c: int)
    ensures
        fadd_int(
            fadd_int(fmul_int(fsub_int(1, c), e0), fmul_int(c, e1)),
            crate::domain::extrapolate_line_int(a, b, c),
        ) == crate::domain::extrapolate_line_int(fadd_int(e0, a), fadd_int(e1, b), c),
{
    let p = crate::field::field_p();
    crate::field::lemma_mod_twice_p(1 - c);
    crate::field::lemma_mul_congruence(fsub_int(1, c), 1 - c, e0, e0);
    crate::field::lemma_mod_twice_p(fsub_int(1, c) * e0);
    crate::field::lemma_mod_twice_p(c * e1);
    crate::field::lemma_add_congruence(
        fmul_int(fsub_int(1, c), e0),
        (1 - c) * e0,
        fmul_int(c, e1),
        c * e1,
    );
    // The folded pair is congruent to (1 - c) e0 + c e1.
    let h = fadd_int(fmul_int(fsub_int(1, c), e0), fmul_int(c, e1));
    crate::field::lemma_mod_twice_p(((1 - c) * e0 + c * e1));
    assert(h % p == ((1 - c) * e0 + c * e1) % p);
    // The line evaluation is congruent to a + (b - a) c.
    crate::field::lemma_mod_twice_p(b - a);
    crate::field::lemma_mul_congruence(fsub_int(b, a), b - a, c, c);
    crate::field::lemma_mod_twice_p(fsub_int(b, a) * c);
    crate::field::lemma_add_congruence(a, a, fmul_int(fsub_int(b, a), c), (b - a) * c);
    let ex = crate::domain::extrapolate_line_int(a, b, c);
    assert(ex % p == (a + (b - a) * c) % p);
    // So the left-hand side is congruent to the flat integer form.
    crate::field::lemma_mod_twice_p(h);
    crate::field::lemma_mod_twice_p(ex);
    crate::field::lemma_add_congruence(h, (1 - c) * e0 + c * e1, ex, a + (b - a) * c);
    let lhs = fadd_int(h, ex);
    assert(lhs % p == ((1 - c) * e0 + c * e1 + (a + (b - a) * c)) % p);
    // The right-hand side flattens to the same integer form.
    crate::field::lemma_mod_twice_p(e0 + a);
    crate::field::lemma_mod_twice_p(e1 + b);
    crate::field::lemma_sub_congruence(fadd_int(e1, b), e1 + b, fadd_int(e0, a), e0 + a);
    crate::field::lemma_mod_twice_p((e1 + b) - (e0 + a));
    crate::field::lemma_mul_congruence(
        fsub_int(fadd_int(e1, b), fadd_int(e0, a)),
        (e1 + b) - (e0 + a),
        c,
        c,
    );
    crate::field::lemma_mod_twice_p(fsub_int(fadd_int(e1, b), fadd_int(e0, a)) * c);
    crate::field::lemma_add_congruence(
        fadd_int(e0, a),
        e0 + a,
        fmul_int(fsub_int(fadd_int(e1, b), fadd_int(e0, a)), c),
        ((e1 + b) - (e0 + a)) * c,
    );
    let rhs = crate::domain::extrapolate_line_int(fadd_int(e0, a), fadd_int(e1, b), c);
    assert(rhs % p == ((e0 + a) + ((e1 + b) - (e0 + a)) * c) % p);
    assert((1 - c) * e0 + c * e1 + (a + (b - a) * c) == (e0 + a) + ((e1 + b) - (e0 + a))
        * c) by (nonlinear_arith);
    vstd::arithmetic::div_mod::lemma_mod_bound(
        h + ex,
        p,
    );
    vstd::arithmetic::div_mod::lemma_mod_bound(
        fadd_int(e0, a) + fmul_int(fsub_int(fadd_int(e1, b), fadd_int(e0, a)), c),
        p,
    );
    crate::field::lemma_small_mod_identity(lhs);
    crate::field::lemma_small_mod_identity(rhs);
}

/// Fold-evaluate equivalence, one round: the hypercube sum of a table
/// folded by a challenge equals the round polynomial — whose value at zero
/// is the even-vertex sum and at one the odd-vertex sum — evaluated at that
/// challenge. Applied round by round, the sum-over-hypercube claim and the
/// point evaluation after folding reduce to one another.
pub proof fn lemma_fold_preserves_sum(e: Seq<int>, c: int)
    requires
        crate::univariate::wf_vals(e),
        e.len() % 2 == 0,
        crate::field::reduced(c),
    ensures
        crate::univariate::fsum(partial_eval_low(e, tensor_expand(seq![c])))
            == crate::domain::extrapolate_line_int(
            crate::univariate::fsum(even_entries(e)),
            crate::univariate::fsum(odd_entries(e)),
            c,
        ),
{
    lemma_partial_eval_is_fold_once(e, c);
    lemma_fold_once_sum(e, c);
}

proof fn lemma_fold_once_sum(e: Seq<int>, c: int)
    requires
        crate::univariate::wf_vals(e),
        e.len() % 2 == 0,
        crate::field::reduced(c),
    ensures
        crate::univariate::fsum(fold_once(e, c)) == crate::domain::extrapolate_line_int(
            crate::univariate::fsum(even_entries(e)),
            crate::univariate::fsum(odd_entries(e)),
            c,
        ),
    decreases e.len(),
{
    let p = crate::field::field_p();
    if e.len() == 0 {
        assert(fold_once(e, c) =~= Seq::<int>::empty());
        assert(even_entries(e) =~= Seq::<int>::empty());
        assert(odd_entries(e) =~= Seq::<int>::empty());
        assert(0 - 0 == 0);
        crate::field::lemma_small_mod_identity(0);
        assert(fsub_int(0, 0) == 0);
        assert(0 * c == 0);
        assert(fmul_int(0, c) == 0);
        assert(fadd_int(0, 0) == 0);
    } else {
        let rest = e.skip(2);
        assert(fold_once(e, c).drop_first() =~= fold_once(rest, c));
        assert(even_entries(e).drop_first() =~= even_entries(rest));
        assert(odd_entries(e).drop_first() =~= odd_entries(rest));
        lemma_fold_once_sum(rest, c);
        let a = crate::univariate::fsum(even_entries(rest));
        let b = crate::univariate::fsum(odd_entries(rest));
        assert(crate::univariate::fsum(fold_once(e, c)) == fadd_int(
            fold_once(e, c)[0],
            crate::domain::extrapolate_line_int(a, b, c),
        ));
        lemma_extrapolate_add_pair(e[0], e[1], a, b, c);
        assert(crate::univariate::fsum(even_entries(e)) == fadd_int(e[0], a));
        assert(crate::univariate::fsum(odd_entries(e)) == fadd_int(e[1], b));
    }
}

/// The equality-indicator multilinear, partially evaluated at the given
/// challenges: its hypercube table is exactly the tensor expansion.
pub fn eq_ind_partial_eval(challenges: &Vec<Scalar>) -> (r: Result<MultilinearExtension, Error>)
    requires
        wf_scalars(challenges@),
    ensures
        r is Ok <==> pow2(challenges@.len()) <= usize::MAX,
        r is Ok ==> r->Ok_0.wf() && r->Ok_0.n_vars == challenges@.len() && r->Ok_0.values()
            == tensor_expand(vals(challenges@)),
        r is Err ==> r->Err_0 == Error::IncorrectNumberOfVariables,
{
    let query = match MultilinearQuery::with_full_query(challenges) {
        Ok(q) => q,
        Err(e) => {
            return Err(e);
        },
    };
    Ok(MultilinearExtension { n_vars: query.n_vars, evals: query.expansion })
}

} // verus!
