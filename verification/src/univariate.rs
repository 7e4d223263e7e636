//! Univariate round polynomials.
//!
//! A round of the protocol exchanges the coefficients of a univariate
//! polynomial with one coefficient omitted; the verifier recovers the missing
//! coefficient from the sum identity. This module gives the evaluation
//! function, the recovery rules, and the proofs that recovery restores the
//! identity.

use vstd::prelude::*;

verus! {

use crate::field::{
    fadd_int, fmul_int, fsub_int, field_p, lemma_fadd_assoc, lemma_fadd_comm,
    lemma_fadd_fsub_cancel, lemma_fmul_distrib, lemma_fmul_distrib_sub,
    lemma_small_mod_identity, reduced, Scalar,
};
use vstd::arithmetic::div_mod::lemma_mod_bound;

/// The integer representatives of a sequence of scalars.
pub open spec fn vals(s: Seq<Scalar>) -> Seq<int> {
    Seq::new(s.len(), |i: int| s[i]@)
}

/// Every scalar of the sequence is reduced.
pub open spec fn wf_scalars(s: Seq<Scalar>) -> bool {
    forall|i: int| 0 <= i < s.len() ==> #[trigger] s[i].wf()
}

/// Every integer of the sequence is a reduced representative.
pub open spec fn wf_vals(s: Seq<int>) -> bool {
    forall|i: int| 0 <= i < s.len() ==> reduced(#[trigger] s[i])
}

/// Evaluation of a coefficient list `c[0] + c[1] x + c[2] x^2 + ...` at `x`.
pub open spec fn eval_uni(c: Seq<int>, x: int) -> int
    decreases c.len(),
{
    if c.len() == 0 {
        0
    } else {
        fadd_int(c[0], fmul_int(x, eval_uni(c.drop_first(), x)))
    }
}

/// The field sum of a sequence of representatives.
pub open spec fn fsum(c: Seq<int>) -> int
    decreases c.len(),
{
    if c.len() == 0 {
        0
    } else {
        fadd_int(c[0], fsum(c.drop_first()))
    }
}

pub proof fn lemma_wf_vals(s: Seq<Scalar>)
    requires
        wf_scalars(s),
    ensures
        wf_vals(vals(s)),
{
    assert forall|i: int| 0 <= i < vals(s).len() implies reduced(#[trigger] vals(s)[i]) by {
        assert(s[i].wf());
    }
}

pub proof fn lemma_eval_uni_reduced(c: Seq<int>, x: int)
    ensures
        c.len() == 0 ==> eval_uni(c, x) == 0,
        c.len() > 0 ==> reduced(eval_uni(c, x)),
    decreases c.len(),
{
    if c.len() > 0 {
        lemma_mod_bound(c[0] + fmul_int(x, eval_uni(c.drop_first(), x)), field_p());
    }
}

pub proof fn lemma_fsum_reduced(c: Seq<int>)
    ensures
        c.len() == 0 ==> fsum(c) == 0,
        c.len() > 0 ==> reduced(fsum(c)),
    decreases c.len(),
{
    if c.len() > 0 {
        lemma_mod_bound(c[0] + fsum(c.drop_first()), field_p());
    }
}

/// Evaluating at zero yields the constant coefficient.
pub proof fn lemma_eval_uni_zero(c: Seq<int>)
    requires
        c.len() > 0,
        wf_vals(c),
    ensures
        eval_uni(c, 0) == c[0],
{
    assert(fmul_int(0, eval_uni(c.drop_first(), 0)) == 0) by {
        assert(0 * eval_uni(c.drop_first(), 0) == 0);
    }
    lemma_small_mod_identity(c[0]);
}

/// Evaluating at one yields the sum of the coefficients.
pub proof fn lemma_eval_uni_one(c: Seq<int>)
    ensures
        eval_uni(c, 1) == fsum(c),
    decreases c.len(),
{
    if c.len() > 0 {
        lemma_eval_uni_one(c.drop_first());
        let r = eval_uni(c.drop_first(), 1);
        lemma_eval_uni_reduced(c.drop_first(), 1);
        assert(reduced(r)) by {
            if c.drop_first().len() == 0 {
                assert(r == 0);
            }
        }
        assert(1 * r == r);
        lemma_small_mod_identity(r);
        assert(fmul_int(1, r) == r);
    }
}

/// Appending an element adds it to the field sum.
pub proof fn lemma_fsum_push(c: Seq<int>, x: int)
    requires
        reduced(x),
    ensures
        fsum(c.push(x)) == fadd_int(fsum(c), x),
    decreases c.len(),
{
    if c.len() == 0 {
        assert(c.push(x).drop_first() =~= Seq::<int>::empty());
        assert(fsum(c.push(x).drop_first()) == 0);
        assert(c.push(x)[0] == x);
        assert(fsum(c.push(x)) == fadd_int(x, 0));
        lemma_small_mod_identity(x);
        assert(fsum(c) == 0);
        lemma_fadd_comm(0, x);
    } else {
        assert(c.push(x).drop_first() =~= c.drop_first().push(x));
        lemma_fsum_push(c.drop_first(), x);
        lemma_fadd_assoc(c[0], fsum(c.drop_first()), x);
    }
}

/// The coefficient the regular sumcheck verifier recovers: the unique top
/// coefficient making the round polynomial satisfy `s = r(0) + r(1)`.
pub open spec fn recover_top_coeff(s: int, c: Seq<int>) -> int {
    fsub_int(fsub_int(s, c[0]), fsum(c))
}

/// The truncated coefficients with the recovered top coefficient appended.
pub open spec fn with_recovered_top(s: int, c: Seq<int>) -> Seq<int> {
    c.push(recover_top_coeff(s, c))
}

/// The coefficient the zerocheck verifier recovers for rounds after the
/// first: the constant coefficient satisfying
/// `s = alpha * r(1) + (1 - alpha) * r(0)`.
pub open spec fn recover_zc_const_coeff(s: int, alpha: int, c: Seq<int>) -> int {
    fsub_int(s, fmul_int(alpha, fsum(c)))
}

/// The truncated coefficients with the recovered constant prepended.
pub open spec fn with_recovered_zc_const(s: int, alpha: int, c: Seq<int>) -> Seq<int> {
    seq![recover_zc_const_coeff(s, alpha, c)] + c
}

/// Sum identity, regular sumcheck: recovering the top coefficient from the
/// claimed sum makes the full round polynomial satisfy `r(0) + r(1) = s`.
pub proof fn lemma_sum_identity(s: int, c: Seq<int>)
    requires
        reduced(s),
        wf_vals(c),
        c.len() >= 1,
    ensures
        fadd_int(
            eval_uni(with_recovered_top(s, c), 0),
            eval_uni(with_recovered_top(s, c), 1),
        ) == s,
{
    let top = recover_top_coeff(s, c);
    let full = with_recovered_top(s, c);
    lemma_mod_bound(fsub_int(s, c[0]) - fsum(c), field_p());
    assert(wf_vals(full));
    lemma_eval_uni_zero(full);
    lemma_eval_uni_one(full);
    lemma_fsum_push(c, top);
    let t = fsum(c);
    lemma_fsum_reduced(c);
    lemma_mod_bound(s - c[0], field_p());
    // fadd(t, fsub(fsub(s, c0), t)) == fsub(s, c0)
    lemma_fadd_comm(t, fsub_int(fsub_int(s, c[0]), t));
    lemma_fadd_fsub_cancel(fsub_int(s, c[0]), t);
    // fadd(c0, fsub(s, c0)) == s
    lemma_fadd_comm(c[0], fsub_int(s, c[0]));
    lemma_fadd_fsub_cancel(s, c[0]);
}

/// Sum identity, zerocheck later rounds: recovering the constant coefficient
/// from the claimed sum and the round's zerocheck challenge `alpha` makes the
/// full round polynomial satisfy `alpha * r(1) + (1 - alpha) * r(0) = s`.
pub proof fn lemma_zc_sum_identity(s: int, alpha: int, c: Seq<int>)
    requires
        reduced(s),
        reduced(alpha),
        wf_vals(c),
        c.len() >= 1,
    ensures
        fadd_int(
            fmul_int(alpha, eval_uni(with_recovered_zc_const(s, alpha, c), 1)),
            fmul_int(
                fsub_int(1, alpha),
                eval_uni(with_recovered_zc_const(s, alpha, c), 0),
            ),
        ) == s,
{
    let t = fsum(c);
    lemma_fsum_reduced(c);
    let a0 = recover_zc_const_coeff(s, alpha, c);
    lemma_mod_bound(s - fmul_int(alpha, t), field_p());
    let full = with_recovered_zc_const(s, alpha, c);
    assert(wf_vals(full)) by {
        assert(forall|i: int| 0 <= i < c.len() ==> full[i + 1] == c[i]);
    }
    lemma_eval_uni_zero(full);
    assert(eval_uni(full, 0) == a0);
    lemma_eval_uni_one(full);
    assert(full.drop_first() =~= c);
    assert(fsum(full) == fadd_int(a0, t));
    // alpha * fadd(a0, t) == fadd(alpha a0, alpha t)
    lemma_fmul_distrib(alpha, a0, t);
    let aa0 = fmul_int(alpha, a0);
    let at = fmul_int(alpha, t);
    lemma_mod_bound(alpha * a0, field_p());
    lemma_mod_bound(alpha * t, field_p());
    // (1 - alpha) * a0 == fsub(a0, alpha a0)
    assert(fmul_int(fsub_int(1, alpha), a0) == fsub_int(a0, aa0)) by {
        crate::field::lemma_fmul_comm(fsub_int(1, alpha), a0);
        lemma_fmul_distrib_sub(a0, 1, alpha);
        assert(a0 * 1 == a0);
        lemma_small_mod_identity(a0);
        crate::field::lemma_fmul_comm(a0, alpha);
    }
    // fadd(fadd(aa0, at), fsub(a0, aa0)) == fadd(at, a0)
    lemma_fadd_comm(aa0, at);
    lemma_fadd_assoc(at, aa0, fsub_int(a0, aa0));
    lemma_fadd_comm(aa0, fsub_int(a0, aa0));
    lemma_fadd_fsub_cancel(a0, aa0);
    // fadd(at, a0) == fadd(a0, at) == s
    lemma_fadd_comm(at, a0);
    lemma_fadd_comm(a0, at);
    lemma_fadd_fsub_cancel(s, at);
}

/// Appending a scalar appends its representative.
pub proof fn lemma_vals_push(s: Seq<Scalar>, x: Scalar)
    ensures
        vals(s.push(x)) == vals(s).push(x@),
{
    assert(vals(s.push(x)) =~= vals(s).push(x@));
}

/// The field sum of a vector of scalars.
pub fn fsum_scalars(v: &Vec<Scalar>) -> (r: Scalar)
    requires
        wf_scalars(v@),
    ensures
        r.wf(),
        r@ == fsum(vals(v@)),
        v@.len() == 0 ==> r@ == 0,
        v@.len() > 0 ==> reduced(r@),
{
    let ghost cv = vals(v@);
    let mut acc = Scalar::zero();
    let mut i: usize = 0;
    assert(cv.take(0) =~= Seq::<int>::empty());
    while i < v.len()
        invariant
            wf_scalars(v@),
            acc.wf(),
            i <= v.len(),
            cv == vals(v@),
            acc@ == fsum(cv.take(i as int)),
        decreases v.len() - i,
    {
        proof {
            assert(v@[i as int].wf());
            assert(cv.take(i as int).push(cv[i as int]) =~= cv.take(i as int + 1));
            lemma_fsum_reduced(cv.take(i as int));
            lemma_fsum_push(cv.take(i as int), cv[i as int]);
        }
        acc = acc.add(v[i]);
        i = i + 1;
    }
    assert(cv.take(v@.len() as int) =~= cv);
    proof {
        lemma_fsum_reduced(cv);
    }
    acc
}

/// Evaluate a coefficient list at a point, by Horner's rule.
pub fn evaluate_univariate(coeffs: &Vec<Scalar>, x: Scalar) -> (r: Scalar)
    requires
        wf_scalars(coeffs@),
        x.wf(),
    ensures
        r.wf(),
        r@ == eval_uni(vals(coeffs@), x@),
{
    let mut acc = Scalar::zero();
    let ghost cv = vals(coeffs@);
    let mut j: usize = coeffs.len();
    assert(cv.subrange(j as int, cv.len() as int) =~= Seq::<int>::empty());
    while j > 0
        invariant
            wf_scalars(coeffs@),
            x.wf(),
            acc.wf(),
            j <= coeffs.len(),
            cv == vals(coeffs@),
            j < coeffs.len() ==> reduced(acc@),
            acc@ == eval_uni(cv.subrange(j as int, cv.len() as int), x@),
        decreases j,
    {
        j = j - 1;
        assert(cv.subrange(j as int, cv.len() as int).drop_first() =~= cv.subrange(
            j as int + 1,
            cv.len() as int,
        ));
        acc = coeffs[j].add(x.mul(acc));
    }
    assert(cv.subrange(0, cv.len() as int) =~= cv);
    acc
}

} // verus!
