//! The scalar field the protocol works over.
//!
//! The engine treats scalars as an opaque algebra satisfying the field
//! axioms; this module realizes that algebra as the prime field of
//! `FIELD_MODULUS` elements, small enough that every operation is exact
//! machine arithmetic.

use vstd::prelude::*;

verus! {

use vstd::arithmetic::div_mod::{
    lemma_add_mod_noop, lemma_mod_add_multiples_vanish, lemma_mod_bound,
    lemma_mul_mod_noop_general, lemma_sub_mod_noop,
};
use vstd::arithmetic::mul::{lemma_mul_is_associative, lemma_mul_is_distributive_add,
    lemma_mul_is_distributive_sub};

/// The prime modulus of the scalar field.
pub const FIELD_MODULUS: u64 = 97;

/// The modulus as a mathematical integer.
pub open spec fn field_p() -> int {
    FIELD_MODULUS as int
}

/// Field addition on integer representatives.
pub open spec fn fadd_int(a: int, b: int) -> int {
    (a + b) % field_p()
}

/// Field subtraction on integer representatives.
pub open spec fn fsub_int(a: int, b: int) -> int {
    (a - b) % field_p()
}

/// Field multiplication on integer representatives.
pub open spec fn fmul_int(a: int, b: int) -> int {
    (a * b) % field_p()
}

/// Field negation on integer representatives.
pub open spec fn fneg_int(a: int) -> int {
    (0 - a) % field_p()
}

/// A scalar is reduced when its representative lies in `[0, FIELD_MODULUS)`.
pub open spec fn reduced(a: int) -> bool {
    0 <= a < field_p()
}

/// Whether a representative has a multiplicative inverse.
pub open spec fn has_inv(a: int) -> bool {
    exists|y: int| reduced(y) && fmul_int(a, y) == 1
}

/// The multiplicative inverse of a representative, where one exists.
pub open spec fn finv_int(a: int) -> int {
    choose|y: int| reduced(y) && fmul_int(a, y) == 1
}

/// Inverses are unique.
pub proof fn lemma_inv_unique(a: int, y1: int, y2: int)
    requires
        reduced(y1),
        reduced(y2),
        fmul_int(a, y1) == 1,
        fmul_int(a, y2) == 1,
    ensures
        y1 == y2,
{
    // y1 == y1 * (a * y2) == (y1 * a) * y2 == y2  (mod p)
    lemma_fmul_assoc(y1, a, y2);
    lemma_fmul_comm(y1, a);
    lemma_fmul_comm(a, y2);
    lemma_small_mod_identity(y1);
    lemma_small_mod_identity(y2);
    vstd::arithmetic::div_mod::lemma_mul_mod_noop_general(y1, 1, field_p());
    vstd::arithmetic::div_mod::lemma_mul_mod_noop_general(1, y2, field_p());
    assert(fmul_int(y1, 1) == y1);
    assert(fmul_int(1, y2) == y2);
    assert(fmul_int(y1, fmul_int(a, y2)) == fmul_int(fmul_int(y1, a), y2));
}

/// An element of the scalar field.
#[derive(Clone, Copy, Debug, PartialEq, Eq, Structural)]
pub struct Scalar {
    pub v: u64,
}

impl View for Scalar {
    type V = int;

    open spec fn view(&self) -> int {
        self.v as int
    }
}

impl Scalar {
    /// Well-formedness: the representative is reduced modulo the field prime.
    pub open spec fn wf(self) -> bool {
        self.v < FIELD_MODULUS
    }

    /// The additive identity.
    pub fn zero() -> (r: Scalar)
        ensures
            r.wf(),
            r@ == 0,
    {
        Scalar { v: 0 }
    }

    /// The multiplicative identity.
    pub fn one() -> (r: Scalar)
        ensures
            r.wf(),
            r@ == 1,
    {
        Scalar { v: 1 }
    }

    /// Embed an arbitrary machine integer into the field by reduction.
    pub fn from_u64(x: u64) -> (r: Scalar)
        ensures
            r.wf(),
            r@ == (x as int) % field_p(),
    {
        Scalar { v: x % FIELD_MODULUS }
    }

    /// Field addition.
    pub fn add(self, rhs: Scalar) -> (r: Scalar)
        requires
            self.wf(),
            rhs.wf(),
        ensures
            r.wf(),
            r@ == fadd_int(self@, rhs@),
    {
        Scalar { v: (self.v + rhs.v) % FIELD_MODULUS }
    }

    /// Field subtraction.
    pub fn sub(self, rhs: Scalar) -> (r: Scalar)
        requires
            self.wf(),
            rhs.wf(),
        ensures
            r.wf(),
            r@ == fsub_int(self@, rhs@),
    {
        proof {
            lemma_mod_add_multiples_vanish(self@ - rhs@, field_p());
        }
        Scalar { v: (self.v + FIELD_MODULUS - rhs.v) % FIELD_MODULUS }
    }

    /// Field negation.
    pub fn neg(self) -> (r: Scalar)
        requires
            self.wf(),
        ensures
            r.wf(),
            r@ == fneg_int(self@),
    {
        proof {
            lemma_mod_add_multiples_vanish(0 - self@, field_p());
        }
        Scalar { v: (FIELD_MODULUS - self.v) % FIELD_MODULUS }
    }

    /// Field multiplication.
    pub fn mul(self, rhs: Scalar) -> (r: Scalar)
        requires
            self.wf(),
            rhs.wf(),
        ensures
            r.wf(),
            r@ == fmul_int(self@, rhs@),
    {
        assert(self.v * rhs.v < 97 * 97) by (nonlinear_arith)
            requires
                self.v < 97,
                rhs.v < 97,
        ;
        Scalar { v: (self.v * rhs.v) % FIELD_MODULUS }
    }

    /// Multiplicative inverse, when one exists.
    ///
    /// Searches the (small) field exhaustively, so the contract can state an
    /// exact equivalence: an inverse is returned precisely when one exists.
    pub fn inv(self) -> (r: Option<Scalar>)
        requires
            self.wf(),
        ensures
            r is Some ==> r->0.wf() && fmul_int(self@, r->0@) == 1 && r->0@ == finv_int(self@),
            r is Some <==> has_inv(self@),
    {
        let mut i: u64 = 0;
        while i < FIELD_MODULUS
            invariant
                self.wf(),
                i <= FIELD_MODULUS,
                forall|y: int| 0 <= y < i ==> fmul_int(self@, y) != 1,
            decreases FIELD_MODULUS - i,
        {
            assert(self.v * i < 97 * 97) by (nonlinear_arith)
                requires
                    self.v < 97,
                    i < 97,
            ;
            if (self.v * i) % FIELD_MODULUS == 1 {
                assert(reduced(i as int) && fmul_int(self@, i as int) == 1);
                proof {
                    lemma_inv_unique(self@, i as int, finv_int(self@));
                }
                return Some(Scalar { v: i });
            }
            i = i + 1;
        }
        None
    }
}

/// Addition commutes.
pub proof fn lemma_fadd_comm(a: int, b: int)
    ensures
        fadd_int(a, b) == fadd_int(b, a),
{
}

/// Addition is associative on representatives.
#[verifier::rlimit(50)]
pub proof fn lemma_fadd_assoc(a: int, b: int, c: int)
    ensures
        fadd_int(fadd_int(a, b), c) == fadd_int(a, fadd_int(b, c)),
{
    lemma_add_mod_noop(a + b, c, field_p());
    lemma_add_mod_noop(a, b + c, field_p());
    lemma_mod_bound(a + b, field_p());
    lemma_mod_bound(b + c, field_p());
    lemma_small_mod_identity(fadd_int(a, b));
    lemma_small_mod_identity(fadd_int(b, c));
}

/// A reduced integer is its own remainder.
pub proof fn lemma_small_mod_identity(a: int)
    requires
        reduced(a),
    ensures
        a % field_p() == a,
{
    vstd::arithmetic::div_mod::lemma_small_mod(a as nat, FIELD_MODULUS as nat);
}

/// Multiplication commutes.
pub proof fn lemma_fmul_comm(a: int, b: int)
    ensures
        fmul_int(a, b) == fmul_int(b, a),
{
}

/// Multiplication is associative on representatives.
pub proof fn lemma_fmul_assoc(a: int, b: int, c: int)
    ensures
        fmul_int(fmul_int(a, b), c) == fmul_int(a, fmul_int(b, c)),
{
    lemma_mul_mod_noop_general(a * b, c, field_p());
    lemma_mul_mod_noop_general(a, b * c, field_p());
    lemma_mul_is_associative(a, b, c);
}

/// Multiplication distributes over addition.
pub proof fn lemma_fmul_distrib(a: int, b: int, c: int)
    ensures
        fmul_int(a, fadd_int(b, c)) == fadd_int(fmul_int(a, b), fmul_int(a, c)),
{
    lemma_mul_mod_noop_general(a, b + c, field_p());
    lemma_mul_is_distributive_add(a, b, c);
    lemma_add_mod_noop(a * b, a * c, field_p());
}

/// Multiplication distributes over subtraction.
pub proof fn lemma_fmul_distrib_sub(a: int, b: int, c: int)
    ensures
        fmul_int(a, fsub_int(b, c)) == fsub_int(fmul_int(a, b), fmul_int(a, c)),
{
    lemma_mul_mod_noop_general(a, b - c, field_p());
    lemma_mul_is_distributive_sub(a, b, c);
    lemma_sub_mod_noop(a * b, a * c, field_p());
}

/// Congruent operands give congruent sums.
pub proof fn lemma_add_congruence(x1: int, x2: int, y1: int, y2: int)
    requires
        x1 % field_p() == x2 % field_p(),
        y1 % field_p() == y2 % field_p(),
    ensures
        (x1 + y1) % field_p() == (x2 + y2) % field_p(),
{
    lemma_add_mod_noop(x1, y1, field_p());
    lemma_add_mod_noop(x2, y2, field_p());
}

/// Congruent operands give congruent differences.
pub proof fn lemma_sub_congruence(x1: int, x2: int, y1: int, y2: int)
    requires
        x1 % field_p() == x2 % field_p(),
        y1 % field_p() == y2 % field_p(),
    ensures
        (x1 - y1) % field_p() == (x2 - y2) % field_p(),
{
    lemma_sub_mod_noop(x1, y1, field_p());
    lemma_sub_mod_noop(x2, y2, field_p());
}

/// Congruent operands give congruent products.
pub proof fn lemma_mul_congruence(x1: int, x2: int, y1: int, y2: int)
    requires
        x1 % field_p() == x2 % field_p(),
        y1 % field_p() == y2 % field_p(),
    ensures
        (x1 * y1) % field_p() == (x2 * y2) % field_p(),
{
    lemma_mul_mod_noop_general(x1, y1, field_p());
    lemma_mul_mod_noop_general(x2, y2, field_p());
}

/// A remainder is its own remainder.
pub proof fn lemma_mod_twice_p(x: int)
    ensures
        (x % field_p()) % field_p() == x % field_p(),
{
    vstd::arithmetic::div_mod::lemma_mod_twice(x, field_p());
}

/// Adding then subtracting the same value is the identity on reduced values.
pub proof fn lemma_fadd_fsub_cancel(a: int, b: int)
    requires
        reduced(a),
    ensures
        fsub_int(fadd_int(a, b), b) == a,
        fadd_int(fsub_int(a, b), b) == a,
{
    lemma_sub_mod_noop(a + b, b, field_p());
    lemma_add_mod_noop(a - b, b, field_p());
    lemma_small_mod_identity(a);
}

} // verus!
