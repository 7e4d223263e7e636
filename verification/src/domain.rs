//! Evaluation domains and Lagrange interpolation.
//!
//! The prover computes each round polynomial's evaluations over a fixed
//! domain and interpolates them into monomial coefficients before sending
//! them. The contracts state the result as the Lagrange combination of the
//! basis numerator polynomials, scaled by the inverted denominators; a
//! denominator without an inverse is a reported math/domain error.

use vstd::prelude::*;

verus! {

use crate::common::Error;
use crate::field::{
    fadd_int, finv_int, fmul_int, fsub_int, has_inv, Scalar,
};
use crate::univariate::{eval_uni, vals, wf_scalars};

/// The all-zero coefficient list of the given length.
pub open spec fn poly_zero(n: nat) -> Seq<int> {
    Seq::new(n, |k: int| 0int)
}

/// Coefficient-wise sum; the left operand fixes the length.
pub open spec fn poly_add(p: Seq<int>, q: Seq<int>) -> Seq<int> {
    Seq::new(p.len(), |k: int| fadd_int(p[k], q[k]))
}

/// Every coefficient scaled by `s`.
pub open spec fn poly_scale(s: int, p: Seq<int>) -> Seq<int> {
    Seq::new(p.len(), |k: int| fmul_int(s, p[k]))
}

/// The product of `p` with the linear factor `X - a`.
pub open spec fn poly_mul_linear(p: Seq<int>, a: int) -> Seq<int> {
    Seq::new(
        p.len() + 1,
        |k: int|
            fsub_int(
                if k >= 1 {
                    p[k - 1]
                } else {
                    0
                },
                fmul_int(
                    a,
                    if k < p.len() {
                        p[k]
                    } else {
                        0
                    },
                ),
            ),
    )
}

/// The product of the linear factors `X - points[m]` over `m < upto`,
/// skipping `m == j`.
pub open spec fn basis_poly_upto(points: Seq<int>, j: int, upto: nat) -> Seq<int>
    decreases upto,
{
    if upto == 0 {
        seq![1int]
    } else if upto - 1 == j {
        basis_poly_upto(points, j, (upto - 1) as nat)
    } else {
        poly_mul_linear(basis_poly_upto(points, j, (upto - 1) as nat), points[upto - 1])
    }
}

/// The numerator polynomial of the `j`-th Lagrange basis element.
pub open spec fn basis_poly(points: Seq<int>, j: int) -> Seq<int> {
    basis_poly_upto(points, j, points.len())
}

/// The product of `points[j] - points[m]` over `m < upto`, skipping
/// `m == j`.
pub open spec fn denom_upto(points: Seq<int>, j: int, upto: nat) -> int
    decreases upto,
{
    if upto == 0 {
        1
    } else if upto - 1 == j {
        denom_upto(points, j, (upto - 1) as nat)
    } else {
        fmul_int(denom_upto(points, j, (upto - 1) as nat), fsub_int(points[j], points[upto - 1]))
    }
}

/// The denominator of the `j`-th Lagrange basis element.
pub open spec fn denom(points: Seq<int>, j: int) -> int {
    denom_upto(points, j, points.len())
}

/// The `j`-th Lagrange term: the basis numerator scaled by the value and
/// the inverted denominator.
pub open spec fn lagrange_term(points: Seq<int>, values: Seq<int>, j: int) -> Seq<int> {
    poly_scale(fmul_int(values[j], finv_int(denom(points, j))), basis_poly(points, j))
}

/// The partial sum of the first `j` Lagrange terms.
pub open spec fn lagrange_upto(points: Seq<int>, values: Seq<int>, j: nat) -> Seq<int>
    decreases j,
{
    if j == 0 {
        poly_zero(points.len())
    } else {
        poly_add(
            lagrange_upto(points, values, (j - 1) as nat),
            lagrange_term(points, values, j - 1),
        )
    }
}

/// The monomial coefficients of the polynomial interpolating `values` over
/// `points`.
pub open spec fn lagrange_coeffs(points: Seq<int>, values: Seq<int>) -> Seq<int> {
    lagrange_upto(points, values, points.len())
}

/// Linear extrapolation through `(0, x0)` and `(1, x1)`, evaluated at `z`.
pub open spec fn extrapolate_line_int(x0: int, x1: int, z: int) -> int {
    fadd_int(x0, fmul_int(fsub_int(x1, x0), z))
}

/// Linear extrapolation through `(0, x0)` and `(1, x1)`, evaluated at `z`.
pub fn extrapolate_line(x0: Scalar, x1: Scalar, z: Scalar) -> (r: Scalar)
    requires
        x0.wf(),
        x1.wf(),
        z.wf(),
    ensures
        r.wf(),
        r@ == extrapolate_line_int(x0@, x1@, z@),
{
    x0.add(x1.sub(x0).mul(z))
}

/// A list of domain points the round polynomials are evaluated over.
#[derive(Clone, Debug)]
pub struct EvaluationDomain {
    pub points: Vec<Scalar>,
}

impl EvaluationDomain {
    pub open spec fn wf(self) -> bool {
        wf_scalars(self.points@)
    }

    /// The domain points as integer representatives.
    pub open spec fn points_view(self) -> Seq<int> {
        vals(self.points@)
    }

    /// Wrap a list of domain points, rejecting duplicates.
    pub fn from_points(points: Vec<Scalar>) -> (r: Result<EvaluationDomain, Error>)
        requires
            wf_scalars(points@),
        ensures
            r is Ok <==> (forall|a: int, b: int|
                0 <= a < b < points@.len() ==> (#[trigger] points@[a])@ != (#[trigger] points@[b])@),
            r is Ok ==> r->Ok_0.points == points && r->Ok_0.wf(),
            r is Err ==> r->Err_0 == Error::DuplicateDomainPoint,
    {
        let n = points.len();
        let mut a: usize = 0;
        while a < n
            invariant
                wf_scalars(points@),
                n == points@.len(),
                a <= n,
                forall|x: int, y: int|
                    0 <= x < y < points@.len() && x < a ==> (#[trigger] points@[x])@ != (
                    #[trigger] points@[y])@,
            decreases n - a,
        {
            let mut b: usize = a + 1;
            while b < n
                invariant
                    wf_scalars(points@),
                    n == points@.len(),
                    a < b || b == a + 1,
                    a < n,
                    b <= n,
                    forall|y: int|
                        a < y < b ==> (#[trigger] points@[y])@ != points@[a as int]@,
                decreases n - b,
            {
                if points[a].v == points[b].v {
                    return Err(Error::DuplicateDomainPoint);
                }
                b = b + 1;
            }
            a = a + 1;
        }
        Ok(EvaluationDomain { points })
    }

    /// The standard domain `0, 1, ..., size - 1`.
    pub fn standard(size: usize) -> (r: Result<EvaluationDomain, Error>)
        ensures
            r is Ok <==> size as int <= crate::field::field_p(),
            r is Ok ==> r->Ok_0.wf() && r->Ok_0.points@.len() == size && forall|i: int|
                0 <= i < size ==> r->Ok_0.points_view()[i] == i,
            r is Err ==> r->Err_0 == Error::DuplicateDomainPoint,
    {
        if size as u64 > crate::field::FIELD_MODULUS {
            return Err(Error::DuplicateDomainPoint);
        }
        let mut points: Vec<Scalar> = Vec::new();
        let mut i: usize = 0;
        while i < size
            invariant
                size as u64 <= crate::field::FIELD_MODULUS,
                i <= size,
                points@.len() == i,
                wf_scalars(points@),
                forall|j: int| 0 <= j < i ==> (#[trigger] points@[j])@ == j,
            decreases size - i,
        {
            points.push(Scalar { v: i as u64 });
            i = i + 1;
        }
        Ok(EvaluationDomain { points })
    }

    pub fn size(&self) -> (r: usize)
        ensures
            r == self.points@.len(),
    {
        self.points.len()
    }

    /// Interpolate evaluations over the domain into monomial coefficients.
    ///
    /// The result is the Lagrange combination of the basis numerators; a
    /// basis denominator without an inverse (a repeated domain point) is
    /// reported, and a value list of the wrong length rejected.
    pub fn interpolate(&self, values: &Vec<Scalar>) -> (r: Result<Vec<Scalar>, Error>)
        requires
            self.wf(),
            wf_scalars(values@),
        ensures
            r is Ok <==> (values@.len() == self.points@.len() && forall|j: int|
                0 <= j < self.points@.len() ==> has_inv(#[trigger] denom(self.points_view(), j))),
            r is Ok ==> vals(r->Ok_0@) == lagrange_coeffs(self.points_view(), vals(values@))
                && r->Ok_0@.len() == self.points@.len() && wf_scalars(r->Ok_0@),
            r is Err && values@.len() != self.points@.len() ==> r->Err_0
                == Error::EvaluationDomainMismatch,
            r is Err && values@.len() == self.points@.len() ==> r->Err_0
                == Error::NonInvertibleDivisor,
    {
        let n = self.points.len();
        if values.len() != n {
            return Err(Error::EvaluationDomainMismatch);
        }
        let ghost pv = self.points_view();
        let ghost vv = vals(values@);
        let mut acc: Vec<Scalar> = Vec::new();
        let mut k: usize = 0;
        while k < n
            invariant
                k <= n,
                acc@.len() == k,
                wf_scalars(acc@),
                forall|t: int| 0 <= t < k ==> (#[trigger] acc@[t])@ == 0,
            decreases n - k,
        {
            acc.push(Scalar::zero());
            k = k + 1;
        }
        proof {
            assert(vals(acc@) =~= poly_zero(pv.len()));
        }
        let mut j: usize = 0;
        while j < n
            invariant
                self.wf(),
                wf_scalars(values@),
                n == self.points@.len(),
                values@.len() == n,
                pv == self.points_view(),
                vv == vals(values@),
                j <= n,
                acc@.len() == n,
                wf_scalars(acc@),
                vals(acc@) == lagrange_upto(pv, vv, j as nat),
                forall|t: int| 0 <= t < j ==> has_inv(#[trigger] denom(pv, t)),
            decreases n - j,
        {
            // Basis numerator polynomial for index j.
            let mut basis: Vec<Scalar> = Vec::new();
            basis.push(Scalar::one());
            proof {
                assert(vals(basis@) =~= basis_poly_upto(pv, j as int, 0));
            }
            let mut m: usize = 0;
            while m < n
                invariant
                    self.wf(),
                    n == self.points@.len(),
                    pv == self.points_view(),
                    j < n,
                    m <= n,
                    wf_scalars(basis@),
                    vals(basis@) == basis_poly_upto(pv, j as int, m as nat),
                    basis@.len() == basis_poly_upto(pv, j as int, m as nat).len(),
                    basis@.len() <= m + 1,
                decreases n - m,
            {
                if m != j {
                    proof {
                        lemma_basis_poly_upto_len(pv, j as int, m as nat);
                    }
                    let a = self.points[m];
                    let mut next: Vec<Scalar> = Vec::new();
                    let blen = basis.len();
                    assert(blen < n);
                    let mut t: usize = 0;
                    while t < blen + 1
                        invariant
                            wf_scalars(basis@),
                            a.wf(),
                            blen == basis@.len(),
                            blen < usize::MAX,
                            t <= blen + 1,
                            next@.len() == t,
                            wf_scalars(next@),
                            forall|u: int|
                                0 <= u < t ==> (#[trigger] next@[u])@ == poly_mul_linear(
                                    vals(basis@),
                                    a@,
                                )[u],
                        decreases blen + 1 - t,
                    {
                        let lo = if t >= 1 {
                            basis[t - 1]
                        } else {
                            Scalar::zero()
                        };
                        let hi = if t < blen {
                            basis[t]
                        } else {
                            Scalar::zero()
                        };
                        next.push(lo.sub(a.mul(hi)));
                        t = t + 1;
                    }
                    proof {
                        assert(vals(next@) =~= poly_mul_linear(vals(basis@), a@));
                    }
                    basis = next;
                }
                m = m + 1;
            }
            // Denominator product for index j.
            let mut den = Scalar::one();
            let mut m: usize = 0;
            while m < n
                invariant
                    self.wf(),
                    n == self.points@.len(),
                    pv == self.points_view(),
                    j < n,
                    m <= n,
                    den.wf(),
                    den@ == denom_upto(pv, j as int, m as nat),
                decreases n - m,
            {
                if m != j {
                    den = den.mul(self.points[j].sub(self.points[m]));
                }
                m = m + 1;
            }
            let den_inv = match den.inv() {
                Some(d) => d,
                None => {
                    return Err(Error::NonInvertibleDivisor);
                },
            };
            let scale = values[j].mul(den_inv);
            proof {
                assert(scale@ == fmul_int(vv[j as int], finv_int(denom(pv, j as int))));
            }
            // Accumulate the scaled basis term.
            let mut next_acc: Vec<Scalar> = Vec::new();
            let mut t: usize = 0;
            proof {
                assert(basis@.len() == n) by {
                    lemma_basis_poly_len(pv, j as int);
                }
            }
            while t < n
                invariant
                    wf_scalars(acc@),
                    wf_scalars(basis@),
                    scale.wf(),
                    acc@.len() == n,
                    basis@.len() == n,
                    t <= n,
                    next_acc@.len() == t,
                    wf_scalars(next_acc@),
                    forall|u: int|
                        0 <= u < t ==> (#[trigger] next_acc@[u])@ == fadd_int(
                            vals(acc@)[u],
                            fmul_int(scale@, vals(basis@)[u]),
                        ),
                decreases n - t,
            {
                next_acc.push(acc[t].add(scale.mul(basis[t])));
                t = t + 1;
            }
            proof {
                assert(vals(next_acc@) =~= poly_add(
                    vals(acc@),
                    lagrange_term(pv, vv, j as int),
                ));
            }
            acc = next_acc;
            j = j + 1;
        }
        Ok(acc)
    }

    /// Evaluate, at `z`, the polynomial interpolating `values` over the
    /// domain.
    pub fn extrapolate(&self, values: &Vec<Scalar>, z: Scalar) -> (r: Result<Scalar, Error>)
        requires
            self.wf(),
            wf_scalars(values@),
            z.wf(),
        ensures
            r is Ok <==> (values@.len() == self.points@.len() && forall|j: int|
                0 <= j < self.points@.len() ==> has_inv(#[trigger] denom(self.points_view(), j))),
            r is Ok ==> r->Ok_0.wf() && r->Ok_0@ == eval_uni(
                lagrange_coeffs(self.points_view(), vals(values@)),
                z@,
            ),
            r is Err && values@.len() != self.points@.len() ==> r->Err_0
                == Error::EvaluationDomainMismatch,
            r is Err && values@.len() == self.points@.len() ==> r->Err_0
                == Error::NonInvertibleDivisor,
    {
        let coeffs = match self.interpolate(values) {
            Ok(c) => c,
            Err(e) => {
                return Err(e);
            },
        };
        Ok(crate::univariate::evaluate_univariate(&coeffs, z))
    }
}

/// The interpolated coefficient list has one coefficient per domain point.
pub proof fn lemma_lagrange_len(points: Seq<int>, values: Seq<int>)
    ensures
        lagrange_coeffs(points, values).len() == points.len(),
{
    lemma_lagrange_upto_len(points, values, points.len());
}

proof fn lemma_lagrange_upto_len(points: Seq<int>, values: Seq<int>, j: nat)
    ensures
        lagrange_upto(points, values, j).len() == points.len(),
    decreases j,
{
    if j > 0 {
        lemma_lagrange_upto_len(points, values, (j - 1) as nat);
    }
}

/// The basis numerator over all points has exactly one coefficient per
/// domain point.
pub proof fn lemma_basis_poly_len(points: Seq<int>, j: int)
    requires
        0 <= j < points.len(),
    ensures
        basis_poly(points, j).len() == points.len(),
{
    lemma_basis_poly_upto_len(points, j, points.len());
}

proof fn lemma_basis_poly_upto_len(points: Seq<int>, j: int, upto: nat)
    requires
        0 <= j,
    ensures
        basis_poly_upto(points, j, upto).len() == if j < upto {
            upto
        } else {
            upto + 1
        },
    decreases upto,
{
    if upto > 0 {
        lemma_basis_poly_upto_len(points, j, (upto - 1) as nat);
    }
}

/// An evaluation domain fits a claim when it has one point more than the
/// claimed degree.
pub fn check_evaluation_domain(degree: usize, domain: &EvaluationDomain) -> (r: Result<
    (),
    Error,
>)
    ensures
        r is Ok <==> domain.points@.len() == degree + 1,
        r is Err ==> r->Err_0 == Error::EvaluationDomainMismatch,
{
    if domain.size() > 0 && domain.size() - 1 == degree {
        Ok(())
    } else {
        Err(Error::EvaluationDomainMismatch)
    }
}

} // verus!
