//! The product-check reduction: turning a claim "the multiset of T's values
//! equals the multiset of U's values, via a grand product" into one
//! zerocheck claim over a simple multiplication gate and one evaluation
//! claim on the grand product polynomial.

use vstd::prelude::*;

verus! {

use crate::common::{Error, EvalcheckClaim, ZerocheckClaim};
use crate::composition::{MultilinearComposite, SimpleMultGateComposition};
use crate::field::Scalar;
use crate::multilinear::MultilinearExtension;
use crate::oracle::{CompositePolyOracle, MultilinearPolyOracle};

/// The claims a product check reduces to.
#[derive(Clone, Debug)]
pub struct ReducedProductCheckClaims {
    pub t_prime_claim: ZerocheckClaim,
    pub grand_product_poly_claim: EvalcheckClaim,
}

/// The witnesses matching the reduced claims.
#[derive(Clone, Debug)]
pub struct ReducedProductCheckWitnesses {
    pub t_prime_witness: MultilinearComposite<SimpleMultGateComposition>,
    pub grand_product_poly_witness: MultilinearExtension,
}

/// What a product-check prover hands on: the reduced claims and their
/// witnesses.
#[derive(Clone, Debug)]
pub struct ProdcheckProveOutput {
    pub reduced_product_check_claims: ReducedProductCheckClaims,
    pub reduced_product_check_witnesses: ReducedProductCheckWitnesses,
}

/// A product-check claim: the products of T's and U's values agree.
#[derive(Clone, Debug)]
pub struct ProdcheckClaim {
    /// Oracle to the polynomial T.
    pub t_oracle: MultilinearPolyOracle,
    /// Oracle to the polynomial U.
    pub u_oracle: MultilinearPolyOracle,
    /// Number of variables in T and U.
    pub n_vars: usize,
}

impl ProdcheckClaim {
    pub open spec fn wf(self) -> bool {
        &&& self.t_oracle.wf()
        &&& self.u_oracle.wf()
        &&& self.t_oracle.spec_n_vars() == self.n_vars as int
        &&& self.u_oracle.spec_n_vars() == self.n_vars as int
    }
}

/// A product-check witness: the tables behind the two oracles.
#[derive(Clone, Debug)]
pub struct ProdcheckWitness {
    pub t_polynomial: MultilinearExtension,
    pub u_polynomial: MultilinearExtension,
}

/// Reduce a product-check claim to a zerocheck claim on the simple
/// multiplication gate composite `T'`, plus one evaluation claim pinning
/// the grand product polynomial at the point `(0, 1, ..., 1)` to one.
///
/// The three gate inputs come from the grand product oracle `f2`:
/// the merge of `T` with `f'(x, 1)`, the merge of `U` with `f'(0, x)`, and
/// the merge of `f'(x, 0)` with `f'(1, x)`.
pub fn reduce_prodcheck_claim(
    prodcheck_claim: &ProdcheckClaim,
    grand_prod_oracle: MultilinearPolyOracle,
) -> (r: Result<ReducedProductCheckClaims, Error>)
    requires
        prodcheck_claim.wf(),
        grand_prod_oracle.wf(),
        prodcheck_claim.n_vars as int + 1 <= usize::MAX,
    ensures
        r is Ok <==> grand_prod_oracle.spec_n_vars() == prodcheck_claim.n_vars as int + 1,
        r is Err ==> r->Err_0 == Error::IncorrectNumberOfVariables,
        r is Ok ==> {
            let claims = r->Ok_0;
            let f_prime = grand_prod_oracle;
            &&& claims.t_prime_claim.poly.n_vars == prodcheck_claim.n_vars + 1
            &&& claims.t_prime_claim.poly.max_individual_degree == 2
            &&& claims.t_prime_claim.poly.inner@.len() == 3
            &&& claims.t_prime_claim.poly.inner@[0] == (MultilinearPolyOracle::Merged(
                Box::new(prodcheck_claim.t_oracle),
                Box::new(
                    MultilinearPolyOracle::ProjectLastVar {
                        inner: Box::new(f_prime),
                        value: Scalar { v: 1 },
                    },
                ),
            ))
            &&& claims.t_prime_claim.poly.inner@[1] == (MultilinearPolyOracle::Merged(
                Box::new(prodcheck_claim.u_oracle),
                Box::new(
                    MultilinearPolyOracle::ProjectFirstVar {
                        inner: Box::new(f_prime),
                        value: Scalar { v: 0 },
                    },
                ),
            ))
            &&& claims.t_prime_claim.poly.inner@[2] == (MultilinearPolyOracle::Merged(
                Box::new(
                    MultilinearPolyOracle::ProjectLastVar {
                        inner: Box::new(f_prime),
                        value: Scalar { v: 0 },
                    },
                ),
                Box::new(
                    MultilinearPolyOracle::ProjectFirstVar {
                        inner: Box::new(f_prime),
                        value: Scalar { v: 1 },
                    },
                ),
            ))
            &&& claims.grand_product_poly_claim.poly.n_vars == prodcheck_claim.n_vars + 1
            &&& claims.grand_product_poly_claim.poly.inner@ == seq![f_prime]
            &&& claims.grand_product_poly_claim.eval@ == 1
            &&& claims.grand_product_poly_claim.eval_point@.len() == prodcheck_claim.n_vars
                + 1
            &&& claims.grand_product_poly_claim.eval_point@[0]@ == 0
            &&& (forall|i: int|
                1 <= i < claims.grand_product_poly_claim.eval_point@.len()
                    ==> (#[trigger] claims.grand_product_poly_claim.eval_point@[i])@ == 1)
            &&& !claims.grand_product_poly_claim.is_random_point
        },
{
    let n_vars = prodcheck_claim.n_vars;
    let f_prime_oracle = grand_prod_oracle;
    if f_prime_oracle.n_vars() != n_vars + 1 {
        return Err(Error::IncorrectNumberOfVariables);
    }
    // Partially evaluated views of the grand product oracle f'.
    let f_prime_x_zero_oracle = MultilinearPolyOracle::ProjectLastVar {
        inner: Box::new(f_prime_oracle.clone()),
        value: Scalar::zero(),
    };
    let f_prime_x_one_oracle = MultilinearPolyOracle::ProjectLastVar {
        inner: Box::new(f_prime_oracle.clone()),
        value: Scalar::one(),
    };
    let f_prime_zero_x_oracle = MultilinearPolyOracle::ProjectFirstVar {
        inner: Box::new(f_prime_oracle.clone()),
        value: Scalar::zero(),
    };
    let f_prime_one_x_oracle = MultilinearPolyOracle::ProjectFirstVar {
        inner: Box::new(f_prime_oracle.clone()),
        value: Scalar::one(),
    };
    // Build the three composite operands.
    let out_oracle = MultilinearPolyOracle::Merged(
        Box::new(prodcheck_claim.t_oracle.clone()),
        Box::new(f_prime_x_one_oracle),
    );
    let in1_oracle = MultilinearPolyOracle::Merged(
        Box::new(prodcheck_claim.u_oracle.clone()),
        Box::new(f_prime_zero_x_oracle),
    );
    let in2_oracle = MultilinearPolyOracle::Merged(
        Box::new(f_prime_x_zero_oracle),
        Box::new(f_prime_one_x_oracle),
    );
    proof {
        assert(prodcheck_claim.t_oracle.wf());
        assert(prodcheck_claim.t_oracle.spec_n_vars() == n_vars as int);
        assert(f_prime_oracle.spec_n_vars() == n_vars as int + 1);
        assert(f_prime_x_zero_oracle.wf() && f_prime_x_zero_oracle.spec_n_vars()
            == n_vars as int);
        assert(f_prime_x_one_oracle.wf() && f_prime_x_one_oracle.spec_n_vars()
            == n_vars as int);
        assert(f_prime_zero_x_oracle.wf() && f_prime_zero_x_oracle.spec_n_vars()
            == n_vars as int);
        assert(f_prime_one_x_oracle.wf() && f_prime_one_x_oracle.spec_n_vars()
            == n_vars as int);
        assert(out_oracle.wf());
        assert(out_oracle.spec_n_vars() == n_vars as int + 1);
        assert(in1_oracle.wf());
        assert(in1_oracle.spec_n_vars() == n_vars as int + 1);
        assert(in2_oracle.wf());
        assert(in2_oracle.spec_n_vars() == n_vars as int + 1);
    }
    let mut inner: Vec<MultilinearPolyOracle> = Vec::new();
    inner.push(out_oracle);
    inner.push(in1_oracle);
    inner.push(in2_oracle);
    proof {
        assert(forall|i: int| 0 <= i < inner@.len() ==> (#[trigger] inner@[i]).wf());
        assert(forall|i: int|
            0 <= i < inner@.len() ==> (#[trigger] inner@[i]).spec_n_vars() == n_vars as int
                + 1);
    }
    let t_prime_oracle = match CompositePolyOracle::new(n_vars + 1, inner, 2) {
        Ok(o) => o,
        Err(_) => {
            proof {
                assert(false);
            }
            return Err(Error::IncorrectNumberOfVariables);
        },
    };
    let t_prime_claim = ZerocheckClaim { poly: t_prime_oracle };
    // The grand product polynomial evaluates to one at (0, 1, ..., 1).
    let mut grand_prod_eval_point: Vec<Scalar> = Vec::new();
    grand_prod_eval_point.push(Scalar::zero());
    let mut i: usize = 0;
    while i < n_vars
        invariant
            i <= n_vars,
            grand_prod_eval_point@.len() == i + 1,
            grand_prod_eval_point@[0]@ == 0,
            forall|j: int|
                1 <= j < i + 1 ==> (#[trigger] grand_prod_eval_point@[j])@ == 1,
        decreases n_vars - i,
    {
        grand_prod_eval_point.push(Scalar::one());
        i = i + 1;
    }
    let mut f_prime_inner: Vec<MultilinearPolyOracle> = Vec::new();
    f_prime_inner.push(f_prime_oracle);
    let grand_prod_poly = match CompositePolyOracle::new(n_vars + 1, f_prime_inner, 1) {
        Ok(o) => o,
        Err(_) => {
            proof {
                assert(false);
            }
            return Err(Error::IncorrectNumberOfVariables);
        },
    };
    let grand_product_poly_claim = EvalcheckClaim {
        poly: grand_prod_poly,
        eval_point: grand_prod_eval_point,
        eval: Scalar::one(),
        is_random_point: false,
    };
    proof {
        assert(seq![grand_prod_oracle] =~= r_inner_witness(grand_prod_oracle));
    }
    Ok(ReducedProductCheckClaims { t_prime_claim, grand_product_poly_claim })
}

/// The one-element oracle list of the grand product claim.
spec fn r_inner_witness(oracle: MultilinearPolyOracle) -> Seq<MultilinearPolyOracle> {
    seq![oracle]
}

} // verus!
