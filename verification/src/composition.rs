//! Composition polynomials: the pure functions of `k` scalars that combine
//! the multilinears of a composite claim.
//!
//! The engine is generic over this trait; users supply their own
//! compositions. Each implementation carries its mathematical meaning as a
//! spec function, and `evaluate` is proved against it.

use vstd::prelude::*;

verus! {

use crate::common::Error;
use crate::field::{fmul_int, fsub_int, field_p, reduced, Scalar};
use crate::univariate::{vals, wf_scalars};
use vstd::arithmetic::div_mod::lemma_mod_bound;

/// A multivariate polynomial of bounded individual degree, evaluated on
/// scalar tuples.
pub trait CompositionPoly: Sized {
    /// The number of scalar inputs.
    spec fn spec_n_vars(&self) -> nat;

    /// A bound on the degree in each single input.
    spec fn spec_degree(&self) -> nat;

    /// The value of the composition on a tuple of representatives.
    spec fn spec_evaluate(&self, q: Seq<int>) -> int;

    /// The composition always yields a reduced representative.
    proof fn lemma_evaluate_reduced(&self, q: Seq<int>)
        ensures
            reduced(self.spec_evaluate(q)),
    ;

    /// The number of scalar inputs.
    fn n_vars(&self) -> (r: usize)
        ensures
            r as nat == self.spec_n_vars(),
    ;

    /// A bound on the degree in each single input.
    fn degree(&self) -> (r: usize)
        ensures
            r as nat == self.spec_degree(),
    ;

    /// Evaluate the composition on a scalar tuple of the right width.
    fn evaluate(&self, query: &Vec<Scalar>) -> (r: Result<Scalar, Error>)
        requires
            wf_scalars(query@),
        ensures
            r is Ok <==> query@.len() as nat == self.spec_n_vars(),
            r is Ok ==> r->Ok_0.wf() && r->Ok_0@ == self.spec_evaluate(vals(query@)),
            r is Err ==> r->Err_0 == Error::IncorrectQuerySize,
    ;
}

/// The field product of a sequence of representatives.
pub open spec fn fprod(q: Seq<int>) -> int
    decreases q.len(),
{
    if q.len() == 0 {
        1
    } else {
        fmul_int(fprod(q.drop_last()), q.last())
    }
}

pub proof fn lemma_fprod_reduced(q: Seq<int>)
    ensures
        q.len() == 0 ==> fprod(q) == 1,
        q.len() > 0 ==> reduced(fprod(q)),
    decreases q.len(),
{
    if q.len() > 0 {
        lemma_mod_bound(fprod(q.drop_last()) * q.last(), field_p());
    }
}

/// The product of all inputs: the composition behind the product test
/// claims. Its degree in each input is one, so the round polynomial degree
/// equals the number of inputs.
#[derive(Clone, Copy, Debug, PartialEq, Eq, Structural)]
pub struct ProductComposition {
    pub n_multilinears: usize,
}

impl ProductComposition {
    pub fn new(n_multilinears: usize) -> (r: ProductComposition)
        ensures
            r.n_multilinears == n_multilinears,
    {
        ProductComposition { n_multilinears }
    }
}

impl CompositionPoly for ProductComposition {
    open spec fn spec_n_vars(&self) -> nat {
        self.n_multilinears as nat
    }

    open spec fn spec_degree(&self) -> nat {
        self.n_multilinears as nat
    }

    open spec fn spec_evaluate(&self, q: Seq<int>) -> int {
        fprod(q) % field_p()
    }

    proof fn lemma_evaluate_reduced(&self, q: Seq<int>) {
        lemma_mod_bound(fprod(q), field_p());
    }

    fn n_vars(&self) -> (r: usize) {
        self.n_multilinears
    }

    fn degree(&self) -> (r: usize) {
        self.n_multilinears
    }

    fn evaluate(&self, query: &Vec<Scalar>) -> (r: Result<Scalar, Error>) {
        if query.len() != self.n_multilinears {
            return Err(Error::IncorrectQuerySize);
        }
        let ghost qv = vals(query@);
        let mut acc = Scalar::one();
        let mut i: usize = 0;
        proof {
            assert(qv.take(0) =~= Seq::<int>::empty());
            assert(fprod(qv.take(0)) == 1);
            crate::field::lemma_small_mod_identity(1);
        }
        while i < query.len()
            invariant
                wf_scalars(query@),
                qv == vals(query@),
                i <= query@.len(),
                acc.wf(),
                acc@ == fprod(qv.take(i as int)) % field_p(),
            decreases query@.len() - i,
        {
            proof {
                assert(qv.take(i as int + 1).drop_last() =~= qv.take(i as int));
                assert(qv.take(i as int + 1).last() == qv[i as int]);
                lemma_fprod_reduced(qv.take(i as int));
                crate::field::lemma_small_mod_identity(acc@);
                vstd::arithmetic::div_mod::lemma_mul_mod_noop_left(
                    fprod(qv.take(i as int)),
                    qv[i as int],
                    field_p(),
                );
            }
            acc = acc.mul(query[i]);
            i = i + 1;
        }
        proof {
            assert(qv.take(query@.len() as int) =~= qv);
            lemma_fprod_reduced(qv);
            crate::field::lemma_small_mod_identity(fprod(qv));
        }
        Ok(acc)
    }
}

/// The simple multiplication gate `f(X, Y, Z) = X - Y * Z`: the constraint
/// that an output equals the product of two inputs.
#[derive(Clone, Copy, Debug, PartialEq, Eq, Structural)]
pub struct SimpleMultGateComposition;

impl CompositionPoly for SimpleMultGateComposition {
    open spec fn spec_n_vars(&self) -> nat {
        3
    }

    open spec fn spec_degree(&self) -> nat {
        2
    }

    open spec fn spec_evaluate(&self, q: Seq<int>) -> int {
        fsub_int(q[0], fmul_int(q[1], q[2]))
    }

    proof fn lemma_evaluate_reduced(&self, q: Seq<int>) {
        lemma_mod_bound(q[0] - fmul_int(q[1], q[2]), field_p());
    }

    fn n_vars(&self) -> (r: usize) {
        3
    }

    fn degree(&self) -> (r: usize) {
        2
    }

    fn evaluate(&self, query: &Vec<Scalar>) -> (r: Result<Scalar, Error>) {
        if query.len() != 3 {
            return Err(Error::IncorrectQuerySize);
        }
        Ok(query[0].sub(query[1].mul(query[2])))
    }
}

/// A composite multivariate polynomial: a composition applied to a tuple of
/// multilinears over a common hypercube.
#[derive(Clone, Debug)]
pub struct MultilinearComposite<C: CompositionPoly> {
    pub n_vars: usize,
    pub composition: C,
    pub multilinears: Vec<crate::multilinear::MultilinearExtension>,
}

impl<C: CompositionPoly> MultilinearComposite<C> {
    pub open spec fn wf(self) -> bool {
        &&& self.composition.spec_n_vars() == self.multilinears@.len()
        &&& forall|j: int|
            0 <= j < self.multilinears@.len() ==> (#[trigger] self.multilinears@[j]).wf()
                && self.multilinears@[j].n_vars == self.n_vars
    }

    /// The value of the composite at one hypercube vertex.
    pub open spec fn spec_hypercube_eval(self, i: int) -> int {
        self.composition.spec_evaluate(
            Seq::new(self.multilinears@.len(), |j: int| self.multilinears@[j].values()[i]),
        )
    }

    /// Build a composite, rejecting mismatched arities.
    pub fn new(n_vars: usize, composition: C, multilinears: Vec<
        crate::multilinear::MultilinearExtension,
    >) -> (r: Result<MultilinearComposite<C>, Error>)
        requires
            forall|j: int| 0 <= j < multilinears@.len() ==> (#[trigger] multilinears@[j]).wf(),
        ensures
            r is Ok <==> (composition.spec_n_vars() == multilinears@.len() && forall|j: int|
                0 <= j < multilinears@.len() ==> (#[trigger] multilinears@[j]).n_vars
                    == n_vars),
            r is Ok ==> r->Ok_0.wf() && r->Ok_0.n_vars == n_vars && r->Ok_0.multilinears
                == multilinears && r->Ok_0.composition == composition,
            r is Err ==> r->Err_0 == Error::IncorrectNumberOfVariables,
    {
        if composition.n_vars() != multilinears.len() {
            return Err(Error::IncorrectNumberOfVariables);
        }
        let mut j: usize = 0;
        while j < multilinears.len()
            invariant
                forall|t: int|
                    0 <= t < multilinears@.len() ==> (#[trigger] multilinears@[t]).wf(),
                j <= multilinears@.len(),
                forall|t: int|
                    0 <= t < j ==> (#[trigger] multilinears@[t]).n_vars == n_vars,
            decreases multilinears@.len() - j,
        {
            if multilinears[j].n_vars() != n_vars {
                return Err(Error::IncorrectNumberOfVariables);
            }
            j = j + 1;
        }
        Ok(MultilinearComposite { n_vars, composition, multilinears })
    }

    pub fn n_vars(&self) -> (r: usize)
        ensures
            r == self.n_vars,
    {
        self.n_vars
    }

    /// Evaluate the composite at one hypercube vertex.
    pub fn evaluate_on_hypercube(&self, index: usize) -> (r: Result<Scalar, Error>)
        requires
            self.wf(),
            vstd::arithmetic::power2::pow2(self.n_vars as nat) <= usize::MAX,
        ensures
            r is Ok <==> (index as int) < pow2_len(self.n_vars as nat),
            r is Ok ==> r->Ok_0.wf() && r->Ok_0@ == self.spec_hypercube_eval(index as int),
            r is Err ==> r->Err_0 == Error::IncorrectNumberOfVariables,
    {
        let mut query: Vec<Scalar> = Vec::new();
        let mut j: usize = 0;
        let size = crate::prover_state::checked_pow2(self.n_vars);
        let in_range = match size {
            Some(s) => index < s,
            None => false,
        };
        if !in_range {
            return Err(Error::IncorrectNumberOfVariables);
        }
        while j < self.multilinears.len()
            invariant
                self.wf(),
                (index as int) < pow2_len(self.n_vars as nat),
                j <= self.multilinears@.len(),
                query@.len() == j,
                crate::univariate::wf_scalars(query@),
                forall|t: int|
                    0 <= t < j ==> (#[trigger] query@[t])@ == self.multilinears@[t].values()[
                        index as int],
            decreases self.multilinears@.len() - j,
        {
            proof {
                assert(self.multilinears@[j as int].wf());
            }
            query.push(self.multilinears[j].evals[index]);
            j = j + 1;
        }
        let value = match self.composition.evaluate(&query) {
            Ok(v) => v,
            Err(_) => {
                proof {
                    assert(false);
                }
                return Err(Error::IncorrectQuerySize);
            },
        };
        proof {
            assert(vals(query@) =~= Seq::new(
                self.multilinears@.len(),
                |t: int| self.multilinears@[t].values()[index as int],
            ));
        }
        Ok(value)
    }

    /// The value of the composite at a full query point: the composition
    /// applied to each multilinear's evaluation there.
    pub open spec fn spec_evaluate_at(self, query: crate::multilinear::MultilinearQuery) -> int {
        self.composition.spec_evaluate(
            Seq::new(
                self.multilinears@.len(),
                |j: int|
                    crate::multilinear::inner_prod(
                        vals(query.expansion@),
                        self.multilinears@[j].values(),
                        0,
                        query.expansion@.len() as nat,
                    ),
            ),
        )
    }

    /// Evaluate the composite at a full query point.
    pub fn evaluate(&self, query: &crate::multilinear::MultilinearQuery) -> (r: Result<
        Scalar,
        Error,
    >)
        requires
            self.wf(),
            query.wf(),
        ensures
            r is Ok <==> query.n_vars == self.n_vars,
            r is Ok ==> r->Ok_0.wf() && r->Ok_0@ == self.spec_evaluate_at(*query),
            r is Err ==> r->Err_0 == Error::IncorrectNumberOfVariables,
    {
        if query.n_vars() != self.n_vars {
            return Err(Error::IncorrectNumberOfVariables);
        }
        let mut evals: Vec<Scalar> = Vec::new();
        let mut j: usize = 0;
        while j < self.multilinears.len()
            invariant
                self.wf(),
                query.wf(),
                query.n_vars == self.n_vars,
                j <= self.multilinears@.len(),
                evals@.len() == j,
                crate::univariate::wf_scalars(evals@),
                forall|t: int|
                    0 <= t < j ==> (#[trigger] evals@[t])@ == crate::multilinear::inner_prod(
                        vals(query.expansion@),
                        self.multilinears@[t].values(),
                        0,
                        query.expansion@.len() as nat,
                    ),
            decreases self.multilinears@.len() - j,
        {
            proof {
                assert(self.multilinears@[j as int].wf());
            }
            let v = match self.multilinears[j].evaluate(query) {
                Ok(v) => v,
                Err(_) => {
                    proof {
                        assert(false);
                    }
                    return Err(Error::IncorrectNumberOfVariables);
                },
            };
            evals.push(v);
            j = j + 1;
        }
        let value = match self.composition.evaluate(&evals) {
            Ok(v) => v,
            Err(_) => {
                proof {
                    assert(false);
                }
                return Err(Error::IncorrectQuerySize);
            },
        };
        proof {
            assert(vals(evals@) =~= Seq::new(
                self.multilinears@.len(),
                |j: int|
                    crate::multilinear::inner_prod(
                        vals(query.expansion@),
                        self.multilinears@[j].values(),
                        0,
                        query.expansion@.len() as nat,
                    ),
            ));
        }
        Ok(value)
    }
}

/// An alias for `pow2` keeping spec lines short.
pub open spec fn pow2_len(n: nat) -> int {
    vstd::arithmetic::power2::pow2(n) as int
}

} // verus!
