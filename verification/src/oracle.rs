//! Light-weight descriptors of the multilinear oracles a claim speaks about.
//!
//! The witness store and oracle set proper are collaborators outside this
//! engine; claims only carry structural descriptions, enough to know each
//! polynomial's arity and how derived oracles were built from committed ones.

use vstd::prelude::*;

verus! {

use crate::common::Error;
use crate::field::Scalar;

/// A descriptor of one multilinear oracle.
#[derive(Debug, PartialEq, Eq)]
pub enum MultilinearPolyOracle {
    /// A committed multilinear, identified by its index in the oracle set.
    Committed { id: usize, n_vars: usize },
    /// The inner oracle with its first (lowest-index) variable fixed.
    ProjectFirstVar { inner: Box<MultilinearPolyOracle>, value: Scalar },
    /// The inner oracle with its last (highest-index) variable fixed.
    ProjectLastVar { inner: Box<MultilinearPolyOracle>, value: Scalar },
    /// The merge of two oracles of equal arity: a new highest-index variable
    /// selects between them.
    Merged(Box<MultilinearPolyOracle>, Box<MultilinearPolyOracle>),
}

impl MultilinearPolyOracle {
    /// The number of variables of the described multilinear.
    pub open spec fn spec_n_vars(self) -> int
        decreases self,
    {
        match self {
            MultilinearPolyOracle::Committed { n_vars, .. } => n_vars as int,
            MultilinearPolyOracle::ProjectFirstVar { inner, .. } => inner.spec_n_vars() - 1,
            MultilinearPolyOracle::ProjectLastVar { inner, .. } => inner.spec_n_vars() - 1,
            MultilinearPolyOracle::Merged(a, _) => a.spec_n_vars() + 1,
        }
    }

    /// Structural consistency: projections have a variable to remove, merged
    /// pairs agree on arity, and every arity fits the machine.
    pub open spec fn wf(self) -> bool
        decreases self,
    {
        match self {
            MultilinearPolyOracle::Committed { .. } => true,
            MultilinearPolyOracle::ProjectFirstVar { inner, value } => inner.wf()
                && inner.spec_n_vars() >= 1 && value.wf(),
            MultilinearPolyOracle::ProjectLastVar { inner, value } => inner.wf()
                && inner.spec_n_vars() >= 1 && value.wf(),
            MultilinearPolyOracle::Merged(a, b) => a.wf() && b.wf() && a.spec_n_vars()
                == b.spec_n_vars() && a.spec_n_vars() + 1 <= usize::MAX,
        }
    }

    /// The number of variables of the described multilinear.
    pub fn n_vars(&self) -> (r: usize)
        requires
            self.wf(),
        ensures
            r as int == self.spec_n_vars(),
        decreases *self,
    {
        match self {
            MultilinearPolyOracle::Committed { n_vars, .. } => *n_vars,
            MultilinearPolyOracle::ProjectFirstVar { inner, .. } => inner.n_vars() - 1,
            MultilinearPolyOracle::ProjectLastVar { inner, .. } => inner.n_vars() - 1,
            MultilinearPolyOracle::Merged(a, _) => a.n_vars() + 1,
        }
    }
}

impl Clone for MultilinearPolyOracle {
    /// A clone is equal to the original, which contracts may rely on.
    fn clone(&self) -> (r: Self)
        ensures
            r == *self,
        decreases *self,
    {
        match self {
            MultilinearPolyOracle::Committed { id, n_vars } => MultilinearPolyOracle::Committed {
                id: *id,
                n_vars: *n_vars,
            },
            MultilinearPolyOracle::ProjectFirstVar { inner, value } => {
                MultilinearPolyOracle::ProjectFirstVar {
                    inner: Box::new((**inner).clone()),
                    value: *value,
                }
            },
            MultilinearPolyOracle::ProjectLastVar { inner, value } => {
                MultilinearPolyOracle::ProjectLastVar {
                    inner: Box::new((**inner).clone()),
                    value: *value,
                }
            },
            MultilinearPolyOracle::Merged(a, b) => MultilinearPolyOracle::Merged(
                Box::new((**a).clone()),
                Box::new((**b).clone()),
            ),
        }
    }
}

/// A descriptor of a composite polynomial: a composition applied to a tuple
/// of multilinear oracles of a common arity.
#[derive(Debug, PartialEq, Eq)]
pub struct CompositePolyOracle {
    pub n_vars: usize,
    pub inner: Vec<MultilinearPolyOracle>,
    pub max_individual_degree: usize,
}

/// Two composite oracle descriptors with the same content.
pub open spec fn same_oracle(a: CompositePolyOracle, b: CompositePolyOracle) -> bool {
    a.n_vars == b.n_vars && a.inner@ == b.inner@ && a.max_individual_degree
        == b.max_individual_degree
}

impl Clone for CompositePolyOracle {
    /// A clone has the same content as the original, which contracts may
    /// rely on.
    fn clone(&self) -> (r: Self)
        ensures
            same_oracle(r, *self),
    {
        let inner = self.inner.clone();
        proof {
            assert(inner@ =~= self.inner@);
        }
        CompositePolyOracle {
            n_vars: self.n_vars,
            inner,
            max_individual_degree: self.max_individual_degree,
        }
    }
}

impl CompositePolyOracle {
    pub open spec fn wf(self) -> bool {
        &&& forall|i: int|
            0 <= i < self.inner@.len() ==> (#[trigger] self.inner@[i]).wf()
                && self.inner@[i].spec_n_vars() == self.n_vars as int
    }

    /// Build a composite oracle descriptor, rejecting inner oracles whose
    /// arity differs from the composite's.
    pub fn new(
        n_vars: usize,
        inner: Vec<MultilinearPolyOracle>,
        max_individual_degree: usize,
    ) -> (r: Result<CompositePolyOracle, Error>)
        requires
            forall|i: int| 0 <= i < inner@.len() ==> (#[trigger] inner@[i]).wf(),
        ensures
            r is Ok <==> forall|i: int|
                0 <= i < inner@.len() ==> (#[trigger] inner@[i]).spec_n_vars() == n_vars as int,
            r is Ok ==> r->Ok_0 == (CompositePolyOracle {
                n_vars,
                inner,
                max_individual_degree,
            }) && r->Ok_0.wf(),
            r is Err ==> r->Err_0 == Error::IncorrectNumberOfVariables,
    {
        let mut i: usize = 0;
        while i < inner.len()
            invariant
                forall|j: int| 0 <= j < inner@.len() ==> (#[trigger] inner@[j]).wf(),
                i <= inner.len(),
                forall|j: int|
                    0 <= j < i ==> (#[trigger] inner@[j]).spec_n_vars() == n_vars as int,
            decreases inner.len() - i,
        {
            if inner[i].n_vars() != n_vars {
                return Err(Error::IncorrectNumberOfVariables);
            }
            i = i + 1;
        }
        Ok(CompositePolyOracle { n_vars, inner, max_individual_degree })
    }

    pub fn n_vars(&self) -> (r: usize)
        ensures
            r == self.n_vars,
    {
        self.n_vars
    }

    pub fn max_individual_degree(&self) -> (r: usize)
        ensures
            r == self.max_individual_degree,
    {
        self.max_individual_degree
    }
}

} // verus!
