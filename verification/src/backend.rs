//! The computation backend the hypercube reductions run on.
//!
//! The default backend computes everything on the CPU, one vertex at a
//! time; summation over the hypercube commutes, so any schedule yields the
//! same values the contracts state.

use vstd::prelude::*;

verus! {

use crate::common::Error;
use crate::field::Scalar;
use crate::multilinear::{tensor_expand, MultilinearQuery};
use crate::univariate::{vals, wf_scalars};

/// The backend that uses the CPU for all computations.
#[derive(Clone, Copy, Debug, PartialEq, Eq, Structural)]
pub struct CpuBackend;

/// The portable, dependency-free default backend.
pub fn make_portable_backend() -> (r: CpuBackend) {
    CpuBackend
}

impl CpuBackend {
    /// Expand a full query into its tensor product table.
    pub fn tensor_product_full_query(&self, query: &Vec<Scalar>) -> (r: Result<
        Vec<Scalar>,
        Error,
    >)
        requires
            wf_scalars(query@),
        ensures
            r is Ok <==> vstd::arithmetic::power2::pow2(query@.len()) <= usize::MAX,
            r is Ok ==> vals(r->Ok_0@) == tensor_expand(vals(query@)) && wf_scalars(
                r->Ok_0@,
            ),
            r is Err ==> r->Err_0 == Error::IncorrectNumberOfVariables,
    {
        let expanded = match MultilinearQuery::with_full_query(query) {
            Ok(q) => q,
            Err(e) => {
                return Err(e);
            },
        };
        Ok(expanded.expansion)
    }
}

} // verus!
