//! The Fiat-Shamir transcript interface.
//!
//! The engine consumes the transcript as an abstract oracle: it observes
//! each round message and samples one challenge per round. Any deterministic
//! implementation whose samples depend only on what both parties observed
//! keeps prover and verifier in step.

use vstd::prelude::*;

verus! {

use crate::field::Scalar;
use crate::univariate::wf_scalars;

/// A source of interactive randomness shared by prover and verifier.
pub trait Challenger: Sized {
    /// The implementation's own invariant.
    spec fn wf(&self) -> bool;

    /// Feed one scalar of transcript data in.
    fn observe(&mut self, value: Scalar)
        requires
            old(self).wf(),
            value.wf(),
        ensures
            final(self).wf(),
    ;

    /// Draw the next challenge.
    fn sample(&mut self) -> (r: Scalar)
        requires
            old(self).wf(),
        ensures
            final(self).wf(),
            r.wf(),
    ;
}

/// Observe a whole message, scalar by scalar.
pub fn observe_slice<CH: Challenger>(challenger: &mut CH, values: &Vec<Scalar>)
    requires
        old(challenger).wf(),
        wf_scalars(values@),
    ensures
        final(challenger).wf(),
{
    let mut i: usize = 0;
    while i < values.len()
        invariant
            challenger.wf(),
            wf_scalars(values@),
            i <= values@.len(),
        decreases values@.len() - i,
    {
        proof {
            assert(values@[i as int].wf());
        }
        challenger.observe(values[i]);
        i = i + 1;
    }
}

/// Draw `n` challenges in order.
pub fn sample_vec<CH: Challenger>(challenger: &mut CH, n: usize) -> (r: Vec<Scalar>)
    requires
        old(challenger).wf(),
    ensures
        final(challenger).wf(),
        r@.len() == n,
        wf_scalars(r@),
{
    let mut out: Vec<Scalar> = Vec::new();
    let mut i: usize = 0;
    while i < n
        invariant
            challenger.wf(),
            i <= n,
            out@.len() == i,
            wf_scalars(out@),
        decreases n - i,
    {
        let c = challenger.sample();
        out.push(c);
        i = i + 1;
    }
    out
}

/// A challenger that replays a fixed challenge list, cycling when it runs
/// out; observations are ignored. Meant for deterministic test transcripts.
#[derive(Clone, Debug)]
pub struct FixedChallenger {
    pub challenges: Vec<Scalar>,
    pub next: usize,
}

impl FixedChallenger {
    pub fn new(challenges: Vec<Scalar>) -> (r: FixedChallenger)
        requires
            wf_scalars(challenges@),
        ensures
            r.wf(),
    {
        FixedChallenger { challenges, next: 0 }
    }
}

impl Challenger for FixedChallenger {
    open spec fn wf(&self) -> bool {
        wf_scalars(self.challenges@)
    }

    fn observe(&mut self, _value: Scalar) {
    }

    fn sample(&mut self) -> (r: Scalar) {
        if self.challenges.len() == 0 {
            return Scalar::zero();
        }
        let idx = if self.next < self.challenges.len() {
            self.next
        } else {
            0
        };
        let c = self.challenges[idx];
        self.next = idx + 1;
        proof {
            assert(self.challenges@[idx as int].wf());
        }
        c
    }
}

/// A deterministic mixing challenger: every observation folds into a
/// running state, and each sample advances the state by an affine step.
/// Prover and verifier that observe the same messages sample the same
/// challenges.
#[derive(Clone, Copy, Debug, PartialEq, Eq, Structural)]
pub struct MixingChallenger {
    pub state: Scalar,
}

impl MixingChallenger {
    pub fn new() -> (r: MixingChallenger)
        ensures
            r.wf(),
    {
        MixingChallenger { state: Scalar::from_u64(11) }
    }
}

impl Challenger for MixingChallenger {
    open spec fn wf(&self) -> bool {
        self.state.wf()
    }

    fn observe(&mut self, value: Scalar) {
        self.state = self.state.mul(Scalar::from_u64(31)).add(value);
    }

    fn sample(&mut self) -> (r: Scalar) {
        self.state = self.state.mul(Scalar::from_u64(37)).add(Scalar::from_u64(13));
        self.state
    }
}

} // verus!
