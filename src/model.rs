//! The in-memory proof tree.
use vstd::prelude::*;

verus! {

/// An operation applied to the running digest.
pub enum Op {
    Sha1,
    Sha256,
    Ripemd160,
    Hexlify,
    Reverse,
    /// Concatenates the given bytes after the running digest.
    Append(Vec<u8>),
    /// Concatenates the given bytes before the running digest.
    Prepend(Vec<u8>),
}

/// A terminal claim about the running digest.
pub enum Attestation {
    /// The running digest is the Merkle root of the block at this height.
    Bitcoin { height: usize },
    /// A calendar server promised to anchor the digest later.
    Pending { uri: String },
    /// An attestation of a kind that is not recognised.
    Unknown { tag: Vec<u8>, data: Vec<u8> },
}

/// What a step does.
pub enum StepData {
    /// Splits execution into several independent paths.
    Fork,
    /// Applies an operation, then continues with the single next step.
    Op(Op),
    /// Ends the path with an attestation.
    Attestation(Attestation),
}

/// A node of the proof tree.
pub struct Step {
    pub data: StepData,
    /// The bytes this step produces.
    pub output: Vec<u8>,
    /// The steps that continue from this one, in their stored order.
    pub next: Vec<Step>,
}

/// A whole proof: the document digest and the first step applied to it.
pub struct Timestamp {
    pub start_digest: Vec<u8>,
    pub first_step: Step,
}

/// The number of next steps that a step of this kind must have.
pub open spec fn arity_ok(d: StepData, n: nat) -> bool {
    match d {
        StepData::Fork => n >= 1,
        StepData::Op(_) => n == 1,
        StepData::Attestation(_) => n == 0,
    }
}

impl Step {
    /// Every step of the tree has the number of next steps that its kind asks for.
    pub open spec fn wf(self) -> bool
        decreases self,
    {
        &&& arity_ok(self.data, self.next@.len())
        &&& forall|i: int|
            0 <= i < self.next@.len() ==> (#[trigger] self.next@[i]).wf()
    }

    /// Whether every step of the tree has the number of next steps that its kind asks for.
    pub fn is_wf(&self) -> (r: bool)
        ensures
            r == self.wf(),
        decreases self,
    {
        let n = self.next.len();
        let arity = match &self.data {
            StepData::Fork => n >= 1,
            StepData::Op(_) => n == 1,
            StepData::Attestation(_) => n == 0,
        };
        if !arity {
            return false;
        }
        let mut i: usize = 0;
        while i < n
            invariant
                n == self.next@.len(),
                i <= n,
                forall|j: int| 0 <= j < i ==> (#[trigger] self.next@[j]).wf(),
            decreases n - i,
        {
            if !self.next[i].is_wf() {
                return false;
            }
            i = i + 1;
        }
        true
    }
}

} // verus!
