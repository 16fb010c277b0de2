use crate::crypto::Certificate;
use crate::crypto::Digest;
use crate::view::Increment;
use vstd::prelude::*;

verus! {

/// What a replica proposes towards the next view: a run of churn, or the
/// install that a sequence of views ends with.
pub enum ViewDecision {
    Churn { churn: Increment },
    Tail { install: Digest },
}

impl ViewDecision {
    /// The byte that tells the two kinds apart in a decision's identifier:
    /// the identifier names the kind's byte and the content together, so
    /// that no churn can pass for a tail.
    pub open spec fn spec_kind(&self) -> u8 {
        match *self {
            ViewDecision::Churn { .. } => 0,
            ViewDecision::Tail { .. } => 1,
        }
    }

    pub fn kind(&self) -> (kind: u8)
        ensures
            kind == self.spec_kind(),
    {
        match self {
            ViewDecision::Churn { .. } => 0,
            ViewDecision::Tail { .. } => 1,
        }
    }
}

/// What an install is made from: the briefs of the decisions of a run of
/// lattice instances, with the certificate that they were decided.
pub struct InstallPrecursor {
    pub decisions: Vec<Digest>,
    pub certificate: Certificate,
}

impl InstallPrecursor {
    pub fn new(decisions: Vec<Digest>, certificate: Certificate) -> (precursor: InstallPrecursor)
        ensures
            precursor.decisions == decisions,
            precursor.certificate == certificate,
    {
        InstallPrecursor { decisions, certificate }
    }
}

} // verus!
