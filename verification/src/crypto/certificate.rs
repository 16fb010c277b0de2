use crate::crypto::Identity;
use crate::data::shared::share;
use crate::data::DigestSet;
use crate::view::Committee;
use std::sync::Arc;
use vstd::prelude::*;

verus! {

/// Why a certificate does not vouch for a statement.
#[derive(Clone, Copy, Debug, PartialEq, Eq, Structural)]
pub enum CertificateError {
    /// A signer is no member of the view.
    ForeignSigner,
    /// Fewer members signed than the threshold asks for.
    InsufficientPower,
    /// The aggregate signature does not verify for the signers.
    InvalidSignature,
}

/// How many members a certificate must carry.
#[derive(Clone, Copy, Debug, PartialEq, Eq, Structural)]
pub enum Threshold {
    /// Enough to include a correct member.
    Plurality,
    /// Enough for any two such sets to share a correct member.
    Quorum,
}

impl Threshold {
    /// The number of members that the threshold asks of `members`.
    pub open spec fn spec_of(self, members: nat) -> nat {
        match self {
            Threshold::Plurality => crate::view::view::plurality_of(members),
            Threshold::Quorum => crate::view::view::quorum_of(members),
        }
    }

    /// The number of members that the threshold asks of `view`.
    pub fn of(&self, view: &Committee) -> (power: usize)
        requires
            view.wf(),
        ensures
            power == self.spec_of(view.members().len()),
    {
        match self {
            Threshold::Plurality => view.plurality(),
            Threshold::Quorum => view.quorum(),
        }
    }
}

pub struct CertificateData {
    signers: DigestSet,
    signature: Vec<u8>,
}

/// The members that signed a statement, with their aggregate signature.
///
/// The signature itself is opaque here: whoever checks it against the
/// signers' keys reports the outcome to `verify_threshold`.
pub struct Certificate {
    data: Arc<CertificateData>,
}

impl Clone for Certificate {
    fn clone(&self) -> (copy: Self)
        ensures
            copy == *self,
    {
        Certificate { data: share(&self.data) }
    }
}

impl Certificate {
    pub closed spec fn signers(&self) -> Set<Identity> {
        self.data.signers@
    }

    /// The signers in increasing order of identity.
    pub closed spec fn ordered_signers(&self) -> Seq<Identity> {
        self.data.signers.ordered()
    }

    pub closed spec fn signature(&self) -> Seq<u8> {
        self.data.signature@
    }

    pub closed spec fn wf(&self) -> bool {
        self.data.signers.wf()
    }

    /// What `verify_threshold` reports.
    pub open spec fn verdict(
        &self,
        view: Committee,
        threshold: nat,
        signature_valid: bool,
    ) -> Result<(), CertificateError> {
        if !self.signers().subset_of(view.members()) {
            Err(CertificateError::ForeignSigner)
        } else if self.signers().len() < threshold {
            Err(CertificateError::InsufficientPower)
        } else if !signature_valid {
            Err(CertificateError::InvalidSignature)
        } else {
            Ok(())
        }
    }

    pub fn new(signers: Vec<Identity>, signature: Vec<u8>) -> (certificate: Certificate)
        ensures
            certificate.wf(),
            certificate.signers() == signers@.to_set(),
            certificate.signature() == signature@,
    {
        let mut set = DigestSet::new();
        let mut index: usize = 0;
        while index < signers.len()
            invariant
                set.wf(),
                index <= signers@.len(),
                set@ == signers@.take(index as int).to_set(),
            decreases signers@.len() - index,
        {
            set.insert(signers[index]);
            proof {
                let prefix = signers@.take(index as int);
                assert(signers@.take(index + 1) == prefix.push(signers@[index as int]));
                prefix.lemma_push_to_set_commute(signers@[index as int]);
            }
            index += 1;
        }
        assert(signers@.take(index as int) == signers@);
        Certificate { data: Arc::new(CertificateData { signers: set, signature }) }
    }

    /// The signers in increasing order of identity.
    pub fn signer_list(&self) -> (signers: Vec<Identity>)
        ensures
            signers@ == self.ordered_signers(),
    {
        self.data.signers.to_vec()
    }

    pub fn signature_bytes(&self) -> (bytes: &Vec<u8>)
        ensures
            bytes@ == self.signature(),
    {
        &self.data.signature
    }

    /// Number of signers.
    pub fn power(&self) -> (power: usize)
        requires
            self.wf(),
        ensures
            power == self.signers().len(),
    {
        self.data.signers.len()
    }

    /// Accepts when every signer is a member of `view`, at least
    /// `threshold` members signed, and the aggregate signature was found
    /// valid for them.
    pub fn verify_threshold(
        &self,
        view: &Committee,
        threshold: usize,
        signature_valid: bool,
    ) -> (outcome: Result<(), CertificateError>)
        requires
            self.wf(),
            view.wf(),
        ensures
            outcome == self.verdict(*view, threshold as nat, signature_valid),
    {
        if !view.includes(&self.data.signers) {
            Err(CertificateError::ForeignSigner)
        } else if self.data.signers.len() < threshold {
            Err(CertificateError::InsufficientPower)
        } else if !signature_valid {
            Err(CertificateError::InvalidSignature)
        } else {
            Ok(())
        }
    }

    /// Accepts when the certificate carries `threshold` of `view` with a
    /// valid signature.
    pub fn verify(&self, view: &Committee, threshold: Threshold, signature_valid: bool) -> (outcome:
        Result<(), CertificateError>)
        requires
            self.wf(),
            view.wf(),
        ensures
            outcome == self.verdict(
                *view,
                threshold.spec_of(view.members().len()),
                signature_valid,
            ),
    {
        self.verify_threshold(view, threshold.of(view), signature_valid)
    }

    pub fn verify_plurality(&self, view: &Committee, signature_valid: bool) -> (outcome: Result<
        (),
        CertificateError,
    >)
        requires
            self.wf(),
            view.wf(),
        ensures
            outcome == self.verdict(
                *view,
                crate::view::view::plurality_of(view.members().len()),
                signature_valid,
            ),
    {
        self.verify_threshold(view, view.plurality(), signature_valid)
    }

    pub fn verify_quorum(&self, view: &Committee, signature_valid: bool) -> (outcome: Result<
        (),
        CertificateError,
    >)
        requires
            self.wf(),
            view.wf(),
        ensures
            outcome == self.verdict(
                *view,
                crate::view::view::quorum_of(view.members().len()),
                signature_valid,
            ),
    {
        self.verify_threshold(view, view.quorum(), signature_valid)
    }
}

} // verus!
