use crate::crypto::Certificate;
use crate::crypto::Digest;
use crate::crypto::Threshold;
use crate::view::Change;
use crate::view::Committee;
use crate::view::ViewStore;
use vstd::prelude::*;

verus! {

/// Why a resolution is turned away.
#[derive(Clone, Copy, Debug, PartialEq, Eq, Structural)]
pub enum ResolutionError {
    /// The resolution pertains to an unknown view.
    UnknownView,
    /// The resolution did not pass in a past or current view.
    FutureVote,
    /// The resolution's certificate is invalid.
    CertificateInvalid,
    /// The resolution's change cannot be applied to the current view.
    ViewError,
}

/// The claim that a quorum of the view that `view` names resolved on a
/// change. It is a claim only until `to_resolution` has validated it.
pub struct ResolutionClaim {
    view: Digest,
    change: Change,
    certificate: Certificate,
}

/// A resolution that was validated.
pub struct Resolution(ResolutionClaim);

impl Clone for ResolutionClaim {
    fn clone(&self) -> (copy: Self)
        ensures
            copy == *self,
    {
        ResolutionClaim { view: self.view, change: self.change, certificate: self.certificate.clone() }
    }
}

impl Clone for Resolution {
    fn clone(&self) -> (copy: Self)
        ensures
            copy == *self,
    {
        Resolution(self.0.clone())
    }
}

impl ResolutionClaim {
    pub closed spec fn spec_view(&self) -> Digest {
        self.view
    }

    pub closed spec fn spec_change(&self) -> Change {
        self.change
    }

    pub closed spec fn spec_certificate(&self) -> Certificate {
        self.certificate
    }

    pub open spec fn wf(&self) -> bool {
        self.spec_certificate().wf()
    }

    /// What `validate` reports for the current view `view`.
    pub open spec fn verdict(&self, client: ViewStore, view: Committee, signature_valid: bool) -> Result<
        (),
        ResolutionError,
    > {
        self.verdict_at(client, view, Threshold::Quorum, signature_valid)
    }

    /// What `validate_at` reports for the current view `view`.
    pub open spec fn verdict_at(
        &self,
        client: ViewStore,
        view: Committee,
        threshold: Threshold,
        signature_valid: bool,
    ) -> Result<(), ResolutionError> {
        if !client@.dom().contains(self.spec_view()) {
            Err(ResolutionError::UnknownView)
        } else if client@[self.spec_view()].spec_height() > view.spec_height() {
            Err(ResolutionError::FutureVote)
        } else if self.spec_certificate().verdict(
            client@[self.spec_view()],
            threshold.spec_of(client@[self.spec_view()].members().len()),
            signature_valid,
        ) is Err {
            Err(ResolutionError::CertificateInvalid)
        } else if self.spec_change().apply(view.members()) == view.members() {
            Err(ResolutionError::ViewError)
        } else {
            Ok(())
        }
    }

    pub fn new(view: Digest, change: Change, certificate: Certificate) -> (claim: ResolutionClaim)
        ensures
            claim.spec_view() == view,
            claim.spec_change() == change,
            claim.spec_certificate() == certificate,
    {
        ResolutionClaim { view, change, certificate }
    }

    pub fn change(&self) -> (change: Change)
        ensures
            change == self.spec_change(),
    {
        self.change
    }

    pub fn view(&self) -> (view: Digest)
        ensures
            view == self.spec_view(),
    {
        self.view
    }

    pub fn certificate(&self) -> (certificate: &Certificate)
        ensures
            *certificate == self.spec_certificate(),
    {
        &self.certificate
    }

    /// Accepts when the resolution's view is known to `client` and is not
    /// in the future of `view`, its certificate carries a quorum of that
    /// view with a valid signature, and its change extends `view`.
    pub fn validate(&self, client: &ViewStore, view: &Committee, signature_valid: bool) -> (outcome:
        Result<(), ResolutionError>)
        requires
            self.wf(),
            client.wf(),
            view.wf(),
        ensures
            outcome == self.verdict(*client, *view, signature_valid),
    {
        self.validate_at(client, view, Threshold::Quorum, signature_valid)
    }

    /// As `validate`, with the certificate held to `threshold` of the
    /// resolution's view.
    pub fn validate_at(
        &self,
        client: &ViewStore,
        view: &Committee,
        threshold: Threshold,
        signature_valid: bool,
    ) -> (outcome: Result<(), ResolutionError>)
        requires
            self.wf(),
            client.wf(),
            view.wf(),
        ensures
            outcome == self.verdict_at(*client, *view, threshold, signature_valid),
    {
        let resolution_view = match client.get(&self.view) {
            Some(view) => view,
            None => {
                return Err(ResolutionError::UnknownView);
            },
        };
        if resolution_view.height() > view.height() {
            return Err(ResolutionError::FutureVote);
        }
        if self.certificate.verify(&resolution_view, threshold, signature_valid).is_err() {
            return Err(ResolutionError::CertificateInvalid);
        }
        if view.validate_extension(&self.change).is_err() {
            return Err(ResolutionError::ViewError);
        }
        Ok(())
    }

    /// The resolution, if the claim is valid.
    pub fn to_resolution(self, client: &ViewStore, view: &Committee, signature_valid: bool) -> (outcome:
        Result<Resolution, ResolutionError>)
        requires
            self.wf(),
            client.wf(),
            view.wf(),
        ensures
            match outcome {
                Ok(resolution) => self.verdict(*client, *view, signature_valid) is Ok
                    && resolution.claim() == self,
                Err(error) => self.verdict(*client, *view, signature_valid) == Err::<
                    (),
                    ResolutionError,
                >(error),
            },
    {
        match self.validate(client, view, signature_valid) {
            Ok(()) => Ok(Resolution(self)),
            Err(error) => Err(error),
        }
    }
}

impl Resolution {
    /// The claim that the resolution was made from.
    pub closed spec fn claim(&self) -> ResolutionClaim {
        self.0
    }

    pub fn change(&self) -> (change: Change)
        ensures
            change == self.claim().spec_change(),
    {
        self.0.change()
    }

    /// The claim that the resolution was made from.
    pub fn into_claim(self) -> (claim: ResolutionClaim)
        ensures
            claim == self.claim(),
    {
        self.0
    }
}

} // verus!
