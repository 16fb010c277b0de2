use crate::crypto::Certificate;
use crate::crypto::Digest;
use crate::crypto::Identity;
use crate::data::shared::share;
use crate::view::change::apply_all;
use crate::view::view::plurality_of;
use crate::view::Change;
use crate::view::Committee;
use crate::view::Increment;
use crate::view::Transition;
use crate::view::ViewStore;
use std::sync::Arc;
use vstd::prelude::*;

verus! {

/// Why an install message is turned away.
#[derive(Clone, Copy, Debug, PartialEq, Eq, Structural)]
pub enum InstallError {
    /// The source view is not registered.
    SourceUnknown,
    /// The certificate does not carry a plurality of the source view.
    CertificateInvalid,
    /// The heights that the increments lead to do not fit the machine.
    HeightOverflow,
}

/// The height reached from `height` once every increment is applied.
pub open spec fn height_after(height: nat, increments: Seq<Seq<Change>>) -> nat
    decreases increments.len(),
{
    if increments.len() == 0 {
        height
    } else {
        height_after(height, increments.drop_last()) + increments.last().len()
    }
}

/// The committee reached from `members` once every increment is applied.
pub open spec fn members_after(members: Set<Identity>, increments: Seq<Seq<Change>>) -> Set<
    Identity,
>
    decreases increments.len(),
{
    if increments.len() == 0 {
        members
    } else {
        apply_all(members_after(members, increments.drop_last()), increments.last())
    }
}

/// What an install certifies: the source view's identifier and the
/// increments that lead away from it. The first increment leads to the
/// destination, the others are the churn still pending beyond it.
pub struct Payload {
    source: Digest,
    increments: Vec<Increment>,
}

impl Payload {
    pub closed spec fn spec_source(&self) -> Digest {
        self.source
    }

    pub closed spec fn increments(&self) -> Seq<Seq<Change>> {
        self.increments@.map_values(|increment: Increment| increment@)
    }

    /// There is a first increment, and no increment is empty.
    pub closed spec fn wf(&self) -> bool {
        &&& self.increments@.len() > 0
        &&& forall|i: int| 0 <= i < self.increments@.len() ==> (#[trigger] self.increments@[i]).wf()
    }

    pub proof fn lemma_increments(&self)
        requires
            self.wf(),
        ensures
            self.increments().len() > 0,
            forall|i: int| 0 <= i < self.increments().len() ==> (#[trigger] self.increments()[i]).len() > 0,
    {
        assert forall|i: int| 0 <= i < self.increments().len() implies (#[trigger] self.increments()[i]).len() > 0 by {
            assert(self.increments@[i].wf());
        }
    }

    /// Holds exactly when `increments` is not empty.
    pub fn new(source: Digest, increments: Vec<Increment>) -> (payload: Option<Payload>)
        requires
            forall|i: int| 0 <= i < increments@.len() ==> (#[trigger] increments@[i]).wf(),
        ensures
            payload is Some <==> increments@.len() > 0,
            payload matches Some(payload) ==> payload.wf() && payload.spec_source() == source
                && payload.increments() == increments@.map_values(|increment: Increment| increment@),
    {
        if increments.len() == 0 {
            None
        } else {
            Some(Payload { source, increments })
        }
    }

    pub fn source(&self) -> (source: Digest)
        ensures
            source == self.spec_source(),
    {
        self.source
    }
}

pub struct InstallData {
    payload: Payload,
    certificate: Certificate,
    transition: Transition,
}

/// An install message that has passed `Install::check`: its source view is
/// known and its transition is resolved.
pub struct Install {
    data: Arc<InstallData>,
}

impl Clone for Install {
    fn clone(&self) -> (copy: Self)
        ensures
            copy == *self,
    {
        Install { data: share(&self.data) }
    }
}

impl Install {
    pub closed spec fn payload(&self) -> Payload {
        self.data.payload
    }

    pub closed spec fn certificate(&self) -> Certificate {
        self.data.certificate
    }

    pub closed spec fn transition(&self) -> Transition {
        self.data.transition
    }

    pub open spec fn wf(&self) -> bool {
        &&& self.payload().wf()
        &&& self.certificate().wf()
        &&& self.transition().wf()
    }

    /// `transition` is what `payload` describes when it starts at `source`.
    pub open spec fn resolves(payload: Payload, source: Committee, transition: Transition) -> bool {
        let increments = payload.increments();
        &&& transition.spec_source() == source
        &&& transition.spec_destination().spec_height() == height_after(
            source.spec_height(),
            increments.take(1),
        )
        &&& transition.spec_destination().members() == members_after(
            source.members(),
            increments.take(1),
        )
        &&& transition.spec_tail() is Some <==> increments.len() > 1
        &&& transition.spec_tail() matches Some(tail) ==> tail.spec_height() == height_after(
            source.spec_height(),
            increments,
        ) && tail.members() == members_after(source.members(), increments)
    }

    /// Validates an install message against the registry.
    ///
    /// `signature_valid` reports whether the certificate's aggregate
    /// signature verifies, over the payload, for the certificate's signers.
    pub fn check(
        payload: Payload,
        certificate: Certificate,
        store: &ViewStore,
        signature_valid: bool,
    ) -> (outcome: Result<Install, InstallError>)
        requires
            payload.wf(),
            certificate.wf(),
            store.wf(),
        ensures
            match outcome {
                Err(InstallError::SourceUnknown) => !store@.dom().contains(payload.spec_source()),
                Err(InstallError::CertificateInvalid) => {
                    &&& store@.dom().contains(payload.spec_source())
                    &&& certificate.verdict(
                        store@[payload.spec_source()],
                        plurality_of(store@[payload.spec_source()].members().len()),
                        signature_valid,
                    ) is Err
                },
                Err(InstallError::HeightOverflow) => {
                    &&& store@.dom().contains(payload.spec_source())
                    &&& certificate.verdict(
                        store@[payload.spec_source()],
                        plurality_of(store@[payload.spec_source()].members().len()),
                        signature_valid,
                    ) is Ok
                    &&& height_after(
                        store@[payload.spec_source()].spec_height(),
                        payload.increments(),
                    ) > usize::MAX
                },
                Ok(install) => {
                    &&& store@.dom().contains(payload.spec_source())
                    &&& certificate.verdict(
                        store@[payload.spec_source()],
                        plurality_of(store@[payload.spec_source()].members().len()),
                        signature_valid,
                    ) is Ok
                    &&& install.wf()
                    &&& install.payload() == payload
                    &&& install.certificate() == certificate
                    &&& Self::resolves(payload, store@[payload.spec_source()], install.transition())
                },
            },
    {
        let source = match store.get(&payload.source) {
            Some(source) => source,
            None => {
                return Err(InstallError::SourceUnknown);
            },
        };
        if certificate.verify_plurality(&source, signature_valid).is_err() {
            return Err(InstallError::CertificateInvalid);
        }
        let ghost increments = payload.increments();
        proof {
            payload.lemma_increments();
        }
        let mut current = source.clone();
        let mut destination = source.clone();
        let mut index: usize = 0;
        while index < payload.increments.len()
            invariant
                payload.wf(),
                source.wf(),
                store@.dom().contains(payload.spec_source()),
                source == store@[payload.spec_source()],
                certificate.verdict(
                    source,
                    plurality_of(source.members().len()),
                    signature_valid,
                ) is Ok,
                current.wf(),
                destination.wf(),
                increments == payload.increments(),
                increments.len() == payload.increments@.len(),
                forall|i: int| 0 <= i < increments.len() ==> (#[trigger] increments[i]).len() > 0,
                index <= increments.len(),
                current.spec_height() == height_after(
                    source.spec_height(),
                    increments.take(index as int),
                ),
                current.members() == members_after(source.members(), increments.take(index as int)),
                index == 0 ==> destination == source,
                index > 0 ==> destination.spec_height() == height_after(
                    source.spec_height(),
                    increments.take(1),
                ) && destination.members() == members_after(source.members(), increments.take(1))
                    && source.spec_height() < destination.spec_height(),
                index > 1 ==> destination.spec_height() < current.spec_height(),
                index == 1 ==> destination == current,
            decreases increments.len() - index,
        {
            let increment = &payload.increments[index];
            proof {
                let grown = increments.take(index + 1);
                assert(grown.drop_last() == increments.take(index as int));
                assert(grown.last() == increments[index as int]);
                assert(increments[index as int] == increment@);
                assert(increment@.len() > 0);
            }
            if current.height() > usize::MAX - increment.len() {
                proof {
                    let grown = increments.take(index + 1);
                    assert(height_after(source.spec_height(), grown) == current.spec_height()
                        + increment@.len());
                    lemma_height_after_rises(source.spec_height(), increments, index + 1);
                }
                return Err(InstallError::HeightOverflow);
            }
            current = current.extend(increment);
            if index == 0 {
                destination = current.clone();
            }
            index += 1;
        }
        assert(increments.take(index as int) == increments);
        let tail = if payload.increments.len() > 1 {
            Some(current)
        } else {
            None
        };
        let transition = Transition::new(source, destination, tail).unwrap();
        Ok(Install { data: Arc::new(InstallData { payload, certificate, transition }) })
    }

    /// Identifier of the source view.
    pub fn source(&self) -> (source: Digest)
        ensures
            source == self.payload().spec_source(),
    {
        self.data.payload.source
    }

    pub fn certificate_ref(&self) -> (certificate: &Certificate)
        ensures
            *certificate == self.certificate(),
    {
        &self.data.certificate
    }

    pub fn transition_ref(&self) -> (transition: &Transition)
        ensures
            *transition == self.transition(),
    {
        &self.data.transition
    }

    pub fn into_transition(self) -> (transition: Transition)
        ensures
            transition == self.transition(),
    {
        self.data.transition.clone()
    }
}

/// Applying more increments never lowers the height.
pub proof fn lemma_height_after_rises(height: nat, increments: Seq<Seq<Change>>, k: int)
    requires
        0 <= k <= increments.len(),
    ensures
        height_after(height, increments.take(k)) <= height_after(height, increments),
    decreases increments.len() - k,
{
    if k < increments.len() {
        let grown = increments.take(k + 1);
        assert(grown.drop_last() == increments.take(k));
        lemma_height_after_rises(height, increments, k + 1);
    } else {
        assert(increments.take(k) == increments);
    }
}

} // verus!
