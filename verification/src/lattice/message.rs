use crate::crypto::Digest;
use crate::crypto::Identity;
use crate::crypto::MultiSignature;
use crate::crypto::Signature;
use crate::data::shared::share;
use crate::data::DigestSet;
use std::sync::Arc;
use vstd::prelude::*;

verus! {

/// Something that a replica proposes, under the digest that names it.
pub struct Element {
    identifier: Digest,
    content: Arc<Vec<u8>>,
}

impl Clone for Element {
    fn clone(&self) -> (copy: Self)
        ensures
            copy == *self,
    {
        Element { identifier: self.identifier, content: share(&self.content) }
    }
}

impl Element {
    pub closed spec fn spec_identifier(&self) -> Digest {
        self.identifier
    }

    pub closed spec fn content(&self) -> Seq<u8> {
        self.content@
    }

    pub fn new(identifier: Digest, content: Vec<u8>) -> (element: Element)
        ensures
            element.spec_identifier() == identifier,
            element.content() == content@,
    {
        Element { identifier, content: Arc::new(content) }
    }

    pub fn identifier(&self) -> (identifier: Digest)
        ensures
            identifier == self.spec_identifier(),
    {
        self.identifier
    }

    pub fn bytes(&self) -> (bytes: &Vec<u8>)
        ensures
            bytes@ == self.content(),
    {
        &self.content
    }
}

/// A replica's signed disclosure of the element that it proposes in one
/// instance of one view. `identifier` names the disclosure.
pub struct DisclosureSend {
    pub identifier: Digest,
    pub view: Digest,
    pub instance: Digest,
    pub element: Element,
    pub signature: Signature,
}

impl Clone for DisclosureSend {
    fn clone(&self) -> (copy: Self)
        ensures
            copy == *self,
    {
        DisclosureSend {
            identifier: self.identifier,
            view: self.view,
            instance: self.instance,
            element: self.element.clone(),
            signature: self.signature.clone(),
        }
    }
}

/// A replica's word that it has seen `origin` disclose: in brief, by the
/// disclosure's identifier, or expanded, with the disclosure itself.
#[allow(inconsistent_fields)]
pub enum DisclosureEcho {
    Brief { origin: Identity, disclosure: Digest },
    Expanded { origin: Identity, disclosure: DisclosureSend },
}

impl DisclosureEcho {
    pub open spec fn spec_origin(&self) -> Identity {
        match *self {
            DisclosureEcho::Brief { origin, .. } => origin,
            DisclosureEcho::Expanded { origin, .. } => origin,
        }
    }

    /// Identifier of the disclosure that is echoed.
    pub open spec fn spec_disclosure(&self) -> Digest {
        match *self {
            DisclosureEcho::Brief { disclosure, .. } => disclosure,
            DisclosureEcho::Expanded { disclosure, .. } => disclosure.identifier,
        }
    }

    pub fn origin(&self) -> (origin: Identity)
        ensures
            origin == self.spec_origin(),
    {
        match self {
            DisclosureEcho::Brief { origin, .. } => *origin,
            DisclosureEcho::Expanded { origin, .. } => *origin,
        }
    }

    pub fn disclosure(&self) -> (disclosure: Digest)
        ensures
            disclosure == self.spec_disclosure(),
    {
        match self {
            DisclosureEcho::Brief { disclosure, .. } => *disclosure,
            DisclosureEcho::Expanded { disclosure, .. } => disclosure.identifier,
        }
    }
}

/// A replica's word that it is ready to deliver a disclosure of `origin`.
#[derive(Clone, Copy, Debug, PartialEq, Eq, Structural)]
pub struct DisclosureReady {
    pub origin: Identity,
    pub disclosure: Digest,
}

/// A proposer's request that `elements` be certified. `identifier` names
/// the set.
pub struct CertificationRequest {
    pub identifier: Digest,
    pub elements: DigestSet,
}

/// A replica's signature under the decision on the set that `identifier`
/// names.
pub struct CertificationConfirmation {
    pub identifier: Digest,
    pub signature: MultiSignature,
}

/// A replica's answer to a request that it does not confirm: what it has
/// accepted and the request lacks.
pub struct CertificationUpdate {
    pub identifier: Digest,
    pub differences: DigestSet,
}

/// What replicas tell each other in an instance of lattice agreement.
pub enum Message {
    DisclosureSend(DisclosureSend),
    DisclosureEcho(DisclosureEcho),
    DisclosureReady(DisclosureReady),
    CertificationRequest(CertificationRequest),
    CertificationConfirmation(CertificationConfirmation),
    CertificationUpdate(CertificationUpdate),
}

impl Message {
    pub open spec fn wf(&self) -> bool {
        match *self {
            Message::CertificationRequest(request) => request.elements.wf(),
            Message::CertificationUpdate(update) => update.differences.wf(),
            _ => true,
        }
    }
}

/// What the checks made outside this library found about a message.
#[derive(Clone, Copy, Debug, PartialEq, Eq, Structural)]
pub struct Evidence {
    /// The signature that the message carries verifies: for a disclosure,
    /// with the origin's key over the disclosure; for a confirmation, with
    /// the source's key over the decision on the current proposal.
    pub signature_valid: bool,
    /// The element that the message carries is valid in the view.
    pub element_valid: bool,
}

/// Why a message is invalid.
#[derive(Clone, Copy, Debug, PartialEq, Eq, Structural)]
pub enum MessageError {
    ForeignView,
    ForeignInstance,
    ForeignOrigin,
    IncorrectSignature,
    InvalidElement,
    EmptyCertificationRequest,
    UnsafeElement,
}

/// Why a message is dropped.
#[derive(Clone, Copy, Debug, PartialEq, Eq, Structural)]
pub enum HandleError {
    /// The source is no member of the view.
    ForeignSource,
    InvalidMessage,
}

/// What the runner asks of whoever runs it.
#[allow(inconsistent_fields)]
pub enum Effect {
    /// Sign the disclosure of `element` and send it to every member.
    Disclose { view: Digest, instance: Digest, element: Element },
    /// Echo `disclosure` of `origin` to every member: in brief first, and
    /// expanded to whoever asks.
    Echo { origin: Identity, disclosure: DisclosureSend },
    /// Tell every member that the disclosure of `origin` is ready.
    Ready { origin: Identity, disclosure: Digest },
    /// Ask every member to certify `elements`, and tell the runner the
    /// identifier that names the set.
    Certify { elements: DigestSet },
    /// Sign the decision on `elements` and send `to` the confirmation.
    Confirm { to: Identity, identifier: Digest, elements: DigestSet },
    /// Send `to` the update.
    Update { to: Identity, identifier: Digest, differences: DigestSet },
    /// Aggregate `shards`, signed by `signers` in this order, into the
    /// certificate of the decision on `elements`, and hand both out.
    Decide { elements: Vec<Element>, signers: Vec<Identity>, shards: Vec<MultiSignature> },
}

/// An effect as mathematics.
#[allow(inconsistent_fields)]
pub enum EffectModel {
    Disclose { view: Digest, instance: Digest, element: Element },
    Echo { origin: Identity, disclosure: DisclosureSend },
    Ready { origin: Identity, disclosure: Digest },
    Certify { elements: Set<Digest> },
    Confirm { to: Identity, identifier: Digest, elements: Set<Digest> },
    Update { to: Identity, identifier: Digest, differences: Set<Digest> },
    Decide { elements: Seq<Element>, signers: Seq<Identity>, shards: Seq<MultiSignature> },
}

impl View for Effect {
    type V = EffectModel;

    open spec fn view(&self) -> EffectModel {
        match *self {
            Effect::Disclose { view, instance, element } => EffectModel::Disclose {
                view,
                instance,
                element,
            },
            Effect::Echo { origin, disclosure } => EffectModel::Echo { origin, disclosure },
            Effect::Ready { origin, disclosure } => EffectModel::Ready { origin, disclosure },
            Effect::Certify { elements } => EffectModel::Certify { elements: elements@ },
            Effect::Confirm { to, identifier, elements } => EffectModel::Confirm {
                to,
                identifier,
                elements: elements@,
            },
            Effect::Update { to, identifier, differences } => EffectModel::Update {
                to,
                identifier,
                differences: differences@,
            },
            Effect::Decide { elements, signers, shards } => EffectModel::Decide {
                elements: elements@,
                signers: signers@,
                shards: shards@,
            },
        }
    }
}

/// The effects as mathematics, in order.
pub open spec fn effects_of(effects: Seq<Effect>) -> Seq<EffectModel> {
    effects.map_values(|effect: Effect| effect@)
}

} // verus!
