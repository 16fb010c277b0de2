//! The lattice runner as mathematics: what it holds, and what each
//! proposal and each message does to it.

use crate::crypto::Digest;
use crate::crypto::Identity;
use crate::crypto::MultiSignature;
use crate::data::digest_set::strictly_increasing;
use crate::data::Pair;
use crate::lattice::acceptor::accept;
use crate::lattice::acceptor::accepted_after;
use crate::lattice::acceptor::confirmed_at;
use crate::lattice::acceptor::confirms;
use crate::lattice::acceptor::differences;
use crate::lattice::DisclosureEcho;
use crate::lattice::DisclosureReady;
use crate::lattice::DisclosureSend;
use crate::lattice::EffectModel;
use crate::lattice::Element;
use crate::lattice::Evidence;
use crate::lattice::Message;
use crate::lattice::MessageError;
use vstd::prelude::*;

verus! {

/// How far a runner has come.
#[derive(Clone, Copy, Debug, PartialEq, Eq, Structural)]
pub enum Phase {
    /// Disclosures are being exchanged.
    Disclosing,
    /// A set is proposed for certification.
    Proposing,
    /// The decision is out.
    Decided,
}

/// The set that a runner has proposed, and the confirmations it got.
pub struct ProposalModel {
    pub elements: Set<Digest>,
    /// The identifier that names the set, once it is known.
    pub identifier: Option<Digest>,
    /// Who confirmed, in order of arrival.
    pub signers: Seq<Identity>,
    /// The signatures of those who confirmed, in the same order.
    pub shards: Seq<MultiSignature>,
}

/// All that a runner holds.
pub struct Snapshot {
    pub phase: Phase,
    /// Whether the local replica disclosed an element.
    pub disclosed: bool,
    /// The elements delivered, by identifier: the safe set.
    pub elements: Map<Digest, Element>,
    /// The elements accepted in answer to certification requests.
    pub accepted: Set<Digest>,
    /// (origin, disclosure) to the disclosure received.
    pub received: Map<Pair, DisclosureSend>,
    /// Origin to the disclosure of it that the local replica echoed.
    pub echoes_sent: Map<Identity, Digest>,
    /// (source, origin) for each source that echoed a disclosure of origin.
    pub echoes_collected: Set<Pair>,
    /// (origin, disclosure) to the number of distinct echoes.
    pub echo_support: Map<Pair, usize>,
    /// The origins for which the local replica said it was ready.
    pub ready_sent: Set<Identity>,
    /// (source, origin) for each source that was ready for origin.
    pub ready_collected: Set<Pair>,
    /// (origin, disclosure) to the number of distinct ready messages.
    pub ready_support: Map<Pair, usize>,
    /// The origins whose disclosure was delivered.
    pub delivered: Set<Identity>,
    pub proposal: Option<ProposalModel>,
}

/// What a runner is set up with.
pub struct Context {
    pub view: Digest,
    pub instance: Digest,
    pub members: Set<Identity>,
    pub quorum: nat,
    pub plurality: nat,
}

/// The outcome of one step: the new state, and what is asked of whoever
/// runs the runner.
pub struct Step {
    pub state: Snapshot,
    pub effects: Seq<EffectModel>,
}

/// The elements of `set` in increasing order.
pub open spec fn sorted(set: Set<Digest>) -> Seq<Digest> {
    choose|listing: Seq<Digest>| strictly_increasing(listing) && listing.to_set() == set
}

pub open spec fn pair(first: Digest, second: Digest) -> Pair {
    Pair { first, second }
}

/// The count under `key`; none counts as zero.
pub open spec fn support(counts: Map<Pair, usize>, key: Pair) -> usize {
    if counts.dom().contains(key) {
        counts[key]
    } else {
        0
    }
}

/// One more, as far as the machine can count.
pub open spec fn bump(count: usize) -> usize {
    if count < usize::MAX {
        (count + 1) as usize
    } else {
        count
    }
}

/// The state of a runner that has seen nothing yet.
pub open spec fn initial() -> Snapshot {
    Snapshot {
        phase: Phase::Disclosing,
        disclosed: false,
        elements: Map::empty(),
        accepted: Set::empty(),
        received: Map::empty(),
        echoes_sent: Map::empty(),
        echoes_collected: Set::empty(),
        echo_support: Map::empty(),
        ready_sent: Set::empty(),
        ready_collected: Set::empty(),
        ready_support: Map::empty(),
        delivered: Set::empty(),
        proposal: None,
    }
}

/// The local replica proposes: it discloses the element unless it has
/// disclosed one before.
pub open spec fn on_proposal(context: Context, state: Snapshot, element: Element) -> Step {
    if state.disclosed {
        Step { state, effects: Seq::empty() }
    } else {
        Step {
            state: Snapshot { disclosed: true, ..state },
            effects: seq![
                EffectModel::Disclose { view: context.view, instance: context.instance, element },
            ],
        }
    }
}

/// The runner proposes `elements` for certification.
pub open spec fn certify(state: Snapshot, elements: Set<Digest>) -> Step {
    Step {
        state: Snapshot {
            phase: Phase::Proposing,
            proposal: Some(
                ProposalModel {
                    elements,
                    identifier: None,
                    signers: Seq::empty(),
                    shards: Seq::empty(),
                },
            ),
            ..state
        },
        effects: seq![EffectModel::Certify { elements }],
    }
}

/// The disclosure of `origin` is delivered once a quorum is ready for it,
/// the disclosure itself is at hand, and none of `origin` was delivered
/// before: its element joins the safe set. A runner that is still
/// disclosing, and has now delivered for a plurality of origins, proposes
/// the safe set.
pub open spec fn try_deliver(context: Context, state: Snapshot, origin: Identity, disclosure: Digest) -> Step {
    let key = pair(origin, disclosure);
    if support(state.ready_support, key) >= context.quorum && state.received.dom().contains(key)
        && !state.delivered.contains(origin) {
        let element = state.received[key].element;
        let delivered = Snapshot {
            elements: state.elements.insert(element.spec_identifier(), element),
            delivered: state.delivered.insert(origin),
            ..state
        };
        if state.phase is Disclosing && delivered.delivered.len() >= context.plurality {
            certify(delivered, delivered.elements.dom())
        } else {
            Step { state: delivered, effects: Seq::empty() }
        }
    } else {
        Step { state, effects: Seq::empty() }
    }
}

/// The local replica says once, for each origin, that it is ready.
pub open spec fn issue_ready(state: Snapshot, origin: Identity, disclosure: Digest) -> Step {
    if state.ready_sent.contains(origin) {
        Step { state, effects: Seq::empty() }
    } else {
        Step {
            state: Snapshot { ready_sent: state.ready_sent.insert(origin), ..state },
            effects: seq![EffectModel::Ready { origin, disclosure }],
        }
    }
}

/// A disclosure comes in from its origin: it is kept, and delivered if it
/// was all that was missing; the first disclosure of each origin is echoed.
pub open spec fn on_send(context: Context, state: Snapshot, source: Identity, message: DisclosureSend) -> Step {
    let key = pair(source, message.identifier);
    let kept = Snapshot { received: state.received.insert(key, message), ..state };
    let stored = if state.received.dom().contains(key) {
        Step { state: kept, effects: Seq::empty() }
    } else {
        try_deliver(context, kept, source, message.identifier)
    };
    if stored.state.echoes_sent.dom().contains(source) {
        stored
    } else {
        Step {
            state: Snapshot {
                echoes_sent: stored.state.echoes_sent.insert(source, message.identifier),
                ..stored.state
            },
            effects: stored.effects.push(EffectModel::Echo { origin: source, disclosure: message }),
        }
    }
}

/// An echo comes in: an expanded one brings the disclosure, which is kept
/// if it is new, and delivered if it was all that was missing. The first
/// echo of each source for each origin counts; at a quorum of echoes the
/// local replica is ready.
pub open spec fn on_echo(context: Context, state: Snapshot, source: Identity, echo: DisclosureEcho) -> Step {
    let origin = echo.spec_origin();
    let disclosure = echo.spec_disclosure();
    let key = pair(origin, disclosure);
    let stored = match echo {
        DisclosureEcho::Expanded { disclosure: message, .. } => {
            if state.received.dom().contains(key) {
                Step { state, effects: Seq::empty() }
            } else {
                try_deliver(
                    context,
                    Snapshot { received: state.received.insert(key, message), ..state },
                    origin,
                    disclosure,
                )
            }
        },
        DisclosureEcho::Brief { .. } => Step { state, effects: Seq::empty() },
    };
    if stored.state.echoes_collected.contains(pair(source, origin)) {
        stored
    } else {
        let count = bump(support(stored.state.echo_support, key));
        let counted = Snapshot {
            echoes_collected: stored.state.echoes_collected.insert(pair(source, origin)),
            echo_support: stored.state.echo_support.insert(key, count),
            ..stored.state
        };
        if count >= context.quorum {
            let ready = issue_ready(counted, origin, disclosure);
            Step { state: ready.state, effects: stored.effects + ready.effects }
        } else {
            Step { state: counted, effects: stored.effects }
        }
    }
}

/// A ready message comes in: the first of each source for each origin
/// counts; at a plurality the local replica is ready too, and at a quorum
/// the disclosure is delivered if it is at hand.
pub open spec fn on_ready(context: Context, state: Snapshot, source: Identity, ready: DisclosureReady) -> Step {
    let key = pair(ready.origin, ready.disclosure);
    if state.ready_collected.contains(pair(source, ready.origin)) {
        Step { state, effects: Seq::empty() }
    } else {
        let count = bump(support(state.ready_support, key));
        let counted = Snapshot {
            ready_collected: state.ready_collected.insert(pair(source, ready.origin)),
            ready_support: state.ready_support.insert(key, count),
            ..state
        };
        let issued = if count >= context.plurality {
            issue_ready(counted, ready.origin, ready.disclosure)
        } else {
            Step { state: counted, effects: Seq::empty() }
        };
        if count >= context.quorum {
            let delivered = try_deliver(context, issued.state, ready.origin, ready.disclosure);
            Step { state: delivered.state, effects: issued.effects + delivered.effects }
        } else {
            issued
        }
    }
}

/// A certification request comes in: the replica confirms it if it holds
/// all that the replica has accepted, and else tells what it lacks; either
/// way the replica accepts all that it holds.
pub open spec fn on_request(state: Snapshot, source: Identity, identifier: Digest, elements: Set<Digest>) -> Step {
    Step {
        state: Snapshot { accepted: accept(state.accepted, elements), ..state },
        effects: if confirms(state.accepted, elements) {
            seq![EffectModel::Confirm { to: source, identifier, elements }]
        } else {
            seq![
                EffectModel::Update {
                    to: source,
                    identifier,
                    differences: differences(state.accepted, elements),
                },
            ]
        },
    }
}

/// The elements of a decision, in increasing order of identifier.
pub open spec fn decided_elements(state: Snapshot, elements: Set<Digest>) -> Seq<Element> {
    sorted(elements).map_values(|identifier: Digest| state.elements[identifier])
}

/// A confirmation comes in: it counts if it names the current proposal and
/// its source has not confirmed before; at a quorum the runner decides.
pub open spec fn on_confirmation(
    context: Context,
    state: Snapshot,
    source: Identity,
    identifier: Digest,
    signature: MultiSignature,
) -> Step {
    match state.proposal {
        Some(proposal) => {
            if state.phase is Proposing && proposal.identifier == Some(identifier)
                && !proposal.signers.contains(source) {
                let signers = proposal.signers.push(source);
                let shards = proposal.shards.push(signature);
                if signers.len() >= context.quorum {
                    Step {
                        state: Snapshot { phase: Phase::Decided, proposal: None, ..state },
                        effects: seq![
                            EffectModel::Decide {
                                elements: decided_elements(state, proposal.elements),
                                signers,
                                shards,
                            },
                        ],
                    }
                } else {
                    Step {
                        state: Snapshot {
                            proposal: Some(ProposalModel { signers, shards, ..proposal }),
                            ..state
                        },
                        effects: Seq::empty(),
                    }
                }
            } else {
                Step { state, effects: Seq::empty() }
            }
        },
        None => Step { state, effects: Seq::empty() },
    }
}

/// An update comes in: if it names the current proposal and brings
/// elements that the proposal lacks, the runner proposes the union.
pub open spec fn on_update(state: Snapshot, identifier: Digest, brought: Set<Digest>) -> Step {
    match state.proposal {
        Some(proposal) => {
            if state.phase is Proposing && proposal.identifier == Some(identifier)
                && !brought.subset_of(proposal.elements) {
                certify(state, proposal.elements.union(brought))
            } else {
                Step { state, effects: Seq::empty() }
            }
        },
        None => Step { state, effects: Seq::empty() },
    }
}

/// The identifier that names the current proposal becomes known.
pub open spec fn on_identified(state: Snapshot, identifier: Digest) -> Snapshot {
    match state.proposal {
        Some(proposal) => {
            if proposal.identifier is None {
                Snapshot {
                    proposal: Some(ProposalModel { identifier: Some(identifier), ..proposal }),
                    ..state
                }
            } else {
                state
            }
        },
        None => state,
    }
}

/// Whether a disclosure is fit to be processed.
pub open spec fn validate_send(context: Context, message: DisclosureSend, evidence: Evidence) -> Result<
    (),
    MessageError,
> {
    if message.view != context.view {
        Err(MessageError::ForeignView)
    } else if message.instance != context.instance {
        Err(MessageError::ForeignInstance)
    } else if !evidence.signature_valid {
        Err(MessageError::IncorrectSignature)
    } else if !evidence.element_valid {
        Err(MessageError::InvalidElement)
    } else {
        Ok(())
    }
}

/// Whether a set of elements is fit to be certified: it is not empty, and
/// all of it is safe.
pub open spec fn validate_elements(state: Snapshot, elements: Set<Digest>) -> Result<(), MessageError> {
    if elements == Set::<Digest>::empty() {
        Err(MessageError::EmptyCertificationRequest)
    } else if !elements.subset_of(state.elements.dom()) {
        Err(MessageError::UnsafeElement)
    } else {
        Ok(())
    }
}

/// Whether a message is fit to be processed.
pub open spec fn validate(context: Context, state: Snapshot, message: Message, evidence: Evidence) -> Result<
    (),
    MessageError,
> {
    match message {
        Message::DisclosureSend(message) => validate_send(context, message, evidence),
        Message::DisclosureEcho(DisclosureEcho::Brief { origin, .. }) => if context.members.contains(
            origin,
        ) {
            Ok(())
        } else {
            Err(MessageError::ForeignOrigin)
        },
        Message::DisclosureEcho(DisclosureEcho::Expanded { origin, disclosure }) => if !context.members.contains(
            origin,
        ) {
            Err(MessageError::ForeignOrigin)
        } else {
            validate_send(context, disclosure, evidence)
        },
        Message::DisclosureReady(ready) => if context.members.contains(ready.origin) {
            Ok(())
        } else {
            Err(MessageError::ForeignOrigin)
        },
        Message::CertificationRequest(request) => validate_elements(state, request.elements@),
        Message::CertificationConfirmation(_) => if evidence.signature_valid {
            Ok(())
        } else {
            Err(MessageError::IncorrectSignature)
        },
        Message::CertificationUpdate(update) => validate_elements(state, update.differences@),
    }
}

/// What a valid message of a member does.
pub open spec fn process(context: Context, state: Snapshot, source: Identity, message: Message) -> Step {
    match message {
        Message::DisclosureSend(message) => on_send(context, state, source, message),
        Message::DisclosureEcho(echo) => on_echo(context, state, source, echo),
        Message::DisclosureReady(ready) => on_ready(context, state, source, ready),
        Message::CertificationRequest(request) => on_request(
            state,
            source,
            request.identifier,
            request.elements@,
        ),
        Message::CertificationConfirmation(confirmation) => on_confirmation(
            context,
            state,
            source,
            confirmation.identifier,
            confirmation.signature,
        ),
        Message::CertificationUpdate(update) => on_update(
            state,
            update.identifier,
            update.differences@,
        ),
    }
}

/// The increasing listing that a digest set keeps is the sorted listing
/// of its elements.
pub proof fn lemma_sorted_listing(set: crate::data::DigestSet)
    requires
        set.wf(),
    ensures
        set.ordered() == sorted(set@),
{
    set.lemma_ordered();
    let listing = set.ordered();
    assert(strictly_increasing(listing) && listing.to_set() == set@);
    crate::data::digest_set::lemma_increasing_unique(listing, sorted(set@));
}

/// A runner follows the acceptor's rule: only a certification request
/// changes what it has accepted, and it does so by accepting the request.
pub proof fn lemma_process_accepts(context: Context, state: Snapshot, source: Identity, message: Message)
    ensures
        process(context, state, source, message).state.accepted == match message {
            Message::CertificationRequest(request) => accept(state.accepted, request.elements@),
            _ => state.accepted,
        },
        message matches Message::CertificationRequest(request) ==> (confirms(
            state.accepted,
            request.elements@,
        ) <==> process(context, state, source, message).effects == seq![
            EffectModel::Confirm {
                to: source,
                identifier: request.identifier,
                elements: request.elements@,
            },
        ]),
{
    match message {
        Message::CertificationRequest(request) => {
            let step = on_request(state, source, request.identifier, request.elements@);
            if !confirms(state.accepted, request.elements@) {
                assert(step.effects[0] is Update);
            }
        },
        _ => {},
    }
}

/// A replica discloses once at most: once it has disclosed, a proposal
/// has no effect.
pub proof fn lemma_discloses_once(context: Context, state: Snapshot, first: Element, second: Element)
    ensures
        on_proposal(context, on_proposal(context, state, first).state, second).effects
            == Seq::<EffectModel>::empty(),
        on_proposal(context, on_proposal(context, state, first).state, second).state
            == on_proposal(context, state, first).state,
{
}

/// A decision is final: a runner that has decided stays so, and no
/// message makes it decide or propose again.
pub proof fn lemma_decided_is_final(context: Context, state: Snapshot, source: Identity, message: Message)
    requires
        state.phase is Decided,
    ensures
        process(context, state, source, message).state.phase is Decided,
        forall|i: int|
            0 <= i < process(context, state, source, message).effects.len() ==> !(process(
                context,
                state,
                source,
                message,
            ).effects[i] is Decide) && !(process(context, state, source, message).effects[i]
                is Certify),
{
}

/// A decision is certified by a quorum: when a confirmation makes the
/// runner decide, at least a quorum of distinct replicas have confirmed
/// the proposal, the source of that confirmation among them.
pub proof fn lemma_decision_has_quorum(
    context: Context,
    state: Snapshot,
    source: Identity,
    identifier: Digest,
    signature: MultiSignature,
)
    requires
        state.proposal matches Some(proposal) && proposal.signers.no_duplicates(),
    ensures
        forall|i: int|
            0 <= i < on_confirmation(context, state, source, identifier, signature).effects.len()
                ==> (#[trigger] on_confirmation(
                context,
                state,
                source,
                identifier,
                signature,
            ).effects[i] matches EffectModel::Decide { signers, shards, .. } ==> signers.len()
                >= context.quorum && signers.no_duplicates() && signers.contains(source)
                && shards.len() == state.proposal->0.shards.len() + 1),
{
    let proposal = state.proposal->0;
    let signers = proposal.signers.push(source);
    if state.phase is Proposing && proposal.identifier == Some(identifier)
        && !proposal.signers.contains(source) {
        assert(signers[signers.len() - 1] == source);
        assert forall|i: int, j: int| 0 <= i < signers.len() && 0 <= j < signers.len() && i
            != j implies signers[i] != signers[j] by {
            if i < proposal.signers.len() {
                assert(proposal.signers.contains(signers[i]));
            }
            if j < proposal.signers.len() {
                assert(proposal.signers.contains(signers[j]));
            }
        }
    }
}

/// An updated proposal strictly grows: when an update makes the runner
/// propose again, the new proposal holds all of the old and more.
pub proof fn lemma_update_grows(state: Snapshot, identifier: Digest, brought: Set<Digest>)
    requires
        state.proposal is Some,
    ensures
        on_update(state, identifier, brought).effects.len() > 0 ==> {
            &&& on_update(state, identifier, brought).state.proposal matches Some(grown)
            &&& state.proposal->0.elements.subset_of(grown.elements)
            &&& grown.elements != state.proposal->0.elements
            &&& brought.subset_of(grown.elements)
        },
{
    let proposal = state.proposal->0;
    if state.phase is Proposing && proposal.identifier == Some(identifier) && !brought.subset_of(
        proposal.elements,
    ) {
        let grown = proposal.elements.union(brought);
        if grown == proposal.elements {
            assert(brought.subset_of(proposal.elements)) by {
                assert forall|element: Digest| brought.contains(element) implies proposal.elements.contains(
                    element,
                ) by {
                    assert(grown.contains(element));
                }
            }
        }
    }
}

/// A replica delivers once at most for each origin, and only what a
/// quorum is ready for: a delivery adds its origin to the delivered, and
/// nothing is delivered for an origin that is among them or short of a
/// quorum of ready messages.
pub proof fn lemma_delivers_once(context: Context, state: Snapshot, origin: Identity, disclosure: Digest)
    ensures
        state.delivered.contains(origin) || support(state.ready_support, pair(origin, disclosure))
            < context.quorum ==> try_deliver(context, state, origin, disclosure).state == state
            && try_deliver(context, state, origin, disclosure).effects == Seq::<
            EffectModel,
        >::empty(),
        try_deliver(context, state, origin, disclosure).state.elements != state.elements
            ==> !state.delivered.contains(origin) && try_deliver(
            context,
            state,
            origin,
            disclosure,
        ).state.delivered.contains(origin),
        state.delivered.subset_of(try_deliver(context, state, origin, disclosure).state.delivered),
{
}

/// The local replica says that it is ready once at most for each origin.
pub proof fn lemma_ready_once(state: Snapshot, origin: Identity, first: Digest, second: Digest)
    ensures
        issue_ready(issue_ready(state, origin, first).state, origin, second).effects == Seq::<
            EffectModel,
        >::empty(),
{
}

/// What is safe stays safe, and what is accepted stays accepted: no
/// message takes an element out of either set.
pub proof fn lemma_sets_grow(context: Context, state: Snapshot, source: Identity, message: Message)
    ensures
        state.elements.dom().subset_of(process(context, state, source, message).state.elements.dom()),
        state.accepted.subset_of(process(context, state, source, message).state.accepted),
        state.delivered.subset_of(process(context, state, source, message).state.delivered),
{
    lemma_process_accepts(context, state, source, message);
}

/// What holds of a runner at all times: it holds a proposal exactly while
/// it is proposing; what it proposes and what it has accepted is safe;
/// and each replica that confirmed its proposal is counted once, with its
/// signature.
pub open spec fn steady(state: Snapshot) -> bool {
    &&& state.phase is Proposing <==> state.proposal is Some
    &&& state.accepted.subset_of(state.elements.dom())
    &&& state.proposal matches Some(proposal) ==> {
        &&& proposal.elements.subset_of(state.elements.dom())
        &&& proposal.signers.no_duplicates()
        &&& proposal.shards.len() == proposal.signers.len()
    }
}

/// A runner that has seen nothing yet is as it should be.
pub proof fn lemma_initial_steady()
    ensures
        steady(initial()),
{
}

/// A proposal of the local replica, the naming of the current proposal,
/// and every valid message leave a runner as it should be.
pub proof fn lemma_steady(
    context: Context,
    state: Snapshot,
    source: Identity,
    message: Message,
    evidence: Evidence,
    element: Element,
    identifier: Digest,
)
    requires
        steady(state),
    ensures
        steady(on_proposal(context, state, element).state),
        steady(on_identified(state, identifier)),
        validate(context, state, message, evidence) is Ok ==> steady(
            process(context, state, source, message).state,
        ),
{
    if validate(context, state, message, evidence) is Ok {
        match message {
            Message::DisclosureSend(message) => {
                let key = pair(source, message.identifier);
                let kept = Snapshot { received: state.received.insert(key, message), ..state };
                lemma_deliver_steady(context, kept, source, message.identifier);
            },
            Message::DisclosureEcho(echo) => {
                let origin = echo.spec_origin();
                let disclosure = echo.spec_disclosure();
                let key = pair(origin, disclosure);
                match echo {
                    DisclosureEcho::Expanded { disclosure: message, .. } => {
                        lemma_deliver_steady(
                            context,
                            Snapshot { received: state.received.insert(key, message), ..state },
                            origin,
                            disclosure,
                        );
                    },
                    DisclosureEcho::Brief { .. } => {},
                }
            },
            Message::DisclosureReady(ready) => {
                let key = pair(ready.origin, ready.disclosure);
                let count = bump(support(state.ready_support, key));
                let counted = Snapshot {
                    ready_collected: state.ready_collected.insert(pair(source, ready.origin)),
                    ready_support: state.ready_support.insert(key, count),
                    ..state
                };
                lemma_deliver_steady(
                    context,
                    issue_ready(counted, ready.origin, ready.disclosure).state,
                    ready.origin,
                    ready.disclosure,
                );
                lemma_deliver_steady(context, counted, ready.origin, ready.disclosure);
            },
            Message::CertificationRequest(_) => {},
            Message::CertificationConfirmation(confirmation) => {
                if state.proposal is Some {
                    lemma_decision_has_quorum(
                        context,
                        state,
                        source,
                        confirmation.identifier,
                        confirmation.signature,
                    );
                    let proposal = state.proposal->0;
                    let signers = proposal.signers.push(source);
                    if !proposal.signers.contains(source) {
                        assert forall|i: int, j: int|
                            0 <= i < signers.len() && 0 <= j < signers.len() && i
                                != j implies signers[i] != signers[j] by {
                            if i < proposal.signers.len() {
                                assert(proposal.signers.contains(signers[i]));
                            }
                            if j < proposal.signers.len() {
                                assert(proposal.signers.contains(signers[j]));
                            }
                        }
                    }
                }
            },
            Message::CertificationUpdate(_) => {},
        }
    }
}

proof fn lemma_deliver_steady(context: Context, state: Snapshot, origin: Identity, disclosure: Digest)
    requires
        steady(state),
    ensures
        steady(try_deliver(context, state, origin, disclosure).state),
{
}

/// A decision holds safe elements only: every element that a runner
/// decides on was delivered to it.
pub proof fn lemma_decision_is_safe(
    context: Context,
    state: Snapshot,
    source: Identity,
    identifier: Digest,
    signature: MultiSignature,
)
    requires
        steady(state),
    ensures
        forall|i: int|
            0 <= i < on_confirmation(context, state, source, identifier, signature).effects.len()
                ==> (#[trigger] on_confirmation(
                context,
                state,
                source,
                identifier,
                signature,
            ).effects[i] is Decide ==> state.proposal is Some
                && state.proposal->0.elements.subset_of(state.elements.dom())),
{
}

/// A message as a runner takes it in: who sent it, and what it says.
pub struct Input {
    pub source: Identity,
    pub message: Message,
}

/// The state of a runner once it has processed `inputs` in order.
pub open spec fn run(context: Context, state: Snapshot, inputs: Seq<Input>) -> Snapshot
    decreases inputs.len(),
{
    if inputs.len() == 0 {
        state
    } else {
        process(
            context,
            run(context, state, inputs.drop_last()),
            inputs.last().source,
            inputs.last().message,
        ).state
    }
}

/// The sets that the certification requests among `inputs` ask for, in
/// order.
pub open spec fn requests_in(inputs: Seq<Input>) -> Seq<Set<Digest>>
    decreases inputs.len(),
{
    if inputs.len() == 0 {
        Seq::empty()
    } else {
        let earlier = requests_in(inputs.drop_last());
        match inputs.last().message {
            Message::CertificationRequest(request) => earlier.push(request.elements@),
            _ => earlier,
        }
    }
}

proof fn lemma_accepted_prefix(
    initial: Set<Digest>,
    requests: Seq<Set<Digest>>,
    last: Set<Digest>,
    count: nat,
)
    requires
        count <= requests.len(),
    ensures
        accepted_after(initial, requests.push(last), count) == accepted_after(
            initial,
            requests,
            count,
        ),
    decreases count,
{
    if count > 0 {
        lemma_accepted_prefix(initial, requests, last, (count - 1) as nat);
        assert(requests.push(last)[count - 1] == requests[count - 1]);
    }
}

/// A runner answers certification requests by the acceptor's rule,
/// whatever else it processes in between: what it has accepted after
/// `inputs` is what the rule makes of the requests among them, and it
/// confirms a request that comes after `inputs` exactly when the rule
/// does.
pub proof fn lemma_run_follows_rule(
    context: Context,
    state: Snapshot,
    inputs: Seq<Input>,
    source: Identity,
    request: crate::lattice::CertificationRequest,
)
    ensures
        run(context, state, inputs).accepted == accepted_after(
            state.accepted,
            requests_in(inputs),
            requests_in(inputs).len(),
        ),
        confirmed_at(
            state.accepted,
            requests_in(inputs).push(request.elements@),
            requests_in(inputs).len() as int,
        ) <==> process(
            context,
            run(context, state, inputs),
            source,
            Message::CertificationRequest(request),
        ).effects == seq![
            EffectModel::Confirm {
                to: source,
                identifier: request.identifier,
                elements: request.elements@,
            },
        ],
    decreases inputs.len(),
{
    if inputs.len() > 0 {
        let earlier = inputs.drop_last();
        let before = run(context, state, earlier);
        let requests = requests_in(earlier);
        match inputs.last().message {
            Message::CertificationRequest(last) => {
                lemma_run_follows_rule(context, state, earlier, inputs.last().source, last);
                lemma_accepted_prefix(state.accepted, requests, last.elements@, requests.len());
            },
            _ => {
                lemma_run_follows_rule(context, state, earlier, source, request);
            },
        }
        lemma_process_accepts(context, before, inputs.last().source, inputs.last().message);
    }
    let all = requests_in(inputs);
    lemma_accepted_prefix(state.accepted, all, request.elements@, all.len());
    lemma_process_accepts(
        context,
        run(context, state, inputs),
        source,
        Message::CertificationRequest(request),
    );
}

} // verus!
