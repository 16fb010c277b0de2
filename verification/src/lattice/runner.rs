use crate::crypto::Digest;
use crate::crypto::Identity;
use crate::crypto::MultiSignature;
use crate::data::DigestSet;
use crate::data::KeySet;
use crate::data::Pair;
use crate::data::Table;
use crate::lattice::message::effects_of;
use crate::lattice::model;
use crate::lattice::model::initial;
use crate::lattice::Context;
use crate::lattice::DisclosureEcho;
use crate::lattice::DisclosureReady;
use crate::lattice::DisclosureSend;
use crate::lattice::Effect;
use crate::lattice::EffectModel;
use crate::lattice::Element;
use crate::lattice::Evidence;
use crate::lattice::HandleError;
use crate::lattice::Message;
use crate::lattice::MessageError;
use crate::lattice::Phase;
use crate::lattice::ProposalModel;
use crate::lattice::Snapshot;
use crate::view::view::plurality_of;
use crate::view::view::quorum_of;
use crate::view::Committee;
use vstd::prelude::*;

verus! {

struct Proposal {
    elements: DigestSet,
    identifier: Option<Digest>,
    signers: KeySet<Digest>,
    shards: Vec<MultiSignature>,
}

/// One replica's part in one instance of lattice agreement in one view.
pub struct LatticeRunner {
    view: Committee,
    view_identifier: Digest,
    instance: Digest,
    phase: Phase,
    disclosed: bool,
    elements: Table<Digest, Element>,
    safe_set: DigestSet,
    accepted_set: DigestSet,
    received: Table<Pair, DisclosureSend>,
    echoes_sent: Table<Digest, Digest>,
    echoes_collected: KeySet<Pair>,
    echo_support: Table<Pair, usize>,
    ready_sent: KeySet<Digest>,
    ready_collected: KeySet<Pair>,
    ready_support: Table<Pair, usize>,
    delivered: KeySet<Digest>,
    proposal: Option<Proposal>,
}

/// Adding an effect adds its model.
proof fn lemma_effects_push(effects: Seq<Effect>, effect: Effect)
    ensures
        effects_of(effects.push(effect)) == effects_of(effects).push(effect@),
{
    assert(effects_of(effects.push(effect)) =~= effects_of(effects).push(effect@));
}

impl LatticeRunner {
    /// All that the runner holds.
    pub closed spec fn snapshot(&self) -> Snapshot {
        Snapshot {
            phase: self.phase,
            disclosed: self.disclosed,
            elements: self.elements@,
            accepted: self.accepted_set@,
            received: self.received@,
            echoes_sent: self.echoes_sent@,
            echoes_collected: self.echoes_collected@,
            echo_support: self.echo_support@,
            ready_sent: self.ready_sent@,
            ready_collected: self.ready_collected@,
            ready_support: self.ready_support@,
            delivered: self.delivered@,
            proposal: match self.proposal {
                Some(proposal) => Some(
                    ProposalModel {
                        elements: proposal.elements@,
                        identifier: proposal.identifier,
                        signers: proposal.signers.ordered(),
                        shards: proposal.shards@,
                    },
                ),
                None => None,
            },
        }
    }

    /// What the runner was set up with.
    pub closed spec fn context(&self) -> Context {
        Context {
            view: self.view_identifier,
            instance: self.instance,
            members: self.view.members(),
            quorum: quorum_of(self.view.members().len()),
            plurality: plurality_of(self.view.members().len()),
        }
    }

    pub closed spec fn wf(&self) -> bool {
        &&& self.view.wf()
        &&& self.elements.wf()
        &&& self.safe_set.wf()
        &&& self.accepted_set.wf()
        &&& self.received.wf()
        &&& self.echoes_sent.wf()
        &&& self.echoes_collected.wf()
        &&& self.echo_support.wf()
        &&& self.ready_sent.wf()
        &&& self.ready_collected.wf()
        &&& self.ready_support.wf()
        &&& self.delivered.wf()
        &&& self.safe_set@ == self.elements@.dom()
        &&& self.proposal matches Some(proposal) ==> {
            &&& proposal.elements.wf()
            &&& proposal.signers.wf()
            &&& proposal.shards@.len() == proposal.signers.ordered().len()
            &&& proposal.elements@.subset_of(self.elements@.dom())
        }
        &&& self.phase is Proposing <==> self.proposal is Some
        &&& self.accepted_set@.subset_of(self.elements@.dom())
    }

    /// A well-formed runner is as the model says a runner should be.
    pub proof fn lemma_steady(&self)
        requires
            self.wf(),
        ensures
            model::steady(self.snapshot()),
    {
        if let Some(proposal) = self.proposal {
            proposal.signers.lemma_ordered();
        }
    }

    /// A runner for `instance` in `view`, which `view_identifier` names.
    pub fn new(view: Committee, view_identifier: Digest, instance: Digest) -> (runner: LatticeRunner)
        requires
            view.wf(),
        ensures
            runner.wf(),
            runner.snapshot() == initial(),
            runner.context() == (Context {
                view: view_identifier,
                instance,
                members: view.members(),
                quorum: quorum_of(view.members().len()),
                plurality: plurality_of(view.members().len()),
            }),
    {
        let runner = LatticeRunner {
            view,
            view_identifier,
            instance,
            phase: Phase::Disclosing,
            disclosed: false,
            elements: Table::new(),
            safe_set: DigestSet::new(),
            accepted_set: DigestSet::new(),
            received: Table::new(),
            echoes_sent: Table::new(),
            echoes_collected: KeySet::new(),
            echo_support: Table::new(),
            ready_sent: KeySet::new(),
            ready_collected: KeySet::new(),
            ready_support: Table::new(),
            delivered: KeySet::new(),
            proposal: None,
        };
        assert(runner.safe_set@ =~= runner.elements@.dom());
        runner
    }

    pub fn phase(&self) -> (phase: Phase)
        ensures
            phase == self.snapshot().phase,
    {
        self.phase
    }

    /// Whether the local replica disclosed an element.
    pub fn disclosed(&self) -> (disclosed: bool)
        ensures
            disclosed == self.snapshot().disclosed,
    {
        self.disclosed
    }

    /// The identifiers of the safe elements, in increasing order.
    pub fn safe_elements(&self) -> (safe: Vec<Digest>)
        requires
            self.wf(),
        ensures
            safe@.to_set() == self.snapshot().elements.dom(),
            safe@ == model::sorted(self.snapshot().elements.dom()),
    {
        proof {
            self.safe_set.lemma_ordered();
            model::lemma_sorted_listing(self.safe_set);
        }
        self.safe_set.to_vec()
    }

    /// The identifiers of the accepted elements, in increasing order.
    pub fn accepted_elements(&self) -> (accepted: Vec<Digest>)
        requires
            self.wf(),
        ensures
            accepted@.to_set() == self.snapshot().accepted,
            accepted@ == model::sorted(self.snapshot().accepted),
    {
        proof {
            self.accepted_set.lemma_ordered();
            model::lemma_sorted_listing(self.accepted_set);
        }
        self.accepted_set.to_vec()
    }

    /// Takes the local replica's proposal: discloses it, unless an element
    /// was disclosed before. Tells whether the proposal was taken.
    pub fn handle_proposal(&mut self, proposal: Element) -> (outcome: (bool, Vec<Effect>))
        requires
            old(self).wf(),
        ensures
            final(self).wf(),
            final(self).context() == old(self).context(),
            outcome.0 == !old(self).snapshot().disclosed,
            final(self).snapshot() == model::on_proposal(
                old(self).context(),
                old(self).snapshot(),
                proposal,
            ).state,
            effects_of(outcome.1@) == model::on_proposal(
                old(self).context(),
                old(self).snapshot(),
                proposal,
            ).effects,
    {
        let mut effects: Vec<Effect> = Vec::new();
        if self.disclosed {
            assert(effects_of(effects@) =~= Seq::<EffectModel>::empty());
            (false, effects)
        } else {
            self.disclosed = true;
            effects.push(
                Effect::Disclose {
                    view: self.view_identifier,
                    instance: self.instance,
                    element: proposal,
                },
            );
            assert(effects_of(effects@) =~= seq![
                EffectModel::Disclose {
                    view: self.view_identifier,
                    instance: self.instance,
                    element: proposal,
                },
            ]);
            (true, effects)
        }
    }

    /// The identifier that names the current proposal becomes known.
    pub fn proposal_identified(&mut self, identifier: Digest)
        requires
            old(self).wf(),
        ensures
            final(self).wf(),
            final(self).context() == old(self).context(),
            final(self).snapshot() == model::on_identified(old(self).snapshot(), identifier),
    {
        let mut proposal: Option<Proposal> = None;
        std::mem::swap(&mut self.proposal, &mut proposal);
        match proposal {
            Some(proposal) => {
                let identifier = if proposal.identifier.is_none() {
                    Some(identifier)
                } else {
                    proposal.identifier
                };
                self.proposal = Some(
                    Proposal {
                        elements: proposal.elements,
                        identifier,
                        signers: proposal.signers,
                        shards: proposal.shards,
                    },
                );
            },
            None => {},
        }
    }

    fn certify(&mut self, elements: DigestSet, effects: &mut Vec<Effect>)
        requires
            old(self).wf(),
            elements.wf(),
            elements@.subset_of(old(self).snapshot().elements.dom()),
        ensures
            final(self).wf(),
            final(self).context() == old(self).context(),
            final(self).snapshot() == model::certify(old(self).snapshot(), elements@).state,
            effects_of(final(effects)@) == effects_of(old(effects)@) + model::certify(
                old(self).snapshot(),
                elements@,
            ).effects,
    {
        let announced = elements.clone();
        self.phase = Phase::Proposing;
        self.proposal = Some(
            Proposal { elements, identifier: None, signers: KeySet::new(), shards: Vec::new() },
        );
        let effect = Effect::Certify { elements: announced };
        proof {
            lemma_effects_push(effects@, effect);
            assert(effects_of(old(effects)@).push(effect@) =~= effects_of(old(effects)@) + seq![
                effect@,
            ]);
        }
        effects.push(effect);
    }

    fn issue_ready(&mut self, origin: Identity, disclosure: Digest, effects: &mut Vec<Effect>)
        requires
            old(self).wf(),
        ensures
            final(self).wf(),
            final(self).context() == old(self).context(),
            final(self).snapshot() == model::issue_ready(
                old(self).snapshot(),
                origin,
                disclosure,
            ).state,
            effects_of(final(effects)@) == effects_of(old(effects)@) + model::issue_ready(
                old(self).snapshot(),
                origin,
                disclosure,
            ).effects,
    {
        if self.ready_sent.insert(origin) {
            let effect = Effect::Ready { origin, disclosure };
            proof {
                lemma_effects_push(effects@, effect);
                assert(effects_of(old(effects)@).push(effect@) =~= effects_of(old(effects)@)
                    + seq![effect@]);
            }
            effects.push(effect);
        } else {
            assert(self.ready_sent@ =~= old(self).ready_sent@);
            assert(effects_of(effects@) =~= effects_of(old(effects)@) + Seq::<
                EffectModel,
            >::empty());
        }
    }

    fn try_deliver(&mut self, origin: Identity, disclosure: Digest, effects: &mut Vec<Effect>)
        requires
            old(self).wf(),
        ensures
            final(self).wf(),
            final(self).context() == old(self).context(),
            final(self).snapshot() == model::try_deliver(
                old(self).context(),
                old(self).snapshot(),
                origin,
                disclosure,
            ).state,
            effects_of(final(effects)@) == effects_of(old(effects)@) + model::try_deliver(
                old(self).context(),
                old(self).snapshot(),
                origin,
                disclosure,
            ).effects,
    {
        let key = Pair { first: origin, second: disclosure };
        let count = match self.ready_support.get(&key) {
            Some(count) => *count,
            None => 0,
        };
        let element = match self.received.get(&key) {
            Some(message) => Some(message.element.clone()),
            None => None,
        };
        if count >= self.view.quorum() && element.is_some() && !self.delivered.contains(&origin) {
            let element = element.unwrap();
            self.safe_set.insert(element.identifier());
            self.elements.insert(element.identifier(), element);
            self.delivered.insert(origin);
            assert(self.safe_set@ =~= self.elements@.dom());
            if matches!(self.phase, Phase::Disclosing) && self.delivered.len()
                >= self.view.plurality() {
                let proposed = self.safe_set.clone();
                self.certify(proposed, effects);
            } else {
                assert(effects_of(effects@) =~= effects_of(old(effects)@) + Seq::<
                    EffectModel,
                >::empty());
            }
        } else {
            assert(effects_of(effects@) =~= effects_of(old(effects)@) + Seq::<
                EffectModel,
            >::empty());
        }
    }

    fn process_disclosure_send(
        &mut self,
        source: Identity,
        message: DisclosureSend,
        effects: &mut Vec<Effect>,
    )
        requires
            old(self).wf(),
        ensures
            final(self).wf(),
            final(self).context() == old(self).context(),
            final(self).snapshot() == model::on_send(
                old(self).context(),
                old(self).snapshot(),
                source,
                message,
            ).state,
            effects_of(final(effects)@) == effects_of(old(effects)@) + model::on_send(
                old(self).context(),
                old(self).snapshot(),
                source,
                message,
            ).effects,
    {
        let identifier = message.identifier;
        let key = Pair { first: source, second: identifier };
        let echoed = message.clone();
        if self.received.insert(key, message).is_none() {
            self.try_deliver(source, identifier, effects);
        } else {
            assert(effects_of(effects@) =~= effects_of(old(effects)@) + Seq::<
                EffectModel,
            >::empty());
        }
        if !self.echoes_sent.contains_key(&source) {
            self.echoes_sent.insert(source, identifier);
            let effect = Effect::Echo { origin: source, disclosure: echoed };
            let ghost earlier = effects@;
            proof {
                lemma_effects_push(effects@, effect);
            }
            effects.push(effect);
            proof {
                let step = model::on_send(old(self).context(), old(self).snapshot(), source, message);
                assert(effects_of(effects@) =~= effects_of(old(effects)@) + step.effects);
            }
        }
    }

    fn process_disclosure_echo(&mut self, source: Identity, echo: DisclosureEcho, effects: &mut Vec<Effect>)
        requires
            old(self).wf(),
        ensures
            final(self).wf(),
            final(self).context() == old(self).context(),
            final(self).snapshot() == model::on_echo(
                old(self).context(),
                old(self).snapshot(),
                source,
                echo,
            ).state,
            effects_of(final(effects)@) == effects_of(old(effects)@) + model::on_echo(
                old(self).context(),
                old(self).snapshot(),
                source,
                echo,
            ).effects,
    {
        let origin = echo.origin();
        let disclosure = echo.disclosure();
        let key = Pair { first: origin, second: disclosure };
        match echo {
            DisclosureEcho::Expanded { disclosure: message, .. } => {
                if !self.received.contains_key(&key) {
                    self.received.insert(key, message);
                    self.try_deliver(origin, disclosure, effects);
                } else {
                    assert(effects_of(effects@) =~= effects_of(old(effects)@) + Seq::<
                        EffectModel,
                    >::empty());
                }
            },
            DisclosureEcho::Brief { .. } => {
                assert(effects_of(effects@) =~= effects_of(old(effects)@) + Seq::<
                    EffectModel,
                >::empty());
            },
        }
        let ghost stored = effects@;
        let ghost stored_state = self.snapshot();
        if self.echoes_collected.insert(Pair { first: source, second: origin }) {
            let count = match self.echo_support.get(&key) {
                Some(count) => *count,
                None => 0,
            };
            let count = if count < usize::MAX {
                count + 1
            } else {
                count
            };
            self.echo_support.insert(key, count);
            if count >= self.view.quorum() {
                self.issue_ready(origin, disclosure, effects);
            } else {
                assert(effects_of(effects@) =~= effects_of(stored) + Seq::<EffectModel>::empty());
            }
            proof {
                let step = model::on_echo(old(self).context(), old(self).snapshot(), source, echo);
                assert(effects_of(effects@) =~= effects_of(old(effects)@) + step.effects);
            }
        } else {
            assert(self.echoes_collected@ =~= stored_state.echoes_collected);
        }
    }

    fn process_disclosure_ready(&mut self, source: Identity, ready: DisclosureReady, effects: &mut Vec<Effect>)
        requires
            old(self).wf(),
        ensures
            final(self).wf(),
            final(self).context() == old(self).context(),
            final(self).snapshot() == model::on_ready(
                old(self).context(),
                old(self).snapshot(),
                source,
                ready,
            ).state,
            effects_of(final(effects)@) == effects_of(old(effects)@) + model::on_ready(
                old(self).context(),
                old(self).snapshot(),
                source,
                ready,
            ).effects,
    {
        let key = Pair { first: ready.origin, second: ready.disclosure };
        if self.ready_collected.insert(Pair { first: source, second: ready.origin }) {
            let count = match self.ready_support.get(&key) {
                Some(count) => *count,
                None => 0,
            };
            let count = if count < usize::MAX {
                count + 1
            } else {
                count
            };
            self.ready_support.insert(key, count);
            if count >= self.view.plurality() {
                self.issue_ready(ready.origin, ready.disclosure, effects);
            } else {
                assert(effects_of(effects@) =~= effects_of(old(effects)@) + Seq::<
                    EffectModel,
                >::empty());
            }
            let ghost issued = effects@;
            if count >= self.view.quorum() {
                self.try_deliver(ready.origin, ready.disclosure, effects);
            } else {
                assert(effects_of(effects@) =~= effects_of(issued) + Seq::<EffectModel>::empty());
            }
            proof {
                let step = model::on_ready(old(self).context(), old(self).snapshot(), source, ready);
                assert(effects_of(effects@) =~= effects_of(old(effects)@) + step.effects);
            }
        } else {
            assert(self.ready_collected@ =~= old(self).ready_collected@);
            assert(effects_of(effects@) =~= effects_of(old(effects)@) + Seq::<
                EffectModel,
            >::empty());
        }
    }

    fn process_certification_request(
        &mut self,
        source: Identity,
        identifier: Digest,
        elements: DigestSet,
        effects: &mut Vec<Effect>,
    )
        requires
            old(self).wf(),
            elements.wf(),
            elements@.subset_of(old(self).snapshot().elements.dom()),
        ensures
            final(self).wf(),
            final(self).context() == old(self).context(),
            final(self).snapshot() == model::on_request(
                old(self).snapshot(),
                source,
                identifier,
                elements@,
            ).state,
            effects_of(final(effects)@) == effects_of(old(effects)@) + model::on_request(
                old(self).snapshot(),
                source,
                identifier,
                elements@,
            ).effects,
    {
        let effect = if self.accepted_set.is_subset(&elements) {
            Effect::Confirm { to: source, identifier, elements: elements.clone() }
        } else {
            let differences = self.accepted_set.difference(&elements);
            Effect::Update { to: source, identifier, differences }
        };
        self.accepted_set.extend(&elements);
        proof {
            lemma_effects_push(effects@, effect);
            assert(effects_of(old(effects)@).push(effect@) =~= effects_of(old(effects)@) + seq![
                effect@,
            ]);
        }
        effects.push(effect);
    }

    fn process_certification_update(&mut self, identifier: Digest, brought: DigestSet, effects: &mut Vec<Effect>)
        requires
            old(self).wf(),
            brought.wf(),
            brought@.subset_of(old(self).snapshot().elements.dom()),
        ensures
            final(self).wf(),
            final(self).context() == old(self).context(),
            final(self).snapshot() == model::on_update(
                old(self).snapshot(),
                identifier,
                brought@,
            ).state,
            effects_of(final(effects)@) == effects_of(old(effects)@) + model::on_update(
                old(self).snapshot(),
                identifier,
                brought@,
            ).effects,
    {
        let grown = match &self.proposal {
            Some(proposal) => {
                if matches!(self.phase, Phase::Proposing) && proposal.identifier == Some(identifier)
                    && !brought.is_subset(&proposal.elements) {
                    let mut grown = proposal.elements.clone();
                    grown.extend(&brought);
                    Some(grown)
                } else {
                    None
                }
            },
            None => None,
        };
        match grown {
            Some(grown) => {
                self.certify(grown, effects);
            },
            None => {
                assert(effects_of(effects@) =~= effects_of(old(effects)@) + Seq::<
                    EffectModel,
                >::empty());
            },
        }
    }

    /// The elements that `identifiers` name, in the same order.
    fn collect_elements(&self, identifiers: &DigestSet) -> (elements: Vec<Element>)
        requires
            self.elements.wf(),
            identifiers.wf(),
            identifiers@.subset_of(self.snapshot().elements.dom()),
        ensures
            elements@ == model::decided_elements(self.snapshot(), identifiers@),
    {
        let ghost listing = identifiers.ordered();
        let ghost lookup = |identifier: Digest| self.elements@[identifier];
        proof {
            identifiers.lemma_ordered();
            model::lemma_sorted_listing(*identifiers);
        }
        let mut elements: Vec<Element> = Vec::new();
        let mut index: usize = 0;
        while index < identifiers.len()
            invariant
                self.elements.wf(),
                identifiers.wf(),
                listing == identifiers.ordered(),
                listing.to_set() == identifiers@,
                listing.len() == identifiers@.len(),
                identifiers@.subset_of(self.elements@.dom()),
                lookup == |identifier: Digest| self.elements@[identifier],
                index <= listing.len(),
                elements@ == listing.take(index as int).map_values(lookup),
            decreases listing.len() - index,
        {
            let identifier = identifiers.get(index);
            proof {
                assert(listing.contains(listing[index as int]));
                assert(identifiers@.contains(identifier));
                assert(listing.take(index + 1) == listing.take(index as int).push(identifier));
                assert(listing.take(index as int).push(identifier).map_values(lookup)
                    =~= listing.take(index as int).map_values(lookup).push(lookup(identifier)));
            }
            let element = self.elements.get(&identifier).unwrap().clone();
            elements.push(element);
            index += 1;
        }
        assert(listing.take(index as int) == listing);
        elements
    }

    fn process_certification_confirmation(
        &mut self,
        source: Identity,
        identifier: Digest,
        signature: MultiSignature,
        effects: &mut Vec<Effect>,
    )
        requires
            old(self).wf(),
        ensures
            final(self).wf(),
            final(self).context() == old(self).context(),
            final(self).snapshot() == model::on_confirmation(
                old(self).context(),
                old(self).snapshot(),
                source,
                identifier,
                signature,
            ).state,
            effects_of(final(effects)@) == effects_of(old(effects)@) + model::on_confirmation(
                old(self).context(),
                old(self).snapshot(),
                source,
                identifier,
                signature,
            ).effects,
    {
        let counts = match &self.proposal {
            Some(proposal) => {
                proof {
                    proposal.signers.lemma_ordered();
                }
                matches!(self.phase, Phase::Proposing) && proposal.identifier == Some(identifier)
                    && !proposal.signers.contains(&source)
            },
            None => false,
        };
        if !counts {
            assert(effects_of(effects@) =~= effects_of(old(effects)@) + Seq::<
                EffectModel,
            >::empty());
            return ;
        }
        let mut taken: Option<Proposal> = None;
        std::mem::swap(&mut self.proposal, &mut taken);
        let mut proposal = taken.unwrap();
        proposal.signers.insert(source);
        proposal.shards.push(signature);
        if proposal.signers.len() >= self.view.quorum() {
            let elements = self.collect_elements(&proposal.elements);
            let mut signers: Vec<Identity> = Vec::new();
            let mut index: usize = 0;
            while index < proposal.signers.len()
                invariant
                    proposal.signers.wf(),
                    index <= proposal.signers.ordered().len(),
                    signers@ == proposal.signers.ordered().take(index as int),
                decreases proposal.signers.ordered().len() - index,
            {
                signers.push(proposal.signers.get(index));
                assert(proposal.signers.ordered().take(index + 1)
                    == proposal.signers.ordered().take(index as int).push(
                    proposal.signers.ordered()[index as int],
                ));
                index += 1;
            }
            assert(proposal.signers.ordered().take(index as int) == proposal.signers.ordered());
            self.phase = Phase::Decided;
            let effect = Effect::Decide { elements, signers, shards: proposal.shards };
            proof {
                lemma_effects_push(effects@, effect);
                assert(effects_of(old(effects)@).push(effect@) =~= effects_of(old(effects)@)
                    + seq![effect@]);
            }
            effects.push(effect);
        } else {
            self.proposal = Some(proposal);
            assert(effects_of(effects@) =~= effects_of(old(effects)@) + Seq::<
                EffectModel,
            >::empty());
        }
    }

    /// Whether `message` is fit to be processed.
    pub fn validate_message(&self, message: &Message, evidence: Evidence) -> (outcome: Result<
        (),
        MessageError,
    >)
        requires
            self.wf(),
            message.wf(),
        ensures
            outcome == model::validate(self.context(), self.snapshot(), *message, evidence),
    {
        match message {
            Message::DisclosureSend(message) => self.validate_disclosure_send(message, evidence),
            Message::DisclosureEcho(DisclosureEcho::Brief { origin, .. }) => {
                if self.view.contains(origin) {
                    Ok(())
                } else {
                    Err(MessageError::ForeignOrigin)
                }
            },
            Message::DisclosureEcho(DisclosureEcho::Expanded { origin, disclosure }) => {
                if !self.view.contains(origin) {
                    Err(MessageError::ForeignOrigin)
                } else {
                    self.validate_disclosure_send(disclosure, evidence)
                }
            },
            Message::DisclosureReady(ready) => {
                if self.view.contains(&ready.origin) {
                    Ok(())
                } else {
                    Err(MessageError::ForeignOrigin)
                }
            },
            Message::CertificationRequest(request) => self.validate_elements(&request.elements),
            Message::CertificationConfirmation(_) => {
                if evidence.signature_valid {
                    Ok(())
                } else {
                    Err(MessageError::IncorrectSignature)
                }
            },
            Message::CertificationUpdate(update) => self.validate_elements(&update.differences),
        }
    }

    fn validate_disclosure_send(&self, message: &DisclosureSend, evidence: Evidence) -> (outcome:
        Result<(), MessageError>)
        ensures
            outcome == model::validate_send(self.context(), *message, evidence),
    {
        if message.view != self.view_identifier {
            return Err(MessageError::ForeignView);
        }
        if message.instance != self.instance {
            return Err(MessageError::ForeignInstance);
        }
        if !evidence.signature_valid {
            return Err(MessageError::IncorrectSignature);
        }
        if !evidence.element_valid {
            return Err(MessageError::InvalidElement);
        }
        Ok(())
    }

    fn validate_elements(&self, elements: &DigestSet) -> (outcome: Result<(), MessageError>)
        requires
            self.wf(),
            elements.wf(),
        ensures
            outcome == model::validate_elements(self.snapshot(), elements@),
    {
        if elements.is_empty() {
            return Err(MessageError::EmptyCertificationRequest);
        }
        if !elements.is_subset(&self.safe_set) {
            return Err(MessageError::UnsafeElement);
        }
        Ok(())
    }

    fn process_message(&mut self, source: Identity, message: Message, effects: &mut Vec<Effect>)
        requires
            old(self).wf(),
            message.wf(),
            model::validate(old(self).context(), old(self).snapshot(), message, (Evidence {
                signature_valid: true,
                element_valid: true,
            })) is Ok,
        ensures
            final(self).wf(),
            final(self).context() == old(self).context(),
            final(self).snapshot() == model::process(
                old(self).context(),
                old(self).snapshot(),
                source,
                message,
            ).state,
            effects_of(final(effects)@) == effects_of(old(effects)@) + model::process(
                old(self).context(),
                old(self).snapshot(),
                source,
                message,
            ).effects,
    {
        match message {
            Message::DisclosureSend(message) => {
                self.process_disclosure_send(source, message, effects);
            },
            Message::DisclosureEcho(echo) => {
                self.process_disclosure_echo(source, echo, effects);
            },
            Message::DisclosureReady(ready) => {
                self.process_disclosure_ready(source, ready, effects);
            },
            Message::CertificationRequest(request) => {
                self.process_certification_request(
                    source,
                    request.identifier,
                    request.elements,
                    effects,
                );
            },
            Message::CertificationConfirmation(confirmation) => {
                self.process_certification_confirmation(
                    source,
                    confirmation.identifier,
                    confirmation.signature,
                    effects,
                );
            },
            Message::CertificationUpdate(update) => {
                self.process_certification_update(update.identifier, update.differences, effects);
            },
        }
    }

    /// Takes a message in: drops it if its source is no member of the view
    /// or if it is invalid, and processes it otherwise. A message that is
    /// processed is to be acknowledged to its source.
    pub fn handle_message(&mut self, source: Identity, message: Message, evidence: Evidence) -> (outcome:
        Result<Vec<Effect>, HandleError>)
        requires
            old(self).wf(),
            message.wf(),
        ensures
            final(self).wf(),
            final(self).context() == old(self).context(),
            !old(self).context().members.contains(source) ==> outcome == Err::<
                Vec<Effect>,
                HandleError,
            >(HandleError::ForeignSource) && final(self).snapshot() == old(self).snapshot(),
            old(self).context().members.contains(source) && model::validate(
                old(self).context(),
                old(self).snapshot(),
                message,
                evidence,
            ) is Err ==> outcome == Err::<Vec<Effect>, HandleError>(HandleError::InvalidMessage)
                && final(self).snapshot() == old(self).snapshot(),
            old(self).context().members.contains(source) && model::validate(
                old(self).context(),
                old(self).snapshot(),
                message,
                evidence,
            ) is Ok ==> {
                &&& outcome matches Ok(effects)
                &&& final(self).snapshot() == model::process(
                    old(self).context(),
                    old(self).snapshot(),
                    source,
                    message,
                ).state
                &&& effects_of(effects@) == model::process(
                    old(self).context(),
                    old(self).snapshot(),
                    source,
                    message,
                ).effects
            },
    {
        if !self.view.contains(&source) {
            return Err(HandleError::ForeignSource);
        }
        if self.validate_message(&message, evidence).is_err() {
            return Err(HandleError::InvalidMessage);
        }
        let mut effects: Vec<Effect> = Vec::new();
        assert(effects_of(effects@) =~= Seq::<EffectModel>::empty());
        self.process_message(source, message, &mut effects);
        Ok(effects)
    }
}

} // verus!
