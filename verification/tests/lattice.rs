use carbon::crypto::Certificate;
use carbon::crypto::Digest;
use carbon::crypto::MultiSignature;
use carbon::crypto::Signature;
use carbon::data::DigestSet;
use carbon::lattice::CertificationConfirmation;
use carbon::lattice::CertificationRequest;
use carbon::lattice::CertificationUpdate;
use carbon::lattice::DisclosureEcho;
use carbon::lattice::DisclosureReady;
use carbon::lattice::DisclosureSend;
use carbon::lattice::Effect;
use carbon::lattice::Element;
use carbon::lattice::Evidence;
use carbon::lattice::HandleError;
use carbon::lattice::LatticeAgreement;
use carbon::lattice::LatticeAgreementError;
use carbon::lattice::LatticeRunner;
use carbon::lattice::Message;
use carbon::lattice::MessageError;
use carbon::lattice::Phase;
use carbon::view::Committee;
use std::collections::VecDeque;

const FINE: Evidence = Evidence { signature_valid: true, element_valid: true };

fn replica(index: usize) -> Digest {
    Digest::new(9, 9, 9, index as u64)
}

fn view() -> Committee {
    Committee::genesis((0..4).map(replica).collect())
}

fn view_identifier() -> Digest {
    Digest::new(0xaa, 0, 0, 4)
}

fn instance() -> Digest {
    Digest::new(0x1a, 0, 0, 0)
}

fn element(index: u64) -> Element {
    Element::new(Digest::new(0xe1, 0, 0, index), vec![index as u8])
}

fn disclosure(origin: usize, index: u64) -> DisclosureSend {
    DisclosureSend {
        identifier: Digest::new(0xd1, 0, origin as u64, index),
        view: view_identifier(),
        instance: instance(),
        element: element(index),
        signature: Signature::new(vec![origin as u8]),
    }
}

fn set(elements: &[u64]) -> DigestSet {
    DigestSet::from_vec(&elements.iter().map(|index| Digest::new(0xe1, 0, 0, *index)).collect())
}

/// Stands in for the digest of a set of elements.
fn name(elements: &[Digest]) -> Digest {
    let sum = elements.iter().fold(0u64, |sum, element| sum.wrapping_mul(31).wrapping_add(element.d));
    Digest::new(0x5e7, elements.len() as u64, 0, sum)
}

fn runner() -> LatticeRunner {
    LatticeRunner::new(view(), view_identifier(), instance())
}

/// What travels between the replicas of the simulation.
#[derive(Clone)]
enum Wire {
    Send { origin: usize, element: u64 },
    Echo { origin: usize, element: u64, expanded: bool },
    Ready { origin: usize, disclosure: Digest },
    Request { elements: Vec<Digest> },
    Confirmation { identifier: Digest },
    Update { identifier: Digest, differences: Vec<Digest> },
}

impl Wire {
    fn message(&self) -> Message {
        match self {
            Wire::Send { origin, element } => Message::DisclosureSend(disclosure(*origin, *element)),
            Wire::Echo { origin, element, expanded: false } => Message::DisclosureEcho(DisclosureEcho::Brief {
                origin: replica(*origin),
                disclosure: disclosure(*origin, *element).identifier,
            }),
            Wire::Echo { origin, element, expanded: true } => Message::DisclosureEcho(DisclosureEcho::Expanded {
                origin: replica(*origin),
                disclosure: disclosure(*origin, *element),
            }),
            Wire::Ready { origin, disclosure } => Message::DisclosureReady(DisclosureReady {
                origin: replica(*origin),
                disclosure: *disclosure,
            }),
            Wire::Request { elements } => Message::CertificationRequest(CertificationRequest {
                identifier: name(elements),
                elements: DigestSet::from_vec(elements),
            }),
            Wire::Confirmation { identifier } => Message::CertificationConfirmation(CertificationConfirmation {
                identifier: *identifier,
                signature: MultiSignature::new(vec![0x51]),
            }),
            Wire::Update { identifier, differences } => Message::CertificationUpdate(CertificationUpdate {
                identifier: *identifier,
                differences: DigestSet::from_vec(differences),
            }),
        }
    }
}

fn index_of(identity: Digest) -> usize {
    identity.d as usize
}

struct Decision {
    elements: Vec<Digest>,
    signers: Vec<Digest>,
    shards: usize,
}

struct Network {
    runners: Vec<LatticeRunner>,
    queue: VecDeque<(usize, usize, Wire)>,
    held: Vec<usize>,
    decisions: Vec<Option<Decision>>,
    proposals: Vec<Vec<Vec<Digest>>>,
}

impl Network {
    fn new(held: Vec<usize>) -> Self {
        Network {
            runners: (0..4).map(|_| runner()).collect(),
            queue: VecDeque::new(),
            held,
            decisions: (0..4).map(|_| None).collect(),
            proposals: (0..4).map(|_| Vec::new()).collect(),
        }
    }

    fn perform(&mut self, local: usize, effects: Vec<Effect>) {
        for effect in effects {
            match effect {
                Effect::Disclose { element, .. } => {
                    for to in 0..4 {
                        self.queue.push_back((local, to, Wire::Send { origin: local, element: element.identifier().d }));
                    }
                }
                Effect::Echo { origin, disclosure } => {
                    for to in 0..4 {
                        let wire = Wire::Echo {
                            origin: index_of(origin),
                            element: disclosure.element.identifier().d,
                            expanded: to == 3,
                        };
                        self.queue.push_back((local, to, wire));
                    }
                }
                Effect::Ready { origin, disclosure } => {
                    for to in 0..4 {
                        self.queue.push_back((local, to, Wire::Ready { origin: index_of(origin), disclosure }));
                    }
                }
                Effect::Certify { elements } => {
                    let elements = elements.to_vec();
                    self.runners[local].proposal_identified(name(&elements));
                    self.proposals[local].push(elements.clone());
                    for to in 0..4 {
                        if to != local {
                            self.queue.push_back((local, to, Wire::Request { elements: elements.clone() }));
                        }
                    }
                    self.queue.push_front((local, local, Wire::Request { elements }));
                }
                Effect::Confirm { to, identifier, .. } => {
                    self.queue.push_back((local, index_of(to), Wire::Confirmation { identifier }));
                }
                Effect::Update { to, identifier, differences } => {
                    let wire = Wire::Update { identifier, differences: differences.to_vec() };
                    self.queue.push_back((local, index_of(to), wire));
                }
                Effect::Decide { elements, signers, shards } => {
                    assert!(self.decisions[local].is_none());
                    self.decisions[local] = Some(Decision {
                        elements: elements.iter().map(|element| element.identifier()).collect(),
                        signers,
                        shards: shards.len(),
                    });
                }
            }
        }
    }

    fn run(&mut self) {
        let mut steps = 0;
        while let Some((from, to, wire)) = self.queue.pop_front() {
            steps += 1;
            assert!(steps < 100_000);
            let holds = matches!(&wire, Wire::Ready { origin, .. } if *origin == self.held[to])
                && self.runners[to].phase() == Phase::Disclosing;
            if holds {
                self.queue.push_back((from, to, wire));
                continue;
            }
            match self.runners[to].handle_message(replica(from), wire.message(), FINE) {
                Ok(effects) => self.perform(to, effects),
                Err(HandleError::InvalidMessage) => self.queue.push_back((from, to, wire)),
                Err(HandleError::ForeignSource) => panic!("every source is a member"),
            }
        }
    }
}

#[test]
fn three_disjoint_proposals_are_decided_together() {
    let mut network = Network::new(vec![2, 0, 1, 2]);
    for local in 0..3 {
        let (taken, effects) = network.runners[local].handle_proposal(element(local as u64 + 1));
        assert!(taken);
        network.perform(local, effects);
    }
    network.run();

    let all = vec![Digest::new(0xe1, 0, 0, 1), Digest::new(0xe1, 0, 0, 2), Digest::new(0xe1, 0, 0, 3)];
    for local in 0..4 {
        assert_eq!(network.runners[local].phase(), Phase::Decided);
        let decision = network.decisions[local].as_ref().unwrap();
        assert_eq!(decision.elements, all);
        assert_eq!(decision.signers.len(), 4);
        assert_eq!(decision.shards, 4);
        let certificate = Certificate::new(decision.signers.clone(), vec![0xa6]);
        assert_eq!(certificate.verify_quorum(&view(), true), Ok(()));
        assert_eq!(network.proposals[local][0].len(), 2);
        assert_eq!(network.proposals[local].last().unwrap(), &all);
        assert_eq!(network.runners[local].safe_elements(), all);
        assert_eq!(network.runners[local].accepted_elements(), all);
    }
}

#[test]
fn runner_discloses_once() {
    let mut runner = runner();
    assert!(!runner.disclosed());
    let (taken, effects) = runner.handle_proposal(element(1));
    assert!(taken);
    assert_eq!(effects.len(), 1);
    assert!(matches!(&effects[0], Effect::Disclose { view, instance: label, element }
        if *view == view_identifier() && *label == instance() && element.identifier() == Digest::new(0xe1, 0, 0, 1)));
    assert!(runner.disclosed());
    let (taken, effects) = runner.handle_proposal(element(2));
    assert!(!taken);
    assert!(effects.is_empty());
}

#[test]
fn agreement_takes_one_proposal() {
    let mut agreement = LatticeAgreement::new(view(), view_identifier(), instance());
    assert_eq!(agreement.instance(), instance());
    assert!(!agreement.has_proposed());
    let effects = agreement.propose(element(1)).unwrap();
    assert_eq!(effects.len(), 1);
    assert!(agreement.has_proposed());

    let mut superseded = LatticeAgreement::new(view(), view_identifier(), instance());
    superseded.runner().handle_proposal(element(2));
    assert!(matches!(superseded.propose(element(1)), Err(LatticeAgreementError::ProposalSuperseded)));
}

#[test]
fn foreign_source_is_dropped() {
    let mut runner = runner();
    let outcome = runner.handle_message(Digest::new(1, 1, 1, 1), Wire::Send { origin: 0, element: 1 }.message(), FINE);
    assert!(matches!(outcome, Err(HandleError::ForeignSource)));
    assert!(runner.safe_elements().is_empty());
}

#[test]
fn message_errors() {
    let runner = runner();
    let send = |change: fn(&mut DisclosureSend)| {
        let mut message = disclosure(0, 1);
        change(&mut message);
        Message::DisclosureSend(message)
    };
    assert_eq!(runner.validate_message(&send(|_| {}), FINE), Ok(()));
    assert_eq!(
        runner.validate_message(&send(|message| message.view = Digest::new(0, 0, 0, 0)), FINE),
        Err(MessageError::ForeignView)
    );
    assert_eq!(
        runner.validate_message(&send(|message| message.instance = Digest::new(0, 0, 0, 1)), FINE),
        Err(MessageError::ForeignInstance)
    );
    assert_eq!(
        runner.validate_message(&send(|_| {}), Evidence { signature_valid: false, element_valid: true }),
        Err(MessageError::IncorrectSignature)
    );
    assert_eq!(
        runner.validate_message(&send(|_| {}), Evidence { signature_valid: true, element_valid: false }),
        Err(MessageError::InvalidElement)
    );
    let foreign = Message::DisclosureReady(DisclosureReady {
        origin: Digest::new(1, 1, 1, 1),
        disclosure: Digest::new(0, 0, 0, 0),
    });
    assert_eq!(runner.validate_message(&foreign, FINE), Err(MessageError::ForeignOrigin));
    let empty = Wire::Request { elements: vec![] }.message();
    assert_eq!(runner.validate_message(&empty, FINE), Err(MessageError::EmptyCertificationRequest));
    let unsafe_request = Wire::Request { elements: vec![Digest::new(0xe1, 0, 0, 1)] }.message();
    assert_eq!(runner.validate_message(&unsafe_request, FINE), Err(MessageError::UnsafeElement));
    let confirmation = Wire::Confirmation { identifier: Digest::new(0, 0, 0, 0) }.message();
    assert_eq!(
        runner.validate_message(&confirmation, Evidence { signature_valid: false, element_valid: true }),
        Err(MessageError::IncorrectSignature)
    );
}

/// Brings a runner to hold `elements` as safe, by the ready messages of
/// all four replicas for the disclosure of each origin.
fn with_safe(elements: &[u64]) -> LatticeRunner {
    let mut runner = runner();
    for (origin, element) in elements.iter().enumerate() {
        runner.handle_message(replica(origin), Wire::Send { origin, element: *element }.message(), FINE).unwrap();
        for source in 0..4 {
            let ready = Wire::Ready { origin, disclosure: disclosure(origin, *element).identifier };
            runner.handle_message(replica(source), ready.message(), FINE).unwrap();
        }
    }
    runner
}

#[test]
fn delivery_needs_a_quorum_of_ready_messages() {
    let mut runner = runner();
    let effects = runner.handle_message(replica(1), Wire::Send { origin: 1, element: 7 }.message(), FINE).unwrap();
    assert_eq!(effects.len(), 1);
    assert!(matches!(&effects[0], Effect::Echo { origin, .. } if *origin == replica(1)));
    let ready = Wire::Ready { origin: 1, disclosure: disclosure(1, 7).identifier };
    let effects = runner.handle_message(replica(0), ready.message(), FINE).unwrap();
    assert!(effects.is_empty());
    let effects = runner.handle_message(replica(0), ready.message(), FINE).unwrap();
    assert!(effects.is_empty());
    let effects = runner.handle_message(replica(2), ready.message(), FINE).unwrap();
    assert_eq!(effects.len(), 1);
    assert!(matches!(&effects[0], Effect::Ready { origin, .. } if *origin == replica(1)));
    let effects = runner.handle_message(replica(3), ready.message(), FINE).unwrap();
    assert!(effects.is_empty());
    assert!(runner.safe_elements().is_empty());
    let effects = runner.handle_message(replica(1), ready.message(), FINE).unwrap();
    assert!(effects.is_empty());
    assert_eq!(runner.safe_elements(), vec![Digest::new(0xe1, 0, 0, 7)]);
    assert_eq!(runner.phase(), Phase::Disclosing);
}

#[test]
fn echoes_of_a_quorum_make_ready() {
    let mut runner = runner();
    for source in 0..3 {
        let echo = Wire::Echo { origin: 1, element: 7, expanded: source == 0 };
        let effects = runner.handle_message(replica(source), echo.message(), FINE).unwrap();
        assert!(effects.is_empty());
    }
    let again = Wire::Echo { origin: 1, element: 7, expanded: false };
    assert!(runner.handle_message(replica(2), again.message(), FINE).unwrap().is_empty());
    let effects = runner.handle_message(replica(3), again.message(), FINE).unwrap();
    assert_eq!(effects.len(), 1);
    assert!(matches!(&effects[0], Effect::Ready { origin, disclosure: named }
        if *origin == replica(1) && *named == disclosure(1, 7).identifier));
}

#[test]
fn second_delivery_starts_the_proposal() {
    let runner = with_safe(&[1, 2]);
    assert_eq!(runner.phase(), Phase::Proposing);
    assert_eq!(runner.safe_elements(), set(&[1, 2]).to_vec());
}

#[test]
fn requests_are_confirmed_or_updated() {
    let mut runner = with_safe(&[1, 2, 3]);
    let first = Wire::Request { elements: set(&[1, 2]).to_vec() };
    let effects = runner.handle_message(replica(1), first.message(), FINE).unwrap();
    assert_eq!(effects.len(), 1);
    assert!(matches!(&effects[0], Effect::Confirm { to, identifier, elements }
        if *to == replica(1) && *identifier == name(&set(&[1, 2]).to_vec()) && elements.to_vec() == set(&[1, 2]).to_vec()));

    let second = Wire::Request { elements: set(&[2, 3]).to_vec() };
    let effects = runner.handle_message(replica(2), second.message(), FINE).unwrap();
    assert_eq!(effects.len(), 1);
    assert!(matches!(&effects[0], Effect::Update { to, differences, .. }
        if *to == replica(2) && differences.to_vec() == set(&[1]).to_vec()));
    assert_eq!(runner.accepted_elements(), set(&[1, 2, 3]).to_vec());

    let third = Wire::Request { elements: set(&[1, 2, 3]).to_vec() };
    let effects = runner.handle_message(replica(3), third.message(), FINE).unwrap();
    assert!(matches!(&effects[0], Effect::Confirm { .. }));
}
