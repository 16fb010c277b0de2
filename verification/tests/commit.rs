use carbon::account::Deposit;
use carbon::account::Entry;
use carbon::account::Operation;
use carbon::brokers::prepare::Inclusion;
use carbon::brokers::prepare::InclusionError;
use carbon::brokers::prepare::Request;
use carbon::brokers::prepare::RequestError;
use carbon::brokers::prepare::RequestEvidence;
use carbon::churn::ResolutionClaim;
use carbon::churn::ResolutionError;
use carbon::commit::Commit;
use carbon::commit::CommitProof;
use carbon::commit::CommitProofError;
use carbon::commit::Completion;
use carbon::commit::CompletionProof;
use carbon::commit::CompletionProofError;
use carbon::commit::Payload;
use carbon::commit::ProofEvidence;
use carbon::crypto::Certificate;
use carbon::crypto::Digest;
use carbon::crypto::Header;
use carbon::crypto::KeyCard;
use carbon::crypto::Proof;
use carbon::crypto::Signature;
use carbon::database::Database;
use carbon::external::Address;
use carbon::external::Client;
use carbon::external::ClientError;
use carbon::external::ShardFailure;
use carbon::external::ShardRetry;
use carbon::external::Verbosity;
use carbon::prepare::Prepare;
use carbon::prepare::PrepareVector;
use carbon::prepare::ReductionStatement;
use carbon::prepare::WitnessStatement;
use carbon::processing::CheckedCommit;
use carbon::processing::CheckedPayload;
use carbon::processing::CheckedProof;
use carbon::processing::CommitAction;
use carbon::processing::CommitEvent;
use carbon::processing::CommitSession;
use carbon::processing::Failure;
use carbon::processing::Processor;
use carbon::processing::ServeCommitError;
use carbon::signup::IdAssignment;
use carbon::view::Change;
use carbon::view::Committee;
use carbon::view::Increment;
use carbon::view::ViewStore;
use carbon::view_generator::InstallPrecursor;
use carbon::view_generator::ViewDecision;

const VALID: ProofEvidence = ProofEvidence { certificate_valid: true, inclusion_valid: true };

fn replica(index: u64) -> Digest {
    Digest::new(9, 9, 9, index)
}

fn genesis() -> Committee {
    Committee::genesis((0..4).map(replica).collect())
}

fn genesis_identifier() -> Digest {
    Digest::new(0xaa, 0, 0, 4)
}

fn discovery() -> ViewStore {
    let mut store = ViewStore::new();
    assert!(store.register(genesis_identifier(), genesis()));
    store
}

fn certificate(signers: u64) -> Certificate {
    Certificate::new((0..signers).map(replica).collect(), vec![0x51])
}

fn commit_proof(view: Digest, signers: u64, exceptions: Vec<u64>) -> CommitProof {
    CommitProof::new(view, Digest::new(0xbb, 0, 0, 1), exceptions, certificate(signers), Proof::new(vec![1]))
}

fn withdraw(id: u64, height: u64, recipient: u64, slot: u64) -> Payload {
    Payload::new(Entry { id, height }, Operation::withdraw(recipient, slot, 10))
}

fn plain(id: u64, height: u64) -> Payload {
    Payload::new(Entry { id, height }, Operation::Support)
}

fn depending(payloads: &[(Payload, Option<Entry>)]) -> CommitEvent {
    CommitEvent::Commits(
        payloads
            .iter()
            .map(|(payload, dependency)| CheckedCommit {
                commit: Commit::new(commit_proof(genesis_identifier(), 4, vec![]), *payload),
                dependency: *dependency,
                evidence: VALID,
            })
            .collect(),
    )
}

fn commits(payloads: &[Payload]) -> CommitEvent {
    depending(&payloads.iter().map(|payload| (*payload, None)).collect::<Vec<_>>())
}

fn on(id: u64, height: u64) -> Option<Entry> {
    Some(Entry { id, height })
}

#[test]
fn commit_proof_errors() {
    let store = discovery();
    assert_eq!(commit_proof(genesis_identifier(), 4, vec![]).validate(&store, 5, VALID), Ok(()));
    assert_eq!(
        commit_proof(Digest::new(0, 0, 0, 0), 4, vec![]).validate(&store, 5, VALID),
        Err(CommitProofError::ViewUnknown)
    );
    assert_eq!(
        commit_proof(genesis_identifier(), 3, vec![]).validate(&store, 5, VALID),
        Err(CommitProofError::CertificateInvalid)
    );
    assert_eq!(
        commit_proof(genesis_identifier(), 4, vec![]).validate(&store, 5, ProofEvidence { certificate_valid: false, inclusion_valid: true }),
        Err(CommitProofError::CertificateInvalid)
    );
    assert_eq!(
        commit_proof(genesis_identifier(), 4, vec![3, 5]).validate(&store, 5, VALID),
        Err(CommitProofError::Excepted)
    );
    assert_eq!(
        commit_proof(genesis_identifier(), 4, vec![3]).validate(&store, 5, ProofEvidence { certificate_valid: true, inclusion_valid: false }),
        Err(CommitProofError::InclusionInvalid)
    );
    assert_eq!(commit_proof(genesis_identifier(), 4, vec![]).root(), Digest::new(0xbb, 0, 0, 1));
}

#[test]
fn completion_hands_out_its_payload() {
    let store = discovery();
    let payload = withdraw(5, 2, 6, 1);
    let made = |view: Digest, signers: u64| {
        Completion::new(
            CompletionProof::new(view, Digest::new(0xbb, 0, 0, 1), certificate(signers), Proof::new(vec![])),
            payload,
        )
    };
    let completion = made(genesis_identifier(), 4);
    assert_eq!(*completion.payload(), payload);
    assert_eq!(completion.entry(), Entry { id: 5, height: 2 });
    assert_eq!(*completion.operation(), Operation::Withdraw { amount: 10, recipient: 6, slot: 1 });
    assert_eq!(completion.validate(&store, VALID), Ok(()));
    assert_eq!(made(Digest::new(0, 0, 0, 0), 4).validate(&store, VALID), Err(CompletionProofError::ViewUnknown));
    assert_eq!(made(genesis_identifier(), 3).validate(&store, VALID), Err(CompletionProofError::CertificateInvalid));
    assert_eq!(
        completion.validate(&store, ProofEvidence { certificate_valid: true, inclusion_valid: false }),
        Err(CompletionProofError::InclusionInvalid)
    );
}

#[test]
fn withdrawals_and_deposits_may_depend() {
    assert!(Operation::withdraw(6, 1, 10).may_depend());
    assert!(Operation::Deposit.may_depend());
    assert!(!Operation::Support.may_depend());
    assert!(!Operation::Abandon.may_depend());
    assert!(Entry { id: 1, height: 9 }.before(&Entry { id: 2, height: 0 }));
    assert!(Entry { id: 1, height: 1 }.before(&Entry { id: 1, height: 2 }));
    assert!(!Entry { id: 1, height: 1 }.before(&Entry { id: 1, height: 1 }));
    let deposit = Deposit::new(Entry { id: 6, height: 1 }, Some(Proof::new(vec![4])), true);
    assert_eq!(deposit.withdraw(), Entry { id: 6, height: 1 });
    assert_eq!(deposit.exclusion().as_ref().unwrap().bytes(), &vec![4]);
    assert!(deposit.collect());
}

#[test]
fn commits_without_dependencies_are_applied_in_order() {
    let store = discovery();
    let mut database = Database::new();
    let batch = [plain(3, 1), plain(5, 1), plain(5, 2)];
    let (session, action) = CommitSession::new().step(commits(&batch), &store, &mut database).unwrap();
    assert!(session.is_done());
    match action {
        CommitAction::CompletionShard { applied } => {
            assert_eq!(applied, vec![Entry { id: 3, height: 1 }, Entry { id: 5, height: 1 }, Entry { id: 5, height: 2 }]);
        }
        _ => panic!("the session must end with a completion shard"),
    }
    assert_eq!(database.commit.payload(&Entry { id: 5, height: 2 }), Some(plain(5, 2)));
    assert_eq!(database.commit.payload(&Entry { id: 5, height: 3 }), None);
}

#[test]
fn missing_dependencies_are_asked_for() {
    let store = discovery();
    let mut database = Database::new();
    let batch = [(withdraw(3, 2, 8, 1), on(8, 1)), (plain(4, 1), None), (withdraw(5, 2, 9, 1), on(9, 1))];
    let (session, action) = CommitSession::new().step(depending(&batch), &store, &mut database).unwrap();
    assert!(matches!(action, CommitAction::MissingCommitProofs(ids) if ids == vec![8, 9]));
    let (session, action) = session.step(CommitEvent::Ping, &store, &mut database).unwrap();
    assert!(matches!(action, CommitAction::Pong));
    let proofs = (0..2)
        .map(|_| CheckedProof { commit_proof: commit_proof(genesis_identifier(), 4, vec![]), evidence: VALID })
        .collect();
    let (session, action) = session.step(CommitEvent::CommitProofs(proofs), &store, &mut database).unwrap();
    assert!(matches!(action, CommitAction::MissingDependencies(ids) if ids == vec![8, 9]));
    let supplied = vec![
        CheckedPayload { payload: plain(8, 1), valid: true },
        CheckedPayload { payload: plain(9, 1), valid: true },
    ];
    let (session, action) = session.step(CommitEvent::Dependencies(supplied), &store, &mut database).unwrap();
    assert!(session.is_done());
    assert!(matches!(action, CommitAction::CompletionShard { applied } if applied.len() == 3));
    assert!(database.commit.contains(&Entry { id: 3, height: 2 }));
    assert!(!database.commit.contains(&Entry { id: 8, height: 1 }));

    let next = [(withdraw(7, 1, 3, 2), on(3, 2))];
    let (session, _) = CommitSession::new().step(depending(&next), &store, &mut database).unwrap();
    assert!(session.is_done());
    let free = [withdraw(8, 1, 3, 9)];
    let (session, _) = CommitSession::new().step(commits(&free), &store, &mut database).unwrap();
    assert!(session.is_done());
}

fn awaiting_proofs(database: &mut Database) -> CommitSession {
    let (session, _) = CommitSession::new()
        .step(depending(&[(withdraw(3, 2, 8, 1), on(8, 1))]), &discovery(), database)
        .unwrap();
    session
}

fn awaiting_dependencies(database: &mut Database) -> CommitSession {
    let proofs = vec![CheckedProof { commit_proof: commit_proof(genesis_identifier(), 4, vec![]), evidence: VALID }];
    let (session, _) = awaiting_proofs(database)
        .step(CommitEvent::CommitProofs(proofs), &discovery(), database)
        .unwrap();
    session
}

#[test]
fn commit_session_errors() {
    let store = discovery();
    let mut database = Database::new();

    let outcome = CommitSession::new().step(commits(&[plain(5, 1), plain(3, 1)]), &store, &mut database);
    assert!(matches!(outcome, Err(ServeCommitError::InvalidBatch)));
    let outcome = CommitSession::new().step(commits(&[plain(5, 1), plain(5, 1)]), &store, &mut database);
    assert!(matches!(outcome, Err(ServeCommitError::InvalidBatch)));

    let forged = CommitEvent::Commits(vec![CheckedCommit {
        commit: Commit::new(commit_proof(genesis_identifier(), 4, vec![5]), plain(5, 1)),
        dependency: None,
        evidence: VALID,
    }]);
    let outcome = CommitSession::new().step(forged, &store, &mut database);
    assert!(matches!(outcome, Err(ServeCommitError::InvalidCommitProof)));

    let outcome = CommitSession::new().step(CommitEvent::Dependencies(vec![]), &store, &mut database);
    assert!(matches!(outcome, Err(ServeCommitError::UnexpectedRequest)));
    let outcome = CommitSession::new().step(depending(&[(plain(5, 1), on(8, 1))]), &store, &mut database);
    assert!(matches!(outcome, Err(ServeCommitError::InvalidDependency)));
    assert_eq!(CommitSession::new().abort(Failure::Disconnected), ServeCommitError::ConnectionError);
    assert_eq!(CommitSession::new().abort(Failure::DatabaseVoid), ServeCommitError::DatabaseVoid);

    let outcome = awaiting_proofs(&mut database).step(CommitEvent::CommitProofs(vec![]), &store, &mut database);
    assert!(matches!(outcome, Err(ServeCommitError::MalformedCommitProofs)));
    let bad = vec![CheckedProof { commit_proof: commit_proof(genesis_identifier(), 2, vec![]), evidence: VALID }];
    let outcome = awaiting_proofs(&mut database).step(CommitEvent::CommitProofs(bad), &store, &mut database);
    assert!(matches!(outcome, Err(ServeCommitError::InvalidCommitProof)));

    let outcome = awaiting_dependencies(&mut database).step(CommitEvent::Dependencies(vec![]), &store, &mut database);
    assert!(matches!(outcome, Err(ServeCommitError::MalformedDependencies)));
    let other = vec![CheckedPayload { payload: plain(8, 2), valid: true }];
    let outcome = awaiting_dependencies(&mut database).step(CommitEvent::Dependencies(other), &store, &mut database);
    assert!(matches!(outcome, Err(ServeCommitError::MalformedDependencies)));
    let invalid = vec![CheckedPayload { payload: plain(8, 1), valid: false }];
    let outcome = awaiting_dependencies(&mut database).step(CommitEvent::Dependencies(invalid), &store, &mut database);
    assert!(matches!(outcome, Err(ServeCommitError::InvalidDependency)));
    assert!(!database.commit.contains(&Entry { id: 3, height: 2 }));

    CommitSession::new().step(commits(&[plain(5, 1)]), &store, &mut database).unwrap();
    let clash = Payload::new(Entry { id: 5, height: 1 }, Operation::Abandon);
    let outcome = CommitSession::new().step(commits(&[plain(4, 1), clash]), &store, &mut database);
    assert!(matches!(outcome, Err(ServeCommitError::BatchInapplicable)));
    assert!(!database.commit.contains(&Entry { id: 4, height: 1 }));
    let again = CommitSession::new().step(commits(&[plain(5, 1)]), &store, &mut database);
    assert!(again.is_ok());
}

#[test]
fn processor_hands_its_database_back() {
    let store = discovery();
    let mut processor = Processor::new(genesis(), genesis_identifier(), Database::new());
    let (session, _) = processor.serve_commit(CommitSession::new(), commits(&[plain(5, 1)]), &store).unwrap();
    assert!(session.is_done());
    assert!(processor.database().commit.contains(&Entry { id: 5, height: 1 }));
    let database = processor.shutdown();
    assert_eq!(database.commit.payload(&Entry { id: 5, height: 1 }), Some(plain(5, 1)));
}

#[test]
fn inclusions_follow_the_batch() {
    let prepares = vec![Prepare::new(5, 1, Digest::new(1, 0, 0, 0)), Prepare::new(6, 1, Digest::new(2, 0, 0, 0))];
    let proofs = vec![Proof::new(vec![0]), Proof::new(vec![1])];
    let vector = PrepareVector::new(Digest::new(0xbb, 0, 0, 1), prepares.clone(), proofs).unwrap();
    assert!(PrepareVector::new(Digest::new(0xbb, 0, 0, 1), prepares.clone(), vec![]).is_none());
    let inclusions = Inclusion::batch(&vector);
    assert_eq!(inclusions.len(), 2);
    assert_eq!(inclusions[1].root(), Digest::new(0xbb, 0, 0, 1));
    assert_eq!(inclusions[1].inclusion_proof().bytes(), &vec![1]);
    assert_eq!(
        inclusions[0].certify(&prepares[0], true),
        Ok(ReductionStatement { root: Digest::new(0xbb, 0, 0, 1) })
    );
    assert_eq!(inclusions[0].certify(&prepares[0], false), Err(InclusionError::ProofInvalid));
    assert_eq!(ReductionStatement::new(Digest::new(1, 1, 1, 1)).header(), Header::Reduction);
    assert_eq!(WitnessStatement::new(Digest::new(1, 1, 1, 1)).header(), Header::Witness);
    assert_eq!(WitnessStatement::new(Digest::new(1, 1, 1, 1)).root, Digest::new(1, 1, 1, 1));
}

#[test]
fn broker_requests_need_assignment_and_signature() {
    let store = discovery();
    let assignment = |signers: u64| {
        IdAssignment::new(genesis_identifier(), 5, KeyCard::new(Digest::new(0xc1, 0, 0, 5), vec![5]), certificate(signers))
    };
    let fine = RequestEvidence { assignment_valid: true, signature_valid: true };
    let request = Request::new(assignment(4), 3, Digest::new(0xc0, 0, 0, 1), Signature::new(vec![9]));
    assert_eq!(request.prepare(), Prepare::new(5, 3, Digest::new(0xc0, 0, 0, 1)));
    assert_eq!(request.assignment().id(), 5);
    assert_eq!(request.signature().bytes(), &vec![9]);
    assert_eq!(request.validate(&store, fine), Ok(()));
    assert_eq!(
        request.validate(&store, RequestEvidence { assignment_valid: false, signature_valid: true }),
        Err(RequestError::AssignmentInvalid)
    );
    assert_eq!(
        request.validate(&store, RequestEvidence { assignment_valid: true, signature_valid: false }),
        Err(RequestError::SignatureInvalid)
    );
    let weak = Request::new(assignment(3), 3, Digest::new(0xc0, 0, 0, 1), Signature::new(vec![9]));
    assert_eq!(weak.validate(&store, fine), Err(RequestError::AssignmentInvalid));
}

#[test]
fn resolution_errors() {
    let mut store = discovery();
    let later = Committee::genesis((0..6).map(replica).collect());
    store.register(Digest::new(0xaa, 0, 0, 6), later);
    let view = genesis();
    let claim = |view: Digest, change: Change, signers: u64| ResolutionClaim::new(view, change, certificate(signers));

    let fine = claim(genesis_identifier(), Change::Join(replica(7)), 4);
    assert_eq!(fine.validate(&store, &view, true), Ok(()));
    assert_eq!(fine.change(), Change::Join(replica(7)));
    assert_eq!(fine.view(), genesis_identifier());
    let resolution = fine.to_resolution(&store, &view, true).ok().unwrap();
    assert_eq!(resolution.change(), Change::Join(replica(7)));
    assert_eq!(resolution.clone().into_claim().certificate().power(), 4);

    assert_eq!(
        claim(Digest::new(0, 0, 0, 0), Change::Join(replica(7)), 4).validate(&store, &view, true),
        Err(ResolutionError::UnknownView)
    );
    assert_eq!(
        claim(Digest::new(0xaa, 0, 0, 6), Change::Join(replica(7)), 6).validate(&store, &view, true),
        Err(ResolutionError::FutureVote)
    );
    assert_eq!(
        claim(genesis_identifier(), Change::Join(replica(7)), 3).validate(&store, &view, true),
        Err(ResolutionError::CertificateInvalid)
    );
    assert_eq!(
        claim(genesis_identifier(), Change::Join(replica(7)), 4).validate(&store, &view, false),
        Err(ResolutionError::CertificateInvalid)
    );
    assert_eq!(
        claim(genesis_identifier(), Change::Join(replica(1)), 4).validate(&store, &view, true),
        Err(ResolutionError::ViewError)
    );
    assert_eq!(
        claim(genesis_identifier(), Change::Leave(replica(7)), 4).validate(&store, &view, true),
        Err(ResolutionError::ViewError)
    );
    assert!(matches!(
        claim(genesis_identifier(), Change::Leave(replica(7)), 4).to_resolution(&store, &view, true),
        Err(ResolutionError::ViewError)
    ));
}

#[test]
fn view_decisions_tell_their_kind() {
    let churn = ViewDecision::Churn { churn: Increment::new(vec![Change::Join(replica(1))]).unwrap() };
    let tail = ViewDecision::Tail { install: Digest::new(1, 2, 3, 4) };
    assert_eq!(churn.kind(), 0);
    assert_eq!(tail.kind(), 1);
    let precursor = InstallPrecursor::new(vec![Digest::new(1, 2, 3, 4)], certificate(2));
    assert_eq!(precursor.decisions.len(), 1);
    assert_eq!(precursor.certificate.power(), 2);
}

#[test]
fn client_picks_the_preferred_broker() {
    let brokers = vec![
        Address { ip: 0x0a000001, port: 9000 },
        Address { ip: 0x0a000002, port: 9001 },
        Address { ip: 0x0a000002, port: 9002 },
    ];
    assert_eq!(Client::select_address(&brokers, None), brokers[0]);
    assert_eq!(Client::select_address(&brokers, Some(0x0a000002)), brokers[1]);
    assert_eq!(Client::select_address(&brokers, Some(0x0a000009)), brokers[0]);
}

#[test]
fn client_paces_and_retries() {
    assert_eq!(Client::shard_retry(ShardFailure::ShardIncomplete), ShardRetry::After(500));
    assert_eq!(Client::shard_retry(ShardFailure::Other), ShardRetry::GiveUp(ClientError::Fail));
    assert_eq!(Client::send_period(1000, 4), 250_000);
    assert_eq!(Client::send_period(10, 3), 3333);
    assert!(Client::signs_individually(0, 4, 30));
    assert!(Client::signs_individually(1, 4, 30));
    assert!(!Client::signs_individually(2, 4, 30));
    assert!(!Client::signs_individually(0, 4, 0));
    assert_eq!(Client {}, Client {});
}

#[test]
fn client_payloads_withdraw_at_the_next_slot() {
    let payloads = Client::payloads(7, &vec![3, 5]);
    assert_eq!(
        payloads,
        vec![
            Payload { entry: Entry { id: 3, height: 8 }, operation: Operation::Withdraw { amount: 0, recipient: 3, slot: 7 } },
            Payload { entry: Entry { id: 5, height: 8 }, operation: Operation::Withdraw { amount: 0, recipient: 5, slot: 7 } },
        ]
    );
}

#[test]
fn verbosity_follows_the_flags() {
    assert_eq!(Verbosity::from_occurrences(0).filter(), "error");
    assert_eq!(Verbosity::from_occurrences(1).filter(), "warn");
    assert_eq!(Verbosity::from_occurrences(2).filter(), "info");
    assert_eq!(Verbosity::from_occurrences(3).filter(), "debug");
    assert_eq!(Verbosity::from_occurrences(4).filter(), "trace");
    assert_eq!(Verbosity::from_occurrences(40), Verbosity::Trace);
}
