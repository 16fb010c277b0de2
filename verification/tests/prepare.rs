use carbon::crypto::Certificate;
use carbon::crypto::Digest;
use carbon::crypto::KeyCard;
use carbon::crypto::MultiSignature;
use carbon::crypto::Proof;
use carbon::crypto::Signature;
use carbon::database::ApplyError;
use carbon::database::Database;
use carbon::database::PrepareDatabase;
use carbon::database::PrepareHandle;
use carbon::database::State;
use carbon::prepare::Equivocation;
use carbon::prepare::EquivocationError;
use carbon::prepare::Evidence;
use carbon::prepare::Extract;
use carbon::prepare::ExtractError;
use carbon::prepare::Prepare;
use carbon::prepare::PrepareVector;
use carbon::prepare::WitnessedBatch;
use carbon::processing::Action;
use carbon::processing::CheckedAssignment;
use carbon::processing::Event;
use carbon::processing::Failure;
use carbon::processing::ServePrepareError;
use carbon::processing::Session;
use carbon::signup::IdAssignment;
use carbon::view::Committee;
use carbon::view::ViewStore;

const VALID: Evidence = Evidence { witness_valid: true, inclusion_valid: true };

fn replica(index: u64) -> Digest {
    Digest::new(9, 9, 9, index)
}

fn genesis() -> Committee {
    Committee::genesis((0..4).map(replica).collect())
}

fn genesis_identifier() -> Digest {
    Digest::new(0xaa, 0, 0, 4)
}

fn discovery() -> ViewStore {
    let mut store = ViewStore::new();
    assert!(store.register(genesis_identifier(), genesis()));
    store
}

fn commitment(operation: u64) -> Digest {
    Digest::new(0xc0, 0, 0, operation)
}

fn witness(signers: u64) -> Certificate {
    Certificate::new((0..signers).map(replica).collect(), vec![0x51])
}

fn vector(root: u64, prepares: Vec<Prepare>) -> PrepareVector {
    let proofs = (0..prepares.len()).map(|index| Proof::new(vec![root as u8, index as u8])).collect();
    PrepareVector::new(Digest::new(0xbb, 0, 0, root), prepares, proofs).unwrap()
}

fn witnessed(root: u64, prepares: Vec<Prepare>) -> WitnessedBatch {
    WitnessedBatch::new(genesis_identifier(), vector(root, prepares), witness(2))
}

fn extract(id: u64, operation: u64, view: Digest, signers: u64) -> Extract {
    Extract::new(
        view,
        Digest::new(0xbb, 0, 0, operation),
        witness(signers),
        Proof::new(vec![1, 2, 3]),
        Prepare::new(id, 1, commitment(operation)),
    )
}

fn assignment(id: u64) -> IdAssignment {
    IdAssignment::new(
        genesis_identifier(),
        id,
        KeyCard::new(Digest::new(0xc1, 0, 0, id), vec![id as u8]),
        witness(4),
    )
}

#[test]
fn thresholds_of_four_replicas() {
    let view = genesis();
    assert_eq!(view.height(), 4);
    assert_eq!(view.size(), 4);
    assert_eq!(view.quorum(), 4);
    assert_eq!(view.plurality(), 2);
}

#[test]
fn thresholds_follow_the_formulas() {
    let expected = [(1usize, 2usize, 1usize), (2, 3, 1), (3, 3, 2), (6, 5, 3), (7, 6, 3), (10, 8, 4)];
    for (members, quorum, plurality) in expected {
        let view = Committee::genesis((0..members as u64).map(replica).collect());
        assert_eq!(view.quorum(), quorum);
        assert_eq!(view.plurality(), plurality);
    }
}

#[test]
fn extract_with_known_view_and_plurality_is_valid() {
    let extract = extract(7, 1, genesis_identifier(), 2);
    assert_eq!(extract.validate(&discovery(), VALID), Ok(()));
    assert_eq!(extract.id(), 7);
    assert_eq!(extract.commitment(), commitment(1));
}

#[test]
fn extract_errors() {
    let store = discovery();
    assert_eq!(
        extract(7, 1, Digest::new(0, 0, 0, 0), 2).validate(&store, VALID),
        Err(ExtractError::ViewUnknown)
    );
    assert_eq!(
        extract(7, 1, genesis_identifier(), 1).validate(&store, VALID),
        Err(ExtractError::WitnessInvalid)
    );
    assert_eq!(
        extract(7, 1, genesis_identifier(), 2)
            .validate(&store, Evidence { witness_valid: false, inclusion_valid: true }),
        Err(ExtractError::WitnessInvalid)
    );
    assert_eq!(
        extract(7, 1, genesis_identifier(), 2)
            .validate(&store, Evidence { witness_valid: true, inclusion_valid: false }),
        Err(ExtractError::InclusionProofInvalid)
    );
    let foreign = Extract::new(
        genesis_identifier(),
        Digest::new(0xbb, 0, 0, 1),
        Certificate::new(vec![replica(0), replica(77)], vec![]),
        Proof::new(vec![]),
        Prepare::new(7, 1, commitment(1)),
    );
    assert_eq!(foreign.validate(&store, VALID), Err(ExtractError::WitnessInvalid));
}

#[test]
fn equivocation_of_two_valid_extracts_is_valid() {
    let store = discovery();
    let equivocation = Equivocation::new(
        extract(7, 1, genesis_identifier(), 2),
        extract(7, 2, genesis_identifier(), 3),
    );
    assert_eq!(equivocation.id(), 7);
    assert_eq!(equivocation.validate(&store, VALID, VALID), Ok(()));
}

#[test]
fn equivocation_errors() {
    let store = discovery();
    let mismatch = Equivocation::new(
        extract(7, 1, genesis_identifier(), 2),
        extract(8, 2, genesis_identifier(), 2),
    );
    assert_eq!(mismatch.validate(&store, VALID, VALID), Err(EquivocationError::IdMismatch));

    let consistent = Equivocation::new(
        extract(7, 1, genesis_identifier(), 2),
        extract(7, 1, genesis_identifier(), 3),
    );
    assert_eq!(
        consistent.validate(&store, VALID, VALID),
        Err(EquivocationError::ConsistentExtracts)
    );

    let invalid = Equivocation::new(
        extract(7, 1, genesis_identifier(), 2),
        extract(7, 2, genesis_identifier(), 1),
    );
    assert_eq!(invalid.validate(&store, VALID, VALID), Err(EquivocationError::InvalidExtract));
    let unproved = Equivocation::new(
        extract(7, 1, genesis_identifier(), 2),
        extract(7, 2, genesis_identifier(), 2),
    );
    assert_eq!(
        unproved.validate(&store, Evidence { witness_valid: true, inclusion_valid: false }, VALID),
        Err(EquivocationError::InvalidExtract)
    );
}

fn run_fast_path(database: &mut Database, root: u64, prepares: Vec<Prepare>) -> Result<Action, ServePrepareError> {
    let view = genesis();
    let store = discovery();
    let session = Session::new();
    let (session, action) =
        session.step(Event::Prepares(vector(root, prepares)), &view, genesis_identifier(), &store, database)?;
    assert!(matches!(action, Action::Receive));
    let (session, action) = session.step(
        Event::Witness { certificate: witness(2), signature_valid: true },
        &view,
        genesis_identifier(),
        &store,
        database,
    )?;
    assert!(session.is_done());
    Ok(action)
}

#[test]
fn single_withdraw_prepare_is_committed_without_exceptions() {
    let mut database = Database::new();
    let action = run_fast_path(&mut database, 1, vec![Prepare::new(5, 1, commitment(1))]).unwrap();
    match action {
        Action::CommitShard(commit) => {
            assert_eq!(commit.view, genesis_identifier());
            assert_eq!(commit.root, Digest::new(0xbb, 0, 0, 1));
            assert_eq!(commit.exceptions.len(), 0);
        }
        _ => panic!("the session must end with a commit shard"),
    }
    match database.prepare.state(5) {
        Some(State::Consistent { height, commitment: stored, prepare, stale }) => {
            assert_eq!(*height, 1);
            assert_eq!(*stored, commitment(1));
            assert!(*stale);
            assert!(matches!(prepare, PrepareHandle::Batched { index: 0, .. }));
        }
        _ => panic!("the account must be consistent"),
    }
    assert!(database.prepare.is_stale(5));
}

#[test]
fn double_prepare_is_excepted_as_equivocation() {
    let mut database = Database::new();
    run_fast_path(&mut database, 1, vec![Prepare::new(5, 1, commitment(1))]).unwrap();
    let action = run_fast_path(&mut database, 2, vec![Prepare::new(5, 1, commitment(2))]).unwrap();
    match action {
        Action::CommitShard(commit) => {
            assert_eq!(commit.exceptions.len(), 1);
            assert_eq!(commit.excepted_ids(), vec![5]);
            let equivocation = &commit.exceptions[0];
            assert_eq!(equivocation.id(), 5);
            assert_eq!(equivocation.0.commitment(), commitment(1));
            assert_eq!(equivocation.1.commitment(), commitment(2));
            assert_eq!(equivocation.0.root(), Digest::new(0xbb, 0, 0, 1));
            assert_eq!(equivocation.1.root(), Digest::new(0xbb, 0, 0, 2));
            assert_eq!(equivocation.validate(&discovery(), VALID, VALID), Ok(()));
        }
        _ => panic!("the session must end with a commit shard"),
    }
    assert!(matches!(database.prepare.state(5), Some(State::Equivocated(_))));
}

#[test]
fn same_batch_twice_changes_nothing() {
    let mut database = PrepareDatabase::new();
    database.apply_batch(witnessed(1, vec![Prepare::new(5, 1, commitment(1)), Prepare::new(6, 1, commitment(1))])).unwrap();
    let batch = || {
        witnessed(
            2,
            vec![
                Prepare::new(4, 3, commitment(9)),
                Prepare::new(5, 1, commitment(2)),
                Prepare::new(6, 2, commitment(3)),
            ],
        )
    };
    let first = database.apply_batch(batch()).unwrap();
    let second = database.apply_batch(batch()).unwrap();
    assert_eq!(first.len(), 1);
    assert_eq!(second.len(), 1);
    assert_eq!(first[0].id(), 5);
    assert_eq!(second[0].id(), 5);
    assert_eq!(second[0].0.root(), first[0].0.root());
    assert_eq!(second[0].1.root(), first[0].1.root());
    assert!(matches!(database.state(4), Some(State::Consistent { height: 3, stale: true, .. })));
    assert!(matches!(database.state(5), Some(State::Equivocated(_))));
    assert!(matches!(database.state(6), Some(State::Consistent { height: 2, stale: true, .. })));
}

#[test]
fn batch_application_errors() {
    let mut database = PrepareDatabase::new();
    let unsorted = witnessed(1, vec![Prepare::new(6, 1, commitment(1)), Prepare::new(5, 1, commitment(1))]);
    assert!(matches!(database.apply_batch(unsorted), Err(ApplyError::MalformedBatch)));
    let repeated = witnessed(1, vec![Prepare::new(5, 1, commitment(1)), Prepare::new(5, 1, commitment(2))]);
    assert!(matches!(database.apply_batch(repeated), Err(ApplyError::MalformedBatch)));
    assert!(database.state(5).is_none());

    database.apply_batch(witnessed(1, vec![Prepare::new(5, 1, commitment(1))])).unwrap();
    let conflicting = witnessed(1, vec![Prepare::new(5, 1, commitment(2))]);
    assert!(matches!(database.apply_batch(conflicting), Err(ApplyError::RootConflict)));
    assert!(matches!(database.state(5), Some(State::Consistent { height: 1, .. })));
}

#[test]
fn prepare_at_other_height_overwrites() {
    let mut database = PrepareDatabase::new();
    database.apply_batch(witnessed(1, vec![Prepare::new(5, 1, commitment(1))])).unwrap();
    let found = database.apply_batch(witnessed(2, vec![Prepare::new(5, 2, commitment(2))])).unwrap();
    assert_eq!(found.len(), 0);
    match database.state(5) {
        Some(State::Consistent { height, commitment: stored, stale, .. }) => {
            assert_eq!(*height, 2);
            assert_eq!(*stored, commitment(2));
            assert!(*stale);
        }
        _ => panic!("the account must be consistent"),
    }
}

#[test]
fn unsorted_prepares_are_malformed() {
    let mut database = Database::new();
    let outcome = run_fast_path(
        &mut database,
        1,
        vec![Prepare::new(5, 1, commitment(1)), Prepare::new(5, 2, commitment(1))],
    );
    assert!(matches!(outcome, Err(ServePrepareError::MalformedBatch)));
}

fn signatures(slots: Vec<Option<Signature>>) -> Event {
    Event::Signatures { reduction_signature: MultiSignature::new(vec![0x4d]), individual_signatures: slots }
}

#[test]
fn signed_batch_goes_through_every_round() {
    let view = genesis();
    let store = discovery();
    let mut database = Database::new();
    database.assignments.insert(5, assignment(5));

    let prepares = vec![Prepare::new(5, 1, commitment(1)), Prepare::new(6, 1, commitment(2)), Prepare::new(8, 1, commitment(3))];
    let session = Session::new();
    let (session, _) = session
        .step(Event::Prepares(vector(1, prepares)), &view, genesis_identifier(), &store, &mut database)
        .unwrap();
    let (session, action) = session
        .step(
            signatures(vec![None, Some(Signature::new(vec![6])), None]),
            &view,
            genesis_identifier(),
            &store,
            &mut database,
        )
        .unwrap();
    match action {
        Action::RequestAssignments(ids) => assert_eq!(ids, vec![6, 8]),
        _ => panic!("the unknown ids must be asked for"),
    }
    let answer = vec![
        CheckedAssignment { assignment: assignment(6), signature_valid: true },
        CheckedAssignment { assignment: assignment(8), signature_valid: true },
    ];
    let (session, action) = session
        .step(Event::Assignments(answer), &view, genesis_identifier(), &store, &mut database)
        .unwrap();
    match action {
        Action::CheckSignatures(checks) => {
            assert_eq!(checks.root, Digest::new(0xbb, 0, 0, 1));
            assert_eq!(checks.individual.len(), 1);
            assert_eq!(checks.individual[0].prepare.id(), 6);
            assert_eq!(checks.individual[0].keycard.identity(), Digest::new(0xc1, 0, 0, 6));
            assert_eq!(checks.individual[0].signature.bytes(), &vec![6]);
            let signers = checks.reduction_signers.iter().map(|keycard| keycard.identity()).collect::<Vec<_>>();
            assert_eq!(signers, vec![Digest::new(0xc1, 0, 0, 5), Digest::new(0xc1, 0, 0, 8)]);
            assert_eq!(checks.reduction_signature.bytes(), &vec![0x4d]);
        }
        _ => panic!("the signatures must be checked"),
    }
    assert!(database.assignments.contains_key(&6));
    assert!(database.assignments.contains_key(&8));
    let (session, action) = session
        .step(
            Event::SignaturesChecked { individual_valid: true, reduction_valid: true },
            &view,
            genesis_identifier(),
            &store,
            &mut database,
        )
        .unwrap();
    assert!(matches!(action, Action::WitnessShard { root } if root == Digest::new(0xbb, 0, 0, 1)));
    let (session, action) = session
        .step(
            Event::Witness { certificate: witness(2), signature_valid: true },
            &view,
            genesis_identifier(),
            &store,
            &mut database,
        )
        .unwrap();
    assert!(session.is_done());
    match action {
        Action::CommitShard(commit) => assert_eq!(commit.exceptions.len(), 0),
        _ => panic!("the session must end with a commit shard"),
    }
    for id in [5, 6, 8] {
        assert!(matches!(database.prepare.state(id), Some(State::Consistent { height: 1, stale: true, .. })));
    }
}

fn at_signatures(database: &mut Database) -> Session {
    let (session, _) = Session::new()
        .step(
            Event::Prepares(vector(1, vec![Prepare::new(5, 1, commitment(1))])),
            &genesis(),
            genesis_identifier(),
            &discovery(),
            database,
        )
        .unwrap();
    session
}

#[test]
fn session_errors() {
    let view = genesis();
    let store = discovery();
    let id = genesis_identifier();

    let mut database = Database::new();
    let outcome = Session::new().step(signatures(vec![]), &view, id, &store, &mut database);
    assert!(matches!(outcome, Err(ServePrepareError::UnexpectedRequest)));

    assert_eq!(Session::new().abort(Failure::Disconnected), ServePrepareError::ConnectionError);
    assert_eq!(at_signatures(&mut database).abort(Failure::DatabaseVoid), ServePrepareError::DatabaseVoid);

    let outcome = at_signatures(&mut database).step(signatures(vec![None, None]), &view, id, &store, &mut database);
    assert!(matches!(outcome, Err(ServePrepareError::MalformedBatch)));

    let (session, _) = at_signatures(&mut database).step(signatures(vec![None]), &view, id, &store, &mut database).unwrap();
    let outcome = session.step(Event::Assignments(vec![]), &view, id, &store, &mut database);
    assert!(matches!(outcome, Err(ServePrepareError::MalformedIdAssignments)));

    let (session, _) = at_signatures(&mut database).step(signatures(vec![None]), &view, id, &store, &mut database).unwrap();
    let wrong = vec![CheckedAssignment { assignment: assignment(6), signature_valid: true }];
    let outcome = session.step(Event::Assignments(wrong), &view, id, &store, &mut database);
    assert!(matches!(outcome, Err(ServePrepareError::InvalidIdAssignment)));

    let (session, _) = at_signatures(&mut database).step(signatures(vec![None]), &view, id, &store, &mut database).unwrap();
    let forged = vec![CheckedAssignment { assignment: assignment(5), signature_valid: false }];
    let outcome = session.step(Event::Assignments(forged), &view, id, &store, &mut database);
    assert!(matches!(outcome, Err(ServePrepareError::InvalidIdAssignment)));
    assert!(!database.assignments.contains_key(&5));

    database.assignments.insert(5, assignment(5));
    let (session, action) = at_signatures(&mut database).step(signatures(vec![None]), &view, id, &store, &mut database).unwrap();
    assert!(matches!(action, Action::CheckSignatures(_)));
    let outcome = session.step(
        Event::SignaturesChecked { individual_valid: true, reduction_valid: false },
        &view,
        id,
        &store,
        &mut database,
    );
    assert!(matches!(outcome, Err(ServePrepareError::InvalidBatch)));

    let (session, _) = at_signatures(&mut database).step(signatures(vec![None]), &view, id, &store, &mut database).unwrap();
    let (session, _) = session
        .step(Event::SignaturesChecked { individual_valid: true, reduction_valid: true }, &view, id, &store, &mut database)
        .unwrap();
    let outcome = session.step(
        Event::Witness { certificate: witness(1), signature_valid: true },
        &view,
        id,
        &store,
        &mut database,
    );
    assert!(matches!(outcome, Err(ServePrepareError::InvalidWitness)));
    assert!(database.prepare.state(5).is_none());
}
