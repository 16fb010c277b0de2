use carbon::crypto::Certificate;
use carbon::crypto::Digest;
use carbon::crypto::KeyCard;
use carbon::crypto::Proof;
use carbon::crypto::Signature;
use carbon::database::Database;
use carbon::processing::id_claims;
use carbon::processing::id_requests_fit;
use carbon::processing::CheckedClaim;
use carbon::processing::ClaimOutcome;
use carbon::processing::Failure;
use carbon::processing::Processor;
use carbon::processing::ServeSignupError;
use carbon::signup::ClaimEvidence;
use carbon::signup::IdAssignment;
use carbon::signup::IdAssignmentError;
use carbon::signup::IdClaim;
use carbon::signup::IdClaimError;
use carbon::signup::IdRequest;
use carbon::signup::RequestEvidence;
use carbon::signup::RequestIdError;
use carbon::view::Committee;
use carbon::view::ViewStore;

const FINE: RequestEvidence = RequestEvidence { work_valid: true, rogue_valid: true };
const CLAIMED: ClaimEvidence = ClaimEvidence { request: FINE, allocation_valid: true };

fn replica(index: u64) -> Digest {
    Digest::new(9, 9, 9, index)
}

fn view() -> Committee {
    Committee::genesis((0..4).map(replica).collect())
}

fn identifier() -> Digest {
    Digest::new(0xaa, 0, 0, 4)
}

fn discovery() -> ViewStore {
    let mut store = ViewStore::new();
    assert!(store.register(identifier(), view()));
    store
}

fn client(index: u64) -> KeyCard {
    KeyCard::new(Digest::new(0xc1, 0, 0, index), vec![index as u8])
}

fn request(view: Digest, allocator: Digest, index: u64) -> IdRequest {
    IdRequest::new(view, allocator, client(index), Proof::new(vec![10]), Proof::new(vec![11]))
}

fn claim(id: u64, index: u64) -> CheckedClaim {
    CheckedClaim {
        claim: IdClaim::new(request(identifier(), replica(0), index), id, Signature::new(vec![id as u8])),
        evidence: CLAIMED,
    }
}

#[test]
fn correct() {
    let view = view();
    let allocator = view.member_list()[0];

    let request = request(identifier(), allocator, 1);
    request.validate(&discovery(), FINE).unwrap();
}

#[test]
fn id_request_hands_out_its_parts() {
    let request = request(identifier(), replica(2), 1);
    assert_eq!(request.view(), identifier());
    assert_eq!(request.allocator(), replica(2));
    assert_eq!(request.client(), Digest::new(0xc1, 0, 0, 1));
    assert_eq!(request.client_keycard().key_bytes(), &vec![1]);
}

#[test]
fn id_request_errors() {
    let store = discovery();
    assert_eq!(
        request(Digest::new(0, 0, 0, 0), replica(0), 1).validate(&store, FINE),
        Err(RequestIdError::UnknownView)
    );
    assert_eq!(
        request(identifier(), replica(7), 1).validate(&store, FINE),
        Err(RequestIdError::ForeignAllocator)
    );
    assert_eq!(
        request(identifier(), replica(0), 1).validate(&store, RequestEvidence { work_valid: false, rogue_valid: false }),
        Err(RequestIdError::WorkInvalid)
    );
    assert_eq!(
        request(identifier(), replica(0), 1).validate(&store, RequestEvidence { work_valid: true, rogue_valid: false }),
        Err(RequestIdError::RogueInvalid)
    );
}

#[test]
fn id_claim_errors() {
    let store = discovery();
    let checked = claim(5, 1);
    assert_eq!(checked.claim.id(), 5);
    assert_eq!(checked.claim.view(), identifier());
    assert_eq!(checked.claim.client(), Digest::new(0xc1, 0, 0, 1));
    assert_eq!(checked.claim.allocation().bytes(), &vec![5]);
    assert_eq!(checked.claim.request().allocator(), replica(0));
    assert_eq!(checked.claim.validate(&store, CLAIMED), Ok(()));
    assert_eq!(
        checked.claim.validate(&store, ClaimEvidence { request: FINE, allocation_valid: false }),
        Err(IdClaimError::AllocationInvalid)
    );
    assert_eq!(
        checked.claim.validate(
            &store,
            ClaimEvidence { request: RequestEvidence { work_valid: false, rogue_valid: true }, allocation_valid: true }
        ),
        Err(IdClaimError::RequestInvalid(RequestIdError::WorkInvalid))
    );
}

#[test]
fn id_assignment_needs_a_quorum() {
    let store = discovery();
    let made = |view: Digest, signers: u64| {
        IdAssignment::new(view, 5, client(1), Certificate::new((0..signers).map(replica).collect(), vec![]))
    };
    let assignment = made(identifier(), 4);
    assert_eq!(assignment.id(), 5);
    assert_eq!(assignment.view(), identifier());
    assert_eq!(assignment.keycard().identity(), Digest::new(0xc1, 0, 0, 1));
    assert_eq!(assignment.certificate().power(), 4);
    assert_eq!(assignment.validate(&store, true), Ok(()));
    assert_eq!(assignment.validate(&store, false), Err(IdAssignmentError::CertificateInvalid));
    assert_eq!(made(identifier(), 3).validate(&store, true), Err(IdAssignmentError::CertificateInvalid));
    assert_eq!(made(Digest::new(0, 0, 0, 0), 4).validate(&store, true), Err(IdAssignmentError::ViewUnknown));
}

#[test]
fn first_claim_on_an_id_holds_it() {
    let store = discovery();
    let mut database = Database::new();
    let answers = id_claims(identifier(), &store, &mut database.signup, &vec![claim(5, 1), claim(6, 2), claim(5, 2), claim(5, 1)]).unwrap();
    assert_eq!(answers.len(), 4);
    assert!(matches!(answers[0], ClaimOutcome::Certify));
    assert!(matches!(answers[1], ClaimOutcome::Certify));
    assert!(matches!(&answers[2], ClaimOutcome::Conflict(held) if held.client() == Digest::new(0xc1, 0, 0, 1) && held.id() == 5));
    assert!(matches!(answers[3], ClaimOutcome::Certify));
    assert_eq!(database.signup.claims.len(), 2);
    assert_eq!(database.signup.claimed.len(), 2);
    assert!(database.signup.claimed.contains(&5));
    assert_eq!(database.signup.claims.get(&5).unwrap().client(), Digest::new(0xc1, 0, 0, 1));
}

#[test]
fn claims_served_before_a_failure_stay_served() {
    let store = discovery();
    let mut database = Database::new();
    let foreign = CheckedClaim {
        claim: IdClaim::new(request(Digest::new(0xaa, 0, 0, 5), replica(0), 3), 7, Signature::new(vec![])),
        evidence: CLAIMED,
    };
    let outcome = id_claims(identifier(), &store, &mut database.signup, &vec![claim(5, 1), foreign, claim(6, 2)]);
    assert!(matches!(outcome, Err(ServeSignupError::ForeignView)));
    assert!(database.signup.claimed.contains(&5));
    assert!(!database.signup.claims.contains_key(&7));
    assert!(!database.signup.claims.contains_key(&6));

    let invalid = CheckedClaim {
        claim: IdClaim::new(request(identifier(), replica(0), 3), 7, Signature::new(vec![])),
        evidence: ClaimEvidence { request: FINE, allocation_valid: false },
    };
    let outcome = id_claims(identifier(), &store, &mut database.signup, &vec![invalid]);
    assert!(matches!(outcome, Err(ServeSignupError::InvalidRequest)));
    assert!(!database.signup.claims.contains_key(&7));
}

#[test]
fn failures_end_a_signup_session() {
    assert_eq!(ServeSignupError::from_failure(Failure::Disconnected), ServeSignupError::ConnectionError);
    assert_eq!(ServeSignupError::from_failure(Failure::DatabaseVoid), ServeSignupError::DatabaseVoid);
}

#[test]
fn processor_serves_claims() {
    let store = discovery();
    let mut processor = Processor::new(view(), identifier(), Database::new());
    let answers = processor.serve_claims(&vec![claim(5, 1)], &store).unwrap();
    assert!(matches!(answers[0], ClaimOutcome::Certify));
    assert!(processor.shutdown().signup.claimed.contains(&5));
}

#[test]
fn requests_of_a_batch_go_to_one_allocator() {
    let view = view();
    let batch = vec![request(identifier(), replica(1), 1), request(identifier(), replica(1), 2)];
    assert!(id_requests_fit(&view, identifier(), &batch));
    assert!(!id_requests_fit(&view, identifier(), &vec![]));
    assert!(!id_requests_fit(&view, Digest::new(0xaa, 0, 0, 5), &batch));
    let mixed = vec![request(identifier(), replica(1), 1), request(identifier(), replica(2), 2)];
    assert!(!id_requests_fit(&view, identifier(), &mixed));
    let outside = vec![request(identifier(), replica(8), 1)];
    assert!(!id_requests_fit(&view, identifier(), &outside));
}
