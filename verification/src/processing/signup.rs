use crate::account::Id;
use crate::crypto::Digest;
use crate::database::Signup;
use crate::processing::prepare::Failure;
use crate::signup::ClaimEvidence;
use crate::signup::IdClaim;
use crate::signup::IdRequest;
use crate::view::Committee;
use crate::view::ViewStore;
use vstd::prelude::*;

verus! {

broadcast use vstd::std_specs::hash::group_hash_axioms;

/// Why a sign-up session is aborted.
#[derive(Clone, Copy, Debug, PartialEq, Eq, Structural)]
pub enum ServeSignupError {
    ConnectionError,
    /// A request or claim pertains to another view.
    ForeignView,
    InvalidRequest,
    DatabaseVoid,
}

impl ServeSignupError {
    /// Why a session ends on a failure around it.
    pub fn from_failure(failure: Failure) -> (error: ServeSignupError)
        ensures
            error == match failure {
                Failure::Disconnected => ServeSignupError::ConnectionError,
                Failure::DatabaseVoid => ServeSignupError::DatabaseVoid,
            },
    {
        match failure {
            Failure::Disconnected => ServeSignupError::ConnectionError,
            Failure::DatabaseVoid => ServeSignupError::DatabaseVoid,
        }
    }
}

/// A claim as it came in, with what its checks found.
pub struct CheckedClaim {
    pub claim: IdClaim,
    pub evidence: ClaimEvidence,
}

/// The answer to a claim.
pub enum ClaimOutcome {
    /// The id is the claimant's: sign the assignment of the claim's id to
    /// the claim's client.
    Certify,
    /// The id was claimed before by another client, with this claim.
    Conflict(IdClaim),
}

/// Why a claim aborts the session, if it does.
pub open spec fn failure(checked: CheckedClaim, view: Digest, discovery: ViewStore) -> Option<
    ServeSignupError,
> {
    if checked.claim.spec_view() != view {
        Some(ServeSignupError::ForeignView)
    } else if checked.claim.verdict(discovery, checked.evidence) is Err {
        Some(ServeSignupError::InvalidRequest)
    } else {
        None
    }
}

/// The claims on record once `claim` is served: the first claim on an id
/// stays.
pub open spec fn claims_after(claims: Map<Id, IdClaim>, claim: IdClaim) -> Map<Id, IdClaim> {
    if claims.dom().contains(claim.spec_id()) {
        claims
    } else {
        claims.insert(claim.spec_id(), claim)
    }
}

/// Whether `claim` is by the client that holds its id.
pub open spec fn rightful(claims: Map<Id, IdClaim>, claim: IdClaim) -> bool {
    claims_after(claims, claim)[claim.spec_id()].spec_client() == claim.spec_client()
}

/// The claims on record once the first `count` of `served` are served.
pub open spec fn claims_served(claims: Map<Id, IdClaim>, served: Seq<CheckedClaim>, count: nat) -> Map<
    Id,
    IdClaim,
>
    decreases count,
{
    if count == 0 {
        claims
    } else {
        claims_after(claims_served(claims, served, (count - 1) as nat), served[count - 1].claim)
    }
}

/// The ids certified once the first `count` of `served` are served.
pub open spec fn claimed_served(
    claims: Map<Id, IdClaim>,
    claimed: Set<Id>,
    served: Seq<CheckedClaim>,
    count: nat,
) -> Set<Id>
    decreases count,
{
    if count == 0 {
        claimed
    } else {
        let earlier = claimed_served(claims, claimed, served, (count - 1) as nat);
        if rightful(claims_served(claims, served, (count - 1) as nat), served[count - 1].claim) {
            earlier.insert(served[count - 1].claim.spec_id())
        } else {
            earlier
        }
    }
}

/// The answer to the `index`-th claim.
pub open spec fn answer(claims: Map<Id, IdClaim>, served: Seq<CheckedClaim>, index: int, outcome: ClaimOutcome) -> bool {
    let before = claims_served(claims, served, index as nat);
    let claim = served[index].claim;
    if rightful(before, claim) {
        outcome is Certify
    } else {
        outcome == ClaimOutcome::Conflict(claims_after(before, claim)[claim.spec_id()])
    }
}

/// What serving a batch of claims comes to: every claim is served in
/// order up to the first that aborts the session, if any.
pub open spec fn served_outcome(
    view: Digest,
    discovery: ViewStore,
    claims: Map<Id, IdClaim>,
    claimed: Set<Id>,
    served: Seq<CheckedClaim>,
    claims_then: Map<Id, IdClaim>,
    claimed_then: Set<Id>,
    outcome: Result<Vec<ClaimOutcome>, ServeSignupError>,
) -> bool {
    match outcome {
        Ok(answers) => {
            &&& forall|i: int|
                0 <= i < served.len() ==> failure(#[trigger] served[i], view, discovery) is None
            &&& claims_then == claims_served(claims, served, served.len())
            &&& claimed_then == claimed_served(claims, claimed, served, served.len())
            &&& answers@.len() == served.len()
            &&& forall|i: int|
                0 <= i < served.len() ==> answer(claims, served, i, #[trigger] answers@[i])
        },
        Err(error) => exists|stop: int|
            {
                &&& 0 <= stop < served.len()
                &&& forall|i: int|
                    0 <= i < stop ==> failure(#[trigger] served[i], view, discovery) is None
                &&& failure(served[stop], view, discovery) == Some(error)
                &&& claims_then == claims_served(claims, served, stop as nat)
                &&& claimed_then == claimed_served(claims, claimed, served, stop as nat)
            },
    }
}

/// Serves a batch of claims in order, up to the first that pertains to
/// another view or is invalid. A claim on an id that nobody claimed
/// before is put on record. The claimant that holds the id gets its
/// assignment certified, and the id is marked as claimed; any other gets
/// the claim on record as proof of the conflict.
///
/// What was served before a claim aborts the session stays served.
pub fn id_claims(
    view: Digest,
    discovery: &ViewStore,
    database: &mut Signup,
    served: &Vec<CheckedClaim>,
) -> (outcome: Result<Vec<ClaimOutcome>, ServeSignupError>)
    requires
        discovery.wf(),
    ensures
        served_outcome(
            view,
            *discovery,
            old(database).claims@,
            old(database).claimed@,
            served@,
            final(database).claims@,
            final(database).claimed@,
            outcome,
        ),
{
    let mut answers: Vec<ClaimOutcome> = Vec::new();
    let mut index: usize = 0;
    while index < served.len()
        invariant
            discovery.wf(),
            index <= served@.len(),
            forall|i: int|
                0 <= i < index ==> failure(#[trigger] served@[i], view, *discovery) is None,
            database.claims@ == claims_served(old(database).claims@, served@, index as nat),
            database.claimed@ == claimed_served(
                old(database).claims@,
                old(database).claimed@,
                served@,
                index as nat,
            ),
            answers@.len() == index,
            forall|i: int|
                0 <= i < index ==> answer(old(database).claims@, served@, i, #[trigger] answers@[i]),
        decreases served@.len() - index,
    {
        let claim = &served[index].claim;
        if claim.view() != view {
            return Err(ServeSignupError::ForeignView);
        }
        if claim.validate(discovery, served[index].evidence).is_err() {
            return Err(ServeSignupError::InvalidRequest);
        }
        if !database.claims.contains_key(&claim.id()) {
            database.claims.insert(claim.id(), claim.clone());
        }
        let stored = database.claims.get(&claim.id()).unwrap();
        if stored.client() == claim.client() {
            database.claimed.insert(claim.id());
            answers.push(ClaimOutcome::Certify);
        } else {
            let conflict = ClaimOutcome::Conflict(stored.clone());
            answers.push(conflict);
        }
        index += 1;
    }
    Ok(answers)
}

/// Whether a batch of requests can go to one allocator: there is a
/// request, every request pertains to `view` and names the allocator of
/// the first, and that allocator is a member.
pub fn id_requests_fit(view: &Committee, identifier: Digest, requests: &Vec<IdRequest>) -> (fit: bool)
    requires
        view.wf(),
    ensures
        fit == {
            &&& requests@.len() > 0
            &&& view.members().contains(requests@[0].spec_allocator())
            &&& forall|i: int|
                0 <= i < requests@.len() ==> (#[trigger] requests@[i]).spec_view() == identifier
                    && requests@[i].spec_allocator() == requests@[0].spec_allocator()
        },
{
    if requests.len() == 0 {
        return false;
    }
    let allocator = requests[0].allocator();
    if !view.contains(&allocator) {
        return false;
    }
    let mut index: usize = 0;
    while index < requests.len()
        invariant
            requests@.len() > 0,
            allocator == requests@[0].spec_allocator(),
            index <= requests@.len(),
            forall|i: int|
                0 <= i < index ==> (#[trigger] requests@[i]).spec_view() == identifier
                    && requests@[i].spec_allocator() == allocator,
        decreases requests@.len() - index,
    {
        if requests[index].view() != identifier || requests[index].allocator() != allocator {
            return false;
        }
        index += 1;
    }
    true
}

} // verus!
