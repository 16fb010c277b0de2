use crate::account::Id;
use crate::crypto::Certificate;
use crate::crypto::Digest;
use crate::crypto::KeyCard;
use crate::crypto::MultiSignature;
use crate::crypto::Signature;
use crate::database::ledger::absorb;
use crate::database::ledger::exceptions;
use crate::database::Database;
use crate::database::Ledger;
use crate::prepare::batch::strictly_monotone;
use crate::prepare::BatchCommit;
use crate::prepare::Prepare;
use crate::prepare::PrepareVector;
use crate::prepare::SignedBatch;
use crate::prepare::WitnessedBatch;
use crate::signup::IdAssignment;
use crate::view::view::plurality_of;
use crate::view::Committee;
use crate::view::ViewStore;
use std::collections::HashMap;
use vstd::prelude::*;

verus! {

broadcast use vstd::std_specs::hash::group_hash_axioms;

/// Why a prepare session is aborted.
#[derive(Clone, Copy, Debug, PartialEq, Eq, Structural)]
pub enum ServePrepareError {
    ConnectionError,
    UnexpectedRequest,
    MalformedBatch,
    MalformedIdAssignments,
    InvalidIdAssignment,
    InvalidBatch,
    InvalidWitness,
    DatabaseVoid,
}

/// One signature to check: `signature` over `prepare`, with `keycard`.
pub struct SignatureCheck {
    pub keycard: KeyCard,
    pub prepare: Prepare,
    pub signature: Signature,
}

/// The signatures of a batch that are to be checked: the individual ones,
/// and the reduction signature over the reduction statement of `root`,
/// with the keycards of all who did not sign individually.
pub struct BatchChecks {
    pub root: Digest,
    pub individual: Vec<SignatureCheck>,
    pub reduction_signers: Vec<KeyCard>,
    pub reduction_signature: MultiSignature,
}

/// An assignment as it came in, with what the check of its certificate's
/// aggregate signature found.
pub struct CheckedAssignment {
    pub assignment: IdAssignment,
    pub signature_valid: bool,
}

/// What can fail around a session.
#[derive(Clone, Copy, Debug, PartialEq, Eq, Structural)]
pub enum Failure {
    /// The connection to the broker is lost.
    Disconnected,
    /// The database was voided: the replica is shutting down.
    DatabaseVoid,
}

/// What happens to a session: a message of the broker, with what the
/// checks of its signatures found where it carries any, or the outcome of
/// a check that the session asked for.
pub enum Event {
    Prepares(PrepareVector),
    Witness { certificate: Certificate, signature_valid: bool },
    Signatures { reduction_signature: MultiSignature, individual_signatures: Vec<Option<Signature>> },
    Assignments(Vec<CheckedAssignment>),
    SignaturesChecked { individual_valid: bool, reduction_valid: bool },
}

/// What the session asks of whoever runs it.
pub enum Action {
    /// Wait for the broker's next message.
    Receive,
    /// Tell the broker which ids are unknown, and wait for their
    /// assignments.
    RequestAssignments(Vec<Id>),
    /// Check these signatures, and report with `SignaturesChecked`.
    CheckSignatures(BatchChecks),
    /// Sign the witness statement of `root`, send the shard, and wait for
    /// the witness.
    WitnessShard { root: Digest },
    /// Sign this commit and send the shard; the session is over.
    CommitShard(BatchCommit),
}

/// How far a session has come.
pub enum Stage {
    /// Nothing was received yet.
    Fresh,
    /// The prepares are in; their witness or their signatures are due.
    Prepared { prepares: PrepareVector },
    /// The assignments of `unknown` are due.
    Unassigned { batch: SignedBatch, unknown: Vec<Id> },
    /// The outcome of the signature checks is due.
    Unverified { batch: SignedBatch },
    /// The witness shard is out; the witness is due.
    Unwitnessed { batch: SignedBatch },
    /// The commit shard is out.
    Done,
}

/// The ids among `prepares` that `known` lacks, in the order of the
/// prepares.
pub open spec fn unknown_ids(prepares: Seq<Prepare>, known: Set<Id>) -> Seq<Id>
    decreases prepares.len(),
{
    if prepares.len() == 0 {
        Seq::empty()
    } else {
        let earlier = unknown_ids(prepares.drop_last(), known);
        if known.contains(prepares.last().spec_id()) {
            earlier
        } else {
            earlier.push(prepares.last().spec_id())
        }
    }
}

/// The individual signatures to check, in the order of the prepares.
pub open spec fn individual_checks(
    prepares: Seq<Prepare>,
    signatures: Seq<Option<Signature>>,
    assignments: Map<Id, IdAssignment>,
) -> Seq<SignatureCheck>
    decreases prepares.len(),
{
    if prepares.len() == 0 || signatures.len() == 0 {
        Seq::empty()
    } else {
        let earlier = individual_checks(prepares.drop_last(), signatures.drop_last(), assignments);
        match signatures.last() {
            Some(signature) => earlier.push(
                SignatureCheck {
                    keycard: assignments[prepares.last().spec_id()].spec_keycard(),
                    prepare: prepares.last(),
                    signature,
                },
            ),
            None => earlier,
        }
    }
}

/// The keycards of the accounts that did not sign individually, in the
/// order of the prepares.
pub open spec fn reduction_signers(
    prepares: Seq<Prepare>,
    signatures: Seq<Option<Signature>>,
    assignments: Map<Id, IdAssignment>,
) -> Seq<KeyCard>
    decreases prepares.len(),
{
    if prepares.len() == 0 || signatures.len() == 0 {
        Seq::empty()
    } else {
        let earlier = reduction_signers(prepares.drop_last(), signatures.drop_last(), assignments);
        match signatures.last() {
            Some(_) => earlier,
            None => earlier.push(assignments[prepares.last().spec_id()].spec_keycard()),
        }
    }
}

/// `checks` asks for exactly the signatures of `batch`.
pub open spec fn checks_of(checks: BatchChecks, batch: SignedBatch, assignments: Map<Id, IdAssignment>) -> bool {
    &&& checks.root == batch.spec_prepares().spec_root()
    &&& checks.individual@ == individual_checks(
        batch.spec_prepares().items(),
        batch.spec_individual_signatures(),
        assignments,
    )
    &&& checks.reduction_signers@ == reduction_signers(
        batch.spec_prepares().items(),
        batch.spec_individual_signatures(),
        assignments,
    )
    &&& checks.reduction_signature == batch.spec_reduction_signature()
}

/// A batch is sound when it has one proof and one signature slot for each
/// prepare, and account ids that strictly increase.
pub open spec fn sound(batch: SignedBatch) -> bool {
    &&& batch.spec_prepares().wf()
    &&& strictly_monotone(batch.spec_prepares().items())
    &&& batch.spec_individual_signatures().len() == batch.spec_prepares().items().len()
}

/// The assignments once every one of `checked` is filed under its id.
pub open spec fn filed(assignments: Map<Id, IdAssignment>, checked: Seq<CheckedAssignment>) -> Map<
    Id,
    IdAssignment,
>
    decreases checked.len(),
{
    if checked.len() == 0 {
        assignments
    } else {
        filed(assignments, checked.drop_last()).insert(
            checked.last().assignment.spec_id(),
            checked.last().assignment,
        )
    }
}

/// Every assignment answers the id that was asked for at its position,
/// and is valid.
pub open spec fn answers(unknown: Seq<Id>, checked: Seq<CheckedAssignment>, discovery: ViewStore) -> bool {
    forall|i: int|
        0 <= i < checked.len() ==> (#[trigger] checked[i]).assignment.spec_id() == unknown[i]
            && checked[i].assignment.verdict(discovery, checked[i].signature_valid) is Ok
}

impl Event {
    pub open spec fn wf(&self) -> bool {
        match *self {
            Event::Prepares(prepares) => prepares.wf(),
            Event::Witness { certificate, .. } => certificate.wf(),
            Event::Assignments(checked) => forall|i: int|
                0 <= i < checked@.len() ==> (#[trigger] checked@[i]).assignment.wf(),
            _ => true,
        }
    }
}

/// One session of a broker with the replica's prepare server.
pub struct Session {
    stage: Stage,
}

impl Session {
    pub closed spec fn stage(&self) -> Stage {
        self.stage
    }

    /// What a session holds is sound.
    pub open spec fn wf(&self) -> bool {
        match self.stage() {
            Stage::Fresh => true,
            Stage::Prepared { prepares } => prepares.wf() && strictly_monotone(prepares.items()),
            Stage::Unassigned { batch, unknown } => sound(batch),
            Stage::Unverified { batch } => sound(batch),
            Stage::Unwitnessed { batch } => sound(batch),
            Stage::Done => true,
        }
    }

    pub fn new() -> (session: Session)
        ensures
            session.stage() is Fresh,
            session.wf(),
    {
        Session { stage: Stage::Fresh }
    }

    /// Whether the commit shard is out.
    pub fn is_done(&self) -> (done: bool)
        ensures
            done == (self.stage() is Done),
    {
        match &self.stage {
            Stage::Done => true,
            _ => false,
        }
    }

    /// Ends the session on a failure around it, and tells why it ended.
    pub fn abort(self, failure: Failure) -> (error: ServePrepareError)
        ensures
            error == match failure {
                Failure::Disconnected => ServePrepareError::ConnectionError,
                Failure::DatabaseVoid => ServePrepareError::DatabaseVoid,
            },
    {
        match failure {
            Failure::Disconnected => ServePrepareError::ConnectionError,
            Failure::DatabaseVoid => ServePrepareError::DatabaseVoid,
        }
    }

    /// What the session does when the prepares come in: it turns them away
    /// unless the account ids strictly increase, and else waits for their
    /// witness or their signatures.
    pub open spec fn on_prepares(prepares: PrepareVector, outcome: Result<(Session, Action), ServePrepareError>) -> bool {
        if strictly_monotone(prepares.items()) {
            outcome matches Ok((next, Action::Receive)) && next.stage() == (Stage::Prepared {
                prepares,
            })
        } else {
            outcome == Err::<(Session, Action), ServePrepareError>(ServePrepareError::MalformedBatch)
        }
    }

    /// What the session does when the signatures come in: it turns the
    /// batch away unless there is one signature slot for each prepare;
    /// asks for the assignments of the ids that it does not know; and,
    /// where it knows them all, asks for the signatures to be checked.
    pub open spec fn on_signatures(
        prepares: PrepareVector,
        reduction_signature: MultiSignature,
        individual_signatures: Vec<Option<Signature>>,
        assignments: Map<Id, IdAssignment>,
        outcome: Result<(Session, Action), ServePrepareError>,
    ) -> bool {
        let signed = SignedBatch::spec_new(prepares, reduction_signature, individual_signatures);
        if individual_signatures@.len() != prepares.items().len() {
            outcome == Err::<(Session, Action), ServePrepareError>(ServePrepareError::MalformedBatch)
        } else if unknown_ids(prepares.items(), assignments.dom()).len() > 0 {
            &&& outcome matches Ok((next, Action::RequestAssignments(asked)))
            &&& asked@ == unknown_ids(prepares.items(), assignments.dom())
            &&& next.stage() matches Stage::Unassigned { batch, unknown }
            &&& unknown@ == asked@
            &&& batch == signed
        } else {
            &&& outcome matches Ok((next, Action::CheckSignatures(checks)))
            &&& next.stage() == (Stage::Unverified { batch: signed })
            &&& checks_of(checks, signed, assignments)
        }
    }

    /// What the session does when the assignments come in: it turns them
    /// away unless there is one for each id that it asked for, each
    /// answers the id at its position, and each is valid; it files them;
    /// it aborts if an id of the batch is unknown even so, and else asks
    /// for the signatures of the batch to be checked.
    pub open spec fn on_assignments(
        batch: SignedBatch,
        unknown: Seq<Id>,
        checked: Seq<CheckedAssignment>,
        discovery: ViewStore,
        before: Map<Id, IdAssignment>,
        after: Map<Id, IdAssignment>,
        outcome: Result<(Session, Action), ServePrepareError>,
    ) -> bool {
        if checked.len() != unknown.len() {
            &&& outcome == Err::<(Session, Action), ServePrepareError>(
                ServePrepareError::MalformedIdAssignments,
            )
            &&& after == before
        } else if !answers(unknown, checked, discovery) {
            &&& outcome == Err::<(Session, Action), ServePrepareError>(
                ServePrepareError::InvalidIdAssignment,
            )
            &&& after == before
        } else if unknown_ids(batch.spec_prepares().items(), filed(before, checked).dom()).len()
            > 0 {
            &&& outcome == Err::<(Session, Action), ServePrepareError>(
                ServePrepareError::MalformedIdAssignments,
            )
            &&& after == filed(before, checked)
        } else {
            &&& after == filed(before, checked)
            &&& outcome matches Ok((next, Action::CheckSignatures(checks)))
            &&& next.stage() == (Stage::Unverified { batch })
            &&& checks_of(checks, batch, after)
        }
    }

    /// What the session does when the signatures are checked: it aborts
    /// unless all are valid, and else asks for the witness shard to go out.
    pub open spec fn on_signatures_checked(
        batch: SignedBatch,
        individual_valid: bool,
        reduction_valid: bool,
        outcome: Result<(Session, Action), ServePrepareError>,
    ) -> bool {
        if individual_valid && reduction_valid {
            outcome matches Ok((next, Action::WitnessShard { root })) && root
                == batch.spec_prepares().spec_root() && next.stage() == (Stage::Unwitnessed {
                batch,
            })
        } else {
            outcome == Err::<(Session, Action), ServePrepareError>(ServePrepareError::InvalidBatch)
        }
    }

    /// What the session does with a witnessed batch: it takes the batch
    /// into the database and asks for the commit shard to go out, with the
    /// equivocations that the batch brought to light as exceptions; it
    /// aborts, and leaves the database alone, if the root of the batch is
    /// on file for other prepares.
    pub open spec fn on_witnessed(
        view: Digest,
        prepares: PrepareVector,
        witness: Certificate,
        before: Ledger,
        after: Ledger,
        outcome: Result<(Session, Action), ServePrepareError>,
    ) -> bool {
        let batch = WitnessedBatch::spec_new(view, prepares, witness);
        if before.admits(batch) {
            &&& after == absorb(before, batch)
            &&& outcome matches Ok((next, Action::CommitShard(commit)))
            &&& next.stage() is Done
            &&& commit.view == view
            &&& commit.root == prepares.spec_root()
            &&& commit.exceptions@ == exceptions(before, batch, prepares.items().len())
        } else {
            &&& after == before
            &&& outcome == Err::<(Session, Action), ServePrepareError>(
                ServePrepareError::InvalidBatch,
            )
        }
    }

    /// What the session does when the witness comes in after the shard
    /// went out: it aborts unless the witness carries a plurality of the
    /// view with a valid signature, and else goes on as with any witnessed
    /// batch.
    pub open spec fn on_witness(
        view: Committee,
        identifier: Digest,
        batch: SignedBatch,
        witness: Certificate,
        signature_valid: bool,
        before: Ledger,
        after: Ledger,
        outcome: Result<(Session, Action), ServePrepareError>,
    ) -> bool {
        if witness.verdict(view, plurality_of(view.members().len()), signature_valid) is Err {
            &&& after == before
            &&& outcome == Err::<(Session, Action), ServePrepareError>(
                ServePrepareError::InvalidWitness,
            )
        } else {
            Self::on_witnessed(identifier, batch.spec_prepares(), witness, before, after, outcome)
        }
    }

    /// What one step of a session comes to, for each stage and event.
    pub open spec fn transition(
        stage: Stage,
        event: Event,
        view: Committee,
        identifier: Digest,
        discovery: ViewStore,
        before: Database,
        after: Database,
        outcome: Result<(Session, Action), ServePrepareError>,
    ) -> bool {
        match (stage, event) {
            (Stage::Fresh, Event::Prepares(prepares)) => {
                &&& Self::on_prepares(prepares, outcome)
                &&& after.assignments@ == before.assignments@
                &&& after.prepare@ == before.prepare@
            },
            (Stage::Prepared { prepares }, Event::Witness { certificate, .. }) => {
                &&& Self::on_witnessed(
                    identifier,
                    prepares,
                    certificate,
                    before.prepare@,
                    after.prepare@,
                    outcome,
                )
                &&& after.assignments@ == before.assignments@
            },
            (
                Stage::Prepared { prepares },
                Event::Signatures { reduction_signature, individual_signatures },
            ) => {
                &&& Self::on_signatures(
                    prepares,
                    reduction_signature,
                    individual_signatures,
                    before.assignments@,
                    outcome,
                )
                &&& after.assignments@ == before.assignments@
                &&& after.prepare@ == before.prepare@
            },
            (Stage::Unassigned { batch, unknown }, Event::Assignments(checked)) => {
                &&& Self::on_assignments(
                    batch,
                    unknown@,
                    checked@,
                    discovery,
                    before.assignments@,
                    after.assignments@,
                    outcome,
                )
                &&& after.prepare@ == before.prepare@
            },
            (
                Stage::Unverified { batch },
                Event::SignaturesChecked { individual_valid, reduction_valid },
            ) => {
                &&& Self::on_signatures_checked(batch, individual_valid, reduction_valid, outcome)
                &&& after.assignments@ == before.assignments@
                &&& after.prepare@ == before.prepare@
            },
            (Stage::Unwitnessed { batch }, Event::Witness { certificate, signature_valid }) => {
                &&& Self::on_witness(
                    view,
                    identifier,
                    batch,
                    certificate,
                    signature_valid,
                    before.prepare@,
                    after.prepare@,
                    outcome,
                )
                &&& after.assignments@ == before.assignments@
            },
            _ => {
                &&& outcome == Err::<(Session, Action), ServePrepareError>(
                    ServePrepareError::UnexpectedRequest,
                )
                &&& after.assignments@ == before.assignments@
                &&& after.prepare@ == before.prepare@
            },
        }
    }
}

/// Where no id is unknown, every prepare's id is known.
proof fn lemma_all_known(prepares: Seq<Prepare>, known: Set<Id>)
    requires
        unknown_ids(prepares, known).len() == 0,
    ensures
        forall|i: int| 0 <= i < prepares.len() ==> known.contains((#[trigger] prepares[i]).spec_id()),
    decreases prepares.len(),
{
    if prepares.len() > 0 {
        let earlier = prepares.drop_last();
        lemma_all_known(earlier, known);
        assert forall|i: int| 0 <= i < prepares.len() implies known.contains(
            (#[trigger] prepares[i]).spec_id(),
        ) by {
            if i < earlier.len() {
                assert(earlier[i] == prepares[i]);
            }
        }
    }
}

fn find_unknown(prepares: &Vec<Prepare>, assignments: &HashMap<Id, IdAssignment>) -> (unknown: Vec<Id>)
    ensures
        unknown@ == unknown_ids(prepares@, assignments@.dom()),
{
    let mut unknown: Vec<Id> = Vec::new();
    let mut index: usize = 0;
    while index < prepares.len()
        invariant
            index <= prepares@.len(),
            unknown@ == unknown_ids(prepares@.take(index as int), assignments@.dom()),
        decreases prepares@.len() - index,
    {
        let id = prepares[index].id();
        proof {
            let grown = prepares@.take(index + 1);
            assert(grown.drop_last() == prepares@.take(index as int));
            assert(grown.last() == prepares@[index as int]);
        }
        if !assignments.contains_key(&id) {
            unknown.push(id);
        }
        index += 1;
    }
    assert(prepares@.take(index as int) == prepares@);
    unknown
}

fn copy_ids(ids: &Vec<Id>) -> (copy: Vec<Id>)
    ensures
        copy@ == ids@,
{
    let copy = ids.clone();
    assert(copy@ =~= ids@);
    copy
}

fn build_checks(batch: &SignedBatch, assignments: &HashMap<Id, IdAssignment>) -> (checks: BatchChecks)
    requires
        sound(*batch),
        forall|i: int|
            0 <= i < batch.spec_prepares().items().len() ==> assignments@.dom().contains(
                (#[trigger] batch.spec_prepares().items()[i]).spec_id(),
            ),
    ensures
        checks_of(checks, *batch, assignments@),
{
    let prepares = batch.prepares();
    let signatures = batch.individual_signatures();
    let mut individual: Vec<SignatureCheck> = Vec::new();
    let mut signers: Vec<KeyCard> = Vec::new();
    let mut index: usize = 0;
    while index < prepares.len()
        invariant
            prepares@.len() == signatures@.len(),
            index <= prepares@.len(),
            forall|i: int|
                0 <= i < prepares@.len() ==> assignments@.dom().contains(
                    (#[trigger] prepares@[i]).spec_id(),
                ),
            individual@ == individual_checks(
                prepares@.take(index as int),
                signatures@.take(index as int),
                assignments@,
            ),
            signers@ == reduction_signers(
                prepares@.take(index as int),
                signatures@.take(index as int),
                assignments@,
            ),
        decreases prepares@.len() - index,
    {
        let prepare = prepares[index];
        proof {
            let grown = prepares@.take(index + 1);
            assert(grown.drop_last() == prepares@.take(index as int));
            assert(grown.last() == prepares@[index as int]);
            let slots = signatures@.take(index + 1);
            assert(slots.drop_last() == signatures@.take(index as int));
            assert(slots.last() == signatures@[index as int]);
            assert(assignments@.dom().contains(prepares@[index as int].spec_id()));
        }
        let keycard = assignments.get(&prepare.id()).unwrap().keycard();
        match &signatures[index] {
            Some(signature) => {
                individual.push(SignatureCheck { keycard, prepare, signature: signature.clone() });
            },
            None => {
                signers.push(keycard);
            },
        }
        index += 1;
    }
    assert(prepares@.take(index as int) == prepares@);
    assert(signatures@.take(index as int) == signatures@);
    BatchChecks {
        root: batch.root(),
        individual,
        reduction_signers: signers,
        reduction_signature: batch.reduction_signature(),
    }
}

/// Whether every assignment answers the id asked for at its position and
/// is valid.
fn check_answers(unknown: &Vec<Id>, checked: &Vec<CheckedAssignment>, discovery: &ViewStore) -> (fine:
    bool)
    requires
        discovery.wf(),
        unknown@.len() == checked@.len(),
        forall|i: int| 0 <= i < checked@.len() ==> (#[trigger] checked@[i]).assignment.wf(),
    ensures
        fine == answers(unknown@, checked@, *discovery),
{
    let mut index: usize = 0;
    while index < checked.len()
        invariant
            discovery.wf(),
            unknown@.len() == checked@.len(),
            index <= checked@.len(),
            forall|i: int| 0 <= i < checked@.len() ==> (#[trigger] checked@[i]).assignment.wf(),
            forall|i: int|
                0 <= i < index ==> (#[trigger] checked@[i]).assignment.spec_id() == unknown@[i]
                    && checked@[i].assignment.verdict(*discovery, checked@[i].signature_valid)
                    is Ok,
        decreases checked@.len() - index,
    {
        let entry = &checked[index];
        if entry.assignment.id() != unknown[index] || entry.assignment.validate(
            discovery,
            entry.signature_valid,
        ).is_err() {
            return false;
        }
        index += 1;
    }
    true
}

/// Files every assignment under its id, a later one over an earlier one
/// of the same id.
fn file_assignments(assignments: &mut HashMap<Id, IdAssignment>, checked: &Vec<CheckedAssignment>)
    requires
        forall|id: Id| #[trigger]
            old(assignments)@.dom().contains(id) ==> old(assignments)@[id].wf(),
        forall|i: int| 0 <= i < checked@.len() ==> (#[trigger] checked@[i]).assignment.wf(),
    ensures
        final(assignments)@ == filed(old(assignments)@, checked@),
        forall|id: Id| #[trigger]
            final(assignments)@.dom().contains(id) ==> final(assignments)@[id].wf(),
{
    let mut index: usize = 0;
    while index < checked.len()
        invariant
            index <= checked@.len(),
            forall|i: int| 0 <= i < checked@.len() ==> (#[trigger] checked@[i]).assignment.wf(),
            assignments@ == filed(old(assignments)@, checked@.take(index as int)),
            forall|id: Id| #[trigger] assignments@.dom().contains(id) ==> assignments@[id].wf(),
        decreases checked@.len() - index,
    {
        let assignment = checked[index].assignment.clone();
        proof {
            let grown = checked@.take(index + 1);
            assert(grown.drop_last() == checked@.take(index as int));
            assert(grown.last() == checked@[index as int]);
            assert(checked@[index as int].assignment.wf());
        }
        assignments.insert(assignment.id(), assignment);
        index += 1;
    }
    assert(checked@.take(index as int) == checked@);
}

impl Session {
    /// Takes the session one step further: tells what to do next, or why
    /// the session is aborted.
    pub fn step(
        self,
        event: Event,
        view: &Committee,
        identifier: Digest,
        discovery: &ViewStore,
        database: &mut Database,
    ) -> (outcome: Result<(Session, Action), ServePrepareError>)
        requires
            self.wf(),
            event.wf(),
            view.wf(),
            discovery.wf(),
            old(database).wf(),
        ensures
            final(database).wf(),
            final(database).signup == old(database).signup,
            final(database).commit == old(database).commit,
            Self::transition(
                self.stage(),
                event,
                *view,
                identifier,
                *discovery,
                *old(database),
                *final(database),
                outcome,
            ),
            outcome matches Ok((next, _)) ==> next.wf(),
    {
        match (self.stage, event) {
            (Stage::Fresh, Event::Prepares(prepares)) => {
                if prepares.is_strictly_monotone() {
                    Ok((Session { stage: Stage::Prepared { prepares } }, Action::Receive))
                } else {
                    Err(ServePrepareError::MalformedBatch)
                }
            },
            (Stage::Prepared { prepares }, Event::Witness { certificate, .. }) => {
                let batch = WitnessedBatch::new(identifier, prepares, certificate);
                Self::commit(identifier, batch, database)
            },
            (
                Stage::Prepared { prepares },
                Event::Signatures { reduction_signature, individual_signatures },
            ) => {
                if individual_signatures.len() != prepares.len() {
                    return Err(ServePrepareError::MalformedBatch);
                }
                let batch = SignedBatch::new(prepares, reduction_signature, individual_signatures);
                let unknown = find_unknown(batch.prepares(), &database.assignments);
                if unknown.len() > 0 {
                    let asked = copy_ids(&unknown);
                    Ok(
                        (
                            Session { stage: Stage::Unassigned { batch, unknown } },
                            Action::RequestAssignments(asked),
                        ),
                    )
                } else {
                    proof {
                        lemma_all_known(batch.spec_prepares().items(), database.assignments@.dom());
                    }
                    let checks = build_checks(&batch, &database.assignments);
                    Ok((Session { stage: Stage::Unverified { batch } }, Action::CheckSignatures(checks)))
                }
            },
            (Stage::Unassigned { batch, unknown }, Event::Assignments(checked)) => {
                if checked.len() != unknown.len() {
                    return Err(ServePrepareError::MalformedIdAssignments);
                }
                if !check_answers(&unknown, &checked, discovery) {
                    return Err(ServePrepareError::InvalidIdAssignment);
                }
                file_assignments(&mut database.assignments, &checked);
                let missing = find_unknown(batch.prepares(), &database.assignments);
                if missing.len() > 0 {
                    return Err(ServePrepareError::MalformedIdAssignments);
                }
                proof {
                    lemma_all_known(batch.spec_prepares().items(), database.assignments@.dom());
                }
                let checks = build_checks(&batch, &database.assignments);
                Ok((Session { stage: Stage::Unverified { batch } }, Action::CheckSignatures(checks)))
            },
            (
                Stage::Unverified { batch },
                Event::SignaturesChecked { individual_valid, reduction_valid },
            ) => {
                if individual_valid && reduction_valid {
                    let root = batch.root();
                    Ok((Session { stage: Stage::Unwitnessed { batch } }, Action::WitnessShard { root }))
                } else {
                    Err(ServePrepareError::InvalidBatch)
                }
            },
            (Stage::Unwitnessed { batch }, Event::Witness { certificate, signature_valid }) => {
                if certificate.verify_plurality(view, signature_valid).is_err() {
                    return Err(ServePrepareError::InvalidWitness);
                }
                let batch = batch.into_witnessed(identifier, certificate);
                Self::commit(identifier, batch, database)
            },
            _ => Err(ServePrepareError::UnexpectedRequest),
        }
    }

    /// Takes a witnessed batch into the database and asks for the commit
    /// shard to go out.
    fn commit(identifier: Digest, batch: WitnessedBatch, database: &mut Database) -> (outcome:
        Result<(Session, Action), ServePrepareError>)
        requires
            old(database).wf(),
            batch.wf(),
            strictly_monotone(batch.items()),
            batch.spec_view() == identifier,
        ensures
            final(database).wf(),
            final(database).signup == old(database).signup,
            final(database).commit == old(database).commit,
            final(database).assignments == old(database).assignments,
            Self::on_witnessed(
                identifier,
                batch.spec_prepares(),
                batch.spec_witness(),
                old(database).prepare@,
                final(database).prepare@,
                outcome,
            ),
            outcome matches Ok((next, _)) ==> next.wf(),
    {
        let root = batch.root();
        proof {
            WitnessedBatch::lemma_spec_new(identifier, batch.spec_prepares(), batch.spec_witness());
            batch.lemma_extensional(
                WitnessedBatch::spec_new(identifier, batch.spec_prepares(), batch.spec_witness()),
            );
        }
        match database.prepare.apply_batch(batch) {
            Ok(found) => Ok(
                (
                    Session { stage: Stage::Done },
                    Action::CommitShard(BatchCommit::new(identifier, root, found)),
                ),
            ),
            Err(_) => Err(ServePrepareError::InvalidBatch),
        }
    }
}

} // verus!
