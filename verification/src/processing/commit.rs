use crate::account::Entry;
use crate::account::Id;
use crate::commit::Commit;
use crate::commit::CommitProof;
use crate::commit::Payload;
use crate::commit::ProofEvidence;
use crate::database::commit::applicable;
use crate::database::commit::ascending;
use crate::database::commit::is_ascending;
use crate::database::commit::recorded;
use crate::database::CommitDatabase;
use crate::database::Database;
use crate::processing::prepare::Failure;
use crate::view::ViewStore;
use vstd::prelude::*;

verus! {

/// Why a commit session is aborted.
#[derive(Clone, Copy, Debug, PartialEq, Eq, Structural)]
pub enum ServeCommitError {
    ConnectionError,
    UnexpectedRequest,
    InvalidBatch,
    MalformedCommitProofs,
    InvalidCommitProof,
    MalformedDependencies,
    InvalidDependency,
    BatchInapplicable,
    DatabaseVoid,
}

/// A commit as it came in, with the slot of another account that it
/// refers to, if any, and with what the checks of its proof found.
pub struct CheckedCommit {
    pub commit: Commit,
    pub dependency: Option<Entry>,
    pub evidence: ProofEvidence,
}

/// A commit proof as it came in, with what its checks found.
pub struct CheckedProof {
    pub commit_proof: CommitProof,
    pub evidence: ProofEvidence,
}

/// The payload of a dependency as it came in, and whether it was found to
/// be what the dependency's commit proof commits to.
#[derive(Clone, Copy, Debug, PartialEq, Eq, Structural)]
pub struct CheckedPayload {
    pub payload: Payload,
    pub valid: bool,
}

/// What happens to a commit session.
pub enum CommitEvent {
    Ping,
    Commits(Vec<CheckedCommit>),
    CommitProofs(Vec<CheckedProof>),
    Dependencies(Vec<CheckedPayload>),
}

/// What the commit session asks of whoever runs it.
pub enum CommitAction {
    /// Answer the ping, and wait.
    Pong,
    /// Tell the broker which accounts' commit proofs are missing, and
    /// wait for them.
    MissingCommitProofs(Vec<Id>),
    /// Tell the broker which accounts' payloads are missing, and wait
    /// for them.
    MissingDependencies(Vec<Id>),
    /// Sign the completion of the operations at `applied` and send the
    /// shard; the session is over.
    CompletionShard { applied: Vec<Entry> },
}

/// How far a commit session has come.
pub enum CommitStage {
    Fresh,
    /// The commit proofs of the dependencies at `missing` are due.
    AwaitingProofs { payloads: Vec<Payload>, missing: Vec<Entry> },
    /// The payloads of the dependencies at `missing` are due.
    AwaitingDependencies { payloads: Vec<Payload>, missing: Vec<Entry> },
    Done,
}

/// The payloads of the commits, in order.
pub open spec fn payloads_of(commits: Seq<CheckedCommit>) -> Seq<Payload> {
    commits.map_values(|checked: CheckedCommit| checked.commit.spec_payload())
}

/// The entries of the payloads, in order.
pub open spec fn entries_of(payloads: Seq<Payload>) -> Seq<Entry> {
    payloads.map_values(|payload: Payload| payload.entry)
}

/// The accounts of the entries, in order.
pub open spec fn ids_of(entries: Seq<Entry>) -> Seq<Id> {
    entries.map_values(|entry: Entry| entry.id)
}

/// Every commit's proof is valid for the account of its payload.
pub open spec fn all_valid(commits: Seq<CheckedCommit>, discovery: ViewStore) -> bool {
    forall|i: int|
        0 <= i < commits.len() ==> (#[trigger] commits[i]).commit.spec_proof().verdict(
            discovery,
            commits[i].commit.spec_payload().entry.id,
            commits[i].evidence,
        ) is Ok
}

/// Only withdrawals and deposits refer to a slot of another account.
pub open spec fn dependencies_allowed(commits: Seq<CheckedCommit>) -> bool {
    forall|i: int|
        0 <= i < commits.len() && (#[trigger] commits[i]).dependency is Some
            ==> commits[i].commit.spec_payload().operation.spec_may_depend()
}

/// The slots that the commits refer to and that are not on record, in the
/// order of the commits.
pub open spec fn missing(commits: Seq<CheckedCommit>, known: Set<Entry>) -> Seq<Entry>
    decreases commits.len(),
{
    if commits.len() == 0 {
        Seq::empty()
    } else {
        let earlier = missing(commits.drop_last(), known);
        match commits.last().dependency {
            Some(dependency) => if known.contains(dependency) {
                earlier
            } else {
                earlier.push(dependency)
            },
            None => earlier,
        }
    }
}

/// Every proof is valid for the account that it was asked for.
pub open spec fn proofs_answer(wanted: Seq<Entry>, proofs: Seq<CheckedProof>, discovery: ViewStore) -> bool {
    forall|i: int|
        0 <= i < proofs.len() ==> (#[trigger] proofs[i]).commit_proof.verdict(
            discovery,
            wanted[i].id,
            proofs[i].evidence,
        ) is Ok
}

/// Every payload fills the slot that it was asked for.
pub open spec fn payloads_answer(wanted: Seq<Entry>, payloads: Seq<CheckedPayload>) -> bool {
    forall|i: int| 0 <= i < payloads.len() ==> (#[trigger] payloads[i]).payload.entry == wanted[i]
}

/// Every payload was found valid.
pub open spec fn payloads_valid(payloads: Seq<CheckedPayload>) -> bool {
    forall|i: int| 0 <= i < payloads.len() ==> (#[trigger] payloads[i]).valid
}

impl CommitEvent {
    pub open spec fn wf(&self) -> bool {
        match *self {
            CommitEvent::Commits(commits) => forall|i: int|
                0 <= i < commits@.len() ==> (#[trigger] commits@[i]).commit.wf(),
            CommitEvent::CommitProofs(proofs) => forall|i: int|
                0 <= i < proofs@.len() ==> (#[trigger] proofs@[i]).commit_proof.wf(),
            _ => true,
        }
    }
}

/// One session of a broker with the replica's commit server.
pub struct CommitSession {
    stage: CommitStage,
}

type Outcome = Result<(CommitSession, CommitAction), ServeCommitError>;

impl CommitSession {
    pub closed spec fn stage(&self) -> CommitStage {
        self.stage
    }

    pub fn new() -> (session: CommitSession)
        ensures
            session.stage() is Fresh,
    {
        CommitSession { stage: CommitStage::Fresh }
    }

    /// Whether the completion shard is out.
    pub fn is_done(&self) -> (done: bool)
        ensures
            done == (self.stage() is Done),
    {
        match &self.stage {
            CommitStage::Done => true,
            _ => false,
        }
    }

    /// Ends the session on a failure around it, and tells why it ended.
    pub fn abort(self, failure: Failure) -> (error: ServeCommitError)
        ensures
            error == match failure {
                Failure::Disconnected => ServeCommitError::ConnectionError,
                Failure::DatabaseVoid => ServeCommitError::DatabaseVoid,
            },
    {
        match failure {
            Failure::Disconnected => ServeCommitError::ConnectionError,
            Failure::DatabaseVoid => ServeCommitError::DatabaseVoid,
        }
    }

    /// The operations are applied, in the order in which they came, unless
    /// one of them contradicts what is on record for its slot.
    pub open spec fn on_complete(
        payloads: Seq<Payload>,
        before: Map<Entry, Payload>,
        after: Map<Entry, Payload>,
        outcome: Outcome,
    ) -> bool {
        if applicable(before, payloads) {
            &&& after == recorded(before, payloads)
            &&& outcome matches Ok((next, CommitAction::CompletionShard { applied }))
            &&& next.stage() is Done
            &&& applied@ == entries_of(payloads)
        } else {
            &&& after == before
            &&& outcome == Err::<(CommitSession, CommitAction), ServeCommitError>(
                ServeCommitError::BatchInapplicable,
            )
        }
    }

    /// The commits come in: they are turned away unless their entries go
    /// strictly up, every proof is valid, and only withdrawals and
    /// deposits refer to another slot; where slots referred to are not on
    /// record, their commit proofs are asked for; else the operations are
    /// applied.
    pub open spec fn on_commits(
        commits: Seq<CheckedCommit>,
        discovery: ViewStore,
        before: Map<Entry, Payload>,
        after: Map<Entry, Payload>,
        outcome: Outcome,
    ) -> bool {
        let payloads = payloads_of(commits);
        if !ascending(payloads) {
            &&& after == before
            &&& outcome == Err::<(CommitSession, CommitAction), ServeCommitError>(
                ServeCommitError::InvalidBatch,
            )
        } else if !all_valid(commits, discovery) {
            &&& after == before
            &&& outcome == Err::<(CommitSession, CommitAction), ServeCommitError>(
                ServeCommitError::InvalidCommitProof,
            )
        } else if !dependencies_allowed(commits) {
            &&& after == before
            &&& outcome == Err::<(CommitSession, CommitAction), ServeCommitError>(
                ServeCommitError::InvalidDependency,
            )
        } else if missing(commits, before.dom()).len() > 0 {
            &&& after == before
            &&& outcome matches Ok((next, CommitAction::MissingCommitProofs(asked)))
            &&& asked@ == ids_of(missing(commits, before.dom()))
            &&& next.stage() matches CommitStage::AwaitingProofs { payloads: kept, missing: wanted }
            &&& kept@ == payloads
            &&& wanted@ == missing(commits, before.dom())
        } else {
            Self::on_complete(payloads, before, after, outcome)
        }
    }

    /// The commit proofs of the dependencies come in: they are turned away
    /// unless there is one for each dependency and each is valid; then the
    /// payloads of the dependencies are asked for.
    pub open spec fn on_proofs(
        payloads: Vec<Payload>,
        wanted: Vec<Entry>,
        proofs: Seq<CheckedProof>,
        discovery: ViewStore,
        outcome: Outcome,
    ) -> bool {
        if proofs.len() != wanted@.len() {
            outcome == Err::<(CommitSession, CommitAction), ServeCommitError>(
                ServeCommitError::MalformedCommitProofs,
            )
        } else if !proofs_answer(wanted@, proofs, discovery) {
            outcome == Err::<(CommitSession, CommitAction), ServeCommitError>(
                ServeCommitError::InvalidCommitProof,
            )
        } else {
            &&& outcome matches Ok((next, CommitAction::MissingDependencies(asked)))
            &&& asked@ == ids_of(wanted@)
            &&& next.stage() == (CommitStage::AwaitingDependencies { payloads, missing: wanted })
        }
    }

    /// The payloads of the dependencies come in: they are turned away
    /// unless there is one for each dependency, each fills the slot asked
    /// for, and each is valid; then the operations are applied.
    pub open spec fn on_dependencies(
        payloads: Seq<Payload>,
        wanted: Seq<Entry>,
        supplied: Seq<CheckedPayload>,
        before: Map<Entry, Payload>,
        after: Map<Entry, Payload>,
        outcome: Outcome,
    ) -> bool {
        if supplied.len() != wanted.len() || !payloads_answer(wanted, supplied) {
            &&& after == before
            &&& outcome == Err::<(CommitSession, CommitAction), ServeCommitError>(
                ServeCommitError::MalformedDependencies,
            )
        } else if !payloads_valid(supplied) {
            &&& after == before
            &&& outcome == Err::<(CommitSession, CommitAction), ServeCommitError>(
                ServeCommitError::InvalidDependency,
            )
        } else {
            Self::on_complete(payloads, before, after, outcome)
        }
    }

    /// What one step of a session comes to, for each stage and event.
    pub open spec fn transition(
        stage: CommitStage,
        event: CommitEvent,
        discovery: ViewStore,
        before: Map<Entry, Payload>,
        after: Map<Entry, Payload>,
        outcome: Outcome,
    ) -> bool {
        match (stage, event) {
            (_, CommitEvent::Ping) => {
                &&& after == before
                &&& outcome matches Ok((next, CommitAction::Pong))
                &&& next.stage() == stage
            },
            (CommitStage::Fresh, CommitEvent::Commits(commits)) => Self::on_commits(
                commits@,
                discovery,
                before,
                after,
                outcome,
            ),
            (
                CommitStage::AwaitingProofs { payloads, missing: wanted },
                CommitEvent::CommitProofs(proofs),
            ) => after == before && Self::on_proofs(payloads, wanted, proofs@, discovery, outcome),
            (
                CommitStage::AwaitingDependencies { payloads, missing: wanted },
                CommitEvent::Dependencies(supplied),
            ) => Self::on_dependencies(payloads@, wanted@, supplied@, before, after, outcome),
            _ => after == before && outcome == Err::<
                (CommitSession, CommitAction),
                ServeCommitError,
            >(ServeCommitError::UnexpectedRequest),
        }
    }

    /// Takes the session one step further: tells what to do next, or why
    /// the session is aborted.
    pub fn step(self, event: CommitEvent, discovery: &ViewStore, database: &mut Database) -> (outcome:
        Outcome)
        requires
            event.wf(),
            discovery.wf(),
            old(database).wf(),
        ensures
            final(database).wf(),
            final(database).assignments == old(database).assignments,
            final(database).prepare == old(database).prepare,
            final(database).signup == old(database).signup,
            Self::transition(
                self.stage(),
                event,
                *discovery,
                old(database).commit@,
                final(database).commit@,
                outcome,
            ),
    {
        match (self.stage, event) {
            (stage, CommitEvent::Ping) => Ok((CommitSession { stage }, CommitAction::Pong)),
            (CommitStage::Fresh, CommitEvent::Commits(commits)) => {
                let payloads = collect_payloads(&commits);
                if !is_ascending(&payloads) {
                    return Err(ServeCommitError::InvalidBatch);
                }
                if !check_commits(&commits, discovery) {
                    return Err(ServeCommitError::InvalidCommitProof);
                }
                if !check_dependencies(&commits) {
                    return Err(ServeCommitError::InvalidDependency);
                }
                let wanted = find_missing(&commits, &database.commit);
                if wanted.len() > 0 {
                    let asked = collect_ids(&wanted);
                    Ok(
                        (
                            CommitSession {
                                stage: CommitStage::AwaitingProofs { payloads, missing: wanted },
                            },
                            CommitAction::MissingCommitProofs(asked),
                        ),
                    )
                } else {
                    complete(payloads, &mut database.commit)
                }
            },
            (
                CommitStage::AwaitingProofs { payloads, missing: wanted },
                CommitEvent::CommitProofs(proofs),
            ) => {
                if proofs.len() != wanted.len() {
                    return Err(ServeCommitError::MalformedCommitProofs);
                }
                if !check_proofs(&wanted, &proofs, discovery) {
                    return Err(ServeCommitError::InvalidCommitProof);
                }
                let asked = collect_ids(&wanted);
                Ok(
                    (
                        CommitSession {
                            stage: CommitStage::AwaitingDependencies { payloads, missing: wanted },
                        },
                        CommitAction::MissingDependencies(asked),
                    ),
                )
            },
            (
                CommitStage::AwaitingDependencies { payloads, missing: wanted },
                CommitEvent::Dependencies(supplied),
            ) => {
                if supplied.len() != wanted.len() || !check_slots(&wanted, &supplied) {
                    return Err(ServeCommitError::MalformedDependencies);
                }
                if !check_payloads(&supplied) {
                    return Err(ServeCommitError::InvalidDependency);
                }
                complete(payloads, &mut database.commit)
            },
            _ => Err(ServeCommitError::UnexpectedRequest),
        }
    }
}

fn complete(payloads: Vec<Payload>, database: &mut CommitDatabase) -> (outcome: Outcome)
    requires
        old(database).wf(),
    ensures
        final(database).wf(),
        CommitSession::on_complete(payloads@, old(database)@, final(database)@, outcome),
{
    if !database.accepts(&payloads) {
        return Err(ServeCommitError::BatchInapplicable);
    }
    database.record(&payloads);
    let mut applied: Vec<Entry> = Vec::new();
    let mut index: usize = 0;
    while index < payloads.len()
        invariant
            index <= payloads@.len(),
            applied@ == entries_of(payloads@.take(index as int)),
        decreases payloads@.len() - index,
    {
        applied.push(payloads[index].entry);
        assert(entries_of(payloads@.take(index + 1)) =~= entries_of(
            payloads@.take(index as int),
        ).push(payloads@[index as int].entry));
        index += 1;
    }
    assert(payloads@.take(index as int) == payloads@);
    Ok((CommitSession { stage: CommitStage::Done }, CommitAction::CompletionShard { applied }))
}

fn collect_payloads(commits: &Vec<CheckedCommit>) -> (payloads: Vec<Payload>)
    ensures
        payloads@ == payloads_of(commits@),
{
    let mut payloads: Vec<Payload> = Vec::new();
    let mut index: usize = 0;
    while index < commits.len()
        invariant
            index <= commits@.len(),
            payloads@ == payloads_of(commits@.take(index as int)),
        decreases commits@.len() - index,
    {
        payloads.push(commits[index].commit.payload());
        assert(payloads_of(commits@.take(index + 1)) =~= payloads_of(
            commits@.take(index as int),
        ).push(commits@[index as int].commit.spec_payload()));
        index += 1;
    }
    assert(commits@.take(index as int) == commits@);
    payloads
}

fn collect_ids(entries: &Vec<Entry>) -> (ids: Vec<Id>)
    ensures
        ids@ == ids_of(entries@),
{
    let mut ids: Vec<Id> = Vec::new();
    let mut index: usize = 0;
    while index < entries.len()
        invariant
            index <= entries@.len(),
            ids@ == ids_of(entries@.take(index as int)),
        decreases entries@.len() - index,
    {
        ids.push(entries[index].id);
        assert(ids_of(entries@.take(index + 1)) =~= ids_of(entries@.take(index as int)).push(
            entries@[index as int].id,
        ));
        index += 1;
    }
    assert(entries@.take(index as int) == entries@);
    ids
}

fn check_commits(commits: &Vec<CheckedCommit>, discovery: &ViewStore) -> (fine: bool)
    requires
        discovery.wf(),
        forall|i: int| 0 <= i < commits@.len() ==> (#[trigger] commits@[i]).commit.wf(),
    ensures
        fine == all_valid(commits@, *discovery),
{
    let mut index: usize = 0;
    while index < commits.len()
        invariant
            discovery.wf(),
            forall|i: int| 0 <= i < commits@.len() ==> (#[trigger] commits@[i]).commit.wf(),
            index <= commits@.len(),
            forall|i: int|
                0 <= i < index ==> (#[trigger] commits@[i]).commit.spec_proof().verdict(
                    *discovery,
                    commits@[i].commit.spec_payload().entry.id,
                    commits@[i].evidence,
                ) is Ok,
        decreases commits@.len() - index,
    {
        if commits[index].commit.validate(discovery, commits[index].evidence).is_err() {
            return false;
        }
        index += 1;
    }
    true
}

fn check_dependencies(commits: &Vec<CheckedCommit>) -> (fine: bool)
    ensures
        fine == dependencies_allowed(commits@),
{
    let mut index: usize = 0;
    while index < commits.len()
        invariant
            index <= commits@.len(),
            forall|i: int|
                0 <= i < index && (#[trigger] commits@[i]).dependency is Some
                    ==> commits@[i].commit.spec_payload().operation.spec_may_depend(),
        decreases commits@.len() - index,
    {
        if commits[index].dependency.is_some() && !commits[index].commit.payload().operation.may_depend() {
            return false;
        }
        index += 1;
    }
    true
}

fn find_missing(commits: &Vec<CheckedCommit>, database: &CommitDatabase) -> (wanted: Vec<Entry>)
    requires
        database.wf(),
    ensures
        wanted@ == missing(commits@, database@.dom()),
{
    let mut wanted: Vec<Entry> = Vec::new();
    let mut index: usize = 0;
    while index < commits.len()
        invariant
            database.wf(),
            index <= commits@.len(),
            wanted@ == missing(commits@.take(index as int), database@.dom()),
        decreases commits@.len() - index,
    {
        proof {
            let grown = commits@.take(index + 1);
            assert(grown.drop_last() == commits@.take(index as int));
            assert(grown.last() == commits@[index as int]);
        }
        match commits[index].dependency {
            Some(dependency) => {
                if !database.contains(&dependency) {
                    wanted.push(dependency);
                }
            },
            None => {},
        }
        index += 1;
    }
    assert(commits@.take(index as int) == commits@);
    wanted
}

fn check_proofs(wanted: &Vec<Entry>, proofs: &Vec<CheckedProof>, discovery: &ViewStore) -> (fine:
    bool)
    requires
        discovery.wf(),
        wanted@.len() == proofs@.len(),
        forall|i: int| 0 <= i < proofs@.len() ==> (#[trigger] proofs@[i]).commit_proof.wf(),
    ensures
        fine == proofs_answer(wanted@, proofs@, *discovery),
{
    let mut index: usize = 0;
    while index < proofs.len()
        invariant
            discovery.wf(),
            wanted@.len() == proofs@.len(),
            forall|i: int| 0 <= i < proofs@.len() ==> (#[trigger] proofs@[i]).commit_proof.wf(),
            index <= proofs@.len(),
            forall|i: int|
                0 <= i < index ==> (#[trigger] proofs@[i]).commit_proof.verdict(
                    *discovery,
                    wanted@[i].id,
                    proofs@[i].evidence,
                ) is Ok,
        decreases proofs@.len() - index,
    {
        if proofs[index].commit_proof.validate(
            discovery,
            wanted[index].id,
            proofs[index].evidence,
        ).is_err() {
            return false;
        }
        index += 1;
    }
    true
}

fn check_slots(wanted: &Vec<Entry>, supplied: &Vec<CheckedPayload>) -> (fine: bool)
    requires
        wanted@.len() == supplied@.len(),
    ensures
        fine == payloads_answer(wanted@, supplied@),
{
    let mut index: usize = 0;
    while index < supplied.len()
        invariant
            wanted@.len() == supplied@.len(),
            index <= supplied@.len(),
            forall|i: int| 0 <= i < index ==> (#[trigger] supplied@[i]).payload.entry == wanted@[i],
        decreases supplied@.len() - index,
    {
        if supplied[index].payload.entry != wanted[index] {
            return false;
        }
        index += 1;
    }
    true
}

fn check_payloads(supplied: &Vec<CheckedPayload>) -> (fine: bool)
    ensures
        fine == payloads_valid(supplied@),
{
    let mut index: usize = 0;
    while index < supplied.len()
        invariant
            index <= supplied@.len(),
            forall|i: int| 0 <= i < index ==> (#[trigger] supplied@[i]).valid,
        decreases supplied@.len() - index,
    {
        if !supplied[index].valid {
            return false;
        }
        index += 1;
    }
    true
}

} // verus!
