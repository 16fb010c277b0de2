use crate::crypto::Digest;
use crate::database::Database;
use crate::processing::commit::CommitAction;
use crate::processing::commit::CommitEvent;
use crate::processing::commit::CommitSession;
use crate::processing::commit::ServeCommitError;
use crate::processing::prepare::Action;
use crate::processing::prepare::Event;
use crate::processing::prepare::ServePrepareError;
use crate::processing::prepare::Session;
use crate::processing::signup::id_claims;
use crate::processing::signup::CheckedClaim;
use crate::processing::signup::ClaimOutcome;
use crate::processing::signup::ServeSignupError;
use crate::view::Committee;
use crate::view::ViewStore;
use vstd::prelude::*;

verus! {

/// The part of a replica that serves brokers in one view. It owns the
/// database until it is shut down.
pub struct Processor {
    view: Committee,
    identifier: Digest,
    database: Database,
}

impl Processor {
    pub closed spec fn spec_view(&self) -> Committee {
        self.view
    }

    pub closed spec fn spec_identifier(&self) -> Digest {
        self.identifier
    }

    pub closed spec fn spec_database(&self) -> Database {
        self.database
    }

    pub open spec fn wf(&self) -> bool {
        self.spec_view().wf() && self.spec_database().wf()
    }

    /// A processor for the view that `identifier` names, on `database`.
    pub fn new(view: Committee, identifier: Digest, database: Database) -> (processor: Processor)
        ensures
            processor.spec_view() == view,
            processor.spec_identifier() == identifier,
            processor.spec_database() == database,
    {
        Processor { view, identifier, database }
    }

    /// Ends the processor and hands the database back.
    pub fn shutdown(self) -> (database: Database)
        ensures
            database == self.spec_database(),
    {
        self.database
    }

    pub fn database(&self) -> (database: &Database)
        ensures
            *database == self.spec_database(),
    {
        &self.database
    }

    /// Takes a prepare session one step further on this processor's
    /// database.
    pub fn serve_prepare(&mut self, session: Session, event: Event, discovery: &ViewStore) -> (outcome:
        Result<(Session, Action), ServePrepareError>)
        requires
            old(self).wf(),
            session.wf(),
            event.wf(),
            discovery.wf(),
        ensures
            final(self).wf(),
            final(self).spec_view() == old(self).spec_view(),
            final(self).spec_identifier() == old(self).spec_identifier(),
            final(self).spec_database().signup == old(self).spec_database().signup,
            final(self).spec_database().commit == old(self).spec_database().commit,
            Session::transition(
                session.stage(),
                event,
                old(self).spec_view(),
                old(self).spec_identifier(),
                *discovery,
                old(self).spec_database(),
                final(self).spec_database(),
                outcome,
            ),
            outcome matches Ok((next, _)) ==> next.wf(),
    {
        session.step(event, &self.view, self.identifier, discovery, &mut self.database)
    }

    /// Takes a commit session one step further on this processor's
    /// database.
    pub fn serve_commit(&mut self, session: CommitSession, event: CommitEvent, discovery: &ViewStore) -> (outcome:
        Result<(CommitSession, CommitAction), ServeCommitError>)
        requires
            old(self).wf(),
            event.wf(),
            discovery.wf(),
        ensures
            final(self).wf(),
            final(self).spec_view() == old(self).spec_view(),
            final(self).spec_identifier() == old(self).spec_identifier(),
            final(self).spec_database().assignments == old(self).spec_database().assignments,
            final(self).spec_database().prepare == old(self).spec_database().prepare,
            final(self).spec_database().signup == old(self).spec_database().signup,
            CommitSession::transition(
                session.stage(),
                event,
                *discovery,
                old(self).spec_database().commit@,
                final(self).spec_database().commit@,
                outcome,
            ),
    {
        session.step(event, discovery, &mut self.database)
    }

    /// Serves a batch of claims on this processor's database; see
    /// `id_claims`.
    pub fn serve_claims(&mut self, served: &Vec<CheckedClaim>, discovery: &ViewStore) -> (outcome:
        Result<Vec<ClaimOutcome>, ServeSignupError>)
        requires
            old(self).wf(),
            discovery.wf(),
        ensures
            final(self).wf(),
            final(self).spec_view() == old(self).spec_view(),
            final(self).spec_identifier() == old(self).spec_identifier(),
            final(self).spec_database().assignments == old(self).spec_database().assignments,
            final(self).spec_database().prepare == old(self).spec_database().prepare,
            final(self).spec_database().commit == old(self).spec_database().commit,
            crate::processing::signup::served_outcome(
                old(self).spec_identifier(),
                *discovery,
                old(self).spec_database().signup.claims@,
                old(self).spec_database().signup.claimed@,
                served@,
                final(self).spec_database().signup.claims@,
                final(self).spec_database().signup.claimed@,
                outcome,
            ),
    {
        id_claims(self.identifier, discovery, &mut self.database.signup, served)
    }
}

} // verus!
