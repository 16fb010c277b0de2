use crate::crypto::Digest;
use crate::lattice::message::effects_of;
use crate::lattice::model;
use crate::lattice::Effect;
use crate::lattice::Element;
use crate::lattice::LatticeRunner;
use crate::view::Committee;
use vstd::prelude::*;

verus! {

/// Why a proposal is not taken.
#[derive(Clone, Copy, Debug, PartialEq, Eq, Structural)]
pub enum LatticeAgreementError {
    /// The runner had disclosed another element before.
    ProposalSuperseded,
}

/// One instance of lattice agreement, as its user sees it: the user
/// proposes once, and the runner does the rest.
pub struct LatticeAgreement {
    instance: Digest,
    runner: LatticeRunner,
    proposed: bool,
}

impl LatticeAgreement {
    pub closed spec fn spec_instance(&self) -> Digest {
        self.instance
    }

    pub closed spec fn spec_runner(&self) -> LatticeRunner {
        self.runner
    }

    /// Whether the user has proposed.
    pub closed spec fn proposed(&self) -> bool {
        self.proposed
    }

    pub open spec fn wf(&self) -> bool {
        self.spec_runner().wf()
    }

    pub fn new(view: Committee, view_identifier: Digest, instance: Digest) -> (agreement:
        LatticeAgreement)
        requires
            view.wf(),
        ensures
            agreement.wf(),
            agreement.spec_instance() == instance,
            !agreement.proposed(),
            agreement.spec_runner().snapshot() == model::initial(),
            agreement.spec_runner().context().view == view_identifier,
            agreement.spec_runner().context().instance == instance,
            agreement.spec_runner().context().members == view.members(),
    {
        LatticeAgreement {
            instance,
            runner: LatticeRunner::new(view, view_identifier, instance),
            proposed: false,
        }
    }

    pub fn instance(&self) -> (instance: Digest)
        ensures
            instance == self.spec_instance(),
    {
        self.instance
    }

    pub fn has_proposed(&self) -> (proposed: bool)
        ensures
            proposed == self.proposed(),
    {
        self.proposed
    }

    /// The runner, to feed it the messages of the other replicas.
    pub fn runner(&mut self) -> (runner: &mut LatticeRunner)
        ensures
            *runner == old(self).spec_runner(),
            final(self).spec_runner() == *final(runner),
            final(self).spec_instance() == old(self).spec_instance(),
            final(self).proposed() == old(self).proposed(),
    {
        &mut self.runner
    }

    /// Proposes `element`. This is done once at most; the proposal is
    /// superseded if the runner had disclosed an element already.
    pub fn propose(&mut self, element: Element) -> (outcome: Result<
        Vec<Effect>,
        LatticeAgreementError,
    >)
        requires
            old(self).wf(),
            !old(self).proposed(),
        ensures
            final(self).wf(),
            final(self).proposed(),
            final(self).spec_instance() == old(self).spec_instance(),
            final(self).spec_runner().context() == old(self).spec_runner().context(),
            final(self).spec_runner().snapshot() == model::on_proposal(
                old(self).spec_runner().context(),
                old(self).spec_runner().snapshot(),
                element,
            ).state,
            match outcome {
                Ok(effects) => !old(self).spec_runner().snapshot().disclosed && effects_of(
                    effects@,
                ) == model::on_proposal(
                    old(self).spec_runner().context(),
                    old(self).spec_runner().snapshot(),
                    element,
                ).effects,
                Err(LatticeAgreementError::ProposalSuperseded) => old(
                    self,
                ).spec_runner().snapshot().disclosed,
            },
    {
        self.proposed = true;
        let (taken, effects) = self.runner.handle_proposal(element);
        if taken {
            Ok(effects)
        } else {
            Err(LatticeAgreementError::ProposalSuperseded)
        }
    }
}

} // verus!
