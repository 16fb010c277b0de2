use crate::account::Id;
use crate::crypto::Digest;
use crate::data::Table;
use crate::database::ledger::absorb;
use crate::database::ledger::exception;
use crate::database::ledger::exceptions;
use crate::database::ledger::extends;
use crate::database::ledger::lemma_observe_all_batches;
use crate::database::ledger::lemma_observe_all_frame;
use crate::database::ledger::lemma_observe_wf;
use crate::database::ledger::observe;
use crate::database::ledger::observe_all;
use crate::database::ledger::state_wf;
use crate::database::ledger::states_wf;
use crate::database::Ledger;
use crate::database::PrepareHandle;
use crate::database::State;
use crate::prepare::batch::strictly_monotone;
use crate::prepare::Equivocation;
use crate::prepare::Prepare;
use crate::prepare::WitnessedBatch;
use std::collections::HashMap;
use std::collections::HashSet;
use vstd::prelude::*;

verus! {

broadcast use vstd::std_specs::hash::group_hash_axioms;

/// Why a batch is not taken in.
#[derive(Clone, Copy, Debug, PartialEq, Eq, Structural)]
pub enum ApplyError {
    /// The account ids do not strictly increase along the batch.
    MalformedBatch,
    /// The root of the batch is on file for other prepares.
    RootConflict,
}

/// What a replica knows of the prepares of every account.
pub struct PrepareDatabase {
    states: HashMap<Id, State>,
    stale: HashSet<Id>,
    batches: Table<Digest, WitnessedBatch>,
}

impl View for PrepareDatabase {
    type V = Ledger;

    closed spec fn view(&self) -> Ledger {
        Ledger { states: self.states@, stale: self.stale@, batches: self.batches@ }
    }
}

fn same_prepares(first: &Vec<Prepare>, second: &Vec<Prepare>) -> (same: bool)
    ensures
        same == (first@ == second@),
{
    if first.len() != second.len() {
        return false;
    }
    let mut index: usize = 0;
    while index < first.len()
        invariant
            first@.len() == second@.len(),
            index <= first@.len(),
            forall|i: int| 0 <= i < index ==> first@[i] == second@[i],
        decreases first@.len() - index,
    {
        if first[index] != second[index] {
            return false;
        }
        index += 1;
    }
    assert(first@ =~= second@);
    true
}

impl PrepareDatabase {
    pub closed spec fn wf(&self) -> bool {
        &&& self.batches.wf()
        &&& self@.wf()
    }

    /// A well-formed database has a well-formed ledger.
    pub proof fn lemma_wf(&self)
        requires
            self.wf(),
        ensures
            self@.wf(),
    {
    }

    pub fn new() -> (database: PrepareDatabase)
        ensures
            database.wf(),
            database@.states == Map::<Id, State>::empty(),
            database@.stale == Set::<Id>::empty(),
            database@.batches == Map::<Digest, WitnessedBatch>::empty(),
    {
        PrepareDatabase { states: HashMap::new(), stale: HashSet::new(), batches: Table::new() }
    }

    /// What is known of account `id`, if anything.
    pub fn state(&self, id: Id) -> (state: Option<&State>)
        requires
            self.wf(),
        ensures
            match state {
                Some(state) => self@.states.dom().contains(id) && *state == self@.states[id],
                None => !self@.states.dom().contains(id),
            },
    {
        self.states.get(&id)
    }

    /// Whether account `id` is pending inclusion in the next outbound
    /// commit shard.
    pub fn is_stale(&self, id: Id) -> (stale: bool)
        requires
            self.wf(),
        ensures
            stale == self@.stale.contains(id),
    {
        self.stale.contains(&id)
    }

    /// The batch on file under `root`, if any.
    pub fn batch(&self, root: &Digest) -> (batch: Option<&WitnessedBatch>)
        requires
            self.wf(),
        ensures
            match batch {
                Some(batch) => self@.batches.dom().contains(*root) && *batch
                    == self@.batches[*root],
                None => !self@.batches.dom().contains(*root),
            },
    {
        self.batches.get(root)
    }

    /// Takes in a witnessed batch: observes each of its prepares in order,
    /// files the batch under its root, and hands back the equivocations
    /// that the prepares bring to light.
    ///
    /// Nothing changes when the batch is turned away.
    pub fn apply_batch(&mut self, batch: WitnessedBatch) -> (outcome: Result<
        Vec<Equivocation>,
        ApplyError,
    >)
        requires
            old(self).wf(),
            batch.wf(),
        ensures
            final(self).wf(),
            match outcome {
                Err(ApplyError::MalformedBatch) => {
                    &&& !strictly_monotone(batch.items())
                    &&& final(self)@ == old(self)@
                },
                Err(ApplyError::RootConflict) => {
                    &&& strictly_monotone(batch.items())
                    &&& !old(self)@.admits(batch)
                    &&& final(self)@ == old(self)@
                },
                Ok(found) => {
                    &&& strictly_monotone(batch.items())
                    &&& old(self)@.admits(batch)
                    &&& final(self)@ == absorb(old(self)@, batch)
                    &&& found@ == exceptions(old(self)@, batch, batch.items().len())
                },
            },
    {
        if !batch.vector().is_strictly_monotone() {
            return Err(ApplyError::MalformedBatch);
        }
        let root = batch.root();
        let known = match self.batches.get(&root) {
            Some(filed) => {
                if !same_prepares(filed.prepares(), batch.prepares()) {
                    return Err(ApplyError::RootConflict);
                }
                true
            },
            None => false,
        };

        let ghost before = self@;
        let ghost future = if before.batches.dom().contains(root) {
            before.batches
        } else {
            before.batches.insert(root, batch)
        };
        let mut found: Vec<Equivocation> = Vec::new();
        let mut index: usize = 0;
        proof {
            assert(states_wf(before.states, future)) by {
                assert forall|id: Id| #[trigger] before.states.dom().contains(id) implies state_wf(
                    future,
                    id,
                    before.states[id],
                ) by {
                    assert(state_wf(before.batches, id, before.states[id]));
                }
            }
        }
        while index < batch.len()
            invariant
                batch.wf(),
                strictly_monotone(batch.items()),
                before.wf(),
                root == batch.spec_root(),
                self.batches.wf(),
                self.batches@ == before.batches,
                index <= batch.items().len(),
                self@ == observe_all(before, batch, index as nat),
                found@ == exceptions(before, batch, index as nat),
                extends(future, before.batches),
                future.dom().contains(root),
                future[root].items() == batch.items(),
                states_wf(self@.states, future),
            decreases batch.items().len() - index,
        {
            let prepare = batch.vector().get(index);
            let id = prepare.id();
            let ghost ledger = self@;
            proof {
                lemma_observe_all_frame(before, batch, index as nat, id);
                if ledger.states.dom().contains(id) {
                    assert(before.states.dom().contains(id));
                    assert(state_wf(before.batches, id, before.states[id]));
                }
                lemma_observe_wf(ledger, batch, index as int, future);
            }
            let mut next: Option<State> = None;
            let mut staled = false;
            let mut exception: Option<Equivocation> = None;
            match self.states.get(&id) {
                Some(State::Consistent {
                    height: state_height,
                    commitment: state_commitment,
                    prepare: state_prepare,
                    stale: state_stale,
                }) => {
                    if prepare.height() == *state_height {
                        if prepare.commitment() != *state_commitment {
                            let state_extract = match state_prepare {
                                PrepareHandle::Batched { batch: state_batch, index: state_index } => {
                                    let filed = self.batches.get(state_batch);
                                    filed.unwrap().extract(*state_index)
                                },
                                PrepareHandle::Standalone(extract) => extract.clone(),
                            };
                            let equivocation = Equivocation::new(state_extract, batch.extract(index));
                            exception = Some(equivocation.clone());
                            next = Some(State::Equivocated(equivocation));
                            staled = !*state_stale;
                        }
                    } else {
                        next = Some(
                            State::Consistent {
                                height: prepare.height(),
                                commitment: prepare.commitment(),
                                prepare: PrepareHandle::Batched { batch: root, index },
                                stale: true,
                            },
                        );
                        staled = true;
                    }
                },
                Some(State::Equivocated(equivocation)) => {
                    exception = Some(equivocation.clone());
                },
                None => {
                    next = Some(
                        State::Consistent {
                            height: prepare.height(),
                            commitment: prepare.commitment(),
                            prepare: PrepareHandle::Batched { batch: root, index },
                            stale: true,
                        },
                    );
                    staled = true;
                },
            }
            proof {
                assert(exception == crate::database::ledger::exception(ledger, batch, index as int));
            }
            if let Some(state) = next {
                self.states.insert(id, state);
            }
            if staled {
                self.stale.insert(id);
            }
            if let Some(equivocation) = exception {
                found.push(equivocation);
            }
            proof {
                let after = observe(ledger, batch, index as int);
                assert(self@.states =~= after.states);
                assert(self@.stale =~= after.stale);
                assert(self@ == after);
            }
            index += 1;
        }
        let ghost observed = self@;
        if !known {
            self.batches.insert(root, batch);
        }
        proof {
            lemma_observe_all_batches(before, batch, index as nat);
            assert(self@.batches =~= future);
            assert(self@ == absorb(before, batch));
            assert forall|key: Digest| #[trigger] self@.batches.dom().contains(key) implies self@.batches[key].wf() by {
                if key != root || known {
                    assert(before.batches.dom().contains(key));
                }
            }
        }
        Ok(found)
    }
}

} // verus!
