//! The mathematical model of the prepare database: the state of each
//! account, and what observing a witnessed batch does to it.

use crate::account::Id;
use crate::crypto::Digest;
use crate::prepare::batch::strictly_monotone;
use crate::prepare::Equivocation;
use crate::prepare::Extract;
use crate::prepare::Prepare;
use crate::prepare::WitnessedBatch;
use vstd::prelude::*;

verus! {

/// Where the prepare that an account last made can be found.
pub enum PrepareHandle {
    /// At position `index` of the batch under root `batch`.
    Batched { batch: Digest, index: usize },
    /// In an extract that stands on its own.
    Standalone(Extract),
}

/// What a replica knows of one account's prepares.
pub enum State {
    /// One prepare at `height`. `stale` tells whether the account is
    /// pending inclusion in the next outbound commit shard.
    Consistent { height: u64, commitment: Digest, prepare: PrepareHandle, stale: bool },
    /// Two prepares that contradict each other.
    Equivocated(Equivocation),
}

/// The prepare database as mathematics.
pub struct Ledger {
    pub states: Map<Id, State>,
    pub stale: Set<Id>,
    pub batches: Map<Digest, WitnessedBatch>,
}

/// `prepare` is the prepare of `id` at `height` with `commitment`.
pub open spec fn records(prepare: Prepare, id: Id, height: u64, commitment: Digest) -> bool {
    &&& prepare.spec_id() == id
    &&& prepare.spec_height() == height
    &&& prepare.spec_commitment() == commitment
}

/// The state of `id` can be turned into proof when it is contradicted.
pub open spec fn state_wf(batches: Map<Digest, WitnessedBatch>, id: Id, state: State) -> bool {
    match state {
        State::Consistent { height, commitment, prepare: PrepareHandle::Batched { batch, index }, .. } => {
            &&& batches.dom().contains(batch)
            &&& index < batches[batch].items().len()
            &&& records(batches[batch].items()[index as int], id, height, commitment)
        },
        State::Consistent { height, commitment, prepare: PrepareHandle::Standalone(extract), .. } => {
            &&& extract.wf()
            &&& records(extract.spec_prepare(), id, height, commitment)
        },
        State::Equivocated(equivocation) => {
            &&& equivocation.wf()
            &&& equivocation.0.spec_id() == id
            &&& equivocation.1.spec_id() == id
            &&& equivocation.0.spec_commitment() != equivocation.1.spec_commitment()
        },
    }
}

impl Ledger {
    /// Every handle leads to the prepare that the state records, and every
    /// equivocation names its account and shows two commitments.
    pub open spec fn wf(self) -> bool {
        &&& forall|id: Id| #[trigger] self.states.dom().contains(id) ==> state_wf(self.batches, id, self.states[id])
        &&& forall|root: Digest| #[trigger]
            self.batches.dom().contains(root) ==> self.batches[root].wf()
    }

    /// A batch can be taken in unless its root already names other
    /// prepares.
    pub open spec fn admits(self, batch: WitnessedBatch) -> bool {
        self.batches.dom().contains(batch.spec_root()) ==> self.batches[batch.spec_root()].items()
            == batch.items()
    }
}

/// The extract behind a handle.
pub open spec fn extract_of(batches: Map<Digest, WitnessedBatch>, handle: PrepareHandle) -> Extract {
    match handle {
        PrepareHandle::Batched { batch, index } => batches[batch].spec_extract(index as int),
        PrepareHandle::Standalone(extract) => extract,
    }
}

/// The state of an account whose prepare sits at `index` of `batch`.
pub open spec fn fresh_state(batch: WitnessedBatch, index: int) -> State {
    State::Consistent {
        height: batch.items()[index].spec_height(),
        commitment: batch.items()[index].spec_commitment(),
        prepare: PrepareHandle::Batched { batch: batch.spec_root(), index: index as usize },
        stale: true,
    }
}

/// The equivocation that observing the `index`-th prepare of `batch`
/// brings to light, if any.
pub open spec fn exception(ledger: Ledger, batch: WitnessedBatch, index: int) -> Option<
    Equivocation,
> {
    let prepare = batch.items()[index];
    let id = prepare.spec_id();
    if !ledger.states.dom().contains(id) {
        None
    } else {
        match ledger.states[id] {
            State::Consistent { height, commitment, prepare: handle, .. } => {
                if height == prepare.spec_height() && commitment != prepare.spec_commitment() {
                    Some(
                        Equivocation(
                            extract_of(ledger.batches, handle),
                            batch.spec_extract(index),
                        ),
                    )
                } else {
                    None
                }
            },
            State::Equivocated(equivocation) => Some(equivocation),
        }
    }
}

/// The ledger after the `index`-th prepare of `batch` is observed.
///
/// * No prior state: the account becomes consistent at the prepare, and
///   stale.
/// * Same height, same commitment: nothing changes.
/// * Same height, other commitment: the account becomes equivocated, by
///   the extract of the prepare on record and that of the new one, in this
///   order, and stale unless it was stale already.
/// * Other height: the account becomes consistent at the prepare, and
///   stale.
/// * Already equivocated: nothing changes.
pub open spec fn observe(ledger: Ledger, batch: WitnessedBatch, index: int) -> Ledger {
    let prepare = batch.items()[index];
    let id = prepare.spec_id();
    if !ledger.states.dom().contains(id) {
        Ledger {
            states: ledger.states.insert(id, fresh_state(batch, index)),
            stale: ledger.stale.insert(id),
            batches: ledger.batches,
        }
    } else {
        match ledger.states[id] {
            State::Consistent { height, commitment, prepare: handle, stale } => {
                if height == prepare.spec_height() {
                    if commitment == prepare.spec_commitment() {
                        ledger
                    } else {
                        Ledger {
                            states: ledger.states.insert(
                                id,
                                State::Equivocated(
                                    Equivocation(
                                        extract_of(ledger.batches, handle),
                                        batch.spec_extract(index),
                                    ),
                                ),
                            ),
                            stale: if stale {
                                ledger.stale
                            } else {
                                ledger.stale.insert(id)
                            },
                            batches: ledger.batches,
                        }
                    }
                } else {
                    Ledger {
                        states: ledger.states.insert(id, fresh_state(batch, index)),
                        stale: ledger.stale.insert(id),
                        batches: ledger.batches,
                    }
                }
            },
            State::Equivocated(_) => ledger,
        }
    }
}

/// The ledger after the first `count` prepares of `batch` are observed.
pub open spec fn observe_all(ledger: Ledger, batch: WitnessedBatch, count: nat) -> Ledger
    decreases count,
{
    if count == 0 {
        ledger
    } else {
        observe(observe_all(ledger, batch, (count - 1) as nat), batch, count - 1)
    }
}

/// The equivocations that the first `count` prepares of `batch` bring to
/// light, in the order of the prepares.
pub open spec fn exceptions(ledger: Ledger, batch: WitnessedBatch, count: nat) -> Seq<Equivocation>
    decreases count,
{
    if count == 0 {
        Seq::empty()
    } else {
        let earlier = exceptions(ledger, batch, (count - 1) as nat);
        match exception(observe_all(ledger, batch, (count - 1) as nat), batch, count - 1) {
            Some(equivocation) => earlier.push(equivocation),
            None => earlier,
        }
    }
}

/// The ledger after `batch` is taken in: the batch is filed under its root
/// unless the root is filed already, and every prepare is observed.
pub open spec fn absorb(ledger: Ledger, batch: WitnessedBatch) -> Ledger {
    let observed = observe_all(ledger, batch, batch.items().len());
    Ledger {
        states: observed.states,
        stale: observed.stale,
        batches: if ledger.batches.dom().contains(batch.spec_root()) {
            ledger.batches
        } else {
            ledger.batches.insert(batch.spec_root(), batch)
        },
    }
}

/// Observing the first `count` prepares leaves the batches alone, and
/// leaves alone an account that none of these prepares names.
pub proof fn lemma_observe_all_frame(ledger: Ledger, batch: WitnessedBatch, count: nat, id: Id)
    requires
        count <= batch.items().len(),
        forall|i: int| 0 <= i < count ==> (#[trigger] batch.items()[i]).spec_id() != id,
    ensures
        observe_all(ledger, batch, count).batches == ledger.batches,
        observe_all(ledger, batch, count).states.dom().contains(id) == ledger.states.dom().contains(
            id,
        ),
        ledger.states.dom().contains(id) ==> observe_all(ledger, batch, count).states[id]
            == ledger.states[id],
        observe_all(ledger, batch, count).stale.contains(id) == ledger.stale.contains(id),
    decreases count,
{
    if count > 0 {
        lemma_observe_all_frame(ledger, batch, (count - 1) as nat, id);
        assert(batch.items()[count - 1].spec_id() != id);
    } else {
        lemma_observe_all_batches(ledger, batch, count);
    }
}

/// Observing prepares leaves the batches alone.
pub proof fn lemma_observe_all_batches(ledger: Ledger, batch: WitnessedBatch, count: nat)
    ensures
        observe_all(ledger, batch, count).batches == ledger.batches,
    decreases count,
{
    if count > 0 {
        lemma_observe_all_batches(ledger, batch, (count - 1) as nat);
    }
}

/// Every state of `states` can be turned into proof with `batches`.
pub open spec fn states_wf(states: Map<Id, State>, batches: Map<Digest, WitnessedBatch>) -> bool {
    forall|id: Id| #[trigger] states.dom().contains(id) ==> state_wf(batches, id, states[id])
}

/// `larger` files every batch of `smaller`, and perhaps more.
pub open spec fn extends(larger: Map<Digest, WitnessedBatch>, smaller: Map<Digest, WitnessedBatch>) -> bool {
    forall|root: Digest| #[trigger]
        smaller.dom().contains(root) ==> larger.dom().contains(root) && larger[root]
            == smaller[root]
}

/// Observing a prepare of a batch keeps every state provable with the
/// batches as they will be once the batch is filed.
pub proof fn lemma_observe_wf(
    ledger: Ledger,
    batch: WitnessedBatch,
    index: int,
    future: Map<Digest, WitnessedBatch>,
)
    requires
        batch.wf(),
        0 <= index < batch.items().len(),
        index <= usize::MAX,
        states_wf(ledger.states, future),
        extends(future, ledger.batches),
        forall|root: Digest| #[trigger]
            ledger.batches.dom().contains(root) ==> ledger.batches[root].wf(),
        future.dom().contains(batch.spec_root()),
        future[batch.spec_root()].items() == batch.items(),
        ledger.states.dom().contains(batch.items()[index].spec_id()) ==> state_wf(
            ledger.batches,
            batch.items()[index].spec_id(),
            ledger.states[batch.items()[index].spec_id()],
        ),
    ensures
        states_wf(observe(ledger, batch, index).states, future),
        observe(ledger, batch, index).batches == ledger.batches,
        exception(ledger, batch, index) matches Some(equivocation) ==> equivocation.wf()
            && equivocation.0.spec_id() == batch.items()[index].spec_id()
            && equivocation.1.spec_id() == batch.items()[index].spec_id()
            && equivocation.0.spec_commitment() != equivocation.1.spec_commitment(),
{
    let after = observe(ledger, batch, index);
    let prepare = batch.items()[index];
    let id = prepare.spec_id();
    lemma_spec_extract(batch, index);
    if ledger.states.dom().contains(id) {
        assert(state_wf(future, id, ledger.states[id]));
        match ledger.states[id] {
            State::Consistent { height, commitment, prepare: handle, stale } => {
                match handle {
                    PrepareHandle::Batched { batch: root, index: position } => {
                        lemma_spec_extract(ledger.batches[root], position as int);
                    },
                    PrepareHandle::Standalone(extract) => {},
                }
            },
            State::Equivocated(_) => {},
        }
    }
    assert forall|other: Id| #[trigger] after.states.dom().contains(other) implies state_wf(
        future,
        other,
        after.states[other],
    ) by {
        if other != id {
            assert(ledger.states.dom().contains(other));
            assert(state_wf(future, other, ledger.states[other]));
        }
    }
}

/// The extract of a position in a well-formed batch is made of the batch's
/// own parts.
pub proof fn lemma_spec_extract(batch: WitnessedBatch, index: int)
    requires
        batch.wf(),
        0 <= index < batch.items().len(),
    ensures
        batch.spec_extract(index).spec_view() == batch.spec_view(),
        batch.spec_extract(index).spec_root() == batch.spec_root(),
        batch.spec_extract(index).spec_witness() == batch.spec_witness(),
        batch.spec_extract(index).spec_inclusion() == batch.spec_prepares().proofs()[index],
        batch.spec_extract(index).spec_prepare() == batch.items()[index],
        batch.spec_extract(index).wf(),
{
    crate::prepare::extract::lemma_extract_exists(
        batch.spec_view(),
        batch.spec_root(),
        batch.spec_witness(),
        batch.spec_prepares().proofs()[index],
        batch.items()[index],
    );
}

/// Once the `index`-th prepare is observed, later prepares of a strictly
/// monotone batch leave its account alone.
proof fn lemma_later_frame(ledger: Ledger, batch: WitnessedBatch, index: int, count: nat)
    requires
        strictly_monotone(batch.items()),
        0 <= index < count <= batch.items().len(),
    ensures
        observe_all(ledger, batch, count).states.dom().contains(batch.items()[index].spec_id())
            == observe_all(ledger, batch, (index + 1) as nat).states.dom().contains(
            batch.items()[index].spec_id(),
        ),
        observe_all(ledger, batch, count).states[batch.items()[index].spec_id()] == observe_all(
            ledger,
            batch,
            (index + 1) as nat,
        ).states[batch.items()[index].spec_id()],
        observe_all(ledger, batch, count).stale.contains(batch.items()[index].spec_id())
            == observe_all(ledger, batch, (index + 1) as nat).stale.contains(
            batch.items()[index].spec_id(),
        ),
    decreases count,
{
    if count > index + 1 {
        lemma_later_frame(ledger, batch, index, (count - 1) as nat);
        assert(batch.items()[index].spec_id() < batch.items()[count - 1].spec_id());
    }
}

/// After a batch is absorbed, each of its accounts is either consistent at
/// the batch's prepare or equivocated, and observing the prepare again
/// finds the very exception that it found the first time.
proof fn lemma_settled(ledger: Ledger, batch: WitnessedBatch, index: int)
    requires
        strictly_monotone(batch.items()),
        0 <= index < batch.items().len(),
    ensures
        ({
            let once = observe_all(ledger, batch, batch.items().len());
            let before = observe_all(ledger, batch, index as nat);
            let id = batch.items()[index].spec_id();
            &&& once.states.dom().contains(id)
            &&& forall|settled: Ledger|
                settled.states.dom().contains(id) && #[trigger] settled.states[id]
                    == once.states[id] ==> observe(settled, batch, index) == settled && exception(
                    settled,
                    batch,
                    index,
                ) == exception(before, batch, index)
        }),
{
    let count = batch.items().len();
    let once = observe_all(ledger, batch, count);
    let before = observe_all(ledger, batch, index as nat);
    let id = batch.items()[index].spec_id();
    lemma_later_frame(ledger, batch, index, count);
    assert(observe_all(ledger, batch, (index + 1) as nat) == observe(before, batch, index));
}

/// A ledger in which every account of the batch is settled is left alone
/// by observing the batch, and yields the exceptions of the first time.
proof fn lemma_replay(ledger: Ledger, batch: WitnessedBatch, count: nat)
    requires
        strictly_monotone(batch.items()),
        count <= batch.items().len(),
    ensures
        ({
            let once = observe_all(ledger, batch, batch.items().len());
            &&& observe_all(once, batch, count) == once
            &&& exceptions(once, batch, count) == exceptions(ledger, batch, count)
        }),
    decreases count,
{
    if count > 0 {
        let once = observe_all(ledger, batch, batch.items().len());
        lemma_replay(ledger, batch, (count - 1) as nat);
        lemma_settled(ledger, batch, count - 1);
        let id = batch.items()[count - 1].spec_id();
        assert(once.states[id] == once.states[id]);
    }
}

/// Taking in a batch a second time changes nothing,
/// so no account becomes equivocated by it, and brings to light the very
/// exceptions of the first time.
pub proof fn lemma_batch_idempotence(ledger: Ledger, batch: WitnessedBatch)
    requires
        strictly_monotone(batch.items()),
        ledger.admits(batch),
    ensures
        absorb(ledger, batch).admits(batch),
        absorb(absorb(ledger, batch), batch) == absorb(ledger, batch),
        exceptions(absorb(ledger, batch), batch, batch.items().len()) == exceptions(
            ledger,
            batch,
            batch.items().len(),
        ),
{
    let count = batch.items().len();
    let once = observe_all(ledger, batch, count);
    let absorbed = absorb(ledger, batch);
    lemma_replay(ledger, batch, count);
    lemma_observe_all_batches(ledger, batch, count);
    assert forall|k: nat| k <= batch.items().len() implies #[trigger] observe_all(once, batch, k)
        == once by {
        lemma_replay(ledger, batch, k);
    }
    lemma_absorbed_replay(once, absorbed, batch, count);
    lemma_observe_all_batches(absorbed, batch, count);
}

/// Observing goes by the states and the stale set alone, but for the
/// extracts of earlier prepares: where no state changes, the batches on
/// file do not matter.
proof fn lemma_absorbed_replay(once: Ledger, absorbed: Ledger, batch: WitnessedBatch, count: nat)
    requires
        count <= batch.items().len(),
        absorbed.states == once.states,
        absorbed.stale == once.stale,
        forall|k: nat| k <= batch.items().len() ==> #[trigger] observe_all(once, batch, k) == once,
    ensures
        observe_all(absorbed, batch, count) == absorbed,
        exceptions(absorbed, batch, count) == exceptions(once, batch, count),
    decreases count,
{
    if count > 0 {
        lemma_absorbed_replay(once, absorbed, batch, (count - 1) as nat);
        let index = count - 1;
        assert(observe_all(once, batch, (count - 1) as nat) == once);
        assert(observe_all(once, batch, count) == once);
        assert(observe(once, batch, index) == once);
        let id = batch.items()[index].spec_id();
        if once.states.dom().contains(id) {
            match once.states[id] {
                State::Consistent { height, commitment, prepare: handle, stale } => {
                    if height == batch.items()[index].spec_height() && commitment
                        != batch.items()[index].spec_commitment() {
                        assert(observe(once, batch, index).states[id] is Equivocated);
                        assert(false);
                    }
                    if height != batch.items()[index].spec_height() {
                        assert(observe(once, batch, index).states[id] == fresh_state(batch, index));
                        assert(false);
                    }
                },
                State::Equivocated(_) => {},
            }
        } else {
            assert(observe(once, batch, index).states.dom().contains(id));
            assert(false);
        }
    }
}

/// The batches once `batch` is filed under its root, unless the root is
/// filed already.
pub open spec fn filed(batches: Map<Digest, WitnessedBatch>, batch: WitnessedBatch) -> Map<
    Digest,
    WitnessedBatch,
> {
    if batches.dom().contains(batch.spec_root()) {
        batches
    } else {
        batches.insert(batch.spec_root(), batch)
    }
}

proof fn lemma_observe_all_wf(ledger: Ledger, batch: WitnessedBatch, count: nat)
    requires
        ledger.wf(),
        batch.wf(),
        strictly_monotone(batch.items()),
        ledger.admits(batch),
        count <= batch.items().len() <= usize::MAX,
    ensures
        states_wf(observe_all(ledger, batch, count).states, filed(ledger.batches, batch)),
        observe_all(ledger, batch, count).batches == ledger.batches,
        forall|i: int|
            0 <= i < exceptions(ledger, batch, count).len() ==> {
                let equivocation = #[trigger] exceptions(ledger, batch, count)[i];
                &&& equivocation.wf()
                &&& equivocation.0.spec_id() == equivocation.1.spec_id()
                &&& equivocation.0.spec_commitment() != equivocation.1.spec_commitment()
            },
    decreases count,
{
    let future = filed(ledger.batches, batch);
    if count == 0 {
        assert forall|id: Id| #[trigger] ledger.states.dom().contains(id) implies state_wf(
            future,
            id,
            ledger.states[id],
        ) by {
            assert(state_wf(ledger.batches, id, ledger.states[id]));
        }
    } else {
        let index = count - 1;
        let before = observe_all(ledger, batch, index as nat);
        lemma_observe_all_wf(ledger, batch, index as nat);
        let id = batch.items()[index].spec_id();
        assert forall|i: int| 0 <= i < index implies (#[trigger] batch.items()[i]).spec_id()
            != id by {
            assert(batch.items()[i].spec_id() < batch.items()[index].spec_id());
        }
        lemma_observe_all_frame(ledger, batch, index as nat, id);
        if before.states.dom().contains(id) {
            assert(state_wf(ledger.batches, id, ledger.states[id]));
        }
        lemma_observe_wf(before, batch, index, future);
        let earlier = exceptions(ledger, batch, index as nat);
        let all = exceptions(ledger, batch, count);
        assert forall|i: int| 0 <= i < all.len() implies {
            let equivocation = #[trigger] all[i];
            &&& equivocation.wf()
            &&& equivocation.0.spec_id() == equivocation.1.spec_id()
            &&& equivocation.0.spec_commitment() != equivocation.1.spec_commitment()
        } by {
            if i < earlier.len() {
                assert(all[i] == earlier[i]);
            }
        }
    }
}

/// Taking in a batch keeps a well-formed ledger well formed, and every
/// exception that it brings to light shows one account committing to two
/// different operations: it is a valid equivocation as soon as its two
/// extracts are valid.
pub proof fn lemma_absorb_sound(ledger: Ledger, batch: WitnessedBatch)
    requires
        ledger.wf(),
        batch.wf(),
        strictly_monotone(batch.items()),
        ledger.admits(batch),
        batch.items().len() <= usize::MAX,
    ensures
        absorb(ledger, batch).wf(),
        forall|i: int|
            0 <= i < exceptions(ledger, batch, batch.items().len()).len() ==> {
                let equivocation = #[trigger] exceptions(ledger, batch, batch.items().len())[i];
                &&& equivocation.wf()
                &&& equivocation.0.spec_id() == equivocation.1.spec_id()
                &&& equivocation.0.spec_commitment() != equivocation.1.spec_commitment()
            },
{
    lemma_observe_all_wf(ledger, batch, batch.items().len());
    let after = absorb(ledger, batch);
    assert(after.batches == filed(ledger.batches, batch));
    assert forall|root: Digest| #[trigger] after.batches.dom().contains(root) implies after.batches[root].wf() by {
        if ledger.batches.dom().contains(root) {
            assert(ledger.batches[root].wf());
        }
    }
}

} // verus!
