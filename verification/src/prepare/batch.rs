use crate::account::Id;
use crate::crypto::Certificate;
use crate::crypto::Digest;
use crate::crypto::MultiSignature;
use crate::crypto::Proof;
use crate::crypto::Signature;
use crate::data::KeySet;
use crate::prepare::Equivocation;
use crate::prepare::Extract;
use crate::prepare::Prepare;
use vstd::prelude::*;

verus! {

/// The account ids strictly increase along `prepares`.
pub open spec fn strictly_monotone(prepares: Seq<Prepare>) -> bool {
    forall|i: int, j: int|
        0 <= i < j < prepares.len() ==> (#[trigger] prepares[i]).spec_id() < (
        #[trigger] prepares[j]).spec_id()
}

/// An ordered vector of prepares under one Merkle root, with the proof of
/// inclusion of each prepare.
pub struct PrepareVector {
    root: Digest,
    items: Vec<Prepare>,
    proofs: Vec<Proof>,
}

impl PrepareVector {
    pub closed spec fn spec_root(&self) -> Digest {
        self.root
    }

    pub closed spec fn items(&self) -> Seq<Prepare> {
        self.items@
    }

    pub closed spec fn proofs(&self) -> Seq<Proof> {
        self.proofs@
    }

    /// There is one proof for each prepare.
    pub open spec fn wf(&self) -> bool {
        self.items().len() == self.proofs().len()
    }

    /// Holds exactly when there is one proof for each prepare.
    pub fn new(root: Digest, items: Vec<Prepare>, proofs: Vec<Proof>) -> (vector: Option<
        PrepareVector,
    >)
        ensures
            vector is Some <==> items@.len() == proofs@.len(),
            vector matches Some(vector) ==> vector.wf() && vector.spec_root() == root
                && vector.items() == items@ && vector.proofs() == proofs@,
    {
        if items.len() == proofs.len() {
            Some(PrepareVector { root, items, proofs })
        } else {
            None
        }
    }

    pub fn root(&self) -> (root: Digest)
        ensures
            root == self.spec_root(),
    {
        self.root
    }

    pub fn len(&self) -> (len: usize)
        ensures
            len == self.items().len(),
    {
        self.items.len()
    }

    pub fn prepares(&self) -> (items: &Vec<Prepare>)
        ensures
            items@ == self.items(),
    {
        &self.items
    }

    pub fn get(&self, index: usize) -> (prepare: Prepare)
        requires
            index < self.items().len(),
        ensures
            prepare == self.items()[index as int],
    {
        self.items[index]
    }

    pub fn prove(&self, index: usize) -> (proof: Proof)
        requires
            self.wf(),
            index < self.items().len(),
        ensures
            proof == self.proofs()[index as int],
    {
        self.proofs[index].clone()
    }

    /// Whether the account ids strictly increase along the vector.
    pub fn is_strictly_monotone(&self) -> (monotone: bool)
        ensures
            monotone == strictly_monotone(self.items()),
    {
        if self.items.len() < 2 {
            return true;
        }
        let mut index: usize = 1;
        while index < self.items.len()
            invariant
                1 <= index <= self.items@.len(),
                forall|i: int|
                    0 <= i && i + 1 < index ==> (#[trigger] self.items@[i]).spec_id()
                        < self.items@[i + 1].spec_id(),
            decreases self.items@.len() - index,
        {
            if !(self.items[index - 1].id() < self.items[index].id()) {
                return false;
            }
            index += 1;
        }
        proof {
            assert forall|i: int, j: int| 0 <= i < j < self.items@.len() implies (
            #[trigger] self.items@[i]).spec_id() < (#[trigger] self.items@[j]).spec_id() by {
                lemma_adjacent_monotone(self.items@, i, j);
            }
        }
        true
    }
}

proof fn lemma_adjacent_monotone(prepares: Seq<Prepare>, i: int, j: int)
    requires
        forall|k: int|
            0 <= k && k + 1 < prepares.len() ==> (#[trigger] prepares[k]).spec_id() < prepares[k
                + 1].spec_id(),
        0 <= i < j < prepares.len(),
    ensures
        prepares[i].spec_id() < prepares[j].spec_id(),
    decreases j - i,
{
    if i + 1 < j {
        lemma_adjacent_monotone(prepares, i, j - 1);
    }
    assert(prepares[j - 1].spec_id() < prepares[j - 1 + 1].spec_id());
}

/// A batch of prepares with the signatures of the accounts: one aggregate
/// signature over the batch root for those that sign together, and an
/// individual signature over its own prepare for each of the others.
pub struct SignedBatch {
    prepares: PrepareVector,
    reduction_signature: MultiSignature,
    individual_signatures: Vec<Option<Signature>>,
}

impl SignedBatch {
    pub closed spec fn spec_prepares(&self) -> PrepareVector {
        self.prepares
    }

    pub closed spec fn spec_reduction_signature(&self) -> MultiSignature {
        self.reduction_signature
    }

    pub closed spec fn spec_individual_signatures(&self) -> Seq<Option<Signature>> {
        self.individual_signatures@
    }

    /// The batch made of these parts.
    pub closed spec fn spec_new(
        prepares: PrepareVector,
        reduction_signature: MultiSignature,
        individual_signatures: Vec<Option<Signature>>,
    ) -> SignedBatch {
        SignedBatch { prepares, reduction_signature, individual_signatures }
    }

    /// A batch is made of its parts, and of nothing else.
    pub proof fn lemma_spec_new(
        prepares: PrepareVector,
        reduction_signature: MultiSignature,
        individual_signatures: Vec<Option<Signature>>,
    )
        ensures
            Self::spec_new(prepares, reduction_signature, individual_signatures).spec_prepares()
                == prepares,
            Self::spec_new(
                prepares,
                reduction_signature,
                individual_signatures,
            ).spec_reduction_signature() == reduction_signature,
            Self::spec_new(
                prepares,
                reduction_signature,
                individual_signatures,
            ).spec_individual_signatures() == individual_signatures@,
    {
    }

    pub fn new(
        prepares: PrepareVector,
        reduction_signature: MultiSignature,
        individual_signatures: Vec<Option<Signature>>,
    ) -> (batch: SignedBatch)
        ensures
            batch == Self::spec_new(prepares, reduction_signature, individual_signatures),
            batch.spec_prepares() == prepares,
            batch.spec_reduction_signature() == reduction_signature,
            batch.spec_individual_signatures() == individual_signatures@,
    {
        SignedBatch { prepares, reduction_signature, individual_signatures }
    }

    pub fn root(&self) -> (root: Digest)
        ensures
            root == self.spec_prepares().spec_root(),
    {
        self.prepares.root()
    }

    pub fn prepares(&self) -> (prepares: &Vec<Prepare>)
        ensures
            prepares@ == self.spec_prepares().items(),
    {
        self.prepares.prepares()
    }

    pub fn vector(&self) -> (vector: &PrepareVector)
        ensures
            *vector == self.spec_prepares(),
    {
        &self.prepares
    }

    pub fn reduction_signature(&self) -> (signature: MultiSignature)
        ensures
            signature == self.spec_reduction_signature(),
    {
        self.reduction_signature.clone()
    }

    pub fn individual_signatures(&self) -> (signatures: &Vec<Option<Signature>>)
        ensures
            signatures@ == self.spec_individual_signatures(),
    {
        &self.individual_signatures
    }

    pub fn into_witnessed(self, view: Digest, witness: Certificate) -> (batch: WitnessedBatch)
        ensures
            batch == WitnessedBatch::spec_new(view, self.spec_prepares(), witness),
            batch.spec_view() == view,
            batch.spec_prepares() == self.spec_prepares(),
            batch.spec_witness() == witness,
    {
        WitnessedBatch::new(view, self.prepares, witness)
    }
}

/// A batch of prepares with the certificate of the replicas that
/// witnessed it in `view`.
pub struct WitnessedBatch {
    view: Digest,
    prepares: PrepareVector,
    witness: Certificate,
}

impl WitnessedBatch {
    pub closed spec fn spec_view(&self) -> Digest {
        self.view
    }

    pub closed spec fn spec_prepares(&self) -> PrepareVector {
        self.prepares
    }

    pub closed spec fn spec_witness(&self) -> Certificate {
        self.witness
    }

    pub open spec fn spec_root(&self) -> Digest {
        self.spec_prepares().spec_root()
    }

    pub open spec fn items(&self) -> Seq<Prepare> {
        self.spec_prepares().items()
    }

    pub open spec fn wf(&self) -> bool {
        self.spec_prepares().wf() && self.spec_witness().wf()
    }

    /// The extract that proves the `index`-th prepare witnessed.
    pub open spec fn spec_extract(&self, index: int) -> Extract
        recommends
            0 <= index < self.items().len(),
    {
        choose|extract: Extract|
            extract.spec_view() == self.spec_view() && extract.spec_root() == self.spec_root()
                && extract.spec_witness() == self.spec_witness() && extract.spec_inclusion()
                == self.spec_prepares().proofs()[index] && extract.spec_prepare()
                == self.items()[index]
    }

    /// The batch made of these parts.
    pub closed spec fn spec_new(view: Digest, prepares: PrepareVector, witness: Certificate) -> WitnessedBatch {
        WitnessedBatch { view, prepares, witness }
    }

    /// Two batches with the same parts are the same batch.
    pub proof fn lemma_extensional(self, other: WitnessedBatch)
        requires
            self.spec_view() == other.spec_view(),
            self.spec_prepares() == other.spec_prepares(),
            self.spec_witness() == other.spec_witness(),
        ensures
            self == other,
    {
    }

    /// A batch is made of its parts, and of nothing else.
    pub proof fn lemma_spec_new(view: Digest, prepares: PrepareVector, witness: Certificate)
        ensures
            Self::spec_new(view, prepares, witness).spec_view() == view,
            Self::spec_new(view, prepares, witness).spec_prepares() == prepares,
            Self::spec_new(view, prepares, witness).spec_witness() == witness,
    {
    }

    pub fn new(view: Digest, prepares: PrepareVector, witness: Certificate) -> (batch:
        WitnessedBatch)
        ensures
            batch == Self::spec_new(view, prepares, witness),
            batch.spec_view() == view,
            batch.spec_prepares() == prepares,
            batch.spec_witness() == witness,
    {
        WitnessedBatch { view, prepares, witness }
    }

    pub fn view_identifier(&self) -> (view: Digest)
        ensures
            view == self.spec_view(),
    {
        self.view
    }

    pub fn root(&self) -> (root: Digest)
        ensures
            root == self.spec_root(),
    {
        self.prepares.root()
    }

    pub fn prepares(&self) -> (prepares: &Vec<Prepare>)
        ensures
            prepares@ == self.items(),
    {
        self.prepares.prepares()
    }

    pub fn witness(&self) -> (witness: &Certificate)
        ensures
            *witness == self.spec_witness(),
    {
        &self.witness
    }

    pub fn vector(&self) -> (vector: &PrepareVector)
        ensures
            *vector == self.spec_prepares(),
    {
        &self.prepares
    }

    pub fn len(&self) -> (len: usize)
        ensures
            len == self.items().len(),
    {
        self.prepares.len()
    }

    /// The extract that proves the `index`-th prepare witnessed.
    pub fn extract(&self, index: usize) -> (extract: Extract)
        requires
            self.wf(),
            index < self.items().len(),
        ensures
            extract == self.spec_extract(index as int),
            extract.spec_view() == self.spec_view(),
            extract.spec_root() == self.spec_root(),
            extract.spec_witness() == self.spec_witness(),
            extract.spec_inclusion() == self.spec_prepares().proofs()[index as int],
            extract.spec_prepare() == self.items()[index as int],
            extract.wf(),
    {
        let extract = Extract::new(
            self.view,
            self.prepares.root(),
            self.witness.clone(),
            self.prepares.prove(index),
            self.prepares.get(index),
        );
        proof {
            extract.lemma_extensional(self.spec_extract(index as int));
        }
        extract
    }
}

/// The accounts of `ids`, each once, in the order in which they first
/// occur.
pub open spec fn distinct(ids: Seq<Id>) -> Seq<Id>
    decreases ids.len(),
{
    if ids.len() == 0 {
        Seq::empty()
    } else {
        let earlier = distinct(ids.drop_last());
        if earlier.contains(ids.last()) {
            earlier
        } else {
            earlier.push(ids.last())
        }
    }
}

/// `distinct` names every account once, and no other.
pub proof fn lemma_distinct(ids: Seq<Id>)
    ensures
        distinct(ids).no_duplicates(),
        distinct(ids).to_set() == ids.to_set(),
    decreases ids.len(),
{
    if ids.len() == 0 {
        assert(distinct(ids).to_set() =~= ids.to_set());
    } else {
        let shorter = ids.drop_last();
        let earlier = distinct(shorter);
        lemma_distinct(shorter);
        assert(ids =~= shorter.push(ids.last()));
        shorter.lemma_push_to_set_commute(ids.last());
        if earlier.contains(ids.last()) {
            assert(earlier.to_set().contains(ids.last()));
            assert(distinct(ids).to_set() =~= ids.to_set());
        } else {
            earlier.lemma_push_to_set_commute(ids.last());
            let grown = earlier.push(ids.last());
            assert forall|i: int, j: int|
                0 <= i < grown.len() && 0 <= j < grown.len() && i != j implies grown[i]
                != grown[j] by {
                if i < earlier.len() {
                    assert(earlier.contains(grown[i]));
                }
                if j < earlier.len() {
                    assert(earlier.contains(grown[j]));
                }
            }
            assert(distinct(ids).to_set() =~= ids.to_set());
        }
    }
}

/// The statement that a replica signs to commit a batch: the batch root,
/// the view, and the equivocations that except prepares from the commit.
pub struct BatchCommit {
    pub view: Digest,
    pub root: Digest,
    pub exceptions: Vec<Equivocation>,
}

impl BatchCommit {
    pub fn new(view: Digest, root: Digest, exceptions: Vec<Equivocation>) -> (commit: BatchCommit)
        ensures
            commit.view == view,
            commit.root == root,
            commit.exceptions == exceptions,
    {
        BatchCommit { view, root, exceptions }
    }

    /// The accounts that the commit excludes: each account that an
    /// exception names, once, however often it is named, in the order in
    /// which the accounts are first named.
    pub fn exclusions(&self) -> (ids: Vec<Id>)
        ensures
            ids@ == distinct(
                self.exceptions@.map_values(|equivocation: Equivocation| equivocation.spec_id()),
            ),
    {
        let ghost named = self.exceptions@.map_values(
            |equivocation: Equivocation| equivocation.spec_id(),
        );
        let mut seen: KeySet<Id> = KeySet::new();
        let mut index: usize = 0;
        while index < self.exceptions.len()
            invariant
                seen.wf(),
                named == self.exceptions@.map_values(
                    |equivocation: Equivocation| equivocation.spec_id(),
                ),
                index <= self.exceptions@.len(),
                seen.ordered() == distinct(named.take(index as int)),
            decreases self.exceptions@.len() - index,
        {
            proof {
                seen.lemma_ordered();
                let grown = named.take(index + 1);
                assert(grown.drop_last() == named.take(index as int));
                assert(grown.last() == named[index as int]);
            }
            seen.insert(self.exceptions[index].id());
            index += 1;
        }
        assert(named.take(index as int) == named);
        let mut ids: Vec<Id> = Vec::new();
        let mut position: usize = 0;
        while position < seen.len()
            invariant
                seen.wf(),
                position <= seen.ordered().len(),
                ids@ == seen.ordered().take(position as int),
            decreases seen.ordered().len() - position,
        {
            ids.push(seen.get(position));
            assert(seen.ordered().take(position + 1) == seen.ordered().take(position as int).push(
                seen.ordered()[position as int],
            ));
            position += 1;
        }
        assert(seen.ordered().take(position as int) == seen.ordered());
        ids
    }

    /// The accounts whose prepares are excepted, in the order of the
    /// exceptions.
    pub fn excepted_ids(&self) -> (ids: Vec<Id>)
        ensures
            ids@ == self.exceptions@.map_values(|equivocation: Equivocation| equivocation.spec_id()),
    {
        let mut ids: Vec<Id> = Vec::new();
        let mut index: usize = 0;
        while index < self.exceptions.len()
            invariant
                index <= self.exceptions@.len(),
                ids@ == self.exceptions@.take(index as int).map_values(
                    |equivocation: Equivocation| equivocation.spec_id(),
                ),
            decreases self.exceptions@.len() - index,
        {
            ids.push(self.exceptions[index].id());
            proof {
                let f = |equivocation: Equivocation| equivocation.spec_id();
                let prefix = self.exceptions@.take(index as int);
                assert(self.exceptions@.take(index + 1) == prefix.push(self.exceptions@[index as int]));
                assert(prefix.push(self.exceptions@[index as int]).map_values(f)
                    == prefix.map_values(f).push(f(self.exceptions@[index as int])));
            }
            index += 1;
        }
        assert(self.exceptions@.take(index as int) == self.exceptions@);
        ids
    }
}

} // verus!
