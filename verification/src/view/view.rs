use crate::crypto::Identity;
use crate::data::shared::share;
use crate::data::DigestSet;
use crate::view::change::apply_all;
use crate::view::Change;
use crate::view::Increment;
use std::sync::Arc;
use vstd::prelude::*;

verus! {

/// Why a change cannot extend a view.
#[derive(Clone, Copy, Debug, PartialEq, Eq, Structural)]
pub enum ViewError {
    /// The replica that would join is a member already.
    AlreadyMember,
    /// The replica that would leave is no member.
    NotMember,
}

pub struct CommitteeData {
    height: usize,
    members: DigestSet,
}

/// The committee snapshot that makes up a view. Snapshots are immutable
/// and cheap to copy.
pub struct Committee {
    data: Arc<CommitteeData>,
}

/// Signatures needed for safety with `n` members: `ceil(2n / 3) + 1`.
pub open spec fn quorum_of(n: nat) -> nat {
    (2 * n + 2) / 3 + 1
}

/// Signatures that must include a correct replica's: `floor(n / 3) + 1`.
pub open spec fn plurality_of(n: nat) -> nat {
    n / 3 + 1
}

impl Clone for Committee {
    fn clone(&self) -> (copy: Self)
        ensures
            copy == *self,
    {
        Committee { data: share(&self.data) }
    }
}

impl Committee {
    /// Number of changes that led to this view, counting the founders.
    pub closed spec fn spec_height(&self) -> nat {
        self.data.height as nat
    }

    pub closed spec fn members(&self) -> Set<Identity> {
        self.data.members@
    }

    /// The members in increasing order of identity.
    pub closed spec fn ordered_members(&self) -> Seq<Identity> {
        self.data.members.ordered()
    }

    pub closed spec fn wf(&self) -> bool {
        self.data.members.wf()
    }

    /// The height is a machine integer.
    pub proof fn lemma_height_fits(&self)
        ensures
            self.spec_height() <= usize::MAX,
    {
    }

    /// The members form a finite set, listed once each by `ordered_members`.
    pub proof fn lemma_members(&self)
        requires
            self.wf(),
        ensures
            self.members().finite(),
            self.ordered_members().to_set() == self.members(),
            self.ordered_members().no_duplicates(),
            self.ordered_members().len() == self.members().len(),
    {
        self.data.members.lemma_ordered();
    }

    /// The first view: its height is the number of distinct founders.
    pub fn genesis(members: Vec<Identity>) -> (view: Committee)
        ensures
            view.wf(),
            view.members() == members@.to_set(),
            view.spec_height() == members@.to_set().len(),
    {
        let mut set = DigestSet::new();
        let mut index: usize = 0;
        while index < members.len()
            invariant
                set.wf(),
                index <= members@.len(),
                set@ == members@.take(index as int).to_set(),
            decreases members@.len() - index,
        {
            set.insert(members[index]);
            proof {
                let prefix = members@.take(index as int);
                assert(members@.take(index + 1) == prefix.push(members@[index as int]));
                prefix.lemma_push_to_set_commute(members@[index as int]);
            }
            index += 1;
        }
        assert(members@.take(index as int) == members@);
        let height = set.len();
        Committee { data: Arc::new(CommitteeData { height, members: set }) }
    }

    pub fn height(&self) -> (height: usize)
        ensures
            height == self.spec_height(),
    {
        self.data.height
    }

    /// Number of members.
    pub fn size(&self) -> (size: usize)
        requires
            self.wf(),
        ensures
            size == self.members().len(),
    {
        self.data.members.len()
    }

    pub fn contains(&self, replica: &Identity) -> (member: bool)
        requires
            self.wf(),
        ensures
            member == self.members().contains(*replica),
    {
        self.data.members.contains(replica)
    }

    /// Whether every replica in `replicas` is a member.
    pub fn includes(&self, replicas: &DigestSet) -> (included: bool)
        requires
            self.wf(),
            replicas.wf(),
        ensures
            included == replicas@.subset_of(self.members()),
    {
        replicas.is_subset(&self.data.members)
    }

    /// The members in increasing order of identity.
    pub fn member_list(&self) -> (members: Vec<Identity>)
        ensures
            members@ == self.ordered_members(),
    {
        self.data.members.to_vec()
    }

    pub fn quorum(&self) -> (quorum: usize)
        requires
            self.wf(),
        ensures
            quorum == quorum_of(self.members().len()),
    {
        let n = self.data.members.len();
        n - n / 3 + 1
    }

    pub fn plurality(&self) -> (plurality: usize)
        requires
            self.wf(),
        ensures
            plurality == plurality_of(self.members().len()),
    {
        let n = self.data.members.len();
        n / 3 + 1
    }

    /// A change extends this view exactly when it alters the committee.
    pub fn validate_extension(&self, change: &Change) -> (outcome: Result<(), ViewError>)
        requires
            self.wf(),
        ensures
            outcome == match *change {
                Change::Join(replica) => if self.members().contains(replica) {
                    Err::<(), ViewError>(ViewError::AlreadyMember)
                } else {
                    Ok(())
                },
                Change::Leave(replica) => if self.members().contains(replica) {
                    Ok(())
                } else {
                    Err::<(), ViewError>(ViewError::NotMember)
                },
            },
            outcome is Ok <==> change.apply(self.members()) != self.members(),
    {
        match change {
            Change::Join(replica) => {
                if self.data.members.contains(replica) {
                    assert(self.members().insert(*replica) =~= self.members());
                    Err(ViewError::AlreadyMember)
                } else {
                    assert(self.members().insert(*replica).contains(*replica));
                    Ok(())
                }
            },
            Change::Leave(replica) => {
                if self.data.members.contains(replica) {
                    assert(!self.members().remove(*replica).contains(*replica));
                    Ok(())
                } else {
                    assert(self.members().remove(*replica) =~= self.members());
                    Err(ViewError::NotMember)
                }
            },
        }
    }

    /// The view that `increment` leads to: every change is applied in turn
    /// and counts for one step of height.
    pub fn extend(&self, increment: &Increment) -> (next: Committee)
        requires
            self.wf(),
            self.spec_height() + increment@.len() <= usize::MAX,
        ensures
            next.wf(),
            next.spec_height() == self.spec_height() + increment@.len(),
            next.members() == apply_all(self.members(), increment@),
    {
        let mut members = self.data.members.clone();
        let mut index: usize = 0;
        while index < increment.len()
            invariant
                members.wf(),
                index <= increment@.len(),
                members@ == apply_all(self.members(), increment@.take(index as int)),
            decreases increment@.len() - index,
        {
            match increment.get(index) {
                Change::Join(replica) => {
                    members.insert(replica);
                },
                Change::Leave(replica) => {
                    members.remove(&replica);
                },
            }
            proof {
                let grown = increment@.take(index + 1);
                assert(grown.drop_last() == increment@.take(index as int));
                assert(grown.last() == increment@[index as int]);
            }
            index += 1;
        }
        assert(increment@.take(index as int) == increment@);
        Committee { data: Arc::new(CommitteeData { height: self.data.height + increment.len(), members }) }
    }
}

} // verus!
