//! The rule by which a replica answers certification requests, as
//! mathematics, and why it makes any two decisions comparable.

use crate::crypto::Digest;
use crate::crypto::Identity;
use crate::view::view::quorum_of;
use vstd::prelude::*;
use vstd::set_lib::lemma_len_subset;
use vstd::set_lib::lemma_set_intersect_union_lens;

verus! {

/// A replica confirms a request exactly when the request holds everything
/// that the replica has accepted so far.
pub open spec fn confirms(accepted: Set<Digest>, elements: Set<Digest>) -> bool {
    accepted.subset_of(elements)
}

/// Whatever its answer, a replica accepts all that a request holds.
pub open spec fn accept(accepted: Set<Digest>, elements: Set<Digest>) -> Set<Digest> {
    accepted.union(elements)
}

/// What a replica tells a proposer that it does not confirm: the elements
/// that it has accepted and the request lacks.
pub open spec fn differences(accepted: Set<Digest>, elements: Set<Digest>) -> Set<Digest> {
    accepted.difference(elements)
}

/// What a replica has accepted once it has answered the first `count` of
/// `requests`.
pub open spec fn accepted_after(initial: Set<Digest>, requests: Seq<Set<Digest>>, count: nat) -> Set<
    Digest,
>
    decreases count,
{
    if count == 0 {
        initial
    } else {
        accept(accepted_after(initial, requests, (count - 1) as nat), requests[count - 1])
    }
}

/// Whether the replica confirmed the `index`-th of `requests`.
pub open spec fn confirmed_at(initial: Set<Digest>, requests: Seq<Set<Digest>>, index: int) -> bool {
    confirms(accepted_after(initial, requests, index as nat), requests[index])
}

/// What a replica has accepted only grows, and holds every request that
/// it has answered.
pub proof fn lemma_accepted_grows(
    initial: Set<Digest>,
    requests: Seq<Set<Digest>>,
    earlier: nat,
    later: nat,
)
    requires
        earlier <= later <= requests.len(),
    ensures
        accepted_after(initial, requests, earlier).subset_of(
            accepted_after(initial, requests, later),
        ),
        earlier < later ==> requests[earlier as int].subset_of(
            accepted_after(initial, requests, later),
        ),
    decreases later - earlier,
{
    if earlier < later {
        lemma_accepted_grows(initial, requests, earlier, (later - 1) as nat);
    }
}

/// Of two requests that one replica confirmed, the later holds the
/// earlier.
pub proof fn lemma_confirmations_comparable(
    initial: Set<Digest>,
    requests: Seq<Set<Digest>>,
    earlier: int,
    later: int,
)
    requires
        0 <= earlier <= later < requests.len(),
        confirmed_at(initial, requests, earlier),
        confirmed_at(initial, requests, later),
    ensures
        requests[earlier].subset_of(requests[later]),
{
    if earlier < later {
        lemma_accepted_grows(initial, requests, earlier as nat, later as nat);
    }
}

/// Two quorums of a view share a member outside any set of fewer than a
/// third of the members.
pub proof fn lemma_quorums_intersect(
    members: Set<Identity>,
    first: Set<Identity>,
    second: Set<Identity>,
    faulty: Set<Identity>,
)
    requires
        members.finite(),
        first.subset_of(members),
        second.subset_of(members),
        first.len() >= quorum_of(members.len()),
        second.len() >= quorum_of(members.len()),
        faulty.finite(),
        3 * faulty.len() < members.len(),
    ensures
        exists|replica: Identity|
            first.contains(replica) && second.contains(replica) && !faulty.contains(replica),
{
    lemma_len_subset(first, members);
    lemma_len_subset(second, members);
    let both = first.intersect(second);
    let either = first.union(second);
    lemma_set_intersect_union_lens(first, second);
    assert(either.subset_of(members));
    lemma_len_subset(either, members);
    assert(both.len() > faulty.len());
    let correct = both.difference(faulty);
    assert(both.finite());
    if forall|replica: Identity| !correct.contains(replica) {
        assert(both.subset_of(faulty)) by {
            assert forall|replica: Identity| both.contains(replica) implies faulty.contains(
                replica,
            ) by {
                assert(!correct.contains(replica));
            }
        }
        lemma_len_subset(both, faulty);
    }
    let replica = choose|replica: Identity| correct.contains(replica);
    assert(first.contains(replica) && second.contains(replica) && !faulty.contains(replica));
}

/// A replica that follows the rule confirmed `elements` at some point of
/// its history.
pub open spec fn has_confirmed(history: Seq<Set<Digest>>, elements: Set<Digest>) -> bool {
    exists|index: int|
        0 <= index < history.len() && #[trigger] history[index] == elements && confirmed_at(
            Set::empty(),
            history,
            index,
        )
}

/// With fewer than a third of the members
/// faulty, two sets that were each confirmed by a quorum are comparable.
///
/// `histories` gives, for each replica that follows the rule, the requests
/// that it answered, in order, starting with nothing accepted.
pub proof fn lemma_decisions_comparable(
    members: Set<Identity>,
    faulty: Set<Identity>,
    histories: Map<Identity, Seq<Set<Digest>>>,
    first: Set<Digest>,
    first_quorum: Set<Identity>,
    second: Set<Digest>,
    second_quorum: Set<Identity>,
)
    requires
        members.finite(),
        faulty.finite(),
        3 * faulty.len() < members.len(),
        first_quorum.subset_of(members),
        second_quorum.subset_of(members),
        first_quorum.len() >= quorum_of(members.len()),
        second_quorum.len() >= quorum_of(members.len()),
        forall|replica: Identity|
            first_quorum.contains(replica) && !faulty.contains(replica) ==> has_confirmed(
                #[trigger] histories[replica],
                first,
            ),
        forall|replica: Identity|
            second_quorum.contains(replica) && !faulty.contains(replica) ==> has_confirmed(
                #[trigger] histories[replica],
                second,
            ),
    ensures
        first.subset_of(second) || second.subset_of(first),
{
    lemma_quorums_intersect(members, first_quorum, second_quorum, faulty);
    let replica = choose|replica: Identity|
        first_quorum.contains(replica) && second_quorum.contains(replica) && !faulty.contains(
            replica,
        );
    let history = histories[replica];
    assert(has_confirmed(history, first));
    assert(has_confirmed(history, second));
    let i = choose|index: int|
        0 <= index < history.len() && #[trigger] history[index] == first && confirmed_at(
            Set::empty(),
            history,
            index,
        );
    let j = choose|index: int|
        0 <= index < history.len() && #[trigger] history[index] == second && confirmed_at(
            Set::empty(),
            history,
            index,
        );
    if i <= j {
        lemma_confirmations_comparable(Set::empty(), history, i, j);
    } else {
        lemma_confirmations_comparable(Set::empty(), history, j, i);
    }
}

} // verus!
