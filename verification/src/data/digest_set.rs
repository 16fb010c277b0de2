use crate::crypto::Digest;
use vstd::prelude::*;

verus! {

/// Each element comes strictly before every later one.
pub open spec fn strictly_increasing(s: Seq<Digest>) -> bool {
    forall|i: int, j: int| 0 <= i < j < s.len() ==> (#[trigger] s[i]).spec_lt(#[trigger] s[j])
}

/// An increasing sequence has no repetition.
pub proof fn lemma_increasing_distinct(s: Seq<Digest>)
    requires
        strictly_increasing(s),
    ensures
        s.no_duplicates(),
{
    assert forall|i: int, j: int| 0 <= i < s.len() && 0 <= j < s.len() && i != j implies s[i]
        != s[j] by {
        if i < j {
            assert(s[i].spec_lt(s[j]));
        } else {
            assert(s[j].spec_lt(s[i]));
        }
    }
}

/// A set has one increasing listing at most.
pub proof fn lemma_increasing_unique(first: Seq<Digest>, second: Seq<Digest>)
    requires
        strictly_increasing(first),
        strictly_increasing(second),
        first.to_set() == second.to_set(),
    ensures
        first == second,
    decreases first.len(),
{
    lemma_increasing_distinct(first);
    lemma_increasing_distinct(second);
    first.unique_seq_to_set();
    second.unique_seq_to_set();
    if first.len() == 0 {
        assert(first =~= second);
    } else {
        let a = first.last();
        let b = second.last();
        assert(first.contains(a));
        assert(second.contains(b));
        assert(second.to_set().contains(a));
        assert(first.to_set().contains(b));
        let j = choose|j: int| 0 <= j < second.len() && second[j] == a;
        let i = choose|i: int| 0 <= i < first.len() && first[i] == b;
        if j < second.len() - 1 {
            assert(second[j].spec_lt(second[second.len() - 1]));
        }
        if i < first.len() - 1 {
            assert(first[i].spec_lt(first[first.len() - 1]));
        }
        assert(a == b);
        let shorter = first.drop_last();
        let other = second.drop_last();
        assert(shorter.to_set() =~= other.to_set()) by {
            assert forall|x: Digest| shorter.to_set().contains(x) <==> other.to_set().contains(
                x,
            ) by {
                if shorter.contains(x) {
                    let k = choose|k: int| 0 <= k < shorter.len() && shorter[k] == x;
                    assert(first[k] == x);
                    assert(first[k].spec_lt(first[first.len() - 1]));
                    assert(first.contains(x));
                    assert(second.to_set().contains(x));
                    let m = choose|m: int| 0 <= m < second.len() && second[m] == x;
                    assert(other[m] == x);
                }
                if other.contains(x) {
                    let k = choose|k: int| 0 <= k < other.len() && other[k] == x;
                    assert(second[k] == x);
                    assert(second[k].spec_lt(second[second.len() - 1]));
                    assert(second.contains(x));
                    assert(first.to_set().contains(x));
                    let m = choose|m: int| 0 <= m < first.len() && first[m] == x;
                    assert(shorter[m] == x);
                }
            }
        }
        lemma_increasing_unique(shorter, other);
        assert(first =~= shorter.push(a));
        assert(second =~= other.push(b));
    }
}

/// A finite set of digests, kept in increasing order without repetition.
pub struct DigestSet {
    items: Vec<Digest>,
}

impl View for DigestSet {
    type V = Set<Digest>;

    closed spec fn view(&self) -> Set<Digest> {
        self.items@.to_set()
    }
}

impl DigestSet {
    /// The elements in increasing order.
    pub closed spec fn ordered(&self) -> Seq<Digest> {
        self.items@
    }

    pub closed spec fn wf(&self) -> bool {
        strictly_increasing(self.items@)
    }

    /// The ordered sequence lists the set, once each, in increasing order.
    pub proof fn lemma_ordered(&self)
        requires
            self.wf(),
        ensures
            strictly_increasing(self.ordered()),
            self.ordered().no_duplicates(),
            self.ordered().to_set() == self@,
            self@.finite(),
            self@.len() == self.ordered().len(),
    {
        let s = self.items@;
        assert forall|i: int, j: int| 0 <= i < s.len() && 0 <= j < s.len() && i != j implies s[i]
            != s[j] by {
            if i < j {
                assert(s[i].spec_lt(s[j]));
            } else {
                assert(s[j].spec_lt(s[i]));
            }
        }
        s.unique_seq_to_set();
        vstd::seq_lib::seq_to_set_is_finite(s);
    }

    pub fn new() -> (set: Self)
        ensures
            set.wf(),
            set@ == Set::<Digest>::empty(),
            set.ordered() == Seq::<Digest>::empty(),
    {
        let set = DigestSet { items: Vec::new() };
        assert(set.items@.to_set() =~= Set::<Digest>::empty());
        set
    }

    pub fn len(&self) -> (len: usize)
        requires
            self.wf(),
        ensures
            len == self@.len(),
            len == self.ordered().len(),
    {
        proof {
            self.lemma_ordered();
        }
        self.items.len()
    }

    pub fn is_empty(&self) -> (empty: bool)
        requires
            self.wf(),
        ensures
            empty == (self@ == Set::<Digest>::empty()),
    {
        proof {
            self.lemma_ordered();
            if self.items@.len() > 0 {
                assert(self.items@.contains(self.items@[0]));
            }
            assert(self.items@.len() == 0 ==> self@ =~= Set::<Digest>::empty());
        }
        self.items.len() == 0
    }

    /// The element at rank `index` in increasing order.
    pub fn get(&self, index: usize) -> (digest: Digest)
        requires
            self.wf(),
            index < self.ordered().len(),
        ensures
            digest == self.ordered()[index as int],
    {
        self.items[index]
    }

    /// Number of elements that come strictly before `digest`.
    fn rank(&self, digest: &Digest) -> (pos: usize)
        requires
            self.wf(),
        ensures
            pos <= self.items@.len(),
            forall|i: int| 0 <= i < pos ==> (#[trigger] self.items@[i]).spec_lt(*digest),
            forall|i: int| pos <= i < self.items@.len() ==> !(#[trigger] self.items@[i]).spec_lt(*digest),
    {
        let mut low: usize = 0;
        let mut high: usize = self.items.len();
        while low < high
            invariant
                self.wf(),
                low <= high <= self.items@.len(),
                forall|i: int| 0 <= i < low ==> (#[trigger] self.items@[i]).spec_lt(*digest),
                forall|i: int| high <= i < self.items@.len() ==> !(#[trigger] self.items@[i]).spec_lt(*digest),
            decreases high - low,
        {
            let mid: usize = low + (high - low) / 2;
            if self.items[mid].lt(digest) {
                assert forall|i: int| 0 <= i < mid + 1 implies (#[trigger] self.items@[i]).spec_lt(*digest) by {
                    if i < mid {
                        assert(self.items@[i].spec_lt(self.items@[mid as int]));
                    }
                }
                low = mid + 1;
            } else {
                assert forall|i: int| mid <= i < self.items@.len() implies !(#[trigger] self.items@[i]).spec_lt(*digest) by {
                    if mid < i {
                        assert(self.items@[mid as int].spec_lt(self.items@[i]));
                    }
                }
                high = mid;
            }
        }
        low
    }

    pub fn contains(&self, digest: &Digest) -> (found: bool)
        requires
            self.wf(),
        ensures
            found == self@.contains(*digest),
    {
        let pos = self.rank(digest);
        let found = pos < self.items.len() && self.items[pos] == *digest;
        proof {
            if found {
                assert(self.items@[pos as int] == *digest);
                assert(self.items@.contains(*digest));
            } else if self.items@.contains(*digest) {
                let k = choose|k: int| 0 <= k < self.items@.len() && self.items@[k] == *digest;
                assert(!self.items@[k].spec_lt(*digest));
                assert(k >= pos);
                if k > pos {
                    assert(self.items@[pos as int].spec_lt(self.items@[k]));
                }
            }
        }
        found
    }

    /// Adds `digest`; tells whether it was absent before.
    pub fn insert(&mut self, digest: Digest) -> (fresh: bool)
        requires
            old(self).wf(),
        ensures
            final(self).wf(),
            final(self)@ == old(self)@.insert(digest),
            fresh == !old(self)@.contains(digest),
    {
        let pos = self.rank(&digest);
        if pos < self.items.len() && self.items[pos] == digest {
            proof {
                assert(self.items@.contains(digest));
                assert(self@.insert(digest) =~= self@);
            }
            return false;
        }
        proof {
            if self.items@.contains(digest) {
                let k = choose|k: int| 0 <= k < self.items@.len() && self.items@[k] == digest;
                assert(!self.items@[k].spec_lt(digest));
                if k > pos {
                    assert(self.items@[pos as int].spec_lt(self.items@[k]));
                }
            }
        }
        let ghost before = self.items@;
        self.items.insert(pos, digest);
        proof {
            let after = self.items@;
            assert(after == before.insert(pos as int, digest));
            assert forall|i: int, j: int| 0 <= i < j < after.len() implies (#[trigger] after[i]).spec_lt(
                #[trigger] after[j],
            ) by {
                if j < pos {
                    assert(before[i].spec_lt(before[j]));
                } else if j == pos {
                    assert(before[i].spec_lt(digest));
                } else if i < pos {
                    assert(before[i].spec_lt(before[j - 1]));
                } else if i == pos {
                    assert(!before[j - 1].spec_lt(digest));
                    assert(before[j - 1] != digest) by {
                        assert(before.contains(before[j - 1]));
                    }
                } else {
                    assert(before[i - 1].spec_lt(before[j - 1]));
                }
            }
            before.insert_ensures(pos as int, digest);
            assert(after.to_set() =~= before.to_set().insert(digest)) by {
                assert forall|x: Digest| after.to_set().contains(x) <==> before.to_set().insert(digest).contains(x) by {
                    if before.contains(x) {
                        let k = choose|k: int| 0 <= k < before.len() && before[k] == x;
                        if k < pos {
                            assert(after[k] == x);
                        } else {
                            assert(after[k + 1] == x);
                        }
                    }
                    if x == digest {
                        assert(after[pos as int] == x);
                    }
                    if after.contains(x) {
                        let k = choose|k: int| 0 <= k < after.len() && after[k] == x;
                        if k < pos {
                            assert(before[k] == x);
                        } else if k > pos {
                            assert(before[k - 1] == x);
                        }
                    }
                }
            }
        }
        true
    }

    /// Takes `digest` out; tells whether it was present before.
    pub fn remove(&mut self, digest: &Digest) -> (present: bool)
        requires
            old(self).wf(),
        ensures
            final(self).wf(),
            final(self)@ == old(self)@.remove(*digest),
            present == old(self)@.contains(*digest),
    {
        let pos = self.rank(digest);
        if pos < self.items.len() && self.items[pos] == *digest {
            let ghost before = self.items@;
            self.items.remove(pos);
            proof {
                let after = self.items@;
                assert(after == before.remove(pos as int));
                assert(before.contains(*digest));
                assert forall|i: int, j: int| 0 <= i < j < after.len() implies (#[trigger] after[i]).spec_lt(
                    #[trigger] after[j],
                ) by {
                    let oi = if i < pos { i } else { i + 1 };
                    let oj = if j < pos { j } else { j + 1 };
                    assert(before[oi].spec_lt(before[oj]));
                }
                assert forall|x: Digest| after.to_set().contains(x) <==> before.to_set().remove(
                    *digest,
                ).contains(x) by {
                    if after.contains(x) {
                        let k = choose|k: int| 0 <= k < after.len() && after[k] == x;
                        let ok = if k < pos { k } else { k + 1 };
                        assert(before[ok] == x);
                        if ok < pos {
                            assert(before[ok].spec_lt(before[pos as int]));
                        } else {
                            assert(before[pos as int].spec_lt(before[ok]));
                        }
                    }
                    if before.contains(x) && x != *digest {
                        let k = choose|k: int| 0 <= k < before.len() && before[k] == x;
                        if k < pos {
                            assert(after[k] == x);
                        } else {
                            assert(after[k - 1] == x);
                        }
                    }
                }
                assert(after.to_set() =~= before.to_set().remove(*digest));
            }
            return true;
        }
        proof {
            if self.items@.contains(*digest) {
                let k = choose|k: int| 0 <= k < self.items@.len() && self.items@[k] == *digest;
                assert(!self.items@[k].spec_lt(*digest));
                if k > pos {
                    assert(self.items@[pos as int].spec_lt(self.items@[k]));
                }
            }
            assert(self@.remove(*digest) =~= self@);
        }
        false
    }

    /// Whether every element of `self` is in `other`.
    pub fn is_subset(&self, other: &DigestSet) -> (subset: bool)
        requires
            self.wf(),
            other.wf(),
        ensures
            subset == self@.subset_of(other@),
    {
        let mut index: usize = 0;
        while index < self.items.len()
            invariant
                self.wf(),
                other.wf(),
                index <= self.items@.len(),
                forall|i: int| 0 <= i < index ==> other@.contains(#[trigger] self.items@[i]),
            decreases self.items@.len() - index,
        {
            if !other.contains(&self.items[index]) {
                proof {
                    assert(self.items@.contains(self.items@[index as int]));
                }
                return false;
            }
            index += 1;
        }
        true
    }

    /// Adds every element of `other`.
    pub fn extend(&mut self, other: &DigestSet)
        requires
            old(self).wf(),
            other.wf(),
        ensures
            final(self).wf(),
            final(self)@ == old(self)@.union(other@),
    {
        let mut index: usize = 0;
        while index < other.items.len()
            invariant
                self.wf(),
                other.wf(),
                index <= other.items@.len(),
                self@ == old(self)@.union(other.items@.take(index as int).to_set()),
            decreases other.items@.len() - index,
        {
            let ghost before = self@;
            self.insert(other.items[index]);
            proof {
                let prefix = other.items@.take(index as int);
                assert(other.items@.take(index + 1) == prefix.push(other.items@[index as int]));
                prefix.lemma_push_to_set_commute(other.items@[index as int]);
                assert(self@ =~= old(self)@.union(other.items@.take(index + 1).to_set()));
            }
            index += 1;
        }
        assert(other.items@.take(index as int) == other.items@);
    }

    /// The elements of `self` that `other` lacks.
    pub fn difference(&self, other: &DigestSet) -> (rest: DigestSet)
        requires
            self.wf(),
            other.wf(),
        ensures
            rest.wf(),
            rest@ == self@.difference(other@),
    {
        let mut rest = DigestSet::new();
        let mut index: usize = 0;
        while index < self.items.len()
            invariant
                self.wf(),
                other.wf(),
                rest.wf(),
                index <= self.items@.len(),
                rest@ == self.items@.take(index as int).to_set().difference(other@),
            decreases self.items@.len() - index,
        {
            let digest = self.items[index];
            proof {
                let prefix = self.items@.take(index as int);
                assert(self.items@.take(index + 1) == prefix.push(self.items@[index as int]));
                prefix.lemma_push_to_set_commute(self.items@[index as int]);
            }
            if !other.contains(&digest) {
                rest.insert(digest);
            }
            proof {
                assert(rest@ =~= self.items@.take(index + 1).to_set().difference(other@));
            }
            index += 1;
        }
        assert(self.items@.take(index as int) == self.items@);
        rest
    }

    /// The set of the elements of `digests`.
    pub fn from_vec(digests: &Vec<Digest>) -> (set: DigestSet)
        ensures
            set.wf(),
            set@ == digests@.to_set(),
    {
        let mut set = DigestSet::new();
        let mut index: usize = 0;
        while index < digests.len()
            invariant
                set.wf(),
                index <= digests@.len(),
                set@ == digests@.take(index as int).to_set(),
            decreases digests@.len() - index,
        {
            set.insert(digests[index]);
            proof {
                let prefix = digests@.take(index as int);
                assert(digests@.take(index + 1) == prefix.push(digests@[index as int]));
                prefix.lemma_push_to_set_commute(digests@[index as int]);
            }
            index += 1;
        }
        assert(digests@.take(index as int) == digests@);
        set
    }

    /// The elements in increasing order.
    pub fn to_vec(&self) -> (ordered: Vec<Digest>)
        ensures
            ordered@ == self.ordered(),
    {
        let ordered = self.items.clone();
        assert(ordered@ =~= self.items@);
        ordered
    }
}

impl Clone for DigestSet {
    fn clone(&self) -> (copy: Self)
        ensures
            copy@ == self@,
            copy.ordered() == self.ordered(),
            copy.wf() == self.wf(),
    {
        let items = self.items.clone();
        assert(items@ =~= self.items@);
        DigestSet { items }
    }
}

} // verus!
