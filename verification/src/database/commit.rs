use crate::account::Entry;
use crate::commit::Payload;
use crate::data::Table;
use vstd::prelude::*;

verus! {

/// The entries go strictly up: by account first, then by height.
pub open spec fn ascending(payloads: Seq<Payload>) -> bool {
    forall|i: int, j: int|
        0 <= i < j < payloads.len() ==> (#[trigger] payloads[i]).entry.spec_before(
            (#[trigger] payloads[j]).entry,
        )
}

/// The payloads on record once each of `payloads` is recorded under its
/// entry, in order.
pub open spec fn recorded(known: Map<Entry, Payload>, payloads: Seq<Payload>) -> Map<Entry, Payload>
    decreases payloads.len(),
{
    if payloads.len() == 0 {
        known
    } else {
        recorded(known, payloads.drop_last()).insert(payloads.last().entry, payloads.last())
    }
}

/// None of `payloads` contradicts what is on record for its entry.
pub open spec fn applicable(known: Map<Entry, Payload>, payloads: Seq<Payload>) -> bool {
    forall|i: int|
        0 <= i < payloads.len() && known.dom().contains((#[trigger] payloads[i]).entry)
            ==> known[payloads[i].entry] == payloads[i]
}

/// The operations that a replica has applied, by the slot they fill.
pub struct CommitDatabase {
    payloads: Table<Entry, Payload>,
}

impl View for CommitDatabase {
    type V = Map<Entry, Payload>;

    closed spec fn view(&self) -> Map<Entry, Payload> {
        self.payloads@
    }
}

impl CommitDatabase {
    pub closed spec fn wf(&self) -> bool {
        self.payloads.wf()
    }

    pub fn new() -> (database: CommitDatabase)
        ensures
            database.wf(),
            database@ == Map::<Entry, Payload>::empty(),
    {
        CommitDatabase { payloads: Table::new() }
    }

    /// The operation applied at `entry`, if any.
    pub fn payload(&self, entry: &Entry) -> (payload: Option<Payload>)
        requires
            self.wf(),
        ensures
            payload == if self@.dom().contains(*entry) {
                Some(self@[*entry])
            } else {
                None
            },
    {
        match self.payloads.get(entry) {
            Some(payload) => Some(*payload),
            None => None,
        }
    }

    pub fn contains(&self, entry: &Entry) -> (known: bool)
        requires
            self.wf(),
        ensures
            known == self@.dom().contains(*entry),
    {
        self.payloads.contains_key(entry)
    }

    /// Whether none of `payloads` contradicts what is on record.
    pub fn accepts(&self, payloads: &Vec<Payload>) -> (fine: bool)
        requires
            self.wf(),
        ensures
            fine == applicable(self@, payloads@),
    {
        let mut index: usize = 0;
        while index < payloads.len()
            invariant
                self.wf(),
                index <= payloads@.len(),
                forall|i: int|
                    0 <= i < index && self@.dom().contains((#[trigger] payloads@[i]).entry)
                        ==> self@[payloads@[i].entry] == payloads@[i],
            decreases payloads@.len() - index,
        {
            match self.payloads.get(&payloads[index].entry) {
                Some(known) => {
                    if *known != payloads[index] {
                        return false;
                    }
                },
                None => {},
            }
            index += 1;
        }
        true
    }

    /// Records each of `payloads` under its entry, in order.
    pub fn record(&mut self, payloads: &Vec<Payload>)
        requires
            old(self).wf(),
        ensures
            final(self).wf(),
            final(self)@ == recorded(old(self)@, payloads@),
    {
        let mut index: usize = 0;
        while index < payloads.len()
            invariant
                self.wf(),
                index <= payloads@.len(),
                self@ == recorded(old(self)@, payloads@.take(index as int)),
            decreases payloads@.len() - index,
        {
            proof {
                let grown = payloads@.take(index + 1);
                assert(grown.drop_last() == payloads@.take(index as int));
                assert(grown.last() == payloads@[index as int]);
            }
            self.payloads.insert(payloads[index].entry, payloads[index]);
            index += 1;
        }
        assert(payloads@.take(index as int) == payloads@);
    }
}

/// Whether the entries go strictly up along `payloads`.
pub fn is_ascending(payloads: &Vec<Payload>) -> (fine: bool)
    ensures
        fine == ascending(payloads@),
{
    if payloads.len() < 2 {
        return true;
    }
    let mut index: usize = 1;
    while index < payloads.len()
        invariant
            1 <= index <= payloads@.len(),
            forall|i: int|
                0 <= i && i + 1 < index ==> (#[trigger] payloads@[i]).entry.spec_before(
                    payloads@[i + 1].entry,
                ),
        decreases payloads@.len() - index,
    {
        if !payloads[index - 1].entry.before(&payloads[index].entry) {
            return false;
        }
        index += 1;
    }
    proof {
        assert forall|i: int, j: int| 0 <= i < j < payloads@.len() implies (
        #[trigger] payloads@[i]).entry.spec_before((#[trigger] payloads@[j]).entry) by {
            lemma_adjacent_ascending(payloads@, i, j);
        }
    }
    true
}

proof fn lemma_adjacent_ascending(payloads: Seq<Payload>, i: int, j: int)
    requires
        forall|k: int|
            0 <= k && k + 1 < payloads.len() ==> (#[trigger] payloads[k]).entry.spec_before(
                payloads[k + 1].entry,
            ),
        0 <= i < j < payloads.len(),
    ensures
        payloads[i].entry.spec_before(payloads[j].entry),
    decreases j - i,
{
    if i + 1 < j {
        lemma_adjacent_ascending(payloads, i, j - 1);
    }
    assert(payloads[j - 1].entry.spec_before(payloads[j - 1 + 1].entry));
}

} // verus!
