use crate::account::Entry;
use crate::account::Id;
use crate::crypto::Proof;
use vstd::prelude::*;

verus! {

/// What a client asks for at one of its slots.
#[derive(Clone, Copy, Debug, PartialEq, Eq, Structural)]
pub enum Operation {
    Withdraw { amount: u64, recipient: Id, slot: u64 },
    Deposit,
    Support,
    Abandon,
}

impl Operation {
    pub fn withdraw(recipient: Id, slot: u64, amount: u64) -> (operation: Operation)
        ensures
            operation == (Operation::Withdraw { amount, recipient, slot }),
    {
        Operation::Withdraw { amount, recipient, slot }
    }

    /// Whether an operation of this kind may refer to a slot of another
    /// account: withdrawals and deposits may.
    pub open spec fn spec_may_depend(self) -> bool {
        self is Withdraw || self is Deposit
    }

    pub fn may_depend(&self) -> (may: bool)
        ensures
            may == self.spec_may_depend(),
    {
        match self {
            Operation::Withdraw { .. } => true,
            Operation::Deposit => true,
            _ => false,
        }
    }
}

/// The collection of a withdrawal by its recipient.
///
/// `exclusion` proves that the withdrawal was not deposited before; it is
/// made from the recipient's set of deposits where one is at hand.
pub struct Deposit {
    withdraw: Entry,
    exclusion: Option<Proof>,
    collect: bool,
}

impl Deposit {
    pub closed spec fn spec_withdraw(&self) -> Entry {
        self.withdraw
    }

    pub closed spec fn spec_exclusion(&self) -> Option<Proof> {
        self.exclusion
    }

    pub closed spec fn spec_collect(&self) -> bool {
        self.collect
    }

    pub fn new(withdraw: Entry, exclusion: Option<Proof>, collect: bool) -> (deposit: Deposit)
        ensures
            deposit.spec_withdraw() == withdraw,
            deposit.spec_exclusion() == exclusion,
            deposit.spec_collect() == collect,
    {
        Deposit { withdraw, exclusion, collect }
    }

    pub fn withdraw(&self) -> (withdraw: Entry)
        ensures
            withdraw == self.spec_withdraw(),
    {
        self.withdraw
    }

    pub fn exclusion(&self) -> (exclusion: &Option<Proof>)
        ensures
            *exclusion == self.spec_exclusion(),
    {
        &self.exclusion
    }

    pub fn collect(&self) -> (collect: bool)
        ensures
            collect == self.spec_collect(),
    {
        self.collect
    }
}

} // verus!
