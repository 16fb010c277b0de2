use crate::account::Entry;
use crate::account::Operation;
use crate::data::Key;
use vstd::prelude::*;

verus! {

/// An operation, with the slot that it fills.
#[derive(Clone, Copy, Debug, PartialEq, Eq, Structural)]
pub struct Payload {
    pub entry: Entry,
    pub operation: Operation,
}

impl Payload {
    pub fn new(entry: Entry, operation: Operation) -> (payload: Payload)
        ensures
            payload == (Payload { entry, operation }),
    {
        Payload { entry, operation }
    }

    pub fn entry(&self) -> (entry: Entry)
        ensures
            entry == self.entry,
    {
        self.entry
    }

    pub fn operation(&self) -> (operation: &Operation)
        ensures
            *operation == self.operation,
    {
        &self.operation
    }
}

impl Key for Entry {
    fn same(&self, other: &Self) -> (same: bool) {
        self.id == other.id && self.height == other.height
    }
}

} // verus!
