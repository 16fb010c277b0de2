use crate::view::Committee;
use vstd::prelude::*;

verus! {

/// The step that an install describes: from `source` to `destination`,
/// with `tail` the view that the pending churn beyond it leads to.
pub struct Transition {
    source: Committee,
    destination: Committee,
    tail: Option<Committee>,
}

impl Clone for Transition {
    fn clone(&self) -> (copy: Self)
        ensures
            copy == *self,
    {
        Transition {
            source: self.source.clone(),
            destination: self.destination.clone(),
            tail: match &self.tail {
                Some(tail) => Some(tail.clone()),
                None => None,
            },
        }
    }
}

impl Transition {
    pub closed spec fn spec_source(&self) -> Committee {
        self.source
    }

    pub closed spec fn spec_destination(&self) -> Committee {
        self.destination
    }

    pub closed spec fn spec_tail(&self) -> Option<Committee> {
        self.tail
    }

    /// A transition is tailless when no churn is pending beyond its
    /// destination.
    pub open spec fn spec_tailless(&self) -> bool {
        self.spec_tail() is None
    }

    /// Heights strictly rise from source to destination to tail.
    pub open spec fn wf(&self) -> bool {
        &&& self.spec_source().wf()
        &&& self.spec_destination().wf()
        &&& self.spec_source().spec_height() < self.spec_destination().spec_height()
        &&& self.spec_tail() matches Some(tail) ==> tail.wf()
            && self.spec_destination().spec_height() < tail.spec_height()
    }

    /// Holds exactly when the heights strictly rise.
    pub fn new(source: Committee, destination: Committee, tail: Option<Committee>) -> (transition:
        Option<Transition>)
        requires
            source.wf(),
            destination.wf(),
            tail matches Some(tail) ==> tail.wf(),
        ensures
            transition is Some <==> source.spec_height() < destination.spec_height() && (
            tail matches Some(tail) ==> destination.spec_height() < tail.spec_height()),
            transition matches Some(transition) ==> transition.wf() && transition.spec_source()
                == source && transition.spec_destination() == destination
                && transition.spec_tail() == tail,
    {
        let rising = source.height() < destination.height() && match &tail {
            Some(tail) => destination.height() < tail.height(),
            None => true,
        };
        if rising {
            Some(Transition { source, destination, tail })
        } else {
            None
        }
    }

    pub fn source(&self) -> (source: &Committee)
        ensures
            *source == self.spec_source(),
    {
        &self.source
    }

    pub fn destination(&self) -> (destination: &Committee)
        ensures
            *destination == self.spec_destination(),
    {
        &self.destination
    }

    pub fn tail(&self) -> (tail: &Option<Committee>)
        ensures
            *tail == self.spec_tail(),
    {
        &self.tail
    }

    pub fn tailless(&self) -> (tailless: bool)
        ensures
            tailless == self.spec_tailless(),
    {
        self.tail.is_none()
    }
}

} // verus!
