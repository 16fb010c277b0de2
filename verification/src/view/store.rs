use crate::crypto::Digest;
use crate::data::Table;
use crate::view::Committee;
use vstd::prelude::*;

verus! {

/// The registry that resolves a view identifier to its committee.
///
/// An identifier is bound once: a later registration under the same
/// identifier leaves the first binding in place.
pub struct ViewStore {
    views: Table<Digest, Committee>,
}

impl View for ViewStore {
    type V = Map<Digest, Committee>;

    closed spec fn view(&self) -> Map<Digest, Committee> {
        self.views@
    }
}

impl ViewStore {
    pub closed spec fn wf(&self) -> bool {
        &&& self.views.wf()
        &&& forall|identifier: Digest| #[trigger]
            self.views@.dom().contains(identifier) ==> self.views@[identifier].wf()
    }

    pub fn new() -> (store: ViewStore)
        ensures
            store.wf(),
            store@ == Map::<Digest, Committee>::empty(),
    {
        ViewStore { views: Table::new() }
    }

    /// Binds `identifier` to `view` unless it is bound already; tells
    /// whether the binding is new.
    pub fn register(&mut self, identifier: Digest, view: Committee) -> (fresh: bool)
        requires
            old(self).wf(),
            view.wf(),
        ensures
            final(self).wf(),
            fresh == !old(self)@.dom().contains(identifier),
            final(self)@ == if fresh {
                old(self)@.insert(identifier, view)
            } else {
                old(self)@
            },
    {
        if self.views.contains_key(&identifier) {
            false
        } else {
            self.views.insert(identifier, view);
            true
        }
    }

    /// The committee registered under `identifier`, if any.
    pub fn get(&self, identifier: &Digest) -> (view: Option<Committee>)
        requires
            self.wf(),
        ensures
            view == if self@.dom().contains(*identifier) {
                Some(self@[*identifier])
            } else {
                None
            },
            view matches Some(view) ==> view.wf(),
    {
        match self.views.get(identifier) {
            Some(view) => Some(view.clone()),
            None => None,
        }
    }

    pub fn contains(&self, identifier: &Digest) -> (known: bool)
        requires
            self.wf(),
        ensures
            known == self@.dom().contains(*identifier),
    {
        self.views.contains_key(identifier)
    }

    /// Number of registered views.
    pub fn len(&self) -> (len: usize)
        requires
            self.wf(),
        ensures
            len == self@.dom().len(),
    {
        self.views.len()
    }

    /// Forgets every view.
    pub fn teardown(&mut self)
        ensures
            final(self).wf(),
            final(self)@ == Map::<Digest, Committee>::empty(),
    {
        self.views = Table::new();
    }
}

} // verus!
