use vstd::prelude::*;

verus! {

/// A vector whose first element sits at position `shift` rather than 0.
pub struct ShiftVec<T> {
    shift: usize,
    items: Vec<T>,
}

impl<T> ShiftVec<T> {
    /// Position of the first element.
    pub closed spec fn shift(&self) -> nat {
        self.shift as nat
    }

    /// The elements, in order; element `i` sits at position `shift() + i`.
    pub closed spec fn items(&self) -> Seq<T> {
        self.items@
    }

    /// One past the last occupied position.
    pub open spec fn spec_len(&self) -> nat {
        self.shift() + self.items().len()
    }

    /// The element at absolute position `index`.
    pub open spec fn spec_index(&self, index: int) -> T
        recommends
            self.shift() <= index < self.spec_len(),
    {
        self.items()[index - self.shift()]
    }

    /// Every occupied position fits in a `usize`.
    pub closed spec fn wf(&self) -> bool {
        self.shift + self.items@.len() <= usize::MAX
    }

    pub fn new(shift: usize) -> (vec: Self)
        ensures
            vec.wf(),
            vec.shift() == shift,
            vec.items() == Seq::<T>::empty(),
    {
        ShiftVec { shift, items: Vec::new() }
    }

    pub fn len(&self) -> (len: usize)
        requires
            self.wf(),
        ensures
            len == self.spec_len(),
    {
        self.shift + self.items.len()
    }

    pub fn push(&mut self, item: T)
        requires
            old(self).wf(),
            old(self).spec_len() < usize::MAX,
        ensures
            final(self).wf(),
            final(self).shift() == old(self).shift(),
            final(self).items() == old(self).items().push(item),
    {
        self.items.push(item);
    }

    pub fn get(&self, index: usize) -> (item: &T)
        requires
            self.wf(),
            self.shift() <= index < self.spec_len(),
        ensures
            *item == self.spec_index(index as int),
    {
        &self.items[index - self.shift]
    }
}

} // verus!
