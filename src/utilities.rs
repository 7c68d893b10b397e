//! Stable-handle storage.
use core::marker::PhantomData;
use vstd::prelude::*;

verus! {

/// A handle to a value held by a [`Storage`].
pub struct Id<T>(usize, PhantomData<T>);

impl<T> Id<T> {
    /// The slot number of the handle.
    pub closed spec fn slot(&self) -> nat {
        self.0 as nat
    }

    pub fn index(&self) -> (r: usize)
        ensures
            r == self.slot(),
    {
        self.0
    }

    /// The handle of slot `index`.
    pub fn from_index(index: usize) -> (r: Id<T>)
        ensures
            r.slot() == index,
    {
        Id(index, PhantomData)
    }
}

impl<T> Clone for Id<T> {
    fn clone(&self) -> (r: Self)
        ensures
            r.slot() == self.slot(),
    {
        Id(self.0, PhantomData)
    }
}

impl<T> Copy for Id<T> {

}

impl<T> PartialEq for Id<T> {
    fn eq(&self, other: &Self) -> (r: bool) {
        self.0 == other.0
    }
}

impl<T> vstd::std_specs::cmp::PartialEqSpecImpl for Id<T> {
    open spec fn obeys_eq_spec() -> bool {
        true
    }

    open spec fn eq_spec(&self, other: &Self) -> bool {
        self.slot() == other.slot()
    }
}

/// Values under stable handles. A handle stays valid until its value is removed; removing a
/// value leaves the other handles as they were.
pub struct Storage<T> {
    items: Vec<Option<T>>,
}

impl<T> View for Storage<T> {
    /// Slot `i` holds the value of the handle of slot `i`, or `None` once removed.
    type V = Seq<Option<T>>;

    closed spec fn view(&self) -> Seq<Option<T>> {
        self.items@
    }
}

impl<T> Storage<T> {
    /// `id` names a value that is present.
    pub open spec fn valid(&self, id: Id<T>) -> bool {
        id.slot() < self@.len() && self@[id.slot() as int] is Some
    }

    pub fn new() -> (r: Storage<T>)
        ensures
            r@ == Seq::<Option<T>>::empty(),
    {
        Storage { items: Vec::new() }
    }

    /// Stores `value` under a fresh handle.
    pub fn add(&mut self, value: T) -> (r: Id<T>)
        requires
            old(self)@.len() < usize::MAX,
        ensures
            final(self)@ == old(self)@.push(Some(value)),
            r.slot() == old(self)@.len(),
    {
        let index = self.items.len();
        self.items.push(Some(value));
        Id(index, PhantomData)
    }

    /// Takes out the value of a valid handle.
    pub fn remove(&mut self, id: Id<T>) -> (r: T)
        requires
            old(self).valid(id),
        ensures
            r == old(self)@[id.slot() as int]->Some_0,
            final(self)@ == old(self)@.update(id.slot() as int, None),
    {
        let mut taken: Option<T> = None;
        std::mem::swap(&mut self.items[id.0], &mut taken);
        taken.unwrap()
    }

    pub fn is_valid(&self, id: &Id<T>) -> (r: bool)
        ensures
            r == self.valid(*id),
    {
        id.0 < self.items.len() && self.items[id.0].is_some()
    }

    pub fn get(&self, id: &Id<T>) -> (r: &T)
        requires
            self.valid(*id),
        ensures
            *r == self@[id.slot() as int]->Some_0,
    {
        self.items[id.0].as_ref().unwrap()
    }

    pub fn get_mut(&mut self, id: &Id<T>) -> (r: &mut T)
        requires
            old(self).valid(*id),
        ensures
            *r == old(self)@[id.slot() as int]->Some_0,
            final(self)@ == old(self)@.update(id.slot() as int, Some(*final(r))),
    {
        self.items[id.0].as_mut().unwrap()
    }

    /// The handles of the present values, in the order they were added.
    pub fn as_vec(&self) -> (r: Vec<Id<T>>)
        ensures
            forall|k: int| 0 <= k < r@.len() ==> self.valid(#[trigger] r@[k]),
            forall|k: int, l: int| 0 <= k < l < r@.len() ==> r@[k].slot() < r@[l].slot(),
            forall|s: int|
                0 <= s < self@.len() && self@[s] is Some ==> exists|k: int|
                    0 <= k < r@.len() && #[trigger] r@[k].slot() == s,
    {
        let mut r: Vec<Id<T>> = Vec::new();
        let mut i: usize = 0;
        while i < self.items.len()
            invariant
                i <= self@.len(),
                forall|k: int| 0 <= k < r@.len() ==> self.valid(#[trigger] r@[k]),
                forall|k: int| 0 <= k < r@.len() ==> #[trigger] r@[k].slot() < i,
                forall|k: int, l: int| 0 <= k < l < r@.len() ==> r@[k].slot() < r@[l].slot(),
                forall|s: int|
                    0 <= s < i && self@[s] is Some ==> exists|k: int|
                        0 <= k < r@.len() && #[trigger] r@[k].slot() == s,
            decreases self@.len() - i,
        {
            let ghost old_r = r@;
            if self.items[i].is_some() {
                let id: Id<T> = Id(i, PhantomData);
                r.push(id);
            }
            proof {
                assert forall|s: int|
                    0 <= s < i + 1 && self@[s] is Some implies exists|k: int|
                        0 <= k < r@.len() && #[trigger] r@[k].slot() == s by {
                    if s < i {
                        let k = choose|k: int| 0 <= k < old_r.len() && #[trigger] old_r[k].slot() == s;
                        assert(r@[k] == old_r[k]);
                    } else {
                        assert(r@[r@.len() - 1].slot() == s);
                    }
                }
            }
            i = i + 1;
        }
        r
    }

    /// Number of slots ever handed out, removed ones included.
    pub fn slot_count(&self) -> (r: usize)
        ensures
            r == self@.len(),
    {
        self.items.len()
    }
}

} // verus!
