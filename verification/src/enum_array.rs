use std::marker::PhantomData;
use vstd::prelude::*;

verus! {

/// An enum whose variants are numbered `0 .. COUNT` in declaration order.
pub trait EnumDiscriminant: Sized {
    /// The number of variants.
    const COUNT: usize;

    /// The index of this value's variant. An impl gives its numbering here; the default
    /// numbers every value 0, which is right only for an enum with one variant.
    open spec fn index_of(&self) -> nat {
        0
    }

    /// Returns the index of this value's variant, which is below `COUNT`.
    fn discriminant(&self) -> (d: usize)
        ensures
            d == self.index_of(),
            d < Self::COUNT,
    ;
}

/// One value of type `T` for each variant of the enum `E`.
#[derive(Debug)]
pub struct EnumArray<T, E: EnumDiscriminant> {
    items: Vec<T>,
    marker: PhantomData<E>,
}

impl<T, E: EnumDiscriminant> View for EnumArray<T, E> {
    type V = Seq<T>;

    /// The values, in variant order.
    closed spec fn view(&self) -> Seq<T> {
        self.items@
    }
}

impl<T, E: EnumDiscriminant> EnumArray<T, E> {
    /// Holds one value per variant.
    pub open spec fn wf(&self) -> bool {
        self@.len() == E::COUNT
    }

    /// The value stored for the variant of `key`.
    pub open spec fn spec_get(&self, key: &E) -> T {
        self@[key.index_of() as int]
    }

    /// Builds the array from one value per variant, in variant order.
    pub fn from_vec(items: Vec<T>) -> (arr: Self)
        requires
            items.len() == E::COUNT,
        ensures
            arr@ == items@,
            arr.wf(),
    {
        EnumArray { items, marker: PhantomData }
    }

    /// The number of entries, one per variant.
    pub fn len(&self) -> (n: usize)
        ensures
            n == self@.len(),
    {
        self.items.len()
    }

    /// The value stored for the variant of `key`.
    pub fn index(&self, key: &E) -> (r: &T)
        requires
            self.wf(),
        ensures
            key.index_of() < E::COUNT,
            *r == self.spec_get(key),
    {
        let d = key.discriminant();
        &self.items[d]
    }

    /// The value stored for the variant of `key`, to change in place.
    pub fn index_mut(&mut self, key: &E) -> (r: &mut T)
        requires
            old(self).wf(),
        ensures
            key.index_of() < E::COUNT,
            *r == old(self).spec_get(key),
            final(self)@ == old(self)@.update(key.index_of() as int, *final(r)),
            final(self).wf(),
    {
        let d = key.discriminant();
        &mut self.items[d]
    }

    /// The value stored at position `i`, in variant order.
    pub fn get_at(&self, i: usize) -> (r: &T)
        requires
            i < self@.len(),
        ensures
            *r == self@[i as int],
    {
        &self.items[i]
    }

    /// Replaces the value stored for the variant of `key`.
    pub fn set(&mut self, key: &E, value: T)
        requires
            old(self).wf(),
        ensures
            key.index_of() < E::COUNT,
            final(self)@ == old(self)@.update(key.index_of() as int, value),
            final(self).wf(),
    {
        let d = key.discriminant();
        self.items.set(d, value);
    }
}

} // verus!
