use std::marker::PhantomData;
use vstd::prelude::*;

verus! {

/// A copyable handle: a slot index and the generation of the slot it was
/// issued for. `T` is a domain tag that keeps handles of one kind of entity
/// away from allocators and stores of another; it costs nothing at run time.
#[derive(Copy)]
pub struct Entity<T> {
    pub index: usize,
    pub generation: usize,
    pub phantom: PhantomData<T>,
}

impl<T> Clone for Entity<T> {
    fn clone(&self) -> (r: Self)
        ensures
            r == *self,
    {
        Entity { index: self.index, generation: self.generation, phantom: PhantomData }
    }
}

impl<T> Entity<T> where T: Copy + Clone {
    /// The handle for `generation` of slot `index`.
    pub fn new(index: usize, generation: usize) -> (r: Self)
        ensures
            r.index == index,
            r.generation == generation,
    {
        Entity { index: index, generation: generation, phantom: PhantomData }
    }
}

} // verus!
