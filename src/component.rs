use std::marker::PhantomData;
use vstd::prelude::*;

use crate::entity::Entity;

verus! {

/// The value sequence after storing `v` at `index`: first padded to cover
/// `index` (the padding entries are `V::default()`, left open here), then
/// overwritten there.
pub open spec fn stored<V>(old_values: Seq<V>, new_values: Seq<V>, index: int, v: V) -> bool {
    &&& new_values.len() == if old_values.len() > index { old_values.len() as int } else { index + 1 }
    &&& new_values[index] == v
    &&& forall|j: int| 0 <= j < old_values.len() && j != index ==> new_values[j] == old_values[j]
}

/// Dense storage of one `V` per slot index, for handles of domain `T`.
///
/// The store knows nothing of liveness: a value stays at its slot across
/// deallocation and reuse of that slot until a caller overwrites it, so a
/// new occupant may read its predecessor's value.
pub struct Component<V, T> {
    values: Vec<V>,
    phantom: PhantomData<T>,
}

impl<V, T> View for Component<V, T> {
    type V = Seq<V>;

    closed spec fn view(&self) -> Seq<V> {
        self.values@
    }
}

impl<V, T> Component<V, T> where T: Copy + Clone, V: Default {
    /// An empty store.
    pub fn new() -> (r: Self)
        ensures
            r@ == Seq::<V>::empty(),
    {
        Component { values: Vec::new(), phantom: PhantomData }
    }

    /// Appends default values until there are at least `new_len`.
    fn resize(&mut self, new_len: usize)
        ensures
            final(self)@.len() == if old(self)@.len() >= new_len { old(self)@.len() } else { new_len as nat },
            forall|j: int| 0 <= j < old(self)@.len() ==> final(self)@[j] == old(self)@[j],
            forall|j: int| old(self)@.len() <= j < final(self)@.len()
                ==> call_ensures(V::default, (), #[trigger] final(self)@[j]),
    {
        let len = self.values.len();
        if len < new_len {
            let mut k: usize = 0;
            while k < new_len - len
                invariant
                    len == old(self)@.len(),
                    len < new_len,
                    k <= new_len - len,
                    self@.len() == len + k,
                    forall|j: int| 0 <= j < len ==> self@[j] == old(self)@[j],
                    forall|j: int| len <= j < self@.len()
                        ==> call_ensures(V::default, (), #[trigger] self@[j]),
                decreases new_len - len - k,
            {
                self.values.push(V::default());
                k = k + 1;
            }
        }
    }

    /// Stores `v` at the slot of `e`, growing the store with default values
    /// as needed. Liveness of `e` is not consulted. The index must leave room
    /// for a length one past it.
    pub fn set(&mut self, e: Entity<T>, v: V)
        requires
            e.index < usize::MAX,
        ensures
            stored(old(self)@, final(self)@, e.index as int, v),
            forall|j: int| old(self)@.len() <= j < final(self)@.len() && j != e.index
                ==> call_ensures(V::default, (), #[trigger] final(self)@[j]),
    {
        self.resize(e.index + 1);
        self.values.set(e.index, v);
    }

    /// The value at the slot of `e`, whatever handle last wrote it.
    pub fn get(&self, e: Entity<T>) -> (r: &V)
        requires
            e.index < self@.len(),
        ensures
            *r == self@[e.index as int],
    {
        &self.values[e.index]
    }

    /// Mutable access to the value at the slot of `e`.
    pub fn get_mut(&mut self, e: Entity<T>) -> (r: &mut V)
        requires
            e.index < old(self)@.len(),
        ensures
            *r == old(self)@[e.index as int],
            final(self)@ == old(self)@.update(e.index as int, *final(r)),
    {
        &mut self.values[e.index]
    }
}

} // verus!
