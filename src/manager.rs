use std::marker::PhantomData;
use vstd::prelude::*;

use crate::entity::Entity;

verus! {

/// The next generation of a slot: one more, wrapping to zero at the top of
/// the range (a known limitation: after a wrap a stale handle may alias a
/// live one).
pub open spec fn advance(g: usize) -> usize {
    if g == usize::MAX {
        0
    } else {
        (g + 1) as usize
    }
}

/// The abstract state of an allocator: per slot its current generation and
/// its free-list link, and the head of the free list.
pub struct AllocatorModel {
    pub generations: Seq<usize>,
    pub links: Seq<Option<usize>>,
    pub first_free: Option<usize>,
}

impl AllocatorModel {
    /// Number of slots ever created.
    pub open spec fn len(self) -> nat {
        self.generations.len()
    }

    pub open spec fn in_range(self, slot: Option<usize>) -> bool {
        match slot {
            Some(j) => j < self.len(),
            None => true,
        }
    }

    /// Both tables have one entry per slot, and every link and the head
    /// name an existing slot.
    pub open spec fn wf(self) -> bool {
        &&& self.links.len() == self.generations.len()
        &&& self.len() >= 1
        &&& self.in_range(self.first_free)
        &&& forall|i: int| 0 <= i < self.links.len() ==> self.in_range(#[trigger] self.links[i])
    }

    /// A handle is alive when its slot exists and holds its generation.
    pub open spec fn is_alive(self, index: usize, generation: usize) -> bool {
        index < self.len() && self.generations[index as int] == generation
    }

    /// The slot that the next allocation hands out: the head of the free
    /// list, or a new slot at the end.
    pub open spec fn next_index(self) -> int {
        match self.first_free {
            Some(i) => i as int,
            None => self.len() as int,
        }
    }

    /// The generation that the next allocation hands out.
    pub open spec fn next_generation(self) -> usize {
        match self.first_free {
            Some(i) => self.generations[i as int],
            None => 0,
        }
    }

    /// The state after an allocation: the head is popped off the free list
    /// (its link left as it was), or a slot of generation 0 is appended.
    pub open spec fn allocate(self) -> AllocatorModel {
        match self.first_free {
            Some(i) => AllocatorModel { first_free: self.links[i as int], ..self },
            None => AllocatorModel {
                generations: self.generations.push(0),
                links: self.links.push(None),
                first_free: None,
            },
        }
    }

    /// The state after deallocating a handle: unchanged unless it is alive;
    /// otherwise its slot is pushed onto the free list and its generation
    /// advanced.
    pub open spec fn deallocate(self, index: usize, generation: usize) -> AllocatorModel {
        if self.is_alive(index, generation) {
            AllocatorModel {
                generations: self.generations.update(
                    index as int,
                    advance(generation),
                ),
                links: self.links.update(index as int, self.first_free),
                first_free: Some(index),
            }
        } else {
            self
        }
    }
}

/// Issues, validates and retires handles of domain `T`.
pub struct EntityManager<T> {
    free_entities: Vec<Option<usize>>,
    generations: Vec<usize>,
    first_free: Option<usize>,
    phantom: PhantomData<T>,
}

impl<T> View for EntityManager<T> {
    type V = AllocatorModel;

    closed spec fn view(&self) -> AllocatorModel {
        AllocatorModel {
            generations: self.generations@,
            links: self.free_entities@,
            first_free: self.first_free,
        }
    }
}

impl<T> EntityManager<T> where T: Copy + Clone {
    /// The tables agree in length and every link names an existing slot.
    pub open spec fn wf(&self) -> bool {
        self@.wf()
    }

    /// An allocator with one free slot, index 0 at generation 0.
    pub fn new() -> (r: Self)
        ensures
            r.wf(),
            r@.generations == seq![0usize],
            r@.links == seq![None::<usize>],
            r@.first_free == Some(0usize),
    {
        let r = EntityManager {
            free_entities: vec![None],
            generations: vec![0],
            first_free: Some(0),
            phantom: PhantomData,
        };
        assert(r@.links =~= seq![None::<usize>]);
        assert(r@.generations =~= seq![0usize]);
        r
    }

    /// Number of slots ever created.
    pub fn slot_count(&self) -> (r: usize)
        ensures
            r == self@.len(),
    {
        self.generations.len()
    }

    /// The head of the free list: the slot that the next allocation reuses.
    pub fn first_free(&self) -> (r: Option<usize>)
        ensures
            r == self@.first_free,
    {
        self.first_free
    }

    /// Whether `e` holds the current generation of its slot. The slot must
    /// exist in this allocator.
    pub fn is_alive(&self, e: Entity<T>) -> (r: bool)
        requires
            e.index < self@.len(),
        ensures
            r == self@.is_alive(e.index, e.generation),
    {
        e.generation == self.generations[e.index]
    }

    /// Hands out a handle: the most recently freed slot at its current
    /// generation, or a new slot at generation 0.
    pub fn allocate(&mut self) -> (e: Entity<T>)
        requires
            old(self).wf(),
        ensures
            final(self).wf(),
            final(self)@ == old(self)@.allocate(),
            e.index == old(self)@.next_index(),
            e.generation == old(self)@.next_generation(),
    {
        if let Some(index) = self.first_free {
            self.first_free = self.free_entities[index];
            Entity::new(index, self.generations[index])
        } else {
            self.first_free = None;
            let index = self.free_entities.len();
            self.free_entities.push(None);
            self.generations.push(0);
            Entity::new(index, 0)
        }
    }

    /// Retires `e` if it is alive: its slot goes to the head of the free list
    /// and its generation advances. A handle that is not alive is ignored.
    pub fn deallocate(&mut self, e: Entity<T>)
        requires
            old(self).wf(),
            e.index < old(self)@.len(),
        ensures
            final(self).wf(),
            final(self)@ == old(self)@.deallocate(e.index, e.generation),
    {
        if self.is_alive(e) {
            let index = e.index;
            self.free_entities.set(index, self.first_free);
            self.first_free = Some(index);
            let g = self.generations[index];
            self.generations.set(index, g.wrapping_add(1));
        }
    }
}

} // verus!
