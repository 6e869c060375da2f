use vstd::prelude::*;

use crate::component::stored;
use crate::manager::AllocatorModel;

verus! {

/// One call on an allocator, as far as its state is concerned.
pub enum Step {
    Allocate,
    Deallocate { index: usize, generation: usize },
}

/// The state after one step.
pub open spec fn apply(m: AllocatorModel, s: Step) -> AllocatorModel {
    match s {
        Step::Allocate => m.allocate(),
        Step::Deallocate { index, generation } => m.deallocate(index, generation),
    }
}

/// The state after a sequence of steps, taken in order.
pub open spec fn run(m: AllocatorModel, steps: Seq<Step>) -> AllocatorModel
    decreases steps.len(),
{
    if steps.len() == 0 {
        m
    } else {
        apply(run(m, steps.drop_last()), steps.last())
    }
}

/// Whether `s` would advance the generation of `slot` past the top of its
/// range, back to zero.
pub open spec fn wraps(m: AllocatorModel, s: Step, slot: usize) -> bool {
    match s {
        Step::Allocate => false,
        Step::Deallocate { index, generation } => index == slot && m.is_alive(index, generation)
            && generation == usize::MAX,
    }
}

/// No step of `steps`, in the state it meets, wraps the generation of `slot`.
pub open spec fn never_wraps(m: AllocatorModel, steps: Seq<Step>, slot: usize) -> bool
    decreases steps.len(),
{
    steps.len() == 0 || (never_wraps(m, steps.drop_last(), slot) && !wraps(
        run(m, steps.drop_last()),
        steps.last(),
        slot,
    ))
}

/// `free` lists the slots of the free list from its head, each once: the
/// slots reachable from `first_free` by following the links.
pub open spec fn free_list(m: AllocatorModel, free: Seq<usize>) -> bool {
    &&& free.no_duplicates()
    &&& forall|k: int| 0 <= k < free.len() ==> #[trigger] free[k] < m.len()
    &&& m.first_free == if free.len() == 0 { None } else { Some(free[0]) }
    &&& forall|k: int|
        0 <= k < free.len() ==> m.links[#[trigger] free[k] as int] == if k + 1 < free.len() {
            Some(free[k + 1])
        } else {
            None
        }
}

/// The free list after one step: the head popped by an allocation, a slot
/// pushed by a deallocation that takes effect.
pub open spec fn apply_free(m: AllocatorModel, free: Seq<usize>, s: Step) -> Seq<usize> {
    match s {
        Step::Allocate => if free.len() == 0 { free } else { free.drop_first() },
        Step::Deallocate { index, generation } => if m.is_alive(index, generation) {
            seq![index] + free
        } else {
            free
        },
    }
}

/// The free list after a sequence of steps.
pub open spec fn run_free(m: AllocatorModel, free: Seq<usize>, steps: Seq<Step>) -> Seq<usize>
    decreases steps.len(),
{
    if steps.len() == 0 {
        free
    } else {
        apply_free(run(m, steps.drop_last()), run_free(m, free, steps.drop_last()), steps.last())
    }
}

/// Whether `s` retires only a slot that is in use: a deallocation that takes
/// effect does not name a slot already on the free list.
pub open spec fn retires_in_use(m: AllocatorModel, free: Seq<usize>, s: Step) -> bool {
    match s {
        Step::Allocate => true,
        Step::Deallocate { index, generation } => m.is_alive(index, generation) ==> !free.contains(
            index,
        ),
    }
}

/// Every step of `steps`, in the state it meets, retires only slots in use.
pub open spec fn retires_only_in_use(m: AllocatorModel, free: Seq<usize>, steps: Seq<Step>) -> bool
    decreases steps.len(),
{
    steps.len() == 0 || (retires_only_in_use(m, free, steps.drop_last()) && retires_in_use(
        run(m, steps.drop_last()),
        run_free(m, free, steps.drop_last()),
        steps.last(),
    ))
}

/// The number of slots never decreases, and the state stays well formed,
/// over any sequence of allocations and deallocations.
pub proof fn lemma_slot_count_never_shrinks(m: AllocatorModel, steps: Seq<Step>)
    requires
        m.wf(),
    ensures
        run(m, steps).wf(),
        run(m, steps).len() >= m.len(),
    decreases steps.len(),
{
    if steps.len() > 0 {
        lemma_slot_count_never_shrinks(m, steps.drop_last());
        let p = run(m, steps.drop_last());
        let q = run(m, steps);
        match steps.last() {
            Step::Allocate => {
                if p.first_free is None {
                    assert forall|i: int| 0 <= i < q.links.len() implies q.in_range(
                        #[trigger] q.links[i],
                    ) by {
                        if i < p.links.len() {
                            assert(p.in_range(p.links[i]));
                        }
                    }
                } else {
                    assert(p.in_range(p.links[p.first_free->0 as int]));
                }
            },
            Step::Deallocate { index, generation } => {
                if p.is_alive(index, generation) {
                    assert forall|i: int| 0 <= i < q.links.len() implies q.in_range(
                        #[trigger] q.links[i],
                    ) by {
                        if i != index {
                            assert(p.in_range(p.links[i]));
                        }
                    }
                }
            },
        }
    }
}

/// A freshly allocated handle is alive (its index, like every handle's,
/// fits in a `usize`).
pub proof fn lemma_allocated_is_alive(m: AllocatorModel)
    requires
        m.wf(),
        m.next_index() <= usize::MAX,
    ensures
        m.allocate().is_alive(m.next_index() as usize, m.next_generation()),
{
}

/// Once an alive handle is deallocated it is no longer alive, and it never
/// becomes alive again, whatever follows, as long as its slot's generation
/// does not wrap around.
pub proof fn lemma_retired_stays_dead(
    m: AllocatorModel,
    index: usize,
    generation: usize,
    steps: Seq<Step>,
)
    requires
        m.wf(),
        m.is_alive(index, generation),
        generation < usize::MAX,
        never_wraps(m.deallocate(index, generation), steps, index),
    ensures
        !m.deallocate(index, generation).is_alive(index, generation),
        !run(m.deallocate(index, generation), steps).is_alive(index, generation),
{
    lemma_generation_stays_above(m.deallocate(index, generation), index, generation, steps);
}

/// Without a wrap, the generation of a slot only grows.
proof fn lemma_generation_stays_above(
    m: AllocatorModel,
    index: usize,
    generation: usize,
    steps: Seq<Step>,
)
    requires
        index < m.len(),
        m.generations[index as int] > generation,
        never_wraps(m, steps, index),
    ensures
        index < run(m, steps).len(),
        run(m, steps).generations[index as int] > generation,
    decreases steps.len(),
{
    if steps.len() > 0 {
        lemma_generation_stays_above(m, index, generation, steps.drop_last());
    }
}

/// A state whose free list is `free` keeps one after every step that
/// retires only slots in use.
proof fn lemma_free_list_kept(m: AllocatorModel, free: Seq<usize>, steps: Seq<Step>)
    requires
        m.wf(),
        free_list(m, free),
        retires_only_in_use(m, free, steps),
    ensures
        free_list(run(m, steps), run_free(m, free, steps)),
    decreases steps.len(),
{
    if steps.len() > 0 {
        lemma_free_list_kept(m, free, steps.drop_last());
        lemma_slot_count_never_shrinks(m, steps.drop_last());
        let p = run(m, steps.drop_last());
        let pf = run_free(m, free, steps.drop_last());
        let q = run(m, steps);
        let qf = run_free(m, free, steps);
        match steps.last() {
            Step::Allocate => {
                if pf.len() > 0 {
                    assert(qf =~= pf.drop_first());
                    assert forall|k: int| 0 <= k < qf.len() implies q.links[#[trigger] qf[k] as int]
                        == if k + 1 < qf.len() {
                        Some(qf[k + 1])
                    } else {
                        None
                    } by {
                        assert(qf[k] == pf[k + 1]);
                    }
                    assert(q.first_free == p.links[pf[0] as int]);
                }
            },
            Step::Deallocate { index, generation } => {
                if p.is_alive(index, generation) {
                    assert(!pf.contains(index));
                    assert(qf =~= seq![index] + pf);
                    assert forall|a: int, b: int|
                        0 <= a < qf.len() && 0 <= b < qf.len() && a != b implies qf[a] != qf[b] by {
                        if a > 0 && b > 0 {
                            assert(qf[a] == pf[a - 1] && qf[b] == pf[b - 1]);
                        } else if a == 0 {
                            assert(qf[b] == pf[b - 1]);
                        } else {
                            assert(qf[a] == pf[a - 1]);
                        }
                    }
                    assert forall|k: int| 0 <= k < qf.len() implies q.links[#[trigger] qf[k] as int]
                        == if k + 1 < qf.len() {
                        Some(qf[k + 1])
                    } else {
                        None
                    } by {
                        if k > 0 {
                            assert(qf[k] == pf[k - 1]);
                            assert(pf[k - 1] != index);
                        }
                    }
                    assert forall|k: int| 0 <= k < qf.len() implies #[trigger] qf[k] < q.len() by {
                        if k > 0 {
                            assert(qf[k] == pf[k - 1]);
                        }
                    }
                }
            },
        }
    }
}

/// A new allocator's free list is its one slot.
pub proof fn lemma_new_free_list(m: AllocatorModel)
    requires
        m.generations == seq![0usize],
        m.links == seq![None::<usize>],
        m.first_free == Some(0usize),
    ensures
        free_list(m, seq![0usize]),
{
}

/// Once `slot` has been handed out at `generation`, its generation never
/// falls below that, and exceeds it whenever the slot is free.
proof fn lemma_occupant_generation(
    m: AllocatorModel,
    free: Seq<usize>,
    steps: Seq<Step>,
    slot: usize,
    generation: usize,
)
    requires
        m.wf(),
        free_list(m, free),
        retires_only_in_use(m, free, steps),
        never_wraps(m, steps, slot),
        slot < m.len(),
        m.generations[slot as int] >= generation,
        free.contains(slot) ==> m.generations[slot as int] > generation,
    ensures
        slot < run(m, steps).len(),
        run(m, steps).generations[slot as int] >= generation,
        run_free(m, free, steps).contains(slot) ==> run(m, steps).generations[slot as int]
            > generation,
    decreases steps.len(),
{
    if steps.len() > 0 {
        lemma_occupant_generation(m, free, steps.drop_last(), slot, generation);
        lemma_free_list_kept(m, free, steps.drop_last());
        let pf = run_free(m, free, steps.drop_last());
        let qf = run_free(m, free, steps);
        match steps.last() {
            Step::Allocate => {
                if pf.len() > 0 && qf.contains(slot) {
                    let k = choose|k: int| 0 <= k < qf.len() && qf[k] == slot;
                    assert(pf[k + 1] == slot);
                }
            },
            Step::Deallocate { index, generation: g } => {
                if run(m, steps.drop_last()).is_alive(index, g) && qf.contains(slot) && index
                    != slot {
                    let k = choose|k: int| 0 <= k < qf.len() && qf[k] == slot;
                    assert((seq![index] + pf)[k] == slot);
                    assert(pf[k - 1] == slot);
                }
            },
        }
    }
}

/// Each allocation that reuses a slot yields a greater generation than the
/// allocation before it that handed out the same slot. This holds while the
/// free list stays a list: no deallocation that takes effect names a slot
/// already free (which a handle made by hand for a free slot could do), and
/// the slot's generation does not wrap around.
pub proof fn lemma_reuse_is_fresh(m: AllocatorModel, free: Seq<usize>, steps: Seq<Step>)
    requires
        m.wf(),
        m.next_index() <= usize::MAX,
        free_list(m, free),
        retires_only_in_use(m.allocate(), apply_free(m, free, Step::Allocate), steps),
        never_wraps(m.allocate(), steps, m.next_index() as usize),
    ensures
        run(m.allocate(), steps).next_index() == m.next_index() ==> run(
            m.allocate(),
            steps,
        ).next_generation() > m.next_generation(),
{
    let slot = m.next_index() as usize;
    let m1 = m.allocate();
    let f1 = apply_free(m, free, Step::Allocate);
    assert(run(m, seq![Step::Allocate]) == m1) by {
        assert(seq![Step::Allocate].drop_last() =~= Seq::<Step>::empty());
    }
    assert(retires_only_in_use(m, free, seq![Step::Allocate])) by {
        assert(seq![Step::Allocate].drop_last() =~= Seq::<Step>::empty());
        assert(retires_only_in_use(m, free, Seq::<Step>::empty()));
    }
    assert(run_free(m, free, seq![Step::Allocate]) == f1) by {
        assert(seq![Step::Allocate].drop_last() =~= Seq::<Step>::empty());
    }
    lemma_free_list_kept(m, free, seq![Step::Allocate]);
    lemma_slot_count_never_shrinks(m, seq![Step::Allocate]);
    if free.len() > 0 {
        assert(f1 =~= free.drop_first());
        if f1.contains(slot) {
            let k = choose|k: int| 0 <= k < f1.len() && f1[k] == slot;
            assert(free[k + 1] == free[0]);
        }
    }
    lemma_occupant_generation(m1, f1, steps, slot, m.next_generation());
    lemma_slot_count_never_shrinks(m1, steps);
    let f = run(m1, steps);
    if f.next_index() == slot as int {
        lemma_free_list_kept(m1, f1, steps);
        if f.first_free is Some {
            assert(run_free(m1, f1, steps)[0] == slot);
        }
    }
}

/// Deallocating the same handle twice leaves the state that deallocating it
/// once does.
pub proof fn lemma_deallocate_idempotent(m: AllocatorModel, index: usize, generation: usize)
    ensures
        m.deallocate(index, generation).deallocate(index, generation) == m.deallocate(
            index,
            generation,
        ),
{
}

/// A value stored for a handle reads back from its slot after the handle
/// has been deallocated and is no longer alive: the store does not depend on
/// liveness.
pub proof fn lemma_store_ignores_liveness<V>(
    before: Seq<V>,
    after: Seq<V>,
    v: V,
    m: AllocatorModel,
    index: usize,
    generation: usize,
)
    requires
        stored(before, after, index as int, v),
    ensures
        !m.deallocate(index, generation).is_alive(index, generation),
        index < after.len(),
        after[index as int] == v,
{
}

} // verus!
