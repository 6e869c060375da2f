//! Generational entity handles, a slot allocator that issues and retires
//! them, and a dense per-slot value store keyed by them.
mod component;
mod entity;
mod laws;
mod manager;

pub use component::{stored, Component};
pub use entity::Entity;
pub use laws::{
    apply, apply_free, free_list, lemma_allocated_is_alive, lemma_deallocate_idempotent,
    lemma_new_free_list, lemma_retired_stays_dead, lemma_reuse_is_fresh,
    lemma_slot_count_never_shrinks, lemma_store_ignores_liveness, never_wraps, retires_in_use,
    retires_only_in_use, run, run_free, wraps, Step,
};
pub use manager::{advance, AllocatorModel, EntityManager};
