use ecs::{Component, Entity, EntityManager};

#[test]
fn test_em() {
    type T = usize;
    let mut em = EntityManager::<T>::new();
    let e1 = em.allocate();
    assert_eq!(e1.index, 0);
    assert_eq!(e1.generation, 0);
    assert!(em.is_alive(e1));

    let e2 = em.allocate();
    assert_eq!(e2.index, 1);
    assert_eq!(e2.generation, 0);
    assert!(em.is_alive(e2));

    let e3 = em.allocate();
    assert_eq!(e3.index, 2);
    assert_eq!(e3.generation, 0);
    assert!(em.is_alive(e3));

    assert_eq!(em.slot_count(), 3);

    em.deallocate(e2);

    assert!(em.is_alive(e1));
    assert!(!em.is_alive(e2));
    assert!(em.is_alive(e3));

    em.deallocate(e1);

    assert!(!em.is_alive(e1));
    assert!(!em.is_alive(e2));
    assert!(em.is_alive(e3));

    assert_eq!(em.slot_count(), 3);

    assert_eq!(em.first_free(), Some(0));

    let e1 = em.allocate();
    assert_eq!(e1.index, 0);
    assert_eq!(e1.generation, 1);
    assert!(em.is_alive(e1));

    assert_eq!(em.first_free(), Some(1));
}

#[test]
fn test_component() {
    let mut em = EntityManager::<u8>::new();
    let mut c = Component::<u32, u8>::new();
    let e = em.allocate();
    c.set(e, 7);
    assert_eq!(*c.get(e), 7);
}

#[test]
fn new_manager_has_one_free_slot() {
    let em = EntityManager::<u8>::new();
    assert_eq!(em.slot_count(), 1);
    assert_eq!(em.first_free(), Some(0));
}

#[test]
fn entity_new_keeps_fields() {
    let e = Entity::<u8>::new(4, 9);
    assert_eq!(e.index, 4);
    assert_eq!(e.generation, 9);
    let copy = e;
    assert_eq!(copy.index, e.index);
    assert_eq!(copy.generation, e.generation);
}

#[test]
fn scenario_reuse_of_first_freed_slot() {
    let mut em = EntityManager::<u8>::new();
    let e1 = em.allocate();
    let e2 = em.allocate();
    let e3 = em.allocate();
    assert_eq!((e1.index, e1.generation), (0, 0));
    assert_eq!((e2.index, e2.generation), (1, 0));
    assert_eq!((e3.index, e3.generation), (2, 0));
    em.deallocate(e2);
    assert!(em.is_alive(e1));
    assert!(!em.is_alive(e2));
    assert!(em.is_alive(e3));
    em.deallocate(e1);
    let e4 = em.allocate();
    assert_eq!(e4.index, 0);
    assert_eq!(e4.generation, 1);
    assert_eq!(em.first_free(), Some(1));
    let e5 = em.allocate();
    assert_eq!((e5.index, e5.generation), (1, 1));
    assert_eq!(em.first_free(), None);
    assert_eq!(em.slot_count(), 3);
}

#[test]
fn slot_count_never_shrinks() {
    let mut em = EntityManager::<u8>::new();
    let mut last = em.slot_count();
    let mut held = Vec::new();
    for round in 0..20usize {
        if round % 3 == 2 {
            if let Some(e) = held.pop() {
                em.deallocate(e);
            }
        } else {
            held.push(em.allocate());
        }
        let now = em.slot_count();
        assert!(now >= last);
        last = now;
    }
    assert_eq!(last, 8);
}

#[test]
fn reuse_yields_greater_generation() {
    let mut em = EntityManager::<u8>::new();
    let mut e = em.allocate();
    for expected in 1..6usize {
        em.deallocate(e);
        let next = em.allocate();
        assert_eq!(next.index, e.index);
        assert_eq!(next.generation, expected);
        assert!(next.generation > e.generation);
        e = next;
    }
}

#[test]
fn retired_handle_stays_dead_after_reuse() {
    let mut em = EntityManager::<u8>::new();
    let old = em.allocate();
    assert!(em.is_alive(old));
    em.deallocate(old);
    assert!(!em.is_alive(old));
    let new = em.allocate();
    assert_eq!(new.index, old.index);
    assert!(em.is_alive(new));
    assert!(!em.is_alive(old));
    em.deallocate(new);
    let again = em.allocate();
    assert_eq!(again.generation, 2);
    assert!(!em.is_alive(old));
    assert!(!em.is_alive(new));
}

#[test]
fn double_deallocate_is_ignored() {
    let mut em = EntityManager::<u8>::new();
    let a = em.allocate();
    let b = em.allocate();
    em.deallocate(a);
    let head = em.first_free();
    let count = em.slot_count();
    em.deallocate(a);
    assert_eq!(em.first_free(), head);
    assert_eq!(em.slot_count(), count);
    assert!(em.is_alive(b));
    let c = em.allocate();
    assert_eq!((c.index, c.generation), (0, 1));
    assert_eq!(em.first_free(), None);
    let d = em.allocate();
    assert_eq!((d.index, d.generation), (2, 0));
}

#[test]
fn stale_handle_deallocate_is_ignored() {
    let mut em = EntityManager::<u8>::new();
    let a = em.allocate();
    em.deallocate(a);
    let b = em.allocate();
    em.deallocate(a);
    assert!(em.is_alive(b));
    assert_eq!(em.first_free(), None);
}

#[test]
fn freed_slots_reused_last_freed_first() {
    let mut em = EntityManager::<u8>::new();
    let a = em.allocate();
    let b = em.allocate();
    let c = em.allocate();
    em.deallocate(a);
    em.deallocate(c);
    em.deallocate(b);
    assert_eq!(em.allocate().index, 1);
    assert_eq!(em.allocate().index, 2);
    assert_eq!(em.allocate().index, 0);
    assert_eq!(em.allocate().index, 3);
}

#[test]
fn store_value_survives_deallocation() {
    let mut em = EntityManager::<u8>::new();
    let mut c = Component::<String, u8>::new();
    let e = em.allocate();
    c.set(e, String::from("kept"));
    em.deallocate(e);
    assert!(!em.is_alive(e));
    assert_eq!(c.get(e), "kept");
    let reused = em.allocate();
    assert_eq!(c.get(reused), "kept");
}

#[test]
fn set_pads_with_defaults() {
    let mut c = Component::<u32, u8>::new();
    c.set(Entity::new(3, 0), 11);
    assert_eq!(*c.get(Entity::new(0, 0)), 0);
    assert_eq!(*c.get(Entity::new(2, 0)), 0);
    assert_eq!(*c.get(Entity::new(3, 0)), 11);
    c.set(Entity::new(1, 5), 4);
    assert_eq!(*c.get(Entity::new(1, 0)), 4);
    assert_eq!(*c.get(Entity::new(3, 0)), 11);
}

#[test]
fn get_mut_writes_through() {
    let mut c = Component::<u32, u8>::new();
    let e = Entity::new(1, 0);
    c.set(e, 2);
    *c.get_mut(e) += 40;
    assert_eq!(*c.get(e), 42);
    assert_eq!(*c.get(Entity::new(0, 0)), 0);
}
