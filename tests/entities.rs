use daima::components::RenderComponent;
use daima::entity::{EntityError, EntityId, EntityManager};

#[test]
fn fresh_table_hands_out_new_slots_in_order() {
    let mut t = EntityManager::new();
    let a = t.create_entity();
    let b = t.create_entity();
    assert_eq!(a, EntityId { index: 0, generation: 1 });
    assert_eq!(b, EntityId { index: 1, generation: 1 });
}

#[test]
fn created_id_is_alive_until_destroyed() {
    let mut t = EntityManager::new();
    let a = t.create_entity();
    assert!(t.is_alive(a));
    assert_eq!(t.destroy_entity(a), Ok(()));
    assert!(!t.is_alive(a));
}

#[test]
fn stale_destroy_is_refused_and_changes_nothing() {
    let mut t = EntityManager::new();
    let a = t.create_entity();
    let b = t.create_entity();
    assert_eq!(t.destroy_entity(a), Ok(()));
    let a2 = t.create_entity();
    assert_eq!(t.destroy_entity(a), Err(EntityError::StaleHandle));
    assert!(t.is_alive(a2));
    assert!(t.is_alive(b));
    // the refused call queued nothing: the next create takes a fresh slot
    let c = t.create_entity();
    assert_eq!(c, EntityId { index: 2, generation: 1 });
}

#[test]
fn destroy_twice_is_stale() {
    let mut t = EntityManager::new();
    let a = t.create_entity();
    assert_eq!(t.destroy_entity(a), Ok(()));
    assert_eq!(t.destroy_entity(a), Err(EntityError::StaleHandle));
}

#[test]
fn unknown_index_is_stale() {
    let mut t = EntityManager::new();
    let unknown = EntityId { index: 7, generation: 1 };
    assert!(!t.is_alive(unknown));
    assert_eq!(t.destroy_entity(unknown), Err(EntityError::StaleHandle));
}

#[test]
fn destroy_then_create_reuses_slot_with_next_generation() {
    let mut t = EntityManager::new();
    let _a = t.create_entity();
    let b = t.create_entity();
    assert_eq!(t.destroy_entity(b), Ok(()));
    let n = t.create_entity();
    assert_eq!(n, EntityId { index: b.index, generation: b.generation + 1 });
    assert!(t.is_alive(n));
    assert!(!t.is_alive(b));
}

#[test]
fn freed_slots_are_reused_oldest_first() {
    let mut t = EntityManager::new();
    let a = t.create_entity();
    let b = t.create_entity();
    assert_eq!(t.destroy_entity(b), Ok(()));
    assert_eq!(t.destroy_entity(a), Ok(()));
    assert_eq!(t.create_entity(), EntityId { index: 1, generation: 2 });
    assert_eq!(t.create_entity(), EntityId { index: 0, generation: 2 });
    assert_eq!(t.create_entity(), EntityId { index: 2, generation: 1 });
}

#[test]
fn render_component_follows_the_entity() {
    let mut t = EntityManager::new();
    let a = t.create_entity();
    assert_eq!(t.render_component(a), Ok(None));
    assert_eq!(t.set_render_component(a, Some(RenderComponent {})), Ok(()));
    assert_eq!(t.render_component(a), Ok(Some(RenderComponent {})));
    assert_eq!(t.destroy_entity(a), Ok(()));
    assert_eq!(t.render_component(a), Err(EntityError::StaleHandle));
    assert_eq!(t.set_render_component(a, Some(RenderComponent {})), Err(EntityError::StaleHandle));
    let n = t.create_entity();
    assert_eq!(n.index, a.index);
    assert_eq!(t.render_component(n), Ok(None));
}
