use wgpu_owo::config::MAX_ENTITIES;
use wgpu_owo::ecs::component::{alive_in_both, ComponentStorage};
use wgpu_owo::ecs::entity::{Entity, EntityManager};
use wgpu_owo::ecs::query::QueryIter;
use wgpu_owo::ecs::world::{kill_entity, Components};
use wgpu_owo::error::EcsError;

#[derive(Debug, Clone, Copy, Default, PartialEq)]
struct Pos {
    x: f32,
    y: f32,
}

#[test]
fn component_insert_and_get_component() {
    let mut storage = ComponentStorage::<Pos>::new();
    let entity = Entity::new(0);
    let position = Pos { x: 10.0, y: 20.0 };

    storage.insert(entity, position).unwrap();

    let result = storage.get(entity).unwrap();

    assert_eq!(result.x, 10.0);
    assert_eq!(result.y, 20.0);
}

#[test]
fn spawn_hands_out_fresh_ids_in_order_until_full() {
    let mut manager = EntityManager::new();
    for i in 0..MAX_ENTITIES {
        assert_eq!(manager.spawn(), Some(Entity::new(i)));
    }
    assert_eq!(manager.spawn(), None);
    assert_eq!(manager.spawn(), None);
}

#[test]
fn despawned_id_is_reused_last_in_first_out() {
    let mut manager = EntityManager::new();
    let a = manager.spawn().unwrap();
    let b = manager.spawn().unwrap();
    let c = manager.spawn().unwrap();
    assert_eq!((a.index, b.index, c.index), (0, 1, 2));
    manager.despawn(a).unwrap();
    manager.despawn(c).unwrap();
    assert_eq!(manager.spawn(), Some(c));
    assert_eq!(manager.spawn(), Some(a));
    assert_eq!(manager.spawn(), Some(Entity::new(3)));
}

#[test]
fn despawn_refuses_invalid_slot() {
    let mut manager = EntityManager::new();
    assert_eq!(manager.despawn(Entity::new(MAX_ENTITIES)), Err(EcsError::IndexOutOfBounds));
    assert_eq!(manager.spawn(), Some(Entity::new(0)));
}

#[test]
fn despawn_when_full_frees_a_slot() {
    let mut manager = EntityManager::new();
    for _ in 0..MAX_ENTITIES {
        manager.spawn().unwrap();
    }
    assert_eq!(manager.spawn(), None);
    manager.despawn(Entity::new(7)).unwrap();
    assert_eq!(manager.spawn(), Some(Entity::new(7)));
    assert_eq!(manager.spawn(), None);
}

#[test]
fn insert_out_of_bounds_is_refused() {
    let mut storage = ComponentStorage::<u32>::new();
    assert_eq!(storage.insert(Entity::new(MAX_ENTITIES), 5), Err(EcsError::IndexOutOfBounds));
    assert_eq!(storage.get(Entity::new(MAX_ENTITIES)), None);
    assert!(storage.alive_entities().is_empty());
}

#[test]
fn insert_overwrites_and_leaves_others() {
    let mut storage = ComponentStorage::<u32>::new();
    storage.insert(Entity::new(3), 30).unwrap();
    storage.insert(Entity::new(4), 40).unwrap();
    storage.insert(Entity::new(3), 33).unwrap();
    assert_eq!(storage.get(Entity::new(3)), Some(&33));
    assert_eq!(storage.get(Entity::new(4)), Some(&40));
    assert_eq!(storage.get(Entity::new(5)), None);
}

#[test]
fn remove_then_get_is_none_and_second_remove_fails() {
    let mut storage = ComponentStorage::<u32>::new();
    storage.insert(Entity::new(2), 7).unwrap();
    storage.insert(Entity::new(9), 8).unwrap();
    assert_eq!(storage.remove(Entity::new(2)), Ok(()));
    assert_eq!(storage.get(Entity::new(2)), None);
    assert!(!storage.is_alive(Entity::new(2)));
    assert_eq!(storage.remove(Entity::new(2)), Err(EcsError::NotFound));
    assert_eq!(storage.remove(Entity::new(MAX_ENTITIES + 1)), Err(EcsError::NotFound));
    assert_eq!(storage.get(Entity::new(9)), Some(&8));
}

#[test]
fn insert_remove_roundtrip_restores_empty_slot() {
    let mut storage = ComponentStorage::<u32>::new();
    storage.insert(Entity::new(1), 11).unwrap();
    storage.insert(Entity::new(6), 66).unwrap();
    storage.remove(Entity::new(6)).unwrap();
    assert_eq!(storage.alive_entities(), vec![Entity::new(1)]);
}

#[test]
fn get_mut_writes_through() {
    let mut storage = ComponentStorage::<u32>::new();
    assert!(storage.get_mut(Entity::new(4)).is_none());
    storage.insert(Entity::new(4), 1).unwrap();
    *storage.get_mut(Entity::new(4)).unwrap() += 41;
    assert_eq!(storage.get(Entity::new(4)), Some(&42));
}

#[test]
fn alive_entities_are_listed_in_index_order() {
    let mut storage = ComponentStorage::<u8>::new();
    for i in [9usize, 0, 15, 4] {
        storage.insert(Entity::new(i), i as u8).unwrap();
    }
    let ids: Vec<usize> = storage.alive_entities().iter().map(|e| e.index).collect();
    assert_eq!(ids, vec![0, 4, 9, 15]);
}

#[test]
fn alive_in_both_keeps_common_entities() {
    let mut a = ComponentStorage::<u8>::new();
    let mut b = ComponentStorage::<i64>::new();
    for i in [1usize, 3, 5, 7] {
        a.insert(Entity::new(i), 0).unwrap();
    }
    for i in [3usize, 4, 7, 8] {
        b.insert(Entity::new(i), -1).unwrap();
    }
    let ids: Vec<usize> = alive_in_both(&a, &b).iter().map(|e| e.index).collect();
    assert_eq!(ids, vec![3, 7]);
}

#[test]
fn query_walks_live_entities_in_order() {
    let mut storage = ComponentStorage::<u8>::new();
    for i in [2usize, 5, 11] {
        storage.insert(Entity::new(i), 1).unwrap();
    }
    let mut query = QueryIter::new();
    assert_eq!(query.next(&storage), Some(Entity::new(2)));
    assert_eq!(query.next(&storage), Some(Entity::new(5)));
    assert_eq!(query.next(&storage), Some(Entity::new(11)));
    assert_eq!(query.next(&storage), None);
    assert_eq!(query.next(&storage), None);
}

#[test]
fn query_in_both_skips_half_matches() {
    let mut a = ComponentStorage::<u8>::new();
    let mut b = ComponentStorage::<u8>::new();
    for i in [0usize, 3, 6, 9] {
        a.insert(Entity::new(i), 0).unwrap();
    }
    for i in [3usize, 4, 9, 15] {
        b.insert(Entity::new(i), 0).unwrap();
    }
    let mut query = QueryIter::new();
    assert_eq!(query.next_in_both(&a, &b), Some(Entity::new(3)));
    assert_eq!(query.next_in_both(&a, &b), Some(Entity::new(9)));
    assert_eq!(query.next_in_both(&a, &b), None);
}

#[test]
fn world_create_and_kill_entity() {
    let mut manager = EntityManager::new();
    let mut components = Components::<(f32, f32), (f32, f32), (f32, f32), u8>::new();
    let a = manager.spawn().unwrap();
    let b = manager.spawn().unwrap();
    components.create_entity(a, (1.0, 2.0), (5.0, 0.0), (32.0, 32.0), 1).unwrap();
    components.create_entity(b, (9.0, 9.0), (5.0, 0.0), (32.0, 32.0), 0).unwrap();
    assert_eq!(components.create_entity(Entity::new(MAX_ENTITIES), (0.0, 0.0), (0.0, 0.0), (0.0, 0.0), 0), Err(EcsError::IndexOutOfBounds));
    assert_eq!(components.iter_alive(), vec![a, b]);
    assert_eq!(components.with_pos_and_size(), vec![a, b]);
    assert_eq!(components.with_animation_state(), vec![a, b]);

    assert_eq!(kill_entity(&mut manager, &mut components, a), Ok(()));
    assert_eq!(components.iter_alive(), vec![b]);
    assert_eq!(components.animations.get(a), None);
    assert_eq!(components.positions.get(b), Some(&(9.0, 9.0)));
    assert_eq!(manager.spawn(), Some(a));
}

#[test]
fn kill_entity_stops_at_first_missing_component() {
    let mut manager = EntityManager::new();
    let mut components = Components::<u8, u8, u8, u8>::new();
    let e = manager.spawn().unwrap();
    components.positions.insert(e, 1).unwrap();
    components.sizes.insert(e, 3).unwrap();
    assert_eq!(kill_entity(&mut manager, &mut components, e), Err(EcsError::NotFound));
    assert_eq!(components.positions.get(e), None);
    assert_eq!(components.sizes.get(e), Some(&3));
    assert_eq!(manager.spawn(), Some(e));
    assert_eq!(kill_entity(&mut manager, &mut components, Entity::new(MAX_ENTITIES)), Err(EcsError::IndexOutOfBounds));
    assert_eq!(manager.spawn(), Some(Entity::new(1)));
}

#[test]
fn byte_manager_counts_past_sixteen() {
    let mut manager = wgpu_owo::ecs::byte_counter::EntityManager::new();
    for k in 0..16u8 {
        assert_eq!(manager.spawn(), k);
    }
    assert_eq!(manager.spawn(), 16);
}

#[test]
fn byte_manager_hands_out_every_id_below_255() {
    let mut manager = wgpu_owo::ecs::byte_counter::EntityManager::new();
    for k in 0..255u8 {
        assert_eq!(manager.spawn(), k);
    }
}

#[test]
fn byte_manager_reuses_last_given_back_first() {
    let mut manager = wgpu_owo::ecs::byte_counter::EntityManager::new();
    assert_eq!(manager.spawn(), 0);
    assert_eq!(manager.spawn(), 1);
    assert_eq!(manager.spawn(), 2);
    manager.despawn(0);
    manager.despawn(2);
    assert_eq!(manager.spawn(), 2);
    assert_eq!(manager.spawn(), 0);
    assert_eq!(manager.spawn(), 3);
}

#[test]
fn counting_manager_counts_past_sixteen_and_reuses() {
    let mut manager = wgpu_owo::ecs::counter::EntityManager::new();
    for k in 0..20usize {
        assert_eq!(manager.spawn(), k);
    }
    manager.despawn(7);
    assert_eq!(manager.spawn(), 7);
    assert_eq!(manager.spawn(), 20);
}
