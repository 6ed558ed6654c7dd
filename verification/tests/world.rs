use wgpu_owo::animation::{
    calc_next_flame, init_animation_registry, next_frame, AnimationId, AnimationRegistry, FrameStorage,
};
use wgpu_owo::colour::{create_rects, Colour, ColourComponents, HighlightSystem};
use wgpu_owo::command::{move_entity, Axis, Collision, Command, CreateEntitySystem, MovementCommandSystem};
use wgpu_owo::config::{MAX_ANIMATIONS, MAX_ENTITIES, MAX_TOTAL_FRAMES};
use wgpu_owo::ecs::component::ComponentStorage;
use wgpu_owo::ecs::entity::{Entity, EntityManager};
use wgpu_owo::error::EcsError;
use wgpu_owo::grid::{create_entities, create_grid_entities, GridComponents, GridLayout, PixelPos, PixelSize, ReactSystem};
use wgpu_owo::sprite::{GridPos, Sprite};

fn gp(gx: u8, gy: u8) -> GridPos {
    GridPos { gx, gy }
}

#[test]
fn frame_storage_allocates_consecutive_ranges() {
    let mut storage = FrameStorage::new();
    assert_eq!(storage.allocate(8), Some((0, 8)));
    assert_eq!(storage.allocate(6), Some((8, 6)));
    assert_eq!(storage.allocate(MAX_TOTAL_FRAMES - 14), Some((14, MAX_TOTAL_FRAMES - 14)));
    assert_eq!(storage.allocate(1), None);
    assert_eq!(storage.allocate(0), Some((MAX_TOTAL_FRAMES, 0)));
    assert_eq!(storage.get(3, 4), gp(0, 0));
}

#[test]
fn frame_storage_refuses_huge_request_without_overflow() {
    let mut storage = FrameStorage::new();
    assert_eq!(storage.allocate(usize::MAX), None);
    assert_eq!(storage.allocate(MAX_TOTAL_FRAMES), Some((0, MAX_TOTAL_FRAMES)));
}

#[test]
fn registry_init_registers_walk_and_enemy() {
    let mut registry = AnimationRegistry::<f32>::new();
    init_animation_registry(&mut registry, 0.16).unwrap();
    let walk = AnimationId::new(0);
    let enemy = AnimationId::new(1);
    assert_eq!(registry.get_def(walk).frame_offset, 0);
    assert_eq!(registry.get_def(walk).frame_count, 8);
    assert_eq!(registry.get_def(walk).duration_per_frame, 0.16);
    assert_eq!(registry.get_def(enemy).frame_offset, 8);
    assert_eq!(registry.get_def(enemy).frame_count, 6);
    assert_eq!(registry.get_frame(walk, 3), Some(gp(3, 0)));
    assert_eq!(registry.get_frame(walk, 9), Some(gp(1, 0)));
    assert_eq!(registry.get_frame(enemy, 5), Some(gp(5, 1)));
    assert_eq!(registry.get_frame(enemy, 6), Some(gp(0, 1)));
    assert_eq!(registry.get_frame(enemy, 255), Some(gp(3, 1)));
}

#[test]
fn registry_unknown_animation_has_no_frame() {
    let mut registry = AnimationRegistry::<u32>::new();
    assert_eq!(registry.get_frame(AnimationId::new(0), 0), None);
    assert_eq!(registry.get_frame(AnimationId::new(200), 0), None);
    let id = registry.register(&[gp(4, 4), gp(5, 4)], 3).unwrap();
    assert_eq!(id.index, 0);
    assert_eq!(registry.get_frame(AnimationId::new(1), 0), None);
    assert_eq!(registry.get_def(AnimationId::new(1)).frame_count, 0);
    assert_eq!(registry.get_frame(id, 1), Some(gp(5, 4)));
}

#[test]
fn registry_register_fails_when_frames_do_not_fit() {
    let mut registry = AnimationRegistry::<u32>::new();
    let big = vec![gp(1, 1); MAX_TOTAL_FRAMES - 2];
    let first = registry.register(&big, 1).unwrap();
    assert_eq!(registry.register(&[gp(2, 2), gp(3, 3), gp(4, 4)], 1), Err(EcsError::FrameStorageFull));
    let second = registry.register(&[gp(2, 2), gp(3, 3)], 1).unwrap();
    assert_eq!((first.index, second.index), (0, 1));
    assert_eq!(registry.get_frame(second, 1), Some(gp(3, 3)));
    assert_eq!(registry.get_frame(first, 0), Some(gp(1, 1)));
}

#[test]
fn registry_registering_leaves_earlier_animations() {
    let mut registry = AnimationRegistry::<u32>::new();
    let a = registry.register(&[gp(0, 9), gp(1, 9), gp(2, 9)], 1).unwrap();
    let before: Vec<_> = (0..6u8).map(|k| registry.get_frame(a, k)).collect();
    registry.register(&[gp(7, 7)], 2).unwrap();
    let after: Vec<_> = (0..6u8).map(|k| registry.get_frame(a, k)).collect();
    assert_eq!(before, after);
}

#[test]
fn registry_init_on_full_storage_fails() {
    let mut registry = AnimationRegistry::<u32>::new();
    registry.register(&vec![gp(0, 0); MAX_TOTAL_FRAMES - 10], 1).unwrap();
    assert_eq!(init_animation_registry(&mut registry, 1), Err(EcsError::FrameStorageFull));
    assert_eq!(registry.get_frame(AnimationId::new(1), 0), Some(gp(0, 0)));
    assert_eq!(registry.get_def(AnimationId::new(1)).frame_count, 8);
    assert_eq!(registry.get_frame(AnimationId::new(2), 0), None);
    assert!(MAX_ANIMATIONS > 2);
}

#[test]
fn next_frame_wraps() {
    assert_eq!(next_frame(3, 8), Ok(4));
    assert_eq!(next_frame(7, 8), Ok(0));
    assert_eq!(next_frame(0, 1), Ok(0));
    assert_eq!(next_frame(5, 300), Err(EcsError::FrameCountTooLarge));
    assert_eq!(calc_next_flame(6, 7), 7);
    assert_eq!(calc_next_flame(7, 7), 0);
    assert_eq!(calc_next_flame(0, 0), 0);
}

#[test]
fn grid_entities_fill_every_cell() {
    let mut manager = EntityManager::new();
    let mut components = GridComponents::<u8, f32>::new();
    let layout = GridLayout::animation_grid();
    create_grid_entities(&mut manager, &mut components, layout, 9u8, 0.0).unwrap();
    assert_eq!(components.positions.get(Entity::new(0)), Some(&PixelPos { x: 0, y: 0 }));
    assert_eq!(components.positions.get(Entity::new(5)), Some(&PixelPos { x: 32, y: 32 }));
    assert_eq!(components.positions.get(Entity::new(15)), Some(&PixelPos { x: 96, y: 96 }));
    assert_eq!(components.sizes.get(Entity::new(7)), Some(&PixelSize { w: 32, h: 32 }));
    assert_eq!(components.sprites.get(Entity::new(11)), Some(&9u8));
    assert_eq!(components.flames.get(Entity::new(12)), Some(&0u8));
    assert_eq!(components.elapsed.get(Entity::new(13)), Some(&0.0f32));
    assert_eq!(components.positions.alive_entities().len(), MAX_ENTITIES);
    assert_eq!(manager.spawn(), None);
}

#[test]
fn grid_entities_fail_without_free_slot() {
    let mut manager = EntityManager::new();
    for _ in 0..MAX_ENTITIES - 2 {
        manager.spawn().unwrap();
    }
    let mut components = GridComponents::<u8, u32>::new();
    let result = create_grid_entities(&mut manager, &mut components, GridLayout::animation_grid(), 1u8, 0);
    assert_eq!(result, Err(EcsError::NoFreeSlot));
    let ids: Vec<usize> = components.positions.alive_entities().iter().map(|e| e.index).collect();
    assert_eq!(ids, vec![14, 15]);
    assert_eq!(components.positions.get(Entity::new(14)), Some(&PixelPos { x: 64, y: 96 }));
}

#[test]
fn grid_entities_reuse_despawned_ids() {
    let mut manager = EntityManager::new();
    for _ in 0..MAX_ENTITIES {
        manager.spawn().unwrap();
    }
    manager.despawn(Entity::new(2)).unwrap();
    manager.despawn(Entity::new(13)).unwrap();
    let mut components = GridComponents::<u8, u32>::new();
    let result = create_grid_entities(&mut manager, &mut components, GridLayout::animation_grid(), 1u8, 0);
    assert_eq!(result, Err(EcsError::NoFreeSlot));
    let ids: Vec<usize> = components.sprites.alive_entities().iter().map(|e| e.index).collect();
    assert_eq!(ids, vec![2, 13]);
    assert_eq!(components.positions.get(Entity::new(13)), Some(&PixelPos { x: 32, y: 96 }));
}

#[test]
fn flower_grid_alternates_and_toggles() {
    let mut manager = EntityManager::new();
    let mut components = GridComponents::<Sprite, f32>::new();
    let layout = GridLayout::animation_grid();
    create_entities(&mut manager, &mut components, layout).unwrap();
    assert_eq!(components.sprites.get(Entity::new(4)), Some(&Sprite::RedFlower));
    assert_eq!(components.sprites.get(Entity::new(5)), Some(&Sprite::YellowFlower));
    assert!(components.flames.alive_entities().is_empty());

    ReactSystem::update(&mut components.sprites, layout, 1, 1).unwrap();
    assert_eq!(components.sprites.get(Entity::new(5)), Some(&Sprite::RedFlower));
    assert_eq!(components.sprites.get(Entity::new(4)), Some(&Sprite::RedFlower));
    ReactSystem::update(&mut components.sprites, layout, 1, 1).unwrap();
    assert_eq!(components.sprites.get(Entity::new(5)), Some(&Sprite::YellowFlower));
}

#[test]
fn react_on_empty_cell_fails() {
    let mut sprites = ComponentStorage::<Sprite>::new();
    let layout = GridLayout::animation_grid();
    assert_eq!(ReactSystem::update(&mut sprites, layout, 0, 0), Err(EcsError::NotFound));
    assert_eq!(ReactSystem::update(&mut sprites, layout, 3, 60), Err(EcsError::NotFound));
    assert_eq!(sprites.get(Entity::new(0)), None);
}

#[test]
fn sprite_toggles_and_maps_to_cells() {
    assert_eq!(Sprite::RedFlower.toggled(), Sprite::YellowFlower);
    assert_eq!(Sprite::YellowFlower.toggled(), Sprite::RedFlower);
    assert_eq!(Sprite::RedFlower.grid_pos(), gp(0, 0));
    assert_eq!(Sprite::YellowFlower.grid_pos(), gp(1, 0));
}

#[test]
fn colour_grid_rects_get_pastel_colours() {
    let mut manager = EntityManager::new();
    let mut components = ColourComponents::new();
    let layout = GridLayout::colour_grid();
    create_rects(&mut manager, &mut components, layout).unwrap();
    let ids = components.colours.alive_entities();
    assert_eq!(ids.len(), 12);
    let mut colours = Vec::new();
    for e in &ids {
        let c = *components.colours.get(*e).unwrap();
        assert!((200..250).contains(&c.r) && (50..100).contains(&c.g) && (200..250).contains(&c.b));
        colours.push(c);
    }
    assert!(colours.iter().any(|c| *c != colours[0]));
    assert_eq!(components.positions.get(Entity::new(11)), Some(&PixelPos { x: 123, y: 92 }));
    assert_eq!(components.sizes.get(Entity::new(0)), Some(&PixelSize { w: 41, h: 46 }));
    assert_eq!(components.positions.get(Entity::new(12)), None);
    assert_eq!(manager.spawn(), Some(Entity::new(12)));

    HighlightSystem::update(&mut components.colours, layout, 2, 1).unwrap();
    assert_eq!(components.colours.get(Entity::new(6)), Some(&Colour { r: 255, g: 255, b: 255 }));
    assert_eq!(HighlightSystem::update(&mut components.colours, layout, 1, 3), Err(EcsError::NotFound));
}

#[test]
fn movement_commands_bounce_on_first_collision() {
    let plans = vec![(Entity::new(0), 1.5f32), (Entity::new(3), 2.5), (Entity::new(7), 3.5)];
    let collisions = vec![
        Collision::Entities(Entity::new(7), Axis::Y),
        Collision::WindowEdge(Entity::new(3), Axis::X),
        Collision::Entities(Entity::new(3), Axis::Y),
    ];
    let commands = MovementCommandSystem::update(&plans, &collisions);
    assert_eq!(commands.len(), 3);
    assert!(matches!(commands[0], Command::Movement(e, p) if e == Entity::new(0) && p == 1.5));
    assert!(matches!(commands[1], Command::Bounce(e, Collision::WindowEdge(c, Axis::X)) if e == Entity::new(3) && c == e));
    assert!(matches!(commands[2], Command::Bounce(e, Collision::Entities(_, Axis::Y)) if e == Entity::new(7)));
    assert_eq!(collisions[0].entity(), Entity::new(7));
    assert_eq!(collisions[1].axis(), Axis::X);
}

#[test]
fn create_entity_system_spawns_on_click_only() {
    let mut manager = EntityManager::new();
    assert!(CreateEntitySystem::update::<f32>(&mut manager, None).is_none());
    assert!(matches!(CreateEntitySystem::update(&mut manager, Some(4.0f32)), Some(Command::Spawn(e, p)) if e.index == 0 && p == 4.0));
    assert!(matches!(CreateEntitySystem::update(&mut manager, Some(1.0f32)), Some(Command::Spawn(e, _)) if e.index == 1));
    for _ in 2..MAX_ENTITIES {
        manager.spawn().unwrap();
    }
    assert!(CreateEntitySystem::update(&mut manager, Some(1.0f32)).is_none());
}

#[test]
fn move_entity_needs_a_position() {
    let mut positions = ComponentStorage::<(f32, f32)>::new();
    assert_eq!(move_entity(&mut positions, Entity::new(2), (1.0, 2.0)), Err(EcsError::NotFound));
    positions.insert(Entity::new(2), (0.0, 0.0)).unwrap();
    assert_eq!(move_entity(&mut positions, Entity::new(2), (1.0, 2.0)), Ok(()));
    assert_eq!(positions.get(Entity::new(2)), Some(&(1.0, 2.0)));
}
