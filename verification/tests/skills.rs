use sandbox_core::geometry::BackendConvention;
use sandbox_core::geometry::Color;
use sandbox_core::geometry::ColliderDesc;
use sandbox_core::geometry::EntityColor;
use sandbox_core::geometry::MeshDesc;
use sandbox_core::geometry::Shape;
use sandbox_core::interaction::ClickMode;
use sandbox_core::interaction::Interaction;
use sandbox_core::interaction::Player;
use sandbox_core::interaction::PlayerMouseCoor;
use sandbox_core::interaction::button_system;
use sandbox_core::robot_constructor::spawn_player;
use sandbox_core::robot_constructor::spawn_robot;
use sandbox_core::world::Cube;
use sandbox_core::world::Position;
use sandbox_core::world::World;

#[test]
fn the_robot_is_two_shaped_bodies_with_derived_visuals() {
    let mut world = World::new(BackendConvention::HalfExtents);
    let parent = spawn_robot(&mut world);
    assert_eq!(world.entities.len(), 2);
    let ball = &world.entities[0];
    let head = &world.entities[1];
    assert_eq!(head.id, parent);
    assert_eq!(ball.shape, Some(Shape::Circle { radius: 60 }));
    assert_eq!(ball.visual.unwrap().collider, ColliderDesc::Ball { radius: 60 });
    assert_eq!(head.shape, Some(Shape::Rectangle { width: 30, height: 40 }));
    assert_eq!(head.visual.unwrap().mesh, MeshDesc::Rect { width: 30, height: 40 });
    assert_eq!(head.visual.unwrap().collider, ColliderDesc::Cuboid { x_param: 15, y_param: 20 });
}

#[test]
fn the_player_marker_lands_on_the_robot_head() {
    let mut world = World::new(BackendConvention::FullExtents);
    let player_id = spawn_player(&mut world);
    let head = &world.entities[1];
    assert_eq!(head.id, player_id);
    assert_eq!(head.player, Some(Player(ClickMode::SpawnCube)));
    assert!(world.entities[0].player.is_none());
}

#[test]
fn the_toggle_skill_swaps_the_player_shape_and_its_derived_set() {
    let mut world = World::new(BackendConvention::FullExtents);
    spawn_player(&mut world);
    world.change_shape(true);
    let head = &world.entities[1];
    assert_eq!(head.shape, Some(Shape::Circle { radius: 30 }));
    assert_eq!(head.visual.unwrap().collider, ColliderDesc::Ball { radius: 30 });
    world.change_shape(true);
    let head = &world.entities[1];
    assert_eq!(head.shape, Some(Shape::Rectangle { width: 30, height: 30 }));
    assert_eq!(
        head.visual.unwrap().collider,
        ColliderDesc::Cuboid { x_param: 30, y_param: 30 }
    );
}

#[test]
fn the_toggle_skill_needs_the_release_edge_and_a_player() {
    let mut world = World::new(BackendConvention::FullExtents);
    world.spawn(None, Some(Shape::Circle { radius: 4 }), None, None, None);
    // No release edge: nothing moves even with a player present.
    spawn_player(&mut world);
    world.change_shape(false);
    assert_eq!(world.entities[0].shape, Some(Shape::Circle { radius: 4 }));

    // No controlled entity at all: the toggle is a silent no-op.
    let mut empty = World::new(BackendConvention::FullExtents);
    empty.spawn(None, Some(Shape::Circle { radius: 4 }), None, None, None);
    empty.change_shape(true);
    assert_eq!(empty.entities[0].shape, Some(Shape::Circle { radius: 4 }));
}

#[test]
fn the_spawn_skill_creates_a_cube_at_the_mouse() {
    let mut world = World::new(BackendConvention::FullExtents);
    spawn_player(&mut world);
    let mut mouse_coor = PlayerMouseCoor::default();
    mouse_coor.update(120, -45);
    let tint = EntityColor(Color { r: 1, g: 2, b: 3 });
    let spawned = world.spawn_cube_skill(&mouse_coor, true, true, tint);
    let id = spawned.expect("all conditions hold, so a cube must spawn");
    let record = world.entities.last().unwrap();
    assert_eq!(record.id, id);
    assert_eq!(record.cube, Some(Cube { width: 30, height: 30 }));
    assert_eq!(record.position, Some(Position { x: 120, y: -45, z: 0 }));
    assert_eq!(record.shape, Some(Shape::Circle { radius: 20 }));
    assert_eq!(record.material, Some(Color { r: 1, g: 2, b: 3 }));
    assert_eq!(world.count.0, 1);
}

#[test]
fn the_spawn_skill_waits_for_mode_button_and_timer() {
    let mut world = World::new(BackendConvention::FullExtents);
    let player_id = spawn_player(&mut world);
    let mouse_coor = PlayerMouseCoor::default();
    let tint = EntityColor(Color { r: 0, g: 0, b: 0 });
    assert!(world.spawn_cube_skill(&mouse_coor, false, true, tint).is_none());
    assert!(world.spawn_cube_skill(&mouse_coor, true, false, tint).is_none());
    // Switch the click mode to JoinCube: the left button no longer spawns.
    let mut player = Player(ClickMode::SpawnCube);
    button_system(Interaction::Pressed, &mut player);
    world.set_player(player_id, player);
    assert!(world.spawn_cube_skill(&mouse_coor, true, true, tint).is_none());
    assert_eq!(world.entities.len(), 2);
    assert_eq!(world.count.0, 0);
}

#[test]
fn the_despawn_skill_removes_the_cube_under_the_cursor() {
    let mut world = World::new(BackendConvention::FullExtents);
    world.spawn(
        Some(Position { x: 0, y: 0, z: 0 }),
        None,
        None,
        Some(Cube { width: 30, height: 30 }),
        None,
    );
    let mut mouse_coor = PlayerMouseCoor::default();
    // Half the cube height is 15; the mouse at (10, 10) is sqrt(200) away.
    mouse_coor.update(10, 10);
    let removed = world.despawn_cube_skill(&mouse_coor, true);
    assert_eq!(removed, Some(0));
    assert_eq!(world.entities.len(), 0);
    assert_eq!(world.count.0, 0);
}

#[test]
fn the_despawn_skill_pick_radius_is_strict() {
    let mut world = World::new(BackendConvention::FullExtents);
    world.spawn(
        Some(Position { x: 0, y: 0, z: 0 }),
        None,
        None,
        Some(Cube { width: 30, height: 30 }),
        None,
    );
    let mut mouse_coor = PlayerMouseCoor::default();
    // Exactly on the pick boundary: 15 away equals half the height, and the
    // comparison is strict, so the cube survives.
    mouse_coor.update(15, 0);
    assert!(world.despawn_cube_skill(&mouse_coor, true).is_none());
    // Without the right button held nothing is removed either.
    mouse_coor.update(0, 0);
    assert!(world.despawn_cube_skill(&mouse_coor, false).is_none());
    assert_eq!(world.entities.len(), 1);
}

#[test]
fn the_despawn_skill_ignores_entities_that_are_not_cubes() {
    let mut world = World::new(BackendConvention::FullExtents);
    world.spawn(Some(Position { x: 0, y: 0, z: 0 }), None, None, None, None);
    let mouse_coor = PlayerMouseCoor::default();
    assert!(world.despawn_cube_skill(&mouse_coor, true).is_none());
    assert_eq!(world.entities.len(), 1);
}
