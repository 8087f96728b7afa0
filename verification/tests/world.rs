use sandbox_core::geometry::BackendConvention;
use sandbox_core::geometry::Color;
use sandbox_core::geometry::ColliderDesc;
use sandbox_core::geometry::EntityColor;
use sandbox_core::geometry::MeshDesc;
use sandbox_core::geometry::Shape;
use sandbox_core::population::NumberOfEntity;
use sandbox_core::population::on_cube_despawn;
use sandbox_core::population::on_cube_spawn;
use sandbox_core::world::Cube;
use sandbox_core::world::Position;
use sandbox_core::world::World;

#[test]
fn spawning_with_a_shape_attaches_exactly_one_derived_set() {
    let mut world = World::new(BackendConvention::HalfExtents);
    let id = world.spawn(None, Some(Shape::Circle { radius: 20 }), None, None, None);
    assert_eq!(world.entities.len(), 1);
    let record = &world.entities[0];
    assert_eq!(record.id, id);
    let visual = record.visual.expect("a shaped entity must carry its derived set");
    assert_eq!(visual.mesh, MeshDesc::Disc { radius: 20 });
    assert_eq!(visual.collider, ColliderDesc::Ball { radius: 20 });
}

#[test]
fn replacing_the_shape_replaces_the_derived_set() {
    let mut world = World::new(BackendConvention::HalfExtents);
    let id = world.spawn(None, Some(Shape::Rectangle { width: 10, height: 40 }), None, None, None);
    world.replace_shape(id, Shape::Rectangle { width: 30, height: 30 });
    let record = &world.entities[0];
    assert_eq!(record.shape, Some(Shape::Rectangle { width: 30, height: 30 }));
    let visual = record.visual.expect("the replaced shape must leave one derived set");
    assert_eq!(visual.mesh, MeshDesc::Rect { width: 30, height: 30 });
    assert_eq!(visual.collider, ColliderDesc::Cuboid { x_param: 15, y_param: 15 });
}

#[test]
fn replacing_the_shape_on_a_missing_entity_changes_nothing() {
    let mut world = World::new(BackendConvention::FullExtents);
    let id = world.spawn(None, Some(Shape::Circle { radius: 3 }), None, None, None);
    world.replace_shape(id + 77, Shape::Circle { radius: 9 });
    assert_eq!(world.entities.len(), 1);
    assert_eq!(world.entities[0].shape, Some(Shape::Circle { radius: 3 }));
}

#[test]
fn the_hook_tolerates_an_entity_removed_before_it_fires() {
    // Simulated race: the entity is despawned, then the synchronization hook
    // fires for it anyway; the hook must silently do nothing.
    let mut world = World::new(BackendConvention::FullExtents);
    let id = world.spawn(None, Some(Shape::Circle { radius: 12 }), None, None, None);
    let keeper = world.spawn(None, Some(Shape::Circle { radius: 1 }), None, None, None);
    assert!(world.despawn(id));
    world.on_insert_shape_attach_mesh_and_material(id);
    assert_eq!(world.entities.len(), 1);
    assert_eq!(world.entities[0].id, keeper);
}

#[test]
fn the_hook_tolerates_an_entity_without_a_shape() {
    let mut world = World::new(BackendConvention::FullExtents);
    let id = world.spawn(None, None, None, None, None);
    world.on_insert_shape_attach_mesh_and_material(id);
    assert!(world.entities[0].visual.is_none());
}

#[test]
fn color_drives_the_material_independently_of_the_shape() {
    let mut world = World::new(BackendConvention::FullExtents);
    let id = world.spawn(None, Some(Shape::Circle { radius: 8 }), None, None, None);
    let crimson = Color { r: 200, g: 16, b: 16 };
    world.set_color(id, EntityColor(crimson));
    let record = &world.entities[0];
    assert_eq!(record.material, Some(crimson));
    // The shape and its derived set are untouched by the color rule.
    assert_eq!(record.shape, Some(Shape::Circle { radius: 8 }));
    assert_eq!(record.visual.unwrap().collider, ColliderDesc::Ball { radius: 8 });
}

#[test]
fn despawning_removes_the_entity_and_its_components() {
    let mut world = World::new(BackendConvention::FullExtents);
    let first = world.spawn(None, Some(Shape::Circle { radius: 2 }), None, None, None);
    let second = world.spawn(None, None, None, None, None);
    assert!(world.despawn(first));
    assert_eq!(world.entities.len(), 1);
    assert_eq!(world.entities[0].id, second);
    assert!(!world.despawn(first));
}

#[test]
fn cube_spawns_and_despawns_move_the_population_count() {
    let mut world = World::new(BackendConvention::FullExtents);
    let plain = world.spawn(None, None, None, None, None);
    assert_eq!(world.count.0, 0);
    let cube = world.spawn(None, None, None, Some(Cube { width: 30, height: 30 }), None);
    assert_eq!(world.count.0, 1);
    world.despawn(plain);
    assert_eq!(world.count.0, 1);
    world.despawn(cube);
    assert_eq!(world.count.0, 0);
}

#[test]
fn the_population_counter_counts_in_both_directions() {
    let mut number_of_entity = NumberOfEntity::default();
    assert_eq!(number_of_entity.0, 0);
    on_cube_spawn(&mut number_of_entity);
    on_cube_spawn(&mut number_of_entity);
    assert_eq!(number_of_entity.0, 2);
    on_cube_despawn(&mut number_of_entity);
    assert_eq!(number_of_entity.0, 1);
}

#[test]
fn cube_bundle_starts_at_the_origin() {
    let (cube, position) = Cube::bundle(30, 30);
    assert_eq!(cube, Cube { width: 30, height: 30 });
    assert_eq!(position, Position { x: 0, y: 0, z: 0 });
}
