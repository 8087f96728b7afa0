use sandbox_core::geometry::BackendConvention;
use sandbox_core::geometry::ColliderDesc;
use sandbox_core::geometry::MeshDesc;
use sandbox_core::geometry::Shape;
use sandbox_core::geometry::derive_visual;
use sandbox_core::geometry::toggle_shape;

#[test]
fn toggle_swaps_circle_to_square() {
    let swapped = toggle_shape(Shape::Circle { radius: 5 });
    assert_eq!(swapped, Shape::Rectangle { width: 5, height: 5 });
}

#[test]
fn toggle_swaps_rectangle_to_circle_carrying_width() {
    let swapped = toggle_shape(Shape::Rectangle { width: 10, height: 40 });
    assert_eq!(swapped, Shape::Circle { radius: 10 });
}

#[test]
fn toggle_twice_restores_circle() {
    let once = toggle_shape(Shape::Circle { radius: 34 });
    let twice = toggle_shape(once);
    assert_eq!(twice, Shape::Circle { radius: 34 });
}

#[test]
fn toggle_twice_restores_square() {
    let once = toggle_shape(Shape::Rectangle { width: 7, height: 7 });
    let twice = toggle_shape(once);
    assert_eq!(twice, Shape::Rectangle { width: 7, height: 7 });
}

#[test]
fn toggle_twice_on_oblong_rectangle_restores_variant_and_width() {
    let once = toggle_shape(Shape::Rectangle { width: 10, height: 40 });
    let twice = toggle_shape(once);
    match twice {
        Shape::Rectangle { width, height } => {
            assert_eq!(width, 10);
            assert_eq!(height, 10);
        }
        Shape::Circle { .. } => panic!("toggling twice must restore the rectangle variant"),
    }
}

#[test]
fn circle_footprints_match_under_both_conventions() {
    let shape = Shape::Circle { radius: 20 };
    for convention in [BackendConvention::FullExtents, BackendConvention::HalfExtents] {
        let visual = derive_visual(shape, convention);
        assert_eq!(visual.mesh, MeshDesc::Disc { radius: 20 });
        assert_eq!(visual.collider, ColliderDesc::Ball { radius: 20 });
    }
}

#[test]
fn rectangle_footprints_match_under_full_extents() {
    let visual = derive_visual(
        Shape::Rectangle { width: 30, height: 30 },
        BackendConvention::FullExtents,
    );
    assert_eq!(visual.mesh, MeshDesc::Rect { width: 30, height: 30 });
    // The back-end takes full side lengths: 30 by 30 in world units.
    assert_eq!(visual.collider, ColliderDesc::Cuboid { x_param: 30, y_param: 30 });
}

#[test]
fn odd_rectangle_sides_truncate_under_half_extents() {
    // Half of an odd world unit is not a world unit: the half-extent
    // parameters truncate, so a 7-by-7 rectangle ends with a 6-by-6
    // collider footprint. Even sides convert exactly.
    let visual = derive_visual(
        Shape::Rectangle { width: 7, height: 7 },
        BackendConvention::HalfExtents,
    );
    assert_eq!(visual.collider, ColliderDesc::Cuboid { x_param: 3, y_param: 3 });
}

#[test]
fn rectangle_footprints_match_under_half_extents() {
    let visual = derive_visual(
        Shape::Rectangle { width: 30, height: 30 },
        BackendConvention::HalfExtents,
    );
    assert_eq!(visual.mesh, MeshDesc::Rect { width: 30, height: 30 });
    // The back-end takes half side lengths: 15 each way is 30 in world units.
    assert_eq!(visual.collider, ColliderDesc::Cuboid { x_param: 15, y_param: 15 });
}
