//! The two-body ragdoll: a rectangular head and a heavy ball, each declared
//! through a `Shape` so the attach-on-change rule derives their visuals and
//! colliders; the rope joint that ties them together belongs to the physics
//! back-end.

use vstd::prelude::*;

use crate::geometry::Color;
use crate::geometry::EntityColor;
use crate::geometry::Shape;
use crate::interaction::ClickMode;
use crate::interaction::Player;
use crate::world::Position;
use crate::world::World;
use crate::world::id_pred;
use crate::world::lemma_first_index_at;
use crate::world::spec_spawned_record;
use crate::world::spec_with_player;

verus! {

/// Head height, in world units.
pub const ROBOT_HEAD_HEIGHT: u32 = 40;

/// Head width, in world units.
pub const ROBOT_HEAD_WIDTH: u32 = 30;

/// Ball radius, in world units.
pub const ROBOT_BALL_RADIUS: u32 = 60;

/// The components the robot's head starts from: its rectangular shape, a
/// green tint and a perch above the scene.
pub fn robot_head(height: u32, width: u32) -> (bundle: (Shape, EntityColor, Position))
    ensures
        bundle.0 == (Shape::Rectangle { width, height }),
        bundle.1 == (EntityColor(Color { r: 26, g: 255, b: 77 })),
        bundle.2 == (Position { x: 0, y: 200, z: 0 }),
{
    (
        Shape::Rectangle { width, height },
        EntityColor(Color { r: 26, g: 255, b: 77 }),
        Position { x: 0, y: 200, z: 0 },
    )
}

/// The components the robot's ball starts from: its circular shape, a blue
/// tint and a perch below the head.
pub fn robot_ball(ball_radius: u32) -> (bundle: (Shape, EntityColor, Position))
    ensures
        bundle.0 == (Shape::Circle { radius: ball_radius }),
        bundle.1 == (EntityColor(Color { r: 0, g: 128, b: 255 })),
        bundle.2 == (Position { x: 0, y: 100, z: 0 }),
{
    (
        Shape::Circle { radius: ball_radius },
        EntityColor(Color { r: 0, g: 128, b: 255 }),
        Position { x: 0, y: 100, z: 0 },
    )
}

/// The ball record `spawn_robot` creates, holding the first fresh identifier.
pub open spec fn spec_robot_ball_record(world: World) -> crate::world::EntityRecord {
    spec_spawned_record(
        world.next_id,
        Some(Position { x: 0, y: 100, z: 0 }),
        Some(Shape::Circle { radius: ROBOT_BALL_RADIUS as u32 }),
        Some(EntityColor(Color { r: 0, g: 128, b: 255 })),
        None,
        None,
        world.convention,
    )
}

/// The head record `spawn_robot` creates, holding the second fresh
/// identifier.
pub open spec fn spec_robot_head_record(world: World) -> crate::world::EntityRecord {
    spec_spawned_record(
        (world.next_id + 1) as u64,
        Some(Position { x: 0, y: 200, z: 0 }),
        Some(Shape::Rectangle { width: ROBOT_HEAD_WIDTH as u32, height: ROBOT_HEAD_HEIGHT as u32 }),
        Some(EntityColor(Color { r: 26, g: 255, b: 77 })),
        None,
        None,
        world.convention,
    )
}

/// Spawn the ragdoll: first the ball child, then the head parent, each with
/// its shape and color so the reactive rules derive their visuals at once.
/// The rope joint anchoring the ball under the head is handed to the physics
/// back-end by the caller. Returns the head, the robot's controlling body.
pub fn spawn_robot(world: &mut World) -> (parent: u64)
    requires
        old(world).wf(),
        old(world).next_id + 1 < u64::MAX,
    ensures
        final(world).wf(),
        parent == old(world).next_id + 1,
        final(world).next_id == old(world).next_id + 2,
        final(world).convention == old(world).convention,
        final(world).count == old(world).count,
        final(world).entities@ == old(world).entities@.push(spec_robot_ball_record(*old(world)))
            .push(spec_robot_head_record(*old(world))),
{
    let (ball_shape, ball_color, ball_position) = robot_ball(ROBOT_BALL_RADIUS);
    let (head_shape, head_color, head_position) = robot_head(ROBOT_HEAD_HEIGHT, ROBOT_HEAD_WIDTH);
    let _child = world.spawn(Some(ball_position), Some(ball_shape), Some(ball_color), None, None);
    let parent = world.spawn(Some(head_position), Some(head_shape), Some(head_color), None, None);
    parent
}

/// Spawn the controlled player: the ragdoll, with the controlled-player
/// marker on its head so the input systems can steer it and the toggle skill
/// can find its shape. The click mode starts at `SpawnCube`.
pub fn spawn_player(world: &mut World) -> (player_id: u64)
    requires
        old(world).wf(),
        old(world).next_id + 1 < u64::MAX,
    ensures
        final(world).wf(),
        player_id == old(world).next_id + 1,
        final(world).next_id == old(world).next_id + 2,
        final(world).convention == old(world).convention,
        final(world).count == old(world).count,
        final(world).entities@ == old(world).entities@.push(spec_robot_ball_record(*old(world)))
            .push(
            spec_with_player(spec_robot_head_record(*old(world)), Player(ClickMode::SpawnCube)),
        ),
{
    let player_id = spawn_robot(world);
    proof {
        let s = world.entities@;
        let last: int = s.len() - 1;
        assert forall|j: int| 0 <= j < last implies !(id_pred(player_id)(#[trigger] s[j])) by {
            assert(s[j].id != s[last].id);
        }
        lemma_first_index_at(s, id_pred(player_id), last);
    }
    world.set_player(player_id, Player(ClickMode::SpawnCube));
    proof {
        let before = old(world).entities@.push(spec_robot_ball_record(*old(world))).push(
            spec_robot_head_record(*old(world)),
        );
        assert(world.entities@ =~= before.update(
            before.len() - 1,
            spec_with_player(spec_robot_head_record(*old(world)), Player(ClickMode::SpawnCube)),
        ));
        assert(world.entities@ =~= old(world).entities@.push(
            spec_robot_ball_record(*old(world)),
        ).push(
            spec_with_player(spec_robot_head_record(*old(world)), Player(ClickMode::SpawnCube)),
        ));
    }
    player_id
}

} // verus!
