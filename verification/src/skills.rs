//! The player's runtime skills: toggling the controlled entity's shape,
//! spawning a cube at the mouse position, and despawning the cube under the
//! cursor.
//!
//! Each skill is a decision over the registry driven by plain input facts —
//! which buttons are down, whether the spawn timer elapsed, where the mouse
//! points — that the host engine's input layer supplies.

use vstd::prelude::*;

use crate::geometry::EntityColor;
use crate::geometry::Shape;
use crate::geometry::spec_toggle_shape;
use crate::geometry::toggle_shape;
use crate::interaction::ClickMode;
use crate::interaction::PlayerMouseCoor;
use crate::world::Cube;
use crate::world::EntityRecord;
use crate::world::Position;
use crate::world::World;
use crate::world::first_index;
use crate::world::id_pred;
use crate::world::is_cube;
use crate::world::lemma_first_index_at;
use crate::world::lemma_first_index_none;
use crate::world::same_state;
use crate::world::spec_spawned_record;
use crate::world::spec_with_shape;

verus! {

/// Side length of a skill-spawned cube, in world units.
pub const CUBE_SIDE: u32 = 30;

/// Radius of the shape first attached to a skill-spawned cube.
pub const CUBE_SHAPE_RADIUS: u32 = 20;

/// Whether a record is the controlled entity and carries a shape to toggle.
pub open spec fn shaped_player_pred() -> spec_fn(EntityRecord) -> bool {
    |r: EntityRecord| r.player is Some && r.shape is Some
}

/// Whether a record is the controlled entity.
pub open spec fn player_pred() -> spec_fn(EntityRecord) -> bool {
    |r: EntityRecord| r.player is Some
}

/// Whether a position lies strictly inside the pick radius around the mouse:
/// closer to it than half the cube's height.
pub open spec fn within_pick_radius(p: Position, mx: int, my: int, cube: Cube) -> bool {
    4 * ((p.x - mx) * (p.x - mx) + (p.y - my) * (p.y - my)) < cube.height * cube.height
}

/// Whether the cursor at `(mx, my)` picks this record: a positioned cube
/// within the pick radius.
pub open spec fn pick_pred(mx: int, my: int) -> spec_fn(EntityRecord) -> bool {
    |r: EntityRecord|
        r.cube matches Some(c) && r.position matches Some(p) && within_pick_radius(p, mx, my, c)
}

/// Whether the cursor picks this record, decided in machine arithmetic.
fn cube_under_cursor(r: &EntityRecord, mouse_x: i32, mouse_y: i32) -> (hit: bool)
    ensures
        hit == pick_pred(mouse_x as int, mouse_y as int)(*r),
{
    match (r.cube, r.position) {
        (Some(c), Some(p)) => {
            let dx: i64 = p.x as i64 - mouse_x as i64;
            let dy: i64 = p.y as i64 - mouse_y as i64;
            proof {
                assert((dx as i128) * (dx as i128) <= 0x1_0000_0000_0000_0000i128)
                    by (nonlinear_arith)
                    requires
                        -0x1_0000_0000i64 <= dx <= 0x1_0000_0000i64,
                ;
                assert((dy as i128) * (dy as i128) <= 0x1_0000_0000_0000_0000i128)
                    by (nonlinear_arith)
                    requires
                        -0x1_0000_0000i64 <= dy <= 0x1_0000_0000i64,
                ;
                assert((dx as i128) * (dx as i128) >= 0) by (nonlinear_arith);
                assert((dy as i128) * (dy as i128) >= 0) by (nonlinear_arith);
                assert((c.height as i128) * (c.height as i128) < 0x1_0000_0000_0000_0000i128)
                    by (nonlinear_arith)
                    requires
                        0 <= (c.height as i128) < 0x1_0000_0000i128,
                ;
            }
            let dist_sq: i128 = (dx as i128) * (dx as i128) + (dy as i128) * (dy as i128);
            let h: i128 = c.height as i128;
            4 * dist_sq < h * h
        },
        _ => false,
    }
}

impl World {
    /// Position of the first record satisfying the toggle skill's query: the
    /// controlled entity, provided it carries a shape.
    fn find_shaped_player(&self) -> (found: Option<usize>)
        ensures
            match found {
                Some(i) => i < self.entities@.len() && first_index(
                    self.entities@,
                    shaped_player_pred(),
                ) == Some(i as int) && self.entities@[i as int].player is Some
                    && self.entities@[i as int].shape is Some,
                None => first_index(self.entities@, shaped_player_pred()) is None,
            },
    {
        let n = self.entities.len();
        let mut i: usize = 0;
        while i < n
            invariant
                n == self.entities@.len(),
                i <= n,
                forall|j: int|
                    0 <= j < i ==> !((#[trigger] self.entities@[j]).player is Some
                        && self.entities@[j].shape is Some),
            decreases n - i,
        {
            let r = self.entities[i];
            if r.player.is_some() && r.shape.is_some() {
                proof {
                    lemma_first_index_at(self.entities@, shaped_player_pred(), i as int);
                }
                return Some(i);
            }
            i = i + 1;
        }
        proof {
            lemma_first_index_none(self.entities@, shaped_player_pred());
        }
        None
    }

    /// Position of the first record carrying the controlled-player marker.
    fn find_player(&self) -> (found: Option<usize>)
        ensures
            match found {
                Some(i) => i < self.entities@.len() && first_index(self.entities@, player_pred())
                    == Some(i as int) && self.entities@[i as int].player is Some,
                None => first_index(self.entities@, player_pred()) is None,
            },
    {
        let n = self.entities.len();
        let mut i: usize = 0;
        while i < n
            invariant
                n == self.entities@.len(),
                i <= n,
                forall|j: int| 0 <= j < i ==> !((#[trigger] self.entities@[j]).player is Some),
            decreases n - i,
        {
            let r = self.entities[i];
            if r.player.is_some() {
                proof {
                    lemma_first_index_at(self.entities@, player_pred(), i as int);
                }
                return Some(i);
            }
            i = i + 1;
        }
        proof {
            lemma_first_index_none(self.entities@, player_pred());
        }
        None
    }

    /// The shape toggle: on the release edge of the toggle key, read the
    /// controlled entity's current shape, swap its variant carrying the size
    /// parameter forward, and replace the `Shape` — the attach-on-change rule
    /// regenerates the derived state. Without the edge, or without a
    /// controlled entity carrying a shape, nothing happens.
    pub fn change_shape(&mut self, toggle_released: bool)
        requires
            old(self).wf(),
        ensures
            final(self).wf(),
            final(self).next_id == old(self).next_id,
            final(self).convention == old(self).convention,
            final(self).count == old(self).count,
            !toggle_released ==> same_state(*final(self), *old(self)),
            toggle_released ==> match first_index(old(self).entities@, shaped_player_pred()) {
                Some(i) => final(self).entities@ == old(self).entities@.update(
                    i,
                    spec_with_shape(
                        old(self).entities@[i],
                        spec_toggle_shape(old(self).entities@[i].shape->Some_0),
                        old(self).convention,
                    ),
                ),
                None => same_state(*final(self), *old(self)),
            },
    {
        if !toggle_released {
            return;
        }
        let found = self.find_shaped_player();
        match found {
            None => {},
            Some(i) => {
                let record = self.entities[i];
                let id = record.id;
                let new_shape = toggle_shape(record.shape.unwrap());
                proof {
                    assert forall|j: int| 0 <= j < i implies !(id_pred(id)(
                        #[trigger] self.entities@[j],
                    )) by {
                        assert(self.entities@[j].id != self.entities@[i as int].id);
                    }
                    lemma_first_index_at(self.entities@, id_pred(id), i as int);
                }
                self.replace_shape(id, new_shape);
            },
        }
    }

    /// The spawn skill: while the click mode is `SpawnCube`, a left press
    /// after the spawn cooldown elapsed creates a cube at the mouse position,
    /// with its shape and color attached — the attach-on-change rules derive
    /// the visual, collider and material at once. Without a controlled
    /// entity, or when any input condition fails, nothing happens.
    pub fn spawn_cube_skill(
        &mut self,
        mouse_coor: &PlayerMouseCoor,
        left_pressed: bool,
        timer_finished: bool,
        color: EntityColor,
    ) -> (spawned: Option<u64>)
        requires
            old(self).wf(),
            old(self).next_id < u64::MAX,
            old(self).count.0 < u32::MAX,
        ensures
            final(self).wf(),
            final(self).convention == old(self).convention,
            match first_index(old(self).entities@, player_pred()) {
                Some(i) => {
                    if old(self).entities@[i].player->Some_0.0 is SpawnCube && left_pressed
                        && timer_finished {
                        &&& spawned == Some(old(self).next_id)
                        &&& final(self).next_id == old(self).next_id + 1
                        &&& final(self).count.0 == old(self).count.0 + 1
                        &&& final(self).entities@ == old(self).entities@.push(
                            spec_spawned_record(
                                old(self).next_id,
                                Some(Position { x: mouse_coor.x, y: mouse_coor.y, z: 0 }),
                                Some(Shape::Circle { radius: CUBE_SHAPE_RADIUS as u32 }),
                                Some(color),
                                Some(Cube { width: CUBE_SIDE as u32, height: CUBE_SIDE as u32 }),
                                None,
                                old(self).convention,
                            ),
                        )
                    } else {
                        spawned is None && same_state(*final(self), *old(self))
                    }
                },
                None => spawned is None && same_state(*final(self), *old(self)),
            },
    {
        let found = self.find_player();
        match found {
            None => None,
            Some(i) => {
                let click_mode = self.entities[i].player.unwrap().0;
                if matches!(click_mode, ClickMode::SpawnCube) && left_pressed && timer_finished {
                    let (cube, _) = Cube::bundle(CUBE_SIDE, CUBE_SIDE);
                    let position = Position { x: mouse_coor.x, y: mouse_coor.y, z: 0 };
                    let id = self.spawn(
                        Some(position),
                        Some(Shape::Circle { radius: CUBE_SHAPE_RADIUS }),
                        Some(color),
                        Some(cube),
                        None,
                    );
                    Some(id)
                } else {
                    None
                }
            },
        }
    }

    /// The despawn skill: while the right button is held, remove the first
    /// cube whose position lies strictly closer to the mouse than half the
    /// cube's height. With no cube under the cursor, or without the press,
    /// nothing happens.
    pub fn despawn_cube_skill(&mut self, mouse_coor: &PlayerMouseCoor, right_pressed: bool) -> (
        removed: Option<u64>)
        requires
            old(self).wf(),
        ensures
            final(self).wf(),
            final(self).next_id == old(self).next_id,
            final(self).convention == old(self).convention,
            !right_pressed ==> removed is None && same_state(*final(self), *old(self)),
            right_pressed ==> match first_index(
                old(self).entities@,
                pick_pred(mouse_coor.x as int, mouse_coor.y as int),
            ) {
                Some(i) => {
                    &&& removed == Some(old(self).entities@[i].id)
                    &&& final(self).entities@ == old(self).entities@.remove(i)
                    &&& final(self).count.0 == old(self).count.0 - 1
                },
                None => removed is None && same_state(*final(self), *old(self)),
            },
    {
        if !right_pressed {
            return None;
        }
        let ghost mx = mouse_coor.x as int;
        let ghost my = mouse_coor.y as int;
        let n = self.entities.len();
        let mut i: usize = 0;
        while i < n
            invariant
                right_pressed,
                old(self).wf(),
                *self == *old(self),
                n == self.entities@.len(),
                i <= n,
                mx == mouse_coor.x as int,
                my == mouse_coor.y as int,
                forall|j: int| 0 <= j < i ==> !(pick_pred(mx, my)(#[trigger] self.entities@[j])),
            decreases n - i,
        {
            let r = self.entities[i];
            if cube_under_cursor(&r, mouse_coor.x, mouse_coor.y) {
                let id = r.id;
                proof {
                    lemma_first_index_at(self.entities@, pick_pred(mx, my), i as int);
                    assert forall|j: int| 0 <= j < i implies !(id_pred(id)(
                        #[trigger] self.entities@[j],
                    )) by {
                        assert(self.entities@[j].id != self.entities@[i as int].id);
                    }
                    lemma_first_index_at(self.entities@, id_pred(id), i as int);
                    assert(is_cube(self.entities@[i as int]));
                }
                self.despawn(id);
                return Some(id);
            }
            i = i + 1;
        }
        proof {
            lemma_first_index_none(self.entities@, pick_pred(mx, my));
        }
        None
    }
}

} // verus!
