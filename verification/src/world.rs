//! A model of the entity registry: live entities with independently attached
//! components, a fresh-id supply, and the population counter for the tracked
//! kind.
//!
//! The registry upholds the shape-synchronization protocol as its invariant:
//! whenever an entity carries a `Shape`, it carries exactly one derived
//! visual/collider set, and that set is the one its current shape prescribes;
//! a `Color`, when present, drives the material in the same way. All mutating
//! operations re-establish the invariant before they return, which is what
//! the reactive attach-on-change rule of the host engine guarantees at the
//! end of every registry mutation.

use vstd::prelude::*;

use crate::geometry::BackendConvention;
use crate::geometry::Color;
use crate::geometry::DerivedVisual;
use crate::geometry::EntityColor;
use crate::geometry::Shape;
use crate::geometry::derive_visual;
use crate::geometry::spec_visual_of;
use crate::interaction::Player;
use crate::population::NumberOfEntity;
use crate::population::on_cube_despawn;
use crate::population::on_cube_spawn;

verus! {

/// A 3D coordinate, written by movement and physics passes and read by the
/// culler.
#[derive(Clone, Copy, PartialEq, Eq, Structural, Debug)]
pub struct Position {
    pub x: i32,
    pub y: i32,
    pub z: i32,
}

/// The tracked dynamic kind: a cube with its side lengths in world units.
#[derive(Clone, Copy, PartialEq, Eq, Structural, Debug)]
pub struct Cube {
    pub width: u32,
    pub height: u32,
}

impl Cube {
    /// The components a freshly spawned cube starts from: the cube itself,
    /// resting at the origin.
    pub fn bundle(width: u32, height: u32) -> (bundle: (Cube, Position))
        ensures
            bundle.0 == (Cube { width, height }),
            bundle.1 == (Position { x: 0, y: 0, z: 0 }),
    {
        (Cube { width, height }, Position { x: 0, y: 0, z: 0 })
    }
}

/// Marker for the entity the camera follows.
#[derive(Clone, Copy, PartialEq, Eq, Structural, Debug)]
pub struct Line;

/// One live entity: an opaque identifier plus its attached components. The
/// `visual` and `material` fields are derived state, owned by the
/// synchronization protocol; everything else is set by the spawner or by
/// later inserts.
#[derive(Clone, Copy, Debug)]
pub struct EntityRecord {
    pub id: u64,
    pub position: Option<Position>,
    pub shape: Option<Shape>,
    pub color: Option<EntityColor>,
    pub cube: Option<Cube>,
    pub player: Option<Player>,
    pub visual: Option<DerivedVisual>,
    pub material: Option<Color>,
}

/// No identifier occurs twice.
pub open spec fn ids_unique(s: Seq<EntityRecord>) -> bool {
    forall|i: int, j: int| 0 <= i < j < s.len() ==> s[i].id != s[j].id
}

/// Every identifier is below the registry's next fresh one.
pub open spec fn ids_below(s: Seq<EntityRecord>, bound: u64) -> bool {
    forall|i: int| 0 <= i < s.len() ==> (#[trigger] s[i]).id < bound
}

/// Whether a record is of the tracked kind.
pub open spec fn is_cube(r: EntityRecord) -> bool {
    r.cube is Some
}

/// The tracked-kind predicate as a function value, so that every filter over
/// it is the same term.
pub open spec fn cube_pred() -> spec_fn(EntityRecord) -> bool {
    |r: EntityRecord| is_cube(r)
}

/// How many records are of the tracked kind.
pub open spec fn cube_count(s: Seq<EntityRecord>) -> nat {
    s.filter(cube_pred()).len()
}

/// The record's derived state is exactly what its shape and color prescribe:
/// one visual/collider set for a shape, none without one, and a material
/// mirroring the color.
pub open spec fn record_synced(r: EntityRecord, convention: BackendConvention) -> bool {
    &&& (r.shape matches Some(shape) ==> r.visual == Some(spec_visual_of(shape, convention)))
    &&& (r.shape is None ==> r.visual is None)
    &&& (r.color matches Some(c) ==> r.material == Some(c.0))
    &&& (r.color is None ==> r.material is None)
}

/// Every record is synchronized.
pub open spec fn all_synced(s: Seq<EntityRecord>, convention: BackendConvention) -> bool {
    forall|i: int| 0 <= i < s.len() ==> record_synced(#[trigger] s[i], convention)
}

/// Index of the first record satisfying `pred`, if any.
pub open spec fn first_index(s: Seq<EntityRecord>, pred: spec_fn(EntityRecord) -> bool) -> Option<
    int,
>
    decreases s.len(),
{
    if s.len() == 0 {
        None
    } else if pred(s[0]) {
        Some(0)
    } else {
        match first_index(s.skip(1), pred) {
            Some(i) => Some(i + 1),
            None => None,
        }
    }
}

/// A matching index with a match-free prefix is the one `first_index` finds.
pub proof fn lemma_first_index_at(
    s: Seq<EntityRecord>,
    pred: spec_fn(EntityRecord) -> bool,
    i: int,
)
    requires
        0 <= i < s.len(),
        pred(s[i]),
        forall|j: int| 0 <= j < i ==> !pred(s[j]),
    ensures
        first_index(s, pred) == Some(i),
    decreases i,
{
    if i > 0 {
        lemma_first_index_at(s.skip(1), pred, i - 1);
        assert(forall|j: int| 0 <= j < s.len() - 1 ==> s.skip(1)[j] == s[j + 1]);
    }
}

/// A match-free sequence has no first match.
pub proof fn lemma_first_index_none(s: Seq<EntityRecord>, pred: spec_fn(EntityRecord) -> bool)
    requires
        forall|j: int| 0 <= j < s.len() ==> !pred(s[j]),
    ensures
        first_index(s, pred) is None,
    decreases s.len(),
{
    if s.len() > 0 {
        assert(forall|j: int| 0 <= j < s.len() - 1 ==> s.skip(1)[j] == s[j + 1]);
        lemma_first_index_none(s.skip(1), pred);
    }
}

/// The predicate selecting the record with a given identifier.
pub open spec fn id_pred(id: u64) -> spec_fn(EntityRecord) -> bool {
    |r: EntityRecord| r.id == id
}

/// Index of the entity with identifier `id`, if it is live.
pub open spec fn index_of_id(s: Seq<EntityRecord>, id: u64) -> Option<int> {
    first_index(s, id_pred(id))
}

/// Splitting a sequence at a valid index splits its tracked-kind count.
pub proof fn lemma_cube_count_split(s: Seq<EntityRecord>, i: int)
    requires
        0 <= i < s.len(),
    ensures
        cube_count(s) as int == cube_count(s.take(i)) + cube_count(s.skip(i + 1)) + (if is_cube(
            s[i],
        ) {
            1int
        } else {
            0int
        }),
{
    assert(s =~= s.take(i).push(s[i]) + s.skip(i + 1));
    Seq::filter_distributes_over_add(s.take(i).push(s[i]), s.skip(i + 1), cube_pred());
    s.take(i).lemma_filter_len_push(cube_pred(), s[i]);
}

/// Replacing a record with one of the same kind keeps the tracked-kind count.
pub proof fn lemma_cube_count_update(s: Seq<EntityRecord>, i: int, r: EntityRecord)
    requires
        0 <= i < s.len(),
        is_cube(r) == is_cube(s[i]),
    ensures
        cube_count(s.update(i, r)) == cube_count(s),
{
    let t = s.update(i, r);
    lemma_cube_count_split(s, i);
    lemma_cube_count_split(t, i);
    assert(t.take(i) =~= s.take(i));
    assert(t.skip(i + 1) =~= s.skip(i + 1));
}

/// Removing a record lowers the tracked-kind count exactly when the record
/// was of the tracked kind.
pub proof fn lemma_cube_count_remove(s: Seq<EntityRecord>, i: int)
    requires
        0 <= i < s.len(),
    ensures
        cube_count(s) as int == cube_count(s.remove(i)) as int + (if is_cube(s[i]) {
            1int
        } else {
            0int
        }),
{
    let t = s.remove(i);
    lemma_cube_count_split(s, i);
    assert(t =~= s.take(i) + s.skip(i + 1));
    Seq::filter_distributes_over_add(s.take(i), s.skip(i + 1), cube_pred());
}

/// Appending a record raises the tracked-kind count exactly when the record
/// is of the tracked kind.
pub proof fn lemma_cube_count_push(s: Seq<EntityRecord>, r: EntityRecord)
    ensures
        cube_count(s.push(r)) as int == cube_count(s) as int + (if is_cube(r) {
            1int
        } else {
            0int
        }),
{
    s.lemma_filter_len_push(cube_pred(), r);
}

/// The record `spawn` creates: the requested components, with the derived
/// state the synchronization protocol attaches at once.
pub open spec fn spec_spawned_record(
    id: u64,
    position: Option<Position>,
    shape: Option<Shape>,
    color: Option<EntityColor>,
    cube: Option<Cube>,
    player: Option<Player>,
    convention: BackendConvention,
) -> EntityRecord {
    EntityRecord {
        id,
        position,
        shape,
        color,
        cube,
        player,
        visual: match shape {
            Some(s) => Some(spec_visual_of(s, convention)),
            None => None,
        },
        material: match color {
            Some(c) => Some(c.0),
            None => None,
        },
    }
}

/// In a synchronized registry a shaped entity carries exactly one derived
/// set — the one its current shape prescribes — and the set's collider
/// footprint numerically matches its mesh footprint wherever the back-end
/// unit conversion is exact: always for circles and for full-extent
/// back-ends, and for rectangles with even sides under half extents.
pub proof fn lemma_synced_footprints(world: World, i: int)
    requires
        world.wf(),
        0 <= i < world.entities@.len(),
        world.entities@[i].shape is Some,
        world.entities@[i].shape->Some_0 matches Shape::Rectangle { width, height }
            ==> world.convention == BackendConvention::HalfExtents ==> width % 2 == 0 && height % 2
            == 0,
    ensures
        world.entities@[i].visual matches Some(v) && crate::geometry::collider_footprint(
            v.collider,
            world.convention,
        ) == crate::geometry::mesh_footprint(v.mesh),
{
    crate::geometry::lemma_visual_footprints_match(
        world.entities@[i].shape->Some_0,
        world.convention,
    );
}

/// The record after a shape replacement: the new shape plus the derived
/// state the attach-on-change rule regenerates; nothing else moves.
pub open spec fn spec_with_shape(
    r: EntityRecord,
    shape: Shape,
    convention: BackendConvention,
) -> EntityRecord {
    EntityRecord { shape: Some(shape), visual: Some(spec_visual_of(shape, convention)), ..r }
}

/// The record after a color insert: the color plus the material it drives.
pub open spec fn spec_with_color(r: EntityRecord, color: EntityColor) -> EntityRecord {
    EntityRecord { color: Some(color), material: Some(color.0), ..r }
}

/// The record after the player marker is attached.
pub open spec fn spec_with_player(r: EntityRecord, player: Player) -> EntityRecord {
    EntityRecord { player: Some(player), ..r }
}

/// The record after the synchronization hook reads the shape back and
/// regenerates the derived set; a record without a shape is left alone.
pub open spec fn spec_refreshed(r: EntityRecord, convention: BackendConvention) -> EntityRecord {
    match r.shape {
        Some(s) => EntityRecord { visual: Some(spec_visual_of(s, convention)), ..r },
        None => r,
    }
}

/// Two registry states that agree in every observable part.
pub open spec fn same_state(a: World, b: World) -> bool {
    &&& a.entities@ == b.entities@
    &&& a.next_id == b.next_id
    &&& a.convention == b.convention
    &&& a.count == b.count
}

/// The central registry: live entities, the next fresh identifier, the
/// physics back-end's size convention, and the tracked-kind population.
pub struct World {
    pub entities: Vec<EntityRecord>,
    pub next_id: u64,
    pub convention: BackendConvention,
    pub count: NumberOfEntity,
}

impl World {
    /// Identifiers are unique and below the fresh supply, and the population
    /// counter equals the number of live tracked entities.
    pub open spec fn wf_core(self) -> bool {
        &&& ids_unique(self.entities@)
        &&& ids_below(self.entities@, self.next_id)
        &&& self.count.0 == cube_count(self.entities@)
    }

    /// The full registry invariant: the core bookkeeping plus the
    /// shape-synchronization protocol on every live entity.
    pub open spec fn wf(self) -> bool {
        &&& self.wf_core()
        &&& all_synced(self.entities@, self.convention)
    }

    /// An empty registry for the given physics back-end.
    pub fn new(convention: BackendConvention) -> (world: World)
        ensures
            world.wf(),
            world.entities@.len() == 0,
            world.next_id == 0,
            world.convention == convention,
            world.count.0 == 0,
    {
        let world = World {
            entities: Vec::new(),
            next_id: 0,
            convention,
            count: NumberOfEntity(0),
        };
        proof {
            reveal(Seq::filter);
        }
        world
    }

    /// Create an entity from the given components. The attach-on-change rule
    /// runs synchronously, so the new record already carries the derived
    /// state its shape and color prescribe.
    pub fn spawn(
        &mut self,
        position: Option<Position>,
        shape: Option<Shape>,
        color: Option<EntityColor>,
        cube: Option<Cube>,
        player: Option<Player>,
    ) -> (id: u64)
        requires
            old(self).wf(),
            old(self).next_id < u64::MAX,
            cube is Some ==> old(self).count.0 < u32::MAX,
        ensures
            final(self).wf(),
            id == old(self).next_id,
            final(self).next_id == old(self).next_id + 1,
            final(self).convention == old(self).convention,
            final(self).entities@ == old(self).entities@.push(
                spec_spawned_record(
                    id,
                    position,
                    shape,
                    color,
                    cube,
                    player,
                    old(self).convention,
                ),
            ),
            cube is Some ==> final(self).count.0 == old(self).count.0 + 1,
            cube is None ==> final(self).count == old(self).count,
    {
        let id = self.next_id;
        let visual = match shape {
            Some(s) => Some(derive_visual(s, self.convention)),
            None => None,
        };
        let material = match color {
            Some(c) => Some(c.0),
            None => None,
        };
        let record = EntityRecord { id, position, shape, color, cube, player, visual, material };
        self.entities.push(record);
        self.next_id = self.next_id + 1;
        if cube.is_some() {
            on_cube_spawn(&mut self.count);
        }
        proof {
            lemma_cube_count_push(old(self).entities@, record);
        }
        id
    }

    /// Position in the registry of the live entity with identifier `id`.
    pub(crate) fn find_index_of_id(&self, id: u64) -> (found: Option<usize>)
        ensures
            match found {
                Some(i) => i < self.entities@.len() && index_of_id(self.entities@, id) == Some(
                    i as int,
                ),
                None => index_of_id(self.entities@, id) is None,
            },
    {
        let n = self.entities.len();
        let mut i: usize = 0;
        while i < n
            invariant
                n == self.entities@.len(),
                i <= n,
                forall|j: int| 0 <= j < i ==> (#[trigger] self.entities@[j]).id != id,
            decreases n - i,
        {
            if self.entities[i].id == id {
                proof {
                    lemma_first_index_at(self.entities@, id_pred(id), i as int);
                }
                return Some(i);
            }
            i = i + 1;
        }
        proof {
            lemma_first_index_none(self.entities@, id_pred(id));
        }
        None
    }

    /// Replace the entity's shape with a fresh value; the attach-on-change
    /// rule regenerates the derived visual and collider at once, replacing
    /// (never merging with) the previous set. An identifier with no live
    /// entity is tolerated and changes nothing.
    pub fn replace_shape(&mut self, id: u64, shape: Shape)
        requires
            old(self).wf(),
        ensures
            final(self).wf(),
            final(self).next_id == old(self).next_id,
            final(self).convention == old(self).convention,
            final(self).count == old(self).count,
            match index_of_id(old(self).entities@, id) {
                Some(i) => final(self).entities@ == old(self).entities@.update(
                    i,
                    spec_with_shape(old(self).entities@[i], shape, old(self).convention),
                ),
                None => final(self).entities@ == old(self).entities@,
            },
    {
        let found = self.find_index_of_id(id);
        match found {
            None => {},
            Some(i) => {
                let mut record = self.entities[i];
                record.shape = Some(shape);
                record.visual = Some(derive_visual(shape, self.convention));
                self.entities.set(i, record);
                proof {
                    lemma_cube_count_update(old(self).entities@, i as int, record);
                }
            },
        }
    }

    /// Attach or replace the entity's color; the color-driven rule replaces
    /// the material to match, independently of any shape change. An
    /// identifier with no live entity is tolerated and changes nothing.
    pub fn set_color(&mut self, id: u64, color: EntityColor)
        requires
            old(self).wf(),
        ensures
            final(self).wf(),
            final(self).next_id == old(self).next_id,
            final(self).convention == old(self).convention,
            final(self).count == old(self).count,
            match index_of_id(old(self).entities@, id) {
                Some(i) => final(self).entities@ == old(self).entities@.update(
                    i,
                    spec_with_color(old(self).entities@[i], color),
                ),
                None => final(self).entities@ == old(self).entities@,
            },
    {
        let found = self.find_index_of_id(id);
        match found {
            None => {},
            Some(i) => {
                let mut record = self.entities[i];
                record.color = Some(color);
                record.material = Some(color.0);
                self.entities.set(i, record);
                proof {
                    lemma_cube_count_update(old(self).entities@, i as int, record);
                }
            },
        }
    }

    /// Attach the controlled-player marker to an entity. An identifier with
    /// no live entity is tolerated and changes nothing.
    pub fn set_player(&mut self, id: u64, player: Player)
        requires
            old(self).wf(),
        ensures
            final(self).wf(),
            final(self).next_id == old(self).next_id,
            final(self).convention == old(self).convention,
            final(self).count == old(self).count,
            match index_of_id(old(self).entities@, id) {
                Some(i) => final(self).entities@ == old(self).entities@.update(
                    i,
                    spec_with_player(old(self).entities@[i], player),
                ),
                None => final(self).entities@ == old(self).entities@,
            },
    {
        let found = self.find_index_of_id(id);
        match found {
            None => {},
            Some(i) => {
                let mut record = self.entities[i];
                record.player = Some(player);
                self.entities.set(i, record);
                proof {
                    lemma_cube_count_update(old(self).entities@, i as int, record);
                }
            },
        }
    }

    /// The reactive hook itself: fired after a `Shape` is attached or
    /// replaced, it reads the shape back from the registry and regenerates
    /// the derived visual and collider. If the entity was removed before the
    /// hook ran (a race with a concurrent despawn), or carries no shape, the
    /// hook silently does nothing; it never faults.
    pub fn on_insert_shape_attach_mesh_and_material(&mut self, id: u64)
        requires
            old(self).wf_core(),
        ensures
            final(self).wf_core(),
            final(self).next_id == old(self).next_id,
            final(self).convention == old(self).convention,
            final(self).count == old(self).count,
            match index_of_id(old(self).entities@, id) {
                Some(i) => final(self).entities@ == old(self).entities@.update(
                    i,
                    spec_refreshed(old(self).entities@[i], old(self).convention),
                ),
                None => final(self).entities@ == old(self).entities@,
            },
            old(self).wf() ==> final(self).wf(),
    {
        let found = self.find_index_of_id(id);
        match found {
            None => {},
            Some(i) => {
                let mut record = self.entities[i];
                match record.shape {
                    None => {
                        proof {
                            assert(old(self).entities@.update(
                                i as int,
                                spec_refreshed(old(self).entities@[i as int], old(self).convention),
                            ) =~= old(self).entities@);
                        }
                    },
                    Some(shape) => {
                        record.visual = Some(derive_visual(shape, self.convention));
                        self.entities.set(i, record);
                        proof {
                            lemma_cube_count_update(old(self).entities@, i as int, record);
                        }
                    },
                }
            },
        }
    }

    /// Remove a live entity together with every component attached to it,
    /// and keep the tracked-kind population in step. Reports whether an
    /// entity was actually removed.
    pub fn despawn(&mut self, id: u64) -> (removed: bool)
        requires
            old(self).wf(),
        ensures
            final(self).wf(),
            final(self).next_id == old(self).next_id,
            final(self).convention == old(self).convention,
            match index_of_id(old(self).entities@, id) {
                Some(i) => removed && final(self).entities@ == old(self).entities@.remove(i)
                    && final(self).count.0 == old(self).count.0 - (if is_cube(
                    old(self).entities@[i],
                ) {
                    1int
                } else {
                    0int
                }),
                None => !removed && final(self).entities@ == old(self).entities@
                    && final(self).count == old(self).count,
            },
    {
        let found = self.find_index_of_id(id);
        match found {
            None => false,
            Some(i) => {
                let record = self.entities[i];
                self.entities.remove(i);
                proof {
                    lemma_cube_count_remove(old(self).entities@, i as int);
                    old(self).entities@.remove_ensures(i as int);
                }
                if record.cube.is_some() {
                    on_cube_despawn(&mut self.count);
                }
                proof {
                    let s = old(self).entities@;
                    let t = self.entities@;
                    assert forall|a: int, b: int| 0 <= a < b < t.len() implies (#[trigger] t[a]).id
                        != (#[trigger] t[b]).id by {
                        let a2: int = if a < i { a } else { a + 1 };
                        let b2: int = if b < i { b } else { b + 1 };
                        assert(t[a] == s[a2]);
                        assert(t[b] == s[b2]);
                    }
                    assert forall|a: int| 0 <= a < t.len() implies (#[trigger] t[a]).id < self.next_id
                        by {
                        let a2: int = if a < i { a } else { a + 1 };
                        assert(t[a] == s[a2]);
                    }
                    assert forall|a: int| 0 <= a < t.len() implies record_synced(
                        #[trigger] t[a],
                        self.convention,
                    ) by {
                        let a2: int = if a < i { a } else { a + 1 };
                        assert(t[a] == s[a2]);
                        assert(record_synced(s[a2], self.convention));
                    }
                }
                true
            },
        }
    }
}

} // verus!
