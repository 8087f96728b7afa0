//! Logical geometry descriptors and the state derived from them.
//!
//! A `Shape` is the single source of truth for an entity's geometry. The
//! synchronization protocol derives from it a mesh descriptor and a collider
//! descriptor; the collider is expressed in whichever units the physics
//! back-end uses (half-extents or full extents), and the derivation applies
//! the scale factor so that both footprints coincide.

use vstd::prelude::*;

verus! {

/// Logical geometry of an entity: a circle or an axis-aligned rectangle.
/// Lengths are in world units. Sizes are taken as given — a zero radius or
/// side is a caller error that this core does not guard against beyond
/// documenting that sizes are expected to be positive.
#[derive(Clone, Copy, PartialEq, Eq, Structural, Debug)]
pub enum Shape {
    Circle { radius: u32 },
    Rectangle { width: u32, height: u32 },
}

/// How the physics back-end parameterizes rectangular colliders.
#[derive(Clone, Copy, PartialEq, Eq, Structural, Debug)]
pub enum BackendConvention {
    /// The back-end takes full side lengths.
    FullExtents,
    /// The back-end takes half side lengths.
    HalfExtents,
}

/// Descriptor of the visual mesh derived from a `Shape`, in world units.
#[derive(Clone, Copy, PartialEq, Eq, Structural, Debug)]
pub enum MeshDesc {
    Disc { radius: u32 },
    Rect { width: u32, height: u32 },
}

/// Descriptor of the collider derived from a `Shape`. For `Cuboid`, the two
/// parameters are in the back-end's own units (half or full extents).
#[derive(Clone, Copy, PartialEq, Eq, Structural, Debug)]
pub enum ColliderDesc {
    Ball { radius: u32 },
    Cuboid { x_param: u32, y_param: u32 },
}

/// An RGB color value, one byte per channel.
#[derive(Clone, Copy, PartialEq, Eq, Structural, Debug)]
pub struct Color {
    pub r: u8,
    pub g: u8,
    pub b: u8,
}

/// A per-entity color that drives the material independently of the shape.
#[derive(Clone, Copy, PartialEq, Eq, Structural, Debug)]
pub struct EntityColor(pub Color);

/// The mesh/collider pair derived from a `Shape`; fully replaced, never
/// merged, whenever the shape changes.
#[derive(Clone, Copy, PartialEq, Eq, Structural, Debug)]
pub struct DerivedVisual {
    pub mesh: MeshDesc,
    pub collider: ColliderDesc,
}

/// The mesh a shape prescribes.
pub open spec fn spec_mesh_of(shape: Shape) -> MeshDesc {
    match shape {
        Shape::Circle { radius } => MeshDesc::Disc { radius },
        Shape::Rectangle { width, height } => MeshDesc::Rect { width, height },
    }
}

/// The collider a shape prescribes, in the back-end's units.
pub open spec fn spec_collider_of(shape: Shape, convention: BackendConvention) -> ColliderDesc {
    match shape {
        Shape::Circle { radius } => ColliderDesc::Ball { radius },
        Shape::Rectangle { width, height } => match convention {
            BackendConvention::FullExtents => ColliderDesc::Cuboid {
                x_param: width,
                y_param: height,
            },
            BackendConvention::HalfExtents => ColliderDesc::Cuboid {
                x_param: width / 2,
                y_param: height / 2,
            },
        },
    }
}

/// The one derived-visual set a shape prescribes.
pub open spec fn spec_visual_of(shape: Shape, convention: BackendConvention) -> DerivedVisual {
    DerivedVisual { mesh: spec_mesh_of(shape), collider: spec_collider_of(shape, convention) }
}

/// Bounding-box footprint of a mesh, in world units: (extent in x, extent in y).
pub open spec fn mesh_footprint(mesh: MeshDesc) -> (int, int) {
    match mesh {
        MeshDesc::Disc { radius } => (2 * radius, 2 * radius),
        MeshDesc::Rect { width, height } => (width as int, height as int),
    }
}

/// Bounding-box footprint of a collider, converted back to world units.
pub open spec fn collider_footprint(collider: ColliderDesc, convention: BackendConvention) -> (
    int,
    int,
) {
    match collider {
        ColliderDesc::Ball { radius } => (2 * radius, 2 * radius),
        ColliderDesc::Cuboid { x_param, y_param } => match convention {
            BackendConvention::FullExtents => (x_param as int, y_param as int),
            BackendConvention::HalfExtents => (2 * x_param, 2 * y_param),
        },
    }
}

/// Derive the visual/collider set for a shape. This is the computation the
/// attach-on-change rule performs whenever a `Shape` is attached or replaced.
pub fn derive_visual(shape: Shape, convention: BackendConvention) -> (visual: DerivedVisual)
    ensures
        visual == spec_visual_of(shape, convention),
{
    let mesh = match shape {
        Shape::Circle { radius } => MeshDesc::Disc { radius },
        Shape::Rectangle { width, height } => MeshDesc::Rect { width, height },
    };
    let collider = match shape {
        Shape::Circle { radius } => ColliderDesc::Ball { radius },
        Shape::Rectangle { width, height } => match convention {
            BackendConvention::FullExtents => ColliderDesc::Cuboid {
                x_param: width,
                y_param: height,
            },
            BackendConvention::HalfExtents => ColliderDesc::Cuboid {
                x_param: width / 2,
                y_param: height / 2,
            },
        },
    };
    DerivedVisual { mesh, collider }
}

/// The collider footprint of a derived visual numerically matches its mesh
/// footprint. Under a half-extent back-end this is exact only when the
/// rectangle sides are even, since half of an odd world unit is not a world
/// unit; circles and full-extent back-ends are always exact.
pub proof fn lemma_visual_footprints_match(shape: Shape, convention: BackendConvention)
    requires
        shape matches Shape::Rectangle { width, height } ==> convention
            == BackendConvention::HalfExtents ==> width % 2 == 0 && height % 2 == 0,
    ensures
        collider_footprint(spec_visual_of(shape, convention).collider, convention)
            == mesh_footprint(spec_visual_of(shape, convention).mesh),
{
}

/// The variant swap performed by the shape toggle: a circle becomes a square
/// of side equal to its radius, a rectangle becomes a circle of radius equal
/// to its width.
pub open spec fn spec_toggle_shape(shape: Shape) -> Shape {
    match shape {
        Shape::Circle { radius } => Shape::Rectangle { width: radius, height: radius },
        Shape::Rectangle { width, height } => Shape::Circle { radius: width },
    }
}

/// Swap a shape's variant, carrying the size parameter forward.
pub fn toggle_shape(shape: Shape) -> (swapped: Shape)
    ensures
        swapped == spec_toggle_shape(shape),
{
    match shape {
        Shape::Circle { radius } => Shape::Rectangle { width: radius, height: radius },
        Shape::Rectangle { width, height: _ } => Shape::Circle { radius: width },
    }
}

/// The toggle composed with itself is the identity on every circle and on
/// every rectangle whose sides agree; a rectangle with distinct sides cannot
/// round-trip, since the intermediate circle holds a single size parameter.
pub proof fn lemma_toggle_round_trip(shape: Shape)
    requires
        shape matches Shape::Rectangle { width, height } ==> width == height,
    ensures
        spec_toggle_shape(spec_toggle_shape(shape)) == shape,
{
}

/// Toggling a rectangle twice always restores the rectangle variant and
/// carries the width through the intermediate circle; only the height is
/// replaced by the width.
pub proof fn lemma_toggle_twice_carries_width(width: u32, height: u32)
    ensures
        spec_toggle_shape(spec_toggle_shape(Shape::Rectangle { width, height })) == (
        Shape::Rectangle { width, height: width }),
{
}

} // verus!
