//! Core logic of a small 2D physics sandbox: a population-bounded culler that
//! removes entities fallen below a vertical threshold, and a shape-driven
//! synchronization protocol that keeps an entity's derived mesh and collider
//! consistent with its logical `Shape` value.
//!
//! The host engine (windowing, rendering, physics solving, input devices) is an
//! external collaborator; this crate models the registry of entities and the
//! decisions made over it with plain integer-valued data, so that the rules can
//! be stated and proved exactly.

pub mod culler;
pub mod geometry;
pub mod interaction;
pub mod population;
pub mod robot_constructor;
pub mod skills;
pub mod world;
