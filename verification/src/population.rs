//! Process-wide population counter for the tracked entity kind.
//!
//! The counter is owned by whoever needs it and is updated by explicit calls
//! made at the creation and removal sites; a decrement is only ever paired
//! with a prior increment, so the count never goes negative.

use vstd::prelude::*;

verus! {

/// Number of currently live entities of the tracked kind.
#[derive(Clone, Copy, PartialEq, Eq, Structural, Debug)]
pub struct NumberOfEntity(pub u32);

impl Default for NumberOfEntity {
    /// A fresh counter starts at zero.
    fn default() -> (counter: Self)
        ensures
            counter.0 == 0,
    {
        NumberOfEntity(0)
    }
}

/// Record the creation of a tracked entity.
pub fn on_cube_spawn(number_of_entity: &mut NumberOfEntity)
    requires
        old(number_of_entity).0 < u32::MAX,
    ensures
        final(number_of_entity).0 == old(number_of_entity).0 + 1,
{
    number_of_entity.0 = number_of_entity.0 + 1;
}

/// Record the removal of a tracked entity. Only called after a matching
/// creation, so the count is positive.
pub fn on_cube_despawn(number_of_entity: &mut NumberOfEntity)
    requires
        old(number_of_entity).0 > 0,
    ensures
        final(number_of_entity).0 == old(number_of_entity).0 - 1,
{
    number_of_entity.0 = number_of_entity.0 - 1;
}

} // verus!
