//! User-facing interaction state: the controlled player's click mode, the
//! UI button that toggles it, the pair-selection used to connect two entities,
//! and the last known mouse position in world coordinates.

use vstd::prelude::*;

verus! {

/// What a primary click does: spawn a cube, or select entities to join.
#[derive(Clone, Copy, PartialEq, Eq, Structural, Debug)]
pub enum ClickMode {
    SpawnCube,
    JoinCube,
}

impl ClickMode {
    /// The opposite mode.
    pub open spec fn spec_toggled(self) -> ClickMode {
        match self {
            ClickMode::SpawnCube => ClickMode::JoinCube,
            ClickMode::JoinCube => ClickMode::SpawnCube,
        }
    }

    /// The label shown on the mode button while this mode is active.
    pub open spec fn spec_label(self) -> Seq<char> {
        match self {
            ClickMode::SpawnCube => "SpawnCube"@,
            ClickMode::JoinCube => "JoinCube"@,
        }
    }

    /// Switch to the opposite mode.
    pub fn toggled(self) -> (switched: ClickMode)
        ensures
            switched == self.spec_toggled(),
    {
        match self {
            ClickMode::SpawnCube => ClickMode::JoinCube,
            ClickMode::JoinCube => ClickMode::SpawnCube,
        }
    }

    /// The button label for this mode.
    pub fn label(self) -> (text: &'static str)
        ensures
            text@ == self.spec_label(),
    {
        match self {
            ClickMode::SpawnCube => "SpawnCube",
            ClickMode::JoinCube => "JoinCube",
        }
    }
}

/// Marker for the single controlled entity, carrying its click mode.
#[derive(Clone, Copy, PartialEq, Eq, Structural, Debug)]
pub struct Player(pub ClickMode);

/// Two optional entity slots; once both are filled the pair can be joined.
#[derive(Clone, Copy, PartialEq, Eq, Debug)]
pub struct PairEntitySelection(pub (Option<u64>, Option<u64>));

impl Default for PairEntitySelection {
    /// Both slots start empty.
    fn default() -> (selection: Self)
        ensures
            selection.0.0 is None,
            selection.0.1 is None,
    {
        PairEntitySelection((None, None))
    }
}

/// Record a clicked entity: the first empty slot takes it. When both slots
/// are already full the selection is left as it is and the pair is reported
/// ready to be connected.
pub fn join_cube(selected_pair_entity: &mut PairEntitySelection, selected_entity: u64) -> (ready:
    bool)
    ensures
        old(selected_pair_entity).0.0 is None ==> !ready && final(selected_pair_entity).0 == (
        Some(selected_entity),
        old(selected_pair_entity).0.1,
        ),
        old(selected_pair_entity).0.0 is Some && old(selected_pair_entity).0.1 is None ==> !ready
            && final(selected_pair_entity).0 == (
        old(selected_pair_entity).0.0,
        Some(selected_entity),
        ),
        old(selected_pair_entity).0.0 is Some && old(selected_pair_entity).0.1 is Some ==> ready
            && *final(selected_pair_entity) == *old(selected_pair_entity),
{
    let (ent1, ent2) = selected_pair_entity.0;
    if ent1.is_none() {
        selected_pair_entity.0 = (Some(selected_entity), ent2);
        false
    } else if ent2.is_none() {
        selected_pair_entity.0 = (ent1, Some(selected_entity));
        false
    } else {
        true
    }
}

/// Take the completed pair out of the selection, clearing both slots so the
/// next two clicks select a fresh pair. The caller hands the returned pair to
/// the physics back-end to be joined.
pub fn connect_entities(selected_entities: &mut PairEntitySelection) -> (pair: (u64, u64))
    requires
        old(selected_entities).0.0 is Some,
        old(selected_entities).0.1 is Some,
    ensures
        pair.0 == old(selected_entities).0.0->Some_0,
        pair.1 == old(selected_entities).0.1->Some_0,
        final(selected_entities).0.0 is None,
        final(selected_entities).0.1 is None,
{
    let (ent1, ent2) = selected_entities.0;
    selected_entities.0 = (None, None);
    (ent1.unwrap(), ent2.unwrap())
}

/// The button's interaction state, as reported by the UI layer.
#[derive(Clone, Copy, PartialEq, Eq, Structural, Debug)]
pub enum Interaction {
    Pressed,
    Hovered,
    Idle,
}

/// Background fill chosen for the button.
#[derive(Clone, Copy, PartialEq, Eq, Structural, Debug)]
pub enum ButtonBackground {
    Normal,
    Hovered,
    Pressed,
}

/// Border tint chosen for the button.
#[derive(Clone, Copy, PartialEq, Eq, Structural, Debug)]
pub enum BorderTint {
    Black,
    White,
    Red,
}

/// React to the button: a press toggles the player's click mode and relabels
/// the button with the new mode; hovering and resting only restyle it.
pub fn button_system(interaction: Interaction, player: &mut Player) -> (feedback: (
    ButtonBackground,
    BorderTint,
    Option<&'static str>,
))
    ensures
        interaction is Pressed ==> {
            &&& final(player).0 == old(player).0.spec_toggled()
            &&& feedback.0 is Pressed
            &&& feedback.1 is Red
            &&& feedback.2 matches Some(text) && text@ == final(player).0.spec_label()
        },
        interaction is Hovered ==> *final(player) == *old(player) && feedback == (
        ButtonBackground::Hovered,
        BorderTint::White,
        None::<&'static str>,
        ),
        interaction is Idle ==> *final(player) == *old(player) && feedback == (
        ButtonBackground::Normal,
        BorderTint::Black,
        None::<&'static str>,
        ),
{
    match interaction {
        Interaction::Pressed => {
            let new_mode = player.0.toggled();
            player.0 = new_mode;
            (ButtonBackground::Pressed, BorderTint::Red, Some(new_mode.label()))
        },
        Interaction::Hovered => (ButtonBackground::Hovered, BorderTint::White, None),
        Interaction::Idle => (ButtonBackground::Normal, BorderTint::Black, None),
    }
}

/// Last mouse position, in world coordinates.
#[derive(Clone, Copy, PartialEq, Eq, Structural, Debug)]
pub struct PlayerMouseCoor {
    pub x: i32,
    pub y: i32,
}

impl PlayerMouseCoor {
    /// Overwrite the stored position with the one just read.
    pub fn update(&mut self, x: i32, y: i32)
        ensures
            final(self).x == x,
            final(self).y == y,
    {
        self.x = x;
        self.y = y;
    }
}

impl Default for PlayerMouseCoor {
    /// Before any reading arrives the position is the origin.
    fn default() -> (coor: Self)
        ensures
            coor.x == 0,
            coor.y == 0,
    {
        PlayerMouseCoor { x: 0, y: 0 }
    }
}

} // verus!
