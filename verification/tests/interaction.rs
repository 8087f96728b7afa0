use sandbox_core::interaction::BorderTint;
use sandbox_core::interaction::ButtonBackground;
use sandbox_core::interaction::ClickMode;
use sandbox_core::interaction::Interaction;
use sandbox_core::interaction::PairEntitySelection;
use sandbox_core::interaction::Player;
use sandbox_core::interaction::PlayerMouseCoor;
use sandbox_core::interaction::button_system;
use sandbox_core::interaction::connect_entities;
use sandbox_core::interaction::join_cube;

#[test]
fn pressing_the_button_toggles_the_click_mode_and_relabels() {
    let mut player = Player(ClickMode::SpawnCube);
    let (background, border, label) = button_system(Interaction::Pressed, &mut player);
    assert_eq!(player.0, ClickMode::JoinCube);
    assert_eq!(background, ButtonBackground::Pressed);
    assert_eq!(border, BorderTint::Red);
    assert_eq!(label, Some("JoinCube"));

    let (_, _, label) = button_system(Interaction::Pressed, &mut player);
    assert_eq!(player.0, ClickMode::SpawnCube);
    assert_eq!(label, Some("SpawnCube"));
}

#[test]
fn hovering_and_resting_leave_the_click_mode_alone() {
    let mut player = Player(ClickMode::JoinCube);
    let (background, border, label) = button_system(Interaction::Hovered, &mut player);
    assert_eq!(player.0, ClickMode::JoinCube);
    assert_eq!(background, ButtonBackground::Hovered);
    assert_eq!(border, BorderTint::White);
    assert_eq!(label, None);

    let (background, border, label) = button_system(Interaction::Idle, &mut player);
    assert_eq!(player.0, ClickMode::JoinCube);
    assert_eq!(background, ButtonBackground::Normal);
    assert_eq!(border, BorderTint::Black);
    assert_eq!(label, None);
}

#[test]
fn two_clicks_fill_the_pair_and_the_third_reports_it_ready() {
    let mut selection = PairEntitySelection::default();
    assert!(!join_cube(&mut selection, 4));
    assert_eq!(selection.0, (Some(4), None));
    assert!(!join_cube(&mut selection, 9));
    assert_eq!(selection.0, (Some(4), Some(9)));
    assert!(join_cube(&mut selection, 11));
    assert_eq!(selection.0, (Some(4), Some(9)));
}

#[test]
fn connecting_hands_out_the_pair_and_clears_the_selection() {
    let mut selection = PairEntitySelection((Some(4), Some(9)));
    let pair = connect_entities(&mut selection);
    assert_eq!(pair, (4, 9));
    assert_eq!(selection.0, (None, None));
}

#[test]
fn the_mouse_position_starts_at_the_origin_and_follows_updates() {
    let mut mouse_coor = PlayerMouseCoor::default();
    assert_eq!((mouse_coor.x, mouse_coor.y), (0, 0));
    mouse_coor.update(-37, 240);
    assert_eq!((mouse_coor.x, mouse_coor.y), (-37, 240));
}
