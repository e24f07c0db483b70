use catacombat::coord::Coord;
use catacombat::location::WorldLocation;
use catacombat::player::{move_player, new_player_location, setup_player, Player, PlayerInput, PLAYER_ID};
use catacombat::world::WorldCatacomb;

fn room() -> WorldCatacomb {
    WorldCatacomb::from_cells(&vec![
        Coord::new(0, 0),
        Coord::new(0, 1),
        Coord::new(1, 0),
        Coord::new(-1, 0),
    ])
}

fn input(turn_left: bool, turn_right: bool, move_forward: bool) -> PlayerInput {
    PlayerInput { turn_left, turn_right, move_forward }
}

#[test]
fn the_player_starts_at_the_origin_facing_along_y() {
    let l = new_player_location();
    assert_eq!(l, WorldLocation::new(Coord::new(0, 0), Coord::new(0, 1)));
    let p = Player::new(5);
    assert_eq!(p.id, 5);
    assert_eq!(p.location, l);
    assert_eq!(p.health.points(), 100);
    assert!(!p.combat.is_in_combat);
}

#[test]
fn a_free_camera_takes_the_place_of_the_player() {
    assert_eq!(setup_player(true), None);
    assert_eq!(setup_player(false), Some(Player::new(PLAYER_ID)));
    assert_eq!(PLAYER_ID, 0);
}

#[test]
fn no_command_is_no_tick() {
    let world = room();
    let mut l = new_player_location();
    assert_eq!(move_player(&mut l, &world, input(false, false, false)), 0);
    assert_eq!(l, new_player_location());
}

#[test]
fn every_command_is_a_tick() {
    let world = room();
    let mut l = new_player_location();
    assert_eq!(move_player(&mut l, &world, input(true, false, false)), 1);
    assert_eq!(l.get_forward(), Coord::new(-1, 0));
    assert_eq!(move_player(&mut l, &world, input(false, false, true)), 1);
    assert_eq!(l.get_location(), Coord::new(-1, 0));
    assert_eq!(move_player(&mut l, &world, input(false, false, true)), 1);
    assert_eq!(l.get_location(), Coord::new(-1, 0));
    assert_eq!(move_player(&mut l, &world, input(false, true, false)), 1);
    assert_eq!(l.get_forward(), Coord::new(0, 1));
}

#[test]
fn commands_of_one_frame_come_left_right_forward() {
    let world = room();
    let mut l = new_player_location();
    assert_eq!(move_player(&mut l, &world, input(true, true, true)), 3);
    assert_eq!(l.get_forward(), Coord::new(0, 1));
    assert_eq!(l.get_location(), Coord::new(0, 1));
    let mut m = new_player_location();
    assert_eq!(move_player(&mut m, &world, input(false, true, true)), 2);
    assert_eq!(m.get_forward(), Coord::new(1, 0));
    assert_eq!(m.get_location(), Coord::new(1, 0));
}

#[test]
fn a_frozen_player_still_ticks() {
    let world = room();
    let mut l = new_player_location();
    l.can_move = false;
    assert_eq!(move_player(&mut l, &world, input(true, false, true)), 2);
    assert_eq!(l.get_forward(), Coord::new(0, 1));
    assert_eq!(l.get_location(), Coord::new(0, 0));
}
