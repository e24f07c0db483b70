use catacombat::animation::AnimationTimer;
use catacombat::combat::CombatState;
use catacombat::coord::Coord;
use catacombat::enemy::{enemies_find_player, facings, move_enemies, setup_enemies, Enemy, ENEMY_COUNT};
use catacombat::location::WorldLocation;
use catacombat::path::{Path, PathError};
use catacombat::world::WorldCatacomb;

fn corridor() -> WorldCatacomb {
    WorldCatacomb::from_cells(&vec![Coord::new(0, 0), Coord::new(1, 0), Coord::new(2, 0)])
}

fn cultist(id: u64, x: i32, y: i32, fx: i32, fy: i32) -> Enemy {
    Enemy::new(
        id,
        WorldLocation::new(Coord::new(x, y), Coord::new(fx, fy)),
        AnimationTimer::new("Cultist".to_string(), "walk".to_string()),
    )
}

#[test]
fn new_enemy_is_healthy_and_has_no_path() {
    let e = cultist(3, 1, 2, 0, 1);
    assert_eq!(e.id, 3);
    assert_eq!(e.health.points(), 100);
    assert!(!e.path.has_path());
    assert!(!e.combat.is_in_combat);
    assert!(e.location.can_move);
}

#[test]
fn enemies_without_a_path_find_the_player() {
    let world = corridor();
    let mut busy = cultist(2, 1, 0, 1, 0);
    busy.path = Path::from_waypoints(vec![Coord::new(0, 0)]);
    let mut enemies = vec![cultist(1, 0, 0, 0, 1), busy];
    let player = WorldLocation::new(Coord::new(2, 0), Coord::new(0, 1));
    let failures = enemies_find_player(&mut enemies, 1, &player, &world);
    assert!(failures.is_empty());
    assert_eq!(enemies[0].path.waypoints(), &vec![Coord::new(1, 0), Coord::new(2, 0)]);
    assert_eq!(enemies[1].path.waypoints(), &vec![Coord::new(0, 0)]);
}

#[test]
fn enemies_do_not_search_without_a_tick() {
    let world = corridor();
    let mut enemies = vec![cultist(1, 0, 0, 0, 1)];
    let player = WorldLocation::new(Coord::new(2, 0), Coord::new(0, 1));
    let failures = enemies_find_player(&mut enemies, 0, &player, &world);
    assert!(failures.is_empty());
    assert!(!enemies[0].path.has_path());
}

#[test]
fn failed_searches_are_reported_once_each() {
    let world = WorldCatacomb::from_cells(&vec![Coord::new(0, 0), Coord::new(1, 0), Coord::new(3, 0)]);
    let mut enemies = vec![cultist(1, 0, 0, 0, 1), cultist(2, 3, 0, 0, 1)];
    let player = WorldLocation::new(Coord::new(3, 0), Coord::new(0, 1));
    let failures = enemies_find_player(&mut enemies, 3, &player, &world);
    assert_eq!(failures, vec![(1, PathError::NoPathFound)]);
    assert!(!enemies[0].path.has_path());
    let outside = WorldLocation::new(Coord::new(9, 9), Coord::new(0, 1));
    let failures = enemies_find_player(&mut enemies, 1, &outside, &world);
    assert_eq!(
        failures,
        vec![(1, PathError::TargetOutsideMap), (2, PathError::TargetOutsideMap)]
    );
}

#[test]
fn enemies_move_once_a_tick() {
    let world = corridor();
    let mut walker = cultist(1, 0, 0, 1, 0);
    walker.path = Path::from_waypoints(vec![Coord::new(1, 0), Coord::new(2, 0)]);
    let mut turner = cultist(2, 2, 0, 0, 1);
    turner.path = Path::from_waypoints(vec![Coord::new(1, 0)]);
    let mut enemies = vec![walker, turner, cultist(3, 1, 0, 0, 1)];
    move_enemies(&mut enemies, 1, &CombatState::new(), &world);
    assert_eq!(enemies[0].location.get_location(), Coord::new(1, 0));
    assert_eq!(enemies[1].location.get_location(), Coord::new(2, 0));
    assert_eq!(enemies[1].location.get_forward(), Coord::new(-1, 0));
    assert_eq!(enemies[2].location, WorldLocation::new(Coord::new(1, 0), Coord::new(0, 1)));
    move_enemies(&mut enemies, 1, &CombatState::new(), &world);
    assert_eq!(enemies[0].location.get_location(), Coord::new(2, 0));
    assert_eq!(enemies[0].path.waypoints(), &vec![Coord::new(2, 0)]);
    assert_eq!(enemies[1].location.get_location(), Coord::new(1, 0));
}

#[test]
fn enemies_move_once_for_every_pending_tick() {
    let world = corridor();
    let mut walker = cultist(1, 0, 0, 0, 1);
    walker.path = Path::from_waypoints(vec![Coord::new(1, 0), Coord::new(2, 0)]);
    let mut enemies = vec![walker];
    move_enemies(&mut enemies, 5, &CombatState::new(), &world);
    assert_eq!(enemies[0].location.get_location(), Coord::new(2, 0));
    assert_eq!(enemies[0].location.get_forward(), Coord::new(1, 0));
    assert_eq!(enemies[0].path.waypoints(), &vec![Coord::new(2, 0)]);
}

#[test]
fn nobody_moves_while_an_opponent_is_engaged() {
    let world = corridor();
    let mut walker = cultist(1, 0, 0, 1, 0);
    walker.path = Path::from_waypoints(vec![Coord::new(1, 0)]);
    let mut enemies = vec![walker];
    let mut state = CombatState::new();
    state.opponent = Some(4);
    move_enemies(&mut enemies, 3, &state, &world);
    assert_eq!(enemies[0].location.get_location(), Coord::new(0, 0));
    assert!(enemies[0].path.has_path());
}

#[test]
fn nobody_moves_without_a_tick() {
    let world = corridor();
    let mut walker = cultist(1, 0, 0, 1, 0);
    walker.path = Path::from_waypoints(vec![Coord::new(0, 0), Coord::new(1, 0)]);
    let mut enemies = vec![walker];
    move_enemies(&mut enemies, 0, &CombatState::new(), &world);
    assert_eq!(enemies[0].location.get_location(), Coord::new(0, 0));
    assert_eq!(enemies[0].path.waypoints().len(), 2);
}

#[test]
fn the_four_facings() {
    assert_eq!(
        facings(),
        vec![Coord::new(1, 0), Coord::new(0, 1), Coord::new(-1, 0), Coord::new(0, -1)]
    );
}

#[test]
fn setup_puts_four_enemies_on_cells_of_their_own() {
    let mut cells = Vec::new();
    for x in 0..6 {
        for y in 0..3 {
            cells.push(Coord::new(x, y));
        }
    }
    let world = WorldCatacomb::from_cells(&cells);
    for _ in 0..50 {
        let enemies = setup_enemies(&world);
        assert_eq!(enemies.len(), ENEMY_COUNT);
        assert_eq!(enemies.len(), 4);
        for (i, e) in enemies.iter().enumerate() {
            assert_eq!(e.id, i as u64 + 1);
            assert!(world.contains(&e.location.get_location()));
            assert!(facings().contains(&e.location.get_forward()));
            assert!(e.location.can_move);
            assert_eq!(e.health.points(), 100);
            assert!(!e.path.has_path());
            assert_eq!(e.animation.library, "Cultist");
            assert_eq!(e.animation.current_animation, "walk");
            assert_eq!(e.animation.current_frame, 0);
            for other in &enemies[..i] {
                assert!(other.location.get_location() != e.location.get_location());
            }
        }
    }
}

#[test]
fn setup_in_a_small_world_puts_an_enemy_on_every_cell() {
    let world = WorldCatacomb::from_cells(&vec![Coord::new(0, 0), Coord::new(0, 1)]);
    let enemies = setup_enemies(&world);
    assert_eq!(enemies.len(), 2);
    let mut at: Vec<Coord> = enemies.iter().map(|e| e.location.get_location()).collect();
    at.sort_by_key(|c| (c.x, c.y));
    assert_eq!(at, vec![Coord::new(0, 0), Coord::new(0, 1)]);
    assert!(setup_enemies(&WorldCatacomb::new()).is_empty());
}
