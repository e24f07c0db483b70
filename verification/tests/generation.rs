use catacombat::coord::Coord;
use catacombat::state::GameState;
use catacombat::walker::{
    check_walkers, destroy_walker_generators, generate_catacomb, setup_walkers, unit_step,
    walk_walker_generators, Walker, MAX_LIFETIME, MIN_LIFETIME, WALKER_COUNT,
};
use catacombat::world::WorldCatacomb;

fn reachable_from(world: &WorldCatacomb, origin: Coord) -> Vec<Coord> {
    let mut seen = vec![origin];
    let mut next = 0;
    while next < seen.len() {
        let at = seen[next];
        next += 1;
        for step in [Coord::new(1, 0), Coord::new(-1, 0), Coord::new(0, 1), Coord::new(0, -1)] {
            if let Some(cell) = at.checked_add(&step) {
                if world.contains(&cell) && !seen.contains(&cell) {
                    seen.push(cell);
                }
            }
        }
    }
    seen
}

#[test]
fn unit_steps_are_the_four_axis_vectors() {
    assert_eq!(unit_step(true, true), Coord::new(1, 0));
    assert_eq!(unit_step(true, false), Coord::new(-1, 0));
    assert_eq!(unit_step(false, true), Coord::new(0, 1));
    assert_eq!(unit_step(false, false), Coord::new(0, -1));
}

#[test]
fn new_walker_lifetime_is_in_bounds() {
    for _ in 0..200 {
        let w = Walker::new(Coord::new(3, -4));
        assert_eq!(w.current_location, Coord::new(3, -4));
        assert!(MIN_LIFETIME <= w.steps_to_live && w.steps_to_live <= MAX_LIFETIME);
    }
}

#[test]
fn step_onto_new_ground_costs_nothing() {
    let mut world = WorldCatacomb::new();
    let mut w = Walker::with_lifetime(Coord::new(0, 0), 5);
    w.walk_by(&mut world, true, true);
    assert_eq!(w.current_location, Coord::new(1, 0));
    assert_eq!(w.steps_to_live, 5);
    assert!(world.contains(&Coord::new(1, 0)));
    assert!(!world.contains(&Coord::new(0, 0)));
    assert_eq!(world.cells().len(), 1);
}

#[test]
fn step_onto_carved_ground_costs_one() {
    let mut world = WorldCatacomb::from_cells(&vec![Coord::new(0, 1)]);
    let mut w = Walker::with_lifetime(Coord::new(0, 0), 5);
    w.walk_by(&mut world, false, true);
    assert_eq!(w.current_location, Coord::new(0, 1));
    assert_eq!(w.steps_to_live, 4);
    assert_eq!(world.cells().len(), 1);
}

#[test]
fn spent_walker_does_not_walk() {
    let mut world = WorldCatacomb::new();
    let mut w = Walker::with_lifetime(Coord::new(2, 2), 0);
    w.walk_by(&mut world, true, false);
    assert_eq!(w.current_location, Coord::new(2, 2));
    assert_eq!(w.steps_to_live, 0);
    assert_eq!(world.cells().len(), 0);
}

#[test]
fn step_off_the_grid_is_not_taken() {
    let mut world = WorldCatacomb::new();
    let mut w = Walker::with_lifetime(Coord::new(i32::MAX, 0), 2);
    w.walk_by(&mut world, true, true);
    assert_eq!(w.current_location, Coord::new(i32::MAX, 0));
    assert_eq!(w.steps_to_live, 1);
    assert_eq!(world.cells().len(), 0);
}

#[test]
fn random_walk_moves_one_step_and_carves() {
    for _ in 0..100 {
        let mut world = WorldCatacomb::new();
        let mut w = Walker::with_lifetime(Coord::new(0, 0), 3);
        w.walk(&mut world);
        assert_eq!(w.current_location.manhattan_distance(&Coord::new(0, 0)), 1);
        assert!(world.contains(&w.current_location));
        assert_eq!(w.steps_to_live, 3);
    }
}

#[test]
fn setup_spawns_four_walkers_at_the_origin() {
    let walkers = setup_walkers();
    assert_eq!(walkers.len(), WALKER_COUNT);
    assert_eq!(walkers.len(), 4);
    for w in &walkers {
        assert_eq!(w.current_location, Coord::new(0, 0));
        assert!(3 <= w.steps_to_live && w.steps_to_live <= 70);
    }
}

#[test]
fn destroy_removes_only_spent_walkers() {
    let mut walkers = vec![
        Walker::with_lifetime(Coord::new(0, 0), 0),
        Walker::with_lifetime(Coord::new(1, 0), 2),
        Walker::with_lifetime(Coord::new(2, 0), 0),
        Walker::with_lifetime(Coord::new(3, 0), 1),
    ];
    destroy_walker_generators(&mut walkers);
    assert_eq!(walkers.len(), 2);
    assert_eq!(walkers[0].current_location, Coord::new(1, 0));
    assert_eq!(walkers[0].steps_to_live, 2);
    assert_eq!(walkers[1].current_location, Coord::new(3, 0));
    assert_eq!(walkers[1].steps_to_live, 1);
}

#[test]
fn check_walkers_starts_the_game_when_none_is_left() {
    let none: Vec<Walker> = Vec::new();
    assert_eq!(check_walkers(&none, GameState::Generating), GameState::Game);
    let some = vec![Walker::with_lifetime(Coord::new(0, 0), 1)];
    assert_eq!(check_walkers(&some, GameState::Generating), GameState::Generating);
}

#[test]
fn a_tick_never_raises_a_lifetime_nor_loses_a_cell() {
    let mut world = WorldCatacomb::new();
    let mut walkers = setup_walkers();
    for _ in 0..50 {
        let before: Vec<Walker> = walkers.clone();
        let cells_before = world.cells();
        walk_walker_generators(&mut walkers, &mut world);
        assert_eq!(walkers.len(), before.len());
        for (old, new) in before.iter().zip(walkers.iter()) {
            assert!(new.steps_to_live <= old.steps_to_live);
            assert!(new.current_location.manhattan_distance(&old.current_location) <= 1);
        }
        for c in &cells_before {
            assert!(world.contains(c));
        }
    }
}

#[test]
fn generated_catacomb_is_connected_to_the_origin() {
    for _ in 0..20 {
        let origin = Coord::new(0, 0);
        let world = generate_catacomb(origin, 4);
        let cells = world.cells();
        assert!(!cells.is_empty());
        let seen = reachable_from(&world, origin);
        for c in &cells {
            assert!(seen.contains(c));
        }
    }
}

#[test]
fn generation_with_one_walker_ends_and_is_connected() {
    let origin = Coord::new(7, -3);
    let world = generate_catacomb(origin, 1);
    let seen = reachable_from(&world, origin);
    for c in &world.cells() {
        assert!(seen.contains(c));
    }
}

#[test]
fn generation_with_no_walker_carves_nothing() {
    let world = generate_catacomb(Coord::new(0, 0), 0);
    assert!(world.cells().is_empty());
}

#[test]
fn generation_by_ticks_ends_with_no_walker() {
    let mut world = WorldCatacomb::new();
    let mut walkers = setup_walkers();
    let mut state = GameState::Generating;
    let mut ticks = 0u64;
    while state == GameState::Generating {
        walk_walker_generators(&mut walkers, &mut world);
        destroy_walker_generators(&mut walkers);
        state = check_walkers(&walkers, state);
        ticks += 1;
        assert!(ticks < 10_000_000);
    }
    assert_eq!(state, GameState::Game);
    assert!(walkers.is_empty());
}

#[test]
fn a_cell_next_to_the_origin_is_carved() {
    for _ in 0..20 {
        let origin = Coord::new(-4, 9);
        let world = generate_catacomb(origin, 2);
        let next_door = [Coord::new(-3, 9), Coord::new(-5, 9), Coord::new(-4, 10), Coord::new(-4, 8)];
        assert!(next_door.iter().any(|c| world.contains(c)));
    }
}

#[test]
fn a_tick_moves_every_live_walker_by_one_step_onto_a_carved_cell() {
    let mut world = WorldCatacomb::new();
    let mut walkers = vec![
        Walker::with_lifetime(Coord::new(0, 0), 2),
        Walker::with_lifetime(Coord::new(5, 5), 0),
        Walker::with_lifetime(Coord::new(0, 0), 1),
    ];
    walk_walker_generators(&mut walkers, &mut world);
    assert_eq!(walkers[0].current_location.manhattan_distance(&Coord::new(0, 0)), 1);
    assert_eq!(walkers[0].steps_to_live, 2);
    assert_eq!(walkers[1].current_location, Coord::new(5, 5));
    assert_eq!(walkers[1].steps_to_live, 0);
    assert_eq!(walkers[2].current_location.manhattan_distance(&Coord::new(0, 0)), 1);
    assert!(world.contains(&walkers[0].current_location));
    assert!(world.contains(&walkers[2].current_location));
    assert!(!world.contains(&Coord::new(5, 5)));
    let same = walkers[0].current_location == walkers[2].current_location;
    assert_eq!(walkers[2].steps_to_live, if same { 0 } else { 1 });
    assert_eq!(world.len(), if same { 1 } else { 2 });
}
