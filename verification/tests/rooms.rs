use catacombat::coord::Coord;
use catacombat::room::setup_walls;
use catacombat::state::{check_assets_ready, GameState, NetworkState};
use catacombat::utils::{cli_parameter_arg, convert_ivec2_to_vec3_plane};
use catacombat::world::WorldCatacomb;

fn sorted_once(mut cells: Vec<Coord>) -> Vec<Coord> {
    cells.sort_by_key(|c| (c.x, c.y));
    cells.dedup();
    cells
}

#[test]
fn a_single_room_is_walled_all_round() {
    let world = WorldCatacomb::from_cells(&vec![Coord::new(0, 0)]);
    let walls = setup_walls(&world);
    assert_eq!(walls.len(), 8);
    assert_eq!(
        sorted_once(walls),
        vec![
            Coord::new(-1, -1),
            Coord::new(-1, 0),
            Coord::new(-1, 1),
            Coord::new(0, -1),
            Coord::new(0, 1),
            Coord::new(1, -1),
            Coord::new(1, 0),
            Coord::new(1, 1),
        ]
    );
}

#[test]
fn walls_stand_where_no_room_is() {
    let world = WorldCatacomb::from_cells(&vec![Coord::new(0, 0), Coord::new(1, 0), Coord::new(1, 1)]);
    let walls = setup_walls(&world);
    for w in &walls {
        assert!(!world.contains(w));
        assert!(world.cells().iter().any(|c| (c.x - w.x).abs() <= 1 && (c.y - w.y).abs() <= 1));
    }
    let placed = sorted_once(walls);
    assert_eq!(placed.len(), 12);
    assert!(placed.contains(&Coord::new(0, 1)));
    assert!(placed.contains(&Coord::new(2, 2)));
    assert!(placed.contains(&Coord::new(-1, -1)));
    assert!(!placed.contains(&Coord::new(-1, 2)));
}

#[test]
fn an_empty_world_has_no_walls() {
    assert!(setup_walls(&WorldCatacomb::new()).is_empty());
}

#[test]
fn no_wall_stands_off_the_grid() {
    let world = WorldCatacomb::from_cells(&vec![Coord::new(i32::MAX, i32::MIN)]);
    assert_eq!(
        sorted_once(setup_walls(&world)),
        vec![
            Coord::new(i32::MAX - 1, i32::MIN),
            Coord::new(i32::MAX - 1, i32::MIN + 1),
            Coord::new(i32::MAX, i32::MIN + 1),
        ]
    );
}

#[test]
fn loading_ends_when_every_asset_is_there() {
    assert_eq!(check_assets_ready(true, GameState::Loading), GameState::Generating);
    assert_eq!(check_assets_ready(false, GameState::Loading), GameState::Loading);
    assert_eq!(GameState::default(), GameState::Loading);
    assert_eq!(NetworkState::default(), NetworkState::Offline);
}

fn strings(words: &[&str]) -> Vec<String> {
    words.iter().map(|w| w.to_string()).collect()
}

#[test]
fn an_option_takes_the_argument_that_follows() {
    let args = strings(&["server", "--port", "6000", "-v"]);
    let options = strings(&["-p", "--port"]);
    assert_eq!(cli_parameter_arg(&args, &options), Some(&"6000".to_string()));
    assert_eq!(cli_parameter_arg(&strings(&["server", "-p", "7"]), &options), Some(&"7".to_string()));
}

#[test]
fn the_first_spelling_found_counts() {
    let args = strings(&["-p", "1", "--port", "2"]);
    assert_eq!(cli_parameter_arg(&args, &strings(&["--port", "-p"])), Some(&"1".to_string()));
    let twice = strings(&["-p", "-p", "3"]);
    assert_eq!(cli_parameter_arg(&twice, &strings(&["-p"])), Some(&"-p".to_string()));
}

#[test]
fn an_option_that_is_missing_or_last_has_no_value() {
    let options = strings(&["-p", "--port"]);
    assert_eq!(cli_parameter_arg(&strings(&["server", "-v"]), &options), None);
    assert_eq!(cli_parameter_arg(&strings(&["server", "--port"]), &options), None);
    assert_eq!(cli_parameter_arg(&Vec::new(), &options), None);
    assert_eq!(cli_parameter_arg(&strings(&["-p", "1"]), &Vec::new()), None);
}

#[test]
fn the_grid_is_the_floor_of_space() {
    assert_eq!(convert_ivec2_to_vec3_plane(Coord::new(3, 4)), (3, 0, -4));
    assert_eq!(convert_ivec2_to_vec3_plane(Coord::new(-1, -2)), (-1, 0, 2));
    assert_eq!(
        convert_ivec2_to_vec3_plane(Coord::new(i32::MAX, i32::MIN)),
        (2147483647, 0, 2147483648)
    );
}
