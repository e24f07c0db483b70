//! Enemies: the actors that hunt the player through the catacomb.

use vstd::prelude::*;
use crate::animation::{AnimationTimer, AnimationView};
use vstd::seq_lib::*;
use crate::chance::{random_choice, random_sample};
use crate::combat::{Combat, CombatState, Health};
use crate::coord::Coord;
use crate::location::WorldLocation;
use crate::path::{
    advanced, astar_route, drop_reached, lemma_advance_stays_in_world, waypoints_of, Path, PathError,
};
use crate::world::WorldCatacomb;

verus! {

/// An enemy with all that belongs to it.
#[derive(Clone, Debug)]
pub struct Enemy {
    pub id: u64,
    pub location: WorldLocation,
    pub path: Path,
    pub health: Health,
    pub combat: Combat,
    pub animation: AnimationTimer,
}

/// An `Enemy` as plain values.
pub struct EnemyView {
    pub id: u64,
    pub location: WorldLocation,
    pub path: Seq<Coord>,
    pub health: Health,
    pub combat: Combat,
    pub animation: AnimationView,
}

impl View for Enemy {
    type V = EnemyView;

    open spec fn view(&self) -> EnemyView {
        EnemyView {
            id: self.id,
            location: self.location,
            path: self.path@,
            health: self.health,
            combat: self.combat,
            animation: self.animation@,
        }
    }
}

/// The enemies as plain values, in their order.
pub open spec fn views(enemies: Seq<Enemy>) -> Seq<EnemyView> {
    enemies.map_values(|e: Enemy| e@)
}

impl Enemy {
    /// An enemy at the start: full health, no path, not in combat.
    pub fn new(id: u64, location: WorldLocation, animation: AnimationTimer) -> (e: Enemy)
        ensures
            e@ == (EnemyView {
                id,
                location,
                path: Seq::<Coord>::empty(),
                health: Health(crate::combat::FULL_HEALTH),
                combat: Combat { is_in_combat: false },
                animation: animation@,
            }),
    {
        Enemy {
            id,
            location,
            path: Path::default(),
            health: Health::default(),
            combat: Combat::default(),
            animation,
        }
    }
}

/// How many enemies a catacomb is stocked with.
pub const ENEMY_COUNT: usize = 4;

/// The path of an enemy after it looked for the player on `target`: an
/// enemy that has a path keeps it; one without takes the waypoints of the
/// route that the search returns, and stays without where the target is
/// outside the world or cannot be reached.
pub open spec fn pursued(path: Seq<Coord>, cells: Set<Coord>, from: Coord, target: Coord) -> Seq<Coord> {
    if path.len() > 0 || !cells.contains(target) {
        path
    } else {
        match astar_route(cells, from, target) {
            Some(route) => waypoints_of(route),
            None => path,
        }
    }
}

/// Why the search of an enemy for the player on `target` stored nothing, if
/// it searched and failed.
pub open spec fn search_failure(enemy: EnemyView, cells: Set<Coord>, target: Coord) -> Option<PathError> {
    if enemy.path.len() > 0 {
        None
    } else if !cells.contains(target) {
        Some(PathError::TargetOutsideMap)
    } else if astar_route(cells, enemy.location.location, target) is None {
        Some(PathError::NoPathFound)
    } else {
        None
    }
}

/// The searches that failed, each with the id of the enemy, in the order of
/// the enemies.
pub open spec fn search_failures(enemies: Seq<EnemyView>, cells: Set<Coord>, target: Coord) -> Seq<
    (u64, PathError),
>
    decreases enemies.len(),
{
    if enemies.len() == 0 {
        Seq::empty()
    } else {
        match search_failure(enemies.last(), cells, target) {
            Some(e) => search_failures(enemies.drop_last(), cells, target).push((enemies.last().id, e)),
            None => search_failures(enemies.drop_last(), cells, target),
        }
    }
}

/// Lets every enemy without a path look for the player.
///
/// With no tick pending nothing happens. Else every enemy that has no
/// waypoint left searches the shortest route to where the player stands and
/// stores it, as `pursued` describes; however many ticks are pending, each
/// searches once. The searches that failed are returned, to be logged.
pub fn enemies_find_player(
    enemies: &mut Vec<Enemy>,
    ticks: usize,
    player_location: &WorldLocation,
    world: &WorldCatacomb,
) -> (failures: Vec<(u64, PathError)>)
    ensures
        final(enemies)@.len() == old(enemies)@.len(),
        ticks == 0 ==> final(enemies)@ == old(enemies)@ && failures@.len() == 0,
        ticks > 0 ==> failures@ == search_failures(
            views(old(enemies)@),
            world@,
            player_location.location,
        ),
        ticks > 0 ==> forall|j: int|
            0 <= j < old(enemies)@.len() ==> (#[trigger] final(enemies)@[j])@ == (EnemyView {
                path: pursued(
                    old(enemies)@[j]@.path,
                    world@,
                    old(enemies)@[j].location.location,
                    player_location.location,
                ),
                ..old(enemies)@[j]@
            }),
{
    let mut failures: Vec<(u64, PathError)> = Vec::new();
    if ticks == 0 {
        return failures;
    }
    let target = player_location.get_location();
    let mut i: usize = 0;
    while i < enemies.len()
        invariant
            i <= enemies.len(),
            enemies@.len() == old(enemies)@.len(),
            target == player_location.location,
            forall|j: int| i <= j < enemies@.len() ==> #[trigger] enemies@[j] == old(enemies)@[j],
            forall|j: int|
                0 <= j < i ==> (#[trigger] enemies@[j])@ == (EnemyView {
                    path: pursued(
                        old(enemies)@[j]@.path,
                        world@,
                        old(enemies)@[j].location.location,
                        target,
                    ),
                    ..old(enemies)@[j]@
                }),
            failures@ == search_failures(views(old(enemies)@).take(i as int), world@, target),
        decreases enemies.len() - i,
    {
        proof {
            let all = views(old(enemies)@);
            assert(all.take(i as int + 1).drop_last() == all.take(i as int));
            assert(all.take(i as int + 1).last() == old(enemies)@[i as int]@);
        }
        if !enemies[i].path.has_path() {
            let location = enemies[i].location;
            let id = enemies[i].id;
            match enemies[i].path.find_path(&location, world, target) {
                Ok(()) => {},
                Err(e) => {
                    failures.push((id, e));
                },
            }
        }
        i += 1;
    }
    proof {
        let all = views(old(enemies)@);
        assert(all.take(i as int) == all);
    }
    failures
}

/// The path and the location of an actor after `ticks` calls of
/// `Path::move_location`.
pub open spec fn marched(path: Seq<Coord>, l: WorldLocation, cells: Set<Coord>, ticks: nat) -> (
    Seq<Coord>,
    WorldLocation,
)
    decreases ticks,
{
    if ticks == 0 {
        (path, l)
    } else {
        let rest = drop_reached(path, l.location);
        marched(rest, advanced(l, rest, cells), cells, (ticks - 1) as nat)
    }
}

/// An actor that stands on a cell of the world still does after any number
/// of ticks on its path.
pub proof fn lemma_march_stays_in_world(path: Seq<Coord>, l: WorldLocation, cells: Set<Coord>, ticks: nat)
    requires
        cells.contains(l.location),
        l.wf(),
    ensures
        cells.contains(marched(path, l, cells, ticks).1.location),
        marched(path, l, cells, ticks).1.wf(),
    decreases ticks,
{
    if ticks > 0 {
        let rest = drop_reached(path, l.location);
        lemma_advance_stays_in_world(l, rest, cells);
        lemma_march_stays_in_world(rest, advanced(l, rest, cells), cells, (ticks - 1) as nat);
    }
}

/// Moves every enemy along its path, once for every pending tick.
///
/// While an opponent is engaged, nobody moves.
pub fn move_enemies(enemies: &mut Vec<Enemy>, ticks: usize, state: &CombatState, world: &WorldCatacomb)
    requires
        forall|j: int| 0 <= j < old(enemies)@.len() ==> (#[trigger] old(enemies)@[j]).location.wf(),
    ensures
        final(enemies)@.len() == old(enemies)@.len(),
        state.opponent is Some ==> final(enemies)@ == old(enemies)@,
        state.opponent is None ==> forall|j: int|
            0 <= j < old(enemies)@.len() ==> (#[trigger] final(enemies)@[j])@ == (EnemyView {
                path: marched(old(enemies)@[j]@.path, old(enemies)@[j].location, world@, ticks as nat).0,
                location: marched(old(enemies)@[j]@.path, old(enemies)@[j].location, world@, ticks as nat).1,
                ..old(enemies)@[j]@
            }),
        forall|j: int| 0 <= j < final(enemies)@.len() ==> (#[trigger] final(enemies)@[j]).location.wf(),
{
    if state.opponent.is_some() {
        return ;
    }
    let mut i: usize = 0;
    while i < enemies.len()
        invariant
            i <= enemies.len(),
            enemies@.len() == old(enemies)@.len(),
            forall|j: int| i <= j < enemies@.len() ==> #[trigger] enemies@[j] == old(enemies)@[j],
            forall|j: int| 0 <= j < enemies@.len() ==> (#[trigger] enemies@[j]).location.wf(),
            forall|j: int|
                0 <= j < i ==> (#[trigger] enemies@[j])@ == (EnemyView {
                    path: marched(old(enemies)@[j]@.path, old(enemies)@[j].location, world@, ticks as nat).0,
                    location: marched(
                        old(enemies)@[j]@.path,
                        old(enemies)@[j].location,
                        world@,
                        ticks as nat,
                    ).1,
                    ..old(enemies)@[j]@
                }),
        decreases enemies.len() - i,
    {
        let ghost start = enemies@[i as int];
        let ghost others = enemies@;
        let mut n: usize = 0;
        while n < ticks
            invariant
                n <= ticks,
                i < enemies.len(),
                enemies@.len() == others.len(),
                forall|j: int| 0 <= j < enemies@.len() && j != i ==> #[trigger] enemies@[j] == others[j],
                enemies@[i as int].location.wf(),
                enemies@[i as int].id == start.id,
                enemies@[i as int].health == start.health,
                enemies@[i as int].combat == start.combat,
                enemies@[i as int].animation == start.animation,
                marched(
                    enemies@[i as int].path@,
                    enemies@[i as int].location,
                    world@,
                    (ticks - n) as nat,
                ) == marched(start.path@, start.location, world@, ticks as nat),
            decreases ticks - n,
        {
            let enemy = &mut enemies[i];
            enemy.path.move_location(&mut enemy.location, world);
            n += 1;
        }
        i += 1;
    }
}

/// The four ways an actor can face.
pub fn facings() -> (dirs: Vec<Coord>)
    ensures
        dirs@ == seq![
            Coord { x: 1, y: 0 },
            Coord { x: 0, y: 1 },
            Coord { x: -1i32, y: 0 },
            Coord { x: 0, y: -1i32 },
        ],
{
    let mut dirs: Vec<Coord> = Vec::new();
    dirs.push(Coord::new(1, 0));
    dirs.push(Coord::new(0, 1));
    dirs.push(Coord::new(-1, 0));
    dirs.push(Coord::new(0, -1));
    proof {
        assert(dirs@ =~= seq![
            Coord { x: 1, y: 0 },
            Coord { x: 0, y: 1 },
            Coord { x: -1i32, y: 0 },
            Coord { x: 0, y: -1i32 },
        ]);
    }
    dirs
}

/// Stocks the catacomb with enemies: `ENEMY_COUNT` of them, or one for each
/// cell where the world has fewer, on cells drawn at random, no two on the
/// same, each facing one of the four ways drawn at random.
///
/// The enemies get the ids 1, 2 and so on, start at full health and free to
/// move, have no path yet, and walk as cultists.
pub fn setup_enemies(world: &WorldCatacomb) -> (enemies: Vec<Enemy>)
    ensures
        enemies@.len() == if world@.len() >= ENEMY_COUNT {
            ENEMY_COUNT as int
        } else {
            world@.len() as int
        },
        forall|i: int|
            0 <= i < enemies@.len() ==> {
                let e = (#[trigger] enemies@[i])@;
                &&& e.id == i + 1
                &&& world@.contains(e.location.location)
                &&& e.location.forward.is_unit()
                &&& e.location.can_move
                &&& e.location.wf()
                &&& e.path.len() == 0
                &&& e.health == Health(crate::combat::FULL_HEALTH)
                &&& !e.combat.is_in_combat
                &&& e.animation == (AnimationView {
                    library: "Cultist"@,
                    current_animation: "walk"@,
                    current_frame: 0,
                    next: None,
                    update_now: false,
                })
            },
        forall|i: int, j: int|
            0 <= i < enemies@.len() && 0 <= j < enemies@.len() && i != j ==> (
            #[trigger] enemies@[i]).location.location != (#[trigger] enemies@[j]).location.location,
{
    let cells = world.cells();
    let rooms = random_sample(&cells, ENEMY_COUNT);
    let dirs = facings();
    let ghost picks = choose|picks: Seq<int>|
        picks.len() == rooms@.len() && picks.no_duplicates() && forall|i: int|
            0 <= i < rooms@.len() ==> 0 <= #[trigger] picks[i] < cells@.len() && rooms@[i] == cells@[picks[i]];
    proof {
        use_type_invariant(world);
        world.lemma_inv_finite();
        cells@.unique_seq_to_set();
        assert forall|k: int| 0 <= k < rooms@.len() implies world@.contains(#[trigger] rooms@[k]) by {
            assert(cells@.contains(cells@[picks[k]]));
        }
    }
    let mut enemies: Vec<Enemy> = Vec::new();
    let mut i: usize = 0;
    while i < rooms.len()
        invariant
            i <= rooms.len(),
            rooms@.len() <= ENEMY_COUNT,
            enemies@.len() == i,
            dirs@ == seq![
                Coord { x: 1, y: 0 },
                Coord { x: 0, y: 1 },
                Coord { x: -1i32, y: 0 },
                Coord { x: 0, y: -1i32 },
            ],
            forall|k: int| 0 <= k < rooms@.len() ==> world@.contains(#[trigger] rooms@[k]),
            forall|k: int|
                0 <= k < i ==> {
                    let e = (#[trigger] enemies@[k])@;
                    &&& e.id == k + 1
                    &&& e.location.location == rooms@[k]
                    &&& e.location.forward.is_unit()
                    &&& e.location.can_move
                    &&& e.location.wf()
                    &&& e.path.len() == 0
                    &&& e.health == Health(crate::combat::FULL_HEALTH)
                    &&& !e.combat.is_in_combat
                    &&& e.animation == (AnimationView {
                        library: "Cultist"@,
                        current_animation: "walk"@,
                        current_frame: 0,
                        next: None,
                        update_now: false,
                    })
                },
        decreases rooms.len() - i,
    {
        let face = random_choice(&dirs).unwrap();
        proof {
            let k = choose|k: int| 0 <= k < dirs@.len() && dirs@[k] == face;
            assert(face.is_unit());
        }
        let animation = AnimationTimer::new("Cultist".to_owned(), "walk".to_owned());
        enemies.push(Enemy::new(i as u64 + 1, WorldLocation::new(rooms[i], face), animation));
        i += 1;
    }
    proof {
        assert forall|a: int, b: int|
            0 <= a < enemies@.len() && 0 <= b < enemies@.len() && a != b implies (
        #[trigger] enemies@[a]).location.location != (#[trigger] enemies@[b]).location.location by {
            assert(enemies@[a]@.location.location == rooms@[a]);
            assert(enemies@[b]@.location.location == rooms@[b]);
            assert(picks[a] != picks[b]);
        }
    }
    enemies
}

} // verus!
