//! Pursuit: the shortest route to a target over the carved cells, and the
//! tick-by-tick advance of an actor along its stored waypoints.

use vstd::prelude::*;
use crate::coord::Coord;
use crate::location::{Turn, WorldLocation};
use crate::world::{links, reachable, WorldCatacomb};

verus! {

/// Why a search for a route stored nothing.
#[derive(Clone, Copy, Debug, PartialEq, Eq, Structural)]
pub enum PathError {
    /// The target is not a cell of the world.
    TargetOutsideMap,
    /// No way leads from the actor to the target.
    NoPathFound,
}

impl PathError {
    /// The line to log for this failure.
    pub fn message(&self) -> (text: &'static str)
        ensures
            text@ == match *self {
                PathError::TargetOutsideMap => "Target is outside the map."@,
                PathError::NoPathFound => "Couldn't find path"@,
            },
    {
        match self {
            PathError::TargetOutsideMap => "Target is outside the map.",
            PathError::NoPathFound => "Couldn't find path",
        }
    }
}

/// Whether `p` leads from `start` to `target` over `cells` and no such trail
/// is shorter.
pub open spec fn is_shortest_route(cells: Set<Coord>, start: Coord, target: Coord, p: Seq<Coord>) -> bool {
    &&& links(cells, start, target, p)
    &&& forall|q: Seq<Coord>| #[trigger] links(cells, start, target, q) ==> p.len() <= q.len()
}

/// The neighbour of `at` in the direction `step`, with the cost 1 of moving
/// there, where it is an occupied cell; nothing else.
pub open spec fn neighbour_if_open(cells: Set<Coord>, at: Coord, step: Coord) -> Seq<((i32, i32), u64)> {
    if at.can_shift(step) && cells.contains(at.shifted(step)) {
        seq![((at.shifted(step).x, at.shifted(step).y), 1u64)]
    } else {
        Seq::empty()
    }
}

/// The occupied neighbours of `at`, each with cost 1, looked up to the east,
/// west, north and south in that order.
pub open spec fn open_neighbours_spec(cells: Set<Coord>, at: Coord) -> Seq<((i32, i32), u64)> {
    neighbour_if_open(cells, at, Coord { x: 1, y: 0 }) + neighbour_if_open(
        cells,
        at,
        Coord { x: -1i32, y: 0 },
    ) + neighbour_if_open(cells, at, Coord { x: 0, y: 1 }) + neighbour_if_open(
        cells,
        at,
        Coord { x: 0, y: -1i32 },
    )
}

/// The cells that can be entered from `at` in one step, each with the
/// uniform cost 1: the successors of `at` in the grid graph.
pub fn open_neighbours(world: &WorldCatacomb, at: &(i32, i32)) -> (next: Vec<((i32, i32), u64)>)
    ensures
        next@ == open_neighbours_spec(world@, Coord { x: at.0, y: at.1 }),
{
    let here = Coord::new(at.0, at.1);
    let steps = [Coord::new(1, 0), Coord::new(-1, 0), Coord::new(0, 1), Coord::new(0, -1)];
    let mut next: Vec<((i32, i32), u64)> = Vec::new();
    let mut i: usize = 0;
    while i < 4
        invariant
            i <= 4,
            steps@ == seq![
                Coord { x: 1, y: 0 },
                Coord { x: -1i32, y: 0 },
                Coord { x: 0, y: 1 },
                Coord { x: 0, y: -1i32 },
            ],
            here == (Coord { x: at.0, y: at.1 }),
            i == 0 ==> next@ == Seq::<((i32, i32), u64)>::empty(),
            i == 1 ==> next@ == neighbour_if_open(world@, here, steps@[0]),
            i == 2 ==> next@ == neighbour_if_open(world@, here, steps@[0]) + neighbour_if_open(
                world@,
                here,
                steps@[1],
            ),
            i == 3 ==> next@ == neighbour_if_open(world@, here, steps@[0]) + neighbour_if_open(
                world@,
                here,
                steps@[1],
            ) + neighbour_if_open(world@, here, steps@[2]),
            i == 4 ==> next@ == open_neighbours_spec(world@, here),
        decreases 4 - i,
    {
        let ghost before = next@;
        match here.checked_add(&steps[i]) {
            Some(cell) => {
                if world.contains(&cell) {
                    next.push(((cell.x, cell.y), 1));
                }
            },
            None => {},
        }
        proof {
            assert(next@ =~= before + neighbour_if_open(world@, here, steps@[i as int]));
        }
        i += 1;
    }
    next
}

/// The estimate of the cost from `at` to `goal`: the taxicab distance, which
/// no route over the grid can undercut.
pub fn distance_between(at: &(i32, i32), goal: &(i32, i32)) -> (d: u64)
    ensures
        d == (Coord { x: at.0, y: at.1 }).manhattan(Coord { x: goal.0, y: goal.1 }),
{
    Coord::new(at.0, at.1).manhattan_distance(&Coord::new(goal.0, goal.1))
}

/// Whether `at` is the cell `goal`.
pub fn same_cell(at: &(i32, i32), goal: &(i32, i32)) -> (same: bool)
    ensures
        same == (at.0 == goal.0 && at.1 == goal.1),
{
    at.0 == goal.0 && at.1 == goal.1
}

/// The cells of a route, from pairs.
pub fn route_cells(route: Vec<(i32, i32)>) -> (cells: Vec<Coord>)
    ensures
        cells@.len() == route@.len(),
        forall|i: int| 0 <= i < route@.len() ==> #[trigger] cells@[i] == (Coord { x: route@[i].0, y: route@[i].1 }),
{
    let mut cells: Vec<Coord> = Vec::new();
    let mut i: usize = 0;
    while i < route.len()
        invariant
            i <= route.len(),
            cells@.len() == i,
            forall|j: int| 0 <= j < i ==> #[trigger] cells@[j] == (Coord { x: route@[j].0, y: route@[j].1 }),
        decreases route.len() - i,
    {
        cells.push(Coord::new(route[i].0, route[i].1));
        i += 1;
    }
    cells
}

/// The route that the A* search of the `pathfinding` crate returns from
/// `start` to `target` over `cells`, start and target included, or `None`.
pub uninterp spec fn astar_route(cells: Set<Coord>, start: Coord, target: Coord) -> Option<Seq<Coord>>;

/// Calls `astar` of the `pathfinding` crate on the grid graph: the successors
/// of a cell are its `open_neighbours`, the estimate is `distance_between`,
/// and the search ends on `target`.
///
/// Trusted, as the crate documents it for an estimate that never exceeds the
/// real cost: the result is a shortest trail from `start` to `target` that
/// holds both, and `None` only where no trail exists. The search is a
/// function of its arguments, so its result has the name `astar_route`.
/// Costs are 64-bit numbers and stay below the number of cells held in
/// memory plus twice the width of the grid, so that the sums inside the
/// search cannot overflow.
#[verifier::external_body]
fn astar_search(world: &WorldCatacomb, start: &Coord, target: &Coord) -> (found: Option<Vec<Coord>>)
    ensures
        found matches Some(route) ==> astar_route(world@, *start, *target) == Some(route@),
        found is None ==> astar_route(world@, *start, *target) is None,
        found matches Some(route) ==> is_shortest_route(world@, *start, *target, route@),
        found is None ==> !reachable(world@, *start, *target),
{
    let goal = (target.x, target.y);
    let found = pathfinding::prelude::astar(
        &(start.x, start.y),
        |p| open_neighbours(world, p),
        |p| distance_between(p, &goal),
        |p| same_cell(p, &goal),
    );
    found.map(|r| route_cells(r.0))
}

/// The waypoints that a found route leaves to walk: the route without the
/// cell it starts on.
pub open spec fn waypoints_of(route: Seq<Coord>) -> Seq<Coord> {
    if route.len() == 0 {
        route
    } else {
        route.subrange(1, route.len() as int)
    }
}

/// What is left of `path` once the waypoints that the actor already stands
/// on are taken from its front.
pub open spec fn drop_reached(path: Seq<Coord>, at: Coord) -> Seq<Coord>
    decreases path.len(),
{
    if path.len() > 0 && path[0] == at {
        drop_reached(path.subrange(1, path.len() as int), at)
    } else {
        path
    }
}

/// The move of an actor towards the first of the waypoints that remain: none
/// where nothing remains; a step forward where the actor faces the waypoint;
/// else a quarter turn to the left, whichever side would be shorter.
pub open spec fn advanced(l: WorldLocation, remaining: Seq<Coord>, cells: Set<Coord>) -> WorldLocation {
    if remaining.len() == 0 {
        l
    } else if remaining[0].can_offset_from(l.location) && remaining[0].offset_from(l.location)
        == l.forward {
        l.moved_forward(cells)
    } else {
        l.turned(Turn::Left)
    }
}

/// An actor that stands on a cell of the world still does after it has
/// advanced, and its facing can still be turned.
pub proof fn lemma_advance_stays_in_world(l: WorldLocation, remaining: Seq<Coord>, cells: Set<Coord>)
    requires
        cells.contains(l.location),
        l.wf(),
    ensures
        cells.contains(advanced(l, remaining, cells).location),
        advanced(l, remaining, cells).wf(),
{
}

/// The waypoints that an actor still has to walk, first one first. Empty
/// while the actor pursues nothing.
#[derive(Clone, Debug)]
pub struct Path(Vec<Coord>);

impl View for Path {
    type V = Seq<Coord>;

    /// The waypoints, first one first.
    closed spec fn view(&self) -> Seq<Coord> {
        self.0@
    }
}

impl Default for Path {
    /// No waypoints.
    fn default() -> (p: Path)
        ensures
            p@ == Seq::<Coord>::empty(),
    {
        Path(Vec::new())
    }
}

impl Path {
    /// The path with the given waypoints.
    pub fn from_waypoints(waypoints: Vec<Coord>) -> (p: Path)
        ensures
            p@ == waypoints@,
    {
        Path(waypoints)
    }

    /// The waypoints, first one first.
    pub fn waypoints(&self) -> (w: &Vec<Coord>)
        ensures
            w@ == self@,
    {
        &self.0
    }

    /// Whether a waypoint is left.
    pub fn has_path(&self) -> (b: bool)
        ensures
            b == (self@.len() > 0),
    {
        self.0.len() != 0
    }

    /// Advances the actor by one tick along the path.
    ///
    /// Waypoints that the actor already stands on are taken from the front,
    /// however many there are. With none left nothing else happens. Else the
    /// actor steps forward if it faces the first waypoint, and turns left if
    /// it does not.
    pub fn move_location(&mut self, location: &mut WorldLocation, world: &WorldCatacomb)
        requires
            old(location).wf(),
        ensures
            final(self)@ == drop_reached(old(self)@, old(location).location),
            *final(location) == advanced(*old(location), final(self)@, world@),
            final(location).wf(),
            world@.contains(old(location).location) ==> world@.contains(final(location).location),
    {
        while self.0.len() > 0 && self.0[0] == location.location
            invariant
                *location == *old(location),
                drop_reached(self@, location.location) == drop_reached(old(self)@, location.location),
            decreases self@.len(),
        {
            let ghost before = self@;
            self.0.remove(0);
            proof {
                assert(self@ == before.subrange(1, before.len() as int));
            }
        }
        if !self.has_path() {
            return ;
        }
        let next_position = self.0[0];
        match next_position.checked_sub(&location.location) {
            Some(delta) => {
                if location.forward == delta {
                    location.move_forward(world);
                } else {
                    location.turn(Turn::Left);
                }
            },
            None => {
                location.turn(Turn::Left);
            },
        }
    }

    /// Takes in what a route search found. A found route replaces the path,
    /// without the cell it starts on; a failed search leaves the path as it
    /// was and is reported.
    pub fn store_route(&mut self, found: Option<Vec<Coord>>) -> (r: Result<(), PathError>)
        ensures
            found is None ==> r == Err::<(), PathError>(PathError::NoPathFound) && final(self)@ == old(self)@,
            found matches Some(route) ==> r is Ok && final(self)@ == waypoints_of(route@),
    {
        match found {
            None => Err(PathError::NoPathFound),
            Some(route) => {
                let mut route = route;
                if route.len() > 0 {
                    route.remove(0);
                }
                self.0 = route;
                Ok(())
            },
        }
    }

    /// Searches the shortest route from the actor to `target` over the
    /// occupied cells and stores it.
    ///
    /// A target outside the world and a target that cannot be reached are
    /// reported, and the path stays as it was. Else the path becomes the
    /// waypoints of the route that the search returns, which is a shortest
    /// one.
    pub fn find_path(&mut self, location: &WorldLocation, world: &WorldCatacomb, target: Coord) -> (r: Result<
        (),
        PathError,
    >)
        ensures
            !world@.contains(target) ==> r == Err::<(), PathError>(PathError::TargetOutsideMap),
            world@.contains(target) && !reachable(world@, location.location, target) ==> r == Err::<
                (),
                PathError,
            >(PathError::NoPathFound),
            world@.contains(target) && reachable(world@, location.location, target) ==> r is Ok,
            r is Err ==> final(self)@ == old(self)@,
            world@.contains(target) ==> (r is Err <==> astar_route(world@, location.location, target) is None),
            r is Ok ==> final(self)@ == waypoints_of(astar_route(world@, location.location, target)->Some_0),
            r is Ok ==> astar_route(world@, location.location, target) == Some(
                seq![location.location] + final(self)@,
            ),
            r is Ok ==> is_shortest_route(
                world@,
                location.location,
                target,
                seq![location.location] + final(self)@,
            ),
    {
        if !world.contains(&target) {
            return Err(PathError::TargetOutsideMap);
        }
        let start = location.get_location();
        let found = astar_search(world, &start, &target);
        proof {
            if found is Some {
                let route = found->Some_0@;
                assert(route =~= seq![start] + waypoints_of(route));
            }
        }
        self.store_route(found)
    }
}

} // verus!
