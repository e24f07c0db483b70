//! The world generator: random walkers that carve the catacomb out of the
//! grid, one step per tick, until their lifetimes are spent.

use vstd::prelude::*;
use crate::chance::{random_bool, random_in_range};
use crate::coord::Coord;
use crate::state::GameState;
use crate::world::{connected_from, grid_size, lemma_carve_keeps_connected, lemma_cells_bounded, WorldCatacomb};

verus! {

/// How many walkers carve a catacomb.
pub const WALKER_COUNT: usize = 4;

/// The shortest lifetime a walker is born with.
pub const MIN_LIFETIME: u32 = 3;

/// The longest lifetime a walker is born with.
pub const MAX_LIFETIME: u32 = 70;

/// A generation agent: it stands on a cell and has a number of steps onto
/// already carved ground left to live.
#[derive(Clone, Copy, Debug)]
pub struct Walker {
    pub current_location: Coord,
    pub steps_to_live: u32,
}

/// The unit vector along the chosen axis with the chosen sign.
pub open spec fn unit_step_spec(along_x: bool, positive: bool) -> Coord {
    if along_x {
        Coord { x: if positive { 1i32 } else { -1i32 }, y: 0 }
    } else {
        Coord { x: 0, y: if positive { 1i32 } else { -1i32 } }
    }
}

/// One of the four axis-aligned unit steps: first the axis, then the sign.
pub fn unit_step(along_x: bool, positive: bool) -> (step: Coord)
    ensures
        step == unit_step_spec(along_x, positive),
        step.is_unit(),
{
    let d: i32 = if positive { 1 } else { -1 };
    if along_x {
        Coord { x: d, y: 0 }
    } else {
        Coord { x: 0, y: d }
    }
}

/// What one call of `walk_by` with `step` makes of a walker and the cells.
///
/// A walker with no lifetime left does nothing. A live one moves by `step`
/// and carves the cell it lands on; where that cell was carved before, the
/// move costs one step of lifetime, and new ground costs nothing. A step
/// that would leave the grid is not taken and costs one step of lifetime.
pub open spec fn walked(w: Walker, cells: Set<Coord>, step: Coord) -> (Walker, Set<Coord>) {
    let at = w.current_location;
    if w.steps_to_live == 0 {
        (w, cells)
    } else if at.can_shift(step) {
        (
            Walker {
                current_location: at.shifted(step),
                steps_to_live: if cells.contains(at.shifted(step)) {
                    (w.steps_to_live - 1) as u32
                } else {
                    w.steps_to_live
                },
            },
            cells.insert(at.shifted(step)),
        )
    } else {
        (Walker { steps_to_live: (w.steps_to_live - 1) as u32, ..w }, cells)
    }
}

/// Whether a walker and the cells are, after a call of `walk_by` with
/// `step`, what `walked` gives.
pub open spec fn walk_result(
    before: Walker,
    cells_before: Set<Coord>,
    after: Walker,
    cells_after: Set<Coord>,
    step: Coord,
) -> bool {
    (after, cells_after) == walked(before, cells_before, step)
}

impl Walker {
    /// The steps onto carved ground that the walker has left.
    pub open spec fn steps(self) -> nat {
        self.steps_to_live as nat
    }

    /// A walker on `start` with the given lifetime.
    pub fn with_lifetime(start: Coord, steps_to_live: u32) -> (w: Walker)
        ensures
            w.current_location == start,
            w.steps() == steps_to_live,
    {
        Walker { current_location: start, steps_to_live }
    }

    /// A walker on `start` with a lifetime drawn at random between
    /// `MIN_LIFETIME` and `MAX_LIFETIME`.
    pub fn new(start: Coord) -> (w: Walker)
        ensures
            w.current_location == start,
            MIN_LIFETIME <= w.steps() <= MAX_LIFETIME,
    {
        Walker::with_lifetime(start, random_in_range(MIN_LIFETIME, MAX_LIFETIME))
    }

    /// Takes the step chosen by `along_x` and `positive` and carves the cell
    /// reached, as `walk_result` describes.
    pub fn walk_by(&mut self, world: &mut WorldCatacomb, along_x: bool, positive: bool)
        ensures
            walk_result(
                *old(self),
                old(world)@,
                *final(self),
                final(world)@,
                unit_step_spec(along_x, positive),
            ),
    {
        if self.steps_to_live == 0 {
            return ;
        }
        let step = unit_step(along_x, positive);
        match self.current_location.checked_add(&step) {
            Some(destination) => {
                self.current_location = destination;
                if !world.insert(destination) {
                    self.steps_to_live -= 1;
                }
            },
            None => {
                self.steps_to_live -= 1;
            },
        }
    }

    /// Takes one of the four unit steps, drawn at random by axis and then by
    /// sign, as `walk_by` does with that draw.
    pub fn walk(&mut self, world: &mut WorldCatacomb)
        ensures
            exists|along_x: bool, positive: bool|
                walk_result(
                    *old(self),
                    old(world)@,
                    *final(self),
                    final(world)@,
                    #[trigger] unit_step_spec(along_x, positive),
                ),
    {
        let along_x = random_bool();
        let positive = random_bool();
        self.walk_by(world, along_x, positive);
    }
}

/// What one tick makes of the walkers and the cells when the walkers take
/// the steps listed, each its own, one walker after the other.
pub open spec fn ticked(walkers: Seq<Walker>, cells: Set<Coord>, steps: Seq<Coord>) -> (
    Seq<Walker>,
    Set<Coord>,
)
    decreases walkers.len(),
{
    if walkers.len() == 0 {
        (walkers, cells)
    } else {
        let before = ticked(walkers.drop_last(), cells, steps.drop_last());
        let last = walked(walkers.last(), before.1, steps.last());
        (before.0.push(last.0), last.1)
    }
}

/// A walk never cuts a cell off: where every cell could be reached from
/// `origin` and the walker stood on `origin` or on a carved cell, the same
/// holds after any unit step.
pub proof fn lemma_walk_keeps_connected(
    before: Walker,
    cells_before: Set<Coord>,
    after: Walker,
    cells_after: Set<Coord>,
    step: Coord,
    origin: Coord,
)
    requires
        walk_result(before, cells_before, after, cells_after, step),
        step.is_unit(),
        connected_from(cells_before, origin),
        before.current_location == origin || cells_before.contains(before.current_location),
    ensures
        connected_from(cells_after, origin),
        after.current_location == origin || cells_after.contains(after.current_location),
        cells_before.subset_of(cells_after),
{
    let at = before.current_location;
    if before.steps() > 0 && at.can_shift(step) {
        let next = at.shifted(step);
        assert(at.is_step(next));
        lemma_carve_keeps_connected(cells_before, origin, at, next);
    }
}

/// What is left to do before generation must end: the cells of the grid not
/// yet carved, and the lifetime of the walker.
pub open spec fn walk_budget(cells: Set<Coord>, walker: Walker) -> int {
    grid_size() - cells.len() + walker.steps()
}

/// Every walk of a live walker spends exactly one unit of the budget: it
/// either carves a new cell or loses a step of lifetime. The budget is never
/// negative, so no walker lives for ever.
pub proof fn lemma_walk_spends_budget(
    before: Walker,
    cells_before: Set<Coord>,
    after: Walker,
    cells_after: Set<Coord>,
    step: Coord,
)
    requires
        walk_result(before, cells_before, after, cells_after, step),
        cells_before.finite(),
    ensures
        cells_after.finite(),
        walk_budget(cells_after, after) >= 0,
        before.steps() > 0 ==> walk_budget(cells_after, after) == walk_budget(cells_before, before) - 1,
        before.steps() == 0 ==> walk_budget(cells_after, after) == walk_budget(cells_before, before),
        after.steps() <= before.steps(),
{
    lemma_cells_bounded(cells_before);
    if before.steps() > 0 && before.current_location.can_shift(step) {
        lemma_cells_bounded(cells_after);
    }
}

/// The lifetimes of all the walkers, added up.
pub open spec fn total_steps(walkers: Seq<Walker>) -> nat
    decreases walkers.len(),
{
    if walkers.len() == 0 {
        0
    } else {
        total_steps(walkers.drop_last()) + walkers.last().steps()
    }
}

/// How many of the walkers have lifetime left.
pub open spec fn live_count(walkers: Seq<Walker>) -> nat
    decreases walkers.len(),
{
    if walkers.len() == 0 {
        0
    } else {
        live_count(walkers.drop_last()) + if walkers.last().steps() > 0 {
            1nat
        } else {
            0nat
        }
    }
}

/// The walkers that have lifetime left, in their order.
pub open spec fn survivors(walkers: Seq<Walker>) -> Seq<Walker>
    decreases walkers.len(),
{
    if walkers.len() == 0 {
        walkers
    } else if walkers.last().steps() > 0 {
        survivors(walkers.drop_last()).push(walkers.last())
    } else {
        survivors(walkers.drop_last())
    }
}

/// What is left to do before generation must end: the cells of the grid not
/// yet carved, and the lifetimes of all walkers.
pub open spec fn generation_budget(cells: Set<Coord>, walkers: Seq<Walker>) -> int {
    grid_size() - cells.len() + total_steps(walkers)
}

/// The state of a generation that set out from `origin`: no carved cell is
/// cut off from `origin`, and every walker stands on `origin` or on a carved
/// cell.
pub open spec fn generation_ok(cells: Set<Coord>, walkers: Seq<Walker>, origin: Coord) -> bool {
    &&& connected_from(cells, origin)
    &&& forall|i: int|
        0 <= i < walkers.len() ==> (#[trigger] walkers[i]).current_location == origin
            || cells.contains(walkers[i].current_location)
}

proof fn lemma_live_walker_counts(walkers: Seq<Walker>)
    requires
        walkers.len() > 0,
        forall|i: int| 0 <= i < walkers.len() ==> (#[trigger] walkers[i]).steps() > 0,
    ensures
        live_count(walkers) >= 1,
{
}

proof fn lemma_survivors(walkers: Seq<Walker>)
    ensures
        total_steps(survivors(walkers)) == total_steps(walkers),
        survivors(walkers).len() <= walkers.len(),
        forall|i: int|
            0 <= i < survivors(walkers).len() ==> (#[trigger] survivors(walkers)[i]).steps() > 0
                && walkers.contains(survivors(walkers)[i]),
    decreases walkers.len(),
{
    if walkers.len() > 0 {
        let rest = walkers.drop_last();
        lemma_survivors(rest);
        let kept = survivors(walkers);
        assert forall|i: int| 0 <= i < kept.len() implies (#[trigger] kept[i]).steps() > 0
            && walkers.contains(kept[i]) by {
            if i < survivors(rest).len() {
                assert(kept[i] == survivors(rest)[i]);
                let k = choose|k: int| 0 <= k < rest.len() && rest[k] == kept[i];
                assert(walkers[k] == kept[i]);
            } else {
                assert(kept[i] == walkers[walkers.len() - 1]);
            }
        }
        if walkers.last().steps() > 0 {
            assert(kept.drop_last() == survivors(rest));
        }
    }
}

/// No tick cuts a cell off: whatever unit steps the walkers take, every
/// carved cell can still be reached from `origin`, every walker still
/// stands on `origin` or on a carved cell, and no carved cell is lost.
pub proof fn lemma_tick_keeps_connected(walkers: Seq<Walker>, cells: Set<Coord>, steps: Seq<Coord>, origin: Coord)
    requires
        steps.len() == walkers.len(),
        forall|i: int| 0 <= i < steps.len() ==> (#[trigger] steps[i]).is_unit(),
        generation_ok(cells, walkers, origin),
    ensures
        ticked(walkers, cells, steps).0.len() == walkers.len(),
        generation_ok(ticked(walkers, cells, steps).1, ticked(walkers, cells, steps).0, origin),
        cells.subset_of(ticked(walkers, cells, steps).1),
    decreases walkers.len(),
{
    if walkers.len() > 0 {
        let rest = walkers.drop_last();
        let rest_steps = steps.drop_last();
        assert forall|i: int| 0 <= i < rest.len() implies (#[trigger] rest[i]).current_location == origin
            || cells.contains(rest[i].current_location) by {
            assert(rest[i] == walkers[i]);
        }
        assert forall|i: int| 0 <= i < rest_steps.len() implies (#[trigger] rest_steps[i]).is_unit() by {
            assert(rest_steps[i] == steps[i]);
        }
        lemma_tick_keeps_connected(rest, cells, rest_steps, origin);
        let before = ticked(rest, cells, rest_steps);
        let last = walked(walkers.last(), before.1, steps.last());
        assert(steps.last() == steps[steps.len() - 1]);
        assert(walkers.last() == walkers[walkers.len() - 1]);
        lemma_walk_keeps_connected(walkers.last(), before.1, last.0, last.1, steps.last(), origin);
        let after = ticked(walkers, cells, steps);
        assert forall|i: int| 0 <= i < after.0.len() implies (#[trigger] after.0[i]).current_location
            == origin || after.1.contains(after.0[i].current_location) by {
            if i < rest.len() {
                assert(after.0[i] == before.0[i]);
            }
        }
    }
}

/// Every tick spends one unit of the generation budget for every live
/// walker, whatever steps the walkers take, and the budget is never
/// negative: generation ends after finitely many ticks.
pub proof fn lemma_tick_spends_budget(walkers: Seq<Walker>, cells: Set<Coord>, steps: Seq<Coord>)
    requires
        steps.len() == walkers.len(),
        cells.finite(),
    ensures
        ticked(walkers, cells, steps).1.finite(),
        generation_budget(ticked(walkers, cells, steps).1, ticked(walkers, cells, steps).0)
            == generation_budget(cells, walkers) - live_count(walkers),
        generation_budget(ticked(walkers, cells, steps).1, ticked(walkers, cells, steps).0) >= 0,
    decreases walkers.len(),
{
    lemma_cells_bounded(cells);
    if walkers.len() > 0 {
        let rest = walkers.drop_last();
        let rest_steps = steps.drop_last();
        lemma_tick_spends_budget(rest, cells, rest_steps);
        let before = ticked(rest, cells, rest_steps);
        let last = walked(walkers.last(), before.1, steps.last());
        lemma_walk_spends_budget(walkers.last(), before.1, last.0, last.1, steps.last());
        lemma_cells_bounded(last.1);
        let after = ticked(walkers, cells, steps);
        assert(after.0.drop_last() == before.0);
    }
}

/// One tick of the generation: every walker takes one random walk, in
/// order.
///
/// Whatever is drawn, no carved cell is lost or cut off, no lifetime grows,
/// walkers without lifetime stay as they are, and every live walker spends
/// exactly one unit of the generation budget.
pub fn walk_walker_generators(walkers: &mut Vec<Walker>, world: &mut WorldCatacomb)
    ensures
        final(walkers)@.len() == old(walkers)@.len(),
        old(world)@.subset_of(final(world)@),
        forall|i: int|
            0 <= i < old(walkers)@.len() ==> (#[trigger] final(walkers)@[i]).steps() <= old(walkers)@[i].steps(),
        forall|i: int|
            0 <= i < old(walkers)@.len() && old(walkers)@[i].steps() == 0 ==> #[trigger] final(walkers)@[i] == old(walkers)@[i],
        forall|origin: Coord| #[trigger]
            generation_ok(old(world)@, old(walkers)@, origin) ==> generation_ok(
                final(world)@,
                final(walkers)@,
                origin,
            ),
        generation_budget(final(world)@, final(walkers)@) == generation_budget(
            old(world)@,
            old(walkers)@,
        ) - live_count(old(walkers)@),
        generation_budget(final(world)@, final(walkers)@) >= 0,
        exists|steps: Seq<Coord>|
            steps.len() == old(walkers)@.len() && (forall|i: int|
                0 <= i < steps.len() ==> (#[trigger] steps[i]).is_unit()) && (final(walkers)@, final(world)@)
                == #[trigger] ticked(old(walkers)@, old(world)@, steps),
{
    let ghost old_walkers = walkers@;
    let ghost old_cells = world@;
    let ghost mut steps: Seq<Coord> = Seq::empty();
    let mut i: usize = 0;
    while i < walkers.len()
        invariant
            i <= walkers.len(),
            walkers@.len() == old_walkers.len(),
            old_cells.subset_of(world@),
            forall|j: int| i <= j < walkers@.len() ==> #[trigger] walkers@[j] == old_walkers[j],
            forall|j: int|
                0 <= j < walkers@.len() ==> (#[trigger] walkers@[j]).steps() <= old_walkers[j].steps(),
            forall|j: int|
                0 <= j < walkers@.len() && old_walkers[j].steps() == 0 ==> #[trigger] walkers@[j]
                    == old_walkers[j],
            steps.len() == i,
            forall|j: int| 0 <= j < steps.len() ==> (#[trigger] steps[j]).is_unit(),
            (walkers@.take(i as int), world@) == ticked(old_walkers.take(i as int), old_cells, steps),
        decreases walkers.len() - i,
    {
        let ghost cells_before = world@;
        let ghost steps_before = steps;
        let ghost walkers_before = walkers@;
        let mut w = walkers[i];
        let ghost before = w;
        w.walk(world);
        walkers.set(i, w);
        proof {
            let (along_x, positive) = choose|along_x: bool, positive: bool|
                walk_result(before, cells_before, w, world@, #[trigger] unit_step_spec(along_x, positive));
            steps = steps_before.push(unit_step_spec(along_x, positive));
            assert(steps.drop_last() == steps_before);
            assert(walkers@.take(i as int + 1) == walkers_before.take(i as int).push(w));
            assert(old_walkers.take(i as int + 1).drop_last() == old_walkers.take(i as int));
            assert(old_walkers.take(i as int + 1).last() == before);
        }
        i += 1;
    }
    proof {
        assert(old_walkers.take(i as int) == old_walkers);
        assert(walkers@.take(i as int) == walkers@);
        use_type_invariant(&*world);
        world.lemma_inv_finite();
        assert(old_cells.finite()) by {
            vstd::set_lib::lemma_set_subset_finite(world@, old_cells);
        }
        lemma_tick_spends_budget(old_walkers, old_cells, steps);
        assert forall|origin: Coord| #[trigger]
            generation_ok(old_cells, old_walkers, origin) implies generation_ok(
            world@,
            walkers@,
            origin,
        ) by {
            lemma_tick_keeps_connected(old_walkers, old_cells, steps, origin);
        }
    }
}

/// Removes the walkers whose lifetime is spent; the others stay, in order.
pub fn destroy_walker_generators(walkers: &mut Vec<Walker>)
    ensures
        final(walkers)@ == survivors(old(walkers)@),
{
    let mut kept: Vec<Walker> = Vec::new();
    let mut i: usize = 0;
    while i < walkers.len()
        invariant
            i <= walkers.len(),
            kept@ == survivors(walkers@.take(i as int)),
        decreases walkers.len() - i,
    {
        proof {
            assert(walkers@.take(i as int + 1).drop_last() == walkers@.take(i as int));
        }
        if walkers[i].steps_to_live > 0 {
            kept.push(walkers[i]);
        }
        i += 1;
    }
    proof {
        assert(walkers@.take(i as int) == walkers@);
    }
    *walkers = kept;
}

/// `count` walkers on `origin`, each with a lifetime drawn at random between
/// `MIN_LIFETIME` and `MAX_LIFETIME`.
pub fn spawn_walkers(origin: Coord, count: usize) -> (walkers: Vec<Walker>)
    ensures
        walkers@.len() == count,
        forall|i: int|
            0 <= i < count ==> (#[trigger] walkers@[i]).current_location == origin && MIN_LIFETIME
                <= walkers@[i].steps() <= MAX_LIFETIME,
{
    let mut walkers: Vec<Walker> = Vec::new();
    let mut i: usize = 0;
    while i < count
        invariant
            i <= count,
            walkers@.len() == i,
            forall|j: int|
                0 <= j < i ==> (#[trigger] walkers@[j]).current_location == origin && MIN_LIFETIME
                    <= walkers@[j].steps() <= MAX_LIFETIME,
        decreases count - i,
    {
        walkers.push(Walker::new(origin));
        i += 1;
    }
    walkers
}

/// The walkers that a generation starts with: `WALKER_COUNT` of them on the
/// cell (0, 0).
pub fn setup_walkers() -> (walkers: Vec<Walker>)
    ensures
        walkers@.len() == WALKER_COUNT,
        forall|i: int|
            0 <= i < WALKER_COUNT ==> (#[trigger] walkers@[i]).current_location == (Coord { x: 0, y: 0 })
                && MIN_LIFETIME <= walkers@[i].steps() <= MAX_LIFETIME,
{
    spawn_walkers(Coord::new(0, 0), WALKER_COUNT)
}

/// The phase that follows `state`: generation is over, and play begins,
/// once no walker is left. Until then the phase stays as it is.
pub fn check_walkers(walkers: &Vec<Walker>, state: GameState) -> (next: GameState)
    ensures
        next == if walkers@.len() == 0 {
            GameState::Game
        } else {
            state
        },
{
    if walkers.len() != 0 {
        return state;
    }
    GameState::Game
}

/// The walkers and the cells after the ticks of `history`, where every tick
/// is followed by the removal of the walkers whose lifetime is spent.
/// `history` lists, tick by tick, the steps that the walkers take.
pub open spec fn generated(walkers: Seq<Walker>, cells: Set<Coord>, history: Seq<Seq<Coord>>) -> (
    Seq<Walker>,
    Set<Coord>,
)
    decreases history.len(),
{
    if history.len() == 0 {
        (walkers, cells)
    } else {
        let before = generated(walkers, cells, history.drop_last());
        let after = ticked(before.0, before.1, history.last());
        (survivors(after.0), after.1)
    }
}

/// Whether `history` is a run of ticks for the walkers and the cells: in
/// every tick every walker that is left takes one unit step.
pub open spec fn is_history(walkers: Seq<Walker>, cells: Set<Coord>, history: Seq<Seq<Coord>>) -> bool
    decreases history.len(),
{
    history.len() == 0 || {
        &&& is_history(walkers, cells, history.drop_last())
        &&& history.last().len() == generated(walkers, cells, history.drop_last()).0.len()
        &&& forall|i: int| 0 <= i < history.last().len() ==> (#[trigger] history.last()[i]).is_unit()
    }
}

/// Whether all four neighbours of `c` are cells of the grid.
pub open spec fn is_inland(c: Coord) -> bool {
    i32::MIN < c.x < i32::MAX && i32::MIN < c.y < i32::MAX
}

/// No tick loses a cell, and the first walker, if it is alive and its step
/// stays on the grid, carves the cell it steps on.
pub proof fn lemma_tick_carves(walkers: Seq<Walker>, cells: Set<Coord>, steps: Seq<Coord>)
    requires
        steps.len() == walkers.len(),
    ensures
        cells.subset_of(ticked(walkers, cells, steps).1),
        walkers.len() > 0 && walkers[0].steps() > 0 && walkers[0].current_location.can_shift(steps[0])
            ==> ticked(walkers, cells, steps).1.contains(walkers[0].current_location.shifted(steps[0])),
    decreases walkers.len(),
{
    if walkers.len() > 0 {
        let rest = walkers.drop_last();
        let rest_steps = steps.drop_last();
        lemma_tick_carves(rest, cells, rest_steps);
        if rest.len() > 0 {
            assert(rest[0] == walkers[0]);
            assert(rest_steps[0] == steps[0]);
        }
    }
}

/// Carves a whole catacomb: `walker_count` walkers set out from `origin` and
/// walk, tick after tick, until none is left.
///
/// This always ends, since every tick with a live walker spends some of the
/// generation budget. The world is what some run of ticks carves out of the
/// empty grid, with walkers born as `spawn_walkers` bears them. Whatever the
/// run, every carved cell can be reached from `origin` by grid steps over
/// carved cells; and with a walker, and an origin away from the edge of the
/// grid, a cell next to the origin is carved.
pub fn generate_catacomb(origin: Coord, walker_count: usize) -> (world: WorldCatacomb)
    ensures
        connected_from(world@, origin),
        world@.finite(),
        walker_count > 0 && is_inland(origin) ==> exists|step: Coord|
            step.is_unit() && world@.contains(#[trigger] origin.shifted(step)),
        exists|born: Seq<Walker>, history: Seq<Seq<Coord>>|
            {
                &&& born.len() == walker_count
                &&& forall|i: int|
                    0 <= i < born.len() ==> (#[trigger] born[i]).current_location == origin && MIN_LIFETIME
                        <= born[i].steps() <= MAX_LIFETIME
                &&& is_history(born, Set::<Coord>::empty(), history)
                &&& #[trigger] generated(born, Set::<Coord>::empty(), history) == (
                    Seq::<Walker>::empty(),
                    world@,
                )
            },
{
    let mut world = WorldCatacomb::new();
    let mut walkers = spawn_walkers(origin, walker_count);
    let ghost born = walkers@;
    let ghost mut history: Seq<Seq<Coord>> = Seq::empty();
    proof {
        lemma_cells_bounded(world@);
        assert(generation_ok(world@, walkers@, origin));
    }
    while walkers.len() > 0
        invariant
            world@.finite(),
            generation_ok(world@, walkers@, origin),
            generation_budget(world@, walkers@) >= 0,
            forall|i: int| 0 <= i < walkers@.len() ==> (#[trigger] walkers@[i]).steps() > 0,
            born.len() == walker_count,
            forall|i: int|
                0 <= i < born.len() ==> (#[trigger] born[i]).current_location == origin && MIN_LIFETIME
                    <= born[i].steps() <= MAX_LIFETIME,
            is_history(born, Set::<Coord>::empty(), history),
            generated(born, Set::<Coord>::empty(), history) == (walkers@, world@),
            history.len() == 0 ==> walkers@ == born && world@ == Set::<Coord>::empty(),
            history.len() > 0 && walker_count > 0 && is_inland(origin) ==> exists|step: Coord|
                step.is_unit() && world@.contains(#[trigger] origin.shifted(step)),
        decreases generation_budget(world@, walkers@),
    {
        let ghost before = walkers@;
        let ghost cells_before = world@;
        let ghost so_far = history;
        proof {
            lemma_live_walker_counts(walkers@);
        }
        walk_walker_generators(&mut walkers, &mut world);
        let ghost walked = walkers@;
        proof {
            use_type_invariant(&world);
            world.lemma_inv_finite();
            lemma_survivors(walked);
            let steps = choose|steps: Seq<Coord>|
                steps.len() == before.len() && (forall|i: int|
                    0 <= i < steps.len() ==> (#[trigger] steps[i]).is_unit()) && (walked, world@)
                    == #[trigger] ticked(before, cells_before, steps);
            history = so_far.push(steps);
            assert(history.drop_last() == so_far);
            assert(history.last() == steps);
            lemma_tick_carves(before, cells_before, steps);
            if so_far.len() == 0 && walker_count > 0 && is_inland(origin) {
                assert(before[0].current_location == origin);
                assert(steps[0].is_unit());
                assert(world@.contains(origin.shifted(steps[0])));
            }
            if so_far.len() > 0 && walker_count > 0 && is_inland(origin) {
                let step = choose|step: Coord|
                    step.is_unit() && cells_before.contains(#[trigger] origin.shifted(step));
                assert(world@.contains(origin.shifted(step)));
            }
        }
        destroy_walker_generators(&mut walkers);
        proof {
            assert forall|i: int| 0 <= i < walkers@.len() implies (#[trigger] walkers@[i]).current_location
                == origin || world@.contains(walkers@[i].current_location) by {
                let k = choose|k: int| 0 <= k < walked.len() && walked[k] == walkers@[i];
                assert(walked[k].current_location == origin || world@.contains(
                    walked[k].current_location,
                ));
            }
        }
    }
    proof {
        assert(walkers@ =~= Seq::<Walker>::empty());
    }
    world
}

} // verus!
