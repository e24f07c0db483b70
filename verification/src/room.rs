//! The rooms of the catacomb and the walls around them.

use vstd::prelude::*;
use crate::coord::{abs, Coord};
use crate::world::WorldCatacomb;

verus! {

/// Whether two cells touch: they are the same or neighbours, diagonals
/// included.
pub open spec fn touches(a: Coord, b: Coord) -> bool {
    abs(a.x - b.x) <= 1 && abs(a.y - b.y) <= 1
}

/// Whether a wall stands on `c`: `c` is no cell of the world and touches
/// one.
pub open spec fn is_wall(cells: Set<Coord>, c: Coord) -> bool {
    !cells.contains(c) && exists|o: Coord| cells.contains(o) && touches(o, c)
}

/// The nine offsets to a cell and the cells that touch it.
pub open spec fn around() -> Seq<Coord> {
    seq![
        Coord { x: -1i32, y: -1i32 },
        Coord { x: -1i32, y: 0 },
        Coord { x: -1i32, y: 1 },
        Coord { x: 0, y: -1i32 },
        Coord { x: 0, y: 0 },
        Coord { x: 0, y: 1 },
        Coord { x: 1, y: -1i32 },
        Coord { x: 1, y: 0 },
        Coord { x: 1, y: 1 },
    ]
}

/// Whether `c` is reached from `cell` by one of the first `u` offsets.
pub open spec fn reached(cell: Coord, c: Coord, u: int) -> bool {
    exists|v: int| 0 <= v < u && cell.can_shift(#[trigger] around()[v]) && cell.shifted(around()[v]) == c
}

proof fn lemma_around(cell: Coord, c: Coord)
    ensures
        touches(cell, c) <==> reached(cell, c, 9),
{
    if touches(cell, c) {
        let u = (c.x - cell.x + 1) * 3 + (c.y - cell.y + 1);
        assert(0 <= u < 9);
        assert(cell.can_shift(around()[u]) && cell.shifted(around()[u]) == c);
    }
    if reached(cell, c, 9) {
        let u = choose|u: int|
            0 <= u < 9 && cell.can_shift(#[trigger] around()[u]) && cell.shifted(around()[u]) == c;
        assert(touches(cell, c));
    }
}

proof fn lemma_reached_step(cell: Coord, c: Coord, u: int)
    requires
        0 <= u < 9,
    ensures
        reached(cell, c, u + 1) <==> reached(cell, c, u) || (cell.can_shift(around()[u]) && cell.shifted(
            around()[u],
        ) == c),
        !reached(cell, c, 0),
{
    if reached(cell, c, u + 1) {
        let v = choose|v: int|
            0 <= v < u + 1 && cell.can_shift(#[trigger] around()[v]) && cell.shifted(around()[v]) == c;
        if v < u {
            assert(reached(cell, c, u));
        }
    }
    if reached(cell, c, u) {
        let v = choose|v: int|
            0 <= v < u && cell.can_shift(#[trigger] around()[v]) && cell.shifted(around()[v]) == c;
        assert(0 <= v < u + 1);
    }
    if cell.can_shift(around()[u]) && cell.shifted(around()[u]) == c {
        assert(reached(cell, c, u + 1));
    }
}

fn offsets() -> (o: Vec<Coord>)
    ensures
        o@ == around(),
{
    let mut o: Vec<Coord> = Vec::new();
    let steps: [i32; 3] = [-1, 0, 1];
    let mut i: usize = 0;
    while i < 3
        invariant
            i <= 3,
            steps@ == seq![-1i32, 0i32, 1i32],
            o@ == around().take(3 * i as int),
        decreases 3 - i,
    {
        let mut j: usize = 0;
        while j < 3
            invariant
                i < 3,
                j <= 3,
                steps@ == seq![-1i32, 0i32, 1i32],
                o@ == around().take(3 * i as int + j as int),
            decreases 3 - j,
        {
            o.push(Coord::new(steps[i], steps[j]));
            proof {
                let n = 3 * i as int + j as int;
                assert(around().take(n + 1) =~= around().take(n).push(around()[n]));
                assert(around()[n] == Coord { x: steps@[i as int], y: steps@[j as int] });
            }
            j += 1;
        }
        i += 1;
    }
    proof {
        assert(around().take(9) =~= around());
    }
    o
}

/// The walls round one room: the cells reached from `room` by the first
/// `u` offsets that are no cells of the world, in the order of the offsets.
pub open spec fn walls_round(cells: Set<Coord>, room: Coord, u: int) -> Seq<Coord>
    decreases u,
{
    if u <= 0 {
        Seq::empty()
    } else {
        let step = around()[u - 1];
        if room.can_shift(step) && !cells.contains(room.shifted(step)) {
            walls_round(cells, room, u - 1).push(room.shifted(step))
        } else {
            walls_round(cells, room, u - 1)
        }
    }
}

/// The walls round the rooms listed, room after room.
pub open spec fn walls_of(cells: Set<Coord>, rooms: Seq<Coord>) -> Seq<Coord>
    decreases rooms.len(),
{
    if rooms.len() == 0 {
        Seq::empty()
    } else {
        walls_of(cells, rooms.drop_last()) + walls_round(cells, rooms.last(), 9)
    }
}

/// The cells that walls stand on: every cell that is not in the world and
/// touches a cell of the world, diagonals included.
///
/// The walls are listed room after room, in some order of the rooms, so
/// that a cell is listed once for every room it touches.
pub fn setup_walls(world: &WorldCatacomb) -> (walls: Vec<Coord>)
    ensures
        forall|c: Coord| walls@.contains(c) <==> is_wall(world@, c),
        exists|rooms: Seq<Coord>|
            rooms.no_duplicates() && rooms.to_set() == world@ && walls@ == #[trigger] walls_of(world@, rooms),
{
    let cells = world.cells();
    let offsets = offsets();
    let mut walls: Vec<Coord> = Vec::new();
    let mut i: usize = 0;
    while i < cells.len()
        invariant
            i <= cells.len(),
            cells@.to_set() == world@,
            offsets@ == around(),
            walls@ == walls_of(world@, cells@.take(i as int)),
            forall|c: Coord|
                walls@.contains(c) <==> !world@.contains(c) && exists|k: int|
                    0 <= k < i && touches(#[trigger] cells@[k], c),
        decreases cells.len() - i,
    {
        let cell = cells[i];
        let ghost before = walls@;
        proof {
            assert(walls@ =~= before + walls_round(world@, cell, 0));
            assert forall|c: Coord| !reached(cell, c, 0) by {
                lemma_reached_step(cell, c, 0);
            }
        }
        let mut u: usize = 0;
        while u < 9
            invariant
                u <= 9,
                i < cells.len(),
                cell == cells@[i as int],
                offsets@ == around(),
                walls@ == before + walls_round(world@, cell, u as int),
                forall|c: Coord|
                    #[trigger] walls@.contains(c) <==> before.contains(c) || (!world@.contains(c) && reached(
                        cell,
                        c,
                        u as int,
                    )),
            decreases 9 - u,
        {
            let ghost inner = walls@;
            match cell.checked_add(&offsets[u]) {
                Some(loc) => {
                    if !world.contains(&loc) {
                        walls.push(loc);
                    }
                },
                None => {},
            }
            proof {
                let step = around()[u as int];
                assert(walls@ =~= before + walls_round(world@, cell, u as int + 1));
                assert forall|c: Coord|
                    #[trigger] walls@.contains(c) <==> before.contains(c) || (!world@.contains(c) && reached(
                        cell,
                        c,
                        u as int + 1,
                    )) by {
                    lemma_reached_step(cell, c, u as int);
                    assert(inner.contains(c) <==> before.contains(c) || (!world@.contains(c) && reached(
                        cell,
                        c,
                        u as int,
                    )));
                    if cell.can_shift(step) && !world@.contains(cell.shifted(step)) {
                        let loc = cell.shifted(step);
                        assert(walls@ == inner.push(loc));
                        if inner.contains(c) {
                            let k = choose|k: int| 0 <= k < inner.len() && inner[k] == c;
                            assert(walls@[k] == c);
                        }
                        if c == loc {
                            assert(walls@[inner.len() as int] == c);
                        }
                        if walls@.contains(c) {
                            let k = choose|k: int| 0 <= k < walls@.len() && walls@[k] == c;
                            if k < inner.len() {
                                assert(inner[k] == c);
                            }
                        }
                    } else {
                        assert(walls@ == inner);
                    }
                }
            }
            u += 1;
        }
        proof {
            assert(cells@.take(i as int + 1).drop_last() == cells@.take(i as int));
            assert forall|c: Coord|
                walls@.contains(c) <==> !world@.contains(c) && exists|k: int|
                    0 <= k < i + 1 && touches(#[trigger] cells@[k], c) by {
                lemma_around(cell, c);
                if walls@.contains(c) && !before.contains(c) {
                    assert(touches(cells@[i as int], c));
                }
                if !world@.contains(c) && exists|k: int|
                    0 <= k < i + 1 && touches(#[trigger] cells@[k], c) {
                    let k = choose|k: int| 0 <= k < i + 1 && touches(#[trigger] cells@[k], c);
                    if k < i {
                        assert(before.contains(c));
                    } else {
                        assert(touches(cell, c));
                    }
                }
            }
        }
        i += 1;
    }
    proof {
        assert(cells@.take(cells@.len() as int) == cells@);
        assert forall|c: Coord| walls@.contains(c) <==> is_wall(world@, c) by {
            if walls@.contains(c) {
                let k = choose|k: int| 0 <= k < cells@.len() && touches(#[trigger] cells@[k], c);
                assert(cells@.contains(cells@[k]));
                assert(world@.contains(cells@[k]));
            }
            if is_wall(world@, c) {
                let o = choose|o: Coord| world@.contains(o) && touches(o, c);
                assert(cells@.to_set().contains(o));
                let k = choose|k: int| 0 <= k < cells@.len() && cells@[k] == o;
                assert(touches(cells@[k], c));
            }
        }
    }
    walls
}

} // verus!
