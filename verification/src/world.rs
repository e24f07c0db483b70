//! The catacomb: the set of cells that have been carved out and can be walked.

use vstd::prelude::*;
use vstd::relations::injective_on;
use vstd::set_lib::{lemma_int_range, lemma_len_subset, lemma_map_size, set_int_range};
use crate::chance::random_choice;
use crate::coord::Coord;

verus! {

/// The engine's hash set of cells. Verus does not look inside it: what it
/// holds is spoken of through `cell_set_contents`.
#[verifier::external_body]
pub struct CellSet {
    inner: bevy::utils::HashSet<(i32, i32)>,
}

/// The cells that a `CellSet` holds.
pub uninterp spec fn cell_set_contents(s: CellSet) -> Set<Coord>;

/// Calls `HashSet::default` of `bevy::utils`. Trusted: the new set holds
/// nothing.
#[verifier::external_body]
fn cell_set_new() -> (s: CellSet)
    ensures
        cell_set_contents(s) == Set::<Coord>::empty(),
{
    CellSet { inner: bevy::utils::HashSet::default() }
}

/// Calls `HashSet::insert` of `bevy::utils` with the cell as a pair. Trusted:
/// afterwards the set holds what it held and the cell, and the result tells
/// whether the cell was new to it. The call does not unwind: the set grows
/// by allocation, and a failed allocation ends the process.
#[verifier::external_body]
fn cell_set_insert(s: &mut CellSet, c: Coord) -> (fresh: bool)
    ensures
        cell_set_contents(*final(s)) == cell_set_contents(*old(s)).insert(c),
        fresh == !cell_set_contents(*old(s)).contains(c),
    no_unwind
{
    s.inner.insert((c.x, c.y))
}

/// Calls `HashSet::contains` of `bevy::utils` with the cell as a pair.
/// Trusted: the result tells whether the set holds the cell.
#[verifier::external_body]
fn cell_set_contains(s: &CellSet, c: &Coord) -> (held: bool)
    ensures
        held == cell_set_contents(*s).contains(*c),
{
    s.inner.contains(&(c.x, c.y))
}

/// Calls `HashSet::len` of `bevy::utils`. Trusted: the result is the number
/// of cells that the set holds.
#[verifier::external_body]
fn cell_set_len(s: &CellSet) -> (n: usize)
    ensures
        n == cell_set_contents(*s).len(),
{
    s.inner.len()
}

/// Calls `HashSet::iter` of `bevy::utils` and collects what it yields.
/// Trusted: every cell of the set comes out exactly once; nothing is said of
/// the order.
#[verifier::external_body]
fn cell_set_to_vec(s: &CellSet) -> (v: Vec<Coord>)
    ensures
        v@.no_duplicates(),
        v@.to_set() == cell_set_contents(*s),
{
    s.inner.iter().map(|p| Coord::new(p.0, p.1)).collect()
}

/// The grid world: the set of occupied, walkable cells. Cells are only ever
/// added to it.
pub struct WorldCatacomb {
    cells: CellSet,
}

impl View for WorldCatacomb {
    type V = Set<Coord>;

    /// The set of occupied cells.
    closed spec fn view(&self) -> Set<Coord> {
        cell_set_contents(self.cells)
    }
}

impl WorldCatacomb {
    /// A world always holds finitely many cells.
    #[verifier::type_invariant]
    pub closed spec fn inv(self) -> bool {
        cell_set_contents(self.cells).finite()
    }

    /// What `inv` means for the view.
    pub proof fn lemma_inv_finite(self)
        requires
            self.inv(),
        ensures
            self@.finite(),
    {
    }

    /// The world with no cell in it.
    pub fn new() -> (w: WorldCatacomb)
        ensures
            w@ == Set::<Coord>::empty(),
    {
        WorldCatacomb { cells: cell_set_new() }
    }

    /// Marks `c` as occupied. Returns whether it was not occupied before.
    pub fn insert(&mut self, c: Coord) -> (fresh: bool)
        ensures
            final(self)@ == old(self)@.insert(c),
            fresh == !old(self)@.contains(c),
            old(self)@.finite(),
            final(self)@.finite(),
    {
        proof {
            use_type_invariant(&*self);
        }
        cell_set_insert(&mut self.cells, c)
    }

    /// Whether `c` is occupied.
    pub fn contains(&self, c: &Coord) -> (held: bool)
        ensures
            held == self@.contains(*c),
    {
        cell_set_contains(&self.cells, c)
    }

    /// The number of occupied cells.
    pub fn len(&self) -> (n: usize)
        ensures
            self@.finite(),
            n == self@.len(),
    {
        proof {
            use_type_invariant(self);
        }
        cell_set_len(&self.cells)
    }

    /// Whether no cell is occupied.
    pub fn is_empty(&self) -> (b: bool)
        ensures
            b == (self@.len() == 0),
            b == (self@ == Set::<Coord>::empty()),
            self@.finite(),
    {
        let n = cell_set_len(&self.cells);
        proof {
            use_type_invariant(self);
            if n == 0 {
                self@.lemma_len0_is_empty();
            }
        }
        n == 0
    }

    /// An occupied cell, drawn at random. The world must hold a cell: to
    /// draw from an empty world is an error of the caller.
    pub fn pick_location(&self) -> (c: Coord)
        requires
            self@.len() > 0,
        ensures
            self@.contains(c),
    {
        let cells = self.cells();
        proof {
            use_type_invariant(self);
            if cells@.len() == 0 {
                assert(cells@.to_set() =~= Set::<Coord>::empty());
            }
        }
        let c = random_choice(&cells).unwrap();
        proof {
            assert(cells@.to_set().contains(c));
        }
        c
    }

    /// Every occupied cell, each once, in no particular order.
    pub fn cells(&self) -> (v: Vec<Coord>)
        ensures
            v@.no_duplicates(),
            v@.to_set() == self@,
    {
        cell_set_to_vec(&self.cells)
    }

    /// The world that holds exactly the cells listed.
    pub fn from_cells(cells: &Vec<Coord>) -> (w: WorldCatacomb)
        ensures
            w@ == cells@.to_set(),
    {
        let mut w = WorldCatacomb::new();
        let mut i: usize = 0;
        while i < cells.len()
            invariant
                i <= cells.len(),
                w@ == cells@.take(i as int).to_set(),
            decreases cells.len() - i,
        {
            w.insert(cells[i]);
            proof {
                let before = cells@.take(i as int);
                let after = cells@.take(i as int + 1);
                assert(after == before.push(cells@[i as int]));
                assert(after.to_set() =~= before.to_set().insert(cells@[i as int])) by {
                    assert forall|c: Coord| after.to_set().contains(c) <==> before.to_set().insert(
                        cells@[i as int],
                    ).contains(c) by {
                        if after.contains(c) {
                            let k = choose|k: int| 0 <= k < after.len() && after[k] == c;
                            if k < i {
                                assert(before[k] == c);
                            }
                        }
                        if before.contains(c) {
                            let k = choose|k: int| 0 <= k < before.len() && before[k] == c;
                            assert(after[k] == c);
                        }
                        if c == cells@[i as int] {
                            assert(after[i as int] == c);
                        }
                    }
                }
            }
            i += 1;
        }
        proof {
            assert(cells@.take(cells.len() as int) == cells@);
        }
        w
    }
}

impl Default for WorldCatacomb {
    /// The world with no cell in it.
    fn default() -> (w: WorldCatacomb)
        ensures
            w@ == Set::<Coord>::empty(),
    {
        WorldCatacomb::new()
    }
}

/// Whether `p` is a walk by single grid steps that, after its first cell,
/// stays on `cells`. The first cell is where the walk sets out from and need
/// not be occupied.
pub open spec fn is_trail(cells: Set<Coord>, p: Seq<Coord>) -> bool {
    &&& p.len() >= 1
    &&& forall|i: int| 1 <= i < p.len() ==> p[i - 1].is_step(#[trigger] p[i]) && cells.contains(p[i])
}

/// Whether `p` is a trail over `cells` that leads from `from` to `to`.
pub open spec fn links(cells: Set<Coord>, from: Coord, to: Coord, p: Seq<Coord>) -> bool {
    &&& is_trail(cells, p)
    &&& p[0] == from
    &&& p[p.len() - 1] == to
}

/// Whether `to` can be reached from `from` by grid steps over `cells`.
pub open spec fn reachable(cells: Set<Coord>, from: Coord, to: Coord) -> bool {
    exists|p: Seq<Coord>| links(cells, from, to, p)
}

/// Whether every cell of `cells` can be reached from `origin` by grid steps
/// over `cells`: no cell is cut off from the origin.
pub open spec fn connected_from(cells: Set<Coord>, origin: Coord) -> bool {
    forall|c: Coord| cells.contains(c) ==> reachable(cells, origin, c)
}

/// Every cell reaches itself.
pub proof fn lemma_reachable_self(cells: Set<Coord>, c: Coord)
    ensures
        reachable(cells, c, c),
{
    assert(links(cells, c, c, seq![c]));
}

/// A trail can be prolonged by one step onto an occupied cell.
pub proof fn lemma_trail_extend(cells: Set<Coord>, from: Coord, to: Coord, next: Coord, p: Seq<Coord>)
    requires
        links(cells, from, to, p),
        to.is_step(next),
        cells.contains(next),
    ensures
        links(cells, from, next, p.push(next)),
{
    let q = p.push(next);
    assert forall|i: int| 1 <= i < q.len() implies q[i - 1].is_step(#[trigger] q[i])
        && cells.contains(q[i]) by {
        if i < p.len() {
            assert(q[i] == p[i]);
            assert(q[i - 1] == p[i - 1]);
        }
    }
}

/// A trail stays a trail when cells are added.
pub proof fn lemma_trail_grows(cells: Set<Coord>, more: Set<Coord>, from: Coord, to: Coord, p: Seq<Coord>)
    requires
        links(cells, from, to, p),
        cells.subset_of(more),
    ensures
        links(more, from, to, p),
{
    assert forall|i: int| 1 <= i < p.len() implies p[i - 1].is_step(#[trigger] p[i])
        && more.contains(p[i]) by {
        assert(cells.contains(p[i]));
    }
}

/// Carving a cell next to one that the origin reaches keeps the catacomb
/// connected: the new cell is reached through its neighbour.
pub proof fn lemma_carve_keeps_connected(cells: Set<Coord>, origin: Coord, at: Coord, next: Coord)
    requires
        connected_from(cells, origin),
        at == origin || cells.contains(at),
        at.is_step(next),
    ensures
        connected_from(cells.insert(next), origin),
        reachable(cells.insert(next), origin, next),
{
    let more = cells.insert(next);
    if at == origin {
        lemma_reachable_self(cells, origin);
    }
    let p = choose|p: Seq<Coord>| links(cells, origin, at, p);
    lemma_trail_grows(cells, more, origin, at, p);
    lemma_trail_extend(more, origin, at, next, p);
    assert forall|c: Coord| more.contains(c) implies reachable(more, origin, c) by {
        if c != next {
            let q = choose|q: Seq<Coord>| links(cells, origin, c, q);
            lemma_trail_grows(cells, more, origin, c, q);
        }
    }
}

/// The number of cells of the whole grid: every pair of 32-bit coordinates.
pub open spec fn grid_size() -> int {
    0x1_0000_0000_0000_0000
}

/// The place of a cell when the grid is counted row by row.
pub open spec fn cell_code(c: Coord) -> int {
    (c.x - i32::MIN) * 0x1_0000_0000 + (c.y - i32::MIN)
}

/// No set of cells is larger than the grid.
pub proof fn lemma_cells_bounded(cells: Set<Coord>)
    requires
        cells.finite(),
    ensures
        cells.len() <= grid_size(),
{
    let f = |c: Coord| cell_code(c);
    let codes = cells.map(f);
    assert forall|a: Coord, b: Coord| #[trigger] f(a) == #[trigger] f(b) implies a == b by {
        let ax = a.x - i32::MIN;
        let bx = b.x - i32::MIN;
        let ay = a.y - i32::MIN;
        let by = b.y - i32::MIN;
        assert(ax * 0x1_0000_0000 + ay == bx * 0x1_0000_0000 + by);
        assert(0 <= ay < 0x1_0000_0000 && 0 <= by < 0x1_0000_0000);
        assert(ax == bx);
        assert(ay == by);
    }
    assert(injective_on(f, cells));
    lemma_map_size(cells, codes, f);
    lemma_int_range(0, grid_size());
    assert forall|k: int| codes.contains(k) implies set_int_range(0, grid_size()).contains(k) by {
        let c = choose|c: Coord| cells.contains(c) && f(c) == k;
        let cx = c.x - i32::MIN;
        let cy = c.y - i32::MIN;
        assert(0 <= cx < 0x1_0000_0000 && 0 <= cy < 0x1_0000_0000);
        assert(0 <= cx * 0x1_0000_0000 + cy < 0x1_0000_0000_0000_0000);
    }
    lemma_len_subset(codes, set_int_range(0, grid_size()));
}

} // verus!
