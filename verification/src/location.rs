//! Where an actor stands, which way it faces, and how it turns and moves.

use vstd::prelude::*;
use crate::coord::Coord;
use crate::world::WorldCatacomb;

verus! {

/// A quarter turn to one side.
#[derive(Clone, Copy, Debug, PartialEq, Eq, Structural)]
pub enum Turn {
    Right,
    Left,
}

/// Whether both components of `v` can be negated in 32 bits.
pub open spec fn can_negate(v: Coord) -> bool {
    v.x > i32::MIN && v.y > i32::MIN
}

/// `v` after a quarter turn to the left: (x, y) becomes (-y, x).
pub open spec fn rotated_left(v: Coord) -> Coord
    recommends
        can_negate(v),
{
    Coord { x: (-v.y) as i32, y: v.x }
}

/// `v` after a quarter turn to the right: (x, y) becomes (y, -x).
pub open spec fn rotated_right(v: Coord) -> Coord
    recommends
        can_negate(v),
{
    Coord { x: v.y, y: (-v.x) as i32 }
}

/// The place and facing of an actor on the grid, with the flag that freezes
/// an actor while it is locked in combat.
#[derive(Clone, Copy, Debug, PartialEq, Eq, Structural)]
pub struct WorldLocation {
    pub location: Coord,
    pub forward: Coord,
    pub can_move: bool,
}

impl WorldLocation {
    /// Whether the facing can be turned: neither of its components is the
    /// one 32-bit value that has no negative.
    pub open spec fn wf(self) -> bool {
        can_negate(self.forward)
    }

    /// The location after `turn(dir)`.
    pub open spec fn turned(self, dir: Turn) -> WorldLocation {
        if !self.can_move {
            self
        } else {
            WorldLocation {
                forward: match dir {
                    Turn::Right => rotated_right(self.forward),
                    Turn::Left => rotated_left(self.forward),
                },
                ..self
            }
        }
    }

    /// Whether `move_forward` over `cells` changes the place: the actor may
    /// move and the cell in front of it is occupied.
    pub open spec fn way_is_open(self, cells: Set<Coord>) -> bool {
        &&& self.can_move
        &&& self.location.can_shift(self.forward)
        &&& cells.contains(self.location.shifted(self.forward))
    }

    /// The location after `move_forward` over `cells`.
    pub open spec fn moved_forward(self, cells: Set<Coord>) -> WorldLocation {
        if self.way_is_open(cells) {
            WorldLocation { location: self.location.shifted(self.forward), ..self }
        } else {
            self
        }
    }

    /// Whether the offset from the actor to `target` can serve as a facing.
    pub open spec fn can_face(self, target: Coord) -> bool {
        target.can_offset_from(self.location) && can_negate(target.offset_from(self.location))
    }

    /// The location after `face_towards(target)`.
    pub open spec fn facing(self, target: Coord) -> WorldLocation {
        if !self.can_move {
            self
        } else {
            WorldLocation { forward: target.offset_from(self.location), ..self }
        }
    }

    /// An actor on `start` that faces `face` and may move.
    pub fn new(start: Coord, face: Coord) -> (l: WorldLocation)
        requires
            can_negate(face),
        ensures
            l == (WorldLocation { location: start, forward: face, can_move: true }),
            l.wf(),
    {
        WorldLocation { location: start, forward: face, can_move: true }
    }

    /// Whether the facing can be turned.
    pub fn can_turn(&self) -> (b: bool)
        ensures
            b == self.wf(),
    {
        self.forward.x > i32::MIN && self.forward.y > i32::MIN
    }

    /// The facing.
    pub fn get_forward(&self) -> (f: Coord)
        ensures
            f == self.forward,
    {
        self.forward
    }

    /// The place.
    pub fn get_location(&self) -> (c: Coord)
        ensures
            c == self.location,
    {
        self.location
    }

    /// Sets the facing to the offset from the actor to `position`, as it is
    /// and not scaled to unit length. A frozen actor stays as it is.
    pub fn face_towards(&mut self, position: Coord)
        requires
            old(self).can_move ==> old(self).can_face(position),
        ensures
            *final(self) == old(self).facing(position),
            old(self).wf() ==> final(self).wf(),
    {
        if !self.can_move {
            return ;
        }
        self.forward = Coord {
            x: position.x - self.location.x,
            y: position.y - self.location.y,
        };
    }

    /// Turns the facing by a quarter turn: to the left (x, y) becomes
    /// (-y, x), to the right (y, -x). A frozen actor stays as it is.
    pub fn turn(&mut self, dir: Turn)
        requires
            old(self).wf(),
        ensures
            *final(self) == old(self).turned(dir),
            final(self).wf(),
    {
        if !self.can_move {
            return ;
        }
        let forward = self.forward;
        match dir {
            Turn::Right => {
                self.forward = Coord { x: forward.y, y: -forward.x };
            },
            Turn::Left => {
                self.forward = Coord { x: -forward.y, y: forward.x };
            },
        }
    }

    /// Steps onto the cell in front of the actor where that cell is
    /// occupied. Else, and for a frozen actor, nothing changes.
    pub fn move_forward(&mut self, world: &WorldCatacomb)
        ensures
            *final(self) == old(self).moved_forward(world@),
            !old(self).way_is_open(world@) ==> *final(self) == *old(self),
            world@.contains(old(self).location) ==> world@.contains(final(self).location),
            old(self).wf() ==> final(self).wf(),
    {
        if !self.can_move {
            return ;
        }
        match self.location.checked_add(&self.forward) {
            Some(destination) => {
                if world.contains(&destination) {
                    self.location = destination;
                }
            },
            None => {},
        }
    }
}

impl Default for WorldLocation {
    /// An actor on (0, 0) with no facing yet, frozen.
    fn default() -> (l: WorldLocation)
        ensures
            l == (WorldLocation {
                location: Coord { x: 0, y: 0 },
                forward: Coord { x: 0, y: 0 },
                can_move: false,
            }),
    {
        WorldLocation { location: Coord::new(0, 0), forward: Coord::new(0, 0), can_move: false }
    }
}

/// Four quarter turns to the left bring the actor back to where it was.
pub proof fn lemma_four_left_turns(l: WorldLocation)
    requires
        l.wf(),
    ensures
        l.turned(Turn::Left).turned(Turn::Left).turned(Turn::Left).turned(Turn::Left) == l,
{
}

/// Four quarter turns to the right bring the actor back to where it was.
pub proof fn lemma_four_right_turns(l: WorldLocation)
    requires
        l.wf(),
    ensures
        l.turned(Turn::Right).turned(Turn::Right).turned(Turn::Right).turned(Turn::Right) == l,
{
}

/// A quarter turn to one side and one back to the other cancel out.
pub proof fn lemma_opposite_turns_cancel(l: WorldLocation)
    requires
        l.wf(),
    ensures
        l.turned(Turn::Left).turned(Turn::Right) == l,
        l.turned(Turn::Right).turned(Turn::Left) == l,
{
}

/// Turning keeps the facing turnable, and never moves the actor.
pub proof fn lemma_turn_keeps_place(l: WorldLocation, dir: Turn)
    requires
        l.wf(),
    ensures
        l.turned(dir).wf(),
        l.turned(dir).location == l.location,
        l.turned(dir).can_move == l.can_move,
{
}

} // verus!
