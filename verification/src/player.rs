//! The player: the one actor that the person at the controls steers.

use vstd::prelude::*;
use crate::combat::{Combat, CombatState, Health};
use crate::coord::Coord;
use crate::location::{Turn, WorldLocation};
use crate::world::WorldCatacomb;

verus! {

/// The id of the player among the actors.
pub const PLAYER_ID: u64 = 0;

/// The player: where it stands, what health it has left, and whether it is
/// locked in combat.
#[derive(Clone, Copy, Debug, PartialEq, Eq, Structural)]
pub struct Player {
    pub id: u64,
    pub location: WorldLocation,
    pub health: Health,
    pub combat: Combat,
}

/// What the person at the controls asked for since the last frame.
#[derive(Clone, Copy, Debug, PartialEq, Eq, Structural)]
pub struct PlayerInput {
    pub turn_left: bool,
    pub turn_right: bool,
    pub move_forward: bool,
}

/// Where a player starts: on (0, 0), facing along +Y, free to move.
pub fn new_player_location() -> (l: WorldLocation)
    ensures
        l == (WorldLocation {
            location: Coord { x: 0, y: 0 },
            forward: Coord { x: 0, y: 1 },
            can_move: true,
        }),
        l.wf(),
{
    WorldLocation::new(Coord::new(0, 0), Coord::new(0, 1))
}

impl Player {
    /// The player as the combat state wants it: locked in combat and frozen
    /// exactly while an opponent is engaged.
    pub open spec fn synced(self, state: CombatState) -> Player {
        Player {
            combat: Combat { is_in_combat: state.opponent is Some },
            location: WorldLocation { can_move: state.opponent is None, ..self.location },
            ..self
        }
    }

    /// The player as it enters combat with an enemy on `at`: it turns to
    /// face the enemy and is frozen.
    pub open spec fn engaged_with(self, at: Coord) -> Player {
        Player {
            combat: Combat { is_in_combat: true },
            location: WorldLocation {
                forward: at.offset_from(self.location.location),
                can_move: false,
                ..self.location
            },
            ..self
        }
    }

    /// The player as it leaves combat: free to move again.
    pub open spec fn released(self) -> Player {
        Player {
            combat: Combat { is_in_combat: false },
            location: WorldLocation { can_move: true, ..self.location },
            ..self
        }
    }

    /// A player with the id `id` at the start: full health, not in combat.
    pub fn new(id: u64) -> (p: Player)
        ensures
            p == (Player {
                id,
                location: WorldLocation {
                    location: Coord { x: 0, y: 0 },
                    forward: Coord { x: 0, y: 1 },
                    can_move: true,
                },
                health: Health(crate::combat::FULL_HEALTH),
                combat: Combat { is_in_combat: false },
            }),
            p.location.wf(),
    {
        Player {
            id,
            location: new_player_location(),
            health: Health::default(),
            combat: Combat::default(),
        }
    }
}

/// The player to start a session with, unless a free camera takes its
/// place.
pub fn setup_player(free_camera: bool) -> (p: Option<Player>)
    ensures
        free_camera ==> p is None,
        !free_camera ==> p is Some && p->Some_0.id == PLAYER_ID && p->Some_0.location.wf()
            && p->Some_0.location == (WorldLocation {
            location: Coord { x: 0, y: 0 },
            forward: Coord { x: 0, y: 1 },
            can_move: true,
        }) && p->Some_0.health == Health(crate::combat::FULL_HEALTH) && !p->Some_0.combat.is_in_combat,
{
    if free_camera {
        return None;
    }
    Some(Player::new(PLAYER_ID))
}

/// The location after the commands of `input`, taken in the order left
/// turn, right turn, step forward.
pub open spec fn steered(l: WorldLocation, input: PlayerInput, cells: Set<Coord>) -> WorldLocation {
    let a = if input.turn_left {
        l.turned(Turn::Left)
    } else {
        l
    };
    let b = if input.turn_right {
        a.turned(Turn::Right)
    } else {
        a
    };
    if input.move_forward {
        b.moved_forward(cells)
    } else {
        b
    }
}

/// A player that stands on a cell of the world still does after any
/// commands.
pub proof fn lemma_steered_stays_in_world(l: WorldLocation, input: PlayerInput, cells: Set<Coord>)
    requires
        cells.contains(l.location),
        l.wf(),
    ensures
        cells.contains(steered(l, input, cells).location),
        steered(l, input, cells).wf(),
{
}

/// How many commands `input` holds. Each one is a tick of the game.
pub open spec fn commands_in(input: PlayerInput) -> int {
    (if input.turn_left { 1int } else { 0int }) + (if input.turn_right { 1int } else { 0int })
        + (if input.move_forward { 1int } else { 0int })
}

/// Carries out the commands of `input` on the player's location: a turn to
/// the left, a turn to the right, a step forward, each where asked for.
/// Returns the number of ticks that this makes: one for every command,
/// whether or not it changed anything.
pub fn move_player(location: &mut WorldLocation, world: &WorldCatacomb, input: PlayerInput) -> (ticks: usize)
    requires
        old(location).wf(),
    ensures
        *final(location) == steered(*old(location), input, world@),
        final(location).wf(),
        ticks == commands_in(input),
{
    let mut ticks: usize = 0;
    if input.turn_left {
        ticks += 1;
        location.turn(Turn::Left);
    }
    if input.turn_right {
        ticks += 1;
        location.turn(Turn::Right);
    }
    if input.move_forward {
        ticks += 1;
        location.move_forward(world);
    }
    ticks
}

} // verus!
