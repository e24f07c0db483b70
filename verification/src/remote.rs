//! The players of a shared session: where each stands, as it is kept and as
//! it is sent.

use std::collections::HashMap;
use vstd::prelude::*;
use crate::coord::Coord;
use crate::location::{can_negate, rotated_left, rotated_right, Turn};
use crate::network::ServerMessages;
use crate::search::{first_index, lemma_first_index_is, lemma_first_index_none};
use crate::world::WorldCatacomb;

verus! {

/// The place and facing of a player of a shared session.
#[derive(Clone, Copy, Debug, PartialEq, Eq, Structural)]
pub struct PlayerLocation {
    pub location: Coord,
    pub forward: Coord,
}

/// A player's place and facing as they are sent.
#[derive(Clone, Copy, Debug, PartialEq, Eq, Structural)]
pub struct PlayerLocationNetwork {
    pub location: Coord,
    pub forward: Coord,
}

/// A player that another machine steers, with its id.
#[derive(Clone, Copy, Debug, PartialEq, Eq, Structural)]
pub struct OtherPlayer(pub u64);

/// The id of the machine that owns an actor.
#[derive(Clone, Copy, Debug, PartialEq, Eq, Structural)]
pub struct OwnerId(pub u64);

impl PlayerLocation {
    /// The location after `turn(dir)`.
    pub open spec fn turned(self, dir: Turn) -> PlayerLocation {
        PlayerLocation {
            forward: match dir {
                Turn::Right => rotated_right(self.forward),
                Turn::Left => rotated_left(self.forward),
            },
            ..self
        }
    }

    /// The location after `move_forward` over `cells`.
    pub open spec fn moved_forward(self, cells: Set<Coord>) -> PlayerLocation {
        if self.location.can_shift(self.forward) && cells.contains(self.location.shifted(self.forward)) {
            PlayerLocation { location: self.location.shifted(self.forward), ..self }
        } else {
            self
        }
    }

    /// A player on (0, 0) that faces along +Y.
    pub fn new() -> (l: PlayerLocation)
        ensures
            l == (PlayerLocation { location: Coord { x: 0, y: 0 }, forward: Coord { x: 0, y: 1 } }),
    {
        PlayerLocation { location: Coord::new(0, 0), forward: Coord::new(0, 1) }
    }

    /// The facing.
    pub fn get_forward(&self) -> (f: Coord)
        ensures
            f == self.forward,
    {
        self.forward
    }

    /// The place.
    pub fn get_location(&self) -> (c: Coord)
        ensures
            c == self.location,
    {
        self.location
    }

    /// Turns the facing by a quarter turn: to the left (x, y) becomes
    /// (-y, x), to the right (y, -x).
    pub fn turn(&mut self, dir: Turn)
        requires
            can_negate(old(self).forward),
        ensures
            *final(self) == old(self).turned(dir),
            can_negate(final(self).forward),
    {
        let forward = self.forward;
        match dir {
            Turn::Right => {
                self.forward = Coord { x: forward.y, y: -forward.x };
            },
            Turn::Left => {
                self.forward = Coord { x: -forward.y, y: forward.x };
            },
        }
    }

    /// Steps onto the cell in front of the player where that cell is
    /// occupied. Else nothing changes.
    pub fn move_forward(&mut self, world: &WorldCatacomb)
        ensures
            *final(self) == old(self).moved_forward(world@),
    {
        match self.location.checked_add(&self.forward) {
            Some(destination) => {
                if world.contains(&destination) {
                    self.location = destination;
                }
            },
            None => {},
        }
    }

    /// The place and facing, to be sent.
    pub fn as_remote(&self) -> (remote: PlayerLocationNetwork)
        ensures
            remote == (PlayerLocationNetwork { location: self.location, forward: self.forward }),
    {
        PlayerLocationNetwork { location: self.location, forward: self.forward }
    }

    /// Takes over the place and facing that were received.
    pub fn sync(&mut self, remote: &PlayerLocationNetwork)
        ensures
            *final(self) == (PlayerLocation { location: remote.location, forward: remote.forward }),
    {
        self.location = remote.location;
        self.forward = remote.forward;
    }
}

/// The places of the players by id. Where an id occurs more than once, the
/// last player with it counts.
pub open spec fn positions_of(players: Seq<(OtherPlayer, PlayerLocation)>) -> Map<u64, PlayerLocationNetwork>
    decreases players.len(),
{
    if players.len() == 0 {
        Map::empty()
    } else {
        positions_of(players.drop_last()).insert(
            players.last().0.0,
            PlayerLocationNetwork { location: players.last().1.location, forward: players.last().1.forward },
        )
    }
}

/// What the server sends to keep the clients in step: the place and facing
/// of every player, by id.
pub fn server_sync_positions(players: &Vec<(OtherPlayer, PlayerLocation)>) -> (positions: HashMap<
    u64,
    PlayerLocationNetwork,
>)
    ensures
        positions@ == positions_of(players@),
{
    let mut positions: HashMap<u64, PlayerLocationNetwork> = HashMap::new();
    let mut i: usize = 0;
    while i < players.len()
        invariant
            i <= players.len(),
            positions@ == positions_of(players@.take(i as int)),
        decreases players.len() - i,
    {
        proof {
            assert(players@.take(i as int + 1).drop_last() == players@.take(i as int));
        }
        positions.insert(players[i].0.0, players[i].1.as_remote());
        i += 1;
    }
    proof {
        assert(players@.take(i as int) == players@);
    }
    positions
}

/// A player after the places by id were received: it takes over the place
/// and facing sent under its id, and stays as it is where none was sent.
pub open spec fn synced_with(
    player: (OtherPlayer, PlayerLocation),
    positions: Map<u64, PlayerLocationNetwork>,
) -> (OtherPlayer, PlayerLocation) {
    if positions.dom().contains(player.0.0) {
        (
            player.0,
            PlayerLocation {
                location: positions[player.0.0].location,
                forward: positions[player.0.0].forward,
            },
        )
    } else {
        player
    }
}

/// What a client does with the places that the server sent: every player
/// that another machine steers takes over the place and facing sent under
/// its id.
pub fn sync_other_player_positions(
    players: &mut Vec<(OtherPlayer, PlayerLocation)>,
    positions: &HashMap<u64, PlayerLocationNetwork>,
)
    ensures
        final(players)@.len() == old(players)@.len(),
        forall|i: int|
            0 <= i < old(players)@.len() ==> #[trigger] final(players)@[i] == synced_with(
                old(players)@[i],
                positions@,
            ),
{
    let mut i: usize = 0;
    while i < players.len()
        invariant
            i <= players.len(),
            players@.len() == old(players)@.len(),
            forall|j: int| i <= j < players@.len() ==> #[trigger] players@[j] == old(players)@[j],
            forall|j: int|
                0 <= j < i ==> #[trigger] players@[j] == synced_with(old(players)@[j], positions@),
        decreases players.len() - i,
    {
        let id = players[i].0.0;
        match positions.get(&id) {
            Some(remote) => {
                let mut player = players[i];
                player.1.sync(remote);
                players.set(i, player);
            },
            None => {},
        }
        i += 1;
    }
}

/// The place in the list of the first player with the id `id`.
pub open spec fn first_with_id(players: Seq<(OtherPlayer, PlayerLocation)>, id: u64) -> Option<int> {
    first_index(players, |p: (OtherPlayer, PlayerLocation)| p.0.0 == id)
}

/// The players once the first with the id `id` has left; all of them where
/// none has it.
pub open spec fn without_player(players: Seq<(OtherPlayer, PlayerLocation)>, id: u64) -> Seq<
    (OtherPlayer, PlayerLocation),
> {
    match first_with_id(players, id) {
        Some(k) => players.remove(k),
        None => players,
    }
}

/// Takes the first player with the id `id` from the list. Returns whether
/// there was one.
pub fn remove_player(players: &mut Vec<(OtherPlayer, PlayerLocation)>, id: u64) -> (found: bool)
    ensures
        found == first_with_id(old(players)@, id) is Some,
        final(players)@ == without_player(old(players)@, id),
{
    let ghost has_id = |p: (OtherPlayer, PlayerLocation)| p.0.0 == id;
    let mut i: usize = 0;
    while i < players.len()
        invariant
            i <= players.len(),
            players@ == old(players)@,
            has_id == (|p: (OtherPlayer, PlayerLocation)| p.0.0 == id),
            forall|j: int| 0 <= j < i ==> !has_id(#[trigger] players@[j]),
        decreases players.len() - i,
    {
        if players[i].0.0 == id {
            proof {
                lemma_first_index_is(players@, has_id, i as int);
            }
            players.remove(i);
            return true;
        }
        i += 1;
    }
    proof {
        lemma_first_index_none(players@, has_id);
    }
    false
}

/// The players after a message of the server: one more, at the start, when
/// a player has connected; the first with that id gone when one has
/// disconnected.
pub open spec fn after_message(players: Seq<(OtherPlayer, PlayerLocation)>, message: ServerMessages) -> Seq<
    (OtherPlayer, PlayerLocation),
> {
    match message {
        ServerMessages::PlayerConnected(id) => players.push(
            (
                OtherPlayer(id),
                PlayerLocation { location: Coord { x: 0, y: 0 }, forward: Coord { x: 0, y: 1 } },
            ),
        ),
        ServerMessages::PlayerDisconnected(id) => without_player(players, id),
    }
}

/// What a client does with a message of the server about who comes and
/// goes.
pub fn client_listen_event(players: &mut Vec<(OtherPlayer, PlayerLocation)>, message: ServerMessages)
    ensures
        final(players)@ == after_message(old(players)@, message),
{
    match message {
        ServerMessages::PlayerConnected(id) => {
            players.push((OtherPlayer(id), PlayerLocation::new()));
        },
        ServerMessages::PlayerDisconnected(id) => {
            remove_player(players, id);
        },
    }
}

/// What the server does when a client comes or goes: it keeps its list of
/// players as a client would on the message, and returns the message to
/// pass on to the other clients.
pub fn server_listen_event(players: &mut Vec<(OtherPlayer, PlayerLocation)>, id: u64, connected: bool) -> (message:
    ServerMessages)
    ensures
        message == if connected {
            ServerMessages::PlayerConnected(id)
        } else {
            ServerMessages::PlayerDisconnected(id)
        },
        final(players)@ == after_message(old(players)@, message),
{
    let message = if connected {
        ServerMessages::PlayerConnected(id)
    } else {
        ServerMessages::PlayerDisconnected(id)
    };
    client_listen_event(players, message);
    message
}

/// What the server does with the places that a client sent of itself: the
/// last one received counts.
pub fn server_receive_position(location: &mut PlayerLocation, received: &Vec<PlayerLocationNetwork>)
    ensures
        received@.len() == 0 ==> *final(location) == *old(location),
        received@.len() > 0 ==> *final(location) == (PlayerLocation {
            location: received@.last().location,
            forward: received@.last().forward,
        }),
{
    let mut i: usize = 0;
    while i < received.len()
        invariant
            i <= received.len(),
            i == 0 ==> *location == *old(location),
            i > 0 ==> *location == (PlayerLocation {
                location: received@[i - 1].location,
                forward: received@[i - 1].forward,
            }),
        decreases received.len() - i,
    {
        location.sync(&received[i]);
        i += 1;
    }
}

/// What a client makes of the world it is sent when it joins: the world of
/// the cells listed, and a player at the start for every id listed.
pub fn sync_world_catacomb_from_server(cells: &Vec<Coord>, ids: &Vec<u64>) -> (joined: (
    WorldCatacomb,
    Vec<(OtherPlayer, PlayerLocation)>,
))
    ensures
        joined.0@ == cells@.to_set(),
        joined.1@.len() == ids@.len(),
        forall|i: int|
            0 <= i < ids@.len() ==> #[trigger] joined.1@[i] == (
                OtherPlayer(ids@[i]),
                PlayerLocation { location: Coord { x: 0, y: 0 }, forward: Coord { x: 0, y: 1 } },
            ),
{
    let mut players: Vec<(OtherPlayer, PlayerLocation)> = Vec::new();
    let mut i: usize = 0;
    while i < ids.len()
        invariant
            i <= ids.len(),
            players@.len() == i,
            forall|j: int|
                0 <= j < i ==> #[trigger] players@[j] == (
                    OtherPlayer(ids@[j]),
                    PlayerLocation { location: Coord { x: 0, y: 0 }, forward: Coord { x: 0, y: 1 } },
                ),
        decreases ids.len() - i,
    {
        players.push((OtherPlayer(ids[i]), PlayerLocation::new()));
        i += 1;
    }
    (WorldCatacomb::from_cells(cells), players)
}

} // verus!
