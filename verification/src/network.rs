//! What a server and its clients agree on: the channels they talk over, and
//! the plain values they exchange. How bytes travel is not decided here.

use vstd::prelude::*;
use vstd::std_specs::convert::FromSpecImpl;
use crate::coord::Coord;
use crate::world::WorldCatacomb;

verus! {

/// The port a server listens on unless told otherwise.
pub const DEFAULT_PORT: u16 = 5000;

/// The number that tells this protocol from others.
pub const PROTOCOL_ID: u64 = 1337;

/// The bytes that go out per tick at most.
pub const AVAILABLE_BYTES_PER_TICK: u64 = 1024 * 1024;

/// The bytes that a channel of the client may hold unacknowledged.
pub const CLIENT_CHANNEL_MEMORY: usize = 5 * 1024 * 1024;

/// The bytes that a channel of the server may hold unacknowledged.
pub const SERVER_CHANNEL_MEMORY: usize = 10 * 1024 * 1024;

/// The channels from a client to the server.
#[derive(Clone, Copy, Debug, PartialEq, Eq, Structural)]
pub enum ClientChannel {
    Input,
    Command,
}

/// What the server tells all clients about who comes and goes.
#[derive(Clone, Copy, Debug, PartialEq, Eq, Structural)]
pub enum ServerMessages {
    PlayerConnected(u64),
    PlayerDisconnected(u64),
}

/// The channels from the server to a client.
#[derive(Clone, Copy, Debug, PartialEq, Eq, Structural)]
pub enum ServerChannel {
    ServerMessages,
    NetworkedEntities,
    GenerationMessage,
}

/// How a channel delivers: with no promise, or every message and in order,
/// sent again after the given time in milliseconds.
#[derive(Clone, Copy, Debug, PartialEq, Eq, Structural)]
pub enum Delivery {
    Unreliable,
    ReliableOrdered { resend_millis: u64 },
}

/// The settings of one channel.
#[derive(Clone, Copy, Debug, PartialEq, Eq, Structural)]
pub struct ChannelSettings {
    pub channel_id: u8,
    pub max_memory_usage_bytes: usize,
    pub send_type: Delivery,
}

/// The settings of a connection: its budget and its channels in both
/// directions.
#[derive(Clone, Debug)]
pub struct ConnectionSettings {
    pub available_bytes_per_tick: u64,
    pub client_channels_config: Vec<ChannelSettings>,
    pub server_channels_config: Vec<ChannelSettings>,
}

/// The settings of the client's channels: input, then commands, both
/// reliable and in order, sent again at once.
pub open spec fn client_channels() -> Seq<ChannelSettings> {
    seq![
        ChannelSettings {
            channel_id: ClientChannel::Input.id(),
            max_memory_usage_bytes: CLIENT_CHANNEL_MEMORY,
            send_type: Delivery::ReliableOrdered { resend_millis: 0 },
        },
        ChannelSettings {
            channel_id: ClientChannel::Command.id(),
            max_memory_usage_bytes: CLIENT_CHANNEL_MEMORY,
            send_type: Delivery::ReliableOrdered { resend_millis: 0 },
        },
    ]
}

/// The settings of the server's channels: the actors, with no promise; then
/// the messages and the generated world, both reliable and in order, sent
/// again after 200 milliseconds.
pub open spec fn server_channels() -> Seq<ChannelSettings> {
    seq![
        ChannelSettings {
            channel_id: ServerChannel::NetworkedEntities.id(),
            max_memory_usage_bytes: SERVER_CHANNEL_MEMORY,
            send_type: Delivery::Unreliable,
        },
        ChannelSettings {
            channel_id: ServerChannel::ServerMessages.id(),
            max_memory_usage_bytes: SERVER_CHANNEL_MEMORY,
            send_type: Delivery::ReliableOrdered { resend_millis: 200 },
        },
        ChannelSettings {
            channel_id: ServerChannel::GenerationMessage.id(),
            max_memory_usage_bytes: SERVER_CHANNEL_MEMORY,
            send_type: Delivery::ReliableOrdered { resend_millis: 200 },
        },
    ]
}

impl ClientChannel {
    /// The number of the channel on the wire.
    pub open spec fn id(self) -> u8 {
        match self {
            ClientChannel::Command => 0,
            ClientChannel::Input => 1,
        }
    }

    /// The settings of the client's channels.
    pub fn channels_config() -> (channels: Vec<ChannelSettings>)
        ensures
            channels@ == client_channels(),
    {
        let mut channels: Vec<ChannelSettings> = Vec::new();
        channels.push(
            ChannelSettings {
                channel_id: u8::from(ClientChannel::Input),
                max_memory_usage_bytes: CLIENT_CHANNEL_MEMORY,
                send_type: Delivery::ReliableOrdered { resend_millis: 0 },
            },
        );
        channels.push(
            ChannelSettings {
                channel_id: u8::from(ClientChannel::Command),
                max_memory_usage_bytes: CLIENT_CHANNEL_MEMORY,
                send_type: Delivery::ReliableOrdered { resend_millis: 0 },
            },
        );
        proof {
            assert(channels@ =~= client_channels());
        }
        channels
    }
}

impl From<ClientChannel> for u8 {
    fn from(channel_id: ClientChannel) -> (id: u8) {
        match channel_id {
            ClientChannel::Command => 0,
            ClientChannel::Input => 1,
        }
    }
}

impl FromSpecImpl<ClientChannel> for u8 {
    open spec fn obeys_from_spec() -> bool {
        true
    }

    open spec fn from_spec(channel_id: ClientChannel) -> u8 {
        channel_id.id()
    }
}

impl ServerChannel {
    /// The number of the channel on the wire: its place among the channels.
    pub open spec fn id(self) -> u8 {
        match self {
            ServerChannel::ServerMessages => 0,
            ServerChannel::NetworkedEntities => 1,
            ServerChannel::GenerationMessage => 2,
        }
    }

    /// The settings of the server's channels.
    pub fn channels_config() -> (channels: Vec<ChannelSettings>)
        ensures
            channels@ == server_channels(),
    {
        let mut channels: Vec<ChannelSettings> = Vec::new();
        channels.push(
            ChannelSettings {
                channel_id: u8::from(ServerChannel::NetworkedEntities),
                max_memory_usage_bytes: SERVER_CHANNEL_MEMORY,
                send_type: Delivery::Unreliable,
            },
        );
        channels.push(
            ChannelSettings {
                channel_id: u8::from(ServerChannel::ServerMessages),
                max_memory_usage_bytes: SERVER_CHANNEL_MEMORY,
                send_type: Delivery::ReliableOrdered { resend_millis: 200 },
            },
        );
        channels.push(
            ChannelSettings {
                channel_id: u8::from(ServerChannel::GenerationMessage),
                max_memory_usage_bytes: SERVER_CHANNEL_MEMORY,
                send_type: Delivery::ReliableOrdered { resend_millis: 200 },
            },
        );
        proof {
            assert(channels@ =~= server_channels());
        }
        channels
    }
}

impl From<ServerChannel> for u8 {
    fn from(channel_id: ServerChannel) -> (id: u8) {
        match channel_id {
            ServerChannel::ServerMessages => 0,
            ServerChannel::NetworkedEntities => 1,
            ServerChannel::GenerationMessage => 2,
        }
    }
}

impl FromSpecImpl<ServerChannel> for u8 {
    open spec fn obeys_from_spec() -> bool {
        true
    }

    open spec fn from_spec(channel_id: ServerChannel) -> u8 {
        channel_id.id()
    }
}

/// The settings of a connection between a client and the server.
pub fn connection_config() -> (settings: ConnectionSettings)
    ensures
        settings.available_bytes_per_tick == AVAILABLE_BYTES_PER_TICK,
        settings.client_channels_config@ == client_channels(),
        settings.server_channels_config@ == server_channels(),
{
    ConnectionSettings {
        available_bytes_per_tick: AVAILABLE_BYTES_PER_TICK,
        client_channels_config: ClientChannel::channels_config(),
        server_channels_config: ServerChannel::channels_config(),
    }
}

/// What a client that joins is sent: the cells of the world, each once, and
/// the ids of the players that are there.
pub fn world_info(world: &WorldCatacomb, players: &Vec<u64>) -> (info: (Vec<Coord>, Vec<u64>))
    ensures
        info.0@.no_duplicates(),
        info.0@.to_set() == world@,
        info.1@ == players@,
{
    let mut ids: Vec<u64> = Vec::new();
    let mut i: usize = 0;
    while i < players.len()
        invariant
            i <= players.len(),
            ids@ == players@.take(i as int),
        decreases players.len() - i,
    {
        ids.push(players[i]);
        proof {
            assert(players@.take(i as int + 1) =~= players@.take(i as int).push(players@[i as int]));
        }
        i += 1;
    }
    proof {
        assert(players@.take(players@.len() as int) == players@);
    }
    (world.cells(), ids)
}

} // verus!
