use std::collections::HashMap;

use catacombat::coord::Coord;
use catacombat::location::Turn;
use catacombat::network::{
    connection_config, world_info, ChannelSettings, ClientChannel, Delivery, ServerChannel,
    ServerMessages, AVAILABLE_BYTES_PER_TICK, DEFAULT_PORT, PROTOCOL_ID,
};
use catacombat::remote::{
    client_listen_event, remove_player, server_listen_event, server_receive_position,
    server_sync_positions, sync_other_player_positions, sync_world_catacomb_from_server, OtherPlayer,
    PlayerLocation, PlayerLocationNetwork,
};
use catacombat::world::WorldCatacomb;

fn at(id: u64, x: i32, y: i32) -> (OtherPlayer, PlayerLocation) {
    (OtherPlayer(id), PlayerLocation { location: Coord::new(x, y), forward: Coord::new(0, 1) })
}

#[test]
fn channel_ids() {
    assert_eq!(u8::from(ClientChannel::Command), 0);
    assert_eq!(u8::from(ClientChannel::Input), 1);
    assert_eq!(u8::from(ServerChannel::ServerMessages), 0);
    assert_eq!(u8::from(ServerChannel::NetworkedEntities), 1);
    assert_eq!(u8::from(ServerChannel::GenerationMessage), 2);
    assert_eq!(DEFAULT_PORT, 5000);
    assert_eq!(PROTOCOL_ID, 1337);
}

#[test]
fn client_channels() {
    let reliable = Delivery::ReliableOrdered { resend_millis: 0 };
    assert_eq!(
        ClientChannel::channels_config(),
        vec![
            ChannelSettings { channel_id: 1, max_memory_usage_bytes: 5 * 1024 * 1024, send_type: reliable },
            ChannelSettings { channel_id: 0, max_memory_usage_bytes: 5 * 1024 * 1024, send_type: reliable },
        ]
    );
}

#[test]
fn server_channels() {
    let reliable = Delivery::ReliableOrdered { resend_millis: 200 };
    assert_eq!(
        ServerChannel::channels_config(),
        vec![
            ChannelSettings {
                channel_id: 1,
                max_memory_usage_bytes: 10 * 1024 * 1024,
                send_type: Delivery::Unreliable,
            },
            ChannelSettings { channel_id: 0, max_memory_usage_bytes: 10 * 1024 * 1024, send_type: reliable },
            ChannelSettings { channel_id: 2, max_memory_usage_bytes: 10 * 1024 * 1024, send_type: reliable },
        ]
    );
}

#[test]
fn connection_settings() {
    let settings = connection_config();
    assert_eq!(settings.available_bytes_per_tick, 1024 * 1024);
    assert_eq!(AVAILABLE_BYTES_PER_TICK, 1_048_576);
    assert_eq!(settings.client_channels_config, ClientChannel::channels_config());
    assert_eq!(settings.server_channels_config, ServerChannel::channels_config());
}

#[test]
fn world_info_lists_every_cell_once_and_the_players() {
    let world = WorldCatacomb::from_cells(&vec![Coord::new(0, 0), Coord::new(0, 1), Coord::new(0, 0)]);
    let (mut cells, ids) = world_info(&world, &vec![7, 9]);
    cells.sort_by_key(|c| (c.x, c.y));
    assert_eq!(cells, vec![Coord::new(0, 0), Coord::new(0, 1)]);
    assert_eq!(ids, vec![7, 9]);
}

#[test]
fn a_joining_client_builds_the_world_it_is_sent() {
    let (world, players) =
        sync_world_catacomb_from_server(&vec![Coord::new(1, 1), Coord::new(2, 1)], &vec![4, 5]);
    assert!(world.contains(&Coord::new(1, 1)));
    assert!(world.contains(&Coord::new(2, 1)));
    assert_eq!(world.len(), 2);
    assert_eq!(players, vec![(OtherPlayer(4), PlayerLocation::new()), (OtherPlayer(5), PlayerLocation::new())]);
}

#[test]
fn player_location_starts_at_the_origin_facing_along_y() {
    let l = PlayerLocation::new();
    assert_eq!(l.get_location(), Coord::new(0, 0));
    assert_eq!(l.get_forward(), Coord::new(0, 1));
}

#[test]
fn player_location_turns_and_moves() {
    let world = WorldCatacomb::from_cells(&vec![Coord::new(0, 0), Coord::new(-1, 0)]);
    let mut l = PlayerLocation::new();
    l.move_forward(&world);
    assert_eq!(l.get_location(), Coord::new(0, 0));
    l.turn(Turn::Left);
    assert_eq!(l.get_forward(), Coord::new(-1, 0));
    l.move_forward(&world);
    assert_eq!(l.get_location(), Coord::new(-1, 0));
    l.turn(Turn::Right);
    l.turn(Turn::Right);
    assert_eq!(l.get_forward(), Coord::new(1, 0));
    for _ in 0..4 {
        l.turn(Turn::Right);
    }
    assert_eq!(l.get_forward(), Coord::new(1, 0));
}

#[test]
fn a_location_goes_over_the_wire_and_back() {
    let l = PlayerLocation { location: Coord::new(3, 4), forward: Coord::new(-1, 0) };
    let remote = l.as_remote();
    assert_eq!(remote, PlayerLocationNetwork { location: Coord::new(3, 4), forward: Coord::new(-1, 0) });
    let mut other = PlayerLocation::new();
    other.sync(&remote);
    assert_eq!(other, l);
}

#[test]
fn the_server_sends_every_place_by_id() {
    let positions = server_sync_positions(&vec![at(1, 1, 1), at(2, 2, 2), at(1, 5, 5)]);
    assert_eq!(positions.len(), 2);
    assert_eq!(positions[&1].location, Coord::new(5, 5));
    assert_eq!(positions[&2].location, Coord::new(2, 2));
    assert!(server_sync_positions(&Vec::new()).is_empty());
}

#[test]
fn a_client_takes_over_the_places_sent_under_each_id() {
    let mut players = vec![at(1, 0, 0), at(2, 0, 0), at(3, 0, 0)];
    let mut positions = HashMap::new();
    positions
        .insert(1, PlayerLocationNetwork { location: Coord::new(4, 4), forward: Coord::new(1, 0) });
    positions
        .insert(3, PlayerLocationNetwork { location: Coord::new(6, 6), forward: Coord::new(0, -1) });
    sync_other_player_positions(&mut players, &positions);
    assert_eq!(players[0].1, PlayerLocation { location: Coord::new(4, 4), forward: Coord::new(1, 0) });
    assert_eq!(players[1], at(2, 0, 0));
    assert_eq!(players[2].1, PlayerLocation { location: Coord::new(6, 6), forward: Coord::new(0, -1) });
}

#[test]
fn the_last_place_received_counts() {
    let mut l = PlayerLocation::new();
    server_receive_position(&mut l, &Vec::new());
    assert_eq!(l, PlayerLocation::new());
    server_receive_position(
        &mut l,
        &vec![
            PlayerLocationNetwork { location: Coord::new(1, 1), forward: Coord::new(1, 0) },
            PlayerLocationNetwork { location: Coord::new(2, 2), forward: Coord::new(0, 1) },
        ],
    );
    assert_eq!(l, PlayerLocation { location: Coord::new(2, 2), forward: Coord::new(0, 1) });
}

#[test]
fn players_come_and_go() {
    let mut players = vec![at(1, 1, 1)];
    client_listen_event(&mut players, ServerMessages::PlayerConnected(2));
    assert_eq!(players, vec![at(1, 1, 1), (OtherPlayer(2), PlayerLocation::new())]);
    client_listen_event(&mut players, ServerMessages::PlayerDisconnected(1));
    assert_eq!(players, vec![(OtherPlayer(2), PlayerLocation::new())]);
    client_listen_event(&mut players, ServerMessages::PlayerDisconnected(9));
    assert_eq!(players.len(), 1);
}

#[test]
fn only_the_first_player_with_an_id_leaves() {
    let mut players = vec![at(1, 1, 1), at(2, 2, 2), at(1, 3, 3)];
    assert!(remove_player(&mut players, 1));
    assert_eq!(players, vec![at(2, 2, 2), at(1, 3, 3)]);
    assert!(!remove_player(&mut players, 7));
    assert_eq!(players.len(), 2);
}

#[test]
fn the_server_keeps_its_list_and_passes_the_message_on() {
    let mut players = Vec::new();
    assert_eq!(server_listen_event(&mut players, 4, true), ServerMessages::PlayerConnected(4));
    assert_eq!(players, vec![(OtherPlayer(4), PlayerLocation::new())]);
    assert_eq!(server_listen_event(&mut players, 4, false), ServerMessages::PlayerDisconnected(4));
    assert!(players.is_empty());
}
