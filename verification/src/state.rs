//! The phases of a session.

use vstd::prelude::*;

verus! {

/// Where the session stands. A session starts in `Loading`.
#[derive(Clone, Copy, Debug, Hash, PartialEq, Eq, Structural)]
pub enum GameState {
    Loading,
    Game,
    Generating,
    Menu,
}

impl Default for GameState {
    fn default() -> (s: GameState)
        ensures
            s == GameState::Loading,
    {
        GameState::Loading
    }
}

/// Whether the session plays alone or against a server. A session starts
/// `Offline`.
#[derive(Clone, Copy, Debug, Hash, PartialEq, Eq, Structural)]
pub enum NetworkState {
    Offline,
    Online,
}

impl Default for NetworkState {
    fn default() -> (s: NetworkState)
        ensures
            s == NetworkState::Offline,
    {
        NetworkState::Offline
    }
}

/// The phase that follows `state` while assets load: once every asset is
/// there, the world is generated. Until then the phase stays as it is.
pub fn check_assets_ready(all_loaded: bool, state: GameState) -> (next: GameState)
    ensures
        next == if all_loaded {
            GameState::Generating
        } else {
            state
        },
{
    if all_loaded {
        GameState::Generating
    } else {
        state
    }
}

} // verus!
