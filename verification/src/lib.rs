//! The rules of a grid-based catacomb crawler: carving the catacomb with
//! random walkers, moving and turning actors on the carved cells, steering
//! enemies along shortest routes, and arbitrating turn-based melee.
//!
//! Every function here is verified against its contract. The few calls into
//! other crates are kept in small wrappers whose contracts are taken on
//! trust and say so in their documentation: the hash set that holds the
//! cells (`world`), the random source (`chance`) and the route search
//! (`path`).
//!
//! The heart of the library:
//!
//! - `coord` and `world`: cells, the set of carved cells, and what it means
//!   that one cell can be reached from another;
//! - `walker`: the generator, with the proof that it ends and that it cuts
//!   no cell off from where it set out;
//! - `location`: where an actor stands and faces, and how it turns and
//!   moves;
//! - `path` and `enemy`: shortest routes and the pursuit of the player;
//! - `combat` and `arbitration`: the steps of turn-based melee, one pass of
//!   them in their fixed order, and what holds of every pass.
//!
//! Around it: `player`, `animation`, `inventory`, `room`, `network` and
//! `remote`, `state`, `utils`, and `search`, which the others use to look
//! through lists.

pub mod animation;
pub mod arbitration;
pub mod chance;
pub mod combat;
pub mod coord;
pub mod enemy;
pub mod inventory;
pub mod location;
pub mod network;
pub mod path;
pub mod player;
pub mod remote;
pub mod room;
pub mod search;
pub mod state;
pub mod utils;
pub mod walker;
pub mod world;
