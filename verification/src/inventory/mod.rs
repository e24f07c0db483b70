//! Items: what can be found and carried in the catacomb.

pub mod db;
pub mod food;
pub mod item;
pub mod weapon;
pub mod world;
