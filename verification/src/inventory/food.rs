//! Food.

use vstd::prelude::*;
use super::item::Item;

verus! {

/// A portion of food, with what it is worth.
#[derive(Clone, Copy, Debug, PartialEq, Eq, Structural)]
pub struct Food(pub u32);

impl Item for Food {
    /// Food cannot be used yet.
    fn use_item(&mut self) -> (used: bool)
        ensures
            !used,
            *final(self) == *old(self),
    {
        false
    }
}

} // verus!
