//! Weapons and the ammunition they take.

use vstd::prelude::*;
use super::item::Item;

verus! {

/// The family a weapon belongs to, which also says what ammunition fits.
#[derive(Clone, Copy, Debug, PartialEq, Eq, Structural)]
pub enum WeaponCategory {
    Shotgun,
    Gun,
    Blunt,
    Sharp,
}

/// A weapon.
#[derive(Clone, Copy, Debug, PartialEq, Eq, Structural)]
pub struct Weapon {
    pub durability: i32,
    pub damage: i32,
    pub category: WeaponCategory,
}

impl Item for Weapon {
    /// A weapon can be used, and using it leaves it as it is.
    fn use_item(&mut self) -> (used: bool)
        ensures
            used,
            *final(self) == *old(self),
    {
        true
    }
}

/// A supply of ammunition for one family of weapons.
#[derive(Clone, Copy, Debug, PartialEq, Eq, Structural)]
pub struct Ammo {
    pub category: WeaponCategory,
}

impl Item for Ammo {
    /// Ammunition cannot be used by itself.
    fn use_item(&mut self) -> (used: bool)
        ensures
            !used,
            *final(self) == *old(self),
    {
        false
    }
}

} // verus!
