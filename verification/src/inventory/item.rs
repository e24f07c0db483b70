//! The kinds of item, how an item is described, and how a description
//! becomes an item.

use vstd::prelude::*;
use super::food::Food;
use super::weapon::{Ammo, Weapon, WeaponCategory};

verus! {

/// What a portion of food is worth until descriptions say it.
pub const FOOD_VALUE: u32 = 10;

/// The kind that a description gives an item.
#[derive(Clone, Copy, Debug, PartialEq, Eq, Structural)]
pub enum ItemType {
    Weapon,
    Common,
    AmmoSupply,
    Food,
    Armor,
}

/// What every item can do.
pub trait Item: Send + Sync {
    /// Uses the item. Returns whether it could be used.
    fn use_item(&mut self) -> bool;
}

/// The properties that a description gives a weapon.
#[derive(Clone, Copy, Debug, PartialEq, Eq, Structural)]
pub struct WeaponMeta {
    pub durability: i32,
    pub damage: i32,
    pub category: WeaponCategory,
}

/// The properties that a description gives a supply of ammunition.
#[derive(Clone, Copy, Debug, PartialEq, Eq, Structural)]
pub struct AmmoMeta {
    pub category: WeaponCategory,
}

/// The description of one item.
#[derive(Clone, Debug)]
pub struct ItemMeta {
    pub name: String,
    pub item_type: ItemType,
    pub sprite: String,
    pub weapon_properties: Option<WeaponMeta>,
    pub ammo_properties: Option<AmmoMeta>,
}

/// A list of descriptions.
#[derive(Clone, Debug)]
pub struct ItemMetas(pub Vec<ItemMeta>);

/// An item of any kind.
#[derive(Clone, Copy, Debug, PartialEq, Eq, Structural)]
pub enum ItemKind {
    Weapon(Weapon),
    Ammo(Ammo),
    Food(Food),
}

impl Item for ItemKind {
    /// Uses the item as its kind says: only a weapon can be used.
    fn use_item(&mut self) -> (used: bool)
        ensures
            used == (*old(self) is Weapon),
            *final(self) == *old(self),
    {
        match self {
            ItemKind::Weapon(weapon) => weapon.use_item(),
            ItemKind::Ammo(ammo) => ammo.use_item(),
            ItemKind::Food(food) => food.use_item(),
        }
    }
}

/// Whether `meta` holds what an item of kind `t` is made from. Weapons need
/// weapon properties and ammunition needs ammunition properties; common
/// items and armour cannot be made yet.
pub open spec fn describes(t: ItemType, meta: ItemMeta) -> bool {
    match t {
        ItemType::Weapon => meta.weapon_properties is Some,
        ItemType::AmmoSupply => meta.ammo_properties is Some,
        ItemType::Food => true,
        ItemType::Common => false,
        ItemType::Armor => false,
    }
}

/// The item of kind `t` that `meta` describes.
pub open spec fn item_of(t: ItemType, meta: ItemMeta) -> ItemKind
    recommends
        describes(t, meta),
{
    match t {
        ItemType::Weapon => ItemKind::Weapon(
            Weapon {
                durability: meta.weapon_properties->Some_0.durability,
                damage: meta.weapon_properties->Some_0.damage,
                category: meta.weapon_properties->Some_0.category,
            },
        ),
        ItemType::AmmoSupply => ItemKind::Ammo(Ammo { category: meta.ammo_properties->Some_0.category }),
        _ => ItemKind::Food(Food(FOOD_VALUE)),
    }
}

/// Whether an item of kind `t` can be made from `meta`.
pub fn can_make_item(t: &ItemType, meta: &ItemMeta) -> (b: bool)
    ensures
        b == describes(*t, *meta),
{
    match t {
        ItemType::Weapon => meta.weapon_properties.is_some(),
        ItemType::AmmoSupply => meta.ammo_properties.is_some(),
        ItemType::Food => true,
        ItemType::Common => false,
        ItemType::Armor => false,
    }
}

/// Makes the item of kind `t` that `meta` describes: a weapon or a supply of
/// ammunition with the properties given, or food worth `FOOD_VALUE`.
pub fn get_item_from_type(t: &ItemType, meta: &ItemMeta) -> (item: ItemKind)
    requires
        describes(*t, *meta),
    ensures
        item == item_of(*t, *meta),
{
    match t {
        ItemType::Weapon => {
            let properties = meta.weapon_properties.unwrap();
            ItemKind::Weapon(
                Weapon {
                    damage: properties.damage,
                    durability: properties.durability,
                    category: properties.category,
                },
            )
        },
        ItemType::AmmoSupply => ItemKind::Ammo(Ammo { category: meta.ammo_properties.unwrap().category }),
        _ => ItemKind::Food(Food(FOOD_VALUE)),
    }
}

} // verus!
