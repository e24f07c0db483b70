//! Items that lie in the catacomb.

use vstd::prelude::*;
use crate::coord::Coord;
use crate::location::WorldLocation;
use crate::world::WorldCatacomb;
use super::db::ItemDB;

verus! {

/// How many items are laid out in a catacomb.
pub const ITEM_COUNT: usize = 11;

/// An item that lies on a cell: which item it is, by its place among the
/// items that exist, and where it lies.
#[derive(Clone, Copy, Debug, PartialEq, Eq, Structural)]
pub struct WorldItem {
    pub item: usize,
    pub location: WorldLocation,
}

/// Lays an item drawn at random on `location`, where that is an occupied
/// cell; lays nothing where it is not. The item faces nowhere and can be
/// moved.
pub fn spawn_item(location: Coord, world: &WorldCatacomb, item_db: &ItemDB) -> (laid: Option<WorldItem>)
    requires
        item_db.0@.len() > 0,
    ensures
        laid is Some <==> world@.contains(location),
        laid matches Some(item) ==> item.item < item_db.0@.len() && item.location == (WorldLocation {
            location,
            forward: Coord { x: 0, y: 0 },
            can_move: true,
        }),
{
    if !world.contains(&location) {
        return None;
    }
    let (id, _) = item_db.pick_random_item();
    Some(WorldItem { item: id, location: WorldLocation::new(location, Coord::new(0, 0)) })
}

/// Lays out `ITEM_COUNT` items drawn at random, each on an occupied cell
/// drawn at random. Several may share a cell.
pub fn place_items(item_db: &ItemDB, world: &WorldCatacomb) -> (items: Vec<WorldItem>)
    requires
        item_db.0@.len() > 0,
        world@.len() > 0,
    ensures
        items@.len() == ITEM_COUNT,
        forall|i: int|
            0 <= i < items@.len() ==> (#[trigger] items@[i]).item < item_db.0@.len() && world@.contains(
                items@[i].location.location,
            ) && items@[i].location.forward == (Coord { x: 0, y: 0 }) && items@[i].location.can_move,
{
    let mut items: Vec<WorldItem> = Vec::new();
    let mut i: usize = 0;
    while i < ITEM_COUNT
        invariant
            i <= ITEM_COUNT,
            item_db.0@.len() > 0,
            world@.len() > 0,
            items@.len() == i,
            forall|j: int|
                0 <= j < i ==> (#[trigger] items@[j]).item < item_db.0@.len() && world@.contains(
                    items@[j].location.location,
                ) && items@[j].location.forward == (Coord { x: 0, y: 0 }) && items@[j].location.can_move,
        decreases ITEM_COUNT - i,
    {
        let laid = spawn_item(world.pick_location(), world, item_db);
        items.push(laid.unwrap());
        i += 1;
    }
    items
}

} // verus!
