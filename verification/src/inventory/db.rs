//! The items that exist, and the items that are carried.

use vstd::prelude::*;
use crate::chance::random_usize;
use super::item::{can_make_item, describes, get_item_from_type, item_of, ItemKind, ItemMetas};

verus! {

/// The description that items carry until descriptions bring their own.
pub open spec fn stock_description() -> Seq<char> {
    "unused for now"@
}

/// One item that exists: how it is named and shown, and what it is.
#[derive(Clone, Debug)]
pub struct ItemInstance {
    pub ui_name: String,
    pub ui_description: String,
    pub item: ItemKind,
    pub sprite: String,
}

/// All the items that exist. An item is known by its place in the list.
#[derive(Clone, Debug)]
pub struct ItemDB(pub Vec<ItemInstance>);

impl Default for ItemDB {
    /// No items.
    fn default() -> (db: ItemDB)
        ensures
            db.0@.len() == 0,
    {
        ItemDB(Vec::new())
    }
}

impl ItemDB {
    /// The item at `index`, where `roll` is any number: the place that
    /// `roll` falls on when the list is gone round.
    pub fn item_at_roll(&self, roll: usize) -> (r: (usize, &ItemInstance))
        requires
            self.0@.len() > 0,
        ensures
            r.0 == (roll as int) % (self.0@.len() as int),
            *r.1 == self.0@[r.0 as int],
    {
        let index = roll % self.0.len();
        (index, &self.0[index])
    }

    /// An item drawn at random, with its place in the list. The list must
    /// hold an item.
    pub fn pick_random_item(&self) -> (r: (usize, &ItemInstance))
        requires
            self.0@.len() > 0,
        ensures
            r.0 < self.0@.len(),
            *r.1 == self.0@[r.0 as int],
    {
        self.item_at_roll(random_usize())
    }
}

/// Whether every description in the list can be made into an item.
pub open spec fn all_described(metas: ItemMetas) -> bool {
    forall|i: int| 0 <= i < metas.0@.len() ==> describes((#[trigger] metas.0@[i]).item_type, metas.0@[i])
}

/// Whether every description in the list can be made into an item.
pub fn can_load_items(metas: &ItemMetas) -> (b: bool)
    ensures
        b == all_described(*metas),
{
    let mut i: usize = 0;
    while i < metas.0.len()
        invariant
            i <= metas.0.len(),
            forall|j: int| 0 <= j < i ==> describes((#[trigger] metas.0@[j]).item_type, metas.0@[j]),
        decreases metas.0.len() - i,
    {
        if !can_make_item(&metas.0[i].item_type, &metas.0[i]) {
            return false;
        }
        i += 1;
    }
    true
}

/// Adds the item of every description to the items that exist, in the order
/// of the descriptions: each takes its name and its sprite from its
/// description.
pub fn load_items_db(metas: &ItemMetas, db: &mut ItemDB)
    requires
        all_described(*metas),
    ensures
        final(db).0@.len() == old(db).0@.len() + metas.0@.len(),
        forall|i: int| 0 <= i < old(db).0@.len() ==> #[trigger] final(db).0@[i] == old(db).0@[i],
        forall|i: int|
            0 <= i < metas.0@.len() ==> {
                let made = #[trigger] final(db).0@[old(db).0@.len() + i];
                &&& made.ui_name@ == metas.0@[i].name@
                &&& made.sprite@ == metas.0@[i].sprite@
                &&& made.ui_description@ == stock_description()
                &&& made.item == item_of(metas.0@[i].item_type, metas.0@[i])
            },
{
    let ghost before = db.0@;
    let mut i: usize = 0;
    while i < metas.0.len()
        invariant
            i <= metas.0.len(),
            all_described(*metas),
            db.0@.len() == before.len() + i,
            forall|j: int| 0 <= j < before.len() ==> #[trigger] db.0@[j] == before[j],
            forall|j: int|
                0 <= j < i ==> {
                    let made = #[trigger] db.0@[before.len() + j];
                    &&& made.ui_name@ == metas.0@[j].name@
                    &&& made.sprite@ == metas.0@[j].sprite@
                    &&& made.ui_description@ == stock_description()
                    &&& made.item == item_of(metas.0@[j].item_type, metas.0@[j])
                },
        decreases metas.0.len() - i,
    {
        let meta = &metas.0[i];
        db.0.push(
            ItemInstance {
                sprite: meta.sprite.clone(),
                ui_name: meta.name.clone(),
                ui_description: "unused for now".to_owned(),
                item: get_item_from_type(&meta.item_type, meta),
            },
        );
        i += 1;
    }
}

/// The items that are carried, each by its place among the items that exist.
#[derive(Clone, Debug)]
pub struct Inventory(pub Vec<usize>);

impl Default for Inventory {
    /// Nothing carried.
    fn default() -> (inventory: Inventory)
        ensures
            inventory.0@.len() == 0,
    {
        Inventory(Vec::new())
    }
}

impl Inventory {
    /// Whether every item carried exists in `db`.
    pub open spec fn within(self, db: ItemDB) -> bool {
        forall|i: int| 0 <= i < self.0@.len() ==> (#[trigger] self.0@[i]) < db.0@.len()
    }

    /// Whether every item carried exists in `db`.
    pub fn is_within(&self, db: &ItemDB) -> (b: bool)
        ensures
            b == self.within(*db),
    {
        let mut i: usize = 0;
        while i < self.0.len()
            invariant
                i <= self.0.len(),
                forall|j: int| 0 <= j < i ==> (#[trigger] self.0@[j]) < db.0@.len(),
            decreases self.0.len() - i,
        {
            if self.0[i] >= db.0.len() {
                return false;
            }
            i += 1;
        }
        true
    }

    /// The items carried, looked up in `db`, in the order they are carried.
    pub fn load_items<'a>(&self, db: &'a ItemDB) -> (items: Vec<&'a ItemInstance>)
        requires
            self.within(*db),
        ensures
            items@.len() == self.0@.len(),
            forall|i: int| 0 <= i < items@.len() ==> *(#[trigger] items@[i]) == db.0@[self.0@[i] as int],
    {
        let mut items: Vec<&'a ItemInstance> = Vec::new();
        let mut i: usize = 0;
        while i < self.0.len()
            invariant
                i <= self.0.len(),
                self.within(*db),
                items@.len() == i,
                forall|j: int| 0 <= j < i ==> *(#[trigger] items@[j]) == db.0@[self.0@[j] as int],
            decreases self.0.len() - i,
        {
            items.push(&db.0[self.0[i]]);
            i += 1;
        }
        items
    }
}

} // verus!
