use catacombat::coord::Coord;
use catacombat::inventory::db::{can_load_items, load_items_db, Inventory, ItemDB, ItemInstance};
use catacombat::inventory::food::Food;
use catacombat::inventory::item::{
    can_make_item, get_item_from_type, AmmoMeta, Item, ItemKind, ItemMeta, ItemMetas, ItemType,
    WeaponMeta, FOOD_VALUE,
};
use catacombat::inventory::weapon::{Ammo, Weapon, WeaponCategory};
use catacombat::inventory::world::{place_items, spawn_item, ITEM_COUNT};
use catacombat::world::WorldCatacomb;

fn meta(name: &str, item_type: ItemType) -> ItemMeta {
    ItemMeta {
        name: name.to_string(),
        item_type,
        sprite: format!("sprites/{name}.png"),
        weapon_properties: None,
        ammo_properties: None,
    }
}

fn shotgun() -> ItemMeta {
    let mut m = meta("shotgun", ItemType::Weapon);
    m.weapon_properties =
        Some(WeaponMeta { durability: 40, damage: 25, category: WeaponCategory::Shotgun });
    m
}

fn shells() -> ItemMeta {
    let mut m = meta("shells", ItemType::AmmoSupply);
    m.ammo_properties = Some(AmmoMeta { category: WeaponCategory::Shotgun });
    m
}

#[test]
fn a_weapon_takes_its_properties_from_its_description() {
    let item = get_item_from_type(&ItemType::Weapon, &shotgun());
    assert_eq!(
        item,
        ItemKind::Weapon(Weapon { durability: 40, damage: 25, category: WeaponCategory::Shotgun })
    );
}

#[test]
fn ammunition_takes_its_category_from_its_description() {
    let item = get_item_from_type(&ItemType::AmmoSupply, &shells());
    assert_eq!(item, ItemKind::Ammo(Ammo { category: WeaponCategory::Shotgun }));
}

#[test]
fn food_is_worth_ten() {
    let item = get_item_from_type(&ItemType::Food, &meta("bread", ItemType::Food));
    assert_eq!(item, ItemKind::Food(Food(10)));
    assert_eq!(FOOD_VALUE, 10);
}

#[test]
fn what_can_be_made_from_a_description() {
    assert!(can_make_item(&ItemType::Weapon, &shotgun()));
    assert!(!can_make_item(&ItemType::Weapon, &shells()));
    assert!(can_make_item(&ItemType::AmmoSupply, &shells()));
    assert!(!can_make_item(&ItemType::AmmoSupply, &shotgun()));
    assert!(can_make_item(&ItemType::Food, &shotgun()));
    assert!(!can_make_item(&ItemType::Common, &shotgun()));
    assert!(!can_make_item(&ItemType::Armor, &shotgun()));
}

#[test]
fn only_weapons_can_be_used() {
    let mut weapon = Weapon { durability: 1, damage: 2, category: WeaponCategory::Blunt };
    assert!(weapon.use_item());
    assert_eq!(weapon, Weapon { durability: 1, damage: 2, category: WeaponCategory::Blunt });
    assert!(!Ammo { category: WeaponCategory::Gun }.use_item());
    assert!(!Food(3).use_item());
    assert!(ItemKind::Weapon(weapon).use_item());
    assert!(!ItemKind::Ammo(Ammo { category: WeaponCategory::Sharp }).use_item());
    assert!(!ItemKind::Food(Food(3)).use_item());
}

#[test]
fn descriptions_load_into_the_database_in_order() {
    let metas = ItemMetas(vec![shotgun(), meta("bread", ItemType::Food), shells()]);
    assert!(can_load_items(&metas));
    let mut db = ItemDB::default();
    load_items_db(&metas, &mut db);
    assert_eq!(db.0.len(), 3);
    assert_eq!(db.0[0].ui_name, "shotgun");
    assert_eq!(db.0[0].sprite, "sprites/shotgun.png");
    assert_eq!(db.0[0].ui_description, "unused for now");
    assert_eq!(
        db.0[0].item,
        ItemKind::Weapon(Weapon { durability: 40, damage: 25, category: WeaponCategory::Shotgun })
    );
    assert_eq!(db.0[1].item, ItemKind::Food(Food(10)));
    assert_eq!(db.0[2].item, ItemKind::Ammo(Ammo { category: WeaponCategory::Shotgun }));
    load_items_db(&ItemMetas(vec![meta("apple", ItemType::Food)]), &mut db);
    assert_eq!(db.0.len(), 4);
    assert_eq!(db.0[0].ui_name, "shotgun");
    assert_eq!(db.0[3].ui_name, "apple");
}

#[test]
fn descriptions_that_cannot_be_made_are_found_out() {
    assert!(!can_load_items(&ItemMetas(vec![shotgun(), meta("vest", ItemType::Armor)])));
    assert!(!can_load_items(&ItemMetas(vec![meta("club", ItemType::Weapon)])));
    assert!(can_load_items(&ItemMetas(Vec::new())));
}

fn small_db() -> ItemDB {
    let mut db = ItemDB::default();
    load_items_db(&ItemMetas(vec![shotgun(), meta("bread", ItemType::Food), shells()]), &mut db);
    db
}

#[test]
fn a_roll_goes_round_the_list() {
    let db = small_db();
    assert_eq!(db.item_at_roll(0).0, 0);
    assert_eq!(db.item_at_roll(4).0, 1);
    assert_eq!(db.item_at_roll(4).1.ui_name, "bread");
    assert_eq!(db.item_at_roll(usize::MAX).0, usize::MAX % 3);
}

#[test]
fn a_random_item_is_one_of_the_list() {
    let db = small_db();
    let mut seen = [false; 3];
    for _ in 0..200 {
        let (index, item): (usize, &ItemInstance) = db.pick_random_item();
        assert!(index < 3);
        assert_eq!(item.ui_name, db.0[index].ui_name);
        seen[index] = true;
    }
    assert_eq!(seen, [true, true, true]);
}

#[test]
fn carried_items_are_looked_up_in_order() {
    let db = small_db();
    let inventory = Inventory(vec![2, 0, 2]);
    assert!(inventory.is_within(&db));
    let items = inventory.load_items(&db);
    let names: Vec<&str> = items.iter().map(|i| i.ui_name.as_str()).collect();
    assert_eq!(names, vec!["shells", "shotgun", "shells"]);
    assert!(!Inventory(vec![0, 3]).is_within(&db));
    assert!(Inventory::default().load_items(&db).is_empty());
}

#[test]
fn an_item_is_laid_only_on_an_occupied_cell() {
    let db = small_db();
    let world = WorldCatacomb::from_cells(&vec![Coord::new(1, 1)]);
    assert_eq!(spawn_item(Coord::new(0, 0), &world, &db), None);
    let laid = spawn_item(Coord::new(1, 1), &world, &db).unwrap();
    assert!(laid.item < 3);
    assert_eq!(laid.location.get_location(), Coord::new(1, 1));
    assert_eq!(laid.location.get_forward(), Coord::new(0, 0));
    assert!(laid.location.can_move);
}

#[test]
fn eleven_items_are_laid_out() {
    let db = small_db();
    let world = WorldCatacomb::from_cells(&vec![Coord::new(1, 1), Coord::new(2, 1), Coord::new(3, 1)]);
    let items = place_items(&db, &world);
    assert_eq!(items.len(), ITEM_COUNT);
    assert_eq!(items.len(), 11);
    for item in &items {
        assert!(item.item < 3);
        assert!(world.contains(&item.location.get_location()));
    }
}
