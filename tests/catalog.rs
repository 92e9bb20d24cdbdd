use remnant_checklist::catalog::{
    amulet_entries, catalog_items, category_entries, mod_entries, remnant_trait_entries,
    restore_entries, RawCatalog,
};
use remnant_checklist::data::{ItemType, World};
use remnant_checklist::entry::{Entry, Item, Record};

const AMULETS: &str = "Description,ID,Location & Crafting,Name,Url,Worlds
Hums softly,3,Earth,White Rose,https://example.com/white-rose,Earth
,1,,Abrasive Amulet,https://example.com/abrasive,\"Ward 17,Earth\"
Eats,2,,Amulet of Epicaricacy,https://example.com/epicaricacy,Any
Bad id,x9,,Broken Amulet,https://example.com/broken,Earth
";

const MODS: &str = "ID,Name,Url,Worlds
0x10,Wildfire Shot,https://example.com/wildfire,Rhom
5,Banish,https://example.com/banish,
6,Beckon,https://example.com/beckon,Yaesha
";

fn names(items: &[Record]) -> Vec<String> {
    items.iter().map(|r| r.name.clone()).collect()
}

#[test]
fn catalog_items_are_sorted_by_name() {
    let items = catalog_items(ItemType::Amulet, AMULETS.as_bytes());
    assert_eq!(
        vec!["Abrasive Amulet", "Amulet of Epicaricacy", "White Rose"],
        names(&items)
    );
    assert_eq!(vec![1, 2, 3], items.iter().map(|r| r.id).collect::<Vec<u32>>());
}

#[test]
fn catalog_rows_without_a_number_are_dropped() {
    let items = catalog_items(ItemType::Amulet, AMULETS.as_bytes());
    assert_eq!(3, items.len());
    assert!(items.iter().all(|r| r.name != "Broken Amulet"));
}

#[test]
fn catalog_reads_hex_ids_and_keeps_equal_names_in_order() {
    let table = "ID,Name,Url,Worlds\n0x10,Beta,u1,\n2,Alpha,u2,\n3,Beta,u3,\n";
    let items = catalog_items(ItemType::Amulet, table.as_bytes());
    assert_eq!(vec!["Alpha", "Beta", "Beta"], names(&items));
    assert_eq!(vec![2, 16, 3], items.iter().map(|r| r.id).collect::<Vec<u32>>());
}

#[test]
fn catalog_without_a_needed_column_gives_nothing() {
    let table = "ID,Name,Worlds\n1,Alpha,Earth\n";
    assert!(catalog_items(ItemType::Amulet, table.as_bytes()).is_empty());
    assert!(catalog_items(ItemType::Amulet, b"").is_empty());
}

#[test]
fn catalog_rows_of_the_wrong_length_are_dropped() {
    let table = "ID,Name,Url,Worlds\n1,Alpha,u1,Earth\n2,Beta,u2\n3,Gamma,u3,Rhom\n";
    assert_eq!(vec!["Alpha", "Gamma"], names(&catalog_items(ItemType::Amulet, table.as_bytes())));
}

#[test]
fn entries_take_the_marks_of_their_own_kind() {
    let marks = vec![
        Item { data_type: ItemType::Amulet, id: 2 },
        Item { data_type: ItemType::Ring, id: 1 },
    ];
    let entries = amulet_entries(AMULETS.as_bytes(), &marks);
    let done: Vec<bool> = entries.iter().map(|e| e.completed).collect();
    assert_eq!(vec![false, true, false], done);
    assert!(entries.iter().all(|e| e.data_type == ItemType::Amulet));
    assert_eq!(vec![World::Ward17, World::Earth, World::Any], entries[0].worlds);
    assert_eq!(11, entries[1].worlds.len());
    assert_eq!("https://example.com/abrasive", entries[0].url);
}

#[test]
fn entries_without_marks_are_open() {
    let entries = mod_entries(MODS.as_bytes(), &[]);
    assert_eq!(3, entries.len());
    assert!(entries.iter().all(|e| !e.completed));
    assert_eq!("Banish", entries[0].name);
    assert_eq!(vec![World::Any], entries[0].worlds);
    assert_eq!("mod-16", entries[2].id());
}

#[test]
fn category_entries_use_the_given_kind() {
    let table = "Description,ID,Name,Url,Worlds\nHits,5,Banish,u,\nCalls,6,Beckon,u,\n";
    let marks = vec![Item { data_type: ItemType::Trait, id: 6 }];
    let entries = category_entries(ItemType::Trait, table.as_bytes(), &marks);
    assert_eq!("trait-6", entries[1].id());
    assert!(entries[1].completed);
    let traits = remnant_trait_entries(table.as_bytes(), &marks);
    assert_eq!(entries.len(), traits.len());
}

fn raw_catalog() -> RawCatalog {
    RawCatalog {
        amulets: AMULETS.as_bytes().to_vec(),
        armor_sets: b"ID,Name,Set Bonus,Url,Worlds\n1,Akari Set,Shock,u,Yaesha\n".to_vec(),
        body_armor: Vec::new(),
        emotes: b"Description,ID,Location,Name,Url,Worlds\nCheers,1,Ward 13,Cheer Emote,u,\n".to_vec(),
        hand_guns: Vec::new(),
        head_armor: Vec::new(),
        leg_armor: Vec::new(),
        long_guns: Vec::new(),
        melee_weapons: Vec::new(),
        mods: MODS.as_bytes().to_vec(),
        rings: b"Description,ID,Name,Location,Url,Worlds\nBoom,9,Volatile Gem,Rhom,u,Rhom\n".to_vec(),
        traits: b"Description,ID,Name,Url,Worlds\nMore damage,4,Arcane Strike,u,Any\n".to_vec(),
    }
}

#[test]
fn restore_entries_lists_kinds_in_page_order() {
    let marks = vec![Item { data_type: ItemType::Ring, id: 9 }];
    let entries: Vec<Entry> = restore_entries(&raw_catalog(), &marks);
    let kinds: Vec<ItemType> = entries.iter().map(|e| e.data_type).collect();
    assert_eq!(
        vec![
            ItemType::Trait,
            ItemType::Amulet,
            ItemType::Amulet,
            ItemType::Amulet,
            ItemType::ArmorSet,
            ItemType::Emote,
            ItemType::Ring,
            ItemType::Mod,
            ItemType::Mod,
            ItemType::Mod,
        ],
        kinds
    );
    let done: Vec<String> = entries.iter().filter(|e| e.completed).map(|e| e.id()).collect();
    assert_eq!(vec![String::from("ring-9")], done);
}

#[test]
fn save_then_restore_keeps_the_checklist() {
    let marks = vec![
        Item { data_type: ItemType::Amulet, id: 3 },
        Item { data_type: ItemType::Mod, id: 5 },
        Item { data_type: ItemType::Emote, id: 99 },
    ];
    let before = restore_entries(&raw_catalog(), &marks);
    let saved = remnant_checklist::storage::DataFormat::new(&before).completed_items;
    let after = restore_entries(&raw_catalog(), &saved);
    let view = |v: &[Entry]| -> Vec<(String, bool)> { v.iter().map(|e| (e.id(), e.completed)).collect() };
    assert_eq!(view(&before), view(&after));
    assert_eq!(2, saved.len());
}

#[test]
fn entry_ids_in_a_checklist_are_distinct() {
    let entries = restore_entries(&raw_catalog(), &[]);
    let mut ids: Vec<String> = entries.iter().map(|e| e.id()).collect();
    ids.sort();
    ids.dedup();
    assert_eq!(entries.len(), ids.len());
}

#[test]
fn gun_rows_need_whole_numbers_in_counted_columns() {
    let table = "Base Damage,Crit Chance,ID,Ideal Range,Magazine,Max Ammo,Max Damage,Name,RPS,Url,Worlds
40,5,1,20,6,60,,Defiler,2.5,u1,Rhom
40,5,2,20,6,60,80,Twin Shot,1.5,u2,Earth
forty,5,3,20,6,60,,Repeater,1.0,u3,Earth
40,5,4,20,6,60,lots,Submachine Gun,9.0,u4,Earth
";
    let items = catalog_items(ItemType::HandGun, table.as_bytes());
    assert_eq!(vec!["Defiler", "Twin Shot"], names(&items));
    let entries = category_entries(ItemType::LongGun, table.as_bytes(), &[]);
    assert_eq!(2, entries.len());
}

#[test]
fn gun_tables_without_rounds_per_second_give_nothing() {
    let table = "Base Damage,Crit Chance,ID,Ideal Range,Magazine,Max Ammo,Name,Url,Worlds
40,5,1,20,6,60,Defiler,u1,Rhom
";
    assert!(catalog_items(ItemType::HandGun, table.as_bytes()).is_empty());
    assert_eq!(1, catalog_items(ItemType::Mod, table.as_bytes()).len());
}

#[test]
fn melee_weapons_may_leave_max_damage_empty() {
    let table = "Base Damage,ID,Max Damage,Name,Weapon Mod,Url,Worlds
30,1,,World's Edge,,u1,Earth
30,2,0x20,Blade of Adventure,Fire,u2,Earth
30,3,high,Butchers Flail,,u3,Earth
";
    let items = catalog_items(ItemType::MeleeWeapon, table.as_bytes());
    assert_eq!(vec!["Blade of Adventure", "World's Edge"], names(&items));
}

#[test]
fn kinds_need_their_text_columns() {
    let table = "Description,ID,Name,Url,Worlds\nA bow,1,Cheer Emote,u1,\n";
    assert!(catalog_items(ItemType::Emote, table.as_bytes()).is_empty());
    assert!(catalog_items(ItemType::Ring, table.as_bytes()).is_empty());
    assert_eq!(1, catalog_items(ItemType::Trait, table.as_bytes()).len());
    assert!(catalog_items(ItemType::ArmorSet, table.as_bytes()).is_empty());
    assert!(catalog_items(ItemType::BodyArmor, table.as_bytes()).is_empty());
    let armor = "Armor,Armor Skill,ID,Name,Url,Worlds\n12.5,,1,Akari Garb,u1,Yaesha\n";
    assert_eq!(1, catalog_items(ItemType::HeadArmor, armor.as_bytes()).len());
}

#[test]
fn repeated_needed_column_gives_nothing() {
    let table = "ID,Name,Name,Url,Worlds\n1,Alpha,Beta,u1,\n";
    assert!(catalog_items(ItemType::Mod, table.as_bytes()).is_empty());
}
