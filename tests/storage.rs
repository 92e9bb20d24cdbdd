use chrono::{DateTime, Duration, Utc};
use remnant_checklist::data::ItemType;
use remnant_checklist::entry::{Entry, Item};
use remnant_checklist::storage::{DataFormat, Timestamp, DATA_FORMAT_VERSION};

fn build_entry(completed: bool, data_type: ItemType, id: u32) -> Entry {
    Entry {
        completed,
        data_type,
        id,
        name: "Necklace".into(),
        url: "https://example.com".into(),
        worlds: vec![],
    }
}

#[test]
fn test_data_format_defaults() {
    let now = Utc::now().checked_add_signed(Duration::seconds(1)).unwrap();
    let data: DataFormat = DataFormat::default();

    assert!(data.completed_items.is_empty());
    assert_eq!(DATA_FORMAT_VERSION, data.version);
    let saved_at: DateTime<Utc> =
        DateTime::from_timestamp(data.last_saved_at.secs, data.last_saved_at.nanos).unwrap();
    assert!(now > saved_at);
}

#[test]
fn test_data_format_version_can_differ() {
    let data = DataFormat {
        version: 42,
        ..DataFormat::default()
    };

    assert_eq!(42, data.version);
}

#[test]
fn test_new_converts_completd_entries_into_items() {
    let entries = vec![
        build_entry(true, ItemType::Amulet, 4),
        build_entry(false, ItemType::LegArmor, 5),
        build_entry(true, ItemType::Ring, 6),
        build_entry(false, ItemType::HeadArmor, 7),
    ];
    let completed_items = DataFormat::new(&entries).completed_items;

    let first_item = completed_items.first().unwrap();
    assert!(matches!(first_item.data_type, ItemType::Amulet));
    assert_eq!(4, first_item.id);

    let last_item = completed_items.last().unwrap();
    assert!(matches!(last_item.data_type, ItemType::Ring));
    assert_eq!(6, last_item.id);
}

#[test]
fn new_at_keeps_the_time_and_only_done_entries() {
    let entries = vec![
        build_entry(false, ItemType::Mod, 1),
        build_entry(true, ItemType::Mod, 2),
        build_entry(true, ItemType::Emote, 2),
    ];
    let at = Timestamp { secs: 1_600_000_000, nanos: 5 };
    let data = DataFormat::new_at(&entries, at);
    assert_eq!(at, data.last_saved_at);
    assert_eq!(1, data.version);
    assert_eq!(
        vec![
            Item { data_type: ItemType::Mod, id: 2 },
            Item { data_type: ItemType::Emote, id: 2 },
        ],
        data.completed_items
    );
    assert!(DataFormat::new_at(&[], at).completed_items.is_empty());
}

#[test]
fn item_from_entry_keeps_kind_and_id() {
    let entry = build_entry(false, ItemType::LongGun, 12);
    assert_eq!(Item { data_type: ItemType::LongGun, id: 12 }, Item::from_entry(&entry));
}
