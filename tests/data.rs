use remnant_checklist::data::{worlds_from_str, ItemType, UrlParam, World};
use remnant_checklist::entry::Record;
use std::str::FromStr;

fn record(worlds_str: &str) -> Record {
    Record {
        id: 1,
        name: String::from("example"),
        url: String::from("www.example.com"),
        worlds_str: String::from(worlds_str),
    }
}

#[test]
fn worlds_str_is_converted_to_a_vec_of_worlds() {
    let amulet = record("Ward 17,Earth");
    assert_eq!(vec![World::Ward17, World::Earth, World::Any], amulet.worlds());
}

#[test]
fn worlds_str_ignores_invalid_input() {
    let amulet = record("Nope,Earth,Invalid");
    assert_eq!(vec![World::Earth, World::Any], amulet.worlds());
}

#[test]
fn any_worlds_str_is_converted_to_a_vec_of_all_worlds() {
    let amulet = record("Any");
    assert_eq!(
        vec![
            World::Any,
            World::Corsus,
            World::Earth,
            World::Labyrinth,
            World::Reisum,
            World::Rhom,
            World::RuralEarth,
            World::Ward13,
            World::Ward17,
            World::WardPrime,
            World::Yaesha,
        ],
        amulet.worlds()
    );
}

#[test]
fn blank_worlds_str_means_any_world() {
    assert_eq!(vec![World::Any], worlds_from_str(""));
    assert_eq!(vec![World::Any], worlds_from_str("   "));
}

#[test]
fn worlds_str_pieces_are_trimmed() {
    assert_eq!(
        vec![World::RuralEarth, World::Yaesha, World::Any],
        worlds_from_str("  Rural Earth , Yaesha ")
    );
    assert_eq!(vec![World::Corsus, World::Any], worlds_from_str(" Corsus\t"));
}

#[test]
fn padded_any_means_every_world() {
    assert_eq!(World::all(), worlds_from_str("  Any "));
    assert_eq!(11, World::all().len());
}

#[test]
fn any_among_other_worlds_is_not_a_world_name() {
    assert_eq!(vec![World::Rhom, World::Any], worlds_from_str("Any,Rhom"));
    assert_eq!(vec![World::Any], worlds_from_str("Any World"));
}

#[test]
fn from_param_reads_every_slug() {
    for world in World::all() {
        assert_eq!(Ok(world), World::from_param(world.url_slug()));
    }
    assert_eq!(Ok(World::RuralEarth), World::from_param("ruralearth"));
    assert_eq!(Ok(World::Ward13), World::from_param("ward13"));
}

#[test]
fn from_param_refuses_unknown_text() {
    assert_eq!(
        Err(String::from("unknown world: Earth")),
        World::from_param("Earth")
    );
    assert_eq!(Err(String::from("unknown world: ")), World::from_param(""));
}

#[test]
fn from_name_reads_labels_but_not_any() {
    assert_eq!(Ok(World::WardPrime), World::from_name("Ward Prime"));
    assert_eq!(Ok(World::Labyrinth), World::from_str("Labyrinth"));
    assert_eq!(
        Err(String::from("Invalid world found: Any World")),
        World::from_name("Any World")
    );
    assert_eq!(
        Err(String::from("Invalid world found: ward 13")),
        World::from_str("ward 13")
    );
}

#[test]
fn world_slugs_and_labels() {
    assert_eq!("any", World::Any.url_slug());
    assert_eq!("wardprime", World::WardPrime.url_slug());
    assert_eq!("Any World", World::Any.to_string());
    assert_eq!("Rural Earth", World::RuralEarth.to_string());
    assert_eq!("Ward 17", World::Ward17.label());
}

#[test]
fn default_world_is_ward_13() {
    assert_eq!(World::Ward13, World::default());
}

#[test]
fn item_type_slugs_and_labels() {
    assert_eq!("armor-set", ItemType::ArmorSet.url_slug());
    assert_eq!("melee-weapon", ItemType::MeleeWeapon.url_slug());
    assert_eq!("trait", ItemType::Trait.url_slug());
    assert_eq!("Hand Gun", ItemType::HandGun.to_string());
    assert_eq!("Mod", ItemType::Mod.label());
}

#[test]
fn from_name_reads_back_every_label_but_any() {
    for world in World::all().into_iter().filter(|w| *w != World::Any) {
        assert_eq!(Ok(world), World::from_name(world.label()));
    }
}
