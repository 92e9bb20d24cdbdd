//! The worlds of the game and the kinds of collectible items, with the names
//! shown to the player and the slugs used in URLs and element ids.
use crate::text::{same, split_commas, split_seq, trim, trim_of};
use vstd::prelude::*;

verus! {

#[derive(Clone, Copy, Debug, PartialEq, Eq, Structural)]
pub enum World {
    Any,
    Corsus,
    Earth,
    Labyrinth,
    Reisum,
    Rhom,
    RuralEarth,
    Ward13,
    Ward17,
    WardPrime,
    Yaesha,
}

#[derive(Clone, Copy, Debug, PartialEq, Eq, Structural)]
pub enum ItemType {
    Amulet,
    ArmorSet,
    BodyArmor,
    Emote,
    HandGun,
    HeadArmor,
    LegArmor,
    LongGun,
    MeleeWeapon,
    Mod,
    Ring,
    Trait,
}

/// The slug of a world, as it stands in a URL parameter.
pub open spec fn world_slug(x: World) -> Seq<char> {
    match x {
        World::Any => "any"@,
        World::Corsus => "corsus"@,
        World::Earth => "earth"@,
        World::Labyrinth => "labyrinth"@,
        World::Reisum => "reisum"@,
        World::Rhom => "rhom"@,
        World::RuralEarth => "ruralearth"@,
        World::Ward13 => "ward13"@,
        World::Ward17 => "ward17"@,
        World::WardPrime => "wardprime"@,
        World::Yaesha => "yaesha"@,
    }
}

/// The name of a world as the player reads it.
pub open spec fn world_label(x: World) -> Seq<char> {
    match x {
        World::Any => "Any World"@,
        World::Corsus => "Corsus"@,
        World::Earth => "Earth"@,
        World::Labyrinth => "Labyrinth"@,
        World::Reisum => "Reisum"@,
        World::Rhom => "Rhom"@,
        World::RuralEarth => "Rural Earth"@,
        World::Ward13 => "Ward 13"@,
        World::Ward17 => "Ward 17"@,
        World::WardPrime => "Ward Prime"@,
        World::Yaesha => "Yaesha"@,
    }
}

/// The slug of a kind of item, as it stands in an element id.
pub open spec fn item_type_slug(x: ItemType) -> Seq<char> {
    match x {
        ItemType::Amulet => "amulet"@,
        ItemType::ArmorSet => "armor-set"@,
        ItemType::BodyArmor => "body-armor"@,
        ItemType::Emote => "emote"@,
        ItemType::HandGun => "hand-gun"@,
        ItemType::HeadArmor => "head-armor"@,
        ItemType::LegArmor => "leg-armor"@,
        ItemType::LongGun => "long-gun"@,
        ItemType::MeleeWeapon => "melee-weapon"@,
        ItemType::Mod => "mod"@,
        ItemType::Ring => "ring"@,
        ItemType::Trait => "trait"@,
    }
}

/// The name of a kind of item as the player reads it.
pub open spec fn item_type_label(x: ItemType) -> Seq<char> {
    match x {
        ItemType::Amulet => "Amulet"@,
        ItemType::ArmorSet => "Armor Set"@,
        ItemType::BodyArmor => "Body Armor"@,
        ItemType::Emote => "Emote"@,
        ItemType::HandGun => "Hand Gun"@,
        ItemType::HeadArmor => "Head Armor"@,
        ItemType::LegArmor => "Leg Armor"@,
        ItemType::LongGun => "Long Gun"@,
        ItemType::MeleeWeapon => "Melee Weapon"@,
        ItemType::Mod => "Mod"@,
        ItemType::Ring => "Ring"@,
        ItemType::Trait => "Trait"@,
    }
}

/// The world whose slug is `s`, if there is one.
pub open spec fn world_of_slug(s: Seq<char>) -> Option<World> {
    if s == "any"@ {
        Some(World::Any)
    } else if s == "corsus"@ {
        Some(World::Corsus)
    } else if s == "earth"@ {
        Some(World::Earth)
    } else if s == "labyrinth"@ {
        Some(World::Labyrinth)
    } else if s == "reisum"@ {
        Some(World::Reisum)
    } else if s == "rhom"@ {
        Some(World::Rhom)
    } else if s == "ruralearth"@ {
        Some(World::RuralEarth)
    } else if s == "ward13"@ {
        Some(World::Ward13)
    } else if s == "ward17"@ {
        Some(World::Ward17)
    } else if s == "wardprime"@ {
        Some(World::WardPrime)
    } else if s == "yaesha"@ {
        Some(World::Yaesha)
    } else {
        None
    }
}

/// The world that a catalog names `s`: every world by its label but `Any`,
/// which a catalog cannot name this way.
pub open spec fn world_named(s: Seq<char>) -> Option<World> {
    if s == "Corsus"@ {
        Some(World::Corsus)
    } else if s == "Earth"@ {
        Some(World::Earth)
    } else if s == "Labyrinth"@ {
        Some(World::Labyrinth)
    } else if s == "Reisum"@ {
        Some(World::Reisum)
    } else if s == "Rhom"@ {
        Some(World::Rhom)
    } else if s == "Rural Earth"@ {
        Some(World::RuralEarth)
    } else if s == "Ward 13"@ {
        Some(World::Ward13)
    } else if s == "Ward 17"@ {
        Some(World::Ward17)
    } else if s == "Ward Prime"@ {
        Some(World::WardPrime)
    } else if s == "Yaesha"@ {
        Some(World::Yaesha)
    } else {
        None
    }
}

/// Every world, in declaration order.
pub open spec fn all_worlds() -> Seq<World> {
    seq![World::Any, World::Corsus, World::Earth, World::Labyrinth, World::Reisum, World::Rhom, World::RuralEarth, World::Ward13, World::Ward17, World::WardPrime, World::Yaesha]
}

/// The worlds that the comma-separated names in `pieces` denote, in order;
/// a name that denotes no world is passed over.
pub open spec fn named_worlds(pieces: Seq<Seq<char>>) -> Seq<World>
    decreases pieces.len(),
{
    if pieces.len() == 0 {
        Seq::empty()
    } else {
        let front = named_worlds(pieces.drop_last());
        match world_named(trim_of(pieces.last())) {
            Some(w) => front.push(w),
            None => front,
        }
    }
}

/// The worlds that a catalog's list of world names stands for. A blank list
/// means any world, the word `Any` means every world, and otherwise each name
/// that denotes a world counts, followed by `Any`.
pub open spec fn parse_worlds(s: Seq<char>) -> Seq<World> {
    let t = trim_of(s);
    if t.len() == 0 {
        seq![World::Any]
    } else if t == "Any"@ {
        all_worlds()
    } else {
        named_worlds(split_seq(s, ',')).push(World::Any)
    }
}

/// A value that has a slug for URLs.
pub trait UrlParam: Sized {
    spec fn slug(&self) -> Seq<char>;

    fn url_slug(self) -> (r: &'static str)
        ensures
            r@ == self.slug(),
    ;
}

impl UrlParam for ItemType {
    open spec fn slug(&self) -> Seq<char> {
        item_type_slug(*self)
    }

    fn url_slug(self) -> (r: &'static str) {
        match self {
            ItemType::Amulet => "amulet",
            ItemType::ArmorSet => "armor-set",
            ItemType::BodyArmor => "body-armor",
            ItemType::Emote => "emote",
            ItemType::HandGun => "hand-gun",
            ItemType::HeadArmor => "head-armor",
            ItemType::LegArmor => "leg-armor",
            ItemType::LongGun => "long-gun",
            ItemType::MeleeWeapon => "melee-weapon",
            ItemType::Mod => "mod",
            ItemType::Ring => "ring",
            ItemType::Trait => "trait",
        }
    }
}

impl UrlParam for World {
    open spec fn slug(&self) -> Seq<char> {
        world_slug(*self)
    }

    fn url_slug(self) -> (r: &'static str) {
        match self {
            World::Any => "any",
            World::Corsus => "corsus",
            World::Earth => "earth",
            World::Labyrinth => "labyrinth",
            World::Reisum => "reisum",
            World::Rhom => "rhom",
            World::RuralEarth => "ruralearth",
            World::Ward13 => "ward13",
            World::Ward17 => "ward17",
            World::WardPrime => "wardprime",
            World::Yaesha => "yaesha",
        }
    }
}

impl ItemType {
    /// The name of the kind of item as the player reads it.
    pub fn label(&self) -> (r: &'static str)
        ensures
            r@ == item_type_label(*self),
    {
        match self {
            ItemType::Amulet => "Amulet",
            ItemType::ArmorSet => "Armor Set",
            ItemType::BodyArmor => "Body Armor",
            ItemType::Emote => "Emote",
            ItemType::HandGun => "Hand Gun",
            ItemType::HeadArmor => "Head Armor",
            ItemType::LegArmor => "Leg Armor",
            ItemType::LongGun => "Long Gun",
            ItemType::MeleeWeapon => "Melee Weapon",
            ItemType::Mod => "Mod",
            ItemType::Ring => "Ring",
            ItemType::Trait => "Trait",
        }
    }

    pub fn to_string(&self) -> (r: String)
        ensures
            r@ == item_type_label(*self),
    {
        String::from_str(self.label())
    }
}

impl World {
    /// The world of a URL parameter; any other text is refused.
    pub fn from_param(s: &str) -> (r: Result<World, String>)
        ensures
            match r {
                Ok(w) => world_of_slug(s@) == Some(w),
                Err(e) => world_of_slug(s@) is None && e@ == "unknown world: "@ + s@,
            },
    {
        if same(s, "any") {
            Ok(World::Any)
        } else if same(s, "corsus") {
            Ok(World::Corsus)
        } else if same(s, "earth") {
            Ok(World::Earth)
        } else if same(s, "labyrinth") {
            Ok(World::Labyrinth)
        } else if same(s, "reisum") {
            Ok(World::Reisum)
        } else if same(s, "rhom") {
            Ok(World::Rhom)
        } else if same(s, "ruralearth") {
            Ok(World::RuralEarth)
        } else if same(s, "ward13") {
            Ok(World::Ward13)
        } else if same(s, "ward17") {
            Ok(World::Ward17)
        } else if same(s, "wardprime") {
            Ok(World::WardPrime)
        } else if same(s, "yaesha") {
            Ok(World::Yaesha)
        } else {
            Err(String::from_str("unknown world: ").concat(s))
        }
    }

    /// The world that a catalog names `s`; `Any` and unknown names are refused.
    pub fn from_name(s: &str) -> (r: Result<World, String>)
        ensures
            match r {
                Ok(w) => world_named(s@) == Some(w),
                Err(e) => world_named(s@) is None && e@ == "Invalid world found: "@ + s@,
            },
    {
        if same(s, "Corsus") {
            Ok(World::Corsus)
        } else if same(s, "Earth") {
            Ok(World::Earth)
        } else if same(s, "Labyrinth") {
            Ok(World::Labyrinth)
        } else if same(s, "Reisum") {
            Ok(World::Reisum)
        } else if same(s, "Rhom") {
            Ok(World::Rhom)
        } else if same(s, "Rural Earth") {
            Ok(World::RuralEarth)
        } else if same(s, "Ward 13") {
            Ok(World::Ward13)
        } else if same(s, "Ward 17") {
            Ok(World::Ward17)
        } else if same(s, "Ward Prime") {
            Ok(World::WardPrime)
        } else if same(s, "Yaesha") {
            Ok(World::Yaesha)
        } else {
            Err(String::from_str("Invalid world found: ").concat(s))
        }
    }

    /// The name of the world as the player reads it.
    pub fn label(&self) -> (r: &'static str)
        ensures
            r@ == world_label(*self),
    {
        match self {
            World::Any => "Any World",
            World::Corsus => "Corsus",
            World::Earth => "Earth",
            World::Labyrinth => "Labyrinth",
            World::Reisum => "Reisum",
            World::Rhom => "Rhom",
            World::RuralEarth => "Rural Earth",
            World::Ward13 => "Ward 13",
            World::Ward17 => "Ward 17",
            World::WardPrime => "Ward Prime",
            World::Yaesha => "Yaesha",
        }
    }

    pub fn to_string(&self) -> (r: String)
        ensures
            r@ == world_label(*self),
    {
        String::from_str(self.label())
    }

    /// Every world, in declaration order.
    pub fn all() -> (r: Vec<World>)
        ensures
            r@ == all_worlds(),
    {
        let r = vec![World::Any, World::Corsus, World::Earth, World::Labyrinth, World::Reisum, World::Rhom, World::RuralEarth, World::Ward13, World::Ward17, World::WardPrime, World::Yaesha];
        assert(r@ =~= all_worlds());
        r
    }
}

impl Default for World {
    fn default() -> (r: World)
        ensures
            r == World::Ward13,
    {
        World::Ward13
    }
}

impl std::str::FromStr for World {
    type Err = String;

    fn from_str(s: &str) -> Result<World, String> {
        World::from_name(s)
    }
}

/// The worlds that a catalog's list of world names stands for.
pub fn worlds_from_str(s: &str) -> (r: Vec<World>)
    ensures
        r@ == parse_worlds(s@),
{
    let t = trim(s);
    if t.unicode_len() == 0 {
        return vec![World::Any];
    }
    if same(t, "Any") {
        return World::all();
    }
    let pieces = split_commas(s);
    let mut r: Vec<World> = Vec::new();
    let mut i: usize = 0;
    while i < pieces.len()
        invariant
            pieces.deep_view() == split_seq(s@, ','),
            i <= pieces.len(),
            r@ == named_worlds(pieces.deep_view().subrange(0, i as int)),
        decreases pieces.len() - i,
    {
        proof {
            assert(pieces.deep_view().subrange(0, i + 1).drop_last() =~= pieces.deep_view().subrange(
                0,
                i as int,
            ));
        }
        match World::from_name(trim(pieces[i].as_str())) {
            Ok(w) => r.push(w),
            Err(_) => {},
        }
        i = i + 1;
    }
    r.push(World::Any);
    assert(pieces.deep_view().subrange(0, pieces.len() as int) =~= pieces.deep_view());
    r
}

/// A world's URL slug reads back as that world.
pub proof fn lemma_slug_round_trip(w: World)
    ensures
        world_of_slug(world_slug(w)) == Some(w),
{
    reveal_strlit("any");
    reveal_strlit("corsus");
    reveal_strlit("earth");
    reveal_strlit("labyrinth");
    reveal_strlit("reisum");
    reveal_strlit("rhom");
    reveal_strlit("ruralearth");
    reveal_strlit("ward13");
    reveal_strlit("ward17");
    reveal_strlit("wardprime");
    reveal_strlit("yaesha");
    assert("any"@.len() == 3);
    assert("corsus"@.len() == 6);
    assert("earth"@.len() == 5);
    assert("labyrinth"@.len() == 9);
    assert("reisum"@.len() == 6);
    assert("rhom"@.len() == 4);
    assert("ruralearth"@.len() == 10);
    assert("ward13"@.len() == 6);
    assert("ward17"@.len() == 6);
    assert("wardprime"@.len() == 9);
    assert("yaesha"@.len() == 6);
    assert("corsus"@[0] != "reisum"@[0]);
    assert("corsus"@[0] != "ward13"@[0]);
    assert("corsus"@[0] != "ward17"@[0]);
    assert("corsus"@[0] != "yaesha"@[0]);
    assert("labyrinth"@[0] != "wardprime"@[0]);
    assert("reisum"@[0] != "ward13"@[0]);
    assert("reisum"@[0] != "ward17"@[0]);
    assert("reisum"@[0] != "yaesha"@[0]);
    assert("ward13"@[5] != "ward17"@[5]);
    assert("ward13"@[0] != "yaesha"@[0]);
    assert("ward17"@[0] != "yaesha"@[0]);
}

/// A world's name reads back as that world, for every world but `Any`.
pub proof fn lemma_name_round_trip(w: World)
    requires
        w != World::Any,
    ensures
        world_named(world_label(w)) == Some(w),
{
    reveal_strlit("Corsus");
    reveal_strlit("Earth");
    reveal_strlit("Labyrinth");
    reveal_strlit("Reisum");
    reveal_strlit("Rhom");
    reveal_strlit("Rural Earth");
    reveal_strlit("Ward 13");
    reveal_strlit("Ward 17");
    reveal_strlit("Ward Prime");
    reveal_strlit("Yaesha");
    assert("Corsus"@.len() == 6);
    assert("Earth"@.len() == 5);
    assert("Labyrinth"@.len() == 9);
    assert("Reisum"@.len() == 6);
    assert("Rhom"@.len() == 4);
    assert("Rural Earth"@.len() == 11);
    assert("Ward 13"@.len() == 7);
    assert("Ward 17"@.len() == 7);
    assert("Ward Prime"@.len() == 10);
    assert("Yaesha"@.len() == 6);
    assert("Corsus"@[0] != "Reisum"@[0]);
    assert("Corsus"@[0] != "Yaesha"@[0]);
    assert("Reisum"@[0] != "Yaesha"@[0]);
    assert("Ward 13"@[6] != "Ward 17"@[6]);
}

} // verus!
