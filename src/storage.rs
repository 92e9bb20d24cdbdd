//! What is saved between sessions: the marks of the entries that are done,
//! when they were saved, and the version of the format.
use crate::catalog::{catalog_entries, checklist, RawCatalog};
use crate::data::ItemType;
use crate::entry::{entries_view, is_marked, Entry, EntryView, Item};
use vstd::prelude::*;

verus! {

/// The version of the saved format that this library writes.
pub const DATA_FORMAT_VERSION: usize = 1;

/// A moment in UTC: whole seconds since the Unix epoch and the nanoseconds
/// after them.
#[derive(Clone, Copy, Debug, PartialEq, Eq, Structural)]
pub struct Timestamp {
    pub secs: i64,
    pub nanos: u32,
}

/// The saved state of the checklist.
pub struct DataFormat {
    pub completed_items: Vec<Item>,
    pub last_saved_at: Timestamp,
    pub version: usize,
}

/// The marks of the entries that are done, in the order of the entries.
pub open spec fn completed_marks(entries: Seq<EntryView>) -> Seq<Item>
    decreases entries.len(),
{
    if entries.len() == 0 {
        Seq::empty()
    } else {
        let front = completed_marks(entries.drop_last());
        let e = entries.last();
        if e.completed {
            front.push(Item { data_type: e.data_type, id: e.id })
        } else {
            front
        }
    }
}

/// Relies on `chrono::Utc::now`, read as `DateTime::timestamp` and
/// `DateTime::timestamp_subsec_nanos`: the time now, of which nothing is known.
#[verifier::external_body]
fn utc_now() -> (r: Timestamp) {
    let now = chrono::Utc::now();
    Timestamp { secs: now.timestamp(), nanos: now.timestamp_subsec_nanos() }
}

impl DataFormat {
    /// The saved state for `entries`, saved at `at`.
    pub fn new_at(entries: &[Entry], at: Timestamp) -> (r: DataFormat)
        ensures
            r.completed_items@ == completed_marks(entries_view(entries@)),
            r.last_saved_at == at,
            r.version == DATA_FORMAT_VERSION,
    {
        let ghost ev = entries_view(entries@);
        let mut items: Vec<Item> = Vec::new();
        let mut i: usize = 0;
        while i < entries.len()
            invariant
                i <= entries@.len(),
                ev == entries_view(entries@),
                items@ == completed_marks(ev.subrange(0, i as int)),
            decreases entries@.len() - i,
        {
            proof {
                assert(ev.subrange(0, i + 1).drop_last() =~= ev.subrange(0, i as int));
                assert(ev[i as int] == entries@[i as int]@);
            }
            if entries[i].completed {
                items.push(Item::from_entry(&entries[i]));
            }
            i = i + 1;
        }
        assert(ev.subrange(0, entries@.len() as int) =~= ev);
        DataFormat { completed_items: items, last_saved_at: at, version: DATA_FORMAT_VERSION }
    }

    /// The saved state for `entries`, saved now.
    pub fn new(entries: &[Entry]) -> (r: DataFormat)
        ensures
            r.completed_items@ == completed_marks(entries_view(entries@)),
            r.version == DATA_FORMAT_VERSION,
    {
        DataFormat::new_at(entries, utc_now())
    }
}

impl Default for DataFormat {
    /// No marks, saved now.
    fn default() -> (r: DataFormat)
        ensures
            r.completed_items@ == Seq::<Item>::empty(),
            r.version == DATA_FORMAT_VERSION,
    {
        DataFormat { completed_items: Vec::new(), last_saved_at: utc_now(), version: DATA_FORMAT_VERSION }
    }
}

/// Each entry is done exactly when `marks` holds a mark for it.
pub open spec fn marked_by(entries: Seq<EntryView>, marks: Seq<Item>) -> bool {
    forall|i: int|
        0 <= i < entries.len() ==> #[trigger] entries[i].completed == is_marked(
            marks,
            entries[i].data_type,
            entries[i].id,
        )
}

/// `marks` and `other` say the same of every entry.
pub open spec fn agree_on(entries: Seq<EntryView>, marks: Seq<Item>, other: Seq<Item>) -> bool {
    forall|i: int|
        0 <= i < entries.len() ==> #[trigger] is_marked(other, entries[i].data_type, entries[i].id)
            == is_marked(marks, entries[i].data_type, entries[i].id)
}

/// The saved marks hold a mark for a kind and number exactly when some entry
/// of that kind and number is done.
pub proof fn lemma_saved_marks(entries: Seq<EntryView>, data_type: ItemType, id: u32)
    ensures
        is_marked(completed_marks(entries), data_type, id) <==> exists|i: int|
            0 <= i < entries.len() && #[trigger] entries[i].completed && entries[i].data_type
                == data_type && entries[i].id == id,
    decreases entries.len(),
{
    if entries.len() > 0 {
        let front = entries.drop_last();
        let e = entries.last();
        lemma_saved_marks(front, data_type, id);
        let m = completed_marks(entries);
        let fm = completed_marks(front);
        if is_marked(m, data_type, id) {
            let k = choose|k: int| 0 <= k < m.len() && #[trigger] m[k] == Item { data_type, id };
            if k < fm.len() {
                assert(fm[k] == m[k]);
                let i = choose|i: int|
                    0 <= i < front.len() && #[trigger] front[i].completed && front[i].data_type
                        == data_type && front[i].id == id;
                assert(entries[i] == front[i]);
            } else {
                assert(entries[entries.len() - 1] == e);
            }
        }
        if exists|i: int|
            0 <= i < entries.len() && #[trigger] entries[i].completed && entries[i].data_type
                == data_type && entries[i].id == id {
            let i = choose|i: int|
                0 <= i < entries.len() && #[trigger] entries[i].completed && entries[i].data_type
                    == data_type && entries[i].id == id;
            if i < front.len() {
                assert(front[i] == entries[i]);
                let k = choose|k: int| 0 <= k < fm.len() && #[trigger] fm[k] == Item { data_type, id };
                if e.completed {
                    assert(m[k] == fm[k]);
                }
            } else {
                assert(m[m.len() - 1] == Item { data_type, id });
            }
        }
    }
}

proof fn lemma_marked_concat(a: Seq<EntryView>, b: Seq<EntryView>, marks: Seq<Item>)
    requires
        marked_by(a, marks),
        marked_by(b, marks),
    ensures
        marked_by(a + b, marks),
{
    assert forall|i: int| 0 <= i < (a + b).len() implies #[trigger] (a + b)[i].completed
        == is_marked(marks, (a + b)[i].data_type, (a + b)[i].id) by {
        if i >= a.len() {
            assert((a + b)[i] == b[i - a.len()]);
        }
    }
}

proof fn lemma_agree_split(a: Seq<EntryView>, b: Seq<EntryView>, marks: Seq<Item>, other: Seq<Item>)
    requires
        agree_on(a + b, marks, other),
    ensures
        agree_on(a, marks, other),
        agree_on(b, marks, other),
{
    assert forall|i: int| 0 <= i < a.len() implies #[trigger] is_marked(other, a[i].data_type, a[i].id)
        == is_marked(marks, a[i].data_type, a[i].id) by {
        assert((a + b)[i] == a[i]);
    }
    assert forall|i: int| 0 <= i < b.len() implies #[trigger] is_marked(other, b[i].data_type, b[i].id)
        == is_marked(marks, b[i].data_type, b[i].id) by {
        assert((a + b)[a.len() + i] == b[i]);
    }
}

proof fn lemma_catalog_same(data_type: ItemType, data: Seq<u8>, marks: Seq<Item>, other: Seq<Item>)
    requires
        agree_on(catalog_entries(data_type, data, marks), marks, other),
    ensures
        catalog_entries(data_type, data, other) == catalog_entries(data_type, data, marks),
{
    let s = catalog_entries(data_type, data, marks);
    let t = catalog_entries(data_type, data, other);
    assert forall|k: int| 0 <= k < t.len() implies #[trigger] t[k] == s[k] by {
        assert(is_marked(other, s[k].data_type, s[k].id) == is_marked(marks, s[k].data_type, s[k].id));
    }
    assert(t =~= s);
}

/// Saving the checklist and then restoring it from the saved marks gives
/// back the same checklist.
pub proof fn lemma_save_then_restore(raw: RawCatalog, marks: Seq<Item>)
    ensures
        checklist(raw, completed_marks(checklist(raw, marks))) == checklist(raw, marks),
{
    let s0 = catalog_entries(ItemType::Trait, raw.traits@, marks);
    let s1 = catalog_entries(ItemType::Amulet, raw.amulets@, marks);
    let s2 = catalog_entries(ItemType::ArmorSet, raw.armor_sets@, marks);
    let s3 = catalog_entries(ItemType::HeadArmor, raw.head_armor@, marks);
    let s4 = catalog_entries(ItemType::BodyArmor, raw.body_armor@, marks);
    let s5 = catalog_entries(ItemType::LegArmor, raw.leg_armor@, marks);
    let s6 = catalog_entries(ItemType::Emote, raw.emotes@, marks);
    let s7 = catalog_entries(ItemType::Ring, raw.rings@, marks);
    let s8 = catalog_entries(ItemType::HandGun, raw.hand_guns@, marks);
    let s9 = catalog_entries(ItemType::LongGun, raw.long_guns@, marks);
    let s10 = catalog_entries(ItemType::MeleeWeapon, raw.melee_weapons@, marks);
    let s11 = catalog_entries(ItemType::Mod, raw.mods@, marks);
    let p0 = s0;
    let p1 = p0 + s1;
    let p2 = p1 + s2;
    let p3 = p2 + s3;
    let p4 = p3 + s4;
    let p5 = p4 + s5;
    let p6 = p5 + s6;
    let p7 = p6 + s7;
    let p8 = p7 + s8;
    let p9 = p8 + s9;
    let p10 = p9 + s10;
    let p11 = p10 + s11;
    assert(p11 == checklist(raw, marks));
    lemma_marked_concat(p0, s1, marks);
    lemma_marked_concat(p1, s2, marks);
    lemma_marked_concat(p2, s3, marks);
    lemma_marked_concat(p3, s4, marks);
    lemma_marked_concat(p4, s5, marks);
    lemma_marked_concat(p5, s6, marks);
    lemma_marked_concat(p6, s7, marks);
    lemma_marked_concat(p7, s8, marks);
    lemma_marked_concat(p8, s9, marks);
    lemma_marked_concat(p9, s10, marks);
    lemma_marked_concat(p10, s11, marks);
    let saved = completed_marks(p11);
    assert forall|i: int| 0 <= i < p11.len() implies #[trigger] is_marked(
        saved,
        p11[i].data_type,
        p11[i].id,
    ) == is_marked(marks, p11[i].data_type, p11[i].id) by {
        lemma_saved_marks(p11, p11[i].data_type, p11[i].id);
        if is_marked(saved, p11[i].data_type, p11[i].id) {
            let j = choose|j: int|
                0 <= j < p11.len() && #[trigger] p11[j].completed && p11[j].data_type
                    == p11[i].data_type && p11[j].id == p11[i].id;
            assert(p11[j].completed == is_marked(marks, p11[j].data_type, p11[j].id));
        }
        assert(p11[i].completed == is_marked(marks, p11[i].data_type, p11[i].id));
    }
    lemma_agree_split(p10, s11, marks, saved);
    lemma_agree_split(p9, s10, marks, saved);
    lemma_agree_split(p8, s9, marks, saved);
    lemma_agree_split(p7, s8, marks, saved);
    lemma_agree_split(p6, s7, marks, saved);
    lemma_agree_split(p5, s6, marks, saved);
    lemma_agree_split(p4, s5, marks, saved);
    lemma_agree_split(p3, s4, marks, saved);
    lemma_agree_split(p2, s3, marks, saved);
    lemma_agree_split(p1, s2, marks, saved);
    lemma_agree_split(p0, s1, marks, saved);
    lemma_catalog_same(ItemType::Trait, raw.traits@, marks, saved);
    lemma_catalog_same(ItemType::Amulet, raw.amulets@, marks, saved);
    lemma_catalog_same(ItemType::ArmorSet, raw.armor_sets@, marks, saved);
    lemma_catalog_same(ItemType::HeadArmor, raw.head_armor@, marks, saved);
    lemma_catalog_same(ItemType::BodyArmor, raw.body_armor@, marks, saved);
    lemma_catalog_same(ItemType::LegArmor, raw.leg_armor@, marks, saved);
    lemma_catalog_same(ItemType::Emote, raw.emotes@, marks, saved);
    lemma_catalog_same(ItemType::Ring, raw.rings@, marks, saved);
    lemma_catalog_same(ItemType::HandGun, raw.hand_guns@, marks, saved);
    lemma_catalog_same(ItemType::LongGun, raw.long_guns@, marks, saved);
    lemma_catalog_same(ItemType::MeleeWeapon, raw.melee_weapons@, marks, saved);
    lemma_catalog_same(ItemType::Mod, raw.mods@, marks, saved);
}

} // verus!
