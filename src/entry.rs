//! Checklist entries, the catalog records they are made from, and the saved
//! marks that say which entries are done.
use crate::data::{item_type_slug, parse_worlds, worlds_from_str, ItemType, UrlParam, World};
use crate::text::{decimal, digit_char, push_decimal};
use vstd::prelude::*;

verus! {

/// One row of a catalog table: the columns the checklist reads.
pub struct Record {
    pub id: u32,
    pub name: String,
    pub url: String,
    pub worlds_str: String,
}

pub struct RecordView {
    pub id: u32,
    pub name: Seq<char>,
    pub url: Seq<char>,
    pub worlds_str: Seq<char>,
}

impl View for Record {
    type V = RecordView;

    open spec fn view(&self) -> RecordView {
        RecordView { id: self.id, name: self.name@, url: self.url@, worlds_str: self.worlds_str@ }
    }
}

/// One line of the checklist.
pub struct Entry {
    pub completed: bool,
    pub data_type: ItemType,
    pub id: u32,
    pub name: String,
    pub url: String,
    pub worlds: Vec<World>,
}

pub struct EntryView {
    pub completed: bool,
    pub data_type: ItemType,
    pub id: u32,
    pub name: Seq<char>,
    pub url: Seq<char>,
    pub worlds: Seq<World>,
}

impl View for Entry {
    type V = EntryView;

    open spec fn view(&self) -> EntryView {
        EntryView {
            completed: self.completed,
            data_type: self.data_type,
            id: self.id,
            name: self.name@,
            url: self.url@,
            worlds: self.worlds@,
        }
    }
}

/// A saved mark: the entry of this kind and id is done.
#[derive(Clone, Copy, Debug, PartialEq, Eq, Structural)]
pub struct Item {
    pub data_type: ItemType,
    pub id: u32,
}

pub open spec fn entries_view(s: Seq<Entry>) -> Seq<EntryView> {
    s.map_values(|e: Entry| e@)
}

pub open spec fn records_view(s: Seq<Record>) -> Seq<RecordView> {
    s.map_values(|r: Record| r@)
}

/// The id of an entry in the page: its kind's slug, a dash, and its number.
pub open spec fn entry_key(data_type: ItemType, id: u32) -> Seq<char> {
    item_type_slug(data_type) + "-"@ + decimal(id as nat)
}

/// Some mark in `marks` is for the entry of kind `data_type` and number `id`.
pub open spec fn is_marked(marks: Seq<Item>, data_type: ItemType, id: u32) -> bool {
    exists|k: int| 0 <= k < marks.len() && #[trigger] marks[k] == Item { data_type, id }
}

/// The entry that a record of kind `data_type` gives, done when a mark says so.
pub open spec fn entry_of(data_type: ItemType, r: RecordView, marks: Seq<Item>) -> EntryView {
    EntryView {
        completed: is_marked(marks, data_type, r.id),
        data_type,
        id: r.id,
        name: r.name,
        url: r.url,
        worlds: parse_worlds(r.worlds_str),
    }
}

impl Record {
    /// The worlds in which the item can be found.
    pub fn worlds(&self) -> (r: Vec<World>)
        ensures
            r@ == parse_worlds(self.worlds_str@),
    {
        worlds_from_str(self.worlds_str.as_str())
    }
}

impl Entry {
    /// The entry of kind `data_type` for a catalog record, not yet done.
    pub fn from_record(data_type: ItemType, record: &Record) -> (r: Entry)
        ensures
            r@ == entry_of(data_type, record@, Seq::empty()),
    {
        Entry {
            completed: false,
            data_type,
            id: record.id,
            name: record.name.clone(),
            url: record.url.clone(),
            worlds: record.worlds(),
        }
    }

    /// The id of the entry in the page; entries of different kind or number
    /// get different ids.
    pub fn id(&self) -> (r: String)
        ensures
            r@ == entry_key(self.data_type, self.id),
    {
        let mut s = String::from_str(self.data_type.url_slug());
        proof {
            reveal_strlit("-");
        }
        s.append("-");
        push_decimal(&mut s, self.id);
        s
    }
}

impl Item {
    /// The mark that records `entry` as done.
    pub fn from_entry(entry: &Entry) -> (r: Item)
        ensures
            r == (Item { data_type: entry.data_type, id: entry.id }),
    {
        Item { data_type: entry.data_type, id: entry.id }
    }
}

/// Whether some mark in `marks` is for the entry of kind `data_type` and
/// number `id`.
pub fn marked(marks: &[Item], data_type: ItemType, id: u32) -> (r: bool)
    ensures
        r == is_marked(marks@, data_type, id),
{
    let mut k: usize = 0;
    while k < marks.len()
        invariant
            k <= marks@.len(),
            forall|j: int| 0 <= j < k ==> marks@[j] != (Item { data_type, id }),
        decreases marks@.len() - k,
    {
        if marks[k].data_type == data_type && marks[k].id == id {
            assert(marks@[k as int] == Item { data_type, id });
            return true;
        }
        k = k + 1;
    }
    false
}

proof fn lemma_slug_injective(a: ItemType, b: ItemType)
    requires
        item_type_slug(a) == item_type_slug(b),
    ensures
        a == b,
{
    reveal_strlit("amulet");
    reveal_strlit("armor-set");
    reveal_strlit("body-armor");
    reveal_strlit("emote");
    reveal_strlit("hand-gun");
    reveal_strlit("head-armor");
    reveal_strlit("leg-armor");
    reveal_strlit("long-gun");
    reveal_strlit("melee-weapon");
    reveal_strlit("mod");
    reveal_strlit("ring");
    reveal_strlit("trait");
    assert("amulet"@.len() == 6);
    assert("armor-set"@.len() == 9);
    assert("body-armor"@.len() == 10);
    assert("emote"@.len() == 5);
    assert("hand-gun"@.len() == 8);
    assert("head-armor"@.len() == 10);
    assert("leg-armor"@.len() == 9);
    assert("long-gun"@.len() == 8);
    assert("melee-weapon"@.len() == 12);
    assert("mod"@.len() == 3);
    assert("ring"@.len() == 4);
    assert("trait"@.len() == 5);
    assert("armor-set"@[0] != "leg-armor"@[0]);
    assert("body-armor"@[0] != "head-armor"@[0]);
    assert("emote"@[0] != "trait"@[0]);
    assert("hand-gun"@[0] != "long-gun"@[0]);
}

proof fn lemma_decimal_digits(n: nat)
    ensures
        decimal(n).len() >= 1,
        forall|i: int| 0 <= i < decimal(n).len() ==> #[trigger] decimal(n)[i] != '-',
    decreases n,
{
    if n >= 10 {
        lemma_decimal_digits(n / 10);
        let f = decimal(n / 10);
        assert forall|i: int| 0 <= i < decimal(n).len() implies #[trigger] decimal(n)[i] != '-' by {
            if i < f.len() {
                assert(decimal(n)[i] == f[i]);
            }
        }
    }
}

proof fn lemma_decimal_injective(n: nat, m: nat)
    requires
        decimal(n) == decimal(m),
    ensures
        n == m,
    decreases n,
{
    lemma_decimal_digits(n);
    lemma_decimal_digits(m);
    if n >= 10 {
        lemma_decimal_digits(n / 10);
    }
    if m >= 10 {
        lemma_decimal_digits(m / 10);
    }
    let dn = decimal(n);
    assert(dn.last() == digit_char(n % 10));
    assert(decimal(m).last() == digit_char(m % 10));
    assert(n % 10 == m % 10);
    if n >= 10 && m >= 10 {
        assert(decimal(n / 10) =~= dn.drop_last());
        assert(decimal(m / 10) =~= decimal(m).drop_last());
        lemma_decimal_injective(n / 10, m / 10);
    }
}

/// Entries of different kind or number have different page ids.
pub proof fn lemma_entry_key_injective(a: ItemType, x: u32, b: ItemType, y: u32)
    requires
        entry_key(a, x) == entry_key(b, y),
    ensures
        a == b,
        x == y,
{
    let dx = decimal(x as nat);
    let dy = decimal(y as nat);
    let px = item_type_slug(a) + "-"@;
    let py = item_type_slug(b) + "-"@;
    let k = entry_key(a, x);
    reveal_strlit("-");
    lemma_decimal_digits(x as nat);
    lemma_decimal_digits(y as nat);
    assert(k == px + dx);
    assert(k == py + dy);
    if dx.len() < dy.len() {
        let p = k.len() - dx.len() - 1;
        assert(k[p] == px[px.len() - 1]);
        assert(k[p] == dy[p - py.len()]);
    } else if dy.len() < dx.len() {
        let p = k.len() - dy.len() - 1;
        assert(k[p] == py[py.len() - 1]);
        assert(k[p] == dx[p - px.len()]);
    }
    assert(dx =~= k.subrange(px.len() as int, k.len() as int));
    assert(dy =~= k.subrange(py.len() as int, k.len() as int));
    lemma_decimal_injective(x as nat, y as nat);
    assert(item_type_slug(a) =~= k.subrange(0, item_type_slug(a).len() as int));
    assert(item_type_slug(b) =~= k.subrange(0, item_type_slug(b).len() as int));
    lemma_slug_injective(a, b);
}

} // verus!
