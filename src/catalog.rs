//! Reading a catalog table: which rows make records, the number in the `ID`
//! column, and the order of records by name.
use crate::data::ItemType;
use crate::entry::{entries_view, entry_of, marked, records_view, Entry, EntryView, Item, Record, RecordView};
use crate::text::{less, lemma_name_le_transitive, lemma_name_lt_irreflexive, lemma_name_lt_transitive, name_lt};
use vstd::seq_lib::{to_multiset_build, to_multiset_contains};
use vstd::prelude::*;

verus! {

/// The header row that `csv::Reader::headers` reads from `data`, if it reads one.
pub uninterp spec fn csv_header_of(data: Seq<u8>) -> Option<Seq<Seq<char>>>;

/// The rows after the header that `csv::Reader::records` reads from `data`;
/// a row that it could not read is `None`.
pub uninterp spec fn csv_records_of(data: Seq<u8>) -> Seq<Option<Seq<Seq<char>>>>;

/// Relies on `csv::Reader::headers` (default reader: a header row, no
/// trimming): the header of the table, or `None` where it cannot be read.
#[verifier::external_body]
fn csv_header(data: &[u8]) -> (r: Option<Vec<String>>)
    ensures
        r.deep_view() == csv_header_of(data@),
{
    match csv::Reader::from_reader(data).headers() {
        Ok(h) => Some(h.iter().map(String::from).collect()),
        Err(_) => None,
    }
}

/// Relies on `csv::Reader::records` (default reader): each row after the
/// header, or `None` for a row that could not be read.
#[verifier::external_body]
fn csv_records(data: &[u8]) -> (r: Vec<Option<Vec<String>>>)
    ensures
        r.deep_view() == csv_records_of(data@),
{
    csv::Reader::from_reader(data).records().map(
        |row| row.ok().map(|rec| rec.iter().map(String::from).collect()),
    ).collect()
}

/// The value of one digit in base `radix` (10 or 16, either case of letter).
pub open spec fn digit_value(c: char, radix: nat) -> Option<nat> {
    let u = c as u32;
    if 48 <= u <= 57 {
        Some((u - 48) as nat)
    } else if radix == 16 && 97 <= u <= 102 {
        Some((u - 87) as nat)
    } else if radix == 16 && 65 <= u <= 70 {
        Some((u - 55) as nat)
    } else {
        None
    }
}

/// The number that a run of digits in base `radix` writes; an empty run is 0.
pub open spec fn digits_value(s: Seq<char>, radix: nat) -> Option<nat>
    decreases s.len(),
{
    if s.len() == 0 {
        Some(0)
    } else {
        match (digits_value(s.drop_last(), radix), digit_value(s.last(), radix)) {
            (Some(v), Some(d)) => Some(v * radix + d),
            _ => None,
        }
    }
}

/// An unsigned 32-bit number in base `radix`: an optional `+`, then at least
/// one digit, with a value that fits.
pub open spec fn radix_value(s: Seq<char>, radix: nat) -> Option<u32> {
    let body = if s.len() > 0 && s[0] == '+' {
        s.drop_first()
    } else {
        s
    };
    if body.len() == 0 {
        None
    } else {
        match digits_value(body, radix) {
            Some(v) => if v <= u32::MAX {
                Some(v as u32)
            } else {
                None
            },
            None => None,
        }
    }
}

/// The number in a whole-number cell: hexadecimal after a leading `0x`, else
/// decimal.
pub open spec fn number_value(s: Seq<char>) -> Option<u32> {
    if s.len() >= 2 && s[0] == '0' && s[1] == 'x' {
        radix_value(s.subrange(2, s.len() as int), 16)
    } else {
        radix_value(s, 10)
    }
}

fn parse_radix(s: &str, from: usize, n: usize, radix: u32) -> (r: Option<u32>)
    requires
        n == s@.len(),
        from <= n,
        radix == 10 || radix == 16,
    ensures
        r == radix_value(s@.subrange(from as int, n as int), radix as nat),
{
    let ghost t = s@.subrange(from as int, n as int);
    let mut b = from;
    if from < n && s.get_char(from) == '+' {
        b = from + 1;
    }
    proof {
        if from < n && s@[from as int] == '+' {
            assert(t.drop_first() =~= s@.subrange(b as int, n as int));
        } else {
            assert(t =~= s@.subrange(b as int, n as int));
        }
    }
    let mut v: u64 = 0;
    let mut bad = false;
    let mut i = b;
    assert(s@.subrange(b as int, b as int) =~= Seq::<char>::empty());
    while i < n
        invariant
            n == s@.len(),
            b <= i <= n,
            radix == 10 || radix == 16,
            !bad ==> digits_value(s@.subrange(b as int, i as int), radix as nat) == Some(v as nat)
                && v <= u32::MAX,
            bad ==> match digits_value(s@.subrange(b as int, i as int), radix as nat) {
                Some(p) => p > u32::MAX,
                None => true,
            },
        decreases n - i,
    {
        let c = s.get_char(i);
        let ghost pre = s@.subrange(b as int, i as int);
        proof {
            assert(s@.subrange(b as int, i + 1).drop_last() =~= pre);
            assert(s@.subrange(b as int, i + 1).last() == c);
        }
        let u = c as u32;
        let d: Option<u32> = if 48 <= u && u <= 57 {
            Some(u - 48)
        } else if radix == 16 && 97 <= u && u <= 102 {
            Some(u - 87)
        } else if radix == 16 && 65 <= u && u <= 70 {
            Some(u - 55)
        } else {
            None
        };
        proof {
            match d {
                Some(x) => assert(digit_value(c, radix as nat) == Some(x as nat)),
                None => assert(digit_value(c, radix as nat) is None),
            }
            if bad {
                match digits_value(pre, radix as nat) {
                    Some(p) => {
                        if let Some(x) = digit_value(c, radix as nat) {
                            assert(p * (radix as nat) + x >= p) by (nonlinear_arith)
                                requires
                                    radix >= 1,
                            ;
                        }
                    },
                    None => {},
                }
            }
        }
        if !bad {
            match d {
                Some(x) => {
                    assert(v * (radix as u64) <= 4294967295 * 16) by (nonlinear_arith)
                        requires
                            v <= 4294967295,
                            radix <= 16,
                    ;
                    let nv = v * (radix as u64) + (x as u64);
                    if nv > 4294967295 {
                        bad = true;
                    } else {
                        v = nv;
                    }
                },
                None => {
                    bad = true;
                },
            }
        }
        i = i + 1;
    }
    if bad || b == n {
        None
    } else {
        Some(v as u32)
    }
}

/// The number in a whole-number cell, as `number_value` reads it.
pub fn parse_number(s: &str) -> (r: Option<u32>)
    ensures
        r == number_value(s@),
{
    let n = s.unicode_len();
    if n >= 2 && s.get_char(0) == '0' && s.get_char(1) == 'x' {
        parse_radix(s, 2, n, 16)
    } else {
        proof {
            assert(s@.subrange(0, n as int) =~= s@);
        }
        parse_radix(s, 0, n, 10)
    }
}

/// Position `i` holds the one column of `header` named `name`.
pub open spec fn is_only_column(header: Seq<Seq<char>>, name: Seq<char>, i: int) -> bool {
    0 <= i < header.len() && header[i] == name && forall|k: int|
        0 <= k < header.len() && k != i ==> header[k] != name
}

/// The column of `header` named `name`, if exactly one is.
pub open spec fn column_of(header: Seq<Seq<char>>, name: Seq<char>) -> Option<int> {
    if exists|i: int| #[trigger] is_only_column(header, name, i) {
        Some(choose|i: int| #[trigger] is_only_column(header, name, i))
    } else {
        None
    }
}

/// The row has a cell in the column `name`.
pub open spec fn has_text(header: Seq<Seq<char>>, row: Seq<Seq<char>>, name: Seq<char>) -> bool {
    match column_of(header, name) {
        Some(c) => c < row.len(),
        None => false,
    }
}

/// The row has a whole number in the column `name`.
pub open spec fn has_number(header: Seq<Seq<char>>, row: Seq<Seq<char>>, name: Seq<char>) -> bool {
    match column_of(header, name) {
        Some(c) => c < row.len() && number_value(row[c]) is Some,
        None => false,
    }
}

/// The row's cell in the column `name`, where there is one, is empty or a
/// whole number.
pub open spec fn may_have_number(
    header: Seq<Seq<char>>,
    row: Seq<Seq<char>>,
    name: Seq<char>,
) -> bool {
    match column_of(header, name) {
        Some(c) => c >= row.len() || row[c].len() == 0 || number_value(row[c]) is Some,
        None => true,
    }
}

/// The row has what a record of kind `data_type` needs besides its id, name,
/// address and worlds: the columns that the kind always has, with whole
/// numbers where the kind counts something. Decimal cells are not read.
pub open spec fn row_fits(data_type: ItemType, header: Seq<Seq<char>>, row: Seq<Seq<char>>) -> bool {
    match data_type {
        ItemType::Amulet | ItemType::Mod => true,
        ItemType::ArmorSet => has_text(header, row, "Set Bonus"@),
        ItemType::BodyArmor | ItemType::HeadArmor | ItemType::LegArmor => has_text(
            header,
            row,
            "Armor Skill"@,
        ),
        ItemType::Emote | ItemType::Ring => has_text(header, row, "Description"@) && has_text(
            header,
            row,
            "Location"@,
        ),
        ItemType::Trait => has_text(header, row, "Description"@),
        ItemType::HandGun | ItemType::LongGun => has_text(header, row, "RPS"@) && has_number(
            header,
            row,
            "Base Damage"@,
        ) && has_number(header, row, "Crit Chance"@) && has_number(header, row, "Ideal Range"@)
            && has_number(header, row, "Magazine"@) && has_number(header, row, "Max Ammo"@)
            && may_have_number(header, row, "Max Damage"@),
        ItemType::MeleeWeapon => has_number(header, row, "Base Damage"@) && may_have_number(
            header,
            row,
            "Max Damage"@,
        ),
    }
}

/// Where the columns that a record needs stand in a table.
#[derive(Clone, Copy)]
pub struct Columns {
    pub id: usize,
    pub name: usize,
    pub url: usize,
    pub worlds: usize,
}

/// The columns of a record in a table with this header, if it has them all.
pub open spec fn columns_of(header: Seq<Seq<char>>) -> Option<Columns> {
    match (
        column_of(header, "ID"@),
        column_of(header, "Name"@),
        column_of(header, "Url"@),
        column_of(header, "Worlds"@),
    ) {
        (Some(i), Some(n), Some(u), Some(w)) => Some(
            Columns { id: i as usize, name: n as usize, url: u as usize, worlds: w as usize },
        ),
        _ => None,
    }
}

/// The record that a row gives under the given columns: the row must reach
/// every column and its `ID` cell must hold a number.
pub open spec fn record_of_row(c: Columns, row: Seq<Seq<char>>) -> Option<RecordView> {
    if c.id < row.len() && c.name < row.len() && c.url < row.len() && c.worlds < row.len() {
        match number_value(row[c.id as int]) {
            Some(id) => Some(
                RecordView {
                    id,
                    name: row[c.name as int],
                    url: row[c.url as int],
                    worlds_str: row[c.worlds as int],
                },
            ),
            None => None,
        }
    } else {
        None
    }
}

/// The records of kind `data_type` that the rows of a table give, in table
/// order. A table whose header cannot be read or lacks a needed column gives
/// none, and so does a row that cannot be read or makes no record.
pub open spec fn kept_records(
    data_type: ItemType,
    header: Option<Seq<Seq<char>>>,
    rows: Seq<Option<Seq<Seq<char>>>>,
) -> Seq<RecordView>
    decreases rows.len(),
{
    if rows.len() == 0 {
        Seq::empty()
    } else {
        let front = kept_records(data_type, header, rows.drop_last());
        match (header, rows.last()) {
            (Some(h), Some(row)) => match columns_of(h) {
                Some(c) => if row_fits(data_type, h, row) {
                    match record_of_row(c, row) {
                        Some(r) => front.push(r),
                        None => front,
                    }
                } else {
                    front
                },
                None => front,
            },
            _ => front,
        }
    }
}

/// `x` placed into `s` after every record whose name does not come after
/// its own.
pub open spec fn insert_by_name(s: Seq<RecordView>, x: RecordView) -> Seq<RecordView>
    decreases s.len(),
{
    if s.len() == 0 || !name_lt(x.name, s.last().name) {
        s.push(x)
    } else {
        insert_by_name(s.drop_last(), x).push(s.last())
    }
}

/// The records ordered by name; records of equal name keep their order.
pub open spec fn sort_by_name(s: Seq<RecordView>) -> Seq<RecordView>
    decreases s.len(),
{
    if s.len() == 0 {
        Seq::empty()
    } else {
        insert_by_name(sort_by_name(s.drop_last()), s.last())
    }
}

/// No record comes before an earlier one by name.
pub open spec fn sorted_by_name(s: Seq<RecordView>) -> bool {
    forall|i: int, j: int|
        0 <= i < j < s.len() ==> !name_lt(#[trigger] s[j].name, #[trigger] s[i].name)
}

proof fn lemma_insert_sorted(s: Seq<RecordView>, x: RecordView)
    requires
        sorted_by_name(s),
    ensures
        sorted_by_name(insert_by_name(s, x)),
        insert_by_name(s, x).to_multiset() == s.to_multiset().insert(x),
    decreases s.len(),
{
    if s.len() == 0 || !name_lt(x.name, s.last().name) {
        let r = s.push(x);
        assert forall|i: int, j: int| 0 <= i < j < r.len() implies !name_lt(
            #[trigger] r[j].name,
            #[trigger] r[i].name,
        ) by {
            if j == s.len() {
                if i < s.len() - 1 {
                    assert(!name_lt(s[s.len() - 1].name, s[i].name));
                    lemma_name_le_transitive(s[i].name, s[s.len() - 1].name, x.name);
                }
            } else {
                assert(r[i] == s[i] && r[j] == s[j]);
            }
        }
        to_multiset_build(s, x);
    } else {
        let f = s.drop_last();
        let l = s.last();
        assert(s =~= f.push(l));
        assert forall|i: int, j: int| 0 <= i < j < f.len() implies !name_lt(
            #[trigger] f[j].name,
            #[trigger] f[i].name,
        ) by {
            assert(f[i] == s[i] && f[j] == s[j]);
        }
        lemma_insert_sorted(f, x);
        let t = insert_by_name(f, x);
        let r = t.push(l);
        assert forall|i: int| 0 <= i < t.len() implies !name_lt(l.name, #[trigger] t[i].name) by {
            let y = t[i];
            assert(t.contains(y));
            to_multiset_contains(t, y);
            if y == x {
                if name_lt(l.name, x.name) {
                    lemma_name_lt_transitive(x.name, l.name, x.name);
                    lemma_name_lt_irreflexive(x.name);
                }
            } else {
                assert(f.to_multiset().count(y) > 0);
                to_multiset_contains(f, y);
                let k = choose|k: int| 0 <= k < f.len() && f[k] == y;
                assert(s[k] == y);
                assert(s[s.len() - 1] == l);
            }
        }
        assert forall|i: int, j: int| 0 <= i < j < r.len() implies !name_lt(
            #[trigger] r[j].name,
            #[trigger] r[i].name,
        ) by {
            if j == t.len() {
                assert(r[i] == t[i]);
            } else {
                assert(r[i] == t[i] && r[j] == t[j]);
            }
        }
        to_multiset_build(t, l);
        to_multiset_build(f, l);
        assert(r.to_multiset() =~= s.to_multiset().insert(x));
    }
}

proof fn lemma_sort_sorted(s: Seq<RecordView>)
    ensures
        sorted_by_name(sort_by_name(s)),
        sort_by_name(s).to_multiset() == s.to_multiset(),
    decreases s.len(),
{
    if s.len() == 0 {
        assert(sort_by_name(s) =~= s);
    } else {
        let f = s.drop_last();
        lemma_sort_sorted(f);
        lemma_insert_sorted(sort_by_name(f), s.last());
        assert(s =~= f.push(s.last()));
        to_multiset_build(f, s.last());
    }
}

/// The records of a catalog table come ordered by name, and they are the
/// records that its rows give, each as often as it occurs.
pub proof fn lemma_catalog_sorted(data_type: ItemType, data: Seq<u8>)
    ensures
        sorted_by_name(catalog_records(data_type, data)),
        catalog_records(data_type, data).to_multiset() == kept_records(
            data_type,
            csv_header_of(data),
            csv_records_of(data),
        ).to_multiset(),
{
    lemma_sort_sorted(kept_records(data_type, csv_header_of(data), csv_records_of(data)));
}

/// The records of kind `data_type` in a catalog table, ordered by name.
pub open spec fn catalog_records(data_type: ItemType, data: Seq<u8>) -> Seq<RecordView> {
    sort_by_name(kept_records(data_type, csv_header_of(data), csv_records_of(data)))
}

proof fn lemma_insert_at(s: Seq<RecordView>, x: RecordView, j: int)
    requires
        0 <= j <= s.len(),
        forall|k: int| j <= k < s.len() ==> name_lt(x.name, #[trigger] s[k].name),
        j == 0 || !name_lt(x.name, s[j - 1].name),
    ensures
        insert_by_name(s, x) == s.insert(j, x),
    decreases s.len(),
{
    if j == s.len() {
        assert(s.insert(j, x) =~= s.push(x));
    } else {
        assert(name_lt(x.name, s[s.len() - 1].name));
        let f = s.drop_last();
        assert forall|k: int| j <= k < f.len() implies name_lt(x.name, #[trigger] f[k].name) by {
            assert(f[k] == s[k]);
        }
        lemma_insert_at(f, x, j);
        assert(f.insert(j, x).push(s.last()) =~= s.insert(j, x));
    }
}

/// Places `x` into `out` as `insert_by_name` does.
fn insert_record(out: &mut Vec<Record>, x: Record)
    ensures
        records_view(final(out)@) == insert_by_name(records_view(old(out)@), x@),
{
    let ghost s = records_view(out@);
    let mut j = out.len();
    while j > 0 && less(x.name.as_str(), out[j - 1].name.as_str())
        invariant
            j <= out@.len(),
            s == records_view(out@),
            forall|k: int| j <= k < s.len() ==> name_lt(x@.name, #[trigger] s[k].name),
        decreases j,
    {
        j = j - 1;
    }
    proof {
        lemma_insert_at(s, x@, j as int);
    }
    out.insert(j, x);
    assert(records_view(out@) =~= s.insert(j as int, x@));
}

/// The column of `header` named `name`, if exactly one is.
fn find_column(header: &Vec<String>, name: &str) -> (r: Option<usize>)
    ensures
        match r {
            Some(i) => column_of(header.deep_view(), name@) == Some(i as int),
            None => column_of(header.deep_view(), name@) is None,
        },
{
    let ghost h = header.deep_view();
    let mut found: Option<usize> = None;
    let mut i: usize = 0;
    while i < header.len()
        invariant
            h == header.deep_view(),
            i <= h.len(),
            match found {
                Some(j) => j < i && h[j as int] == name@ && forall|k: int|
                    0 <= k < i && k != j ==> h[k] != name@,
                None => forall|k: int| 0 <= k < i ==> h[k] != name@,
            },
        decreases h.len() - i,
    {
        if crate::text::same(header[i].as_str(), name) {
            match found {
                Some(j) => {
                    assert(h[i as int] == name@);
                    assert(!exists|k: int| #[trigger] is_only_column(h, name@, k)) by {
                        if exists|k: int| #[trigger] is_only_column(h, name@, k) {
                            let k = choose|k: int| #[trigger] is_only_column(h, name@, k);
                            if k != j as int {
                                assert(h[j as int] == name@);
                            } else {
                                assert(h[i as int] == name@);
                            }
                        }
                    }
                    return None;
                },
                None => {
                    found = Some(i);
                },
            }
        }
        i = i + 1;
    }
    match found {
        Some(j) => {
            assert(is_only_column(h, name@, j as int));
        },
        None => {
            assert(!exists|k: int| #[trigger] is_only_column(h, name@, k));
        },
    }
    found
}

/// Whether the row has a cell in the column `name`.
fn text_cell(header: &Vec<String>, row: &Vec<String>, name: &str) -> (r: bool)
    ensures
        r == has_text(header.deep_view(), row.deep_view(), name@),
{
    match find_column(header, name) {
        Some(c) => c < row.len(),
        None => false,
    }
}

/// Whether the row has a whole number in the column `name`.
fn number_cell(header: &Vec<String>, row: &Vec<String>, name: &str) -> (r: bool)
    ensures
        r == has_number(header.deep_view(), row.deep_view(), name@),
{
    match find_column(header, name) {
        Some(c) => c < row.len() && parse_number(row[c].as_str()).is_some(),
        None => false,
    }
}

/// Whether the row's cell in the column `name`, where there is one, is empty
/// or a whole number.
fn optional_number_cell(header: &Vec<String>, row: &Vec<String>, name: &str) -> (r: bool)
    ensures
        r == may_have_number(header.deep_view(), row.deep_view(), name@),
{
    match find_column(header, name) {
        Some(c) => c >= row.len() || row[c].as_str().unicode_len() == 0 || parse_number(
            row[c].as_str(),
        ).is_some(),
        None => true,
    }
}

/// Whether the row has what a record of kind `data_type` needs besides its
/// id, name, address and worlds.
fn fits_kind(data_type: ItemType, header: &Vec<String>, row: &Vec<String>) -> (r: bool)
    ensures
        r == row_fits(data_type, header.deep_view(), row.deep_view()),
{
    match data_type {
        ItemType::Amulet | ItemType::Mod => true,
        ItemType::ArmorSet => text_cell(header, row, "Set Bonus"),
        ItemType::BodyArmor | ItemType::HeadArmor | ItemType::LegArmor => text_cell(
            header,
            row,
            "Armor Skill",
        ),
        ItemType::Emote | ItemType::Ring => text_cell(header, row, "Description") && text_cell(
            header,
            row,
            "Location",
        ),
        ItemType::Trait => text_cell(header, row, "Description"),
        ItemType::HandGun | ItemType::LongGun => text_cell(header, row, "RPS") && number_cell(
            header,
            row,
            "Base Damage",
        ) && number_cell(header, row, "Crit Chance") && number_cell(header, row, "Ideal Range")
            && number_cell(header, row, "Magazine") && number_cell(header, row, "Max Ammo")
            && optional_number_cell(header, row, "Max Damage"),
        ItemType::MeleeWeapon => number_cell(header, row, "Base Damage") && optional_number_cell(
            header,
            row,
            "Max Damage",
        ),
    }
}

/// The columns of a record in a table with this header, if it has them all.
fn find_columns(header: &Vec<String>) -> (r: Option<Columns>)
    ensures
        r == columns_of(header.deep_view()),
{
    match (
        find_column(header, "ID"),
        find_column(header, "Name"),
        find_column(header, "Url"),
        find_column(header, "Worlds"),
    ) {
        (Some(i), Some(n), Some(u), Some(w)) => Some(Columns { id: i, name: n, url: u, worlds: w }),
        _ => None,
    }
}

/// The record that a row gives under the given columns.
fn read_record(c: Columns, row: &Vec<String>) -> (r: Option<Record>)
    ensures
        match r {
            Some(rec) => record_of_row(c, row.deep_view()) == Some(rec@),
            None => record_of_row(c, row.deep_view()) is None,
        },
{
    let n = row.len();
    if c.id < n && c.name < n && c.url < n && c.worlds < n {
        match parse_number(row[c.id].as_str()) {
            Some(id) => Some(
                Record {
                    id,
                    name: row[c.name].clone(),
                    url: row[c.url].clone(),
                    worlds_str: row[c.worlds].clone(),
                },
            ),
            None => None,
        }
    } else {
        None
    }
}

/// The records of kind `data_type` in a catalog table in CSV, ordered by name.
pub fn catalog_items(data_type: ItemType, data: &[u8]) -> (r: Vec<Record>)
    ensures
        records_view(r@) == catalog_records(data_type, data@),
{
    let header = csv_header(data);
    let rows = csv_records(data);
    let cols = match &header {
        Some(h) => find_columns(h),
        None => None,
    };
    let ghost hv = header.deep_view();
    let ghost rv = rows.deep_view();
    let mut out: Vec<Record> = Vec::new();
    let mut i: usize = 0;
    while i < rows.len()
        invariant
            i <= rows@.len(),
            rv == rows.deep_view(),
            hv == header.deep_view(),
            match hv {
                Some(h) => cols == columns_of(h),
                None => cols is None,
            },
            records_view(out@) == sort_by_name(kept_records(data_type, hv, rv.subrange(0, i as int))),
        decreases rows@.len() - i,
    {
        let ghost before = rv.subrange(0, i as int);
        proof {
            assert(rv.subrange(0, i + 1).drop_last() =~= before);
            assert(rv.subrange(0, i + 1).last() == rv[i as int]);
        }
        match (cols, &header, &rows[i]) {
            (Some(c), Some(h), Some(row)) => {
                assert(rv[i as int] == Some(row.deep_view()));
                let rec = if fits_kind(data_type, h, row) {
                    read_record(c, row)
                } else {
                    None
                };
                match rec {
                    Some(rec) => {
                        let ghost k = kept_records(data_type, hv, before);
                        insert_record(&mut out, rec);
                        assert(kept_records(data_type, hv, rv.subrange(0, i + 1)) == k.push(rec@));
                        assert(k.push(rec@).drop_last() =~= k);
                    },
                    None => {
                        assert(kept_records(data_type, hv, rv.subrange(0, i + 1)) == kept_records(
                            data_type,
                            hv,
                            before,
                        ));
                    },
                }
            },
            _ => {
                assert(kept_records(data_type, hv, rv.subrange(0, i + 1)) == kept_records(
                    data_type,
                    hv,
                    before,
                ));
            },
        }
        i = i + 1;
    }
    assert(rv.subrange(0, rows@.len() as int) =~= rv);
    out
}

/// The checklist entries of a catalog table of kind `data_type`, ordered by
/// name, each done where a mark says so.
pub open spec fn catalog_entries(data_type: ItemType, data: Seq<u8>, marks: Seq<Item>) -> Seq<
    EntryView,
> {
    catalog_records(data_type, data).map_values(|r: RecordView| entry_of(data_type, r, marks))
}

/// The entries of a catalog table of kind `data_type`, with the marks in
/// `defaults` applied.
pub fn category_entries(data_type: ItemType, data: &[u8], defaults: &[Item]) -> (r: Vec<Entry>)
    ensures
        entries_view(r@) == catalog_entries(data_type, data@, defaults@),
{
    let items = catalog_items(data_type, data);
    let ghost recs = records_view(items@);
    let mut entries: Vec<Entry> = Vec::new();
    let mut i: usize = 0;
    while i < items.len()
        invariant
            i <= items@.len(),
            recs == records_view(items@),
            entries@.len() == i,
            entries_view(entries@) == recs.subrange(0, i as int).map_values(
                |r: RecordView| entry_of(data_type, r, defaults@),
            ),
        decreases items@.len() - i,
    {
        let mut e = Entry::from_record(data_type, &items[i]);
        if marked(defaults, data_type, e.id) {
            e.completed = true;
        }
        assert(recs[i as int] == items@[i as int]@);
        assert(e@ == entry_of(data_type, recs[i as int], defaults@));
        let ghost before = entries@;
        entries.push(e);
        assert forall|k: int| 0 <= k < i implies #[trigger] entries@[k]@ == entry_of(
            data_type,
            recs[k],
            defaults@,
        ) by {
            assert(entries@[k] == before[k]);
            assert(entries_view(before)[k] == before[k]@);
        }
        assert(entries_view(entries@) =~= recs.subrange(0, i + 1).map_values(
            |r: RecordView| entry_of(data_type, r, defaults@),
        ));
        i = i + 1;
    }
    assert(recs.subrange(0, items@.len() as int) =~= recs);
    entries
}

/// The amulets of the catalog, with the marks in `defaults` applied.
pub fn amulet_entries(data: &[u8], defaults: &[Item]) -> (r: Vec<Entry>)
    ensures
        entries_view(r@) == catalog_entries(ItemType::Amulet, data@, defaults@),
{
    category_entries(ItemType::Amulet, data, defaults)
}

/// The armor sets of the catalog, with the marks in `defaults` applied.
pub fn armor_set_entries(data: &[u8], defaults: &[Item]) -> (r: Vec<Entry>)
    ensures
        entries_view(r@) == catalog_entries(ItemType::ArmorSet, data@, defaults@),
{
    category_entries(ItemType::ArmorSet, data, defaults)
}

/// The body armor of the catalog, with the marks in `defaults` applied.
pub fn body_armor_entries(data: &[u8], defaults: &[Item]) -> (r: Vec<Entry>)
    ensures
        entries_view(r@) == catalog_entries(ItemType::BodyArmor, data@, defaults@),
{
    category_entries(ItemType::BodyArmor, data, defaults)
}

/// The emotes of the catalog, with the marks in `defaults` applied.
pub fn emote_entries(data: &[u8], defaults: &[Item]) -> (r: Vec<Entry>)
    ensures
        entries_view(r@) == catalog_entries(ItemType::Emote, data@, defaults@),
{
    category_entries(ItemType::Emote, data, defaults)
}

/// The hand guns of the catalog, with the marks in `defaults` applied.
pub fn hand_gun_entries(data: &[u8], defaults: &[Item]) -> (r: Vec<Entry>)
    ensures
        entries_view(r@) == catalog_entries(ItemType::HandGun, data@, defaults@),
{
    category_entries(ItemType::HandGun, data, defaults)
}

/// The head armor of the catalog, with the marks in `defaults` applied.
pub fn head_armor_entries(data: &[u8], defaults: &[Item]) -> (r: Vec<Entry>)
    ensures
        entries_view(r@) == catalog_entries(ItemType::HeadArmor, data@, defaults@),
{
    category_entries(ItemType::HeadArmor, data, defaults)
}

/// The leg armor of the catalog, with the marks in `defaults` applied.
pub fn leg_armor_entries(data: &[u8], defaults: &[Item]) -> (r: Vec<Entry>)
    ensures
        entries_view(r@) == catalog_entries(ItemType::LegArmor, data@, defaults@),
{
    category_entries(ItemType::LegArmor, data, defaults)
}

/// The long guns of the catalog, with the marks in `defaults` applied.
pub fn long_gun_entries(data: &[u8], defaults: &[Item]) -> (r: Vec<Entry>)
    ensures
        entries_view(r@) == catalog_entries(ItemType::LongGun, data@, defaults@),
{
    category_entries(ItemType::LongGun, data, defaults)
}

/// The melee weapons of the catalog, with the marks in `defaults` applied.
pub fn melee_weapon_entries(data: &[u8], defaults: &[Item]) -> (r: Vec<Entry>)
    ensures
        entries_view(r@) == catalog_entries(ItemType::MeleeWeapon, data@, defaults@),
{
    category_entries(ItemType::MeleeWeapon, data, defaults)
}

/// The mods of the catalog, with the marks in `defaults` applied.
pub fn mod_entries(data: &[u8], defaults: &[Item]) -> (r: Vec<Entry>)
    ensures
        entries_view(r@) == catalog_entries(ItemType::Mod, data@, defaults@),
{
    category_entries(ItemType::Mod, data, defaults)
}

/// The traits of the catalog, with the marks in `defaults` applied.
pub fn remnant_trait_entries(data: &[u8], defaults: &[Item]) -> (r: Vec<Entry>)
    ensures
        entries_view(r@) == catalog_entries(ItemType::Trait, data@, defaults@),
{
    category_entries(ItemType::Trait, data, defaults)
}

/// The rings of the catalog, with the marks in `defaults` applied.
pub fn ring_entries(data: &[u8], defaults: &[Item]) -> (r: Vec<Entry>)
    ensures
        entries_view(r@) == catalog_entries(ItemType::Ring, data@, defaults@),
{
    category_entries(ItemType::Ring, data, defaults)
}

/// The catalog tables in CSV, one for each kind of item.
pub struct RawCatalog {
    pub amulets: Vec<u8>,
    pub armor_sets: Vec<u8>,
    pub body_armor: Vec<u8>,
    pub emotes: Vec<u8>,
    pub hand_guns: Vec<u8>,
    pub head_armor: Vec<u8>,
    pub leg_armor: Vec<u8>,
    pub long_guns: Vec<u8>,
    pub melee_weapons: Vec<u8>,
    pub mods: Vec<u8>,
    pub rings: Vec<u8>,
    pub traits: Vec<u8>,
}

/// The whole checklist in the order it is shown, kind by kind.
pub open spec fn checklist(raw: RawCatalog, marks: Seq<Item>) -> Seq<EntryView> {
    catalog_entries(ItemType::Trait, raw.traits@, marks)
        + catalog_entries(ItemType::Amulet, raw.amulets@, marks)
        + catalog_entries(ItemType::ArmorSet, raw.armor_sets@, marks)
        + catalog_entries(ItemType::HeadArmor, raw.head_armor@, marks)
        + catalog_entries(ItemType::BodyArmor, raw.body_armor@, marks)
        + catalog_entries(ItemType::LegArmor, raw.leg_armor@, marks)
        + catalog_entries(ItemType::Emote, raw.emotes@, marks)
        + catalog_entries(ItemType::Ring, raw.rings@, marks)
        + catalog_entries(ItemType::HandGun, raw.hand_guns@, marks)
        + catalog_entries(ItemType::LongGun, raw.long_guns@, marks)
        + catalog_entries(ItemType::MeleeWeapon, raw.melee_weapons@, marks)
        + catalog_entries(ItemType::Mod, raw.mods@, marks)
}

/// The whole checklist from the catalog tables, with the marks in `completed`
/// applied.
pub fn restore_entries(raw: &RawCatalog, completed: &[Item]) -> (r: Vec<Entry>)
    ensures
        entries_view(r@) == checklist(*raw, completed@),
{
    let mut entries = category_entries(ItemType::Trait, raw.traits.as_slice(), completed);
    let mut more = category_entries(ItemType::Amulet, raw.amulets.as_slice(), completed);
    entries.append(&mut more);
    let mut more = category_entries(ItemType::ArmorSet, raw.armor_sets.as_slice(), completed);
    entries.append(&mut more);
    let mut more = category_entries(ItemType::HeadArmor, raw.head_armor.as_slice(), completed);
    entries.append(&mut more);
    let mut more = category_entries(ItemType::BodyArmor, raw.body_armor.as_slice(), completed);
    entries.append(&mut more);
    let mut more = category_entries(ItemType::LegArmor, raw.leg_armor.as_slice(), completed);
    entries.append(&mut more);
    let mut more = category_entries(ItemType::Emote, raw.emotes.as_slice(), completed);
    entries.append(&mut more);
    let mut more = category_entries(ItemType::Ring, raw.rings.as_slice(), completed);
    entries.append(&mut more);
    let mut more = category_entries(ItemType::HandGun, raw.hand_guns.as_slice(), completed);
    entries.append(&mut more);
    let mut more = category_entries(ItemType::LongGun, raw.long_guns.as_slice(), completed);
    entries.append(&mut more);
    let mut more = category_entries(ItemType::MeleeWeapon, raw.melee_weapons.as_slice(), completed);
    entries.append(&mut more);
    let mut more = category_entries(ItemType::Mod, raw.mods.as_slice(), completed);
    entries.append(&mut more);
    assert(entries_view(entries@) =~= checklist(*raw, completed@));
    entries
}

} // verus!
