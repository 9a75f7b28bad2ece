//! What the rows of the bootstrap file hold in their columns.

use vstd::prelude::*;

use crate::bootstrap::bki::{BkiColumnView, BkiTable, BkiTableView};
use crate::bootstrap::schema;
use crate::bootstrap::values;
use crate::search;
use crate::text;
use crate::types::Oid;

verus! {

pub open spec fn column_named(name: Seq<char>) -> spec_fn(BkiColumnView) -> bool {
    |column: BkiColumnView| column.name == name
}

impl BkiTableView {
    /// Where a column stands.
    pub open spec fn place(self, name: Seq<char>) -> Option<int> {
        search::first_index(self.columns, column_named(name))
    }

    /// Whether the catalog has all columns of some names.
    pub open spec fn has_all(self, names: Seq<Seq<char>>) -> bool {
        forall|i: int| 0 <= i < names.len() ==> #[trigger] self.place(names[i]) is Some
    }

    /// The value of a row in a column, if there is one.
    pub open spec fn value(self, row: Seq<Option<Seq<char>>>, name: Seq<char>) -> Option<
        Seq<char>,
    > {
        match self.place(name) {
            Some(i) if i < row.len() => row[i],
            _ => None,
        }
    }

    /// The text of a row in a column: nothing, where there is no value.
    pub open spec fn text(self, row: Seq<Option<Seq<char>>>, name: Seq<char>) -> Seq<char> {
        match self.value(row, name) {
            Some(s) => s,
            None => seq![],
        }
    }
}

/// Where a column of a catalog stands.
pub fn column_index(table: &BkiTable, name: &str) -> (r: Option<usize>)
    ensures
        match r {
            Some(i) => table@.place(name@) == Some(i as int) && i < table@.columns.len(),
            None => table@.place(name@) is None,
        },
{
    let ghost all = table@.columns;
    let mut i: usize = 0;
    while i < table.columns.len()
        invariant
            i <= table.columns.len(),
            all == search::views(table.columns@),
            forall|j: int| 0 <= j < i ==> !column_named(name@)(#[trigger] all[j]),
        decreases table.columns.len() - i,
    {
        assert(all[i as int] == table.columns@[i as int]@);
        if text::same_text(table.columns[i].name.as_str(), name) {
            proof {
                search::first_index_at(all, column_named(name@), i as int);
            }
            return Some(i);
        }
        i += 1;
    }
    assert(all.len() == table.columns@.len());
    proof {
        search::first_index_none(all, column_named(name@));
    }
    None
}

/// Whether a catalog has all columns of some names.
pub fn has_columns(table: &BkiTable, names: &Vec<&'static str>) -> (r: bool)
    ensures
        r == table@.has_all(search::views(names@)),
{
    let ghost all = search::views(names@);
    let mut i: usize = 0;
    while i < names.len()
        invariant
            i <= names.len(),
            all == search::views(names@),
            forall|j: int| 0 <= j < i ==> #[trigger] table@.place(all[j]) is Some,
        decreases names.len() - i,
    {
        assert(all[i as int] == names@[i as int]@);
        if column_index(table, names[i]).is_none() {
            assert(table@.place(all[i as int]) is None);
            return false;
        }
        i += 1;
    }
    assert(all.len() == names@.len());
    true
}

/// The value of a row in a column, if there is one.
pub fn row_value<'a>(table: &BkiTable, row: &'a Vec<Option<String>>, name: &str) -> (r: Option<
    &'a str,
>)
    ensures
        match r {
            Some(s) => table@.value(values::row_texts(row@), name@) == Some(s@),
            None => table@.value(values::row_texts(row@), name@) is None,
        },
{
    match column_index(table, name) {
        Some(i) => if i < row.len() {
            assert(values::row_texts(row@)[i as int] == search::option_view(row@[i as int]));
            match &row[i] {
                Some(s) => Some(s.as_str()),
                None => None,
            }
        } else {
            None
        },
        None => None,
    }
}

/// The text of a row in a column: nothing, where there is no value.
pub fn str_value<'a>(table: &BkiTable, row: &'a Vec<Option<String>>, name: &str) -> (r: &'a str)
    ensures
        r@ == table@.text(values::row_texts(row@), name@),
{
    match row_value(table, row, name) {
        Some(s) => s,
        None => {
            proof {
                reveal_strlit("");
                assert(""@ =~= seq![]);
            }
            ""
        },
    }
}

/// The number that a value stands for, if it stands for one: nothing and a dash
/// are zero, and the length of a name has a name of its own.
pub open spec fn number(s: Seq<char>) -> Option<int> {
    if s.len() == 0 || s == "-"@ {
        Some(0)
    } else if s == "NAMEDATALEN"@ {
        Some(64)
    } else {
        text::parsed_int(s, i64::MIN as int, i64::MAX as int)
    }
}

pub fn parse_catalog_i64(s: &str) -> (r: Option<i64>)
    ensures
        match r {
            Some(n) => number(s@) == Some(n as int),
            None => number(s@) is None,
        },
{
    let chars = text::chars_of(s);
    if chars.len() == 0 || text::spells(&chars, "-") {
        return Some(0);
    }
    if text::spells(&chars, "NAMEDATALEN") {
        return Some(64);
    }
    text::parse_int(&chars, i64::MIN, i64::MAX)
}

/// The identifier that a value stands for, if it stands for one.
pub open spec fn identifier(s: Seq<char>) -> Option<u32> {
    match number(s) {
        Some(n) if 0 <= n <= u32::MAX => Some(n as u32),
        _ => None,
    }
}

pub fn parse_catalog_oid(s: &str) -> (r: Option<u32>)
    ensures
        r == identifier(s@),
{
    match parse_catalog_i64(s) {
        Some(n) => if 0 <= n && n <= u32::MAX as i64 {
            Some(n as u32)
        } else {
            None
        },
        None => None,
    }
}

/// A character by its first byte; the one with the number zero has a form of its
/// own.
pub open spec fn letter(s: Seq<char>) -> u8 {
    if s == "\\0"@ {
        0
    } else {
        schema::first_byte(s)
    }
}

pub fn catalog_char(s: &str) -> (r: u8)
    ensures
        r == letter(s@),
{
    if text::same_text(s, "\\0") {
        0
    } else {
        schema::leading_byte(s)
    }
}

/// The truth value that a value stands for, if it stands for one: nothing is
/// false.
pub open spec fn truth(s: Seq<char>) -> Option<bool> {
    if s == "t"@ || s == "true"@ {
        Some(true)
    } else if s == "f"@ || s == "false"@ || s.len() == 0 {
        Some(false)
    } else {
        None
    }
}

fn read_truth(s: &str) -> (r: Option<bool>)
    ensures
        r == truth(s@),
{
    let chars = text::chars_of(s);
    if text::spells(&chars, "t") || text::spells(&chars, "true") {
        Some(true)
    } else if text::spells(&chars, "f") || text::spells(&chars, "false") || chars.len() == 0 {
        Some(false)
    } else {
        None
    }
}

impl BkiTableView {
    /// The identifier in a column: none is zero.
    pub open spec fn oid_in(self, row: Seq<Option<Seq<char>>>, name: Seq<char>) -> Oid {
        match identifier(self.text(row, name)) {
            Some(n) => Oid(n),
            None => Oid(0),
        }
    }

    /// The number in a column, which has to lie between two others: none is zero.
    pub open spec fn number_in(
        self,
        row: Seq<Option<Seq<char>>>,
        name: Seq<char>,
        lo: int,
        hi: int,
    ) -> Option<int> {
        let n = match number(self.text(row, name)) {
            Some(n) => n,
            None => 0,
        };
        if lo <= n <= hi {
            Some(n)
        } else {
            None
        }
    }

    /// The truth value in a column.
    pub open spec fn truth_in(self, row: Seq<Option<Seq<char>>>, name: Seq<char>) -> Option<bool> {
        truth(self.text(row, name))
    }

    /// The character in a column.
    pub open spec fn letter_in(self, row: Seq<Option<Seq<char>>>, name: Seq<char>) -> u8 {
        letter(self.text(row, name))
    }

    /// The identifiers among the words in a column.
    pub open spec fn oids_in(self, row: Seq<Option<Seq<char>>>, name: Seq<char>) -> Seq<Oid> {
        identifiers(text::words(self.text(row, name)))
    }
}

/// The identifiers among some words.
pub open spec fn identifiers(words: Seq<Seq<char>>) -> Seq<Oid>
    decreases words.len(),
{
    if words.len() == 0 {
        seq![]
    } else {
        let before = identifiers(words.drop_last());
        match identifier(words.last()) {
            Some(n) => before.push(Oid(n)),
            None => before,
        }
    }
}

pub(crate) fn oid_value(table: &BkiTable, row: &Vec<Option<String>>, name: &str) -> (r: Oid)
    ensures
        r == table@.oid_in(values::row_texts(row@), name@),
{
    match parse_catalog_oid(str_value(table, row, name)) {
        Some(n) => Oid(n),
        None => Oid(0),
    }
}

fn value_between(
    table: &BkiTable,
    row: &Vec<Option<String>>,
    name: &str,
    lo: i64,
    hi: i64,
) -> (r: Option<i64>)
    ensures
        match r {
            Some(n) => lo <= n <= hi && table@.number_in(
                values::row_texts(row@),
                name@,
                lo as int,
                hi as int,
            ) == Some(n as int),
            None => table@.number_in(
                values::row_texts(row@),
                name@,
                lo as int,
                hi as int,
            ) is None,
        },
{
    let n = match parse_catalog_i64(str_value(table, row, name)) {
        Some(n) => n,
        None => 0,
    };
    if lo <= n && n <= hi {
        Some(n)
    } else {
        None
    }
}

pub(crate) fn i16_value(table: &BkiTable, row: &Vec<Option<String>>, name: &str) -> (r: Option<i16>)
    ensures
        match r {
            Some(n) => table@.number_in(
                values::row_texts(row@),
                name@,
                i16::MIN as int,
                i16::MAX as int,
            ) == Some(n as int),
            None => table@.number_in(
                values::row_texts(row@),
                name@,
                i16::MIN as int,
                i16::MAX as int,
            ) is None,
        },
{
    match value_between(table, row, name, i16::MIN as i64, i16::MAX as i64) {
        Some(n) => Some(n as i16),
        None => None,
    }
}

pub(crate) fn u16_value(table: &BkiTable, row: &Vec<Option<String>>, name: &str) -> (r: Option<u16>)
    ensures
        match r {
            Some(n) => table@.number_in(values::row_texts(row@), name@, 0, u16::MAX as int)
                == Some(n as int),
            None => table@.number_in(
                values::row_texts(row@),
                name@,
                0,
                u16::MAX as int,
            ) is None,
        },
{
    match value_between(table, row, name, 0, u16::MAX as i64) {
        Some(n) => Some(n as u16),
        None => None,
    }
}

pub(crate) fn i32_value(table: &BkiTable, row: &Vec<Option<String>>, name: &str) -> (r: Option<i32>)
    ensures
        match r {
            Some(n) => table@.number_in(
                values::row_texts(row@),
                name@,
                i32::MIN as int,
                i32::MAX as int,
            ) == Some(n as int),
            None => table@.number_in(
                values::row_texts(row@),
                name@,
                i32::MIN as int,
                i32::MAX as int,
            ) is None,
        },
{
    match value_between(table, row, name, i32::MIN as i64, i32::MAX as i64) {
        Some(n) => Some(n as i32),
        None => None,
    }
}

pub(crate) fn bool_value(table: &BkiTable, row: &Vec<Option<String>>, name: &str) -> (r: Option<bool>)
    ensures
        r == table@.truth_in(values::row_texts(row@), name@),
{
    read_truth(str_value(table, row, name))
}

pub(crate) fn char_value(table: &BkiTable, row: &Vec<Option<String>>, name: &str) -> (r: u8)
    ensures
        r == table@.letter_in(values::row_texts(row@), name@),
{
    catalog_char(str_value(table, row, name))
}

pub fn oid_vec_value(table: &BkiTable, row: &Vec<Option<String>>, name: &str) -> (r: Vec<Oid>)
    ensures
        r@ == table@.oids_in(values::row_texts(row@), name@),
{
    let words = text::split_words(&text::chars_of(str_value(table, row, name)));
    let ghost all = search::views(words@);
    let mut r: Vec<Oid> = Vec::new();
    let mut i: usize = 0;
    assert(all.take(0) =~= seq![]);
    while i < words.len()
        invariant
            i <= words.len(),
            all == search::views(words@),
            r@ == identifiers(all.take(i as int)),
        decreases words.len() - i,
    {
        assert(all.take(i + 1).drop_last() =~= all.take(i as int));
        assert(all.take(i + 1).last() == words@[i as int]@);
        match parse_catalog_oid(text::string_of(&words[i]).as_str()) {
            Some(n) => r.push(Oid(n)),
            None => {},
        }
        i += 1;
    }
    assert(all.len() == words@.len());
    assert(all.take(i as int) =~= all);
    r
}

} // verus!
