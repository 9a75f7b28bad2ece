//! The bootstrap file: the catalogs with their columns and the rows that they
//! start with.

use vstd::prelude::*;

use crate::bootstrap::lines;
use crate::bootstrap::lines::{cut_trailing, split_lines};
use crate::bootstrap::values;
use crate::bootstrap::values::parse_insert_values;
use crate::search;
use crate::text;

verus! {

/// A column of a catalog: its name, and the name of its type.
#[derive(Clone, Debug, PartialEq, Eq)]
pub struct BkiColumn {
    pub name: String,
    pub column_type: String,
}

pub struct BkiColumnView {
    pub name: Seq<char>,
    pub column_type: Seq<char>,
}

impl View for BkiColumn {
    type V = BkiColumnView;

    open spec fn view(&self) -> BkiColumnView {
        BkiColumnView { name: self.name@, column_type: self.column_type@ }
    }
}

/// A catalog with its columns and rows.
#[derive(Clone, Debug, PartialEq, Eq)]
pub struct BkiTable {
    pub name: String,
    pub oid: u32,
    pub rowtype_oid: u32,
    pub columns: Vec<BkiColumn>,
    pub rows: Vec<Vec<Option<String>>>,
}

pub struct BkiTableView {
    pub name: Seq<char>,
    pub oid: u32,
    pub rowtype_oid: u32,
    pub columns: Seq<BkiColumnView>,
    pub rows: Seq<Seq<Option<Seq<char>>>>,
}

pub open spec fn rows_of(rows: Seq<Vec<Option<String>>>) -> Seq<Seq<Option<Seq<char>>>> {
    Seq::new(rows.len(), |i: int| values::row_texts(rows[i]@))
}

impl View for BkiTable {
    type V = BkiTableView;

    open spec fn view(&self) -> BkiTableView {
        BkiTableView {
            name: self.name@,
            oid: self.oid,
            rowtype_oid: self.rowtype_oid,
            columns: search::views(self.columns@),
            rows: rows_of(self.rows@),
        }
    }
}

/// An identifier of a catalog or of its row type.
pub open spec fn identifier(word: Seq<char>) -> Option<int> {
    text::parsed_int(word, 0, u32::MAX as int)
}

fn read_identifier(word: &Vec<char>) -> (r: Option<u32>)
    ensures
        match r {
            Some(n) => identifier(word@) == Some(n as int),
            None => identifier(word@) is None,
        },
{
    match text::parse_int(word, 0, u32::MAX as i64) {
        Some(n) => {
            proof {
                lemma_parsed_in_range(word@, 0, u32::MAX as int);
            }
            Some(n as u32)
        },
        None => None,
    }
}

pub(crate) proof fn lemma_parsed_in_range(s: Seq<char>, lo: int, hi: int)
    ensures
        text::parsed_int(s, lo, hi) matches Some(n) ==> lo <= n <= hi,
{
}

/// Where, from a place on, the word that announces a row type stands with a word
/// behind it.
pub open spec fn announced_from(words: Seq<Seq<char>>, i: int) -> Option<int>
    decreases words.len() - i,
{
    if i < 0 || i + 1 >= words.len() {
        None
    } else if words[i] == "rowtype_oid"@ {
        Some(i)
    } else {
        announced_from(words, i + 1)
    }
}

/// The identifier of the row type in the words of a heading: that behind the word
/// that announces it, or none.
pub open spec fn announced_rowtype(words: Seq<Seq<char>>) -> Option<int> {
    match announced_from(words, 0) {
        Some(i) => identifier(words[i + 1]),
        None => Some(0),
    }
}

fn read_rowtype(words: &Vec<Vec<char>>) -> (r: Option<u32>)
    ensures
        match r {
            Some(n) => announced_rowtype(search::views(words@)) == Some(n as int),
            None => announced_rowtype(search::views(words@)) is None,
        },
{
    let ghost all = search::views(words@);
    let total = words.len();
    let mut i: usize = 0;
    while i < total && i + 1 < total
        invariant
            i <= total,
            total == words@.len(),
            all == search::views(words@),
            announced_from(all, 0) == announced_from(all, i as int),
        decreases total - i,
    {
        assert(all[i as int] == words@[i as int]@);
        assert(all[i + 1] == words@[i + 1]@);
        if text::spells(&words[i], "rowtype_oid") {
            return read_identifier(&words[i + 1]);
        }
        i += 1;
    }
    Some(0)
}

/// The catalog that a line announces, yet without columns and rows.
pub open spec fn announced(line: Seq<char>) -> Option<BkiTableView> {
    let words = text::words(line);
    if words.len() < 3 {
        None
    } else {
        match (identifier(words[2]), announced_rowtype(words)) {
            (Some(oid), Some(rowtype_oid)) => Some(
                BkiTableView {
                    name: words[1],
                    oid: oid as u32,
                    rowtype_oid: rowtype_oid as u32,
                    columns: seq![],
                    rows: seq![],
                },
            ),
            _ => None,
        }
    }
}

fn read_heading(line: &Vec<char>) -> (r: Option<BkiTable>)
    ensures
        search::option_view(r) == announced(line@),
{
    let words = text::split_words(line);
    let ghost all = search::views(words@);
    assert(all.len() == words@.len());
    if words.len() < 3 {
        return None;
    }
    assert(all[1] == words@[1]@);
    assert(all[2] == words@[2]@);
    match (read_identifier(&words[2]), read_rowtype(&words)) {
        (Some(oid), Some(rowtype_oid)) => {
            let table = BkiTable {
                name: text::string_of(&words[1]),
                oid,
                rowtype_oid,
                columns: Vec::new(),
                rows: Vec::new(),
            };
            assert(table@.columns =~= seq![]);
            assert(table@.rows =~= seq![]);
            Some(table)
        },
        _ => None,
    }
}

/// The column that a line describes, if it describes one: a name, an equals sign
/// and the name of a type.
pub open spec fn described(line: Seq<char>) -> Option<BkiColumnView> {
    let words = text::words(lines::without_trailing(line, ','));
    if words.len() >= 3 && words[1] == "="@ {
        Some(BkiColumnView { name: words[0], column_type: words[2] })
    } else {
        None
    }
}

fn read_column(line: &Vec<char>) -> (r: Option<BkiColumn>)
    ensures
        search::option_view(r) == described(line@),
{
    let words = text::split_words(&cut_trailing(line, ','));
    let ghost all = search::views(words@);
    assert(all.len() == words@.len());
    if words.len() < 3 {
        return None;
    }
    assert(all[0] == words@[0]@);
    assert(all[1] == words@[1]@);
    assert(all[2] == words@[2]@);
    if !text::spells(&words[1], "=") {
        return None;
    }
    Some(
        BkiColumn {
            name: text::string_of(&words[0]),
            column_type: text::string_of(&words[2]),
        },
    )
}

/// How far the reading of the file is: the catalogs that are complete, the one
/// that is open, and whether its columns are being listed.
pub struct BkiScan {
    pub tables: Seq<BkiTableView>,
    pub open: Option<BkiTableView>,
    pub listing: bool,
}

impl BkiScan {
    pub open spec fn start() -> BkiScan {
        BkiScan { tables: seq![], open: None, listing: false }
    }

    /// With the open catalog complete.
    pub open spec fn closed_up(self) -> BkiScan {
        match self.open {
            Some(table) => BkiScan {
                tables: self.tables.push(table),
                open: None,
                listing: self.listing,
            },
            None => self,
        }
    }

    /// After a line among the columns.
    pub open spec fn after_column(self, line: Seq<char>) -> BkiScan {
        if line == "("@ {
            self
        } else if line == ")"@ {
            BkiScan { listing: false, ..self }
        } else {
            match (self.open, described(line)) {
                (Some(table), Some(column)) => BkiScan {
                    open: Some(
                        BkiTableView { columns: table.columns.push(column), ..table },
                    ),
                    ..self
                },
                _ => self,
            }
        }
    }

    /// After a line, unless the line is refused: one that announces a catalog
    /// without a numeric identifier, or one that inserts a row where no catalog
    /// is open or without parentheses.
    pub open spec fn after(self, line: Seq<char>) -> Option<BkiScan> {
        if self.listing {
            Some(self.after_column(line))
        } else if "create "@.is_prefix_of(line) {
            match announced(line) {
                Some(table) => Some(
                    BkiScan {
                        tables: self.closed_up().tables,
                        open: Some(table),
                        listing: true,
                    },
                ),
                None => None,
            }
        } else if "insert "@.is_prefix_of(line) {
            match (self.open, values::inserted(line)) {
                (Some(table), Some(row)) => Some(
                    BkiScan {
                        open: Some(BkiTableView { rows: table.rows.push(row), ..table }),
                        ..self
                    },
                ),
                _ => None,
            }
        } else if "close "@.is_prefix_of(line) {
            Some(self.closed_up())
        } else {
            Some(self)
        }
    }
}

/// How far the reading is after some lines.
pub open spec fn scanned(all: Seq<Seq<char>>) -> Option<BkiScan>
    decreases all.len(),
{
    if all.len() == 0 {
        Some(BkiScan::start())
    } else {
        match scanned(all.drop_last()) {
            Some(scan) => scan.after(all.last()),
            None => None,
        }
    }
}

/// The catalogs that a file holds, unless a line of it is refused.
pub open spec fn tables_in(contents: Seq<char>) -> Option<Seq<BkiTableView>> {
    match scanned(lines::trimmed_lines(contents)) {
        Some(scan) => Some(scan.closed_up().tables),
        None => None,
    }
}

proof fn lemma_refused(all: Seq<Seq<char>>, n: int)
    requires
        0 <= n <= all.len(),
        scanned(all.take(n)) is None,
    ensures
        scanned(all) is None,
    decreases all.len() - n,
{
    if n < all.len() {
        assert(all.take(n + 1).drop_last() =~= all.take(n));
        lemma_refused(all, n + 1);
    } else {
        assert(all.take(n) =~= all);
    }
}

/// The reading of a file, as it stands after some lines.
struct Reader {
    tables: Vec<BkiTable>,
    open: Option<BkiTable>,
    listing: bool,
}

impl Reader {
    spec fn scan(&self) -> BkiScan {
        BkiScan {
            tables: search::views(self.tables@),
            open: search::option_view(self.open),
            listing: self.listing,
        }
    }

    fn close_up(&mut self)
        ensures
            final(self).scan() == old(self).scan().closed_up(),
    {
        let ghost before = self.scan();
        match self.open.take() {
            Some(table) => {
                let ghost view = table@;
                self.tables.push(table);
                assert(self.scan().tables =~= before.tables.push(view));
            },
            None => {},
        }
    }

    fn take_column(&mut self, line: &Vec<char>)
        ensures
            final(self).scan() == old(self).scan().after_column(line@),
    {
        if text::spells(line, "(") {
            return ;
        }
        if text::spells(line, ")") {
            self.listing = false;
            return ;
        }
        let ghost before = self.scan();
        match read_column(line) {
            Some(column) => match self.open.take() {
                Some(table) => {
                    let mut table = table;
                    let ghost listed = table@.columns;
                    let ghost view = column@;
                    table.columns.push(column);
                    assert(table@.columns =~= listed.push(view));
                    self.open = Some(table);
                },
                None => {},
            },
            None => {},
        }
    }

    /// Takes a line, and tells whether it is accepted.
    fn take(&mut self, line: &Vec<char>) -> (accepted: bool)
        ensures
            match old(self).scan().after(line@) {
                Some(scan) => accepted && final(self).scan() == scan,
                None => !accepted,
            },
    {
        if self.listing {
            self.take_column(line);
            return true;
        }
        if text::begins_with(line, "create ") {
            match read_heading(line) {
                Some(table) => {
                    self.close_up();
                    self.open = Some(table);
                    self.listing = true;
                    return true;
                },
                None => return false,
            }
        }
        if text::begins_with(line, "insert ") {
            match (self.open.take(), parse_insert_values(line)) {
                (Some(table), Some(row)) => {
                    let mut table = table;
                    let ghost held = table@.rows;
                    let ghost view = values::row_texts(row@);
                    table.rows.push(row);
                    assert(table@.rows =~= held.push(view));
                    self.open = Some(table);
                    return true;
                },
                _ => return false,
            }
        }
        if text::begins_with(line, "close ") {
            self.close_up();
        }
        true
    }
}

/// Reads the catalogs that a file holds, unless a line of it is refused.
pub fn parse_bki(contents: &str) -> (r: Option<Vec<BkiTable>>)
    ensures
        match r {
            Some(tables) => tables_in(contents@) == Some(search::views(tables@)),
            None => tables_in(contents@) is None,
        },
{
    let found = split_lines(&text::chars_of(contents));
    let ghost all = search::views(found@);
    let mut reader = Reader { tables: Vec::new(), open: None, listing: false };
    let mut i: usize = 0;
    assert(reader.scan().tables =~= seq![]);
    assert(all.take(0) =~= seq![]);
    while i < found.len()
        invariant
            i <= found.len(),
            all == search::views(found@),
            all == lines::trimmed_lines(contents@),
            scanned(all.take(i as int)) == Some(reader.scan()),
        decreases found.len() - i,
    {
        assert(all.take(i + 1).drop_last() =~= all.take(i as int));
        assert(all.take(i + 1).last() == found@[i as int]@);
        if !reader.take(&found[i]) {
            proof {
                lemma_refused(all, i + 1);
            }
            return None;
        }
        i += 1;
    }
    assert(all.len() == found@.len());
    assert(all.take(i as int) =~= all);
    reader.close_up();
    Some(reader.tables)
}

} // verus!
