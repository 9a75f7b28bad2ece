//! The description of the catalogs that are needed before any catalog can be
//! read: for each of them a list of columns.

use vstd::prelude::*;
use vstd::utf8;

use crate::bootstrap::lines;
use crate::bootstrap::lines::{cut_leading, cut_trailing, split_lines};
use crate::search;
use crate::text;

verus! {

/// The fields of the rest of a description, behind what is known of the field
/// that the rest begins in: fields end at commas that stand neither inside
/// braces nor between quotation marks of either sort. Space around a field does
/// not belong to it. What follows the last comma is a field if it is more than
/// space.
pub open spec fn fields_from(
    rest: Seq<char>,
    field: Seq<char>,
    depth: int,
    single: bool,
    double: bool,
) -> Seq<Seq<char>>
    decreases rest.len(),
{
    if rest.len() == 0 {
        if text::trim(field).len() > 0 {
            seq![text::trim(field)]
        } else {
            seq![]
        }
    } else {
        let c = rest[0];
        let behind = rest.drop_first();
        if c == '\'' && !double {
            fields_from(behind, field.push(c), depth, !single, double)
        } else if c == '"' && !single {
            fields_from(behind, field.push(c), depth, single, !double)
        } else if single || double {
            fields_from(behind, field.push(c), depth, single, double)
        } else if c == '{' {
            fields_from(behind, field.push(c), depth + 1, single, double)
        } else if c == '}' {
            fields_from(
                behind,
                field.push(c),
                if depth > 0 {
                    depth - 1
                } else {
                    0
                },
                single,
                double,
            )
        } else if c == ',' && depth == 0 {
            seq![text::trim(field)] + fields_from(behind, seq![], depth, single, double)
        } else {
            fields_from(behind, field.push(c), depth, single, double)
        }
    }
}

/// The fields of a description.
pub open spec fn fields_in(s: Seq<char>) -> Seq<Seq<char>> {
    fields_from(s, seq![], 0, false, false)
}

pub fn split_csvish(s: &Vec<char>) -> (r: Vec<Vec<char>>)
    ensures
        search::views(r@) == fields_in(s@),
{
    let mut found: Vec<Vec<char>> = Vec::new();
    let mut field: Vec<char> = Vec::new();
    let mut depth: usize = 0;
    let mut single = false;
    let mut double = false;
    let mut i: usize = 0;
    assert(s@.skip(0) =~= s@);
    assert(search::views(found@) =~= seq![]);
    assert(field@ =~= seq![]);
    assert(Seq::<Seq<char>>::empty() + fields_in(s@) =~= fields_in(s@));
    while i < s.len()
        invariant
            i <= s.len(),
            depth <= i,
            fields_in(s@) == search::views(found@) + fields_from(
                s@.skip(i as int),
                field@,
                depth as int,
                single,
                double,
            ),
        decreases s.len() - i,
    {
        let ghost rest = s@.skip(i as int);
        assert(rest.drop_first() =~= s@.skip(i + 1));
        let c = s[i];
        assert(rest[0] == c);
        if c == '\'' && !double {
            single = !single;
            field.push(c);
        } else if c == '"' && !single {
            double = !double;
            field.push(c);
        } else if single || double {
            field.push(c);
        } else if c == '{' {
            depth += 1;
            field.push(c);
        } else if c == '}' {
            if depth > 0 {
                depth -= 1;
            }
            field.push(c);
        } else if c == ',' && depth == 0 {
            let trimmed = text::trim_chars(&field);
            let ghost before = search::views(found@);
            let ghost behind = fields_from(rest.drop_first(), seq![], 0, false, false);
            found.push(trimmed);
            field = Vec::new();
            assert(field@ =~= seq![]);
            assert(search::views(found@) =~= before.push(trimmed@));
            assert(before + (seq![trimmed@] + behind) =~= before.push(trimmed@) + behind);
        } else {
            field.push(c);
        }
        i += 1;
    }
    assert(s@.skip(i as int).len() == 0);
    let trimmed = text::trim_chars(&field);
    let ghost before = search::views(found@);
    if trimmed.len() > 0 {
        found.push(trimmed);
        assert(search::views(found@) =~= before.push(trimmed@));
        assert(before + seq![trimmed@] =~= before.push(trimmed@));
    } else {
        assert(before + Seq::<Seq<char>>::empty() =~= before);
    }
    found
}

/// A number in a description: the length of a name, which has a name of its own,
/// or a numeral. Anything else is zero.
pub open spec fn number(s: Seq<char>) -> int {
    let word = text::trim(s);
    if word == "NAMEDATALEN"@ {
        64
    } else {
        match text::parsed_int(word, i64::MIN as int, i64::MAX as int) {
            Some(n) => n,
            None => 0,
        }
    }
}

pub fn parse_i64(s: &Vec<char>) -> (r: i64)
    ensures
        r == number(s@),
{
    let word = text::trim_chars(s);
    if text::spells(&word, "NAMEDATALEN") {
        return 64;
    }
    match text::parse_int(&word, i64::MIN, i64::MAX) {
        Some(n) => n,
        None => 0,
    }
}

/// A number in a description that has to lie between two others.
pub open spec fn number_between(s: Seq<char>, lo: int, hi: int) -> Option<int> {
    if lo <= number(s) <= hi {
        Some(number(s))
    } else {
        None
    }
}

fn read_between(s: &Vec<char>, lo: i64, hi: i64) -> (r: Option<i64>)
    ensures
        match r {
            Some(n) => number_between(s@, lo as int, hi as int) == Some(n as int) && lo <= n <= hi,
            None => number_between(s@, lo as int, hi as int) is None,
        },
{
    let n = parse_i64(s);
    if lo <= n && n <= hi {
        Some(n)
    } else {
        None
    }
}

/// A truth value in a description.
pub open spec fn truth(s: Seq<char>) -> Option<bool> {
    let word = text::trim(s);
    if word == "true"@ {
        Some(true)
    } else if word == "false"@ {
        Some(false)
    } else {
        None
    }
}

pub fn parse_bool(s: &Vec<char>) -> (r: Option<bool>)
    ensures
        r == truth(s@),
{
    let word = text::trim_chars(s);
    if text::spells(&word, "true") {
        Some(true)
    } else if text::spells(&word, "false") {
        Some(false)
    } else {
        None
    }
}

/// The first byte of a text, or zero.
pub open spec fn first_byte(s: Seq<char>) -> u8 {
    let bytes = utf8::encode_utf8(s);
    if bytes.len() > 0 {
        bytes[0]
    } else {
        0
    }
}

pub(crate) fn leading_byte(s: &str) -> (r: u8)
    ensures
        r == first_byte(s@),
{
    let bytes = s.as_bytes();
    if bytes.len() > 0 {
        bytes[0]
    } else {
        0
    }
}

/// A character in a description, by its first byte. The character with the number
/// zero has a form of its own.
pub open spec fn letter(s: Seq<char>) -> u8 {
    let word = text::trim(s);
    if word == "'\\0'"@ {
        0
    } else {
        first_byte(lines::without_trailing(lines::without_leading(word, '\''), '\''))
    }
}

pub fn parse_char(s: &Vec<char>) -> (r: u8)
    ensures
        r == letter(s@),
{
    let word = text::trim_chars(s);
    if text::spells(&word, "'\\0'") {
        return 0;
    }
    let bare = cut_trailing(&cut_leading(&word, '\''), '\'');
    leading_byte(text::string_of(&bare).as_str())
}

/// A column of a catalog as it is described.
#[derive(Clone, Debug, PartialEq, Eq)]
pub struct SchemaColumn {
    pub name: String,
    pub type_oid: u32,
    pub attlen: i16,
    pub attnum: i16,
    pub attndims: i32,
    pub attbyval: bool,
    pub attalign: u8,
    pub attstorage: u8,
    pub attnotnull: bool,
    pub attcollation: u32,
}

pub struct SchemaColumnView {
    pub name: Seq<char>,
    pub type_oid: u32,
    pub attlen: i16,
    pub attnum: i16,
    pub attndims: i32,
    pub attbyval: bool,
    pub attalign: u8,
    pub attstorage: u8,
    pub attnotnull: bool,
    pub attcollation: u32,
}

impl View for SchemaColumn {
    type V = SchemaColumnView;

    open spec fn view(&self) -> SchemaColumnView {
        SchemaColumnView {
            name: self.name@,
            type_oid: self.type_oid,
            attlen: self.attlen,
            attnum: self.attnum,
            attndims: self.attndims,
            attbyval: self.attbyval,
            attalign: self.attalign,
            attstorage: self.attstorage,
            attnotnull: self.attnotnull,
            attcollation: self.attcollation,
        }
    }
}

/// What a line that begins with a brace is: too short for a column, a column, or
/// refused for a field that is out of its range.
#[derive(Debug, PartialEq, Eq)]
pub enum SchemaLine {
    Short,
    Refused,
    Column(SchemaColumn),
}

pub enum SchemaLineView {
    Short,
    Refused,
    Column(SchemaColumnView),
}

impl View for SchemaLine {
    type V = SchemaLineView;

    open spec fn view(&self) -> SchemaLineView {
        match self {
            SchemaLine::Short => SchemaLineView::Short,
            SchemaLine::Refused => SchemaLineView::Refused,
            SchemaLine::Column(column) => SchemaLineView::Column(column@),
        }
    }
}

/// What stands between the braces of a line.
pub open spec fn between_braces(line: Seq<char>) -> Seq<char> {
    let cut = text::trim(
        lines::without_trailing(lines::without_trailing(line, '\\'), ','),
    );
    text::trim(lines::without_trailing(lines::without_leading(cut, '{'), '}'))
}

/// A name in a description, without braces and quotation marks.
pub open spec fn bare_name(s: Seq<char>) -> Seq<char> {
    let word = lines::without_trailing(lines::without_leading(text::trim(s), '{'), '}');
    lines::without_trailing(lines::without_leading(word, '"'), '"')
}

/// The column that some fields describe.
pub open spec fn column_of(fields: Seq<Seq<char>>) -> SchemaLineView {
    if fields.len() < 20 {
        SchemaLineView::Short
    } else {
        match (
            number_between(fields[2], 0, u32::MAX as int),
            number_between(fields[3], i16::MIN as int, i16::MAX as int),
            number_between(fields[4], i16::MIN as int, i16::MAX as int),
            number_between(fields[6], i32::MIN as int, i32::MAX as int),
            truth(fields[7]),
            truth(fields[11]),
            number_between(fields[19], 0, u32::MAX as int),
        ) {
            (
                Some(type_oid),
                Some(attlen),
                Some(attnum),
                Some(attndims),
                Some(attbyval),
                Some(attnotnull),
                Some(attcollation),
            ) => SchemaLineView::Column(
                SchemaColumnView {
                    name: bare_name(fields[1]),
                    type_oid: type_oid as u32,
                    attlen: attlen as i16,
                    attnum: attnum as i16,
                    attndims: attndims as i32,
                    attbyval,
                    attalign: letter(fields[8]),
                    attstorage: letter(fields[9]),
                    attnotnull,
                    attcollation: attcollation as u32,
                },
            ),
            _ => SchemaLineView::Refused,
        }
    }
}

/// What a line that begins with a brace is.
pub open spec fn line_of(line: Seq<char>) -> SchemaLineView {
    column_of(fields_in(between_braces(line)))
}

fn read_bare_name(s: &Vec<char>) -> (r: String)
    ensures
        r@ == bare_name(s@),
{
    let word = cut_trailing(&cut_leading(&text::trim_chars(s), '{'), '}');
    text::string_of(&cut_trailing(&cut_leading(&word, '"'), '"'))
}

fn read_fields(fields: &Vec<Vec<char>>) -> (r: SchemaLine)
    ensures
        r@ == column_of(search::views(fields@)),
{
    let ghost all = search::views(fields@);
    assert(all.len() == fields@.len());
    if fields.len() < 20 {
        return SchemaLine::Short;
    }
    assert forall|i: int| 0 <= i < all.len() implies #[trigger] all[i] == fields@[i]@ by {}
    match (
        read_between(&fields[2], 0, u32::MAX as i64),
        read_between(&fields[3], i16::MIN as i64, i16::MAX as i64),
        read_between(&fields[4], i16::MIN as i64, i16::MAX as i64),
        read_between(&fields[6], i32::MIN as i64, i32::MAX as i64),
        parse_bool(&fields[7]),
        parse_bool(&fields[11]),
        read_between(&fields[19], 0, u32::MAX as i64),
    ) {
        (
            Some(type_oid),
            Some(attlen),
            Some(attnum),
            Some(attndims),
            Some(attbyval),
            Some(attnotnull),
            Some(attcollation),
        ) => SchemaLine::Column(
            SchemaColumn {
                name: read_bare_name(&fields[1]),
                type_oid: type_oid as u32,
                attlen: attlen as i16,
                attnum: attnum as i16,
                attndims: attndims as i32,
                attbyval,
                attalign: parse_char(&fields[8]),
                attstorage: parse_char(&fields[9]),
                attnotnull,
                attcollation: attcollation as u32,
            },
        ),
        _ => SchemaLine::Refused,
    }
}

pub fn parse_schema_column(line: &Vec<char>) -> (r: SchemaLine)
    ensures
        r@ == line_of(line@),
{
    let cut = text::trim_chars(&cut_trailing(&cut_trailing(line, '\\'), ','));
    let inner = text::trim_chars(&cut_trailing(&cut_leading(&cut, '{'), '}'));
    let fields = split_csvish(&inner);
    read_fields(&fields)
}

/// The columns that are described for a catalog.
#[derive(Clone, Debug, PartialEq, Eq)]
pub struct SchemaTable {
    pub name: String,
    pub columns: Vec<SchemaColumn>,
}

pub struct SchemaTableView {
    pub name: Seq<char>,
    pub columns: Seq<SchemaColumnView>,
}

impl View for SchemaTable {
    type V = SchemaTableView;

    open spec fn view(&self) -> SchemaTableView {
        SchemaTableView { name: self.name@, columns: search::views(self.columns@) }
    }
}

pub open spec fn is_named(name: Seq<char>) -> spec_fn(SchemaTableView) -> bool {
    |table: SchemaTableView| table.name == name
}

/// How far the reading of the description is: the catalogs so far, and the one
/// whose columns follow.
pub struct SchemaScan {
    pub tables: Seq<SchemaTableView>,
    pub current: Option<Seq<char>>,
}

/// With a catalog of a name, a new one where there is none.
pub open spec fn with_table(tables: Seq<SchemaTableView>, name: Seq<char>) -> Seq<SchemaTableView> {
    match search::first_index(tables, is_named(name)) {
        Some(_) => tables,
        None => tables.push(SchemaTableView { name, columns: seq![] }),
    }
}

/// With a column behind those of the catalog of a name.
pub open spec fn with_column(
    tables: Seq<SchemaTableView>,
    name: Seq<char>,
    column: SchemaColumnView,
) -> Seq<SchemaTableView> {
    let here = with_table(tables, name);
    match search::first_index(here, is_named(name)) {
        Some(i) => here.update(
            i,
            SchemaTableView { name, columns: here[i].columns.push(column) },
        ),
        None => here,
    }
}

/// The name that a line begins the description of.
pub open spec fn begun(line: Seq<char>) -> Option<Seq<char>> {
    if "#define Schema_"@.is_prefix_of(line) {
        Some(text::trim(line.skip("#define Schema_"@.len() as int)))
    } else {
        None
    }
}

impl SchemaScan {
    pub open spec fn start() -> SchemaScan {
        SchemaScan { tables: seq![], current: None }
    }

    /// After a line, unless the line is refused.
    pub open spec fn after(self, line: Seq<char>) -> Option<SchemaScan> {
        match begun(line) {
            Some(name) => Some(
                SchemaScan { tables: with_table(self.tables, name), current: Some(name) },
            ),
            None => match self.current {
                Some(name) if line.len() > 0 && line[0] == '{' => match line_of(line) {
                    SchemaLineView::Short => Some(self),
                    SchemaLineView::Refused => None,
                    SchemaLineView::Column(column) => Some(
                        SchemaScan {
                            tables: with_column(self.tables, name, column),
                            current: self.current,
                        },
                    ),
                },
                _ => Some(self),
            },
        }
    }
}

/// How far the reading is after some lines.
pub open spec fn scanned(all: Seq<Seq<char>>) -> Option<SchemaScan>
    decreases all.len(),
{
    if all.len() == 0 {
        Some(SchemaScan::start())
    } else {
        match scanned(all.drop_last()) {
            Some(scan) => scan.after(all.last()),
            None => None,
        }
    }
}

/// The catalogs that a text describes, unless a line of it is refused.
pub open spec fn schema_in(contents: Seq<char>) -> Option<Seq<SchemaTableView>> {
    match scanned(lines::trimmed_lines(contents)) {
        Some(scan) => Some(scan.tables),
        None => None,
    }
}

proof fn lemma_refused(all: Seq<Seq<char>>, n: int)
    requires
        0 <= n <= all.len(),
        scanned(all.take(n)) is None,
    ensures
        scanned(all) is None,
    decreases all.len() - n,
{
    if n < all.len() {
        assert(all.take(n + 1).drop_last() =~= all.take(n));
        lemma_refused(all, n + 1);
    } else {
        assert(all.take(n) =~= all);
    }
}

/// Whether no name occurs twice.
pub open spec fn distinct_names(tables: Seq<SchemaTableView>) -> bool {
    forall|i: int, j: int|
        0 <= i < j < tables.len() ==> (#[trigger] tables[i]).name != (#[trigger] tables[j]).name
}

proof fn lemma_names_stay_distinct(tables: Seq<SchemaTableView>, name: Seq<char>)
    requires
        distinct_names(tables),
    ensures
        distinct_names(with_table(tables, name)),
        forall|column: SchemaColumnView|
            distinct_names(#[trigger] with_column(tables, name, column)),
{
    search::first_index_is_first(tables, is_named(name));
    let here = with_table(tables, name);
    assert forall|i: int, j: int| 0 <= i < j < here.len() implies (#[trigger] here[i]).name != (
    #[trigger] here[j]).name by {
        assert(here[i] == tables[i]);
        if j < tables.len() {
            assert(here[j] == tables[j]);
        } else {
            assert(!is_named(name)(tables[i]));
        }
    }
    search::first_index_is_first(here, is_named(name));
    assert forall|column: SchemaColumnView| distinct_names(
        #[trigger] with_column(tables, name, column),
    ) by {
        let now = with_column(tables, name, column);
        assert forall|i: int, j: int| 0 <= i < j < now.len() implies (#[trigger] now[i]).name != (
        #[trigger] now[j]).name by {
            assert(now[i].name == here[i].name);
            assert(now[j].name == here[j].name);
        }
    }
}

/// Each catalog is described once, whatever the lines are: what several
/// descriptions of it say comes together.
pub proof fn described_catalogs_are_distinct(all: Seq<Seq<char>>)
    requires
        scanned(all) is Some,
    ensures
        distinct_names(scanned(all)->0.tables),
    decreases all.len(),
{
    if all.len() > 0 {
        let before = all.drop_last();
        described_catalogs_are_distinct(before);
        let scan = scanned(before)->0;
        match begun(all.last()) {
            Some(name) => {
                lemma_names_stay_distinct(scan.tables, name);
            },
            None => match scan.current {
                Some(name) => {
                    lemma_names_stay_distinct(scan.tables, name);
                },
                None => {},
            },
        }
    }
}

fn find_schema(tables: &Vec<SchemaTable>, name: &Vec<char>) -> (r: Option<usize>)
    ensures
        match r {
            Some(i) => search::first_index(search::views(tables@), is_named(name@)) == Some(
                i as int,
            ) && i < tables@.len() && tables@[i as int]@.name == name@,
            None => search::first_index(search::views(tables@), is_named(name@)) is None,
        },
{
    let ghost all = search::views(tables@);
    let mut i: usize = 0;
    while i < tables.len()
        invariant
            i <= tables.len(),
            all == search::views(tables@),
            forall|j: int| 0 <= j < i ==> !is_named(name@)(#[trigger] all[j]),
        decreases tables.len() - i,
    {
        assert(all[i as int] == tables@[i as int]@);
        if text::spells(name, tables[i].name.as_str()) {
            proof {
                search::first_index_at(all, is_named(name@), i as int);
            }
            return Some(i);
        }
        i += 1;
    }
    assert(all.len() == tables@.len());
    proof {
        search::first_index_none(all, is_named(name@));
    }
    None
}

fn ensure_schema(tables: &mut Vec<SchemaTable>, name: &Vec<char>)
    ensures
        search::views(final(tables)@) == with_table(search::views(old(tables)@), name@),
{
    match find_schema(tables, name) {
        Some(_) => {},
        None => {
            let ghost before = search::views(tables@);
            let table = SchemaTable { name: text::string_of(name), columns: Vec::new() };
            assert(table@.columns =~= seq![]);
            tables.push(table);
            assert(search::views(tables@) =~= before.push(table@));
        },
    }
}

fn add_column(tables: &mut Vec<SchemaTable>, name: &Vec<char>, column: SchemaColumn)
    ensures
        search::views(final(tables)@) == with_column(
            search::views(old(tables)@),
            name@,
            column@,
        ),
{
    ensure_schema(tables, name);
    let ghost here = search::views(tables@);
    match find_schema(tables, name) {
        Some(i) => {
            let ghost view = column@;
            let ghost before = tables@[i as int];
            assert(here[i as int] == before@);
            tables[i].columns.push(column);
            assert(tables@[i as int]@.columns =~= before@.columns.push(view));
            assert(search::views(tables@) =~= here.update(i as int, tables@[i as int]@));
        },
        None => {},
    }
}

/// Reads the catalogs that a text describes, unless a line of it is refused.
pub fn parse_schema(contents: &str) -> (r: Option<Vec<SchemaTable>>)
    ensures
        match r {
            Some(tables) => schema_in(contents@) == Some(search::views(tables@)),
            None => schema_in(contents@) is None,
        },
{
    let found = split_lines(&text::chars_of(contents));
    let ghost all = search::views(found@);
    let mut tables: Vec<SchemaTable> = Vec::new();
    let mut current: Option<Vec<char>> = None;
    let mut i: usize = 0;
    assert(search::views(tables@) =~= seq![]);
    assert(all.take(0) =~= seq![]);
    while i < found.len()
        invariant
            i <= found.len(),
            all == search::views(found@),
            all == lines::trimmed_lines(contents@),
            scanned(all.take(i as int)) == Some(
                SchemaScan { tables: search::views(tables@), current: search::option_view(current) },
            ),
        decreases found.len() - i,
    {
        assert(all.take(i + 1).drop_last() =~= all.take(i as int));
        assert(all.take(i + 1).last() == found@[i as int]@);
        let line = &found[i];
        let mark = text::chars_of("#define Schema_");
        if text::begins_with(line, "#define Schema_") {
            let rest = text::slice_of(line, mark.len(), line.len());
            assert(rest@ =~= line@.skip(mark@.len() as int));
            let name = text::trim_chars(&rest);
            ensure_schema(&mut tables, &name);
            current = Some(name);
        } else if line.len() > 0 && line[0] == '{' {
            match &current {
                Some(name) => match parse_schema_column(line) {
                    SchemaLine::Short => {},
                    SchemaLine::Refused => {
                        proof {
                            lemma_refused(all, i + 1);
                        }
                        return None;
                    },
                    SchemaLine::Column(column) => {
                        add_column(&mut tables, name, column);
                    },
                },
                None => {},
            }
        }
        i += 1;
    }
    assert(all.len() == found@.len());
    assert(all.take(i as int) =~= all);
    Some(tables)
}

} // verus!
