//! The statements of the simple protocol, and how they are read.

use vstd::prelude::*;

use crate::lexing;
use crate::search;
use crate::text;

verus! {

/// The text of a statement.
#[derive(Clone, Debug, PartialEq, Eq)]
pub struct SqlText(pub String);

/// A text that no statement is read from.
#[derive(Clone, Debug, PartialEq, Eq)]
pub struct ParseError {
    pub query: String,
}

#[derive(Clone, Debug, PartialEq, Eq)]
pub enum ParsedStatement {
    SelectOne,
    ShowServerVersion,
    SelectInt4Parameter,
    SelectRelkindByRegclassParameter,
    SelectPgbenchPartitionInfo,
    SelectCount { table: String },
    SelectColumnWhereInt { table: String, column: String, key_column: String, key_value: i64 },
    DropTables { if_exists: bool, names: Vec<String> },
    CreateTable { name: String, columns: Vec<ColumnDef> },
    TruncateTables { names: Vec<String> },
    Begin,
    Commit,
    Rollback,
    CopyFromStdin { table: String },
    UpdateAddInt {
        table: String,
        column: String,
        addend: i64,
        key_column: String,
        key_value: i64,
    },
    Insert { table: String, columns: Vec<String>, values: Vec<Literal> },
}

/// A column of a table that is to be made.
#[derive(Clone, Debug, PartialEq, Eq)]
pub struct ColumnDef {
    pub name: String,
    pub data_type: SqlTypeName,
}

#[derive(Clone, Copy, Debug, PartialEq, Eq, Structural)]
pub enum SqlTypeName {
    Int4,
    Int8,
    Text,
}

#[derive(Clone, Debug, PartialEq, Eq)]
pub enum Literal {
    Int(i64),
    Text(String),
    Null,
    CurrentTimestamp,
}

pub enum StatementView {
    SelectOne,
    ShowServerVersion,
    SelectInt4Parameter,
    SelectRelkindByRegclassParameter,
    SelectPgbenchPartitionInfo,
    SelectCount { table: Seq<char> },
    SelectColumnWhereInt {
        table: Seq<char>,
        column: Seq<char>,
        key_column: Seq<char>,
        key_value: i64,
    },
    DropTables { if_exists: bool, names: Seq<Seq<char>> },
    CreateTable { name: Seq<char>, columns: Seq<ColumnDefView> },
    TruncateTables { names: Seq<Seq<char>> },
    Begin,
    Commit,
    Rollback,
    CopyFromStdin { table: Seq<char> },
    UpdateAddInt {
        table: Seq<char>,
        column: Seq<char>,
        addend: i64,
        key_column: Seq<char>,
        key_value: i64,
    },
    Insert { table: Seq<char>, columns: Seq<Seq<char>>, values: Seq<LiteralView> },
}

pub struct ColumnDefView {
    pub name: Seq<char>,
    pub data_type: SqlTypeName,
}

pub enum LiteralView {
    Int(i64),
    Text(Seq<char>),
    Null,
    CurrentTimestamp,
}

impl View for ColumnDef {
    type V = ColumnDefView;

    open spec fn view(&self) -> ColumnDefView {
        ColumnDefView { name: self.name@, data_type: self.data_type }
    }
}

impl View for Literal {
    type V = LiteralView;

    open spec fn view(&self) -> LiteralView {
        match self {
            Literal::Int(v) => LiteralView::Int(*v),
            Literal::Text(v) => LiteralView::Text(v@),
            Literal::Null => LiteralView::Null,
            Literal::CurrentTimestamp => LiteralView::CurrentTimestamp,
        }
    }
}

impl View for ParsedStatement {
    type V = StatementView;

    open spec fn view(&self) -> StatementView {
        match self {
            ParsedStatement::SelectOne => StatementView::SelectOne,
            ParsedStatement::ShowServerVersion => StatementView::ShowServerVersion,
            ParsedStatement::SelectInt4Parameter => StatementView::SelectInt4Parameter,
            ParsedStatement::SelectRelkindByRegclassParameter =>
                StatementView::SelectRelkindByRegclassParameter,
            ParsedStatement::SelectPgbenchPartitionInfo =>
                StatementView::SelectPgbenchPartitionInfo,
            ParsedStatement::SelectCount { table } => StatementView::SelectCount { table: table@ },
            ParsedStatement::SelectColumnWhereInt { table, column, key_column, key_value } =>
                StatementView::SelectColumnWhereInt {
                table: table@,
                column: column@,
                key_column: key_column@,
                key_value: *key_value,
            },
            ParsedStatement::DropTables { if_exists, names } => StatementView::DropTables {
                if_exists: *if_exists,
                names: search::views(names@),
            },
            ParsedStatement::CreateTable { name, columns } => StatementView::CreateTable {
                name: name@,
                columns: search::views(columns@),
            },
            ParsedStatement::TruncateTables { names } => StatementView::TruncateTables {
                names: search::views(names@),
            },
            ParsedStatement::Begin => StatementView::Begin,
            ParsedStatement::Commit => StatementView::Commit,
            ParsedStatement::Rollback => StatementView::Rollback,
            ParsedStatement::CopyFromStdin { table } => StatementView::CopyFromStdin {
                table: table@,
            },
            ParsedStatement::UpdateAddInt { table, column, addend, key_column, key_value } =>
                StatementView::UpdateAddInt {
                table: table@,
                column: column@,
                addend: *addend,
                key_column: key_column@,
                key_value: *key_value,
            },
            ParsedStatement::Insert { table, columns, values } => StatementView::Insert {
                table: table@,
                columns: search::views(columns@),
                values: search::views(values@),
            },
        }
    }
}

/// A statement that is read as it stands, but for its case and its spaces.
pub open spec fn fixed_query(q: Seq<char>) -> Option<StatementView> {
    let n = lexing::normal_form(q);
    if n == "select 1"@ {
        Some(StatementView::SelectOne)
    } else if n == "show server_version"@ {
        Some(StatementView::ShowServerVersion)
    } else if n == "select $1::int4"@ {
        Some(StatementView::SelectInt4Parameter)
    } else if n
        == "select relkind from pg_catalog.pg_class where oid=$1::pg_catalog.regclass"@ {
        Some(StatementView::SelectRelkindByRegclassParameter)
    } else if "select o.n, p.partstrat, pg_catalog.count(i.inhparent) from pg_catalog.pg_class as c"@.is_prefix_of(
    n) {
        Some(StatementView::SelectPgbenchPartitionInfo)
    } else {
        None
    }
}

fn parse_exact_query(q: &Vec<char>) -> (r: Option<ParsedStatement>)
    ensures
        search::option_view(r) == fixed_query(q@),
{
    let n = lexing::normalize_query(q);
    if text::spells(&n, "select 1") {
        Some(ParsedStatement::SelectOne)
    } else if text::spells(&n, "show server_version") {
        Some(ParsedStatement::ShowServerVersion)
    } else if text::spells(&n, "select $1::int4") {
        Some(ParsedStatement::SelectInt4Parameter)
    } else if text::spells(
        &n,
        "select relkind from pg_catalog.pg_class where oid=$1::pg_catalog.regclass",
    ) {
        Some(ParsedStatement::SelectRelkindByRegclassParameter)
    } else if text::begins_with(
        &n,
        "select o.n, p.partstrat, pg_catalog.count(i.inhparent) from pg_catalog.pg_class as c",
    ) {
        Some(ParsedStatement::SelectPgbenchPartitionInfo)
    } else {
        None
    }
}

/// A statement that begins or ends a transaction.
pub open spec fn transaction(q: Seq<char>) -> Option<StatementView> {
    let n = lexing::normal_form(q);
    if n == "begin"@ {
        Some(StatementView::Begin)
    } else if n == "commit"@ || n == "end"@ {
        Some(StatementView::Commit)
    } else if n == "rollback"@ {
        Some(StatementView::Rollback)
    } else {
        None
    }
}

fn parse_transaction(q: &Vec<char>) -> (r: Option<ParsedStatement>)
    ensures
        search::option_view(r) == transaction(q@),
{
    let n = lexing::normalize_query(q);
    if text::spells(&n, "begin") {
        Some(ParsedStatement::Begin)
    } else if text::spells(&n, "commit") || text::spells(&n, "end") {
        Some(ParsedStatement::Commit)
    } else if text::spells(&n, "rollback") {
        Some(ParsedStatement::Rollback)
    } else {
        None
    }
}

/// The names in a list of identifiers.
pub open spec fn names_in(s: Seq<char>) -> Seq<Seq<char>> {
    let parts = lexing::list_parts(s);
    Seq::new(parts.len(), |i: int| lexing::name_of(parts[i]))
}

fn read_names(s: &Vec<char>) -> (r: Vec<String>)
    ensures
        search::views(r@) == names_in(s@),
{
    let parts = lexing::split_top_level_commas(s);
    let ghost all = text::all_chars(parts@);
    let mut r: Vec<String> = Vec::new();
    let mut i: usize = 0;
    while i < parts.len()
        invariant
            i <= parts.len(),
            all == text::all_chars(parts@),
            r@.len() == i,
            forall|j: int| 0 <= j < i ==> (#[trigger] r@[j])@ == lexing::name_of(all[j]),
        decreases parts.len() - i,
    {
        assert(all[i as int] == parts@[i as int]@);
        r.push(lexing::strip_identifier(&parts[i]));
        i += 1;
    }
    assert(search::views(r@) =~= names_in(s@));
    r
}

/// What follows the first of two prefixes that a text has.
pub open spec fn after_either(s: Seq<char>, a: Seq<char>, b: Seq<char>) -> Option<Seq<char>> {
    match lexing::after_prefix(s, a) {
        Some(rest) => Some(rest),
        None => lexing::after_prefix(s, b),
    }
}

fn strip_either(s: &Vec<char>, a: &str, b: &str) -> (r: Option<Vec<char>>)
    ensures
        lexing::chars_option(r) == after_either(s@, a@, b@),
{
    match lexing::strip_prefix_ci(s, a) {
        Some(rest) => Some(rest),
        None => lexing::strip_prefix_ci(s, b),
    }
}

pub open spec fn drop_tables(q: Seq<char>) -> Option<StatementView> {
    let if_exists = lexing::after_prefix(q, "drop table if exists "@) is Some;
    match after_either(q, "drop table if exists "@, "drop table "@) {
        Some(rest) => if names_in(rest).len() == 0 {
            None
        } else {
            Some(StatementView::DropTables { if_exists, names: names_in(rest) })
        },
        None => None,
    }
}

fn parse_drop_tables(q: &Vec<char>) -> (r: Option<ParsedStatement>)
    ensures
        search::option_view(r) == drop_tables(q@),
{
    let (if_exists, rest) = match lexing::strip_prefix_ci(q, "drop table if exists ") {
        Some(rest) => (true, rest),
        None => match lexing::strip_prefix_ci(q, "drop table ") {
            Some(rest) => (false, rest),
            None => return None,
        },
    };
    let names = read_names(&rest);
    assert(names@.len() == search::views(names@).len());
    if names.len() == 0 {
        return None;
    }
    Some(ParsedStatement::DropTables { if_exists, names })
}

/// The type that a type name stands for.
pub open spec fn type_named(s: Seq<char>) -> Option<SqlTypeName> {
    let n = lexing::normal_form(s);
    if "bigint"@.is_prefix_of(n) {
        Some(SqlTypeName::Int8)
    } else if "int"@.is_prefix_of(n) || "integer"@.is_prefix_of(n) {
        Some(SqlTypeName::Int4)
    } else if "char"@.is_prefix_of(n) || "varchar"@.is_prefix_of(n) || "text"@.is_prefix_of(n)
        || "timestamp"@.is_prefix_of(n) {
        Some(SqlTypeName::Text)
    } else {
        None
    }
}

fn parse_type_name(s: &Vec<char>) -> (r: Option<SqlTypeName>)
    ensures
        r == type_named(s@),
{
    let n = lexing::normalize_query(s);
    if text::begins_with(&n, "bigint") {
        Some(SqlTypeName::Int8)
    } else if text::begins_with(&n, "int") || text::begins_with(&n, "integer") {
        Some(SqlTypeName::Int4)
    } else if text::begins_with(&n, "char") || text::begins_with(&n, "varchar")
        || text::begins_with(&n, "text") || text::begins_with(&n, "timestamp") {
        Some(SqlTypeName::Text)
    } else {
        None
    }
}

pub open spec fn is_space() -> spec_fn(char) -> bool {
    |c: char| text::is_space(c)
}

/// The column that a definition describes: its name, and its type behind the
/// first space.
pub open spec fn column_def() -> spec_fn(Seq<char>) -> Option<ColumnDefView> {
    |part: Seq<char>|
        {
            let definition = text::trim(part);
            match search::first_index(definition, is_space()) {
                Some(end) => match type_named(text::trim(definition.skip(end))) {
                    Some(data_type) => Some(
                        ColumnDefView { name: lexing::name_of(definition.take(end)), data_type },
                    ),
                    None => None,
                },
                None => None,
            }
        }
}

fn first_space(s: &Vec<char>) -> (r: Option<usize>)
    ensures
        match r {
            Some(i) => search::first_index(s@, is_space()) == Some(i as int) && i < s.len(),
            None => search::first_index(s@, is_space()) is None,
        },
{
    let mut i: usize = 0;
    while i < s.len()
        invariant
            i <= s.len(),
            forall|j: int| 0 <= j < i ==> !is_space()(#[trigger] s@[j]),
        decreases s.len() - i,
    {
        if text::is_whitespace(s[i]) {
            proof {
                search::first_index_at(s@, is_space(), i as int);
            }
            return Some(i);
        }
        i += 1;
    }
    proof {
        search::first_index_none(s@, is_space());
    }
    None
}

fn parse_column_def(part: &Vec<char>) -> (r: Option<ColumnDef>)
    ensures
        search::option_view(r) == column_def()(part@),
{
    let definition = text::trim_chars(part);
    let end = match first_space(&definition) {
        Some(end) => end,
        None => return None,
    };
    let head = text::slice_of(&definition, 0, end);
    let tail = text::slice_of(&definition, end, definition.len());
    assert(head@ =~= definition@.take(end as int));
    assert(tail@ =~= definition@.skip(end as int));
    match parse_type_name(&text::trim_chars(&tail)) {
        Some(data_type) => Some(ColumnDef { name: lexing::strip_identifier(&head), data_type }),
        None => None,
    }
}

/// What stands between a parenthesis and the one that closes it.
pub open spec fn inside(s: Seq<char>, open: int) -> Option<Seq<char>> {
    match lexing::matching_paren(s, open) {
        Some(close) => Some(s.subrange(open + 1, close)),
        None => None,
    }
}

fn take_inside(s: &Vec<char>, open: usize) -> (r: Option<Vec<char>>)
    requires
        open < s.len(),
        s@[open as int] == '(',
    ensures
        lexing::chars_option(r) == inside(s@, open as int),
{
    match lexing::find_matching_paren(s, open) {
        Some(close) => Some(text::slice_of(s, open + 1, close)),
        None => None,
    }
}

pub open spec fn create_table(q: Seq<char>) -> Option<StatementView> {
    match after_either(q, "create table "@, "create unlogged table "@) {
        Some(rest) => match lexing::find_char(rest, '(') {
            Some(open) => match inside(rest, open) {
                Some(list) => match search::every_some(lexing::list_parts(list), column_def()) {
                    Some(columns) => Some(
                        StatementView::CreateTable {
                            name: lexing::name_of(rest.take(open)),
                            columns,
                        },
                    ),
                    None => None,
                },
                None => None,
            },
            None => None,
        },
        None => None,
    }
}

fn parse_create_table(q: &Vec<char>) -> (r: Option<ParsedStatement>)
    ensures
        search::option_view(r) == create_table(q@),
{
    let rest = match strip_either(q, "create table ", "create unlogged table ") {
        Some(rest) => rest,
        None => return None,
    };
    let open = match lexing::position_of(&rest, '(') {
        Some(open) => open,
        None => return None,
    };
    let list = match take_inside(&rest, open) {
        Some(list) => list,
        None => return None,
    };
    let head = text::slice_of(&rest, 0, open);
    assert(head@ =~= rest@.take(open as int));
    let parts = lexing::split_top_level_commas(&list);
    let read = |part: &Vec<char>| -> (v: Option<ColumnDef>)
        ensures
            search::option_view(v) == column_def()(part@),
        { parse_column_def(part) };
    match search::try_map(&parts, read, Ghost(column_def())) {
        Some(columns) => Some(
            ParsedStatement::CreateTable { name: lexing::strip_identifier(&head), columns },
        ),
        None => None,
    }
}

pub open spec fn truncate_tables(q: Seq<char>) -> Option<StatementView> {
    match after_either(q, "truncate table "@, "truncate "@) {
        Some(rest) => if names_in(rest).len() == 0 {
            None
        } else {
            Some(StatementView::TruncateTables { names: names_in(rest) })
        },
        None => None,
    }
}

fn parse_truncate_tables(q: &Vec<char>) -> (r: Option<ParsedStatement>)
    ensures
        search::option_view(r) == truncate_tables(q@),
{
    let rest = match strip_either(q, "truncate table ", "truncate ") {
        Some(rest) => rest,
        None => return None,
    };
    let names = read_names(&rest);
    assert(names@.len() == search::views(names@).len());
    if names.len() == 0 {
        return None;
    }
    Some(ParsedStatement::TruncateTables { names })
}

/// What stands before a keyword and what stands behind it.
pub open spec fn around_keyword(s: Seq<char>, keyword: Seq<char>) -> Option<(Seq<char>, Seq<char>)> {
    match lexing::find_keyword(s, keyword) {
        Some(i) => Some((s.take(i), s.skip(i + keyword.len()))),
        None => None,
    }
}

pub open spec fn pair_option(v: Option<(Vec<char>, Vec<char>)>) -> Option<(Seq<char>, Seq<char>)> {
    match v {
        Some(x) => Some((x.0@, x.1@)),
        None => None,
    }
}

fn split_at_keyword(s: &Vec<char>, keyword: &str) -> (r: Option<(Vec<char>, Vec<char>)>)
    ensures
        pair_option(r) == around_keyword(s@, keyword@),
{
    match lexing::find_keyword_ci(s, keyword) {
        Some(i) => {
            let wanted = text::chars_of(keyword);
            let n = wanted.len();
            let total = s.len();
            let head = text::slice_of(s, 0, i);
            let tail = text::slice_of(s, i + n, total);
            assert(head@ =~= s@.take(i as int));
            assert(tail@ =~= s@.skip(i + keyword@.len()));
            Some((head, tail))
        },
        None => None,
    }
}

/// What stands before a character and what stands behind it.
pub open spec fn around_char(s: Seq<char>, c: char) -> Option<(Seq<char>, Seq<char>)> {
    match lexing::find_char(s, c) {
        Some(i) => Some((s.take(i), s.skip(i + 1))),
        None => None,
    }
}

fn split_at_char(s: &Vec<char>, c: char) -> (r: Option<(Vec<char>, Vec<char>)>)
    ensures
        pair_option(r) == around_char(s@, c),
{
    match lexing::position_of(s, c) {
        Some(i) => {
            let head = text::slice_of(s, 0, i);
            let tail = text::slice_of(s, i + 1, s.len());
            assert(head@ =~= s@.take(i as int));
            assert(tail@ =~= s@.skip(i + 1));
            Some((head, tail))
        },
        None => None,
    }
}

pub open spec fn copy_from_stdin(q: Seq<char>) -> Option<StatementView> {
    match lexing::after_prefix(q, "copy "@) {
        Some(rest) => match around_keyword(rest, " from stdin"@) {
            Some((table, _)) => Some(
                StatementView::CopyFromStdin { table: lexing::name_of(table) },
            ),
            None => None,
        },
        None => None,
    }
}

fn parse_copy_from_stdin(q: &Vec<char>) -> (r: Option<ParsedStatement>)
    ensures
        search::option_view(r) == copy_from_stdin(q@),
{
    let rest = match lexing::strip_prefix_ci(q, "copy ") {
        Some(rest) => rest,
        None => return None,
    };
    match split_at_keyword(&rest, " from stdin") {
        Some(split) => Some(
            ParsedStatement::CopyFromStdin { table: lexing::strip_identifier(&split.0) },
        ),
        None => None,
    }
}

pub open spec fn select_count(q: Seq<char>) -> Option<StatementView> {
    match lexing::after_prefix(q, "select count(*) from "@) {
        Some(rest) => Some(StatementView::SelectCount { table: lexing::name_of(rest) }),
        None => None,
    }
}

fn parse_select_count(q: &Vec<char>) -> (r: Option<ParsedStatement>)
    ensures
        search::option_view(r) == select_count(q@),
{
    match lexing::strip_prefix_ci(q, "select count(*) from ") {
        Some(rest) => Some(
            ParsedStatement::SelectCount { table: lexing::strip_identifier(&rest) },
        ),
        None => None,
    }
}

/// The number that a text is, without the space around it.
pub open spec fn number(s: Seq<char>) -> Option<i64> {
    match text::parsed_int(text::trim(s), i64::MIN as int, i64::MAX as int) {
        Some(n) => Some(n as i64),
        None => None,
    }
}

fn read_number(s: &Vec<char>) -> (r: Option<i64>)
    ensures
        r == number(s@),
{
    text::parse_int(&text::trim_chars(s), i64::MIN, i64::MAX)
}

/// A column that must equal a number.
pub open spec fn int_equality(s: Seq<char>) -> Option<(Seq<char>, i64)> {
    match around_char(s, '=') {
        Some((column, value)) => match number(value) {
            Some(n) => Some((lexing::name_of(column), n)),
            None => None,
        },
        None => None,
    }
}

fn parse_int_equality(s: &Vec<char>) -> (r: Option<(String, i64)>)
    ensures
        match r {
            Some(x) => int_equality(s@) == Some((x.0@, x.1)),
            None => int_equality(s@) is None,
        },
{
    match split_at_char(s, '=') {
        Some(split) => match read_number(&split.1) {
            Some(n) => Some((lexing::strip_identifier(&split.0), n)),
            None => None,
        },
        None => None,
    }
}

pub open spec fn select_column_where_int(q: Seq<char>) -> Option<StatementView> {
    match lexing::after_prefix(q, "select "@) {
        Some(rest) => match around_keyword(rest, " from "@) {
            Some((column, after)) => match around_keyword(after, " where "@) {
                Some((table, condition)) => match int_equality(condition) {
                    Some((key_column, key_value)) => Some(
                        StatementView::SelectColumnWhereInt {
                            table: lexing::name_of(table),
                            column: lexing::name_of(column),
                            key_column,
                            key_value,
                        },
                    ),
                    None => None,
                },
                None => None,
            },
            None => None,
        },
        None => None,
    }
}

fn parse_select_column_where_int(q: &Vec<char>) -> (r: Option<ParsedStatement>)
    ensures
        search::option_view(r) == select_column_where_int(q@),
{
    let rest = match lexing::strip_prefix_ci(q, "select ") {
        Some(rest) => rest,
        None => return None,
    };
    let (column, after) = match split_at_keyword(&rest, " from ") {
        Some(split) => split,
        None => return None,
    };
    let (table, condition) = match split_at_keyword(&after, " where ") {
        Some(split) => split,
        None => return None,
    };
    match parse_int_equality(&condition) {
        Some(key) => Some(
            ParsedStatement::SelectColumnWhereInt {
                table: lexing::strip_identifier(&table),
                column: lexing::strip_identifier(&column),
                key_column: key.0,
                key_value: key.1,
            },
        ),
        None => None,
    }
}

/// A column, and what is added to it.
pub open spec fn addition(s: Seq<char>) -> Option<(Seq<char>, i64)> {
    match around_char(s, '=') {
        Some((column, expression)) => match around_char(expression, '+') {
            Some((_, addend)) => match number(addend) {
                Some(n) => Some((lexing::name_of(column), n)),
                None => None,
            },
            None => None,
        },
        None => None,
    }
}

fn parse_addition(s: &Vec<char>) -> (r: Option<(String, i64)>)
    ensures
        match r {
            Some(x) => addition(s@) == Some((x.0@, x.1)),
            None => addition(s@) is None,
        },
{
    let (column, expression) = match split_at_char(s, '=') {
        Some(split) => split,
        None => return None,
    };
    match split_at_char(&expression, '+') {
        Some(split) => match read_number(&split.1) {
            Some(n) => Some((lexing::strip_identifier(&column), n)),
            None => None,
        },
        None => None,
    }
}

pub open spec fn update_add_int(q: Seq<char>) -> Option<StatementView> {
    match lexing::after_prefix(q, "update "@) {
        Some(rest) => match around_keyword(rest, " set "@) {
            Some((table, after)) => match around_keyword(after, " where "@) {
                Some((assignment, condition)) => match (
                    addition(assignment),
                    int_equality(condition),
                ) {
                    (Some((column, addend)), Some((key_column, key_value))) => Some(
                        StatementView::UpdateAddInt {
                            table: lexing::name_of(table),
                            column,
                            addend,
                            key_column,
                            key_value,
                        },
                    ),
                    _ => None,
                },
                None => None,
            },
            None => None,
        },
        None => None,
    }
}

fn parse_update_add_int(q: &Vec<char>) -> (r: Option<ParsedStatement>)
    ensures
        search::option_view(r) == update_add_int(q@),
{
    let rest = match lexing::strip_prefix_ci(q, "update ") {
        Some(rest) => rest,
        None => return None,
    };
    let (table, after) = match split_at_keyword(&rest, " set ") {
        Some(split) => split,
        None => return None,
    };
    let (assignment, condition) = match split_at_keyword(&after, " where ") {
        Some(split) => split,
        None => return None,
    };
    match (parse_addition(&assignment), parse_int_equality(&condition)) {
        (Some(sum), Some(key)) => Some(
            ParsedStatement::UpdateAddInt {
                table: lexing::strip_identifier(&table),
                column: sum.0,
                addend: sum.1,
                key_column: key.0,
                key_value: key.1,
            },
        ),
        _ => None,
    }
}

/// The value that a literal stands for.
pub open spec fn literal() -> spec_fn(Seq<char>) -> Option<LiteralView> {
    |part: Seq<char>|
        {
            let s = text::trim(part);
            if text::lower(s) == text::lower("null"@) || text::lower(s) == text::lower("\\N"@) {
                Some(LiteralView::Null)
            } else if text::lower(s) == text::lower("current_timestamp"@) {
                Some(LiteralView::CurrentTimestamp)
            } else if lexing::string_of_literal(s) is Some {
                Some(LiteralView::Text(lexing::string_of_literal(s)->0))
            } else {
                match text::parsed_int(s, i64::MIN as int, i64::MAX as int) {
                    Some(n) => Some(LiteralView::Int(n as i64)),
                    None => None,
                }
            }
        }
}

fn spells_ci(s: &Vec<char>, word: &str) -> (r: bool)
    ensures
        r == (text::lower(s@) == text::lower(word@)),
{
    text::same_chars(&text::lower_chars(s), &text::lower_chars(&text::chars_of(word)))
}

fn parse_literal(part: &Vec<char>) -> (r: Option<Literal>)
    ensures
        search::option_view(r) == literal()(part@),
{
    let s = text::trim_chars(part);
    if spells_ci(&s, "null") || spells_ci(&s, "\\N") {
        return Some(Literal::Null);
    }
    if spells_ci(&s, "current_timestamp") {
        return Some(Literal::CurrentTimestamp);
    }
    match lexing::unquote_string(&s) {
        Some(told) => Some(Literal::Text(told)),
        None => match text::parse_int(&s, i64::MIN, i64::MAX) {
            Some(n) => Some(Literal::Int(n)),
            None => None,
        },
    }
}

/// The table that rows go to, and the columns that are named, if any are.
pub open spec fn insert_target(s: Seq<char>) -> Option<(Seq<char>, Seq<Seq<char>>)> {
    match lexing::find_char(s, '(') {
        None => Some((lexing::name_of(s), seq![])),
        Some(open) => match inside(s, open) {
            Some(list) => Some((lexing::name_of(s.take(open)), names_in(list))),
            None => None,
        },
    }
}

fn parse_insert_target(s: &Vec<char>) -> (r: Option<(String, Vec<String>)>)
    ensures
        match r {
            Some(x) => insert_target(s@) == Some((x.0@, search::views(x.1@))),
            None => insert_target(s@) is None,
        },
{
    let open = match lexing::position_of(s, '(') {
        Some(open) => open,
        None => {
            let none: Vec<String> = Vec::new();
            assert(search::views(none@) =~= seq![]);
            return Some((lexing::strip_identifier(s), none));
        },
    };
    match take_inside(s, open) {
        Some(list) => {
            let head = text::slice_of(s, 0, open);
            assert(head@ =~= s@.take(open as int));
            Some((lexing::strip_identifier(&head), read_names(&list)))
        },
        None => None,
    }
}

/// The values in parentheses.
pub open spec fn value_list(s: Seq<char>) -> Option<Seq<LiteralView>> {
    match lexing::find_char(s, '(') {
        Some(open) => match inside(s, open) {
            Some(list) => search::every_some(lexing::list_parts(list), literal()),
            None => None,
        },
        None => None,
    }
}

fn parse_value_list(s: &Vec<char>) -> (r: Option<Vec<Literal>>)
    ensures
        match r {
            Some(v) => value_list(s@) == Some(search::views(v@)),
            None => value_list(s@) is None,
        },
{
    let open = match lexing::position_of(s, '(') {
        Some(open) => open,
        None => return None,
    };
    let list = match take_inside(s, open) {
        Some(list) => list,
        None => return None,
    };
    let parts = lexing::split_top_level_commas(&list);
    let read = |part: &Vec<char>| -> (v: Option<Literal>)
        ensures
            search::option_view(v) == literal()(part@),
        { parse_literal(part) };
    search::try_map(&parts, read, Ghost(literal()))
}

pub open spec fn insert(q: Seq<char>) -> Option<StatementView> {
    match lexing::after_prefix(q, "insert into "@) {
        Some(rest) => match around_keyword(rest, " values "@) {
            Some((target, list)) => match (
                insert_target(text::trim(target)),
                value_list(text::trim(list)),
            ) {
                (Some((table, columns)), Some(values)) => Some(
                    StatementView::Insert { table, columns, values },
                ),
                _ => None,
            },
            None => None,
        },
        None => None,
    }
}

fn parse_insert(q: &Vec<char>) -> (r: Option<ParsedStatement>)
    ensures
        search::option_view(r) == insert(q@),
{
    let rest = match lexing::strip_prefix_ci(q, "insert into ") {
        Some(rest) => rest,
        None => return None,
    };
    let (target, list) = match split_at_keyword(&rest, " values ") {
        Some(split) => split,
        None => return None,
    };
    match (
        parse_insert_target(&text::trim_chars(&target)),
        parse_value_list(&text::trim_chars(&list)),
    ) {
        (Some(into), Some(values)) => Some(
            ParsedStatement::Insert { table: into.0, columns: into.1, values },
        ),
        _ => None,
    }
}

pub open spec fn or_else(a: Option<StatementView>, b: Option<StatementView>) -> Option<
    StatementView,
> {
    if a is Some {
        a
    } else {
        b
    }
}

/// The statement that a text without space and semicolons around it is read
/// as: the first of the forms that it has.
pub open spec fn statement(q: Seq<char>) -> Option<StatementView> {
    or_else(
        fixed_query(q),
        or_else(
            transaction(q),
            or_else(
                drop_tables(q),
                or_else(
                    create_table(q),
                    or_else(
                        truncate_tables(q),
                        or_else(
                            copy_from_stdin(q),
                            or_else(
                                select_count(q),
                                or_else(
                                    select_column_where_int(q),
                                    or_else(update_add_int(q), insert(q)),
                                ),
                            ),
                        ),
                    ),
                ),
            ),
        ),
    )
}

/// The statement that a text is read as.
pub open spec fn parsed(sql: Seq<char>) -> Option<StatementView> {
    let q = lexing::statement_text(sql);
    if q.len() == 0 {
        None
    } else {
        statement(q)
    }
}

fn parse_statement(q: &Vec<char>) -> (r: Option<ParsedStatement>)
    ensures
        search::option_view(r) == statement(q@),
{
    let r = parse_exact_query(q);
    if r.is_some() {
        return r;
    }
    let r = parse_transaction(q);
    if r.is_some() {
        return r;
    }
    let r = parse_drop_tables(q);
    if r.is_some() {
        return r;
    }
    let r = parse_create_table(q);
    if r.is_some() {
        return r;
    }
    let r = parse_truncate_tables(q);
    if r.is_some() {
        return r;
    }
    let r = parse_copy_from_stdin(q);
    if r.is_some() {
        return r;
    }
    let r = parse_select_count(q);
    if r.is_some() {
        return r;
    }
    let r = parse_select_column_where_int(q);
    if r.is_some() {
        return r;
    }
    let r = parse_update_add_int(q);
    if r.is_some() {
        return r;
    }
    parse_insert(q)
}

/// Reads a statement.
pub fn parse(sql: &str) -> (r: Result<ParsedStatement, ParseError>)
    ensures
        match r {
            Ok(statement) => parsed(sql@) == Some(statement@),
            Err(e) => parsed(sql@) is None && e.query@ == sql@,
        },
{
    let query = lexing::trim_sql(&text::chars_of(sql));
    if query.len() > 0 {
        match parse_statement(&query) {
            Some(statement) => return Ok(statement),
            None => {},
        }
    }
    Err(ParseError { query: sql.to_owned() })
}

/// Whether a text is nothing but space.
pub open spec fn is_blank(s: Seq<char>) -> bool {
    forall|i: int| 0 <= i < s.len() ==> text::is_space(#[trigger] s[i])
}

/// Whether a text is nothing but semicolons.
pub open spec fn is_semicolons(s: Seq<char>) -> bool {
    forall|i: int| 0 <= i < s.len() ==> #[trigger] s[i] == ';'
}

pub(crate) proof fn lemma_trim_start(a: Seq<char>, b: Seq<char>)
    ensures
        text::trim_start(a + b) == if text::trim_start(a).len() > 0 {
            text::trim_start(a) + b
        } else {
            text::trim_start(b)
        },
        text::trim_start(a).len() > 0 ==> !text::is_space(text::trim_start(a)[0]),
        text::trim_start(a).len() > 0 ==> text::trim_start(a).last() == a.last(),
        is_blank(a) ==> text::trim_start(a).len() == 0,
    decreases a.len(),
{
    if a.len() == 0 {
        assert(a + b =~= b);
    } else {
        assert((a + b)[0] == a[0]);
        if text::is_space(a[0]) {
            assert((a + b).drop_first() =~= a.drop_first() + b);
            lemma_trim_start(a.drop_first(), b);
            assert(is_blank(a) ==> is_blank(a.drop_first()));
        }
    }
}

pub(crate) proof fn lemma_trim_end(a: Seq<char>, b: Seq<char>)
    requires
        is_blank(b),
    ensures
        text::trim_end(a + b) == text::trim_end(a),
        text::trim_end(a).len() > 0 ==> !text::is_space(text::trim_end(a).last()),
        text::trim_end(a).len() > 0 ==> text::trim_end(a)[0] == a[0],
        text::trim_end(a).len() <= a.len(),
        a.len() > 0 && !text::is_space(a[0]) ==> text::trim_end(a).len() > 0,
    decreases a.len() + b.len(),
{
    if b.len() > 0 {
        assert((a + b).last() == b.last());
        assert((a + b).drop_last() =~= a + b.drop_last());
        lemma_trim_end(a, b.drop_last());
    } else {
        assert(a + b =~= a);
        if a.len() > 0 && text::is_space(a.last()) {
            lemma_trim_end(a.drop_last(), b);
        }
    }
}

proof fn lemma_without_semicolons(a: Seq<char>, b: Seq<char>)
    requires
        is_semicolons(b),
    ensures
        lexing::without_semicolons(a + b) == lexing::without_semicolons(a),
    decreases b.len(),
{
    if b.len() > 0 {
        assert((a + b).last() == b.last());
        assert((a + b).drop_last() =~= a + b.drop_last());
        lemma_without_semicolons(a, b.drop_last());
    } else {
        assert(a + b =~= a);
    }
}

/// Space around a statement and semicolons behind it change nothing. Where space
/// parts the semicolons from others that the statement itself ends with, those
/// others stay, so these statements are left out.
pub proof fn space_and_semicolons_change_nothing(
    before: Seq<char>,
    sql: Seq<char>,
    gap: Seq<char>,
    semicolons: Seq<char>,
    after: Seq<char>,
)
    requires
        is_blank(before),
        is_blank(gap),
        is_semicolons(semicolons),
        is_blank(after),
        ({
            ||| semicolons.len() == 0
            ||| text::trim(sql).len() == 0
            ||| text::trim(sql).last() != ';'
            ||| gap.len() == 0 && !text::is_space(sql.last())
        }),
    ensures
        lexing::statement_text(before + sql + gap + semicolons + after)
            == lexing::statement_text(sql),
        parsed(before + sql + gap + semicolons + after) == parsed(sql),
{
    let rest = gap + semicolons + after;
    let total = before + sql + gap + semicolons + after;
    let inner = text::trim_start(sql);
    let nothing = Seq::<char>::empty();
    assert(total =~= before + (sql + rest));
    lemma_trim_start(before, sql + rest);
    lemma_trim_start(sql, rest);
    if semicolons.len() == 0 {
        assert(is_blank(rest));
        lemma_trim_start(rest, nothing);
        lemma_trim_end(inner, rest);
    } else {
        let closed = semicolons + after;
        assert(rest =~= gap + closed);
        lemma_trim_start(gap, closed);
        assert(closed[0] == ';');
        assert(semicolons.last() == ';');
        if inner.len() == 0 {
            lemma_trim_end(semicolons, after);
            lemma_without_semicolons(nothing, semicolons);
            assert(nothing + semicolons =~= semicolons);
        } else {
            let open = inner + gap;
            assert(inner + rest =~= (open + semicolons) + after);
            lemma_trim_end(open + semicolons, after);
            assert((open + semicolons).last() == ';');
            assert(text::trim(total) == open + semicolons);
            lemma_without_semicolons(open, semicolons);
            lemma_trim_end(inner, gap);
            let bare = text::trim_end(inner);
            assert(bare == text::trim(sql));
            assert(open[0] == inner[0]);
            if bare.last() != ';' {
                if open.last() == ';' {
                    if gap.len() > 0 {
                        assert(open.last() == gap.last());
                        assert(text::is_space(gap[gap.len() - 1]));
                    } else {
                        assert(open =~= inner);
                        assert(bare == inner);
                    }
                }
                assert(lexing::without_semicolons(open) == open);
                assert(text::trim(open) == bare);
            } else {
                assert(open =~= inner);
                assert(inner.last() == sql.last());
                assert(bare == inner);
            }
        }
    }
}

/// A string that is written as a literal is read back.
pub proof fn a_written_string_is_read_back(s: Seq<char>)
    ensures
        literal()(lexing::quoted(s, '\'')) == Some(LiteralView::Text(s)),
{
    let q = lexing::quoted(s, '\'');
    lexing::quotes_come_off(s, '\'');
    assert(q[0] == '\'' && q.last() == '\'');
    assert(text::trim(q) == q);
    reveal_strlit("null");
    reveal_strlit("\\N");
    reveal_strlit("current_timestamp");
    assert(text::lower(q)[0] == '\'');
    assert(text::lower("null"@)[0] == 'n');
    assert(text::lower("\\N"@)[0] == '\\');
    assert(text::lower("current_timestamp"@)[0] == 'c');
}

/// A number that is written as a literal is read back.
pub proof fn a_written_number_is_read_back(n: i64)
    ensures
        literal()(text::decimal_int(n as int)) == Some(LiteralView::Int(n)),
{
    let d = text::decimal_int(n as int);
    text::decimal_form_reads_back(n as int, i64::MIN as int, i64::MAX as int);
    text::decimal_form_is_digits(n as int);
    let first = d[0];
    let last = d.last();
    assert(text::is_digit(last));
    assert(text::trim(d) == d);
    reveal_strlit("null");
    reveal_strlit("\\N");
    reveal_strlit("current_timestamp");
    assert(text::lower(d)[0] == first);
    assert(text::lower("null"@)[0] == 'n');
    assert(text::lower("\\N"@)[0] == '\\');
    assert(text::lower("current_timestamp"@)[0] == 'c');
}

pub(crate) proof fn lemma_lower_char(c: char)
    ensures
        text::is_space(text::lower_char(c)) == text::is_space(c),
        text::lower_char(text::lower_char(c)) == text::lower_char(c),
{
    if 'A' <= c <= 'Z' {
        let l = text::lower_char(c);
        assert(l as u32 == c as u32 + 32);
    }
}

pub open spec fn lower_all(s: Seq<Seq<char>>) -> Seq<Seq<char>> {
    Seq::new(s.len(), |i: int| text::lower(s[i]))
}

proof fn lemma_scan_lower(s: Seq<char>)
    ensures
        text::scan_words(text::lower(s)).words == lower_all(text::scan_words(s).words),
        text::scan_words(text::lower(s)).current == text::lower(text::scan_words(s).current),
    decreases s.len(),
{
    let l = text::lower(s);
    if s.len() == 0 {
        assert(text::scan_words(l).words =~= lower_all(text::scan_words(s).words));
        assert(text::scan_words(l).current =~= text::lower(text::scan_words(s).current));
    } else {
        lemma_scan_lower(s.drop_last());
        assert(l.drop_last() =~= text::lower(s.drop_last()));
        lemma_lower_char(s.last());
        let before = text::scan_words(s.drop_last());
        assert(lower_all(before.words.push(before.current)) =~= lower_all(before.words).push(
            text::lower(before.current),
        ));
        assert(text::lower(before.current.push(s.last())) =~= text::lower(before.current).push(
            text::lower_char(s.last()),
        ));
        assert(text::lower(Seq::<char>::empty()) =~= Seq::<char>::empty());
    }
}

proof fn lemma_joined_lower(parts: Seq<Seq<char>>, separator: Seq<char>)
    ensures
        text::lower(text::joined(lower_all(parts), separator)) == text::lower(
            text::joined(parts, separator),
        ),
    decreases parts.len(),
{
    let l = lower_all(parts);
    if parts.len() == 0 {
        assert(text::joined(l, separator) =~= text::joined(parts, separator));
    } else if parts.len() == 1 {
        lemma_lower_twice(parts[0]);
    } else {
        lemma_joined_lower(parts.drop_last(), separator);
        lemma_lower_twice(parts.last());
        assert(l.drop_last() =~= lower_all(parts.drop_last()));
        let a = text::joined(l.drop_last(), separator);
        let b = text::joined(parts.drop_last(), separator);
        assert(text::lower(a + separator + l.last()) =~= text::lower(a) + text::lower(separator)
            + text::lower(l.last()));
        assert(text::lower(b + separator + parts.last()) =~= text::lower(b) + text::lower(
            separator,
        ) + text::lower(parts.last()));
    }
}

pub(crate) proof fn lemma_lower_twice(s: Seq<char>)
    ensures
        text::lower(text::lower(s)) == text::lower(s),
{
    assert forall|i: int| 0 <= i < s.len() implies text::lower_char(
        text::lower_char(#[trigger] s[i]),
    ) == text::lower_char(s[i]) by {
        lemma_lower_char(s[i]);
    }
    assert(text::lower(text::lower(s)) =~= text::lower(s));
}

/// The case of a statement that is read as it stands does not matter.
pub proof fn fixed_statements_are_read_in_any_case(q: Seq<char>)
    ensures
        lexing::normal_form(text::lower(q)) == lexing::normal_form(q),
        fixed_query(text::lower(q)) == fixed_query(q),
        transaction(text::lower(q)) == transaction(q),
{
    lemma_scan_lower(q);
    let scan = text::scan_words(q);
    assert(text::words(text::lower(q)) =~= lower_all(text::words(q))) by {
        assert(lower_all(scan.words.push(scan.current)) =~= lower_all(scan.words).push(
            text::lower(scan.current),
        ));
    }
    lemma_joined_lower(text::words(q), " "@);
}

} // verus!
