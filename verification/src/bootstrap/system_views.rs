//! The views that are there from the start, which no bootstrap file describes.

use vstd::prelude::*;

use crate::bootstrap::bki;
use crate::bootstrap::bki::{BkiColumn, BkiColumnView, BkiTable, BkiTableView};
use crate::bootstrap::cells;
use crate::bootstrap::tables;
use crate::bootstrap::values;
use crate::catalog::model::{INVALID_OID, PG_INDEXES_RELATION_OID, PG_ROLES_RELATION_OID};
use crate::search;
use crate::text;

verus! {

/// Columns, by their names and the names of their types.
pub open spec fn columns_of(list: Seq<(Seq<char>, Seq<char>)>) -> Seq<BkiColumnView> {
    Seq::new(list.len(), |i: int| BkiColumnView { name: list[i].0, column_type: list[i].1 })
}

/// The columns of the view of roles.
pub open spec fn role_columns() -> Seq<(Seq<char>, Seq<char>)> {
    seq![
        ("rolname"@, "name"@),
        ("rolsuper"@, "bool"@),
        ("rolinherit"@, "bool"@),
        ("rolcreaterole"@, "bool"@),
        ("rolcreatedb"@, "bool"@),
        ("rolcanlogin"@, "bool"@),
        ("rolreplication"@, "bool"@),
        ("rolconnlimit"@, "int4"@),
        ("rolpassword"@, "text"@),
        ("rolvaliduntil"@, "timestamptz"@),
        ("rolbypassrls"@, "bool"@),
        ("rolconfig"@, "_text"@),
        ("oid"@, "oid"@),
    ]
}

/// The columns of the view of indexes.
pub open spec fn index_columns() -> Seq<(Seq<char>, Seq<char>)> {
    seq![
        ("schemaname"@, "name"@),
        ("tablename"@, "name"@),
        ("indexname"@, "name"@),
        ("tablespace"@, "name"@),
        ("indexdef"@, "text"@),
    ]
}

/// What the view of roles shows of a role in a column: no password is shown, and
/// everything else as the catalog of roles has it.
pub open spec fn role_value(
    authid: BkiTableView,
    row: Seq<Option<Seq<char>>>,
    column: Seq<char>,
) -> Option<Seq<char>> {
    if column == "rolpassword"@ {
        Some("********"@)
    } else {
        authid.value(row, column)
    }
}

pub open spec fn role_row(authid: BkiTableView, row: Seq<Option<Seq<char>>>) -> Seq<
    Option<Seq<char>>,
> {
    Seq::new(role_columns().len(), |i: int| role_value(authid, row, role_columns()[i].0))
}

/// The view of roles, with a row for each role that the catalog of roles starts
/// with.
pub open spec fn roles(all: Seq<BkiTableView>) -> BkiTableView {
    BkiTableView {
        name: "pg_roles"@,
        oid: PG_ROLES_RELATION_OID,
        rowtype_oid: INVALID_OID,
        columns: columns_of(role_columns()),
        rows: match search::first_with(all, tables::table_named("pg_authid"@)) {
            Some(authid) => Seq::new(
                authid.rows.len(),
                |i: int| role_row(authid, authid.rows[i]),
            ),
            None => seq![],
        },
    }
}

/// The view of indexes. Its rows follow from those of other catalogs.
pub open spec fn indexes() -> BkiTableView {
    BkiTableView {
        name: "pg_indexes"@,
        oid: PG_INDEXES_RELATION_OID,
        rowtype_oid: INVALID_OID,
        columns: columns_of(index_columns()),
        rows: seq![],
    }
}

fn bki_columns(list: &Vec<(&'static str, &'static str)>) -> (r: Vec<BkiColumn>)
    ensures
        search::views(r@) == columns_of(pairs(list@)),
{
    let mut r: Vec<BkiColumn> = Vec::new();
    let mut i: usize = 0;
    while i < list.len()
        invariant
            i <= list@.len(),
            r@.len() == i,
            forall|j: int|
                0 <= j < i ==> (#[trigger] r@[j])@ == (BkiColumnView {
                    name: list@[j].0@,
                    column_type: list@[j].1@,
                }),
        decreases list@.len() - i,
    {
        r.push(BkiColumn { name: list[i].0.to_owned(), column_type: list[i].1.to_owned() });
        i += 1;
    }
    assert(search::views(r@) =~= columns_of(pairs(list@)));
    r
}

spec fn pairs(list: Seq<(&'static str, &'static str)>) -> Seq<(Seq<char>, Seq<char>)> {
    Seq::new(list.len(), |i: int| (list[i].0@, list[i].1@))
}

fn role_column_list() -> (r: Vec<(&'static str, &'static str)>)
    ensures
        pairs(r@) == role_columns(),
{
    let r = vec![
        ("rolname", "name"),
        ("rolsuper", "bool"),
        ("rolinherit", "bool"),
        ("rolcreaterole", "bool"),
        ("rolcreatedb", "bool"),
        ("rolcanlogin", "bool"),
        ("rolreplication", "bool"),
        ("rolconnlimit", "int4"),
        ("rolpassword", "text"),
        ("rolvaliduntil", "timestamptz"),
        ("rolbypassrls", "bool"),
        ("rolconfig", "_text"),
        ("oid", "oid"),
    ];
    assert(pairs(r@) =~= role_columns());
    r
}

fn make_role_row(
    authid: &BkiTable,
    row: &Vec<Option<String>>,
    list: &Vec<(&'static str, &'static str)>,
) -> (r: Vec<Option<String>>)
    requires
        pairs(list@) == role_columns(),
    ensures
        values::row_texts(r@) == role_row(authid@, values::row_texts(row@)),
{
    let ghost texts = values::row_texts(row@);
    let mut r: Vec<Option<String>> = Vec::new();
    let mut i: usize = 0;
    while i < list.len()
        invariant
            i <= list@.len(),
            texts == values::row_texts(row@),
            r@.len() == i,
            forall|j: int|
                0 <= j < i ==> search::option_view(#[trigger] r@[j]) == role_value(
                    authid@,
                    texts,
                    list@[j].0@,
                ),
        decreases list@.len() - i,
    {
        let value = if text::same_text(list[i].0, "rolpassword") {
            Some("********".to_owned())
        } else {
            match cells::row_value(authid, row, list[i].0) {
                Some(s) => Some(s.to_owned()),
                None => None,
            }
        };
        r.push(value);
        i += 1;
    }
    proof {
        assert(pairs(list@).len() == list@.len());
        assert forall|j: int| 0 <= j < r@.len() implies values::row_texts(r@)[j] == role_row(
            authid@,
            texts,
        )[j] by {
            assert(search::option_view(r@[j]) == role_value(authid@, texts, list@[j].0@));
            assert(pairs(list@)[j].0 == list@[j].0@);
        }
    }
    assert(values::row_texts(r@) =~= role_row(authid@, texts));
    r
}

pub fn roles_view(all: &Vec<BkiTable>) -> (r: BkiTable)
    ensures
        r@ == roles(search::views(all@)),
{
    let list = role_column_list();
    let columns = bki_columns(&list);
    let mut rows: Vec<Vec<Option<String>>> = Vec::new();
    match tables::find_table(all, "pg_authid") {
        Some(authid) => {
            let mut i: usize = 0;
            while i < authid.rows.len()
                invariant
                    i <= authid.rows@.len(),
                    pairs(list@) == role_columns(),
                    rows@.len() == i,
                    forall|j: int|
                        0 <= j < i ==> values::row_texts((#[trigger] rows@[j])@) == role_row(
                            authid@,
                            authid@.rows[j],
                        ),
                decreases authid.rows@.len() - i,
            {
                let row = make_role_row(authid, &authid.rows[i], &list);
                assert(authid@.rows[i as int] == values::row_texts(authid.rows@[i as int]@));
                rows.push(row);
                i += 1;
            }
            assert(bki::rows_of(rows@) =~= roles(search::views(all@)).rows);
        },
        None => {
            assert(bki::rows_of(rows@) =~= seq![]);
        },
    }
    BkiTable {
        name: "pg_roles".to_owned(),
        oid: PG_ROLES_RELATION_OID,
        rowtype_oid: INVALID_OID,
        columns,
        rows,
    }
}

pub fn indexes_view() -> (r: BkiTable)
    ensures
        r@ == indexes(),
{
    let list = vec![
        ("schemaname", "name"),
        ("tablename", "name"),
        ("indexname", "name"),
        ("tablespace", "name"),
        ("indexdef", "text"),
    ];
    assert(pairs(list@) =~= index_columns());
    let rows: Vec<Vec<Option<String>>> = Vec::new();
    assert(bki::rows_of(rows@) =~= seq![]);
    BkiTable {
        name: "pg_indexes".to_owned(),
        oid: PG_INDEXES_RELATION_OID,
        rowtype_oid: INVALID_OID,
        columns: bki_columns(&list),
        rows,
    }
}

/// The catalogs of the bootstrap file with the views behind them.
pub fn with_system_views(all: Vec<BkiTable>) -> (r: Vec<BkiTable>)
    ensures
        search::views(r@) == search::views(all@).push(roles(search::views(all@))).push(indexes()),
{
    let ghost before = search::views(all@);
    let roles_table = roles_view(&all);
    let mut r = all;
    r.push(roles_table);
    r.push(indexes_view());
    assert(search::views(r@) =~= before.push(roles(before)).push(indexes()));
    r
}

} // verus!
