//! The compiled-in catalogs, made of the bootstrap file and the description of
//! the first catalogs.

use vstd::prelude::*;

use crate::bootstrap::bki::{BkiColumn, BkiColumnView, BkiTable, BkiTableView};
use crate::bootstrap::cells;
use crate::bootstrap::cells::parse_catalog_oid;
use crate::bootstrap::schema::{SchemaColumn, SchemaColumnView, SchemaTable, SchemaTableView};
use crate::bootstrap::schema;
use crate::bootstrap::values;
use crate::catalog::model::{
    StaticCatalogColumn, StaticCatalogTable, VirtualCatalogPolicy, VirtualCatalogRecord, NAME_OID,
    TEXT_OID,
};
use crate::search;
use crate::text;
use crate::types::Oid;

verus! {

/// The type of arrays of rows.
pub const RECORD_ARRAY_OID: u32 = 2287;

pub open spec fn table_named(name: Seq<char>) -> spec_fn(BkiTableView) -> bool {
    |table: BkiTableView| table.name == name
}

/// The catalog with a name.
pub fn find_table<'a>(tables: &'a Vec<BkiTable>, name: &str) -> (r: Option<&'a BkiTable>)
    ensures
        match r {
            Some(table) => search::first_with(search::views(tables@), table_named(name@)) == Some(
                table@,
            ),
            None => search::first_with(search::views(tables@), table_named(name@)) is None,
        },
{
    let ghost all = search::views(tables@);
    let mut i: usize = 0;
    while i < tables.len()
        invariant
            i <= tables.len(),
            all == search::views(tables@),
            forall|j: int| 0 <= j < i ==> !table_named(name@)(#[trigger] all[j]),
        decreases tables.len() - i,
    {
        assert(all[i as int] == tables@[i as int]@);
        if text::same_text(tables[i].name.as_str(), name) {
            proof {
                search::first_index_at(all, table_named(name@), i as int);
            }
            return Some(&tables[i]);
        }
        i += 1;
    }
    assert(all.len() == tables@.len());
    proof {
        search::first_index_none(all, table_named(name@));
    }
    None
}

/// Whether a row has a name and an identifier, and the name is the one.
pub open spec fn names_the_type(pg_type: BkiTableView, name: Seq<char>) -> spec_fn(
    Seq<Option<Seq<char>>>,
) -> bool {
    |row: Seq<Option<Seq<char>>>|
        pg_type.value(row, "typname"@) == Some(name) && pg_type.value(row, "oid"@) is Some
}

/// The identifier of the type with a name: that of the last row that names it,
/// where one that is no number is zero.
pub open spec fn type_named(pg_type: BkiTableView, name: Seq<char>) -> Option<Oid> {
    match search::last_with(pg_type.rows, names_the_type(pg_type, name)) {
        Some(row) => Some(pg_type.oid_in(row, "oid"@)),
        None => None,
    }
}

proof fn lemma_last_with_at<T>(s: Seq<T>, p: spec_fn(T) -> bool, i: int)
    requires
        0 <= i < s.len(),
        p(s[i]),
        forall|j: int| i < j < s.len() ==> !p(#[trigger] s[j]),
    ensures
        search::last_with(s, p) == Some(s[i]),
    decreases s.len(),
{
    if i < s.len() - 1 {
        assert(!p(s[s.len() - 1]));
        let shorter = s.drop_last();
        assert forall|j: int| i < j < shorter.len() implies !p(#[trigger] shorter[j]) by {
            assert(shorter[j] == s[j]);
        }
        lemma_last_with_at(shorter, p, i);
    }
}

proof fn lemma_last_with_none<T>(s: Seq<T>, p: spec_fn(T) -> bool)
    requires
        forall|j: int| 0 <= j < s.len() ==> !p(#[trigger] s[j]),
    ensures
        search::last_with(s, p) is None,
    decreases s.len(),
{
    if s.len() > 0 {
        assert(!p(s[s.len() - 1]));
        let shorter = s.drop_last();
        assert forall|j: int| 0 <= j < shorter.len() implies !p(#[trigger] shorter[j]) by {
            assert(shorter[j] == s[j]);
        }
        lemma_last_with_none(shorter, p);
    }
}

/// The identifier of the type with a name.
pub fn type_oid_by_name(pg_type: &BkiTable, name: &str) -> (r: Option<Oid>)
    ensures
        r == type_named(pg_type@, name@),
{
    let ghost all = pg_type@.rows;
    let ghost p = names_the_type(pg_type@, name@);
    let mut i: usize = pg_type.rows.len();
    while i > 0
        invariant
            i <= pg_type.rows.len(),
            all == pg_type@.rows,
            p == names_the_type(pg_type@, name@),
            forall|j: int| i <= j < all.len() ==> !p(#[trigger] all[j]),
        decreases i,
    {
        let row = &pg_type.rows[i - 1];
        assert(all[i - 1] == values::row_texts(row@));
        let known = match cells::row_value(pg_type, row, "typname") {
            Some(s) => text::same_text(s, name),
            None => false,
        };
        if known && cells::row_value(pg_type, row, "oid").is_some() {
            proof {
                lemma_last_with_at(all, p, i - 1);
            }
            return Some(cells::oid_value(pg_type, row, "oid"));
        }
        assert(!p(all[i - 1]));
        i -= 1;
    }
    proof {
        lemma_last_with_none(all, p);
    }
    None
}

/// Whether a type is that of arrays of the rows of a catalog.
pub open spec fn is_row_array(tables: Seq<BkiTableView>, column_type: Seq<char>) -> bool {
    column_type.len() > 0 && column_type[0] == '_' && search::first_with(
        tables,
        table_named(column_type.drop_first()),
    ) is Some
}

fn names_row_array(tables: &Vec<BkiTable>, column_type: &str) -> (r: bool)
    ensures
        r == is_row_array(search::views(tables@), column_type@),
{
    let chars = text::chars_of(column_type);
    if chars.len() == 0 || chars[0] != '_' {
        return false;
    }
    let rest = text::slice_of(&chars, 1, chars.len());
    assert(rest@ =~= column_type@.drop_first());
    find_table(tables, text::string_of(&rest).as_str()).is_some()
}

/// The identifier of a type that is only known by its name: that of the type with
/// the name, that of arrays of rows, or none.
pub open spec fn type_for(
    tables: Seq<BkiTableView>,
    pg_type: BkiTableView,
    column_type: Seq<char>,
) -> Oid {
    match type_named(pg_type, column_type) {
        Some(oid) => oid,
        None => if is_row_array(tables, column_type) {
            Oid(RECORD_ARRAY_OID)
        } else {
            Oid(0)
        },
    }
}

pub open spec fn schema_column_named(name: Seq<char>) -> spec_fn(SchemaColumnView) -> bool {
    |column: SchemaColumnView| column.name == name
}

/// The description of a column of a catalog.
pub open spec fn description_of(
    schema: Seq<SchemaTableView>,
    table: Seq<char>,
    column: Seq<char>,
) -> Option<SchemaColumnView> {
    match search::first_with(schema, schema::is_named(table)) {
        Some(described) => search::first_with(described.columns, schema_column_named(column)),
        None => None,
    }
}

fn find_described<'a>(columns: &'a Vec<SchemaColumn>, name: &str) -> (r: Option<&'a SchemaColumn>)
    ensures
        match r {
            Some(column) => search::first_with(
                search::views(columns@),
                schema_column_named(name@),
            ) == Some(column@),
            None => search::first_with(
                search::views(columns@),
                schema_column_named(name@),
            ) is None,
        },
{
    let ghost all = search::views(columns@);
    let mut i: usize = 0;
    while i < columns.len()
        invariant
            i <= columns.len(),
            all == search::views(columns@),
            forall|j: int| 0 <= j < i ==> !schema_column_named(name@)(#[trigger] all[j]),
        decreases columns.len() - i,
    {
        assert(all[i as int] == columns@[i as int]@);
        if text::same_text(columns[i].name.as_str(), name) {
            proof {
                search::first_index_at(all, schema_column_named(name@), i as int);
            }
            return Some(&columns[i]);
        }
        i += 1;
    }
    assert(all.len() == columns@.len());
    proof {
        search::first_index_none(all, schema_column_named(name@));
    }
    None
}

/// The description of a column of a catalog.
pub fn find_description<'a>(schema: &'a Vec<SchemaTable>, table: &str, column: &str) -> (r: Option<
    &'a SchemaColumn,
>)
    ensures
        match r {
            Some(found) => description_of(search::views(schema@), table@, column@) == Some(found@),
            None => description_of(search::views(schema@), table@, column@) is None,
        },
{
    let ghost all = search::views(schema@);
    let mut i: usize = 0;
    while i < schema.len()
        invariant
            i <= schema.len(),
            all == search::views(schema@),
            forall|j: int| 0 <= j < i ==> !schema::is_named(table@)(#[trigger] all[j]),
        decreases schema.len() - i,
    {
        assert(all[i as int] == schema@[i as int]@);
        if text::same_text(schema[i].name.as_str(), table) {
            proof {
                search::first_index_at(all, schema::is_named(table@), i as int);
            }
            return find_described(&schema[i].columns, column);
        }
        i += 1;
    }
    assert(all.len() == schema@.len());
    proof {
        search::first_index_none(all, schema::is_named(table@));
    }
    None
}

/// A column of a compiled-in catalog: as it is described, or else by its type
/// alone.
pub open spec fn static_column(
    tables: Seq<BkiTableView>,
    pg_type: BkiTableView,
    description: Option<SchemaColumnView>,
    name: &'static str,
    column_type: &'static str,
) -> StaticCatalogColumn {
    match description {
        Some(d) => StaticCatalogColumn {
            name,
            column_type,
            type_oid: Oid(d.type_oid),
            attlen: d.attlen,
            attnum: d.attnum,
            attndims: d.attndims,
            attbyval: d.attbyval,
            attalign: d.attalign,
            attstorage: d.attstorage,
            attnotnull: d.attnotnull,
            attcollation: Oid(d.attcollation),
        },
        None => {
            let type_oid = type_for(tables, pg_type, column_type@);
            StaticCatalogColumn {
                name,
                column_type,
                type_oid,
                attlen: 0,
                attnum: 0,
                attndims: 0,
                attbyval: type_oid.0 != NAME_OID && type_oid.0 != TEXT_OID,
                attalign: 105,
                attstorage: 112,
                attnotnull: false,
                attcollation: Oid(0),
            }
        },
    }
}

/// Makes a column of a compiled-in catalog. The names, which the column points
/// to, are handed in by the caller, who keeps them.
pub fn static_catalog_column(
    tables: &Vec<BkiTable>,
    pg_type: &BkiTable,
    schema: &Vec<SchemaTable>,
    table: &BkiTable,
    column: &BkiColumn,
    name: &'static str,
    column_type: &'static str,
) -> (r: StaticCatalogColumn)
    requires
        column@ == (BkiColumnView { name: name@, column_type: column_type@ }),
    ensures
        r == static_column(
            search::views(tables@),
            pg_type@,
            description_of(search::views(schema@), table@.name, column@.name),
            name,
            column_type,
        ),
{
    match find_description(schema, table.name.as_str(), column.name.as_str()) {
        Some(d) => StaticCatalogColumn {
            name,
            column_type,
            type_oid: Oid(d.type_oid),
            attlen: d.attlen,
            attnum: d.attnum,
            attndims: d.attndims,
            attbyval: d.attbyval,
            attalign: d.attalign,
            attstorage: d.attstorage,
            attnotnull: d.attnotnull,
            attcollation: Oid(d.attcollation),
        },
        None => {
            let type_oid = match type_oid_by_name(pg_type, column_type) {
                Some(oid) => oid,
                None => if names_row_array(tables, column_type) {
                    Oid(RECORD_ARRAY_OID)
                } else {
                    Oid(0)
                },
            };
            StaticCatalogColumn {
                name,
                column_type,
                type_oid,
                attlen: 0,
                attnum: 0,
                attndims: 0,
                attbyval: type_oid.0 != NAME_OID && type_oid.0 != TEXT_OID,
                attalign: 105,
                attstorage: 112,
                attnotnull: false,
                attcollation: Oid(0),
            }
        },
    }
}

/// The identity of a row: its identifier, if it has one, or else one that is made
/// of the identifier of its catalog and its place.
pub open spec fn row_identity(
    table: BkiTableView,
    row: Seq<Option<Seq<char>>>,
    index: usize,
) -> u64 {
    match table.value(row, "oid"@) {
        Some(s) if cells::identifier(s) is Some => cells::identifier(s)->0 as u64,
        _ => ((table.oid as u64) << 32u64) | ((index + 1) as u64),
    }
}

/// The identity of the row of a catalog at a place.
pub fn static_row_id(table: &BkiTable, index: usize) -> (r: u64)
    requires
        index < table.rows@.len(),
    ensures
        r == row_identity(table@, table@.rows[index as int], index),
{
    let row = &table.rows[index];
    assert(table@.rows[index as int] == values::row_texts(row@));
    match cells::row_value(table, row, "oid") {
        Some(s) => match parse_catalog_oid(s) {
            Some(n) => return n as u64,
            None => {},
        },
        None => {},
    }
    let total = table.rows.len();
    assert(index < total);
    ((table.oid as u64) << 32u64) | (index as u64 + 1)
}

/// The catalogs whose rows change while the server runs.
pub open spec fn dynamic_catalogs() -> Seq<Seq<char>> {
    seq![
        "pg_class"@,
        "pg_attribute"@,
        "pg_index"@,
        "pg_constraint"@,
        "pg_type"@,
        "pg_proc"@,
        "pg_operator"@,
        "pg_cast"@,
        "pg_opclass"@,
        "pg_opfamily"@,
        "pg_amop"@,
        "pg_amproc"@,
        "pg_rewrite"@,
        "pg_indexes"@,
    ]
}

/// The catalogs whose rows are those that are compiled in.
pub open spec fn static_catalogs() -> Seq<Seq<char>> {
    seq![
        "pg_aggregate"@,
        "pg_namespace"@,
        "pg_am"@,
        "pg_statistic"@,
        "pg_statistic_ext"@,
        "pg_statistic_ext_data"@,
        "pg_authid"@,
        "pg_roles"@,
        "pg_auth_members"@,
        "pg_parameter_acl"@,
    ]
}

fn is_among(names: &Vec<&'static str>, name: &str) -> (r: bool)
    ensures
        r == search::views(names@).contains(name@),
{
    let ghost all = search::views(names@);
    let mut i: usize = 0;
    while i < names.len()
        invariant
            i <= names.len(),
            all == search::views(names@),
            forall|j: int| 0 <= j < i ==> #[trigger] all[j] != name@,
        decreases names.len() - i,
    {
        assert(all[i as int] == names@[i as int]@);
        if text::same_text(names[i], name) {
            return true;
        }
        i += 1;
    }
    assert(all.len() == names@.len());
    false
}

pub fn dynamic_catalog_names() -> (r: Vec<&'static str>)
    ensures
        search::views(r@) == dynamic_catalogs(),
{
    let r = vec![
        "pg_class",
        "pg_attribute",
        "pg_index",
        "pg_constraint",
        "pg_type",
        "pg_proc",
        "pg_operator",
        "pg_cast",
        "pg_opclass",
        "pg_opfamily",
        "pg_amop",
        "pg_amproc",
        "pg_rewrite",
        "pg_indexes",
    ];
    assert(search::views(r@) =~= dynamic_catalogs());
    r
}

pub fn static_catalog_names() -> (r: Vec<&'static str>)
    ensures
        search::views(r@) == static_catalogs(),
{
    let r = vec![
        "pg_aggregate",
        "pg_namespace",
        "pg_am",
        "pg_statistic",
        "pg_statistic_ext",
        "pg_statistic_ext_data",
        "pg_authid",
        "pg_roles",
        "pg_auth_members",
        "pg_parameter_acl",
    ];
    assert(search::views(r@) =~= static_catalogs());
    r
}

/// How the rows of a catalog come about, by its name.
pub open spec fn policy_of(name: Seq<char>) -> VirtualCatalogPolicy {
    if dynamic_catalogs().contains(name) {
        VirtualCatalogPolicy::Dynamic
    } else if static_catalogs().contains(name) {
        VirtualCatalogPolicy::Static
    } else {
        VirtualCatalogPolicy::Empty
    }
}

pub fn virtual_catalog_policy(name: &str) -> (r: VirtualCatalogPolicy)
    ensures
        r == policy_of(name@),
{
    if is_among(&dynamic_catalog_names(), name) {
        return VirtualCatalogPolicy::Dynamic;
    }
    if is_among(&static_catalog_names(), name) {
        VirtualCatalogPolicy::Static
    } else {
        VirtualCatalogPolicy::Empty
    }
}

/// The record of a catalog: its identifier, its name, and how its rows come about.
pub open spec fn virtual_record(table: StaticCatalogTable) -> VirtualCatalogRecord {
    VirtualCatalogRecord {
        relation_oid: table.oid,
        name: table.name,
        policy: policy_of(table.name@),
    }
}

/// The records of catalogs, in their order.
pub open spec fn virtual_records(tables: Seq<StaticCatalogTable>) -> Seq<VirtualCatalogRecord> {
    Seq::new(tables.len(), |i: int| virtual_record(tables[i]))
}

pub fn virtual_catalog_records(tables: &'static [StaticCatalogTable]) -> (r: Vec<
    VirtualCatalogRecord,
>)
    ensures
        r@ == virtual_records(tables@),
{
    let mut r: Vec<VirtualCatalogRecord> = Vec::new();
    let mut i: usize = 0;
    while i < tables.len()
        invariant
            i <= tables@.len(),
            r@ == virtual_records(tables@.take(i as int)),
        decreases tables@.len() - i,
    {
        let table = &tables[i];
        r.push(
            VirtualCatalogRecord {
                relation_oid: table.oid,
                name: table.name,
                policy: virtual_catalog_policy(table.name),
            },
        );
        assert(r@ =~= virtual_records(tables@.take(i + 1)));
        i += 1;
    }
    assert(tables@.take(i as int) =~= tables@);
    r
}

} // verus!
