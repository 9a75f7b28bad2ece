//! The compiled-in rows as catalog rows.

use vstd::prelude::*;

use crate::catalog::columns;
use crate::catalog::model;
use crate::catalog::model::{
    CatalogRow, CatalogRowView, CatalogValue, CatalogValueView, GeneratedCatalog, StaticCatalogRow,
    StaticCatalogTable, StaticCatalogValue, INVALID_OID, SYNTHETIC_CATALOG_ROWTYPE_OID_BASE,
};
use crate::catalog::nodes;
use crate::catalog::values;
use crate::search;
use crate::text;
use crate::types::Oid;

verus! {

pub fn static_catalogs(generated: &GeneratedCatalog) -> (r: &'static [StaticCatalogTable])
    ensures
        r == generated.tables,
{
    generated.tables
}

/// The identifier of the row type of a catalog that has none of its own.
pub open spec fn synthetic_rowtype(relation_oid: Oid) -> Oid {
    Oid(SYNTHETIC_CATALOG_ROWTYPE_OID_BASE | relation_oid.0)
}

/// The identifier of the row type of a catalog.
pub open spec fn rowtype_of(table: StaticCatalogTable) -> Oid {
    if table.rowtype_oid.0 != INVALID_OID {
        table.rowtype_oid
    } else {
        synthetic_rowtype(table.oid)
    }
}

pub fn synthetic_catalog_rowtype_oid(relation_oid: Oid) -> (r: Oid)
    ensures
        r == synthetic_rowtype(relation_oid),
{
    Oid(SYNTHETIC_CATALOG_ROWTYPE_OID_BASE | relation_oid.0)
}

pub fn static_catalog_table_rowtype_oid(table: &StaticCatalogTable) -> (r: Oid)
    ensures
        r == rowtype_of(*table),
{
    if table.rowtype_oid.0 != INVALID_OID {
        table.rowtype_oid
    } else {
        synthetic_catalog_rowtype_oid(table.oid)
    }
}

pub fn static_catalog_rowtype_oid(generated: &GeneratedCatalog, relation_oid: Oid) -> (r: Option<
    Oid,
>)
    ensures
        r == match columns::table_of(*generated, relation_oid) {
            Some(table) => Some(rowtype_of(table)),
            None => None,
        },
{
    match columns::static_catalog_by_relation_oid(generated, relation_oid) {
        Some(table) => Some(static_catalog_table_rowtype_oid(table)),
        None => None,
    }
}

/// The values of a compiled-in row, in the columns that its catalog has.
pub open spec fn converted_values(
    generated: GeneratedCatalog,
    table: StaticCatalogTable,
    row: StaticCatalogRow,
) -> Seq<CatalogValueView> {
    let n = if row.values@.len() < table.columns@.len() {
        row.values@.len()
    } else {
        table.columns@.len()
    };
    Seq::new(
        n,
        |i: int| values::static_value(generated.floats, table.columns@[i], row.values@[i]),
    )
}

/// A compiled-in row as a catalog row.
pub open spec fn static_row(
    generated: GeneratedCatalog,
    table: StaticCatalogTable,
    row: StaticCatalogRow,
) -> CatalogRowView {
    CatalogRowView {
        relation_oid: table.oid,
        row_id: row.row_id,
        values: nodes::with_proc_defaults(
            generated,
            table,
            converted_values(generated, table, row),
        ),
    }
}

pub fn static_row_to_catalog_row_uncached(
    generated: &GeneratedCatalog,
    table: &StaticCatalogTable,
    row: &StaticCatalogRow,
) -> (r: CatalogRow)
    ensures
        r@ == static_row(*generated, *table, *row),
{
    let mut list: Vec<CatalogValue> = Vec::new();
    let mut i: usize = 0;
    while i < row.values.len() && i < table.columns.len()
        invariant
            i <= row.values@.len(),
            i <= table.columns@.len(),
            list@.len() == i,
            forall|j: int|
                0 <= j < i ==> (#[trigger] list@[j])@ == values::static_value(
                    generated.floats,
                    table.columns@[j],
                    row.values@[j],
                ),
        decreases row.values@.len() - i,
    {
        list.push(
            values::static_value_to_catalog_value(
                &generated.floats,
                &table.columns[i],
                row.values[i],
            ),
        );
        i += 1;
    }
    assert(model::value_views(list@) =~= converted_values(*generated, *table, *row));
    nodes::normalize_pg_proc_bootstrap_defaults(generated, table, &mut list);
    CatalogRow { relation_oid: table.oid, row_id: row.row_id, values: list }
}

pub open spec fn row_has(row_id: u64) -> spec_fn(StaticCatalogRow) -> bool {
    |r: StaticCatalogRow| r.row_id == row_id
}

/// The compiled-in row that a row's identity names: the last of its catalog
/// with that identity, in the last catalog with the identifier.
pub open spec fn canonical_row(
    generated: GeneratedCatalog,
    table: StaticCatalogTable,
    row: StaticCatalogRow,
) -> Option<CatalogRowView> {
    match search::last_with(generated.tables@, columns::table_has(table.oid)) {
        Some(t) => match search::last_with(t.rows@, row_has(row.row_id)) {
            Some(r) => Some(static_row(generated, t, r)),
            None => None,
        },
        None => None,
    }
}

fn last_table(generated: &GeneratedCatalog, oid: Oid) -> (r: Option<&'static StaticCatalogTable>)
    ensures
        match r {
            Some(t) => search::last_with(generated.tables@, columns::table_has(oid)) == Some(*t),
            None => search::last_with(generated.tables@, columns::table_has(oid)) is None,
        },
{
    let mut i: usize = generated.tables.len();
    assert(generated.tables@.take(i as int) =~= generated.tables@);
    while i > 0
        invariant
            i <= generated.tables@.len(),
            search::last_with(generated.tables@, columns::table_has(oid)) == search::last_with(
                generated.tables@.take(i as int),
                columns::table_has(oid),
            ),
        decreases i,
    {
        assert(generated.tables@.take(i as int).drop_last() =~= generated.tables@.take(i - 1));
        if generated.tables[i - 1].oid == oid {
            return Some(&generated.tables[i - 1]);
        }
        i -= 1;
    }
    None
}

fn last_row(table: &StaticCatalogTable, row_id: u64) -> (r: Option<&'static StaticCatalogRow>)
    ensures
        match r {
            Some(row) => search::last_with(table.rows@, row_has(row_id)) == Some(*row),
            None => search::last_with(table.rows@, row_has(row_id)) is None,
        },
{
    let mut i: usize = table.rows.len();
    assert(table.rows@.take(i as int) =~= table.rows@);
    while i > 0
        invariant
            i <= table.rows@.len(),
            search::last_with(table.rows@, row_has(row_id)) == search::last_with(
                table.rows@.take(i as int),
                row_has(row_id),
            ),
        decreases i,
    {
        assert(table.rows@.take(i as int).drop_last() =~= table.rows@.take(i - 1));
        if table.rows[i - 1].row_id == row_id {
            return Some(&table.rows[i - 1]);
        }
        i -= 1;
    }
    None
}

pub fn static_catalog_cached_row(
    generated: &GeneratedCatalog,
    table: &StaticCatalogTable,
    row: &StaticCatalogRow,
) -> (r: Option<CatalogRow>)
    ensures
        match r {
            Some(found) => canonical_row(*generated, *table, *row) == Some(found@),
            None => canonical_row(*generated, *table, *row) is None,
        },
{
    match last_table(generated, table.oid) {
        Some(t) => match last_row(t, row.row_id) {
            Some(found) => Some(static_row_to_catalog_row_uncached(generated, t, found)),
            None => None,
        },
        None => None,
    }
}

/// A compiled-in row by its identity, or as it stands where no catalog holds it.
pub open spec fn named_row(
    generated: GeneratedCatalog,
    table: StaticCatalogTable,
    row: StaticCatalogRow,
) -> CatalogRowView {
    match canonical_row(generated, table, row) {
        Some(found) => found,
        None => static_row(generated, table, row),
    }
}

pub fn static_row_to_catalog_row(
    generated: &GeneratedCatalog,
    table: &StaticCatalogTable,
    row: &StaticCatalogRow,
) -> (r: CatalogRow)
    ensures
        r@ == named_row(*generated, *table, *row),
{
    match static_catalog_cached_row(generated, table, row) {
        Some(found) => found,
        None => static_row_to_catalog_row_uncached(generated, table, row),
    }
}

/// The value of a compiled-in row in the column with a name.
pub open spec fn static_column(
    generated: GeneratedCatalog,
    table: StaticCatalogTable,
    row: StaticCatalogRow,
    name: Seq<char>,
) -> Option<CatalogValueView> {
    match columns::position(table, name) {
        Some(i) if i < row.values@.len() => Some(
            values::static_value(generated.floats, table.columns@[i], row.values@[i]),
        ),
        _ => None,
    }
}

pub open spec fn static_oid(
    generated: GeneratedCatalog,
    table: StaticCatalogTable,
    row: StaticCatalogRow,
    name: Seq<char>,
) -> Option<Oid> {
    match static_column(generated, table, row, name) {
        Some(v) => columns::oid_of(generated, v),
        None => None,
    }
}

pub open spec fn static_bool(
    generated: GeneratedCatalog,
    table: StaticCatalogTable,
    row: StaticCatalogRow,
    name: Seq<char>,
) -> Option<bool> {
    match static_column(generated, table, row, name) {
        Some(v) => columns::bool_of(v),
        None => None,
    }
}

pub open spec fn static_i16(
    generated: GeneratedCatalog,
    table: StaticCatalogTable,
    row: StaticCatalogRow,
    name: Seq<char>,
) -> Option<i16> {
    match static_column(generated, table, row, name) {
        Some(v) => columns::i16_of(v),
        None => None,
    }
}

pub fn static_row_column_value(
    generated: &GeneratedCatalog,
    table: &StaticCatalogTable,
    row: &StaticCatalogRow,
    column_name: &str,
) -> (r: Option<CatalogValue>)
    ensures
        match r {
            Some(v) => static_column(*generated, *table, *row, column_name@) == Some(v@),
            None => static_column(*generated, *table, *row, column_name@) is None,
        },
{
    match columns::column_position(table, column_name) {
        Some(i) => if i < row.values.len() {
            Some(
                values::static_value_to_catalog_value(
                    &generated.floats,
                    &table.columns[i],
                    row.values[i],
                ),
            )
        } else {
            None
        },
        None => None,
    }
}

pub fn static_row_column_oid(
    generated: &GeneratedCatalog,
    table: &StaticCatalogTable,
    row: &StaticCatalogRow,
    column_name: &str,
) -> (r: Option<Oid>)
    ensures
        r == static_oid(*generated, *table, *row, column_name@),
{
    match static_row_column_value(generated, table, row, column_name) {
        Some(v) => columns::catalog_value_oid(generated, &v),
        None => None,
    }
}

pub fn static_row_column_bool(
    generated: &GeneratedCatalog,
    table: &StaticCatalogTable,
    row: &StaticCatalogRow,
    column_name: &str,
) -> (r: Option<bool>)
    ensures
        r == static_bool(*generated, *table, *row, column_name@),
{
    match static_row_column_value(generated, table, row, column_name) {
        Some(v) => columns::catalog_value_bool(&v),
        None => None,
    }
}

pub fn static_row_column_i16(
    generated: &GeneratedCatalog,
    table: &StaticCatalogTable,
    row: &StaticCatalogRow,
    column_name: &str,
) -> (r: Option<i16>)
    ensures
        r == static_i16(*generated, *table, *row, column_name@),
{
    match static_row_column_value(generated, table, row, column_name) {
        Some(v) => columns::catalog_value_i16(&v),
        None => None,
    }
}

/// Whether the text of a compiled-in row in a column is the normalized name,
/// as it stands or once it is normalized itself.
pub open spec fn static_names(
    table: StaticCatalogTable,
    row: StaticCatalogRow,
    column: Seq<char>,
    name: Seq<char>,
) -> bool {
    match columns::position(table, column) {
        Some(i) if i < row.values@.len() => match row.values@[i] {
            StaticCatalogValue::Raw(s) => s@ == name || model::normalized(s@) == name,
            StaticCatalogValue::Null => false,
        },
        _ => false,
    }
}

pub fn static_row_column_identifier_matches(
    table: &StaticCatalogTable,
    row: &StaticCatalogRow,
    column_name: &str,
    normalized: &str,
) -> (r: bool)
    ensures
        r == static_names(*table, *row, column_name@, normalized@),
{
    match columns::column_position(table, column_name) {
        Some(i) => if i < row.values.len() {
            match row.values[i] {
                StaticCatalogValue::Raw(s) => text::same_text(s, normalized) || {
                    let folded = model::normalize_identifier(s);
                    text::same_text(folded.as_str(), normalized)
                },
                StaticCatalogValue::Null => false,
            }
        } else {
            false
        },
        None => false,
    }
}

pub open spec fn row_names(
    table: StaticCatalogTable,
    row: CatalogRowView,
    column: Seq<char>,
    name: Seq<char>,
) -> bool {
    match columns::row_value(table, row, column) {
        Some(v) => columns::names(v, name),
        None => false,
    }
}

pub fn catalog_row_identifier_matches(
    table: &StaticCatalogTable,
    row: &CatalogRow,
    column_name: &str,
    normalized: &str,
) -> (r: bool)
    ensures
        r == row_names(*table, row@, column_name@, normalized@),
{
    match columns::catalog_row_value(table, row, column_name) {
        Some(v) => columns::catalog_value_identifier_matches(v, normalized),
        None => false,
    }
}

} // verus!
