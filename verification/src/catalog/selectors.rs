//! Which rows of a catalog a reader asks for.

use vstd::prelude::*;

use crate::catalog::columns;
use crate::catalog::meta;
use crate::catalog::model::{
    CatalogRow, CatalogRowView, CatalogValue, CatalogValueView, GeneratedCatalog, StaticCatalogRow,
    StaticCatalogTable, StaticCatalogValue,
};
use crate::catalog::static_rows;
use crate::catalog::values;
use crate::text;
use crate::types::Oid;

verus! {

/// A value that a column is compared with.
#[derive(Clone, Debug, PartialEq, Eq, Hash)]
pub enum CatalogFilterValue {
    Bool(bool),
    Char(u8),
    Int16(i16),
    Int32(i32),
    Oid(Oid),
    Name(String),
}

/// A column, by its number from one, and the value that it must have.
#[derive(Clone, Debug, PartialEq, Eq, Hash)]
pub struct CatalogRowFilter {
    pub attnum: i16,
    pub value: CatalogFilterValue,
}

/// Whether a value is the one that is asked for.
pub open spec fn value_matches(value: CatalogValueView, filter: CatalogFilterValue) -> bool {
    match (value, filter) {
        (CatalogValueView::Bool(a), CatalogFilterValue::Bool(b)) => a == b,
        (CatalogValueView::Char(a), CatalogFilterValue::Char(b)) => a == b,
        (CatalogValueView::Int16(a), CatalogFilterValue::Int16(b)) => a == b,
        (CatalogValueView::Int32(a), CatalogFilterValue::Int32(b)) => a == b,
        (CatalogValueView::Oid(a), CatalogFilterValue::Oid(b)) => a == b,
        (CatalogValueView::Name(a), CatalogFilterValue::Name(b)) => a == b@,
        (CatalogValueView::Text(a), CatalogFilterValue::Name(b)) => a == b@,
        (CatalogValueView::Raw(a), CatalogFilterValue::Name(b)) => a == b@,
        _ => false,
    }
}

pub fn catalog_value_matches_filter(value: &CatalogValue, filter: &CatalogFilterValue) -> (r: bool)
    ensures
        r == value_matches(value@, *filter),
{
    match (value, filter) {
        (CatalogValue::Bool(a), CatalogFilterValue::Bool(b)) => *a == *b,
        (CatalogValue::Char(a), CatalogFilterValue::Char(b)) => *a == *b,
        (CatalogValue::Int16(a), CatalogFilterValue::Int16(b)) => *a == *b,
        (CatalogValue::Int32(a), CatalogFilterValue::Int32(b)) => *a == *b,
        (CatalogValue::Oid(a), CatalogFilterValue::Oid(b)) => *a == *b,
        (CatalogValue::Name(a), CatalogFilterValue::Name(b)) => text::same_text(
            a.as_str(),
            b.as_str(),
        ),
        (CatalogValue::Text(a), CatalogFilterValue::Name(b)) => text::same_text(
            a.as_str(),
            b.as_str(),
        ),
        (CatalogValue::Raw(a), CatalogFilterValue::Name(b)) => text::same_text(
            a.as_str(),
            b.as_str(),
        ),
        _ => false,
    }
}

/// Whether a compiled-in row passes a filter.
pub open spec fn static_passes(
    generated: GeneratedCatalog,
    table: StaticCatalogTable,
    row: StaticCatalogRow,
    filter: CatalogRowFilter,
) -> bool {
    let i = filter.attnum - 1;
    &&& 0 <= i < table.columns@.len()
    &&& i < row.values@.len()
    &&& row.values@[i] !is Null
    &&& value_matches(
        values::static_value(generated.floats, table.columns@[i], row.values@[i]),
        filter.value,
    )
}

/// Whether a row passes a filter.
pub open spec fn row_passes(
    table: StaticCatalogTable,
    row: CatalogRowView,
    filter: CatalogRowFilter,
) -> bool {
    let i = filter.attnum - 1;
    &&& 0 <= i < table.columns@.len()
    &&& i < row.values.len()
    &&& row.values[i] !is Null
    &&& value_matches(row.values[i], filter.value)
}

/// Whether a compiled-in row passes every filter.
pub open spec fn static_passes_all(
    generated: GeneratedCatalog,
    table: StaticCatalogTable,
    row: StaticCatalogRow,
    filters: Seq<CatalogRowFilter>,
) -> bool {
    forall|j: int|
        0 <= j < filters.len() ==> static_passes(generated, table, row, #[trigger] filters[j])
}

/// Whether a row passes every filter.
pub open spec fn row_passes_all(
    table: StaticCatalogTable,
    row: CatalogRowView,
    filters: Seq<CatalogRowFilter>,
) -> bool {
    forall|j: int| 0 <= j < filters.len() ==> row_passes(table, row, #[trigger] filters[j])
}

pub fn static_row_matches_filters(
    generated: &GeneratedCatalog,
    table: &StaticCatalogTable,
    row: &StaticCatalogRow,
    filters: &[CatalogRowFilter],
) -> (r: bool)
    ensures
        r == static_passes_all(*generated, *table, *row, filters@),
{
    let mut i: usize = 0;
    while i < filters.len()
        invariant
            i <= filters@.len(),
            forall|j: int|
                0 <= j < i ==> static_passes(*generated, *table, *row, #[trigger] filters@[j]),
        decreases filters@.len() - i,
    {
        let attnum: i16 = filters[i].attnum;
        if attnum < 1 {
            assert(!static_passes(*generated, *table, *row, filters@[i as int]));
            return false;
        }
        let at: usize = (attnum - 1) as usize;
        if at >= table.columns.len() || at >= row.values.len() {
            assert(!static_passes(*generated, *table, *row, filters@[i as int]));
            return false;
        }
        let passes = match row.values[at] {
            StaticCatalogValue::Null => false,
            StaticCatalogValue::Raw(_) => {
                let value = values::static_value_to_catalog_value(
                    &generated.floats,
                    &table.columns[at],
                    row.values[at],
                );
                catalog_value_matches_filter(&value, &filters[i].value)
            },
        };
        if !passes {
            assert(!static_passes(*generated, *table, *row, filters@[i as int]));
            return false;
        }
        i += 1;
    }
    true
}

pub fn catalog_row_matches_filters(
    table: &StaticCatalogTable,
    row: &CatalogRow,
    filters: &[CatalogRowFilter],
) -> (r: bool)
    ensures
        r == row_passes_all(*table, row@, filters@),
{
    let mut i: usize = 0;
    while i < filters.len()
        invariant
            i <= filters@.len(),
            forall|j: int| 0 <= j < i ==> row_passes(*table, row@, #[trigger] filters@[j]),
        decreases filters@.len() - i,
    {
        let attnum: i16 = filters[i].attnum;
        if attnum < 1 {
            assert(!row_passes(*table, row@, filters@[i as int]));
            return false;
        }
        let at: usize = (attnum - 1) as usize;
        if at >= table.columns.len() || at >= row.values.len() {
            assert(!row_passes(*table, row@, filters@[i as int]));
            return false;
        }
        let passes = match &row.values[at] {
            CatalogValue::Null => false,
            value => catalog_value_matches_filter(value, &filters[i].value),
        };
        if !passes {
            assert(!row_passes(*table, row@, filters@[i as int]));
            return false;
        }
        i += 1;
    }
    true
}

/// Which rows of a catalog are asked for.
pub enum RowSelector<'a> {
    /// Every row.
    All,
    /// The rows that pass every filter.
    Filters(&'a [CatalogRowFilter]),
    /// The relation with an identifier.
    ClassWithOid(Oid),
    /// The relations that go by a normalized name.
    ClassNamed(&'a str),
    /// The relations that go by a normalized name in a schema.
    ClassNamedIn(&'a str, Oid),
    /// The columns of a relation.
    ColumnsOf(Oid),
    /// The column of a relation at a place.
    ColumnAt(Oid, i16),
    /// The index with an identifier.
    IndexWithOid(Oid),
    /// The indexes of a relation.
    IndexesOf(Oid),
    /// The unique indexes of a relation that are in use.
    UniqueIndexesOf(Oid),
    /// The primary key of a relation.
    PrimaryKeyOf(Oid),
    /// The constraints of a relation.
    ConstraintsOf(Oid),
}

/// Which rows of a catalog are asked for.
pub enum SelectorView {
    All,
    Filters(Seq<CatalogRowFilter>),
    ClassWithOid(Oid),
    ClassNamed(Seq<char>),
    ClassNamedIn(Seq<char>, Oid),
    ColumnsOf(Oid),
    ColumnAt(Oid, i16),
    IndexWithOid(Oid),
    IndexesOf(Oid),
    UniqueIndexesOf(Oid),
    PrimaryKeyOf(Oid),
    ConstraintsOf(Oid),
}

impl<'a> View for RowSelector<'a> {
    type V = SelectorView;

    open spec fn view(&self) -> SelectorView {
        match self {
            RowSelector::All => SelectorView::All,
            RowSelector::Filters(filters) => SelectorView::Filters(filters@),
            RowSelector::ClassWithOid(oid) => SelectorView::ClassWithOid(*oid),
            RowSelector::ClassNamed(name) => SelectorView::ClassNamed(name@),
            RowSelector::ClassNamedIn(name, namespace) => SelectorView::ClassNamedIn(
                name@,
                *namespace,
            ),
            RowSelector::ColumnsOf(oid) => SelectorView::ColumnsOf(*oid),
            RowSelector::ColumnAt(oid, attnum) => SelectorView::ColumnAt(*oid, *attnum),
            RowSelector::IndexWithOid(oid) => SelectorView::IndexWithOid(*oid),
            RowSelector::IndexesOf(oid) => SelectorView::IndexesOf(*oid),
            RowSelector::UniqueIndexesOf(oid) => SelectorView::UniqueIndexesOf(*oid),
            RowSelector::PrimaryKeyOf(oid) => SelectorView::PrimaryKeyOf(*oid),
            RowSelector::ConstraintsOf(oid) => SelectorView::ConstraintsOf(*oid),
        }
    }
}

/// Whether a compiled-in row is asked for.
pub open spec fn selects_static(
    generated: GeneratedCatalog,
    table: StaticCatalogTable,
    row: StaticCatalogRow,
    sel: SelectorView,
) -> bool {
    match sel {
        SelectorView::All => true,
        SelectorView::Filters(filters) => static_passes_all(generated, table, row, filters),
        SelectorView::ClassWithOid(oid) => static_rows::static_oid(generated, table, row, "oid"@)
            == Some(oid),
        SelectorView::ClassNamed(name) => static_rows::static_names(
            table,
            row,
            "relname"@,
            name,
        ),
        SelectorView::ClassNamedIn(name, namespace) => static_rows::static_names(
            table,
            row,
            "relname"@,
            name,
        ) && static_rows::static_oid(generated, table, row, "relnamespace"@) == Some(namespace),
        SelectorView::ColumnsOf(relation) => static_rows::static_oid(
            generated,
            table,
            row,
            "attrelid"@,
        ) == Some(relation),
        SelectorView::ColumnAt(relation, attnum) => static_rows::static_oid(
            generated,
            table,
            row,
            "attrelid"@,
        ) == Some(relation) && static_rows::static_i16(generated, table, row, "attnum"@) == Some(
            attnum,
        ),
        SelectorView::IndexWithOid(oid) => static_rows::static_oid(
            generated,
            table,
            row,
            "indexrelid"@,
        ) == Some(oid),
        SelectorView::IndexesOf(relation) => static_rows::static_oid(
            generated,
            table,
            row,
            "indrelid"@,
        ) == Some(relation),
        SelectorView::UniqueIndexesOf(relation) => {
            &&& static_rows::static_oid(generated, table, row, "indrelid"@) == Some(relation)
            &&& meta::or(static_rows::static_bool(generated, table, row, "indisunique"@), false)
            &&& meta::or(static_rows::static_bool(generated, table, row, "indisvalid"@), true)
            &&& meta::or(static_rows::static_bool(generated, table, row, "indisready"@), true)
            &&& meta::or(static_rows::static_bool(generated, table, row, "indislive"@), true)
        },
        SelectorView::PrimaryKeyOf(relation) => {
            &&& static_rows::static_oid(generated, table, row, "indrelid"@) == Some(relation)
            &&& meta::or(static_rows::static_bool(generated, table, row, "indisprimary"@), false)
        },
        SelectorView::ConstraintsOf(relation) => static_rows::static_oid(
            generated,
            table,
            row,
            "conrelid"@,
        ) == Some(relation),
    }
}

/// Whether a row is asked for.
pub open spec fn selects(
    generated: GeneratedCatalog,
    table: StaticCatalogTable,
    row: CatalogRowView,
    sel: SelectorView,
) -> bool {
    match sel {
        SelectorView::All => true,
        SelectorView::Filters(filters) => row_passes_all(table, row, filters),
        SelectorView::ClassWithOid(oid) => meta::oid_at(generated, table, row, "oid"@) == Some(oid),
        SelectorView::ClassNamed(name) => static_rows::row_names(table, row, "relname"@, name),
        SelectorView::ClassNamedIn(name, namespace) => static_rows::row_names(
            table,
            row,
            "relname"@,
            name,
        ) && meta::oid_at(generated, table, row, "relnamespace"@) == Some(namespace),
        SelectorView::ColumnsOf(relation) => meta::oid_at(generated, table, row, "attrelid"@)
            == Some(relation),
        SelectorView::ColumnAt(relation, attnum) => meta::oid_at(
            generated,
            table,
            row,
            "attrelid"@,
        ) == Some(relation) && meta::i16_at(table, row, "attnum"@) == Some(attnum),
        SelectorView::IndexWithOid(oid) => meta::oid_at(generated, table, row, "indexrelid"@)
            == Some(oid),
        SelectorView::IndexesOf(relation) => meta::oid_at(generated, table, row, "indrelid"@)
            == Some(relation),
        SelectorView::UniqueIndexesOf(relation) => {
            &&& meta::oid_at(generated, table, row, "indrelid"@) == Some(relation)
            &&& meta::or(meta::bool_at(table, row, "indisunique"@), false)
            &&& meta::or(meta::bool_at(table, row, "indisvalid"@), true)
            &&& meta::or(meta::bool_at(table, row, "indisready"@), true)
            &&& meta::or(meta::bool_at(table, row, "indislive"@), true)
        },
        SelectorView::PrimaryKeyOf(relation) => match meta::index_of_row(generated, row) {
            Some(record) => record.relation_oid == relation && record.is_primary,
            None => false,
        },
        SelectorView::ConstraintsOf(relation) => meta::oid_at(generated, table, row, "conrelid"@)
            == Some(relation),
    }
}

fn is_oid(v: Option<Oid>, wanted: Oid) -> (r: bool)
    ensures
        r == (v == Some(wanted)),
{
    match v {
        Some(oid) => oid == wanted,
        None => false,
    }
}

fn is_i16(v: Option<i16>, wanted: i16) -> (r: bool)
    ensures
        r == (v == Some(wanted)),
{
    match v {
        Some(n) => n == wanted,
        None => false,
    }
}

pub fn static_row_selected(
    generated: &GeneratedCatalog,
    table: &StaticCatalogTable,
    row: &StaticCatalogRow,
    sel: &RowSelector,
) -> (r: bool)
    ensures
        r == selects_static(*generated, *table, *row, sel@),
{
    match sel {
        RowSelector::All => true,
        RowSelector::Filters(filters) => static_row_matches_filters(
            generated,
            table,
            row,
            filters,
        ),
        RowSelector::ClassWithOid(oid) => is_oid(
            static_rows::static_row_column_oid(generated, table, row, "oid"),
            *oid,
        ),
        RowSelector::ClassNamed(name) => static_rows::static_row_column_identifier_matches(
            table,
            row,
            "relname",
            name,
        ),
        RowSelector::ClassNamedIn(name, namespace) =>
        static_rows::static_row_column_identifier_matches(table, row, "relname", name) && is_oid(
            static_rows::static_row_column_oid(generated, table, row, "relnamespace"),
            *namespace,
        ),
        RowSelector::ColumnsOf(relation) => is_oid(
            static_rows::static_row_column_oid(generated, table, row, "attrelid"),
            *relation,
        ),
        RowSelector::ColumnAt(relation, attnum) => is_oid(
            static_rows::static_row_column_oid(generated, table, row, "attrelid"),
            *relation,
        ) && is_i16(
            static_rows::static_row_column_i16(generated, table, row, "attnum"),
            *attnum,
        ),
        RowSelector::IndexWithOid(oid) => is_oid(
            static_rows::static_row_column_oid(generated, table, row, "indexrelid"),
            *oid,
        ),
        RowSelector::IndexesOf(relation) => is_oid(
            static_rows::static_row_column_oid(generated, table, row, "indrelid"),
            *relation,
        ),
        RowSelector::UniqueIndexesOf(relation) => is_oid(
            static_rows::static_row_column_oid(generated, table, row, "indrelid"),
            *relation,
        ) && meta::value_or(
            static_rows::static_row_column_bool(generated, table, row, "indisunique"),
            false,
        ) && meta::value_or(
            static_rows::static_row_column_bool(generated, table, row, "indisvalid"),
            true,
        ) && meta::value_or(
            static_rows::static_row_column_bool(generated, table, row, "indisready"),
            true,
        ) && meta::value_or(
            static_rows::static_row_column_bool(generated, table, row, "indislive"),
            true,
        ),
        RowSelector::PrimaryKeyOf(relation) => is_oid(
            static_rows::static_row_column_oid(generated, table, row, "indrelid"),
            *relation,
        ) && meta::value_or(
            static_rows::static_row_column_bool(generated, table, row, "indisprimary"),
            false,
        ),
        RowSelector::ConstraintsOf(relation) => is_oid(
            static_rows::static_row_column_oid(generated, table, row, "conrelid"),
            *relation,
        ),
    }
}

pub fn row_selected(
    generated: &GeneratedCatalog,
    table: &StaticCatalogTable,
    row: &CatalogRow,
    sel: &RowSelector,
) -> (r: bool)
    ensures
        r == selects(*generated, *table, row@, sel@),
{
    match sel {
        RowSelector::All => true,
        RowSelector::Filters(filters) => catalog_row_matches_filters(table, row, filters),
        RowSelector::ClassWithOid(oid) => is_oid(
            meta::column_oid(generated, table, row, "oid"),
            *oid,
        ),
        RowSelector::ClassNamed(name) => static_rows::catalog_row_identifier_matches(
            table,
            row,
            "relname",
            name,
        ),
        RowSelector::ClassNamedIn(name, namespace) =>
        static_rows::catalog_row_identifier_matches(table, row, "relname", name) && is_oid(
            meta::column_oid(generated, table, row, "relnamespace"),
            *namespace,
        ),
        RowSelector::ColumnsOf(relation) => is_oid(
            meta::column_oid(generated, table, row, "attrelid"),
            *relation,
        ),
        RowSelector::ColumnAt(relation, attnum) => is_oid(
            meta::column_oid(generated, table, row, "attrelid"),
            *relation,
        ) && is_i16(meta::column_i16(table, row, "attnum"), *attnum),
        RowSelector::IndexWithOid(oid) => is_oid(
            meta::column_oid(generated, table, row, "indexrelid"),
            *oid,
        ),
        RowSelector::IndexesOf(relation) => is_oid(
            meta::column_oid(generated, table, row, "indrelid"),
            *relation,
        ),
        RowSelector::UniqueIndexesOf(relation) => is_oid(
            meta::column_oid(generated, table, row, "indrelid"),
            *relation,
        ) && meta::value_or(meta::column_bool(table, row, "indisunique"), false)
            && meta::value_or(meta::column_bool(table, row, "indisvalid"), true)
            && meta::value_or(meta::column_bool(table, row, "indisready"), true)
            && meta::value_or(meta::column_bool(table, row, "indislive"), true),
        RowSelector::PrimaryKeyOf(relation) => match meta::pg_index_record_from_row(
            generated,
            row,
        ) {
            Some(record) => record.relation_oid == *relation && record.is_primary,
            None => false,
        },
        RowSelector::ConstraintsOf(relation) => is_oid(
            meta::column_oid(generated, table, row, "conrelid"),
            *relation,
        ),
    }
}

} // verus!
