//! What the rows of the catalogs are read as is what their columns hold.

use vstd::prelude::*;

use crate::catalog::columns;
use crate::catalog::meta;
use crate::catalog::model::{
    CatalogRowView, CatalogTypeRecordView, CatalogValueView, GeneratedCatalog, StaticCatalogTable,
};
use crate::catalog::relations;
use crate::catalog::snapshot::SnapshotView;
use crate::catalog::type_lookups;
use crate::search;
use crate::text;
use crate::types::Oid;

verus! {

/// Whether a row holds a value in the column of a name. Of columns with one name,
/// the first counts.
pub open spec fn holds(
    table: StaticCatalogTable,
    row: CatalogRowView,
    column: Seq<char>,
    value: CatalogValueView,
) -> bool {
    exists|i: int|
        0 <= i < table.columns@.len() && i < row.values.len() && row.values[i] == value && (
        #[trigger] table.columns@[i]).name@ == column && forall|j: int|
            0 <= j < i ==> (#[trigger] table.columns@[j]).name@ != column
}

/// Whether a row says nothing in the column of a name: it holds a null there, or the
/// catalog has no such column.
pub open spec fn lacks(
    table: StaticCatalogTable,
    row: CatalogRowView,
    column: Seq<char>,
) -> bool {
    ||| holds(table, row, column, CatalogValueView::Null)
    ||| forall|i: int|
        0 <= i < table.columns@.len() ==> (#[trigger] table.columns@[i]).name@ != column
}

/// Whether an identifier is the one that a row holds in a column, or a default where
/// the row says nothing there.
pub open spec fn tells_oid(
    table: StaticCatalogTable,
    row: CatalogRowView,
    column: Seq<char>,
    v: Oid,
    default: Oid,
) -> bool {
    &&& forall|x: Oid| #[trigger]
        holds(table, row, column, CatalogValueView::Oid(x)) ==> v == x
    &&& lacks(table, row, column) ==> v == default
}

/// Whether a truth value is the one that a row holds in a column, or a default where
/// the row says nothing there.
pub open spec fn tells_bool(
    table: StaticCatalogTable,
    row: CatalogRowView,
    column: Seq<char>,
    v: bool,
    default: bool,
) -> bool {
    &&& forall|x: bool| #[trigger]
        holds(table, row, column, CatalogValueView::Bool(x)) ==> v == x
    &&& lacks(table, row, column) ==> v == default
}

/// Whether a short number is the one that a row holds in a column, or a default where
/// the row says nothing there.
pub open spec fn tells_i16(
    table: StaticCatalogTable,
    row: CatalogRowView,
    column: Seq<char>,
    v: i16,
    default: i16,
) -> bool {
    &&& forall|x: i16| #[trigger]
        holds(table, row, column, CatalogValueView::Int16(x)) ==> v == x
    &&& lacks(table, row, column) ==> v == default
}

/// Whether a number is the one that a row holds in a column, or a default where
/// the row says nothing there.
pub open spec fn tells_i32(
    table: StaticCatalogTable,
    row: CatalogRowView,
    column: Seq<char>,
    v: i32,
    default: i32,
) -> bool {
    &&& forall|x: i32| #[trigger]
        holds(table, row, column, CatalogValueView::Int32(x)) ==> v == x
    &&& lacks(table, row, column) ==> v == default
}

/// Whether a character is the one that a row holds in a column, or a default where
/// the row says nothing there.
pub open spec fn tells_u8(
    table: StaticCatalogTable,
    row: CatalogRowView,
    column: Seq<char>,
    v: u8,
    default: u8,
) -> bool {
    &&& forall|x: u8| #[trigger]
        holds(table, row, column, CatalogValueView::Char(x)) ==> v == x
    &&& lacks(table, row, column) ==> v == default
}

pub(crate) proof fn lemma_cells(generated: GeneratedCatalog, table: StaticCatalogTable, row: CatalogRowView)
    ensures
        forall|column: Seq<char>, value: CatalogValueView| #[trigger]
            holds(table, row, column, value) ==> columns::row_value(table, row, column) == Some(
                value,
            ),
        forall|column: Seq<char>| #[trigger]
            lacks(table, row, column) ==> columns::row_value(table, row, column) is None
                || columns::row_value(table, row, column) == Some(CatalogValueView::Null),
{
    assert forall|column: Seq<char>, value: CatalogValueView| #[trigger]
        holds(table, row, column, value) implies columns::row_value(table, row, column) == Some(
        value,
    ) by {
        let i = choose|i: int|
            0 <= i < table.columns@.len() && i < row.values.len() && row.values[i] == value && (
            #[trigger] table.columns@[i]).name@ == column && forall|j: int|
                0 <= j < i ==> (#[trigger] table.columns@[j]).name@ != column;
        search::first_index_at(table.columns@, columns::column_is(column), i);
    }
    assert forall|column: Seq<char>| #[trigger] lacks(table, row, column) implies columns::row_value(
        table,
        row,
        column,
    ) is None || columns::row_value(table, row, column) == Some(CatalogValueView::Null) by {
        if !holds(table, row, column, CatalogValueView::Null) {
            search::first_index_none(table.columns@, columns::column_is(column));
        }
    }
}

/// A row of the catalog of schemas is read as the schema that its columns tell.
pub proof fn a_row_of_a_schema_is_read(
    generated: GeneratedCatalog,
    table: StaticCatalogTable,
    row: CatalogRowView,
    row_id: u64,
    oid: Oid,
    name: Seq<char>,
)
    requires
        holds(table, row, "oid"@, CatalogValueView::Oid(oid)),
        holds(table, row, "nspname"@, CatalogValueView::Name(name)),
    ensures
        meta::namespace_of(generated, table, row, row_id) matches Some(r) && {
            &&& r.row_id == row_id
            &&& r.row == row
            &&& r.oid == oid
            &&& r.name == text::lower(text::trim(name))
            &&& tells_oid(table, row, "nspowner"@, r.owner, Oid(10))
        },
{
    lemma_cells(generated, table, row);
}

/// A row of the catalog of relations is read as the relation that its columns tell.
pub proof fn a_row_of_a_relation_is_read(
    generated: GeneratedCatalog,
    table: StaticCatalogTable,
    row: CatalogRowView,
    row_id: u64,
    oid: Oid,
    name: Seq<char>,
)
    requires
        holds(table, row, "oid"@, CatalogValueView::Oid(oid)),
        holds(table, row, "relname"@, CatalogValueView::Name(name)),
    ensures
        meta::relation_of(generated, table, row, row_id) matches Some(r) && {
            &&& r.row_id == row_id
            &&& r.row == row
            &&& r.oid == oid
            &&& r.name == text::lower(text::trim(name))
            &&& tells_oid(table, row, "reltype"@, r.type_oid, Oid(0))
            &&& tells_oid(table, row, "relnamespace"@, r.namespace, Oid(2200))
            &&& tells_oid(table, row, "relowner"@, r.owner, Oid(10))
            &&& tells_u8(table, row, "relkind"@, r.relkind, 114)
            &&& forall|n: i16|
                #[trigger] holds(table, row, "relnatts"@, CatalogValueView::Int16(n)) ==> r.relnatts
                    == if n > 0 {
                    n as int
                } else {
                    0
                }
            &&& lacks(table, row, "relnatts"@) ==> r.relnatts == 0
            &&& tells_bool(table, row, "relhasindex"@, r.relhasindex, false)
        },
{
    lemma_cells(generated, table, row);
}

/// A row of the catalog of columns is read as the column that its columns tell,
/// unless it was dropped.
pub proof fn a_row_of_a_column_is_read(
    generated: GeneratedCatalog,
    table: StaticCatalogTable,
    row: CatalogRowView,
    row_id: u64,
    relation: Oid,
    name: Seq<char>,
    attnum: i16,
    type_oid: Oid,
)
    requires
        holds(table, row, "attrelid"@, CatalogValueView::Oid(relation)),
        holds(table, row, "attname"@, CatalogValueView::Name(name)),
        holds(table, row, "attnum"@, CatalogValueView::Int16(attnum)),
        attnum > 0,
        holds(table, row, "atttypid"@, CatalogValueView::Oid(type_oid)),
        holds(table, row, "attisdropped"@, CatalogValueView::Bool(false)) || lacks(
            table,
            row,
            "attisdropped"@,
        ),
    ensures
        meta::column_of(generated, table, row, row_id) matches Some(r) && {
            &&& r.row_id == row_id
            &&& r.row == row
            &&& r.relation_oid == relation
            &&& r.attnum == attnum
            &&& r.record.name == text::lower(text::trim(name))
            &&& r.record.type_oid == type_oid
            &&& r.record.row_id == row.row_id
            &&& tells_i32(table, row, "atttypmod"@, r.record.type_mod, (-1) as i32)
            &&& tells_bool(table, row, "attnotnull"@, r.record.is_not_null, false)
            &&& tells_bool(table, row, "atthasdef"@, r.record.has_default, false)
            &&& tells_u8(table, row, "attgenerated"@, r.record.generated, 0)
        },
{
    lemma_cells(generated, table, row);
}

/// A row of the catalog of columns is read as the column that its columns tell, with
/// how it is stored. A dropped one keeps its place.
pub proof fn a_row_of_a_laid_out_column_is_read(
    generated: GeneratedCatalog,
    table: StaticCatalogTable,
    row: CatalogRowView,
    relation: Oid,
    name: Seq<char>,
    attnum: i16,
)
    requires
        holds(table, row, "attrelid"@, CatalogValueView::Oid(relation)),
        holds(table, row, "attname"@, CatalogValueView::Name(name)),
        holds(table, row, "attnum"@, CatalogValueView::Int16(attnum)),
        attnum > 0,
    ensures
        meta::physical_column_of(generated, table, row, relation) matches Some(r) && {
            &&& r.0 == attnum
            &&& r.1.row_id == row.row_id
            &&& r.1.name == text::lower(text::trim(name))
            &&& tells_oid(table, row, "atttypid"@, r.1.type_oid, Oid(0))
            &&& tells_i32(table, row, "atttypmod"@, r.1.type_mod, (-1) as i32)
            &&& tells_bool(table, row, "attisdropped"@, r.1.is_dropped, false)
            &&& tells_i16(table, row, "attlen"@, r.1.attlen, 0)
            &&& tells_bool(table, row, "attbyval"@, r.1.attbyval, false)
            &&& tells_u8(table, row, "attalign"@, r.1.attalign, 105)
            &&& tells_u8(table, row, "attstorage"@, r.1.attstorage, 112)
            &&& tells_oid(table, row, "attcollation"@, r.1.attcollation, Oid(0))
            &&& r.1.is_dropped ==> !r.1.is_not_null && !r.1.has_default && r.1.generated == 0
            &&& !r.1.is_dropped ==> tells_bool(table, row, "attnotnull"@, r.1.is_not_null, false)
                && tells_bool(table, row, "atthasdef"@, r.1.has_default, false) && tells_u8(
                table,
                row,
                "attgenerated"@,
                r.1.generated,
                0,
            )
        },
{
    lemma_cells(generated, table, row);
}

/// A row of the catalog of columns describes no column of another relation, none
/// below the first place, and none that was dropped.
pub proof fn a_row_describes_no_other_column(
    generated: GeneratedCatalog,
    table: StaticCatalogTable,
    row: CatalogRowView,
    relation: Oid,
    other: Oid,
    attnum: i16,
)
    requires
        holds(table, row, "attrelid"@, CatalogValueView::Oid(relation)),
        holds(table, row, "attnum"@, CatalogValueView::Int16(attnum)),
    ensures
        other != relation ==> meta::column_record_of(generated, table, row, other) is None
            && meta::physical_column_of(generated, table, row, other) is None,
        attnum <= 0 ==> meta::column_record_of(generated, table, row, relation) is None
            && meta::physical_column_of(generated, table, row, relation) is None,
        holds(table, row, "attisdropped"@, CatalogValueView::Bool(true)) ==> meta::column_record_of(
            generated,
            table,
            row,
            relation,
        ) is None,
{
    lemma_cells(generated, table, row);
}

/// A row of the catalog of types is read as the type that its columns tell, under the
/// name that the catalog has for it.
pub proof fn a_row_of_a_type_is_read(
    generated: GeneratedCatalog,
    table: StaticCatalogTable,
    row: CatalogRowView,
    row_id: u64,
    oid: Oid,
    name: Seq<char>,
)
    requires
        holds(table, row, "oid"@, CatalogValueView::Oid(oid)),
        holds(table, row, "typname"@, CatalogValueView::Name(name)),
    ensures
        meta::type_of(generated, table, row, row_id) matches Some(r) && {
            &&& r.row_id == row_id
            &&& r.row == row
            &&& r.record.row_id == row_id
            &&& r.record.oid == oid
            &&& r.record.name == meta::canonical_type_name(name)
            &&& tells_oid(table, row, "typnamespace"@, r.record.namespace, Oid(11))
            &&& tells_oid(table, row, "typowner"@, r.record.owner, Oid(10))
            &&& tells_i16(table, row, "typlen"@, r.record.typlen, (-1) as i16)
            &&& tells_bool(table, row, "typbyval"@, r.record.typbyval, false)
            &&& tells_u8(table, row, "typalign"@, r.record.typalign, 105)
            &&& tells_u8(table, row, "typdelim"@, r.record.typdelim, 44)
            &&& tells_oid(table, row, "typinput"@, r.record.typinput, Oid(0))
            &&& tells_oid(table, row, "typoutput"@, r.record.typoutput, Oid(0))
            &&& tells_oid(table, row, "typreceive"@, r.record.typreceive, Oid(0))
            &&& tells_oid(table, row, "typsend"@, r.record.typsend, Oid(0))
            &&& tells_oid(table, row, "typmodin"@, r.record.typmodin, Oid(0))
            &&& tells_oid(table, row, "typmodout"@, r.record.typmodout, Oid(0))
            &&& tells_bool(table, row, "typisdefined"@, r.record.typisdefined, true)
            &&& tells_u8(table, row, "typtype"@, r.record.typtype, 98)
            &&& tells_u8(table, row, "typcategory"@, r.record.typcategory, 85)
            &&& tells_bool(table, row, "typispreferred"@, r.record.typispreferred, false)
            &&& tells_oid(table, row, "typrelid"@, r.record.typrelid, Oid(0))
            &&& tells_oid(table, row, "typelem"@, r.record.typelem, Oid(0))
            &&& tells_oid(table, row, "typarray"@, r.record.typarray, Oid(0))
            &&& tells_oid(table, row, "typbasetype"@, r.record.typbasetype, Oid(0))
            &&& tells_i32(table, row, "typtypmod"@, r.record.typtypmod, (-1) as i32)
            &&& tells_oid(table, row, "typcollation"@, r.record.typcollation, Oid(0))
            &&& tells_oid(table, row, "typsubscript"@, r.record.typsubscript, Oid(0))
            &&& tells_u8(table, row, "typstorage"@, r.record.typstorage, 112)
        },
{
    lemma_cells(generated, table, row);
}

/// A type whose fields are written in the columns of a row is what the row tells.
pub proof fn a_type_written_to_a_row_is_read_back(
    generated: GeneratedCatalog,
    table: StaticCatalogTable,
    row: CatalogRowView,
    r: CatalogTypeRecordView,
)
    requires
        r.row_id == row.row_id,
        ({
            &&& holds(table, row, "oid"@, CatalogValueView::Oid(r.oid))
            &&& holds(table, row, "typname"@, CatalogValueView::Name(r.name))
            &&& holds(table, row, "typnamespace"@, CatalogValueView::Oid(r.namespace))
            &&& holds(table, row, "typowner"@, CatalogValueView::Oid(r.owner))
            &&& holds(table, row, "typlen"@, CatalogValueView::Int16(r.typlen))
            &&& holds(table, row, "typbyval"@, CatalogValueView::Bool(r.typbyval))
            &&& holds(table, row, "typalign"@, CatalogValueView::Char(r.typalign))
            &&& holds(table, row, "typdelim"@, CatalogValueView::Char(r.typdelim))
            &&& holds(table, row, "typinput"@, CatalogValueView::Oid(r.typinput))
            &&& holds(table, row, "typoutput"@, CatalogValueView::Oid(r.typoutput))
            &&& holds(table, row, "typreceive"@, CatalogValueView::Oid(r.typreceive))
            &&& holds(table, row, "typsend"@, CatalogValueView::Oid(r.typsend))
            &&& holds(table, row, "typmodin"@, CatalogValueView::Oid(r.typmodin))
            &&& holds(table, row, "typmodout"@, CatalogValueView::Oid(r.typmodout))
            &&& holds(table, row, "typisdefined"@, CatalogValueView::Bool(r.typisdefined))
            &&& holds(table, row, "typtype"@, CatalogValueView::Char(r.typtype))
            &&& holds(table, row, "typcategory"@, CatalogValueView::Char(r.typcategory))
            &&& holds(table, row, "typispreferred"@, CatalogValueView::Bool(r.typispreferred))
            &&& holds(table, row, "typrelid"@, CatalogValueView::Oid(r.typrelid))
            &&& holds(table, row, "typelem"@, CatalogValueView::Oid(r.typelem))
            &&& holds(table, row, "typarray"@, CatalogValueView::Oid(r.typarray))
            &&& holds(table, row, "typbasetype"@, CatalogValueView::Oid(r.typbasetype))
            &&& holds(table, row, "typtypmod"@, CatalogValueView::Int32(r.typtypmod))
            &&& holds(table, row, "typcollation"@, CatalogValueView::Oid(r.typcollation))
            &&& holds(table, row, "typsubscript"@, CatalogValueView::Oid(r.typsubscript))
            &&& holds(table, row, "typstorage"@, CatalogValueView::Char(r.typstorage))
        }),
    ensures
        type_lookups::type_of_row(generated, table, row) == Some(r),
{
    lemma_cells(generated, table, row);
}

/// A row of the catalog of indexes is read as the index that its columns tell. Of the
/// columns of an index, the first ones are keys.
pub proof fn a_row_of_an_index_is_read(
    generated: GeneratedCatalog,
    table: StaticCatalogTable,
    row: CatalogRowView,
    index_oid: Oid,
    relation: Oid,
)
    requires
        holds(table, row, "indexrelid"@, CatalogValueView::Oid(index_oid)),
        holds(table, row, "indrelid"@, CatalogValueView::Oid(relation)),
    ensures
        meta::index_record_of(generated, table, row) matches Some(r) && {
            &&& r.row_id == row.row_id
            &&& r.index_oid == index_oid
            &&& r.relation_oid == relation
            &&& tells_bool(table, row, "indisunique"@, r.is_unique, false)
            &&& tells_bool(table, row, "indnullsnotdistinct"@, r.nulls_not_distinct, false)
            &&& tells_bool(table, row, "indisprimary"@, r.is_primary, false)
            &&& tells_bool(table, row, "indisexclusion"@, r.is_exclusion, false)
            &&& tells_bool(table, row, "indimmediate"@, r.is_immediate, true)
            &&& tells_bool(table, row, "indisvalid"@, r.is_valid, true)
            &&& tells_bool(table, row, "indisready"@, r.is_ready, true)
            &&& tells_bool(table, row, "indislive"@, r.is_live, true)
            &&& forall|keys: Seq<i16>|
                lacks(table, row, "indnkeyatts"@) && #[trigger] holds(
                    table,
                    row,
                    "indkey"@,
                    CatalogValueView::Int2Vector(keys),
                ) ==> r.key_attnums == keys
            &&& forall|keys: Seq<i16>, n: i16|
                #[trigger] holds(table, row, "indkey"@, CatalogValueView::Int2Vector(keys))
                    && 0 < n <= keys.len() && #[trigger] holds(
                    table,
                    row,
                    "indnkeyatts"@,
                    CatalogValueView::Int16(n),
                ) ==> r.key_attnums == keys.take(n as int)
        },
{
    lemma_cells(generated, table, row);
    assert forall|keys: Seq<i16>, n: i16|
        #[trigger] holds(table, row, "indkey"@, CatalogValueView::Int2Vector(keys)) && 0 < n
            <= keys.len() && #[trigger] holds(
            table,
            row,
            "indnkeyatts"@,
            CatalogValueView::Int16(n),
        ) implies meta::first_keys(keys, n) == keys.take(n as int) by {
        if n == keys.len() {
            assert(keys.take(n as int) =~= keys);
        }
    }
}

/// A row of the catalog of constraints is read as the constraint that its columns
/// tell.
pub proof fn a_row_of_a_constraint_is_read(
    generated: GeneratedCatalog,
    table: StaticCatalogTable,
    row: CatalogRowView,
    row_id: u64,
    oid: Oid,
    name: Seq<char>,
)
    requires
        holds(table, row, "oid"@, CatalogValueView::Oid(oid)),
        holds(table, row, "conname"@, CatalogValueView::Name(name)),
    ensures
        meta::constraint_of(generated, table, row, row_id) matches Some(r) && {
            &&& r.row_id == row_id
            &&& r.row == row
            &&& r.oid == oid
            &&& r.name == text::lower(text::trim(name))
            &&& tells_oid(table, row, "connamespace"@, r.namespace, Oid(2200))
            &&& tells_oid(table, row, "conrelid"@, r.relation_oid, Oid(0))
            &&& tells_oid(table, row, "conindid"@, r.index_oid, Oid(0))
            &&& tells_u8(table, row, "contype"@, r.kind, 0)
            &&& forall|keys: Seq<i16>| #[trigger]
                holds(table, row, "conkey"@, CatalogValueView::Int2Vector(keys)) ==> r.key_attnums
                    == keys
            &&& lacks(table, row, "conkey"@) ==> r.key_attnums.len() == 0
        },
{
    lemma_cells(generated, table, row);
}

/// A relation that only a row tells is what the columns of the row tell.
pub proof fn a_relation_told_by_a_row_is_read(
    generated: GeneratedCatalog,
    table: StaticCatalogTable,
    row: CatalogRowView,
    s: SnapshotView,
    oid: Oid,
    name: Seq<char>,
)
    requires
        columns::table_of(generated, Oid(1259)) == Some(table),
        holds(table, row, "oid"@, CatalogValueView::Oid(oid)),
        holds(table, row, "relname"@, CatalogValueView::Name(name)),
    ensures
        relations::relation_of_row(generated, s, row) matches Some(r) && {
            &&& r.row_id == row.row_id
            &&& r.oid == oid
            &&& r.name == text::lower(text::trim(name))
            &&& tells_oid(table, row, "reltype"@, r.type_oid, Oid(0))
            &&& tells_oid(table, row, "relnamespace"@, r.namespace, Oid(2200))
            &&& tells_oid(table, row, "relowner"@, r.owner, Oid(10))
            &&& tells_u8(table, row, "relkind"@, r.relkind, 114)
        },
{
    lemma_cells(generated, table, row);
}

/// What a row tells in short of a relation is what the columns of the row tell.
pub proof fn what_a_row_tells_in_short_is_read(
    generated: GeneratedCatalog,
    table: StaticCatalogTable,
    row: CatalogRowView,
    s: SnapshotView,
    oid: Oid,
    name: Seq<char>,
)
    requires
        columns::table_of(generated, Oid(1259)) == Some(table),
        holds(table, row, "oid"@, CatalogValueView::Oid(oid)),
        holds(table, row, "relname"@, CatalogValueView::Name(name)),
    ensures
        relations::summary_of_row(generated, s, row) matches Some(r) && {
            &&& r.row_id == row.row_id
            &&& r.oid == oid
            &&& r.name == text::lower(text::trim(name))
            &&& tells_oid(table, row, "reltype"@, r.type_oid, Oid(0))
            &&& tells_oid(table, row, "relnamespace"@, r.namespace, Oid(2200))
            &&& tells_oid(table, row, "relowner"@, r.owner, Oid(10))
            &&& tells_u8(table, row, "relkind"@, r.relkind, 114)
            &&& forall|n: i16|
                n >= 0 && #[trigger] holds(table, row, "relnatts"@, CatalogValueView::Int16(n))
                    ==> r.column_count == n
            &&& holds(table, row, "relhasindex"@, CatalogValueView::Bool(true)) ==> r.has_indexes
            &&& holds(table, row, "relhasindex"@, CatalogValueView::Bool(false)) ==> r.has_indexes
                == r.has_primary_key
        },
{
    lemma_cells(generated, table, row);
}

} // verus!
