//! Rows that are made for what no catalog holds say what they are made for.

use vstd::prelude::*;

use crate::catalog::catalog_indexes;
use crate::catalog::catalog_indexes::CatalogIndexView;
use crate::catalog::columns;
use crate::catalog::model::{
    CatalogRowView, CatalogValueView, GeneratedCatalog, PgTypeRecord, StaticCatalogColumn,
    StaticCatalogTable, ENGLISH_TS_CONFIG_OID, ENGLISH_TS_DICT_OID, PG_AGGREGATE_FNOID_INDEX_OID,
    PG_CATALOG_NAMESPACE_OID, SNOWBALL_TS_TEMPLATE_OID, SYNTHETIC_DESCRIPTION_ROW_ID_BASE,
    SYNTHETIC_INIT_PRIVS_ROW_ID_BASE, SYNTHETIC_TS_CONFIG_MAP_ROW_ID_BASE,
};
use crate::catalog::nodes;
use crate::catalog::static_rows;
use crate::catalog::synthetic;
use crate::catalog::synthetic::{InformationSchemaDomainSpec, SystemAttributeSpec};
use crate::search;
use crate::types::Oid;

verus! {

/// Whether a row holds a value in a column, where its catalog has the column.
pub open spec fn says(
    table: StaticCatalogTable,
    row: CatalogRowView,
    column: Seq<char>,
    value: CatalogValueView,
) -> bool {
    forall|i: int|
        0 <= i < table.columns@.len() && i < row.values.len() && (
        #[trigger] table.columns@[i]).name@ == column && (forall|j: int|
            0 <= j < i ==> (#[trigger] table.columns@[j]).name@ != column) ==> row.values[i]
            == value
}

spec fn comes_no_more(
    list: Seq<(Seq<char>, CatalogValueView)>,
    column: Seq<char>,
    k: int,
) -> bool
    decreases list.len() - k,
{
    k < 0 || k >= list.len() || (list[k].0 != column && comes_no_more(list, column, k + 1))
}

proof fn lemma_comes_no_more(
    list: Seq<(Seq<char>, CatalogValueView)>,
    column: Seq<char>,
    k: int,
)
    requires
        0 <= k,
        comes_no_more(list, column, k),
    ensures
        forall|j: int| k <= j < list.len() ==> (#[trigger] list[j]).0 != column,
    decreases list.len() - k,
{
    if k < list.len() {
        lemma_comes_no_more(list, column, k + 1);
    }
}

/// The same of a short list, whose later names are told apart by the caller.
pub(crate) proof fn lemma_says_alone(
    table: StaticCatalogTable,
    base: CatalogRowView,
    list: Seq<(Seq<char>, CatalogValueView)>,
    at: int,
)
    requires
        0 <= at < list.len(),
        forall|j: int| at < j < list.len() ==> (#[trigger] list[j]).0 != list[at].0,
    ensures
        says(table, columns::with_values(table, base, list), list[at].0, list[at].1),
{
    lemma_lacks_more(list, list[at].0, at + 1);
    lemma_says(table, base, list, at);
}

proof fn lemma_lacks_more(list: Seq<(Seq<char>, CatalogValueView)>, column: Seq<char>, k: int)
    requires
        0 <= k,
        forall|j: int| k <= j < list.len() ==> (#[trigger] list[j]).0 != column,
    ensures
        comes_no_more(list, column, k),
    decreases list.len() - k,
{
    if k < list.len() {
        lemma_lacks_more(list, column, k + 1);
    }
}

proof fn lemma_says(
    table: StaticCatalogTable,
    base: CatalogRowView,
    list: Seq<(Seq<char>, CatalogValueView)>,
    at: int,
)
    requires
        0 <= at < list.len(),
        comes_no_more(list, list[at].0, at + 1),
    ensures
        says(table, columns::with_values(table, base, list), list[at].0, list[at].1),
{
    let column = list[at].0;
    let row = columns::with_values(table, base, list);
    lemma_comes_no_more(list, column, at + 1);
    columns::assigned_columns_read_back(table, base, list, column);
    assert forall|i: int|
        0 <= i < table.columns@.len() && i < row.values.len() && (
        #[trigger] table.columns@[i]).name@ == column && (forall|j: int|
            0 <= j < i ==> (#[trigger] table.columns@[j]).name@ != column) implies row.values[i]
        == list[at].1 by {
        search::first_index_at(table.columns@, columns::column_is(column), i);
        let before = columns::row_value(table, base, column)->0;
        columns::the_last_assignment_counts(list, column, before, at);
    }
}

/// The row that is made for a column of a compiled-in catalog says what the column is:
/// its relation, name, type and place, and the layout of its type.
#[verifier::rlimit(60)]
pub proof fn a_made_column_says_what_it_is(
    generated: GeneratedCatalog,
    table: StaticCatalogTable,
    relation_table: StaticCatalogTable,
    column: StaticCatalogColumn,
    attnum: i16,
    type_record: PgTypeRecord,
)
    requires
        nodes::builtin_type(generated, column.type_oid) == Some(type_record),
    ensures
        ({
            let made = synthetic::attribute_row(generated, table, relation_table, column, attnum);
            &&& made matches Some(row) ==> says(table, row, "attrelid"@, CatalogValueView::Oid(relation_table.oid))
            &&& made matches Some(row) ==> says(table, row, "attname"@, CatalogValueView::Name(column.name@))
            &&& made matches Some(row) ==> says(table, row, "atttypid"@, CatalogValueView::Oid(column.type_oid))
            &&& made matches Some(row) ==> says(table, row, "attstattarget"@, CatalogValueView::Int16((-1) as i16))
            &&& made matches Some(row) ==> says(table, row, "attlen"@, CatalogValueView::Int16(type_record.typlen))
            &&& made matches Some(row) ==> says(table, row, "attnum"@, CatalogValueView::Int16(attnum))
            &&& made matches Some(row) ==> says(table, row, "attndims"@, CatalogValueView::Int32(column.attndims))
            &&& made matches Some(row) ==> says(table, row, "attcacheoff"@, CatalogValueView::Int32((-1) as i32))
            &&& made matches Some(row) ==> says(table, row, "atttypmod"@, CatalogValueView::Int32((-1) as i32))
            &&& made matches Some(row) ==> says(table, row, "attbyval"@, CatalogValueView::Bool(type_record.typbyval))
            &&& made matches Some(row) ==> says(table, row, "attalign"@, CatalogValueView::Char(type_record.typalign))
            &&& made matches Some(row) ==> says(table, row, "attstorage"@, CatalogValueView::Char(type_record.typstorage))
            &&& made matches Some(row) ==> says(table, row, "attcompression"@, CatalogValueView::Char(0))
            &&& made matches Some(row) ==> says(table, row, "attnotnull"@, CatalogValueView::Bool(column.attnotnull))
            &&& made matches Some(row) ==> says(table, row, "atthasdef"@, CatalogValueView::Bool(false))
            &&& made matches Some(row) ==> says(table, row, "atthasmissing"@, CatalogValueView::Bool(false))
            &&& made matches Some(row) ==> says(table, row, "attidentity"@, CatalogValueView::Char(0))
            &&& made matches Some(row) ==> says(table, row, "attgenerated"@, CatalogValueView::Char(0))
            &&& made matches Some(row) ==> says(table, row, "attisdropped"@, CatalogValueView::Bool(false))
            &&& made matches Some(row) ==> says(table, row, "attislocal"@, CatalogValueView::Bool(true))
            &&& made matches Some(row) ==> says(table, row, "attinhcount"@, CatalogValueView::Int16(0))
            &&& made matches Some(row) ==> says(table, row, "attcollation"@, CatalogValueView::Oid(type_record.typcollation))
            &&& made matches Some(row) ==> says(table, row, "attacl"@, CatalogValueView::Null)
            &&& made matches Some(row) ==> says(table, row, "attoptions"@, CatalogValueView::Null)
            &&& made matches Some(row) ==> says(table, row, "attfdwoptions"@, CatalogValueView::Null)
            &&& made matches Some(row) ==> says(table, row, "attmissingval"@, CatalogValueView::Null)
        }),
{
    reveal_strlit("attrelid");
    reveal_strlit("attname");
    reveal_strlit("atttypid");
    reveal_strlit("attstattarget");
    reveal_strlit("attlen");
    reveal_strlit("attnum");
    reveal_strlit("attndims");
    reveal_strlit("attcacheoff");
    reveal_strlit("atttypmod");
    reveal_strlit("attbyval");
    reveal_strlit("attalign");
    reveal_strlit("attstorage");
    reveal_strlit("attcompression");
    reveal_strlit("attnotnull");
    reveal_strlit("atthasdef");
    reveal_strlit("atthasmissing");
    reveal_strlit("attidentity");
    reveal_strlit("attgenerated");
    reveal_strlit("attisdropped");
    reveal_strlit("attislocal");
    reveal_strlit("attinhcount");
    reveal_strlit("attcollation");
    reveal_strlit("attacl");
    reveal_strlit("attoptions");
    reveal_strlit("attfdwoptions");
    reveal_strlit("attmissingval");
    assert("attrelid"@.len() == 8 && "attname"@.len() == 7 && "atttypid"@.len() == 8
        && "attstattarget"@.len() == 13 && "attlen"@.len() == 6 && "attnum"@.len() == 6
        && "attndims"@.len() == 8 && "attcacheoff"@.len() == 11 && "atttypmod"@.len() == 9
        && "attbyval"@.len() == 8 && "attalign"@.len() == 8 && "attstorage"@.len() == 10
        && "attcompression"@.len() == 14 && "attnotnull"@.len() == 10 && "atthasdef"@.len() == 9
        && "atthasmissing"@.len() == 13 && "attidentity"@.len() == 11
        && "attgenerated"@.len() == 12 && "attisdropped"@.len() == 12 && "attislocal"@.len() == 10
        && "attinhcount"@.len() == 11 && "attcollation"@.len() == 12 && "attacl"@.len() == 6
        && "attoptions"@.len() == 10 && "attfdwoptions"@.len() == 13
        && "attmissingval"@.len() == 13);
    assert("attacl"@[3] == 'a');
    assert("attalign"@[3] == 'a');
    assert("attbyval"@[3] == 'b');
    assert("attcacheoff"@[3] == 'c');
    assert("attcollation"@[3] == 'c');
    assert("attfdwoptions"@[3] == 'f');
    assert("attgenerated"@[3] == 'g');
    assert("atthasdef"@[3] == 'h');
    assert("atthasmissing"@[3] == 'h');
    assert("attidentity"@[3] == 'i');
    assert("attidentity"@[4] == 'd');
    assert("attinhcount"@[3] == 'i');
    assert("attinhcount"@[4] == 'n');
    assert("attisdropped"@[3] == 'i');
    assert("attislocal"@[3] == 'i');
    assert("attlen"@[3] == 'l');
    assert("attmissingval"@[3] == 'm');
    assert("attndims"@[3] == 'n');
    assert("attnotnull"@[3] == 'n');
    assert("attnum"@[3] == 'n');
    assert("attoptions"@[3] == 'o');
    assert("attrelid"@[3] == 'r');
    assert("attstattarget"@[3] == 's');
    assert("attstorage"@[3] == 's');
    assert("atttypid"@[3] == 't');
    assert("atttypmod"@[3] == 't');
    reveal_with_fuel(comes_no_more, 27);
    let list = synthetic::attribute_columns(relation_table, column, attnum, type_record);
    let made = synthetic::attribute_row(generated, table, relation_table, column, attnum);
    if made is Some {
        let base = synthetic::first_row_as(
            generated,
            table,
            synthetic::attribute_row_id(relation_table.oid, attnum),
        );
        columns::values_keep_the_identity(table, base, list);
        lemma_says(table, base, list, 0);
        lemma_says(table, base, list, 1);
        lemma_says(table, base, list, 2);
        lemma_says(table, base, list, 3);
        lemma_says(table, base, list, 4);
        lemma_says(table, base, list, 5);
        lemma_says(table, base, list, 6);
        lemma_says(table, base, list, 7);
        lemma_says(table, base, list, 8);
        lemma_says(table, base, list, 9);
        lemma_says(table, base, list, 10);
        lemma_says(table, base, list, 11);
        lemma_says(table, base, list, 12);
        lemma_says(table, base, list, 13);
        lemma_says(table, base, list, 14);
        lemma_says(table, base, list, 15);
        lemma_says(table, base, list, 16);
        lemma_says(table, base, list, 17);
        lemma_says(table, base, list, 18);
        lemma_says(table, base, list, 19);
        lemma_says(table, base, list, 20);
        lemma_says(table, base, list, 21);
        lemma_says(table, base, list, 22);
        lemma_says(table, base, list, 23);
        lemma_says(table, base, list, 24);
        lemma_says(table, base, list, 25);
    }
}


/// The row that is made for a column that every relation has says what the column is.
#[verifier::rlimit(60)]
pub proof fn a_made_system_column_says_what_it_is(
    generated: GeneratedCatalog,
    table: StaticCatalogTable,
    relation_table: StaticCatalogTable,
    attribute: SystemAttributeSpec,
    type_record: PgTypeRecord,
)
    requires
        nodes::builtin_type(generated, attribute.type_oid) == Some(type_record),
    ensures
        ({
            let made = synthetic::system_attribute_row(generated, table, relation_table, attribute);
            &&& made matches Some(row) ==> says(table, row, "attrelid"@, CatalogValueView::Oid(relation_table.oid))
            &&& made matches Some(row) ==> says(table, row, "attname"@, CatalogValueView::Name(attribute.name@))
            &&& made matches Some(row) ==> says(table, row, "atttypid"@, CatalogValueView::Oid(attribute.type_oid))
            &&& made matches Some(row) ==> says(table, row, "attstattarget"@, CatalogValueView::Int16(0))
            &&& made matches Some(row) ==> says(table, row, "attlen"@, CatalogValueView::Int16(type_record.typlen))
            &&& made matches Some(row) ==> says(table, row, "attnum"@, CatalogValueView::Int16(attribute.attnum))
            &&& made matches Some(row) ==> says(table, row, "attndims"@, CatalogValueView::Int32(0))
            &&& made matches Some(row) ==> says(table, row, "attcacheoff"@, CatalogValueView::Int32((-1) as i32))
            &&& made matches Some(row) ==> says(table, row, "atttypmod"@, CatalogValueView::Int32((-1) as i32))
            &&& made matches Some(row) ==> says(table, row, "attbyval"@, CatalogValueView::Bool(type_record.typbyval))
            &&& made matches Some(row) ==> says(table, row, "attalign"@, CatalogValueView::Char(type_record.typalign))
            &&& made matches Some(row) ==> says(table, row, "attstorage"@, CatalogValueView::Char(type_record.typstorage))
            &&& made matches Some(row) ==> says(table, row, "attcompression"@, CatalogValueView::Char(0))
            &&& made matches Some(row) ==> says(table, row, "attnotnull"@, CatalogValueView::Bool(true))
            &&& made matches Some(row) ==> says(table, row, "atthasdef"@, CatalogValueView::Bool(false))
            &&& made matches Some(row) ==> says(table, row, "atthasmissing"@, CatalogValueView::Bool(false))
            &&& made matches Some(row) ==> says(table, row, "attidentity"@, CatalogValueView::Char(0))
            &&& made matches Some(row) ==> says(table, row, "attgenerated"@, CatalogValueView::Char(0))
            &&& made matches Some(row) ==> says(table, row, "attisdropped"@, CatalogValueView::Bool(false))
            &&& made matches Some(row) ==> says(table, row, "attislocal"@, CatalogValueView::Bool(true))
            &&& made matches Some(row) ==> says(table, row, "attinhcount"@, CatalogValueView::Int16(0))
            &&& made matches Some(row) ==> says(table, row, "attcollation"@, CatalogValueView::Oid(Oid(0)))
        }),
{
    reveal_strlit("attrelid");
    reveal_strlit("attname");
    reveal_strlit("atttypid");
    reveal_strlit("attstattarget");
    reveal_strlit("attlen");
    reveal_strlit("attnum");
    reveal_strlit("attndims");
    reveal_strlit("attcacheoff");
    reveal_strlit("atttypmod");
    reveal_strlit("attbyval");
    reveal_strlit("attalign");
    reveal_strlit("attstorage");
    reveal_strlit("attcompression");
    reveal_strlit("attnotnull");
    reveal_strlit("atthasdef");
    reveal_strlit("atthasmissing");
    reveal_strlit("attidentity");
    reveal_strlit("attgenerated");
    reveal_strlit("attisdropped");
    reveal_strlit("attislocal");
    reveal_strlit("attinhcount");
    reveal_strlit("attcollation");
    assert("attrelid"@.len() == 8 && "attname"@.len() == 7 && "atttypid"@.len() == 8
        && "attstattarget"@.len() == 13 && "attlen"@.len() == 6 && "attnum"@.len() == 6
        && "attndims"@.len() == 8 && "attcacheoff"@.len() == 11 && "atttypmod"@.len() == 9
        && "attbyval"@.len() == 8 && "attalign"@.len() == 8 && "attstorage"@.len() == 10
        && "attcompression"@.len() == 14 && "attnotnull"@.len() == 10 && "atthasdef"@.len() == 9
        && "atthasmissing"@.len() == 13 && "attidentity"@.len() == 11
        && "attgenerated"@.len() == 12 && "attisdropped"@.len() == 12 && "attislocal"@.len() == 10
        && "attinhcount"@.len() == 11 && "attcollation"@.len() == 12);
    assert("attalign"@[3] == 'a');
    assert("attbyval"@[3] == 'b');
    assert("attcacheoff"@[3] == 'c');
    assert("attcollation"@[3] == 'c');
    assert("attgenerated"@[3] == 'g');
    assert("atthasdef"@[3] == 'h');
    assert("atthasmissing"@[3] == 'h');
    assert("attidentity"@[3] == 'i');
    assert("attidentity"@[4] == 'd');
    assert("attinhcount"@[3] == 'i');
    assert("attinhcount"@[4] == 'n');
    assert("attisdropped"@[3] == 'i');
    assert("attislocal"@[3] == 'i');
    assert("attlen"@[3] == 'l');
    assert("attndims"@[3] == 'n');
    assert("attnotnull"@[3] == 'n');
    assert("attnum"@[3] == 'n');
    assert("attrelid"@[3] == 'r');
    assert("attstattarget"@[3] == 's');
    assert("attstorage"@[3] == 's');
    assert("atttypid"@[3] == 't');
    assert("atttypmod"@[3] == 't');
    reveal_with_fuel(comes_no_more, 23);
    let list = synthetic::system_attribute_columns(relation_table, attribute, type_record);
    let made = synthetic::system_attribute_row(generated, table, relation_table, attribute);
    if made is Some {
        let base = synthetic::first_row_as(
            generated,
            table,
            synthetic::system_attribute_row_id(relation_table.oid, attribute.attnum),
        );
        columns::values_keep_the_identity(table, base, list);
        lemma_says(table, base, list, 0);
        lemma_says(table, base, list, 1);
        lemma_says(table, base, list, 2);
        lemma_says(table, base, list, 3);
        lemma_says(table, base, list, 4);
        lemma_says(table, base, list, 5);
        lemma_says(table, base, list, 6);
        lemma_says(table, base, list, 7);
        lemma_says(table, base, list, 8);
        lemma_says(table, base, list, 9);
        lemma_says(table, base, list, 10);
        lemma_says(table, base, list, 11);
        lemma_says(table, base, list, 12);
        lemma_says(table, base, list, 13);
        lemma_says(table, base, list, 14);
        lemma_says(table, base, list, 15);
        lemma_says(table, base, list, 16);
        lemma_says(table, base, list, 17);
        lemma_says(table, base, list, 18);
        lemma_says(table, base, list, 19);
        lemma_says(table, base, list, 20);
        lemma_says(table, base, list, 21);
    }
}


/// The row that is made for a domain of the schema that describes the others says what
/// the domain is.
#[verifier::rlimit(60)]
pub proof fn a_made_domain_says_what_it_is(
    generated: GeneratedCatalog,
    table: StaticCatalogTable,
    domain: InformationSchemaDomainSpec,
    base_type: PgTypeRecord,
)
    requires
        nodes::builtin_type(generated, domain.base_type) == Some(base_type),
    ensures
        ({
            let made = synthetic::domain_row(generated, table, domain);
            &&& made matches Some(row) ==> says(table, row, "oid"@, CatalogValueView::Oid(domain.oid))
            &&& made matches Some(row) ==> says(table, row, "typname"@, CatalogValueView::Name(domain.name@))
            &&& made matches Some(row) ==> says(table, row, "typnamespace"@, CatalogValueView::Oid(Oid(14_000)))
            &&& made matches Some(row) ==> says(table, row, "typowner"@, CatalogValueView::Oid(Oid(10)))
            &&& made matches Some(row) ==> says(table, row, "typtype"@, CatalogValueView::Char(100))
            &&& made matches Some(row) ==> says(table, row, "typispreferred"@, CatalogValueView::Bool(false))
            &&& made matches Some(row) ==> says(table, row, "typinput"@, CatalogValueView::Oid(Oid(2597)))
            &&& made matches Some(row) ==> says(table, row, "typoutput"@, CatalogValueView::Oid(base_type.typoutput))
            &&& made matches Some(row) ==> says(table, row, "typreceive"@, CatalogValueView::Oid(Oid(2598)))
            &&& made matches Some(row) ==> says(table, row, "typsend"@, CatalogValueView::Oid(base_type.typsend))
            &&& made matches Some(row) ==> says(table, row, "typmodin"@, CatalogValueView::Oid(Oid(0)))
            &&& made matches Some(row) ==> says(table, row, "typmodout"@, CatalogValueView::Oid(Oid(0)))
            &&& made matches Some(row) ==> says(table, row, "typrelid"@, CatalogValueView::Oid(Oid(0)))
            &&& made matches Some(row) ==> says(table, row, "typelem"@, CatalogValueView::Oid(Oid(0)))
            &&& made matches Some(row) ==> says(table, row, "typarray"@, CatalogValueView::Oid(Oid(0)))
            &&& made matches Some(row) ==> says(table, row, "typbasetype"@, CatalogValueView::Oid(domain.base_type))
            &&& made matches Some(row) ==> says(table, row, "typtypmod"@, CatalogValueView::Int32(domain.type_mod))
            &&& made matches Some(row) ==> says(table, row, "typcollation"@, CatalogValueView::Oid(domain.collation))
            &&& made matches Some(row) ==> says(table, row, "typdefaultbin"@, CatalogValueView::Null)
            &&& made matches Some(row) ==> says(table, row, "typdefault"@, CatalogValueView::Null)
            &&& made matches Some(row) ==> says(table, row, "typacl"@, CatalogValueView::Null)
            &&& made matches Some(row) ==> row.row_id == domain.oid.0
        }),
{
    reveal_strlit("oid");
    reveal_strlit("typname");
    reveal_strlit("typnamespace");
    reveal_strlit("typowner");
    reveal_strlit("typtype");
    reveal_strlit("typispreferred");
    reveal_strlit("typinput");
    reveal_strlit("typoutput");
    reveal_strlit("typreceive");
    reveal_strlit("typsend");
    reveal_strlit("typmodin");
    reveal_strlit("typmodout");
    reveal_strlit("typrelid");
    reveal_strlit("typelem");
    reveal_strlit("typarray");
    reveal_strlit("typbasetype");
    reveal_strlit("typtypmod");
    reveal_strlit("typcollation");
    reveal_strlit("typdefaultbin");
    reveal_strlit("typdefault");
    reveal_strlit("typacl");
    assert("oid"@.len() == 3 && "typname"@.len() == 7 && "typnamespace"@.len() == 12
        && "typowner"@.len() == 8 && "typtype"@.len() == 7 && "typispreferred"@.len() == 14
        && "typinput"@.len() == 8 && "typoutput"@.len() == 9 && "typreceive"@.len() == 10
        && "typsend"@.len() == 7 && "typmodin"@.len() == 8 && "typmodout"@.len() == 9
        && "typrelid"@.len() == 8 && "typelem"@.len() == 7 && "typarray"@.len() == 8
        && "typbasetype"@.len() == 11 && "typtypmod"@.len() == 9 && "typcollation"@.len() == 12
        && "typdefaultbin"@.len() == 13 && "typdefault"@.len() == 10 && "typacl"@.len() == 6);
    assert("typarray"@[3] == 'a');
    assert("typcollation"@[3] == 'c');
    assert("typdefault"@[3] == 'd');
    assert("typelem"@[3] == 'e');
    assert("typinput"@[3] == 'i');
    assert("typmodin"@[3] == 'm');
    assert("typmodout"@[3] == 'm');
    assert("typname"@[3] == 'n');
    assert("typnamespace"@[3] == 'n');
    assert("typoutput"@[3] == 'o');
    assert("typowner"@[3] == 'o');
    assert("typreceive"@[3] == 'r');
    assert("typrelid"@[3] == 'r');
    assert("typsend"@[3] == 's');
    assert("typtype"@[3] == 't');
    assert("typtypmod"@[3] == 't');
    reveal_with_fuel(comes_no_more, 22);
    let list = synthetic::domain_columns(domain, base_type);
    let made = synthetic::domain_row(generated, table, domain);
    if made is Some {
        let base = CatalogRowView { row_id: domain.oid.0 as u64, ..static_rows::named_row(generated, table, search::first_with(table.rows@, synthetic::is_type_with(generated, table, domain.base_type))->0) };
        columns::values_keep_the_identity(table, base, list);
        lemma_says(table, base, list, 0);
        lemma_says(table, base, list, 1);
        lemma_says(table, base, list, 2);
        lemma_says(table, base, list, 3);
        lemma_says(table, base, list, 4);
        lemma_says(table, base, list, 5);
        lemma_says(table, base, list, 6);
        lemma_says(table, base, list, 7);
        lemma_says(table, base, list, 8);
        lemma_says(table, base, list, 9);
        lemma_says(table, base, list, 10);
        lemma_says(table, base, list, 11);
        lemma_says(table, base, list, 12);
        lemma_says(table, base, list, 13);
        lemma_says(table, base, list, 14);
        lemma_says(table, base, list, 15);
        lemma_says(table, base, list, 16);
        lemma_says(table, base, list, 17);
        lemma_says(table, base, list, 18);
        lemma_says(table, base, list, 19);
        lemma_says(table, base, list, 20);
    }
}


/// The row that is made for the type of a catalog's rows names the catalog.
#[verifier::rlimit(60)]
pub proof fn a_made_row_type_says_what_it_is(
    generated: GeneratedCatalog,
    table: StaticCatalogTable,
    relation_table: StaticCatalogTable,
)
    ensures
        ({
            let made = synthetic::relation_rowtype(generated, table, relation_table);
            &&& made matches Some(row) ==> says(table, row, "oid"@, CatalogValueView::Oid(static_rows::rowtype_of(relation_table)))
            &&& made matches Some(row) ==> says(table, row, "typname"@, CatalogValueView::Name(relation_table.name@))
            &&& made matches Some(row) ==> says(table, row, "typnamespace"@, CatalogValueView::Oid(Oid(11)))
            &&& made matches Some(row) ==> says(table, row, "typowner"@, CatalogValueView::Oid(Oid(10)))
            &&& made matches Some(row) ==> says(table, row, "typrelid"@, CatalogValueView::Oid(relation_table.oid))
            &&& made matches Some(row) ==> says(table, row, "typelem"@, CatalogValueView::Oid(Oid(0)))
            &&& made matches Some(row) ==> says(table, row, "typarray"@, CatalogValueView::Oid(Oid(0)))
            &&& made matches Some(row) ==> row.row_id == static_rows::rowtype_of(relation_table).0
        }),
{
    reveal_strlit("oid");
    reveal_strlit("typname");
    reveal_strlit("typnamespace");
    reveal_strlit("typowner");
    reveal_strlit("typrelid");
    reveal_strlit("typelem");
    reveal_strlit("typarray");
    assert("oid"@.len() == 3 && "typname"@.len() == 7 && "typnamespace"@.len() == 12
        && "typowner"@.len() == 8 && "typrelid"@.len() == 8 && "typelem"@.len() == 7
        && "typarray"@.len() == 8);
    assert("typarray"@[3] == 'a');
    assert("typelem"@[3] == 'e');
    assert("typname"@[3] == 'n');
    assert("typowner"@[3] == 'o');
    assert("typrelid"@[3] == 'r');
    reveal_with_fuel(comes_no_more, 8);
    let list = synthetic::rowtype_columns(relation_table);
    let made = synthetic::relation_rowtype(generated, table, relation_table);
    if made is Some {
        let base = CatalogRowView { row_id: static_rows::rowtype_of(relation_table).0 as u64, ..static_rows::named_row(generated, table, synthetic::rowtype_template(generated, table)->0) };
        columns::values_keep_the_identity(table, base, list);
        lemma_says(table, base, list, 0);
        lemma_says(table, base, list, 1);
        lemma_says(table, base, list, 2);
        lemma_says(table, base, list, 3);
        lemma_says(table, base, list, 4);
        lemma_says(table, base, list, 5);
        lemma_says(table, base, list, 6);
    }
}


/// The row that is made for the schema that describes the others says what it is.
#[verifier::rlimit(60)]
pub proof fn the_made_information_schema_says_what_it_is(
    generated: GeneratedCatalog,
    table: StaticCatalogTable,
)
    ensures
        ({
            let made = synthetic::information_schema(generated, table);
            &&& made matches Some(row) ==> says(table, row, "oid"@, CatalogValueView::Oid(Oid(14_000)))
            &&& made matches Some(row) ==> says(table, row, "nspname"@, CatalogValueView::Name("information_schema"@))
            &&& made matches Some(row) ==> says(table, row, "nspowner"@, CatalogValueView::Oid(Oid(10)))
            &&& made matches Some(row) ==> row.row_id == 14000
        }),
{
    reveal_strlit("oid");
    reveal_strlit("nspname");
    reveal_strlit("nspowner");
    assert("oid"@.len() == 3 && "nspname"@.len() == 7 && "nspowner"@.len() == 8);
    reveal_with_fuel(comes_no_more, 4);
    let list = synthetic::information_schema_columns();
    let made = synthetic::information_schema(generated, table);
    if made is Some {
        let base = synthetic::first_row_as(generated, table, 14000);
        columns::values_keep_the_identity(table, base, list);
        lemma_says(table, base, list, 0);
        lemma_says(table, base, list, 1);
        lemma_says(table, base, list, 2);
    }
}


/// The row that is made for the description of an operator's function names the
/// function and says its description.
#[verifier::rlimit(60)]
pub proof fn a_made_description_says_what_it_describes(
    generated: GeneratedCatalog,
    table: StaticCatalogTable,
    proc_oid: Oid,
    description: Seq<char>,
)
    ensures
        ({
            let made = synthetic::description_row(generated, table, proc_oid, description);
            &&& made matches Some(row) ==> says(table, row, "objoid"@, CatalogValueView::Oid(proc_oid))
            &&& made matches Some(row) ==> says(table, row, "classoid"@, CatalogValueView::Oid(Oid(1255)))
            &&& made matches Some(row) ==> says(table, row, "objsubid"@, CatalogValueView::Int32(0))
            &&& made matches Some(row) ==> says(table, row, "description"@, CatalogValueView::Text(description))
        }),
{
    reveal_strlit("objoid");
    reveal_strlit("classoid");
    reveal_strlit("objsubid");
    reveal_strlit("description");
    assert("objoid"@.len() == 6 && "classoid"@.len() == 8 && "objsubid"@.len() == 8
        && "description"@.len() == 11);
    assert("classoid"@[0] == 'c');
    assert("objsubid"@[0] == 'o');
    reveal_with_fuel(comes_no_more, 5);
    let list = synthetic::description_columns(proc_oid, description);
    let made = synthetic::description_row(generated, table, proc_oid, description);
    if made is Some {
        let base = synthetic::first_row_as(
            generated,
            table,
            SYNTHETIC_DESCRIPTION_ROW_ID_BASE | proc_oid.0 as u64,
        );
        columns::values_keep_the_identity(table, base, list);
        lemma_says(table, base, list, 0);
        lemma_says(table, base, list, 1);
        lemma_says(table, base, list, 2);
        lemma_says(table, base, list, 3);
    }
}


/// The row of the index of aggregates among the relations says what it is.
#[verifier::rlimit(60)]
pub proof fn the_made_aggregate_index_is_a_relation(
    table: StaticCatalogTable,
)
    ensures
        ({
            let made = synthetic::aggregate_index_class(table);
            &&& says(table, made, "oid"@, CatalogValueView::Oid(Oid(2650)))
            &&& says(table, made, "relname"@, CatalogValueView::Name("pg_aggregate_fnoid_index"@))
            &&& says(table, made, "relnamespace"@, CatalogValueView::Oid(Oid(11)))
            &&& says(table, made, "reltype"@, CatalogValueView::Oid(Oid(0)))
            &&& says(table, made, "reloftype"@, CatalogValueView::Oid(Oid(0)))
            &&& says(table, made, "relowner"@, CatalogValueView::Oid(Oid(10)))
            &&& says(table, made, "relam"@, CatalogValueView::Oid(Oid(403)))
            &&& says(table, made, "relfilenode"@, CatalogValueView::Oid(Oid(2650)))
            &&& says(table, made, "reltablespace"@, CatalogValueView::Oid(Oid(0)))
            &&& says(table, made, "relpages"@, CatalogValueView::Int32(1))
            &&& says(table, made, "reltuples"@, CatalogValueView::Float32(0x3f80_0000))
            &&& says(table, made, "relallvisible"@, CatalogValueView::Int32(0))
            &&& says(table, made, "relallfrozen"@, CatalogValueView::Int32(0))
            &&& says(table, made, "reltoastrelid"@, CatalogValueView::Oid(Oid(0)))
            &&& says(table, made, "relhasindex"@, CatalogValueView::Bool(false))
            &&& says(table, made, "relisshared"@, CatalogValueView::Bool(false))
            &&& says(table, made, "relpersistence"@, CatalogValueView::Char(112))
            &&& says(table, made, "relkind"@, CatalogValueView::Char(105))
            &&& says(table, made, "relnatts"@, CatalogValueView::Int16(1))
            &&& says(table, made, "relchecks"@, CatalogValueView::Int16(0))
            &&& says(table, made, "relhasrules"@, CatalogValueView::Bool(false))
            &&& says(table, made, "relhastriggers"@, CatalogValueView::Bool(false))
            &&& says(table, made, "relhassubclass"@, CatalogValueView::Bool(false))
            &&& says(table, made, "relrowsecurity"@, CatalogValueView::Bool(false))
            &&& says(table, made, "relforcerowsecurity"@, CatalogValueView::Bool(false))
            &&& says(table, made, "relispopulated"@, CatalogValueView::Bool(true))
            &&& says(table, made, "relreplident"@, CatalogValueView::Char(110))
            &&& says(table, made, "relispartition"@, CatalogValueView::Bool(false))
            &&& says(table, made, "relrewrite"@, CatalogValueView::Oid(Oid(0)))
            &&& says(table, made, "relfrozenxid"@, CatalogValueView::Raw("3"@))
            &&& says(table, made, "relminmxid"@, CatalogValueView::Raw("1"@))
            &&& says(table, made, "relacl"@, CatalogValueView::Null)
            &&& says(table, made, "reloptions"@, CatalogValueView::Null)
            &&& says(table, made, "relpartbound"@, CatalogValueView::Null)
        }),
{
    reveal_strlit("oid");
    reveal_strlit("relname");
    reveal_strlit("relnamespace");
    reveal_strlit("reltype");
    reveal_strlit("reloftype");
    reveal_strlit("relowner");
    reveal_strlit("relam");
    reveal_strlit("relfilenode");
    reveal_strlit("reltablespace");
    reveal_strlit("relpages");
    reveal_strlit("reltuples");
    reveal_strlit("relallvisible");
    reveal_strlit("relallfrozen");
    reveal_strlit("reltoastrelid");
    reveal_strlit("relhasindex");
    reveal_strlit("relisshared");
    reveal_strlit("relpersistence");
    reveal_strlit("relkind");
    reveal_strlit("relnatts");
    reveal_strlit("relchecks");
    reveal_strlit("relhasrules");
    reveal_strlit("relhastriggers");
    reveal_strlit("relhassubclass");
    reveal_strlit("relrowsecurity");
    reveal_strlit("relforcerowsecurity");
    reveal_strlit("relispopulated");
    reveal_strlit("relreplident");
    reveal_strlit("relispartition");
    reveal_strlit("relrewrite");
    reveal_strlit("relfrozenxid");
    reveal_strlit("relminmxid");
    reveal_strlit("relacl");
    reveal_strlit("reloptions");
    reveal_strlit("relpartbound");
    assert("oid"@.len() == 3 && "relname"@.len() == 7 && "relnamespace"@.len() == 12
        && "reltype"@.len() == 7 && "reloftype"@.len() == 9 && "relowner"@.len() == 8
        && "relam"@.len() == 5 && "relfilenode"@.len() == 11 && "reltablespace"@.len() == 13
        && "relpages"@.len() == 8 && "reltuples"@.len() == 9 && "relallvisible"@.len() == 13
        && "relallfrozen"@.len() == 12 && "reltoastrelid"@.len() == 13
        && "relhasindex"@.len() == 11 && "relisshared"@.len() == 11
        && "relpersistence"@.len() == 14 && "relkind"@.len() == 7 && "relnatts"@.len() == 8
        && "relchecks"@.len() == 9 && "relhasrules"@.len() == 11 && "relhastriggers"@.len() == 14
        && "relhassubclass"@.len() == 14 && "relrowsecurity"@.len() == 14
        && "relforcerowsecurity"@.len() == 19 && "relispopulated"@.len() == 14
        && "relreplident"@.len() == 12 && "relispartition"@.len() == 14
        && "relrewrite"@.len() == 10 && "relfrozenxid"@.len() == 12 && "relminmxid"@.len() == 10
        && "relacl"@.len() == 6 && "reloptions"@.len() == 10 && "relpartbound"@.len() == 12);
    assert("relallfrozen"@[3] == 'a');
    assert("relallvisible"@[3] == 'a');
    assert("relchecks"@[3] == 'c');
    assert("relfilenode"@[3] == 'f');
    assert("relfrozenxid"@[3] == 'f');
    assert("relhasindex"@[3] == 'h');
    assert("relhasindex"@[6] == 'i');
    assert("relhasrules"@[3] == 'h');
    assert("relhasrules"@[6] == 'r');
    assert("relhassubclass"@[3] == 'h');
    assert("relhassubclass"@[6] == 's');
    assert("relhastriggers"@[3] == 'h');
    assert("relhastriggers"@[6] == 't');
    assert("relispartition"@[3] == 'i');
    assert("relispartition"@[6] == 'a');
    assert("relispopulated"@[3] == 'i');
    assert("relispopulated"@[6] == 'o');
    assert("relisshared"@[3] == 'i');
    assert("relkind"@[3] == 'k');
    assert("relminmxid"@[3] == 'm');
    assert("relname"@[3] == 'n');
    assert("relnamespace"@[3] == 'n');
    assert("relnatts"@[3] == 'n');
    assert("reloftype"@[3] == 'o');
    assert("reloptions"@[3] == 'o');
    assert("relowner"@[3] == 'o');
    assert("relpages"@[3] == 'p');
    assert("relpartbound"@[3] == 'p');
    assert("relpersistence"@[3] == 'p');
    assert("relreplident"@[3] == 'r');
    assert("relrewrite"@[3] == 'r');
    assert("relrowsecurity"@[3] == 'r');
    assert("reltablespace"@[3] == 't');
    assert("reltablespace"@[4] == 'a');
    assert("reltoastrelid"@[3] == 't');
    assert("reltoastrelid"@[4] == 'o');
    assert("reltuples"@[3] == 't');
    assert("reltype"@[3] == 't');
    reveal_with_fuel(comes_no_more, 35);
    let list = synthetic::aggregate_index_class_columns();
    let made = synthetic::aggregate_index_class(table);
    let base = synthetic::empty_row(table, PG_AGGREGATE_FNOID_INDEX_OID as u64);
    columns::values_keep_the_identity(table, base, list);
    lemma_says(table, base, list, 0);
    lemma_says(table, base, list, 1);
    lemma_says(table, base, list, 2);
    lemma_says(table, base, list, 3);
    lemma_says(table, base, list, 4);
    lemma_says(table, base, list, 5);
    lemma_says(table, base, list, 6);
    lemma_says(table, base, list, 7);
    lemma_says(table, base, list, 8);
    lemma_says(table, base, list, 9);
    lemma_says(table, base, list, 10);
    lemma_says(table, base, list, 11);
    lemma_says(table, base, list, 12);
    lemma_says(table, base, list, 13);
    lemma_says(table, base, list, 14);
    lemma_says(table, base, list, 15);
    lemma_says(table, base, list, 16);
    lemma_says(table, base, list, 17);
    lemma_says(table, base, list, 18);
    lemma_says(table, base, list, 19);
    lemma_says(table, base, list, 20);
    lemma_says(table, base, list, 21);
    lemma_says(table, base, list, 22);
    lemma_says(table, base, list, 23);
    lemma_says(table, base, list, 24);
    lemma_says(table, base, list, 25);
    lemma_says(table, base, list, 26);
    lemma_says(table, base, list, 27);
    lemma_says(table, base, list, 28);
    lemma_says(table, base, list, 29);
    lemma_says(table, base, list, 30);
    lemma_says(table, base, list, 31);
    lemma_says(table, base, list, 32);
    lemma_says(table, base, list, 33);
}


/// The row of the index of aggregates among the indexes says what it is.
#[verifier::rlimit(60)]
pub proof fn the_made_aggregate_index_is_an_index(
    table: StaticCatalogTable,
)
    ensures
        ({
            let made = synthetic::aggregate_index(table);
            &&& says(table, made, "indexrelid"@, CatalogValueView::Oid(Oid(2650)))
            &&& says(table, made, "indrelid"@, CatalogValueView::Oid(Oid(2600)))
            &&& says(table, made, "indnatts"@, CatalogValueView::Int16(1))
            &&& says(table, made, "indnkeyatts"@, CatalogValueView::Int16(1))
            &&& says(table, made, "indisunique"@, CatalogValueView::Bool(true))
            &&& says(table, made, "indnullsnotdistinct"@, CatalogValueView::Bool(false))
            &&& says(table, made, "indisprimary"@, CatalogValueView::Bool(true))
            &&& says(table, made, "indisexclusion"@, CatalogValueView::Bool(false))
            &&& says(table, made, "indimmediate"@, CatalogValueView::Bool(true))
            &&& says(table, made, "indisclustered"@, CatalogValueView::Bool(false))
            &&& says(table, made, "indisvalid"@, CatalogValueView::Bool(true))
            &&& says(table, made, "indcheckxmin"@, CatalogValueView::Bool(false))
            &&& says(table, made, "indisready"@, CatalogValueView::Bool(true))
            &&& says(table, made, "indislive"@, CatalogValueView::Bool(true))
            &&& says(table, made, "indisreplident"@, CatalogValueView::Bool(false))
            &&& says(table, made, "indkey"@, CatalogValueView::Int2Vector(seq![1i16]))
            &&& says(table, made, "indcollation"@, CatalogValueView::OidVector(seq![Oid(0)]))
            &&& says(table, made, "indclass"@, CatalogValueView::OidVector(seq![Oid(1981)]))
            &&& says(table, made, "indoption"@, CatalogValueView::Int2Vector(seq![0i16]))
            &&& says(table, made, "indexprs"@, CatalogValueView::Null)
            &&& says(table, made, "indpred"@, CatalogValueView::Null)
        }),
{
    reveal_strlit("indexrelid");
    reveal_strlit("indrelid");
    reveal_strlit("indnatts");
    reveal_strlit("indnkeyatts");
    reveal_strlit("indisunique");
    reveal_strlit("indnullsnotdistinct");
    reveal_strlit("indisprimary");
    reveal_strlit("indisexclusion");
    reveal_strlit("indimmediate");
    reveal_strlit("indisclustered");
    reveal_strlit("indisvalid");
    reveal_strlit("indcheckxmin");
    reveal_strlit("indisready");
    reveal_strlit("indislive");
    reveal_strlit("indisreplident");
    reveal_strlit("indkey");
    reveal_strlit("indcollation");
    reveal_strlit("indclass");
    reveal_strlit("indoption");
    reveal_strlit("indexprs");
    reveal_strlit("indpred");
    assert("indexrelid"@.len() == 10 && "indrelid"@.len() == 8 && "indnatts"@.len() == 8
        && "indnkeyatts"@.len() == 11 && "indisunique"@.len() == 11
        && "indnullsnotdistinct"@.len() == 19 && "indisprimary"@.len() == 12
        && "indisexclusion"@.len() == 14 && "indimmediate"@.len() == 12
        && "indisclustered"@.len() == 14 && "indisvalid"@.len() == 10
        && "indcheckxmin"@.len() == 12 && "indisready"@.len() == 10 && "indislive"@.len() == 9
        && "indisreplident"@.len() == 14 && "indkey"@.len() == 6 && "indcollation"@.len() == 12
        && "indclass"@.len() == 8 && "indoption"@.len() == 9 && "indexprs"@.len() == 8
        && "indpred"@.len() == 7);
    assert("indcheckxmin"@[3] == 'c');
    assert("indcheckxmin"@[4] == 'h');
    assert("indclass"@[3] == 'c');
    assert("indcollation"@[3] == 'c');
    assert("indcollation"@[4] == 'o');
    assert("indexprs"@[3] == 'e');
    assert("indexrelid"@[3] == 'e');
    assert("indimmediate"@[3] == 'i');
    assert("indimmediate"@[4] == 'm');
    assert("indisclustered"@[5] == 'c');
    assert("indisexclusion"@[5] == 'e');
    assert("indislive"@[3] == 'i');
    assert("indisprimary"@[3] == 'i');
    assert("indisprimary"@[4] == 's');
    assert("indisready"@[3] == 'i');
    assert("indisready"@[5] == 'r');
    assert("indisreplident"@[5] == 'r');
    assert("indisunique"@[3] == 'i');
    assert("indisvalid"@[3] == 'i');
    assert("indisvalid"@[5] == 'v');
    assert("indnatts"@[3] == 'n');
    assert("indnkeyatts"@[3] == 'n');
    assert("indoption"@[3] == 'o');
    assert("indrelid"@[3] == 'r');
    reveal_with_fuel(comes_no_more, 22);
    let list = synthetic::aggregate_index_columns();
    let made = synthetic::aggregate_index(table);
    let base = synthetic::empty_row(table, PG_AGGREGATE_FNOID_INDEX_OID as u64);
    columns::values_keep_the_identity(table, base, list);
    lemma_says(table, base, list, 0);
    lemma_says(table, base, list, 1);
    lemma_says(table, base, list, 2);
    lemma_says(table, base, list, 3);
    lemma_says(table, base, list, 4);
    lemma_says(table, base, list, 5);
    lemma_says(table, base, list, 6);
    lemma_says(table, base, list, 7);
    lemma_says(table, base, list, 8);
    lemma_says(table, base, list, 9);
    lemma_says(table, base, list, 10);
    lemma_says(table, base, list, 11);
    lemma_says(table, base, list, 12);
    lemma_says(table, base, list, 13);
    lemma_says(table, base, list, 14);
    lemma_says(table, base, list, 15);
    lemma_says(table, base, list, 16);
    lemma_says(table, base, list, 17);
    lemma_says(table, base, list, 18);
    lemma_says(table, base, list, 19);
    lemma_says(table, base, list, 20);
}


/// The row of the first privileges says whose they are.
#[verifier::rlimit(60)]
pub proof fn the_made_privileges_are_these(
    table: StaticCatalogTable,
)
    ensures
        ({
            let made = synthetic::catalog_privileges(table);
            &&& says(table, made, "objoid"@, CatalogValueView::Oid(Oid(11)))
            &&& says(table, made, "classoid"@, CatalogValueView::Oid(Oid(2615)))
            &&& says(table, made, "objsubid"@, CatalogValueView::Int32(0))
            &&& says(table, made, "privtype"@, CatalogValueView::Char(105))
            &&& says(table, made, "initprivs"@, CatalogValueView::Raw("{=U/postgres,postgres=UC/postgres}"@))
        }),
{
    reveal_strlit("objoid");
    reveal_strlit("classoid");
    reveal_strlit("objsubid");
    reveal_strlit("privtype");
    reveal_strlit("initprivs");
    assert("objoid"@.len() == 6 && "classoid"@.len() == 8 && "objsubid"@.len() == 8
        && "privtype"@.len() == 8 && "initprivs"@.len() == 9);
    assert("classoid"@[0] == 'c');
    assert("objsubid"@[0] == 'o');
    assert("privtype"@[0] == 'p');
    reveal_with_fuel(comes_no_more, 6);
    let list = synthetic::catalog_privileges_columns();
    let made = synthetic::catalog_privileges(table);
    let base = synthetic::empty_row(
        table,
        SYNTHETIC_INIT_PRIVS_ROW_ID_BASE | PG_CATALOG_NAMESPACE_OID as u64,
    );
    columns::values_keep_the_identity(table, base, list);
    lemma_says(table, base, list, 0);
    lemma_says(table, base, list, 1);
    lemma_says(table, base, list, 2);
    lemma_says(table, base, list, 3);
    lemma_says(table, base, list, 4);
}


/// The row of the dictionary of English says what it is.
#[verifier::rlimit(60)]
pub proof fn the_made_dictionary_is_this(
    table: StaticCatalogTable,
)
    ensures
        ({
            let made = synthetic::english_dictionary(table);
            &&& says(table, made, "oid"@, CatalogValueView::Oid(Oid(100_102)))
            &&& says(table, made, "dictname"@, CatalogValueView::Name("english_stem"@))
            &&& says(table, made, "dictnamespace"@, CatalogValueView::Oid(Oid(11)))
            &&& says(table, made, "dictowner"@, CatalogValueView::Oid(Oid(10)))
            &&& says(table, made, "dicttemplate"@, CatalogValueView::Oid(Oid(100_100)))
            &&& says(table, made, "dictinitoption"@, CatalogValueView::Text("language = 'english', stopwords = 'english'"@))
        }),
{
    reveal_strlit("oid");
    reveal_strlit("dictname");
    reveal_strlit("dictnamespace");
    reveal_strlit("dictowner");
    reveal_strlit("dicttemplate");
    reveal_strlit("dictinitoption");
    assert("oid"@.len() == 3 && "dictname"@.len() == 8 && "dictnamespace"@.len() == 13
        && "dictowner"@.len() == 9 && "dicttemplate"@.len() == 12
        && "dictinitoption"@.len() == 14);
    reveal_with_fuel(comes_no_more, 7);
    let list = synthetic::english_dictionary_columns();
    let made = synthetic::english_dictionary(table);
    let base = synthetic::empty_row(table, ENGLISH_TS_DICT_OID as u64);
    columns::values_keep_the_identity(table, base, list);
    lemma_says(table, base, list, 0);
    lemma_says(table, base, list, 1);
    lemma_says(table, base, list, 2);
    lemma_says(table, base, list, 3);
    lemma_says(table, base, list, 4);
    lemma_says(table, base, list, 5);
}


/// The row of the configuration for English says what it is.
#[verifier::rlimit(60)]
pub proof fn the_made_configuration_is_this(
    table: StaticCatalogTable,
)
    ensures
        ({
            let made = synthetic::english_config(table);
            &&& says(table, made, "oid"@, CatalogValueView::Oid(Oid(100_101)))
            &&& says(table, made, "cfgname"@, CatalogValueView::Name("english"@))
            &&& says(table, made, "cfgnamespace"@, CatalogValueView::Oid(Oid(11)))
            &&& says(table, made, "cfgowner"@, CatalogValueView::Oid(Oid(10)))
            &&& says(table, made, "cfgparser"@, CatalogValueView::Oid(Oid(3722)))
        }),
{
    reveal_strlit("oid");
    reveal_strlit("cfgname");
    reveal_strlit("cfgnamespace");
    reveal_strlit("cfgowner");
    reveal_strlit("cfgparser");
    assert("oid"@.len() == 3 && "cfgname"@.len() == 7 && "cfgnamespace"@.len() == 12
        && "cfgowner"@.len() == 8 && "cfgparser"@.len() == 9);
    reveal_with_fuel(comes_no_more, 6);
    let list = synthetic::english_config_columns();
    let made = synthetic::english_config(table);
    let base = synthetic::empty_row(table, ENGLISH_TS_CONFIG_OID as u64);
    columns::values_keep_the_identity(table, base, list);
    lemma_says(table, base, list, 0);
    lemma_says(table, base, list, 1);
    lemma_says(table, base, list, 2);
    lemma_says(table, base, list, 3);
    lemma_says(table, base, list, 4);
}


/// The row of the template of dictionaries says what it is.
#[verifier::rlimit(60)]
pub proof fn the_made_template_is_this(
    table: StaticCatalogTable,
)
    ensures
        ({
            let made = synthetic::snowball_template(table);
            &&& says(table, made, "oid"@, CatalogValueView::Oid(Oid(100_100)))
            &&& says(table, made, "tmplname"@, CatalogValueView::Name("snowball"@))
            &&& says(table, made, "tmplnamespace"@, CatalogValueView::Oid(Oid(11)))
            &&& says(table, made, "tmplinit"@, CatalogValueView::Oid(Oid(100_103)))
            &&& says(table, made, "tmpllexize"@, CatalogValueView::Oid(Oid(100_104)))
        }),
{
    reveal_strlit("oid");
    reveal_strlit("tmplname");
    reveal_strlit("tmplnamespace");
    reveal_strlit("tmplinit");
    reveal_strlit("tmpllexize");
    assert("oid"@.len() == 3 && "tmplname"@.len() == 8 && "tmplnamespace"@.len() == 13
        && "tmplinit"@.len() == 8 && "tmpllexize"@.len() == 10);
    assert("tmplinit"@[4] == 'i');
    assert("tmplname"@[4] == 'n');
    reveal_with_fuel(comes_no_more, 6);
    let list = synthetic::snowball_template_columns();
    let made = synthetic::snowball_template(table);
    let base = synthetic::empty_row(table, SNOWBALL_TS_TEMPLATE_OID as u64);
    columns::values_keep_the_identity(table, base, list);
    lemma_says(table, base, list, 0);
    lemma_says(table, base, list, 1);
    lemma_says(table, base, list, 2);
    lemma_says(table, base, list, 3);
    lemma_says(table, base, list, 4);
}


/// The row of a function of a dictionary says what the function is.
#[verifier::rlimit(60)]
pub proof fn a_made_function_says_what_it_is(
    table: StaticCatalogTable,
    oid: u32,
    name: Seq<char>,
    nargs: i16,
)
    ensures
        ({
            let made = synthetic::snowball_proc(table, oid, name, nargs);
            &&& says(table, made, "oid"@, CatalogValueView::Oid(Oid(oid)))
            &&& says(table, made, "proname"@, CatalogValueView::Name(name))
            &&& says(table, made, "pronamespace"@, CatalogValueView::Oid(Oid(11)))
            &&& says(table, made, "proowner"@, CatalogValueView::Oid(Oid(10)))
            &&& says(table, made, "prolang"@, CatalogValueView::Oid(Oid(13)))
            &&& says(table, made, "procost"@, CatalogValueView::Float32(0x3f80_0000))
            &&& says(table, made, "prorows"@, CatalogValueView::Float32(0))
            &&& says(table, made, "provariadic"@, CatalogValueView::Oid(Oid(0)))
            &&& says(table, made, "prosupport"@, CatalogValueView::Oid(Oid(0)))
            &&& says(table, made, "prokind"@, CatalogValueView::Char(102))
            &&& says(table, made, "prosecdef"@, CatalogValueView::Bool(false))
            &&& says(table, made, "proleakproof"@, CatalogValueView::Bool(false))
            &&& says(table, made, "proisstrict"@, CatalogValueView::Bool(true))
            &&& says(table, made, "proretset"@, CatalogValueView::Bool(false))
            &&& says(table, made, "provolatile"@, CatalogValueView::Char(118))
            &&& says(table, made, "proparallel"@, CatalogValueView::Char(117))
            &&& says(table, made, "pronargs"@, CatalogValueView::Int16(nargs))
            &&& says(table, made, "pronargdefaults"@, CatalogValueView::Int16(0))
            &&& says(table, made, "prorettype"@, CatalogValueView::Oid(Oid(2281)))
            &&& says(table, made, "proargtypes"@, CatalogValueView::OidVector(Seq::new(nargs as nat, |i: int| Oid(2281))))
            &&& says(table, made, "prosrc"@, CatalogValueView::Text(name))
            &&& says(table, made, "probin"@, CatalogValueView::Text("$libdir/dict_snowball"@))
            &&& made.row_id == oid
        }),
{
    reveal_strlit("oid");
    reveal_strlit("proname");
    reveal_strlit("pronamespace");
    reveal_strlit("proowner");
    reveal_strlit("prolang");
    reveal_strlit("procost");
    reveal_strlit("prorows");
    reveal_strlit("provariadic");
    reveal_strlit("prosupport");
    reveal_strlit("prokind");
    reveal_strlit("prosecdef");
    reveal_strlit("proleakproof");
    reveal_strlit("proisstrict");
    reveal_strlit("proretset");
    reveal_strlit("provolatile");
    reveal_strlit("proparallel");
    reveal_strlit("pronargs");
    reveal_strlit("pronargdefaults");
    reveal_strlit("prorettype");
    reveal_strlit("proargtypes");
    reveal_strlit("prosrc");
    reveal_strlit("probin");
    assert("oid"@.len() == 3 && "proname"@.len() == 7 && "pronamespace"@.len() == 12
        && "proowner"@.len() == 8 && "prolang"@.len() == 7 && "procost"@.len() == 7
        && "prorows"@.len() == 7 && "provariadic"@.len() == 11 && "prosupport"@.len() == 10
        && "prokind"@.len() == 7 && "prosecdef"@.len() == 9 && "proleakproof"@.len() == 12
        && "proisstrict"@.len() == 11 && "proretset"@.len() == 9 && "provolatile"@.len() == 11
        && "proparallel"@.len() == 11 && "pronargs"@.len() == 8 && "pronargdefaults"@.len() == 15
        && "prorettype"@.len() == 10 && "proargtypes"@.len() == 11 && "prosrc"@.len() == 6
        && "probin"@.len() == 6);
    assert("proargtypes"@[3] == 'a');
    assert("probin"@[3] == 'b');
    assert("procost"@[3] == 'c');
    assert("proisstrict"@[3] == 'i');
    assert("prokind"@[3] == 'k');
    assert("prolang"@[3] == 'l');
    assert("proleakproof"@[3] == 'l');
    assert("proname"@[3] == 'n');
    assert("pronamespace"@[3] == 'n');
    assert("pronargs"@[3] == 'n');
    assert("proowner"@[3] == 'o');
    assert("proparallel"@[3] == 'p');
    assert("proretset"@[3] == 'r');
    assert("prorettype"@[3] == 'r');
    assert("prorows"@[3] == 'r');
    assert("prosecdef"@[3] == 's');
    assert("prosrc"@[3] == 's');
    assert("prosupport"@[3] == 's');
    assert("provariadic"@[3] == 'v');
    assert("provariadic"@[4] == 'a');
    assert("provolatile"@[3] == 'v');
    assert("provolatile"@[4] == 'o');
    reveal_with_fuel(comes_no_more, 23);
    let list = synthetic::snowball_proc_columns(oid, name, nargs);
    let made = synthetic::snowball_proc(table, oid, name, nargs);
    let base = synthetic::empty_row(table, oid as u64);
    columns::values_keep_the_identity(table, base, list);
    lemma_says(table, base, list, 0);
    lemma_says(table, base, list, 1);
    lemma_says(table, base, list, 2);
    lemma_says(table, base, list, 3);
    lemma_says(table, base, list, 4);
    lemma_says(table, base, list, 5);
    lemma_says(table, base, list, 6);
    lemma_says(table, base, list, 7);
    lemma_says(table, base, list, 8);
    lemma_says(table, base, list, 9);
    lemma_says(table, base, list, 10);
    lemma_says(table, base, list, 11);
    lemma_says(table, base, list, 12);
    lemma_says(table, base, list, 13);
    lemma_says(table, base, list, 14);
    lemma_says(table, base, list, 15);
    lemma_says(table, base, list, 16);
    lemma_says(table, base, list, 17);
    lemma_says(table, base, list, 18);
    lemma_says(table, base, list, 19);
    lemma_says(table, base, list, 20);
    lemma_says(table, base, list, 21);
}


/// The row of an index of a catalog among the relations says what it is.
#[verifier::rlimit(60)]
pub proof fn a_made_index_is_a_relation(
    table: StaticCatalogTable,
    index: CatalogIndexView,
)
    ensures
        ({
            let made = catalog_indexes::index_class(table, index);
            &&& says(table, made, "oid"@, CatalogValueView::Oid(index.oid))
            &&& says(table, made, "relname"@, CatalogValueView::Name(index.name))
            &&& says(table, made, "relnamespace"@, CatalogValueView::Oid(Oid(11)))
            &&& says(table, made, "reltype"@, CatalogValueView::Oid(Oid(0)))
            &&& says(table, made, "reloftype"@, CatalogValueView::Oid(Oid(0)))
            &&& says(table, made, "relowner"@, CatalogValueView::Oid(Oid(10)))
            &&& says(table, made, "relam"@, CatalogValueView::Oid(Oid(403)))
            &&& says(table, made, "relfilenode"@, CatalogValueView::Oid(index.oid))
            &&& says(table, made, "reltablespace"@, CatalogValueView::Oid(Oid(0)))
            &&& says(table, made, "relpages"@, CatalogValueView::Int32(1))
            &&& says(table, made, "reltuples"@, CatalogValueView::Float32(0x3f80_0000))
            &&& says(table, made, "relallvisible"@, CatalogValueView::Int32(0))
            &&& says(table, made, "relallfrozen"@, CatalogValueView::Int32(0))
            &&& says(table, made, "reltoastrelid"@, CatalogValueView::Oid(Oid(0)))
            &&& says(table, made, "relhasindex"@, CatalogValueView::Bool(false))
            &&& says(table, made, "relisshared"@, CatalogValueView::Bool(false))
            &&& says(table, made, "relpersistence"@, CatalogValueView::Char(112))
            &&& says(table, made, "relkind"@, CatalogValueView::Char(105))
            &&& says(table, made, "relnatts"@, CatalogValueView::Int16(index.keys.len() as i16))
            &&& says(table, made, "relchecks"@, CatalogValueView::Int16(0))
            &&& says(table, made, "relhasrules"@, CatalogValueView::Bool(false))
            &&& says(table, made, "relhastriggers"@, CatalogValueView::Bool(false))
            &&& says(table, made, "relhassubclass"@, CatalogValueView::Bool(false))
            &&& says(table, made, "relrowsecurity"@, CatalogValueView::Bool(false))
            &&& says(table, made, "relforcerowsecurity"@, CatalogValueView::Bool(false))
            &&& says(table, made, "relispopulated"@, CatalogValueView::Bool(true))
            &&& says(table, made, "relreplident"@, CatalogValueView::Char(110))
            &&& says(table, made, "relispartition"@, CatalogValueView::Bool(false))
            &&& says(table, made, "relrewrite"@, CatalogValueView::Oid(Oid(0)))
            &&& says(table, made, "relfrozenxid"@, CatalogValueView::Raw("3"@))
            &&& says(table, made, "relminmxid"@, CatalogValueView::Raw("1"@))
            &&& says(table, made, "relacl"@, CatalogValueView::Null)
            &&& says(table, made, "reloptions"@, CatalogValueView::Null)
            &&& says(table, made, "relpartbound"@, CatalogValueView::Null)
            &&& made.row_id == index.oid.0
        }),
{
    reveal_strlit("oid");
    reveal_strlit("relname");
    reveal_strlit("relnamespace");
    reveal_strlit("reltype");
    reveal_strlit("reloftype");
    reveal_strlit("relowner");
    reveal_strlit("relam");
    reveal_strlit("relfilenode");
    reveal_strlit("reltablespace");
    reveal_strlit("relpages");
    reveal_strlit("reltuples");
    reveal_strlit("relallvisible");
    reveal_strlit("relallfrozen");
    reveal_strlit("reltoastrelid");
    reveal_strlit("relhasindex");
    reveal_strlit("relisshared");
    reveal_strlit("relpersistence");
    reveal_strlit("relkind");
    reveal_strlit("relnatts");
    reveal_strlit("relchecks");
    reveal_strlit("relhasrules");
    reveal_strlit("relhastriggers");
    reveal_strlit("relhassubclass");
    reveal_strlit("relrowsecurity");
    reveal_strlit("relforcerowsecurity");
    reveal_strlit("relispopulated");
    reveal_strlit("relreplident");
    reveal_strlit("relispartition");
    reveal_strlit("relrewrite");
    reveal_strlit("relfrozenxid");
    reveal_strlit("relminmxid");
    reveal_strlit("relacl");
    reveal_strlit("reloptions");
    reveal_strlit("relpartbound");
    assert("oid"@.len() == 3 && "relname"@.len() == 7 && "relnamespace"@.len() == 12
        && "reltype"@.len() == 7 && "reloftype"@.len() == 9 && "relowner"@.len() == 8
        && "relam"@.len() == 5 && "relfilenode"@.len() == 11 && "reltablespace"@.len() == 13
        && "relpages"@.len() == 8 && "reltuples"@.len() == 9 && "relallvisible"@.len() == 13
        && "relallfrozen"@.len() == 12 && "reltoastrelid"@.len() == 13
        && "relhasindex"@.len() == 11 && "relisshared"@.len() == 11
        && "relpersistence"@.len() == 14 && "relkind"@.len() == 7 && "relnatts"@.len() == 8
        && "relchecks"@.len() == 9 && "relhasrules"@.len() == 11 && "relhastriggers"@.len() == 14
        && "relhassubclass"@.len() == 14 && "relrowsecurity"@.len() == 14
        && "relforcerowsecurity"@.len() == 19 && "relispopulated"@.len() == 14
        && "relreplident"@.len() == 12 && "relispartition"@.len() == 14
        && "relrewrite"@.len() == 10 && "relfrozenxid"@.len() == 12 && "relminmxid"@.len() == 10
        && "relacl"@.len() == 6 && "reloptions"@.len() == 10 && "relpartbound"@.len() == 12);
    assert("relallfrozen"@[3] == 'a');
    assert("relallvisible"@[3] == 'a');
    assert("relchecks"@[3] == 'c');
    assert("relfilenode"@[3] == 'f');
    assert("relfrozenxid"@[3] == 'f');
    assert("relhasindex"@[3] == 'h');
    assert("relhasindex"@[6] == 'i');
    assert("relhasrules"@[3] == 'h');
    assert("relhasrules"@[6] == 'r');
    assert("relhassubclass"@[3] == 'h');
    assert("relhassubclass"@[6] == 's');
    assert("relhastriggers"@[3] == 'h');
    assert("relhastriggers"@[6] == 't');
    assert("relispartition"@[3] == 'i');
    assert("relispartition"@[6] == 'a');
    assert("relispopulated"@[3] == 'i');
    assert("relispopulated"@[6] == 'o');
    assert("relisshared"@[3] == 'i');
    assert("relkind"@[3] == 'k');
    assert("relminmxid"@[3] == 'm');
    assert("relname"@[3] == 'n');
    assert("relnamespace"@[3] == 'n');
    assert("relnatts"@[3] == 'n');
    assert("reloftype"@[3] == 'o');
    assert("reloptions"@[3] == 'o');
    assert("relowner"@[3] == 'o');
    assert("relpages"@[3] == 'p');
    assert("relpartbound"@[3] == 'p');
    assert("relpersistence"@[3] == 'p');
    assert("relreplident"@[3] == 'r');
    assert("relrewrite"@[3] == 'r');
    assert("relrowsecurity"@[3] == 'r');
    assert("reltablespace"@[3] == 't');
    assert("reltablespace"@[4] == 'a');
    assert("reltoastrelid"@[3] == 't');
    assert("reltoastrelid"@[4] == 'o');
    assert("reltuples"@[3] == 't');
    assert("reltype"@[3] == 't');
    reveal_with_fuel(comes_no_more, 35);
    let list = catalog_indexes::class_columns(index);
    let made = catalog_indexes::index_class(table, index);
    let base = synthetic::empty_row(table, index.oid.0 as u64);
    columns::values_keep_the_identity(table, base, list);
    lemma_says(table, base, list, 0);
    lemma_says(table, base, list, 1);
    lemma_says(table, base, list, 2);
    lemma_says(table, base, list, 3);
    lemma_says(table, base, list, 4);
    lemma_says(table, base, list, 5);
    lemma_says(table, base, list, 6);
    lemma_says(table, base, list, 7);
    lemma_says(table, base, list, 8);
    lemma_says(table, base, list, 9);
    lemma_says(table, base, list, 10);
    lemma_says(table, base, list, 11);
    lemma_says(table, base, list, 12);
    lemma_says(table, base, list, 13);
    lemma_says(table, base, list, 14);
    lemma_says(table, base, list, 15);
    lemma_says(table, base, list, 16);
    lemma_says(table, base, list, 17);
    lemma_says(table, base, list, 18);
    lemma_says(table, base, list, 19);
    lemma_says(table, base, list, 20);
    lemma_says(table, base, list, 21);
    lemma_says(table, base, list, 22);
    lemma_says(table, base, list, 23);
    lemma_says(table, base, list, 24);
    lemma_says(table, base, list, 25);
    lemma_says(table, base, list, 26);
    lemma_says(table, base, list, 27);
    lemma_says(table, base, list, 28);
    lemma_says(table, base, list, 29);
    lemma_says(table, base, list, 30);
    lemma_says(table, base, list, 31);
    lemma_says(table, base, list, 32);
    lemma_says(table, base, list, 33);
}


/// The row of an index of a catalog among the indexes says what it is: of which
/// catalog, whether it is the primary key, and by which columns it orders.
#[verifier::rlimit(60)]
pub proof fn a_made_index_is_an_index(
    generated: GeneratedCatalog,
    table: StaticCatalogTable,
    index: CatalogIndexView,
    relation: StaticCatalogTable,
    places: Seq<usize>,
)
    requires
        columns::table_of(generated, index.relation_oid) == Some(relation),
        places.len() == index.keys.len(),
        forall|k: int|
            0 <= k < places.len() ==> (#[trigger] places[k]) < relation.columns@.len()
                && places[k] < i16::MAX && relation.columns@[places[k] as int].name@
                == index.keys[k],
        forall|k: int, j: int|
            0 <= k < places.len() && 0 <= j < places[k] ==> (#[trigger] relation.columns@[j]).name@
                != #[trigger] index.keys[k],
    ensures
        ({
            let made = catalog_indexes::index_row(generated, table, index);
            &&& made is Some
            &&& made matches Some(row) ==> says(table, row, "indexrelid"@, CatalogValueView::Oid(index.oid))
            &&& made matches Some(row) ==> says(table, row, "indrelid"@, CatalogValueView::Oid(relation.oid))
            &&& made matches Some(row) ==> says(table, row, "indnatts"@, CatalogValueView::Int16(index.keys.len() as i16))
            &&& made matches Some(row) ==> says(table, row, "indnkeyatts"@, CatalogValueView::Int16(index.keys.len() as i16))
            &&& made matches Some(row) ==> says(table, row, "indisunique"@, CatalogValueView::Bool(true))
            &&& made matches Some(row) ==> says(table, row, "indnullsnotdistinct"@, CatalogValueView::Bool(false))
            &&& made matches Some(row) ==> says(table, row, "indisprimary"@, CatalogValueView::Bool(index.primary))
            &&& made matches Some(row) ==> says(table, row, "indisexclusion"@, CatalogValueView::Bool(false))
            &&& made matches Some(row) ==> says(table, row, "indimmediate"@, CatalogValueView::Bool(true))
            &&& made matches Some(row) ==> says(table, row, "indisclustered"@, CatalogValueView::Bool(false))
            &&& made matches Some(row) ==> says(table, row, "indisvalid"@, CatalogValueView::Bool(true))
            &&& made matches Some(row) ==> says(table, row, "indcheckxmin"@, CatalogValueView::Bool(false))
            &&& made matches Some(row) ==> says(table, row, "indisready"@, CatalogValueView::Bool(true))
            &&& made matches Some(row) ==> says(table, row, "indislive"@, CatalogValueView::Bool(true))
            &&& made matches Some(row) ==> says(table, row, "indisreplident"@, CatalogValueView::Bool(false))
            &&& made matches Some(row) ==> says(table, row, "indkey"@, CatalogValueView::Int2Vector(Seq::new(
                index.keys.len(),
                |i: int| (places[i] + 1) as i16,
            )))
            &&& made matches Some(row) ==> says(table, row, "indcollation"@, CatalogValueView::OidVector(Seq::new(
                index.keys.len(),
                |i: int| relation.columns@[places[i] as int].attcollation,
            )))
            &&& made matches Some(row) ==> says(table, row, "indclass"@, CatalogValueView::OidVector(Seq::new(
                index.keys.len(),
                |i: int| catalog_indexes::class_of(generated, relation.columns@[places[i] as int].type_oid),
            )))
            &&& made matches Some(row) ==> says(table, row, "indoption"@, CatalogValueView::Int2Vector(Seq::new(index.keys.len(), |i: int| 0i16)))
            &&& made matches Some(row) ==> says(table, row, "indexprs"@, CatalogValueView::Null)
            &&& made matches Some(row) ==> says(table, row, "indpred"@, CatalogValueView::Null)
            &&& made matches Some(row) ==> row.row_id == index.oid.0
        }),
{
    reveal_strlit("indexrelid");
    reveal_strlit("indrelid");
    reveal_strlit("indnatts");
    reveal_strlit("indnkeyatts");
    reveal_strlit("indisunique");
    reveal_strlit("indnullsnotdistinct");
    reveal_strlit("indisprimary");
    reveal_strlit("indisexclusion");
    reveal_strlit("indimmediate");
    reveal_strlit("indisclustered");
    reveal_strlit("indisvalid");
    reveal_strlit("indcheckxmin");
    reveal_strlit("indisready");
    reveal_strlit("indislive");
    reveal_strlit("indisreplident");
    reveal_strlit("indkey");
    reveal_strlit("indcollation");
    reveal_strlit("indclass");
    reveal_strlit("indoption");
    reveal_strlit("indexprs");
    reveal_strlit("indpred");
    assert("indexrelid"@.len() == 10 && "indrelid"@.len() == 8 && "indnatts"@.len() == 8
        && "indnkeyatts"@.len() == 11 && "indisunique"@.len() == 11
        && "indnullsnotdistinct"@.len() == 19 && "indisprimary"@.len() == 12
        && "indisexclusion"@.len() == 14 && "indimmediate"@.len() == 12
        && "indisclustered"@.len() == 14 && "indisvalid"@.len() == 10
        && "indcheckxmin"@.len() == 12 && "indisready"@.len() == 10 && "indislive"@.len() == 9
        && "indisreplident"@.len() == 14 && "indkey"@.len() == 6 && "indcollation"@.len() == 12
        && "indclass"@.len() == 8 && "indoption"@.len() == 9 && "indexprs"@.len() == 8
        && "indpred"@.len() == 7);
    assert("indcheckxmin"@[3] == 'c');
    assert("indcheckxmin"@[4] == 'h');
    assert("indclass"@[3] == 'c');
    assert("indcollation"@[3] == 'c');
    assert("indcollation"@[4] == 'o');
    assert("indexprs"@[3] == 'e');
    assert("indexrelid"@[3] == 'e');
    assert("indimmediate"@[3] == 'i');
    assert("indimmediate"@[4] == 'm');
    assert("indisclustered"@[5] == 'c');
    assert("indisexclusion"@[5] == 'e');
    assert("indislive"@[3] == 'i');
    assert("indisprimary"@[3] == 'i');
    assert("indisprimary"@[4] == 's');
    assert("indisready"@[3] == 'i');
    assert("indisready"@[5] == 'r');
    assert("indisreplident"@[5] == 'r');
    assert("indisunique"@[3] == 'i');
    assert("indisvalid"@[3] == 'i');
    assert("indisvalid"@[5] == 'v');
    assert("indnatts"@[3] == 'n');
    assert("indnkeyatts"@[3] == 'n');
    assert("indoption"@[3] == 'o');
    assert("indrelid"@[3] == 'r');
    reveal_with_fuel(comes_no_more, 22);
    let list = catalog_indexes::index_columns(generated, relation, index, places);
    lemma_key_places(relation, index.keys, places);
    assert(catalog_indexes::key_numbers(places) =~= Seq::new(
        index.keys.len(),
        |i: int| (places[i] + 1) as i16,
    ));
    assert(catalog_indexes::key_collations(relation, places) =~= Seq::new(
        index.keys.len(),
        |i: int| relation.columns@[places[i] as int].attcollation,
    ));
    assert(catalog_indexes::key_classes(generated, relation, places) =~= Seq::new(
        index.keys.len(),
        |i: int| catalog_indexes::class_of(generated, relation.columns@[places[i] as int].type_oid),
    ));
    let made = catalog_indexes::index_row(generated, table, index);
    if made is Some {
        let base = synthetic::empty_row(table, index.oid.0 as u64);
        columns::values_keep_the_identity(table, base, list);
        lemma_says(table, base, list, 0);
        lemma_says(table, base, list, 1);
        lemma_says(table, base, list, 2);
        lemma_says(table, base, list, 3);
        lemma_says(table, base, list, 4);
        lemma_says(table, base, list, 5);
        lemma_says(table, base, list, 6);
        lemma_says(table, base, list, 7);
        lemma_says(table, base, list, 8);
        lemma_says(table, base, list, 9);
        lemma_says(table, base, list, 10);
        lemma_says(table, base, list, 11);
        lemma_says(table, base, list, 12);
        lemma_says(table, base, list, 13);
        lemma_says(table, base, list, 14);
        lemma_says(table, base, list, 15);
        lemma_says(table, base, list, 16);
        lemma_says(table, base, list, 17);
        lemma_says(table, base, list, 18);
        lemma_says(table, base, list, 19);
        lemma_says(table, base, list, 20);
    }
}


proof fn lemma_key_places(
    relation: StaticCatalogTable,
    keys: Seq<Seq<char>>,
    places: Seq<usize>,
)
    requires
        places.len() == keys.len(),
        forall|k: int|
            0 <= k < places.len() ==> (#[trigger] places[k]) < relation.columns@.len()
                && places[k] < i16::MAX && relation.columns@[places[k] as int].name@ == keys[k],
        forall|k: int, j: int|
            0 <= k < places.len() && 0 <= j < places[k] ==> (#[trigger] relation.columns@[j]).name@
                != #[trigger] keys[k],
    ensures
        search::every_some(keys, catalog_indexes::key_place(relation)) == Some(places),
    decreases keys.len(),
{
    let f = catalog_indexes::key_place(relation);
    if keys.len() == 0 {
        assert(places =~= seq![]);
    } else {
        let n = keys.len() - 1;
        let most = keys.drop_last();
        let before = places.drop_last();
        assert forall|k: int| 0 <= k < before.len() implies (#[trigger] before[k])
            < relation.columns@.len() && before[k] < i16::MAX
            && relation.columns@[before[k] as int].name@ == most[k] by {
            let _ = places[k];
        }
        assert forall|k: int, j: int| 0 <= k < before.len() && 0 <= j < before[k] implies (
        #[trigger] relation.columns@[j]).name@ != #[trigger] most[k] by {
            assert(keys[k] == most[k]);
            assert(places[k] == before[k]);
        }
        lemma_key_places(relation, most, before);
        let p = columns::column_is(keys[n]);
        let at = places[n] as int;
        assert forall|j: int| 0 <= j < at implies !p(#[trigger] relation.columns@[j]) by {
            assert(relation.columns@[j].name@ != keys[n]);
        }
        search::first_index_at(relation.columns@, p, at);
        assert(keys.last() == keys[n]);
        assert(before.push(places[n]) =~= places);
    }
}

/// The columns that every relation has beside its own are these, numbered downwards
/// from one below zero.
pub proof fn every_relation_has_these_columns(i: int)
    requires
        0 <= i < synthetic::system_attributes().len(),
    ensures
        synthetic::system_attributes().len() == 6,
        synthetic::system_attributes()[i].attnum == -1 - i,
        ({
            let c = synthetic::system_attributes()[i];
            &&& i == 0 ==> c.name@ == "ctid"@ && c.type_oid == Oid(27)
            &&& i == 1 ==> c.name@ == "xmin"@ && c.type_oid == Oid(28)
            &&& i == 2 ==> c.name@ == "cmin"@ && c.type_oid == Oid(29)
            &&& i == 3 ==> c.name@ == "xmax"@ && c.type_oid == Oid(28)
            &&& i == 4 ==> c.name@ == "cmax"@ && c.type_oid == Oid(29)
            &&& i == 5 ==> c.name@ == "tableoid"@ && c.type_oid == Oid(26)
        }),
{
}

/// The domains of the schema that describes the others are these, numbered upwards
/// behind the schema itself.
pub proof fn the_domains_are_these(i: int)
    requires
        0 <= i < synthetic::domain_specs().len(),
    ensures
        synthetic::domain_specs().len() == 5,
        synthetic::domain_specs()[i].oid.0 == 14001 + i,
        ({
            let d = synthetic::domain_specs()[i];
            &&& i == 0 ==> d.name@ == "cardinal_number"@ && d.base_type == Oid(23) && d.type_mod
                == -1 && d.collation == Oid(0)
            &&& i == 1 ==> d.name@ == "character_data"@ && d.base_type == Oid(1043) && d.type_mod
                == -1 && d.collation == Oid(950)
            &&& i == 2 ==> d.name@ == "sql_identifier"@ && d.base_type == Oid(19) && d.type_mod
                == -1 && d.collation == Oid(950)
            &&& i == 3 ==> d.name@ == "time_stamp"@ && d.base_type == Oid(1184) && d.type_mod == 2
                && d.collation == Oid(0)
            &&& i == 4 ==> d.name@ == "yes_or_no"@ && d.base_type == Oid(1043) && d.type_mod == 7
                && d.collation == Oid(950)
        }),
{
}

/// Words of English, whole or in parts, go to the dictionary of English, and other
/// tokens to the one that keeps them as they are. Tokens come in ascending order.
pub proof fn tokens_go_to_their_dictionaries(i: int, j: int)
    requires
        0 <= i < synthetic::english_tokens().len(),
        0 <= j < synthetic::english_tokens().len(),
    ensures
        synthetic::english_tokens().len() == 19,
        i < j ==> synthetic::english_tokens()[i].0 < synthetic::english_tokens()[j].0,
        1 <= synthetic::english_tokens()[i].0 <= 22,
        synthetic::english_tokens()[i].0 != 12 && synthetic::english_tokens()[i].0 != 13
            && synthetic::english_tokens()[i].0 != 14,
        ({
            let (token, dictionary) = synthetic::english_tokens()[i];
            let is_word = token == 1 || token == 2 || token == 10 || token == 11 || token == 16
                || token == 17;
            &&& is_word ==> dictionary == 100_102
            &&& !is_word ==> dictionary == 3765
        }),
{
}

/// The row of a token names the configuration for English, the token and its
/// dictionary.
pub proof fn a_made_token_says_where_it_goes(table: StaticCatalogTable, index: int)
    requires
        0 <= index < synthetic::english_tokens().len(),
    ensures
        ({
            let made = synthetic::english_token_rows(table)[index];
            &&& says(table, made, "mapcfg"@, CatalogValueView::Oid(Oid(ENGLISH_TS_CONFIG_OID)))
            &&& says(
                table,
                made,
                "maptokentype"@,
                CatalogValueView::Int32(synthetic::english_tokens()[index].0),
            )
            &&& says(table, made, "mapseqno"@, CatalogValueView::Int32(1))
            &&& says(
                table,
                made,
                "mapdict"@,
                CatalogValueView::Oid(Oid(synthetic::english_tokens()[index].1)),
            )
        }),
        synthetic::english_token_rows(table).len() == synthetic::english_tokens().len(),
{
    reveal_strlit("mapcfg");
    reveal_strlit("maptokentype");
    reveal_strlit("mapseqno");
    reveal_strlit("mapdict");
    assert("mapcfg"@.len() == 6 && "maptokentype"@.len() == 12 && "mapseqno"@.len() == 8
        && "mapdict"@.len() == 7);
    reveal_with_fuel(comes_no_more, 5);
    let list = synthetic::english_token_columns(index);
    let base = synthetic::empty_row(table, SYNTHETIC_TS_CONFIG_MAP_ROW_ID_BASE | index as u64);
    lemma_says(table, base, list, 0);
    lemma_says(table, base, list, 1);
    lemma_says(table, base, list, 2);
    lemma_says(table, base, list, 3);
}

/// The indexes that are told of the catalogs are these, each by the columns that it
/// orders by.
pub proof fn the_indexes_of_catalogs_are_these()
    ensures
        ({
            let all = catalog_indexes::all_indexes();
            &&& all.len() == 6
            &&& all[0].name == "pg_attribute_relid_attnum_index"@
                && all[0].relation_oid == Oid(1249)
                && all[0].primary && all[0].keys == seq!["attrelid"@, "attnum"@]
            &&& all[1].name == "pg_class_oid_index"@ && all[1].relation_oid == Oid(1259)
                && all[1].primary && all[1].keys == seq!["oid"@]
            &&& all[2].name == "pg_class_relname_nsp_index"@ && all[2].relation_oid == Oid(1259)
                && !all[2].primary && all[2].keys == seq!["relname"@, "relnamespace"@]
            &&& all[3].name == "pg_namespace_oid_index"@ && all[3].relation_oid == Oid(2615)
                && all[3].primary && all[3].keys == seq!["oid"@]
            &&& all[4].name == "pg_ts_config_map_index"@ && all[4].primary && all[4].keys
                == seq!["mapcfg"@, "maptokentype"@, "mapseqno"@]
            &&& all[5].name == "pg_aggregate_fnoid_index"@ && all[5].relation_oid == Oid(2600)
                && all[5].primary && all[5].keys == seq!["aggfnoid"@]
        }),
{
}

} // verus!
