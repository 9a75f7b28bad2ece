//! The catalog rows that are not compiled in but follow from what is: the rows
//! of the information schema, of catalog columns and row types, of operator
//! functions and of text search.

use vstd::prelude::*;

use crate::catalog::columns;
use crate::catalog::model;
use crate::catalog::model::{
    CatalogRow, CatalogRowView, CatalogValue, CatalogValueView, GeneratedCatalog, PgTypeRecord,
    StaticCatalogColumn, StaticCatalogRow, StaticCatalogTable, BTREE_INDEX_AM_OID, CID_OID,
    C_COLLATION_OID, C_LANGUAGE_OID, DEFAULT_TS_PARSER_OID, DSNOWBALL_INIT_PROC_OID,
    DSNOWBALL_LEXIZE_PROC_OID, ENGLISH_TS_CONFIG_OID, ENGLISH_TS_DICT_OID,
    INFORMATION_SCHEMA_NAMESPACE_OID, INT4_OID, INTERNAL_OID, INVALID_OID, NAME_OID,
    OID_BTREE_OPCLASS_OID, OID_OID, PG_AGGREGATE_FNOID_INDEX_OID, PG_AGGREGATE_RELATION_OID,
    PG_CATALOG_NAMESPACE_OID, PG_NAMESPACE_RELATION_OID, PG_PROC_RELATION_OID, POSTGRES_ROLE_OID,
    SIMPLE_TS_DICT_OID, SNOWBALL_TS_TEMPLATE_OID, SYNTHETIC_DESCRIPTION_ROW_ID_BASE,
    SYNTHETIC_INIT_PRIVS_ROW_ID_BASE, SYNTHETIC_STATIC_ATTRIBUTE_ROW_ID_FLAG,
    SYNTHETIC_TS_CONFIG_MAP_ROW_ID_BASE, TID_OID, TIMESTAMPTZ_OID, VARCHAR_OID, XID_OID,
};
use crate::catalog::nodes;
use crate::catalog::static_rows;
use crate::search;
use crate::types::Oid;

verus! {

/// A value for a column.
pub struct Assignment {
    pub column: &'static str,
    pub value: CatalogValue,
}

pub open spec fn assignment_views(list: Seq<Assignment>) -> Seq<(Seq<char>, CatalogValueView)> {
    Seq::new(list.len(), |i: int| (list[i].column@, list[i].value@))
}

pub(crate) fn assignment(column: &'static str, value: CatalogValue) -> (r: Assignment)
    ensures
        r.column@ == column@,
        r.value@ == value@,
{
    Assignment { column, value }
}

/// Gives several columns of a row their values, one after the other.
pub fn assign_all(table: &StaticCatalogTable, row: &mut CatalogRow, list: Vec<Assignment>)
    ensures
        final(row)@ == columns::with_values(*table, old(row)@, assignment_views(list@)),
{
    let ghost all = assignment_views(list@);
    let mut i: usize = 0;
    assert(all.take(0) =~= seq![]);
    while i < list.len()
        invariant
            i <= list.len(),
            all == assignment_views(list@),
            row@ == columns::with_values(*table, old(row)@, all.take(i as int)),
        decreases list.len() - i,
    {
        assert(all.take(i + 1).drop_last() =~= all.take(i as int));
        columns::set_catalog_row_value(table, row, list[i].column, list[i].value.clone());
        i += 1;
    }
    assert(all.take(i as int) =~= all);
}

/// A row without values.
pub open spec fn empty_row(table: StaticCatalogTable, row_id: u64) -> CatalogRowView {
    CatalogRowView {
        relation_oid: table.oid,
        row_id,
        values: Seq::new(table.columns@.len(), |i: int| CatalogValueView::Null),
    }
}

pub fn empty_catalog_row(table: &StaticCatalogTable, row_id: u64) -> (r: CatalogRow)
    ensures
        r@ == empty_row(*table, row_id),
{
    let mut values: Vec<CatalogValue> = Vec::new();
    let mut i: usize = 0;
    while i < table.columns.len()
        invariant
            i <= table.columns@.len(),
            values@.len() == i,
            forall|j: int| 0 <= j < i ==> (#[trigger] values@[j])@ == CatalogValueView::Null,
        decreases table.columns@.len() - i,
    {
        values.push(CatalogValue::Null);
        i += 1;
    }
    assert(model::value_views(values@) =~= empty_row(*table, row_id).values);
    CatalogRow { relation_oid: table.oid, row_id, values }
}

/// The row that the first row of a catalog names, with another identity.
pub open spec fn first_row_as(
    generated: GeneratedCatalog,
    table: StaticCatalogTable,
    row_id: u64,
) -> CatalogRowView {
    CatalogRowView { row_id, ..static_rows::named_row(generated, table, table.rows@[0]) }
}

/// The columns of the class row of the index on aggregates.
pub open spec fn aggregate_index_class_columns() -> Seq<(Seq<char>, CatalogValueView)> {
    seq![
        ("oid"@, CatalogValueView::Oid(Oid(PG_AGGREGATE_FNOID_INDEX_OID))),
        ("relname"@, CatalogValueView::Name("pg_aggregate_fnoid_index"@)),
        ("relnamespace"@, CatalogValueView::Oid(Oid(PG_CATALOG_NAMESPACE_OID))),
        ("reltype"@, CatalogValueView::Oid(Oid(INVALID_OID))),
        ("reloftype"@, CatalogValueView::Oid(Oid(INVALID_OID))),
        ("relowner"@, CatalogValueView::Oid(Oid(POSTGRES_ROLE_OID))),
        ("relam"@, CatalogValueView::Oid(Oid(BTREE_INDEX_AM_OID))),
        ("relfilenode"@, CatalogValueView::Oid(Oid(PG_AGGREGATE_FNOID_INDEX_OID))),
        ("reltablespace"@, CatalogValueView::Oid(Oid(INVALID_OID))),
        ("relpages"@, CatalogValueView::Int32(1)),
        ("reltuples"@, CatalogValueView::Float32(0x3f80_0000)),
        ("relallvisible"@, CatalogValueView::Int32(0)),
        ("relallfrozen"@, CatalogValueView::Int32(0)),
        ("reltoastrelid"@, CatalogValueView::Oid(Oid(INVALID_OID))),
        ("relhasindex"@, CatalogValueView::Bool(false)),
        ("relisshared"@, CatalogValueView::Bool(false)),
        ("relpersistence"@, CatalogValueView::Char(112)),
        ("relkind"@, CatalogValueView::Char(105)),
        ("relnatts"@, CatalogValueView::Int16(1)),
        ("relchecks"@, CatalogValueView::Int16(0)),
        ("relhasrules"@, CatalogValueView::Bool(false)),
        ("relhastriggers"@, CatalogValueView::Bool(false)),
        ("relhassubclass"@, CatalogValueView::Bool(false)),
        ("relrowsecurity"@, CatalogValueView::Bool(false)),
        ("relforcerowsecurity"@, CatalogValueView::Bool(false)),
        ("relispopulated"@, CatalogValueView::Bool(true)),
        ("relreplident"@, CatalogValueView::Char(110)),
        ("relispartition"@, CatalogValueView::Bool(false)),
        ("relrewrite"@, CatalogValueView::Oid(Oid(INVALID_OID))),
        ("relfrozenxid"@, CatalogValueView::Raw("3"@)),
        ("relminmxid"@, CatalogValueView::Raw("1"@)),
        ("relacl"@, CatalogValueView::Null),
        ("reloptions"@, CatalogValueView::Null),
        ("relpartbound"@, CatalogValueView::Null),
    ]
}

/// The class row of the index on aggregates.
pub open spec fn aggregate_index_class(table: StaticCatalogTable) -> CatalogRowView {
    columns::with_values(table, empty_row(table, PG_AGGREGATE_FNOID_INDEX_OID as u64), aggregate_index_class_columns())
}

pub fn synthetic_pg_aggregate_fnoid_index_class_row(table: &StaticCatalogTable) -> (r: CatalogRow)
    ensures
        r@ == aggregate_index_class(*table),
{
    let mut row = empty_catalog_row(table, PG_AGGREGATE_FNOID_INDEX_OID as u64);
    let list = vec![
        assignment("oid", CatalogValue::Oid(Oid(PG_AGGREGATE_FNOID_INDEX_OID))),
        assignment("relname", CatalogValue::Name("pg_aggregate_fnoid_index".to_owned())),
        assignment("relnamespace", CatalogValue::Oid(Oid(PG_CATALOG_NAMESPACE_OID))),
        assignment("reltype", CatalogValue::Oid(Oid(INVALID_OID))),
        assignment("reloftype", CatalogValue::Oid(Oid(INVALID_OID))),
        assignment("relowner", CatalogValue::Oid(Oid(POSTGRES_ROLE_OID))),
        assignment("relam", CatalogValue::Oid(Oid(BTREE_INDEX_AM_OID))),
        assignment("relfilenode", CatalogValue::Oid(Oid(PG_AGGREGATE_FNOID_INDEX_OID))),
        assignment("reltablespace", CatalogValue::Oid(Oid(INVALID_OID))),
        assignment("relpages", CatalogValue::Int32(1)),
        assignment("reltuples", CatalogValue::Float32(0x3f80_0000)),
        assignment("relallvisible", CatalogValue::Int32(0)),
        assignment("relallfrozen", CatalogValue::Int32(0)),
        assignment("reltoastrelid", CatalogValue::Oid(Oid(INVALID_OID))),
        assignment("relhasindex", CatalogValue::Bool(false)),
        assignment("relisshared", CatalogValue::Bool(false)),
        assignment("relpersistence", CatalogValue::Char(112)),
        assignment("relkind", CatalogValue::Char(105)),
        assignment("relnatts", CatalogValue::Int16(1)),
        assignment("relchecks", CatalogValue::Int16(0)),
        assignment("relhasrules", CatalogValue::Bool(false)),
        assignment("relhastriggers", CatalogValue::Bool(false)),
        assignment("relhassubclass", CatalogValue::Bool(false)),
        assignment("relrowsecurity", CatalogValue::Bool(false)),
        assignment("relforcerowsecurity", CatalogValue::Bool(false)),
        assignment("relispopulated", CatalogValue::Bool(true)),
        assignment("relreplident", CatalogValue::Char(110)),
        assignment("relispartition", CatalogValue::Bool(false)),
        assignment("relrewrite", CatalogValue::Oid(Oid(INVALID_OID))),
        assignment("relfrozenxid", CatalogValue::Raw("3".to_owned())),
        assignment("relminmxid", CatalogValue::Raw("1".to_owned())),
        assignment("relacl", CatalogValue::Null),
        assignment("reloptions", CatalogValue::Null),
        assignment("relpartbound", CatalogValue::Null),
    ];
    assert(assignment_views(list@) =~= aggregate_index_class_columns());
    assign_all(table, &mut row, list);
    row
}

/// The columns of the index row of the index on aggregates.
pub open spec fn aggregate_index_columns() -> Seq<(Seq<char>, CatalogValueView)> {
    seq![
        ("indexrelid"@, CatalogValueView::Oid(Oid(PG_AGGREGATE_FNOID_INDEX_OID))),
        ("indrelid"@, CatalogValueView::Oid(Oid(PG_AGGREGATE_RELATION_OID))),
        ("indnatts"@, CatalogValueView::Int16(1)),
        ("indnkeyatts"@, CatalogValueView::Int16(1)),
        ("indisunique"@, CatalogValueView::Bool(true)),
        ("indnullsnotdistinct"@, CatalogValueView::Bool(false)),
        ("indisprimary"@, CatalogValueView::Bool(true)),
        ("indisexclusion"@, CatalogValueView::Bool(false)),
        ("indimmediate"@, CatalogValueView::Bool(true)),
        ("indisclustered"@, CatalogValueView::Bool(false)),
        ("indisvalid"@, CatalogValueView::Bool(true)),
        ("indcheckxmin"@, CatalogValueView::Bool(false)),
        ("indisready"@, CatalogValueView::Bool(true)),
        ("indislive"@, CatalogValueView::Bool(true)),
        ("indisreplident"@, CatalogValueView::Bool(false)),
        ("indkey"@, CatalogValueView::Int2Vector(seq![1i16])),
        ("indcollation"@, CatalogValueView::OidVector(seq![Oid(INVALID_OID)])),
        ("indclass"@, CatalogValueView::OidVector(seq![Oid(OID_BTREE_OPCLASS_OID)])),
        ("indoption"@, CatalogValueView::Int2Vector(seq![0i16])),
        ("indexprs"@, CatalogValueView::Null),
        ("indpred"@, CatalogValueView::Null),
    ]
}

/// The index row of the index on aggregates.
pub open spec fn aggregate_index(table: StaticCatalogTable) -> CatalogRowView {
    columns::with_values(table, empty_row(table, PG_AGGREGATE_FNOID_INDEX_OID as u64), aggregate_index_columns())
}

pub fn synthetic_pg_aggregate_fnoid_index_row(table: &StaticCatalogTable) -> (r: CatalogRow)
    ensures
        r@ == aggregate_index(*table),
{
    let mut row = empty_catalog_row(table, PG_AGGREGATE_FNOID_INDEX_OID as u64);
    let indkey: Vec<i16> = vec![1i16];
    assert(indkey@ =~= seq![1i16]);
    let indcollation: Vec<Oid> = vec![Oid(INVALID_OID)];
    assert(indcollation@ =~= seq![Oid(INVALID_OID)]);
    let indclass: Vec<Oid> = vec![Oid(OID_BTREE_OPCLASS_OID)];
    assert(indclass@ =~= seq![Oid(OID_BTREE_OPCLASS_OID)]);
    let indoption: Vec<i16> = vec![0i16];
    assert(indoption@ =~= seq![0i16]);
    let list = vec![
        assignment("indexrelid", CatalogValue::Oid(Oid(PG_AGGREGATE_FNOID_INDEX_OID))),
        assignment("indrelid", CatalogValue::Oid(Oid(PG_AGGREGATE_RELATION_OID))),
        assignment("indnatts", CatalogValue::Int16(1)),
        assignment("indnkeyatts", CatalogValue::Int16(1)),
        assignment("indisunique", CatalogValue::Bool(true)),
        assignment("indnullsnotdistinct", CatalogValue::Bool(false)),
        assignment("indisprimary", CatalogValue::Bool(true)),
        assignment("indisexclusion", CatalogValue::Bool(false)),
        assignment("indimmediate", CatalogValue::Bool(true)),
        assignment("indisclustered", CatalogValue::Bool(false)),
        assignment("indisvalid", CatalogValue::Bool(true)),
        assignment("indcheckxmin", CatalogValue::Bool(false)),
        assignment("indisready", CatalogValue::Bool(true)),
        assignment("indislive", CatalogValue::Bool(true)),
        assignment("indisreplident", CatalogValue::Bool(false)),
        assignment("indkey", CatalogValue::Int2Vector(indkey)),
        assignment("indcollation", CatalogValue::OidVector(indcollation)),
        assignment("indclass", CatalogValue::OidVector(indclass)),
        assignment("indoption", CatalogValue::Int2Vector(indoption)),
        assignment("indexprs", CatalogValue::Null),
        assignment("indpred", CatalogValue::Null),
    ];
    assert(assignment_views(list@) =~= aggregate_index_columns());
    assign_all(table, &mut row, list);
    row
}

/// The columns of the row of initial privileges of the catalog schema.
pub open spec fn catalog_privileges_columns() -> Seq<(Seq<char>, CatalogValueView)> {
    seq![
        ("objoid"@, CatalogValueView::Oid(Oid(PG_CATALOG_NAMESPACE_OID))),
        ("classoid"@, CatalogValueView::Oid(Oid(PG_NAMESPACE_RELATION_OID))),
        ("objsubid"@, CatalogValueView::Int32(0)),
        ("privtype"@, CatalogValueView::Char(105)),
        ("initprivs"@, CatalogValueView::Raw("{=U/postgres,postgres=UC/postgres}"@)),
    ]
}

/// The row of initial privileges of the catalog schema.
pub open spec fn catalog_privileges(table: StaticCatalogTable) -> CatalogRowView {
    columns::with_values(table, empty_row(table, SYNTHETIC_INIT_PRIVS_ROW_ID_BASE | PG_CATALOG_NAMESPACE_OID as u64), catalog_privileges_columns())
}

pub fn synthetic_pg_catalog_init_privs_row(table: &StaticCatalogTable) -> (r: CatalogRow)
    ensures
        r@ == catalog_privileges(*table),
{
    let mut row = empty_catalog_row(table, SYNTHETIC_INIT_PRIVS_ROW_ID_BASE | PG_CATALOG_NAMESPACE_OID as u64);
    let list = vec![
        assignment("objoid", CatalogValue::Oid(Oid(PG_CATALOG_NAMESPACE_OID))),
        assignment("classoid", CatalogValue::Oid(Oid(PG_NAMESPACE_RELATION_OID))),
        assignment("objsubid", CatalogValue::Int32(0)),
        assignment("privtype", CatalogValue::Char(105)),
        assignment("initprivs", CatalogValue::Raw("{=U/postgres,postgres=UC/postgres}".to_owned())),
    ];
    assert(assignment_views(list@) =~= catalog_privileges_columns());
    assign_all(table, &mut row, list);
    row
}

/// The columns of the row of the English dictionary.
pub open spec fn english_dictionary_columns() -> Seq<(Seq<char>, CatalogValueView)> {
    seq![
        ("oid"@, CatalogValueView::Oid(Oid(ENGLISH_TS_DICT_OID))),
        ("dictname"@, CatalogValueView::Name("english_stem"@)),
        ("dictnamespace"@, CatalogValueView::Oid(Oid(PG_CATALOG_NAMESPACE_OID))),
        ("dictowner"@, CatalogValueView::Oid(Oid(POSTGRES_ROLE_OID))),
        ("dicttemplate"@, CatalogValueView::Oid(Oid(SNOWBALL_TS_TEMPLATE_OID))),
        ("dictinitoption"@, CatalogValueView::Text("language = 'english', stopwords = 'english'"@)),
    ]
}

/// The row of the English dictionary.
pub open spec fn english_dictionary(table: StaticCatalogTable) -> CatalogRowView {
    columns::with_values(table, empty_row(table, ENGLISH_TS_DICT_OID as u64), english_dictionary_columns())
}

pub fn synthetic_english_ts_dict_row(table: &StaticCatalogTable) -> (r: CatalogRow)
    ensures
        r@ == english_dictionary(*table),
{
    let mut row = empty_catalog_row(table, ENGLISH_TS_DICT_OID as u64);
    let list = vec![
        assignment("oid", CatalogValue::Oid(Oid(ENGLISH_TS_DICT_OID))),
        assignment("dictname", CatalogValue::Name("english_stem".to_owned())),
        assignment("dictnamespace", CatalogValue::Oid(Oid(PG_CATALOG_NAMESPACE_OID))),
        assignment("dictowner", CatalogValue::Oid(Oid(POSTGRES_ROLE_OID))),
        assignment("dicttemplate", CatalogValue::Oid(Oid(SNOWBALL_TS_TEMPLATE_OID))),
        assignment("dictinitoption", CatalogValue::Text("language = 'english', stopwords = 'english'".to_owned())),
    ];
    assert(assignment_views(list@) =~= english_dictionary_columns());
    assign_all(table, &mut row, list);
    row
}

/// The columns of the row of the English text search configuration.
pub open spec fn english_config_columns() -> Seq<(Seq<char>, CatalogValueView)> {
    seq![
        ("oid"@, CatalogValueView::Oid(Oid(ENGLISH_TS_CONFIG_OID))),
        ("cfgname"@, CatalogValueView::Name("english"@)),
        ("cfgnamespace"@, CatalogValueView::Oid(Oid(PG_CATALOG_NAMESPACE_OID))),
        ("cfgowner"@, CatalogValueView::Oid(Oid(POSTGRES_ROLE_OID))),
        ("cfgparser"@, CatalogValueView::Oid(Oid(DEFAULT_TS_PARSER_OID))),
    ]
}

/// The row of the English text search configuration.
pub open spec fn english_config(table: StaticCatalogTable) -> CatalogRowView {
    columns::with_values(table, empty_row(table, ENGLISH_TS_CONFIG_OID as u64), english_config_columns())
}

pub fn synthetic_english_ts_config_row(table: &StaticCatalogTable) -> (r: CatalogRow)
    ensures
        r@ == english_config(*table),
{
    let mut row = empty_catalog_row(table, ENGLISH_TS_CONFIG_OID as u64);
    let list = vec![
        assignment("oid", CatalogValue::Oid(Oid(ENGLISH_TS_CONFIG_OID))),
        assignment("cfgname", CatalogValue::Name("english".to_owned())),
        assignment("cfgnamespace", CatalogValue::Oid(Oid(PG_CATALOG_NAMESPACE_OID))),
        assignment("cfgowner", CatalogValue::Oid(Oid(POSTGRES_ROLE_OID))),
        assignment("cfgparser", CatalogValue::Oid(Oid(DEFAULT_TS_PARSER_OID))),
    ];
    assert(assignment_views(list@) =~= english_config_columns());
    assign_all(table, &mut row, list);
    row
}

/// The columns of the row of the template that stems words.
pub open spec fn snowball_template_columns() -> Seq<(Seq<char>, CatalogValueView)> {
    seq![
        ("oid"@, CatalogValueView::Oid(Oid(SNOWBALL_TS_TEMPLATE_OID))),
        ("tmplname"@, CatalogValueView::Name("snowball"@)),
        ("tmplnamespace"@, CatalogValueView::Oid(Oid(PG_CATALOG_NAMESPACE_OID))),
        ("tmplinit"@, CatalogValueView::Oid(Oid(DSNOWBALL_INIT_PROC_OID))),
        ("tmpllexize"@, CatalogValueView::Oid(Oid(DSNOWBALL_LEXIZE_PROC_OID))),
    ]
}

/// The row of the template that stems words.
pub open spec fn snowball_template(table: StaticCatalogTable) -> CatalogRowView {
    columns::with_values(
        table,
        empty_row(table, SNOWBALL_TS_TEMPLATE_OID as u64),
        snowball_template_columns(),
    )
}

pub fn synthetic_snowball_ts_template_row(table: &StaticCatalogTable) -> (r: CatalogRow)
    ensures
        r@ == snowball_template(*table),
{
    let mut row = empty_catalog_row(table, SNOWBALL_TS_TEMPLATE_OID as u64);
    let list = vec![
        assignment("oid", CatalogValue::Oid(Oid(SNOWBALL_TS_TEMPLATE_OID))),
        assignment("tmplname", CatalogValue::Name("snowball".to_owned())),
        assignment("tmplnamespace", CatalogValue::Oid(Oid(PG_CATALOG_NAMESPACE_OID))),
        assignment("tmplinit", CatalogValue::Oid(Oid(DSNOWBALL_INIT_PROC_OID))),
        assignment("tmpllexize", CatalogValue::Oid(Oid(DSNOWBALL_LEXIZE_PROC_OID))),
    ];
    assert(assignment_views(list@) =~= snowball_template_columns());
    assign_all(table, &mut row, list);
    row
}

/// The columns of the row of a function of the template that stems words, which
/// takes a number of internal arguments.
pub open spec fn snowball_proc_columns(oid: u32, name: Seq<char>, nargs: i16) -> Seq<
    (Seq<char>, CatalogValueView),
> {
    seq![
        ("oid"@, CatalogValueView::Oid(Oid(oid))),
        ("proname"@, CatalogValueView::Name(name)),
        ("pronamespace"@, CatalogValueView::Oid(Oid(PG_CATALOG_NAMESPACE_OID))),
        ("proowner"@, CatalogValueView::Oid(Oid(POSTGRES_ROLE_OID))),
        ("prolang"@, CatalogValueView::Oid(Oid(C_LANGUAGE_OID))),
        ("procost"@, CatalogValueView::Float32(0x3f80_0000)),
        ("prorows"@, CatalogValueView::Float32(0)),
        ("provariadic"@, CatalogValueView::Oid(Oid(INVALID_OID))),
        ("prosupport"@, CatalogValueView::Oid(Oid(INVALID_OID))),
        ("prokind"@, CatalogValueView::Char(102)),
        ("prosecdef"@, CatalogValueView::Bool(false)),
        ("proleakproof"@, CatalogValueView::Bool(false)),
        ("proisstrict"@, CatalogValueView::Bool(true)),
        ("proretset"@, CatalogValueView::Bool(false)),
        ("provolatile"@, CatalogValueView::Char(118)),
        ("proparallel"@, CatalogValueView::Char(117)),
        ("pronargs"@, CatalogValueView::Int16(nargs)),
        ("pronargdefaults"@, CatalogValueView::Int16(0)),
        ("prorettype"@, CatalogValueView::Oid(Oid(INTERNAL_OID))),
        (
            "proargtypes"@,
            CatalogValueView::OidVector(Seq::new(nargs as nat, |i: int| Oid(INTERNAL_OID))),
        ),
        ("prosrc"@, CatalogValueView::Text(name)),
        ("probin"@, CatalogValueView::Text("$libdir/dict_snowball"@)),
    ]
}

/// The row of a function of the template that stems words.
pub open spec fn snowball_proc(
    table: StaticCatalogTable,
    oid: u32,
    name: Seq<char>,
    nargs: i16,
) -> CatalogRowView {
    columns::with_values(
        table,
        empty_row(table, oid as u64),
        snowball_proc_columns(oid, name, nargs),
    )
}

/// The row of the function that prepares the template that stems words.
pub open spec fn snowball_init(table: StaticCatalogTable) -> CatalogRowView {
    snowball_proc(table, DSNOWBALL_INIT_PROC_OID, "dsnowball_init"@, 1)
}

/// The row of the function that stems words.
pub open spec fn snowball_lexize(table: StaticCatalogTable) -> CatalogRowView {
    snowball_proc(table, DSNOWBALL_LEXIZE_PROC_OID, "dsnowball_lexize"@, 4)
}

fn snowball_proc_row(
    table: &StaticCatalogTable,
    oid: u32,
    name: &'static str,
    nargs: i16,
) -> (r: CatalogRow)
    requires
        nargs >= 0,
    ensures
        r@ == snowball_proc(*table, oid, name@, nargs),
{
    let mut row = empty_catalog_row(table, oid as u64);
    let mut arg_types: Vec<Oid> = Vec::new();
    let mut i: i16 = 0;
    while i < nargs
        invariant
            0 <= i <= nargs,
            arg_types@ == Seq::new(i as nat, |i: int| Oid(INTERNAL_OID)),
        decreases nargs - i,
    {
        arg_types.push(Oid(INTERNAL_OID));
        assert(arg_types@ =~= Seq::new((i + 1) as nat, |i: int| Oid(INTERNAL_OID)));
        i += 1;
    }
    let list = vec![
        assignment("oid", CatalogValue::Oid(Oid(oid))),
        assignment("proname", CatalogValue::Name(name.to_owned())),
        assignment("pronamespace", CatalogValue::Oid(Oid(PG_CATALOG_NAMESPACE_OID))),
        assignment("proowner", CatalogValue::Oid(Oid(POSTGRES_ROLE_OID))),
        assignment("prolang", CatalogValue::Oid(Oid(C_LANGUAGE_OID))),
        assignment("procost", CatalogValue::Float32(0x3f80_0000)),
        assignment("prorows", CatalogValue::Float32(0)),
        assignment("provariadic", CatalogValue::Oid(Oid(INVALID_OID))),
        assignment("prosupport", CatalogValue::Oid(Oid(INVALID_OID))),
        assignment("prokind", CatalogValue::Char(102)),
        assignment("prosecdef", CatalogValue::Bool(false)),
        assignment("proleakproof", CatalogValue::Bool(false)),
        assignment("proisstrict", CatalogValue::Bool(true)),
        assignment("proretset", CatalogValue::Bool(false)),
        assignment("provolatile", CatalogValue::Char(118)),
        assignment("proparallel", CatalogValue::Char(117)),
        assignment("pronargs", CatalogValue::Int16(nargs)),
        assignment("pronargdefaults", CatalogValue::Int16(0)),
        assignment("prorettype", CatalogValue::Oid(Oid(INTERNAL_OID))),
        assignment("proargtypes", CatalogValue::OidVector(arg_types)),
        assignment("prosrc", CatalogValue::Text(name.to_owned())),
        assignment("probin", CatalogValue::Text("$libdir/dict_snowball".to_owned())),
    ];
    assert(assignment_views(list@) =~= snowball_proc_columns(oid, name@, nargs));
    assign_all(table, &mut row, list);
    row
}

pub fn synthetic_dsnowball_init_row(table: &StaticCatalogTable) -> (r: CatalogRow)
    ensures
        r@ == snowball_init(*table),
{
    snowball_proc_row(table, DSNOWBALL_INIT_PROC_OID, "dsnowball_init", 1)
}

pub fn synthetic_dsnowball_lexize_row(table: &StaticCatalogTable) -> (r: CatalogRow)
    ensures
        r@ == snowball_lexize(*table),
{
    snowball_proc_row(table, DSNOWBALL_LEXIZE_PROC_OID, "dsnowball_lexize", 4)
}

/// The kinds of token that the English configuration handles, in order, with
/// the dictionary that looks each of them up.
pub open spec fn english_tokens() -> Seq<(i32, u32)> {
    seq![
        (1, ENGLISH_TS_DICT_OID),
        (2, ENGLISH_TS_DICT_OID),
        (3, SIMPLE_TS_DICT_OID),
        (4, SIMPLE_TS_DICT_OID),
        (5, SIMPLE_TS_DICT_OID),
        (6, SIMPLE_TS_DICT_OID),
        (7, SIMPLE_TS_DICT_OID),
        (8, SIMPLE_TS_DICT_OID),
        (9, SIMPLE_TS_DICT_OID),
        (10, ENGLISH_TS_DICT_OID),
        (11, ENGLISH_TS_DICT_OID),
        (15, SIMPLE_TS_DICT_OID),
        (16, ENGLISH_TS_DICT_OID),
        (17, ENGLISH_TS_DICT_OID),
        (18, SIMPLE_TS_DICT_OID),
        (19, SIMPLE_TS_DICT_OID),
        (20, SIMPLE_TS_DICT_OID),
        (21, SIMPLE_TS_DICT_OID),
        (22, SIMPLE_TS_DICT_OID),
    ]
}

/// The columns of the row of the English configuration for a kind of token.
pub open spec fn english_token_columns(index: int) -> Seq<(Seq<char>, CatalogValueView)> {
    seq![
        ("mapcfg"@, CatalogValueView::Oid(Oid(ENGLISH_TS_CONFIG_OID))),
        ("maptokentype"@, CatalogValueView::Int32(english_tokens()[index].0)),
        ("mapseqno"@, CatalogValueView::Int32(1)),
        ("mapdict"@, CatalogValueView::Oid(Oid(english_tokens()[index].1))),
    ]
}

/// The row of the English configuration for a kind of token.
pub open spec fn english_token_row(table: StaticCatalogTable, index: int) -> CatalogRowView {
    columns::with_values(
        table,
        empty_row(table, SYNTHETIC_TS_CONFIG_MAP_ROW_ID_BASE | index as u64),
        english_token_columns(index),
    )
}

pub open spec fn row_views(rows: Seq<CatalogRow>) -> Seq<CatalogRowView> {
    search::views(rows)
}

/// The rows of the English configuration.
pub open spec fn english_token_rows(table: StaticCatalogTable) -> Seq<CatalogRowView> {
    Seq::new(english_tokens().len(), |i: int| english_token_row(table, i))
}

pub fn synthetic_ts_config_map_row_count() -> (r: usize)
    ensures
        r == english_tokens().len(),
{
    19
}

pub fn synthetic_english_ts_config_map_rows(table: &StaticCatalogTable) -> (r: Vec<CatalogRow>)
    ensures
        row_views(r@) == english_token_rows(*table),
{
    let tokens: Vec<(i32, u32)> = vec![
        (1, ENGLISH_TS_DICT_OID),
        (2, ENGLISH_TS_DICT_OID),
        (3, SIMPLE_TS_DICT_OID),
        (4, SIMPLE_TS_DICT_OID),
        (5, SIMPLE_TS_DICT_OID),
        (6, SIMPLE_TS_DICT_OID),
        (7, SIMPLE_TS_DICT_OID),
        (8, SIMPLE_TS_DICT_OID),
        (9, SIMPLE_TS_DICT_OID),
        (10, ENGLISH_TS_DICT_OID),
        (11, ENGLISH_TS_DICT_OID),
        (15, SIMPLE_TS_DICT_OID),
        (16, ENGLISH_TS_DICT_OID),
        (17, ENGLISH_TS_DICT_OID),
        (18, SIMPLE_TS_DICT_OID),
        (19, SIMPLE_TS_DICT_OID),
        (20, SIMPLE_TS_DICT_OID),
        (21, SIMPLE_TS_DICT_OID),
        (22, SIMPLE_TS_DICT_OID),
    ];
    assert(tokens@ =~= english_tokens());
    let mut rows: Vec<CatalogRow> = Vec::new();
    let mut i: usize = 0;
    while i < tokens.len()
        invariant
            i <= tokens.len(),
            tokens@ == english_tokens(),
            rows@.len() == i,
            forall|j: int| 0 <= j < i ==> (#[trigger] rows@[j])@ == english_token_row(*table, j),
        decreases tokens.len() - i,
    {
        let mut row = empty_catalog_row(table, SYNTHETIC_TS_CONFIG_MAP_ROW_ID_BASE | i as u64);
        let list = vec![
            assignment("mapcfg", CatalogValue::Oid(Oid(ENGLISH_TS_CONFIG_OID))),
            assignment("maptokentype", CatalogValue::Int32(tokens[i].0)),
            assignment("mapseqno", CatalogValue::Int32(1)),
            assignment("mapdict", CatalogValue::Oid(Oid(tokens[i].1))),
        ];
        assert(assignment_views(list@) =~= english_token_columns(i as int));
        assign_all(table, &mut row, list);
        rows.push(row);
        i += 1;
    }
    assert(row_views(rows@) =~= english_token_rows(*table));
    rows
}

/// The columns of the row of the information schema.
pub open spec fn information_schema_columns() -> Seq<(Seq<char>, CatalogValueView)> {
    seq![
        ("oid"@, CatalogValueView::Oid(Oid(INFORMATION_SCHEMA_NAMESPACE_OID))),
        ("nspname"@, CatalogValueView::Name("information_schema"@)),
        ("nspowner"@, CatalogValueView::Oid(Oid(POSTGRES_ROLE_OID))),
    ]
}

/// The row of the information schema, where the catalog of schemas has a row
/// to start from.
pub open spec fn information_schema(
    generated: GeneratedCatalog,
    table: StaticCatalogTable,
) -> Option<CatalogRowView> {
    if table.rows@.len() == 0 {
        None
    } else {
        Some(
            columns::with_values(
                table,
                first_row_as(generated, table, INFORMATION_SCHEMA_NAMESPACE_OID as u64),
                information_schema_columns(),
            ),
        )
    }
}

pub fn synthetic_information_schema_namespace_row(
    generated: &GeneratedCatalog,
    table: &StaticCatalogTable,
) -> (r: Option<CatalogRow>)
    ensures
        match r {
            Some(row) => information_schema(*generated, *table) == Some(row@),
            None => information_schema(*generated, *table) is None,
        },
{
    if table.rows.len() == 0 {
        return None;
    }
    let mut row = static_rows::static_row_to_catalog_row(generated, table, &table.rows[0]);
    row.row_id = INFORMATION_SCHEMA_NAMESPACE_OID as u64;
    let list = vec![
        assignment("oid", CatalogValue::Oid(Oid(INFORMATION_SCHEMA_NAMESPACE_OID))),
        assignment("nspname", CatalogValue::Name("information_schema".to_owned())),
        assignment("nspowner", CatalogValue::Oid(Oid(POSTGRES_ROLE_OID))),
    ];
    assert(assignment_views(list@) =~= information_schema_columns());
    assign_all(table, &mut row, list);
    Some(row)
}

/// Whether a compiled-in type row is that of a relation.
pub open spec fn is_relation_type(
    generated: GeneratedCatalog,
    table: StaticCatalogTable,
) -> spec_fn(StaticCatalogRow) -> bool {
    |row: StaticCatalogRow|
        match static_rows::static_oid(generated, table, row, "typrelid"@) {
            Some(oid) => oid.0 != INVALID_OID,
            None => false,
        }
}

pub open spec fn is_type_named(table: StaticCatalogTable, name: Seq<char>) -> spec_fn(
    StaticCatalogRow,
) -> bool {
    |row: StaticCatalogRow| static_rows::static_names(table, row, "typname"@, name)
}

/// The type row that row types are made from: that of the catalog of functions,
/// or the first of any relation.
pub open spec fn rowtype_template(
    generated: GeneratedCatalog,
    table: StaticCatalogTable,
) -> Option<StaticCatalogRow> {
    match search::first_with(table.rows@, is_type_named(table, "pg_proc"@)) {
        Some(row) => Some(row),
        None => search::first_with(table.rows@, is_relation_type(generated, table)),
    }
}

/// The columns of the row type of a catalog.
pub open spec fn rowtype_columns(relation_table: StaticCatalogTable) -> Seq<
    (Seq<char>, CatalogValueView),
> {
    let rowtype_oid = static_rows::rowtype_of(relation_table);
    seq![
        ("oid"@, CatalogValueView::Oid(rowtype_oid)),
        ("typname"@, CatalogValueView::Name(relation_table.name@)),
        ("typnamespace"@, CatalogValueView::Oid(Oid(PG_CATALOG_NAMESPACE_OID))),
        ("typowner"@, CatalogValueView::Oid(Oid(POSTGRES_ROLE_OID))),
        ("typrelid"@, CatalogValueView::Oid(relation_table.oid)),
        ("typelem"@, CatalogValueView::Oid(Oid(INVALID_OID))),
        ("typarray"@, CatalogValueView::Oid(Oid(INVALID_OID))),
    ]
}

/// The type row of the row type of a catalog.
pub open spec fn relation_rowtype(
    generated: GeneratedCatalog,
    table: StaticCatalogTable,
    relation_table: StaticCatalogTable,
) -> Option<CatalogRowView> {
    match rowtype_template(generated, table) {
        None => None,
        Some(template) => Some(
            columns::with_values(
                table,
                CatalogRowView {
                    row_id: static_rows::rowtype_of(relation_table).0 as u64,
                    ..static_rows::named_row(generated, table, template)
                },
                rowtype_columns(relation_table),
            ),
        ),
    }
}

pub(crate) fn find_rowtype_template(generated: &GeneratedCatalog, table: &StaticCatalogTable) -> (r: Option<
    &'static StaticCatalogRow,
>)
    ensures
        match r {
            Some(row) => rowtype_template(*generated, *table) == Some(*row),
            None => rowtype_template(*generated, *table) is None,
        },
{
    let mut i: usize = 0;
    while i < table.rows.len()
        invariant
            i <= table.rows@.len(),
            forall|j: int|
                0 <= j < i ==> !is_type_named(*table, "pg_proc"@)(#[trigger] table.rows@[j]),
        decreases table.rows@.len() - i,
    {
        if static_rows::static_row_column_identifier_matches(
            table,
            &table.rows[i],
            "typname",
            "pg_proc",
        ) {
            proof {
                search::first_index_at(table.rows@, is_type_named(*table, "pg_proc"@), i as int);
            }
            return Some(&table.rows[i]);
        }
        i += 1;
    }
    proof {
        search::first_index_none(table.rows@, is_type_named(*table, "pg_proc"@));
    }
    i = 0;
    while i < table.rows.len()
        invariant
            i <= table.rows@.len(),
            search::first_with(table.rows@, is_type_named(*table, "pg_proc"@)) is None,
            forall|j: int|
                0 <= j < i ==> !is_relation_type(*generated, *table)(#[trigger] table.rows@[j]),
        decreases table.rows@.len() - i,
    {
        let of_relation = match static_rows::static_row_column_oid(
            generated,
            table,
            &table.rows[i],
            "typrelid",
        ) {
            Some(oid) => oid.0 != INVALID_OID,
            None => false,
        };
        if of_relation {
            proof {
                search::first_index_at(
                    table.rows@,
                    is_relation_type(*generated, *table),
                    i as int,
                );
            }
            return Some(&table.rows[i]);
        }
        i += 1;
    }
    proof {
        search::first_index_none(table.rows@, is_relation_type(*generated, *table));
    }
    None
}

pub fn synthetic_static_relation_rowtype_row(
    generated: &GeneratedCatalog,
    table: &StaticCatalogTable,
    relation_table: &StaticCatalogTable,
) -> (r: Option<CatalogRow>)
    ensures
        match r {
            Some(row) => relation_rowtype(*generated, *table, *relation_table) == Some(row@),
            None => relation_rowtype(*generated, *table, *relation_table) is None,
        },
{
    let rowtype_oid = static_rows::static_catalog_table_rowtype_oid(relation_table);
    let template = match find_rowtype_template(generated, table) {
        Some(template) => template,
        None => {
            return None;
        },
    };
    let mut row = static_rows::static_row_to_catalog_row(generated, table, template);
    row.row_id = rowtype_oid.0 as u64;
    let list = vec![
        assignment("oid", CatalogValue::Oid(rowtype_oid)),
        assignment("typname", CatalogValue::Name(relation_table.name.to_owned())),
        assignment("typnamespace", CatalogValue::Oid(Oid(PG_CATALOG_NAMESPACE_OID))),
        assignment("typowner", CatalogValue::Oid(Oid(POSTGRES_ROLE_OID))),
        assignment("typrelid", CatalogValue::Oid(relation_table.oid)),
        assignment("typelem", CatalogValue::Oid(Oid(INVALID_OID))),
        assignment("typarray", CatalogValue::Oid(Oid(INVALID_OID))),
    ];
    assert(assignment_views(list@) =~= rowtype_columns(*relation_table));
    assign_all(table, &mut row, list);
    Some(row)
}

/// A domain of the information schema.
#[derive(Clone, Copy, Debug)]
pub struct InformationSchemaDomainSpec {
    pub oid: Oid,
    pub name: &'static str,
    pub base_type: Oid,
    pub type_mod: i32,
    pub collation: Oid,
}

/// The domains of the information schema.
pub open spec fn domain_specs() -> Seq<InformationSchemaDomainSpec> {
    seq![
        InformationSchemaDomainSpec {
            oid: Oid(14_001),
            name: "cardinal_number",
            base_type: Oid(INT4_OID),
            type_mod: (-1) as i32,
            collation: Oid(INVALID_OID),
        },
        InformationSchemaDomainSpec {
            oid: Oid(14_002),
            name: "character_data",
            base_type: Oid(VARCHAR_OID),
            type_mod: (-1) as i32,
            collation: Oid(C_COLLATION_OID),
        },
        InformationSchemaDomainSpec {
            oid: Oid(14_003),
            name: "sql_identifier",
            base_type: Oid(NAME_OID),
            type_mod: (-1) as i32,
            collation: Oid(C_COLLATION_OID),
        },
        InformationSchemaDomainSpec {
            oid: Oid(14_004),
            name: "time_stamp",
            base_type: Oid(TIMESTAMPTZ_OID),
            type_mod: 2,
            collation: Oid(INVALID_OID),
        },
        InformationSchemaDomainSpec {
            oid: Oid(14_005),
            name: "yes_or_no",
            base_type: Oid(VARCHAR_OID),
            type_mod: 7,
            collation: Oid(C_COLLATION_OID),
        },
    ]
}

pub fn information_schema_domain_specs() -> (r: Vec<InformationSchemaDomainSpec>)
    ensures
        r@ == domain_specs(),
{
    let list = vec![
        InformationSchemaDomainSpec {
            oid: Oid(14_001),
            name: "cardinal_number",
            base_type: Oid(INT4_OID),
            type_mod: -1,
            collation: Oid(INVALID_OID),
        },
        InformationSchemaDomainSpec {
            oid: Oid(14_002),
            name: "character_data",
            base_type: Oid(VARCHAR_OID),
            type_mod: -1,
            collation: Oid(C_COLLATION_OID),
        },
        InformationSchemaDomainSpec {
            oid: Oid(14_003),
            name: "sql_identifier",
            base_type: Oid(NAME_OID),
            type_mod: -1,
            collation: Oid(C_COLLATION_OID),
        },
        InformationSchemaDomainSpec {
            oid: Oid(14_004),
            name: "time_stamp",
            base_type: Oid(TIMESTAMPTZ_OID),
            type_mod: 2,
            collation: Oid(INVALID_OID),
        },
        InformationSchemaDomainSpec {
            oid: Oid(14_005),
            name: "yes_or_no",
            base_type: Oid(VARCHAR_OID),
            type_mod: 7,
            collation: Oid(C_COLLATION_OID),
        },
    ];
    assert(list@ =~= domain_specs());
    list
}

/// The columns of the type row of a domain.
pub open spec fn domain_columns(domain: InformationSchemaDomainSpec, base_type: PgTypeRecord) -> Seq<
    (Seq<char>, CatalogValueView),
> {
    seq![
        ("oid"@, CatalogValueView::Oid(domain.oid)),
        ("typname"@, CatalogValueView::Name(domain.name@)),
        ("typnamespace"@, CatalogValueView::Oid(Oid(INFORMATION_SCHEMA_NAMESPACE_OID))),
        ("typowner"@, CatalogValueView::Oid(Oid(POSTGRES_ROLE_OID))),
        ("typtype"@, CatalogValueView::Char(100)),
        ("typispreferred"@, CatalogValueView::Bool(false)),
        ("typinput"@, CatalogValueView::Oid(Oid(2597))),
        ("typoutput"@, CatalogValueView::Oid(base_type.typoutput)),
        ("typreceive"@, CatalogValueView::Oid(Oid(2598))),
        ("typsend"@, CatalogValueView::Oid(base_type.typsend)),
        ("typmodin"@, CatalogValueView::Oid(Oid(INVALID_OID))),
        ("typmodout"@, CatalogValueView::Oid(Oid(INVALID_OID))),
        ("typrelid"@, CatalogValueView::Oid(Oid(INVALID_OID))),
        ("typelem"@, CatalogValueView::Oid(Oid(INVALID_OID))),
        ("typarray"@, CatalogValueView::Oid(Oid(INVALID_OID))),
        ("typbasetype"@, CatalogValueView::Oid(domain.base_type)),
        ("typtypmod"@, CatalogValueView::Int32(domain.type_mod)),
        ("typcollation"@, CatalogValueView::Oid(domain.collation)),
        ("typdefaultbin"@, CatalogValueView::Null),
        ("typdefault"@, CatalogValueView::Null),
        ("typacl"@, CatalogValueView::Null),
    ]
}

pub open spec fn is_type_with(
    generated: GeneratedCatalog,
    table: StaticCatalogTable,
    oid: Oid,
) -> spec_fn(StaticCatalogRow) -> bool {
    |row: StaticCatalogRow| static_rows::static_oid(generated, table, row, "oid"@) == Some(oid)
}

/// The type row of a domain, where its base type is compiled in.
pub open spec fn domain_row(
    generated: GeneratedCatalog,
    table: StaticCatalogTable,
    domain: InformationSchemaDomainSpec,
) -> Option<CatalogRowView> {
    match (
        search::first_with(table.rows@, is_type_with(generated, table, domain.base_type)),
        nodes::builtin_type(generated, domain.base_type),
    ) {
        (Some(template), Some(base_type)) => Some(
            columns::with_values(
                table,
                CatalogRowView {
                    row_id: domain.oid.0 as u64,
                    ..static_rows::named_row(generated, table, template)
                },
                domain_columns(domain, base_type),
            ),
        ),
        _ => None,
    }
}

fn find_type_row(generated: &GeneratedCatalog, table: &StaticCatalogTable, oid: Oid) -> (r: Option<
    &'static StaticCatalogRow,
>)
    ensures
        match r {
            Some(row) => search::first_with(table.rows@, is_type_with(*generated, *table, oid))
                == Some(*row),
            None => search::first_with(
                table.rows@,
                is_type_with(*generated, *table, oid),
            ) is None,
        },
{
    let mut i: usize = 0;
    while i < table.rows.len()
        invariant
            i <= table.rows@.len(),
            forall|j: int|
                0 <= j < i ==> !is_type_with(*generated, *table, oid)(#[trigger] table.rows@[j]),
        decreases table.rows@.len() - i,
    {
        let found = match static_rows::static_row_column_oid(
            generated,
            table,
            &table.rows[i],
            "oid",
        ) {
            Some(row_oid) => row_oid == oid,
            None => false,
        };
        if found {
            proof {
                search::first_index_at(
                    table.rows@,
                    is_type_with(*generated, *table, oid),
                    i as int,
                );
            }
            return Some(&table.rows[i]);
        }
        i += 1;
    }
    proof {
        search::first_index_none(table.rows@, is_type_with(*generated, *table, oid));
    }
    None
}

pub fn synthetic_information_schema_domain_row(
    generated: &GeneratedCatalog,
    table: &StaticCatalogTable,
    domain: InformationSchemaDomainSpec,
) -> (r: Option<CatalogRow>)
    ensures
        match r {
            Some(row) => domain_row(*generated, *table, domain) == Some(row@),
            None => domain_row(*generated, *table, domain) is None,
        },
{
    let template = match find_type_row(generated, table, domain.base_type) {
        Some(template) => template,
        None => {
            return None;
        },
    };
    let base_type = match nodes::lookup_builtin_type(generated, domain.base_type) {
        Some(base_type) => base_type,
        None => {
            return None;
        },
    };
    let mut row = static_rows::static_row_to_catalog_row(generated, table, template);
    row.row_id = domain.oid.0 as u64;
    let list = vec![
        assignment("oid", CatalogValue::Oid(domain.oid)),
        assignment("typname", CatalogValue::Name(domain.name.to_owned())),
        assignment("typnamespace", CatalogValue::Oid(Oid(INFORMATION_SCHEMA_NAMESPACE_OID))),
        assignment("typowner", CatalogValue::Oid(Oid(POSTGRES_ROLE_OID))),
        assignment("typtype", CatalogValue::Char(100)),
        assignment("typispreferred", CatalogValue::Bool(false)),
        assignment("typinput", CatalogValue::Oid(Oid(2597))),
        assignment("typoutput", CatalogValue::Oid(base_type.typoutput)),
        assignment("typreceive", CatalogValue::Oid(Oid(2598))),
        assignment("typsend", CatalogValue::Oid(base_type.typsend)),
        assignment("typmodin", CatalogValue::Oid(Oid(INVALID_OID))),
        assignment("typmodout", CatalogValue::Oid(Oid(INVALID_OID))),
        assignment("typrelid", CatalogValue::Oid(Oid(INVALID_OID))),
        assignment("typelem", CatalogValue::Oid(Oid(INVALID_OID))),
        assignment("typarray", CatalogValue::Oid(Oid(INVALID_OID))),
        assignment("typbasetype", CatalogValue::Oid(domain.base_type)),
        assignment("typtypmod", CatalogValue::Int32(domain.type_mod)),
        assignment("typcollation", CatalogValue::Oid(domain.collation)),
        assignment("typdefaultbin", CatalogValue::Null),
        assignment("typdefault", CatalogValue::Null),
        assignment("typacl", CatalogValue::Null),
    ];
    assert(assignment_views(list@) =~= domain_columns(domain, base_type));
    assign_all(table, &mut row, list);
    Some(row)
}

/// The identity of the row of a catalog's column.
pub open spec fn attribute_row_id(relation_oid: Oid, attnum: i16) -> u64 {
    ((relation_oid.0 as u64) << 16u64) | SYNTHETIC_STATIC_ATTRIBUTE_ROW_ID_FLAG | (attnum as u16
        as u64)
}

/// The identity of the row of a catalog's system column.
pub open spec fn system_attribute_row_id(relation_oid: Oid, attnum: i16) -> u64 {
    ((relation_oid.0 as u64) << 16u64) | (if attnum < 0 {
        -attnum
    } else {
        attnum as int
    }) as u64
}

pub fn synthetic_static_attribute_row_id(relation_oid: Oid, attnum: i16) -> (r: u64)
    ensures
        r == attribute_row_id(relation_oid, attnum),
{
    ((relation_oid.0 as u64) << 16u64) | SYNTHETIC_STATIC_ATTRIBUTE_ROW_ID_FLAG | (
    #[verifier::truncate]
    (attnum as u16) as u64)
}

pub fn synthetic_system_attribute_row_id(relation_oid: Oid, attnum: i16) -> (r: u64)
    ensures
        r == system_attribute_row_id(relation_oid, attnum),
{
    let magnitude: u64 = if attnum < 0 {
        (-(attnum as i64)) as u64
    } else {
        attnum as u64
    };
    ((relation_oid.0 as u64) << 16u64) | magnitude
}

/// The columns of the row of a catalog's column.
pub open spec fn attribute_columns(
    relation_table: StaticCatalogTable,
    column: StaticCatalogColumn,
    attnum: i16,
    type_record: PgTypeRecord,
) -> Seq<(Seq<char>, CatalogValueView)> {
    seq![
        ("attrelid"@, CatalogValueView::Oid(relation_table.oid)),
        ("attname"@, CatalogValueView::Name(column.name@)),
        ("atttypid"@, CatalogValueView::Oid(column.type_oid)),
        ("attstattarget"@, CatalogValueView::Int16((-1) as i16)),
        ("attlen"@, CatalogValueView::Int16(type_record.typlen)),
        ("attnum"@, CatalogValueView::Int16(attnum)),
        ("attndims"@, CatalogValueView::Int32(column.attndims)),
        ("attcacheoff"@, CatalogValueView::Int32((-1) as i32)),
        ("atttypmod"@, CatalogValueView::Int32((-1) as i32)),
        ("attbyval"@, CatalogValueView::Bool(type_record.typbyval)),
        ("attalign"@, CatalogValueView::Char(type_record.typalign)),
        ("attstorage"@, CatalogValueView::Char(type_record.typstorage)),
        ("attcompression"@, CatalogValueView::Char(0)),
        ("attnotnull"@, CatalogValueView::Bool(column.attnotnull)),
        ("atthasdef"@, CatalogValueView::Bool(false)),
        ("atthasmissing"@, CatalogValueView::Bool(false)),
        ("attidentity"@, CatalogValueView::Char(0)),
        ("attgenerated"@, CatalogValueView::Char(0)),
        ("attisdropped"@, CatalogValueView::Bool(false)),
        ("attislocal"@, CatalogValueView::Bool(true)),
        ("attinhcount"@, CatalogValueView::Int16(0)),
        ("attcollation"@, CatalogValueView::Oid(type_record.typcollation)),
        ("attacl"@, CatalogValueView::Null),
        ("attoptions"@, CatalogValueView::Null),
        ("attfdwoptions"@, CatalogValueView::Null),
        ("attmissingval"@, CatalogValueView::Null),
    ]
}

/// The row of a catalog's column, where its type is compiled in and the
/// catalog of columns has a row to start from.
pub open spec fn attribute_row(
    generated: GeneratedCatalog,
    table: StaticCatalogTable,
    relation_table: StaticCatalogTable,
    column: StaticCatalogColumn,
    attnum: i16,
) -> Option<CatalogRowView> {
    match nodes::builtin_type(generated, column.type_oid) {
        Some(type_record) if table.rows@.len() > 0 => Some(
            columns::with_values(
                table,
                first_row_as(generated, table, attribute_row_id(relation_table.oid, attnum)),
                attribute_columns(relation_table, column, attnum, type_record),
            ),
        ),
        _ => None,
    }
}

pub fn synthetic_static_attribute_row(
    generated: &GeneratedCatalog,
    table: &StaticCatalogTable,
    relation_table: &StaticCatalogTable,
    column: &StaticCatalogColumn,
    attnum: i16,
) -> (r: Option<CatalogRow>)
    ensures
        match r {
            Some(row) => attribute_row(*generated, *table, *relation_table, *column, attnum)
                == Some(row@),
            None => attribute_row(*generated, *table, *relation_table, *column, attnum) is None,
        },
{
    if table.rows.len() == 0 {
        return None;
    }
    let type_record = match nodes::lookup_builtin_type(generated, column.type_oid) {
        Some(type_record) => type_record,
        None => {
            return None;
        },
    };
    let mut row = static_rows::static_row_to_catalog_row(generated, table, &table.rows[0]);
    row.row_id = synthetic_static_attribute_row_id(relation_table.oid, attnum);
    let list = vec![
        assignment("attrelid", CatalogValue::Oid(relation_table.oid)),
        assignment("attname", CatalogValue::Name(column.name.to_owned())),
        assignment("atttypid", CatalogValue::Oid(column.type_oid)),
        assignment("attstattarget", CatalogValue::Int16(-1)),
        assignment("attlen", CatalogValue::Int16(type_record.typlen)),
        assignment("attnum", CatalogValue::Int16(attnum)),
        assignment("attndims", CatalogValue::Int32(column.attndims)),
        assignment("attcacheoff", CatalogValue::Int32(-1)),
        assignment("atttypmod", CatalogValue::Int32(-1)),
        assignment("attbyval", CatalogValue::Bool(type_record.typbyval)),
        assignment("attalign", CatalogValue::Char(type_record.typalign)),
        assignment("attstorage", CatalogValue::Char(type_record.typstorage)),
        assignment("attcompression", CatalogValue::Char(0)),
        assignment("attnotnull", CatalogValue::Bool(column.attnotnull)),
        assignment("atthasdef", CatalogValue::Bool(false)),
        assignment("atthasmissing", CatalogValue::Bool(false)),
        assignment("attidentity", CatalogValue::Char(0)),
        assignment("attgenerated", CatalogValue::Char(0)),
        assignment("attisdropped", CatalogValue::Bool(false)),
        assignment("attislocal", CatalogValue::Bool(true)),
        assignment("attinhcount", CatalogValue::Int16(0)),
        assignment("attcollation", CatalogValue::Oid(type_record.typcollation)),
        assignment("attacl", CatalogValue::Null),
        assignment("attoptions", CatalogValue::Null),
        assignment("attfdwoptions", CatalogValue::Null),
        assignment("attmissingval", CatalogValue::Null),
    ];
    assert(assignment_views(list@) =~= attribute_columns(
        *relation_table,
        *column,
        attnum,
        type_record,
    ));
    assign_all(table, &mut row, list);
    Some(row)
}

/// A system column, which every relation has.
#[derive(Clone, Copy, Debug)]
pub struct SystemAttributeSpec {
    pub name: &'static str,
    pub attnum: i16,
    pub type_oid: Oid,
}

/// The system columns.
pub open spec fn system_attributes() -> Seq<SystemAttributeSpec> {
    seq![
        SystemAttributeSpec { name: "ctid", attnum: (-1) as i16, type_oid: Oid(TID_OID) },
        SystemAttributeSpec { name: "xmin", attnum: (-2) as i16, type_oid: Oid(XID_OID) },
        SystemAttributeSpec { name: "cmin", attnum: (-3) as i16, type_oid: Oid(CID_OID) },
        SystemAttributeSpec { name: "xmax", attnum: (-4) as i16, type_oid: Oid(XID_OID) },
        SystemAttributeSpec { name: "cmax", attnum: (-5) as i16, type_oid: Oid(CID_OID) },
        SystemAttributeSpec { name: "tableoid", attnum: (-6) as i16, type_oid: Oid(OID_OID) },
    ]
}

pub fn system_attribute_specs() -> (r: Vec<SystemAttributeSpec>)
    ensures
        r@ == system_attributes(),
{
    let list = vec![
        SystemAttributeSpec { name: "ctid", attnum: -1, type_oid: Oid(TID_OID) },
        SystemAttributeSpec { name: "xmin", attnum: -2, type_oid: Oid(XID_OID) },
        SystemAttributeSpec { name: "cmin", attnum: -3, type_oid: Oid(CID_OID) },
        SystemAttributeSpec { name: "xmax", attnum: -4, type_oid: Oid(XID_OID) },
        SystemAttributeSpec { name: "cmax", attnum: -5, type_oid: Oid(CID_OID) },
        SystemAttributeSpec { name: "tableoid", attnum: -6, type_oid: Oid(OID_OID) },
    ];
    assert(list@ =~= system_attributes());
    list
}

/// The columns of the row of a catalog's system column.
pub open spec fn system_attribute_columns(
    relation_table: StaticCatalogTable,
    attribute: SystemAttributeSpec,
    type_record: PgTypeRecord,
) -> Seq<(Seq<char>, CatalogValueView)> {
    seq![
        ("attrelid"@, CatalogValueView::Oid(relation_table.oid)),
        ("attname"@, CatalogValueView::Name(attribute.name@)),
        ("atttypid"@, CatalogValueView::Oid(attribute.type_oid)),
        ("attstattarget"@, CatalogValueView::Int16(0)),
        ("attlen"@, CatalogValueView::Int16(type_record.typlen)),
        ("attnum"@, CatalogValueView::Int16(attribute.attnum)),
        ("attndims"@, CatalogValueView::Int32(0)),
        ("attcacheoff"@, CatalogValueView::Int32((-1) as i32)),
        ("atttypmod"@, CatalogValueView::Int32((-1) as i32)),
        ("attbyval"@, CatalogValueView::Bool(type_record.typbyval)),
        ("attalign"@, CatalogValueView::Char(type_record.typalign)),
        ("attstorage"@, CatalogValueView::Char(type_record.typstorage)),
        ("attcompression"@, CatalogValueView::Char(0)),
        ("attnotnull"@, CatalogValueView::Bool(true)),
        ("atthasdef"@, CatalogValueView::Bool(false)),
        ("atthasmissing"@, CatalogValueView::Bool(false)),
        ("attidentity"@, CatalogValueView::Char(0)),
        ("attgenerated"@, CatalogValueView::Char(0)),
        ("attisdropped"@, CatalogValueView::Bool(false)),
        ("attislocal"@, CatalogValueView::Bool(true)),
        ("attinhcount"@, CatalogValueView::Int16(0)),
        ("attcollation"@, CatalogValueView::Oid(Oid(INVALID_OID))),
    ]
}

/// The row of a catalog's system column.
pub open spec fn system_attribute_row(
    generated: GeneratedCatalog,
    table: StaticCatalogTable,
    relation_table: StaticCatalogTable,
    attribute: SystemAttributeSpec,
) -> Option<CatalogRowView> {
    match nodes::builtin_type(generated, attribute.type_oid) {
        Some(type_record) if table.rows@.len() > 0 => Some(
            columns::with_values(
                table,
                first_row_as(
                    generated,
                    table,
                    system_attribute_row_id(relation_table.oid, attribute.attnum),
                ),
                system_attribute_columns(relation_table, attribute, type_record),
            ),
        ),
        _ => None,
    }
}

pub fn synthetic_system_attribute_row(
    generated: &GeneratedCatalog,
    table: &StaticCatalogTable,
    relation_table: &StaticCatalogTable,
    attribute: SystemAttributeSpec,
) -> (r: Option<CatalogRow>)
    ensures
        match r {
            Some(row) => system_attribute_row(*generated, *table, *relation_table, attribute)
                == Some(row@),
            None => system_attribute_row(
                *generated,
                *table,
                *relation_table,
                attribute,
            ) is None,
        },
{
    if table.rows.len() == 0 {
        return None;
    }
    let type_record = match nodes::lookup_builtin_type(generated, attribute.type_oid) {
        Some(type_record) => type_record,
        None => {
            return None;
        },
    };
    let mut row = static_rows::static_row_to_catalog_row(generated, table, &table.rows[0]);
    row.row_id = synthetic_system_attribute_row_id(relation_table.oid, attribute.attnum);
    let list = vec![
        assignment("attrelid", CatalogValue::Oid(relation_table.oid)),
        assignment("attname", CatalogValue::Name(attribute.name.to_owned())),
        assignment("atttypid", CatalogValue::Oid(attribute.type_oid)),
        assignment("attstattarget", CatalogValue::Int16(0)),
        assignment("attlen", CatalogValue::Int16(type_record.typlen)),
        assignment("attnum", CatalogValue::Int16(attribute.attnum)),
        assignment("attndims", CatalogValue::Int32(0)),
        assignment("attcacheoff", CatalogValue::Int32(-1)),
        assignment("atttypmod", CatalogValue::Int32(-1)),
        assignment("attbyval", CatalogValue::Bool(type_record.typbyval)),
        assignment("attalign", CatalogValue::Char(type_record.typalign)),
        assignment("attstorage", CatalogValue::Char(type_record.typstorage)),
        assignment("attcompression", CatalogValue::Char(0)),
        assignment("attnotnull", CatalogValue::Bool(true)),
        assignment("atthasdef", CatalogValue::Bool(false)),
        assignment("atthasmissing", CatalogValue::Bool(false)),
        assignment("attidentity", CatalogValue::Char(0)),
        assignment("attgenerated", CatalogValue::Char(0)),
        assignment("attisdropped", CatalogValue::Bool(false)),
        assignment("attislocal", CatalogValue::Bool(true)),
        assignment("attinhcount", CatalogValue::Int16(0)),
        assignment("attcollation", CatalogValue::Oid(Oid(INVALID_OID))),
    ];
    assert(assignment_views(list@) =~= system_attribute_columns(
        *relation_table,
        attribute,
        type_record,
    ));
    assign_all(table, &mut row, list);
    Some(row)
}

/// The columns of the description of an operator's function.
pub open spec fn description_columns(proc_oid: Oid, description: Seq<char>) -> Seq<
    (Seq<char>, CatalogValueView),
> {
    seq![
        ("objoid"@, CatalogValueView::Oid(proc_oid)),
        ("classoid"@, CatalogValueView::Oid(Oid(PG_PROC_RELATION_OID))),
        ("objsubid"@, CatalogValueView::Int32(0)),
        ("description"@, CatalogValueView::Text(description)),
    ]
}

/// The description of an operator's function.
pub open spec fn description_row(
    generated: GeneratedCatalog,
    table: StaticCatalogTable,
    proc_oid: Oid,
    description: Seq<char>,
) -> Option<CatalogRowView> {
    if proc_oid.0 == INVALID_OID || table.rows@.len() == 0 {
        None
    } else {
        Some(
            columns::with_values(
                table,
                first_row_as(
                    generated,
                    table,
                    SYNTHETIC_DESCRIPTION_ROW_ID_BASE | proc_oid.0 as u64,
                ),
                description_columns(proc_oid, description),
            ),
        )
    }
}

pub fn synthetic_operator_proc_description_row(
    generated: &GeneratedCatalog,
    table: &StaticCatalogTable,
    proc_oid: Oid,
    description: String,
) -> (r: Option<CatalogRow>)
    ensures
        match r {
            Some(row) => description_row(*generated, *table, proc_oid, description@) == Some(row@),
            None => description_row(*generated, *table, proc_oid, description@) is None,
        },
{
    if proc_oid.0 == INVALID_OID || table.rows.len() == 0 {
        return None;
    }
    let mut row = static_rows::static_row_to_catalog_row(generated, table, &table.rows[0]);
    row.row_id = SYNTHETIC_DESCRIPTION_ROW_ID_BASE | proc_oid.0 as u64;
    let ghost told = description@;
    let list = vec![
        assignment("objoid", CatalogValue::Oid(proc_oid)),
        assignment("classoid", CatalogValue::Oid(Oid(PG_PROC_RELATION_OID))),
        assignment("objsubid", CatalogValue::Int32(0)),
        assignment("description", CatalogValue::Text(description)),
    ];
    assert(assignment_views(list@) =~= description_columns(proc_oid, told));
    assign_all(table, &mut row, list);
    Some(row)
}

} // verus!
