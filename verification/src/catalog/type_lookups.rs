//! Types, by identifier and by name, and what orders their values.

use vstd::prelude::*;

use crate::catalog::columns;
use crate::catalog::lookups;
use crate::catalog::meta;
use crate::catalog::model::{
    CatalogRow, CatalogRowView, CatalogTypeRecord, CatalogTypeRecordView, GeneratedCatalog,
    StaticCatalogRow, StaticCatalogTable, ANYARRAY_OID, ANYENUM_OID, ANYMULTIRANGE_OID,
    ANYRANGE_OID, ARRAY_SUBSCRIPT_HANDLER_OID, BTREE_INDEX_AM_OID, INVALID_OID,
    PG_CATALOG_NAMESPACE_OID, PG_ENUM_RELATION_OID, PG_TYPE_RELATION_OID, POSTGRES_ROLE_OID,
    RECORD_OID, TEXT_OID, VARCHAR_OID,
};
use crate::catalog::nodes;
use crate::catalog::rows;
use crate::catalog::selectors::SelectorView;
use crate::catalog::snapshot::{CatalogSnapshot, SnapshotView};
use crate::catalog::static_rows;
use crate::search;
use crate::stable;
use crate::text;
use crate::types::Oid;

verus! {

/// Whether a row of the catalog of types tells everything about its type.
pub open spec fn tells_a_type(
    generated: GeneratedCatalog,
    table: StaticCatalogTable,
    row: CatalogRowView,
) -> bool {
    &&& meta::oid_at(generated, table, row, "oid"@) is Some
    &&& meta::string_at(table, row, "typname"@) is Some
    &&& meta::oid_at(generated, table, row, "typnamespace"@) is Some
    &&& meta::oid_at(generated, table, row, "typowner"@) is Some
    &&& meta::i16_at(table, row, "typlen"@) is Some
    &&& meta::bool_at(table, row, "typbyval"@) is Some
    &&& meta::u8_at(table, row, "typalign"@) is Some
    &&& meta::u8_at(table, row, "typdelim"@) is Some
    &&& meta::oid_at(generated, table, row, "typinput"@) is Some
    &&& meta::oid_at(generated, table, row, "typoutput"@) is Some
    &&& meta::oid_at(generated, table, row, "typreceive"@) is Some
    &&& meta::oid_at(generated, table, row, "typsend"@) is Some
    &&& meta::oid_at(generated, table, row, "typmodin"@) is Some
    &&& meta::oid_at(generated, table, row, "typmodout"@) is Some
    &&& meta::bool_at(table, row, "typisdefined"@) is Some
    &&& meta::u8_at(table, row, "typtype"@) is Some
    &&& meta::u8_at(table, row, "typcategory"@) is Some
    &&& meta::bool_at(table, row, "typispreferred"@) is Some
    &&& meta::oid_at(generated, table, row, "typrelid"@) is Some
    &&& meta::oid_at(generated, table, row, "typelem"@) is Some
    &&& meta::oid_at(generated, table, row, "typarray"@) is Some
    &&& meta::oid_at(generated, table, row, "typbasetype"@) is Some
    &&& meta::i32_at(table, row, "typtypmod"@) is Some
    &&& meta::oid_at(generated, table, row, "typcollation"@) is Some
    &&& meta::oid_at(generated, table, row, "typsubscript"@) is Some
    &&& meta::u8_at(table, row, "typstorage"@) is Some
}

/// The type that a row of the catalog of types tells.
pub open spec fn type_of_row(
    generated: GeneratedCatalog,
    table: StaticCatalogTable,
    row: CatalogRowView,
) -> Option<CatalogTypeRecordView> {
    if tells_a_type(generated, table, row) {
        Some(
            CatalogTypeRecordView {
                row_id: row.row_id,
                oid: meta::oid_at(generated, table, row, "oid"@)->0,
                name: meta::string_at(table, row, "typname"@)->0,
                namespace: meta::oid_at(generated, table, row, "typnamespace"@)->0,
                owner: meta::oid_at(generated, table, row, "typowner"@)->0,
                typlen: meta::i16_at(table, row, "typlen"@)->0,
                typbyval: meta::bool_at(table, row, "typbyval"@)->0,
                typalign: meta::u8_at(table, row, "typalign"@)->0,
                typdelim: meta::u8_at(table, row, "typdelim"@)->0,
                typinput: meta::oid_at(generated, table, row, "typinput"@)->0,
                typoutput: meta::oid_at(generated, table, row, "typoutput"@)->0,
                typreceive: meta::oid_at(generated, table, row, "typreceive"@)->0,
                typsend: meta::oid_at(generated, table, row, "typsend"@)->0,
                typmodin: meta::oid_at(generated, table, row, "typmodin"@)->0,
                typmodout: meta::oid_at(generated, table, row, "typmodout"@)->0,
                typisdefined: meta::bool_at(table, row, "typisdefined"@)->0,
                typtype: meta::u8_at(table, row, "typtype"@)->0,
                typcategory: meta::u8_at(table, row, "typcategory"@)->0,
                typispreferred: meta::bool_at(table, row, "typispreferred"@)->0,
                typrelid: meta::oid_at(generated, table, row, "typrelid"@)->0,
                typelem: meta::oid_at(generated, table, row, "typelem"@)->0,
                typarray: meta::oid_at(generated, table, row, "typarray"@)->0,
                typbasetype: meta::oid_at(generated, table, row, "typbasetype"@)->0,
                typtypmod: meta::i32_at(table, row, "typtypmod"@)->0,
                typcollation: meta::oid_at(generated, table, row, "typcollation"@)->0,
                typsubscript: meta::oid_at(generated, table, row, "typsubscript"@)->0,
                typstorage: meta::u8_at(table, row, "typstorage"@)->0,
            },
        )
    } else {
        None
    }
}

pub fn catalog_type_from_row(
    generated: &GeneratedCatalog,
    table: &StaticCatalogTable,
    row: &CatalogRow,
) -> (r: Option<CatalogTypeRecord>)
    ensures
        search::option_view(r) == type_of_row(*generated, *table, row@),
{
    let oid = match meta::column_oid(generated, table, row, "oid") {
        Some(v) => v,
        None => return None,
    };
    let name = match meta::column_string(table, row, "typname") {
        Some(v) => v,
        None => return None,
    };
    let namespace = match meta::column_oid(generated, table, row, "typnamespace") {
        Some(v) => v,
        None => return None,
    };
    let owner = match meta::column_oid(generated, table, row, "typowner") {
        Some(v) => v,
        None => return None,
    };
    let typlen = match meta::column_i16(table, row, "typlen") {
        Some(v) => v,
        None => return None,
    };
    let typbyval = match meta::column_bool(table, row, "typbyval") {
        Some(v) => v,
        None => return None,
    };
    let typalign = match meta::column_u8(table, row, "typalign") {
        Some(v) => v,
        None => return None,
    };
    let typdelim = match meta::column_u8(table, row, "typdelim") {
        Some(v) => v,
        None => return None,
    };
    let typinput = match meta::column_oid(generated, table, row, "typinput") {
        Some(v) => v,
        None => return None,
    };
    let typoutput = match meta::column_oid(generated, table, row, "typoutput") {
        Some(v) => v,
        None => return None,
    };
    let typreceive = match meta::column_oid(generated, table, row, "typreceive") {
        Some(v) => v,
        None => return None,
    };
    let typsend = match meta::column_oid(generated, table, row, "typsend") {
        Some(v) => v,
        None => return None,
    };
    let typmodin = match meta::column_oid(generated, table, row, "typmodin") {
        Some(v) => v,
        None => return None,
    };
    let typmodout = match meta::column_oid(generated, table, row, "typmodout") {
        Some(v) => v,
        None => return None,
    };
    let typisdefined = match meta::column_bool(table, row, "typisdefined") {
        Some(v) => v,
        None => return None,
    };
    let typtype = match meta::column_u8(table, row, "typtype") {
        Some(v) => v,
        None => return None,
    };
    let typcategory = match meta::column_u8(table, row, "typcategory") {
        Some(v) => v,
        None => return None,
    };
    let typispreferred = match meta::column_bool(table, row, "typispreferred") {
        Some(v) => v,
        None => return None,
    };
    let typrelid = match meta::column_oid(generated, table, row, "typrelid") {
        Some(v) => v,
        None => return None,
    };
    let typelem = match meta::column_oid(generated, table, row, "typelem") {
        Some(v) => v,
        None => return None,
    };
    let typarray = match meta::column_oid(generated, table, row, "typarray") {
        Some(v) => v,
        None => return None,
    };
    let typbasetype = match meta::column_oid(generated, table, row, "typbasetype") {
        Some(v) => v,
        None => return None,
    };
    let typtypmod = match meta::column_i32(table, row, "typtypmod") {
        Some(v) => v,
        None => return None,
    };
    let typcollation = match meta::column_oid(generated, table, row, "typcollation") {
        Some(v) => v,
        None => return None,
    };
    let typsubscript = match meta::column_oid(generated, table, row, "typsubscript") {
        Some(v) => v,
        None => return None,
    };
    let typstorage = match meta::column_u8(table, row, "typstorage") {
        Some(v) => v,
        None => return None,
    };
    Some(
        CatalogTypeRecord {
            row_id: row.row_id,
            oid,
            name,
            namespace,
            owner,
            typlen,
            typbyval,
            typalign,
            typdelim,
            typinput,
            typoutput,
            typreceive,
            typsend,
            typmodin,
            typmodout,
            typisdefined,
            typtype,
            typcategory,
            typispreferred,
            typrelid,
            typelem,
            typarray,
            typbasetype,
            typtypmod,
            typcollation,
            typsubscript,
            typstorage,
        },
    )
}

pub open spec fn rowtype_is(oid: Oid) -> spec_fn(StaticCatalogTable) -> bool {
    |table: StaticCatalogTable| static_rows::rowtype_of(table) == oid
}

/// The compiled-in catalog whose row type has an identifier.
pub fn static_catalog_by_rowtype_oid(generated: &GeneratedCatalog, rowtype_oid: Oid) -> (r: Option<
    &'static StaticCatalogTable,
>)
    ensures
        match r {
            Some(table) => search::first_with(generated.tables@, rowtype_is(rowtype_oid)) == Some(
                *table,
            ),
            None => search::first_with(generated.tables@, rowtype_is(rowtype_oid)) is None,
        },
{
    let test = |table: &StaticCatalogTable| -> (b: bool)
        ensures
            b == rowtype_is(rowtype_oid)(*table),
        { static_rows::static_catalog_table_rowtype_oid(table) == rowtype_oid };
    search::find_first(generated.tables, test, Ghost(rowtype_is(rowtype_oid)))
}

/// The row type of a compiled-in catalog, laid out as that of the catalog of
/// relations.
pub open spec fn rowtype_record(generated: GeneratedCatalog, table: StaticCatalogTable) -> Option<
    CatalogTypeRecordView,
> {
    match nodes::builtin_type(generated, Oid(83)) {
        Some(template) => Some(
            CatalogTypeRecordView {
                row_id: 0,
                oid: static_rows::rowtype_of(table),
                name: table.name@,
                namespace: Oid(PG_CATALOG_NAMESPACE_OID),
                owner: Oid(POSTGRES_ROLE_OID),
                typisdefined: true,
                typtype: 99,
                typcategory: 67,
                typispreferred: false,
                typrelid: table.oid,
                typelem: Oid(INVALID_OID),
                typarray: Oid(INVALID_OID),
                typbasetype: Oid(INVALID_OID),
                typtypmod: (-1) as i32,
                typcollation: Oid(INVALID_OID),
                typsubscript: Oid(INVALID_OID),
                typstorage: 120,
                ..CatalogTypeRecordView::builtin(template)
            },
        ),
        None => None,
    }
}

pub fn synthetic_catalog_rowtype_for_table(
    generated: &GeneratedCatalog,
    table: &StaticCatalogTable,
) -> (r: Option<CatalogTypeRecord>)
    ensures
        search::option_view(r) == rowtype_record(*generated, *table),
{
    match nodes::lookup_builtin_type(generated, Oid(83)) {
        Some(template) => {
            let mut record = CatalogTypeRecord::from(template);
            record.oid = static_rows::static_catalog_table_rowtype_oid(table);
            record.name = table.name.to_owned();
            record.namespace = Oid(PG_CATALOG_NAMESPACE_OID);
            record.owner = Oid(POSTGRES_ROLE_OID);
            record.typisdefined = true;
            record.typtype = 99;
            record.typcategory = 67;
            record.typispreferred = false;
            record.typrelid = table.oid;
            record.typelem = Oid(INVALID_OID);
            record.typarray = Oid(INVALID_OID);
            record.typbasetype = Oid(INVALID_OID);
            record.typtypmod = -1;
            record.typcollation = Oid(INVALID_OID);
            record.typsubscript = Oid(INVALID_OID);
            record.typstorage = 120;
            Some(record)
        },
        None => None,
    }
}

/// Reads a type out of a row, where it is the one with an identifier.
pub open spec fn type_with(generated: GeneratedCatalog, table: StaticCatalogTable, oid: Oid) -> spec_fn(
    CatalogRowView,
) -> Option<CatalogTypeRecordView> {
    |row: CatalogRowView|
        match type_of_row(generated, table, row) {
            Some(record) => if record.oid == oid {
                Some(record)
            } else {
                None
            },
            None => None,
        }
}

/// The type with an identifier, among the rows.
pub open spec fn type_in_rows(generated: GeneratedCatalog, s: SnapshotView, oid: Oid) -> Option<
    CatalogTypeRecordView,
> {
    match columns::table_of(generated, Oid(PG_TYPE_RELATION_OID)) {
        Some(table) => search::first_some(
            lookups::rows_of(generated, s, PG_TYPE_RELATION_OID, SelectorView::All),
            type_with(generated, table, oid),
        ),
        None => None,
    }
}

/// The type with an identifier: a compiled-in one, a recorded one, one among
/// the rows, or the row type of a catalog.
pub open spec fn type_found(generated: GeneratedCatalog, s: SnapshotView, oid: Oid) -> Option<
    CatalogTypeRecordView,
> {
    match nodes::builtin_type(generated, oid) {
        Some(record) => Some(CatalogTypeRecordView::builtin(record)),
        None => match s.type_with_oid(oid) {
            Some(m) => Some(m.record),
            None => match type_in_rows(generated, s, oid) {
                Some(record) => Some(record),
                None => match search::first_with(generated.tables@, rowtype_is(oid)) {
                    Some(table) => rowtype_record(generated, table),
                    None => None,
                },
            },
        },
    }
}

fn find_type_in_rows(generated: &GeneratedCatalog, s: &CatalogSnapshot, oid: Oid) -> (r: Option<
    CatalogTypeRecord,
>)
    requires
        s@.wf(),
    ensures
        search::option_view(r) == type_in_rows(*generated, s@, oid),
{
    let table = match columns::static_catalog_by_relation_oid(
        generated,
        Oid(PG_TYPE_RELATION_OID),
    ) {
        Some(table) => table,
        None => return None,
    };
    let list = rows::catalog_rows(generated, s, Oid(PG_TYPE_RELATION_OID));
    let read = |row: &CatalogRow| -> (v: Option<CatalogTypeRecord>)
        ensures
            search::option_view(v) == type_with(*generated, *table, oid)(row@),
        {
            match catalog_type_from_row(generated, table, row) {
                Some(record) => if record.oid == oid {
                    Some(record)
                } else {
                    None
                },
                None => None,
            }
        };
    search::find_map(&list, read, Ghost(type_with(*generated, *table, oid)))
}

pub fn lookup_type(generated: &GeneratedCatalog, s: &CatalogSnapshot, oid: Oid) -> (r: Option<
    CatalogTypeRecord,
>)
    requires
        s.wf(*generated),
    ensures
        search::option_view(r) == type_found(*generated, s@, oid),
{
    match nodes::lookup_builtin_type(generated, oid) {
        Some(record) => return Some(CatalogTypeRecord::from(record)),
        None => {},
    }
    match s.type_meta_by_oid(oid) {
        Some(m) => return Some(m.record.clone()),
        None => {},
    }
    let told = find_type_in_rows(generated, s, oid);
    if told.is_some() {
        return told;
    }
    match static_catalog_by_rowtype_oid(generated, oid) {
        Some(table) => synthetic_catalog_rowtype_for_table(generated, table),
        None => None,
    }
}

/// Reads a type out of a row, where it has a name and lies in a schema.
pub open spec fn type_named(
    generated: GeneratedCatalog,
    table: StaticCatalogTable,
    name: Seq<char>,
    namespace: Oid,
) -> spec_fn(CatalogRowView) -> Option<CatalogTypeRecordView> {
    |row: CatalogRowView|
        match type_of_row(generated, table, row) {
            Some(record) => if record.namespace == namespace && record.name == name {
                Some(record)
            } else {
                None
            },
            None => None,
        }
}

pub open spec fn type_named_in_rows(
    generated: GeneratedCatalog,
    s: SnapshotView,
    name: Seq<char>,
    namespace: Oid,
) -> Option<CatalogTypeRecordView> {
    match columns::table_of(generated, Oid(PG_TYPE_RELATION_OID)) {
        Some(table) => search::first_some(
            lookups::rows_of(generated, s, PG_TYPE_RELATION_OID, SelectorView::All),
            type_named(generated, table, name, namespace),
        ),
        None => None,
    }
}

/// The type with a canonical name in a schema: a recorded one, one among the
/// rows, or the row type of a catalog.
pub open spec fn type_in(
    generated: GeneratedCatalog,
    s: SnapshotView,
    name: Seq<char>,
    namespace: Oid,
) -> Option<CatalogTypeRecordView> {
    match s.type_named(name, namespace) {
        Some(m) => Some(m.record),
        None => match type_named_in_rows(generated, s, name, namespace) {
            Some(record) => Some(record),
            None => match columns::table_named(generated, name) {
                Some(table) if namespace.0 == PG_CATALOG_NAMESPACE_OID => rowtype_record(
                    generated,
                    table,
                ),
                _ => None,
            },
        },
    }
}

fn find_type_named_in_rows(
    generated: &GeneratedCatalog,
    s: &CatalogSnapshot,
    name: &str,
    namespace: Oid,
) -> (r: Option<CatalogTypeRecord>)
    requires
        s@.wf(),
    ensures
        search::option_view(r) == type_named_in_rows(*generated, s@, name@, namespace),
{
    let table = match columns::static_catalog_by_relation_oid(
        generated,
        Oid(PG_TYPE_RELATION_OID),
    ) {
        Some(table) => table,
        None => return None,
    };
    let list = rows::catalog_rows(generated, s, Oid(PG_TYPE_RELATION_OID));
    let read = |row: &CatalogRow| -> (v: Option<CatalogTypeRecord>)
        ensures
            search::option_view(v) == type_named(*generated, *table, name@, namespace)(row@),
        {
            match catalog_type_from_row(generated, table, row) {
                Some(record) => if record.namespace == namespace && text::same_text(
                    record.name.as_str(),
                    name,
                ) {
                    Some(record)
                } else {
                    None
                },
                None => None,
            }
        };
    search::find_map(&list, read, Ghost(type_named(*generated, *table, name@, namespace)))
}

pub fn type_by_name(
    generated: &GeneratedCatalog,
    s: &CatalogSnapshot,
    name: &str,
    namespace: Oid,
) -> (r: Option<CatalogTypeRecord>)
    requires
        s.wf(*generated),
    ensures
        search::option_view(r) == type_in(
            *generated,
            s@,
            meta::canonical_type_name(name@),
            namespace,
        ),
{
    let canonical = meta::canonical_catalog_type_name(name);
    match s.type_meta_by_name(canonical.as_str(), namespace) {
        Some(m) => return Some(m.record.clone()),
        None => {},
    }
    let told = find_type_named_in_rows(generated, s, canonical.as_str(), namespace);
    if told.is_some() {
        return told;
    }
    if namespace.0 != PG_CATALOG_NAMESPACE_OID {
        return None;
    }
    match columns::static_catalog_by_name(generated, canonical.as_str()) {
        Some(table) => synthetic_catalog_rowtype_for_table(generated, table),
        None => None,
    }
}

/// Reads the identifier of a compiled-in operator class out of its row, where
/// it is the default one of an access method for the values of a type.
pub open spec fn default_class(
    generated: GeneratedCatalog,
    table: StaticCatalogTable,
    method_oid: Oid,
    type_oid: Oid,
) -> spec_fn(StaticCatalogRow) -> Option<Oid> {
    |row: StaticCatalogRow|
        {
            let told = static_rows::named_row(generated, table, row);
            if meta::oid_at(generated, table, told, "opcmethod"@) == Some(method_oid)
                && meta::oid_at(generated, table, told, "opcintype"@) == Some(type_oid)
                && meta::bool_at(table, told, "opcdefault"@) == Some(true) {
                meta::oid_at(generated, table, told, "oid"@)
            } else {
                None
            }
        }
}

/// The compiled-in operator class that is the default one of an access method for
/// the values of a type.
pub open spec fn builtin_class(
    generated: GeneratedCatalog,
    method_oid: Oid,
    type_oid: Oid,
) -> Option<Oid> {
    match columns::table_named(generated, "pg_opclass"@) {
        Some(table) => search::first_some(
            table.rows@,
            default_class(generated, table, method_oid, type_oid),
        ),
        None => None,
    }
}

/// The compiled-in operator class that orders the values of a type.
pub open spec fn builtin_opclass(generated: GeneratedCatalog, type_oid: Oid) -> Option<Oid> {
    builtin_class(generated, Oid(BTREE_INDEX_AM_OID), type_oid)
}

pub(crate) fn static_btree_opclass_for_type(generated: &GeneratedCatalog, type_oid: Oid) -> (r:
    Option<Oid>)
    ensures
        r == builtin_opclass(*generated, type_oid),
{
    static_opclass_for_type(generated, Oid(BTREE_INDEX_AM_OID), type_oid)
}

fn static_opclass_for_type(generated: &GeneratedCatalog, method_oid: Oid, type_oid: Oid) -> (r:
    Option<Oid>)
    ensures
        r == builtin_class(*generated, method_oid, type_oid),
{
    let table = match columns::static_catalog_by_name(generated, "pg_opclass") {
        Some(table) => table,
        None => return None,
    };
    let ghost all = table.rows@;
    let ghost f = default_class(*generated, *table, method_oid, type_oid);
    let mut i: usize = 0;
    assert(all.skip(0) =~= all);
    while i < table.rows.len()
        invariant
            i <= all.len(),
            all == table.rows@,
            columns::table_named(*generated, "pg_opclass"@) == Some(*table),
            f == default_class(*generated, *table, method_oid, type_oid),
            search::first_some(all, f) == search::first_some(all.skip(i as int), f),
        decreases all.len() - i,
    {
        assert(all.skip(i as int).drop_first() =~= all.skip(i + 1));
        assert(all.skip(i as int)[0] == all[i as int]);
        let row = static_rows::static_row_to_catalog_row(generated, table, &table.rows[i]);
        let by_method = match meta::column_oid(generated, table, &row, "opcmethod") {
            Some(oid) => oid == method_oid,
            None => false,
        };
        let of_type = match meta::column_oid(generated, table, &row, "opcintype") {
            Some(oid) => oid == type_oid,
            None => false,
        };
        let by_default = match meta::column_bool(table, &row, "opcdefault") {
            Some(b) => b,
            None => false,
        };
        if by_method && of_type && by_default {
            let oid = meta::column_oid(generated, table, &row, "oid");
            if oid.is_some() {
                return oid;
            }
        }
        i += 1;
    }
    None
}

/// The operator class that orders the values of a type. Those of an enumeration
/// are ordered as those of any.
pub fn btree_opclass_for_type(generated: &GeneratedCatalog, s: &CatalogSnapshot, type_oid: Oid) -> (r:
    Option<Oid>)
    requires
        s.wf(*generated),
    ensures
        r == (match builtin_opclass(*generated, type_oid) {
            Some(oid) => Some(oid),
            None => match type_found(*generated, s@, type_oid) {
                Some(record) => if record.typtype == 101 {
                    builtin_opclass(*generated, Oid(ANYENUM_OID))
                } else {
                    None
                },
                None => None,
            },
        }),
{
    let own = static_btree_opclass_for_type(generated, type_oid);
    if own.is_some() {
        return own;
    }
    match lookup_type(generated, s, type_oid) {
        Some(record) => if record.typtype == 101 {
            static_btree_opclass_for_type(generated, Oid(ANYENUM_OID))
        } else {
            None
        },
        None => None,
    }
}

/// The type whose operators the values of a type are compared with, where the
/// type has none of its own: that of texts for varying texts, and for an array, an
/// enumeration, a range, a set of ranges or a row type the type that stands for
/// any such type.
pub open spec fn stand_in(record: CatalogTypeRecordView) -> Option<Oid> {
    if record.oid.0 == VARCHAR_OID {
        Some(Oid(TEXT_OID))
    } else if record.typsubscript.0 == ARRAY_SUBSCRIPT_HANDLER_OID {
        Some(Oid(ANYARRAY_OID))
    } else if record.typtype == 101 {
        Some(Oid(ANYENUM_OID))
    } else if record.typtype == 114 {
        Some(Oid(ANYRANGE_OID))
    } else if record.typtype == 109 {
        Some(Oid(ANYMULTIRANGE_OID))
    } else if record.typtype == 99 {
        Some(Oid(RECORD_OID))
    } else {
        None
    }
}

fn find_stand_in(record: &CatalogTypeRecord) -> (r: Option<Oid>)
    ensures
        r == stand_in(record@),
{
    if record.oid.0 == VARCHAR_OID {
        Some(Oid(TEXT_OID))
    } else if record.typsubscript.0 == ARRAY_SUBSCRIPT_HANDLER_OID {
        Some(Oid(ANYARRAY_OID))
    } else if record.typtype == 101 {
        Some(Oid(ANYENUM_OID))
    } else if record.typtype == 114 {
        Some(Oid(ANYRANGE_OID))
    } else if record.typtype == 109 {
        Some(Oid(ANYMULTIRANGE_OID))
    } else if record.typtype == 99 {
        Some(Oid(RECORD_OID))
    } else {
        None
    }
}

/// The default operator class of an access method for the values of a type.
pub fn default_opclass_for_type(
    generated: &GeneratedCatalog,
    s: &CatalogSnapshot,
    method_oid: Oid,
    type_oid: Oid,
) -> (r: Option<Oid>)
    requires
        s.wf(*generated),
    ensures
        r == (match builtin_class(*generated, method_oid, type_oid) {
            Some(oid) => Some(oid),
            None => match type_found(*generated, s@, type_oid) {
                Some(record) => match stand_in(record) {
                    Some(other) => builtin_class(*generated, method_oid, other),
                    None => None,
                },
                None => None,
            },
        }),
{
    let own = static_opclass_for_type(generated, method_oid, type_oid);
    if own.is_some() {
        return own;
    }
    match lookup_type(generated, s, type_oid) {
        Some(record) => match find_stand_in(&record) {
            Some(other) => static_opclass_for_type(generated, method_oid, other),
            None => None,
        },
        None => None,
    }
}

/// A single precision number, by its bits, as a number that orders as the
/// total order of such numbers does.
pub open spec fn total_order(bits: u32) -> int {
    if bits < 0x8000_0000 {
        bits as int
    } else {
        0x7fff_ffff - bits
    }
}

/// Where a label of an enumeration stands: by its order first, by its
/// identifier where the order is the same.
pub open spec fn label_key(bits: u32, oid: Oid) -> i64 {
    (total_order(bits) * 0x1_0000_0000 + oid.0) as i64
}

fn label_place(bits: u32, oid: Oid) -> (r: i64)
    ensures
        r == label_key(bits, oid),
{
    let order: i64 = if bits < 0x8000_0000 {
        bits as i64
    } else {
        0x7fff_ffff - bits as i64
    };
    order * 0x1_0000_0000 + oid.0 as i64
}

/// Reads a label of an enumeration, with where it stands, out of a row.
pub open spec fn label_of(
    generated: GeneratedCatalog,
    table: StaticCatalogTable,
    enum_type_oid: Oid,
) -> spec_fn(CatalogRowView) -> Option<(i64, Oid)> {
    |row: CatalogRowView|
        match (
            meta::oid_at(generated, table, row, "oid"@),
            columns::row_value(table, row, "enumsortorder"@),
        ) {
            (Some(oid), Some(value)) => if meta::oid_at(generated, table, row, "enumtypid"@)
                == Some(enum_type_oid) {
                match columns::single_of(generated.floats, value) {
                    Some(bits) => Some((label_key(bits, oid), oid)),
                    None => None,
                }
            } else {
                None
            },
            _ => None,
        }
}

/// The labels of an enumeration, in their order.
pub open spec fn labels(generated: GeneratedCatalog, s: SnapshotView, enum_type_oid: Oid) -> Seq<
    Oid,
> {
    match columns::table_of(generated, Oid(PG_ENUM_RELATION_OID)) {
        Some(table) => {
            let found = stable::sorted(
                search::all_some(
                    lookups::rows_of(generated, s, PG_ENUM_RELATION_OID, SelectorView::All),
                    label_of(generated, table, enum_type_oid),
                ),
            );
            Seq::new(found.len(), |i: int| found[i].1)
        },
        None => seq![],
    }
}

pub fn enum_oids_by_sort_order(
    generated: &GeneratedCatalog,
    s: &CatalogSnapshot,
    enum_type_oid: Oid,
) -> (r: Vec<Oid>)
    requires
        s@.wf(),
    ensures
        r@ == labels(*generated, s@, enum_type_oid),
{
    let table = match columns::static_catalog_by_relation_oid(
        generated,
        Oid(PG_ENUM_RELATION_OID),
    ) {
        Some(table) => table,
        None => return Vec::new(),
    };
    let list = rows::catalog_rows(generated, s, Oid(PG_ENUM_RELATION_OID));
    let ghost views = search::views(list@);
    let ghost f = label_of(*generated, *table, enum_type_oid);
    let mut pairs: Vec<(i64, Oid)> = Vec::new();
    let mut i: usize = 0;
    assert(views.take(0) =~= seq![]);
    while i < list.len()
        invariant
            i <= list.len(),
            views == search::views(list@),
            f == label_of(*generated, *table, enum_type_oid),
            pairs@ == search::all_some(views.take(i as int), f),
        decreases list.len() - i,
    {
        assert(views.take(i + 1).drop_last() =~= views.take(i as int));
        assert(views[i as int] == list@[i as int]@);
        let of_type = match meta::column_oid(generated, table, &list[i], "enumtypid") {
            Some(oid) => oid == enum_type_oid,
            None => false,
        };
        match (
            meta::column_oid(generated, table, &list[i], "oid"),
            columns::catalog_row_value(table, &list[i], "enumsortorder"),
        ) {
            (Some(oid), Some(value)) => if of_type {
                match columns::catalog_value_single(&generated.floats, value) {
                    Some(bits) => {
                        pairs.push((label_place(bits, oid), oid));
                    },
                    None => {},
                }
            },
            _ => {},
        }
        i += 1;
    }
    assert(views.take(i as int) =~= views);
    let in_place = stable::sort(pairs);
    let mut r: Vec<Oid> = Vec::new();
    i = 0;
    while i < in_place.len()
        invariant
            i <= in_place.len(),
            r@.len() == i,
            forall|j: int| 0 <= j < i ==> #[trigger] r@[j] == in_place@[j].1,
        decreases in_place.len() - i,
    {
        r.push(in_place[i].1);
        i += 1;
    }
    assert(r@ =~= labels(*generated, s@, enum_type_oid));
    r
}

} // verus!
