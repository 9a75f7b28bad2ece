use fastpg::bootstrap::bki::{parse_bki, BkiColumn, BkiTable};
use fastpg::bootstrap::system_views::with_system_views;
use fastpg::bootstrap::tables::{find_table, static_catalog_column, virtual_catalog_records};
use fastpg::catalog::builtins::{
    builtin_aggregate_by_proc_oid, builtin_cast_by_source_target, builtin_namespace_by_name,
    builtin_operator_by_signature, builtin_operators_by_name, builtin_proc_by_oid,
    builtin_procs_by_name, builtin_type_by_name, virtual_catalog_by_name, virtual_catalogs,
};
use fastpg::catalog::columns::{
    catalog_row_value, catalog_value_i16, catalog_value_i32, catalog_value_oid,
    catalog_value_string, catalog_value_u8, static_catalog_by_name,
};
use fastpg::catalog::counts::catalog_row_count;
use fastpg::catalog::databases::{
    canonical_database_name, database_oid_by_name, ensure_database, synthetic_database_oid,
};
use fastpg::catalog::edit::{delete_catalog_row, upsert_catalog_row};
use fastpg::catalog::filters::catalog_rows_matching_filters;
use fastpg::catalog::index_views::synthetic_pg_indexes_row;
use fastpg::catalog::lookup_cache::{
    index_record_by_index_oid, index_records_for_relation_oid,
    primary_key_index_oid_for_relation_oid, primary_key_relation_oid_for_index_oid,
    relation_column_by_attnum, relation_oid_for_index_oid, unique_index_records_for_relation_oid,
    CatalogLookupCache, PrimaryKeyIndexOidCache,
};
use fastpg::catalog::lookups::{
    relation_physical_column_by_attnum, unique_index_oids_for_relation_oid,
};
use fastpg::catalog::model::{
    CatalogRow, CatalogValue, FloatReadings, GeneratedCatalog, PgAggregateRecord, PgCastRecord,
    PgNamespaceRecord, PgOperatorRecord, PgProcRecord, PgTypeRecord, StaticCatalogColumn,
    StaticCatalogRow, StaticCatalogTable, StaticCatalogValue, VirtualCatalogPolicy,
    VirtualCatalogRecord, BPCHAR_OID, CID_OID, DEFAULT_COLLATION_OID, DEFAULT_TS_PARSER_OID,
    DSNOWBALL_INIT_PROC_OID, DSNOWBALL_LEXIZE_PROC_OID, ENGLISH_TS_CONFIG_OID,
    ENGLISH_TS_DICT_OID, FLOAT8_OID, INFORMATION_SCHEMA_NAMESPACE_OID, INT4_ARRAY_OID, INT4_OID,
    INT8_OID, INTERNAL_OID, INVALID_OID, OID_OID, PG_AGGREGATE_FNOID_INDEX_OID,
    PG_AGGREGATE_RELATION_OID, PG_ATTRIBUTE_RELATION_OID, PG_ATTRIBUTE_RELID_NAME_INDEX_OID,
    PG_ATTRIBUTE_RELID_NUM_INDEX_OID,
    PG_CATALOG_NAMESPACE_OID, PG_CLASS_NAME_NSP_INDEX_OID, PG_CLASS_OID_INDEX_OID,
    PG_CLASS_RELATION_OID, PG_CONSTRAINT_RELATION_OID, PG_DATABASE_RELATION_OID,
    PG_INDEXES_RELATION_OID, PG_INDEX_RELATION_OID, PG_NAMESPACE_NAME_INDEX_OID, PG_NAMESPACE_OID_INDEX_OID,
    PG_NAMESPACE_RELATION_OID, PG_PROC_RELATION_OID, PG_SEQUENCE_RELID_INDEX_OID, PG_TS_CONFIG_MAP_INDEX_OID, PG_TS_CONFIG_MAP_RELATION_OID,
    PG_TS_CONFIG_RELATION_OID, PG_TS_TEMPLATE_RELATION_OID, PG_TYPE_RELATION_OID,
    PUBLIC_NAMESPACE_OID, SIMPLE_TS_DICT_OID, SNOWBALL_TS_TEMPLATE_OID, TEXT_OID, TID_OID,
    TIMESTAMPTZ_OID, TIMESTAMP_OID, VARCHAR_OID, XID_OID,
};
use fastpg::catalog::nodes::lookup_builtin_type;
use fastpg::catalog::relations::{
    primary_key_index_record_for_relation_oid, relation_by_name, relation_by_oid,
    relation_column_count, relation_oid_by_name_in_namespace, relation_oid_exists,
    relation_planner_stats_by_oid, relation_rowtype_oid_by_oid, relation_summary_by_name_in_namespace,
    relation_summary_by_oid, relations,
};
use fastpg::catalog::rows::catalog_rows;
use fastpg::catalog::selectors::{CatalogFilterValue, CatalogRowFilter};
use fastpg::catalog::snapshot::CatalogSnapshot;
use fastpg::catalog::state::{
    abort_explicit_transaction, abort_implicit_transaction, abort_subtransaction,
    begin_explicit_transaction, begin_subtransaction, clear_for_tests,
    commit_explicit_transaction, commit_implicit_transaction, commit_subtransaction,
    current_generation, has_uncommitted_catalog_changes, new_catalog_session,
    refresh_visible_snapshot, visible_snapshot, CatalogSession, CatalogState,
};
use fastpg::catalog::static_rows::static_catalog_rowtype_oid;
use fastpg::catalog::type_lookups::{
    btree_opclass_for_type, default_opclass_for_type, enum_oids_by_sort_order, lookup_type,
    type_by_name,
};
use fastpg::catalog::validity::is_sound;
use fastpg::types::Oid;

fn leak<T>(list: Vec<T>) -> &'static [T] {
    Box::leak(list.into_boxed_slice())
}

/// The types that the columns of the tables below are of: the name, the
/// identifier, the length, whether it is passed by value, and how it is aligned
/// and stored.
const TYPES: [(&str, u32, i16, bool, u8, u8); 30] = [
    ("bool", 16, 1, true, b'c', b'p'),
    ("bytea", 17, -1, false, b'i', b'x'),
    ("char", 18, 1, true, b'c', b'p'),
    ("name", 19, 64, false, b'c', b'p'),
    ("int8", 20, 8, true, b'd', b'p'),
    ("int2", 21, 2, true, b's', b'p'),
    ("int2vector", 22, -1, false, b'i', b'p'),
    ("int4", 23, 4, true, b'i', b'p'),
    ("regproc", 24, 4, true, b'i', b'p'),
    ("text", 25, -1, false, b'i', b'x'),
    ("oid", 26, 4, true, b'i', b'p'),
    ("tid", 27, 6, false, b's', b'p'),
    ("xid", 28, 4, true, b'i', b'p'),
    ("cid", 29, 4, true, b'i', b'p'),
    ("oidvector", 30, -1, false, b'i', b'p'),
    ("pg_node_tree", 194, -1, false, b'i', b'x'),
    ("float4", 700, 4, true, b'i', b'p'),
    ("float8", 701, 8, true, b'd', b'p'),
    ("_text", 1009, -1, false, b'i', b'x'),
    ("_oid", 1028, -1, false, b'i', b'x'),
    ("_aclitem", 1034, -1, false, b'i', b'x'),
    ("bpchar", 1042, -1, false, b'i', b'x'),
    ("varchar", 1043, -1, false, b'i', b'x'),
    ("timestamp", 1114, 8, true, b'd', b'p'),
    ("timestamptz", 1184, 8, true, b'd', b'p'),
    ("internal", 2281, 8, true, b'd', b'p'),
    ("_record", 2287, -1, false, b'd', b'x'),
    ("_int2", 1005, -1, false, b'i', b'x'),
    ("_char", 1002, -1, false, b'i', b'x'),
    ("jsonb", 3802, -1, false, b'i', b'x'),
];

/// A catalog, by its columns, each a name and a type, and its rows, each the
/// values by the names of their columns.
fn table(
    oid: u32,
    name: &'static str,
    rowtype_oid: u32,
    columns: &'static str,
    rows: Vec<Vec<(&'static str, &'static str)>>,
) -> StaticCatalogTable {
    let columns: Vec<StaticCatalogColumn> = columns
        .split_whitespace()
        .enumerate()
        .map(|(i, column)| {
            let (name, column_type) = column.split_once(':').expect("a type");
            let known = TYPES
                .iter()
                .find(|known| {
                    known.0 == column_type || (column_type == "_pg_statistic" && known.0 == "_record")
                })
                .expect("a known type");
            StaticCatalogColumn {
                name,
                column_type,
                type_oid: Oid(known.1),
                attlen: known.2,
                attnum: i as i16 + 1,
                attndims: 0,
                attbyval: known.3,
                attalign: known.4,
                attstorage: known.5,
                attnotnull: i == 0,
                attcollation: Oid(if known.0 == "name" { 950 } else { 0 }),
            }
        })
        .collect();
    let rows = rows
        .into_iter()
        .enumerate()
        .map(|(i, values)| {
            let of = |name: &str| values.iter().find(|value| value.0 == name).map(|value| value.1);
            let row_id = of("oid")
                .and_then(|value| value.parse::<u64>().ok())
                .unwrap_or(((oid as u64) << 32) | (i as u64 + 1));
            let values = columns
                .iter()
                .map(|column| match of(column.name) {
                    Some(value) => StaticCatalogValue::Raw(value),
                    None => StaticCatalogValue::Null,
                })
                .collect();
            StaticCatalogRow { row_id, values: leak(values) }
        })
        .collect();
    StaticCatalogTable {
        oid: Oid(oid),
        name,
        rowtype_oid: Oid(rowtype_oid),
        columns: leak(columns),
        rows: leak(rows),
    }
}

fn type_record(oid: u32, name: &'static str, typtype: u8, typsubscript: u32) -> PgTypeRecord {
    let known = TYPES.iter().find(|known| known.1 == oid);
    PgTypeRecord {
        oid: Oid(oid),
        name,
        namespace: Oid(PG_CATALOG_NAMESPACE_OID),
        owner: Oid(10),
        typlen: known.map_or(-1, |known| known.2),
        typbyval: known.map_or(false, |known| known.3),
        typalign: known.map_or(b'i', |known| known.4),
        typdelim: b',',
        typinput: Oid(oid + 10_000),
        typoutput: Oid(oid + 20_000),
        typreceive: Oid(0),
        typsend: Oid(0),
        typmodin: Oid(0),
        typmodout: Oid(0),
        typisdefined: true,
        typtype,
        typcategory: b'U',
        typispreferred: false,
        typrelid: Oid(0),
        typelem: Oid(0),
        typarray: Oid(0),
        typbasetype: Oid(0),
        typtypmod: -1,
        typcollation: Oid(if oid == TEXT_OID { DEFAULT_COLLATION_OID } else { 0 }),
        typsubscript: Oid(typsubscript),
        typstorage: known.map_or(b'x', |known| known.5),
    }
}

fn proc_record(
    oid: u32,
    name: &'static str,
    return_type: u32,
    arg_types: Vec<Oid>,
    volatility: u8,
) -> PgProcRecord {
    PgProcRecord {
        oid: Oid(oid),
        name,
        namespace: Oid(PG_CATALOG_NAMESPACE_OID),
        owner: Oid(10),
        language: Oid(12),
        cost: 1,
        rows: 0,
        variadic: Oid(0),
        support: Oid(0),
        kind: b'f',
        security_definer: false,
        leakproof: false,
        strict: true,
        returns_set: false,
        volatility,
        parallel: b's',
        return_type: Oid(return_type),
        arg_types: leak(arg_types),
        arg_defaults: 0,
        source: name,
    }
}

fn operator_record(oid: u32, name: &'static str, code: u32) -> PgOperatorRecord {
    PgOperatorRecord {
        oid: Oid(oid),
        name,
        namespace: Oid(PG_CATALOG_NAMESPACE_OID),
        owner: Oid(10),
        kind: b'b',
        can_merge: false,
        can_hash: false,
        left_type: Oid(16),
        right_type: Oid(16),
        result_type: Oid(16),
        commutator: Oid(0),
        negator: Oid(0),
        code: Oid(code),
        rest: Oid(0),
        join: Oid(0),
    }
}

fn cast_record(oid: u32, source: u32, target: u32, function: u32, context: u8) -> PgCastRecord {
    PgCastRecord {
        oid: Oid(oid),
        source_type: Oid(source),
        target_type: Oid(target),
        function: Oid(function),
        context,
        method: if function == 0 { b'b' } else { b'f' },
    }
}

fn type_row(
    oid: &'static str,
    name: &'static str,
    typtype: &'static str,
    typsubscript: &'static str,
) -> Vec<(&'static str, &'static str)> {
    vec![
        ("oid", oid),
        ("typname", name),
        ("typnamespace", "11"),
        ("typowner", "10"),
        ("typlen", "4"),
        ("typbyval", "t"),
        ("typtype", typtype),
        ("typcategory", if typtype == "c" { "C" } else { "N" }),
        ("typispreferred", "f"),
        ("typisdefined", "t"),
        ("typdelim", ","),
        ("typrelid", "0"),
        ("typsubscript", typsubscript),
        ("typelem", "0"),
        ("typarray", "0"),
        ("typinput", "42"),
        ("typoutput", "43"),
        ("typreceive", "2406"),
        ("typsend", "2407"),
        ("typmodin", "0"),
        ("typmodout", "0"),
        ("typanalyze", "0"),
        ("typalign", "i"),
        ("typstorage", "p"),
        ("typnotnull", "f"),
        ("typbasetype", "0"),
        ("typtypmod", "-1"),
        ("typndims", "0"),
        ("typcollation", "0"),
    ]
}

fn class(
    oid: &'static str,
    method: &'static str,
    type_oid: &'static str,
) -> Vec<(&'static str, &'static str)> {
    vec![("oid", oid), ("opcmethod", method), ("opcintype", type_oid), ("opcdefault", "t")]
}

/// The roles that there are from the start.
const ROLES: [[(&str, &str); 5]; 2] = [
    [
        ("oid", "10"),
        ("rolname", "POSTGRES"),
        ("rolsuper", "t"),
        ("rolcanlogin", "t"),
        ("rolconnlimit", "-1"),
    ],
    [
        ("oid", "6171"),
        ("rolname", "pg_database_owner"),
        ("rolsuper", "f"),
        ("rolcanlogin", "f"),
        ("rolconnlimit", "-1"),
    ],
];

/// The views behind the catalogs.
fn system_views() -> Vec<StaticCatalogTable> {
    let authid = BkiTable {
        name: "pg_authid".to_owned(),
        oid: 1260,
        rowtype_oid: 2842,
        columns: ROLES[0]
            .iter()
            .map(|(name, _)| BkiColumn { name: name.to_string(), column_type: String::new() })
            .collect(),
        rows: ROLES
            .iter()
            .map(|role| role.iter().map(|(_, value)| Some(value.to_string())).collect())
            .collect(),
    };
    with_system_views(vec![authid])
        .into_iter()
        .skip(1)
        .map(|view| {
            let keep = |text: &str| -> &'static str { Box::leak(text.to_owned().into_boxed_str()) };
            let columns: Vec<String> = view
                .columns
                .iter()
                .map(|column| format!("{}:{}", column.name, column.column_type))
                .collect();
            let rows = view
                .rows
                .iter()
                .map(|row| {
                    view.columns
                        .iter()
                        .zip(row)
                        .filter_map(|(column, value)| {
                            value.as_ref().map(|value| (keep(&column.name), keep(value)))
                        })
                        .collect()
                })
                .collect();
            table(view.oid, keep(&view.name), view.rowtype_oid, keep(&columns.join(" ")), rows)
        })
        .collect()
}

/// Some of the catalogs that are compiled in, with some of their rows.
fn generated() -> GeneratedCatalog {
    let tables = vec![
        table(
            1247,
            "pg_type",
            71,
            "oid:oid typname:name typnamespace:oid typowner:oid typlen:int2 typbyval:bool \
             typtype:char typcategory:char typispreferred:bool typisdefined:bool typdelim:char \
             typrelid:oid typsubscript:regproc typelem:oid typarray:oid typinput:regproc \
             typoutput:regproc typreceive:regproc typsend:regproc typmodin:regproc \
             typmodout:regproc typanalyze:regproc typalign:char typstorage:char typnotnull:bool \
             typbasetype:oid typtypmod:int4 typndims:int4 typcollation:oid \
             typdefaultbin:pg_node_tree typdefault:text typacl:_aclitem",
            vec![
                type_row("23", "int4", "b", "0"),
                type_row("19", "name", "b", "0"),
                type_row("1043", "varchar", "b", "0"),
                type_row("1184", "timestamptz", "b", "0"),
                type_row("1007", "_int4", "b", "6179"),
                type_row("600", "point", "b", "0"),
                type_row("3904", "int4range", "r", "0"),
                type_row("3906", "numrange", "r", "0"),
                type_row("4451", "int4multirange", "m", "0"),
                type_row("81", "pg_proc", "c", "0"),
            ],
        ),
        table(
            1249,
            "pg_attribute",
            75,
            "attrelid:oid attname:name atttypid:oid attstattarget:int2 attlen:int2 attnum:int2 \
             attndims:int4 attcacheoff:int4 atttypmod:int4 attbyval:bool attalign:char \
             attstorage:char attcompression:char attnotnull:bool atthasdef:bool \
             atthasmissing:bool attidentity:char attgenerated:char attisdropped:bool \
             attislocal:bool attinhcount:int2 attcollation:oid attacl:_aclitem attoptions:_text \
             attfdwoptions:_text attmissingval:_text",
            vec![vec![
                ("attrelid", "1259"),
                ("attname", "oid"),
                ("atttypid", "26"),
                ("attlen", "4"),
                ("attnum", "1"),
                ("atttypmod", "-1"),
                ("attbyval", "t"),
                ("attalign", "i"),
                ("attstorage", "p"),
                ("attnotnull", "t"),
                ("attisdropped", "f"),
            ]],
        ),
        table(
            1255,
            "pg_proc",
            81,
            "oid:oid proname:name pronamespace:oid proowner:oid prolang:oid procost:float4 \
             prorows:float4 provariadic:oid prosupport:regproc prokind:char prosecdef:bool \
             proleakproof:bool proisstrict:bool proretset:bool provolatile:char \
             proparallel:char pronargs:int2 pronargdefaults:int2 prorettype:oid \
             proargtypes:oidvector proallargtypes:_oid proargmodes:_char proargnames:_text \
             proargdefaults:pg_node_tree protrftypes:_oid prosrc:text probin:text \
             prosqlbody:pg_node_tree proconfig:_text proacl:_aclitem",
            vec![
                vec![
                    ("oid", "1268"),
                    ("proname", "parse_ident"),
                    ("pronamespace", "11"),
                    ("procost", "1"),
                    ("pronargs", "2"),
                    ("pronargdefaults", "0"),
                    ("proargtypes", "25 16"),
                    ("proargdefaults", "{true}"),
                ],
                vec![
                    ("oid", "4005"),
                    ("proname", "jsonb_path_exists"),
                    ("pronamespace", "11"),
                    ("procost", "1"),
                    ("pronargs", "4"),
                    ("pronargdefaults", "0"),
                    ("proargtypes", "3802 4072 3802 16"),
                    ("proargdefaults", "{\"{}\",false}"),
                ],
            ],
        ),
        table(
            1259,
            "pg_class",
            83,
            "oid:oid relname:name relnamespace:oid reltype:oid reloftype:oid relowner:oid \
             relam:oid relfilenode:oid reltablespace:oid relpages:int4 reltuples:float4 \
             relallvisible:int4 relallfrozen:int4 reltoastrelid:oid relhasindex:bool \
             relisshared:bool relpersistence:char relkind:char relnatts:int2 relchecks:int2 \
             relhasrules:bool relhastriggers:bool relhassubclass:bool relrowsecurity:bool \
             relforcerowsecurity:bool relispopulated:bool relreplident:char relispartition:bool \
             relrewrite:oid relfrozenxid:xid relminmxid:xid relacl:_aclitem reloptions:_text \
             relpartbound:pg_node_tree",
            vec![vec![
                ("oid", "1259"),
                ("relname", "pg_class"),
                ("relnamespace", "11"),
                ("reltype", "83"),
                ("relowner", "10"),
                ("relkind", "r"),
                ("relnatts", "34"),
                ("relhasindex", "f"),
            ]],
        ),
        table(
            1262,
            "pg_database",
            1248,
            "oid:oid datname:name datdba:oid encoding:int4 datlocprovider:char \
             datistemplate:bool datallowconn:bool dathasloginevt:bool datconnlimit:int4 \
             datfrozenxid:xid datminmxid:xid dattablespace:oid datcollate:text datctype:text \
             datlocale:text daticurules:text datcollversion:text datacl:_aclitem",
            vec![vec![
                ("oid", "1"),
                ("datname", "template1"),
                ("datdba", "10"),
                ("encoding", "6"),
                ("datistemplate", "t"),
                ("datallowconn", "t"),
            ]],
        ),
        table(
            2600,
            "pg_aggregate",
            0,
            "aggfnoid:regproc aggkind:char aggnumdirectargs:int2",
            vec![],
        ),
        table(
            2601,
            "pg_am",
            0,
            "oid:oid amname:name amhandler:regproc amtype:char",
            vec![
                vec![("oid", "403"), ("amname", "btree"), ("amtype", "i")],
                vec![("oid", "405"), ("amname", "hash"), ("amtype", "i")],
            ],
        ),
        table(
            2606,
            "pg_constraint",
            0,
            "oid:oid conname:name connamespace:oid contype:char condeferrable:bool \
             condeferred:bool convalidated:bool conrelid:oid contypid:oid conindid:oid \
             conparentid:oid confrelid:oid conkey:_int2 confkey:_int2",
            vec![],
        ),
        table(
            2609,
            "pg_description",
            0,
            "objoid:oid classoid:oid objsubid:int4 description:text",
            vec![
                vec![
                    ("objoid", "58"),
                    ("classoid", "2617"),
                    ("objsubid", "0"),
                    ("description", "less than"),
                ],
                vec![
                    ("objoid", "59"),
                    ("classoid", "2617"),
                    ("objsubid", "0"),
                    ("description", "overlaps"),
                ],
                vec![
                    ("objoid", "61"),
                    ("classoid", "2617"),
                    ("objsubid", "0"),
                    ("description", "is above"),
                ],
                vec![
                    ("objoid", "62"),
                    ("classoid", "2617"),
                    ("objsubid", "0"),
                    ("description", "text search match"),
                ],
            ],
        ),
        table(
            2610,
            "pg_index",
            0,
            "indexrelid:oid indrelid:oid indnatts:int2 indnkeyatts:int2 indisunique:bool \
             indnullsnotdistinct:bool indisprimary:bool indisexclusion:bool indimmediate:bool \
             indisclustered:bool indisvalid:bool indcheckxmin:bool indisready:bool \
             indislive:bool indisreplident:bool indkey:int2vector indcollation:oidvector \
             indclass:oidvector indoption:int2vector indexprs:pg_node_tree \
             indpred:pg_node_tree",
            vec![],
        ),
        table(
            2611,
            "pg_inherits",
            0,
            "inhrelid:oid inhparent:oid inhseqno:int4 inhdetachpending:bool",
            vec![],
        ),
        table(
            2615,
            "pg_namespace",
            0,
            "oid:oid nspname:name nspowner:oid nspacl:_aclitem",
            vec![
                vec![("oid", "11"), ("nspname", "pg_catalog"), ("nspowner", "10")],
                vec![("oid", "2200"), ("nspname", "public"), ("nspowner", "10")],
            ],
        ),
        table(
            2616,
            "pg_opclass",
            0,
            "oid:oid opcmethod:oid opcname:name opcnamespace:oid opcowner:oid opcfamily:oid \
             opcintype:oid opcdefault:bool opckeytype:oid",
            vec![
                class("1978", "403", "23"),
                class("1981", "403", "26"),
                class("1986", "403", "19"),
                class("1979", "403", "21"),
                class("1977", "405", "23"),
                class("3126", "403", "25"),
                class("1995", "405", "25"),
                class("10001", "403", "2277"),
                class("10002", "403", "3831"),
                class("10003", "405", "3831"),
                class("10004", "783", "3831"),
                class("10005", "4000", "3831"),
                class("10006", "783", "4537"),
            ],
        ),
        table(
            2617,
            "pg_operator",
            0,
            "oid:oid oprname:name oprnamespace:oid oprowner:oid oprkind:char oprcode:regproc",
            vec![],
        ),
        table(
            3394,
            "pg_init_privs",
            0,
            "objoid:oid classoid:oid objsubid:int4 privtype:char initprivs:_aclitem",
            vec![],
        ),
        table(
            3429,
            "pg_statistic_ext_data",
            0,
            "stxoid:oid stxdinherit:bool stxdexpr:_pg_statistic",
            vec![],
        ),
        table(
            3501,
            "pg_enum",
            0,
            "oid:oid enumtypid:oid enumsortorder:float4 enumlabel:name",
            vec![
                vec![("oid", "71"), ("enumtypid", "70"), ("enumsortorder", "2")],
                vec![("oid", "72"), ("enumtypid", "70"), ("enumsortorder", "1")],
            ],
        ),
        table(
            3600,
            "pg_ts_dict",
            0,
            "oid:oid dictname:name dictnamespace:oid dictowner:oid dicttemplate:oid \
             dictinitoption:text",
            vec![],
        ),
        table(
            3602,
            "pg_ts_config",
            0,
            "oid:oid cfgname:name cfgnamespace:oid cfgowner:oid cfgparser:oid",
            vec![],
        ),
        table(
            3603,
            "pg_ts_config_map",
            0,
            "mapcfg:oid maptokentype:int4 mapseqno:int4 mapdict:oid",
            vec![],
        ),
        table(
            3764,
            "pg_ts_template",
            0,
            "oid:oid tmplname:name tmplnamespace:oid tmplinit:regproc tmpllexize:regproc",
            vec![],
        ),
        table(
            2224,
            "pg_sequence",
            0,
            "seqrelid:oid seqtypid:oid",
            vec![],
        ),
        table(
            1213,
            "pg_tablespace",
            0,
            "oid:oid spcname:name spcowner:oid",
            vec![
                vec![("oid", "1663"), ("spcname", "pg_default"), ("spcowner", "10")],
                vec![("oid", "1664"), ("spcname", "pg_global"), ("spcowner", "10")],
            ],
        ),
        table(
            1260,
            "pg_authid",
            2842,
            "oid:oid rolname:name rolsuper:bool rolcanlogin:bool rolconnlimit:int4 \
             rolpassword:text",
            ROLES.iter().map(|role| role.to_vec()).collect(),
        ),
        table(1261, "pg_auth_members", 2843, "oid:oid roleid:oid member:oid", vec![]),
        table(2602, "pg_amop", 0, "oid:oid amopfamily:oid", vec![]),
        table(2603, "pg_amproc", 0, "oid:oid amprocfamily:oid", vec![]),
        table(2605, "pg_cast", 0, "oid:oid castsource:oid casttarget:oid", vec![]),
        table(2618, "pg_rewrite", 0, "oid:oid rulename:name", vec![]),
        table(2619, "pg_statistic", 0, "starelid:oid staattnum:int2", vec![]),
        table(2753, "pg_opfamily", 0, "oid:oid opfmethod:oid", vec![]),
        table(3381, "pg_statistic_ext", 0, "oid:oid stxrelid:oid", vec![]),
        table(6243, "pg_parameter_acl", 0, "oid:oid parname:text", vec![]),
    ];
    let mut tables = tables;
    tables.extend(system_views());
    let tables = leak(tables);
    let mut types: Vec<PgTypeRecord> = TYPES
        .iter()
        .map(|known| type_record(known.1, known.0, b'b', 0))
        .collect();
    types.push(type_record(1007, "_int4", b'b', 6179));
    types.push(type_record(600, "point", b'b', 0));
    types.push(type_record(3904, "int4range", b'r', 0));
    types.push(type_record(3906, "numrange", b'r', 0));
    types.push(type_record(4451, "int4multirange", b'm', 0));
    types.push(type_record(83, "pg_class", b'c', 0));
    let procs = vec![
        proc_record(2027, "timestamp", TIMESTAMP_OID, vec![Oid(TIMESTAMPTZ_OID)], b's'),
        proc_record(1067, "generate_series", INT4_OID, vec![Oid(INT4_OID), Oid(INT4_OID)], b'i'),
        proc_record(56, "boollt", 16, vec![Oid(16), Oid(16)], b'i'),
        proc_record(125, "box_overlap", 16, vec![Oid(603), Oid(603)], b'i'),
        proc_record(131, "box_above", 16, vec![Oid(603), Oid(603)], b'i'),
        proc_record(3634, "ts_match_vq", 16, vec![Oid(3614), Oid(3615)], b'i'),
    ];
    GeneratedCatalog {
        tables,
        virtual_catalogs: leak(virtual_catalog_records(tables)),
        types: leak(types),
        procs: leak(procs),
        aggregates: leak(vec![PgAggregateRecord {
            function_oid: Oid(2100),
            kind: b'n',
            direct_arg_count: 0,
            transition_fn: Oid(1),
            final_fn: Oid(2),
            combine_fn: Oid(0),
            serial_fn: Oid(0),
            deserial_fn: Oid(0),
            moving_transition_fn: Oid(0),
            moving_inverse_fn: Oid(0),
            moving_final_fn: Oid(0),
            final_extra: false,
            moving_final_extra: false,
            final_modify: b'r',
            moving_final_modify: b'r',
            sort_operator: Oid(0),
            transition_type: Oid(2281),
            transition_space: 0,
            moving_transition_type: Oid(0),
            moving_transition_space: 0,
            init_value: Some("{0,0}"),
            moving_init_value: None,
        }]),
        operators: leak(vec![
            operator_record(58, "<", 56),
            operator_record(59, "&&", 125),
            operator_record(61, "|>>", 131),
            operator_record(62, "@@", 3634),
        ]),
        casts: leak(vec![
            cast_record(1, TIMESTAMPTZ_OID, TIMESTAMP_OID, 2027, b'a'),
            cast_record(2, INT4_OID, OID_OID, 0, b'i'),
        ]),
        namespaces: leak(vec![
            PgNamespaceRecord { oid: Oid(11), name: "pg_catalog", owner: Oid(10) },
            PgNamespaceRecord { oid: Oid(2200), name: "public", owner: Oid(10) },
        ]),
        floats: readings(),
        little_endian: cfg_little_endian(),
    }
}

fn cfg_little_endian() -> bool {
    1u16.to_ne_bytes()[0] == 1
}

fn readings() -> FloatReadings {
    let texts = ["0", "1", "2", "-1", "1.5"];
    FloatReadings {
        single: texts
            .iter()
            .map(|s| (s.to_string(), s.parse::<f32>().unwrap().to_bits()))
            .collect(),
        double: texts
            .iter()
            .map(|s| (s.to_string(), s.parse::<f64>().unwrap().to_bits()))
            .collect(),
    }
}

/// The catalogs of a server, and a session.
struct World {
    generated: GeneratedCatalog,
    state: CatalogState,
    session: CatalogSession,
    cache: CatalogLookupCache,
    primary_keys: PrimaryKeyIndexOidCache,
}

impl World {
    fn new() -> World {
        let generated = generated();
        let state = CatalogState::new(&generated);
        World {
            generated,
            state,
            session: new_catalog_session(),
            cache: CatalogLookupCache::new(1),
            primary_keys: PrimaryKeyIndexOidCache::new(1),
        }
    }

    fn table(&self, name: &str) -> &'static StaticCatalogTable {
        static_catalog_by_name(&self.generated, name).expect("catalog table")
    }

    fn seen(&mut self) -> &CatalogSnapshot {
        refresh_visible_snapshot(&self.generated, &self.state, &mut self.session);
        visible_snapshot(&self.generated, &self.state, &self.session)
    }

    fn rows(&mut self, oid: u32) -> Vec<CatalogRow> {
        self.seen();
        catalog_rows(
            &self.generated,
            visible_snapshot(&self.generated, &self.state, &self.session),
            Oid(oid),
        )
    }

    fn filtered(&mut self, oid: Oid, filters: &[CatalogRowFilter]) -> Vec<CatalogRow> {
        self.seen();
        catalog_rows_matching_filters(
            &self.generated,
            visible_snapshot(&self.generated, &self.state, &self.session),
            oid,
            filters,
        )
    }

    fn put(&mut self, table_name: &str, row_id: u64, values: &[(&str, &str)]) -> u64 {
        let table = self.table(table_name);
        let row = table
            .columns
            .iter()
            .map(|column| {
                values
                    .iter()
                    .find(|value| value.0 == column.name)
                    .map(|value| value.1.to_owned())
            })
            .collect::<Vec<_>>();
        upsert_catalog_row(
            &self.generated,
            &readings(),
            &mut self.state,
            &mut self.session,
            table.oid,
            row_id,
            &row,
        )
        .expect("upsert catalog row")
    }

    fn commit(&mut self) {
        commit_implicit_transaction(&self.generated, &mut self.state, &mut self.session);
    }

    fn attnum(&self, table: &str, column: &str) -> i16 {
        self.table(table)
            .columns
            .iter()
            .position(|candidate| candidate.name == column)
            .map(|i| i as i16 + 1)
            .expect("a column")
    }

    fn oid(&self, table: &str, row: &CatalogRow, column: &str) -> Option<Oid> {
        catalog_row_value(self.table(table), row, column)
            .and_then(|value| catalog_value_oid(&self.generated, value))
    }

    fn text(&self, table: &str, row: &CatalogRow, column: &str) -> Option<String> {
        catalog_row_value(self.table(table), row, column).and_then(catalog_value_string)
    }

    fn is_relation(&mut self, oid: Oid) -> bool {
        self.seen();
        relation_oid_exists(
            &self.generated,
            visible_snapshot(&self.generated, &self.state, &self.session),
            oid,
        )
    }
}

/// What a session of a world sees.
fn view(world: &World) -> &CatalogSnapshot {
    visible_snapshot(&world.generated, &world.state, &world.session)
}

fn value_name(value: Option<&CatalogValue>) -> Option<&str> {
    match value {
        Some(CatalogValue::Name(value)) => Some(value),
        _ => None,
    }
}

fn value_i16(value: Option<&CatalogValue>) -> Option<i16> {
    match value {
        Some(CatalogValue::Int16(value)) => Some(*value),
        _ => None,
    }
}

fn check_scalar_types() {
    let world = World::new();
    for oid in [
        INT4_OID,
        INT8_OID,
        TEXT_OID,
        TID_OID,
        XID_OID,
        CID_OID,
        BPCHAR_OID,
        VARCHAR_OID,
        TIMESTAMP_OID,
        TIMESTAMPTZ_OID,
    ] {
        let record = lookup_builtin_type(&world.generated, Oid(oid)).expect("builtin type");
        assert_eq!(record.oid, Oid(oid));
        assert!(record.typisdefined);
        assert_ne!(record.typinput, Oid(INVALID_OID));
        assert_ne!(record.typoutput, Oid(INVALID_OID));
    }
}

#[test]
fn lib_has_pgbench_scalar_types() {
    check_scalar_types();
}

#[test]
fn tests_has_pgbench_scalar_types() {
    check_scalar_types();
}

fn check_type_names() {
    let world = World::new();
    let catalog = Oid(PG_CATALOG_NAMESPACE_OID);
    assert_eq!(
        builtin_type_by_name(&world.generated, "int4", catalog).expect("int4").oid,
        Oid(INT4_OID)
    );
    assert_eq!(
        builtin_type_by_name(&world.generated, "integer", catalog).expect("integer alias").oid,
        Oid(INT4_OID)
    );
    assert_eq!(
        builtin_type_by_name(&world.generated, "timestamp with time zone", catalog)
            .expect("timestamptz alias")
            .oid,
        Oid(TIMESTAMPTZ_OID)
    );
    assert!(
        builtin_type_by_name(&world.generated, "int4", Oid(PUBLIC_NAMESPACE_OID)).is_none()
    );
}

#[test]
fn lib_resolves_builtin_types_by_catalog_name() {
    check_type_names();
}

#[test]
fn tests_resolves_builtin_types_by_catalog_name() {
    check_type_names();
}

fn check_timestamp_casts() {
    let world = World::new();
    let cast = builtin_cast_by_source_target(
        &world.generated,
        Oid(TIMESTAMPTZ_OID),
        Oid(TIMESTAMP_OID),
    )
    .expect("timestamptz to timestamp cast");
    assert_eq!(cast.function, Oid(2027));
    assert_eq!(cast.context, b'a');
    assert_eq!(cast.method, b'f');

    let proc = builtin_proc_by_oid(&world.generated, cast.function).expect("cast function proc");
    assert_eq!(proc.return_type, Oid(TIMESTAMP_OID));
    assert_eq!(proc.arg_types, [Oid(TIMESTAMPTZ_OID)]);
    assert_eq!(proc.volatility, b's');
}

#[test]
fn lib_has_timestamp_assignment_casts() {
    check_timestamp_casts();
}

#[test]
fn tests_has_timestamp_assignment_casts() {
    check_timestamp_casts();
}

fn check_core_rows(world: &mut World) {
    for name in ["pg_type", "pg_proc", "pg_am", "pg_opclass"] {
        assert!(static_catalog_by_name(&world.generated, name).is_some());
    }
    assert_eq!(
        builtin_type_by_name(&world.generated, "float8", Oid(PG_CATALOG_NAMESPACE_OID))
            .expect("float8")
            .oid,
        Oid(FLOAT8_OID)
    );
    assert!(builtin_procs_by_name(&world.generated, "generate_series").len() > 0);
    let am = world.table("pg_am");
    let rows = world.rows(2601);
    for name in ["btree", "hash"] {
        assert!(rows
            .iter()
            .any(|row| value_name(catalog_row_value(am, row, "amname")) == Some(name)));
    }
    world.seen();
    assert!(btree_opclass_for_type(&world.generated, view(world), Oid(INT4_OID)).is_some());
    assert!(
        builtin_cast_by_source_target(&world.generated, Oid(INT4_OID), Oid(OID_OID)).is_some()
    );
}

#[test]
fn lib_generated_static_catalog_has_core_rows() {
    check_core_rows(&mut World::new());
}

#[test]
fn tests_generated_static_catalog_has_core_rows() {
    let mut world = World::new();
    check_core_rows(&mut world);
    let class = |method: u32, type_oid: u32| {
        default_opclass_for_type(&world.generated, view(&world), Oid(method), Oid(type_oid))
    };
    assert!(class(403, INT4_OID).is_some());
    assert!(class(405, INT4_OID).is_some());
    assert!(class(403, VARCHAR_OID).is_some());
    assert!(class(405, VARCHAR_OID).is_some());
    assert!(class(403, INT4_ARRAY_OID).is_some());
    assert!(class(403, 3906).is_some());
    assert!(class(405, 3906).is_some());
    assert!(class(783, 3904).is_some());
    assert!(class(4000, 3904).is_some());
    assert!(class(783, 4451).is_some());
    assert!(class(403, 600).is_none());
}

#[test]
fn catalog_rowtype_array_columns_use_record_array_type() {
    let tables = parse_bki(
        "create pg_type 1247 bootstrap rowtype_oid 71\n(\n oid = oid ,\n typname = name\n)\n\
         insert ( 26 oid )\nclose pg_type\n\
         create pg_statistic 2619\n(\n starelid = oid\n)\nclose pg_statistic\n\
         create pg_statistic_ext_data 3429\n(\n stxoid = oid ,\n stxdexpr = _pg_statistic\n)\n\
         close pg_statistic_ext_data\n",
    )
    .expect("catalogs");
    let pg_type = find_table(&tables, "pg_type").expect("pg_type");
    let table = find_table(&tables, "pg_statistic_ext_data").expect("pg_statistic_ext_data");
    let column = table
        .columns
        .iter()
        .find(|column| column.name == "stxdexpr")
        .expect("stxdexpr column");
    let column = static_catalog_column(
        &tables,
        pg_type,
        &vec![],
        table,
        column,
        "stxdexpr",
        "_pg_statistic",
    );

    assert_eq!(column.column_type, "_pg_statistic");
    assert_eq!(column.type_oid, Oid(2287));
}

#[test]
fn static_virtual_catalog_rowtypes_are_lookupable() {
    let mut world = World::new();
    let pg_operator = world.table("pg_operator");
    assert_eq!(pg_operator.rowtype_oid, Oid(INVALID_OID));

    let rowtype_oid =
        static_catalog_rowtype_oid(&world.generated, pg_operator.oid).expect("rowtype oid");
    assert_ne!(rowtype_oid, Oid(INVALID_OID));

    world.seen();
    let rowtype = lookup_type(&world.generated, view(&world), rowtype_oid)
        .expect("synthetic catalog rowtype");
    assert_eq!(rowtype.oid, rowtype_oid);
    assert_eq!(rowtype.name, "pg_operator");
    assert_eq!(rowtype.namespace, Oid(PG_CATALOG_NAMESPACE_OID));
    assert_eq!(rowtype.typtype, b'c');
    assert_eq!(rowtype.typcategory, b'C');
    assert_eq!(rowtype.typrelid, pg_operator.oid);

    let by_name = type_by_name(
        &world.generated,
        view(&world),
        "pg_operator",
        Oid(PG_CATALOG_NAMESPACE_OID),
    )
    .expect("rowtype by name");
    assert_eq!(by_name, rowtype);
}

#[test]
fn pg_init_privs_exposes_bootstrap_schema_privileges() {
    let mut world = World::new();
    let table = world.table("pg_init_privs");
    let rows = world.rows(table.oid.0);
    let row = rows
        .iter()
        .find(|row| {
            world.oid("pg_init_privs", row, "objoid") == Some(Oid(PG_CATALOG_NAMESPACE_OID))
        })
        .expect("pg_catalog init privs row");

    assert_eq!(
        world.oid("pg_init_privs", row, "classoid"),
        Some(Oid(PG_NAMESPACE_RELATION_OID))
    );
    assert_eq!(
        catalog_row_value(table, row, "privtype").and_then(catalog_value_u8),
        Some(b'i')
    );
    assert!(world
        .text("pg_init_privs", row, "initprivs")
        .is_some_and(|initprivs| initprivs.contains("=U/postgres")));
}

#[test]
fn text_search_catalog_exposes_initdb_english_config() {
    let mut world = World::new();
    let config_row = world
        .rows(PG_TS_CONFIG_RELATION_OID)
        .into_iter()
        .find(|row| world.text("pg_ts_config", row, "cfgname") == Some("english".to_owned()))
        .expect("english text search config");

    assert_eq!(
        world.oid("pg_ts_config", &config_row, "oid"),
        Some(Oid(ENGLISH_TS_CONFIG_OID))
    );
    assert_eq!(
        world.oid("pg_ts_config", &config_row, "cfgparser"),
        Some(Oid(DEFAULT_TS_PARSER_OID))
    );

    let snowball_template_row = world
        .rows(PG_TS_TEMPLATE_RELATION_OID)
        .into_iter()
        .find(|row| {
            world.oid("pg_ts_template", row, "oid") == Some(Oid(SNOWBALL_TS_TEMPLATE_OID))
        })
        .expect("snowball text search template");
    assert_eq!(
        world.oid("pg_ts_template", &snowball_template_row, "tmplinit"),
        Some(Oid(DSNOWBALL_INIT_PROC_OID))
    );
    assert_eq!(
        world.oid("pg_ts_template", &snowball_template_row, "tmpllexize"),
        Some(Oid(DSNOWBALL_LEXIZE_PROC_OID))
    );

    let proc_table = world.table("pg_proc");
    let proc_rows = world.rows(PG_PROC_RELATION_OID);
    assert!(proc_rows.iter().any(|row| {
        world.oid("pg_proc", row, "oid") == Some(Oid(DSNOWBALL_INIT_PROC_OID))
            && world.text("pg_proc", row, "probin") == Some("$libdir/dict_snowball".to_owned())
    }));
    assert!(proc_rows.iter().any(|row| {
        let arg_types = catalog_row_value(proc_table, row, "proargtypes");
        world.oid("pg_proc", row, "oid") == Some(Oid(DSNOWBALL_LEXIZE_PROC_OID))
            && matches!(
                arg_types,
                Some(CatalogValue::OidVector(values))
                    if values == &vec![Oid(INTERNAL_OID); 4]
            )
    }));

    let map_table = world.table("pg_ts_config_map");
    let english_map_rows = world
        .rows(PG_TS_CONFIG_MAP_RELATION_OID)
        .into_iter()
        .filter(|row| {
            world.oid("pg_ts_config_map", row, "mapcfg") == Some(Oid(ENGLISH_TS_CONFIG_OID))
        })
        .collect::<Vec<_>>();

    assert_eq!(english_map_rows.len(), 19);
    let token_type =
        |row: &CatalogRow| catalog_row_value(map_table, row, "maptokentype").and_then(catalog_value_i32);
    let token_types = english_map_rows
        .iter()
        .map(token_type)
        .collect::<Option<Vec<_>>>()
        .expect("map token types");
    let mut sorted_token_types = token_types.clone();
    sorted_token_types.sort();
    assert_eq!(token_types, sorted_token_types);
    assert!(english_map_rows.iter().any(|row| {
        token_type(row) == Some(1)
            && world.oid("pg_ts_config_map", row, "mapdict") == Some(Oid(ENGLISH_TS_DICT_OID))
    }));
    assert!(english_map_rows.iter().any(|row| {
        token_type(row) == Some(3)
            && world.oid("pg_ts_config_map", row, "mapdict") == Some(Oid(SIMPLE_TS_DICT_OID))
    }));
}

fn proc_named(world: &mut World, name: &str) -> CatalogRow {
    let table = world.table("pg_proc");
    world
        .rows(PG_PROC_RELATION_OID)
        .into_iter()
        .find(|row| value_name(catalog_row_value(table, row, "proname")) == Some(name))
        .expect("a proc row")
}

fn check_proc_defaults() {
    let mut world = World::new();
    let table = world.table("pg_proc");
    let row = proc_named(&mut world, "parse_ident");
    assert_eq!(
        value_i16(catalog_row_value(table, &row, "pronargdefaults")),
        Some(1)
    );
    let defaults = world.text("pg_proc", &row, "proargdefaults").expect("proargdefaults");
    assert!(defaults.starts_with("({CONST :consttype 16"));
    assert!(defaults.contains(":constvalue 1 [ 1 0 0 0 0 0 0 0 ]"));
}

#[test]
fn lib_pg_proc_bootstrap_defaults_are_normalized() {
    check_proc_defaults();
}

#[test]
fn tests_pg_proc_bootstrap_defaults_are_normalized() {
    check_proc_defaults();
}

#[test]
fn pg_proc_bootstrap_default_count_is_normalized_for_unhandled_nodes() {
    let mut world = World::new();
    let table = world.table("pg_proc");
    let row = proc_named(&mut world, "jsonb_path_exists");
    assert_eq!(
        value_i16(catalog_row_value(table, &row, "pronargdefaults")),
        Some(2)
    );
    let defaults = world.text("pg_proc", &row, "proargdefaults").expect("proargdefaults");
    assert!(defaults.starts_with("({CONST :consttype 3802"));
    assert!(defaults.contains(":constvalue 8 [ 32 0 0 0 0 0 0 32 ]"));
    assert!(defaults.contains("{CONST :consttype 16"));
    assert!(defaults.contains(":constvalue 1 [ 0 0 0 0 0 0 0 0 ]"));
}

fn check_ensured_database() {
    let mut world = World::new();
    clear_for_tests(&world.generated, &mut world.state);
    abort_implicit_transaction(&mut world.session);
    let oid = ensure_database(
        &world.generated,
        &mut world.state,
        &mut world.session,
        "regression",
    );
    let table = world.table("pg_database");
    let row = world
        .rows(PG_DATABASE_RELATION_OID)
        .into_iter()
        .find(|row| {
            catalog_row_value(table, row, "datname")
                == Some(&CatalogValue::Name("regression".to_owned()))
        })
        .expect("regression database row");

    assert_eq!(world.oid("pg_database", &row, "oid"), Some(oid));
    assert_eq!(row.row_id, u64::from(oid.0));
}

#[test]
fn lib_ensure_database_adds_synthetic_pg_database_row() {
    check_ensured_database();
}

#[test]
fn tests_ensure_database_adds_synthetic_pg_database_row() {
    check_ensured_database();
}

fn check_policies(required: &[(&str, VirtualCatalogPolicy)]) {
    let world = World::new();
    for (name, policy) in required {
        let record = virtual_catalogs(&world.generated)
            .iter()
            .find(|record| record.name == *name)
            .unwrap_or_else(|| panic!("{name} should have virtual catalog policy"));
        assert_eq!(record.policy, *policy, "{name}");
    }
}

#[test]
fn lib_classifies_pgbench_critical_virtual_catalogs() {
    check_policies(&[
        ("pg_type", VirtualCatalogPolicy::Dynamic),
        ("pg_proc", VirtualCatalogPolicy::Dynamic),
        ("pg_operator", VirtualCatalogPolicy::Dynamic),
        ("pg_aggregate", VirtualCatalogPolicy::Static),
        ("pg_namespace", VirtualCatalogPolicy::Static),
        ("pg_cast", VirtualCatalogPolicy::Dynamic),
        ("pg_class", VirtualCatalogPolicy::Dynamic),
        ("pg_attribute", VirtualCatalogPolicy::Dynamic),
        ("pg_index", VirtualCatalogPolicy::Dynamic),
        ("pg_constraint", VirtualCatalogPolicy::Dynamic),
        ("pg_am", VirtualCatalogPolicy::Static),
        ("pg_opclass", VirtualCatalogPolicy::Dynamic),
        ("pg_opfamily", VirtualCatalogPolicy::Dynamic),
        ("pg_amop", VirtualCatalogPolicy::Dynamic),
        ("pg_amproc", VirtualCatalogPolicy::Dynamic),
        ("pg_rewrite", VirtualCatalogPolicy::Dynamic),
        ("pg_statistic", VirtualCatalogPolicy::Static),
        ("pg_statistic_ext", VirtualCatalogPolicy::Static),
        ("pg_statistic_ext_data", VirtualCatalogPolicy::Static),
        ("pg_authid", VirtualCatalogPolicy::Static),
        ("pg_auth_members", VirtualCatalogPolicy::Static),
        ("pg_parameter_acl", VirtualCatalogPolicy::Static),
    ]);
}

#[test]
fn tests_classifies_pgbench_critical_virtual_catalogs() {
    check_policies(&[
        ("pg_type", VirtualCatalogPolicy::Dynamic),
        ("pg_proc", VirtualCatalogPolicy::Dynamic),
        ("pg_operator", VirtualCatalogPolicy::Dynamic),
        ("pg_aggregate", VirtualCatalogPolicy::Static),
        ("pg_namespace", VirtualCatalogPolicy::Static),
        ("pg_cast", VirtualCatalogPolicy::Dynamic),
        ("pg_class", VirtualCatalogPolicy::Dynamic),
        ("pg_attribute", VirtualCatalogPolicy::Dynamic),
        ("pg_index", VirtualCatalogPolicy::Dynamic),
        ("pg_constraint", VirtualCatalogPolicy::Dynamic),
        ("pg_am", VirtualCatalogPolicy::Static),
        ("pg_opclass", VirtualCatalogPolicy::Dynamic),
        ("pg_opfamily", VirtualCatalogPolicy::Dynamic),
        ("pg_amop", VirtualCatalogPolicy::Dynamic),
        ("pg_amproc", VirtualCatalogPolicy::Dynamic),
        ("pg_rewrite", VirtualCatalogPolicy::Dynamic),
        ("pg_statistic", VirtualCatalogPolicy::Static),
        ("pg_statistic_ext", VirtualCatalogPolicy::Static),
        ("pg_statistic_ext_data", VirtualCatalogPolicy::Static),
        ("pg_authid", VirtualCatalogPolicy::Static),
        ("pg_roles", VirtualCatalogPolicy::Static),
        ("pg_indexes", VirtualCatalogPolicy::Dynamic),
        ("pg_auth_members", VirtualCatalogPolicy::Static),
        ("pg_parameter_acl", VirtualCatalogPolicy::Static),
    ]);
}

#[test]
fn virtual_catalog_relation_metadata_includes_rowtype_and_stats() {
    let mut world = World::new();
    let proc_table = world.table("pg_proc");
    world.seen();
    let rowtype_oid = relation_rowtype_oid_by_oid(&world.generated, view(&world), proc_table.oid)
        .expect("rowtype oid");
    assert_eq!(rowtype_oid, proc_table.rowtype_oid);

    let stats = relation_planner_stats_by_oid(&world.generated, view(&world), proc_table.oid)
        .expect("planner stats");
    assert_eq!(stats.reltuples, world.rows(proc_table.oid.0).len());
    assert!(stats.relpages > 0);
    assert_eq!(stats.relpages as usize, stats.reltuples.div_ceil(32));
}

#[test]
fn virtual_catalog_rowtypes_are_visible_in_pg_type() {
    let mut world = World::new();
    let operator_table = world.table("pg_operator");
    let rowtype_oid =
        static_catalog_rowtype_oid(&world.generated, operator_table.oid).expect("rowtype oid");
    world.seen();
    assert_eq!(
        relation_rowtype_oid_by_oid(&world.generated, view(&world), operator_table.oid),
        Some(rowtype_oid)
    );

    let row = world
        .rows(PG_TYPE_RELATION_OID)
        .into_iter()
        .find(|row| world.oid("pg_type", row, "oid") == Some(rowtype_oid))
        .expect("pg_operator rowtype");

    assert_eq!(
        world.text("pg_type", &row, "typname"),
        Some("pg_operator".to_owned())
    );
    assert_eq!(world.oid("pg_type", &row, "typrelid"), Some(operator_table.oid));
}

#[test]
fn virtual_catalog_system_attributes_are_visible_in_pg_attribute() {
    let mut world = World::new();
    let operator_table = world.table("pg_operator");
    let pg_attribute = world.table("pg_attribute");
    let rows = world.rows(pg_attribute.oid.0);

    for (attname, attnum, type_oid) in [("ctid", -1, TID_OID), ("tableoid", -6, OID_OID)] {
        let row = rows
            .iter()
            .find(|row| {
                world.oid("pg_attribute", row, "attrelid") == Some(operator_table.oid)
                    && catalog_row_value(pg_attribute, row, "attnum").and_then(catalog_value_i16)
                        == Some(attnum)
            })
            .unwrap_or_else(|| panic!("{attname} system attribute"));
        assert_eq!(
            world.text("pg_attribute", row, "attname"),
            Some(attname.to_owned())
        );
        assert_eq!(world.oid("pg_attribute", row, "atttypid"), Some(Oid(type_oid)));
    }
}

#[test]
fn static_catalog_attributes_are_visible_in_pg_attribute() {
    let mut world = World::new();
    let aggregate_table = world.table("pg_aggregate");
    let rows = world.rows(PG_ATTRIBUTE_RELATION_OID);
    let row = rows
        .iter()
        .find(|row| {
            world.oid("pg_attribute", row, "attrelid") == Some(aggregate_table.oid)
                && world.text("pg_attribute", row, "attname") == Some("aggfnoid".to_owned())
        })
        .expect("pg_aggregate.aggfnoid attribute");

    assert_eq!(world.oid("pg_attribute", row, "atttypid"), Some(Oid(24)));
}

#[test]
fn static_catalog_physical_columns_resolve_from_typed_schema() {
    let mut world = World::new();
    let aggregate_table = world.table("pg_aggregate");
    world.seen();
    let column =
        relation_physical_column_by_attnum(&world.generated, view(&world), aggregate_table.oid, 1)
            .expect("pg_aggregate.aggfnoid");

    assert_eq!(column.name, "aggfnoid");
    assert_eq!(column.type_oid, Oid(24));
    assert_eq!(column.type_mod, -1);
    assert!(!column.is_dropped);
    assert_eq!(column.is_not_null, aggregate_table.columns[0].attnotnull);
    assert_eq!(column.attlen, 4);
    assert!(column.attbyval);
    assert_eq!(column.attalign, b'i');
    assert_eq!(column.attstorage, b'p');
}

#[test]
fn relation_oid_exists_uses_typed_membership() {
    let mut world = World::new();
    let pg_class = world.table("pg_class");

    assert!(world.is_relation(pg_class.oid));
    assert!(world.is_relation(Oid(PG_AGGREGATE_FNOID_INDEX_OID)));
    assert!(!world.is_relation(Oid(0xEE00_0001)));
}

#[test]
fn information_schema_domains_mark_domain_input() {
    let mut world = World::new();
    let namespace_rows = world.rows(PG_NAMESPACE_RELATION_OID);
    assert!(namespace_rows.iter().any(|row| {
        world.oid("pg_namespace", row, "oid") == Some(Oid(INFORMATION_SCHEMA_NAMESPACE_OID))
            && world.text("pg_namespace", row, "nspname") == Some("information_schema".to_owned())
    }));
    assert_eq!(
        builtin_namespace_by_name(&world.generated, "information_schema")
            .map(|record| record.oid),
        Some(Oid(INFORMATION_SCHEMA_NAMESPACE_OID))
    );

    let pg_type = world.table("pg_type");
    let type_rows = world.rows(PG_TYPE_RELATION_OID);
    let row = type_rows
        .iter()
        .find(|row| {
            world.oid("pg_type", row, "typnamespace")
                == Some(Oid(INFORMATION_SCHEMA_NAMESPACE_OID))
                && world.text("pg_type", row, "typname") == Some("cardinal_number".to_owned())
        })
        .expect("information_schema.cardinal_number type");

    assert_eq!(
        catalog_row_value(pg_type, row, "typtype").and_then(catalog_value_u8),
        Some(b'd')
    );
    assert_eq!(world.oid("pg_type", row, "typinput"), Some(Oid(2597)));
    assert_eq!(world.oid("pg_type", row, "typbasetype"), Some(Oid(INT4_OID)));
}

#[test]
fn virtual_catalog_index_metadata_is_visible() {
    let mut world = World::new();
    let pg_class = world.table("pg_class");
    let pg_index = world.table("pg_index");
    for (index_oid, index_name, relation_oid, key_attnums) in [
        (
            PG_AGGREGATE_FNOID_INDEX_OID,
            "pg_aggregate_fnoid_index",
            PG_AGGREGATE_RELATION_OID,
            vec![1],
        ),
        (
            PG_CLASS_OID_INDEX_OID,
            "pg_class_oid_index",
            PG_CLASS_RELATION_OID,
            vec![1],
        ),
        (
            PG_ATTRIBUTE_RELID_NUM_INDEX_OID,
            "pg_attribute_relid_attnum_index",
            PG_ATTRIBUTE_RELATION_OID,
            vec![1, 6],
        ),
        (
            PG_NAMESPACE_OID_INDEX_OID,
            "pg_namespace_oid_index",
            PG_NAMESPACE_RELATION_OID,
            vec![1],
        ),
        (
            PG_TS_CONFIG_MAP_INDEX_OID,
            "pg_ts_config_map_index",
            PG_TS_CONFIG_MAP_RELATION_OID,
            vec![1, 2, 3],
        ),
    ] {
        let class_rows = world.rows(PG_CLASS_RELATION_OID);
        assert!(class_rows.iter().any(|row| {
            world.oid("pg_class", row, "oid") == Some(Oid(index_oid))
                && world.text("pg_class", row, "relname") == Some(index_name.to_owned())
                && catalog_row_value(pg_class, row, "relkind").and_then(catalog_value_u8)
                    == Some(b'i')
        }));

        let index_rows = world.rows(PG_INDEX_RELATION_OID);
        let row = index_rows
            .iter()
            .find(|row| world.oid("pg_index", row, "indexrelid") == Some(Oid(index_oid)))
            .unwrap_or_else(|| panic!("{index_name} row"));

        assert_eq!(world.oid("pg_index", row, "indrelid"), Some(Oid(relation_oid)));
        assert_eq!(
            catalog_row_value(pg_index, row, "indkey"),
            Some(&CatalogValue::Int2Vector(key_attnums))
        );
    }
}

#[test]
fn virtual_catalog_index_attributes_are_visible() {
    let mut world = World::new();
    let pg_attribute = world.table("pg_attribute");
    let rows = world.rows(pg_attribute.oid.0);
    let relname = rows.iter().find(|row| {
        world.oid("pg_attribute", row, "attrelid") == Some(Oid(PG_CLASS_NAME_NSP_INDEX_OID))
            && catalog_row_value(pg_attribute, row, "attnum").and_then(catalog_value_i16)
                == Some(1)
    });
    assert_eq!(
        relname.and_then(|row| world.text("pg_attribute", row, "attname")),
        Some("relname".to_owned())
    );

    let attrelid_attnum = world.attnum("pg_attribute", "attrelid");
    let attnum_attnum = world.attnum("pg_attribute", "attnum");
    let filtered = world.filtered(
        pg_attribute.oid,
        &[
            CatalogRowFilter {
                attnum: attrelid_attnum,
                value: CatalogFilterValue::Oid(Oid(PG_CLASS_NAME_NSP_INDEX_OID)),
            },
            CatalogRowFilter {
                attnum: attnum_attnum,
                value: CatalogFilterValue::Int16(2),
            },
        ],
    );
    assert_eq!(filtered.len(), 1);
    assert_eq!(
        world.text("pg_attribute", &filtered[0], "attname"),
        Some("relnamespace".to_owned())
    );

    let physical_column = relation_physical_column_by_attnum(
        &world.generated,
        view(&world),
        Oid(PG_CLASS_NAME_NSP_INDEX_OID),
        1,
    )
    .expect("index physical column");
    assert_eq!(physical_column.name, "relname");
}

fn by_oid(attnum: i16, oid: u32) -> CatalogRowFilter {
    CatalogRowFilter { attnum, value: CatalogFilterValue::Oid(Oid(oid)) }
}

#[test]
fn filtered_pg_index_rows_use_dynamic_catalog_indexes() {
    let mut world = World::new();
    world.put(
        "pg_index",
        61_001,
        &[
            ("indexrelid", "61001"),
            ("indrelid", "61000"),
            ("indnatts", "1"),
            ("indnkeyatts", "1"),
            ("indisunique", "f"),
            ("indisprimary", "f"),
            ("indisvalid", "t"),
            ("indisready", "t"),
            ("indislive", "t"),
            ("indkey", "1"),
        ],
    );
    world.commit();

    let pg_index = world.table("pg_index");
    let indrelid_attnum = world.attnum("pg_index", "indrelid");
    let filtered = world.filtered(pg_index.oid, &[by_oid(indrelid_attnum, 61_000)]);

    assert_eq!(filtered.len(), 1);
    assert_eq!(
        world.oid("pg_index", &filtered[0], "indexrelid"),
        Some(Oid(61_001))
    );
}

fn relation_values(
    oid: &'static str,
    name: &'static str,
    reltype: &'static str,
    relhasindex: &'static str,
    relnatts: &'static str,
) -> Vec<(&'static str, &'static str)> {
    vec![
        ("oid", oid),
        ("relname", name),
        ("relnamespace", "2200"),
        ("reltype", reltype),
        ("relowner", "10"),
        ("relam", "2"),
        ("relfilenode", oid),
        ("relhasindex", relhasindex),
        ("relpersistence", "p"),
        ("relkind", "r"),
        ("relnatts", relnatts),
    ]
}

#[test]
fn filtered_pg_class_rows_use_dynamic_catalog_indexes() {
    let mut world = World::new();
    world.put(
        "pg_class",
        63_000,
        &relation_values("63000", "filtered_relation", "63001", "f", "0"),
    );
    world.commit();

    let pg_class = world.table("pg_class");
    let oid_attnum = world.attnum("pg_class", "oid");
    let filtered = world.filtered(pg_class.oid, &[by_oid(oid_attnum, 63_000)]);

    assert_eq!(filtered.len(), 1);
    assert_eq!(
        world.text("pg_class", &filtered[0], "relname"),
        Some("filtered_relation".to_owned())
    );
}

#[test]
fn filtered_pg_constraint_rows_use_dynamic_catalog_indexes() {
    let mut world = World::new();
    world.put(
        "pg_constraint",
        64_002,
        &[
            ("oid", "64002"),
            ("conname", "filtered_constraint"),
            ("connamespace", "2200"),
            ("contype", "p"),
            ("conrelid", "64000"),
            ("conindid", "64001"),
            ("conkey", "1"),
        ],
    );
    world.commit();

    let pg_constraint = world.table("pg_constraint");
    let conrelid_attnum = world.attnum("pg_constraint", "conrelid");
    let filtered = world.filtered(pg_constraint.oid, &[by_oid(conrelid_attnum, 64_000)]);

    assert_eq!(filtered.len(), 1);
    assert_eq!(
        world.oid("pg_constraint", &filtered[0], "conindid"),
        Some(Oid(64_001))
    );
}

#[test]
fn filtered_pg_inherits_rows_use_compat_catalog_indexes() {
    let mut world = World::new();
    world.put(
        "pg_inherits",
        62_001,
        &[
            ("inhrelid", "62001"),
            ("inhparent", "62000"),
            ("inhseqno", "1"),
            ("inhdetachpending", "f"),
        ],
    );
    world.commit();

    let pg_inherits = world.table("pg_inherits");
    let inhrelid_attnum = world.attnum("pg_inherits", "inhrelid");
    let filtered = world.filtered(pg_inherits.oid, &[by_oid(inhrelid_attnum, 62_001)]);

    assert_eq!(filtered.len(), 1);
    assert_eq!(
        world.oid("pg_inherits", &filtered[0], "inhparent"),
        Some(Oid(62_000))
    );
}

#[test]
fn operator_implementation_proc_descriptions_are_synthesized() {
    let mut world = World::new();
    let rows = world.rows(2609);
    let synthesized_description = |oid: Oid| {
        rows.iter()
            .find(|row| {
                world.oid("pg_description", row, "classoid") == Some(Oid(PG_PROC_RELATION_OID))
                    && world.oid("pg_description", row, "objoid") == Some(oid)
            })
            .and_then(|row| world.text("pg_description", row, "description"))
            .unwrap_or_else(|| panic!("description for proc {oid:?}"))
    };

    assert_eq!(
        synthesized_description(Oid(56)),
        "implementation of < operator"
    );
    assert_eq!(
        synthesized_description(Oid(125)),
        "implementation of && operator"
    );
    assert_eq!(
        synthesized_description(Oid(131)),
        "implementation of |>> operator"
    );
    assert_eq!(
        synthesized_description(Oid(3634)),
        "implementation of @@ operator"
    );
}

#[test]
fn visible_catalog_snapshot_cache_updates_after_overlay_changes() {
    let mut world = World::new();
    let relation_oid = Oid(50_010);
    let kept = |world: &World| {
        world.session.visible_snapshot_cache.as_ref().is_some_and(|cache| {
            cache.base_generation == current_generation(&world.state)
                && cache.revision == world.session.visible_snapshot_revision
        })
    };

    world.put(
        "pg_class",
        relation_oid.0 as u64,
        &relation_values("50010", "cached_snapshot_before_change", "50011", "f", "0"),
    );
    assert!(!kept(&world));
    assert!(world.is_relation(relation_oid));
    assert!(kept(&world));
    assert!(world.is_relation(relation_oid));

    world.put(
        "pg_class",
        relation_oid.0 as u64,
        &relation_values("50010", "cached_snapshot_after_change", "50011", "f", "0"),
    );
    assert!(kept(&world));
    assert!(
        relation_by_name(&world.generated, view(&world), "cached_snapshot_after_change").is_some()
    );
    assert!(world.is_relation(relation_oid));
    assert!(kept(&world));

    abort_implicit_transaction(&mut world.session);
    assert!(!world.is_relation(relation_oid));
}

fn attribute(
    relation: &'static str,
    name: &'static str,
    type_oid: &'static str,
    attlen: &'static str,
    attnum: &'static str,
    by_value: &'static str,
    storage: &'static str,
    not_null: &'static str,
    dropped: &'static str,
) -> Vec<(&'static str, &'static str)> {
    vec![
        ("attrelid", relation),
        ("attname", name),
        ("atttypid", type_oid),
        ("attlen", attlen),
        ("attnum", attnum),
        ("atttypmod", "-1"),
        ("attbyval", by_value),
        ("attalign", "i"),
        ("attstorage", storage),
        ("attnotnull", not_null),
        ("attisdropped", dropped),
    ]
}

/// Whether the view of indexes holds a row with values in columns.
fn tells_index(world: &mut World, values: &[(&str, CatalogValue)]) -> bool {
    let table = world.table("pg_indexes");
    world.rows(PG_INDEXES_RELATION_OID).iter().any(|row| {
        values
            .iter()
            .all(|(column, value)| catalog_row_value(table, row, column) == Some(value))
    })
}

fn check_relation_views(index_view: bool) {
    let mut world = World::new();
    let public = Oid(PUBLIC_NAMESPACE_OID);
    let relation_oid = Oid(50_000);
    let type_oid = Oid(50_001);
    let index_oid = Oid(50_002);
    let constraint_oid = Oid(50_003);
    let initial_generation = current_generation(&world.state);

    world.put(
        "pg_class",
        relation_oid.0 as u64,
        &relation_values("50000", "pgbench_accounts", "50001", "f", "2"),
    );
    world.put(
        "pg_type",
        type_oid.0 as u64,
        &[
            ("oid", "50001"),
            ("typname", "pgbench_accounts"),
            ("typnamespace", "2200"),
            ("typowner", "10"),
            ("typlen", "-1"),
            ("typbyval", "f"),
            ("typtype", "c"),
            ("typcategory", "C"),
            ("typisdefined", "t"),
            ("typdelim", ","),
            ("typrelid", "50000"),
            ("typalign", "d"),
            ("typstorage", "x"),
        ],
    );
    world.put(
        "pg_attribute",
        0,
        &attribute("50000", "aid", "23", "4", "1", "t", "p", "t", "f"),
    );
    world.put(
        "pg_attribute",
        0,
        &attribute("50000", "filler", "1042", "-1", "2", "f", "x", "f", "f"),
    );
    world.commit();
    assert!(current_generation(&world.state) > initial_generation);
    let after_create_generation = current_generation(&world.state);
    let relation =
        relation_by_name(&world.generated, view(&world), "PgBench_Accounts").expect("relation");
    assert_eq!(relation.name, "pgbench_accounts");
    assert_eq!(relation.columns[0].name, "aid");
    assert_eq!(
        relation_by_name(&world.generated, view(&world), "pgbench_accounts").unwrap().oid,
        relation.oid
    );
    assert!(world.is_relation(relation.oid));
    assert_eq!(
        relation_oid_by_name_in_namespace(
            &world.generated,
            view(&world),
            "pgbench_accounts",
            public
        ),
        Some(relation.oid)
    );
    assert_eq!(
        relation_by_oid(&world.generated, view(&world), relation.oid).unwrap().name,
        "pgbench_accounts"
    );
    let relation_summary =
        relation_summary_by_oid(&world.generated, view(&world), relation.oid).unwrap();
    assert_eq!(relation_summary.name, "pgbench_accounts");
    assert_eq!(relation_summary.column_count, 2);
    assert!(!relation_summary.has_indexes);
    assert!(!relation_summary.has_primary_key);
    let relation_summary = relation_summary_by_name_in_namespace(
        &world.generated,
        view(&world),
        "PgBench_Accounts",
        public,
    )
    .unwrap();
    assert_eq!(relation_summary.name, "pgbench_accounts");
    assert_eq!(relation_summary.column_count, 2);
    assert!(!relation_summary.has_indexes);
    assert!(!relation_summary.has_primary_key);
    let column = relation_column_by_attnum(
        &world.generated,
        visible_snapshot(&world.generated, &world.state, &world.session),
        has_uncommitted_catalog_changes(&world.session),
        &mut world.cache,
        relation.oid,
        1,
    );
    assert_eq!(column.unwrap().name, "aid");
    world.put(
        "pg_class",
        relation_oid.0 as u64,
        &relation_values("50000", "pgbench_accounts", "50001", "t", "2"),
    );
    world.put(
        "pg_class",
        index_oid.0 as u64,
        &[
            ("oid", "50002"),
            ("relname", "pgbench_accounts_pkey"),
            ("relnamespace", "2200"),
            ("reltype", "0"),
            ("relowner", "10"),
            ("relam", "403"),
            ("relfilenode", "50002"),
            ("relhasindex", "f"),
            ("relpersistence", "p"),
            ("relkind", "i"),
            ("relnatts", "1"),
        ],
    );
    world.put(
        "pg_attribute",
        0,
        &attribute("50002", "aid", "23", "4", "1", "t", "p", "t", "f"),
    );
    world.put(
        "pg_index",
        index_oid.0 as u64,
        &[
            ("indexrelid", "50002"),
            ("indrelid", "50000"),
            ("indnatts", "1"),
            ("indnkeyatts", "1"),
            ("indisunique", "t"),
            ("indisprimary", "t"),
            ("indisvalid", "t"),
            ("indisready", "t"),
            ("indislive", "t"),
            ("indkey", "1"),
        ],
    );
    world.put(
        "pg_constraint",
        constraint_oid.0 as u64,
        &[
            ("oid", "50003"),
            ("conname", "pgbench_accounts_pkey"),
            ("connamespace", "2200"),
            ("contype", "p"),
            ("conrelid", "50000"),
            ("conindid", "50002"),
            ("conkey", "1"),
        ],
    );
    world.commit();
    let after_primary_key_generation = current_generation(&world.state);
    assert!(after_primary_key_generation > after_create_generation);
    assert_eq!(
        relation_by_name(&world.generated, view(&world), "pgbench_accounts")
            .unwrap()
            .primary_key,
        vec!["aid"]
    );
    assert_eq!(
        unique_index_oids_for_relation_oid(&world.generated, view(&world), relation.oid),
        vec![index_oid]
    );
    assert_eq!(
        primary_key_index_oid_for_relation_oid(
            &world.generated,
            visible_snapshot(&world.generated, &world.state, &world.session),
            has_uncommitted_catalog_changes(&world.session),
            &mut world.primary_keys,
            relation.oid,
        ),
        Some(index_oid)
    );
    assert_eq!(
        primary_key_index_record_for_relation_oid(&world.generated, view(&world), relation.oid)
            .unwrap()
            .index_oid,
        index_oid
    );
    let relation_summary =
        relation_summary_by_oid(&world.generated, view(&world), relation.oid).unwrap();
    assert_eq!(relation_summary.column_count, 2);
    assert!(relation_summary.has_indexes);
    assert!(relation_summary.has_primary_key);
    let relation_summary = relation_summary_by_name_in_namespace(
        &world.generated,
        view(&world),
        "pgbench_accounts",
        public,
    )
    .unwrap();
    assert_eq!(relation_summary.column_count, 2);
    assert!(relation_summary.has_indexes);
    assert!(relation_summary.has_primary_key);
    let names = |world: &mut World, table: &str, column: &str| {
        let oid = world.table(table).oid;
        let rows = world.rows(oid.0);
        rows.iter()
            .filter_map(|row| {
                value_name(catalog_row_value(world.table(table), row, column)).map(str::to_owned)
            })
            .collect::<Vec<_>>()
    };
    let accounts = "pgbench_accounts".to_owned();
    assert!(names(&mut world, "pg_class", "relname").contains(&accounts));
    assert!(names(&mut world, "pg_type", "typname").contains(&accounts));
    let rows = world.rows(PG_ATTRIBUTE_RELATION_OID);
    assert!(rows.iter().any(|row| {
        world.oid("pg_attribute", row, "attrelid") == Some(relation.oid)
            && world.text("pg_attribute", row, "attname") == Some("aid".to_owned())
    }));
    let rows = world.rows(PG_INDEX_RELATION_OID);
    assert!(rows
        .iter()
        .any(|row| world.oid("pg_index", row, "indrelid") == Some(relation.oid)));
    if index_view {
        assert!(tells_index(
            &mut world,
            &[
                ("schemaname", CatalogValue::Name("public".to_owned())),
                ("tablename", CatalogValue::Name("pgbench_accounts".to_owned())),
                ("indexname", CatalogValue::Name("pgbench_accounts_pkey".to_owned())),
                (
                    "indexdef",
                    CatalogValue::Text(
                        "CREATE UNIQUE INDEX pgbench_accounts_pkey ON public.pgbench_accounts \
                         USING btree (aid)"
                            .to_owned(),
                    ),
                ),
            ],
        ));
    }
    let rows = world.rows(PG_CONSTRAINT_RELATION_OID);
    assert!(rows.iter().any(|row| {
        world.oid("pg_constraint", row, "conrelid") == Some(relation.oid)
            && world.text("pg_constraint", row, "conname")
                == Some("pgbench_accounts_pkey".to_owned())
    }));
    delete_catalog_row(
        &world.generated,
        &mut world.session,
        Oid(PG_CLASS_RELATION_OID),
        relation.oid.0 as u64,
    )
    .unwrap();
    world.commit();
    assert!(current_generation(&world.state) > after_primary_key_generation);
    assert!(relation_by_name(&world.generated, view(&world), "pgbench_accounts").is_none());
    assert!(!world.is_relation(relation.oid));
    assert!(!names(&mut world, "pg_class", "relname").contains(&accounts));
    if index_view {
        assert!(!tells_index(
            &mut world,
            &[("tablename", CatalogValue::Name("pgbench_accounts".to_owned()))],
        ));
    }
}

#[test]
fn lib_generic_overlay_rows_drive_relation_views() {
    check_relation_views(false);
}

#[test]
fn tests_generic_overlay_rows_drive_relation_views() {
    check_relation_views(true);
}

fn check_dropped_columns() {
    let mut world = World::new();
    let relation_oid = Oid(50_100);
    world.put(
        "pg_class",
        relation_oid.0 as u64,
        &relation_values("50100", "dropped_columns", "50101", "f", "3"),
    );
    world.put(
        "pg_attribute",
        0,
        &attribute(
            "50100",
            "........pg.dropped.1........",
            "0",
            "4",
            "1",
            "t",
            "p",
            "f",
            "t",
        ),
    );
    world.put(
        "pg_attribute",
        0,
        &attribute("50100", "live_b", "23", "4", "2", "t", "p", "f", "f"),
    );
    let mut last = attribute("50100", "live_c", "25", "-1", "3", "f", "x", "f", "f");
    last.push(("attcollation", "100"));
    world.put("pg_attribute", 0, &last);
    world.commit();

    let relation =
        relation_by_oid(&world.generated, view(&world), relation_oid).expect("relation");
    assert_eq!(
        relation
            .columns
            .iter()
            .map(|column| column.name.as_str())
            .collect::<Vec<_>>(),
        vec!["live_b", "live_c"]
    );
    assert_eq!(
        relation_summary_by_oid(&world.generated, view(&world), relation_oid)
            .expect("relation summary")
            .column_count,
        3
    );
    let mut column = |attnum: i16| {
        relation_column_by_attnum(
            &world.generated,
            visible_snapshot(&world.generated, &world.state, &world.session),
            false,
            &mut world.cache,
            relation_oid,
            attnum,
        )
    };
    assert!(column(1).is_none());
    assert_eq!(column(2).expect("attnum 2").name, "live_b");

    let dropped =
        relation_physical_column_by_attnum(&world.generated, view(&world), relation_oid, 1)
            .expect("physical attnum 1");
    assert!(dropped.is_dropped);
    assert_eq!(dropped.type_oid, Oid(INVALID_OID));
    assert_eq!(dropped.attlen, 4);

    let live = relation_physical_column_by_attnum(&world.generated, view(&world), relation_oid, 3)
        .expect("physical attnum 3");
    assert!(!live.is_dropped);
    assert_eq!(live.name, "live_c");
    assert_eq!(live.type_oid, Oid(TEXT_OID));
    assert_eq!(live.attcollation, Oid(DEFAULT_COLLATION_OID));
}

#[test]
fn lib_physical_columns_preserve_dropped_attnum_holes() {
    check_dropped_columns();
}

#[test]
fn tests_physical_columns_preserve_dropped_attnum_holes() {
    check_dropped_columns();
}

#[test]
fn a_row_of_an_unknown_catalog_is_refused() {
    let mut world = World::new();
    let error = upsert_catalog_row(
        &world.generated,
        &readings(),
        &mut world.state,
        &mut world.session,
        Oid(4242),
        0,
        &vec![],
    )
    .unwrap_err();
    assert!(error.message.contains("4242"));
    assert!(
        delete_catalog_row(&world.generated, &mut world.session, Oid(4242), 1).is_err()
    );
}

#[test]
fn a_row_needs_a_value_for_each_column() {
    let mut world = World::new();
    let table = world.table("pg_inherits");
    let error = upsert_catalog_row(
        &world.generated,
        &readings(),
        &mut world.state,
        &mut world.session,
        table.oid,
        0,
        &vec![None],
    )
    .unwrap_err();
    assert_eq!(error.sqlstate, "42804");
    assert_eq!(
        error.message,
        format!(
            "catalog row for pg_inherits has 1 values but {} columns",
            table.columns.len()
        )
    );
    assert!(!has_uncommitted_catalog_changes(&world.session));
}

#[test]
fn a_kept_state_follows_rows_that_are_put_and_removed() {
    let mut world = World::new();
    for (id, name) in [(70_000, "first"), (70_002, "second")] {
        let oid: &'static str = if id == 70_000 { "70000" } else { "70002" };
        world.put("pg_class", id, &relation_values(oid, name, "0", "f", "0"));
        assert!(world.is_relation(Oid(id as u32)));
    }
    delete_catalog_row(
        &world.generated,
        &mut world.session,
        Oid(PG_CLASS_RELATION_OID),
        70_000,
    )
    .unwrap();
    assert!(!relation_oid_exists(&world.generated, view(&world), Oid(70_000)));
    assert!(relation_oid_exists(&world.generated, view(&world), Oid(70_002)));
    world.put("pg_class", 70_000, &relation_values("70000", "again", "0", "f", "0"));
    world.seen();
    assert_eq!(
        relation_by_oid(&world.generated, view(&world), Oid(70_000)).map(|found| found.name),
        Some("again".to_owned())
    );
}

#[test]
fn what_a_transaction_changes_is_seen_by_it_alone() {
    let mut world = World::new();
    let mut other = new_catalog_session();
    begin_explicit_transaction(&world.generated, &mut world.state, &mut world.session);
    world.put(
        "pg_class",
        70_000,
        &relation_values("70000", "mine", "70001", "f", "0"),
    );
    assert!(has_uncommitted_catalog_changes(&world.session));
    assert!(world.is_relation(Oid(70_000)));
    refresh_visible_snapshot(&world.generated, &world.state, &mut other);
    assert!(!relation_oid_exists(
        &world.generated,
        visible_snapshot(&world.generated, &world.state, &other),
        Oid(70_000)
    ));
    world.commit();
    assert!(has_uncommitted_catalog_changes(&world.session));
    commit_explicit_transaction(&world.generated, &mut world.state, &mut world.session);
    assert!(!has_uncommitted_catalog_changes(&world.session));
    assert!(relation_oid_exists(
        &world.generated,
        visible_snapshot(&world.generated, &world.state, &other),
        Oid(70_000)
    ));
}

#[test]
fn an_aborted_transaction_leaves_no_trace() {
    let mut world = World::new();
    let generation = current_generation(&world.state);
    begin_explicit_transaction(&world.generated, &mut world.state, &mut world.session);
    world.put(
        "pg_class",
        70_000,
        &relation_values("70000", "mine", "70001", "f", "0"),
    );
    abort_explicit_transaction(&mut world.session);
    assert!(!world.is_relation(Oid(70_000)));
    assert_eq!(current_generation(&world.state), generation);
}

#[test]
fn inner_transactions_hand_on_what_they_changed_or_drop_it() {
    let mut world = World::new();
    begin_explicit_transaction(&world.generated, &mut world.state, &mut world.session);
    begin_subtransaction(&mut world.session);
    world.put(
        "pg_class",
        70_000,
        &relation_values("70000", "kept", "70001", "f", "0"),
    );
    commit_subtransaction(&world.generated, &mut world.state, &mut world.session);
    begin_subtransaction(&mut world.session);
    world.put(
        "pg_class",
        70_002,
        &relation_values("70002", "dropped", "70003", "f", "0"),
    );
    assert!(world.is_relation(Oid(70_002)));
    abort_subtransaction(&mut world.session);
    assert!(world.is_relation(Oid(70_000)));
    assert!(!world.is_relation(Oid(70_002)));
    commit_explicit_transaction(&world.generated, &mut world.state, &mut world.session);
    assert!(world.is_relation(Oid(70_000)));
}

#[test]
fn counts_are_the_numbers_of_rows() {
    let mut world = World::new();
    world.put(
        "pg_class",
        70_000,
        &relation_values("70000", "counted", "70001", "f", "0"),
    );
    world.put(
        "pg_attribute",
        0,
        &attribute("70000", "counted", "23", "4", "1", "t", "p", "t", "f"),
    );
    world.put("pg_inherits", 62_001, &[("inhrelid", "62001")]);
    world.commit();
    for name in [
        "pg_attribute", "pg_class", "pg_type", "pg_index", "pg_namespace", "pg_inherits", "pg_proc", "pg_am",
        "pg_ts_config_map", "pg_ts_template", "pg_init_privs", "pg_indexes", "pg_roles",
    ] {
        let oid = world.table(name).oid;
        let count = catalog_row_count(&world.generated, view(&world), oid);
        assert_eq!(count, Some(world.rows(oid.0).len()), "{name}");
    }
    assert_eq!(catalog_row_count(&world.generated, view(&world), Oid(4242)), None);
}

#[test]
fn filters_pick_among_the_rows_of_a_plain_catalog() {
    let mut world = World::new();
    world.put("pg_inherits", 1, &[("inhrelid", "5"), ("inhparent", "9")]);
    world.put("pg_inherits", 2, &[("inhrelid", "6"), ("inhparent", "9")]);
    world.put("pg_inherits", 3, &[("inhrelid", "7"), ("inhparent", "8")]);
    let table = world.table("pg_inherits");
    let attnum = world.attnum("pg_inherits", "inhparent");
    let ids: Vec<u64> = world
        .filtered(table.oid, &[by_oid(attnum, 9)])
        .iter()
        .map(|row| row.row_id)
        .collect();
    assert_eq!(ids, vec![1, 2]);
    assert_eq!(world.filtered(table.oid, &[]).len(), 3);
}

fn ids(rows: &[CatalogRow]) -> Vec<u64> {
    rows.iter().map(|row| row.row_id).collect()
}

fn by_name(attnum: i16, name: &str) -> CatalogRowFilter {
    CatalogRowFilter { attnum, value: CatalogFilterValue::Name(name.to_owned()) }
}

/// A world with a relation of two columns, whose rows have the identities 71 and
/// 72.
fn with_two_columns() -> World {
    let mut world = World::new();
    world.put("pg_attribute", 71, &attribute("50010", "relname", "23", "4", "1", "t", "p", "t", "f"));
    world.put("pg_attribute", 72, &attribute("50010", "note", "25", "-1", "2", "f", "x", "f", "f"));
    world
}

#[test]
fn filters_on_columns_pick_among_all_columns() {
    let mut world = with_two_columns();
    let pg_attribute = world.table("pg_attribute");
    let all = world.rows(pg_attribute.oid.0);
    let name = world.attnum("pg_attribute", "attname");
    let picked: Vec<u64> = all
        .iter()
        .filter(|row| world.text("pg_attribute", row, "attname").as_deref() == Some("relname"))
        .map(|row| row.row_id)
        .collect();
    assert!(picked.contains(&71));
    assert!(picked.len() > 2);
    let found = world.filtered(pg_attribute.oid, &[by_name(name, "relname")]);
    assert_eq!(ids(&found), picked);
}

#[test]
fn filters_that_name_a_relation_pick_among_all_columns() {
    let mut world = with_two_columns();
    let pg_attribute = world.table("pg_attribute");
    let relid = world.attnum("pg_attribute", "attrelid");
    let name = world.attnum("pg_attribute", "attname");
    let all = world.rows(pg_attribute.oid.0);
    for relation in [1259, PG_CLASS_NAME_NSP_INDEX_OID, 50_010, 50_011] {
        let picked: Vec<u64> = all
            .iter()
            .filter(|row| world.oid("pg_attribute", row, "attrelid") == Some(Oid(relation)))
            .map(|row| row.row_id)
            .collect();
        let found = world.filtered(pg_attribute.oid, &[by_oid(relid, relation)]);
        assert_eq!(ids(&found), picked);
    }
    let found = world.filtered(pg_attribute.oid, &[by_oid(relid, 50_010)]);
    assert_eq!(ids(&found), vec![71, 72]);
    let found = world.filtered(pg_attribute.oid, &[by_oid(relid, 50_010), by_name(name, "note")]);
    assert_eq!(ids(&found), vec![72]);
    assert!(world.filtered(pg_attribute.oid, &[by_oid(relid, 50_011)]).is_empty());
}

#[test]
fn a_relation_has_one_column_at_a_place() {
    let mut world = with_two_columns();
    world.put("pg_attribute", 73, &attribute("50010", "other", "23", "4", "2", "t", "p", "f", "f"));
    let pg_attribute = world.table("pg_attribute");
    let relid = world.attnum("pg_attribute", "attrelid");
    let found = world.filtered(pg_attribute.oid, &[by_oid(relid, 50_010)]);
    assert_eq!(ids(&found), vec![71, 73]);
    let all = ids(&world.rows(pg_attribute.oid.0));
    assert!(all.contains(&72) && all.contains(&73));
}

#[test]
fn filters_on_descriptions_pick_among_all_descriptions() {
    let mut world = World::new();
    let pg_description = world.table("pg_description");
    let object = world.attnum("pg_description", "objoid");
    let all = world.rows(pg_description.oid.0);
    for oid in [56, 125, 3634] {
        let picked: Vec<u64> = all
            .iter()
            .filter(|row| world.oid("pg_description", row, "objoid") == Some(Oid(oid)))
            .map(|row| row.row_id)
            .collect();
        assert!(!picked.is_empty());
        let found = world.filtered(pg_description.oid, &[by_oid(object, oid)]);
        assert_eq!(ids(&found), picked);
    }
    let found = world.filtered(pg_description.oid, &[by_oid(object, 56)]);
    assert_eq!(
        world.text("pg_description", &found[0], "description"),
        Some("implementation of < operator".to_owned())
    );
}

#[test]
fn databases_are_named_once() {
    let mut world = World::new();
    let template = ensure_database(
        &world.generated,
        &mut world.state,
        &mut world.session,
        "template1",
    );
    assert_eq!(template, Oid(1));
    let first =
        ensure_database(&world.generated, &mut world.state, &mut world.session, "app");
    let second =
        ensure_database(&world.generated, &mut world.state, &mut world.session, "app");
    assert_eq!(first, second);
    assert_eq!(first, synthetic_database_oid("app"));
    let generation = current_generation(&world.state);
    let rows = world.rows(PG_DATABASE_RELATION_OID);
    let third =
        ensure_database(&world.generated, &mut world.state, &mut world.session, " app ");
    assert_eq!(third, first);
    assert_eq!(current_generation(&world.state), generation);
    assert_eq!(world.rows(PG_DATABASE_RELATION_OID), rows);
    let blank = ensure_database(&world.generated, &mut world.state, &mut world.session, " \t");
    let usual =
        ensure_database(&world.generated, &mut world.state, &mut world.session, "postgres");
    assert_eq!(blank, usual);
    world.seen();
    assert_eq!(database_oid_by_name(&world.generated, view(&world), "app"), Some(first));
    assert_eq!(database_oid_by_name(&world.generated, view(&world), "none"), None);
    assert_eq!(canonical_database_name(""), "postgres");
}

#[test]
fn indexes_are_found_by_relation_and_by_identifier() {
    let mut world = World::new();
    for (oid, unique) in [("61001", "t"), ("61002", "f")] {
        world.put(
            "pg_index",
            0,
            &[
                ("indexrelid", oid),
                ("indrelid", "61000"),
                ("indnatts", "1"),
                ("indnkeyatts", "1"),
                ("indisunique", unique),
                ("indisprimary", unique),
                ("indisvalid", "t"),
                ("indisready", "t"),
                ("indislive", "t"),
                ("indkey", "1"),
            ],
        );
    }
    world.commit();
    let s = visible_snapshot(&world.generated, &world.state, &world.session);
    let all: Vec<Oid> = index_records_for_relation_oid(
        &world.generated,
        s,
        false,
        &mut world.cache,
        Oid(61_000),
    )
    .into_iter()
    .map(|record| record.index_oid)
    .collect();
    assert_eq!(all, vec![Oid(61_001), Oid(61_002)]);
    let unique: Vec<Oid> = unique_index_records_for_relation_oid(
        &world.generated,
        s,
        false,
        &mut world.cache,
        Oid(61_000),
    )
    .into_iter()
    .map(|record| record.index_oid)
    .collect();
    assert_eq!(unique, vec![Oid(61_001)]);
    let found = index_record_by_index_oid(
        &world.generated,
        s,
        false,
        &mut world.cache,
        Oid(61_002),
    );
    assert_eq!(found.unwrap().relation_oid, Oid(61_000));
    assert_eq!(
        relation_oid_for_index_oid(&world.generated, s, false, &mut world.cache, Oid(61_001)),
        Some(Oid(61_000))
    );
    assert_eq!(
        primary_key_relation_oid_for_index_oid(
            &world.generated,
            s,
            false,
            &mut world.cache,
            Oid(61_002),
        ),
        None
    );
}

#[test]
fn caches_follow_the_generation() {
    let mut world = World::new();
    world.put(
        "pg_attribute",
        0,
        &attribute("50000", "aid", "23", "4", "1", "t", "p", "t", "f"),
    );
    world.commit();
    let mut name = |world: &mut World| {
        relation_column_by_attnum(
            &world.generated,
            visible_snapshot(&world.generated, &world.state, &world.session),
            false,
            &mut world.cache,
            Oid(50_000),
            1,
        )
        .map(|column| column.name)
    };
    assert_eq!(name(&mut world), Some("aid".to_owned()));
    assert_eq!(name(&mut world), Some("aid".to_owned()));
    world.put(
        "pg_attribute",
        0,
        &attribute("50000", "renamed", "23", "4", "1", "t", "p", "t", "f"),
    );
    world.commit();
    assert_eq!(name(&mut world), Some("renamed".to_owned()));
}

#[test]
fn labels_come_in_their_order() {
    let mut world = World::new();
    world.seen();
    assert_eq!(
        enum_oids_by_sort_order(&world.generated, view(&world), Oid(70)),
        vec![Oid(72), Oid(71)]
    );
}

#[test]
fn relations_without_a_name_are_told() {
    let mut world = World::new();
    world.seen();
    assert!(relation_column_count(&world.generated, view(&world), "nowhere")
        .unwrap_err()
        .message
        .contains("nowhere"));
    world.put(
        "pg_class",
        70_000,
        &relation_values("70000", "somewhere", "70001", "f", "0"),
    );
    world.seen();
    assert_eq!(
        relation_column_count(&world.generated, view(&world), "somewhere"),
        Ok(0)
    );
    let names: Vec<String> = relations(&world.generated, view(&world))
        .into_iter()
        .map(|relation| relation.name)
        .collect();
    assert!(names.contains(&"somewhere".to_owned()));
}

#[test]
fn compiled_in_objects_are_found() {
    let world = World::new();
    assert_eq!(
        builtin_operator_by_signature(
            &world.generated,
            "<",
            Oid(16),
            Oid(16),
            Oid(PG_CATALOG_NAMESPACE_OID),
        )
        .map(|operator| operator.oid),
        Some(Oid(58))
    );
    assert_eq!(builtin_operators_by_name(&world.generated, "&&").len(), 1);
    assert_eq!(
        builtin_aggregate_by_proc_oid(&world.generated, Oid(2100))
            .and_then(|aggregate| aggregate.init_value),
        Some("{0,0}")
    );
    assert_eq!(
        virtual_catalog_by_name(&world.generated, "PG_CLASS", Oid(PG_CATALOG_NAMESPACE_OID))
            .map(|record| record.policy.code()),
        Some(2)
    );
}

#[test]
fn lookups_that_find_nothing_are_kept() {
    let mut world = World::new();
    world.commit();
    let generation = current_generation(&world.state);
    let s = visible_snapshot(&world.generated, &world.state, &world.session);
    assert_eq!(
        relation_column_by_attnum(&world.generated, s, false, &mut world.cache, Oid(70_000), 3),
        None
    );
    assert_eq!(world.cache.generation, generation);
    let key = 70_000u64 * 0x1_0000 + 0x8003;
    assert_eq!(world.cache.relation_columns.get(&key), Some(&None));
    assert_eq!(
        index_record_by_index_oid(&world.generated, s, false, &mut world.cache, Oid(70_001)),
        None
    );
    assert_eq!(world.cache.index_records_by_oid.get(&70_001), Some(&None));
    assert_eq!(
        relation_oid_for_index_oid(&world.generated, s, false, &mut world.cache, Oid(70_002)),
        None
    );
    assert_eq!(world.cache.index_records_by_oid.get(&70_002), Some(&None));
    assert_eq!(
        primary_key_relation_oid_for_index_oid(
            &world.generated,
            s,
            false,
            &mut world.cache,
            Oid(70_003),
        ),
        None
    );
    assert_eq!(world.cache.index_records_by_oid.get(&70_003), Some(&None));
    let all = index_records_for_relation_oid(
        &world.generated,
        s,
        false,
        &mut world.cache,
        Oid(70_000),
    );
    assert_eq!(all, vec![]);
    assert_eq!(world.cache.index_records_by_relation.get(&70_000), Some(&vec![]));
    let unique = unique_index_records_for_relation_oid(
        &world.generated,
        s,
        false,
        &mut world.cache,
        Oid(70_004),
    );
    assert_eq!(unique, vec![]);
    assert_eq!(world.cache.unique_index_records_by_relation.get(&70_004), Some(&vec![]));
    assert_eq!(world.cache.index_records_by_relation.get(&70_004), Some(&vec![]));
    assert_eq!(
        primary_key_index_oid_for_relation_oid(
            &world.generated,
            s,
            false,
            &mut world.primary_keys,
            Oid(70_000),
        ),
        None
    );
    assert_eq!(world.primary_keys.generation, generation);
    assert_eq!(world.primary_keys.entries.get(&70_000), Some(&None));
}

#[test]
fn lookups_with_uncommitted_changes_are_not_kept() {
    let mut world = World::new();
    world.seen();
    let s = visible_snapshot(&world.generated, &world.state, &world.session);
    assert_eq!(
        relation_column_by_attnum(&world.generated, s, true, &mut world.cache, Oid(70_000), 3),
        None
    );
    assert!(world.cache.relation_columns.is_empty());
}

#[test]
fn catalogs_have_no_other_indexes() {
    let mut world = World::new();
    world.seen();
    let s = visible_snapshot(&world.generated, &world.state, &world.session);
    let mut cache = CatalogLookupCache::new(0);
    for oid in [
        PG_ATTRIBUTE_RELID_NAME_INDEX_OID,
        PG_NAMESPACE_NAME_INDEX_OID,
        PG_SEQUENCE_RELID_INDEX_OID,
    ] {
        assert_eq!(
            index_record_by_index_oid(&world.generated, s, true, &mut cache, Oid(oid)),
            None
        );
        assert!(!relation_oid_exists(&world.generated, s, Oid(oid)));
    }
    let indexes: Vec<u64> =
        world.rows(PG_INDEX_RELATION_OID).iter().map(|row| row.row_id).collect();
    assert_eq!(indexes, vec![2650, 2659, 2662, 2663, 2685, 3609]);
}

#[test]
fn rows_come_in_the_order_of_their_identities() {
    let mut world = World::new();
    world.put("pg_inherits", 9, &[("inhrelid", "9")]);
    world.put("pg_inherits", 4, &[("inhrelid", "4")]);
    for name in ["pg_class", "pg_type", "pg_attribute", "pg_index", "pg_proc", "pg_inherits"] {
        let oid = world.table(name).oid;
        let rows = world.rows(oid.0);
        assert!(rows.windows(2).all(|pair| pair[0].row_id < pair[1].row_id), "{name}");
        assert!(rows.iter().all(|row| row.relation_oid == oid), "{name}");
    }
    let inherits = world.table("pg_inherits").oid.0;
    let ids: Vec<u64> = world.rows(inherits).iter().map(|row| row.row_id).collect();
    assert_eq!(ids, vec![4, 9]);
}

/// The catalogs with one of them written otherwise.
fn with_table(index: usize, changed: StaticCatalogTable) -> GeneratedCatalog {
    let generated = generated();
    let mut tables = generated.tables.to_vec();
    tables[index] = changed;
    let tables = leak(tables);
    GeneratedCatalog {
        tables,
        virtual_catalogs: leak(virtual_catalog_records(tables)),
        ..generated
    }
}

#[test]
fn sound_data_is_told_from_other_data() {
    let sound = generated();
    assert!(is_sound(&sound));
    let tables = sound.tables;
    let at = |name: &str| tables.iter().position(|table| table.name == name).unwrap();
    let last = at("pg_sequence");
    let shared_oid = StaticCatalogTable { oid: tables[0].oid, ..tables[last] };
    assert!(!is_sound(&with_table(last, shared_oid)));
    let shared_name = StaticCatalogTable { name: tables[0].name, ..tables[last] };
    assert!(!is_sound(&with_table(last, shared_name)));
    let shared_type = StaticCatalogTable { rowtype_oid: tables[0].rowtype_oid, ..tables[last] };
    assert!(!is_sound(&with_table(last, shared_type)));
    let upper = StaticCatalogTable { name: "PG_OTHER", ..tables[last] };
    assert!(!is_sound(&with_table(last, upper)));
    let taken = StaticCatalogTable { name: "int4", ..tables[last] };
    assert!(!is_sound(&with_table(last, taken)));
    let namespaces = at("pg_namespace");
    let bare = StaticCatalogTable { rows: leak(vec![]), ..tables[namespaces] };
    assert!(!is_sound(&with_table(namespaces, bare)));
    let classes = at("pg_class");
    let narrow = StaticCatalogTable { columns: leak(vec![]), ..tables[classes] };
    assert!(!is_sound(&with_table(classes, narrow)));
    let databases = at("pg_database");
    let short = StaticCatalogTable {
        columns: leak(tables[databases].columns[..1].to_vec()),
        ..tables[databases]
    };
    assert!(!is_sound(&with_table(databases, short)));
    let renamed = StaticCatalogTable { name: "pg_index_list", ..tables[at("pg_indexes")] };
    assert!(!is_sound(&with_table(at("pg_indexes"), renamed)));
    let mut records = virtual_catalog_records(tables);
    records[0].policy = VirtualCatalogPolicy::Empty;
    assert!(!is_sound(&GeneratedCatalog { virtual_catalogs: leak(records), ..generated() }));
    let untyped = GeneratedCatalog { types: leak(vec![]), ..generated() };
    assert!(!is_sound(&untyped));
}

/// The rows of an index on a relation.
fn put_index(world: &mut World, tablespace: &'static str, unique: &'static str) {
    world.put(
        "pg_class",
        71_000,
        &relation_values("71000", "listed", "71001", "t", "2"),
    );
    for (name, attnum) in [("a", "1"), ("b", "2")] {
        world.put(
            "pg_attribute",
            0,
            &attribute("71000", name, "23", "4", attnum, "t", "p", "t", "f"),
        );
    }
    world.put(
        "pg_class",
        71_002,
        &[
            ("oid", "71002"),
            ("relname", "listed_b_a"),
            ("relnamespace", "2200"),
            ("relam", "405"),
            ("reltablespace", tablespace),
            ("relkind", "i"),
            ("relnatts", "2"),
        ],
    );
    world.put(
        "pg_index",
        71_002,
        &[
            ("indexrelid", "71002"),
            ("indrelid", "71000"),
            ("indnatts", "2"),
            ("indnkeyatts", "2"),
            ("indisunique", unique),
            ("indisprimary", "f"),
            ("indisvalid", "t"),
            ("indisready", "t"),
            ("indislive", "t"),
            ("indkey", "2 1"),
        ],
    );
}

#[test]
fn indexes_are_told_in_words() {
    let mut world = World::new();
    put_index(&mut world, "1664", "f");
    let told = |world: &mut World| {
        let table = world.table("pg_indexes");
        world
            .rows(PG_INDEXES_RELATION_OID)
            .iter()
            .find(|row| row.row_id == 71_002)
            .map(|row| {
                (
                    catalog_row_value(table, row, "tablespace").cloned(),
                    catalog_row_value(table, row, "indexdef").cloned(),
                )
            })
    };
    let text = |text: &str| Some(CatalogValue::Text(text.to_owned()));
    assert_eq!(
        told(&mut world),
        Some((
            Some(CatalogValue::Name("pg_global".to_owned())),
            text("CREATE INDEX listed_b_a ON public.listed USING hash (b, a)"),
        ))
    );
    put_index(&mut world, "0", "t");
    assert_eq!(
        told(&mut world),
        Some((
            Some(CatalogValue::Null),
            text("CREATE UNIQUE INDEX listed_b_a ON public.listed USING hash (b, a)"),
        ))
    );
    let table = world.table("pg_indexes");
    let filter = CatalogRowFilter {
        attnum: world.attnum("pg_indexes", "indexname"),
        value: CatalogFilterValue::Name("listed_b_a".to_owned()),
    };
    let found = world.filtered(table.oid, &[filter]);
    assert_eq!(ids(&found), vec![71_002]);
    world.seen();
    let s = visible_snapshot(&world.generated, &world.state, &world.session);
    let index =
        index_record_by_index_oid(&world.generated, s, false, &mut world.cache, Oid(71_002))
            .expect("an index");
    let alone = synthetic_pg_indexes_row(&world.generated, s, table, &index);
    assert_eq!(alone, Some(found[0].clone()));
    delete_catalog_row(
        &world.generated,
        &mut world.session,
        Oid(PG_CLASS_RELATION_OID),
        71_000,
    )
    .unwrap();
    assert_eq!(told(&mut world), None);
}

#[test]
fn catalog_indexes_are_told_where_their_relation_is() {
    let mut world = World::new();
    let ids: Vec<u64> =
        world.rows(PG_INDEXES_RELATION_OID).iter().map(|row| row.row_id).collect();
    assert_eq!(ids, vec![2662, 2663]);
    let definition = CatalogValue::Text(
        "CREATE UNIQUE INDEX pg_class_relname_nsp_index ON pg_catalog.pg_class USING btree \
         (relname, relnamespace)"
            .to_owned(),
    );
    assert!(tells_index(&mut world, &[("indexdef", definition)]));
}

#[test]
fn roles_are_shown_without_their_passwords() {
    let mut world = World::new();
    let table = world.table("pg_roles");
    let rows = world.rows(table.oid.0);
    assert_eq!(rows.iter().map(|row| row.row_id).collect::<Vec<_>>(), vec![10, 6171]);
    assert_eq!(world.text("pg_roles", &rows[0], "rolname"), Some("POSTGRES".to_owned()));
    assert_eq!(world.text("pg_roles", &rows[0], "rolpassword"), Some("********".to_owned()));
    assert_eq!(
        catalog_row_value(table, &rows[0], "rolsuper"),
        Some(&CatalogValue::Bool(true))
    );
    assert_eq!(catalog_row_value(table, &rows[1], "rolconfig"), Some(&CatalogValue::Null));
}
