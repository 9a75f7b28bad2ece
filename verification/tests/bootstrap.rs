use fastpg::bootstrap::bki::{parse_bki, BkiColumn, BkiTable};
use fastpg::bootstrap::cells::{
    catalog_char, column_index, has_columns, oid_vec_value, parse_catalog_i64, parse_catalog_oid,
    row_value, str_value,
};
use fastpg::bootstrap::meson::{parse_major_version, parse_meson_string_list};
use fastpg::bootstrap::records::{
    pg_aggregate_record, pg_cast_record, pg_namespace_record, pg_operator_record, pg_type_record,
};
use fastpg::bootstrap::schema::{parse_schema, parse_schema_column, split_csvish, SchemaLine};
use fastpg::bootstrap::tables::{
    find_table, static_catalog_column, static_row_id, type_oid_by_name, virtual_catalog_policy,
};
use fastpg::bootstrap::values::{parse_insert_values, tokenize_bki_values};
use fastpg::catalog::model::VirtualCatalogPolicy;
use fastpg::types::Oid;

fn chars(s: &str) -> Vec<char> {
    s.chars().collect()
}

fn strings(list: Vec<Vec<char>>) -> Vec<String> {
    list.into_iter().map(|s| s.into_iter().collect()).collect()
}

const BKI: &str = "\
# a comment
create pg_type 1247 bootstrap rowtype_oid 71
 (
 oid = oid ,
 typname = name ,
 typlen = int2
 )
insert ( 16 bool 1 )
insert ( 19 name NAMEDATALEN )
open pg_type
close pg_type
create pg_namespace 2615
 (
 oid = oid ,
 nspname = name FORCE NOT NULL ,
 nspowner = oid
 )
insert ( 11 pg_catalog 10 )
insert ( 2200 'it''s (public)' _null_ )
";

fn tables() -> Vec<BkiTable> {
    parse_bki(BKI).expect("catalogs")
}

#[test]
fn catalogs_are_read_with_their_columns_and_rows() {
    let tables = tables();
    assert_eq!(tables.len(), 2);
    assert_eq!(tables[0].name, "pg_type");
    assert_eq!((tables[0].oid, tables[0].rowtype_oid), (1247, 71));
    assert_eq!(
        tables[0].columns[1],
        BkiColumn { name: "typname".to_owned(), column_type: "name".to_owned() }
    );
    assert_eq!(tables[0].rows.len(), 2);
    assert_eq!((tables[1].oid, tables[1].rowtype_oid), (2615, 0));
    assert_eq!(
        tables[1].rows[1],
        vec![Some("2200".to_owned()), Some("it's (public)".to_owned()), None]
    );
}

#[test]
fn lines_without_a_catalog_or_a_number_are_refused() {
    assert!(parse_bki("insert ( 1 )\n").is_none());
    assert!(parse_bki("create pg_type\n").is_none());
    assert!(parse_bki("create pg_type x\n(\n)\n").is_none());
    assert!(parse_bki("create pg_type 1 rowtype_oid x\n(\n)\n").is_none());
    assert!(parse_bki("create pg_type 1\n(\n)\ninsert 1\n").is_none());
    assert_eq!(parse_bki("").expect("nothing").len(), 0);
}

#[test]
fn values_end_at_space_outside_quotes() {
    let values = |s: &str| strings(tokenize_bki_values(&chars(s)));
    assert_eq!(values(" 1 'a b' c'd e'f "), vec!["1", "a b", "cd ef"]);
    assert_eq!(values("'it''s' ''"), vec!["it's"]);
    assert_eq!(
        parse_insert_values(&chars("insert ( 1 _null_ ')' )")),
        Some(vec![Some("1".to_owned()), None, Some(")".to_owned())])
    );
    assert_eq!(parse_insert_values(&chars("insert ) (")), None);
}

#[test]
fn descriptions_are_read_field_by_field() {
    assert_eq!(
        strings(split_csvish(&chars("0, {\"a,b\"}, ',', \"x\\,\" , { 1, 2 }"))),
        vec!["0", "{\"a,b\"}", "','", "\"x\\,\"", "{ 1, 2 }"]
    );
    let line = "{ 1247, {\"typname\"}, 19, NAMEDATALEN, 2, -1, 0, false, TYPALIGN_CHAR, \
                TYPSTORAGE_PLAIN, '\\0', true, false, false, '\\0', '\\0', false, true, 0, 950, \
                {0} }, \\";
    let SchemaLine::Column(column) = parse_schema_column(&chars(line)) else {
        panic!("a column");
    };
    assert_eq!(column.name, "typname");
    assert_eq!((column.type_oid, column.attlen, column.attnum), (19, 64, 2));
    assert_eq!((column.attbyval, column.attnotnull), (false, true));
    assert_eq!((column.attalign, column.attstorage), (b'T', b'T'));
    assert_eq!(column.attcollation, 950);
    assert_eq!(parse_schema_column(&chars("{ 1, 2 }")), SchemaLine::Short);
    assert_eq!(
        parse_schema_column(&chars(&line.replace("false, TYPALIGN", "maybe, TYPALIGN"))),
        SchemaLine::Refused
    );
    assert_eq!(
        parse_schema_column(&chars(&line.replace("NAMEDATALEN", "70000"))),
        SchemaLine::Refused
    );

    let text = format!("{{ 1 }}\n#define Schema_pg_type \\\n{line}\n#define Schema_pg_proc\n\
                        #define Schema_pg_type\n{line}\n");
    let schema = parse_schema(&text).expect("a description");
    let names: Vec<&str> = schema.iter().map(|table| table.name.as_str()).collect();
    assert_eq!(names, vec!["pg_type \\", "pg_proc", "pg_type"]);
    assert_eq!(schema[0].columns.len(), 1);
    assert_eq!(schema[1].columns.len(), 0);
}

#[test]
fn descriptions_of_one_catalog_come_together() {
    let line = "{ 0, {\"a\"}, 23, 4, 1, -1, 0, true, 'i', 'p', '\\0', false, false, false, \
                '\\0', '\\0', false, true, 0, 0 }";
    let text = format!("#define Schema_x\n{line}\n#define Schema_y\n#define Schema_x\n{line}\n");
    let schema = parse_schema(&text).expect("a description");
    assert_eq!(schema.len(), 2);
    assert_eq!(schema[0].columns.len(), 2);
    assert_eq!(schema[0].columns[0].attalign, b'i');
    assert!(parse_schema(&text.replace("true, 'i'", "no, 'i'")).is_none());
}

#[test]
fn cells_are_read_by_the_names_of_their_columns() {
    let tables = tables();
    let table = &tables[1];
    assert_eq!(column_index(table, "nspname"), Some(1));
    assert_eq!(column_index(table, "nspacl"), None);
    assert!(has_columns(table, &vec!["oid", "nspowner"]));
    assert!(!has_columns(table, &vec!["oid", "nspacl"]));
    assert_eq!(row_value(table, &table.rows[1], "nspowner"), None);
    assert_eq!(str_value(table, &table.rows[1], "nspowner"), "");
    assert_eq!(parse_catalog_i64("-"), Some(0));
    assert_eq!(parse_catalog_i64(""), Some(0));
    assert_eq!(parse_catalog_i64("NAMEDATALEN"), Some(64));
    assert_eq!(parse_catalog_i64("x"), None);
    assert_eq!(parse_catalog_oid("-1"), None);
    assert_eq!(parse_catalog_oid("4294967295"), Some(4294967295));
    assert_eq!(catalog_char("\\0"), 0);
    assert_eq!(catalog_char(""), 0);
    assert_eq!(catalog_char("bx"), b'b');
}

fn one_row(names: &[&str], texts: &[&str]) -> BkiTable {
    BkiTable {
        name: "t".to_owned(),
        oid: 7,
        rowtype_oid: 0,
        columns: names
            .iter()
            .map(|name| BkiColumn { name: name.to_string(), column_type: "text".to_owned() })
            .collect(),
        rows: vec![texts.iter().map(|s| Some(s.to_string())).collect()],
    }
}

#[test]
fn records_are_made_of_rows() {
    let table = &tables()[1];
    let record = pg_namespace_record(table, &table.rows[0], "pg_catalog").expect("a schema");
    assert_eq!((record.oid, record.name, record.owner), (Oid(11), "pg_catalog", Oid(10)));
    assert!(pg_cast_record(table, &table.rows[0]).is_none());

    let cast = one_row(
        &["oid", "castsource", "casttarget", "castfunc", "castcontext", "castmethod"],
        &["1", "1184", "1114", "2027", "a", "f"],
    );
    let record = pg_cast_record(&cast, &cast.rows[0]).expect("a cast");
    assert_eq!((record.source_type, record.function), (Oid(1184), Oid(2027)));
    assert_eq!((record.context, record.method), (b'a', b'f'));

    let names = [
        "oid", "typname", "typnamespace", "typowner", "typlen", "typbyval", "typalign", "typdelim",
        "typinput", "typoutput", "typreceive", "typsend", "typmodin", "typmodout", "typisdefined",
        "typtype", "typcategory", "typispreferred", "typrelid", "typelem", "typarray",
        "typbasetype", "typtypmod", "typcollation", "typsubscript", "typstorage",
    ];
    let mut texts = [
        "19", "name", "11", "10", "NAMEDATALEN", "f", "c", ",", "34", "35", "2422", "2423", "-",
        "-", "t", "b", "S", "f", "0", "18", "1003", "0", "-1", "950", "6180", "p",
    ];
    let table = one_row(&names, &texts);
    let record = pg_type_record(&table, &table.rows[0], "name").expect("a type");
    assert_eq!((record.oid, record.typlen, record.typtypmod), (Oid(19), 64, -1));
    assert_eq!((record.typbyval, record.typisdefined), (false, true));
    texts[4] = "40000";
    let table = one_row(&names, &texts);
    assert!(pg_type_record(&table, &table.rows[0], "name").is_none());
    texts[4] = "64";
    texts[5] = "maybe";
    let table = one_row(&names, &texts);
    assert!(pg_type_record(&table, &table.rows[0], "name").is_none());

    let names = [
        "oid", "oprname", "oprnamespace", "oprowner", "oprkind", "oprcanmerge", "oprcanhash",
        "oprleft", "oprright", "oprresult", "oprcom", "oprnegate", "oprcode", "oprrest", "oprjoin",
    ];
    let texts = [
        "58", "<", "11", "10", "b", "f", "f", "16", "16", "16", "59", "1695", "56", "103", "107",
    ];
    let table = one_row(&names, &texts);
    let record = pg_operator_record(&table, &table.rows[0], "<").expect("an operator");
    assert_eq!((record.oid, record.code, record.negator), (Oid(58), Oid(56), Oid(1695)));

    let names = [
        "aggfnoid", "aggkind", "aggnumdirectargs", "aggtransfn", "aggfinalfn", "aggcombinefn",
        "aggserialfn", "aggdeserialfn", "aggmtransfn", "aggminvtransfn", "aggmfinalfn",
        "aggfinalextra", "aggmfinalextra", "aggfinalmodify", "aggmfinalmodify", "aggsortop",
        "aggtranstype", "aggtransspace", "aggmtranstype", "aggmtransspace", "agginitval",
        "aggminitval",
    ];
    let texts = [
        "2100", "n", "0", "1", "2", "3", "4", "5", "6", "7", "8", "f", "t", "r", "w", "0", "2281",
        "48", "2281", "48", "{0,0}",
    ];
    let table = one_row(&names, &texts);
    let record =
        pg_aggregate_record(&table, &table.rows[0], Some("{0,0}"), None).expect("an aggregate");
    assert_eq!((record.transition_fn, record.moving_final_fn), (Oid(1), Oid(8)));
    assert_eq!((record.final_extra, record.moving_final_extra), (false, true));
    assert_eq!(record.init_value, Some("{0,0}"));
    let table = one_row(&["proargtypes"], &["23 x 25"]);
    assert_eq!(
        oid_vec_value(&table, &table.rows[0], "proargtypes"),
        vec![Oid(23), Oid(25)]
    );
}

#[test]
fn columns_and_rows_of_catalogs_get_their_identities() {
    let tables = tables();
    let pg_type = find_table(&tables, "pg_type").expect("pg_type");
    assert!(find_table(&tables, "pg_proc").is_none());
    assert_eq!(type_oid_by_name(pg_type, "name"), Some(Oid(19)));
    assert_eq!(type_oid_by_name(pg_type, "text"), None);
    let column = static_catalog_column(
        &tables,
        pg_type,
        &vec![],
        pg_type,
        &pg_type.columns[1],
        "typname",
        "name",
    );
    assert_eq!((column.type_oid, column.attbyval), (Oid(19), false));
    let schema = parse_schema(
        "#define Schema_pg_type\n{ 0, {\"typname\"}, 19, 64, 2, -1, 0, false, 'c', 'p', '\\0', \
         true, false, false, '\\0', '\\0', false, true, 0, 950 }",
    )
    .expect("a description");
    let column = static_catalog_column(
        &tables,
        pg_type,
        &schema,
        pg_type,
        &pg_type.columns[1],
        "typname",
        "name",
    );
    assert_eq!((column.attlen, column.attnum, column.attnotnull), (64, 2, true));
    assert_eq!(static_row_id(pg_type, 1), 19);
    let table = one_row(&["a"], &["1"]);
    assert_eq!(static_row_id(&table, 0), (7 << 32) | 1);
    assert_eq!(virtual_catalog_policy("pg_depend"), VirtualCatalogPolicy::Empty);
}

#[test]
fn build_files_tell_their_lists_and_the_version() {
    let contents = "project('x', version: '19devel',\n)\ncatalog_headers = [\n  'pg_proc.h',\n  \
                    # none\n  'pg_type.h',\n]\nother = [\n  'b',\n]\n";
    assert_eq!(
        parse_meson_string_list(contents, "catalog_headers"),
        Some(vec!["pg_proc.h".to_owned(), "pg_type.h".to_owned()])
    );
    assert_eq!(parse_meson_string_list(contents, "bki_data"), None);
    assert_eq!(parse_major_version(contents), Some("19".to_owned()));
    assert_eq!(parse_major_version("version: 'x'"), None);
    assert_eq!(parse_major_version(""), None);
}
