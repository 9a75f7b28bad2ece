use fastpg::catalog::model::{ColumnRecord, RelationRecord};
use fastpg::exec::copy::{
    CopyColumn, CopyTarget, COPY_ERROR_FIELDS_PREFIX, COPY_FORMAT_CSV, COPY_HEADER_MATCH,
    COPY_ON_ERROR_IGNORE,
};
use fastpg::exec::copy_rows::{
    copy_text_line_postgres_catalog, copy_text_line_storage2, CopyLine, CopyRow,
};
use fastpg::exec::copy_sql::copy_from_file_sql;
use fastpg::exec::copy_steps::{next_step, start_row, take_reply, CopyDatum, CopyStep};
use fastpg::exec::executor::plain_copy_target;
use fastpg::exec::pgcore::{InputDatum, PgCoreError};
use fastpg::types::Oid;

fn column(name: &str, attnum: i16, type_oid: u32) -> CopyColumn {
    CopyColumn { name: name.to_owned(), attnum, type_oid, type_modifier: -1 }
}

fn target() -> CopyTarget {
    let mut target = plain_copy_target("t");
    target.table_oid = 16384;
    target.relation_columns = 3;
    target.columns = 2;
    target.column_metadata = vec![column("id", 3, 23), column("note", 1, 25)];
    target
}

fn error(message: &str) -> PgCoreError {
    PgCoreError {
        sqlstate: "22P02".to_owned(),
        message: message.to_owned(),
        detail: Some("d".to_owned()),
        hint: None,
        context: Some("c".to_owned()),
        cursorpos: 0,
        internal_query: None,
        internalpos: 0,
        notices: vec![],
        partial: vec![],
    }
}

fn word(value: usize) -> Result<InputDatum, PgCoreError> {
    Ok(InputDatum { typbyval: true, value, payload: None })
}

fn bytes(payload: &[u8]) -> Result<InputDatum, PgCoreError> {
    Ok(InputDatum { typbyval: false, value: 0, payload: Some(payload.to_vec()) })
}

fn row_of(line: CopyLine) -> CopyRow {
    match line {
        CopyLine::Row(row) => row,
        other => panic!("expected a row, got {:?}", other),
    }
}

fn read(type_oid: u32, text: &str) -> CopyStep {
    CopyStep::Read { type_oid, type_modifier: -1, text: text.to_owned() }
}

fn refused(message: &str) -> CopyLine {
    CopyLine::Refused(message.to_owned())
}

#[test]
fn header_lines_are_counted() {
    let mut target = target();
    assert_eq!(target.header_lines_to_skip(), 0);
    target.header_line = COPY_HEADER_MATCH;
    assert_eq!(target.header_lines_to_skip(), 1);
    target.header_line = 4;
    assert_eq!(target.header_lines_to_skip(), 4);
    target.header_line = -2;
    assert_eq!(target.header_lines_to_skip(), 0);
}

#[test]
fn headers_hold_the_names_of_the_columns() {
    let mut target = target();
    assert_eq!(target.validate_header_line("id\tnote"), Ok(()));
    assert_eq!(
        target.validate_header_line("id"),
        Err("wrong number of fields in header line: got 1, expected 2".to_owned())
    );
    assert_eq!(
        target.validate_header_line("id\tNote"),
        Err("column name mismatch in header line field 2: got \"Note\", expected \"note\""
            .to_owned())
    );
    assert_eq!(
        target.validate_header_line("\\N\tnote"),
        Err("column name mismatch in header line field 1: got null value (\"\\N\"), expected \"id\""
            .to_owned())
    );
    target.format = COPY_FORMAT_CSV;
    target.delimiter = ";".to_owned();
    assert_eq!(target.validate_header_line("\"id\";note"), Ok(()));
    assert_eq!(
        target.validate_header_line("\"id;note"),
        Err("unterminated CSV quoted field".to_owned())
    );
    target.format = 1;
    assert_eq!(
        target.validate_header_line("id\tnote"),
        Err("COPY FROM format 1 is not supported".to_owned())
    );
}

#[test]
fn csv_headers_take_any_name_between_quotes() {
    let mut target = target();
    target.format = COPY_FORMAT_CSV;
    target.delimiter = ",".to_owned();
    target.column_metadata[0].name = "a,\"b".to_owned();
    assert_eq!(target.validate_header_line("\"a,\"\"b\",\"note\""), Ok(()));
}

#[test]
fn text_headers_take_names_with_escapes() {
    let mut target = target();
    target.column_metadata[0].name = "a\tb\\".to_owned();
    assert_eq!(target.validate_header_line("a\\tb\\\\\tnote"), Ok(()));
}

#[test]
fn a_row_is_worked_off_in_steps() {
    let row = row_of(copy_text_line_postgres_catalog(&target(), "7\ta\\tb\r\n"));
    let mut progress = start_row(&row);
    assert_eq!(next_step(&row, &mut progress), read(23, "7"));
    assert_eq!(take_reply(&row, &mut progress, word(7)), read(25, "a\tb"));
    assert_eq!(take_reply(&row, &mut progress, bytes(b"a\tb")), CopyStep::Store);
    assert_eq!(
        progress.datums,
        vec![
            Some(CopyDatum::ByReference(b"a\tb".to_vec())),
            None,
            Some(CopyDatum::ByValue(7)),
        ]
    );
}

#[test]
fn nulls_are_put_without_a_step() {
    let row = row_of(copy_text_line_postgres_catalog(&target(), "\\N\t\\N"));
    let mut progress = start_row(&row);
    assert_eq!(next_step(&row, &mut progress), CopyStep::Store);
    assert_eq!(progress.datums, vec![None, None, None]);
}

#[test]
fn a_text_that_cannot_be_read_refuses_the_row_or_leaves_it_out() {
    let mut target = target();
    let row = row_of(copy_text_line_postgres_catalog(&target, "x\ty"));
    let mut progress = start_row(&row);
    next_step(&row, &mut progress);
    assert_eq!(
        take_reply(&row, &mut progress, Err(error("bad"))),
        CopyStep::Refuse(format!("{}bad\nd\n\nc", COPY_ERROR_FIELDS_PREFIX))
    );
    target.on_error = COPY_ON_ERROR_IGNORE;
    let row = row_of(copy_text_line_postgres_catalog(&target, "x\ty"));
    let mut progress = start_row(&row);
    next_step(&row, &mut progress);
    assert_eq!(take_reply(&row, &mut progress, Err(error("bad"))), CopyStep::Skip);
}

#[test]
fn columns_that_the_relation_lacks_refuse_the_row_in_turn() {
    let mut target = target();
    target.column_metadata[1].attnum = 4;
    let row = row_of(copy_text_line_postgres_catalog(&target, "1\t2"));
    let mut progress = start_row(&row);
    assert_eq!(next_step(&row, &mut progress), read(23, "1"));
    assert_eq!(
        take_reply(&row, &mut progress, word(1)),
        CopyStep::Refuse(
            "COPY column \"note\" of relation \"t\" has invalid attribute number 4".to_owned()
        )
    );
}

#[test]
fn lines_without_a_row_are_told() {
    let mut target = target();
    assert_eq!(copy_text_line_postgres_catalog(&target, "\\.\n"), CopyLine::Skipped);
    assert_eq!(
        copy_text_line_postgres_catalog(&target, "1\t\\."),
        refused("end-of-copy marker is not alone on its line")
    );
    assert_eq!(
        copy_text_line_postgres_catalog(&target, "1"),
        refused("COPY row for relation \"t\" has 1 fields but 2 columns")
    );
    assert_eq!(
        copy_text_line_postgres_catalog(&plain_copy_target("s"), "1"),
        refused("COPY target \"s\" is missing PostgreSQL catalog metadata")
    );
    target.format = COPY_FORMAT_CSV;
    assert_eq!(
        copy_text_line_postgres_catalog(&target, "\"1"),
        refused("unterminated CSV quoted field")
    );
    target.on_error = COPY_ON_ERROR_IGNORE;
    assert_eq!(copy_text_line_postgres_catalog(&target, "\"1"), CopyLine::Skipped);
}

fn relation() -> RelationRecord {
    let column = |name: &str, type_oid| ColumnRecord::new(name, Oid(type_oid), -1, false);
    RelationRecord {
        row_id: 1,
        oid: Oid(16384),
        type_oid: Oid(16385),
        namespace: Oid(2200),
        owner: Oid(10),
        name: "t".to_owned(),
        relkind: 114,
        columns: vec![column("id", 23), column("filler", 1042)],
        primary_key: vec![],
        primary_key_constraint_oid: None,
    }
}

#[test]
fn copy_from_stdin_uses_pgcore_and_rust_storage() {
    let target = plain_copy_target("t");
    let row = row_of(copy_text_line_storage2(&target, &Some(relation()), "1\t"));
    let mut progress = start_row(&row);
    assert_eq!(next_step(&row, &mut progress), read(23, "1"));
    assert_eq!(take_reply(&row, &mut progress, word(1)), read(1042, ""));
    assert_eq!(
        take_reply(&row, &mut progress, Ok(InputDatum {
            typbyval: false,
            value: 0,
            payload: None,
        })),
        CopyStep::Store
    );
    assert_eq!(
        progress.datums,
        vec![Some(CopyDatum::ByValue(1)), Some(CopyDatum::ByReference(vec![]))]
    );
    assert_eq!(
        copy_text_line_storage2(&target, &Some(relation()), "\\."),
        CopyLine::Skipped
    );
}

#[test]
fn named_columns_say_where_fields_go() {
    let mut target = plain_copy_target("t");
    target.column_names = vec!["FILLER".to_owned()];
    let row = row_of(copy_text_line_storage2(&target, &Some(relation()), "x"));
    let mut progress = start_row(&row);
    assert_eq!(next_step(&row, &mut progress), read(1042, "x"));
    take_reply(&row, &mut progress, bytes(b"x"));
    assert_eq!(
        progress.datums,
        vec![None, Some(CopyDatum::ByReference(b"x".to_vec()))]
    );
    assert_eq!(
        copy_text_line_storage2(&target, &Some(relation()), "x\ty"),
        refused("COPY row for relation \"t\" has 2 fields but 1 columns")
    );
    target.column_names = vec!["Gone".to_owned()];
    assert_eq!(
        copy_text_line_storage2(&target, &Some(relation()), "x\ty"),
        refused("column \"Gone\" of relation \"t\" does not exist")
    );
    target.table = " s ".to_owned();
    assert_eq!(
        copy_text_line_storage2(&target, &None, "x"),
        refused("relation \"s\" does not exist")
    );
}

#[test]
fn a_copy_from_a_file_is_written_as_a_statement() {
    let mut target = plain_copy_target("a\"b");
    assert_eq!(
        copy_from_file_sql(&target, "/tmp/it's"),
        "COPY \"a\"\"b\" FROM '/tmp/it''s' WITH (FORMAT text, DELIMITER '\t', NULL '\\N')"
    );
    target.column_names = vec!["x".to_owned(), "y".to_owned()];
    target.format = COPY_FORMAT_CSV;
    target.header_line = 2;
    target.delimiter = ",".to_owned();
    target.null_print = String::new();
    target.default_print = Some("D".to_owned());
    target.on_error = COPY_ON_ERROR_IGNORE;
    target.freeze = true;
    assert_eq!(
        copy_from_file_sql(&target, "f"),
        "COPY \"a\"\"b\" (\"x\", \"y\") FROM 'f' WITH (FORMAT csv, HEADER 2, DELIMITER ',', \
         NULL '', DEFAULT 'D', ON_ERROR ignore, FREEZE true)"
    );
    target.header_line = COPY_HEADER_MATCH;
    assert!(copy_from_file_sql(&target, "f").contains("HEADER MATCH, DELIMITER"));
}
