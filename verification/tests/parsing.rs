use fastpg::bind::{bind, BoundExpression, BoundStatement};
use fastpg::lexing::find_matching_paren;
use fastpg::parser::{parse, ColumnDef, Literal, ParsedStatement, SqlTypeName};
use fastpg::types::{Column, PgType};

#[test]
fn parses_pgbench_create_table() {
    let statement = parse(
        "create table pgbench_accounts(aid int not null,bid int,abalance int,filler char(84)) with (fillfactor=100)",
    )
    .unwrap();

    assert_eq!(
        statement,
        ParsedStatement::CreateTable {
            name: "pgbench_accounts".to_owned(),
            columns: vec![
                ColumnDef {
                    name: "aid".to_owned(),
                    data_type: SqlTypeName::Int4,
                },
                ColumnDef {
                    name: "bid".to_owned(),
                    data_type: SqlTypeName::Int4,
                },
                ColumnDef {
                    name: "abalance".to_owned(),
                    data_type: SqlTypeName::Int4,
                },
                ColumnDef {
                    name: "filler".to_owned(),
                    data_type: SqlTypeName::Text,
                },
            ],
        }
    );
}

#[test]
fn parses_simple_update_statement() {
    let statement =
        parse("UPDATE pgbench_accounts SET abalance = abalance + -42 WHERE aid = 7;").unwrap();

    assert_eq!(
        statement,
        ParsedStatement::UpdateAddInt {
            table: "pgbench_accounts".to_owned(),
            column: "abalance".to_owned(),
            addend: -42,
            key_column: "aid".to_owned(),
            key_value: 7,
        }
    );
}

#[test]
fn reads_fixed_queries_in_any_case_and_spacing() {
    assert_eq!(parse("SELECT 1").unwrap(), ParsedStatement::SelectOne);
    assert_eq!(parse("  select\n 1 ;; ").unwrap(), ParsedStatement::SelectOne);
    assert_eq!(parse("show SERVER_VERSION").unwrap(), ParsedStatement::ShowServerVersion);
    assert_eq!(parse("select $1::int4").unwrap(), ParsedStatement::SelectInt4Parameter);
    assert_eq!(
        parse("SELECT relkind FROM pg_catalog.pg_class WHERE oid=$1::pg_catalog.regclass").unwrap(),
        ParsedStatement::SelectRelkindByRegclassParameter
    );
    assert_eq!(
        parse(
            "select o.n, p.partstrat, pg_catalog.count(i.inhparent) from pg_catalog.pg_class as c join x",
        )
        .unwrap(),
        ParsedStatement::SelectPgbenchPartitionInfo
    );
    assert_eq!(parse("BEGIN;").unwrap(), ParsedStatement::Begin);
    assert_eq!(parse("end").unwrap(), ParsedStatement::Commit);
    assert_eq!(parse("commit").unwrap(), ParsedStatement::Commit);
    assert_eq!(parse("RollBack").unwrap(), ParsedStatement::Rollback);
}

#[test]
fn reads_drop_truncate_and_copy() {
    assert_eq!(
        parse("drop table if exists A, \"B\"\"c\"").unwrap(),
        ParsedStatement::DropTables {
            if_exists: true,
            names: vec!["a".to_owned(), "B\"c".to_owned()],
        }
    );
    assert_eq!(
        parse("DROP TABLE t").unwrap(),
        ParsedStatement::DropTables { if_exists: false, names: vec!["t".to_owned()] }
    );
    assert_eq!(
        parse("truncate a, b").unwrap(),
        ParsedStatement::TruncateTables { names: vec!["a".to_owned(), "b".to_owned()] }
    );
    assert_eq!(
        parse("truncate table a").unwrap(),
        ParsedStatement::TruncateTables { names: vec!["a".to_owned()] }
    );
    assert_eq!(
        parse("copy Pgbench_Accounts from STDIN with (freeze on)").unwrap(),
        ParsedStatement::CopyFromStdin { table: "pgbench_accounts".to_owned() }
    );
}

#[test]
fn reads_selects_and_inserts() {
    assert_eq!(
        parse("select count(*) from pgbench_branches").unwrap(),
        ParsedStatement::SelectCount { table: "pgbench_branches".to_owned() }
    );
    assert_eq!(
        parse("SELECT abalance FROM pgbench_accounts WHERE aid = 17;").unwrap(),
        ParsedStatement::SelectColumnWhereInt {
            table: "pgbench_accounts".to_owned(),
            column: "abalance".to_owned(),
            key_column: "aid".to_owned(),
            key_value: 17,
        }
    );
    assert_eq!(
        parse("insert into h (tid, note, at, gone) values (1, 'it''s (a, b)', CURRENT_TIMESTAMP, null)")
            .unwrap(),
        ParsedStatement::Insert {
            table: "h".to_owned(),
            columns: vec![
                "tid".to_owned(),
                "note".to_owned(),
                "at".to_owned(),
                "gone".to_owned(),
            ],
            values: vec![
                Literal::Int(1),
                Literal::Text("it's (a, b)".to_owned()),
                Literal::CurrentTimestamp,
                Literal::Null,
            ],
        }
    );
    assert_eq!(
        parse("insert into h values (-9223372036854775808)").unwrap(),
        ParsedStatement::Insert {
            table: "h".to_owned(),
            columns: vec![],
            values: vec![Literal::Int(i64::MIN)],
        }
    );
}

#[test]
fn refuses_what_is_no_statement() {
    for sql in [
        "",
        " ; ",
        "select 2",
        "create table t(a box)",
        "create table t(a",
        "insert into t values (x)",
        "update t set a = b where c = 1",
        "select a from t where b = 99999999999999999999",
    ] {
        assert_eq!(parse(sql).unwrap_err().query, sql);
    }
}

#[test]
fn reads_column_types() {
    assert_eq!(
        parse("create unlogged table t(a bigint, b integer, c varchar(3), d timestamp)").unwrap(),
        ParsedStatement::CreateTable {
            name: "t".to_owned(),
            columns: vec![
                ColumnDef { name: "a".to_owned(), data_type: SqlTypeName::Int8 },
                ColumnDef { name: "b".to_owned(), data_type: SqlTypeName::Int4 },
                ColumnDef { name: "c".to_owned(), data_type: SqlTypeName::Text },
                ColumnDef { name: "d".to_owned(), data_type: SqlTypeName::Text },
            ],
        }
    );
}

#[test]
fn binds_columns_to_their_types() {
    let bound = bind(parse("create table t(a int, b bigint, c text)").unwrap());
    assert_eq!(
        bound,
        BoundStatement::CreateTable {
            name: "t".to_owned(),
            columns: vec![
                Column::new("a", PgType::Int4),
                Column::new("b", PgType::Int8),
                Column::new("c", PgType::Varchar),
            ],
        }
    );
    let BoundStatement::CreateTable { columns, .. } = bound else {
        panic!("expected a table");
    };
    assert_eq!(columns[0].type_oid, 23);
    assert_eq!(columns[1].type_oid, 20);
    assert_eq!(columns[2].type_oid, 1043);
    assert_eq!(columns[2].type_modifier, -1);
}

#[test]
fn binds_values_and_keeps_the_rest() {
    assert_eq!(
        bind(parse("insert into t values (1, 'x', null, current_timestamp)").unwrap()),
        BoundStatement::Insert {
            table: "t".to_owned(),
            columns: vec![],
            values: vec![
                BoundExpression::Int(1),
                BoundExpression::Text("x".to_owned()),
                BoundExpression::Null,
                BoundExpression::CurrentTimestamp,
            ],
        }
    );
    assert_eq!(bind(ParsedStatement::Begin), BoundStatement::Begin);
    assert_eq!(
        bind(parse("drop table a, b").unwrap()),
        BoundStatement::DropTables {
            if_exists: false,
            names: vec!["a".to_owned(), "b".to_owned()],
        }
    );
}

#[test]
fn space_and_semicolons_around_a_statement_change_nothing() {
    for bare in ["BEGIN", "select 1", "drop table a, b"] {
        let parsed = parse(bare).unwrap();
        for (before, gap, semicolons, after) in
            [("", "", ";", ""), (" \n", "", ";;;", " "), ("", " \t", ";", "\n"), (" ", " ", "", "")]
        {
            let dressed = format!("{before}{bare}{gap}{semicolons}{after}");
            assert_eq!(parse(&dressed).unwrap(), parsed, "{dressed:?}");
        }
    }
    assert!(parse(" ; ").is_err());
    assert!(parse("BEGIN; ;").is_err());
}

#[test]
fn a_parenthesis_is_closed_by_its_own() {
    let text: Vec<char> = "(a, (b), ')')".chars().collect();
    assert_eq!(find_matching_paren(&text, 0), Some(12));
    assert_eq!(find_matching_paren(&text, 4), Some(6));
    assert_eq!(find_matching_paren(&text, 13), None);
    assert_eq!(find_matching_paren(&text, 99), None);
    assert_eq!(find_matching_paren(&vec!['(', 'a'], 0), None);
    assert_eq!(find_matching_paren(&vec![')'], 0), None);
}
