use fastpg::exec::closing::{
    abort_copy, begin_copy, close_work, finish_copy, CloseAction, StorageAction,
};
use fastpg::exec::commands::{
    copy_route, fast_transaction_command, plan_execution, storage2_enabled, CopyRoute,
    ExecutionPlan,
};
use fastpg::exec::decode::{
    decode_fault, pg_type_for_oid, pgcore_param_value, pgcore_value_to_value, PgCoreRowConversion,
};
use fastpg::exec::executor::{plain_copy_target, QueryExecutor, QueryExecutorShared};
use fastpg::exec::pgcore::{
    ExecutionOutcome, ExecutionStatement, PgCoreError, PgCoreParam, PgCoreTransactionCommand,
    PgCoreValue, StatementDescription, StatementField,
};
use fastpg::exec::query::{
    CopyOutput, QueryDescription, QueryExecution, QueryNotice, QueryResult,
};
use fastpg::exec::results::{
    pgcore_error_execution, pgcore_statement_to_query_execution,
    pgcore_statements_to_query_execution, query_description_from_pgcore,
};
use fastpg::exec::session::{
    plan_buffered_copy, settle_file_copy, settle_transaction, BufferedCopy, CoreSession, FileCopy,
    SimpleOutcome,
};
use fastpg::types::{Column, PgType, Value};

fn text(s: &str) -> PgCoreValue {
    PgCoreValue::Text(s.to_owned())
}

fn field(name: &str, type_oid: u32) -> StatementField {
    StatementField { name: name.to_owned(), type_oid, type_modifier: -1 }
}

fn command(tag: &str, rows: Option<usize>) -> ExecutionStatement {
    ExecutionStatement {
        fields: vec![],
        rows: vec![],
        is_select: false,
        command_tag: tag.to_owned(),
        command_rows: rows,
        copy_in: None,
        copy_out: None,
    }
}

fn select(fields: Vec<StatementField>, rows: Vec<Vec<PgCoreValue>>) -> ExecutionStatement {
    ExecutionStatement {
        fields,
        rows,
        is_select: true,
        command_tag: "SELECT".to_owned(),
        command_rows: None,
        copy_in: None,
        copy_out: None,
    }
}

fn notice(message: &str) -> QueryNotice {
    QueryNotice {
        severity: "NOTICE".to_owned(),
        sqlstate: "00000".to_owned(),
        message: message.to_owned(),
        detail: None,
        hint: None,
        context: None,
        cursorpos: 0,
    }
}

fn error(message: &str) -> PgCoreError {
    PgCoreError {
        sqlstate: "42601".to_owned(),
        message: message.to_owned(),
        detail: None,
        hint: Some("a hint".to_owned()),
        context: None,
        cursorpos: 3,
        internal_query: None,
        internalpos: 0,
        notices: vec![],
        partial: vec![],
    }
}

fn told(message: &str) -> QueryExecution {
    QueryExecution::Error {
        sqlstate: "42601".to_owned(),
        message: message.to_owned(),
        detail: None,
        hint: Some("a hint".to_owned()),
        context: None,
        cursorpos: 3,
        internal_query: None,
        internalpos: 0,
    }
}

#[test]
fn default_build_has_no_postgres_execution() {
    let executor = QueryExecutor::new("17.0-fastpg");

    assert_eq!(executor.describe("SELECT 1"), None);
    let QueryExecution::Error {
        sqlstate, message, ..
    } = executor.execute("SELECT 1", &[])
    else {
        panic!("expected disabled executor error");
    };
    assert_eq!(sqlstate, "0A000");
    assert!(message.contains("without PostgreSQL execution"));
    assert!(executor.copy_text_line("smoke", "1").is_err());
}

#[test]
fn the_executor_without_a_core_keeps_nothing() {
    let mut executor = QueryExecutor::with_shared(QueryExecutorShared::new("17"));
    assert_eq!(
        executor.copy_target_buffered_lines(&plain_copy_target("t"), &["1"]),
        Ok(None)
    );
    assert!(!executor.begin_copy());
    executor.finish_copy(true);
    executor.abort_copy(false);
    executor.close();
    assert_eq!(executor.take_notices(), vec![]);
    assert_eq!(
        executor.execute_simple_text("BEGIN"),
        executor.execute("BEGIN", &[Value::Null])
    );
}

#[test]
fn executes_select_one_through_pgcore() {
    let description = query_description_from_pgcore(StatementDescription {
        parameter_type_oids: vec![],
        fields: vec![field("?column?", 23)],
    });
    assert_eq!(
        description.fields,
        vec![Column::new("?column?", PgType::Int4)]
    );
    assert_eq!(plan_execution("SELECT 1", &vec![]), ExecutionPlan::Simple);
    let mut session = CoreSession::new();
    assert_eq!(
        session.settle(
            Ok(ExecutionOutcome {
                notices: vec![],
                statements: vec![select(vec![field("?column?", 23)], vec![vec![text("1")]])],
            }),
            PgCoreRowConversion::Typed,
        ),
        QueryExecution::Rows(QueryResult::new(
            vec![Column::new("?column?", PgType::Int4)],
            vec![vec![Value::Int4(1)]]
        ))
    );
}

#[test]
fn executes_comment_only_query_as_empty_query() {
    assert_eq!(
        plan_execution("/* comment-only query should be empty */", &vec![]),
        ExecutionPlan::Simple
    );
    assert_eq!(
        pgcore_statements_to_query_execution(&vec![], PgCoreRowConversion::Typed),
        QueryExecution::Empty
    );
}

#[test]
fn executes_simple_transaction_commands_without_pgcore_parse() {
    assert_eq!(
        plan_execution("BEGIN;", &vec![]),
        ExecutionPlan::Transaction(PgCoreTransactionCommand::Begin)
    );
    assert_eq!(
        settle_transaction(
            Ok(ExecutionOutcome { notices: vec![], statements: vec![command("BEGIN", None)] }),
            PgCoreRowConversion::Typed,
        ),
        QueryExecution::Command {
            tag: "BEGIN".into(),
            rows: None,
        }
    );
    assert_eq!(
        plan_execution("ROLLBACK;", &vec![]),
        ExecutionPlan::Transaction(PgCoreTransactionCommand::Rollback)
    );
    assert_eq!(
        settle_transaction(
            Ok(ExecutionOutcome { notices: vec![], statements: vec![command("ROLLBACK", None)] }),
            PgCoreRowConversion::Typed,
        ),
        QueryExecution::Command {
            tag: "ROLLBACK".into(),
            rows: None,
        }
    );
}

#[test]
fn executes_parameterized_int4_through_pgcore() {
    assert_eq!(
        plan_execution("SELECT $1::int4", &vec![Value::Int4(41)]),
        ExecutionPlan::Prepared(vec![PgCoreParam::Datum(41)])
    );
    let answer = |value| {
        pgcore_statement_to_query_execution(
            &select(vec![field("int4", 23)], vec![vec![value]]),
            PgCoreRowConversion::Typed,
        )
    };
    assert_eq!(
        answer(text("41")),
        QueryExecution::Rows(QueryResult::new(
            vec![Column::new("int4", PgType::Int4)],
            vec![vec![Value::Int4(41)]]
        ))
    );
    assert_eq!(
        plan_execution("SELECT $1::int4", &vec![Value::Null]),
        ExecutionPlan::Prepared(vec![PgCoreParam::Null])
    );
    assert_eq!(
        answer(PgCoreValue::Null),
        QueryExecution::Rows(QueryResult::new(
            vec![Column::new("int4", PgType::Int4)],
            vec![vec![Value::Null]]
        ))
    );
}

#[test]
fn answers_pgbench_relkind_query_through_pgcore() {
    assert_eq!(
        query_description_from_pgcore(StatementDescription {
            parameter_type_oids: vec![2205],
            fields: vec![field("relkind", 18)],
        }),
        QueryDescription::with_type_oids(
            vec![PgType::Varchar],
            vec![2205],
            vec![Column::with_type_oid("relkind", PgType::Varchar, 18)]
        )
    );
    assert_eq!(
        pgcore_statement_to_query_execution(
            &select(vec![field("relkind", 18)], vec![vec![text("r")]]),
            PgCoreRowConversion::Typed,
        ),
        QueryExecution::Rows(QueryResult::new(
            vec![Column::with_type_oid("relkind", PgType::Varchar, 18)],
            vec![vec![Value::Text("r".to_owned())]]
        ))
    );
}

#[test]
fn show_server_version_goes_through_pgcore() {
    let mut statement = select(vec![field("server_version", 25)], vec![vec![text("18devel")]]);
    statement.is_select = false;
    statement.command_tag = "SHOW".to_owned();
    let result = pgcore_statement_to_query_execution(&statement, PgCoreRowConversion::Typed);
    let QueryExecution::Rows(result) = result else {
        panic!("expected pgcore rows, got {result:?}");
    };
    assert_eq!(
        result.fields,
        vec![Column::with_type_oid("server_version", PgType::Varchar, 25)]
    );
    assert_eq!(result.rows.len(), 1);
    let Value::Text(server_version) = &result.rows[0][0] else {
        panic!("expected text server_version, got {:?}", result.rows[0][0]);
    };
    assert!(!server_version.is_empty());
    assert_ne!(server_version, "17.0-fastpg");
    assert_eq!(result.command_tag, Some("SHOW".to_owned()));
}

#[test]
fn executes_create_table_through_pgcore() {
    assert_eq!(
        pgcore_statement_to_query_execution(
            &command("CREATE TABLE", None),
            PgCoreRowConversion::Typed
        ),
        QueryExecution::Command {
            tag: "CREATE TABLE".into(),
            rows: None,
        }
    );
    assert_eq!(
        pgcore_statement_to_query_execution(
            &command("DROP TABLE", None),
            PgCoreRowConversion::Typed
        ),
        QueryExecution::Command {
            tag: "DROP TABLE".into(),
            rows: None,
        }
    );
}

#[test]
fn a_select_that_counts_its_rows_tells_so() {
    let mut statement = select(vec![field("a", 20)], vec![vec![text("-7")]]);
    statement.command_rows = Some(1);
    let expected = QueryResult::new(
        vec![Column::new("a", PgType::Int8)],
        vec![vec![Value::Int8(-7)]],
    )
    .with_command_complete("SELECT".to_owned(), Some(1));
    assert_eq!(
        pgcore_statement_to_query_execution(&statement, PgCoreRowConversion::Typed),
        QueryExecution::Rows(expected)
    );
}

#[test]
fn a_select_without_columns_gives_empty_rows() {
    let statement = select(vec![], vec![vec![], vec![]]);
    assert_eq!(
        pgcore_statement_to_query_execution(&statement, PgCoreRowConversion::Typed),
        QueryExecution::Rows(QueryResult::new(vec![], vec![vec![], vec![]]))
    );
}

#[test]
fn copies_are_told_before_anything_else() {
    let mut statement = select(vec![field("a", 23)], vec![vec![text("1")]]);
    let output = CopyOutput { format: 0, columns: 1, chunks: vec![vec![49, 10]] };
    statement.copy_out = Some(output.clone());
    assert_eq!(
        pgcore_statement_to_query_execution(&statement, PgCoreRowConversion::Typed),
        QueryExecution::CopyOut(output)
    );
    statement.copy_in = Some(plain_copy_target("t"));
    assert_eq!(
        pgcore_statement_to_query_execution(&statement, PgCoreRowConversion::Typed),
        QueryExecution::CopyIn(plain_copy_target("t"))
    );
}

#[test]
fn a_value_that_is_no_number_makes_an_error() {
    let statement = select(
        vec![field("a", 25), field("b", 21)],
        vec![vec![text("x"), text("1")], vec![text("x"), text("1\"")]],
    );
    let QueryExecution::Error { sqlstate, message, .. } =
        pgcore_statement_to_query_execution(&statement, PgCoreRowConversion::Typed)
    else {
        panic!("expected an error");
    };
    assert_eq!(sqlstate, "22P02");
    assert_eq!(
        message,
        "cannot decode PostgreSQL int2 value \"1\\\"\": invalid digit found in string"
    );
    assert_eq!(
        pgcore_statement_to_query_execution(&statement, PgCoreRowConversion::PreserveText),
        QueryExecution::Rows(QueryResult::new(
            vec![Column::new("a", PgType::Varchar), Column::new("b", PgType::Int2)]
                .into_iter()
                .map(|mut column| {
                    if column.name == "a" {
                        column.type_oid = 25;
                    }
                    column
                })
                .collect(),
            vec![
                vec![Value::RawText("x".to_owned()), Value::RawText("1".to_owned())],
                vec![Value::RawText("x".to_owned()), Value::RawText("1\"".to_owned())],
            ]
        ))
    );
}

#[test]
fn numbers_are_read_within_their_ranges() {
    let read = |s: &str, t| pgcore_value_to_value(&text(s), t, PgCoreRowConversion::Typed);
    assert_eq!(read("-32768", PgType::Int2), Ok(Value::Int2(i16::MIN)));
    assert_eq!(read("+5", PgType::Int4), Ok(Value::Int4(5)));
    assert_eq!(
        read("9223372036854775807", PgType::Int8),
        Ok(Value::Int8(i64::MAX))
    );
    assert_eq!(
        read("32768", PgType::Int2),
        Err("cannot decode PostgreSQL int2 value \"32768\": number too large to fit in target type"
            .to_owned())
    );
    assert_eq!(
        read("-2147483649", PgType::Int4),
        Err(
            "cannot decode PostgreSQL int4 value \"-2147483649\": number too small to fit in target type"
                .to_owned()
        )
    );
    assert_eq!(
        read("", PgType::Int8),
        Err("cannot decode PostgreSQL int8 value \"\": cannot parse integer from empty string"
            .to_owned())
    );
    assert_eq!(
        decode_fault("int2", "\"x\"", "no"),
        "cannot decode PostgreSQL int2 value \"x\": no"
    );
}

#[test]
fn parameters_keep_their_sign() {
    assert_eq!(pgcore_param_value(&Value::Int2(-1)), PgCoreParam::Datum(usize::MAX));
    assert_eq!(pgcore_param_value(&Value::Int4(-2)), PgCoreParam::Datum(usize::MAX - 1));
    assert_eq!(pgcore_param_value(&Value::Int8(7)), PgCoreParam::Datum(7));
    assert_eq!(
        pgcore_param_value(&Value::RawText("x".to_owned())),
        PgCoreParam::Text("x".to_owned())
    );
}

#[test]
fn types_travel_by_their_identifiers() {
    assert_eq!(pg_type_for_oid(21), PgType::Int2);
    assert_eq!(pg_type_for_oid(23), PgType::Int4);
    assert_eq!(pg_type_for_oid(20), PgType::Int8);
    assert_eq!(pg_type_for_oid(1042), PgType::Varchar);
    assert_eq!(pg_type_for_oid(600), PgType::Varchar);
}

#[test]
fn several_statements_make_a_batch() {
    assert_eq!(
        pgcore_statements_to_query_execution(
            &vec![command("INSERT 0 1", Some(1)), command("COMMIT", None)],
            PgCoreRowConversion::Typed,
        ),
        QueryExecution::Batch(vec![
            QueryExecution::Command { tag: "INSERT 0 1".into(), rows: Some(1) },
            QueryExecution::Command { tag: "COMMIT".into(), rows: None },
        ])
    );
}

#[test]
fn an_error_comes_behind_what_was_done() {
    assert_eq!(pgcore_error_execution(&error("bad")), told("bad"));
    let mut late = error("late");
    late.partial = vec![command("BEGIN", None)];
    assert_eq!(
        pgcore_error_execution(&late),
        QueryExecution::Batch(vec![
            QueryExecution::Command { tag: "BEGIN".into(), rows: None },
            told("late"),
        ])
    );
}

#[test]
fn notices_are_kept_until_they_are_taken() {
    let mut session = CoreSession::new();
    assert!(!session.is_started());
    session.note_start(vec![notice("hello")]);
    session.note_start(vec![notice("again")]);
    assert!(session.is_started());
    let mut failing = error("bad");
    failing.notices = vec![notice("before")];
    assert_eq!(session.settle(Err(failing), PgCoreRowConversion::Typed), told("bad"));
    assert_eq!(
        session.settle_simple(Ok(SimpleOutcome::Command {
            notices: vec![notice("then1"), notice("then2")],
            tag: "VACUUM".to_owned(),
            rows: None,
        })),
        QueryExecution::Command { tag: "VACUUM".into(), rows: None }
    );
    let messages: Vec<String> =
        session.take_notices().into_iter().map(|notice| notice.message).collect();
    assert_eq!(messages, vec!["hello", "before", "then1", "then2"]);
    assert_eq!(session.take_notices(), vec![]);
}

#[test]
fn notices_come_off_an_execution() {
    let execution = QueryExecution::WithNotices {
        notices: vec![notice("n")],
        execution: Box::new(QueryExecution::Empty),
    };
    assert_eq!(
        execution.clone().into_notices_and_execution(),
        (vec![notice("n")], QueryExecution::Empty)
    );
    assert_eq!(
        told("x").into_notices_and_execution(),
        (vec![], told("x"))
    );
}

#[test]
fn a_description_names_the_usual_types() {
    let description = QueryDescription::new(vec![PgType::Int2, PgType::Varchar], vec![]);
    assert_eq!(description.parameter_type_oids, vec![21, 1043]);
}

#[test]
fn transaction_commands_are_found_in_any_case() {
    assert_eq!(fast_transaction_command(" begin ; "), Some(PgCoreTransactionCommand::Begin));
    assert_eq!(fast_transaction_command("End"), Some(PgCoreTransactionCommand::Commit));
    assert_eq!(fast_transaction_command("COMMIT;"), Some(PgCoreTransactionCommand::Commit));
    assert_eq!(fast_transaction_command("rollback"), Some(PgCoreTransactionCommand::Rollback));
    assert_eq!(fast_transaction_command("begin;;"), None);
    assert_eq!(fast_transaction_command("begin work"), None);
}

#[test]
fn the_second_storage_is_used_unless_another_is_named() {
    assert!(storage2_enabled(None));
    assert!(storage2_enabled(Some("Storage2")));
    assert!(!storage2_enabled(Some("storage")));
    assert_eq!(copy_route(true, false), CopyRoute::PostgresCatalog);
    assert_eq!(copy_route(false, true), CopyRoute::Storage2);
    assert_eq!(copy_route(false, false), CopyRoute::Storage);
}

#[test]
fn copies_begin_and_end_in_the_storage() {
    assert_eq!(begin_copy(false), (true, StorageAction::BeginSubtransaction));
    assert_eq!(begin_copy(true), (false, StorageAction::BeginSubtransaction));
    assert_eq!(
        finish_copy(true),
        vec![StorageAction::CommitSubtransaction, StorageAction::CommitImplicit]
    );
    assert_eq!(finish_copy(false), vec![StorageAction::CommitSubtransaction]);
    assert_eq!(abort_copy(true, true), Some(StorageAction::AbortImplicit));
    assert_eq!(abort_copy(false, true), Some(StorageAction::AbortExplicit));
    assert_eq!(abort_copy(false, false), None);
}

#[test]
fn closing_a_session_ends_it() {
    assert_eq!(close_work(false, Some(true)), None);
    let actions = |active, answers: [bool; 5]| {
        let mut work = close_work(true, active).unwrap();
        let mut actions = Vec::new();
        for explicit in answers {
            if let Some(action) = work.run(explicit) {
                actions.push(action);
            }
        }
        assert_eq!(work.run(false), None);
        actions
    };
    assert_eq!(
        actions(None, [true; 5]),
        vec![
            CloseAction::Storage(StorageAction::AbortExplicit),
            CloseAction::ResetSession,
            CloseAction::EndSession,
        ]
    );
    assert_eq!(
        actions(Some(true), [false; 5]),
        vec![
            CloseAction::Storage(StorageAction::AbortSubtransaction),
            CloseAction::Storage(StorageAction::AbortImplicit),
            CloseAction::Storage(StorageAction::AbortImplicit),
            CloseAction::ResetSession,
            CloseAction::EndSession,
        ]
    );
    assert_eq!(
        actions(Some(false), [true, true, false, false, false]),
        vec![
            CloseAction::Storage(StorageAction::AbortSubtransaction),
            CloseAction::Storage(StorageAction::AbortExplicit),
            CloseAction::Storage(StorageAction::AbortImplicit),
            CloseAction::ResetSession,
            CloseAction::EndSession,
        ]
    );
}

#[test]
fn a_buffered_copy_counts_its_rows() {
    let mut target = plain_copy_target("t");
    assert_eq!(plan_buffered_copy(&target, &["a", "b"]), BufferedCopy::FromFile);
    target.source_sql = "copy t from stdin".to_owned();
    target.header_line = 1;
    assert_eq!(
        plan_buffered_copy(&target, &["a", "\u{e9}"]),
        BufferedCopy::FromSource(vec![97, 10, 0xc3, 0xa9, 10])
    );
    let mut session = CoreSession::new();
    let outcome = |statements| {
        Ok(ExecutionOutcome { notices: vec![notice("copied")], statements })
    };
    assert_eq!(session.settle_source_copy(&target, 3, outcome(vec![])), Ok(2));
    assert_eq!(
        session.settle_source_copy(&target, 3, outcome(vec![command("COPY 9", Some(9))])),
        Ok(9)
    );
    assert_eq!(
        session.settle_source_copy(&target, 3, Err(error("bad"))),
        Err("\u{1f}fastpg-copy-error-fields\nbad\n\na hint\n".to_owned())
    );
    assert_eq!(session.take_notices().len(), 2);
}

#[test]
fn a_copy_from_a_file_is_settled_by_its_execution() {
    let target = plain_copy_target("t");
    let done = QueryExecution::Command { tag: "COPY 2".into(), rows: Some(2) };
    assert_eq!(settle_file_copy(&target, 2, &done), FileCopy::Copied(2));
    assert_eq!(
        settle_file_copy(&target, 2, &told("bad")),
        FileCopy::Failed("bad".to_owned())
    );
    let QueryExecution::Error { sqlstate, message, detail, hint, .. } = told("bad") else {
        panic!("expected an error");
    };
    let placed = QueryExecution::Error {
        sqlstate,
        message,
        detail,
        hint,
        context: Some("line 1".to_owned()),
        cursorpos: 0,
        internal_query: None,
        internalpos: 0,
    };
    assert_eq!(
        settle_file_copy(&target, 2, &placed),
        FileCopy::Failed("bad\nline 1".to_owned())
    );
    assert_eq!(settle_file_copy(&target, 2, &QueryExecution::Empty), FileCopy::Unexpected);
}
