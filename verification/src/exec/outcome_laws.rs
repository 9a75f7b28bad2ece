//! What a query's outcome tells of what the core did.

use vstd::prelude::*;

use crate::bind;
use crate::bind::{BoundExpressionView, BoundStatementView};
use crate::exec::closing;
use crate::exec::closing::StorageAction;
use crate::exec::commands;
use crate::exec::commands::ExecutionPlanView;
use crate::exec::copy::CopyTargetView;
use crate::exec::decode;
use crate::exec::decode::PgCoreRowConversion;
use crate::exec::executor;
use crate::exec::pgcore::{
    ExecutionStatementView, PgCoreErrorView, PgCoreParamView, PgCoreTransactionCommand,
    PgCoreValueView, StatementFieldView,
};
use crate::exec::query;
use crate::exec::query::{QueryExecutionView, QueryNoticeView};
use crate::exec::results;
use crate::lexing;
use crate::parser::{LiteralView, SqlTypeName, StatementView};
use crate::text;
use crate::types::{PgType, ValueView};

verus! {

/// Integers of each width travel as such, and every other value as a text.
pub proof fn types_travel_by_their_width(type_oid: u32)
    ensures
        decode::travel_type(21) == PgType::Int2,
        decode::travel_type(23) == PgType::Int4,
        decode::travel_type(20) == PgType::Int8,
        type_oid != 20 && type_oid != 21 && type_oid != 23 ==> decode::travel_type(type_oid)
            == PgType::Varchar,
        PgType::Int2.type_oid() == 21,
        PgType::Int4.type_oid() == 23,
        PgType::Int8.type_oid() == 20,
        PgType::Varchar.type_oid() == 1043,
{
}

/// Nothing stays nothing, a text is kept where texts are to be kept and where its
/// type is none of the integers, and a number that is read is within its width.
pub proof fn values_are_what_their_texts_say(
    s: Seq<char>,
    data_type: PgType,
    conversion: PgCoreRowConversion,
)
    ensures
        decode::value_of(PgCoreValueView::Null, data_type, conversion) == Ok::<_, Seq<char>>(
            ValueView::Null,
        ),
        decode::value_of(PgCoreValueView::Text(s), data_type, PgCoreRowConversion::PreserveText)
            == Ok::<_, Seq<char>>(ValueView::RawText(s)),
        decode::value_of(PgCoreValueView::Text(s), PgType::Varchar, PgCoreRowConversion::Typed)
            == Ok::<_, Seq<char>>(ValueView::Text(s)),
        decode::value_of(
            PgCoreValueView::Text(s),
            data_type,
            PgCoreRowConversion::Typed,
        ) matches Ok(v) ==> match v {
            ValueView::Int2(n) => data_type == PgType::Int2,
            ValueView::Int4(n) => data_type == PgType::Int4,
            ValueView::Int8(n) => data_type == PgType::Int8,
            ValueView::Text(t) => data_type == PgType::Varchar && t == s,
            _ => false,
        },
{
}

/// A text that is no number of its type is refused with the name of the type, the text
/// and the reason.
pub proof fn a_refused_number_is_told(s: Seq<char>)
    ensures
        text::parsed_int(s, i16::MIN as int, i16::MAX as int) is None ==> decode::typed_value(
            s,
            PgType::Int2,
        ) == Err::<ValueView, _>(
            "cannot decode PostgreSQL "@ + "int2"@ + " value "@ + decode::debug_text(s) + ": "@
                + decode::int2_refusal(s),
        ),
        text::parsed_int(s, i32::MIN as int, i32::MAX as int) is None ==> decode::typed_value(
            s,
            PgType::Int4,
        ) == Err::<ValueView, _>(
            "cannot decode PostgreSQL "@ + "int4"@ + " value "@ + decode::debug_text(s) + ": "@
                + decode::int4_refusal(s),
        ),
        text::parsed_int(s, i64::MIN as int, i64::MAX as int) is None ==> decode::typed_value(
            s,
            PgType::Int8,
        ) == Err::<ValueView, _>(
            "cannot decode PostgreSQL "@ + "int8"@ + " value "@ + decode::debug_text(s) + ": "@
                + decode::int8_refusal(s),
        ),
{
}

/// The text of an integer within the width of its column is read as that integer.
pub proof fn numbers_are_read_from_their_texts(n: int)
    ensures
        i16::MIN <= n <= i16::MAX ==> decode::value_of(
            PgCoreValueView::Text(text::decimal_int(n)),
            decode::travel_type(21),
            PgCoreRowConversion::Typed,
        ) == Ok::<_, Seq<char>>(ValueView::Int2(n as i16)),
        i32::MIN <= n <= i32::MAX ==> decode::value_of(
            PgCoreValueView::Text(text::decimal_int(n)),
            decode::travel_type(23),
            PgCoreRowConversion::Typed,
        ) == Ok::<_, Seq<char>>(ValueView::Int4(n as i32)),
        i64::MIN <= n <= i64::MAX ==> decode::value_of(
            PgCoreValueView::Text(text::decimal_int(n)),
            decode::travel_type(20),
            PgCoreRowConversion::Typed,
        ) == Ok::<_, Seq<char>>(ValueView::Int8(n as i64)),
{
    if i16::MIN <= n <= i16::MAX {
        decode::an_integer_is_read_back(n, PgType::Int2);
    }
    if i32::MIN <= n <= i32::MAX {
        decode::an_integer_is_read_back(n, PgType::Int4);
    }
    if i64::MIN <= n <= i64::MAX {
        decode::an_integer_is_read_back(n, PgType::Int8);
    }
}

/// A parameter is handed over as what it is: a number that is not negative as that
/// number, a text as that text, and nothing as nothing.
pub proof fn parameters_are_handed_over(n: u16, s: Seq<char>)
    ensures
        n <= i16::MAX ==> decode::param_of(ValueView::Int2(n as i16)) == PgCoreParamView::Datum(
            n as usize,
        ),
        decode::param_of(ValueView::Int4(n as i32)) == PgCoreParamView::Datum(n as usize),
        decode::param_of(ValueView::Int8(n as i64)) == PgCoreParamView::Datum(n as usize),
        decode::param_of(ValueView::Text(s)) == PgCoreParamView::Text(s),
        decode::param_of(ValueView::RawText(s)) == PgCoreParamView::Text(s),
        decode::param_of(ValueView::Null) is Null,
{
}

/// The columns of a result are its fields: with their names, types and modifiers,
/// in their order.
pub proof fn columns_are_the_fields(fields: Seq<StatementFieldView>, oids: Seq<u32>)
    ensures
        results::columns_of(fields).len() == fields.len(),
        forall|i: int|
            0 <= i < fields.len() ==> {
                let c = #[trigger] results::columns_of(fields)[i];
                &&& c.name == fields[i].name
                &&& c.type_oid == fields[i].type_oid
                &&& c.type_modifier == fields[i].type_modifier
                &&& c.data_type == decode::travel_type(fields[i].type_oid)
            },
        results::described(oids, fields).fields == results::columns_of(fields),
        results::described(oids, fields).parameter_type_oids == oids,
        results::described(oids, fields).parameter_types.len() == oids.len(),
        forall|i: int|
            0 <= i < oids.len() ==> (#[trigger] results::described(
                oids,
                fields,
            ).parameter_types[i]) == decode::travel_type(oids[i]),
{
}

/// A statement that starts a copy gives that copy, whatever else is told of it.
pub proof fn a_copy_comes_first(s: ExecutionStatementView, conversion: PgCoreRowConversion)
    ensures
        s.copy_in matches Some(target) ==> results::executed(s, conversion)
            == QueryExecutionView::CopyIn(target),
        s.copy_in is None ==> (s.copy_out matches Some(output) ==> results::executed(s, conversion)
            == QueryExecutionView::CopyOut(output)),
{
}

/// A statement without fields that is no plain selection gives its tag and its
/// count.
pub proof fn a_command_gives_its_tag(s: ExecutionStatementView, conversion: PgCoreRowConversion)
    requires
        s.copy_in is None,
        s.copy_out is None,
        s.fields.len() == 0,
    ensures
        !s.is_select || s.command_tag != "SELECT"@ ==> results::executed(s, conversion)
            == (QueryExecutionView::Command { tag: s.command_tag, rows: s.command_rows }),
        s.is_select && s.command_tag == "SELECT"@ ==> {
            &&& results::executed(s, conversion) matches QueryExecutionView::Rows(r)
            &&& r.fields.len() == 0
            &&& r.rows.len() == s.rows.len()
            &&& forall|i: int| 0 <= i < r.rows.len() ==> (#[trigger] r.rows[i]).len() == 0
            &&& r.command_tag is None
            &&& r.command_rows is None
        },
{
}

/// A statement with fields gives a row of values for each of its rows, each value
/// read with the type of its column, or an error where a value cannot be read.
pub proof fn rows_are_read_value_by_value(
    s: ExecutionStatementView,
    conversion: PgCoreRowConversion,
)
    requires
        s.copy_in is None,
        s.copy_out is None,
        s.fields.len() > 0,
        forall|i: int| 0 <= i < s.rows.len() ==> (#[trigger] s.rows[i]).len() == s.fields.len(),
    ensures
        match results::executed(s, conversion) {
            QueryExecutionView::Rows(r) => {
                &&& r.fields == results::columns_of(s.fields)
                &&& r.rows.len() == s.rows.len()
                &&& forall|i: int, j: int|
                    0 <= i < s.rows.len() && 0 <= j < s.fields.len() ==> {
                        &&& r.rows[i].len() == s.fields.len()
                        &&& decode::value_of(
                            #[trigger] s.rows[i][j],
                            decode::travel_type(s.fields[j].type_oid),
                            conversion,
                        ) == Ok::<_, Seq<char>>(r.rows[i][j])
                    }
                &&& r.command_rows == s.command_rows
                &&& (r.command_tag is None <==> s.is_select && s.command_tag == "SELECT"@
                    && s.command_rows is None)
                &&& r.command_tag is Some ==> r.command_tag == Some(s.command_tag)
            },
            QueryExecutionView::Error { sqlstate, message, .. } => {
                &&& sqlstate == "22P02"@
                &&& exists|i: int, j: int|
                    0 <= i < s.rows.len() && 0 <= j < s.fields.len() && decode::value_of(
                        #[trigger] s.rows[i][j],
                        decode::travel_type(s.fields[j].type_oid),
                        conversion,
                    ) == Err::<ValueView, _>(message)
            },
            _ => false,
        },
{
    let columns = results::columns_of(s.fields);
    let f = results::row_reader(columns, conversion);
    let g = results::cell_reader(conversion);
    results::every_ok_is_one_for_each(s.rows, f);
    match results::every_ok(s.rows, f) {
        Ok(rows) => {
            assert forall|i: int, j: int| 0 <= i < s.rows.len() && 0 <= j < s.fields.len() implies {
                &&& rows[i].len() == s.fields.len()
                &&& decode::value_of(
                    #[trigger] s.rows[i][j],
                    decode::travel_type(s.fields[j].type_oid),
                    conversion,
                ) == Ok::<_, Seq<char>>(rows[i][j])
            } by {
                let cells = results::typed_cells(s.rows[i], columns);
                results::every_ok_is_one_for_each(cells, g);
                assert(f(s.rows[i]) == Ok::<_, Seq<char>>(rows[i]));
                assert(g(cells[j]) == Ok::<_, Seq<char>>(rows[i][j]));
            }
        },
        Err(message) => {
            let i = choose|i: int|
                0 <= i < s.rows.len() && f(#[trigger] s.rows[i]) == Err::<Seq<ValueView>, _>(
                    message,
                ) && forall|j: int| 0 <= j < i ==> f(#[trigger] s.rows[j]) is Ok;
            let cells = results::typed_cells(s.rows[i], columns);
            results::every_ok_is_one_for_each(cells, g);
            let j = choose|j: int|
                0 <= j < cells.len() && g(#[trigger] cells[j]) == Err::<ValueView, _>(message)
                    && forall|k: int| 0 <= k < j ==> g(#[trigger] cells[k]) is Ok;
            assert(cells[j] == (s.rows[i][j], columns[j].data_type));
        },
    }
}

/// No statement gives nothing, one gives its own outcome, and more give one each,
/// in their order.
pub proof fn statements_give_an_outcome_each(
    statements: Seq<ExecutionStatementView>,
    conversion: PgCoreRowConversion,
)
    ensures
        match results::executed_together(statements, conversion) {
            QueryExecutionView::Empty => statements.len() == 0,
            QueryExecutionView::Batch(all) => {
                &&& statements.len() > 1
                &&& all.len() == statements.len()
                &&& forall|i: int|
                    0 <= i < all.len() ==> #[trigger] all[i] == results::executed(
                        statements[i],
                        conversion,
                    )
            },
            one => statements.len() == 1 && one == results::executed(statements[0], conversion),
        },
{
    if statements.len() == 1 {
        let s = statements[0];
        assert(!(results::executed(s, conversion) is Empty));
        assert(!(results::executed(s, conversion) is Batch));
    }
}

/// What comes with notices is parted into the notices and the outcome that they come
/// with, and anything else has no notices.
pub proof fn notices_are_parted_from_the_outcome(
    notices: Seq<QueryNoticeView>,
    outcome: QueryExecutionView,
    sqlstate: Seq<char>,
    message: Seq<char>,
)
    ensures
        (QueryExecutionView::WithNotices { notices, execution: Box::new(outcome) }).parted() == (
            notices,
            outcome,
        ),
        !(outcome is WithNotices) ==> outcome.parted() == (Seq::<QueryNoticeView>::empty(), outcome),
        query::plain_error(sqlstate, message) == (QueryExecutionView::Error {
            sqlstate,
            message,
            detail: None,
            hint: None,
            context: None,
            cursorpos: 0,
            internal_query: None,
            internalpos: 0,
        }),
{
}

/// A failure tells what the core told of it, behind the outcomes of the statements
/// that came before it.
pub proof fn a_failure_is_told(error: PgCoreErrorView)
    ensures
        ({
            let told = match results::failed(error) {
                QueryExecutionView::Batch(all) => all.last(),
                one => one,
            };
            &&& told matches QueryExecutionView::Error {
                sqlstate,
                message,
                detail,
                hint,
                context,
                cursorpos,
                internal_query,
                internalpos,
            }
            &&& sqlstate == error.sqlstate
            &&& message == error.message
            &&& detail == error.detail
            &&& hint == error.hint
            &&& context == error.context
            &&& cursorpos == error.cursorpos
            &&& internal_query == error.internal_query
            &&& internalpos == error.internalpos
        }),
        error.partial.len() > 0 ==> {
            &&& results::failed(error) matches QueryExecutionView::Batch(all)
            &&& all.len() == error.partial.len() + 1
            &&& forall|i: int|
                0 <= i < error.partial.len() ==> #[trigger] all[i] == results::executed(
                    error.partial[i],
                    PgCoreRowConversion::Typed,
                )
        },
{
}

/// Transactions are started and ended by these words, in any case, with space
/// around them and a semicolon behind them, and by no others.
pub proof fn transactions_go_by_these_words(sql: Seq<char>)
    ensures
        ({
            let trimmed = text::trim(sql);
            let bare = if trimmed.len() > 0 && trimmed[trimmed.len() - 1] == ';' {
                text::trim(trimmed.take(trimmed.len() - 1))
            } else {
                trimmed
            };
            match commands::transaction_command(sql) {
                Some(PgCoreTransactionCommand::Begin) => text::lower(bare) == "begin"@,
                Some(PgCoreTransactionCommand::Commit) => text::lower(bare) == "commit"@
                    || text::lower(bare) == "end"@,
                Some(PgCoreTransactionCommand::Rollback) => text::lower(bare) == "rollback"@,
                None => text::lower(bare) != "begin"@ && text::lower(bare) != "commit"@
                    && text::lower(bare) != "end"@ && text::lower(bare) != "rollback"@,
            }
        }),
{
    reveal_strlit("BEGIN");
    reveal_strlit("COMMIT");
    reveal_strlit("END");
    reveal_strlit("ROLLBACK");
    reveal_strlit("begin");
    reveal_strlit("commit");
    reveal_strlit("end");
    reveal_strlit("rollback");
    let trimmed = text::trim(sql);
    if trimmed.len() > 0 {
        assert(trimmed.take(trimmed.len() - 1) =~= trimmed.drop_last());
    }
    assert(text::lower("BEGIN"@) =~= "begin"@);
    assert(text::lower("COMMIT"@) =~= "commit"@);
    assert(text::lower("END"@) =~= "end"@);
    assert(text::lower("ROLLBACK"@) =~= "rollback"@);
}

/// A query with parameters is prepared, with a parameter for each; one without is
/// prepared in no case.
pub proof fn parameters_make_a_query_prepared(sql: Seq<char>, parameters: Seq<ValueView>)
    ensures
        match commands::planned(sql, parameters) {
            ExecutionPlanView::Prepared(params) => {
                &&& parameters.len() > 0
                &&& params.len() == parameters.len()
                &&& forall|i: int|
                    0 <= i < params.len() ==> #[trigger] params[i] == decode::param_of(
                        parameters[i],
                    )
            },
            ExecutionPlanView::Transaction(command) => parameters.len() == 0
                && commands::transaction_command(sql) == Some(command),
            ExecutionPlanView::Simple => parameters.len() == 0 && commands::transaction_command(sql)
                is None,
        },
{
}

/// What is started is ended: an inner transaction is committed before the one
/// around it, which is only ended by whom it belongs to.
pub proof fn transactions_end_from_the_inside(owned: bool, explicit: bool)
    ensures
        closing::finishing(owned).len() > 0,
        closing::finishing(owned)[0] == StorageAction::CommitSubtransaction,
        closing::finishing(owned).contains(StorageAction::CommitImplicit) <==> owned,
        closing::finishing(owned).len() <= 2,
        !closing::finishing(owned).contains(StorageAction::AbortImplicit),
        !closing::finishing(owned).contains(StorageAction::AbortExplicit),
        !closing::finishing(owned).contains(StorageAction::AbortSubtransaction),
        closing::after_abort(true, explicit) == Some(StorageAction::AbortImplicit),
        closing::after_abort(false, true) == Some(StorageAction::AbortExplicit),
        closing::after_abort(false, false) is None,
        closing::abort_of(true) == StorageAction::AbortExplicit,
        closing::abort_of(false) == StorageAction::AbortImplicit,
{
    let all = closing::finishing(owned);
    if owned {
        assert(all[1] == StorageAction::CommitImplicit);
    }
}

/// A copy without more said of it is one of the text format, from its first line
/// on, into all columns, and stops at the first error.
pub proof fn a_plain_copy_has_the_usual_form(table: Seq<char>)
    ensures
        ({
            let t = executor::plain_target(table);
            &&& t.table == table
            &&& t.format == 0
            &&& t.header_lines() == 0
            &&& t.on_error == 0
            &&& t.delimiter == "\t"@
            &&& t.null_print == "\\N"@
            &&& t.default_print is None
            &&& t.column_names.len() == 0
            &&& t.column_metadata.len() == 0
            &&& t.table_oid == 0
            &&& t.relation_columns == 0
            &&& t.columns == 0
            &&& t.source_sql.len() == 0
            &&& !t.freeze
            &&& !t.foreign_table
            &&& !t.partitioned_table
            &&& !t.has_insert_triggers
            &&& !t.has_generated_columns
        }),
{
}

/// A copy that is written out again has the options that it was given, and no
/// others.
pub proof fn a_copy_is_written_with_its_options(t: CopyTargetView)
    ensures
        ({
            let o = t.options();
            let csv = t.format == 2;
            &&& o.len() > 0
            &&& csv ==> o[0] == "FORMAT csv"@
            &&& !csv ==> o[0] == "FORMAT text"@
            &&& t.header_line == -1 ==> o[1] == "HEADER MATCH"@
            &&& t.header_line > 0 ==> o[1] == "HEADER "@ + text::decimal_int(t.header_line as int)
            &&& ({
                let n: int = if t.header_line == -1 || t.header_line > 0 {
                    2
                } else {
                    1
                };
                let m: int = if t.default_print is Some {
                    1
                } else {
                    0
                };
                let e: int = if t.on_error == 1 {
                    1
                } else {
                    0
                };
                let f: int = if t.freeze {
                    1
                } else {
                    0
                };
                &&& o.len() == n + 2 + m + e + f
                &&& o[n] == "DELIMITER "@ + lexing::quoted(t.delimiter, '\'')
                &&& o[n + 1] == "NULL "@ + lexing::quoted(t.null_print, '\'')
                &&& t.default_print matches Some(s) ==> o[n + 2] == "DEFAULT "@ + lexing::quoted(
                    s,
                    '\'',
                )
                &&& t.on_error == 1 ==> o[n + 2 + m] == "ON_ERROR ignore"@
                &&& t.freeze ==> o[n + 2 + m + e] == "FREEZE true"@
            })
        }),
{
}

/// A bound statement keeps what was parsed: the same statement of the same table,
/// with the same columns, numbers and names.
pub proof fn binding_keeps_what_was_parsed(s: StatementView)
    ensures
        match bind::bound(s) {
            BoundStatementView::SelectOne => s is SelectOne,
            BoundStatementView::ShowServerVersion => s is ShowServerVersion,
            BoundStatementView::SelectInt4Parameter => s is SelectInt4Parameter,
            BoundStatementView::SelectRelkindByRegclassParameter => s
                is SelectRelkindByRegclassParameter,
            BoundStatementView::SelectPgbenchPartitionInfo => s is SelectPgbenchPartitionInfo,
            BoundStatementView::SelectCount { table } => s == (StatementView::SelectCount {
                table,
            }),
            BoundStatementView::SelectColumnWhereInt { table, column, key_column, key_value } => s
                == (StatementView::SelectColumnWhereInt { table, column, key_column, key_value }),
            BoundStatementView::DropTables { if_exists, names } => s
                == (StatementView::DropTables { if_exists, names }),
            BoundStatementView::TruncateTables { names } => s == (StatementView::TruncateTables {
                names,
            }),
            BoundStatementView::Begin => s is Begin,
            BoundStatementView::Commit => s is Commit,
            BoundStatementView::Rollback => s is Rollback,
            BoundStatementView::CopyFromStdin { table } => s == (StatementView::CopyFromStdin {
                table,
            }),
            BoundStatementView::UpdateAddInt { table, column, addend, key_column, key_value } => s
                == (StatementView::UpdateAddInt { table, column, addend, key_column, key_value }),
            BoundStatementView::CreateTable { name, columns } => {
                &&& s matches StatementView::CreateTable { name: given, columns: defs }
                &&& given == name
                &&& defs.len() == columns.len()
                &&& forall|i: int|
                    0 <= i < defs.len() ==> {
                        let c = #[trigger] columns[i];
                        &&& c.name == defs[i].name
                        &&& c.type_modifier == -1
                        &&& c.type_oid == c.data_type.type_oid()
                        &&& c.data_type == PgType::Int4 <==> defs[i].data_type == SqlTypeName::Int4
                        &&& c.data_type == PgType::Int8 <==> defs[i].data_type == SqlTypeName::Int8
                        &&& c.data_type == PgType::Varchar <==> defs[i].data_type
                            == SqlTypeName::Text
                    }
            },
            BoundStatementView::Insert { table, columns, values } => {
                &&& s matches StatementView::Insert { table: t, columns: c, values: v }
                &&& t == table
                &&& c == columns
                &&& v.len() == values.len()
                &&& forall|i: int|
                    0 <= i < v.len() ==> match #[trigger] values[i] {
                        BoundExpressionView::Int(n) => v[i] == LiteralView::Int(n),
                        BoundExpressionView::Text(x) => v[i] == LiteralView::Text(x),
                        BoundExpressionView::Null => v[i] is Null,
                        BoundExpressionView::CurrentTimestamp => v[i] is CurrentTimestamp,
                    }
            },
        },
{
}

} // verus!
