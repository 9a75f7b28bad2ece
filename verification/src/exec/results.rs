//! What is made of the statements that the core ran.

use vstd::prelude::*;

use crate::exec::copy::clone_text;
use crate::exec::decode;
use crate::exec::decode::{PgCoreRowConversion, pg_type_for_oid, pgcore_value_to_value};
use crate::exec::pgcore;
use crate::exec::pgcore::{
    ExecutionStatement, ExecutionStatementView, PgCoreError, PgCoreErrorView, PgCoreValue,
    PgCoreValueView, StatementDescription, StatementField, StatementFieldView,
};
use crate::exec::query;
use crate::exec::query::{
    QueryDescription, QueryDescriptionView, QueryExecution, QueryExecutionView, QueryResult,
    QueryResultView, execution_error,
};
use crate::search;
use crate::text;
use crate::types::{Column, ColumnView, PgType, Value, ValueView};

verus! {

/// What every element gives, or what the first one that fails says.
pub open spec fn every_ok<A, B, E>(s: Seq<A>, f: spec_fn(A) -> Result<B, E>) -> Result<Seq<B>, E>
    decreases s.len(),
{
    if s.len() == 0 {
        Ok(seq![])
    } else {
        match every_ok(s.drop_last(), f) {
            Ok(done) => match f(s.last()) {
                Ok(v) => Ok(done.push(v)),
                Err(e) => Err(e),
            },
            Err(e) => Err(e),
        }
    }
}

proof fn lemma_a_failure_stays<A, B, E>(s: Seq<A>, f: spec_fn(A) -> Result<B, E>, n: int)
    requires
        0 <= n <= s.len(),
        every_ok(s.take(n), f) is Err,
    ensures
        every_ok(s, f) == every_ok(s.take(n), f),
    decreases s.len() - n,
{
    if n == s.len() {
        assert(s.take(n) =~= s);
    } else {
        assert(s.take(n + 1).drop_last() =~= s.take(n));
        lemma_a_failure_stays(s, f, n + 1);
    }
}

/// A column of a result, as its field was told.
pub open spec fn column_of(field: StatementFieldView) -> ColumnView {
    ColumnView {
        name: field.name,
        data_type: decode::travel_type(field.type_oid),
        type_oid: field.type_oid,
        type_modifier: field.type_modifier,
    }
}

pub open spec fn columns_of(fields: Seq<StatementFieldView>) -> Seq<ColumnView> {
    Seq::new(fields.len(), |i: int| column_of(fields[i]))
}

fn columns_from_fields(fields: &Vec<StatementField>) -> (r: Vec<Column>)
    ensures
        search::views(r@) == columns_of(search::views(fields@)),
{
    let mut r: Vec<Column> = Vec::new();
    let mut i: usize = 0;
    while i < fields.len()
        invariant
            i <= fields.len(),
            r@.len() == i,
            forall|j: int| 0 <= j < i ==> (#[trigger] r@[j])@ == column_of(fields@[j]@),
        decreases fields.len() - i,
    {
        let field = &fields[i];
        r.push(
            Column::with_type_metadata(
                field.name.as_str(),
                pg_type_for_oid(field.type_oid),
                field.type_oid,
                field.type_modifier,
            ),
        );
        i += 1;
    }
    assert(search::views(r@) =~= columns_of(search::views(fields@)));
    r
}

/// What a prepared statement is described as.
pub open spec fn described(
    parameter_type_oids: Seq<u32>,
    fields: Seq<StatementFieldView>,
) -> QueryDescriptionView {
    QueryDescriptionView {
        parameter_types: Seq::new(
            parameter_type_oids.len(),
            |i: int| decode::travel_type(parameter_type_oids[i]),
        ),
        parameter_type_oids,
        fields: columns_of(fields),
    }
}

pub fn query_description_from_pgcore(description: StatementDescription) -> (r: QueryDescription)
    ensures
        r@ == described(description.parameter_type_oids@, search::views(description.fields@)),
{
    let fields = columns_from_fields(&description.fields);
    let oids = description.parameter_type_oids;
    let mut types: Vec<PgType> = Vec::new();
    let mut i: usize = 0;
    while i < oids.len()
        invariant
            i <= oids.len(),
            types@.len() == i,
            forall|j: int| 0 <= j < i ==> #[trigger] types@[j] == decode::travel_type(oids@[j]),
        decreases oids.len() - i,
    {
        types.push(pg_type_for_oid(oids[i]));
        i += 1;
    }
    assert(types@ =~= Seq::new(oids@.len(), |i: int| decode::travel_type(oids@[i])));
    QueryDescription::with_type_oids(types, oids, fields)
}

/// The values of a row that a column stands over, each with its type.
pub open spec fn typed_cells(
    row: Seq<PgCoreValueView>,
    columns: Seq<ColumnView>,
) -> Seq<(PgCoreValueView, PgType)> {
    Seq::new(
        if row.len() <= columns.len() {
            row.len()
        } else {
            columns.len()
        },
        |i: int| (row[i], columns[i].data_type),
    )
}

pub open spec fn cell_reader(conversion: PgCoreRowConversion) -> spec_fn(
    (PgCoreValueView, PgType),
) -> Result<ValueView, Seq<char>> {
    |cell: (PgCoreValueView, PgType)| decode::value_of(cell.0, cell.1, conversion)
}

pub open spec fn row_reader(
    columns: Seq<ColumnView>,
    conversion: PgCoreRowConversion,
) -> spec_fn(Seq<PgCoreValueView>) -> Result<Seq<ValueView>, Seq<char>> {
    |row: Seq<PgCoreValueView>|
        every_ok(typed_cells(row, columns), cell_reader(conversion))
}

fn read_row(
    row: &Vec<PgCoreValue>,
    columns: &Vec<Column>,
    conversion: PgCoreRowConversion,
) -> (r: Result<Vec<Value>, String>)
    ensures
        match r {
            Ok(values) => row_reader(search::views(columns@), conversion)(search::views(row@))
                == Ok::<_, Seq<char>>(search::views(values@)),
            Err(message) => row_reader(search::views(columns@), conversion)(search::views(row@))
                == Err::<Seq<ValueView>, _>(message@),
        },
{
    let ghost cells = typed_cells(search::views(row@), search::views(columns@));
    let ghost f = cell_reader(conversion);
    let mut values: Vec<Value> = Vec::new();
    let mut i: usize = 0;
    assert(search::views(values@) =~= seq![]);
    assert(cells.take(0) =~= seq![]);
    while i < row.len() && i < columns.len()
        invariant
            i <= cells.len(),
            cells == typed_cells(search::views(row@), search::views(columns@)),
            f == cell_reader(conversion),
            every_ok(cells.take(i as int), f) == Ok::<_, Seq<char>>(search::views(values@)),
        decreases row.len() - i,
    {
        let ghost before = search::views(values@);
        assert(cells.take(i + 1).drop_last() =~= cells.take(i as int));
        assert(cells.take(i + 1).last() == (row@[i as int]@, columns@[i as int].data_type));
        match pgcore_value_to_value(&row[i], columns[i].data_type, conversion) {
            Ok(value) => {
                values.push(value);
                assert(search::views(values@) =~= before.push(value@));
            },
            Err(message) => {
                proof {
                    lemma_a_failure_stays(cells, f, i + 1);
                }
                return Err(message);
            },
        }
        i += 1;
    }
    assert(cells.take(i as int) =~= cells);
    Ok(values)
}

fn read_rows(
    rows: &Vec<Vec<PgCoreValue>>,
    columns: &Vec<Column>,
    conversion: PgCoreRowConversion,
) -> (r: Result<Vec<Vec<Value>>, String>)
    ensures
        match r {
            Ok(read) => every_ok(
                pgcore::core_row_views(rows@),
                row_reader(search::views(columns@), conversion),
            ) == Ok::<_, Seq<char>>(query::row_views(read@)),
            Err(message) => every_ok(
                pgcore::core_row_views(rows@),
                row_reader(search::views(columns@), conversion),
            ) == Err::<Seq<Seq<ValueView>>, _>(message@),
        },
{
    let ghost all = pgcore::core_row_views(rows@);
    let ghost f = row_reader(search::views(columns@), conversion);
    let mut read: Vec<Vec<Value>> = Vec::new();
    let mut i: usize = 0;
    assert(query::row_views(read@) =~= seq![]);
    assert(all.take(0) =~= seq![]);
    while i < rows.len()
        invariant
            i <= rows.len(),
            all == pgcore::core_row_views(rows@),
            f == row_reader(search::views(columns@), conversion),
            every_ok(all.take(i as int), f) == Ok::<_, Seq<char>>(query::row_views(read@)),
        decreases rows.len() - i,
    {
        let ghost before = query::row_views(read@);
        assert(all.take(i + 1).drop_last() =~= all.take(i as int));
        assert(all.take(i + 1).last() == search::views(rows@[i as int]@));
        match read_row(&rows[i], columns, conversion) {
            Ok(values) => {
                read.push(values);
                assert(query::row_views(read@) =~= before.push(search::views(values@)));
            },
            Err(message) => {
                proof {
                    lemma_a_failure_stays(all, f, i + 1);
                }
                return Err(message);
            },
        }
        i += 1;
    }
    assert(all.take(i as int) =~= all);
    Ok(read)
}

/// Whether a statement is a plain `SELECT`.
pub open spec fn is_plain_select(s: ExecutionStatementView) -> bool {
    s.is_select && s.command_tag == "SELECT"@
}

/// What a statement gave: a copy, rows, or that a command ended. Rows of a plain
/// `SELECT` say nothing of a command unless it counted them. A value that cannot
/// be read makes it an error.
pub open spec fn executed(
    s: ExecutionStatementView,
    conversion: PgCoreRowConversion,
) -> QueryExecutionView {
    if s.copy_in is Some {
        QueryExecutionView::CopyIn(s.copy_in->0)
    } else if s.copy_out is Some {
        QueryExecutionView::CopyOut(s.copy_out->0)
    } else if s.fields.len() == 0 && is_plain_select(s) {
        QueryExecutionView::Rows(
            QueryResultView {
                fields: seq![],
                rows: Seq::new(s.rows.len(), |i: int| seq![]),
                command_tag: None,
                command_rows: None,
            },
        )
    } else if s.fields.len() == 0 {
        QueryExecutionView::Command { tag: s.command_tag, rows: s.command_rows }
    } else {
        let fields = columns_of(s.fields);
        match every_ok(s.rows, row_reader(fields, conversion)) {
            Ok(rows) => if is_plain_select(s) && s.command_rows is None {
                QueryExecutionView::Rows(
                    QueryResultView { fields, rows, command_tag: None, command_rows: None },
                )
            } else {
                QueryExecutionView::Rows(
                    QueryResultView {
                        fields,
                        rows,
                        command_tag: Some(s.command_tag),
                        command_rows: s.command_rows,
                    },
                )
            },
            Err(message) => query::plain_error("22P02"@, message),
        }
    }
}

fn empty_rows(n: usize) -> (r: Vec<Vec<Value>>)
    ensures
        query::row_views(r@) == Seq::new(n as nat, |i: int| Seq::<ValueView>::empty()),
{
    let mut r: Vec<Vec<Value>> = Vec::new();
    let mut i: usize = 0;
    while i < n
        invariant
            i <= n,
            r@.len() == i,
            forall|j: int|
                0 <= j < i ==> search::views((#[trigger] r@[j])@) == Seq::<ValueView>::empty(),
        decreases n - i,
    {
        let row: Vec<Value> = Vec::new();
        assert(search::views(row@) =~= Seq::<ValueView>::empty());
        r.push(row);
        i += 1;
    }
    assert(query::row_views(r@) =~= Seq::new(n as nat, |i: int| Seq::<ValueView>::empty()));
    r
}

/// What a statement gave.
pub fn pgcore_statement_to_query_execution(
    statement: &ExecutionStatement,
    conversion: PgCoreRowConversion,
) -> (r: QueryExecution)
    ensures
        r@ == executed(statement@, conversion),
{
    if let Some(copy_in) = &statement.copy_in {
        return QueryExecution::CopyIn(copy_in.clone());
    }
    if let Some(copy_out) = &statement.copy_out {
        return QueryExecution::CopyOut(copy_out.clone());
    }
    let plain_select = statement.is_select && text::same_text(
        statement.command_tag.as_str(),
        "SELECT",
    );
    if statement.fields.len() == 0 {
        if plain_select {
            let fields: Vec<Column> = Vec::new();
            assert(search::views(fields@) =~= seq![]);
            let result = QueryResult::new(fields, empty_rows(statement.rows.len()));
            assert(result@.rows =~= Seq::new(statement@.rows.len(), |i: int| seq![]));
            return QueryExecution::Rows(result);
        }
        return QueryExecution::Command {
            tag: statement.command_tag.clone(),
            rows: statement.command_rows,
        };
    }
    let fields = columns_from_fields(&statement.fields);
    match read_rows(&statement.rows, &fields, conversion) {
        Ok(rows) => {
            let result = QueryResult::new(fields, rows);
            if plain_select && statement.command_rows.is_none() {
                QueryExecution::Rows(result)
            } else {
                QueryExecution::Rows(
                    result.with_command_complete(
                        statement.command_tag.clone(),
                        statement.command_rows,
                    ),
                )
            }
        },
        Err(message) => execution_error("22P02", message),
    }
}

pub open spec fn all_executed(
    statements: Seq<ExecutionStatementView>,
    conversion: PgCoreRowConversion,
) -> Seq<QueryExecutionView> {
    Seq::new(statements.len(), |i: int| executed(statements[i], conversion))
}

/// What some statements gave: nothing for none, what the statement gave for one,
/// and what each gave for more.
pub open spec fn executed_together(
    statements: Seq<ExecutionStatementView>,
    conversion: PgCoreRowConversion,
) -> QueryExecutionView {
    if statements.len() == 0 {
        QueryExecutionView::Empty
    } else if statements.len() == 1 {
        executed(statements[0], conversion)
    } else {
        QueryExecutionView::Batch(all_executed(statements, conversion))
    }
}

fn execute_all(
    statements: &Vec<ExecutionStatement>,
    conversion: PgCoreRowConversion,
) -> (r: Vec<QueryExecution>)
    ensures
        search::views(r@) == all_executed(search::views(statements@), conversion),
{
    let mut r: Vec<QueryExecution> = Vec::new();
    let mut i: usize = 0;
    while i < statements.len()
        invariant
            i <= statements.len(),
            r@.len() == i,
            forall|j: int|
                0 <= j < i ==> (#[trigger] r@[j])@ == executed(statements@[j]@, conversion),
        decreases statements.len() - i,
    {
        r.push(pgcore_statement_to_query_execution(&statements[i], conversion));
        i += 1;
    }
    assert(search::views(r@) =~= all_executed(search::views(statements@), conversion));
    r
}

fn batch(all: Vec<QueryExecution>) -> (r: QueryExecution)
    ensures
        r@ == QueryExecutionView::Batch(search::views(all@)),
{
    let r = QueryExecution::Batch(all);
    assert(r@->Batch_0 =~= search::views(all@));
    r
}

/// What some statements gave.
pub fn pgcore_statements_to_query_execution(
    statements: &Vec<ExecutionStatement>,
    conversion: PgCoreRowConversion,
) -> (r: QueryExecution)
    ensures
        r@ == executed_together(search::views(statements@), conversion),
{
    if statements.len() == 0 {
        QueryExecution::Empty
    } else if statements.len() == 1 {
        pgcore_statement_to_query_execution(&statements[0], conversion)
    } else {
        batch(execute_all(statements, conversion))
    }
}

/// An error, as the client is told of it.
pub open spec fn error_told(error: PgCoreErrorView) -> QueryExecutionView {
    QueryExecutionView::Error {
        sqlstate: error.sqlstate,
        message: error.message,
        detail: error.detail,
        hint: error.hint,
        context: error.context,
        cursorpos: error.cursorpos,
        internal_query: error.internal_query,
        internalpos: error.internalpos,
    }
}

/// What statements gave that ended with an error: what those before it gave, with
/// their values as their types have it, and the error last.
pub open spec fn failed(error: PgCoreErrorView) -> QueryExecutionView {
    if error.partial.len() == 0 {
        error_told(error)
    } else {
        QueryExecutionView::Batch(
            all_executed(error.partial, PgCoreRowConversion::Typed).push(error_told(error)),
        )
    }
}

/// What statements gave that ended with an error.
pub fn pgcore_error_execution(error: &PgCoreError) -> (r: QueryExecution)
    ensures
        r@ == failed(error@),
{
    let told = QueryExecution::Error {
        sqlstate: error.sqlstate.clone(),
        message: error.message.clone(),
        detail: clone_text(&error.detail),
        hint: clone_text(&error.hint),
        context: clone_text(&error.context),
        cursorpos: error.cursorpos,
        internal_query: clone_text(&error.internal_query),
        internalpos: error.internalpos,
    };
    if error.partial.len() == 0 {
        told
    } else {
        let mut all = execute_all(&error.partial, PgCoreRowConversion::Typed);
        let ghost before = search::views(all@);
        all.push(told);
        assert(search::views(all@) =~= before.push(told@));
        batch(all)
    }
}

/// Values that are passed on as texts are never refused: with them, no statement
/// makes an error of its own.
pub proof fn preserved_rows_are_never_refused(s: ExecutionStatementView)
    ensures
        !(executed(s, PgCoreRowConversion::PreserveText) is Error),
{
    let fields = columns_of(s.fields);
    lemma_preserved_rows(s.rows, fields);
}

proof fn lemma_preserved_rows(rows: Seq<Seq<PgCoreValueView>>, columns: Seq<ColumnView>)
    ensures
        every_ok(rows, row_reader(columns, PgCoreRowConversion::PreserveText)) is Ok,
    decreases rows.len(),
{
    if rows.len() > 0 {
        lemma_preserved_rows(rows.drop_last(), columns);
        lemma_preserved_cells(typed_cells(rows.last(), columns));
    }
}

proof fn lemma_preserved_cells(cells: Seq<(PgCoreValueView, PgType)>)
    ensures
        every_ok(cells, cell_reader(PgCoreRowConversion::PreserveText)) is Ok,
    decreases cells.len(),
{
    if cells.len() > 0 {
        lemma_preserved_cells(cells.drop_last());
    }
}

/// Where every element gives something, there is one result for each, in order.
pub proof fn every_ok_is_one_for_each<A, B, E>(s: Seq<A>, f: spec_fn(A) -> Result<B, E>)
    ensures
        match every_ok(s, f) {
            Ok(r) => r.len() == s.len() && forall|i: int|
                0 <= i < s.len() ==> f(#[trigger] s[i]) == Ok::<_, E>(r[i]),
            Err(e) => exists|i: int|
                0 <= i < s.len() && f(#[trigger] s[i]) == Err::<B, _>(e) && forall|j: int|
                    0 <= j < i ==> f(#[trigger] s[j]) is Ok,
        },
    decreases s.len(),
{
    if s.len() > 0 {
        let most = s.drop_last();
        every_ok_is_one_for_each(most, f);
        match every_ok(most, f) {
            Ok(done) => {
                assert forall|i: int| 0 <= i < most.len() implies f(#[trigger] s[i]) == Ok::<_, E>(
                    done[i],
                ) by {
                    assert(most[i] == s[i]);
                }
                assert(s.last() == s[s.len() - 1]);
            },
            Err(e) => {
                let i = choose|i: int|
                    0 <= i < most.len() && f(#[trigger] most[i]) == Err::<B, _>(e) && forall|
                        j: int,
                    |
                        0 <= j < i ==> f(#[trigger] most[j]) is Ok;
                assert(most[i] == s[i]);
                assert forall|j: int| 0 <= j < i implies f(#[trigger] s[j]) is Ok by {
                    assert(most[j] == s[j]);
                }
            },
        }
    }
}

} // verus!
