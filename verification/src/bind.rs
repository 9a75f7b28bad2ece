//! Statements with the types of their columns settled.

use vstd::prelude::*;

use crate::parser::{
    ColumnDef, ColumnDefView, Literal, LiteralView, ParsedStatement, SqlTypeName, StatementView,
};
use crate::search;
use crate::types::{Column, ColumnView, PgType};

verus! {

#[derive(Debug, PartialEq, Eq)]
pub enum BoundStatement {
    SelectOne,
    ShowServerVersion,
    SelectInt4Parameter,
    SelectRelkindByRegclassParameter,
    SelectPgbenchPartitionInfo,
    SelectCount { table: String },
    SelectColumnWhereInt { table: String, column: String, key_column: String, key_value: i64 },
    DropTables { if_exists: bool, names: Vec<String> },
    CreateTable { name: String, columns: Vec<Column> },
    TruncateTables { names: Vec<String> },
    Begin,
    Commit,
    Rollback,
    CopyFromStdin { table: String },
    UpdateAddInt {
        table: String,
        column: String,
        addend: i64,
        key_column: String,
        key_value: i64,
    },
    Insert { table: String, columns: Vec<String>, values: Vec<BoundExpression> },
}

#[derive(Debug, PartialEq, Eq)]
pub enum BoundExpression {
    Int(i64),
    Text(String),
    Null,
    CurrentTimestamp,
}

pub enum BoundStatementView {
    SelectOne,
    ShowServerVersion,
    SelectInt4Parameter,
    SelectRelkindByRegclassParameter,
    SelectPgbenchPartitionInfo,
    SelectCount { table: Seq<char> },
    SelectColumnWhereInt {
        table: Seq<char>,
        column: Seq<char>,
        key_column: Seq<char>,
        key_value: i64,
    },
    DropTables { if_exists: bool, names: Seq<Seq<char>> },
    CreateTable { name: Seq<char>, columns: Seq<ColumnView> },
    TruncateTables { names: Seq<Seq<char>> },
    Begin,
    Commit,
    Rollback,
    CopyFromStdin { table: Seq<char> },
    UpdateAddInt {
        table: Seq<char>,
        column: Seq<char>,
        addend: i64,
        key_column: Seq<char>,
        key_value: i64,
    },
    Insert { table: Seq<char>, columns: Seq<Seq<char>>, values: Seq<BoundExpressionView> },
}

pub enum BoundExpressionView {
    Int(i64),
    Text(Seq<char>),
    Null,
    CurrentTimestamp,
}

impl View for BoundExpression {
    type V = BoundExpressionView;

    open spec fn view(&self) -> BoundExpressionView {
        match self {
            BoundExpression::Int(v) => BoundExpressionView::Int(*v),
            BoundExpression::Text(v) => BoundExpressionView::Text(v@),
            BoundExpression::Null => BoundExpressionView::Null,
            BoundExpression::CurrentTimestamp => BoundExpressionView::CurrentTimestamp,
        }
    }
}

impl Clone for BoundExpression {
    fn clone(&self) -> (r: Self)
        ensures
            r@ == self@,
    {
        match self {
            BoundExpression::Int(v) => BoundExpression::Int(*v),
            BoundExpression::Text(v) => BoundExpression::Text(v.clone()),
            BoundExpression::Null => BoundExpression::Null,
            BoundExpression::CurrentTimestamp => BoundExpression::CurrentTimestamp,
        }
    }
}

impl View for BoundStatement {
    type V = BoundStatementView;

    open spec fn view(&self) -> BoundStatementView {
        match self {
            BoundStatement::SelectOne => BoundStatementView::SelectOne,
            BoundStatement::ShowServerVersion => BoundStatementView::ShowServerVersion,
            BoundStatement::SelectInt4Parameter => BoundStatementView::SelectInt4Parameter,
            BoundStatement::SelectRelkindByRegclassParameter =>
                BoundStatementView::SelectRelkindByRegclassParameter,
            BoundStatement::SelectPgbenchPartitionInfo =>
                BoundStatementView::SelectPgbenchPartitionInfo,
            BoundStatement::SelectCount { table } => BoundStatementView::SelectCount {
                table: table@,
            },
            BoundStatement::SelectColumnWhereInt { table, column, key_column, key_value } =>
                BoundStatementView::SelectColumnWhereInt {
                table: table@,
                column: column@,
                key_column: key_column@,
                key_value: *key_value,
            },
            BoundStatement::DropTables { if_exists, names } => BoundStatementView::DropTables {
                if_exists: *if_exists,
                names: search::views(names@),
            },
            BoundStatement::CreateTable { name, columns } => BoundStatementView::CreateTable {
                name: name@,
                columns: search::views(columns@),
            },
            BoundStatement::TruncateTables { names } => BoundStatementView::TruncateTables {
                names: search::views(names@),
            },
            BoundStatement::Begin => BoundStatementView::Begin,
            BoundStatement::Commit => BoundStatementView::Commit,
            BoundStatement::Rollback => BoundStatementView::Rollback,
            BoundStatement::CopyFromStdin { table } => BoundStatementView::CopyFromStdin {
                table: table@,
            },
            BoundStatement::UpdateAddInt { table, column, addend, key_column, key_value } =>
                BoundStatementView::UpdateAddInt {
                table: table@,
                column: column@,
                addend: *addend,
                key_column: key_column@,
                key_value: *key_value,
            },
            BoundStatement::Insert { table, columns, values } => BoundStatementView::Insert {
                table: table@,
                columns: search::views(columns@),
                values: search::views(values@),
            },
        }
    }
}

/// The type that values of a named type travel as.
pub open spec fn travels_as(data_type: SqlTypeName) -> PgType {
    match data_type {
        SqlTypeName::Int4 => PgType::Int4,
        SqlTypeName::Int8 => PgType::Int8,
        SqlTypeName::Text => PgType::Varchar,
    }
}

pub open spec fn bound_column(c: ColumnDefView) -> ColumnView {
    let data_type = travels_as(c.data_type);
    ColumnView {
        name: c.name,
        data_type,
        type_oid: data_type.type_oid(),
        type_modifier: (-1) as i32,
    }
}

pub open spec fn bound_expression(v: LiteralView) -> BoundExpressionView {
    match v {
        LiteralView::Int(n) => BoundExpressionView::Int(n),
        LiteralView::Text(s) => BoundExpressionView::Text(s),
        LiteralView::Null => BoundExpressionView::Null,
        LiteralView::CurrentTimestamp => BoundExpressionView::CurrentTimestamp,
    }
}

/// The statement with the types of its columns settled.
pub open spec fn bound(s: StatementView) -> BoundStatementView {
    match s {
        StatementView::SelectOne => BoundStatementView::SelectOne,
        StatementView::ShowServerVersion => BoundStatementView::ShowServerVersion,
        StatementView::SelectInt4Parameter => BoundStatementView::SelectInt4Parameter,
        StatementView::SelectRelkindByRegclassParameter =>
            BoundStatementView::SelectRelkindByRegclassParameter,
        StatementView::SelectPgbenchPartitionInfo => BoundStatementView::SelectPgbenchPartitionInfo,
        StatementView::SelectCount { table } => BoundStatementView::SelectCount { table },
        StatementView::SelectColumnWhereInt { table, column, key_column, key_value } =>
            BoundStatementView::SelectColumnWhereInt { table, column, key_column, key_value },
        StatementView::DropTables { if_exists, names } => BoundStatementView::DropTables {
            if_exists,
            names,
        },
        StatementView::CreateTable { name, columns } => BoundStatementView::CreateTable {
            name,
            columns: Seq::new(columns.len(), |i: int| bound_column(columns[i])),
        },
        StatementView::TruncateTables { names } => BoundStatementView::TruncateTables { names },
        StatementView::Begin => BoundStatementView::Begin,
        StatementView::Commit => BoundStatementView::Commit,
        StatementView::Rollback => BoundStatementView::Rollback,
        StatementView::CopyFromStdin { table } => BoundStatementView::CopyFromStdin { table },
        StatementView::UpdateAddInt { table, column, addend, key_column, key_value } =>
            BoundStatementView::UpdateAddInt { table, column, addend, key_column, key_value },
        StatementView::Insert { table, columns, values } => BoundStatementView::Insert {
            table,
            columns,
            values: Seq::new(values.len(), |i: int| bound_expression(values[i])),
        },
    }
}

fn bind_type(data_type: SqlTypeName) -> (r: PgType)
    ensures
        r == travels_as(data_type),
{
    match data_type {
        SqlTypeName::Int4 => PgType::Int4,
        SqlTypeName::Int8 => PgType::Int8,
        SqlTypeName::Text => PgType::Varchar,
    }
}

fn bind_column(column: &ColumnDef) -> (r: Column)
    ensures
        r@ == bound_column(column@),
{
    Column::new(column.name.as_str(), bind_type(column.data_type))
}

fn bind_expression(expression: &Literal) -> (r: BoundExpression)
    ensures
        r@ == bound_expression(expression@),
{
    match expression {
        Literal::Int(value) => BoundExpression::Int(*value),
        Literal::Text(value) => BoundExpression::Text(value.clone()),
        Literal::Null => BoundExpression::Null,
        Literal::CurrentTimestamp => BoundExpression::CurrentTimestamp,
    }
}

fn bind_columns(columns: &Vec<ColumnDef>) -> (r: Vec<Column>)
    ensures
        search::views(r@) == Seq::new(
            search::views(columns@).len(),
            |i: int| bound_column(search::views(columns@)[i]),
        ),
{
    let mut r: Vec<Column> = Vec::new();
    let mut i: usize = 0;
    while i < columns.len()
        invariant
            i <= columns.len(),
            r@.len() == i,
            forall|j: int| 0 <= j < i ==> (#[trigger] r@[j])@ == bound_column(columns@[j]@),
        decreases columns.len() - i,
    {
        r.push(bind_column(&columns[i]));
        i += 1;
    }
    assert(search::views(r@) =~= Seq::new(
        search::views(columns@).len(),
        |i: int| bound_column(search::views(columns@)[i]),
    ));
    r
}

fn bind_expressions(values: &Vec<Literal>) -> (r: Vec<BoundExpression>)
    ensures
        search::views(r@) == Seq::new(
            search::views(values@).len(),
            |i: int| bound_expression(search::views(values@)[i]),
        ),
{
    let mut r: Vec<BoundExpression> = Vec::new();
    let mut i: usize = 0;
    while i < values.len()
        invariant
            i <= values.len(),
            r@.len() == i,
            forall|j: int| 0 <= j < i ==> (#[trigger] r@[j])@ == bound_expression(values@[j]@),
        decreases values.len() - i,
    {
        r.push(bind_expression(&values[i]));
        i += 1;
    }
    assert(search::views(r@) =~= Seq::new(
        search::views(values@).len(),
        |i: int| bound_expression(search::views(values@)[i]),
    ));
    r
}

/// Settles the types of a statement's columns.
pub fn bind(statement: ParsedStatement) -> (r: BoundStatement)
    ensures
        r@ == bound(statement@),
{
    match statement {
        ParsedStatement::SelectOne => BoundStatement::SelectOne,
        ParsedStatement::ShowServerVersion => BoundStatement::ShowServerVersion,
        ParsedStatement::SelectInt4Parameter => BoundStatement::SelectInt4Parameter,
        ParsedStatement::SelectRelkindByRegclassParameter =>
            BoundStatement::SelectRelkindByRegclassParameter,
        ParsedStatement::SelectPgbenchPartitionInfo => BoundStatement::SelectPgbenchPartitionInfo,
        ParsedStatement::SelectCount { table } => BoundStatement::SelectCount { table },
        ParsedStatement::SelectColumnWhereInt { table, column, key_column, key_value } =>
            BoundStatement::SelectColumnWhereInt { table, column, key_column, key_value },
        ParsedStatement::DropTables { if_exists, names } => BoundStatement::DropTables {
            if_exists,
            names,
        },
        ParsedStatement::CreateTable { name, columns } => BoundStatement::CreateTable {
            name,
            columns: bind_columns(&columns),
        },
        ParsedStatement::TruncateTables { names } => BoundStatement::TruncateTables { names },
        ParsedStatement::Begin => BoundStatement::Begin,
        ParsedStatement::Commit => BoundStatement::Commit,
        ParsedStatement::Rollback => BoundStatement::Rollback,
        ParsedStatement::CopyFromStdin { table } => BoundStatement::CopyFromStdin { table },
        ParsedStatement::UpdateAddInt { table, column, addend, key_column, key_value } =>
            BoundStatement::UpdateAddInt { table, column, addend, key_column, key_value },
        ParsedStatement::Insert { table, columns, values } => BoundStatement::Insert {
            table,
            columns,
            values: bind_expressions(&values),
        },
    }
}

/// Binding loses nothing: two statements that are bound alike are the same.
pub proof fn binding_keeps_statements_apart(a: StatementView, b: StatementView)
    requires
        bound(a) == bound(b),
    ensures
        a == b,
{
    match (a, b) {
        (
            StatementView::CreateTable { name: _, columns: c },
            StatementView::CreateTable { name: _, columns: d },
        ) => {
            let x = Seq::new(c.len(), |i: int| bound_column(c[i]));
            let y = Seq::new(d.len(), |i: int| bound_column(d[i]));
            assert(x == y);
            assert(c.len() == d.len());
            assert forall|i: int| 0 <= i < c.len() implies c[i] == d[i] by {
                assert(x[i] == y[i]);
            }
            assert(c =~= d);
        },
        (
            StatementView::Insert { table: _, columns: _, values: c },
            StatementView::Insert { table: _, columns: _, values: d },
        ) => {
            let x = Seq::new(c.len(), |i: int| bound_expression(c[i]));
            let y = Seq::new(d.len(), |i: int| bound_expression(d[i]));
            assert(x == y);
            assert forall|i: int| 0 <= i < c.len() implies c[i] == d[i] by {
                assert(x[i] == y[i]);
            }
            assert(c =~= d);
        },
        _ => {},
    }
}

} // verus!
