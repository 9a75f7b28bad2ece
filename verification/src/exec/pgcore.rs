//! What the core that runs statements is given and gives back.

use vstd::prelude::*;

use crate::exec::copy::{CopyTarget, CopyTargetView};
use crate::exec::query::{CopyOutput, CopyOutputView, QueryNotice, QueryNoticeView};
use crate::search;

verus! {

pub const INT8_OID: u32 = 20;

pub const INT2_OID: u32 = 21;

pub const INT4_OID: u32 = 23;

/// A column of a statement's result.
#[derive(Clone, Debug, PartialEq, Eq)]
pub struct StatementField {
    pub name: String,
    pub type_oid: u32,
    pub type_modifier: i32,
}

pub struct StatementFieldView {
    pub name: Seq<char>,
    pub type_oid: u32,
    pub type_modifier: i32,
}

impl View for StatementField {
    type V = StatementFieldView;

    open spec fn view(&self) -> StatementFieldView {
        StatementFieldView {
            name: self.name@,
            type_oid: self.type_oid,
            type_modifier: self.type_modifier,
        }
    }
}

/// A value of a statement's result, in the form of its type's output.
#[derive(Clone, Debug, PartialEq, Eq)]
pub enum PgCoreValue {
    Text(String),
    Null,
}

pub enum PgCoreValueView {
    Text(Seq<char>),
    Null,
}

impl View for PgCoreValue {
    type V = PgCoreValueView;

    open spec fn view(&self) -> PgCoreValueView {
        match self {
            PgCoreValue::Text(s) => PgCoreValueView::Text(s@),
            PgCoreValue::Null => PgCoreValueView::Null,
        }
    }
}

/// A parameter of a statement: a machine word, or the input of its type.
#[derive(Clone, Debug, PartialEq, Eq)]
pub enum PgCoreParam {
    Datum(usize),
    Text(String),
    Null,
}

pub enum PgCoreParamView {
    Datum(usize),
    Text(Seq<char>),
    Null,
}

impl View for PgCoreParam {
    type V = PgCoreParamView;

    open spec fn view(&self) -> PgCoreParamView {
        match self {
            PgCoreParam::Datum(v) => PgCoreParamView::Datum(*v),
            PgCoreParam::Text(s) => PgCoreParamView::Text(s@),
            PgCoreParam::Null => PgCoreParamView::Null,
        }
    }
}

/// What running one statement gave.
#[derive(Clone, Debug, PartialEq, Eq)]
pub struct ExecutionStatement {
    pub fields: Vec<StatementField>,
    pub rows: Vec<Vec<PgCoreValue>>,
    pub is_select: bool,
    pub command_tag: String,
    pub command_rows: Option<usize>,
    pub copy_in: Option<CopyTarget>,
    pub copy_out: Option<CopyOutput>,
}

pub struct ExecutionStatementView {
    pub fields: Seq<StatementFieldView>,
    pub rows: Seq<Seq<PgCoreValueView>>,
    pub is_select: bool,
    pub command_tag: Seq<char>,
    pub command_rows: Option<usize>,
    pub copy_in: Option<CopyTargetView>,
    pub copy_out: Option<CopyOutputView>,
}

pub open spec fn core_row_views(rows: Seq<Vec<PgCoreValue>>) -> Seq<Seq<PgCoreValueView>> {
    Seq::new(rows.len(), |i: int| search::views(rows[i]@))
}

impl View for ExecutionStatement {
    type V = ExecutionStatementView;

    open spec fn view(&self) -> ExecutionStatementView {
        ExecutionStatementView {
            fields: search::views(self.fields@),
            rows: core_row_views(self.rows@),
            is_select: self.is_select,
            command_tag: self.command_tag@,
            command_rows: self.command_rows,
            copy_in: search::option_view(self.copy_in),
            copy_out: search::option_view(self.copy_out),
        }
    }
}

/// What running some statements gave.
#[derive(Clone, Debug, PartialEq, Eq)]
pub struct ExecutionOutcome {
    pub notices: Vec<QueryNotice>,
    pub statements: Vec<ExecutionStatement>,
}

pub struct ExecutionOutcomeView {
    pub notices: Seq<QueryNoticeView>,
    pub statements: Seq<ExecutionStatementView>,
}

impl View for ExecutionOutcome {
    type V = ExecutionOutcomeView;

    open spec fn view(&self) -> ExecutionOutcomeView {
        ExecutionOutcomeView {
            notices: search::views(self.notices@),
            statements: search::views(self.statements@),
        }
    }
}

/// An error, with the notices that came before it and the statements that had
/// been run.
#[derive(Clone, Debug, PartialEq, Eq)]
pub struct PgCoreError {
    pub sqlstate: String,
    pub message: String,
    pub detail: Option<String>,
    pub hint: Option<String>,
    pub context: Option<String>,
    pub cursorpos: i32,
    pub internal_query: Option<String>,
    pub internalpos: i32,
    pub notices: Vec<QueryNotice>,
    pub partial: Vec<ExecutionStatement>,
}

pub struct PgCoreErrorView {
    pub sqlstate: Seq<char>,
    pub message: Seq<char>,
    pub detail: Option<Seq<char>>,
    pub hint: Option<Seq<char>>,
    pub context: Option<Seq<char>>,
    pub cursorpos: i32,
    pub internal_query: Option<Seq<char>>,
    pub internalpos: i32,
    pub notices: Seq<QueryNoticeView>,
    pub partial: Seq<ExecutionStatementView>,
}

impl View for PgCoreError {
    type V = PgCoreErrorView;

    open spec fn view(&self) -> PgCoreErrorView {
        PgCoreErrorView {
            sqlstate: self.sqlstate@,
            message: self.message@,
            detail: search::option_view(self.detail),
            hint: search::option_view(self.hint),
            context: search::option_view(self.context),
            cursorpos: self.cursorpos,
            internal_query: search::option_view(self.internal_query),
            internalpos: self.internalpos,
            notices: search::views(self.notices@),
            partial: search::views(self.partial@),
        }
    }
}

/// What a type's input made of a text: a machine word, or bytes.
#[derive(Clone, Debug, PartialEq, Eq)]
pub struct InputDatum {
    pub typbyval: bool,
    pub value: usize,
    pub payload: Option<Vec<u8>>,
}

/// What a statement was described as when it was prepared.
#[derive(Clone, Debug, PartialEq, Eq)]
pub struct StatementDescription {
    pub parameter_type_oids: Vec<u32>,
    pub fields: Vec<StatementField>,
}

/// The commands that start and end a transaction.
#[derive(Clone, Copy, Debug, PartialEq, Eq, Structural)]
pub enum PgCoreTransactionCommand {
    Begin,
    Commit,
    Rollback,
}

} // verus!
