//! What a query is described as, and what running it gives.

use vstd::prelude::*;

use crate::exec::copy::{CopyTarget, CopyTargetView, clone_text};
use crate::search;
use crate::types::{Column, ColumnView, PgType, Value, ValueView};

verus! {

/// The parameters that a query takes and the columns that it gives.
#[derive(Clone, Debug, PartialEq, Eq)]
pub struct QueryDescription {
    pub parameter_types: Vec<PgType>,
    pub parameter_type_oids: Vec<u32>,
    pub fields: Vec<Column>,
}

pub struct QueryDescriptionView {
    pub parameter_types: Seq<PgType>,
    pub parameter_type_oids: Seq<u32>,
    pub fields: Seq<ColumnView>,
}

impl View for QueryDescription {
    type V = QueryDescriptionView;

    open spec fn view(&self) -> QueryDescriptionView {
        QueryDescriptionView {
            parameter_types: self.parameter_types@,
            parameter_type_oids: self.parameter_type_oids@,
            fields: search::views(self.fields@),
        }
    }
}

impl QueryDescription {
    /// A description whose parameters are of the usual types for how they travel.
    pub fn new(parameter_types: Vec<PgType>, fields: Vec<Column>) -> (r: Self)
        ensures
            r@ == (QueryDescriptionView {
                parameter_types: parameter_types@,
                parameter_type_oids: Seq::new(
                    parameter_types@.len(),
                    |i: int| parameter_types@[i].type_oid(),
                ),
                fields: search::views(fields@),
            }),
    {
        let mut parameter_type_oids: Vec<u32> = Vec::new();
        let mut i: usize = 0;
        while i < parameter_types.len()
            invariant
                i <= parameter_types.len(),
                parameter_type_oids@.len() == i,
                forall|j: int|
                    0 <= j < i ==> #[trigger] parameter_type_oids@[j]
                        == parameter_types@[j].type_oid(),
            decreases parameter_types.len() - i,
        {
            parameter_type_oids.push(parameter_types[i].default_type_oid());
            i += 1;
        }
        assert(parameter_type_oids@ =~= Seq::new(
            parameter_types@.len(),
            |i: int| parameter_types@[i].type_oid(),
        ));
        QueryDescription { parameter_types, parameter_type_oids, fields }
    }

    pub fn with_type_oids(
        parameter_types: Vec<PgType>,
        parameter_type_oids: Vec<u32>,
        fields: Vec<Column>,
    ) -> (r: Self)
        ensures
            r@ == (QueryDescriptionView {
                parameter_types: parameter_types@,
                parameter_type_oids: parameter_type_oids@,
                fields: search::views(fields@),
            }),
    {
        QueryDescription { parameter_types, parameter_type_oids, fields }
    }
}

/// Rows, with how the command that gave them ended, where that was told.
#[derive(Debug, PartialEq, Eq)]
pub struct QueryResult {
    pub fields: Vec<Column>,
    pub rows: Vec<Vec<Value>>,
    pub command_tag: Option<String>,
    pub command_rows: Option<usize>,
}

pub struct QueryResultView {
    pub fields: Seq<ColumnView>,
    pub rows: Seq<Seq<ValueView>>,
    pub command_tag: Option<Seq<char>>,
    pub command_rows: Option<usize>,
}

pub open spec fn row_views(rows: Seq<Vec<Value>>) -> Seq<Seq<ValueView>> {
    Seq::new(rows.len(), |i: int| search::views(rows[i]@))
}

impl View for QueryResult {
    type V = QueryResultView;

    open spec fn view(&self) -> QueryResultView {
        QueryResultView {
            fields: search::views(self.fields@),
            rows: row_views(self.rows@),
            command_tag: search::option_view(self.command_tag),
            command_rows: self.command_rows,
        }
    }
}

impl Clone for QueryResult {
    fn clone(&self) -> (r: Self)
        ensures
            r@ == self@,
    {
        let fields = self.fields.clone();
        assert(search::views(fields@) =~= search::views(self.fields@));
        let mut rows: Vec<Vec<Value>> = Vec::new();
        let mut i: usize = 0;
        while i < self.rows.len()
            invariant
                i <= self.rows.len(),
                rows@.len() == i,
                forall|j: int|
                    0 <= j < i ==> search::views((#[trigger] rows@[j])@) == search::views(
                        self.rows@[j]@,
                    ),
            decreases self.rows.len() - i,
        {
            let row = self.rows[i].clone();
            assert(search::views(row@) =~= search::views(self.rows@[i as int]@));
            rows.push(row);
            i += 1;
        }
        assert(row_views(rows@) =~= row_views(self.rows@));
        QueryResult {
            fields,
            rows,
            command_tag: clone_text(&self.command_tag),
            command_rows: self.command_rows,
        }
    }
}

impl QueryResult {
    pub fn new(fields: Vec<Column>, rows: Vec<Vec<Value>>) -> (r: Self)
        ensures
            r@ == (QueryResultView {
                fields: search::views(fields@),
                rows: row_views(rows@),
                command_tag: None,
                command_rows: None,
            }),
    {
        QueryResult { fields, rows, command_tag: None, command_rows: None }
    }

    /// The same rows, with how the command ended.
    pub fn with_command_complete(
        self,
        command_tag: String,
        command_rows: Option<usize>,
    ) -> (r: Self)
        ensures
            r@ == (QueryResultView {
                command_tag: Some(command_tag@),
                command_rows,
                ..self@
            }),
    {
        QueryResult {
            fields: self.fields,
            rows: self.rows,
            command_tag: Some(command_tag),
            command_rows,
        }
    }
}

/// The data of a copy to the client.
#[derive(Debug, PartialEq, Eq)]
pub struct CopyOutput {
    pub format: i8,
    pub columns: usize,
    pub chunks: Vec<Vec<u8>>,
}

pub struct CopyOutputView {
    pub format: i8,
    pub columns: usize,
    pub chunks: Seq<Seq<u8>>,
}

impl View for CopyOutput {
    type V = CopyOutputView;

    open spec fn view(&self) -> CopyOutputView {
        CopyOutputView {
            format: self.format,
            columns: self.columns,
            chunks: search::views(self.chunks@),
        }
    }
}

impl Clone for CopyOutput {
    fn clone(&self) -> (r: Self)
        ensures
            r@ == self@,
    {
        let mut chunks: Vec<Vec<u8>> = Vec::new();
        let mut i: usize = 0;
        while i < self.chunks.len()
            invariant
                i <= self.chunks.len(),
                chunks@.len() == i,
                forall|j: int| 0 <= j < i ==> (#[trigger] chunks@[j])@ == self.chunks@[j]@,
            decreases self.chunks.len() - i,
        {
            let chunk = self.chunks[i].clone();
            assert(chunk@ =~= self.chunks@[i as int]@);
            chunks.push(chunk);
            i += 1;
        }
        assert(search::views(chunks@) =~= search::views(self.chunks@));
        CopyOutput { format: self.format, columns: self.columns, chunks }
    }
}

/// A message to the client that is no error.
#[derive(Debug, PartialEq, Eq)]
pub struct QueryNotice {
    pub severity: String,
    pub sqlstate: String,
    pub message: String,
    pub detail: Option<String>,
    pub hint: Option<String>,
    pub context: Option<String>,
    pub cursorpos: i32,
}

pub struct QueryNoticeView {
    pub severity: Seq<char>,
    pub sqlstate: Seq<char>,
    pub message: Seq<char>,
    pub detail: Option<Seq<char>>,
    pub hint: Option<Seq<char>>,
    pub context: Option<Seq<char>>,
    pub cursorpos: i32,
}

impl View for QueryNotice {
    type V = QueryNoticeView;

    open spec fn view(&self) -> QueryNoticeView {
        QueryNoticeView {
            severity: self.severity@,
            sqlstate: self.sqlstate@,
            message: self.message@,
            detail: search::option_view(self.detail),
            hint: search::option_view(self.hint),
            context: search::option_view(self.context),
            cursorpos: self.cursorpos,
        }
    }
}

impl Clone for QueryNotice {
    fn clone(&self) -> (r: Self)
        ensures
            r@ == self@,
    {
        QueryNotice {
            severity: self.severity.clone(),
            sqlstate: self.sqlstate.clone(),
            message: self.message.clone(),
            detail: clone_text(&self.detail),
            hint: clone_text(&self.hint),
            context: clone_text(&self.context),
            cursorpos: self.cursorpos,
        }
    }
}

/// What running a query gives.
#[derive(Debug, PartialEq, Eq)]
pub enum QueryExecution {
    WithNotices { notices: Vec<QueryNotice>, execution: Box<QueryExecution> },
    Empty,
    Batch(Vec<QueryExecution>),
    Rows(QueryResult),
    Command { tag: String, rows: Option<usize> },
    CopyIn(CopyTarget),
    CopyOut(CopyOutput),
    Unsupported { query: String },
    InvalidParameters { message: String },
    Error {
        sqlstate: String,
        message: String,
        detail: Option<String>,
        hint: Option<String>,
        context: Option<String>,
        cursorpos: i32,
        internal_query: Option<String>,
        internalpos: i32,
    },
}

pub enum QueryExecutionView {
    WithNotices { notices: Seq<QueryNoticeView>, execution: Box<QueryExecutionView> },
    Empty,
    Batch(Seq<QueryExecutionView>),
    Rows(QueryResultView),
    Command { tag: Seq<char>, rows: Option<usize> },
    CopyIn(CopyTargetView),
    CopyOut(CopyOutputView),
    Unsupported { query: Seq<char> },
    InvalidParameters { message: Seq<char> },
    Error {
        sqlstate: Seq<char>,
        message: Seq<char>,
        detail: Option<Seq<char>>,
        hint: Option<Seq<char>>,
        context: Option<Seq<char>>,
        cursorpos: i32,
        internal_query: Option<Seq<char>>,
        internalpos: i32,
    },
}

pub open spec fn execution_view(e: QueryExecution) -> QueryExecutionView
    decreases e,
{
    match e {
        QueryExecution::WithNotices { notices, execution } => QueryExecutionView::WithNotices {
            notices: search::views(notices@),
            execution: Box::new(execution_view(*execution)),
        },
        QueryExecution::Empty => QueryExecutionView::Empty,
        QueryExecution::Batch(all) => QueryExecutionView::Batch(
            Seq::new(
                all@.len(),
                |i: int|
                    if 0 <= i < all@.len() {
                        execution_view(all@[i])
                    } else {
                        QueryExecutionView::Empty
                    },
            ),
        ),
        QueryExecution::Rows(result) => QueryExecutionView::Rows(result@),
        QueryExecution::Command { tag, rows } => QueryExecutionView::Command { tag: tag@, rows },
        QueryExecution::CopyIn(target) => QueryExecutionView::CopyIn(target@),
        QueryExecution::CopyOut(output) => QueryExecutionView::CopyOut(output@),
        QueryExecution::Unsupported { query } => QueryExecutionView::Unsupported { query: query@ },
        QueryExecution::InvalidParameters { message } => QueryExecutionView::InvalidParameters {
            message: message@,
        },
        QueryExecution::Error {
            sqlstate,
            message,
            detail,
            hint,
            context,
            cursorpos,
            internal_query,
            internalpos,
        } => QueryExecutionView::Error {
            sqlstate: sqlstate@,
            message: message@,
            detail: search::option_view(detail),
            hint: search::option_view(hint),
            context: search::option_view(context),
            cursorpos,
            internal_query: search::option_view(internal_query),
            internalpos,
        },
    }
}

impl View for QueryExecution {
    type V = QueryExecutionView;

    open spec fn view(&self) -> QueryExecutionView {
        execution_view(*self)
    }
}

impl Clone for QueryExecution {
    fn clone(&self) -> (r: Self)
        ensures
            r@ == self@,
        decreases self,
    {
        match self {
            QueryExecution::WithNotices { notices, execution } => {
                let notices_again = notices.clone();
                assert(search::views(notices_again@) =~= search::views(notices@));
                QueryExecution::WithNotices {
                    notices: notices_again,
                    execution: Box::new((&**execution).clone()),
                }
            },
            QueryExecution::Empty => QueryExecution::Empty,
            QueryExecution::Batch(all) => {
                let mut again: Vec<QueryExecution> = Vec::new();
                let mut i: usize = 0;
                while i < all.len()
                    invariant
                        i <= all.len(),
                        *self == QueryExecution::Batch(*all),
                        again@.len() == i,
                        forall|j: int| 0 <= j < i ==> (#[trigger] again@[j])@ == all@[j]@,
                    decreases all.len() - i,
                {
                    assert(decreases_to!(self->Batch_0 => self->Batch_0@));
                    assert(decreases_to!(self->Batch_0@ => self->Batch_0@[i as int]));
                    assert(decreases_to!(*self => self->Batch_0));
                    again.push((&all[i]).clone());
                    i += 1;
                }
                let r = QueryExecution::Batch(again);
                assert(r@->Batch_0 =~= self@->Batch_0);
                r
            },
            QueryExecution::Rows(result) => QueryExecution::Rows(result.clone()),
            QueryExecution::Command { tag, rows } => QueryExecution::Command {
                tag: tag.clone(),
                rows: *rows,
            },
            QueryExecution::CopyIn(target) => QueryExecution::CopyIn(target.clone()),
            QueryExecution::CopyOut(output) => QueryExecution::CopyOut(output.clone()),
            QueryExecution::Unsupported { query } => QueryExecution::Unsupported {
                query: query.clone(),
            },
            QueryExecution::InvalidParameters { message } => QueryExecution::InvalidParameters {
                message: message.clone(),
            },
            QueryExecution::Error {
                sqlstate,
                message,
                detail,
                hint,
                context,
                cursorpos,
                internal_query,
                internalpos,
            } => QueryExecution::Error {
                sqlstate: sqlstate.clone(),
                message: message.clone(),
                detail: clone_text(detail),
                hint: clone_text(hint),
                context: clone_text(context),
                cursorpos: *cursorpos,
                internal_query: clone_text(internal_query),
                internalpos: *internalpos,
            },
        }
    }
}

impl QueryExecutionView {
    /// The notices that came first, and what they came with.
    pub open spec fn parted(self) -> (Seq<QueryNoticeView>, QueryExecutionView) {
        match self {
            QueryExecutionView::WithNotices { notices, execution } => (notices, *execution),
            other => (seq![], other),
        }
    }
}

impl QueryExecution {
    /// Takes the notices off.
    pub fn into_notices_and_execution(self) -> (r: (Vec<QueryNotice>, QueryExecution))
        ensures
            (search::views(r.0@), r.1@) == self@.parted(),
    {
        match self {
            QueryExecution::WithNotices { notices, execution } => (notices, *execution),
            execution => {
                let notices: Vec<QueryNotice> = Vec::new();
                assert(search::views(notices@) =~= seq![]);
                (notices, execution)
            },
        }
    }
}

/// An error of which there is only a code and a message.
pub open spec fn plain_error(sqlstate: Seq<char>, message: Seq<char>) -> QueryExecutionView {
    QueryExecutionView::Error {
        sqlstate,
        message,
        detail: None,
        hint: None,
        context: None,
        cursorpos: 0,
        internal_query: None,
        internalpos: 0,
    }
}

pub fn execution_error(sqlstate: &str, message: String) -> (r: QueryExecution)
    ensures
        r@ == plain_error(sqlstate@, message@),
{
    QueryExecution::Error {
        sqlstate: sqlstate.to_owned(),
        message,
        detail: None,
        hint: None,
        context: None,
        cursorpos: 0,
        internal_query: None,
        internalpos: 0,
    }
}

} // verus!
