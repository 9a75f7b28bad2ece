//! The executor of a build without the core: it runs nothing.

use vstd::prelude::*;

use crate::exec::copy::{
    CopyTarget, CopyTargetView, COPY_FORMAT_TEXT, COPY_HEADER_FALSE, COPY_ON_ERROR_STOP,
};
use crate::exec::query;
use crate::exec::query::{
    QueryDescription, QueryExecution, QueryNotice, QueryNoticeView, execution_error,
};
use crate::search;
use crate::types::Value;

verus! {

/// What the executors of a server share.
#[derive(Clone, Copy, Debug, PartialEq, Eq, Structural)]
pub struct QueryExecutorShared;

impl QueryExecutorShared {
    pub fn new(server_version: &str) -> (r: QueryExecutorShared)
        ensures
            r == QueryExecutorShared,
    {
        QueryExecutorShared
    }
}

/// The target of a copy of which only the table is known.
pub open spec fn plain_target(table: Seq<char>) -> CopyTargetView {
    CopyTargetView {
        source_sql: seq![],
        table,
        table_oid: 0,
        relation_columns: 0,
        columns: 0,
        format: COPY_FORMAT_TEXT,
        header_line: COPY_HEADER_FALSE,
        on_error: COPY_ON_ERROR_STOP,
        freeze: false,
        foreign_table: false,
        partitioned_table: false,
        has_insert_triggers: false,
        has_generated_columns: false,
        delimiter: "\t"@,
        null_print: "\\N"@,
        default_print: None,
        column_names: seq![],
        column_metadata: seq![],
    }
}

pub fn plain_copy_target(table: &str) -> (r: CopyTarget)
    ensures
        r@ == plain_target(table@),
{
    let r = CopyTarget {
        source_sql: String::new(),
        table: table.to_owned(),
        table_oid: 0,
        relation_columns: 0,
        columns: 0,
        format: COPY_FORMAT_TEXT,
        header_line: COPY_HEADER_FALSE,
        on_error: COPY_ON_ERROR_STOP,
        freeze: false,
        foreign_table: false,
        partitioned_table: false,
        has_insert_triggers: false,
        has_generated_columns: false,
        delimiter: "\t".to_owned(),
        null_print: "\\N".to_owned(),
        default_print: None,
        column_names: Vec::new(),
        column_metadata: Vec::new(),
    };
    assert(r@.source_sql =~= seq![]);
    assert(r@.column_names =~= seq![]);
    assert(r@.column_metadata =~= seq![]);
    r
}

/// An executor of a build without the core, with the notices that the client has
/// not taken yet.
#[derive(Debug)]
pub struct QueryExecutor {
    shared: QueryExecutorShared,
    notices: Vec<QueryNotice>,
}

impl View for QueryExecutor {
    type V = Seq<QueryNoticeView>;

    closed spec fn view(&self) -> Seq<QueryNoticeView> {
        search::views(self.notices@)
    }
}

impl QueryExecutor {
    pub fn new(server_version: &str) -> (r: QueryExecutor)
        ensures
            r@ == Seq::<QueryNoticeView>::empty(),
    {
        QueryExecutor::with_shared(QueryExecutorShared::new(server_version))
    }

    pub fn with_shared(shared: QueryExecutorShared) -> (r: QueryExecutor)
        ensures
            r@ == Seq::<QueryNoticeView>::empty(),
    {
        QueryExecutor::with_shared_for_database(shared, "postgres")
    }

    pub fn with_shared_for_database(shared: QueryExecutorShared, database: &str) -> (r:
        QueryExecutor)
        ensures
            r@ == Seq::<QueryNoticeView>::empty(),
    {
        let r = QueryExecutor { shared, notices: Vec::new() };
        assert(r@ =~= Seq::<QueryNoticeView>::empty());
        r
    }

    /// No query is described.
    pub fn describe(&self, sql: &str) -> (r: Option<QueryDescription>)
        ensures
            r is None,
    {
        None
    }

    /// Every query fails.
    pub fn execute(&self, sql: &str, parameters: &[Value]) -> (r: QueryExecution)
        ensures
            r@ == query::plain_error(
                "0A000"@,
                "fastpg-exec was built without PostgreSQL execution"@,
            ),
    {
        execution_error(
            "0A000",
            "fastpg-exec was built without PostgreSQL execution".to_owned(),
        )
    }

    /// Every query fails.
    pub fn execute_simple_text(&self, sql: &str) -> (r: QueryExecution)
        ensures
            r@ == query::plain_error(
                "0A000"@,
                "fastpg-exec was built without PostgreSQL execution"@,
            ),
    {
        execution_error(
            "0A000",
            "fastpg-exec was built without PostgreSQL execution".to_owned(),
        )
    }

    /// Hands out the notices that are kept; afterwards none are.
    pub fn take_notices(&mut self) -> (r: Vec<QueryNotice>)
        ensures
            search::views(r@) == old(self)@,
            final(self)@ == Seq::<QueryNoticeView>::empty(),
    {
        let mut taken: Vec<QueryNotice> = Vec::new();
        assert(search::views(taken@) =~= Seq::<QueryNoticeView>::empty());
        std::mem::swap(&mut taken, &mut self.notices);
        taken
    }

    /// Every line is refused.
    pub fn copy_text_line(&self, table: &str, line: &str) -> (r: Result<bool, String>)
        ensures
            r is Err,
            r->Err_0@ == "fastpg-exec was built without PostgreSQL execution"@,
    {
        self.copy_target_text_line(&plain_copy_target(table), line)
    }

    /// Every line is refused.
    pub fn copy_target_text_line(&self, target: &CopyTarget, line: &str) -> (r: Result<
        bool,
        String,
    >)
        ensures
            r is Err,
            r->Err_0@ == "fastpg-exec was built without PostgreSQL execution"@,
    {
        Err("fastpg-exec was built without PostgreSQL execution".to_owned())
    }

    /// No lines are taken together.
    pub fn copy_target_buffered_lines(&self, target: &CopyTarget, lines: &[&str]) -> (r: Result<
        Option<usize>,
        String,
    >)
        ensures
            r is Ok,
            r->Ok_0 is None,
    {
        Ok(None)
    }

    /// No copy owns a transaction.
    pub fn begin_copy(&self) -> (r: bool)
        ensures
            !r,
    {
        false
    }

    /// There is nothing to finish.
    pub fn finish_copy(&mut self, owned_transaction: bool)
        ensures
            *final(self) == *old(self),
    {
    }

    /// There is nothing to abort.
    pub fn abort_copy(&mut self, owned_transaction: bool)
        ensures
            *final(self) == *old(self),
    {
    }

    /// There is nothing to close.
    pub fn close(&mut self)
        ensures
            *final(self) == *old(self),
    {
    }
}

} // verus!
