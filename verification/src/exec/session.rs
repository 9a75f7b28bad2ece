//! What a session with the core keeps, and what it makes of the core's replies.

use vstd::prelude::*;

use crate::exec::copy::{CopyTarget, CopyTargetView};
use crate::exec::copy_sql;
use crate::exec::copy_sql::{copy_lines_to_bytes, count_data_lines};
use crate::exec::copy_steps;
use crate::exec::copy_steps::pgcore_copy_error;
use crate::exec::decode::PgCoreRowConversion;
use crate::exec::pgcore::{ExecutionOutcome, ExecutionStatementView, PgCoreError};
use crate::exec::query::{QueryExecution, QueryExecutionView, QueryNotice, QueryNoticeView};
use crate::exec::results;
use crate::exec::results::{pgcore_error_execution, pgcore_statements_to_query_execution};
use crate::search;
use crate::text;

verus! {

/// Whether the core's session is started, and the notices that the client has not
/// taken yet, with how many they are.
#[derive(Debug)]
pub struct CoreSession {
    started: bool,
    notice_count: usize,
    notices: Vec<QueryNotice>,
}

pub struct CoreSessionView {
    pub started: bool,
    pub notices: Seq<QueryNoticeView>,
}

impl View for CoreSession {
    type V = CoreSessionView;

    closed spec fn view(&self) -> CoreSessionView {
        CoreSessionView { started: self.started, notices: search::views(self.notices@) }
    }
}

impl CoreSessionView {
    /// With some notices behind those that are kept.
    pub open spec fn with_notices(self, notices: Seq<QueryNoticeView>) -> CoreSessionView {
        CoreSessionView { started: self.started, notices: self.notices + notices }
    }
}

/// What the core says of a query that it runs by the short way.
#[derive(Debug)]
pub enum SimpleOutcome {
    Command { notices: Vec<QueryNotice>, tag: String, rows: Option<usize> },
    Full(ExecutionOutcome),
}

impl CoreSession {
    /// The notices are counted right.
    pub closed spec fn wf(&self) -> bool {
        self.notice_count == self.notices@.len()
    }

    pub fn new() -> (r: CoreSession)
        ensures
            r.wf(),
            r@ == (CoreSessionView { started: false, notices: seq![] }),
    {
        let r = CoreSession { started: false, notice_count: 0, notices: Vec::new() };
        assert(r@.notices =~= seq![]);
        r
    }

    pub fn is_started(&self) -> (r: bool)
        ensures
            r == self@.started,
    {
        self.started
    }

    /// Keeps notices for the client, behind those that it has not taken yet.
    pub fn replace_notices(&mut self, notices: Vec<QueryNotice>)
        requires
            old(self).wf(),
        ensures
            final(self).wf(),
            final(self)@ == old(self)@.with_notices(search::views(notices@)),
    {
        let ghost before = self@.notices;
        let ghost more = search::views(notices@);
        if notices.len() == 0 {
            assert(before + more =~= before);
            return;
        }
        if self.notices.len() == 0 {
            self.notices = notices;
            assert(search::views(self.notices@) =~= before + more);
        } else {
            let mut i: usize = 0;
            assert(before + more.take(0) =~= before);
            while i < notices.len()
                invariant
                    i <= notices.len(),
                    more == search::views(notices@),
                    self.started == old(self).started,
                    search::views(self.notices@) == before + more.take(i as int),
                decreases notices.len() - i,
            {
                let ghost so_far = search::views(self.notices@);
                let notice = notices[i].clone();
                self.notices.push(notice);
                assert(search::views(self.notices@) =~= so_far.push(notice@));
                assert(more.take(i + 1) =~= more.take(i as int).push(notice@));
                assert(before + more.take(i + 1) =~= (before + more.take(i as int)).push(notice@));
                i += 1;
            }
            assert(more.take(i as int) =~= more);
        }
        self.notice_count = self.notices.len();
    }

    /// Hands out the notices that are kept; afterwards none are.
    pub fn take_notices(&mut self) -> (r: Vec<QueryNotice>)
        requires
            old(self).wf(),
        ensures
            final(self).wf(),
            search::views(r@) == old(self)@.notices,
            final(self)@ == (CoreSessionView { notices: seq![], ..old(self)@ }),
    {
        let mut taken: Vec<QueryNotice> = Vec::new();
        assert(search::views(taken@) =~= seq![]);
        if self.notice_count == 0 {
            assert(search::views(self.notices@) =~= seq![]);
            return taken;
        }
        std::mem::swap(&mut taken, &mut self.notices);
        self.notice_count = 0;
        assert(search::views(self.notices@) =~= seq![]);
        taken
    }

    /// Takes what the core said when its session started. Only the first time
    /// counts.
    pub fn note_start(&mut self, notices: Vec<QueryNotice>)
        requires
            old(self).wf(),
        ensures
            final(self).wf(),
            final(self)@ == (if old(self)@.started {
                old(self)@
            } else {
                CoreSessionView {
                    started: true,
                    notices: old(self)@.notices + search::views(notices@),
                }
            }),
    {
        if !self.started {
            self.replace_notices(notices);
            self.started = true;
        }
    }

    /// What becomes of a query that was run as it is or with parameters: the
    /// notices are kept, and the statements or the error are told.
    pub fn settle(
        &mut self,
        reply: Result<ExecutionOutcome, PgCoreError>,
        conversion: PgCoreRowConversion,
    ) -> (r: QueryExecution)
        requires
            old(self).wf(),
        ensures
            final(self).wf(),
            match reply {
                Ok(outcome) => {
                    &&& r@ == results::executed_together(outcome@.statements, conversion)
                    &&& final(self)@ == old(self)@.with_notices(outcome@.notices)
                },
                Err(error) => {
                    &&& r@ == results::failed(error@)
                    &&& final(self)@ == old(self)@.with_notices(error@.notices)
                },
            },
    {
        match reply {
            Ok(outcome) => {
                self.replace_notices(outcome.notices);
                pgcore_statements_to_query_execution(&outcome.statements, conversion)
            },
            Err(error) => {
                let r = pgcore_error_execution(&error);
                self.replace_notices(error.notices);
                r
            },
        }
    }

    /// What becomes of a query that was run by the short way.
    pub fn settle_simple(&mut self, reply: Result<SimpleOutcome, PgCoreError>) -> (r: QueryExecution)
        requires
            old(self).wf(),
        ensures
            final(self).wf(),
            match reply {
                Ok(SimpleOutcome::Command { notices, tag, rows }) => {
                    &&& r@ == (QueryExecutionView::Command { tag: tag@, rows })
                    &&& final(self)@ == old(self)@.with_notices(search::views(notices@))
                },
                Ok(SimpleOutcome::Full(outcome)) => {
                    &&& r@ == results::executed_together(
                        outcome@.statements,
                        PgCoreRowConversion::PreserveText,
                    )
                    &&& final(self)@ == old(self)@.with_notices(outcome@.notices)
                },
                Err(error) => {
                    &&& r@ == results::failed(error@)
                    &&& final(self)@ == old(self)@.with_notices(error@.notices)
                },
            },
    {
        match reply {
            Ok(SimpleOutcome::Command { notices, tag, rows }) => {
                self.replace_notices(notices);
                QueryExecution::Command { tag, rows }
            },
            Ok(SimpleOutcome::Full(outcome)) => self.settle(
                Ok(outcome),
                PgCoreRowConversion::PreserveText,
            ),
            Err(error) => self.settle(Err(error), PgCoreRowConversion::PreserveText),
        }
    }

    /// How many rows a buffered copy has stored, or why it failed. The notices are
    /// kept.
    pub fn settle_source_copy(
        &mut self,
        target: &CopyTarget,
        lines: usize,
        reply: Result<ExecutionOutcome, PgCoreError>,
    ) -> (r: Result<usize, String>)
        requires
            old(self).wf(),
        ensures
            final(self).wf(),
            match reply {
                Ok(outcome) => {
                    &&& r is Ok
                    &&& r->Ok_0 == rows_stored(target@, lines as int, outcome@.statements)
                    &&& final(self)@ == old(self)@.with_notices(outcome@.notices)
                },
                Err(error) => {
                    &&& r is Err
                    &&& r->Err_0@ == copy_steps::carried_error(error@)
                    &&& final(self)@ == old(self)@.with_notices(error@.notices)
                },
            },
    {
        match reply {
            Ok(outcome) => {
                self.replace_notices(outcome.notices);
                if outcome.statements.len() > 0 {
                    assert(outcome@.statements[0] == outcome.statements@[0]@);
                    if let Some(rows) = outcome.statements[0].command_rows {
                        return Ok(rows);
                    }
                }
                Ok(count_data_lines(target, lines))
            },
            Err(error) => {
                let message = pgcore_copy_error(&error);
                self.replace_notices(error.notices);
                Err(message)
            },
        }
    }
}

/// How many rows a copy has stored: what the first statement counted, or else as
/// many as there are lines of data.
pub open spec fn rows_stored(
    target: CopyTargetView,
    lines: int,
    statements: Seq<ExecutionStatementView>,
) -> int {
    if statements.len() > 0 && statements[0].command_rows is Some {
        statements[0].command_rows->0 as int
    } else {
        copy_sql::data_lines(target, lines)
    }
}

/// What becomes of a transaction command. The core's notices for it are not kept.
pub fn settle_transaction(
    reply: Result<ExecutionOutcome, PgCoreError>,
    conversion: PgCoreRowConversion,
) -> (r: QueryExecution)
    ensures
        r@ == match reply {
            Ok(outcome) => results::executed_together(outcome@.statements, conversion),
            Err(error) => results::failed(error@),
        },
{
    match reply {
        Ok(outcome) => pgcore_statements_to_query_execution(&outcome.statements, conversion),
        Err(error) => pgcore_error_execution(&error),
    }
}

/// How a buffered copy is made: by the statement that asked for it, with the
/// bytes of the lines, or else from a file.
#[derive(Debug, PartialEq, Eq)]
pub enum BufferedCopy {
    FromSource(Vec<u8>),
    FromFile,
}

pub fn plan_buffered_copy(target: &CopyTarget, lines: &[&str]) -> (r: BufferedCopy)
    ensures
        match r {
            BufferedCopy::FromSource(data) => target@.source_sql.len() > 0 && data@
                == copy_sql::line_bytes(copy_sql::line_views(lines@)),
            BufferedCopy::FromFile => target@.source_sql.len() == 0,
        },
{
    if text::same_text(target.source_sql.as_str(), "") {
        proof {
            reveal_strlit("");
        }
        BufferedCopy::FromFile
    } else {
        proof {
            reveal_strlit("");
            if target@.source_sql.len() == 0 {
                assert(target@.source_sql =~= ""@);
            }
        }
        BufferedCopy::FromSource(copy_lines_to_bytes(lines))
    }
}

/// What became of a copy from a file.
#[derive(Debug, PartialEq, Eq)]
pub enum FileCopy {
    Copied(usize),
    Failed(String),
    Unexpected,
}

/// What became of a copy from a file, by what running its statement gave: an
/// error's message, with its context on a line of its own, or the number of lines
/// of data.
pub fn settle_file_copy(
    target: &CopyTarget,
    lines: usize,
    execution: &QueryExecution,
) -> (r: FileCopy)
    ensures
        match execution@ {
            QueryExecutionView::Error { message, context, .. } => r is Failed && r->Failed_0@
                == match context {
                Some(context) => message + "\n"@ + context,
                None => message,
            },
            QueryExecutionView::Command { .. } => r is Copied && r->Copied_0
                == copy_sql::data_lines(target@, lines as int),
            _ => r is Unexpected,
        },
{
    match execution {
        QueryExecution::Error {
            sqlstate: _,
            message,
            detail: _,
            hint: _,
            context,
            cursorpos: _,
            internal_query: _,
            internalpos: _,
        } => match context {
            Some(context) => {
                let mut told = text::chars_of(message.as_str());
                text::push_text(&mut told, "\n");
                text::push_text(&mut told, context.as_str());
                FileCopy::Failed(text::string_of(&told))
            },
            None => FileCopy::Failed(message.clone()),
        },
        QueryExecution::Command { tag: _, rows: _ } => FileCopy::Copied(
            count_data_lines(target, lines),
        ),
        _ => FileCopy::Unexpected,
    }
}

/// Notices are handed out once, in the order in which they came.
pub proof fn notices_come_out_in_order(
    s: CoreSessionView,
    first: Seq<QueryNoticeView>,
    second: Seq<QueryNoticeView>,
)
    ensures
        s.with_notices(first).with_notices(second).notices == s.notices + first + second,
        s.with_notices(first).with_notices(second) == s.with_notices(first + second),
{
    assert(s.notices + first + second =~= s.notices + (first + second));
}

} // verus!
