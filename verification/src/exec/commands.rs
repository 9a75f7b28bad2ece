//! Which way a query and a copied line go.

use vstd::prelude::*;

use crate::exec::decode;
use crate::exec::decode::pgcore_params;
use crate::exec::pgcore::{PgCoreParam, PgCoreParamView, PgCoreTransactionCommand};
use crate::search;
use crate::text;
use crate::types::{Value, ValueView};

verus! {

/// Whether two texts are the same but for the case of their ASCII letters.
pub open spec fn same_but_case(a: Seq<char>, b: Seq<char>) -> bool {
    text::lower(a) == text::lower(b)
}

fn eq_ignore_case(a: &Vec<char>, b: &str) -> (r: bool)
    ensures
        r == same_but_case(a@, b@),
{
    let b = text::chars_of(b);
    text::same_chars(&text::lower_chars(a), &text::lower_chars(&b))
}

/// A query without the space around it and one semicolon at its end.
pub open spec fn bare_command(sql: Seq<char>) -> Seq<char> {
    let trimmed = text::trim(sql);
    if trimmed.len() > 0 && trimmed.last() == ';' {
        text::trim(trimmed.drop_last())
    } else {
        trimmed
    }
}

/// The transaction command that a query is, if it is nothing else.
pub open spec fn transaction_command(sql: Seq<char>) -> Option<PgCoreTransactionCommand> {
    let command = bare_command(sql);
    if same_but_case(command, "BEGIN"@) {
        Some(PgCoreTransactionCommand::Begin)
    } else if same_but_case(command, "COMMIT"@) || same_but_case(command, "END"@) {
        Some(PgCoreTransactionCommand::Commit)
    } else if same_but_case(command, "ROLLBACK"@) {
        Some(PgCoreTransactionCommand::Rollback)
    } else {
        None
    }
}

proof fn lemma_trimming_again_changes_nothing(s: Seq<char>)
    ensures
        text::trim(text::trim(s)) == text::trim(s),
{
    lemma_trim_end_ends(text::trim_start(s));
    lemma_trim_start_starts(s);
    lemma_trim_end_keeps_the_start(text::trim_start(s));
}

proof fn lemma_trim_start_starts(s: Seq<char>)
    ensures
        text::trim_start(s).len() > 0 ==> !text::is_space(text::trim_start(s)[0]),
    decreases s.len(),
{
    if s.len() > 0 && text::is_space(s[0]) {
        lemma_trim_start_starts(s.drop_first());
    }
}

proof fn lemma_trim_end_ends(s: Seq<char>)
    ensures
        text::trim_end(s).len() > 0 ==> !text::is_space(text::trim_end(s).last()),
    decreases s.len(),
{
    if s.len() > 0 && text::is_space(s.last()) {
        lemma_trim_end_ends(s.drop_last());
    }
}

proof fn lemma_trim_end_keeps_the_start(s: Seq<char>)
    ensures
        text::trim_end(s).len() > 0 ==> s.len() > 0 && text::trim_end(s)[0] == s[0],
    decreases s.len(),
{
    if s.len() > 0 && text::is_space(s.last()) {
        lemma_trim_end_keeps_the_start(s.drop_last());
    }
}

/// The transaction command that a query is, if it is nothing else.
pub fn fast_transaction_command(sql: &str) -> (r: Option<PgCoreTransactionCommand>)
    ensures
        r == transaction_command(sql@),
{
    let trimmed = text::trim_chars(&text::chars_of(sql));
    let command = if trimmed.len() > 0 && trimmed[trimmed.len() - 1] == ';' {
        let cut = text::slice_of(&trimmed, 0, trimmed.len() - 1);
        assert(cut@ =~= trimmed@.drop_last());
        text::trim_chars(&cut)
    } else {
        trimmed
    };
    if eq_ignore_case(&command, "BEGIN") {
        Some(PgCoreTransactionCommand::Begin)
    } else if eq_ignore_case(&command, "COMMIT") || eq_ignore_case(&command, "END") {
        Some(PgCoreTransactionCommand::Commit)
    } else if eq_ignore_case(&command, "ROLLBACK") {
        Some(PgCoreTransactionCommand::Rollback)
    } else {
        None
    }
}

/// A transaction command is the same without the space around it.
pub proof fn space_around_a_command_changes_nothing(sql: Seq<char>)
    ensures
        transaction_command(text::trim(sql)) == transaction_command(sql),
{
    lemma_trimming_again_changes_nothing(sql);
}

/// How the core is asked to run a query.
#[derive(Debug, PartialEq, Eq)]
pub enum ExecutionPlan {
    Transaction(PgCoreTransactionCommand),
    Simple,
    Prepared(Vec<PgCoreParam>),
}

pub enum ExecutionPlanView {
    Transaction(PgCoreTransactionCommand),
    Simple,
    Prepared(Seq<PgCoreParamView>),
}

impl View for ExecutionPlan {
    type V = ExecutionPlanView;

    open spec fn view(&self) -> ExecutionPlanView {
        match self {
            ExecutionPlan::Transaction(command) => ExecutionPlanView::Transaction(*command),
            ExecutionPlan::Simple => ExecutionPlanView::Simple,
            ExecutionPlan::Prepared(params) => ExecutionPlanView::Prepared(
                search::views(params@),
            ),
        }
    }
}

/// A query with parameters is prepared, a transaction command goes straight to the
/// transaction, and any other query is run as it is.
pub open spec fn planned(sql: Seq<char>, parameters: Seq<ValueView>) -> ExecutionPlanView {
    if parameters.len() > 0 {
        ExecutionPlanView::Prepared(
            Seq::new(parameters.len(), |i: int| decode::param_of(parameters[i])),
        )
    } else {
        match transaction_command(sql) {
            Some(command) => ExecutionPlanView::Transaction(command),
            None => ExecutionPlanView::Simple,
        }
    }
}

pub fn plan_execution(sql: &str, parameters: &Vec<Value>) -> (r: ExecutionPlan)
    ensures
        r@ == planned(sql@, search::views(parameters@)),
{
    if parameters.len() > 0 {
        let params = pgcore_params(parameters);
        assert(search::views(params@) =~= Seq::new(
            search::views(parameters@).len(),
            |i: int| decode::param_of(search::views(parameters@)[i]),
        ));
        ExecutionPlan::Prepared(params)
    } else {
        assert(search::views(parameters@).len() == 0);
        match fast_transaction_command(sql) {
            Some(command) => ExecutionPlan::Transaction(command),
            None => ExecutionPlan::Simple,
        }
    }
}

/// Whether the second storage is used, by what names the storage: it is, unless
/// another one is named.
pub fn storage2_enabled(engine: Option<&str>) -> (r: bool)
    ensures
        r == match engine {
            Some(engine) => same_but_case(engine@, "storage2"@),
            None => true,
        },
{
    match engine {
        Some(engine) => eq_ignore_case(&text::chars_of(engine), "storage2"),
        None => true,
    }
}

/// Where a copied line goes.
#[derive(Clone, Copy, Debug, PartialEq, Eq, Structural)]
pub enum CopyRoute {
    PostgresCatalog,
    Storage2,
    Storage,
}

/// A copied line goes by the target's description where the core has the catalog,
/// and by the storage otherwise.
pub fn copy_route(postgres_catalog: bool, storage2: bool) -> (r: CopyRoute)
    ensures
        r == (if postgres_catalog {
            CopyRoute::PostgresCatalog
        } else if storage2 {
            CopyRoute::Storage2
        } else {
            CopyRoute::Storage
        }),
{
    if postgres_catalog {
        CopyRoute::PostgresCatalog
    } else if storage2 {
        CopyRoute::Storage2
    } else {
        CopyRoute::Storage
    }
}

} // verus!
