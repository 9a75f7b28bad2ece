//! How copies and sessions begin and end in the storage.

use vstd::prelude::*;

verus! {

/// What is done with the transactions of the storage.
#[derive(Clone, Copy, Debug, PartialEq, Eq, Structural)]
pub enum StorageAction {
    BeginSubtransaction,
    CommitSubtransaction,
    AbortSubtransaction,
    CommitImplicit,
    AbortImplicit,
    AbortExplicit,
}

/// What is done to close a session.
#[derive(Clone, Copy, Debug, PartialEq, Eq, Structural)]
pub enum CloseAction {
    Storage(StorageAction),
    ResetSession,
    EndSession,
}

/// Whether a copy owns the transaction that it runs in, and what begins it: it
/// does unless the client has begun one.
pub fn begin_copy(explicit: bool) -> (r: (bool, StorageAction))
    ensures
        r == (!explicit, StorageAction::BeginSubtransaction),
{
    (!explicit, StorageAction::BeginSubtransaction)
}

/// What ends a copy that went well, in order.
pub open spec fn finishing(owned: bool) -> Seq<StorageAction> {
    if owned {
        seq![StorageAction::CommitSubtransaction, StorageAction::CommitImplicit]
    } else {
        seq![StorageAction::CommitSubtransaction]
    }
}

pub fn finish_copy(owned: bool) -> (r: Vec<StorageAction>)
    ensures
        r@ == finishing(owned),
{
    let mut r: Vec<StorageAction> = Vec::new();
    r.push(StorageAction::CommitSubtransaction);
    if owned {
        r.push(StorageAction::CommitImplicit);
    }
    assert(r@ =~= finishing(owned));
    r
}

/// What is done with the transaction of a copy once the copy itself is aborted,
/// where `explicit` tells whether the client's transaction is still there.
pub open spec fn after_abort(owned: bool, explicit: bool) -> Option<StorageAction> {
    if owned {
        Some(StorageAction::AbortImplicit)
    } else if explicit {
        Some(StorageAction::AbortExplicit)
    } else {
        None
    }
}

pub fn abort_copy(owned: bool, explicit: bool) -> (r: Option<StorageAction>)
    ensures
        r == after_abort(owned, explicit),
{
    if owned {
        Some(StorageAction::AbortImplicit)
    } else if explicit {
        Some(StorageAction::AbortExplicit)
    } else {
        None
    }
}

/// How far the closing of a session is.
#[derive(Clone, Copy, Debug, PartialEq, Eq, Structural)]
pub enum CloseStage {
    Copy { owned: bool },
    CopyTransaction { owned: bool },
    Transaction,
    Reset,
    End,
    Closed,
}

impl CloseStage {
    /// How many actions are left at most.
    pub open spec fn left(self) -> nat {
        match self {
            CloseStage::Copy { .. } => 5,
            CloseStage::CopyTransaction { .. } => 4,
            CloseStage::Transaction => 3,
            CloseStage::Reset => 2,
            CloseStage::End => 1,
            CloseStage::Closed => 0,
        }
    }
}

/// What aborts the session's transaction.
pub open spec fn abort_of(explicit: bool) -> StorageAction {
    if explicit {
        StorageAction::AbortExplicit
    } else {
        StorageAction::AbortImplicit
    }
}

/// The next action of closing a session and the stage behind it, where `explicit`
/// tells whether the client has a transaction open at this moment.
pub open spec fn closing(stage: CloseStage, explicit: bool) -> (CloseStage, Option<CloseAction>) {
    match stage {
        CloseStage::Copy { owned } => (
            CloseStage::CopyTransaction { owned },
            Some(CloseAction::Storage(StorageAction::AbortSubtransaction)),
        ),
        CloseStage::CopyTransaction { owned } => match after_abort(owned, explicit) {
            Some(action) => (CloseStage::Transaction, Some(CloseAction::Storage(action))),
            None => (CloseStage::Reset, Some(CloseAction::Storage(abort_of(explicit)))),
        },
        CloseStage::Transaction => (
            CloseStage::Reset,
            Some(CloseAction::Storage(abort_of(explicit))),
        ),
        CloseStage::Reset => (CloseStage::End, Some(CloseAction::ResetSession)),
        CloseStage::End => (CloseStage::Closed, Some(CloseAction::EndSession)),
        CloseStage::Closed => (CloseStage::Closed, None),
    }
}

/// The work of closing a session.
#[derive(Debug, PartialEq, Eq)]
pub struct QueryExecutorCloseWork {
    pub stage: CloseStage,
}

/// The work of closing a session, if it has been started at all. A copy may be
/// active, which may own its transaction.
pub fn close_work(started: bool, active_copy_owned_transaction: Option<bool>) -> (r: Option<
    QueryExecutorCloseWork,
>)
    ensures
        match r {
            Some(work) => started && work.stage == match active_copy_owned_transaction {
                Some(owned) => CloseStage::Copy { owned },
                None => CloseStage::Transaction,
            },
            None => !started,
        },
{
    if !started {
        return None;
    }
    let stage = match active_copy_owned_transaction {
        Some(owned) => CloseStage::Copy { owned },
        None => CloseStage::Transaction,
    };
    Some(QueryExecutorCloseWork { stage })
}

impl QueryExecutorCloseWork {
    /// The next action, until there is none.
    pub fn run(&mut self, explicit: bool) -> (r: Option<CloseAction>)
        ensures
            (final(self).stage, r) == closing(old(self).stage, explicit),
            r is Some ==> final(self).stage.left() < old(self).stage.left(),
            r is None <==> old(self).stage == CloseStage::Closed,
    {
        match self.stage {
            CloseStage::Copy { owned } => {
                self.stage = CloseStage::CopyTransaction { owned };
                Some(CloseAction::Storage(StorageAction::AbortSubtransaction))
            },
            CloseStage::CopyTransaction { owned } => match abort_copy(owned, explicit) {
                Some(action) => {
                    self.stage = CloseStage::Transaction;
                    Some(CloseAction::Storage(action))
                },
                None => {
                    self.stage = CloseStage::Reset;
                    Some(CloseAction::Storage(StorageAction::AbortImplicit))
                },
            },
            CloseStage::Transaction => {
                self.stage = CloseStage::Reset;
                if explicit {
                    Some(CloseAction::Storage(StorageAction::AbortExplicit))
                } else {
                    Some(CloseAction::Storage(StorageAction::AbortImplicit))
                }
            },
            CloseStage::Reset => {
                self.stage = CloseStage::End;
                Some(CloseAction::ResetSession)
            },
            CloseStage::End => {
                self.stage = CloseStage::Closed;
                Some(CloseAction::EndSession)
            },
            CloseStage::Closed => None,
        }
    }
}

/// The actions of closing a session from a stage on, where the answers tell before
/// each of them whether the client has a transaction open.
pub open spec fn closing_actions(stage: CloseStage, answers: spec_fn(nat) -> bool) -> Seq<
    CloseAction,
>
    decreases stage.left(),
{
    let (next, action) = closing(stage, answers(stage.left()));
    match action {
        Some(action) => seq![action] + closing_actions(next, answers),
        None => seq![],
    }
}

/// However the storage answers, closing a session aborts a transaction and then
/// resets and ends the session.
pub proof fn closing_ends_the_session(stage: CloseStage, answers: spec_fn(nat) -> bool)
    requires
        stage is Copy || stage is CopyTransaction || stage is Transaction,
    ensures
        ({
            let actions = closing_actions(stage, answers);
            let n = actions.len();
            &&& 3 <= n <= 5
            &&& actions[n - 1] == CloseAction::EndSession
            &&& actions[n - 2] == CloseAction::ResetSession
            &&& actions[n - 3] == CloseAction::Storage(StorageAction::AbortExplicit) || actions[n
                - 3] == CloseAction::Storage(StorageAction::AbortImplicit)
        }),
    decreases stage.left(),
{
    reveal_with_fuel(closing_actions, 6);
    let (next, action) = closing(stage, answers(stage.left()));
    if next is CopyTransaction || next is Transaction {
        closing_ends_the_session(next, answers);
        let rest = closing_actions(next, answers);
        let actions = closing_actions(stage, answers);
        assert(actions =~= seq![action->0] + rest);
        assert(actions.len() == rest.len() + 1);
    }
}

} // verus!
