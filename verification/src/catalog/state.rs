//! Transactions on the catalogs: the committed state, and sessions with the
//! changes that they have not committed.

use std::collections::BTreeMap;
use vstd::prelude::*;

use crate::catalog::draft::{CatalogDraft, DraftView};
use crate::catalog::model::GeneratedCatalog;
use crate::catalog::snapshot::{CatalogSnapshot, SnapshotView};

verus! {

broadcast use vstd::std_specs::btree::group_btree_axioms;

/// The committed state, and the next row identity to give out in each catalog.
#[derive(Debug)]
pub struct CatalogState {
    pub next_overlay_row_ids: BTreeMap<u32, u64>,
    pub snapshot: CatalogSnapshot,
}

pub struct StateView {
    pub next_ids: Map<u32, u64>,
    pub snapshot: SnapshotView,
}

impl View for CatalogState {
    type V = StateView;

    open spec fn view(&self) -> StateView {
        StateView { next_ids: self.next_overlay_row_ids@, snapshot: self.snapshot@ }
    }
}

/// The generation after a change.
pub open spec fn next_generation(generation: u64) -> u64 {
    if generation == u64::MAX {
        u64::MAX
    } else {
        (generation + 1) as u64
    }
}

impl StateView {
    pub open spec fn initial() -> StateView {
        StateView { next_ids: Map::empty(), snapshot: SnapshotView::empty(1) }
    }

    /// The state once changes are committed: they are applied and the
    /// generation moves on, unless there are none.
    pub open spec fn committed(self, d: DraftView) -> StateView {
        if d == DraftView::empty() {
            self
        } else {
            let applied = d.applied(self.snapshot);
            StateView {
                snapshot: SnapshotView {
                    generation: next_generation(applied.generation),
                    ..applied
                },
                ..self
            }
        }
    }
}

impl CatalogState {
    pub open spec fn wf(&self, generated: GeneratedCatalog) -> bool {
        self.snapshot.wf(generated)
    }

    /// The state before anything was committed.
    pub fn new(generated: &GeneratedCatalog) -> (r: CatalogState)
        ensures
            r@ == StateView::initial(),
            r.wf(*generated),
    {
        let mut snapshot = CatalogSnapshot::new(1);
        snapshot.rebuild_indexes(generated);
        CatalogState { next_overlay_row_ids: BTreeMap::new(), snapshot }
    }
}

/// A state of the catalogs with a session's changes, kept for the generation
/// and the revision that it was made for.
#[derive(Debug)]
pub struct CachedVisibleCatalogSnapshot {
    pub base_generation: u64,
    pub revision: u64,
    pub snapshot: CatalogSnapshot,
}

pub struct CacheView {
    pub base_generation: u64,
    pub revision: u64,
    pub snapshot: SnapshotView,
}

/// A session: its changes, the innermost transaction last.
#[derive(Debug)]
pub struct CatalogSession {
    pub transaction_stack: Vec<CatalogDraft>,
    pub explicit_transaction: bool,
    pub visible_snapshot_revision: u64,
    pub visible_snapshot_cache: Option<CachedVisibleCatalogSnapshot>,
}

pub struct SessionView {
    pub drafts: Seq<DraftView>,
    pub explicit: bool,
    pub revision: u64,
    pub cache: Option<CacheView>,
}

pub open spec fn draft_views(stack: Seq<CatalogDraft>) -> Seq<DraftView> {
    Seq::new(stack.len(), |i: int| stack[i]@)
}

impl View for CatalogSession {
    type V = SessionView;

    open spec fn view(&self) -> SessionView {
        SessionView {
            drafts: draft_views(self.transaction_stack@),
            explicit: self.explicit_transaction,
            revision: self.visible_snapshot_revision,
            cache: match self.visible_snapshot_cache {
                Some(c) => Some(
                    CacheView {
                        base_generation: c.base_generation,
                        revision: c.revision,
                        snapshot: c.snapshot@,
                    },
                ),
                None => None,
            },
        }
    }
}

/// The revision after a change.
pub open spec fn next_revision(revision: u64) -> u64 {
    if revision == u64::MAX {
        1
    } else {
        (revision + 1) as u64
    }
}

/// A state as it looks with changes applied, the first of them first.
pub open spec fn visible(base: SnapshotView, drafts: Seq<DraftView>) -> SnapshotView
    decreases drafts.len(),
{
    if drafts.len() == 0 {
        base
    } else {
        let before = visible(base, drafts.drop_last());
        if drafts.last() == DraftView::empty() {
            before
        } else {
            drafts.last().applied(before)
        }
    }
}

pub open spec fn any_changes(drafts: Seq<DraftView>) -> bool {
    exists|i: int| 0 <= i < drafts.len() && #[trigger] drafts[i] != DraftView::empty()
}

impl SessionView {
    pub open spec fn initial() -> SessionView {
        SessionView { drafts: seq![], explicit: false, revision: 0, cache: None }
    }

    pub open spec fn wf(self) -> bool {
        forall|i: int| 0 <= i < self.drafts.len() ==> (#[trigger] self.drafts[i]).wf()
    }

    pub open spec fn invalidated(self) -> SessionView {
        SessionView { revision: next_revision(self.revision), cache: None, ..self }
    }

    /// After further changes: a kept state of the present revision takes them
    /// up, if it can, and is dropped otherwise.
    pub open spec fn keeping_up(self, more: DraftView, can: bool) -> SessionView {
        match self.cache {
            Some(c) if can && c.revision == self.revision => SessionView {
                revision: next_revision(self.revision),
                cache: Some(
                    CacheView {
                        base_generation: c.base_generation,
                        revision: next_revision(self.revision),
                        snapshot: more.applied(c.snapshot),
                    },
                ),
                ..self
            },
            _ => self.invalidated(),
        }
    }

    /// With a transaction, a new one where there is none.
    pub open spec fn ensured(self) -> SessionView {
        if self.drafts.len() == 0 {
            SessionView { drafts: seq![DraftView::empty()], ..self }.invalidated()
        } else {
            self
        }
    }

    /// With the innermost changes replaced.
    pub open spec fn with_top(self, d: DraftView) -> SessionView {
        SessionView { drafts: self.drafts.update(self.drafts.len() - 1, d), ..self }
    }

    /// Whether the kept state is that of the state of the catalogs with the
    /// session's changes.
    pub open spec fn cache_fits(self, s: SnapshotView) -> bool {
        match self.cache {
            Some(c) => c.base_generation == s.generation && c.revision == self.revision,
            None => false,
        }
    }

    /// A kept state that passes for the present one is the present one.
    pub open spec fn coherent(self, s: SnapshotView) -> bool {
        self.cache_fits(s) ==> self.cache->0.snapshot == visible(s, self.drafts)
    }

    /// With the present state kept, where the session has changes.
    pub open spec fn refreshed(self, s: SnapshotView) -> SessionView {
        if !any_changes(self.drafts) || self.cache_fits(s) {
            self
        } else {
            SessionView {
                cache: Some(
                    CacheView {
                        base_generation: s.generation,
                        revision: self.revision,
                        snapshot: visible(s, self.drafts),
                    },
                ),
                ..self
            }
        }
    }
}

impl CatalogSession {
    pub open spec fn wf(&self, generated: GeneratedCatalog) -> bool {
        &&& self@.wf()
        &&& self.visible_snapshot_cache matches Some(c) ==> c.snapshot.wf(generated)
    }
}

pub fn new_catalog_session() -> (r: CatalogSession)
    ensures
        r@ == SessionView::initial(),
        forall|generated: GeneratedCatalog| #[trigger] r.wf(generated),
{
    let r = CatalogSession {
        transaction_stack: Vec::new(),
        explicit_transaction: false,
        visible_snapshot_revision: 0,
        visible_snapshot_cache: None,
    };
    assert(r@.drafts =~= seq![]);
    r
}

pub fn invalidate_visible_catalog_snapshot(session: &mut CatalogSession)
    ensures
        final(session)@ == old(session)@.invalidated(),
        forall|generated: GeneratedCatalog|
            old(session).wf(generated) ==> #[trigger] final(session).wf(generated),
{
    session.visible_snapshot_revision =
    if session.visible_snapshot_revision == u64::MAX {
        1
    } else {
        session.visible_snapshot_revision + 1
    };
    session.visible_snapshot_cache = None;
}

/// Applies further changes to the kept state, if it is of the present revision
/// and can take them up, and drops it otherwise.
pub(crate) fn keep_up_visible_catalog_snapshot(
    generated: &GeneratedCatalog,
    session: &mut CatalogSession,
    more: &CatalogDraft,
    can: bool,
)
    requires
        old(session).wf(*generated),
        more@.wf(),
    ensures
        final(session)@ == old(session)@.keeping_up(more@, can),
        final(session).wf(*generated),
{
    let present = match &session.visible_snapshot_cache {
        Some(cache) => cache.revision == session.visible_snapshot_revision,
        None => false,
    };
    if !can || !present {
        invalidate_visible_catalog_snapshot(session);
        return ;
    }
    let kept = session.visible_snapshot_cache.take();
    invalidate_visible_catalog_snapshot(session);
    match kept {
        Some(cache) => {
            let mut snapshot = cache.snapshot;
            more.apply_to_snapshot(generated, &mut snapshot);
            session.visible_snapshot_cache =
            Some(
                CachedVisibleCatalogSnapshot {
                    base_generation: cache.base_generation,
                    revision: session.visible_snapshot_revision,
                    snapshot,
                },
            );
        },
        None => {},
    }
}

/// Whether the session has changes that are not committed.
pub fn has_uncommitted_catalog_changes(session: &CatalogSession) -> (r: bool)
    ensures
        r == any_changes(session@.drafts),
{
    let mut i: usize = 0;
    while i < session.transaction_stack.len()
        invariant
            i <= session.transaction_stack.len(),
            forall|j: int| 0 <= j < i ==> #[trigger] session@.drafts[j] == DraftView::empty(),
        decreases session.transaction_stack.len() - i,
    {
        if !session.transaction_stack[i].is_empty() {
            assert(session@.drafts[i as int] != DraftView::empty());
            return true;
        }
        assert(session@.drafts[i as int] == DraftView::empty());
        i += 1;
    }
    false
}

/// The state of the catalogs with the session's changes.
pub fn materialize_visible_catalog_snapshot(
    generated: &GeneratedCatalog,
    state: &CatalogState,
    session: &CatalogSession,
) -> (r: CatalogSnapshot)
    requires
        state.wf(*generated),
        session@.wf(),
    ensures
        r@ == visible(state@.snapshot, session@.drafts),
        r.wf(*generated),
{
    let mut r = state.snapshot.copy(generated);
    let mut i: usize = 0;
    let ghost drafts = session@.drafts;
    assert(drafts.take(0) =~= seq![]);
    while i < session.transaction_stack.len()
        invariant
            i <= session.transaction_stack.len(),
            drafts == session@.drafts,
            session@.wf(),
            r@ == visible(state@.snapshot, drafts.take(i as int)),
            r.wf(*generated),
        decreases session.transaction_stack.len() - i,
    {
        assert(drafts.take(i + 1).drop_last() =~= drafts.take(i as int));
        assert(drafts[i as int].wf());
        if !session.transaction_stack[i].is_empty() {
            session.transaction_stack[i].apply_to_snapshot(generated, &mut r);
        }
        i += 1;
    }
    assert(drafts.take(i as int) =~= drafts);
    r
}

/// Keeps the present state for a session that has changes.
pub fn refresh_visible_snapshot(
    generated: &GeneratedCatalog,
    state: &CatalogState,
    session: &mut CatalogSession,
)
    requires
        state.wf(*generated),
        old(session).wf(*generated),
        old(session)@.coherent(state@.snapshot),
    ensures
        final(session)@ == old(session)@.refreshed(state@.snapshot),
        final(session).wf(*generated),
        final(session)@.coherent(state@.snapshot),
{
    if !has_uncommitted_catalog_changes(session) {
        return ;
    }
    let fits = match &session.visible_snapshot_cache {
        Some(cache) => cache.base_generation == state.snapshot.generation && cache.revision
            == session.visible_snapshot_revision,
        None => false,
    };
    if fits {
        return ;
    }
    let snapshot = materialize_visible_catalog_snapshot(generated, state, session);
    session.visible_snapshot_cache =
    Some(
        CachedVisibleCatalogSnapshot {
            base_generation: state.snapshot.generation,
            revision: session.visible_snapshot_revision,
            snapshot,
        },
    );
}

proof fn lemma_no_changes_visible(base: SnapshotView, drafts: Seq<DraftView>)
    requires
        !any_changes(drafts),
    ensures
        visible(base, drafts) == base,
    decreases drafts.len(),
{
    if drafts.len() > 0 {
        assert(drafts[drafts.len() - 1] == DraftView::empty());
        let before = drafts.drop_last();
        assert forall|i: int| 0 <= i < before.len() implies #[trigger] before[i]
            == DraftView::empty() by {
            assert(before[i] == drafts[i]);
        }
        lemma_no_changes_visible(base, before);
    }
}

/// The state that a session sees: the committed one, with its changes.
pub fn visible_snapshot<'a>(
    generated: &GeneratedCatalog,
    state: &'a CatalogState,
    session: &'a CatalogSession,
) -> (r: &'a CatalogSnapshot)
    requires
        state.wf(*generated),
        session.wf(*generated),
        session@.coherent(state@.snapshot),
        any_changes(session@.drafts) ==> session@.cache_fits(state@.snapshot),
    ensures
        r@ == visible(state@.snapshot, session@.drafts),
        r.wf(*generated),
{
    if has_uncommitted_catalog_changes(session) {
        match &session.visible_snapshot_cache {
            Some(cache) => &cache.snapshot,
            None => {
                assert(false);
                &state.snapshot
            },
        }
    } else {
        proof {
            lemma_no_changes_visible(state@.snapshot, session@.drafts);
        }
        &state.snapshot
    }
}

pub fn ensure_catalog_transaction(session: &mut CatalogSession)
    ensures
        final(session)@ == old(session)@.ensured(),
        forall|generated: GeneratedCatalog|
            old(session).wf(generated) ==> #[trigger] final(session).wf(generated),
{
    if session.transaction_stack.len() == 0 {
        let ghost before = session@;
        session.transaction_stack.push(CatalogDraft::new());
        assert(session@.drafts =~= seq![DraftView::empty()]);
        invalidate_visible_catalog_snapshot(session);
    }
}

pub fn bump_generation(generated: &GeneratedCatalog, state: &mut CatalogState)
    requires
        old(state).wf(*generated),
    ensures
        final(state).wf(*generated),
        final(state)@ == (StateView {
            snapshot: SnapshotView {
                generation: next_generation(old(state)@.snapshot.generation),
                ..old(state)@.snapshot
            },
            ..old(state)@
        }),
{
    if state.snapshot.generation < u64::MAX {
        state.snapshot.generation = state.snapshot.generation + 1;
    }
}

/// Commits changes.
pub fn commit_catalog_draft(
    generated: &GeneratedCatalog,
    state: &mut CatalogState,
    changes: &CatalogDraft,
)
    requires
        old(state).wf(*generated),
        changes@.wf(),
    ensures
        final(state).wf(*generated),
        final(state)@ == old(state)@.committed(changes@),
{
    if changes.is_empty() {
        return ;
    }
    changes.apply_to_snapshot(generated, &mut state.snapshot);
    bump_generation(generated, state);
}

/// The committed state and a session.
pub struct CatalogsView {
    pub state: StateView,
    pub session: SessionView,
}

impl CatalogsView {
    /// With the innermost changes handed on: to the transaction around them,
    /// or to the committed state.
    pub open spec fn top_committed(self) -> CatalogsView {
        let drafts = self.session.drafts;
        let n = drafts.len() as int;
        if n == 0 {
            self
        } else if n == 1 {
            CatalogsView {
                state: self.state.committed(drafts[0]),
                session: SessionView { drafts: seq![], ..self.session }.invalidated(),
            }
        } else {
            CatalogsView {
                state: self.state,
                session: SessionView {
                    drafts: drafts.take(n - 2).push(drafts[n - 2].merged(drafts[n - 1])),
                    ..self.session
                }.invalidated(),
            }
        }
    }

    /// With all changes committed, from the innermost outwards.
    pub open spec fn all_committed(self) -> CatalogsView
        decreases self.session.drafts.len(),
    {
        if self.session.drafts.len() == 0 {
            self
        } else {
            self.top_committed().all_committed()
        }
    }
}

fn commit_top_catalog_draft(
    generated: &GeneratedCatalog,
    state: &mut CatalogState,
    session: &mut CatalogSession,
)
    requires
        old(state).wf(*generated),
        old(session).wf(*generated),
    ensures
        final(state).wf(*generated),
        final(session).wf(*generated),
        (CatalogsView { state: final(state)@, session: final(session)@ }) == (CatalogsView {
            state: old(state)@,
            session: old(session)@,
        }).top_committed(),
{
    let ghost drafts = session@.drafts;
    match session.transaction_stack.pop() {
        None => {},
        Some(top) => {
            let ghost n = drafts.len() as int;
            assert(top@ == drafts[n - 1]);
            match session.transaction_stack.pop() {
                Some(parent) => {
                    assert(parent@ == drafts[n - 2]);
                    let mut merged = parent;
                    merged.merge(&top);
                    session.transaction_stack.push(merged);
                    assert(session@.drafts =~= drafts.take(n - 2).push(
                        drafts[n - 2].merged(drafts[n - 1]),
                    ));
                },
                None => {
                    assert(n == 1);
                    assert(drafts[0].wf());
                    commit_catalog_draft(generated, state, &top);
                    assert(session@.drafts =~= seq![]);
                },
            }
            assert(session@.wf()) by {
                assert forall|i: int| 0 <= i < session@.drafts.len() implies (
                #[trigger] session@.drafts[i]).wf() by {
                    if i < n - 2 {
                        assert(session@.drafts[i] == drafts[i]);
                    }
                }
            }
            invalidate_visible_catalog_snapshot(session);
        },
    }
}

fn commit_all_drafts(
    generated: &GeneratedCatalog,
    state: &mut CatalogState,
    session: &mut CatalogSession,
)
    requires
        old(state).wf(*generated),
        old(session).wf(*generated),
    ensures
        final(state).wf(*generated),
        final(session).wf(*generated),
        (CatalogsView { state: final(state)@, session: final(session)@ }) == (CatalogsView {
            state: old(state)@,
            session: old(session)@,
        }).all_committed(),
        final(session)@.drafts.len() == 0,
{
    let ghost start = CatalogsView { state: state@, session: session@ };
    while session.transaction_stack.len() > 0
        invariant
            state.wf(*generated),
            session.wf(*generated),
            (CatalogsView { state: state@, session: session@ }).all_committed()
                == start.all_committed(),
        decreases session@.drafts.len(),
    {
        commit_top_catalog_draft(generated, state, session);
    }
}

pub fn current_generation(state: &CatalogState) -> (r: u64)
    ensures
        r == state@.snapshot.generation,
{
    state.snapshot.generation
}

/// Begins an explicit transaction. What an implicit one has changed is
/// committed first.
pub fn begin_explicit_transaction(
    generated: &GeneratedCatalog,
    state: &mut CatalogState,
    session: &mut CatalogSession,
)
    requires
        old(state).wf(*generated),
        old(session).wf(*generated),
    ensures
        final(state).wf(*generated),
        final(session).wf(*generated),
        ({
            let before = CatalogsView { state: old(state)@, session: old(session)@ };
            let settled = if old(session)@.explicit {
                before
            } else {
                before.all_committed()
            };
            &&& final(state)@ == settled.state
            &&& final(session)@ == (SessionView { explicit: true, ..settled.session.ensured() })
        }),
{
    if !session.explicit_transaction {
        commit_all_drafts(generated, state, session);
    }
    ensure_catalog_transaction(session);
    session.explicit_transaction = true;
}

pub fn begin_implicit_transaction(session: &mut CatalogSession)
    ensures
        final(session)@ == old(session)@.ensured(),
        forall|generated: GeneratedCatalog|
            old(session).wf(generated) ==> #[trigger] final(session).wf(generated),
{
    ensure_catalog_transaction(session);
}

/// Commits everything and ends the explicit transaction.
pub fn commit_explicit_transaction(
    generated: &GeneratedCatalog,
    state: &mut CatalogState,
    session: &mut CatalogSession,
)
    requires
        old(state).wf(*generated),
        old(session).wf(*generated),
    ensures
        final(state).wf(*generated),
        final(session).wf(*generated),
        ({
            let after = (CatalogsView {
                state: old(state)@,
                session: old(session)@,
            }).all_committed();
            &&& final(state)@ == after.state
            &&& final(session)@ == (SessionView { explicit: false, ..after.session })
        }),
{
    commit_all_drafts(generated, state, session);
    session.explicit_transaction = false;
}

/// Drops all changes and ends the explicit transaction.
pub fn abort_explicit_transaction(session: &mut CatalogSession)
    ensures
        final(session)@ == (SessionView {
            drafts: seq![],
            explicit: false,
            ..old(session)@
        }).invalidated(),
        forall|generated: GeneratedCatalog|
            old(session).wf(generated) ==> #[trigger] final(session).wf(generated),
{
    session.transaction_stack.clear();
    assert(session@.drafts =~= seq![]);
    session.explicit_transaction = false;
    invalidate_visible_catalog_snapshot(session);
}

/// Commits everything, unless an explicit transaction is open.
pub fn commit_implicit_transaction(
    generated: &GeneratedCatalog,
    state: &mut CatalogState,
    session: &mut CatalogSession,
)
    requires
        old(state).wf(*generated),
        old(session).wf(*generated),
    ensures
        final(state).wf(*generated),
        final(session).wf(*generated),
        ({
            let before = CatalogsView { state: old(state)@, session: old(session)@ };
            let after = if old(session)@.explicit {
                before
            } else {
                before.all_committed()
            };
            (CatalogsView { state: final(state)@, session: final(session)@ }) == after
        }),
{
    if session.explicit_transaction {
        return ;
    }
    commit_all_drafts(generated, state, session);
}

/// Drops all changes, unless an explicit transaction is open.
pub fn abort_implicit_transaction(session: &mut CatalogSession)
    ensures
        final(session)@ == (if old(session)@.explicit {
            old(session)@
        } else {
            (SessionView { drafts: seq![], ..old(session)@ }).invalidated()
        }),
        forall|generated: GeneratedCatalog|
            old(session).wf(generated) ==> #[trigger] final(session).wf(generated),
{
    if !session.explicit_transaction {
        session.transaction_stack.clear();
        assert(session@.drafts =~= seq![]);
        invalidate_visible_catalog_snapshot(session);
    }
}

/// Begins a transaction inside the present one.
pub fn begin_subtransaction(session: &mut CatalogSession)
    ensures
        final(session)@ == (SessionView {
            drafts: old(session)@.ensured().drafts.push(DraftView::empty()),
            ..old(session)@.ensured()
        }).invalidated(),
        forall|generated: GeneratedCatalog|
            old(session).wf(generated) ==> #[trigger] final(session).wf(generated),
{
    ensure_catalog_transaction(session);
    let ghost before = session@.drafts;
    session.transaction_stack.push(CatalogDraft::new());
    assert(session@.drafts =~= before.push(DraftView::empty()));
    invalidate_visible_catalog_snapshot(session);
}

/// Hands the changes of the innermost transaction to the one around it, if it
/// is inside another.
pub fn commit_subtransaction(
    generated: &GeneratedCatalog,
    state: &mut CatalogState,
    session: &mut CatalogSession,
)
    requires
        old(state).wf(*generated),
        old(session).wf(*generated),
    ensures
        final(state).wf(*generated),
        final(session).wf(*generated),
        final(state)@ == old(state)@,
        final(session)@ == (if old(session)@.drafts.len() > 1 {
            (CatalogsView { state: old(state)@, session: old(session)@ }).top_committed().session
        } else {
            old(session)@
        }),
{
    if session.transaction_stack.len() > 1 {
        commit_top_catalog_draft(generated, state, session);
    }
}

/// Drops the changes of the innermost transaction, if it is inside another.
pub fn abort_subtransaction(session: &mut CatalogSession)
    ensures
        final(session)@ == (if old(session)@.drafts.len() > 1 {
            (SessionView {
                drafts: old(session)@.drafts.drop_last(),
                ..old(session)@
            }).invalidated()
        } else {
            old(session)@
        }),
        forall|generated: GeneratedCatalog|
            old(session).wf(generated) ==> #[trigger] final(session).wf(generated),
{
    if session.transaction_stack.len() > 1 {
        let ghost before = session@.drafts;
        session.transaction_stack.pop();
        assert(session@.drafts =~= before.drop_last());
        invalidate_visible_catalog_snapshot(session);
    }
}

/// Returns the committed state to where it started.
pub fn clear_for_tests(
    generated: &GeneratedCatalog,
    state: &mut CatalogState,
)
    ensures
        final(state)@ == StateView::initial(),
        final(state).wf(*generated),
{
    *state = CatalogState::new(generated);
}

} // verus!
