//! Putting and removing catalog rows in a session.

use vstd::prelude::*;

use crate::catalog::columns;
use crate::catalog::draft::{CatalogDraft, DraftView};
use crate::catalog::model::{
    CatalogError, CatalogRow, CatalogRowView, CatalogValue, CatalogValueView, FloatReadings,
    GeneratedCatalog, StaticCatalogRow, StaticCatalogTable,
};
use crate::catalog::model;
use crate::catalog::state;
use crate::catalog::state::{CatalogSession, CatalogState, SessionView, StateView};
use crate::catalog::values;
use crate::search;
use crate::text;
use crate::types::Oid;

verus! {

broadcast use vstd::std_specs::btree::group_btree_axioms;

/// The greatest identity of the rows, zero where there are none.
pub open spec fn greatest_row_id(rows: Seq<StaticCatalogRow>) -> u64
    decreases rows.len(),
{
    if rows.len() == 0 {
        0
    } else {
        let before = greatest_row_id(rows.drop_last());
        if rows.last().row_id > before {
            rows.last().row_id
        } else {
            before
        }
    }
}

/// The number after another; the greatest has none after it.
pub open spec fn after(n: u64) -> u64 {
    if n == u64::MAX {
        u64::MAX
    } else {
        (n + 1) as u64
    }
}

/// The identity that the next row without one of its own gets in a catalog.
pub open spec fn next_row_id(s: StateView, table: StaticCatalogTable) -> u64 {
    if s.next_ids.contains_key(table.oid.0) {
        s.next_ids[table.oid.0]
    } else {
        after(greatest_row_id(table.rows@))
    }
}

/// The state once that identity has been given out.
pub open spec fn with_id_taken(s: StateView, table: StaticCatalogTable) -> StateView {
    StateView { next_ids: s.next_ids.insert(table.oid.0, after(next_row_id(s, table))), ..s }
}

/// The first identity that is given out in a catalog is above those of its
/// compiled-in rows, while there is one.
pub proof fn given_ids_start_above_the_compiled_rows(
    s: StateView,
    table: StaticCatalogTable,
    i: int,
)
    requires
        !s.next_ids.contains_key(table.oid.0),
        greatest_row_id(table.rows@) < u64::MAX,
        0 <= i < table.rows@.len(),
    ensures
        table.rows@[i].row_id < next_row_id(s, table),
{
    lemma_greatest(table.rows@, i);
}

proof fn lemma_greatest(rows: Seq<StaticCatalogRow>, i: int)
    requires
        0 <= i < rows.len(),
    ensures
        rows[i].row_id <= greatest_row_id(rows),
    decreases rows.len(),
{
    if i < rows.len() - 1 {
        lemma_greatest(rows.drop_last(), i);
    }
}

/// An identity is given out once, while there are any left.
pub proof fn given_ids_are_new(s: StateView, table: StaticCatalogTable)
    requires
        next_row_id(s, table) < u64::MAX,
    ensures
        next_row_id(with_id_taken(s, table), table) > next_row_id(s, table),
{
}

pub fn next_overlay_row_id(state: &mut CatalogState, table: &StaticCatalogTable) -> (r: u64)
    ensures
        r == next_row_id(old(state)@, *table),
        final(state)@ == with_id_taken(old(state)@, *table),
        final(state).snapshot == old(state).snapshot,
{
    let next: u64 = match state.next_overlay_row_ids.get(&table.oid.0) {
        Some(next) => *next,
        None => {
            let mut greatest: u64 = 0;
            let mut i: usize = 0;
            assert(table.rows@.take(0) =~= seq![]);
            while i < table.rows.len()
                invariant
                    i <= table.rows@.len(),
                    greatest == greatest_row_id(table.rows@.take(i as int)),
                decreases table.rows@.len() - i,
            {
                assert(table.rows@.take(i + 1).drop_last() =~= table.rows@.take(i as int));
                if table.rows[i].row_id > greatest {
                    greatest = table.rows[i].row_id;
                }
                i += 1;
            }
            assert(table.rows@.take(i as int) =~= table.rows@);
            if greatest == u64::MAX {
                greatest
            } else {
                greatest + 1
            }
        },
    };
    let following: u64 = if next == u64::MAX {
        next
    } else {
        next + 1
    };
    state.next_overlay_row_ids.insert(table.oid.0, following);
    next
}

/// The identity that a row's own identifier gives it.
pub open spec fn own_row_id(
    generated: GeneratedCatalog,
    table: StaticCatalogTable,
    list: Seq<CatalogValueView>,
) -> Option<u64> {
    match columns::position(table, "oid"@) {
        Some(i) if i < list.len() => match columns::oid_of(generated, list[i]) {
            Some(oid) => Some(oid.0 as u64),
            None => None,
        },
        _ => None,
    }
}

pub fn row_id_from_catalog_values(
    generated: &GeneratedCatalog,
    table: &StaticCatalogTable,
    list: &Vec<CatalogValue>,
) -> (r: Option<u64>)
    ensures
        r == own_row_id(*generated, *table, model::value_views(list@)),
{
    proof {
        search::first_index_is_first(table.columns@, columns::column_is("oid"@));
    }
    match columns::column_position(table, "oid") {
        Some(i) => if i < list.len() {
            match columns::catalog_value_oid(generated, &list[i]) {
                Some(oid) => Some(oid.0 as u64),
                None => None,
            }
        } else {
            None
        },
        None => None,
    }
}

/// The contents of a list of optional strings.
pub open spec fn optional_texts(v: Seq<Option<String>>) -> Seq<Option<Seq<char>>> {
    Seq::new(
        v.len(),
        |i: int|
            match v[i] {
                Some(t) => Some(t@),
                None => None,
            },
    )
}

/// The values that texts stand for in the columns of a catalog.
pub open spec fn values_of_texts(
    floats: FloatReadings,
    table: StaticCatalogTable,
    texts: Seq<Option<Seq<char>>>,
) -> Seq<CatalogValueView> {
    Seq::new(
        texts.len(),
        |i: int|
            match texts[i] {
                Some(raw) => values::text_value(floats, table.columns@[i], raw),
                None => CatalogValueView::Null,
            },
    )
}

fn read_values(
    floats: &FloatReadings,
    table: &StaticCatalogTable,
    texts: &Vec<Option<String>>,
) -> (r: Vec<CatalogValue>)
    requires
        texts.len() == table.columns@.len(),
    ensures
        model::value_views(r@) == values_of_texts(*floats, *table, optional_texts(texts@)),
{
    let mut r: Vec<CatalogValue> = Vec::new();
    let ghost wanted = values_of_texts(*floats, *table, optional_texts(texts@));
    let mut i: usize = 0;
    while i < texts.len()
        invariant
            i <= texts.len(),
            texts.len() == table.columns@.len(),
            wanted == values_of_texts(*floats, *table, optional_texts(texts@)),
            r@.len() == i,
            forall|j: int| 0 <= j < i ==> (#[trigger] r@[j])@ == wanted[j],
        decreases texts.len() - i,
    {
        let raw = match &texts[i] {
            Some(s) => Some(s.as_str()),
            None => None,
        };
        r.push(values::catalog_value_from_text(floats, &table.columns[i], raw));
        i += 1;
    }
    assert(model::value_views(r@) =~= wanted);
    r
}

/// The message for a catalog that does not exist.
pub open spec fn no_relation_message(oid: Oid) -> Seq<char> {
    "generated catalog relation "@ + text::decimal_int(oid.0 as int) + " does not exist"@
}

/// The message for a row with another number of values than its catalog has
/// columns.
pub open spec fn wrong_width_message(table: StaticCatalogTable, given: nat) -> Seq<char> {
    "catalog row for "@ + table.name@ + " has "@ + text::decimal_int(given as int)
        + " values but "@ + text::decimal_int(table.columns@.len() as int) + " columns"@
}

pub open spec fn is_error(e: CatalogError, sqlstate: Seq<char>, message: Seq<char>) -> bool {
    e.sqlstate@ == sqlstate && e.message@ == message
}

fn no_relation_error(oid: Oid) -> (r: CatalogError)
    ensures
        is_error(r, "42P01"@, no_relation_message(oid)),
{
    let mut message = text::chars_of("generated catalog relation ");
    let digits = text::format_int(oid.0 as i64);
    text::push_all(&mut message, &digits);
    text::push_text(&mut message, " does not exist");
    CatalogError::new("42P01", text::string_of(&message))
}

fn wrong_width_error(table: &StaticCatalogTable, given: usize) -> (r: CatalogError)
    ensures
        is_error(r, "42804"@, wrong_width_message(*table, given as nat)),
{
    let mut message = text::chars_of("catalog row for ");
    text::push_text(&mut message, table.name);
    text::push_text(&mut message, " has ");
    let given_digits = text::format_count(given);
    text::push_all(&mut message, &given_digits);
    text::push_text(&mut message, " values but ");
    let column_digits = text::format_count(table.columns.len());
    text::push_all(&mut message, &column_digits);
    text::push_text(&mut message, " columns");
    CatalogError::new("42804", text::string_of(&message))
}

/// A session after a row was put.
pub open spec fn with_row_put(
    session: SessionView,
    generated: GeneratedCatalog,
    table: StaticCatalogTable,
    row: CatalogRowView,
) -> SessionView {
    let open = session.ensured();
    let d = open.drafts.last();
    open.with_top(d.with_row(generated, table, row)).keeping_up(
        DraftView::empty().with_row(generated, table, row),
        !d.compat.tombstones.contains((table.oid.0, row.row_id)),
    )
}

/// A session after a row was removed.
pub open spec fn with_row_removed(
    session: SessionView,
    relation_oid: Oid,
    row_id: u64,
) -> SessionView {
    let open = session.ensured();
    open.with_top(open.drafts.last().without_row(relation_oid.0, row_id)).keeping_up(
        DraftView::empty().without_row(relation_oid.0, row_id),
        true,
    )
}

proof fn lemma_top_wf(session: SessionView, d: DraftView)
    requires
        session.wf(),
        d.wf(),
        session.drafts.len() > 0,
    ensures
        session.with_top(d).wf(),
{
    let r = session.with_top(d);
    assert forall|i: int| 0 <= i < r.drafts.len() implies (#[trigger] r.drafts[i]).wf() by {
        if i < r.drafts.len() - 1 {
            assert(r.drafts[i] == session.drafts[i]);
        }
    }
}

fn put_row(
    generated: &GeneratedCatalog,
    session: &mut CatalogSession,
    table: &StaticCatalogTable,
    row: CatalogRow,
)
    requires
        old(session).wf(*generated),
        row.relation_oid == table.oid,
    ensures
        final(session).wf(*generated),
        final(session)@ == with_row_put(old(session)@, *generated, *table, row@),
{
    state::ensure_catalog_transaction(session);
    assert(session.wf(*generated));
    let ghost open = session@;
    let mut more = CatalogDraft::new();
    more.upsert_catalog_row(generated, table, row.clone());
    let mut can = true;
    match session.transaction_stack.pop() {
        Some(top) => {
            let mut top = top;
            assert(top@ == open.drafts.last());
            assert(open.drafts[open.drafts.len() - 1].wf());
            can = !top.compat_rows.has_tombstone(table.oid, row.row_id);
            top.upsert_catalog_row(generated, table, row);
            let ghost put = top@;
            session.transaction_stack.push(top);
            assert(session@.drafts =~= open.with_top(put).drafts);
            proof {
                lemma_top_wf(open, put);
            }
        },
        None => {
            assert(false);
        },
    }
    state::keep_up_visible_catalog_snapshot(generated, session, &more, can);
}

/// Puts a row that is given by its texts, and tells its identity. A row that
/// is given none gets that of its own identifier, or else a new one.
pub fn upsert_catalog_row(
    generated: &GeneratedCatalog,
    floats: &FloatReadings,
    catalog_state: &mut CatalogState,
    session: &mut CatalogSession,
    relation_oid: Oid,
    row_id: u64,
    texts: &Vec<Option<String>>,
) -> (r: Result<u64, CatalogError>)
    requires
        old(catalog_state).wf(*generated),
        old(session).wf(*generated),
    ensures
        final(catalog_state).wf(*generated),
        final(session).wf(*generated),
        match columns::table_of(*generated, relation_oid) {
            None => {
                &&& r matches Err(e) && is_error(e, "42P01"@, no_relation_message(relation_oid))
                &&& final(catalog_state)@ == old(catalog_state)@
                &&& final(session)@ == old(session)@
            },
            Some(table) => if texts.len() != table.columns@.len() {
                &&& r matches Err(e) && is_error(
                    e,
                    "42804"@,
                    wrong_width_message(table, texts@.len()),
                )
                &&& final(catalog_state)@ == old(catalog_state)@
                &&& final(session)@ == old(session)@
            } else {
                let list = values_of_texts(*floats, table, optional_texts(texts@));
                let own = own_row_id(*generated, table, list);
                let id = if row_id != 0 {
                    row_id
                } else if own is Some {
                    own->0
                } else {
                    next_row_id(old(catalog_state)@, table)
                };
                &&& r == Ok::<u64, CatalogError>(id)
                &&& final(catalog_state)@ == (if row_id == 0 && own is None {
                    with_id_taken(old(catalog_state)@, table)
                } else {
                    old(catalog_state)@
                })
                &&& final(session)@ == with_row_put(
                    old(session)@,
                    *generated,
                    table,
                    CatalogRowView { relation_oid, row_id: id, values: list },
                )
            },
        },
{
    let table = match columns::static_catalog_by_relation_oid(generated, relation_oid) {
        Some(table) => table,
        None => {
            return Err(no_relation_error(relation_oid));
        },
    };
    if texts.len() != table.columns.len() {
        return Err(wrong_width_error(table, texts.len()));
    }
    let list = read_values(floats, table, texts);
    let id: u64 = if row_id != 0 {
        row_id
    } else {
        match row_id_from_catalog_values(generated, table, &list) {
            Some(own) => own,
            None => next_overlay_row_id(catalog_state, table),
        }
    };
    put_row(
        generated,
        session,
        table,
        CatalogRow { relation_oid, row_id: id, values: list },
    );
    Ok(id)
}

/// Removes a row.
pub fn delete_catalog_row(
    generated: &GeneratedCatalog,
    session: &mut CatalogSession,
    relation_oid: Oid,
    row_id: u64,
) -> (r: Result<(), CatalogError>)
    requires
        old(session).wf(*generated),
    ensures
        final(session).wf(*generated),
        match columns::table_of(*generated, relation_oid) {
            None => {
                &&& r matches Err(e) && is_error(e, "42P01"@, no_relation_message(relation_oid))
                &&& final(session)@ == old(session)@
            },
            Some(_) => {
                &&& r is Ok
                &&& final(session)@ == with_row_removed(old(session)@, relation_oid, row_id)
            },
        },
{
    match columns::static_catalog_by_relation_oid(generated, relation_oid) {
        Some(_) => {},
        None => {
            return Err(no_relation_error(relation_oid));
        },
    }
    state::ensure_catalog_transaction(session);
    assert(session.wf(*generated));
    let ghost open = session@;
    match session.transaction_stack.pop() {
        Some(top) => {
            let mut top = top;
            assert(top@ == open.drafts.last());
            assert(open.drafts[open.drafts.len() - 1].wf());
            top.delete_catalog_row(relation_oid, row_id);
            let ghost put = top@;
            session.transaction_stack.push(top);
            assert(session@.drafts =~= open.with_top(put).drafts);
            proof {
                lemma_top_wf(open, put);
            }
        },
        None => {
            assert(false);
        },
    }
    let mut more = CatalogDraft::new();
    more.delete_catalog_row(relation_oid, row_id);
    state::keep_up_visible_catalog_snapshot(generated, session, &more, true);
    Ok(())
}

} // verus!
