//! What holds across the operations on the catalogs: what a read gives back of
//! a write, and what commits and aborts leave.

use vstd::prelude::*;

use crate::catalog::catalog_indexes;
use crate::catalog::catalog_indexes::CatalogIndexView;
use crate::catalog::columns;
use crate::catalog::counts;
use crate::catalog::draft;
use crate::catalog::draft::DraftView;
use crate::catalog::edit;
use crate::catalog::meta::{ColumnMeta, TypeMeta};
use crate::catalog::model::{
    CatalogRowView, GeneratedCatalog, StaticCatalogTable, PG_ATTRIBUTE_RELATION_OID,
    PG_TYPE_RELATION_OID,
};
use crate::catalog::nodes;
use crate::catalog::rows;
use crate::catalog::rows::{ColumnFilterView, ColumnScan, RequestView};
use crate::catalog::selectors::SelectorView;
use crate::catalog::snapshot::SnapshotView;
use crate::catalog::state;
use crate::catalog::state::{CatalogsView, SessionView, StateView};
use crate::catalog::static_rows;
use crate::catalog::synthetic;
use crate::ordered;
use crate::search;
use crate::types::Oid;

verus! {

/// All rows of a catalog that is compiled in.
pub open spec fn everything(generated: GeneratedCatalog, table: StaticCatalogTable) -> RequestView {
    RequestView { generated, table, sel: SelectorView::All }
}

/// Whether an identity is the one of a column of a compiled-in catalog.
pub open spec fn is_column_id_at(
    generated: GeneratedCatalog,
    i: int,
    attnum: i16,
    id: u64,
) -> bool {
    let oid = generated.tables@[i].oid;
    ||| synthetic::attribute_row_id(oid, attnum) == id
    ||| synthetic::system_attribute_row_id(oid, attnum) == id
}

/// Whether an identity is the one of a column of an index of a compiled-in
/// catalog.
pub open spec fn is_key_id_at(i: int, attnum: i16, id: u64) -> bool {
    synthetic::attribute_row_id(catalog_indexes::all_indexes()[i].oid, attnum) == id
}

/// Whether an identity is one that the catalog of columns gives to a column of
/// a compiled-in catalog or of an index of one.
pub open spec fn is_column_id(generated: GeneratedCatalog, id: u64) -> bool {
    ||| exists|i: int, attnum: i16|
        0 <= i < generated.tables@.len() && #[trigger] is_column_id_at(generated, i, attnum, id)
    ||| exists|i: int, attnum: i16|
        0 <= i < catalog_indexes::all_indexes().len() && #[trigger] is_key_id_at(i, attnum, id)
}

/// Whether an identity belongs to a row that follows from what is compiled in.
pub open spec fn is_given_away(generated: GeneratedCatalog, relation: u32, id: u64) -> bool {
    if relation == PG_TYPE_RELATION_OID {
        counts::domain_ids().contains(id) || counts::rowtype_ids(generated.tables@).contains(id)
    } else if relation == PG_ATTRIBUTE_RELATION_OID {
        is_column_id(generated, id)
    } else {
        false
    }
}

proof fn lemma_each_keeps(
    request: RequestView,
    start: Map<u64, CatalogRowView>,
    list: Seq<Option<CatalogRowView>>,
    id: u64,
)
    requires
        forall|i: int|
            0 <= i < list.len() ==> (#[trigger] list[i] matches Some(row) ==> row.row_id != id),
    ensures
        request.with_each(start, list).contains_key(id) == start.contains_key(id),
        request.with_each(start, list)[id] == start[id],
    decreases list.len(),
{
    if list.len() > 0 {
        let before = list.drop_last();
        assert forall|i: int| 0 <= i < before.len() implies (
        #[trigger] before[i] matches Some(row) ==> row.row_id != id) by {
            assert(before[i] == list[i]);
        }
        lemma_each_keeps(request, start, before, id);
        assert(list[list.len() - 1] == list.last());
    }
}

proof fn lemma_columns_keep(
    request: RequestView,
    scan: ColumnScan,
    relation_table: StaticCatalogTable,
    wanted: ColumnFilterView,
    n: nat,
    id: u64,
)
    requires
        forall|attnum: i16|
            #[trigger] synthetic::attribute_row_id(relation_table.oid, attnum) != id,
    ensures
        ({
            let now = request.with_columns(scan, relation_table, wanted, n).rows;
            now.contains_key(id) == scan.rows.contains_key(id) && now[id] == scan.rows[id]
        }),
    decreases n,
{
    if n > 0 {
        lemma_columns_keep(request, scan, relation_table, wanted, (n - 1) as nat, id);
        if n <= i16::MAX {
            let attnum = n as i16;
            columns::values_keep_the_identity(
                request.table,
                synthetic::first_row_as(
                    request.generated,
                    request.table,
                    synthetic::attribute_row_id(relation_table.oid, attnum),
                ),
                synthetic::attribute_columns(
                    relation_table,
                    relation_table.columns@[n - 1],
                    attnum,
                    nodes::builtin_type(
                        request.generated,
                        relation_table.columns@[n - 1].type_oid,
                    )->0,
                ),
            );
        }
    }
}

proof fn lemma_system_columns_keep(
    request: RequestView,
    scan: ColumnScan,
    relation_table: StaticCatalogTable,
    wanted: ColumnFilterView,
    n: nat,
    id: u64,
)
    requires
        n <= synthetic::system_attributes().len(),
        forall|attnum: i16|
            #[trigger] synthetic::system_attribute_row_id(relation_table.oid, attnum) != id,
    ensures
        ({
            let now = request.with_system_columns(scan, relation_table, wanted, n).rows;
            now.contains_key(id) == scan.rows.contains_key(id) && now[id] == scan.rows[id]
        }),
    decreases n,
{
    if n > 0 {
        lemma_system_columns_keep(request, scan, relation_table, wanted, (n - 1) as nat, id);
        let attribute = synthetic::system_attributes()[n - 1];
        columns::values_keep_the_identity(
            request.table,
            synthetic::first_row_as(
                request.generated,
                request.table,
                synthetic::system_attribute_row_id(relation_table.oid, attribute.attnum),
            ),
            synthetic::system_attribute_columns(
                relation_table,
                attribute,
                nodes::builtin_type(request.generated, attribute.type_oid)->0,
            ),
        );
    }
}

proof fn lemma_catalog_columns_keep(request: RequestView, scan: ColumnScan, n: nat, id: u64)
    requires
        n <= request.generated.tables@.len(),
        !is_column_id(request.generated, id),
    ensures
        ({
            let now = request.with_catalog_columns(scan, n).rows;
            now.contains_key(id) == scan.rows.contains_key(id) && now[id] == scan.rows[id]
        }),
    decreases n,
{
    if n > 0 {
        lemma_catalog_columns_keep(request, scan, (n - 1) as nat, id);
        let table = request.generated.tables@[n - 1];
        assert forall|attnum: i16| #[trigger]
            synthetic::attribute_row_id(table.oid, attnum) != id by {
            assert(!is_column_id_at(request.generated, n - 1, attnum, id));
        }
        assert forall|attnum: i16| #[trigger]
            synthetic::system_attribute_row_id(table.oid, attnum) != id by {
            assert(!is_column_id_at(request.generated, n - 1, attnum, id));
        }
        let before = request.with_catalog_columns(scan, (n - 1) as nat);
        let middle = request.with_columns(
            before,
            table,
            ColumnFilterView::any(),
            table.columns@.len(),
        );
        lemma_columns_keep(
            request,
            before,
            table,
            ColumnFilterView::any(),
            table.columns@.len(),
            id,
        );
        lemma_system_columns_keep(
            request,
            middle,
            table,
            ColumnFilterView::any(),
            synthetic::system_attributes().len(),
            id,
        );
    }
}

proof fn lemma_keys_keep(
    request: RequestView,
    scan: ColumnScan,
    index: CatalogIndexView,
    n: nat,
    id: u64,
)
    requires
        forall|attnum: i16| #[trigger] synthetic::attribute_row_id(index.oid, attnum) != id,
    ensures
        ({
            let now = request.with_keys(scan, index, ColumnFilterView::any(), n).rows;
            now.contains_key(id) == scan.rows.contains_key(id) && now[id] == scan.rows[id]
        }),
    decreases n,
{
    if n > 0 {
        lemma_keys_keep(request, scan, index, (n - 1) as nat, id);
        if n <= i16::MAX {
            let attnum = n as i16;
            let relation = columns::table_of(request.generated, index.relation_oid)->0;
            let place = catalog_indexes::key_place(relation)(index.keys[n - 1])->0;
            let column = relation.columns@[place as int];
            columns::values_keep_the_identity(
                request.table,
                synthetic::first_row_as(
                    request.generated,
                    request.table,
                    synthetic::attribute_row_id(index.oid, attnum),
                ),
                synthetic::attribute_columns(
                    StaticCatalogTable { oid: index.oid, ..relation },
                    column,
                    attnum,
                    nodes::builtin_type(request.generated, column.type_oid)->0,
                ),
            );
        }
    }
}

proof fn lemma_index_columns_keep(request: RequestView, scan: ColumnScan, n: nat, id: u64)
    requires
        n <= catalog_indexes::all_indexes().len(),
        !is_column_id(request.generated, id),
    ensures
        ({
            let now = request.with_index_columns(scan, n).rows;
            now.contains_key(id) == scan.rows.contains_key(id) && now[id] == scan.rows[id]
        }),
    decreases n,
{
    if n > 0 {
        lemma_index_columns_keep(request, scan, (n - 1) as nat, id);
        let index = catalog_indexes::all_indexes()[n - 1];
        assert forall|attnum: i16| #[trigger]
            synthetic::attribute_row_id(index.oid, attnum) != id by {
            assert(!is_key_id_at(n - 1, attnum, id));
        }
        lemma_keys_keep(
            request,
            request.with_index_columns(scan, (n - 1) as nat),
            index,
            index.keys.len(),
            id,
        );
    }
}

proof fn lemma_types_keep(
    generated: GeneratedCatalog,
    table: StaticCatalogTable,
    start: Map<u64, CatalogRowView>,
    id: u64,
)
    requires
        !counts::domain_ids().contains(id),
        !counts::rowtype_ids(generated.tables@).contains(id),
    ensures
        ({
            let request = everything(generated, table);
            let now = request.with_each(
                request.with_each(start, rows::domain_rows(generated, table)),
                rows::rowtype_rows(generated, table),
            );
            now.contains_key(id) == start.contains_key(id) && now[id] == start[id]
        }),
{
    let request = everything(generated, table);
    let domains = rows::domain_rows(generated, table);
    let rowtypes = rows::rowtype_rows(generated, table);
    assert forall|i: int| 0 <= i < domains.len() implies (
    #[trigger] domains[i] matches Some(row) ==> row.row_id != id) by {
        let domain = synthetic::domain_specs()[i];
        assert(counts::domain_ids().contains(domain.oid.0 as u64));
        columns::values_keep_the_identity(
            table,
            CatalogRowView {
                row_id: domain.oid.0 as u64,
                ..static_rows::named_row(
                    generated,
                    table,
                    search::first_with(
                        table.rows@,
                        synthetic::is_type_with(generated, table, domain.base_type),
                    )->0,
                )
            },
            synthetic::domain_columns(
                domain,
                nodes::builtin_type(generated, domain.base_type)->0,
            ),
        );
    }
    lemma_each_keeps(request, start, domains, id);
    assert forall|i: int| 0 <= i < rowtypes.len() implies (
    #[trigger] rowtypes[i] matches Some(row) ==> row.row_id != id) by {
        let relation_table = generated.tables@[i];
        assert(counts::rowtype_ids(generated.tables@).contains(
            static_rows::rowtype_of(relation_table).0 as u64,
        ));
        columns::values_keep_the_identity(
            table,
            CatalogRowView {
                row_id: static_rows::rowtype_of(relation_table).0 as u64,
                ..static_rows::named_row(
                    generated,
                    table,
                    synthetic::rowtype_template(generated, table)->0,
                )
            },
            synthetic::rowtype_columns(relation_table),
        );
    }
    lemma_each_keeps(request, request.with_each(start, domains), rowtypes, id);
}

proof fn lemma_recorded_row_is_gathered(
    generated: GeneratedCatalog,
    table: StaticCatalogTable,
    s: SnapshotView,
    row: CatalogRowView,
)
    requires
        row.relation_oid == table.oid,
        draft::is_recorded(s, row),
        !is_given_away(generated, table.oid.0, row.row_id),
    ensures
        ({
            let found = everything(generated, table).gathered(s);
            found.contains_key(row.row_id) && found[row.row_id] == row
        }),
{
    let request = everything(generated, table);
    let id = row.row_id;
    let compiled = request.compiled(table.rows@);
    if table.oid.0 == PG_TYPE_RELATION_OID {
        lemma_types_keep(
            generated,
            table,
            request.with_more(compiled, rows::record_rows::<TypeMeta>(s.types)),
            id,
        );
    } else if table.oid.0 == PG_ATTRIBUTE_RELATION_OID {
        let recorded = request.with_more(compiled, rows::record_rows::<ColumnMeta>(s.columns));
        let scan = ColumnScan {
            rows: recorded,
            taken: rows::places_of(generated, table, recorded),
        };
        lemma_catalog_columns_keep(request, scan, generated.tables@.len(), id);
        lemma_index_columns_keep(
            request,
            request.with_catalog_columns(scan, generated.tables@.len()),
            catalog_indexes::all_indexes().len(),
            id,
        );
    }
}

proof fn lemma_put_row_is_recorded_or_laid_over(
    d: DraftView,
    generated: GeneratedCatalog,
    table: StaticCatalogTable,
    row: CatalogRowView,
    s: SnapshotView,
)
    requires
        row.relation_oid == table.oid,
    ensures
        ({
            let put = d.with_row(generated, table, row);
            let k = (table.oid.0, row.row_id);
            ||| put.compat.rows.contains_key(k) && put.compat.rows[k] == row
            ||| draft::is_recorded(put.applied(s), row) && put.compat == d.compat.without_mark(
                table.oid.0,
                row.row_id,
            )
        }),
{
}

proof fn lemma_held_row_is_read(answer: Map<u64, CatalogRowView>, row: CatalogRowView)
    requires
        answer.contains_key(row.row_id),
        answer[row.row_id] == row,
    ensures
        rows::in_order(answer).contains(row),
{
    ordered::sorted_ids_list_the_set(answer.dom());
    let ids = ordered::sorted_ids(answer.dom());
    assert(ids.contains(row.row_id));
    let i = choose|i: int| 0 <= i < ids.len() && ids[i] == row.row_id;
    assert(rows::in_order(answer)[i] == row);
}

/// Whether nothing hides a row once it is put: it is laid over its catalog, or
/// it is recorded and neither an older row nor a mark of deletion is laid over
/// it, nor does a row that follows from what is compiled in take its place.
pub open spec fn nothing_hides(
    d: DraftView,
    generated: GeneratedCatalog,
    table: StaticCatalogTable,
    row: CatalogRowView,
    s: SnapshotView,
) -> bool {
    let k = (table.oid.0, row.row_id);
    let put = d.with_row(generated, table, row).compat;
    ||| put.rows.contains_key(k) && put.rows[k] == row
    ||| {
        &&& !d.compat.rows.contains_key(k)
        &&& !s.compat.rows.contains_key(k)
        &&& !s.compat.tombstones.contains(k)
        &&& !is_given_away(generated, table.oid.0, row.row_id)
    }
}

/// A row that was put is read back among the rows of its catalog, where nothing
/// hides it.
pub proof fn a_put_row_is_read(
    d: DraftView,
    generated: GeneratedCatalog,
    table: StaticCatalogTable,
    row: CatalogRowView,
    s: SnapshotView,
)
    requires
        columns::table_of(generated, table.oid) == Some(table),
        row.relation_oid == table.oid,
        nothing_hides(d, generated, table, row, s),
    ensures
        rows::rows_asked_for(
            generated,
            d.with_row(generated, table, row).applied(s),
            table.oid,
            SelectorView::All,
        ).contains(row),
{
    let put = d.with_row(generated, table, row);
    let now = put.applied(s);
    let answer = everything(generated, table).answer(now);
    let k = (table.oid.0, row.row_id);
    lemma_put_row_is_recorded_or_laid_over(d, generated, table, row, s);
    if put.compat.rows.contains_key(k) && put.compat.rows[k] == row {
        assert(now.compat.rows.contains_key(k) && now.compat.rows[k] == row);
    } else {
        lemma_recorded_row_is_gathered(generated, table, now, row);
        assert(!now.compat.rows.contains_key(k));
        assert(!now.compat.tombstones.contains(k));
    }
    assert(answer.contains_key(row.row_id) && answer[row.row_id] == row);
    lemma_held_row_is_read(answer, row);
}

/// A row that was removed is read no longer.
pub proof fn a_removed_row_is_not_read(
    d: DraftView,
    generated: GeneratedCatalog,
    table: StaticCatalogTable,
    row: CatalogRowView,
    s: SnapshotView,
)
    ensures
        !everything(generated, table).answer(
            d.without_row(table.oid.0, row.row_id).applied(s),
        ).contains_key(row.row_id),
{
}

/// What a session sees after its innermost changes were replaced.
proof fn lemma_top_is_seen(base: SnapshotView, session: SessionView, d: DraftView)
    requires
        session.drafts.len() > 0,
        d != DraftView::empty(),
    ensures
        state::visible(base, session.with_top(d).drafts) == d.applied(
            state::visible(base, session.drafts.drop_last()),
        ),
{
    assert(session.with_top(d).drafts.drop_last() =~= session.drafts.drop_last());
}

/// What a session sees of the innermost changes that it starts with.
pub open spec fn around(base: SnapshotView, session: SessionView) -> SnapshotView {
    state::visible(base, session.ensured().drafts.drop_last())
}

/// A row that a session puts is among the rows that the session reads, where
/// nothing hides it.
pub proof fn a_session_reads_the_row_it_puts(
    base: SnapshotView,
    session: SessionView,
    generated: GeneratedCatalog,
    table: StaticCatalogTable,
    row: CatalogRowView,
)
    requires
        columns::table_of(generated, table.oid) == Some(table),
        row.relation_oid == table.oid,
        nothing_hides(
            session.ensured().drafts.last(),
            generated,
            table,
            row,
            around(base, session),
        ),
    ensures
        rows::rows_asked_for(
            generated,
            state::visible(
                base,
                edit::with_row_put(session, generated, table, row).drafts,
            ),
            table.oid,
            SelectorView::All,
        ).contains(row),
{
    let open = session.ensured();
    let d = open.drafts.last();
    let put = d.with_row(generated, table, row);
    lemma_put_row_is_recorded_or_laid_over(d, generated, table, row, around(base, session));
    lemma_put_is_a_change(d, generated, table, row);
    lemma_top_is_seen(base, open, put);
    a_put_row_is_read(d, generated, table, row, around(base, session));
}

proof fn lemma_put_is_a_change(
    d: DraftView,
    generated: GeneratedCatalog,
    table: StaticCatalogTable,
    row: CatalogRowView,
)
    ensures
        d.with_row(generated, table, row) != DraftView::empty(),
{
    let put = d.with_row(generated, table, row);
    let id = row.row_id;
    let k = (row.relation_oid.0, id);
    assert(put.compat.rows.contains_key(k) || put.namespaces.contains_key(id)
        || put.relations.contains_key(id) || put.columns.contains_key(id)
        || put.types.contains_key(id) || put.indexes.contains_key(id)
        || put.constraints.contains_key(id));
}

/// A row that a session removes is not among the rows that the session reads.
pub proof fn a_session_does_not_read_the_row_it_removes(
    base: SnapshotView,
    session: SessionView,
    generated: GeneratedCatalog,
    table: StaticCatalogTable,
    row: CatalogRowView,
)
    ensures
        !everything(generated, table).answer(
            state::visible(
                base,
                edit::with_row_removed(session, table.oid, row.row_id).drafts,
            ),
        ).contains_key(row.row_id),
{
    let open = session.ensured();
    let d = open.drafts.last();
    let removed = d.without_row(table.oid.0, row.row_id);
    assert(removed.compat.tombstones.contains((table.oid.0, row.row_id)));
    lemma_top_is_seen(base, open, removed);
    a_removed_row_is_not_read(d, generated, table, row, around(base, session));
}

/// The transaction that a session is given where it has none changes nothing
/// that it sees.
pub proof fn a_fresh_transaction_changes_nothing(base: SnapshotView, session: SessionView)
    ensures
        state::visible(base, session.ensured().drafts) == state::visible(base, session.drafts),
        around(base, session) == state::visible(
            base,
            if session.drafts.len() == 0 {
                session.drafts
            } else {
                session.drafts.drop_last()
            },
        ),
{
    if session.drafts.len() == 0 {
        assert(session.ensured().drafts.drop_last() =~= session.drafts);
    }
}

/// A session after a transaction inside the present one was begun.
pub open spec fn begun_inside(session: SessionView) -> SessionView {
    (SessionView {
        drafts: session.ensured().drafts.push(DraftView::empty()),
        ..session.ensured()
    }).invalidated()
}

/// A session after the transaction inside another was dropped.
pub open spec fn dropped_inside(session: SessionView) -> SessionView {
    if session.drafts.len() > 1 {
        (SessionView { drafts: session.drafts.drop_last(), ..session }).invalidated()
    } else {
        session
    }
}

/// Whatever is changed inside a transaction that is dropped, the session then
/// sees what it saw before the transaction was begun.
pub proof fn a_dropped_transaction_leaves_no_trace(
    base: SnapshotView,
    session: SessionView,
    d: DraftView,
)
    ensures
        ({
            let after = dropped_inside(begun_inside(session).with_top(d));
            &&& after.drafts == session.ensured().drafts
            &&& state::visible(base, after.drafts) == state::visible(base, session.drafts)
        }),
{
    let after = dropped_inside(begun_inside(session).with_top(d));
    assert(after.drafts =~= session.ensured().drafts);
    a_fresh_transaction_changes_nothing(base, session);
}

/// Whether the later of two sets of changes records no row that the earlier
/// one deleted.
pub open spec fn revives_nothing(a: DraftView, b: DraftView) -> bool {
    forall|relation: u32, id: u64|
        a.compat.tombstones.contains((relation, id)) ==> !#[trigger] b.puts_record(relation, id)
}

/// Committing a transaction inside another leaves what the session sees, where
/// the inner one records no row that the outer one deleted.
pub proof fn an_inner_commit_keeps_what_is_seen(base: SnapshotView, catalogs: CatalogsView)
    requires
        catalogs.session.wf(),
        catalogs.session.drafts.len() > 1,
        revives_nothing(
            catalogs.session.drafts[catalogs.session.drafts.len() - 2],
            catalogs.session.drafts[catalogs.session.drafts.len() - 1],
        ),
    ensures
        state::visible(base, catalogs.top_committed().session.drafts) == state::visible(
            base,
            catalogs.session.drafts,
        ),
{
    let drafts = catalogs.session.drafts;
    let n = drafts.len() as int;
    let a = drafts[n - 2];
    let b = drafts[n - 1];
    assert(a.wf() && b.wf());
    let outer = drafts.take(n - 2);
    let inner = state::visible(base, outer);
    let merged = a.merged(b);
    let now = outer.push(merged);
    assert(catalogs.top_committed().session.drafts == now);
    assert(now.drop_last() =~= outer);
    assert(drafts.drop_last().drop_last() =~= outer);
    assert(drafts.drop_last().last() == a);
    draft::merged_changes_apply_in_turn(a, b, inner);
    draft::no_changes_keep_the_state(inner);
    draft::no_changes_keep_the_state(a.applied(inner));
    let middle = drafts.drop_last();
    assert(state::visible(base, middle) == a.applied(inner)) by {
        if a == DraftView::empty() {
            assert(state::visible(base, middle) == inner);
        }
    }
    assert(state::visible(base, drafts) == b.applied(a.applied(inner)));
    assert(state::visible(base, now) == merged.applied(inner)) by {
        if merged == DraftView::empty() {
            assert(state::visible(base, now) == inner);
        }
    }
}

/// Whether no transaction of a session records a row that one around it
/// deleted, as far as their commits from the innermost outwards go.
pub open spec fn commits_cleanly(drafts: Seq<DraftView>) -> bool
    decreases drafts.len(),
{
    let n = drafts.len() as int;
    n <= 1 || {
        &&& revives_nothing(drafts[n - 2], drafts[n - 1])
        &&& commits_cleanly(drafts.take(n - 2).push(drafts[n - 2].merged(drafts[n - 1])))
    }
}

/// Once everything is committed, the committed state is what the session saw,
/// in the next generation where that is a change, and the session has no
/// changes left.
pub proof fn a_commit_makes_what_was_seen_the_state(catalogs: CatalogsView)
    requires
        catalogs.session.wf(),
        commits_cleanly(catalogs.session.drafts),
    ensures
        ({
            let after = catalogs.all_committed();
            let seen = state::visible(catalogs.state.snapshot, catalogs.session.drafts);
            let generation = after.state.snapshot.generation;
            &&& after.session.drafts.len() == 0
            &&& after.state.next_ids == catalogs.state.next_ids
            &&& after.state.snapshot == (SnapshotView { generation, ..seen })
            &&& after.state == catalogs.state || generation == state::next_generation(
                catalogs.state.snapshot.generation,
            )
        }),
    decreases catalogs.session.drafts.len(),
{
    let drafts = catalogs.session.drafts;
    let n = drafts.len() as int;
    let base = catalogs.state.snapshot;
    if n == 1 {
        let next = catalogs.top_committed();
        assert(next.all_committed() == next);
        assert(drafts.drop_last() =~= seq![]);
        assert(state::visible(base, drafts.drop_last()) == base);
        assert(drafts.last() == drafts[0]);
    } else if n > 1 {
        let next = catalogs.top_committed();
        an_inner_commit_keeps_what_is_seen(base, catalogs);
        assert(next.session.wf()) by {
            assert(drafts[n - 2].wf() && drafts[n - 1].wf());
            draft::lemma_merged_wf(drafts[n - 2], drafts[n - 1]);
            assert forall|i: int| 0 <= i < next.session.drafts.len() implies (
            #[trigger] next.session.drafts[i]).wf() by {
                if i < n - 2 {
                    assert(next.session.drafts[i] == drafts[i]);
                }
            }
        }
        a_commit_makes_what_was_seen_the_state(next);
    }
}

/// A state that a session keeps still tells what the session sees after
/// another session commits. The last generation that can be counted is left
/// out.
pub proof fn a_commit_elsewhere_keeps_a_session_coherent(
    session: SessionView,
    s: StateView,
    d: DraftView,
)
    requires
        session.coherent(s.snapshot),
        session.cache matches Some(c) ==> c.base_generation <= s.snapshot.generation,
        s.snapshot.generation < u64::MAX,
    ensures
        session.coherent(s.committed(d).snapshot),
{
}

proof fn lemma_kept_state_keeps_up(
    session: SessionView,
    s: SnapshotView,
    put: DraftView,
    more: DraftView,
    can: bool,
)
    requires
        session.drafts.len() > 0,
        session.wf(),
        session.coherent(s),
        more.wf(),
        put != DraftView::empty(),
        put == session.drafts.last().merged(more),
        can ==> forall|relation: u32, id: u64|
            session.drafts.last().compat.tombstones.contains((relation, id))
                ==> !#[trigger] more.puts_record(relation, id),
    ensures
        session.with_top(put).keeping_up(more, can).coherent(s),
{
    let d = session.drafts.last();
    let below = state::visible(s, session.drafts.drop_last());
    assert(session.drafts[session.drafts.len() - 1].wf());
    if can && session.cache_fits(s) {
        lemma_top_is_seen(s, session, put);
        draft::merged_changes_apply_in_turn(d, more, below);
        if d == DraftView::empty() {
            draft::no_changes_keep_the_state(below);
        }
    }
}

/// A state that a session keeps is still the one that it sees after it put a
/// row.
pub proof fn a_kept_state_follows_the_rows_put(
    session: SessionView,
    s: SnapshotView,
    generated: GeneratedCatalog,
    table: StaticCatalogTable,
    row: CatalogRowView,
)
    requires
        session.wf(),
        session.coherent(s),
        row.relation_oid == table.oid,
    ensures
        edit::with_row_put(session, generated, table, row).coherent(s),
{
    if session.drafts.len() > 0 {
        let d = session.drafts.last();
        let put = d.with_row(generated, table, row);
        let more = DraftView::empty().with_row(generated, table, row);
        let k = (table.oid.0, row.row_id);
        let merged = d.merged(more);
        lemma_put_is_a_change(d, generated, table, row);
        assert(put.namespaces =~= merged.namespaces);
        assert(put.relations =~= merged.relations);
        assert(put.columns =~= merged.columns);
        assert(put.types =~= merged.types);
        assert(put.indexes =~= merged.indexes);
        assert(put.constraints =~= merged.constraints);
        assert(put.compat.rows =~= merged.compat.rows);
        assert(put.compat.tombstones =~= merged.compat.tombstones);
        assert forall|relation: u32, id: u64| #[trigger] more.puts_record(relation, id) implies (
        relation, id) == k by {}
        lemma_kept_state_keeps_up(session, s, put, more, !d.compat.tombstones.contains(k));
    }
}

/// A state that a session keeps is still the one that it sees after it removed
/// a row.
pub proof fn a_kept_state_follows_the_rows_removed(
    session: SessionView,
    s: SnapshotView,
    relation_oid: Oid,
    row_id: u64,
)
    requires
        session.wf(),
        session.coherent(s),
    ensures
        edit::with_row_removed(session, relation_oid, row_id).coherent(s),
{
    if session.drafts.len() > 0 {
        let d = session.drafts.last();
        let put = d.without_row(relation_oid.0, row_id);
        let more = DraftView::empty().without_row(relation_oid.0, row_id);
        let merged = d.merged(more);
        assert(put.namespaces =~= merged.namespaces);
        assert(put.relations =~= merged.relations);
        assert(put.columns =~= merged.columns);
        assert(put.types =~= merged.types);
        assert(put.indexes =~= merged.indexes);
        assert(put.constraints =~= merged.constraints);
        assert(put.compat.rows =~= merged.compat.rows);
        assert(put.compat.tombstones =~= merged.compat.tombstones);
        assert(put.compat.tombstones.contains((relation_oid.0, row_id)));
        lemma_kept_state_keeps_up(session, s, put, more, true);
    }
}

/// A state that a session keeps is still the one that it sees after the session
/// committed, whatever it has committed.
pub proof fn a_commit_keeps_the_own_session_coherent(c: CatalogsView)
    requires
        c.session.coherent(c.state.snapshot),
    ensures
        c.top_committed().session.coherent(c.top_committed().state.snapshot),
        c.all_committed().session.coherent(c.all_committed().state.snapshot),
        c.all_committed().session.ensured().coherent(c.all_committed().state.snapshot),
    decreases c.session.drafts.len(),
{
    if c.session.drafts.len() > 0 {
        a_commit_keeps_the_own_session_coherent(c.top_committed());
    }
}

/// A session that dropped its kept state tells none that is not the present
/// one.
pub proof fn an_invalidated_session_is_coherent(session: SessionView, s: SnapshotView)
    ensures
        session.invalidated().coherent(s),
{
}

} // verus!
