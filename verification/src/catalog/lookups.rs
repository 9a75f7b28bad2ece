//! The columns, indexes and constraints of relations, as a reader of the
//! catalogs finds them: among the records first, among the rows otherwise.

use vstd::prelude::*;

use crate::catalog::columns;
use crate::catalog::meta;
use crate::catalog::meta::{IndexMeta, IndexMetaView};
use crate::catalog::model::{
    CatalogRow, CatalogRowView, ColumnRecord, ColumnRecordView, GeneratedCatalog, IndexRecord,
    IndexRecordView, PhysicalColumnRecord, PhysicalColumnRecordView, StaticCatalogTable,
    PG_ATTRIBUTE_RELATION_OID, PG_INDEX_RELATION_OID,
};
use crate::catalog::rows;
use crate::catalog::selectors::{RowSelector, SelectorView};
use crate::catalog::snapshot;
use crate::catalog::snapshot::{CatalogSnapshot, SnapshotView};
use crate::search;
use crate::stable;
use crate::types::Oid;

verus! {

broadcast use vstd::std_specs::btree::group_btree_axioms;

pub open spec fn rows_of(
    generated: GeneratedCatalog,
    s: SnapshotView,
    relation: u32,
    sel: SelectorView,
) -> Seq<CatalogRowView> {
    rows::rows_asked_for(generated, s, Oid(relation), sel)
}

/// Reads the column of a relation, with its place, out of a row.
pub open spec fn placed_column(
    generated: GeneratedCatalog,
    table: StaticCatalogTable,
    relation_oid: Oid,
) -> spec_fn(CatalogRowView) -> Option<(i64, ColumnRecordView)> {
    |row: CatalogRowView|
        match meta::column_record_of(generated, table, row, relation_oid) {
            Some(c) => Some((c.0 as i64, c.1)),
            None => None,
        }
}

/// The columns of a relation that the rows tell, in the order of their places.
pub open spec fn columns_of(generated: GeneratedCatalog, s: SnapshotView, relation_oid: Oid) -> Seq<
    ColumnRecordView,
> {
    match columns::table_of(generated, Oid(PG_ATTRIBUTE_RELATION_OID)) {
        Some(table) => {
            let found = stable::sorted(
                search::all_some(
                    rows_of(
                        generated,
                        s,
                        PG_ATTRIBUTE_RELATION_OID,
                        SelectorView::ColumnsOf(relation_oid),
                    ),
                    placed_column(generated, table, relation_oid),
                ),
            );
            Seq::new(found.len(), |i: int| found[i].1)
        },
        None => seq![],
    }
}

/// A record, with its place.
pub struct Placed {
    pub attnum: i64,
    pub record: ColumnRecord,
}

impl View for Placed {
    type V = (i64, ColumnRecordView);

    open spec fn view(&self) -> (i64, ColumnRecordView) {
        (self.attnum, self.record@)
    }
}

pub open spec fn pair_views<T: View>(s: Seq<(i64, T)>) -> Seq<(i64, T::V)> {
    Seq::new(s.len(), |i: int| (s[i].0, s[i].1@))
}

proof fn lemma_place_of_views<T: View>(s: Seq<(i64, T)>, key: i64)
    ensures
        stable::place(pair_views(s), key) == stable::place(s, key),
        0 <= stable::place(s, key) <= s.len(),
    decreases s.len(),
{
    if s.len() > 0 {
        lemma_place_of_views(s.drop_last(), key);
        assert(pair_views(s).drop_last() =~= pair_views(s.drop_last()));
    }
}

/// What a sorted list shows is what the list shows, sorted.
pub proof fn sorting_commutes_with_views<T: View>(s: Seq<(i64, T)>)
    ensures
        pair_views(stable::sorted(s)) == stable::sorted(pair_views(s)),
    decreases s.len(),
{
    if s.len() > 0 {
        let before = stable::sorted(s.drop_last());
        sorting_commutes_with_views(s.drop_last());
        lemma_place_of_views(before, s.last().0);
        assert(pair_views(s).drop_last() =~= pair_views(s.drop_last()));
        let n = stable::place(before, s.last().0);
        assert(pair_views(before.insert(n, s.last())) =~= pair_views(before).insert(
            n,
            pair_views(s).last(),
        ));
    } else {
        assert(pair_views(stable::sorted(s)) =~= stable::sorted(pair_views(s)));
    }
}

pub fn relation_columns_from_pg_attribute(
    generated: &GeneratedCatalog,
    s: &CatalogSnapshot,
    relation_oid: Oid,
) -> (r: Vec<ColumnRecord>)
    requires
        s@.wf(),
    ensures
        search::views(r@) == columns_of(*generated, s@, relation_oid),
{
    let table = match columns::static_catalog_by_relation_oid(
        generated,
        Oid(PG_ATTRIBUTE_RELATION_OID),
    ) {
        Some(table) => table,
        None => {
            let none: Vec<ColumnRecord> = Vec::new();
            assert(search::views(none@) =~= seq![]);
            return none;
        },
    };
    let list = rows::catalog_rows_matching_static(
        generated,
        s,
        Oid(PG_ATTRIBUTE_RELATION_OID),
        RowSelector::ColumnsOf(relation_oid),
    );
    let read = |row: &CatalogRow| -> (v: Option<Placed>)
        ensures
            search::option_view(v) == placed_column(*generated, *table, relation_oid)(row@),
        {
            match meta::column_record_from_pg_attribute_row(generated, table, row, relation_oid) {
                Some(c) => Some(Placed { attnum: c.0 as i64, record: c.1 }),
                None => None,
            }
        };
    let found = search::filter_map(
        &list,
        read,
        Ghost(placed_column(*generated, *table, relation_oid)),
    );
    let ghost told = search::views(found@);
    let mut pairs: Vec<(i64, ColumnRecord)> = Vec::new();
    let mut i: usize = 0;
    while i < found.len()
        invariant
            i <= found.len(),
            pairs@.len() == i,
            forall|j: int|
                0 <= j < i ==> (#[trigger] pairs@[j]).0 == found@[j].attnum && pairs@[j].1@
                    == found@[j].record@,
        decreases found.len() - i,
    {
        pairs.push((found[i].attnum, found[i].record.clone()));
        i += 1;
    }
    assert(pair_views(pairs@) =~= told);
    proof {
        sorting_commutes_with_views(pairs@);
    }
    let in_place = stable::sort(pairs);
    let ghost all = in_place@;
    let ghost want = stable::sorted(told);
    assert(pair_views(all) == want);
    let mut r: Vec<ColumnRecord> = Vec::new();
    i = 0;
    while i < in_place.len()
        invariant
            i <= in_place.len(),
            all == in_place@,
            r@.len() == i,
            forall|j: int| 0 <= j < i ==> (#[trigger] r@[j])@ == all[j].1@,
        decreases in_place.len() - i,
    {
        r.push(in_place[i].1.clone());
        i += 1;
    }
    assert(search::views(r@) =~= columns_of(*generated, s@, relation_oid)) by {
        assert forall|j: int| 0 <= j < r@.len() implies (#[trigger] r@[j])@ == want[j].1 by {
            assert(pair_views(all)[j] == (all[j].0, all[j].1@));
        }
    }
    r
}

/// Reads the column of a relation at a place out of a row.
pub open spec fn column_at(
    generated: GeneratedCatalog,
    table: StaticCatalogTable,
    relation_oid: Oid,
    attnum: i16,
) -> spec_fn(CatalogRowView) -> Option<ColumnRecordView> {
    |row: CatalogRowView|
        match meta::column_record_of(generated, table, row, relation_oid) {
            Some(c) => if c.0 == attnum {
                Some(c.1)
            } else {
                None
            },
            None => None,
        }
}

/// The column of a relation at a place.
pub open spec fn column_found(
    generated: GeneratedCatalog,
    s: SnapshotView,
    relation_oid: Oid,
    attnum: i16,
) -> Option<ColumnRecordView> {
    if attnum <= 0 {
        None
    } else {
        match s.column_at(relation_oid, attnum) {
            Some(column) => Some(column.record),
            None => match columns::table_of(generated, Oid(PG_ATTRIBUTE_RELATION_OID)) {
                Some(table) => search::first_some(
                    rows_of(
                        generated,
                        s,
                        PG_ATTRIBUTE_RELATION_OID,
                        SelectorView::ColumnAt(relation_oid, attnum),
                    ),
                    column_at(generated, table, relation_oid, attnum),
                ),
                None => None,
            },
        }
    }
}

fn relation_column_from_snapshot(s: &CatalogSnapshot, relation_oid: Oid, attnum: i16) -> (r: Option<
    ColumnRecord,
>)
    requires
        s.lookups_agree(),
    ensures
        search::option_view(r) == (match s@.column_at(relation_oid, attnum) {
            Some(column) => Some(column.record),
            None => None,
        }),
{
    match s.column_meta_at(relation_oid, attnum) {
        Some(column) => Some(column.record.clone()),
        None => None,
    }
}

pub fn relation_column_by_attnum_uncached(
    generated: &GeneratedCatalog,
    s: &CatalogSnapshot,
    relation_oid: Oid,
    attnum: i16,
) -> (r: Option<ColumnRecord>)
    requires
        s.wf(*generated),
    ensures
        search::option_view(r) == column_found(*generated, s@, relation_oid, attnum),
{
    if attnum <= 0 {
        return None;
    }
    let recorded = relation_column_from_snapshot(s, relation_oid, attnum);
    if recorded.is_some() {
        return recorded;
    }
    let table = match columns::static_catalog_by_relation_oid(
        generated,
        Oid(PG_ATTRIBUTE_RELATION_OID),
    ) {
        Some(table) => table,
        None => return None,
    };
    let list = rows::catalog_rows_matching_static(
        generated,
        s,
        Oid(PG_ATTRIBUTE_RELATION_OID),
        RowSelector::ColumnAt(relation_oid, attnum),
    );
    let read = |row: &CatalogRow| -> (v: Option<ColumnRecord>)
        ensures
            search::option_view(v) == column_at(*generated, *table, relation_oid, attnum)(row@),
        {
            match meta::column_record_from_pg_attribute_row(generated, table, row, relation_oid) {
                Some(c) => if c.0 == attnum {
                    Some(c.1)
                } else {
                    None
                },
                None => None,
            }
        };
    search::find_map(&list, read, Ghost(column_at(*generated, *table, relation_oid, attnum)))
}

/// Reads the column of a relation at a place, as it is laid out, out of a row.
pub open spec fn physical_column_at(
    generated: GeneratedCatalog,
    table: StaticCatalogTable,
    relation_oid: Oid,
    attnum: i16,
) -> spec_fn(CatalogRowView) -> Option<PhysicalColumnRecordView> {
    |row: CatalogRowView|
        match meta::physical_column_of(generated, table, row, relation_oid) {
            Some(c) => if c.0 == attnum {
                Some(c.1)
            } else {
                None
            },
            None => None,
        }
}

/// The column of a relation at a place, as it is laid out.
pub open spec fn physical_column_found(
    generated: GeneratedCatalog,
    s: SnapshotView,
    relation_oid: Oid,
    attnum: i16,
) -> Option<PhysicalColumnRecordView> {
    match columns::table_of(generated, Oid(PG_ATTRIBUTE_RELATION_OID)) {
        Some(table) if attnum > 0 => search::first_some(
            rows_of(
                generated,
                s,
                PG_ATTRIBUTE_RELATION_OID,
                SelectorView::ColumnAt(relation_oid, attnum),
            ),
            physical_column_at(generated, table, relation_oid, attnum),
        ),
        _ => None,
    }
}

pub fn relation_physical_column_by_attnum(
    generated: &GeneratedCatalog,
    s: &CatalogSnapshot,
    relation_oid: Oid,
    attnum: i16,
) -> (r: Option<PhysicalColumnRecord>)
    requires
        s@.wf(),
    ensures
        search::option_view(r) == physical_column_found(*generated, s@, relation_oid, attnum),
{
    if attnum <= 0 {
        return None;
    }
    let table = match columns::static_catalog_by_relation_oid(
        generated,
        Oid(PG_ATTRIBUTE_RELATION_OID),
    ) {
        Some(table) => table,
        None => return None,
    };
    let list = rows::catalog_rows_matching_static(
        generated,
        s,
        Oid(PG_ATTRIBUTE_RELATION_OID),
        RowSelector::ColumnAt(relation_oid, attnum),
    );
    let read = |row: &CatalogRow| -> (v: Option<PhysicalColumnRecord>)
        ensures
            search::option_view(v) == physical_column_at(
                *generated,
                *table,
                relation_oid,
                attnum,
            )(row@),
        {
            match meta::physical_column_record_from_pg_attribute_row(
                generated,
                table,
                row,
                relation_oid,
            ) {
                Some(c) => if c.0 == attnum {
                    Some(c.1)
                } else {
                    None
                },
                None => None,
            }
        };
    search::find_map(
        &list,
        read,
        Ghost(physical_column_at(*generated, *table, relation_oid, attnum)),
    )
}

/// Reads an index out of a row, where it is the one with an identifier.
pub open spec fn index_with(generated: GeneratedCatalog, index_oid: Oid) -> spec_fn(
    CatalogRowView,
) -> Option<IndexRecordView> {
    |row: CatalogRowView|
        match meta::index_of_row(generated, row) {
            Some(record) => if record.index_oid == index_oid {
                Some(record)
            } else {
                None
            },
            None => None,
        }
}

/// The index with an identifier, among the rows.
pub open spec fn index_in_rows(generated: GeneratedCatalog, s: SnapshotView, index_oid: Oid) -> Option<
    IndexRecordView,
> {
    search::first_some(
        rows_of(generated, s, PG_INDEX_RELATION_OID, SelectorView::IndexWithOid(index_oid)),
        index_with(generated, index_oid),
    )
}

/// The index with an identifier.
pub open spec fn index_found(generated: GeneratedCatalog, s: SnapshotView, index_oid: Oid) -> Option<
    IndexRecordView,
> {
    match s.index_with_oid(index_oid) {
        Some(m) => Some(m.record),
        None => index_in_rows(generated, s, index_oid),
    }
}

pub fn index_record_by_index_oid_uncached(
    generated: &GeneratedCatalog,
    s: &CatalogSnapshot,
    index_oid: Oid,
) -> (r: Option<IndexRecord>)
    requires
        s@.wf(),
    ensures
        search::option_view(r) == index_in_rows(*generated, s@, index_oid),
{
    let list = rows::catalog_rows_matching_static(
        generated,
        s,
        Oid(PG_INDEX_RELATION_OID),
        RowSelector::IndexWithOid(index_oid),
    );
    let read = |row: &CatalogRow| -> (v: Option<IndexRecord>)
        ensures
            search::option_view(v) == index_with(*generated, index_oid)(row@),
        {
            match meta::pg_index_record_from_row(generated, row) {
                Some(record) => if record.index_oid == index_oid {
                    Some(record)
                } else {
                    None
                },
                None => None,
            }
        };
    search::find_map(&list, read, Ghost(index_with(*generated, index_oid)))
}

/// Reads an index out of a row, where it is one of a relation.
pub open spec fn index_on(generated: GeneratedCatalog, relation_oid: Oid) -> spec_fn(
    CatalogRowView,
) -> Option<IndexRecordView> {
    |row: CatalogRowView|
        match meta::index_of_row(generated, row) {
            Some(record) => if record.relation_oid == relation_oid {
                Some(record)
            } else {
                None
            },
            None => None,
        }
}

/// The indexes of a relation, among the rows.
pub open spec fn indexes_in_rows(
    generated: GeneratedCatalog,
    s: SnapshotView,
    relation_oid: Oid,
) -> Seq<IndexRecordView> {
    search::all_some(
        rows_of(generated, s, PG_INDEX_RELATION_OID, SelectorView::IndexesOf(relation_oid)),
        index_on(generated, relation_oid),
    )
}

pub open spec fn index_records(list: Seq<IndexMetaView>) -> Seq<IndexRecordView> {
    Seq::new(list.len(), |i: int| list[i].record)
}

/// The indexes of a relation.
pub open spec fn indexes_found(
    generated: GeneratedCatalog,
    s: SnapshotView,
    relation_oid: Oid,
) -> Seq<IndexRecordView> {
    let recorded = index_records(s.indexes_of(relation_oid));
    if recorded.len() > 0 {
        recorded
    } else {
        indexes_in_rows(generated, s, relation_oid)
    }
}

pub fn index_records_for_relation_oid_uncached(
    generated: &GeneratedCatalog,
    s: &CatalogSnapshot,
    relation_oid: Oid,
) -> (r: Vec<IndexRecord>)
    requires
        s@.wf(),
    ensures
        search::views(r@) == indexes_in_rows(*generated, s@, relation_oid),
{
    let list = rows::catalog_rows_matching_static(
        generated,
        s,
        Oid(PG_INDEX_RELATION_OID),
        RowSelector::IndexesOf(relation_oid),
    );
    let read = |row: &CatalogRow| -> (v: Option<IndexRecord>)
        ensures
            search::option_view(v) == index_on(*generated, relation_oid)(row@),
        {
            match meta::pg_index_record_from_row(generated, row) {
                Some(record) => if record.relation_oid == relation_oid {
                    Some(record)
                } else {
                    None
                },
                None => None,
            }
        };
    search::filter_map(&list, read, Ghost(index_on(*generated, relation_oid)))
}

/// The recorded indexes of a relation.
pub(crate) fn recorded_indexes(s: &CatalogSnapshot, relation_oid: Oid) -> (r: Vec<IndexRecord>)
    requires
        s.lookups_agree(),
    ensures
        search::views(r@) == index_records(s@.indexes_of(relation_oid)),
{
    let list = s.index_metas_for_relation(relation_oid);
    let ghost views = snapshot::meta_views(list@);
    let mut r: Vec<IndexRecord> = Vec::new();
    let mut i: usize = 0;
    while i < list.len()
        invariant
            i <= list.len(),
            views == snapshot::meta_views(list@),
            r@.len() == i,
            forall|j: int| 0 <= j < i ==> (#[trigger] r@[j])@ == views[j].record,
        decreases list.len() - i,
    {
        assert(views[i as int] == list@[i as int]@);
        r.push(list[i].record.clone());
        i += 1;
    }
    assert(search::views(r@) =~= index_records(views));
    r
}

/// Whether an index keeps its keys apart and is in use.
pub open spec fn is_unique_in_use(record: IndexRecordView) -> bool {
    record.is_unique && record.is_valid && record.is_ready && record.is_live
}

pub open spec fn unique_in_use() -> spec_fn(IndexRecordView) -> Option<IndexRecordView> {
    |record: IndexRecordView|
        if is_unique_in_use(record) {
            Some(record)
        } else {
            None
        }
}

/// The unique indexes of a relation that are in use.
pub open spec fn unique_indexes_found(
    generated: GeneratedCatalog,
    s: SnapshotView,
    relation_oid: Oid,
) -> Seq<IndexRecordView> {
    search::all_some(indexes_found(generated, s, relation_oid), unique_in_use())
}

/// Those of a list of indexes that are unique and in use.
pub(crate) fn unique_of(list: &Vec<IndexRecord>) -> (r: Vec<IndexRecord>)
    ensures
        search::views(r@) == search::all_some(search::views(list@), unique_in_use()),
{
    let read = |record: &IndexRecord| -> (v: Option<IndexRecord>)
        ensures
            search::option_view(v) == unique_in_use()(record@),
        {
            if record.is_unique && record.is_valid && record.is_ready && record.is_live {
                Some(record.clone())
            } else {
                None
            }
        };
    search::filter_map(list, read, Ghost(unique_in_use()))
}

pub open spec fn unique_oid() -> spec_fn(IndexMetaView) -> Option<Oid> {
    |m: IndexMetaView|
        if is_unique_in_use(m.record) {
            Some(m.record.index_oid)
        } else {
            None
        }
}

pub open spec fn row_index_oid(generated: GeneratedCatalog, table: StaticCatalogTable) -> spec_fn(
    CatalogRowView,
) -> Option<Oid> {
    |row: CatalogRowView| meta::oid_at(generated, table, row, "indexrelid"@)
}

/// The identifiers of the unique indexes of a relation that are in use.
pub open spec fn unique_oids_found(
    generated: GeneratedCatalog,
    s: SnapshotView,
    relation_oid: Oid,
) -> Seq<Oid> {
    let recorded = search::all_some(s.indexes_of(relation_oid), unique_oid());
    if recorded.len() > 0 {
        recorded
    } else {
        match columns::table_of(generated, Oid(PG_INDEX_RELATION_OID)) {
            Some(table) => search::all_some(
                rows_of(
                    generated,
                    s,
                    PG_INDEX_RELATION_OID,
                    SelectorView::UniqueIndexesOf(relation_oid),
                ),
                row_index_oid(generated, table),
            ),
            None => seq![],
        }
    }
}

pub fn unique_index_oids_for_relation_oid(
    generated: &GeneratedCatalog,
    s: &CatalogSnapshot,
    relation_oid: Oid,
) -> (r: Vec<Oid>)
    requires
        s.wf(*generated),
    ensures
        r@ == unique_oids_found(*generated, s@, relation_oid),
{
    let list = s.index_metas_for_relation(relation_oid);
    let read = |m: &&IndexMeta| -> (v: Option<Oid>)
        ensures
            search::option_view(v) == unique_oid()(m@),
        {
            if m.record.is_unique && m.record.is_valid && m.record.is_ready && m.record.is_live {
                Some(m.record.index_oid)
            } else {
                None
            }
        };
    let recorded = search::filter_map(&list, read, Ghost(unique_oid()));
    assert(search::views(recorded@) =~= recorded@);
    if recorded.len() > 0 {
        return recorded;
    }
    let table = match columns::static_catalog_by_relation_oid(
        generated,
        Oid(PG_INDEX_RELATION_OID),
    ) {
        Some(table) => table,
        None => return Vec::new(),
    };
    let list = rows::catalog_rows_matching_static(
        generated,
        s,
        Oid(PG_INDEX_RELATION_OID),
        RowSelector::UniqueIndexesOf(relation_oid),
    );
    let read = |row: &CatalogRow| -> (v: Option<Oid>)
        ensures
            search::option_view(v) == row_index_oid(*generated, *table)(row@),
        { meta::column_oid(generated, table, row, "indexrelid") };
    let r = search::filter_map(&list, read, Ghost(row_index_oid(*generated, *table)));
    assert(search::views(r@) =~= r@);
    r
}

/// The indexes of a relation: the recorded ones, or else those among the rows.
pub fn find_indexes(generated: &GeneratedCatalog, s: &CatalogSnapshot, relation_oid: Oid) -> (r: Vec<
    IndexRecord,
>)
    requires
        s.wf(*generated),
    ensures
        search::views(r@) == indexes_found(*generated, s@, relation_oid),
{
    let recorded = recorded_indexes(s, relation_oid);
    assert(recorded@.len() == search::views(recorded@).len());
    if recorded.len() > 0 {
        recorded
    } else {
        index_records_for_relation_oid_uncached(generated, s, relation_oid)
    }
}

} // verus!
