//! The rows of a catalog as a session sees them: the compiled-in rows, those
//! that follow from them, the records, and the rows laid over them.

use std::collections::BTreeMap;
use vstd::prelude::*;

use crate::catalog::catalog_indexes;
use crate::catalog::catalog_indexes::{CatalogIndex, CatalogIndexView};
use crate::catalog::columns;
use crate::catalog::index;
use crate::catalog::index_views;
use crate::catalog::meta;
use crate::catalog::meta::{
    ColumnMeta, ConstraintMeta, IndexMeta, Meta, NamespaceMeta, RelationMeta, TypeMeta,
};
use crate::catalog::model::{
    CatalogRow, CatalogRowView, GeneratedCatalog, PgOperatorRecord, StaticCatalogRow,
    StaticCatalogTable, INVALID_OID, PG_ATTRIBUTE_RELATION_OID, PG_CLASS_RELATION_OID,
    PG_CONSTRAINT_RELATION_OID, PG_DESCRIPTION_RELATION_OID, PG_INDEXES_RELATION_OID,
    PG_INDEX_RELATION_OID, PG_INIT_PRIVS_RELATION_OID, PG_NAMESPACE_RELATION_OID,
    PG_OPERATOR_RELATION_OID, PG_PROC_RELATION_OID, PG_TS_CONFIG_MAP_RELATION_OID,
    PG_TS_CONFIG_RELATION_OID, PG_TS_DICT_RELATION_OID, PG_TS_TEMPLATE_RELATION_OID,
    PG_TYPE_RELATION_OID,
};
use crate::catalog::overlay;
use crate::catalog::selectors;
use crate::catalog::selectors::{RowSelector, SelectorView};
use crate::catalog::snapshot;
use crate::catalog::snapshot::{CatalogSnapshot, SnapshotView};
use crate::catalog::static_rows;
use crate::catalog::synthetic;
use crate::ordered;
use crate::search;
use crate::text;
use crate::types::Oid;

verus! {

broadcast use vstd::std_specs::btree::group_btree_axioms;

pub type RowsById = BTreeMap<u64, CatalogRow>;

/// What is asked for of a catalog, and the catalog.
pub struct Request<'a> {
    pub generated: &'a GeneratedCatalog,
    pub table: &'a StaticCatalogTable,
    pub sel: RowSelector<'a>,
}

/// What is asked for of a catalog, and the catalog.
pub struct RequestView {
    pub generated: GeneratedCatalog,
    pub table: StaticCatalogTable,
    pub sel: SelectorView,
}

impl<'a> View for Request<'a> {
    type V = RequestView;

    open spec fn view(&self) -> RequestView {
        RequestView { generated: *self.generated, table: *self.table, sel: self.sel@ }
    }
}

impl<'a> Request<'a> {
    pub fn selects_row(&self, row: &CatalogRow) -> (r: bool)
        ensures
            r == self@.wants(row@),
    {
        selectors::row_selected(self.generated, self.table, row, &self.sel)
    }
}

impl RequestView {
    pub open spec fn wants(self, row: CatalogRowView) -> bool {
        selectors::selects(self.generated, self.table, row, self.sel)
    }

    pub open spec fn wants_static(self, row: StaticCatalogRow) -> bool {
        selectors::selects_static(self.generated, self.table, row, self.sel)
    }

    /// The compiled-in rows that are asked for, by the identity of what they
    /// name.
    pub open spec fn compiled(self, rows: Seq<StaticCatalogRow>) -> Map<u64, CatalogRowView>
        decreases rows.len(),
    {
        if rows.len() == 0 {
            Map::empty()
        } else {
            let before = self.compiled(rows.drop_last());
            match static_rows::canonical_row(self.generated, self.table, rows.last()) {
                Some(row) if self.wants_static(rows.last()) => before.insert(row.row_id, row),
                _ => before,
            }
        }
    }

    /// With a row, if there is one and it is asked for.
    pub open spec fn with_one(
        &self,
        rows: Map<u64, CatalogRowView>,
        row: Option<CatalogRowView>,
    ) -> Map<u64, CatalogRowView> {
        match row {
            Some(r) if self.wants(r) => rows.insert(r.row_id, r),
            _ => rows,
        }
    }

    /// The rows that are asked for.
    pub open spec fn chosen(self, rows: Map<u64, CatalogRowView>) -> Map<u64, CatalogRowView> {
        Map::new(|id: u64| rows.contains_key(id) && self.wants(rows[id]), |id: u64| rows[id])
    }

    /// With those of other rows that are asked for.
    pub open spec fn with_more(
        &self,
        rows: Map<u64, CatalogRowView>,
        more: Map<u64, CatalogRowView>,
    ) -> Map<u64, CatalogRowView> {
        rows.union_prefer_right(self.chosen(more))
    }

    /// With rows one after the other.
    pub open spec fn with_each(
        &self,
        rows: Map<u64, CatalogRowView>,
        list: Seq<Option<CatalogRowView>>,
    ) -> Map<u64, CatalogRowView>
        decreases list.len(),
    {
        if list.len() == 0 {
            rows
        } else {
            self.with_one(self.with_each(rows, list.drop_last()), list.last())
        }
    }
}

/// The rows of records.
pub open spec fn record_rows<M: Meta>(m: Map<u64, M::V>) -> Map<u64, CatalogRowView> {
    Map::new(|id: u64| m.contains_key(id), |id: u64| M::row_of(m[id]))
}

/// Adds the compiled-in rows that are asked for.
pub(crate) fn compiled_rows(request: &Request) -> (r: RowsById)
    ensures
        overlay::row_map(r@) == request@.compiled(request.table.rows@),
{
    let mut rows: RowsById = BTreeMap::new();
    let ghost all = request.table.rows@;
    let mut i: usize = 0;
    assert(all.take(0) =~= seq![]);
    assert(overlay::row_map(rows@) =~= Map::empty());
    while i < request.table.rows.len()
        invariant
            i <= request.table.rows@.len(),
            all == request.table.rows@,
            overlay::row_map(rows@) == request@.compiled(all.take(i as int)),
        decreases request.table.rows@.len() - i,
    {
        assert(all.take(i + 1).drop_last() =~= all.take(i as int));
        let ghost before = overlay::row_map(rows@);
        if selectors::static_row_selected(
            request.generated,
            request.table,
            &request.table.rows[i],
            &request.sel,
        ) {
            match static_rows::static_catalog_cached_row(
                request.generated,
                request.table,
                &request.table.rows[i],
            ) {
                Some(row) => {
                    let ghost view = row@;
                    rows.insert(row.row_id, row);
                    assert(overlay::row_map(rows@) =~= before.insert(view.row_id, view));
                },
                None => {},
            }
        }
        i += 1;
    }
    assert(all.take(i as int) =~= all);
    rows
}

/// Adds a row, if there is one and it is asked for.
pub fn insert_matching_row(rows: &mut RowsById, row: Option<CatalogRow>, request: &Request)
    ensures
        overlay::row_map(final(rows)@) == request@.with_one(
            overlay::row_map(old(rows)@),
            match row {
                Some(r) => Some(r@),
                None => None,
            },
        ),
{
    let ghost before = overlay::row_map(rows@);
    match row {
        Some(row) => {
            if request.selects_row(&row) {
                let ghost view = row@;
                rows.insert(row.row_id, row);
                assert(overlay::row_map(rows@) =~= before.insert(view.row_id, view));
            }
        },
        None => {},
    }
}

/// Adds the rows of records that are asked for.
fn add_records<M: Meta>(
    rows: &mut RowsById,
    records: &BTreeMap<u64, M>,
    request: &Request,
    relation: Ghost<u32>,
)
    requires
        snapshot::rows_in_place::<M>(index::metas(records@), relation@),
    ensures
        overlay::row_map(final(rows)@) == request@.with_more(
            overlay::row_map(old(rows)@),
            record_rows::<M>(index::metas(records@)),
        ),
{
    let ids = ordered::sorted_keys(records);
    let ghost m = index::metas(records@);
    let ghost all = record_rows::<M>(m);
    let ghost start = overlay::row_map(rows@);
    let mut i: usize = 0;
    let ghost mut done: Set<u64> = Set::empty();
    assert(overlay::row_map(rows@) =~= request@.with_more(start, all.restrict(done)));
    while i < ids.len()
        invariant
            i <= ids.len(),
            m == index::metas(records@),
            all == record_rows::<M>(m),
            snapshot::rows_in_place::<M>(m, relation@),
            forall|k: u64| #[trigger] ids@.contains(k) <==> records@.contains_key(k),
            overlay::row_map(rows@) == request@.with_more(start, all.restrict(done)),
            forall|k: u64| #[trigger] done.contains(k) ==> m.contains_key(k),
            forall|j: int| 0 <= j < i ==> done.contains(#[trigger] ids@[j]),
        decreases ids.len() - i,
    {
        let id = ids[i];
        assert(ids@.contains(id));
        match records.get(&id) {
            Some(record) => {
                let row = record.kept_row().clone();
                let ghost before = overlay::row_map(rows@);
                let ghost view = row@;
                assert(m.contains_key(id));
                assert(view == all[id]);
                insert_matching_row(rows, Some(row), request);
                proof {
                    let next = done.insert(id);
                    let wanted = request@.with_more(start, all.restrict(next));
                    assert(overlay::row_map(rows@) =~= wanted);
                    done = next;
                }
            },
            None => {
                assert(false);
            },
        }
        i += 1;
    }
    assert(all.restrict(done) =~= all) by {
        assert forall|k: u64| #[trigger] all.contains_key(k) implies done.contains(k) by {
            assert(ids@.contains(k));
            let j = choose|j: int| 0 <= j < ids@.len() && ids@[j] == k;
            assert(done.contains(ids@[j]));
        }
    }
}

/// The rows of a map, in the order of their identities.
pub open spec fn in_order(rows: Map<u64, CatalogRowView>) -> Seq<CatalogRowView> {
    let ids = ordered::sorted_ids(rows.dom());
    Seq::new(ids.len(), |i: int| rows[ids[i]])
}

/// The relation and the place that a row of the catalog of columns names.
pub open spec fn attribute_key(
    generated: GeneratedCatalog,
    table: StaticCatalogTable,
    row: CatalogRowView,
) -> Option<(u32, i16)> {
    match (meta::oid_at(generated, table, row, "attrelid"@), meta::i16_at(table, row, "attnum"@)) {
        (Some(oid), Some(attnum)) => Some((oid.0, attnum)),
        _ => None,
    }
}

pub fn catalog_row_attribute_key(
    generated: &GeneratedCatalog,
    table: &StaticCatalogTable,
    row: &CatalogRow,
) -> (r: Option<(u32, i16)>)
    ensures
        r == attribute_key(*generated, *table, row@),
{
    match (
        meta::column_oid(generated, table, row, "attrelid"),
        meta::column_i16(table, row, "attnum"),
    ) {
        (Some(oid), Some(attnum)) => Some((oid.0, attnum)),
        _ => None,
    }
}

/// Rows of the catalog of columns, and the places that they or rows that were
/// not asked for take.
pub struct ColumnScan {
    pub rows: Map<u64, CatalogRowView>,
    pub taken: Set<(u32, i16)>,
}

/// The places that rows take.
pub open spec fn places_of(
    generated: GeneratedCatalog,
    table: StaticCatalogTable,
    rows: Map<u64, CatalogRowView>,
) -> Set<(u32, i16)> {
    Set::new(
        |k: (u32, i16)|
            exists|id: u64| #[trigger]
                rows.contains_key(id) && attribute_key(generated, table, rows[id]) == Some(k),
    )
}

/// The columns that are looked for, where their number or their name is known.
pub struct ColumnFilterView {
    pub attnum: Option<i16>,
    pub name: Option<Seq<char>>,
}

impl ColumnFilterView {
    pub open spec fn any() -> ColumnFilterView {
        ColumnFilterView { attnum: None, name: None }
    }

    pub open spec fn admits_number(self, attnum: i16) -> bool {
        self.attnum matches Some(wanted) ==> wanted == attnum
    }

    pub open spec fn admits(self, attnum: i16, name: Seq<char>) -> bool {
        &&& self.admits_number(attnum)
        &&& self.name matches Some(wanted) ==> wanted == name
    }
}

/// The columns that are looked for, where their number or their name is known.
pub struct ColumnFilter<'a> {
    pub attnum: Option<i16>,
    pub name: Option<&'a str>,
}

impl<'a> View for ColumnFilter<'a> {
    type V = ColumnFilterView;

    open spec fn view(&self) -> ColumnFilterView {
        ColumnFilterView {
            attnum: self.attnum,
            name: match self.name {
                Some(name) => Some(name@),
                None => None,
            },
        }
    }
}

impl<'a> ColumnFilter<'a> {
    pub fn takes_number(&self, attnum: i16) -> (r: bool)
        ensures
            r == self@.admits_number(attnum),
    {
        match self.attnum {
            Some(wanted) => wanted == attnum,
            None => true,
        }
    }

    pub fn takes(&self, attnum: i16, name: &str) -> (r: bool)
        ensures
            r == self@.admits(attnum, name@),
    {
        self.takes_number(attnum) && match self.name {
            Some(wanted) => text::same_text(wanted, name),
            None => true,
        }
    }
}

impl RequestView {
    /// With a row for a place, where there is a row and the place is free.
    pub open spec fn with_place(
        &self,
        scan: ColumnScan,
        place: (u32, i16),
        row: Option<CatalogRowView>,
    ) -> ColumnScan {
        if scan.taken.contains(place) || row is None {
            scan
        } else {
            ColumnScan { rows: self.with_one(scan.rows, row), taken: scan.taken.insert(place) }
        }
    }

    /// With rows for the first `n` columns of a catalog.
    pub open spec fn with_columns(
        &self,
        scan: ColumnScan,
        relation_table: StaticCatalogTable,
        wanted: ColumnFilterView,
        n: nat,
    ) -> ColumnScan
        decreases n,
    {
        if n == 0 {
            scan
        } else {
            let before = self.with_columns(scan, relation_table, wanted, (n - 1) as nat);
            if n > i16::MAX || !wanted.admits(
                n as i16,
                relation_table.columns@[n - 1].name@,
            ) {
                before
            } else {
                self.with_place(
                    before,
                    (relation_table.oid.0, n as i16),
                    synthetic::attribute_row(
                        self.generated,
                        self.table,
                        relation_table,
                        relation_table.columns@[n - 1],
                        n as i16,
                    ),
                )
            }
        }
    }

    /// With rows for the first `n` system columns of a catalog.
    pub open spec fn with_system_columns(
        &self,
        scan: ColumnScan,
        relation_table: StaticCatalogTable,
        wanted: ColumnFilterView,
        n: nat,
    ) -> ColumnScan
        decreases n,
    {
        if n == 0 {
            scan
        } else {
            let attribute = synthetic::system_attributes()[n - 1];
            let before = self.with_system_columns(scan, relation_table, wanted, (n - 1) as nat);
            if !wanted.admits(attribute.attnum, attribute.name@) {
                before
            } else {
                self.with_place(
                    before,
                    (relation_table.oid.0, attribute.attnum),
                    synthetic::system_attribute_row(
                        self.generated,
                        self.table,
                        relation_table,
                        attribute,
                    ),
                )
            }
        }
    }

    /// With rows for the columns of the first `n` compiled-in catalogs.
    pub open spec fn with_catalog_columns(self, scan: ColumnScan, n: nat) -> ColumnScan
        decreases n,
    {
        if n == 0 {
            scan
        } else {
            let relation_table = self.generated.tables@[n - 1];
            self.with_system_columns(
                self.with_columns(
                    self.with_catalog_columns(scan, (n - 1) as nat),
                    relation_table,
                    ColumnFilterView::any(),
                    relation_table.columns@.len(),
                ),
                relation_table,
                ColumnFilterView::any(),
                synthetic::system_attributes().len(),
            )
        }
    }
}

impl RequestView {
    /// With rows for the first `n` columns of an index of a catalog.
    pub open spec fn with_keys(
        self,
        scan: ColumnScan,
        index: CatalogIndexView,
        wanted: ColumnFilterView,
        n: nat,
    ) -> ColumnScan
        decreases n,
    {
        if n == 0 {
            scan
        } else {
            let before = self.with_keys(scan, index, wanted, (n - 1) as nat);
            let name = index.keys[n - 1];
            if n > i16::MAX || !wanted.admits(n as i16, name) {
                before
            } else {
                self.with_place(
                    before,
                    (index.oid.0, n as i16),
                    catalog_indexes::key_row(
                        self.generated,
                        self.table,
                        index,
                        name,
                        n as i16,
                    ),
                )
            }
        }
    }

    /// With rows for the columns of the first `n` indexes of catalogs.
    pub open spec fn with_index_columns(self, scan: ColumnScan, n: nat) -> ColumnScan
        decreases n,
    {
        if n == 0 {
            scan
        } else {
            let index = catalog_indexes::all_indexes()[n - 1];
            self.with_keys(
                self.with_index_columns(scan, (n - 1) as nat),
                index,
                ColumnFilterView::any(),
                index.keys.len(),
            )
        }
    }
}

/// The places in a list.
pub(crate) fn takes(taken: &Vec<(u32, i16)>, relation: u32, attnum: i16) -> (r: bool)
    ensures
        r == taken@.to_set().contains((relation, attnum)),
{
    let mut i: usize = 0;
    while i < taken.len()
        invariant
            i <= taken.len(),
            forall|j: int| 0 <= j < i ==> #[trigger] taken@[j] != (relation, attnum),
        decreases taken.len() - i,
    {
        if taken[i].0 == relation && taken[i].1 == attnum {
            assert(taken@[i as int] == (relation, attnum));
            return true;
        }
        i += 1;
    }
    false
}

pub(crate) proof fn lemma_push_place(taken: Seq<(u32, i16)>, place: (u32, i16))
    ensures
        taken.push(place).to_set() == taken.to_set().insert(place),
{
    let now = taken.push(place);
    assert forall|k: (u32, i16)| now.to_set().contains(k) <==> taken.to_set().insert(
        place,
    ).contains(k) by {
        if taken.contains(k) {
            let i = choose|i: int| 0 <= i < taken.len() && taken[i] == k;
            assert(now[i] == k);
        }
        if k == place {
            assert(now[taken.len() as int] == k);
        }
        if now.contains(k) {
            let i = choose|i: int| 0 <= i < now.len() && now[i] == k;
            if i < taken.len() {
                assert(taken[i] == k);
            }
        }
    }
    assert(now.to_set() =~= taken.to_set().insert(place));
}

pub(crate) fn taken_places(request: &Request, rows: &RowsById) -> (r: Vec<(u32, i16)>)
    ensures
        r@.to_set() == places_of(*request.generated, *request.table, overlay::row_map(rows@)),
{
    let ids = ordered::sorted_keys(rows);
    let ghost m = overlay::row_map(rows@);
    let ghost places = places_of(*request.generated, *request.table, m);
    let mut r: Vec<(u32, i16)> = Vec::new();
    let mut i: usize = 0;
    while i < ids.len()
        invariant
            i <= ids.len(),
            m == overlay::row_map(rows@),
            places == places_of(*request.generated, *request.table, m),
            forall|k: u64| #[trigger] ids@.contains(k) <==> rows@.contains_key(k),
            forall|k: (u32, i16)| #[trigger] r@.to_set().contains(k) ==> places.contains(k),
            forall|j: int|
                0 <= j < i ==> (attribute_key(
                    *request.generated,
                    *request.table,
                    m[#[trigger] ids@[j]],
                ) matches Some(k) ==> r@.to_set().contains(k)),
        decreases ids.len() - i,
    {
        let id = ids[i];
        assert(ids@.contains(id));
        assert(m.contains_key(id));
        match rows.get(&id) {
            Some(row) => match catalog_row_attribute_key(request.generated, request.table, row) {
                Some(k) => {
                    proof {
                        lemma_push_place(r@, k);
                        assert(attribute_key(*request.generated, *request.table, m[id]) == Some(k));
                    }
                    r.push(k);
                },
                None => {},
            },
            None => {
                assert(false);
            },
        }
        i += 1;
    }
    assert(r@.to_set() =~= places) by {
        assert forall|k: (u32, i16)| places.contains(k) implies r@.to_set().contains(k) by {
            let id = choose|id: u64| #[trigger]
                m.contains_key(id) && attribute_key(*request.generated, *request.table, m[id])
                    == Some(k);
            assert(ids@.contains(id));
            let j = choose|j: int| 0 <= j < ids@.len() && ids@[j] == id;
            assert(m[ids@[j]] == m[id]);
        }
    }
    r
}

fn add_place(
    rows: &mut RowsById,
    taken: &mut Vec<(u32, i16)>,
    request: &Request,
    relation: u32,
    attnum: i16,
    row: Option<CatalogRow>,
)
    requires
        !old(taken)@.to_set().contains((relation, attnum)),
    ensures
        ({
            let scan = request@.with_place(
                ColumnScan {
                    rows: overlay::row_map(old(rows)@),
                    taken: old(taken)@.to_set(),
                },
                (relation, attnum),
                match row {
                    Some(r) => Some(r@),
                    None => None,
                },
            );
            &&& overlay::row_map(final(rows)@) == scan.rows
            &&& final(taken)@.to_set() == scan.taken
        }),
{
    if row.is_some() {
        insert_matching_row(rows, row, request);
        proof {
            lemma_push_place(taken@, (relation, attnum));
        }
        taken.push((relation, attnum));
    }
}

pub(crate) fn add_columns_of(
    rows: &mut RowsById,
    taken: &mut Vec<(u32, i16)>,
    request: &Request,
    relation_table: &StaticCatalogTable,
    wanted: &ColumnFilter,
)
    ensures
        ({
            let scan = request@.with_system_columns(
                request@.with_columns(
                    ColumnScan {
                        rows: overlay::row_map(old(rows)@),
                        taken: old(taken)@.to_set(),
                    },
                    *relation_table,
                    wanted@,
                    relation_table.columns@.len(),
                ),
                *relation_table,
                wanted@,
                synthetic::system_attributes().len(),
            );
            &&& overlay::row_map(final(rows)@) == scan.rows
            &&& final(taken)@.to_set() == scan.taken
        }),
{
    let ghost start = ColumnScan { rows: overlay::row_map(rows@), taken: taken@.to_set() };
    let relation = relation_table.oid.0;
    let mut i: usize = 0;
    while i < relation_table.columns.len()
        invariant
            i <= relation_table.columns@.len(),
            relation == relation_table.oid.0,
            (ColumnScan { rows: overlay::row_map(rows@), taken: taken@.to_set() })
                == request@.with_columns(start, *relation_table, wanted@, i as nat),
        decreases relation_table.columns@.len() - i,
    {
        if i < 0x7fff {
            let attnum: i16 = (i + 1) as i16;
            if wanted.takes(attnum, relation_table.columns[i].name) && !takes(
                taken,
                relation,
                attnum,
            ) {
                let row = synthetic::synthetic_static_attribute_row(
                    request.generated,
                    request.table,
                    relation_table,
                    &relation_table.columns[i],
                    attnum,
                );
                add_place(rows, taken, request, relation, attnum, row);
            }
        }
        i += 1;
    }
    let ghost middle = ColumnScan { rows: overlay::row_map(rows@), taken: taken@.to_set() };
    let attributes = synthetic::system_attribute_specs();
    i = 0;
    while i < attributes.len()
        invariant
            i <= attributes.len(),
            attributes@ == synthetic::system_attributes(),
            relation == relation_table.oid.0,
            (ColumnScan { rows: overlay::row_map(rows@), taken: taken@.to_set() })
                == request@.with_system_columns(middle, *relation_table, wanted@, i as nat),
        decreases attributes.len() - i,
    {
        let attribute = attributes[i];
        if wanted.takes(attribute.attnum, attribute.name) && !takes(
            taken,
            relation,
            attribute.attnum,
        ) {
            let row = synthetic::synthetic_system_attribute_row(
                request.generated,
                request.table,
                relation_table,
                attribute,
            );
            add_place(rows, taken, request, relation, attribute.attnum, row);
        }
        i += 1;
    }
}

/// Adds rows for the columns of an index of a catalog.
pub(crate) fn add_keys_of(
    rows: &mut RowsById,
    taken: &mut Vec<(u32, i16)>,
    request: &Request,
    index: &CatalogIndex,
    wanted: &ColumnFilter,
)
    ensures
        ({
            let scan = request@.with_keys(
                ColumnScan {
                    rows: overlay::row_map(old(rows)@),
                    taken: old(taken)@.to_set(),
                },
                index@,
                wanted@,
                index@.keys.len(),
            );
            &&& overlay::row_map(final(rows)@) == scan.rows
            &&& final(taken)@.to_set() == scan.taken
        }),
{
    let ghost start = ColumnScan { rows: overlay::row_map(rows@), taken: taken@.to_set() };
    let mut i: usize = 0;
    while i < index.keys.len()
        invariant
            i <= index.keys@.len(),
            (ColumnScan { rows: overlay::row_map(rows@), taken: taken@.to_set() })
                == request@.with_keys(start, index@, wanted@, i as nat),
        decreases index.keys@.len() - i,
    {
        assert(index@.keys[i as int] == index.keys@[i as int]@);
        if i < 0x7fff {
            let attnum: i16 = (i + 1) as i16;
            if wanted.takes(attnum, index.keys[i]) && !takes(taken, index.oid.0, attnum) {
                let row = catalog_indexes::synthetic_index_attribute_row(
                    request.generated,
                    request.table,
                    index,
                    index.keys[i],
                    attnum,
                );
                add_place(rows, taken, request, index.oid.0, attnum, row);
            }
        }
        i += 1;
    }
}

fn add_catalog_columns(rows: &mut RowsById, request: &Request)
    ensures
        overlay::row_map(final(rows)@) == request@.with_index_columns(
            request@.with_catalog_columns(
                ColumnScan {
                    rows: overlay::row_map(old(rows)@),
                    taken: places_of(
                        *request.generated,
                        *request.table,
                        overlay::row_map(old(rows)@),
                    ),
                },
                request.generated.tables@.len(),
            ),
            catalog_indexes::all_indexes().len(),
        ).rows,
{
    let any = ColumnFilter { attnum: None, name: None };
    let mut taken = taken_places(request, rows);
    let ghost start = ColumnScan { rows: overlay::row_map(rows@), taken: taken@.to_set() };
    let mut i: usize = 0;
    while i < request.generated.tables.len()
        invariant
            i <= request.generated.tables@.len(),
            any@ == ColumnFilterView::any(),
            (ColumnScan { rows: overlay::row_map(rows@), taken: taken@.to_set() })
                == request@.with_catalog_columns(start, i as nat),
        decreases request.generated.tables@.len() - i,
    {
        add_columns_of(rows, &mut taken, request, &request.generated.tables[i], &any);
        i += 1;
    }
    let ghost middle = ColumnScan { rows: overlay::row_map(rows@), taken: taken@.to_set() };
    let indexes = catalog_indexes::all_catalog_indexes();
    let ghost all = catalog_indexes::all_indexes();
    i = 0;
    while i < indexes.len()
        invariant
            i <= indexes@.len(),
            any@ == ColumnFilterView::any(),
            all == catalog_indexes::all_indexes(),
            search::views(indexes@) == all,
            (ColumnScan { rows: overlay::row_map(rows@), taken: taken@.to_set() })
                == request@.with_index_columns(middle, i as nat),
        decreases indexes@.len() - i,
    {
        assert(all[i as int] == indexes@[i as int]@);
        add_keys_of(rows, &mut taken, request, &indexes[i], &any);
        i += 1;
    }
    assert(indexes@.len() == all.len());
}

/// What a row of the catalog of descriptions describes, and its text.
pub struct DescriptionView {
    pub key: (u32, u32, i32),
    pub text: Seq<char>,
}

/// The class, the object and the part of it that a row describes.
pub open spec fn description_key(
    generated: GeneratedCatalog,
    table: StaticCatalogTable,
    row: CatalogRowView,
) -> Option<(u32, u32, i32)> {
    match (
        meta::oid_at(generated, table, row, "classoid"@),
        meta::oid_at(generated, table, row, "objoid"@),
        meta::i32_at(table, row, "objsubid"@),
    ) {
        (Some(class), Some(object), Some(part)) => Some((class.0, object.0, part)),
        _ => None,
    }
}

pub fn catalog_row_description_key(
    generated: &GeneratedCatalog,
    table: &StaticCatalogTable,
    row: &CatalogRow,
) -> (r: Option<(u32, u32, i32)>)
    ensures
        r == description_key(*generated, *table, row@),
{
    match (
        meta::column_oid(generated, table, row, "classoid"),
        meta::column_oid(generated, table, row, "objoid"),
        meta::column_i32(table, row, "objsubid"),
    ) {
        (Some(class), Some(object), Some(part)) => Some((class.0, object.0, part)),
        _ => None,
    }
}

/// The descriptions that rows give, in their order.
pub open spec fn descriptions(
    generated: GeneratedCatalog,
    table: StaticCatalogTable,
    rows: Seq<CatalogRowView>,
) -> Seq<DescriptionView>
    decreases rows.len(),
{
    if rows.len() == 0 {
        seq![]
    } else {
        let before = descriptions(generated, table, rows.drop_last());
        match (
            description_key(generated, table, rows.last()),
            meta::string_at(table, rows.last(), "description"@),
        ) {
            (Some(key), Some(text)) => before.push(DescriptionView { key, text }),
            _ => before,
        }
    }
}

pub open spec fn describes(key: (u32, u32, i32)) -> spec_fn(DescriptionView) -> bool {
    |d: DescriptionView| d.key == key
}

/// A description: what is described, and the text.
pub struct Description {
    pub class: u32,
    pub object: u32,
    pub part: i32,
    pub text: String,
}

pub open spec fn description_views(list: Seq<Description>) -> Seq<DescriptionView> {
    Seq::new(
        list.len(),
        |i: int|
            DescriptionView {
                key: (list[i].class, list[i].object, list[i].part),
                text: list[i].text@,
            },
    )
}

/// The descriptions that rows give, in the order of the rows.
pub fn catalog_description_text_index(
    generated: &GeneratedCatalog,
    table: &StaticCatalogTable,
    rows: &RowsById,
) -> (r: Vec<Description>)
    ensures
        description_views(r@) == descriptions(
            *generated,
            *table,
            in_order(overlay::row_map(rows@)),
        ),
{
    let ids = ordered::sorted_keys(rows);
    let ghost m = overlay::row_map(rows@);
    let ghost all = in_order(m);
    proof {
        ordered::sorted_ids_are(m.dom(), ids@);
    }
    let mut r: Vec<Description> = Vec::new();
    let mut i: usize = 0;
    assert(all.take(0) =~= seq![]);
    assert(description_views(r@) =~= seq![]);
    while i < ids.len()
        invariant
            i <= ids.len(),
            m == overlay::row_map(rows@),
            all == in_order(m),
            ids@ == ordered::sorted_ids(m.dom()),
            forall|k: u64| #[trigger] ids@.contains(k) <==> rows@.contains_key(k),
            description_views(r@) == descriptions(*generated, *table, all.take(i as int)),
        decreases ids.len() - i,
    {
        let id = ids[i];
        assert(ids@.contains(id));
        assert(all.take(i + 1).drop_last() =~= all.take(i as int));
        match rows.get(&id) {
            Some(row) => {
                assert(row@ == all[i as int]);
                match (
                    catalog_row_description_key(generated, table, row),
                    meta::column_string(table, row, "description"),
                ) {
                    (Some(key), Some(text)) => {
                        let ghost before = r@;
                        let ghost told = text@;
                        r.push(Description { class: key.0, object: key.1, part: key.2, text });
                        assert(description_views(r@) =~= description_views(before).push(
                            DescriptionView { key, text: told },
                        ));
                    },
                    _ => {},
                }
            },
            None => {
                assert(false);
            },
        }
        i += 1;
    }
    assert(all.take(i as int) =~= all);
    r
}

fn find_description(list: &Vec<Description>, key: (u32, u32, i32)) -> (r: Option<&Description>)
    ensures
        match r {
            Some(d) => search::last_with(description_views(list@), describes(key)) == Some(
                DescriptionView { key: (d.class, d.object, d.part), text: d.text@ },
            ),
            None => search::last_with(description_views(list@), describes(key)) is None,
        },
{
    let ghost all = description_views(list@);
    let mut i: usize = list.len();
    assert(all.take(i as int) =~= all);
    while i > 0
        invariant
            i <= list.len(),
            all == description_views(list@),
            search::last_with(all, describes(key)) == search::last_with(
                all.take(i as int),
                describes(key),
            ),
        decreases i,
    {
        assert(all.take(i as int).drop_last() =~= all.take(i - 1));
        if list[i - 1].class == key.0 && list[i - 1].object == key.1 && list[i - 1].part == key.2 {
            return Some(&list[i - 1]);
        }
        i -= 1;
    }
    None
}

/// Whether descriptions call an operator deprecated.
pub open spec fn is_deprecated(list: Seq<DescriptionView>, operator: PgOperatorRecord) -> bool {
    match search::last_with(list, describes((PG_OPERATOR_RELATION_OID, operator.oid.0, 0))) {
        Some(d) => "deprecated"@.is_prefix_of(d.text),
        None => false,
    }
}

/// Whether an operator is one that its function is described by.
pub open spec fn names_proc(list: Seq<DescriptionView>, proc_oid: u32) -> spec_fn(
    PgOperatorRecord,
) -> bool {
    |op: PgOperatorRecord|
        op.code.0 == proc_oid && proc_oid != INVALID_OID && !is_deprecated(list, op)
}

/// The functions that an operator describes.
pub open spec fn operator_procs(generated: GeneratedCatalog, list: Seq<DescriptionView>) -> Set<
    u64,
> {
    Set::new(
        |k: u64|
            k <= u32::MAX && search::first_with(
                generated.operators@,
                names_proc(list, k as u32),
            ) is Some,
    )
}

pub open spec fn operator_description(operator: PgOperatorRecord) -> Seq<char> {
    "implementation of "@ + operator.name@ + " operator"@
}

/// The description of the function of an operator, where it has none yet.
pub open spec fn proc_description(
    generated: GeneratedCatalog,
    table: StaticCatalogTable,
    list: Seq<DescriptionView>,
    proc_oid: u32,
) -> Option<CatalogRowView> {
    if search::last_with(list, describes((PG_PROC_RELATION_OID, proc_oid, 0))) is Some {
        None
    } else {
        match search::first_with(generated.operators@, names_proc(list, proc_oid)) {
            Some(op) => synthetic::description_row(
                generated,
                table,
                Oid(proc_oid),
                operator_description(op),
            ),
            None => None,
        }
    }
}

/// The descriptions of operator functions, in the order of the functions.
pub open spec fn proc_descriptions(
    generated: GeneratedCatalog,
    table: StaticCatalogTable,
    list: Seq<DescriptionView>,
) -> Seq<Option<CatalogRowView>> {
    let procs = ordered::sorted_ids(operator_procs(generated, list));
    Seq::new(
        procs.len(),
        |i: int| proc_description(generated, table, list, procs[i] as u32),
    )
}

/// The functions that operators describe, with the first operator for each.
fn described_procs(generated: &GeneratedCatalog, list: &Vec<Description>) -> (r: BTreeMap<
    u64,
    usize,
>)
    ensures
        forall|k: u64| #[trigger]
            r@.contains_key(k) <==> operator_procs(
                *generated,
                description_views(list@),
            ).contains(k),
        forall|k: u64| #[trigger]
            r@.contains_key(k) ==> r@[k] < generated.operators@.len() && search::first_index(
                generated.operators@,
                names_proc(description_views(list@), k as u32),
            ) == Some(r@[k] as int),
{
    let ghost views = description_views(list@);
    let ghost ops = generated.operators@;
    let mut r: BTreeMap<u64, usize> = BTreeMap::new();
    let mut i: usize = 0;
    while i < generated.operators.len()
        invariant
            i <= generated.operators@.len(),
            ops == generated.operators@,
            views == description_views(list@),
            forall|k: u64| #[trigger]
                r@.contains_key(k) ==> k <= u32::MAX && r@[k] < i && names_proc(views, k as u32)(
                    ops[r@[k] as int],
                ) && forall|j: int|
                    0 <= j < r@[k] ==> !names_proc(views, k as u32)(#[trigger] ops[j]),
            forall|k: u32, j: int|
                0 <= j < i && names_proc(views, k)(#[trigger] ops[j])
                    ==> #[trigger] r@.contains_key(k as u64),
        decreases generated.operators@.len() - i,
    {
        let op = &generated.operators[i];
        let deprecated = match find_description(
            list,
            (PG_OPERATOR_RELATION_OID, op.oid.0, 0),
        ) {
            Some(d) => {
                let chars = text::chars_of(d.text.as_str());
                text::begins_with(&chars, "deprecated")
            },
            None => false,
        };
        assert(deprecated == is_deprecated(views, ops[i as int]));
        if op.code.0 != INVALID_OID && !deprecated {
            let k: u64 = op.code.0 as u64;
            assert(names_proc(views, op.code.0)(ops[i as int]));
            if !r.contains_key(&k) {
                assert forall|j: int| 0 <= j < i implies !names_proc(views, k as u32)(
                    #[trigger] ops[j],
                ) by {
                    if names_proc(views, k as u32)(ops[j]) {
                        assert(r@.contains_key((k as u32) as u64));
                    }
                }
                r.insert(k, i);
            }
            assert(r@.contains_key(k));
        }
        i += 1;
    }
    proof {
        assert forall|k: u64| #[trigger]
            r@.contains_key(k) <==> operator_procs(*generated, views).contains(k) by {
            if r@.contains_key(k) {
                search::first_index_at(ops, names_proc(views, k as u32), r@[k] as int);
            }
            if operator_procs(*generated, views).contains(k) {
                search::first_index_is_first(ops, names_proc(views, k as u32));
                let j = search::first_index(ops, names_proc(views, k as u32))->0;
                assert(names_proc(views, k as u32)(ops[j]));
                assert(r@.contains_key((k as u32) as u64));
            }
        }
        assert forall|k: u64| #[trigger] r@.contains_key(k) implies r@[k]
            < generated.operators@.len() && search::first_index(
            ops,
            names_proc(views, k as u32),
        ) == Some(r@[k] as int) by {
            search::first_index_at(ops, names_proc(views, k as u32), r@[k] as int);
        }
    }
    r
}

fn add_proc_descriptions(rows: &mut RowsById, request: &Request)
    ensures
        ({
            let before = overlay::row_map(old(rows)@);
            overlay::row_map(final(rows)@) == request@.with_each(
                before,
                proc_descriptions(
                    *request.generated,
                    *request.table,
                    descriptions(*request.generated, *request.table, in_order(before)),
                ),
            )
        }),
{
    let generated = request.generated;
    let table = request.table;
    let list = catalog_description_text_index(generated, table, rows);
    let ghost views = description_views(list@);
    let ghost start = overlay::row_map(rows@);
    let ghost all = proc_descriptions(*generated, *table, views);
    let procs = described_procs(generated, &list);
    let ids = ordered::sorted_keys(&procs);
    proof {
        ordered::sorted_ids_are(operator_procs(*generated, views), ids@);
    }
    let mut i: usize = 0;
    assert(all.take(0) =~= seq![]);
    while i < ids.len()
        invariant
            i <= ids.len(),
            generated == request.generated,
            table == request.table,
            views == description_views(list@),
            ids@ == ordered::sorted_ids(operator_procs(*generated, views)),
            all == proc_descriptions(*generated, *table, views),
            forall|k: u64| #[trigger] ids@.contains(k) <==> procs@.contains_key(k),
            forall|k: u64| #[trigger]
                procs@.contains_key(k) <==> operator_procs(*generated, views).contains(k),
            forall|k: u64| #[trigger]
                procs@.contains_key(k) ==> procs@[k] < generated.operators@.len()
                    && search::first_index(
                    generated.operators@,
                    names_proc(views, k as u32),
                ) == Some(procs@[k] as int),
            overlay::row_map(rows@) == request@.with_each(start, all.take(i as int)),
        decreases ids.len() - i,
    {
        let id = ids[i];
        assert(ids@.contains(id));
        assert(operator_procs(*generated, views).contains(id));
        assert(all.take(i + 1).drop_last() =~= all.take(i as int));
        let proc_oid: u32 = id as u32;
        match procs.get(&id) {
            Some(at) => {
                let op = &generated.operators[*at];
                match find_description(&list, (PG_PROC_RELATION_OID, proc_oid, 0)) {
                    Some(_) => {
                        assert(all[i as int] is None);
                    },
                    None => {
                        let mut told = text::chars_of("implementation of ");
                        text::push_text(&mut told, op.name);
                        text::push_text(&mut told, " operator");
                        let description = text::string_of(&told);
                        let row = synthetic::synthetic_operator_proc_description_row(
                            generated,
                            table,
                            Oid(proc_oid),
                            description,
                        );
                        insert_matching_row(rows, row, request);
                    },
                }
            },
            None => {
                assert(false);
            },
        }
        i += 1;
    }
    assert(all.take(i as int) =~= all);
}

/// The rows of the domains of the information schema.
pub open spec fn domain_rows(generated: GeneratedCatalog, table: StaticCatalogTable) -> Seq<
    Option<CatalogRowView>,
> {
    Seq::new(
        synthetic::domain_specs().len(),
        |i: int| synthetic::domain_row(generated, table, synthetic::domain_specs()[i]),
    )
}

/// The rows of the row types of the compiled-in catalogs.
pub open spec fn rowtype_rows(generated: GeneratedCatalog, table: StaticCatalogTable) -> Seq<
    Option<CatalogRowView>,
> {
    Seq::new(
        generated.tables@.len(),
        |i: int| synthetic::relation_rowtype(generated, table, generated.tables@[i]),
    )
}

pub open spec fn each(rows: Seq<CatalogRowView>) -> Seq<Option<CatalogRowView>> {
    Seq::new(rows.len(), |i: int| Some(rows[i]))
}

fn add_domains(rows: &mut RowsById, request: &Request)
    ensures
        overlay::row_map(final(rows)@) == request@.with_each(
            overlay::row_map(old(rows)@),
            domain_rows(*request.generated, *request.table),
        ),
{
    let ghost start = overlay::row_map(rows@);
    let ghost all = domain_rows(*request.generated, *request.table);
    let domains = synthetic::information_schema_domain_specs();
    let mut i: usize = 0;
    assert(all.take(0) =~= seq![]);
    while i < domains.len()
        invariant
            i <= domains.len(),
            domains@ == synthetic::domain_specs(),
            all == domain_rows(*request.generated, *request.table),
            overlay::row_map(rows@) == request@.with_each(start, all.take(i as int)),
        decreases domains.len() - i,
    {
        assert(all.take(i + 1).drop_last() =~= all.take(i as int));
        let row = synthetic::synthetic_information_schema_domain_row(
            request.generated,
            request.table,
            domains[i],
        );
        insert_matching_row(rows, row, request);
        i += 1;
    }
    assert(all.take(i as int) =~= all);
}

fn add_rowtypes(rows: &mut RowsById, request: &Request)
    ensures
        overlay::row_map(final(rows)@) == request@.with_each(
            overlay::row_map(old(rows)@),
            rowtype_rows(*request.generated, *request.table),
        ),
{
    let ghost start = overlay::row_map(rows@);
    let ghost all = rowtype_rows(*request.generated, *request.table);
    let mut i: usize = 0;
    assert(all.take(0) =~= seq![]);
    while i < request.generated.tables.len()
        invariant
            i <= request.generated.tables@.len(),
            all == rowtype_rows(*request.generated, *request.table),
            overlay::row_map(rows@) == request@.with_each(start, all.take(i as int)),
        decreases request.generated.tables@.len() - i,
    {
        assert(all.take(i + 1).drop_last() =~= all.take(i as int));
        let row = synthetic::synthetic_static_relation_rowtype_row(
            request.generated,
            request.table,
            &request.generated.tables[i],
        );
        insert_matching_row(rows, row, request);
        i += 1;
    }
    assert(all.take(i as int) =~= all);
}

/// The class rows of the indexes of catalogs.
pub open spec fn index_class_rows(table: StaticCatalogTable) -> Seq<Option<CatalogRowView>> {
    Seq::new(
        catalog_indexes::indexes().len(),
        |i: int| Some(catalog_indexes::index_class(table, catalog_indexes::indexes()[i])),
    )
}

/// The index rows of the indexes of catalogs.
pub open spec fn index_rows(generated: GeneratedCatalog, table: StaticCatalogTable) -> Seq<
    Option<CatalogRowView>,
> {
    Seq::new(
        catalog_indexes::indexes().len(),
        |i: int| catalog_indexes::index_row(generated, table, catalog_indexes::indexes()[i]),
    )
}

fn add_index_classes(rows: &mut RowsById, request: &Request)
    ensures
        overlay::row_map(final(rows)@) == request@.with_each(
            overlay::row_map(old(rows)@),
            index_class_rows(*request.table),
        ),
{
    let ghost start = overlay::row_map(rows@);
    let ghost all = index_class_rows(*request.table);
    let indexes = catalog_indexes::catalog_indexes();
    let ghost views = catalog_indexes::indexes();
    let mut i: usize = 0;
    assert(all.take(0) =~= seq![]);
    while i < indexes.len()
        invariant
            i <= indexes.len(),
            all == index_class_rows(*request.table),
            views == catalog_indexes::indexes(),
            search::views(indexes@) == views,
            overlay::row_map(rows@) == request@.with_each(start, all.take(i as int)),
        decreases indexes.len() - i,
    {
        assert(all.take(i + 1).drop_last() =~= all.take(i as int));
        assert(views[i as int] == indexes@[i as int]@);
        let row = catalog_indexes::synthetic_catalog_index_class_row(request.table, &indexes[i]);
        insert_matching_row(rows, Some(row), request);
        i += 1;
    }
    assert(indexes@.len() == views.len());
    assert(all.take(i as int) =~= all);
}

fn add_indexes(rows: &mut RowsById, request: &Request)
    ensures
        overlay::row_map(final(rows)@) == request@.with_each(
            overlay::row_map(old(rows)@),
            index_rows(*request.generated, *request.table),
        ),
{
    let ghost start = overlay::row_map(rows@);
    let ghost all = index_rows(*request.generated, *request.table);
    let indexes = catalog_indexes::catalog_indexes();
    let ghost views = catalog_indexes::indexes();
    let mut i: usize = 0;
    assert(all.take(0) =~= seq![]);
    while i < indexes.len()
        invariant
            i <= indexes.len(),
            all == index_rows(*request.generated, *request.table),
            views == catalog_indexes::indexes(),
            search::views(indexes@) == views,
            overlay::row_map(rows@) == request@.with_each(start, all.take(i as int)),
        decreases indexes.len() - i,
    {
        assert(all.take(i + 1).drop_last() =~= all.take(i as int));
        assert(views[i as int] == indexes@[i as int]@);
        let row = catalog_indexes::synthetic_catalog_index_row(
            request.generated,
            request.table,
            &indexes[i],
        );
        insert_matching_row(rows, row, request);
        i += 1;
    }
    assert(indexes@.len() == views.len());
    assert(all.take(i as int) =~= all);
}

fn add_tokens(rows: &mut RowsById, request: &Request)
    ensures
        overlay::row_map(final(rows)@) == request@.with_each(
            overlay::row_map(old(rows)@),
            each(synthetic::english_token_rows(*request.table)),
        ),
{
    let ghost start = overlay::row_map(rows@);
    let ghost all = each(synthetic::english_token_rows(*request.table));
    let tokens = synthetic::synthetic_english_ts_config_map_rows(request.table);
    let ghost views = synthetic::row_views(tokens@);
    let mut i: usize = 0;
    assert(all.take(0) =~= seq![]);
    while i < tokens.len()
        invariant
            i <= tokens.len(),
            views == synthetic::row_views(tokens@),
            views == synthetic::english_token_rows(*request.table),
            all == each(views),
            overlay::row_map(rows@) == request@.with_each(start, all.take(i as int)),
        decreases tokens.len() - i,
    {
        assert(all.take(i + 1).drop_last() =~= all.take(i as int));
        assert(views[i as int] == tokens@[i as int]@);
        let row = tokens[i].clone();
        insert_matching_row(rows, Some(row), request);
        i += 1;
    }
    assert(all.take(i as int) =~= all);
}

impl RequestView {
    /// The rows of the catalog that are asked for, but for those laid over it and
    /// those that tell of other catalogs.
    pub open spec fn stored(self, s: SnapshotView) -> Map<u64, CatalogRowView> {
        let generated = self.generated;
        let table = self.table;
        let compiled = self.compiled(table.rows@);
        let relation = table.oid.0;
        if relation == PG_NAMESPACE_RELATION_OID {
            self.with_more(
                self.with_one(compiled, synthetic::information_schema(generated, table)),
                record_rows::<NamespaceMeta>(s.namespaces),
            )
        } else if relation == PG_CLASS_RELATION_OID {
            self.with_more(
                self.with_each(
                    self.with_one(compiled, Some(synthetic::aggregate_index_class(table))),
                    index_class_rows(table),
                ),
                record_rows::<RelationMeta>(s.relations),
            )
        } else if relation == PG_ATTRIBUTE_RELATION_OID {
            let recorded = self.with_more(compiled, record_rows::<ColumnMeta>(s.columns));
            self.with_index_columns(
                self.with_catalog_columns(
                    ColumnScan { rows: recorded, taken: places_of(generated, table, recorded) },
                    generated.tables@.len(),
                ),
                catalog_indexes::all_indexes().len(),
            ).rows
        } else if relation == PG_TYPE_RELATION_OID {
            self.with_each(
                self.with_each(
                    self.with_more(compiled, record_rows::<TypeMeta>(s.types)),
                    domain_rows(generated, table),
                ),
                rowtype_rows(generated, table),
            )
        } else if relation == PG_INDEX_RELATION_OID {
            self.with_more(
                self.with_each(
                    self.with_one(compiled, Some(synthetic::aggregate_index(table))),
                    index_rows(generated, table),
                ),
                record_rows::<IndexMeta>(s.indexes),
            )
        } else if relation == PG_CONSTRAINT_RELATION_OID {
            self.with_more(compiled, record_rows::<ConstraintMeta>(s.constraints))
        } else if relation == PG_DESCRIPTION_RELATION_OID {
            self.with_each(
                compiled,
                proc_descriptions(
                    generated,
                    table,
                    descriptions(generated, table, in_order(compiled)),
                ),
            )
        } else if relation == PG_INIT_PRIVS_RELATION_OID {
            self.with_one(compiled, Some(synthetic::catalog_privileges(table)))
        } else if relation == PG_TS_DICT_RELATION_OID {
            self.with_one(compiled, Some(synthetic::english_dictionary(table)))
        } else if relation == PG_TS_CONFIG_RELATION_OID {
            self.with_one(compiled, Some(synthetic::english_config(table)))
        } else if relation == PG_TS_CONFIG_MAP_RELATION_OID {
            self.with_each(compiled, each(synthetic::english_token_rows(table)))
        } else if relation == PG_TS_TEMPLATE_RELATION_OID {
            self.with_one(compiled, Some(synthetic::snowball_template(table)))
        } else if relation == PG_PROC_RELATION_OID {
            self.with_one(
                self.with_one(compiled, Some(synthetic::snowball_init(table))),
                Some(synthetic::snowball_lexize(table)),
            )
        } else {
            compiled
        }
    }

    /// The rows of the catalog that are asked for, by identity, but for those that
    /// tell of other catalogs.
    pub open spec fn stored_answer(self, s: SnapshotView) -> Map<u64, CatalogRowView> {
        self.chosen(s.compat.applied(self.table.oid.0, self.stored(s)))
    }

    /// The rows of the catalog that are asked for, but for those laid over it.
    pub open spec fn gathered(self, s: SnapshotView) -> Map<u64, CatalogRowView> {
        if self.table.oid.0 == PG_INDEXES_RELATION_OID {
            self.with_each(
                self.stored(s),
                index_views::pg_indexes_rows(self.generated, s, self.table),
            )
        } else {
            self.stored(s)
        }
    }

    /// The rows of the catalog that are asked for, by identity.
    pub open spec fn answer(self, s: SnapshotView) -> Map<u64, CatalogRowView> {
        self.chosen(s.compat.applied(self.table.oid.0, self.gathered(s)))
    }
}

impl<'a> Request<'a> {
    fn gather_stored(&self, s: &CatalogSnapshot) -> (r: RowsById)
        requires
            s@.wf(),
        ensures
            overlay::row_map(r@) == self@.stored(s@),
    {
        let mut rows = compiled_rows(self);
        let relation = self.table.oid.0;
        if relation == PG_NAMESPACE_RELATION_OID {
            let row = synthetic::synthetic_information_schema_namespace_row(
                self.generated,
                self.table,
            );
            insert_matching_row(&mut rows, row, self);
            add_records(&mut rows, &s.namespaces, self, Ghost(PG_NAMESPACE_RELATION_OID));
        } else if relation == PG_CLASS_RELATION_OID {
            let row = synthetic::synthetic_pg_aggregate_fnoid_index_class_row(self.table);
            insert_matching_row(&mut rows, Some(row), self);
            add_index_classes(&mut rows, self);
            add_records(&mut rows, &s.relations, self, Ghost(PG_CLASS_RELATION_OID));
        } else if relation == PG_ATTRIBUTE_RELATION_OID {
            add_records(&mut rows, &s.columns, self, Ghost(PG_ATTRIBUTE_RELATION_OID));
            add_catalog_columns(&mut rows, self);
        } else if relation == PG_TYPE_RELATION_OID {
            add_records(&mut rows, &s.types, self, Ghost(PG_TYPE_RELATION_OID));
            add_domains(&mut rows, self);
            add_rowtypes(&mut rows, self);
        } else if relation == PG_INDEX_RELATION_OID {
            let row = synthetic::synthetic_pg_aggregate_fnoid_index_row(self.table);
            insert_matching_row(&mut rows, Some(row), self);
            add_indexes(&mut rows, self);
            add_records(&mut rows, &s.indexes, self, Ghost(PG_INDEX_RELATION_OID));
        } else if relation == PG_CONSTRAINT_RELATION_OID {
            add_records(&mut rows, &s.constraints, self, Ghost(PG_CONSTRAINT_RELATION_OID));
        } else if relation == PG_DESCRIPTION_RELATION_OID {
            add_proc_descriptions(&mut rows, self);
        } else if relation == PG_INIT_PRIVS_RELATION_OID {
            let row = synthetic::synthetic_pg_catalog_init_privs_row(self.table);
            insert_matching_row(&mut rows, Some(row), self);
        } else if relation == PG_TS_DICT_RELATION_OID {
            let row = synthetic::synthetic_english_ts_dict_row(self.table);
            insert_matching_row(&mut rows, Some(row), self);
        } else if relation == PG_TS_CONFIG_RELATION_OID {
            let row = synthetic::synthetic_english_ts_config_row(self.table);
            insert_matching_row(&mut rows, Some(row), self);
        } else if relation == PG_TS_CONFIG_MAP_RELATION_OID {
            add_tokens(&mut rows, self);
        } else if relation == PG_TS_TEMPLATE_RELATION_OID {
            let row = synthetic::synthetic_snowball_ts_template_row(self.table);
            insert_matching_row(&mut rows, Some(row), self);
        } else if relation == PG_PROC_RELATION_OID {
            let init = synthetic::synthetic_dsnowball_init_row(self.table);
            insert_matching_row(&mut rows, Some(init), self);
            let lexize = synthetic::synthetic_dsnowball_lexize_row(self.table);
            insert_matching_row(&mut rows, Some(lexize), self);
        }
        rows
    }

    fn gather(&self, s: &CatalogSnapshot) -> (r: RowsById)
        requires
            s@.wf(),
        ensures
            overlay::row_map(r@) == self@.gathered(s@),
    {
        let mut rows = self.gather_stored(s);
        if self.table.oid.0 == PG_INDEXES_RELATION_OID {
            let mut list = index_views::synthetic_pg_indexes_rows(self.generated, s, self.table);
            let ghost all = index_views::pg_indexes_rows(*self.generated, s@, *self.table);
            let ghost start = overlay::row_map(rows@);
            let n = list.len();
            let mut i: usize = 0;
            assert(all.take(0) =~= seq![]);
            while i < n
                invariant
                    i <= n,
                    n == all.len(),
                    list@.len() == n,
                    forall|j: int|
                        i <= j < n ==> search::option_view(#[trigger] list@[j]) == all[j],
                    overlay::row_map(rows@) == self@.with_each(start, all.take(i as int)),
                decreases n - i,
            {
                assert(all.take(i + 1).drop_last() =~= all.take(i as int));
                let row = list[i].take();
                insert_matching_row(&mut rows, row, self);
                i += 1;
            }
            assert(all.take(n as int) =~= all);
        }
        rows
    }
}

/// The rows of a map that are asked for, in order.
pub(crate) fn chosen_in_order(rows: &RowsById, request: &Request) -> (r: Vec<CatalogRow>)
    ensures
        synthetic::row_views(r@) == in_order(request@.chosen(overlay::row_map(rows@))),
{
    let ids = ordered::sorted_keys(rows);
    let ghost m = overlay::row_map(rows@);
    let ghost wanted = request@.chosen(m);
    let mut r: Vec<CatalogRow> = Vec::new();
    let ghost mut kept: Seq<u64> = seq![];
    let mut i: usize = 0;
    while i < ids.len()
        invariant
            i <= ids.len(),
            m == overlay::row_map(rows@),
            wanted == request@.chosen(m),
            ordered::ascending(ids@),
            forall|k: u64| #[trigger] ids@.contains(k) <==> rows@.contains_key(k),
            r@.len() == kept.len(),
            ordered::ascending(kept),
            forall|j: int|
                0 <= j < kept.len() ==> wanted.contains_key(#[trigger] kept[j]) && r@[j]@
                    == wanted[kept[j]],
            forall|j: int|
                0 <= j < kept.len() ==> exists|n: int| 0 <= n < i && ids@[n] == #[trigger] kept[j],
            forall|n: int|
                0 <= n < i && wanted.contains_key(#[trigger] ids@[n]) ==> kept.contains(ids@[n]),
        decreases ids.len() - i,
    {
        let id = ids[i];
        assert(ids@.contains(id));
        match rows.get(&id) {
            Some(row) => {
                assert(row@ == m[id]);
                if request.selects_row(row) {
                    let ghost before = kept;
                    r.push(row.clone());
                    proof {
                        kept = kept.push(id);
                        assert(kept[before.len() as int] == id);
                        assert forall|a: int, b: int| 0 <= a < b < kept.len() implies
                            #[trigger] kept[a] < #[trigger] kept[b] by {
                            if b == before.len() {
                                assert(kept[a] == before[a]);
                                let n = choose|n: int| 0 <= n < i && ids@[n] == before[a];
                                assert(ids@[n] < ids@[i as int]);
                            } else {
                                assert(kept[a] == before[a] && kept[b] == before[b]);
                            }
                        }
                        assert forall|j: int| 0 <= j < kept.len() implies exists|n: int|
                            0 <= n < i + 1 && ids@[n] == #[trigger] kept[j] by {
                            if j < before.len() {
                                assert(kept[j] == before[j]);
                                let n = choose|n: int| 0 <= n < i && ids@[n] == before[j];
                                assert(ids@[n] == kept[j]);
                            } else {
                                assert(ids@[i as int] == kept[j]);
                            }
                        }
                        assert forall|n: int|
                            0 <= n < i + 1 && wanted.contains_key(
                                #[trigger] ids@[n],
                            ) implies kept.contains(ids@[n]) by {
                            if n < i {
                                let j = choose|j: int|
                                    0 <= j < before.len() && before[j] == ids@[n];
                                assert(kept[j] == ids@[n]);
                            }
                        }
                    }
                }
            },
            None => {
                assert(false);
            },
        }
        i += 1;
    }
    proof {
        assert forall|k: u64| #[trigger] kept.contains(k) <==> wanted.dom().contains(k) by {
            if kept.contains(k) {
                let j = choose|j: int| 0 <= j < kept.len() && kept[j] == k;
                assert(wanted.contains_key(kept[j]));
            }
            if wanted.contains_key(k) {
                assert(ids@.contains(k));
                let n = choose|n: int| 0 <= n < ids@.len() && ids@[n] == k;
                assert(wanted.contains_key(ids@[n]));
            }
        }
        ordered::sorted_ids_are(wanted.dom(), kept);
    }
    assert(synthetic::row_views(r@) =~= in_order(wanted));
    r
}

/// The rows of a catalog that are asked for, in the order of their identities,
/// but for those that tell of other catalogs.
pub open spec fn stored_rows(
    generated: GeneratedCatalog,
    s: SnapshotView,
    relation_oid: Oid,
    sel: SelectorView,
) -> Seq<CatalogRowView> {
    match columns::table_of(generated, relation_oid) {
        Some(table) => in_order(
            (RequestView { generated, table, sel }).stored_answer(s),
        ),
        None => seq![],
    }
}

pub(crate) fn stored_catalog_rows(
    generated: &GeneratedCatalog,
    s: &CatalogSnapshot,
    relation_oid: Oid,
    sel: RowSelector,
) -> (r: Vec<CatalogRow>)
    requires
        s@.wf(),
    ensures
        synthetic::row_views(r@) == stored_rows(*generated, s@, relation_oid, sel@),
{
    let table = match columns::static_catalog_by_relation_oid(generated, relation_oid) {
        Some(table) => table,
        None => {
            let none: Vec<CatalogRow> = Vec::new();
            assert(synthetic::row_views(none@) =~= seq![]);
            return none;
        },
    };
    let request = Request { generated, table, sel };
    let mut rows = request.gather_stored(s);
    s.compat_rows.apply_to_rows(relation_oid, &mut rows);
    chosen_in_order(&rows, &request)
}

/// The rows of a catalog that are asked for, in the order of their identities.
pub open spec fn rows_asked_for(
    generated: GeneratedCatalog,
    s: SnapshotView,
    relation_oid: Oid,
    sel: SelectorView,
) -> Seq<CatalogRowView> {
    match columns::table_of(generated, relation_oid) {
        Some(table) => in_order(
            (RequestView { generated, table, sel }).answer(s),
        ),
        None => seq![],
    }
}

pub fn catalog_rows_matching_static(
    generated: &GeneratedCatalog,
    s: &CatalogSnapshot,
    relation_oid: Oid,
    sel: RowSelector,
) -> (r: Vec<CatalogRow>)
    requires
        s@.wf(),
    ensures
        synthetic::row_views(r@) == rows_asked_for(*generated, s@, relation_oid, sel@),
{
    let table = match columns::static_catalog_by_relation_oid(generated, relation_oid) {
        Some(table) => table,
        None => {
            let none: Vec<CatalogRow> = Vec::new();
            assert(synthetic::row_views(none@) =~= seq![]);
            return none;
        },
    };
    let request = Request { generated, table, sel };
    let mut rows = request.gather(s);
    s.compat_rows.apply_to_rows(relation_oid, &mut rows);
    chosen_in_order(&rows, &request)
}

/// All rows of a catalog.
pub fn catalog_rows(generated: &GeneratedCatalog, s: &CatalogSnapshot, relation_oid: Oid) -> (r:
    Vec<CatalogRow>)
    requires
        s@.wf(),
    ensures
        synthetic::row_views(r@) == rows_asked_for(
            *generated,
            s@,
            relation_oid,
            SelectorView::All,
        ),
{
    catalog_rows_matching_static(generated, s, relation_oid, RowSelector::All)
}

/// The first of the rows of a map with a property is the one with the least
/// identity.
pub proof fn first_in_order(rows: Map<u64, CatalogRowView>, p: spec_fn(CatalogRowView) -> bool)
    ensures
        match search::first_with(in_order(rows), p) {
            Some(row) => exists|id: u64|
                {
                    &&& #[trigger] rows.contains_key(id)
                    &&& rows[id] == row
                    &&& p(row)
                    &&& forall|k: u64| #[trigger]
                        rows.contains_key(k) && p(rows[k]) ==> id <= k
                },
            None => forall|k: u64| #[trigger] rows.contains_key(k) ==> !p(rows[k]),
        },
{
    let ids = ordered::sorted_ids(rows.dom());
    let list = in_order(rows);
    ordered::sorted_ids_list_the_set(rows.dom());
    search::first_index_is_first(list, p);
    assert forall|k: u64| #[trigger] rows.contains_key(k) implies exists|j: int|
        0 <= j < list.len() && ids[j] == k && #[trigger] list[j] == rows[k] by {
        assert(ids.contains(k));
        let j = choose|j: int| 0 <= j < ids.len() && ids[j] == k;
        assert(list[j] == rows[k]);
    }
    match search::first_index(list, p) {
        Some(i) => {
            let id = ids[i];
            assert(ids.contains(id));
            assert(rows.contains_key(id) && rows[id] == list[i]);
            assert forall|k: u64| #[trigger] rows.contains_key(k) && p(rows[k]) implies id <= k by {
                let j = choose|j: int|
                    0 <= j < list.len() && ids[j] == k && #[trigger] list[j] == rows[k];
                assert(j >= i);
                if j > i {
                    assert(ids[i] < ids[j]);
                }
            }
        },
        None => {},
    }
}

} // verus!
