//! Rows of a catalog by the values of their columns.

use std::collections::BTreeMap;
use vstd::prelude::*;

use crate::catalog::catalog_indexes;
use crate::catalog::column_filters;
use crate::catalog::columns;
use crate::catalog::counts;
use crate::catalog::description_filters;
use crate::catalog::index;
use crate::catalog::index_views;
use crate::catalog::meta::{
    ColumnMeta, ConstraintMeta, IndexMeta, NamespaceMeta, RelationMeta, TypeMeta,
};
use crate::catalog::model::{
    CatalogRow, CatalogRowView, GeneratedCatalog, StaticCatalogRow, StaticCatalogTable,
    PG_ATTRIBUTE_RELATION_OID, PG_CLASS_RELATION_OID, PG_CONSTRAINT_RELATION_OID,
    PG_DESCRIPTION_RELATION_OID, PG_INDEXES_RELATION_OID, PG_INDEX_RELATION_OID,
    PG_INIT_PRIVS_RELATION_OID, PG_NAMESPACE_RELATION_OID, PG_PROC_RELATION_OID,
    PG_TS_CONFIG_MAP_RELATION_OID, PG_TS_CONFIG_RELATION_OID, PG_TS_DICT_RELATION_OID,
    PG_TS_TEMPLATE_RELATION_OID, PG_TYPE_RELATION_OID,
};
use crate::catalog::overlay;
use crate::catalog::rows;
use crate::catalog::rows::{
    ColumnFilter, ColumnFilterView, ColumnScan, Request, RequestView, RowsById,
};
use crate::catalog::selectors;
use crate::catalog::selectors::{CatalogFilterValue, CatalogRowFilter, RowSelector, SelectorView};
use crate::catalog::snapshot::{CatalogSnapshot, SnapshotView};
use crate::catalog::static_rows;
use crate::catalog::synthetic;
use crate::ordered;
use crate::search;
use crate::types::Oid;

verus! {

broadcast use vstd::std_specs::btree::group_btree_axioms;

/// The number of a column, where there is one.
pub open spec fn number_of(table: StaticCatalogTable, column: Seq<char>) -> Option<i16> {
    match columns::position(table, column) {
        Some(i) if i < i16::MAX => Some((i + 1) as i16),
        _ => None,
    }
}

pub fn filter_attnum_for_column(table: &StaticCatalogTable, column_name: &str) -> (r: Option<i16>)
    ensures
        r == number_of(*table, column_name@),
{
    match columns::column_position(table, column_name) {
        Some(i) => if i < 0x7fff {
            Some((i + 1) as i16)
        } else {
            None
        },
        None => None,
    }
}

pub open spec fn on_column(attnum: i16) -> spec_fn(CatalogRowFilter) -> bool {
    |f: CatalogRowFilter| f.attnum == attnum
}

/// The identifier that the first filter on a column asks for.
pub open spec fn wanted_oid(filters: Seq<CatalogRowFilter>, attnum: i16) -> Option<Oid> {
    match search::first_with(filters, on_column(attnum)) {
        Some(f) => match f.value {
            CatalogFilterValue::Oid(oid) => Some(oid),
            _ => None,
        },
        None => None,
    }
}

/// The number that the first filter on a column asks for.
pub open spec fn wanted_number(filters: Seq<CatalogRowFilter>, attnum: i16) -> Option<i16> {
    match search::first_with(filters, on_column(attnum)) {
        Some(f) => match f.value {
            CatalogFilterValue::Int16(n) => Some(n),
            _ => None,
        },
        None => None,
    }
}

/// The name that the first filter on a column asks for.
pub open spec fn wanted_name(filters: Seq<CatalogRowFilter>, attnum: i16) -> Option<Seq<char>> {
    match search::first_with(filters, on_column(attnum)) {
        Some(f) => match f.value {
            CatalogFilterValue::Name(name) => Some(name@),
            _ => None,
        },
        None => None,
    }
}

/// The first filter on a column.
fn filter_on(filters: &[CatalogRowFilter], attnum: i16) -> (r: Option<&CatalogRowFilter>)
    ensures
        match r {
            Some(f) => search::first_with(filters@, on_column(attnum)) == Some(*f),
            None => search::first_with(filters@, on_column(attnum)) is None,
        },
{
    let mut i: usize = 0;
    while i < filters.len()
        invariant
            i <= filters@.len(),
            forall|j: int| 0 <= j < i ==> !on_column(attnum)(#[trigger] filters@[j]),
        decreases filters@.len() - i,
    {
        if filters[i].attnum == attnum {
            proof {
                search::first_index_at(filters@, on_column(attnum), i as int);
            }
            return Some(&filters[i]);
        }
        i += 1;
    }
    proof {
        search::first_index_none(filters@, on_column(attnum));
    }
    None
}

pub fn filter_oid(filters: &[CatalogRowFilter], attnum: i16) -> (r: Option<Oid>)
    ensures
        r == wanted_oid(filters@, attnum),
{
    match filter_on(filters, attnum) {
        Some(f) => match f.value {
            CatalogFilterValue::Oid(oid) => Some(oid),
            _ => None,
        },
        None => None,
    }
}

pub fn filter_i16(filters: &[CatalogRowFilter], attnum: i16) -> (r: Option<i16>)
    ensures
        r == wanted_number(filters@, attnum),
{
    match filter_on(filters, attnum) {
        Some(f) => match f.value {
            CatalogFilterValue::Int16(n) => Some(n),
            _ => None,
        },
        None => None,
    }
}

pub fn filter_name(filters: &[CatalogRowFilter], attnum: i16) -> (r: Option<&str>)
    ensures
        match r {
            Some(name) => wanted_name(filters@, attnum) == Some(name@),
            None => wanted_name(filters@, attnum) is None,
        },
{
    match filter_on(filters, attnum) {
        Some(f) => match &f.value {
            CatalogFilterValue::Name(name) => Some(name.as_str()),
            _ => None,
        },
        None => None,
    }
}

/// Whether a column is the one that is found at its place of a relation, and
/// its number is looked for.
pub open spec fn is_current(
    s: SnapshotView,
    relation: u32,
    wanted: Option<i16>,
    id: u64,
) -> bool {
    &&& s.columns.contains_key(id)
    &&& s.columns[id].relation_oid.0 == relation
    &&& wanted matches Some(n) ==> n == s.columns[id].attnum
    &&& index::last_of(
        index::ids_where(
            s.columns,
            index::column_at_place(relation, s.columns[id].attnum),
        ),
    ) == Some(id)
}

/// The rows of the columns that are found at the places of a relation.
pub open spec fn current_columns(s: SnapshotView, relation: u32, wanted: Option<i16>) -> Map<
    u64,
    CatalogRowView,
> {
    Map::new(|id: u64| is_current(s, relation, wanted, id), |id: u64| s.columns[id].row)
}

/// Adds the rows of the columns of a relation that are asked for.
fn add_current_columns(
    rows: &mut RowsById,
    s: &CatalogSnapshot,
    request: &Request,
    relation_oid: Oid,
    wanted: &ColumnFilter,
)
    requires
        s@.wf(),
        s.lookups_agree(),
    ensures
        overlay::row_map(final(rows)@) == request@.with_more(
            overlay::row_map(old(rows)@),
            current_columns(s@, relation_oid.0, wanted.attnum),
        ),
{
    let relation = relation_oid.0;
    let none: BTreeMap<i16, u64> = BTreeMap::new();
    let places = match s.columns_by_relation.get(&relation) {
        Some(places) => places,
        None => &none,
    };
    let attnums = ordered::sorted_keys(places);
    let ghost m = s@.columns;
    let ghost all = current_columns(s@, relation, wanted.attnum);
    let ghost start = overlay::row_map(rows@);
    let ghost mut done: Set<u64> = Set::empty();
    let mut i: usize = 0;
    assert(overlay::row_map(rows@) =~= request@.with_more(start, all.restrict(done)));
    while i < attnums.len()
        invariant
            i <= attnums.len(),
            m == s@.columns,
            s@.wf(),
            s.lookups_agree(),
            relation == relation_oid.0,
            all == current_columns(s@, relation, wanted.attnum),
            forall|n: i16| #[trigger] attnums@.contains(n) <==> places@.contains_key(n),
            forall|n: i16|
                places@.contains_key(n) ==> #[trigger] index::place_in(
                    s.columns_by_relation@,
                    relation,
                    n,
                ) == Some(places@[n]),
            overlay::row_map(rows@) == request@.with_more(start, all.restrict(done)),
            forall|j: int|
                0 <= j < i && wanted@.admits_number(#[trigger] attnums@[j]) ==> done.contains(
                    places@[attnums@[j]],
                ),
        decreases attnums.len() - i,
    {
        let attnum = attnums[i];
        assert(attnums@.contains(attnum));
        if wanted.takes_number(attnum) {
            match places.get(&attnum) {
                Some(id) => {
                    let id: u64 = *id;
                    proof {
                        assert(index::place_in(s.columns_by_relation@, relation, attnum) == Some(
                            id,
                        ));
                        index::ids_where_are_the_matches(
                            m,
                            index::column_at_place(relation, attnum),
                        );
                        assert(m.contains_key(id));
                        assert(is_current(s@, relation, wanted.attnum, id));
                    }
                    match s.columns.get(&id) {
                        Some(column) => {
                            let row = column.row.clone();
                            let ghost view = row@;
                            assert(view == all[id]);
                            assert(view.row_id == id);
                            rows::insert_matching_row(rows, Some(row), request);
                            proof {
                                let next = done.insert(id);
                                assert(overlay::row_map(rows@) =~= request@.with_more(
                                    start,
                                    all.restrict(next),
                                ));
                                done = next;
                            }
                        },
                        None => {
                            assert(false);
                        },
                    }
                },
                None => {
                    assert(false);
                },
            }
        }
        i += 1;
    }
    assert(all.restrict(done) =~= all) by {
        assert forall|id: u64| #[trigger] all.contains_key(id) implies done.contains(id) by {
            let attnum = m[id].attnum;
            assert(index::place_in(s.columns_by_relation@, relation, attnum) == Some(id));
            assert(places@.contains_key(attnum));
            assert(attnums@.contains(attnum));
            let j = choose|j: int| 0 <= j < attnums@.len() && attnums@[j] == attnum;
            assert(wanted@.admits_number(attnums@[j]));
        }
    }
}

/// What filters on the catalog of columns ask for: a relation, and which of its
/// columns.
pub struct ColumnQueryView {
    pub relation_oid: Oid,
    pub wanted: ColumnFilterView,
}

/// What filters on the catalog of columns ask for, where they name a relation.
pub open spec fn query_of(table: StaticCatalogTable, filters: Seq<CatalogRowFilter>) -> Option<
    ColumnQueryView,
> {
    match (
        number_of(table, "attrelid"@),
        number_of(table, "attnum"@),
        number_of(table, "attname"@),
    ) {
        (Some(relid), Some(attnum), Some(attname)) => match wanted_oid(filters, relid) {
            Some(relation_oid) => Some(
                ColumnQueryView {
                    relation_oid,
                    wanted: ColumnFilterView {
                        attnum: wanted_number(filters, attnum),
                        name: wanted_name(filters, attname),
                    },
                },
            ),
            None => None,
        },
        _ => None,
    }
}

/// What filters on the catalog of columns ask for: a relation, and which of its
/// columns.
pub struct ColumnQuery<'a> {
    pub relation_oid: Oid,
    pub wanted: ColumnFilter<'a>,
}

impl<'a> View for ColumnQuery<'a> {
    type V = ColumnQueryView;

    open spec fn view(&self) -> ColumnQueryView {
        ColumnQueryView { relation_oid: self.relation_oid, wanted: self.wanted@ }
    }
}

fn column_query<'a>(table: &StaticCatalogTable, filters: &'a [CatalogRowFilter]) -> (r: Option<
    ColumnQuery<'a>,
>)
    ensures
        match r {
            Some(query) => query_of(*table, filters@) == Some(query@),
            None => query_of(*table, filters@) is None,
        },
{
    let relid = match filter_attnum_for_column(table, "attrelid") {
        Some(n) => n,
        None => return None,
    };
    let attnum = match filter_attnum_for_column(table, "attnum") {
        Some(n) => n,
        None => return None,
    };
    let attname = match filter_attnum_for_column(table, "attname") {
        Some(n) => n,
        None => return None,
    };
    let relation_oid = match filter_oid(filters, relid) {
        Some(oid) => oid,
        None => return None,
    };
    Some(
        ColumnQuery {
            relation_oid,
            wanted: ColumnFilter {
                attnum: filter_i16(filters, attnum),
                name: filter_name(filters, attname),
            },
        },
    )
}

impl RequestView {
    /// The rows of the catalog of columns that a query for the columns of one
    /// relation finds, but for those laid over it.
    pub open spec fn columns_found(self, s: SnapshotView, query: ColumnQueryView) -> Map<
        u64,
        CatalogRowView,
    > {
        let recorded = self.with_more(
            self.compiled(self.table.rows@),
            current_columns(s, query.relation_oid.0, query.wanted.attnum),
        );
        match columns::table_of(self.generated, query.relation_oid) {
            Some(relation_table) => self.with_system_columns(
                self.with_columns(
                    ColumnScan {
                        rows: recorded,
                        taken: rows::places_of(self.generated, self.table, recorded),
                    },
                    relation_table,
                    query.wanted,
                    relation_table.columns@.len(),
                ),
                relation_table,
                query.wanted,
                synthetic::system_attributes().len(),
            ).rows,
            None => match search::first_with(
                catalog_indexes::all_indexes(),
                catalog_indexes::index_has(query.relation_oid),
            ) {
                Some(found) => self.with_keys(
                    ColumnScan {
                        rows: recorded,
                        taken: rows::places_of(self.generated, self.table, recorded),
                    },
                    found,
                    query.wanted,
                    found.keys.len(),
                ).rows,
                None => recorded,
            },
        }
    }

    /// The rows of the catalog of columns that a query finds.
    pub open spec fn columns_answer(self, s: SnapshotView, query: ColumnQueryView) -> Map<
        u64,
        CatalogRowView,
    > {
        self.chosen(s.compat.applied(PG_ATTRIBUTE_RELATION_OID, self.columns_found(s, query)))
    }
}

pub open spec fn filtering(
    generated: GeneratedCatalog,
    table: StaticCatalogTable,
    filters: Seq<CatalogRowFilter>,
) -> RequestView {
    RequestView { generated, table, sel: SelectorView::Filters(filters) }
}

/// The columns of one relation that pass filters, where the filters name the
/// relation.
pub fn catalog_rows_matching_pg_attribute_filters(
    generated: &GeneratedCatalog,
    s: &CatalogSnapshot,
    table: &StaticCatalogTable,
    filters: &[CatalogRowFilter],
) -> (r: Option<Vec<CatalogRow>>)
    requires
        s@.wf(),
        s.lookups_agree(),
    ensures
        match (query_of(*table, filters@), r) {
            (Some(query), Some(found)) => synthetic::row_views(found@) == rows::in_order(
                filtering(*generated, *table, filters@).columns_answer(s@, query),
            ),
            (None, None) => true,
            _ => false,
        },
{
    let found = column_query(table, filters);
    let query = match &found {
        Some(query) => query,
        None => return None,
    };
    let request = Request { generated, table, sel: RowSelector::Filters(filters) };
    let mut found_rows = rows::compiled_rows(&request);
    add_current_columns(&mut found_rows, s, &request, query.relation_oid, &query.wanted);
    match columns::static_catalog_by_relation_oid(generated, query.relation_oid) {
        Some(relation_table) => {
            let mut taken = rows::taken_places(&request, &found_rows);
            rows::add_columns_of(
                &mut found_rows,
                &mut taken,
                &request,
                relation_table,
                &query.wanted,
            );
        },
        None => match catalog_indexes::catalog_index_by_oid(query.relation_oid) {
            Some(found) => {
                let mut taken = rows::taken_places(&request, &found_rows);
                rows::add_keys_of(&mut found_rows, &mut taken, &request, &found, &query.wanted);
            },
            None => {},
        },
    }
    s.compat_rows.apply_to_rows(Oid(PG_ATTRIBUTE_RELATION_OID), &mut found_rows);
    Some(rows::chosen_in_order(&found_rows, &request))
}

/// The rows of a catalog that pass filters.
pub open spec fn rows_passing(
    generated: GeneratedCatalog,
    s: SnapshotView,
    relation_oid: Oid,
    filters: Seq<CatalogRowFilter>,
) -> Seq<CatalogRowView> {
    let plain = rows::rows_asked_for(
        generated,
        s,
        relation_oid,
        if filters.len() == 0 {
            SelectorView::All
        } else {
            SelectorView::Filters(filters)
        },
    );
    if filters.len() > 0 && relation_oid.0 == PG_ATTRIBUTE_RELATION_OID {
        match columns::table_of(generated, relation_oid) {
            Some(table) => match query_of(table, filters) {
                Some(query) => rows::in_order(
                    filtering(generated, table, filters).columns_answer(s, query),
                ),
                None => plain,
            },
            None => plain,
        }
    } else {
        plain
    }
}

/// The rows of a catalog that pass filters.
pub fn catalog_rows_matching_filters(
    generated: &GeneratedCatalog,
    s: &CatalogSnapshot,
    relation_oid: Oid,
    filters: &[CatalogRowFilter],
) -> (r: Vec<CatalogRow>)
    requires
        s@.wf(),
        s.lookups_agree(),
    ensures
        synthetic::row_views(r@) == rows_passing(*generated, s@, relation_oid, filters@),
{
    if filters.len() == 0 {
        return rows::catalog_rows(generated, s, relation_oid);
    }
    if relation_oid.0 == PG_ATTRIBUTE_RELATION_OID {
        match columns::static_catalog_by_relation_oid(generated, relation_oid) {
            Some(table) => match catalog_rows_matching_pg_attribute_filters(
                generated,
                s,
                table,
                filters,
            ) {
                Some(found) => return found,
                None => {},
            },
            None => {},
        }
    }
    rows::catalog_rows_matching_static(generated, s, relation_oid, RowSelector::Filters(filters))
}

pub open spec fn distinct_ids(rows: Seq<StaticCatalogRow>) -> bool {
    forall|i: int, j: int|
        0 <= i < j < rows.len() ==> (#[trigger] rows[i]).row_id != (#[trigger] rows[j]).row_id
}

/// Whether a compiled-in row passes filters as it is written just where it passes
/// them as it is read.
pub open spec fn passes_as_read(
    generated: GeneratedCatalog,
    table: StaticCatalogTable,
    filters: Seq<CatalogRowFilter>,
    i: int,
) -> bool {
    selectors::static_passes_all(generated, table, table.rows@[i], filters)
        == selectors::row_passes_all(
        table,
        static_rows::static_row(generated, table, table.rows@[i]),
        filters,
    )
}

/// Whether compiled-in rows pass filters as they are read. Only those of functions
/// are read otherwise than they are written.
pub open spec fn written_as_read(
    generated: GeneratedCatalog,
    table: StaticCatalogTable,
    filters: Seq<CatalogRowFilter>,
) -> bool {
    table.oid.0 == PG_PROC_RELATION_OID ==> forall|i: int|
        0 <= i < table.rows@.len() ==> #[trigger] passes_as_read(generated, table, filters, i)
}

proof fn lemma_written_row(
    generated: GeneratedCatalog,
    table: StaticCatalogTable,
    filters: Seq<CatalogRowFilter>,
    i: int,
)
    requires
        search::last_with(generated.tables@, columns::table_has(table.oid)) == Some(table),
        written_as_read(generated, table, filters),
        distinct_ids(table.rows@),
        0 <= i < table.rows@.len(),
    ensures
        static_rows::canonical_row(generated, table, table.rows@[i]) == Some(
            static_rows::static_row(generated, table, table.rows@[i]),
        ),
        filtering(generated, table, filters).wants_static(table.rows@[i]) == filtering(
            generated,
            table,
            filters,
        ).wants(static_rows::static_row(generated, table, table.rows@[i])),
{
    let row = table.rows@[i];
    let seen = static_rows::static_row(generated, table, row);
    search::only_element_is_first_and_last(table.rows@, static_rows::row_has(row.row_id), i);
    if table.oid.0 == PG_PROC_RELATION_OID {
        assert(passes_as_read(generated, table, filters, i));
    } else {
        assert forall|j: int| 0 <= j < filters.len() implies selectors::static_passes(
            generated,
            table,
            row,
            #[trigger] filters[j],
        ) == selectors::row_passes(table, seen, filters[j]) by {}
        assert(selectors::static_passes_all(generated, table, row, filters)
            == selectors::row_passes_all(table, seen, filters));
    }
}

pub(crate) proof fn lemma_compiled_among_all(
    generated: GeneratedCatalog,
    table: StaticCatalogTable,
    filters: Seq<CatalogRowFilter>,
    n: int,
)
    requires
        search::last_with(generated.tables@, columns::table_has(table.oid)) == Some(table),
        written_as_read(generated, table, filters),
        distinct_ids(table.rows@),
        0 <= n <= table.rows@.len(),
    ensures
        ({
            let request = filtering(generated, table, filters);
            let all = RequestView { generated, table, sel: SelectorView::All };
            let list = table.rows@.take(n);
            request.compiled(list) == request.chosen(all.compiled(list))
        }),
    decreases n,
{
    let request = filtering(generated, table, filters);
    let all = RequestView { generated, table, sel: SelectorView::All };
    let list = table.rows@.take(n);
    if n > 0 {
        let before = table.rows@.take(n - 1);
        let row = table.rows@[n - 1];
        assert(list.drop_last() =~= before);
        lemma_compiled_among_all(generated, table, filters, n - 1);
        lemma_written_row(generated, table, filters, n - 1);
        assert forall|i: int| 0 <= i < before.len() implies table.rows@.contains(
            #[trigger] before[i],
        ) by {
            assert(before[i] == table.rows@[i]);
        }
        counts::lemma_compiled(all, before);
        assert(!counts::compiled_ids(before).contains(row.row_id)) by {
            if counts::compiled_ids(before).contains(row.row_id) {
                let j = choose|j: int|
                    0 <= j < before.len() && (#[trigger] before[j]).row_id == row.row_id;
                assert(table.rows@[j].row_id == row.row_id);
            }
        }
        assert(!all.compiled(before).contains_key(row.row_id));
    }
    assert(request.compiled(list) =~= request.chosen(all.compiled(list)));
}

impl RequestView {
    /// All rows of the catalog.
    pub open spec fn everything(self) -> RequestView {
        RequestView { sel: SelectorView::All, ..self }
    }

    /// Whether no row that is asked for is replaced by one that is not.
    pub open spec fn gives_way(
        self,
        older: Map<u64, CatalogRowView>,
        newer: Map<u64, CatalogRowView>,
    ) -> bool {
        forall|id: u64| #[trigger]
            older.contains_key(id) && newer.contains_key(id) && self.wants(older[id])
                ==> self.wants(newer[id])
    }

    /// Whether a row, if there is one, replaces none that is asked for without
    /// being asked for itself.
    pub open spec fn gives_way_to_one(
        self,
        older: Map<u64, CatalogRowView>,
        row: Option<CatalogRowView>,
    ) -> bool {
        row matches Some(r) ==> older.contains_key(r.row_id) && self.wants(older[r.row_id])
            ==> self.wants(r)
    }

    /// The same of rows one after the other.
    pub open spec fn gives_way_to_each(
        self,
        older: Map<u64, CatalogRowView>,
        list: Seq<Option<CatalogRowView>>,
    ) -> bool
        decreases list.len(),
    {
        list.len() > 0 ==> {
            &&& self.gives_way_to_each(older, list.drop_last())
            &&& self.gives_way_to_one(
                self.everything().with_each(older, list.drop_last()),
                list.last(),
            )
        }
    }

    /// Whether, of the rows that come about one after the other, none that is
    /// asked for is replaced by one that is not. In the catalogs of columns and of
    /// descriptions, which rows follow depends on those before them, so none of
    /// these that decides on a row that is asked for may be filtered away.
    pub open spec fn replaces_none_asked_for(self, s: SnapshotView) -> bool {
        let generated = self.generated;
        let table = self.table;
        let all = self.everything();
        let compiled = all.compiled(table.rows@);
        let relation = table.oid.0;
        if relation == PG_NAMESPACE_RELATION_OID {
            let schema = synthetic::information_schema(generated, table);
            &&& self.gives_way_to_one(compiled, schema)
            &&& self.gives_way(
                all.with_one(compiled, schema),
                rows::record_rows::<NamespaceMeta>(s.namespaces),
            )
        } else if relation == PG_CLASS_RELATION_OID {
            let first = Some(synthetic::aggregate_index_class(table));
            let others = rows::index_class_rows(table);
            &&& self.gives_way_to_one(compiled, first)
            &&& self.gives_way_to_each(all.with_one(compiled, first), others)
            &&& self.gives_way(
                all.with_each(all.with_one(compiled, first), others),
                rows::record_rows::<RelationMeta>(s.relations),
            )
        } else if relation == PG_TYPE_RELATION_OID {
            let records = rows::record_rows::<TypeMeta>(s.types);
            let domains = rows::domain_rows(generated, table);
            let recorded = all.with_more(compiled, records);
            &&& self.gives_way(compiled, records)
            &&& self.gives_way_to_each(recorded, domains)
            &&& self.gives_way_to_each(
                all.with_each(recorded, domains),
                rows::rowtype_rows(generated, table),
            )
        } else if relation == PG_INDEX_RELATION_OID {
            let first = Some(synthetic::aggregate_index(table));
            let others = rows::index_rows(generated, table);
            &&& self.gives_way_to_one(compiled, first)
            &&& self.gives_way_to_each(all.with_one(compiled, first), others)
            &&& self.gives_way(
                all.with_each(all.with_one(compiled, first), others),
                rows::record_rows::<IndexMeta>(s.indexes),
            )
        } else if relation == PG_CONSTRAINT_RELATION_OID {
            self.gives_way(compiled, rows::record_rows::<ConstraintMeta>(s.constraints))
        } else if relation == PG_INIT_PRIVS_RELATION_OID {
            self.gives_way_to_one(compiled, Some(synthetic::catalog_privileges(table)))
        } else if relation == PG_TS_DICT_RELATION_OID {
            self.gives_way_to_one(compiled, Some(synthetic::english_dictionary(table)))
        } else if relation == PG_TS_CONFIG_RELATION_OID {
            self.gives_way_to_one(compiled, Some(synthetic::english_config(table)))
        } else if relation == PG_TS_CONFIG_MAP_RELATION_OID {
            self.gives_way_to_each(compiled, rows::each(synthetic::english_token_rows(table)))
        } else if relation == PG_TS_TEMPLATE_RELATION_OID {
            self.gives_way_to_one(compiled, Some(synthetic::snowball_template(table)))
        } else if relation == PG_PROC_RELATION_OID {
            let first = Some(synthetic::snowball_init(table));
            &&& self.gives_way_to_one(compiled, first)
            &&& self.gives_way_to_one(
                all.with_one(compiled, first),
                Some(synthetic::snowball_lexize(table)),
            )
        } else if relation == PG_INDEXES_RELATION_OID {
            self.gives_way_to_each(
                compiled,
                index_views::pg_indexes_rows(generated, s, table),
            )
        } else if relation == PG_DESCRIPTION_RELATION_OID {
            &&& self.keeps_what_decides(compiled)
            &&& self.gives_way_to_each(
                compiled,
                rows::proc_descriptions(
                    generated,
                    table,
                    rows::descriptions(generated, table, rows::in_order(compiled)),
                ),
            )
        } else if relation == PG_ATTRIBUTE_RELATION_OID {
            let records = rows::record_rows::<ColumnMeta>(s.columns);
            let recorded = all.with_more(compiled, records);
            &&& self.gives_way(compiled, records)
            &&& self.keeps_what_takes_places(recorded)
            &&& self.all_made_give_way(recorded)
        } else {
            true
        }
    }
}

proof fn lemma_one_is_picked(
    request: RequestView,
    older: Map<u64, CatalogRowView>,
    row: Option<CatalogRowView>,
)
    requires
        request.gives_way_to_one(older, row),
    ensures
        request.with_one(request.chosen(older), row) == request.chosen(
            request.everything().with_one(older, row),
        ),
{
    assert(request.with_one(request.chosen(older), row) =~= request.chosen(
        request.everything().with_one(older, row),
    ));
}

proof fn lemma_each_is_picked(
    request: RequestView,
    older: Map<u64, CatalogRowView>,
    list: Seq<Option<CatalogRowView>>,
)
    requires
        request.gives_way_to_each(older, list),
    ensures
        request.with_each(request.chosen(older), list) == request.chosen(
            request.everything().with_each(older, list),
        ),
    decreases list.len(),
{
    if list.len() > 0 {
        lemma_each_is_picked(request, older, list.drop_last());
        lemma_one_is_picked(
            request,
            request.everything().with_each(older, list.drop_last()),
            list.last(),
        );
    }
}

pub(crate) proof fn lemma_more_are_picked(
    request: RequestView,
    older: Map<u64, CatalogRowView>,
    newer: Map<u64, CatalogRowView>,
)
    requires
        request.gives_way(older, newer),
    ensures
        request.with_more(request.chosen(older), newer) == request.chosen(
            request.everything().with_more(older, newer),
        ),
{
    assert(request.with_more(request.chosen(older), newer) =~= request.chosen(
        request.everything().with_more(older, newer),
    ));
}

proof fn lemma_gathered_are_picked(request: RequestView, s: SnapshotView)
    requires
        request.replaces_none_asked_for(s),
        request.compiled(request.table.rows@) == request.chosen(
            request.everything().compiled(request.table.rows@),
        ),
    ensures
        request.gathered(s) == request.chosen(request.everything().gathered(s)),
{
    let generated = request.generated;
    let table = request.table;
    let all = request.everything();
    let compiled = all.compiled(table.rows@);
    let relation = table.oid.0;
    if relation == PG_NAMESPACE_RELATION_OID {
        let schema = synthetic::information_schema(generated, table);
        lemma_one_is_picked(request, compiled, schema);
        lemma_more_are_picked(
            request,
            all.with_one(compiled, schema),
            rows::record_rows::<NamespaceMeta>(s.namespaces),
        );
    } else if relation == PG_CLASS_RELATION_OID {
        let first = Some(synthetic::aggregate_index_class(table));
        let others = rows::index_class_rows(table);
        lemma_one_is_picked(request, compiled, first);
        lemma_each_is_picked(request, all.with_one(compiled, first), others);
        lemma_more_are_picked(
            request,
            all.with_each(all.with_one(compiled, first), others),
            rows::record_rows::<RelationMeta>(s.relations),
        );
    } else if relation == PG_TYPE_RELATION_OID {
        let records = rows::record_rows::<TypeMeta>(s.types);
        let domains = rows::domain_rows(generated, table);
        let recorded = all.with_more(compiled, records);
        lemma_more_are_picked(request, compiled, records);
        lemma_each_is_picked(request, recorded, domains);
        lemma_each_is_picked(
            request,
            all.with_each(recorded, domains),
            rows::rowtype_rows(generated, table),
        );
    } else if relation == PG_INDEX_RELATION_OID {
        let first = Some(synthetic::aggregate_index(table));
        let others = rows::index_rows(generated, table);
        lemma_one_is_picked(request, compiled, first);
        lemma_each_is_picked(request, all.with_one(compiled, first), others);
        lemma_more_are_picked(
            request,
            all.with_each(all.with_one(compiled, first), others),
            rows::record_rows::<IndexMeta>(s.indexes),
        );
    } else if relation == PG_CONSTRAINT_RELATION_OID {
        lemma_more_are_picked(
            request,
            compiled,
            rows::record_rows::<ConstraintMeta>(s.constraints),
        );
    } else if relation == PG_INIT_PRIVS_RELATION_OID {
        lemma_one_is_picked(request, compiled, Some(synthetic::catalog_privileges(table)));
    } else if relation == PG_TS_DICT_RELATION_OID {
        lemma_one_is_picked(request, compiled, Some(synthetic::english_dictionary(table)));
    } else if relation == PG_TS_CONFIG_RELATION_OID {
        lemma_one_is_picked(request, compiled, Some(synthetic::english_config(table)));
    } else if relation == PG_TS_CONFIG_MAP_RELATION_OID {
        lemma_each_is_picked(
            request,
            compiled,
            rows::each(synthetic::english_token_rows(table)),
        );
    } else if relation == PG_TS_TEMPLATE_RELATION_OID {
        lemma_one_is_picked(request, compiled, Some(synthetic::snowball_template(table)));
    } else if relation == PG_PROC_RELATION_OID {
        let first = Some(synthetic::snowball_init(table));
        lemma_one_is_picked(request, compiled, first);
        lemma_one_is_picked(
            request,
            all.with_one(compiled, first),
            Some(synthetic::snowball_lexize(table)),
        );
    } else if relation == PG_INDEXES_RELATION_OID {
        lemma_each_is_picked(
            request,
            compiled,
            index_views::pg_indexes_rows(generated, s, table),
        );
    } else if relation == PG_DESCRIPTION_RELATION_OID {
        let followed = rows::proc_descriptions(
            generated,
            table,
            rows::descriptions(generated, table, rows::in_order(compiled)),
        );
        description_filters::lemma_descriptions_are_picked(
            request,
            compiled,
            request.chosen(compiled),
        );
        lemma_each_is_picked(request, compiled, followed);
    } else if relation == PG_ATTRIBUTE_RELATION_OID {
        let records = rows::record_rows::<ColumnMeta>(s.columns);
        lemma_more_are_picked(request, compiled, records);
        column_filters::lemma_columns_are_picked(request, all.with_more(compiled, records));
    }
}

/// The rows of a catalog that pass filters are those of all its rows that pass
/// them, where no row that passes is replaced by one that does not, and none that
/// does not pass decides on one that does. Filters that name the relation of
/// columns stand in a law of their own.
pub proof fn filters_pick_among_all_rows(
    generated: GeneratedCatalog,
    s: SnapshotView,
    table: StaticCatalogTable,
    filters: Seq<CatalogRowFilter>,
)
    requires
        columns::table_of(generated, table.oid) == Some(table),
        search::last_with(generated.tables@, columns::table_has(table.oid)) == Some(table),
        written_as_read(generated, table, filters),
        distinct_ids(table.rows@),
        filtering(generated, table, filters).replaces_none_asked_for(s),
        table.oid.0 == PG_ATTRIBUTE_RELATION_OID ==> query_of(table, filters) is None,
    ensures
        ({
            let request = filtering(generated, table, filters);
            let all = request.everything();
            &&& rows::rows_asked_for(generated, s, table.oid, SelectorView::All)
                == rows::in_order(all.answer(s))
            &&& rows_passing(generated, s, table.oid, filters) == rows::in_order(
                request.chosen(all.answer(s)),
            )
        }),
{
    let request = filtering(generated, table, filters);
    let all = request.everything();
    let n = table.rows@.len() as int;
    assert(table.rows@.take(n) =~= table.rows@);
    lemma_compiled_among_all(generated, table, filters, n);
    lemma_gathered_are_picked(request, s);
    assert(request.answer(s) =~= request.chosen(all.answer(s)));
    if filters.len() == 0 {
        assert(request.chosen(all.answer(s)) =~= all.answer(s));
    }
}

} // verus!
