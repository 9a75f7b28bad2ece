//! The rows of a catalog come in the order of their identities.

use vstd::prelude::*;

use crate::catalog::catalog_indexes;
use crate::catalog::catalog_indexes::CatalogIndexView;
use crate::catalog::columns;
use crate::catalog::index_views;
use crate::catalog::meta::{ColumnMeta, TypeMeta};
use crate::catalog::model::{
    CatalogRowView, CatalogValueView, GeneratedCatalog, StaticCatalogColumn, StaticCatalogRow,
    StaticCatalogTable, PG_ATTRIBUTE_RELATION_OID, PG_CLASS_RELATION_OID,
    PG_DESCRIPTION_RELATION_OID, PG_INDEXES_RELATION_OID, PG_INDEX_RELATION_OID,
    PG_TS_CONFIG_MAP_RELATION_OID, PG_TYPE_RELATION_OID,
};
use crate::catalog::rows;
use crate::catalog::rows::{ColumnFilterView, ColumnScan, RequestView};
use crate::catalog::selectors::SelectorView;
use crate::catalog::snapshot::SnapshotView;
use crate::catalog::static_rows;
use crate::catalog::synthetic;
use crate::catalog::synthetic::SystemAttributeSpec;
use crate::ordered;
use crate::search;
use crate::types::Oid;

verus! {

/// Whether each row lies under its own identity and names its catalog.
pub open spec fn in_place(rows: Map<u64, CatalogRowView>, relation_oid: Oid) -> bool {
    forall|id: u64| #[trigger]
        rows.contains_key(id) ==> rows[id].row_id == id && rows[id].relation_oid == relation_oid
}

/// Whether each row that is there names its catalog.
spec fn all_of(list: Seq<Option<CatalogRowView>>, relation_oid: Oid) -> bool {
    forall|i: int|
        0 <= i < list.len() ==> (#[trigger] list[i] matches Some(row) ==> row.relation_oid
            == relation_oid)
}

/// Giving values to columns leaves the catalog of every row.
spec fn values_leave_the_catalog(table: StaticCatalogTable) -> bool {
    forall|row: CatalogRowView, list: Seq<(Seq<char>, CatalogValueView)>| #[trigger]
        columns::with_values(table, row, list).relation_oid == row.relation_oid
}

proof fn lemma_values_leave_the_catalog(table: StaticCatalogTable)
    ensures
        values_leave_the_catalog(table),
{
    assert forall|row: CatalogRowView, list: Seq<(Seq<char>, CatalogValueView)>| #[trigger]
        columns::with_values(table, row, list).relation_oid == row.relation_oid by {
        columns::values_keep_the_identity(table, row, list);
    }
}

proof fn lemma_named_rows(generated: GeneratedCatalog, table: StaticCatalogTable)
    ensures
        forall|row: StaticCatalogRow| #[trigger]
            static_rows::named_row(generated, table, row).relation_oid == table.oid,
        forall|row: StaticCatalogRow| #[trigger]
            static_rows::canonical_row(generated, table, row) matches Some(found)
                ==> found.relation_oid == table.oid,
{
    search::last_with_has(generated.tables@, columns::table_has(table.oid));
}

proof fn lemma_compiled(request: RequestView, list: Seq<StaticCatalogRow>)
    ensures
        in_place(request.compiled(list), request.table.oid),
    decreases list.len(),
{
    if list.len() > 0 {
        lemma_compiled(request, list.drop_last());
        lemma_named_rows(request.generated, request.table);
    }
}

proof fn lemma_each(
    request: RequestView,
    start: Map<u64, CatalogRowView>,
    list: Seq<Option<CatalogRowView>>,
)
    requires
        in_place(start, request.table.oid),
        all_of(list, request.table.oid),
    ensures
        in_place(request.with_each(start, list), request.table.oid),
    decreases list.len(),
{
    if list.len() > 0 {
        assert(list[list.len() - 1] == list.last());
        assert forall|i: int| 0 <= i < list.drop_last().len() implies (
        #[trigger] list.drop_last()[i] matches Some(row) ==> row.relation_oid
            == request.table.oid) by {
            assert(list.drop_last()[i] == list[i]);
        }
        lemma_each(request, start, list.drop_last());
    }
}

proof fn lemma_attribute_rows(generated: GeneratedCatalog, table: StaticCatalogTable)
    ensures
        forall|relation: StaticCatalogTable, column: StaticCatalogColumn, attnum: i16|
            (#[trigger] synthetic::attribute_row(
                generated,
                table,
                relation,
                column,
                attnum,
            )) matches Some(row) ==> row.relation_oid == table.oid,
        forall|relation: StaticCatalogTable, attribute: SystemAttributeSpec|
            (#[trigger] synthetic::system_attribute_row(
                generated,
                table,
                relation,
                attribute,
            )) matches Some(row) ==> row.relation_oid == table.oid,
{
    lemma_values_leave_the_catalog(table);
    lemma_named_rows(generated, table);
}

proof fn lemma_columns(
    request: RequestView,
    scan: ColumnScan,
    relation: StaticCatalogTable,
    wanted: ColumnFilterView,
    n: nat,
)
    requires
        in_place(scan.rows, request.table.oid),
    ensures
        in_place(request.with_columns(scan, relation, wanted, n).rows, request.table.oid),
        in_place(request.with_system_columns(scan, relation, wanted, n).rows, request.table.oid),
    decreases n,
{
    if n > 0 {
        lemma_columns(request, scan, relation, wanted, (n - 1) as nat);
        lemma_attribute_rows(request.generated, request.table);
    }
}

proof fn lemma_catalog_columns(request: RequestView, scan: ColumnScan, n: nat)
    requires
        in_place(scan.rows, request.table.oid),
    ensures
        in_place(request.with_catalog_columns(scan, n).rows, request.table.oid),
    decreases n,
{
    if n > 0 {
        lemma_catalog_columns(request, scan, (n - 1) as nat);
        let before = request.with_catalog_columns(scan, (n - 1) as nat);
        let relation = request.generated.tables@[n - 1];
        lemma_columns(
            request,
            before,
            relation,
            ColumnFilterView::any(),
            relation.columns@.len(),
        );
        lemma_columns(
            request,
            request.with_columns(
                before,
                relation,
                ColumnFilterView::any(),
                relation.columns@.len(),
            ),
            relation,
            ColumnFilterView::any(),
            synthetic::system_attributes().len(),
        );
    }
}

proof fn lemma_keys(
    request: RequestView,
    scan: ColumnScan,
    index: CatalogIndexView,
    wanted: ColumnFilterView,
    n: nat,
)
    requires
        in_place(scan.rows, request.table.oid),
    ensures
        in_place(request.with_keys(scan, index, wanted, n).rows, request.table.oid),
    decreases n,
{
    if n > 0 {
        lemma_keys(request, scan, index, wanted, (n - 1) as nat);
        lemma_attribute_rows(request.generated, request.table);
    }
}

proof fn lemma_index_columns(request: RequestView, scan: ColumnScan, n: nat)
    requires
        in_place(scan.rows, request.table.oid),
    ensures
        in_place(request.with_index_columns(scan, n).rows, request.table.oid),
    decreases n,
{
    if n > 0 {
        lemma_index_columns(request, scan, (n - 1) as nat);
        let index = catalog_indexes::all_indexes()[n - 1];
        lemma_keys(
            request,
            request.with_index_columns(scan, (n - 1) as nat),
            index,
            ColumnFilterView::any(),
            index.keys.len(),
        );
    }
}

/// The rows of a catalog, but for those laid over it, lie under their own
/// identities and name the catalog.
pub proof fn gathered_rows_are_in_place(request: RequestView, s: SnapshotView)
    requires
        s.wf(),
    ensures
        in_place(request.gathered(s), request.table.oid),
{
    let generated = request.generated;
    let table = request.table;
    let compiled = request.compiled(table.rows@);
    lemma_compiled(request, table.rows@);
    lemma_values_leave_the_catalog(table);
    lemma_named_rows(generated, table);
    if table.oid.0 == PG_CLASS_RELATION_OID {
        let start = request.with_one(compiled, Some(synthetic::aggregate_index_class(table)));
        lemma_each(request, start, rows::index_class_rows(table));
    } else if table.oid.0 == PG_ATTRIBUTE_RELATION_OID {
        let recorded = request.with_more(compiled, rows::record_rows::<ColumnMeta>(s.columns));
        let scan = ColumnScan {
            rows: recorded,
            taken: rows::places_of(generated, table, recorded),
        };
        lemma_catalog_columns(request, scan, generated.tables@.len());
        lemma_index_columns(
            request,
            request.with_catalog_columns(scan, generated.tables@.len()),
            catalog_indexes::all_indexes().len(),
        );
    } else if table.oid.0 == PG_TYPE_RELATION_OID {
        let recorded = request.with_more(compiled, rows::record_rows::<TypeMeta>(s.types));
        let domains = rows::domain_rows(generated, table);
        lemma_each(request, recorded, domains);
        lemma_each(
            request,
            request.with_each(recorded, domains),
            rows::rowtype_rows(generated, table),
        );
    } else if table.oid.0 == PG_INDEX_RELATION_OID {
        let start = request.with_one(compiled, Some(synthetic::aggregate_index(table)));
        lemma_each(request, start, rows::index_rows(generated, table));
    } else if table.oid.0 == PG_DESCRIPTION_RELATION_OID {
        lemma_each(
            request,
            compiled,
            rows::proc_descriptions(
                generated,
                table,
                rows::descriptions(generated, table, rows::in_order(compiled)),
            ),
        );
    } else if table.oid.0 == PG_INDEXES_RELATION_OID {
        lemma_each(request, compiled, index_views::pg_indexes_rows(generated, s, table));
    } else if table.oid.0 == PG_TS_CONFIG_MAP_RELATION_OID {
        lemma_each(request, compiled, rows::each(synthetic::english_token_rows(table)));
    }
}

/// The rows of a catalog that are asked for come in the order of their
/// identities, no identity comes twice, and each row names the catalog.
pub proof fn rows_come_in_order(
    generated: GeneratedCatalog,
    s: SnapshotView,
    relation_oid: Oid,
    sel: SelectorView,
)
    requires
        s.wf(),
    ensures
        ({
            let list = rows::rows_asked_for(generated, s, relation_oid, sel);
            &&& forall|i: int, j: int|
                0 <= i < j < list.len() ==> (#[trigger] list[i]).row_id < (
                #[trigger] list[j]).row_id
            &&& forall|i: int|
                0 <= i < list.len() ==> (#[trigger] list[i]).relation_oid == relation_oid
        }),
{
    match columns::table_of(generated, relation_oid) {
        Some(table) => {
            search::first_index_is_first(generated.tables@, columns::table_has(relation_oid));
            let request = RequestView { generated, table, sel };
            gathered_rows_are_in_place(request, s);
            let answer = request.answer(s);
            assert(in_place(answer, relation_oid));
            let ids = ordered::sorted_ids(answer.dom());
            ordered::sorted_ids_list_the_set(answer.dom());
            let list = rows::in_order(answer);
            assert forall|i: int| 0 <= i < list.len() implies (#[trigger] list[i]).row_id == ids[i]
                && list[i].relation_oid == relation_oid by {
                assert(ids.contains(ids[i]));
                assert(answer.contains_key(ids[i]));
            }
        },
        None => {},
    }
}

} // verus!
