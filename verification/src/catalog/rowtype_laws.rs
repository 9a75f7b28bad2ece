//! The row types of compiled-in catalogs that have none of their own.

use vstd::prelude::*;

use crate::catalog::columns;
use crate::catalog::index;
use crate::catalog::meta;
use crate::catalog::meta::TypeMeta;
use crate::catalog::model::{
    CatalogRowView, CatalogTypeRecordView, GeneratedCatalog, StaticCatalogTable, INVALID_OID,
    PG_CATALOG_NAMESPACE_OID, PG_TYPE_RELATION_OID,
};
use crate::catalog::row_order;
use crate::catalog::rows;
use crate::catalog::rows::RequestView;
use crate::catalog::selectors::SelectorView;
use crate::catalog::snapshot;
use crate::catalog::snapshot::SnapshotView;
use crate::catalog::static_rows;
use crate::catalog::synthetic;
use crate::catalog::type_lookups;
use crate::catalog::validity;
use crate::ordered;
use crate::search;
use crate::types::Oid;

verus! {

/// Whether nothing that is recorded, and no row laid over the catalog of types,
/// may be taken for the row type of a catalog.
pub open spec fn nothing_stands_in(
    generated: GeneratedCatalog,
    s: SnapshotView,
    catalog: StaticCatalogTable,
) -> bool {
    let rowtype = static_rows::rowtype_of(catalog);
    &&& s.type_with_oid(rowtype) is None
    &&& s.type_named(catalog.name@, Oid(PG_CATALOG_NAMESPACE_OID)) is None
    &&& match columns::table_of(generated, Oid(PG_TYPE_RELATION_OID)) {
        Some(table) => {
            let recorded = rows::record_rows::<TypeMeta>(s.types);
            &&& forall|id: u64| #[trigger]
                recorded.contains_key(id) && id != rowtype.0 as u64 ==> !validity::tells_it(
                    generated,
                    table,
                    recorded[id],
                    catalog,
                )
            &&& forall|id: u64| #[trigger]
                s.compat.rows.contains_key((PG_TYPE_RELATION_OID, id)) ==> id != rowtype.0 as u64
                    && !validity::tells_it(
                    generated,
                    table,
                    s.compat.rows[(PG_TYPE_RELATION_OID, id)],
                    catalog,
                )
        },
        None => true,
    }
}

spec fn type_request(generated: GeneratedCatalog, table: StaticCatalogTable) -> RequestView {
    RequestView { generated, table, sel: SelectorView::All }
}

/// Whether each row is one of the others or one of two further maps.
spec fn from_either(
    rows: Map<u64, CatalogRowView>,
    others: Map<u64, CatalogRowView>,
    records: Map<u64, CatalogRowView>,
) -> bool {
    forall|id: u64| #[trigger]
        rows.contains_key(id) ==> (others.contains_key(id) && rows[id] == others[id]) || (
        records.contains_key(id) && rows[id] == records[id])
}

proof fn lemma_each_from_either(
    request: RequestView,
    a: Map<u64, CatalogRowView>,
    b: Map<u64, CatalogRowView>,
    records: Map<u64, CatalogRowView>,
    list: Seq<Option<CatalogRowView>>,
)
    requires
        from_either(a, b, records),
    ensures
        from_either(request.with_each(a, list), request.with_each(b, list), records),
    decreases list.len(),
{
    if list.len() > 0 {
        lemma_each_from_either(request, a, b, records, list.drop_last());
    }
}

/// The row that is made for a catalog is the one under the identity of its row
/// type.
proof fn lemma_made_row(
    generated: GeneratedCatalog,
    table: StaticCatalogTable,
    start: Map<u64, CatalogRowView>,
    n: nat,
    at: int,
)
    requires
        validity::catalogs_differ(generated.tables@),
        synthetic::rowtype_template(generated, table) is Some,
        n <= generated.tables@.len(),
        0 <= at < n,
    ensures
        ({
            let catalog = generated.tables@[at];
            let id = static_rows::rowtype_of(catalog).0 as u64;
            let made = type_request(generated, table).with_each(
                start,
                rows::rowtype_rows(generated, table).take(n as int),
            );
            &&& made.contains_key(id)
            &&& Some(made[id]) == synthetic::relation_rowtype(generated, table, catalog)
        }),
    decreases n,
{
    let request = type_request(generated, table);
    let all = rows::rowtype_rows(generated, table);
    let list = all.take(n as int);
    let before = all.take(n - 1);
    let catalog = generated.tables@[at];
    let id = static_rows::rowtype_of(catalog).0 as u64;
    assert(list.drop_last() =~= before);
    let other = generated.tables@[n - 1];
    let row = synthetic::relation_rowtype(generated, table, other)->0;
    assert(list.last() == Some(row));
    columns::values_keep_the_identity(
        table,
        CatalogRowView {
            row_id: static_rows::rowtype_of(other).0 as u64,
            ..static_rows::named_row(
                generated,
                table,
                synthetic::rowtype_template(generated, table)->0,
            )
        },
        synthetic::rowtype_columns(other),
    );
    assert(row.row_id == static_rows::rowtype_of(other).0 as u64);
    if at < n - 1 {
        lemma_made_row(generated, table, start, (n - 1) as nat, at);
        assert(validity::differ(catalog, other));
        assert(static_rows::rowtype_of(catalog).0 != static_rows::rowtype_of(other).0);
    }
}

/// What the row that is made for a catalog tells, if it tells a type.
proof fn lemma_made_row_tells(
    generated: GeneratedCatalog,
    table: StaticCatalogTable,
    catalog: StaticCatalogTable,
)
    requires
        columns::table_of(generated, Oid(PG_TYPE_RELATION_OID)) == Some(table),
        validity::rowtypes_start_right(generated),
        synthetic::rowtype_template(generated, table) is Some,
    ensures
        ({
            let row = synthetic::relation_rowtype(generated, table, catalog)->0;
            type_lookups::type_of_row(generated, table, row) matches Some(record)
                ==> is_the_rowtype(record, catalog)
        }),
{
    let template = synthetic::rowtype_template(generated, table)->0;
    let named = static_rows::named_row(generated, table, template);
    let base = CatalogRowView { row_id: static_rows::rowtype_of(catalog).0 as u64, ..named };
    let list = synthetic::rowtype_columns(catalog);
    reveal_strlit("oid");
    reveal_strlit("typname");
    reveal_strlit("typnamespace");
    reveal_strlit("typowner");
    reveal_strlit("typrelid");
    reveal_strlit("typelem");
    reveal_strlit("typarray");
    reveal_strlit("typtype");
    reveal_strlit("typcategory");
    assert("oid"@.len() == 3 && "typnamespace"@.len() == 12 && "typcategory"@.len() == 11);
    assert("typname"@.len() == 7 && "typelem"@.len() == 7 && "typtype"@.len() == 7);
    assert("typrelid"@.len() == 8 && "typarray"@.len() == 8 && "typowner"@.len() == 8);
    assert("typname"@[3] == 'n' && "typelem"@[3] == 'e' && "typtype"@[3] == 't');
    assert("typrelid"@[3] == 'r' && "typarray"@[3] == 'a' && "typowner"@[3] == 'o');
    columns::assigned_columns_read_back(table, base, list, "oid"@);
    columns::assigned_columns_read_back(table, base, list, "typname"@);
    columns::assigned_columns_read_back(table, base, list, "typnamespace"@);
    columns::assigned_columns_read_back(table, base, list, "typrelid"@);
    columns::assigned_columns_read_back(table, base, list, "typtype"@);
    columns::assigned_columns_read_back(table, base, list, "typcategory"@);
    columns::the_last_assignment_counts(
        list,
        "oid"@,
        columns::row_value(table, base, "oid"@)->0,
        0,
    );
    columns::the_last_assignment_counts(
        list,
        "typname"@,
        columns::row_value(table, base, "typname"@)->0,
        1,
    );
    columns::the_last_assignment_counts(
        list,
        "typnamespace"@,
        columns::row_value(table, base, "typnamespace"@)->0,
        2,
    );
    columns::the_last_assignment_counts(
        list,
        "typrelid"@,
        columns::row_value(table, base, "typrelid"@)->0,
        4,
    );
    columns::other_assignments_do_not_count(
        list,
        "typtype"@,
        columns::row_value(table, base, "typtype"@)->0,
    );
    columns::other_assignments_do_not_count(
        list,
        "typcategory"@,
        columns::row_value(table, base, "typcategory"@)->0,
    );
    assert(columns::row_value(table, base, "typtype"@) == columns::row_value(
        table,
        named,
        "typtype"@,
    ));
    assert(columns::row_value(table, base, "typcategory"@) == columns::row_value(
        table,
        named,
        "typcategory"@,
    ));
}

/// Whether a type is the row type of a catalog: a composite type of the schema
/// of the catalogs that names the catalog.
pub open spec fn is_the_rowtype(
    record: CatalogTypeRecordView,
    catalog: StaticCatalogTable,
) -> bool {
    &&& record.oid == static_rows::rowtype_of(catalog)
    &&& record.name == catalog.name@
    &&& record.namespace == Oid(PG_CATALOG_NAMESPACE_OID)
    &&& record.typtype == 99
    &&& record.typcategory == 67
    &&& record.typrelid == catalog.oid
}

/// Every row of the catalog of types either is the one that is made for a
/// catalog, or tells nothing that may be taken for its row type.
proof fn lemma_type_rows(
    generated: GeneratedCatalog,
    s: SnapshotView,
    table: StaticCatalogTable,
    at: int,
)
    requires
        generated.wf(),
        s.wf(),
        columns::table_of(generated, Oid(PG_TYPE_RELATION_OID)) == Some(table),
        0 <= at < generated.tables@.len(),
        generated.tables@[at].rowtype_oid.0 == INVALID_OID,
        nothing_stands_in(generated, s, generated.tables@[at]),
    ensures
        ({
            let catalog = generated.tables@[at];
            let rowtype = static_rows::rowtype_of(catalog).0 as u64;
            let answer = type_request(generated, table).answer(s);
            forall|id: u64| #[trigger]
                answer.contains_key(id) ==> if id == rowtype {
                    Some(answer[id]) == synthetic::relation_rowtype(generated, table, catalog)
                } else {
                    !validity::tells_it(generated, table, answer[id], catalog)
                }
        }),
{
    let catalog = generated.tables@[at];
    let rowtype = static_rows::rowtype_of(catalog).0 as u64;
    let request = type_request(generated, table);
    let empty = SnapshotView::empty(0);
    search::first_index_is_first(
        generated.tables@,
        columns::table_has(Oid(PG_TYPE_RELATION_OID)),
    );
    validity::a_catalog_is_the_only_one(generated, Oid(PG_TYPE_RELATION_OID));
    let compiled = request.compiled(table.rows@);
    let records = rows::record_rows::<TypeMeta>(s.types);
    let none = rows::record_rows::<TypeMeta>(empty.types);
    let domains = rows::domain_rows(generated, table);
    let rowtypes = rows::rowtype_rows(generated, table);
    let seen = request.with_more(compiled, records);
    let first = request.with_more(compiled, none);
    assert(from_either(seen, first, records));
    lemma_each_from_either(request, seen, first, records, domains);
    lemma_each_from_either(
        request,
        request.with_each(seen, domains),
        request.with_each(first, domains),
        records,
        rowtypes,
    );
    assert(from_either(request.gathered(s), request.gathered(empty), records));
    assert(rowtypes.take(rowtypes.len() as int) =~= rowtypes);
    lemma_made_row(
        generated,
        table,
        request.with_each(seen, domains),
        generated.tables@.len(),
        at,
    );
    let answer = request.answer(s);
    let first_answer = request.answer(empty);
    assert(first_answer =~= request.gathered(empty));
    assert(empty.wf());
    row_order::gathered_rows_are_in_place(request, empty);
    let list = validity::first_type_rows(generated);
    let ids = ordered::sorted_ids(first_answer.dom());
    ordered::sorted_ids_list_the_set(first_answer.dom());
    assert forall|id: u64| #[trigger] answer.contains_key(id) implies if id == rowtype {
        Some(answer[id]) == synthetic::relation_rowtype(generated, table, catalog)
    } else {
        !validity::tells_it(generated, table, answer[id], catalog)
    } by {
        if s.compat.rows.contains_key((PG_TYPE_RELATION_OID, id)) {
        } else if id != rowtype {
            assert(request.gathered(s).contains_key(id));
            if first_answer.contains_key(id) && first_answer[id] == answer[id] {
                assert(ids.contains(id));
                let k = choose|k: int| 0 <= k < ids.len() && ids[k] == id;
                assert(list[k] == answer[id]);
                assert(validity::leaves_it_alone(
                    generated,
                    table,
                    list[k],
                    generated.tables@[at],
                ));
                assert(answer[id].row_id == id);
            } else {
                assert(records.contains_key(id) && answer[id] == records[id]);
            }
        }
    }
}

proof fn lemma_same_reading(
    list: Seq<CatalogRowView>,
    f: spec_fn(CatalogRowView) -> Option<CatalogTypeRecordView>,
    g: spec_fn(CatalogRowView) -> Option<CatalogTypeRecordView>,
    catalog: StaticCatalogTable,
)
    requires
        forall|k: int| 0 <= k < list.len() ==> f(#[trigger] list[k]) == g(list[k]),
        forall|k: int|
            0 <= k < list.len() ==> (f(#[trigger] list[k]) matches Some(record) ==> is_the_rowtype(
                record,
                catalog,
            )),
    ensures
        search::first_some(list, f) == search::first_some(list, g),
        search::first_some(list, f) matches Some(record) ==> is_the_rowtype(record, catalog),
    decreases list.len(),
{
    if list.len() > 0 {
        assert(f(list[0]) == g(list[0]));
        let rest = list.drop_first();
        assert forall|k: int| 0 <= k < rest.len() implies f(#[trigger] rest[k]) == g(rest[k])
            && (f(rest[k]) matches Some(record) ==> is_the_rowtype(record, catalog)) by {
            assert(rest[k] == list[k + 1]);
        }
        lemma_same_reading(rest, f, g, catalog);
    }
}

/// In a fresh state nothing stands in for the row type of a catalog.
pub proof fn nothing_stands_in_at_first(
    generated: GeneratedCatalog,
    generation: u64,
    catalog: StaticCatalogTable,
)
    ensures
        nothing_stands_in(generated, SnapshotView::empty(generation), catalog),
{
    let s = SnapshotView::empty(generation);
    let rowtype = static_rows::rowtype_of(catalog);
    index::ids_where_are_the_matches(s.types, index::keyed(snapshot::type_oid_key(), rowtype.0));
    index::ids_where_are_the_matches(
        s.types,
        index::labelled(
            snapshot::type_label(),
            PG_CATALOG_NAMESPACE_OID,
            meta::canonical_type_name(catalog.name@),
        ),
    );
}

/// A compiled-in catalog without a row type of its own has one that is made for
/// it: by its identifier and by the name of the catalog the same type is found, a
/// composite type of the schema of the catalogs that names the catalog. Left out
/// are states in which something else that is recorded or laid over the catalog
/// of types takes its identifier or its name.
pub proof fn a_catalog_has_a_row_type(
    generated: GeneratedCatalog,
    s: SnapshotView,
    catalog: StaticCatalogTable,
    name: Seq<char>,
)
    requires
        generated.wf(),
        s.wf(),
        generated.tables@.contains(catalog),
        catalog.rowtype_oid.0 == INVALID_OID,
        meta::canonical_type_name(name) == catalog.name@,
        nothing_stands_in(generated, s, catalog),
    ensures
        ({
            let rowtype = static_rows::rowtype_of(catalog);
            let found = type_lookups::type_found(generated, s, rowtype);
            &&& rowtype.0 != INVALID_OID
            &&& found matches Some(record) && is_the_rowtype(record, catalog)
            &&& type_lookups::type_in(
                generated,
                s,
                meta::canonical_type_name(name),
                Oid(PG_CATALOG_NAMESPACE_OID),
            ) == found
        }),
{
    let tables = generated.tables@;
    let at = choose|at: int| 0 <= at < tables.len() && tables[at] == catalog;
    let rowtype = static_rows::rowtype_of(catalog);
    let oid = catalog.oid.0;
    assert(0xF000_0000u32 | oid != 0) by (bit_vector);
    assert(rowtype.0 != INVALID_OID);
    assert forall|j: int| 0 <= j < at implies validity::differ(#[trigger] tables[j], catalog) by {
        assert(validity::differ(tables[j], tables[at]));
    }
    search::first_index_at(tables, type_lookups::rowtype_is(rowtype), at);
    search::first_index_at(tables, columns::table_is(catalog.name@), at);
    assert(columns::table_named(generated, catalog.name@) == Some(catalog));
    let namespace = Oid(PG_CATALOG_NAMESPACE_OID);
    match columns::table_of(generated, Oid(PG_TYPE_RELATION_OID)) {
        Some(table) => {
            lemma_type_rows(generated, s, table, at);
            validity::a_catalog_is_the_only_one(generated, Oid(PG_TYPE_RELATION_OID));
            search::first_index_is_first(tables, columns::table_has(Oid(PG_TYPE_RELATION_OID)));
            lemma_made_row_tells(generated, table, catalog);
            let answer = type_request(generated, table).answer(s);
            let ids = ordered::sorted_ids(answer.dom());
            ordered::sorted_ids_list_the_set(answer.dom());
            let list = rows::in_order(answer);
            let f = type_lookups::type_with(generated, table, rowtype);
            let g = type_lookups::type_named(generated, table, catalog.name@, namespace);
            assert forall|k: int| 0 <= k < list.len() implies f(#[trigger] list[k]) == g(list[k])
                && (f(list[k]) matches Some(record) ==> is_the_rowtype(record, catalog)) by {
                assert(ids.contains(ids[k]));
                assert(answer.contains_key(ids[k]));
            }
            lemma_same_reading(list, f, g, catalog);
        },
        None => {},
    }
}

} // verus!
