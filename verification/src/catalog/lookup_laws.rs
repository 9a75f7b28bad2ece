//! What the lookups give back of the rows that were put: relations, columns,
//! types and indexes.

use vstd::prelude::*;

use crate::catalog::draft::DraftView;
use crate::catalog::index;
use crate::catalog::lookups;
use crate::catalog::meta;
use crate::catalog::model;
use crate::catalog::model::{
    CatalogRowView, GeneratedCatalog, StaticCatalogTable, PG_ATTRIBUTE_RELATION_OID,
    PG_CLASS_RELATION_OID, PG_INDEX_RELATION_OID, PG_TYPE_RELATION_OID,
};
use crate::catalog::nodes;
use crate::catalog::relations;
use crate::catalog::snapshot;
use crate::catalog::snapshot::SnapshotView;
use crate::catalog::type_lookups;
use crate::types::Oid;

verus! {

/// Whether no record with a property has a greater identity than one that has
/// it.
pub open spec fn is_last<V>(m: Map<u64, V>, p: spec_fn(V) -> bool, id: u64) -> bool {
    forall|k: u64| #[trigger] m.contains_key(k) && p(m[k]) ==> k <= id
}

/// Whether no record but one has a property.
pub open spec fn is_only<V>(m: Map<u64, V>, p: spec_fn(V) -> bool, id: u64) -> bool {
    forall|k: u64| #[trigger] m.contains_key(k) && p(m[k]) ==> k == id
}

pub(crate) proof fn lemma_last_is_found<V>(m: Map<u64, V>, p: spec_fn(V) -> bool, id: u64)
    requires
        m.contains_key(id),
        p(m[id]),
        is_last(m, p, id),
    ensures
        index::last_where(m, p) == Some(m[id]),
{
    index::ids_where_are_the_matches(m, p);
    match index::last_of(index::ids_where(m, p)) {
        Some(found) => {
            assert(m.contains_key(found) && p(m[found]));
            assert(m.contains_key(id) && p(m[id]));
        },
        None => {},
    }
}

pub(crate) proof fn lemma_none_is_found<V>(m: Map<u64, V>, p: spec_fn(V) -> bool)
    requires
        forall|k: u64| #[trigger] m.contains_key(k) ==> !p(m[k]),
    ensures
        index::last_where(m, p) is None,
{
    index::ids_where_are_the_matches(m, p);
}

/// A relation that was put is found by its identifier, unless one with the same
/// identifier comes behind it.
pub proof fn a_put_relation_is_found_by_its_identifier(
    d: DraftView,
    generated: GeneratedCatalog,
    table: StaticCatalogTable,
    row: CatalogRowView,
    s: SnapshotView,
)
    requires
        table.oid.0 == PG_CLASS_RELATION_OID,
        meta::relation_of(generated, table, row, row.row_id) is Some,
        ({
            let relation = meta::relation_of(generated, table, row, row.row_id)->0;
            is_last(
                d.with_row(generated, table, row).applied(s).relations,
                index::keyed(snapshot::relation_oid_key(), relation.oid.0),
                row.row_id,
            )
        }),
    ensures
        ({
            let relation = meta::relation_of(generated, table, row, row.row_id)->0;
            let now = d.with_row(generated, table, row).applied(s);
            &&& relations::relation_with(generated, now, relation.oid) == Some(
                relations::relation_of_meta(now, relation),
            )
            &&& relations::summary_with(generated, now, relation.oid) == Some(
                relations::summary_of_meta(now, relation),
            )
        }),
{
    let relation = meta::relation_of(generated, table, row, row.row_id)->0;
    let now = d.with_row(generated, table, row).applied(s);
    lemma_last_is_found(
        now.relations,
        index::keyed(snapshot::relation_oid_key(), relation.oid.0),
        row.row_id,
    );
}

/// A relation that was put is found by its name in its schema, unless one with
/// the same name there comes behind it.
pub proof fn a_put_relation_is_found_by_its_name(
    d: DraftView,
    generated: GeneratedCatalog,
    table: StaticCatalogTable,
    row: CatalogRowView,
    s: SnapshotView,
)
    requires
        table.oid.0 == PG_CLASS_RELATION_OID,
        meta::relation_of(generated, table, row, row.row_id) is Some,
        ({
            let relation = meta::relation_of(generated, table, row, row.row_id)->0;
            is_last(
                d.with_row(generated, table, row).applied(s).relations,
                index::labelled(
                    snapshot::relation_label(),
                    relation.namespace.0,
                    model::normalized(relation.name),
                ),
                row.row_id,
            )
        }),
    ensures
        ({
            let relation = meta::relation_of(generated, table, row, row.row_id)->0;
            let now = d.with_row(generated, table, row).applied(s);
            &&& relations::relation_in(generated, now, relation.name, relation.namespace) == Some(
                relations::relation_of_meta(now, relation),
            )
            &&& relations::oid_in(generated, now, relation.name, relation.namespace) == Some(
                relation.oid,
            )
        }),
{
    let relation = meta::relation_of(generated, table, row, row.row_id)->0;
    let now = d.with_row(generated, table, row).applied(s);
    lemma_last_is_found(
        now.relations,
        index::labelled(
            snapshot::relation_label(),
            relation.namespace.0,
            model::normalized(relation.name),
        ),
        row.row_id,
    );
}

/// A relation that was removed is recorded no longer under its identifier, if it
/// was the only one with it.
pub proof fn a_removed_relation_is_not_recorded(
    d: DraftView,
    id: u64,
    oid: Oid,
    s: SnapshotView,
)
    requires
        is_only(d.applied(s).relations, index::keyed(snapshot::relation_oid_key(), oid.0), id),
    ensures
        d.without_row(PG_CLASS_RELATION_OID, id).applied(s).relation_with_oid(oid) is None,
{
    let p = index::keyed(snapshot::relation_oid_key(), oid.0);
    let before = d.applied(s).relations;
    let now = d.without_row(PG_CLASS_RELATION_OID, id).applied(s).relations;
    assert forall|k: u64| #[trigger] now.contains_key(k) implies !p(now[k]) by {
        assert(k != id);
        assert(before.contains_key(k) && before[k] == now[k]);
    }
    lemma_none_is_found(now, p);
}

/// A column that was put is found by its place in its relation, unless one at the
/// same place comes behind it.
pub proof fn a_put_column_is_found(
    d: DraftView,
    generated: GeneratedCatalog,
    table: StaticCatalogTable,
    row: CatalogRowView,
    s: SnapshotView,
)
    requires
        table.oid.0 == PG_ATTRIBUTE_RELATION_OID,
        meta::column_of(generated, table, row, row.row_id) is Some,
        ({
            let column = meta::column_of(generated, table, row, row.row_id)->0;
            &&& column.attnum > 0
            &&& is_last(
                d.with_row(generated, table, row).applied(s).columns,
                index::column_at_place(column.relation_oid.0, column.attnum),
                row.row_id,
            )
        }),
    ensures
        ({
            let column = meta::column_of(generated, table, row, row.row_id)->0;
            let now = d.with_row(generated, table, row).applied(s);
            lookups::column_found(generated, now, column.relation_oid, column.attnum) == Some(
                column.record,
            )
        }),
{
    let column = meta::column_of(generated, table, row, row.row_id)->0;
    let now = d.with_row(generated, table, row).applied(s);
    lemma_last_is_found(
        now.columns,
        index::column_at_place(column.relation_oid.0, column.attnum),
        row.row_id,
    );
}

/// A type that was put is found by its identifier, unless a compiled-in type has
/// it or one with the same identifier comes behind it.
pub proof fn a_put_type_is_found(
    d: DraftView,
    generated: GeneratedCatalog,
    table: StaticCatalogTable,
    row: CatalogRowView,
    s: SnapshotView,
)
    requires
        table.oid.0 == PG_TYPE_RELATION_OID,
        meta::type_of(generated, table, row, row.row_id) is Some,
        ({
            let record = meta::type_of(generated, table, row, row.row_id)->0.record;
            &&& nodes::builtin_type(generated, record.oid) is None
            &&& is_last(
                d.with_row(generated, table, row).applied(s).types,
                index::keyed(snapshot::type_oid_key(), record.oid.0),
                row.row_id,
            )
        }),
    ensures
        ({
            let record = meta::type_of(generated, table, row, row.row_id)->0.record;
            let now = d.with_row(generated, table, row).applied(s);
            type_lookups::type_found(generated, now, record.oid) == Some(record)
        }),
{
    let record = meta::type_of(generated, table, row, row.row_id)->0.record;
    let now = d.with_row(generated, table, row).applied(s);
    lemma_last_is_found(
        now.types,
        index::keyed(snapshot::type_oid_key(), record.oid.0),
        row.row_id,
    );
}

/// An index that was put is found by its identifier, unless one with the same
/// identifier comes behind it.
pub proof fn a_put_index_is_found(
    d: DraftView,
    generated: GeneratedCatalog,
    table: StaticCatalogTable,
    row: CatalogRowView,
    s: SnapshotView,
)
    requires
        table.oid.0 == PG_INDEX_RELATION_OID,
        meta::index_of(generated, row, row.row_id) is Some,
        ({
            let record = meta::index_of(generated, row, row.row_id)->0.record;
            is_last(
                d.with_row(generated, table, row).applied(s).indexes,
                index::keyed(snapshot::index_oid_key(), record.index_oid.0),
                row.row_id,
            )
        }),
    ensures
        ({
            let record = meta::index_of(generated, row, row.row_id)->0.record;
            let now = d.with_row(generated, table, row).applied(s);
            lookups::index_found(generated, now, record.index_oid) == Some(record)
        }),
{
    let record = meta::index_of(generated, row, row.row_id)->0.record;
    let now = d.with_row(generated, table, row).applied(s);
    lemma_last_is_found(
        now.indexes,
        index::keyed(snapshot::index_oid_key(), record.index_oid.0),
        row.row_id,
    );
}

} // verus!
