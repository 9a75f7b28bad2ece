//! What lookups tell of relations, their keys and columns, and of enumerations.

use vstd::prelude::*;

use crate::catalog::columns;
use crate::catalog::found_laws;
use crate::catalog::index;
use crate::catalog::lookups;
use crate::catalog::meta;
use crate::catalog::meta::ConstraintMetaView;
use crate::catalog::model;
use crate::catalog::model::{
    CatalogRowView, CatalogValueView, ColumnRecordView, GeneratedCatalog, RelationRecordView,
    StaticCatalogTable,
};
use crate::catalog::relation_laws;
use crate::catalog::relations;
use crate::catalog::row_laws;
use crate::catalog::rows;
use crate::catalog::rows::RequestView;
use crate::catalog::selectors;
use crate::catalog::selectors::SelectorView;
use crate::catalog::snapshot;
use crate::catalog::snapshot::SnapshotView;
use crate::catalog::type_laws;
use crate::catalog::type_lookups;
use crate::ordered;
use crate::search;
use crate::stable;
use crate::types::Oid;

verus! {

/// The rows that are asked for are rows that the question selects, in the order of
/// their identities.
pub proof fn rows_asked_for_are_selected(
    generated: GeneratedCatalog,
    s: SnapshotView,
    table: StaticCatalogTable,
    sel: SelectorView,
)
    requires
        columns::table_of(generated, table.oid) == Some(table),
    ensures
        forall|i: int|
            0 <= i < rows::rows_asked_for(generated, s, table.oid, sel).len()
                ==> selectors::selects(
                generated,
                table,
                #[trigger] rows::rows_asked_for(generated, s, table.oid, sel)[i],
                sel,
            ),
{
    let request = RequestView { generated, table, sel };
    let answer = request.answer(s);
    let ids = ordered::sorted_ids(answer.dom());
    ordered::sorted_ids_list_the_set(answer.dom());
    let list = rows::rows_asked_for(generated, s, table.oid, sel);
    assert forall|i: int| 0 <= i < list.len() implies selectors::selects(
        generated,
        table,
        #[trigger] list[i],
        sel,
    ) by {
        assert(ids.contains(ids[i]));
        assert(answer.contains_key(ids[i]));
    }
}

proof fn lemma_table(generated: GeneratedCatalog, oid: Oid)
    ensures
        columns::table_of(generated, oid) matches Some(table) ==> table.oid == oid,
{
    found_laws::what_is_compiled_in_is_found(generated, oid);
}

/// A relation that is found by an identifier has it, and so has what is told of it in
/// short.
pub proof fn a_relation_found_has_the_identifier(
    generated: GeneratedCatalog,
    s: SnapshotView,
    oid: Oid,
)
    ensures
        relations::relation_with(generated, s, oid) matches Some(r) ==> r.oid == oid,
        relations::summary_with(generated, s, oid) matches Some(r) ==> r.oid == oid,
        relations::relation_with(generated, s, oid) is Some <==> relations::summary_with(
            generated,
            s,
            oid,
        ) is Some,
{
    index::ids_where_are_the_matches(
        s.relations,
        index::keyed(snapshot::relation_oid_key(), oid.0),
    );
    let class = Oid(1259);
    lemma_table(generated, class);
    match columns::table_of(generated, class) {
        Some(table) => {
            rows_asked_for_are_selected(generated, s, table, SelectorView::ClassWithOid(oid));
            let list = rows::rows_asked_for(
                generated,
                s,
                class,
                SelectorView::ClassWithOid(oid),
            );
            if list.len() > 0 {
                assert(selectors::selects(
                    generated,
                    table,
                    list[0],
                    SelectorView::ClassWithOid(oid),
                ));
            }
        },
        None => {},
    }
}

/// A relation that is recorded in a schema is told alike by its identifier, in short
/// and in full.
pub proof fn a_recorded_relation_is_told_alike(
    generated: GeneratedCatalog,
    s: SnapshotView,
    name: Seq<char>,
    namespace: Oid,
)
    requires
        s.relation_named(name, namespace) is Some,
    ensures
        ({
            let full = relations::relation_in(generated, s, name, namespace);
            let short = relations::summary_in(generated, s, name, namespace);
            let oid = relations::oid_in(generated, s, name, namespace);
            &&& full matches Some(r) && oid == Some(r.oid) && r.namespace == namespace
            &&& short matches Some(t) && t.oid == full->0.oid && t.name == full->0.name
                && t.namespace == namespace && t.owner == full->0.owner && t.relkind
                == full->0.relkind && t.type_oid == full->0.type_oid && t.row_id
                == full->0.row_id && (full->0.columns.len() <= u16::MAX ==> t.column_count
                >= full->0.columns.len())
        }),
{
    index::ids_where_are_the_matches(
        s.relations,
        index::labelled(
            snapshot::relation_label(),
            namespace.0,
            model::normalized(name),
        ),
    );
}

/// As many pages are told for rows as it takes to hold thirty-two on each, up to the
/// most that can be told.
pub proof fn pages_hold_the_rows(n: int)
    requires
        n >= 0,
    ensures
        n <= 32 * i32::MAX ==> 32 * relations::pages_for(n) >= n && 32 * (relations::pages_for(n)
            - 1) < n,
        n > 32 * i32::MAX ==> relations::pages_for(n) == i32::MAX,
{
}

/// A constraint is taken for that of the primary key where it is of that kind and, if
/// it names an index, names the key's.
pub proof fn the_constraint_of_a_key_is_of_its_index(
    c: ConstraintMetaView,
    index_oid: Option<Oid>,
)
    ensures
        match relations::primary_constraint(index_oid)(c) {
            Some(oid) => {
                &&& oid == c.oid
                &&& c.kind == 'p' as u8
                &&& index_oid matches Some(wanted) ==> c.index_oid == wanted || c.index_oid.0 == 0
            },
            None => c.kind != 'p' as u8 || (index_oid matches Some(wanted) && c.index_oid != wanted
                && c.index_oid.0 != 0),
        },
{
}

/// The columns of a key that a row lists are those at the places that it lists, in its
/// order.
pub proof fn a_listed_key_names_its_columns(
    generated: GeneratedCatalog,
    s: SnapshotView,
    table: StaticCatalogTable,
    relation: Oid,
    row: CatalogRowView,
    places: Seq<i16>,
)
    requires
        columns::table_of(generated, Oid(2610)) == Some(table),
        relations::primary_row(generated, s, relation) == Some(row),
        row_laws::holds(table, row, "indkey"@, CatalogValueView::Int2Vector(places)),
        forall|i: int|
            0 <= i < places.len() ==> lookups::column_found(
                generated,
                s,
                relation,
                #[trigger] places[i],
            ) is Some,
    ensures
        ({
            let key = relations::primary_key_in_rows(generated, s, relation);
            &&& key.columns.len() == places.len()
            &&& forall|i: int|
                0 <= i < places.len() ==> #[trigger] key.columns[i] == lookups::column_found(
                    generated,
                    s,
                    relation,
                    places[i],
                )->0.name
        }),
{
    row_laws::lemma_cells(generated, table, row);
    let f = relations::column_name(generated, s, relation);
    assert forall|i: int| 0 <= i < places.len() implies f(#[trigger] places[i]) is Some by {
        assert(lookups::column_found(generated, s, relation, places[i]) is Some);
    }
    relation_laws::lemma_every_value(places, f);
}

/// A primary key that is found belongs to the relation, and its identifier is that of
/// the index that is found.
pub proof fn a_primary_key_found_is_of_the_relation(
    generated: GeneratedCatalog,
    s: SnapshotView,
    relation: Oid,
)
    ensures
        relations::primary_found(generated, s, relation) matches Some(r) ==> r.relation_oid
            == relation && r.is_primary && relations::primary_oid_found(generated, s, relation)
            == Some(r.index_oid),
{
    index::ids_where_are_the_matches(
        s.indexes,
        index::keyed(snapshot::index_relation_key(), relation.0),
    );
    let ids = index::ids_where(
        s.indexes,
        index::keyed(snapshot::index_relation_key(), relation.0),
    );
    let list = s.indexes_of(relation);
    let f = relations::primary_record();
    type_laws::lemma_first_some(list, f);
    if search::first_some(list, f) is Some {
        let i = choose|i: int|
            0 <= i < list.len() && f(#[trigger] list[i]) == search::first_some(list, f);
        assert(ids.contains(ids[i]));
    }
}

/// A column as it is laid out is found at its place alone, which is counted from one.
pub proof fn a_laid_out_column_is_at_its_place(
    generated: GeneratedCatalog,
    s: SnapshotView,
    relation: Oid,
    attnum: i16,
)
    ensures
        attnum <= 0 ==> lookups::physical_column_found(generated, s, relation, attnum) is None,
        lookups::physical_column_found(generated, s, relation, attnum) matches Some(c) ==> exists|
            table: StaticCatalogTable,
            row: CatalogRowView,
        | #[trigger]
            meta::physical_column_of(generated, table, row, relation) == Some((attnum, c)),
{
    match columns::table_of(generated, Oid(1249)) {
        Some(table) => {
            let list = lookups::rows_of(
                generated,
                s,
                1249,
                SelectorView::ColumnAt(relation, attnum),
            );
            let f = lookups::physical_column_at(generated, table, relation, attnum);
            type_laws::lemma_first_some(list, f);
            if search::first_some(list, f) is Some {
                let i = choose|i: int|
                    0 <= i < list.len() && f(#[trigger] list[i]) == search::first_some(list, f);
                assert(meta::physical_column_of(generated, table, list[i], relation) is Some);
            }
        },
        None => {},
    }
}

/// Whether columns stand at places of a relation, each as a row tells it, in the order
/// of the places.
pub open spec fn stand_at(
    generated: GeneratedCatalog,
    relation: Oid,
    list: Seq<ColumnRecordView>,
    places: Seq<i16>,
) -> bool {
    &&& places.len() == list.len()
    &&& forall|i: int, j: int|
        0 <= i < j < places.len() ==> #[trigger] places[i] <= #[trigger] places[j]
    &&& forall|i: int|
        0 <= i < places.len() ==> exists|table: StaticCatalogTable, row: CatalogRowView|
            #[trigger] meta::column_record_of(generated, table, row, relation) == Some(
                (#[trigger] places[i], list[i]),
            )
}

/// The columns of a relation stand in the order of their places, each as its row tells
/// it.
pub proof fn columns_stand_in_their_places(
    generated: GeneratedCatalog,
    s: SnapshotView,
    relation: Oid,
)
    ensures
        exists|places: Seq<i16>| #[trigger]
            stand_at(generated, relation, lookups::columns_of(generated, s, relation), places),
{
    let told = lookups::columns_of(generated, s, relation);
    match columns::table_of(generated, Oid(1249)) {
        Some(table) => {
            let list = lookups::rows_of(generated, s, 1249, SelectorView::ColumnsOf(relation));
            let f = lookups::placed_column(generated, table, relation);
            let given = search::all_some(list, f);
            let sorted = stable::sorted(given);
            stable::sorted_is_ascending(given);
            lemma_sorted_from(given);
            found_laws::lemma_gathered(list, f);
            let places = Seq::new(sorted.len(), |i: int| sorted[i].0 as i16);
            assert forall|i: int| 0 <= i < places.len() implies exists|
                table: StaticCatalogTable,
                row: CatalogRowView,
            | #[trigger]
                meta::column_record_of(generated, table, row, relation) == Some(
                    (#[trigger] places[i], told[i]),
                ) && places[i] == sorted[i].0 by {
                assert(given.contains(sorted[i]));
                let g = choose|g: int| 0 <= g < given.len() && given[g] == sorted[i];
                let k = choose|k: int|
                    0 <= k < list.len() && f(#[trigger] list[k]) == Some(given[g]);
                assert(meta::column_record_of(generated, table, list[k], relation) == Some(
                    (places[i], told[i]),
                ));
            }
            assert forall|i: int, j: int| 0 <= i < j < places.len() implies #[trigger] places[i]
                <= #[trigger] places[j] by {
                assert(sorted[i].0 <= sorted[j].0);
            }
            assert(stand_at(generated, relation, told, places));
        },
        None => {
            assert(stand_at(generated, relation, told, seq![]));
        },
    }
}

/// A list of relations is told by their identifiers: each that is in it, and of
/// several with one identifier the last.
pub proof fn relations_are_listed_by_identifier(list: Seq<RelationRecordView>)
    ensures
        forall|id: u64| #[trigger]
            relations::by_oid(list).contains_key(id) <==> exists|i: int|
                0 <= i < list.len() && (#[trigger] list[i]).oid.0 == id,
        forall|id: u64| #[trigger]
            relations::by_oid(list).contains_key(id) ==> relations::by_oid(list)[id].oid.0 == id,
        forall|i: int|
            0 <= i < list.len() && (forall|j: int|
                i < j < list.len() ==> (#[trigger] list[j]).oid != list[i].oid)
                ==> relations::by_oid(list)[(#[trigger] list[i]).oid.0 as u64] == list[i],
    decreases list.len(),
{
    if list.len() > 0 {
        let most = list.drop_last();
        let n = list.len() - 1;
        relations_are_listed_by_identifier(most);
        let before = relations::by_oid(most);
        let all = relations::by_oid(list);
        assert forall|id: u64| #[trigger] all.contains_key(id) <==> exists|i: int|
            0 <= i < list.len() && (#[trigger] list[i]).oid.0 == id by {
            if all.contains_key(id) {
                if id == list[n].oid.0 as u64 {
                    assert(list[n].oid.0 == id);
                } else {
                    assert(before.contains_key(id));
                    let i = choose|i: int| 0 <= i < most.len() && (#[trigger] most[i]).oid.0 == id;
                    assert(list[i].oid.0 == id);
                }
            }
            if exists|i: int| 0 <= i < list.len() && (#[trigger] list[i]).oid.0 == id {
                let i = choose|i: int| 0 <= i < list.len() && (#[trigger] list[i]).oid.0 == id;
                if i < n {
                    assert(most[i].oid.0 == id);
                    assert(before.contains_key(id));
                }
            }
        }
        assert forall|id: u64| #[trigger] all.contains_key(id) implies all[id].oid.0 == id by {
            if id != list[n].oid.0 as u64 {
                assert(before.contains_key(id));
            }
        }
        assert forall|i: int|
            0 <= i < list.len() && (forall|j: int|
                i < j < list.len() ==> (#[trigger] list[j]).oid != list[i].oid) implies all[(
        #[trigger] list[i]).oid.0 as u64] == list[i] by {
            if i < n {
                assert(list[n].oid != list[i].oid);
                assert(most[i] == list[i]);
                assert forall|j: int| i < j < most.len() implies (#[trigger] most[j]).oid
                    != most[i].oid by {
                    assert(most[j] == list[j]);
                }
            }
        }
    }
}

proof fn lemma_place_within<V>(s: Seq<(i64, V)>, key: i64)
    ensures
        0 <= stable::place(s, key) <= s.len(),
    decreases s.len(),
{
    if s.len() > 0 {
        lemma_place_within(s.drop_last(), key);
    }
}

proof fn lemma_sorted_from<V>(s: Seq<(i64, V)>)
    ensures
        forall|k: int|
            0 <= k < stable::sorted(s).len() ==> s.contains(#[trigger] stable::sorted(s)[k]),
    decreases s.len(),
{
    if s.len() > 0 {
        let most = s.drop_last();
        let before = stable::sorted(most);
        let n = stable::place(before, s.last().0);
        lemma_sorted_from(most);
        lemma_place_within(before, s.last().0);
        let all = stable::sorted(s);
        assert forall|k: int| 0 <= k < all.len() implies s.contains(#[trigger] all[k]) by {
            assert(s[s.len() - 1] == s.last());
            if k != n {
                let j = if k < n {
                    k
                } else {
                    k - 1
                };
                assert(all[k] == before[j]);
                assert(most.contains(before[j]));
                let i = choose|i: int| 0 <= i < most.len() && most[i] == before[j];
                assert(s[i] == most[i]);
            }
        }
    }
}

/// The labels of an enumeration are those that rows give to it.
pub proof fn labels_are_those_of_the_enumeration(
    generated: GeneratedCatalog,
    s: SnapshotView,
    table: StaticCatalogTable,
    enumeration: Oid,
    k: int,
)
    requires
        columns::table_of(generated, Oid(3501)) == Some(table),
        0 <= k < type_lookups::labels(generated, s, enumeration).len(),
    ensures
        exists|row: CatalogRowView| #[trigger]
            rows::rows_asked_for(generated, s, Oid(3501), SelectorView::All).contains(row)
                && meta::oid_at(generated, table, row, "enumtypid"@) == Some(enumeration)
                && meta::oid_at(generated, table, row, "oid"@) == Some(
                type_lookups::labels(generated, s, enumeration)[k],
            ),
{
    let list = rows::rows_asked_for(generated, s, Oid(3501), SelectorView::All);
    let f = type_lookups::label_of(generated, table, enumeration);
    let given = search::all_some(list, f);
    let sorted = stable::sorted(given);
    found_laws::lemma_gathered(list, f);
    lemma_sorted_from(given);
    assert(given.contains(sorted[k]));
    let g = choose|g: int| 0 <= g < given.len() && given[g] == sorted[k];
    let i = choose|i: int| 0 <= i < list.len() && f(#[trigger] list[i]) == Some(given[g]);
    assert(list.contains(list[i]));
}

} // verus!
