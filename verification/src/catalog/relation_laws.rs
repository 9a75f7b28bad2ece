//! What a lookup of a relation gives: the relation that was asked for, with its
//! columns in their places and the columns of its primary key.

use vstd::prelude::*;

use crate::catalog::index;
use crate::catalog::lookup_laws;
use crate::catalog::meta::RelationMetaView;
use crate::catalog::model;
use crate::catalog::model::GeneratedCatalog;
use crate::catalog::relations;
use crate::catalog::snapshot;
use crate::catalog::snapshot::SnapshotView;
use crate::ordered;
use crate::search;
use crate::types::Oid;

verus! {

/// Whether the recorded columns of a relation are those with some identities, in
/// the places from the first on, without a gap.
pub open spec fn columns_stand(s: SnapshotView, relation: Oid, ids: Seq<u64>) -> bool {
    &&& ids.len() <= i16::MAX
    &&& forall|i: int|
        0 <= i < ids.len() ==> {
            &&& s.columns.contains_key(#[trigger] ids[i])
            &&& s.columns[ids[i]].relation_oid == relation
            &&& s.columns[ids[i]].attnum == i + 1
        }
    &&& forall|id: u64| #[trigger]
        s.columns.contains_key(id) && s.columns[id].relation_oid == relation ==> ids.contains(id)
}

/// Whether an index is the only recorded one that is the primary key of a
/// relation.
pub open spec fn is_primary_key(s: SnapshotView, relation: Oid, id: u64) -> bool {
    &&& s.indexes.contains_key(id)
    &&& s.indexes[id].record.relation_oid == relation
    &&& s.indexes[id].record.is_primary
    &&& forall|k: u64| #[trigger]
        s.indexes.contains_key(k) && s.indexes[k].record.relation_oid == relation
            && s.indexes[k].record.is_primary ==> k == id
}

/// Whether a relation has no recorded primary key.
pub open spec fn has_no_primary_key(s: SnapshotView, relation: Oid) -> bool {
    forall|k: u64| #[trigger]
        s.indexes.contains_key(k) && s.indexes[k].record.relation_oid == relation
            ==> !s.indexes[k].record.is_primary
}

proof fn lemma_column_at(s: SnapshotView, relation: Oid, ids: Seq<u64>, attnum: i16)
    requires
        columns_stand(s, relation, ids),
    ensures
        0 < attnum <= ids.len() ==> s.column_at(relation, attnum) == Some(
            s.columns[ids[attnum - 1]],
        ),
        !(0 < attnum <= ids.len()) ==> s.column_at(relation, attnum) is None,
{
    let p = index::column_at_place(relation.0, attnum);
    if 0 < attnum <= ids.len() {
        let id = ids[attnum - 1];
        assert forall|k: u64| #[trigger] s.columns.contains_key(k) && p(s.columns[k]) implies k
            <= id by {
            assert(s.columns[k].relation_oid == relation);
            let j = choose|j: int| 0 <= j < ids.len() && ids[j] == k;
            assert(s.columns[ids[j]].attnum == j + 1);
        }
        lookup_laws::lemma_last_is_found(s.columns, p, id);
    } else {
        assert forall|k: u64| #[trigger] s.columns.contains_key(k) implies !p(s.columns[k]) by {
            if p(s.columns[k]) {
                assert(s.columns[k].relation_oid == relation);
                let j = choose|j: int| 0 <= j < ids.len() && ids[j] == k;
                assert(s.columns[ids[j]].attnum == j + 1);
            }
        }
        lookup_laws::lemma_none_is_found(s.columns, p);
    }
}

proof fn lemma_columns(s: SnapshotView, relation: Oid, ids: Seq<u64>)
    requires
        columns_stand(s, relation, ids),
    ensures
        relations::columns_in_records(s, relation) == Seq::new(
            ids.len(),
            |i: int| s.columns[ids[i]].record,
        ),
{
    let places = relations::recorded_places(s, relation);
    let codes = Seq::new(ids.len(), |i: int| (0x8001 + i) as u64);
    assert forall|k: u64| #[trigger] codes.contains(k) <==> places.contains(k) by {
        if codes.contains(k) {
            let i = choose|i: int| 0 <= i < codes.len() && codes[i] == k;
            lemma_column_at(s, relation, ids, relations::place_of(k));
        }
        if places.contains(k) {
            lemma_column_at(s, relation, ids, relations::place_of(k));
            assert(codes[k - 0x8001] == k);
        }
    }
    ordered::sorted_ids_are(places, codes);
    let found = relations::columns_in_records(s, relation);
    assert forall|i: int| 0 <= i < ids.len() implies found[i] == s.columns[ids[i]].record by {
        lemma_column_at(s, relation, ids, (i + 1) as i16);
        assert(relations::place_of(codes[i]) == i + 1);
    }
    assert(found =~= Seq::new(ids.len(), |i: int| s.columns[ids[i]].record));
}

pub(crate) proof fn lemma_only_value<A, B>(s: Seq<A>, f: spec_fn(A) -> Option<B>, i: int)
    requires
        0 <= i < s.len(),
        f(s[i]) is Some,
        forall|j: int| 0 <= j < s.len() && j != i ==> f(#[trigger] s[j]) is None,
    ensures
        search::first_some(s, f) == f(s[i]),
    decreases s.len(),
{
    if i > 0 {
        assert(f(s[0]) is None);
        let rest = s.drop_first();
        assert forall|j: int| 0 <= j < rest.len() && j != i - 1 implies f(
            #[trigger] rest[j],
        ) is None by {
            assert(rest[j] == s[j + 1]);
        }
        lemma_only_value(rest, f, i - 1);
    }
}

pub(crate) proof fn lemma_no_value<A, B>(s: Seq<A>, f: spec_fn(A) -> Option<B>)
    requires
        forall|j: int| 0 <= j < s.len() ==> f(#[trigger] s[j]) is None,
    ensures
        search::first_some(s, f) is None,
        search::all_some(s, f) =~= seq![],
    decreases s.len(),
{
    if s.len() > 0 {
        assert(f(s[0]) is None);
        lemma_no_value(s.drop_first(), f);
        lemma_no_value(s.drop_last(), f);
        assert(f(s[s.len() - 1]) is None);
    }
}

/// Where each element gives a value, all values are given in their order.
pub(crate) proof fn lemma_every_value<A, B>(s: Seq<A>, f: spec_fn(A) -> Option<B>)
    requires
        forall|j: int| 0 <= j < s.len() ==> f(#[trigger] s[j]) is Some,
    ensures
        search::all_some(s, f) == Seq::new(s.len(), |j: int| f(s[j])->0),
    decreases s.len(),
{
    if s.len() > 0 {
        let before = s.drop_last();
        assert forall|j: int| 0 <= j < before.len() implies f(#[trigger] before[j]) is Some by {
            assert(before[j] == s[j]);
        }
        lemma_every_value(before, f);
        assert(f(s[s.len() - 1]) is Some);
    }
    assert(search::all_some(s, f) =~= Seq::new(s.len(), |j: int| f(s[j])->0));
}

proof fn lemma_indexes_of(s: SnapshotView, relation: Oid)
    ensures
        ({
            let p = index::keyed(snapshot::index_relation_key(), relation.0);
            let ids = index::ids_where(s.indexes, p);
            &&& ordered::ascending(ids)
            &&& s.indexes_of(relation) == Seq::new(ids.len(), |i: int| s.indexes[ids[i]])
            &&& forall|k: u64| #[trigger]
                ids.contains(k) <==> (s.indexes.contains_key(k)
                    && s.indexes[k].record.relation_oid == relation)
        }),
{
    let p = index::keyed(snapshot::index_relation_key(), relation.0);
    index::ids_where_are_the_matches(s.indexes, p);
}

proof fn lemma_primary(s: SnapshotView, relation: Oid, id: u64)
    requires
        is_primary_key(s, relation, id),
    ensures
        relations::primary_in_records(s, relation) == Some(s.indexes[id].record),
{
    lemma_indexes_of(s, relation);
    let list = s.indexes_of(relation);
    let ids = index::ids_where(
        s.indexes,
        index::keyed(snapshot::index_relation_key(), relation.0),
    );
    assert(ids.contains(id));
    let i = choose|i: int| 0 <= i < ids.len() && ids[i] == id;
    let f = relations::primary_record();
    assert forall|j: int| 0 <= j < list.len() && j != i implies f(#[trigger] list[j]) is None by {
        assert(ids.contains(ids[j]));
        if s.indexes[ids[j]].record.is_primary {
            assert(ids[j] == id);
        }
    }
    lemma_only_value(list, f, i);
}

proof fn lemma_no_primary(s: SnapshotView, relation: Oid)
    requires
        has_no_primary_key(s, relation),
    ensures
        relations::primary_in_records(s, relation) is None,
{
    lemma_indexes_of(s, relation);
    let list = s.indexes_of(relation);
    let ids = index::ids_where(
        s.indexes,
        index::keyed(snapshot::index_relation_key(), relation.0),
    );
    let f = relations::primary_record();
    assert forall|j: int| 0 <= j < list.len() implies f(#[trigger] list[j]) is None by {
        assert(ids.contains(ids[j]));
    }
    lemma_no_value(list, f);
}

/// A recorded relation is told with what its record says, and with its recorded
/// columns in the order of their places.
pub proof fn a_relation_has_its_columns(s: SnapshotView, m: RelationMetaView, ids: Seq<u64>)
    requires
        columns_stand(s, m.oid, ids),
    ensures
        ({
            let r = relations::relation_of_meta(s, m);
            &&& r.oid == m.oid
            &&& r.type_oid == m.type_oid
            &&& r.namespace == m.namespace
            &&& r.owner == m.owner
            &&& r.name == m.name
            &&& r.relkind == m.relkind
            &&& r.row_id == m.row_id
            &&& r.columns.len() == ids.len()
            &&& forall|i: int|
                0 <= i < ids.len() ==> #[trigger] r.columns[i] == s.columns[ids[i]].record
        }),
{
    lemma_columns(s, m.oid, ids);
}

/// The primary key of a recorded relation without dropped columns has one name for
/// each key of its index, which is that of the column recorded in the place that
/// the key tells.
pub proof fn a_primary_key_names_its_columns(
    s: SnapshotView,
    m: RelationMetaView,
    ids: Seq<u64>,
    id: u64,
)
    requires
        columns_stand(s, m.oid, ids),
        is_primary_key(s, m.oid, id),
        forall|i: int|
            0 <= i < s.indexes[id].record.key_attnums.len() ==> 0 < (
            #[trigger] s.indexes[id].record.key_attnums[i]) <= ids.len(),
    ensures
        ({
            let key = s.indexes[id].record.key_attnums;
            let names = relations::relation_of_meta(s, m).primary_key;
            &&& names.len() == key.len()
            &&& forall|i: int|
                0 <= i < key.len() ==> #[trigger] names[i] == s.columns[ids[key[i]
                    - 1]].record.name
        }),
        relations::summary_of_meta(s, m).has_primary_key,
        relations::summary_of_meta(s, m).has_indexes,
{
    let key = s.indexes[id].record.key_attnums;
    lemma_columns(s, m.oid, ids);
    lemma_primary(s, m.oid, id);
    let list = relations::columns_in_records(s, m.oid);
    let f = relations::name_at(list);
    assert forall|j: int| 0 <= j < key.len() implies f(#[trigger] key[j]) is Some by {
        assert(0 < key[j] <= ids.len());
    }
    lemma_every_value(key, f);
}

/// Without a primary index there is no primary key.
pub proof fn no_primary_index_gives_no_key(s: SnapshotView, m: RelationMetaView)
    requires
        has_no_primary_key(s, m.oid),
    ensures
        relations::relation_of_meta(s, m).primary_key.len() == 0,
        !relations::summary_of_meta(s, m).has_primary_key,
{
    lemma_no_primary(s, m.oid);
}

/// What is told of a recorded relation in short agrees with the relation itself.
pub proof fn a_summary_agrees_with_its_relation(
    s: SnapshotView,
    m: RelationMetaView,
    ids: Seq<u64>,
)
    requires
        columns_stand(s, m.oid, ids),
    ensures
        ({
            let r = relations::summary_of_meta(s, m);
            &&& r.oid == m.oid
            &&& r.type_oid == m.type_oid
            &&& r.namespace == m.namespace
            &&& r.owner == m.owner
            &&& r.name == m.name
            &&& r.relkind == m.relkind
            &&& r.row_id == m.row_id
            &&& r.column_count >= ids.len()
            &&& r.column_count >= m.relnatts
            &&& r.column_count == ids.len() || r.column_count == m.relnatts
            &&& m.relhasindex ==> r.has_indexes
            &&& (exists|k: u64| #[trigger]
                s.indexes.contains_key(k) && s.indexes[k].record.relation_oid == m.oid)
                ==> r.has_indexes
            &&& !m.relhasindex && (forall|k: u64| #[trigger]
                s.indexes.contains_key(k) ==> s.indexes[k].record.relation_oid != m.oid)
                ==> !r.has_indexes && !r.has_primary_key
        }),
{
    lemma_columns(s, m.oid, ids);
    lemma_indexes_of(s, m.oid);
    let list = index::ids_where(
        s.indexes,
        index::keyed(snapshot::index_relation_key(), m.oid.0),
    );
    if exists|k: u64| #[trigger]
        s.indexes.contains_key(k) && s.indexes[k].record.relation_oid == m.oid {
        let k = choose|k: u64| #[trigger]
            s.indexes.contains_key(k) && s.indexes[k].record.relation_oid == m.oid;
        assert(list.contains(k));
    } else {
        if list.len() > 0 {
            assert(list.contains(list[0]));
        }
        lemma_no_primary(s, m.oid);
    }
}

/// A recorded relation that no other one shares its identifier with is what a
/// lookup by identifier gives.
pub proof fn a_recorded_relation_is_found_by_identifier(
    generated: GeneratedCatalog,
    s: SnapshotView,
    id: u64,
)
    requires
        s.relations.contains_key(id),
        forall|k: u64| #[trigger]
            s.relations.contains_key(k) && s.relations[k].oid == s.relations[id].oid ==> k == id,
    ensures
        relations::relation_with(generated, s, s.relations[id].oid) == Some(
            relations::relation_of_meta(s, s.relations[id]),
        ),
        relations::summary_with(generated, s, s.relations[id].oid) == Some(
            relations::summary_of_meta(s, s.relations[id]),
        ),
{
    lookup_laws::lemma_last_is_found(
        s.relations,
        index::keyed(snapshot::relation_oid_key(), s.relations[id].oid.0),
        id,
    );
}

/// A recorded relation that no other one shares its name with is what a lookup by
/// name gives, with or without its schema.
pub proof fn a_recorded_relation_is_found_by_name(
    generated: GeneratedCatalog,
    s: SnapshotView,
    id: u64,
)
    requires
        s.relations.contains_key(id),
        model::normalized(s.relations[id].name) == s.relations[id].name,
        forall|k: u64| #[trigger]
            s.relations.contains_key(k) && model::normalized(s.relations[k].name)
                == s.relations[id].name ==> k == id,
    ensures
        ({
            let m = s.relations[id];
            let found = Some(relations::relation_of_meta(s, m));
            &&& relations::relation_with_name(generated, s, m.name) == found
            &&& relations::relation_in(generated, s, m.name, m.namespace) == found
            &&& relations::summary_in(generated, s, m.name, m.namespace) == Some(
                relations::summary_of_meta(s, m),
            )
            &&& relations::oid_in(generated, s, m.name, m.namespace) == Some(m.oid)
        }),
{
    let m = s.relations[id];
    lookup_laws::lemma_last_is_found(
        s.relations,
        index::labelled(snapshot::relation_label(), m.namespace.0, m.name),
        id,
    );
    let p = relations::named_meta(m.name);
    index::ids_where_are_the_matches(s.relations, p);
    let ids = index::ids_where(s.relations, p);
    assert(ids.contains(id));
    assert(ids =~= seq![id]) by {
        assert forall|j: int| 0 <= j < ids.len() implies ids[j] == id by {
            assert(ids.contains(ids[j]));
        }
        if ids.len() > 1 {
            assert(ids[0] < ids[1]);
        }
    }
    let list = relations::named_in_records(s, m.name);
    let r = relations::relation_of_meta(s, m);
    assert(list =~= seq![r]);
    let n = relations::rank(r.namespace);
    if n == 0 {
        search::first_index_at(list, relations::ranks(0), 0);
    } else {
        search::first_index_none(list, relations::ranks(0));
        if n == 1 {
            search::first_index_at(list, relations::ranks(1), 0);
        } else {
            search::first_index_none(list, relations::ranks(1));
        }
    }
}

/// Of two recorded relations with one name, the one in the schema `public` is
/// found without a schema, and the one in the system's schema before one in any
/// other.
pub proof fn the_public_schema_is_looked_in_first(
    generated: GeneratedCatalog,
    s: SnapshotView,
    name: Seq<char>,
    id: u64,
)
    requires
        s.relations.contains_key(id),
        s.relations[id].name == name,
        ({
            ||| s.relations[id].namespace.0 == 2200
            ||| s.relations[id].namespace.0 == 11 && forall|k: u64| #[trigger]
                s.relations.contains_key(k) && s.relations[k].name == name
                    ==> s.relations[k].namespace.0 != 2200
        }),
    ensures
        relations::relation_with_name(generated, s, name) matches Some(r) && r.namespace
            == s.relations[id].namespace && r.name == name,
{
    let p = relations::named_meta(name);
    index::ids_where_are_the_matches(s.relations, p);
    let ids = index::ids_where(s.relations, p);
    assert(ids.contains(id));
    let i = choose|i: int| 0 <= i < ids.len() && ids[i] == id;
    let list = relations::named_in_records(s, name);
    assert forall|j: int| 0 <= j < list.len() implies (#[trigger] list[j]).name == name
        && list[j].namespace == s.relations[ids[j]].namespace && s.relations.contains_key(
        ids[j],
    ) by {
        assert(ids.contains(ids[j]));
    }
    search::first_index_is_first(list, relations::ranks(0));
    search::first_index_is_first(list, relations::ranks(1));
    assert(list[i].namespace == s.relations[id].namespace);
    if s.relations[id].namespace.0 == 2200 {
        assert(relations::ranks(0)(list[i]));
    } else {
        assert(relations::ranks(1)(list[i]));
    }
}

} // verus!
