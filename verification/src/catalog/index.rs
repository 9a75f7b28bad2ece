//! Rows by what they say: which rows of a map have a property, in the order of
//! their identities.

use std::collections::BTreeMap;
use vstd::prelude::*;

use crate::catalog::meta::{ColumnMeta, ColumnMetaView, Meta};
use crate::ordered;
use crate::text;

verus! {

broadcast use vstd::std_specs::btree::group_btree_axioms;

/// What a map of records holds.
pub open spec fn metas<M: Meta>(m: Map<u64, M>) -> Map<u64, M::V> {
    Map::new(|k: u64| m.contains_key(k), |k: u64| m[k]@)
}

/// The identities in a list whose records have a property.
pub open spec fn filtered<V>(list: Seq<u64>, m: Map<u64, V>, p: spec_fn(V) -> bool) -> Seq<u64>
    decreases list.len(),
{
    if list.len() == 0 {
        seq![]
    } else {
        let before = filtered(list.drop_last(), m, p);
        if p(m[list.last()]) {
            before.push(list.last())
        } else {
            before
        }
    }
}

/// The identities of the records with a property, in ascending order.
pub open spec fn ids_where<V>(m: Map<u64, V>, p: spec_fn(V) -> bool) -> Seq<u64> {
    filtered(ordered::sorted_ids(m.dom()), m, p)
}

pub open spec fn last_of(ids: Seq<u64>) -> Option<u64> {
    if ids.len() > 0 {
        Some(ids.last())
    } else {
        None
    }
}

/// The record with a property and the greatest identity.
pub open spec fn last_where<V>(m: Map<u64, V>, p: spec_fn(V) -> bool) -> Option<V> {
    match last_of(ids_where(m, p)) {
        Some(id) => Some(m[id]),
        None => None,
    }
}

/// The records with a property, in the order of their identities.
pub open spec fn all_where<V>(m: Map<u64, V>, p: spec_fn(V) -> bool) -> Seq<V> {
    let ids = ids_where(m, p);
    Seq::new(ids.len(), |i: int| m[ids[i]])
}

proof fn lemma_filtered<V>(list: Seq<u64>, m: Map<u64, V>, p: spec_fn(V) -> bool)
    requires
        ordered::ascending(list),
    ensures
        ordered::ascending(filtered(list, m, p)),
        forall|k: u64| #[trigger]
            filtered(list, m, p).contains(k) <==> (list.contains(k) && p(m[k])),
    decreases list.len(),
{
    if list.len() > 0 {
        let shorter = list.drop_last();
        let last = list.last();
        lemma_filtered(shorter, m, p);
        let before = filtered(shorter, m, p);
        let now = filtered(list, m, p);
        assert forall|k: u64| shorter.contains(k) implies list.contains(k) && k < last by {
            let n = choose|n: int| 0 <= n < shorter.len() && shorter[n] == k;
            assert(list[n] == k);
            assert(list[n] < list[list.len() - 1]);
        }
        assert(list.contains(last)) by {
            assert(list[list.len() - 1] == last);
        }
        assert forall|k: u64| list.contains(k) implies shorter.contains(k) || k == last by {
            let n = choose|n: int| 0 <= n < list.len() && list[n] == k;
            if n < list.len() - 1 {
                assert(shorter[n] == k);
            }
        }
        if p(m[last]) {
            assert(now[before.len() as int] == last);
            assert forall|i: int, j: int| 0 <= i < j < now.len() implies #[trigger] now[i]
                < #[trigger] now[j] by {
                if j == now.len() - 1 {
                    assert(before.contains(before[i]));
                }
            }
            assert forall|k: u64| #[trigger] now.contains(k) <==> (list.contains(k) && p(m[k])) by {
                if before.contains(k) {
                    let n = choose|n: int| 0 <= n < before.len() && before[n] == k;
                    assert(now[n] == k);
                }
                if now.contains(k) {
                    let n = choose|n: int| 0 <= n < now.len() && now[n] == k;
                    if n < before.len() {
                        assert(before[n] == k);
                    }
                }
            }
        }
    }
}

/// The records with a property are exactly those of the map that have it, in
/// ascending order; the last is the one with the greatest identity.
pub proof fn ids_where_are_the_matches<V>(m: Map<u64, V>, p: spec_fn(V) -> bool)
    ensures
        ordered::ascending(ids_where(m, p)),
        forall|k: u64| #[trigger]
            ids_where(m, p).contains(k) <==> (m.contains_key(k) && p(m[k])),
        match last_of(ids_where(m, p)) {
            Some(id) => m.contains_key(id) && p(m[id]) && forall|k: u64| #[trigger]
                m.contains_key(k) && p(m[k]) ==> k <= id,
            None => forall|k: u64| #[trigger] m.contains_key(k) ==> !p(m[k]),
        },
{
    let all = ordered::sorted_ids(m.dom());
    ordered::sorted_ids_list_the_set(m.dom());
    lemma_filtered(all, m, p);
    let found = ids_where(m, p);
    assert forall|k: u64| #[trigger] found.contains(k) <==> (m.contains_key(k) && p(m[k])) by {
        assert(all.contains(k) <==> m.dom().contains(k));
    }
    match last_of(found) {
        Some(id) => {
            assert(found[found.len() - 1] == id);
            assert(found.contains(id));
            assert forall|k: u64| #[trigger] m.contains_key(k) && p(m[k]) implies k <= id by {
                assert(found.contains(k));
                let n = choose|n: int| 0 <= n < found.len() && found[n] == k;
                if n < found.len() - 1 {
                    assert(found[n] < found[found.len() - 1]);
                }
            }
        },
        None => {
            assert forall|k: u64| #[trigger] m.contains_key(k) implies !p(m[k]) by {
                if p(m[k]) {
                    assert(found.contains(k));
                }
            }
        },
    }
}

/// Whether a record has a key.
pub open spec fn keyed<V>(key: spec_fn(V) -> Option<u32>, k: u32) -> spec_fn(V) -> bool {
    |v: V| key(v) == Some(k)
}

pub open spec fn found_in<T>(m: Map<u32, T>, k: u32) -> Option<T> {
    if m.contains_key(k) {
        Some(m[k])
    } else {
        None
    }
}

/// Whether the map gives, for each key, the greatest identity of the records
/// with that key.
pub open spec fn is_last_index<V>(
    index: Map<u32, u64>,
    m: Map<u64, V>,
    key: spec_fn(V) -> Option<u32>,
) -> bool {
    forall|k: u32| #[trigger] found_in(index, k) == last_of(ids_where(m, keyed(key, k)))
}

/// The identities that a map of groups gives for a key.
pub open spec fn group_at(groups: Map<u32, Vec<u64>>, k: u32) -> Seq<u64> {
    if groups.contains_key(k) {
        groups[k]@
    } else {
        seq![]
    }
}

/// Whether the map gives, for each key, the identities of the records with
/// that key.
pub open spec fn is_group_index<V>(
    groups: Map<u32, Vec<u64>>,
    m: Map<u64, V>,
    key: spec_fn(V) -> Option<u32>,
) -> bool {
    forall|k: u32| #[trigger] group_at(groups, k) == ids_where(m, keyed(key, k))
}

/// Builds the map from keys to the last record with that key.
pub(crate) fn build_last_index<M: Meta, F: Fn(&M) -> Option<u32>>(
    records: &BTreeMap<u64, M>,
    read_key: F,
    key: Ghost<spec_fn(M::V) -> Option<u32>>,
) -> (r: BTreeMap<u32, u64>)
    requires
        forall|x: &M| #[trigger] read_key.requires((x,)),
        forall|x: &M, k: Option<u32>| #[trigger] read_key.ensures((x,), k) ==> k == key@(x@),
    ensures
        is_last_index(r@, metas(records@), key@),
{
    let ids = ordered::sorted_keys(records);
    let ghost m = metas(records@);
    let mut r: BTreeMap<u32, u64> = BTreeMap::new();
    let mut i: usize = 0;
    assert(ids@.take(0) =~= seq![]);
    while i < ids.len()
        invariant
            i <= ids.len(),
            m == metas(records@),
            forall|x: &M| #[trigger] read_key.requires((x,)),
            forall|x: &M, k: Option<u32>| #[trigger]
                read_key.ensures((x,), k) ==> k == key@(x@),
            forall|k: u64| #[trigger] ids@.contains(k) <==> records@.contains_key(k),
            forall|k: u32| #[trigger]
                found_in(r@, k) == last_of(filtered(ids@.take(i as int), m, keyed(key@, k))),
        decreases ids.len() - i,
    {
        let id = ids[i];
        assert(ids@.contains(id));
        assert(ids@.take(i + 1).drop_last() =~= ids@.take(i as int));
        let record = match records.get(&id) {
            Some(record) => record,
            None => {
                assert(false);
                return r;
            },
        };
        let ghost before = r@;
        match read_key(record) {
            Some(k) => {
                r.insert(k, id);
            },
            None => {},
        }
        assert forall|k: u32| #[trigger] found_in(r@, k) == last_of(
            filtered(ids@.take(i + 1), m, keyed(key@, k)),
        ) by {
            assert(found_in(before, k) == last_of(
                filtered(ids@.take(i as int), m, keyed(key@, k)),
            ));
        }
        i += 1;
    }
    assert(ids@.take(i as int) =~= ids@);
    proof {
        ordered::sorted_ids_are(m.dom(), ids@);
    }
    r
}

/// Builds the map from keys to the records with that key.
pub(crate) fn build_group_index<M: Meta, F: Fn(&M) -> Option<u32>>(
    records: &BTreeMap<u64, M>,
    read_key: F,
    key: Ghost<spec_fn(M::V) -> Option<u32>>,
) -> (r: BTreeMap<u32, Vec<u64>>)
    requires
        forall|x: &M| #[trigger] read_key.requires((x,)),
        forall|x: &M, k: Option<u32>| #[trigger] read_key.ensures((x,), k) ==> k == key@(x@),
    ensures
        is_group_index(r@, metas(records@), key@),
{
    let ids = ordered::sorted_keys(records);
    let ghost m = metas(records@);
    let mut r: BTreeMap<u32, Vec<u64>> = BTreeMap::new();
    let mut i: usize = 0;
    assert(ids@.take(0) =~= seq![]);
    while i < ids.len()
        invariant
            i <= ids.len(),
            m == metas(records@),
            forall|x: &M| #[trigger] read_key.requires((x,)),
            forall|x: &M, k: Option<u32>| #[trigger]
                read_key.ensures((x,), k) ==> k == key@(x@),
            forall|k: u64| #[trigger] ids@.contains(k) <==> records@.contains_key(k),
            forall|k: u32| #[trigger]
                group_at(r@, k) == filtered(ids@.take(i as int), m, keyed(key@, k)),
        decreases ids.len() - i,
    {
        let id = ids[i];
        assert(ids@.contains(id));
        assert(ids@.take(i + 1).drop_last() =~= ids@.take(i as int));
        let record = match records.get(&id) {
            Some(record) => record,
            None => {
                assert(false);
                return r;
            },
        };
        let ghost before = r@;
        match read_key(record) {
            Some(k) => {
                let mut group = match r.remove(&k) {
                    Some(group) => group,
                    None => Vec::new(),
                };
                assert(group@ =~= group_at(before, k));
                group.push(id);
                r.insert(k, group);
            },
            None => {},
        }
        assert forall|k: u32| #[trigger] group_at(r@, k) == filtered(
            ids@.take(i + 1),
            m,
            keyed(key@, k),
        ) by {
            assert(group_at(before, k) == filtered(ids@.take(i as int), m, keyed(key@, k)));
        }
        i += 1;
    }
    assert(ids@.take(i as int) =~= ids@);
    proof {
        ordered::sorted_ids_are(m.dom(), ids@);
    }
    r
}

/// A name in a schema, and the record that goes by it.
#[derive(Debug, PartialEq, Eq)]
pub struct NameEntry {
    pub namespace: u32,
    pub name: String,
    pub row_id: u64,
}

/// The last record in a list of names that goes by a name.
pub open spec fn last_entry(list: Seq<NameEntry>, namespace: u32, name: Seq<char>) -> Option<u64>
    decreases list.len(),
{
    if list.len() == 0 {
        None
    } else if list.last().namespace == namespace && list.last().name@ == name {
        Some(list.last().row_id)
    } else {
        last_entry(list.drop_last(), namespace, name)
    }
}

/// Whether a record goes by a name in a schema.
pub open spec fn labelled<V>(
    label: spec_fn(V) -> (u32, Seq<char>),
    namespace: u32,
    name: Seq<char>,
) -> spec_fn(V) -> bool {
    |v: V| label(v) == (namespace, name)
}

/// Whether the list gives, for each name, the greatest identity of the records
/// that go by it.
pub open spec fn is_name_index<V>(
    list: Seq<NameEntry>,
    m: Map<u64, V>,
    label: spec_fn(V) -> (u32, Seq<char>),
) -> bool {
    forall|namespace: u32, name: Seq<char>| #[trigger]
        last_entry(list, namespace, name) == last_of(
            ids_where(m, labelled(label, namespace, name)),
        )
}

/// Builds the list of names.
pub(crate) fn build_name_index<M: Meta, F: Fn(&M) -> (u32, String)>(
    records: &BTreeMap<u64, M>,
    read_label: F,
    label: Ghost<spec_fn(M::V) -> (u32, Seq<char>)>,
) -> (r: Vec<NameEntry>)
    requires
        forall|x: &M| #[trigger] read_label.requires((x,)),
        forall|x: &M, l: (u32, String)| #[trigger]
            read_label.ensures((x,), l) ==> (l.0, l.1@) == label@(x@),
    ensures
        is_name_index(r@, metas(records@), label@),
{
    let ids = ordered::sorted_keys(records);
    let ghost m = metas(records@);
    let mut r: Vec<NameEntry> = Vec::new();
    let mut i: usize = 0;
    assert(ids@.take(0) =~= seq![]);
    while i < ids.len()
        invariant
            i <= ids.len(),
            m == metas(records@),
            forall|x: &M| #[trigger] read_label.requires((x,)),
            forall|x: &M, l: (u32, String)| #[trigger]
                read_label.ensures((x,), l) ==> (l.0, l.1@) == label@(x@),
            forall|k: u64| #[trigger] ids@.contains(k) <==> records@.contains_key(k),
            forall|namespace: u32, name: Seq<char>| #[trigger]
                last_entry(r@, namespace, name) == last_of(
                    filtered(ids@.take(i as int), m, labelled(label@, namespace, name)),
                ),
        decreases ids.len() - i,
    {
        let id = ids[i];
        assert(ids@.contains(id));
        assert(ids@.take(i + 1).drop_last() =~= ids@.take(i as int));
        let record = match records.get(&id) {
            Some(record) => record,
            None => {
                assert(false);
                return r;
            },
        };
        let (namespace, name) = read_label(record);
        let ghost before = r@;
        r.push(NameEntry { namespace, name, row_id: id });
        assert(r@.drop_last() =~= before);
        assert forall|wanted: u32, text: Seq<char>| #[trigger]
            last_entry(r@, wanted, text) == last_of(
                filtered(ids@.take(i + 1), m, labelled(label@, wanted, text)),
            ) by {
            assert(last_entry(before, wanted, text) == last_of(
                filtered(ids@.take(i as int), m, labelled(label@, wanted, text)),
            ));
        }
        i += 1;
    }
    assert(ids@.take(i as int) =~= ids@);
    proof {
        ordered::sorted_ids_are(m.dom(), ids@);
    }
    r
}

/// The last record in a list of names that goes by a name.
pub fn find_entry(list: &Vec<NameEntry>, namespace: u32, name: &str) -> (r: Option<u64>)
    ensures
        r == last_entry(list@, namespace, name@),
{
    let mut i: usize = list.len();
    assert(list@.take(i as int) =~= list@);
    while i > 0
        invariant
            i <= list.len(),
            last_entry(list@, namespace, name@) == last_entry(
                list@.take(i as int),
                namespace,
                name@,
            ),
        decreases i,
    {
        assert(list@.take(i as int).drop_last() =~= list@.take(i - 1));
        if list[i - 1].namespace == namespace && text::same_text(list[i - 1].name.as_str(), name) {
            return Some(list[i - 1].row_id);
        }
        i -= 1;
    }
    None
}

/// Whether a column is the one of a relation at a place.
pub open spec fn column_at_place(relation: u32, attnum: i16) -> spec_fn(ColumnMetaView) -> bool {
    |c: ColumnMetaView| c.relation_oid.0 == relation && c.attnum == attnum
}

pub open spec fn place_in(index: Map<u32, BTreeMap<i16, u64>>, relation: u32, attnum: i16) -> Option<
    u64,
> {
    if index.contains_key(relation) && index[relation]@.contains_key(attnum) {
        Some(index[relation]@[attnum])
    } else {
        None
    }
}

/// Whether the map gives, for each relation and place, the greatest identity
/// of the columns there.
pub open spec fn is_column_index(
    index: Map<u32, BTreeMap<i16, u64>>,
    columns: Map<u64, ColumnMetaView>,
) -> bool {
    forall|relation: u32, attnum: i16| #[trigger]
        place_in(index, relation, attnum) == last_of(
            ids_where(columns, column_at_place(relation, attnum)),
        )
}

/// Builds the map of columns by relation and place.
pub fn build_column_index(records: &BTreeMap<u64, ColumnMeta>) -> (r: BTreeMap<
    u32,
    BTreeMap<i16, u64>,
>)
    ensures
        is_column_index(r@, metas(records@)),
{
    let ids = ordered::sorted_keys(records);
    let ghost m = metas(records@);
    let mut r: BTreeMap<u32, BTreeMap<i16, u64>> = BTreeMap::new();
    let mut i: usize = 0;
    assert(ids@.take(0) =~= seq![]);
    while i < ids.len()
        invariant
            i <= ids.len(),
            m == metas(records@),
            forall|k: u64| #[trigger] ids@.contains(k) <==> records@.contains_key(k),
            forall|relation: u32, attnum: i16| #[trigger]
                place_in(r@, relation, attnum) == last_of(
                    filtered(ids@.take(i as int), m, column_at_place(relation, attnum)),
                ),
        decreases ids.len() - i,
    {
        let id = ids[i];
        assert(ids@.contains(id));
        assert(ids@.take(i + 1).drop_last() =~= ids@.take(i as int));
        let record = match records.get(&id) {
            Some(record) => record,
            None => {
                assert(false);
                return r;
            },
        };
        let ghost before = r@;
        let relation = record.relation_oid.0;
        let mut places = match r.remove(&relation) {
            Some(places) => places,
            None => BTreeMap::new(),
        };
        places.insert(record.attnum, id);
        r.insert(relation, places);
        assert forall|wanted: u32, attnum: i16| #[trigger]
            place_in(r@, wanted, attnum) == last_of(
                filtered(ids@.take(i + 1), m, column_at_place(wanted, attnum)),
            ) by {
            assert(place_in(before, wanted, attnum) == last_of(
                filtered(ids@.take(i as int), m, column_at_place(wanted, attnum)),
            ));
        }
        i += 1;
    }
    assert(ids@.take(i as int) =~= ids@);
    proof {
        ordered::sorted_ids_are(m.dom(), ids@);
    }
    r
}

} // verus!
