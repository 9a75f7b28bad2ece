//! Changes of the catalogs that are not committed: the records that were put
//! or removed, and the rows laid over the other catalogs.

use std::collections::BTreeMap;
use vstd::prelude::*;

use crate::catalog::index;
use crate::catalog::meta;
use crate::catalog::meta::{
    ColumnMeta, ColumnMetaView, ConstraintMeta, ConstraintMetaView, IndexMeta, IndexMetaView, Meta,
    NamespaceMeta, NamespaceMetaView, RelationMeta, RelationMetaView, TypeMeta, TypeMetaView,
};
use crate::catalog::model::{
    CatalogRow, CatalogRowView, GeneratedCatalog, StaticCatalogTable, PG_ATTRIBUTE_RELATION_OID,
    PG_CLASS_RELATION_OID, PG_CONSTRAINT_RELATION_OID, PG_INDEX_RELATION_OID,
    PG_NAMESPACE_RELATION_OID, PG_TYPE_RELATION_OID,
};
use crate::catalog::overlay::{CompatCatalogRows, CompatView};
use crate::catalog::snapshot;
use crate::catalog::snapshot::{CatalogSnapshot, SnapshotView};
use crate::ordered;
use crate::types::Oid;

verus! {

broadcast use vstd::std_specs::btree::group_btree_axioms;

/// What a map of changes holds.
pub open spec fn changes<M: Meta>(m: Map<u64, Option<M>>) -> Map<u64, Option<M::V>> {
    Map::new(
        |k: u64| m.contains_key(k),
        |k: u64|
            match m[k] {
                Some(x) => Some(x@),
                None => None,
            },
    )
}

/// Records after changes: what was put replaces what was there, and what was
/// removed is gone.
pub open spec fn patched<V>(base: Map<u64, V>, changed: Map<u64, Option<V>>) -> Map<u64, V> {
    Map::new(
        |k: u64|
            if changed.contains_key(k) {
                changed[k] is Some
            } else {
                base.contains_key(k)
            },
        |k: u64|
            if changed.contains_key(k) {
                changed[k]->0
            } else {
                base[k]
            },
    )
}

/// Changing records twice has the effect of both changes, the later first.
pub proof fn patching_twice_patches_both<V>(
    base: Map<u64, V>,
    first: Map<u64, Option<V>>,
    second: Map<u64, Option<V>>,
)
    ensures
        patched(patched(base, first), second) == patched(base, first.union_prefer_right(second)),
{
    assert(patched(patched(base, first), second) =~= patched(
        base,
        first.union_prefer_right(second),
    ));
}

pub open spec fn puts<V>(changed: Map<u64, Option<V>>, id: u64) -> bool {
    changed.contains_key(id) && changed[id] is Some
}

pub open spec fn changes_in_place<M: Meta>(m: Map<u64, Option<M::V>>, relation: u32) -> bool {
    forall|id: u64| #[trigger]
        m.contains_key(id) && m[id] is Some ==> M::row_of(m[id]->0).row_id == id && M::row_of(
            m[id]->0,
        ).relation_oid.0 == relation
}

proof fn lemma_next_in_set(ids: Seq<u64>, i: int)
    requires
        0 <= i < ids.len(),
    ensures
        ids.take(i + 1).to_set() == ids.take(i).to_set().insert(ids[i]),
{
    let now = ids.take(i + 1);
    let before = ids.take(i);
    assert forall|k: u64| now.to_set().contains(k) <==> before.to_set().insert(ids[i]).contains(
        k,
    ) by {
        if before.contains(k) {
            let n = choose|n: int| 0 <= n < before.len() && before[n] == k;
            assert(now[n] == k);
        }
        if k == ids[i] {
            assert(now[i] == k);
        }
        if now.contains(k) {
            let n = choose|n: int| 0 <= n < now.len() && now[n] == k;
            if n < i {
                assert(before[n] == k);
            }
        }
    }
    assert(now.to_set() =~= before.to_set().insert(ids[i]));
}

fn apply_changes<M: Meta>(changed: &BTreeMap<u64, Option<M>>, target: &mut BTreeMap<u64, M>)
    ensures
        index::metas(final(target)@) == patched(index::metas(old(target)@), changes(changed@)),
{
    let ids = ordered::sorted_keys(changed);
    let ghost start = target@;
    let ghost all = changes(changed@);
    let mut i: usize = 0;
    assert(index::metas(target@) =~= patched(
        index::metas(start),
        all.restrict(ids@.take(0).to_set()),
    ));
    while i < ids.len()
        invariant
            i <= ids.len(),
            all == changes(changed@),
            forall|k: u64| #[trigger] ids@.contains(k) <==> changed@.contains_key(k),
            index::metas(target@) == patched(
                index::metas(start),
                all.restrict(ids@.take(i as int).to_set()),
            ),
        decreases ids.len() - i,
    {
        let id = ids[i];
        assert(ids@.contains(id));
        let ghost before = target@;
        let ghost done = ids@.take(i as int).to_set();
        proof {
            lemma_next_in_set(ids@, i as int);
        }
        match changed.get(&id) {
            Some(change) => match change {
                Some(record) => {
                    target.insert(id, record.duplicate());
                },
                None => {
                    target.remove(&id);
                },
            },
            None => {
                assert(false);
            },
        }
        assert(index::metas(target@) =~= patched(
            index::metas(start),
            all.restrict(done.insert(id)),
        )) by {
            assert(index::metas(before) == patched(index::metas(start), all.restrict(done)));
            assert forall|k: u64| #[trigger]
                index::metas(target@).contains_key(k) <==> patched(
                    index::metas(start),
                    all.restrict(done.insert(id)),
                ).contains_key(k) by {
                assert(index::metas(before).contains_key(k) <==> patched(
                    index::metas(start),
                    all.restrict(done),
                ).contains_key(k));
            }
            assert forall|k: u64| #[trigger] index::metas(target@).contains_key(k) implies
                index::metas(target@)[k] == patched(
                index::metas(start),
                all.restrict(done.insert(id)),
            )[k] by {
                if k != id {
                    assert(index::metas(before)[k] == patched(
                        index::metas(start),
                        all.restrict(done),
                    )[k]);
                }
            }
        }
        i += 1;
    }
    assert(ids@.take(i as int) =~= ids@);
    assert(all.restrict(ids@.to_set()) =~= all) by {
        assert forall|k: u64| #[trigger] all.contains_key(k) implies ids@.to_set().contains(k) by {
            assert(ids@.contains(k));
        }
    }
}

fn extend_changes<M: Meta>(
    target: &mut BTreeMap<u64, Option<M>>,
    more: &BTreeMap<u64, Option<M>>,
)
    ensures
        changes(final(target)@) == changes(old(target)@).union_prefer_right(changes(more@)),
{
    let ids = ordered::sorted_keys(more);
    let ghost start = changes(target@);
    let ghost all = changes(more@);
    let mut i: usize = 0;
    assert(changes(target@) =~= start.union_prefer_right(all.restrict(ids@.take(0).to_set())));
    while i < ids.len()
        invariant
            i <= ids.len(),
            all == changes(more@),
            forall|k: u64| #[trigger] ids@.contains(k) <==> more@.contains_key(k),
            changes(target@) == start.union_prefer_right(
                all.restrict(ids@.take(i as int).to_set()),
            ),
        decreases ids.len() - i,
    {
        let id = ids[i];
        assert(ids@.contains(id));
        let ghost before = target@;
        let ghost done = ids@.take(i as int).to_set();
        proof {
            lemma_next_in_set(ids@, i as int);
        }
        let change = match more.get(&id) {
            Some(change) => match change {
                Some(record) => Some(record.duplicate()),
                None => None,
            },
            None => {
                assert(false);
                None
            },
        };
        target.insert(id, change);
        assert(changes(target@) =~= start.union_prefer_right(all.restrict(done.insert(id)))) by {
            let now = start.union_prefer_right(all.restrict(done.insert(id)));
            let held = start.union_prefer_right(all.restrict(done));
            assert forall|k: u64| #[trigger]
                changes(target@).contains_key(k) <==> now.contains_key(k) by {
                assert(changes(before).contains_key(k) <==> held.contains_key(k));
            }
            assert forall|k: u64| #[trigger] changes(target@).contains_key(k) implies changes(
                target@,
            )[k] == now[k] by {
                if k != id {
                    assert(changes(before)[k] == held[k]);
                }
            }
        }
        i += 1;
    }
    assert(ids@.take(i as int) =~= ids@);
    assert(all.restrict(ids@.to_set()) =~= all) by {
        assert forall|k: u64| #[trigger] all.contains_key(k) implies ids@.to_set().contains(k) by {
            assert(ids@.contains(k));
        }
    }
}

/// Without the marks of the rows of a catalog that changes put.
pub open spec fn unmarked<V>(
    compat: CompatView,
    relation: u32,
    changed: Map<u64, Option<V>>,
) -> CompatView {
    CompatView {
        rows: compat.rows,
        tombstones: compat.tombstones.filter(
            |k: (u32, u64)| !(k.0 == relation && puts(changed, k.1)),
        ),
    }
}

fn unmark<M: Meta>(
    compat: &mut CompatCatalogRows,
    relation: u32,
    changed: &BTreeMap<u64, Option<M>>,
)
    requires
        old(compat)@.wf(),
    ensures
        final(compat)@ == unmarked(old(compat)@, relation, changes(changed@)),
        final(compat)@.wf(),
{
    let ids = ordered::sorted_keys(changed);
    let ghost start = compat@;
    let ghost all = changes(changed@);
    let mut i: usize = 0;
    assert(compat@.tombstones =~= unmarked(
        start,
        relation,
        all.restrict(ids@.take(0).to_set()),
    ).tombstones);
    while i < ids.len()
        invariant
            i <= ids.len(),
            all == changes(changed@),
            compat@.wf(),
            forall|k: u64| #[trigger] ids@.contains(k) <==> changed@.contains_key(k),
            compat@ == unmarked(start, relation, all.restrict(ids@.take(i as int).to_set())),
        decreases ids.len() - i,
    {
        let id = ids[i];
        assert(ids@.contains(id));
        let ghost done = ids@.take(i as int).to_set();
        proof {
            lemma_next_in_set(ids@, i as int);
        }
        let put = match changed.get(&id) {
            Some(change) => change.is_some(),
            None => {
                assert(false);
                false
            },
        };
        if put {
            compat.untombstone(Oid(relation), id);
        }
        assert(compat@.rows =~= unmarked(start, relation, all.restrict(done.insert(id))).rows);
        assert(compat@.tombstones =~= unmarked(
            start,
            relation,
            all.restrict(done.insert(id)),
        ).tombstones);
        i += 1;
    }
    assert(ids@.take(i as int) =~= ids@);
    assert(all.restrict(ids@.to_set()) =~= all) by {
        assert forall|k: u64| #[trigger] all.contains_key(k) implies ids@.to_set().contains(k) by {
            assert(ids@.contains(k));
        }
    }
}

/// A set of changes.
#[derive(Debug, PartialEq, Eq)]
pub struct CatalogDraft {
    pub namespaces: BTreeMap<u64, Option<NamespaceMeta>>,
    pub relations: BTreeMap<u64, Option<RelationMeta>>,
    pub columns: BTreeMap<u64, Option<ColumnMeta>>,
    pub types: BTreeMap<u64, Option<TypeMeta>>,
    pub indexes: BTreeMap<u64, Option<IndexMeta>>,
    pub constraints: BTreeMap<u64, Option<ConstraintMeta>>,
    pub compat_rows: CompatCatalogRows,
}

/// What a set of changes holds.
pub struct DraftView {
    pub namespaces: Map<u64, Option<NamespaceMetaView>>,
    pub relations: Map<u64, Option<RelationMetaView>>,
    pub columns: Map<u64, Option<ColumnMetaView>>,
    pub types: Map<u64, Option<TypeMetaView>>,
    pub indexes: Map<u64, Option<IndexMetaView>>,
    pub constraints: Map<u64, Option<ConstraintMetaView>>,
    pub compat: CompatView,
}

impl View for CatalogDraft {
    type V = DraftView;

    open spec fn view(&self) -> DraftView {
        DraftView {
            namespaces: changes(self.namespaces@),
            relations: changes(self.relations@),
            columns: changes(self.columns@),
            types: changes(self.types@),
            indexes: changes(self.indexes@),
            constraints: changes(self.constraints@),
            compat: self.compat_rows@,
        }
    }
}

impl DraftView {
    pub open spec fn empty() -> DraftView {
        DraftView {
            namespaces: Map::empty(),
            relations: Map::empty(),
            columns: Map::empty(),
            types: Map::empty(),
            indexes: Map::empty(),
            constraints: Map::empty(),
            compat: CompatView::empty(),
        }
    }

    /// Each row lies in the catalog and under the identity that it names.
    pub open spec fn wf(self) -> bool {
        &&& changes_in_place::<NamespaceMeta>(self.namespaces, PG_NAMESPACE_RELATION_OID)
        &&& changes_in_place::<RelationMeta>(self.relations, PG_CLASS_RELATION_OID)
        &&& changes_in_place::<ColumnMeta>(self.columns, PG_ATTRIBUTE_RELATION_OID)
        &&& changes_in_place::<TypeMeta>(self.types, PG_TYPE_RELATION_OID)
        &&& changes_in_place::<IndexMeta>(self.indexes, PG_INDEX_RELATION_OID)
        &&& changes_in_place::<ConstraintMeta>(self.constraints, PG_CONSTRAINT_RELATION_OID)
        &&& self.compat.wf()
    }

    /// Whether the changes put a record for a row.
    pub open spec fn puts_record(self, relation: u32, id: u64) -> bool {
        ||| relation == PG_NAMESPACE_RELATION_OID && puts(self.namespaces, id)
        ||| relation == PG_CLASS_RELATION_OID && puts(self.relations, id)
        ||| relation == PG_ATTRIBUTE_RELATION_OID && puts(self.columns, id)
        ||| relation == PG_TYPE_RELATION_OID && puts(self.types, id)
        ||| relation == PG_INDEX_RELATION_OID && puts(self.indexes, id)
        ||| relation == PG_CONSTRAINT_RELATION_OID && puts(self.constraints, id)
    }

    /// These changes followed by others: what the others put is no longer
    /// marked as deleted here.
    pub open spec fn merged(self, other: DraftView) -> DraftView {
        DraftView {
            namespaces: self.namespaces.union_prefer_right(other.namespaces),
            relations: self.relations.union_prefer_right(other.relations),
            columns: self.columns.union_prefer_right(other.columns),
            types: self.types.union_prefer_right(other.types),
            indexes: self.indexes.union_prefer_right(other.indexes),
            constraints: self.constraints.union_prefer_right(other.constraints),
            compat: CompatView {
                rows: self.compat.rows,
                tombstones: self.compat.tombstones.filter(
                    |k: (u32, u64)| !other.puts_record(k.0, k.1),
                ),
            }.merged(other.compat),
        }
    }

    /// The state of the catalogs after the changes.
    pub open spec fn applied(self, snapshot: SnapshotView) -> SnapshotView {
        SnapshotView {
            generation: snapshot.generation,
            namespaces: patched(snapshot.namespaces, self.namespaces),
            relations: patched(snapshot.relations, self.relations),
            columns: patched(snapshot.columns, self.columns),
            types: patched(snapshot.types, self.types),
            indexes: patched(snapshot.indexes, self.indexes),
            constraints: patched(snapshot.constraints, self.constraints),
            compat: snapshot.compat.merged(self.compat),
        }
    }

    /// With a row put: as a record where its catalog is one of those that
    /// records are kept of and the row describes one, laid over its catalog
    /// otherwise.
    pub open spec fn with_row(
        self,
        generated: GeneratedCatalog,
        table: StaticCatalogTable,
        row: CatalogRowView,
    ) -> DraftView {
        let relation = table.oid.0;
        let id = row.row_id;
        let compat = self.compat.without_mark(relation, id);
        if relation == PG_NAMESPACE_RELATION_OID && meta::namespace_of(
            generated,
            table,
            row,
            id,
        ) is Some {
            DraftView {
                namespaces: self.namespaces.insert(
                    id,
                    meta::namespace_of(generated, table, row, id),
                ),
                compat,
                ..self
            }
        } else if relation == PG_CLASS_RELATION_OID && meta::relation_of(
            generated,
            table,
            row,
            id,
        ) is Some {
            DraftView {
                relations: self.relations.insert(
                    id,
                    meta::relation_of(generated, table, row, id),
                ),
                compat,
                ..self
            }
        } else if relation == PG_ATTRIBUTE_RELATION_OID && meta::column_of(
            generated,
            table,
            row,
            id,
        ) is Some {
            DraftView {
                columns: self.columns.insert(id, meta::column_of(generated, table, row, id)),
                compat,
                ..self
            }
        } else if relation == PG_TYPE_RELATION_OID && meta::type_of(
            generated,
            table,
            row,
            id,
        ) is Some {
            DraftView {
                types: self.types.insert(id, meta::type_of(generated, table, row, id)),
                compat,
                ..self
            }
        } else if relation == PG_INDEX_RELATION_OID && meta::index_of(generated, row, id) is Some {
            DraftView {
                indexes: self.indexes.insert(id, meta::index_of(generated, row, id)),
                compat,
                ..self
            }
        } else if relation == PG_CONSTRAINT_RELATION_OID && meta::constraint_of(
            generated,
            table,
            row,
            id,
        ) is Some {
            DraftView {
                constraints: self.constraints.insert(
                    id,
                    meta::constraint_of(generated, table, row, id),
                ),
                compat,
                ..self
            }
        } else {
            DraftView { compat: self.compat.with_row(row), ..self }
        }
    }

    /// With a row removed.
    pub open spec fn without_row(self, relation: u32, id: u64) -> DraftView {
        let compat = self.compat.without_row(relation, id);
        if relation == PG_NAMESPACE_RELATION_OID {
            DraftView { namespaces: self.namespaces.insert(id, None), compat, ..self }
        } else if relation == PG_CLASS_RELATION_OID {
            DraftView { relations: self.relations.insert(id, None), compat, ..self }
        } else if relation == PG_ATTRIBUTE_RELATION_OID {
            DraftView { columns: self.columns.insert(id, None), compat, ..self }
        } else if relation == PG_TYPE_RELATION_OID {
            DraftView { types: self.types.insert(id, None), compat, ..self }
        } else if relation == PG_INDEX_RELATION_OID {
            DraftView { indexes: self.indexes.insert(id, None), compat, ..self }
        } else if relation == PG_CONSTRAINT_RELATION_OID {
            DraftView { constraints: self.constraints.insert(id, None), compat, ..self }
        } else {
            DraftView { compat, ..self }
        }
    }
}

impl CatalogDraft {
    pub fn new() -> (r: Self)
        ensures
            r@ == DraftView::empty(),
            r@.wf(),
    {
        let r = CatalogDraft {
            namespaces: BTreeMap::new(),
            relations: BTreeMap::new(),
            columns: BTreeMap::new(),
            types: BTreeMap::new(),
            indexes: BTreeMap::new(),
            constraints: BTreeMap::new(),
            compat_rows: CompatCatalogRows::new(),
        };
        assert(r@.namespaces =~= Map::empty());
        assert(r@.relations =~= Map::empty());
        assert(r@.columns =~= Map::empty());
        assert(r@.types =~= Map::empty());
        assert(r@.indexes =~= Map::empty());
        assert(r@.constraints =~= Map::empty());
        r
    }

    pub fn is_empty(&self) -> (r: bool)
        ensures
            r == (self@ == DraftView::empty()),
    {
        let r = self.namespaces.is_empty() && self.relations.is_empty() && self.columns.is_empty()
            && self.types.is_empty() && self.indexes.is_empty() && self.constraints.is_empty()
            && self.compat_rows.is_empty();
        proof {
            if r {
                assert(self@.namespaces =~= Map::empty());
                assert(self@.relations =~= Map::empty());
                assert(self@.columns =~= Map::empty());
                assert(self@.types =~= Map::empty());
                assert(self@.indexes =~= Map::empty());
                assert(self@.constraints =~= Map::empty());
            }
            if self@ == DraftView::empty() {
                lemma_no_changes(self.namespaces@);
                lemma_no_changes(self.relations@);
                lemma_no_changes(self.columns@);
                lemma_no_changes(self.types@);
                lemma_no_changes(self.indexes@);
                lemma_no_changes(self.constraints@);
            }
        }
        r
    }

    /// Adds later changes to these.
    pub fn merge(&mut self, other: &CatalogDraft)
        requires
            old(self)@.wf(),
            other@.wf(),
        ensures
            final(self)@ == old(self)@.merged(other@),
            final(self)@.wf(),
    {
        let ghost start = self@;
        unmark(&mut self.compat_rows, PG_NAMESPACE_RELATION_OID, &other.namespaces);
        unmark(&mut self.compat_rows, PG_CLASS_RELATION_OID, &other.relations);
        unmark(&mut self.compat_rows, PG_ATTRIBUTE_RELATION_OID, &other.columns);
        unmark(&mut self.compat_rows, PG_TYPE_RELATION_OID, &other.types);
        unmark(&mut self.compat_rows, PG_INDEX_RELATION_OID, &other.indexes);
        unmark(&mut self.compat_rows, PG_CONSTRAINT_RELATION_OID, &other.constraints);
        assert(self.compat_rows@.rows =~= start.compat.rows);
        assert(self.compat_rows@.tombstones =~= start.compat.tombstones.filter(
            |k: (u32, u64)| !other@.puts_record(k.0, k.1),
        ));
        extend_changes(&mut self.namespaces, &other.namespaces);
        extend_changes(&mut self.relations, &other.relations);
        extend_changes(&mut self.columns, &other.columns);
        extend_changes(&mut self.types, &other.types);
        extend_changes(&mut self.indexes, &other.indexes);
        extend_changes(&mut self.constraints, &other.constraints);
        self.compat_rows.merge(&other.compat_rows);
    }

    /// Applies the changes to a state of the catalogs.
    pub fn apply_to_snapshot(&self, generated: &GeneratedCatalog, snapshot: &mut CatalogSnapshot)
        requires
            self@.wf(),
            old(snapshot)@.wf(),
        ensures
            final(snapshot)@ == self@.applied(old(snapshot)@),
            final(snapshot).wf(*generated),
    {
        apply_changes(&self.namespaces, &mut snapshot.namespaces);
        apply_changes(&self.relations, &mut snapshot.relations);
        apply_changes(&self.columns, &mut snapshot.columns);
        apply_changes(&self.types, &mut snapshot.types);
        apply_changes(&self.indexes, &mut snapshot.indexes);
        apply_changes(&self.constraints, &mut snapshot.constraints);
        snapshot.compat_rows.merge(&self.compat_rows);
        snapshot.rebuild_indexes(generated);
        proof {
            lemma_applied_wf(self@, old(snapshot)@);
        }
    }

    /// Puts a row.
    pub fn upsert_catalog_row(
        &mut self,
        generated: &GeneratedCatalog,
        table: &StaticCatalogTable,
        row: CatalogRow,
    )
        requires
            old(self)@.wf(),
            row.relation_oid == table.oid,
        ensures
            final(self)@ == old(self)@.with_row(*generated, *table, row@),
            final(self)@.wf(),
    {
        let row_id = row.row_id;
        let relation = table.oid.0;
        let ghost start = self@;
        let ghost wanted = start.with_row(*generated, *table, row@);
        if relation == PG_NAMESPACE_RELATION_OID {
            match meta::namespace_meta_from_row(generated, table, &row, row_id) {
                Some(record) => {
                    self.namespaces.insert(row_id, Some(record));
                    self.compat_rows.untombstone(table.oid, row_id);
                    assert(self@.namespaces =~= wanted.namespaces);
                    return ;
                },
                None => {},
            }
        } else if relation == PG_CLASS_RELATION_OID {
            match meta::relation_meta_from_row(generated, table, &row, row_id) {
                Some(record) => {
                    self.relations.insert(row_id, Some(record));
                    self.compat_rows.untombstone(table.oid, row_id);
                    assert(self@.relations =~= wanted.relations);
                    return ;
                },
                None => {},
            }
        } else if relation == PG_ATTRIBUTE_RELATION_OID {
            match meta::column_meta_from_row(generated, table, &row, row_id) {
                Some(record) => {
                    self.columns.insert(row_id, Some(record));
                    self.compat_rows.untombstone(table.oid, row_id);
                    assert(self@.columns =~= wanted.columns);
                    return ;
                },
                None => {},
            }
        } else if relation == PG_TYPE_RELATION_OID {
            match meta::type_meta_from_row(generated, table, &row, row_id) {
                Some(record) => {
                    self.types.insert(row_id, Some(record));
                    self.compat_rows.untombstone(table.oid, row_id);
                    assert(self@.types =~= wanted.types);
                    return ;
                },
                None => {},
            }
        } else if relation == PG_INDEX_RELATION_OID {
            match meta::index_meta_from_row(generated, &row, row_id) {
                Some(record) => {
                    self.indexes.insert(row_id, Some(record));
                    self.compat_rows.untombstone(table.oid, row_id);
                    assert(self@.indexes =~= wanted.indexes);
                    return ;
                },
                None => {},
            }
        } else if relation == PG_CONSTRAINT_RELATION_OID {
            match meta::constraint_meta_from_row(generated, table, &row, row_id) {
                Some(record) => {
                    self.constraints.insert(row_id, Some(record));
                    self.compat_rows.untombstone(table.oid, row_id);
                    assert(self@.constraints =~= wanted.constraints);
                    return ;
                },
                None => {},
            }
        }
        self.compat_rows.insert(row);
    }

    /// Removes a row.
    pub fn delete_catalog_row(&mut self, relation_oid: Oid, row_id: u64)
        requires
            old(self)@.wf(),
        ensures
            final(self)@ == old(self)@.without_row(relation_oid.0, row_id),
            final(self)@.wf(),
    {
        let relation = relation_oid.0;
        let ghost wanted = self@.without_row(relation, row_id);
        if relation == PG_NAMESPACE_RELATION_OID {
            self.namespaces.insert(row_id, None);
            assert(self@.namespaces =~= wanted.namespaces);
        } else if relation == PG_CLASS_RELATION_OID {
            self.relations.insert(row_id, None);
            assert(self@.relations =~= wanted.relations);
        } else if relation == PG_ATTRIBUTE_RELATION_OID {
            self.columns.insert(row_id, None);
            assert(self@.columns =~= wanted.columns);
        } else if relation == PG_TYPE_RELATION_OID {
            self.types.insert(row_id, None);
            assert(self@.types =~= wanted.types);
        } else if relation == PG_INDEX_RELATION_OID {
            self.indexes.insert(row_id, None);
            assert(self@.indexes =~= wanted.indexes);
        } else if relation == PG_CONSTRAINT_RELATION_OID {
            self.constraints.insert(row_id, None);
            assert(self@.constraints =~= wanted.constraints);
        }
        self.compat_rows.delete(relation_oid, row_id);
    }
}

proof fn lemma_no_changes<M: Meta>(m: Map<u64, Option<M>>)
    requires
        changes(m) == Map::<u64, Option<M::V>>::empty(),
    ensures
        m == Map::<u64, Option<M>>::empty(),
{
    assert forall|k: u64| !m.contains_key(k) by {
        assert(!changes(m).contains_key(k));
    }
    assert(m =~= Map::empty());
}

proof fn lemma_applied_wf(d: DraftView, s: SnapshotView)
    requires
        d.wf(),
        s.wf(),
    ensures
        d.applied(s).wf(),
{
    let r = d.applied(s);
    assert forall|k: (u32, u64)| #[trigger] r.compat.rows.contains_key(k) implies
        r.compat.rows[k].relation_oid.0 == k.0 && r.compat.rows[k].row_id == k.1
        && !r.compat.tombstones.contains(k) by {
        if d.compat.rows.contains_key(k) {
        } else {
            assert(s.compat.rows.contains_key(k));
        }
    }
}

/// No changes leave the state as it is.
pub proof fn no_changes_keep_the_state(s: SnapshotView)
    ensures
        DraftView::empty().applied(s) == s,
{
    let r = DraftView::empty().applied(s);
    assert(r.namespaces =~= s.namespaces);
    assert(r.relations =~= s.relations);
    assert(r.columns =~= s.columns);
    assert(r.types =~= s.types);
    assert(r.indexes =~= s.indexes);
    assert(r.constraints =~= s.constraints);
    assert(r.compat.rows =~= s.compat.rows);
    assert(r.compat.tombstones =~= s.compat.tombstones);
}

/// Merged changes have the effect of the changes one after the other, where
/// the later ones put no record for a row that the earlier ones deleted.
pub proof fn merged_changes_apply_in_turn(a: DraftView, b: DraftView, s: SnapshotView)
    requires
        a.wf(),
        b.wf(),
        forall|relation: u32, id: u64|
            a.compat.tombstones.contains((relation, id)) ==> !#[trigger] b.puts_record(
                relation,
                id,
            ),
    ensures
        a.merged(b).applied(s) == b.applied(a.applied(s)),
{
    merged_records_apply_in_turn(a, b, s);
    assert(a.compat.tombstones.filter(|k: (u32, u64)| !b.puts_record(k.0, k.1))
        =~= a.compat.tombstones);
    crate::catalog::overlay::merging_overlays_is_associative(s.compat, a.compat, b.compat);
}

/// Merged changes leave the records that the changes leave one after the other.
pub proof fn merged_records_apply_in_turn(a: DraftView, b: DraftView, s: SnapshotView)
    ensures
        a.merged(b).applied(s) == (SnapshotView {
            compat: a.merged(b).applied(s).compat,
            ..b.applied(a.applied(s))
        }),
{
    patching_twice_patches_both(s.namespaces, a.namespaces, b.namespaces);
    patching_twice_patches_both(s.relations, a.relations, b.relations);
    patching_twice_patches_both(s.columns, a.columns, b.columns);
    patching_twice_patches_both(s.types, a.types, b.types);
    patching_twice_patches_both(s.indexes, a.indexes, b.indexes);
    patching_twice_patches_both(s.constraints, a.constraints, b.constraints);
}

/// Whether a row is recorded.
pub open spec fn is_recorded(s: SnapshotView, row: CatalogRowView) -> bool {
    let relation = row.relation_oid.0;
    let id = row.row_id;
    ||| relation == PG_NAMESPACE_RELATION_OID && s.namespaces.contains_key(id)
        && s.namespaces[id].row == row
    ||| relation == PG_CLASS_RELATION_OID && s.relations.contains_key(id) && s.relations[id].row
        == row
    ||| relation == PG_ATTRIBUTE_RELATION_OID && s.columns.contains_key(id) && s.columns[id].row
        == row
    ||| relation == PG_TYPE_RELATION_OID && s.types.contains_key(id) && s.types[id].row == row
    ||| relation == PG_INDEX_RELATION_OID && s.indexes.contains_key(id) && s.indexes[id].row
        == row
    ||| relation == PG_CONSTRAINT_RELATION_OID && s.constraints.contains_key(id)
        && s.constraints[id].row == row
}

/// Whether the records or the rows laid over the catalogs hold a row.
pub open spec fn holds_row(s: SnapshotView, row: CatalogRowView) -> bool {
    let k = (row.relation_oid.0, row.row_id);
    is_recorded(s, row) || (s.compat.rows.contains_key(k) && s.compat.rows[k] == row)
}

/// A row that was put is held once the changes are applied, and the changes
/// themselves do not mark it as deleted.
pub proof fn a_put_row_is_held(
    d: DraftView,
    generated: GeneratedCatalog,
    table: StaticCatalogTable,
    row: CatalogRowView,
    s: SnapshotView,
)
    requires
        row.relation_oid == table.oid,
    ensures
        holds_row(d.with_row(generated, table, row).applied(s), row),
        !d.with_row(generated, table, row).compat.tombstones.contains((table.oid.0, row.row_id)),
{
}

/// A row that was removed is held no longer, and is marked as deleted.
pub proof fn a_removed_row_is_not_held(
    d: DraftView,
    relation: u32,
    id: u64,
    s: SnapshotView,
    row: CatalogRowView,
)
    requires
        row.relation_oid.0 == relation,
        row.row_id == id,
    ensures
        !holds_row(d.without_row(relation, id).applied(s), row),
        d.without_row(relation, id).applied(s).compat.tombstones.contains((relation, id)),
{
}

pub(crate) proof fn lemma_merged_wf(a: DraftView, b: DraftView)
    requires
        a.wf(),
        b.wf(),
    ensures
        a.merged(b).wf(),
{
    let r = a.merged(b);
    assert forall|k: (u32, u64)| #[trigger] r.compat.rows.contains_key(k) implies
        r.compat.rows[k].relation_oid.0 == k.0 && r.compat.rows[k].row_id == k.1
        && !r.compat.tombstones.contains(k) by {
        if b.compat.rows.contains_key(k) {
        } else {
            assert(a.compat.rows.contains_key(k));
        }
    }
}

} // verus!
