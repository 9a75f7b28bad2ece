//! Rows that are laid over the rows of the catalogs, and rows that are marked
//! as deleted.

use std::collections::{BTreeMap, BTreeSet};
use vstd::prelude::*;

use crate::catalog::model::{CatalogRow, CatalogRowView};
use crate::ordered;
use crate::types::Oid;

verus! {

broadcast use vstd::std_specs::btree::group_btree_axioms;

/// What a set of row maps holds.
pub open spec fn row_map(m: Map<u64, CatalogRow>) -> Map<u64, CatalogRowView> {
    Map::new(|k: u64| m.contains_key(k), |k: u64| m[k]@)
}

/// The rows laid over the catalogs, and the marks of deleted rows, each by
/// catalog and by row.
#[derive(Debug, PartialEq, Eq)]
pub struct CompatCatalogRows {
    pub rows: BTreeMap<u32, BTreeMap<u64, CatalogRow>>,
    pub tombstones: BTreeMap<u32, BTreeSet<u64>>,
}

pub struct CompatView {
    pub rows: Map<(u32, u64), CatalogRowView>,
    pub tombstones: Set<(u32, u64)>,
}

impl View for CompatCatalogRows {
    type V = CompatView;

    open spec fn view(&self) -> CompatView {
        CompatView {
            rows: Map::new(
                |k: (u32, u64)| self.rows@.contains_key(k.0) && self.rows@[k.0]@.contains_key(k.1),
                |k: (u32, u64)| self.rows@[k.0]@[k.1]@,
            ),
            tombstones: Set::new(
                |k: (u32, u64)|
                    self.tombstones@.contains_key(k.0) && self.tombstones@[k.0]@.contains(k.1),
            ),
        }
    }
}

impl CompatView {
    pub open spec fn empty() -> CompatView {
        CompatView { rows: Map::empty(), tombstones: Set::empty() }
    }

    /// Each row lies where it says it belongs, and no row that is laid over
    /// its catalog is marked as deleted.
    pub open spec fn wf(self) -> bool {
        &&& forall|k: (u32, u64)| #[trigger]
            self.rows.contains_key(k) ==> self.rows[k].relation_oid.0 == k.0
                && self.rows[k].row_id == k.1
        &&& forall|k: (u32, u64)| #[trigger]
            self.rows.contains_key(k) ==> !self.tombstones.contains(k)
    }

    /// With a row laid over its catalog.
    pub open spec fn with_row(self, row: CatalogRowView) -> CompatView {
        let k = (row.relation_oid.0, row.row_id);
        CompatView {
            rows: self.rows.insert(k, row),
            tombstones: self.tombstones.remove(k),
        }
    }

    /// Without the mark of a deleted row.
    pub open spec fn without_mark(self, relation: u32, row_id: u64) -> CompatView {
        CompatView { tombstones: self.tombstones.remove((relation, row_id)), ..self }
    }

    /// With a row marked as deleted.
    pub open spec fn without_row(self, relation: u32, row_id: u64) -> CompatView {
        CompatView {
            rows: self.rows.remove((relation, row_id)),
            tombstones: self.tombstones.insert((relation, row_id)),
        }
    }

    /// With several rows marked as deleted.
    pub open spec fn without_rows(self, gone: Set<(u32, u64)>) -> CompatView {
        CompatView {
            rows: self.rows.remove_keys(gone),
            tombstones: self.tombstones.union(gone),
        }
    }

    /// With several rows laid over their catalogs.
    pub open spec fn with_rows(self, more: Map<(u32, u64), CatalogRowView>) -> CompatView {
        CompatView {
            rows: self.rows.union_prefer_right(more),
            tombstones: self.tombstones.difference(more.dom()),
        }
    }

    /// With what another set deletes deleted, and what it lays over laid over.
    pub open spec fn merged(self, other: CompatView) -> CompatView {
        self.without_rows(other.tombstones).with_rows(other.rows)
    }

    /// The rows of a catalog once the marks and the rows are applied to it.
    pub open spec fn applied(
        self,
        relation: u32,
        base: Map<u64, CatalogRowView>,
    ) -> Map<u64, CatalogRowView> {
        Map::new(
            |id: u64|
                self.rows.contains_key((relation, id)) || (base.contains_key(id)
                    && !self.tombstones.contains((relation, id))),
            |id: u64|
                if self.rows.contains_key((relation, id)) {
                    self.rows[(relation, id)]
                } else {
                    base[id]
                },
        )
    }
}

/// A row that was laid over a catalog is read back from it, and a row that was
/// deleted is not.
pub proof fn overlay_reads_back(
    v: CompatView,
    row: CatalogRowView,
    base: Map<u64, CatalogRowView>,
)
    ensures
        v.with_row(row).applied(row.relation_oid.0, base).contains_key(row.row_id),
        v.with_row(row).applied(row.relation_oid.0, base)[row.row_id] == row,
        !v.without_row(row.relation_oid.0, row.row_id).applied(
            row.relation_oid.0,
            base,
        ).contains_key(row.row_id),
{
}

/// Merging one set into another has the effect of applying them one after the
/// other.
pub proof fn merged_overlay_applies_in_turn(
    a: CompatView,
    b: CompatView,
    relation: u32,
    base: Map<u64, CatalogRowView>,
)
    ensures
        a.merged(b).applied(relation, base) == b.applied(relation, a.applied(relation, base)),
{
    assert(a.merged(b).applied(relation, base) =~= b.applied(relation, a.applied(relation, base)));
}

/// Merging sets one by one has the effect of merging their merger.
pub proof fn merging_overlays_is_associative(a: CompatView, b: CompatView, c: CompatView)
    requires
        b.wf(),
        c.wf(),
    ensures
        a.merged(b).merged(c) == a.merged(b.merged(c)),
{
    assert(a.merged(b).merged(c).rows =~= a.merged(b.merged(c)).rows);
    assert(a.merged(b).merged(c).tombstones =~= a.merged(b.merged(c)).tombstones);
}

impl CompatCatalogRows {
    pub fn new() -> (r: Self)
        ensures
            r@ == CompatView::empty(),
            r@.wf(),
    {
        let r = CompatCatalogRows { rows: BTreeMap::new(), tombstones: BTreeMap::new() };
        assert(r@.rows =~= CompatView::empty().rows);
        assert(r@.tombstones =~= CompatView::empty().tombstones);
        r
    }

    pub fn is_empty(&self) -> (r: bool)
        ensures
            r == (self@ == CompatView::empty()),
    {
        let relations = ordered::sorted_keys(&self.rows);
        let mut i: usize = 0;
        while i < relations.len()
            invariant
                i <= relations.len(),
                forall|k: u32| #[trigger]
                    relations@.contains(k) <==> self.rows@.contains_key(k),
                forall|j: int|
                    0 <= j < i ==> self.rows@[#[trigger] relations@[j]]@ =~= Map::<
                        u64,
                        CatalogRow,
                    >::empty(),
            decreases relations.len() - i,
        {
            let relation = relations[i];
            assert(relations@.contains(relation));
            match self.rows.get(&relation) {
                Some(inner) => {
                    if !inner.is_empty() {
                        proof {
                            let id = choose|id: u64| inner@.contains_key(id);
                            assert(inner@.contains_key(id)) by {
                                if forall|id: u64| !inner@.contains_key(id) {
                                    assert(inner@ =~= Map::empty());
                                }
                            }
                            assert(self@.rows.contains_key((relation, id)));
                        }
                        return false;
                    }
                    assert(inner@ =~= Map::empty());
                },
                None => {},
            }
            i += 1;
        }
        let marked = ordered::sorted_keys(&self.tombstones);
        i = 0;
        while i < marked.len()
            invariant
                i <= marked.len(),
                forall|k: u32| #[trigger]
                    marked@.contains(k) <==> self.tombstones@.contains_key(k),
                forall|j: int|
                    0 <= j < i ==> self.tombstones@[#[trigger] marked@[j]]@ =~= Set::<
                        u64,
                    >::empty(),
            decreases marked.len() - i,
        {
            let relation = marked[i];
            assert(marked@.contains(relation));
            match self.tombstones.get(&relation) {
                Some(inner) => {
                    if !inner.is_empty() {
                        proof {
                            let id = choose|id: u64| inner@.contains(id);
                            assert(inner@.contains(id)) by {
                                if forall|id: u64| !inner@.contains(id) {
                                    assert(inner@ =~= Set::empty());
                                }
                            }
                            assert(self@.tombstones.contains((relation, id)));
                        }
                        return false;
                    }
                    assert(inner@ =~= Set::empty());
                },
                None => {},
            }
            i += 1;
        }
        proof {
            assert forall|k: (u32, u64)| !self@.rows.contains_key(k) by {
                if self.rows@.contains_key(k.0) {
                    assert(relations@.contains(k.0));
                    let j = choose|j: int| 0 <= j < relations@.len() && relations@[j] == k.0;
                    assert(self.rows@[relations@[j]]@ =~= Map::empty());
                }
            }
            assert forall|k: (u32, u64)| !self@.tombstones.contains(k) by {
                if self.tombstones@.contains_key(k.0) {
                    assert(marked@.contains(k.0));
                    let j = choose|j: int| 0 <= j < marked@.len() && marked@[j] == k.0;
                    assert(self.tombstones@[marked@[j]]@ =~= Set::empty());
                }
            }
            assert(self@.rows =~= CompatView::empty().rows);
            assert(self@.tombstones =~= CompatView::empty().tombstones);
        }
        true
    }

    fn take_rows(&mut self, relation: u32) -> (r: BTreeMap<u64, CatalogRow>)
        ensures
            final(self).tombstones == old(self).tombstones,
            final(self).rows@ == old(self).rows@.remove(relation),
            r@ == (if old(self).rows@.contains_key(relation) {
                old(self).rows@[relation]@
            } else {
                Map::empty()
            }),
    {
        match self.rows.remove(&relation) {
            Some(inner) => inner,
            None => {
                assert(self.rows@ =~= old(self).rows@.remove(relation));
                BTreeMap::new()
            },
        }
    }

    fn take_marks(&mut self, relation: u32) -> (r: BTreeSet<u64>)
        ensures
            final(self).rows == old(self).rows,
            final(self).tombstones@ == old(self).tombstones@.remove(relation),
            r@ == (if old(self).tombstones@.contains_key(relation) {
                old(self).tombstones@[relation]@
            } else {
                Set::empty()
            }),
    {
        match self.tombstones.remove(&relation) {
            Some(inner) => inner,
            None => {
                assert(self.tombstones@ =~= old(self).tombstones@.remove(relation));
                BTreeSet::new()
            },
        }
    }

    /// Lays a row over its catalog.
    pub fn insert(&mut self, row: CatalogRow)
        ensures
            final(self)@ == old(self)@.with_row(row@),
            old(self)@.wf() ==> final(self)@.wf(),
    {
        let ghost wanted = self@.with_row(row@);
        let relation = row.relation_oid.0;
        let row_id = row.row_id;
        let mut marks = self.take_marks(relation);
        marks.remove(&row_id);
        self.tombstones.insert(relation, marks);
        let mut rows = self.take_rows(relation);
        rows.insert(row_id, row);
        self.rows.insert(relation, rows);
        assert(self@.rows =~= wanted.rows);
        assert(self@.tombstones =~= wanted.tombstones);
    }

    /// Whether a row is marked as deleted.
    pub fn has_tombstone(&self, relation_oid: Oid, row_id: u64) -> (r: bool)
        ensures
            r == self@.tombstones.contains((relation_oid.0, row_id)),
    {
        match self.tombstones.get(&relation_oid.0) {
            Some(marks) => marks.contains(&row_id),
            None => false,
        }
    }

    /// Removes the mark of a deleted row, if there is one.
    pub fn untombstone(&mut self, relation_oid: Oid, row_id: u64)
        ensures
            final(self)@ == old(self)@.without_mark(relation_oid.0, row_id),
            old(self)@.wf() ==> final(self)@.wf(),
    {
        let ghost wanted = self@.without_mark(relation_oid.0, row_id);
        let mut marks = self.take_marks(relation_oid.0);
        marks.remove(&row_id);
        self.tombstones.insert(relation_oid.0, marks);
        assert(self@.rows =~= wanted.rows);
        assert(self@.tombstones =~= wanted.tombstones);
    }

    /// Marks a row as deleted.
    pub fn delete(&mut self, relation_oid: Oid, row_id: u64)
        ensures
            final(self)@ == old(self)@.without_row(relation_oid.0, row_id),
            old(self)@.wf() ==> final(self)@.wf(),
    {
        let ghost wanted = self@.without_row(relation_oid.0, row_id);
        let relation = relation_oid.0;
        let mut rows = self.take_rows(relation);
        rows.remove(&row_id);
        self.rows.insert(relation, rows);
        let mut marks = self.take_marks(relation);
        marks.insert(row_id);
        self.tombstones.insert(relation, marks);
        assert(self@.rows =~= wanted.rows);
        assert(self@.tombstones =~= wanted.tombstones);
    }

    /// The places of the rows that are marked as deleted.
    fn marked(&self) -> (r: Vec<(u32, u64)>)
        ensures
            forall|k: (u32, u64)| #[trigger] r@.contains(k) <==> self@.tombstones.contains(k),
    {
        let relations = ordered::sorted_keys(&self.tombstones);
        let mut r: Vec<(u32, u64)> = Vec::new();
        let mut i: usize = 0;
        while i < relations.len()
            invariant
                i <= relations.len(),
                forall|k: u32| #[trigger]
                    relations@.contains(k) <==> self.tombstones@.contains_key(k),
                forall|k: (u32, u64)| #[trigger]
                    r@.contains(k) ==> self@.tombstones.contains(k),
                forall|k: (u32, u64)|
                    #![trigger self@.tombstones.contains(k)]
                    self@.tombstones.contains(k) && relations@.take(i as int).contains(k.0)
                        ==> r@.contains(k),
            decreases relations.len() - i,
        {
            let relation = relations[i];
            assert(relations@.contains(relation));
            let inner = match self.tombstones.get(&relation) {
                Some(inner) => inner,
                None => {
                    assert(false);
                    return r;
                },
            };
            let ids = ordered::sorted_members(inner);
            let ghost before = r@;
            let mut j: usize = 0;
            while j < ids.len()
                invariant
                    j <= ids.len(),
                    self.tombstones@.contains_key(relation),
                    inner@ == self.tombstones@[relation]@,
                    forall|k: u64| #[trigger] ids@.contains(k) <==> inner@.contains(k),
                    forall|k: (u32, u64)| #[trigger]
                        r@.contains(k) ==> self@.tombstones.contains(k),
                    forall|k: (u32, u64)| before.contains(k) ==> #[trigger] r@.contains(k),
                    forall|m: int| 0 <= m < j ==> r@.contains((relation, #[trigger] ids@[m])),
                decreases ids.len() - j,
            {
                let ghost held = r@;
                assert(ids@.contains(ids@[j as int]));
                r.push((relation, ids[j]));
                assert(r@ =~= held.push((relation, ids@[j as int])));
                assert(r@[held.len() as int] == (relation, ids@[j as int]));
                assert forall|k: (u32, u64)| held.contains(k) implies #[trigger] r@.contains(k) by {
                    let n = choose|n: int| 0 <= n < held.len() && held[n] == k;
                    assert(r@[n] == k);
                }
                assert forall|k: (u32, u64)| #[trigger]
                    r@.contains(k) implies self@.tombstones.contains(k) by {
                    let n = choose|n: int| 0 <= n < r@.len() && r@[n] == k;
                    if n < held.len() {
                        assert(held.contains(k));
                    }
                }
                j += 1;
            }
            assert forall|k: (u32, u64)|
                #![trigger self@.tombstones.contains(k)]
                self@.tombstones.contains(k) && relations@.take(i + 1).contains(
                    k.0,
                ) implies r@.contains(k) by {
                let seen = relations@.take(i + 1);
                let n = choose|n: int| 0 <= n < seen.len() && seen[n] == k.0;
                if n < i {
                    assert(relations@.take(i as int)[n] == k.0);
                    assert(before.contains(k));
                } else {
                    assert(ids@.contains(k.1));
                    let m = choose|m: int| 0 <= m < ids@.len() && ids@[m] == k.1;
                    assert(r@.contains((relation, ids@[m])));
                }
            }
            i += 1;
        }
        assert(relations@.take(i as int) =~= relations@);
        assert forall|k: (u32, u64)| #[trigger] r@.contains(k) <==> self@.tombstones.contains(
            k,
        ) by {
            if self@.tombstones.contains(k) {
                assert(relations@.contains(k.0));
            }
        }
        r
    }

    /// The rows that are laid over the catalogs.
    fn laid_over(&self) -> (r: Vec<CatalogRow>)
        requires
            self@.wf(),
        ensures
            forall|i: int|
                0 <= i < r@.len() ==> {
                    let k = ((#[trigger] r@[i]).relation_oid.0, r@[i].row_id);
                    self@.rows.contains_key(k) && self@.rows[k] == r@[i]@
                },
            forall|k: (u32, u64)| #[trigger]
                self@.rows.contains_key(k) ==> exists|i: int|
                    0 <= i < r@.len() && (#[trigger] r@[i])@ == self@.rows[k],
    {
        let relations = ordered::sorted_keys(&self.rows);
        let mut r: Vec<CatalogRow> = Vec::new();
        let mut i: usize = 0;
        while i < relations.len()
            invariant
                i <= relations.len(),
                self@.wf(),
                forall|k: u32| #[trigger]
                    relations@.contains(k) <==> self.rows@.contains_key(k),
                forall|n: int|
                    0 <= n < r@.len() ==> {
                        let k = ((#[trigger] r@[n]).relation_oid.0, r@[n].row_id);
                        self@.rows.contains_key(k) && self@.rows[k] == r@[n]@
                    },
                forall|k: (u32, u64)| #[trigger]
                    self@.rows.contains_key(k) && relations@.take(i as int).contains(k.0)
                        ==> exists|n: int|
                        0 <= n < r@.len() && (#[trigger] r@[n])@ == self@.rows[k],
            decreases relations.len() - i,
        {
            let relation = relations[i];
            assert(relations@.contains(relation));
            let inner = match self.rows.get(&relation) {
                Some(inner) => inner,
                None => {
                    assert(false);
                    return r;
                },
            };
            let ids = ordered::sorted_keys(inner);
            let ghost before = r@;
            let mut j: usize = 0;
            while j < ids.len()
                invariant
                    j <= ids.len(),
                    self@.wf(),
                    self.rows@.contains_key(relation),
                    inner@ == self.rows@[relation]@,
                    forall|k: u64| #[trigger] ids@.contains(k) <==> inner@.contains_key(k),
                    before.len() <= r@.len(),
                    forall|n: int| 0 <= n < before.len() ==> #[trigger] r@[n] == before[n],
                    forall|n: int|
                        0 <= n < r@.len() ==> {
                            let k = ((#[trigger] r@[n]).relation_oid.0, r@[n].row_id);
                            self@.rows.contains_key(k) && self@.rows[k] == r@[n]@
                        },
                    forall|m: int|
                        0 <= m < j ==> exists|n: int|
                            0 <= n < r@.len() && (#[trigger] r@[n])@ == self@.rows[(
                                relation,
                                #[trigger] ids@[m],
                            )],
                decreases ids.len() - j,
            {
                let id = ids[j];
                assert(ids@.contains(id));
                let row = match inner.get(&id) {
                    Some(row) => row.clone(),
                    None => {
                        assert(false);
                        return r;
                    },
                };
                let ghost held = r@;
                assert(self@.rows.contains_key((relation, id)));
                r.push(row);
                assert(r@[held.len() as int]@ == self@.rows[(relation, ids@[j as int])]);
                assert forall|m: int| 0 <= m < j + 1 implies exists|n: int|
                    0 <= n < r@.len() && (#[trigger] r@[n])@ == self@.rows[(
                        relation,
                        #[trigger] ids@[m],
                    )] by {
                    if m < j {
                        let n = choose|n: int|
                            0 <= n < held.len() && (#[trigger] held[n])@ == self@.rows[(
                                relation,
                                ids@[m],
                            )];
                        assert(r@[n] == held[n]);
                    }
                }
                j += 1;
            }
            assert forall|k: (u32, u64)| #[trigger]
                self@.rows.contains_key(k) && relations@.take(i + 1).contains(
                    k.0,
                ) implies exists|n: int|
                0 <= n < r@.len() && (#[trigger] r@[n])@ == self@.rows[k] by {
                let seen = relations@.take(i + 1);
                let p = choose|p: int| 0 <= p < seen.len() && seen[p] == k.0;
                if p < i {
                    assert(relations@.take(i as int)[p] == k.0);
                    let n = choose|n: int|
                        0 <= n < before.len() && (#[trigger] before[n])@ == self@.rows[k];
                    assert(r@[n] == before[n]);
                } else {
                    assert(ids@.contains(k.1));
                    let m = choose|m: int| 0 <= m < ids@.len() && ids@[m] == k.1;
                    assert(self@.rows[(relation, ids@[m])] == self@.rows[k]);
                }
            }
            i += 1;
        }
        assert(relations@.take(i as int) =~= relations@);
        assert forall|k: (u32, u64)| #[trigger] self@.rows.contains_key(k) implies exists|n: int|
            0 <= n < r@.len() && (#[trigger] r@[n])@ == self@.rows[k] by {
            assert(relations@.contains(k.0));
        }
        r
    }

    /// Applies what another set deletes and lays over to this one.
    pub fn merge(&mut self, other: &CompatCatalogRows)
        requires
            old(self)@.wf(),
            other@.wf(),
        ensures
            final(self)@ == old(self)@.merged(other@),
            final(self)@.wf(),
    {
        let ghost start = self@;
        let marks = other.marked();
        let mut i: usize = 0;
        let ghost mut gone: Set<(u32, u64)> = Set::empty();
        assert(self@.rows =~= start.without_rows(gone).rows);
        assert(self@.tombstones =~= start.without_rows(gone).tombstones);
        while i < marks.len()
            invariant
                i <= marks.len(),
                self@.wf(),
                self@ == start.without_rows(gone),
                forall|k: (u32, u64)| #[trigger] gone.contains(k) ==> marks@.contains(k),
                forall|j: int| 0 <= j < i ==> gone.contains(#[trigger] marks@[j]),
            decreases marks.len() - i,
        {
            let (relation, row_id) = marks[i];
            self.delete(Oid(relation), row_id);
            proof {
                assert(marks@.contains(marks@[i as int]));
                gone = gone.insert((relation, row_id));
                assert(self@.rows =~= start.without_rows(gone).rows);
                assert(self@.tombstones =~= start.without_rows(gone).tombstones);
            }
            i += 1;
        }
        assert(gone =~= other@.tombstones) by {
            assert forall|k: (u32, u64)| other@.tombstones.contains(k) implies gone.contains(k) by {
                assert(marks@.contains(k));
                let j = choose|j: int| 0 <= j < marks@.len() && marks@[j] == k;
                assert(gone.contains(marks@[j]));
            }
        }
        let ghost middle = self@;
        let rows = other.laid_over();
        let ghost mut added: Set<(u32, u64)> = Set::empty();
        assert(self@.rows =~= middle.with_rows(other@.rows.restrict(added)).rows);
        assert(self@.tombstones =~= middle.with_rows(other@.rows.restrict(added)).tombstones);
        i = 0;
        while i < rows.len()
            invariant
                i <= rows.len(),
                self@.wf(),
                self@ == middle.with_rows(other@.rows.restrict(added)),
                forall|n: int|
                    0 <= n < rows@.len() ==> {
                        let k = ((#[trigger] rows@[n]).relation_oid.0, rows@[n].row_id);
                        other@.rows.contains_key(k) && other@.rows[k] == rows@[n]@
                    },
                forall|k: (u32, u64)| #[trigger]
                    added.contains(k) ==> other@.rows.contains_key(k),
                forall|j: int|
                    0 <= j < i ==> added.contains(
                        ((#[trigger] rows@[j]).relation_oid.0, rows@[j].row_id),
                    ),
            decreases rows.len() - i,
        {
            let row = rows[i].clone();
            let ghost k = (rows@[i as int].relation_oid.0, rows@[i as int].row_id);
            self.insert(row);
            proof {
                added = added.insert(k);
                assert(self@.rows =~= middle.with_rows(other@.rows.restrict(added)).rows);
                assert(self@.tombstones =~= middle.with_rows(
                    other@.rows.restrict(added),
                ).tombstones);
            }
            i += 1;
        }
        assert(other@.rows.restrict(added) =~= other@.rows) by {
            assert forall|k: (u32, u64)| #[trigger]
                other@.rows.contains_key(k) implies added.contains(k) by {
                let n = choose|n: int|
                    0 <= n < rows@.len() && (#[trigger] rows@[n])@ == other@.rows[k];
                assert(added.contains((rows@[n].relation_oid.0, rows@[n].row_id)));
            }
        }
    }

    /// Applies the marks and the rows of a catalog to the rows it has.
    pub fn apply_to_rows(&self, relation_oid: Oid, rows: &mut BTreeMap<u64, CatalogRow>)
        ensures
            row_map(final(rows)@) == self@.applied(relation_oid.0, row_map(old(rows)@)),
    {
        let relation = relation_oid.0;
        let ghost start = rows@;
        let ghost mut gone: Set<u64> = Set::empty();
        assert(rows@ =~= start.remove_keys(gone));
        match self.tombstones.get(&relation) {
            Some(marks) => {
                let ids = ordered::sorted_members(marks);
                let mut i: usize = 0;
                while i < ids.len()
                    invariant
                        i <= ids.len(),
                        rows@ == start.remove_keys(gone),
                        forall|k: u64| #[trigger] ids@.contains(k) <==> marks@.contains(k),
                        forall|k: u64| #[trigger] gone.contains(k) ==> marks@.contains(k),
                        forall|j: int| 0 <= j < i ==> gone.contains(#[trigger] ids@[j]),
                    decreases ids.len() - i,
                {
                    let id = ids[i];
                    rows.remove(&id);
                    proof {
                        assert(ids@.contains(id));
                        gone = gone.insert(id);
                        assert(rows@ =~= start.remove_keys(gone));
                    }
                    i += 1;
                }
                assert(gone =~= marks@) by {
                    assert forall|k: u64| marks@.contains(k) implies gone.contains(k) by {
                        assert(ids@.contains(k));
                        let j = choose|j: int| 0 <= j < ids@.len() && ids@[j] == k;
                        assert(gone.contains(ids@[j]));
                    }
                }
            },
            None => {},
        }
        assert forall|k: u64| gone.contains(k) <==> self@.tombstones.contains((relation, k)) by {}
        let ghost middle = rows@;
        match self.rows.get(&relation) {
            Some(over) => {
                let ids = ordered::sorted_keys(over);
                let mut i: usize = 0;
                while i < ids.len()
                    invariant
                        i <= ids.len(),
                        forall|k: u64| #[trigger] ids@.contains(k) <==> over@.contains_key(k),
                        forall|k: u64| #[trigger]
                            rows@.contains_key(k) <==> (middle.contains_key(k) || ids@.take(
                                i as int,
                            ).contains(k)),
                        forall|k: u64| #[trigger]
                            rows@.contains_key(k) ==> rows@[k]@ == (if ids@.take(
                                i as int,
                            ).contains(k) {
                                over@[k]@
                            } else {
                                middle[k]@
                            }),
                    decreases ids.len() - i,
                {
                    let id = ids[i];
                    assert(ids@.contains(id));
                    let row = match over.get(&id) {
                        Some(row) => row.clone(),
                        None => {
                            assert(false);
                            return ;
                        },
                    };
                    rows.insert(id, row);
                    assert forall|k: u64| ids@.take(i + 1).contains(k) <==> (ids@.take(
                        i as int,
                    ).contains(k) || k == id) by {
                        let next = ids@.take(i + 1);
                        let held = ids@.take(i as int);
                        assert(next =~= held.push(id));
                        if held.contains(k) {
                            let n = choose|n: int| 0 <= n < held.len() && held[n] == k;
                            assert(next[n] == k);
                        }
                        if k == id {
                            assert(next[i as int] == k);
                        }
                    }
                    i += 1;
                }
                assert(ids@.take(i as int) =~= ids@);
            },
            None => {},
        }
        assert(row_map(rows@) =~= self@.applied(relation, row_map(start)));
    }
}

impl Clone for CompatCatalogRows {
    fn clone(&self) -> (r: Self)
        ensures
            r@ == self@,
    {
        let r = CompatCatalogRows { rows: self.rows.clone(), tombstones: self.tombstones.clone() };
        r
    }
}

} // verus!
