//! What was looked up in the committed state, kept until the state moves on.

use std::collections::BTreeMap;
use vstd::prelude::*;

use crate::catalog::draft::DraftView;
use crate::catalog::lookups;
use crate::catalog::model::{
    ColumnRecord, ColumnRecordView, GeneratedCatalog, IndexRecord, IndexRecordView,
};
use crate::catalog::relations;
use crate::catalog::snapshot::{CatalogSnapshot, SnapshotView};
use crate::catalog::state::StateView;
use crate::search;
use crate::types::Oid;

verus! {

broadcast use vstd::std_specs::btree::group_btree_axioms;

/// Columns and indexes that were looked up in the state of a generation.
#[derive(Debug)]
pub struct CatalogLookupCache {
    pub generation: u64,
    pub relation_columns: BTreeMap<u64, Option<ColumnRecord>>,
    pub index_records_by_oid: BTreeMap<u32, Option<IndexRecord>>,
    pub index_records_by_relation: BTreeMap<u32, Vec<IndexRecord>>,
    pub unique_index_records_by_relation: BTreeMap<u32, Vec<IndexRecord>>,
}

/// Primary keys that were looked up in the state of a generation.
#[derive(Debug)]
pub struct PrimaryKeyIndexOidCache {
    pub generation: u64,
    pub entries: BTreeMap<u32, Option<Oid>>,
}

/// A relation and a place in it as one number.
pub open spec fn column_key(relation: u32, attnum: i16) -> u64 {
    (relation * 0x1_0000 + attnum + 0x8000) as u64
}

fn key_of(relation_oid: Oid, attnum: i16) -> (r: u64)
    ensures
        r == column_key(relation_oid.0, attnum),
{
    relation_oid.0 as u64 * 0x1_0000 + (attnum as i64 + 0x8000) as u64
}

proof fn lemma_column_key(a: u32, m: i16, b: u32, n: i16)
    requires
        column_key(a, m) == column_key(b, n),
    ensures
        a == b,
        m == n,
{
}

/// What is shown of values that may be missing.
pub open spec fn options_shown<K, T: View>(m: Map<K, Option<T>>) -> Map<K, Option<T::V>> {
    Map::new(|k: K| m.contains_key(k), |k: K| search::option_view(m[k]))
}

/// What is shown of lists.
pub open spec fn lists_shown<K, T: View>(m: Map<K, Vec<T>>) -> Map<K, Seq<T::V>> {
    Map::new(|k: K| m.contains_key(k), |k: K| search::views(m[k]@))
}

/// Columns and indexes that are kept for the state of a generation.
#[verifier::ext_equal]
pub struct LookupCacheView {
    pub generation: u64,
    pub relation_columns: Map<u64, Option<ColumnRecordView>>,
    pub index_records_by_oid: Map<u32, Option<IndexRecordView>>,
    pub index_records_by_relation: Map<u32, Seq<IndexRecordView>>,
    pub unique_index_records_by_relation: Map<u32, Seq<IndexRecordView>>,
}

impl View for CatalogLookupCache {
    type V = LookupCacheView;

    open spec fn view(&self) -> LookupCacheView {
        LookupCacheView {
            generation: self.generation,
            relation_columns: options_shown(self.relation_columns@),
            index_records_by_oid: options_shown(self.index_records_by_oid@),
            index_records_by_relation: lists_shown(self.index_records_by_relation@),
            unique_index_records_by_relation: lists_shown(self.unique_index_records_by_relation@),
        }
    }
}

impl LookupCacheView {
    /// Nothing is kept.
    pub open spec fn empty(generation: u64) -> LookupCacheView {
        LookupCacheView {
            generation,
            relation_columns: Map::empty(),
            index_records_by_oid: Map::empty(),
            index_records_by_relation: Map::empty(),
            unique_index_records_by_relation: Map::empty(),
        }
    }

    /// What is kept once a generation is reached: what was kept for another
    /// generation is dropped.
    pub open spec fn renewed(self, generation: u64) -> LookupCacheView {
        if self.generation == generation {
            self
        } else {
            LookupCacheView::empty(generation)
        }
    }

    /// What is kept once a column was looked up in a state.
    pub open spec fn with_column(
        self,
        generated: GeneratedCatalog,
        s: SnapshotView,
        relation_oid: Oid,
        attnum: i16,
    ) -> LookupCacheView {
        let now = self.renewed(s.generation);
        LookupCacheView {
            relation_columns: now.relation_columns.insert(
                column_key(relation_oid.0, attnum),
                lookups::column_found(generated, s, relation_oid, attnum),
            ),
            ..now
        }
    }

    /// What is kept once an index was looked up in a state. An index that is
    /// recorded in the state itself is not kept.
    pub open spec fn with_index(
        self,
        generated: GeneratedCatalog,
        s: SnapshotView,
        index_oid: Oid,
    ) -> LookupCacheView {
        if s.index_with_oid(index_oid) is Some {
            self
        } else {
            let now = self.renewed(s.generation);
            LookupCacheView {
                index_records_by_oid: now.index_records_by_oid.insert(
                    index_oid.0,
                    lookups::index_in_rows(generated, s, index_oid),
                ),
                ..now
            }
        }
    }

    /// What is kept once the indexes of a relation were looked up in a state.
    /// Indexes that are recorded in the state itself are not kept.
    pub open spec fn with_indexes(
        self,
        generated: GeneratedCatalog,
        s: SnapshotView,
        relation_oid: Oid,
    ) -> LookupCacheView {
        if s.indexes_of(relation_oid).len() > 0 {
            self
        } else {
            let now = self.renewed(s.generation);
            LookupCacheView {
                index_records_by_relation: now.index_records_by_relation.insert(
                    relation_oid.0,
                    lookups::indexes_in_rows(generated, s, relation_oid),
                ),
                ..now
            }
        }
    }

    /// What is kept once the unique indexes of a relation were looked up in a
    /// state. Where they were not kept before, the indexes of the relation are
    /// looked up for them.
    pub open spec fn with_unique_indexes(
        self,
        generated: GeneratedCatalog,
        s: SnapshotView,
        relation_oid: Oid,
    ) -> LookupCacheView {
        let now = self.renewed(s.generation);
        if now.unique_index_records_by_relation.contains_key(relation_oid.0) {
            now
        } else {
            let looked = now.with_indexes(generated, s, relation_oid);
            LookupCacheView {
                unique_index_records_by_relation: looked.unique_index_records_by_relation.insert(
                    relation_oid.0,
                    lookups::unique_indexes_found(generated, s, relation_oid),
                ),
                ..looked
            }
        }
    }

    /// What is kept is what a lookup in the state finds.
    pub open spec fn agrees(self, generated: GeneratedCatalog, s: SnapshotView) -> bool {
        &&& forall|relation: u32, attnum: i16|
            self.relation_columns.contains_key(#[trigger] column_key(relation, attnum))
                ==> self.relation_columns[column_key(relation, attnum)] == lookups::column_found(
                generated,
                s,
                Oid(relation),
                attnum,
            )
        &&& forall|oid: u32| #[trigger]
            self.index_records_by_oid.contains_key(oid) ==> self.index_records_by_oid[oid]
                == lookups::index_in_rows(generated, s, Oid(oid))
        &&& forall|relation: u32| #[trigger]
            self.index_records_by_relation.contains_key(relation)
                ==> self.index_records_by_relation[relation] == lookups::indexes_in_rows(
                generated,
                s,
                Oid(relation),
            )
        &&& forall|relation: u32| #[trigger]
            self.unique_index_records_by_relation.contains_key(relation)
                ==> self.unique_index_records_by_relation[relation]
                == lookups::unique_indexes_found(generated, s, Oid(relation))
    }

    /// What is kept was found in a state no later than the present one, and in
    /// the present one where the generations are the same.
    pub open spec fn wf(self, generated: GeneratedCatalog, s: SnapshotView) -> bool {
        &&& self.generation <= s.generation
        &&& self.generation == s.generation ==> self.agrees(generated, s)
    }
}

proof fn lemma_with_column(
    c: LookupCacheView,
    generated: GeneratedCatalog,
    s: SnapshotView,
    relation_oid: Oid,
    attnum: i16,
)
    requires
        c.wf(generated, s),
    ensures
        c.with_column(generated, s, relation_oid, attnum).wf(generated, s),
{
    let now = c.renewed(s.generation);
    let kept_now = c.with_column(generated, s, relation_oid, attnum);
    assert forall|relation: u32, n: i16|
        kept_now.relation_columns.contains_key(
            #[trigger] column_key(relation, n),
        ) implies kept_now.relation_columns[column_key(relation, n)] == lookups::column_found(
        generated,
        s,
        Oid(relation),
        n,
    ) by {
        if column_key(relation, n) == column_key(relation_oid.0, attnum) {
            lemma_column_key(relation, n, relation_oid.0, attnum);
            assert(Oid(relation) == relation_oid);
        } else {
            assert(now.relation_columns.contains_key(column_key(relation, n)));
        }
    }
}

proof fn lemma_with_indexes(
    c: LookupCacheView,
    generated: GeneratedCatalog,
    s: SnapshotView,
    oid: Oid,
)
    requires
        c.wf(generated, s),
    ensures
        c.with_index(generated, s, oid).wf(generated, s),
        c.with_indexes(generated, s, oid).wf(generated, s),
        c.with_unique_indexes(generated, s, oid).wf(generated, s),
{
    assert(Oid(oid.0) == oid);
}

impl CatalogLookupCache {
    /// What is kept was found in a state no later than the present one, and in
    /// the present one where the generations are the same.
    pub open spec fn wf(&self, generated: GeneratedCatalog, s: SnapshotView) -> bool {
        self@.wf(generated, s)
    }

    pub fn new(generation: u64) -> (r: Self)
        ensures
            r@ == LookupCacheView::empty(generation),
    {
        let r = CatalogLookupCache {
            generation,
            relation_columns: BTreeMap::new(),
            index_records_by_oid: BTreeMap::new(),
            index_records_by_relation: BTreeMap::new(),
            unique_index_records_by_relation: BTreeMap::new(),
        };
        assert(r@ =~= LookupCacheView::empty(generation));
        r
    }

    /// Drops what was kept for another generation.
    fn renew(&mut self, generation: u64)
        ensures
            final(self)@ == old(self)@.renewed(generation),
    {
        if self.generation != generation {
            *self = CatalogLookupCache::new(generation);
        }
    }
}

/// Primary keys that are kept for the state of a generation.
#[verifier::ext_equal]
pub struct PrimaryKeyCacheView {
    pub generation: u64,
    pub entries: Map<u32, Option<Oid>>,
}

impl View for PrimaryKeyIndexOidCache {
    type V = PrimaryKeyCacheView;

    open spec fn view(&self) -> PrimaryKeyCacheView {
        PrimaryKeyCacheView { generation: self.generation, entries: self.entries@ }
    }
}

impl PrimaryKeyCacheView {
    /// Nothing is kept.
    pub open spec fn empty(generation: u64) -> PrimaryKeyCacheView {
        PrimaryKeyCacheView { generation, entries: Map::empty() }
    }

    /// What is kept once a generation is reached: what was kept for another
    /// generation is dropped.
    pub open spec fn renewed(self, generation: u64) -> PrimaryKeyCacheView {
        if self.generation == generation {
            self
        } else {
            PrimaryKeyCacheView::empty(generation)
        }
    }

    /// What is kept once the primary key of a relation was looked up in a state.
    pub open spec fn with_primary_key(
        self,
        generated: GeneratedCatalog,
        s: SnapshotView,
        relation_oid: Oid,
    ) -> PrimaryKeyCacheView {
        let now = self.renewed(s.generation);
        PrimaryKeyCacheView {
            entries: now.entries.insert(
                relation_oid.0,
                relations::primary_oid_found(generated, s, relation_oid),
            ),
            ..now
        }
    }

    /// What is kept is what a lookup in the state finds.
    pub open spec fn agrees(self, generated: GeneratedCatalog, s: SnapshotView) -> bool {
        forall|relation: u32| #[trigger]
            self.entries.contains_key(relation) ==> self.entries[relation]
                == relations::primary_oid_found(generated, s, Oid(relation))
    }

    /// What is kept was found in a state no later than the present one, and in
    /// the present one where the generations are the same.
    pub open spec fn wf(self, generated: GeneratedCatalog, s: SnapshotView) -> bool {
        &&& self.generation <= s.generation
        &&& self.generation == s.generation ==> self.agrees(generated, s)
    }
}

impl PrimaryKeyIndexOidCache {
    /// What is kept was found in a state no later than the present one, and in
    /// the present one where the generations are the same.
    pub open spec fn wf(&self, generated: GeneratedCatalog, s: SnapshotView) -> bool {
        self@.wf(generated, s)
    }

    pub fn new(generation: u64) -> (r: Self)
        ensures
            r@ == PrimaryKeyCacheView::empty(generation),
    {
        let r = PrimaryKeyIndexOidCache { generation, entries: BTreeMap::new() };
        assert(r@ =~= PrimaryKeyCacheView::empty(generation));
        r
    }

    /// Drops what was kept for another generation.
    fn renew(&mut self, generation: u64)
        ensures
            final(self)@ == old(self)@.renewed(generation),
    {
        if self.generation != generation {
            *self = PrimaryKeyIndexOidCache::new(generation);
        }
    }
}

fn copied_column(v: &Option<ColumnRecord>) -> (r: Option<ColumnRecord>)
    ensures
        search::option_view(r) == search::option_view(*v),
{
    match v {
        Some(x) => Some(x.clone()),
        None => None,
    }
}

fn copied_index(v: &Option<IndexRecord>) -> (r: Option<IndexRecord>)
    ensures
        search::option_view(r) == search::option_view(*v),
{
    match v {
        Some(x) => Some(x.clone()),
        None => None,
    }
}

fn copied_records(list: &Vec<IndexRecord>) -> (r: Vec<IndexRecord>)
    ensures
        search::views(r@) == search::views(list@),
{
    let r = list.clone();
    assert(search::views(r@) =~= search::views(list@));
    r
}

/// The column of a relation at a place. What is found, or that nothing is, is
/// kept, unless the reader has changes that are not committed.
pub fn relation_column_by_attnum(
    generated: &GeneratedCatalog,
    s: &CatalogSnapshot,
    uncommitted: bool,
    cache: &mut CatalogLookupCache,
    relation_oid: Oid,
    attnum: i16,
) -> (r: Option<ColumnRecord>)
    requires
        s.wf(*generated),
        !uncommitted ==> old(cache).wf(*generated, s@),
    ensures
        search::option_view(r) == lookups::column_found(*generated, s@, relation_oid, attnum),
        final(cache)@ == if uncommitted {
            old(cache)@
        } else {
            old(cache)@.with_column(*generated, s@, relation_oid, attnum)
        },
        !uncommitted ==> final(cache).wf(*generated, s@),
{
    if uncommitted {
        return lookups::relation_column_by_attnum_uncached(generated, s, relation_oid, attnum);
    }
    let ghost before = cache@;
    let ghost kept_now = before.with_column(*generated, s@, relation_oid, attnum);
    proof {
        lemma_with_column(before, *generated, s@, relation_oid, attnum);
    }
    cache.renew(s.generation);
    let ghost now = cache@;
    let key = key_of(relation_oid, attnum);
    match cache.relation_columns.get(&key) {
        Some(kept) => {
            assert(now.relation_columns.contains_key(column_key(relation_oid.0, attnum)));
            assert(now =~= kept_now);
            return copied_column(kept);
        },
        None => {},
    }
    let found = lookups::relation_column_by_attnum_uncached(generated, s, relation_oid, attnum);
    cache.relation_columns.insert(key, copied_column(&found));
    assert(cache@ =~= kept_now);
    found
}

/// The index with an identifier. Unless it is recorded in the state itself, what
/// is found, or that nothing is, is kept.
pub fn index_record_by_index_oid(
    generated: &GeneratedCatalog,
    s: &CatalogSnapshot,
    uncommitted: bool,
    cache: &mut CatalogLookupCache,
    index_oid: Oid,
) -> (r: Option<IndexRecord>)
    requires
        s.wf(*generated),
        !uncommitted ==> old(cache).wf(*generated, s@),
    ensures
        search::option_view(r) == lookups::index_found(*generated, s@, index_oid),
        final(cache)@ == if uncommitted {
            old(cache)@
        } else {
            old(cache)@.with_index(*generated, s@, index_oid)
        },
        !uncommitted ==> final(cache).wf(*generated, s@),
{
    match s.index_meta_by_oid(index_oid) {
        Some(m) => return Some(m.record.clone()),
        None => {},
    }
    if uncommitted {
        return lookups::index_record_by_index_oid_uncached(generated, s, index_oid);
    }
    let ghost before = cache@;
    let ghost kept_now = before.with_index(*generated, s@, index_oid);
    proof {
        lemma_with_indexes(before, *generated, s@, index_oid);
    }
    cache.renew(s.generation);
    let ghost now = cache@;
    match cache.index_records_by_oid.get(&index_oid.0) {
        Some(kept) => {
            assert(now.index_records_by_oid.contains_key(index_oid.0));
            assert(Oid(index_oid.0) == index_oid);
            assert(now =~= kept_now);
            return copied_index(kept);
        },
        None => {},
    }
    let found = lookups::index_record_by_index_oid_uncached(generated, s, index_oid);
    cache.index_records_by_oid.insert(index_oid.0, copied_index(&found));
    assert(cache@ =~= kept_now);
    found
}

/// The indexes of a relation. Unless they are recorded in the state itself, what
/// is found is kept.
pub fn index_records_for_relation_oid(
    generated: &GeneratedCatalog,
    s: &CatalogSnapshot,
    uncommitted: bool,
    cache: &mut CatalogLookupCache,
    relation_oid: Oid,
) -> (r: Vec<IndexRecord>)
    requires
        s.wf(*generated),
        !uncommitted ==> old(cache).wf(*generated, s@),
    ensures
        search::views(r@) == lookups::indexes_found(*generated, s@, relation_oid),
        final(cache)@ == if uncommitted {
            old(cache)@
        } else {
            old(cache)@.with_indexes(*generated, s@, relation_oid)
        },
        !uncommitted ==> final(cache).wf(*generated, s@),
{
    let recorded = lookups::recorded_indexes(s, relation_oid);
    assert(recorded@.len() == search::views(recorded@).len());
    if recorded.len() > 0 {
        return recorded;
    }
    if uncommitted {
        return lookups::index_records_for_relation_oid_uncached(generated, s, relation_oid);
    }
    let ghost before = cache@;
    let ghost kept_now = before.with_indexes(*generated, s@, relation_oid);
    proof {
        lemma_with_indexes(before, *generated, s@, relation_oid);
    }
    cache.renew(s.generation);
    let ghost now = cache@;
    match cache.index_records_by_relation.get(&relation_oid.0) {
        Some(kept) => {
            assert(now.index_records_by_relation.contains_key(relation_oid.0));
            assert(Oid(relation_oid.0) == relation_oid);
            assert(now =~= kept_now);
            return copied_records(kept);
        },
        None => {},
    }
    let found = lookups::index_records_for_relation_oid_uncached(generated, s, relation_oid);
    cache.index_records_by_relation.insert(relation_oid.0, copied_records(&found));
    assert(cache@ =~= kept_now);
    found
}

/// The unique indexes of a relation that are in use. What is found is kept.
pub fn unique_index_records_for_relation_oid(
    generated: &GeneratedCatalog,
    s: &CatalogSnapshot,
    uncommitted: bool,
    cache: &mut CatalogLookupCache,
    relation_oid: Oid,
) -> (r: Vec<IndexRecord>)
    requires
        s.wf(*generated),
        !uncommitted ==> old(cache).wf(*generated, s@),
    ensures
        search::views(r@) == lookups::unique_indexes_found(*generated, s@, relation_oid),
        final(cache)@ == if uncommitted {
            old(cache)@
        } else {
            old(cache)@.with_unique_indexes(*generated, s@, relation_oid)
        },
        !uncommitted ==> final(cache).wf(*generated, s@),
{
    let ghost before = cache@;
    proof {
        if !uncommitted {
            lemma_with_indexes(before, *generated, s@, relation_oid);
        }
    }
    if !uncommitted {
        cache.renew(s.generation);
        let ghost now = cache@;
        match cache.unique_index_records_by_relation.get(&relation_oid.0) {
            Some(kept) => {
                assert(now.unique_index_records_by_relation.contains_key(relation_oid.0));
                assert(Oid(relation_oid.0) == relation_oid);
                return copied_records(kept);
            },
            None => {},
        }
    }
    let all = index_records_for_relation_oid(generated, s, uncommitted, cache, relation_oid);
    let found = lookups::unique_of(&all);
    if uncommitted {
        return found;
    }
    cache.renew(s.generation);
    cache.unique_index_records_by_relation.insert(relation_oid.0, copied_records(&found));
    assert(cache@ =~= before.with_unique_indexes(*generated, s@, relation_oid));
    found
}

/// The relation that an index is on.
pub fn relation_oid_for_index_oid(
    generated: &GeneratedCatalog,
    s: &CatalogSnapshot,
    uncommitted: bool,
    cache: &mut CatalogLookupCache,
    index_oid: Oid,
) -> (r: Option<Oid>)
    requires
        s.wf(*generated),
        !uncommitted ==> old(cache).wf(*generated, s@),
    ensures
        r == (match lookups::index_found(*generated, s@, index_oid) {
            Some(record) => Some(record.relation_oid),
            None => None,
        }),
        final(cache)@ == if uncommitted {
            old(cache)@
        } else {
            old(cache)@.with_index(*generated, s@, index_oid)
        },
        !uncommitted ==> final(cache).wf(*generated, s@),
{
    match index_record_by_index_oid(generated, s, uncommitted, cache, index_oid) {
        Some(record) => Some(record.relation_oid),
        None => None,
    }
}

/// The relation whose primary key an index is for.
pub fn primary_key_relation_oid_for_index_oid(
    generated: &GeneratedCatalog,
    s: &CatalogSnapshot,
    uncommitted: bool,
    cache: &mut CatalogLookupCache,
    index_oid: Oid,
) -> (r: Option<Oid>)
    requires
        s.wf(*generated),
        !uncommitted ==> old(cache).wf(*generated, s@),
    ensures
        r == (match lookups::index_found(*generated, s@, index_oid) {
            Some(record) => if record.is_primary {
                Some(record.relation_oid)
            } else {
                None
            },
            None => None,
        }),
        final(cache)@ == if uncommitted {
            old(cache)@
        } else {
            old(cache)@.with_index(*generated, s@, index_oid)
        },
        !uncommitted ==> final(cache).wf(*generated, s@),
{
    match index_record_by_index_oid(generated, s, uncommitted, cache, index_oid) {
        Some(record) => if record.is_primary {
            Some(record.relation_oid)
        } else {
            None
        },
        None => None,
    }
}

/// The identifier of the index of a relation's primary key. What is found, or
/// that there is none, is kept.
pub fn primary_key_index_oid_for_relation_oid(
    generated: &GeneratedCatalog,
    s: &CatalogSnapshot,
    uncommitted: bool,
    cache: &mut PrimaryKeyIndexOidCache,
    relation_oid: Oid,
) -> (r: Option<Oid>)
    requires
        s.wf(*generated),
        !uncommitted ==> old(cache).wf(*generated, s@),
    ensures
        r == relations::primary_oid_found(*generated, s@, relation_oid),
        final(cache)@ == if uncommitted {
            old(cache)@
        } else {
            old(cache)@.with_primary_key(*generated, s@, relation_oid)
        },
        !uncommitted ==> final(cache).wf(*generated, s@),
{
    if uncommitted {
        return relations::primary_key_index_oid_for_relation_oid_uncached(
            generated,
            s,
            relation_oid,
        );
    }
    let ghost kept_now = cache@.with_primary_key(*generated, s@, relation_oid);
    assert(Oid(relation_oid.0) == relation_oid);
    cache.renew(s.generation);
    let ghost now = cache@;
    match cache.entries.get(&relation_oid.0) {
        Some(kept) => {
            assert(now.entries.contains_key(relation_oid.0));
            assert(now =~= kept_now);
            return *kept;
        },
        None => {},
    }
    let found = relations::primary_key_index_oid_for_relation_oid_uncached(
        generated,
        s,
        relation_oid,
    );
    cache.entries.insert(relation_oid.0, found);
    assert(cache@ =~= kept_now);
    found
}

/// Drops everything that is kept.
pub fn clear_catalog_lookup_caches(
    generation: u64,
    primary_keys: &mut PrimaryKeyIndexOidCache,
    cache: &mut CatalogLookupCache,
)
    ensures
        final(primary_keys)@ == PrimaryKeyCacheView::empty(generation),
        final(cache)@ == LookupCacheView::empty(generation),
{
    *primary_keys = PrimaryKeyIndexOidCache::new(generation);
    *cache = CatalogLookupCache::new(generation);
}

/// A cache that keeps nothing is right for every state that is no earlier.
pub proof fn an_empty_cache_is_right(generated: GeneratedCatalog, s: SnapshotView, generation: u64)
    requires
        generation <= s.generation,
    ensures
        LookupCacheView::empty(generation).wf(generated, s),
        PrimaryKeyCacheView::empty(generation).wf(generated, s),
{
}

/// Committing changes keeps the caches right: what they keep is that of an
/// earlier generation, or the state is the same. The last generation that can be
/// counted is left out: from there on the count no longer tells states apart.
pub proof fn commits_keep_the_caches_right(
    generated: GeneratedCatalog,
    state: StateView,
    d: DraftView,
    primary_keys: PrimaryKeyCacheView,
    cache: LookupCacheView,
)
    requires
        state.snapshot.generation < u64::MAX,
        primary_keys.wf(generated, state.snapshot),
        cache.wf(generated, state.snapshot),
    ensures
        primary_keys.wf(generated, state.committed(d).snapshot),
        cache.wf(generated, state.committed(d).snapshot),
{
}

} // verus!
