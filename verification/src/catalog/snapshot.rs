//! The committed state of the catalogs, with its rows by identifier, by name
//! and by the relation they belong to.

use std::collections::BTreeMap;
use vstd::prelude::*;

use crate::catalog::columns;
use crate::catalog::index;
use crate::catalog::index::NameEntry;
use crate::catalog::meta;
use crate::catalog::meta::{
    ColumnMeta, ColumnMetaView, ConstraintMeta, ConstraintMetaView, IndexMeta, IndexMetaView, Meta,
    NamespaceMeta, NamespaceMetaView, RelationMeta, RelationMetaView, TypeMeta, TypeMetaView,
};
use crate::catalog::model;
use crate::catalog::model::{
    CatalogRow, CatalogRowView, GeneratedCatalog, INVALID_OID, PG_ATTRIBUTE_RELATION_OID,
    PG_CLASS_RELATION_OID, PG_CONSTRAINT_RELATION_OID, PG_INDEX_RELATION_OID,
    PG_INHERITS_RELATION_OID, PG_NAMESPACE_RELATION_OID, PG_TYPE_RELATION_OID,
};
use crate::catalog::overlay::{CompatCatalogRows, CompatView};
use crate::search;
use crate::types::Oid;

verus! {

broadcast use vstd::std_specs::btree::group_btree_axioms;

/// The state of the catalogs: the records of the catalogs that are read most,
/// the rows laid over the others, and the records by what they are looked up by.
#[derive(Debug)]
pub struct CatalogSnapshot {
    pub generation: u64,
    pub namespaces: BTreeMap<u64, NamespaceMeta>,
    pub namespace_oids: BTreeMap<u32, u64>,
    pub namespace_names: Vec<NameEntry>,
    pub relations: BTreeMap<u64, RelationMeta>,
    pub relation_oids: BTreeMap<u32, u64>,
    pub relation_names: Vec<NameEntry>,
    pub columns: BTreeMap<u64, ColumnMeta>,
    pub columns_by_relation: BTreeMap<u32, BTreeMap<i16, u64>>,
    pub types: BTreeMap<u64, TypeMeta>,
    pub type_oids: BTreeMap<u32, u64>,
    pub type_names: Vec<NameEntry>,
    pub indexes: BTreeMap<u64, IndexMeta>,
    pub index_oids: BTreeMap<u32, u64>,
    pub indexes_by_relation: BTreeMap<u32, Vec<u64>>,
    pub pg_inherits_by_child: BTreeMap<u32, Vec<u64>>,
    pub pg_inherits_by_parent: BTreeMap<u32, Vec<u64>>,
    pub constraints: BTreeMap<u64, ConstraintMeta>,
    pub constraint_oids: BTreeMap<u32, u64>,
    pub constraints_by_relation: BTreeMap<u32, Vec<u64>>,
    pub constraints_by_index: BTreeMap<u32, Vec<u64>>,
    pub compat_rows: CompatCatalogRows,
}

/// What the catalogs hold.
pub struct SnapshotView {
    pub generation: u64,
    pub namespaces: Map<u64, NamespaceMetaView>,
    pub relations: Map<u64, RelationMetaView>,
    pub columns: Map<u64, ColumnMetaView>,
    pub types: Map<u64, TypeMetaView>,
    pub indexes: Map<u64, IndexMetaView>,
    pub constraints: Map<u64, ConstraintMetaView>,
    pub compat: CompatView,
}

impl View for CatalogSnapshot {
    type V = SnapshotView;

    open spec fn view(&self) -> SnapshotView {
        SnapshotView {
            generation: self.generation,
            namespaces: index::metas(self.namespaces@),
            relations: index::metas(self.relations@),
            columns: index::metas(self.columns@),
            types: index::metas(self.types@),
            indexes: index::metas(self.indexes@),
            constraints: index::metas(self.constraints@),
            compat: self.compat_rows@,
        }
    }
}

/// Whether each record lies under the identity of its row, and its row belongs
/// to the catalog.
pub open spec fn rows_in_place<M: Meta>(m: Map<u64, M::V>, relation: u32) -> bool {
    forall|id: u64| #[trigger]
        m.contains_key(id) ==> M::row_of(m[id]).row_id == id && M::row_of(
            m[id],
        ).relation_oid.0 == relation
}

impl SnapshotView {
    pub open spec fn empty(generation: u64) -> SnapshotView {
        SnapshotView {
            generation,
            namespaces: Map::empty(),
            relations: Map::empty(),
            columns: Map::empty(),
            types: Map::empty(),
            indexes: Map::empty(),
            constraints: Map::empty(),
            compat: CompatView::empty(),
        }
    }

    /// Each row lies in the catalog and under the identity that it names.
    pub open spec fn wf(self) -> bool {
        &&& rows_in_place::<NamespaceMeta>(self.namespaces, PG_NAMESPACE_RELATION_OID)
        &&& rows_in_place::<RelationMeta>(self.relations, PG_CLASS_RELATION_OID)
        &&& rows_in_place::<ColumnMeta>(self.columns, PG_ATTRIBUTE_RELATION_OID)
        &&& rows_in_place::<TypeMeta>(self.types, PG_TYPE_RELATION_OID)
        &&& rows_in_place::<IndexMeta>(self.indexes, PG_INDEX_RELATION_OID)
        &&& rows_in_place::<ConstraintMeta>(self.constraints, PG_CONSTRAINT_RELATION_OID)
        &&& self.compat.wf()
    }
}

pub open spec fn namespace_oid_key() -> spec_fn(NamespaceMetaView) -> Option<u32> {
    |m: NamespaceMetaView| Some(m.oid.0)
}

pub open spec fn namespace_label() -> spec_fn(NamespaceMetaView) -> (u32, Seq<char>) {
    |m: NamespaceMetaView| (0u32, model::normalized(m.name))
}

pub open spec fn relation_oid_key() -> spec_fn(RelationMetaView) -> Option<u32> {
    |m: RelationMetaView| Some(m.oid.0)
}

pub open spec fn relation_label() -> spec_fn(RelationMetaView) -> (u32, Seq<char>) {
    |m: RelationMetaView| (m.namespace.0, model::normalized(m.name))
}

pub open spec fn type_oid_key() -> spec_fn(TypeMetaView) -> Option<u32> {
    |m: TypeMetaView| Some(m.record.oid.0)
}

pub open spec fn type_label() -> spec_fn(TypeMetaView) -> (u32, Seq<char>) {
    |m: TypeMetaView| (m.record.namespace.0, model::normalized(m.record.name))
}

pub open spec fn index_oid_key() -> spec_fn(IndexMetaView) -> Option<u32> {
    |m: IndexMetaView| Some(m.record.index_oid.0)
}

pub open spec fn index_relation_key() -> spec_fn(IndexMetaView) -> Option<u32> {
    |m: IndexMetaView| Some(m.record.relation_oid.0)
}

pub open spec fn constraint_oid_key() -> spec_fn(ConstraintMetaView) -> Option<u32> {
    |m: ConstraintMetaView| Some(m.oid.0)
}

pub open spec fn constraint_relation_key() -> spec_fn(ConstraintMetaView) -> Option<u32> {
    |m: ConstraintMetaView| Some(m.relation_oid.0)
}

pub open spec fn constraint_index_key() -> spec_fn(ConstraintMetaView) -> Option<u32> {
    |m: ConstraintMetaView|
        if m.index_oid.0 != INVALID_OID {
            Some(m.index_oid.0)
        } else {
            None
        }
}

/// The identifier in a column of a row of the catalog of inheritance.
pub open spec fn inherits_key(generated: GeneratedCatalog, column: Seq<char>) -> spec_fn(
    CatalogRowView,
) -> Option<u32> {
    |row: CatalogRowView|
        match columns::table_of(generated, Oid(PG_INHERITS_RELATION_OID)) {
            Some(table) => match meta::oid_at(generated, table, row, column) {
                Some(oid) => Some(oid.0),
                None => None,
            },
            None => None,
        }
}

/// The rows that are laid over a catalog.
pub open spec fn laid_over(compat: CompatView, relation: u32) -> Map<u64, CatalogRowView> {
    Map::new(
        |id: u64| compat.rows.contains_key((relation, id)),
        |id: u64| compat.rows[(relation, id)],
    )
}

impl CatalogSnapshot {
    /// What the records are looked up by agrees with the records.
    pub open spec fn lookups_agree(&self) -> bool {
        let v = self@;
        &&& index::is_last_index(self.namespace_oids@, v.namespaces, namespace_oid_key())
        &&& index::is_name_index(self.namespace_names@, v.namespaces, namespace_label())
        &&& index::is_last_index(self.relation_oids@, v.relations, relation_oid_key())
        &&& index::is_name_index(self.relation_names@, v.relations, relation_label())
        &&& index::is_column_index(self.columns_by_relation@, v.columns)
        &&& index::is_last_index(self.type_oids@, v.types, type_oid_key())
        &&& index::is_name_index(self.type_names@, v.types, type_label())
        &&& index::is_last_index(self.index_oids@, v.indexes, index_oid_key())
        &&& index::is_group_index(self.indexes_by_relation@, v.indexes, index_relation_key())
        &&& index::is_last_index(self.constraint_oids@, v.constraints, constraint_oid_key())
        &&& index::is_group_index(
            self.constraints_by_relation@,
            v.constraints,
            constraint_relation_key(),
        )
        &&& index::is_group_index(
            self.constraints_by_index@,
            v.constraints,
            constraint_index_key(),
        )
    }

    /// What the rows of inheritance are looked up by agrees with them too.
    pub open spec fn indexed(&self, generated: GeneratedCatalog) -> bool {
        let over = laid_over(self@.compat, PG_INHERITS_RELATION_OID);
        &&& self.lookups_agree()
        &&& index::is_group_index(
            self.pg_inherits_by_child@,
            over,
            inherits_key(generated, "inhrelid"@),
        )
        &&& index::is_group_index(
            self.pg_inherits_by_parent@,
            over,
            inherits_key(generated, "inhparent"@),
        )
    }

    pub open spec fn wf(&self, generated: GeneratedCatalog) -> bool {
        self@.wf() && self.indexed(generated)
    }

    /// A state without rows.
    pub fn new(generation: u64) -> (r: Self)
        ensures
            r@ == SnapshotView::empty(generation),
            r@.wf(),
    {
        let r = CatalogSnapshot {
            generation,
            namespaces: BTreeMap::new(),
            namespace_oids: BTreeMap::new(),
            namespace_names: Vec::new(),
            relations: BTreeMap::new(),
            relation_oids: BTreeMap::new(),
            relation_names: Vec::new(),
            columns: BTreeMap::new(),
            columns_by_relation: BTreeMap::new(),
            types: BTreeMap::new(),
            type_oids: BTreeMap::new(),
            type_names: Vec::new(),
            indexes: BTreeMap::new(),
            index_oids: BTreeMap::new(),
            indexes_by_relation: BTreeMap::new(),
            pg_inherits_by_child: BTreeMap::new(),
            pg_inherits_by_parent: BTreeMap::new(),
            constraints: BTreeMap::new(),
            constraint_oids: BTreeMap::new(),
            constraints_by_relation: BTreeMap::new(),
            constraints_by_index: BTreeMap::new(),
            compat_rows: CompatCatalogRows::new(),
        };
        assert(r@.namespaces =~= Map::empty());
        assert(r@.relations =~= Map::empty());
        assert(r@.columns =~= Map::empty());
        assert(r@.types =~= Map::empty());
        assert(r@.indexes =~= Map::empty());
        assert(r@.constraints =~= Map::empty());
        r
    }

    fn inherits_groups(&self, generated: &GeneratedCatalog, column: &str) -> (r: BTreeMap<
        u32,
        Vec<u64>,
    >)
        ensures
            index::is_group_index(
                r@,
                laid_over(self@.compat, PG_INHERITS_RELATION_OID),
                inherits_key(*generated, column@),
            ),
    {
        let ghost over = laid_over(self@.compat, PG_INHERITS_RELATION_OID);
        let none: BTreeMap<u64, CatalogRow> = BTreeMap::new();
        let rows = match self.compat_rows.rows.get(&PG_INHERITS_RELATION_OID) {
            Some(rows) => rows,
            None => &none,
        };
        assert(index::metas(rows@) =~= over);
        let read_key = |row: &CatalogRow| -> (k: Option<u32>)
            ensures
                k == inherits_key(*generated, column@)(row@),
            {
                match columns::static_catalog_by_relation_oid(
                    generated,
                    Oid(PG_INHERITS_RELATION_OID),
                ) {
                    Some(table) => match meta::column_oid(generated, table, row, column) {
                        Some(oid) => Some(oid.0),
                        None => None,
                    },
                    None => None,
                }
            };
        index::build_group_index(rows, read_key, Ghost(inherits_key(*generated, column@)))
    }

    /// Brings what the records are looked up by into agreement with them.
    pub fn rebuild_indexes(&mut self, generated: &GeneratedCatalog)
        ensures
            final(self)@ == old(self)@,
            final(self).indexed(*generated),
    {
        let ghost before = self@;
        let read_key = |m: &NamespaceMeta| -> (k: Option<u32>)
            ensures
                k == namespace_oid_key()(m@),
            {
                Some(m.oid.0)
            };
        self.namespace_oids = index::build_last_index(&self.namespaces, read_key, Ghost(namespace_oid_key()));
        let read_label = |m: &NamespaceMeta| -> (l: (u32, String))
            ensures
                (l.0, l.1@) == namespace_label()(m@),
            {
                (0, model::normalize_identifier(m.name.as_str()))
            };
        self.namespace_names = index::build_name_index(&self.namespaces, read_label, Ghost(namespace_label()));
        let read_key = |m: &RelationMeta| -> (k: Option<u32>)
            ensures
                k == relation_oid_key()(m@),
            {
                Some(m.oid.0)
            };
        self.relation_oids = index::build_last_index(&self.relations, read_key, Ghost(relation_oid_key()));
        let read_label = |m: &RelationMeta| -> (l: (u32, String))
            ensures
                (l.0, l.1@) == relation_label()(m@),
            {
                (m.namespace.0, model::normalize_identifier(m.name.as_str()))
            };
        self.relation_names = index::build_name_index(&self.relations, read_label, Ghost(relation_label()));
        self.columns_by_relation = index::build_column_index(&self.columns);
        let read_key = |m: &TypeMeta| -> (k: Option<u32>)
            ensures
                k == type_oid_key()(m@),
            {
                Some(m.record.oid.0)
            };
        self.type_oids = index::build_last_index(&self.types, read_key, Ghost(type_oid_key()));
        let read_label = |m: &TypeMeta| -> (l: (u32, String))
            ensures
                (l.0, l.1@) == type_label()(m@),
            {
                (m.record.namespace.0, model::normalize_identifier(m.record.name.as_str()))
            };
        self.type_names = index::build_name_index(&self.types, read_label, Ghost(type_label()));
        let read_key = |m: &IndexMeta| -> (k: Option<u32>)
            ensures
                k == index_oid_key()(m@),
            {
                Some(m.record.index_oid.0)
            };
        self.index_oids = index::build_last_index(&self.indexes, read_key, Ghost(index_oid_key()));
        let read_key = |m: &IndexMeta| -> (k: Option<u32>)
            ensures
                k == index_relation_key()(m@),
            {
                Some(m.record.relation_oid.0)
            };
        self.indexes_by_relation = index::build_group_index(&self.indexes, read_key, Ghost(index_relation_key()));
        self.pg_inherits_by_child = self.inherits_groups(generated, "inhrelid");
        self.pg_inherits_by_parent = self.inherits_groups(generated, "inhparent");
        let read_key = |m: &ConstraintMeta| -> (k: Option<u32>)
            ensures
                k == constraint_oid_key()(m@),
            {
                Some(m.oid.0)
            };
        self.constraint_oids = index::build_last_index(&self.constraints, read_key, Ghost(constraint_oid_key()));
        let read_key = |m: &ConstraintMeta| -> (k: Option<u32>)
            ensures
                k == constraint_relation_key()(m@),
            {
                Some(m.relation_oid.0)
            };
        self.constraints_by_relation = index::build_group_index(&self.constraints, read_key, Ghost(constraint_relation_key()));
        let read_key = |m: &ConstraintMeta| -> (k: Option<u32>)
            ensures
                k == constraint_index_key()(m@),
            {
                if m.index_oid.0 != INVALID_OID {
                    Some(m.index_oid.0)
                } else {
                    None
                }
            };
        self.constraints_by_index = index::build_group_index(&self.constraints, read_key, Ghost(constraint_index_key()));
        assert(self@ == before);
    }
}

impl SnapshotView {
    pub open spec fn relation_with_oid(self, oid: Oid) -> Option<RelationMetaView> {
        index::last_where(self.relations, index::keyed(relation_oid_key(), oid.0))
    }

    pub open spec fn relation_named(self, name: Seq<char>, namespace: Oid) -> Option<
        RelationMetaView,
    > {
        index::last_where(
            self.relations,
            index::labelled(relation_label(), namespace.0, model::normalized(name)),
        )
    }

    pub open spec fn type_with_oid(self, oid: Oid) -> Option<TypeMetaView> {
        index::last_where(self.types, index::keyed(type_oid_key(), oid.0))
    }

    pub open spec fn type_named(self, name: Seq<char>, namespace: Oid) -> Option<TypeMetaView> {
        index::last_where(
            self.types,
            index::labelled(type_label(), namespace.0, meta::canonical_type_name(name)),
        )
    }

    pub open spec fn index_with_oid(self, oid: Oid) -> Option<IndexMetaView> {
        index::last_where(self.indexes, index::keyed(index_oid_key(), oid.0))
    }

    pub open spec fn indexes_of(self, relation: Oid) -> Seq<IndexMetaView> {
        index::all_where(self.indexes, index::keyed(index_relation_key(), relation.0))
    }

    pub open spec fn constraint_with_oid(self, oid: Oid) -> Option<ConstraintMetaView> {
        index::last_where(self.constraints, index::keyed(constraint_oid_key(), oid.0))
    }

    pub open spec fn constraints_of(self, relation: Oid) -> Seq<ConstraintMetaView> {
        index::all_where(self.constraints, index::keyed(constraint_relation_key(), relation.0))
    }

    pub open spec fn constraints_of_index(self, index_oid: Oid) -> Seq<ConstraintMetaView> {
        index::all_where(self.constraints, index::keyed(constraint_index_key(), index_oid.0))
    }

    pub open spec fn column_at(self, relation: Oid, attnum: i16) -> Option<ColumnMetaView> {
        index::last_where(self.columns, index::column_at_place(relation.0, attnum))
    }
}

/// What a list of records holds.
pub open spec fn meta_views<M: Meta>(list: Seq<&M>) -> Seq<M::V> {
    search::views(list)
}

fn records_at<'a, M: Meta>(
    records: &'a BTreeMap<u64, M>,
    groups: &BTreeMap<u32, Vec<u64>>,
    k: u32,
    key: Ghost<spec_fn(M::V) -> Option<u32>>,
) -> (r: Vec<&'a M>)
    requires
        index::is_group_index(groups@, index::metas(records@), key@),
    ensures
        meta_views(r@) == index::all_where(index::metas(records@), index::keyed(key@, k)),
{
    let ghost m = index::metas(records@);
    let ghost wanted = index::ids_where(m, index::keyed(key@, k));
    proof {
        index::ids_where_are_the_matches(m, index::keyed(key@, k));
        assert(index::group_at(groups@, k) == wanted);
    }
    let mut r: Vec<&'a M> = Vec::new();
    match groups.get(&k) {
        Some(ids) => {
            let mut i: usize = 0;
            while i < ids.len()
                invariant
                    i <= ids.len(),
                    ids@ == wanted,
                    m == index::metas(records@),
                    forall|id: u64| #[trigger] wanted.contains(id) ==> m.contains_key(id),
                    r@.len() == i,
                    forall|j: int| 0 <= j < i ==> (#[trigger] r@[j])@ == m[wanted[j]],
                decreases ids.len() - i,
            {
                let id = ids[i];
                assert(wanted.contains(id));
                match records.get(&id) {
                    Some(record) => {
                        r.push(record);
                    },
                    None => {
                        assert(false);
                    },
                }
                i += 1;
            }
        },
        None => {},
    }
    assert(meta_views(r@) =~= index::all_where(m, index::keyed(key@, k)));
    r
}

fn record_at<'a, M: Meta>(
    records: &'a BTreeMap<u64, M>,
    id: Option<u64>,
    p: Ghost<spec_fn(M::V) -> bool>,
) -> (r: Option<&'a M>)
    requires
        id == index::last_of(index::ids_where(index::metas(records@), p@)),
    ensures
        match r {
            Some(m) => index::last_where(index::metas(records@), p@) == Some(m@),
            None => index::last_where(index::metas(records@), p@) is None,
        },
{
    proof {
        index::ids_where_are_the_matches(index::metas(records@), p@);
    }
    match id {
        Some(row_id) => records.get(&row_id),
        None => None,
    }
}

fn copied(id: Option<&u64>) -> (r: Option<u64>)
    ensures
        match id {
            Some(x) => r == Some(*x),
            None => r is None,
        },
{
    match id {
        Some(x) => Some(*x),
        None => None,
    }
}

impl CatalogSnapshot {
    pub fn relation_meta_by_oid(&self, oid: Oid) -> (r: Option<&RelationMeta>)
        requires
            self.lookups_agree(),
        ensures
            match r {
                Some(m) => self@.relation_with_oid(oid) == Some(m@),
                None => self@.relation_with_oid(oid) is None,
            },
    {
        let id = copied(self.relation_oids.get(&oid.0));
        assert(id == index::found_in(self.relation_oids@, oid.0));
        record_at(&self.relations, id, Ghost(index::keyed(relation_oid_key(), oid.0)))
    }

    pub fn relation_meta_by_name(&self, name: &str, namespace: Oid) -> (r: Option<&RelationMeta>)
        requires
            self.lookups_agree(),
        ensures
            match r {
                Some(m) => self@.relation_named(name@, namespace) == Some(m@),
                None => self@.relation_named(name@, namespace) is None,
            },
    {
        let folded = model::normalize_identifier(name);
        let id = index::find_entry(&self.relation_names, namespace.0, folded.as_str());
        record_at(
            &self.relations,
            id,
            Ghost(index::labelled(relation_label(), namespace.0, model::normalized(name@))),
        )
    }

    pub fn type_meta_by_oid(&self, oid: Oid) -> (r: Option<&TypeMeta>)
        requires
            self.lookups_agree(),
        ensures
            match r {
                Some(m) => self@.type_with_oid(oid) == Some(m@),
                None => self@.type_with_oid(oid) is None,
            },
    {
        let id = copied(self.type_oids.get(&oid.0));
        assert(id == index::found_in(self.type_oids@, oid.0));
        record_at(&self.types, id, Ghost(index::keyed(type_oid_key(), oid.0)))
    }

    pub fn type_meta_by_name(&self, name: &str, namespace: Oid) -> (r: Option<&TypeMeta>)
        requires
            self.lookups_agree(),
        ensures
            match r {
                Some(m) => self@.type_named(name@, namespace) == Some(m@),
                None => self@.type_named(name@, namespace) is None,
            },
    {
        let canonical = meta::canonical_catalog_type_name(name);
        let id = index::find_entry(&self.type_names, namespace.0, canonical.as_str());
        record_at(
            &self.types,
            id,
            Ghost(index::labelled(type_label(), namespace.0, meta::canonical_type_name(name@))),
        )
    }

    pub fn index_meta_by_oid(&self, oid: Oid) -> (r: Option<&IndexMeta>)
        requires
            self.lookups_agree(),
        ensures
            match r {
                Some(m) => self@.index_with_oid(oid) == Some(m@),
                None => self@.index_with_oid(oid) is None,
            },
    {
        let id = copied(self.index_oids.get(&oid.0));
        assert(id == index::found_in(self.index_oids@, oid.0));
        record_at(&self.indexes, id, Ghost(index::keyed(index_oid_key(), oid.0)))
    }

    pub fn index_metas_for_relation(&self, relation_oid: Oid) -> (r: Vec<&IndexMeta>)
        requires
            self.lookups_agree(),
        ensures
            meta_views(r@) == self@.indexes_of(relation_oid),
    {
        records_at(
            &self.indexes,
            &self.indexes_by_relation,
            relation_oid.0,
            Ghost(index_relation_key()),
        )
    }

    pub fn constraint_metas_for_relation(&self, relation_oid: Oid) -> (r: Vec<&ConstraintMeta>)
        requires
            self.lookups_agree(),
        ensures
            meta_views(r@) == self@.constraints_of(relation_oid),
    {
        records_at(
            &self.constraints,
            &self.constraints_by_relation,
            relation_oid.0,
            Ghost(constraint_relation_key()),
        )
    }

    pub fn constraint_meta_by_oid(&self, oid: Oid) -> (r: Option<&ConstraintMeta>)
        requires
            self.lookups_agree(),
        ensures
            match r {
                Some(m) => self@.constraint_with_oid(oid) == Some(m@),
                None => self@.constraint_with_oid(oid) is None,
            },
    {
        let id = copied(self.constraint_oids.get(&oid.0));
        assert(id == index::found_in(self.constraint_oids@, oid.0));
        record_at(&self.constraints, id, Ghost(index::keyed(constraint_oid_key(), oid.0)))
    }

    pub fn constraint_metas_for_index(&self, index_oid: Oid) -> (r: Vec<&ConstraintMeta>)
        requires
            self.lookups_agree(),
        ensures
            meta_views(r@) == self@.constraints_of_index(index_oid),
    {
        records_at(
            &self.constraints,
            &self.constraints_by_index,
            index_oid.0,
            Ghost(constraint_index_key()),
        )
    }

    /// The column of a relation at a place.
    pub fn column_meta_at(&self, relation_oid: Oid, attnum: i16) -> (r: Option<&ColumnMeta>)
        requires
            self.lookups_agree(),
        ensures
            match r {
                Some(m) => self@.column_at(relation_oid, attnum) == Some(m@),
                None => self@.column_at(relation_oid, attnum) is None,
            },
    {
        let id = match self.columns_by_relation.get(&relation_oid.0) {
            Some(places) => copied(places.get(&attnum)),
            None => None,
        };
        assert(id == index::place_in(self.columns_by_relation@, relation_oid.0, attnum));
        record_at(&self.columns, id, Ghost(index::column_at_place(relation_oid.0, attnum)))
    }

    /// Another state with the same records.
    pub fn copy(&self, generated: &GeneratedCatalog) -> (r: CatalogSnapshot)
        ensures
            r@ == self@,
            r.indexed(*generated),
    {
        let mut r = CatalogSnapshot::new(self.generation);
        r.namespaces = self.namespaces.clone();
        r.relations = self.relations.clone();
        r.columns = self.columns.clone();
        r.types = self.types.clone();
        r.indexes = self.indexes.clone();
        r.constraints = self.constraints.clone();
        r.compat_rows = self.compat_rows.clone();
        r.rebuild_indexes(generated);
        r
    }
}

} // verus!
