//! How many rows a catalog has.

use std::collections::{BTreeMap, BTreeSet};
use vstd::prelude::*;

use crate::catalog::catalog_indexes;
use crate::catalog::columns;
use crate::catalog::index_views;
use crate::catalog::meta::{ColumnMeta, TypeMeta};
use crate::catalog::model::{
    CatalogRowView, GeneratedCatalog, StaticCatalogColumn, StaticCatalogRow, StaticCatalogTable,
    StaticCatalogValue, DSNOWBALL_INIT_PROC_OID, DSNOWBALL_LEXIZE_PROC_OID, ENGLISH_TS_CONFIG_OID,
    ENGLISH_TS_DICT_OID, INFORMATION_SCHEMA_NAMESPACE_OID, PG_AGGREGATE_FNOID_INDEX_OID,
    PG_ATTRIBUTE_RELATION_OID, PG_CATALOG_NAMESPACE_OID, PG_CLASS_RELATION_OID,
    PG_CONSTRAINT_RELATION_OID, PG_DESCRIPTION_RELATION_OID, PG_INDEXES_RELATION_OID,
    PG_INDEX_RELATION_OID, PG_INIT_PRIVS_RELATION_OID, PG_NAMESPACE_RELATION_OID,
    PG_PROC_RELATION_OID, PG_TS_CONFIG_MAP_RELATION_OID, PG_TS_CONFIG_RELATION_OID,
    PG_TS_DICT_RELATION_OID, PG_TS_TEMPLATE_RELATION_OID, PG_TYPE_RELATION_OID,
    SNOWBALL_TS_TEMPLATE_OID, SYNTHETIC_INIT_PRIVS_ROW_ID_BASE,
    SYNTHETIC_TS_CONFIG_MAP_ROW_ID_BASE,
};
use crate::catalog::nodes;
use crate::catalog::overlay::{CompatCatalogRows, CompatView};
use crate::catalog::rows;
use crate::catalog::rows::ColumnScan;
use crate::catalog::selectors::SelectorView;
use crate::catalog::snapshot::{CatalogSnapshot, SnapshotView};
use crate::catalog::static_rows;
use crate::catalog::synthetic;
use crate::catalog::values;
use crate::ordered;
use crate::search;
use crate::types::Oid;

verus! {

broadcast use vstd::std_specs::btree::group_btree_axioms;

/// A value of a compiled-in row, by the name of its column.
pub open spec fn written(table: StaticCatalogTable, row: StaticCatalogRow, name: Seq<char>) -> Option<
    StaticCatalogValue,
> {
    match columns::position(table, name) {
        Some(i) if i < row.values@.len() => Some(row.values@[i]),
        _ => None,
    }
}

fn written_value(table: &StaticCatalogTable, row: &StaticCatalogRow, name: &str) -> (r: Option<
    StaticCatalogValue,
>)
    ensures
        r == written(*table, *row, name@),
{
    match columns::column_position(table, name) {
        Some(i) => if i < row.values.len() {
            Some(row.values[i])
        } else {
            None
        },
        None => None,
    }
}

/// The relation and the place that a compiled-in row of the catalog of columns
/// names.
pub open spec fn written_place(table: StaticCatalogTable, row: StaticCatalogRow) -> Option<
    (u32, i16),
> {
    match (written(table, row, "attrelid"@), written(table, row, "attnum"@)) {
        (Some(StaticCatalogValue::Raw(relid)), Some(StaticCatalogValue::Raw(attnum))) => match (
            values::static_u32(relid@),
            values::static_i32(attnum@),
        ) {
            (Some(relid), Some(attnum)) if i16::MIN <= attnum <= i16::MAX => Some(
                (relid, attnum as i16),
            ),
            _ => None,
        },
        _ => None,
    }
}

pub fn static_row_attribute_key_from_values(
    table: &StaticCatalogTable,
    row: &StaticCatalogRow,
) -> (r: Option<(u32, i16)>)
    ensures
        r == written_place(*table, *row),
{
    let relid = match written_value(table, row, "attrelid") {
        Some(value) => values::static_value_as_u32(value),
        None => None,
    };
    let attnum = match written_value(table, row, "attnum") {
        Some(value) => values::static_value_as_i32(value),
        None => None,
    };
    match (relid, attnum) {
        (Some(relid), Some(attnum)) => if -0x8000 <= attnum && attnum <= 0x7fff {
            Some((relid, attnum as i16))
        } else {
            None
        },
        _ => None,
    }
}

/// The identities of compiled-in rows.
pub open spec fn compiled_ids(rows: Seq<StaticCatalogRow>) -> Set<u64> {
    Set::new(|id: u64| exists|i: int| 0 <= i < rows.len() && (#[trigger] rows[i]).row_id == id)
}

/// The identities of the domains of the information schema.
pub open spec fn domain_ids() -> Set<u64> {
    Set::new(
        |id: u64|
            exists|i: int|
                0 <= i < synthetic::domain_specs().len() && (
                #[trigger] synthetic::domain_specs()[i]).oid.0 as u64 == id,
    )
}

/// The identities of the indexes of catalogs.
pub open spec fn index_ids() -> Set<u64> {
    Set::new(
        |id: u64|
            exists|i: int|
                0 <= i < catalog_indexes::indexes().len() && (
                #[trigger] catalog_indexes::indexes()[i]).oid.0 as u64 == id,
    )
}

/// The identities of the row types of the compiled-in catalogs.
pub open spec fn rowtype_ids(tables: Seq<StaticCatalogTable>) -> Set<u64> {
    Set::new(
        |id: u64|
            exists|i: int|
                0 <= i < tables.len() && static_rows::rowtype_of(#[trigger] tables[i]).0 as u64
                    == id,
    )
}

/// The identities of the first `n` rows of the English configuration.
pub open spec fn token_ids(n: int) -> Set<u64>
    decreases n,
{
    if n <= 0 {
        Set::empty()
    } else {
        token_ids(n - 1).insert(SYNTHETIC_TS_CONFIG_MAP_ROW_ID_BASE | (n - 1) as u64)
    }
}

/// Identities of rows of the catalog of columns, and the places that are taken.
pub struct IdScan {
    pub ids: Set<u64>,
    pub taken: Set<(u32, i16)>,
}

impl IdScan {
    pub open spec fn with_place(self, place: (u32, i16), id: u64) -> IdScan {
        if self.taken.contains(place) {
            self
        } else {
            IdScan { ids: self.ids.insert(id), taken: self.taken.insert(place) }
        }
    }

    /// With the first `n` columns of a catalog.
    pub open spec fn with_columns(self, relation_oid: Oid, n: nat) -> IdScan
        decreases n,
    {
        if n == 0 {
            self
        } else if n > i16::MAX {
            self.with_columns(relation_oid, (n - 1) as nat)
        } else {
            self.with_columns(relation_oid, (n - 1) as nat).with_place(
                (relation_oid.0, n as i16),
                synthetic::attribute_row_id(relation_oid, n as i16),
            )
        }
    }

    /// With the first `n` system columns of a catalog.
    pub open spec fn with_system_columns(self, relation_oid: Oid, n: nat) -> IdScan
        decreases n,
    {
        if n == 0 {
            self
        } else {
            let attnum = synthetic::system_attributes()[n - 1].attnum;
            self.with_system_columns(relation_oid, (n - 1) as nat).with_place(
                (relation_oid.0, attnum),
                synthetic::system_attribute_row_id(relation_oid, attnum),
            )
        }
    }

    /// With the first `n` columns of an index of a catalog.
    pub open spec fn with_keys(self, index_oid: Oid, n: nat) -> IdScan
        decreases n,
    {
        if n == 0 {
            self
        } else if n > i16::MAX {
            self.with_keys(index_oid, (n - 1) as nat)
        } else {
            self.with_keys(index_oid, (n - 1) as nat).with_place(
                (index_oid.0, n as i16),
                synthetic::attribute_row_id(index_oid, n as i16),
            )
        }
    }

    /// With the columns of the first `n` indexes of catalogs.
    pub open spec fn with_indexes(self, n: nat) -> IdScan
        decreases n,
    {
        if n == 0 {
            self
        } else {
            let index = catalog_indexes::all_indexes()[n - 1];
            self.with_indexes((n - 1) as nat).with_keys(index.oid, index.keys.len())
        }
    }

    /// With the columns of the first `n` compiled-in catalogs.
    pub open spec fn with_catalogs(self, tables: Seq<StaticCatalogTable>, n: nat) -> IdScan
        decreases n,
    {
        if n == 0 {
            self
        } else {
            let table = tables[n - 1];
            self.with_catalogs(tables, (n - 1) as nat).with_columns(
                table.oid,
                table.columns@.len(),
            ).with_system_columns(table.oid, synthetic::system_attributes().len())
        }
    }
}

/// The places that compiled-in rows and records of columns take.
pub open spec fn written_places(table: StaticCatalogTable, s: SnapshotView) -> Set<(u32, i16)> {
    Set::new(
        |k: (u32, i16)|
            {
                ||| exists|i: int|
                    0 <= i < table.rows@.len() && written_place(
                        table,
                        #[trigger] table.rows@[i],
                    ) == Some(k)
                ||| exists|id: u64| #[trigger]
                    s.columns.contains_key(id) && (
                        s.columns[id].relation_oid.0,
                        s.columns[id].attnum,
                    ) == k
            },
    )
}

/// The identities of the rows of a catalog, but for those laid over it.
pub open spec fn gathered_ids(
    generated: GeneratedCatalog,
    table: StaticCatalogTable,
    s: SnapshotView,
) -> Set<u64> {
    let compiled = compiled_ids(table.rows@);
    let relation = table.oid.0;
    if relation == PG_NAMESPACE_RELATION_OID {
        compiled.insert(INFORMATION_SCHEMA_NAMESPACE_OID as u64).union(s.namespaces.dom())
    } else if relation == PG_CLASS_RELATION_OID {
        compiled.insert(PG_AGGREGATE_FNOID_INDEX_OID as u64).union(index_ids()).union(
            s.relations.dom(),
        )
    } else if relation == PG_ATTRIBUTE_RELATION_OID {
        (IdScan { ids: compiled.union(s.columns.dom()), taken: written_places(table, s) })
            .with_catalogs(generated.tables@, generated.tables@.len()).with_indexes(
            catalog_indexes::all_indexes().len(),
        ).ids
    } else if relation == PG_TYPE_RELATION_OID {
        compiled.union(s.types.dom()).union(domain_ids()).union(rowtype_ids(generated.tables@))
    } else if relation == PG_INDEX_RELATION_OID {
        compiled.insert(PG_AGGREGATE_FNOID_INDEX_OID as u64).union(index_ids()).union(
            s.indexes.dom(),
        )
    } else if relation == PG_CONSTRAINT_RELATION_OID {
        compiled.union(s.constraints.dom())
    } else if relation == PG_INIT_PRIVS_RELATION_OID {
        compiled.insert(SYNTHETIC_INIT_PRIVS_ROW_ID_BASE | PG_CATALOG_NAMESPACE_OID as u64)
    } else if relation == PG_TS_DICT_RELATION_OID {
        compiled.insert(ENGLISH_TS_DICT_OID as u64)
    } else if relation == PG_TS_CONFIG_RELATION_OID {
        compiled.insert(ENGLISH_TS_CONFIG_OID as u64)
    } else if relation == PG_TS_CONFIG_MAP_RELATION_OID {
        compiled.union(token_ids(synthetic::english_tokens().len() as int))
    } else if relation == PG_TS_TEMPLATE_RELATION_OID {
        compiled.insert(SNOWBALL_TS_TEMPLATE_OID as u64)
    } else if relation == PG_PROC_RELATION_OID {
        compiled.insert(DSNOWBALL_INIT_PROC_OID as u64).insert(DSNOWBALL_LEXIZE_PROC_OID as u64)
    } else if relation == PG_INDEXES_RELATION_OID {
        compiled.union(listed_ids(index_views::pg_indexes_rows(generated, s, table)))
    } else {
        compiled
    }
}

/// The identities of rows once the marks and the rows of a set are applied.
pub open spec fn applied_ids(compat: CompatView, relation: u32, ids: Set<u64>) -> Set<u64> {
    Set::new(
        |id: u64|
            compat.rows.contains_key((relation, id)) || (ids.contains(id)
                && !compat.tombstones.contains((relation, id))),
    )
}

/// The identities of the rows of a catalog.
pub open spec fn row_ids(
    generated: GeneratedCatalog,
    table: StaticCatalogTable,
    s: SnapshotView,
) -> Set<u64> {
    applied_ids(s.compat, table.oid.0, gathered_ids(generated, table, s))
}

fn add_keys<V>(ids: &mut BTreeSet<u64>, records: &BTreeMap<u64, V>)
    ensures
        final(ids)@ == old(ids)@.union(records@.dom()),
{
    let keys = ordered::sorted_keys(records);
    let ghost start = ids@;
    let mut i: usize = 0;
    while i < keys.len()
        invariant
            i <= keys.len(),
            forall|k: u64| #[trigger] keys@.contains(k) <==> records@.contains_key(k),
            forall|k: u64| #[trigger]
                ids@.contains(k) ==> start.contains(k) || records@.contains_key(k),
            forall|k: u64| start.contains(k) ==> #[trigger] ids@.contains(k),
            forall|j: int| 0 <= j < i ==> ids@.contains(#[trigger] keys@[j]),
        decreases keys.len() - i,
    {
        assert(keys@.contains(keys@[i as int]));
        ids.insert(keys[i]);
        i += 1;
    }
    assert forall|k: u64| records@.contains_key(k) implies ids@.contains(k) by {
        assert(keys@.contains(k));
        let j = choose|j: int| 0 <= j < keys@.len() && keys@[j] == k;
        assert(ids@.contains(keys@[j]));
    }
    assert(ids@ =~= start.union(records@.dom()));
}

fn compiled_row_ids(table: &StaticCatalogTable) -> (r: BTreeSet<u64>)
    ensures
        r@ == compiled_ids(table.rows@),
{
    let mut ids: BTreeSet<u64> = BTreeSet::new();
    let mut i: usize = 0;
    while i < table.rows.len()
        invariant
            i <= table.rows@.len(),
            forall|k: u64| #[trigger] ids@.contains(k) ==> compiled_ids(table.rows@).contains(k),
            forall|j: int| 0 <= j < i ==> ids@.contains((#[trigger] table.rows@[j]).row_id),
        decreases table.rows@.len() - i,
    {
        assert(compiled_ids(table.rows@).contains(table.rows@[i as int].row_id));
        ids.insert(table.rows[i].row_id);
        i += 1;
    }
    assert(ids@ =~= compiled_ids(table.rows@));
    ids
}

fn written_row_places(table: &StaticCatalogTable, s: &CatalogSnapshot) -> (r: Vec<(u32, i16)>)
    ensures
        r@.to_set() == written_places(*table, s@),
{
    let ghost all = written_places(*table, s@);
    let mut r: Vec<(u32, i16)> = Vec::new();
    let mut i: usize = 0;
    while i < table.rows.len()
        invariant
            i <= table.rows@.len(),
            all == written_places(*table, s@),
            forall|k: (u32, i16)| #[trigger] r@.to_set().contains(k) ==> all.contains(k),
            forall|j: int|
                0 <= j < i ==> (written_place(*table, #[trigger] table.rows@[j]) matches Some(k)
                    ==> r@.to_set().contains(k)),
        decreases table.rows@.len() - i,
    {
        match static_row_attribute_key_from_values(table, &table.rows[i]) {
            Some(k) => {
                proof {
                    rows::lemma_push_place(r@, k);
                    assert(written_place(*table, table.rows@[i as int]) == Some(k));
                    assert(all.contains(k));
                }
                r.push(k);
            },
            None => {},
        }
        i += 1;
    }
    let ids = ordered::sorted_keys(&s.columns);
    i = 0;
    while i < ids.len()
        invariant
            i <= ids.len(),
            all == written_places(*table, s@),
            forall|k: u64| #[trigger] ids@.contains(k) <==> s.columns@.contains_key(k),
            forall|k: (u32, i16)| #[trigger] r@.to_set().contains(k) ==> all.contains(k),
            forall|j: int|
                0 <= j < table.rows@.len() ==> (written_place(
                    *table,
                    #[trigger] table.rows@[j],
                ) matches Some(k) ==> r@.to_set().contains(k)),
            forall|j: int|
                0 <= j < i ==> r@.to_set().contains(
                    (
                        s@.columns[#[trigger] ids@[j]].relation_oid.0,
                        s@.columns[ids@[j]].attnum,
                    ),
                ),
        decreases ids.len() - i,
    {
        let id = ids[i];
        assert(ids@.contains(id));
        assert(s@.columns.contains_key(id));
        match s.columns.get(&id) {
            Some(column) => {
                let k = (column.relation_oid.0, column.attnum);
                proof {
                    rows::lemma_push_place(r@, k);
                    assert(all.contains(k));
                }
                r.push(k);
            },
            None => {
                assert(false);
            },
        }
        i += 1;
    }
    assert(r@.to_set() =~= all) by {
        assert forall|k: (u32, i16)| all.contains(k) implies r@.to_set().contains(k) by {
            if exists|j: int|
                0 <= j < table.rows@.len() && written_place(*table, #[trigger] table.rows@[j])
                    == Some(k) {
            } else {
                let id = choose|id: u64| #[trigger]
                    s@.columns.contains_key(id) && (
                        s@.columns[id].relation_oid.0,
                        s@.columns[id].attnum,
                    ) == k;
                assert(ids@.contains(id));
                let j = choose|j: int| 0 <= j < ids@.len() && ids@[j] == id;
                assert(s@.columns[ids@[j]].attnum == k.1);
            }
        }
    }
    r
}

fn add_place(ids: &mut BTreeSet<u64>, taken: &mut Vec<(u32, i16)>, place: (u32, i16), id: u64)
    ensures
        (IdScan { ids: final(ids)@, taken: final(taken)@.to_set() }) == (IdScan {
            ids: old(ids)@,
            taken: old(taken)@.to_set(),
        }).with_place(place, id),
{
    if !rows::takes(taken, place.0, place.1) {
        proof {
            rows::lemma_push_place(taken@, place);
        }
        taken.push(place);
        ids.insert(id);
    }
}

fn add_column_ids(
    ids: &mut BTreeSet<u64>,
    generated: &GeneratedCatalog,
    table: &StaticCatalogTable,
    s: &CatalogSnapshot,
)
    ensures
        final(ids)@ == (IdScan { ids: old(ids)@, taken: written_places(*table, s@) })
            .with_catalogs(generated.tables@, generated.tables@.len()).with_indexes(
            catalog_indexes::all_indexes().len(),
        ).ids,
{
    let mut taken = written_row_places(table, s);
    let attributes = synthetic::system_attribute_specs();
    let ghost start = IdScan { ids: ids@, taken: taken@.to_set() };
    let ghost tables = generated.tables@;
    let mut i: usize = 0;
    while i < generated.tables.len()
        invariant
            i <= tables.len(),
            tables == generated.tables@,
            attributes@ == synthetic::system_attributes(),
            (IdScan { ids: ids@, taken: taken@.to_set() }) == start.with_catalogs(
                tables,
                i as nat,
            ),
        decreases tables.len() - i,
    {
        let oid = generated.tables[i].oid;
        let width = generated.tables[i].columns.len();
        let ghost before = IdScan { ids: ids@, taken: taken@.to_set() };
        let mut n: usize = 0;
        while n < width
            invariant
                n <= width,
                (IdScan { ids: ids@, taken: taken@.to_set() }) == before.with_columns(
                    oid,
                    n as nat,
                ),
            decreases width - n,
        {
            if n < 0x7fff {
                let attnum: i16 = (n + 1) as i16;
                add_place(
                    ids,
                    &mut taken,
                    (oid.0, attnum),
                    synthetic::synthetic_static_attribute_row_id(oid, attnum),
                );
            }
            n += 1;
        }
        let ghost middle = IdScan { ids: ids@, taken: taken@.to_set() };
        n = 0;
        while n < attributes.len()
            invariant
                n <= attributes.len(),
                attributes@ == synthetic::system_attributes(),
                (IdScan { ids: ids@, taken: taken@.to_set() }) == middle.with_system_columns(
                    oid,
                    n as nat,
                ),
            decreases attributes.len() - n,
        {
            let attnum = attributes[n].attnum;
            add_place(
                ids,
                &mut taken,
                (oid.0, attnum),
                synthetic::synthetic_system_attribute_row_id(oid, attnum),
            );
            n += 1;
        }
        i += 1;
    }
    let indexes = catalog_indexes::all_catalog_indexes();
    let ghost all = catalog_indexes::all_indexes();
    let ghost behind = IdScan { ids: ids@, taken: taken@.to_set() };
    i = 0;
    while i < indexes.len()
        invariant
            i <= indexes.len(),
            all == catalog_indexes::all_indexes(),
            search::views(indexes@) == all,
            (IdScan { ids: ids@, taken: taken@.to_set() }) == behind.with_indexes(i as nat),
        decreases indexes.len() - i,
    {
        let oid = indexes[i].oid;
        let width = indexes[i].keys.len();
        assert(all[i as int] == indexes@[i as int]@);
        let ghost before = IdScan { ids: ids@, taken: taken@.to_set() };
        let mut n: usize = 0;
        while n < width
            invariant
                n <= width,
                (IdScan { ids: ids@, taken: taken@.to_set() }) == before.with_keys(
                    oid,
                    n as nat,
                ),
            decreases width - n,
        {
            if n < 0x7fff {
                let attnum: i16 = (n + 1) as i16;
                add_place(
                    ids,
                    &mut taken,
                    (oid.0, attnum),
                    synthetic::synthetic_static_attribute_row_id(oid, attnum),
                );
            }
            n += 1;
        }
        i += 1;
    }
    assert(indexes@.len() == all.len());
}

fn add_index_ids(ids: &mut BTreeSet<u64>)
    ensures
        final(ids)@ == old(ids)@.union(index_ids()),
{
    let ghost start = ids@;
    let indexes = catalog_indexes::catalog_indexes();
    let ghost all = catalog_indexes::indexes();
    let mut i: usize = 0;
    while i < indexes.len()
        invariant
            i <= indexes.len(),
            all == catalog_indexes::indexes(),
            search::views(indexes@) == all,
            forall|k: u64| #[trigger]
                ids@.contains(k) ==> start.contains(k) || index_ids().contains(k),
            forall|k: u64| start.contains(k) ==> #[trigger] ids@.contains(k),
            forall|j: int| 0 <= j < i ==> ids@.contains((#[trigger] all[j]).oid.0 as u64),
        decreases indexes.len() - i,
    {
        assert(all[i as int] == indexes@[i as int]@);
        assert(index_ids().contains(catalog_indexes::indexes()[i as int].oid.0 as u64));
        ids.insert(indexes[i].oid.0 as u64);
        i += 1;
    }
    assert(indexes@.len() == all.len());
    assert(ids@ =~= start.union(index_ids()));
}

fn add_type_ids(ids: &mut BTreeSet<u64>, generated: &GeneratedCatalog)
    ensures
        final(ids)@ == old(ids)@.union(domain_ids()).union(rowtype_ids(generated.tables@)),
{
    let ghost start = ids@;
    let domains = synthetic::information_schema_domain_specs();
    let mut i: usize = 0;
    while i < domains.len()
        invariant
            i <= domains.len(),
            domains@ == synthetic::domain_specs(),
            forall|k: u64| #[trigger]
                ids@.contains(k) ==> start.contains(k) || domain_ids().contains(k),
            forall|k: u64| start.contains(k) ==> #[trigger] ids@.contains(k),
            forall|j: int| 0 <= j < i ==> ids@.contains((#[trigger] domains@[j]).oid.0 as u64),
        decreases domains.len() - i,
    {
        assert(domain_ids().contains(synthetic::domain_specs()[i as int].oid.0 as u64));
        ids.insert(domains[i].oid.0 as u64);
        i += 1;
    }
    assert(ids@ =~= start.union(domain_ids()));
    let ghost middle = ids@;
    let ghost tables = generated.tables@;
    i = 0;
    while i < generated.tables.len()
        invariant
            i <= tables.len(),
            tables == generated.tables@,
            forall|k: u64| #[trigger]
                ids@.contains(k) ==> middle.contains(k) || rowtype_ids(tables).contains(k),
            forall|k: u64| middle.contains(k) ==> #[trigger] ids@.contains(k),
            forall|j: int|
                0 <= j < i ==> ids@.contains(
                    static_rows::rowtype_of(#[trigger] tables[j]).0 as u64,
                ),
        decreases tables.len() - i,
    {
        assert(rowtype_ids(tables).contains(
            static_rows::rowtype_of(tables[i as int]).0 as u64,
        ));
        ids.insert(static_rows::static_catalog_table_rowtype_oid(&generated.tables[i]).0 as u64);
        i += 1;
    }
    assert(ids@ =~= middle.union(rowtype_ids(tables)));
}

fn add_token_ids(ids: &mut BTreeSet<u64>)
    ensures
        final(ids)@ == old(ids)@.union(token_ids(synthetic::english_tokens().len() as int)),
{
    let ghost start = ids@;
    let count = synthetic::synthetic_ts_config_map_row_count();
    let mut i: usize = 0;
    assert(ids@ =~= start.union(token_ids(0)));
    while i < count
        invariant
            i <= count,
            ids@ == start.union(token_ids(i as int)),
        decreases count - i,
    {
        ids.insert(SYNTHETIC_TS_CONFIG_MAP_ROW_ID_BASE | i as u64);
        assert(ids@ =~= start.union(token_ids(i + 1)));
        i += 1;
    }
}

/// Takes out the identities of deleted rows, and adds those of rows laid over
/// their catalog.
pub fn insert_compat_row_ids(
    relation_oid: Oid,
    ids: &mut BTreeSet<u64>,
    compat_rows: &CompatCatalogRows,
)
    ensures
        final(ids)@ == applied_ids(compat_rows@, relation_oid.0, old(ids)@),
{
    let relation = relation_oid.0;
    let ghost start = ids@;
    match compat_rows.tombstones.get(&relation) {
        Some(marks) => {
            let gone = ordered::sorted_members(marks);
            let mut i: usize = 0;
            while i < gone.len()
                invariant
                    i <= gone.len(),
                    forall|k: u64| #[trigger] gone@.contains(k) <==> marks@.contains(k),
                    forall|k: u64| #[trigger] ids@.contains(k) ==> start.contains(k),
                    forall|k: u64|
                        start.contains(k) && !marks@.contains(k) ==> #[trigger] ids@.contains(k),
                    forall|j: int| 0 <= j < i ==> !ids@.contains(#[trigger] gone@[j]),
                decreases gone.len() - i,
            {
                assert(gone@.contains(gone@[i as int]));
                ids.remove(&gone[i]);
                i += 1;
            }
            assert forall|k: u64| marks@.contains(k) implies !ids@.contains(k) by {
                assert(gone@.contains(k));
                let j = choose|j: int| 0 <= j < gone@.len() && gone@[j] == k;
                assert(!ids@.contains(gone@[j]));
            }
        },
        None => {},
    }
    assert(forall|k: u64| #[trigger]
        ids@.contains(k) <==> start.contains(k) && !compat_rows@.tombstones.contains(
            (relation, k),
        ));
    match compat_rows.rows.get(&relation) {
        Some(over) => add_keys(ids, over),
        None => {},
    }
    assert(ids@ =~= applied_ids(compat_rows@, relation, start));
}

fn add_told_indexes(
    ids: &mut BTreeSet<u64>,
    generated: &GeneratedCatalog,
    table: &StaticCatalogTable,
    s: &CatalogSnapshot,
)
    requires
        s@.wf(),
    ensures
        final(ids)@ == old(ids)@.union(
            listed_ids(index_views::pg_indexes_rows(*generated, s@, *table)),
        ),
{
    let list = index_views::synthetic_pg_indexes_rows(generated, s, table);
    let ghost all = index_views::pg_indexes_rows(*generated, s@, *table);
    let ghost start = ids@;
    let mut i: usize = 0;
    while i < list.len()
        invariant
            i <= list@.len(),
            list@.len() == all.len(),
            forall|j: int|
                0 <= j < list@.len() ==> search::option_view(#[trigger] list@[j]) == all[j],
            forall|id: u64| #[trigger]
                ids@.contains(id) ==> start.contains(id) || listed_ids(all).contains(id),
            forall|id: u64| #[trigger] start.contains(id) ==> ids@.contains(id),
            forall|j: int|
                0 <= j < i ==> (#[trigger] all[j] matches Some(row) ==> ids@.contains(row.row_id)),
        decreases list@.len() - i,
    {
        assert(search::option_view(list@[i as int]) == all[i as int]);
        match &list[i] {
            Some(row) => {
                assert(listed_ids(all).contains(row.row_id));
                ids.insert(row.row_id);
            },
            None => {},
        }
        i += 1;
    }
    assert(ids@ =~= start.union(listed_ids(all)));
}

/// How many rows a catalog has, where there is one.
pub fn catalog_row_count(
    generated: &GeneratedCatalog,
    s: &CatalogSnapshot,
    relation_oid: Oid,
) -> (r: Option<usize>)
    requires
        s@.wf(),
    ensures
        match (columns::table_of(*generated, relation_oid), r) {
            (Some(table), Some(n)) => n == row_ids(*generated, table, s@).len(),
            (None, None) => true,
            _ => false,
        },
{
    let table = match columns::static_catalog_by_relation_oid(generated, relation_oid) {
        Some(table) => table,
        None => return None,
    };
    let mut ids = compiled_row_ids(table);
    let relation = relation_oid.0;
    if relation == PG_NAMESPACE_RELATION_OID {
        ids.insert(INFORMATION_SCHEMA_NAMESPACE_OID as u64);
        add_keys(&mut ids, &s.namespaces);
        assert(s.namespaces@.dom() =~= s@.namespaces.dom());
    } else if relation == PG_CLASS_RELATION_OID {
        ids.insert(PG_AGGREGATE_FNOID_INDEX_OID as u64);
        add_index_ids(&mut ids);
        add_keys(&mut ids, &s.relations);
        assert(s.relations@.dom() =~= s@.relations.dom());
    } else if relation == PG_ATTRIBUTE_RELATION_OID {
        add_keys(&mut ids, &s.columns);
        assert(s.columns@.dom() =~= s@.columns.dom());
        add_column_ids(&mut ids, generated, table, s);
    } else if relation == PG_TYPE_RELATION_OID {
        add_keys(&mut ids, &s.types);
        assert(s.types@.dom() =~= s@.types.dom());
        add_type_ids(&mut ids, generated);
    } else if relation == PG_INDEX_RELATION_OID {
        ids.insert(PG_AGGREGATE_FNOID_INDEX_OID as u64);
        add_index_ids(&mut ids);
        add_keys(&mut ids, &s.indexes);
        assert(s.indexes@.dom() =~= s@.indexes.dom());
    } else if relation == PG_CONSTRAINT_RELATION_OID {
        add_keys(&mut ids, &s.constraints);
        assert(s.constraints@.dom() =~= s@.constraints.dom());
    } else if relation == PG_INIT_PRIVS_RELATION_OID {
        ids.insert(SYNTHETIC_INIT_PRIVS_ROW_ID_BASE | PG_CATALOG_NAMESPACE_OID as u64);
    } else if relation == PG_TS_DICT_RELATION_OID {
        ids.insert(ENGLISH_TS_DICT_OID as u64);
    } else if relation == PG_TS_CONFIG_RELATION_OID {
        ids.insert(ENGLISH_TS_CONFIG_OID as u64);
    } else if relation == PG_TS_CONFIG_MAP_RELATION_OID {
        add_token_ids(&mut ids);
    } else if relation == PG_TS_TEMPLATE_RELATION_OID {
        ids.insert(SNOWBALL_TS_TEMPLATE_OID as u64);
    } else if relation == PG_PROC_RELATION_OID {
        ids.insert(DSNOWBALL_INIT_PROC_OID as u64);
        ids.insert(DSNOWBALL_LEXIZE_PROC_OID as u64);
    } else if relation == PG_INDEXES_RELATION_OID {
        add_told_indexes(&mut ids, generated, table, s);
    }
    insert_compat_row_ids(relation_oid, &mut ids, &s.compat_rows);
    Some(ids.len())
}

pub(crate) proof fn lemma_compiled(request: rows::RequestView, list: Seq<StaticCatalogRow>)
    requires
        request.sel is All,
        search::last_with(request.generated.tables@, columns::table_has(request.table.oid))
            == Some(request.table),
        forall|i: int| 0 <= i < list.len() ==> request.table.rows@.contains(#[trigger] list[i]),
    ensures
        request.compiled(list).dom() == compiled_ids(list),
    decreases list.len(),
{
    if list.len() == 0 {
        assert(request.compiled(list).dom() =~= compiled_ids(list));
    } else {
        let before = list.drop_last();
        let row = list.last();
        let table = request.table;
        assert forall|i: int| 0 <= i < before.len() implies table.rows@.contains(
            #[trigger] before[i],
        ) by {
            assert(before[i] == list[i]);
        }
        lemma_compiled(request, before);
        assert(list[list.len() - 1] == row);
        let i = choose|i: int| 0 <= i < table.rows@.len() && table.rows@[i] == row;
        search::last_with_finds(table.rows@, static_rows::row_has(row.row_id), i);
        assert forall|id: u64| compiled_ids(list).contains(id) <==> compiled_ids(before).insert(
            row.row_id,
        ).contains(id) by {
            if compiled_ids(before).contains(id) {
                let j = choose|j: int| 0 <= j < before.len() && (#[trigger] before[j]).row_id == id;
                assert(list[j].row_id == id);
            }
            if compiled_ids(list).contains(id) {
                let j = choose|j: int| 0 <= j < list.len() && (#[trigger] list[j]).row_id == id;
                if j < before.len() {
                    assert(before[j].row_id == id);
                }
            }
        }
        assert(request.compiled(list).dom() =~= compiled_ids(list));
    }
}

/// The identities of rows that may be missing.
pub open spec fn listed_ids(list: Seq<Option<CatalogRowView>>) -> Set<u64> {
    Set::new(
        |id: u64|
            exists|i: int|
                0 <= i < list.len() && (#[trigger] list[i] matches Some(row) && row.row_id == id),
    )
}

proof fn lemma_each(
    request: rows::RequestView,
    start: Map<u64, CatalogRowView>,
    list: Seq<Option<CatalogRowView>>,
)
    requires
        request.sel is All,
    ensures
        request.with_each(start, list).dom() == start.dom().union(listed_ids(list)),
    decreases list.len(),
{
    if list.len() > 0 {
        let before = list.drop_last();
        lemma_each(request, start, before);
        assert forall|id: u64| listed_ids(list).contains(id) <==> (listed_ids(before).contains(id)
            || (list.last() matches Some(row) && row.row_id == id)) by {
            if listed_ids(before).contains(id) {
                let j = choose|j: int|
                    0 <= j < before.len() && (#[trigger] before[j] matches Some(row) && row.row_id
                        == id);
                assert(list[j] == before[j]);
            }
            if listed_ids(list).contains(id) {
                let j = choose|j: int|
                    0 <= j < list.len() && (#[trigger] list[j] matches Some(row) && row.row_id
                        == id);
                if j < before.len() {
                    assert(before[j] == list[j]);
                }
            }
            if list.last() is Some {
                assert(list[list.len() - 1] == list.last());
            }
        }
    }
    assert(request.with_each(start, list).dom() =~= start.dom().union(listed_ids(list)));
}

proof fn lemma_tokens(table: StaticCatalogTable, n: int)
    requires
        0 <= n <= synthetic::english_tokens().len(),
    ensures
        listed_ids(rows::each(synthetic::english_token_rows(table)).take(n)) == token_ids(n),
    decreases n,
{
    let all = rows::each(synthetic::english_token_rows(table));
    if n > 0 {
        lemma_tokens(table, n - 1);
        let before = all.take(n - 1);
        let now = all.take(n);
        let row = synthetic::english_token_row(table, n - 1);
        assert(now[n - 1] == Some(row));
        columns::values_keep_the_identity(
            table,
            synthetic::empty_row(table, SYNTHETIC_TS_CONFIG_MAP_ROW_ID_BASE | (n - 1) as u64),
            synthetic::english_token_columns(n - 1),
        );
        assert forall|id: u64| listed_ids(now).contains(id) <==> (listed_ids(before).contains(id)
            || row.row_id == id) by {
            if listed_ids(before).contains(id) {
                let j = choose|j: int|
                    0 <= j < before.len() && (#[trigger] before[j] matches Some(row) && row.row_id
                        == id);
                assert(now[j] == before[j]);
            }
            if listed_ids(now).contains(id) {
                let j = choose|j: int|
                    0 <= j < now.len() && (#[trigger] now[j] matches Some(row) && row.row_id
                        == id);
                if j < before.len() {
                    assert(before[j] == now[j]);
                }
            }
        }
    }
    assert(listed_ids(all.take(n)) =~= token_ids(n));
}

/// Whether each row that the catalog adds of itself can be made.
pub open spec fn rows_follow(generated: GeneratedCatalog, table: StaticCatalogTable) -> bool {
    if table.oid.0 == PG_NAMESPACE_RELATION_OID {
        synthetic::information_schema(generated, table) is Some
    } else if table.oid.0 == PG_TYPE_RELATION_OID {
        &&& forall|i: int|
            0 <= i < synthetic::domain_specs().len() ==> synthetic::domain_row(
                generated,
                table,
                #[trigger] synthetic::domain_specs()[i],
            ) is Some
        &&& synthetic::rowtype_template(generated, table) is Some
    } else if table.oid.0 == PG_INDEX_RELATION_OID {
        forall|i: int|
            0 <= i < catalog_indexes::indexes().len() ==> catalog_indexes::index_row(
                generated,
                table,
                #[trigger] catalog_indexes::indexes()[i],
            ) is Some
    } else {
        true
    }
}

proof fn lemma_types(request: rows::RequestView, start: Map<u64, CatalogRowView>)
    requires
        request.sel is All,
        request.table.oid.0 == PG_TYPE_RELATION_OID,
        rows_follow(request.generated, request.table),
    ensures
        request.with_each(
            request.with_each(start, rows::domain_rows(request.generated, request.table)),
            rows::rowtype_rows(request.generated, request.table),
        ).dom() == start.dom().union(domain_ids()).union(rowtype_ids(request.generated.tables@)),
{
    let generated = request.generated;
    let table = request.table;
    let domains = rows::domain_rows(generated, table);
    let rowtypes = rows::rowtype_rows(generated, table);
    lemma_each(request, start, domains);
    lemma_each(request, request.with_each(start, domains), rowtypes);
    let specs = synthetic::domain_specs();
    assert forall|i: int| 0 <= i < specs.len() implies (#[trigger] domains[i] matches Some(row)
        && row.row_id == specs[i].oid.0 as u64) by {
        let domain = specs[i];
        assert(synthetic::domain_row(generated, table, domain) is Some);
        let template = search::first_with(
            table.rows@,
            synthetic::is_type_with(generated, table, domain.base_type),
        )->0;
        columns::values_keep_the_identity(
            table,
            CatalogRowView {
                row_id: domain.oid.0 as u64,
                ..static_rows::named_row(generated, table, template)
            },
            synthetic::domain_columns(
                domain,
                nodes::builtin_type(generated, domain.base_type)->0,
            ),
        );
    }
    assert(listed_ids(domains) =~= domain_ids()) by {
        assert forall|id: u64| domain_ids().contains(id) implies listed_ids(domains).contains(
            id,
        ) by {
            let i = choose|i: int|
                0 <= i < specs.len() && (#[trigger] specs[i]).oid.0 as u64 == id;
            assert(domains[i] is Some);
        }
        assert forall|id: u64| listed_ids(domains).contains(id) implies domain_ids().contains(
            id,
        ) by {
            let i = choose|i: int|
                0 <= i < domains.len() && (#[trigger] domains[i] matches Some(row) && row.row_id
                    == id);
            assert(specs[i].oid.0 as u64 == id);
        }
    }
    let tables = generated.tables@;
    let template = synthetic::rowtype_template(generated, table)->0;
    assert forall|i: int| 0 <= i < tables.len() implies (#[trigger] rowtypes[i] matches Some(row)
        && row.row_id == static_rows::rowtype_of(tables[i]).0 as u64) by {
        columns::values_keep_the_identity(
            table,
            CatalogRowView {
                row_id: static_rows::rowtype_of(tables[i]).0 as u64,
                ..static_rows::named_row(generated, table, template)
            },
            synthetic::rowtype_columns(tables[i]),
        );
    }
    assert(listed_ids(rowtypes) =~= rowtype_ids(tables)) by {
        assert forall|id: u64| rowtype_ids(tables).contains(id) implies listed_ids(
            rowtypes,
        ).contains(id) by {
            let i = choose|i: int|
                0 <= i < tables.len() && static_rows::rowtype_of(#[trigger] tables[i]).0 as u64
                    == id;
            assert(rowtypes[i] is Some);
        }
        assert forall|id: u64| listed_ids(rowtypes).contains(id) implies rowtype_ids(
            tables,
        ).contains(id) by {
            let i = choose|i: int|
                0 <= i < rowtypes.len() && (#[trigger] rowtypes[i] matches Some(row) && row.row_id
                    == id);
            assert(static_rows::rowtype_of(tables[i]).0 as u64 == id);
        }
    }
}

proof fn lemma_index_rows(list: Seq<Option<CatalogRowView>>)
    requires
        list.len() == catalog_indexes::indexes().len(),
        forall|i: int|
            0 <= i < list.len() ==> (#[trigger] list[i] matches Some(row) && row.row_id
                == catalog_indexes::indexes()[i].oid.0 as u64),
    ensures
        listed_ids(list) == index_ids(),
{
    let all = catalog_indexes::indexes();
    assert forall|id: u64| index_ids().contains(id) implies listed_ids(list).contains(id) by {
        let i = choose|i: int| 0 <= i < all.len() && (#[trigger] all[i]).oid.0 as u64 == id;
        assert(list[i] is Some);
    }
    assert forall|id: u64| listed_ids(list).contains(id) implies index_ids().contains(id) by {
        let i = choose|i: int|
            0 <= i < list.len() && (#[trigger] list[i] matches Some(row) && row.row_id == id);
        assert(all[i].oid.0 as u64 == id);
    }
    assert(listed_ids(list) =~= index_ids());
}

proof fn lemma_indexes(request: rows::RequestView, start: Map<u64, CatalogRowView>)
    requires
        request.sel is All,
    ensures
        request.with_each(start, rows::index_class_rows(request.table)).dom() == start.dom().union(
            index_ids(),
        ),
        request.table.oid.0 == PG_INDEX_RELATION_OID && rows_follow(
            request.generated,
            request.table,
        ) ==> request.with_each(
            start,
            rows::index_rows(request.generated, request.table),
        ).dom() == start.dom().union(index_ids()),
{
    let table = request.table;
    let generated = request.generated;
    let all = catalog_indexes::indexes();
    let classes = rows::index_class_rows(table);
    assert forall|i: int| 0 <= i < classes.len() implies (#[trigger] classes[i] matches Some(row)
        && row.row_id == all[i].oid.0 as u64) by {
        columns::values_keep_the_identity(
            table,
            synthetic::empty_row(table, all[i].oid.0 as u64),
            catalog_indexes::class_columns(all[i]),
        );
    }
    lemma_index_rows(classes);
    lemma_each(request, start, classes);
    if table.oid.0 == PG_INDEX_RELATION_OID && rows_follow(generated, table) {
        let list = rows::index_rows(generated, table);
        assert forall|i: int| 0 <= i < list.len() implies (#[trigger] list[i] matches Some(row)
            && row.row_id == all[i].oid.0 as u64) by {
            assert(catalog_indexes::index_row(generated, table, all[i]) is Some);
            let relation = columns::table_of(generated, all[i].relation_oid)->0;
            let places = search::every_some(
                all[i].keys,
                catalog_indexes::key_place(relation),
            )->0;
            columns::values_keep_the_identity(
                table,
                synthetic::empty_row(table, all[i].oid.0 as u64),
                catalog_indexes::index_columns(generated, relation, all[i], places),
            );
        }
        lemma_index_rows(list);
        lemma_each(request, start, list);
    }
}

/// Whether each column of a compiled-in catalog or of an index of one gets a row.
pub open spec fn columns_follow(generated: GeneratedCatalog, table: StaticCatalogTable) -> bool {
    &&& forall|i: int, n: int|
        0 <= i < generated.tables@.len() && 0 < n <= generated.tables@[i].columns@.len() && n
            <= i16::MAX ==> #[trigger] column_follows(generated, table, i, n)
    &&& forall|i: int, n: int|
        0 <= i < generated.tables@.len() && 0 < n <= synthetic::system_attributes().len()
            ==> #[trigger] system_column_follows(generated, table, i, n)
    &&& forall|i: int, n: int|
        0 <= i < catalog_indexes::all_indexes().len() && 0 < n
            <= catalog_indexes::all_indexes()[i].keys.len() && n <= i16::MAX
            ==> #[trigger] key_follows(generated, table, i, n)
}

pub open spec fn column_follows(
    generated: GeneratedCatalog,
    table: StaticCatalogTable,
    i: int,
    n: int,
) -> bool {
    synthetic::attribute_row(
        generated,
        table,
        generated.tables@[i],
        generated.tables@[i].columns@[n - 1],
        n as i16,
    ) is Some
}

pub open spec fn system_column_follows(
    generated: GeneratedCatalog,
    table: StaticCatalogTable,
    i: int,
    n: int,
) -> bool {
    synthetic::system_attribute_row(
        generated,
        table,
        generated.tables@[i],
        synthetic::system_attributes()[n - 1],
    ) is Some
}

pub open spec fn key_follows(
    generated: GeneratedCatalog,
    table: StaticCatalogTable,
    i: int,
    n: int,
) -> bool {
    let index = catalog_indexes::all_indexes()[i];
    catalog_indexes::key_row(generated, table, index, index.keys[n - 1], n as i16) is Some
}

/// Whether a scan of rows and one of identities have found the same.
spec fn same_scan(scan: ColumnScan, ids: IdScan) -> bool {
    scan.rows.dom() == ids.ids && scan.taken == ids.taken
}

proof fn lemma_attribute_row(
    generated: GeneratedCatalog,
    table: StaticCatalogTable,
    relation: StaticCatalogTable,
    column: StaticCatalogColumn,
    attnum: i16,
)
    ensures
        synthetic::attribute_row(generated, table, relation, column, attnum) matches Some(row)
            ==> row.row_id == synthetic::attribute_row_id(relation.oid, attnum),
{
    columns::values_keep_the_identity(
        table,
        synthetic::first_row_as(
            generated,
            table,
            synthetic::attribute_row_id(relation.oid, attnum),
        ),
        synthetic::attribute_columns(
            relation,
            column,
            attnum,
            nodes::builtin_type(generated, column.type_oid)->0,
        ),
    );
}

proof fn lemma_columns(
    request: rows::RequestView,
    scan: ColumnScan,
    ids: IdScan,
    i: int,
    n: nat,
)
    requires
        request.sel is All,
        columns_follow(request.generated, request.table),
        0 <= i < request.generated.tables@.len(),
        n <= request.generated.tables@[i].columns@.len(),
        same_scan(scan, ids),
    ensures
        same_scan(
            request.with_columns(
                scan,
                request.generated.tables@[i],
                rows::ColumnFilterView::any(),
                n,
            ),
            ids.with_columns(request.generated.tables@[i].oid, n),
        ),
    decreases n,
{
    if n > 0 {
        lemma_columns(request, scan, ids, i, (n - 1) as nat);
        if n <= i16::MAX {
            let relation = request.generated.tables@[i];
            assert(column_follows(request.generated, request.table, i, n as int));
            lemma_attribute_row(
                request.generated,
                request.table,
                relation,
                relation.columns@[n - 1],
                n as i16,
            );
            let now = request.with_columns(scan, relation, rows::ColumnFilterView::any(), n);
            assert(now.rows.dom() =~= ids.with_columns(relation.oid, n).ids);
        }
    }
}

proof fn lemma_system_columns(
    request: rows::RequestView,
    scan: ColumnScan,
    ids: IdScan,
    i: int,
    n: nat,
)
    requires
        request.sel is All,
        columns_follow(request.generated, request.table),
        0 <= i < request.generated.tables@.len(),
        n <= synthetic::system_attributes().len(),
        same_scan(scan, ids),
    ensures
        same_scan(
            request.with_system_columns(
                scan,
                request.generated.tables@[i],
                rows::ColumnFilterView::any(),
                n,
            ),
            ids.with_system_columns(request.generated.tables@[i].oid, n),
        ),
    decreases n,
{
    if n > 0 {
        lemma_system_columns(request, scan, ids, i, (n - 1) as nat);
        let relation = request.generated.tables@[i];
        let attribute = synthetic::system_attributes()[n - 1];
        assert(system_column_follows(request.generated, request.table, i, n as int));
        columns::values_keep_the_identity(
            request.table,
            synthetic::first_row_as(
                request.generated,
                request.table,
                synthetic::system_attribute_row_id(relation.oid, attribute.attnum),
            ),
            synthetic::system_attribute_columns(
                relation,
                attribute,
                nodes::builtin_type(request.generated, attribute.type_oid)->0,
            ),
        );
        let now = request.with_system_columns(scan, relation, rows::ColumnFilterView::any(), n);
        assert(now.rows.dom() =~= ids.with_system_columns(relation.oid, n).ids);
    }
}

proof fn lemma_catalog_columns(
    request: rows::RequestView,
    scan: ColumnScan,
    ids: IdScan,
    n: nat,
)
    requires
        request.sel is All,
        columns_follow(request.generated, request.table),
        n <= request.generated.tables@.len(),
        same_scan(scan, ids),
    ensures
        same_scan(
            request.with_catalog_columns(scan, n),
            ids.with_catalogs(request.generated.tables@, n),
        ),
    decreases n,
{
    if n > 0 {
        lemma_catalog_columns(request, scan, ids, (n - 1) as nat);
        let table = request.generated.tables@[n - 1];
        let before = request.with_catalog_columns(scan, (n - 1) as nat);
        let before_ids = ids.with_catalogs(request.generated.tables@, (n - 1) as nat);
        lemma_columns(request, before, before_ids, n - 1, table.columns@.len());
        lemma_system_columns(
            request,
            request.with_columns(
                before,
                table,
                rows::ColumnFilterView::any(),
                table.columns@.len(),
            ),
            before_ids.with_columns(table.oid, table.columns@.len()),
            n - 1,
            synthetic::system_attributes().len(),
        );
    }
}

proof fn lemma_keys(request: rows::RequestView, scan: ColumnScan, ids: IdScan, i: int, n: nat)
    requires
        request.sel is All,
        columns_follow(request.generated, request.table),
        0 <= i < catalog_indexes::all_indexes().len(),
        n <= catalog_indexes::all_indexes()[i].keys.len(),
        same_scan(scan, ids),
    ensures
        same_scan(
            request.with_keys(
                scan,
                catalog_indexes::all_indexes()[i],
                rows::ColumnFilterView::any(),
                n,
            ),
            ids.with_keys(catalog_indexes::all_indexes()[i].oid, n),
        ),
    decreases n,
{
    if n > 0 {
        lemma_keys(request, scan, ids, i, (n - 1) as nat);
        if n <= i16::MAX {
            let index = catalog_indexes::all_indexes()[i];
            assert(key_follows(request.generated, request.table, i, n as int));
            let relation = columns::table_of(request.generated, index.relation_oid)->0;
            let place = catalog_indexes::key_place(relation)(index.keys[n - 1])->0;
            lemma_attribute_row(
                request.generated,
                request.table,
                StaticCatalogTable { oid: index.oid, ..relation },
                relation.columns@[place as int],
                n as i16,
            );
            let now = request.with_keys(scan, index, rows::ColumnFilterView::any(), n);
            assert(now.rows.dom() =~= ids.with_keys(index.oid, n).ids);
        }
    }
}

proof fn lemma_index_columns(request: rows::RequestView, scan: ColumnScan, ids: IdScan, n: nat)
    requires
        request.sel is All,
        columns_follow(request.generated, request.table),
        n <= catalog_indexes::all_indexes().len(),
        same_scan(scan, ids),
    ensures
        same_scan(request.with_index_columns(scan, n), ids.with_indexes(n)),
    decreases n,
{
    if n > 0 {
        lemma_index_columns(request, scan, ids, (n - 1) as nat);
        lemma_keys(
            request,
            request.with_index_columns(scan, (n - 1) as nat),
            ids.with_indexes((n - 1) as nat),
            n - 1,
            catalog_indexes::all_indexes()[n - 1].keys.len(),
        );
    }
}

/// The place that a compiled-in row of the catalog of columns is read at.
pub open spec fn place_read(
    generated: GeneratedCatalog,
    table: StaticCatalogTable,
    row: StaticCatalogRow,
) -> Option<(u32, i16)> {
    match static_rows::canonical_row(generated, table, row) {
        Some(found) => rows::attribute_key(generated, table, found),
        None => None,
    }
}

/// Whether the compiled-in rows of the catalog of columns are read at the places
/// that they are written for.
pub open spec fn places_follow(generated: GeneratedCatalog, table: StaticCatalogTable) -> bool {
    forall|i: int|
        0 <= i < table.rows@.len() ==> place_read(generated, table, #[trigger] table.rows@[i])
            == written_place(table, table.rows@[i])
}

/// Whether the records of columns tell the places that their rows tell, and
/// where a record takes the identity of a compiled-in row, it takes its place
/// too.
pub open spec fn records_tell_their_places(
    generated: GeneratedCatalog,
    table: StaticCatalogTable,
    s: SnapshotView,
) -> bool {
    forall|id: u64| #[trigger]
        s.columns.contains_key(id) ==> {
            let place = (s.columns[id].relation_oid.0, s.columns[id].attnum);
            &&& rows::attribute_key(generated, table, s.columns[id].row) == Some(place)
            &&& forall|i: int|
                0 <= i < table.rows@.len() && (#[trigger] table.rows@[i]).row_id == id ==> (
                written_place(table, table.rows@[i]) matches Some(written) ==> written == place)
        }
}

proof fn lemma_compiled_rows(request: rows::RequestView, list: Seq<StaticCatalogRow>)
    ensures
        forall|id: u64| #[trigger]
            request.compiled(list).contains_key(id) ==> exists|i: int|
                0 <= i < list.len() && (#[trigger] list[i]).row_id == id
                    && static_rows::canonical_row(request.generated, request.table, list[i])
                    == Some(request.compiled(list)[id]),
        request.sel is All ==> forall|i: int|
            0 <= i < list.len() && static_rows::canonical_row(
                request.generated,
                request.table,
                #[trigger] list[i],
            ) is Some ==> request.compiled(list).contains_key(list[i].row_id) && Some(
                request.compiled(list)[list[i].row_id],
            ) == static_rows::canonical_row(request.generated, request.table, list[i]),
    decreases list.len(),
{
    if list.len() > 0 {
        let before = list.drop_last();
        let last = list.last();
        lemma_compiled_rows(request, before);
        search::last_with_has(
            request.generated.tables@,
            columns::table_has(request.table.oid),
        );
        let named = static_rows::canonical_row(request.generated, request.table, last);
        match search::last_with(
            request.generated.tables@,
            columns::table_has(request.table.oid),
        ) {
            Some(t) => {
                search::last_with_has(t.rows@, static_rows::row_has(last.row_id));
            },
            None => {},
        }
        assert(named matches Some(row) ==> row.row_id == last.row_id);
        let now = request.compiled(list);
        assert forall|id: u64| #[trigger] now.contains_key(id) implies exists|i: int|
            0 <= i < list.len() && (#[trigger] list[i]).row_id == id
                && static_rows::canonical_row(request.generated, request.table, list[i]) == Some(
                now[id],
            ) by {
            if named is Some && request.wants_static(last) && id == last.row_id {
                assert(list[list.len() - 1] == last);
            } else {
                let i = choose|i: int|
                    0 <= i < before.len() && (#[trigger] before[i]).row_id == id
                        && static_rows::canonical_row(
                        request.generated,
                        request.table,
                        before[i],
                    ) == Some(request.compiled(before)[id]);
                assert(list[i] == before[i]);
            }
        }
        if request.sel is All {
            assert forall|i: int|
                0 <= i < list.len() && static_rows::canonical_row(
                    request.generated,
                    request.table,
                    #[trigger] list[i],
                ) is Some implies now.contains_key(list[i].row_id) && Some(now[list[i].row_id])
                == static_rows::canonical_row(request.generated, request.table, list[i]) by {
                if i < before.len() {
                    assert(before[i] == list[i]);
                }
            }
        }
    }
}

/// The places that rows of columns are read at are those that they are written
/// for.
pub proof fn places_are_read_as_written(
    generated: GeneratedCatalog,
    s: SnapshotView,
    table: StaticCatalogTable,
)
    requires
        places_follow(generated, table),
        records_tell_their_places(generated, table, s),
    ensures
        ({
            let request = rows::RequestView { generated, table, sel: SelectorView::All };
            rows::places_of(
                generated,
                table,
                request.with_more(
                    request.compiled(table.rows@),
                    rows::record_rows::<ColumnMeta>(s.columns),
                ),
            ) == written_places(table, s)
        }),
{
    let request = rows::RequestView { generated, table, sel: SelectorView::All };
    let compiled = request.compiled(table.rows@);
    let records = rows::record_rows::<ColumnMeta>(s.columns);
    let all = request.with_more(compiled, records);
    lemma_compiled_rows(request, table.rows@);
    let read = rows::places_of(generated, table, all);
    let written = written_places(table, s);
    assert forall|k: (u32, i16)| read.contains(k) implies written.contains(k) by {
        let id = choose|id: u64| #[trigger]
            all.contains_key(id) && rows::attribute_key(generated, table, all[id]) == Some(k);
        if records.contains_key(id) {
            assert(s.columns.contains_key(id));
        } else {
            assert(compiled.contains_key(id) && compiled[id] == all[id]);
            let i = choose|i: int|
                0 <= i < table.rows@.len() && (#[trigger] table.rows@[i]).row_id == id
                    && static_rows::canonical_row(generated, table, table.rows@[i]) == Some(
                    compiled[id],
                );
            assert(place_read(generated, table, table.rows@[i]) == Some(k));
        }
    }
    assert forall|k: (u32, i16)| written.contains(k) implies read.contains(k) by {
        if exists|i: int|
            0 <= i < table.rows@.len() && written_place(table, #[trigger] table.rows@[i])
                == Some(k) {
            let i = choose|i: int|
                0 <= i < table.rows@.len() && written_place(table, #[trigger] table.rows@[i])
                    == Some(k);
            let id = table.rows@[i].row_id;
            assert(place_read(generated, table, table.rows@[i]) == Some(k));
            assert(compiled.contains_key(id));
            assert(all.contains_key(id));
            if s.columns.contains_key(id) {
                assert(records.contains_key(id));
            }
            assert(rows::attribute_key(generated, table, all[id]) == Some(k));
        } else {
            let id = choose|id: u64| #[trigger]
                s.columns.contains_key(id) && (
                    s.columns[id].relation_oid.0,
                    s.columns[id].attnum,
                ) == k;
            assert(records.contains_key(id));
            assert(all.contains_key(id));
        }
    }
    assert(read =~= written);
}

/// Whether each description that follows from an operator takes the identity of
/// a compiled-in one.
pub open spec fn no_description_follows(
    generated: GeneratedCatalog,
    table: StaticCatalogTable,
) -> bool {
    let request = rows::RequestView { generated, table, sel: SelectorView::All };
    let compiled = request.compiled(table.rows@);
    listed_ids(
        rows::proc_descriptions(
            generated,
            table,
            rows::descriptions(generated, table, rows::in_order(compiled)),
        ),
    ).subset_of(compiled_ids(table.rows@))
}

/// Whether the rows of a catalog are those that are counted: each row that the
/// catalog adds of itself can be made; compiled-in rows and records of columns
/// tell the places that their rows tell; and no description follows from an
/// operator, as such descriptions are not counted.
pub open spec fn counted_rows_follow(
    generated: GeneratedCatalog,
    table: StaticCatalogTable,
    s: SnapshotView,
) -> bool {
    let request = rows::RequestView { generated, table, sel: SelectorView::All };
    let compiled = request.compiled(table.rows@);
    &&& rows_follow(generated, table)
    &&& table.oid.0 == PG_ATTRIBUTE_RELATION_OID ==> columns_follow(generated, table)
        && rows::places_of(
        generated,
        table,
        request.with_more(compiled, rows::record_rows::<ColumnMeta>(s.columns)),
    ) == written_places(table, s)
    &&& table.oid.0 == PG_DESCRIPTION_RELATION_OID ==> no_description_follows(generated, table)
}

/// A catalog has as many rows as are counted, where its rows are those that are
/// counted.
pub proof fn count_is_the_number_of_rows(
    generated: GeneratedCatalog,
    s: SnapshotView,
    table: StaticCatalogTable,
)
    requires
        s.wf(),
        columns::table_of(generated, table.oid) == Some(table),
        search::last_with(generated.tables@, columns::table_has(table.oid)) == Some(table),
        counted_rows_follow(generated, table, s),
    ensures
        rows::rows_asked_for(generated, s, table.oid, SelectorView::All).len() == row_ids(
            generated,
            table,
            s,
        ).len(),
{
    let request = rows::RequestView { generated, table, sel: SelectorView::All };
    let compiled = request.compiled(table.rows@);
    lemma_compiled(request, table.rows@);
    columns::values_keep_the_identity(
        table,
        synthetic::first_row_as(generated, table, INFORMATION_SCHEMA_NAMESPACE_OID as u64),
        synthetic::information_schema_columns(),
    );
    columns::values_keep_the_identity(
        table,
        synthetic::empty_row(table, PG_AGGREGATE_FNOID_INDEX_OID as u64),
        synthetic::aggregate_index_class_columns(),
    );
    columns::values_keep_the_identity(
        table,
        synthetic::empty_row(table, PG_AGGREGATE_FNOID_INDEX_OID as u64),
        synthetic::aggregate_index_columns(),
    );
    columns::values_keep_the_identity(
        table,
        synthetic::empty_row(
            table,
            SYNTHETIC_INIT_PRIVS_ROW_ID_BASE | PG_CATALOG_NAMESPACE_OID as u64,
        ),
        synthetic::catalog_privileges_columns(),
    );
    columns::values_keep_the_identity(
        table,
        synthetic::empty_row(table, ENGLISH_TS_DICT_OID as u64),
        synthetic::english_dictionary_columns(),
    );
    columns::values_keep_the_identity(
        table,
        synthetic::empty_row(table, ENGLISH_TS_CONFIG_OID as u64),
        synthetic::english_config_columns(),
    );
    columns::values_keep_the_identity(
        table,
        synthetic::empty_row(table, SNOWBALL_TS_TEMPLATE_OID as u64),
        synthetic::snowball_template_columns(),
    );
    columns::values_keep_the_identity(
        table,
        synthetic::empty_row(table, DSNOWBALL_INIT_PROC_OID as u64),
        synthetic::snowball_proc_columns(DSNOWBALL_INIT_PROC_OID, "dsnowball_init"@, 1),
    );
    columns::values_keep_the_identity(
        table,
        synthetic::empty_row(table, DSNOWBALL_LEXIZE_PROC_OID as u64),
        synthetic::snowball_proc_columns(DSNOWBALL_LEXIZE_PROC_OID, "dsnowball_lexize"@, 4),
    );
    lemma_indexes(
        request,
        request.with_one(compiled, Some(synthetic::aggregate_index_class(table))),
    );
    lemma_indexes(
        request,
        request.with_one(compiled, Some(synthetic::aggregate_index(table))),
    );
    let tokens = rows::each(synthetic::english_token_rows(table));
    assert(tokens.take(tokens.len() as int) =~= tokens);
    lemma_tokens(table, tokens.len() as int);
    lemma_each(request, compiled, tokens);
    if table.oid.0 == PG_TYPE_RELATION_OID {
        lemma_types(
            request,
            request.with_more(compiled, rows::record_rows::<TypeMeta>(s.types)),
        );
    }
    if table.oid.0 == PG_ATTRIBUTE_RELATION_OID {
        let recorded = request.with_more(compiled, rows::record_rows::<ColumnMeta>(s.columns));
        let scan = ColumnScan {
            rows: recorded,
            taken: rows::places_of(generated, table, recorded),
        };
        let ids = IdScan {
            ids: compiled_ids(table.rows@).union(s.columns.dom()),
            taken: written_places(table, s),
        };
        assert(scan.rows.dom() =~= ids.ids);
        lemma_catalog_columns(request, scan, ids, generated.tables@.len());
        lemma_index_columns(
            request,
            request.with_catalog_columns(scan, generated.tables@.len()),
            ids.with_catalogs(generated.tables@, generated.tables@.len()),
            catalog_indexes::all_indexes().len(),
        );
    } else if table.oid.0 == PG_DESCRIPTION_RELATION_OID {
        lemma_each(
            request,
            compiled,
            rows::proc_descriptions(
                generated,
                table,
                rows::descriptions(generated, table, rows::in_order(compiled)),
            ),
        );
    }
    if table.oid.0 == PG_INDEXES_RELATION_OID {
        lemma_each(request, compiled, index_views::pg_indexes_rows(generated, s, table));
    }
    assert(request.gathered(s).dom() =~= gathered_ids(generated, table, s));
    let answer = request.answer(s);
    assert(answer.dom() =~= row_ids(generated, table, s));
    ordered::sorted_ids_count_the_set(answer.dom());
}

} // verus!
