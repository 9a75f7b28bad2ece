//! Relations with their columns and primary keys, by name and by identifier.

use std::collections::BTreeMap;
use vstd::prelude::*;

use crate::catalog::columns;
use crate::catalog::counts;
use crate::catalog::index;
use crate::catalog::lookups;
use crate::catalog::meta;
use crate::catalog::meta::{
    ConstraintMeta, ConstraintMetaView, IndexMeta, IndexMetaView, RelationMeta, RelationMetaView,
};
use crate::catalog::model;
use crate::catalog::model::{
    CatalogError, CatalogRow, CatalogRowView, ColumnRecord, ColumnRecordView, GeneratedCatalog,
    IndexRecord, IndexRecordView, RelationPlannerStats, RelationRecord, RelationRecordView,
    RelationSummaryRecord, RelationSummaryRecordView, StaticCatalogTable, INVALID_OID,
    PG_ATTRIBUTE_RELATION_OID, PG_CATALOG_NAMESPACE_OID, PG_CLASS_RELATION_OID,
    PG_CONSTRAINT_RELATION_OID, PG_DESCRIPTION_RELATION_OID, PG_INDEX_RELATION_OID,
    POSTGRES_ROLE_OID, PUBLIC_NAMESPACE_OID,
};
use crate::catalog::rows;
use crate::catalog::selectors::{RowSelector, SelectorView};
use crate::catalog::snapshot;
use crate::catalog::snapshot::{CatalogSnapshot, SnapshotView};
use crate::catalog::static_rows;
use crate::catalog::validity;
use crate::ordered;
use crate::search;
use crate::text;
use crate::types::Oid;

verus! {

broadcast use vstd::std_specs::btree::group_btree_axioms;

pub open spec fn primary_record() -> spec_fn(IndexMetaView) -> Option<IndexRecordView> {
    |m: IndexMetaView|
        if m.record.is_primary {
            Some(m.record)
        } else {
            None
        }
}

/// The recorded index of a relation's primary key.
pub open spec fn primary_in_records(s: SnapshotView, relation_oid: Oid) -> Option<IndexRecordView> {
    search::first_some(s.indexes_of(relation_oid), primary_record())
}

fn primary_key_index_record_from_snapshot(s: &CatalogSnapshot, relation_oid: Oid) -> (r: Option<
    IndexRecord,
>)
    requires
        s.lookups_agree(),
    ensures
        search::option_view(r) == primary_in_records(s@, relation_oid),
{
    let list = s.index_metas_for_relation(relation_oid);
    let read = |m: &&IndexMeta| -> (v: Option<IndexRecord>)
        ensures
            search::option_view(v) == primary_record()(m@),
        {
            if m.record.is_primary {
                Some(m.record.clone())
            } else {
                None
            }
        };
    search::find_map(&list, read, Ghost(primary_record()))
}

pub open spec fn first_of<T>(s: Seq<T>) -> Option<T> {
    if s.len() > 0 {
        Some(s[0])
    } else {
        None
    }
}

/// The first of a list of rows.
fn first_row(list: Vec<CatalogRow>) -> (r: Option<CatalogRow>)
    ensures
        search::option_view(r) == first_of(search::views(list@)),
{
    if list.len() > 0 {
        Some(list[0].clone())
    } else {
        None
    }
}

/// The row of the index of a relation's primary key.
pub open spec fn primary_row(generated: GeneratedCatalog, s: SnapshotView, relation_oid: Oid) -> Option<
    CatalogRowView,
> {
    first_of(
        lookups::rows_of(
            generated,
            s,
            PG_INDEX_RELATION_OID,
            SelectorView::PrimaryKeyOf(relation_oid),
        ),
    )
}

fn primary_key_pg_index_row(
    generated: &GeneratedCatalog,
    s: &CatalogSnapshot,
    relation_oid: Oid,
) -> (r: Option<CatalogRow>)
    requires
        s@.wf(),
    ensures
        search::option_view(r) == primary_row(*generated, s@, relation_oid),
{
    first_row(
        rows::catalog_rows_matching_static(
            generated,
            s,
            Oid(PG_INDEX_RELATION_OID),
            RowSelector::PrimaryKeyOf(relation_oid),
        ),
    )
}

/// The identifier of the index of a relation's primary key.
pub open spec fn primary_oid_found(
    generated: GeneratedCatalog,
    s: SnapshotView,
    relation_oid: Oid,
) -> Option<Oid> {
    match primary_in_records(s, relation_oid) {
        Some(record) => Some(record.index_oid),
        None => match primary_row(generated, s, relation_oid) {
            Some(row) => match meta::index_of_row(generated, row) {
                Some(record) => Some(record.index_oid),
                None => None,
            },
            None => None,
        },
    }
}

pub fn primary_key_index_oid_for_relation_oid_uncached(
    generated: &GeneratedCatalog,
    s: &CatalogSnapshot,
    relation_oid: Oid,
) -> (r: Option<Oid>)
    requires
        s.wf(*generated),
    ensures
        r == primary_oid_found(*generated, s@, relation_oid),
{
    match primary_key_index_record_from_snapshot(s, relation_oid) {
        Some(record) => return Some(record.index_oid),
        None => {},
    }
    match primary_key_pg_index_row(generated, s, relation_oid) {
        Some(row) => match meta::pg_index_record_from_row(generated, &row) {
            Some(record) => Some(record.index_oid),
            None => None,
        },
        None => None,
    }
}

/// The index of a relation's primary key.
pub open spec fn primary_found(generated: GeneratedCatalog, s: SnapshotView, relation_oid: Oid) -> Option<
    IndexRecordView,
> {
    match primary_in_records(s, relation_oid) {
        Some(record) => Some(record),
        None => match primary_row(generated, s, relation_oid) {
            Some(row) => match meta::index_of_row(generated, row) {
                Some(record) => if record.relation_oid == relation_oid && record.is_primary {
                    Some(record)
                } else {
                    None
                },
                None => None,
            },
            None => None,
        },
    }
}

pub fn primary_key_index_record_for_relation_oid(
    generated: &GeneratedCatalog,
    s: &CatalogSnapshot,
    relation_oid: Oid,
) -> (r: Option<IndexRecord>)
    requires
        s.wf(*generated),
    ensures
        search::option_view(r) == primary_found(*generated, s@, relation_oid),
{
    let recorded = primary_key_index_record_from_snapshot(s, relation_oid);
    if recorded.is_some() {
        return recorded;
    }
    match primary_key_pg_index_row(generated, s, relation_oid) {
        Some(row) => match meta::pg_index_record_from_row(generated, &row) {
            Some(record) => if record.relation_oid == relation_oid && record.is_primary {
                Some(record)
            } else {
                None
            },
            None => None,
        },
        None => None,
    }
}

/// Reads the identifier of a primary key out of a constraint, where it fits the
/// index.
pub open spec fn primary_constraint(index_oid: Option<Oid>) -> spec_fn(ConstraintMetaView) -> Option<
    Oid,
> {
    |c: ConstraintMetaView|
        if c.kind == 112 && !(index_oid matches Some(oid) && c.index_oid.0 != INVALID_OID
            && c.index_oid != oid) {
            Some(c.oid)
        } else {
            None
        }
}

pub open spec fn primary_constraint_in_records(
    s: SnapshotView,
    relation_oid: Oid,
    index_oid: Option<Oid>,
) -> Option<Oid> {
    search::first_some(s.constraints_of(relation_oid), primary_constraint(index_oid))
}

fn primary_key_constraint_oid_from_snapshot(
    s: &CatalogSnapshot,
    relation_oid: Oid,
    index_oid: Option<Oid>,
) -> (r: Option<Oid>)
    requires
        s.lookups_agree(),
    ensures
        r == primary_constraint_in_records(s@, relation_oid, index_oid),
{
    let list = s.constraint_metas_for_relation(relation_oid);
    let read = |c: &&ConstraintMeta| -> (v: Option<Oid>)
        ensures
            search::option_view(v) == primary_constraint(index_oid)(c@),
        {
            let fits = match index_oid {
                Some(oid) => c.index_oid.0 == INVALID_OID || c.index_oid == oid,
                None => true,
            };
            if c.kind == 112 && fits {
                Some(c.oid)
            } else {
                None
            }
        };
    search::find_map(&list, read, Ghost(primary_constraint(index_oid)))
}

/// Reads the identifier of a primary key out of a row of the catalog of
/// constraints, where it fits the relation and the index.
pub open spec fn primary_constraint_row(
    generated: GeneratedCatalog,
    table: StaticCatalogTable,
    relation_oid: Oid,
    index_oid: Option<Oid>,
) -> spec_fn(CatalogRowView) -> Option<Oid> {
    |row: CatalogRowView|
        if meta::oid_at(generated, table, row, "conrelid"@) == Some(relation_oid) && meta::u8_at(
            table,
            row,
            "contype"@,
        ) == Some(112u8) && !(index_oid matches Some(wanted) && meta::oid_at(
            generated,
            table,
            row,
            "conindid"@,
        ) matches Some(named) && named != wanted) {
            meta::oid_at(generated, table, row, "oid"@)
        } else {
            None
        }
}

/// The identifier of the constraint of a relation's primary key.
pub open spec fn primary_constraint_found(
    generated: GeneratedCatalog,
    s: SnapshotView,
    relation_oid: Oid,
    index_oid: Option<Oid>,
) -> Option<Oid> {
    match primary_constraint_in_records(s, relation_oid, index_oid) {
        Some(oid) => Some(oid),
        None => match columns::table_of(generated, Oid(PG_CONSTRAINT_RELATION_OID)) {
            Some(table) => search::first_some(
                lookups::rows_of(
                    generated,
                    s,
                    PG_CONSTRAINT_RELATION_OID,
                    SelectorView::ConstraintsOf(relation_oid),
                ),
                primary_constraint_row(generated, table, relation_oid, index_oid),
            ),
            None => None,
        },
    }
}

fn primary_key_constraint_oid_for_relation(
    generated: &GeneratedCatalog,
    s: &CatalogSnapshot,
    relation_oid: Oid,
    index_oid: Option<Oid>,
) -> (r: Option<Oid>)
    requires
        s.wf(*generated),
    ensures
        r == primary_constraint_found(*generated, s@, relation_oid, index_oid),
{
    let recorded = primary_key_constraint_oid_from_snapshot(s, relation_oid, index_oid);
    if recorded.is_some() {
        return recorded;
    }
    let table = match columns::static_catalog_by_relation_oid(
        generated,
        Oid(PG_CONSTRAINT_RELATION_OID),
    ) {
        Some(table) => table,
        None => return None,
    };
    let list = rows::catalog_rows_matching_static(
        generated,
        s,
        Oid(PG_CONSTRAINT_RELATION_OID),
        RowSelector::ConstraintsOf(relation_oid),
    );
    let read = |row: &CatalogRow| -> (v: Option<Oid>)
        ensures
            search::option_view(v) == primary_constraint_row(
                *generated,
                *table,
                relation_oid,
                index_oid,
            )(row@),
        {
            let on_relation = match meta::column_oid(generated, table, row, "conrelid") {
                Some(oid) => oid == relation_oid,
                None => false,
            };
            let is_primary = match meta::column_u8(table, row, "contype") {
                Some(kind) => kind == 112,
                None => false,
            };
            let fits = match (index_oid, meta::column_oid(generated, table, row, "conindid")) {
                (Some(wanted), Some(named)) => named == wanted,
                _ => true,
            };
            if on_relation && is_primary && fits {
                meta::column_oid(generated, table, row, "oid")
            } else {
                None
            }
        };
    search::find_map(
        &list,
        read,
        Ghost(primary_constraint_row(*generated, *table, relation_oid, index_oid)),
    )
}

/// The columns of a primary key, by name, and the constraint that makes it one.
pub struct PrimaryKeyView {
    pub columns: Seq<Seq<char>>,
    pub constraint_oid: Option<Oid>,
}

/// The columns of a primary key, by name, and the constraint that makes it one.
pub struct PrimaryKey {
    pub columns: Vec<String>,
    pub constraint_oid: Option<Oid>,
}

impl View for PrimaryKey {
    type V = PrimaryKeyView;

    open spec fn view(&self) -> PrimaryKeyView {
        PrimaryKeyView {
            columns: search::views(self.columns@),
            constraint_oid: self.constraint_oid,
        }
    }
}

/// The name of the column of a relation at a place.
pub open spec fn column_name(
    generated: GeneratedCatalog,
    s: SnapshotView,
    relation_oid: Oid,
) -> spec_fn(i16) -> Option<Seq<char>> {
    |attnum: i16|
        match lookups::column_found(generated, s, relation_oid, attnum) {
            Some(column) => Some(column.name),
            None => None,
        }
}

/// The primary key of a relation, as the rows tell it.
pub open spec fn primary_key_in_rows(
    generated: GeneratedCatalog,
    s: SnapshotView,
    relation_oid: Oid,
) -> PrimaryKeyView {
    match columns::table_of(generated, Oid(PG_INDEX_RELATION_OID)) {
        Some(table) => match primary_row(generated, s, relation_oid) {
            Some(row) => PrimaryKeyView {
                columns: search::all_some(
                    meta::int2s_at(table, row, "indkey"@),
                    column_name(generated, s, relation_oid),
                ),
                constraint_oid: primary_constraint_found(
                    generated,
                    s,
                    relation_oid,
                    meta::oid_at(generated, table, row, "indexrelid"@),
                ),
            },
            None => PrimaryKeyView {
                columns: seq![],
                constraint_oid: primary_constraint_found(generated, s, relation_oid, None),
            },
        },
        None => PrimaryKeyView { columns: seq![], constraint_oid: None },
    }
}

fn no_columns() -> (r: Vec<String>)
    ensures
        search::views(r@) == Seq::<Seq<char>>::empty(),
{
    let r: Vec<String> = Vec::new();
    assert(search::views(r@) =~= Seq::<Seq<char>>::empty());
    r
}

fn relation_primary_key_from_pg_index(
    generated: &GeneratedCatalog,
    s: &CatalogSnapshot,
    relation_oid: Oid,
) -> (r: PrimaryKey)
    requires
        s.wf(*generated),
    ensures
        r@ == primary_key_in_rows(*generated, s@, relation_oid),
{
    let table = match columns::static_catalog_by_relation_oid(
        generated,
        Oid(PG_INDEX_RELATION_OID),
    ) {
        Some(table) => table,
        None => return PrimaryKey { columns: no_columns(), constraint_oid: None },
    };
    let row = match primary_key_pg_index_row(generated, s, relation_oid) {
        Some(row) => row,
        None => return PrimaryKey {
            columns: no_columns(),
            constraint_oid: primary_key_constraint_oid_for_relation(
                generated,
                s,
                relation_oid,
                None,
            ),
        },
    };
    let index_oid = meta::column_oid(generated, table, &row, "indexrelid");
    let attnums = meta::column_int2s(table, &row, "indkey");
    let ghost name = column_name(*generated, s@, relation_oid);
    let mut names = no_columns();
    let mut i: usize = 0;
    assert(attnums@.take(0) =~= seq![]);
    while i < attnums.len()
        invariant
            i <= attnums.len(),
            s.wf(*generated),
            name == column_name(*generated, s@, relation_oid),
            search::views(names@) == search::all_some(attnums@.take(i as int), name),
        decreases attnums.len() - i,
    {
        assert(attnums@.take(i + 1).drop_last() =~= attnums@.take(i as int));
        match lookups::relation_column_by_attnum_uncached(generated, s, relation_oid, attnums[i]) {
            Some(column) => {
                let ghost before = names@;
                let ghost told = column.name@;
                names.push(column.name);
                assert(search::views(names@) =~= search::views(before).push(told));
            },
            None => {},
        }
        i += 1;
    }
    assert(attnums@.take(i as int) =~= attnums@);
    let constraint_oid = primary_key_constraint_oid_for_relation(
        generated,
        s,
        relation_oid,
        index_oid,
    );
    PrimaryKey { columns: names, constraint_oid }
}

/// A place as a number that counts up from the first.
pub open spec fn code_of(attnum: i16) -> u64 {
    (attnum + 0x8000) as u64
}

pub open spec fn place_of(code: u64) -> i16 {
    (code - 0x8000) as i16
}

/// The places of a relation that have a recorded column.
pub open spec fn recorded_places(s: SnapshotView, relation_oid: Oid) -> Set<u64> {
    Set::new(|code: u64| code < 0x1_0000 && s.column_at(relation_oid, place_of(code)) is Some)
}

/// The recorded columns of a relation, in the order of their places.
pub open spec fn columns_in_records(s: SnapshotView, relation_oid: Oid) -> Seq<ColumnRecordView> {
    let codes = ordered::sorted_ids(recorded_places(s, relation_oid));
    Seq::new(codes.len(), |i: int| s.column_at(relation_oid, place_of(codes[i]))->0.record)
}

fn relation_columns_from_snapshot(s: &CatalogSnapshot, relation_oid: Oid) -> (r: Vec<ColumnRecord>)
    requires
        s.lookups_agree(),
    ensures
        search::views(r@) == columns_in_records(s@, relation_oid),
{
    let relation = relation_oid.0;
    let none: BTreeMap<i16, u64> = BTreeMap::new();
    let places = match s.columns_by_relation.get(&relation) {
        Some(places) => places,
        None => &none,
    };
    let attnums = ordered::sorted_keys(places);
    let ghost codes = Seq::new(attnums@.len(), |i: int| code_of(attnums@[i]));
    let ghost wanted = recorded_places(s@, relation_oid);
    proof {
        assert forall|n: i16| #[trigger] places@.contains_key(n) <==> s@.column_at(
            relation_oid,
            n,
        ) is Some by {
            assert(index::place_in(s.columns_by_relation@, relation, n) == index::last_of(
                index::ids_where(s@.columns, index::column_at_place(relation, n)),
            ));
        }
        assert forall|k: u64| #[trigger] codes.contains(k) <==> wanted.contains(k) by {
            if codes.contains(k) {
                let i = choose|i: int| 0 <= i < codes.len() && codes[i] == k;
                assert(attnums@.contains(attnums@[i]));
                assert(place_of(k) == attnums@[i]);
            }
            if wanted.contains(k) {
                assert(places@.contains_key(place_of(k)));
                assert(attnums@.contains(place_of(k)));
                let i = choose|i: int| 0 <= i < attnums@.len() && attnums@[i] == place_of(k);
                assert(codes[i] == k);
            }
        }
        ordered::sorted_ids_are(wanted, codes);
    }
    let mut r: Vec<ColumnRecord> = Vec::new();
    let mut i: usize = 0;
    while i < attnums.len()
        invariant
            i <= attnums.len(),
            s.lookups_agree(),
            codes == Seq::new(attnums@.len(), |i: int| code_of(attnums@[i])),
            forall|n: i16| #[trigger] attnums@.contains(n) <==> places@.contains_key(n),
            forall|n: i16| #[trigger]
                places@.contains_key(n) <==> s@.column_at(relation_oid, n) is Some,
            r@.len() == i,
            forall|j: int|
                0 <= j < i ==> (#[trigger] r@[j])@ == s@.column_at(
                    relation_oid,
                    place_of(codes[j]),
                )->0.record,
        decreases attnums.len() - i,
    {
        let attnum = attnums[i];
        assert(attnums@.contains(attnum));
        assert(place_of(codes[i as int]) == attnum);
        match s.column_meta_at(relation_oid, attnum) {
            Some(column) => {
                r.push(column.record.clone());
            },
            None => {
                assert(false);
            },
        }
        i += 1;
    }
    assert(search::views(r@) =~= columns_in_records(s@, relation_oid));
    r
}

/// The name of a column of a list, by its place from one.
pub open spec fn name_at(list: Seq<ColumnRecordView>) -> spec_fn(i16) -> Option<Seq<char>> {
    |attnum: i16|
        if 0 < attnum <= list.len() {
            Some(list[attnum - 1].name)
        } else {
            None
        }
}

/// The primary key of a relation, as the records tell it.
pub open spec fn primary_key_in_records(s: SnapshotView, relation_oid: Oid) -> PrimaryKeyView {
    match primary_in_records(s, relation_oid) {
        Some(record) => PrimaryKeyView {
            columns: search::all_some(
                record.key_attnums,
                name_at(columns_in_records(s, relation_oid)),
            ),
            constraint_oid: primary_constraint_in_records(s, relation_oid, Some(record.index_oid)),
        },
        None => PrimaryKeyView {
            columns: seq![],
            constraint_oid: primary_constraint_in_records(s, relation_oid, None),
        },
    }
}

fn relation_primary_key_from_snapshot(
    s: &CatalogSnapshot,
    relation_oid: Oid,
    list: &Vec<ColumnRecord>,
) -> (r: PrimaryKey)
    requires
        s.lookups_agree(),
        search::views(list@) == columns_in_records(s@, relation_oid),
    ensures
        r@ == primary_key_in_records(s@, relation_oid),
{
    let record = match primary_key_index_record_from_snapshot(s, relation_oid) {
        Some(record) => record,
        None => return PrimaryKey {
            columns: no_columns(),
            constraint_oid: primary_key_constraint_oid_from_snapshot(s, relation_oid, None),
        },
    };
    let ghost all = search::views(list@);
    let ghost attnums = record.key_attnums@;
    let mut names = no_columns();
    let mut i: usize = 0;
    assert(attnums.take(0) =~= seq![]);
    while i < record.key_attnums.len()
        invariant
            i <= record.key_attnums.len(),
            attnums == record.key_attnums@,
            all == search::views(list@),
            search::views(names@) == search::all_some(attnums.take(i as int), name_at(all)),
        decreases record.key_attnums.len() - i,
    {
        assert(attnums.take(i + 1).drop_last() =~= attnums.take(i as int));
        let attnum = record.key_attnums[i];
        if attnum > 0 {
            let at: usize = (attnum - 1) as usize;
            if at < list.len() {
                let ghost before = names@;
                assert(all[at as int] == list@[at as int]@);
                names.push(list[at].name.clone());
                assert(search::views(names@) =~= search::views(before).push(all[at as int].name));
            }
        }
        i += 1;
    }
    assert(attnums.take(i as int) =~= attnums);
    let constraint_oid = primary_key_constraint_oid_from_snapshot(
        s,
        relation_oid,
        Some(record.index_oid),
    );
    PrimaryKey { columns: names, constraint_oid }
}

/// A recorded relation.
pub open spec fn relation_of_meta(s: SnapshotView, m: RelationMetaView) -> RelationRecordView {
    let key = primary_key_in_records(s, m.oid);
    RelationRecordView {
        row_id: m.row_id,
        oid: m.oid,
        type_oid: m.type_oid,
        namespace: m.namespace,
        owner: m.owner,
        name: m.name,
        relkind: m.relkind,
        columns: columns_in_records(s, m.oid),
        primary_key: key.columns,
        primary_key_constraint_oid: key.constraint_oid,
    }
}

fn relation_record_from_meta(s: &CatalogSnapshot, m: &RelationMeta) -> (r: RelationRecord)
    requires
        s.lookups_agree(),
    ensures
        r@ == relation_of_meta(s@, m@),
{
    let list = relation_columns_from_snapshot(s, m.oid);
    let key = relation_primary_key_from_snapshot(s, m.oid, &list);
    RelationRecord {
        row_id: m.row_id,
        oid: m.oid,
        type_oid: m.type_oid,
        namespace: m.namespace,
        owner: m.owner,
        name: m.name.clone(),
        relkind: m.relkind,
        columns: list,
        primary_key: key.columns,
        primary_key_constraint_oid: key.constraint_oid,
    }
}

/// A number of columns, as far as it can be told.
pub open spec fn told_width(n: int) -> u16 {
    if n > u16::MAX {
        u16::MAX
    } else {
        n as u16
    }
}

/// What there is of a recorded relation.
pub open spec fn summary_of_meta(s: SnapshotView, m: RelationMetaView) -> RelationSummaryRecordView {
    let width = told_width(columns_in_records(s, m.oid).len() as int);
    let has_primary_key = primary_in_records(s, m.oid) is Some;
    RelationSummaryRecordView {
        row_id: m.row_id,
        oid: m.oid,
        type_oid: m.type_oid,
        namespace: m.namespace,
        owner: m.owner,
        name: m.name,
        relkind: m.relkind,
        column_count: if m.relnatts > width {
            m.relnatts
        } else {
            width
        },
        has_primary_key,
        has_indexes: m.relhasindex || has_primary_key || s.indexes_of(m.oid).len() > 0,
    }
}

fn clamp_width(n: usize) -> (r: u16)
    ensures
        r == told_width(n as int),
{
    if n > 0xffff {
        0xffff
    } else {
        n as u16
    }
}

fn relation_summary_from_meta(s: &CatalogSnapshot, m: &RelationMeta) -> (r: RelationSummaryRecord)
    requires
        s.lookups_agree(),
    ensures
        r@ == summary_of_meta(s@, m@),
{
    let list = relation_columns_from_snapshot(s, m.oid);
    assert(list@.len() == search::views(list@).len());
    let width = clamp_width(list.len());
    let has_primary_key = primary_key_index_record_from_snapshot(s, m.oid).is_some();
    let indexes = s.index_metas_for_relation(m.oid);
    assert(indexes@.len() == snapshot::meta_views(indexes@).len());
    let has_indexes = m.relhasindex || has_primary_key || indexes.len() > 0;
    RelationSummaryRecord {
        row_id: m.row_id,
        oid: m.oid,
        type_oid: m.type_oid,
        namespace: m.namespace,
        owner: m.owner,
        name: m.name.clone(),
        relkind: m.relkind,
        column_count: if m.relnatts > width {
            m.relnatts
        } else {
            width
        },
        has_primary_key,
        has_indexes,
    }
}

/// A relation as a row of the catalog of relations tells it.
pub open spec fn relation_of_row(
    generated: GeneratedCatalog,
    s: SnapshotView,
    row: CatalogRowView,
) -> Option<RelationRecordView> {
    match columns::table_of(generated, Oid(PG_CLASS_RELATION_OID)) {
        Some(table) => match (
            meta::oid_at(generated, table, row, "oid"@),
            meta::string_at(table, row, "relname"@),
        ) {
            (Some(oid), Some(name)) => {
                let key = primary_key_in_rows(generated, s, oid);
                Some(
                    RelationRecordView {
                        row_id: row.row_id,
                        oid,
                        type_oid: meta::or(
                            meta::oid_at(generated, table, row, "reltype"@),
                            Oid(INVALID_OID),
                        ),
                        namespace: meta::or(
                            meta::oid_at(generated, table, row, "relnamespace"@),
                            Oid(PUBLIC_NAMESPACE_OID),
                        ),
                        owner: meta::or(
                            meta::oid_at(generated, table, row, "relowner"@),
                            Oid(POSTGRES_ROLE_OID),
                        ),
                        name: model::normalized(name),
                        relkind: meta::or(meta::u8_at(table, row, "relkind"@), 114),
                        columns: lookups::columns_of(generated, s, oid),
                        primary_key: key.columns,
                        primary_key_constraint_oid: key.constraint_oid,
                    },
                )
            },
            _ => None,
        },
        None => None,
    }
}

fn relation_record_from_pg_class_row(
    generated: &GeneratedCatalog,
    s: &CatalogSnapshot,
    row: &CatalogRow,
) -> (r: Option<RelationRecord>)
    requires
        s.wf(*generated),
    ensures
        search::option_view(r) == relation_of_row(*generated, s@, row@),
{
    let table = match columns::static_catalog_by_relation_oid(
        generated,
        Oid(PG_CLASS_RELATION_OID),
    ) {
        Some(table) => table,
        None => return None,
    };
    let oid = match meta::column_oid(generated, table, row, "oid") {
        Some(oid) => oid,
        None => return None,
    };
    let name = match meta::column_string(table, row, "relname") {
        Some(name) => name,
        None => return None,
    };
    let key = relation_primary_key_from_pg_index(generated, s, oid);
    Some(
        RelationRecord {
            row_id: row.row_id,
            oid,
            type_oid: meta::value_or(
                meta::column_oid(generated, table, row, "reltype"),
                Oid(INVALID_OID),
            ),
            namespace: meta::value_or(
                meta::column_oid(generated, table, row, "relnamespace"),
                Oid(PUBLIC_NAMESPACE_OID),
            ),
            owner: meta::value_or(
                meta::column_oid(generated, table, row, "relowner"),
                Oid(POSTGRES_ROLE_OID),
            ),
            name: model::normalize_identifier(name.as_str()),
            relkind: meta::value_or(meta::column_u8(table, row, "relkind"), 114),
            columns: lookups::relation_columns_from_pg_attribute(generated, s, oid),
            primary_key: key.columns,
            primary_key_constraint_oid: key.constraint_oid,
        },
    )
}

/// What there is of a relation, as a row of the catalog of relations tells it.
pub open spec fn summary_of_row(
    generated: GeneratedCatalog,
    s: SnapshotView,
    row: CatalogRowView,
) -> Option<RelationSummaryRecordView> {
    match columns::table_of(generated, Oid(PG_CLASS_RELATION_OID)) {
        Some(table) => match (
            meta::oid_at(generated, table, row, "oid"@),
            meta::string_at(table, row, "relname"@),
        ) {
            (Some(oid), Some(name)) => {
                let has_primary_key = primary_oid_found(generated, s, oid) is Some;
                Some(
                    RelationSummaryRecordView {
                        row_id: row.row_id,
                        oid,
                        type_oid: meta::or(
                            meta::oid_at(generated, table, row, "reltype"@),
                            Oid(INVALID_OID),
                        ),
                        namespace: meta::or(
                            meta::oid_at(generated, table, row, "relnamespace"@),
                            Oid(PUBLIC_NAMESPACE_OID),
                        ),
                        owner: meta::or(
                            meta::oid_at(generated, table, row, "relowner"@),
                            Oid(POSTGRES_ROLE_OID),
                        ),
                        name: model::normalized(name),
                        relkind: meta::or(meta::u8_at(table, row, "relkind"@), 114),
                        column_count: match meta::i16_at(table, row, "relnatts"@) {
                            Some(n) => if n > 0 {
                                n as u16
                            } else {
                                0
                            },
                            None => told_width(
                                lookups::columns_of(generated, s, oid).len() as int,
                            ),
                        },
                        has_primary_key,
                        has_indexes: (match meta::bool_at(table, row, "relhasindex"@) {
                            Some(b) => b,
                            None => lookups::indexes_found(generated, s, oid).len() > 0,
                        }) || has_primary_key,
                    },
                )
            },
            _ => None,
        },
        None => None,
    }
}

fn relation_summary_from_pg_class_row(
    generated: &GeneratedCatalog,
    s: &CatalogSnapshot,
    row: &CatalogRow,
) -> (r: Option<RelationSummaryRecord>)
    requires
        s.wf(*generated),
    ensures
        search::option_view(r) == summary_of_row(*generated, s@, row@),
{
    let table = match columns::static_catalog_by_relation_oid(
        generated,
        Oid(PG_CLASS_RELATION_OID),
    ) {
        Some(table) => table,
        None => return None,
    };
    let oid = match meta::column_oid(generated, table, row, "oid") {
        Some(oid) => oid,
        None => return None,
    };
    let name = match meta::column_string(table, row, "relname") {
        Some(name) => name,
        None => return None,
    };
    let column_count: u16 = match meta::column_i16(table, row, "relnatts") {
        Some(n) => if n > 0 {
            n as u16
        } else {
            0
        },
        None => {
            let list = lookups::relation_columns_from_pg_attribute(generated, s, oid);
            assert(list@.len() == search::views(list@).len());
            clamp_width(list.len())
        },
    };
    let has_primary_key = primary_key_index_oid_for_relation_oid_uncached(
        generated,
        s,
        oid,
    ).is_some();
    let has_indexes = match meta::column_bool(table, row, "relhasindex") {
        Some(b) => b,
        None => {
            let list = lookups::find_indexes(generated, s, oid);
            assert(list@.len() == search::views(list@).len());
            list.len() > 0
        },
    } || has_primary_key;
    Some(
        RelationSummaryRecord {
            row_id: row.row_id,
            oid,
            type_oid: meta::value_or(
                meta::column_oid(generated, table, row, "reltype"),
                Oid(INVALID_OID),
            ),
            namespace: meta::value_or(
                meta::column_oid(generated, table, row, "relnamespace"),
                Oid(PUBLIC_NAMESPACE_OID),
            ),
            owner: meta::value_or(
                meta::column_oid(generated, table, row, "relowner"),
                Oid(POSTGRES_ROLE_OID),
            ),
            name: model::normalize_identifier(name.as_str()),
            relkind: meta::value_or(meta::column_u8(table, row, "relkind"), 114),
            column_count,
            has_primary_key,
            has_indexes,
        },
    )
}

/// How early a schema is looked in for a relation that is named without one.
pub open spec fn rank(namespace: Oid) -> int {
    if namespace.0 == PUBLIC_NAMESPACE_OID {
        0
    } else if namespace.0 == PG_CATALOG_NAMESPACE_OID {
        1
    } else {
        2
    }
}

pub open spec fn ranks(n: int) -> spec_fn(RelationRecordView) -> bool {
    |r: RelationRecordView| rank(r.namespace) == n
}

/// The first of the relations whose schema is looked in earliest.
pub open spec fn preferred(list: Seq<RelationRecordView>) -> Option<RelationRecordView> {
    match search::first_with(list, ranks(0)) {
        Some(r) => Some(r),
        None => match search::first_with(list, ranks(1)) {
            Some(r) => Some(r),
            None => first_of(list),
        },
    }
}

fn rank_of(namespace: Oid) -> (r: u8)
    ensures
        r == rank(namespace),
{
    if namespace.0 == PUBLIC_NAMESPACE_OID {
        0
    } else if namespace.0 == PG_CATALOG_NAMESPACE_OID {
        1
    } else {
        2
    }
}

fn take_preferred(list: Vec<RelationRecord>) -> (r: Option<RelationRecord>)
    ensures
        search::option_view(r) == preferred(search::views(list@)),
{
    let ghost all = search::views(list@);
    let mut list = list;
    if list.len() == 0 {
        proof {
            search::first_index_none(all, ranks(0));
            search::first_index_none(all, ranks(1));
        }
        return None;
    }
    let mut best: usize = 0;
    let mut i: usize = 1;
    while i < list.len()
        invariant
            best < i <= list.len(),
            all == search::views(list@),
            forall|j: int|
                0 <= j < i ==> rank(all[best as int].namespace) <= rank(
                    (#[trigger] all[j]).namespace,
                ),
            forall|j: int|
                0 <= j < best ==> rank(all[best as int].namespace) < rank(
                    (#[trigger] all[j]).namespace,
                ),
        decreases list.len() - i,
    {
        assert(all[i as int] == list@[i as int]@);
        assert(all[best as int] == list@[best as int]@);
        if rank_of(list[i].namespace) < rank_of(list[best].namespace) {
            best = i;
        }
        i += 1;
    }
    proof {
        let n = rank(all[best as int].namespace);
        assert(all[best as int] == list@[best as int]@);
        if n == 0 {
            search::first_index_at(all, ranks(0), best as int);
        } else {
            search::first_index_none(all, ranks(0));
            if n == 1 {
                search::first_index_at(all, ranks(1), best as int);
            } else {
                search::first_index_none(all, ranks(1));
                if best > 0 {
                    assert(rank(all[0].namespace) <= 2);
                }
            }
        }
    }
    Some(list.swap_remove(best))
}

pub open spec fn named_meta(name: Seq<char>) -> spec_fn(RelationMetaView) -> bool {
    |m: RelationMetaView| m.name == name
}

pub open spec fn records_of(s: SnapshotView, list: Seq<RelationMetaView>) -> Seq<RelationRecordView> {
    Seq::new(list.len(), |i: int| relation_of_meta(s, list[i]))
}

/// The recorded relations with a name, in the order of their identities.
pub open spec fn named_in_records(s: SnapshotView, name: Seq<char>) -> Seq<RelationRecordView> {
    records_of(s, index::all_where(s.relations, named_meta(name)))
}

fn recorded_with_name(s: &CatalogSnapshot, name: &str) -> (r: Vec<RelationRecord>)
    requires
        s.lookups_agree(),
    ensures
        search::views(r@) == named_in_records(s@, name@),
{
    let ids = ordered::sorted_keys(&s.relations);
    let ghost m = s@.relations;
    let ghost p = named_meta(name@);
    proof {
        ordered::sorted_ids_are(m.dom(), ids@);
    }
    let mut r: Vec<RelationRecord> = Vec::new();
    let mut i: usize = 0;
    assert(ids@.take(0) =~= seq![]);
    while i < ids.len()
        invariant
            i <= ids.len(),
            s.lookups_agree(),
            m == s@.relations,
            p == named_meta(name@),
            ids@ == ordered::sorted_ids(m.dom()),
            forall|k: u64| #[trigger] ids@.contains(k) <==> s.relations@.contains_key(k),
            r@.len() == index::filtered(ids@.take(i as int), m, p).len(),
            forall|j: int|
                0 <= j < r@.len() ==> (#[trigger] r@[j])@ == relation_of_meta(
                    s@,
                    m[index::filtered(ids@.take(i as int), m, p)[j]],
                ),
        decreases ids.len() - i,
    {
        let id = ids[i];
        assert(ids@.contains(id));
        assert(ids@.take(i + 1).drop_last() =~= ids@.take(i as int));
        match s.relations.get(&id) {
            Some(relation) => {
                assert(relation@ == m[id]);
                if text::same_text(relation.name.as_str(), name) {
                    r.push(relation_record_from_meta(s, relation));
                }
            },
            None => {
                assert(false);
            },
        }
        i += 1;
    }
    assert(ids@.take(i as int) =~= ids@);
    assert(search::views(r@) =~= named_in_records(s@, name@));
    r
}

/// Reads a relation out of a row, where it goes by a name.
pub open spec fn relation_named(
    generated: GeneratedCatalog,
    s: SnapshotView,
    table: StaticCatalogTable,
    name: Seq<char>,
) -> spec_fn(CatalogRowView) -> Option<RelationRecordView> {
    |row: CatalogRowView|
        if static_rows::row_names(table, row, "relname"@, name) {
            relation_of_row(generated, s, row)
        } else {
            None
        }
}

/// The relation with a normalized name: of the recorded ones with the name, or
/// else of those that the rows tell, the one whose schema is looked in first.
pub open spec fn relation_with_name(
    generated: GeneratedCatalog,
    s: SnapshotView,
    name: Seq<char>,
) -> Option<RelationRecordView> {
    match preferred(named_in_records(s, name)) {
        Some(r) => Some(r),
        None => match columns::table_of(generated, Oid(PG_CLASS_RELATION_OID)) {
            Some(table) => preferred(
                search::all_some(
                    lookups::rows_of(
                        generated,
                        s,
                        PG_CLASS_RELATION_OID,
                        SelectorView::ClassNamed(name),
                    ),
                    relation_named(generated, s, table, name),
                ),
            ),
            None => None,
        },
    }
}

pub fn relation_by_name(generated: &GeneratedCatalog, s: &CatalogSnapshot, name: &str) -> (r: Option<
    RelationRecord,
>)
    requires
        s.wf(*generated),
    ensures
        search::option_view(r) == relation_with_name(*generated, s@, model::normalized(name@)),
{
    let folded = model::normalize_identifier(name);
    let recorded = take_preferred(recorded_with_name(s, folded.as_str()));
    if recorded.is_some() {
        return recorded;
    }
    let table = match columns::static_catalog_by_relation_oid(
        generated,
        Oid(PG_CLASS_RELATION_OID),
    ) {
        Some(table) => table,
        None => return None,
    };
    let list = rows::catalog_rows_matching_static(
        generated,
        s,
        Oid(PG_CLASS_RELATION_OID),
        RowSelector::ClassNamed(folded.as_str()),
    );
    let read = |row: &CatalogRow| -> (v: Option<RelationRecord>)
        ensures
            search::option_view(v) == relation_named(*generated, s@, *table, folded@)(row@),
        {
            if static_rows::catalog_row_identifier_matches(
                table,
                row,
                "relname",
                folded.as_str(),
            ) {
                relation_record_from_pg_class_row(generated, s, row)
            } else {
                None
            }
        };
    take_preferred(
        search::filter_map(&list, read, Ghost(relation_named(*generated, s@, *table, folded@))),
    )
}

/// Whether a row is that of a relation with a name in a schema.
pub open spec fn row_is_in(
    generated: GeneratedCatalog,
    table: StaticCatalogTable,
    row: CatalogRowView,
    name: Seq<char>,
    namespace: Oid,
) -> bool {
    static_rows::row_names(table, row, "relname"@, name) && meta::oid_at(
        generated,
        table,
        row,
        "relnamespace"@,
    ) == Some(namespace)
}

fn is_in_namespace(
    generated: &GeneratedCatalog,
    table: &StaticCatalogTable,
    row: &CatalogRow,
    name: &str,
    namespace: Oid,
) -> (r: bool)
    ensures
        r == row_is_in(*generated, *table, row@, name@, namespace),
{
    static_rows::catalog_row_identifier_matches(table, row, "relname", name) && match meta::column_oid(
        generated,
        table,
        row,
        "relnamespace",
    ) {
        Some(oid) => oid == namespace,
        None => false,
    }
}

pub open spec fn relation_named_in(
    generated: GeneratedCatalog,
    s: SnapshotView,
    table: StaticCatalogTable,
    name: Seq<char>,
    namespace: Oid,
) -> spec_fn(CatalogRowView) -> Option<RelationRecordView> {
    |row: CatalogRowView|
        if row_is_in(generated, table, row, name, namespace) {
            relation_of_row(generated, s, row)
        } else {
            None
        }
}

/// The relation with a normalized name in a schema.
pub open spec fn relation_in(
    generated: GeneratedCatalog,
    s: SnapshotView,
    name: Seq<char>,
    namespace: Oid,
) -> Option<RelationRecordView> {
    match s.relation_named(name, namespace) {
        Some(m) => Some(relation_of_meta(s, m)),
        None => match columns::table_of(generated, Oid(PG_CLASS_RELATION_OID)) {
            Some(table) => search::first_some(
                lookups::rows_of(
                    generated,
                    s,
                    PG_CLASS_RELATION_OID,
                    SelectorView::ClassNamedIn(name, namespace),
                ),
                relation_named_in(generated, s, table, name, namespace),
            ),
            None => None,
        },
    }
}

pub fn relation_by_name_in_namespace(
    generated: &GeneratedCatalog,
    s: &CatalogSnapshot,
    name: &str,
    namespace: Oid,
) -> (r: Option<RelationRecord>)
    requires
        s.wf(*generated),
    ensures
        search::option_view(r) == relation_in(
            *generated,
            s@,
            model::normalized(name@),
            namespace,
        ),
{
    let folded = model::normalize_identifier(name);
    match s.relation_meta_by_name(folded.as_str(), namespace) {
        Some(m) => return Some(relation_record_from_meta(s, m)),
        None => {},
    }
    let table = match columns::static_catalog_by_relation_oid(
        generated,
        Oid(PG_CLASS_RELATION_OID),
    ) {
        Some(table) => table,
        None => return None,
    };
    let list = rows::catalog_rows_matching_static(
        generated,
        s,
        Oid(PG_CLASS_RELATION_OID),
        RowSelector::ClassNamedIn(folded.as_str(), namespace),
    );
    let ghost f = relation_named_in(*generated, s@, *table, folded@, namespace);
    let read = |row: &CatalogRow| -> (v: Option<RelationRecord>)
        ensures
            search::option_view(v) == relation_named_in(
                *generated,
                s@,
                *table,
                folded@,
                namespace,
            )(row@),
        {
            if is_in_namespace(generated, table, row, folded.as_str(), namespace) {
                relation_record_from_pg_class_row(generated, s, row)
            } else {
                None
            }
        };
    search::find_map(&list, read, Ghost(f))
}

pub open spec fn summary_named_in(
    generated: GeneratedCatalog,
    s: SnapshotView,
    table: StaticCatalogTable,
    name: Seq<char>,
    namespace: Oid,
) -> spec_fn(CatalogRowView) -> Option<RelationSummaryRecordView> {
    |row: CatalogRowView|
        if row_is_in(generated, table, row, name, namespace) {
            summary_of_row(generated, s, row)
        } else {
            None
        }
}

/// What there is of the relation with a normalized name in a schema.
pub open spec fn summary_in(
    generated: GeneratedCatalog,
    s: SnapshotView,
    name: Seq<char>,
    namespace: Oid,
) -> Option<RelationSummaryRecordView> {
    match s.relation_named(name, namespace) {
        Some(m) => Some(summary_of_meta(s, m)),
        None => match columns::table_of(generated, Oid(PG_CLASS_RELATION_OID)) {
            Some(table) => search::first_some(
                lookups::rows_of(
                    generated,
                    s,
                    PG_CLASS_RELATION_OID,
                    SelectorView::ClassNamedIn(name, namespace),
                ),
                summary_named_in(generated, s, table, name, namespace),
            ),
            None => None,
        },
    }
}

pub fn relation_summary_by_name_in_namespace(
    generated: &GeneratedCatalog,
    s: &CatalogSnapshot,
    name: &str,
    namespace: Oid,
) -> (r: Option<RelationSummaryRecord>)
    requires
        s.wf(*generated),
    ensures
        search::option_view(r) == summary_in(*generated, s@, model::normalized(name@), namespace),
{
    let folded = model::normalize_identifier(name);
    match s.relation_meta_by_name(folded.as_str(), namespace) {
        Some(m) => return Some(relation_summary_from_meta(s, m)),
        None => {},
    }
    let table = match columns::static_catalog_by_relation_oid(
        generated,
        Oid(PG_CLASS_RELATION_OID),
    ) {
        Some(table) => table,
        None => return None,
    };
    let list = rows::catalog_rows_matching_static(
        generated,
        s,
        Oid(PG_CLASS_RELATION_OID),
        RowSelector::ClassNamedIn(folded.as_str(), namespace),
    );
    let ghost f = summary_named_in(*generated, s@, *table, folded@, namespace);
    let read = |row: &CatalogRow| -> (v: Option<RelationSummaryRecord>)
        ensures
            search::option_view(v) == summary_named_in(
                *generated,
                s@,
                *table,
                folded@,
                namespace,
            )(row@),
        {
            if is_in_namespace(generated, table, row, folded.as_str(), namespace) {
                relation_summary_from_pg_class_row(generated, s, row)
            } else {
                None
            }
        };
    search::find_map(&list, read, Ghost(f))
}

pub open spec fn oid_named_in(
    generated: GeneratedCatalog,
    table: StaticCatalogTable,
    name: Seq<char>,
    namespace: Oid,
) -> spec_fn(CatalogRowView) -> Option<Oid> {
    |row: CatalogRowView|
        if row_is_in(generated, table, row, name, namespace) {
            meta::oid_at(generated, table, row, "oid"@)
        } else {
            None
        }
}

fn pg_class_row_oid_by_name_in_namespace(
    generated: &GeneratedCatalog,
    table: &StaticCatalogTable,
    row: &CatalogRow,
    name: &str,
    namespace: Oid,
) -> (r: Option<Oid>)
    ensures
        r == oid_named_in(*generated, *table, name@, namespace)(row@),
{
    if is_in_namespace(generated, table, row, name, namespace) {
        meta::column_oid(generated, table, row, "oid")
    } else {
        None
    }
}

/// The identifier of the relation with a normalized name in a schema.
pub open spec fn oid_in(
    generated: GeneratedCatalog,
    s: SnapshotView,
    name: Seq<char>,
    namespace: Oid,
) -> Option<Oid> {
    match s.relation_named(name, namespace) {
        Some(m) => Some(m.oid),
        None => match columns::table_of(generated, Oid(PG_CLASS_RELATION_OID)) {
            Some(table) => search::first_some(
                lookups::rows_of(generated, s, PG_CLASS_RELATION_OID, SelectorView::All),
                oid_named_in(generated, table, name, namespace),
            ),
            None => None,
        },
    }
}

pub fn relation_oid_by_name_in_namespace(
    generated: &GeneratedCatalog,
    s: &CatalogSnapshot,
    name: &str,
    namespace: Oid,
) -> (r: Option<Oid>)
    requires
        s.wf(*generated),
    ensures
        r == oid_in(*generated, s@, model::normalized(name@), namespace),
{
    let folded = model::normalize_identifier(name);
    match s.relation_meta_by_name(folded.as_str(), namespace) {
        Some(m) => return Some(m.oid),
        None => {},
    }
    let table = match columns::static_catalog_by_relation_oid(
        generated,
        Oid(PG_CLASS_RELATION_OID),
    ) {
        Some(table) => table,
        None => return None,
    };
    let list = rows::catalog_rows(generated, s, Oid(PG_CLASS_RELATION_OID));
    let read = |row: &CatalogRow| -> (v: Option<Oid>)
        ensures
            search::option_view(v) == oid_named_in(*generated, *table, folded@, namespace)(row@),
        {
            pg_class_row_oid_by_name_in_namespace(
                generated,
                table,
                row,
                folded.as_str(),
                namespace,
            )
        };
    search::find_map(&list, read, Ghost(oid_named_in(*generated, *table, folded@, namespace)))
}

/// The row of the relation with an identifier.
pub open spec fn class_row_with(generated: GeneratedCatalog, s: SnapshotView, oid: Oid) -> Option<
    CatalogRowView,
> {
    first_of(
        lookups::rows_of(generated, s, PG_CLASS_RELATION_OID, SelectorView::ClassWithOid(oid)),
    )
}

fn relation_pg_class_row_by_oid(generated: &GeneratedCatalog, s: &CatalogSnapshot, oid: Oid) -> (r:
    Option<CatalogRow>)
    requires
        s@.wf(),
    ensures
        search::option_view(r) == class_row_with(*generated, s@, oid),
{
    first_row(
        rows::catalog_rows_matching_static(
            generated,
            s,
            Oid(PG_CLASS_RELATION_OID),
            RowSelector::ClassWithOid(oid),
        ),
    )
}

/// The relation with an identifier.
pub open spec fn relation_with(generated: GeneratedCatalog, s: SnapshotView, oid: Oid) -> Option<
    RelationRecordView,
> {
    match s.relation_with_oid(oid) {
        Some(m) => Some(relation_of_meta(s, m)),
        None => match class_row_with(generated, s, oid) {
            Some(row) => relation_of_row(generated, s, row),
            None => None,
        },
    }
}

pub fn relation_by_oid(generated: &GeneratedCatalog, s: &CatalogSnapshot, oid: Oid) -> (r: Option<
    RelationRecord,
>)
    requires
        s.wf(*generated),
    ensures
        search::option_view(r) == relation_with(*generated, s@, oid),
{
    match s.relation_meta_by_oid(oid) {
        Some(m) => return Some(relation_record_from_meta(s, m)),
        None => {},
    }
    match relation_pg_class_row_by_oid(generated, s, oid) {
        Some(row) => relation_record_from_pg_class_row(generated, s, &row),
        None => None,
    }
}

pub fn relation_oid_exists(generated: &GeneratedCatalog, s: &CatalogSnapshot, oid: Oid) -> (r: bool)
    requires
        s.wf(*generated),
    ensures
        r == relation_with(*generated, s@, oid) is Some,
{
    relation_by_oid(generated, s, oid).is_some()
}

/// What there is of the relation with an identifier.
pub open spec fn summary_with(generated: GeneratedCatalog, s: SnapshotView, oid: Oid) -> Option<
    RelationSummaryRecordView,
> {
    match s.relation_with_oid(oid) {
        Some(m) => Some(summary_of_meta(s, m)),
        None => match class_row_with(generated, s, oid) {
            Some(row) => summary_of_row(generated, s, row),
            None => None,
        },
    }
}

pub fn relation_summary_by_oid(generated: &GeneratedCatalog, s: &CatalogSnapshot, oid: Oid) -> (r:
    Option<RelationSummaryRecord>)
    requires
        s.wf(*generated),
    ensures
        search::option_view(r) == summary_with(*generated, s@, oid),
{
    match s.relation_meta_by_oid(oid) {
        Some(m) => return Some(relation_summary_from_meta(s, m)),
        None => {},
    }
    match relation_pg_class_row_by_oid(generated, s, oid) {
        Some(row) => relation_summary_from_pg_class_row(generated, s, &row),
        None => None,
    }
}

/// What is said of a name that no relation goes by.
pub open spec fn missing_relation_message(name: Seq<char>) -> Seq<char> {
    "relation \""@ + model::normalized(name) + "\" does not exist"@
}

/// How many columns the relation with a name has.
pub fn relation_column_count(generated: &GeneratedCatalog, s: &CatalogSnapshot, name: &str) -> (r:
    Result<usize, CatalogError>)
    requires
        s.wf(*generated),
    ensures
        match (relation_with_name(*generated, s@, model::normalized(name@)), r) {
            (Some(relation), Ok(n)) => n == relation.columns.len(),
            (None, Err(e)) => e.sqlstate@ == "42P01"@ && e.message@ == missing_relation_message(
                name@,
            ),
            _ => false,
        },
{
    match relation_by_name(generated, s, name) {
        Some(relation) => {
            assert(relation@.columns.len() == relation.columns@.len());
            Ok(relation.columns.len())
        },
        None => {
            let folded = model::normalize_identifier(name);
            let mut told = text::chars_of("relation \"");
            text::push_text(&mut told, folded.as_str());
            text::push_text(&mut told, "\" does not exist");
            Err(CatalogError::new("42P01", text::string_of(&told)))
        },
    }
}

/// The identifier of the row type of a relation.
pub fn relation_rowtype_oid_by_oid(
    generated: &GeneratedCatalog,
    s: &CatalogSnapshot,
    relation_oid: Oid,
) -> (r: Option<Oid>)
    requires
        s.wf(*generated),
    ensures
        r == (match columns::table_of(*generated, relation_oid) {
            Some(table) => Some(static_rows::rowtype_of(table)),
            None => match relation_with(*generated, s@, relation_oid) {
                Some(relation) => Some(relation.type_oid),
                None => None,
            },
        }),
{
    match columns::static_catalog_by_relation_oid(generated, relation_oid) {
        Some(table) => Some(static_rows::static_catalog_table_rowtype_oid(table)),
        None => match relation_by_oid(generated, s, relation_oid) {
            Some(relation) => Some(relation.type_oid),
            None => None,
        },
    }
}

/// The pages that a number of rows is taken to fill: one for every 32 of them.
pub open spec fn pages_for(n: int) -> int {
    let pages = (n + 31) / 32;
    if pages > i32::MAX {
        i32::MAX as int
    } else {
        pages
    }
}

/// Whether these are the statistics of a relation: a compiled-in catalog has as
/// many rows as are counted and the pages that they take.
pub open spec fn are_planner_stats(
    generated: GeneratedCatalog,
    s: SnapshotView,
    relation_oid: Oid,
    stats: Option<RelationPlannerStats>,
) -> bool {
    match (columns::table_of(generated, relation_oid), stats) {
        (Some(table), Some(stats)) => {
            let n = counts::row_ids(generated, table, s).len() as int;
            stats.relpages == pages_for(n) && stats.reltuples == n
        },
        (None, None) => true,
        _ => false,
    }
}

pub fn relation_planner_stats_by_oid(
    generated: &GeneratedCatalog,
    s: &CatalogSnapshot,
    relation_oid: Oid,
) -> (r: Option<RelationPlannerStats>)
    requires
        s@.wf(),
    ensures
        are_planner_stats(*generated, s@, relation_oid, r),
{
    let n = match counts::catalog_row_count(generated, s, relation_oid) {
        Some(n) => n,
        None => return None,
    };
    let whole: usize = n / 32;
    let pages: usize = if n % 32 == 0 {
        whole
    } else {
        whole + 1
    };
    let relpages: i32 = if pages > 0x7fff_ffff {
        0x7fff_ffff
    } else {
        pages as i32
    };
    Some(RelationPlannerStats { relpages, reltuples: n })
}

/// The statistics of a compiled-in catalog tell how many rows it has and how many
/// pages of thirty-two rows they take; there are pages where there are rows. Left
/// out are catalogs of descriptions in which a description follows from an
/// operator, as such descriptions are not counted, and states in which a record
/// of a column does not tell the place that its row tells.
pub proof fn planner_statistics_count_the_rows(
    generated: GeneratedCatalog,
    s: SnapshotView,
    relation_oid: Oid,
    stats: RelationPlannerStats,
)
    requires
        generated.wf(),
        s.wf(),
        are_planner_stats(generated, s, relation_oid, Some(stats)),
        relation_oid.0 == PG_ATTRIBUTE_RELATION_OID ==> counts::records_tell_their_places(
            generated,
            columns::table_of(generated, relation_oid)->0,
            s,
        ),
        relation_oid.0 == PG_DESCRIPTION_RELATION_OID ==> counts::no_description_follows(
            generated,
            columns::table_of(generated, relation_oid)->0,
        ),
    ensures
        ({
            let n = rows::rows_asked_for(generated, s, relation_oid, SelectorView::All).len();
            &&& stats.reltuples == n
            &&& stats.relpages == pages_for(n as int)
            &&& stats.relpages > 0 <==> n > 0
        }),
{
    let table = columns::table_of(generated, relation_oid)->0;
    search::first_index_is_first(generated.tables@, columns::table_has(relation_oid));
    validity::a_catalog_is_the_only_one(generated, relation_oid);
    if relation_oid.0 == PG_ATTRIBUTE_RELATION_OID {
        counts::places_are_read_as_written(generated, s, table);
    }
    counts::count_is_the_number_of_rows(generated, s, table);
}

pub open spec fn by_oid(list: Seq<RelationRecordView>) -> Map<u64, RelationRecordView>
    decreases list.len(),
{
    if list.len() == 0 {
        Map::empty()
    } else {
        by_oid(list.drop_last()).insert(list.last().oid.0 as u64, list.last())
    }
}

pub open spec fn any_meta() -> spec_fn(RelationMetaView) -> bool {
    |m: RelationMetaView| true
}

pub open spec fn any_relation(generated: GeneratedCatalog, s: SnapshotView) -> spec_fn(
    CatalogRowView,
) -> Option<RelationRecordView> {
    |row: CatalogRowView| relation_of_row(generated, s, row)
}

/// All relations, by identifier: those that the rows tell, and the recorded
/// ones that no row tells.
pub open spec fn all_relations(generated: GeneratedCatalog, s: SnapshotView) -> Map<
    u64,
    RelationRecordView,
> {
    by_oid(
        records_of(s, index::all_where(s.relations, any_meta())) + search::all_some(
            lookups::rows_of(generated, s, PG_CLASS_RELATION_OID, SelectorView::All),
            any_relation(generated, s),
        ),
    )
}

/// The values of a map, in the order of their keys.
pub open spec fn values_in_order(m: Map<u64, RelationRecordView>) -> Seq<RelationRecordView> {
    let ids = ordered::sorted_ids(m.dom());
    Seq::new(ids.len(), |i: int| m[ids[i]])
}

pub open spec fn relation_map(m: Map<u64, RelationRecord>) -> Map<u64, RelationRecordView> {
    Map::new(|k: u64| m.contains_key(k), |k: u64| m[k]@)
}

fn all_recorded(s: &CatalogSnapshot) -> (r: Vec<RelationRecord>)
    requires
        s.lookups_agree(),
    ensures
        search::views(r@) == records_of(s@, index::all_where(s@.relations, any_meta())),
{
    let ids = ordered::sorted_keys(&s.relations);
    let ghost m = s@.relations;
    let ghost p = any_meta();
    proof {
        ordered::sorted_ids_are(m.dom(), ids@);
    }
    let mut r: Vec<RelationRecord> = Vec::new();
    let mut i: usize = 0;
    assert(ids@.take(0) =~= seq![]);
    while i < ids.len()
        invariant
            i <= ids.len(),
            s.lookups_agree(),
            m == s@.relations,
            p == any_meta(),
            ids@ == ordered::sorted_ids(m.dom()),
            forall|k: u64| #[trigger] ids@.contains(k) <==> s.relations@.contains_key(k),
            r@.len() == index::filtered(ids@.take(i as int), m, p).len(),
            forall|j: int|
                0 <= j < r@.len() ==> (#[trigger] r@[j])@ == relation_of_meta(
                    s@,
                    m[index::filtered(ids@.take(i as int), m, p)[j]],
                ),
        decreases ids.len() - i,
    {
        let id = ids[i];
        assert(ids@.contains(id));
        assert(ids@.take(i + 1).drop_last() =~= ids@.take(i as int));
        match s.relations.get(&id) {
            Some(relation) => {
                assert(relation@ == m[id]);
                r.push(relation_record_from_meta(s, relation));
            },
            None => {
                assert(false);
            },
        }
        i += 1;
    }
    assert(ids@.take(i as int) =~= ids@);
    assert(search::views(r@) =~= records_of(s@, index::all_where(m, p)));
    r
}

fn add_by_oid(
    found: &mut BTreeMap<u64, RelationRecord>,
    list: &Vec<RelationRecord>,
    before: Ghost<Seq<RelationRecordView>>,
)
    requires
        relation_map(old(found)@) == by_oid(before@),
    ensures
        relation_map(final(found)@) == by_oid(before@ + search::views(list@)),
{
    let ghost all = search::views(list@);
    let mut i: usize = 0;
    assert(before@ + all.take(0) =~= before@);
    while i < list.len()
        invariant
            i <= list.len(),
            all == search::views(list@),
            relation_map(found@) == by_oid(before@ + all.take(i as int)),
        decreases list.len() - i,
    {
        let ghost next = before@ + all.take(i + 1);
        assert(next.drop_last() =~= before@ + all.take(i as int));
        assert(next.last() == list@[i as int]@);
        let ghost was = relation_map(found@);
        let relation = list[i].clone();
        let ghost view = relation@;
        found.insert(relation.oid.0 as u64, relation);
        assert(relation_map(found@) =~= was.insert(view.oid.0 as u64, view));
        i += 1;
    }
    assert(all.take(all.len() as int) =~= all);
}

/// All relations, in the order of their identifiers.
pub fn relations(generated: &GeneratedCatalog, s: &CatalogSnapshot) -> (r: Vec<RelationRecord>)
    requires
        s.wf(*generated),
    ensures
        search::views(r@) == values_in_order(all_relations(*generated, s@)),
{
    let mut found: BTreeMap<u64, RelationRecord> = BTreeMap::new();
    let recorded = all_recorded(s);
    let ghost first = search::views(recorded@);
    assert(relation_map(found@) =~= by_oid(seq![]));
    assert(Seq::<RelationRecordView>::empty() + first =~= first);
    add_by_oid(&mut found, &recorded, Ghost(Seq::empty()));
    let list = rows::catalog_rows(generated, s, Oid(PG_CLASS_RELATION_OID));
    let read = |row: &CatalogRow| -> (v: Option<RelationRecord>)
        ensures
            search::option_view(v) == any_relation(*generated, s@)(row@),
        { relation_record_from_pg_class_row(generated, s, row) };
    let told = search::filter_map(&list, read, Ghost(any_relation(*generated, s@)));
    add_by_oid(&mut found, &told, Ghost(first));
    let ids = ordered::sorted_keys(&found);
    let ghost m = relation_map(found@);
    proof {
        ordered::sorted_ids_are(m.dom(), ids@);
    }
    let mut r: Vec<RelationRecord> = Vec::new();
    let mut i: usize = 0;
    while i < ids.len()
        invariant
            i <= ids.len(),
            m == relation_map(found@),
            forall|k: u64| #[trigger] ids@.contains(k) <==> found@.contains_key(k),
            r@.len() == i,
            forall|j: int| 0 <= j < i ==> (#[trigger] r@[j])@ == m[ids@[j]],
        decreases ids.len() - i,
    {
        let id = ids[i];
        assert(ids@.contains(id));
        match found.get(&id) {
            Some(relation) => {
                r.push(relation.clone());
            },
            None => {
                assert(false);
            },
        }
        i += 1;
    }
    assert(search::views(r@) =~= values_in_order(m));
    r
}

} // verus!
