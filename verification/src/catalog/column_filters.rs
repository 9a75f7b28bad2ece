//! Filters on columns: which rows follow from compiled-in catalogs depends on
//! which places are taken.

use vstd::prelude::*;

use crate::catalog::catalog_indexes;
use crate::catalog::columns;
use crate::catalog::model::{
    CatalogRowView, GeneratedCatalog, StaticCatalogColumn, StaticCatalogTable,
};
use crate::catalog::nodes;
use crate::catalog::rows;
use crate::catalog::rows::{ColumnFilterView, ColumnScan, RequestView};
use crate::catalog::synthetic;
use crate::types::Oid;

verus! {

/// The identity of the row that is made for a place.
pub open spec fn place_id(place: (u32, i16)) -> u64 {
    if place.1 > 0 {
        synthetic::attribute_row_id(Oid(place.0), place.1)
    } else {
        synthetic::system_attribute_row_id(Oid(place.0), place.1)
    }
}

proof fn lemma_place_ids_differ(a: (u32, i16), b: (u32, i16))
    requires
        place_id(a) == place_id(b),
    ensures
        a == b,
{
    let x = a.0;
    let y = b.0;
    if a.1 > 0 && b.1 > 0 {
        let m = a.1 as u16;
        let n = b.1 as u16;
        assert(m == a.1 && n == b.1);
        assert(((x as u64) << 16u64) | 0x8000u64 | (m as u64) == ((y as u64) << 16u64) | 0x8000u64
            | (n as u64) && m < 0x8000 && n < 0x8000 ==> x == y && m == n) by (bit_vector);
    } else if a.1 <= 0 && b.1 <= 0 {
        let m = (-a.1) as u64;
        let n = (-b.1) as u64;
        assert(((x as u64) << 16u64) | m == ((y as u64) << 16u64) | n && m <= 0x8000 && n <= 0x8000
            ==> x == y && m == n) by (bit_vector);
    } else {
        let p = if a.1 > 0 {
            a
        } else {
            b
        };
        let q = if a.1 > 0 {
            b
        } else {
            a
        };
        let u = p.0;
        let v = q.0;
        let m = p.1 as u16;
        let n = (-q.1) as u64;
        assert(m == p.1);
        assert(((u as u64) << 16u64) | 0x8000u64 | (m as u64) == ((v as u64) << 16u64) | n && 0 < m
            && m < 0x8000 && n <= 0x8000 ==> false) by (bit_vector);
    }
}

/// What is compared: the rows that are asked for, those that stand before any are
/// made, and the places of which no row that is made is asked for.
pub struct Picking {
    pub request: RequestView,
    pub recorded: Map<u64, CatalogRowView>,
    pub dead: Set<(u32, i16)>,
}

impl Picking {
    /// Whether a scan of the rows that are asked for has found of a scan of all
    /// rows just those that are asked for.
    pub open spec fn alike(self, all: ColumnScan, some: ColumnScan) -> bool {
        &&& some.rows == self.request.chosen(all.rows)
        &&& some.taken.subset_of(all.taken)
        &&& forall|k: (u32, i16)| #[trigger]
            all.taken.contains(k) && !some.taken.contains(k) ==> self.dead.contains(k)
        &&& forall|id: u64| #[trigger]
            all.rows.contains_key(id) ==> {
                ||| self.recorded.contains_key(id) && all.rows[id] == self.recorded[id]
                ||| exists|k: (u32, i16)| #[trigger] all.taken.contains(k) && place_id(k) == id
            }
    }

    /// Whether a row may be made for a place: it replaces none that is asked for
    /// without being asked for itself, and is not asked for where none of its
    /// place is or where it is passed over.
    pub open spec fn fits(self, place: (u32, i16), row: Option<CatalogRowView>, met: bool) -> bool {
        row matches Some(r) ==> {
            &&& r.row_id == place_id(place)
            &&& self.dead.contains(place) ==> !self.request.wants(r)
            &&& self.recorded.contains_key(r.row_id) && self.request.wants(
                self.recorded[r.row_id],
            ) ==> self.request.wants(r)
            &&& !met ==> self.dead.contains(place)
        }
    }
}

proof fn lemma_place(
    p: Picking,
    all: ColumnScan,
    some: ColumnScan,
    place: (u32, i16),
    row: Option<CatalogRowView>,
    met: bool,
)
    requires
        p.alike(all, some),
        p.fits(place, row, met),
    ensures
        p.alike(
            p.request.everything().with_place(all, place, row),
            if met {
                p.request.with_place(some, place, row)
            } else {
                some
            },
        ),
{
    let request = p.request;
    let now = request.everything().with_place(all, place, row);
    let then = if met {
        request.with_place(some, place, row)
    } else {
        some
    };
    match row {
        None => {},
        Some(r) => {
            if !all.taken.contains(place) {
                assert(all.rows.contains_key(r.row_id) && request.wants(all.rows[r.row_id])
                    ==> request.wants(r)) by {
                    if all.rows.contains_key(r.row_id) {
                        if exists|k: (u32, i16)| #[trigger]
                            all.taken.contains(k) && place_id(k) == r.row_id {
                            let k = choose|k: (u32, i16)| #[trigger]
                                all.taken.contains(k) && place_id(k) == r.row_id;
                            lemma_place_ids_differ(k, place);
                        }
                    }
                }
                assert(then.rows =~= request.chosen(now.rows));
                assert(now.taken.contains(place));
                assert forall|id: u64| #[trigger] now.rows.contains_key(id) implies {
                    ||| p.recorded.contains_key(id) && now.rows[id] == p.recorded[id]
                    ||| exists|k: (u32, i16)| #[trigger] now.taken.contains(k) && place_id(k) == id
                } by {
                    if id == r.row_id {
                        assert(now.taken.contains(place) && place_id(place) == id);
                    } else {
                        assert(all.rows.contains_key(id));
                        if exists|k: (u32, i16)| #[trigger]
                            all.taken.contains(k) && place_id(k) == id {
                            let k = choose|k: (u32, i16)| #[trigger]
                                all.taken.contains(k) && place_id(k) == id;
                            assert(now.taken.contains(k));
                        }
                    }
                }
            } else {
                assert(then.rows =~= some.rows);
            }
        },
    }
}

/// The row that is made for a column of a compiled-in catalog.
pub open spec fn column_at(
    generated: GeneratedCatalog,
    table: StaticCatalogTable,
    i: int,
    n: int,
) -> Option<CatalogRowView> {
    synthetic::attribute_row(
        generated,
        table,
        generated.tables@[i],
        generated.tables@[i].columns@[n - 1],
        n as i16,
    )
}

/// The row that is made for a system column of a compiled-in catalog.
pub open spec fn system_column_at(
    generated: GeneratedCatalog,
    table: StaticCatalogTable,
    i: int,
    n: int,
) -> Option<CatalogRowView> {
    synthetic::system_attribute_row(
        generated,
        table,
        generated.tables@[i],
        synthetic::system_attributes()[n - 1],
    )
}

/// The row that is made for a column of an index of a catalog.
pub open spec fn key_at(
    generated: GeneratedCatalog,
    table: StaticCatalogTable,
    i: int,
    n: int,
) -> Option<CatalogRowView> {
    let index = catalog_indexes::all_indexes()[i];
    catalog_indexes::key_row(generated, table, index, index.keys[n - 1], n as i16)
}

/// Whether a catalog has a column with a number.
pub open spec fn has_column(generated: GeneratedCatalog, i: int, n: int) -> bool {
    &&& 0 <= i < generated.tables@.len()
    &&& 0 < n <= generated.tables@[i].columns@.len()
    &&& n <= i16::MAX
}

/// Whether there is a system column of a catalog.
pub open spec fn has_system_column(generated: GeneratedCatalog, i: int, n: int) -> bool {
    0 <= i < generated.tables@.len() && 0 < n <= synthetic::system_attributes().len()
}

/// Whether an index of a catalog has a column with a number.
pub open spec fn has_key(i: int, n: int) -> bool {
    &&& 0 <= i < catalog_indexes::all_indexes().len()
    &&& 0 < n <= catalog_indexes::all_indexes()[i].keys.len()
    &&& n <= i16::MAX
}

pub open spec fn column_place(generated: GeneratedCatalog, i: int, n: int) -> (u32, i16) {
    (generated.tables@[i].oid.0, n as i16)
}

pub open spec fn system_place(generated: GeneratedCatalog, i: int, n: int) -> (u32, i16) {
    (generated.tables@[i].oid.0, synthetic::system_attributes()[n - 1].attnum)
}

pub open spec fn key_place(i: int, n: int) -> (u32, i16) {
    (catalog_indexes::all_indexes()[i].oid.0, n as i16)
}

impl RequestView {
    /// Whether a row that is made for a place is asked for.
    pub open spec fn asks_for_made(self, place: (u32, i16)) -> bool {
        ||| exists|i: int, n: int|
            has_column(self.generated, i, n) && column_place(self.generated, i, n) == place && (
            #[trigger] column_at(self.generated, self.table, i, n) matches Some(row)
                && self.wants(row))
        ||| exists|i: int, n: int|
            has_system_column(self.generated, i, n) && system_place(self.generated, i, n) == place
                && (#[trigger] system_column_at(self.generated, self.table, i, n) matches Some(row)
                && self.wants(row))
        ||| exists|i: int, n: int|
            has_key(i, n) && key_place(i, n) == place && (#[trigger] key_at(
                self.generated,
                self.table,
                i,
                n,
            ) matches Some(row) && self.wants(row))
    }

    /// The places of which no row that is made is asked for.
    pub open spec fn dead_places(self) -> Set<(u32, i16)> {
        Set::new(|place: (u32, i16)| !self.asks_for_made(place))
    }

    /// Whether a row that is made, if there is one, replaces none that is asked
    /// for without being asked for itself.
    pub open spec fn made_gives_way(
        self,
        recorded: Map<u64, CatalogRowView>,
        row: Option<CatalogRowView>,
    ) -> bool {
        row matches Some(r) ==> recorded.contains_key(r.row_id) && self.wants(recorded[r.row_id])
            ==> self.wants(r)
    }

    /// The same of every row that is made.
    pub open spec fn all_made_give_way(self, recorded: Map<u64, CatalogRowView>) -> bool {
        &&& forall|i: int, n: int|
            has_column(self.generated, i, n) ==> self.made_gives_way(
                recorded,
                #[trigger] column_at(self.generated, self.table, i, n),
            )
        &&& forall|i: int, n: int|
            has_system_column(self.generated, i, n) ==> self.made_gives_way(
                recorded,
                #[trigger] system_column_at(self.generated, self.table, i, n),
            )
        &&& forall|i: int, n: int|
            has_key(i, n) ==> self.made_gives_way(
                recorded,
                #[trigger] key_at(self.generated, self.table, i, n),
            )
    }

    /// Whether no row that is filtered away takes the place of one that is made
    /// and asked for.
    pub open spec fn keeps_what_takes_places(self, recorded: Map<u64, CatalogRowView>) -> bool {
        forall|place: (u32, i16)| #[trigger]
            rows::places_of(self.generated, self.table, recorded).contains(place)
                && self.asks_for_made(place) ==> rows::places_of(
                self.generated,
                self.table,
                self.chosen(recorded),
            ).contains(place)
    }
}

proof fn lemma_attribute_row_id(
    generated: GeneratedCatalog,
    table: StaticCatalogTable,
    relation: StaticCatalogTable,
    column: StaticCatalogColumn,
    attnum: i16,
)
    ensures
        synthetic::attribute_row(generated, table, relation, column, attnum) matches Some(row)
            ==> row.row_id == synthetic::attribute_row_id(relation.oid, attnum),
{
    columns::values_keep_the_identity(
        table,
        synthetic::first_row_as(
            generated,
            table,
            synthetic::attribute_row_id(relation.oid, attnum),
        ),
        synthetic::attribute_columns(
            relation,
            column,
            attnum,
            nodes::builtin_type(generated, column.type_oid)->0,
        ),
    );
}

proof fn lemma_column_fits(p: Picking, i: int, n: int, met: bool)
    requires
        has_column(p.request.generated, i, n),
        p.dead == p.request.dead_places(),
        p.request.all_made_give_way(p.recorded),
        !met ==> p.dead.contains(column_place(p.request.generated, i, n)),
    ensures
        p.fits(
            column_place(p.request.generated, i, n),
            column_at(p.request.generated, p.request.table, i, n),
            met,
        ),
{
    let generated = p.request.generated;
    lemma_attribute_row_id(
        generated,
        p.request.table,
        generated.tables@[i],
        generated.tables@[i].columns@[n - 1],
        n as i16,
    );
    assert(Oid(generated.tables@[i].oid.0) == generated.tables@[i].oid);
    assert(p.request.made_gives_way(
        p.recorded,
        column_at(generated, p.request.table, i, n),
    ));
}

proof fn lemma_system_column_fits(p: Picking, i: int, n: int, met: bool)
    requires
        has_system_column(p.request.generated, i, n),
        p.dead == p.request.dead_places(),
        p.request.all_made_give_way(p.recorded),
        !met ==> p.dead.contains(system_place(p.request.generated, i, n)),
    ensures
        p.fits(
            system_place(p.request.generated, i, n),
            system_column_at(p.request.generated, p.request.table, i, n),
            met,
        ),
{
    let generated = p.request.generated;
    let relation = generated.tables@[i];
    let attribute = synthetic::system_attributes()[n - 1];
    columns::values_keep_the_identity(
        p.request.table,
        synthetic::first_row_as(
            generated,
            p.request.table,
            synthetic::system_attribute_row_id(relation.oid, attribute.attnum),
        ),
        synthetic::system_attribute_columns(
            relation,
            attribute,
            nodes::builtin_type(generated, attribute.type_oid)->0,
        ),
    );
    assert(Oid(relation.oid.0) == relation.oid);
    assert(attribute.attnum < 0);
    assert(p.request.made_gives_way(
        p.recorded,
        system_column_at(generated, p.request.table, i, n),
    ));
}

proof fn lemma_key_fits(p: Picking, i: int, n: int, met: bool)
    requires
        has_key(i, n),
        p.dead == p.request.dead_places(),
        p.request.all_made_give_way(p.recorded),
        !met ==> p.dead.contains(key_place(i, n)),
    ensures
        p.fits(key_place(i, n), key_at(p.request.generated, p.request.table, i, n), met),
{
    let generated = p.request.generated;
    let index = catalog_indexes::all_indexes()[i];
    let relation = columns::table_of(generated, index.relation_oid)->0;
    let place = catalog_indexes::key_place(relation)(index.keys[n - 1])->0;
    lemma_attribute_row_id(
        generated,
        p.request.table,
        StaticCatalogTable { oid: index.oid, ..relation },
        relation.columns@[place as int],
        n as i16,
    );
    assert(Oid(index.oid.0) == index.oid);
    assert(p.request.made_gives_way(p.recorded, key_at(generated, p.request.table, i, n)));
}

/// Whether a column is met by a scan, if one looks for columns of its catalog at
/// all.
pub open spec fn meets(turn: Option<ColumnFilterView>, attnum: i16, name: Seq<char>) -> bool {
    turn matches Some(wanted) && wanted.admits(attnum, name)
}

pub(crate) proof fn lemma_columns(
    p: Picking,
    all: ColumnScan,
    some: ColumnScan,
    i: int,
    turn: Option<ColumnFilterView>,
    n: nat,
)
    requires
        p.alike(all, some),
        p.dead == p.request.dead_places(),
        p.request.all_made_give_way(p.recorded),
        0 <= i < p.request.generated.tables@.len(),
        n <= p.request.generated.tables@[i].columns@.len(),
        forall|k: int|
            0 < k <= n && k <= i16::MAX && !meets(
                turn,
                k as i16,
                p.request.generated.tables@[i].columns@[k - 1].name@,
            ) ==> p.dead.contains(#[trigger] column_place(p.request.generated, i, k)),
    ensures
        p.alike(
            p.request.everything().with_columns(
                all,
                p.request.generated.tables@[i],
                ColumnFilterView::any(),
                n,
            ),
            match turn {
                Some(wanted) => p.request.with_columns(
                    some,
                    p.request.generated.tables@[i],
                    wanted,
                    n,
                ),
                None => some,
            },
        ),
    decreases n,
{
    if n > 0 {
        lemma_columns(p, all, some, i, turn, (n - 1) as nat);
        if n <= i16::MAX {
            let relation = p.request.generated.tables@[i];
            let met = meets(turn, n as i16, relation.columns@[n - 1].name@);
            lemma_column_fits(p, i, n as int, met);
            lemma_place(
                p,
                p.request.everything().with_columns(
                    all,
                    relation,
                    ColumnFilterView::any(),
                    (n - 1) as nat,
                ),
                match turn {
                    Some(wanted) => p.request.with_columns(
                        some,
                        relation,
                        wanted,
                        (n - 1) as nat,
                    ),
                    None => some,
                },
                column_place(p.request.generated, i, n as int),
                column_at(p.request.generated, p.request.table, i, n as int),
                met,
            );
        }
    }
}

pub(crate) proof fn lemma_system_columns(
    p: Picking,
    all: ColumnScan,
    some: ColumnScan,
    i: int,
    turn: Option<ColumnFilterView>,
    n: nat,
)
    requires
        p.alike(all, some),
        p.dead == p.request.dead_places(),
        p.request.all_made_give_way(p.recorded),
        0 <= i < p.request.generated.tables@.len(),
        n <= synthetic::system_attributes().len(),
        forall|k: int|
            0 < k <= n && !meets(
                turn,
                synthetic::system_attributes()[k - 1].attnum,
                synthetic::system_attributes()[k - 1].name@,
            ) ==> p.dead.contains(#[trigger] system_place(p.request.generated, i, k)),
    ensures
        p.alike(
            p.request.everything().with_system_columns(
                all,
                p.request.generated.tables@[i],
                ColumnFilterView::any(),
                n,
            ),
            match turn {
                Some(wanted) => p.request.with_system_columns(
                    some,
                    p.request.generated.tables@[i],
                    wanted,
                    n,
                ),
                None => some,
            },
        ),
    decreases n,
{
    if n > 0 {
        lemma_system_columns(p, all, some, i, turn, (n - 1) as nat);
        let relation = p.request.generated.tables@[i];
        let attribute = synthetic::system_attributes()[n - 1];
        let met = meets(turn, attribute.attnum, attribute.name@);
        lemma_system_column_fits(p, i, n as int, met);
        lemma_place(
            p,
            p.request.everything().with_system_columns(
                all,
                relation,
                ColumnFilterView::any(),
                (n - 1) as nat,
            ),
            match turn {
                Some(wanted) => p.request.with_system_columns(
                    some,
                    relation,
                    wanted,
                    (n - 1) as nat,
                ),
                None => some,
            },
            system_place(p.request.generated, i, n as int),
            system_column_at(p.request.generated, p.request.table, i, n as int),
            met,
        );
    }
}

pub(crate) proof fn lemma_keys(
    p: Picking,
    all: ColumnScan,
    some: ColumnScan,
    i: int,
    turn: Option<ColumnFilterView>,
    n: nat,
)
    requires
        p.alike(all, some),
        p.dead == p.request.dead_places(),
        p.request.all_made_give_way(p.recorded),
        0 <= i < catalog_indexes::all_indexes().len(),
        n <= catalog_indexes::all_indexes()[i].keys.len(),
        forall|k: int|
            0 < k <= n && k <= i16::MAX && !meets(
                turn,
                k as i16,
                catalog_indexes::all_indexes()[i].keys[k - 1],
            ) ==> p.dead.contains(#[trigger] key_place(i, k)),
    ensures
        p.alike(
            p.request.everything().with_keys(
                all,
                catalog_indexes::all_indexes()[i],
                ColumnFilterView::any(),
                n,
            ),
            match turn {
                Some(wanted) => p.request.with_keys(
                    some,
                    catalog_indexes::all_indexes()[i],
                    wanted,
                    n,
                ),
                None => some,
            },
        ),
    decreases n,
{
    if n > 0 {
        lemma_keys(p, all, some, i, turn, (n - 1) as nat);
        if n <= i16::MAX {
            let index = catalog_indexes::all_indexes()[i];
            let met = meets(turn, n as i16, index.keys[n - 1]);
            lemma_key_fits(p, i, n as int, met);
            lemma_place(
                p,
                p.request.everything().with_keys(
                    all,
                    index,
                    ColumnFilterView::any(),
                    (n - 1) as nat,
                ),
                match turn {
                    Some(wanted) => p.request.with_keys(some, index, wanted, (n - 1) as nat),
                    None => some,
                },
                key_place(i, n as int),
                key_at(p.request.generated, p.request.table, i, n as int),
                met,
            );
        }
    }
}

pub(crate) proof fn lemma_start(request: RequestView, recorded: Map<u64, CatalogRowView>)
    requires
        request.keeps_what_takes_places(recorded),
    ensures
        ({
            let p = Picking { request, recorded, dead: request.dead_places() };
            let kept = request.chosen(recorded);
            p.alike(
                ColumnScan {
                    rows: recorded,
                    taken: rows::places_of(request.generated, request.table, recorded),
                },
                ColumnScan {
                    rows: kept,
                    taken: rows::places_of(request.generated, request.table, kept),
                },
            )
        }),
{
    let generated = request.generated;
    let table = request.table;
    let kept = request.chosen(recorded);
    let few = rows::places_of(generated, table, kept);
    let many = rows::places_of(generated, table, recorded);
    assert forall|k: (u32, i16)| few.contains(k) implies many.contains(k) by {
        let id = choose|id: u64| #[trigger]
            kept.contains_key(id) && rows::attribute_key(generated, table, kept[id]) == Some(k);
        assert(recorded.contains_key(id));
    }
}

proof fn lemma_all_catalogs(p: Picking, all: ColumnScan, some: ColumnScan, n: nat)
    requires
        p.alike(all, some),
        p.dead == p.request.dead_places(),
        p.request.all_made_give_way(p.recorded),
        n <= p.request.generated.tables@.len(),
    ensures
        p.alike(
            p.request.everything().with_catalog_columns(all, n),
            p.request.with_catalog_columns(some, n),
        ),
    decreases n,
{
    if n > 0 {
        lemma_all_catalogs(p, all, some, (n - 1) as nat);
        let any = ColumnFilterView::any();
        let relation = p.request.generated.tables@[n - 1];
        let a = p.request.everything().with_catalog_columns(all, (n - 1) as nat);
        let b = p.request.with_catalog_columns(some, (n - 1) as nat);
        lemma_columns(p, a, b, n - 1, Some(any), relation.columns@.len());
        lemma_system_columns(
            p,
            p.request.everything().with_columns(a, relation, any, relation.columns@.len()),
            p.request.with_columns(b, relation, any, relation.columns@.len()),
            n - 1,
            Some(any),
            synthetic::system_attributes().len(),
        );
    }
}

proof fn lemma_all_indexes(p: Picking, all: ColumnScan, some: ColumnScan, n: nat)
    requires
        p.alike(all, some),
        p.dead == p.request.dead_places(),
        p.request.all_made_give_way(p.recorded),
        n <= catalog_indexes::all_indexes().len(),
    ensures
        p.alike(
            p.request.everything().with_index_columns(all, n),
            p.request.with_index_columns(some, n),
        ),
    decreases n,
{
    if n > 0 {
        lemma_all_indexes(p, all, some, (n - 1) as nat);
        let index = catalog_indexes::all_indexes()[n - 1];
        lemma_keys(
            p,
            p.request.everything().with_index_columns(all, (n - 1) as nat),
            p.request.with_index_columns(some, (n - 1) as nat),
            n - 1,
            Some(ColumnFilterView::any()),
            index.keys.len(),
        );
    }
}

/// Of the columns of compiled-in catalogs and their indexes, filtered rows give
/// just those that all rows give and that pass the filters.
pub(crate) proof fn lemma_columns_are_picked(
    request: RequestView,
    recorded: Map<u64, CatalogRowView>,
)
    requires
        request.keeps_what_takes_places(recorded),
        request.all_made_give_way(recorded),
    ensures
        ({
            let generated = request.generated;
            let table = request.table;
            let kept = request.chosen(recorded);
            let n = generated.tables@.len();
            let m = catalog_indexes::all_indexes().len();
            request.with_index_columns(
                request.with_catalog_columns(
                    ColumnScan { rows: kept, taken: rows::places_of(generated, table, kept) },
                    n,
                ),
                m,
            ).rows == request.chosen(
                request.everything().with_index_columns(
                    request.everything().with_catalog_columns(
                        ColumnScan {
                            rows: recorded,
                            taken: rows::places_of(generated, table, recorded),
                        },
                        n,
                    ),
                    m,
                ).rows,
            )
        }),
{
    let generated = request.generated;
    let table = request.table;
    let kept = request.chosen(recorded);
    let p = Picking { request, recorded, dead: request.dead_places() };
    let all = ColumnScan {
        rows: recorded,
        taken: rows::places_of(generated, table, recorded),
    };
    let some = ColumnScan { rows: kept, taken: rows::places_of(generated, table, kept) };
    lemma_start(request, recorded);
    lemma_all_catalogs(p, all, some, generated.tables@.len());
    lemma_all_indexes(
        p,
        request.everything().with_catalog_columns(all, generated.tables@.len()),
        request.with_catalog_columns(some, generated.tables@.len()),
        catalog_indexes::all_indexes().len(),
    );
}

} // verus!
