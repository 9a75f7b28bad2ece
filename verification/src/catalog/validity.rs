//! What compiled-in data has to be like for the catalogs to keep their promises.

use vstd::prelude::*;

use crate::bootstrap::tables;
use crate::catalog::builtins;
use crate::catalog::catalog_indexes;
use crate::catalog::columns;
use crate::catalog::counts;
use crate::catalog::databases;
use crate::catalog::meta;
use crate::catalog::model;
use crate::catalog::model::{
    CatalogRowView, CatalogTypeRecord, CatalogTypeRecordView, GeneratedCatalog, StaticCatalogTable,
    VirtualCatalogRecord, INVALID_OID, PG_ATTRIBUTE_RELATION_OID, PG_CATALOG_NAMESPACE_OID,
    PG_INDEX_RELATION_OID, PG_NAMESPACE_RELATION_OID, PG_TYPE_RELATION_OID,
};
use crate::catalog::nodes;
use crate::catalog::rows;
use crate::catalog::selectors::SelectorView;
use crate::catalog::snapshot::{CatalogSnapshot, SnapshotView};
use crate::catalog::static_rows;
use crate::catalog::synthetic;
use crate::catalog::type_lookups;
use crate::search;
use crate::text;
use crate::types::Oid;

verus! {

/// Whether two catalogs have different identifiers, names and row types.
pub open spec fn differ(a: StaticCatalogTable, b: StaticCatalogTable) -> bool {
    &&& a.oid != b.oid
    &&& a.name@ != b.name@
    &&& static_rows::rowtype_of(a) != static_rows::rowtype_of(b)
}

/// Whether no two catalogs share an identifier, a name or a row type.
pub open spec fn catalogs_differ(tables: Seq<StaticCatalogTable>) -> bool {
    forall|i: int, j: int|
        0 <= i < j < tables.len() ==> differ(#[trigger] tables[i], #[trigger] tables[j])
}

/// Whether no catalog has the identifier of an index of a catalog.
pub open spec fn indexes_stand_apart(tables: Seq<StaticCatalogTable>) -> bool {
    forall|i: int, j: int|
        0 <= i < tables.len() && 0 <= j < catalog_indexes::all_indexes().len() ==> (
        #[trigger] tables[i]).oid != (#[trigger] catalog_indexes::all_indexes()[j]).oid
}

/// Whether the names of the catalogs are written as names are looked up.
pub open spec fn names_are_normalized(tables: Seq<StaticCatalogTable>) -> bool {
    forall|i: int|
        0 <= i < tables.len() ==> model::normalized((#[trigger] tables[i]).name@)
            == tables[i].name@
}

/// Whether each row that a catalog adds of itself can be made.
pub open spec fn rows_can_be_made(generated: GeneratedCatalog) -> bool {
    forall|i: int|
        0 <= i < generated.tables@.len() ==> counts::rows_follow(
            generated,
            #[trigger] generated.tables@[i],
        )
}

/// Whether each column of a catalog gets a row, and the compiled-in rows of
/// columns are read at the places that they are written for.
pub open spec fn columns_can_be_made(generated: GeneratedCatalog) -> bool {
    match columns::table_of(generated, Oid(PG_ATTRIBUTE_RELATION_OID)) {
        Some(table) => counts::columns_follow(generated, table) && counts::places_follow(
            generated,
            table,
        ),
        None => true,
    }
}

/// Whether a type is one that a catalog's row type may be taken for: it has its
/// identifier, or its name in the schema of the catalogs.
pub open spec fn may_be_taken_for(
    record: CatalogTypeRecordView,
    catalog: StaticCatalogTable,
) -> bool {
    ||| record.oid == static_rows::rowtype_of(catalog)
    ||| record.namespace.0 == PG_CATALOG_NAMESPACE_OID && record.name == catalog.name@
}

/// Whether a row of the catalog of types tells a type that a catalog's row type
/// may be taken for.
pub open spec fn tells_it(
    generated: GeneratedCatalog,
    table: StaticCatalogTable,
    row: CatalogRowView,
    catalog: StaticCatalogTable,
) -> bool {
    match type_lookups::type_of_row(generated, table, row) {
        Some(record) => may_be_taken_for(record, catalog),
        None => false,
    }
}

/// Whether a row of the catalog of types tells nothing of a catalog without a
/// row type of its own, or is the row that is made for the catalog.
pub open spec fn leaves_it_alone(
    generated: GeneratedCatalog,
    table: StaticCatalogTable,
    row: CatalogRowView,
    catalog: StaticCatalogTable,
) -> bool {
    ||| catalog.rowtype_oid.0 != INVALID_OID
    ||| row.row_id == static_rows::rowtype_of(catalog).0 as u64
    ||| !tells_it(generated, table, row, catalog)
}

/// The rows of the catalog of types before anything is recorded.
pub open spec fn first_type_rows(generated: GeneratedCatalog) -> Seq<CatalogRowView> {
    rows::rows_asked_for(
        generated,
        SnapshotView::empty(0),
        Oid(PG_TYPE_RELATION_OID),
        SelectorView::All,
    )
}

/// Whether no type takes the identifier or the name of the row type that is made
/// for a catalog.
pub open spec fn rowtypes_are_free(generated: GeneratedCatalog) -> bool {
    &&& forall|i: int|
        0 <= i < generated.tables@.len() && (#[trigger] generated.tables@[i]).rowtype_oid.0
            == INVALID_OID ==> nodes::builtin_type(
            generated,
            static_rows::rowtype_of(generated.tables@[i]),
        ) is None
    &&& match columns::table_of(generated, Oid(PG_TYPE_RELATION_OID)) {
        Some(table) => forall|k: int, i: int|
            0 <= k < first_type_rows(generated).len() && 0 <= i < generated.tables@.len()
                ==> leaves_it_alone(
                generated,
                table,
                #[trigger] first_type_rows(generated)[k],
                #[trigger] generated.tables@[i],
            ),
        None => true,
    }
}

/// Whether what row types are made from are row types: the type of the catalog
/// of relations is compiled in, and the type row is that of a composite type.
pub open spec fn rowtypes_start_right(generated: GeneratedCatalog) -> bool {
    &&& nodes::builtin_type(generated, Oid(83)) is Some
    &&& match columns::table_of(generated, Oid(PG_TYPE_RELATION_OID)) {
        Some(table) => match synthetic::rowtype_template(generated, table) {
            Some(template) => {
                let row = static_rows::named_row(generated, table, template);
                &&& meta::u8_at(table, row, "typtype"@) == Some(99u8)
                &&& meta::u8_at(table, row, "typcategory"@) == Some(67u8)
            },
            None => true,
        },
        None => true,
    }
}

/// Whether a record is that of a catalog.
pub open spec fn is_record_of(record: VirtualCatalogRecord, table: StaticCatalogTable) -> bool {
    &&& record.relation_oid == table.oid
    &&& record.name@ == table.name@
    &&& record.policy == tables::policy_of(table.name@)
}

/// Whether the records of virtual catalogs are those of the catalogs, in their
/// order.
pub open spec fn records_follow(generated: GeneratedCatalog) -> bool {
    &&& generated.virtual_catalogs@.len() == generated.tables@.len()
    &&& forall|i: int|
        0 <= i < generated.tables@.len() ==> is_record_of(
            generated.virtual_catalogs@[i],
            #[trigger] generated.tables@[i],
        )
}

/// Whether each of some catalogs is there.
pub open spec fn all_are_there(tables: Seq<StaticCatalogTable>, names: Seq<Seq<char>>) -> bool {
    forall|i: int|
        0 <= i < names.len() ==> search::first_with(
            tables,
            columns::table_is(#[trigger] names[i]),
        ) is Some
}

/// Whether the catalogs that have rows are there.
pub open spec fn catalogs_are_there(generated: GeneratedCatalog) -> bool {
    &&& all_are_there(generated.tables@, tables::dynamic_catalogs())
    &&& all_are_there(generated.tables@, tables::static_catalogs())
}

impl GeneratedCatalog {
    /// Whether the data is sound: catalogs can be told apart, what follows from
    /// compiled-in rows can be made, and what is made is not taken for anything
    /// else.
    pub open spec fn wf(self) -> bool {
        &&& catalogs_differ(self.tables@)
        &&& names_are_normalized(self.tables@)
        &&& indexes_stand_apart(self.tables@)
        &&& records_follow(self)
        &&& catalogs_are_there(self)
        &&& rows_can_be_made(self)
        &&& columns_can_be_made(self)
        &&& rowtypes_are_free(self)
        &&& rowtypes_start_right(self)
        &&& databases::start_right(self)
    }
}

fn catalogs_tell_apart(tables: &[StaticCatalogTable]) -> (r: bool)
    ensures
        r == (catalogs_differ(tables@) && names_are_normalized(tables@)),
{
    let mut j: usize = 0;
    while j < tables.len()
        invariant
            j <= tables@.len(),
            catalogs_differ(tables@.take(j as int)),
            names_are_normalized(tables@.take(j as int)),
        decreases tables@.len() - j,
    {
        let b = &tables[j];
        let folded = model::normalize_identifier(b.name);
        if !text::same_text(folded.as_str(), b.name) {
            assert(tables@[j as int] == *b);
            return false;
        }
        let mut i: usize = 0;
        while i < j
            invariant
                i <= j < tables@.len(),
                *b == tables@[j as int],
                forall|k: int| 0 <= k < i ==> differ(#[trigger] tables@[k], *b),
            decreases j - i,
        {
            let a = &tables[i];
            if a.oid == b.oid || text::same_text(a.name, b.name)
                || static_rows::static_catalog_table_rowtype_oid(a)
                == static_rows::static_catalog_table_rowtype_oid(b) {
                assert(!differ(tables@[i as int], tables@[j as int]));
                return false;
            }
            i += 1;
        }
        let ghost before = tables@.take(j as int);
        let ghost now = tables@.take(j + 1);
        proof {
            assert forall|x: int, y: int| 0 <= x < y < now.len() implies differ(
                #[trigger] now[x],
                #[trigger] now[y],
            ) by {
                assert(now[x] == tables@[x]);
                if y < j {
                    assert(differ(before[x], before[y]));
                }
            }
            assert forall|x: int| 0 <= x < now.len() implies model::normalized(
                (#[trigger] now[x]).name@,
            ) == now[x].name@ by {
                if x < j {
                    assert(before[x] == now[x]);
                }
            }
        }
        j += 1;
    }
    assert(tables@.take(j as int) =~= tables@);
    true
}

fn catalog_indexes_stand_apart(tables: &[StaticCatalogTable]) -> (r: bool)
    ensures
        r == indexes_stand_apart(tables@),
{
    let all = catalog_indexes::all_catalog_indexes();
    let ghost views = catalog_indexes::all_indexes();
    assert(views.len() == all@.len());
    let mut j: usize = 0;
    while j < all.len()
        invariant
            j <= all@.len(),
            views == search::views(all@),
            views == catalog_indexes::all_indexes(),
            views.len() == all@.len(),
            forall|i: int, k: int|
                0 <= i < tables@.len() && 0 <= k < j ==> (#[trigger] tables@[i]).oid != (
                #[trigger] views[k]).oid,
        decreases all@.len() - j,
    {
        assert(views[j as int] == all@[j as int]@);
        let oid = all[j].oid;
        let mut i: usize = 0;
        while i < tables.len()
            invariant
                i <= tables@.len(),
                j < views.len(),
                views == catalog_indexes::all_indexes(),
                oid == views[j as int].oid,
                forall|k: int| 0 <= k < i ==> (#[trigger] tables@[k]).oid != oid,
            decreases tables@.len() - i,
        {
            if tables[i].oid == oid {
                assert(tables@[i as int].oid == catalog_indexes::all_indexes()[j as int].oid);
                return false;
            }
            i += 1;
        }
        j += 1;
    }
    true
}

fn records_are_right(generated: &GeneratedCatalog) -> (r: bool)
    ensures
        r == records_follow(*generated),
{
    if generated.virtual_catalogs.len() != generated.tables.len() {
        return false;
    }
    let mut i: usize = 0;
    while i < generated.tables.len()
        invariant
            i <= generated.tables@.len(),
            generated.virtual_catalogs@.len() == generated.tables@.len(),
            forall|j: int|
                0 <= j < i ==> is_record_of(
                    generated.virtual_catalogs@[j],
                    #[trigger] generated.tables@[j],
                ),
        decreases generated.tables@.len() - i,
    {
        let record = &generated.virtual_catalogs[i];
        let table = &generated.tables[i];
        if record.relation_oid != table.oid || !text::same_text(record.name, table.name)
            || record.policy != tables::virtual_catalog_policy(table.name) {
            assert(!is_record_of(
                generated.virtual_catalogs@[i as int],
                generated.tables@[i as int],
            ));
            return false;
        }
        i += 1;
    }
    true
}

fn catalog_is_there(generated: &GeneratedCatalog, name: &str) -> (r: bool)
    ensures
        r == search::first_with(generated.tables@, columns::table_is(name@)) is Some,
{
    let test = |table: &StaticCatalogTable| -> (b: bool)
        ensures
            b == columns::table_is(name@)(*table),
        {
            text::same_text(table.name, name)
        };
    search::find_first(generated.tables, test, Ghost(columns::table_is(name@))).is_some()
}

fn each_is_there(generated: &GeneratedCatalog, names: &Vec<&'static str>) -> (r: bool)
    ensures
        r == all_are_there(generated.tables@, search::views(names@)),
{
    let ghost all = search::views(names@);
    let mut i: usize = 0;
    while i < names.len()
        invariant
            i <= names@.len(),
            all == search::views(names@),
            forall|j: int|
                0 <= j < i ==> search::first_with(
                    generated.tables@,
                    columns::table_is(#[trigger] all[j]),
                ) is Some,
        decreases names@.len() - i,
    {
        assert(all[i as int] == names@[i as int]@);
        if !catalog_is_there(generated, names[i]) {
            return false;
        }
        i += 1;
    }
    assert(all.len() == names@.len());
    true
}

fn domains_can_be_made(generated: &GeneratedCatalog, table: &StaticCatalogTable) -> (r: bool)
    ensures
        r == forall|i: int|
            0 <= i < synthetic::domain_specs().len() ==> synthetic::domain_row(
                *generated,
                *table,
                #[trigger] synthetic::domain_specs()[i],
            ) is Some,
{
    let domains = synthetic::information_schema_domain_specs();
    let mut i: usize = 0;
    while i < domains.len()
        invariant
            i <= domains@.len(),
            domains@ == synthetic::domain_specs(),
            forall|j: int|
                0 <= j < i ==> synthetic::domain_row(
                    *generated,
                    *table,
                    #[trigger] synthetic::domain_specs()[j],
                ) is Some,
        decreases domains@.len() - i,
    {
        let made = synthetic::synthetic_information_schema_domain_row(
            generated,
            table,
            domains[i],
        );
        if made.is_none() {
            assert(synthetic::domain_row(
                *generated,
                *table,
                synthetic::domain_specs()[i as int],
            ) is None);
            return false;
        }
        i += 1;
    }
    true
}

fn indexes_can_be_made(generated: &GeneratedCatalog, table: &StaticCatalogTable) -> (r: bool)
    ensures
        r == forall|i: int|
            0 <= i < catalog_indexes::indexes().len() ==> catalog_indexes::index_row(
                *generated,
                *table,
                #[trigger] catalog_indexes::indexes()[i],
            ) is Some,
{
    let all = catalog_indexes::catalog_indexes();
    let mut i: usize = 0;
    while i < all.len()
        invariant
            i <= all@.len(),
            search::views(all@) == catalog_indexes::indexes(),
            forall|j: int|
                0 <= j < i ==> catalog_indexes::index_row(
                    *generated,
                    *table,
                    #[trigger] catalog_indexes::indexes()[j],
                ) is Some,
        decreases all@.len() - i,
    {
        assert(search::views(all@)[i as int] == all@[i as int]@);
        let made = catalog_indexes::synthetic_catalog_index_row(generated, table, &all[i]);
        if made.is_none() {
            assert(catalog_indexes::index_row(
                *generated,
                *table,
                catalog_indexes::indexes()[i as int],
            ) is None);
            return false;
        }
        i += 1;
    }
    assert(search::views(all@).len() == all@.len());
    true
}

fn catalog_rows_can_be_made(generated: &GeneratedCatalog, table: &StaticCatalogTable) -> (r: bool)
    ensures
        r == counts::rows_follow(*generated, *table),
{
    if table.oid.0 == PG_NAMESPACE_RELATION_OID {
        table.rows.len() > 0
    } else if table.oid.0 == PG_TYPE_RELATION_OID {
        domains_can_be_made(generated, table) && synthetic::find_rowtype_template(
            generated,
            table,
        ).is_some()
    } else if table.oid.0 == PG_INDEX_RELATION_OID {
        indexes_can_be_made(generated, table)
    } else {
        true
    }
}

fn all_rows_can_be_made(generated: &GeneratedCatalog) -> (r: bool)
    ensures
        r == rows_can_be_made(*generated),
{
    let mut i: usize = 0;
    while i < generated.tables.len()
        invariant
            i <= generated.tables@.len(),
            forall|j: int|
                0 <= j < i ==> counts::rows_follow(*generated, #[trigger] generated.tables@[j]),
        decreases generated.tables@.len() - i,
    {
        if !catalog_rows_can_be_made(generated, &generated.tables[i]) {
            assert(!counts::rows_follow(*generated, generated.tables@[i as int]));
            return false;
        }
        i += 1;
    }
    true
}

fn catalog_columns_can_be_made(
    generated: &GeneratedCatalog,
    table: &StaticCatalogTable,
    at: usize,
) -> (r: bool)
    requires
        at < generated.tables@.len(),
    ensures
        r == forall|n: int|
            0 < n <= generated.tables@[at as int].columns@.len() && n <= i16::MAX
                ==> #[trigger] counts::column_follows(*generated, *table, at as int, n),
{
    let catalog = &generated.tables[at];
    let mut n: usize = 0;
    while n < catalog.columns.len() && n < 0x7fff
        invariant
            n <= catalog.columns@.len(),
            n <= i16::MAX,
            at < generated.tables@.len(),
            *catalog == generated.tables@[at as int],
            forall|k: int|
                0 < k <= n ==> #[trigger] counts::column_follows(
                    *generated,
                    *table,
                    at as int,
                    k,
                ),
        decreases catalog.columns@.len() - n,
    {
        let column = &catalog.columns[n];
        n += 1;
        let made = synthetic::synthetic_static_attribute_row(
            generated,
            table,
            catalog,
            column,
            n as i16,
        );
        if made.is_none() {
            assert(!counts::column_follows(*generated, *table, at as int, n as int));
            return false;
        }
        assert(counts::column_follows(*generated, *table, at as int, n as int));
    }
    true
}

fn system_columns_can_be_made(
    generated: &GeneratedCatalog,
    table: &StaticCatalogTable,
    at: usize,
) -> (r: bool)
    requires
        at < generated.tables@.len(),
    ensures
        r == forall|n: int|
            0 < n <= synthetic::system_attributes().len()
                ==> #[trigger] counts::system_column_follows(*generated, *table, at as int, n),
{
    let attributes = synthetic::system_attribute_specs();
    let mut n: usize = 0;
    while n < attributes.len()
        invariant
            n <= attributes@.len(),
            at < generated.tables@.len(),
            attributes@ == synthetic::system_attributes(),
            forall|k: int|
                0 < k <= n ==> #[trigger] counts::system_column_follows(
                    *generated,
                    *table,
                    at as int,
                    k,
                ),
        decreases attributes@.len() - n,
    {
        let attribute = attributes[n];
        n += 1;
        let made = synthetic::synthetic_system_attribute_row(
            generated,
            table,
            &generated.tables[at],
            attribute,
        );
        if made.is_none() {
            assert(!counts::system_column_follows(*generated, *table, at as int, n as int));
            return false;
        }
        assert(counts::system_column_follows(*generated, *table, at as int, n as int));
    }
    true
}

fn index_columns_can_be_made(generated: &GeneratedCatalog, table: &StaticCatalogTable) -> (r: bool)
    ensures
        r == forall|i: int, n: int|
            0 <= i < catalog_indexes::all_indexes().len() && 0 < n
                <= catalog_indexes::all_indexes()[i].keys.len() && n <= i16::MAX
                ==> #[trigger] counts::key_follows(*generated, *table, i, n),
{
    let all = catalog_indexes::all_catalog_indexes();
    assert(search::views(all@).len() == all@.len());
    let mut i: usize = 0;
    while i < all.len()
        invariant
            i <= all@.len(),
            search::views(all@) == catalog_indexes::all_indexes(),
            forall|j: int, k: int|
                0 <= j < i && 0 < k <= catalog_indexes::all_indexes()[j].keys.len() && k
                    <= i16::MAX ==> #[trigger] counts::key_follows(*generated, *table, j, k),
        decreases all@.len() - i,
    {
        let index = &all[i];
        let ghost view = catalog_indexes::all_indexes()[i as int];
        assert(search::views(all@)[i as int] == index@);
        assert(view.keys.len() == index.keys@.len());
        let mut n: usize = 0;
        while n < index.keys.len() && n < 0x7fff
            invariant
                n <= index.keys@.len(),
                n <= i16::MAX,
                0 <= i < catalog_indexes::all_indexes().len(),
                view == index@,
                view == catalog_indexes::all_indexes()[i as int],
                view.keys.len() == index.keys@.len(),
                forall|k: int|
                    0 < k <= n ==> #[trigger] counts::key_follows(
                        *generated,
                        *table,
                        i as int,
                        k,
                    ),
            decreases index.keys@.len() - n,
        {
            let name = index.keys[n];
            assert(view.keys[n as int] == name@);
            n += 1;
            let made = catalog_indexes::synthetic_index_attribute_row(
                generated,
                table,
                index,
                name,
                n as i16,
            );
            if made.is_none() {
                assert(!counts::key_follows(*generated, *table, i as int, n as int));
                return false;
            }
            assert(counts::key_follows(*generated, *table, i as int, n as int));
        }
        i += 1;
    }
    assert(search::views(all@).len() == all@.len());
    true
}

fn places_read_as_written(generated: &GeneratedCatalog, table: &StaticCatalogTable) -> (r: bool)
    ensures
        r == counts::places_follow(*generated, *table),
{
    let mut i: usize = 0;
    while i < table.rows.len()
        invariant
            i <= table.rows@.len(),
            forall|j: int|
                0 <= j < i ==> counts::place_read(*generated, *table, #[trigger] table.rows@[j])
                    == counts::written_place(*table, table.rows@[j]),
        decreases table.rows@.len() - i,
    {
        let row = &table.rows[i];
        let read = match static_rows::static_catalog_cached_row(generated, table, row) {
            Some(found) => rows::catalog_row_attribute_key(generated, table, &found),
            None => None,
        };
        let written = counts::static_row_attribute_key_from_values(table, row);
        assert(read == counts::place_read(*generated, *table, table.rows@[i as int]));
        let same = match (read, written) {
            (Some(a), Some(b)) => a.0 == b.0 && a.1 == b.1,
            (None, None) => true,
            _ => false,
        };
        if !same {
            assert(counts::place_read(*generated, *table, table.rows@[i as int])
                != counts::written_place(*table, table.rows@[i as int]));
            return false;
        }
        i += 1;
    }
    true
}

fn all_columns_can_be_made(generated: &GeneratedCatalog) -> (r: bool)
    ensures
        r == columns_can_be_made(*generated),
{
    let table = match columns::static_catalog_by_relation_oid(
        generated,
        Oid(PG_ATTRIBUTE_RELATION_OID),
    ) {
        Some(table) => table,
        None => return true,
    };
    let mut i: usize = 0;
    while i < generated.tables.len()
        invariant
            i <= generated.tables@.len(),
            columns::table_of(*generated, Oid(PG_ATTRIBUTE_RELATION_OID)) == Some(*table),
            forall|j: int, n: int|
                0 <= j < i && 0 < n <= generated.tables@[j].columns@.len() && n <= i16::MAX
                    ==> #[trigger] counts::column_follows(*generated, *table, j, n),
            forall|j: int, n: int|
                0 <= j < i && 0 < n <= synthetic::system_attributes().len()
                    ==> #[trigger] counts::system_column_follows(*generated, *table, j, n),
        decreases generated.tables@.len() - i,
    {
        if !catalog_columns_can_be_made(generated, table, i) {
            return false;
        }
        if !system_columns_can_be_made(generated, table, i) {
            return false;
        }
        i += 1;
    }
    index_columns_can_be_made(generated, table) && places_read_as_written(generated, table)
}

fn row_leaves_all_alone(
    generated: &GeneratedCatalog,
    table: &StaticCatalogTable,
    row_id: u64,
    told: &Option<CatalogTypeRecord>,
    row: Ghost<CatalogRowView>,
) -> (r: bool)
    requires
        row_id == row@.row_id,
        search::option_view(*told) == type_lookups::type_of_row(*generated, *table, row@),
    ensures
        r == forall|i: int|
            0 <= i < generated.tables@.len() ==> leaves_it_alone(
                *generated,
                *table,
                row@,
                #[trigger] generated.tables@[i],
            ),
{
    let record = match told {
        Some(record) => record,
        None => return true,
    };
    let mut i: usize = 0;
    while i < generated.tables.len()
        invariant
            i <= generated.tables@.len(),
            row_id == row@.row_id,
            type_lookups::type_of_row(*generated, *table, row@) == Some(record@),
            forall|j: int|
                0 <= j < i ==> leaves_it_alone(
                    *generated,
                    *table,
                    row@,
                    #[trigger] generated.tables@[j],
                ),
        decreases generated.tables@.len() - i,
    {
        let catalog = &generated.tables[i];
        let rowtype = static_rows::static_catalog_table_rowtype_oid(catalog);
        if catalog.rowtype_oid.0 == INVALID_OID && row_id != rowtype.0 as u64 && (record.oid
            == rowtype || (record.namespace.0 == PG_CATALOG_NAMESPACE_OID && text::same_text(
            record.name.as_str(),
            catalog.name,
        ))) {
            assert(!leaves_it_alone(*generated, *table, row@, generated.tables@[i as int]));
            return false;
        }
        i += 1;
    }
    true
}

fn type_rows_leave_all_alone(generated: &GeneratedCatalog, table: &StaticCatalogTable) -> (r: bool)
    ensures
        r == forall|k: int, i: int|
            0 <= k < first_type_rows(*generated).len() && 0 <= i < generated.tables@.len()
                ==> leaves_it_alone(
                *generated,
                *table,
                #[trigger] first_type_rows(*generated)[k],
                #[trigger] generated.tables@[i],
            ),
{
    let empty = CatalogSnapshot::new(0);
    let list = rows::catalog_rows(generated, &empty, Oid(PG_TYPE_RELATION_OID));
    let ghost all = first_type_rows(*generated);
    assert(synthetic::row_views(list@) == all);
    let mut k: usize = 0;
    while k < list.len()
        invariant
            k <= list@.len(),
            synthetic::row_views(list@) == all,
            all == first_type_rows(*generated),
            forall|j: int, i: int|
                0 <= j < k && 0 <= i < generated.tables@.len() ==> leaves_it_alone(
                    *generated,
                    *table,
                    #[trigger] all[j],
                    #[trigger] generated.tables@[i],
                ),
        decreases list@.len() - k,
    {
        assert(all[k as int] == list@[k as int]@);
        let told = type_lookups::catalog_type_from_row(generated, table, &list[k]);
        if !row_leaves_all_alone(
            generated,
            table,
            list[k].row_id,
            &told,
            Ghost(list@[k as int]@),
        ) {
            proof {
                assert(all.len() == list@.len());
                let i = choose|i: int|
                    0 <= i < generated.tables@.len() && !leaves_it_alone(
                        *generated,
                        *table,
                        list@[k as int]@,
                        #[trigger] generated.tables@[i],
                    );
                assert(!leaves_it_alone(
                    *generated,
                    *table,
                    first_type_rows(*generated)[k as int],
                    generated.tables@[i],
                ));
            }
            return false;
        }
        k += 1;
    }
    assert(all.len() == list@.len());
    true
}

fn all_rowtypes_are_free(generated: &GeneratedCatalog) -> (r: bool)
    ensures
        r == rowtypes_are_free(*generated),
{
    let mut i: usize = 0;
    while i < generated.tables.len()
        invariant
            i <= generated.tables@.len(),
            forall|j: int|
                0 <= j < i && (#[trigger] generated.tables@[j]).rowtype_oid.0 == INVALID_OID
                    ==> nodes::builtin_type(
                    *generated,
                    static_rows::rowtype_of(generated.tables@[j]),
                ) is None,
        decreases generated.tables@.len() - i,
    {
        let catalog = &generated.tables[i];
        if catalog.rowtype_oid.0 == INVALID_OID {
            let rowtype = static_rows::static_catalog_table_rowtype_oid(catalog);
            if nodes::lookup_builtin_type(generated, rowtype).is_some() {
                assert(*catalog == generated.tables@[i as int]);
                return false;
            }
        }
        i += 1;
    }
    let table = match columns::static_catalog_by_relation_oid(
        generated,
        Oid(PG_TYPE_RELATION_OID),
    ) {
        Some(table) => table,
        None => return true,
    };
    type_rows_leave_all_alone(generated, table)
}

fn all_rowtypes_start_right(generated: &GeneratedCatalog) -> (r: bool)
    ensures
        r == rowtypes_start_right(*generated),
{
    if nodes::lookup_builtin_type(generated, Oid(83)).is_none() {
        return false;
    }
    let table = match columns::static_catalog_by_relation_oid(
        generated,
        Oid(PG_TYPE_RELATION_OID),
    ) {
        Some(table) => table,
        None => return true,
    };
    let template = match synthetic::find_rowtype_template(generated, table) {
        Some(template) => template,
        None => return true,
    };
    let row = static_rows::static_row_to_catalog_row(generated, table, template);
    meta::column_u8(table, &row, "typtype") == Some(99) && meta::column_u8(
        table,
        &row,
        "typcategory",
    ) == Some(67)
}

/// Whether compiled-in data is sound.
pub fn is_sound(generated: &GeneratedCatalog) -> (r: bool)
    ensures
        r == generated.wf(),
{
    catalogs_tell_apart(generated.tables) && catalog_indexes_stand_apart(generated.tables)
        && records_are_right(generated) && each_is_there(
        generated,
        &tables::dynamic_catalog_names(),
    ) && each_is_there(generated, &tables::static_catalog_names()) && all_rows_can_be_made(generated)
        && all_columns_can_be_made(generated) && all_rowtypes_are_free(generated) && all_rowtypes_start_right(generated)
        && databases::databases_start_right(generated)
}

/// In sound data each catalog that has rows has a record under its name, which
/// tells how its rows come about.
pub proof fn policies_are_recorded(generated: GeneratedCatalog, name: Seq<char>)
    requires
        generated.wf(),
        tables::dynamic_catalogs().contains(name) || tables::static_catalogs().contains(name),
    ensures
        search::first_with(generated.virtual_catalogs@, builtins::virtual_is(name)) matches Some(
            record,
        ) && record.name@ == name && record.policy == tables::policy_of(name),
{
    let list = generated.tables@;
    let records = generated.virtual_catalogs@;
    if tables::dynamic_catalogs().contains(name) {
        let k = choose|k: int|
            0 <= k < tables::dynamic_catalogs().len() && tables::dynamic_catalogs()[k] == name;
        assert(search::first_with(
            list,
            columns::table_is(tables::dynamic_catalogs()[k]),
        ) is Some);
    } else {
        let k = choose|k: int|
            0 <= k < tables::static_catalogs().len() && tables::static_catalogs()[k] == name;
        assert(search::first_with(
            list,
            columns::table_is(tables::static_catalogs()[k]),
        ) is Some);
    }
    search::first_index_is_first(list, columns::table_is(name));
    let at = search::first_index(list, columns::table_is(name))->0;
    assert(is_record_of(records[at], list[at]));
    assert forall|j: int| 0 <= j < at implies !builtins::virtual_is(name)(
        #[trigger] records[j],
    ) by {
        assert(is_record_of(records[j], list[j]));
        assert(!columns::table_is(name)(list[j]));
    }
    search::first_index_at(records, builtins::virtual_is(name), at);
}

/// In sound data the catalog with an identifier is the first and the last one
/// with it, and each row that it adds of itself can be made.
pub proof fn a_catalog_is_the_only_one(generated: GeneratedCatalog, oid: Oid)
    requires
        generated.wf(),
    ensures
        search::last_with(generated.tables@, columns::table_has(oid)) == columns::table_of(
            generated,
            oid,
        ),
        columns::table_of(generated, oid) matches Some(table) ==> counts::rows_follow(
            generated,
            table,
        ),
{
    let tables = generated.tables@;
    let p = columns::table_has(oid);
    search::first_index_is_first(tables, p);
    search::last_with_has(tables, p);
    match search::first_index(tables, p) {
        Some(i) => {
            search::last_with_finds(tables, p, i);
            let last = search::last_with(tables, p)->0;
            let j = choose|j: int| 0 <= j < tables.len() && tables[j] == last;
            if i < j {
                assert(differ(tables[i], tables[j]));
            } else if j < i {
                assert(differ(tables[j], tables[i]));
            }
        },
        None => {
            if search::last_with(tables, p) is Some {
                let last = search::last_with(tables, p)->0;
                let j = choose|j: int| 0 <= j < tables.len() && tables[j] == last;
                assert(!p(tables[j]));
            }
        },
    }
}

} // verus!
