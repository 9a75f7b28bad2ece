//! Filters that name the relation of columns find among its columns what they
//! would find among all.

use vstd::prelude::*;

use crate::catalog::catalog_indexes;
use crate::catalog::column_filters;
use crate::catalog::column_filters::Picking;
use crate::catalog::columns;
use crate::catalog::draft::DraftView;
use crate::catalog::filters;
use crate::catalog::filters::ColumnQueryView;
use crate::catalog::index;
use crate::catalog::meta;
use crate::catalog::meta::{ColumnMeta, ColumnMetaView};
use crate::catalog::model::{
    CatalogRowView, CatalogValueView, GeneratedCatalog, PgTypeRecord, StaticCatalogColumn,
    StaticCatalogTable, PG_ATTRIBUTE_RELATION_OID,
};
use crate::catalog::nodes;
use crate::catalog::rows;
use crate::catalog::rows::{ColumnFilterView, ColumnScan, RequestView};
use crate::catalog::selectors;
use crate::catalog::selectors::{CatalogRowFilter, SelectorView};
use crate::catalog::snapshot::SnapshotView;
use crate::catalog::synthetic;
use crate::catalog::synthetic::SystemAttributeSpec;
use crate::catalog::validity;
use crate::search;
use crate::types::Oid;

verus! {

/// Whether a row tells, as far as it has the columns, a relation, a number and a
/// name.
spec fn tells(
    table: StaticCatalogTable,
    row: CatalogRowView,
    relation: Oid,
    attnum: i16,
    name: Seq<char>,
) -> bool {
    &&& columns::row_value(table, row, "attrelid"@) matches Some(v) ==> v == CatalogValueView::Oid(
        relation,
    )
    &&& columns::row_value(table, row, "attnum"@) matches Some(v) ==> v == CatalogValueView::Int16(
        attnum,
    )
    &&& columns::row_value(table, row, "attname"@) matches Some(v) ==> v == CatalogValueView::Name(
        name,
    )
}

/// Whether assignments begin as those of a column do, and assign nothing to the
/// same columns again.
spec fn assigns(
    list: Seq<(Seq<char>, CatalogValueView)>,
    relation: Oid,
    attnum: i16,
    name: Seq<char>,
) -> bool {
    &&& list.len() > 5
    &&& list[0] == ("attrelid"@, CatalogValueView::Oid(relation))
    &&& list[1] == ("attname"@, CatalogValueView::Name(name))
    &&& list[5] == ("attnum"@, CatalogValueView::Int16(attnum))
    &&& forall|j: int| 0 < j < list.len() ==> (#[trigger] list[j]).0 != "attrelid"@
    &&& forall|j: int| 1 < j < list.len() ==> (#[trigger] list[j]).0 != "attname"@
    &&& forall|j: int| 5 < j < list.len() ==> (#[trigger] list[j]).0 != "attnum"@
}

proof fn lemma_tells(
    table: StaticCatalogTable,
    base: CatalogRowView,
    list: Seq<(Seq<char>, CatalogValueView)>,
    relation: Oid,
    attnum: i16,
    name: Seq<char>,
)
    requires
        assigns(list, relation, attnum, name),
    ensures
        tells(table, columns::with_values(table, base, list), relation, attnum, name),
{
    columns::assigned_columns_read_back(table, base, list, "attrelid"@);
    columns::assigned_columns_read_back(table, base, list, "attname"@);
    columns::assigned_columns_read_back(table, base, list, "attnum"@);
    columns::the_last_assignment_counts(
        list,
        "attrelid"@,
        columns::row_value(table, base, "attrelid"@)->0,
        0,
    );
    columns::the_last_assignment_counts(
        list,
        "attname"@,
        columns::row_value(table, base, "attname"@)->0,
        1,
    );
    columns::the_last_assignment_counts(
        list,
        "attnum"@,
        columns::row_value(table, base, "attnum"@)->0,
        5,
    );
}

proof fn lemma_column_names_differ()
    ensures
        forall|relation: StaticCatalogTable, column: StaticCatalogColumn, attnum: i16, t: PgTypeRecord|
            assigns(
                #[trigger] synthetic::attribute_columns(relation, column, attnum, t),
                relation.oid,
                attnum,
                column.name@,
            ),
        forall|relation: StaticCatalogTable, attribute: SystemAttributeSpec, t: PgTypeRecord|
            assigns(
                #[trigger] synthetic::system_attribute_columns(relation, attribute, t),
                relation.oid,
                attribute.attnum,
                attribute.name@,
            ),
{
    reveal_strlit("attrelid");
    reveal_strlit("attname");
    reveal_strlit("atttypid");
    reveal_strlit("attstattarget");
    reveal_strlit("attlen");
    reveal_strlit("attnum");
    reveal_strlit("attndims");
    reveal_strlit("attcacheoff");
    reveal_strlit("atttypmod");
    reveal_strlit("attbyval");
    reveal_strlit("attalign");
    reveal_strlit("attstorage");
    reveal_strlit("attcompression");
    reveal_strlit("attnotnull");
    reveal_strlit("atthasdef");
    reveal_strlit("atthasmissing");
    reveal_strlit("attidentity");
    reveal_strlit("attgenerated");
    reveal_strlit("attisdropped");
    reveal_strlit("attislocal");
    reveal_strlit("attinhcount");
    reveal_strlit("attcollation");
    reveal_strlit("attacl");
    reveal_strlit("attoptions");
    reveal_strlit("attfdwoptions");
    reveal_strlit("attmissingval");
    assert("attrelid"@.len() == 8 && "attname"@.len() == 7 && "attnum"@.len() == 6);
    assert("attrelid"@[3] == 'r' && "attnum"@[3] == 'n' && "attnum"@[4] == 'u');
    assert("atttypid"@[3] == 't' && "attlen"@[3] == 'l' && "attndims"@[3] == 'n');
    assert("attbyval"@[3] == 'b' && "attalign"@[3] == 'a' && "attacl"@[3] == 'a');
    assert("attstattarget"@.len() == 13 && "attcacheoff"@.len() == 11);
    assert("atttypmod"@.len() == 9 && "attstorage"@.len() == 10);
    assert("attcompression"@.len() == 14 && "attnotnull"@.len() == 10);
    assert("atthasdef"@.len() == 9 && "atthasmissing"@.len() == 13);
    assert("attidentity"@.len() == 11 && "attgenerated"@.len() == 12);
    assert("attisdropped"@.len() == 12 && "attislocal"@.len() == 10);
    assert("attinhcount"@.len() == 11 && "attcollation"@.len() == 12);
    assert("attoptions"@.len() == 10 && "attfdwoptions"@.len() == 13);
    assert("attmissingval"@.len() == 13 && "atttypid"@.len() == 8 && "attlen"@.len() == 6);
    assert("attndims"@.len() == 8 && "attbyval"@.len() == 8 && "attalign"@.len() == 8);
    assert("attacl"@.len() == 6);
}

/// A row that passes filters that name a relation is that of a column of it that
/// they ask for, as far as the row tells.
proof fn lemma_passing_row(
    table: StaticCatalogTable,
    filters: Seq<CatalogRowFilter>,
    query: ColumnQueryView,
    row: CatalogRowView,
    relation: Oid,
    attnum: i16,
    name: Seq<char>,
)
    requires
        filters::query_of(table, filters) == Some(query),
        selectors::row_passes_all(table, row, filters),
        tells(table, row, relation, attnum, name),
    ensures
        relation == query.relation_oid,
        query.wanted.admits(attnum, name),
{
    let relid = filters::number_of(table, "attrelid"@)->0;
    let number = filters::number_of(table, "attnum"@)->0;
    let named = filters::number_of(table, "attname"@)->0;
    search::first_index_is_first(filters, filters::on_column(relid));
    search::first_index_is_first(filters, filters::on_column(number));
    search::first_index_is_first(filters, filters::on_column(named));
    search::first_index_is_first(table.columns@, columns::column_is("attrelid"@));
    search::first_index_is_first(table.columns@, columns::column_is("attnum"@));
    search::first_index_is_first(table.columns@, columns::column_is("attname"@));
    match search::first_index(filters, filters::on_column(relid)) {
        Some(j) => {
            assert(selectors::row_passes(table, row, filters[j]));
        },
        None => {},
    }
    match search::first_index(filters, filters::on_column(number)) {
        Some(j) => {
            assert(selectors::row_passes(table, row, filters[j]));
        },
        None => {},
    }
    match search::first_index(filters, filters::on_column(named)) {
        Some(j) => {
            assert(selectors::row_passes(table, row, filters[j]));
        },
        None => {},
    }
}

/// What a query is about, in sound data.
spec fn is_query(
    request: RequestView,
    filters: Seq<CatalogRowFilter>,
    query: ColumnQueryView,
) -> bool {
    &&& request == filters::filtering(request.generated, request.table, filters)
    &&& filters::query_of(request.table, filters) == Some(query)
    &&& validity::catalogs_differ(request.generated.tables@)
    &&& validity::indexes_stand_apart(request.generated.tables@)
}

proof fn lemma_asked_column(
    request: RequestView,
    filters: Seq<CatalogRowFilter>,
    query: ColumnQueryView,
    i: int,
    n: int,
)
    requires
        is_query(request, filters, query),
        column_filters::has_column(request.generated, i, n),
        column_filters::column_at(request.generated, request.table, i, n) matches Some(row)
            && request.wants(row),
    ensures
        request.generated.tables@[i].oid == query.relation_oid,
        query.wanted.admits(n as i16, request.generated.tables@[i].columns@[n - 1].name@),
{
    let generated = request.generated;
    let table = request.table;
    let relation = generated.tables@[i];
    let column = relation.columns@[n - 1];
    let record = nodes::builtin_type(generated, column.type_oid)->0;
    lemma_column_names_differ();
    lemma_tells(
        table,
        synthetic::first_row_as(
            generated,
            table,
            synthetic::attribute_row_id(relation.oid, n as i16),
        ),
        synthetic::attribute_columns(relation, column, n as i16, record),
        relation.oid,
        n as i16,
        column.name@,
    );
    let row = column_filters::column_at(generated, table, i, n)->0;
    lemma_passing_row(table, filters, query, row, relation.oid, n as i16, column.name@);
}

proof fn lemma_asked_system_column(
    request: RequestView,
    filters: Seq<CatalogRowFilter>,
    query: ColumnQueryView,
    i: int,
    n: int,
)
    requires
        is_query(request, filters, query),
        column_filters::has_system_column(request.generated, i, n),
        column_filters::system_column_at(request.generated, request.table, i, n) matches Some(row)
            && request.wants(row),
    ensures
        request.generated.tables@[i].oid == query.relation_oid,
        query.wanted.admits(
            synthetic::system_attributes()[n - 1].attnum,
            synthetic::system_attributes()[n - 1].name@,
        ),
{
    let generated = request.generated;
    let table = request.table;
    let relation = generated.tables@[i];
    let attribute = synthetic::system_attributes()[n - 1];
    let record = nodes::builtin_type(generated, attribute.type_oid)->0;
    lemma_column_names_differ();
    lemma_tells(
        table,
        synthetic::first_row_as(
            generated,
            table,
            synthetic::system_attribute_row_id(relation.oid, attribute.attnum),
        ),
        synthetic::system_attribute_columns(relation, attribute, record),
        relation.oid,
        attribute.attnum,
        attribute.name@,
    );
    let row = column_filters::system_column_at(generated, table, i, n)->0;
    lemma_passing_row(
        table,
        filters,
        query,
        row,
        relation.oid,
        attribute.attnum,
        attribute.name@,
    );
}

proof fn lemma_asked_key(
    request: RequestView,
    filters: Seq<CatalogRowFilter>,
    query: ColumnQueryView,
    i: int,
    n: int,
)
    requires
        is_query(request, filters, query),
        column_filters::has_key(i, n),
        column_filters::key_at(request.generated, request.table, i, n) matches Some(row)
            && request.wants(row),
    ensures
        catalog_indexes::all_indexes()[i].oid == query.relation_oid,
        query.wanted.admits(n as i16, catalog_indexes::all_indexes()[i].keys[n - 1]),
{
    let generated = request.generated;
    let table = request.table;
    let index = catalog_indexes::all_indexes()[i];
    let indexed = columns::table_of(generated, index.relation_oid)->0;
    let place = catalog_indexes::key_place(indexed)(index.keys[n - 1])->0;
    let relation = StaticCatalogTable { oid: index.oid, ..indexed };
    let column = indexed.columns@[place as int];
    let record = nodes::builtin_type(generated, column.type_oid)->0;
    search::first_index_is_first(indexed.columns@, columns::column_is(index.keys[n - 1]));
    assert(column.name@ == index.keys[n - 1]);
    lemma_column_names_differ();
    lemma_tells(
        table,
        synthetic::first_row_as(
            generated,
            table,
            synthetic::attribute_row_id(relation.oid, n as i16),
        ),
        synthetic::attribute_columns(relation, column, n as i16, record),
        relation.oid,
        n as i16,
        column.name@,
    );
    let row = column_filters::key_at(generated, table, i, n)->0;
    lemma_passing_row(table, filters, query, row, relation.oid, n as i16, column.name@);
}

/// The indexes of catalogs have different identifiers.
proof fn lemma_indexes_differ(i: int, j: int)
    requires
        0 <= i < catalog_indexes::all_indexes().len(),
        0 <= j < catalog_indexes::all_indexes().len(),
        catalog_indexes::all_indexes()[i].oid == catalog_indexes::all_indexes()[j].oid,
    ensures
        i == j,
{
    let all = catalog_indexes::all_indexes();
    assert(all[0].oid.0 == 2659 && all[1].oid.0 == 2662 && all[2].oid.0 == 2663);
    assert(all[3].oid.0 == 2685 && all[4].oid.0 == 3609 && all[5].oid.0 == 2650);
    assert(all.len() == 6);
}

/// Only places of the relation that a query names, in a catalog or an index with
/// its identifier, are asked for.
proof fn lemma_asked_place(
    request: RequestView,
    filters: Seq<CatalogRowFilter>,
    query: ColumnQueryView,
    place: (u32, i16),
)
    requires
        is_query(request, filters, query),
        request.asks_for_made(place),
    ensures
        place.0 == query.relation_oid.0,
        ({
            let tables = request.generated.tables@;
            let all = catalog_indexes::all_indexes();
            ||| exists|i: int, n: int|
                column_filters::has_column(request.generated, i, n)
                    && #[trigger] column_filters::column_place(request.generated, i, n) == place
                    && tables[i].oid == query.relation_oid && query.wanted.admits(
                    n as i16,
                    tables[i].columns@[n - 1].name@,
                )
            ||| exists|i: int, n: int|
                column_filters::has_system_column(request.generated, i, n)
                    && #[trigger] column_filters::system_place(request.generated, i, n) == place
                    && tables[i].oid == query.relation_oid && query.wanted.admits(
                    synthetic::system_attributes()[n - 1].attnum,
                    synthetic::system_attributes()[n - 1].name@,
                )
            ||| exists|i: int, n: int|
                column_filters::has_key(i, n) && #[trigger] column_filters::key_place(i, n)
                    == place && all[i].oid == query.relation_oid && query.wanted.admits(
                    n as i16,
                    all[i].keys[n - 1],
                )
        }),
{
    let generated = request.generated;
    let table = request.table;
    if exists|i: int, n: int|
        column_filters::has_column(generated, i, n) && column_filters::column_place(
            generated,
            i,
            n,
        ) == place && (#[trigger] column_filters::column_at(generated, table, i, n) matches Some(
            row,
        ) && request.wants(row)) {
        let (i, n) = choose|i: int, n: int|
            column_filters::has_column(generated, i, n) && column_filters::column_place(
                generated,
                i,
                n,
            ) == place && (#[trigger] column_filters::column_at(
                generated,
                table,
                i,
                n,
            ) matches Some(row) && request.wants(row));
        lemma_asked_column(request, filters, query, i, n);
        assert(column_filters::column_place(generated, i, n) == place);
    } else if exists|i: int, n: int|
        column_filters::has_system_column(generated, i, n) && column_filters::system_place(
            generated,
            i,
            n,
        ) == place && (#[trigger] column_filters::system_column_at(
            generated,
            table,
            i,
            n,
        ) matches Some(row) && request.wants(row)) {
        let (i, n) = choose|i: int, n: int|
            column_filters::has_system_column(generated, i, n) && column_filters::system_place(
                generated,
                i,
                n,
            ) == place && (#[trigger] column_filters::system_column_at(
                generated,
                table,
                i,
                n,
            ) matches Some(row) && request.wants(row));
        lemma_asked_system_column(request, filters, query, i, n);
        assert(column_filters::system_place(generated, i, n) == place);
    } else {
        let (i, n) = choose|i: int, n: int|
            column_filters::has_key(i, n) && column_filters::key_place(i, n) == place && (
            #[trigger] column_filters::key_at(generated, table, i, n) matches Some(row)
                && request.wants(row));
        lemma_asked_key(request, filters, query, i, n);
        assert(column_filters::key_place(i, n) == place);
    }
}

proof fn lemma_same_catalog(generated: GeneratedCatalog, i: int, j: int)
    requires
        validity::catalogs_differ(generated.tables@),
        0 <= i < generated.tables@.len(),
        0 <= j < generated.tables@.len(),
        generated.tables@[i].oid.0 == generated.tables@[j].oid.0,
    ensures
        i == j,
{
    let tables = generated.tables@;
    assert(tables[i].oid == tables[j].oid);
    if i < j {
        assert(validity::differ(tables[i], tables[j]));
    } else if j < i {
        assert(validity::differ(tables[j], tables[i]));
    }
}

/// Whether a query looks among the columns of a catalog.
spec fn turn_of(query: ColumnQueryView, oid: Oid) -> Option<ColumnFilterView> {
    if oid == query.relation_oid {
        Some(query.wanted)
    } else {
        None
    }
}

proof fn lemma_dead_column(
    request: RequestView,
    filters: Seq<CatalogRowFilter>,
    query: ColumnQueryView,
    i: int,
    n: int,
)
    requires
        is_query(request, filters, query),
        column_filters::has_column(request.generated, i, n),
        !column_filters::meets(
            turn_of(query, request.generated.tables@[i].oid),
            n as i16,
            request.generated.tables@[i].columns@[n - 1].name@,
        ),
    ensures
        request.dead_places().contains(column_filters::column_place(request.generated, i, n)),
{
    let generated = request.generated;
    let tables = generated.tables@;
    let place = column_filters::column_place(generated, i, n);
    if request.asks_for_made(place) {
        lemma_asked_place(request, filters, query, place);
        assert(tables[i].oid == query.relation_oid);
        if exists|x: int, y: int|
            column_filters::has_column(generated, x, y) && #[trigger] column_filters::column_place(
                generated,
                x,
                y,
            ) == place && tables[x].oid == query.relation_oid && query.wanted.admits(
                y as i16,
                tables[x].columns@[y - 1].name@,
            ) {
            let (x, y) = choose|x: int, y: int|
                column_filters::has_column(generated, x, y)
                    && #[trigger] column_filters::column_place(generated, x, y) == place
                    && tables[x].oid == query.relation_oid && query.wanted.admits(
                    y as i16,
                    tables[x].columns@[y - 1].name@,
                );
            lemma_same_catalog(generated, x, i);
            assert(x == i && y == n);
        } else if exists|x: int, y: int|
            column_filters::has_key(x, y) && #[trigger] column_filters::key_place(x, y) == place
                && catalog_indexes::all_indexes()[x].oid == query.relation_oid {
            let (x, y) = choose|x: int, y: int|
                column_filters::has_key(x, y) && #[trigger] column_filters::key_place(x, y) == place
                    && catalog_indexes::all_indexes()[x].oid == query.relation_oid;
            assert(tables[i].oid != catalog_indexes::all_indexes()[x].oid);
        } else {
            let (x, y) = choose|x: int, y: int|
                column_filters::has_system_column(generated, x, y)
                    && #[trigger] column_filters::system_place(generated, x, y) == place;
            assert(synthetic::system_attributes()[y - 1].attnum < 0);
        }
    }
}

proof fn lemma_dead_system_column(
    request: RequestView,
    filters: Seq<CatalogRowFilter>,
    query: ColumnQueryView,
    i: int,
    n: int,
)
    requires
        is_query(request, filters, query),
        column_filters::has_system_column(request.generated, i, n),
        !column_filters::meets(
            turn_of(query, request.generated.tables@[i].oid),
            synthetic::system_attributes()[n - 1].attnum,
            synthetic::system_attributes()[n - 1].name@,
        ),
    ensures
        request.dead_places().contains(column_filters::system_place(request.generated, i, n)),
{
    let generated = request.generated;
    let tables = generated.tables@;
    let place = column_filters::system_place(generated, i, n);
    assert(synthetic::system_attributes()[n - 1].attnum == -n);
    if request.asks_for_made(place) {
        lemma_asked_place(request, filters, query, place);
        assert(tables[i].oid == query.relation_oid);
        if exists|x: int, y: int|
            column_filters::has_system_column(generated, x, y)
                && #[trigger] column_filters::system_place(generated, x, y) == place
                && tables[x].oid == query.relation_oid && query.wanted.admits(
                synthetic::system_attributes()[y - 1].attnum,
                synthetic::system_attributes()[y - 1].name@,
            ) {
            let (x, y) = choose|x: int, y: int|
                column_filters::has_system_column(generated, x, y)
                    && #[trigger] column_filters::system_place(generated, x, y) == place
                    && tables[x].oid == query.relation_oid && query.wanted.admits(
                    synthetic::system_attributes()[y - 1].attnum,
                    synthetic::system_attributes()[y - 1].name@,
                );
            assert(synthetic::system_attributes()[y - 1].attnum == -y);
            assert(y == n);
        }
    }
}

proof fn lemma_dead_key(
    request: RequestView,
    filters: Seq<CatalogRowFilter>,
    query: ColumnQueryView,
    i: int,
    n: int,
)
    requires
        is_query(request, filters, query),
        column_filters::has_key(i, n),
        !column_filters::meets(
            turn_of(query, catalog_indexes::all_indexes()[i].oid),
            n as i16,
            catalog_indexes::all_indexes()[i].keys[n - 1],
        ),
    ensures
        request.dead_places().contains(column_filters::key_place(i, n)),
{
    let generated = request.generated;
    let tables = generated.tables@;
    let all = catalog_indexes::all_indexes();
    let place = column_filters::key_place(i, n);
    if request.asks_for_made(place) {
        lemma_asked_place(request, filters, query, place);
        assert(all[i].oid == query.relation_oid);
        if exists|x: int, y: int|
            column_filters::has_key(x, y) && #[trigger] column_filters::key_place(x, y) == place
                && all[x].oid == query.relation_oid && query.wanted.admits(
                y as i16,
                all[x].keys[y - 1],
            ) {
            let (x, y) = choose|x: int, y: int|
                column_filters::has_key(x, y) && #[trigger] column_filters::key_place(x, y) == place
                    && all[x].oid == query.relation_oid && query.wanted.admits(
                    y as i16,
                    all[x].keys[y - 1],
                );
            lemma_indexes_differ(x, i);
            assert(x == i && y == n);
        } else if exists|x: int, y: int|
            column_filters::has_column(generated, x, y) && #[trigger] column_filters::column_place(
                generated,
                x,
                y,
            ) == place && tables[x].oid == query.relation_oid {
            let (x, y) = choose|x: int, y: int|
                column_filters::has_column(generated, x, y)
                    && #[trigger] column_filters::column_place(generated, x, y) == place
                    && tables[x].oid == query.relation_oid;
            assert(tables[x].oid != all[i].oid);
        } else {
            let (x, y) = choose|x: int, y: int|
                column_filters::has_system_column(generated, x, y)
                    && #[trigger] column_filters::system_place(generated, x, y) == place
                    && tables[x].oid == query.relation_oid;
            assert(tables[x].oid != all[i].oid);
        }
    }
}

proof fn lemma_catalogs(
    p: Picking,
    filters: Seq<CatalogRowFilter>,
    query: ColumnQueryView,
    all: ColumnScan,
    some: ColumnScan,
    at: int,
    n: nat,
)
    requires
        p.alike(all, some),
        p.dead == p.request.dead_places(),
        p.request.all_made_give_way(p.recorded),
        is_query(p.request, filters, query),
        n <= p.request.generated.tables@.len(),
        forall|i: int|
            0 <= i < p.request.generated.tables@.len() ==> ((
            #[trigger] p.request.generated.tables@[i]).oid == query.relation_oid <==> i == at),
    ensures
        p.alike(
            p.request.everything().with_catalog_columns(all, n),
            if 0 <= at < n {
                let relation = p.request.generated.tables@[at];
                p.request.with_system_columns(
                    p.request.with_columns(
                        some,
                        relation,
                        query.wanted,
                        relation.columns@.len(),
                    ),
                    relation,
                    query.wanted,
                    synthetic::system_attributes().len(),
                )
            } else {
                some
            },
        ),
    decreases n,
{
    if n > 0 {
        lemma_catalogs(p, filters, query, all, some, at, (n - 1) as nat);
        let request = p.request;
        let generated = request.generated;
        let i = n - 1;
        let relation = generated.tables@[i];
        let turn = turn_of(query, relation.oid);
        let a = request.everything().with_catalog_columns(all, (n - 1) as nat);
        let b = if 0 <= at < i {
            let found = generated.tables@[at];
            request.with_system_columns(
                request.with_columns(some, found, query.wanted, found.columns@.len()),
                found,
                query.wanted,
                synthetic::system_attributes().len(),
            )
        } else {
            some
        };
        assert forall|k: int|
            0 < k <= relation.columns@.len() && k <= i16::MAX && !column_filters::meets(
                turn,
                k as i16,
                relation.columns@[k - 1].name@,
            ) implies p.dead.contains(#[trigger] column_filters::column_place(generated, i, k)) by {
            lemma_dead_column(request, filters, query, i, k);
        }
        column_filters::lemma_columns(p, a, b, i, turn, relation.columns@.len());
        assert forall|k: int|
            0 < k <= synthetic::system_attributes().len() && !column_filters::meets(
                turn,
                synthetic::system_attributes()[k - 1].attnum,
                synthetic::system_attributes()[k - 1].name@,
            ) implies p.dead.contains(#[trigger] column_filters::system_place(generated, i, k)) by {
            lemma_dead_system_column(request, filters, query, i, k);
        }
        column_filters::lemma_system_columns(
            p,
            request.everything().with_columns(
                a,
                relation,
                ColumnFilterView::any(),
                relation.columns@.len(),
            ),
            match turn {
                Some(wanted) => request.with_columns(b, relation, wanted, relation.columns@.len()),
                None => b,
            },
            i,
            turn,
            synthetic::system_attributes().len(),
        );
    }
}

proof fn lemma_indexes(
    p: Picking,
    filters: Seq<CatalogRowFilter>,
    query: ColumnQueryView,
    all: ColumnScan,
    some: ColumnScan,
    at: int,
    n: nat,
)
    requires
        p.alike(all, some),
        p.dead == p.request.dead_places(),
        p.request.all_made_give_way(p.recorded),
        is_query(p.request, filters, query),
        n <= catalog_indexes::all_indexes().len(),
        forall|i: int|
            0 <= i < catalog_indexes::all_indexes().len() ==> ((
            #[trigger] catalog_indexes::all_indexes()[i]).oid == query.relation_oid <==> i == at),
    ensures
        p.alike(
            p.request.everything().with_index_columns(all, n),
            if 0 <= at < n {
                let index = catalog_indexes::all_indexes()[at];
                p.request.with_keys(some, index, query.wanted, index.keys.len())
            } else {
                some
            },
        ),
    decreases n,
{
    if n > 0 {
        lemma_indexes(p, filters, query, all, some, at, (n - 1) as nat);
        let request = p.request;
        let i = n - 1;
        let index = catalog_indexes::all_indexes()[i];
        let turn = turn_of(query, index.oid);
        assert forall|k: int|
            0 < k <= index.keys.len() && k <= i16::MAX && !column_filters::meets(
                turn,
                k as i16,
                index.keys[k - 1],
            ) implies p.dead.contains(#[trigger] column_filters::key_place(i, k)) by {
            lemma_dead_key(request, filters, query, i, k);
        }
        column_filters::lemma_keys(
            p,
            request.everything().with_index_columns(all, (n - 1) as nat),
            if 0 <= at < i {
                let found = catalog_indexes::all_indexes()[at];
                request.with_keys(some, found, query.wanted, found.keys.len())
            } else {
                some
            },
            i,
            turn,
            index.keys.len(),
        );
    }
}

/// The place of the catalog with an identifier, or one after the last.
proof fn lemma_catalog_at(generated: GeneratedCatalog, oid: Oid) -> (at: int)
    requires
        validity::catalogs_differ(generated.tables@),
    ensures
        0 <= at <= generated.tables@.len(),
        forall|i: int|
            0 <= i < generated.tables@.len() ==> ((#[trigger] generated.tables@[i]).oid == oid
                <==> i == at),
        columns::table_of(generated, oid) == if at < generated.tables@.len() {
            Some(generated.tables@[at])
        } else {
            None
        },
{
    let tables = generated.tables@;
    let p = columns::table_has(oid);
    search::first_index_is_first(tables, p);
    match search::first_index(tables, p) {
        Some(k) => {
            assert forall|i: int| 0 <= i < tables.len() implies ((#[trigger] tables[i]).oid == oid
                <==> i == k) by {
                if tables[i].oid == oid {
                    lemma_same_catalog(generated, i, k);
                }
            }
            k
        },
        None => {
            assert forall|i: int| 0 <= i < tables.len() implies ((#[trigger] tables[i]).oid == oid
                <==> i == tables.len()) by {
                assert(!p(tables[i]));
            }
            tables.len() as int
        },
    }
}

/// The place of the index with an identifier, or one after the last.
proof fn lemma_index_at(oid: Oid) -> (at: int)
    ensures
        0 <= at <= catalog_indexes::all_indexes().len(),
        forall|i: int|
            0 <= i < catalog_indexes::all_indexes().len() ==> ((
            #[trigger] catalog_indexes::all_indexes()[i]).oid == oid <==> i == at),
        search::first_with(catalog_indexes::all_indexes(), catalog_indexes::index_has(oid))
            == if at < catalog_indexes::all_indexes().len() {
            Some(catalog_indexes::all_indexes()[at])
        } else {
            None
        },
{
    let all = catalog_indexes::all_indexes();
    let p = catalog_indexes::index_has(oid);
    search::first_index_is_first(all, p);
    match search::first_index(all, p) {
        Some(k) => {
            assert forall|i: int| 0 <= i < all.len() implies ((#[trigger] all[i]).oid == oid <==> i
                == k) by {
                if all[i].oid == oid {
                    lemma_indexes_differ(i, k);
                }
            }
            k
        },
        None => {
            assert forall|i: int| 0 <= i < all.len() implies ((#[trigger] all[i]).oid == oid <==> i
                == all.len()) by {
                assert(!p(all[i]));
            }
            all.len() as int
        },
    }
}

/// Whether the columns of a state are what their rows read as.
pub open spec fn columns_as_read(
    generated: GeneratedCatalog,
    table: StaticCatalogTable,
    s: SnapshotView,
) -> bool {
    forall|id: u64| #[trigger]
        s.columns.contains_key(id) ==> meta::column_of(generated, table, s.columns[id].row, id)
            == Some(s.columns[id])
}

/// The same of the columns that changes put.
pub open spec fn puts_columns_as_read(
    generated: GeneratedCatalog,
    table: StaticCatalogTable,
    d: DraftView,
) -> bool {
    forall|id: u64| #[trigger]
        d.columns.contains_key(id) ==> (d.columns[id] matches Some(column) ==> meta::column_of(
            generated,
            table,
            column.row,
            id,
        ) == Some(column))
}

/// The columns of a state are what their rows read as: there are none at first,
/// and rows that are put or removed, changes put together, and changes that are
/// applied keep it so.
pub proof fn columns_stay_as_read(
    generated: GeneratedCatalog,
    table: StaticCatalogTable,
    s: SnapshotView,
    d: DraftView,
)
    requires
        columns::table_of(generated, Oid(PG_ATTRIBUTE_RELATION_OID)) == Some(table),
        columns_as_read(generated, table, s),
        puts_columns_as_read(generated, table, d),
    ensures
        forall|generation: u64|
            columns_as_read(generated, table, #[trigger] SnapshotView::empty(generation)),
        puts_columns_as_read(generated, table, DraftView::empty()),
        columns_as_read(generated, table, d.applied(s)),
        forall|later: DraftView|
            puts_columns_as_read(generated, table, later) ==> puts_columns_as_read(
                generated,
                table,
                #[trigger] d.merged(later),
            ),
        forall|other: StaticCatalogTable, row: CatalogRowView|
            columns::table_of(generated, other.oid) == Some(other) ==> puts_columns_as_read(
                generated,
                table,
                #[trigger] d.with_row(generated, other, row),
            ),
        forall|relation: u32, id: u64|
            puts_columns_as_read(generated, table, #[trigger] d.without_row(relation, id)),
{
    assert forall|later: DraftView| puts_columns_as_read(generated, table, later) implies
        puts_columns_as_read(generated, table, #[trigger] d.merged(later)) by {
        let both = d.merged(later);
        assert forall|id: u64| #[trigger] both.columns.contains_key(id) implies (
        both.columns[id] matches Some(column) ==> meta::column_of(
            generated,
            table,
            column.row,
            id,
        ) == Some(column)) by {
            assert(later.columns.contains_key(id) || d.columns.contains_key(id));
        }
    }
    let after = d.applied(s);
    assert forall|id: u64| #[trigger] after.columns.contains_key(id) implies meta::column_of(
        generated,
        table,
        after.columns[id].row,
        id,
    ) == Some(after.columns[id]) by {
        assert(d.columns.contains_key(id) || s.columns.contains_key(id));
    }
    assert forall|other: StaticCatalogTable, row: CatalogRowView|
        columns::table_of(generated, other.oid) == Some(other) implies puts_columns_as_read(
        generated,
        table,
        #[trigger] d.with_row(generated, other, row),
    ) by {
        let put = d.with_row(generated, other, row);
        if other.oid.0 == PG_ATTRIBUTE_RELATION_OID {
            assert(other.oid == Oid(PG_ATTRIBUTE_RELATION_OID));
        }
        assert forall|id: u64| #[trigger] put.columns.contains_key(id) implies (
        put.columns[id] matches Some(column) ==> meta::column_of(
            generated,
            table,
            column.row,
            id,
        ) == Some(column)) by {
            assert(id == row.row_id || d.columns.contains_key(id));
        }
    }
    assert forall|relation: u32, id: u64|
        puts_columns_as_read(generated, table, #[trigger] d.without_row(relation, id)) by {
        let cut = d.without_row(relation, id);
        assert forall|k: u64| #[trigger] cut.columns.contains_key(k) implies (
        cut.columns[k] matches Some(column) ==> meta::column_of(generated, table, column.row, k)
            == Some(column)) by {
            assert(k == id || d.columns.contains_key(k));
        }
    }
}

/// A recorded column whose row passes filters that name a relation is one of it
/// with a number that they ask for.
proof fn lemma_passing_column(
    generated: GeneratedCatalog,
    table: StaticCatalogTable,
    filters: Seq<CatalogRowFilter>,
    query: ColumnQueryView,
    column: ColumnMetaView,
    id: u64,
)
    requires
        filters::query_of(table, filters) == Some(query),
        selectors::row_passes_all(table, column.row, filters),
        meta::column_of(generated, table, column.row, id) == Some(column),
    ensures
        column.relation_oid == query.relation_oid,
        query.wanted.attnum matches Some(n) ==> n == column.attnum,
{
    let row = column.row;
    let relid = filters::number_of(table, "attrelid"@)->0;
    let number = filters::number_of(table, "attnum"@)->0;
    search::first_index_is_first(filters, filters::on_column(relid));
    search::first_index_is_first(filters, filters::on_column(number));
    search::first_index_is_first(table.columns@, columns::column_is("attrelid"@));
    search::first_index_is_first(table.columns@, columns::column_is("attnum"@));
    match search::first_index(filters, filters::on_column(relid)) {
        Some(j) => {
            assert(selectors::row_passes(table, row, filters[j]));
        },
        None => {},
    }
    match search::first_index(filters, filters::on_column(number)) {
        Some(j) => {
            assert(selectors::row_passes(table, row, filters[j]));
        },
        None => {},
    }
}

/// Whether an identifier is that of a compiled-in catalog or of an index of one.
pub open spec fn is_compiled_in(generated: GeneratedCatalog, oid: Oid) -> bool {
    ||| columns::table_of(generated, oid) is Some
    ||| search::first_with(catalog_indexes::all_indexes(), catalog_indexes::index_has(oid)) is Some
}

impl RequestView {
    /// Whether no recorded column that is asked for is hidden by another one at its
    /// place.
    pub open spec fn hides_no_column(self, s: SnapshotView) -> bool {
        forall|id: u64| #[trigger]
            s.columns.contains_key(id) && self.wants(s.columns[id].row) ==> index::last_of(
                index::ids_where(
                    s.columns,
                    index::column_at_place(s.columns[id].relation_oid.0, s.columns[id].attnum),
                ),
            ) == Some(id)
    }

    /// Whether a query for the columns of one relation misses no row that is asked
    /// for: none is replaced by one that is not, no recorded one is hidden, and,
    /// where the relation is compiled in, none that is filtered away takes the
    /// place of one that is asked for.
    pub open spec fn query_misses_none(self, s: SnapshotView, query: ColumnQueryView) -> bool {
        let all = self.everything();
        let compiled = all.compiled(self.table.rows@);
        let records = rows::record_rows::<ColumnMeta>(s.columns);
        let recorded = all.with_more(compiled, records);
        &&& self.gives_way(compiled, records)
        &&& self.all_made_give_way(recorded)
        &&& self.hides_no_column(s)
        &&& is_compiled_in(self.generated, query.relation_oid) ==> self.keeps_what_takes_places(
            recorded,
        )
    }
}

proof fn lemma_recorded(
    request: RequestView,
    s: SnapshotView,
    filters: Seq<CatalogRowFilter>,
    query: ColumnQueryView,
)
    requires
        is_query(request, filters, query),
        columns_as_read(request.generated, request.table, s),
        request.query_misses_none(s, query),
        request.compiled(request.table.rows@) == request.chosen(
            request.everything().compiled(request.table.rows@),
        ),
    ensures
        request.with_more(
            request.compiled(request.table.rows@),
            filters::current_columns(s, query.relation_oid.0, query.wanted.attnum),
        ) == request.chosen(
            request.everything().with_more(
                request.everything().compiled(request.table.rows@),
                rows::record_rows::<ColumnMeta>(s.columns),
            ),
        ),
{
    let compiled = request.everything().compiled(request.table.rows@);
    let records = rows::record_rows::<ColumnMeta>(s.columns);
    let current = filters::current_columns(s, query.relation_oid.0, query.wanted.attnum);
    filters::lemma_more_are_picked(request, compiled, records);
    assert(request.chosen(current) =~= request.chosen(records)) by {
        assert forall|id: u64| #[trigger] request.chosen(records).contains_key(id) implies
            request.chosen(current).contains_key(id) by {
            let column = s.columns[id];
            assert(s.columns.contains_key(id) && request.wants(column.row));
            lemma_passing_column(request.generated, request.table, filters, query, column, id);
            assert(filters::is_current(s, query.relation_oid.0, query.wanted.attnum, id));
        }
    }
}

proof fn lemma_found(
    request: RequestView,
    s: SnapshotView,
    filters: Seq<CatalogRowFilter>,
    query: ColumnQueryView,
)
    requires
        is_query(request, filters, query),
        request.table.oid.0 == PG_ATTRIBUTE_RELATION_OID,
        columns_as_read(request.generated, request.table, s),
        request.query_misses_none(s, query),
        request.compiled(request.table.rows@) == request.chosen(
            request.everything().compiled(request.table.rows@),
        ),
    ensures
        request.columns_found(s, query) == request.chosen(request.everything().gathered(s)),
{
    let generated = request.generated;
    let table = request.table;
    let recorded = request.everything().with_more(
        request.everything().compiled(table.rows@),
        rows::record_rows::<ColumnMeta>(s.columns),
    );
    let kept = request.chosen(recorded);
    lemma_recorded(request, s, filters, query);
    let p = Picking { request, recorded, dead: request.dead_places() };
    let all = ColumnScan {
        rows: recorded,
        taken: rows::places_of(generated, table, recorded),
    };
    let some = ColumnScan { rows: kept, taken: rows::places_of(generated, table, kept) };
    let at = lemma_catalog_at(generated, query.relation_oid);
    let of = lemma_index_at(query.relation_oid);
    let n = generated.tables@.len();
    let m = catalog_indexes::all_indexes().len();
    if !is_compiled_in(generated, query.relation_oid) {
        assert forall|place: (u32, i16)| !request.asks_for_made(place) by {
            if request.asks_for_made(place) {
                lemma_asked_place(request, filters, query, place);
            }
        }
    }
    column_filters::lemma_start(request, recorded);
    lemma_catalogs(p, filters, query, all, some, at, n);
    let some_more = if at < n {
        let relation = generated.tables@[at];
        request.with_system_columns(
            request.with_columns(some, relation, query.wanted, relation.columns@.len()),
            relation,
            query.wanted,
            synthetic::system_attributes().len(),
        )
    } else {
        some
    };
    lemma_indexes(
        p,
        filters,
        query,
        request.everything().with_catalog_columns(all, n),
        some_more,
        of,
        m,
    );
    assert(at < n ==> of == m) by {
        if at < n && of < m {
            assert(generated.tables@[at].oid != catalog_indexes::all_indexes()[of].oid);
        }
    }
}

/// The columns that filters find, where they name a relation, are those of all
/// rows of the catalog of columns that pass them, where no row that passes is
/// replaced by one that does not, no recorded column that passes is hidden by
/// another one at its place, and, for a relation that is compiled in, no row that
/// does not pass takes the place of one that does.
pub proof fn column_queries_pick_among_all_rows(
    generated: GeneratedCatalog,
    s: SnapshotView,
    table: StaticCatalogTable,
    filters: Seq<CatalogRowFilter>,
    query: ColumnQueryView,
)
    requires
        generated.wf(),
        table.oid.0 == PG_ATTRIBUTE_RELATION_OID,
        columns::table_of(generated, table.oid) == Some(table),
        filters::distinct_ids(table.rows@),
        columns_as_read(generated, table, s),
        filters::query_of(table, filters) == Some(query),
        filters::filtering(generated, table, filters).query_misses_none(s, query),
    ensures
        ({
            let request = filters::filtering(generated, table, filters);
            let all = request.everything();
            &&& rows::rows_asked_for(generated, s, table.oid, SelectorView::All)
                == rows::in_order(all.answer(s))
            &&& filters::rows_passing(generated, s, table.oid, filters) == rows::in_order(
                request.chosen(all.answer(s)),
            )
        }),
{
    let request = filters::filtering(generated, table, filters);
    let all = request.everything();
    let n = table.rows@.len() as int;
    assert(table.rows@.take(n) =~= table.rows@);
    validity::a_catalog_is_the_only_one(generated, table.oid);
    filters::lemma_compiled_among_all(generated, table, filters, n);
    lemma_found(request, s, filters, query);
    assert(request.columns_answer(s, query) =~= request.chosen(all.answer(s)));
    assert(filters.len() > 0);
}

} // verus!
