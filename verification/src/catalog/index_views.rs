//! The view of indexes in words: where each lies, and the statement that makes
//! it.

use vstd::prelude::*;

use crate::catalog::columns;
use crate::catalog::meta;
use crate::catalog::model::{
    CatalogRow, CatalogRowView, CatalogValue, CatalogValueView, GeneratedCatalog, IndexRecord,
    IndexRecordView, StaticCatalogTable, PG_AM_RELATION_OID, PG_ATTRIBUTE_RELATION_OID,
    PG_CLASS_RELATION_OID, PG_INDEX_RELATION_OID, PG_NAMESPACE_RELATION_OID,
    PG_TABLESPACE_RELATION_OID,
};
use crate::catalog::rows;
use crate::catalog::selectors::{RowSelector, SelectorView};
use crate::catalog::snapshot::{CatalogSnapshot, SnapshotView};
use crate::catalog::synthetic;
use crate::search;
use crate::text;
use crate::types::Oid;

verus! {

/// The rows that the view is made of.
pub struct IndexSources {
    pub classes: Vec<CatalogRow>,
    pub namespaces: Vec<CatalogRow>,
    pub methods: Vec<CatalogRow>,
    pub tablespaces: Vec<CatalogRow>,
    pub attributes: Vec<CatalogRow>,
}

/// The rows that the view is made of.
pub struct IndexSourcesView {
    pub classes: Seq<CatalogRowView>,
    pub namespaces: Seq<CatalogRowView>,
    pub methods: Seq<CatalogRowView>,
    pub tablespaces: Seq<CatalogRowView>,
    pub attributes: Seq<CatalogRowView>,
}

impl View for IndexSources {
    type V = IndexSourcesView;

    open spec fn view(&self) -> IndexSourcesView {
        IndexSourcesView {
            classes: synthetic::row_views(self.classes@),
            namespaces: synthetic::row_views(self.namespaces@),
            methods: synthetic::row_views(self.methods@),
            tablespaces: synthetic::row_views(self.tablespaces@),
            attributes: synthetic::row_views(self.attributes@),
        }
    }
}

/// The rows of a state that the view is made of.
pub open spec fn sources(generated: GeneratedCatalog, s: SnapshotView) -> IndexSourcesView {
    IndexSourcesView {
        classes: rows::stored_rows(generated, s, Oid(PG_CLASS_RELATION_OID), SelectorView::All),
        namespaces: rows::stored_rows(
            generated,
            s,
            Oid(PG_NAMESPACE_RELATION_OID),
            SelectorView::All,
        ),
        methods: rows::stored_rows(generated, s, Oid(PG_AM_RELATION_OID), SelectorView::All),
        tablespaces: rows::stored_rows(
            generated,
            s,
            Oid(PG_TABLESPACE_RELATION_OID),
            SelectorView::All,
        ),
        attributes: rows::stored_rows(
            generated,
            s,
            Oid(PG_ATTRIBUTE_RELATION_OID),
            SelectorView::All,
        ),
    }
}

fn index_sources(generated: &GeneratedCatalog, s: &CatalogSnapshot) -> (r: IndexSources)
    requires
        s@.wf(),
    ensures
        r@ == sources(*generated, s@),
{
    IndexSources {
        classes: rows::stored_catalog_rows(
            generated,
            s,
            Oid(PG_CLASS_RELATION_OID),
            RowSelector::All,
        ),
        namespaces: rows::stored_catalog_rows(
            generated,
            s,
            Oid(PG_NAMESPACE_RELATION_OID),
            RowSelector::All,
        ),
        methods: rows::stored_catalog_rows(
            generated,
            s,
            Oid(PG_AM_RELATION_OID),
            RowSelector::All,
        ),
        tablespaces: rows::stored_catalog_rows(
            generated,
            s,
            Oid(PG_TABLESPACE_RELATION_OID),
            RowSelector::All,
        ),
        attributes: rows::stored_catalog_rows(
            generated,
            s,
            Oid(PG_ATTRIBUTE_RELATION_OID),
            RowSelector::All,
        ),
    }
}

/// Gives a row where it has an identifier.
pub open spec fn with_oid(generated: GeneratedCatalog, table: StaticCatalogTable, oid: Oid) -> spec_fn(
    CatalogRowView,
) -> Option<CatalogRowView> {
    |row: CatalogRowView|
        if meta::oid_at(generated, table, row, "oid"@) == Some(oid) {
            Some(row)
        } else {
            None
        }
}

/// The first row with an identifier.
pub open spec fn row_with_oid(
    generated: GeneratedCatalog,
    table: StaticCatalogTable,
    list: Seq<CatalogRowView>,
    oid: Oid,
) -> Option<CatalogRowView> {
    search::first_some(list, with_oid(generated, table, oid))
}

fn find_row(
    generated: &GeneratedCatalog,
    table: &StaticCatalogTable,
    list: &Vec<CatalogRow>,
    oid: Oid,
) -> (r: Option<CatalogRow>)
    ensures
        search::option_view(r) == row_with_oid(
            *generated,
            *table,
            synthetic::row_views(list@),
            oid,
        ),
{
    let read = |row: &CatalogRow| -> (v: Option<CatalogRow>)
        ensures
            search::option_view(v) == with_oid(*generated, *table, oid)(row@),
        {
            match meta::column_oid(generated, table, row, "oid") {
                Some(found) => if found == oid {
                    Some(row.clone())
                } else {
                    None
                },
                None => None,
            }
        };
    assert(search::views(list@) =~= synthetic::row_views(list@));
    search::find_map(list, read, Ghost(with_oid(*generated, *table, oid)))
}

/// The name of what the rows of a catalog tell under an identifier.
pub open spec fn name_told(
    generated: GeneratedCatalog,
    relation: u32,
    list: Seq<CatalogRowView>,
    oid: Option<Oid>,
    column: Seq<char>,
) -> Option<Seq<char>> {
    match (columns::table_of(generated, Oid(relation)), oid) {
        (Some(table), Some(oid)) => match row_with_oid(generated, table, list, oid) {
            Some(row) => meta::string_at(table, row, column),
            None => None,
        },
        _ => None,
    }
}

fn find_name(
    generated: &GeneratedCatalog,
    relation: u32,
    list: &Vec<CatalogRow>,
    oid: Option<Oid>,
    column: &str,
) -> (r: Option<String>)
    ensures
        search::option_view(r) == name_told(
            *generated,
            relation,
            synthetic::row_views(list@),
            oid,
            column@,
        ),
{
    match (columns::static_catalog_by_relation_oid(generated, Oid(relation)), oid) {
        (Some(table), Some(oid)) => match find_row(generated, table, list, oid) {
            Some(row) => meta::column_string(table, &row, column),
            None => None,
        },
        _ => None,
    }
}

/// Gives the name of the column that a row tells, where it lies at a place of a
/// relation.
pub open spec fn name_at(
    generated: GeneratedCatalog,
    table: StaticCatalogTable,
    relation_oid: Oid,
    attnum: i16,
) -> spec_fn(CatalogRowView) -> Option<Seq<char>> {
    |row: CatalogRowView|
        if rows::attribute_key(generated, table, row) == Some((relation_oid.0, attnum)) {
            meta::string_at(table, row, "attname"@)
        } else {
            None
        }
}

/// Gives the names of the columns of a relation by their places.
pub open spec fn column_names(
    generated: GeneratedCatalog,
    list: Seq<CatalogRowView>,
    relation_oid: Oid,
) -> spec_fn(i16) -> Option<Seq<char>> {
    |attnum: i16|
        match columns::table_of(generated, Oid(PG_ATTRIBUTE_RELATION_OID)) {
            Some(table) => search::first_some(
                list,
                name_at(generated, table, relation_oid, attnum),
            ),
            None => None,
        }
}

fn find_column_name(
    generated: &GeneratedCatalog,
    list: &Vec<CatalogRow>,
    relation_oid: Oid,
    attnum: i16,
) -> (r: Option<String>)
    ensures
        search::option_view(r) == column_names(
            *generated,
            synthetic::row_views(list@),
            relation_oid,
        )(attnum),
{
    let table = match columns::static_catalog_by_relation_oid(
        generated,
        Oid(PG_ATTRIBUTE_RELATION_OID),
    ) {
        Some(table) => table,
        None => return None,
    };
    let read = |row: &CatalogRow| -> (v: Option<String>)
        ensures
            search::option_view(v) == name_at(*generated, *table, relation_oid, attnum)(row@),
        {
            match rows::catalog_row_attribute_key(generated, table, row) {
                Some(k) => if k.0 == relation_oid.0 && k.1 == attnum {
                    meta::column_string(table, row, "attname")
                } else {
                    None
                },
                None => None,
            }
        };
    assert(search::views(list@) =~= synthetic::row_views(list@));
    search::find_map(list, read, Ghost(name_at(*generated, *table, relation_oid, attnum)))
}

/// The names of the columns that an index orders by.
pub open spec fn key_names(
    generated: GeneratedCatalog,
    list: Seq<CatalogRowView>,
    index: IndexRecordView,
) -> Seq<Seq<char>> {
    search::all_some(index.key_attnums, column_names(generated, list, index.relation_oid))
}

fn find_key_names(generated: &GeneratedCatalog, list: &Vec<CatalogRow>, index: &IndexRecord) -> (r:
    Vec<Vec<char>>)
    ensures
        text::all_chars(r@) == key_names(*generated, synthetic::row_views(list@), index@),
{
    let ghost keys = index.key_attnums@;
    let ghost f = column_names(*generated, synthetic::row_views(list@), index.relation_oid);
    let mut r: Vec<Vec<char>> = Vec::new();
    let mut i: usize = 0;
    assert(keys.take(0) =~= seq![]);
    assert(text::all_chars(r@) =~= seq![]);
    while i < index.key_attnums.len()
        invariant
            i <= index.key_attnums@.len(),
            keys == index.key_attnums@,
            f == column_names(*generated, synthetic::row_views(list@), index.relation_oid),
            text::all_chars(r@) == search::all_some(keys.take(i as int), f),
        decreases index.key_attnums@.len() - i,
    {
        assert(keys.take(i + 1).drop_last() =~= keys.take(i as int));
        match find_column_name(generated, list, index.relation_oid, index.key_attnums[i]) {
            Some(name) => {
                let ghost before = r@;
                let chars = text::chars_of(name.as_str());
                r.push(chars);
                assert(text::all_chars(r@) =~= text::all_chars(before).push(name@));
            },
            None => {},
        }
        i += 1;
    }
    assert(keys.take(i as int) =~= keys);
    r
}

/// The statement that makes an index.
pub open spec fn definition(
    unique: bool,
    name: Seq<char>,
    schema: Seq<char>,
    table: Seq<char>,
    method: Seq<char>,
    keys: Seq<Seq<char>>,
) -> Seq<char> {
    "CREATE "@ + (if unique {
        "UNIQUE "@
    } else {
        ""@
    }) + "INDEX "@ + name + " ON "@ + schema + "."@ + table + " USING "@ + method + " ("@
        + text::joined(keys, ", "@) + ")"@
}

fn write_definition(
    unique: bool,
    name: &str,
    schema: &str,
    table: &str,
    method: &str,
    keys: &Vec<Vec<char>>,
) -> (r: String)
    ensures
        r@ == definition(unique, name@, schema@, table@, method@, text::all_chars(keys@)),
{
    let mut r = text::chars_of("CREATE ");
    if unique {
        text::push_text(&mut r, "UNIQUE ");
    } else {
        text::push_text(&mut r, "");
    }
    text::push_text(&mut r, "INDEX ");
    text::push_text(&mut r, name);
    text::push_text(&mut r, " ON ");
    text::push_text(&mut r, schema);
    text::push_text(&mut r, ".");
    text::push_text(&mut r, table);
    text::push_text(&mut r, " USING ");
    text::push_text(&mut r, method);
    text::push_text(&mut r, " (");
    text::push_all(&mut r, &text::join(keys, ", "));
    text::push_text(&mut r, ")");
    text::string_of(&r)
}

/// The columns of the row of an index.
pub open spec fn index_view_columns(
    schema: Seq<char>,
    table: Seq<char>,
    name: Seq<char>,
    tablespace: Option<Seq<char>>,
    definition: Seq<char>,
) -> Seq<(Seq<char>, CatalogValueView)> {
    seq![
        ("schemaname"@, CatalogValueView::Name(schema)),
        ("tablename"@, CatalogValueView::Name(table)),
        ("indexname"@, CatalogValueView::Name(name)),
        (
            "tablespace"@,
            match tablespace {
                Some(tablespace) => CatalogValueView::Name(tablespace),
                None => CatalogValueView::Null,
            },
        ),
        ("indexdef"@, CatalogValueView::Text(definition)),
    ]
}

/// The row of an index, where its class row, that of its relation and the schema
/// of the relation are told. The access method is the usual one where none is
/// told; the tablespace is told where the index is not in the usual one.
pub open spec fn index_told(
    generated: GeneratedCatalog,
    from: IndexSourcesView,
    table: StaticCatalogTable,
    index: IndexRecordView,
) -> Option<CatalogRowView> {
    match columns::table_of(generated, Oid(PG_CLASS_RELATION_OID)) {
        Some(classes) => match (
            row_with_oid(generated, classes, from.classes, index.index_oid),
            row_with_oid(generated, classes, from.classes, index.relation_oid),
        ) {
            (Some(class), Some(relation)) => match (
                meta::string_at(classes, class, "relname"@),
                meta::string_at(classes, relation, "relname"@),
                name_told(
                    generated,
                    PG_NAMESPACE_RELATION_OID,
                    from.namespaces,
                    meta::oid_at(generated, classes, relation, "relnamespace"@),
                    "nspname"@,
                ),
            ) {
                (Some(name), Some(relation_name), Some(schema)) => {
                    let method = meta::or(
                        name_told(
                            generated,
                            PG_AM_RELATION_OID,
                            from.methods,
                            meta::oid_at(generated, classes, class, "relam"@),
                            "amname"@,
                        ),
                        "btree"@,
                    );
                    let tablespace = name_told(
                        generated,
                        PG_TABLESPACE_RELATION_OID,
                        from.tablespaces,
                        meta::oid_at(generated, classes, class, "reltablespace"@),
                        "spcname"@,
                    );
                    let keys = key_names(generated, from.attributes, index);
                    Some(
                        columns::with_values(
                            table,
                            synthetic::empty_row(table, index.index_oid.0 as u64),
                            index_view_columns(
                                schema,
                                relation_name,
                                name,
                                tablespace,
                                definition(
                                    index.is_unique,
                                    name,
                                    schema,
                                    relation_name,
                                    method,
                                    keys,
                                ),
                            ),
                        ),
                    )
                },
                _ => None,
            },
            _ => None,
        },
        None => None,
    }
}

fn tell_index(
    generated: &GeneratedCatalog,
    from: &IndexSources,
    table: &StaticCatalogTable,
    index: &IndexRecord,
) -> (r: Option<CatalogRow>)
    ensures
        search::option_view(r) == index_told(*generated, from@, *table, index@),
{
    let classes = match columns::static_catalog_by_relation_oid(
        generated,
        Oid(PG_CLASS_RELATION_OID),
    ) {
        Some(classes) => classes,
        None => return None,
    };
    let class = match find_row(generated, classes, &from.classes, index.index_oid) {
        Some(class) => class,
        None => return None,
    };
    let relation = match find_row(generated, classes, &from.classes, index.relation_oid) {
        Some(relation) => relation,
        None => return None,
    };
    let name = match meta::column_string(classes, &class, "relname") {
        Some(name) => name,
        None => return None,
    };
    let relation_name = match meta::column_string(classes, &relation, "relname") {
        Some(relation_name) => relation_name,
        None => return None,
    };
    let schema = match find_name(
        generated,
        PG_NAMESPACE_RELATION_OID,
        &from.namespaces,
        meta::column_oid(generated, classes, &relation, "relnamespace"),
        "nspname",
    ) {
        Some(schema) => schema,
        None => return None,
    };
    let method = match find_name(
        generated,
        PG_AM_RELATION_OID,
        &from.methods,
        meta::column_oid(generated, classes, &class, "relam"),
        "amname",
    ) {
        Some(method) => method,
        None => "btree".to_owned(),
    };
    let tablespace = match find_name(
        generated,
        PG_TABLESPACE_RELATION_OID,
        &from.tablespaces,
        meta::column_oid(generated, classes, &class, "reltablespace"),
        "spcname",
    ) {
        Some(tablespace) => CatalogValue::Name(tablespace),
        None => CatalogValue::Null,
    };
    let keys = find_key_names(generated, &from.attributes, index);
    let told = write_definition(
        index.is_unique,
        name.as_str(),
        schema.as_str(),
        relation_name.as_str(),
        method.as_str(),
        &keys,
    );
    let ghost expected = index_view_columns(
        schema@,
        relation_name@,
        name@,
        name_told(
            *generated,
            PG_TABLESPACE_RELATION_OID,
            from@.tablespaces,
            meta::oid_at(*generated, *classes, class@, "reltablespace"@),
            "spcname"@,
        ),
        told@,
    );
    let mut row = synthetic::empty_catalog_row(table, index.index_oid.0 as u64);
    let list = vec![
        synthetic::assignment("schemaname", CatalogValue::Name(schema)),
        synthetic::assignment("tablename", CatalogValue::Name(relation_name)),
        synthetic::assignment("indexname", CatalogValue::Name(name)),
        synthetic::assignment("tablespace", tablespace),
        synthetic::assignment("indexdef", CatalogValue::Text(told)),
    ];
    assert(synthetic::assignment_views(list@) =~= expected);
    synthetic::assign_all(table, &mut row, list);
    Some(row)
}

/// The row of an index in a state.
pub open spec fn pg_indexes_row(
    generated: GeneratedCatalog,
    s: SnapshotView,
    table: StaticCatalogTable,
    index: IndexRecordView,
) -> Option<CatalogRowView> {
    index_told(generated, sources(generated, s), table, index)
}

pub fn synthetic_pg_indexes_row(
    generated: &GeneratedCatalog,
    s: &CatalogSnapshot,
    table: &StaticCatalogTable,
    index: &IndexRecord,
) -> (r: Option<CatalogRow>)
    requires
        s@.wf(),
    ensures
        search::option_view(r) == pg_indexes_row(*generated, s@, *table, index@),
{
    let from = index_sources(generated, s);
    tell_index(generated, &from, table, index)
}

/// The rows of all indexes in a state, in the order of the catalog of indexes.
pub open spec fn pg_indexes_rows(
    generated: GeneratedCatalog,
    s: SnapshotView,
    table: StaticCatalogTable,
) -> Seq<Option<CatalogRowView>> {
    let list = rows::stored_rows(generated, s, Oid(PG_INDEX_RELATION_OID), SelectorView::All);
    Seq::new(
        list.len(),
        |i: int|
            match meta::index_of_row(generated, list[i]) {
                Some(index) => pg_indexes_row(generated, s, table, index),
                None => None,
            },
    )
}

pub fn synthetic_pg_indexes_rows(
    generated: &GeneratedCatalog,
    s: &CatalogSnapshot,
    table: &StaticCatalogTable,
) -> (r: Vec<Option<CatalogRow>>)
    requires
        s@.wf(),
    ensures
        r@.len() == pg_indexes_rows(*generated, s@, *table).len(),
        forall|i: int|
            0 <= i < r@.len() ==> search::option_view(#[trigger] r@[i]) == pg_indexes_rows(
                *generated,
                s@,
                *table,
            )[i],
{
    let from = index_sources(generated, s);
    let list = rows::stored_catalog_rows(
        generated,
        s,
        Oid(PG_INDEX_RELATION_OID),
        RowSelector::All,
    );
    let ghost all = pg_indexes_rows(*generated, s@, *table);
    let mut r: Vec<Option<CatalogRow>> = Vec::new();
    let mut i: usize = 0;
    while i < list.len()
        invariant
            i <= list@.len(),
            from@ == sources(*generated, s@),
            all == pg_indexes_rows(*generated, s@, *table),
            synthetic::row_views(list@) == rows::stored_rows(
                *generated,
                s@,
                Oid(PG_INDEX_RELATION_OID),
                SelectorView::All,
            ),
            r@.len() == i,
            forall|j: int| 0 <= j < i ==> search::option_view(#[trigger] r@[j]) == all[j],
        decreases list@.len() - i,
    {
        assert(synthetic::row_views(list@)[i as int] == list@[i as int]@);
        let row = match meta::pg_index_record_from_row(generated, &list[i]) {
            Some(index) => tell_index(generated, &from, table, &index),
            None => None,
        };
        assert(search::option_view(row) == all[i as int]);
        r.push(row);
        i += 1;
    }
    assert(all.len() == synthetic::row_views(list@).len());
    r
}

} // verus!
