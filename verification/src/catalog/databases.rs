//! Databases: their names, their identifiers, and how one comes to be.

use vstd::prelude::*;

use crate::catalog::columns;
use crate::catalog::draft::{CatalogDraft, DraftView};
use crate::catalog::meta;
use crate::catalog::model::{
    CatalogRow, CatalogRowView, CatalogValue, CatalogValueView, GeneratedCatalog, StaticCatalogRow,
    StaticCatalogTable, PG_DATABASE_RELATION_OID, POSTGRES_DATABASE_OID,
    SYNTHETIC_DATABASE_OID_BASE, TEMPLATE0_DATABASE_OID, TEMPLATE1_DATABASE_OID,
};
use crate::catalog::rows;
use crate::catalog::selectors::SelectorView;
use crate::catalog::snapshot::{CatalogSnapshot, SnapshotView};
use crate::catalog::state;
use crate::catalog::state::{CatalogSession, CatalogState, StateView};
use crate::catalog::static_rows;
use crate::catalog::synthetic;
use crate::search;
use crate::text;
use crate::types::Oid;

verus! {

/// The name that a database goes by: without space around it, and that of the
/// usual database where nothing is left.
pub open spec fn canonical_name(name: Seq<char>) -> Seq<char> {
    let trimmed = text::trim(name);
    if trimmed.len() == 0 {
        "postgres"@
    } else {
        trimmed
    }
}

pub fn canonical_database_name(name: &str) -> (r: String)
    ensures
        r@ == canonical_name(name@),
{
    let chars = text::chars_of(name);
    let trimmed = text::trim_chars(&chars);
    if trimmed.len() == 0 {
        "postgres".to_owned()
    } else {
        text::string_of(&trimmed)
    }
}

/// The 32-bit FNV-1a hash of bytes.
pub open spec fn fnv1a(bytes: Seq<u8>) -> u32
    decreases bytes.len(),
{
    if bytes.len() == 0 {
        0x811c_9dc5
    } else {
        (((fnv1a(bytes.drop_last()) ^ bytes.last() as u32) * 0x0100_0193) % 0x1_0000_0000) as u32
    }
}

/// The identifier that a database with a name gets.
pub open spec fn given_oid(name: Seq<char>) -> Oid {
    if name == "template1"@ {
        Oid(TEMPLATE1_DATABASE_OID)
    } else if name == "template0"@ {
        Oid(TEMPLATE0_DATABASE_OID)
    } else if name == "postgres"@ {
        Oid(POSTGRES_DATABASE_OID)
    } else {
        Oid(
            SYNTHETIC_DATABASE_OID_BASE | (fnv1a(vstd::utf8::encode_utf8(name)) & 0x00ff_ffffu32),
        )
    }
}

pub fn synthetic_database_oid(name: &str) -> (r: Oid)
    ensures
        r == given_oid(name@),
{
    if text::same_text(name, "template1") {
        return Oid(TEMPLATE1_DATABASE_OID);
    }
    if text::same_text(name, "template0") {
        return Oid(TEMPLATE0_DATABASE_OID);
    }
    if text::same_text(name, "postgres") {
        return Oid(POSTGRES_DATABASE_OID);
    }
    let bytes = name.as_bytes();
    let mut hash: u32 = 0x811c_9dc5;
    let mut i: usize = 0;
    assert(bytes@.take(0) =~= seq![]);
    while i < bytes.len()
        invariant
            i <= bytes@.len(),
            hash == fnv1a(bytes@.take(i as int)),
        decreases bytes@.len() - i,
    {
        assert(bytes@.take(i + 1).drop_last() =~= bytes@.take(i as int));
        let mixed: u32 = hash ^ bytes[i] as u32;
        hash = ((mixed as u64 * 0x0100_0193) % 0x1_0000_0000) as u32;
        i += 1;
    }
    assert(bytes@.take(i as int) =~= bytes@);
    Oid(SYNTHETIC_DATABASE_OID_BASE | (hash & 0x00ff_ffff))
}

/// Whether a row of the catalog of databases is that of a name.
pub open spec fn is_database_named(table: StaticCatalogTable, name: Seq<char>) -> spec_fn(
    CatalogRowView,
) -> bool {
    |row: CatalogRowView| static_rows::row_names(table, row, "datname"@, name)
}

/// Whether a row of the catalog of databases is that of an identifier.
pub open spec fn is_database_with(
    generated: GeneratedCatalog,
    table: StaticCatalogTable,
    oid: Oid,
) -> spec_fn(CatalogRowView) -> bool {
    |row: CatalogRowView| meta::oid_at(generated, table, row, "oid"@) == Some(oid)
}

pub open spec fn database_rows(generated: GeneratedCatalog, s: SnapshotView) -> Seq<
    CatalogRowView,
> {
    rows::rows_asked_for(generated, s, Oid(PG_DATABASE_RELATION_OID), SelectorView::All)
}

/// The identifier of the first database with a name.
pub open spec fn oid_named(generated: GeneratedCatalog, s: SnapshotView, name: Seq<char>) -> Option<
    Oid,
> {
    match columns::table_of(generated, Oid(PG_DATABASE_RELATION_OID)) {
        Some(table) => match search::first_with(
            database_rows(generated, s),
            is_database_named(table, name),
        ) {
            Some(row) => meta::oid_at(generated, table, row, "oid"@),
            None => None,
        },
        None => None,
    }
}

/// The row of the first database with an identifier.
pub open spec fn row_with(generated: GeneratedCatalog, s: SnapshotView, oid: Oid) -> Option<
    CatalogRowView,
> {
    match columns::table_of(generated, Oid(PG_DATABASE_RELATION_OID)) {
        Some(table) => search::first_with(
            database_rows(generated, s),
            is_database_with(generated, table, oid),
        ),
        None => None,
    }
}

pub fn database_oid_by_name(generated: &GeneratedCatalog, s: &CatalogSnapshot, name: &str) -> (r:
    Option<Oid>)
    requires
        s@.wf(),
    ensures
        r == oid_named(*generated, s@, name@),
{
    let table = match columns::static_catalog_by_relation_oid(
        generated,
        Oid(PG_DATABASE_RELATION_OID),
    ) {
        Some(table) => table,
        None => return None,
    };
    let list = rows::catalog_rows(generated, s, Oid(PG_DATABASE_RELATION_OID));
    let ghost views = synthetic::row_views(list@);
    let ghost named = is_database_named(*table, name@);
    let mut i: usize = 0;
    while i < list.len()
        invariant
            i <= list.len(),
            views == synthetic::row_views(list@),
            views == database_rows(*generated, s@),
            named == is_database_named(*table, name@),
            columns::table_of(*generated, Oid(PG_DATABASE_RELATION_OID)) == Some(*table),
            forall|j: int| 0 <= j < i ==> !named(#[trigger] views[j]),
        decreases list.len() - i,
    {
        assert(views[i as int] == list@[i as int]@);
        if static_rows::catalog_row_identifier_matches(table, &list[i], "datname", name) {
            proof {
                search::first_index_at(views, named, i as int);
            }
            return meta::column_oid(generated, table, &list[i], "oid");
        }
        i += 1;
    }
    proof {
        search::first_index_none(views, named);
    }
    None
}

pub fn database_row_by_oid(generated: &GeneratedCatalog, s: &CatalogSnapshot, oid: Oid) -> (r:
    Option<CatalogRow>)
    requires
        s@.wf(),
    ensures
        match r {
            Some(row) => row_with(*generated, s@, oid) == Some(row@),
            None => row_with(*generated, s@, oid) is None,
        },
{
    let table = match columns::static_catalog_by_relation_oid(
        generated,
        Oid(PG_DATABASE_RELATION_OID),
    ) {
        Some(table) => table,
        None => return None,
    };
    let list = rows::catalog_rows(generated, s, Oid(PG_DATABASE_RELATION_OID));
    let ghost views = synthetic::row_views(list@);
    let ghost wanted = is_database_with(*generated, *table, oid);
    let mut i: usize = 0;
    while i < list.len()
        invariant
            i <= list.len(),
            views == synthetic::row_views(list@),
            views == database_rows(*generated, s@),
            wanted == is_database_with(*generated, *table, oid),
            columns::table_of(*generated, Oid(PG_DATABASE_RELATION_OID)) == Some(*table),
            forall|j: int| 0 <= j < i ==> !wanted(#[trigger] views[j]),
        decreases list.len() - i,
    {
        assert(views[i as int] == list@[i as int]@);
        let found = match meta::column_oid(generated, table, &list[i], "oid") {
            Some(row_oid) => row_oid == oid,
            None => false,
        };
        if found {
            proof {
                search::first_index_at(views, wanted, i as int);
            }
            return Some(list[i].clone());
        }
        i += 1;
    }
    proof {
        search::first_index_none(views, wanted);
    }
    None
}

/// Whether a compiled-in row is that of the database that others start from.
pub open spec fn is_template(generated: GeneratedCatalog, table: StaticCatalogTable) -> spec_fn(
    StaticCatalogRow,
) -> bool {
    |row: StaticCatalogRow|
        static_rows::static_oid(generated, table, row, "oid"@) == Some(
            Oid(TEMPLATE1_DATABASE_OID),
        )
}

/// The columns in which a new database differs from the one it starts from.
pub open spec fn database_columns(oid: Oid, name: Seq<char>) -> Seq<(Seq<char>, CatalogValueView)> {
    seq![
        ("oid"@, CatalogValueView::Oid(oid)),
        ("datname"@, CatalogValueView::Name(name)),
        ("datistemplate"@, CatalogValueView::Bool(false)),
        ("datallowconn"@, CatalogValueView::Bool(true)),
        ("dathasloginevt"@, CatalogValueView::Bool(false)),
        ("datconnlimit"@, CatalogValueView::Int32((-1) as i32)),
    ]
}

/// The row that a database starts from, under the identity of the new one.
pub open spec fn database_base(
    generated: GeneratedCatalog,
    table: StaticCatalogTable,
    oid: Oid,
) -> Option<CatalogRowView> {
    match search::first_with(table.rows@, is_template(generated, table)) {
        Some(template) => Some(
            CatalogRowView {
                row_id: oid.0 as u64,
                ..static_rows::named_row(generated, table, template)
            },
        ),
        None => None,
    }
}

/// The row of a new database.
pub open spec fn database_row(
    generated: GeneratedCatalog,
    table: StaticCatalogTable,
    oid: Oid,
    name: Seq<char>,
) -> Option<CatalogRowView> {
    match database_base(generated, table, oid) {
        Some(base) => Some(columns::with_values(table, base, database_columns(oid, name))),
        None => None,
    }
}

fn find_template(generated: &GeneratedCatalog, table: &StaticCatalogTable) -> (r: Option<
    &'static StaticCatalogRow,
>)
    ensures
        match r {
            Some(row) => search::first_with(table.rows@, is_template(*generated, *table)) == Some(
                *row,
            ),
            None => search::first_with(table.rows@, is_template(*generated, *table)) is None,
        },
{
    let ghost wanted = is_template(*generated, *table);
    let mut i: usize = 0;
    while i < table.rows.len()
        invariant
            i <= table.rows@.len(),
            wanted == is_template(*generated, *table),
            forall|j: int| 0 <= j < i ==> !wanted(#[trigger] table.rows@[j]),
        decreases table.rows@.len() - i,
    {
        let found = match static_rows::static_row_column_oid(
            generated,
            table,
            &table.rows[i],
            "oid",
        ) {
            Some(oid) => oid.0 == TEMPLATE1_DATABASE_OID,
            None => false,
        };
        if found {
            proof {
                search::first_index_at(table.rows@, wanted, i as int);
            }
            return Some(&table.rows[i]);
        }
        i += 1;
    }
    proof {
        search::first_index_none(table.rows@, wanted);
    }
    None
}

proof fn lemma_named_row(
    generated: GeneratedCatalog,
    table: StaticCatalogTable,
    row: StaticCatalogRow,
)
    ensures
        static_rows::named_row(generated, table, row).relation_oid == table.oid,
{
    search::last_with_has(generated.tables@, columns::table_has(table.oid));
}

pub fn synthetic_database_row(
    generated: &GeneratedCatalog,
    table: &StaticCatalogTable,
    oid: Oid,
    name: &str,
) -> (r: Option<CatalogRow>)
    ensures
        match r {
            Some(row) => database_row(*generated, *table, oid, name@) == Some(row@)
                && row.relation_oid == table.oid,
            None => database_row(*generated, *table, oid, name@) is None,
        },
{
    let template = match find_template(generated, table) {
        Some(row) => row,
        None => return None,
    };
    let mut row = static_rows::static_row_to_catalog_row(generated, table, template);
    row.row_id = oid.0 as u64;
    let ghost base = row@;
    let list = vec![
        synthetic::assignment("oid", CatalogValue::Oid(oid)),
        synthetic::assignment("datname", CatalogValue::Name(name.to_owned())),
        synthetic::assignment("datistemplate", CatalogValue::Bool(false)),
        synthetic::assignment("datallowconn", CatalogValue::Bool(true)),
        synthetic::assignment("dathasloginevt", CatalogValue::Bool(false)),
        synthetic::assignment("datconnlimit", CatalogValue::Int32(-1)),
    ];
    assert(synthetic::assignment_views(list@) =~= database_columns(oid, name@));
    synthetic::assign_all(table, &mut row, list);
    proof {
        lemma_named_row(*generated, *table, *template);
        columns::values_keep_the_identity(*table, base, database_columns(oid, name@));
    }
    Some(row)
}

/// The identifier of the database with a name, the one it has or the one that
/// it would get.
pub open spec fn database_oid(generated: GeneratedCatalog, s: SnapshotView, name: Seq<char>) -> Oid {
    match oid_named(generated, s, name) {
        Some(oid) => oid,
        None => given_oid(name),
    }
}

/// The row that has to be added for a database with a name to exist, if one
/// has to be added and can be.
pub open spec fn missing_row(
    generated: GeneratedCatalog,
    s: SnapshotView,
    name: Seq<char>,
) -> Option<CatalogRowView> {
    let oid = given_oid(name);
    if oid_named(generated, s, name) is Some || row_with(generated, s, oid) is Some {
        None
    } else {
        match columns::table_of(generated, Oid(PG_DATABASE_RELATION_OID)) {
            Some(table) => database_row(generated, table, oid, name),
            None => None,
        }
    }
}

/// The changes that add a database.
pub open spec fn addition(generated: GeneratedCatalog, row: CatalogRowView) -> DraftView {
    match columns::table_of(generated, Oid(PG_DATABASE_RELATION_OID)) {
        Some(table) => DraftView::empty().with_row(generated, table, row),
        None => DraftView::empty(),
    }
}

/// The committed state once a database with a name exists, for a session that
/// sees `seen`.
pub open spec fn with_database(
    generated: GeneratedCatalog,
    s: StateView,
    seen: SnapshotView,
    name: Seq<char>,
) -> StateView {
    match missing_row(generated, seen, name) {
        Some(row) => s.committed(addition(generated, row)),
        None => s,
    }
}

/// Sees to it that a database with a name exists, and tells its identifier.
pub fn ensure_database(
    generated: &GeneratedCatalog,
    catalog_state: &mut CatalogState,
    session: &mut CatalogSession,
    name: &str,
) -> (r: Oid)
    requires
        old(catalog_state).wf(*generated),
        old(session).wf(*generated),
        old(session)@.coherent(old(catalog_state)@.snapshot),
    ensures
        final(catalog_state).wf(*generated),
        final(session).wf(*generated),
        ({
            let seen = state::visible(old(catalog_state)@.snapshot, old(session)@.drafts);
            let wanted = canonical_name(name@);
            &&& r == database_oid(*generated, seen, wanted)
            &&& final(catalog_state)@ == with_database(
                *generated,
                old(catalog_state)@,
                seen,
                wanted,
            )
            &&& final(session)@ == old(session)@.refreshed(old(catalog_state)@.snapshot)
        }),
{
    let name = canonical_database_name(name);
    state::refresh_visible_snapshot(generated, catalog_state, session);
    let seen = state::visible_snapshot(generated, catalog_state, session);
    match database_oid_by_name(generated, seen, name.as_str()) {
        Some(oid) => return oid,
        None => {},
    }
    let oid = synthetic_database_oid(name.as_str());
    match database_row_by_oid(generated, seen, oid) {
        Some(_) => return oid,
        None => {},
    }
    let table = match columns::static_catalog_by_relation_oid(
        generated,
        Oid(PG_DATABASE_RELATION_OID),
    ) {
        Some(table) => table,
        None => return oid,
    };
    let row = match synthetic_database_row(generated, table, oid, name.as_str()) {
        Some(row) => row,
        None => return oid,
    };
    let mut changes = CatalogDraft::new();
    changes.upsert_catalog_row(generated, table, row);
    state::commit_catalog_draft(generated, catalog_state, &changes);
    oid
}

/// Whether a row of the catalog of databases has the columns that tell a name
/// and an identifier.
pub open spec fn tells_its_name(table: StaticCatalogTable, row: CatalogRowView) -> bool {
    &&& columns::row_value(table, row, "oid"@) is Some
    &&& columns::row_value(table, row, "datname"@) is Some
}

/// Whether the row that new databases start from has the columns that tell their
/// names and their identifiers.
pub open spec fn start_right(generated: GeneratedCatalog) -> bool {
    match columns::table_of(generated, Oid(PG_DATABASE_RELATION_OID)) {
        Some(table) => match search::first_with(table.rows@, is_template(generated, table)) {
            Some(template) => tells_its_name(
                table,
                static_rows::named_row(generated, table, template),
            ),
            None => true,
        },
        None => true,
    }
}

pub fn databases_start_right(generated: &GeneratedCatalog) -> (r: bool)
    ensures
        r == start_right(*generated),
{
    let table = match columns::static_catalog_by_relation_oid(
        generated,
        Oid(PG_DATABASE_RELATION_OID),
    ) {
        Some(table) => table,
        None => return true,
    };
    let template = match find_template(generated, table) {
        Some(template) => template,
        None => return true,
    };
    let row = static_rows::static_row_to_catalog_row(generated, table, template);
    columns::catalog_row_value(table, &row, "oid").is_some() && columns::catalog_row_value(
        table,
        &row,
        "datname",
    ).is_some()
}

proof fn lemma_new_row(
    generated: GeneratedCatalog,
    table: StaticCatalogTable,
    oid: Oid,
    name: Seq<char>,
)
    requires
        columns::table_of(generated, Oid(PG_DATABASE_RELATION_OID)) == Some(table),
        database_row(generated, table, oid, name) is Some,
        start_right(generated),
    ensures
        ({
            let row = database_row(generated, table, oid, name)->0;
            &&& row.relation_oid == table.oid
            &&& row.row_id == oid.0 as u64
            &&& is_database_named(table, name)(row)
            &&& is_database_with(generated, table, oid)(row)
        }),
{
    let base = database_base(generated, table, oid)->0;
    let list = database_columns(oid, name);
    let template = search::first_with(table.rows@, is_template(generated, table))->0;
    lemma_named_row(generated, table, template);
    columns::values_keep_the_identity(table, base, list);
    columns::assigned_columns_read_back(table, base, list, "oid"@);
    columns::assigned_columns_read_back(table, base, list, "datname"@);
    reveal_strlit("oid");
    reveal_strlit("datname");
    reveal_strlit("datistemplate");
    reveal_strlit("datallowconn");
    reveal_strlit("dathasloginevt");
    reveal_strlit("datconnlimit");
    assert("oid"@.len() == 3 && "datname"@.len() == 7);
    assert("datistemplate"@.len() == 13 && "datallowconn"@.len() == 12);
    assert("dathasloginevt"@.len() == 14 && "datconnlimit"@.len() == 12);
    columns::the_last_assignment_counts(
        list,
        "oid"@,
        columns::row_value(table, base, "oid"@)->0,
        0,
    );
    columns::the_last_assignment_counts(
        list,
        "datname"@,
        columns::row_value(table, base, "datname"@)->0,
        1,
    );
    let row = columns::with_values(table, base, list);
    assert(columns::row_value(table, row, "datname"@) == Some(CatalogValueView::Name(name)));
    assert(columns::row_value(table, row, "oid"@) == Some(CatalogValueView::Oid(oid)));
    assert(is_database_named(table, name)(row));
    assert(is_database_with(generated, table, oid)(row));
    assert(row.relation_oid == table.oid);
}

proof fn lemma_answer_with_row(
    generated: GeneratedCatalog,
    table: StaticCatalogTable,
    s: StateView,
    row: CatalogRowView,
)
    requires
        columns::table_of(generated, Oid(PG_DATABASE_RELATION_OID)) == Some(table),
        row.relation_oid == table.oid,
    ensures
        ({
            let request = rows::RequestView { generated, table, sel: SelectorView::All };
            let after = s.committed(addition(generated, row));
            request.answer(after.snapshot) == request.answer(s.snapshot).insert(row.row_id, row)
        }),
{
    search::first_index_is_first(
        generated.tables@,
        columns::table_has(Oid(PG_DATABASE_RELATION_OID)),
    );
    let request = rows::RequestView { generated, table, sel: SelectorView::All };
    let changes = addition(generated, row);
    let after = s.committed(changes);
    let key = (PG_DATABASE_RELATION_OID, row.row_id);
    assert(changes.compat.rows.contains_key(key));
    assert(changes != DraftView::empty());
    assert(after.snapshot.compat.rows =~= s.snapshot.compat.rows.insert(key, row));
    assert(after.snapshot.compat.tombstones =~= s.snapshot.compat.tombstones.remove(key));
    assert(request.answer(after.snapshot) =~= request.answer(s.snapshot).insert(row.row_id, row));
}

/// A blank name is that of the database that is always there.
pub proof fn a_blank_name_is_that_of_the_first_database(
    generated: GeneratedCatalog,
    s: SnapshotView,
    name: Seq<char>,
)
    requires
        text::trim(name).len() == 0,
    ensures
        canonical_name(name) == canonical_name("postgres"@),
        database_oid(generated, s, canonical_name(name)) == database_oid(
            generated,
            s,
            "postgres"@,
        ),
{
    reveal_strlit("postgres");
    let postgres = "postgres"@;
    assert(!text::is_space(postgres[0]) && !text::is_space(postgres.last()));
    assert(text::trim(postgres) == postgres);
}

/// Once a database exists, seeing to it again gives the same identifier and
/// changes nothing, neither the generation nor the rows, for a session without
/// changes of its own.
pub proof fn ensuring_again_changes_nothing(
    generated: GeneratedCatalog,
    s: StateView,
    name: Seq<char>,
)
    requires
        generated.wf(),
    ensures
        ({
            let after = with_database(generated, s, s.snapshot, name);
            let again = with_database(generated, after, after.snapshot, name);
            &&& database_oid(generated, after.snapshot, name) == database_oid(
                generated,
                s.snapshot,
                name,
            )
            &&& again == after
            &&& again.snapshot.generation == after.snapshot.generation
            &&& database_rows(generated, again.snapshot) == database_rows(
                generated,
                after.snapshot,
            )
        }),
{
    let after = with_database(generated, s, s.snapshot, name);
    let oid = given_oid(name);
    match missing_row(generated, s.snapshot, name) {
        Some(row) => {
            let table = columns::table_of(generated, Oid(PG_DATABASE_RELATION_OID))->0;
            lemma_new_row(generated, table, oid, name);
            lemma_answer_with_row(generated, table, s, row);
            let request = rows::RequestView {
                generated,
                table,
                sel: SelectorView::All,
            };
            let before = request.answer(s.snapshot);
            let now = request.answer(after.snapshot);
            assert(now == before.insert(oid.0 as u64, row));
            let named = is_database_named(table, name);
            let wanted = is_database_with(generated, table, oid);
            rows::first_in_order(before, named);
            rows::first_in_order(now, named);
            rows::first_in_order(now, wanted);
            assert(now.contains_key(oid.0 as u64) && now[oid.0 as u64] == row);
            assert(database_rows(generated, s.snapshot) == rows::in_order(before));
            assert(database_rows(generated, after.snapshot) == rows::in_order(now));
            let found = search::first_with(rows::in_order(now), named)->0;
            let id = choose|id: u64|
                {
                    &&& #[trigger] now.contains_key(id)
                    &&& now[id] == found
                    &&& named(found)
                    &&& forall|k: u64| #[trigger] now.contains_key(k) && named(now[k]) ==> id <= k
                };
            assert(id <= oid.0 as u64);
            if id != oid.0 as u64 {
                assert(before.contains_key(id) && before[id] == found);
                let first = search::first_with(rows::in_order(before), named)->0;
                let at = choose|at: u64|
                    {
                        &&& #[trigger] before.contains_key(at)
                        &&& before[at] == first
                        &&& named(first)
                        &&& forall|k: u64| #[trigger]
                            before.contains_key(k) && named(before[k]) ==> at <= k
                    };
                assert(at <= id);
                assert(now.contains_key(at) && now[at] == before[at]);
                assert(first == found);
            }
        },
        None => {},
    }
}

} // verus!
