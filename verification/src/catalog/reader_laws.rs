//! What a catalog's values and rows are read as, whether they are compiled in, put as
//! texts or put as they are.

use vstd::prelude::*;

use crate::catalog::columns;
use crate::catalog::databases;
use crate::catalog::draft::DraftView;
use crate::catalog::edit;
use crate::catalog::meta;
use crate::catalog::model;
use crate::catalog::model::{
    CatalogRowView, CatalogValueView, FloatReadings, GeneratedCatalog, StaticCatalogRow,
    StaticCatalogTable, StaticCatalogValue,
};
use crate::catalog::relations;
use crate::catalog::rows;
use crate::catalog::selectors;
use crate::catalog::selectors::{CatalogRowFilter, SelectorView};
use crate::catalog::snapshot::SnapshotView;
use crate::catalog::state;
use crate::catalog::state::{SessionView, StateView};
use crate::catalog::static_rows;
use crate::catalog::value_laws;
use crate::catalog::values;
use crate::search;
use crate::text;
use crate::types::Oid;

verus! {

/// A number is read from a value of any width that holds it, and from its text; one
/// that does not fit, and one below zero where an identifier is asked for, is not read.
pub proof fn numbers_are_read_from_any_width(generated: GeneratedCatalog, small: i16, n: i32)
    ensures
        columns::i16_of(CatalogValueView::Int16(small)) == Some(small),
        columns::i32_of(CatalogValueView::Int16(small)) == Some(small as i32),
        columns::i32_of(CatalogValueView::Int32(n)) == Some(n),
        i16::MIN <= n <= i16::MAX ==> columns::i16_of(CatalogValueView::Int32(n)) == Some(n as i16),
        n < i16::MIN || i16::MAX < n ==> columns::i16_of(CatalogValueView::Int32(n)) is None,
        columns::i32_of(CatalogValueView::Raw(text::decimal_int(n as int))) == Some(n),
        columns::i16_of(CatalogValueView::Raw(text::decimal_int(small as int))) == Some(small),
        small >= 0 ==> columns::oid_of(generated, CatalogValueView::Int16(small)) == Some(
            Oid(small as u32),
        ),
        small < 0 ==> columns::oid_of(generated, CatalogValueView::Int16(small)) is None,
        n >= 0 ==> columns::oid_of(generated, CatalogValueView::Int32(n)) == Some(Oid(n as u32)),
        n < 0 ==> columns::oid_of(generated, CatalogValueView::Int32(n)) is None,
{
    value_laws::numbers_are_read_back(n as int);
    value_laws::numbers_are_read_back(small as int);
}

/// What is nothing is read as nothing, whatever is asked for.
pub proof fn nothing_is_read_as_nothing(generated: GeneratedCatalog)
    ensures
        columns::oid_of(generated, CatalogValueView::Null) is None,
        columns::bool_of(CatalogValueView::Null) is None,
        columns::i16_of(CatalogValueView::Null) is None,
        columns::i32_of(CatalogValueView::Null) is None,
        columns::u8_of(CatalogValueView::Null) is None,
        columns::string_of(CatalogValueView::Null) is None,
        columns::single_of(generated.floats, CatalogValueView::Null) is None,
        columns::oid_vector_of(CatalogValueView::Null) is None,
        meta::int2_vector_of(CatalogValueView::Null) is None,
{
}

/// A text is read as it is from every value that holds one, and a truth value from
/// what it is written as.
pub proof fn texts_are_read_as_they_are(
    s: Seq<char>,
    b: bool,
    c: u8,
    bits: u32,
    floats: FloatReadings,
)
    ensures
        columns::string_of(CatalogValueView::Name(s)) == Some(s),
        columns::string_of(CatalogValueView::Text(s)) == Some(s),
        columns::string_of(CatalogValueView::Raw(s)) == Some(s),
        columns::string_of(CatalogValueView::Bool(b)) is None,
        columns::bool_of(CatalogValueView::Bool(b)) == Some(b),
        columns::bool_of(CatalogValueView::Raw("t"@)) == Some(true),
        columns::bool_of(CatalogValueView::Raw("f"@)) == Some(false),
        columns::u8_of(CatalogValueView::Char(c)) == Some(c),
        columns::single_of(floats, CatalogValueView::Float32(bits)) == Some(bits),
        columns::single_of(floats, CatalogValueView::Raw(s)) == floats.single_of(s),
{
    value_laws::truths_go_by_these_words("t"@);
    value_laws::truths_go_by_these_words("f"@);
}

/// A list is read from a value that holds one, and from the words that it is written
/// as.
pub proof fn lists_are_read(oids: Seq<Oid>, numbers: Seq<i16>, floats: FloatReadings)
    ensures
        columns::oid_vector_of(CatalogValueView::OidVector(oids)) == Some(oids),
        meta::int2_vector_of(CatalogValueView::Int2Vector(numbers)) == Some(numbers),
        columns::oid_vector_of(
            CatalogValueView::Text(text::joined(value_laws::oid_words(oids), " "@)),
        ) == Some(oids),
        meta::int2_vector_of(
            CatalogValueView::Text(text::joined(value_laws::int2_words(numbers), " "@)),
        ) == Some(numbers),
{
    value_laws::lemma_lists(oids, numbers);
}

/// An identifier that is written as a text is its number, or that of the function, the
/// type or else the catalog with the name; where none has it, there is none.
pub proof fn identifiers_go_by_number_or_name(
    generated: GeneratedCatalog,
    n: u32,
    s: Seq<char>,
    i: int,
)
    requires
        values::as_u32(s) is None,
        s != "-"@,
    ensures
        columns::oid_of(generated, CatalogValueView::Raw("-"@)) == Some(Oid(0)),
        columns::oid_of(generated, CatalogValueView::Raw(text::decimal_int(n as int))) == Some(
            Oid(n),
        ),
        0 <= i < generated.procs@.len() && generated.procs@[i].name@ == text::lower(text::trim(s))
            && (forall|j: int|
            0 <= j < i ==> (#[trigger] generated.procs@[j]).name@ != text::lower(text::trim(s)))
            ==> columns::oid_of(generated, CatalogValueView::Raw(s)) == Some(
            generated.procs@[i].oid,
        ),
        (forall|j: int|
            0 <= j < generated.procs@.len() ==> (#[trigger] generated.procs@[j]).name@
                != text::lower(text::trim(s))) && 0 <= i < generated.types@.len()
            && generated.types@[i].name@ == text::lower(text::trim(s)) && (forall|j: int|
            0 <= j < i ==> (#[trigger] generated.types@[j]).name@ != text::lower(text::trim(s)))
            ==> columns::oid_of(generated, CatalogValueView::Raw(s)) == Some(
            generated.types@[i].oid,
        ),
{
    reveal_strlit("-");
    value_laws::numbers_are_read_back(n as int);
    let d = text::decimal_int(n as int);
    if d == "-"@ {
        assert(d.len() == 1 && d[0] == '-');
        text::decimal_form_is_digits(n as int);
        assert(text::parsed_int(d, 0, u32::MAX as int) is None);
    }
    let name = model::normalized(s);
    let p = columns::proc_is(name);
    let t = columns::type_is(name);
    if 0 <= i < generated.procs@.len() && generated.procs@[i].name@ == name && (forall|j: int|
        0 <= j < i ==> (#[trigger] generated.procs@[j]).name@ != name) {
        search::first_index_at(generated.procs@, p, i);
    }
    if forall|j: int|
        0 <= j < generated.procs@.len() ==> (#[trigger] generated.procs@[j]).name@ != name {
        search::first_index_none(generated.procs@, p);
        if 0 <= i < generated.types@.len() && generated.types@[i].name@ == name && (forall|j: int|
            0 <= j < i ==> (#[trigger] generated.types@[j]).name@ != name) {
            search::first_index_at(generated.types@, t, i);
        }
    }
}

/// A compiled-in row is read the same before and after its values are converted, but
/// for rows of functions, which are completed.
pub proof fn compiled_in_rows_are_read_alike(
    generated: GeneratedCatalog,
    table: StaticCatalogTable,
    row: StaticCatalogRow,
    name: Seq<char>,
)
    requires
        table.oid.0 != 1255,
        row.values@.len() == table.columns@.len(),
    ensures
        ({
            let told = static_rows::static_row(generated, table, row);
            &&& told.relation_oid == table.oid
            &&& told.row_id == row.row_id
            &&& told.values.len() == row.values@.len()
            &&& columns::row_value(table, told, name) == static_rows::static_column(
                generated,
                table,
                row,
                name,
            )
            &&& meta::oid_at(generated, table, told, name) == static_rows::static_oid(
                generated,
                table,
                row,
                name,
            )
            &&& meta::bool_at(table, told, name) == static_rows::static_bool(
                generated,
                table,
                row,
                name,
            )
            &&& meta::i16_at(table, told, name) == static_rows::static_i16(
                generated,
                table,
                row,
                name,
            )
        }),
        forall|i: int|
            0 <= i < row.values@.len() ==> match #[trigger] row.values@[i] {
                StaticCatalogValue::Null => static_rows::static_row(
                    generated,
                    table,
                    row,
                ).values[i] is Null,
                StaticCatalogValue::Raw(s) => static_rows::static_row(
                    generated,
                    table,
                    row,
                ).values[i] == values::static_text_value(
                    generated.floats,
                    table.columns@[i],
                    s@,
                ),
            },
{
    let told = static_rows::static_row(generated, table, row);
    assert(told.values == static_rows::converted_values(generated, table, row));
    search::first_index_is_first(table.columns@, columns::column_is(name));
}

/// A compiled-in row is selected by what it says before its values are converted as by
/// what it says after.
pub proof fn compiled_in_rows_are_selected_alike(
    generated: GeneratedCatalog,
    table: StaticCatalogTable,
    row: StaticCatalogRow,
    sel: SelectorView,
)
    requires
        table.oid.0 != 1255,
        row.values@.len() == table.columns@.len(),
        !(sel is PrimaryKeyOf),
        !(sel is ClassNamed),
        !(sel is ClassNamedIn),
    ensures
        sel is Filters || (selectors::selects_static(generated, table, row, sel)
            <==> selectors::selects(
            generated,
            table,
            static_rows::static_row(generated, table, row),
            sel,
        )),
{
    compiled_in_rows_are_read_alike(generated, table, row, "oid"@);
    compiled_in_rows_are_read_alike(generated, table, row, "attrelid"@);
    compiled_in_rows_are_read_alike(generated, table, row, "attnum"@);
    compiled_in_rows_are_read_alike(generated, table, row, "indexrelid"@);
    compiled_in_rows_are_read_alike(generated, table, row, "indrelid"@);
    compiled_in_rows_are_read_alike(generated, table, row, "indisunique"@);
    compiled_in_rows_are_read_alike(generated, table, row, "indisvalid"@);
    compiled_in_rows_are_read_alike(generated, table, row, "indisready"@);
    compiled_in_rows_are_read_alike(generated, table, row, "indislive"@);
    compiled_in_rows_are_read_alike(generated, table, row, "conrelid"@);
}

/// Filters pass a compiled-in row where they pass it once its values are converted.
pub proof fn filters_pass_compiled_in_rows_alike(
    generated: GeneratedCatalog,
    table: StaticCatalogTable,
    row: StaticCatalogRow,
    filters: Seq<CatalogRowFilter>,
)
    requires
        table.oid.0 != 1255,
        row.values@.len() == table.columns@.len(),
    ensures
        selectors::static_passes_all(generated, table, row, filters) <==> selectors::row_passes_all(
            table,
            static_rows::static_row(generated, table, row),
            filters,
        ),
{
    let told = static_rows::static_row(generated, table, row);
    assert(told.values == static_rows::converted_values(generated, table, row));
    assert forall|j: int| 0 <= j < filters.len() implies (selectors::static_passes(
        generated,
        table,
        row,
        #[trigger] filters[j],
    ) <==> selectors::row_passes(table, told, filters[j])) by {
        let i = filters[j].attnum - 1;
        if 0 <= i < row.values@.len() {
            lemma_not_null(generated, table, row, i);
        }
    }
    if selectors::static_passes_all(generated, table, row, filters) {
        assert forall|j: int| 0 <= j < filters.len() implies selectors::row_passes(
            table,
            told,
            #[trigger] filters[j],
        ) by {
            assert(selectors::static_passes(generated, table, row, filters[j]));
        }
    }
    if selectors::row_passes_all(table, told, filters) {
        assert forall|j: int| 0 <= j < filters.len() implies selectors::static_passes(
            generated,
            table,
            row,
            #[trigger] filters[j],
        ) by {
            assert(selectors::row_passes(table, told, filters[j]));
        }
    }
}

proof fn lemma_not_null(
    generated: GeneratedCatalog,
    table: StaticCatalogTable,
    row: StaticCatalogRow,
    i: int,
)
    requires
        0 <= i < row.values@.len(),
    ensures
        row.values@[i] is Null <==> values::static_value(
            generated.floats,
            table.columns@[i],
            row.values@[i],
        ) is Null,
{
}

/// A row that has a column of identifiers is known by the one it holds there.
pub proof fn a_put_row_is_known_by_its_identifier(
    generated: GeneratedCatalog,
    table: StaticCatalogTable,
    list: Seq<CatalogValueView>,
    at: int,
    oid: Oid,
)
    requires
        0 <= at < table.columns@.len(),
        table.columns@[at].name@ == "oid"@,
        forall|j: int| 0 <= j < at ==> (#[trigger] table.columns@[j]).name@ != "oid"@,
    ensures
        at < list.len() && list[at] == CatalogValueView::Oid(oid) ==> edit::own_row_id(
            generated,
            table,
            list,
        ) == Some(oid.0 as u64),
        at >= list.len() ==> edit::own_row_id(generated, table, list) is None,
{
    search::first_index_at(table.columns@, columns::column_is("oid"@), at);
}

/// Texts that are put are read column by column, and what is nothing stays nothing.
pub proof fn put_texts_are_read_column_by_column(
    floats: FloatReadings,
    table: StaticCatalogTable,
    texts: Seq<Option<Seq<char>>>,
    i: int,
)
    requires
        0 <= i < texts.len(),
    ensures
        edit::values_of_texts(floats, table, texts).len() == texts.len(),
        texts[i] is None ==> edit::values_of_texts(floats, table, texts)[i] is Null,
        texts[i] matches Some(s) ==> edit::values_of_texts(floats, table, texts)[i]
            == values::text_value(floats, table.columns@[i], s),
{
}

/// What is refused is told: a catalog that is not there, a row of the wrong width, and
/// a relation that is not there.
pub proof fn refusals_say_what_is_wrong(
    oid: Oid,
    table: StaticCatalogTable,
    given: nat,
    name: Seq<char>,
)
    ensures
        edit::no_relation_message(oid) == "generated catalog relation "@ + text::decimal_int(
            oid.0 as int,
        ) + " does not exist"@,
        edit::wrong_width_message(table, given) == "catalog row for "@ + table.name@ + " has "@
            + text::decimal_int(given as int) + " values but "@ + text::decimal_int(
            table.columns@.len() as int,
        ) + " columns"@,
        relations::missing_relation_message(name) == "relation \""@ + text::lower(text::trim(name))
            + "\" does not exist"@,
{
}

/// Generations and revisions go up, one by one, and a generation never goes back.
pub proof fn generations_go_up(n: u64, session: SessionView)
    ensures
        n < u64::MAX ==> state::next_generation(n) == n + 1,
        state::next_generation(n) >= n,
        state::next_revision(n) != n,
        n < u64::MAX ==> state::next_revision(n) == n + 1,
        session.invalidated().cache is None,
        session.invalidated().drafts == session.drafts,
        session.invalidated().explicit == session.explicit,
        session.invalidated().revision != session.revision,
        StateView::initial().snapshot.generation == 1,
        SessionView::initial().drafts.len() == 0,
        !SessionView::initial().explicit,
        SessionView::initial().cache is None,
{
}

/// A session that is brought up to date sees what its changes make of the state, and
/// keeps its changes.
pub proof fn a_refreshed_session_sees_the_state(session: SessionView, s: SnapshotView)
    requires
        session.coherent(s),
    ensures
        session.refreshed(s).coherent(s),
        session.refreshed(s).drafts == session.drafts,
        session.refreshed(s).explicit == session.explicit,
        session.refreshed(s).revision == session.revision,
        (exists|i: int|
            0 <= i < session.drafts.len() && #[trigger] session.drafts[i] != DraftView::empty())
            ==> session.refreshed(s).cache is Some && session.refreshed(s).cache->0.snapshot
            == state::visible(s, session.drafts),
{
}

/// A database that is found by a name has a row that says so, and is known by the
/// identifier of the first such row.
pub proof fn a_database_found_has_the_name(
    generated: GeneratedCatalog,
    s: SnapshotView,
    table: StaticCatalogTable,
    name: Seq<char>,
)
    requires
        columns::table_of(generated, Oid(1262)) == Some(table),
    ensures
        databases::oid_named(generated, s, name) matches Some(oid) ==> {
            &&& databases::database_oid(generated, s, name) == oid
            &&& databases::missing_row(generated, s, name) is None
            &&& exists|row: CatalogRowView|
                {
                    &&& #[trigger] rows::rows_asked_for(
                        generated,
                        s,
                        Oid(1262),
                        SelectorView::All,
                    ).contains(row)
                    &&& columns::row_value(table, row, "datname"@) matches Some(v)
                    &&& columns::string_of(v) matches Some(held)
                    &&& held == name || text::lower(text::trim(held)) == name
                    &&& meta::oid_at(generated, table, row, "oid"@) == Some(oid)
                }
        },
        databases::oid_named(generated, s, name) is None ==> databases::database_oid(
            generated,
            s,
            name,
        ) == databases::given_oid(name),
        databases::missing_row(generated, s, name) matches Some(row) ==> row.row_id
            == databases::given_oid(name).0 && databases::row_with(
            generated,
            s,
            databases::given_oid(name),
        ) is None,
{
    let list = databases::database_rows(generated, s);
    let p = databases::is_database_named(table, name);
    search::first_index_is_first(list, p);
    match search::first_index(list, p) {
        Some(i) => {
            assert(p(list[i]));
            assert(list.contains(list[i]));
        },
        None => {},
    }
    let oid = databases::given_oid(name);
    match databases::database_base(generated, table, oid) {
        Some(base) => {
            columns::values_keep_the_identity(table, base, databases::database_columns(oid, name));
        },
        None => {},
    }
}

/// A row type that is made for a catalog without one has an identifier that tells the
/// catalog, above those that are compiled in.
pub proof fn made_row_types_tell_their_catalogs(a: StaticCatalogTable, b: StaticCatalogTable)
    requires
        a.oid.0 < 0x1000_0000,
        b.oid.0 < 0x1000_0000,
    ensures
        a.rowtype_oid.0 != 0 ==> static_rows::rowtype_of(a) == a.rowtype_oid,
        a.rowtype_oid.0 == 0 ==> static_rows::rowtype_of(a).0 >= 0xF000_0000,
        a.rowtype_oid.0 == 0 && b.rowtype_oid.0 == 0 && a.oid != b.oid ==> static_rows::rowtype_of(a)
            != static_rows::rowtype_of(b),
{
    let x = a.oid.0;
    let y = b.oid.0;
    assert(0xF000_0000u32 | x >= 0xF000_0000u32) by (bit_vector);
    assert(x < 0x1000_0000u32 && y < 0x1000_0000u32 && x != y ==> 0xF000_0000u32 | x != 0xF000_0000u32
        | y) by (bit_vector);
}

} // verus!
