//! The columns of catalog rows by name, and what their values stand for.

use vstd::prelude::*;

use crate::catalog::model;
use crate::catalog::model::{
    CatalogRow, CatalogRowView, CatalogValue, CatalogValueView, FloatReadings, GeneratedCatalog,
    PgProcRecord, PgTypeRecord, StaticCatalogColumn, StaticCatalogTable, INVALID_OID,
};
use crate::catalog::values;
use crate::search;
use crate::text;
use crate::types::Oid;

verus! {

pub open spec fn column_is(name: Seq<char>) -> spec_fn(StaticCatalogColumn) -> bool {
    |c: StaticCatalogColumn| c.name@ == name
}

/// The place of the first column with a name.
pub open spec fn position(table: StaticCatalogTable, name: Seq<char>) -> Option<int> {
    search::first_index(table.columns@, column_is(name))
}

pub fn column_position(table: &StaticCatalogTable, name: &str) -> (r: Option<usize>)
    ensures
        match r {
            Some(i) => position(*table, name@) == Some(i as int) && i < table.columns@.len(),
            None => position(*table, name@) is None,
        },
{
    let mut i: usize = 0;
    while i < table.columns.len()
        invariant
            i <= table.columns@.len(),
            forall|j: int| 0 <= j < i ==> !column_is(name@)(#[trigger] table.columns@[j]),
        decreases table.columns@.len() - i,
    {
        if text::same_text(table.columns[i].name, name) {
            proof {
                search::first_index_at(table.columns@, column_is(name@), i as int);
            }
            return Some(i);
        }
        i += 1;
    }
    proof {
        search::first_index_none(table.columns@, column_is(name@));
    }
    None
}

/// The value of a row in the column with a name.
pub open spec fn row_value(
    table: StaticCatalogTable,
    row: CatalogRowView,
    name: Seq<char>,
) -> Option<CatalogValueView> {
    match position(table, name) {
        Some(i) if i < row.values.len() => Some(row.values[i]),
        _ => None,
    }
}

pub fn catalog_row_value<'a>(
    table: &StaticCatalogTable,
    row: &'a CatalogRow,
    column_name: &str,
) -> (r: Option<&'a CatalogValue>)
    ensures
        match r {
            Some(v) => row_value(*table, row@, column_name@) == Some(v@),
            None => row_value(*table, row@, column_name@) is None,
        },
{
    proof {
        search::first_index_is_first(table.columns@, column_is(column_name@));
    }
    match column_position(table, column_name) {
        Some(i) => {
            if i < row.values.len() {
                Some(&row.values[i])
            } else {
                None
            }
        },
        None => None,
    }
}

/// A row with the value of one column replaced, where the row has that column.
pub open spec fn with_value(
    table: StaticCatalogTable,
    row: CatalogRowView,
    name: Seq<char>,
    value: CatalogValueView,
) -> CatalogRowView {
    match position(table, name) {
        Some(i) if i < row.values.len() => CatalogRowView {
            values: row.values.update(i, value),
            ..row
        },
        _ => row,
    }
}

pub fn set_catalog_row_value(
    table: &StaticCatalogTable,
    row: &mut CatalogRow,
    column_name: &str,
    value: CatalogValue,
)
    ensures
        final(row)@ == with_value(*table, old(row)@, column_name@, value@),
{
    proof {
        search::first_index_is_first(table.columns@, column_is(column_name@));
    }
    match column_position(table, column_name) {
        Some(i) => {
            if i < row.values.len() {
                row.values.set(i, value);
                assert(row@.values =~= old(row)@.values.update(i as int, value@));
            }
        },
        None => {},
    }
}

/// A row with the values of several columns replaced, one after the other.
pub open spec fn with_values(
    table: StaticCatalogTable,
    row: CatalogRowView,
    assignments: Seq<(Seq<char>, CatalogValueView)>,
) -> CatalogRowView
    decreases assignments.len(),
{
    if assignments.len() == 0 {
        row
    } else {
        let last = assignments.last();
        with_value(table, with_values(table, row, assignments.drop_last()), last.0, last.1)
    }
}

/// Giving values to columns leaves the identity of the row and its catalog.
pub proof fn values_keep_the_identity(
    table: StaticCatalogTable,
    row: CatalogRowView,
    assignments: Seq<(Seq<char>, CatalogValueView)>,
)
    ensures
        with_values(table, row, assignments).row_id == row.row_id,
        with_values(table, row, assignments).relation_oid == row.relation_oid,
    decreases assignments.len(),
{
    if assignments.len() > 0 {
        values_keep_the_identity(table, row, assignments.drop_last());
    }
}

/// What a column reads after the assignments: the last value that was given to
/// it, or what it held before.
pub open spec fn assigned(
    assignments: Seq<(Seq<char>, CatalogValueView)>,
    name: Seq<char>,
    before: CatalogValueView,
) -> CatalogValueView
    decreases assignments.len(),
{
    if assignments.len() == 0 {
        before
    } else if assignments.last().0 == name {
        assignments.last().1
    } else {
        assigned(assignments.drop_last(), name, before)
    }
}

/// Assigning columns keeps a row's length, and a column that the row has reads
/// what was last assigned to it.
pub proof fn assigned_columns_read_back(
    table: StaticCatalogTable,
    row: CatalogRowView,
    assignments: Seq<(Seq<char>, CatalogValueView)>,
    name: Seq<char>,
)
    ensures
        with_values(table, row, assignments).values.len() == row.values.len(),
        row_value(table, with_values(table, row, assignments), name) == match row_value(
            table,
            row,
            name,
        ) {
            Some(before) => Some(assigned(assignments, name, before)),
            None => None,
        },
    decreases assignments.len(),
{
    if assignments.len() > 0 {
        let before = assignments.drop_last();
        assigned_columns_read_back(table, row, before, name);
        let last = assignments.last();
        search::first_index_is_first(table.columns@, column_is(name));
        search::first_index_is_first(table.columns@, column_is(last.0));
        if last.0 != name {
            match (position(table, name), position(table, last.0)) {
                (Some(i), Some(j)) => {
                    if i == j {
                        assert(column_is(name)(table.columns@[i]));
                        assert(column_is(last.0)(table.columns@[i]));
                    }
                },
                _ => {},
            }
        }
    }
}

/// A column reads the last of the values that are assigned to it.
pub proof fn the_last_assignment_counts(
    assignments: Seq<(Seq<char>, CatalogValueView)>,
    name: Seq<char>,
    before: CatalogValueView,
    at: int,
)
    requires
        0 <= at < assignments.len(),
        assignments[at].0 == name,
        forall|j: int| at < j < assignments.len() ==> (#[trigger] assignments[j]).0 != name,
    ensures
        assigned(assignments, name, before) == assignments[at].1,
    decreases assignments.len(),
{
    if at < assignments.len() - 1 {
        assert(assignments[assignments.len() - 1].0 != name);
        the_last_assignment_counts(assignments.drop_last(), name, before, at);
        assert(assignments.drop_last()[at] == assignments[at]);
    }
}

/// A column that nothing is assigned to reads what it held before.
pub proof fn other_assignments_do_not_count(
    assignments: Seq<(Seq<char>, CatalogValueView)>,
    name: Seq<char>,
    before: CatalogValueView,
)
    requires
        forall|j: int| 0 <= j < assignments.len() ==> (#[trigger] assignments[j]).0 != name,
    ensures
        assigned(assignments, name, before) == before,
    decreases assignments.len(),
{
    if assignments.len() > 0 {
        assert(assignments[assignments.len() - 1].0 != name);
        other_assignments_do_not_count(assignments.drop_last(), name, before);
    }
}

pub open spec fn proc_is(name: Seq<char>) -> spec_fn(PgProcRecord) -> bool {
    |r: PgProcRecord| r.name@ == name
}

pub open spec fn type_is(name: Seq<char>) -> spec_fn(PgTypeRecord) -> bool {
    |r: PgTypeRecord| r.name@ == name
}

pub open spec fn table_is(name: Seq<char>) -> spec_fn(StaticCatalogTable) -> bool {
    |t: StaticCatalogTable| t.name@ == name
}

pub open spec fn table_has(oid: Oid) -> spec_fn(StaticCatalogTable) -> bool {
    |t: StaticCatalogTable| t.oid == oid
}

/// The compiled-in catalog with an identifier.
pub open spec fn table_of(generated: GeneratedCatalog, oid: Oid) -> Option<StaticCatalogTable> {
    search::first_with(generated.tables@, table_has(oid))
}

/// The compiled-in catalog with a name.
pub open spec fn table_named(generated: GeneratedCatalog, name: Seq<char>) -> Option<
    StaticCatalogTable,
> {
    search::first_with(generated.tables@, table_is(model::normalized(name)))
}

pub fn static_catalog_by_relation_oid(
    generated: &GeneratedCatalog,
    relation_oid: Oid,
) -> (r: Option<&'static StaticCatalogTable>)
    ensures
        match r {
            Some(t) => table_of(*generated, relation_oid) == Some(*t) && t.oid == relation_oid,
            None => table_of(*generated, relation_oid) is None,
        },
{
    let mut i: usize = 0;
    while i < generated.tables.len()
        invariant
            i <= generated.tables@.len(),
            forall|j: int|
                0 <= j < i ==> !table_has(relation_oid)(#[trigger] generated.tables@[j]),
        decreases generated.tables@.len() - i,
    {
        if generated.tables[i].oid == relation_oid {
            proof {
                search::first_index_at(generated.tables@, table_has(relation_oid), i as int);
            }
            return Some(&generated.tables[i]);
        }
        i += 1;
    }
    proof {
        search::first_index_none(generated.tables@, table_has(relation_oid));
    }
    None
}

pub fn static_catalog_by_name(generated: &GeneratedCatalog, name: &str) -> (r: Option<
    &'static StaticCatalogTable,
>)
    ensures
        match r {
            Some(t) => table_named(*generated, name@) == Some(*t),
            None => table_named(*generated, name@) is None,
        },
{
    let wanted = model::normalize_identifier(name);
    let mut i: usize = 0;
    while i < generated.tables.len()
        invariant
            i <= generated.tables@.len(),
            wanted@ == model::normalized(name@),
            forall|j: int| 0 <= j < i ==> !table_is(wanted@)(#[trigger] generated.tables@[j]),
        decreases generated.tables@.len() - i,
    {
        if text::same_text(generated.tables[i].name, wanted.as_str()) {
            proof {
                search::first_index_at(generated.tables@, table_is(wanted@), i as int);
            }
            return Some(&generated.tables[i]);
        }
        i += 1;
    }
    proof {
        search::first_index_none(generated.tables@, table_is(wanted@));
    }
    None
}

/// The identifier that a word in a generated row stands for: a dash for none,
/// a number, or the name of a function, a type or a catalog.
pub open spec fn resolved_oid(generated: GeneratedCatalog, s: Seq<char>) -> Option<Oid> {
    let name = model::normalized(s);
    if s == "-"@ {
        Some(Oid(INVALID_OID))
    } else if values::as_u32(s) is Some {
        Some(Oid(values::as_u32(s)->0))
    } else if search::first_with(generated.procs@, proc_is(name)) is Some {
        Some(search::first_with(generated.procs@, proc_is(name))->0.oid)
    } else if search::first_with(generated.types@, type_is(name)) is Some {
        Some(search::first_with(generated.types@, type_is(name))->0.oid)
    } else {
        match table_named(generated, name) {
            Some(t) => Some(t.oid),
            None => None,
        }
    }
}

pub fn resolve_generated_catalog_oid_name(generated: &GeneratedCatalog, value: &str) -> (r: Option<
    Oid,
>)
    ensures
        r == resolved_oid(*generated, value@),
{
    if text::same_text(value, "-") {
        return Some(Oid(INVALID_OID));
    }
    let chars = text::chars_of(value);
    match values::read_u32(&chars) {
        Some(v) => {
            return Some(Oid(v));
        },
        None => {},
    }
    let name = model::normalize_identifier(value);
    let mut i: usize = 0;
    while i < generated.procs.len()
        invariant
            i <= generated.procs@.len(),
            name@ == model::normalized(value@),
            value@ != "-"@,
            values::as_u32(value@) is None,
            forall|j: int| 0 <= j < i ==> !proc_is(name@)(#[trigger] generated.procs@[j]),
        decreases generated.procs@.len() - i,
    {
        if text::same_text(generated.procs[i].name, name.as_str()) {
            proof {
                search::first_index_at(generated.procs@, proc_is(name@), i as int);
            }
            return Some(generated.procs[i].oid);
        }
        i += 1;
    }
    proof {
        search::first_index_none(generated.procs@, proc_is(name@));
    }
    i = 0;
    while i < generated.types.len()
        invariant
            i <= generated.types@.len(),
            name@ == model::normalized(value@),
            value@ != "-"@,
            values::as_u32(value@) is None,
            search::first_with(generated.procs@, proc_is(name@)) is None,
            forall|j: int| 0 <= j < i ==> !type_is(name@)(#[trigger] generated.types@[j]),
        decreases generated.types@.len() - i,
    {
        if text::same_text(generated.types[i].name, name.as_str()) {
            proof {
                search::first_index_at(generated.types@, type_is(name@), i as int);
            }
            return Some(generated.types[i].oid);
        }
        i += 1;
    }
    proof {
        search::first_index_none(generated.types@, type_is(name@));
    }
    match static_catalog_by_name(generated, name.as_str()) {
        Some(t) => Some(t.oid),
        None => None,
    }
}

/// The identifier that a value stands for.
pub open spec fn oid_of(generated: GeneratedCatalog, value: CatalogValueView) -> Option<Oid> {
    match value {
        CatalogValueView::Oid(oid) => Some(oid),
        CatalogValueView::Int32(v) => if v >= 0 {
            Some(Oid(v as u32))
        } else {
            None
        },
        CatalogValueView::Int16(v) => if v >= 0 {
            Some(Oid(v as u32))
        } else {
            None
        },
        CatalogValueView::Raw(s) => resolved_oid(generated, s),
        _ => None,
    }
}

pub open spec fn bool_of(value: CatalogValueView) -> Option<bool> {
    match value {
        CatalogValueView::Bool(b) => Some(b),
        CatalogValueView::Raw(s) => values::truth(s),
        _ => None,
    }
}

pub open spec fn i16_of(value: CatalogValueView) -> Option<i16> {
    match value {
        CatalogValueView::Int16(v) => Some(v),
        CatalogValueView::Int32(v) => if i16::MIN <= v <= i16::MAX {
            Some(v as i16)
        } else {
            None
        },
        CatalogValueView::Raw(s) => values::as_i16(s),
        _ => None,
    }
}

pub open spec fn i32_of(value: CatalogValueView) -> Option<i32> {
    match value {
        CatalogValueView::Int16(v) => Some(v as i32),
        CatalogValueView::Int32(v) => Some(v),
        CatalogValueView::Raw(s) => values::as_i32(s),
        _ => None,
    }
}

/// The bits of the single precision number that a value stands for.
pub open spec fn single_of(floats: FloatReadings, value: CatalogValueView) -> Option<u32> {
    match value {
        CatalogValueView::Float32(bits) => Some(bits),
        CatalogValueView::Raw(s) => floats.single_of(s),
        _ => None,
    }
}

pub open spec fn u8_of(value: CatalogValueView) -> Option<u8> {
    match value {
        CatalogValueView::Char(b) => Some(b),
        CatalogValueView::Raw(s) => values::first_byte(s),
        _ => None,
    }
}

pub open spec fn string_of(value: CatalogValueView) -> Option<Seq<char>> {
    match value {
        CatalogValueView::Name(s) => Some(s),
        CatalogValueView::Text(s) => Some(s),
        CatalogValueView::Raw(s) => Some(s),
        _ => None,
    }
}

/// Whether a value is a name that is the normalized name, as it stands or once
/// it is normalized itself.
pub open spec fn names(value: CatalogValueView, name: Seq<char>) -> bool {
    match string_of(value) {
        Some(s) => s == name || model::normalized(s) == name,
        None => false,
    }
}

pub open spec fn oid_vector_of(value: CatalogValueView) -> Option<Seq<Oid>> {
    match value {
        CatalogValueView::OidVector(v) => Some(v),
        _ => match string_of(value) {
            Some(s) => Some(values::oids_of(text::words(s))),
            None => None,
        },
    }
}

pub fn catalog_value_oid(generated: &GeneratedCatalog, value: &CatalogValue) -> (r: Option<Oid>)
    ensures
        r == oid_of(*generated, value@),
{
    match value {
        CatalogValue::Oid(oid) => Some(*oid),
        CatalogValue::Int32(v) => if *v >= 0 {
            Some(Oid(*v as u32))
        } else {
            None
        },
        CatalogValue::Int16(v) => if *v >= 0 {
            Some(Oid(*v as u32))
        } else {
            None
        },
        CatalogValue::Raw(s) => resolve_generated_catalog_oid_name(generated, s.as_str()),
        _ => None,
    }
}

pub fn catalog_value_bool(value: &CatalogValue) -> (r: Option<bool>)
    ensures
        r == bool_of(value@),
{
    match value {
        CatalogValue::Bool(b) => Some(*b),
        CatalogValue::Raw(s) => values::read_truth(s.as_str()),
        _ => None,
    }
}

pub fn catalog_value_i16(value: &CatalogValue) -> (r: Option<i16>)
    ensures
        r == i16_of(value@),
{
    match value {
        CatalogValue::Int16(v) => Some(*v),
        CatalogValue::Int32(v) => if -0x8000 <= *v && *v <= 0x7fff {
            Some(*v as i16)
        } else {
            None
        },
        CatalogValue::Raw(s) => {
            let chars = text::chars_of(s.as_str());
            values::read_i16(&chars)
        },
        _ => None,
    }
}

pub fn catalog_value_i32(value: &CatalogValue) -> (r: Option<i32>)
    ensures
        r == i32_of(value@),
{
    match value {
        CatalogValue::Int16(v) => Some(*v as i32),
        CatalogValue::Int32(v) => Some(*v),
        CatalogValue::Raw(s) => {
            let chars = text::chars_of(s.as_str());
            values::read_i32(&chars)
        },
        _ => None,
    }
}

pub fn catalog_value_single(floats: &FloatReadings, value: &CatalogValue) -> (r: Option<u32>)
    ensures
        r == single_of(*floats, value@),
{
    match value {
        CatalogValue::Float32(bits) => Some(*bits),
        CatalogValue::Raw(s) => floats.single_bits(s.as_str()),
        _ => None,
    }
}

pub fn catalog_value_u8(value: &CatalogValue) -> (r: Option<u8>)
    ensures
        r == u8_of(value@),
{
    match value {
        CatalogValue::Char(b) => Some(*b),
        CatalogValue::Raw(s) => values::read_first_byte(s.as_str()),
        _ => None,
    }
}

pub fn catalog_value_str(value: &CatalogValue) -> (r: Option<&str>)
    ensures
        match r {
            Some(s) => string_of(value@) == Some(s@),
            None => string_of(value@) is None,
        },
{
    match value {
        CatalogValue::Name(s) => Some(s.as_str()),
        CatalogValue::Text(s) => Some(s.as_str()),
        CatalogValue::Raw(s) => Some(s.as_str()),
        _ => None,
    }
}

pub fn catalog_value_string(value: &CatalogValue) -> (r: Option<String>)
    ensures
        match r {
            Some(s) => string_of(value@) == Some(s@),
            None => string_of(value@) is None,
        },
{
    match catalog_value_str(value) {
        Some(s) => Some(s.to_owned()),
        None => None,
    }
}

pub fn catalog_value_identifier_matches(value: &CatalogValue, normalized: &str) -> (r: bool)
    ensures
        r == names(value@, normalized@),
{
    match catalog_value_str(value) {
        Some(s) => text::same_text(s, normalized) || {
            let folded = model::normalize_identifier(s);
            text::same_text(folded.as_str(), normalized)
        },
        None => false,
    }
}

pub fn oid_vector_value(value: &CatalogValue) -> (r: Option<Vec<Oid>>)
    ensures
        match r {
            Some(v) => oid_vector_of(value@) == Some(v@),
            None => oid_vector_of(value@) is None,
        },
{
    match value {
        CatalogValue::OidVector(v) => {
            let copy = v.clone();
            assert(copy@ =~= v@);
            Some(copy)
        },
        _ => match catalog_value_str(value) {
            Some(s) => Some(values::parse_oid_vector(s)),
            None => None,
        },
    }
}

} // verus!
