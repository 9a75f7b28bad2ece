//! What is found is what was asked for, and what is there is found.

use vstd::prelude::*;

use crate::catalog::builtins;
use crate::catalog::columns;
use crate::catalog::databases;
use crate::catalog::index;
use crate::catalog::lookups;
use crate::catalog::meta;
use crate::catalog::model;
use crate::catalog::model::{
    CatalogRowView, CatalogValueView, GeneratedCatalog, PgNamespaceRecord, PgOperatorRecord,
    PgProcRecord, StaticCatalogTable,
};
use crate::catalog::row_laws;
use crate::catalog::selectors;
use crate::catalog::selectors::{CatalogFilterValue, CatalogRowFilter, SelectorView};
use crate::catalog::snapshot;
use crate::catalog::snapshot::SnapshotView;
use crate::catalog::type_laws;
use crate::search;
use crate::text;
use crate::types::Oid;

verus! {

/// The elements with a property are picked in their order, each as often as it
/// stands there.
pub proof fn picking_goes_element_by_element<T>(
    a: Seq<T>,
    b: Seq<T>,
    x: T,
    p: spec_fn(T) -> bool,
)
    ensures
        search::all_with(seq![], p) == Seq::<T>::empty(),
        p(x) ==> search::all_with(seq![x], p) == seq![x],
        !p(x) ==> search::all_with(seq![x], p) == Seq::<T>::empty(),
        search::all_with(a + b, p) == search::all_with(a, p) + search::all_with(b, p),
    decreases b.len(),
{
    assert(seq![x].drop_last() =~= seq![]);
    assert(search::all_with(Seq::<T>::empty(), p) =~= seq![]);
    assert(Seq::<T>::empty().push(x) =~= seq![x]);
    if b.len() == 0 {
        assert(a + b =~= a);
        assert(search::all_with(a, p) + search::all_with(b, p) =~= search::all_with(a, p));
    } else {
        picking_goes_element_by_element(a, b.drop_last(), x, p);
        assert((a + b).drop_last() =~= a + b.drop_last());
        assert((a + b).last() == b.last());
        let left = search::all_with(a, p);
        let right = search::all_with(b.drop_last(), p);
        assert((left + right).push(b.last()) =~= left + right.push(b.last()));
    }
}

/// What elements give is gathered in their order, and an element that gives
/// nothing is left out.
pub proof fn gathering_goes_element_by_element<A, B>(
    a: Seq<A>,
    b: Seq<A>,
    x: A,
    f: spec_fn(A) -> Option<B>,
)
    ensures
        search::all_some(seq![], f) == Seq::<B>::empty(),
        f(x) matches Some(y) ==> search::all_some(seq![x], f) == seq![y],
        f(x) is None ==> search::all_some(seq![x], f) == Seq::<B>::empty(),
        search::all_some(a + b, f) == search::all_some(a, f) + search::all_some(b, f),
    decreases b.len(),
{
    assert(seq![x].drop_last() =~= seq![]);
    assert(search::all_some(Seq::<A>::empty(), f) =~= seq![]);
    match f(x) {
        Some(y) => {
            assert(Seq::<B>::empty().push(y) =~= seq![y]);
        },
        None => {},
    }
    if b.len() == 0 {
        assert(a + b =~= a);
        assert(search::all_some(a, f) + search::all_some(b, f) =~= search::all_some(a, f));
    } else {
        gathering_goes_element_by_element(a, b.drop_last(), x, f);
        assert((a + b).drop_last() =~= a + b.drop_last());
        assert((a + b).last() == b.last());
        let left = search::all_some(a, f);
        let right = search::all_some(b.drop_last(), f);
        match f(b.last()) {
            Some(y) => {
                assert((left + right).push(y) =~= left + right.push(y));
            },
            None => {},
        }
    }
}

/// Each of what is gathered comes from an element, and what each element gives is
/// gathered.
pub(crate) proof fn lemma_gathered<A, B>(s: Seq<A>, f: spec_fn(A) -> Option<B>)
    ensures
        forall|k: int|
            0 <= k < search::all_some(s, f).len() ==> exists|i: int|
                0 <= i < s.len() && f(#[trigger] s[i]) == Some(
                    #[trigger] search::all_some(s, f)[k],
                ),
        forall|i: int|
            0 <= i < s.len() && f(#[trigger] s[i]) is Some ==> search::all_some(s, f).contains(
                f(s[i])->0,
            ),
    decreases s.len(),
{
    if s.len() > 0 {
        let most = s.drop_last();
        lemma_gathered(most, f);
        let all = search::all_some(s, f);
        let before = search::all_some(most, f);
        assert forall|k: int| 0 <= k < all.len() implies exists|i: int|
            0 <= i < s.len() && f(#[trigger] s[i]) == Some(#[trigger] all[k]) by {
            if k < before.len() {
                assert(before[k] == all[k]);
                let i = choose|i: int|
                    0 <= i < most.len() && f(#[trigger] most[i]) == Some(before[k]);
                assert(s[i] == most[i]);
            } else {
                assert(s[s.len() - 1] == s.last());
            }
        }
        assert forall|i: int| 0 <= i < s.len() && f(#[trigger] s[i]) is Some implies all.contains(
            f(s[i])->0,
        ) by {
            if i < most.len() {
                assert(most[i] == s[i]);
                let k = choose|k: int| 0 <= k < before.len() && before[k] == f(s[i])->0;
                assert(all[k] == before[k]);
            } else {
                assert(all[all.len() - 1] == f(s[i])->0);
            }
        }
    }
}

/// An operator is found by its name and the types of what it is put between, in
/// its schema.
pub proof fn an_operator_is_found_by_its_signature(
    generated: GeneratedCatalog,
    name: Seq<char>,
    left: Oid,
    right: Oid,
    namespace: Oid,
)
    ensures
        match search::first_with(
            generated.operators@,
            builtins::operator_takes(model::normalized(name), left, right, namespace),
        ) {
            Some(x) => {
                &&& generated.operators@.contains(x)
                &&& x.name@ == text::lower(text::trim(name))
                &&& x.left_type == left
                &&& x.right_type == right
                &&& x.namespace == namespace
            },
            None => forall|i: int|
                0 <= i < generated.operators@.len() ==> !((
                #[trigger] generated.operators@[i]).name@ == text::lower(text::trim(name))
                    && generated.operators@[i].left_type == left
                    && generated.operators@[i].right_type == right
                    && generated.operators@[i].namespace == namespace),
        },
{
    let p = builtins::operator_takes(model::normalized(name), left, right, namespace);
    search::first_index_is_first(generated.operators@, p);
}

/// What is compiled in is found by its identifier: the first with it, and nothing
/// only where none has it.
pub proof fn what_is_compiled_in_is_found(generated: GeneratedCatalog, oid: Oid)
    ensures
        match search::first_with(generated.operators@, builtins::operator_has(oid)) {
            Some(x) => x.oid == oid && generated.operators@.contains(x),
            None => forall|i: int|
                0 <= i < generated.operators@.len() ==> (#[trigger] generated.operators@[i]).oid
                    != oid,
        },
        match search::first_with(generated.procs@, builtins::proc_has(oid)) {
            Some(x) => x.oid == oid && generated.procs@.contains(x),
            None => forall|i: int|
                0 <= i < generated.procs@.len() ==> (#[trigger] generated.procs@[i]).oid != oid,
        },
        match search::first_with(generated.aggregates@, builtins::aggregate_has(oid)) {
            Some(x) => x.function_oid == oid && generated.aggregates@.contains(x),
            None => forall|i: int|
                0 <= i < generated.aggregates@.len() ==> (
                #[trigger] generated.aggregates@[i]).function_oid != oid,
        },
        match search::first_with(generated.namespaces@, builtins::namespace_has(oid)) {
            Some(x) => x.oid == oid && generated.namespaces@.contains(x),
            None => forall|i: int|
                0 <= i < generated.namespaces@.len() ==> (#[trigger] generated.namespaces@[i]).oid
                    != oid,
        },
        match search::first_with(generated.virtual_catalogs@, builtins::virtual_has(oid)) {
            Some(x) => x.relation_oid == oid && generated.virtual_catalogs@.contains(x),
            None => forall|i: int|
                0 <= i < generated.virtual_catalogs@.len() ==> (
                #[trigger] generated.virtual_catalogs@[i]).relation_oid != oid,
        },
        match columns::table_of(generated, oid) {
            Some(x) => x.oid == oid && generated.tables@.contains(x),
            None => forall|i: int|
                0 <= i < generated.tables@.len() ==> (#[trigger] generated.tables@[i]).oid != oid,
        },
{
    search::first_index_is_first(generated.operators@, builtins::operator_has(oid));
    search::first_index_is_first(generated.procs@, builtins::proc_has(oid));
    search::first_index_is_first(generated.aggregates@, builtins::aggregate_has(oid));
    search::first_index_is_first(generated.namespaces@, builtins::namespace_has(oid));
    search::first_index_is_first(generated.virtual_catalogs@, builtins::virtual_has(oid));
    search::first_index_is_first(generated.tables@, columns::table_has(oid));
}

/// What is compiled in is found by its name, whatever the case of the name and the
/// space around it.
pub proof fn what_is_compiled_in_is_found_by_name(generated: GeneratedCatalog, name: Seq<char>)
    ensures
        match search::first_with(
            generated.namespaces@,
            builtins::namespace_is(model::normalized(name)),
        ) {
            Some(x) => x.name@ == text::lower(text::trim(name)) && generated.namespaces@.contains(
                x,
            ),
            None => forall|i: int|
                0 <= i < generated.namespaces@.len() ==> (
                #[trigger] generated.namespaces@[i]).name@ != text::lower(text::trim(name)),
        },
        match search::first_with(
            generated.virtual_catalogs@,
            builtins::virtual_is(model::normalized(name)),
        ) {
            Some(x) => x.name@ == text::lower(text::trim(name))
                && generated.virtual_catalogs@.contains(x),
            None => forall|i: int|
                0 <= i < generated.virtual_catalogs@.len() ==> (
                #[trigger] generated.virtual_catalogs@[i]).name@ != text::lower(text::trim(name)),
        },
        match columns::table_named(generated, name) {
            Some(x) => x.name@ == text::lower(text::trim(name)) && generated.tables@.contains(x),
            None => forall|i: int|
                0 <= i < generated.tables@.len() ==> (#[trigger] generated.tables@[i]).name@
                    != text::lower(text::trim(name)),
        },
        match search::first_with(
            generated.types@,
            columns::type_is(meta::canonical_type_name(name)),
        ) {
            Some(x) => x.name@ == meta::canonical_type_name(name) && generated.types@.contains(x),
            None => forall|i: int|
                0 <= i < generated.types@.len() ==> (#[trigger] generated.types@[i]).name@
                    != meta::canonical_type_name(name),
        },
{
    let folded = model::normalized(name);
    search::first_index_is_first(generated.namespaces@, builtins::namespace_is(folded));
    search::first_index_is_first(generated.virtual_catalogs@, builtins::virtual_is(folded));
    search::first_index_is_first(generated.tables@, columns::table_is(folded));
    search::first_index_is_first(
        generated.types@,
        columns::type_is(meta::canonical_type_name(name)),
    );
}

/// A lookup of operators or functions by name gives those with the name and leaves
/// out the others.
pub proof fn lookups_by_name_pick_by_the_name(
    name: Seq<char>,
    operator: PgOperatorRecord,
    proc: PgProcRecord,
)
    ensures
        builtins::operator_is(model::normalized(name))(operator) <==> operator.name@ == text::lower(
            text::trim(name),
        ),
        columns::proc_is(model::normalized(name))(proc) <==> proc.name@ == text::lower(
            text::trim(name),
        ),
{
}

/// A cast is found by what it is made from and what it makes.
pub proof fn a_cast_is_found_by_its_types(generated: GeneratedCatalog, source: Oid, target: Oid)
    ensures
        match search::first_with(generated.casts@, builtins::cast_between(source, target)) {
            Some(x) => {
                &&& generated.casts@.contains(x)
                &&& x.source_type == source
                &&& x.target_type == target
            },
            None => forall|i: int|
                0 <= i < generated.casts@.len() ==> (#[trigger] generated.casts@[i]).source_type
                    != source || generated.casts@[i].target_type != target,
        },
{
    search::first_index_is_first(generated.casts@, builtins::cast_between(source, target));
}

/// The schema that describes the others has this identifier, name and owner.
pub proof fn the_information_schema_is_this(r: PgNamespaceRecord)
    requires
        builtins::is_information_schema(r),
    ensures
        r.oid.0 == 14000,
        r.name@ == "information_schema"@,
        r.owner.0 == 10,
{
}

/// A column that is found is one of the relation at the place that was asked for,
/// and no place but those from one on holds one.
pub proof fn a_column_found_is_at_its_place(
    generated: GeneratedCatalog,
    s: SnapshotView,
    relation: Oid,
    attnum: i16,
)
    ensures
        attnum <= 0 ==> lookups::column_found(generated, s, relation, attnum) is None,
        forall|id: u64| #[trigger]
            s.columns.contains_key(id) && s.columns[id].relation_oid == relation
                && s.columns[id].attnum == attnum && attnum > 0 ==> lookups::column_found(
                generated,
                s,
                relation,
                attnum,
            ) is Some,
        lookups::column_found(generated, s, relation, attnum) matches Some(c) ==> (exists|
            id: u64,
        | #[trigger]
            s.columns.contains_key(id) && s.columns[id].relation_oid == relation
                && s.columns[id].attnum == attnum && s.columns[id].record == c) || exists|
            table: StaticCatalogTable,
            row: CatalogRowView,
        | #[trigger]
            meta::column_record_of(generated, table, row, relation) == Some((attnum, c)),
{
    let p = index::column_at_place(relation.0, attnum);
    index::ids_where_are_the_matches(s.columns, p);
    match columns::table_of(generated, Oid(1249)) {
        Some(table) => {
            let list = lookups::rows_of(
                generated,
                s,
                1249,
                SelectorView::ColumnAt(relation, attnum),
            );
            let f = lookups::column_at(generated, table, relation, attnum);
            type_laws::lemma_first_some(list, f);
            if search::first_some(list, f) is Some {
                let i = choose|i: int|
                    0 <= i < list.len() && f(#[trigger] list[i]) == search::first_some(list, f);
                assert(meta::column_record_of(generated, table, list[i], relation) is Some);
            }
        },
        None => {},
    }
}

/// An index that is found has the identifier that was asked for.
pub proof fn an_index_found_has_the_identifier(generated: GeneratedCatalog, s: SnapshotView, oid: Oid)
    ensures
        lookups::index_found(generated, s, oid) matches Some(r) ==> r.index_oid == oid,
        forall|id: u64| #[trigger]
            s.indexes.contains_key(id) && s.indexes[id].record.index_oid == oid
                ==> lookups::index_found(generated, s, oid) is Some,
{
    index::ids_where_are_the_matches(s.indexes, index::keyed(snapshot::index_oid_key(), oid.0));
    type_laws::lemma_first_some(
        lookups::rows_of(generated, s, 2610, SelectorView::IndexWithOid(oid)),
        lookups::index_with(generated, oid),
    );
}

/// The indexes that are found are those of the relation, and each that is recorded
/// is among them.
pub proof fn indexes_found_are_those_of_the_relation(
    generated: GeneratedCatalog,
    s: SnapshotView,
    relation: Oid,
)
    ensures
        forall|k: int|
            0 <= k < lookups::indexes_found(generated, s, relation).len() ==> (
            #[trigger] lookups::indexes_found(generated, s, relation)[k]).relation_oid == relation,
        forall|id: u64| #[trigger]
            s.indexes.contains_key(id) && s.indexes[id].record.relation_oid == relation
                ==> lookups::indexes_found(generated, s, relation).contains(s.indexes[id].record),
{
    let p = index::keyed(snapshot::index_relation_key(), relation.0);
    index::ids_where_are_the_matches(s.indexes, p);
    let ids = index::ids_where(s.indexes, p);
    let recorded = lookups::index_records(s.indexes_of(relation));
    let list = lookups::rows_of(generated, s, 2610, SelectorView::IndexesOf(relation));
    lemma_gathered(list, lookups::index_on(generated, relation));
    let found = lookups::indexes_found(generated, s, relation);
    assert forall|k: int| 0 <= k < found.len() implies (#[trigger] found[k]).relation_oid
        == relation by {
        if recorded.len() > 0 {
            assert(ids.contains(ids[k]));
        }
    }
    assert forall|id: u64| #[trigger]
        s.indexes.contains_key(id) && s.indexes[id].record.relation_oid
            == relation implies found.contains(s.indexes[id].record) by {
        assert(ids.contains(id));
        let k = choose|k: int| 0 <= k < ids.len() && ids[k] == id;
        assert(recorded[k] == s.indexes[id].record);
    }
}

/// The indexes that keep rows apart are those of the relation that are unique and
/// in use.
pub proof fn unique_indexes_are_unique_and_in_use(
    generated: GeneratedCatalog,
    s: SnapshotView,
    relation: Oid,
)
    ensures
        ({
            let all = lookups::indexes_found(generated, s, relation);
            let found = lookups::unique_indexes_found(generated, s, relation);
            &&& forall|k: int|
                0 <= k < found.len() ==> (#[trigger] found[k]).is_unique && found[k].is_valid
                    && found[k].is_ready && found[k].is_live && found[k].relation_oid == relation
            &&& forall|i: int|
                0 <= i < all.len() && (#[trigger] all[i]).is_unique && all[i].is_valid
                    && all[i].is_ready && all[i].is_live ==> found.contains(all[i])
        }),
{
    let all = lookups::indexes_found(generated, s, relation);
    let found = lookups::unique_indexes_found(generated, s, relation);
    indexes_found_are_those_of_the_relation(generated, s, relation);
    lemma_gathered(all, lookups::unique_in_use());
    assert forall|k: int| 0 <= k < found.len() implies (#[trigger] found[k]).is_unique
        && found[k].is_valid && found[k].is_ready && found[k].is_live && found[k].relation_oid
        == relation by {
        let i = choose|i: int|
            0 <= i < all.len() && lookups::unique_in_use()(#[trigger] all[i]) == Some(found[k]);
        assert(all[i] == found[k]);
    }
    assert forall|i: int|
        0 <= i < all.len() && (#[trigger] all[i]).is_unique && all[i].is_valid && all[i].is_ready
            && all[i].is_live implies found.contains(all[i]) by {
        assert(lookups::unique_in_use()(all[i]) == Some(all[i]));
    }
}

/// The identifiers of the unique indexes in use are those of recorded ones, where
/// there are any.
pub proof fn unique_oids_are_those_of_unique_indexes(
    generated: GeneratedCatalog,
    s: SnapshotView,
    relation: Oid,
    id: u64,
)
    requires
        s.indexes.contains_key(id),
        s.indexes[id].record.relation_oid == relation,
        s.indexes[id].record.is_unique,
        s.indexes[id].record.is_valid,
        s.indexes[id].record.is_ready,
        s.indexes[id].record.is_live,
    ensures
        ({
            let found = lookups::unique_oids_found(generated, s, relation);
            &&& found.contains(s.indexes[id].record.index_oid)
            &&& forall|k: int|
                0 <= k < found.len() ==> exists|j: u64| #[trigger]
                    s.indexes.contains_key(j) && s.indexes[j].record.index_oid
                        == #[trigger] found[k] && s.indexes[j].record.relation_oid == relation
                        && s.indexes[j].record.is_unique && s.indexes[j].record.is_valid
                        && s.indexes[j].record.is_ready && s.indexes[j].record.is_live
        }),
{
    let p = index::keyed(snapshot::index_relation_key(), relation.0);
    index::ids_where_are_the_matches(s.indexes, p);
    let ids = index::ids_where(s.indexes, p);
    let list = s.indexes_of(relation);
    let f = lookups::unique_oid();
    lemma_gathered(list, f);
    assert(ids.contains(id));
    let n = choose|n: int| 0 <= n < ids.len() && ids[n] == id;
    assert(f(list[n]) == Some(s.indexes[id].record.index_oid));
    let found = lookups::unique_oids_found(generated, s, relation);
    assert forall|k: int| 0 <= k < found.len() implies exists|j: u64| #[trigger]
        s.indexes.contains_key(j) && s.indexes[j].record.index_oid == #[trigger] found[k]
            && s.indexes[j].record.relation_oid == relation && s.indexes[j].record.is_unique
            && s.indexes[j].record.is_valid && s.indexes[j].record.is_ready
            && s.indexes[j].record.is_live by {
        let i = choose|i: int| 0 <= i < list.len() && f(#[trigger] list[i]) == Some(found[k]);
        assert(ids.contains(ids[i]));
        assert(s.indexes.contains_key(ids[i]));
    }
}

/// A value passes a filter where it is the value that the filter names, and in no
/// other case.
pub proof fn a_filter_passes_its_value(
    flag: bool,
    letter: u8,
    small: i16,
    number: i32,
    oid: Oid,
    s: Seq<char>,
    filter: CatalogFilterValue,
)
    ensures
        selectors::value_matches(CatalogValueView::Bool(flag), filter) <==> (filter matches
            CatalogFilterValue::Bool(x) && x == flag),
        selectors::value_matches(CatalogValueView::Char(letter), filter) <==> (filter matches
            CatalogFilterValue::Char(x) && x == letter),
        selectors::value_matches(CatalogValueView::Int16(small), filter) <==> (filter matches
            CatalogFilterValue::Int16(x) && x == small),
        selectors::value_matches(CatalogValueView::Int32(number), filter) <==> (filter matches
            CatalogFilterValue::Int32(x) && x == number),
        selectors::value_matches(CatalogValueView::Oid(oid), filter) <==> (filter matches
            CatalogFilterValue::Oid(x) && x == oid),
        selectors::value_matches(CatalogValueView::Name(s), filter) <==> (filter matches
            CatalogFilterValue::Name(x) && x@ == s),
        selectors::value_matches(CatalogValueView::Text(s), filter) <==> (filter matches
            CatalogFilterValue::Name(x) && x@ == s),
        selectors::value_matches(CatalogValueView::Raw(s), filter) <==> (filter matches
            CatalogFilterValue::Name(x) && x@ == s),
        !selectors::value_matches(CatalogValueView::Null, filter),
{
}

/// A row passes filters where, for each, it holds a value that passes in the
/// column with the filter's number, counted from one.
pub proof fn a_row_passes_by_its_columns(
    table: StaticCatalogTable,
    row: CatalogRowView,
    filters: Seq<CatalogRowFilter>,
)
    requires
        row.values.len() == table.columns@.len(),
    ensures
        selectors::row_passes_all(table, row, filters) <==> forall|j: int|
            0 <= j < filters.len() ==> 1 <= (#[trigger] filters[j]).attnum <= row.values.len()
                && selectors::value_matches(row.values[filters[j].attnum - 1], filters[j].value),
{
    if selectors::row_passes_all(table, row, filters) {
        assert forall|j: int| 0 <= j < filters.len() implies 1 <= (#[trigger] filters[j]).attnum
            <= row.values.len() && selectors::value_matches(
            row.values[filters[j].attnum - 1],
            filters[j].value,
        ) by {
            assert(selectors::row_passes(table, row, filters[j]));
        }
    }
}

/// A row is selected by what its columns hold.
pub proof fn rows_are_selected_by_their_columns(
    generated: GeneratedCatalog,
    table: StaticCatalogTable,
    row: CatalogRowView,
    held: Oid,
    asked: Oid,
    attnum: i16,
    place: i16,
)
    ensures
        selectors::selects(generated, table, row, SelectorView::All),
        row_laws::holds(table, row, "oid"@, CatalogValueView::Oid(held)) ==> (selectors::selects(
            generated,
            table,
            row,
            SelectorView::ClassWithOid(asked),
        ) <==> held == asked),
        row_laws::holds(table, row, "attrelid"@, CatalogValueView::Oid(held)) ==> (
        selectors::selects(generated, table, row, SelectorView::ColumnsOf(asked)) <==> held
            == asked),
        row_laws::holds(table, row, "attrelid"@, CatalogValueView::Oid(held)) && row_laws::holds(
            table,
            row,
            "attnum"@,
            CatalogValueView::Int16(place),
        ) ==> (selectors::selects(
            generated,
            table,
            row,
            SelectorView::ColumnAt(asked, attnum),
        ) <==> held == asked && place == attnum),
        row_laws::holds(table, row, "indexrelid"@, CatalogValueView::Oid(held)) ==> (
        selectors::selects(generated, table, row, SelectorView::IndexWithOid(asked)) <==> held
            == asked),
        row_laws::holds(table, row, "indrelid"@, CatalogValueView::Oid(held)) ==> (
        selectors::selects(generated, table, row, SelectorView::IndexesOf(asked)) <==> held
            == asked),
        row_laws::holds(table, row, "conrelid"@, CatalogValueView::Oid(held)) ==> (
        selectors::selects(generated, table, row, SelectorView::ConstraintsOf(asked)) <==> held
            == asked),
{
    row_laws::lemma_cells(generated, table, row);
}

/// A row of an index is selected as one that keeps rows apart where it is unique
/// and in use.
pub proof fn unique_rows_are_selected(
    generated: GeneratedCatalog,
    table: StaticCatalogTable,
    row: CatalogRowView,
    relation: Oid,
    unique: bool,
    valid: bool,
    ready: bool,
    live: bool,
)
    requires
        row_laws::holds(table, row, "indrelid"@, CatalogValueView::Oid(relation)),
        row_laws::holds(table, row, "indisunique"@, CatalogValueView::Bool(unique)),
        row_laws::holds(table, row, "indisvalid"@, CatalogValueView::Bool(valid)),
        row_laws::holds(table, row, "indisready"@, CatalogValueView::Bool(ready)),
        row_laws::holds(table, row, "indislive"@, CatalogValueView::Bool(live)),
    ensures
        selectors::selects(generated, table, row, SelectorView::UniqueIndexesOf(relation)) <==> (
        unique && valid && ready && live),
{
    row_laws::lemma_cells(generated, table, row);
}

/// A row of a relation is selected by its name, which has to be in lower case or
/// to be the very name, and where a schema is asked for, by that.
pub proof fn relations_are_selected_by_name(
    generated: GeneratedCatalog,
    table: StaticCatalogTable,
    row: CatalogRowView,
    name: Seq<char>,
    asked: Seq<char>,
    held: Oid,
    namespace: Oid,
)
    requires
        row_laws::holds(table, row, "relname"@, CatalogValueView::Name(name)),
        row_laws::holds(table, row, "relnamespace"@, CatalogValueView::Oid(held)),
    ensures
        selectors::selects(generated, table, row, SelectorView::ClassNamed(asked)) <==> (name
            == asked || text::lower(text::trim(name)) == asked),
        selectors::selects(generated, table, row, SelectorView::ClassNamedIn(asked, namespace))
            <==> (name == asked || text::lower(text::trim(name)) == asked) && held == namespace,
{
    row_laws::lemma_cells(generated, table, row);
}

/// The databases that are always there have these identifiers, and a database of
/// another name has one that none of them has. A name that is given with space
/// around it is the name without it.
pub proof fn databases_have_identifiers_of_their_own(name: Seq<char>)
    ensures
        databases::given_oid("template1"@) == Oid(1),
        databases::given_oid("template0"@) == Oid(4),
        databases::given_oid("postgres"@) == Oid(5),
        name != "template1"@ && name != "template0"@ && name != "postgres"@ ==> 0xE100_0000
            <= databases::given_oid(name).0 <= 0xE1FF_FFFF,
        text::trim(name).len() == 0 ==> databases::canonical_name(name) == "postgres"@,
        text::trim(name).len() > 0 ==> databases::canonical_name(name) == text::trim(name),
{
    reveal_strlit("template1");
    reveal_strlit("template0");
    reveal_strlit("postgres");
    assert("template1"@[8] == '1' && "template0"@[8] == '0');
    assert("template1"@.len() == 9 && "template0"@.len() == 9 && "postgres"@.len() == 8);
    let h = databases::fnv1a(vstd::utf8::encode_utf8(name));
    assert(0xE100_0000u32 <= (0xE100_0000u32 | (h & 0x00ff_ffffu32)) <= 0xE1FF_FFFFu32)
        by (bit_vector);
}

/// A new database is made from a template, with its own identifier and name; it is
/// no template itself, lets anyone connect, and has no limit on connections.
pub proof fn a_new_database_says_what_it_is(
    generated: GeneratedCatalog,
    table: StaticCatalogTable,
    oid: Oid,
    name: Seq<char>,
    column: Seq<char>,
)
    ensures
        databases::database_row(generated, table, oid, name) matches Some(row) ==> {
            &&& row.row_id == oid.0
            &&& columns::row_value(table, row, column) matches Some(v) ==> {
                &&& column == "oid"@ ==> v == CatalogValueView::Oid(oid)
                &&& column == "datname"@ ==> v == CatalogValueView::Name(name)
                &&& column == "datistemplate"@ ==> v == CatalogValueView::Bool(false)
                &&& column == "datallowconn"@ ==> v == CatalogValueView::Bool(true)
                &&& column == "dathasloginevt"@ ==> v == CatalogValueView::Bool(false)
                &&& column == "datconnlimit"@ ==> v == CatalogValueView::Int32((-1) as i32)
            }
        },
{
    reveal_strlit("oid");
    reveal_strlit("datname");
    reveal_strlit("datistemplate");
    reveal_strlit("datallowconn");
    reveal_strlit("dathasloginevt");
    reveal_strlit("datconnlimit");
    assert("oid"@.len() == 3 && "datname"@.len() == 7 && "datistemplate"@.len() == 13);
    assert("datallowconn"@.len() == 12 && "dathasloginevt"@.len() == 14 && "datconnlimit"@.len()
        == 12);
    assert("datallowconn"@[3] == 'a' && "datconnlimit"@[3] == 'c');
    match databases::database_base(generated, table, oid) {
        Some(base) => {
            let all = databases::database_columns(oid, name);
            columns::values_keep_the_identity(table, base, all);
            columns::assigned_columns_read_back(table, base, all, column);
            match columns::row_value(table, base, column) {
                Some(before) => {
                    if column == "oid"@ {
                        columns::the_last_assignment_counts(all, column, before, 0);
                    } else if column == "datname"@ {
                        columns::the_last_assignment_counts(all, column, before, 1);
                    } else if column == "datistemplate"@ {
                        columns::the_last_assignment_counts(all, column, before, 2);
                    } else if column == "datallowconn"@ {
                        columns::the_last_assignment_counts(all, column, before, 3);
                    } else if column == "dathasloginevt"@ {
                        columns::the_last_assignment_counts(all, column, before, 4);
                    } else if column == "datconnlimit"@ {
                        columns::the_last_assignment_counts(all, column, before, 5);
                    }
                },
                None => {},
            }
        },
        None => {},
    }
}

} // verus!
