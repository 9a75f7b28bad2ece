//! Filters on descriptions: which of them follow from operators depends on which
//! others there are.

use vstd::prelude::*;

use crate::catalog::index;
use crate::catalog::meta;
use crate::catalog::model::{
    CatalogRowView, GeneratedCatalog, PgOperatorRecord, StaticCatalogTable,
    PG_OPERATOR_RELATION_OID, PG_PROC_RELATION_OID,
};
use crate::catalog::rows;
use crate::catalog::rows::{DescriptionView, RequestView};
use crate::catalog::synthetic;
use crate::ordered;
use crate::search;
use crate::types::Oid;

verus! {

impl RequestView {
    /// Whether a description of a function is asked for that follows from one of
    /// its operators.
    pub open spec fn asks_for_description(self, proc_oid: u32) -> bool {
        exists|i: int|
            0 <= i < self.generated.operators@.len() && self.asks_for_operator(
                #[trigger] self.generated.operators@[i],
                proc_oid,
            )
    }

    /// Whether the description of a function is asked for that follows from an
    /// operator, if it does.
    pub open spec fn asks_for_operator(self, operator: PgOperatorRecord, proc_oid: u32) -> bool {
        &&& operator.code.0 == proc_oid
        &&& synthetic::description_row(
            self.generated,
            self.table,
            Oid(proc_oid),
            rows::operator_description(operator),
        ) matches Some(row) && self.wants(row)
    }

    /// Whether no description that is filtered away decides on one that is asked
    /// for: that of a function keeps others of the function from following, and
    /// that of an operator can call it deprecated.
    pub open spec fn keeps_what_decides(self, compiled: Map<u64, CatalogRowView>) -> bool {
        forall|id: u64| #[trigger]
            compiled.contains_key(id) && !self.wants(compiled[id]) ==> match rows::description_key(
                self.generated,
                self.table,
                compiled[id],
            ) {
                Some(key) => {
                    &&& key.0 == PG_PROC_RELATION_OID && key.2 == 0
                        ==> !self.asks_for_description(key.1)
                    &&& key.0 == PG_OPERATOR_RELATION_OID && key.2 == 0 ==> forall|i: int|
                        0 <= i < self.generated.operators@.len() && (
                        #[trigger] self.generated.operators@[i]).oid.0 == key.1
                            ==> !self.asks_for_description(
                            self.generated.operators@[i].code.0,
                        )
                },
                None => true,
            }
    }

    /// Gives whether a row is asked for.
    pub open spec fn wanted(self) -> spec_fn(CatalogRowView) -> bool {
        |row: CatalogRowView| self.wants(row)
    }
}

/// Rows by their identities, in an order.
pub open spec fn rows_at(ids: Seq<u64>, m: Map<u64, CatalogRowView>) -> Seq<CatalogRowView> {
    Seq::new(ids.len(), |i: int| m[ids[i]])
}

proof fn lemma_chosen_in_order(request: RequestView, m: Map<u64, CatalogRowView>)
    ensures
        rows::in_order(request.chosen(m)) == rows_at(index::ids_where(m, request.wanted()), m),
        rows::in_order(m) == rows_at(ordered::sorted_ids(m.dom()), m),
{
    let ids = index::ids_where(m, request.wanted());
    index::ids_where_are_the_matches(m, request.wanted());
    let kept = request.chosen(m);
    assert forall|k: u64| #[trigger] ids.contains(k) <==> kept.dom().contains(k) by {}
    ordered::sorted_ids_are(kept.dom(), ids);
    assert forall|i: int| 0 <= i < ids.len() implies kept[ids[i]] == m[#[trigger] ids[i]] by {
        assert(ids.contains(ids[i]));
    }
    assert(rows::in_order(kept) =~= rows_at(ids, m));
    assert(rows::in_order(m) =~= rows_at(ordered::sorted_ids(m.dom()), m));
}

proof fn lemma_descriptions_push(
    generated: GeneratedCatalog,
    table: StaticCatalogTable,
    list: Seq<CatalogRowView>,
    row: CatalogRowView,
)
    ensures
        rows::descriptions(generated, table, list.push(row)) == match (
            rows::description_key(generated, table, row),
            meta::string_at(table, row, "description"@),
        ) {
            (Some(key), Some(text)) => rows::descriptions(generated, table, list).push(
                DescriptionView { key, text },
            ),
            _ => rows::descriptions(generated, table, list),
        },
{
    assert(list.push(row).drop_last() =~= list);
}

/// Filtering rows away leaves what is told under a key of which no row is
/// filtered away.
proof fn lemma_same_description(
    request: RequestView,
    ids: Seq<u64>,
    m: Map<u64, CatalogRowView>,
    key: (u32, u32, i32),
)
    requires
        forall|i: int|
            0 <= i < ids.len() && rows::description_key(
                request.generated,
                request.table,
                m[#[trigger] ids[i]],
            ) == Some(key) ==> request.wants(m[ids[i]]),
    ensures
        search::last_with(
            rows::descriptions(
                request.generated,
                request.table,
                rows_at(index::filtered(ids, m, request.wanted()), m),
            ),
            rows::describes(key),
        ) == search::last_with(
            rows::descriptions(request.generated, request.table, rows_at(ids, m)),
            rows::describes(key),
        ),
    decreases ids.len(),
{
    let generated = request.generated;
    let table = request.table;
    if ids.len() > 0 {
        let before = ids.drop_last();
        let last = ids.last();
        let row = m[last];
        assert(ids[ids.len() - 1] == last);
        assert forall|i: int|
            0 <= i < before.len() && rows::description_key(
                generated,
                table,
                m[#[trigger] before[i]],
            ) == Some(key) implies request.wants(m[before[i]]) by {
            assert(before[i] == ids[i]);
        }
        lemma_same_description(request, before, m, key);
        let kept = index::filtered(before, m, request.wanted());
        assert(rows_at(ids, m) =~= rows_at(before, m).push(row));
        lemma_descriptions_push(generated, table, rows_at(before, m), row);
        assert(rows_at(kept.push(last), m) =~= rows_at(kept, m).push(row));
        lemma_descriptions_push(generated, table, rows_at(kept, m), row);
        let told = rows::descriptions(generated, table, rows_at(before, m));
        let told_kept = rows::descriptions(generated, table, rows_at(kept, m));
        match (
            rows::description_key(generated, table, row),
            meta::string_at(table, row, "description"@),
        ) {
            (Some(k), Some(text)) => {
                let d = DescriptionView { key: k, text };
                assert(told.push(d).drop_last() =~= told);
                assert(told_kept.push(d).drop_last() =~= told_kept);
            },
            _ => {},
        }
    } else {
        assert(rows_at(index::filtered(ids, m, request.wanted()), m) =~= rows_at(ids, m));
    }
}

/// The rows that are made for keys, in an order.
spec fn made_for(
    ids: Seq<u64>,
    make: spec_fn(u64) -> Option<CatalogRowView>,
) -> Seq<Option<CatalogRowView>> {
    Seq::new(ids.len(), |i: int| make(ids[i]))
}

proof fn lemma_with_one_more(
    request: RequestView,
    start: Map<u64, CatalogRowView>,
    list: Seq<Option<CatalogRowView>>,
    row: Option<CatalogRowView>,
)
    ensures
        request.with_each(start, list.push(row)) == request.with_one(
            request.with_each(start, list),
            row,
        ),
{
    assert(list.push(row).drop_last() =~= list);
}

/// Keys that nothing is made for change nothing.
proof fn lemma_more_keys(
    request: RequestView,
    start: Map<u64, CatalogRowView>,
    few: Set<u64>,
    many: Set<u64>,
    make: spec_fn(u64) -> Option<CatalogRowView>,
    n: nat,
)
    requires
        n <= 0x1_0000_0000_0000_0000,
        few.subset_of(many),
        forall|k: u64| #[trigger] many.contains(k) && !few.contains(k) ==> make(k) is None,
    ensures
        request.with_each(start, made_for(ordered::ids_below(few, n), make)) == request.with_each(
            start,
            made_for(ordered::ids_below(many, n), make),
        ),
    decreases n,
{
    if n > 0 {
        let k = (n - 1) as u64;
        lemma_more_keys(request, start, few, many, make, (n - 1) as nat);
        let a = ordered::ids_below(few, (n - 1) as nat);
        let b = ordered::ids_below(many, (n - 1) as nat);
        assert(made_for(a.push(k), make) =~= made_for(a, make).push(make(k)));
        assert(made_for(b.push(k), make) =~= made_for(b, make).push(make(k)));
        lemma_with_one_more(request, start, made_for(a, make), make(k));
        lemma_with_one_more(request, start, made_for(b, make), make(k));
        assert(few.contains(k) ==> many.contains(k));
    } else {
        assert(made_for(ordered::ids_below(few, n), make) =~= made_for(
            ordered::ids_below(many, n),
            make,
        ));
    }
}

/// Rows that are not asked for make no difference.
proof fn lemma_same_where_asked_for(
    request: RequestView,
    start: Map<u64, CatalogRowView>,
    ids: Seq<u64>,
    a: spec_fn(u64) -> Option<CatalogRowView>,
    b: spec_fn(u64) -> Option<CatalogRowView>,
)
    requires
        forall|i: int|
            0 <= i < ids.len() ==> request.asked_part(a(#[trigger] ids[i])) == request.asked_part(
                b(ids[i]),
            ),
    ensures
        request.with_each(start, made_for(ids, a)) == request.with_each(start, made_for(ids, b)),
    decreases ids.len(),
{
    if ids.len() > 0 {
        let before = ids.drop_last();
        let last = ids.last();
        assert(ids[ids.len() - 1] == last);
        assert forall|i: int| 0 <= i < before.len() implies request.asked_part(
            a(#[trigger] before[i]),
        ) == request.asked_part(b(before[i])) by {
            assert(before[i] == ids[i]);
        }
        lemma_same_where_asked_for(request, start, before, a, b);
        assert(made_for(ids, a) =~= made_for(before, a).push(a(last)));
        assert(made_for(ids, b) =~= made_for(before, b).push(b(last)));
        lemma_with_one_more(request, start, made_for(before, a), a(last));
        lemma_with_one_more(request, start, made_for(before, b), b(last));
    } else {
        assert(made_for(ids, a) =~= made_for(ids, b));
    }
}

impl RequestView {
    /// A row, where it is asked for.
    pub open spec fn asked_part(self, row: Option<CatalogRowView>) -> Option<CatalogRowView> {
        match row {
            Some(r) if self.wants(r) => Some(r),
            _ => None,
        }
    }
}

/// Gives the description of a function that follows from an operator.
spec fn described(
    generated: GeneratedCatalog,
    table: StaticCatalogTable,
    list: Seq<DescriptionView>,
) -> spec_fn(u64) -> Option<CatalogRowView> {
    |k: u64| rows::proc_description(generated, table, list, k as u32)
}

proof fn lemma_described_by_all_keys(
    request: RequestView,
    start: Map<u64, CatalogRowView>,
    list: Seq<DescriptionView>,
)
    ensures
        request.with_each(
            start,
            rows::proc_descriptions(request.generated, request.table, list),
        ) == request.with_each(
            start,
            made_for(
                ordered::sorted_ids(Set::new(|k: u64| k <= u32::MAX)),
                described(request.generated, request.table, list),
            ),
        ),
{
    let procs = rows::operator_procs(request.generated, list);
    let make = described(request.generated, request.table, list);
    let many = Set::new(|k: u64| k <= u32::MAX);
    assert(rows::proc_descriptions(request.generated, request.table, list) =~= made_for(
        ordered::sorted_ids(procs),
        make,
    ));
    lemma_more_keys(request, start, procs, many, make, 0x1_0000_0000_0000_0000);
}

/// The first operator with a property is the same for properties that agree.
proof fn lemma_same_first(
    s: Seq<PgOperatorRecord>,
    p: spec_fn(PgOperatorRecord) -> bool,
    q: spec_fn(PgOperatorRecord) -> bool,
)
    requires
        forall|i: int| 0 <= i < s.len() ==> p(#[trigger] s[i]) == q(s[i]),
    ensures
        search::first_with(s, p) == search::first_with(s, q),
{
    search::first_index_is_first(s, p);
    match search::first_index(s, p) {
        Some(i) => {
            search::first_index_at(s, q, i);
        },
        None => {
            search::first_index_none(s, q);
        },
    }
}

/// Filtering away descriptions that decide on none that is asked for leaves those
/// that are.
proof fn lemma_description_asked_for(
    request: RequestView,
    compiled: Map<u64, CatalogRowView>,
    proc_oid: u32,
)
    requires
        request.keeps_what_decides(compiled),
    ensures
        ({
            let generated = request.generated;
            let table = request.table;
            let kept = rows::descriptions(
                generated,
                table,
                rows::in_order(request.chosen(compiled)),
            );
            let all = rows::descriptions(generated, table, rows::in_order(compiled));
            request.asked_part(rows::proc_description(generated, table, kept, proc_oid))
                == request.asked_part(rows::proc_description(generated, table, all, proc_oid))
        }),
{
    let generated = request.generated;
    let table = request.table;
    let operators = generated.operators@;
    let kept = rows::descriptions(generated, table, rows::in_order(request.chosen(compiled)));
    let all = rows::descriptions(generated, table, rows::in_order(compiled));
    let ids = ordered::sorted_ids(compiled.dom());
    lemma_chosen_in_order(request, compiled);
    ordered::sorted_ids_list_the_set(compiled.dom());
    if request.asks_for_description(proc_oid) {
        let key = (PG_PROC_RELATION_OID, proc_oid, 0i32);
        assert forall|i: int|
            0 <= i < ids.len() && rows::description_key(
                generated,
                table,
                compiled[#[trigger] ids[i]],
            ) == Some(key) implies request.wants(compiled[ids[i]]) by {
            assert(ids.contains(ids[i]));
            assert(compiled.contains_key(ids[i]));
        }
        lemma_same_description(request, ids, compiled, key);
        let p = rows::names_proc(kept, proc_oid);
        let q = rows::names_proc(all, proc_oid);
        assert forall|j: int| 0 <= j < operators.len() implies p(#[trigger] operators[j]) == q(
            operators[j],
        ) by {
            let op = operators[j];
            if op.code.0 == proc_oid {
                let named = (PG_OPERATOR_RELATION_OID, op.oid.0, 0i32);
                assert forall|i: int|
                    0 <= i < ids.len() && rows::description_key(
                        generated,
                        table,
                        compiled[#[trigger] ids[i]],
                    ) == Some(named) implies request.wants(compiled[ids[i]]) by {
                    assert(ids.contains(ids[i]));
                    assert(compiled.contains_key(ids[i]));
                    if !request.wants(compiled[ids[i]]) {
                        assert(!request.asks_for_description(operators[j].code.0));
                    }
                }
                lemma_same_description(request, ids, compiled, named);
            }
        }
        lemma_same_first(operators, p, q);
    } else {
        assert(request.asked_part(
            rows::proc_description(generated, table, kept, proc_oid),
        ) is None) by {
            lemma_not_asked_for(request, kept, proc_oid);
        }
        assert(request.asked_part(
            rows::proc_description(generated, table, all, proc_oid),
        ) is None) by {
            lemma_not_asked_for(request, all, proc_oid);
        }
    }
}

proof fn lemma_not_asked_for(request: RequestView, list: Seq<DescriptionView>, proc_oid: u32)
    requires
        !request.asks_for_description(proc_oid),
    ensures
        request.asked_part(
            rows::proc_description(request.generated, request.table, list, proc_oid),
        ) is None,
{
    let operators = request.generated.operators@;
    let p = rows::names_proc(list, proc_oid);
    search::first_index_is_first(operators, p);
    match search::first_index(operators, p) {
        Some(i) => {
            assert(!request.asks_for_operator(operators[i], proc_oid));
        },
        None => {},
    }
}

/// Of the descriptions that follow from operators, filtered rows give just those
/// that all rows give and that pass the filters.
pub(crate) proof fn lemma_descriptions_are_picked(
    request: RequestView,
    compiled: Map<u64, CatalogRowView>,
    start: Map<u64, CatalogRowView>,
)
    requires
        request.keeps_what_decides(compiled),
    ensures
        ({
            let generated = request.generated;
            let table = request.table;
            request.with_each(
                start,
                rows::proc_descriptions(
                    generated,
                    table,
                    rows::descriptions(
                        generated,
                        table,
                        rows::in_order(request.chosen(compiled)),
                    ),
                ),
            ) == request.with_each(
                start,
                rows::proc_descriptions(
                    generated,
                    table,
                    rows::descriptions(generated, table, rows::in_order(compiled)),
                ),
            )
        }),
{
    let generated = request.generated;
    let table = request.table;
    let kept = rows::descriptions(generated, table, rows::in_order(request.chosen(compiled)));
    let all = rows::descriptions(generated, table, rows::in_order(compiled));
    lemma_described_by_all_keys(request, start, kept);
    lemma_described_by_all_keys(request, start, all);
    let ids = ordered::sorted_ids(Set::new(|k: u64| k <= u32::MAX));
    let a = described(generated, table, kept);
    let b = described(generated, table, all);
    assert forall|i: int| 0 <= i < ids.len() implies request.asked_part(a(#[trigger] ids[i]))
        == request.asked_part(b(ids[i])) by {
        lemma_description_asked_for(request, compiled, ids[i] as u32);
    }
    lemma_same_where_asked_for(request, start, ids, a, b);
}

} // verus!
