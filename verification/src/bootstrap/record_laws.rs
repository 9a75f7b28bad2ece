//! What the records of compiled-in objects say is what the columns of their rows
//! hold.

use vstd::prelude::*;
use vstd::utf8;

use crate::bootstrap::bki::BkiTableView;
use crate::bootstrap::cells;
use crate::bootstrap::records;
use crate::catalog::model::{
    PgAggregateRecord, PgCastRecord, PgNamespaceRecord, PgOperatorRecord, PgProcRecord,
    PgTypeRecord,
};
use crate::search;
use crate::text;
use crate::types::Oid;

verus! {

/// Whether a row holds a text in the column of a name. Of columns with one name,
/// the first counts.
pub open spec fn has(
    table: BkiTableView,
    row: Seq<Option<Seq<char>>>,
    column: Seq<char>,
    s: Seq<char>,
) -> bool {
    exists|i: int|
        0 <= i < table.columns.len() && i < row.len() && row[i] == Some(s) && (
        #[trigger] table.columns[i]).name == column && forall|j: int|
            0 <= j < i ==> (#[trigger] table.columns[j]).name != column
}

/// Whether a catalog has a column of a name.
pub open spec fn has_column(table: BkiTableView, column: Seq<char>) -> bool {
    exists|i: int| 0 <= i < table.columns.len() && (#[trigger] table.columns[i]).name == column
}

/// Whether a row holds the decimal form of an identifier in a column.
pub open spec fn has_oid(
    table: BkiTableView,
    row: Seq<Option<Seq<char>>>,
    column: Seq<char>,
    oid: Oid,
) -> bool {
    has(table, row, column, text::decimal_int(oid.0 as int))
}

/// Whether a row holds the decimal form of a number in a column.
pub open spec fn has_number(
    table: BkiTableView,
    row: Seq<Option<Seq<char>>>,
    column: Seq<char>,
    n: int,
) -> bool {
    has(table, row, column, text::decimal_int(n))
}

/// Whether a row holds a truth value in a column.
pub open spec fn has_truth(
    table: BkiTableView,
    row: Seq<Option<Seq<char>>>,
    column: Seq<char>,
    b: bool,
) -> bool {
    has(
        table,
        row,
        column,
        if b {
            "t"@
        } else {
            "f"@
        },
    )
}

/// Whether a row holds an ASCII character in a column.
pub open spec fn has_letter(
    table: BkiTableView,
    row: Seq<Option<Seq<char>>>,
    column: Seq<char>,
    c: u8,
) -> bool {
    c < 128 && has(table, row, column, seq![c as char])
}

/// Whether an identifier is the one that a row holds in a column, if it holds one
/// there.
pub open spec fn tells_oid(
    table: BkiTableView,
    row: Seq<Option<Seq<char>>>,
    column: Seq<char>,
    oid: Oid,
) -> bool {
    forall|n: u32| #[trigger] has_oid(table, row, column, Oid(n)) ==> oid == Oid(n)
}

/// The same of a number.
pub open spec fn tells_number(
    table: BkiTableView,
    row: Seq<Option<Seq<char>>>,
    column: Seq<char>,
    n: int,
) -> bool {
    forall|m: int|
        i64::MIN <= m <= i64::MAX && #[trigger] has_number(table, row, column, m) ==> n == m
}

/// The same of a truth value.
pub open spec fn tells_truth(
    table: BkiTableView,
    row: Seq<Option<Seq<char>>>,
    column: Seq<char>,
    b: bool,
) -> bool {
    forall|v: bool| #[trigger] has_truth(table, row, column, v) ==> b == v
}

/// The same of a character.
pub open spec fn tells_letter(
    table: BkiTableView,
    row: Seq<Option<Seq<char>>>,
    column: Seq<char>,
    c: u8,
) -> bool {
    forall|v: u8| #[trigger] has_letter(table, row, column, v) ==> c == v
}

proof fn lemma_has(
    table: BkiTableView,
    row: Seq<Option<Seq<char>>>,
    column: Seq<char>,
    s: Seq<char>,
)
    requires
        has(table, row, column, s),
    ensures
        table.text(row, column) == s,
        table.place(column) is Some,
{
    let i = choose|i: int|
        0 <= i < table.columns.len() && i < row.len() && row[i] == Some(s) && (
        #[trigger] table.columns[i]).name == column && forall|j: int|
            0 <= j < i ==> (#[trigger] table.columns[j]).name != column;
    search::first_index_at(table.columns, cells::column_named(column), i);
}

proof fn lemma_columns(table: BkiTableView, row: Seq<Option<Seq<char>>>)
    ensures
        forall|column: Seq<char>, s: Seq<char>| #[trigger]
            has(table, row, column, s) ==> has_column(table, column),
        forall|column: Seq<char>| #[trigger]
            has_column(table, column) ==> table.place(column) is Some,
{
    assert forall|column: Seq<char>| #[trigger] has_column(table, column) implies table.place(
        column,
    ) is Some by {
        search::first_index_is_first(table.columns, cells::column_named(column));
        let i = choose|i: int|
            0 <= i < table.columns.len() && (#[trigger] table.columns[i]).name == column;
        assert(cells::column_named(column)(table.columns[i]));
    }
}

/// A number is read from its decimal form.
proof fn lemma_number(n: int)
    requires
        i64::MIN <= n <= i64::MAX,
    ensures
        cells::number(text::decimal_int(n)) == Some(n),
{
    let s = text::decimal_int(n);
    text::decimal_form_reads_back(n, i64::MIN as int, i64::MAX as int);
    text::decimal_form_is_digits(n);
    reveal_strlit("-");
    reveal_strlit("NAMEDATALEN");
    assert(!text::is_digit("-"@.last()));
    assert("NAMEDATALEN"@[0] == 'N');
}

proof fn lemma_letter(c: u8)
    requires
        c < 128,
    ensures
        cells::letter(seq![c as char]) == c,
{
    let s = seq![c as char];
    reveal_strlit("\\0");
    assert("\\0"@.len() == 2);
    utf8::is_ascii_chars_encode_utf8(s);
    assert(utf8::encode_utf8(s)[0] == s[0] as u8);
}

proof fn lemma_cells(table: BkiTableView, row: Seq<Option<Seq<char>>>)
    ensures
        forall|column: Seq<char>, oid: Oid| #[trigger]
            has_oid(table, row, column, oid) ==> table.oid_in(row, column) == oid,
        forall|column: Seq<char>, n: int, lo: int, hi: int|
            #![trigger has_number(table, row, column, n), table.number_in(row, column, lo, hi)]
            has_number(table, row, column, n) && i64::MIN <= n <= i64::MAX ==> table.number_in(
                row,
                column,
                lo,
                hi,
            ) == if lo <= n <= hi {
                Some(n)
            } else {
                None
            },
        forall|column: Seq<char>, b: bool| #[trigger]
            has_truth(table, row, column, b) ==> table.truth_in(row, column) == Some(b),
        forall|column: Seq<char>, c: u8| #[trigger]
            has_letter(table, row, column, c) ==> table.letter_in(row, column) == c,
{
    assert forall|column: Seq<char>, oid: Oid| #[trigger]
        has_oid(table, row, column, oid) implies table.oid_in(row, column) == oid by {
        lemma_has(table, row, column, text::decimal_int(oid.0 as int));
        lemma_number(oid.0 as int);
    }
    assert forall|column: Seq<char>, n: int, lo: int, hi: int|
        #![trigger has_number(table, row, column, n), table.number_in(row, column, lo, hi)]
        has_number(table, row, column, n) && i64::MIN <= n <= i64::MAX implies table.number_in(
        row,
        column,
        lo,
        hi,
    ) == if lo <= n <= hi {
        Some(n)
    } else {
        None
    } by {
        lemma_has(table, row, column, text::decimal_int(n));
        lemma_number(n);
    }
    assert forall|column: Seq<char>, b: bool| #[trigger]
        has_truth(table, row, column, b) implies table.truth_in(row, column) == Some(b) by {
        let s = if b {
            "t"@
        } else {
            "f"@
        };
        lemma_has(table, row, column, s);
        reveal_strlit("t");
        reveal_strlit("f");
        reveal_strlit("true");
        assert("t"@.len() == 1 && "f"@.len() == 1 && "true"@.len() == 4);
        assert("t"@[0] == 't' && "f"@[0] == 'f');
    }
    assert forall|column: Seq<char>, c: u8| #[trigger]
        has_letter(table, row, column, c) implies table.letter_in(row, column) == c by {
        lemma_has(table, row, column, seq![c as char]);
        lemma_letter(c);
    }
}

/// A type is what its row says: each field is what the row holds in the column of
/// that field, whatever the other columns hold.
pub proof fn type_fields_are_those_of_the_row(
    table: BkiTableView,
    row: Seq<Option<Seq<char>>>,
    name: &'static str,
    r: PgTypeRecord,
)
    requires
        records::type_record(table, row, name) == Some(r),
    ensures
        tells_oid(table, row, "oid"@, r.oid),
        r.name == name,
        tells_oid(table, row, "typnamespace"@, r.namespace),
        tells_oid(table, row, "typowner"@, r.owner),
        tells_number(table, row, "typlen"@, r.typlen as int),
        tells_truth(table, row, "typbyval"@, r.typbyval),
        tells_letter(table, row, "typalign"@, r.typalign),
        tells_letter(table, row, "typdelim"@, r.typdelim),
        tells_oid(table, row, "typinput"@, r.typinput),
        tells_oid(table, row, "typoutput"@, r.typoutput),
        tells_oid(table, row, "typreceive"@, r.typreceive),
        tells_oid(table, row, "typsend"@, r.typsend),
        tells_oid(table, row, "typmodin"@, r.typmodin),
        tells_oid(table, row, "typmodout"@, r.typmodout),
        tells_truth(table, row, "typisdefined"@, r.typisdefined),
        tells_letter(table, row, "typtype"@, r.typtype),
        tells_letter(table, row, "typcategory"@, r.typcategory),
        tells_truth(table, row, "typispreferred"@, r.typispreferred),
        tells_oid(table, row, "typrelid"@, r.typrelid),
        tells_oid(table, row, "typelem"@, r.typelem),
        tells_oid(table, row, "typarray"@, r.typarray),
        tells_oid(table, row, "typbasetype"@, r.typbasetype),
        tells_number(table, row, "typtypmod"@, r.typtypmod as int),
        tells_oid(table, row, "typcollation"@, r.typcollation),
        tells_oid(table, row, "typsubscript"@, r.typsubscript),
        tells_letter(table, row, "typstorage"@, r.typstorage),
{
    lemma_cells(table, row);
}

/// Whether the fields of a type are written in the columns of a row.
pub open spec fn type_is_written(
    table: BkiTableView,
    row: Seq<Option<Seq<char>>>,
    r: PgTypeRecord,
) -> bool {
    &&& has_oid(table, row, "oid"@, r.oid)
    &&& has_oid(table, row, "typnamespace"@, r.namespace)
    &&& has_oid(table, row, "typowner"@, r.owner)
    &&& has_number(table, row, "typlen"@, r.typlen as int)
    &&& has_truth(table, row, "typbyval"@, r.typbyval)
    &&& has_letter(table, row, "typalign"@, r.typalign)
    &&& has_letter(table, row, "typdelim"@, r.typdelim)
    &&& has_oid(table, row, "typinput"@, r.typinput)
    &&& has_oid(table, row, "typoutput"@, r.typoutput)
    &&& has_oid(table, row, "typreceive"@, r.typreceive)
    &&& has_oid(table, row, "typsend"@, r.typsend)
    &&& has_oid(table, row, "typmodin"@, r.typmodin)
    &&& has_oid(table, row, "typmodout"@, r.typmodout)
    &&& has_truth(table, row, "typisdefined"@, r.typisdefined)
    &&& has_letter(table, row, "typtype"@, r.typtype)
    &&& has_letter(table, row, "typcategory"@, r.typcategory)
    &&& has_truth(table, row, "typispreferred"@, r.typispreferred)
    &&& has_oid(table, row, "typrelid"@, r.typrelid)
    &&& has_oid(table, row, "typelem"@, r.typelem)
    &&& has_oid(table, row, "typarray"@, r.typarray)
    &&& has_oid(table, row, "typbasetype"@, r.typbasetype)
    &&& has_number(table, row, "typtypmod"@, r.typtypmod as int)
    &&& has_oid(table, row, "typcollation"@, r.typcollation)
    &&& has_oid(table, row, "typsubscript"@, r.typsubscript)
    &&& has_letter(table, row, "typstorage"@, r.typstorage)
    &&& has_column(table, "typname"@)
}

/// A type whose fields are written in a row is read back.
pub proof fn a_written_type_is_read_back(
    table: BkiTableView,
    row: Seq<Option<Seq<char>>>,
    r: PgTypeRecord,
)
    requires
        type_is_written(table, row, r),
    ensures
        records::type_record(table, row, r.name) == Some(r),
{
    lemma_cells(table, row);
    lemma_columns(table, row);
    let names = records::type_columns();
    assert(table.has_all(names)) by {
        assert forall|i: int| 0 <= i < names.len() implies #[trigger] table.place(
            names[i],
        ) is Some by {
            assert(has_column(table, "oid"@));
            assert(has_column(table, "typname"@));
            assert(has_column(table, "typnamespace"@));
            assert(has_column(table, "typowner"@));
            assert(has_column(table, "typlen"@));
            assert(has_column(table, "typbyval"@));
            assert(has_column(table, "typalign"@));
            assert(has_column(table, "typdelim"@));
            assert(has_column(table, "typinput"@));
            assert(has_column(table, "typoutput"@));
            assert(has_column(table, "typreceive"@));
            assert(has_column(table, "typsend"@));
            assert(has_column(table, "typmodin"@));
            assert(has_column(table, "typmodout"@));
            assert(has_column(table, "typisdefined"@));
            assert(has_column(table, "typtype"@));
            assert(has_column(table, "typcategory"@));
            assert(has_column(table, "typispreferred"@));
            assert(has_column(table, "typrelid"@));
            assert(has_column(table, "typelem"@));
            assert(has_column(table, "typarray"@));
            assert(has_column(table, "typbasetype"@));
            assert(has_column(table, "typtypmod"@));
            assert(has_column(table, "typcollation"@));
            assert(has_column(table, "typsubscript"@));
            assert(has_column(table, "typstorage"@));
        }
    }
}

/// A function is what its row says: each field is what the row holds in the column of
/// that field, whatever the other columns hold.
pub proof fn proc_fields_are_those_of_the_row(
    table: BkiTableView,
    row: Seq<Option<Seq<char>>>,
    name: &'static str,
    cost: u32,
    rows: u32,
    arg_types: &'static [Oid],
    source: &'static str,
    r: PgProcRecord,
)
    requires
        records::proc_record(table, row, name, cost, rows, arg_types, source) == Some(r),
    ensures
        tells_oid(table, row, "oid"@, r.oid),
        r.name == name,
        tells_oid(table, row, "pronamespace"@, r.namespace),
        tells_oid(table, row, "proowner"@, r.owner),
        tells_oid(table, row, "prolang"@, r.language),
        r.cost == cost,
        r.rows == rows,
        tells_oid(table, row, "provariadic"@, r.variadic),
        tells_oid(table, row, "prosupport"@, r.support),
        tells_letter(table, row, "prokind"@, r.kind),
        tells_truth(table, row, "prosecdef"@, r.security_definer),
        tells_truth(table, row, "proleakproof"@, r.leakproof),
        tells_truth(table, row, "proisstrict"@, r.strict),
        tells_truth(table, row, "proretset"@, r.returns_set),
        tells_letter(table, row, "provolatile"@, r.volatility),
        tells_letter(table, row, "proparallel"@, r.parallel),
        tells_oid(table, row, "prorettype"@, r.return_type),
        r.arg_types == arg_types,
        tells_number(table, row, "pronargdefaults"@, r.arg_defaults as int),
        r.source == source,
{
    lemma_cells(table, row);
}

/// Whether the fields of a function are written in the columns of a row.
pub open spec fn proc_is_written(
    table: BkiTableView,
    row: Seq<Option<Seq<char>>>,
    r: PgProcRecord,
) -> bool {
    &&& has_oid(table, row, "oid"@, r.oid)
    &&& has_oid(table, row, "pronamespace"@, r.namespace)
    &&& has_oid(table, row, "proowner"@, r.owner)
    &&& has_oid(table, row, "prolang"@, r.language)
    &&& has_oid(table, row, "provariadic"@, r.variadic)
    &&& has_oid(table, row, "prosupport"@, r.support)
    &&& has_letter(table, row, "prokind"@, r.kind)
    &&& has_truth(table, row, "prosecdef"@, r.security_definer)
    &&& has_truth(table, row, "proleakproof"@, r.leakproof)
    &&& has_truth(table, row, "proisstrict"@, r.strict)
    &&& has_truth(table, row, "proretset"@, r.returns_set)
    &&& has_letter(table, row, "provolatile"@, r.volatility)
    &&& has_letter(table, row, "proparallel"@, r.parallel)
    &&& has_oid(table, row, "prorettype"@, r.return_type)
    &&& has_number(table, row, "pronargdefaults"@, r.arg_defaults as int)
    &&& has_column(table, "proname"@)
    &&& has_column(table, "procost"@)
    &&& has_column(table, "prorows"@)
    &&& has_column(table, "proargtypes"@)
    &&& has_column(table, "prosrc"@)
}

/// A function whose fields are written in a row is read back.
pub proof fn a_written_proc_is_read_back(
    table: BkiTableView,
    row: Seq<Option<Seq<char>>>,
    r: PgProcRecord,
)
    requires
        proc_is_written(table, row, r),
    ensures
        records::proc_record(table, row, r.name, r.cost, r.rows, r.arg_types, r.source) == Some(r),
{
    lemma_cells(table, row);
    lemma_columns(table, row);
    let names = records::proc_columns();
    assert(table.has_all(names)) by {
        assert forall|i: int| 0 <= i < names.len() implies #[trigger] table.place(
            names[i],
        ) is Some by {
            assert(has_column(table, "oid"@));
            assert(has_column(table, "proname"@));
            assert(has_column(table, "pronamespace"@));
            assert(has_column(table, "proowner"@));
            assert(has_column(table, "prolang"@));
            assert(has_column(table, "procost"@));
            assert(has_column(table, "prorows"@));
            assert(has_column(table, "provariadic"@));
            assert(has_column(table, "prosupport"@));
            assert(has_column(table, "prokind"@));
            assert(has_column(table, "prosecdef"@));
            assert(has_column(table, "proleakproof"@));
            assert(has_column(table, "proisstrict"@));
            assert(has_column(table, "proretset"@));
            assert(has_column(table, "provolatile"@));
            assert(has_column(table, "proparallel"@));
            assert(has_column(table, "prorettype"@));
            assert(has_column(table, "proargtypes"@));
            assert(has_column(table, "pronargdefaults"@));
            assert(has_column(table, "prosrc"@));
        }
    }
}

/// An aggregate is what its row says: each field is what the row holds in the column of
/// that field, whatever the other columns hold.
pub proof fn aggregate_fields_are_those_of_the_row(
    table: BkiTableView,
    row: Seq<Option<Seq<char>>>,
    init_value: Option<&'static str>,
    moving_init_value: Option<&'static str>,
    r: PgAggregateRecord,
)
    requires
        records::aggregate_record(table, row, init_value, moving_init_value) == Some(r),
    ensures
        tells_oid(table, row, "aggfnoid"@, r.function_oid),
        tells_letter(table, row, "aggkind"@, r.kind),
        tells_number(table, row, "aggnumdirectargs"@, r.direct_arg_count as int),
        tells_oid(table, row, "aggtransfn"@, r.transition_fn),
        tells_oid(table, row, "aggfinalfn"@, r.final_fn),
        tells_oid(table, row, "aggcombinefn"@, r.combine_fn),
        tells_oid(table, row, "aggserialfn"@, r.serial_fn),
        tells_oid(table, row, "aggdeserialfn"@, r.deserial_fn),
        tells_oid(table, row, "aggmtransfn"@, r.moving_transition_fn),
        tells_oid(table, row, "aggminvtransfn"@, r.moving_inverse_fn),
        tells_oid(table, row, "aggmfinalfn"@, r.moving_final_fn),
        tells_truth(table, row, "aggfinalextra"@, r.final_extra),
        tells_truth(table, row, "aggmfinalextra"@, r.moving_final_extra),
        tells_letter(table, row, "aggfinalmodify"@, r.final_modify),
        tells_letter(table, row, "aggmfinalmodify"@, r.moving_final_modify),
        tells_oid(table, row, "aggsortop"@, r.sort_operator),
        tells_oid(table, row, "aggtranstype"@, r.transition_type),
        tells_number(table, row, "aggtransspace"@, r.transition_space as int),
        tells_oid(table, row, "aggmtranstype"@, r.moving_transition_type),
        tells_number(table, row, "aggmtransspace"@, r.moving_transition_space as int),
        r.init_value == init_value,
        r.moving_init_value == moving_init_value,
{
    lemma_cells(table, row);
}

/// Whether the fields of an aggregate are written in the columns of a row.
pub open spec fn aggregate_is_written(
    table: BkiTableView,
    row: Seq<Option<Seq<char>>>,
    r: PgAggregateRecord,
) -> bool {
    &&& has_oid(table, row, "aggfnoid"@, r.function_oid)
    &&& has_letter(table, row, "aggkind"@, r.kind)
    &&& has_number(table, row, "aggnumdirectargs"@, r.direct_arg_count as int)
    &&& has_oid(table, row, "aggtransfn"@, r.transition_fn)
    &&& has_oid(table, row, "aggfinalfn"@, r.final_fn)
    &&& has_oid(table, row, "aggcombinefn"@, r.combine_fn)
    &&& has_oid(table, row, "aggserialfn"@, r.serial_fn)
    &&& has_oid(table, row, "aggdeserialfn"@, r.deserial_fn)
    &&& has_oid(table, row, "aggmtransfn"@, r.moving_transition_fn)
    &&& has_oid(table, row, "aggminvtransfn"@, r.moving_inverse_fn)
    &&& has_oid(table, row, "aggmfinalfn"@, r.moving_final_fn)
    &&& has_truth(table, row, "aggfinalextra"@, r.final_extra)
    &&& has_truth(table, row, "aggmfinalextra"@, r.moving_final_extra)
    &&& has_letter(table, row, "aggfinalmodify"@, r.final_modify)
    &&& has_letter(table, row, "aggmfinalmodify"@, r.moving_final_modify)
    &&& has_oid(table, row, "aggsortop"@, r.sort_operator)
    &&& has_oid(table, row, "aggtranstype"@, r.transition_type)
    &&& has_number(table, row, "aggtransspace"@, r.transition_space as int)
    &&& has_oid(table, row, "aggmtranstype"@, r.moving_transition_type)
    &&& has_number(table, row, "aggmtransspace"@, r.moving_transition_space as int)
    &&& has_column(table, "agginitval"@)
    &&& has_column(table, "aggminitval"@)
}

/// An aggregate whose fields are written in a row is read back.
pub proof fn a_written_aggregate_is_read_back(
    table: BkiTableView,
    row: Seq<Option<Seq<char>>>,
    r: PgAggregateRecord,
)
    requires
        aggregate_is_written(table, row, r),
    ensures
        records::aggregate_record(table, row, r.init_value, r.moving_init_value) == Some(r),
{
    lemma_cells(table, row);
    lemma_columns(table, row);
    let names = records::aggregate_columns();
    assert(table.has_all(names)) by {
        assert forall|i: int| 0 <= i < names.len() implies #[trigger] table.place(
            names[i],
        ) is Some by {
            assert(has_column(table, "aggfnoid"@));
            assert(has_column(table, "aggkind"@));
            assert(has_column(table, "aggnumdirectargs"@));
            assert(has_column(table, "aggtransfn"@));
            assert(has_column(table, "aggfinalfn"@));
            assert(has_column(table, "aggcombinefn"@));
            assert(has_column(table, "aggserialfn"@));
            assert(has_column(table, "aggdeserialfn"@));
            assert(has_column(table, "aggmtransfn"@));
            assert(has_column(table, "aggminvtransfn"@));
            assert(has_column(table, "aggmfinalfn"@));
            assert(has_column(table, "aggfinalextra"@));
            assert(has_column(table, "aggmfinalextra"@));
            assert(has_column(table, "aggfinalmodify"@));
            assert(has_column(table, "aggmfinalmodify"@));
            assert(has_column(table, "aggsortop"@));
            assert(has_column(table, "aggtranstype"@));
            assert(has_column(table, "aggtransspace"@));
            assert(has_column(table, "aggmtranstype"@));
            assert(has_column(table, "aggmtransspace"@));
            assert(has_column(table, "agginitval"@));
            assert(has_column(table, "aggminitval"@));
        }
    }
}

/// An operator is what its row says: each field is what the row holds in the column of
/// that field, whatever the other columns hold.
pub proof fn operator_fields_are_those_of_the_row(
    table: BkiTableView,
    row: Seq<Option<Seq<char>>>,
    name: &'static str,
    r: PgOperatorRecord,
)
    requires
        records::operator_record(table, row, name) == Some(r),
    ensures
        tells_oid(table, row, "oid"@, r.oid),
        r.name == name,
        tells_oid(table, row, "oprnamespace"@, r.namespace),
        tells_oid(table, row, "oprowner"@, r.owner),
        tells_letter(table, row, "oprkind"@, r.kind),
        tells_truth(table, row, "oprcanmerge"@, r.can_merge),
        tells_truth(table, row, "oprcanhash"@, r.can_hash),
        tells_oid(table, row, "oprleft"@, r.left_type),
        tells_oid(table, row, "oprright"@, r.right_type),
        tells_oid(table, row, "oprresult"@, r.result_type),
        tells_oid(table, row, "oprcom"@, r.commutator),
        tells_oid(table, row, "oprnegate"@, r.negator),
        tells_oid(table, row, "oprcode"@, r.code),
        tells_oid(table, row, "oprrest"@, r.rest),
        tells_oid(table, row, "oprjoin"@, r.join),
{
    lemma_cells(table, row);
}

/// Whether the fields of an operator are written in the columns of a row.
pub open spec fn operator_is_written(
    table: BkiTableView,
    row: Seq<Option<Seq<char>>>,
    r: PgOperatorRecord,
) -> bool {
    &&& has_oid(table, row, "oid"@, r.oid)
    &&& has_oid(table, row, "oprnamespace"@, r.namespace)
    &&& has_oid(table, row, "oprowner"@, r.owner)
    &&& has_letter(table, row, "oprkind"@, r.kind)
    &&& has_truth(table, row, "oprcanmerge"@, r.can_merge)
    &&& has_truth(table, row, "oprcanhash"@, r.can_hash)
    &&& has_oid(table, row, "oprleft"@, r.left_type)
    &&& has_oid(table, row, "oprright"@, r.right_type)
    &&& has_oid(table, row, "oprresult"@, r.result_type)
    &&& has_oid(table, row, "oprcom"@, r.commutator)
    &&& has_oid(table, row, "oprnegate"@, r.negator)
    &&& has_oid(table, row, "oprcode"@, r.code)
    &&& has_oid(table, row, "oprrest"@, r.rest)
    &&& has_oid(table, row, "oprjoin"@, r.join)
    &&& has_column(table, "oprname"@)
}

/// An operator whose fields are written in a row is read back.
pub proof fn a_written_operator_is_read_back(
    table: BkiTableView,
    row: Seq<Option<Seq<char>>>,
    r: PgOperatorRecord,
)
    requires
        operator_is_written(table, row, r),
    ensures
        records::operator_record(table, row, r.name) == Some(r),
{
    lemma_cells(table, row);
    lemma_columns(table, row);
    let names = records::operator_columns();
    assert(table.has_all(names)) by {
        assert forall|i: int| 0 <= i < names.len() implies #[trigger] table.place(
            names[i],
        ) is Some by {
            assert(has_column(table, "oid"@));
            assert(has_column(table, "oprname"@));
            assert(has_column(table, "oprnamespace"@));
            assert(has_column(table, "oprowner"@));
            assert(has_column(table, "oprkind"@));
            assert(has_column(table, "oprcanmerge"@));
            assert(has_column(table, "oprcanhash"@));
            assert(has_column(table, "oprleft"@));
            assert(has_column(table, "oprright"@));
            assert(has_column(table, "oprresult"@));
            assert(has_column(table, "oprcom"@));
            assert(has_column(table, "oprnegate"@));
            assert(has_column(table, "oprcode"@));
            assert(has_column(table, "oprrest"@));
            assert(has_column(table, "oprjoin"@));
        }
    }
}

/// A cast is what its row says: each field is what the row holds in the column of
/// that field, whatever the other columns hold.
pub proof fn cast_fields_are_those_of_the_row(
    table: BkiTableView,
    row: Seq<Option<Seq<char>>>,
    r: PgCastRecord,
)
    requires
        records::cast_record(table, row) == Some(r),
    ensures
        tells_oid(table, row, "oid"@, r.oid),
        tells_oid(table, row, "castsource"@, r.source_type),
        tells_oid(table, row, "casttarget"@, r.target_type),
        tells_oid(table, row, "castfunc"@, r.function),
        tells_letter(table, row, "castcontext"@, r.context),
        tells_letter(table, row, "castmethod"@, r.method),
{
    lemma_cells(table, row);
}

/// Whether the fields of a cast are written in the columns of a row.
pub open spec fn cast_is_written(
    table: BkiTableView,
    row: Seq<Option<Seq<char>>>,
    r: PgCastRecord,
) -> bool {
    &&& has_oid(table, row, "oid"@, r.oid)
    &&& has_oid(table, row, "castsource"@, r.source_type)
    &&& has_oid(table, row, "casttarget"@, r.target_type)
    &&& has_oid(table, row, "castfunc"@, r.function)
    &&& has_letter(table, row, "castcontext"@, r.context)
    &&& has_letter(table, row, "castmethod"@, r.method)
}

/// A cast whose fields are written in a row is read back.
pub proof fn a_written_cast_is_read_back(
    table: BkiTableView,
    row: Seq<Option<Seq<char>>>,
    r: PgCastRecord,
)
    requires
        cast_is_written(table, row, r),
    ensures
        records::cast_record(table, row) == Some(r),
{
    lemma_cells(table, row);
    lemma_columns(table, row);
    let names = records::cast_columns();
    assert(table.has_all(names)) by {
        assert forall|i: int| 0 <= i < names.len() implies #[trigger] table.place(
            names[i],
        ) is Some by {
            assert(has_column(table, "oid"@));
            assert(has_column(table, "castsource"@));
            assert(has_column(table, "casttarget"@));
            assert(has_column(table, "castfunc"@));
            assert(has_column(table, "castcontext"@));
            assert(has_column(table, "castmethod"@));
        }
    }
}

/// A schema is what its row says: each field is what the row holds in the column of
/// that field, whatever the other columns hold.
pub proof fn namespace_fields_are_those_of_the_row(
    table: BkiTableView,
    row: Seq<Option<Seq<char>>>,
    name: &'static str,
    r: PgNamespaceRecord,
)
    requires
        records::namespace_record(table, row, name) == Some(r),
    ensures
        tells_oid(table, row, "oid"@, r.oid),
        r.name == name,
        tells_oid(table, row, "nspowner"@, r.owner),
{
    lemma_cells(table, row);
}

/// Whether the fields of a schema are written in the columns of a row.
pub open spec fn namespace_is_written(
    table: BkiTableView,
    row: Seq<Option<Seq<char>>>,
    r: PgNamespaceRecord,
) -> bool {
    &&& has_oid(table, row, "oid"@, r.oid)
    &&& has_oid(table, row, "nspowner"@, r.owner)
    &&& has_column(table, "nspname"@)
}

/// A schema whose fields are written in a row is read back.
pub proof fn a_written_namespace_is_read_back(
    table: BkiTableView,
    row: Seq<Option<Seq<char>>>,
    r: PgNamespaceRecord,
)
    requires
        namespace_is_written(table, row, r),
    ensures
        records::namespace_record(table, row, r.name) == Some(r),
{
    lemma_cells(table, row);
    lemma_columns(table, row);
    let names = records::namespace_columns();
    assert(table.has_all(names)) by {
        assert forall|i: int| 0 <= i < names.len() implies #[trigger] table.place(
            names[i],
        ) is Some by {
            assert(has_column(table, "oid"@));
            assert(has_column(table, "nspname"@));
            assert(has_column(table, "nspowner"@));
        }
    }
}

} // verus!
