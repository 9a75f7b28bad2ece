//! The records of compiled-in objects, made of the rows of the bootstrap file.
//! Texts and lists that the records point to are handed in by the caller, who
//! keeps them.

use vstd::prelude::*;

use crate::bootstrap::bki::{BkiTable, BkiTableView};
use crate::bootstrap::cells::{
    bool_value, char_value, has_columns, i16_value, i32_value, oid_value, u16_value,
};
use crate::bootstrap::values;
use crate::catalog::model::{
    PgAggregateRecord, PgCastRecord, PgNamespaceRecord, PgOperatorRecord, PgProcRecord,
    PgTypeRecord,
};
use crate::search;
use crate::types::Oid;

verus! {

/// Whether a text that is handed in is the one in a column.
pub open spec fn holds(
    table: BkiTableView,
    row: Seq<Option<Seq<char>>>,
    name: Seq<char>,
    s: Option<&'static str>,
) -> bool {
    table.value(row, name) == match s {
        Some(s) => Some(s@),
        None => None,
    }
}

/// The columns that the record of a type is made of.
pub open spec fn type_columns() -> Seq<Seq<char>> {
    seq![
        "oid"@,
        "typname"@,
        "typnamespace"@,
        "typowner"@,
        "typlen"@,
        "typbyval"@,
        "typalign"@,
        "typdelim"@,
        "typinput"@,
        "typoutput"@,
        "typreceive"@,
        "typsend"@,
        "typmodin"@,
        "typmodout"@,
        "typisdefined"@,
        "typtype"@,
        "typcategory"@,
        "typispreferred"@,
        "typrelid"@,
        "typelem"@,
        "typarray"@,
        "typbasetype"@,
        "typtypmod"@,
        "typcollation"@,
        "typsubscript"@,
        "typstorage"@,
    ]
}

/// The record of a type, unless a column is missing or a value is out of its range.
pub open spec fn type_record(
    table: BkiTableView,
    row: Seq<Option<Seq<char>>>,
    name: &'static str,
) -> Option<PgTypeRecord> {
    if !table.has_all(type_columns()) {
        None
    } else {
        match (
            table.number_in(row, "typlen"@, i16::MIN as int, i16::MAX as int),
            table.truth_in(row, "typbyval"@),
            table.truth_in(row, "typisdefined"@),
            table.truth_in(row, "typispreferred"@),
            table.number_in(row, "typtypmod"@, i32::MIN as int, i32::MAX as int),
        ) {
            (
                Some(typlen),
                Some(typbyval),
                Some(typisdefined),
                Some(typispreferred),
                Some(typtypmod),
            ) => Some(
                PgTypeRecord {
                    oid: table.oid_in(row, "oid"@),
                    name,
                    namespace: table.oid_in(row, "typnamespace"@),
                    owner: table.oid_in(row, "typowner"@),
                    typlen: typlen as i16,
                    typbyval,
                    typalign: table.letter_in(row, "typalign"@),
                    typdelim: table.letter_in(row, "typdelim"@),
                    typinput: table.oid_in(row, "typinput"@),
                    typoutput: table.oid_in(row, "typoutput"@),
                    typreceive: table.oid_in(row, "typreceive"@),
                    typsend: table.oid_in(row, "typsend"@),
                    typmodin: table.oid_in(row, "typmodin"@),
                    typmodout: table.oid_in(row, "typmodout"@),
                    typisdefined,
                    typtype: table.letter_in(row, "typtype"@),
                    typcategory: table.letter_in(row, "typcategory"@),
                    typispreferred,
                    typrelid: table.oid_in(row, "typrelid"@),
                    typelem: table.oid_in(row, "typelem"@),
                    typarray: table.oid_in(row, "typarray"@),
                    typbasetype: table.oid_in(row, "typbasetype"@),
                    typtypmod: typtypmod as i32,
                    typcollation: table.oid_in(row, "typcollation"@),
                    typsubscript: table.oid_in(row, "typsubscript"@),
                    typstorage: table.letter_in(row, "typstorage"@),
                },
            ),
            _ => None,
        }
    }
}

/// Makes the record of a type.
pub fn pg_type_record(
    table: &BkiTable,
    row: &Vec<Option<String>>,
    name: &'static str,
) -> (r: Option<PgTypeRecord>)
    requires
        table@.text(values::row_texts(row@), "typname"@) == name@,
    ensures
        r == type_record(table@, values::row_texts(row@), name),
{
    let names = vec![
        "oid",
        "typname",
        "typnamespace",
        "typowner",
        "typlen",
        "typbyval",
        "typalign",
        "typdelim",
        "typinput",
        "typoutput",
        "typreceive",
        "typsend",
        "typmodin",
        "typmodout",
        "typisdefined",
        "typtype",
        "typcategory",
        "typispreferred",
        "typrelid",
        "typelem",
        "typarray",
        "typbasetype",
        "typtypmod",
        "typcollation",
        "typsubscript",
        "typstorage",
    ];
    assert(search::views(names@) =~= type_columns());
    if !has_columns(table, &names) {
        return None;
    }
    match (
        i16_value(table, row, "typlen"),
        bool_value(table, row, "typbyval"),
        bool_value(table, row, "typisdefined"),
        bool_value(table, row, "typispreferred"),
        i32_value(table, row, "typtypmod"),
    ) {
        (
            Some(typlen),
            Some(typbyval),
            Some(typisdefined),
            Some(typispreferred),
            Some(typtypmod),
        ) => Some(
            PgTypeRecord {
                oid: oid_value(table, row, "oid"),
                name,
                namespace: oid_value(table, row, "typnamespace"),
                owner: oid_value(table, row, "typowner"),
                typlen,
                typbyval,
                typalign: char_value(table, row, "typalign"),
                typdelim: char_value(table, row, "typdelim"),
                typinput: oid_value(table, row, "typinput"),
                typoutput: oid_value(table, row, "typoutput"),
                typreceive: oid_value(table, row, "typreceive"),
                typsend: oid_value(table, row, "typsend"),
                typmodin: oid_value(table, row, "typmodin"),
                typmodout: oid_value(table, row, "typmodout"),
                typisdefined,
                typtype: char_value(table, row, "typtype"),
                typcategory: char_value(table, row, "typcategory"),
                typispreferred,
                typrelid: oid_value(table, row, "typrelid"),
                typelem: oid_value(table, row, "typelem"),
                typarray: oid_value(table, row, "typarray"),
                typbasetype: oid_value(table, row, "typbasetype"),
                typtypmod,
                typcollation: oid_value(table, row, "typcollation"),
                typsubscript: oid_value(table, row, "typsubscript"),
                typstorage: char_value(table, row, "typstorage"),
            },
        ),
        _ => None,
    }
}

/// The columns that the record of a function is made of.
pub open spec fn proc_columns() -> Seq<Seq<char>> {
    seq![
        "oid"@,
        "proname"@,
        "pronamespace"@,
        "proowner"@,
        "prolang"@,
        "procost"@,
        "prorows"@,
        "provariadic"@,
        "prosupport"@,
        "prokind"@,
        "prosecdef"@,
        "proleakproof"@,
        "proisstrict"@,
        "proretset"@,
        "provolatile"@,
        "proparallel"@,
        "prorettype"@,
        "proargtypes"@,
        "pronargdefaults"@,
        "prosrc"@,
    ]
}

/// The record of a function, unless a column is missing or a value is out of its range.
pub open spec fn proc_record(
    table: BkiTableView,
    row: Seq<Option<Seq<char>>>,
    name: &'static str,
    cost: u32,
    rows: u32,
    arg_types: &'static [Oid],
    source: &'static str,
) -> Option<PgProcRecord> {
    if !table.has_all(proc_columns()) {
        None
    } else {
        match (
            table.truth_in(row, "prosecdef"@),
            table.truth_in(row, "proleakproof"@),
            table.truth_in(row, "proisstrict"@),
            table.truth_in(row, "proretset"@),
            table.number_in(row, "pronargdefaults"@, 0, u16::MAX as int),
        ) {
            (
                Some(security_definer),
                Some(leakproof),
                Some(strict),
                Some(returns_set),
                Some(arg_defaults),
            ) => Some(
                PgProcRecord {
                    oid: table.oid_in(row, "oid"@),
                    name,
                    namespace: table.oid_in(row, "pronamespace"@),
                    owner: table.oid_in(row, "proowner"@),
                    language: table.oid_in(row, "prolang"@),
                    cost,
                    rows,
                    variadic: table.oid_in(row, "provariadic"@),
                    support: table.oid_in(row, "prosupport"@),
                    kind: table.letter_in(row, "prokind"@),
                    security_definer,
                    leakproof,
                    strict,
                    returns_set,
                    volatility: table.letter_in(row, "provolatile"@),
                    parallel: table.letter_in(row, "proparallel"@),
                    return_type: table.oid_in(row, "prorettype"@),
                    arg_types,
                    arg_defaults: arg_defaults as u16,
                    source,
                },
            ),
            _ => None,
        }
    }
}

/// Makes the record of a function.
pub fn pg_proc_record(
    table: &BkiTable,
    row: &Vec<Option<String>>,
    name: &'static str,
    cost: u32,
    rows: u32,
    arg_types: &'static [Oid],
    source: &'static str,
) -> (r: Option<PgProcRecord>)
    requires
        table@.text(values::row_texts(row@), "proname"@) == name@,
        table@.oids_in(values::row_texts(row@), "proargtypes"@) == arg_types@,
        table@.text(values::row_texts(row@), "prosrc"@) == source@,
    ensures
        r == proc_record(table@, values::row_texts(row@), name, cost, rows, arg_types, source),
{
    let names = vec![
        "oid",
        "proname",
        "pronamespace",
        "proowner",
        "prolang",
        "procost",
        "prorows",
        "provariadic",
        "prosupport",
        "prokind",
        "prosecdef",
        "proleakproof",
        "proisstrict",
        "proretset",
        "provolatile",
        "proparallel",
        "prorettype",
        "proargtypes",
        "pronargdefaults",
        "prosrc",
    ];
    assert(search::views(names@) =~= proc_columns());
    if !has_columns(table, &names) {
        return None;
    }
    match (
        bool_value(table, row, "prosecdef"),
        bool_value(table, row, "proleakproof"),
        bool_value(table, row, "proisstrict"),
        bool_value(table, row, "proretset"),
        u16_value(table, row, "pronargdefaults"),
    ) {
        (
            Some(security_definer),
            Some(leakproof),
            Some(strict),
            Some(returns_set),
            Some(arg_defaults),
        ) => Some(
            PgProcRecord {
                oid: oid_value(table, row, "oid"),
                name,
                namespace: oid_value(table, row, "pronamespace"),
                owner: oid_value(table, row, "proowner"),
                language: oid_value(table, row, "prolang"),
                cost,
                rows,
                variadic: oid_value(table, row, "provariadic"),
                support: oid_value(table, row, "prosupport"),
                kind: char_value(table, row, "prokind"),
                security_definer,
                leakproof,
                strict,
                returns_set,
                volatility: char_value(table, row, "provolatile"),
                parallel: char_value(table, row, "proparallel"),
                return_type: oid_value(table, row, "prorettype"),
                arg_types,
                arg_defaults,
                source,
            },
        ),
        _ => None,
    }
}

/// The columns that the record of an aggregate is made of.
pub open spec fn aggregate_columns() -> Seq<Seq<char>> {
    seq![
        "aggfnoid"@,
        "aggkind"@,
        "aggnumdirectargs"@,
        "aggtransfn"@,
        "aggfinalfn"@,
        "aggcombinefn"@,
        "aggserialfn"@,
        "aggdeserialfn"@,
        "aggmtransfn"@,
        "aggminvtransfn"@,
        "aggmfinalfn"@,
        "aggfinalextra"@,
        "aggmfinalextra"@,
        "aggfinalmodify"@,
        "aggmfinalmodify"@,
        "aggsortop"@,
        "aggtranstype"@,
        "aggtransspace"@,
        "aggmtranstype"@,
        "aggmtransspace"@,
        "agginitval"@,
        "aggminitval"@,
    ]
}

/// The record of an aggregate, unless a column is missing or a value is out of its range.
pub open spec fn aggregate_record(
    table: BkiTableView,
    row: Seq<Option<Seq<char>>>,
    init_value: Option<&'static str>,
    moving_init_value: Option<&'static str>,
) -> Option<PgAggregateRecord> {
    if !table.has_all(aggregate_columns()) {
        None
    } else {
        match (
            table.number_in(row, "aggnumdirectargs"@, 0, u16::MAX as int),
            table.truth_in(row, "aggfinalextra"@),
            table.truth_in(row, "aggmfinalextra"@),
            table.number_in(row, "aggtransspace"@, i32::MIN as int, i32::MAX as int),
            table.number_in(row, "aggmtransspace"@, i32::MIN as int, i32::MAX as int),
        ) {
            (
                Some(direct_arg_count),
                Some(final_extra),
                Some(moving_final_extra),
                Some(transition_space),
                Some(moving_transition_space),
            ) => Some(
                PgAggregateRecord {
                    function_oid: table.oid_in(row, "aggfnoid"@),
                    kind: table.letter_in(row, "aggkind"@),
                    direct_arg_count: direct_arg_count as u16,
                    transition_fn: table.oid_in(row, "aggtransfn"@),
                    final_fn: table.oid_in(row, "aggfinalfn"@),
                    combine_fn: table.oid_in(row, "aggcombinefn"@),
                    serial_fn: table.oid_in(row, "aggserialfn"@),
                    deserial_fn: table.oid_in(row, "aggdeserialfn"@),
                    moving_transition_fn: table.oid_in(row, "aggmtransfn"@),
                    moving_inverse_fn: table.oid_in(row, "aggminvtransfn"@),
                    moving_final_fn: table.oid_in(row, "aggmfinalfn"@),
                    final_extra,
                    moving_final_extra,
                    final_modify: table.letter_in(row, "aggfinalmodify"@),
                    moving_final_modify: table.letter_in(row, "aggmfinalmodify"@),
                    sort_operator: table.oid_in(row, "aggsortop"@),
                    transition_type: table.oid_in(row, "aggtranstype"@),
                    transition_space: transition_space as i32,
                    moving_transition_type: table.oid_in(row, "aggmtranstype"@),
                    moving_transition_space: moving_transition_space as i32,
                    init_value,
                    moving_init_value,
                },
            ),
            _ => None,
        }
    }
}

/// Makes the record of an aggregate.
pub fn pg_aggregate_record(
    table: &BkiTable,
    row: &Vec<Option<String>>,
    init_value: Option<&'static str>,
    moving_init_value: Option<&'static str>,
) -> (r: Option<PgAggregateRecord>)
    requires
        holds(table@, values::row_texts(row@), "agginitval"@, init_value),
        holds(table@, values::row_texts(row@), "aggminitval"@, moving_init_value),
    ensures
        r == aggregate_record(table@, values::row_texts(row@), init_value, moving_init_value),
{
    let names = vec![
        "aggfnoid",
        "aggkind",
        "aggnumdirectargs",
        "aggtransfn",
        "aggfinalfn",
        "aggcombinefn",
        "aggserialfn",
        "aggdeserialfn",
        "aggmtransfn",
        "aggminvtransfn",
        "aggmfinalfn",
        "aggfinalextra",
        "aggmfinalextra",
        "aggfinalmodify",
        "aggmfinalmodify",
        "aggsortop",
        "aggtranstype",
        "aggtransspace",
        "aggmtranstype",
        "aggmtransspace",
        "agginitval",
        "aggminitval",
    ];
    assert(search::views(names@) =~= aggregate_columns());
    if !has_columns(table, &names) {
        return None;
    }
    match (
        u16_value(table, row, "aggnumdirectargs"),
        bool_value(table, row, "aggfinalextra"),
        bool_value(table, row, "aggmfinalextra"),
        i32_value(table, row, "aggtransspace"),
        i32_value(table, row, "aggmtransspace"),
    ) {
        (
            Some(direct_arg_count),
            Some(final_extra),
            Some(moving_final_extra),
            Some(transition_space),
            Some(moving_transition_space),
        ) => Some(
            PgAggregateRecord {
                function_oid: oid_value(table, row, "aggfnoid"),
                kind: char_value(table, row, "aggkind"),
                direct_arg_count,
                transition_fn: oid_value(table, row, "aggtransfn"),
                final_fn: oid_value(table, row, "aggfinalfn"),
                combine_fn: oid_value(table, row, "aggcombinefn"),
                serial_fn: oid_value(table, row, "aggserialfn"),
                deserial_fn: oid_value(table, row, "aggdeserialfn"),
                moving_transition_fn: oid_value(table, row, "aggmtransfn"),
                moving_inverse_fn: oid_value(table, row, "aggminvtransfn"),
                moving_final_fn: oid_value(table, row, "aggmfinalfn"),
                final_extra,
                moving_final_extra,
                final_modify: char_value(table, row, "aggfinalmodify"),
                moving_final_modify: char_value(table, row, "aggmfinalmodify"),
                sort_operator: oid_value(table, row, "aggsortop"),
                transition_type: oid_value(table, row, "aggtranstype"),
                transition_space,
                moving_transition_type: oid_value(table, row, "aggmtranstype"),
                moving_transition_space,
                init_value,
                moving_init_value,
            },
        ),
        _ => None,
    }
}

/// The columns that the record of an operator is made of.
pub open spec fn operator_columns() -> Seq<Seq<char>> {
    seq![
        "oid"@,
        "oprname"@,
        "oprnamespace"@,
        "oprowner"@,
        "oprkind"@,
        "oprcanmerge"@,
        "oprcanhash"@,
        "oprleft"@,
        "oprright"@,
        "oprresult"@,
        "oprcom"@,
        "oprnegate"@,
        "oprcode"@,
        "oprrest"@,
        "oprjoin"@,
    ]
}

/// The record of an operator, unless a column is missing or a value is out of its range.
pub open spec fn operator_record(
    table: BkiTableView,
    row: Seq<Option<Seq<char>>>,
    name: &'static str,
) -> Option<PgOperatorRecord> {
    if !table.has_all(operator_columns()) {
        None
    } else {
        match (
            table.truth_in(row, "oprcanmerge"@),
            table.truth_in(row, "oprcanhash"@),
        ) {
            (
                Some(can_merge),
                Some(can_hash),
            ) => Some(
                PgOperatorRecord {
                    oid: table.oid_in(row, "oid"@),
                    name,
                    namespace: table.oid_in(row, "oprnamespace"@),
                    owner: table.oid_in(row, "oprowner"@),
                    kind: table.letter_in(row, "oprkind"@),
                    can_merge,
                    can_hash,
                    left_type: table.oid_in(row, "oprleft"@),
                    right_type: table.oid_in(row, "oprright"@),
                    result_type: table.oid_in(row, "oprresult"@),
                    commutator: table.oid_in(row, "oprcom"@),
                    negator: table.oid_in(row, "oprnegate"@),
                    code: table.oid_in(row, "oprcode"@),
                    rest: table.oid_in(row, "oprrest"@),
                    join: table.oid_in(row, "oprjoin"@),
                },
            ),
            _ => None,
        }
    }
}

/// Makes the record of an operator.
pub fn pg_operator_record(
    table: &BkiTable,
    row: &Vec<Option<String>>,
    name: &'static str,
) -> (r: Option<PgOperatorRecord>)
    requires
        table@.text(values::row_texts(row@), "oprname"@) == name@,
    ensures
        r == operator_record(table@, values::row_texts(row@), name),
{
    let names = vec![
        "oid",
        "oprname",
        "oprnamespace",
        "oprowner",
        "oprkind",
        "oprcanmerge",
        "oprcanhash",
        "oprleft",
        "oprright",
        "oprresult",
        "oprcom",
        "oprnegate",
        "oprcode",
        "oprrest",
        "oprjoin",
    ];
    assert(search::views(names@) =~= operator_columns());
    if !has_columns(table, &names) {
        return None;
    }
    match (
        bool_value(table, row, "oprcanmerge"),
        bool_value(table, row, "oprcanhash"),
    ) {
        (
            Some(can_merge),
            Some(can_hash),
        ) => Some(
            PgOperatorRecord {
                oid: oid_value(table, row, "oid"),
                name,
                namespace: oid_value(table, row, "oprnamespace"),
                owner: oid_value(table, row, "oprowner"),
                kind: char_value(table, row, "oprkind"),
                can_merge,
                can_hash,
                left_type: oid_value(table, row, "oprleft"),
                right_type: oid_value(table, row, "oprright"),
                result_type: oid_value(table, row, "oprresult"),
                commutator: oid_value(table, row, "oprcom"),
                negator: oid_value(table, row, "oprnegate"),
                code: oid_value(table, row, "oprcode"),
                rest: oid_value(table, row, "oprrest"),
                join: oid_value(table, row, "oprjoin"),
            },
        ),
        _ => None,
    }
}

/// The columns that the record of a cast is made of.
pub open spec fn cast_columns() -> Seq<Seq<char>> {
    seq![
        "oid"@,
        "castsource"@,
        "casttarget"@,
        "castfunc"@,
        "castcontext"@,
        "castmethod"@,
    ]
}

/// The record of a cast, unless a column is missing or a value is out of its range.
pub open spec fn cast_record(
    table: BkiTableView,
    row: Seq<Option<Seq<char>>>,
) -> Option<PgCastRecord> {
    if table.has_all(cast_columns()) {
        Some(
            PgCastRecord {
                oid: table.oid_in(row, "oid"@),
                source_type: table.oid_in(row, "castsource"@),
                target_type: table.oid_in(row, "casttarget"@),
                function: table.oid_in(row, "castfunc"@),
                context: table.letter_in(row, "castcontext"@),
                method: table.letter_in(row, "castmethod"@),
            },
        )
    } else {
        None
    }
}

/// Makes the record of a cast.
pub fn pg_cast_record(
    table: &BkiTable,
    row: &Vec<Option<String>>,
) -> (r: Option<PgCastRecord>)
    ensures
        r == cast_record(table@, values::row_texts(row@)),
{
    let names = vec![
        "oid",
        "castsource",
        "casttarget",
        "castfunc",
        "castcontext",
        "castmethod",
    ];
    assert(search::views(names@) =~= cast_columns());
    if !has_columns(table, &names) {
        return None;
    }
    Some(
        PgCastRecord {
            oid: oid_value(table, row, "oid"),
            source_type: oid_value(table, row, "castsource"),
            target_type: oid_value(table, row, "casttarget"),
            function: oid_value(table, row, "castfunc"),
            context: char_value(table, row, "castcontext"),
            method: char_value(table, row, "castmethod"),
        },
    )
}

/// The columns that the record of a schema is made of.
pub open spec fn namespace_columns() -> Seq<Seq<char>> {
    seq![
        "oid"@,
        "nspname"@,
        "nspowner"@,
    ]
}

/// The record of a schema, unless a column is missing or a value is out of its range.
pub open spec fn namespace_record(
    table: BkiTableView,
    row: Seq<Option<Seq<char>>>,
    name: &'static str,
) -> Option<PgNamespaceRecord> {
    if table.has_all(namespace_columns()) {
        Some(
            PgNamespaceRecord {
                oid: table.oid_in(row, "oid"@),
                name,
                owner: table.oid_in(row, "nspowner"@),
            },
        )
    } else {
        None
    }
}

/// Makes the record of a schema.
pub fn pg_namespace_record(
    table: &BkiTable,
    row: &Vec<Option<String>>,
    name: &'static str,
) -> (r: Option<PgNamespaceRecord>)
    requires
        table@.text(values::row_texts(row@), "nspname"@) == name@,
    ensures
        r == namespace_record(table@, values::row_texts(row@), name),
{
    let names = vec![
        "oid",
        "nspname",
        "nspowner",
    ];
    assert(search::views(names@) =~= namespace_columns());
    if !has_columns(table, &names) {
        return None;
    }
    Some(
        PgNamespaceRecord {
            oid: oid_value(table, row, "oid"),
            name,
            owner: oid_value(table, row, "nspowner"),
        },
    )
}

} // verus!
