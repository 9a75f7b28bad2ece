//! What types are found by: the names that SQL has for them, their own names, and
//! their identifiers.

use vstd::prelude::*;

use crate::catalog::columns;
use crate::catalog::index;
use crate::catalog::lookups;
use crate::catalog::meta;
use crate::catalog::model::{
    CatalogTypeRecordView, GeneratedCatalog, PgTypeRecord, StaticCatalogTable,
};
use crate::catalog::model;
use crate::catalog::nodes;
use crate::catalog::selectors::SelectorView;
use crate::catalog::snapshot;
use crate::catalog::snapshot::SnapshotView;
use crate::catalog::static_rows;
use crate::catalog::type_lookups;
use crate::search;
use crate::text;
use crate::types::Oid;

verus! {

/// The names that SQL has for types stand for their names in the catalog, whatever
/// their case and the space around them. Any other name stands for itself.
pub proof fn types_go_by_their_names_in_sql(name: Seq<char>)
    ensures
        ({
            let w = text::lower(text::trim(name));
            let told = meta::canonical_type_name(name);
            &&& w == "boolean"@ ==> told == "bool"@
            &&& w == "character"@ ==> told == "bpchar"@
            &&& w == "character varying"@ ==> told == "varchar"@
            &&& w == "decimal"@ ==> told == "numeric"@
            &&& w == "integer"@ ==> told == "int4"@
            &&& w == "int"@ ==> told == "int4"@
            &&& w == "smallint"@ ==> told == "int2"@
            &&& w == "bigint"@ ==> told == "int8"@
            &&& w == "real"@ ==> told == "float4"@
            &&& w == "double precision"@ ==> told == "float8"@
            &&& w == "time without time zone"@ ==> told == "time"@
            &&& w == "time with time zone"@ ==> told == "timetz"@
            &&& w == "timestamp without time zone"@ ==> told == "timestamp"@
            &&& w == "timestamp with time zone"@ ==> told == "timestamptz"@
            &&& w == "bit varying"@ ==> told == "varbit"@
            &&& w != "boolean"@ && w != "character"@ && w != "character varying"@
                && w != "decimal"@ && w != "integer"@ && w != "int"@ && w != "smallint"@
                && w != "bigint"@ && w != "real"@ && w != "double precision"@
                && w != "time without time zone"@ && w != "time with time zone"@
                && w != "timestamp without time zone"@ && w != "timestamp with time zone"@
                && w != "bit varying"@
                ==> told == w
        }),
{
    reveal_strlit("bigint");
    reveal_strlit("bit varying");
    reveal_strlit("boolean");
    reveal_strlit("character");
    reveal_strlit("character varying");
    reveal_strlit("decimal");
    reveal_strlit("double precision");
    reveal_strlit("int");
    reveal_strlit("integer");
    reveal_strlit("real");
    reveal_strlit("smallint");
    reveal_strlit("time with time zone");
    reveal_strlit("time without time zone");
    reveal_strlit("timestamp with time zone");
    reveal_strlit("timestamp without time zone");
    assert("boolean"@.len() == 7);
    assert("character"@.len() == 9);
    assert("character varying"@.len() == 17);
    assert("decimal"@.len() == 7);
    assert("integer"@.len() == 7);
    assert("int"@.len() == 3);
    assert("smallint"@.len() == 8);
    assert("bigint"@.len() == 6);
    assert("real"@.len() == 4);
    assert("double precision"@.len() == 16);
    assert("time without time zone"@.len() == 22);
    assert("time with time zone"@.len() == 19);
    assert("timestamp without time zone"@.len() == 27);
    assert("timestamp with time zone"@.len() == 24);
    assert("bit varying"@.len() == 11);
    assert("boolean"@[0] == 'b' && "decimal"@[0] == 'd');
    assert("boolean"@[0] == 'b' && "integer"@[0] == 'i');
    assert("decimal"@[0] == 'd' && "integer"@[0] == 'i');
}

/// The integer types, and the types of numbers with a point, are different ones.
pub proof fn numbers_have_types_of_their_own(a: Seq<char>, b: Seq<char>)
    requires
        text::lower(text::trim(a)) == "smallint"@ || text::lower(text::trim(a)) == "integer"@
            || text::lower(text::trim(a)) == "bigint"@ || text::lower(text::trim(a)) == "real"@
            || text::lower(text::trim(a)) == "double precision"@,
        text::lower(text::trim(b)) == "smallint"@ || text::lower(text::trim(b)) == "integer"@
            || text::lower(text::trim(b)) == "bigint"@ || text::lower(text::trim(b)) == "real"@
            || text::lower(text::trim(b)) == "double precision"@,
        text::lower(text::trim(a)) != text::lower(text::trim(b)),
    ensures
        meta::canonical_type_name(a) != meta::canonical_type_name(b),
{
    reveal_strlit("int2");
    reveal_strlit("int4");
    reveal_strlit("int8");
    reveal_strlit("float4");
    reveal_strlit("float8");
    types_go_by_their_names_in_sql(a);
    types_go_by_their_names_in_sql(b);
    assert("int2"@[3] == '2' && "int4"@[3] == '4' && "int8"@[3] == '8');
    assert("int2"@.len() == 4 && "int4"@.len() == 4 && "int8"@.len() == 4);
    assert("float4"@[5] == '4' && "float8"@[5] == '8');
    assert("float4"@.len() == 6 && "float8"@.len() == 6);
}

/// A compiled-in type is told with the fields that it has.
pub proof fn a_compiled_in_type_keeps_its_fields(record: PgTypeRecord)
    ensures
        ({
            let r = CatalogTypeRecordView::builtin(record);
            &&& r.row_id == 0
            &&& r.name == record.name@
            &&& r.oid == record.oid
            &&& r.namespace == record.namespace
            &&& r.owner == record.owner
            &&& r.typlen == record.typlen
            &&& r.typbyval == record.typbyval
            &&& r.typalign == record.typalign
            &&& r.typdelim == record.typdelim
            &&& r.typinput == record.typinput
            &&& r.typoutput == record.typoutput
            &&& r.typreceive == record.typreceive
            &&& r.typsend == record.typsend
            &&& r.typmodin == record.typmodin
            &&& r.typmodout == record.typmodout
            &&& r.typisdefined == record.typisdefined
            &&& r.typtype == record.typtype
            &&& r.typcategory == record.typcategory
            &&& r.typispreferred == record.typispreferred
            &&& r.typrelid == record.typrelid
            &&& r.typelem == record.typelem
            &&& r.typarray == record.typarray
            &&& r.typbasetype == record.typbasetype
            &&& r.typtypmod == record.typtypmod
            &&& r.typcollation == record.typcollation
            &&& r.typsubscript == record.typsubscript
            &&& r.typstorage == record.typstorage
        }),
{
}

/// A lookup of a type by its identifier gives a type with that identifier.
pub proof fn a_type_found_has_the_identifier(
    generated: GeneratedCatalog,
    s: SnapshotView,
    oid: Oid,
)
    ensures
        type_lookups::type_found(generated, s, oid) matches Some(t) ==> t.oid == oid,
{
    search::first_index_is_first(generated.types@, nodes::type_has(oid));
    let p = index::keyed(snapshot::type_oid_key(), oid.0);
    index::ids_where_are_the_matches(s.types, p);
    match columns::table_of(generated, Oid(1247)) {
        Some(table) => {
            lemma_first_some(
                lookups::rows_of(generated, s, 1247, SelectorView::All),
                type_lookups::type_with(generated, table, oid),
            );
        },
        None => {},
    }
    search::first_index_is_first(generated.tables@, type_lookups::rowtype_is(oid));
}

/// A compiled-in type is found by its identifier before any other, where it is the
/// first with it.
pub proof fn a_compiled_in_type_is_found(generated: GeneratedCatalog, s: SnapshotView, i: int)
    requires
        0 <= i < generated.types@.len(),
        forall|j: int|
            0 <= j < i ==> (#[trigger] generated.types@[j]).oid != generated.types@[i].oid,
    ensures
        type_lookups::type_found(generated, s, generated.types@[i].oid) matches Some(t) && t.name
            == generated.types@[i].name@ && t.typlen == generated.types@[i].typlen && t.oid
            == generated.types@[i].oid,
{
    search::first_index_at(generated.types@, nodes::type_has(generated.types@[i].oid), i);
}

/// What `first_some` gives comes from an element.
pub(crate) proof fn lemma_first_some<A, B>(s: Seq<A>, f: spec_fn(A) -> Option<B>)
    ensures
        search::first_some(s, f) is Some ==> exists|i: int|
            0 <= i < s.len() && f(#[trigger] s[i]) == search::first_some(s, f),
        search::first_some(s, f) is None ==> forall|i: int|
            0 <= i < s.len() ==> f(#[trigger] s[i]) is None,
    decreases s.len(),
{
    if s.len() > 0 {
        match f(s[0]) {
            Some(x) => {
                assert(f(s[0]) == search::first_some(s, f));
            },
            None => {
                let rest = s.drop_first();
                lemma_first_some(rest, f);
                if search::first_some(rest, f) is Some {
                    let i = choose|i: int|
                        0 <= i < rest.len() && f(#[trigger] rest[i]) == search::first_some(rest, f);
                    assert(f(s[i + 1]) == search::first_some(s, f));
                } else {
                    assert forall|i: int| 0 <= i < s.len() implies f(#[trigger] s[i]) is None by {
                        if i > 0 {
                            assert(rest[i - 1] == s[i]);
                        }
                    }
                }
            },
        }
    }
}

/// A lookup of a type by its name in a schema gives a type of that schema and name.
pub proof fn a_type_found_by_name_has_the_name(
    generated: GeneratedCatalog,
    s: SnapshotView,
    name: Seq<char>,
    namespace: Oid,
)
    ensures
        type_lookups::type_in(generated, s, name, namespace) matches Some(t) ==> t.namespace
            == namespace && (t.name == name || model::normalized(t.name)
            == meta::canonical_type_name(name) || t.name == model::normalized(name)),
{
    let p = index::labelled(
        snapshot::type_label(),
        namespace.0,
        meta::canonical_type_name(name),
    );
    index::ids_where_are_the_matches(s.types, p);
    match columns::table_of(generated, Oid(1247)) {
        Some(table) => {
            lemma_first_some(
                lookups::rows_of(generated, s, 1247, SelectorView::All),
                type_lookups::type_named(generated, table, name, namespace),
            );
        },
        None => {},
    }
    search::first_index_is_first(
        generated.tables@,
        columns::table_is(model::normalized(name)),
    );
}

/// The row type of a compiled-in catalog is a composite type of the system's schema
/// that is made for the catalog.
pub proof fn a_row_type_is_made_for_its_catalog(
    generated: GeneratedCatalog,
    table: StaticCatalogTable,
)
    ensures
        type_lookups::rowtype_record(generated, table) matches Some(t) ==> {
            &&& t.name == table.name@
            &&& t.typrelid == table.oid
            &&& t.oid == static_rows::rowtype_of(table)
            &&& t.namespace.0 == 11
            &&& t.owner.0 == 10
            &&& t.typtype == 'c' as u8
            &&& t.typcategory == 'C' as u8
            &&& t.typstorage == 'x' as u8
            &&& t.typisdefined
            &&& !t.typispreferred
            &&& t.typelem.0 == 0
            &&& t.typarray.0 == 0
            &&& t.typbasetype.0 == 0
            &&& t.typtypmod == -1
            &&& t.typcollation.0 == 0
            &&& t.typsubscript.0 == 0
        },
{
}

/// The values of a type without operators of its own are compared as those of the
/// type for any of its kind: varying texts as texts, and arrays, enumerations,
/// ranges, sets of ranges and rows each as any.
pub proof fn kinds_of_types_have_stand_ins(t: CatalogTypeRecordView)
    ensures
        t.oid.0 == 1043 ==> type_lookups::stand_in(t) == Some(Oid(25)),
        t.oid.0 != 1043 && t.typsubscript.0 == 6179 ==> type_lookups::stand_in(t) == Some(
            Oid(2277),
        ),
        t.oid.0 != 1043 && t.typsubscript.0 != 6179 ==> {
            &&& t.typtype == 'e' as u8 ==> type_lookups::stand_in(t) == Some(Oid(3500))
            &&& t.typtype == 'r' as u8 ==> type_lookups::stand_in(t) == Some(Oid(3831))
            &&& t.typtype == 'm' as u8 ==> type_lookups::stand_in(t) == Some(Oid(4537))
            &&& t.typtype == 'c' as u8 ==> type_lookups::stand_in(t) == Some(Oid(2249))
            &&& t.typtype == 'b' as u8 || t.typtype == 'd' as u8 || t.typtype == 'p' as u8
                ==> type_lookups::stand_in(t) is None
        },
{
}

/// A compiled-in operator class that is found is the default one of the access
/// method for the type, as its row says.
pub proof fn a_class_found_is_the_default_one(
    generated: GeneratedCatalog,
    method: Oid,
    type_oid: Oid,
)
    ensures
        type_lookups::builtin_class(generated, method, type_oid) matches Some(oid) ==> exists|
            table: StaticCatalogTable,
            i: int,
        |
            #![trigger table.rows@[i]]
            {
                let row = static_rows::named_row(generated, table, table.rows@[i]);
                &&& generated.tables@.contains(table)
                &&& table.name@ == "pg_opclass"@
                &&& 0 <= i < table.rows@.len()
                &&& meta::oid_at(generated, table, row, "opcmethod"@) == Some(method)
                &&& meta::oid_at(generated, table, row, "opcintype"@) == Some(type_oid)
                &&& meta::bool_at(table, row, "opcdefault"@) == Some(true)
                &&& meta::oid_at(generated, table, row, "oid"@) == Some(oid)
            },
        type_lookups::builtin_opclass(generated, type_oid) == type_lookups::builtin_class(
            generated,
            Oid(403),
            type_oid,
        ),
{
    reveal_strlit("pg_opclass");
    let name = "pg_opclass"@;
    let empty = Seq::<char>::empty();
    assert(text::trim(name) == name);
    assert(model::normalized(name) =~= name);
    let p = columns::table_is(name);
    search::first_index_is_first(generated.tables@, p);
    match columns::table_named(generated, name) {
        Some(table) => {
            let f = type_lookups::default_class(generated, table, method, type_oid);
            lemma_first_some(table.rows@, f);
            if search::first_some(table.rows@, f) is Some {
                let i = choose|i: int|
                    0 <= i < table.rows@.len() && f(#[trigger] table.rows@[i])
                        == search::first_some(table.rows@, f);
                assert(f(table.rows@[i]) is Some);
                let k = search::first_index(generated.tables@, p)->0;
                assert(generated.tables@[k] == table);
            }
        },
        None => {},
    }
}

/// Labels stand in the order of their numbers: negative ones before others, the
/// greater a negative one's magnitude the earlier, and by their identifiers where
/// the numbers are the same.
pub proof fn labels_stand_by_their_numbers(a: u32, x: Oid, b: u32, y: Oid)
    ensures
        a < 0x8000_0000 && b < 0x8000_0000 && a < b ==> type_lookups::label_key(a, x)
            < type_lookups::label_key(b, y),
        a >= 0x8000_0000 && b < 0x8000_0000 ==> type_lookups::label_key(a, x)
            < type_lookups::label_key(b, y),
        a >= 0x8000_0000 && b >= 0x8000_0000 && a > b ==> type_lookups::label_key(a, x)
            < type_lookups::label_key(b, y),
        a == b && x.0 < y.0 ==> type_lookups::label_key(a, x) < type_lookups::label_key(b, y),
{
}

} // verus!
