//! Constants and functions as a catalog writes them down, and rows that are told from
//! other catalogs.

use vstd::prelude::*;

use crate::catalog::columns;
use crate::catalog::index_views;
use crate::catalog::index_views::IndexSourcesView;
use crate::catalog::made_laws;
use crate::catalog::meta;
use crate::catalog::model::{
    CatalogRowView, CatalogValueView, GeneratedCatalog, IndexRecordView, PgOperatorRecord,
    PgTypeRecord, StaticCatalogTable,
};
use crate::catalog::nodes;
use crate::catalog::rows;
use crate::catalog::rows::DescriptionView;
use crate::catalog::synthetic;
use crate::catalog::type_laws;
use crate::catalog::value_laws;
use crate::search;
use crate::text;
use crate::types::Oid;

verus! {

/// The number that bytes stand for, the least significant first.
pub open spec fn number_of(bytes: Seq<u8>) -> int
    decreases bytes.len(),
{
    if bytes.len() == 0 {
        0
    } else {
        bytes[0] + 256 * number_of(bytes.drop_first())
    }
}

proof fn lemma_low_bytes(n: nat, width: nat)
    requires
        n < nodes::byte_range(width),
    ensures
        nodes::low_bytes(n, width).len() == width,
        number_of(nodes::low_bytes(n, width)) == n,
    decreases width,
{
    if width > 0 {
        let w = (width - 1) as nat;
        assert(n / 256 < nodes::byte_range(w)) by (nonlinear_arith)
            requires
                n < 256 * nodes::byte_range(w),
        ;
        lemma_low_bytes(n / 256, w);
        let all = nodes::low_bytes(n, width);
        assert(all.drop_first() =~= nodes::low_bytes(n / 256, w));
        assert(all[0] == n % 256);
    }
}

/// An integer is written in as many bytes as asked for, and read as a number they are
/// the integer, or, for a negative one, what is missing to the next power. The other
/// order of the bytes is the same bytes the other way round.
pub proof fn integers_are_written_in_bytes(v: int, width: nat)
    requires
        -nodes::byte_range(width) <= v < nodes::byte_range(width),
    ensures
        nodes::int_bytes(v, width, true).len() == width,
        v >= 0 ==> number_of(nodes::int_bytes(v, width, true)) == v,
        v < 0 ==> number_of(nodes::int_bytes(v, width, true)) == v + nodes::byte_range(width),
        nodes::int_bytes(v, width, false) == nodes::int_bytes(v, width, true).reverse(),
        nodes::byte_range(1) == 0x100,
        nodes::byte_range(2) == 0x1_0000,
        nodes::byte_range(4) == 0x1_0000_0000,
        nodes::byte_range(8) == 0x1_0000_0000_0000_0000,
{
    reveal_with_fuel(nodes::byte_range, 9);
    let n = if v < 0 {
        (v + nodes::byte_range(width)) as nat
    } else {
        v as nat
    };
    lemma_low_bytes(n, width);
}

/// A constant is written as its type asks: a truth value in one byte, an integer in
/// its width, and a text behind its length, which counts itself and stands in the
/// upper bits.
pub proof fn constants_are_written_as_their_types_ask(
    generated: GeneratedCatalog,
    n: int,
    s: Seq<char>,
)
    ensures
        ({
            let little = generated.little_endian;
            let d = text::decimal_int(n);
            &&& i16::MIN <= n <= i16::MAX ==> nodes::const_bytes(generated, 21, d) == Some(
                nodes::int_bytes(n, 2, little),
            )
            &&& i32::MIN <= n <= i32::MAX ==> nodes::const_bytes(generated, 23, d) == Some(
                nodes::int_bytes(n, 4, little),
            )
            &&& i64::MIN <= n <= i64::MAX ==> nodes::const_bytes(generated, 20, d) == Some(
                nodes::int_bytes(n, 8, little),
            )
            &&& 0 <= n <= u32::MAX ==> nodes::const_bytes(generated, 26, d) == Some(
                nodes::int_bytes(n, 4, little),
            )
            &&& 0 <= n <= u32::MAX ==> nodes::const_bytes(generated, 2205, d) == Some(
                nodes::int_bytes(n, 4, little),
            )
            &&& s == "t"@ || s == "true"@ || s == "1"@ ==> nodes::const_bytes(generated, 16, s)
                == Some(seq![1u8])
            &&& s != "t"@ && s != "true"@ && s != "1"@ ==> nodes::const_bytes(generated, 16, s)
                == Some(seq![0u8])
            &&& generated.floats.single_of(s) matches Some(bits) ==> nodes::const_bytes(
                generated,
                700,
                s,
            ) == Some(nodes::int_bytes(bits as int, 4, little))
            &&& generated.floats.double_of(s) matches Some(bits) ==> nodes::const_bytes(
                generated,
                701,
                s,
            ) == Some(nodes::int_bytes(bits as int, 8, little))
        }),
{
    value_laws::numbers_are_read_back(n);
}

/// A text that is a constant is its bytes behind their length.
pub proof fn texts_are_written_behind_their_length(generated: GeneratedCatalog, s: Seq<char>)
    requires
        vstd::utf8::encode_utf8(s).len() < 0x1000_0000,
    ensures
        ({
            let bytes = vstd::utf8::encode_utf8(s);
            let written = nodes::const_bytes(generated, 25, s);
            &&& written matches Some(w) && w.len() == bytes.len() + 4 && w.skip(4) == bytes
                && w.take(4) == nodes::int_bytes(
                4 * (bytes.len() + 4) as int,
                4,
                generated.little_endian,
            )
            &&& nodes::const_bytes(generated, 1043, s) == written
            &&& nodes::const_bytes(generated, 1042, s) == written
            &&& nodes::const_bytes(generated, 19, s) == written
        }),
{
    reveal_with_fuel(nodes::byte_range, 5);
    let bytes = vstd::utf8::encode_utf8(s);
    let n = 4 * (bytes.len() + 4);
    integers_are_written_in_bytes(n as int, 4);
    let w = nodes::const_bytes(generated, 25, s)->0;
    let head = nodes::int_bytes(n as int, 4, generated.little_endian);
    assert(w =~= head + bytes);
    assert(w.take(4) =~= head);
    assert(w.skip(4) =~= bytes);
}

pub open spec fn signed_words(bytes: Seq<u8>) -> Seq<Seq<char>> {
    Seq::new(
        bytes.len(),
        |i: int|
            text::decimal_int(
                if bytes[i] < 128 {
                    bytes[i] as int
                } else {
                    bytes[i] - 256
                },
            ),
    )
}

/// Bytes are listed as signed numbers with spaces between them.
pub proof fn bytes_are_listed_as_signed_numbers(bytes: Seq<u8>)
    ensures
        nodes::listed_bytes(bytes) == text::joined(signed_words(bytes), " "@),
    decreases bytes.len(),
{
    if bytes.len() > 0 {
        bytes_are_listed_as_signed_numbers(bytes.drop_last());
        assert(signed_words(bytes).drop_last() =~= signed_words(bytes.drop_last()));
    }
}

/// A value that is passed as such is stored in eight bytes, filled up with zeros.
pub proof fn values_passed_as_such_take_eight_bytes(bytes: Seq<u8>, i: int)
    requires
        bytes.len() <= 8,
        0 <= i < 8,
    ensures
        nodes::eight_bytes(bytes).len() == 8,
        nodes::eight_bytes(bytes).take(bytes.len() as int) == bytes,
        i >= bytes.len() ==> nodes::eight_bytes(bytes)[i] == 0,
{
    assert(nodes::eight_bytes(bytes).take(bytes.len() as int) =~= bytes);
}

/// A constant that is nothing is written with the mark of nothing, and one that is
/// something with its length and its bytes.
pub proof fn a_constant_is_written_with_its_type(
    generated: GeneratedCatalog,
    type_oid: Oid,
    record: PgTypeRecord,
    s: Seq<char>,
    bytes: Seq<u8>,
)
    requires
        nodes::builtin_type(generated, type_oid) == Some(record),
        nodes::const_bytes(generated, type_oid.0, s) == Some(bytes),
    ensures
        ({
            let head = "{CONST :consttype "@ + text::decimal_int(type_oid.0 as int)
                + " :consttypmod -1 :constcollid "@ + text::decimal_int(
                record.typcollation.0 as int,
            ) + " :constlen "@ + text::decimal_int(record.typlen as int) + " :constbyval "@ + (
            if record.typbyval {
                "true"@
            } else {
                "false"@
            });
            let length = if record.typlen >= 0 {
                record.typlen as int
            } else {
                bytes.len() as int
            };
            let stored = if record.typbyval {
                nodes::eight_bytes(bytes)
            } else {
                bytes
            };
            &&& nodes::const_node(generated, type_oid, None) == Some(
                head + " :constisnull "@ + "true"@ + " :location -1 :constvalue "@ + "<>"@ + "}"@,
            )
            &&& nodes::const_node(generated, type_oid, Some(s)) == Some(
                head + " :constisnull "@ + "false"@ + " :location -1 :constvalue "@ + (
                text::decimal_int(length) + " [ "@ + nodes::listed_bytes(stored) + " ]"@) + "}"@,
            )
        }),
{
}

/// A row of a catalog other than that of functions is as it was compiled in, and one
/// of a function keeps its values but for its body and its defaults.
pub proof fn rows_of_functions_are_completed(
    generated: GeneratedCatalog,
    table: StaticCatalogTable,
    values: Seq<CatalogValueView>,
    i: int,
)
    requires
        0 <= i < values.len(),
    ensures
        table.oid.0 != 1255 ==> nodes::with_proc_defaults(generated, table, values) == values,
        nodes::with_proc_defaults(generated, table, values).len() == values.len(),
        columns::position(table, "prosrc"@) != Some(i) && columns::position(
            table,
            "pronargdefaults"@,
        ) != Some(i) && columns::position(table, "proargdefaults"@) != Some(i)
            ==> nodes::with_proc_defaults(generated, table, values)[i] == values[i],
{
    search::first_index_is_first(table.columns@, columns::column_is("prosrc"@));
    search::first_index_is_first(table.columns@, columns::column_is("pronargdefaults"@));
    search::first_index_is_first(table.columns@, columns::column_is("proargdefaults"@));
}

/// A function's body that is kept elsewhere is put in its place, by the function's
/// identifier.
pub proof fn a_function_gets_its_body(
    table: StaticCatalogTable,
    values: Seq<CatalogValueView>,
    at: int,
    oid_at: int,
    oid: Oid,
    body: Seq<char>,
)
    requires
        0 <= at < values.len(),
        0 <= oid_at < values.len(),
        columns::position(table, "prosrc"@) == Some(at),
        columns::position(table, "oid"@) == Some(oid_at),
        at != oid_at,
        values[oid_at] == CatalogValueView::Oid(oid),
        nodes::system_function_body(oid.0) == Some(body),
    ensures
        values[at] == CatalogValueView::Text("see system_functions.sql"@)
            ==> nodes::with_system_function_body(table, values) == values.update(
            at,
            CatalogValueView::Text(body),
        ),
        values[at] != CatalogValueView::Text("see system_functions.sql"@)
            ==> nodes::with_system_function_body(table, values) == values,
{
}

/// The functions that are written in SQL have these bodies, and no others.
pub proof fn functions_in_sql_have_these_bodies(oid: u32)
    ensures
        oid == 879 ==> nodes::system_function_body(oid) == Some(
            "select lpad($1, $2, ' ')"@,
        ),
        oid == 880 ==> nodes::system_function_body(oid) == Some(
            "select rpad($1, $2, ' ')"@,
        ),
        oid == 1176 ==> nodes::system_function_body(oid) == Some(
            "select cast(($1 + $2) as timestamptz)"@,
        ),
        oid == 1215 ==> nodes::system_function_body(oid) == Some(
            "select description from pg_description where objoid = $1 and classoid = (select oid from pg_class where relname = $2 and relnamespace = 'pg_catalog'::regnamespace) and objsubid = 0"@,
        ),
        oid == 1216 ==> nodes::system_function_body(oid) == Some(
            "select description from pg_description where objoid = $1 and classoid = 'pg_class'::regclass and objsubid = $2"@,
        ),
        oid == 1296 || oid == 1298 || oid == 1848 || oid == 2546 || oid == 2547 || oid == 2548 || oid == 2549 || oid == 2550 || oid == 2631 || oid == 5023 ==> nodes::system_function_body(oid) == Some(
            "select $2 + $1"@,
        ),
        oid == 1305 || oid == 1309 || oid == 2042 ==> nodes::system_function_body(oid) == Some(
            "select ($1, ($1 + $2)) overlaps ($3, ($3 + $4))"@,
        ),
        oid == 1306 || oid == 1310 || oid == 2043 ==> nodes::system_function_body(oid) == Some(
            "select ($1, $2) overlaps ($3, ($3 + $4))"@,
        ),
        oid == 1307 || oid == 1311 || oid == 2044 ==> nodes::system_function_body(oid) == Some(
            "select ($1, ($1 + $2)) overlaps ($3, $4)"@,
        ),
        oid == 1345 ==> nodes::system_function_body(oid) == Some(
            "select description from pg_description where objoid = $1 and objsubid = 0"@,
        ),
        oid == 1384 ==> nodes::system_function_body(oid) == Some(
            "select date_part($1, cast($2 as timestamp))"@,
        ),
        oid == 1386 ==> nodes::system_function_body(oid) == Some(
            "select age(cast(current_date as timestamptz), $1)"@,
        ),
        oid == 1426 ==> nodes::system_function_body(oid) == Some(
            "select on_ppath($2, $1)"@,
        ),
        oid == 1708 ==> nodes::system_function_body(oid) == Some(
            "select round($1, 0)"@,
        ),
        oid == 1710 ==> nodes::system_function_body(oid) == Some(
            "select trunc($1, 0)"@,
        ),
        oid == 1741 || oid == 1481 ==> nodes::system_function_body(oid) == Some(
            "select log(10, $1)"@,
        ),
        oid == 1810 || oid == 1811 ==> nodes::system_function_body(oid) == Some(
            "select octet_length($1) * 8"@,
        ),
        oid == 1812 ==> nodes::system_function_body(oid) == Some(
            "select length($1)"@,
        ),
        oid == 1993 ==> nodes::system_function_body(oid) == Some(
            "select description from pg_shdescription where objoid = $1 and classoid = (select oid from pg_class where relname = $2 and relnamespace = 'pg_catalog'::regnamespace)"@,
        ),
        oid == 2059 ==> nodes::system_function_body(oid) == Some(
            "select age(cast(current_date as timestamp), $1)"@,
        ),
        oid == 2074 ==> nodes::system_function_body(oid) == Some(
            "select substring($1, similar_to_escape($2, $3))"@,
        ),
        oid == 2325 ==> nodes::system_function_body(oid) == Some(
            "select pg_relation_size($1, 'main')"@,
        ),
        oid == 2932 ==> nodes::system_function_body(oid) == Some(
            "select xpath($1, $2, '{}'::text[])"@,
        ),
        oid == 3050 ==> nodes::system_function_body(oid) == Some(
            "select xpath_exists($1, $2, '{}'::text[])"@,
        ),
        oid == 3935 ==> nodes::system_function_body(oid) == Some(
            "select pg_sleep(extract(epoch from clock_timestamp() + $1) - extract(epoch from clock_timestamp()))"@,
        ),
        oid == 3936 ==> nodes::system_function_body(oid) == Some(
            "select pg_sleep(extract(epoch from $1) - extract(epoch from clock_timestamp()))"@,
        ),
        oid != 879 && oid != 880 && oid != 1176 && oid != 1215 && oid != 1216 && oid != 1296
            && oid != 1298 && oid != 1305 && oid != 1306 && oid != 1307 && oid != 1309
            && oid != 1310 && oid != 1311 && oid != 1345 && oid != 1384 && oid != 1386
            && oid != 1426 && oid != 1481 && oid != 1708 && oid != 1710 && oid != 1741
            && oid != 1810 && oid != 1811 && oid != 1812 && oid != 1848 && oid != 1993
            && oid != 2042 && oid != 2043 && oid != 2044 && oid != 2059 && oid != 2074
            && oid != 2325 && oid != 2546 && oid != 2547 && oid != 2548 && oid != 2549
            && oid != 2550 && oid != 2631 && oid != 2932 && oid != 3050 && oid != 3935
            && oid != 3936 && oid != 5023
            ==> nodes::system_function_body(oid) is None,
{
}

/// An index is told by the statement that would make it.
pub proof fn an_index_is_told_by_its_statement(
    name: Seq<char>,
    schema: Seq<char>,
    table: Seq<char>,
    method: Seq<char>,
    keys: Seq<Seq<char>>,
)
    ensures
        index_views::definition(true, name, schema, table, method, keys) == "CREATE UNIQUE INDEX "@
            + name + " ON "@ + schema + "."@ + table + " USING "@ + method + " ("@ + text::joined(
            keys,
            ", "@,
        ) + ")"@,
        index_views::definition(false, name, schema, table, method, keys) == "CREATE INDEX "@
            + name + " ON "@ + schema + "."@ + table + " USING "@ + method + " ("@ + text::joined(
            keys,
            ", "@,
        ) + ")"@,
{
    reveal_strlit("CREATE ");
    reveal_strlit("UNIQUE ");
    reveal_strlit("INDEX ");
    reveal_strlit("");
    reveal_strlit("CREATE UNIQUE INDEX ");
    reveal_strlit("CREATE INDEX ");
    assert("CREATE "@ + "UNIQUE "@ + "INDEX "@ =~= "CREATE UNIQUE INDEX "@);
    assert("CREATE "@ + ""@ + "INDEX "@ =~= "CREATE INDEX "@);
}

/// The row that tells of an index names the schema and the name of its relation, its
/// own name, where it lies, and the statement that would make it.
pub proof fn a_row_tells_of_an_index(
    generated: GeneratedCatalog,
    from: IndexSourcesView,
    classes: StaticCatalogTable,
    table: StaticCatalogTable,
    index: IndexRecordView,
)
    requires
        columns::table_of(generated, Oid(1259)) == Some(classes),
    ensures
        index_views::index_told(generated, from, table, index) matches Some(row) ==> {
            &&& row.row_id == index.index_oid.0
            &&& exists|class: CatalogRowView, relation: CatalogRowView, schema: Seq<char>|
                {
                    &&& #[trigger] from.classes.contains(class)
                    &&& #[trigger] from.classes.contains(relation)
                    &&& meta::oid_at(generated, classes, class, "oid"@) == Some(index.index_oid)
                    &&& meta::oid_at(generated, classes, relation, "oid"@) == Some(
                        index.relation_oid,
                    )
                    &&& index_views::name_told(
                        generated,
                        2615,
                        from.namespaces,
                        meta::oid_at(generated, classes, relation, "relnamespace"@),
                        "nspname"@,
                    ) == Some(schema)
                    &&& #[trigger] made_laws::says(
                        table,
                        row,
                        "schemaname"@,
                        CatalogValueView::Name(schema),
                    )
                    &&& meta::string_at(classes, class, "relname"@) matches Some(name)
                    &&& made_laws::says(table, row, "indexname"@, CatalogValueView::Name(name))
                    &&& meta::string_at(classes, relation, "relname"@) matches Some(of)
                    &&& made_laws::says(table, row, "tablename"@, CatalogValueView::Name(of))
                }
        },
{
    reveal_strlit("schemaname");
    reveal_strlit("tablename");
    reveal_strlit("indexname");
    reveal_strlit("tablespace");
    reveal_strlit("indexdef");
    assert("schemaname"@.len() == 10 && "tablename"@.len() == 9 && "indexname"@.len() == 9
        && "tablespace"@.len() == 10 && "indexdef"@.len() == 8);
    assert("schemaname"@[0] == 's' && "tablespace"@[0] == 't');
    assert("tablename"@[0] == 't' && "indexname"@[0] == 'i');
    match index_views::index_told(generated, from, table, index) {
        Some(row) => {
            let f = index_views::with_oid(generated, classes, index.index_oid);
            let g = index_views::with_oid(generated, classes, index.relation_oid);
            type_laws::lemma_first_some(from.classes, f);
            type_laws::lemma_first_some(from.classes, g);
            let class = index_views::row_with_oid(generated, classes, from.classes, index.index_oid)->0;
            let relation = index_views::row_with_oid(
                generated,
                classes,
                from.classes,
                index.relation_oid,
            )->0;
            assert(from.classes.contains(class));
            assert(from.classes.contains(relation));
            let name = meta::string_at(classes, class, "relname"@)->0;
            let of = meta::string_at(classes, relation, "relname"@)->0;
            let schema = index_views::name_told(
                generated,
                2615,
                from.namespaces,
                meta::oid_at(generated, classes, relation, "relnamespace"@),
                "nspname"@,
            )->0;
            let method = meta::or(
                index_views::name_told(
                    generated,
                    2601,
                    from.methods,
                    meta::oid_at(generated, classes, class, "relam"@),
                    "amname"@,
                ),
                "btree"@,
            );
            let tablespace = index_views::name_told(
                generated,
                1213,
                from.tablespaces,
                meta::oid_at(generated, classes, class, "reltablespace"@),
                "spcname"@,
            );
            let keys = index_views::key_names(generated, from.attributes, index);
            let list = index_views::index_view_columns(
                schema,
                of,
                name,
                tablespace,
                index_views::definition(index.is_unique, name, schema, of, method, keys),
            );
            let base = synthetic::empty_row(table, index.index_oid.0 as u64);
            assert(row == columns::with_values(table, base, list));
            columns::values_keep_the_identity(table, base, list);
            made_laws::lemma_says_alone(table, base, list, 0);
            made_laws::lemma_says_alone(table, base, list, 1);
            made_laws::lemma_says_alone(table, base, list, 2);
            made_laws::lemma_says_alone(table, base, list, 3);
            made_laws::lemma_says_alone(table, base, list, 4);
        },
        None => {},
    }
}

/// A function that an operator is made of, and that nothing describes, is described
/// as that; one that only operators on their way out are made of is not.
pub proof fn functions_of_operators_are_described(
    list: Seq<DescriptionView>,
    op: PgOperatorRecord,
    proc_oid: u32,
)
    ensures
        rows::operator_description(op) == "implementation of "@ + op.name@ + " operator"@,
        rows::names_proc(list, proc_oid)(op) <==> op.code.0 == proc_oid && proc_oid != 0
            && !rows::is_deprecated(list, op),
        rows::is_deprecated(list, op) ==> exists|i: int|
            0 <= i < list.len() && (#[trigger] list[i]).key == (2617u32, op.oid.0, 0i32)
                && "deprecated"@.is_prefix_of(list[i].text),
        (forall|i: int|
            0 <= i < list.len() ==> (#[trigger] list[i]).key != (2617u32, op.oid.0, 0i32))
            ==> !rows::is_deprecated(list, op),
{
    let p = rows::describes((2617u32, op.oid.0, 0i32));
    search::last_with_has(list, p);
    match search::last_with(list, p) {
        Some(d) => {
            assert(list.contains(d));
            let i = choose|i: int| 0 <= i < list.len() && list[i] == d;
            assert(list[i].key == (2617u32, op.oid.0, 0i32));
        },
        None => {},
    }
}

} // verus!
