//! The default arguments and bodies of built-in functions: what a compiled-in
//! function row says of them, and the node trees that stand for it.

use vstd::prelude::*;

use crate::catalog::columns;
use crate::catalog::model;
use crate::catalog::model::{
    CatalogValue, CatalogValueView, GeneratedCatalog, PgTypeRecord, StaticCatalogTable, BOOL_OID,
    BPCHAR_OID, FLOAT4_OID, FLOAT8_OID, INT2_OID, INT4_OID, INT8_OID, NAME_OID, OID_OID,
    PG_PROC_RELATION_OID, REGCLASS_OID, TEXT_OID, VARCHAR_OID,
};
use crate::catalog::values;
use crate::search;
use crate::text;
use crate::types::Oid;

verus! {

pub const JSONB_OID: u32 = 3802;

pub open spec fn type_has(oid: Oid) -> spec_fn(PgTypeRecord) -> bool {
    |r: PgTypeRecord| r.oid == oid
}

/// The compiled-in type with an identifier.
pub open spec fn builtin_type(generated: GeneratedCatalog, oid: Oid) -> Option<PgTypeRecord> {
    search::first_with(generated.types@, type_has(oid))
}

pub fn lookup_builtin_type(generated: &GeneratedCatalog, oid: Oid) -> (r: Option<PgTypeRecord>)
    ensures
        r == builtin_type(*generated, oid),
{
    let mut i: usize = 0;
    while i < generated.types.len()
        invariant
            i <= generated.types@.len(),
            forall|j: int| 0 <= j < i ==> !type_has(oid)(#[trigger] generated.types@[j]),
        decreases generated.types@.len() - i,
    {
        if generated.types[i].oid == oid {
            proof {
                search::first_index_at(generated.types@, type_has(oid), i as int);
            }
            return Some(generated.types[i]);
        }
        i += 1;
    }
    proof {
        search::first_index_none(generated.types@, type_has(oid));
    }
    None
}

/// The number of values of so many bytes.
pub open spec fn byte_range(width: nat) -> int
    decreases width,
{
    if width == 0 {
        1
    } else {
        256 * byte_range((width - 1) as nat)
    }
}

/// The lowest bytes of a number, the lowest first.
pub open spec fn low_bytes(n: nat, width: nat) -> Seq<u8>
    decreases width,
{
    if width == 0 {
        seq![]
    } else {
        seq![(n % 256) as u8] + low_bytes(n / 256, (width - 1) as nat)
    }
}

/// An integer as bytes in two's complement, in the given byte order.
pub open spec fn int_bytes(v: int, width: nat, little_endian: bool) -> Seq<u8> {
    let n = if v < 0 {
        (v + byte_range(width)) as nat
    } else {
        v as nat
    };
    if little_endian {
        low_bytes(n, width)
    } else {
        low_bytes(n, width).reverse()
    }
}

proof fn lemma_low_bytes_step(n: nat, i: nat)
    ensures
        low_bytes(n, i + 1) == low_bytes(n, i).push((n / (byte_range(i) as nat) % 256) as u8),
        byte_range(i) > 0,
    decreases i,
{
    if i == 0 {
        assert(low_bytes(n / 256, 0) =~= seq![]);
        assert(low_bytes(n, 1) =~= seq![(n % 256) as u8]);
        assert(low_bytes(n, 0).push((n % 256) as u8) =~= seq![(n % 256) as u8]);
        assert(byte_range(0) == 1);
        assert(n / 1 == n) by (nonlinear_arith);
    } else {
        lemma_low_bytes_step(n / 256, (i - 1) as nat);
        let m = byte_range((i - 1) as nat) as nat;
        assert(byte_range(i) == 256 * byte_range((i - 1) as nat));
        assert(n / 256 / m == n / (256 * m)) by (nonlinear_arith)
            requires
                m > 0,
        ;
        let b = (n / (byte_range(i) as nat) % 256) as u8;
        assert(low_bytes(n, i + 1) =~= seq![(n % 256) as u8] + low_bytes(n / 256, i));
        assert(low_bytes(n, i) =~= seq![(n % 256) as u8] + low_bytes(n / 256, (i - 1) as nat));
        assert(low_bytes(n, i + 1) =~= low_bytes(n, i).push(b));
    }
}

/// The bytes of an integer.
fn bytes_of_int(v: i128, width: usize, little_endian: bool) -> (r: Vec<u8>)
    requires
        width <= 8,
        -byte_range(width as nat) <= v < byte_range(width as nat),
    ensures
        r@ == int_bytes(v as int, width as nat, little_endian),
{
    let mut range: i128 = 1;
    let mut i: usize = 0;
    proof {
        reveal_with_fuel(byte_range, 9);
    }
    while i < width
        invariant
            i <= width <= 8,
            range == byte_range(i as nat),
            0 < range <= 0x1_0000_0000_0000_0000,
            i == 0 ==> range == 1,
            i == 1 ==> range == 0x100,
            i == 2 ==> range == 0x1_0000,
            i == 3 ==> range == 0x100_0000,
            i == 4 ==> range == 0x1_0000_0000,
            i == 5 ==> range == 0x100_0000_0000,
            i == 6 ==> range == 0x1_0000_0000_0000,
            i == 7 ==> range == 0x100_0000_0000_0000,
        decreases width - i,
    {
        range = range * 256;
        i += 1;
    }
    let n: i128 = if v < 0 {
        v + range
    } else {
        v
    };
    let mut r: Vec<u8> = Vec::new();
    let mut rest: u128 = n as u128;
    let mut k: usize = 0;
    let ghost whole = n as nat;
    assert(whole / 1 == whole) by (nonlinear_arith);
    while k < width
        invariant
            k <= width <= 8,
            r@ == low_bytes(whole, k as nat),
            byte_range(k as nat) > 0,
            rest == whole / (byte_range(k as nat) as nat),
        decreases width - k,
    {
        proof {
            lemma_low_bytes_step(whole, k as nat);
            let m = byte_range(k as nat) as nat;
            assert(byte_range((k + 1) as nat) == 256 * byte_range(k as nat));
            assert(whole / m / 256 == whole / (256 * m)) by (nonlinear_arith)
                requires
                    m > 0,
            ;
        }
        r.push((rest % 256) as u8);
        rest = rest / 256;
        k += 1;
    }
    if little_endian {
        r
    } else {
        let mut back: Vec<u8> = Vec::new();
        let mut j: usize = r.len();
        while j > 0
            invariant
                j <= r.len(),
                back@ == r@.skip(j as int).reverse(),
            decreases j,
        {
            back.push(r[j - 1]);
            assert(back@ =~= r@.skip(j - 1).reverse());
            j -= 1;
        }
        assert(r@.skip(0) =~= r@);
        back
    }
}

/// The bytes of a default value in a constant node, where its type is one
/// whose values can be written there.
pub open spec fn const_bytes(generated: GeneratedCatalog, type_oid: u32, s: Seq<char>) -> Option<
    Seq<u8>,
> {
    let little = generated.little_endian;
    if type_oid == BOOL_OID {
        Some(seq![if s == "t"@ || s == "true"@ || s == "1"@ { 1u8 } else { 0u8 }])
    } else if type_oid == INT2_OID {
        match values::as_i16(s) {
            Some(v) => Some(int_bytes(v as int, 2, little)),
            None => None,
        }
    } else if type_oid == INT4_OID {
        match values::as_i32(s) {
            Some(v) => Some(int_bytes(v as int, 4, little)),
            None => None,
        }
    } else if type_oid == INT8_OID {
        match values::as_i64(s) {
            Some(v) => Some(int_bytes(v as int, 8, little)),
            None => None,
        }
    } else if type_oid == OID_OID || type_oid == REGCLASS_OID {
        match values::as_u32(s) {
            Some(v) => Some(int_bytes(v as int, 4, little)),
            None => None,
        }
    } else if type_oid == FLOAT4_OID {
        match generated.floats.single_of(s) {
            Some(bits) => Some(int_bytes(bits as int, 4, little)),
            None => None,
        }
    } else if type_oid == FLOAT8_OID {
        match generated.floats.double_of(s) {
            Some(bits) => Some(int_bytes(bits as int, 8, little)),
            None => None,
        }
    } else if type_oid == TEXT_OID || type_oid == VARCHAR_OID || type_oid == BPCHAR_OID || type_oid
        == NAME_OID {
        let bytes = vstd::utf8::encode_utf8(s);
        Some(int_bytes((4 * (4 + bytes.len() as int)) % 0x1_0000_0000, 4, little) + bytes)
    } else if type_oid == JSONB_OID && s == "{}"@ {
        Some(int_bytes(32, 4, little) + int_bytes(0x2000_0000, 4, little))
    } else {
        None
    }
}

proof fn lemma_byte_ranges()
    ensures
        byte_range(2) == 0x1_0000,
        byte_range(4) == 0x1_0000_0000,
        byte_range(8) == 0x1_0000_0000_0000_0000,
{
    reveal_with_fuel(byte_range, 9);
}

fn append_bytes(r: &mut Vec<u8>, more: &[u8])
    ensures
        final(r)@ == old(r)@ + more@,
{
    let mut i: usize = 0;
    assert(r@ =~= old(r)@ + more@.take(0));
    while i < more.len()
        invariant
            i <= more@.len(),
            r@ == old(r)@ + more@.take(i as int),
        decreases more@.len() - i,
    {
        r.push(more[i]);
        assert((old(r)@ + more@.take(i as int)).push(more@[i as int]) =~= old(r)@ + more@.take(
            i + 1,
        ));
        i += 1;
    }
    assert(more@.take(i as int) =~= more@);
}

pub fn constvalue_bytes_for_default(
    generated: &GeneratedCatalog,
    type_oid: Oid,
    default: &Vec<char>,
) -> (r: Option<Vec<u8>>)
    ensures
        match r {
            Some(b) => const_bytes(*generated, type_oid.0, default@) == Some(b@),
            None => const_bytes(*generated, type_oid.0, default@) is None,
        },
{
    proof {
        lemma_byte_ranges();
    }
    let t = type_oid.0;
    let little = generated.little_endian;
    if t == BOOL_OID {
        let mut r: Vec<u8> = Vec::new();
        if text::spells(default, "t") || text::spells(default, "true") || text::spells(
            default,
            "1",
        ) {
            r.push(1);
        } else {
            r.push(0);
        }
        assert(r@ =~= seq![r@[0]]);
        Some(r)
    } else if t == INT2_OID {
        match values::read_i16(default) {
            Some(v) => Some(bytes_of_int(v as i128, 2, little)),
            None => None,
        }
    } else if t == INT4_OID {
        match values::read_i32(default) {
            Some(v) => Some(bytes_of_int(v as i128, 4, little)),
            None => None,
        }
    } else if t == INT8_OID {
        match values::read_i64(default) {
            Some(v) => Some(bytes_of_int(v as i128, 8, little)),
            None => None,
        }
    } else if t == OID_OID || t == REGCLASS_OID {
        match values::read_u32(default) {
            Some(v) => Some(bytes_of_int(v as i128, 4, little)),
            None => None,
        }
    } else if t == FLOAT4_OID {
        let s = text::string_of(default);
        match generated.floats.single_bits(s.as_str()) {
            Some(bits) => Some(bytes_of_int(bits as i128, 4, little)),
            None => None,
        }
    } else if t == FLOAT8_OID {
        let s = text::string_of(default);
        match generated.floats.double_bits(s.as_str()) {
            Some(bits) => Some(bytes_of_int(bits as i128, 8, little)),
            None => None,
        }
    } else if t == TEXT_OID || t == VARCHAR_OID || t == BPCHAR_OID || t == NAME_OID {
        let s = text::string_of(default);
        let bytes = s.as_str().as_bytes();
        let header: i128 = (4 * (4 + bytes.len() as i128)) % 0x1_0000_0000;
        let mut r = bytes_of_int(header, 4, little);
        append_bytes(&mut r, bytes);
        Some(r)
    } else if t == JSONB_OID && text::spells(default, "{}") {
        let mut r = bytes_of_int(32, 4, little);
        let root = bytes_of_int(0x2000_0000, 4, little);
        append_bytes(&mut r, root.as_slice());
        Some(r)
    } else {
        None
    }
}

/// Bytes as signed decimals with spaces between them.
pub open spec fn listed_bytes(bytes: Seq<u8>) -> Seq<char>
    decreases bytes.len(),
{
    if bytes.len() == 0 {
        seq![]
    } else {
        let b = bytes.last();
        let last = text::decimal_int(
            if b < 128 {
                b as int
            } else {
                b - 256
            },
        );
        if bytes.len() == 1 {
            last
        } else {
            listed_bytes(bytes.drop_last()) + " "@ + last
        }
    }
}

fn list_bytes(bytes: &Vec<u8>) -> (r: Vec<char>)
    ensures
        r@ == listed_bytes(bytes@),
{
    let mut r: Vec<char> = Vec::new();
    let mut i: usize = 0;
    assert(bytes@.take(0) =~= seq![]);
    while i < bytes.len()
        invariant
            i <= bytes.len(),
            r@ == listed_bytes(bytes@.take(i as int)),
        decreases bytes.len() - i,
    {
        assert(bytes@.take(i + 1).drop_last() =~= bytes@.take(i as int));
        let b = bytes[i];
        let n: i64 = if b < 128 {
            b as i64
        } else {
            b as i64 - 256
        };
        let ghost before = r@;
        if i > 0 {
            text::push_text(&mut r, " ");
        }
        let digits = text::format_int(n);
        text::push_all(&mut r, &digits);
        assert(i == 0 ==> r@ =~= digits@);
        i += 1;
    }
    assert(bytes@.take(i as int) =~= bytes@);
    r
}

/// The first eight bytes, with zeros after the end.
pub open spec fn eight_bytes(bytes: Seq<u8>) -> Seq<u8> {
    Seq::new(
        8,
        |i: int|
            if i < bytes.len() {
                bytes[i]
            } else {
                0
            },
    )
}

fn to_eight_bytes(bytes: &Vec<u8>) -> (r: Vec<u8>)
    ensures
        r@ == eight_bytes(bytes@),
{
    let mut r: Vec<u8> = Vec::new();
    let mut i: usize = 0;
    while i < 8
        invariant
            i <= 8,
            r@.len() == i,
            forall|j: int| 0 <= j < i ==> r@[j] == eight_bytes(bytes@)[j],
        decreases 8 - i,
    {
        if i < bytes.len() {
            r.push(bytes[i]);
        } else {
            r.push(0);
        }
        i += 1;
    }
    assert(r@ =~= eight_bytes(bytes@));
    r
}

pub open spec fn truth_word(b: bool) -> Seq<char> {
    if b {
        "true"@
    } else {
        "false"@
    }
}

/// How the value of a constant is written: its length and its bytes. A value
/// that is passed by value fills a whole word.
pub open spec fn const_value(record: PgTypeRecord, bytes: Seq<u8>) -> Seq<char> {
    let length = if record.typlen >= 0 {
        record.typlen as int
    } else {
        bytes.len() as int
    };
    let stored = if record.typbyval {
        eight_bytes(bytes)
    } else {
        bytes
    };
    text::decimal_int(length) + " [ "@ + listed_bytes(stored) + " ]"@
}

/// The node tree of a constant of a type.
pub open spec fn const_node_text(
    type_oid: Oid,
    record: PgTypeRecord,
    is_null: bool,
    value: Seq<char>,
) -> Seq<char> {
    "{CONST :consttype "@ + text::decimal_int(type_oid.0 as int)
        + " :consttypmod -1 :constcollid "@ + text::decimal_int(record.typcollation.0 as int)
        + " :constlen "@ + text::decimal_int(record.typlen as int) + " :constbyval "@ + truth_word(
        record.typbyval,
    ) + " :constisnull "@ + truth_word(is_null) + " :location -1 :constvalue "@ + value + "}"@
}

/// The node tree of a default value, where its type is known and the value can
/// be written.
pub open spec fn const_node(
    generated: GeneratedCatalog,
    type_oid: Oid,
    default: Option<Seq<char>>,
) -> Option<Seq<char>> {
    match builtin_type(generated, type_oid) {
        None => None,
        Some(record) => match default {
            None => Some(const_node_text(type_oid, record, true, "<>"@)),
            Some(s) => match const_bytes(generated, type_oid.0, s) {
                None => None,
                Some(bytes) => Some(
                    const_node_text(type_oid, record, false, const_value(record, bytes)),
                ),
            },
        },
    }
}

fn push_int(r: &mut Vec<char>, n: i64)
    ensures
        final(r)@ == old(r)@ + text::decimal_int(n as int),
{
    let digits = text::format_int(n);
    text::push_all(r, &digits);
}

fn push_truth(r: &mut Vec<char>, b: bool)
    ensures
        final(r)@ == old(r)@ + truth_word(b),
{
    if b {
        text::push_text(r, "true");
    } else {
        text::push_text(r, "false");
    }
}

pub fn const_node_for_default(
    generated: &GeneratedCatalog,
    type_oid: Oid,
    default: &Option<Vec<char>>,
) -> (r: Option<Vec<char>>)
    ensures
        ({
            let wanted = match default {
                Some(s) => Some(s@),
                None => None,
            };
            match r {
                Some(s) => const_node(*generated, type_oid, wanted) == Some(s@),
                None => const_node(*generated, type_oid, wanted) is None,
            }
        }),
{
    let record = match lookup_builtin_type(generated, type_oid) {
        Some(record) => record,
        None => {
            return None;
        },
    };
    let mut value: Vec<char> = Vec::new();
    match default {
        Some(s) => {
            match constvalue_bytes_for_default(generated, type_oid, s) {
                Some(bytes) => {
                    if record.typlen >= 0 {
                        push_int(&mut value, record.typlen as i64);
                    } else {
                        let digits = text::format_count(bytes.len());
                        text::push_all(&mut value, &digits);
                    }
                    text::push_text(&mut value, " [ ");
                    let listed = if record.typbyval {
                        let padded = to_eight_bytes(&bytes);
                        list_bytes(&padded)
                    } else {
                        list_bytes(&bytes)
                    };
                    text::push_all(&mut value, &listed);
                    text::push_text(&mut value, " ]");
                    assert(value@ =~= const_value(record, bytes@));
                },
                None => {
                    return None;
                },
            }
        },
        None => {
            text::push_text(&mut value, "<>");
            assert(value@ =~= "<>"@);
        },
    }
    let is_null = default.is_none();
    let mut r = text::chars_of("{CONST :consttype ");
    push_int(&mut r, type_oid.0 as i64);
    text::push_text(&mut r, " :consttypmod -1 :constcollid ");
    push_int(&mut r, record.typcollation.0 as i64);
    text::push_text(&mut r, " :constlen ");
    push_int(&mut r, record.typlen as i64);
    text::push_text(&mut r, " :constbyval ");
    push_truth(&mut r, record.typbyval);
    text::push_text(&mut r, " :constisnull ");
    push_truth(&mut r, is_null);
    text::push_text(&mut r, " :location -1 :constvalue ");
    text::push_all(&mut r, &value);
    text::push_text(&mut r, "}");
    Some(r)
}

/// The body of a built-in SQL function whose row refers to the script that
/// defines it.
pub open spec fn system_function_body(oid: u32) -> Option<Seq<char>> {
    if oid == 879 {
        Some("select lpad($1, $2, ' ')"@)
    } else if oid == 880 {
        Some("select rpad($1, $2, ' ')"@)
    } else if oid == 1176 {
        Some("select cast(($1 + $2) as timestamptz)"@)
    } else if oid == 1215 {
        Some("select description from pg_description where objoid = $1 and classoid = (select oid from pg_class where relname = $2 and relnamespace = 'pg_catalog'::regnamespace) and objsubid = 0"@)
    } else if oid == 1216 {
        Some("select description from pg_description where objoid = $1 and classoid = 'pg_class'::regclass and objsubid = $2"@)
    } else if oid == 1296 || oid == 1298 || oid == 1848 || oid == 2546 || oid == 2547 || oid == 2548 || oid == 2549 || oid == 2550 || oid == 2631 || oid == 5023 {
        Some("select $2 + $1"@)
    } else if oid == 1305 || oid == 1309 || oid == 2042 {
        Some("select ($1, ($1 + $2)) overlaps ($3, ($3 + $4))"@)
    } else if oid == 1306 || oid == 1310 || oid == 2043 {
        Some("select ($1, $2) overlaps ($3, ($3 + $4))"@)
    } else if oid == 1307 || oid == 1311 || oid == 2044 {
        Some("select ($1, ($1 + $2)) overlaps ($3, $4)"@)
    } else if oid == 1345 {
        Some("select description from pg_description where objoid = $1 and objsubid = 0"@)
    } else if oid == 1384 {
        Some("select date_part($1, cast($2 as timestamp))"@)
    } else if oid == 1386 {
        Some("select age(cast(current_date as timestamptz), $1)"@)
    } else if oid == 1426 {
        Some("select on_ppath($2, $1)"@)
    } else if oid == 1708 {
        Some("select round($1, 0)"@)
    } else if oid == 1710 {
        Some("select trunc($1, 0)"@)
    } else if oid == 1741 || oid == 1481 {
        Some("select log(10, $1)"@)
    } else if oid == 1810 || oid == 1811 {
        Some("select octet_length($1) * 8"@)
    } else if oid == 1812 {
        Some("select length($1)"@)
    } else if oid == 1993 {
        Some("select description from pg_shdescription where objoid = $1 and classoid = (select oid from pg_class where relname = $2 and relnamespace = 'pg_catalog'::regnamespace)"@)
    } else if oid == 2059 {
        Some("select age(cast(current_date as timestamp), $1)"@)
    } else if oid == 2074 {
        Some("select substring($1, similar_to_escape($2, $3))"@)
    } else if oid == 2325 {
        Some("select pg_relation_size($1, 'main')"@)
    } else if oid == 2932 {
        Some("select xpath($1, $2, '{}'::text[])"@)
    } else if oid == 3050 {
        Some("select xpath_exists($1, $2, '{}'::text[])"@)
    } else if oid == 3935 {
        Some("select pg_sleep(extract(epoch from clock_timestamp() + $1) - extract(epoch from clock_timestamp()))"@)
    } else if oid == 3936 {
        Some("select pg_sleep(extract(epoch from $1) - extract(epoch from clock_timestamp()))"@)
    } else {
        None
    }
}

fn find_system_function_body(oid: u32) -> (r: Option<&'static str>)
    ensures
        match r {
            Some(body) => system_function_body(oid) == Some(body@),
            None => system_function_body(oid) is None,
        },
{
    if oid == 879 {
        Some("select lpad($1, $2, ' ')")
    } else if oid == 880 {
        Some("select rpad($1, $2, ' ')")
    } else if oid == 1176 {
        Some("select cast(($1 + $2) as timestamptz)")
    } else if oid == 1215 {
        Some("select description from pg_description where objoid = $1 and classoid = (select oid from pg_class where relname = $2 and relnamespace = 'pg_catalog'::regnamespace) and objsubid = 0")
    } else if oid == 1216 {
        Some("select description from pg_description where objoid = $1 and classoid = 'pg_class'::regclass and objsubid = $2")
    } else if oid == 1296 || oid == 1298 || oid == 1848 || oid == 2546 || oid == 2547 || oid == 2548 || oid == 2549 || oid == 2550 || oid == 2631 || oid == 5023 {
        Some("select $2 + $1")
    } else if oid == 1305 || oid == 1309 || oid == 2042 {
        Some("select ($1, ($1 + $2)) overlaps ($3, ($3 + $4))")
    } else if oid == 1306 || oid == 1310 || oid == 2043 {
        Some("select ($1, $2) overlaps ($3, ($3 + $4))")
    } else if oid == 1307 || oid == 1311 || oid == 2044 {
        Some("select ($1, ($1 + $2)) overlaps ($3, $4)")
    } else if oid == 1345 {
        Some("select description from pg_description where objoid = $1 and objsubid = 0")
    } else if oid == 1384 {
        Some("select date_part($1, cast($2 as timestamp))")
    } else if oid == 1386 {
        Some("select age(cast(current_date as timestamptz), $1)")
    } else if oid == 1426 {
        Some("select on_ppath($2, $1)")
    } else if oid == 1708 {
        Some("select round($1, 0)")
    } else if oid == 1710 {
        Some("select trunc($1, 0)")
    } else if oid == 1741 || oid == 1481 {
        Some("select log(10, $1)")
    } else if oid == 1810 || oid == 1811 {
        Some("select octet_length($1) * 8")
    } else if oid == 1812 {
        Some("select length($1)")
    } else if oid == 1993 {
        Some("select description from pg_shdescription where objoid = $1 and classoid = (select oid from pg_class where relname = $2 and relnamespace = 'pg_catalog'::regnamespace)")
    } else if oid == 2059 {
        Some("select age(cast(current_date as timestamp), $1)")
    } else if oid == 2074 {
        Some("select substring($1, similar_to_escape($2, $3))")
    } else if oid == 2325 {
        Some("select pg_relation_size($1, 'main')")
    } else if oid == 2932 {
        Some("select xpath($1, $2, '{}'::text[])")
    } else if oid == 3050 {
        Some("select xpath_exists($1, $2, '{}'::text[])")
    } else if oid == 3935 {
        Some("select pg_sleep(extract(epoch from clock_timestamp() + $1) - extract(epoch from clock_timestamp()))")
    } else if oid == 3936 {
        Some("select pg_sleep(extract(epoch from $1) - extract(epoch from clock_timestamp()))")
    } else {
        None
    }
}

/// The values of a function row with the body in place of the reference to the
/// script.
pub open spec fn with_system_function_body(
    table: StaticCatalogTable,
    values: Seq<CatalogValueView>,
) -> Seq<CatalogValueView> {
    match (columns::position(table, "oid"@), columns::position(table, "prosrc"@)) {
        (Some(o), Some(p)) => if p < values.len() && o < values.len() && values[p]
            == CatalogValueView::Text("see system_functions.sql"@) && values[o] is Oid {
            match system_function_body(values[o]->Oid_0.0) {
                Some(body) => values.update(p, CatalogValueView::Text(body)),
                None => values,
            }
        } else {
            values
        },
        _ => values,
    }
}

pub fn normalize_pg_proc_system_function_body(
    table: &StaticCatalogTable,
    values: &mut Vec<CatalogValue>,
)
    ensures
        model::value_views(final(values)@) == with_system_function_body(
            *table,
            model::value_views(old(values)@),
        ),
{
    proof {
        search::first_index_is_first(table.columns@, columns::column_is("oid"@));
        search::first_index_is_first(table.columns@, columns::column_is("prosrc"@));
    }
    let ghost views = model::value_views(values@);
    let oid_index = match columns::column_position(table, "oid") {
        Some(i) => i,
        None => {
            return;
        },
    };
    let prosrc_index = match columns::column_position(table, "prosrc") {
        Some(i) => i,
        None => {
            return;
        },
    };
    if prosrc_index >= values.len() || oid_index >= values.len() {
        return;
    }
    assert(values@[prosrc_index as int]@ == views[prosrc_index as int]);
    assert(values@[oid_index as int]@ == views[oid_index as int]);
    let refers = match &values[prosrc_index] {
        CatalogValue::Text(s) => text::same_text(s.as_str(), "see system_functions.sql"),
        _ => false,
    };
    if !refers {
        return;
    }
    let oid = match &values[oid_index] {
        CatalogValue::Oid(oid) => *oid,
        _ => {
            return;
        },
    };
    match find_system_function_body(oid.0) {
        Some(body) => {
            values.set(prosrc_index, CatalogValue::Text(body.to_owned()));
            assert(model::value_views(values@) =~= views.update(
                prosrc_index as int,
                CatalogValueView::Text(body@),
            ));
        },
        None => {},
    }
}

/// The node trees of default values for arguments of the given types, where
/// each of them can be written.
pub open spec fn default_nodes(
    generated: GeneratedCatalog,
    arg_types: Seq<Oid>,
    defaults: Seq<Option<Seq<char>>>,
) -> Option<Seq<Seq<char>>>
    decreases defaults.len(),
{
    if defaults.len() == 0 {
        Some(seq![])
    } else {
        let n = defaults.len() - 1;
        match (
            default_nodes(generated, arg_types, defaults.drop_last()),
            const_node(generated, arg_types[n], defaults[n]),
        ) {
            (Some(before), Some(node)) => Some(before.push(node)),
            _ => None,
        }
    }
}

/// What the argument defaults of a function row come to.
pub struct ProcDefaults {
    pub count_at: int,
    pub defaults_at: int,
    pub count: int,
    pub nodes: Option<Seq<Seq<char>>>,
}

/// The argument defaults of a function row, where it has them in the form of
/// an array that fits the number and the types of its arguments. The defaults
/// belong to the last arguments.
pub open spec fn proc_defaults(
    generated: GeneratedCatalog,
    table: StaticCatalogTable,
    values: Seq<CatalogValueView>,
) -> Option<ProcDefaults> {
    match (
        columns::position(table, "pronargs"@),
        columns::position(table, "pronargdefaults"@),
        columns::position(table, "proargtypes"@),
        columns::position(table, "proargdefaults"@),
    ) {
        (Some(n), Some(c), Some(t), Some(d)) => if n < values.len() && t < values.len() && d
            < values.len() {
            match (
                columns::string_of(values[d]),
                columns::i16_of(values[n]),
                columns::oid_vector_of(values[t]),
            ) {
                (Some(s), Some(pronargs), Some(types)) => match values::array_elements(s) {
                    Some(defaults) => {
                        let args = if pronargs > 0 {
                            pronargs as int
                        } else {
                            0
                        };
                        if defaults.len() > args || types.len() < args {
                            None
                        } else {
                            Some(
                                ProcDefaults {
                                    count_at: c,
                                    defaults_at: d,
                                    count: defaults.len() as int,
                                    nodes: default_nodes(
                                        generated,
                                        types.subrange(args - defaults.len(), args),
                                        defaults,
                                    ),
                                },
                            )
                        }
                    },
                    None => None,
                },
                _ => None,
            }
        } else {
            None
        },
        _ => None,
    }
}

pub open spec fn replaced(values: Seq<CatalogValueView>, at: int, value: CatalogValueView) -> Seq<
    CatalogValueView,
> {
    if 0 <= at < values.len() {
        values.update(at, value)
    } else {
        values
    }
}

/// The values of a row of the catalog of functions with its body in place, the
/// number of its defaults set, and the defaults as node trees. Rows of other
/// catalogs stay as they are.
pub open spec fn with_proc_defaults(
    generated: GeneratedCatalog,
    table: StaticCatalogTable,
    values: Seq<CatalogValueView>,
) -> Seq<CatalogValueView> {
    if table.oid.0 != PG_PROC_RELATION_OID {
        values
    } else {
        let bodied = with_system_function_body(table, values);
        match proc_defaults(generated, table, bodied) {
            None => bodied,
            Some(d) => {
                let counted = replaced(
                    bodied,
                    d.count_at,
                    CatalogValueView::Int16(d.count as i16),
                );
                match d.nodes {
                    None => counted,
                    Some(nodes) => replaced(
                        counted,
                        d.defaults_at,
                        CatalogValueView::Text("("@ + text::joined(nodes, " "@) + ")"@),
                    ),
                }
            },
        }
    }
}

fn build_default_nodes(
    generated: &GeneratedCatalog,
    arg_types: &Vec<Oid>,
    defaults: &Vec<Option<Vec<char>>>,
) -> (r: Option<Vec<Vec<char>>>)
    requires
        arg_types.len() == defaults.len(),
    ensures
        match r {
            Some(nodes) => default_nodes(
                *generated,
                arg_types@,
                values::optional_chars(defaults@),
            ) == Some(text::all_chars(nodes@)),
            None => default_nodes(
                *generated,
                arg_types@,
                values::optional_chars(defaults@),
            ) is None,
        },
{
    let ghost wanted = values::optional_chars(defaults@);
    let mut nodes: Vec<Vec<char>> = Vec::new();
    let mut i: usize = 0;
    assert(wanted.take(0) =~= seq![]);
    assert(text::all_chars(nodes@) =~= seq![]);
    while i < defaults.len()
        invariant
            i <= defaults.len(),
            arg_types.len() == defaults.len(),
            wanted == values::optional_chars(defaults@),
            default_nodes(*generated, arg_types@, wanted.take(i as int)) == Some(
                text::all_chars(nodes@),
            ),
        decreases defaults.len() - i,
    {
        assert(wanted.take(i + 1).drop_last() =~= wanted.take(i as int));
        match const_node_for_default(generated, arg_types[i], &defaults[i]) {
            Some(node) => {
                let ghost before = nodes@;
                let ghost added = node@;
                nodes.push(node);
                assert(text::all_chars(nodes@) =~= text::all_chars(before).push(added));
            },
            None => {
                proof {
                    lemma_default_nodes_fail(*generated, arg_types@, wanted, i + 1);
                }
                return None;
            },
        }
        i += 1;
    }
    assert(wanted.take(i as int) =~= wanted);
    Some(nodes)
}

proof fn lemma_default_nodes_fail(
    generated: GeneratedCatalog,
    arg_types: Seq<Oid>,
    defaults: Seq<Option<Seq<char>>>,
    i: int,
)
    requires
        0 <= i <= defaults.len(),
        default_nodes(generated, arg_types, defaults.take(i)) is None,
    ensures
        default_nodes(generated, arg_types, defaults) is None,
    decreases defaults.len(),
{
    if i == defaults.len() {
        assert(defaults.take(i) =~= defaults);
    } else {
        assert(defaults.drop_last().take(i) =~= defaults.take(i));
        lemma_default_nodes_fail(generated, arg_types, defaults.drop_last(), i);
    }
}

fn replace_value(values: &mut Vec<CatalogValue>, at: usize, value: CatalogValue)
    ensures
        model::value_views(final(values)@) == replaced(
            model::value_views(old(values)@),
            at as int,
            value@,
        ),
{
    let ghost views = model::value_views(values@);
    if at < values.len() {
        values.set(at, value);
        assert(model::value_views(values@) =~= views.update(at as int, value@));
    }
}

pub fn normalize_pg_proc_bootstrap_defaults(
    generated: &GeneratedCatalog,
    table: &StaticCatalogTable,
    values: &mut Vec<CatalogValue>,
)
    ensures
        model::value_views(final(values)@) == with_proc_defaults(
            *generated,
            *table,
            model::value_views(old(values)@),
        ),
{
    if table.oid.0 != PG_PROC_RELATION_OID {
        return;
    }
    proof {
        search::first_index_is_first(table.columns@, columns::column_is("pronargs"@));
        search::first_index_is_first(table.columns@, columns::column_is("pronargdefaults"@));
        search::first_index_is_first(table.columns@, columns::column_is("proargtypes"@));
        search::first_index_is_first(table.columns@, columns::column_is("proargdefaults"@));
    }
    normalize_pg_proc_system_function_body(table, values);
    let ghost views = model::value_views(values@);
    let (pronargs_at, count_at, types_at, defaults_at) = match (
        columns::column_position(table, "pronargs"),
        columns::column_position(table, "pronargdefaults"),
        columns::column_position(table, "proargtypes"),
        columns::column_position(table, "proargdefaults"),
    ) {
        (Some(n), Some(c), Some(t), Some(d)) => (n, c, t, d),
        _ => {
            return;
        },
    };
    if pronargs_at >= values.len() || types_at >= values.len() || defaults_at >= values.len() {
        return;
    }
    assert(values@[pronargs_at as int]@ == views[pronargs_at as int]);
    assert(values@[types_at as int]@ == views[types_at as int]);
    assert(values@[defaults_at as int]@ == views[defaults_at as int]);
    let (written, pronargs, arg_types) = match (
        columns::catalog_value_string(&values[defaults_at]),
        columns::catalog_value_i16(&values[pronargs_at]),
        columns::oid_vector_value(&values[types_at]),
    ) {
        (Some(s), Some(n), Some(t)) => (s, n, t),
        _ => {
            return;
        },
    };
    let defaults = match values::parse_pg_array_elements(written.as_str()) {
        Some(defaults) => defaults,
        None => {
            return;
        },
    };
    let args: usize = if pronargs > 0 {
        pronargs as usize
    } else {
        0
    };
    if defaults.len() > args || arg_types.len() < args {
        return;
    }
    let first: usize = args - defaults.len();
    let mut last_types: Vec<Oid> = Vec::new();
    let mut i: usize = first;
    while i < args
        invariant
            first <= i <= args <= arg_types.len(),
            last_types@ == arg_types@.subrange(first as int, i as int),
        decreases args - i,
    {
        last_types.push(arg_types[i]);
        assert(last_types@ =~= arg_types@.subrange(first as int, i + 1));
        i += 1;
    }
    replace_value(values, count_at, CatalogValue::Int16(defaults.len() as i16));
    match build_default_nodes(generated, &last_types, &defaults) {
        Some(nodes) => {
            let mut tree = text::chars_of("(");
            let listed = text::join(&nodes, " ");
            text::push_all(&mut tree, &listed);
            text::push_text(&mut tree, ")");
            let tree_text = text::string_of(&tree);
            replace_value(values, defaults_at, CatalogValue::Text(tree_text));
        },
        None => {},
    }
}

} // verus!
