//! The values of catalog rows: how they are read from text, what they stand
//! for, and how they are found by the name of their column.

use vstd::prelude::*;

use crate::catalog::model::{
    CatalogValue, CatalogValueView, FloatReadings, StaticCatalogColumn, StaticCatalogValue,
    BOOL_OID, CHAR_OID, FLOAT4_OID, INT2VECTOR_OID, INT2_OID, INT4_OID, NAME_OID, OIDVECTOR_OID,
    OID_OID, PG_NODE_TREE_OID, REGCLASS_OID, TEXT_OID,
};
use crate::text;
use crate::types::Oid;

verus! {

pub open spec fn as_u32(s: Seq<char>) -> Option<u32> {
    match text::parsed_int(s, 0, u32::MAX as int) {
        Some(v) => Some(v as u32),
        None => None,
    }
}

pub open spec fn as_i16(s: Seq<char>) -> Option<i16> {
    match text::parsed_int(s, i16::MIN as int, i16::MAX as int) {
        Some(v) => Some(v as i16),
        None => None,
    }
}

pub open spec fn as_i32(s: Seq<char>) -> Option<i32> {
    match text::parsed_int(s, i32::MIN as int, i32::MAX as int) {
        Some(v) => Some(v as i32),
        None => None,
    }
}

pub open spec fn as_i64(s: Seq<char>) -> Option<i64> {
    match text::parsed_int(s, i64::MIN as int, i64::MAX as int) {
        Some(v) => Some(v as i64),
        None => None,
    }
}

pub fn read_u32(s: &Vec<char>) -> (r: Option<u32>)
    ensures
        r == as_u32(s@),
{
    match text::parse_int(s, 0, 0xffff_ffff) {
        Some(v) => Some(v as u32),
        None => None,
    }
}

pub fn read_i16(s: &Vec<char>) -> (r: Option<i16>)
    ensures
        r == as_i16(s@),
{
    match text::parse_int(s, -0x8000, 0x7fff) {
        Some(v) => Some(v as i16),
        None => None,
    }
}

pub fn read_i32(s: &Vec<char>) -> (r: Option<i32>)
    ensures
        r == as_i32(s@),
{
    match text::parse_int(s, -0x8000_0000, 0x7fff_ffff) {
        Some(v) => Some(v as i32),
        None => None,
    }
}

pub fn read_i64(s: &Vec<char>) -> (r: Option<i64>)
    ensures
        r == as_i64(s@),
{
    text::parse_int(s, i64::MIN, i64::MAX)
}

/// The first byte of a text.
pub open spec fn first_byte(s: Seq<char>) -> Option<u8> {
    let bytes = vstd::utf8::encode_utf8(s);
    if bytes.len() > 0 {
        Some(bytes[0])
    } else {
        None
    }
}

pub fn read_first_byte(s: &str) -> (r: Option<u8>)
    ensures
        r == first_byte(s@),
{
    let bytes = s.as_bytes();
    if bytes.len() > 0 {
        Some(bytes[0])
    } else {
        None
    }
}

/// The number that a compiled-in value stands for: a dash is zero.
pub open spec fn static_u32(s: Seq<char>) -> Option<u32> {
    if s == "-"@ {
        Some(0)
    } else if s == "NAMEDATALEN"@ {
        Some(64)
    } else {
        as_u32(s)
    }
}

pub open spec fn static_i32(s: Seq<char>) -> Option<i32> {
    if s == "-"@ {
        Some(0)
    } else if s == "NAMEDATALEN"@ {
        Some(64)
    } else {
        as_i32(s)
    }
}

pub open spec fn truth(s: Seq<char>) -> Option<bool> {
    if s == "t"@ || s == "true"@ {
        Some(true)
    } else if s == "f"@ || s == "false"@ {
        Some(false)
    } else {
        None
    }
}

/// The byte that a text of type "char" stands for.
pub open spec fn char_byte(s: Seq<char>) -> u8 {
    if s == "\\0"@ {
        0
    } else {
        match first_byte(s) {
            Some(b) => b,
            None => 0,
        }
    }
}

pub fn static_value_as_u32(value: StaticCatalogValue) -> (r: Option<u32>)
    ensures
        r == match value {
            StaticCatalogValue::Raw(s) => static_u32(s@),
            StaticCatalogValue::Null => None,
        },
{
    match value {
        StaticCatalogValue::Raw(s) => {
            if text::same_text(s, "-") {
                Some(0)
            } else if text::same_text(s, "NAMEDATALEN") {
                Some(64)
            } else {
                let chars = text::chars_of(s);
                read_u32(&chars)
            }
        },
        StaticCatalogValue::Null => None,
    }
}

pub fn static_value_as_i32(value: StaticCatalogValue) -> (r: Option<i32>)
    ensures
        r == match value {
            StaticCatalogValue::Raw(s) => static_i32(s@),
            StaticCatalogValue::Null => None,
        },
{
    match value {
        StaticCatalogValue::Raw(s) => {
            if text::same_text(s, "-") {
                Some(0)
            } else if text::same_text(s, "NAMEDATALEN") {
                Some(64)
            } else {
                let chars = text::chars_of(s);
                read_i32(&chars)
            }
        },
        StaticCatalogValue::Null => None,
    }
}

pub fn read_truth(s: &str) -> (r: Option<bool>)
    ensures
        r == truth(s@),
{
    if text::same_text(s, "t") || text::same_text(s, "true") {
        Some(true)
    } else if text::same_text(s, "f") || text::same_text(s, "false") {
        Some(false)
    } else {
        None
    }
}

pub fn static_value_as_bool(value: StaticCatalogValue) -> (r: Option<bool>)
    ensures
        r == match value {
            StaticCatalogValue::Raw(s) => truth(s@),
            StaticCatalogValue::Null => None,
        },
{
    match value {
        StaticCatalogValue::Raw(s) => read_truth(s),
        StaticCatalogValue::Null => None,
    }
}

fn read_char_byte(s: &str) -> (r: u8)
    ensures
        r == char_byte(s@),
{
    if text::same_text(s, "\\0") {
        0
    } else {
        match read_first_byte(s) {
            Some(b) => b,
            None => 0,
        }
    }
}

pub fn static_value_as_char(value: StaticCatalogValue) -> (r: Option<u8>)
    ensures
        r == match value {
            StaticCatalogValue::Raw(s) => Some(char_byte(s@)),
            StaticCatalogValue::Null => None,
        },
{
    match value {
        StaticCatalogValue::Raw(s) => Some(read_char_byte(s)),
        StaticCatalogValue::Null => None,
    }
}

/// The words that read as identifiers, in order.
pub open spec fn oids_of(words: Seq<Seq<char>>) -> Seq<Oid>
    decreases words.len(),
{
    if words.len() == 0 {
        seq![]
    } else {
        let before = oids_of(words.drop_last());
        match as_u32(words.last()) {
            Some(v) => before.push(Oid(v)),
            None => before,
        }
    }
}

/// The words that read as two-byte integers, in order.
pub open spec fn int2s_of(words: Seq<Seq<char>>) -> Seq<i16>
    decreases words.len(),
{
    if words.len() == 0 {
        seq![]
    } else {
        let before = int2s_of(words.drop_last());
        match as_i16(words.last()) {
            Some(v) => before.push(v),
            None => before,
        }
    }
}

pub fn parse_oid_vector(value: &str) -> (r: Vec<Oid>)
    ensures
        r@ == oids_of(text::words(value@)),
{
    let chars = text::chars_of(value);
    let words = text::split_words(&chars);
    let ghost all = text::all_chars(words@);
    let mut r: Vec<Oid> = Vec::new();
    let mut i: usize = 0;
    assert(all.take(0) =~= seq![]);
    while i < words.len()
        invariant
            i <= words.len(),
            all == text::all_chars(words@),
            r@ == oids_of(all.take(i as int)),
        decreases words.len() - i,
    {
        assert(all.take(i + 1).drop_last() =~= all.take(i as int));
        match read_u32(&words[i]) {
            Some(v) => {
                r.push(Oid(v));
            },
            None => {},
        }
        i += 1;
    }
    assert(all.take(i as int) =~= all);
    r
}

pub fn parse_int2_vector(value: &str) -> (r: Vec<i16>)
    ensures
        r@ == int2s_of(text::words(value@)),
{
    let chars = text::chars_of(value);
    let words = text::split_words(&chars);
    let ghost all = text::all_chars(words@);
    let mut r: Vec<i16> = Vec::new();
    let mut i: usize = 0;
    assert(all.take(0) =~= seq![]);
    while i < words.len()
        invariant
            i <= words.len(),
            all == text::all_chars(words@),
            r@ == int2s_of(all.take(i as int)),
        decreases words.len() - i,
    {
        assert(all.take(i + 1).drop_last() =~= all.take(i as int));
        match read_i16(&words[i]) {
            Some(v) => {
                r.push(v);
            },
            None => {},
        }
        i += 1;
    }
    assert(all.take(i as int) =~= all);
    r
}

/// What a scan of the elements of an array has found.
pub struct ArrayScan {
    pub elements: Seq<Option<Seq<char>>>,
    pub current: Seq<char>,
    pub quoted: bool,
    pub escaped: bool,
    pub saw_quote: bool,
}

/// The scan of one more character. A comma outside quotes ends an element,
/// which is null where it is the bare word NULL; that word then stays at the
/// start of the next element.
pub open spec fn array_step(scan: ArrayScan, c: char) -> ArrayScan {
    if scan.escaped {
        ArrayScan { current: scan.current.push(c), escaped: false, ..scan }
    } else if c == '\\' && scan.quoted {
        ArrayScan { escaped: true, ..scan }
    } else if c == '"' {
        ArrayScan { quoted: !scan.quoted, saw_quote: true, ..scan }
    } else if c == ',' && !scan.quoted {
        if !scan.saw_quote && scan.current == "NULL"@ {
            ArrayScan { elements: scan.elements.push(None), saw_quote: false, ..scan }
        } else {
            ArrayScan {
                elements: scan.elements.push(Some(scan.current)),
                current: seq![],
                saw_quote: false,
                ..scan
            }
        }
    } else {
        ArrayScan { current: scan.current.push(c), ..scan }
    }
}

pub open spec fn array_scan(s: Seq<char>) -> ArrayScan
    decreases s.len(),
{
    if s.len() == 0 {
        ArrayScan {
            elements: seq![],
            current: seq![],
            quoted: false,
            escaped: false,
            saw_quote: false,
        }
    } else {
        array_step(array_scan(s.drop_last()), s.last())
    }
}

/// The elements of an array in its text form, where the text is in braces.
pub open spec fn array_elements(s: Seq<char>) -> Option<Seq<Option<Seq<char>>>> {
    if s.len() >= 2 && s[0] == '{' && s.last() == '}' {
        let inner = s.subrange(1, s.len() - 1);
        let scan = array_scan(inner);
        if !scan.saw_quote && scan.current == "NULL"@ {
            Some(scan.elements.push(None))
        } else if inner.len() == 0 {
            Some(seq![])
        } else {
            Some(scan.elements.push(Some(scan.current)))
        }
    } else {
        None
    }
}

/// The contents of a list of optional texts.
pub open spec fn optional_chars(v: Seq<Option<Vec<char>>>) -> Seq<Option<Seq<char>>> {
    Seq::new(
        v.len(),
        |i: int|
            match v[i] {
                Some(t) => Some(t@),
                None => None,
            },
    )
}

pub fn parse_pg_array_elements(value: &str) -> (r: Option<Vec<Option<Vec<char>>>>)
    ensures
        match r {
            Some(v) => array_elements(value@) == Some(optional_chars(v@)),
            None => array_elements(value@) is None,
        },
{
    let chars = text::chars_of(value);
    if chars.len() < 2 || chars[0] != '{' || chars[chars.len() - 1] != '}' {
        return None;
    }
    let inner = text::slice_of(&chars, 1, chars.len() - 1);
    let mut elements: Vec<Option<Vec<char>>> = Vec::new();
    let mut current: Vec<char> = Vec::new();
    let mut quoted = false;
    let mut escaped = false;
    let mut saw_quote = false;
    let mut i: usize = 0;
    assert(optional_chars(elements@) =~= seq![]);
    assert(inner@.take(0) =~= seq![]);
    while i < inner.len()
        invariant
            i <= inner.len(),
            array_scan(inner@.take(i as int)) == (ArrayScan {
                elements: optional_chars(elements@),
                current: current@,
                quoted,
                escaped,
                saw_quote,
            }),
        decreases inner.len() - i,
    {
        assert(inner@.take(i + 1).drop_last() =~= inner@.take(i as int));
        let c = inner[i];
        if escaped {
            current.push(c);
            escaped = false;
        } else if c == '\\' && quoted {
            escaped = true;
        } else if c == '"' {
            quoted = !quoted;
            saw_quote = true;
        } else if c == ',' && !quoted {
            let ghost before = elements@;
            if !saw_quote && text::spells(&current, "NULL") {
                elements.push(None);
                assert(optional_chars(elements@) =~= optional_chars(before).push(None));
            } else {
                let ghost element = current@;
                elements.push(Some(current));
                assert(optional_chars(elements@) =~= optional_chars(before).push(Some(element)));
                current = Vec::new();
            }
            saw_quote = false;
        } else {
            current.push(c);
        }
        i += 1;
    }
    assert(inner@.take(i as int) =~= inner@);
    let ghost before = elements@;
    if !saw_quote && text::spells(&current, "NULL") {
        elements.push(None);
        assert(optional_chars(elements@) =~= optional_chars(before).push(None));
    } else if inner.len() == 0 {
        let empty: Vec<Option<Vec<char>>> = Vec::new();
        assert(optional_chars(empty@) =~= seq![]);
        return Some(empty);
    } else {
        let ghost element = current@;
        elements.push(Some(current));
        assert(optional_chars(elements@) =~= optional_chars(before).push(Some(element)));
    }
    Some(elements)
}

/// Whether values of the column are identifiers.
pub open spec fn is_oid_column(column: StaticCatalogColumn) -> bool {
    ||| column.type_oid.0 == OID_OID
    ||| column.type_oid.0 == REGCLASS_OID
    ||| "reg"@.is_prefix_of(column.column_type@)
    ||| column.column_type@ == "oid"@
}

pub open spec fn or_zero(v: Option<u32>) -> u32 {
    match v {
        Some(n) => n,
        None => 0,
    }
}

/// The value that a compiled-in text stands for in a column.
pub open spec fn static_text_value(
    floats: FloatReadings,
    column: StaticCatalogColumn,
    raw: Seq<char>,
) -> CatalogValueView {
    let t = column.type_oid.0;
    let number: i32 = match static_i32(raw) {
        Some(v) => v,
        None => 0,
    };
    if t == BOOL_OID {
        CatalogValueView::Bool(truth(raw) == Some(true))
    } else if t == CHAR_OID {
        CatalogValueView::Char(char_byte(raw))
    } else if t == INT2_OID {
        CatalogValueView::Int16(number as i16)
    } else if t == INT4_OID {
        CatalogValueView::Int32(number)
    } else if t == FLOAT4_OID {
        CatalogValueView::Float32(or_zero(floats.single_of(raw)))
    } else if t == NAME_OID {
        CatalogValueView::Name(raw)
    } else if t == TEXT_OID || t == PG_NODE_TREE_OID {
        CatalogValueView::Text(raw)
    } else if t == OIDVECTOR_OID {
        CatalogValueView::OidVector(oids_of(text::words(raw)))
    } else if t == INT2VECTOR_OID {
        CatalogValueView::Int2Vector(int2s_of(text::words(raw)))
    } else if is_oid_column(column) {
        CatalogValueView::Oid(Oid(or_zero(static_u32(raw))))
    } else {
        CatalogValueView::Raw(raw)
    }
}

pub open spec fn static_value(
    floats: FloatReadings,
    column: StaticCatalogColumn,
    value: StaticCatalogValue,
) -> CatalogValueView {
    match value {
        StaticCatalogValue::Null => CatalogValueView::Null,
        StaticCatalogValue::Raw(raw) => static_text_value(floats, column, raw@),
    }
}

fn holds_oids(column: &StaticCatalogColumn) -> (r: bool)
    ensures
        r == is_oid_column(*column),
{
    let chars = text::chars_of(column.column_type);
    column.type_oid.0 == OID_OID || column.type_oid.0 == REGCLASS_OID || text::begins_with(
        &chars,
        "reg",
    ) || text::spells(&chars, "oid")
}

pub fn static_value_to_catalog_value(
    floats: &FloatReadings,
    column: &StaticCatalogColumn,
    value: StaticCatalogValue,
) -> (r: CatalogValue)
    ensures
        r@ == static_value(*floats, *column, value),
{
    match value {
        StaticCatalogValue::Null => CatalogValue::Null,
        StaticCatalogValue::Raw(raw) => {
            let t = column.type_oid.0;
            if t == BOOL_OID {
                CatalogValue::Bool(
                    match static_value_as_bool(value) {
                        Some(b) => b,
                        None => false,
                    },
                )
            } else if t == CHAR_OID {
                CatalogValue::Char(
                    match static_value_as_char(value) {
                        Some(b) => b,
                        None => 0,
                    },
                )
            } else if t == INT2_OID || t == INT4_OID {
                let number: i32 = match static_value_as_i32(value) {
                    Some(v) => v,
                    None => 0,
                };
                if t == INT2_OID {
                    CatalogValue::Int16(
                        #[verifier::truncate]
                        (number as i16),
                    )
                } else {
                    CatalogValue::Int32(number)
                }
            } else if t == FLOAT4_OID {
                CatalogValue::Float32(
                    match floats.single_bits(raw) {
                        Some(bits) => bits,
                        None => 0,
                    },
                )
            } else if t == NAME_OID {
                CatalogValue::Name(raw.to_owned())
            } else if t == TEXT_OID || t == PG_NODE_TREE_OID {
                CatalogValue::Text(raw.to_owned())
            } else if t == OIDVECTOR_OID {
                CatalogValue::OidVector(parse_oid_vector(raw))
            } else if t == INT2VECTOR_OID {
                CatalogValue::Int2Vector(parse_int2_vector(raw))
            } else if holds_oids(column) {
                CatalogValue::Oid(
                    Oid(
                        match static_value_as_u32(value) {
                            Some(v) => v,
                            None => 0,
                        },
                    ),
                )
            } else {
                CatalogValue::Raw(raw.to_owned())
            }
        },
    }
}

/// The value that a given text stands for in a column. A text that does not
/// read as the column's type is kept as it is.
pub open spec fn text_value(
    floats: FloatReadings,
    column: StaticCatalogColumn,
    raw: Seq<char>,
) -> CatalogValueView {
    let t = column.type_oid.0;
    if t == BOOL_OID {
        match truth(raw) {
            Some(b) => CatalogValueView::Bool(b),
            None => CatalogValueView::Raw(raw),
        }
    } else if t == CHAR_OID {
        CatalogValueView::Char(char_byte(raw))
    } else if t == INT2_OID {
        match as_i16(raw) {
            Some(v) => CatalogValueView::Int16(v),
            None => CatalogValueView::Raw(raw),
        }
    } else if t == INT4_OID {
        match as_i32(raw) {
            Some(v) => CatalogValueView::Int32(v),
            None => CatalogValueView::Raw(raw),
        }
    } else if t == FLOAT4_OID {
        match floats.single_of(raw) {
            Some(bits) => CatalogValueView::Float32(bits),
            None => CatalogValueView::Raw(raw),
        }
    } else if t == NAME_OID {
        CatalogValueView::Name(raw)
    } else if t == TEXT_OID || t == PG_NODE_TREE_OID {
        CatalogValueView::Text(raw)
    } else if t == OIDVECTOR_OID {
        CatalogValueView::OidVector(oids_of(text::words(raw)))
    } else if t == INT2VECTOR_OID {
        CatalogValueView::Int2Vector(int2s_of(text::words(raw)))
    } else if is_oid_column(column) {
        match as_u32(raw) {
            Some(v) => CatalogValueView::Oid(Oid(v)),
            None => CatalogValueView::Raw(raw),
        }
    } else {
        CatalogValueView::Raw(raw)
    }
}

/// The value of a column from its text; without a text it is null.
pub fn catalog_value_from_text(
    floats: &FloatReadings,
    column: &StaticCatalogColumn,
    value: Option<&str>,
) -> (r: CatalogValue)
    ensures
        r@ == match value {
            Some(raw) => text_value(*floats, *column, raw@),
            None => CatalogValueView::Null,
        },
{
    let raw = match value {
        Some(raw) => raw,
        None => {
            return CatalogValue::Null;
        },
    };
    let t = column.type_oid.0;
    let chars = text::chars_of(raw);
    if t == BOOL_OID {
        match read_truth(raw) {
            Some(b) => CatalogValue::Bool(b),
            None => CatalogValue::Raw(raw.to_owned()),
        }
    } else if t == CHAR_OID {
        CatalogValue::Char(read_char_byte(raw))
    } else if t == INT2_OID {
        match read_i16(&chars) {
            Some(v) => CatalogValue::Int16(v),
            None => CatalogValue::Raw(raw.to_owned()),
        }
    } else if t == INT4_OID {
        match read_i32(&chars) {
            Some(v) => CatalogValue::Int32(v),
            None => CatalogValue::Raw(raw.to_owned()),
        }
    } else if t == FLOAT4_OID {
        match floats.single_bits(raw) {
            Some(bits) => CatalogValue::Float32(bits),
            None => CatalogValue::Raw(raw.to_owned()),
        }
    } else if t == NAME_OID {
        CatalogValue::Name(raw.to_owned())
    } else if t == TEXT_OID || t == PG_NODE_TREE_OID {
        CatalogValue::Text(raw.to_owned())
    } else if t == OIDVECTOR_OID {
        CatalogValue::OidVector(parse_oid_vector(raw))
    } else if t == INT2VECTOR_OID {
        CatalogValue::Int2Vector(parse_int2_vector(raw))
    } else if holds_oids(column) {
        match read_u32(&chars) {
            Some(v) => CatalogValue::Oid(Oid(v)),
            None => CatalogValue::Raw(raw.to_owned()),
        }
    } else {
        CatalogValue::Raw(raw.to_owned())
    }
}

} // verus!
