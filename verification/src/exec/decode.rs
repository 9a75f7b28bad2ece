//! The values of a statement's result, read from their texts.

use vstd::prelude::*;

use crate::exec::pgcore::{
    PgCoreParam, PgCoreParamView, PgCoreValue, PgCoreValueView, INT2_OID, INT4_OID, INT8_OID,
};
use crate::search;
use crate::text;
use crate::types::{PgType, Value, ValueView};

verus! {

/// Whether values are read as their types have it, or passed on as texts.
#[derive(Clone, Copy, Debug, PartialEq, Eq, Structural)]
pub enum PgCoreRowConversion {
    Typed,
    PreserveText,
}

/// The form in which `std` shows a string for debugging: between quotes, with
/// escapes.
pub uninterp spec fn debug_text(s: Seq<char>) -> Seq<char>;

/// The words in which `std` says why a text is no `i16`.
pub uninterp spec fn int2_refusal(s: Seq<char>) -> Seq<char>;

/// The words in which `std` says why a text is no `i32`.
pub uninterp spec fn int4_refusal(s: Seq<char>) -> Seq<char>;

/// The words in which `std` says why a text is no `i64`.
pub uninterp spec fn int8_refusal(s: Seq<char>) -> Seq<char>;

/// The `Debug` form of a `str`, by `format!`. It depends on the string alone;
/// nothing more is claimed of it.
#[verifier::external_body]
fn debug_form(s: &str) -> (r: String)
    ensures
        r@ == debug_text(s@),
{
    format!("{:?}", s)
}

/// The error of `str::parse::<i16>`, in the words of its `Display`. They depend on
/// the text alone; nothing more is claimed of them.
#[verifier::external_body]
fn int2_error(s: &str) -> (r: String)
    requires
        text::parsed_int(s@, i16::MIN as int, i16::MAX as int) is None,
    ensures
        r@ == int2_refusal(s@),
{
    match s.parse::<i16>() {
        Ok(_) => String::new(),
        Err(error) => error.to_string(),
    }
}

/// The error of `str::parse::<i32>`, in the words of its `Display`. They depend on
/// the text alone; nothing more is claimed of them.
#[verifier::external_body]
fn int4_error(s: &str) -> (r: String)
    requires
        text::parsed_int(s@, i32::MIN as int, i32::MAX as int) is None,
    ensures
        r@ == int4_refusal(s@),
{
    match s.parse::<i32>() {
        Ok(_) => String::new(),
        Err(error) => error.to_string(),
    }
}

/// The error of `str::parse::<i64>`, in the words of its `Display`. They depend on
/// the text alone; nothing more is claimed of them.
#[verifier::external_body]
fn int8_error(s: &str) -> (r: String)
    requires
        text::parsed_int(s@, i64::MIN as int, i64::MAX as int) is None,
    ensures
        r@ == int8_refusal(s@),
{
    match s.parse::<i64>() {
        Ok(_) => String::new(),
        Err(error) => error.to_string(),
    }
}

/// The type that values of a declared type travel as.
pub open spec fn travel_type(type_oid: u32) -> PgType {
    if type_oid == INT2_OID {
        PgType::Int2
    } else if type_oid == INT4_OID {
        PgType::Int4
    } else if type_oid == INT8_OID {
        PgType::Int8
    } else {
        PgType::Varchar
    }
}

pub fn pg_type_for_oid(type_oid: u32) -> (r: PgType)
    ensures
        r == travel_type(type_oid),
{
    if type_oid == INT2_OID {
        PgType::Int2
    } else if type_oid == INT4_OID {
        PgType::Int4
    } else if type_oid == INT8_OID {
        PgType::Int8
    } else {
        PgType::Varchar
    }
}

/// A type that values travel as keeps its kind when it is named by its usual
/// identifier.
pub proof fn usual_types_travel_as_themselves(t: PgType)
    ensures
        travel_type(t.type_oid()) == t,
{
}

/// The message for a text that is no number of a type.
pub open spec fn fault_text(
    type_words: Seq<char>,
    shown: Seq<char>,
    reason: Seq<char>,
) -> Seq<char> {
    "cannot decode PostgreSQL "@ + type_words + " value "@ + shown + ": "@ + reason
}

/// The message for a text that is no number of a type, made of how the text is
/// shown and why it is none.
pub fn decode_fault(type_words: &str, shown: &str, reason: &str) -> (r: String)
    ensures
        r@ == fault_text(type_words@, shown@, reason@),
{
    let mut message = text::chars_of("cannot decode PostgreSQL ");
    text::push_text(&mut message, type_words);
    text::push_text(&mut message, " value ");
    text::push_text(&mut message, shown);
    text::push_text(&mut message, ": ");
    text::push_text(&mut message, reason);
    text::string_of(&message)
}

/// The value that a text of a type stands for, or why it stands for none.
pub open spec fn typed_value(s: Seq<char>, data_type: PgType) -> Result<ValueView, Seq<char>> {
    match data_type {
        PgType::Int2 => match text::parsed_int(s, i16::MIN as int, i16::MAX as int) {
            Some(n) => Ok(ValueView::Int2(n as i16)),
            None => Err(fault_text("int2"@, debug_text(s), int2_refusal(s))),
        },
        PgType::Int4 => match text::parsed_int(s, i32::MIN as int, i32::MAX as int) {
            Some(n) => Ok(ValueView::Int4(n as i32)),
            None => Err(fault_text("int4"@, debug_text(s), int4_refusal(s))),
        },
        PgType::Int8 => match text::parsed_int(s, i64::MIN as int, i64::MAX as int) {
            Some(n) => Ok(ValueView::Int8(n as i64)),
            None => Err(fault_text("int8"@, debug_text(s), int8_refusal(s))),
        },
        PgType::Varchar => Ok(ValueView::Text(s)),
    }
}

/// The value that the core's value stands for, or why it stands for none.
pub open spec fn value_of(
    value: PgCoreValueView,
    data_type: PgType,
    conversion: PgCoreRowConversion,
) -> Result<ValueView, Seq<char>> {
    match (value, conversion) {
        (PgCoreValueView::Null, _) => Ok(ValueView::Null),
        (PgCoreValueView::Text(s), PgCoreRowConversion::PreserveText) => Ok(ValueView::RawText(s)),
        (PgCoreValueView::Text(s), PgCoreRowConversion::Typed) => typed_value(s, data_type),
    }
}

/// Whether a result and its model agree.
pub open spec fn same_value(r: Result<Value, String>, v: Result<ValueView, Seq<char>>) -> bool {
    match r {
        Ok(value) => v == Ok::<_, Seq<char>>(value@),
        Err(message) => v == Err::<ValueView, _>(message@),
    }
}

fn typed(value: &String, data_type: PgType) -> (r: Result<Value, String>)
    ensures
        same_value(r, typed_value(value@, data_type)),
{
    let chars = text::chars_of(value.as_str());
    match data_type {
        PgType::Int2 => match text::parse_int(&chars, i16::MIN as i64, i16::MAX as i64) {
            Some(n) => Ok(Value::Int2(n as i16)),
            None => Err(
                decode_fault(
                    "int2",
                    debug_form(value.as_str()).as_str(),
                    int2_error(value.as_str()).as_str(),
                ),
            ),
        },
        PgType::Int4 => match text::parse_int(&chars, i32::MIN as i64, i32::MAX as i64) {
            Some(n) => Ok(Value::Int4(n as i32)),
            None => Err(
                decode_fault(
                    "int4",
                    debug_form(value.as_str()).as_str(),
                    int4_error(value.as_str()).as_str(),
                ),
            ),
        },
        PgType::Int8 => match text::parse_int(&chars, i64::MIN, i64::MAX) {
            Some(n) => Ok(Value::Int8(n)),
            None => Err(
                decode_fault(
                    "int8",
                    debug_form(value.as_str()).as_str(),
                    int8_error(value.as_str()).as_str(),
                ),
            ),
        },
        PgType::Varchar => Ok(Value::Text(value.clone())),
    }
}

/// The value that the core's value stands for, or why it stands for none.
pub fn pgcore_value_to_value(
    value: &PgCoreValue,
    data_type: PgType,
    conversion: PgCoreRowConversion,
) -> (r: Result<Value, String>)
    ensures
        same_value(r, value_of(value@, data_type, conversion)),
{
    match value {
        PgCoreValue::Null => Ok(Value::Null),
        PgCoreValue::Text(value) => match conversion {
            PgCoreRowConversion::PreserveText => Ok(Value::RawText(value.clone())),
            PgCoreRowConversion::Typed => typed(value, data_type),
        },
    }
}

/// A parameter as the core takes it: integers as machine words with their sign
/// extended, texts as texts.
pub open spec fn param_of(value: ValueView) -> PgCoreParamView {
    match value {
        ValueView::Int2(v) => PgCoreParamView::Datum(v as usize),
        ValueView::Int4(v) => PgCoreParamView::Datum(v as usize),
        ValueView::Int8(v) => PgCoreParamView::Datum(v as usize),
        ValueView::Text(s) => PgCoreParamView::Text(s),
        ValueView::RawText(s) => PgCoreParamView::Text(s),
        ValueView::Null => PgCoreParamView::Null,
    }
}

pub fn pgcore_param_value(value: &Value) -> (r: PgCoreParam)
    ensures
        r@ == param_of(value@),
{
    match value {
        Value::Int2(v) => PgCoreParam::Datum(
            #[verifier::truncate]
            (*v as usize),
        ),
        Value::Int4(v) => PgCoreParam::Datum(
            #[verifier::truncate]
            (*v as usize),
        ),
        Value::Int8(v) => PgCoreParam::Datum(
            #[verifier::truncate]
            (*v as usize),
        ),
        Value::Text(s) => PgCoreParam::Text(s.clone()),
        Value::RawText(s) => PgCoreParam::Text(s.clone()),
        Value::Null => PgCoreParam::Null,
    }
}

pub fn pgcore_params(values: &Vec<Value>) -> (r: Vec<PgCoreParam>)
    ensures
        search::views(r@) == Seq::new(values@.len(), |i: int| param_of(values@[i]@)),
{
    let mut r: Vec<PgCoreParam> = Vec::new();
    let mut i: usize = 0;
    while i < values.len()
        invariant
            i <= values.len(),
            r@.len() == i,
            forall|j: int| 0 <= j < i ==> (#[trigger] r@[j])@ == param_of(values@[j]@),
        decreases values.len() - i,
    {
        r.push(pgcore_param_value(&values[i]));
        i += 1;
    }
    assert(search::views(r@) =~= Seq::new(values@.len(), |i: int| param_of(values@[i]@)));
    r
}

/// The text of an integer is read as that integer.
pub proof fn an_integer_is_read_back(n: int, data_type: PgType)
    requires
        match data_type {
            PgType::Int2 => i16::MIN <= n <= i16::MAX,
            PgType::Int4 => i32::MIN <= n <= i32::MAX,
            PgType::Int8 => i64::MIN <= n <= i64::MAX,
            PgType::Varchar => false,
        },
    ensures
        typed_value(text::decimal_int(n), data_type) == Ok::<_, Seq<char>>(
            match data_type {
                PgType::Int2 => ValueView::Int2(n as i16),
                PgType::Int4 => ValueView::Int4(n as i32),
                _ => ValueView::Int8(n as i64),
            },
        ),
{
    match data_type {
        PgType::Int2 => text::decimal_form_reads_back(n, i16::MIN as int, i16::MAX as int),
        PgType::Int4 => text::decimal_form_reads_back(n, i32::MIN as int, i32::MAX as int),
        _ => text::decimal_form_reads_back(n, i64::MIN as int, i64::MAX as int),
    }
}

} // verus!
