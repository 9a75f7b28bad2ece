//! The identifiers, types and values that statements and results are made of.

use vstd::prelude::*;

verus! {

/// An object identifier.
#[derive(Clone, Copy, Debug, PartialEq, Eq, PartialOrd, Ord, Hash, Structural)]
pub struct Oid(pub u32);

impl View for Oid {
    type V = Oid;

    open spec fn view(&self) -> Oid {
        *self
    }
}

/// The types that values travel as.
#[derive(Clone, Copy, Debug, PartialEq, Eq, Structural)]
pub enum PgType {
    Int2,
    Int4,
    Int8,
    Varchar,
}

impl PgType {
    pub open spec fn type_oid(self) -> u32 {
        match self {
            PgType::Int2 => 21,
            PgType::Int4 => 23,
            PgType::Int8 => 20,
            PgType::Varchar => 1043,
        }
    }

    /// The identifier of the type, where nothing names a more exact one.
    pub fn default_type_oid(self) -> (r: u32)
        ensures
            r == self.type_oid(),
    {
        match self {
            PgType::Int2 => 21,
            PgType::Int4 => 23,
            PgType::Int8 => 20,
            PgType::Varchar => 1043,
        }
    }
}

/// A column of a result: its name, the type that its values travel as, and the
/// type that it was declared with.
#[derive(Debug, PartialEq, Eq)]
pub struct Column {
    pub name: String,
    pub data_type: PgType,
    pub type_oid: u32,
    pub type_modifier: i32,
}

pub struct ColumnView {
    pub name: Seq<char>,
    pub data_type: PgType,
    pub type_oid: u32,
    pub type_modifier: i32,
}

impl View for Column {
    type V = ColumnView;

    open spec fn view(&self) -> ColumnView {
        ColumnView {
            name: self.name@,
            data_type: self.data_type,
            type_oid: self.type_oid,
            type_modifier: self.type_modifier,
        }
    }
}

impl Clone for Column {
    fn clone(&self) -> (r: Self)
        ensures
            r@ == self@,
    {
        Column {
            name: self.name.clone(),
            data_type: self.data_type,
            type_oid: self.type_oid,
            type_modifier: self.type_modifier,
        }
    }
}

impl Column {
    /// A column of the usual type for how its values travel.
    pub fn new(name: &str, data_type: PgType) -> (r: Column)
        ensures
            r@ == (ColumnView {
                name: name@,
                data_type,
                type_oid: data_type.type_oid(),
                type_modifier: (-1) as i32,
            }),
    {
        Column::with_type_oid(name, data_type, data_type.default_type_oid())
    }

    /// A column of a type without a modifier.
    pub fn with_type_oid(name: &str, data_type: PgType, type_oid: u32) -> (r: Column)
        ensures
            r@ == (ColumnView { name: name@, data_type, type_oid, type_modifier: (-1) as i32 }),
    {
        Column::with_type_metadata(name, data_type, type_oid, -1)
    }

    pub fn with_type_metadata(
        name: &str,
        data_type: PgType,
        type_oid: u32,
        type_modifier: i32,
    ) -> (r: Column)
        ensures
            r@ == (ColumnView { name: name@, data_type, type_oid, type_modifier }),
    {
        Column { name: name.to_owned(), data_type, type_oid, type_modifier }
    }
}

/// A value of a parameter or of a result. Raw text is passed on as it came.
#[derive(Debug, PartialEq, Eq)]
pub enum Value {
    Int2(i16),
    Int4(i32),
    Int8(i64),
    Text(String),
    RawText(String),
    Null,
}

pub enum ValueView {
    Int2(i16),
    Int4(i32),
    Int8(i64),
    Text(Seq<char>),
    RawText(Seq<char>),
    Null,
}

impl View for Value {
    type V = ValueView;

    open spec fn view(&self) -> ValueView {
        match self {
            Value::Int2(v) => ValueView::Int2(*v),
            Value::Int4(v) => ValueView::Int4(*v),
            Value::Int8(v) => ValueView::Int8(*v),
            Value::Text(v) => ValueView::Text(v@),
            Value::RawText(v) => ValueView::RawText(v@),
            Value::Null => ValueView::Null,
        }
    }
}

impl Clone for Value {
    fn clone(&self) -> (r: Self)
        ensures
            r@ == self@,
    {
        match self {
            Value::Int2(v) => Value::Int2(*v),
            Value::Int4(v) => Value::Int4(*v),
            Value::Int8(v) => Value::Int8(*v),
            Value::Text(v) => Value::Text(v.clone()),
            Value::RawText(v) => Value::RawText(v.clone()),
            Value::Null => Value::Null,
        }
    }
}

} // verus!
