//! The rows of the system catalogs, the tables that are compiled in, and the
//! records that are read out of them.

use vstd::prelude::*;

use crate::search;
use crate::text;
use crate::types::Oid;

verus! {

pub const BOOL_OID: u32 = 16;

pub const BYTEA_OID: u32 = 17;

pub const CHAR_OID: u32 = 18;

pub const NAME_OID: u32 = 19;

pub const INT8_OID: u32 = 20;

pub const INT2_OID: u32 = 21;

pub const INT2VECTOR_OID: u32 = 22;

pub const INT4_OID: u32 = 23;

pub const TEXT_OID: u32 = 25;

pub const OID_OID: u32 = 26;

pub const TID_OID: u32 = 27;

pub const XID_OID: u32 = 28;

pub const CID_OID: u32 = 29;

pub const OIDVECTOR_OID: u32 = 30;

pub const PG_NODE_TREE_OID: u32 = 194;

pub const FLOAT4_OID: u32 = 700;

pub const FLOAT8_OID: u32 = 701;

pub const UNKNOWN_OID: u32 = 705;

pub const CHAR_ARRAY_OID: u32 = 1002;

pub const INT2_ARRAY_OID: u32 = 1005;

pub const INT4_ARRAY_OID: u32 = 1007;

pub const TEXT_ARRAY_OID: u32 = 1009;

pub const OID_ARRAY_OID: u32 = 1028;

pub const ACLITEM_OID: u32 = 1033;

pub const ACLITEM_ARRAY_OID: u32 = 1034;

pub const BPCHAR_OID: u32 = 1042;

pub const VARCHAR_OID: u32 = 1043;

pub const TIMESTAMP_OID: u32 = 1114;

pub const TIMESTAMPTZ_OID: u32 = 1184;

pub const REGCLASS_OID: u32 = 2205;

pub const ANY_OID: u32 = 2276;

pub const ANYARRAY_OID: u32 = 2277;

pub const INTERNAL_OID: u32 = 2281;

pub const RECORD_OID: u32 = 2249;

pub const LSN_OID: u32 = 3220;

pub const ANYENUM_OID: u32 = 3500;

pub const ANYRANGE_OID: u32 = 3831;

pub const ANYMULTIRANGE_OID: u32 = 4537;

pub const ARRAY_SUBSCRIPT_HANDLER_OID: u32 = 6179;

pub const DEFAULT_COLLATION_OID: u32 = 100;

pub const C_COLLATION_OID: u32 = 950;

pub const INVALID_OID: u32 = 0;

pub const POSTGRES_ROLE_OID: u32 = 10;

pub const PG_CATALOG_NAMESPACE_OID: u32 = 11;

pub const INFORMATION_SCHEMA_NAMESPACE_OID: u32 = 14_000;

pub const PUBLIC_NAMESPACE_OID: u32 = 2200;

pub const PG_CLASS_RELATION_OID: u32 = 1259;

pub const PG_ATTRIBUTE_RELATION_OID: u32 = 1249;

pub const PG_TYPE_RELATION_OID: u32 = 1247;

pub const PG_PROC_RELATION_OID: u32 = 1255;

pub const PG_AGGREGATE_RELATION_OID: u32 = 2600;

pub const PG_OPERATOR_RELATION_OID: u32 = 2617;

pub const PG_DATABASE_RELATION_OID: u32 = 1262;

pub const PG_NAMESPACE_RELATION_OID: u32 = 2615;

pub const PG_INDEX_RELATION_OID: u32 = 2610;

pub const PG_INHERITS_RELATION_OID: u32 = 2611;

pub const PG_CONSTRAINT_RELATION_OID: u32 = 2606;

pub const PG_DESCRIPTION_RELATION_OID: u32 = 2609;

pub const PG_SEQUENCE_RELATION_OID: u32 = 2224;

pub const PG_INIT_PRIVS_RELATION_OID: u32 = 3394;

pub const PG_ENUM_RELATION_OID: u32 = 3501;

pub const PG_TS_DICT_RELATION_OID: u32 = 3600;

pub const PG_TS_CONFIG_RELATION_OID: u32 = 3602;

pub const PG_TS_CONFIG_MAP_RELATION_OID: u32 = 3603;

pub const PG_TS_TEMPLATE_RELATION_OID: u32 = 3764;

pub const PG_AM_RELATION_OID: u32 = 2601;

pub const PG_TABLESPACE_RELATION_OID: u32 = 1213;

pub const PG_ROLES_RELATION_OID: u32 = 12000;

pub const PG_INDEXES_RELATION_OID: u32 = 12001;

pub const BTREE_INDEX_AM_OID: u32 = 403;

pub const C_LANGUAGE_OID: u32 = 13;

pub const PG_AGGREGATE_FNOID_INDEX_OID: u32 = 2650;

pub const PG_ATTRIBUTE_RELID_NAME_INDEX_OID: u32 = 2658;

pub const PG_ATTRIBUTE_RELID_NUM_INDEX_OID: u32 = 2659;

pub const PG_CLASS_OID_INDEX_OID: u32 = 2662;

pub const PG_CLASS_NAME_NSP_INDEX_OID: u32 = 2663;

pub const PG_NAMESPACE_NAME_INDEX_OID: u32 = 2684;

pub const PG_NAMESPACE_OID_INDEX_OID: u32 = 2685;

pub const PG_TS_CONFIG_MAP_INDEX_OID: u32 = 3609;

pub const PG_SEQUENCE_RELID_INDEX_OID: u32 = 5002;

pub const OID_BTREE_OPCLASS_OID: u32 = 1981;

pub const DEFAULT_TS_PARSER_OID: u32 = 3722;

pub const SIMPLE_TS_DICT_OID: u32 = 3765;

pub const SNOWBALL_TS_TEMPLATE_OID: u32 = 100_100;

pub const ENGLISH_TS_CONFIG_OID: u32 = 100_101;

pub const ENGLISH_TS_DICT_OID: u32 = 100_102;

pub const DSNOWBALL_INIT_PROC_OID: u32 = 100_103;

pub const DSNOWBALL_LEXIZE_PROC_OID: u32 = 100_104;

pub const TEMPLATE1_DATABASE_OID: u32 = 1;

pub const TEMPLATE0_DATABASE_OID: u32 = 4;

pub const POSTGRES_DATABASE_OID: u32 = 5;

pub const SYNTHETIC_DATABASE_OID_BASE: u32 = 0xE100_0000;

pub const SYNTHETIC_CATALOG_ROWTYPE_OID_BASE: u32 = 0xF000_0000;

pub const SYNTHETIC_DESCRIPTION_ROW_ID_BASE: u64 = 0xD200_0000;

pub const SYNTHETIC_INIT_PRIVS_ROW_ID_BASE: u64 = 0xD400_0000;

pub const SYNTHETIC_TS_CONFIG_MAP_ROW_ID_BASE: u64 = 0xD500_0000;

pub const SYNTHETIC_STATIC_ATTRIBUTE_ROW_ID_FLAG: u64 = 0x8000;

pub const VIRTUAL_CATALOG_STATIC: u8 = 1;

pub const VIRTUAL_CATALOG_DYNAMIC: u8 = 2;

pub const VIRTUAL_CATALOG_EMPTY: u8 = 3;

/// A value of a compiled-in row.
#[derive(Clone, Copy, Debug, PartialEq, Eq)]
pub enum StaticCatalogValue {
    Null,
    Raw(&'static str),
}

#[derive(Clone, Copy, Debug, PartialEq, Eq)]
pub struct StaticCatalogColumn {
    pub name: &'static str,
    pub column_type: &'static str,
    pub type_oid: Oid,
    pub attlen: i16,
    pub attnum: i16,
    pub attndims: i32,
    pub attbyval: bool,
    pub attalign: u8,
    pub attstorage: u8,
    pub attnotnull: bool,
    pub attcollation: Oid,
}

#[derive(Clone, Copy, Debug, PartialEq, Eq)]
pub struct StaticCatalogRow {
    pub row_id: u64,
    pub values: &'static [StaticCatalogValue],
}

/// A compiled-in catalog: its columns, and the rows that it starts with.
#[derive(Clone, Copy, Debug, PartialEq, Eq)]
pub struct StaticCatalogTable {
    pub oid: Oid,
    pub name: &'static str,
    pub rowtype_oid: Oid,
    pub columns: &'static [StaticCatalogColumn],
    pub rows: &'static [StaticCatalogRow],
}

/// A value of a catalog row. A single precision number is held as its bits.
#[derive(Debug, PartialEq, Eq)]
pub enum CatalogValue {
    Null,
    Bool(bool),
    Char(u8),
    Int16(i16),
    Int32(i32),
    Float32(u32),
    Oid(Oid),
    Name(String),
    Text(String),
    OidVector(Vec<Oid>),
    Int2Vector(Vec<i16>),
    Raw(String),
}

/// What a catalog value holds.
pub enum CatalogValueView {
    Null,
    Bool(bool),
    Char(u8),
    Int16(i16),
    Int32(i32),
    Float32(u32),
    Oid(Oid),
    Name(Seq<char>),
    Text(Seq<char>),
    OidVector(Seq<Oid>),
    Int2Vector(Seq<i16>),
    Raw(Seq<char>),
}

impl View for CatalogValue {
    type V = CatalogValueView;

    open spec fn view(&self) -> CatalogValueView {
        match self {
            CatalogValue::Null => CatalogValueView::Null,
            CatalogValue::Bool(v) => CatalogValueView::Bool(*v),
            CatalogValue::Char(v) => CatalogValueView::Char(*v),
            CatalogValue::Int16(v) => CatalogValueView::Int16(*v),
            CatalogValue::Int32(v) => CatalogValueView::Int32(*v),
            CatalogValue::Float32(v) => CatalogValueView::Float32(*v),
            CatalogValue::Oid(v) => CatalogValueView::Oid(*v),
            CatalogValue::Name(v) => CatalogValueView::Name(v@),
            CatalogValue::Text(v) => CatalogValueView::Text(v@),
            CatalogValue::OidVector(v) => CatalogValueView::OidVector(v@),
            CatalogValue::Int2Vector(v) => CatalogValueView::Int2Vector(v@),
            CatalogValue::Raw(v) => CatalogValueView::Raw(v@),
        }
    }
}

impl Clone for CatalogValue {
    fn clone(&self) -> (r: Self)
        ensures
            r@ == self@,
    {
        match self {
            CatalogValue::Null => CatalogValue::Null,
            CatalogValue::Bool(v) => CatalogValue::Bool(*v),
            CatalogValue::Char(v) => CatalogValue::Char(*v),
            CatalogValue::Int16(v) => CatalogValue::Int16(*v),
            CatalogValue::Int32(v) => CatalogValue::Int32(*v),
            CatalogValue::Float32(v) => CatalogValue::Float32(*v),
            CatalogValue::Oid(v) => CatalogValue::Oid(*v),
            CatalogValue::Name(v) => CatalogValue::Name(v.clone()),
            CatalogValue::Text(v) => CatalogValue::Text(v.clone()),
            CatalogValue::OidVector(v) => {
                let copy = v.clone();
                assert(copy@ =~= v@);
                CatalogValue::OidVector(copy)
            },
            CatalogValue::Int2Vector(v) => {
                let copy = v.clone();
                assert(copy@ =~= v@);
                CatalogValue::Int2Vector(copy)
            },
            CatalogValue::Raw(v) => CatalogValue::Raw(v.clone()),
        }
    }
}

/// What a list of catalog values holds.
pub open spec fn value_views(values: Seq<CatalogValue>) -> Seq<CatalogValueView> {
    Seq::new(values.len(), |i: int| values[i]@)
}

/// A row of a catalog: the catalog, the row's identity in it, and its values
/// in the order of the catalog's columns.
#[derive(Debug, PartialEq, Eq)]
pub struct CatalogRow {
    pub relation_oid: Oid,
    pub row_id: u64,
    pub values: Vec<CatalogValue>,
}

/// What a catalog row holds.
pub struct CatalogRowView {
    pub relation_oid: Oid,
    pub row_id: u64,
    pub values: Seq<CatalogValueView>,
}

impl View for CatalogRow {
    type V = CatalogRowView;

    open spec fn view(&self) -> CatalogRowView {
        CatalogRowView {
            relation_oid: self.relation_oid,
            row_id: self.row_id,
            values: value_views(self.values@),
        }
    }
}

impl Clone for CatalogRow {
    fn clone(&self) -> (r: Self)
        ensures
            r@ == self@,
    {
        let mut values: Vec<CatalogValue> = Vec::new();
        let mut i: usize = 0;
        while i < self.values.len()
            invariant
                i <= self.values.len(),
                values.len() == i,
                forall|j: int| 0 <= j < i ==> (#[trigger] values@[j])@ == self.values@[j]@,
            decreases self.values.len() - i,
        {
            values.push(self.values[i].clone());
            i += 1;
        }
        assert(value_views(values@) =~= value_views(self.values@));
        CatalogRow { relation_oid: self.relation_oid, row_id: self.row_id, values }
    }
}

/// How a catalog is kept: fixed, overlaid with the rows of a session, or
/// without rows.
#[derive(Clone, Copy, Debug, PartialEq, Eq, Structural)]
pub enum VirtualCatalogPolicy {
    Static,
    Dynamic,
    Empty,
}

impl VirtualCatalogPolicy {
    /// The number of the policy.
    pub fn code(self) -> (r: u8)
        ensures
            r == match self {
                VirtualCatalogPolicy::Static => VIRTUAL_CATALOG_STATIC,
                VirtualCatalogPolicy::Dynamic => VIRTUAL_CATALOG_DYNAMIC,
                VirtualCatalogPolicy::Empty => VIRTUAL_CATALOG_EMPTY,
            },
    {
        match self {
            VirtualCatalogPolicy::Static => VIRTUAL_CATALOG_STATIC,
            VirtualCatalogPolicy::Dynamic => VIRTUAL_CATALOG_DYNAMIC,
            VirtualCatalogPolicy::Empty => VIRTUAL_CATALOG_EMPTY,
        }
    }
}

#[derive(Clone, Copy, Debug, PartialEq, Eq)]
pub struct VirtualCatalogRecord {
    pub relation_oid: Oid,
    pub name: &'static str,
    pub policy: VirtualCatalogPolicy,
}

#[derive(Clone, Copy, Debug, PartialEq, Eq)]
pub struct PgNamespaceRecord {
    pub oid: Oid,
    pub name: &'static str,
    pub owner: Oid,
}

#[derive(Clone, Copy, Debug, PartialEq, Eq)]
pub struct PgOperatorRecord {
    pub oid: Oid,
    pub name: &'static str,
    pub namespace: Oid,
    pub owner: Oid,
    pub kind: u8,
    pub can_merge: bool,
    pub can_hash: bool,
    pub left_type: Oid,
    pub right_type: Oid,
    pub result_type: Oid,
    pub commutator: Oid,
    pub negator: Oid,
    pub code: Oid,
    pub rest: Oid,
    pub join: Oid,
}

#[derive(Clone, Copy, Debug, PartialEq, Eq)]
pub struct PgCastRecord {
    pub oid: Oid,
    pub source_type: Oid,
    pub target_type: Oid,
    pub function: Oid,
    pub context: u8,
    pub method: u8,
}

#[derive(Clone, Copy, Debug, PartialEq, Eq)]
pub struct PgTypeRecord {
    pub oid: Oid,
    pub name: &'static str,
    pub namespace: Oid,
    pub owner: Oid,
    pub typlen: i16,
    pub typbyval: bool,
    pub typalign: u8,
    pub typdelim: u8,
    pub typinput: Oid,
    pub typoutput: Oid,
    pub typreceive: Oid,
    pub typsend: Oid,
    pub typmodin: Oid,
    pub typmodout: Oid,
    pub typisdefined: bool,
    pub typtype: u8,
    pub typcategory: u8,
    pub typispreferred: bool,
    pub typrelid: Oid,
    pub typelem: Oid,
    pub typarray: Oid,
    pub typbasetype: Oid,
    pub typtypmod: i32,
    pub typcollation: Oid,
    pub typsubscript: Oid,
    pub typstorage: u8,
}

#[derive(Clone, Copy, Debug, PartialEq, Eq)]
pub struct PgProcRecord {
    pub oid: Oid,
    pub name: &'static str,
    pub namespace: Oid,
    pub owner: Oid,
    pub language: Oid,
    pub cost: u32,
    pub rows: u32,
    pub variadic: Oid,
    pub support: Oid,
    pub kind: u8,
    pub security_definer: bool,
    pub leakproof: bool,
    pub strict: bool,
    pub returns_set: bool,
    pub volatility: u8,
    pub parallel: u8,
    pub return_type: Oid,
    pub arg_types: &'static [Oid],
    pub arg_defaults: u16,
    pub source: &'static str,
}

#[derive(Clone, Copy, Debug, PartialEq, Eq)]
pub struct PgAggregateRecord {
    pub function_oid: Oid,
    pub kind: u8,
    pub direct_arg_count: u16,
    pub transition_fn: Oid,
    pub final_fn: Oid,
    pub combine_fn: Oid,
    pub serial_fn: Oid,
    pub deserial_fn: Oid,
    pub moving_transition_fn: Oid,
    pub moving_inverse_fn: Oid,
    pub moving_final_fn: Oid,
    pub final_extra: bool,
    pub moving_final_extra: bool,
    pub final_modify: u8,
    pub moving_final_modify: u8,
    pub sort_operator: Oid,
    pub transition_type: Oid,
    pub transition_space: i32,
    pub moving_transition_type: Oid,
    pub moving_transition_space: i32,
    pub init_value: Option<&'static str>,
    pub moving_init_value: Option<&'static str>,
}

/// What is compiled in: the catalogs with their rows, and the records that
/// are looked up by name or identifier; how the texts in them read as floating
/// point numbers; and the byte order that node trees are written in.
#[derive(Debug)]
pub struct GeneratedCatalog {
    pub tables: &'static [StaticCatalogTable],
    pub virtual_catalogs: &'static [VirtualCatalogRecord],
    pub types: &'static [PgTypeRecord],
    pub procs: &'static [PgProcRecord],
    pub aggregates: &'static [PgAggregateRecord],
    pub operators: &'static [PgOperatorRecord],
    pub casts: &'static [PgCastRecord],
    pub namespaces: &'static [PgNamespaceRecord],
    pub floats: FloatReadings,
    pub little_endian: bool,
}

/// The texts that read as floating point numbers, with the bits of the number.
#[derive(Debug)]
pub struct FloatReadings {
    pub single: Vec<(String, u32)>,
    pub double: Vec<(String, u64)>,
}

/// The first entry for a text in a list of readings.
pub open spec fn reading<B>(entries: Seq<(String, B)>, text: Seq<char>) -> Option<B>
    decreases entries.len(),
{
    if entries.len() == 0 {
        None
    } else if entries[0].0@ == text {
        Some(entries[0].1)
    } else {
        reading(entries.drop_first(), text)
    }
}

fn find_reading<B: Copy>(entries: &Vec<(String, B)>, text: &str) -> (r: Option<B>)
    ensures
        r == reading(entries@, text@),
{
    let mut i: usize = 0;
    assert(entries@.skip(0) =~= entries@);
    while i < entries.len()
        invariant
            i <= entries.len(),
            reading(entries@, text@) == reading(entries@.skip(i as int), text@),
        decreases entries.len() - i,
    {
        if text::same_text(entries[i].0.as_str(), text) {
            return Some(entries[i].1);
        }
        assert(entries@.skip(i as int).drop_first() =~= entries@.skip(i + 1));
        i += 1;
    }
    None
}

impl FloatReadings {
    pub open spec fn single_of(&self, text: Seq<char>) -> Option<u32> {
        reading(self.single@, text)
    }

    pub open spec fn double_of(&self, text: Seq<char>) -> Option<u64> {
        reading(self.double@, text)
    }

    /// The bits of the single precision number that the text stands for.
    pub fn single_bits(&self, text: &str) -> (r: Option<u32>)
        ensures
            r == self.single_of(text@),
    {
        find_reading(&self.single, text)
    }

    /// The bits of the double precision number that the text stands for.
    pub fn double_bits(&self, text: &str) -> (r: Option<u64>)
        ensures
            r == self.double_of(text@),
    {
        find_reading(&self.double, text)
    }
}

/// An identifier in the form that names are compared in: without the
/// whitespace at its ends, in lower case.
pub open spec fn normalized(s: Seq<char>) -> Seq<char> {
    text::lower(text::trim(s))
}

pub fn normalize_identifier(value: &str) -> (r: String)
    ensures
        r@ == normalized(value@),
{
    let chars = text::chars_of(value);
    let trimmed = text::trim_chars(&chars);
    let folded = text::lower_chars(&trimmed);
    text::string_of(&folded)
}

/// Why a change of a catalog was refused.
#[derive(Clone, Debug, PartialEq, Eq)]
pub struct CatalogError {
    pub sqlstate: String,
    pub message: String,
}

impl CatalogError {
    pub fn new(sqlstate: &str, message: String) -> (r: Self)
        ensures
            r.sqlstate@ == sqlstate@,
            r.message@ == message@,
    {
        CatalogError { sqlstate: sqlstate.to_owned(), message }
    }
}

/// A column of a relation.
#[derive(Debug, PartialEq, Eq)]
pub struct ColumnRecord {
    pub row_id: u64,
    pub name: String,
    pub type_oid: Oid,
    pub type_mod: i32,
    pub is_not_null: bool,
    pub has_default: bool,
    pub generated: u8,
}

pub struct ColumnRecordView {
    pub row_id: u64,
    pub name: Seq<char>,
    pub type_oid: Oid,
    pub type_mod: i32,
    pub is_not_null: bool,
    pub has_default: bool,
    pub generated: u8,
}

impl View for ColumnRecord {
    type V = ColumnRecordView;

    open spec fn view(&self) -> ColumnRecordView {
        ColumnRecordView {
            row_id: self.row_id,
            name: self.name@,
            type_oid: self.type_oid,
            type_mod: self.type_mod,
            is_not_null: self.is_not_null,
            has_default: self.has_default,
            generated: self.generated,
        }
    }
}

impl Clone for ColumnRecord {
    fn clone(&self) -> (r: Self)
        ensures
            r@ == self@,
    {
        ColumnRecord {
            row_id: self.row_id,
            name: self.name.clone(),
            type_oid: self.type_oid,
            type_mod: self.type_mod,
            is_not_null: self.is_not_null,
            has_default: self.has_default,
            generated: self.generated,
        }
    }
}

/// A column of a relation with how it is stored; a dropped column keeps its place.
#[derive(Debug, PartialEq, Eq)]
pub struct PhysicalColumnRecord {
    pub row_id: u64,
    pub name: String,
    pub type_oid: Oid,
    pub type_mod: i32,
    pub is_not_null: bool,
    pub has_default: bool,
    pub generated: u8,
    pub is_dropped: bool,
    pub attlen: i16,
    pub attbyval: bool,
    pub attalign: u8,
    pub attstorage: u8,
    pub attcollation: Oid,
}

pub struct PhysicalColumnRecordView {
    pub row_id: u64,
    pub name: Seq<char>,
    pub type_oid: Oid,
    pub type_mod: i32,
    pub is_not_null: bool,
    pub has_default: bool,
    pub generated: u8,
    pub is_dropped: bool,
    pub attlen: i16,
    pub attbyval: bool,
    pub attalign: u8,
    pub attstorage: u8,
    pub attcollation: Oid,
}

impl View for PhysicalColumnRecord {
    type V = PhysicalColumnRecordView;

    open spec fn view(&self) -> PhysicalColumnRecordView {
        PhysicalColumnRecordView {
            row_id: self.row_id,
            name: self.name@,
            type_oid: self.type_oid,
            type_mod: self.type_mod,
            is_not_null: self.is_not_null,
            has_default: self.has_default,
            generated: self.generated,
            is_dropped: self.is_dropped,
            attlen: self.attlen,
            attbyval: self.attbyval,
            attalign: self.attalign,
            attstorage: self.attstorage,
            attcollation: self.attcollation,
        }
    }
}

impl Clone for PhysicalColumnRecord {
    fn clone(&self) -> (r: Self)
        ensures
            r@ == self@,
    {
        PhysicalColumnRecord {
            row_id: self.row_id,
            name: self.name.clone(),
            type_oid: self.type_oid,
            type_mod: self.type_mod,
            is_not_null: self.is_not_null,
            has_default: self.has_default,
            generated: self.generated,
            is_dropped: self.is_dropped,
            attlen: self.attlen,
            attbyval: self.attbyval,
            attalign: self.attalign,
            attstorage: self.attstorage,
            attcollation: self.attcollation,
        }
    }
}

/// An index of a relation.
#[derive(Debug, PartialEq, Eq)]
pub struct IndexRecord {
    pub row_id: u64,
    pub index_oid: Oid,
    pub relation_oid: Oid,
    pub key_attnums: Vec<i16>,
    pub is_unique: bool,
    pub nulls_not_distinct: bool,
    pub is_primary: bool,
    pub is_exclusion: bool,
    pub is_immediate: bool,
    pub is_valid: bool,
    pub is_ready: bool,
    pub is_live: bool,
}

pub struct IndexRecordView {
    pub row_id: u64,
    pub index_oid: Oid,
    pub relation_oid: Oid,
    pub key_attnums: Seq<i16>,
    pub is_unique: bool,
    pub nulls_not_distinct: bool,
    pub is_primary: bool,
    pub is_exclusion: bool,
    pub is_immediate: bool,
    pub is_valid: bool,
    pub is_ready: bool,
    pub is_live: bool,
}

impl View for IndexRecord {
    type V = IndexRecordView;

    open spec fn view(&self) -> IndexRecordView {
        IndexRecordView {
            row_id: self.row_id,
            index_oid: self.index_oid,
            relation_oid: self.relation_oid,
            key_attnums: self.key_attnums@,
            is_unique: self.is_unique,
            nulls_not_distinct: self.nulls_not_distinct,
            is_primary: self.is_primary,
            is_exclusion: self.is_exclusion,
            is_immediate: self.is_immediate,
            is_valid: self.is_valid,
            is_ready: self.is_ready,
            is_live: self.is_live,
        }
    }
}

impl Clone for IndexRecord {
    fn clone(&self) -> (r: Self)
        ensures
            r@ == self@,
    {
        let key_attnums = self.key_attnums.clone();
        assert(key_attnums@ =~= self.key_attnums@);
        IndexRecord {
            row_id: self.row_id,
            index_oid: self.index_oid,
            relation_oid: self.relation_oid,
            key_attnums,
            is_unique: self.is_unique,
            nulls_not_distinct: self.nulls_not_distinct,
            is_primary: self.is_primary,
            is_exclusion: self.is_exclusion,
            is_immediate: self.is_immediate,
            is_valid: self.is_valid,
            is_ready: self.is_ready,
            is_live: self.is_live,
        }
    }
}

/// A type.
#[derive(Debug, PartialEq, Eq)]
pub struct CatalogTypeRecord {
    pub row_id: u64,
    pub oid: Oid,
    pub name: String,
    pub namespace: Oid,
    pub owner: Oid,
    pub typlen: i16,
    pub typbyval: bool,
    pub typalign: u8,
    pub typdelim: u8,
    pub typinput: Oid,
    pub typoutput: Oid,
    pub typreceive: Oid,
    pub typsend: Oid,
    pub typmodin: Oid,
    pub typmodout: Oid,
    pub typisdefined: bool,
    pub typtype: u8,
    pub typcategory: u8,
    pub typispreferred: bool,
    pub typrelid: Oid,
    pub typelem: Oid,
    pub typarray: Oid,
    pub typbasetype: Oid,
    pub typtypmod: i32,
    pub typcollation: Oid,
    pub typsubscript: Oid,
    pub typstorage: u8,
}

pub struct CatalogTypeRecordView {
    pub row_id: u64,
    pub oid: Oid,
    pub name: Seq<char>,
    pub namespace: Oid,
    pub owner: Oid,
    pub typlen: i16,
    pub typbyval: bool,
    pub typalign: u8,
    pub typdelim: u8,
    pub typinput: Oid,
    pub typoutput: Oid,
    pub typreceive: Oid,
    pub typsend: Oid,
    pub typmodin: Oid,
    pub typmodout: Oid,
    pub typisdefined: bool,
    pub typtype: u8,
    pub typcategory: u8,
    pub typispreferred: bool,
    pub typrelid: Oid,
    pub typelem: Oid,
    pub typarray: Oid,
    pub typbasetype: Oid,
    pub typtypmod: i32,
    pub typcollation: Oid,
    pub typsubscript: Oid,
    pub typstorage: u8,
}

impl View for CatalogTypeRecord {
    type V = CatalogTypeRecordView;

    open spec fn view(&self) -> CatalogTypeRecordView {
        CatalogTypeRecordView {
            row_id: self.row_id,
            oid: self.oid,
            name: self.name@,
            namespace: self.namespace,
            owner: self.owner,
            typlen: self.typlen,
            typbyval: self.typbyval,
            typalign: self.typalign,
            typdelim: self.typdelim,
            typinput: self.typinput,
            typoutput: self.typoutput,
            typreceive: self.typreceive,
            typsend: self.typsend,
            typmodin: self.typmodin,
            typmodout: self.typmodout,
            typisdefined: self.typisdefined,
            typtype: self.typtype,
            typcategory: self.typcategory,
            typispreferred: self.typispreferred,
            typrelid: self.typrelid,
            typelem: self.typelem,
            typarray: self.typarray,
            typbasetype: self.typbasetype,
            typtypmod: self.typtypmod,
            typcollation: self.typcollation,
            typsubscript: self.typsubscript,
            typstorage: self.typstorage,
        }
    }
}

impl Clone for CatalogTypeRecord {
    fn clone(&self) -> (r: Self)
        ensures
            r@ == self@,
    {
        CatalogTypeRecord {
            row_id: self.row_id,
            oid: self.oid,
            name: self.name.clone(),
            namespace: self.namespace,
            owner: self.owner,
            typlen: self.typlen,
            typbyval: self.typbyval,
            typalign: self.typalign,
            typdelim: self.typdelim,
            typinput: self.typinput,
            typoutput: self.typoutput,
            typreceive: self.typreceive,
            typsend: self.typsend,
            typmodin: self.typmodin,
            typmodout: self.typmodout,
            typisdefined: self.typisdefined,
            typtype: self.typtype,
            typcategory: self.typcategory,
            typispreferred: self.typispreferred,
            typrelid: self.typrelid,
            typelem: self.typelem,
            typarray: self.typarray,
            typbasetype: self.typbasetype,
            typtypmod: self.typtypmod,
            typcollation: self.typcollation,
            typsubscript: self.typsubscript,
            typstorage: self.typstorage,
        }
    }
}

impl CatalogTypeRecordView {
    /// A compiled-in type as a type.
    pub open spec fn builtin(record: PgTypeRecord) -> CatalogTypeRecordView {
        CatalogTypeRecordView {
            row_id: 0,
            oid: record.oid,
            name: record.name@,
            namespace: record.namespace,
            owner: record.owner,
            typlen: record.typlen,
            typbyval: record.typbyval,
            typalign: record.typalign,
            typdelim: record.typdelim,
            typinput: record.typinput,
            typoutput: record.typoutput,
            typreceive: record.typreceive,
            typsend: record.typsend,
            typmodin: record.typmodin,
            typmodout: record.typmodout,
            typisdefined: record.typisdefined,
            typtype: record.typtype,
            typcategory: record.typcategory,
            typispreferred: record.typispreferred,
            typrelid: record.typrelid,
            typelem: record.typelem,
            typarray: record.typarray,
            typbasetype: record.typbasetype,
            typtypmod: record.typtypmod,
            typcollation: record.typcollation,
            typsubscript: record.typsubscript,
            typstorage: record.typstorage,
        }
    }
}

impl CatalogTypeRecord {
    /// A compiled-in type as a type.
    pub fn from(record: PgTypeRecord) -> (r: CatalogTypeRecord)
        ensures
            r@ == CatalogTypeRecordView::builtin(record),
    {
        CatalogTypeRecord {
            row_id: 0,
            oid: record.oid,
            name: record.name.to_owned(),
            namespace: record.namespace,
            owner: record.owner,
            typlen: record.typlen,
            typbyval: record.typbyval,
            typalign: record.typalign,
            typdelim: record.typdelim,
            typinput: record.typinput,
            typoutput: record.typoutput,
            typreceive: record.typreceive,
            typsend: record.typsend,
            typmodin: record.typmodin,
            typmodout: record.typmodout,
            typisdefined: record.typisdefined,
            typtype: record.typtype,
            typcategory: record.typcategory,
            typispreferred: record.typispreferred,
            typrelid: record.typrelid,
            typelem: record.typelem,
            typarray: record.typarray,
            typbasetype: record.typbasetype,
            typtypmod: record.typtypmod,
            typcollation: record.typcollation,
            typsubscript: record.typsubscript,
            typstorage: record.typstorage,
        }
    }
}

impl ColumnRecord {
    /// A column of which nothing more is known.
    pub fn new(name: &str, type_oid: Oid, type_mod: i32, is_not_null: bool) -> (r: ColumnRecord)
        ensures
            r@ == (ColumnRecordView {
                row_id: 0,
                name: normalized(name@),
                type_oid,
                type_mod,
                is_not_null,
                has_default: false,
                generated: 0,
            }),
    {
        ColumnRecord {
            row_id: 0,
            name: normalize_identifier(name),
            type_oid,
            type_mod,
            is_not_null,
            has_default: false,
            generated: 0,
        }
    }
}

/// The name of a relation, and the schema that it lies in.
#[derive(Clone, Debug, PartialEq, Eq)]
pub struct RelationName {
    pub namespace: Oid,
    pub name: String,
}

/// A relation, with its columns and its primary key.
#[derive(Debug, PartialEq, Eq)]
pub struct RelationRecord {
    pub row_id: u64,
    pub oid: Oid,
    pub type_oid: Oid,
    pub namespace: Oid,
    pub owner: Oid,
    pub name: String,
    pub relkind: u8,
    pub columns: Vec<ColumnRecord>,
    pub primary_key: Vec<String>,
    pub primary_key_constraint_oid: Option<Oid>,
}

pub struct RelationRecordView {
    pub row_id: u64,
    pub oid: Oid,
    pub type_oid: Oid,
    pub namespace: Oid,
    pub owner: Oid,
    pub name: Seq<char>,
    pub relkind: u8,
    pub columns: Seq<ColumnRecordView>,
    pub primary_key: Seq<Seq<char>>,
    pub primary_key_constraint_oid: Option<Oid>,
}

impl View for RelationRecord {
    type V = RelationRecordView;

    open spec fn view(&self) -> RelationRecordView {
        RelationRecordView {
            row_id: self.row_id,
            oid: self.oid,
            type_oid: self.type_oid,
            namespace: self.namespace,
            owner: self.owner,
            name: self.name@,
            relkind: self.relkind,
            columns: search::views(self.columns@),
            primary_key: search::views(self.primary_key@),
            primary_key_constraint_oid: self.primary_key_constraint_oid,
        }
    }
}

impl Clone for RelationRecord {
    fn clone(&self) -> (r: Self)
        ensures
            r@ == self@,
    {
        let columns = self.columns.clone();
        let primary_key = self.primary_key.clone();
        assert(search::views(columns@) =~= search::views(self.columns@));
        assert(search::views(primary_key@) =~= search::views(self.primary_key@));
        RelationRecord {
            row_id: self.row_id,
            oid: self.oid,
            type_oid: self.type_oid,
            namespace: self.namespace,
            owner: self.owner,
            name: self.name.clone(),
            relkind: self.relkind,
            columns,
            primary_key,
            primary_key_constraint_oid: self.primary_key_constraint_oid,
        }
    }
}

/// A relation, with what there is of columns and indexes.
#[derive(Debug, PartialEq, Eq)]
pub struct RelationSummaryRecord {
    pub row_id: u64,
    pub oid: Oid,
    pub type_oid: Oid,
    pub namespace: Oid,
    pub owner: Oid,
    pub name: String,
    pub relkind: u8,
    pub column_count: u16,
    pub has_primary_key: bool,
    pub has_indexes: bool,
}

pub struct RelationSummaryRecordView {
    pub row_id: u64,
    pub oid: Oid,
    pub type_oid: Oid,
    pub namespace: Oid,
    pub owner: Oid,
    pub name: Seq<char>,
    pub relkind: u8,
    pub column_count: u16,
    pub has_primary_key: bool,
    pub has_indexes: bool,
}

impl View for RelationSummaryRecord {
    type V = RelationSummaryRecordView;

    open spec fn view(&self) -> RelationSummaryRecordView {
        RelationSummaryRecordView {
            row_id: self.row_id,
            oid: self.oid,
            type_oid: self.type_oid,
            namespace: self.namespace,
            owner: self.owner,
            name: self.name@,
            relkind: self.relkind,
            column_count: self.column_count,
            has_primary_key: self.has_primary_key,
            has_indexes: self.has_indexes,
        }
    }
}

impl Clone for RelationSummaryRecord {
    fn clone(&self) -> (r: Self)
        ensures
            r@ == self@,
    {
        RelationSummaryRecord {
            row_id: self.row_id,
            oid: self.oid,
            type_oid: self.type_oid,
            namespace: self.namespace,
            owner: self.owner,
            name: self.name.clone(),
            relkind: self.relkind,
            column_count: self.column_count,
            has_primary_key: self.has_primary_key,
            has_indexes: self.has_indexes,
        }
    }
}

/// How large a relation is taken to be: its pages and its rows.
#[derive(Clone, Copy, Debug, PartialEq, Eq)]
pub struct RelationPlannerStats {
    pub relpages: i32,
    pub reltuples: usize,
}

} // verus!
