//! What the rows of the catalogs say of schemas, relations, columns, types,
//! indexes and constraints.

use vstd::prelude::*;

use crate::catalog::columns;
use crate::catalog::model;
use crate::catalog::model::{
    CatalogRow, CatalogRowView, CatalogTypeRecord, CatalogTypeRecordView, CatalogValue,
    CatalogValueView, ColumnRecord, ColumnRecordView, GeneratedCatalog, IndexRecord,
    IndexRecordView, PhysicalColumnRecord, PhysicalColumnRecordView, StaticCatalogTable,
    INVALID_OID, PG_CATALOG_NAMESPACE_OID, PG_INDEX_RELATION_OID, POSTGRES_ROLE_OID,
    PUBLIC_NAMESPACE_OID,
};
use crate::catalog::values;
use crate::text;
use crate::types::Oid;

verus! {

pub open spec fn or<T>(v: Option<T>, default: T) -> T {
    match v {
        Some(x) => x,
        None => default,
    }
}

pub fn value_or<T>(v: Option<T>, default: T) -> (r: T)
    ensures
        r == or(v, default),
{
    match v {
        Some(x) => x,
        None => default,
    }
}

pub open spec fn oid_at(
    generated: GeneratedCatalog,
    table: StaticCatalogTable,
    row: CatalogRowView,
    name: Seq<char>,
) -> Option<Oid> {
    match columns::row_value(table, row, name) {
        Some(v) => columns::oid_of(generated, v),
        None => None,
    }
}

pub fn column_oid(
    generated: &GeneratedCatalog,
    table: &StaticCatalogTable,
    row: &CatalogRow,
    name: &str,
) -> (r: Option<Oid>)
    ensures
        r == oid_at(*generated, *table, row@, name@),
{
    match columns::catalog_row_value(table, row, name) {
        Some(v) => columns::catalog_value_oid(generated, v),
        None => None,
    }
}

pub open spec fn bool_at(
    table: StaticCatalogTable,
    row: CatalogRowView,
    name: Seq<char>,
) -> Option<bool> {
    match columns::row_value(table, row, name) {
        Some(v) => columns::bool_of(v),
        None => None,
    }
}

pub fn column_bool(
    table: &StaticCatalogTable,
    row: &CatalogRow,
    name: &str,
) -> (r: Option<bool>)
    ensures
        r == bool_at(*table, row@, name@),
{
    match columns::catalog_row_value(table, row, name) {
        Some(v) => columns::catalog_value_bool(v),
        None => None,
    }
}

pub open spec fn i16_at(
    table: StaticCatalogTable,
    row: CatalogRowView,
    name: Seq<char>,
) -> Option<i16> {
    match columns::row_value(table, row, name) {
        Some(v) => columns::i16_of(v),
        None => None,
    }
}

pub fn column_i16(
    table: &StaticCatalogTable,
    row: &CatalogRow,
    name: &str,
) -> (r: Option<i16>)
    ensures
        r == i16_at(*table, row@, name@),
{
    match columns::catalog_row_value(table, row, name) {
        Some(v) => columns::catalog_value_i16(v),
        None => None,
    }
}

pub open spec fn i32_at(
    table: StaticCatalogTable,
    row: CatalogRowView,
    name: Seq<char>,
) -> Option<i32> {
    match columns::row_value(table, row, name) {
        Some(v) => columns::i32_of(v),
        None => None,
    }
}

pub fn column_i32(
    table: &StaticCatalogTable,
    row: &CatalogRow,
    name: &str,
) -> (r: Option<i32>)
    ensures
        r == i32_at(*table, row@, name@),
{
    match columns::catalog_row_value(table, row, name) {
        Some(v) => columns::catalog_value_i32(v),
        None => None,
    }
}

pub open spec fn u8_at(
    table: StaticCatalogTable,
    row: CatalogRowView,
    name: Seq<char>,
) -> Option<u8> {
    match columns::row_value(table, row, name) {
        Some(v) => columns::u8_of(v),
        None => None,
    }
}

pub fn column_u8(
    table: &StaticCatalogTable,
    row: &CatalogRow,
    name: &str,
) -> (r: Option<u8>)
    ensures
        r == u8_at(*table, row@, name@),
{
    match columns::catalog_row_value(table, row, name) {
        Some(v) => columns::catalog_value_u8(v),
        None => None,
    }
}

pub open spec fn string_at(
    table: StaticCatalogTable,
    row: CatalogRowView,
    name: Seq<char>,
) -> Option<Seq<char>> {
    match columns::row_value(table, row, name) {
        Some(v) => columns::string_of(v),
        None => None,
    }
}

pub fn column_string(table: &StaticCatalogTable, row: &CatalogRow, name: &str) -> (r: Option<
    String,
>)
    ensures
        match r {
            Some(s) => string_at(*table, row@, name@) == Some(s@),
            None => string_at(*table, row@, name@) is None,
        },
{
    match columns::catalog_row_value(table, row, name) {
        Some(v) => columns::catalog_value_string(v),
        None => None,
    }
}

/// The two-byte integers that a value stands for.
pub open spec fn int2_vector_of(value: CatalogValueView) -> Option<Seq<i16>> {
    match value {
        CatalogValueView::Int2Vector(v) => Some(v),
        _ => match columns::string_of(value) {
            Some(s) => Some(values::int2s_of(text::words(s))),
            None => None,
        },
    }
}

pub fn catalog_value_int2_vector(value: &CatalogValue) -> (r: Option<Vec<i16>>)
    ensures
        match r {
            Some(v) => int2_vector_of(value@) == Some(v@),
            None => int2_vector_of(value@) is None,
        },
{
    match value {
        CatalogValue::Int2Vector(v) => {
            let copy = v.clone();
            assert(copy@ =~= v@);
            Some(copy)
        },
        _ => match columns::catalog_value_str(value) {
            Some(s) => Some(values::parse_int2_vector(s)),
            None => None,
        },
    }
}

/// The two-byte integers of a column; none where it does not stand for any.
pub open spec fn int2s_at(
    table: StaticCatalogTable,
    row: CatalogRowView,
    name: Seq<char>,
) -> Seq<i16> {
    match columns::row_value(table, row, name) {
        Some(v) => or(int2_vector_of(v), seq![]),
        None => seq![],
    }
}

pub fn column_int2s(table: &StaticCatalogTable, row: &CatalogRow, name: &str) -> (r: Vec<i16>)
    ensures
        r@ == int2s_at(*table, row@, name@),
{
    match columns::catalog_row_value(table, row, name) {
        Some(v) => match catalog_value_int2_vector(v) {
            Some(list) => list,
            None => Vec::new(),
        },
        None => Vec::new(),
    }
}

/// The name that a type goes by in the catalog, for any of its names.
pub open spec fn canonical_type_name(name: Seq<char>) -> Seq<char> {
    let folded = model::normalized(name);
    if folded == "boolean"@ {
        "bool"@
    } else if folded == "character"@ {
        "bpchar"@
    } else if folded == "character varying"@ {
        "varchar"@
    } else if folded == "decimal"@ {
        "numeric"@
    } else if folded == "integer"@ || folded == "int"@ {
        "int4"@
    } else if folded == "smallint"@ {
        "int2"@
    } else if folded == "bigint"@ {
        "int8"@
    } else if folded == "real"@ {
        "float4"@
    } else if folded == "double precision"@ {
        "float8"@
    } else if folded == "time without time zone"@ {
        "time"@
    } else if folded == "time with time zone"@ {
        "timetz"@
    } else if folded == "timestamp without time zone"@ {
        "timestamp"@
    } else if folded == "timestamp with time zone"@ {
        "timestamptz"@
    } else if folded == "bit varying"@ {
        "varbit"@
    } else {
        folded
    }
}

pub fn canonical_catalog_type_name(name: &str) -> (r: String)
    ensures
        r@ == canonical_type_name(name@),
{
    let folded = model::normalize_identifier(name);
    if text::same_text(folded.as_str(), "boolean") {
        "bool".to_owned()
    } else if text::same_text(folded.as_str(), "character") {
        "bpchar".to_owned()
    } else if text::same_text(folded.as_str(), "character varying") {
        "varchar".to_owned()
    } else if text::same_text(folded.as_str(), "decimal") {
        "numeric".to_owned()
    } else if text::same_text(folded.as_str(), "integer") || text::same_text(folded.as_str(), "int") {
        "int4".to_owned()
    } else if text::same_text(folded.as_str(), "smallint") {
        "int2".to_owned()
    } else if text::same_text(folded.as_str(), "bigint") {
        "int8".to_owned()
    } else if text::same_text(folded.as_str(), "real") {
        "float4".to_owned()
    } else if text::same_text(folded.as_str(), "double precision") {
        "float8".to_owned()
    } else if text::same_text(folded.as_str(), "time without time zone") {
        "time".to_owned()
    } else if text::same_text(folded.as_str(), "time with time zone") {
        "timetz".to_owned()
    } else if text::same_text(folded.as_str(), "timestamp without time zone") {
        "timestamp".to_owned()
    } else if text::same_text(folded.as_str(), "timestamp with time zone") {
        "timestamptz".to_owned()
    } else if text::same_text(folded.as_str(), "bit varying") {
        "varbit".to_owned()
    } else {
        folded
    }
}

/// What is kept of a catalog row, beside the row itself.
pub trait Meta: View + Sized {
    /// The row that is kept.
    spec fn row_of(v: Self::V) -> CatalogRowView;

    fn duplicate(&self) -> (r: Self)
        ensures
            r@ == self@,
    ;

    fn kept_row(&self) -> (r: &CatalogRow)
        ensures
            r@ == Self::row_of(self@),
    ;
}

/// A schema.
#[derive(Debug, PartialEq, Eq)]
pub struct NamespaceMeta {
    pub row_id: u64,
    pub oid: Oid,
    pub name: String,
    pub owner: Oid,
    pub row: CatalogRow,
}

pub struct NamespaceMetaView {
    pub row_id: u64,
    pub oid: Oid,
    pub name: Seq<char>,
    pub owner: Oid,
    pub row: CatalogRowView,
}

impl View for NamespaceMeta {
    type V = NamespaceMetaView;

    open spec fn view(&self) -> NamespaceMetaView {
        NamespaceMetaView {
            row_id: self.row_id,
            oid: self.oid,
            name: self.name@,
            owner: self.owner,
            row: self.row@,
        }
    }
}

impl Meta for NamespaceMeta {
    open spec fn row_of(v: NamespaceMetaView) -> CatalogRowView {
        v.row
    }

    fn duplicate(&self) -> (r: Self) {
        NamespaceMeta {
            row_id: self.row_id,
            oid: self.oid,
            name: self.name.clone(),
            owner: self.owner,
            row: self.row.clone(),
        }
    }

    fn kept_row(&self) -> (r: &CatalogRow) {
        &self.row
    }
}

impl Clone for NamespaceMeta {
    fn clone(&self) -> (r: Self)
        ensures
            r@ == self@,
    {
        self.duplicate()
    }
}

/// A relation.
#[derive(Debug, PartialEq, Eq)]
pub struct RelationMeta {
    pub row_id: u64,
    pub oid: Oid,
    pub type_oid: Oid,
    pub namespace: Oid,
    pub owner: Oid,
    pub name: String,
    pub relkind: u8,
    pub relnatts: u16,
    pub relhasindex: bool,
    pub row: CatalogRow,
}

pub struct RelationMetaView {
    pub row_id: u64,
    pub oid: Oid,
    pub type_oid: Oid,
    pub namespace: Oid,
    pub owner: Oid,
    pub name: Seq<char>,
    pub relkind: u8,
    pub relnatts: u16,
    pub relhasindex: bool,
    pub row: CatalogRowView,
}

impl View for RelationMeta {
    type V = RelationMetaView;

    open spec fn view(&self) -> RelationMetaView {
        RelationMetaView {
            row_id: self.row_id,
            oid: self.oid,
            type_oid: self.type_oid,
            namespace: self.namespace,
            owner: self.owner,
            name: self.name@,
            relkind: self.relkind,
            relnatts: self.relnatts,
            relhasindex: self.relhasindex,
            row: self.row@,
        }
    }
}

impl Meta for RelationMeta {
    open spec fn row_of(v: RelationMetaView) -> CatalogRowView {
        v.row
    }

    fn duplicate(&self) -> (r: Self) {
        RelationMeta {
            row_id: self.row_id,
            oid: self.oid,
            type_oid: self.type_oid,
            namespace: self.namespace,
            owner: self.owner,
            name: self.name.clone(),
            relkind: self.relkind,
            relnatts: self.relnatts,
            relhasindex: self.relhasindex,
            row: self.row.clone(),
        }
    }

    fn kept_row(&self) -> (r: &CatalogRow) {
        &self.row
    }
}

impl Clone for RelationMeta {
    fn clone(&self) -> (r: Self)
        ensures
            r@ == self@,
    {
        self.duplicate()
    }
}

/// A column, with the relation it belongs to and its place there.
#[derive(Debug, PartialEq, Eq)]
pub struct ColumnMeta {
    pub row_id: u64,
    pub relation_oid: Oid,
    pub attnum: i16,
    pub record: ColumnRecord,
    pub row: CatalogRow,
}

pub struct ColumnMetaView {
    pub row_id: u64,
    pub relation_oid: Oid,
    pub attnum: i16,
    pub record: ColumnRecordView,
    pub row: CatalogRowView,
}

impl View for ColumnMeta {
    type V = ColumnMetaView;

    open spec fn view(&self) -> ColumnMetaView {
        ColumnMetaView {
            row_id: self.row_id,
            relation_oid: self.relation_oid,
            attnum: self.attnum,
            record: self.record@,
            row: self.row@,
        }
    }
}

impl Meta for ColumnMeta {
    open spec fn row_of(v: ColumnMetaView) -> CatalogRowView {
        v.row
    }

    fn duplicate(&self) -> (r: Self) {
        ColumnMeta {
            row_id: self.row_id,
            relation_oid: self.relation_oid,
            attnum: self.attnum,
            record: self.record.clone(),
            row: self.row.clone(),
        }
    }

    fn kept_row(&self) -> (r: &CatalogRow) {
        &self.row
    }
}

impl Clone for ColumnMeta {
    fn clone(&self) -> (r: Self)
        ensures
            r@ == self@,
    {
        self.duplicate()
    }
}

/// A type, with its row.
#[derive(Debug, PartialEq, Eq)]
pub struct TypeMeta {
    pub row_id: u64,
    pub record: CatalogTypeRecord,
    pub row: CatalogRow,
}

pub struct TypeMetaView {
    pub row_id: u64,
    pub record: CatalogTypeRecordView,
    pub row: CatalogRowView,
}

impl View for TypeMeta {
    type V = TypeMetaView;

    open spec fn view(&self) -> TypeMetaView {
        TypeMetaView {
            row_id: self.row_id,
            record: self.record@,
            row: self.row@,
        }
    }
}

impl Meta for TypeMeta {
    open spec fn row_of(v: TypeMetaView) -> CatalogRowView {
        v.row
    }

    fn duplicate(&self) -> (r: Self) {
        TypeMeta {
            row_id: self.row_id,
            record: self.record.clone(),
            row: self.row.clone(),
        }
    }

    fn kept_row(&self) -> (r: &CatalogRow) {
        &self.row
    }
}

impl Clone for TypeMeta {
    fn clone(&self) -> (r: Self)
        ensures
            r@ == self@,
    {
        self.duplicate()
    }
}

/// An index, with its row.
#[derive(Debug, PartialEq, Eq)]
pub struct IndexMeta {
    pub row_id: u64,
    pub record: IndexRecord,
    pub row: CatalogRow,
}

pub struct IndexMetaView {
    pub row_id: u64,
    pub record: IndexRecordView,
    pub row: CatalogRowView,
}

impl View for IndexMeta {
    type V = IndexMetaView;

    open spec fn view(&self) -> IndexMetaView {
        IndexMetaView {
            row_id: self.row_id,
            record: self.record@,
            row: self.row@,
        }
    }
}

impl Meta for IndexMeta {
    open spec fn row_of(v: IndexMetaView) -> CatalogRowView {
        v.row
    }

    fn duplicate(&self) -> (r: Self) {
        IndexMeta {
            row_id: self.row_id,
            record: self.record.clone(),
            row: self.row.clone(),
        }
    }

    fn kept_row(&self) -> (r: &CatalogRow) {
        &self.row
    }
}

impl Clone for IndexMeta {
    fn clone(&self) -> (r: Self)
        ensures
            r@ == self@,
    {
        self.duplicate()
    }
}

/// A constraint.
#[derive(Debug, PartialEq, Eq)]
pub struct ConstraintMeta {
    pub row_id: u64,
    pub oid: Oid,
    pub name: String,
    pub namespace: Oid,
    pub relation_oid: Oid,
    pub index_oid: Oid,
    pub kind: u8,
    pub key_attnums: Vec<i16>,
    pub row: CatalogRow,
}

pub struct ConstraintMetaView {
    pub row_id: u64,
    pub oid: Oid,
    pub name: Seq<char>,
    pub namespace: Oid,
    pub relation_oid: Oid,
    pub index_oid: Oid,
    pub kind: u8,
    pub key_attnums: Seq<i16>,
    pub row: CatalogRowView,
}

impl View for ConstraintMeta {
    type V = ConstraintMetaView;

    open spec fn view(&self) -> ConstraintMetaView {
        ConstraintMetaView {
            row_id: self.row_id,
            oid: self.oid,
            name: self.name@,
            namespace: self.namespace,
            relation_oid: self.relation_oid,
            index_oid: self.index_oid,
            kind: self.kind,
            key_attnums: self.key_attnums@,
            row: self.row@,
        }
    }
}

impl Meta for ConstraintMeta {
    open spec fn row_of(v: ConstraintMetaView) -> CatalogRowView {
        v.row
    }

    fn duplicate(&self) -> (r: Self) {
        let key_attnums = self.key_attnums.clone();
        assert(key_attnums@ =~= self.key_attnums@);
        ConstraintMeta {
            row_id: self.row_id,
            oid: self.oid,
            name: self.name.clone(),
            namespace: self.namespace,
            relation_oid: self.relation_oid,
            index_oid: self.index_oid,
            kind: self.kind,
            key_attnums,
            row: self.row.clone(),
        }
    }

    fn kept_row(&self) -> (r: &CatalogRow) {
        &self.row
    }
}

impl Clone for ConstraintMeta {
    fn clone(&self) -> (r: Self)
        ensures
            r@ == self@,
    {
        self.duplicate()
    }
}

impl Meta for CatalogRow {
    open spec fn row_of(v: CatalogRowView) -> CatalogRowView {
        v
    }

    fn duplicate(&self) -> (r: Self) {
        self.clone()
    }

    fn kept_row(&self) -> (r: &CatalogRow) {
        self
    }
}

/// The schema that a row of the catalog of schemas describes.
pub open spec fn namespace_of(
    generated: GeneratedCatalog,
    table: StaticCatalogTable,
    row: CatalogRowView,
    row_id: u64,
) -> Option<NamespaceMetaView> {
    match (oid_at(generated, table, row, "oid"@), string_at(table, row, "nspname"@)) {
        (Some(oid), Some(name)) => Some(
            NamespaceMetaView {
                row_id,
                oid,
                name: model::normalized(name),
                owner: or(oid_at(generated, table, row, "nspowner"@), Oid(POSTGRES_ROLE_OID)),
                row,
            },
        ),
        _ => None,
    }
}

pub fn namespace_meta_from_row(
    generated: &GeneratedCatalog,
    table: &StaticCatalogTable,
    row: &CatalogRow,
    row_id: u64,
) -> (r: Option<NamespaceMeta>)
    ensures
        match r {
            Some(m) => namespace_of(*generated, *table, row@, row_id) == Some(m@),
            None => namespace_of(*generated, *table, row@, row_id) is None,
        },
{
    let (oid, name) = match (
        column_oid(generated, table, row, "oid"),
        column_string(table, row, "nspname"),
    ) {
        (Some(oid), Some(name)) => (oid, name),
        _ => {
            return None;
        },
    };
    Some(
        NamespaceMeta {
            row_id,
            oid,
            name: model::normalize_identifier(name.as_str()),
            owner: value_or(column_oid(generated, table, row, "nspowner"), Oid(POSTGRES_ROLE_OID)),
            row: row.clone(),
        },
    )
}

pub open spec fn at_least_zero(v: i16) -> u16 {
    if v > 0 {
        v as u16
    } else {
        0
    }
}

/// The relation that a row of the catalog of relations describes.
pub open spec fn relation_of(
    generated: GeneratedCatalog,
    table: StaticCatalogTable,
    row: CatalogRowView,
    row_id: u64,
) -> Option<RelationMetaView> {
    match (oid_at(generated, table, row, "oid"@), string_at(table, row, "relname"@)) {
        (Some(oid), Some(name)) => Some(
            RelationMetaView {
                row_id,
                oid,
                type_oid: or(oid_at(generated, table, row, "reltype"@), Oid(INVALID_OID)),
                namespace: or(
                    oid_at(generated, table, row, "relnamespace"@),
                    Oid(PUBLIC_NAMESPACE_OID),
                ),
                owner: or(oid_at(generated, table, row, "relowner"@), Oid(POSTGRES_ROLE_OID)),
                name: model::normalized(name),
                relkind: or(u8_at(table, row, "relkind"@), 114),
                relnatts: at_least_zero(or(i16_at(table, row, "relnatts"@), 0)),
                relhasindex: or(bool_at(table, row, "relhasindex"@), false),
                row,
            },
        ),
        _ => None,
    }
}

pub fn relation_meta_from_row(
    generated: &GeneratedCatalog,
    table: &StaticCatalogTable,
    row: &CatalogRow,
    row_id: u64,
) -> (r: Option<RelationMeta>)
    ensures
        match r {
            Some(m) => relation_of(*generated, *table, row@, row_id) == Some(m@),
            None => relation_of(*generated, *table, row@, row_id) is None,
        },
{
    let (oid, name) = match (
        column_oid(generated, table, row, "oid"),
        column_string(table, row, "relname"),
    ) {
        (Some(oid), Some(name)) => (oid, name),
        _ => {
            return None;
        },
    };
    let relnatts: i16 = value_or(column_i16(table, row, "relnatts"), 0);
    Some(
        RelationMeta {
            row_id,
            oid,
            type_oid: value_or(column_oid(generated, table, row, "reltype"), Oid(INVALID_OID)),
            namespace: value_or(
                column_oid(generated, table, row, "relnamespace"),
                Oid(PUBLIC_NAMESPACE_OID),
            ),
            owner: value_or(column_oid(generated, table, row, "relowner"), Oid(POSTGRES_ROLE_OID)),
            name: model::normalize_identifier(name.as_str()),
            relkind: value_or(column_u8(table, row, "relkind"), 114),
            relnatts: if relnatts > 0 {
                relnatts as u16
            } else {
                0
            },
            relhasindex: value_or(column_bool(table, row, "relhasindex"), false),
            row: row.clone(),
        },
    )
}

/// The column that a row of the catalog of columns describes, with its place,
/// where it is a column of the relation that has not been dropped.
pub open spec fn column_record_of(
    generated: GeneratedCatalog,
    table: StaticCatalogTable,
    row: CatalogRowView,
    relation_oid: Oid,
) -> Option<(i16, ColumnRecordView)> {
    match (
        i16_at(table, row, "attnum"@),
        string_at(table, row, "attname"@),
        oid_at(generated, table, row, "atttypid"@),
    ) {
        (Some(attnum), Some(name), Some(type_oid)) => if oid_at(
            generated,
            table,
            row,
            "attrelid"@,
        ) == Some(relation_oid) && attnum > 0 && !or(
            bool_at(table, row, "attisdropped"@),
            false,
        ) {
            Some(
                (
                    attnum,
                    ColumnRecordView {
                        row_id: row.row_id,
                        name: model::normalized(name),
                        type_oid,
                        type_mod: or(i32_at(table, row, "atttypmod"@), (-1) as i32),
                        is_not_null: or(bool_at(table, row, "attnotnull"@), false),
                        has_default: or(bool_at(table, row, "atthasdef"@), false),
                        generated: or(u8_at(table, row, "attgenerated"@), 0),
                    },
                ),
            )
        } else {
            None
        },
        _ => None,
    }
}

pub fn column_record_from_pg_attribute_row(
    generated: &GeneratedCatalog,
    table: &StaticCatalogTable,
    row: &CatalogRow,
    relation_oid: Oid,
) -> (r: Option<(i16, ColumnRecord)>)
    ensures
        match r {
            Some(c) => column_record_of(*generated, *table, row@, relation_oid) == Some(
                (c.0, c.1@),
            ),
            None => column_record_of(*generated, *table, row@, relation_oid) is None,
        },
{
    let of_relation = match column_oid(generated, table, row, "attrelid") {
        Some(attrelid) => attrelid == relation_oid,
        None => false,
    };
    if !of_relation {
        return None;
    }
    let attnum: i16 = match column_i16(table, row, "attnum") {
        Some(attnum) => attnum,
        None => {
            return None;
        },
    };
    if attnum <= 0 || value_or(column_bool(table, row, "attisdropped"), false) {
        return None;
    }
    let (name, type_oid) = match (
        column_string(table, row, "attname"),
        column_oid(generated, table, row, "atttypid"),
    ) {
        (Some(name), Some(type_oid)) => (name, type_oid),
        _ => {
            return None;
        },
    };
    Some(
        (
            attnum,
            ColumnRecord {
                row_id: row.row_id,
                name: model::normalize_identifier(name.as_str()),
                type_oid,
                type_mod: value_or(column_i32(table, row, "atttypmod"), -1),
                is_not_null: value_or(column_bool(table, row, "attnotnull"), false),
                has_default: value_or(column_bool(table, row, "atthasdef"), false),
                generated: value_or(column_u8(table, row, "attgenerated"), 0),
            },
        ),
    )
}

/// The column that a row of the catalog of columns describes, with its place
/// and how it is stored. A dropped column keeps its place and nothing else
/// that holds of its values.
pub open spec fn physical_column_of(
    generated: GeneratedCatalog,
    table: StaticCatalogTable,
    row: CatalogRowView,
    relation_oid: Oid,
) -> Option<(i16, PhysicalColumnRecordView)> {
    let dropped = or(bool_at(table, row, "attisdropped"@), false);
    match (i16_at(table, row, "attnum"@), string_at(table, row, "attname"@)) {
        (Some(attnum), Some(name)) => if oid_at(generated, table, row, "attrelid"@) == Some(
            relation_oid,
        ) && attnum > 0 {
            Some(
                (
                    attnum,
                    PhysicalColumnRecordView {
                        row_id: row.row_id,
                        name: model::normalized(name),
                        type_oid: or(
                            oid_at(generated, table, row, "atttypid"@),
                            Oid(INVALID_OID),
                        ),
                        type_mod: or(i32_at(table, row, "atttypmod"@), (-1) as i32),
                        is_not_null: !dropped && or(bool_at(table, row, "attnotnull"@), false),
                        has_default: !dropped && or(bool_at(table, row, "atthasdef"@), false),
                        generated: if dropped {
                            0
                        } else {
                            or(u8_at(table, row, "attgenerated"@), 0)
                        },
                        is_dropped: dropped,
                        attlen: or(i16_at(table, row, "attlen"@), 0),
                        attbyval: or(bool_at(table, row, "attbyval"@), false),
                        attalign: or(u8_at(table, row, "attalign"@), 105),
                        attstorage: or(u8_at(table, row, "attstorage"@), 112),
                        attcollation: or(
                            oid_at(generated, table, row, "attcollation"@),
                            Oid(INVALID_OID),
                        ),
                    },
                ),
            )
        } else {
            None
        },
        _ => None,
    }
}

pub fn physical_column_record_from_pg_attribute_row(
    generated: &GeneratedCatalog,
    table: &StaticCatalogTable,
    row: &CatalogRow,
    relation_oid: Oid,
) -> (r: Option<(i16, PhysicalColumnRecord)>)
    ensures
        match r {
            Some(c) => physical_column_of(*generated, *table, row@, relation_oid) == Some(
                (c.0, c.1@),
            ),
            None => physical_column_of(*generated, *table, row@, relation_oid) is None,
        },
{
    let of_relation = match column_oid(generated, table, row, "attrelid") {
        Some(attrelid) => attrelid == relation_oid,
        None => false,
    };
    if !of_relation {
        return None;
    }
    let attnum: i16 = match column_i16(table, row, "attnum") {
        Some(attnum) => attnum,
        None => {
            return None;
        },
    };
    if attnum <= 0 {
        return None;
    }
    let dropped = value_or(column_bool(table, row, "attisdropped"), false);
    let name = match column_string(table, row, "attname") {
        Some(name) => name,
        None => {
            return None;
        },
    };
    Some(
        (
            attnum,
            PhysicalColumnRecord {
                row_id: row.row_id,
                name: model::normalize_identifier(name.as_str()),
                type_oid: value_or(column_oid(generated, table, row, "atttypid"), Oid(INVALID_OID)),
                type_mod: value_or(column_i32(table, row, "atttypmod"), -1),
                is_not_null: !dropped && value_or(column_bool(table, row, "attnotnull"), false),
                has_default: !dropped && value_or(column_bool(table, row, "atthasdef"), false),
                generated: if dropped {
                    0
                } else {
                    value_or(column_u8(table, row, "attgenerated"), 0)
                },
                is_dropped: dropped,
                attlen: value_or(column_i16(table, row, "attlen"), 0),
                attbyval: value_or(column_bool(table, row, "attbyval"), false),
                attalign: value_or(column_u8(table, row, "attalign"), 105),
                attstorage: value_or(column_u8(table, row, "attstorage"), 112),
                attcollation: value_or(
                    column_oid(generated, table, row, "attcollation"),
                    Oid(INVALID_OID),
                ),
            },
        ),
    )
}

/// The column of any relation that a row of the catalog of columns describes.
pub open spec fn column_of(
    generated: GeneratedCatalog,
    table: StaticCatalogTable,
    row: CatalogRowView,
    row_id: u64,
) -> Option<ColumnMetaView> {
    match oid_at(generated, table, row, "attrelid"@) {
        Some(relation_oid) => match column_record_of(generated, table, row, relation_oid) {
            Some(found) => Some(
                ColumnMetaView { row_id, relation_oid, attnum: found.0, record: found.1, row },
            ),
            None => None,
        },
        None => None,
    }
}

pub fn column_meta_from_row(
    generated: &GeneratedCatalog,
    table: &StaticCatalogTable,
    row: &CatalogRow,
    row_id: u64,
) -> (r: Option<ColumnMeta>)
    ensures
        match r {
            Some(m) => column_of(*generated, *table, row@, row_id) == Some(m@),
            None => column_of(*generated, *table, row@, row_id) is None,
        },
{
    let relation_oid = match column_oid(generated, table, row, "attrelid") {
        Some(relation_oid) => relation_oid,
        None => {
            return None;
        },
    };
    match column_record_from_pg_attribute_row(generated, table, row, relation_oid) {
        Some((attnum, record)) => Some(
            ColumnMeta { row_id, relation_oid, attnum, record, row: row.clone() },
        ),
        None => None,
    }
}

/// The type that a row of the catalog of types describes; what the row does not
/// say has a default.
pub open spec fn type_of(
    generated: GeneratedCatalog,
    table: StaticCatalogTable,
    row: CatalogRowView,
    row_id: u64,
) -> Option<TypeMetaView> {
    match (oid_at(generated, table, row, "oid"@), string_at(table, row, "typname"@)) {
        (Some(oid), Some(name)) => Some(
            TypeMetaView {
                row_id,
                record: CatalogTypeRecordView {
                    row_id,
                    oid,
                    name: canonical_type_name(name),
                    namespace: or(oid_at(generated, table, row, "typnamespace"@), Oid(PG_CATALOG_NAMESPACE_OID)),
                    owner: or(oid_at(generated, table, row, "typowner"@), Oid(POSTGRES_ROLE_OID)),
                    typlen: or(i16_at(table, row, "typlen"@), (-1) as i16),
                    typbyval: or(bool_at(table, row, "typbyval"@), false),
                    typalign: or(u8_at(table, row, "typalign"@), 105),
                    typdelim: or(u8_at(table, row, "typdelim"@), 44),
                    typinput: or(oid_at(generated, table, row, "typinput"@), Oid(INVALID_OID)),
                    typoutput: or(oid_at(generated, table, row, "typoutput"@), Oid(INVALID_OID)),
                    typreceive: or(oid_at(generated, table, row, "typreceive"@), Oid(INVALID_OID)),
                    typsend: or(oid_at(generated, table, row, "typsend"@), Oid(INVALID_OID)),
                    typmodin: or(oid_at(generated, table, row, "typmodin"@), Oid(INVALID_OID)),
                    typmodout: or(oid_at(generated, table, row, "typmodout"@), Oid(INVALID_OID)),
                    typisdefined: or(bool_at(table, row, "typisdefined"@), true),
                    typtype: or(u8_at(table, row, "typtype"@), 98),
                    typcategory: or(u8_at(table, row, "typcategory"@), 85),
                    typispreferred: or(bool_at(table, row, "typispreferred"@), false),
                    typrelid: or(oid_at(generated, table, row, "typrelid"@), Oid(INVALID_OID)),
                    typelem: or(oid_at(generated, table, row, "typelem"@), Oid(INVALID_OID)),
                    typarray: or(oid_at(generated, table, row, "typarray"@), Oid(INVALID_OID)),
                    typbasetype: or(oid_at(generated, table, row, "typbasetype"@), Oid(INVALID_OID)),
                    typtypmod: or(i32_at(table, row, "typtypmod"@), (-1) as i32),
                    typcollation: or(oid_at(generated, table, row, "typcollation"@), Oid(INVALID_OID)),
                    typsubscript: or(oid_at(generated, table, row, "typsubscript"@), Oid(INVALID_OID)),
                    typstorage: or(u8_at(table, row, "typstorage"@), 112),
                },
                row,
            },
        ),
        _ => None,
    }
}

pub fn type_meta_from_row(
    generated: &GeneratedCatalog,
    table: &StaticCatalogTable,
    row: &CatalogRow,
    row_id: u64,
) -> (r: Option<TypeMeta>)
    ensures
        match r {
            Some(m) => type_of(*generated, *table, row@, row_id) == Some(m@),
            None => type_of(*generated, *table, row@, row_id) is None,
        },
{
    let (oid, name) = match (
        column_oid(generated, table, row, "oid"),
        column_string(table, row, "typname"),
    ) {
        (Some(oid), Some(name)) => (oid, name),
        _ => {
            return None;
        },
    };
    Some(
        TypeMeta {
            row_id,
            record: CatalogTypeRecord {
                row_id,
                oid,
                name: canonical_catalog_type_name(name.as_str()),
                namespace: value_or(column_oid(generated, table, row, "typnamespace"), Oid(PG_CATALOG_NAMESPACE_OID)),
                owner: value_or(column_oid(generated, table, row, "typowner"), Oid(POSTGRES_ROLE_OID)),
                typlen: value_or(column_i16(table, row, "typlen"), -1),
                typbyval: value_or(column_bool(table, row, "typbyval"), false),
                typalign: value_or(column_u8(table, row, "typalign"), 105),
                typdelim: value_or(column_u8(table, row, "typdelim"), 44),
                typinput: value_or(column_oid(generated, table, row, "typinput"), Oid(INVALID_OID)),
                typoutput: value_or(column_oid(generated, table, row, "typoutput"), Oid(INVALID_OID)),
                typreceive: value_or(column_oid(generated, table, row, "typreceive"), Oid(INVALID_OID)),
                typsend: value_or(column_oid(generated, table, row, "typsend"), Oid(INVALID_OID)),
                typmodin: value_or(column_oid(generated, table, row, "typmodin"), Oid(INVALID_OID)),
                typmodout: value_or(column_oid(generated, table, row, "typmodout"), Oid(INVALID_OID)),
                typisdefined: value_or(column_bool(table, row, "typisdefined"), true),
                typtype: value_or(column_u8(table, row, "typtype"), 98),
                typcategory: value_or(column_u8(table, row, "typcategory"), 85),
                typispreferred: value_or(column_bool(table, row, "typispreferred"), false),
                typrelid: value_or(column_oid(generated, table, row, "typrelid"), Oid(INVALID_OID)),
                typelem: value_or(column_oid(generated, table, row, "typelem"), Oid(INVALID_OID)),
                typarray: value_or(column_oid(generated, table, row, "typarray"), Oid(INVALID_OID)),
                typbasetype: value_or(column_oid(generated, table, row, "typbasetype"), Oid(INVALID_OID)),
                typtypmod: value_or(column_i32(table, row, "typtypmod"), -1),
                typcollation: value_or(column_oid(generated, table, row, "typcollation"), Oid(INVALID_OID)),
                typsubscript: value_or(column_oid(generated, table, row, "typsubscript"), Oid(INVALID_OID)),
                typstorage: value_or(column_u8(table, row, "typstorage"), 112),
            },
            row: row.clone(),
        },
    )
}

/// The first `n` key columns, where `n` is above zero and there are more.
pub open spec fn first_keys(keys: Seq<i16>, n: i16) -> Seq<i16> {
    if n > 0 && keys.len() > n {
        keys.take(n as int)
    } else {
        keys
    }
}

/// The index that a row of the catalog of indexes describes.
pub open spec fn index_record_of(
    generated: GeneratedCatalog,
    table: StaticCatalogTable,
    row: CatalogRowView,
) -> Option<IndexRecordView> {
    match (
        oid_at(generated, table, row, "indexrelid"@),
        oid_at(generated, table, row, "indrelid"@),
    ) {
        (Some(index_oid), Some(relation_oid)) => Some(
            IndexRecordView {
                row_id: row.row_id,
                index_oid,
                relation_oid,
                key_attnums: first_keys(
                    int2s_at(table, row, "indkey"@),
                    or(i16_at(table, row, "indnkeyatts"@), 0),
                ),
                is_unique: or(bool_at(table, row, "indisunique"@), false),
                nulls_not_distinct: or(bool_at(table, row, "indnullsnotdistinct"@), false),
                is_primary: or(bool_at(table, row, "indisprimary"@), false),
                is_exclusion: or(bool_at(table, row, "indisexclusion"@), false),
                is_immediate: or(bool_at(table, row, "indimmediate"@), true),
                is_valid: or(bool_at(table, row, "indisvalid"@), true),
                is_ready: or(bool_at(table, row, "indisready"@), true),
                is_live: or(bool_at(table, row, "indislive"@), true),
            },
        ),
        _ => None,
    }
}

/// The index that a row describes, where the catalog of indexes is compiled in.
pub open spec fn index_of_row(generated: GeneratedCatalog, row: CatalogRowView) -> Option<
    IndexRecordView,
> {
    match columns::table_of(generated, Oid(PG_INDEX_RELATION_OID)) {
        Some(table) => index_record_of(generated, table, row),
        None => None,
    }
}

pub fn pg_index_record_from_row(generated: &GeneratedCatalog, row: &CatalogRow) -> (r: Option<
    IndexRecord,
>)
    ensures
        match r {
            Some(record) => index_of_row(*generated, row@) == Some(record@),
            None => index_of_row(*generated, row@) is None,
        },
{
    let table = match columns::static_catalog_by_relation_oid(
        generated,
        Oid(PG_INDEX_RELATION_OID),
    ) {
        Some(table) => table,
        None => {
            return None;
        },
    };
    let (index_oid, relation_oid) = match (
        column_oid(generated, table, row, "indexrelid"),
        column_oid(generated, table, row, "indrelid"),
    ) {
        (Some(index_oid), Some(relation_oid)) => (index_oid, relation_oid),
        _ => {
            return None;
        },
    };
    let n: i16 = value_or(column_i16(table, row, "indnkeyatts"), 0);
    let mut key_attnums = column_int2s(table, row, "indkey");
    if n > 0 && key_attnums.len() > n as usize {
        key_attnums.truncate(n as usize);
    }
    Some(
        IndexRecord {
            row_id: row.row_id,
            index_oid,
            relation_oid,
            key_attnums,
            is_unique: value_or(column_bool(table, row, "indisunique"), false),
            nulls_not_distinct: value_or(column_bool(table, row, "indnullsnotdistinct"), false),
            is_primary: value_or(column_bool(table, row, "indisprimary"), false),
            is_exclusion: value_or(column_bool(table, row, "indisexclusion"), false),
            is_immediate: value_or(column_bool(table, row, "indimmediate"), true),
            is_valid: value_or(column_bool(table, row, "indisvalid"), true),
            is_ready: value_or(column_bool(table, row, "indisready"), true),
            is_live: value_or(column_bool(table, row, "indislive"), true),
        },
    )
}

pub open spec fn index_of(generated: GeneratedCatalog, row: CatalogRowView, row_id: u64) -> Option<
    IndexMetaView,
> {
    match index_of_row(generated, row) {
        Some(record) => Some(IndexMetaView { row_id, record, row }),
        None => None,
    }
}

pub fn index_meta_from_row(generated: &GeneratedCatalog, row: &CatalogRow, row_id: u64) -> (r:
    Option<IndexMeta>)
    ensures
        match r {
            Some(m) => index_of(*generated, row@, row_id) == Some(m@),
            None => index_of(*generated, row@, row_id) is None,
        },
{
    match pg_index_record_from_row(generated, row) {
        Some(record) => Some(IndexMeta { row_id, record, row: row.clone() }),
        None => None,
    }
}

/// The constraint that a row of the catalog of constraints describes.
pub open spec fn constraint_of(
    generated: GeneratedCatalog,
    table: StaticCatalogTable,
    row: CatalogRowView,
    row_id: u64,
) -> Option<ConstraintMetaView> {
    match oid_at(generated, table, row, "oid"@) {
        Some(oid) => Some(
            ConstraintMetaView {
                row_id,
                oid,
                name: model::normalized(or(string_at(table, row, "conname"@), seq![])),
                namespace: or(
                    oid_at(generated, table, row, "connamespace"@),
                    Oid(PUBLIC_NAMESPACE_OID),
                ),
                relation_oid: or(oid_at(generated, table, row, "conrelid"@), Oid(INVALID_OID)),
                index_oid: or(oid_at(generated, table, row, "conindid"@), Oid(INVALID_OID)),
                kind: or(u8_at(table, row, "contype"@), 0),
                key_attnums: int2s_at(table, row, "conkey"@),
                row,
            },
        ),
        None => None,
    }
}

pub fn constraint_meta_from_row(
    generated: &GeneratedCatalog,
    table: &StaticCatalogTable,
    row: &CatalogRow,
    row_id: u64,
) -> (r: Option<ConstraintMeta>)
    ensures
        match r {
            Some(m) => constraint_of(*generated, *table, row@, row_id) == Some(m@),
            None => constraint_of(*generated, *table, row@, row_id) is None,
        },
{
    let oid = match column_oid(generated, table, row, "oid") {
        Some(oid) => oid,
        None => {
            return None;
        },
    };
    let name = match column_string(table, row, "conname") {
        Some(name) => name,
        None => String::new(),
    };
    Some(
        ConstraintMeta {
            row_id,
            oid,
            name: model::normalize_identifier(name.as_str()),
            namespace: value_or(
                column_oid(generated, table, row, "connamespace"),
                Oid(PUBLIC_NAMESPACE_OID),
            ),
            relation_oid: value_or(column_oid(generated, table, row, "conrelid"), Oid(INVALID_OID)),
            index_oid: value_or(column_oid(generated, table, row, "conindid"), Oid(INVALID_OID)),
            kind: value_or(column_u8(table, row, "contype"), 0),
            key_attnums: column_int2s(table, row, "conkey"),
            row: row.clone(),
        },
    )
}

} // verus!
