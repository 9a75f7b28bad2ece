//! Lookups in what is compiled in.

use vstd::prelude::*;

use crate::catalog::columns;
use crate::catalog::meta;
use crate::catalog::model;
use crate::catalog::model::{
    GeneratedCatalog, PgAggregateRecord, PgCastRecord, PgNamespaceRecord, PgOperatorRecord,
    PgProcRecord, PgTypeRecord, VirtualCatalogRecord, INFORMATION_SCHEMA_NAMESPACE_OID,
    PG_CATALOG_NAMESPACE_OID, POSTGRES_ROLE_OID,
};
use crate::search;
use crate::text;
use crate::types::Oid;

verus! {

pub fn virtual_catalogs(generated: &GeneratedCatalog) -> (r: &'static [VirtualCatalogRecord])
    ensures
        r@ == generated.virtual_catalogs@,
{
    generated.virtual_catalogs
}

pub open spec fn virtual_has(oid: Oid) -> spec_fn(VirtualCatalogRecord) -> bool {
    |r: VirtualCatalogRecord| r.relation_oid == oid
}

pub open spec fn virtual_is(name: Seq<char>) -> spec_fn(VirtualCatalogRecord) -> bool {
    |r: VirtualCatalogRecord| r.name@ == name
}

pub fn virtual_catalog_by_relation_oid(generated: &GeneratedCatalog, relation_oid: Oid) -> (r:
    Option<VirtualCatalogRecord>)
    ensures
        r == search::first_with(generated.virtual_catalogs@, virtual_has(relation_oid)),
{
    let test = |r: &VirtualCatalogRecord| -> (b: bool)
        ensures
            b == virtual_has(relation_oid)(*r),
        {
            r.relation_oid == relation_oid
        };
    match search::find_first(generated.virtual_catalogs, test, Ghost(virtual_has(relation_oid))) {
        Some(r) => Some(*r),
        None => None,
    }
}

/// The virtual catalog with a name. All of them lie in the one schema.
pub fn virtual_catalog_by_name(generated: &GeneratedCatalog, name: &str, namespace: Oid) -> (r:
    Option<VirtualCatalogRecord>)
    ensures
        r == (if namespace.0 == PG_CATALOG_NAMESPACE_OID {
            search::first_with(
                generated.virtual_catalogs@,
                virtual_is(model::normalized(name@)),
            )
        } else {
            None
        }),
{
    if namespace.0 != PG_CATALOG_NAMESPACE_OID {
        return None;
    }
    let folded = model::normalize_identifier(name);
    let test = |r: &VirtualCatalogRecord| -> (b: bool)
        ensures
            b == virtual_is(folded@)(*r),
        {
            text::same_text(r.name, folded.as_str())
        };
    match search::find_first(generated.virtual_catalogs, test, Ghost(virtual_is(folded@))) {
        Some(r) => Some(*r),
        None => None,
    }
}

pub open spec fn operator_has(oid: Oid) -> spec_fn(PgOperatorRecord) -> bool {
    |r: PgOperatorRecord| r.oid == oid
}

pub open spec fn operator_takes(
    name: Seq<char>,
    left_type: Oid,
    right_type: Oid,
    namespace: Oid,
) -> spec_fn(PgOperatorRecord) -> bool {
    |r: PgOperatorRecord|
        r.name@ == name && r.left_type == left_type && r.right_type == right_type && r.namespace
            == namespace
}

pub open spec fn operator_is(name: Seq<char>) -> spec_fn(PgOperatorRecord) -> bool {
    |r: PgOperatorRecord| r.name@ == name
}

pub fn builtin_operator_by_oid(generated: &GeneratedCatalog, oid: Oid) -> (r: Option<
    &'static PgOperatorRecord,
>)
    ensures
        match r {
            Some(x) => search::first_with(generated.operators@, operator_has(oid)) == Some(*x),
            None => search::first_with(generated.operators@, operator_has(oid)) is None,
        },
{
    let test = |r: &PgOperatorRecord| -> (b: bool)
        ensures
            b == operator_has(oid)(*r),
        {
            r.oid == oid
        };
    search::find_first(generated.operators, test, Ghost(operator_has(oid)))
}

pub fn builtin_operator_by_signature(
    generated: &GeneratedCatalog,
    name: &str,
    left_type: Oid,
    right_type: Oid,
    namespace: Oid,
) -> (r: Option<&'static PgOperatorRecord>)
    ensures
        ({
            let found = search::first_with(
                generated.operators@,
                operator_takes(model::normalized(name@), left_type, right_type, namespace),
            );
            match r {
                Some(x) => found == Some(*x),
                None => found is None,
            }
        }),
{
    let folded = model::normalize_identifier(name);
    let test = |r: &PgOperatorRecord| -> (b: bool)
        ensures
            b == operator_takes(folded@, left_type, right_type, namespace)(*r),
        {
            text::same_text(r.name, folded.as_str()) && r.left_type == left_type && r.right_type
                == right_type && r.namespace == namespace
        };
    search::find_first(
        generated.operators,
        test,
        Ghost(operator_takes(folded@, left_type, right_type, namespace)),
    )
}

/// The operators with a name, in their order.
pub fn builtin_operators_by_name(generated: &GeneratedCatalog, name: &str) -> (r: Vec<
    PgOperatorRecord,
>)
    ensures
        r@ == search::all_with(generated.operators@, operator_is(model::normalized(name@))),
{
    let folded = model::normalize_identifier(name);
    let test = |r: &PgOperatorRecord| -> (b: bool)
        ensures
            b == operator_is(folded@)(*r),
        {
            text::same_text(r.name, folded.as_str())
        };
    search::find_all(generated.operators, test, Ghost(operator_is(folded@)))
}

pub open spec fn cast_between(source_type: Oid, target_type: Oid) -> spec_fn(PgCastRecord) -> bool {
    |r: PgCastRecord| r.source_type == source_type && r.target_type == target_type
}

pub fn builtin_cast_by_source_target(
    generated: &GeneratedCatalog,
    source_type: Oid,
    target_type: Oid,
) -> (r: Option<&'static PgCastRecord>)
    ensures
        match r {
            Some(x) => search::first_with(
                generated.casts@,
                cast_between(source_type, target_type),
            ) == Some(*x),
            None => search::first_with(
                generated.casts@,
                cast_between(source_type, target_type),
            ) is None,
        },
{
    let test = |r: &PgCastRecord| -> (b: bool)
        ensures
            b == cast_between(source_type, target_type)(*r),
        {
            r.source_type == source_type && r.target_type == target_type
        };
    search::find_first(generated.casts, test, Ghost(cast_between(source_type, target_type)))
}

pub fn builtin_namespaces(generated: &GeneratedCatalog) -> (r: &'static [PgNamespaceRecord])
    ensures
        r@ == generated.namespaces@,
{
    generated.namespaces
}

/// Whether a record is that of the schema that describes the others.
pub open spec fn is_information_schema(r: PgNamespaceRecord) -> bool {
    &&& r.oid.0 == INFORMATION_SCHEMA_NAMESPACE_OID
    &&& r.name@ == "information_schema"@
    &&& r.owner.0 == POSTGRES_ROLE_OID
}

fn information_schema_namespace() -> (r: PgNamespaceRecord)
    ensures
        is_information_schema(r),
{
    PgNamespaceRecord {
        oid: Oid(INFORMATION_SCHEMA_NAMESPACE_OID),
        name: "information_schema",
        owner: Oid(POSTGRES_ROLE_OID),
    }
}

pub open spec fn namespace_has(oid: Oid) -> spec_fn(PgNamespaceRecord) -> bool {
    |r: PgNamespaceRecord| r.oid == oid
}

pub open spec fn namespace_is(name: Seq<char>) -> spec_fn(PgNamespaceRecord) -> bool {
    |r: PgNamespaceRecord| r.name@ == name
}

pub fn builtin_namespace_by_oid(generated: &GeneratedCatalog, oid: Oid) -> (r: Option<
    PgNamespaceRecord,
>)
    ensures
        if oid.0 == INFORMATION_SCHEMA_NAMESPACE_OID {
            r matches Some(x) && is_information_schema(x)
        } else {
            r == search::first_with(generated.namespaces@, namespace_has(oid))
        },
{
    if oid.0 == INFORMATION_SCHEMA_NAMESPACE_OID {
        return Some(information_schema_namespace());
    }
    let test = |r: &PgNamespaceRecord| -> (b: bool)
        ensures
            b == namespace_has(oid)(*r),
        {
            r.oid == oid
        };
    match search::find_first(generated.namespaces, test, Ghost(namespace_has(oid))) {
        Some(r) => Some(*r),
        None => None,
    }
}

pub fn builtin_namespace_by_name(generated: &GeneratedCatalog, name: &str) -> (r: Option<
    PgNamespaceRecord,
>)
    ensures
        if model::normalized(name@) == "information_schema"@ {
            r matches Some(x) && is_information_schema(x)
        } else {
            r == search::first_with(
                generated.namespaces@,
                namespace_is(model::normalized(name@)),
            )
        },
{
    let folded = model::normalize_identifier(name);
    if text::same_text(folded.as_str(), "information_schema") {
        return Some(information_schema_namespace());
    }
    let test = |r: &PgNamespaceRecord| -> (b: bool)
        ensures
            b == namespace_is(folded@)(*r),
        {
            text::same_text(r.name, folded.as_str())
        };
    match search::find_first(generated.namespaces, test, Ghost(namespace_is(folded@))) {
        Some(r) => Some(*r),
        None => None,
    }
}

/// The compiled-in type with a name. All of them lie in the one schema.
pub fn builtin_type_by_name(generated: &GeneratedCatalog, name: &str, namespace: Oid) -> (r: Option<
    PgTypeRecord,
>)
    ensures
        r == (if namespace.0 == PG_CATALOG_NAMESPACE_OID {
            search::first_with(
                generated.types@,
                columns::type_is(meta::canonical_type_name(name@)),
            )
        } else {
            None
        }),
{
    if namespace.0 != PG_CATALOG_NAMESPACE_OID {
        return None;
    }
    let canonical = meta::canonical_catalog_type_name(name);
    let test = |r: &PgTypeRecord| -> (b: bool)
        ensures
            b == columns::type_is(canonical@)(*r),
        {
            text::same_text(r.name, canonical.as_str())
        };
    match search::find_first(generated.types, test, Ghost(columns::type_is(canonical@))) {
        Some(r) => Some(*r),
        None => None,
    }
}

pub open spec fn proc_has(oid: Oid) -> spec_fn(PgProcRecord) -> bool {
    |r: PgProcRecord| r.oid == oid
}

pub fn builtin_proc_by_oid(generated: &GeneratedCatalog, oid: Oid) -> (r: Option<
    &'static PgProcRecord,
>)
    ensures
        match r {
            Some(x) => search::first_with(generated.procs@, proc_has(oid)) == Some(*x),
            None => search::first_with(generated.procs@, proc_has(oid)) is None,
        },
{
    let test = |r: &PgProcRecord| -> (b: bool)
        ensures
            b == proc_has(oid)(*r),
        {
            r.oid == oid
        };
    search::find_first(generated.procs, test, Ghost(proc_has(oid)))
}

/// The functions with a name, in their order.
pub fn builtin_procs_by_name(generated: &GeneratedCatalog, name: &str) -> (r: Vec<PgProcRecord>)
    ensures
        r@ == search::all_with(generated.procs@, columns::proc_is(model::normalized(name@))),
{
    let folded = model::normalize_identifier(name);
    let test = |r: &PgProcRecord| -> (b: bool)
        ensures
            b == columns::proc_is(folded@)(*r),
        {
            text::same_text(r.name, folded.as_str())
        };
    search::find_all(generated.procs, test, Ghost(columns::proc_is(folded@)))
}

pub open spec fn aggregate_has(oid: Oid) -> spec_fn(PgAggregateRecord) -> bool {
    |r: PgAggregateRecord| r.function_oid == oid
}

pub fn builtin_aggregate_by_proc_oid(generated: &GeneratedCatalog, function_oid: Oid) -> (r: Option<
    &'static PgAggregateRecord,
>)
    ensures
        match r {
            Some(x) => search::first_with(generated.aggregates@, aggregate_has(function_oid))
                == Some(*x),
            None => search::first_with(generated.aggregates@, aggregate_has(function_oid)) is None,
        },
{
    let test = |r: &PgAggregateRecord| -> (b: bool)
        ensures
            b == aggregate_has(function_oid)(*r),
        {
            r.function_oid == function_oid
        };
    search::find_first(generated.aggregates, test, Ghost(aggregate_has(function_oid)))
}

} // verus!
