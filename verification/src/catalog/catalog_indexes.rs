//! The indexes of the compiled-in catalogs, of which their rows tell nothing.

use vstd::prelude::*;

use crate::catalog::columns;
use crate::catalog::model::{
    CatalogRow, CatalogRowView, CatalogValue, CatalogValueView, GeneratedCatalog,
    StaticCatalogTable, BTREE_INDEX_AM_OID, INVALID_OID, PG_AGGREGATE_FNOID_INDEX_OID,
    PG_AGGREGATE_RELATION_OID, PG_ATTRIBUTE_RELATION_OID, PG_ATTRIBUTE_RELID_NUM_INDEX_OID,
    PG_CATALOG_NAMESPACE_OID, PG_CLASS_NAME_NSP_INDEX_OID, PG_CLASS_OID_INDEX_OID,
    PG_CLASS_RELATION_OID, PG_NAMESPACE_OID_INDEX_OID, PG_NAMESPACE_RELATION_OID,
    PG_TS_CONFIG_MAP_INDEX_OID, PG_TS_CONFIG_MAP_RELATION_OID, POSTGRES_ROLE_OID,
};
use crate::catalog::synthetic;
use crate::catalog::synthetic::{assign_all, assignment, empty_catalog_row};
use crate::catalog::type_lookups;
use crate::catalog::type_lookups::static_btree_opclass_for_type;
use crate::search;
use crate::types::Oid;

verus! {

/// An index of a compiled-in catalog, with the names of the columns that it
/// orders by.
#[derive(Debug)]
pub struct CatalogIndex {
    pub oid: Oid,
    pub name: &'static str,
    pub relation_oid: Oid,
    pub primary: bool,
    pub keys: Vec<&'static str>,
}

pub struct CatalogIndexView {
    pub oid: Oid,
    pub name: Seq<char>,
    pub relation_oid: Oid,
    pub primary: bool,
    pub keys: Seq<Seq<char>>,
}

impl View for CatalogIndex {
    type V = CatalogIndexView;

    open spec fn view(&self) -> CatalogIndexView {
        CatalogIndexView {
            oid: self.oid,
            name: self.name@,
            relation_oid: self.relation_oid,
            primary: self.primary,
            keys: search::views(self.keys@),
        }
    }
}

/// The indexes of the catalogs of columns, relations, schemas and text search
/// configurations.
pub open spec fn indexes() -> Seq<CatalogIndexView> {
    seq![
        CatalogIndexView {
            oid: Oid(PG_ATTRIBUTE_RELID_NUM_INDEX_OID),
            name: "pg_attribute_relid_attnum_index"@,
            relation_oid: Oid(PG_ATTRIBUTE_RELATION_OID),
            primary: true,
            keys: seq!["attrelid"@, "attnum"@],
        },
        CatalogIndexView {
            oid: Oid(PG_CLASS_OID_INDEX_OID),
            name: "pg_class_oid_index"@,
            relation_oid: Oid(PG_CLASS_RELATION_OID),
            primary: true,
            keys: seq!["oid"@],
        },
        CatalogIndexView {
            oid: Oid(PG_CLASS_NAME_NSP_INDEX_OID),
            name: "pg_class_relname_nsp_index"@,
            relation_oid: Oid(PG_CLASS_RELATION_OID),
            primary: false,
            keys: seq!["relname"@, "relnamespace"@],
        },
        CatalogIndexView {
            oid: Oid(PG_NAMESPACE_OID_INDEX_OID),
            name: "pg_namespace_oid_index"@,
            relation_oid: Oid(PG_NAMESPACE_RELATION_OID),
            primary: true,
            keys: seq!["oid"@],
        },
        CatalogIndexView {
            oid: Oid(PG_TS_CONFIG_MAP_INDEX_OID),
            name: "pg_ts_config_map_index"@,
            relation_oid: Oid(PG_TS_CONFIG_MAP_RELATION_OID),
            primary: true,
            keys: seq!["mapcfg"@, "maptokentype"@, "mapseqno"@],
        },
    ]
}

/// The index of the catalog of aggregates.
pub open spec fn aggregate_index() -> CatalogIndexView {
    CatalogIndexView {
        oid: Oid(PG_AGGREGATE_FNOID_INDEX_OID),
        name: "pg_aggregate_fnoid_index"@,
        relation_oid: Oid(PG_AGGREGATE_RELATION_OID),
        primary: true,
        keys: seq!["aggfnoid"@],
    }
}

/// All indexes of compiled-in catalogs.
pub open spec fn all_indexes() -> Seq<CatalogIndexView> {
    indexes().push(aggregate_index())
}

fn index(
    oid: u32,
    name: &'static str,
    relation_oid: u32,
    primary: bool,
    keys: Vec<&'static str>,
) -> (r: CatalogIndex)
    ensures
        r@ == (CatalogIndexView {
            oid: Oid(oid),
            name: name@,
            relation_oid: Oid(relation_oid),
            primary,
            keys: search::views(keys@),
        }),
{
    CatalogIndex { oid: Oid(oid), name, relation_oid: Oid(relation_oid), primary, keys }
}

/// The indexes of the catalogs of columns, relations, schemas and text search
/// configurations.
pub fn catalog_indexes() -> (r: Vec<CatalogIndex>)
    ensures
        search::views(r@) == indexes(),
{
    let list = vec![
        index(
            PG_ATTRIBUTE_RELID_NUM_INDEX_OID,
            "pg_attribute_relid_attnum_index",
            PG_ATTRIBUTE_RELATION_OID,
            true,
            vec!["attrelid", "attnum"],
        ),
        index(
            PG_CLASS_OID_INDEX_OID,
            "pg_class_oid_index",
            PG_CLASS_RELATION_OID,
            true,
            vec!["oid"],
        ),
        index(
            PG_CLASS_NAME_NSP_INDEX_OID,
            "pg_class_relname_nsp_index",
            PG_CLASS_RELATION_OID,
            false,
            vec!["relname", "relnamespace"],
        ),
        index(
            PG_NAMESPACE_OID_INDEX_OID,
            "pg_namespace_oid_index",
            PG_NAMESPACE_RELATION_OID,
            true,
            vec!["oid"],
        ),
        index(
            PG_TS_CONFIG_MAP_INDEX_OID,
            "pg_ts_config_map_index",
            PG_TS_CONFIG_MAP_RELATION_OID,
            true,
            vec!["mapcfg", "maptokentype", "mapseqno"],
        ),
    ];
    assert(list@[0]@.keys =~= indexes()[0].keys);
    assert(list@[1]@.keys =~= indexes()[1].keys);
    assert(list@[2]@.keys =~= indexes()[2].keys);
    assert(list@[3]@.keys =~= indexes()[3].keys);
    assert(list@[4]@.keys =~= indexes()[4].keys);
    assert(search::views(list@) =~= indexes());
    list
}

/// All indexes of compiled-in catalogs.
pub fn all_catalog_indexes() -> (r: Vec<CatalogIndex>)
    ensures
        search::views(r@) == all_indexes(),
{
    let mut list = catalog_indexes();
    let ghost before = search::views(list@);
    let last = index(
        PG_AGGREGATE_FNOID_INDEX_OID,
        "pg_aggregate_fnoid_index",
        PG_AGGREGATE_RELATION_OID,
        true,
        vec!["aggfnoid"],
    );
    assert(last@.keys =~= aggregate_index().keys);
    list.push(last);
    assert(search::views(list@) =~= before.push(last@));
    list
}

pub open spec fn index_has(oid: Oid) -> spec_fn(CatalogIndexView) -> bool {
    |index: CatalogIndexView| index.oid == oid
}

/// The index of a compiled-in catalog with an identifier.
pub fn catalog_index_by_oid(oid: Oid) -> (r: Option<CatalogIndex>)
    ensures
        search::option_view(r) == search::first_with(all_indexes(), index_has(oid)),
{
    let mut list = all_catalog_indexes();
    let ghost all = all_indexes();
    let mut i: usize = 0;
    while i < list.len()
        invariant
            i <= list.len(),
            all == all_indexes(),
            search::views(list@) == all,
            forall|j: int| 0 <= j < i ==> !index_has(oid)(#[trigger] all[j]),
        decreases list.len() - i,
    {
        assert(all[i as int] == list@[i as int]@);
        if list[i].oid == oid {
            proof {
                search::first_index_at(all, index_has(oid), i as int);
            }
            return Some(list.swap_remove(i));
        }
        i += 1;
    }
    assert(list@.len() == all.len());
    proof {
        search::first_index_none(all, index_has(oid));
    }
    None
}

/// The columns of the class row of an index.
pub open spec fn class_columns(index: CatalogIndexView) -> Seq<(Seq<char>, CatalogValueView)> {
    seq![
        ("oid"@, CatalogValueView::Oid(index.oid)),
        ("relname"@, CatalogValueView::Name(index.name)),
        ("relnamespace"@, CatalogValueView::Oid(Oid(PG_CATALOG_NAMESPACE_OID))),
        ("reltype"@, CatalogValueView::Oid(Oid(INVALID_OID))),
        ("reloftype"@, CatalogValueView::Oid(Oid(INVALID_OID))),
        ("relowner"@, CatalogValueView::Oid(Oid(POSTGRES_ROLE_OID))),
        ("relam"@, CatalogValueView::Oid(Oid(BTREE_INDEX_AM_OID))),
        ("relfilenode"@, CatalogValueView::Oid(index.oid)),
        ("reltablespace"@, CatalogValueView::Oid(Oid(INVALID_OID))),
        ("relpages"@, CatalogValueView::Int32(1)),
        ("reltuples"@, CatalogValueView::Float32(0x3f80_0000)),
        ("relallvisible"@, CatalogValueView::Int32(0)),
        ("relallfrozen"@, CatalogValueView::Int32(0)),
        ("reltoastrelid"@, CatalogValueView::Oid(Oid(INVALID_OID))),
        ("relhasindex"@, CatalogValueView::Bool(false)),
        ("relisshared"@, CatalogValueView::Bool(false)),
        ("relpersistence"@, CatalogValueView::Char(112)),
        ("relkind"@, CatalogValueView::Char(105)),
        ("relnatts"@, CatalogValueView::Int16(index.keys.len() as i16)),
        ("relchecks"@, CatalogValueView::Int16(0)),
        ("relhasrules"@, CatalogValueView::Bool(false)),
        ("relhastriggers"@, CatalogValueView::Bool(false)),
        ("relhassubclass"@, CatalogValueView::Bool(false)),
        ("relrowsecurity"@, CatalogValueView::Bool(false)),
        ("relforcerowsecurity"@, CatalogValueView::Bool(false)),
        ("relispopulated"@, CatalogValueView::Bool(true)),
        ("relreplident"@, CatalogValueView::Char(110)),
        ("relispartition"@, CatalogValueView::Bool(false)),
        ("relrewrite"@, CatalogValueView::Oid(Oid(INVALID_OID))),
        ("relfrozenxid"@, CatalogValueView::Raw("3"@)),
        ("relminmxid"@, CatalogValueView::Raw("1"@)),
        ("relacl"@, CatalogValueView::Null),
        ("reloptions"@, CatalogValueView::Null),
        ("relpartbound"@, CatalogValueView::Null),
    ]
}

/// The class row of an index.
pub open spec fn index_class(table: StaticCatalogTable, index: CatalogIndexView) -> CatalogRowView {
    columns::with_values(
        table,
        synthetic::empty_row(table, index.oid.0 as u64),
        class_columns(index),
    )
}

pub fn synthetic_catalog_index_class_row(table: &StaticCatalogTable, index: &CatalogIndex) -> (r:
    CatalogRow)
    ensures
        r@ == index_class(*table, index@),
{
    let mut row = empty_catalog_row(table, index.oid.0 as u64);
    let natts: i16 =
        #[verifier::truncate]
        (index.keys.len() as i16);
    let list = vec![
        assignment("oid", CatalogValue::Oid(index.oid)),
        assignment("relname", CatalogValue::Name(index.name.to_owned())),
        assignment("relnamespace", CatalogValue::Oid(Oid(PG_CATALOG_NAMESPACE_OID))),
        assignment("reltype", CatalogValue::Oid(Oid(INVALID_OID))),
        assignment("reloftype", CatalogValue::Oid(Oid(INVALID_OID))),
        assignment("relowner", CatalogValue::Oid(Oid(POSTGRES_ROLE_OID))),
        assignment("relam", CatalogValue::Oid(Oid(BTREE_INDEX_AM_OID))),
        assignment("relfilenode", CatalogValue::Oid(index.oid)),
        assignment("reltablespace", CatalogValue::Oid(Oid(INVALID_OID))),
        assignment("relpages", CatalogValue::Int32(1)),
        assignment("reltuples", CatalogValue::Float32(0x3f80_0000)),
        assignment("relallvisible", CatalogValue::Int32(0)),
        assignment("relallfrozen", CatalogValue::Int32(0)),
        assignment("reltoastrelid", CatalogValue::Oid(Oid(INVALID_OID))),
        assignment("relhasindex", CatalogValue::Bool(false)),
        assignment("relisshared", CatalogValue::Bool(false)),
        assignment("relpersistence", CatalogValue::Char(112)),
        assignment("relkind", CatalogValue::Char(105)),
        assignment("relnatts", CatalogValue::Int16(natts)),
        assignment("relchecks", CatalogValue::Int16(0)),
        assignment("relhasrules", CatalogValue::Bool(false)),
        assignment("relhastriggers", CatalogValue::Bool(false)),
        assignment("relhassubclass", CatalogValue::Bool(false)),
        assignment("relrowsecurity", CatalogValue::Bool(false)),
        assignment("relforcerowsecurity", CatalogValue::Bool(false)),
        assignment("relispopulated", CatalogValue::Bool(true)),
        assignment("relreplident", CatalogValue::Char(110)),
        assignment("relispartition", CatalogValue::Bool(false)),
        assignment("relrewrite", CatalogValue::Oid(Oid(INVALID_OID))),
        assignment("relfrozenxid", CatalogValue::Raw("3".to_owned())),
        assignment("relminmxid", CatalogValue::Raw("1".to_owned())),
        assignment("relacl", CatalogValue::Null),
        assignment("reloptions", CatalogValue::Null),
        assignment("relpartbound", CatalogValue::Null),
    ];
    assert(synthetic::assignment_views(list@) =~= class_columns(index@));
    assign_all(table, &mut row, list);
    row
}

/// The place of a column of a catalog, where the column has a number.
pub open spec fn key_place(relation: StaticCatalogTable) -> spec_fn(Seq<char>) -> Option<usize> {
    |name: Seq<char>|
        match columns::position(relation, name) {
            Some(i) if 0 <= i < i16::MAX => Some(i as usize),
            _ => None,
        }
}

fn find_key_place(relation: &StaticCatalogTable, name: &str) -> (r: Option<usize>)
    ensures
        r == key_place(*relation)(name@),
        r matches Some(i) ==> i < relation.columns@.len(),
{
    match columns::column_position(relation, name) {
        Some(i) => if i < 0x7fff {
            Some(i)
        } else {
            None
        },
        None => None,
    }
}

pub open spec fn key_numbers(places: Seq<usize>) -> Seq<i16> {
    Seq::new(places.len(), |i: int| (places[i] + 1) as i16)
}

pub open spec fn key_collations(relation: StaticCatalogTable, places: Seq<usize>) -> Seq<Oid> {
    Seq::new(places.len(), |i: int| relation.columns@[places[i] as int].attcollation)
}

/// The operator class that orders the values of a type, or none.
pub open spec fn class_of(generated: GeneratedCatalog, type_oid: Oid) -> Oid {
    match type_lookups::builtin_opclass(generated, type_oid) {
        Some(oid) => oid,
        None => Oid(INVALID_OID),
    }
}

pub open spec fn key_classes(
    generated: GeneratedCatalog,
    relation: StaticCatalogTable,
    places: Seq<usize>,
) -> Seq<Oid> {
    Seq::new(
        places.len(),
        |i: int| class_of(generated, relation.columns@[places[i] as int].type_oid),
    )
}

/// The columns of the index row of an index, where the places of its keys are
/// known.
pub open spec fn index_columns(
    generated: GeneratedCatalog,
    relation: StaticCatalogTable,
    index: CatalogIndexView,
    places: Seq<usize>,
) -> Seq<(Seq<char>, CatalogValueView)> {
    seq![
        ("indexrelid"@, CatalogValueView::Oid(index.oid)),
        ("indrelid"@, CatalogValueView::Oid(relation.oid)),
        ("indnatts"@, CatalogValueView::Int16(index.keys.len() as i16)),
        ("indnkeyatts"@, CatalogValueView::Int16(index.keys.len() as i16)),
        ("indisunique"@, CatalogValueView::Bool(true)),
        ("indnullsnotdistinct"@, CatalogValueView::Bool(false)),
        ("indisprimary"@, CatalogValueView::Bool(index.primary)),
        ("indisexclusion"@, CatalogValueView::Bool(false)),
        ("indimmediate"@, CatalogValueView::Bool(true)),
        ("indisclustered"@, CatalogValueView::Bool(false)),
        ("indisvalid"@, CatalogValueView::Bool(true)),
        ("indcheckxmin"@, CatalogValueView::Bool(false)),
        ("indisready"@, CatalogValueView::Bool(true)),
        ("indislive"@, CatalogValueView::Bool(true)),
        ("indisreplident"@, CatalogValueView::Bool(false)),
        ("indkey"@, CatalogValueView::Int2Vector(key_numbers(places))),
        ("indcollation"@, CatalogValueView::OidVector(key_collations(relation, places))),
        ("indclass"@, CatalogValueView::OidVector(key_classes(generated, relation, places))),
        ("indoption"@, CatalogValueView::Int2Vector(Seq::new(places.len(), |i: int| 0i16))),
        ("indexprs"@, CatalogValueView::Null),
        ("indpred"@, CatalogValueView::Null),
    ]
}

/// The index row of an index, where its catalog is compiled in and has the
/// columns that it orders by.
pub open spec fn index_row(
    generated: GeneratedCatalog,
    table: StaticCatalogTable,
    index: CatalogIndexView,
) -> Option<CatalogRowView> {
    match columns::table_of(generated, index.relation_oid) {
        Some(relation) => match search::every_some(index.keys, key_place(relation)) {
            Some(places) => Some(
                columns::with_values(
                    table,
                    synthetic::empty_row(table, index.oid.0 as u64),
                    index_columns(generated, relation, index, places),
                ),
            ),
            None => None,
        },
        None => None,
    }
}

fn find_key_places(relation: &StaticCatalogTable, index: &CatalogIndex) -> (r: Option<Vec<usize>>)
    ensures
        match r {
            Some(places) => search::every_some(index@.keys, key_place(*relation)) == Some(places@)
                && forall|i: int|
                    0 <= i < places@.len() ==> #[trigger] places@[i] < relation.columns@.len()
                        && places@[i] < i16::MAX,
            None => search::every_some(index@.keys, key_place(*relation)) is None,
        },
{
    let ghost all = index@.keys;
    let ghost f = key_place(*relation);
    let mut places: Vec<usize> = Vec::new();
    let mut i: usize = 0;
    assert(all.take(0) =~= seq![]);
    assert(places@ =~= seq![]);
    while i < index.keys.len()
        invariant
            i <= index.keys.len(),
            all == index@.keys,
            f == key_place(*relation),
            search::every_some(all.take(i as int), f) == Some(places@),
            forall|j: int|
                0 <= j < places@.len() ==> #[trigger] places@[j] < relation.columns@.len()
                    && places@[j] < i16::MAX,
        decreases index.keys.len() - i,
    {
        assert(all.take(i + 1).drop_last() =~= all.take(i as int));
        assert(all[i as int] == index.keys@[i as int]@);
        match find_key_place(relation, index.keys[i]) {
            Some(place) => {
                places.push(place);
            },
            None => {
                proof {
                    search::one_without_is_none(all, f, i as int);
                }
                return None;
            },
        }
        i += 1;
    }
    assert(all.take(i as int) =~= all);
    Some(places)
}

pub fn synthetic_catalog_index_row(
    generated: &GeneratedCatalog,
    table: &StaticCatalogTable,
    index: &CatalogIndex,
) -> (r: Option<CatalogRow>)
    ensures
        search::option_view(r) == index_row(*generated, *table, index@),
{
    let relation = match columns::static_catalog_by_relation_oid(generated, index.relation_oid) {
        Some(relation) => relation,
        None => return None,
    };
    let places = match find_key_places(relation, index) {
        Some(places) => places,
        None => return None,
    };
    let mut numbers: Vec<i16> = Vec::new();
    let mut collations: Vec<Oid> = Vec::new();
    let mut classes: Vec<Oid> = Vec::new();
    let mut options: Vec<i16> = Vec::new();
    let mut i: usize = 0;
    while i < places.len()
        invariant
            i <= places.len(),
            forall|j: int|
                0 <= j < places@.len() ==> #[trigger] places@[j] < relation.columns@.len()
                    && places@[j] < i16::MAX,
            numbers@ == key_numbers(places@.take(i as int)),
            collations@ == key_collations(*relation, places@.take(i as int)),
            classes@ == key_classes(*generated, *relation, places@.take(i as int)),
            options@ == Seq::new(i as nat, |i: int| 0i16),
        decreases places.len() - i,
    {
        let place = places[i];
        let column = relation.columns[place];
        numbers.push((place + 1) as i16);
        collations.push(column.attcollation);
        let class = match static_btree_opclass_for_type(generated, column.type_oid) {
            Some(oid) => oid,
            None => Oid(INVALID_OID),
        };
        classes.push(class);
        options.push(0);
        assert(numbers@ =~= key_numbers(places@.take(i + 1)));
        assert(collations@ =~= key_collations(*relation, places@.take(i + 1)));
        assert(classes@ =~= key_classes(*generated, *relation, places@.take(i + 1)));
        assert(options@ =~= Seq::new((i + 1) as nat, |i: int| 0i16));
        i += 1;
    }
    assert(places@.take(i as int) =~= places@);
    let mut row = empty_catalog_row(table, index.oid.0 as u64);
    let natts: i16 =
        #[verifier::truncate]
        (index.keys.len() as i16);
    let list = vec![
        assignment("indexrelid", CatalogValue::Oid(index.oid)),
        assignment("indrelid", CatalogValue::Oid(relation.oid)),
        assignment("indnatts", CatalogValue::Int16(natts)),
        assignment("indnkeyatts", CatalogValue::Int16(natts)),
        assignment("indisunique", CatalogValue::Bool(true)),
        assignment("indnullsnotdistinct", CatalogValue::Bool(false)),
        assignment("indisprimary", CatalogValue::Bool(index.primary)),
        assignment("indisexclusion", CatalogValue::Bool(false)),
        assignment("indimmediate", CatalogValue::Bool(true)),
        assignment("indisclustered", CatalogValue::Bool(false)),
        assignment("indisvalid", CatalogValue::Bool(true)),
        assignment("indcheckxmin", CatalogValue::Bool(false)),
        assignment("indisready", CatalogValue::Bool(true)),
        assignment("indislive", CatalogValue::Bool(true)),
        assignment("indisreplident", CatalogValue::Bool(false)),
        assignment("indkey", CatalogValue::Int2Vector(numbers)),
        assignment("indcollation", CatalogValue::OidVector(collations)),
        assignment("indclass", CatalogValue::OidVector(classes)),
        assignment("indoption", CatalogValue::Int2Vector(options)),
        assignment("indexprs", CatalogValue::Null),
        assignment("indpred", CatalogValue::Null),
    ];
    assert(synthetic::assignment_views(list@) =~= index_columns(
        *generated,
        *relation,
        index@,
        places@,
    ));
    assign_all(table, &mut row, list);
    Some(row)
}

/// The row of a column of an index: that of the column that it orders by, as a
/// column of the index.
pub open spec fn key_row(
    generated: GeneratedCatalog,
    table: StaticCatalogTable,
    index: CatalogIndexView,
    name: Seq<char>,
    attnum: i16,
) -> Option<CatalogRowView> {
    match columns::table_of(generated, index.relation_oid) {
        Some(relation) => match key_place(relation)(name) {
            Some(place) => synthetic::attribute_row(
                generated,
                table,
                StaticCatalogTable { oid: index.oid, ..relation },
                relation.columns@[place as int],
                attnum,
            ),
            None => None,
        },
        None => None,
    }
}

pub fn synthetic_index_attribute_row(
    generated: &GeneratedCatalog,
    table: &StaticCatalogTable,
    index: &CatalogIndex,
    name: &str,
    attnum: i16,
) -> (r: Option<CatalogRow>)
    ensures
        search::option_view(r) == key_row(*generated, *table, index@, name@, attnum),
{
    let relation = match columns::static_catalog_by_relation_oid(generated, index.relation_oid) {
        Some(relation) => relation,
        None => return None,
    };
    match find_key_place(relation, name) {
        Some(place) => {
            let as_index = StaticCatalogTable { oid: index.oid, ..*relation };
            synthetic::synthetic_static_attribute_row(
                generated,
                table,
                &as_index,
                &relation.columns[place],
                attnum,
            )
        },
        None => None,
    }
}

} // verus!
