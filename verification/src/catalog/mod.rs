//! The system catalogs: what is compiled in, what follows from it, what sessions
//! put over it, and the lookups in all of that.

pub mod builtins;
pub mod catalog_indexes;
pub mod column_filters;
pub mod column_queries;
pub mod columns;
pub mod counts;
pub mod databases;
pub mod description_filters;
pub mod draft;
pub mod edit;
pub mod filters;
pub mod found_laws;
pub mod index;
pub mod index_views;
pub mod laws;
pub mod lookup_cache;
pub mod lookup_laws;
pub mod lookups;
pub mod made_laws;
pub mod meta;
pub mod model;
pub mod node_laws;
pub mod nodes;
pub mod overlay;
pub mod reader_laws;
pub mod relation_laws;
pub mod relations;
pub mod row_laws;
pub mod row_order;
pub mod rows;
pub mod rowtype_laws;
pub mod selectors;
pub mod snapshot;
pub mod state;
pub mod static_rows;
pub mod synthetic;
pub mod told_laws;
pub mod type_laws;
pub mod type_lookups;
pub mod validity;
pub mod value_laws;
pub mod values;
