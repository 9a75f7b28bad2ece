//! Reading the files that the compiled-in catalogs come from.

pub mod bki;
pub mod bki_laws;
pub mod cells;
pub mod lines;
pub mod meson;
pub mod record_laws;
pub mod records;
pub mod schema;
pub mod schema_laws;
pub mod system_views;
pub mod tables;
pub mod values;
