//! Running queries and copying data, around the core that does the work.

pub mod closing;
pub mod commands;
pub mod copy;
pub mod copy_laws;
pub mod copy_rows;
pub mod copy_sql;
pub mod copy_steps;
pub mod decode;
pub mod executor;
pub mod field_laws;
pub mod fields;
pub mod outcome_laws;
pub mod pgcore;
pub mod query;
pub mod results;
pub mod session;
