//! The logic of a PostgreSQL-compatible server: statements that are read without
//! a core, the system catalogs with their transactions, and what becomes of the
//! replies of the core that runs statements.

pub mod bind;
pub mod bootstrap;
pub mod catalog;
pub mod exec;
pub mod lexing;
pub mod lexing_laws;
pub mod ordered;
pub mod parser;
pub mod parser_laws;
pub mod reading_laws;
pub mod search;
pub mod stable;
pub mod statement_laws;
pub mod text;
pub mod text_laws;
pub mod types;
