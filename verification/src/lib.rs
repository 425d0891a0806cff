//! An editor core for a game client's binary data tables: a verified
//! codec for the fixed-schema record files, a case-insensitively
//! deduplicating interned-string table, change-tracked entity tables,
//! the loader that fills a session from a directory of table files, and
//! the orchestrator that decides which dirty tables a save must rewrite.

pub mod backend;
pub mod codec;
pub mod entity;
pub mod holder;
pub mod loader;
pub mod records;
pub mod save;
pub mod schema;
pub mod string_table;
pub mod text;
