//! A one-pass translator from a small guarded-command language to C, with
//! block-scope checking and per-variable usage statistics.
//!
//! `token` holds the token kinds and the keyword table, `scanner` the lexer,
//! `symbol_table` the nested scopes and the declaration history, and
//! `parser` the recursive-descent translator. Each module states its
//! behaviour as spec functions, and the executable code is proved to follow
//! them.
pub mod token;
pub mod scanner;
pub mod symbol_table;
pub mod parser;
