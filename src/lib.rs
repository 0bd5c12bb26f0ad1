//! Type resolution and SQL generation context of a pipeline-to-SQL compiler.
//!
//! `ast` holds the expression and type trees, `error` the diagnostics, `types`
//! the structural subtyping relation, `type_resolver` evaluation, inference and
//! validation of types, and `sql` the scoped generation context and the
//! assembly of the final text.
pub mod ast;
pub mod error;
pub mod types;
pub mod type_resolver;
pub mod sql;
