//! Static type checking of SQL statements against a known schema.
//!
//! A statement, given as a syntax tree, is walked once. Identifiers are
//! resolved against the columns in scope, every expression and output column
//! gets a type and a nullability, calls of built-in functions are checked
//! against their signatures, and the types of placeholders are inferred from
//! the places they are used in. Problems never abort the walk: they are
//! recorded as diagnostics and typing goes on with a best-effort result.
//!
//! What each function does is stated as a pure function of the syntax tree
//! and the columns in scope, which yields the diagnostics, the constraints on
//! placeholders and the resulting type; the executable code is proved to
//! compute exactly that.

pub mod span;
pub mod types;
pub mod views;
pub mod issue;
pub mod schema;
pub mod ast;
pub mod typer;
pub mod scope;
pub mod type_expression;
pub mod type_function;
pub mod type_insert_replace;
pub mod type_reference;
pub mod type_select;

pub use crate::issue::{Fragment, Issue, Level, Message};
pub use crate::schema::{Column, Schema, Schemas};
pub use crate::span::Span;
pub use crate::type_expression::{ExpressionFlags, type_expression};
pub use crate::type_function::type_function;
pub use crate::type_insert_replace::{AutoIncrementId, type_insert_replace};
pub use crate::type_reference::type_reference;
pub use crate::type_select::{
    SelectType, SelectTypeColumn, resolve_kleene_identifier, type_select, type_union,
    type_union_select,
};
pub use crate::typer::{ArgumentKey, ReferenceType, SqlDialect, TypeOptions, Typer};
pub use crate::types::{ArgRef, ArgType, BaseType, FullType, Type};
