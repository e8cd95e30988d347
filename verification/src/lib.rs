//! Turns a JSON-Schema-like description of a nested data shape into a flat,
//! ordered list of struct definitions: one record per object-shaped node, each
//! listed after the records that its fields refer to.

pub mod error;
pub mod laws;
pub mod literal;
pub mod naming;
pub mod record;
pub mod schema;
pub mod text;
pub mod transform;

pub use crate::error::SchemaError;
pub use crate::record::{Field, Struct, StructsTemplate};
pub use crate::schema::{Properties, Schema};
