//! URL query strings from structured records.
//!
//! A record type is registered once from the declaration of its fields: each
//! declared type is classified to a shape, and a type with a field of
//! unsupported shape is refused. A record of a registered type is then
//! encoded field by field, in declared order, into `?name=value&name=value`,
//! or into the empty string where every field is suppressed. Names and values
//! are written as they are: nothing is percent-encoded.

pub mod assemble;
pub mod classify;
pub mod encode;
pub mod laws;
pub mod record;
pub mod shape;
pub mod text;
pub mod types;
pub mod value;

pub use crate::assemble::{assemble, QueryParams};
pub use crate::classify::classify;
pub use crate::encode::{encode, encode_field, EncodedFragment};
pub use crate::record::{register, FieldDecl, Record, Schema, SchemaError};
pub use crate::shape::FieldShape;
pub use crate::types::TypeDesc;
pub use crate::value::{conforms, FieldValue};
