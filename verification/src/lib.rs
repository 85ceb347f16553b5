//! Protobuf type descriptors: messages, fields, oneofs, extensions and enums,
//! held in a type map and looked up by name or by number.
use vstd::prelude::*;

pub mod names;
pub mod types;
pub mod type_map;
mod validate;
mod order;
pub mod file;
pub mod message;
pub mod enum_type;
pub mod extension;
pub mod laws;

verus! {
}
