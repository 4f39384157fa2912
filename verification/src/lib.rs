use vstd::prelude::*;

pub mod field;
pub mod naming;
pub mod permission;
pub mod table;
pub mod text;
pub mod type_conv;
pub mod validate;

pub use crate::naming::to_snake_case;

verus! {

/// A type that can hand out the schema-definition statement for its table.
///
/// The library itself implements this for nothing; it is the hook that a
/// code generator fills in for each record type it processes.
pub trait SurQLSchemaProducer {
    fn schema_query() -> &'static str;
}

/// The failures a descriptor can be built or rendered with.
#[derive(Debug)]
pub enum SchemaError {
    /// Type inference could not map a structural type; carries the name of
    /// the offending type so the caller can fall back to an explicit one.
    UnsupportedType(String),
    /// A literal of the wrong kind was supplied where another was required;
    /// carries a description of the expectation.
    MalformedAttribute(String),
    /// The optional grammar check refused a statement; carries the parser's
    /// message and the offending statement text.
    ValidationFailed(String, String),
}

} // verus!
