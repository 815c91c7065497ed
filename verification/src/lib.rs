//! GraphQL schema definitions and input coercion for the Ruby extension
//! of the bluejay GraphQL toolkit.
//!
//! The library models the definitions the Ruby side builds (fields, input
//! value definitions, input object types and input type references) and the
//! rules by which a Ruby input value is coerced against an input type.
//! Ruby values reach the library as an arena of plain nodes
//! ([`value::InputValues`]); the coercion decides everything it can on its
//! own and asks the caller, one request at a time, for the coercions that
//! enum and custom scalar types perform in Ruby.

pub mod case;
pub mod value;
pub mod error;
pub mod coerced;
pub mod type_reference;
pub mod input_value_definition;
pub mod input_object_type_definition;
pub mod registry;
pub mod coerce;
pub mod field_definition;
pub mod laws;
pub mod rules;
