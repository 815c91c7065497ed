//! Input value definitions: the fields of input objects and the arguments
//! of fields.
use vstd::prelude::*;
use crate::case::{snake_case, to_snake_case};
use crate::coerced::JsonValue;
use crate::type_reference::{InputTypeReference, type_required};

verus! {

/// A named input value of a given type, with an optional description and
/// default value, and the snake_case name under which Ruby reads it.
#[derive(Debug)]
pub struct InputValueDefinition {
    name: String,
    description: Option<String>,
    type_reference: InputTypeReference,
    default_value: Option<JsonValue>,
    ruby_name: String,
}

/// The characters of an optional string.
pub open spec fn opt_view(o: Option<String>) -> Option<Seq<char>> {
    match o {
        Some(s) => Some(s@),
        None => None,
    }
}

/// The characters of an optional string slice.
pub open spec fn opt_str_view(o: Option<&str>) -> Option<Seq<char>> {
    match o {
        Some(s) => Some(s@),
        None => None,
    }
}

/// An optional string as an optional slice.
pub fn opt_as_str(o: &Option<String>) -> (r: Option<&str>)
    ensures
        opt_str_view(r) == opt_view(*o),
{
    match o {
        Some(s) => Some(s.as_str()),
        None => None,
    }
}

impl InputValueDefinition {
    #[verifier::type_invariant]
    spec fn inv(self) -> bool {
        self.ruby_name@ == snake_case(self.name@)
    }

    pub closed spec fn name_spec(&self) -> Seq<char> {
        self.name@
    }

    pub closed spec fn description_spec(&self) -> Option<Seq<char>> {
        opt_view(self.description)
    }

    pub closed spec fn type_spec(&self) -> InputTypeReference {
        self.type_reference
    }

    pub closed spec fn default_spec(&self) -> Option<JsonValue> {
        self.default_value
    }

    pub closed spec fn ruby_name_spec(&self) -> Seq<char> {
        self.ruby_name@
    }

    /// Whether the input must supply this value: it has no default and its
    /// type is non-null.
    pub open spec fn required_spec(&self) -> bool {
        self.default_spec() is None && type_required(self.type_spec())
    }

    /// A definition with the given name, type, description and default; a
    /// description given as `Some(None)` is no description. The Ruby name
    /// is the snake_case form of `name`.
    pub fn new(
        name: String,
        type_reference: InputTypeReference,
        description: Option<Option<String>>,
        default_value: Option<JsonValue>,
    ) -> (r: Self)
        ensures
            r.name_spec() == name@,
            r.type_spec() == type_reference,
            r.description_spec() == (match description {
                Some(Some(d)) => Some(d@),
                _ => None::<Seq<char>>,
            }),
            r.default_spec() == default_value,
            r.ruby_name_spec() == snake_case(name@),
    {
        let description = match description {
            Some(d) => d,
            None => None,
        };
        let ruby_name = to_snake_case(name.as_str());
        InputValueDefinition { name, description, type_reference, default_value, ruby_name }
    }

    pub fn name(&self) -> (r: &str)
        ensures
            r@ == self.name_spec(),
    {
        self.name.as_str()
    }

    pub fn description(&self) -> (r: Option<&str>)
        ensures
            opt_str_view(r) == self.description_spec(),
    {
        opt_as_str(&self.description)
    }

    pub fn type_reference(&self) -> (r: &InputTypeReference)
        ensures
            *r == self.type_spec(),
    {
        &self.type_reference
    }

    pub fn default_value(&self) -> (r: Option<JsonValue>)
        ensures
            r == self.default_spec(),
    {
        self.default_value
    }

    /// Whether the input must supply this value.
    pub fn is_required(&self) -> (r: bool)
        ensures
            r == self.required_spec(),
    {
        if self.default_value.is_some() {
            false
        } else {
            self.type_reference.is_required()
        }
    }

    /// The snake_case form of the name, under which Ruby reads the value.
    pub fn ruby_name(&self) -> (r: &str)
        ensures
            r@ == self.ruby_name_spec(),
            r@ == snake_case(self.name_spec()),
    {
        proof {
            use_type_invariant(self);
        }
        self.ruby_name.as_str()
    }
}

} // verus!
