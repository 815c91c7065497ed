//! Input object types.
use vstd::prelude::*;
use crate::input_value_definition::{InputValueDefinition, opt_as_str, opt_str_view, opt_view};

verus! {

/// An input object type: a name, an optional description, its input fields
/// in order, and the id of the Ruby class whose instances a coerced input
/// object becomes.
#[derive(Debug)]
pub struct InputObjectTypeDefinition {
    name: String,
    description: Option<String>,
    input_fields_definition: Vec<InputValueDefinition>,
    ruby_class: u64,
}

impl InputObjectTypeDefinition {
    pub closed spec fn name_spec(&self) -> Seq<char> {
        self.name@
    }

    pub closed spec fn description_spec(&self) -> Option<Seq<char>> {
        opt_view(self.description)
    }

    pub closed spec fn fields_spec(&self) -> Seq<InputValueDefinition> {
        self.input_fields_definition@
    }

    pub closed spec fn ruby_class_spec(&self) -> u64 {
        self.ruby_class
    }

    /// Whether one of the fields has the name `name`.
    pub open spec fn has_field_named(&self, name: Seq<char>) -> bool {
        exists|j: int| 0 <= j < self.fields_spec().len() && #[trigger] self.fields_spec()[j].name_spec() == name
    }

    pub fn new(
        name: String,
        input_field_definitions: Vec<InputValueDefinition>,
        description: Option<String>,
        ruby_class: u64,
    ) -> (r: Self)
        ensures
            r.name_spec() == name@,
            r.fields_spec() == input_field_definitions@,
            r.description_spec() == opt_view(description),
            r.ruby_class_spec() == ruby_class,
    {
        InputObjectTypeDefinition {
            name,
            description,
            input_fields_definition: input_field_definitions,
            ruby_class,
        }
    }

    pub fn ruby_class(&self) -> (r: u64)
        ensures
            r == self.ruby_class_spec(),
    {
        self.ruby_class
    }

    pub fn name(&self) -> (r: &str)
        ensures
            r@ == self.name_spec(),
    {
        self.name.as_str()
    }

    pub fn description(&self) -> (r: Option<&str>)
        ensures
            opt_str_view(r) == self.description_spec(),
    {
        opt_as_str(&self.description)
    }

    pub fn input_field_definitions(&self) -> (r: &Vec<InputValueDefinition>)
        ensures
            r@ == self.fields_spec(),
    {
        &self.input_fields_definition
    }

    /// Whether one of the fields has the name `name`.
    pub fn has_field(&self, name: &str) -> (r: bool)
        ensures
            r == self.has_field_named(name@),
    {
        let fields = &self.input_fields_definition;
        let mut j: usize = 0;
        while j < fields.len()
            invariant
                j <= fields@.len(),
                fields@ == self.fields_spec(),
                forall|m: int| 0 <= m < j ==> #[trigger] fields@[m].name_spec() != name@,
            decreases fields@.len() - j,
        {
            if str_eq(fields[j].name(), name) {
                return true;
            }
            j = j + 1;
        }
        false
    }
}

/// Whether two strings have the same characters.
pub fn str_eq(a: &str, b: &str) -> (r: bool)
    ensures
        r == (a@ == b@),
{
    let a = String::from_str(a);
    let b = String::from_str(b);
    a == b
}

} // verus!
