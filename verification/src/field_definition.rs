//! Field definitions of object and interface types.
use vstd::prelude::*;
use vstd::string::StringExecFns;
use crate::case::{snake_case, to_snake_case};
use crate::input_value_definition::{InputValueDefinition, opt_as_str, opt_str_view, opt_view};
use crate::type_reference::BuiltinScalarDefinition;

verus! {

/// The named type at the bottom of an output type reference. The types
/// other than the builtin scalars are referred to by their index among the
/// types of that kind in the schema.
#[derive(Clone, Copy, Debug, PartialEq, Eq, Structural)]
pub enum BaseOutputTypeReference {
    BuiltinScalar(BuiltinScalarDefinition),
    EnumType(usize),
    CustomScalarType(usize),
    ObjectType(usize),
    InterfaceType(usize),
    UnionType(usize),
}

/// A reference to an output type: a named type or a list of a type, each
/// either required (non-null) or not.
#[derive(Debug)]
pub enum OutputTypeReference {
    Base(BaseOutputTypeReference, bool),
    List(Box<OutputTypeReference>, bool),
}

/// The arguments that a field takes, in order.
#[derive(Debug)]
pub struct ArgumentsDefinition {
    definitions: Vec<InputValueDefinition>,
}

impl ArgumentsDefinition {
    pub closed spec fn definitions_spec(&self) -> Seq<InputValueDefinition> {
        self.definitions@
    }

    pub fn new(definitions: Vec<InputValueDefinition>) -> (r: Self)
        ensures
            r.definitions_spec() == definitions@,
    {
        ArgumentsDefinition { definitions }
    }

    /// No arguments.
    pub fn empty() -> (r: Self)
        ensures
            r.definitions_spec().len() == 0,
    {
        ArgumentsDefinition { definitions: Vec::new() }
    }

    pub fn definitions(&self) -> (r: &Vec<InputValueDefinition>)
        ensures
            r@ == self.definitions_spec(),
    {
        &self.definitions
    }
}

/// A field: its name, description, arguments and type, whether the
/// toolkit defines it itself, and the Ruby method that resolves it.
#[derive(Debug)]
pub struct FieldDefinition {
    name: String,
    description: Option<String>,
    arguments_definition: ArgumentsDefinition,
    type_reference: OutputTypeReference,
    is_builtin: bool,
    ruby_resolver_method_name: String,
}

/// The name of the Ruby method that resolves a field whose snake_case name
/// is `snake`.
pub open spec fn resolver_name_spec(snake: Seq<char>) -> Seq<char> {
    "resolve_"@ + snake
}

/// The name of the Ruby method that resolves a field whose snake_case name
/// is `snake`: `resolve_` followed by it.
pub fn resolver_method_name(snake: &str) -> (r: String)
    ensures
        r@ == resolver_name_spec(snake@),
{
    let mut r = String::from_str("resolve_");
    r.append(snake);
    r
}

impl FieldDefinition {
    #[verifier::type_invariant]
    spec fn inv(self) -> bool {
        !self.is_builtin ==> self.ruby_resolver_method_name@ == resolver_name_spec(snake_case(self.name@))
    }

    pub closed spec fn name_spec(&self) -> Seq<char> {
        self.name@
    }

    pub closed spec fn description_spec(&self) -> Option<Seq<char>> {
        opt_view(self.description)
    }

    pub closed spec fn arguments_spec(&self) -> Seq<InputValueDefinition> {
        self.arguments_definition.definitions_spec()
    }

    pub closed spec fn type_spec(&self) -> OutputTypeReference {
        self.type_reference
    }

    pub closed spec fn builtin_spec(&self) -> bool {
        self.is_builtin
    }

    pub closed spec fn resolver_spec(&self) -> Seq<char> {
        self.ruby_resolver_method_name@
    }

    /// A field defined by the schema. Missing arguments are no arguments;
    /// a description given as `Some(None)` is no description. Its resolver
    /// is `resolve_` followed by the snake_case form of the name.
    pub fn new(
        name: String,
        type_reference: OutputTypeReference,
        argument_definitions: Option<ArgumentsDefinition>,
        description: Option<Option<String>>,
    ) -> (r: Self)
        ensures
            r.name_spec() == name@,
            r.type_spec() == type_reference,
            r.arguments_spec() == (match argument_definitions {
                Some(a) => a.definitions_spec(),
                None => Seq::<InputValueDefinition>::empty(),
            }),
            r.description_spec() == (match description {
                Some(Some(d)) => Some(d@),
                _ => None::<Seq<char>>,
            }),
            !r.builtin_spec(),
            r.resolver_spec() == resolver_name_spec(snake_case(name@)),
    {
        let arguments_definition = match argument_definitions {
            Some(a) => a,
            None => ArgumentsDefinition::empty(),
        };
        let description = match description {
            Some(d) => d,
            None => None,
        };
        let snake = to_snake_case(name.as_str());
        let ruby_resolver_method_name = resolver_method_name(snake.as_str());
        FieldDefinition {
            name,
            description,
            arguments_definition,
            type_reference,
            is_builtin: false,
            ruby_resolver_method_name,
        }
    }

    /// The `__typename` field that every object type has: a non-null
    /// `String` without arguments, defined by the toolkit and resolved by
    /// `resolve_typename`.
    pub fn typename() -> (r: Self)
        ensures
            r.name_spec() == "__typename"@,
            r.description_spec() is None,
            r.arguments_spec().len() == 0,
            r.type_spec() == OutputTypeReference::Base(
                BaseOutputTypeReference::BuiltinScalar(BuiltinScalarDefinition::String),
                true,
            ),
            r.builtin_spec(),
            r.resolver_spec() == "resolve_typename"@,
    {
        FieldDefinition {
            name: String::from_str("__typename"),
            description: None,
            arguments_definition: ArgumentsDefinition::empty(),
            type_reference: OutputTypeReference::Base(
                BaseOutputTypeReference::BuiltinScalar(BuiltinScalarDefinition::String),
                true,
            ),
            is_builtin: true,
            ruby_resolver_method_name: String::from_str("resolve_typename"),
        }
    }

    /// The name of the Ruby method that resolves the field; for a field
    /// of the schema, `resolve_` followed by the snake_case form of its name.
    pub fn ruby_resolver_method_name(&self) -> (r: &str)
        ensures
            r@ == self.resolver_spec(),
            !self.builtin_spec() ==> r@ == resolver_name_spec(snake_case(self.name_spec())),
    {
        proof {
            use_type_invariant(self);
        }
        self.ruby_resolver_method_name.as_str()
    }

    pub fn name(&self) -> (r: &str)
        ensures
            r@ == self.name_spec(),
    {
        self.name.as_str()
    }

    pub fn description(&self) -> (r: Option<&str>)
        ensures
            opt_str_view(r) == self.description_spec(),
    {
        opt_as_str(&self.description)
    }

    pub fn argument_definitions(&self) -> (r: &ArgumentsDefinition)
        ensures
            r.definitions_spec() == self.arguments_spec(),
    {
        &self.arguments_definition
    }

    pub fn type_reference(&self) -> (r: &OutputTypeReference)
        ensures
            *r == self.type_spec(),
    {
        &self.type_reference
    }

    /// Whether the toolkit defines the field itself.
    pub fn is_builtin(&self) -> (r: bool)
        ensures
            r == self.builtin_spec(),
    {
        self.is_builtin
    }
}

} // verus!
