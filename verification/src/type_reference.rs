//! Input type references and the coercion rules of the builtin scalars.
use vstd::prelude::*;
use crate::coerced::{Coerced, CoercedSpec, result_view};
use crate::error::{
    CoercionError, ErrorSpec, conversion_error, conversion_message, integer_range_error,
    integer_range_message,
};
use crate::value::{InputNode, NodeKind};

verus! {

/// The scalars that every GraphQL schema has.
#[derive(Clone, Copy, Debug, PartialEq, Eq, Structural)]
pub enum BuiltinScalarDefinition {
    String,
    Int,
    Float,
    Boolean,
    ID,
}

/// The named type at the bottom of an input type reference. The types
/// other than the builtin scalars are referred to by their index among the
/// input object, enum or custom scalar types of the schema.
#[derive(Clone, Copy, Debug, PartialEq, Eq, Structural)]
pub enum BaseInputTypeReference {
    BuiltinScalarType(BuiltinScalarDefinition),
    InputObjectType(usize),
    EnumType(usize),
    CustomScalarType(usize),
}

/// A reference to an input type: a named type or a list of a type, each
/// either required (non-null) or not.
#[derive(Debug)]
pub enum InputTypeReference {
    Base(BaseInputTypeReference, bool),
    List(Box<InputTypeReference>, bool),
}

/// The shape of a type reference as the GraphQL parser reads it: a named
/// type or a list, each with whether it is required.
#[derive(Debug)]
pub enum ParsedTypeReference {
    NamedType(bool),
    ListType(Box<ParsedTypeReference>, bool),
}

pub open spec fn type_required(t: InputTypeReference) -> bool {
    match t {
        InputTypeReference::Base(_, required) => required,
        InputTypeReference::List(_, required) => required,
    }
}

pub open spec fn type_base(t: InputTypeReference) -> BaseInputTypeReference
    decreases t,
{
    match t {
        InputTypeReference::Base(b, _) => b,
        InputTypeReference::List(inner, _) => type_base(*inner),
    }
}

/// The number of type constructors in `t`.
pub open spec fn type_rank(t: InputTypeReference) -> nat
    decreases t,
{
    match t {
        InputTypeReference::Base(..) => 1,
        InputTypeReference::List(inner, _) => 1 + type_rank(*inner),
    }
}

/// The input type reference of the parsed shape `p` over `base`.
pub open spec fn from_parsed(p: ParsedTypeReference, base: BaseInputTypeReference) -> InputTypeReference
    decreases p,
{
    match p {
        ParsedTypeReference::NamedType(required) => InputTypeReference::Base(base, required),
        ParsedTypeReference::ListType(inner, required) => InputTypeReference::List(
            Box::new(from_parsed(*inner, base)),
            required,
        ),
    }
}

impl InputTypeReference {
    /// A reference to the named type `base`.
    pub fn new(base: BaseInputTypeReference, required: bool) -> (r: Self)
        ensures
            r == InputTypeReference::Base(base, required),
    {
        InputTypeReference::Base(base, required)
    }

    /// A reference to a list of `inner`.
    pub fn list(inner: InputTypeReference, required: bool) -> (r: Self)
        ensures
            r == InputTypeReference::List(Box::new(inner), required),
    {
        InputTypeReference::List(Box::new(inner), required)
    }

    /// Whether the reference is non-null.
    pub fn is_required(&self) -> (r: bool)
        ensures
            r == type_required(*self),
    {
        match self {
            InputTypeReference::Base(_, required) => *required,
            InputTypeReference::List(_, required) => *required,
        }
    }

    /// The named type at the bottom of the reference, under all lists.
    pub fn base(&self) -> (r: &BaseInputTypeReference)
        ensures
            *r == type_base(*self),
        decreases self,
    {
        match self {
            InputTypeReference::Base(inner, _) => inner,
            InputTypeReference::List(inner, _) => inner.base(),
        }
    }

    /// The reference with the shape that the parser read, over `base`.
    pub fn from_parser_type_reference(
        parser_type_reference: &ParsedTypeReference,
        base: BaseInputTypeReference,
    ) -> (r: Self)
        ensures
            r == from_parsed(*parser_type_reference, base),
        decreases parser_type_reference,
    {
        match parser_type_reference {
            ParsedTypeReference::NamedType(required) => InputTypeReference::Base(base, *required),
            ParsedTypeReference::ListType(inner, required) => InputTypeReference::List(
                Box::new(Self::from_parser_type_reference(inner, base)),
                *required,
            ),
        }
    }
}

pub open spec fn one_error(message: Seq<char>, path: Seq<Seq<char>>) -> Result<CoercedSpec, Seq<ErrorSpec>> {
    Err(seq![ErrorSpec { message, path }])
}

/// The coercion of the node at `node` to `String`.
pub open spec fn coerce_string_spec(nodes: Seq<InputNode>, node: nat, path: Seq<Seq<char>>) -> Result<CoercedSpec, Seq<ErrorSpec>> {
    match nodes[node as int].kind {
        NodeKind::String(_) => Ok(CoercedSpec::Input(node)),
        _ => one_error(conversion_message(nodes[node as int].public_name@, "String"@), path),
    }
}

/// The coercion of the node at `node` to `Int`: an integer of the 32-bit
/// signed range.
pub open spec fn coerce_integer_spec(nodes: Seq<InputNode>, node: nat, path: Seq<Seq<char>>) -> Result<CoercedSpec, Seq<ErrorSpec>> {
    match nodes[node as int].kind {
        NodeKind::Integer(i) => if i32::MIN <= i <= i32::MAX {
            Ok(CoercedSpec::Input(node))
        } else {
            one_error(integer_range_message(), path)
        },
        NodeKind::BigInteger => one_error(integer_range_message(), path),
        _ => one_error(conversion_message(nodes[node as int].public_name@, "integer"@), path),
    }
}

/// The coercion of the node at `node` to `Float`: a float, or an integer
/// coerced as `Int`.
pub open spec fn coerce_float_spec(nodes: Seq<InputNode>, node: nat, path: Seq<Seq<char>>) -> Result<CoercedSpec, Seq<ErrorSpec>> {
    match nodes[node as int].kind {
        NodeKind::Float => Ok(CoercedSpec::Input(node)),
        NodeKind::Integer(_) => coerce_integer_spec(nodes, node, path),
        NodeKind::BigInteger => coerce_integer_spec(nodes, node, path),
        _ => one_error(conversion_message(nodes[node as int].public_name@, "Float"@), path),
    }
}

/// The coercion of the node at `node` to `Boolean`.
pub open spec fn coerce_boolean_spec(nodes: Seq<InputNode>, node: nat, path: Seq<Seq<char>>) -> Result<CoercedSpec, Seq<ErrorSpec>> {
    match nodes[node as int].kind {
        NodeKind::Boolean(_) => Ok(CoercedSpec::Input(node)),
        _ => one_error(conversion_message(nodes[node as int].public_name@, "Boolean"@), path),
    }
}

/// The coercion of the node at `node` to `ID`: a string, or an integer
/// coerced as `Int`.
pub open spec fn coerce_id_spec(nodes: Seq<InputNode>, node: nat, path: Seq<Seq<char>>) -> Result<CoercedSpec, Seq<ErrorSpec>> {
    match nodes[node as int].kind {
        NodeKind::String(_) => Ok(CoercedSpec::Input(node)),
        NodeKind::Integer(_) => coerce_integer_spec(nodes, node, path),
        NodeKind::BigInteger => coerce_integer_spec(nodes, node, path),
        _ => one_error(conversion_message(nodes[node as int].public_name@, "ID"@), path),
    }
}

/// The coercion of the node at `node` to the builtin scalar `s`.
pub open spec fn coerce_scalar_spec(
    s: BuiltinScalarDefinition,
    nodes: Seq<InputNode>,
    node: nat,
    path: Seq<Seq<char>>,
) -> Result<CoercedSpec, Seq<ErrorSpec>> {
    match s {
        BuiltinScalarDefinition::String => coerce_string_spec(nodes, node, path),
        BuiltinScalarDefinition::Int => coerce_integer_spec(nodes, node, path),
        BuiltinScalarDefinition::Float => coerce_float_spec(nodes, node, path),
        BuiltinScalarDefinition::Boolean => coerce_boolean_spec(nodes, node, path),
        BuiltinScalarDefinition::ID => coerce_id_spec(nodes, node, path),
    }
}

/// A result that is the one error `e`.
pub fn single_error(e: CoercionError) -> (r: Result<Coerced, Vec<CoercionError>>)
    ensures
        result_view(r) == Err::<CoercedSpec, Seq<ErrorSpec>>(seq![crate::error::error_view(e)]),
{
    let mut v: Vec<CoercionError> = Vec::new();
    v.push(e);
    assert(crate::error::errors_view(v@) =~= seq![crate::error::error_view(e)]);
    Err(v)
}

impl BaseInputTypeReference {
    pub fn coerce_string(nodes: &Vec<InputNode>, node: usize, path: &Vec<String>) -> (r: Result<Coerced, Vec<CoercionError>>)
        requires
            node < nodes@.len(),
        ensures
            result_view(r) == coerce_string_spec(nodes@, node as nat, path.deep_view()),
    {
        match &nodes[node].kind {
            NodeKind::String(_) => Ok(Coerced::Input(node)),
            _ => single_error(conversion_error(nodes[node].public_name.as_str(), "String", path)),
        }
    }

    pub fn coerce_integer(nodes: &Vec<InputNode>, node: usize, path: &Vec<String>) -> (r: Result<Coerced, Vec<CoercionError>>)
        requires
            node < nodes@.len(),
        ensures
            result_view(r) == coerce_integer_spec(nodes@, node as nat, path.deep_view()),
    {
        match &nodes[node].kind {
            NodeKind::Integer(i) => {
                if i32::MIN as i64 <= *i && *i <= i32::MAX as i64 {
                    Ok(Coerced::Input(node))
                } else {
                    single_error(integer_range_error(path))
                }
            },
            NodeKind::BigInteger => single_error(integer_range_error(path)),
            _ => single_error(conversion_error(nodes[node].public_name.as_str(), "integer", path)),
        }
    }

    pub fn coerce_float(nodes: &Vec<InputNode>, node: usize, path: &Vec<String>) -> (r: Result<Coerced, Vec<CoercionError>>)
        requires
            node < nodes@.len(),
        ensures
            result_view(r) == coerce_float_spec(nodes@, node as nat, path.deep_view()),
    {
        match &nodes[node].kind {
            NodeKind::Float => Ok(Coerced::Input(node)),
            NodeKind::Integer(_) => Self::coerce_integer(nodes, node, path),
            NodeKind::BigInteger => Self::coerce_integer(nodes, node, path),
            _ => single_error(conversion_error(nodes[node].public_name.as_str(), "Float", path)),
        }
    }

    pub fn coerce_boolean(nodes: &Vec<InputNode>, node: usize, path: &Vec<String>) -> (r: Result<Coerced, Vec<CoercionError>>)
        requires
            node < nodes@.len(),
        ensures
            result_view(r) == coerce_boolean_spec(nodes@, node as nat, path.deep_view()),
    {
        match &nodes[node].kind {
            NodeKind::Boolean(_) => Ok(Coerced::Input(node)),
            _ => single_error(conversion_error(nodes[node].public_name.as_str(), "Boolean", path)),
        }
    }

    pub fn coerce_id(nodes: &Vec<InputNode>, node: usize, path: &Vec<String>) -> (r: Result<Coerced, Vec<CoercionError>>)
        requires
            node < nodes@.len(),
        ensures
            result_view(r) == coerce_id_spec(nodes@, node as nat, path.deep_view()),
    {
        match &nodes[node].kind {
            NodeKind::String(_) => Ok(Coerced::Input(node)),
            NodeKind::Integer(_) => Self::coerce_integer(nodes, node, path),
            NodeKind::BigInteger => Self::coerce_integer(nodes, node, path),
            _ => single_error(conversion_error(nodes[node].public_name.as_str(), "ID", path)),
        }
    }
}

impl BuiltinScalarDefinition {
    /// Coerces the node at `node` to this scalar.
    pub fn coerce_input(&self, nodes: &Vec<InputNode>, node: usize, path: &Vec<String>) -> (r: Result<Coerced, Vec<CoercionError>>)
        requires
            node < nodes@.len(),
        ensures
            result_view(r) == coerce_scalar_spec(*self, nodes@, node as nat, path.deep_view()),
    {
        match self {
            BuiltinScalarDefinition::String => BaseInputTypeReference::coerce_string(nodes, node, path),
            BuiltinScalarDefinition::Int => BaseInputTypeReference::coerce_integer(nodes, node, path),
            BuiltinScalarDefinition::Float => BaseInputTypeReference::coerce_float(nodes, node, path),
            BuiltinScalarDefinition::Boolean => BaseInputTypeReference::coerce_boolean(nodes, node, path),
            BuiltinScalarDefinition::ID => BaseInputTypeReference::coerce_id(nodes, node, path),
        }
    }
}

} // verus!
