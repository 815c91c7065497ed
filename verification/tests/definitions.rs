use bluejay_rb::coerced::JsonValue;
use bluejay_rb::field_definition::{
    ArgumentsDefinition, BaseOutputTypeReference, FieldDefinition, OutputTypeReference,
    resolver_method_name,
};
use bluejay_rb::input_object_type_definition::InputObjectTypeDefinition;
use bluejay_rb::input_value_definition::InputValueDefinition;
use bluejay_rb::registry::InputTypeRegistry;
use bluejay_rb::type_reference::{
    BaseInputTypeReference, BuiltinScalarDefinition, InputTypeReference, ParsedTypeReference,
};
use bluejay_rb::value::{InputNode, InputValues, NodeKind};

fn string_type(required: bool) -> InputTypeReference {
    InputTypeReference::new(
        BaseInputTypeReference::BuiltinScalarType(BuiltinScalarDefinition::String),
        required,
    )
}

#[test]
fn field_definition_resolver_is_snake_case() {
    let fd = FieldDefinition::new(
        "myFieldName".to_string(),
        OutputTypeReference::Base(
            BaseOutputTypeReference::BuiltinScalar(BuiltinScalarDefinition::Int),
            false,
        ),
        None,
        Some(Some("a field".to_string())),
    );
    assert_eq!(fd.name(), "myFieldName");
    assert_eq!(fd.ruby_resolver_method_name(), "resolve_my_field_name");
    assert_eq!(fd.description(), Some("a field"));
    assert_eq!(fd.argument_definitions().definitions().len(), 0);
    assert!(!fd.is_builtin());
}

#[test]
fn field_definition_without_description() {
    let fd = FieldDefinition::new(
        "id".to_string(),
        OutputTypeReference::Base(BaseOutputTypeReference::BuiltinScalar(BuiltinScalarDefinition::ID), true),
        Some(ArgumentsDefinition::new(vec![InputValueDefinition::new(
            "first".to_string(),
            string_type(false),
            None,
            None,
        )])),
        Some(None),
    );
    assert_eq!(fd.description(), None);
    assert_eq!(fd.argument_definitions().definitions().len(), 1);
    assert_eq!(fd.ruby_resolver_method_name(), "resolve_id");
}

#[test]
fn resolver_method_name_prefixes() {
    assert_eq!(resolver_method_name("user_name"), "resolve_user_name");
    assert_eq!(resolver_method_name(""), "resolve_");
}

#[test]
fn typename_field() {
    let fd = FieldDefinition::typename();
    assert_eq!(fd.name(), "__typename");
    assert_eq!(fd.ruby_resolver_method_name(), "resolve_typename");
    assert_eq!(fd.description(), None);
    assert!(fd.is_builtin());
    assert_eq!(fd.argument_definitions().definitions().len(), 0);
    match fd.type_reference() {
        OutputTypeReference::Base(BaseOutputTypeReference::BuiltinScalar(BuiltinScalarDefinition::String), true) => {},
        other => panic!("unexpected type {:?}", other),
    }
}

#[test]
fn input_value_definition_ruby_name_and_required() {
    let ivd = InputValueDefinition::new("firstName".to_string(), string_type(true), Some(Some("d".to_string())), None);
    assert_eq!(ivd.name(), "firstName");
    assert_eq!(ivd.ruby_name(), "first_name");
    assert_eq!(ivd.description(), Some("d"));
    assert!(ivd.is_required());
    let with_default = InputValueDefinition::new(
        "lastName".to_string(),
        string_type(true),
        None,
        Some(JsonValue { handle: 3 }),
    );
    assert!(!with_default.is_required());
    assert_eq!(with_default.default_value(), Some(JsonValue { handle: 3 }));
    let optional = InputValueDefinition::new("x".to_string(), string_type(false), None, None);
    assert!(!optional.is_required());
}

#[test]
fn input_type_reference_base_and_required() {
    let inner = string_type(true);
    let list = InputTypeReference::list(inner, false);
    assert!(!list.is_required());
    assert_eq!(
        *list.base(),
        BaseInputTypeReference::BuiltinScalarType(BuiltinScalarDefinition::String)
    );
}

#[test]
fn from_parser_type_reference_keeps_shape() {
    let shape = ParsedTypeReference::ListType(Box::new(ParsedTypeReference::NamedType(true)), false);
    let t = InputTypeReference::from_parser_type_reference(&shape, BaseInputTypeReference::EnumType(4));
    assert!(!t.is_required());
    assert_eq!(*t.base(), BaseInputTypeReference::EnumType(4));
    match t {
        InputTypeReference::List(inner, false) => assert!(inner.is_required()),
        other => panic!("unexpected {:?}", other),
    }
}

#[test]
fn input_object_type_definition_getters() {
    let obj = InputObjectTypeDefinition::new(
        "Point".to_string(),
        vec![
            InputValueDefinition::new("x".to_string(), string_type(true), None, None),
            InputValueDefinition::new("y".to_string(), string_type(true), None, None),
        ],
        None,
        7,
    );
    assert_eq!(obj.name(), "Point");
    assert_eq!(obj.description(), None);
    assert_eq!(obj.ruby_class(), 7);
    assert_eq!(obj.input_field_definitions().len(), 2);
    assert!(obj.has_field("y"));
    assert!(!obj.has_field("z"));
}

#[test]
fn registry_rejects_dangling_reference() {
    let obj = InputObjectTypeDefinition::new(
        "A".to_string(),
        vec![InputValueDefinition::new(
            "b".to_string(),
            InputTypeReference::new(BaseInputTypeReference::InputObjectType(1), false),
            None,
            None,
        )],
        None,
        1,
    );
    assert!(InputTypeRegistry::new(vec![obj]).is_none());
    let obj = InputObjectTypeDefinition::new(
        "A".to_string(),
        vec![InputValueDefinition::new(
            "a".to_string(),
            InputTypeReference::list(
                InputTypeReference::new(BaseInputTypeReference::InputObjectType(0), false),
                false,
            ),
            None,
            None,
        )],
        None,
        1,
    );
    let reg = InputTypeRegistry::new(vec![obj]).unwrap();
    assert_eq!(reg.len(), 1);
}

#[test]
fn values_refuse_forward_references() {
    let mut values = InputValues::new();
    let a = values.push(InputNode { kind: NodeKind::Integer(1), public_name: "Integer".to_string(), kind_of: vec![] });
    assert_eq!(a, Some(0));
    let bad = values.push(InputNode { kind: NodeKind::Array(vec![0, 1]), public_name: "Array".to_string(), kind_of: vec![] });
    assert_eq!(bad, None);
    assert_eq!(values.len(), 1);
    let good = values.push(InputNode { kind: NodeKind::Array(vec![0, 0]), public_name: "Array".to_string(), kind_of: vec![] });
    assert_eq!(good, Some(1));
    let bad_hash = values.push(InputNode { kind: NodeKind::Hash(vec![(0, 5)], false), public_name: "Hash".to_string(), kind_of: vec![] });
    assert_eq!(bad_hash, None);
    assert_eq!(values.len(), 2);
}
