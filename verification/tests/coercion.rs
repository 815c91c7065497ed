use bluejay_rb::coerce::{CoercionStep, ExternalKind, ExternalOutcome};
use bluejay_rb::coerced::{Coerced, JsonValue};
use bluejay_rb::error::{CoercionError, index_segment};
use bluejay_rb::input_object_type_definition::InputObjectTypeDefinition;
use bluejay_rb::input_value_definition::InputValueDefinition;
use bluejay_rb::registry::InputTypeRegistry;
use bluejay_rb::type_reference::{BaseInputTypeReference, BuiltinScalarDefinition, InputTypeReference};
use bluejay_rb::value::{InputNode, InputValues, NodeKind};

fn node(values: &mut InputValues, kind: NodeKind, public_name: &str) -> usize {
    values.push(InputNode { kind, public_name: public_name.to_string(), kind_of: vec![] }).unwrap()
}

fn scalar(s: BuiltinScalarDefinition, required: bool) -> InputTypeReference {
    InputTypeReference::new(BaseInputTypeReference::BuiltinScalarType(s), required)
}

fn empty_registry() -> InputTypeRegistry {
    InputTypeRegistry::new(vec![]).unwrap()
}

fn coerce(reg: &InputTypeRegistry, t: &InputTypeReference, values: &InputValues, n: usize) -> CoercionStep {
    reg.coerce_input(t, values, n, &vec![], &vec![])
}

fn errors(step: CoercionStep) -> Vec<(String, Vec<String>)> {
    match step {
        CoercionStep::Done(Err(es)) => es.into_iter().map(|e: CoercionError| (e.message, e.path)).collect(),
        other => panic!("expected errors, got {:?}", other),
    }
}

fn input(step: CoercionStep) -> usize {
    match step {
        CoercionStep::Done(Ok(Coerced::Input(i))) => i,
        other => panic!("expected the input back, got {:?}", other),
    }
}

fn e(message: &str, path: &[&str]) -> (String, Vec<String>) {
    (message.to_string(), path.iter().map(|s| s.to_string()).collect())
}

#[test]
fn string_scalar() {
    let reg = empty_registry();
    let mut v = InputValues::new();
    let s = node(&mut v, NodeKind::String(Some("hi".to_string())), "String");
    let i = node(&mut v, NodeKind::Integer(1), "Integer");
    let t = scalar(BuiltinScalarDefinition::String, true);
    assert_eq!(input(coerce(&reg, &t, &v, s)), s);
    assert_eq!(errors(coerce(&reg, &t, &v, i)), vec![e("No implicit conversion of Integer to String", &[])]);
}

#[test]
fn int_scalar_range() {
    let reg = empty_registry();
    let mut v = InputValues::new();
    let small = node(&mut v, NodeKind::Integer(2147483647), "Integer");
    let low = node(&mut v, NodeKind::Integer(-2147483648), "Integer");
    let big = node(&mut v, NodeKind::Integer(2147483648), "Integer");
    let huge = node(&mut v, NodeKind::BigInteger, "Integer");
    let text = node(&mut v, NodeKind::String(Some("1".to_string())), "String");
    let t = scalar(BuiltinScalarDefinition::Int, false);
    assert_eq!(input(coerce(&reg, &t, &v, small)), small);
    assert_eq!(input(coerce(&reg, &t, &v, low)), low);
    assert_eq!(errors(coerce(&reg, &t, &v, big)), vec![e("Integer values must fit within 32 bits signed", &[])]);
    assert_eq!(errors(coerce(&reg, &t, &v, huge)), vec![e("Integer values must fit within 32 bits signed", &[])]);
    assert_eq!(errors(coerce(&reg, &t, &v, text)), vec![e("No implicit conversion of String to integer", &[])]);
}

#[test]
fn float_boolean_and_id_scalars() {
    let reg = empty_registry();
    let mut v = InputValues::new();
    let f = node(&mut v, NodeKind::Float, "Float");
    let i = node(&mut v, NodeKind::Integer(3), "Integer");
    let big = node(&mut v, NodeKind::Integer(1 << 40), "Integer");
    let b = node(&mut v, NodeKind::Boolean(true), "Boolean");
    let s = node(&mut v, NodeKind::String(Some("x".to_string())), "String");
    let float = scalar(BuiltinScalarDefinition::Float, false);
    let boolean = scalar(BuiltinScalarDefinition::Boolean, false);
    let id = scalar(BuiltinScalarDefinition::ID, false);
    assert_eq!(input(coerce(&reg, &float, &v, f)), f);
    assert_eq!(input(coerce(&reg, &float, &v, i)), i);
    assert_eq!(errors(coerce(&reg, &float, &v, big)), vec![e("Integer values must fit within 32 bits signed", &[])]);
    assert_eq!(errors(coerce(&reg, &float, &v, s)), vec![e("No implicit conversion of String to Float", &[])]);
    assert_eq!(input(coerce(&reg, &boolean, &v, b)), b);
    assert_eq!(errors(coerce(&reg, &boolean, &v, i)), vec![e("No implicit conversion of Integer to Boolean", &[])]);
    assert_eq!(input(coerce(&reg, &id, &v, s)), s);
    assert_eq!(input(coerce(&reg, &id, &v, i)), i);
    assert_eq!(errors(coerce(&reg, &id, &v, f)), vec![e("No implicit conversion of Float to ID", &[])]);
}

#[test]
fn null_against_required_and_optional() {
    let reg = empty_registry();
    let mut v = InputValues::new();
    let nil = node(&mut v, NodeKind::Nil, "null");
    assert_eq!(input(coerce(&reg, &scalar(BuiltinScalarDefinition::Int, false), &v, nil)), nil);
    assert_eq!(
        errors(coerce(&reg, &scalar(BuiltinScalarDefinition::Int, true), &v, nil)),
        vec![e("Got null when a non-null value was expected", &[])]
    );
    let list = InputTypeReference::list(scalar(BuiltinScalarDefinition::Int, true), true);
    assert_eq!(errors(coerce(&reg, &list, &v, nil)), vec![e("Got null when a non-null value was expected", &[])]);
}

#[test]
fn list_of_items_with_paths() {
    let reg = empty_registry();
    let mut v = InputValues::new();
    let a = node(&mut v, NodeKind::Integer(1), "Integer");
    let b = node(&mut v, NodeKind::String(Some("x".to_string())), "String");
    let c = node(&mut v, NodeKind::Nil, "null");
    let good = node(&mut v, NodeKind::Array(vec![a, a]), "Array");
    let bad = node(&mut v, NodeKind::Array(vec![a, b, c]), "Array");
    let t = InputTypeReference::list(scalar(BuiltinScalarDefinition::Int, true), false);
    match coerce(&reg, &t, &v, good) {
        CoercionStep::Done(Ok(Coerced::List(items))) => {
            assert_eq!(items.len(), 2);
            assert!(matches!(items[0], Coerced::Input(0)));
            assert!(matches!(items[1], Coerced::Input(0)));
        },
        other => panic!("unexpected {:?}", other),
    }
    assert_eq!(
        errors(reg.coerce_input(&t, &v, bad, &vec!["arg".to_string()], &vec![])),
        vec![
            e("No implicit conversion of String to integer", &["arg", "1"]),
            e("Got null when a non-null value was expected", &["arg", "2"]),
        ]
    );
}

#[test]
fn single_value_coerced_to_list() {
    let reg = empty_registry();
    let mut v = InputValues::new();
    let a = node(&mut v, NodeKind::Integer(5), "Integer");
    let t = InputTypeReference::list(scalar(BuiltinScalarDefinition::Int, true), false);
    match coerce(&reg, &t, &v, a) {
        CoercionStep::Done(Ok(Coerced::List(items))) => {
            assert_eq!(items.len(), 1);
            assert!(matches!(items[0], Coerced::Input(0)));
        },
        other => panic!("unexpected {:?}", other),
    }
    let s = node(&mut v, NodeKind::String(Some("no".to_string())), "String");
    assert_eq!(errors(coerce(&reg, &t, &v, s)), vec![e("No implicit conversion of String to integer", &[])]);
}

#[test]
fn index_segments_are_decimal() {
    assert_eq!(index_segment(0), "0");
    assert_eq!(index_segment(7), "7");
    assert_eq!(index_segment(10), "10");
    assert_eq!(index_segment(4096), "4096");
}

fn point_registry() -> InputTypeRegistry {
    let point = InputObjectTypeDefinition::new(
        "Point".to_string(),
        vec![
            InputValueDefinition::new("x".to_string(), scalar(BuiltinScalarDefinition::Int, true), None, None),
            InputValueDefinition::new(
                "y".to_string(),
                scalar(BuiltinScalarDefinition::Int, true),
                None,
                Some(JsonValue { handle: 9 }),
            ),
            InputValueDefinition::new("label".to_string(), scalar(BuiltinScalarDefinition::String, false), None, None),
        ],
        None,
        42,
    );
    InputTypeRegistry::new(vec![point]).unwrap()
}

fn key(v: &mut InputValues, name: &str) -> usize {
    node(v, NodeKind::String(Some(name.to_string())), "String")
}

#[test]
fn input_object_builds_instance() {
    let reg = point_registry();
    let mut v = InputValues::new();
    let kx = key(&mut v, "x");
    let one = node(&mut v, NodeKind::Integer(1), "Integer");
    let h = node(&mut v, NodeKind::Hash(vec![(kx, one)], false), "Hash");
    match reg.coerce_input_object(0, &v, h, &vec![], &vec![]) {
        CoercionStep::Done(Ok(Coerced::Instance(class, args))) => {
            assert_eq!(class, 42);
            assert_eq!(args.len(), 3);
            assert!(matches!(args[0], Coerced::Input(1)));
            assert!(matches!(args[1], Coerced::Default(JsonValue { handle: 9 })));
            assert!(matches!(args[2], Coerced::Null));
        },
        other => panic!("unexpected {:?}", other),
    }
}

#[test]
fn input_object_reports_missing_and_unknown_fields() {
    let reg = point_registry();
    let mut v = InputValues::new();
    let kz = key(&mut v, "z");
    let ky = key(&mut v, "y");
    let s = node(&mut v, NodeKind::String(Some("a".to_string())), "String");
    let h = node(&mut v, NodeKind::Hash(vec![(kz, s), (ky, s)], false), "Hash");
    assert_eq!(
        errors(reg.coerce_input_object(0, &v, h, &vec!["p".to_string()], &vec![])),
        vec![
            e("No value for required field x", &["p"]),
            e("No implicit conversion of String to integer", &["p", "y"]),
            e("No field named `z` on Point", &["p"]),
        ]
    );
}

#[test]
fn input_object_non_string_key_raises() {
    let reg = point_registry();
    let mut v = InputValues::new();
    let kx = key(&mut v, "x");
    let one = node(&mut v, NodeKind::Integer(1), "Integer");
    let sym = node(&mut v, NodeKind::Object(None), "Symbol");
    let h = node(&mut v, NodeKind::Hash(vec![(kx, one), (sym, one)], false), "Hash");
    assert!(matches!(reg.coerce_input_object(0, &v, h, &vec![], &vec![]), CoercionStep::NonStringKey(2)));
}

fn node_of(values: &mut InputValues, kind: NodeKind, public_name: &str, kind_of: Vec<u64>) -> usize {
    values.push(InputNode { kind, public_name: public_name.to_string(), kind_of }).unwrap()
}

#[test]
fn input_object_passes_instances_and_rejects_others() {
    let reg = point_registry();
    let mut v = InputValues::new();
    let inst = node_of(&mut v, NodeKind::Object(None), "Point", vec![5, 42]);
    let other = node_of(&mut v, NodeKind::Object(None), "Foo", vec![5]);
    let arr = node(&mut v, NodeKind::Array(vec![]), "Array");
    assert_eq!(input(reg.coerce_input_object(0, &v, inst, &vec![], &vec![])), inst);
    assert_eq!(
        errors(reg.coerce_input_object(0, &v, other, &vec![], &vec![])),
        vec![e("No implicit conversion of Foo to Point", &[])]
    );
    assert_eq!(
        errors(reg.coerce_input_object(0, &v, arr, &vec![], &vec![])),
        vec![e("No implicit conversion of Array to Point", &[])]
    );
    let nil = node(&mut v, NodeKind::Nil, "null");
    assert_eq!(
        errors(reg.coerce_input_object(0, &v, nil, &vec![], &vec![])),
        vec![e("No implicit conversion of null to Point", &[])]
    );
    let t = InputTypeReference::new(BaseInputTypeReference::InputObjectType(0), false);
    assert_eq!(input(reg.coerce_input(&t, &v, nil, &vec![], &vec![])), nil);
}

#[test]
fn non_hash_values_of_the_class_pass() {
    let reg = point_registry();
    let mut v = InputValues::new();
    let s = node_of(&mut v, NodeKind::String(Some("p".to_string())), "PointString", vec![42]);
    let a = node_of(&mut v, NodeKind::Array(vec![]), "PointList", vec![42]);
    assert_eq!(input(reg.coerce_input_object(0, &v, s, &vec![], &vec![])), s);
    assert_eq!(input(reg.coerce_input_object(0, &v, a, &vec![], &vec![])), a);
}

#[test]
fn keys_that_convert_to_strings() {
    let reg = point_registry();
    let mut v = InputValues::new();
    let kx = node(&mut v, NodeKind::Object(Some("x".to_string())), "Key");
    let kq = node(&mut v, NodeKind::Object(Some("q".to_string())), "Key");
    let one = node(&mut v, NodeKind::Integer(1), "Integer");
    let h = node(&mut v, NodeKind::Hash(vec![(kx, one), (kq, one)], false), "Hash");
    assert_eq!(
        errors(reg.coerce_input_object(0, &v, h, &vec![], &vec![])),
        vec![e("No value for required field x", &[]), e("No field named `q` on Point", &[])]
    );
}

#[test]
fn identity_hash_finds_no_field() {
    let reg = point_registry();
    let mut v = InputValues::new();
    let kx = key(&mut v, "x");
    let one = node(&mut v, NodeKind::Integer(1), "Integer");
    let h = node(&mut v, NodeKind::Hash(vec![(kx, one)], true), "Hash");
    assert_eq!(errors(reg.coerce_input_object(0, &v, h, &vec![], &vec![])), vec![e("No value for required field x", &[])]);
}

fn enum_list_type() -> InputTypeReference {
    InputTypeReference::list(InputTypeReference::new(BaseInputTypeReference::EnumType(3), true), true)
}

#[test]
fn outside_coercions_are_requested_in_order() {
    let reg = empty_registry();
    let mut v = InputValues::new();
    let a = node(&mut v, NodeKind::String(Some("RED".to_string())), "String");
    let b = node(&mut v, NodeKind::String(Some("BLUE".to_string())), "String");
    let arr = node(&mut v, NodeKind::Array(vec![a, b]), "Array");
    let t = enum_list_type();
    match reg.coerce_input(&t, &v, arr, &vec![], &vec![]) {
        CoercionStep::Needs(req) => {
            assert_eq!(req.kind, ExternalKind::EnumType);
            assert_eq!(req.type_index, 3);
            assert_eq!(req.node, a);
            assert_eq!(req.path, vec!["0".to_string()]);
        },
        other => panic!("unexpected {:?}", other),
    }
    match reg.coerce_input(&t, &v, arr, &vec![], &vec![ExternalOutcome::Accepted]) {
        CoercionStep::Needs(req) => {
            assert_eq!(req.node, b);
            assert_eq!(req.path, vec!["1".to_string()]);
        },
        other => panic!("unexpected {:?}", other),
    }
    match reg.coerce_input(&t, &v, arr, &vec![], &vec![ExternalOutcome::Accepted, ExternalOutcome::Accepted]) {
        CoercionStep::Done(Ok(Coerced::List(items))) => {
            assert_eq!(items.len(), 2);
            assert!(matches!(items[0], Coerced::External(0)));
            assert!(matches!(items[1], Coerced::External(1)));
        },
        other => panic!("unexpected {:?}", other),
    }
}

#[test]
fn rejected_outside_coercion_reports_its_errors() {
    let reg = empty_registry();
    let mut v = InputValues::new();
    let a = node(&mut v, NodeKind::String(Some("RED".to_string())), "String");
    let b = node(&mut v, NodeKind::String(Some("PINK".to_string())), "String");
    let arr = node(&mut v, NodeKind::Array(vec![a, b]), "Array");
    let rejection = ExternalOutcome::Rejected(vec![CoercionError::new(
        "No member `PINK`".to_string(),
        vec!["1".to_string()],
    )]);
    let outs = vec![ExternalOutcome::Accepted, rejection];
    assert_eq!(errors(reg.coerce_input(&enum_list_type(), &v, arr, &vec![], &outs)), vec![e("No member `PINK`", &["1"])]);
}

#[test]
fn more_outcomes_change_nothing_once_done() {
    let reg = empty_registry();
    let mut v = InputValues::new();
    let a = node(&mut v, NodeKind::String(Some("RED".to_string())), "String");
    let t = InputTypeReference::new(BaseInputTypeReference::CustomScalarType(0), true);
    let one = vec![ExternalOutcome::Accepted];
    let two = vec![ExternalOutcome::Accepted, ExternalOutcome::Rejected(vec![])];
    assert!(matches!(reg.coerce_input(&t, &v, a, &vec![], &one), CoercionStep::Done(Ok(Coerced::External(0)))));
    assert!(matches!(reg.coerce_input(&t, &v, a, &vec![], &two), CoercionStep::Done(Ok(Coerced::External(0)))));
}

#[test]
fn nested_object_paths() {
    let inner = InputObjectTypeDefinition::new(
        "Inner".to_string(),
        vec![InputValueDefinition::new("n".to_string(), scalar(BuiltinScalarDefinition::Int, true), None, None)],
        None,
        2,
    );
    let outer = InputObjectTypeDefinition::new(
        "Outer".to_string(),
        vec![InputValueDefinition::new(
            "items".to_string(),
            InputTypeReference::list(InputTypeReference::new(BaseInputTypeReference::InputObjectType(0), true), true),
            None,
            None,
        )],
        None,
        3,
    );
    let reg = InputTypeRegistry::new(vec![inner, outer]).unwrap();
    let mut v = InputValues::new();
    let kn = key(&mut v, "n");
    let s = node(&mut v, NodeKind::String(Some("x".to_string())), "String");
    let h0 = node(&mut v, NodeKind::Hash(vec![], false), "Hash");
    let h1 = node(&mut v, NodeKind::Hash(vec![(kn, s)], false), "Hash");
    let arr = node(&mut v, NodeKind::Array(vec![h0, h1]), "Array");
    let kitems = key(&mut v, "items");
    let top = node(&mut v, NodeKind::Hash(vec![(kitems, arr)], false), "Hash");
    assert_eq!(
        errors(reg.coerce_input_object(1, &v, top, &vec![], &vec![])),
        vec![
            e("No value for required field n", &["items", "0"]),
            e("No implicit conversion of String to integer", &["items", "1", "n"]),
        ]
    );
}

#[test]
fn base_type_has_no_null_rule() {
    let reg = point_registry();
    let mut v = InputValues::new();
    let nil = node(&mut v, NodeKind::Nil, "NilClass");
    let path = vec!["a".to_string()];
    match BaseInputTypeReference::EnumType(3).coerce_input(&reg, &v, nil, &path, &vec![]) {
        CoercionStep::Needs(req) => {
            assert_eq!(req.kind, ExternalKind::EnumType);
            assert_eq!(req.type_index, 3);
            assert_eq!(req.node, nil);
            assert_eq!(req.path, path);
        },
        other => panic!("unexpected {:?}", other),
    }
    let custom = BaseInputTypeReference::CustomScalarType(1);
    assert!(matches!(
        custom.coerce_input(&reg, &v, nil, &path, &vec![ExternalOutcome::Accepted]),
        CoercionStep::Done(Ok(Coerced::External(0)))
    ));
    let string = BaseInputTypeReference::BuiltinScalarType(BuiltinScalarDefinition::String);
    assert_eq!(
        errors(string.coerce_input(&reg, &v, nil, &path, &vec![])),
        vec![e("No implicit conversion of NilClass to String", &["a"])]
    );
    assert_eq!(
        errors(BaseInputTypeReference::InputObjectType(0).coerce_input(&reg, &v, nil, &path, &vec![])),
        vec![e("No implicit conversion of NilClass to Point", &["a"])]
    );
}

#[test]
fn input_value_definition_coerces_by_its_type() {
    let reg = empty_registry();
    let mut v = InputValues::new();
    let nil = node(&mut v, NodeKind::Nil, "NilClass");
    let text = node(&mut v, NodeKind::String(Some("x".to_string())), "String");
    let path = vec!["p".to_string()];
    let optional = InputValueDefinition::new(
        "count".to_string(),
        scalar(BuiltinScalarDefinition::Int, false),
        None,
        Some(JsonValue { handle: 4 }),
    );
    assert_eq!(input(optional.coerce_input(&reg, &v, nil, &path, &vec![])), nil);
    assert_eq!(
        errors(optional.coerce_input(&reg, &v, text, &path, &vec![])),
        vec![e("No implicit conversion of String to integer", &["p"])]
    );
    let required = InputValueDefinition::new("count".to_string(), scalar(BuiltinScalarDefinition::Int, true), None, None);
    assert_eq!(
        errors(required.coerce_input(&reg, &v, nil, &path, &vec![])),
        vec![e("Got null when a non-null value was expected", &["p"])]
    );
}

#[test]
fn object_walk_stops_at_first_request() {
    let colour = InputObjectTypeDefinition::new(
        "Colours".to_string(),
        vec![
            InputValueDefinition::new(
                "first".to_string(),
                InputTypeReference::new(BaseInputTypeReference::EnumType(0), true),
                None,
                None,
            ),
            InputValueDefinition::new(
                "second".to_string(),
                InputTypeReference::new(BaseInputTypeReference::EnumType(0), true),
                None,
                None,
            ),
        ],
        None,
        7,
    );
    let reg = InputTypeRegistry::new(vec![colour]).unwrap();
    let mut v = InputValues::new();
    let k1 = key(&mut v, "first");
    let k2 = key(&mut v, "second");
    let red = node(&mut v, NodeKind::String(Some("RED".to_string())), "String");
    let pink = node(&mut v, NodeKind::String(Some("PINK".to_string())), "String");
    let h = node(&mut v, NodeKind::Hash(vec![(k2, pink), (k1, red)], false), "Hash");
    match reg.coerce_input_object(0, &v, h, &vec![], &vec![]) {
        CoercionStep::Needs(req) => {
            assert_eq!(req.node, red);
            assert_eq!(req.path, vec!["first".to_string()]);
        },
        other => panic!("unexpected {:?}", other),
    }
    let rejected = ExternalOutcome::Rejected(vec![CoercionError::new("bad".to_string(), vec!["first".to_string()])]);
    match reg.coerce_input_object(0, &v, h, &vec![], &vec![rejected]) {
        CoercionStep::Needs(req) => {
            assert_eq!(req.node, pink);
            assert_eq!(req.path, vec!["second".to_string()]);
        },
        other => panic!("unexpected {:?}", other),
    }
}

#[test]
fn strings_that_are_not_utf8_text() {
    let reg = point_registry();
    let mut v = InputValues::new();
    let raw = node(&mut v, NodeKind::String(None), "String");
    assert_eq!(input(coerce(&reg, &scalar(BuiltinScalarDefinition::String, true), &v, raw)), raw);
    assert_eq!(input(coerce(&reg, &scalar(BuiltinScalarDefinition::ID, true), &v, raw)), raw);
    let kx = key(&mut v, "x");
    let one = node(&mut v, NodeKind::Integer(1), "Integer");
    let h = node(&mut v, NodeKind::Hash(vec![(kx, one), (raw, one)], false), "Hash");
    assert!(matches!(reg.coerce_input_object(0, &v, h, &vec![], &vec![]), CoercionStep::NonStringKey(0)));
}
