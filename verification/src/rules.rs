//! Each coercion rule stated directly over the inputs: which values a rule
//! accepts, what it gives for them, and the exact error for the others.
use vstd::prelude::*;
use crate::coerce::{
    Ctx, ExternalKind, ExternalOutcome, RequestSpec, StepSpec, coerce_spec, find_entry, hash_entries,
    lookup_field, node_kind, object_spec, unknown_key_errors,
};
use crate::coerced::CoercedSpec;
use crate::error::{ErrorSpec, decimal, digit_char, errors_view};
use crate::field_definition::resolver_name_spec;
use crate::registry::{registry_ok, type_ok};
use crate::input_object_type_definition::InputObjectTypeDefinition;
use crate::input_value_definition::InputValueDefinition;
use crate::type_reference::{
    BaseInputTypeReference, BuiltinScalarDefinition, InputTypeReference, coerce_scalar_spec, type_base, type_required,
};
use crate::value::{InputNode, NodeKind};

verus! {

/// `String` accepts exactly the strings, whatever their bytes, and gives
/// them back; any other value fails with the one error that it does not
/// convert to `String`.
pub proof fn law_string_scalar(nodes: Seq<InputNode>, node: nat, path: Seq<Seq<char>>)
    ensures
        coerce_scalar_spec(BuiltinScalarDefinition::String, nodes, node, path) == (if nodes[node as int].kind is String {
            Ok(CoercedSpec::Input(node))
        } else {
            Err(seq![ErrorSpec {
                message: "No implicit conversion of "@ + nodes[node as int].public_name@ + " to "@ + "String"@,
                path,
            }])
        }),
{
}

/// `Boolean` accepts exactly `true` and `false`, and gives them back; any
/// other value fails with the one error that it does not convert to
/// `Boolean`.
pub proof fn law_boolean_scalar(nodes: Seq<InputNode>, node: nat, path: Seq<Seq<char>>)
    ensures
        coerce_scalar_spec(BuiltinScalarDefinition::Boolean, nodes, node, path) == (if nodes[node as int].kind is Boolean {
            Ok(CoercedSpec::Input(node))
        } else {
            Err(seq![ErrorSpec {
                message: "No implicit conversion of "@ + nodes[node as int].public_name@ + " to "@ + "Boolean"@,
                path,
            }])
        }),
{
}

/// `Int` accepts exactly the integers of the 32-bit signed range, and
/// gives them back; a larger integer fails with the range error, and any
/// other value with the error that it does not convert to an integer.
pub proof fn law_int_scalar(nodes: Seq<InputNode>, node: nat, path: Seq<Seq<char>>)
    ensures
        coerce_scalar_spec(BuiltinScalarDefinition::Int, nodes, node, path) == (match nodes[node as int].kind {
            NodeKind::Integer(i) => if -2147483648 <= i <= 2147483647 {
                Ok(CoercedSpec::Input(node))
            } else {
                Err(seq![ErrorSpec { message: "Integer values must fit within 32 bits signed"@, path }])
            },
            NodeKind::BigInteger => Err(seq![ErrorSpec { message: "Integer values must fit within 32 bits signed"@, path }]),
            _ => Err(seq![ErrorSpec {
                message: "No implicit conversion of "@ + nodes[node as int].public_name@ + " to "@ + "integer"@,
                path,
            }]),
        }),
{
}

/// `Float` accepts the floats and gives them back, takes an integer as
/// `Int` does, and fails on any other value with the error that it does
/// not convert to `Float`.
pub proof fn law_float_scalar(nodes: Seq<InputNode>, node: nat, path: Seq<Seq<char>>)
    ensures
        coerce_scalar_spec(BuiltinScalarDefinition::Float, nodes, node, path) == (match nodes[node as int].kind {
            NodeKind::Float => Ok(CoercedSpec::Input(node)),
            NodeKind::Integer(_) => coerce_scalar_spec(BuiltinScalarDefinition::Int, nodes, node, path),
            NodeKind::BigInteger => coerce_scalar_spec(BuiltinScalarDefinition::Int, nodes, node, path),
            _ => Err(seq![ErrorSpec {
                message: "No implicit conversion of "@ + nodes[node as int].public_name@ + " to "@ + "Float"@,
                path,
            }]),
        }),
{
}

/// `ID` accepts the strings and gives them back, takes an integer as `Int`
/// does, and fails on any other value with the error that it does not
/// convert to `ID`.
pub proof fn law_id_scalar(nodes: Seq<InputNode>, node: nat, path: Seq<Seq<char>>)
    ensures
        coerce_scalar_spec(BuiltinScalarDefinition::ID, nodes, node, path) == (match nodes[node as int].kind {
            NodeKind::String(_) => Ok(CoercedSpec::Input(node)),
            NodeKind::Integer(_) => coerce_scalar_spec(BuiltinScalarDefinition::Int, nodes, node, path),
            NodeKind::BigInteger => coerce_scalar_spec(BuiltinScalarDefinition::Int, nodes, node, path),
            _ => Err(seq![ErrorSpec {
                message: "No implicit conversion of "@ + nodes[node as int].public_name@ + " to "@ + "ID"@,
                path,
            }]),
        }),
{
}

/// `nil` against any type reference: it is given back when the outermost
/// type is nullable, and fails with the one non-null error otherwise; no
/// outcome is used.
pub proof fn law_nil_against_a_reference(cx: Ctx, t: InputTypeReference, node: nat, path: Seq<Seq<char>>, k: nat)
    requires
        node_kind(cx, node) is Nil,
    ensures
        coerce_spec(cx, t, node, path, k) == (if (match t {
            InputTypeReference::Base(_, r) => r,
            InputTypeReference::List(_, r) => r,
        }) {
            (StepSpec::Done(Err(seq![ErrorSpec { message: "Got null when a non-null value was expected"@, path }])), k)
        } else {
            (StepSpec::Done(Ok(CoercedSpec::Input(node))), k)
        }),
{
}

/// A non-null value that is not an array, against a list type: it is
/// coerced to the item type at the same path, and a value `c` that this
/// gives becomes the list holding `c` alone; anything else that it gives
/// (errors, a request, a raised error) is the list's result too.
pub proof fn law_single_value_becomes_a_list(
    cx: Ctx,
    inner: InputTypeReference,
    required: bool,
    node: nat,
    path: Seq<Seq<char>>,
    k: nat,
)
    requires
        !(node_kind(cx, node) is Nil),
        !(node_kind(cx, node) is Array),
    ensures
        coerce_spec(cx, InputTypeReference::List(Box::new(inner), required), node, path, k) == (match coerce_spec(
            cx,
            inner,
            node,
            path,
            k,
        ) {
            (StepSpec::Done(Ok(c)), k2) => (StepSpec::Done(Ok(CoercedSpec::List(seq![c]))), k2),
            other => other,
        }),
{
}

/// A non-null value against an enum or custom scalar type: with an
/// outcome left at `k`, an acceptance gives the value that Ruby produced
/// for it (the `k`-th) and a rejection gives its errors, each using that
/// one outcome; with none left, the step asks for the coercion by that
/// very type (its kind and index), of this value at this path.
pub proof fn law_outside_types(
    cx: Ctx,
    b: BaseInputTypeReference,
    required: bool,
    node: nat,
    path: Seq<Seq<char>>,
    k: nat,
)
    requires
        !(node_kind(cx, node) is Nil),
        b is EnumType || b is CustomScalarType,
    ensures
        coerce_spec(cx, InputTypeReference::Base(b, required), node, path, k) == (if k < cx.outs.len() {
            match cx.outs[k as int] {
                ExternalOutcome::Accepted => (StepSpec::Done(Ok(CoercedSpec::External(k))), k + 1),
                ExternalOutcome::Rejected(es) => (StepSpec::Done(Err(errors_view(es@))), k + 1),
            }
        } else {
            (StepSpec::Needs(RequestSpec {
                kind: if b is EnumType { ExternalKind::EnumType } else { ExternalKind::CustomScalarType },
                type_index: (match b {
                    BaseInputTypeReference::EnumType(i) => i,
                    BaseInputTypeReference::CustomScalarType(i) => i,
                    _ => 0,
                }) as nat,
                node,
                path,
            }), k)
        }),
{
}

/// A value that is not a hash, against an input object type: it is given
/// back when it is already an instance of the type's Ruby class, and fails
/// with the one error that it does not convert to the type otherwise.
pub proof fn law_object_of_a_non_hash(cx: Ctx, i: nat, node: nat, path: Seq<Seq<char>>, k: nat)
    requires
        !(node_kind(cx, node) is Hash),
    ensures
        object_spec(cx, i, node, path, k) == (if cx.nodes[node as int].kind_of@.contains(cx.objs[i as int].ruby_class_spec()) {
            (StepSpec::Done(Ok(CoercedSpec::Input(node))), k)
        } else {
            (StepSpec::Done(Err(seq![ErrorSpec {
                message: "No implicit conversion of "@ + cx.nodes[node as int].public_name@ + " to "@
                    + cx.objs[i as int].name_spec(),
                path,
            }])), k)
        }),
{
}

/// An input object type knows a name exactly when one of its fields has
/// that GraphQL name (not the Ruby name of a field).
pub proof fn law_known_names(obj: InputObjectTypeDefinition, name: Seq<char>)
    ensures
        obj.has_field_named(name)
            <==> exists|j: int| 0 <= j < obj.fields_spec().len() && obj.fields_spec()[j].name_spec() == name,
        forall|j: int| 0 <= j < obj.fields_spec().len() ==> obj.has_field_named(#[trigger] obj.fields_spec()[j].name_spec()),
{
    assert forall|j: int| 0 <= j < obj.fields_spec().len() implies obj.has_field_named(
        #[trigger] obj.fields_spec()[j].name_spec(),
    ) by {
        assert(obj.fields_spec()[j].name_spec() == obj.fields_spec()[j].name_spec());
    }
}

/// The keys of a hash are checked one by one, in order: a key that is a
/// string (or converts to one) naming no field of the type adds the error
/// that the type has no field of that name; any other key adds nothing.
pub proof fn law_unknown_keys_step(
    nodes: Seq<InputNode>,
    entries: Seq<(usize, usize)>,
    obj: InputObjectTypeDefinition,
    path: Seq<Seq<char>>,
    n: nat,
)
    requires
        n < entries.len(),
    ensures
        unknown_key_errors(nodes, entries, obj, path, n + 1) == (match nodes[entries[n as int].0 as int].kind {
            NodeKind::String(Some(s)) => if exists|j: int| 0 <= j < obj.fields_spec().len() && obj.fields_spec()[j].name_spec() == s@ {
                unknown_key_errors(nodes, entries, obj, path, n)
            } else {
                unknown_key_errors(nodes, entries, obj, path, n).push(ErrorSpec {
                    message: "No field named `"@ + s@ + "` on "@ + obj.name_spec(),
                    path,
                })
            },
            NodeKind::Object(Some(s)) => if exists|j: int| 0 <= j < obj.fields_spec().len() && obj.fields_spec()[j].name_spec() == s@ {
                unknown_key_errors(nodes, entries, obj, path, n)
            } else {
                unknown_key_errors(nodes, entries, obj, path, n).push(ErrorSpec {
                    message: "No field named `"@ + s@ + "` on "@ + obj.name_spec(),
                    path,
                })
            },
            _ => unknown_key_errors(nodes, entries, obj, path, n),
        }),
        unknown_key_errors(nodes, entries, obj, path, 0) == Seq::<ErrorSpec>::empty(),
{
}

/// Looking a field name up in a hash finds the first entry whose key is a
/// string with exactly that text; a hash that compares its keys by
/// identity finds none, and so does a value that is not a hash.
pub proof fn law_field_lookup(cx: Ctx, node: nat, name: Seq<char>)
    ensures
        lookup_field(cx, node, name) matches Some(e) ==> {
            &&& node_kind(cx, node) matches NodeKind::Hash(_, by_identity) && !by_identity
            &&& 0 <= e < hash_entries(cx, node).len()
            &&& cx.nodes[hash_entries(cx, node)[e].0 as int].kind matches NodeKind::String(Some(s)) && s@ == name
            &&& forall|m: int| 0 <= m < e ==> !(#[trigger] cx.nodes[hash_entries(cx, node)[m].0 as int].kind matches NodeKind::String(Some(s)) && s@ == name)
        },
        lookup_field(cx, node, name) is None ==> (
            !(node_kind(cx, node) matches NodeKind::Hash(_, by_identity) && !by_identity)
            || forall|m: int| 0 <= m < hash_entries(cx, node).len()
                ==> !(#[trigger] cx.nodes[hash_entries(cx, node)[m].0 as int].kind matches NodeKind::String(Some(s)) && s@ == name)
        ),
{
    match node_kind(cx, node) {
        NodeKind::Hash(entries, by_identity) => {
            if !by_identity {
                find_entry_facts(cx.nodes, entries@, name, 0);
            }
        },
        _ => {},
    }
}

proof fn find_entry_facts(nodes: Seq<InputNode>, entries: Seq<(usize, usize)>, name: Seq<char>, j: int)
    requires
        0 <= j,
    ensures
        find_entry(nodes, entries, name, j) matches Some(e) ==> {
            &&& j <= e < entries.len()
            &&& nodes[entries[e].0 as int].kind matches NodeKind::String(Some(s)) && s@ == name
            &&& forall|m: int| j <= m < e ==> !(#[trigger] nodes[entries[m].0 as int].kind matches NodeKind::String(Some(s)) && s@ == name)
        },
        find_entry(nodes, entries, name, j) is None ==> forall|m: int| j <= m < entries.len()
            ==> !(#[trigger] nodes[entries[m].0 as int].kind matches NodeKind::String(Some(s)) && s@ == name),
    decreases entries.len() - j,
{
    if j < entries.len() {
        find_entry_facts(nodes, entries, name, j + 1);
    }
}

/// An input value is required exactly when it has no default value and
/// its type is non-null: a value with a default is never required.
pub proof fn law_required(ivd: InputValueDefinition)
    ensures
        ivd.default_spec() is Some ==> !ivd.required_spec(),
        ivd.required_spec() <==> (ivd.default_spec() is None && (match ivd.type_spec() {
            InputTypeReference::Base(_, r) => r,
            InputTypeReference::List(_, r) => r,
        })),
{
}

/// A type reference is required exactly when its outermost type is.
pub proof fn law_type_required(t: InputTypeReference)
    ensures
        type_required(t) == (match t {
            InputTypeReference::Base(_, r) => r,
            InputTypeReference::List(_, r) => r,
        }),
{
}

/// The number that the decimal digits `s` denote.
pub open spec fn read_decimal(s: Seq<char>) -> int
    decreases s.len(),
{
    if s.len() == 0 {
        0
    } else {
        read_decimal(s.drop_last()) * 10 + (s.last() as int - '0' as int)
    }
}

/// The path segment of a list item is the decimal form of its index: only
/// digits, which read back as the index, with no leading zero.
pub proof fn law_index_segment(n: nat)
    ensures
        decimal(n).len() >= 1,
        forall|j: int| 0 <= j < decimal(n).len() ==> '0' <= #[trigger] decimal(n)[j] <= '9',
        read_decimal(decimal(n)) == n,
        n > 0 ==> decimal(n)[0] != '0',
    decreases n,
{
    if n < 10 {
        assert(decimal(n) == seq![digit_char(n)]);
        assert(seq![digit_char(n)].drop_last() =~= Seq::<char>::empty());
        assert(digit_char(n) as int - '0' as int == n);
        assert(read_decimal(Seq::<char>::empty()) == 0);
        assert(read_decimal(decimal(n)) == read_decimal(decimal(n).drop_last()) * 10 + (decimal(n).last() as int - '0' as int));
    } else {
        let q = n / 10;
        let r = n % 10;
        law_index_segment(q);
        let s = decimal(n);
        assert(s == decimal(q).push(digit_char(r)));
        assert(s.drop_last() =~= decimal(q));
        assert(digit_char(r) as int - '0' as int == r);
        assert(q * 10 + r == n) by (nonlinear_arith)
            requires
                q == n / 10,
                r == n % 10,
        ;
        assert(q > 0);
        assert(read_decimal(s) == read_decimal(decimal(q)) * 10 + r);
        assert(s[0] == decimal(q)[0]);
        assert forall|j: int| 0 <= j < s.len() implies '0' <= #[trigger] s[j] <= '9' by {
            if j < s.len() - 1 {
                assert(s[j] == decimal(q)[j]);
            }
        }
    }
}

/// The Ruby method that resolves a field is `resolve_` followed by the
/// field's snake_case name.
pub proof fn law_resolver_name(snake: Seq<char>)
    ensures
        resolver_name_spec(snake) == "resolve_"@ + snake,
        resolver_name_spec(snake).len() == snake.len() + 8,
{
    reveal_strlit("resolve_");
}

/// The named type at the bottom of a type reference is the one inside all
/// its lists.
pub proof fn law_type_base(t: InputTypeReference)
    ensures
        type_base(t) == (match t {
            InputTypeReference::Base(b, _) => b,
            InputTypeReference::List(inner, _) => type_base(*inner),
        }),
{
}

/// A registry is accepted exactly when every field of every input object
/// type that names an input object type names one of the registry's.
pub proof fn law_registry_accepts(objs: Seq<InputObjectTypeDefinition>)
    ensures
        registry_ok(objs) <==> forall|i: int, j: int|
            0 <= i < objs.len() && 0 <= j < objs[i].fields_spec().len() ==> (#[trigger] type_base(
                objs[i].fields_spec()[j].type_spec(),
            ) matches BaseInputTypeReference::InputObjectType(x) ==> x < objs.len()),
{
    if registry_ok(objs) {
        assert forall|i: int, j: int|
            0 <= i < objs.len() && 0 <= j < objs[i].fields_spec().len() implies (#[trigger] type_base(
                objs[i].fields_spec()[j].type_spec(),
            ) matches BaseInputTypeReference::InputObjectType(x) ==> x < objs.len()) by {
            assert(type_ok(objs[i].fields_spec()[j].type_spec(), objs.len()));
        }
    }
    if forall|i: int, j: int|
            0 <= i < objs.len() && 0 <= j < objs[i].fields_spec().len() ==> (#[trigger] type_base(
                objs[i].fields_spec()[j].type_spec(),
            ) matches BaseInputTypeReference::InputObjectType(x) ==> x < objs.len()) {
        assert forall|i: int, j: int|
            0 <= i < objs.len() && 0 <= j < objs[i].fields_spec().len() implies type_ok(
                #[trigger] objs[i].fields_spec()[j].type_spec(),
                objs.len(),
            ) by {
            assert(type_base(objs[i].fields_spec()[j].type_spec()) matches BaseInputTypeReference::InputObjectType(x) ==> x < objs.len());
        }
    }
}

} // verus!
