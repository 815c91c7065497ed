//! Coercion of input values against input types.
//!
//! The coercion of an input value is decided here, except where it reaches
//! an enum or custom scalar type: those are coerced in Ruby. The caller
//! runs [`InputTypeRegistry::coerce_input`] with the outcomes of the
//! outside coercions known so far; the result either is final or names the
//! next outside coercion that it needs. Outcomes are used in the order in
//! which the coercion meets those types, each once.
use vstd::prelude::*;
use crate::coerced::{
    Coerced, CoercedSpec, coerced_seq_view, coerced_view, lemma_coerced_seq_view_len, lemma_coerced_seq_view_push,
    lemma_errors_view_concat, lemma_errors_view_push, result_view,
};
use crate::error::{
    CoercionError, ErrorSpec, clone_path, conversion_error, conversion_message, decimal,
    error_view, errors_view, extend_path, index_segment, missing_field_error,
    missing_field_message, null_error, null_message, unknown_field_error, unknown_field_message,
};
use crate::input_object_type_definition::str_eq;
use crate::input_object_type_definition::InputObjectTypeDefinition;
use crate::input_value_definition::InputValueDefinition;
use crate::registry::{InputTypeRegistry, base_ok, registry_ok, type_ok};
use crate::type_reference::{
    BaseInputTypeReference, InputTypeReference, coerce_scalar_spec, one_error, single_error,
    type_rank, type_required,
};
use crate::value::{InputNode, InputValues, NodeKind, lemma_array_items, lemma_hash_entries, nodes_wf};
use vstd::string::StringExecFns;

verus! {

/// The two kinds of input types that are coerced outside the library.
#[derive(Clone, Copy, Debug, PartialEq, Eq, Structural)]
pub enum ExternalKind {
    EnumType,
    CustomScalarType,
}

/// A coercion that the caller performs: the node at `node`, as a value of
/// the enum or custom scalar type with index `type_index`, at `path`.
#[derive(Debug)]
pub struct ExternalRequest {
    pub kind: ExternalKind,
    pub type_index: usize,
    pub node: usize,
    pub path: Vec<String>,
}

/// What an outside coercion gave: a value (kept by the caller), or errors.
#[derive(Debug)]
pub enum ExternalOutcome {
    Accepted,
    Rejected(Vec<CoercionError>),
}

/// Where a coercion stands.
#[derive(Debug)]
pub enum CoercionStep {
    /// The coercion is complete: the coerced value, or all the errors.
    Done(Result<Coerced, Vec<CoercionError>>),
    /// The coercion needs the outcome of this outside coercion next.
    Needs(ExternalRequest),
    /// The keys of a hash are read as strings, and the key node at this
    /// index does not give UTF-8 text: it neither is a string nor converts
    /// to one implicitly (Ruby raises a `TypeError` there), or its text
    /// does not convert to UTF-8 (Ruby raises an encoding error there).
    NonStringKey(usize),
}

pub struct RequestSpec {
    pub kind: ExternalKind,
    pub type_index: nat,
    pub node: nat,
    pub path: Seq<Seq<char>>,
}

pub enum StepSpec {
    Done(Result<CoercedSpec, Seq<ErrorSpec>>),
    Needs(RequestSpec),
    NonStringKey(nat),
}

pub open spec fn request_view(r: ExternalRequest) -> RequestSpec {
    RequestSpec {
        kind: r.kind,
        type_index: r.type_index as nat,
        node: r.node as nat,
        path: r.path.deep_view(),
    }
}

pub open spec fn step_view(s: CoercionStep) -> StepSpec {
    match s {
        CoercionStep::Done(r) => StepSpec::Done(result_view(r)),
        CoercionStep::Needs(req) => StepSpec::Needs(request_view(req)),
        CoercionStep::NonStringKey(n) => StepSpec::NonStringKey(n as nat),
    }
}

/// What a coercion reads: the input object types, the input nodes and the
/// outcomes of outside coercions.
pub struct Ctx {
    pub objs: Seq<InputObjectTypeDefinition>,
    pub nodes: Seq<InputNode>,
    pub outs: Seq<ExternalOutcome>,
}

/// The state of a coercion that walks a sequence: the coerced values and
/// the errors so far and the next outcome to use, or the step at which it
/// stopped.
pub enum FoldSpec {
    Going(Seq<CoercedSpec>, Seq<ErrorSpec>, nat),
    Stopped(StepSpec, nat),
}

pub open spec fn node_kind(cx: Ctx, node: nat) -> NodeKind {
    cx.nodes[node as int].kind
}

pub open spec fn array_items(cx: Ctx, node: nat) -> Seq<usize> {
    match node_kind(cx, node) {
        NodeKind::Array(items) => items@,
        _ => Seq::empty(),
    }
}

pub open spec fn hash_entries(cx: Ctx, node: nat) -> Seq<(usize, usize)> {
    match node_kind(cx, node) {
        NodeKind::Hash(entries, _) => entries@,
        _ => Seq::empty(),
    }
}

/// The coercion of `nil`: an error when the type is non-null.
pub open spec fn null_spec(required: bool, node: nat, path: Seq<Seq<char>>) -> Result<CoercedSpec, Seq<ErrorSpec>> {
    if required {
        one_error(null_message(), path)
    } else {
        Ok(CoercedSpec::Input(node))
    }
}

/// An outside coercion: the next outcome if there is one, else a request.
pub open spec fn external_spec(
    cx: Ctx,
    kind: ExternalKind,
    type_index: nat,
    node: nat,
    path: Seq<Seq<char>>,
    k: nat,
) -> (StepSpec, nat) {
    if k < cx.outs.len() {
        match cx.outs[k as int] {
            ExternalOutcome::Accepted => (StepSpec::Done(Ok(CoercedSpec::External(k))), k + 1),
            ExternalOutcome::Rejected(es) => (StepSpec::Done(Err(errors_view(es@))), k + 1),
        }
    } else {
        (StepSpec::Needs(RequestSpec { kind, type_index, node, path }), k)
    }
}

/// Adds the result of one element's coercion to a walk.
pub open spec fn fold_step(cs: Seq<CoercedSpec>, es: Seq<ErrorSpec>, r: (StepSpec, nat)) -> FoldSpec {
    match r.0 {
        StepSpec::Done(Ok(c)) => FoldSpec::Going(cs.push(c), es, r.1),
        StepSpec::Done(Err(e)) => FoldSpec::Going(cs, es + e, r.1),
        _ => FoldSpec::Stopped(r.0, r.1),
    }
}

/// The result of a list coercion from its walk over the items.
pub open spec fn list_result(f: FoldSpec) -> (StepSpec, nat) {
    match f {
        FoldSpec::Stopped(s, k) => (s, k),
        FoldSpec::Going(cs, es, k) => if es.len() == 0 {
            (StepSpec::Done(Ok(CoercedSpec::List(cs))), k)
        } else {
            (StepSpec::Done(Err(es)), k)
        },
    }
}

/// A value that is not an array, coerced to a list: the list of its
/// coercion to the item type.
pub open spec fn wrap_single(r: (StepSpec, nat)) -> (StepSpec, nat) {
    match r.0 {
        StepSpec::Done(Ok(c)) => (StepSpec::Done(Ok(CoercedSpec::List(seq![c]))), r.1),
        _ => r,
    }
}

/// Whether the node at `key` is a string whose text is `name` (a string
/// whose bytes are not UTF-8 text equals no such name).
pub open spec fn key_is(nodes: Seq<InputNode>, key: usize, name: Seq<char>) -> bool {
    match nodes[key as int].kind {
        NodeKind::String(Some(s)) => s@ == name,
        _ => false,
    }
}

/// The index of the first entry from `j` on whose key is the string `name`.
pub open spec fn find_entry(nodes: Seq<InputNode>, entries: Seq<(usize, usize)>, name: Seq<char>, j: int) -> Option<int>
    decreases entries.len() - j,
{
    if j < 0 || j >= entries.len() {
        None
    } else if key_is(nodes, entries[j].0, name) {
        Some(j)
    } else {
        find_entry(nodes, entries, name, j + 1)
    }
}

/// The field lookup of the hash at `node`: the entry whose key is the
/// string `name`, found by `find_entry`; a hash that compares its keys by
/// identity holds no key identical to the newly made string looked up.
pub open spec fn lookup_field(cx: Ctx, node: nat, name: Seq<char>) -> Option<int> {
    match node_kind(cx, node) {
        NodeKind::Hash(entries, by_identity) => if by_identity {
            None
        } else {
            find_entry(cx.nodes, entries@, name, 0)
        },
        _ => None,
    }
}

/// The string that a key converts to: the text of a string, or of the
/// result of an object's implicit conversion (`to_str`). A string whose
/// bytes are not UTF-8 text converts to none: Ruby raises there.
pub open spec fn key_string(nodes: Seq<InputNode>, key: usize) -> Option<Seq<char>> {
    match nodes[key as int].kind {
        NodeKind::String(Some(s)) => Some(s@),
        NodeKind::Object(Some(s)) => Some(s@),
        _ => None,
    }
}

/// The first key node from entry `j` on that does not convert to a string.
pub open spec fn first_non_string_key(nodes: Seq<InputNode>, entries: Seq<(usize, usize)>, j: int) -> Option<nat>
    decreases entries.len() - j,
{
    if j < 0 || j >= entries.len() {
        None
    } else if key_string(nodes, entries[j].0) is None {
        Some(entries[j].0 as nat)
    } else {
        first_non_string_key(nodes, entries, j + 1)
    }
}

/// The errors for the keys among the first `n` entries that name no field
/// of `obj`, in the order of the entries.
pub open spec fn unknown_key_errors(
    nodes: Seq<InputNode>,
    entries: Seq<(usize, usize)>,
    obj: InputObjectTypeDefinition,
    path: Seq<Seq<char>>,
    n: nat,
) -> Seq<ErrorSpec>
    decreases n,
{
    if n == 0 {
        Seq::empty()
    } else {
        let prev = unknown_key_errors(nodes, entries, obj, path, (n - 1) as nat);
        match key_string(nodes, entries[n - 1].0) {
            Some(s) => if obj.has_field_named(s) {
                prev
            } else {
                prev.push(ErrorSpec { message: unknown_field_message(s, obj.name_spec()), path })
            },
            None => prev,
        }
    }
}

pub open spec fn field_count(cx: Ctx, i: nat) -> nat {
    cx.objs[i as int].fields_spec().len()
}

/// The coercion of the node at `node` to the type `t`, at `path`, with the
/// outside outcomes from index `k` on: the step reached and the index of
/// the next unused outcome.
pub open spec fn coerce_spec(cx: Ctx, t: InputTypeReference, node: nat, path: Seq<Seq<char>>, k: nat) -> (StepSpec, nat)
    decreases node, type_rank(t), 0nat,
{
    if node_kind(cx, node) is Nil {
        (StepSpec::Done(null_spec(type_required(t), node, path)), k)
    } else {
        match t {
            InputTypeReference::Base(b, _) => match b {
                BaseInputTypeReference::BuiltinScalarType(s) => (
                    StepSpec::Done(coerce_scalar_spec(s, cx.nodes, node, path)),
                    k,
                ),
                BaseInputTypeReference::InputObjectType(i) => object_spec(cx, i as nat, node, path, k),
                BaseInputTypeReference::EnumType(i) => external_spec(cx, ExternalKind::EnumType, i as nat, node, path, k),
                BaseInputTypeReference::CustomScalarType(i) => external_spec(
                    cx,
                    ExternalKind::CustomScalarType,
                    i as nat,
                    node,
                    path,
                    k,
                ),
            },
            InputTypeReference::List(inner, _) => match node_kind(cx, node) {
                NodeKind::Array(items) => list_result(fold_items(cx, *inner, node, path, k, items@.len())),
                _ => wrap_single(coerce_spec(cx, *inner, node, path, k)),
            },
        }
    }
}

/// The coercion of the node at `node` to the named type `b`, with no rule
/// of its own for `nil`: a builtin scalar by its rule, an input object
/// type by the object coercion, and an enum or custom scalar type by the
/// outside coercion.
pub open spec fn base_spec(cx: Ctx, b: BaseInputTypeReference, node: nat, path: Seq<Seq<char>>, k: nat) -> (StepSpec, nat) {
    match b {
        BaseInputTypeReference::BuiltinScalarType(s) => (StepSpec::Done(coerce_scalar_spec(s, cx.nodes, node, path)), k),
        BaseInputTypeReference::InputObjectType(i) => object_spec(cx, i as nat, node, path, k),
        BaseInputTypeReference::EnumType(i) => external_spec(cx, ExternalKind::EnumType, i as nat, node, path, k),
        BaseInputTypeReference::CustomScalarType(i) => external_spec(cx, ExternalKind::CustomScalarType, i as nat, node, path, k),
    }
}

/// The walk over the first `n` items of the array at `node`, each coerced
/// to `inner` at the path extended by its index.
pub open spec fn fold_items(cx: Ctx, inner: InputTypeReference, node: nat, path: Seq<Seq<char>>, k0: nat, n: nat) -> FoldSpec
    decreases node, 0nat, n,
{
    if n == 0 {
        FoldSpec::Going(Seq::empty(), Seq::empty(), k0)
    } else {
        match fold_items(cx, inner, node, path, k0, (n - 1) as nat) {
            FoldSpec::Stopped(s, k) => FoldSpec::Stopped(s, k),
            FoldSpec::Going(cs, es, k) => {
                let item = array_items(cx, node)[n - 1];
                if item < node {
                    fold_step(cs, es, coerce_spec(cx, inner, item as nat, path.push(decimal((n - 1) as nat)), k))
                } else {
                    FoldSpec::Going(cs, es, k)
                }
            },
        }
    }
}

/// The coercion of the node at `node` to the input object type `i`.
pub open spec fn object_spec(cx: Ctx, i: nat, node: nat, path: Seq<Seq<char>>, k: nat) -> (StepSpec, nat)
    decreases node, 0nat, field_count(cx, i) + 1,
{
    let obj = cx.objs[i as int];
    match node_kind(cx, node) {
        NodeKind::Hash(entries, _) => match fold_fields(cx, i, node, path, k, field_count(cx, i)) {
            FoldSpec::Stopped(s, k2) => (s, k2),
            FoldSpec::Going(args, es, k2) => match first_non_string_key(cx.nodes, entries@, 0) {
                Some(key) => (StepSpec::NonStringKey(key), k2),
                None => {
                    let all = es + unknown_key_errors(cx.nodes, entries@, obj, path, entries@.len());
                    if all.len() == 0 {
                        (StepSpec::Done(Ok(CoercedSpec::Instance(obj.ruby_class_spec(), args))), k2)
                    } else {
                        (StepSpec::Done(Err(all)), k2)
                    }
                },
            },
        },
        _ => if cx.nodes[node as int].kind_of@.contains(obj.ruby_class_spec()) {
            (StepSpec::Done(Ok(CoercedSpec::Input(node))), k)
        } else {
            (StepSpec::Done(one_error(conversion_message(cx.nodes[node as int].public_name@, obj.name_spec()), path)), k)
        },
    }
}

/// The walk over the first `n` fields of the input object type `i` for the
/// hash at `node`.
pub open spec fn fold_fields(cx: Ctx, i: nat, node: nat, path: Seq<Seq<char>>, k0: nat, n: nat) -> FoldSpec
    decreases node, 0nat, n,
{
    if n == 0 {
        FoldSpec::Going(Seq::empty(), Seq::empty(), k0)
    } else {
        match fold_fields(cx, i, node, path, k0, (n - 1) as nat) {
            FoldSpec::Stopped(s, k) => FoldSpec::Stopped(s, k),
            FoldSpec::Going(args, es, k) => {
                let f = cx.objs[i as int].fields_spec()[n - 1];
                let entries = hash_entries(cx, node);
                match lookup_field(cx, node, f.name_spec()) {
                    None => if f.required_spec() {
                        FoldSpec::Going(args, es.push(ErrorSpec { message: missing_field_message(f.name_spec()), path }), k)
                    } else {
                        match f.default_spec() {
                            Some(d) => FoldSpec::Going(args.push(CoercedSpec::Default(d.handle)), es, k),
                            None => FoldSpec::Going(args.push(CoercedSpec::Null), es, k),
                        }
                    },
                    Some(j) => {
                        let child = entries[j].1;
                        if child < node {
                            fold_step(args, es, coerce_spec(cx, f.type_spec(), child as nat, path.push(f.name_spec()), k))
                        } else {
                            FoldSpec::Going(args, es, k)
                        }
                    },
                }
            },
        }
    }
}


pub open spec fn cx_of(objs: Seq<InputObjectTypeDefinition>, nodes: Seq<InputNode>, outs: Seq<ExternalOutcome>) -> Ctx {
    Ctx { objs, nodes, outs }
}

/// Once a walk over items has stopped, it stays stopped.
pub proof fn lemma_items_stopped(cx: Ctx, inner: InputTypeReference, node: nat, path: Seq<Seq<char>>, k0: nat, n: nat, m: nat)
    requires
        n <= m,
        fold_items(cx, inner, node, path, k0, n) is Stopped,
    ensures
        fold_items(cx, inner, node, path, k0, m) == fold_items(cx, inner, node, path, k0, n),
    decreases m - n,
{
    if m > n {
        lemma_items_stopped(cx, inner, node, path, k0, n, (m - 1) as nat);
    }
}

/// Once a walk over fields has stopped, it stays stopped.
pub proof fn lemma_fields_stopped(cx: Ctx, i: nat, node: nat, path: Seq<Seq<char>>, k0: nat, n: nat, m: nat)
    requires
        n <= m,
        fold_fields(cx, i, node, path, k0, n) is Stopped,
    ensures
        fold_fields(cx, i, node, path, k0, m) == fold_fields(cx, i, node, path, k0, n),
    decreases m - n,
{
    if m > n {
        lemma_fields_stopped(cx, i, node, path, k0, n, (m - 1) as nat);
    }
}

/// A copy of a list of errors.
pub fn clone_errors(es: &Vec<CoercionError>) -> (r: Vec<CoercionError>)
    ensures
        errors_view(r@) == errors_view(es@),
{
    let mut r: Vec<CoercionError> = Vec::new();
    let mut i: usize = 0;
    while i < es.len()
        invariant
            i <= es@.len(),
            errors_view(r@) == errors_view(es@.take(i as int)),
        decreases es@.len() - i,
    {
        let e = CoercionError::new(es[i].message.clone(), clone_path(&es[i].path));
        proof {
            lemma_errors_view_push(r@, e);
            assert(es@.take(i + 1) =~= es@.take(i as int).push(es@[i as int]));
            lemma_errors_view_push(es@.take(i as int), es@[i as int]);
        }
        r.push(e);
        i = i + 1;
    }
    assert(es@.take(i as int) =~= es@);
    r
}

fn contains_class(classes: &Vec<u64>, class: u64) -> (r: bool)
    ensures
        r == classes@.contains(class),
{
    let mut j: usize = 0;
    while j < classes.len()
        invariant
            j <= classes@.len(),
            forall|m: int| 0 <= m < j ==> classes@[m] != class,
        decreases classes@.len() - j,
    {
        if classes[j] == class {
            assert(classes@[j as int] == class);
            return true;
        }
        j = j + 1;
    }
    false
}

fn key_matches(nodes: &Vec<InputNode>, key: usize, name: &str) -> (r: bool)
    requires
        key < nodes@.len(),
    ensures
        r == key_is(nodes@, key, name@),
{
    match &nodes[key].kind {
        NodeKind::String(Some(s)) => str_eq(s.as_str(), name),
        _ => false,
    }
}

fn find_entry_exec(nodes: &Vec<InputNode>, entries: &Vec<(usize, usize)>, name: &str) -> (r: Option<usize>)
    requires
        forall|m: int| 0 <= m < entries@.len() ==> (#[trigger] entries@[m]).0 < nodes@.len(),
    ensures
        match r {
            Some(j) => find_entry(nodes@, entries@, name@, 0) == Some(j as int) && j < entries@.len(),
            None => find_entry(nodes@, entries@, name@, 0) is None,
        },
{
    let mut m: usize = 0;
    while m < entries.len()
        invariant
            m <= entries@.len(),
            forall|q: int| 0 <= q < entries@.len() ==> (#[trigger] entries@[q]).0 < nodes@.len(),
            find_entry(nodes@, entries@, name@, 0) == find_entry(nodes@, entries@, name@, m as int),
        decreases entries@.len() - m,
    {
        if key_matches(nodes, entries[m].0, name) {
            return Some(m);
        }
        m = m + 1;
    }
    None
}

fn external(
    outs: &Vec<ExternalOutcome>,
    kind: ExternalKind,
    type_index: usize,
    node: usize,
    path: &Vec<String>,
    k: usize,
) -> (r: (CoercionStep, usize))
    requires
        k <= outs@.len(),
    ensures
        step_view(r.0) == external_spec(
            Ctx { objs: Seq::empty(), nodes: Seq::empty(), outs: outs@ },
            kind,
            type_index as nat,
            node as nat,
            path.deep_view(),
            k as nat,
        ).0,
        r.1 as nat == external_spec(
            Ctx { objs: Seq::empty(), nodes: Seq::empty(), outs: outs@ },
            kind,
            type_index as nat,
            node as nat,
            path.deep_view(),
            k as nat,
        ).1,
        r.1 <= outs@.len(),
{
    if k < outs.len() {
        match &outs[k] {
            ExternalOutcome::Accepted => (CoercionStep::Done(Ok(Coerced::External(k))), k + 1),
            ExternalOutcome::Rejected(es) => (CoercionStep::Done(Err(clone_errors(es))), k + 1),
        }
    } else {
        (CoercionStep::Needs(ExternalRequest { kind, type_index, node, path: clone_path(path) }), k)
    }
}

/// The outside coercion does not read the types or the nodes.
proof fn lemma_external_ctx(cx: Ctx, kind: ExternalKind, type_index: nat, node: nat, path: Seq<Seq<char>>, k: nat)
    ensures
        external_spec(cx, kind, type_index, node, path, k) == external_spec(
            Ctx { objs: Seq::empty(), nodes: Seq::empty(), outs: cx.outs },
            kind,
            type_index,
            node,
            path,
            k,
        ),
{
}

fn coerce_type(
    objs: &Vec<InputObjectTypeDefinition>,
    nodes: &Vec<InputNode>,
    outs: &Vec<ExternalOutcome>,
    t: &InputTypeReference,
    node: usize,
    path: &Vec<String>,
    k: usize,
) -> (r: (CoercionStep, usize))
    requires
        registry_ok(objs@),
        nodes_wf(nodes@),
        node < nodes@.len(),
        type_ok(*t, objs@.len()),
        k <= outs@.len(),
    ensures
        step_view(r.0) == coerce_spec(cx_of(objs@, nodes@, outs@), *t, node as nat, path.deep_view(), k as nat).0,
        r.1 as nat == coerce_spec(cx_of(objs@, nodes@, outs@), *t, node as nat, path.deep_view(), k as nat).1,
        r.1 <= outs@.len(),
    decreases node, type_rank(*t), 1nat,
{
    let ghost cx = cx_of(objs@, nodes@, outs@);
    let ghost pathv = path.deep_view();
    if let NodeKind::Nil = &nodes[node].kind {
        let r = if t.is_required() {
            single_error(null_error(path))
        } else {
            Ok(Coerced::Input(node))
        };
        return (CoercionStep::Done(r), k);
    }
    match t {
        InputTypeReference::Base(b, _) => match b {
            BaseInputTypeReference::BuiltinScalarType(s) => (CoercionStep::Done(s.coerce_input(nodes, node, path)), k),
            BaseInputTypeReference::InputObjectType(i) => coerce_object(objs, nodes, outs, *i, node, path, k),
            BaseInputTypeReference::EnumType(i) => {
                proof {
                    lemma_external_ctx(cx, ExternalKind::EnumType, *i as nat, node as nat, pathv, k as nat);
                }
                external(outs, ExternalKind::EnumType, *i, node, path, k)
            },
            BaseInputTypeReference::CustomScalarType(i) => {
                proof {
                    lemma_external_ctx(cx, ExternalKind::CustomScalarType, *i as nat, node as nat, pathv, k as nat);
                }
                external(outs, ExternalKind::CustomScalarType, *i, node, path, k)
            },
        },
        InputTypeReference::List(inner, _) => match &nodes[node].kind {
            NodeKind::Array(items) => {
                proof {
                    lemma_array_items(nodes@, node as int);
                }
                let mut cs: Vec<Coerced> = Vec::new();
                let mut es: Vec<CoercionError> = Vec::new();
                let mut kk = k;
                let mut j: usize = 0;
                assert(coerced_seq_view(cs@) =~= Seq::empty());
                assert(errors_view(es@) =~= Seq::empty());
                while j < items.len()
                    invariant
                        registry_ok(objs@),
                        nodes_wf(nodes@),
                        node < nodes@.len(),
                        type_ok(**inner, objs@.len()),
                        cx == cx_of(objs@, nodes@, outs@),
                        pathv == path.deep_view(),
                        items@ == array_items(cx, node as nat),
                        node_kind(cx, node as nat) == NodeKind::Array(*items),
                        *t == InputTypeReference::List(*inner, type_required(*t)),
                        forall|m: int| 0 <= m < items@.len() ==> #[trigger] items@[m] < node,
                        j <= items@.len(),
                        kk <= outs@.len(),
                        fold_items(cx, **inner, node as nat, pathv, k as nat, j as nat)
                            == FoldSpec::Going(coerced_seq_view(cs@), errors_view(es@), kk as nat),
                    decreases items@.len() - j,
                {
                    let item = items[j];
                    let p2 = extend_path(path, index_segment(j));
                    let (r, k2) = coerce_type(objs, nodes, outs, inner, item, &p2, kk);
                    let ghost rv = step_view(r);
                    assert(fold_items(cx, **inner, node as nat, pathv, k as nat, (j + 1) as nat)
                        == fold_step(coerced_seq_view(cs@), errors_view(es@), (rv, k2 as nat)));
                    match r {
                        CoercionStep::Done(Ok(c)) => {
                            proof {
                                lemma_coerced_seq_view_push(cs@, c);
                            }
                            cs.push(c);
                        },
                        CoercionStep::Done(Err(e)) => {
                            proof {
                                lemma_errors_view_concat(es@, e@);
                            }
                            let mut e = e;
                            es.append(&mut e);
                        },
                        other => {
                            proof {
                                lemma_items_stopped(cx, **inner, node as nat, pathv, k as nat, (j + 1) as nat, items@.len());
                                assert(fold_items(cx, **inner, node as nat, pathv, k as nat, items@.len())
                                    == FoldSpec::Stopped(rv, k2 as nat));
                                assert(coerce_spec(cx, *t, node as nat, pathv, k as nat)
                                    == list_result(fold_items(cx, **inner, node as nat, pathv, k as nat, items@.len())));
                            }
                            return (other, k2);
                        },
                    }
                    kk = k2;
                    j = j + 1;
                }
                if es.len() == 0 {
                    (CoercionStep::Done(Ok(Coerced::List(cs))), kk)
                } else {
                    (CoercionStep::Done(Err(es)), kk)
                }
            },
            _ => {
                let (r, k2) = coerce_type(objs, nodes, outs, inner, node, path, k);
                match r {
                    CoercionStep::Done(Ok(c)) => {
                        let mut v: Vec<Coerced> = Vec::new();
                        v.push(c);
                        proof {
                            lemma_coerced_seq_view_push(Seq::empty(), c);
                            assert(Seq::<Coerced>::empty().push(c) =~= v@);
                            assert(coerced_seq_view(Seq::<Coerced>::empty()) =~= Seq::empty());
                            assert(coerced_seq_view(v@) =~= seq![coerced_view(c)]);
                        }
                        (CoercionStep::Done(Ok(Coerced::List(v))), k2)
                    },
                    other => (other, k2),
                }
            },
        },
    }
}

fn coerce_object(
    objs: &Vec<InputObjectTypeDefinition>,
    nodes: &Vec<InputNode>,
    outs: &Vec<ExternalOutcome>,
    i: usize,
    node: usize,
    path: &Vec<String>,
    k: usize,
) -> (r: (CoercionStep, usize))
    requires
        registry_ok(objs@),
        nodes_wf(nodes@),
        node < nodes@.len(),
        i < objs@.len(),
        k <= outs@.len(),
    ensures
        step_view(r.0) == object_spec(cx_of(objs@, nodes@, outs@), i as nat, node as nat, path.deep_view(), k as nat).0,
        r.1 as nat == object_spec(cx_of(objs@, nodes@, outs@), i as nat, node as nat, path.deep_view(), k as nat).1,
        r.1 <= outs@.len(),
    decreases node, 0nat, 0nat,
{
    let ghost cx = cx_of(objs@, nodes@, outs@);
    let ghost pathv = path.deep_view();
    let obj = &objs[i];
    match &nodes[node].kind {
        NodeKind::Hash(entries, by_identity) => {
            proof {
                lemma_hash_entries(nodes@, node as int);
            }
            let fields = obj.input_field_definitions();
            let mut args: Vec<Coerced> = Vec::new();
            let mut es: Vec<CoercionError> = Vec::new();
            let mut kk = k;
            let mut j: usize = 0;
            assert(coerced_seq_view(args@) =~= Seq::empty());
            assert(errors_view(es@) =~= Seq::empty());
            while j < fields.len()
                invariant
                    registry_ok(objs@),
                    nodes_wf(nodes@),
                    node < nodes@.len(),
                    i < objs@.len(),
                    *obj == objs@[i as int],
                    fields@ == obj.fields_spec(),
                    cx == cx_of(objs@, nodes@, outs@),
                    pathv == path.deep_view(),
                    entries@ == hash_entries(cx, node as nat),
                    node_kind(cx, node as nat) == NodeKind::Hash(*entries, *by_identity),
                    forall|m: int| 0 <= m < entries@.len()
                        ==> (#[trigger] entries@[m]).0 < node && entries@[m].1 < node,
                    j <= fields@.len(),
                    kk <= outs@.len(),
                    fold_fields(cx, i as nat, node as nat, pathv, k as nat, j as nat)
                        == FoldSpec::Going(coerced_seq_view(args@), errors_view(es@), kk as nat),
                decreases fields@.len() - j,
            {
                let f = &fields[j];
                let found = if *by_identity {
                    None
                } else {
                    find_entry_exec(nodes, entries, f.name())
                };
                match found {
                    None => {
                        if f.is_required() {
                            let e = missing_field_error(f.name(), path);
                            proof {
                                lemma_errors_view_push(es@, e);
                            }
                            es.push(e);
                        } else {
                            let c = match f.default_value() {
                                Some(d) => Coerced::Default(d),
                                None => Coerced::Null,
                            };
                            proof {
                                lemma_coerced_seq_view_push(args@, c);
                            }
                            args.push(c);
                        }
                    },
                    Some(e_idx) => {
                        let child = entries[e_idx].1;
                        let p2 = extend_path(path, String::from_str(f.name()));
                        assert(type_ok(objs@[i as int].fields_spec()[j as int].type_spec(), objs@.len()));
                        let (r, k2) = coerce_type(objs, nodes, outs, f.type_reference(), child, &p2, kk);
                        let ghost rv = step_view(r);
                        assert(fold_fields(cx, i as nat, node as nat, pathv, k as nat, (j + 1) as nat)
                            == fold_step(coerced_seq_view(args@), errors_view(es@), (rv, k2 as nat)));
                        match r {
                            CoercionStep::Done(Ok(c)) => {
                                proof {
                                    lemma_coerced_seq_view_push(args@, c);
                                }
                                args.push(c);
                            },
                            CoercionStep::Done(Err(e)) => {
                                proof {
                                    lemma_errors_view_concat(es@, e@);
                                }
                                let mut e = e;
                                es.append(&mut e);
                            },
                            other => {
                                proof {
                                    lemma_fields_stopped(cx, i as nat, node as nat, pathv, k as nat, (j + 1) as nat, fields@.len());
                                }
                                return (other, k2);
                            },
                        }
                        kk = k2;
                    },
                }
                j = j + 1;
            }
            let mut m: usize = 0;
            while m < entries.len()
                invariant
                    nodes_wf(nodes@),
                    node < nodes@.len(),
                    forall|q: int| 0 <= q < entries@.len()
                        ==> (#[trigger] entries@[q]).0 < node && entries@[q].1 < node,
                    m <= entries@.len(),
                    cx == cx_of(objs@, nodes@, outs@),
                    pathv == path.deep_view(),
                    node_kind(cx, node as nat) == NodeKind::Hash(*entries, *by_identity),
                    *obj == objs@[i as int],
                    field_count(cx, i as nat) == obj.fields_spec().len(),
                    i < objs@.len(),
                    kk <= outs@.len(),
                    fold_fields(cx, i as nat, node as nat, pathv, k as nat, field_count(cx, i as nat))
                        == FoldSpec::Going(coerced_seq_view(args@), errors_view(es@), kk as nat),
                    first_non_string_key(nodes@, entries@, 0) == first_non_string_key(nodes@, entries@, m as int),
                decreases entries@.len() - m,
            {
                match &nodes[entries[m].0].kind {
                    NodeKind::String(Some(_)) => {},
                    NodeKind::Object(Some(_)) => {},
                    _ => {
                        assert(first_non_string_key(nodes@, entries@, m as int) == Some(entries@[m as int].0 as nat));
                        assert(fold_fields(cx, i as nat, node as nat, pathv, k as nat, field_count(cx, i as nat))
                            == FoldSpec::Going(coerced_seq_view(args@), errors_view(es@), kk as nat));
                        return (CoercionStep::NonStringKey(entries[m].0), kk);
                    },
                }
                m = m + 1;
            }
            let ghost es_fields = errors_view(es@);
            let mut m: usize = 0;
            while m < entries.len()
                invariant
                    node < nodes@.len(),
                    forall|q: int| 0 <= q < entries@.len()
                        ==> (#[trigger] entries@[q]).0 < node && entries@[q].1 < node,
                    m <= entries@.len(),
                    errors_view(es@) == es_fields + unknown_key_errors(nodes@, entries@, *obj, pathv, m as nat),
                    pathv == path.deep_view(),
                    cx == cx_of(objs@, nodes@, outs@),
                    node_kind(cx, node as nat) == NodeKind::Hash(*entries, *by_identity),
                    *obj == objs@[i as int],
                    field_count(cx, i as nat) == obj.fields_spec().len(),
                    fold_fields(cx, i as nat, node as nat, pathv, k as nat, field_count(cx, i as nat))
                        == FoldSpec::Going(coerced_seq_view(args@), es_fields, kk as nat),
                    first_non_string_key(nodes@, entries@, 0) is None,
                    i < objs@.len(),
                    kk <= outs@.len(),
                decreases entries@.len() - m,
            {
                let key: Option<&str> = match &nodes[entries[m].0].kind {
                    NodeKind::String(Some(s)) => Some(s.as_str()),
                    NodeKind::Object(Some(s)) => Some(s.as_str()),
                    _ => None,
                };
                match key {
                    Some(s) => {
                        if !obj.has_field(s) {
                            let e = unknown_field_error(s, obj.name(), path);
                            proof {
                                lemma_errors_view_push(es@, e);
                                assert(es_fields + unknown_key_errors(nodes@, entries@, *obj, pathv, (m + 1) as nat)
                                    =~= (es_fields + unknown_key_errors(nodes@, entries@, *obj, pathv, m as nat)).push(error_view(e)));
                            }
                            es.push(e);
                        }
                    },
                    None => {},
                }
                m = m + 1;
            }
            proof {
                lemma_coerced_seq_view_len(args@);
            }
            if es.len() == 0 {
                (CoercionStep::Done(Ok(Coerced::Instance(obj.ruby_class(), args))), kk)
            } else {
                (CoercionStep::Done(Err(es)), kk)
            }
        },
        _ => {
            if contains_class(&nodes[node].kind_of, obj.ruby_class()) {
                (CoercionStep::Done(Ok(Coerced::Input(node))), k)
            } else {
                (CoercionStep::Done(single_error(conversion_error(nodes[node].public_name.as_str(), obj.name(), path))), k)
            }
        },
    }
}

impl InputTypeRegistry {
    /// Coerces the node at `node` of `values` to the type `t`, at `path`,
    /// with the outcomes of the outside coercions known so far.
    pub fn coerce_input(
        &self,
        t: &InputTypeReference,
        values: &InputValues,
        node: usize,
        path: &Vec<String>,
        outcomes: &Vec<ExternalOutcome>,
    ) -> (r: CoercionStep)
        requires
            type_ok(*t, self.objects_spec().len()),
            node < values.nodes_spec().len(),
        ensures
            step_view(r) == coerce_spec(
                cx_of(self.objects_spec(), values.nodes_spec(), outcomes@),
                *t,
                node as nat,
                path.deep_view(),
                0,
            ).0,
    {
        let objs = self.objects();
        let nodes = values.nodes();
        coerce_type(objs, nodes, outcomes, t, node, path, 0).0
    }

    /// Coerces the node at `node` of `values` to the input object type with
    /// index `index`, at `path`, with the outcomes of the outside coercions
    /// known so far.
    pub fn coerce_input_object(
        &self,
        index: usize,
        values: &InputValues,
        node: usize,
        path: &Vec<String>,
        outcomes: &Vec<ExternalOutcome>,
    ) -> (r: CoercionStep)
        requires
            index < self.objects_spec().len(),
            node < values.nodes_spec().len(),
        ensures
            step_view(r) == object_spec(
                cx_of(self.objects_spec(), values.nodes_spec(), outcomes@),
                index as nat,
                node as nat,
                path.deep_view(),
                0,
            ).0,
    {
        let objs = self.objects();
        let nodes = values.nodes();
        coerce_object(objs, nodes, outcomes, index, node, path, 0).0
    }
}


impl BaseInputTypeReference {
    /// Coerces the node at `node` of `values` to this named type, at
    /// `path`, with the outcomes of the outside coercions known so far.
    /// Unlike a type reference, it has no rule of its own for `nil`: `nil`
    /// goes to the type's own coercion like any other value.
    pub fn coerce_input(
        &self,
        registry: &InputTypeRegistry,
        values: &InputValues,
        node: usize,
        path: &Vec<String>,
        outcomes: &Vec<ExternalOutcome>,
    ) -> (r: CoercionStep)
        requires
            base_ok(*self, registry.objects_spec().len()),
            node < values.nodes_spec().len(),
        ensures
            step_view(r) == base_spec(
                cx_of(registry.objects_spec(), values.nodes_spec(), outcomes@),
                *self,
                node as nat,
                path.deep_view(),
                0,
            ).0,
    {
        let objs = registry.objects();
        let nodes = values.nodes();
        let ghost cx = cx_of(objs@, nodes@, outcomes@);
        match self {
            BaseInputTypeReference::BuiltinScalarType(s) => CoercionStep::Done(s.coerce_input(nodes, node, path)),
            BaseInputTypeReference::InputObjectType(i) => coerce_object(objs, nodes, outcomes, *i, node, path, 0).0,
            BaseInputTypeReference::EnumType(i) => {
                proof {
                    lemma_external_ctx(cx, ExternalKind::EnumType, *i as nat, node as nat, path.deep_view(), 0);
                }
                external(outcomes, ExternalKind::EnumType, *i, node, path, 0).0
            },
            BaseInputTypeReference::CustomScalarType(i) => {
                proof {
                    lemma_external_ctx(cx, ExternalKind::CustomScalarType, *i as nat, node as nat, path.deep_view(), 0);
                }
                external(outcomes, ExternalKind::CustomScalarType, *i, node, path, 0).0
            },
        }
    }
}

impl InputValueDefinition {
    /// Coerces the node at `node` of `values` to the type of this input
    /// value, at `path` as given, with the outcomes of the outside
    /// coercions known so far. The default value is not consulted here.
    pub fn coerce_input(
        &self,
        registry: &InputTypeRegistry,
        values: &InputValues,
        node: usize,
        path: &Vec<String>,
        outcomes: &Vec<ExternalOutcome>,
    ) -> (r: CoercionStep)
        requires
            type_ok(self.type_spec(), registry.objects_spec().len()),
            node < values.nodes_spec().len(),
        ensures
            step_view(r) == coerce_spec(
                cx_of(registry.objects_spec(), values.nodes_spec(), outcomes@),
                self.type_spec(),
                node as nat,
                path.deep_view(),
                0,
            ).0,
    {
        registry.coerce_input(self.type_reference(), values, node, path, outcomes)
    }
}

} // verus!
