//! Laws of the coercion: how it uses the outcomes of outside coercions,
//! what a failure reports, and what a coerced input object holds.
use vstd::prelude::*;
use crate::coerce::{
    Ctx, ExternalOutcome, FoldSpec, StepSpec, array_items, coerce_spec, cx_of, field_count,
    find_entry, first_non_string_key, fold_fields, fold_items, fold_step, hash_entries, key_string,
    lookup_field, node_kind, object_spec, unknown_key_errors, lemma_fields_stopped, lemma_items_stopped,
};
use crate::error::{ErrorSpec, decimal, missing_field_message};
use crate::coerced::CoercedSpec;
use crate::input_object_type_definition::InputObjectTypeDefinition;
use crate::type_reference::{InputTypeReference, type_rank};
use crate::value::{InputNode, NodeKind, lemma_array_items, lemma_hash_entries, nodes_wf};

verus! {

pub open spec fn fold_cursor(f: FoldSpec) -> nat {
    match f {
        FoldSpec::Going(_, _, k) => k,
        FoldSpec::Stopped(_, k) => k,
    }
}

pub open spec fn fold_needs(f: FoldSpec) -> bool {
    f matches FoldSpec::Stopped(StepSpec::Needs(_), _)
}

/// `cx2` reads the same types and nodes as `cx1`, and its outcomes begin
/// with those of `cx1`.
pub open spec fn ctx_extends(cx1: Ctx, cx2: Ctx) -> bool {
    &&& cx1.objs == cx2.objs
    &&& cx1.nodes == cx2.nodes
    &&& cx1.outs.len() <= cx2.outs.len()
    &&& forall|j: int| 0 <= j < cx1.outs.len() ==> cx2.outs[j] == cx1.outs[j]
}

// ---- The cursor over the outcomes only moves forward, within the outcomes.

proof fn cursor_coerce(cx: Ctx, t: InputTypeReference, node: nat, path: Seq<Seq<char>>, k: nat)
    requires
        k <= cx.outs.len(),
    ensures
        k <= coerce_spec(cx, t, node, path, k).1 <= cx.outs.len(),
        coerce_spec(cx, t, node, path, k).0 is Needs ==> coerce_spec(cx, t, node, path, k).1 == cx.outs.len(),
    decreases node, type_rank(t), 0nat,
{
    if node_kind(cx, node) is Nil {
    } else {
        match t {
            InputTypeReference::Base(b, _) => match b {
                crate::type_reference::BaseInputTypeReference::InputObjectType(i) => {
                    cursor_object(cx, i as nat, node, path, k);
                },
                _ => {},
            },
            InputTypeReference::List(inner, _) => match node_kind(cx, node) {
                NodeKind::Array(items) => {
                    cursor_items(cx, *inner, node, path, k, items@.len());
                },
                _ => {
                    cursor_coerce(cx, *inner, node, path, k);
                },
            },
        }
    }
}

proof fn cursor_object(cx: Ctx, i: nat, node: nat, path: Seq<Seq<char>>, k: nat)
    requires
        k <= cx.outs.len(),
    ensures
        k <= object_spec(cx, i, node, path, k).1 <= cx.outs.len(),
        object_spec(cx, i, node, path, k).0 is Needs ==> object_spec(cx, i, node, path, k).1 == cx.outs.len(),
    decreases node, 0nat, field_count(cx, i) + 1,
{
    if node_kind(cx, node) is Hash {
        cursor_fields(cx, i, node, path, k, field_count(cx, i));
    }
}

proof fn cursor_items(cx: Ctx, inner: InputTypeReference, node: nat, path: Seq<Seq<char>>, k0: nat, n: nat)
    requires
        k0 <= cx.outs.len(),
    ensures
        k0 <= fold_cursor(fold_items(cx, inner, node, path, k0, n)) <= cx.outs.len(),
        fold_needs(fold_items(cx, inner, node, path, k0, n))
            ==> fold_cursor(fold_items(cx, inner, node, path, k0, n)) == cx.outs.len(),
    decreases node, 0nat, n,
{
    if n > 0 {
        cursor_items(cx, inner, node, path, k0, (n - 1) as nat);
        match fold_items(cx, inner, node, path, k0, (n - 1) as nat) {
            FoldSpec::Going(cs, es, k) => {
                let item = crate::coerce::array_items(cx, node)[n - 1];
                if item < node {
                    cursor_coerce(cx, inner, item as nat, path.push(crate::error::decimal((n - 1) as nat)), k);
                }
            },
            _ => {},
        }
    }
}

proof fn cursor_fields(cx: Ctx, i: nat, node: nat, path: Seq<Seq<char>>, k0: nat, n: nat)
    requires
        k0 <= cx.outs.len(),
    ensures
        k0 <= fold_cursor(fold_fields(cx, i, node, path, k0, n)) <= cx.outs.len(),
        fold_needs(fold_fields(cx, i, node, path, k0, n))
            ==> fold_cursor(fold_fields(cx, i, node, path, k0, n)) == cx.outs.len(),
    decreases node, 0nat, n,
{
    if n > 0 {
        cursor_fields(cx, i, node, path, k0, (n - 1) as nat);
        match fold_fields(cx, i, node, path, k0, (n - 1) as nat) {
            FoldSpec::Going(args, es, k) => {
                let f = cx.objs[i as int].fields_spec()[n - 1];
                let entries = hash_entries(cx, node);
                match crate::coerce::lookup_field(cx, node, f.name_spec()) {
                    Some(j) => {
                        let child = entries[j].1;
                        if child < node {
                            cursor_coerce(cx, f.type_spec(), child as nat, path.push(f.name_spec()), k);
                        }
                    },
                    None => {},
                }
            },
            _ => {},
        }
    }
}

// ---- More outcomes change nothing once no more are needed.

proof fn extend_coerce(cx1: Ctx, cx2: Ctx, t: InputTypeReference, node: nat, path: Seq<Seq<char>>, k: nat)
    requires
        ctx_extends(cx1, cx2),
        k <= cx1.outs.len(),
        !(coerce_spec(cx1, t, node, path, k).0 is Needs),
    ensures
        coerce_spec(cx2, t, node, path, k) == coerce_spec(cx1, t, node, path, k),
    decreases node, type_rank(t), 0nat,
{
    if node_kind(cx1, node) is Nil {
    } else {
        match t {
            InputTypeReference::Base(b, _) => match b {
                crate::type_reference::BaseInputTypeReference::InputObjectType(i) => {
                    extend_object(cx1, cx2, i as nat, node, path, k);
                },
                _ => {},
            },
            InputTypeReference::List(inner, _) => match node_kind(cx1, node) {
                NodeKind::Array(items) => {
                    extend_items(cx1, cx2, *inner, node, path, k, items@.len());
                },
                _ => {
                    extend_coerce(cx1, cx2, *inner, node, path, k);
                },
            },
        }
    }
}

proof fn extend_object(cx1: Ctx, cx2: Ctx, i: nat, node: nat, path: Seq<Seq<char>>, k: nat)
    requires
        ctx_extends(cx1, cx2),
        k <= cx1.outs.len(),
        !(object_spec(cx1, i, node, path, k).0 is Needs),
    ensures
        object_spec(cx2, i, node, path, k) == object_spec(cx1, i, node, path, k),
    decreases node, 0nat, field_count(cx1, i) + 1,
{
    if node_kind(cx1, node) is Hash {
        extend_fields(cx1, cx2, i, node, path, k, field_count(cx1, i));
    }
}

proof fn extend_items(cx1: Ctx, cx2: Ctx, inner: InputTypeReference, node: nat, path: Seq<Seq<char>>, k0: nat, n: nat)
    requires
        ctx_extends(cx1, cx2),
        k0 <= cx1.outs.len(),
        !fold_needs(fold_items(cx1, inner, node, path, k0, n)),
    ensures
        fold_items(cx2, inner, node, path, k0, n) == fold_items(cx1, inner, node, path, k0, n),
    decreases node, 0nat, n,
{
    if n > 0 {
        cursor_items(cx1, inner, node, path, k0, (n - 1) as nat);
        extend_items(cx1, cx2, inner, node, path, k0, (n - 1) as nat);
        match fold_items(cx1, inner, node, path, k0, (n - 1) as nat) {
            FoldSpec::Going(cs, es, k) => {
                let item = crate::coerce::array_items(cx1, node)[n - 1];
                if item < node {
                    extend_coerce(cx1, cx2, inner, item as nat, path.push(crate::error::decimal((n - 1) as nat)), k);
                }
            },
            _ => {},
        }
    }
}

proof fn extend_fields(cx1: Ctx, cx2: Ctx, i: nat, node: nat, path: Seq<Seq<char>>, k0: nat, n: nat)
    requires
        ctx_extends(cx1, cx2),
        k0 <= cx1.outs.len(),
        !fold_needs(fold_fields(cx1, i, node, path, k0, n)),
    ensures
        fold_fields(cx2, i, node, path, k0, n) == fold_fields(cx1, i, node, path, k0, n),
    decreases node, 0nat, n,
{
    if n > 0 {
        cursor_fields(cx1, i, node, path, k0, (n - 1) as nat);
        extend_fields(cx1, cx2, i, node, path, k0, (n - 1) as nat);
        match fold_fields(cx1, i, node, path, k0, (n - 1) as nat) {
            FoldSpec::Going(args, es, k) => {
                let f = cx1.objs[i as int].fields_spec()[n - 1];
                let entries = hash_entries(cx1, node);
                match crate::coerce::lookup_field(cx1, node, f.name_spec()) {
                    Some(j) => {
                        let child = entries[j].1;
                        if child < node {
                            extend_coerce(cx1, cx2, f.type_spec(), child as nat, path.push(f.name_spec()), k);
                        }
                    },
                    None => {},
                }
            },
            _ => {},
        }
    }
}

// ---- An outcome given for the pending request is used.

proof fn progress_coerce(cx1: Ctx, cx2: Ctx, t: InputTypeReference, node: nat, path: Seq<Seq<char>>, k: nat)
    requires
        ctx_extends(cx1, cx2),
        cx1.outs.len() < cx2.outs.len(),
        k <= cx1.outs.len(),
        coerce_spec(cx1, t, node, path, k).0 is Needs,
    ensures
        coerce_spec(cx2, t, node, path, k).1 > cx1.outs.len(),
    decreases node, type_rank(t), 0nat,
{
    cursor_coerce(cx1, t, node, path, k);
    if node_kind(cx1, node) is Nil {
    } else {
        match t {
            InputTypeReference::Base(b, _) => match b {
                crate::type_reference::BaseInputTypeReference::InputObjectType(i) => {
                    progress_object(cx1, cx2, i as nat, node, path, k);
                },
                _ => {},
            },
            InputTypeReference::List(inner, _) => match node_kind(cx1, node) {
                NodeKind::Array(items) => {
                    progress_items(cx1, cx2, *inner, node, path, k, items@.len());
                },
                _ => {
                    progress_coerce(cx1, cx2, *inner, node, path, k);
                },
            },
        }
    }
}

proof fn progress_object(cx1: Ctx, cx2: Ctx, i: nat, node: nat, path: Seq<Seq<char>>, k: nat)
    requires
        ctx_extends(cx1, cx2),
        cx1.outs.len() < cx2.outs.len(),
        k <= cx1.outs.len(),
        object_spec(cx1, i, node, path, k).0 is Needs,
    ensures
        object_spec(cx2, i, node, path, k).1 > cx1.outs.len(),
    decreases node, 0nat, field_count(cx1, i) + 1,
{
    if node_kind(cx1, node) is Hash {
        progress_fields(cx1, cx2, i, node, path, k, field_count(cx1, i));
    }
}

proof fn progress_items(cx1: Ctx, cx2: Ctx, inner: InputTypeReference, node: nat, path: Seq<Seq<char>>, k0: nat, n: nat)
    requires
        ctx_extends(cx1, cx2),
        cx1.outs.len() < cx2.outs.len(),
        k0 <= cx1.outs.len(),
        fold_needs(fold_items(cx1, inner, node, path, k0, n)),
    ensures
        fold_cursor(fold_items(cx2, inner, node, path, k0, n)) > cx1.outs.len(),
    decreases node, 0nat, n,
{
    if n > 0 {
        cursor_items(cx1, inner, node, path, k0, (n - 1) as nat);
        cursor_items(cx2, inner, node, path, k0, (n - 1) as nat);
        let prev1 = fold_items(cx1, inner, node, path, k0, (n - 1) as nat);
        let prev2 = fold_items(cx2, inner, node, path, k0, (n - 1) as nat);
        let item = crate::coerce::array_items(cx1, node)[n - 1];
        let p = path.push(crate::error::decimal((n - 1) as nat));
        if fold_needs(prev1) {
            progress_items(cx1, cx2, inner, node, path, k0, (n - 1) as nat);
            match prev2 {
                FoldSpec::Going(cs, es, k) => {
                    if item < node {
                        cursor_coerce(cx2, inner, item as nat, p, k);
                    }
                },
                _ => {},
            }
        } else {
            extend_items(cx1, cx2, inner, node, path, k0, (n - 1) as nat);
            match prev1 {
                FoldSpec::Going(cs, es, k) => {
                    if item < node {
                        progress_coerce(cx1, cx2, inner, item as nat, p, k);
                    }
                },
                _ => {},
            }
        }
    }
}

proof fn progress_fields(cx1: Ctx, cx2: Ctx, i: nat, node: nat, path: Seq<Seq<char>>, k0: nat, n: nat)
    requires
        ctx_extends(cx1, cx2),
        cx1.outs.len() < cx2.outs.len(),
        k0 <= cx1.outs.len(),
        fold_needs(fold_fields(cx1, i, node, path, k0, n)),
    ensures
        fold_cursor(fold_fields(cx2, i, node, path, k0, n)) > cx1.outs.len(),
    decreases node, 0nat, n,
{
    if n > 0 {
        cursor_fields(cx1, i, node, path, k0, (n - 1) as nat);
        cursor_fields(cx2, i, node, path, k0, (n - 1) as nat);
        let prev1 = fold_fields(cx1, i, node, path, k0, (n - 1) as nat);
        let prev2 = fold_fields(cx2, i, node, path, k0, (n - 1) as nat);
        let f = cx1.objs[i as int].fields_spec()[n - 1];
        let entries = hash_entries(cx1, node);
        let found = crate::coerce::lookup_field(cx1, node, f.name_spec());
        let p = path.push(f.name_spec());
        if fold_needs(prev1) {
            progress_fields(cx1, cx2, i, node, path, k0, (n - 1) as nat);
            match prev2 {
                FoldSpec::Going(args, es, k) => {
                    match found {
                        Some(j) => {
                            if entries[j].1 < node {
                                cursor_coerce(cx2, f.type_spec(), entries[j].1 as nat, p, k);
                            }
                        },
                        None => {},
                    }
                },
                _ => {},
            }
        } else {
            extend_fields(cx1, cx2, i, node, path, k0, (n - 1) as nat);
            match prev1 {
                FoldSpec::Going(args, es, k) => {
                    match found {
                        Some(j) => {
                            if entries[j].1 < node {
                                progress_coerce(cx1, cx2, f.type_spec(), entries[j].1 as nat, p, k);
                            }
                        },
                        None => {},
                    }
                },
                _ => {},
            }
        }
    }
}

/// The outcomes of outside coercions are used in order from the first:
/// the coercion never uses more outcomes than it is given, and it asks for
/// another outside coercion only once it has used every outcome it was
/// given.
pub proof fn law_outcomes_used_in_order(
    objs: Seq<InputObjectTypeDefinition>,
    nodes: Seq<InputNode>,
    outs: Seq<ExternalOutcome>,
    t: InputTypeReference,
    node: nat,
    path: Seq<Seq<char>>,
)
    ensures
        coerce_spec(cx_of(objs, nodes, outs), t, node, path, 0).1 <= outs.len(),
        coerce_spec(cx_of(objs, nodes, outs), t, node, path, 0).0 is Needs
            ==> coerce_spec(cx_of(objs, nodes, outs), t, node, path, 0).1 == outs.len(),
{
    cursor_coerce(cx_of(objs, nodes, outs), t, node, path, 0);
}

/// Once a coercion no longer asks for an outside coercion, giving it more
/// outcomes changes nothing: its result is final.
pub proof fn law_more_outcomes_change_nothing(
    objs: Seq<InputObjectTypeDefinition>,
    nodes: Seq<InputNode>,
    outs: Seq<ExternalOutcome>,
    more: Seq<ExternalOutcome>,
    t: InputTypeReference,
    node: nat,
    path: Seq<Seq<char>>,
)
    requires
        !(coerce_spec(cx_of(objs, nodes, outs), t, node, path, 0).0 is Needs),
    ensures
        coerce_spec(cx_of(objs, nodes, outs + more), t, node, path, 0)
            == coerce_spec(cx_of(objs, nodes, outs), t, node, path, 0),
{
    let cx1 = cx_of(objs, nodes, outs);
    let cx2 = cx_of(objs, nodes, outs + more);
    extend_coerce(cx1, cx2, t, node, path, 0);
}

/// When a coercion asks for an outside coercion and gets its outcome (and
/// possibly more), it uses that outcome: every outcome given in answer to a
/// request is used, so a caller that answers each request makes progress.
pub proof fn law_answered_request_is_used(
    objs: Seq<InputObjectTypeDefinition>,
    nodes: Seq<InputNode>,
    outs: Seq<ExternalOutcome>,
    answer: ExternalOutcome,
    t: InputTypeReference,
    node: nat,
    path: Seq<Seq<char>>,
)
    requires
        coerce_spec(cx_of(objs, nodes, outs), t, node, path, 0).0 is Needs,
    ensures
        coerce_spec(cx_of(objs, nodes, outs.push(answer)), t, node, path, 0).1 == outs.len() + 1,
{
    let cx1 = cx_of(objs, nodes, outs);
    let cx2 = cx_of(objs, nodes, outs.push(answer));
    progress_coerce(cx1, cx2, t, node, path, 0);
    cursor_coerce(cx2, t, node, path, 0);
}


// ---- A walk stops only at a request or a raised error.

proof fn stopped_items(cx: Ctx, inner: InputTypeReference, node: nat, path: Seq<Seq<char>>, k0: nat, n: nat)
    ensures
        fold_items(cx, inner, node, path, k0, n) matches FoldSpec::Stopped(s, _) ==> !(s is Done),
    decreases n,
{
    if n > 0 {
        stopped_items(cx, inner, node, path, k0, (n - 1) as nat);
    }
}

proof fn stopped_fields(cx: Ctx, i: nat, node: nat, path: Seq<Seq<char>>, k0: nat, n: nat)
    ensures
        fold_fields(cx, i, node, path, k0, n) matches FoldSpec::Stopped(s, _) ==> !(s is Done),
    decreases n,
{
    if n > 0 {
        stopped_fields(cx, i, node, path, k0, (n - 1) as nat);
    }
}

// ---- A failure comes with at least one error.

/// Every outside coercion that rejected its value reported an error.
pub open spec fn rejections_report(outs: Seq<ExternalOutcome>) -> bool {
    forall|j: int| 0 <= j < outs.len() ==> (#[trigger] outs[j] matches ExternalOutcome::Rejected(es) ==> es@.len() > 0)
}

proof fn nonempty_coerce(cx: Ctx, t: InputTypeReference, node: nat, path: Seq<Seq<char>>, k: nat)
    requires
        rejections_report(cx.outs),
    ensures
        coerce_spec(cx, t, node, path, k).0 matches StepSpec::Done(Err(e)) ==> e.len() > 0,
    decreases type_rank(t),
{
    if node_kind(cx, node) is Nil {
    } else {
        match t {
            InputTypeReference::Base(b, _) => {
                if k < cx.outs.len() {
                    assert(cx.outs[k as int] matches ExternalOutcome::Rejected(es) ==> es@.len() > 0);
                }
                if let crate::type_reference::BaseInputTypeReference::InputObjectType(i) = b {
                    stopped_fields(cx, i as nat, node, path, k, field_count(cx, i as nat));
                    assert(object_spec(cx, i as nat, node, path, k).0 matches StepSpec::Done(Err(e)) ==> e.len() > 0);
                } else {
                    assert(coerce_spec(cx, t, node, path, k).0 matches StepSpec::Done(Err(e)) ==> e.len() > 0);
                }
            },
            InputTypeReference::List(inner, _) => match node_kind(cx, node) {
                NodeKind::Array(items) => {
                    stopped_items(cx, *inner, node, path, k, items@.len());
                },
                _ => {
                    nonempty_coerce(cx, *inner, node, path, k);
                },
            },
        }
    }
}

/// A coercion that fails reports at least one error, provided that every
/// outside coercion that rejected its value did.
pub proof fn law_failure_reports_an_error(
    objs: Seq<InputObjectTypeDefinition>,
    nodes: Seq<InputNode>,
    outs: Seq<ExternalOutcome>,
    t: InputTypeReference,
    node: nat,
    path: Seq<Seq<char>>,
)
    requires
        rejections_report(outs),
    ensures
        coerce_spec(cx_of(objs, nodes, outs), t, node, path, 0).0 matches StepSpec::Done(Err(e)) ==> e.len() > 0,
{
    nonempty_coerce(cx_of(objs, nodes, outs), t, node, path, 0);
}

// ---- A coerced input object has one argument per field; a coerced list
// ---- has one item per input item.

proof fn find_entry_in_range(nodes: Seq<InputNode>, entries: Seq<(usize, usize)>, name: Seq<char>, j: int)
    ensures
        find_entry(nodes, entries, name, j) matches Some(m) ==> j <= m < entries.len(),
    decreases entries.len() - j,
{
    if 0 <= j < entries.len() {
        find_entry_in_range(nodes, entries, name, j + 1);
    }
}

proof fn count_fields(cx: Ctx, i: nat, node: nat, path: Seq<Seq<char>>, k0: nat, n: nat)
    requires
        nodes_wf(cx.nodes),
        node < cx.nodes.len(),
        node_kind(cx, node) is Hash,
        rejections_report(cx.outs),
    ensures
        fold_fields(cx, i, node, path, k0, n) matches FoldSpec::Going(args, es, _) ==> (es.len() == 0 ==> args.len() == n),
    decreases n,
{
    if n > 0 {
        count_fields(cx, i, node, path, k0, (n - 1) as nat);
        match fold_fields(cx, i, node, path, k0, (n - 1) as nat) {
            FoldSpec::Going(args, es, k) => {
                let f = cx.objs[i as int].fields_spec()[n - 1];
                let entries = hash_entries(cx, node);
                find_entry_in_range(cx.nodes, entries, f.name_spec(), 0);
                lemma_hash_entries(cx.nodes, node as int);
                match crate::coerce::lookup_field(cx, node, f.name_spec()) {
                    Some(j) => {
                        let child = entries[j].1;
                        assert(child < node);
                        nonempty_coerce(cx, f.type_spec(), child as nat, path.push(f.name_spec()), k);
                    },
                    None => {},
                }
            },
            _ => {},
        }
    }
}

proof fn count_items(cx: Ctx, inner: InputTypeReference, node: nat, path: Seq<Seq<char>>, k0: nat, n: nat)
    requires
        nodes_wf(cx.nodes),
        node < cx.nodes.len(),
        node_kind(cx, node) is Array,
        n <= array_items(cx, node).len(),
        rejections_report(cx.outs),
    ensures
        fold_items(cx, inner, node, path, k0, n) matches FoldSpec::Going(cs, es, _) ==> (es.len() == 0 ==> cs.len() == n),
    decreases n,
{
    if n > 0 {
        count_items(cx, inner, node, path, k0, (n - 1) as nat);
        match fold_items(cx, inner, node, path, k0, (n - 1) as nat) {
            FoldSpec::Going(cs, es, k) => {
                lemma_array_items(cx.nodes, node as int);
                let item = array_items(cx, node)[n - 1];
                assert(item < node);
                nonempty_coerce(cx, inner, item as nat, path.push(crate::error::decimal((n - 1) as nat)), k);
            },
            _ => {},
        }
    }
}

/// An input object coerces to a new instance of its Ruby class, built from
/// exactly one value per field of the type, provided that every outside
/// coercion that rejected its value reported an error.
pub proof fn law_instance_has_one_value_per_field(
    objs: Seq<InputObjectTypeDefinition>,
    nodes: Seq<InputNode>,
    outs: Seq<ExternalOutcome>,
    i: nat,
    node: nat,
    path: Seq<Seq<char>>,
)
    requires
        nodes_wf(nodes),
        node < nodes.len(),
        i < objs.len(),
        rejections_report(outs),
    ensures
        object_spec(cx_of(objs, nodes, outs), i, node, path, 0).0 matches StepSpec::Done(Ok(CoercedSpec::Instance(class, args)))
            ==> class == objs[i as int].ruby_class_spec() && args.len() == objs[i as int].fields_spec().len(),
{
    let cx = cx_of(objs, nodes, outs);
    if node_kind(cx, node) is Hash {
        count_fields(cx, i, node, path, 0, field_count(cx, i));
        stopped_fields(cx, i, node, path, 0, field_count(cx, i));
    }
}

/// An array coerced to a list type gives a list with exactly one value per
/// item of the array, provided that every outside coercion that rejected
/// its value reported an error; any other non-null value gives a list of
/// one value.
pub proof fn law_list_has_one_value_per_item(
    objs: Seq<InputObjectTypeDefinition>,
    nodes: Seq<InputNode>,
    outs: Seq<ExternalOutcome>,
    inner: InputTypeReference,
    required: bool,
    node: nat,
    path: Seq<Seq<char>>,
)
    requires
        nodes_wf(nodes),
        node < nodes.len(),
        rejections_report(outs),
    ensures
        coerce_spec(
            cx_of(objs, nodes, outs),
            InputTypeReference::List(Box::new(inner), required),
            node,
            path,
            0,
        ).0 matches StepSpec::Done(Ok(CoercedSpec::List(cs))) ==> cs.len() == (match nodes[node as int].kind {
            NodeKind::Array(items) => items@.len(),
            _ => 1,
        }),
{
    let cx = cx_of(objs, nodes, outs);
    if node_kind(cx, node) is Array {
        count_items(cx, inner, node, path, 0, array_items(cx, node).len());
        stopped_items(cx, inner, node, path, 0, array_items(cx, node).len());
    }
}

// ---- nil, and values passed through unchanged.

/// `nil` coerces to itself exactly when the type is nullable; otherwise
/// the coercion fails with the one error that a non-null value was
/// expected.
pub proof fn law_null(
    objs: Seq<InputObjectTypeDefinition>,
    nodes: Seq<InputNode>,
    outs: Seq<ExternalOutcome>,
    t: InputTypeReference,
    node: nat,
    path: Seq<Seq<char>>,
)
    requires
        node < nodes.len(),
        nodes[node as int].kind is Nil,
    ensures
        coerce_spec(cx_of(objs, nodes, outs), t, node, path, 0).0 == (if crate::type_reference::type_required(t) {
            StepSpec::Done(Err(seq![crate::error::ErrorSpec { message: crate::error::null_message(), path }]))
        } else {
            StepSpec::Done(Ok(CoercedSpec::Input(node)))
        }),
{
}

/// A builtin scalar coercion that succeeds gives back the input value
/// itself.
pub proof fn law_scalar_keeps_the_value(
    s: crate::type_reference::BuiltinScalarDefinition,
    nodes: Seq<InputNode>,
    node: nat,
    path: Seq<Seq<char>>,
)
    ensures
        crate::type_reference::coerce_scalar_spec(s, nodes, node, path) matches Ok(c) ==> c == CoercedSpec::Input(node),
{
}

// ---- Type references.

/// A type reference built from the parser's shape over `base` has `base` at
/// its bottom, and is required exactly when the parser's outermost type is.
pub proof fn law_parsed_reference(
    p: crate::type_reference::ParsedTypeReference,
    base: crate::type_reference::BaseInputTypeReference,
)
    ensures
        crate::type_reference::type_base(crate::type_reference::from_parsed(p, base)) == base,
        crate::type_reference::type_required(crate::type_reference::from_parsed(p, base)) == (match p {
            crate::type_reference::ParsedTypeReference::NamedType(r) => r,
            crate::type_reference::ParsedTypeReference::ListType(_, r) => r,
        }),
    decreases p,
{
    match p {
        crate::type_reference::ParsedTypeReference::ListType(inner, _) => {
            law_parsed_reference(*inner, base);
        },
        _ => {},
    }
}

// ---- Base types, and lists item by item.

/// A non-null value coerced to a named type is coerced by that type, as
/// the type's own coercion (`BaseInputTypeReference::coerce_input`) does:
/// a builtin scalar by its rule, an input object type by the object
/// coercion, and an enum or custom scalar type by the outside coercion.
pub proof fn law_base_dispatch(
    cx: Ctx,
    b: crate::type_reference::BaseInputTypeReference,
    required: bool,
    node: nat,
    path: Seq<Seq<char>>,
    k: nat,
)
    requires
        !(node_kind(cx, node) is Nil),
    ensures
        coerce_spec(cx, InputTypeReference::Base(b, required), node, path, k) == crate::coerce::base_spec(cx, b, node, path, k),
        crate::coerce::base_spec(cx, b, node, path, k) == (match b {
            crate::type_reference::BaseInputTypeReference::BuiltinScalarType(s) => (
                StepSpec::Done(crate::type_reference::coerce_scalar_spec(s, cx.nodes, node, path)),
                k,
            ),
            crate::type_reference::BaseInputTypeReference::InputObjectType(i) => object_spec(cx, i as nat, node, path, k),
            crate::type_reference::BaseInputTypeReference::EnumType(i) => crate::coerce::external_spec(
                cx,
                crate::coerce::ExternalKind::EnumType,
                i as nat,
                node,
                path,
                k,
            ),
            crate::type_reference::BaseInputTypeReference::CustomScalarType(i) => crate::coerce::external_spec(
                cx,
                crate::coerce::ExternalKind::CustomScalarType,
                i as nat,
                node,
                path,
                k,
            ),
        }),
{
}

/// The value `c` is what coercing item `i` of the array at `node` to
/// `inner` gives, with the outcomes from some index on.
pub open spec fn item_coerces_to(cx: Ctx, inner: InputTypeReference, node: nat, path: Seq<Seq<char>>, i: int, c: CoercedSpec) -> bool {
    exists|k: nat|
        (#[trigger] coerce_spec(cx, inner, array_items(cx, node)[i] as nat, path.push(crate::error::decimal(i as nat)), k)).0
            == StepSpec::Done(Ok(c))
}

proof fn each_item(cx: Ctx, inner: InputTypeReference, node: nat, path: Seq<Seq<char>>, k0: nat, n: nat)
    requires
        nodes_wf(cx.nodes),
        node < cx.nodes.len(),
        node_kind(cx, node) is Array,
        n <= array_items(cx, node).len(),
        rejections_report(cx.outs),
    ensures
        fold_items(cx, inner, node, path, k0, n) matches FoldSpec::Going(cs, es, _) ==> (es.len() == 0 ==> {
            &&& cs.len() == n
            &&& forall|i: int| 0 <= i < n ==> item_coerces_to(cx, inner, node, path, i, #[trigger] cs[i])
        }),
    decreases n,
{
    if n > 0 {
        each_item(cx, inner, node, path, k0, (n - 1) as nat);
        count_items(cx, inner, node, path, k0, (n - 1) as nat);
        match fold_items(cx, inner, node, path, k0, (n - 1) as nat) {
            FoldSpec::Going(cs, es, k) => {
                lemma_array_items(cx.nodes, node as int);
                let item = array_items(cx, node)[n - 1];
                assert(item < node);
                let p = path.push(crate::error::decimal((n - 1) as nat));
                nonempty_coerce(cx, inner, item as nat, p, k);
                let r = coerce_spec(cx, inner, item as nat, p, k);
                if let StepSpec::Done(Ok(c)) = r.0 {
                    if es.len() == 0 {
                        let cs2 = cs.push(c);
                        assert forall|i: int| 0 <= i < n implies item_coerces_to(cx, inner, node, path, i, #[trigger] cs2[i]) by {
                            if i == n - 1 {
                                assert(coerce_spec(cx, inner, array_items(cx, node)[i] as nat, path.push(crate::error::decimal(i as nat)), k).0
                                    == StepSpec::Done(Ok(cs2[i])));
                            } else {
                                assert(cs2[i] == cs[i]);
                            }
                        }
                    }
                }
            },
            _ => {},
        }
    }
}

/// An array coerced to a list type gives, at each position, what coercing
/// the array's item there to the item type gives, at the path extended by
/// the position, provided that every outside coercion that rejected its
/// value reported an error.
pub proof fn law_list_items_one_by_one(
    objs: Seq<InputObjectTypeDefinition>,
    nodes: Seq<InputNode>,
    outs: Seq<ExternalOutcome>,
    inner: InputTypeReference,
    required: bool,
    node: nat,
    path: Seq<Seq<char>>,
)
    requires
        nodes_wf(nodes),
        node < nodes.len(),
        nodes[node as int].kind is Array,
        rejections_report(outs),
    ensures
        coerce_spec(
            cx_of(objs, nodes, outs),
            InputTypeReference::List(Box::new(inner), required),
            node,
            path,
            0,
        ).0 matches StepSpec::Done(Ok(CoercedSpec::List(cs))) ==> {
            &&& cs.len() == array_items(cx_of(objs, nodes, outs), node).len()
            &&& forall|i: int| 0 <= i < cs.len() ==> item_coerces_to(cx_of(objs, nodes, outs), inner, node, path, i, #[trigger] cs[i])
        },
{
    let cx = cx_of(objs, nodes, outs);
    each_item(cx, inner, node, path, 0, array_items(cx, node).len());
    stopped_items(cx, inner, node, path, 0, array_items(cx, node).len());
}

// ---- The walks over fields and items, one step at a time.

/// What coercing field `j` of the input object type `i` gives for the hash
/// at `node`, with the outcomes from index `k` on. A field that the hash
/// has is coerced by the field's type, at the path extended by the field's
/// name; its default value is not consulted. A field that the hash lacks
/// gives the error that it is missing when it is required, else its
/// default value, else `nil`.
pub open spec fn field_step(cx: Ctx, i: nat, node: nat, path: Seq<Seq<char>>, j: int, k: nat) -> (StepSpec, nat) {
    let f = cx.objs[i as int].fields_spec()[j];
    match lookup_field(cx, node, f.name_spec()) {
        None => if f.required_spec() {
            (StepSpec::Done(Err(seq![ErrorSpec { message: "No value for required field "@ + f.name_spec(), path }])), k)
        } else {
            match f.default_spec() {
                Some(d) => (StepSpec::Done(Ok(CoercedSpec::Default(d.handle))), k),
                None => (StepSpec::Done(Ok(CoercedSpec::Null)), k),
            }
        },
        Some(e) => coerce_spec(cx, f.type_spec(), hash_entries(cx, node)[e].1 as nat, path.push(f.name_spec()), k),
    }
}

/// What coercing item `j` of the array at `node` to `inner` gives, at the
/// path extended by the index, with the outcomes from index `k` on.
pub open spec fn item_step(cx: Ctx, inner: InputTypeReference, node: nat, path: Seq<Seq<char>>, j: int, k: nat) -> (StepSpec, nat) {
    coerce_spec(cx, inner, array_items(cx, node)[j] as nat, path.push(decimal(j as nat)), k)
}

/// The values of the results that succeeded, in order.
pub open spec fn ok_values(rs: Seq<Result<CoercedSpec, Seq<ErrorSpec>>>) -> Seq<CoercedSpec>
    decreases rs.len(),
{
    if rs.len() == 0 {
        Seq::empty()
    } else {
        match rs.last() {
            Ok(c) => ok_values(rs.drop_last()).push(c),
            Err(_) => ok_values(rs.drop_last()),
        }
    }
}

/// The errors of the results that failed, in order.
pub open spec fn all_errors(rs: Seq<Result<CoercedSpec, Seq<ErrorSpec>>>) -> Seq<ErrorSpec>
    decreases rs.len(),
{
    if rs.len() == 0 {
        Seq::empty()
    } else {
        match rs.last() {
            Ok(_) => all_errors(rs.drop_last()),
            Err(e) => all_errors(rs.drop_last()) + e,
        }
    }
}

/// The first `rs.len()` fields complete with the results `rs`: field `j`,
/// started at outcome `ks[j]`, gives `rs[j]` and leaves the next unused
/// outcome at `ks[j + 1]`.
pub open spec fn fields_run(
    cx: Ctx,
    i: nat,
    node: nat,
    path: Seq<Seq<char>>,
    rs: Seq<Result<CoercedSpec, Seq<ErrorSpec>>>,
    ks: Seq<nat>,
) -> bool {
    &&& ks.len() == rs.len() + 1
    &&& forall|j: int| 0 <= j < rs.len()
        ==> #[trigger] field_step(cx, i, node, path, j, ks[j]) == (StepSpec::Done(rs[j]), ks[j + 1])
}

/// The first `rs.len()` items complete with the results `rs`, as in
/// `fields_run`.
pub open spec fn items_run(
    cx: Ctx,
    inner: InputTypeReference,
    node: nat,
    path: Seq<Seq<char>>,
    rs: Seq<Result<CoercedSpec, Seq<ErrorSpec>>>,
    ks: Seq<nat>,
) -> bool {
    &&& ks.len() == rs.len() + 1
    &&& forall|j: int| 0 <= j < rs.len()
        ==> #[trigger] item_step(cx, inner, node, path, j, ks[j]) == (StepSpec::Done(rs[j]), ks[j + 1])
}

/// The walk over the fields of an input object type for a hash takes the
/// fields one by one, in the order of their definition: unless it has
/// stopped, field `n` is coerced as `field_step` says, by its type at the
/// path extended by its name when the hash has it.
pub proof fn law_fields_walk_step(cx: Ctx, i: nat, node: nat, path: Seq<Seq<char>>, k0: nat, n: nat)
    requires
        nodes_wf(cx.nodes),
        node < cx.nodes.len(),
        node_kind(cx, node) is Hash,
    ensures
        fold_fields(cx, i, node, path, k0, n + 1) == (match fold_fields(cx, i, node, path, k0, n) {
            FoldSpec::Stopped(s, k) => FoldSpec::Stopped(s, k),
            FoldSpec::Going(args, es, k) => fold_step(args, es, field_step(cx, i, node, path, n as int, k)),
        }),
{
    lemma_hash_entries(cx.nodes, node as int);
    match fold_fields(cx, i, node, path, k0, n) {
        FoldSpec::Going(args, es, k) => {
            let f = cx.objs[i as int].fields_spec()[n as int];
            let entries = hash_entries(cx, node);
            find_entry_in_range(cx.nodes, entries, f.name_spec(), 0);
            match lookup_field(cx, node, f.name_spec()) {
                None => {
                    let e = ErrorSpec { message: "No value for required field "@ + f.name_spec(), path };
                    assert(es.push(e) =~= es + seq![e]);
                },
                Some(m) => {
                    assert(entries[m].1 < node);
                },
            }
        },
        _ => {},
    }
}

/// The walk over the items of an array takes the items one by one, in
/// order: unless it has stopped, item `n` is coerced as `item_step` says.
pub proof fn law_items_walk_step(cx: Ctx, inner: InputTypeReference, node: nat, path: Seq<Seq<char>>, k0: nat, n: nat)
    requires
        nodes_wf(cx.nodes),
        node < cx.nodes.len(),
        node_kind(cx, node) is Array,
        n < array_items(cx, node).len(),
    ensures
        fold_items(cx, inner, node, path, k0, n + 1) == (match fold_items(cx, inner, node, path, k0, n) {
            FoldSpec::Stopped(s, k) => FoldSpec::Stopped(s, k),
            FoldSpec::Going(cs, es, k) => fold_step(cs, es, item_step(cx, inner, node, path, n as int, k)),
        }),
{
    lemma_array_items(cx.nodes, node as int);
    assert(array_items(cx, node)[n as int] < node);
}

proof fn run_fields(
    cx: Ctx,
    i: nat,
    node: nat,
    path: Seq<Seq<char>>,
    rs: Seq<Result<CoercedSpec, Seq<ErrorSpec>>>,
    ks: Seq<nat>,
    n: nat,
)
    requires
        nodes_wf(cx.nodes),
        node < cx.nodes.len(),
        node_kind(cx, node) is Hash,
        fields_run(cx, i, node, path, rs, ks),
        n <= rs.len(),
    ensures
        fold_fields(cx, i, node, path, ks[0], n)
            == FoldSpec::Going(ok_values(rs.take(n as int)), all_errors(rs.take(n as int)), ks[n as int]),
    decreases n,
{
    if n == 0 {
        assert(rs.take(0) =~= Seq::<Result<CoercedSpec, Seq<ErrorSpec>>>::empty());
    } else {
        run_fields(cx, i, node, path, rs, ks, (n - 1) as nat);
        law_fields_walk_step(cx, i, node, path, ks[0], (n - 1) as nat);
        assert(field_step(cx, i, node, path, n - 1, ks[n - 1]) == (StepSpec::Done(rs[n - 1]), ks[n as int]));
        assert(rs.take(n as int).drop_last() =~= rs.take(n - 1));
        assert(rs.take(n as int).last() == rs[n - 1]);
    }
}

proof fn run_items(
    cx: Ctx,
    inner: InputTypeReference,
    node: nat,
    path: Seq<Seq<char>>,
    rs: Seq<Result<CoercedSpec, Seq<ErrorSpec>>>,
    ks: Seq<nat>,
    n: nat,
)
    requires
        nodes_wf(cx.nodes),
        node < cx.nodes.len(),
        node_kind(cx, node) is Array,
        items_run(cx, inner, node, path, rs, ks),
        rs.len() <= array_items(cx, node).len(),
        n <= rs.len(),
    ensures
        fold_items(cx, inner, node, path, ks[0], n)
            == FoldSpec::Going(ok_values(rs.take(n as int)), all_errors(rs.take(n as int)), ks[n as int]),
    decreases n,
{
    if n == 0 {
        assert(rs.take(0) =~= Seq::<Result<CoercedSpec, Seq<ErrorSpec>>>::empty());
    } else {
        run_items(cx, inner, node, path, rs, ks, (n - 1) as nat);
        law_items_walk_step(cx, inner, node, path, ks[0], (n - 1) as nat);
        assert(item_step(cx, inner, node, path, n - 1, ks[n - 1]) == (StepSpec::Done(rs[n - 1]), ks[n as int]));
        assert(rs.take(n as int).drop_last() =~= rs.take(n - 1));
        assert(rs.take(n as int).last() == rs[n - 1]);
    }
}

proof fn all_ok(cs: Seq<CoercedSpec>)
    ensures
        ok_values(Seq::new(cs.len(), |j: int| Result::<CoercedSpec, Seq<ErrorSpec>>::Ok(cs[j]))) == cs,
        all_errors(Seq::new(cs.len(), |j: int| Result::<CoercedSpec, Seq<ErrorSpec>>::Ok(cs[j])))
            == Seq::<ErrorSpec>::empty(),
    decreases cs.len(),
{
    let rs = Seq::new(cs.len(), |j: int| Result::<CoercedSpec, Seq<ErrorSpec>>::Ok(cs[j]));
    if cs.len() > 0 {
        let d = cs.drop_last();
        all_ok(d);
        assert(rs.drop_last() =~= Seq::new(d.len(), |j: int| Result::<CoercedSpec, Seq<ErrorSpec>>::Ok(d[j])));
        assert(ok_values(rs) =~= cs);
    } else {
        assert(ok_values(rs) =~= cs);
    }
}

/// Every key converts to a string that names a field of `obj`.
pub open spec fn keys_name_fields(nodes: Seq<InputNode>, entries: Seq<(usize, usize)>, obj: InputObjectTypeDefinition) -> bool {
    forall|m: int| 0 <= m < entries.len()
        ==> (#[trigger] key_string(nodes, entries[m].0) matches Some(s) && obj.has_field_named(s))
}

proof fn named_keys_convert(nodes: Seq<InputNode>, entries: Seq<(usize, usize)>, obj: InputObjectTypeDefinition, j: int)
    requires
        keys_name_fields(nodes, entries, obj),
        0 <= j,
    ensures
        first_non_string_key(nodes, entries, j) is None,
    decreases entries.len() - j,
{
    if j < entries.len() {
        assert(key_string(nodes, entries[j].0) is Some);
        named_keys_convert(nodes, entries, obj, j + 1);
    }
}

proof fn named_keys_known(nodes: Seq<InputNode>, entries: Seq<(usize, usize)>, obj: InputObjectTypeDefinition, path: Seq<Seq<char>>, n: nat)
    requires
        keys_name_fields(nodes, entries, obj),
        n <= entries.len(),
    ensures
        unknown_key_errors(nodes, entries, obj, path, n) == Seq::<ErrorSpec>::empty(),
    decreases n,
{
    if n > 0 {
        assert(key_string(nodes, entries[n - 1].0) matches Some(s) && obj.has_field_named(s));
        named_keys_known(nodes, entries, obj, path, (n - 1) as nat);
    }
}

/// An input object coerces a hash from its fields' results: when its
/// fields, in the order of their definition, complete with the results
/// `rs` (the outcomes of outside coercions threaded through `ks` from the
/// first), a key that does not convert to a string raises; otherwise the
/// errors are those of the fields, in order, followed by one for each key
/// that names no field, in the order of the keys, and with no error the
/// result is a new instance of the type's Ruby class built from the
/// fields' values, in order.
pub proof fn law_object_from_field_results(
    objs: Seq<InputObjectTypeDefinition>,
    nodes: Seq<InputNode>,
    outs: Seq<ExternalOutcome>,
    i: nat,
    node: nat,
    path: Seq<Seq<char>>,
    rs: Seq<Result<CoercedSpec, Seq<ErrorSpec>>>,
    ks: Seq<nat>,
)
    requires
        nodes_wf(nodes),
        node < nodes.len(),
        i < objs.len(),
        nodes[node as int].kind is Hash,
        rs.len() == objs[i as int].fields_spec().len(),
        fields_run(cx_of(objs, nodes, outs), i, node, path, rs, ks),
        ks[0] == 0,
    ensures
        object_spec(cx_of(objs, nodes, outs), i, node, path, 0) == (match first_non_string_key(
            nodes,
            nodes[node as int].kind->Hash_0@,
            0,
        ) {
            Some(key) => (StepSpec::NonStringKey(key), ks.last()),
            None => {
                let all = all_errors(rs) + unknown_key_errors(
                    nodes,
                    nodes[node as int].kind->Hash_0@,
                    objs[i as int],
                    path,
                    nodes[node as int].kind->Hash_0@.len(),
                );
                if all.len() == 0 {
                    (StepSpec::Done(Ok(CoercedSpec::Instance(objs[i as int].ruby_class_spec(), ok_values(rs)))), ks.last())
                } else {
                    (StepSpec::Done(Err(all)), ks.last())
                }
            },
        }),
{
    let cx = cx_of(objs, nodes, outs);
    run_fields(cx, i, node, path, rs, ks, rs.len());
    assert(rs.take(rs.len() as int) =~= rs);
}

/// An input object whose fields all coerce, to the values `cs` in the
/// order of their definition, and whose hash has only keys that convert to
/// strings naming its fields, coerces to a new instance of its Ruby class
/// built from exactly those values.
pub proof fn law_object_all_fields_ok(
    objs: Seq<InputObjectTypeDefinition>,
    nodes: Seq<InputNode>,
    outs: Seq<ExternalOutcome>,
    i: nat,
    node: nat,
    path: Seq<Seq<char>>,
    cs: Seq<CoercedSpec>,
    ks: Seq<nat>,
)
    requires
        nodes_wf(nodes),
        node < nodes.len(),
        i < objs.len(),
        nodes[node as int].kind is Hash,
        cs.len() == objs[i as int].fields_spec().len(),
        ks.len() == cs.len() + 1,
        ks[0] == 0,
        forall|j: int| 0 <= j < cs.len() ==> #[trigger] field_step(cx_of(objs, nodes, outs), i, node, path, j, ks[j])
            == (StepSpec::Done(Ok(cs[j])), ks[j + 1]),
        keys_name_fields(nodes, nodes[node as int].kind->Hash_0@, objs[i as int]),
    ensures
        object_spec(cx_of(objs, nodes, outs), i, node, path, 0)
            == (StepSpec::Done(Ok(CoercedSpec::Instance(objs[i as int].ruby_class_spec(), cs))), ks.last()),
{
    let cx = cx_of(objs, nodes, outs);
    let rs = Seq::new(cs.len(), |j: int| Result::<CoercedSpec, Seq<ErrorSpec>>::Ok(cs[j]));
    let entries = nodes[node as int].kind->Hash_0@;
    assert forall|j: int| 0 <= j < rs.len() implies #[trigger] field_step(cx, i, node, path, j, ks[j])
        == (StepSpec::Done(rs[j]), ks[j + 1]) by {
        assert(field_step(cx, i, node, path, j, ks[j]) == (StepSpec::Done(Ok(cs[j])), ks[j + 1]));
    }
    law_object_from_field_results(objs, nodes, outs, i, node, path, rs, ks);
    all_ok(cs);
    named_keys_convert(nodes, entries, objs[i as int], 0);
    named_keys_known(nodes, entries, objs[i as int], path, entries.len());
    assert(all_errors(rs) + unknown_key_errors(nodes, entries, objs[i as int], path, entries.len())
        =~= Seq::<ErrorSpec>::empty());
}

/// The walk over an input object's fields stops at the first field whose
/// coercion raises or needs an outside coercion: the input object's
/// coercion is that field's step, and no later field is coerced.
pub proof fn law_object_stops_at_field(
    objs: Seq<InputObjectTypeDefinition>,
    nodes: Seq<InputNode>,
    outs: Seq<ExternalOutcome>,
    i: nat,
    node: nat,
    path: Seq<Seq<char>>,
    rs: Seq<Result<CoercedSpec, Seq<ErrorSpec>>>,
    ks: Seq<nat>,
)
    requires
        nodes_wf(nodes),
        node < nodes.len(),
        i < objs.len(),
        nodes[node as int].kind is Hash,
        rs.len() < objs[i as int].fields_spec().len(),
        fields_run(cx_of(objs, nodes, outs), i, node, path, rs, ks),
        ks[0] == 0,
        !(field_step(cx_of(objs, nodes, outs), i, node, path, rs.len() as int, ks.last()).0 is Done),
    ensures
        object_spec(cx_of(objs, nodes, outs), i, node, path, 0)
            == field_step(cx_of(objs, nodes, outs), i, node, path, rs.len() as int, ks.last()),
{
    let cx = cx_of(objs, nodes, outs);
    run_fields(cx, i, node, path, rs, ks, rs.len());
    law_fields_walk_step(cx, i, node, path, 0, rs.len());
    lemma_fields_stopped(cx, i, node, path, 0, rs.len() + 1, field_count(cx, i));
}

/// An array coerces to a list type from its items' results: when its items
/// complete with the results `rs` (the outcomes of outside coercions
/// threaded through `ks` from the first), the errors are those of the
/// items, in order, and with no error the result is the list of the
/// items' values, in order.
pub proof fn law_list_from_item_results(
    objs: Seq<InputObjectTypeDefinition>,
    nodes: Seq<InputNode>,
    outs: Seq<ExternalOutcome>,
    inner: InputTypeReference,
    required: bool,
    node: nat,
    path: Seq<Seq<char>>,
    rs: Seq<Result<CoercedSpec, Seq<ErrorSpec>>>,
    ks: Seq<nat>,
)
    requires
        nodes_wf(nodes),
        node < nodes.len(),
        nodes[node as int].kind is Array,
        rs.len() == nodes[node as int].kind->Array_0@.len(),
        items_run(cx_of(objs, nodes, outs), inner, node, path, rs, ks),
        ks[0] == 0,
    ensures
        coerce_spec(cx_of(objs, nodes, outs), InputTypeReference::List(Box::new(inner), required), node, path, 0)
            == (if all_errors(rs).len() == 0 {
            (StepSpec::Done(Ok(CoercedSpec::List(ok_values(rs)))), ks.last())
        } else {
            (StepSpec::Done(Err(all_errors(rs))), ks.last())
        }),
{
    let cx = cx_of(objs, nodes, outs);
    run_items(cx, inner, node, path, rs, ks, rs.len());
    assert(rs.take(rs.len() as int) =~= rs);
}

/// An array whose items all coerce, to the values `cs` in order, coerces
/// to a list type as the list of exactly those values (an empty array to
/// the empty list).
pub proof fn law_list_all_items_ok(
    objs: Seq<InputObjectTypeDefinition>,
    nodes: Seq<InputNode>,
    outs: Seq<ExternalOutcome>,
    inner: InputTypeReference,
    required: bool,
    node: nat,
    path: Seq<Seq<char>>,
    cs: Seq<CoercedSpec>,
    ks: Seq<nat>,
)
    requires
        nodes_wf(nodes),
        node < nodes.len(),
        nodes[node as int].kind is Array,
        cs.len() == nodes[node as int].kind->Array_0@.len(),
        ks.len() == cs.len() + 1,
        ks[0] == 0,
        forall|j: int| 0 <= j < cs.len() ==> #[trigger] item_step(cx_of(objs, nodes, outs), inner, node, path, j, ks[j])
            == (StepSpec::Done(Ok(cs[j])), ks[j + 1]),
    ensures
        coerce_spec(cx_of(objs, nodes, outs), InputTypeReference::List(Box::new(inner), required), node, path, 0)
            == (StepSpec::Done(Ok(CoercedSpec::List(cs))), ks.last()),
{
    let cx = cx_of(objs, nodes, outs);
    let rs = Seq::new(cs.len(), |j: int| Result::<CoercedSpec, Seq<ErrorSpec>>::Ok(cs[j]));
    assert forall|j: int| 0 <= j < rs.len() implies #[trigger] item_step(cx, inner, node, path, j, ks[j])
        == (StepSpec::Done(rs[j]), ks[j + 1]) by {
        assert(item_step(cx, inner, node, path, j, ks[j]) == (StepSpec::Done(Ok(cs[j])), ks[j + 1]));
    }
    law_list_from_item_results(objs, nodes, outs, inner, required, node, path, rs, ks);
    all_ok(cs);
}

/// The walk over an array's items stops at the first item whose coercion
/// raises or needs an outside coercion: the list coercion is that item's
/// step, and no later item is coerced.
pub proof fn law_list_stops_at_item(
    objs: Seq<InputObjectTypeDefinition>,
    nodes: Seq<InputNode>,
    outs: Seq<ExternalOutcome>,
    inner: InputTypeReference,
    required: bool,
    node: nat,
    path: Seq<Seq<char>>,
    rs: Seq<Result<CoercedSpec, Seq<ErrorSpec>>>,
    ks: Seq<nat>,
)
    requires
        nodes_wf(nodes),
        node < nodes.len(),
        nodes[node as int].kind is Array,
        rs.len() < nodes[node as int].kind->Array_0@.len(),
        items_run(cx_of(objs, nodes, outs), inner, node, path, rs, ks),
        ks[0] == 0,
        !(item_step(cx_of(objs, nodes, outs), inner, node, path, rs.len() as int, ks.last()).0 is Done),
    ensures
        coerce_spec(cx_of(objs, nodes, outs), InputTypeReference::List(Box::new(inner), required), node, path, 0)
            == item_step(cx_of(objs, nodes, outs), inner, node, path, rs.len() as int, ks.last()),
{
    let cx = cx_of(objs, nodes, outs);
    run_items(cx, inner, node, path, rs, ks, rs.len());
    law_items_walk_step(cx, inner, node, path, 0, rs.len());
    lemma_items_stopped(cx, inner, node, path, 0, rs.len() + 1, array_items(cx, node).len());
}

} // verus!
