//! The value that a successful coercion produces.
use vstd::prelude::*;
use crate::error::{CoercionError, ErrorSpec, error_view, errors_view};

verus! {

/// A handle on a default value that the caller holds (a JSON value of the
/// schema); the library only carries it to where it is used.
#[derive(Clone, Copy, Debug, PartialEq, Eq, Structural)]
pub struct JsonValue {
    pub handle: u64,
}

/// The result of coercing an input value, in terms of the input arena.
#[derive(Debug)]
pub enum Coerced {
    /// The input node at this index, unchanged.
    Input(usize),
    /// `nil`, for an optional field that the input leaves out.
    Null,
    /// The default value of a field that the input leaves out.
    Default(JsonValue),
    /// A new array of the coerced items.
    List(Vec<Coerced>),
    /// A new instance of the Ruby class with this id, built from the
    /// coerced field values, one per field in the order of the definition.
    Instance(u64, Vec<Coerced>),
    /// The value produced by the enum or custom scalar coercion with this
    /// number (see [`crate::coerce::ExternalOutcome`]).
    External(usize),
}

/// [`Coerced`] in terms of sequences.
pub enum CoercedSpec {
    Input(nat),
    Null,
    Default(u64),
    List(Seq<CoercedSpec>),
    Instance(u64, Seq<CoercedSpec>),
    External(nat),
}

pub open spec fn coerced_view(c: Coerced) -> CoercedSpec
    decreases c,
{
    match c {
        Coerced::Input(i) => CoercedSpec::Input(i as nat),
        Coerced::Null => CoercedSpec::Null,
        Coerced::Default(d) => CoercedSpec::Default(d.handle),
        Coerced::List(items) => CoercedSpec::List(coerced_seq_view(items@)),
        Coerced::Instance(class, args) => CoercedSpec::Instance(class, coerced_seq_view(args@)),
        Coerced::External(k) => CoercedSpec::External(k as nat),
    }
}

pub open spec fn coerced_seq_view(s: Seq<Coerced>) -> Seq<CoercedSpec>
    decreases s,
{
    if s.len() == 0 {
        Seq::empty()
    } else {
        coerced_seq_view(s.subrange(0, s.len() - 1)).push(coerced_view(s[s.len() - 1]))
    }
}

/// A coercion result in terms of sequences.
pub open spec fn result_view(r: Result<Coerced, Vec<CoercionError>>) -> Result<CoercedSpec, Seq<ErrorSpec>> {
    match r {
        Ok(c) => Ok(coerced_view(c)),
        Err(es) => Err(errors_view(es@)),
    }
}

pub proof fn lemma_coerced_seq_view_push(s: Seq<Coerced>, c: Coerced)
    ensures
        coerced_seq_view(s.push(c)) == coerced_seq_view(s).push(coerced_view(c)),
{
    assert(s.push(c).subrange(0, s.len() as int) =~= s);
}

pub proof fn lemma_coerced_seq_view_len(s: Seq<Coerced>)
    ensures
        coerced_seq_view(s).len() == s.len(),
    decreases s.len(),
{
    if s.len() > 0 {
        lemma_coerced_seq_view_len(s.subrange(0, s.len() - 1));
    }
}

pub proof fn lemma_errors_view_concat(a: Seq<CoercionError>, b: Seq<CoercionError>)
    ensures
        errors_view(a + b) == errors_view(a) + errors_view(b),
{
    assert(errors_view(a + b) =~= errors_view(a) + errors_view(b));
}

pub proof fn lemma_errors_view_push(a: Seq<CoercionError>, e: CoercionError)
    ensures
        errors_view(a.push(e)) == errors_view(a).push(error_view(e)),
{
    assert(errors_view(a.push(e)) =~= errors_view(a).push(error_view(e)));
}

} // verus!
