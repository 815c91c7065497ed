//! Coercion errors: what went wrong, and where in the input.
use vstd::prelude::*;
use vstd::string::StringExecFns;

verus! {

/// One reason why an input value does not coerce, with the path (field
/// names and list indices) from the root of the input to the place where
/// it was found.
#[derive(Debug)]
pub struct CoercionError {
    pub message: String,
    pub path: Vec<String>,
}

/// A coercion error in terms of character sequences.
pub struct ErrorSpec {
    pub message: Seq<char>,
    pub path: Seq<Seq<char>>,
}

pub open spec fn error_view(e: CoercionError) -> ErrorSpec {
    ErrorSpec { message: e.message@, path: e.path.deep_view() }
}

pub open spec fn errors_view(es: Seq<CoercionError>) -> Seq<ErrorSpec> {
    es.map_values(|e: CoercionError| error_view(e))
}

impl CoercionError {
    /// An error with the given message at the given path.
    pub fn new(message: String, path: Vec<String>) -> (r: Self)
        ensures
            r.message@ == message@,
            r.path.deep_view() == path.deep_view(),
    {
        CoercionError { message, path }
    }
}

/// A copy of a path.
pub fn clone_path(path: &Vec<String>) -> (r: Vec<String>)
    ensures
        r.deep_view() == path.deep_view(),
{
    let mut r: Vec<String> = Vec::new();
    let mut i: usize = 0;
    while i < path.len()
        invariant
            i <= path@.len(),
            r.deep_view() == path.deep_view().take(i as int),
        decreases path@.len() - i,
    {
        r.push(path[i].clone());
        assert(path.deep_view().take(i + 1) =~= path.deep_view().take(i as int).push(path@[i as int]@));
        i = i + 1;
    }
    assert(path.deep_view().take(i as int) =~= path.deep_view());
    r
}

/// A copy of `path` with `segment` appended.
pub fn extend_path(path: &Vec<String>, segment: String) -> (r: Vec<String>)
    ensures
        r.deep_view() == path.deep_view().push(segment@),
{
    let mut r = clone_path(path);
    r.push(segment);
    assert(r.deep_view() =~= path.deep_view().push(segment@));
    r
}

/// The character of a decimal digit.
pub open spec fn digit_char(d: nat) -> char {
    if d == 0 { '0' }
    else if d == 1 { '1' }
    else if d == 2 { '2' }
    else if d == 3 { '3' }
    else if d == 4 { '4' }
    else if d == 5 { '5' }
    else if d == 6 { '6' }
    else if d == 7 { '7' }
    else if d == 8 { '8' }
    else { '9' }
}

/// The decimal representation of `n`, without leading zeros.
pub open spec fn decimal(n: nat) -> Seq<char>
    decreases n,
{
    if n < 10 {
        seq![digit_char(n)]
    } else {
        decimal(n / 10).push(digit_char(n % 10))
    }
}

fn digit_str(d: usize) -> (r: &'static str)
    requires
        d < 10,
    ensures
        r@ == seq![digit_char(d as nat)],
{
    if d == 0 {
        proof { reveal_strlit("0"); }
        "0"
    } else if d == 1 {
        proof { reveal_strlit("1"); }
        "1"
    } else if d == 2 {
        proof { reveal_strlit("2"); }
        "2"
    } else if d == 3 {
        proof { reveal_strlit("3"); }
        "3"
    } else if d == 4 {
        proof { reveal_strlit("4"); }
        "4"
    } else if d == 5 {
        proof { reveal_strlit("5"); }
        "5"
    } else if d == 6 {
        proof { reveal_strlit("6"); }
        "6"
    } else if d == 7 {
        proof { reveal_strlit("7"); }
        "7"
    } else if d == 8 {
        proof { reveal_strlit("8"); }
        "8"
    } else {
        proof { reveal_strlit("9"); }
        "9"
    }
}

/// The path segment that names the list item at `index`: its decimal form.
pub fn index_segment(index: usize) -> (r: String)
    ensures
        r@ == decimal(index as nat),
    decreases index,
{
    if index < 10 {
        String::from_str(digit_str(index))
    } else {
        let mut s = index_segment(index / 10);
        s.append(digit_str(index % 10));
        s
    }
}

/// The message for a required field that the input leaves out.
pub open spec fn missing_field_message(field: Seq<char>) -> Seq<char> {
    "No value for required field "@ + field
}

/// The message for a key of the input that names no field.
pub open spec fn unknown_field_message(key: Seq<char>, owner: Seq<char>) -> Seq<char> {
    "No field named `"@ + key + "` on "@ + owner
}

/// The message for a value of the wrong kind.
pub open spec fn conversion_message(public_name: Seq<char>, target: Seq<char>) -> Seq<char> {
    "No implicit conversion of "@ + public_name + " to "@ + target
}

/// The message for an integer outside the 32-bit signed range.
pub open spec fn integer_range_message() -> Seq<char> {
    "Integer values must fit within 32 bits signed"@
}

/// The message for `nil` where a non-null value is required.
pub open spec fn null_message() -> Seq<char> {
    "Got null when a non-null value was expected"@
}

pub fn missing_field_error(field: &str, path: &Vec<String>) -> (r: CoercionError)
    ensures
        error_view(r) == (ErrorSpec { message: missing_field_message(field@), path: path.deep_view() }),
{
    let mut m = String::from_str("No value for required field ");
    m.append(field);
    CoercionError::new(m, clone_path(path))
}

pub fn unknown_field_error(key: &str, owner: &str, path: &Vec<String>) -> (r: CoercionError)
    ensures
        error_view(r) == (ErrorSpec {
            message: unknown_field_message(key@, owner@),
            path: path.deep_view(),
        }),
{
    let mut m = String::from_str("No field named `");
    m.append(key);
    m.append("` on ");
    m.append(owner);
    CoercionError::new(m, clone_path(path))
}

pub fn conversion_error(public_name: &str, target: &str, path: &Vec<String>) -> (r: CoercionError)
    ensures
        error_view(r) == (ErrorSpec {
            message: conversion_message(public_name@, target@),
            path: path.deep_view(),
        }),
{
    let mut m = String::from_str("No implicit conversion of ");
    m.append(public_name);
    m.append(" to ");
    m.append(target);
    CoercionError::new(m, clone_path(path))
}

pub fn integer_range_error(path: &Vec<String>) -> (r: CoercionError)
    ensures
        error_view(r) == (ErrorSpec { message: integer_range_message(), path: path.deep_view() }),
{
    CoercionError::new(
        String::from_str("Integer values must fit within 32 bits signed"),
        clone_path(path),
    )
}

pub fn null_error(path: &Vec<String>) -> (r: CoercionError)
    ensures
        error_view(r) == (ErrorSpec { message: null_message(), path: path.deep_view() }),
{
    CoercionError::new(
        String::from_str("Got null when a non-null value was expected"),
        clone_path(path),
    )
}

} // verus!
