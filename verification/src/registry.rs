//! The input object types of a schema, by index.
use vstd::prelude::*;
use crate::input_object_type_definition::InputObjectTypeDefinition;
use crate::type_reference::{BaseInputTypeReference, InputTypeReference, type_base};

verus! {

/// `b` refers only to input object types among the first `n`.
pub open spec fn base_ok(b: BaseInputTypeReference, n: nat) -> bool {
    match b {
        BaseInputTypeReference::InputObjectType(i) => i < n,
        _ => true,
    }
}

/// `t` refers only to input object types among the first `n`.
pub open spec fn type_ok(t: InputTypeReference, n: nat) -> bool {
    base_ok(type_base(t), n)
}

/// Every field of every input object type refers to an input object type
/// of the sequence.
pub open spec fn registry_ok(objs: Seq<InputObjectTypeDefinition>) -> bool {
    forall|i: int, j: int|
        0 <= i < objs.len() && 0 <= j < objs[i].fields_spec().len() ==> type_ok(
            #[trigger] objs[i].fields_spec()[j].type_spec(),
            objs.len(),
        )
}

/// Whether `t` refers only to input object types among the first `n`.
pub fn type_is_valid(t: &InputTypeReference, n: usize) -> (r: bool)
    ensures
        r == type_ok(*t, n as nat),
{
    match t.base() {
        BaseInputTypeReference::InputObjectType(i) => *i < n,
        _ => true,
    }
}

/// The input object types of a schema. Type references name input object
/// types by their index here, and every such index is in range.
pub struct InputTypeRegistry {
    input_objects: Vec<InputObjectTypeDefinition>,
}

impl InputTypeRegistry {
    #[verifier::type_invariant]
    spec fn inv(self) -> bool {
        registry_ok(self.input_objects@)
    }

    pub closed spec fn objects_spec(&self) -> Seq<InputObjectTypeDefinition> {
        self.input_objects@
    }

    /// The registry of `input_objects`, or `None` when a field of one of
    /// them refers to an input object type index that is out of range.
    pub fn new(input_objects: Vec<InputObjectTypeDefinition>) -> (r: Option<Self>)
        ensures
            r is Some <==> registry_ok(input_objects@),
            r matches Some(reg) ==> reg.objects_spec() == input_objects@,
    {
        let n = input_objects.len();
        let mut i: usize = 0;
        while i < n
            invariant
                n == input_objects@.len(),
                i <= n,
                forall|a: int, b: int|
                    0 <= a < i && 0 <= b < input_objects@[a].fields_spec().len() ==> type_ok(
                        #[trigger] input_objects@[a].fields_spec()[b].type_spec(),
                        n as nat,
                    ),
            decreases n - i,
        {
            let fields = input_objects[i].input_field_definitions();
            let mut j: usize = 0;
            while j < fields.len()
                invariant
                    n == input_objects@.len(),
                    i < n,
                    j <= fields@.len(),
                    fields@ == input_objects@[i as int].fields_spec(),
                    forall|a: int, b: int|
                        0 <= a < i && 0 <= b < input_objects@[a].fields_spec().len() ==> type_ok(
                            #[trigger] input_objects@[a].fields_spec()[b].type_spec(),
                            n as nat,
                        ),
                    forall|b: int| 0 <= b < j ==> type_ok(#[trigger] fields@[b].type_spec(), n as nat),
                decreases fields@.len() - j,
            {
                if !type_is_valid(fields[j].type_reference(), n) {
                    assert(!type_ok(input_objects@[i as int].fields_spec()[j as int].type_spec(), n as nat));
                    return None;
                }
                j = j + 1;
            }
            i = i + 1;
        }
        Some(InputTypeRegistry { input_objects })
    }

    /// The input object types; every field type refers to one of them.
    pub fn objects(&self) -> (r: &Vec<InputObjectTypeDefinition>)
        ensures
            r@ == self.objects_spec(),
            registry_ok(r@),
    {
        proof {
            use_type_invariant(self);
        }
        &self.input_objects
    }

    /// The number of input object types.
    pub fn len(&self) -> (r: usize)
        ensures
            r == self.objects_spec().len(),
    {
        self.input_objects.len()
    }
}

} // verus!
