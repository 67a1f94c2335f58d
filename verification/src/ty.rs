use std::any::TypeId;
use vstd::prelude::*;
use vstd::std_specs::cmp::PartialEqSpecImpl;

verus! {

#[verifier::external_type_specification]
#[verifier::external_body]
pub struct ExTypeId(TypeId);

/// `std::any::TypeId::of`: the identifier of the type `T`; nothing is stated of it.
#[verifier::external_body]
fn type_id_of<T: 'static>() -> TypeId {
    TypeId::of::<T>()
}

/// `<TypeId as PartialEq>::eq`: two identifiers compare equal exactly when they are the same value.
#[verifier::external_body]
fn type_id_eq(a: &TypeId, b: &TypeId) -> (r: bool)
    ensures
        r == (*a == *b),
{
    *a == *b
}

/// Represents a type.
#[derive(Clone, Copy, Debug)]
pub struct Type {
    /// The name of the type.
    pub name: &'static str,
    /// The unique identifier of the type.
    pub id: TypeId,
}

impl Type {
    /// The type `T`, shown under `name`.
    pub fn new<T: 'static>(name: &'static str) -> (t: Type)
        ensures
            t.name == name,
    {
        Type { name, id: type_id_of::<T>() }
    }

    /// Whether the two types have the same identifier.
    pub fn same(&self, other: &Type) -> (r: bool)
        ensures
            r == (self.id == other.id),
    {
        type_id_eq(&self.id, &other.id)
    }
}

impl PartialEq for Type {
    /// Two types are equal when they have the same identifier.
    fn eq(&self, other: &Type) -> (r: bool) {
        type_id_eq(&self.id, &other.id)
    }
}

impl Eq for Type {
}

impl PartialEqSpecImpl for Type {
    open spec fn obeys_eq_spec() -> bool {
        true
    }

    open spec fn eq_spec(&self, other: &Type) -> bool {
        self.id == other.id
    }
}

} // verus!
