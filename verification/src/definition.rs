use std::any::TypeId;
use vstd::prelude::*;
use vstd::std_specs::cmp::PartialEqSpecImpl;

use crate::scope::{Color, Scope};
use crate::ty::Type;

verus! {

/// Represents a unique key for a provider: a type together with a name.
#[derive(Clone, Debug)]
pub struct Key {
    /// The name of the provider.
    pub name: String,
    /// The type of the provider generic.
    pub ty: Type,
}

impl View for Key {
    type V = (TypeId, Seq<char>);

    /// Two keys denote the same provider when their type identifiers and names agree.
    open spec fn view(&self) -> (TypeId, Seq<char>) {
        (self.ty.id, self.name@)
    }
}

impl Key {
    /// Creates the key of type `ty` with the given name.
    pub fn new(ty: Type, name: &str) -> (key: Key)
        ensures
            key.ty == ty,
            key.name@ == name@,
    {
        Key { name: name.to_owned(), ty }
    }

    /// A copy of the key, equal to it in every field.
    pub fn duplicate(&self) -> (key: Key)
        ensures
            key == *self,
    {
        Key { name: self.name.clone(), ty: self.ty }
    }

    /// Whether the two keys denote the same provider.
    pub fn same(&self, other: &Key) -> (r: bool)
        ensures
            r == (self@ == other@),
    {
        self.ty.same(&other.ty) && self.name == other.name
    }
}

/// Represents a definition of a provider.
#[derive(Clone, Debug)]
pub struct Definition {
    /// The unique key of the provider.
    pub key: Key,
    /// The origin type of the provider: for a provider made by `bind`, the type of the
    /// provider it was bound from, whose instance it transforms; otherwise `None`.
    pub origin: Option<Type>,
    /// The scope of the provider.
    pub scope: Scope,
    /// The color of the constructor.
    pub color: Option<Color>,
    /// Whether the provider is conditional.
    pub conditional: bool,
}

/// The definition of a provider of type `ty` bound from a provider defined by `d`.
pub open spec fn bound_definition(d: Definition, ty: Type) -> Definition {
    Definition { key: Key { name: d.key.name, ty }, origin: Some(d.key.ty), ..d }
}

impl Definition {
    /// A definition of a provider of type `ty` under `name`, with no origin.
    pub fn new(ty: Type, name: &str, scope: Scope, color: Option<Color>, conditional: bool) -> (d: Definition)
        ensures
            d.key.ty == ty,
            d.key.name@ == name@,
            d.origin is None,
            d.scope == scope,
            d.color == color,
            d.conditional == conditional,
    {
        Definition { key: Key::new(ty, name), origin: None, scope, color, conditional }
    }

    /// The definition of a provider of type `ty` bound from this one: same name, scope,
    /// color and condition flag, with this definition's type as its origin.
    pub fn bind(self, ty: Type) -> (d: Definition)
        ensures
            d == bound_definition(self, ty),
    {
        let Definition { key: Key { name, ty: origin }, scope, color, conditional, origin: _ } = self;
        Definition { key: Key { name, ty }, origin: Some(origin), scope, color, conditional }
    }

    /// A copy of the definition, equal to it in every field.
    pub fn duplicate(&self) -> (d: Definition)
        ensures
            d == *self,
    {
        Definition {
            key: self.key.duplicate(),
            origin: self.origin,
            scope: self.scope,
            color: self.color,
            conditional: self.conditional,
        }
    }
}

impl PartialEq for Key {
    /// Two keys are equal when their types and names are.
    fn eq(&self, other: &Key) -> (r: bool) {
        self.same(other)
    }
}

impl Eq for Key {
}

impl PartialEqSpecImpl for Key {
    open spec fn obeys_eq_spec() -> bool {
        true
    }

    open spec fn eq_spec(&self, other: &Key) -> bool {
        self@ == other@
    }
}

/// Whether two origins are equal: both absent, or types with the same identifier.
pub open spec fn same_origin(a: Option<Type>, b: Option<Type>) -> bool {
    match (a, b) {
        (Some(x), Some(y)) => x.id == y.id,
        (None, None) => true,
        _ => false,
    }
}

impl PartialEq for Definition {
    /// Two definitions are equal when their keys, origins, scopes, colors and condition
    /// flags are.
    fn eq(&self, other: &Definition) -> (r: bool) {
        let origin = match (&self.origin, &other.origin) {
            (Some(a), Some(b)) => a.same(b),
            (None, None) => true,
            _ => false,
        };
        let color = match (&self.color, &other.color) {
            (Some(a), Some(b)) => *a == *b,
            (None, None) => true,
            _ => false,
        };
        self.key.same(&other.key) && origin && self.scope == other.scope && color && self.conditional == other.conditional
    }
}

impl Eq for Definition {
}

impl PartialEqSpecImpl for Definition {
    open spec fn obeys_eq_spec() -> bool {
        true
    }

    open spec fn eq_spec(&self, other: &Definition) -> bool {
        &&& self.key@ == other.key@
        &&& same_origin(self.origin, other.origin)
        &&& self.scope == other.scope
        &&& self.color == other.color
        &&& self.conditional == other.conditional
    }
}

} // verus!
