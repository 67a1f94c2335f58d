use vstd::prelude::*;

use crate::ty::Type;

verus! {

/// Represents a singleton instance of type `ty`, from which owned copies are handed out.
pub struct SingletonInstance<V> {
    ty: Type,
    instance: V,
}

impl<V> SingletonInstance<V> {
    /// The type the instance was stored as.
    pub closed spec fn spec_ty(&self) -> Type {
        self.ty
    }

    /// The stored instance.
    pub closed spec fn spec_instance(&self) -> V {
        self.instance
    }

    /// Returns a reference to the instance.
    pub fn get_ref(&self) -> (r: &V)
        ensures
            *r == self.spec_instance(),
    {
        &self.instance
    }
}

impl<V: Clone> SingletonInstance<V> {
    /// Stores a copy of `instance` as an instance of type `ty`.
    pub fn new(ty: Type, instance: &V) -> (s: Self)
        ensures
            s.spec_ty() == ty,
            cloned(*instance, s.spec_instance()),
    {
        SingletonInstance { ty, instance: instance.clone() }
    }

    /// Returns an owned copy of the instance.
    pub fn get_owned(&self) -> (r: V)
        ensures
            cloned(self.spec_instance(), r),
    {
        self.instance.clone()
    }
}

/// Represents a [`SingletonInstance`] whose type is only known at run time.
pub struct DynSingletonInstance<V> {
    origin: SingletonInstance<V>,
}

impl<V> DynSingletonInstance<V> {
    /// The singleton instance this value was made from.
    pub closed spec fn spec_singleton(&self) -> SingletonInstance<V> {
        self.origin
    }

    /// Erases the type of `singleton`.
    pub fn new(singleton: SingletonInstance<V>) -> (d: Self)
        ensures
            d.spec_singleton() == singleton,
    {
        DynSingletonInstance { origin: singleton }
    }

    /// Returns the reference of the origin [`SingletonInstance`] when it was stored as type `ty`.
    pub fn as_singleton(&self, ty: &Type) -> (r: Option<&SingletonInstance<V>>)
        ensures
            r is Some <==> self.spec_singleton().spec_ty().id == ty.id,
            r matches Some(s) ==> *s == self.spec_singleton(),
    {
        if self.origin.ty.same(ty) {
            Some(&self.origin)
        } else {
            None
        }
    }
}

impl<V> From<SingletonInstance<V>> for DynSingletonInstance<V> {
    fn from(value: SingletonInstance<V>) -> (d: Self) {
        DynSingletonInstance { origin: value }
    }
}

impl<V> vstd::std_specs::convert::FromSpecImpl<SingletonInstance<V>> for DynSingletonInstance<V> {
    open spec fn obeys_from_spec() -> bool {
        true
    }

    closed spec fn from_spec(value: SingletonInstance<V>) -> Self {
        DynSingletonInstance { origin: value }
    }
}

} // verus!
