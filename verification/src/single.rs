use vstd::prelude::*;

use crate::ty::Type;

verus! {

/// Represents a [`Singleton`](crate::Scope::Singleton) or [`SingleOwner`](crate::Scope::SingleOwner)
/// instance stored in a context: the instance, the type it was stored as, and whether owned
/// copies of it may be handed out (only a singleton's may).
pub struct Single<V> {
    ty: Type,
    instance: V,
    clonable: bool,
}

impl<V> Single<V> {
    /// What the single made by [`Single::spec_new`] holds.
    pub proof fn lemma_spec_new(ty: Type, instance: V, clonable: bool)
        ensures
            Self::spec_new(ty, instance, clonable).spec_ty() == ty,
            Self::spec_new(ty, instance, clonable).spec_instance() == instance,
            Self::spec_new(ty, instance, clonable).spec_clonable() == clonable,
    {
    }

    /// The type the instance was stored as.
    pub closed spec fn spec_ty(&self) -> Type {
        self.ty
    }

    /// The stored instance.
    pub closed spec fn spec_instance(&self) -> V {
        self.instance
    }

    /// Whether owned copies of the instance may be handed out.
    pub closed spec fn spec_clonable(&self) -> bool {
        self.clonable
    }

    /// The single storing `instance` as an instance of type `ty`.
    pub closed spec fn spec_new(ty: Type, instance: V, clonable: bool) -> Self {
        Single { ty, instance, clonable }
    }

    /// Stores `instance` as an instance of type `ty`.
    pub fn new(ty: Type, instance: V, clonable: bool) -> (s: Self)
        ensures
            s == Self::spec_new(ty, instance, clonable),
            s.spec_ty() == ty,
            s.spec_instance() == instance,
            s.spec_clonable() == clonable,
    {
        Single { ty, instance, clonable }
    }

    /// Returns a reference to the instance.
    pub fn get_ref(&self) -> (r: &V)
        ensures
            *r == self.spec_instance(),
    {
        &self.instance
    }

    /// The type the instance was stored as.
    pub fn ty(&self) -> (t: Type)
        ensures
            t == self.spec_ty(),
    {
        self.ty
    }
}

impl<V: Clone> Single<V> {
    /// Returns an owned copy of the instance, if the instance may be handed out.
    pub fn get_owned(&self) -> (r: Option<V>)
        ensures
            r is Some <==> self.spec_clonable(),
            r matches Some(v) ==> cloned(self.spec_instance(), v),
    {
        if self.clonable {
            Some(self.instance.clone())
        } else {
            None
        }
    }
}

/// Represents a [`Single`] whose type is only known at run time.
pub struct DynSingle<V> {
    origin: Single<V>,
}

impl<V> DynSingle<V> {
    /// The single this value was made from.
    pub closed spec fn spec_single(&self) -> Single<V> {
        self.origin
    }

    /// Erases the type of `single`.
    pub fn new(single: Single<V>) -> (d: Self)
        ensures
            d.spec_single() == single,
    {
        DynSingle { origin: single }
    }

    /// Returns a reference of the origin [`Single`] when it was stored as type `ty`.
    pub fn as_single(&self, ty: &Type) -> (r: Option<&Single<V>>)
        ensures
            r is Some <==> self.spec_single().spec_ty().id == ty.id,
            r matches Some(s) ==> *s == self.spec_single(),
    {
        if self.origin.ty.same(ty) {
            Some(&self.origin)
        } else {
            None
        }
    }
}

impl<V> From<Single<V>> for DynSingle<V> {
    fn from(value: Single<V>) -> (d: Self) {
        DynSingle { origin: value }
    }
}

impl<V> vstd::std_specs::convert::FromSpecImpl<Single<V>> for DynSingle<V> {
    open spec fn obeys_from_spec() -> bool {
        true
    }

    closed spec fn from_spec(value: Single<V>) -> Self {
        DynSingle { origin: value }
    }
}

} // verus!
