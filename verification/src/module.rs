use vstd::prelude::*;

use crate::context::{lemma_modules_constructed_concat, modules_constructed};
use crate::flatten::{lemma_flat_concat, Nested};
use crate::provider::DynProvider;
use crate::ty::Type;

verus! {

/// Represents a module: a set of providers, optionally with submodules, loaded into a
/// context together.
pub trait Module<F> {
    /// Whether the providers included in the module should be created eagerly, default is false.
    fn eager_create() -> (eager: bool)
        default_ensures
            !eager,
    {
        false
    }

    /// Included submodules, default is None.
    fn submodules() -> (submodules: Option<Vec<ResolveModule<F>>>)
        default_ensures
            submodules is None,
    {
        None
    }

    /// Included providers.
    fn providers() -> Vec<DynProvider<F>>;
}

/// A type representing a Module, converted from a type that implements [`Module`].
pub struct ResolveModule<F> {
    ty: Type,
    eager_create: bool,
    submodules: Option<Vec<ResolveModule<F>>>,
    providers: Vec<DynProvider<F>>,
}

impl<F> ResolveModule<F> {
    /// The type the module was converted from.
    pub closed spec fn spec_ty(&self) -> Type {
        self.ty
    }

    /// Whether the providers of the module are created eagerly.
    pub closed spec fn spec_eager_create(&self) -> bool {
        self.eager_create
    }

    /// The providers of the module.
    pub closed spec fn spec_providers(&self) -> Seq<DynProvider<F>> {
        self.providers@
    }

    /// The submodules, as the module holds them.
    pub closed spec fn spec_submodules(&self) -> Option<Vec<ResolveModule<F>>> {
        self.submodules
    }

    /// The providers, as the module holds them.
    pub closed spec fn spec_provider_list(&self) -> Vec<DynProvider<F>> {
        self.providers
    }

    /// Create a [`ResolveModule`] from a type that implements [`Module`]: its type is `M`,
    /// shown under `name` (callers pass the type's full name), and its eager creation,
    /// submodules and providers are what `M`'s functions return.
    pub fn new<M: Module<F> + 'static>(name: &'static str) -> (m: Self)
        ensures
            m.spec_ty().name == name,
            call_ensures(M::eager_create, (), m.spec_eager_create()),
            call_ensures(M::submodules, (), m.spec_submodules()),
            call_ensures(M::providers, (), m.spec_provider_list()),
    {
        ResolveModule {
            ty: Type::new::<M>(name),
            eager_create: M::eager_create(),
            submodules: M::submodules(),
            providers: M::providers(),
        }
    }

    /// Whether every provider of every module of `modules` and of their submodules, and
    /// every provider bound to one of them, has a constructor.
    pub fn all_constructed(modules: &Vec<ResolveModule<F>>) -> (b: bool)
        ensures
            b == modules_constructed(ResolveModule::<F>::flat(modules@)),
        decreases modules@,
    {
        let ghost ms = modules@;
        let mut i: usize = 0;
        assert(ms.take(0) =~= Seq::<ResolveModule<F>>::empty());
        proof {
            ResolveModule::<F>::lemma_flat_step(ms.take(0));
        }
        while i < modules.len()
            invariant
                i <= ms.len(),
                ms == modules@,
                modules_constructed(ResolveModule::<F>::flat(ms.take(i as int))),
            decreases ms.len() - i,
        {
            let m = &modules[i];
            let here = DynProvider::all_constructed(&m.providers);
            let below = match &m.submodules {
                Some(v) => {
                    proof {
                        assert(decreases_to!(ms => ms[i as int]));
                        assert(decreases_to!(ms[i as int] => ms[i as int].submodules));
                        assert(decreases_to!(ms[i as int].submodules => *v));
                        assert(decreases_to!(*v => v@));
                    }
                    ResolveModule::all_constructed(v)
                },
                None => true,
            };
            let ghost one = seq![ms[i as int]];
            proof {
                ResolveModule::<F>::lemma_flat_step(one);
                ResolveModule::<F>::lemma_flat_step(one.drop_first());
                assert(one.drop_first() =~= Seq::<ResolveModule<F>>::empty());
                let head = seq![ms[i as int].stripped()];
                assert(head[0].spec_providers() == ms[i as int].spec_providers());
                assert(ResolveModule::<F>::flat(one) =~= head + ResolveModule::<F>::flat(ms[i as int].children()));
                lemma_modules_constructed_concat(head, ResolveModule::<F>::flat(ms[i as int].children()));
                assert(modules_constructed(head) == here);
                assert(ms.take(i + 1) =~= ms.take(i as int) + one);
                lemma_flat_concat(ms.take(i as int), one);
                lemma_modules_constructed_concat(ResolveModule::<F>::flat(ms.take(i as int)), ResolveModule::<F>::flat(one));
                assert(ms =~= ms.take(i + 1) + ms.skip(i + 1));
                lemma_flat_concat(ms.take(i + 1), ms.skip(i + 1));
                lemma_modules_constructed_concat(ResolveModule::<F>::flat(ms.take(i + 1)), ResolveModule::<F>::flat(ms.skip(i + 1)));
            }
            if !(here && below) {
                return false;
            }
            i = i + 1;
        }
        assert(ms.take(i as int) =~= ms);
        true
    }

    /// A module of the given type, eager creation, submodules and providers.
    pub fn from_parts(
        ty: Type,
        eager_create: bool,
        submodules: Option<Vec<ResolveModule<F>>>,
        providers: Vec<DynProvider<F>>,
    ) -> (m: Self)
        ensures
            m.spec_ty() == ty,
            m.spec_eager_create() == eager_create,
            m.spec_providers() == providers@,
            m.children() == (match submodules {
                Some(v) => v@,
                None => Seq::empty(),
            }),
    {
        ResolveModule { ty, eager_create, submodules, providers }
    }

    /// Represents the type that is converted to a ResolveModule.
    pub fn ty(&self) -> (t: Type)
        ensures
            t == self.spec_ty(),
    {
        self.ty
    }

    /// Whether the providers included in the module should be created eagerly.
    pub fn eager_create(&self) -> (b: bool)
        ensures
            b == self.spec_eager_create(),
    {
        self.eager_create
    }

    /// Takes out the submodules.
    pub fn submodules(&mut self) -> (r: Option<Vec<ResolveModule<F>>>)
        ensures
            *final(self) == old(self).stripped(),
            r matches Some(v) ==> v@ == old(self).children(),
            r is None ==> old(self).children() == Seq::<ResolveModule<F>>::empty(),
    {
        self.take_children()
    }

    /// The providers of the module.
    pub fn providers(self) -> (r: Vec<DynProvider<F>>)
        ensures
            r@ == self.spec_providers(),
    {
        self.providers
    }
}

impl<F> Nested for ResolveModule<F> {
    /// The submodules that have not been taken out yet.
    closed spec fn children(&self) -> Seq<ResolveModule<F>> {
        match self.submodules {
            Some(v) => v@,
            None => Seq::empty(),
        }
    }

    /// The module with its submodules taken out.
    closed spec fn stripped(&self) -> ResolveModule<F> {
        ResolveModule { submodules: None, ..*self }
    }

    closed spec fn flat(s: Seq<ResolveModule<F>>) -> Seq<ResolveModule<F>>
        decreases s,
    {
        if s.len() == 0 {
            Seq::empty()
        } else {
            let m = s[0];
            match m.submodules {
                Some(v) => {
                    proof {
                        assert(decreases_to!(s => s[0]));
                        assert(decreases_to!(s[0] => s[0].submodules));
                        assert(decreases_to!(s[0].submodules => v));
                        assert(decreases_to!(v => v@));
                    }
                    seq![ResolveModule { submodules: None, ..m }] + Self::flat(v@) + Self::flat(s.drop_first())
                },
                None => seq![ResolveModule { submodules: None, ..m }] + Self::flat(s.drop_first()),
            }
        }
    }

    proof fn lemma_flat_step(s: Seq<ResolveModule<F>>) {
        if s.len() > 0 && s[0].submodules is None {
            assert(Self::flat(Seq::<ResolveModule<F>>::empty()) == Seq::<ResolveModule<F>>::empty());
            assert(seq![s[0].stripped()] + Self::flat(s[0].children()) =~= seq![s[0].stripped()]);
        }
    }

    proof fn lemma_stripped_childless(&self) {
    }

    fn take_children(&mut self) -> (r: Option<Vec<ResolveModule<F>>>) {
        self.submodules.take()
    }
}

} // verus!
