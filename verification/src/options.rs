use vstd::prelude::*;

use crate::context::{constructed, modules_constructed, Context, Factory};
use crate::definition::Key;
use crate::flatten::Nested;
use crate::module::ResolveModule;
use crate::provider::{DynProvider, Provider};
use crate::registry::registry_insert;
use crate::scope::Scope;
use crate::single::{DynSingle, Single};
use crate::ty::Type;
use crate::view::{
    after_load_modules, after_load_providers, can_load_modules, can_load_providers, flush_outcome, all_sync, is_standalone,
    modules_refused_at, providers_refused_at,
    ContextError, ContextView, ErrorView,
};

verus! {

/// A module that stands for the providers registered for automatic registration.
pub struct AutoRegisterModule;

/// The state after registering the standalone instances `pairs` in turn: each provider
/// replaces one under its key and its instance is stored under that key.
pub open spec fn after_insert_standalones<V, F>(s: ContextView<V, F>, pairs: Seq<(DynProvider<F>, DynSingle<V>)>) -> ContextView<V, F>
    decreases pairs.len(),
{
    if pairs.len() == 0 {
        s
    } else {
        let s1 = after_insert_standalones(s, pairs.drop_last());
        let (p, single) = pairs.last();
        s1.with_providers(registry_insert(s1.providers, p.spec_definition().key, p)).with_singles(
            registry_insert(s1.singles, p.spec_definition().key, single),
        )
    }
}

/// Whether the standalone instances `pairs` can be registered in turn: none overrides a
/// provider unless overriding is allowed.
pub open spec fn can_insert_standalones<V, F>(s: ContextView<V, F>, pairs: Seq<(DynProvider<F>, DynSingle<V>)>) -> bool
    decreases pairs.len(),
{
    if pairs.len() == 0 {
        true
    } else {
        let s1 = after_insert_standalones(s, pairs.drop_last());
        &&& can_insert_standalones(s, pairs.drop_last())
        &&& (s.allow_override || !s1.provider_map().contains_key(pairs.last().0.spec_definition().key@))
    }
}

/// Whether registering the standalone instances `pairs` in turn from state `s` is first
/// refused at the instance at `i`: those before it can be registered and it cannot.
pub open spec fn standalones_refused_at<V, F>(s: ContextView<V, F>, pairs: Seq<(DynProvider<F>, DynSingle<V>)>, i: int) -> bool {
    &&& 0 <= i < pairs.len()
    &&& can_insert_standalones(s, pairs.take(i))
    &&& !can_insert_standalones(s, pairs.take(i + 1))
}

/// Options and flags which can be used to configure how a context is created: whether
/// providers may override each other, which scopes are eagerly created, whether everything
/// is eagerly created, and standalone instances to put into the context.
pub struct ContextOptions<V, F> {
    allow_override: bool,
    allow_only_single_eager_create: bool,
    eager_create: bool,
    standalones: Vec<(DynProvider<F>, DynSingle<V>)>,
}

impl<V, F> ContextOptions<V, F> {
    /// Every standalone instance is stored as its provider's type.
    #[verifier::type_invariant]
    closed spec fn inv(&self) -> bool {
        forall|i: int| 0 <= i < self.standalones@.len() ==> (#[trigger] self.standalones@[i]).1.spec_single().spec_ty().id
            == self.standalones@[i].0.spec_definition().key.ty.id
    }

    /// Whether providers may override existing ones.
    pub closed spec fn spec_allow_override(&self) -> bool {
        self.allow_override
    }

    /// Whether only singletons and single owners are eagerly created.
    pub closed spec fn spec_allow_only_single_eager_create(&self) -> bool {
        self.allow_only_single_eager_create
    }

    /// Whether all providers are eagerly created.
    pub closed spec fn spec_eager_create(&self) -> bool {
        self.eager_create
    }

    /// The standalone instances, with their providers, in the order they were added.
    pub closed spec fn spec_standalones(&self) -> Seq<(DynProvider<F>, DynSingle<V>)> {
        self.standalones@
    }

    /// The state of a context created with these options, before any module is loaded.
    pub open spec fn initial(&self) -> ContextView<V, F> {
        after_insert_standalones(
            ContextView::empty(self.spec_allow_override(), self.spec_allow_only_single_eager_create(), self.spec_eager_create()),
            self.spec_standalones(),
        )
    }

    /// The state of a context with these options and nothing in it.
    pub open spec fn empty_view(&self) -> ContextView<V, F> {
        ContextView::empty(self.spec_allow_override(), self.spec_allow_only_single_eager_create(), self.spec_eager_create())
    }

    /// Whether `e` is the error with which creating a context with these options and the
    /// modules `ms` stops before it is flushed: at the first standalone instance that would
    /// override a provider when overriding is not allowed, or else at the first such
    /// provider of the modules.
    pub open spec fn refused_with(&self, ms: Seq<ResolveModule<F>>, e: ErrorView) -> bool {
        ||| (!self.standalones_fit() && exists|i: int| #[trigger] standalones_refused_at(self.empty_view(), self.spec_standalones(), i)
            && e == ErrorView::DuplicateProvider(self.spec_standalones()[i].0.spec_definition()))
        ||| (self.standalones_fit() && exists|i: int, j: int| #[trigger] modules_refused_at(self.initial(), ms, i, j)
            && e == ErrorView::DuplicateProvider(DynProvider::<F>::flat(ms[i].spec_providers())[j].spec_definition()))
    }

    /// Whether `e` is the error with which creating a context with these options and the
    /// module `m`, standing for the providers registered for automatic registration, stops
    /// before it is flushed.
    pub open spec fn auto_refused_with(&self, m: ResolveModule<F>, e: ErrorView) -> bool {
        ||| (!self.standalones_fit() && exists|i: int| #[trigger] standalones_refused_at(self.empty_view(), self.spec_standalones(), i)
            && e == ErrorView::DuplicateProvider(self.spec_standalones()[i].0.spec_definition()))
        ||| (self.standalones_fit() && exists|j: int| #[trigger] providers_refused_at(self.initial().after_note_module(m.spec_ty()),
            m.spec_eager_create(), DynProvider::<F>::flat(m.spec_providers()), j)
            && e == ErrorView::DuplicateProvider(DynProvider::<F>::flat(m.spec_providers())[j].spec_definition()))
    }

    /// Whether the standalone instances can be registered.
    pub open spec fn standalones_fit(&self) -> bool {
        can_insert_standalones(
            ContextView::empty(self.spec_allow_override(), self.spec_allow_only_single_eager_create(), self.spec_eager_create()),
            self.spec_standalones(),
        )
    }

    /// Sets whether providers may override existing ones.
    pub fn allow_override(self, allow_override: bool) -> (o: Self)
        ensures
            o.spec_allow_override() == allow_override,
            o.spec_allow_only_single_eager_create() == self.spec_allow_only_single_eager_create(),
            o.spec_eager_create() == self.spec_eager_create(),
            o.spec_standalones() == self.spec_standalones(),
    {
        proof {
            use_type_invariant(&self);
        }
        ContextOptions { allow_override, ..self }
    }

    /// Sets whether only [`Singleton`](Scope::Singleton) and [`SingleOwner`](Scope::SingleOwner)
    /// instances are eagerly created.
    pub fn allow_only_single_eager_create(self, allow_only_single_eager_create: bool) -> (o: Self)
        ensures
            o.spec_allow_override() == self.spec_allow_override(),
            o.spec_allow_only_single_eager_create() == allow_only_single_eager_create,
            o.spec_eager_create() == self.spec_eager_create(),
            o.spec_standalones() == self.spec_standalones(),
    {
        proof {
            use_type_invariant(&self);
        }
        ContextOptions { allow_only_single_eager_create, ..self }
    }

    /// Sets whether all instances are eagerly created.
    pub fn eager_create(self, eager_create: bool) -> (o: Self)
        ensures
            o.spec_allow_override() == self.spec_allow_override(),
            o.spec_allow_only_single_eager_create() == self.spec_allow_only_single_eager_create(),
            o.spec_eager_create() == eager_create,
            o.spec_standalones() == self.spec_standalones(),
    {
        proof {
            use_type_invariant(&self);
        }
        ContextOptions { eager_create, ..self }
    }

    fn standalone(self, ty: Type, instance: V, name: &str, scope: Scope) -> (o: Self)
        ensures
            o.spec_allow_override() == self.spec_allow_override(),
            o.spec_allow_only_single_eager_create() == self.spec_allow_only_single_eager_create(),
            o.spec_eager_create() == self.spec_eager_create(),
            o.spec_standalones().len() == self.spec_standalones().len() + 1,
            o.spec_standalones().drop_last() == self.spec_standalones(),
            is_standalone(o.spec_standalones().last().0, ty, name@, scope),
            o.spec_standalones().last().1.spec_single() == Single::spec_new(ty, instance, scope == Scope::Singleton),
    {
        proof {
            use_type_invariant(&self);
        }
        let provider = DynProvider::new(Provider::never_construct(ty, name, scope));
        let single = DynSingle::new(Single::new(ty, instance, scope == Scope::Singleton));
        let ContextOptions { allow_override, allow_only_single_eager_create, eager_create, standalones } = self;
        let mut standalones = standalones;
        let ghost before = standalones@;
        standalones.push((provider, single));
        assert(standalones@.drop_last() =~= before);
        ContextOptions { allow_override, allow_only_single_eager_create, eager_create, standalones }
    }

    /// Adds a standalone [`Singleton`](Scope::Singleton) instance of type `ty` with default name `""`.
    pub fn singleton(self, ty: Type, instance: V) -> (o: Self)
        ensures
            o.spec_allow_override() == self.spec_allow_override(),
            o.spec_allow_only_single_eager_create() == self.spec_allow_only_single_eager_create(),
            o.spec_eager_create() == self.spec_eager_create(),
            o.spec_standalones().drop_last() == self.spec_standalones(),
            o.spec_standalones().len() == self.spec_standalones().len() + 1,
            is_standalone(o.spec_standalones().last().0, ty, Seq::<char>::empty(), Scope::Singleton),
            o.spec_standalones().last().1.spec_single() == Single::spec_new(ty, instance, true),
    {
        proof {
            reveal_strlit("");
            assert(""@ =~= Seq::<char>::empty());
        }
        self.standalone(ty, instance, "", Scope::Singleton)
    }

    /// Adds a standalone [`Singleton`](Scope::Singleton) instance of type `ty` with name `name`.
    pub fn singleton_with_name(self, ty: Type, instance: V, name: &str) -> (o: Self)
        ensures
            o.spec_allow_override() == self.spec_allow_override(),
            o.spec_allow_only_single_eager_create() == self.spec_allow_only_single_eager_create(),
            o.spec_eager_create() == self.spec_eager_create(),
            o.spec_standalones().drop_last() == self.spec_standalones(),
            o.spec_standalones().len() == self.spec_standalones().len() + 1,
            is_standalone(o.spec_standalones().last().0, ty, name@, Scope::Singleton),
            o.spec_standalones().last().1.spec_single() == Single::spec_new(ty, instance, true),
    {
        self.standalone(ty, instance, name, Scope::Singleton)
    }

    /// Adds a standalone [`SingleOwner`](Scope::SingleOwner) instance of type `ty` with default name `""`.
    pub fn single_owner(self, ty: Type, instance: V) -> (o: Self)
        ensures
            o.spec_allow_override() == self.spec_allow_override(),
            o.spec_allow_only_single_eager_create() == self.spec_allow_only_single_eager_create(),
            o.spec_eager_create() == self.spec_eager_create(),
            o.spec_standalones().drop_last() == self.spec_standalones(),
            o.spec_standalones().len() == self.spec_standalones().len() + 1,
            is_standalone(o.spec_standalones().last().0, ty, Seq::<char>::empty(), Scope::SingleOwner),
            o.spec_standalones().last().1.spec_single() == Single::spec_new(ty, instance, false),
    {
        proof {
            reveal_strlit("");
            assert(""@ =~= Seq::<char>::empty());
        }
        self.standalone(ty, instance, "", Scope::SingleOwner)
    }

    /// Adds a standalone [`SingleOwner`](Scope::SingleOwner) instance of type `ty` with name `name`.
    pub fn single_owner_with_name(self, ty: Type, instance: V, name: &str) -> (o: Self)
        ensures
            o.spec_allow_override() == self.spec_allow_override(),
            o.spec_allow_only_single_eager_create() == self.spec_allow_only_single_eager_create(),
            o.spec_eager_create() == self.spec_eager_create(),
            o.spec_standalones().drop_last() == self.spec_standalones(),
            o.spec_standalones().len() == self.spec_standalones().len() + 1,
            is_standalone(o.spec_standalones().last().0, ty, name@, Scope::SingleOwner),
            o.spec_standalones().last().1.spec_single() == Single::spec_new(ty, instance, false),
    {
        self.standalone(ty, instance, name, Scope::SingleOwner)
    }

    /// A context with these options and the standalone instances registered, stopping with
    /// an error at an instance that would override a provider when overriding is not allowed.
    fn register_standalones(self) -> (r: Result<Context<V, F>, ContextError>)
        ensures
            r is Ok <==> self.standalones_fit(),
            r matches Ok(cx) ==> cx@ == self.initial(),
            r matches Err(e) ==> exists|i: int| #[trigger] standalones_refused_at(self.empty_view(), self.spec_standalones(), i)
                && e@ == ErrorView::DuplicateProvider(self.spec_standalones()[i].0.spec_definition()),
    {
        proof {
            use_type_invariant(&self);
        }
        let ghost options = self;
        let ContextOptions { allow_override, allow_only_single_eager_create, eager_create, standalones } = self;
        let ghost empty = ContextView::<V, F>::empty(allow_override, allow_only_single_eager_create, eager_create);
        let ghost all = standalones@;
        let mut cx: Context<V, F> = Context::empty(allow_override, allow_only_single_eager_create, eager_create);
        let n = standalones.len();
        let mut rest = standalones;
        let mut i: usize = 0;
        assert(all.take(0) =~= Seq::<(DynProvider<F>, DynSingle<V>)>::empty());
        while rest.len() > 0
            invariant
                i <= all.len(),
                n == all.len(),
                rest@ == all.skip(i as int),
                cx@ == after_insert_standalones(empty, all.take(i as int)),
                can_insert_standalones(empty, all.take(i as int)),
                cx@.allow_override == allow_override,
                empty.allow_override == allow_override,
                options == self,
                options.empty_view() == empty,
                options.spec_standalones() == all,
                options.initial() == after_insert_standalones(empty, all),
                options.standalones_fit() == can_insert_standalones(empty, all),
                forall|j: int| 0 <= j < all.len() ==> (#[trigger] all[j]).1.spec_single().spec_ty().id
                    == all[j].0.spec_definition().key.ty.id,
            decreases rest@.len(),
        {
            let (provider, single) = rest.remove(0);
            proof {
                assert(all.take(i + 1).drop_last() =~= all.take(i as int));
                assert(all.take(i + 1).last() == (provider, single));
                assert(rest@ =~= all.skip(i + 1));
                assert(all[i as int] == (provider, single));
            }
            let key = provider.definition().key.duplicate();
            if !allow_override && cx.contains_provider_with_name(key.ty, key.name.as_str()) {
                proof {
                    assert(key@ == provider.spec_definition().key@);
                    assert(!can_insert_standalones(empty, all.take(i + 1)));
                    lemma_cannot_insert_extend(empty, all, i + 1);
                    assert(standalones_refused_at(empty, all, i as int));
                }
                return Err(ContextError::DuplicateProvider(provider.definition().duplicate()));
            }
            let ghost before = cx@;
            cx.insert_standalone(key, provider, single);
            proof {
                assert(all.take(i + 1).last() == (provider, single));
                assert(cx@ == after_insert_standalones(empty, all.take(i + 1)));
            }
            i = i + 1;
        }
        assert(all.take(i as int) =~= all);
        Ok(cx)
    }
}

impl<V, F> ContextOptions<V, F> {
    /// Tries to create a new context with the given modules, without flushing it: the standalone
    /// instances are registered and the modules are loaded as [`Context::load_modules`]
    /// loads them. Stops with an error at a provider or instance that would override one
    /// when overriding is not allowed.
    pub fn try_load(self, modules: Vec<ResolveModule<F>>) -> (r: Result<Context<V, F>, ContextError>)
        requires
            modules_constructed(ResolveModule::<F>::flat(modules@)),
        ensures
            r is Ok <==> self.standalones_fit() && can_load_modules(self.initial(), ResolveModule::<F>::flat(modules@)),
            r matches Ok(cx) ==> cx@ == after_load_modules(self.initial(), ResolveModule::<F>::flat(modules@)),
            r matches Err(e) ==> self.refused_with(ResolveModule::<F>::flat(modules@), e@),
    {
        let mut cx = match self.register_standalones() {
            Ok(cx) => cx,
            Err(e) => {
                return Err(e);
            },
        };
        match cx.load_modules_checked(modules) {
            Ok(()) => Ok(cx),
            Err(e) => Err(e),
        }
    }

    /// Tries to create a new context with the module that stands for the providers
    /// registered for automatic registration, without flushing it: the standalone instances are
    /// registered, the module is noted as loaded and its providers, with the providers
    /// bound to them, are loaded with its eager creation (its submodules are not). Stops
    /// with an error at a provider or instance that would override one when overriding is
    /// not allowed.
    pub fn try_load_auto_register(self, module: ResolveModule<F>) -> (r: Result<Context<V, F>, ContextError>)
        requires
            constructed(DynProvider::<F>::flat(module.spec_providers())),
        ensures
            r is Ok <==> self.standalones_fit() && can_load_providers(self.initial().after_note_module(module.spec_ty()),
                module.spec_eager_create(), DynProvider::<F>::flat(module.spec_providers())),
            r matches Ok(cx) ==> cx@ == after_load_providers(self.initial().after_note_module(module.spec_ty()),
                module.spec_eager_create(), DynProvider::<F>::flat(module.spec_providers())),
            r matches Err(e) ==> self.auto_refused_with(module, e@),
    {
        let mut cx = match self.register_standalones() {
            Ok(cx) => cx,
            Err(e) => {
                return Err(e);
            },
        };
        let ty = module.ty();
        let eager = module.eager_create();
        match cx.load_module_providers(ty, eager, module.providers()) {
            Ok(()) => Ok(cx),
            Err(e) => Err(e),
        }
    }
    /// A context with these options and the standalone instances registered in turn, a
    /// later instance replacing an earlier one under the same key; no instance may override
    /// a provider when overriding is not allowed.
    fn inner_create(self) -> (cx: Context<V, F>)
        requires
            self.standalones_fit(),
        ensures
            cx@ == self.initial(),
    {
        match self.register_standalones() {
            Ok(cx) => cx,
            Err(_) => unreached(),
        }
    }

    /// Creates a new context with the given modules, without flushing it: the standalone
    /// instances are registered and the modules are loaded as [`Context::load_modules`]
    /// loads them. No instance or provider may override one when overriding is not allowed.
    pub fn load(self, modules: Vec<ResolveModule<F>>) -> (cx: Context<V, F>)
        requires
            modules_constructed(ResolveModule::<F>::flat(modules@)),
            self.standalones_fit(),
            can_load_modules(self.initial(), ResolveModule::<F>::flat(modules@)),
        ensures
            cx@ == after_load_modules(self.initial(), ResolveModule::<F>::flat(modules@)),
    {
        let mut cx = self.inner_create();
        match cx.load_modules_checked(modules) {
            Ok(()) => cx,
            Err(_) => unreached(),
        }
    }

    /// Creates a new context with the module that stands for the providers registered for
    /// automatic registration, without flushing it: the standalone instances are
    /// registered, the module is noted as loaded and its providers, with the providers
    /// bound to them, are loaded with its eager creation (its submodules are not). No
    /// instance or provider may override one when overriding is not allowed.
    pub fn load_auto_register(self, module: ResolveModule<F>) -> (cx: Context<V, F>)
        requires
            constructed(DynProvider::<F>::flat(module.spec_providers())),
            self.standalones_fit(),
            can_load_providers(self.initial().after_note_module(module.spec_ty()), module.spec_eager_create(),
                DynProvider::<F>::flat(module.spec_providers())),
        ensures
            cx@ == after_load_providers(self.initial().after_note_module(module.spec_ty()), module.spec_eager_create(),
                DynProvider::<F>::flat(module.spec_providers())),
    {
        let mut cx = self.inner_create();
        let ty = module.ty();
        let eager = module.eager_create();
        match cx.load_module_providers(ty, eager, module.providers()) {
            Ok(()) => cx,
            Err(_) => unreached(),
        }
    }

}

impl<V: Clone, F: Factory<V> + Clone> ContextOptions<V, F> {
    /// Creates a new context with the given modules: the standalone instances are
    /// registered, the modules are loaded as [`Context::load_modules`] loads them, and the
    /// context is flushed. No instance or provider may override one when overriding is not
    /// allowed, and no eager create function queued by loading may be async. Stops with an
    /// error where the flush does.
    pub fn create(self, modules: Vec<ResolveModule<F>>) -> (r: Result<Context<V, F>, ContextError>)
        requires
            modules_constructed(ResolveModule::<F>::flat(modules@)),
            self.standalones_fit(),
            can_load_modules(self.initial(), ResolveModule::<F>::flat(modules@)),
            all_sync(after_load_modules(self.initial(), ResolveModule::<F>::flat(modules@)).eager_create_functions),
        ensures
            match r {
                Ok(cx) => flush_outcome(after_load_modules(self.initial(), ResolveModule::<F>::flat(modules@)), cx@, None),
                Err(e) => exists|after: ContextView<V, F>| #[trigger] flush_outcome(
                    after_load_modules(self.initial(), ResolveModule::<F>::flat(modules@)), after, Some(e@)),
            },
    {
        let mut cx = self.load(modules);
        let ghost before = cx@;
        match cx.flush() {
            Ok(()) => Ok(cx),
            Err(e) => {
                assert(flush_outcome(before, cx@, Some(e@)));
                Err(e)
            },
        }
    }

    /// Creates a new context with the module that stands for the providers registered for
    /// automatic registration: the standalone instances are registered, the module is noted
    /// as loaded, its providers, with the providers bound to them, are loaded with its eager
    /// creation (its submodules are not), and the context is flushed. No instance or
    /// provider may override one when overriding is not allowed, and no eager create
    /// function queued by loading may be async. Stops with an error where the flush does.
    pub fn auto_register(self, module: ResolveModule<F>) -> (r: Result<Context<V, F>, ContextError>)
        requires
            constructed(DynProvider::<F>::flat(module.spec_providers())),
            self.standalones_fit(),
            can_load_providers(self.initial().after_note_module(module.spec_ty()), module.spec_eager_create(),
                DynProvider::<F>::flat(module.spec_providers())),
            all_sync(after_load_providers(self.initial().after_note_module(module.spec_ty()), module.spec_eager_create(),
                DynProvider::<F>::flat(module.spec_providers())).eager_create_functions),
        ensures
            match r {
                Ok(cx) => flush_outcome(after_load_providers(self.initial().after_note_module(module.spec_ty()),
                    module.spec_eager_create(), DynProvider::<F>::flat(module.spec_providers())), cx@, None),
                Err(e) => exists|after: ContextView<V, F>| #[trigger] flush_outcome(after_load_providers(
                    self.initial().after_note_module(module.spec_ty()), module.spec_eager_create(),
                    DynProvider::<F>::flat(module.spec_providers())), after, Some(e@)),
            },
    {
        let mut cx = self.load_auto_register(module);
        let ghost before = cx@;
        match cx.flush() {
            Ok(()) => Ok(cx),
            Err(e) => {
                assert(flush_outcome(before, cx@, Some(e@)));
                Err(e)
            },
        }
    }
}

impl<V, F> Default for ContextOptions<V, F> {
    /// Options that allow overriding, eagerly create only singletons and single owners
    /// when asked to, do not ask for eager creation, and hold no standalone instances.
    fn default() -> (o: Self)
        ensures
            o.spec_allow_override(),
            o.spec_allow_only_single_eager_create(),
            !o.spec_eager_create(),
            o.spec_standalones() == Seq::<(DynProvider<F>, DynSingle<V>)>::empty(),
    {
        ContextOptions {
            allow_override: true,
            allow_only_single_eager_create: true,
            eager_create: false,
            standalones: Vec::new(),
        }
    }
}

impl<V, F> Context<V, F> {
    /// Returns the default [`ContextOptions`], with which a context can be configured
    /// before it is created.
    pub fn options() -> (o: ContextOptions<V, F>)
        ensures
            o.spec_allow_override(),
            o.spec_allow_only_single_eager_create(),
            !o.spec_eager_create(),
            o.spec_standalones() == Seq::<(DynProvider<F>, DynSingle<V>)>::empty(),
    {
        ContextOptions::default()
    }
}

impl<V: Clone, F: Factory<V> + Clone> Context<V, F> {
    /// Creates a new context with the given modules and the default options, as
    /// [`ContextOptions::create`] does.
    pub fn create(modules: Vec<ResolveModule<F>>) -> (r: Result<Context<V, F>, ContextError>)
        requires
            modules_constructed(ResolveModule::<F>::flat(modules@)),
            can_load_modules(ContextView::<V, F>::empty(true, true, false), ResolveModule::<F>::flat(modules@)),
            all_sync(after_load_modules(ContextView::<V, F>::empty(true, true, false), ResolveModule::<F>::flat(modules@)).eager_create_functions),
        ensures
            ({
                let loaded = after_load_modules(ContextView::<V, F>::empty(true, true, false), ResolveModule::<F>::flat(modules@));
                match r {
                    Ok(cx) => flush_outcome(loaded, cx@, None),
                    Err(e) => exists|after: ContextView<V, F>| #[trigger] flush_outcome(loaded, after, Some(e@)),
                }
            }),
    {
        let options: ContextOptions<V, F> = ContextOptions::default();
        proof {
            assert(options.spec_standalones() == Seq::<(DynProvider<F>, DynSingle<V>)>::empty());
            assert(options.initial() == ContextView::<V, F>::empty(true, true, false));
            assert(options.standalones_fit());
        }
        options.create(modules)
    }

    /// Creates a new context with the module that stands for the providers registered for
    /// automatic registration and the default options, as [`ContextOptions::auto_register`]
    /// does.
    pub fn auto_register(module: ResolveModule<F>) -> (r: Result<Context<V, F>, ContextError>)
        requires
            constructed(DynProvider::<F>::flat(module.spec_providers())),
            can_load_providers(ContextView::<V, F>::empty(true, true, false).after_note_module(module.spec_ty()),
                module.spec_eager_create(), DynProvider::<F>::flat(module.spec_providers())),
            all_sync(after_load_providers(ContextView::<V, F>::empty(true, true, false).after_note_module(module.spec_ty()),
                module.spec_eager_create(), DynProvider::<F>::flat(module.spec_providers())).eager_create_functions),
        ensures
            ({
                let loaded = after_load_providers(ContextView::<V, F>::empty(true, true, false).after_note_module(module.spec_ty()),
                    module.spec_eager_create(), DynProvider::<F>::flat(module.spec_providers()));
                match r {
                    Ok(cx) => flush_outcome(loaded, cx@, None),
                    Err(e) => exists|after: ContextView<V, F>| #[trigger] flush_outcome(loaded, after, Some(e@)),
                }
            }),
    {
        let options: ContextOptions<V, F> = ContextOptions::default();
        proof {
            assert(options.spec_standalones() == Seq::<(DynProvider<F>, DynSingle<V>)>::empty());
            assert(options.initial() == ContextView::<V, F>::empty(true, true, false));
            assert(options.standalones_fit());
        }
        options.auto_register(module)
    }
}

impl<V, F> Default for Context<V, F> {
    /// An empty context that allows overriding, eagerly creates only singletons and single
    /// owners when asked to, and does not ask for eager creation.
    fn default() -> (cx: Self)
        ensures
            cx@ == ContextView::<V, F>::empty(true, true, false),
    {
        Context::empty(true, true, false)
    }
}

/// Standalone instances that cannot be registered up to some point cannot be registered up
/// to any later point.
proof fn lemma_cannot_insert_extend<V, F>(s: ContextView<V, F>, pairs: Seq<(DynProvider<F>, DynSingle<V>)>, j: int)
    requires
        !can_insert_standalones(s, pairs.take(j)),
        0 <= j <= pairs.len(),
    ensures
        !can_insert_standalones(s, pairs),
    decreases pairs.len() - j,
{
    if j < pairs.len() {
        assert(pairs.take(j + 1).drop_last() =~= pairs.take(j));
        lemma_cannot_insert_extend(s, pairs, j + 1);
    } else {
        assert(pairs.take(j) =~= pairs);
    }
}

} // verus!
