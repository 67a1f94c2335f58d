use std::any::TypeId;
use vstd::prelude::*;

use crate::definition::{Definition, Key};
use crate::provider::{Constructor, DynProvider, EagerCreateFunction, Provider};
use crate::registry::{entries_map, lemma_entries_map_at, lemma_registry_insert, registry_insert, Registry};
use crate::scope::{Color, Scope};
use crate::single::{DynSingle, Single};
use crate::ty::Type;
use crate::flatten::{flatten, Nested};
use crate::module::ResolveModule;
use crate::registry::{lemma_registry_remove, registry_remove};
use crate::view::{
    after_evaluate, condition_gave, conditions_asked, outcome_of, modules_refused_at, providers_refused_at, names_of_type, resolution_run, somes, eager_failure, eager_outcome, eager_run, evaluate_outcome, flush_outcome, later_outcome, all_sync, first_async_error, after_load_modules, after_load_providers, after_unload_modules, after_unload_providers, can_load_modules,
    can_load_providers, entries_of_type, is_standalone, lemma_pending_push, types_except, Behaviour, ContextError,
    ContextView, ErrorView, Plan,
};

verus! {

/// The functions a context runs on behalf of its providers: constructors, the transforms
/// of bound providers, and conditions.
pub trait Factory<V>: Sized {
    /// Builds an instance on the context `cx`, through which it may resolve the instances
    /// it depends on, and hands the context back with the instance.
    fn construct(&self, cx: Context<V, Self>) -> (V, Context<V, Self>);

    /// Turns an instance of the provider a binding was made from into the bound instance.
    fn transform(&self, instance: V) -> V;

    /// Whether a conditional provider is to be loaded into `cx`.
    fn holds(&self, cx: &Context<V, Self>) -> bool;
}

/// The outcome of a resolution.
pub enum Resolved<V> {
    /// No provider is registered for the key.
    NotFoundProvider(Key),
    /// The instance asked for.
    SingletonOrTransient(V),
    /// The provider is not a `Singleton` or `Transient`, so no instance is returned.
    NotSingletonOrTransient(Definition),
    /// The instance is stored, or was built and dropped; nothing is returned.
    NoReturn,
    /// The provider is not a `Singleton` or `SingleOwner`, so no instance is kept.
    NotSingletonOrSingleOwner(Definition),
    /// The resolution failed.
    Failed(ContextError),
}

/// What a resolution does after looking at the state: return at once, or build an
/// instance with a copy of the provider's constructor, of the constructor's color and
/// the provider's scope, from the instance of the source key when the provider was bound.
pub enum Prepared<V, F> {
    /// The resolution is over.
    Done(Resolved<V>),
    /// An instance is to be built.
    Build { constructor: F, color: Color, scope: Scope, source: Option<Key> },
}

/// Whether `r` is what looking at state `s` to resolve `key` with behaviour `b`, in an
/// async context when `in_async` holds, decides: the outcome where the plan ends the
/// resolution, or what to build the instance with otherwise.
pub open spec fn prepared_for<V: Clone, F: Clone>(s: ContextView<V, F>, key: Key, b: Behaviour, in_async: bool, r: Prepared<V, F>) -> bool {
    match s.plan_in(key@, b, in_async) {
        Plan::NotFoundProvider => (r matches Prepared::Done(Resolved::NotFoundProvider(k)) && k == key),
        Plan::ReturnSingle(inst) => (r matches Prepared::Done(Resolved::SingletonOrTransient(v)) && cloned(inst, v)),
        Plan::NoReturnExisting => (r matches Prepared::Done(Resolved::NoReturn)),
        Plan::NotSingletonOrTransient(d) => r == Prepared::<V, F>::Done(Resolved::NotSingletonOrTransient(d)),
        Plan::NotSingletonOrSingleOwner(d) => r == Prepared::<V, F>::Done(Resolved::NotSingletonOrSingleOwner(d)),
        Plan::AsyncConstructor(d) => (r matches Prepared::Done(Resolved::Failed(e)) && e@ == ErrorView::AsyncConstructor(d)),
        Plan::Circular => (r matches Prepared::Done(Resolved::Failed(e)) && e@ == ErrorView::CircularDependency(key@)),
        Plan::Absent => false,
        Plan::Construct(f) => (r matches Prepared::Build { constructor, color, scope, source } && cloned(f, constructor)
            && color == (if s.provider_map()[key@].spec_provider().spec_constructor() is Async { Color::Async } else { Color::Sync })
            && scope == s.provider_map()[key@].spec_definition().scope && source is None),
        Plan::ConstructBound(f, src) => (r matches Prepared::Build { constructor, color, scope, source } && cloned(f, constructor)
            && color == (if s.provider_map()[key@].spec_provider().spec_constructor() is Async { Color::Async } else { Color::Sync })
            && scope == s.provider_map()[key@].spec_definition().scope && (source matches Some(k) && k@ == src)),
    }
}

/// Whether going from state `s` to state `t` and returning `r` is what storing `instance`,
/// built for `key` by a resolution with behaviour `b` of a provider of scope `scope`,
/// does: the instance is returned exactly when one was asked for; a transient is not kept;
/// a singleton or single owner is stored under the key, a singleton as a copy when the
/// instance is also returned.
pub open spec fn stored<V: Clone, F>(s: ContextView<V, F>, t: ContextView<V, F>, key: Key, b: Behaviour, scope: Scope, instance: V, r: Resolved<V>) -> bool {
    let kept = t.single_map()[key@].spec_single();
    &&& (b == Behaviour::CreateThenReturnSingletonOrTransient ==> r == Resolved::SingletonOrTransient(instance))
    &&& (b != Behaviour::CreateThenReturnSingletonOrTransient ==> r is NoReturn)
    &&& (scope == Scope::Transient ==> t == s)
    &&& (scope != Scope::Transient ==> {
        &&& t == s.with_singles(registry_insert(s.singles, key, t.single_map()[key@]))
        &&& t.single_map().contains_key(key@)
        &&& kept.spec_ty() == key.ty
        &&& kept.spec_clonable() == (scope == Scope::Singleton)
        &&& (scope == Scope::Singleton && b == Behaviour::CreateThenReturnSingletonOrTransient ==> cloned(instance, kept.spec_instance()))
        &&& (!(scope == Scope::Singleton && b == Behaviour::CreateThenReturnSingletonOrTransient) ==> kept.spec_instance() == instance)
    })
}

/// The state of a context.
pub(crate) struct State<V, F> {
    pub(crate) allow_override: bool,
    pub(crate) allow_only_single_eager_create: bool,
    pub(crate) eager_create: bool,
    pub(crate) single_registry: Registry<DynSingle<V>>,
    pub(crate) provider_registry: Registry<DynProvider<F>>,
    pub(crate) loaded_modules: Vec<Type>,
    pub(crate) conditional_providers: Vec<(bool, DynProvider<F>)>,
    pub(crate) eager_create_functions: Vec<(Definition, EagerCreateFunction)>,
    pub(crate) dependency_chain: Vec<Key>,
}

impl<V, F> State<V, F> {
    pub(crate) open spec fn view(&self) -> ContextView<V, F> {
        ContextView {
            allow_override: self.allow_override,
            allow_only_single_eager_create: self.allow_only_single_eager_create,
            eager_create: self.eager_create,
            singles: self.single_registry.entries(),
            providers: self.provider_registry.entries(),
            loaded_modules: self.loaded_modules@,
            conditional_providers: self.conditional_providers@,
            eager_create_functions: self.eager_create_functions@,
            dependency_chain: self.dependency_chain@.map_values(|k: Key| k@),
        }
    }

    /// A state with the given options and nothing registered.
    pub(crate) fn empty(allow_override: bool, allow_only_single_eager_create: bool, eager_create: bool) -> (s: Self)
        ensures
            s.view().wf(),
            s.view().allow_override == allow_override,
            s.view().allow_only_single_eager_create == allow_only_single_eager_create,
            s.view().eager_create == eager_create,
            s.view().singles == Seq::<(Key, DynSingle<V>)>::empty(),
            s.view().providers == Seq::<(Key, DynProvider<F>)>::empty(),
            s.view().loaded_modules == Seq::<Type>::empty(),
            s.view().conditional_providers == Seq::<(bool, DynProvider<F>)>::empty(),
            s.view().eager_create_functions == Seq::<(Definition, EagerCreateFunction)>::empty(),
            s.view().dependency_chain == Seq::<(TypeId, Seq<char>)>::empty(),
    {
        let s = State {
            allow_override,
            allow_only_single_eager_create,
            eager_create,
            single_registry: Registry::new(),
            provider_registry: Registry::new(),
            loaded_modules: Vec::new(),
            conditional_providers: Vec::new(),
            eager_create_functions: Vec::new(),
            dependency_chain: Vec::new(),
        };
        assert(s.view().dependency_chain =~= Seq::<(TypeId, Seq<char>)>::empty());
        s
    }

    /// Whether `key` is being constructed.
    fn chain_contains(&self, key: &Key) -> (r: bool)
        ensures
            r == self.view().dependency_chain.contains(key@),
    {
        let mut i: usize = 0;
        while i < self.dependency_chain.len()
            invariant
                i <= self.dependency_chain@.len(),
                forall|j: int| 0 <= j < i ==> (#[trigger] self.dependency_chain@[j])@ != key@,
            decreases self.dependency_chain@.len() - i,
        {
            if self.dependency_chain[i].same(key) {
                assert(self.view().dependency_chain[i as int] == key@);
                return true;
            }
            i = i + 1;
        }
        assert forall|j: int| 0 <= j < self.view().dependency_chain.len() implies self.view().dependency_chain[j] != key@ by {
            assert(self.dependency_chain@[j]@ != key@);
        }
        false
    }

    /// Marks `key` as being constructed.
    fn push_chain(&mut self, key: Key)
        requires
            old(self).view().wf(),
            !old(self).view().dependency_chain.contains(key@),
        ensures
            final(self).view() == old(self).view().with_chain(old(self).view().dependency_chain.push(key@)),
            final(self).view().wf(),
    {
        self.dependency_chain.push(key);
        assert(self.view().dependency_chain =~= old(self).view().dependency_chain.push(key@));
    }

    /// Marks the innermost key as constructed.
    fn pop_chain(&mut self)
        requires
            old(self).view().wf(),
        ensures
            final(self).view() == old(self).view().with_chain(
                if old(self).view().dependency_chain.len() == 0 {
                    old(self).view().dependency_chain
                } else {
                    old(self).view().dependency_chain.drop_last()
                },
            ),
            final(self).view().wf(),
    {
        let _ = self.dependency_chain.pop();
        assert(self.view().dependency_chain =~= (if old(self).view().dependency_chain.len() == 0 {
            old(self).view().dependency_chain
        } else {
            old(self).view().dependency_chain.drop_last()
        }));
    }
    /// Registers `provider` under `key`, replacing a provider registered under an equal key,
    /// which is only done when overriding is allowed.
    fn insert_provider(&mut self, key: Key, provider: DynProvider<F>)
        requires
            old(self).view().wf(),
            old(self).view().allow_override || !old(self).view().provider_map().contains_key(key@),
            provider.spec_definition().key@ == key@,
            provider.spec_provider().spec_constructor() is Absent ==> old(self).view().single_map().contains_key(key@),
        ensures
            final(self).view() == old(self).view().with_providers(registry_insert(old(self).view().providers, key, provider)),
            final(self).view().provider_map() == old(self).view().provider_map().insert(key@, provider),
            final(self).view().wf(),
    {
        proof {
            lemma_registry_insert(self.provider_registry.entries(), key, provider);
        }
        let ghost before = self.view();
        self.provider_registry.insert(key, provider, self.allow_override);
        proof {
            let after = self.view();
            let s = before.providers;
            assert forall|i: int| 0 <= i < after.providers.len() implies (#[trigger] after.providers[i]).1.spec_definition().key@ == after.providers[i].0@ by {
                if crate::registry::has_key(s, key@) {
                    let j = crate::registry::find_key(s, key@);
                    if i != j {
                        assert(after.providers[i] == s[i]);
                    } else {
                        assert(s[j].0@ == key@);
                    }
                } else if i < s.len() {
                    assert(after.providers[i] == s[i]);
                }
            }
        }
    }

    /// Stores `single` under `key`.
    fn insert_single(&mut self, key: Key, single: DynSingle<V>)
        requires
            old(self).view().wf(),
            single.spec_single().spec_ty().id == key.ty.id,
        ensures
            final(self).view() == old(self).view().with_singles(registry_insert(old(self).view().singles, key, single)),
            final(self).view().single_map() == old(self).view().single_map().insert(key@, single),
            final(self).view().wf(),
    {
        proof {
            lemma_registry_insert(self.single_registry.entries(), key, single);
        }
        let ghost before = self.view();
        self.single_registry.insert(key, single, true);
        proof {
            let after = self.view();
            let s = before.singles;
            assert forall|i: int| 0 <= i < after.singles.len() implies (#[trigger] after.singles[i]).1.spec_single().spec_ty().id == after.singles[i].0.ty.id by {
                if crate::registry::has_key(s, key@) {
                    let j = crate::registry::find_key(s, key@);
                    if i != j {
                        assert(after.singles[i] == s[i]);
                    } else {
                        assert(s[j].0@ == key@);
                    }
                } else if i < s.len() {
                    assert(after.singles[i] == s[i]);
                }
            }
        }
    }

    /// Loads `provider`, from a module with eager creation `eager`, unconditionally.
    fn load_provider(&mut self, eager: bool, provider: DynProvider<F>)
        requires
            old(self).view().wf(),
            old(self).view().may_register(provider),
        ensures
            final(self).view() == old(self).view().after_load_provider(eager, provider),
            final(self).view().wf(),
    {
        let definition = provider.definition().duplicate();
        let need_eager_create = self.eager_create || eager || provider.eager_create();
        let allow_eager_create = !self.allow_only_single_eager_create || match definition.scope {
            Scope::Singleton => true,
            Scope::SingleOwner => true,
            Scope::Transient => false,
        };
        if need_eager_create && allow_eager_create {
            let function = provider.eager_create_function();
            self.eager_create_functions.push((definition.duplicate(), function));
        }
        let Definition { key, .. } = definition;
        self.insert_provider(key, provider);
        assert(self.view().eager_create_functions =~= old(self).view().after_load_provider(eager, provider).eager_create_functions);
    }

    /// Loads the providers, with the providers bound to them, from a module with eager
    /// creation `eager`: a conditional provider is set aside, any other one is registered.
    /// Stops with an error at the first provider that would override one when overriding
    /// is not allowed, the providers before it loaded.
    fn load_providers(&mut self, eager: bool, providers: Vec<DynProvider<F>>) -> (r: Result<(), ContextError>)
        requires
            old(self).view().wf(),
            constructed(DynProvider::<F>::flat(providers@)),
        ensures
            final(self).view().wf(),
            r is Ok <==> can_load_providers(old(self).view(), eager, DynProvider::<F>::flat(providers@)),
            r is Ok ==> final(self).view() == after_load_providers(old(self).view(), eager, DynProvider::<F>::flat(providers@)),
            r matches Err(e) ==> exists|j: int| #[trigger] providers_refused_at(old(self).view(), eager, DynProvider::<F>::flat(providers@), j)
                && e@ == ErrorView::DuplicateProvider(DynProvider::<F>::flat(providers@)[j].spec_definition()),
    {
        let ghost start = self.view();
        if providers.len() == 0 {
            proof {
                DynProvider::<F>::lemma_flat_step(providers@);
                assert(can_load_providers(start, eager, DynProvider::<F>::flat(providers@)));
            }
            return Ok(());
        }
        let ghost flat = DynProvider::<F>::flat(providers@);
        let all = flatten(providers);
        let ghost ps = all@;
        let n = all.len();
        let mut rest = all;
        let mut i: usize = 0;
        assert(ps.take(0) =~= Seq::<DynProvider<F>>::empty());
        while rest.len() > 0
            invariant
                i <= ps.len(),
                n == ps.len(),
                ps == flat,
                flat == DynProvider::<F>::flat(providers@),
                rest@ == ps.skip(i as int),
                self.view() == after_load_providers(start, eager, ps.take(i as int)),
                self.view().wf(),
                can_load_providers(start, eager, ps.take(i as int)),
                constructed(ps),
                start == old(self).view(),
            decreases rest@.len(),
        {
            let provider = rest.remove(0);
            proof {
                assert(ps.take(i + 1).drop_last() =~= ps.take(i as int));
                assert(ps.take(i + 1).last() == provider);
                assert(rest@ =~= ps.skip(i + 1));
            }
            if provider.condition().is_some() {
                self.conditional_providers.push((eager, provider));
            } else {
                let key = &provider.definition().key;
                if !self.allow_override && self.provider_registry.contains(key) {
                    proof {
                        assert(!self.view().may_register(provider));
                        assert(!can_load_providers(start, eager, ps.take(i + 1)));
                        lemma_cannot_load_providers_extend(start, eager, ps, i + 1);
                        assert(providers_refused_at(start, eager, ps, i as int));
                    }
                    return Err(ContextError::DuplicateProvider(provider.definition().duplicate()));
                }
                self.load_provider(eager, provider);
            }
            i = i + 1;
        }
        assert(ps.take(i as int) =~= ps);
        assert(can_load_providers(start, eager, ps));
        Ok(())
    }

    /// Loads the modules, with their submodules: each is noted as loaded, then its
    /// providers are loaded. Stops with an error where loading its providers does.
    fn load_modules(&mut self, modules: Vec<ResolveModule<F>>) -> (r: Result<(), ContextError>)
        requires
            old(self).view().wf(),
            modules_constructed(ResolveModule::<F>::flat(modules@)),
        ensures
            final(self).view().wf(),
            r is Ok <==> can_load_modules(old(self).view(), ResolveModule::<F>::flat(modules@)),
            r is Ok ==> final(self).view() == after_load_modules(old(self).view(), ResolveModule::<F>::flat(modules@)),
            r matches Err(e) ==> exists|i: int, j: int| #[trigger] modules_refused_at(old(self).view(), ResolveModule::<F>::flat(modules@), i, j)
                && e@ == ErrorView::DuplicateProvider(DynProvider::<F>::flat(ResolveModule::<F>::flat(modules@)[i].spec_providers())[j].spec_definition()),
    {
        let ghost start = self.view();
        if modules.len() == 0 {
            proof {
                ResolveModule::<F>::lemma_flat_step(modules@);
            }
            return Ok(());
        }
        let ghost flat = ResolveModule::<F>::flat(modules@);
        let all = flatten(modules);
        let ghost ms = all@;
        let n = all.len();
        let mut rest = all;
        let mut i: usize = 0;
        assert(ms.take(0) =~= Seq::<ResolveModule<F>>::empty());
        while rest.len() > 0
            invariant
                i <= ms.len(),
                n == ms.len(),
                ms == flat,
                flat == ResolveModule::<F>::flat(modules@),
                rest@ == ms.skip(i as int),
                self.view() == after_load_modules(start, ms.take(i as int)),
                self.view().wf(),
                can_load_modules(start, ms.take(i as int)),
                modules_constructed(ms),
                start == old(self).view(),
            decreases rest@.len(),
        {
            let module = rest.remove(0);
            proof {
                assert(ms.take(i + 1).drop_last() =~= ms.take(i as int));
                assert(ms.take(i + 1).last() == module);
                assert(rest@ =~= ms.skip(i + 1));
                assert(ms[i as int] == module);
            }
            self.loaded_modules.push(module.ty());
            let ghost noted = self.view();
            assert(noted == after_load_modules(start, ms.take(i as int)).after_note_module(module.spec_ty()));
            let eager = module.eager_create();
            let loaded = self.load_providers(eager, module.providers());
            if loaded.is_err() {
                proof {
                    assert(!can_load_modules(start, ms.take(i + 1)));
                    lemma_cannot_load_modules_extend(start, ms, i + 1);
                    let j = choose|j: int| #[trigger] providers_refused_at(noted, eager, DynProvider::<F>::flat(module.spec_providers()), j)
                        && loaded->Err_0@ == ErrorView::DuplicateProvider(DynProvider::<F>::flat(module.spec_providers())[j].spec_definition());
                    assert(modules_refused_at(start, ms, i as int, j));
                }
                return loaded;
            }
            i = i + 1;
        }
        assert(ms.take(i as int) =~= ms);
        Ok(())
    }

    /// Unloads the providers, with the providers bound to them: each one's key loses its
    /// provider and its instance.
    fn unload_providers(&mut self, providers: Vec<DynProvider<F>>)
        requires
            old(self).view().wf(),
        ensures
            final(self).view() == after_unload_providers(old(self).view(), DynProvider::<F>::flat(providers@)),
            final(self).view().wf(),
    {
        let ghost start = self.view();
        if providers.len() == 0 {
            proof {
                DynProvider::<F>::lemma_flat_step(providers@);
            }
            return;
        }
        let all = flatten(providers);
        let ghost ps = all@;
        let n = all.len();
        let mut rest = all;
        let mut i: usize = 0;
        assert(ps.take(0) =~= Seq::<DynProvider<F>>::empty());
        while rest.len() > 0
            invariant
                i <= ps.len(),
                n == ps.len(),
                rest@ == ps.skip(i as int),
                self.view() == after_unload_providers(start, ps.take(i as int)),
                self.view().wf(),
            decreases rest@.len(),
        {
            let provider = rest.remove(0);
            proof {
                assert(ps.take(i + 1).drop_last() =~= ps.take(i as int));
                assert(ps.take(i + 1).last() == provider);
                assert(rest@ =~= ps.skip(i + 1));
                lemma_after_remove_wf(self.view(), provider.spec_definition().key@);
            }
            let key = provider.definition().key.duplicate();
            let _ = self.provider_registry.remove(&key);
            let _ = self.single_registry.remove(&key);
            i = i + 1;
        }
        assert(ps.take(i as int) =~= ps);
    }

    /// Forgets the loaded modules of the type `ty`.
    fn forget_module(&mut self, ty: Type)
        requires
            old(self).view().wf(),
        ensures
            final(self).view() == (ContextView { loaded_modules: types_except(old(self).view().loaded_modules, ty.id), ..old(self).view() }),
            final(self).view().wf(),
    {
        let mut kept: Vec<Type> = Vec::new();
        let mut i: usize = 0;
        while i < self.loaded_modules.len()
            invariant
                i <= self.loaded_modules@.len(),
                kept@ == types_except(self.loaded_modules@.take(i as int), ty.id),
            decreases self.loaded_modules@.len() - i,
        {
            proof {
                assert(self.loaded_modules@.take(i + 1).drop_last() =~= self.loaded_modules@.take(i as int));
            }
            if !self.loaded_modules[i].same(&ty) {
                kept.push(self.loaded_modules[i]);
            }
            i = i + 1;
        }
        assert(self.loaded_modules@.take(i as int) =~= self.loaded_modules@);
        self.loaded_modules = kept;
    }

    /// Unloads the modules, with their submodules: each is no longer noted as loaded, then
    /// its providers are unloaded.
    fn unload_modules(&mut self, modules: Vec<ResolveModule<F>>)
        requires
            old(self).view().wf(),
        ensures
            final(self).view() == after_unload_modules(old(self).view(), ResolveModule::<F>::flat(modules@)),
            final(self).view().wf(),
    {
        let ghost start = self.view();
        if modules.len() == 0 {
            proof {
                ResolveModule::<F>::lemma_flat_step(modules@);
            }
            return;
        }
        let all = flatten(modules);
        let ghost ms = all@;
        let n = all.len();
        let mut rest = all;
        let mut i: usize = 0;
        assert(ms.take(0) =~= Seq::<ResolveModule<F>>::empty());
        while rest.len() > 0
            invariant
                i <= ms.len(),
                n == ms.len(),
                rest@ == ms.skip(i as int),
                self.view() == after_unload_modules(start, ms.take(i as int)),
                self.view().wf(),
            decreases rest@.len(),
        {
            let module = rest.remove(0);
            proof {
                assert(ms.take(i + 1).drop_last() =~= ms.take(i as int));
                assert(ms.take(i + 1).last() == module);
                assert(rest@ =~= ms.skip(i + 1));
            }
            self.forget_module(module.ty());
            self.unload_providers(module.providers());
            i = i + 1;
        }
        assert(ms.take(i as int) =~= ms);
    }
}

impl<V: Clone, F: Clone> State<V, F> {
    /// Looks at the state to decide how to resolve `key` with behaviour `behaviour`, in an
    /// async context when `in_async` holds. Every refusal is decided here, before the key
    /// is marked as being constructed: an async constructor in a sync context, and a key
    /// that is already being constructed (a circular dependency), end the resolution with
    /// an error. So a refused resolution leaves the state as it was, and marking a key as
    /// being constructed never finds it marked already.
    fn before_resolve(&self, key: &Key, behaviour: Behaviour, in_async: bool) -> (r: Prepared<V, F>)
        requires
            self.view().wf(),
        ensures
            prepared_for(self.view(), *key, behaviour, in_async, r),
    {
        let provider = match self.provider_registry.get(key) {
            Some(p) => p,
            None => {
                return Prepared::Done(Resolved::NotFoundProvider(key.duplicate()));
            },
        };
        let definition = provider.definition();
        match self.single_registry.get(key) {
            Some(single) => {
                let single = single.as_single(&key.ty);
                proof {
                    let i = crate::registry::find_key(self.single_registry.entries(), key@);
                    lemma_entries_map_at(self.single_registry.entries(), i);
                }
                let single = single.unwrap();
                return match behaviour {
                    Behaviour::CreateThenReturnSingletonOrTransient => match single.get_owned() {
                        Some(instance) => Prepared::Done(Resolved::SingletonOrTransient(instance)),
                        None => Prepared::Done(Resolved::NotSingletonOrTransient(definition.duplicate())),
                    },
                    _ => Prepared::Done(Resolved::NoReturn),
                };
            },
            None => {},
        }
        match (definition.scope, behaviour) {
            (Scope::Transient, Behaviour::JustCreateSingletonOrSingleOwner) => {
                return Prepared::Done(Resolved::NotSingletonOrSingleOwner(definition.duplicate()));
            },
            (Scope::SingleOwner, Behaviour::CreateThenReturnSingletonOrTransient) => {
                return Prepared::Done(Resolved::NotSingletonOrTransient(definition.duplicate()));
            },
            _ => {},
        }
        let scope = definition.scope;
        let (f, color) = match provider.as_provider(&key.ty).unwrap().constructor() {
            Constructor::Async(f) => {
                if !in_async {
                    return Prepared::Done(Resolved::Failed(ContextError::AsyncConstructor(definition.duplicate())));
                }
                (f, Color::Async)
            },
            Constructor::Absent => {
                assert(false);
                return Prepared::Done(Resolved::NoReturn);
            },
            Constructor::Sync(f) => (f, Color::Sync),
        };
        if self.chain_contains(key) {
            return Prepared::Done(Resolved::Failed(ContextError::CircularDependency(key.duplicate())));
        }
        let source = match definition.origin {
            Some(t) => Some(Key { name: definition.key.name.clone(), ty: t }),
            None => None,
        };
        Prepared::Build { constructor: f.clone(), color, scope, source }
    }

    /// Stores what a resolution of `key` with `behaviour` built, as the scope asks, and
    /// returns the instance when one was asked for.
    fn after_resolve(&mut self, key: Key, behaviour: Behaviour, scope: Scope, instance: V) -> (r: Resolved<V>)
        requires
            old(self).view().wf(),
            !(scope == Scope::Transient && behaviour == Behaviour::JustCreateSingletonOrSingleOwner),
            !(scope == Scope::SingleOwner && behaviour == Behaviour::CreateThenReturnSingletonOrTransient),
        ensures
            final(self).view().wf(),
            stored(old(self).view(), final(self).view(), key, behaviour, scope, instance, r),
    {
        match (scope, behaviour) {
            (Scope::Singleton, Behaviour::CreateThenReturnSingletonOrTransient) => {
                let copy = instance.clone();
                let single = DynSingle::new(Single::new(key.ty, copy, true));
                self.insert_single(key, single);
                Resolved::SingletonOrTransient(instance)
            },
            (Scope::Singleton, _) => {
                let single = DynSingle::new(Single::new(key.ty, instance, true));
                self.insert_single(key, single);
                Resolved::NoReturn
            },
            (Scope::Transient, Behaviour::CreateThenReturnSingletonOrTransient) => Resolved::SingletonOrTransient(instance),
            (Scope::Transient, _) => Resolved::NoReturn,
            (Scope::SingleOwner, _) => {
                let single = DynSingle::new(Single::new(key.ty, instance, false));
                self.insert_single(key, single);
                Resolved::NoReturn
            },
        }
    }


    /// The error that resolving `key` with `behaviour` in a sync context would end with,
    /// if it would fail; the state is left as it was.
    fn failure_of(&mut self, key: &Key, behaviour: Behaviour) -> (r: Option<ContextError>)
        requires
            old(self).view().wf(),
        ensures
            final(self).view() == old(self).view(),
            match old(self).view().failure(key@, behaviour) {
                Some(e) => (r matches Some(err) && err@ == e),
                None => r is None,
            },
        decreases old(self).view().pending(),
    {
        let ghost start = self.view();
        let prepared = self.before_resolve(key, behaviour, false);
        assert(start.plan_in(key@, behaviour, false) == start.plan(key@, behaviour));
        match prepared {
            Prepared::Done(Resolved::Failed(e)) => Some(e),
            Prepared::Build { source: Some(source), .. } => {
                proof {
                    lemma_pending_push(start, key@);
                }
                self.push_chain(key.duplicate());
                let ghost marked = self.view();
                assert(marked.plan_in(source@, Behaviour::CreateThenReturnSingletonOrTransient, false)
                    == marked.plan(source@, Behaviour::CreateThenReturnSingletonOrTransient));
                let found = match self.before_resolve(&source, Behaviour::CreateThenReturnSingletonOrTransient, false) {
                    Prepared::Done(Resolved::NotFoundProvider(k)) => Some(ContextError::NoProvider(k)),
                    Prepared::Done(Resolved::NotSingletonOrTransient(d)) => Some(ContextError::NotSingletonOrTransient(d)),
                    _ => self.failure_of(&source, Behaviour::CreateThenReturnSingletonOrTransient),
                };
                self.pop_chain();
                assert(self.view().dependency_chain =~= start.dependency_chain);
                assert(self.view() == start);
                found
            },
            _ => None,
        }
    }
}

/// The instance a resolution returned, if it returned one.
pub(crate) open spec fn returned_of<V>(r: Resolved<V>) -> Option<V> {
    match r {
        Resolved::SingletonOrTransient(v) => Some(v),
        _ => None,
    }
}

/// Every provider of `ps` has a constructor.
pub open spec fn constructed<F>(ps: Seq<DynProvider<F>>) -> bool {
    forall|i: int| 0 <= i < ps.len() ==> !((#[trigger] ps[i]).spec_provider().spec_constructor() is Absent)
}

/// Every provider of every module of `ms`, with the providers bound to it, has a constructor.
pub open spec fn modules_constructed<F>(ms: Seq<ResolveModule<F>>) -> bool {
    forall|i: int| 0 <= i < ms.len() ==> constructed(DynProvider::<F>::flat((#[trigger] ms[i]).spec_providers()))
}

/// The providers of two sequences put together all have a constructor exactly when those of
/// each do.
pub(crate) proof fn lemma_constructed_concat<F>(a: Seq<DynProvider<F>>, b: Seq<DynProvider<F>>)
    ensures
        constructed(a + b) == (constructed(a) && constructed(b)),
{
    if constructed(a + b) {
        assert forall|i: int| 0 <= i < a.len() implies !((#[trigger] a[i]).spec_provider().spec_constructor() is Absent) by {
            assert((a + b)[i] == a[i]);
        }
        assert forall|i: int| 0 <= i < b.len() implies !((#[trigger] b[i]).spec_provider().spec_constructor() is Absent) by {
            assert((a + b)[a.len() + i] == b[i]);
        }
    }
    if constructed(a) && constructed(b) {
        assert forall|i: int| 0 <= i < (a + b).len() implies !((#[trigger] (a + b)[i]).spec_provider().spec_constructor() is Absent) by {
            if i < a.len() {
                assert((a + b)[i] == a[i]);
            } else {
                assert((a + b)[i] == b[i - a.len()]);
            }
        }
    }
}

/// The modules of two sequences put together all have constructed providers exactly when
/// those of each do.
pub(crate) proof fn lemma_modules_constructed_concat<F>(a: Seq<ResolveModule<F>>, b: Seq<ResolveModule<F>>)
    ensures
        modules_constructed(a + b) == (modules_constructed(a) && modules_constructed(b)),
{
    if modules_constructed(a + b) {
        assert forall|i: int| 0 <= i < a.len() implies constructed(DynProvider::<F>::flat((#[trigger] a[i]).spec_providers())) by {
            assert((a + b)[i] == a[i]);
        }
        assert forall|i: int| 0 <= i < b.len() implies constructed(DynProvider::<F>::flat((#[trigger] b[i]).spec_providers())) by {
            assert((a + b)[a.len() + i] == b[i]);
        }
    }
    if modules_constructed(a) && modules_constructed(b) {
        assert forall|i: int| 0 <= i < (a + b).len() implies constructed(DynProvider::<F>::flat((#[trigger] (a + b)[i]).spec_providers())) by {
            if i < a.len() {
                assert((a + b)[i] == a[i]);
            } else {
                assert((a + b)[i] == b[i - a.len()]);
            }
        }
    }
}

/// Providers that cannot be loaded up to some point cannot be loaded up to any later point.
proof fn lemma_cannot_load_providers_extend<V, F>(s: ContextView<V, F>, eager: bool, ps: Seq<DynProvider<F>>, j: int)
    requires
        !can_load_providers(s, eager, ps.take(j)),
        0 <= j <= ps.len(),
    ensures
        !can_load_providers(s, eager, ps),
    decreases ps.len() - j,
{
    if j < ps.len() {
        assert(ps.take(j + 1).drop_last() =~= ps.take(j));
        lemma_cannot_load_providers_extend(s, eager, ps, j + 1);
    } else {
        assert(ps.take(j) =~= ps);
    }
}

/// Modules that cannot be loaded up to some point cannot be loaded up to any later point.
proof fn lemma_cannot_load_modules_extend<V, F>(s: ContextView<V, F>, ms: Seq<ResolveModule<F>>, j: int)
    requires
        !can_load_modules(s, ms.take(j)),
        0 <= j <= ms.len(),
    ensures
        !can_load_modules(s, ms),
    decreases ms.len() - j,
{
    if j < ms.len() {
        assert(ms.take(j + 1).drop_last() =~= ms.take(j));
        lemma_cannot_load_modules_extend(s, ms, j + 1);
    } else {
        assert(ms.take(j) =~= ms);
    }
}

/// Removing a key from both registries keeps the state consistent.
pub(crate) proof fn lemma_after_remove_wf<V, F>(s: ContextView<V, F>, k: (TypeId, Seq<char>))
    requires
        s.wf(),
    ensures
        s.after_remove(k).wf(),
        s.after_remove(k).provider_map() == s.provider_map().remove(k),
        s.after_remove(k).single_map() == s.single_map().remove(k),
{
    lemma_registry_remove(s.providers, k);
    lemma_registry_remove(s.singles, k);
    let t = s.after_remove(k);
    if crate::registry::has_key(s.providers, k) {
        let i = crate::registry::find_key(s.providers, k);
        s.providers.remove_ensures(i);
        assert forall|j: int| 0 <= j < t.providers.len() implies (#[trigger] t.providers[j]).1.spec_definition().key@ == t.providers[j].0@ by {
            if j < i {
                assert(t.providers[j] == s.providers[j]);
            } else {
                assert(t.providers[j] == s.providers[j + 1]);
            }
        }
    }
    if crate::registry::has_key(s.singles, k) {
        let i = crate::registry::find_key(s.singles, k);
        s.singles.remove_ensures(i);
        assert forall|j: int| 0 <= j < t.singles.len() implies (#[trigger] t.singles[j]).1.spec_single().spec_ty().id == t.singles[j].0.ty.id by {
            if j < i {
                assert(t.singles[j] == s.singles[j]);
            } else {
                assert(t.singles[j] == s.singles[j + 1]);
            }
        }
    }
}

/// A context is a container for all the providers and instances. It is the main entry
/// point for the dependency injection, and it is also used to create new instances.
pub struct Context<V, F> {
    state: State<V, F>,
}

impl<V, F> View for Context<V, F> {
    type V = ContextView<V, F>;

    closed spec fn view(&self) -> ContextView<V, F> {
        self.state.view()
    }
}

impl<V, F> Context<V, F> {
    /// The state is always consistent.
    #[verifier::type_invariant]
    closed spec fn inv(&self) -> bool {
        self.state.view().wf()
    }

    /// Takes the state out, leaving an empty one with the same options.
    fn take_state(&mut self) -> (s: State<V, F>)
        ensures
            s.view() == old(self)@,
            s.view().wf(),
    {
        proof {
            use_type_invariant(&*self);
        }
        let mut s = State::empty(self.state.allow_override, self.state.allow_only_single_eager_create, self.state.eager_create);
        std::mem::swap(&mut s, &mut self.state);
        s
    }

    /// Returns whether the context should allow overriding existing providers.
    pub fn allow_override(&self) -> (b: bool)
        ensures
            b == self@.allow_override,
    {
        self.state.allow_override
    }

    /// Returns whether the context should only eagerly create [`Singleton`](Scope::Singleton)
    /// and [`SingleOwner`](Scope::SingleOwner) instances.
    pub fn allow_only_single_eager_create(&self) -> (b: bool)
        ensures
            b == self@.allow_only_single_eager_create,
    {
        self.state.allow_only_single_eager_create
    }

    /// Returns whether the context should eagerly create instances.
    pub fn eager_create(&self) -> (b: bool)
        ensures
            b == self@.eager_create,
    {
        self.state.eager_create
    }

    /// Returns a reference to the single registry.
    pub fn single_registry(&self) -> (r: &Vec<(Key, DynSingle<V>)>)
        ensures
            r@ == self@.singles,
    {
        self.state.single_registry.inner()
    }

    /// Returns a reference to the provider registry.
    pub fn provider_registry(&self) -> (r: &Vec<(Key, DynProvider<F>)>)
        ensures
            r@ == self@.providers,
    {
        self.state.provider_registry.inner()
    }

    /// Returns a reference to the loaded modules.
    pub fn loaded_modules(&self) -> (r: &Vec<Type>)
        ensures
            r@ == self@.loaded_modules,
    {
        &self.state.loaded_modules
    }

    /// Returns a reference to the conditional providers.
    pub fn conditional_providers(&self) -> (r: &Vec<(bool, DynProvider<F>)>)
        ensures
            r@ == self@.conditional_providers,
    {
        &self.state.conditional_providers
    }

    /// Returns a reference to the eager create functions.
    pub fn eager_create_functions(&self) -> (r: &Vec<(Definition, EagerCreateFunction)>)
        ensures
            r@ == self@.eager_create_functions,
    {
        &self.state.eager_create_functions
    }

    /// Returns a reference to the dependency chain.
    pub fn dependency_chain(&self) -> (r: &Vec<Key>)
        ensures
            r@.map_values(|k: Key| k@) == self@.dependency_chain,
    {
        &self.state.dependency_chain
    }

    /// Returns whether the context contains the provider of type `ty` with default name `""`.
    pub fn contains_provider(&self, ty: Type) -> (b: bool)
        ensures
            b == self@.provider_map().contains_key((ty.id, Seq::<char>::empty())),
    {
        proof {
            reveal_strlit("");
            assert(""@ =~= Seq::<char>::empty());
        }
        self.contains_provider_with_name(ty, "")
    }

    /// Returns whether the context contains the provider of type `ty` with name `name`.
    pub fn contains_provider_with_name(&self, ty: Type, name: &str) -> (b: bool)
        ensures
            b == self@.provider_map().contains_key((ty.id, name@)),
    {
        proof {
            use_type_invariant(self);
        }
        let key = Key::new(ty, name);
        self.state.provider_registry.contains(&key)
    }

    /// Returns the provider of type `ty` with default name `""`, if there is one.
    pub fn get_provider(&self, ty: Type) -> (r: Option<&Provider<F>>)
        ensures
            r is Some <==> self@.provider_map().contains_key((ty.id, Seq::<char>::empty())),
            r matches Some(p) ==> *p == self@.provider_map()[(ty.id, Seq::<char>::empty())].spec_provider(),
    {
        proof {
            reveal_strlit("");
            assert(""@ =~= Seq::<char>::empty());
        }
        self.get_provider_with_name(ty, "")
    }

    /// Returns the provider of type `ty` with name `name`, if there is one.
    pub fn get_provider_with_name(&self, ty: Type, name: &str) -> (r: Option<&Provider<F>>)
        ensures
            r is Some <==> self@.provider_map().contains_key((ty.id, name@)),
            r matches Some(p) ==> *p == self@.provider_map()[(ty.id, name@)].spec_provider(),
    {
        proof {
            use_type_invariant(self);
        }
        let key = Key::new(ty, name);
        match self.state.provider_registry.get(&key) {
            Some(p) => {
                proof {
                    let i = crate::registry::find_key(self@.providers, key@);
                    lemma_entries_map_at(self@.providers, i);
                }
                p.as_provider(&ty)
            },
            None => None,
        }
    }

    /// Returns the providers of type `ty`, in the order of the provider registry.
    pub fn get_providers_by_type(&self, ty: Type) -> (r: Vec<&Provider<F>>)
        ensures
            r@.map_values(|p: &Provider<F>| *p) == entries_of_type(self@.providers, ty.id).map_values(
                |e: (Key, DynProvider<F>)| e.1.spec_provider(),
            ),
    {
        proof {
            use_type_invariant(self);
        }
        let entries = self.state.provider_registry.inner();
        let mut found: Vec<&Provider<F>> = Vec::new();
        let mut i: usize = 0;
        while i < entries.len()
            invariant
                i <= entries@.len(),
                entries@ == self@.providers,
                self@.wf(),
                found@.map_values(|p: &Provider<F>| *p) == entries_of_type(entries@.take(i as int), ty.id).map_values(
                    |e: (Key, DynProvider<F>)| e.1.spec_provider(),
                ),
            decreases entries@.len() - i,
        {
            let ghost before = found@;
            proof {
                assert(entries@.take(i + 1).drop_last() =~= entries@.take(i as int));
                assert(entries@.take(i + 1).last() == entries@[i as int]);
            }
            if entries[i].0.ty.same(&ty) {
                let p = entries[i].1.as_provider(&ty).unwrap();
                found.push(p);
                assert(found@.map_values(|p: &Provider<F>| *p) =~= before.map_values(|p: &Provider<F>| *p).push(*p));
            }
            i = i + 1;
        }
        assert(entries@.take(entries@.len() as int) =~= entries@);
        found
    }

    /// Returns whether the context contains the instance of type `ty` with default name `""`.
    pub fn contains_single(&self, ty: Type) -> (b: bool)
        ensures
            b == self@.single_map().contains_key((ty.id, Seq::<char>::empty())),
    {
        proof {
            reveal_strlit("");
            assert(""@ =~= Seq::<char>::empty());
        }
        self.contains_single_with_name(ty, "")
    }

    /// Returns whether the context contains the instance of type `ty` with name `name`.
    pub fn contains_single_with_name(&self, ty: Type, name: &str) -> (b: bool)
        ensures
            b == self@.single_map().contains_key((ty.id, name@)),
    {
        proof {
            use_type_invariant(self);
        }
        let key = Key::new(ty, name);
        self.state.single_registry.contains(&key)
    }

    /// Returns a reference to the instance of type `ty` with default name `""`.
    pub fn get_single(&self, ty: Type) -> (r: &V)
        requires
            self@.single_map().contains_key((ty.id, Seq::<char>::empty())),
        ensures
            *r == self@.single_map()[(ty.id, Seq::<char>::empty())].spec_single().spec_instance(),
    {
        proof {
            reveal_strlit("");
            assert(""@ =~= Seq::<char>::empty());
        }
        self.get_single_with_name(ty, "")
    }

    /// Returns a reference to the instance of type `ty` with name `name`.
    pub fn get_single_with_name(&self, ty: Type, name: &str) -> (r: &V)
        requires
            self@.single_map().contains_key((ty.id, name@)),
        ensures
            *r == self@.single_map()[(ty.id, name@)].spec_single().spec_instance(),
    {
        self.get_single_option_with_name(ty, name).unwrap()
    }

    /// Returns a reference to the instance of type `ty` with default name `""`, if there is one.
    pub fn get_single_option(&self, ty: Type) -> (r: Option<&V>)
        ensures
            r is Some <==> self@.single_map().contains_key((ty.id, Seq::<char>::empty())),
            r matches Some(v) ==> *v == self@.single_map()[(ty.id, Seq::<char>::empty())].spec_single().spec_instance(),
    {
        proof {
            reveal_strlit("");
            assert(""@ =~= Seq::<char>::empty());
        }
        self.get_single_option_with_name(ty, "")
    }

    /// Returns a reference to the instance of type `ty` with name `name`, if there is one.
    pub fn get_single_option_with_name(&self, ty: Type, name: &str) -> (r: Option<&V>)
        ensures
            r is Some <==> self@.single_map().contains_key((ty.id, name@)),
            r matches Some(v) ==> *v == self@.single_map()[(ty.id, name@)].spec_single().spec_instance(),
    {
        proof {
            use_type_invariant(self);
        }
        let key = Key::new(ty, name);
        match self.state.single_registry.get(&key) {
            Some(single) => {
                proof {
                    let i = crate::registry::find_key(self@.singles, key@);
                    lemma_entries_map_at(self@.singles, i);
                }
                Some(single.as_single(&ty).unwrap().get_ref())
            },
            None => None,
        }
    }

    /// Returns references to the instances of type `ty`, in the order of the single registry.
    pub fn get_singles_by_type(&self, ty: Type) -> (r: Vec<&V>)
        ensures
            r@.map_values(|v: &V| *v) == entries_of_type(self@.singles, ty.id).map_values(
                |e: (Key, DynSingle<V>)| e.1.spec_single().spec_instance(),
            ),
    {
        proof {
            use_type_invariant(self);
        }
        let entries = self.state.single_registry.inner();
        let mut found: Vec<&V> = Vec::new();
        let mut i: usize = 0;
        while i < entries.len()
            invariant
                i <= entries@.len(),
                entries@ == self@.singles,
                self@.wf(),
                found@.map_values(|v: &V| *v) == entries_of_type(entries@.take(i as int), ty.id).map_values(
                    |e: (Key, DynSingle<V>)| e.1.spec_single().spec_instance(),
                ),
            decreases entries@.len() - i,
        {
            let ghost before = found@;
            proof {
                assert(entries@.take(i + 1).drop_last() =~= entries@.take(i as int));
                assert(entries@.take(i + 1).last() == entries@[i as int]);
            }
            if entries[i].0.ty.same(&ty) {
                let v = entries[i].1.as_single(&ty).unwrap().get_ref();
                found.push(v);
                assert(found@.map_values(|v: &V| *v) =~= before.map_values(|v: &V| *v).push(*v));
            }
            i = i + 1;
        }
        assert(entries@.take(entries@.len() as int) =~= entries@);
        found
    }

    /// The names of the providers of type `ty`, in the order of the provider registry.
    fn names(&self, ty: Type) -> (r: Vec<String>)
        ensures
            r@.map_values(|n: String| n@) == entries_of_type(self@.providers, ty.id).map_values(
                |e: (Key, DynProvider<F>)| e.0.name@,
            ),
    {
        let entries = self.state.provider_registry.inner();
        let mut names: Vec<String> = Vec::new();
        let mut i: usize = 0;
        while i < entries.len()
            invariant
                i <= entries@.len(),
                entries@ == self@.providers,
                names@.map_values(|n: String| n@) == entries_of_type(entries@.take(i as int), ty.id).map_values(
                    |e: (Key, DynProvider<F>)| e.0.name@,
                ),
            decreases entries@.len() - i,
        {
            let ghost before = names@;
            proof {
                assert(entries@.take(i + 1).drop_last() =~= entries@.take(i as int));
                assert(entries@.take(i + 1).last() == entries@[i as int]);
            }
            if entries[i].0.ty.same(&ty) {
                let name = entries[i].0.name.clone();
                names.push(name);
                assert(names@.map_values(|n: String| n@) =~= before.map_values(|n: String| n@).push(name@));
            }
            i = i + 1;
        }
        assert(entries@.take(entries@.len() as int) =~= entries@);
        names
    }

    /// Registers a standalone provider with its instance under `key`.
    pub(crate) fn insert_standalone(&mut self, key: Key, provider: DynProvider<F>, single: DynSingle<V>)
        requires
            old(self)@.allow_override || !old(self)@.provider_map().contains_key(key@),
            provider.spec_definition().key@ == key@,
            single.spec_single().spec_ty().id == key.ty.id,
        ensures
            final(self)@ == old(self)@.with_singles(registry_insert(old(self)@.singles, key, single)).with_providers(
                registry_insert(old(self)@.providers, key, provider)),
            final(self)@.same_but_registries(old(self)@),
            final(self)@.provider_map() == old(self)@.provider_map().insert(key@, provider),
            final(self)@.single_map() == old(self)@.single_map().insert(key@, single),
    {
        let mut state = self.take_state();
        state.insert_single(key.duplicate(), single);
        state.insert_provider(key, provider);
        self.put_state(state);
    }

    /// Appends a standalone [`Singleton`](Scope::Singleton) instance of type `ty` to the context with default name `""`.
    pub fn insert_singleton(&mut self, ty: Type, instance: V)
        requires
            old(self)@.allow_override || !old(self)@.provider_map().contains_key((ty.id, Seq::<char>::empty())),
        ensures
            final(self)@.same_but_registries(old(self)@),
            final(self)@.provider_map() == old(self)@.provider_map().insert((ty.id, Seq::<char>::empty()),
                final(self)@.provider_map()[(ty.id, Seq::<char>::empty())]),
            is_standalone(final(self)@.provider_map()[(ty.id, Seq::<char>::empty())], ty, Seq::<char>::empty(), Scope::Singleton),
            final(self)@.single_map() == old(self)@.single_map().insert((ty.id, Seq::<char>::empty()),
                final(self)@.single_map()[(ty.id, Seq::<char>::empty())]),
            final(self)@.single_map()[(ty.id, Seq::<char>::empty())].spec_single() == Single::spec_new(ty, instance, true),
    {
        proof {
            reveal_strlit("");
            assert(""@ =~= Seq::<char>::empty());
        }
        self.insert_singleton_with_name(ty, instance, "")
    }

    /// Appends a standalone [`Singleton`](Scope::Singleton) instance of type `ty` to the context with name `name`.
    pub fn insert_singleton_with_name(&mut self, ty: Type, instance: V, name: &str)
        requires
            old(self)@.allow_override || !old(self)@.provider_map().contains_key((ty.id, name@)),
        ensures
            final(self)@.same_but_registries(old(self)@),
            final(self)@.provider_map() == old(self)@.provider_map().insert((ty.id, name@), final(self)@.provider_map()[(ty.id, name@)]),
            is_standalone(final(self)@.provider_map()[(ty.id, name@)], ty, name@, Scope::Singleton),
            final(self)@.single_map() == old(self)@.single_map().insert((ty.id, name@), final(self)@.single_map()[(ty.id, name@)]),
            final(self)@.single_map()[(ty.id, name@)].spec_single() == Single::spec_new(ty, instance, true),
    {
        let provider = DynProvider::new(Provider::never_construct(ty, name, Scope::Singleton));
        let single = DynSingle::new(Single::new(ty, instance, true));
        let key = Key::new(ty, name);
        self.insert_standalone(key, provider, single);
    }

    /// Appends a standalone [`SingleOwner`](Scope::SingleOwner) instance of type `ty` to the context with default name `""`.
    pub fn insert_single_owner(&mut self, ty: Type, instance: V)
        requires
            old(self)@.allow_override || !old(self)@.provider_map().contains_key((ty.id, Seq::<char>::empty())),
        ensures
            final(self)@.same_but_registries(old(self)@),
            final(self)@.provider_map() == old(self)@.provider_map().insert((ty.id, Seq::<char>::empty()),
                final(self)@.provider_map()[(ty.id, Seq::<char>::empty())]),
            is_standalone(final(self)@.provider_map()[(ty.id, Seq::<char>::empty())], ty, Seq::<char>::empty(), Scope::SingleOwner),
            final(self)@.single_map() == old(self)@.single_map().insert((ty.id, Seq::<char>::empty()),
                final(self)@.single_map()[(ty.id, Seq::<char>::empty())]),
            final(self)@.single_map()[(ty.id, Seq::<char>::empty())].spec_single() == Single::spec_new(ty, instance, false),
    {
        proof {
            reveal_strlit("");
            assert(""@ =~= Seq::<char>::empty());
        }
        self.insert_single_owner_with_name(ty, instance, "")
    }

    /// Appends a standalone [`SingleOwner`](Scope::SingleOwner) instance of type `ty` to the context with name `name`.
    pub fn insert_single_owner_with_name(&mut self, ty: Type, instance: V, name: &str)
        requires
            old(self)@.allow_override || !old(self)@.provider_map().contains_key((ty.id, name@)),
        ensures
            final(self)@.same_but_registries(old(self)@),
            final(self)@.provider_map() == old(self)@.provider_map().insert((ty.id, name@), final(self)@.provider_map()[(ty.id, name@)]),
            is_standalone(final(self)@.provider_map()[(ty.id, name@)], ty, name@, Scope::SingleOwner),
            final(self)@.single_map() == old(self)@.single_map().insert((ty.id, name@), final(self)@.single_map()[(ty.id, name@)]),
            final(self)@.single_map()[(ty.id, name@)].spec_single() == Single::spec_new(ty, instance, false),
    {
        let provider = DynProvider::new(Provider::never_construct(ty, name, Scope::SingleOwner));
        let single = DynSingle::new(Single::new(ty, instance, false));
        let key = Key::new(ty, name);
        self.insert_standalone(key, provider, single);
    }

    /// A context with the given options and nothing in it.
    pub(crate) fn empty(allow_override: bool, allow_only_single_eager_create: bool, eager_create: bool) -> (cx: Self)
        ensures
            cx@ == ContextView::<V, F>::empty(allow_override, allow_only_single_eager_create, eager_create),
    {
        let state = State::empty(allow_override, allow_only_single_eager_create, eager_create);
        assert(state.view() =~= ContextView::<V, F>::empty(allow_override, allow_only_single_eager_create, eager_create));
        Context { state }
    }

    /// Loads the modules as [`Context::load_modules`] does, stopping with an error at a
    /// provider that would override one when overriding is not allowed.
    pub(crate) fn load_modules_checked(&mut self, modules: Vec<ResolveModule<F>>) -> (r: Result<(), ContextError>)
        requires
            modules_constructed(ResolveModule::<F>::flat(modules@)),
        ensures
            r is Ok <==> can_load_modules(old(self)@, ResolveModule::<F>::flat(modules@)),
            r is Ok ==> final(self)@ == after_load_modules(old(self)@, ResolveModule::<F>::flat(modules@)),
            r matches Err(e) ==> exists|i: int, j: int| #[trigger] modules_refused_at(old(self)@, ResolveModule::<F>::flat(modules@), i, j)
                && e@ == ErrorView::DuplicateProvider(DynProvider::<F>::flat(ResolveModule::<F>::flat(modules@)[i].spec_providers())[j].spec_definition()),
    {
        let mut state = self.take_state();
        let r = state.load_modules(modules);
        self.put_state(state);
        r
    }

    /// Notes a module of type `ty` as loaded and loads the given providers with eager
    /// creation `eager`, stopping with an error at a provider that would override one when
    /// overriding is not allowed.
    pub(crate) fn load_module_providers(&mut self, ty: Type, eager: bool, providers: Vec<DynProvider<F>>) -> (r: Result<(), ContextError>)
        requires
            constructed(DynProvider::<F>::flat(providers@)),
        ensures
            r is Ok <==> can_load_providers(old(self)@.after_note_module(ty), eager, DynProvider::<F>::flat(providers@)),
            r is Ok ==> final(self)@ == after_load_providers(old(self)@.after_note_module(ty), eager, DynProvider::<F>::flat(providers@)),
            r matches Err(e) ==> exists|j: int| #[trigger] providers_refused_at(old(self)@.after_note_module(ty), eager, DynProvider::<F>::flat(providers@), j)
                && e@ == ErrorView::DuplicateProvider(DynProvider::<F>::flat(providers@)[j].spec_definition()),
    {
        let mut state = self.take_state();
        state.loaded_modules.push(ty);
        let r = state.load_providers(eager, providers);
        self.put_state(state);
        r
    }

    /// Puts a consistent state back.
    fn put_state(&mut self, s: State<V, F>)
        requires
            s.view().wf(),
        ensures
            final(self)@ == s.view(),
    {
        self.state = s;
    }
}

impl<V, F> Context<V, F> {
    /// Takes out the queued eager create functions, in the order they were queued.
    pub fn take_eager_create_functions(&mut self) -> (r: Vec<(Definition, EagerCreateFunction)>)
        ensures
            r@ == old(self)@.eager_create_functions,
            final(self)@ == (ContextView { eager_create_functions: Seq::empty(), ..old(self)@ }),
    {
        let mut state = self.take_state();
        let mut pending: Vec<(Definition, EagerCreateFunction)> = Vec::new();
        std::mem::swap(&mut pending, &mut state.eager_create_functions);
        self.put_state(state);
        pending
    }

    /// The definition of the first async function among the queued eager create
    /// functions, if there is one.
    pub fn first_async_eager_create(&self) -> (r: Option<Definition>)
        ensures
            r is None <==> all_sync(self@.eager_create_functions),
            r matches Some(d) ==> first_async_error(self@.eager_create_functions, ErrorView::AsyncEagerCreate(d)),
    {
        let items = &self.state.eager_create_functions;
        let mut i: usize = 0;
        while i < items.len()
            invariant
                i <= items@.len(),
                items@ == self@.eager_create_functions,
                forall|j: int| 0 <= j < i ==> #[trigger] items@[j].1 != EagerCreateFunction::Async,
            decreases items@.len() - i,
        {
            match items[i].1 {
                EagerCreateFunction::Async => {
                    let d = items[i].0.duplicate();
                    assert(items@[i as int].1 == EagerCreateFunction::Async);
                    return Some(d);
                },
                _ => {},
            }
            i = i + 1;
        }
        None
    }

    /// Gives up resolving the innermost key being constructed: it is marked as constructed.
    pub fn abort_resolve(&mut self)
        ensures
            final(self)@ == old(self)@.chain_popped(),
    {
        let mut state = self.take_state();
        state.pop_chain();
        self.put_state(state);
    }
}

impl<V: Clone, F: Clone> Context<V, F> {
    /// The error that resolving `key` with behaviour `behaviour` in a sync context would
    /// end with, if it would fail: an async constructor or a circular dependency at `key`,
    /// or, for a bound provider, a source that has no provider, is a single owner or fails
    /// itself. The context is left as it was.
    pub fn resolve_failure(&mut self, key: &Key, behaviour: Behaviour) -> (r: Option<ContextError>)
        ensures
            final(self)@ == old(self)@,
            match old(self)@.failure(key@, behaviour) {
                Some(e) => (r matches Some(err) && err@ == e),
                None => r is None,
            },
    {
        let mut state = self.take_state();
        let r = state.failure_of(key, behaviour);
        self.put_state(state);
        r
    }

    /// Starts resolving `key` with behaviour `behaviour`, in an async context when
    /// `in_async` holds: decides from the state what to do and, when an instance is to be
    /// built, marks `key` as being constructed. Building the instance is then finished with
    /// [`Context::end_resolve`] or given up with [`Context::abort_resolve`].
    pub fn begin_resolve(&mut self, key: &Key, behaviour: Behaviour, in_async: bool) -> (r: Prepared<V, F>)
        ensures
            prepared_for(old(self)@, *key, behaviour, in_async, r),
            r is Done ==> final(self)@ == old(self)@,
            r is Build ==> final(self)@ == old(self)@.with_chain(old(self)@.dependency_chain.push(key@)),
    {
        proof {
            use_type_invariant(&*self);
        }
        let prepared = self.state.before_resolve(key, behaviour, in_async);
        match &prepared {
            Prepared::Build { .. } => {
                let mut state = self.take_state();
                state.push_chain(key.duplicate());
                self.put_state(state);
            },
            _ => {},
        }
        prepared
    }

    /// Takes what resolving the source of a bound provider gave, while the bound key is
    /// being constructed: the instance where one was returned, with the context unchanged;
    /// otherwise the resolution of the bound key is given up (the innermost key being
    /// constructed is marked as constructed) and an error is returned: a missing source or
    /// a source that is a single owner is an error of its own, a failure is passed on.
    pub fn source_instance(&mut self, resolved: Resolved<V>) -> (r: Result<V, ContextError>)
        requires
            !(resolved is NoReturn),
            !(resolved is NotSingletonOrSingleOwner),
        ensures
            match resolved {
                Resolved::SingletonOrTransient(v) => (r matches Ok(x) && x == v) && final(self)@ == old(self)@,
                Resolved::NotFoundProvider(k) => (r matches Err(e) && e@ == ErrorView::NoProvider(k@))
                    && final(self)@ == old(self)@.chain_popped(),
                Resolved::NotSingletonOrTransient(d) => (r matches Err(e) && e@ == ErrorView::NotSingletonOrTransient(d))
                    && final(self)@ == old(self)@.chain_popped(),
                Resolved::Failed(e0) => (r matches Err(e) && e == e0) && final(self)@ == old(self)@.chain_popped(),
                _ => false,
            },
    {
        match resolved {
            Resolved::SingletonOrTransient(v) => Ok(v),
            Resolved::NotFoundProvider(k) => {
                self.abort_resolve();
                Err(ContextError::NoProvider(k))
            },
            Resolved::NotSingletonOrTransient(d) => {
                self.abort_resolve();
                Err(ContextError::NotSingletonOrTransient(d))
            },
            Resolved::Failed(e) => {
                self.abort_resolve();
                Err(e)
            },
            _ => unreached(),
        }
    }

    /// Finishes resolving `key` with behaviour `behaviour` once `instance` was built by a
    /// provider of scope `scope`: the innermost key being constructed is marked as
    /// constructed, the instance is stored as the scope asks and returned when one was
    /// asked for.
    pub fn end_resolve(&mut self, key: Key, behaviour: Behaviour, scope: Scope, instance: V) -> (r: Resolved<V>)
        requires
            !(scope == Scope::Transient && behaviour == Behaviour::JustCreateSingletonOrSingleOwner),
            !(scope == Scope::SingleOwner && behaviour == Behaviour::CreateThenReturnSingletonOrTransient),
        ensures
            stored(old(self)@.chain_popped(), final(self)@, key, behaviour, scope, instance, r),
    {
        let mut state = self.take_state();
        state.pop_chain();
        let r = state.after_resolve(key, behaviour, scope, instance);
        self.put_state(state);
        r
    }
}

impl<V: Clone, F: Factory<V> + Clone> Context<V, F> {
    /// Resolves `key` with `behaviour`: returns or keeps a stored instance, or builds a new
    /// one with the provider's constructor (or, for a bound provider, by transforming the
    /// instance its source resolves to) while `key` is marked as being constructed, and
    /// stores it as its scope asks. The resolution must not fail: no async constructor, no
    /// circular dependency, and for a bound provider a source that resolves.
    #[verifier::rlimit(50)]
    fn inner_resolve(&mut self, key: &Key, behaviour: Behaviour) -> (r: Resolved<V>)
        requires
            old(self)@.failure(key@, behaviour) is None,
        ensures
            match old(self)@.plan(key@, behaviour) {
                Plan::NotFoundProvider => (r matches Resolved::NotFoundProvider(k) && k == *key && final(self)@ == old(self)@),
                Plan::ReturnSingle(inst) => (r matches Resolved::SingletonOrTransient(v) && cloned(inst, v) && final(self)@ == old(self)@),
                Plan::NoReturnExisting => (r is NoReturn && final(self)@ == old(self)@),
                Plan::NotSingletonOrTransient(d) => (r == Resolved::<V>::NotSingletonOrTransient(d) && final(self)@ == old(self)@),
                Plan::NotSingletonOrSingleOwner(d) => (r == Resolved::<V>::NotSingletonOrSingleOwner(d) && final(self)@ == old(self)@),
                Plan::Construct(_) | Plan::ConstructBound(_, _) => old(self)@.built(final(self)@, key@, behaviour, match r {
                    Resolved::SingletonOrTransient(v) => Some(v),
                    _ => None,
                }) && (r is SingletonOrTransient || r is NoReturn),
                _ => false,
            },
            !(r is Failed),
            old(self)@.resolved_to(final(self)@, key@, behaviour, returned_of(r)),
        decreases old(self)@.pending(),
    {
        proof {
            use_type_invariant(&*self);
        }
        let ghost start = self@;
        let prepared = self.state.before_resolve(key, behaviour, false);
        assert(start.plan_in(key@, behaviour, false) == start.plan(key@, behaviour));
        match prepared {
            Prepared::Done(r) => r,
            Prepared::Build { constructor, color: _, scope, source } => {
                let mut state = self.take_state();
                state.push_chain(key.duplicate());
                self.put_state(state);
                let ghost marked = self@;
                let ghost mut before_cx: Context<V, F> = arbitrary();
                let ghost mut done_cx: Context<V, F> = arbitrary();
                let ghost mut middle: ContextView<V, F> = arbitrary();
                let ghost mut source_instance: V = arbitrary();
                let ghost bound = source is Some;
                let instance = match source {
                    Some(source) => {
                        proof {
                            lemma_pending_push(start, key@);
                        }
                        match self.inner_resolve(&source, Behaviour::CreateThenReturnSingletonOrTransient) {
                            Resolved::SingletonOrTransient(v) => {
                                proof {
                                    middle = self@;
                                    source_instance = v;
                                }
                                constructor.transform(v)
                            },
                            _ => {
                                assert(false);
                                unreached()
                            },
                        }
                    },
                    None => {
                        let mut taken = Context::empty(false, false, false);
                        std::mem::swap(&mut taken, self);
                        proof {
                            before_cx = taken;
                        }
                        let (instance, back) = constructor.construct(taken);
                        proof {
                            done_cx = back;
                        }
                        *self = back;
                        instance
                    },
                };
                let ghost popped = self@.chain_popped();
                let mut state = self.take_state();
                state.pop_chain();
                let r = state.after_resolve(key.duplicate(), behaviour, scope, instance);
                self.put_state(state);
                proof {
                    assert(outcome_of(returned_of(r)) == r);
                    if bound {
                        lemma_built_by_transform(start, self@, *key, behaviour, returned_of(r), constructor, middle,
                            source_instance, instance);
                    } else {
                        lemma_built_by_constructor(start, self@, *key, behaviour, returned_of(r), constructor, before_cx,
                            done_cx, instance);
                    }
                }
                r
            },
        }
    }

    /// Returns a [`Singleton`](Scope::Singleton) or [`Transient`](Scope::Transient)
    /// instance of type `ty` with default name `""`.
    pub fn resolve(&mut self, ty: Type) -> (v: V)
        requires
            old(self)@.resolves((ty.id, Seq::<char>::empty())),
        ensures
            old(self)@.resolved_to(final(self)@, (ty.id, Seq::<char>::empty()), Behaviour::CreateThenReturnSingletonOrTransient, Some(v)),
    {
        proof {
            reveal_strlit("");
            assert(""@ =~= Seq::<char>::empty());
        }
        self.resolve_with_name(ty, "")
    }

    /// Returns a [`Singleton`](Scope::Singleton) or [`Transient`](Scope::Transient)
    /// instance of type `ty` with name `name`.
    pub fn resolve_with_name(&mut self, ty: Type, name: &str) -> (v: V)
        requires
            old(self)@.resolves((ty.id, name@)),
        ensures
            old(self)@.resolved_to(final(self)@, (ty.id, name@), Behaviour::CreateThenReturnSingletonOrTransient, Some(v)),
    {
        let key = Key::new(ty, name);
        let r = self.inner_resolve(&key, Behaviour::CreateThenReturnSingletonOrTransient);
        let v = match r {
            Resolved::SingletonOrTransient(v) => Some(v),
            _ => None,
        };
        v.unwrap()
    }

    /// Returns a [`Singleton`](Scope::Singleton) or [`Transient`](Scope::Transient)
    /// instance of type `ty` with default name `""`, or `None` when there is no provider
    /// for it or it is a single owner.
    pub fn resolve_option(&mut self, ty: Type) -> (r: Option<V>)
        requires
            old(self)@.failure((ty.id, Seq::<char>::empty()), Behaviour::CreateThenReturnSingletonOrTransient) is None,
        ensures
            old(self)@.resolved_to(final(self)@, (ty.id, Seq::<char>::empty()), Behaviour::CreateThenReturnSingletonOrTransient, r),
    {
        proof {
            reveal_strlit("");
            assert(""@ =~= Seq::<char>::empty());
        }
        self.resolve_option_with_name(ty, "")
    }

    /// Returns a [`Singleton`](Scope::Singleton) or [`Transient`](Scope::Transient)
    /// instance of type `ty` with name `name`, or `None` when there is no provider for it
    /// or it is a single owner.
    pub fn resolve_option_with_name(&mut self, ty: Type, name: &str) -> (r: Option<V>)
        requires
            old(self)@.failure((ty.id, name@), Behaviour::CreateThenReturnSingletonOrTransient) is None,
        ensures
            old(self)@.resolved_to(final(self)@, (ty.id, name@), Behaviour::CreateThenReturnSingletonOrTransient, r),
    {
        let key = Key::new(ty, name);
        match self.inner_resolve(&key, Behaviour::CreateThenReturnSingletonOrTransient) {
            Resolved::SingletonOrTransient(v) => Some(v),
            _ => None,
        }
    }

    /// Returns the [`Singleton`](Scope::Singleton) and [`Transient`](Scope::Transient)
    /// instances of all the providers of type `ty`: the keys of type `ty` are taken in the
    /// order of the provider registry and resolved in turn, each on the context the
    /// previous one left; single owners give nothing. Stops at the first resolution that
    /// fails.
    pub fn resolve_by_type(&mut self, ty: Type) -> (r: Result<Vec<V>, ContextError>)
        ensures
            match r {
                Ok(vs) => exists|trace: Seq<ContextView<V, F>>, outs: Seq<Option<V>>| #[trigger] resolution_run(
                    trace, ty.id, names_of_type(old(self)@, ty.id), Behaviour::CreateThenReturnSingletonOrTransient, outs)
                    && trace[0] == old(self)@ && trace.last() == final(self)@ && vs@ == somes(outs),
                Err(e) => exists|trace: Seq<ContextView<V, F>>, outs: Seq<Option<V>>, j: int| #[trigger] resolution_run(
                    trace, ty.id, names_of_type(old(self)@, ty.id).take(j), Behaviour::CreateThenReturnSingletonOrTransient, outs)
                    && 0 <= j < names_of_type(old(self)@, ty.id).len() && trace[0] == old(self)@
                    && trace.last() == final(self)@ && final(self)@.failure((ty.id, names_of_type(old(self)@, ty.id)[j]),
                    Behaviour::CreateThenReturnSingletonOrTransient) == Some(e@),
            },
    {
        let names = self.names(ty);
        let ghost nm = names_of_type(self@, ty.id);
        let ghost b = Behaviour::CreateThenReturnSingletonOrTransient;
        let ghost mut trace: Seq<ContextView<V, F>> = seq![self@];
        let ghost mut outs: Seq<Option<V>> = Seq::empty();
        let mut instances: Vec<V> = Vec::new();
        let mut i: usize = 0;
        assert(resolution_run(trace, ty.id, nm.take(0), b, outs));
        while i < names.len()
            invariant
                i <= names@.len(),
                names@.map_values(|n: String| n@) == nm,
                nm == names_of_type(old(self)@, ty.id),
                b == Behaviour::CreateThenReturnSingletonOrTransient,
                resolution_run(trace, ty.id, nm.take(i as int), b, outs),
                trace[0] == old(self)@,
                trace.last() == self@,
                instances@ == somes(outs),
            decreases names@.len() - i,
        {
            let key = Key::new(ty, names[i].as_str());
            proof {
                assert(nm[i as int] == names@[i as int]@);
            }
            match self.resolve_failure(&key, Behaviour::CreateThenReturnSingletonOrTransient) {
                Some(e) => {
                    return Err(e);
                },
                None => {},
            }
            let resolved = self.inner_resolve(&key, Behaviour::CreateThenReturnSingletonOrTransient);
            let ghost out = returned_of(resolved);
            match resolved {
                Resolved::SingletonOrTransient(v) => instances.push(v),
                _ => {},
            }
            proof {
                lemma_resolution_run_push(trace, ty.id, nm, b, outs, i as int, self@, out);
                lemma_somes_push(outs, out);
                trace = trace.push(self@);
                outs = outs.push(out);
            }
            i = i + 1;
        }
        assert(nm.take(i as int) =~= nm);
        Ok(instances)
    }

    /// Creates the instance of type `ty` with name `name` if it is not stored yet, whatever
    /// its scope; a transient instance is dropped. Used for eager creation.
    pub fn just_create(&mut self, ty: Type, name: &str)
        requires
            old(self)@.failure((ty.id, name@), Behaviour::JustCreateAllScopeForEagerCreate) is None,
            !(old(self)@.plan((ty.id, name@), Behaviour::JustCreateAllScopeForEagerCreate) is NotFoundProvider),
        ensures
            old(self)@.resolved_to(final(self)@, (ty.id, name@), Behaviour::JustCreateAllScopeForEagerCreate, None),
    {
        let key = Key::new(ty, name);
        let _ = self.inner_resolve(&key, Behaviour::JustCreateAllScopeForEagerCreate);
    }

    /// Creates and stores the [`Singleton`](Scope::Singleton) or [`SingleOwner`](Scope::SingleOwner)
    /// instance of type `ty` with default name `""` if it is not stored yet.
    pub fn just_create_single(&mut self, ty: Type)
        requires
            old(self)@.failure((ty.id, Seq::<char>::empty()), Behaviour::JustCreateSingletonOrSingleOwner) is None,
            !(old(self)@.plan((ty.id, Seq::<char>::empty()), Behaviour::JustCreateSingletonOrSingleOwner) is NotFoundProvider),
            !(old(self)@.plan((ty.id, Seq::<char>::empty()), Behaviour::JustCreateSingletonOrSingleOwner) is NotSingletonOrSingleOwner),
        ensures
            old(self)@.resolved_to(final(self)@, (ty.id, Seq::<char>::empty()), Behaviour::JustCreateSingletonOrSingleOwner, None),
            final(self)@.single_map().contains_key((ty.id, Seq::<char>::empty())),
    {
        proof {
            reveal_strlit("");
            assert(""@ =~= Seq::<char>::empty());
        }
        self.just_create_single_with_name(ty, "")
    }

    /// Creates and stores the [`Singleton`](Scope::Singleton) or [`SingleOwner`](Scope::SingleOwner)
    /// instance of type `ty` with name `name` if it is not stored yet.
    pub fn just_create_single_with_name(&mut self, ty: Type, name: &str)
        requires
            old(self)@.failure((ty.id, name@), Behaviour::JustCreateSingletonOrSingleOwner) is None,
            !(old(self)@.plan((ty.id, name@), Behaviour::JustCreateSingletonOrSingleOwner) is NotFoundProvider),
            !(old(self)@.plan((ty.id, name@), Behaviour::JustCreateSingletonOrSingleOwner) is NotSingletonOrSingleOwner),
        ensures
            old(self)@.resolved_to(final(self)@, (ty.id, name@), Behaviour::JustCreateSingletonOrSingleOwner, None),
            final(self)@.single_map().contains_key((ty.id, name@)),
    {
        let key = Key::new(ty, name);
        let _ = self.inner_resolve(&key, Behaviour::JustCreateSingletonOrSingleOwner);
    }

    /// Like [`Context::just_create_single`], but returns whether the instance is stored
    /// instead of requiring a fit provider.
    pub fn try_just_create_single(&mut self, ty: Type) -> (b: bool)
        requires
            old(self)@.failure((ty.id, Seq::<char>::empty()), Behaviour::JustCreateSingletonOrSingleOwner) is None,
        ensures
            old(self)@.resolved_to(final(self)@, (ty.id, Seq::<char>::empty()), Behaviour::JustCreateSingletonOrSingleOwner, None),
            b ==> final(self)@.single_map().contains_key((ty.id, Seq::<char>::empty())),
            b == !(old(self)@.plan((ty.id, Seq::<char>::empty()), Behaviour::JustCreateSingletonOrSingleOwner) is NotFoundProvider
                || old(self)@.plan((ty.id, Seq::<char>::empty()), Behaviour::JustCreateSingletonOrSingleOwner) is NotSingletonOrSingleOwner),
    {
        proof {
            reveal_strlit("");
            assert(""@ =~= Seq::<char>::empty());
        }
        self.try_just_create_single_with_name(ty, "")
    }

    /// Like [`Context::just_create_single_with_name`], but returns whether the instance is
    /// stored instead of requiring a fit provider.
    pub fn try_just_create_single_with_name(&mut self, ty: Type, name: &str) -> (b: bool)
        requires
            old(self)@.failure((ty.id, name@), Behaviour::JustCreateSingletonOrSingleOwner) is None,
        ensures
            old(self)@.resolved_to(final(self)@, (ty.id, name@), Behaviour::JustCreateSingletonOrSingleOwner, None),
            b ==> final(self)@.single_map().contains_key((ty.id, name@)),
            b == !(old(self)@.plan((ty.id, name@), Behaviour::JustCreateSingletonOrSingleOwner) is NotFoundProvider
                || old(self)@.plan((ty.id, name@), Behaviour::JustCreateSingletonOrSingleOwner) is NotSingletonOrSingleOwner),
    {
        let key = Key::new(ty, name);
        match self.inner_resolve(&key, Behaviour::JustCreateSingletonOrSingleOwner) {
            Resolved::NoReturn => true,
            _ => false,
        }
    }

    /// Tries to create and store the instances of all the providers of type `ty`: the keys
    /// of type `ty` are taken in the order of the provider registry and their instances
    /// created in turn, each on the context the previous creation left; the results say
    /// which are stored, those of transients not. Stops at the first creation that fails.
    pub fn try_just_create_singles_by_type(&mut self, ty: Type) -> (r: Result<Vec<bool>, ContextError>)
        ensures
            match r {
                Ok(bs) => exists|trace: Seq<ContextView<V, F>>, outs: Seq<Option<V>>| #[trigger] resolution_run(
                    trace, ty.id, names_of_type(old(self)@, ty.id), Behaviour::JustCreateSingletonOrSingleOwner, outs)
                    && trace[0] == old(self)@ && trace.last() == final(self)@
                    && bs@.len() == names_of_type(old(self)@, ty.id).len()
                    && forall|i: int| 0 <= i < bs@.len() ==> #[trigger] bs@[i] == !(trace[i].plan(
                        (ty.id, names_of_type(old(self)@, ty.id)[i]), Behaviour::JustCreateSingletonOrSingleOwner) is NotFoundProvider
                        || trace[i].plan((ty.id, names_of_type(old(self)@, ty.id)[i]),
                        Behaviour::JustCreateSingletonOrSingleOwner) is NotSingletonOrSingleOwner),
                Err(e) => exists|trace: Seq<ContextView<V, F>>, outs: Seq<Option<V>>, j: int| #[trigger] resolution_run(
                    trace, ty.id, names_of_type(old(self)@, ty.id).take(j), Behaviour::JustCreateSingletonOrSingleOwner, outs)
                    && 0 <= j < names_of_type(old(self)@, ty.id).len() && trace[0] == old(self)@
                    && trace.last() == final(self)@ && final(self)@.failure((ty.id, names_of_type(old(self)@, ty.id)[j]),
                    Behaviour::JustCreateSingletonOrSingleOwner) == Some(e@),
            },
    {
        let names = self.names(ty);
        let ghost nm = names_of_type(self@, ty.id);
        let ghost b = Behaviour::JustCreateSingletonOrSingleOwner;
        let ghost mut trace: Seq<ContextView<V, F>> = seq![self@];
        let ghost mut outs: Seq<Option<V>> = Seq::empty();
        let mut results: Vec<bool> = Vec::new();
        let mut i: usize = 0;
        assert(resolution_run(trace, ty.id, nm.take(0), b, outs));
        while i < names.len()
            invariant
                i <= names@.len(),
                names@.map_values(|n: String| n@) == nm,
                nm == names_of_type(old(self)@, ty.id),
                b == Behaviour::JustCreateSingletonOrSingleOwner,
                resolution_run(trace, ty.id, nm.take(i as int), b, outs),
                trace[0] == old(self)@,
                trace.last() == self@,
                results@.len() == i,
                forall|k: int| 0 <= k < i ==> #[trigger] results@[k] == !(trace[k].plan((ty.id, nm[k]), b) is NotFoundProvider
                    || trace[k].plan((ty.id, nm[k]), b) is NotSingletonOrSingleOwner),
            decreases names@.len() - i,
        {
            let key = Key::new(ty, names[i].as_str());
            proof {
                assert(nm[i as int] == names@[i as int]@);
            }
            match self.resolve_failure(&key, Behaviour::JustCreateSingletonOrSingleOwner) {
                Some(e) => {
                    return Err(e);
                },
                None => {},
            }
            let resolved = self.inner_resolve(&key, Behaviour::JustCreateSingletonOrSingleOwner);
            let ghost out = returned_of(resolved);
            let kept = match resolved {
                Resolved::NoReturn => true,
                _ => false,
            };
            results.push(kept);
            proof {
                lemma_resolution_run_push(trace, ty.id, nm, b, outs, i as int, self@, out);
                trace = trace.push(self@);
                outs = outs.push(out);
            }
            i = i + 1;
        }
        assert(nm.take(i as int) =~= nm);
        Ok(results)
    }

    /// Loads the given modules: all of them, with their submodules, are flattened in
    /// pre-order into modules without submodules; each is noted as loaded and its
    /// providers, flattened with their bound providers, are loaded in turn.
    pub fn load_modules(&mut self, modules: Vec<ResolveModule<F>>)
        requires
            modules_constructed(ResolveModule::<F>::flat(modules@)),
            can_load_modules(old(self)@, ResolveModule::<F>::flat(modules@)),
        ensures
            final(self)@ == after_load_modules(old(self)@, ResolveModule::<F>::flat(modules@)),
    {
        let mut state = self.take_state();
        let _ = state.load_modules(modules);
        self.put_state(state);
    }

    /// Unloads the given modules: they are flattened as [`Context::load_modules`] does,
    /// each is no longer noted as loaded, and the provider and instance under the key of
    /// each of its providers, flattened with their bound providers, are removed.
    pub fn unload_modules(&mut self, modules: Vec<ResolveModule<F>>)
        ensures
            final(self)@ == after_unload_modules(old(self)@, ResolveModule::<F>::flat(modules@)),
    {
        let mut state = self.take_state();
        state.unload_modules(modules);
        self.put_state(state);
    }

    /// Evaluates the conditions of the conditional providers, in the order they were set
    /// aside, each on the context as it stands: a provider whose condition holds is loaded,
    /// any other one is dropped. Stops with an error at a provider that would override one
    /// when overriding is not allowed.
    pub fn evaluate_providers(&mut self) -> (r: Result<(), ContextError>)
        ensures
            match r {
                Ok(_) => evaluate_outcome(old(self)@, final(self)@, None),
                Err(e) => evaluate_outcome(old(self)@, final(self)@, Some(e@)),
            },
            old(self)@.conditional_providers.len() == 0 ==> r is Ok && final(self)@ == old(self)@,
    {
        let ghost start = ContextView { conditional_providers: Seq::empty(), ..self@ };
        let mut state = self.take_state();
        let mut pending: Vec<(bool, DynProvider<F>)> = Vec::new();
        std::mem::swap(&mut pending, &mut state.conditional_providers);
        self.put_state(state);
        let ghost items = pending@;
        let ghost mut results: Seq<bool> = Seq::empty();
        let n = pending.len();
        let mut rest = pending;
        let mut i: usize = 0;
        assert(items.take(0) =~= Seq::<(bool, DynProvider<F>)>::empty());
        while rest.len() > 0
            invariant
                i <= items.len(),
                n == items.len(),
                rest@ == items.skip(i as int),
                results.len() == i,
                self@ == after_evaluate(start, items.take(i as int), results),
                conditions_asked(start, items, results),
                items == old(self)@.conditional_providers,
                start == (ContextView { conditional_providers: Seq::empty(), ..old(self)@ }),
                forall|j: int| 0 <= j < items.len() ==> !((#[trigger] items[j]).1.spec_provider().spec_constructor() is Absent)
                    && items[j].1.spec_provider().spec_condition() is Some,
            decreases rest@.len(),
        {
            let (eager, provider) = rest.remove(0);
            proof {
                assert(items.take(i + 1).drop_last() =~= items.take(i as int));
                assert(items.take(i + 1).last() == (eager, provider));
                assert(rest@ =~= items.skip(i + 1));
                assert(items[i as int] == (eager, provider));
            }
            let ghost asked_on = *self;
            let condition = provider.condition().unwrap();
            let holds = condition.holds(self);
            assert(condition_gave(provider, asked_on@, holds)) by {
                let c = *condition;
                assert(provider.spec_provider().spec_condition() == Some(c));
                assert(call_ensures(F::holds, (&c, &asked_on), holds));
                assert(exists|cx: Context<V, F>| #[trigger] call_ensures(F::holds, (&c, &cx), holds) && cx@ == asked_on@);
                assert(provider.spec_provider().spec_condition() is Some);
                assert(provider.spec_provider().spec_condition()->Some_0 == c);
            }
            if holds {
                let mut state = self.take_state();
                if !state.allow_override && state.provider_registry.contains(&provider.definition().key) {
                    self.put_state(state);
                    assert(after_evaluate(start, items.take(i as int), results) == self@);
                    return Err(ContextError::DuplicateProvider(provider.definition().duplicate()));
                }
                state.load_provider(eager, provider);
                self.put_state(state);
            }
            proof {
                let ghost old_results = results;
                results = results.push(holds);
                assert(results.drop_last() =~= old_results);
                assert forall|j: int| #![trigger results[j]] 0 <= j < results.len() implies condition_gave(
                    items[j].1, after_evaluate(start, items.take(j), results.take(j)), results[j]) by {
                    if j < i {
                        assert(results.take(j) =~= old_results.take(j));
                        assert(results[j] == old_results[j]);
                    } else {
                        assert(results.take(j) =~= old_results);
                    }
                }
            }
            i = i + 1;
        }
        assert(items.take(i as int) =~= items);
        proof {
            if items.len() == 0 {
                assert(old(self)@.conditional_providers =~= Seq::<(bool, DynProvider<F>)>::empty());
            }
        }
        assert(after_evaluate(start, items, results) == self@);
        Ok(())
    }

    /// Runs one eager create function: an async one cannot run in a sync context; any
    /// other one creates the instance of its definition's key, failing where the creation
    /// fails or finds no provider, with the context unchanged.
    pub fn create_eager_instance(&mut self, definition: Definition, function: EagerCreateFunction) -> (r: Result<(), ContextError>)
        ensures
            match r {
                Ok(_) => eager_failure(old(self)@, (definition, function)) is None && old(self)@.resolved_to(
                    final(self)@, definition.key@, Behaviour::JustCreateAllScopeForEagerCreate, None),
                Err(e) => eager_failure(old(self)@, (definition, function)) == Some(e@) && final(self)@ == old(self)@,
            },
    {
        match function {
            EagerCreateFunction::Async => Err(ContextError::AsyncEagerCreate(definition)),
            _ => match self.resolve_failure(&definition.key, Behaviour::JustCreateAllScopeForEagerCreate) {
                Some(e) => Err(e),
                None => match self.inner_resolve(&definition.key, Behaviour::JustCreateAllScopeForEagerCreate) {
                    Resolved::NotFoundProvider(k) => Err(ContextError::NoProvider(k)),
                    _ => Ok(()),
                },
            },
        }
    }

    /// Runs the eager create functions queued when this call starts, in the order they were
    /// queued; none of them may be async. Each creates the instance of its definition's
    /// key. Functions queued while they run stay queued for the next call. Stops with an
    /// error at a creation that fails.
    fn create_eager_instances(&mut self) -> (r: Result<(), ContextError>)
        requires
            all_sync(old(self)@.eager_create_functions),
        ensures
            match r {
                Ok(_) => eager_outcome(old(self)@, final(self)@, None),
                Err(e) => eager_outcome(old(self)@, final(self)@, Some(e@)),
            },
            old(self)@.eager_create_functions.len() == 0 ==> r is Ok && final(self)@ == old(self)@,
    {
        if self.state.eager_create_functions.len() == 0 {
            proof {
                let trace = seq![self@];
                assert(self@.eager_create_functions =~= Seq::<(Definition, EagerCreateFunction)>::empty());
                assert(eager_run(trace, self@.eager_create_functions));
            }
            return Ok(());
        }
        let ghost start = ContextView { eager_create_functions: Seq::empty(), ..self@ };
        let pending = self.take_eager_create_functions();
        let ghost items = pending@;
        let ghost mut trace: Seq<ContextView<V, F>> = seq![self@];
        let n = pending.len();
        let mut rest = pending;
        let mut i: usize = 0;
        assert(eager_run(trace, items.take(0)));
        while rest.len() > 0
            invariant
                i <= items.len(),
                n == items.len(),
                items == old(self)@.eager_create_functions,
                start == (ContextView { eager_create_functions: Seq::empty(), ..old(self)@ }),
                rest@ == items.skip(i as int),
                eager_run(trace, items.take(i as int)),
                trace[0] == start,
                trace.last() == self@,
            decreases rest@.len(),
        {
            let (definition, function) = rest.remove(0);
            proof {
                assert(items[i as int] == (definition, function));
                assert(rest@ =~= items.skip(i + 1));
            }
            let created = self.create_eager_instance(definition, function);
            if created.is_err() {
                return created;
            }
            proof {
                lemma_eager_run_push(trace, items, i as int, self@);
                trace = trace.push(self@);
            }
            i = i + 1;
        }
        assert(items.take(i as int) =~= items);
        Ok(())
    }

    /// Flushes the context: runs the queued eager create functions, none of which may be
    /// async, evaluates the conditional providers, then runs the eager create functions
    /// queued by then, unless one of those is async (one whose condition held, or one that
    /// a constructor queued), which is an error. Stops with an error where one of these
    /// steps does.
    pub fn flush(&mut self) -> (r: Result<(), ContextError>)
        requires
            all_sync(old(self)@.eager_create_functions),
        ensures
            match r {
                Ok(_) => flush_outcome(old(self)@, final(self)@, None),
                Err(e) => flush_outcome(old(self)@, final(self)@, Some(e@)),
            },
            old(self)@.eager_create_functions.len() == 0 && old(self)@.conditional_providers.len() == 0
                ==> r is Ok && final(self)@ == old(self)@,
    {
        let ghost before = self@;
        let first = self.create_eager_instances();
        if first.is_err() {
            return first;
        }
        let ghost middle = self@;
        assert(eager_outcome(before, middle, None));
        let evaluated = self.evaluate_providers();
        if evaluated.is_err() {
            return evaluated;
        }
        let ghost later = self@;
        assert(evaluate_outcome(middle, later, None));
        match self.first_async_eager_create() {
            Some(d) => {
                return Err(ContextError::AsyncEagerCreate(d));
            },
            None => {},
        }
        self.create_eager_instances()
    }
}

/// What an eager creation comes to once the resolution of its key gave `resolved`: a
/// missing provider and a failure are errors, anything else is a success.
pub fn eager_created<V>(resolved: Resolved<V>) -> (r: Result<(), ContextError>)
    ensures
        match resolved {
            Resolved::NotFoundProvider(k) => (r matches Err(e) && e@ == ErrorView::NoProvider(k@)),
            Resolved::Failed(e0) => (r matches Err(e) && e == e0),
            _ => r is Ok,
        },
{
    match resolved {
        Resolved::NotFoundProvider(k) => Err(ContextError::NoProvider(k)),
        Resolved::Failed(e) => Err(e),
        _ => Ok(()),
    }
}

/// A run of eager create functions extends by one more function that runs without failure.
proof fn lemma_eager_run_push<V: Clone, F: Factory<V> + Clone>(
    trace: Seq<ContextView<V, F>>,
    items: Seq<(Definition, EagerCreateFunction)>,
    i: int,
    next: ContextView<V, F>,
)
    requires
        eager_run(trace, items.take(i)),
        0 <= i < items.len(),
        eager_failure(trace.last(), items[i]) is None,
        trace.last().resolved_to(next, items[i].0.key@, Behaviour::JustCreateAllScopeForEagerCreate, None),
    ensures
        eager_run(trace.push(next), items.take(i + 1)),
{
    let t = trace.push(next);
    let s = items.take(i + 1);
    assert forall|j: int| #![trigger s[j]] 0 <= j < s.len() implies {
        &&& eager_failure(t[j], s[j]) is None
        &&& t[j].resolved_to(t[j + 1], s[j].0.key@, Behaviour::JustCreateAllScopeForEagerCreate, None)
    } by {
        assert(s[j] == items[j]);
        if j < i {
            assert(items.take(i)[j] == items[j]);
            assert(t[j] == trace[j] && t[j + 1] == trace[j + 1]);
        } else {
            assert(t[j] == trace.last() && t[j + 1] == next);
        }
    }
}


/// A run of resolutions extends by one more resolution that runs without failure.
proof fn lemma_resolution_run_push<V: Clone, F: Factory<V> + Clone>(
    trace: Seq<ContextView<V, F>>,
    id: TypeId,
    names: Seq<Seq<char>>,
    b: Behaviour,
    outs: Seq<Option<V>>,
    i: int,
    next: ContextView<V, F>,
    out: Option<V>,
)
    requires
        resolution_run(trace, id, names.take(i), b, outs),
        0 <= i < names.len(),
        trace.last().failure((id, names[i]), b) is None,
        trace.last().resolved_to(next, (id, names[i]), b, out),
    ensures
        resolution_run(trace.push(next), id, names.take(i + 1), b, outs.push(out)),
{
    let t = trace.push(next);
    let n = names.take(i + 1);
    let o = outs.push(out);
    assert forall|j: int| #![trigger n[j]] 0 <= j < n.len() implies {
        &&& t[j].failure((id, n[j]), b) is None
        &&& t[j].resolved_to(t[j + 1], (id, n[j]), b, o[j])
    } by {
        assert(n[j] == names[j]);
        if j < i {
            assert(names.take(i)[j] == names[j]);
            assert(t[j] == trace[j] && t[j + 1] == trace[j + 1] && o[j] == outs[j]);
        } else {
            assert(t[j] == trace.last() && t[j + 1] == next && o[j] == out);
        }
    }
}

/// Appending to a sequence of options appends its value, if it has one, to their values.
proof fn lemma_somes_push<T>(s: Seq<Option<T>>, x: Option<T>)
    ensures
        somes(s.push(x)) == match x {
            Some(v) => somes(s).push(v),
            None => somes(s),
        },
{
    assert(s.push(x).drop_last() =~= s);
}


/// A resolution that called a copy of the provider's constructor once on the context with
/// the key marked, and stored the instance it built on the context it handed back, with
/// the key marked as constructed, built the instance.
proof fn lemma_built_by_constructor<V: Clone, F: Factory<V> + Clone>(
    s: ContextView<V, F>,
    after: ContextView<V, F>,
    key: Key,
    b: Behaviour,
    returned: Option<V>,
    c: F,
    before: Context<V, F>,
    done: Context<V, F>,
    v: V,
)
    requires
        s.plan(key@, b) matches Plan::Construct(f) && cloned(f, c),
        before@ == s.with_chain(s.dependency_chain.push(key@)),
        call_ensures(F::construct, (&c, before), (v, done)),
        stored(done@.chain_popped(), after, key, b, s.provider_map()[key@].spec_definition().scope, v, outcome_of(returned)),
    ensures
        s.built(after, key@, b, returned),
{
}

/// A resolution that resolved the source key on the context with the key marked, applied
/// a copy of the provider's transform once to the source's instance, and stored the
/// instance it built, with the key marked as constructed, built the instance.
proof fn lemma_built_by_transform<V: Clone, F: Factory<V> + Clone>(
    s: ContextView<V, F>,
    after: ContextView<V, F>,
    key: Key,
    b: Behaviour,
    returned: Option<V>,
    c: F,
    middle: ContextView<V, F>,
    source: V,
    v: V,
)
    requires
        s.plan(key@, b) matches Plan::ConstructBound(f, src) && cloned(f, c) && s.with_chain(s.dependency_chain.push(key@)).resolved_to(
            middle, src, Behaviour::CreateThenReturnSingletonOrTransient, Some(source)),
        s.with_chain(s.dependency_chain.push(key@)).pending() < s.pending(),
        call_ensures(F::transform, (&c, source), v),
        stored(middle.chain_popped(), after, key, b, s.provider_map()[key@].spec_definition().scope, v, outcome_of(returned)),
    ensures
        s.built(after, key@, b, returned),
{
    let marked = s.with_chain(s.dependency_chain.push(key@));
    let scope = s.provider_map()[key@].spec_definition().scope;
    match s.plan(key@, b) {
        Plan::ConstructBound(f, src) => {
            assert(marked.pending() < s.pending());
            assert(exists|m: ContextView<V, F>, sv: V, c2: F, v2: V, k2: Key|
                #![trigger call_ensures(F::transform, (&c2, sv), v2), stored(m.chain_popped(), after, k2, b, scope, v2, outcome_of(returned))]
                k2@ == key@ && marked.resolved_to(m, src, Behaviour::CreateThenReturnSingletonOrTransient, Some(sv))
                && cloned(f, c2) && call_ensures(F::transform, (&c2, sv), v2)
                && stored(m.chain_popped(), after, k2, b, scope, v2, outcome_of(returned)));
        },
        _ => {},
    }
}

} // verus!
