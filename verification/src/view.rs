use std::any::TypeId;
use vstd::prelude::*;

use crate::definition::{Definition, Key};
use crate::provider::{Constructor, DynProvider, EagerCreateFunction};
use crate::flatten::Nested;
use crate::module::ResolveModule;
use crate::registry::{distinct_keys, entries_map, registry_insert, registry_remove};
use crate::scope::Scope;
use crate::single::DynSingle;
use crate::ty::Type;
use crate::context::{stored, Context, Factory, Resolved};

verus! {

/// What a resolution is asked to do.
#[derive(Clone, Copy, Debug, PartialEq, Eq, Structural)]
pub enum Behaviour {
    /// Create the instance if needed and return it; only singletons and transients can be returned.
    CreateThenReturnSingletonOrTransient,
    /// Create the instance if needed, whatever its scope; nothing is returned.
    JustCreateAllScopeForEagerCreate,
    /// Create the instance if needed; only singletons and single owners can be created this way.
    JustCreateSingletonOrSingleOwner,
}

/// Why an operation of a context could not be completed.
#[derive(Debug)]
pub enum ContextError {
    /// No provider is registered for the key.
    NoProvider(Key),
    /// The provider is not a `Singleton` or `Transient`, so no instance can be returned.
    NotSingletonOrTransient(Definition),
    /// The provider's constructor is async and cannot be run in a sync context.
    AsyncConstructor(Definition),
    /// The provider's eager create function is async and cannot be run in a sync context.
    AsyncEagerCreate(Definition),
    /// The key is already being constructed: the providers depend on each other in a cycle.
    CircularDependency(Key),
    /// A provider with the same key exists and overriding is not allowed.
    DuplicateProvider(Definition),
}

/// A [`ContextError`] with its keys taken by their views.
pub enum ErrorView {
    /// No provider is registered for the key.
    NoProvider((TypeId, Seq<char>)),
    /// The provider is not a `Singleton` or `Transient`.
    NotSingletonOrTransient(Definition),
    /// The provider's constructor is async.
    AsyncConstructor(Definition),
    /// The provider's eager create function is async.
    AsyncEagerCreate(Definition),
    /// The key is already being constructed.
    CircularDependency((TypeId, Seq<char>)),
    /// A provider with the same key exists and overriding is not allowed.
    DuplicateProvider(Definition),
}

impl View for ContextError {
    type V = ErrorView;

    open spec fn view(&self) -> ErrorView {
        match *self {
            ContextError::NoProvider(k) => ErrorView::NoProvider(k@),
            ContextError::NotSingletonOrTransient(d) => ErrorView::NotSingletonOrTransient(d),
            ContextError::AsyncConstructor(d) => ErrorView::AsyncConstructor(d),
            ContextError::AsyncEagerCreate(d) => ErrorView::AsyncEagerCreate(d),
            ContextError::CircularDependency(k) => ErrorView::CircularDependency(k@),
            ContextError::DuplicateProvider(d) => ErrorView::DuplicateProvider(d),
        }
    }
}

/// The next step of resolving a key, as the state of a context decides it.
pub enum Plan<V, F> {
    /// No provider is registered for the key.
    NotFoundProvider,
    /// An instance is stored and may be handed out: a copy of it is returned.
    ReturnSingle(V),
    /// An instance is stored and nothing is to be returned.
    NoReturnExisting,
    /// The provider is not a `Singleton` or `Transient`.
    NotSingletonOrTransient(Definition),
    /// The provider is not a `Singleton` or `SingleOwner`.
    NotSingletonOrSingleOwner(Definition),
    /// The provider's constructor is async.
    AsyncConstructor(Definition),
    /// The key is already being constructed.
    Circular,
    /// The provider has no constructor and no instance is stored.
    Absent,
    /// The instance is built by the provider's constructor.
    Construct(F),
    /// The instance is built by applying the transform to an instance of the source key.
    ConstructBound(F, (TypeId, Seq<char>)),
}

/// The state of a context: its options, registries, loaded modules, pending conditional
/// providers and eager create functions, and the keys being constructed.
pub struct ContextView<V, F> {
    /// Whether providers may override existing ones.
    pub allow_override: bool,
    /// Whether only singletons and single owners are eagerly created.
    pub allow_only_single_eager_create: bool,
    /// Whether all providers are eagerly created.
    pub eager_create: bool,
    /// The stored instances, in the order their keys were first stored.
    pub singles: Seq<(Key, DynSingle<V>)>,
    /// The registered providers, in the order their keys were first registered.
    pub providers: Seq<(Key, DynProvider<F>)>,
    /// The types of the loaded modules.
    pub loaded_modules: Seq<Type>,
    /// The conditional providers waiting to be evaluated, with the eager creation of their module.
    pub conditional_providers: Seq<(bool, DynProvider<F>)>,
    /// The eager create functions waiting to be run.
    pub eager_create_functions: Seq<(Definition, EagerCreateFunction)>,
    /// The keys being constructed, outermost first.
    pub dependency_chain: Seq<(TypeId, Seq<char>)>,
}

impl<V, F> ContextView<V, F> {
    /// The state of a context with the given options and nothing in it.
    pub open spec fn empty(allow_override: bool, allow_only_single_eager_create: bool, eager_create: bool) -> Self {
        ContextView {
            allow_override,
            allow_only_single_eager_create,
            eager_create,
            singles: Seq::empty(),
            providers: Seq::empty(),
            loaded_modules: Seq::empty(),
            conditional_providers: Seq::empty(),
            eager_create_functions: Seq::empty(),
            dependency_chain: Seq::empty(),
        }
    }

    /// The registered providers by key.
    pub open spec fn provider_map(self) -> Map<(TypeId, Seq<char>), DynProvider<F>> {
        entries_map(self.providers)
    }

    /// The stored instances by key.
    pub open spec fn single_map(self) -> Map<(TypeId, Seq<char>), DynSingle<V>> {
        entries_map(self.singles)
    }

    /// The state is consistent: no key is registered twice, every provider is registered
    /// under its own key, every stored instance has its key's type, a provider without a
    /// constructor always has its instance stored, everything waiting to be loaded or run
    /// has a constructor, and no key is being constructed twice.
    pub open spec fn wf(self) -> bool {
        &&& distinct_keys(self.providers)
        &&& distinct_keys(self.singles)
        &&& forall|i: int| 0 <= i < self.providers.len() ==> (#[trigger] self.providers[i]).1.spec_definition().key@ == self.providers[i].0@
        &&& forall|i: int| 0 <= i < self.singles.len() ==> (#[trigger] self.singles[i]).1.spec_single().spec_ty().id == self.singles[i].0.ty.id
        &&& forall|k: (TypeId, Seq<char>)| #[trigger] self.provider_map().contains_key(k)
            && self.provider_map()[k].spec_provider().spec_constructor() is Absent ==> self.single_map().contains_key(k)
        &&& forall|i: int| 0 <= i < self.conditional_providers.len()
            ==> !((#[trigger] self.conditional_providers[i]).1.spec_provider().spec_constructor() is Absent)
            && self.conditional_providers[i].1.spec_provider().spec_condition() is Some
        &&& forall|i: int| 0 <= i < self.eager_create_functions.len()
            ==> (#[trigger] self.eager_create_functions[i]).1 != EagerCreateFunction::Absent
        &&& self.dependency_chain.no_duplicates()
    }

    /// The two states agree on everything but the registered providers and stored instances.
    pub open spec fn same_but_registries(self, other: Self) -> bool {
        &&& self.allow_override == other.allow_override
        &&& self.allow_only_single_eager_create == other.allow_only_single_eager_create
        &&& self.eager_create == other.eager_create
        &&& self.loaded_modules == other.loaded_modules
        &&& self.conditional_providers == other.conditional_providers
        &&& self.eager_create_functions == other.eager_create_functions
        &&& self.dependency_chain == other.dependency_chain
    }

    /// Whether resolving `k` to an instance succeeds: nothing fails, and an instance is
    /// stored that may be handed out or one is built.
    pub open spec fn resolves(self, k: (TypeId, Seq<char>)) -> bool {
        &&& self.failure(k, Behaviour::CreateThenReturnSingletonOrTransient) is None
        &&& (self.plan(k, Behaviour::CreateThenReturnSingletonOrTransient) is ReturnSingle
            || self.builds(k, Behaviour::CreateThenReturnSingletonOrTransient))
    }

    /// The state with the given stored instances.
    pub open spec fn with_singles(self, singles: Seq<(Key, DynSingle<V>)>) -> Self {
        ContextView { singles, ..self }
    }

    /// The state with the given registered providers.
    pub open spec fn with_providers(self, providers: Seq<(Key, DynProvider<F>)>) -> Self {
        ContextView { providers, ..self }
    }

    /// The state with the given dependency chain.
    pub open spec fn with_chain(self, chain: Seq<(TypeId, Seq<char>)>) -> Self {
        ContextView { dependency_chain: chain, ..self }
    }

    /// The number of registered keys that are not being constructed; it bounds how deep
    /// resolutions can nest.
    pub open spec fn pending(self) -> nat {
        self.provider_map().dom().difference(self.dependency_chain.to_set()).len()
    }

    /// What resolving the key `k` with behaviour `b` does first.
    pub open spec fn plan(self, k: (TypeId, Seq<char>), b: Behaviour) -> Plan<V, F> {
        if !self.provider_map().contains_key(k) {
            Plan::NotFoundProvider
        } else {
            let p = self.provider_map()[k].spec_provider();
            let d = p.spec_definition();
            if self.single_map().contains_key(k) {
                let single = self.single_map()[k].spec_single();
                if b == Behaviour::CreateThenReturnSingletonOrTransient {
                    if single.spec_clonable() {
                        Plan::ReturnSingle(single.spec_instance())
                    } else {
                        Plan::NotSingletonOrTransient(d)
                    }
                } else {
                    Plan::NoReturnExisting
                }
            } else if d.scope == Scope::Transient && b == Behaviour::JustCreateSingletonOrSingleOwner {
                Plan::NotSingletonOrSingleOwner(d)
            } else if d.scope == Scope::SingleOwner && b == Behaviour::CreateThenReturnSingletonOrTransient {
                Plan::NotSingletonOrTransient(d)
            } else {
                match p.spec_constructor() {
                    Constructor::Async(_) => Plan::AsyncConstructor(d),
                    Constructor::Absent => Plan::Absent,
                    Constructor::Sync(f) => {
                        if self.dependency_chain.contains(k) {
                            Plan::Circular
                        } else {
                            match d.origin {
                                Some(t) => Plan::ConstructBound(f, (t.id, d.key.name@)),
                                None => Plan::Construct(f),
                            }
                        }
                    },
                }
            }
        }
    }

    /// What resolving the key `k` with behaviour `b` does first, in an async context when
    /// `in_async` holds: there, an async constructor builds the instance as a sync one does.
    pub open spec fn plan_in(self, k: (TypeId, Seq<char>), b: Behaviour, in_async: bool) -> Plan<V, F> {
        match self.plan(k, b) {
            Plan::AsyncConstructor(d) => if !in_async {
                Plan::AsyncConstructor(d)
            } else if self.dependency_chain.contains(k) {
                Plan::Circular
            } else {
                let f = match self.provider_map()[k].spec_provider().spec_constructor() {
                    Constructor::Async(f) => f,
                    _ => arbitrary(),
                };
                match d.origin {
                    Some(t) => Plan::ConstructBound(f, (t.id, d.key.name@)),
                    None => Plan::Construct(f),
                }
            },
            p => p,
        }
    }

    /// The state with the innermost key being constructed marked as constructed.
    pub open spec fn chain_popped(self) -> Self {
        self.with_chain(
            if self.dependency_chain.len() == 0 {
                self.dependency_chain
            } else {
                self.dependency_chain.drop_last()
            },
        )
    }

    /// The error that resolving the key `k` with behaviour `b` ends with, if it fails: an
    /// async constructor or a cycle at this key, or, for a bound provider, the failure of
    /// resolving its source, which has to exist and return an instance.
    pub open spec fn failure(self, k: (TypeId, Seq<char>), b: Behaviour) -> Option<ErrorView>
        decreases self.pending(),
    {
        match self.plan(k, b) {
            Plan::AsyncConstructor(d) => Some(ErrorView::AsyncConstructor(d)),
            Plan::Circular => Some(ErrorView::CircularDependency(k)),
            Plan::ConstructBound(_, src) => {
                let s2 = self.with_chain(self.dependency_chain.push(k));
                match s2.plan(src, Behaviour::CreateThenReturnSingletonOrTransient) {
                    Plan::NotFoundProvider => Some(ErrorView::NoProvider(src)),
                    Plan::NotSingletonOrTransient(d2) => Some(ErrorView::NotSingletonOrTransient(d2)),
                    _ => if s2.pending() < self.pending() {
                        s2.failure(src, Behaviour::CreateThenReturnSingletonOrTransient)
                    } else {
                        None
                    },
                }
            },
            _ => None,
        }
    }

    /// Whether resolving `k` with `b` builds a new instance.
    pub open spec fn builds(self, k: (TypeId, Seq<char>), b: Behaviour) -> bool {
        self.plan(k, b) is Construct || self.plan(k, b) is ConstructBound
    }

}

/// The entries of `s` whose keys have the type identifier `id`, in order.
pub open spec fn entries_of_type<T>(s: Seq<(Key, T)>, id: TypeId) -> Seq<(Key, T)>
    decreases s.len(),
{
    if s.len() == 0 {
        Seq::empty()
    } else {
        let rest = entries_of_type(s.drop_last(), id);
        if s.last().0.ty.id == id {
            rest.push(s.last())
        } else {
            rest
        }
    }
}

/// Whether `p` is the provider of an instance of type `ty` under `name` inserted into a
/// context directly, with the given scope.
pub open spec fn is_standalone<F>(p: DynProvider<F>, ty: Type, name: Seq<char>, scope: Scope) -> bool {
    &&& p.spec_definition().key.ty == ty
    &&& p.spec_definition().key.name@ == name
    &&& p.spec_definition().origin is None
    &&& p.spec_definition().scope == scope
    &&& p.spec_definition().color is None
    &&& !p.spec_definition().conditional
    &&& !p.spec_provider().spec_eager_create()
    &&& p.spec_provider().spec_condition() is None
    &&& p.spec_provider().spec_constructor() is Absent
    &&& p.spec_provider().spec_eager_create_function() == EagerCreateFunction::Absent
}

/// The outcome of a resolution that returned `returned`, when it built an instance.
pub open spec fn outcome_of<V>(returned: Option<V>) -> Resolved<V> {
    match returned {
        Some(v) => Resolved::SingletonOrTransient(v),
        None => Resolved::NoReturn,
    }
}

impl<V: Clone, F: Factory<V> + Clone> ContextView<V, F> {
    /// What holds after resolving `k` with `b` from this state ended in `after`, having
    /// returned `returned`, when nothing failed: a stored instance is copied out or left
    /// alone with the state unchanged, a missing or unfit provider gives nothing with the
    /// state unchanged, and a built instance is returned or stored as [`ContextView::built`] says.
    pub open spec fn resolved_to(self, after: Self, k: (TypeId, Seq<char>), b: Behaviour, returned: Option<V>) -> bool
        decreases self.pending(), 1int,
    {
        match self.plan(k, b) {
            Plan::ReturnSingle(inst) => (returned matches Some(v) && cloned(inst, v) && after == self),
            Plan::NoReturnExisting => returned is None && after == self,
            Plan::NotFoundProvider => returned is None && after == self,
            Plan::NotSingletonOrTransient(_) => returned is None && after == self,
            Plan::NotSingletonOrSingleOwner(_) => returned is None && after == self,
            Plan::Construct(_) => self.built(after, k, b, returned),
            Plan::ConstructBound(_, _) => self.built(after, k, b, returned),
            _ => false,
        }
    }

    /// What holds after a resolution of `k` with `b` that built a new instance, starting
    /// from this state and ending in `after`, which returned `returned`. The key is marked
    /// as being constructed; then a copy of the provider's constructor is called once on
    /// the context so marked and hands back the instance and the context, or, for a bound provider, the source key is resolved on it
    /// and a copy of the transform is applied once to the source's instance; then the
    /// key is marked as constructed, and the instance built is stored as the scope asks
    /// and returned when one was asked for. In particular an instance is returned exactly
    /// when one was asked for, a singleton keeps a copy of the returned instance, and a
    /// single owner keeps its instance without handing it out.
    pub open spec fn built(self, after: Self, k: (TypeId, Seq<char>), b: Behaviour, returned: Option<V>) -> bool
        decreases self.pending(), 0int,
    {
        let scope = self.provider_map()[k].spec_definition().scope;
        let marked = self.with_chain(self.dependency_chain.push(k));
        &&& (returned is Some <==> b == Behaviour::CreateThenReturnSingletonOrTransient)
        &&& (scope != Scope::Transient ==> after.single_map().contains_key(k)
            && after.single_map()[k].spec_single().spec_clonable() == (scope == Scope::Singleton)
            && after.single_map()[k].spec_single().spec_ty().id == k.0)
        &&& (scope == Scope::Singleton ==> (returned matches Some(v) ==> cloned(v, after.single_map()[k].spec_single().spec_instance())))
        &&& match self.plan(k, b) {
            Plan::Construct(f) => exists|c: F, before: Context<V, F>, done: Context<V, F>, v: V, key: Key|
                #![trigger call_ensures(F::construct, (&c, before), (v, done)), stored(done@.chain_popped(), after, key, b, scope, v, outcome_of(returned))]
                key@ == k && cloned(f, c) && before@ == marked && call_ensures(F::construct, (&c, before), (v, done))
                && stored(done@.chain_popped(), after, key, b, scope, v, outcome_of(returned)),
            Plan::ConstructBound(f, src) => if marked.pending() < self.pending() {
                exists|middle: Self, source: V, c: F, v: V, key: Key|
                    #![trigger call_ensures(F::transform, (&c, source), v), stored(middle.chain_popped(), after, key, b, scope, v, outcome_of(returned))]
                    key@ == k && marked.resolved_to(middle, src, Behaviour::CreateThenReturnSingletonOrTransient, Some(source))
                    && cloned(f, c) && call_ensures(F::transform, (&c, source), v)
                    && stored(middle.chain_popped(), after, key, b, scope, v, outcome_of(returned))
            } else {
                false
            },
            _ => false,
        }
    }
}

/// The types of `ts` whose identifier is not `id`, in order.
pub open spec fn types_except(ts: Seq<Type>, id: TypeId) -> Seq<Type>
    decreases ts.len(),
{
    if ts.len() == 0 {
        Seq::empty()
    } else {
        let rest = types_except(ts.drop_last(), id);
        if ts.last().id != id {
            rest.push(ts.last())
        } else {
            rest
        }
    }
}

impl<V, F> ContextView<V, F> {
    /// The state after registering `p`, loaded from a module with eager creation `eager`:
    /// `p` replaces a provider under its key, and its eager create function is queued when
    /// the context, the module or the provider asks for eager creation and the context
    /// allows it for the provider's scope.
    pub open spec fn after_load_provider(self, eager: bool, p: DynProvider<F>) -> Self {
        let d = p.spec_definition();
        let need = self.eager_create || eager || p.spec_provider().spec_eager_create();
        let allow = !self.allow_only_single_eager_create || d.scope == Scope::Singleton || d.scope == Scope::SingleOwner;
        ContextView {
            eager_create_functions: if need && allow {
                self.eager_create_functions.push((d, p.spec_provider().spec_eager_create_function()))
            } else {
                self.eager_create_functions
            },
            providers: registry_insert(self.providers, d.key, p),
            ..self
        }
    }

    /// Whether `p` can be registered: it has a constructor, and it overrides no provider
    /// unless overriding is allowed.
    pub open spec fn may_register(self, p: DynProvider<F>) -> bool {
        &&& !(p.spec_provider().spec_constructor() is Absent)
        &&& (self.allow_override || !self.provider_map().contains_key(p.spec_definition().key@))
    }

    /// The state after setting `p` aside, with the module's eager creation, to be
    /// evaluated later.
    pub open spec fn after_set_aside(self, eager: bool, p: DynProvider<F>) -> Self {
        ContextView { conditional_providers: self.conditional_providers.push((eager, p)), ..self }
    }

    /// The state after noting that a module of type `ty` is loaded.
    pub open spec fn after_note_module(self, ty: Type) -> Self {
        ContextView { loaded_modules: self.loaded_modules.push(ty), ..self }
    }

    /// The state after forgetting the modules of the type of `ty` and removing the
    /// provider and instance under the key `k`.
    pub open spec fn after_remove(self, k: (TypeId, Seq<char>)) -> Self {
        ContextView { providers: registry_remove(self.providers, k), singles: registry_remove(self.singles, k), ..self }
    }
}

/// The state after loading the providers `ps` in turn from a module with eager creation
/// `eager`: a conditional provider is set aside, any other one is registered.
pub open spec fn after_load_providers<V, F>(s: ContextView<V, F>, eager: bool, ps: Seq<DynProvider<F>>) -> ContextView<V, F>
    decreases ps.len(),
{
    if ps.len() == 0 {
        s
    } else {
        let s1 = after_load_providers(s, eager, ps.drop_last());
        let p = ps.last();
        if p.spec_provider().spec_condition() is Some {
            s1.after_set_aside(eager, p)
        } else {
            s1.after_load_provider(eager, p)
        }
    }
}

/// Whether the providers `ps` can be loaded in turn: each has a constructor, and each that
/// is not conditional can be registered when its turn comes.
pub open spec fn can_load_providers<V, F>(s: ContextView<V, F>, eager: bool, ps: Seq<DynProvider<F>>) -> bool
    decreases ps.len(),
{
    if ps.len() == 0 {
        true
    } else {
        let s1 = after_load_providers(s, eager, ps.drop_last());
        let p = ps.last();
        &&& can_load_providers(s, eager, ps.drop_last())
        &&& !(p.spec_provider().spec_constructor() is Absent)
        &&& (p.spec_provider().spec_condition() is Some || s1.may_register(p))
    }
}

/// The state after loading the modules `ms` in turn: each is noted as loaded, then its
/// providers, together with the providers bound to them, are loaded in pre-order.
pub open spec fn after_load_modules<V, F>(s: ContextView<V, F>, ms: Seq<ResolveModule<F>>) -> ContextView<V, F>
    decreases ms.len(),
{
    if ms.len() == 0 {
        s
    } else {
        let s1 = after_load_modules(s, ms.drop_last());
        let m = ms.last();
        after_load_providers(s1.after_note_module(m.spec_ty()), m.spec_eager_create(), DynProvider::<F>::flat(m.spec_providers()))
    }
}

/// Whether the modules `ms` can be loaded in turn.
pub open spec fn can_load_modules<V, F>(s: ContextView<V, F>, ms: Seq<ResolveModule<F>>) -> bool
    decreases ms.len(),
{
    if ms.len() == 0 {
        true
    } else {
        let s1 = after_load_modules(s, ms.drop_last());
        let m = ms.last();
        &&& can_load_modules(s, ms.drop_last())
        &&& can_load_providers(s1.after_note_module(m.spec_ty()), m.spec_eager_create(), DynProvider::<F>::flat(m.spec_providers()))
    }
}

/// Whether loading the providers `ps` in turn from state `s` is first refused at the
/// provider at `j`: the providers before it can be loaded and it cannot be registered.
pub open spec fn providers_refused_at<V, F>(s: ContextView<V, F>, eager: bool, ps: Seq<DynProvider<F>>, j: int) -> bool {
    &&& 0 <= j < ps.len()
    &&& can_load_providers(s, eager, ps.take(j))
    &&& !can_load_providers(s, eager, ps.take(j + 1))
}

/// Whether loading the modules `ms` in turn from state `s` is first refused in the module
/// at `i`, at the provider at `j` of its providers flattened with the providers bound to them.
pub open spec fn modules_refused_at<V, F>(s: ContextView<V, F>, ms: Seq<ResolveModule<F>>, i: int, j: int) -> bool {
    &&& 0 <= i < ms.len()
    &&& can_load_modules(s, ms.take(i))
    &&& providers_refused_at(after_load_modules(s, ms.take(i)).after_note_module(ms[i].spec_ty()), ms[i].spec_eager_create(),
        DynProvider::<F>::flat(ms[i].spec_providers()), j)
}

/// The state after evaluating the conditional providers `items` in turn, their conditions
/// having given `results`: a provider whose condition held is loaded with its module's
/// eager creation, any other one is dropped.
pub open spec fn after_evaluate<V, F>(s: ContextView<V, F>, items: Seq<(bool, DynProvider<F>)>, results: Seq<bool>) -> ContextView<V, F>
    decreases items.len(),
{
    if items.len() == 0 {
        s
    } else {
        let s1 = after_evaluate(s, items.drop_last(), results.drop_last());
        if results.last() {
            s1.after_load_provider(items.last().0, items.last().1)
        } else {
            s1
        }
    }
}

/// The state after unloading the providers `ps` in turn: each one's key loses its
/// provider and its instance.
pub open spec fn after_unload_providers<V, F>(s: ContextView<V, F>, ps: Seq<DynProvider<F>>) -> ContextView<V, F>
    decreases ps.len(),
{
    if ps.len() == 0 {
        s
    } else {
        after_unload_providers(s, ps.drop_last()).after_remove(ps.last().spec_definition().key@)
    }
}

/// The state after unloading the modules `ms` in turn: the module's type is no longer
/// noted as loaded, then its providers, with the providers bound to them, are unloaded.
pub open spec fn after_unload_modules<V, F>(s: ContextView<V, F>, ms: Seq<ResolveModule<F>>) -> ContextView<V, F>
    decreases ms.len(),
{
    if ms.len() == 0 {
        s
    } else {
        let s1 = after_unload_modules(s, ms.drop_last());
        let m = ms.last();
        let s2 = ContextView { loaded_modules: types_except(s1.loaded_modules, m.spec_ty().id), ..s1 };
        after_unload_providers(s2, DynProvider::<F>::flat(m.spec_providers()))
    }
}

/// The error with which running the eager create function `item` from state `s` stops,
/// if it does: an async function cannot run, and a sync one fails where creating the
/// instance of its key fails or finds no provider.
pub open spec fn eager_failure<V, F>(s: ContextView<V, F>, item: (Definition, EagerCreateFunction)) -> Option<ErrorView> {
    let k = item.0.key@;
    if item.1 == EagerCreateFunction::Async {
        Some(ErrorView::AsyncEagerCreate(item.0))
    } else {
        match s.failure(k, Behaviour::JustCreateAllScopeForEagerCreate) {
            Some(e) => Some(e),
            None => if s.plan(k, Behaviour::JustCreateAllScopeForEagerCreate) is NotFoundProvider {
                Some(ErrorView::NoProvider(k))
            } else {
                None
            },
        }
    }
}

/// Whether `trace` is a run of the eager create functions `items`: the state before each
/// function and the state after it, each function running without failure and creating the
/// instance of its key.
pub open spec fn eager_run<V: Clone, F: Factory<V> + Clone>(trace: Seq<ContextView<V, F>>, items: Seq<(Definition, EagerCreateFunction)>) -> bool {
    &&& trace.len() == items.len() + 1
    &&& forall|i: int| #![trigger items[i]] 0 <= i < items.len() ==> {
        &&& eager_failure(trace[i], items[i]) is None
        &&& trace[i].resolved_to(trace[i + 1], items[i].0.key@, Behaviour::JustCreateAllScopeForEagerCreate, None)
    }
}

/// What running the eager create functions queued in `before` can end in: the queue is
/// emptied, then the functions run in the order they were queued, each on the state the
/// previous one left; `after` is the state at the end and `e` the error the run stopped
/// with, if it did.
pub open spec fn eager_outcome<V: Clone, F: Factory<V> + Clone>(before: ContextView<V, F>, after: ContextView<V, F>, e: Option<ErrorView>) -> bool {
    let start = ContextView { eager_create_functions: Seq::empty(), ..before };
    let items = before.eager_create_functions;
    match e {
        None => exists|trace: Seq<ContextView<V, F>>| #[trigger] eager_run(trace, items) && trace[0] == start
            && trace.last() == after,
        Some(err) => exists|trace: Seq<ContextView<V, F>>, j: int| #[trigger] eager_run(trace, items.take(j))
            && 0 <= j < items.len() && trace[0] == start && trace.last() == after
            && eager_failure(after, items[j]) == Some(err),
    }
}

/// Whether the conditions of the conditional providers `items` that `results` covers
/// were each asked, in turn, on the context as it stood when the provider's turn came, and
/// returned what `results` says.
pub open spec fn conditions_asked<V, F: Factory<V>>(
    start: ContextView<V, F>,
    items: Seq<(bool, DynProvider<F>)>,
    results: Seq<bool>,
) -> bool {
    forall|i: int| #![trigger results[i]] 0 <= i < results.len() ==> condition_gave(
        items[i].1, after_evaluate(start, items.take(i), results.take(i)), results[i])
}

/// Whether the condition of `p` was asked on a context whose state is `s`, and returned `held`.
pub open spec fn condition_gave<V, F: Factory<V>>(p: DynProvider<F>, s: ContextView<V, F>, held: bool) -> bool {
    &&& p.spec_provider().spec_condition() is Some
    &&& exists|cx: Context<V, F>| #[trigger] call_ensures(F::holds, (&p.spec_provider().spec_condition()->Some_0, &cx), held)
        && cx@ == s
}

/// What evaluating the conditional providers set aside in `before` can end in: the list is
/// emptied, then the condition of each provider is asked on the context as it stands when
/// the provider's turn comes, in the order they were set aside; a provider whose condition
/// held is loaded and any other one dropped. The evaluation stops with an error at a
/// provider whose condition held and which would override one when overriding is not
/// allowed.
pub open spec fn evaluate_outcome<V, F: Factory<V>>(before: ContextView<V, F>, after: ContextView<V, F>, e: Option<ErrorView>) -> bool {
    let start = ContextView { conditional_providers: Seq::empty(), ..before };
    let items = before.conditional_providers;
    match e {
        None => exists|results: Seq<bool>| results.len() == items.len() && conditions_asked(start, items, results)
            && after == #[trigger] after_evaluate(start, items, results),
        Some(err) => exists|results: Seq<bool>, j: int| 0 <= j < items.len() && results.len() == j
            && conditions_asked(start, items, results)
            && after == #[trigger] after_evaluate(start, items.take(j), results)
            && condition_gave(items[j].1, after, true)
            && !after.may_register(items[j].1)
            && err == ErrorView::DuplicateProvider(items[j].1.spec_definition()),
    }
}

/// Whether none of the eager create functions `items` is async.
pub open spec fn all_sync(items: Seq<(Definition, EagerCreateFunction)>) -> bool {
    forall|i: int| 0 <= i < items.len() ==> #[trigger] items[i].1 != EagerCreateFunction::Async
}

/// Whether `err` is the error of the first async function among the eager create
/// functions `items`.
pub open spec fn first_async_error(items: Seq<(Definition, EagerCreateFunction)>, err: ErrorView) -> bool {
    exists|j: int| 0 <= j < items.len() && #[trigger] items[j].1 == EagerCreateFunction::Async
        && (forall|i: int| 0 <= i < j ==> #[trigger] items[i].1 != EagerCreateFunction::Async)
        && err == ErrorView::AsyncEagerCreate(items[j].0)
}

/// What running the eager create functions queued in `before` at the end of a flush can
/// end in: as [`eager_outcome`] says where none of them is async; otherwise none runs, the
/// state stays as it is, and the error is that of the first async one.
pub open spec fn later_outcome<V: Clone, F: Factory<V> + Clone>(before: ContextView<V, F>, after: ContextView<V, F>, e: Option<ErrorView>) -> bool {
    if all_sync(before.eager_create_functions) {
        eager_outcome(before, after, e)
    } else {
        after == before && (e matches Some(err) && first_async_error(before.eager_create_functions, err))
    }
}

/// What flushing `before` can end in: the queued eager create functions run, then the
/// conditional providers are evaluated, then the eager create functions queued by then
/// run; the flush stops with the first error, `e`, if there is one, in state `after`.
pub open spec fn flush_outcome<V: Clone, F: Factory<V> + Clone>(before: ContextView<V, F>, after: ContextView<V, F>, e: Option<ErrorView>) -> bool {
    ||| (e is Some && eager_outcome(before, after, e))
    ||| exists|m1: ContextView<V, F>| #[trigger] eager_outcome(before, m1, None) && (
        (e is Some && evaluate_outcome(m1, after, e))
        || exists|m2: ContextView<V, F>| #[trigger] evaluate_outcome(m1, m2, None) && later_outcome(m2, after, e))
}

/// The names of the providers of type `id` registered in `s`, in the order of the
/// provider registry.
pub open spec fn names_of_type<V, F>(s: ContextView<V, F>, id: TypeId) -> Seq<Seq<char>> {
    entries_of_type(s.providers, id).map_values(|e: (Key, DynProvider<F>)| e.0.name@)
}

/// The values held by the `Some`s of `s`, in order.
pub open spec fn somes<T>(s: Seq<Option<T>>) -> Seq<T>
    decreases s.len(),
{
    if s.len() == 0 {
        Seq::empty()
    } else {
        let rest = somes(s.drop_last());
        match s.last() {
            Some(v) => rest.push(v),
            None => rest,
        }
    }
}

/// Whether `trace` is a run of resolutions with behaviour `b` of the keys of type `id`
/// under `names`, in turn, that returned `outs`: the state before each resolution and the
/// state after it, each resolution running without failure.
pub open spec fn resolution_run<V: Clone, F: Factory<V> + Clone>(
    trace: Seq<ContextView<V, F>>,
    id: TypeId,
    names: Seq<Seq<char>>,
    b: Behaviour,
    outs: Seq<Option<V>>,
) -> bool {
    &&& trace.len() == names.len() + 1
    &&& outs.len() == names.len()
    &&& forall|i: int| #![trigger names[i]] 0 <= i < names.len() ==> {
        &&& trace[i].failure((id, names[i]), b) is None
        &&& trace[i].resolved_to(trace[i + 1], (id, names[i]), b, outs[i])
    }
}

/// The registered keys form a finite set, one key per entry.
pub proof fn lemma_map_finite<T>(s: Seq<(Key, T)>)
    ensures
        entries_map(s).dom().finite(),
{
    let views = s.map_values(|e: (Key, T)| e.0@);
    assert(entries_map(s).dom() =~= views.to_set()) by {
        assert forall|k| #[trigger] entries_map(s).dom().contains(k) implies views.to_set().contains(k) by {
            let i = choose|i: int| 0 <= i < s.len() && (#[trigger] s[i]).0@ == k;
            assert(views[i] == k);
        }
        assert forall|k| #[trigger] views.to_set().contains(k) implies entries_map(s).dom().contains(k) by {
            let i = choose|i: int| 0 <= i < views.len() && views[i] == k;
            assert(s[i].0@ == k);
        }
    }
    vstd::seq_lib::seq_to_set_is_finite(views);
}

/// Starting the construction of a registered key that is not being constructed leaves
/// fewer keys pending.
pub proof fn lemma_pending_push<V, F>(s: ContextView<V, F>, k: (TypeId, Seq<char>))
    requires
        s.provider_map().contains_key(k),
        !s.dependency_chain.contains(k),
    ensures
        s.with_chain(s.dependency_chain.push(k)).pending() < s.pending(),
{
    let s2 = s.with_chain(s.dependency_chain.push(k));
    lemma_map_finite(s.providers);
    let d = s.provider_map().dom().difference(s.dependency_chain.to_set());
    let d2 = s2.provider_map().dom().difference(s2.dependency_chain.to_set());
    assert(s.dependency_chain.push(k).to_set() =~= s.dependency_chain.to_set().insert(k)) by {
        assert forall|x| #[trigger] s.dependency_chain.push(k).to_set().contains(x) <==> s.dependency_chain.to_set().insert(k).contains(x) by {
            if s.dependency_chain.push(k).contains(x) && x != k {
                let i = choose|i: int| 0 <= i < s.dependency_chain.push(k).len() && s.dependency_chain.push(k)[i] == x;
                assert(s.dependency_chain[i] == x);
            }
            if s.dependency_chain.contains(x) {
                let i = choose|i: int| 0 <= i < s.dependency_chain.len() && s.dependency_chain[i] == x;
                assert(s.dependency_chain.push(k)[i] == x);
            }
            if x == k {
                assert(s.dependency_chain.push(k)[s.dependency_chain.len() as int] == k);
            }
        }
    }
    assert(d2 =~= d.remove(k));
    assert(d.contains(k));
    vstd::set_lib::lemma_set_subset_finite(s.provider_map().dom(), d);
    assert(d.finite());
}

} // verus!
