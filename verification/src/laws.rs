use std::any::TypeId;
use vstd::prelude::*;

use crate::context::{lemma_after_remove_wf, Factory};
use crate::flatten::Nested;
use crate::module::ResolveModule;
use crate::provider::DynProvider;
use crate::registry::lemma_registry_insert;
use crate::definition::{bound_definition, Definition};
use crate::provider::is_bound_provider;
use crate::scope::{Color, Scope};
use crate::ty::Type;
use crate::view::{
    after_evaluate, after_load_modules, after_load_providers, after_unload_modules, after_unload_providers, eager_outcome,
    eager_run, evaluate_outcome, flush_outcome, later_outcome, all_sync, types_except, Behaviour, ContextView, ErrorView, Plan,
};

verus! {

/// The keys of the providers `ps`.
pub open spec fn keys_of<F>(ps: Seq<DynProvider<F>>) -> Set<(TypeId, Seq<char>)> {
    Set::new(|k: (TypeId, Seq<char>)| exists|i: int| 0 <= i < ps.len() && (#[trigger] ps[i]).spec_definition().key@ == k)
}

/// The keys of the providers of the modules `ms`, with the providers bound to them.
pub open spec fn module_keys<F>(ms: Seq<ResolveModule<F>>) -> Set<(TypeId, Seq<char>)> {
    Set::new(|k: (TypeId, Seq<char>)| exists|i: int| 0 <= i < ms.len()
        && keys_of(DynProvider::<F>::flat((#[trigger] ms[i]).spec_providers())).contains(k))
}

/// Unloading the providers `ps` removes the provider and the instance under each of their
/// keys, and leaves every other key as it was.
pub proof fn lemma_unload_providers_removes<V, F>(s: ContextView<V, F>, ps: Seq<DynProvider<F>>)
    requires
        s.wf(),
    ensures
        after_unload_providers(s, ps).wf(),
        after_unload_providers(s, ps).provider_map() == s.provider_map().remove_keys(keys_of(ps)),
        after_unload_providers(s, ps).single_map() == s.single_map().remove_keys(keys_of(ps)),
        after_unload_providers(s, ps).loaded_modules == s.loaded_modules,
    decreases ps.len(),
{
    if ps.len() == 0 {
        assert(keys_of(ps) =~= Set::<(TypeId, Seq<char>)>::empty());
        assert(s.provider_map().remove_keys(keys_of(ps)) =~= s.provider_map());
        assert(s.single_map().remove_keys(keys_of(ps)) =~= s.single_map());
    } else {
        let rest = ps.drop_last();
        let k = ps.last().spec_definition().key@;
        lemma_unload_providers_removes(s, rest);
        let t = after_unload_providers(s, rest);
        lemma_after_remove_wf(t, k);
        assert(keys_of(ps) =~= keys_of(rest).insert(k)) by {
            assert forall|x: (TypeId, Seq<char>)| #[trigger] keys_of(ps).contains(x) implies keys_of(rest).insert(k).contains(x) by {
                let i = choose|i: int| 0 <= i < ps.len() && (#[trigger] ps[i]).spec_definition().key@ == x;
                if i < rest.len() {
                    assert(rest[i] == ps[i]);
                }
            }
            assert forall|x: (TypeId, Seq<char>)| #[trigger] keys_of(rest).insert(k).contains(x) implies keys_of(ps).contains(x) by {
                if x == k {
                    assert(ps[ps.len() - 1].spec_definition().key@ == x);
                } else {
                    let i = choose|i: int| 0 <= i < rest.len() && (#[trigger] rest[i]).spec_definition().key@ == x;
                    assert(ps[i] == rest[i]);
                }
            }
        }
        assert(t.provider_map().remove(k) =~= s.provider_map().remove_keys(keys_of(ps)));
        assert(t.single_map().remove(k) =~= s.single_map().remove_keys(keys_of(ps)));
    }
}

/// No type of `types_except(ts, id)` has the identifier `id`, and each is a type of `ts`.
pub proof fn lemma_types_except(ts: Seq<Type>, id: TypeId)
    ensures
        forall|j: int| 0 <= j < types_except(ts, id).len() ==> (#[trigger] types_except(ts, id)[j]).id != id
            && ts.contains(types_except(ts, id)[j]),
    decreases ts.len(),
{
    if ts.len() > 0 {
        let rest = ts.drop_last();
        lemma_types_except(rest, id);
        let r = types_except(rest, id);
        assert forall|j: int| 0 <= j < types_except(ts, id).len() implies (#[trigger] types_except(ts, id)[j]).id != id
            && ts.contains(types_except(ts, id)[j]) by {
            if j < r.len() {
                assert(types_except(ts, id)[j] == r[j]);
                let i = choose|i: int| 0 <= i < rest.len() && rest[i] == r[j];
                assert(ts[i] == rest[i]);
            } else {
                assert(types_except(ts, id)[j] == ts.last());
                assert(ts[ts.len() - 1] == ts.last());
            }
        }
    }
}

/// Unloading the modules `ms` removes the provider and the instance under the key of each
/// of their providers, with the providers bound to them, leaves every other key as it was,
/// and leaves no module of the type of any of them noted as loaded.
pub proof fn lemma_unload_modules_removes<V, F>(s: ContextView<V, F>, ms: Seq<ResolveModule<F>>)
    requires
        s.wf(),
    ensures
        after_unload_modules(s, ms).wf(),
        after_unload_modules(s, ms).provider_map() == s.provider_map().remove_keys(module_keys(ms)),
        after_unload_modules(s, ms).single_map() == s.single_map().remove_keys(module_keys(ms)),
        forall|i: int, j: int| 0 <= i < ms.len() && 0 <= j < after_unload_modules(s, ms).loaded_modules.len()
            ==> (#[trigger] after_unload_modules(s, ms).loaded_modules[j]).id != (#[trigger] ms[i]).spec_ty().id,
    decreases ms.len(),
{
    if ms.len() == 0 {
        assert(module_keys(ms) =~= Set::<(TypeId, Seq<char>)>::empty());
        assert(s.provider_map().remove_keys(module_keys(ms)) =~= s.provider_map());
        assert(s.single_map().remove_keys(module_keys(ms)) =~= s.single_map());
    } else {
        let rest = ms.drop_last();
        let m = ms.last();
        let ps = DynProvider::<F>::flat(m.spec_providers());
        lemma_unload_modules_removes(s, rest);
        let t = after_unload_modules(s, rest);
        let t2 = ContextView { loaded_modules: types_except(t.loaded_modules, m.spec_ty().id), ..t };
        lemma_unload_providers_removes(t2, ps);
        lemma_types_except(t.loaded_modules, m.spec_ty().id);
        let u = after_unload_modules(s, ms);
        assert(u == after_unload_providers(t2, ps));
        assert(module_keys(ms) =~= module_keys(rest).union(keys_of(ps))) by {
            assert forall|x: (TypeId, Seq<char>)| #[trigger] module_keys(ms).contains(x) implies module_keys(rest).union(keys_of(ps)).contains(x) by {
                let i = choose|i: int| 0 <= i < ms.len()
                    && keys_of(DynProvider::<F>::flat((#[trigger] ms[i]).spec_providers())).contains(x);
                if i < rest.len() {
                    assert(rest[i] == ms[i]);
                }
            }
            assert forall|x: (TypeId, Seq<char>)| #[trigger] module_keys(rest).union(keys_of(ps)).contains(x) implies module_keys(ms).contains(x) by {
                if keys_of(ps).contains(x) {
                    assert(ms[ms.len() - 1] == m);
                } else {
                    let i = choose|i: int| 0 <= i < rest.len()
                        && keys_of(DynProvider::<F>::flat((#[trigger] rest[i]).spec_providers())).contains(x);
                    assert(ms[i] == rest[i]);
                }
            }
        }
        assert(t.provider_map().remove_keys(keys_of(ps)) =~= s.provider_map().remove_keys(module_keys(ms)));
        assert(t.single_map().remove_keys(keys_of(ps)) =~= s.single_map().remove_keys(module_keys(ms)));
        assert forall|i: int, j: int| 0 <= i < ms.len() && 0 <= j < u.loaded_modules.len()
            implies (#[trigger] u.loaded_modules[j]).id != (#[trigger] ms[i]).spec_ty().id by {
            let x = u.loaded_modules[j];
            assert(x == types_except(t.loaded_modules, m.spec_ty().id)[j]);
            if i < rest.len() {
                assert(ms[i] == rest[i]);
                let jj = choose|jj: int| 0 <= jj < t.loaded_modules.len() && t.loaded_modules[jj] == x;
                assert(t.loaded_modules[jj].id != rest[i].spec_ty().id);
            }
        }
    }
}

/// Loading providers leaves the loaded modules as they were.
proof fn lemma_load_providers_keeps_modules<V, F>(s: ContextView<V, F>, eager: bool, ps: Seq<DynProvider<F>>)
    ensures
        after_load_providers(s, eager, ps).loaded_modules == s.loaded_modules,
    decreases ps.len(),
{
    if ps.len() > 0 {
        lemma_load_providers_keeps_modules(s, eager, ps.drop_last());
    }
}

/// Loading the modules `ms` notes each of them as loaded, in order, after the modules
/// loaded before.
pub proof fn lemma_load_modules_recorded<V, F>(s: ContextView<V, F>, ms: Seq<ResolveModule<F>>)
    ensures
        after_load_modules(s, ms).loaded_modules == s.loaded_modules + ms.map_values(|m: ResolveModule<F>| m.spec_ty()),
    decreases ms.len(),
{
    if ms.len() == 0 {
        assert(s.loaded_modules + ms.map_values(|m: ResolveModule<F>| m.spec_ty()) =~= s.loaded_modules);
    } else {
        let rest = ms.drop_last();
        let m = ms.last();
        lemma_load_modules_recorded(s, rest);
        let t = after_load_modules(s, rest);
        lemma_load_providers_keeps_modules(t.after_note_module(m.spec_ty()), m.spec_eager_create(),
            DynProvider::<F>::flat(m.spec_providers()));
        assert(s.loaded_modules + ms.map_values(|m: ResolveModule<F>| m.spec_ty())
            =~= (s.loaded_modules + rest.map_values(|m: ResolveModule<F>| m.spec_ty())).push(m.spec_ty()));
    }
}

/// Loading a provider registers it under its key, replacing a provider registered there.
pub proof fn lemma_load_provider_overrides<V, F>(s: ContextView<V, F>, eager: bool, p: DynProvider<F>)
    requires
        s.wf(),
    ensures
        s.after_load_provider(eager, p).provider_map() == s.provider_map().insert(p.spec_definition().key@, p),
        s.after_load_provider(eager, p).single_map() == s.single_map(),
{
    lemma_registry_insert(s.providers, p.spec_definition().key, p);
}

/// Loading providers keeps the registered keys distinct.
proof fn lemma_load_providers_distinct<V, F>(s: ContextView<V, F>, eager: bool, ps: Seq<DynProvider<F>>)
    requires
        crate::registry::distinct_keys(s.providers),
    ensures
        crate::registry::distinct_keys(after_load_providers(s, eager, ps).providers),
    decreases ps.len(),
{
    if ps.len() > 0 {
        lemma_load_providers_distinct(s, eager, ps.drop_last());
        let t = after_load_providers(s, eager, ps.drop_last());
        lemma_registry_insert(t.providers, ps.last().spec_definition().key, ps.last());
    }
}

/// After the providers `ps` are loaded in turn, each of them that has no condition is
/// registered under its key, and a key none of them has keeps its provider.
pub proof fn lemma_load_providers_registers<V, F>(s: ContextView<V, F>, eager: bool, ps: Seq<DynProvider<F>>)
    requires
        crate::registry::distinct_keys(s.providers),
    ensures
        forall|i: int| 0 <= i < ps.len() && (#[trigger] ps[i]).spec_provider().spec_condition() is None
            ==> after_load_providers(s, eager, ps).provider_map().contains_key(ps[i].spec_definition().key@),
        forall|k: (TypeId, Seq<char>)| !keys_of(ps).contains(k) ==> (#[trigger] after_load_providers(s, eager, ps).provider_map().contains_key(k)
            == s.provider_map().contains_key(k)) && (s.provider_map().contains_key(k)
            ==> after_load_providers(s, eager, ps).provider_map()[k] == s.provider_map()[k]),
        after_load_providers(s, eager, ps).single_map() == s.single_map(),
    decreases ps.len(),
{
    if ps.len() > 0 {
        let rest = ps.drop_last();
        let p = ps.last();
        let k = p.spec_definition().key@;
        lemma_load_providers_registers(s, eager, rest);
        lemma_load_providers_distinct(s, eager, rest);
        let t = after_load_providers(s, eager, rest);
        lemma_registry_insert(t.providers, p.spec_definition().key, p);
        let u = after_load_providers(s, eager, ps);
        assert forall|i: int| 0 <= i < ps.len() && (#[trigger] ps[i]).spec_provider().spec_condition() is None
            implies u.provider_map().contains_key(ps[i].spec_definition().key@) by {
            if i < rest.len() {
                assert(rest[i] == ps[i]);
            }
        }
        assert forall|x: (TypeId, Seq<char>)| !keys_of(ps).contains(x) implies (#[trigger] u.provider_map().contains_key(x)
            == s.provider_map().contains_key(x)) && (s.provider_map().contains_key(x)
            ==> u.provider_map()[x] == s.provider_map()[x]) by {
            assert(ps[ps.len() - 1] == p);
            assert(x != k);
            assert forall|i: int| 0 <= i < rest.len() implies (#[trigger] rest[i]).spec_definition().key@ != x by {
                assert(ps[i] == rest[i]);
            }
            assert(!keys_of(rest).contains(x));
            assert(t.provider_map().contains_key(x) == s.provider_map().contains_key(x));
            if p.spec_provider().spec_condition() is Some {
                assert(u.providers == t.providers);
            } else {
                assert(u.provider_map() == t.provider_map().insert(k, p));
            }
        }
    }
}

/// A provider without a condition that is not stored and whose constructor is sync
/// cannot be resolved while its key is being constructed: the resolution fails as a
/// circular dependency, for any behaviour that its scope allows.
pub proof fn lemma_circular_dependency<V, F>(s: ContextView<V, F>, k: (TypeId, Seq<char>), b: Behaviour)
    requires
        s.provider_map().contains_key(k),
        !s.single_map().contains_key(k),
        s.provider_map()[k].spec_provider().spec_constructor() is Sync,
        s.dependency_chain.contains(k),
        !(s.provider_map()[k].spec_definition().scope == Scope::Transient && b == Behaviour::JustCreateSingletonOrSingleOwner),
        !(s.provider_map()[k].spec_definition().scope == Scope::SingleOwner && b == Behaviour::CreateThenReturnSingletonOrTransient),
    ensures
        s.plan(k, b) is Circular,
        s.failure(k, b) == Some(ErrorView::CircularDependency(k)),
{
}

/// Loading the modules `ms` keeps the registered keys distinct and the stored instances as
/// they were, and a key that none of their providers, or of the providers bound to them,
/// has keeps its provider.
proof fn lemma_load_modules_keeps_others<V, F>(s: ContextView<V, F>, ms: Seq<ResolveModule<F>>)
    requires
        crate::registry::distinct_keys(s.providers),
    ensures
        crate::registry::distinct_keys(after_load_modules(s, ms).providers),
        after_load_modules(s, ms).single_map() == s.single_map(),
        forall|k: (TypeId, Seq<char>)| !module_keys(ms).contains(k) ==> (#[trigger] after_load_modules(s, ms).provider_map().contains_key(k)
            == s.provider_map().contains_key(k)) && (s.provider_map().contains_key(k)
            ==> after_load_modules(s, ms).provider_map()[k] == s.provider_map()[k]),
    decreases ms.len(),
{
    if ms.len() > 0 {
        let rest = ms.drop_last();
        let m = ms.last();
        lemma_load_modules_keeps_others(s, rest);
        let t = after_load_modules(s, rest);
        let t1 = t.after_note_module(m.spec_ty());
        let ps = DynProvider::<F>::flat(m.spec_providers());
        assert(t1.providers == t.providers);
        assert(t1.singles == t.singles);
        lemma_load_providers_registers(t1, m.spec_eager_create(), ps);
        lemma_load_providers_distinct(t1, m.spec_eager_create(), ps);
        let u = after_load_modules(s, ms);
        assert(u == after_load_providers(t1, m.spec_eager_create(), ps));
        assert forall|k: (TypeId, Seq<char>)| !module_keys(ms).contains(k) implies (#[trigger] u.provider_map().contains_key(k)
            == s.provider_map().contains_key(k)) && (s.provider_map().contains_key(k)
            ==> u.provider_map()[k] == s.provider_map()[k]) by {
            if module_keys(rest).contains(k) {
                let i = choose|i: int| 0 <= i < rest.len()
                    && keys_of(DynProvider::<F>::flat((#[trigger] rest[i]).spec_providers())).contains(k);
                assert(ms[i] == rest[i]);
                assert(keys_of(DynProvider::<F>::flat(ms[i].spec_providers())).contains(k));
                assert(module_keys(ms).contains(k));
            }
            if keys_of(ps).contains(k) {
                assert(ms[ms.len() - 1] == m);
                assert(keys_of(DynProvider::<F>::flat(ms[ms.len() - 1].spec_providers())).contains(k));
                assert(module_keys(ms).contains(k));
            }
            assert(!module_keys(rest).contains(k));
            assert(!keys_of(ps).contains(k));
            let v = after_load_providers(t1, m.spec_eager_create(), ps);
            assert(v.provider_map().contains_key(k) == t1.provider_map().contains_key(k));
            assert(t.provider_map().contains_key(k) == s.provider_map().contains_key(k));
            assert(t1.provider_map() == t.provider_map());
            if s.provider_map().contains_key(k) {
                assert(v.provider_map()[k] == t1.provider_map()[k]);
                assert(t.provider_map()[k] == s.provider_map()[k]);
            }
        }
    }
}

/// The identifiers of the types of the modules `ms`.
pub open spec fn module_type_ids<F>(ms: Seq<ResolveModule<F>>) -> Set<TypeId> {
    Set::new(|id: TypeId| exists|i: int| 0 <= i < ms.len() && (#[trigger] ms[i]).spec_ty().id == id)
}

/// The types of `ts` whose identifier is not in `ids`, in order.
pub open spec fn types_outside(ts: Seq<Type>, ids: Set<TypeId>) -> Seq<Type>
    decreases ts.len(),
{
    if ts.len() == 0 {
        Seq::empty()
    } else {
        let rest = types_outside(ts.drop_last(), ids);
        if !ids.contains(ts.last().id) {
            rest.push(ts.last())
        } else {
            rest
        }
    }
}

/// Leaving out the types of one more identifier after those of `ids` leaves out the types
/// of both.
proof fn lemma_types_outside_except(ts: Seq<Type>, ids: Set<TypeId>, id: TypeId)
    ensures
        types_except(types_outside(ts, ids), id) == types_outside(ts, ids.insert(id)),
    decreases ts.len(),
{
    if ts.len() > 0 {
        lemma_types_outside_except(ts.drop_last(), ids, id);
        let q = types_outside(ts.drop_last(), ids);
        let x = ts.last();
        if !ids.contains(x.id) {
            assert(q.push(x).drop_last() =~= q);
            assert(q.push(x).last() == x);
        }
    }
}

/// Leaving out types distributes over concatenation.
proof fn lemma_types_outside_concat(a: Seq<Type>, b: Seq<Type>, ids: Set<TypeId>)
    ensures
        types_outside(a + b, ids) == types_outside(a, ids) + types_outside(b, ids),
    decreases b.len(),
{
    if b.len() == 0 {
        assert(a + b =~= a);
        assert(types_outside(a, ids) + types_outside(b, ids) =~= types_outside(a, ids));
    } else {
        lemma_types_outside_concat(a, b.drop_last(), ids);
        assert((a + b).drop_last() =~= a + b.drop_last());
        assert((a + b).last() == b.last());
        if !ids.contains(b.last().id) {
            assert(types_outside(a, ids) + types_outside(b, ids)
                =~= (types_outside(a, ids) + types_outside(b.drop_last(), ids)).push(b.last()));
        }
    }
}

/// Leaving out the types of `ids` leaves every type of `ts` where none has an identifier in
/// `ids`, and none where each has one.
proof fn lemma_types_outside_all(ts: Seq<Type>, ids: Set<TypeId>)
    ensures
        (forall|i: int| 0 <= i < ts.len() ==> !ids.contains((#[trigger] ts[i]).id)) ==> types_outside(ts, ids) == ts,
        (forall|i: int| 0 <= i < ts.len() ==> ids.contains((#[trigger] ts[i]).id)) ==> types_outside(ts, ids) == Seq::<Type>::empty(),
    decreases ts.len(),
{
    if ts.len() > 0 {
        let r = ts.drop_last();
        lemma_types_outside_all(r, ids);
        assert(ts[ts.len() - 1] == ts.last());
        if forall|i: int| 0 <= i < ts.len() ==> !ids.contains((#[trigger] ts[i]).id) {
            assert forall|i: int| 0 <= i < r.len() implies !ids.contains((#[trigger] r[i]).id) by {
                assert(r[i] == ts[i]);
            }
            assert(r.push(ts.last()) =~= ts);
        }
        if forall|i: int| 0 <= i < ts.len() ==> ids.contains((#[trigger] ts[i]).id) {
            assert forall|i: int| 0 <= i < r.len() implies ids.contains((#[trigger] r[i]).id) by {
                assert(r[i] == ts[i]);
            }
        }
    }
}

/// Unloading providers leaves the loaded modules as they were.
proof fn lemma_unload_providers_keeps_modules<V, F>(s: ContextView<V, F>, ps: Seq<DynProvider<F>>)
    ensures
        after_unload_providers(s, ps).loaded_modules == s.loaded_modules,
    decreases ps.len(),
{
    if ps.len() > 0 {
        lemma_unload_providers_keeps_modules(s, ps.drop_last());
    }
}

/// Unloading the modules `ms` leaves the loaded modules whose type is not that of one of
/// them, in order.
proof fn lemma_unload_modules_loaded<V, F>(s: ContextView<V, F>, ms: Seq<ResolveModule<F>>)
    ensures
        after_unload_modules(s, ms).loaded_modules == types_outside(s.loaded_modules, module_type_ids(ms)),
    decreases ms.len(),
{
    if ms.len() == 0 {
        assert(module_type_ids(ms) =~= Set::<TypeId>::empty());
        lemma_types_outside_all(s.loaded_modules, module_type_ids(ms));
    } else {
        let rest = ms.drop_last();
        let m = ms.last();
        lemma_unload_modules_loaded(s, rest);
        let s1 = after_unload_modules(s, rest);
        let s2 = ContextView { loaded_modules: types_except(s1.loaded_modules, m.spec_ty().id), ..s1 };
        lemma_unload_providers_keeps_modules(s2, DynProvider::<F>::flat(m.spec_providers()));
        lemma_types_outside_except(s.loaded_modules, module_type_ids(rest), m.spec_ty().id);
        assert(module_type_ids(ms) =~= module_type_ids(rest).insert(m.spec_ty().id)) by {
            assert forall|id: TypeId| #[trigger] module_type_ids(ms).contains(id) implies module_type_ids(rest).insert(m.spec_ty().id).contains(id) by {
                let i = choose|i: int| 0 <= i < ms.len() && (#[trigger] ms[i]).spec_ty().id == id;
                if i < rest.len() {
                    assert(rest[i] == ms[i]);
                }
            }
            assert forall|id: TypeId| #[trigger] module_type_ids(rest).insert(m.spec_ty().id).contains(id) implies module_type_ids(ms).contains(id) by {
                if id == m.spec_ty().id {
                    assert(ms[ms.len() - 1].spec_ty().id == id);
                } else {
                    let i = choose|i: int| 0 <= i < rest.len() && (#[trigger] rest[i]).spec_ty().id == id;
                    assert(ms[i] == rest[i]);
                }
            }
        }
    }
}

/// Loading modules whose providers, with the providers bound to them, have keys under which
/// the context has neither a provider nor an instance, and whose types are not those of
/// modules loaded already, and then unloading the same modules, gives the context back the
/// providers, the instances and the loaded modules it had before.
pub proof fn lemma_load_unload_round_trip<V, F>(s: ContextView<V, F>, ms: Seq<ResolveModule<F>>)
    requires
        s.wf(),
        after_load_modules(s, ms).wf(),
        forall|k: (TypeId, Seq<char>)| #[trigger] module_keys(ms).contains(k)
            ==> !s.provider_map().contains_key(k) && !s.single_map().contains_key(k),
        forall|i: int| 0 <= i < s.loaded_modules.len() ==> !module_type_ids(ms).contains((#[trigger] s.loaded_modules[i]).id),
    ensures
        after_unload_modules(after_load_modules(s, ms), ms).provider_map() == s.provider_map(),
        after_unload_modules(after_load_modules(s, ms), ms).single_map() == s.single_map(),
        after_unload_modules(after_load_modules(s, ms), ms).loaded_modules == s.loaded_modules,
{
    lemma_load_modules_keeps_others(s, ms);
    let t = after_load_modules(s, ms);
    lemma_unload_modules_removes(t, ms);
    let tys = ms.map_values(|m: ResolveModule<F>| m.spec_ty());
    let ids = module_type_ids(ms);
    lemma_load_modules_recorded(s, ms);
    lemma_unload_modules_loaded(t, ms);
    lemma_types_outside_concat(s.loaded_modules, tys, ids);
    lemma_types_outside_all(s.loaded_modules, ids);
    assert forall|i: int| 0 <= i < tys.len() implies ids.contains((#[trigger] tys[i]).id) by {
        assert(ms[i].spec_ty() == tys[i]);
    }
    lemma_types_outside_all(tys, ids);
    assert(s.loaded_modules + Seq::<Type>::empty() =~= s.loaded_modules);
    assert(t.provider_map().remove_keys(module_keys(ms)) =~= s.provider_map());
    assert(t.single_map().remove_keys(module_keys(ms)) =~= s.single_map());
}

/// A key is marked as being constructed only when it is not being constructed already:
/// where the plan for it is to build an instance, it is absent from the dependency chain,
/// and the chain with it pushed at the end still holds no key twice.
pub proof fn lemma_marking_keeps_chain_distinct<V, F>(s: ContextView<V, F>, k: (TypeId, Seq<char>), b: Behaviour, in_async: bool)
    requires
        s.wf(),
        s.plan_in(k, b, in_async) is Construct || s.plan_in(k, b, in_async) is ConstructBound,
    ensures
        !s.dependency_chain.contains(k),
        s.with_chain(s.dependency_chain.push(k)).dependency_chain == s.dependency_chain.push(k),
        s.with_chain(s.dependency_chain.push(k)).wf(),
{
    let c = s.dependency_chain;
    let t = s.with_chain(c.push(k));
    assert(c.push(k).no_duplicates()) by {
        assert forall|i: int, j: int| 0 <= i < c.push(k).len() && 0 <= j < c.push(k).len() && i != j
            implies c.push(k)[i] != c.push(k)[j] by {
            if i < c.len() && j < c.len() {
                assert(c.push(k)[i] == c[i]);
                assert(c.push(k)[j] == c[j]);
            } else if i < c.len() {
                assert(c.push(k)[i] == c[i]);
                assert(c.contains(c[i]));
            } else {
                assert(c.push(k)[j] == c[j]);
                assert(c.contains(c[j]));
            }
        }
    }
    assert(t.provider_map() == s.provider_map());
    assert(t.single_map() == s.single_map());
}

/// An instance stored under a registered key that may be handed out is what resolving the
/// key returns a copy of, and the resolution cannot fail.
pub proof fn lemma_stored_instance_resolves<V, F>(s: ContextView<V, F>, k: (TypeId, Seq<char>))
    requires
        s.provider_map().contains_key(k),
        s.single_map().contains_key(k),
        s.single_map()[k].spec_single().spec_clonable(),
    ensures
        s.plan(k, Behaviour::CreateThenReturnSingletonOrTransient)
            == Plan::<V, F>::ReturnSingle(s.single_map()[k].spec_single().spec_instance()),
        s.resolves(k),
{
}

/// A single owner that is registered and has no instance that may be handed out is never
/// returned by a resolution: it is not a singleton or a transient.
pub proof fn lemma_single_owner_not_returned<V, F>(s: ContextView<V, F>, k: (TypeId, Seq<char>))
    requires
        s.provider_map().contains_key(k),
        s.provider_map()[k].spec_definition().scope == Scope::SingleOwner,
        !(s.single_map().contains_key(k) && s.single_map()[k].spec_single().spec_clonable()),
    ensures
        s.plan(k, Behaviour::CreateThenReturnSingletonOrTransient)
            == Plan::<V, F>::NotSingletonOrTransient(s.provider_map()[k].spec_definition()),
{
}

/// A transient that is registered and has no instance stored is never kept by a creation
/// of a single: it is not a singleton or a single owner.
pub proof fn lemma_transient_not_kept<V, F>(s: ContextView<V, F>, k: (TypeId, Seq<char>))
    requires
        s.provider_map().contains_key(k),
        s.provider_map()[k].spec_definition().scope == Scope::Transient,
        !s.single_map().contains_key(k),
    ensures
        s.plan(k, Behaviour::JustCreateSingletonOrSingleOwner)
            == Plan::<V, F>::NotSingletonOrSingleOwner(s.provider_map()[k].spec_definition()),
{
}


/// Once a resolution has built and returned a singleton, its instance is kept: resolving
/// the key again, while its provider is registered, returns a copy of the kept instance,
/// which is itself a copy of the instance returned first.
pub proof fn lemma_singleton_kept<V: Clone, F: Factory<V> + Clone>(s: ContextView<V, F>, t: ContextView<V, F>, k: (TypeId, Seq<char>), v: V)
    requires
        s.provider_map().contains_key(k),
        s.provider_map()[k].spec_definition().scope == Scope::Singleton,
        s.builds(k, Behaviour::CreateThenReturnSingletonOrTransient),
        s.resolved_to(t, k, Behaviour::CreateThenReturnSingletonOrTransient, Some(v)),
        t.provider_map().contains_key(k),
    ensures
        t.single_map().contains_key(k),
        cloned(v, t.single_map()[k].spec_single().spec_instance()),
        t.plan(k, Behaviour::CreateThenReturnSingletonOrTransient)
            == Plan::<V, F>::ReturnSingle(t.single_map()[k].spec_single().spec_instance()),
        t.resolves(k),
{
}

/// Flushing a context with no eager create function queued and no conditional provider
/// set aside succeeds and leaves the context as it was.
pub proof fn lemma_flush_idle<V: Clone, F: Factory<V> + Clone>(s: ContextView<V, F>, t: ContextView<V, F>, e: Option<ErrorView>)
    requires
        s.eager_create_functions.len() == 0,
        s.conditional_providers.len() == 0,
        flush_outcome(s, t, e),
    ensures
        e is None,
        t == s,
{
    assert(s.eager_create_functions =~= Seq::empty());
    assert(s.conditional_providers =~= Seq::empty());
    lemma_eager_idle(s);
    if e is Some && eager_outcome(s, t, e) {
        assert(false);
    } else {
        let m1 = choose|m1: ContextView<V, F>| #[trigger] eager_outcome(s, m1, None) && (
            (e is Some && evaluate_outcome(m1, t, e))
            || exists|m2: ContextView<V, F>| #[trigger] evaluate_outcome(m1, m2, None) && later_outcome(m2, t, e));
        assert(m1 == s);
        lemma_evaluate_idle(m1);
        let m2 = choose|m2: ContextView<V, F>| #[trigger] evaluate_outcome(m1, m2, None) && later_outcome(m2, t, e);
        assert(m2 == s);
        assert(all_sync(m2.eager_create_functions));
    }
}

/// With nothing queued, running the eager create functions cannot fail and changes nothing.
proof fn lemma_eager_idle<V: Clone, F: Factory<V> + Clone>(s: ContextView<V, F>)
    requires
        s.eager_create_functions == Seq::<(crate::definition::Definition, crate::provider::EagerCreateFunction)>::empty(),
    ensures
        forall|t: ContextView<V, F>, e: Option<ErrorView>| #[trigger] eager_outcome(s, t, e) ==> e is None && t == s,
{
    assert forall|t: ContextView<V, F>, e: Option<ErrorView>| #[trigger] eager_outcome(s, t, e) implies e is None && t == s by {
        let start = ContextView { eager_create_functions: Seq::empty(), ..s };
        assert(start == s);
        if e is None {
            let trace = choose|trace: Seq<ContextView<V, F>>| #[trigger] eager_run(trace, s.eager_create_functions)
                && trace[0] == start && trace.last() == t;
            assert(trace.len() == 1);
        }
    }
}

/// With nothing set aside, evaluating the conditional providers cannot fail and changes nothing.
proof fn lemma_evaluate_idle<V, F: Factory<V>>(s: ContextView<V, F>)
    requires
        s.conditional_providers == Seq::<(bool, DynProvider<F>)>::empty(),
    ensures
        forall|t: ContextView<V, F>, e: Option<ErrorView>| #[trigger] evaluate_outcome(s, t, e) ==> e is None && t == s,
{
    assert forall|t: ContextView<V, F>, e: Option<ErrorView>| #[trigger] evaluate_outcome(s, t, e) implies e is None && t == s by {
        let start = ContextView { conditional_providers: Seq::empty(), ..s };
        assert(start == s);
        if e is None {
            let results = choose|results: Seq<bool>| results.len() == s.conditional_providers.len()
                && t == #[trigger] after_evaluate(start, s.conditional_providers, results);
            assert(t == start);
        }
    }
}


/// When only singletons and single owners may be created eagerly, loading providers
/// queues no eager create function for a transient.
pub proof fn lemma_eager_queue_without_transients<V, F>(s: ContextView<V, F>, eager: bool, ps: Seq<DynProvider<F>>)
    requires
        s.allow_only_single_eager_create,
        forall|i: int| 0 <= i < s.eager_create_functions.len()
            ==> (#[trigger] s.eager_create_functions[i]).0.scope != Scope::Transient,
    ensures
        forall|i: int| 0 <= i < after_load_providers(s, eager, ps).eager_create_functions.len()
            ==> (#[trigger] after_load_providers(s, eager, ps).eager_create_functions[i]).0.scope != Scope::Transient,
        after_load_providers(s, eager, ps).allow_only_single_eager_create,
    decreases ps.len(),
{
    if ps.len() > 0 {
        lemma_eager_queue_without_transients(s, eager, ps.drop_last());
        let t = after_load_providers(s, eager, ps.drop_last());
        let u = after_load_providers(s, eager, ps);
        assert forall|i: int| 0 <= i < u.eager_create_functions.len()
            implies (#[trigger] u.eager_create_functions[i]).0.scope != Scope::Transient by {
            if i < t.eager_create_functions.len() {
                assert(u.eager_create_functions[i] == t.eager_create_functions[i]);
            }
        }
    }
}

/// Loading providers queues an eager create function only at the end of the queue: the
/// functions queued before stay queued, in order.
pub proof fn lemma_eager_queue_grows<V, F>(s: ContextView<V, F>, eager: bool, ps: Seq<DynProvider<F>>)
    ensures
        s.eager_create_functions.is_prefix_of(after_load_providers(s, eager, ps).eager_create_functions),
    decreases ps.len(),
{
    if ps.len() > 0 {
        lemma_eager_queue_grows(s, eager, ps.drop_last());
        let t = after_load_providers(s, eager, ps.drop_last());
        let u = after_load_providers(s, eager, ps);
        assert(t.eager_create_functions.is_prefix_of(u.eager_create_functions));
    }
}

/// When only singletons and single owners may be created eagerly, loading a provider that
/// is asked to be created eagerly (by the context, its module or itself) queues its eager
/// create function, with its definition, at the end of the queue exactly when its scope is
/// that of a singleton or a single owner; when every scope may be created eagerly, it is
/// queued whatever its scope; a provider that nothing asks to be created eagerly is never
/// queued.
pub proof fn lemma_load_provider_queues_eager<V, F>(s: ContextView<V, F>, eager: bool, p: DynProvider<F>)
    ensures
        ({
            let asked = s.eager_create || eager || p.spec_provider().spec_eager_create();
            let queued = s.eager_create_functions.push((p.spec_definition(), p.spec_provider().spec_eager_create_function()));
            let after = s.after_load_provider(eager, p).eager_create_functions;
            &&& (asked && s.allow_only_single_eager_create && p.spec_definition().scope == Scope::SingleOwner ==> after == queued)
            &&& (asked && s.allow_only_single_eager_create && p.spec_definition().scope == Scope::Singleton ==> after == queued)
            &&& (asked && s.allow_only_single_eager_create && p.spec_definition().scope == Scope::Transient
                ==> after == s.eager_create_functions)
            &&& (asked && !s.allow_only_single_eager_create ==> after == queued)
            &&& (!asked ==> after == s.eager_create_functions)
        }),
{
}

/// Resolving a key can only fail on an async constructor, on a circular dependency, or on
/// the source of a bound provider: a missing provider, a stored instance, or a provider
/// whose scope does not fit the behaviour never makes a resolution fail. In particular a
/// registered single owner without an instance, asked for an instance, gives nothing
/// without failing.
pub proof fn lemma_failure_causes<V, F>(s: ContextView<V, F>, k: (TypeId, Seq<char>), b: Behaviour)
    ensures
        s.failure(k, b) is Some ==> (s.plan(k, b) is AsyncConstructor || s.plan(k, b) is Circular
            || s.plan(k, b) is ConstructBound),
        s.provider_map().contains_key(k) && !s.single_map().contains_key(k)
            && s.provider_map()[k].spec_definition().scope == Scope::SingleOwner
            && b == Behaviour::CreateThenReturnSingletonOrTransient
            ==> s.failure(k, b) is None && s.plan(k, b) is NotSingletonOrTransient,
        !s.provider_map().contains_key(k) ==> s.failure(k, b) is None,
{
}

/// A conditional provider whose condition held is loaded with the eager creation of the
/// module it was set aside from: evaluating it gives the state that loading it with that
/// eager creation gives, so a provider of an eager module that may be created eagerly has
/// its eager create function queued, whether or not the context or the provider asks.
pub proof fn lemma_evaluate_loads_with_module_eager<V, F>(s: ContextView<V, F>, eager: bool, p: DynProvider<F>)
    ensures
        after_evaluate(s, seq![(eager, p)], seq![true]) == s.after_load_provider(eager, p),
        after_evaluate(s, seq![(eager, p)], seq![false]) == s,
        eager && (!s.allow_only_single_eager_create || p.spec_definition().scope != Scope::Transient)
            ==> after_evaluate(s, seq![(eager, p)], seq![true]).eager_create_functions
                == s.eager_create_functions.push((p.spec_definition(), p.spec_provider().spec_eager_create_function())),
{
    let items = seq![(eager, p)];
    assert(items.drop_last() =~= Seq::<(bool, DynProvider<F>)>::empty());
    assert(seq![true].drop_last() =~= Seq::<bool>::empty());
    assert(seq![false].drop_last() =~= Seq::<bool>::empty());
    assert(after_evaluate(s, Seq::<(bool, DynProvider<F>)>::empty(), Seq::<bool>::empty()) == s);
    assert(items.last() == (eager, p));
    assert(seq![true].last());
    assert(!seq![false].last());
    assert(after_evaluate(s, items, seq![true]) == s.after_load_provider(eager, p));
    assert(after_evaluate(s, items, seq![false]) == s);
}

/// Evaluating one more conditional provider after others loads it, when its condition
/// held, with the eager creation of the module it was set aside from, on the state the
/// others left, and otherwise leaves that state as it is.
pub proof fn lemma_evaluate_next<V, F>(
    s: ContextView<V, F>,
    items: Seq<(bool, DynProvider<F>)>,
    results: Seq<bool>,
    eager: bool,
    p: DynProvider<F>,
    held: bool,
)
    requires
        results.len() == items.len(),
    ensures
        after_evaluate(s, items.push((eager, p)), results.push(held)) == if held {
            after_evaluate(s, items, results).after_load_provider(eager, p)
        } else {
            after_evaluate(s, items, results)
        },
{
    assert(items.push((eager, p)).drop_last() =~= items);
    assert(results.push(held).drop_last() =~= results);
    assert(items.push((eager, p)).last() == (eager, p));
    assert(results.push(held).last() == held);
}

/// Binding a definition to a type gives a definition of that type under the same name,
/// whose origin is the type it was bound from, and which keeps its scope, color and
/// condition; so a provider bound from another one has the other's scope.
pub proof fn lemma_bound_definition_keeps(d: Definition, ty: Type)
    ensures
        bound_definition(d, ty).key.ty == ty,
        bound_definition(d, ty).key.name == d.key.name,
        bound_definition(d, ty).origin == Some(d.key.ty),
        bound_definition(d, ty).scope == d.scope,
        bound_definition(d, ty).color == d.color,
        bound_definition(d, ty).conditional == d.conditional,
{
}

/// A provider that a builder binds from its main definition has that definition's scope,
/// color and name, the bound type, and the main type as its origin.
pub proof fn lemma_bound_provider_scope<F: Clone>(
    q: DynProvider<F>,
    main: Definition,
    eager_create: bool,
    condition: Option<F>,
    color: Color,
    ty: Type,
    transform: F,
)
    requires
        is_bound_provider(q, main, eager_create, condition, color, ty, transform),
    ensures
        q.spec_definition().scope == main.scope,
        q.spec_definition().color == main.color,
        q.spec_definition().key.name == main.key.name,
        q.spec_definition().key.ty == ty,
        q.spec_definition().origin == Some(main.key.ty),
{
}

/// An instance already stored under a registered key is left alone by every behaviour but
/// the one that asks for an instance: the resolution cannot fail, builds nothing, returns
/// nothing and leaves the state unchanged.
pub proof fn lemma_stored_instance_left_alone<V: Clone, F: Factory<V> + Clone>(
    s: ContextView<V, F>,
    k: (TypeId, Seq<char>),
    b: Behaviour,
    after: ContextView<V, F>,
    returned: Option<V>,
)
    requires
        s.provider_map().contains_key(k),
        s.single_map().contains_key(k),
        b != Behaviour::CreateThenReturnSingletonOrTransient,
    ensures
        s.plan(k, b) is NoReturnExisting,
        s.failure(k, b) is None,
        !s.builds(k, b),
        s.resolved_to(after, k, b, returned) <==> (after == s && returned is None),
{
}

} // verus!
