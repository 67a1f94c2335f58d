use vstd::prelude::*;

use crate::definition::{bound_definition, Definition, Key};
use crate::context::{constructed, lemma_constructed_concat};
use crate::flatten::{lemma_flat_concat, Nested};
use crate::scope::{Color, Scope};
use crate::ty::Type;

verus! {

/// A type that has a default [`Provider`], such as one registered for automatic
/// registration.
pub trait DefaultProvider<F> {
    /// Returns a default [`Provider`] for the implementation.
    fn provider() -> Provider<F>;
}

/// How a provider builds its instance.
pub enum Constructor<F> {
    /// An async constructor; it cannot be run in a sync context.
    Async(F),
    /// A sync constructor.
    Sync(F),
    /// No constructor: the provider stands for an instance inserted into the context directly.
    Absent,
}

/// The color a constructor gives the definition of its provider.
pub open spec fn constructor_color<F>(c: Constructor<F>) -> Option<Color> {
    match c {
        Constructor::Async(_) => Some(Color::Async),
        Constructor::Sync(_) => Some(Color::Sync),
        Constructor::Absent => None,
    }
}

/// Represents the eager create function: how a context that creates the provider's instance
/// eagerly has to run it.
#[derive(Clone, Copy, Debug, PartialEq, Eq, Structural)]
pub enum EagerCreateFunction {
    /// The instance is created by an async constructor.
    Async,
    /// The instance is created by a sync constructor.
    Sync,
    /// There is nothing to create.
    Absent,
}

/// The eager create function that goes with a constructor.
pub open spec fn eager_function_of<F>(c: Constructor<F>) -> EagerCreateFunction {
    match c {
        Constructor::Async(_) => EagerCreateFunction::Async,
        Constructor::Sync(_) => EagerCreateFunction::Sync,
        Constructor::Absent => EagerCreateFunction::Absent,
    }
}

/// Represents the provider of an instance: its definition, how it is constructed, whether
/// it is created eagerly, its optional condition, and the providers bound to it.
pub struct Provider<F> {
    definition: Definition,
    eager_create: bool,
    condition: Option<F>,
    constructor: Constructor<F>,
    eager_create_function: EagerCreateFunction,
    binding_providers: Option<Vec<DynProvider<F>>>,
    binding_definitions: Option<Vec<Definition>>,
}

impl<F> Provider<F> {
    /// The eager create function and the definition's color always go with the constructor.
    #[verifier::type_invariant]
    closed spec fn inv(&self) -> bool {
        &&& self.eager_create_function == eager_function_of(self.constructor)
        &&& self.definition.color == constructor_color(self.constructor)
    }

    /// The definition of the provider.
    pub closed spec fn spec_definition(&self) -> Definition {
        self.definition
    }

    /// Whether the provider is eagerly created.
    pub closed spec fn spec_eager_create(&self) -> bool {
        self.eager_create
    }

    /// The condition of the provider.
    pub closed spec fn spec_condition(&self) -> Option<F> {
        self.condition
    }

    /// The constructor of the provider.
    pub closed spec fn spec_constructor(&self) -> Constructor<F> {
        self.constructor
    }

    /// The eager create function of the provider.
    pub closed spec fn spec_eager_create_function(&self) -> EagerCreateFunction {
        self.eager_create_function
    }

    /// The providers bound to this one that have not been taken out yet.
    pub closed spec fn spec_binding_providers(&self) -> Option<Seq<DynProvider<F>>> {
        match self.binding_providers {
            Some(v) => Some(v@),
            None => None,
        }
    }

    /// The definitions of the providers bound to this one.
    pub closed spec fn spec_binding_definitions(&self) -> Option<Seq<Definition>> {
        match self.binding_definitions {
            Some(v) => Some(v@),
            None => None,
        }
    }

    /// The provider with its bound providers taken out.
    pub closed spec fn without_bindings(&self) -> Provider<F> {
        Provider { binding_providers: None, ..*self }
    }

    /// Returns the [`Definition`] of the provider.
    pub fn definition(&self) -> (d: &Definition)
        ensures
            *d == self.spec_definition(),
    {
        &self.definition
    }

    /// Returns whether the provider is eagerly created.
    pub fn eager_create(&self) -> (b: bool)
        ensures
            b == self.spec_eager_create(),
    {
        self.eager_create
    }

    /// Returns definitions of the binding providers.
    pub fn binding_definitions(&self) -> (r: Option<&Vec<Definition>>)
        ensures
            r is Some <==> self.spec_binding_definitions() is Some,
            r matches Some(v) ==> Some(v@) == self.spec_binding_definitions(),
    {
        self.binding_definitions.as_ref()
    }

    /// Returns the condition of the provider, if it has one.
    pub fn condition(&self) -> (r: Option<&F>)
        ensures
            r is Some <==> self.spec_condition() is Some,
            r matches Some(c) ==> self.spec_condition() == Some(*c),
    {
        self.condition.as_ref()
    }

    /// Returns the constructor of the provider.
    pub fn constructor(&self) -> (r: &Constructor<F>)
        ensures
            *r == self.spec_constructor(),
    {
        &self.constructor
    }

    /// Returns the eager create function of the provider, which goes with its constructor.
    pub fn eager_create_function(&self) -> (r: EagerCreateFunction)
        ensures
            r == self.spec_eager_create_function(),
            r == eager_function_of(self.spec_constructor()),
            self.spec_definition().color == constructor_color(self.spec_constructor()),
    {
        proof {
            use_type_invariant(self);
        }
        self.eager_create_function
    }

    /// A provider of type `ty` under `name`, built by `constructor`; its definition's color
    /// is that of the constructor, its eager create function is the one of the
    /// constructor's color, and it is conditional when it has a condition.
    pub(crate) fn with_name(
        ty: Type,
        name: String,
        scope: Scope,
        eager_create: bool,
        condition: Option<F>,
        constructor: Constructor<F>,
    ) -> (p: Self)
        requires
            !(constructor is Absent),
        ensures
            p.spec_definition() == (Definition {
                key: Key { name, ty },
                origin: None,
                scope,
                color: constructor_color(constructor),
                conditional: condition is Some,
            }),
            p.spec_eager_create() == eager_create,
            p.spec_condition() == condition,
            p.spec_constructor() == constructor,
            p.spec_eager_create_function() == eager_function_of(constructor),
            p.spec_binding_providers() is None,
            p.spec_binding_definitions() is None,
    {
        let (color, eager_create_function) = match &constructor {
            Constructor::Async(_) => (Color::Async, EagerCreateFunction::Async),
            Constructor::Sync(_) => (Color::Sync, EagerCreateFunction::Sync),
            Constructor::Absent => (Color::Sync, EagerCreateFunction::Sync),
        };
        let conditional = condition.is_some();
        Provider {
            definition: Definition { key: Key { name, ty }, origin: None, scope, color: Some(color), conditional },
            eager_create,
            condition,
            constructor,
            eager_create_function,
            binding_providers: None,
            binding_definitions: None,
        }
    }

    /// A provider with the given definition and parts, and no bound providers.
    pub(crate) fn with_definition(
        definition: Definition,
        eager_create: bool,
        condition: Option<F>,
        constructor: Constructor<F>,
        eager_create_function: EagerCreateFunction,
    ) -> (p: Self)
        requires
            definition.color == constructor_color(constructor),
            eager_create_function == eager_function_of(constructor),
        ensures
            p.spec_definition() == definition,
            p.spec_eager_create() == eager_create,
            p.spec_condition() == condition,
            p.spec_constructor() == constructor,
            p.spec_eager_create_function() == eager_create_function,
            p.spec_binding_providers() is None,
            p.spec_binding_definitions() is None,
    {
        Provider {
            definition,
            eager_create,
            condition,
            constructor,
            eager_create_function,
            binding_providers: None,
            binding_definitions: None,
        }
    }

    /// The provider of an instance of type `ty` under `name` that is inserted into a context
    /// directly: it has no constructor, no condition and is never eagerly created.
    pub(crate) fn never_construct(ty: Type, name: &str, scope: Scope) -> (p: Self)
        ensures
            p.spec_definition().key.ty == ty,
            p.spec_definition().key.name@ == name@,
            p.spec_definition().origin is None,
            p.spec_definition().scope == scope,
            p.spec_definition().color is None,
            !p.spec_definition().conditional,
            !p.spec_eager_create(),
            p.spec_condition() is None,
            p.spec_constructor() is Absent,
            p.spec_eager_create_function() == EagerCreateFunction::Absent,
            p.spec_binding_providers() is None,
            p.spec_binding_definitions() is None,
    {
        Provider {
            definition: Definition::new(ty, name, scope, None, false),
            eager_create: false,
            condition: None,
            constructor: Constructor::Absent,
            eager_create_function: EagerCreateFunction::Absent,
            binding_providers: None,
            binding_definitions: None,
        }
    }

    /// Takes out the providers bound to this one.
    pub fn take_binding_providers(&mut self) -> (r: Option<Vec<DynProvider<F>>>)
        ensures
            *final(self) == old(self).without_bindings(),
            r is Some <==> old(self).spec_binding_providers() is Some,
            r matches Some(v) ==> Some(v@) == old(self).spec_binding_providers(),
    {
        proof {
            use_type_invariant(&*self);
        }
        let mut taken = None;
        std::mem::swap(&mut taken, &mut self.binding_providers);
        taken
    }
}

/// Represents a [`Provider`] whose type is only known at run time.
pub struct DynProvider<F> {
    origin: Provider<F>,
}

impl<F> DynProvider<F> {
    /// The provider this value was made from.
    pub closed spec fn spec_provider(&self) -> Provider<F> {
        self.origin
    }

    /// The provider's definition.
    pub open spec fn spec_definition(&self) -> Definition {
        self.spec_provider().spec_definition()
    }

    /// Whether every provider of `providers`, and every provider bound to one of them, has
    /// a constructor.
    pub fn all_constructed(providers: &Vec<DynProvider<F>>) -> (b: bool)
        ensures
            b == constructed(DynProvider::<F>::flat(providers@)),
        decreases providers@,
    {
        let ghost ps = providers@;
        let mut i: usize = 0;
        assert(ps.take(0) =~= Seq::<DynProvider<F>>::empty());
        proof {
            DynProvider::<F>::lemma_flat_step(ps.take(0));
        }
        while i < providers.len()
            invariant
                i <= ps.len(),
                ps == providers@,
                constructed(DynProvider::<F>::flat(ps.take(i as int))),
            decreases ps.len() - i,
        {
            let p = &providers[i];
            let here = match p.origin.constructor {
                Constructor::Absent => false,
                _ => true,
            };
            let below = match &p.origin.binding_providers {
                Some(v) => {
                    proof {
                        assert(decreases_to!(ps => ps[i as int]));
                        assert(decreases_to!(ps[i as int] => ps[i as int].origin));
                        assert(decreases_to!(ps[i as int].origin => ps[i as int].origin.binding_providers));
                        assert(decreases_to!(ps[i as int].origin.binding_providers => *v));
                        assert(decreases_to!(*v => v@));
                    }
                    DynProvider::all_constructed(v)
                },
                None => true,
            };
            let ghost one = seq![ps[i as int]];
            proof {
                DynProvider::<F>::lemma_flat_step(one);
                DynProvider::<F>::lemma_flat_step(one.drop_first());
                assert(one.drop_first() =~= Seq::<DynProvider<F>>::empty());
                let head = seq![ps[i as int].stripped()];
                assert(head[0].spec_provider().spec_constructor() == ps[i as int].spec_provider().spec_constructor());
                assert(DynProvider::<F>::flat(one) =~= head + DynProvider::<F>::flat(ps[i as int].children()));
                lemma_constructed_concat(head, DynProvider::<F>::flat(ps[i as int].children()));
                assert(constructed(head) == here);
                assert(ps.take(i + 1) =~= ps.take(i as int) + one);
                lemma_flat_concat(ps.take(i as int), one);
                lemma_constructed_concat(DynProvider::<F>::flat(ps.take(i as int)), DynProvider::<F>::flat(one));
                assert(ps =~= ps.take(i + 1) + ps.skip(i + 1));
                lemma_flat_concat(ps.take(i + 1), ps.skip(i + 1));
                lemma_constructed_concat(DynProvider::<F>::flat(ps.take(i + 1)), DynProvider::<F>::flat(ps.skip(i + 1)));
            }
            if !(here && below) {
                return false;
            }
            i = i + 1;
        }
        assert(ps.take(i as int) =~= ps);
        true
    }

    /// Erases the type of `provider`.
    pub fn new(provider: Provider<F>) -> (d: Self)
        ensures
            d.spec_provider() == provider,
    {
        DynProvider { origin: provider }
    }

    /// Returns the [`Definition`] of the provider.
    pub fn definition(&self) -> (d: &Definition)
        ensures
            *d == self.spec_definition(),
    {
        self.origin.definition()
    }

    /// Returns whether the provider is eagerly created.
    pub fn eager_create(&self) -> (b: bool)
        ensures
            b == self.spec_provider().spec_eager_create(),
    {
        self.origin.eager_create()
    }

    /// Returns definitions of the binding providers.
    pub fn binding_definitions(&self) -> (r: Option<&Vec<Definition>>)
        ensures
            r is Some <==> self.spec_provider().spec_binding_definitions() is Some,
            r matches Some(v) ==> Some(v@) == self.spec_provider().spec_binding_definitions(),
    {
        self.origin.binding_definitions()
    }

    /// Returns a reference of the origin [`Provider`] when its type is `ty`.
    pub fn as_provider(&self, ty: &Type) -> (r: Option<&Provider<F>>)
        ensures
            r is Some <==> self.spec_definition().key.ty.id == ty.id,
            r matches Some(p) ==> *p == self.spec_provider(),
    {
        if self.origin.definition.key.ty.same(ty) {
            Some(&self.origin)
        } else {
            None
        }
    }

    /// Returns the condition of the provider, if it has one.
    pub fn condition(&self) -> (r: Option<&F>)
        ensures
            r is Some <==> self.spec_provider().spec_condition() is Some,
            r matches Some(c) ==> self.spec_provider().spec_condition() == Some(*c),
    {
        self.origin.condition()
    }

    /// Returns the eager create function of the provider, which goes with its constructor.
    pub fn eager_create_function(&self) -> (r: EagerCreateFunction)
        ensures
            r == self.spec_provider().spec_eager_create_function(),
            r == eager_function_of(self.spec_provider().spec_constructor()),
    {
        self.origin.eager_create_function()
    }

    /// Takes out the providers bound to this one.
    pub fn binding_providers(&mut self) -> (r: Option<Vec<DynProvider<F>>>)
        ensures
            *final(self) == old(self).stripped(),
            final(self).spec_definition() == old(self).spec_definition(),
            r is Some <==> old(self).spec_provider().spec_binding_providers() is Some,
            r matches Some(v) ==> v@ == old(self).children(),
    {
        self.origin.take_binding_providers()
    }

    /// Stripping keeps everything but the bound providers.
    pub proof fn lemma_stripped(&self)
        ensures
            self.stripped().spec_definition() == self.spec_definition(),
            self.stripped().spec_provider().spec_eager_create() == self.spec_provider().spec_eager_create(),
            self.stripped().spec_provider().spec_condition() == self.spec_provider().spec_condition(),
            self.stripped().spec_provider().spec_constructor() == self.spec_provider().spec_constructor(),
            self.stripped().spec_provider().spec_eager_create_function() == self.spec_provider().spec_eager_create_function(),
            self.stripped().spec_provider().spec_binding_definitions() == self.spec_provider().spec_binding_definitions(),
            self.stripped().children() == Seq::<DynProvider<F>>::empty(),
    {
    }
}

impl<F> Nested for DynProvider<F> {
    /// The providers bound to this one that have not been taken out yet.
    closed spec fn children(&self) -> Seq<DynProvider<F>> {
        match self.origin.binding_providers {
            Some(v) => v@,
            None => Seq::empty(),
        }
    }

    /// This provider with its bound providers taken out.
    closed spec fn stripped(&self) -> DynProvider<F> {
        DynProvider { origin: self.origin.without_bindings() }
    }

    closed spec fn flat(s: Seq<DynProvider<F>>) -> Seq<DynProvider<F>>
        decreases s,
    {
        if s.len() == 0 {
            Seq::empty()
        } else {
            let p = s[0];
            match p.origin.binding_providers {
                Some(v) => {
                    proof {
                        assert(decreases_to!(s => s[0]));
                        assert(decreases_to!(s[0] => s[0].origin));
                        assert(decreases_to!(s[0].origin => s[0].origin.binding_providers));
                        assert(decreases_to!(s[0].origin.binding_providers => v));
                        assert(decreases_to!(v => v@));
                    }
                    seq![DynProvider { origin: p.origin.without_bindings() }] + Self::flat(v@) + Self::flat(s.drop_first())
                },
                None => seq![DynProvider { origin: p.origin.without_bindings() }] + Self::flat(s.drop_first()),
            }
        }
    }

    proof fn lemma_flat_step(s: Seq<DynProvider<F>>) {
        if s.len() > 0 && s[0].origin.binding_providers is None {
            assert(Self::flat(Seq::<DynProvider<F>>::empty()) == Seq::<DynProvider<F>>::empty());
            assert(seq![s[0].stripped()] + Self::flat(s[0].children()) =~= seq![s[0].stripped()]);
        }
    }

    proof fn lemma_stripped_childless(&self) {
    }

    fn take_children(&mut self) -> (r: Option<Vec<DynProvider<F>>>) {
        self.origin.take_binding_providers()
    }
}

impl<F> From<Provider<F>> for DynProvider<F> {
    fn from(provider: Provider<F>) -> (d: Self) {
        DynProvider { origin: provider }
    }
}

impl<F> vstd::std_specs::convert::FromSpecImpl<Provider<F>> for DynProvider<F> {
    open spec fn obeys_from_spec() -> bool {
        true
    }

    closed spec fn from_spec(provider: Provider<F>) -> Self {
        DynProvider { origin: provider }
    }
}

} // verus!

verus! {

/// Collects the parts of a provider of one scope and color: its type, constructor, name,
/// eager creation, condition, and the providers to bind to it.
pub struct ProviderBuilder<F> {
    ty: Type,
    scope: Scope,
    constructor: Constructor<F>,
    name: String,
    eager_create: bool,
    condition: Option<F>,
    bindings: Vec<(Type, F)>,
}

/// The constructor of the given color.
pub open spec fn colored<F>(color: Color, f: F) -> Constructor<F> {
    match color {
        Color::Async => Constructor::Async(f),
        Color::Sync => Constructor::Sync(f),
    }
}

/// The eager create function of the given color.
pub open spec fn eager_function_colored(color: Color) -> EagerCreateFunction {
    match color {
        Color::Async => EagerCreateFunction::Async,
        Color::Sync => EagerCreateFunction::Sync,
    }
}

/// Whether `p` is the provider bound from a provider defined by `main` with eager creation
/// `eager_create` and condition `condition`, of type `ty` and built by `transform`
/// of the given color.
pub open spec fn is_bound_provider<F: Clone>(
    p: DynProvider<F>,
    main: Definition,
    eager_create: bool,
    condition: Option<F>,
    color: Color,
    ty: Type,
    transform: F,
) -> bool {
    &&& p.spec_definition() == bound_definition(main, ty)
    &&& p.spec_provider().spec_eager_create() == eager_create
    &&& (p.spec_provider().spec_condition() is Some <==> condition is Some)
    &&& (p.spec_provider().spec_condition() matches Some(c) ==> condition matches Some(c0) && cloned(c0, c))
    &&& p.spec_provider().spec_constructor() == colored(color, transform)
    &&& p.spec_provider().spec_eager_create_function() == eager_function_colored(color)
    &&& p.spec_provider().spec_binding_providers() is None
    &&& p.spec_provider().spec_binding_definitions() is None
}

fn builder<F>(ty: Type, scope: Scope, color: Color, constructor: F) -> (b: ProviderBuilder<F>)
    ensures
        b.spec_ty() == ty,
        b.spec_scope() == scope,
        b.spec_color() == color,
        b.spec_constructor() == constructor,
        b.spec_name() == Seq::<char>::empty(),
        !b.spec_eager_create(),
        b.spec_condition() is None,
        b.spec_bindings() == Seq::<(Type, F)>::empty(),
{
    let constructor = match color {
        Color::Async => Constructor::Async(constructor),
        Color::Sync => Constructor::Sync(constructor),
    };
    ProviderBuilder {
        ty,
        scope,
        constructor,
        name: String::new(),
        eager_create: false,
        condition: None,
        bindings: Vec::new(),
    }
}

/// Creates a builder of a [`Singleton`](Scope::Singleton) provider of type `ty` with a sync constructor.
pub fn singleton<F>(ty: Type, constructor: F) -> (b: ProviderBuilder<F>)
    ensures
        b.spec_ty() == ty,
        b.spec_scope() == Scope::Singleton,
        b.spec_color() == Color::Sync,
        b.spec_constructor() == constructor,
        b.spec_name() == Seq::<char>::empty(),
        !b.spec_eager_create(),
        b.spec_condition() is None,
        b.spec_bindings() == Seq::<(Type, F)>::empty(),
{
    builder(ty, Scope::Singleton, Color::Sync, constructor)
}

/// Creates a builder of a [`Transient`](Scope::Transient) provider of type `ty` with a sync constructor.
pub fn transient<F>(ty: Type, constructor: F) -> (b: ProviderBuilder<F>)
    ensures
        b.spec_ty() == ty,
        b.spec_scope() == Scope::Transient,
        b.spec_color() == Color::Sync,
        b.spec_constructor() == constructor,
        b.spec_name() == Seq::<char>::empty(),
        !b.spec_eager_create(),
        b.spec_condition() is None,
        b.spec_bindings() == Seq::<(Type, F)>::empty(),
{
    builder(ty, Scope::Transient, Color::Sync, constructor)
}

/// Creates a builder of a [`SingleOwner`](Scope::SingleOwner) provider of type `ty` with a sync constructor.
pub fn single_owner<F>(ty: Type, constructor: F) -> (b: ProviderBuilder<F>)
    ensures
        b.spec_ty() == ty,
        b.spec_scope() == Scope::SingleOwner,
        b.spec_color() == Color::Sync,
        b.spec_constructor() == constructor,
        b.spec_name() == Seq::<char>::empty(),
        !b.spec_eager_create(),
        b.spec_condition() is None,
        b.spec_bindings() == Seq::<(Type, F)>::empty(),
{
    builder(ty, Scope::SingleOwner, Color::Sync, constructor)
}

/// Creates a builder of a [`Singleton`](Scope::Singleton) provider of type `ty` with an async constructor.
pub fn singleton_async<F>(ty: Type, constructor: F) -> (b: ProviderBuilder<F>)
    ensures
        b.spec_ty() == ty,
        b.spec_scope() == Scope::Singleton,
        b.spec_color() == Color::Async,
        b.spec_constructor() == constructor,
        b.spec_name() == Seq::<char>::empty(),
        !b.spec_eager_create(),
        b.spec_condition() is None,
        b.spec_bindings() == Seq::<(Type, F)>::empty(),
{
    builder(ty, Scope::Singleton, Color::Async, constructor)
}

/// Creates a builder of a [`Transient`](Scope::Transient) provider of type `ty` with an async constructor.
pub fn transient_async<F>(ty: Type, constructor: F) -> (b: ProviderBuilder<F>)
    ensures
        b.spec_ty() == ty,
        b.spec_scope() == Scope::Transient,
        b.spec_color() == Color::Async,
        b.spec_constructor() == constructor,
        b.spec_name() == Seq::<char>::empty(),
        !b.spec_eager_create(),
        b.spec_condition() is None,
        b.spec_bindings() == Seq::<(Type, F)>::empty(),
{
    builder(ty, Scope::Transient, Color::Async, constructor)
}

/// Creates a builder of a [`SingleOwner`](Scope::SingleOwner) provider of type `ty` with an async constructor.
pub fn single_owner_async<F>(ty: Type, constructor: F) -> (b: ProviderBuilder<F>)
    ensures
        b.spec_ty() == ty,
        b.spec_scope() == Scope::SingleOwner,
        b.spec_color() == Color::Async,
        b.spec_constructor() == constructor,
        b.spec_name() == Seq::<char>::empty(),
        !b.spec_eager_create(),
        b.spec_condition() is None,
        b.spec_bindings() == Seq::<(Type, F)>::empty(),
{
    builder(ty, Scope::SingleOwner, Color::Async, constructor)
}

impl<F> ProviderBuilder<F> {
    /// The type of the provider.
    pub closed spec fn spec_ty(&self) -> Type {
        self.ty
    }

    /// The scope of the provider.
    pub closed spec fn spec_scope(&self) -> Scope {
        self.scope
    }

    /// The color of the constructor.
    pub closed spec fn spec_color(&self) -> Color {
        match self.constructor {
            Constructor::Async(_) => Color::Async,
            _ => Color::Sync,
        }
    }

    /// The constructor's function.
    pub closed spec fn spec_constructor(&self) -> F {
        match self.constructor {
            Constructor::Async(f) => f,
            Constructor::Sync(f) => f,
            Constructor::Absent => arbitrary(),
        }
    }

    /// The name of the provider.
    pub closed spec fn spec_name(&self) -> Seq<char> {
        self.name@
    }

    /// Whether the provider is eagerly created.
    pub closed spec fn spec_eager_create(&self) -> bool {
        self.eager_create
    }

    /// The condition of the provider.
    pub closed spec fn spec_condition(&self) -> Option<F> {
        self.condition
    }

    /// The types and transforms of the providers to bind, in the order they were added.
    pub closed spec fn spec_bindings(&self) -> Seq<(Type, F)> {
        self.bindings@
    }

    /// The builder's constructor is sync or async, never absent.
    #[verifier::type_invariant]
    closed spec fn wf(&self) -> bool {
        !(self.constructor is Absent)
    }

    /// The definition the provider gets.
    pub open spec fn spec_main_definition(&self) -> Definition {
        Definition {
            key: crate::definition::Key { name: self.spec_name_string(), ty: self.spec_ty() },
            origin: None,
            scope: self.spec_scope(),
            color: Some(self.spec_color()),
            conditional: self.spec_condition() is Some,
        }
    }

    /// The name of the provider, as stored.
    pub closed spec fn spec_name_string(&self) -> String {
        self.name
    }

    /// Sets the name of the provider.
    pub fn name(self, name: &str) -> (b: Self)
        ensures
            b.spec_name() == name@,
            b.spec_ty() == self.spec_ty(),
            b.spec_scope() == self.spec_scope(),
            b.spec_color() == self.spec_color(),
            b.spec_constructor() == self.spec_constructor(),
            b.spec_eager_create() == self.spec_eager_create(),
            b.spec_condition() == self.spec_condition(),
            b.spec_bindings() == self.spec_bindings(),
    {
        proof {
            use_type_invariant(&self);
        }
        ProviderBuilder { name: name.to_owned(), ..self }
    }

    /// Sets whether the provider is eagerly created.
    pub fn eager_create(self, eager_create: bool) -> (b: Self)
        ensures
            b.spec_eager_create() == eager_create,
            b.spec_ty() == self.spec_ty(),
            b.spec_scope() == self.spec_scope(),
            b.spec_color() == self.spec_color(),
            b.spec_constructor() == self.spec_constructor(),
            b.spec_name() == self.spec_name(),
            b.spec_condition() == self.spec_condition(),
            b.spec_bindings() == self.spec_bindings(),
    {
        proof {
            use_type_invariant(&self);
        }
        ProviderBuilder { eager_create, ..self }
    }

    /// Sets whether or not to insert the provider into the context based on the condition.
    pub fn condition(self, condition: Option<F>) -> (b: Self)
        ensures
            b.spec_condition() == condition,
            b.spec_ty() == self.spec_ty(),
            b.spec_scope() == self.spec_scope(),
            b.spec_color() == self.spec_color(),
            b.spec_constructor() == self.spec_constructor(),
            b.spec_name() == self.spec_name(),
            b.spec_eager_create() == self.spec_eager_create(),
            b.spec_bindings() == self.spec_bindings(),
    {
        proof {
            use_type_invariant(&self);
        }
        ProviderBuilder { condition, ..self }
    }

    /// Adds a provider of type `ty`, built by applying `transform` to the instance of this
    /// provider; it is registered together with this provider.
    pub fn bind(self, ty: Type, transform: F) -> (b: Self)
        ensures
            b.spec_bindings() == self.spec_bindings().push((ty, transform)),
            b.spec_ty() == self.spec_ty(),
            b.spec_scope() == self.spec_scope(),
            b.spec_color() == self.spec_color(),
            b.spec_constructor() == self.spec_constructor(),
            b.spec_name() == self.spec_name(),
            b.spec_eager_create() == self.spec_eager_create(),
            b.spec_condition() == self.spec_condition(),
    {
        proof {
            use_type_invariant(&self);
        }
        let ProviderBuilder { ty: own, scope, constructor, name, eager_create, condition, bindings } = self;
        let mut bindings = bindings;
        bindings.push((ty, transform));
        ProviderBuilder { ty: own, scope, constructor, name, eager_create, condition, bindings }
    }
}

impl<F: Clone> ProviderBuilder<F> {
    /// The provider the builder describes. Each binding becomes a provider whose definition
    /// is this one's bound to the binding's type, with this one's eager creation, a copy of
    /// its condition and the binding's transform as its constructor, of this one's color.
    pub fn provider(self) -> (p: Provider<F>)
        ensures
            p.spec_definition() == self.spec_main_definition(),
            p.spec_eager_create() == self.spec_eager_create(),
            p.spec_condition() == self.spec_condition(),
            p.spec_constructor() == colored(self.spec_color(), self.spec_constructor()),
            p.spec_eager_create_function() == eager_function_colored(self.spec_color()),
            self.spec_bindings().len() == 0 ==> p.spec_binding_providers() is None
                && p.spec_binding_definitions() is None,
            self.spec_bindings().len() > 0 ==> {
                &&& p.spec_binding_providers() matches Some(ps)
                &&& p.spec_binding_definitions() matches Some(ds)
                &&& ps.len() == self.spec_bindings().len()
                &&& ds.len() == self.spec_bindings().len()
                &&& forall|i: int| 0 <= i < ps.len() ==> #[trigger] ds[i] == ps[i].spec_definition()
                    && is_bound_provider(ps[i], self.spec_main_definition(), self.spec_eager_create(),
                        self.spec_condition(), self.spec_color(), self.spec_bindings()[i].0,
                        self.spec_bindings()[i].1)
            },
    {
        let ghost main = self.spec_main_definition();
        let ghost color = self.spec_color();
        let ghost all = self.spec_bindings();
        proof {
            use_type_invariant(&self);
        }
        let ProviderBuilder { ty, scope, constructor, name, eager_create, condition, bindings } = self;
        let is_async = match &constructor {
            Constructor::Async(_) => true,
            _ => false,
        };
        let mut provider = Provider::with_name(ty, name, scope, eager_create, condition, constructor);
        assert(provider.definition == main);
        if bindings.len() == 0 {
            return provider;
        }
        let mut bindings = bindings;
        let mut definitions: Vec<Definition> = Vec::new();
        let mut providers: Vec<DynProvider<F>> = Vec::new();
        while bindings.len() > 0
            invariant
                provider.definition == main,
                main.color == Some(color),
                provider.eager_create == eager_create,
                provider.condition == condition,
                color == (if is_async { Color::Async } else { Color::Sync }),
                definitions@.len() == providers@.len(),
                providers@.len() + bindings@.len() == all.len(),
                bindings@ == all.subrange(providers@.len() as int, all.len() as int),
                forall|i: int| 0 <= i < providers@.len() ==> #[trigger] definitions@[i] == providers@[i].spec_definition()
                    && is_bound_provider(providers@[i], main, eager_create, condition, color, all[i].0, all[i].1),
            decreases bindings@.len(),
        {
            let (bound_ty, transform) = bindings.remove(0);
            let bound_condition = match &provider.condition {
                Some(c) => Some(c.clone()),
                None => None,
            };
            let (bound_constructor, bound_function) = if is_async {
                (Constructor::Async(transform), EagerCreateFunction::Async)
            } else {
                (Constructor::Sync(transform), EagerCreateFunction::Sync)
            };
            let bound_definition = provider.definition.duplicate().bind(bound_ty);
            let bound = Provider::with_definition(
                bound_definition,
                provider.eager_create,
                bound_condition,
                bound_constructor,
                bound_function,
            );
            definitions.push(bound.definition.duplicate());
            providers.push(DynProvider::new(bound));
            proof {
                assert(all[providers@.len() - 1] == (bound_ty, transform));
            }
        }
        provider.binding_definitions = Some(definitions);
        provider.binding_providers = Some(providers);
        provider
    }

    /// The provider the builder describes, with its type erased.
    pub fn into_dyn(self) -> (d: DynProvider<F>)
        ensures
            d.spec_definition() == self.spec_main_definition(),
    {
        DynProvider::new(self.provider())
    }
}

} // verus!
