use std::any::Any;
use std::rc::Rc;

use rudi::{Context, DynProvider, Factory, Module, ResolveModule, Type};
use std::any::TypeId;
use rudi::{single_owner, singleton, transient, transient_async, ContextError, Key};

type Val = Rc<dyn Any>;
type Cx = Context<Val, Fx>;

#[derive(Clone)]
enum Fx {
    Make(Rc<dyn Fn(&mut Cx) -> Val>),
    Bind(Rc<dyn Fn(Val) -> Val>),
    When(Rc<dyn Fn(&Cx) -> bool>),
}

impl Factory<Val> for Fx {
    fn construct(&self, mut cx: Cx) -> (Val, Cx) {
        match self {
            Fx::Make(f) => {
                let instance = f(&mut cx);
                (instance, cx)
            }
            _ => panic!("not a constructor"),
        }
    }

    fn transform(&self, instance: Val) -> Val {
        match self {
            Fx::Bind(f) => f(instance),
            _ => panic!("not a transform"),
        }
    }

    fn holds(&self, cx: &Cx) -> bool {
        match self {
            Fx::When(f) => f(cx),
            _ => panic!("not a condition"),
        }
    }
}

fn make(f: impl Fn(&mut Cx) -> Val + 'static) -> Fx {
    Fx::Make(Rc::new(f))
}

#[allow(dead_code)]
fn bind(f: impl Fn(Val) -> Val + 'static) -> Fx {
    Fx::Bind(Rc::new(f))
}

#[allow(dead_code)]
fn when(f: impl Fn(&Cx) -> bool + 'static) -> Fx {
    Fx::When(Rc::new(f))
}

fn ty<T: 'static>() -> Type {
    Type::new::<T>("")
}

fn val<T: 'static>(t: T) -> Val {
    Rc::new(t)
}

#[allow(dead_code)]
fn get<T: Clone + 'static>(v: &Val) -> T {
    v.downcast_ref::<T>().unwrap().clone()
}

#[allow(dead_code)]
fn module<M: Module<Fx> + 'static>() -> ResolveModule<Fx> {
    ResolveModule::new::<M>("")
}

#[allow(dead_code)]
fn parts<M: 'static>(eager_create: bool, providers: Vec<DynProvider<Fx>>) -> ResolveModule<Fx> {
    ResolveModule::from_parts(ty::<M>(), eager_create, None, providers)
}

#[derive(Clone, Debug)]
struct ComponentA;

#[derive(Clone)]
struct Component1;

#[derive(Clone)]
struct Component2;

trait Trait1 {
    fn as_any(&self) -> &dyn Any;
}

impl Trait1 for Component1 {
    fn as_any(&self) -> &dyn Any {
        self
    }
}

impl Trait1 for Component2 {
    fn as_any(&self) -> &dyn Any {
        self
    }
}

fn into_trait1<T: Trait1 + Clone + 'static>() -> Fx {
    bind(|v| val(Rc::new(get::<T>(&v)) as Rc<dyn Trait1>))
}

#[test]
fn resolve_singleton() {
    struct MyModule;
    impl Module<Fx> for MyModule {
        fn providers() -> Vec<DynProvider<Fx>> {
            vec![singleton(ty::<Rc<ComponentA>>(), make(|_| val(ComponentA))).into_dyn()]
        }
    }

    let mut cx = Context::create(vec![module::<MyModule>()]).unwrap();

    let a = cx.resolve(ty::<Rc<ComponentA>>());
    let b = cx.resolve(ty::<Rc<ComponentA>>());

    assert!(Rc::ptr_eq(&a, &b));
}

#[test]
fn resolve_singleton_with_dyn_trait1() {
    struct MyModule;
    impl Module<Fx> for MyModule {
        fn providers() -> Vec<DynProvider<Fx>> {
            vec![
                singleton(ty::<Component1>(), make(|_| val(Component1)))
                    .name("1")
                    .bind(ty::<Rc<dyn Trait1>>(), into_trait1::<Component1>())
                    .into_dyn(),
                singleton(ty::<Component2>(), make(|_| val(Component2)))
                    .name("2")
                    .bind(ty::<Rc<dyn Trait1>>(), into_trait1::<Component2>())
                    .into_dyn(),
            ]
        }
    }

    let cx = Context::create(vec![module::<MyModule>()]).unwrap();

    let providers = cx.get_providers_by_type(ty::<Rc<dyn Trait1>>());

    assert!(providers.len() == 2);

    assert!(providers
        .iter()
        .any(|provider| provider.definition().origin.as_ref().unwrap().id == TypeId::of::<Component1>()));

    assert!(providers
        .iter()
        .any(|provider| provider.definition().origin.as_ref().unwrap().id == TypeId::of::<Component2>()));
}

#[test]
fn resolve_singleton_by_name() {
    let a = val(ComponentA);
    let a1 = a.clone();
    let a2 = a.clone();
    let providers = vec![
        singleton(ty::<Rc<ComponentA>>(), make(move |_| a1.clone())).name("A").into_dyn(),
        singleton(ty::<Rc<ComponentA>>(), make(move |_| a2.clone())).name("B").into_dyn(),
    ];

    let mut cx = Context::create(vec![parts::<ComponentA>(false, providers)]).unwrap();

    let a = cx.resolve_with_name(ty::<Rc<ComponentA>>(), "A");
    let b = cx.resolve_with_name(ty::<Rc<ComponentA>>(), "B");

    assert!(Rc::ptr_eq(&a, &b));
}

#[test]
fn resolve_transient_by_name() {
    let a = val(ComponentA);
    let a1 = a.clone();
    let a2 = a.clone();
    let providers = vec![
        transient(ty::<Rc<ComponentA>>(), make(move |_| a1.clone())).name("A").into_dyn(),
        transient(ty::<Rc<ComponentA>>(), make(move |_| a2.clone())).name("B").into_dyn(),
    ];

    let mut cx = Context::create(vec![parts::<ComponentA>(false, providers)]).unwrap();

    let a = cx.resolve_with_name(ty::<Rc<ComponentA>>(), "A");
    let b = cx.resolve_with_name(ty::<Rc<ComponentA>>(), "B");

    assert!(Rc::ptr_eq(&a, &b));
}

#[test]
fn resolve_transient() {
    struct MyModule;
    impl Module<Fx> for MyModule {
        fn providers() -> Vec<DynProvider<Fx>> {
            vec![transient(ty::<Rc<ComponentA>>(), make(|_| val(ComponentA))).into_dyn()]
        }
    }

    let mut cx = Context::create(vec![module::<MyModule>()]).unwrap();

    let a = cx.resolve(ty::<Rc<ComponentA>>());
    let b = cx.resolve(ty::<Rc<ComponentA>>());

    assert!(!Rc::ptr_eq(&a, &b));
}

#[test]
fn resolve_default_and_named() {
    struct MyModule;
    impl Module<Fx> for MyModule {
        fn providers() -> Vec<DynProvider<Fx>> {
            vec![
                singleton(ty::<Component1>(), make(|_| val(Component1)))
                    .bind(ty::<Rc<dyn Trait1>>(), into_trait1::<Component1>())
                    .into_dyn(),
                singleton(ty::<Component2>(), make(|_| val(Component2)))
                    .name("2")
                    .bind(ty::<Rc<dyn Trait1>>(), into_trait1::<Component2>())
                    .into_dyn(),
            ]
        }
    }

    let mut cx = Context::create(vec![module::<MyModule>()]).unwrap();

    let a = get::<Rc<dyn Trait1>>(&cx.resolve(ty::<Rc<dyn Trait1>>()));
    let b = get::<Rc<dyn Trait1>>(&cx.resolve_with_name(ty::<Rc<dyn Trait1>>(), "2"));

    let a_provider = cx.get_provider(ty::<Rc<dyn Trait1>>());
    let b_provider = cx.get_provider_with_name(ty::<Rc<dyn Trait1>>(), "2");

    assert!(a_provider.is_some());
    assert!(a_provider.unwrap().definition().origin.as_ref().unwrap().id == TypeId::of::<Component1>());

    assert!(b_provider.is_some());
    assert!(b_provider.unwrap().definition().origin.as_ref().unwrap().id == TypeId::of::<Component2>());

    assert!(a.as_any().is::<Component1>());
    assert!(b.as_any().is::<Component2>());
}

#[test]
fn resolve_instances_by_type() {
    struct MyModule;
    impl Module<Fx> for MyModule {
        fn providers() -> Vec<DynProvider<Fx>> {
            vec![
                transient(ty::<ComponentA>(), make(|_| val(ComponentA))).name("A").into_dyn(),
                transient(ty::<ComponentA>(), make(|_| val(ComponentA))).name("B").into_dyn(),
            ]
        }
    }

    let mut cx = Context::create(vec![module::<MyModule>()]).unwrap();

    assert!(cx.resolve_by_type(ty::<ComponentA>()).unwrap().len() == 2);
}

#[test]
fn resolve_stored_singleton_leaves_context_unchanged() {
    let mut cx: Cx = Context::options().singleton(ty::<i32>(), val(7i32)).create(vec![]).unwrap();
    let a = cx.resolve(ty::<i32>());
    let b = cx.resolve(ty::<i32>());
    assert!(Rc::ptr_eq(&a, &b));
    assert_eq!(get::<i32>(&a), 7);
    assert_eq!(cx.single_registry().len(), 1);
    assert_eq!(cx.provider_registry().len(), 1);
}

#[test]
fn resolve_option_without_provider_is_none() {
    let mut cx: Cx = Context::create(vec![]).unwrap();
    assert!(cx.resolve_option(ty::<i32>()).is_none());
    assert!(cx.resolve_option_with_name(ty::<i32>(), "x").is_none());
    assert!(cx.single_registry().is_empty());
}

#[test]
fn resolve_bound_without_source_is_no_provider() {
    let providers = vec![
        singleton(ty::<Component1>(), make(|_| val(Component1)))
            .bind(ty::<Rc<dyn Trait1>>(), into_trait1::<Component1>())
            .into_dyn(),
    ];
    let mut cx = Context::create(vec![parts::<Component1>(false, providers)]).unwrap();
    cx.unload_modules(vec![parts::<Component1>(false, vec![
        singleton(ty::<Component1>(), make(|_| val(Component1))).into_dyn(),
    ])]);
    assert!(cx.get_provider(ty::<Component1>()).is_none());
    assert!(cx.get_provider(ty::<Rc<dyn Trait1>>()).is_some());
    match cx.resolve_by_type(ty::<Rc<dyn Trait1>>()) {
        Err(ContextError::NoProvider(key)) => assert!(key.ty.id == TypeId::of::<Component1>()),
        _ => panic!("expected a missing provider"),
    }
    assert!(cx.dependency_chain().is_empty());
}

#[test]
fn resolve_bound_from_single_owner_is_refused() {
    let providers = vec![
        singleton(ty::<Component1>(), make(|_| val(Component1)))
            .bind(ty::<Rc<dyn Trait1>>(), into_trait1::<Component1>())
            .into_dyn(),
        single_owner(ty::<Component1>(), make(|_| val(Component1))).into_dyn(),
    ];
    let mut cx = Context::create(vec![parts::<Component1>(false, providers)]).unwrap();
    match cx.resolve_by_type(ty::<Rc<dyn Trait1>>()) {
        Err(ContextError::NotSingletonOrTransient(d)) => assert!(d.key.ty.id == TypeId::of::<Component1>()),
        _ => panic!("expected a refusal"),
    }
    assert!(cx.single_registry().is_empty());
}

#[test]
fn resolve_async_constructor_in_sync_context_fails() {
    let providers = vec![transient_async(ty::<ComponentA>(), make(|_| val(ComponentA))).into_dyn()];
    let mut cx = Context::create(vec![parts::<ComponentA>(false, providers)]).unwrap();
    match cx.resolve_by_type(ty::<ComponentA>()) {
        Err(ContextError::AsyncConstructor(d)) => assert!(d.key.ty.id == TypeId::of::<ComponentA>()),
        _ => panic!("expected an async constructor error"),
    }
}

#[test]
fn resolve_circular_dependency_fails() {
    let seen: Rc<std::cell::RefCell<Option<bool>>> = Rc::new(std::cell::RefCell::new(None));
    let seen2 = seen.clone();
    let providers = vec![transient(
        ty::<ComponentA>(),
        make(move |cx| {
            let r = cx.resolve_by_type(ty::<ComponentA>());
            *seen2.borrow_mut() = Some(matches!(r, Err(ContextError::CircularDependency(_))));
            val(ComponentA)
        }),
    )
    .into_dyn()];
    let mut cx = Context::create(vec![parts::<ComponentA>(false, providers)]).unwrap();
    assert!(cx.resolve_option(ty::<ComponentA>()).is_some());
    assert_eq!(*seen.borrow(), Some(true));
    assert!(cx.dependency_chain().is_empty());
}

#[test]
fn type_identity() {
    assert!(ty::<ComponentA>().same(&ty::<ComponentA>()));
    assert!(!ty::<ComponentA>().same(&ty::<Component1>()));
    assert!(Key::new(ty::<ComponentA>(), "a").same(&Key::new(ty::<ComponentA>(), "a")));
    assert!(!Key::new(ty::<ComponentA>(), "a").same(&Key::new(ty::<ComponentA>(), "b")));
}

#[test]
fn resolve_failure_reports_refusals() {
    let providers = vec![transient_async(ty::<ComponentA>(), make(|_| val(ComponentA))).into_dyn()];
    let mut cx = Context::create(vec![parts::<ComponentA>(false, providers)]).unwrap();
    let key = rudi::Key::new(ty::<ComponentA>(), "");
    match cx.resolve_failure(&key, rudi::Behaviour::CreateThenReturnSingletonOrTransient) {
        Some(ContextError::AsyncConstructor(d)) => assert!(d.key == key),
        _ => panic!("expected an async constructor error"),
    }
    assert!(cx.dependency_chain().is_empty());

    let missing = rudi::Key::new(ty::<Component1>(), "");
    assert!(cx.resolve_failure(&missing, rudi::Behaviour::CreateThenReturnSingletonOrTransient).is_none());
}
