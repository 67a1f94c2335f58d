use std::any::Any;
use std::rc::Rc;

use rudi::{Context, DynProvider, Factory, Module, ResolveModule, Type};
use rudi::{singleton, transient, AutoRegisterModule, ContextError, ContextOptions, Scope};

type Val = Rc<dyn Any>;
type Cx = Context<Val, Fx>;

#[derive(Clone)]
enum Fx {
    Make(Rc<dyn Fn(&mut Cx) -> Val>),
    Bind(Rc<dyn Fn(Val) -> Val>),
    When(Rc<dyn Fn(&Cx) -> bool>),
}

impl Factory<Val> for Fx {
    fn construct(&self, mut cx: Cx) -> (Val, Cx) {
        match self {
            Fx::Make(f) => {
                let instance = f(&mut cx);
                (instance, cx)
            }
            _ => panic!("not a constructor"),
        }
    }

    fn transform(&self, instance: Val) -> Val {
        match self {
            Fx::Bind(f) => f(instance),
            _ => panic!("not a transform"),
        }
    }

    fn holds(&self, cx: &Cx) -> bool {
        match self {
            Fx::When(f) => f(cx),
            _ => panic!("not a condition"),
        }
    }
}

fn make(f: impl Fn(&mut Cx) -> Val + 'static) -> Fx {
    Fx::Make(Rc::new(f))
}

#[allow(dead_code)]
fn bind(f: impl Fn(Val) -> Val + 'static) -> Fx {
    Fx::Bind(Rc::new(f))
}

#[allow(dead_code)]
fn when(f: impl Fn(&Cx) -> bool + 'static) -> Fx {
    Fx::When(Rc::new(f))
}

fn ty<T: 'static>() -> Type {
    Type::new::<T>("")
}

fn val<T: 'static>(t: T) -> Val {
    Rc::new(t)
}

#[allow(dead_code)]
fn get<T: Clone + 'static>(v: &Val) -> T {
    v.downcast_ref::<T>().unwrap().clone()
}

#[allow(dead_code)]
fn module<M: Module<Fx> + 'static>() -> ResolveModule<Fx> {
    ResolveModule::new::<M>("")
}

#[allow(dead_code)]
fn parts<M: 'static>(eager_create: bool, providers: Vec<DynProvider<Fx>>) -> ResolveModule<Fx> {
    ResolveModule::from_parts(ty::<M>(), eager_create, None, providers)
}

#[test]
fn allow_override_in_same_module() {
    struct A;

    struct MyModule;
    impl Module<Fx> for MyModule {
        fn providers() -> Vec<DynProvider<Fx>> {
            vec![
                transient(ty::<A>(), make(|_| val(A))).into_dyn(),
                transient(ty::<A>(), make(|_| val(A))).into_dyn(),
            ]
        }
    }

    let cx = Context::create(vec![module::<MyModule>()]).unwrap();
    assert_eq!(cx.provider_registry().len(), 1);
}

#[test]
fn allow_override_in_defferent_module() {
    struct A;

    struct MyModule1;
    impl Module<Fx> for MyModule1 {
        fn providers() -> Vec<DynProvider<Fx>> {
            vec![transient(ty::<A>(), make(|_| val(A))).into_dyn()]
        }
    }

    struct MyModule2;
    impl Module<Fx> for MyModule2 {
        fn providers() -> Vec<DynProvider<Fx>> {
            vec![transient(ty::<A>(), make(|_| val(A))).into_dyn()]
        }
    }

    let cx = Context::create(vec![module::<MyModule1>(), module::<MyModule2>()]).unwrap();
    assert_eq!(cx.provider_registry().len(), 1);
}

#[test]
fn disallow_override_is_refused() {
    struct A;

    struct MyModule;
    impl Module<Fx> for MyModule {
        fn providers() -> Vec<DynProvider<Fx>> {
            vec![
                transient(ty::<A>(), make(|_| val(A))).into_dyn(),
                transient(ty::<A>(), make(|_| val(A))).into_dyn(),
            ]
        }
    }

    let options: ContextOptions<Val, Fx> = Context::options().allow_override(false);
    match options.try_load(vec![module::<MyModule>()]) {
        Err(ContextError::DuplicateProvider(d)) => assert!(d.key.ty.id == std::any::TypeId::of::<A>()),
        _ => panic!("expected a duplicate provider"),
    }

    let options: ContextOptions<Val, Fx> = Context::options()
        .allow_override(false)
        .singleton(ty::<i32>(), val(1i32))
        .singleton(ty::<i32>(), val(2i32));
    assert!(matches!(options.try_load(vec![]), Err(ContextError::DuplicateProvider(_))));

    let r: Result<Cx, ContextError> = Context::options()
        .singleton(ty::<i32>(), val(1i32))
        .singleton(ty::<i32>(), val(2i32))
        .create(vec![]);
    let cx = r.unwrap();
    assert_eq!(get::<i32>(cx.get_single(ty::<i32>())), 2);
}

#[test]
fn auto_register_auto_register() {
    struct A;

    #[allow(dead_code)]
    struct B(i32);

    let providers = vec![
        transient(ty::<A>(), make(|_| val(A))).into_dyn(),
        singleton(ty::<i32>(), make(|_| val(1i32))).into_dyn(),
        transient(ty::<B>(), make(|cx| val(B(get::<i32>(&cx.resolve(ty::<i32>())))))).into_dyn(),
    ];

    let mut cx = Context::auto_register(parts::<AutoRegisterModule>(false, providers)).unwrap();
    assert!(cx.resolve_option(ty::<A>()).is_some());
    assert!(cx.resolve_option(ty::<i32>()).is_some());
    assert!(cx.resolve_option(ty::<B>()).is_some());
}

#[test]
fn context_auto_register_auto_register() {
    struct A;

    #[allow(dead_code)]
    struct B(i32);

    let providers = vec![
        transient(ty::<A>(), make(|_| val(A))).into_dyn(),
        singleton(ty::<i32>(), make(|_| val(1i32))).into_dyn(),
        transient(ty::<B>(), make(|cx| val(B(get::<i32>(&cx.resolve(ty::<i32>())))))).into_dyn(),
    ];

    let mut cx = Context::auto_register(parts::<AutoRegisterModule>(false, providers)).unwrap();
    assert!(cx.resolve_option(ty::<A>()).is_some());
    assert!(cx.resolve_option(ty::<i32>()).is_some());
    assert!(cx.resolve_option(ty::<B>()).is_some());
    let ids: Vec<_> = cx.loaded_modules().iter().map(|t| t.id).collect();
    assert_eq!(ids, vec![std::any::TypeId::of::<AutoRegisterModule>()]);
}

#[test]
fn standalone_variables() {
    let cx: Cx = Context::options()
        .singleton(ty::<i32>(), val(42i32))
        .singleton(ty::<bool>(), val(true))
        .singleton(ty::<&str>(), val("Hello world"))
        .create(vec![])
        .unwrap();

    assert_eq!(cx.single_registry().len(), 3);

    assert_eq!(get::<i32>(cx.get_single(ty::<i32>())), 42);
    assert!(get::<bool>(cx.get_single(ty::<bool>())));
    assert_eq!(get::<&str>(cx.get_single(ty::<&str>())), "Hello world");

    assert_eq!(cx.single_registry().len(), 3);

    cx.provider_registry().iter().for_each(|(_, provider)| {
        assert!(provider.definition().scope == Scope::Singleton);
        assert!(!provider.eager_create());
    });

    let cx: Cx = Context::options()
        .single_owner(ty::<i32>(), val(42i32))
        .single_owner(ty::<bool>(), val(true))
        .single_owner(ty::<&str>(), val("Hello world"))
        .create(vec![])
        .unwrap();

    assert_eq!(cx.single_registry().len(), 3);

    assert_eq!(get::<i32>(cx.get_single(ty::<i32>())), 42);
    assert!(get::<bool>(cx.get_single(ty::<bool>())));
    assert_eq!(get::<&str>(cx.get_single(ty::<&str>())), "Hello world");

    assert_eq!(cx.single_registry().len(), 3);

    cx.provider_registry().iter().for_each(|(_, provider)| {
        assert!(provider.definition().scope == Scope::SingleOwner);
        assert!(!provider.eager_create());
    });
}

#[test]
fn standalone_with_names() {
    let mut cx: Cx = Context::options()
        .singleton_with_name(ty::<i32>(), val(1i32), "one")
        .singleton_with_name(ty::<i32>(), val(2i32), "two")
        .single_owner_with_name(ty::<i32>(), val(3i32), "three")
        .create(vec![])
        .unwrap();
    assert_eq!(get::<i32>(cx.get_single_with_name(ty::<i32>(), "one")), 1);
    assert_eq!(get::<i32>(cx.get_single_with_name(ty::<i32>(), "two")), 2);
    assert_eq!(get::<i32>(cx.get_single_with_name(ty::<i32>(), "three")), 3);
    assert_eq!(get::<i32>(&cx.resolve_with_name(ty::<i32>(), "two")), 2);
    assert!(cx.resolve_option_with_name(ty::<i32>(), "three").is_none());
    assert_eq!(cx.get_singles_by_type(ty::<i32>()).len(), 3);
}

#[test]
fn insert_standalone_into_context() {
    let mut cx: Cx = Context::default();
    assert!(cx.allow_override());
    assert!(cx.allow_only_single_eager_create());
    assert!(!cx.eager_create());
    cx.insert_singleton(ty::<i32>(), val(10i32));
    cx.insert_single_owner_with_name(ty::<i32>(), val(11i32), "owned");
    assert!(cx.contains_provider(ty::<i32>()));
    assert!(cx.contains_provider_with_name(ty::<i32>(), "owned"));
    assert_eq!(get::<i32>(&cx.resolve(ty::<i32>())), 10);
    assert_eq!(get::<i32>(cx.get_single_with_name(ty::<i32>(), "owned")), 11);
    cx.insert_singleton(ty::<i32>(), val(12i32));
    assert_eq!(get::<i32>(&cx.resolve(ty::<i32>())), 12);
    assert_eq!(cx.provider_registry().len(), 2);
    let p = cx.get_provider(ty::<i32>()).unwrap();
    assert!(p.definition().color.is_none());
    assert!(p.condition().is_none());
}

#[test]
fn options_flags() {
    let cx: Cx = Context::options()
        .allow_override(false)
        .allow_only_single_eager_create(false)
        .eager_create(true)
        .create(vec![])
        .unwrap();
    assert!(!cx.allow_override());
    assert!(!cx.allow_only_single_eager_create());
    assert!(cx.eager_create());
    let options: ContextOptions<Val, Fx> = ContextOptions::default();
    let cx = options.create(vec![]).unwrap();
    assert!(cx.allow_override());
    assert!(cx.allow_only_single_eager_create());
    assert!(!cx.eager_create());
}

#[test]
#[should_panic]
fn disallow_override_in_same_module() {
    struct A;

    struct MyModule;
    impl Module<Fx> for MyModule {
        fn providers() -> Vec<DynProvider<Fx>> {
            vec![
                transient(ty::<A>(), make(|_| val(A))).into_dyn(),
                transient(ty::<A>(), make(|_| val(A))).into_dyn(),
            ]
        }
    }

    let cx = Context::options().allow_override(false).create(vec![module::<MyModule>()]).unwrap();
    assert_eq!(cx.provider_registry().len(), 1);
}

#[test]
#[should_panic]
fn disallow_override_in_defferent_module() {
    struct A;

    struct MyModule1;
    impl Module<Fx> for MyModule1 {
        fn providers() -> Vec<DynProvider<Fx>> {
            vec![transient(ty::<A>(), make(|_| val(A))).into_dyn()]
        }
    }

    struct MyModule2;
    impl Module<Fx> for MyModule2 {
        fn providers() -> Vec<DynProvider<Fx>> {
            vec![transient(ty::<A>(), make(|_| val(A))).into_dyn()]
        }
    }

    let cx = Context::options()
        .allow_override(false)
        .create(vec![module::<MyModule1>(), module::<MyModule2>()])
        .unwrap();
    assert_eq!(cx.provider_registry().len(), 1);
}
