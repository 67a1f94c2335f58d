use std::any::Any;
use std::rc::Rc;

use rudi::{Context, DynProvider, Factory, Module, ResolveModule, Type};
use std::any::TypeId;
use std::fmt::Debug;
use std::marker::PhantomData;
use rudi::{singleton, transient, transient_async, AutoRegisterModule, DefaultProvider, Definition, Provider};

type Val = Rc<dyn Any>;
type Cx = Context<Val, Fx>;

#[derive(Clone)]
enum Fx {
    Make(Rc<dyn Fn(&mut Cx) -> Val>),
    Bind(Rc<dyn Fn(Val) -> Val>),
    When(Rc<dyn Fn(&Cx) -> bool>),
}

impl Factory<Val> for Fx {
    fn construct(&self, mut cx: Cx) -> (Val, Cx) {
        match self {
            Fx::Make(f) => {
                let instance = f(&mut cx);
                (instance, cx)
            }
            _ => panic!("not a constructor"),
        }
    }

    fn transform(&self, instance: Val) -> Val {
        match self {
            Fx::Bind(f) => f(instance),
            _ => panic!("not a transform"),
        }
    }

    fn holds(&self, cx: &Cx) -> bool {
        match self {
            Fx::When(f) => f(cx),
            _ => panic!("not a condition"),
        }
    }
}

fn make(f: impl Fn(&mut Cx) -> Val + 'static) -> Fx {
    Fx::Make(Rc::new(f))
}

#[allow(dead_code)]
fn bind(f: impl Fn(Val) -> Val + 'static) -> Fx {
    Fx::Bind(Rc::new(f))
}

#[allow(dead_code)]
fn when(f: impl Fn(&Cx) -> bool + 'static) -> Fx {
    Fx::When(Rc::new(f))
}

fn ty<T: 'static>() -> Type {
    Type::new::<T>("")
}

fn val<T: 'static>(t: T) -> Val {
    Rc::new(t)
}

#[allow(dead_code)]
fn get<T: Clone + 'static>(v: &Val) -> T {
    v.downcast_ref::<T>().unwrap().clone()
}

#[allow(dead_code)]
fn module<M: Module<Fx> + 'static>() -> ResolveModule<Fx> {
    ResolveModule::new::<M>("")
}

#[allow(dead_code)]
fn parts<M: 'static>(eager_create: bool, providers: Vec<DynProvider<Fx>>) -> ResolveModule<Fx> {
    ResolveModule::from_parts(ty::<M>(), eager_create, None, providers)
}

#[derive(Clone)]
struct Component1;

trait Trait1 {
    fn as_any(&self) -> &dyn Any;
}

trait Trait2 {}

impl Trait1 for Component1 {
    fn as_any(&self) -> &dyn Any {
        self
    }
}

impl Trait2 for Component1 {}

#[derive(Clone)]
struct Component2;

impl Trait1 for Component2 {
    fn as_any(&self) -> &dyn Any {
        self
    }
}

impl DefaultProvider<Fx> for Component1 {
    fn provider() -> Provider<Fx> {
        singleton(ty::<Component1>(), make(|_| val(Component1)))
            .bind(ty::<Rc<dyn Trait1>>(), bind(|v| val(Rc::new(get::<Component1>(&v)) as Rc<dyn Trait1>)))
            .bind(ty::<Rc<dyn Trait2>>(), bind(|v| val(Rc::new(get::<Component1>(&v)) as Rc<dyn Trait2>)))
            .provider()
    }
}

#[test]
fn field_or_argument_attr_name() {
    #[derive(Clone)]
    struct A(i32);

    #[derive(Clone)]
    struct B(i32);

    struct MyModule;

    impl Module<Fx> for MyModule {
        fn providers() -> Vec<DynProvider<Fx>> {
            vec![
                singleton(ty::<i32>(), make(|_| val(1i32))).into_dyn(),
                singleton(ty::<i32>(), make(|_| val(2i32))).name("Two").into_dyn(),
                singleton(ty::<A>(), make(|cx| val(A(get::<i32>(&cx.resolve(ty::<i32>())))))).into_dyn(),
                singleton(ty::<B>(), make(|cx| val(B(get::<i32>(&cx.resolve_with_name(ty::<i32>(), "Two")))))).into_dyn(),
            ]
        }
    }

    let mut cx = Context::create(vec![module::<MyModule>()]).unwrap();
    assert_eq!(get::<A>(&cx.resolve(ty::<A>())).0, 1);
    assert_eq!(get::<B>(&cx.resolve(ty::<B>())).0, 2);
}

#[test]
fn option() {
    #[derive(Clone)]
    struct A(Option<i32>);

    #[derive(Clone)]
    struct B(Option<i32>);

    struct MyModule;

    impl Module<Fx> for MyModule {
        fn providers() -> Vec<DynProvider<Fx>> {
            vec![
                singleton(ty::<Option<i32>>(), make(|_| val(Some(1i32)))).into_dyn(),
                singleton(ty::<i32>(), make(|_| val(2i32))).into_dyn(),
                singleton(ty::<A>(), make(|cx| val(A(get::<Option<i32>>(&cx.resolve(ty::<Option<i32>>())))))).into_dyn(),
                singleton(ty::<B>(), make(|cx| val(B(cx.resolve_option(ty::<i32>()).map(|v| get::<i32>(&v)))))).into_dyn(),
            ]
        }
    }

    let mut cx = Context::create(vec![module::<MyModule>()]).unwrap();

    assert_eq!(get::<A>(&cx.resolve(ty::<A>())).0.unwrap(), 1);
    assert_eq!(get::<B>(&cx.resolve(ty::<B>())).0.unwrap(), 2);
}

#[test]
fn default() {
    #[derive(Clone)]
    struct A(i32);

    #[derive(Clone)]
    struct B(i32);

    struct MyModule;

    impl Module<Fx> for MyModule {
        fn providers() -> Vec<DynProvider<Fx>> {
            vec![
                singleton(ty::<A>(), make(|cx| val(A(cx.resolve_option(ty::<i32>()).map(|v| get::<i32>(&v)).unwrap_or_default()))))
                    .into_dyn(),
                singleton(ty::<B>(), make(|cx| val(B(cx.resolve_option(ty::<i32>()).map(|v| get::<i32>(&v)).unwrap_or(42)))))
                    .into_dyn(),
            ]
        }
    }

    let mut cx = Context::create(vec![module::<MyModule>()]).unwrap();

    assert_eq!(get::<A>(&cx.resolve(ty::<A>())).0, 0);
    assert_eq!(get::<B>(&cx.resolve(ty::<B>())).0, 42);
}

#[test]
fn vector() {
    #[derive(Clone)]
    struct A(Vec<i32>);

    #[derive(Clone)]
    struct B(Vec<i32>);

    struct MyModule;

    impl Module<Fx> for MyModule {
        fn providers() -> Vec<DynProvider<Fx>> {
            vec![
                singleton(ty::<Vec<i32>>(), make(|_| val(vec![1i32]))).into_dyn(),
                singleton(ty::<i32>(), make(|_| val(2i32))).into_dyn(),
                singleton(ty::<A>(), make(|cx| val(A(get::<Vec<i32>>(&cx.resolve(ty::<Vec<i32>>())))))).into_dyn(),
                singleton(
                    ty::<B>(),
                    make(|cx| val(B(cx.resolve_by_type(ty::<i32>()).unwrap().iter().map(|v| get::<i32>(v)).collect()))),
                )
                .into_dyn(),
            ]
        }
    }

    let mut cx = Context::create(vec![module::<MyModule>()]).unwrap();

    assert_eq!(get::<A>(&cx.resolve(ty::<A>())).0[0], 1);
    assert_eq!(get::<B>(&cx.resolve(ty::<B>())).0[0], 2);
}

#[test]
fn field_or_argument_attr() {
    #[derive(Clone)]
    struct A(i8);
    #[derive(Clone)]
    struct B(i8);
    #[derive(Clone)]
    struct C(Option<i16>);
    #[derive(Clone)]
    struct D(Option<i16>);
    #[derive(Clone)]
    struct E(i32);
    #[derive(Clone)]
    struct F(i32);
    #[derive(Clone)]
    struct G(Vec<i64>);
    #[derive(Clone)]
    struct H(Vec<i64>);

    let providers = vec![
        singleton(ty::<i8>(), make(|_| val(1i8))).into_dyn(),
        singleton(ty::<i8>(), make(|_| val(2i8))).name("2").into_dyn(),
        transient(ty::<A>(), make(|cx| val(A(get::<i8>(&cx.resolve(ty::<i8>())))))).into_dyn(),
        transient(ty::<B>(), make(|cx| val(B(get::<i8>(&cx.resolve_with_name(ty::<i8>(), "2")))))).into_dyn(),
        singleton(ty::<Option<i16>>(), make(|_| val(Some(3i16)))).into_dyn(),
        singleton(ty::<i16>(), make(|_| val(4i16))).into_dyn(),
        transient(ty::<C>(), make(|cx| val(C(get::<Option<i16>>(&cx.resolve(ty::<Option<i16>>())))))).into_dyn(),
        transient(ty::<D>(), make(|cx| val(D(cx.resolve_option(ty::<i16>()).map(|v| get::<i16>(&v)))))).into_dyn(),
        transient(ty::<E>(), make(|cx| val(E(cx.resolve_option(ty::<i32>()).map(|v| get::<i32>(&v)).unwrap_or_default()))))
            .into_dyn(),
        transient(ty::<F>(), make(|cx| val(F(cx.resolve_option(ty::<i32>()).map(|v| get::<i32>(&v)).unwrap_or(42)))))
            .into_dyn(),
        singleton(ty::<Vec<i64>>(), make(|_| val(vec![5i64]))).into_dyn(),
        singleton(ty::<i64>(), make(|_| val(6i64))).eager_create(true).into_dyn(),
        transient(ty::<G>(), make(|cx| val(G(get::<Vec<i64>>(&cx.resolve(ty::<Vec<i64>>())))))).into_dyn(),
        transient(
            ty::<H>(),
            make(|cx| val(H(cx.resolve_by_type(ty::<i64>()).unwrap().iter().map(|v| get::<i64>(v)).collect()))),
        )
        .into_dyn(),
        singleton(
            ty::<()>(),
            make(|cx| {
                let a = get::<A>(&cx.resolve(ty::<A>()));
                let b = get::<B>(&cx.resolve(ty::<B>()));
                let c = get::<C>(&cx.resolve(ty::<C>()));
                let d = get::<D>(&cx.resolve(ty::<D>()));
                let e = get::<E>(&cx.resolve(ty::<E>()));
                let f = get::<F>(&cx.resolve(ty::<F>()));
                let g = get::<G>(&cx.resolve(ty::<G>()));
                let h = get::<H>(&cx.resolve(ty::<H>()));

                assert_eq!(a.0, 1);
                assert_eq!(b.0, 2);

                assert_eq!(c.0.unwrap(), 3);
                assert_eq!(d.0.unwrap(), 4);

                assert_eq!(e.0, 0);
                assert_eq!(f.0, 42);

                assert_eq!(g.0[0], 5);
                assert_eq!(h.0[0], 6);
                val(())
            }),
        )
        .into_dyn(),
        singleton(
            ty::<()>(),
            make(|cx| {
                cx.just_create_single(ty::<i8>());
                cx.just_create_single_with_name(ty::<i8>(), "2");
                cx.just_create_single(ty::<Option<i16>>());
                cx.try_just_create_single(ty::<i16>());
                cx.try_just_create_single(ty::<i32>());
                cx.just_create_single(ty::<Vec<i64>>());
                cx.try_just_create_singles_by_type(ty::<i64>()).unwrap();

                let one = cx.get_single(ty::<i8>()).downcast_ref::<i8>().unwrap();
                let two = cx.get_single_with_name(ty::<i8>(), "2").downcast_ref::<i8>().unwrap();
                let three = cx.get_single(ty::<Option<i16>>()).downcast_ref::<Option<i16>>().unwrap();
                let four = cx.get_single_option(ty::<i16>()).map(|v| v.downcast_ref::<i16>().unwrap());
                let zero = cx.get_single_option(ty::<i32>()).map(|v| v.downcast_ref::<i32>().unwrap()).unwrap_or(&0);
                let forty_two = cx.get_single_option(ty::<i32>()).map(|v| v.downcast_ref::<i32>().unwrap()).unwrap_or(&42);
                let five = cx.get_single(ty::<Vec<i64>>()).downcast_ref::<Vec<i64>>().unwrap();
                let six: Vec<&i64> =
                    cx.get_singles_by_type(ty::<i64>()).iter().map(|v| v.downcast_ref::<i64>().unwrap()).collect();

                assert_eq!(one, &1);
                assert_eq!(two, &2);

                assert_eq!(three, &Some(3));
                assert_eq!(four, Some(&4));

                assert_eq!(zero, &0);
                assert_eq!(forty_two, &42);

                assert_eq!(five, &vec![5]);
                assert_eq!(six, vec![&6]);
                val(())
            }),
        )
        .name("ref")
        .into_dyn(),
    ];

    let mut cx = Context::auto_register(parts::<AutoRegisterModule>(false, providers)).unwrap();
    cx.resolve(ty::<()>());
    cx.resolve_with_name(ty::<()>(), "ref");
}

#[test]
fn struct_or_function_attr_name() {
    #[derive(Clone)]
    struct A;

    #[derive(Clone)]
    struct B;

    struct MyModule;

    impl Module<Fx> for MyModule {
        fn providers() -> Vec<DynProvider<Fx>> {
            vec![
                singleton(ty::<A>(), make(|_| val(A))).into_dyn(),
                singleton(ty::<B>(), make(|_| val(B))).name("b").into_dyn(),
            ]
        }
    }

    let mut cx = Context::create(vec![module::<MyModule>()]).unwrap();

    assert!(cx.resolve_option(ty::<A>()).is_some());

    assert!(cx.resolve_option(ty::<B>()).is_none());
    assert!(cx.resolve_option_with_name(ty::<B>(), "b").is_some());
}

#[test]
fn eager_create() {
    #[derive(Clone)]
    struct A;

    #[derive(Clone)]
    struct B;

    struct MyModule;

    impl Module<Fx> for MyModule {
        fn providers() -> Vec<DynProvider<Fx>> {
            vec![
                singleton(ty::<A>(), make(|_| val(A))).into_dyn(),
                singleton(ty::<B>(), make(|_| val(B))).eager_create(true).into_dyn(),
            ]
        }
    }

    let cx = Context::create(vec![module::<MyModule>()]).unwrap();

    assert_eq!(cx.single_registry().len(), 1);
    assert!(!cx.contains_single(ty::<A>()));
    assert!(cx.contains_single(ty::<B>()));
}

#[test]
fn binds() {
    #[derive(Clone, Debug)]
    struct A;

    #[derive(Clone, Debug)]
    struct B;

    struct MyModule;

    impl Module<Fx> for MyModule {
        fn providers() -> Vec<DynProvider<Fx>> {
            vec![
                singleton(ty::<A>(), make(|_| val(A))).into_dyn(),
                singleton(ty::<B>(), make(|_| val(B)))
                    .bind(ty::<Rc<dyn Debug>>(), bind(|v| val(Rc::new(get::<B>(&v)) as Rc<dyn Debug>)))
                    .into_dyn(),
            ]
        }
    }

    let cx = Context::create(vec![module::<MyModule>()]).unwrap();
    assert_eq!(cx.get_providers_by_type(ty::<Rc<dyn Debug>>()).len(), 1);

    let provider = cx.get_provider(ty::<Rc<dyn Debug>>()).unwrap();
    assert_eq!(provider.definition().origin.as_ref().unwrap().id, TypeId::of::<B>());
}

#[test]
fn not_auto_register() {
    #[derive(Clone)]
    struct A;

    #[derive(Clone)]
    struct B;

    let registered = vec![singleton(ty::<A>(), make(|_| val(A))).into_dyn()];
    let _not_registered = singleton(ty::<B>(), make(|_| val(B))).into_dyn();

    let cx = Context::auto_register(parts::<AutoRegisterModule>(false, registered)).unwrap();

    assert!(cx.get_provider(ty::<A>()).is_some());
    assert!(cx.get_provider(ty::<B>()).is_none());
}

#[test]
fn no_async_constructor() {
    #[derive(Clone)]
    struct A(i32);

    struct MyModule;

    impl Module<Fx> for MyModule {
        fn providers() -> Vec<DynProvider<Fx>> {
            vec![
                singleton(ty::<i32>(), make(|_| val(1i32))).into_dyn(),
                singleton(ty::<A>(), make(|cx| val(A(get::<i32>(&cx.resolve(ty::<i32>())))))).into_dyn(),
            ]
        }
    }

    let mut cx = Context::create(vec![module::<MyModule>()]).unwrap();
    assert_eq!(get::<A>(&cx.resolve(ty::<A>())).0, 1);
}

#[derive(Default)]
struct Generic<T: Default + 'static>(#[allow(dead_code)] T);

fn generic<T: Default + 'static>() -> DynProvider<Fx> {
    transient(ty::<Generic<T>>(), make(|_| val(Generic::<T>::default()))).into_dyn()
}

fn generic_async<T: Default + 'static>() -> DynProvider<Fx> {
    transient_async(ty::<Generic<T>>(), make(|_| val(Generic::<T>::default()))).into_dyn()
}

#[test]
fn generic_provider() {
    struct MyModule;
    impl Module<Fx> for MyModule {
        fn providers() -> Vec<DynProvider<Fx>> {
            vec![generic::<i32>()]
        }
    }

    let cx = Context::create(vec![module::<MyModule>()]).unwrap();
    assert!(cx.get_provider(ty::<Generic<i32>>()).is_some());
}

#[test]
fn generic_module() {
    struct MyModule<T>(PhantomData<T>);
    impl<T: Default + 'static> Module<Fx> for MyModule<T> {
        fn providers() -> Vec<DynProvider<Fx>> {
            vec![generic::<T>()]
        }
    }

    let cx = Context::create(vec![module::<MyModule<i32>>()]).unwrap();
    assert!(cx.get_provider(ty::<Generic<i32>>()).is_some());
}

#[test]
fn generic_provider_async() {
    struct MyModule;
    impl Module<Fx> for MyModule {
        fn providers() -> Vec<DynProvider<Fx>> {
            vec![generic_async::<i32>()]
        }
    }

    let cx = Context::create(vec![module::<MyModule>()]).unwrap();
    assert!(cx.get_provider(ty::<Generic<i32>>()).is_some());
}

#[test]
fn generic_module_async() {
    struct MyModule<T>(PhantomData<T>);
    impl<T: Default + 'static> Module<Fx> for MyModule<T> {
        fn providers() -> Vec<DynProvider<Fx>> {
            vec![generic_async::<T>()]
        }
    }

    let cx = Context::create(vec![module::<MyModule<i32>>()]).unwrap();
    assert!(cx.get_provider(ty::<Generic<i32>>()).is_some());
}

#[test]
fn resolve_module() {
    struct MyModule;

    impl Module<Fx> for MyModule {
        fn providers() -> Vec<DynProvider<Fx>> {
            vec![]
        }
    }

    // The full name of `MyModule`, as the compiler gives it for this test crate.
    let full_name = "field_or_argument_attr::resolve_module::MyModule";
    let m = ResolveModule::new::<MyModule>(full_name);
    assert!(m.ty().id == TypeId::of::<MyModule>());
    assert!(m.ty().name == full_name);
    assert!(!m.eager_create());
}

#[test]
fn binding_definitions() {
    let provider = Component1::provider();
    test_binding_definitions(provider.binding_definitions());
    test_binding_definitions(DynProvider::from(provider).binding_definitions());
}

fn test_binding_definitions(definitions: Option<&Vec<Definition>>) {
    assert!(definitions.is_some());

    let definitions = definitions.unwrap();
    assert_eq!(definitions.len(), 2);

    let trait1 = &definitions[0];
    assert_eq!(trait1.key.ty.id, TypeId::of::<Rc<dyn Trait1>>());
    assert!(trait1.origin.is_some());
    assert_eq!(trait1.origin.as_ref().unwrap().id, TypeId::of::<Component1>());

    let trait2 = &definitions[1];
    assert_eq!(trait2.key.ty.id, TypeId::of::<Rc<dyn Trait2>>());
    assert!(trait2.origin.is_some());
    assert_eq!(trait2.origin.as_ref().unwrap().id, TypeId::of::<Component1>());
}

#[test]
fn allow_override_by_type() {
    struct Module1;
    impl Module<Fx> for Module1 {
        fn providers() -> Vec<DynProvider<Fx>> {
            vec![singleton(ty::<Component2>(), make(|_| val(Component2)))
                .bind(ty::<Rc<dyn Trait1>>(), bind(|v| val(Rc::new(get::<Component2>(&v)) as Rc<dyn Trait1>)))
                .into_dyn()]
        }
    }

    struct Module2;
    impl Module<Fx> for Module2 {
        fn providers() -> Vec<DynProvider<Fx>> {
            vec![singleton(ty::<Component1>(), make(|_| val(Component1)))
                .bind(ty::<Rc<dyn Trait1>>(), bind(|v| val(Rc::new(get::<Component1>(&v)) as Rc<dyn Trait1>)))
                .into_dyn()]
        }
    }

    let mut cx = Context::create(vec![module::<Module1>(), module::<Module2>()]).unwrap();
    // Component1, Component2, Rc<dyn Trait1>
    assert_eq!(cx.provider_registry().len(), 3);

    let instance = get::<Rc<dyn Trait1>>(&cx.resolve(ty::<Rc<dyn Trait1>>()));
    assert!(instance.as_any().is::<Component1>());

    let provider = cx.get_provider(ty::<Rc<dyn Trait1>>());
    assert!(provider.is_some());
    assert!(provider.unwrap().definition().origin.as_ref().unwrap().id == TypeId::of::<Component1>());
}

#[test]
fn allow_override_by_name() {
    struct Module1;
    impl Module<Fx> for Module1 {
        fn providers() -> Vec<DynProvider<Fx>> {
            vec![singleton(ty::<Component2>(), make(|_| val(Component2)))
                .name("hello")
                .bind(ty::<Rc<dyn Trait1>>(), bind(|v| val(Rc::new(get::<Component2>(&v)) as Rc<dyn Trait1>)))
                .into_dyn()]
        }
    }

    struct Module2;
    impl Module<Fx> for Module2 {
        fn providers() -> Vec<DynProvider<Fx>> {
            vec![singleton(ty::<Component1>(), make(|_| val(Component1)))
                .name("hello")
                .bind(ty::<Rc<dyn Trait1>>(), bind(|v| val(Rc::new(get::<Component1>(&v)) as Rc<dyn Trait1>)))
                .into_dyn()]
        }
    }

    let mut cx = Context::create(vec![module::<Module1>(), module::<Module2>()]).unwrap();
    // Component1, Component2, Rc<dyn Trait1>
    assert_eq!(cx.provider_registry().len(), 3);

    let instance = get::<Rc<dyn Trait1>>(&cx.resolve_with_name(ty::<Rc<dyn Trait1>>(), "hello"));
    assert!(instance.as_any().is::<Component1>());
    let provider = cx.get_provider_with_name(ty::<Rc<dyn Trait1>>(), "hello");
    assert!(provider.is_some());
    assert!(provider.unwrap().definition().origin.as_ref().unwrap().id == TypeId::of::<Component1>());
}
