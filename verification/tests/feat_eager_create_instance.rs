use std::any::Any;
use std::rc::Rc;

use rudi::{Context, DynProvider, Factory, Module, ResolveModule, Type};
use std::cell::{Cell, RefCell};
use rudi::{singleton, transient, transient_async, ContextError, ContextOptions, DefaultProvider, EagerCreateFunction, Provider};

type Val = Rc<dyn Any>;
type Cx = Context<Val, Fx>;

#[derive(Clone)]
enum Fx {
    Make(Rc<dyn Fn(&mut Cx) -> Val>),
    Bind(Rc<dyn Fn(Val) -> Val>),
    When(Rc<dyn Fn(&Cx) -> bool>),
}

impl Factory<Val> for Fx {
    fn construct(&self, mut cx: Cx) -> (Val, Cx) {
        match self {
            Fx::Make(f) => {
                let instance = f(&mut cx);
                (instance, cx)
            }
            _ => panic!("not a constructor"),
        }
    }

    fn transform(&self, instance: Val) -> Val {
        match self {
            Fx::Bind(f) => f(instance),
            _ => panic!("not a transform"),
        }
    }

    fn holds(&self, cx: &Cx) -> bool {
        match self {
            Fx::When(f) => f(cx),
            _ => panic!("not a condition"),
        }
    }
}

fn make(f: impl Fn(&mut Cx) -> Val + 'static) -> Fx {
    Fx::Make(Rc::new(f))
}

#[allow(dead_code)]
fn bind(f: impl Fn(Val) -> Val + 'static) -> Fx {
    Fx::Bind(Rc::new(f))
}

#[allow(dead_code)]
fn when(f: impl Fn(&Cx) -> bool + 'static) -> Fx {
    Fx::When(Rc::new(f))
}

fn ty<T: 'static>() -> Type {
    Type::new::<T>("")
}

fn val<T: 'static>(t: T) -> Val {
    Rc::new(t)
}

#[allow(dead_code)]
fn get<T: Clone + 'static>(v: &Val) -> T {
    v.downcast_ref::<T>().unwrap().clone()
}

#[allow(dead_code)]
fn module<M: Module<Fx> + 'static>() -> ResolveModule<Fx> {
    ResolveModule::new::<M>("")
}

#[allow(dead_code)]
fn parts<M: 'static>(eager_create: bool, providers: Vec<DynProvider<Fx>>) -> ResolveModule<Fx> {
    ResolveModule::from_parts(ty::<M>(), eager_create, None, providers)
}

fn counter() -> Rc<Cell<u32>> {
    Rc::new(Cell::new(0))
}

fn counting<T: 'static>(count: &Rc<Cell<u32>>, t: impl Fn() -> T + 'static) -> Fx {
    let count = count.clone();
    make(move |_| {
        count.set(count.get() + 1);
        val(t())
    })
}

#[test]
fn eager_create_context() {
    #[derive(Clone)]
    struct A;

    struct MyModule;

    impl Module<Fx> for MyModule {
        fn providers() -> Vec<DynProvider<Fx>> {
            vec![singleton(ty::<A>(), make(|_| val(A))).into_dyn()]
        }
    }

    let cx = Context::options().eager_create(true).create(vec![module::<MyModule>()]).unwrap();

    assert!(cx.single_registry().len() == 1);

    let provider = cx.get_provider(ty::<A>());
    assert!(provider.is_some());
    assert!(cx.contains_single(ty::<A>()))
}

#[derive(Clone)]
struct Created;

impl DefaultProvider<Fx> for Created {
    fn provider() -> Provider<Fx> {
        singleton(ty::<Created>(), make(|_| val(Created))).eager_create(true).provider()
    }
}

#[test]
fn eager_create_provider() {
    let created = counter();
    let provider = singleton(ty::<Created>(), counting(&created, || Created)).eager_create(true).provider();

    assert!(provider.eager_create());
    assert!(Created::provider().eager_create());

    let cx = Context::create(vec![parts::<Created>(false, vec![DynProvider::from(provider)])]).unwrap();

    assert!(cx.single_registry().len() == 1);
    assert!(created.get() == 1);
}

#[test]
fn eager_create_module() {
    #[derive(Clone)]
    struct A;

    let count = counter();
    let provider = singleton(ty::<A>(), counting(&count, || A)).eager_create(true).provider();
    assert!(provider.eager_create());

    let mut cx = Context::create(vec![parts::<A>(true, vec![provider.into()])]).unwrap();

    assert!(cx.single_registry().len() == 1);
    assert!(count.get() == 1);

    cx.resolve(ty::<A>());

    assert!(cx.single_registry().len() == 1);
    assert!(count.get() == 1);
}

#[test]
fn eager_create_module_twice() {
    #[derive(Clone)]
    struct A;

    let count = counter();
    let provider = singleton(ty::<A>(), counting(&count, || A)).eager_create(true).provider();
    assert!(provider.eager_create());

    let mut cx = Context::create(vec![parts::<A>(false, vec![provider.into()])]).unwrap();

    assert!(count.get() == 1);
    assert!(cx.single_registry().len() == 1);

    cx.flush().unwrap();

    assert!(count.get() == 1);
    assert!(cx.single_registry().len() == 1);
}

#[test]
fn eager_create_two_modules() {
    #[derive(Clone)]
    struct A;

    #[derive(Clone)]
    #[allow(dead_code)]
    struct B(A);

    struct MyModule1;
    struct MyModule2;

    let count = counter();
    let a = singleton(ty::<A>(), counting(&count, || A)).eager_create(true).provider();
    let count_b = count.clone();
    let b = singleton(
        ty::<B>(),
        make(move |cx| {
            let a = get::<A>(&cx.resolve(ty::<A>()));
            count_b.set(count_b.get() + 1);
            val(B(a))
        }),
    )
    .eager_create(true)
    .provider();

    assert!(a.eager_create());
    assert!(b.eager_create());

    let mut cx = Context::create(vec![
        parts::<MyModule1>(true, vec![a.into()]),
        parts::<MyModule2>(true, vec![b.into()]),
    ])
    .unwrap();

    assert!(count.get() == 2);
    assert!(cx.single_registry().len() == 2);

    cx.resolve(ty::<A>());
    cx.resolve(ty::<B>());

    assert!(count.get() == 2);
    assert!(cx.single_registry().len() == 2);
}

#[test]
fn only_singleton_or_all_scope_eager_create() {
    #[derive(Clone)]
    struct A;

    struct B;

    struct MyModule;

    let count = counter();
    let providers = || {
        vec![
            singleton(ty::<A>(), counting(&count, || A)).into_dyn(),
            transient(ty::<B>(), counting(&count, || B)).into_dyn(),
        ]
    };

    Context::options().eager_create(true).create(vec![parts::<MyModule>(false, providers())]).unwrap();
    assert!(count.get() == 1);

    Context::options()
        .allow_only_single_eager_create(false)
        .eager_create(true)
        .create(vec![parts::<MyModule>(false, providers())])
        .unwrap();
    assert!(count.get() == 3);
}

trait Trait {}

#[derive(Clone)]
struct NewA;

impl Trait for NewA {}

#[derive(Clone)]
struct NewB;

impl Trait for NewB {}

fn override_and_eager_create() {
    struct MyModule1;
    struct MyModule2;

    let count = counter();
    let name: Rc<RefCell<&'static str>> = Rc::new(RefCell::new(""));

    let (count_a, name_a) = (count.clone(), name.clone());
    let new_a = singleton(
        ty::<Rc<dyn Trait>>(),
        make(move |_| {
            count_a.set(count_a.get() + 1);
            *name_a.borrow_mut() = "A";
            val(Rc::new(NewA) as Rc<dyn Trait>)
        }),
    )
    .eager_create(true)
    .into_dyn();

    let (count_b, name_b) = (count.clone(), name.clone());
    let new_b = singleton(
        ty::<Rc<dyn Trait>>(),
        make(move |_| {
            count_b.set(count_b.get() + 1);
            *name_b.borrow_mut() = "B";
            val(Rc::new(NewB) as Rc<dyn Trait>)
        }),
    )
    .eager_create(true)
    .into_dyn();

    Context::create(vec![parts::<MyModule1>(false, vec![new_a]), parts::<MyModule2>(false, vec![new_b])]).unwrap();

    assert!(count.get() == 1);
    assert!(*name.borrow() == "B");
}

#[test]
fn feat_override_and_eager_create_test() {
    override_and_eager_create();
}

#[test]
fn override_and_eager_create_test() {
    override_and_eager_create();
}

#[test]
fn async_eager_create_in_sync_context_fails() {
    struct A;
    struct MyModule;

    let options: ContextOptions<Val, Fx> = Context::options().allow_only_single_eager_create(false).eager_create(true);
    let mut cx = options.load(vec![parts::<MyModule>(false, vec![transient_async(ty::<A>(), make(|_| val(A))).into_dyn()])]);
    match cx.first_async_eager_create() {
        Some(d) => assert!(d.key.ty.id == std::any::TypeId::of::<A>()),
        None => panic!("expected an async eager create function"),
    }
    let queued = cx.take_eager_create_functions();
    let (definition, function) = queued[0].clone();
    match cx.create_eager_instance(definition, function) {
        Err(ContextError::AsyncEagerCreate(d)) => assert!(d.key.ty.id == std::any::TypeId::of::<A>()),
        _ => panic!("expected an async eager create error"),
    }
}

#[test]
fn eager_create_queue() {
    #[derive(Clone)]
    struct A;
    struct B;

    let mut cx: Cx = Context::default();
    cx.load_modules(vec![parts::<A>(
        true,
        vec![singleton(ty::<A>(), make(|_| val(A))).into_dyn(), transient(ty::<B>(), make(|_| val(B))).into_dyn()],
    )]);
    assert_eq!(cx.eager_create_functions().len(), 1);
    assert_eq!(cx.eager_create_functions()[0].1, EagerCreateFunction::Sync);
    assert!(!cx.contains_single(ty::<A>()));
    cx.flush().unwrap();
    assert!(cx.eager_create_functions().is_empty());
    assert!(cx.contains_single(ty::<A>()));
    assert!(!cx.contains_single(ty::<B>()));
}
