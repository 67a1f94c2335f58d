use std::any::Any;
use std::rc::Rc;

use rudi::{Context, DynProvider, Factory, Module, ResolveModule, Type};
use std::any::TypeId;
use rudi::{flatten, singleton};

type Val = Rc<dyn Any>;
type Cx = Context<Val, Fx>;

#[derive(Clone)]
enum Fx {
    Make(Rc<dyn Fn(&mut Cx) -> Val>),
    Bind(Rc<dyn Fn(Val) -> Val>),
    When(Rc<dyn Fn(&Cx) -> bool>),
}

impl Factory<Val> for Fx {
    fn construct(&self, mut cx: Cx) -> (Val, Cx) {
        match self {
            Fx::Make(f) => {
                let instance = f(&mut cx);
                (instance, cx)
            }
            _ => panic!("not a constructor"),
        }
    }

    fn transform(&self, instance: Val) -> Val {
        match self {
            Fx::Bind(f) => f(instance),
            _ => panic!("not a transform"),
        }
    }

    fn holds(&self, cx: &Cx) -> bool {
        match self {
            Fx::When(f) => f(cx),
            _ => panic!("not a condition"),
        }
    }
}

fn make(f: impl Fn(&mut Cx) -> Val + 'static) -> Fx {
    Fx::Make(Rc::new(f))
}

#[allow(dead_code)]
fn bind(f: impl Fn(Val) -> Val + 'static) -> Fx {
    Fx::Bind(Rc::new(f))
}

#[allow(dead_code)]
fn when(f: impl Fn(&Cx) -> bool + 'static) -> Fx {
    Fx::When(Rc::new(f))
}

fn ty<T: 'static>() -> Type {
    Type::new::<T>("")
}

fn val<T: 'static>(t: T) -> Val {
    Rc::new(t)
}

#[allow(dead_code)]
fn get<T: Clone + 'static>(v: &Val) -> T {
    v.downcast_ref::<T>().unwrap().clone()
}

#[allow(dead_code)]
fn module<M: Module<Fx> + 'static>() -> ResolveModule<Fx> {
    ResolveModule::new::<M>("")
}

#[allow(dead_code)]
fn parts<M: 'static>(eager_create: bool, providers: Vec<DynProvider<Fx>>) -> ResolveModule<Fx> {
    ResolveModule::from_parts(ty::<M>(), eager_create, None, providers)
}

#[derive(Clone, Debug)]
struct ComponentA;

#[derive(Clone)]
#[allow(dead_code)]
struct ComponentB {
    a: ComponentA,
}

fn component_a() -> DynProvider<Fx> {
    singleton(ty::<ComponentA>(), make(|_| val(ComponentA))).into_dyn()
}

fn component_b() -> DynProvider<Fx> {
    singleton(ty::<ComponentB>(), make(|cx| val(ComponentB { a: get::<ComponentA>(&cx.resolve(ty::<ComponentA>())) })))
        .into_dyn()
}

#[test]
fn resolve_with_several_modules() {
    struct MyModule1;

    impl Module<Fx> for MyModule1 {
        fn providers() -> Vec<DynProvider<Fx>> {
            vec![singleton(ty::<Rc<ComponentA>>(), make(|_| val(Rc::new(ComponentA)))).into_dyn()]
        }
    }

    #[derive(Clone)]
    struct Holder(Rc<ComponentA>);

    struct MyModule2;
    impl Module<Fx> for MyModule2 {
        fn providers() -> Vec<DynProvider<Fx>> {
            vec![singleton(ty::<Holder>(), make(|cx| val(Holder(get::<Rc<ComponentA>>(&cx.resolve(ty::<Rc<ComponentA>>()))))))
                .into_dyn()]
        }
    }

    let mut cx = Context::create(vec![module::<MyModule1>(), module::<MyModule2>()]).unwrap();
    let a = get::<Rc<ComponentA>>(&cx.resolve(ty::<Rc<ComponentA>>()));
    let b = get::<Holder>(&cx.resolve(ty::<Holder>()));
    assert!(std::ptr::eq(&*a, &*b.0));
}

#[test]
fn single_module() {
    struct MyModule;

    impl Module<Fx> for MyModule {
        fn providers() -> Vec<DynProvider<Fx>> {
            vec![component_a()]
        }
    }

    let cx = Context::create(vec![module::<MyModule>()]).unwrap();
    assert_eq!(cx.provider_registry().len(), 1);
}

#[test]
fn multiple_module() {
    struct MyModule1;

    impl Module<Fx> for MyModule1 {
        fn providers() -> Vec<DynProvider<Fx>> {
            vec![component_a()]
        }
    }

    struct MyModule2;

    impl Module<Fx> for MyModule2 {
        fn providers() -> Vec<DynProvider<Fx>> {
            vec![component_b()]
        }
    }

    let cx = Context::create(vec![module::<MyModule1>(), module::<MyModule2>()]).unwrap();
    assert_eq!(cx.provider_registry().len(), 2);
}

#[test]
fn nested_module() {
    struct MyModule1;

    impl Module<Fx> for MyModule1 {
        fn providers() -> Vec<DynProvider<Fx>> {
            vec![component_a()]
        }
    }

    struct MyModule2;

    impl Module<Fx> for MyModule2 {
        fn submodules() -> Option<Vec<ResolveModule<Fx>>> {
            Some(vec![module::<MyModule1>()])
        }

        fn providers() -> Vec<DynProvider<Fx>> {
            vec![component_b()]
        }
    }

    let cx = Context::create(vec![module::<MyModule2>()]).unwrap();
    assert_eq!(cx.provider_registry().len(), 2);
}

#[test]
fn duplicate_nested_module() {
    struct DataModule;

    impl Module<Fx> for DataModule {
        fn providers() -> Vec<DynProvider<Fx>> {
            vec![component_a()]
        }
    }

    struct DomainModule;

    impl Module<Fx> for DomainModule {
        fn providers() -> Vec<DynProvider<Fx>> {
            vec![component_b()]
        }
    }

    struct FeatureModule1;

    impl Module<Fx> for FeatureModule1 {
        fn submodules() -> Option<Vec<ResolveModule<Fx>>> {
            Some(vec![module::<DomainModule>(), module::<DataModule>()])
        }

        fn providers() -> Vec<DynProvider<Fx>> {
            vec![]
        }
    }

    struct FeatureModule2;

    impl Module<Fx> for FeatureModule2 {
        fn submodules() -> Option<Vec<ResolveModule<Fx>>> {
            Some(vec![module::<DomainModule>(), module::<DataModule>()])
        }

        fn providers() -> Vec<DynProvider<Fx>> {
            vec![]
        }
    }

    let cx = Context::create(vec![module::<FeatureModule1>(), module::<FeatureModule2>()]).unwrap();
    assert_eq!(cx.provider_registry().len(), 2);
}

#[test]
fn nested_modules_are_loaded_in_pre_order() {
    struct Leaf;
    impl Module<Fx> for Leaf {
        fn providers() -> Vec<DynProvider<Fx>> {
            vec![component_a()]
        }
    }

    struct Inner;
    impl Module<Fx> for Inner {
        fn submodules() -> Option<Vec<ResolveModule<Fx>>> {
            Some(vec![module::<Leaf>()])
        }

        fn providers() -> Vec<DynProvider<Fx>> {
            vec![]
        }
    }

    struct Outer;
    impl Module<Fx> for Outer {
        fn submodules() -> Option<Vec<ResolveModule<Fx>>> {
            Some(vec![module::<Inner>()])
        }

        fn providers() -> Vec<DynProvider<Fx>> {
            vec![component_b()]
        }
    }

    struct Last;
    impl Module<Fx> for Last {
        fn providers() -> Vec<DynProvider<Fx>> {
            vec![]
        }
    }

    let cx = Context::create(vec![module::<Outer>(), module::<Last>()]).unwrap();
    let ids: Vec<_> = cx.loaded_modules().iter().map(|t| t.id).collect();
    assert_eq!(
        ids,
        vec![TypeId::of::<Outer>(), TypeId::of::<Inner>(), TypeId::of::<Leaf>(), TypeId::of::<Last>()]
    );
}

#[test]
fn flatten_forest_in_pre_order() {
    let leaf = ResolveModule::<Fx>::from_parts(ty::<u8>(), false, None, vec![]);
    let inner = ResolveModule::from_parts(ty::<u16>(), false, Some(vec![leaf]), vec![]);
    let second = ResolveModule::from_parts(ty::<u32>(), false, None, vec![]);
    let outer = ResolveModule::from_parts(ty::<u64>(), false, Some(vec![inner, second]), vec![]);
    let last = ResolveModule::from_parts(ty::<i8>(), false, None, vec![]);
    let mut flat = flatten(vec![outer, last]);
    let ids: Vec<_> = flat.iter().map(|m| m.ty().id).collect();
    assert_eq!(
        ids,
        vec![TypeId::of::<u64>(), TypeId::of::<u16>(), TypeId::of::<u8>(), TypeId::of::<u32>(), TypeId::of::<i8>()]
    );
    assert!(flat.iter_mut().all(|m| m.submodules().is_none()));
}

#[test]
fn feat_impl_trait_fn_as_constructor_test() {
    #[derive(Clone)]
    struct Material;

    #[derive(Clone)]
    struct Product;

    struct MyModule;

    impl Module<Fx> for MyModule {
        fn providers() -> Vec<DynProvider<Fx>> {
            vec![
                singleton(ty::<Material>(), make(|_| val(Material))).into_dyn(),
                singleton(
                    ty::<Product>(),
                    make(|cx| {
                        cx.just_create_single(ty::<Material>());
                        let _material: &Material = cx.get_single(ty::<Material>()).downcast_ref::<Material>().unwrap();
                        val(Product)
                    }),
                )
                .into_dyn(),
            ]
        }
    }

    let mut cx = Context::create(vec![module::<MyModule>()]).unwrap();

    assert!(cx.resolve_option(ty::<Product>()).is_some());
}
