use std::any::Any;
use std::rc::Rc;

use rudi::{Context, DynProvider, Factory, Module, ResolveModule, Type};
use rudi::{single_owner, singleton, transient, AutoRegisterModule};

type Val = Rc<dyn Any>;
type Cx = Context<Val, Fx>;

#[derive(Clone)]
enum Fx {
    Make(Rc<dyn Fn(&mut Cx) -> Val>),
    Bind(Rc<dyn Fn(Val) -> Val>),
    When(Rc<dyn Fn(&Cx) -> bool>),
}

impl Factory<Val> for Fx {
    fn construct(&self, mut cx: Cx) -> (Val, Cx) {
        match self {
            Fx::Make(f) => {
                let instance = f(&mut cx);
                (instance, cx)
            }
            _ => panic!("not a constructor"),
        }
    }

    fn transform(&self, instance: Val) -> Val {
        match self {
            Fx::Bind(f) => f(instance),
            _ => panic!("not a transform"),
        }
    }

    fn holds(&self, cx: &Cx) -> bool {
        match self {
            Fx::When(f) => f(cx),
            _ => panic!("not a condition"),
        }
    }
}

fn make(f: impl Fn(&mut Cx) -> Val + 'static) -> Fx {
    Fx::Make(Rc::new(f))
}

#[allow(dead_code)]
fn bind(f: impl Fn(Val) -> Val + 'static) -> Fx {
    Fx::Bind(Rc::new(f))
}

#[allow(dead_code)]
fn when(f: impl Fn(&Cx) -> bool + 'static) -> Fx {
    Fx::When(Rc::new(f))
}

fn ty<T: 'static>() -> Type {
    Type::new::<T>("")
}

fn val<T: 'static>(t: T) -> Val {
    Rc::new(t)
}

#[allow(dead_code)]
fn get<T: Clone + 'static>(v: &Val) -> T {
    v.downcast_ref::<T>().unwrap().clone()
}

#[allow(dead_code)]
fn module<M: Module<Fx> + 'static>() -> ResolveModule<Fx> {
    ResolveModule::new::<M>("")
}

#[allow(dead_code)]
fn parts<M: 'static>(eager_create: bool, providers: Vec<DynProvider<Fx>>) -> ResolveModule<Fx> {
    ResolveModule::from_parts(ty::<M>(), eager_create, None, providers)
}

fn auto_register() -> Cx {
    let providers = vec![
        transient(ty::<i32>(), make(|_| val(1i32))).name("one").into_dyn(),
        singleton(ty::<i32>(), make(|_| val(2i32))).name("two").into_dyn(),
        single_owner(ty::<i32>(), make(|_| val(3i32))).name("three").into_dyn(),
    ];
    Context::auto_register(parts::<AutoRegisterModule>(false, providers)).unwrap()
}

#[test]
fn transient_owned() {
    let mut cx = auto_register();
    assert_eq!(get::<i32>(&cx.resolve_with_name(ty::<i32>(), "one")), 1);
}

#[test]
fn singleton_owned() {
    let mut cx = auto_register();
    assert_eq!(get::<i32>(&cx.resolve_with_name(ty::<i32>(), "two")), 2);
}

#[test]
fn singleton_ref() {
    let mut cx = auto_register();
    assert!(cx.try_just_create_single_with_name(ty::<i32>(), "two"));
    assert_eq!(get::<i32>(cx.get_single_with_name(ty::<i32>(), "two")), 2);
}

#[test]
fn single_owner_ref() {
    let mut cx = auto_register();
    assert!(cx.try_just_create_single_with_name(ty::<i32>(), "three"));
    assert_eq!(get::<i32>(cx.get_single_with_name(ty::<i32>(), "three")), 3);
}

#[test]
fn transient_is_not_kept() {
    let mut cx = auto_register();
    assert!(!cx.try_just_create_single_with_name(ty::<i32>(), "one"));
    assert!(!cx.contains_single_with_name(ty::<i32>(), "one"));
    assert!(cx.get_single_option_with_name(ty::<i32>(), "one").is_none());
}

#[test]
fn single_owner_is_not_returned() {
    let mut cx = auto_register();
    assert!(cx.resolve_option_with_name(ty::<i32>(), "three").is_none());
    assert!(!cx.contains_single_with_name(ty::<i32>(), "three"));
    assert!(cx.try_just_create_single_with_name(ty::<i32>(), "three"));
    assert!(cx.resolve_option_with_name(ty::<i32>(), "three").is_none());
    assert!(cx.contains_single_with_name(ty::<i32>(), "three"));
}

#[test]
fn singleton_is_kept_after_resolve() {
    let mut cx = auto_register();
    assert!(!cx.contains_single_with_name(ty::<i32>(), "two"));
    let a = cx.resolve_with_name(ty::<i32>(), "two");
    assert!(cx.contains_single_with_name(ty::<i32>(), "two"));
    let b = cx.resolve_with_name(ty::<i32>(), "two");
    assert!(Rc::ptr_eq(&a, &b));
    assert!(Rc::ptr_eq(&a, cx.get_single_with_name(ty::<i32>(), "two")));
}

#[test]
fn just_create_singles_by_type() {
    let mut cx = auto_register();
    let created = cx.try_just_create_singles_by_type(ty::<i32>()).unwrap();
    assert_eq!(created.len(), 3);
    assert_eq!(created.iter().filter(|b| **b).count(), 2);
    let mut singles: Vec<i32> = cx.get_singles_by_type(ty::<i32>()).iter().map(|v| get::<i32>(v)).collect();
    singles.sort();
    assert_eq!(singles, vec![2, 3]);
}
