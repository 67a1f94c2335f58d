mod definition;
mod scope;
mod ty;
mod single;
mod singleton;
mod registry;
mod provider;
mod flatten;
mod module;
pub mod view;
pub mod context;
pub mod options;
pub mod laws;

pub use crate::context::{eager_created, Context, Factory, Prepared, Resolved};
pub use crate::definition::{Definition, Key};
pub use crate::flatten::{flatten, Nested};
pub use crate::module::{Module, ResolveModule};
pub use crate::options::{AutoRegisterModule, ContextOptions};
pub use crate::provider::{
    single_owner, single_owner_async, singleton, singleton_async, transient, transient_async, Constructor,
    DefaultProvider, DynProvider, EagerCreateFunction, Provider, ProviderBuilder,
};
pub use crate::scope::{Color, Scope};
pub use crate::single::{DynSingle, Single};
pub use crate::singleton::{DynSingletonInstance, SingletonInstance};
pub use crate::ty::Type;
pub use crate::view::{Behaviour, ContextError, ContextView, ErrorView, Plan};
