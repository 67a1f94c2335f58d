# rudi

A dependency injection container: a context holds providers (how to build an instance of a
type under a name, with a scope: singleton, transient or single owner) and the instances it
keeps, loads and unloads modules of providers, resolves instances on demand, and creates
instances eagerly when asked to.

Layout:

- `src/` is the verified library. `view.rs` holds the mathematical model of a context
  (`ContextView`) and the spec functions the contracts are stated over; `context.rs` the
  context and its operations; `options.rs` the options a context is created with;
  `provider.rs`, `module.rs`, `single.rs`, `singleton.rs`, `definition.rs`, `ty.rs` and
  `scope.rs` the values a context is made of; `registry.rs` the keyed registries;
  `flatten.rs` the pre-order flattening of modules and bound providers; `laws.rs` the
  properties that relate several operations.
- `tests/` exercises the library.
- `app/` holds what is left to ordinary Rust: async resolution and flushing, driven step by
  step through the library, and automatic registration of providers with `inventory`.

Instances are values of a type `V` chosen by the user, and the constructors, transforms and
conditions of providers are values of a type `F` that implements `Factory<V>`.
