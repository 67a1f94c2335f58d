use vstd::prelude::*;

verus! {

/// Represents the scope of a provider, i.e. how its instances live in the context.
#[derive(Clone, Copy, Debug, PartialEq, Eq, Structural, Hash, PartialOrd, Ord)]
pub enum Scope {
    /// One instance is created and stored; resolving it hands out clones of it.
    Singleton,
    /// A new instance is created every time it is resolved; nothing is stored.
    Transient,
    /// One instance is created and stored; it can only be borrowed, never handed out.
    SingleOwner,
}

/// Represents the color of a constructor, i.e. whether it is async or sync.
#[derive(Clone, Copy, Debug, PartialEq, Eq, Structural, Hash, PartialOrd, Ord)]
pub enum Color {
    /// The constructor is async.
    Async,
    /// The constructor is sync.
    Sync,
}

} // verus!
