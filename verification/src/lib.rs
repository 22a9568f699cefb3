//! Core of a multi-world simulation host: servers own named worlds, worlds
//! own named dimensions, and every addressable object can report its name.
//!
//! The library verifies the sequential core — identity, id allocation,
//! registry semantics, the server's registration operations, and the
//! meaning of the front end's input lines. The surrounding process (locks,
//! threads, weak self-handles, the command shell itself, and the reflection
//! helper that renders a value's type for diagnostics) is ordinary Rust
//! built on top of these contracts.
use vstd::prelude::*;

pub mod basic;
pub mod command;
pub mod registry;

verus! {

/// A unit of world content; a placeholder for future terrain storage.
pub struct Chunk {}

/// The identity capability: every addressable object can produce a
/// human-readable name. `name_spec` is the mathematical value of that name,
/// and `get_name` must return exactly it.
pub trait Named: Send + Sync {
    spec fn name_spec(&self) -> Seq<char>;

    fn get_name(&self) -> (n: String)
        ensures
            n@ == self.name_spec(),
    ;
}

/// A named object representing one dimension inside a world.
pub trait Dimension: Named {

}

/// The world capability: a named object owning a registry of dimensions.
/// Promoting a world into an independently running task — the weak
/// self-handle, its upgrade, and the runner thread — is the hosting
/// process's affair and stands outside this contract.
pub trait World: Named {

}

/// Anything that lives inside a world's content model.
pub trait GameObject: Named {

}

pub trait Entity: GameObject {

}

pub trait Item: GameObject {

}

pub trait Block: GameObject {

}

pub trait BlockItem: Block + Item {

}

impl<T: Block + Item> BlockItem for T {

}

/// The server contract: a named object that resolves a base path once and
/// owns a registry of worlds, keyed by name. Registration succeeds exactly
/// when the chosen name is still free; a duplicate name is refused by a
/// `false` result and leaves the registry unchanged.
pub trait Server: Named {
    /// The server's internal invariant; constructors establish it and every
    /// operation preserves it.
    spec fn inv(&self) -> bool;

    /// The world registry, as a map from names to the registered worlds.
    spec fn worlds_spec(&self) -> Map<Seq<char>, crate::basic::BasicWorld>;

    /// The base filesystem path the server resolved at construction.
    spec fn path_spec(&self) -> Seq<char>;

    /// The numeric id the server drew at construction: allocated once,
    /// immutable for the server's lifetime.
    spec fn id_spec(&self) -> nat;

    /// Returns the base directory resolved at construction, unchanged.
    fn get_path(&self) -> (p: String)
        requires
            self.inv(),
        ensures
            p@ == self.path_spec(),
    ;

    /// Registers `w` under the name `s` only if no world is registered under
    /// that name yet, and reports whether the registration happened.
    fn register(&mut self, w: crate::basic::BasicWorld, s: String) -> (registered: bool)
        requires
            old(self).inv(),
        ensures
            final(self).inv(),
            (registered, final(self).worlds_spec()) == crate::registry::spec_try_insert(
                old(self).worlds_spec(),
                s@,
                w,
            ),
            final(self).name_spec() == old(self).name_spec(),
            final(self).path_spec() == old(self).path_spec(),
            final(self).id_spec() == old(self).id_spec(),
    ;

    /// Registers `w` under its own name: exactly `register` called with the
    /// name that `w.get_name()` returns.
    fn auto_register(&mut self, w: crate::basic::BasicWorld) -> (registered: bool)
        requires
            old(self).inv(),
        ensures
            final(self).inv(),
            (registered, final(self).worlds_spec()) == crate::registry::spec_try_insert(
                old(self).worlds_spec(),
                w.name_spec(),
                w,
            ),
            final(self).name_spec() == old(self).name_spec(),
            final(self).path_spec() == old(self).path_spec(),
            final(self).id_spec() == old(self).id_spec(),
    {
        let n = w.get_name();
        self.register(w, n)
    }
}

/// A pass-through facade over a concrete server: callers hold one wrapper
/// type while the server implementation stays swappable. The facade is
/// transparent — every specification of the wrapper is the wrapped server's.
pub struct ServerHolder<S: Server>(pub S);

impl<S: Server> ServerHolder<S> {
    pub fn new(s: S) -> (h: ServerHolder<S>)
        ensures
            h.0 == s,
    {
        ServerHolder(s)
    }
}

impl<S: Server> Named for ServerHolder<S> {
    open spec fn name_spec(&self) -> Seq<char> {
        self.0.name_spec()
    }

    fn get_name(&self) -> (n: String) {
        self.0.get_name()
    }
}

impl<S: Server> Server for ServerHolder<S> {
    open spec fn inv(&self) -> bool {
        self.0.inv()
    }

    open spec fn worlds_spec(&self) -> Map<Seq<char>, crate::basic::BasicWorld> {
        self.0.worlds_spec()
    }

    open spec fn path_spec(&self) -> Seq<char> {
        self.0.path_spec()
    }

    open spec fn id_spec(&self) -> nat {
        self.0.id_spec()
    }

    fn get_path(&self) -> (p: String) {
        self.0.get_path()
    }

    fn register(&mut self, w: crate::basic::BasicWorld, s: String) -> (registered: bool) {
        self.0.register(w, s)
    }
}

} // verus!
