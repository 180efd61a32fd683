//! The host interface offered to WASM plugins.
//!
//! A plugin host implements [`Phylum`] to hand project listings to the
//! plugin; the surrounding runtime glue lives outside this library.

use vstd::prelude::*;

verus! {

/// A project as exposed to plugins.
#[derive(Clone, Debug)]
pub struct Project {
    pub name: String,
    pub id: String,
}

/// What a plugin host provides.
pub trait Phylum: Sized {
    /// List the projects visible to the current account.
    fn projects(&mut self) -> Vec<Project>;
}

} // verus!
