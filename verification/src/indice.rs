//! Indices into the index spaces of a module.
use vstd::prelude::*;

verus! {

/// An index into one of the index spaces of a module (functions, tables,
/// memories, globals or types).
#[derive(Debug, Clone, Copy, PartialEq, Eq, Structural)]
pub struct Indice(pub u32);

impl From<u32> for Indice {
    fn from(n: u32) -> (r: Indice) {
        Indice(n)
    }
}

impl vstd::std_specs::convert::FromSpecImpl<u32> for Indice {
    open spec fn obeys_from_spec() -> bool {
        true
    }

    open spec fn from_spec(n: u32) -> Indice {
        Indice(n)
    }
}

impl From<usize> for Indice {
    fn from(n: usize) -> (r: Indice) {
        Indice(n as u32)
    }
}

impl vstd::std_specs::convert::FromSpecImpl<usize> for Indice {
    open spec fn obeys_from_spec() -> bool {
        true
    }

    open spec fn from_spec(n: usize) -> Indice {
        Indice(n as u32)
    }
}

impl Indice {
    /// The index as a `usize`.
    pub fn to_usize(&self) -> (r: usize)
        ensures
            r as nat == self.0 as nat,
    {
        self.0 as usize
    }

    /// The index as a `u32`.
    pub fn to_u32(&self) -> (r: u32)
        ensures
            r == self.0,
    {
        self.0
    }
}

} // verus!
