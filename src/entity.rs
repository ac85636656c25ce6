use vstd::prelude::*;

verus! {

/// Identifier of an entity, issued by a `World` in increasing order.
#[derive(Debug, Clone, Copy, PartialEq, Eq, Structural, PartialOrd, Ord, Hash)]
pub struct Id(pub u32);

/// Runtime identity of a component type: every component kind has its own
/// storage in a `World`.
#[derive(Debug, Clone, Copy, PartialEq, Eq, Structural, PartialOrd, Ord, Hash)]
pub struct Kind(pub u32);

impl Id {
    /// The integer behind the identifier.
    pub fn raw(self) -> (r: u32)
        ensures
            r == self.0,
    {
        self.0
    }
}

} // verus!
