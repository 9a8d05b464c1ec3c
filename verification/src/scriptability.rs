use vstd::prelude::*;

verus! {

/// How a property can be reached from user-authored scripts.
#[derive(Debug, Clone, Copy, PartialEq, Eq, Structural)]
#[non_exhaustive]
pub enum Scriptability {
    /// The property is not scriptable at all.
    NoAccess,
    /// The property can be read from or written to with regular assignments.
    ReadWrite,
    /// The property can only be read from.
    Read,
    /// The property can only be written to.
    Write,
    /// The property can only be modified indirectly, for instance through a
    /// dedicated method of some service.
    Custom,
}

} // verus!
