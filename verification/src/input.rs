//! Identifiers used by the input handling layer.

use vstd::prelude::*;

verus! {

/// Identifier of an input axis.
#[derive(Clone, Copy, Debug, PartialEq, Eq, Hash, Structural)]
pub struct AxisId(u32);

impl AxisId {
    pub fn new(code: u32) -> (r: AxisId)
        ensures
            r.id_spec() == code,
    {
        AxisId(code)
    }

    /// The raw code of the axis.
    pub closed spec fn id_spec(self) -> u32 {
        self.0
    }

    pub fn id(&self) -> (r: u32)
        ensures
            r == self.id_spec(),
    {
        self.0
    }
}

/// Identifier of an input modifier.
#[derive(Clone, Copy, Debug, PartialEq, Eq, Hash, Structural)]
pub struct ModifierId(u32);

impl ModifierId {
    pub fn new(code: u32) -> (r: ModifierId)
        ensures
            r.id_spec() == code,
    {
        ModifierId(code)
    }

    /// The raw code of the modifier.
    pub closed spec fn id_spec(self) -> u32 {
        self.0
    }

    pub fn id(&self) -> (r: u32)
        ensures
            r == self.id_spec(),
    {
        self.0
    }
}

} // verus!
