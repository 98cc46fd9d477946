//! Plain value types shared with a rendering layer: a window size and the
//! error reports of render calls.

use vstd::prelude::*;

verus! {

/// A window size in pixels.
#[derive(Clone, Copy, Debug, PartialEq, Eq, Structural)]
pub struct Size {
    /// The width.
    pub width: u32,
    /// The height.
    pub height: u32,
}

impl From<(u32, u32)> for Size {
    fn from(value: (u32, u32)) -> (r: Size) {
        Size { width: value.0, height: value.1 }
    }
}

impl vstd::std_specs::convert::FromSpecImpl<(u32, u32)> for Size {
    open spec fn obeys_from_spec() -> bool {
        true
    }

    open spec fn from_spec(value: (u32, u32)) -> Size {
        Size { width: value.0, height: value.1 }
    }
}

/// An error reported by a render call.
#[derive(Debug, Clone)]
pub enum Error {
    /// The engine could not be initialized; the message reports the exact
    /// cause.
    InitializeError(String),
    /// An error reported during a window creation.
    WindowCreationError(String),
    /// An error reported by the platform during rendering.
    ContextError(String),
    /// The rendering context is missing or closed, for example because the
    /// window was closed.
    ContextLost,
    /// An error during the creation of a render pass.
    PassCreationError(String),
}

} // verus!
