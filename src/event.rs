use vstd::prelude::*;

verus! {

/// Events that the user interface posts to the window's event loop.
#[derive(Debug, Clone, Copy, PartialEq, Eq)]
pub enum GuiEvent {
    /// The interface changed and the window should be drawn again.
    RequestRedraw,
}

} // verus!
