//! What is handed to the platform for one window: where it goes, how large it
//! becomes, and which of the two is left alone.

use vstd::prelude::*;

verus! {

/// The platform's name for a window. It is only ever compared and passed on.
#[derive(Debug, Clone, Copy, PartialEq, Eq, Structural)]
pub struct WindowHandle(pub u64);

/// The platform's name for a monitor. It is only ever compared and passed on.
#[derive(Debug, Clone, Copy, PartialEq, Eq, Structural)]
pub struct MonitorHandle(pub u64);

/// The changes of state asked of a window, besides its move.
#[derive(Debug, Clone, Copy, PartialEq, Eq, Structural)]
pub struct StateFlags {
    pub minimized: bool,
    pub maximized: bool,
    pub maximized_horizontal: bool,
    pub maximized_vertical: bool,
}

impl StateFlags {
    /// No change of state.
    pub fn none() -> (flags: Self)
        ensures
            flags == (StateFlags {
                minimized: false,
                maximized: false,
                maximized_horizontal: false,
                maximized_vertical: false,
            }),
    {
        StateFlags {
            minimized: false,
            maximized: false,
            maximized_horizontal: false,
            maximized_vertical: false,
        }
    }
}

/// One window's update, in absolute pixels, ready to be staged.
///
/// With `skip_move` the platform keeps the window's position and ignores `x`
/// and `y`; with `skip_resize` it keeps the size and ignores `width` and
/// `height`.
#[derive(Debug, Clone, Copy, PartialEq, Eq, Structural)]
pub struct ResolvedUpdate {
    pub handle: WindowHandle,
    pub x: i32,
    pub y: i32,
    pub width: i32,
    pub height: i32,
    pub skip_move: bool,
    pub skip_resize: bool,
    pub state: StateFlags,
}

} // verus!
