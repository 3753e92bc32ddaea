//! The requests that the engine wants made to the X server.

use vstd::prelude::*;
use crate::area::Area;

verus! {

/// One request to the X server.
#[derive(Debug, Clone, Copy, PartialEq, Eq, Structural)]
pub enum Action {
    /// Move the window to `area`'s origin and give it `area`'s extent.
    MoveResize { window: u32, area: Area },
    /// Move the window.
    Move { window: u32, x: u16, y: u16 },
    /// Give the window a new extent.
    Resize { window: u32, width: u16, height: u16 },
    /// Show the window.
    MapWindow { window: u32 },
    /// Hide the window.
    UnmapWindow { window: u32 },
    /// Have the server cut the connection of the window's owner.
    Kill { window: u32 },
    /// Put the window above its siblings.
    Raise { window: u32 },
    /// Give the window the input focus, which falls back to its parent.
    SetInputFocus { window: u32 },
    /// Ask for the window's substructure, enter and focus events.
    SelectInput { window: u32 },
    /// Set the width of the window's border.
    SetBorderWidth { window: u32, width: u16 },
    /// Set the colour of the window's border.
    SetBorderPixel { window: u32, pixel: u32 },
    /// Send the window a client message of type `kind` in 32-bit format
    /// whose first long is `first`; the other four are zero.
    ClientMessage { window: u32, kind: u32, first: u32 },
    /// Grab the pointer for the window, reporting motion and button release.
    GrabPointer { window: u32 },
    /// Let the pointer go.
    UngrabPointer,
    /// Apply the values of the window's configure request as they came.
    Configure { window: u32 },
    /// Announce the current desktop on the root window.
    SetCurrentDesktop { desktop: u32 },
    /// Announce the number of desktops on the root window.
    SetNumberOfDesktops { desktops: u32 },
}

} // verus!
