//! Runtime configuration, changed by control messages.

use vstd::prelude::*;

verus! {

/// Space kept free along each edge of a monitor.
#[derive(Debug, Clone, Copy, PartialEq, Eq, Structural)]
pub struct Padding {
    pub top: u16,
    pub bottom: u16,
    pub left: u16,
    pub right: u16,
}

/// Border width and the two border colours.
#[derive(Debug, Clone, Copy, PartialEq, Eq, Structural)]
pub struct Borders {
    pub width: u16,
    pub focused: u32,
    pub normal: u32,
}

/// Settings that apply to client windows.
#[derive(Debug, Clone, Copy, PartialEq, Eq, Structural)]
pub struct Windows {
    pub borders: Borders,
    pub gaps: u16,
    pub mouse_movement: bool,
}

/// The whole configuration.
#[derive(Debug, Clone, Copy, PartialEq, Eq, Structural)]
pub struct Config {
    pub padding: Padding,
    pub windows: Windows,
}

impl Padding {
    /// No padding on any edge.
    pub open spec fn zero() -> Padding {
        Padding { top: 0, bottom: 0, left: 0, right: 0 }
    }
}

impl Config {
    /// The configuration at startup: every number zero, mouse movement off.
    pub open spec fn initial() -> Config {
        Config {
            padding: Padding::zero(),
            windows: Windows {
                borders: Borders { width: 0, focused: 0, normal: 0 },
                gaps: 0,
                mouse_movement: false,
            },
        }
    }
}

impl Default for Padding {
    fn default() -> (padding: Padding)
        ensures
            padding == Padding::zero(),
    {
        Padding { top: 0, bottom: 0, left: 0, right: 0 }
    }
}

impl Default for Borders {
    fn default() -> (borders: Borders)
        ensures
            borders == Config::initial().windows.borders,
    {
        Borders { width: 0, focused: 0, normal: 0 }
    }
}

impl Default for Windows {
    fn default() -> (windows: Windows)
        ensures
            windows == Config::initial().windows,
    {
        Windows { borders: Borders { width: 0, focused: 0, normal: 0 }, gaps: 0, mouse_movement: false }
    }
}

impl Default for Config {
    fn default() -> (config: Config)
        ensures
            config == Config::initial(),
    {
        Config {
            padding: Padding { top: 0, bottom: 0, left: 0, right: 0 },
            windows: Windows {
                borders: Borders { width: 0, focused: 0, normal: 0 },
                gaps: 0,
                mouse_movement: false,
            },
        }
    }
}

} // verus!
