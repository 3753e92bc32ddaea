//! Moving and resizing a floating window with the pointer.

use vstd::prelude::*;
use crate::action::Action;
use crate::area::Area;
use crate::event::Button;

verus! {

/// A drag in progress: the button that started it, the window under the
/// pointer, that window's geometry and the pointer's place on the root
/// window when the button went down.
#[derive(Debug, Clone, Copy, PartialEq, Eq, Structural)]
pub struct Grab {
    pub button: Button,
    pub window: u32,
    pub geometry: Area,
    pub x: u16,
    pub y: u16,
}

/// `start` moved by `now - then`, taken modulo 2^16. As a coordinate the
/// result stands for a place left of or above the origin where the sum is
/// negative.
pub open spec fn dragged(start: u16, then: u16, now: u16) -> u16 {
    ((start + now - then) % 0x1_0000) as u16
}

/// Executable `dragged`.
pub fn drag(start: u16, then: u16, now: u16) -> (moved: u16)
    ensures
        moved == dragged(start, then, now),
{
    let sum: u32 = start as u32 + now as u32 + 0x1_0000 - then as u32;
    (sum % 0x1_0000) as u16
}

impl Grab {
    /// What the pointer's move to `(root_x, root_y)` asks for: the first
    /// button moves the window by as much as the pointer moved since the
    /// press, the third button grows or shrinks it by as much; no other
    /// button does anything.
    pub open spec fn motion(self, root_x: u16, root_y: u16) -> Seq<Action> {
        match self.button {
            Button::Button1 => seq![
                Action::Move {
                    window: self.window,
                    x: dragged(self.geometry.x, self.x, root_x),
                    y: dragged(self.geometry.y, self.y, root_y),
                },
            ],
            Button::Button3 => seq![
                Action::Resize {
                    window: self.window,
                    width: dragged(self.geometry.width, self.x, root_x),
                    height: dragged(self.geometry.height, self.y, root_y),
                },
            ],
            _ => Seq::empty(),
        }
    }

    /// The drag that `button` started on `window` with the pointer at
    /// `(x, y)`.
    pub fn new(button: Button, window: u32, geometry: Area, x: u16, y: u16) -> (grab: Grab)
        ensures
            grab == (Grab { button, window, geometry, x, y }),
    {
        Grab { button, window, geometry, x, y }
    }

    /// What the pointer's move to `(root_x, root_y)` asks for.
    pub fn moved(&self, root_x: u16, root_y: u16) -> (actions: Vec<Action>)
        ensures
            actions@ == self.motion(root_x, root_y),
    {
        let mut actions: Vec<Action> = Vec::new();
        match self.button {
            Button::Button1 => {
                actions.push(
                    Action::Move {
                        window: self.window,
                        x: drag(self.geometry.x, self.x, root_x),
                        y: drag(self.geometry.y, self.y, root_y),
                    },
                );
            },
            Button::Button3 => {
                actions.push(
                    Action::Resize {
                        window: self.window,
                        width: drag(self.geometry.width, self.x, root_x),
                        height: drag(self.geometry.height, self.y, root_y),
                    },
                );
            },
            _ => {},
        }
        assert(actions@ =~= self.motion(root_x, root_y));
        actions
    }
}

} // verus!
