//! Managed windows and how the tiler treats them.

use vstd::prelude::*;

verus! {

/// How a client takes part in the layout.
#[derive(Debug, Clone, Copy, PartialEq, Eq, Structural)]
pub enum State {
    /// Laid out by the tiler.
    Tiled,
    /// Keeps its own geometry.
    Float,
    /// Left untouched by the tiler.
    Dock,
}

/// The window types that a window can announce of itself.
#[derive(Debug, Clone, Copy, PartialEq, Eq, Structural)]
pub enum WindowType {
    Desktop,
    Dock,
    Toolbar,
    Menu,
    Utility,
    Splash,
    Dialog,
    Normal,
}

/// One managed top-level window, known by its window id.
#[derive(Debug, Clone, Copy, PartialEq, Eq, Structural)]
pub struct Client {
    pub window: u32,
    pub state: State,
}

/// Whether the window types announce a dock.
pub open spec fn announces_dock(types: Seq<WindowType>) -> bool {
    types.contains(WindowType::Dock)
}

impl State {
    /// The state that a window starts in: a dock, toolbar or menu is a dock;
    /// else a splash, utility or dialog window floats; every other window is
    /// tiled.
    pub open spec fn initial(types: Seq<WindowType>) -> State {
        if types.contains(WindowType::Dock) || types.contains(WindowType::Toolbar)
            || types.contains(WindowType::Menu) {
            State::Dock
        } else if types.contains(WindowType::Splash) || types.contains(WindowType::Utility)
            || types.contains(WindowType::Dialog) {
            State::Float
        } else {
            State::Tiled
        }
    }

    /// The state after a float toggle: tiled and floating change places, a
    /// dock stays a dock.
    pub open spec fn toggled(self) -> State {
        match self {
            State::Tiled => State::Float,
            State::Float => State::Tiled,
            State::Dock => State::Dock,
        }
    }

    /// The state that a window with these window types starts in.
    pub fn from(types: &[WindowType]) -> (state: State)
        ensures
            state == State::initial(types@),
    {
        if has_type(types, WindowType::Dock) || has_type(types, WindowType::Toolbar) || has_type(
            types,
            WindowType::Menu,
        ) {
            State::Dock
        } else if has_type(types, WindowType::Splash) || has_type(types, WindowType::Utility)
            || has_type(types, WindowType::Dialog) {
            State::Float
        } else {
            State::Tiled
        }
    }

    /// The state after a float toggle.
    pub fn toggle(self) -> (state: State)
        ensures
            state == self.toggled(),
    {
        match self {
            State::Tiled => State::Float,
            State::Float => State::Tiled,
            State::Dock => State::Dock,
        }
    }
}

/// Whether `wanted` is among the window types.
pub fn has_type(types: &[WindowType], wanted: WindowType) -> (found: bool)
    ensures
        found == types@.contains(wanted),
{
    let mut i: usize = 0;
    while i < types.len()
        invariant
            i <= types@.len(),
            forall|k: int| 0 <= k < i ==> types@[k] != wanted,
        decreases types@.len() - i,
    {
        if types[i] == wanted {
            return true;
        }
        i += 1;
    }
    false
}

impl Client {
    /// The client for the window with id `window`.
    pub fn new(window: u32, state: State) -> (client: Client)
        ensures
            client == (Client { window, state }),
    {
        Client { window, state }
    }
}

/// Toggling twice gives the first state back, and a dock never changes.
pub proof fn lemma_toggle_twice(state: State)
    ensures
        state.toggled().toggled() == state,
        State::Dock.toggled() == State::Dock,
        State::Tiled.toggled().toggled() == State::Tiled,
{
}

} // verus!
