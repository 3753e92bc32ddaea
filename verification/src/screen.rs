//! What the tiler's requests leave on the server: where each window is and
//! which windows are shown.

use vstd::prelude::*;
use crate::action::Action;
use crate::area::Area;
use crate::layout::plan;
use crate::workspaces::WorkspaceSet;

verus! {

/// The part of the server's state that the tiler writes.
pub struct Screen {
    /// The geometry of each window that has one.
    pub geometry: Map<u32, Area>,
    /// The windows that are shown.
    pub mapped: Set<u32>,
}

/// The screen after one request. A request that is not the tiler's leaves
/// the screen as it is.
pub open spec fn apply(screen: Screen, action: Action) -> Screen {
    match action {
        Action::MoveResize { window, area } => Screen {
            geometry: screen.geometry.insert(window, area),
            ..screen
        },
        Action::MapWindow { window } => Screen { mapped: screen.mapped.insert(window), ..screen },
        Action::UnmapWindow { window } => Screen { mapped: screen.mapped.remove(window), ..screen },
        _ => screen,
    }
}

/// The screen after a list of requests.
pub open spec fn apply_all(screen: Screen, actions: Seq<Action>) -> Screen
    decreases actions.len(),
{
    if actions.len() == 0 {
        screen
    } else {
        apply(apply_all(screen, actions.drop_last()), actions.last())
    }
}

/// The geometry that the last placement of the window in the list gives it.
pub open spec fn last_placed(actions: Seq<Action>, window: u32) -> Option<Area>
    decreases actions.len(),
{
    if actions.len() == 0 {
        None
    } else {
        match actions.last() {
            Action::MoveResize { window: placed, area } if placed == window => Some(area),
            _ => last_placed(actions.drop_last(), window),
        }
    }
}

/// Whether the last request in the list that shows or hides the window
/// shows it.
pub open spec fn last_shown(actions: Seq<Action>, window: u32) -> Option<bool>
    decreases actions.len(),
{
    if actions.len() == 0 {
        None
    } else {
        match actions.last() {
            Action::MapWindow { window: shown } if shown == window => Some(true),
            Action::UnmapWindow { window: hidden } if hidden == window => Some(false),
            _ => last_shown(actions.drop_last(), window),
        }
    }
}

/// After a list of requests a window is where its last placement put it and
/// shown as the last request on it said; a window that the list does not
/// touch is as it was.
pub proof fn lemma_apply_all(screen: Screen, actions: Seq<Action>, window: u32)
    ensures
        match last_placed(actions, window) {
            Some(area) => apply_all(screen, actions).geometry.contains_key(window) && apply_all(
                screen,
                actions,
            ).geometry[window] == area,
            None => apply_all(screen, actions).geometry.contains_key(window)
                == screen.geometry.contains_key(window) && apply_all(screen, actions).geometry[window]
                == screen.geometry[window],
        },
        match last_shown(actions, window) {
            Some(shown) => apply_all(screen, actions).mapped.contains(window) == shown,
            None => apply_all(screen, actions).mapped.contains(window) == screen.mapped.contains(
                window,
            ),
        },
    decreases actions.len(),
{
    if actions.len() > 0 {
        lemma_apply_all(screen, actions.drop_last(), window);
    }
}

/// Making the same requests a second time changes nothing on the screen.
pub proof fn lemma_apply_twice(screen: Screen, actions: Seq<Action>)
    ensures
        apply_all(apply_all(screen, actions), actions) == apply_all(screen, actions),
{
    let once = apply_all(screen, actions);
    let twice = apply_all(once, actions);
    assert forall|window: u32| #[trigger]
        twice.geometry.dom().contains(window) == once.geometry.dom().contains(window) by {
        lemma_apply_all(screen, actions, window);
        lemma_apply_all(once, actions, window);
    }
    assert forall|window: u32| #[trigger]
        once.geometry.dom().contains(window) implies twice.geometry[window]
        == once.geometry[window] by {
        lemma_apply_all(screen, actions, window);
        lemma_apply_all(once, actions, window);
    }
    assert forall|window: u32| #[trigger]
        twice.mapped.contains(window) == once.mapped.contains(window) by {
        lemma_apply_all(screen, actions, window);
        lemma_apply_all(once, actions, window);
    }
    assert(twice.geometry =~= once.geometry);
    assert(twice.mapped =~= once.mapped);
}

/// Tiling twice leaves every window where tiling once put it, and shown or
/// hidden as tiling once left it.
pub proof fn lemma_tile_twice(set: WorkspaceSet, area: Area, gaps: u16, screen: Screen)
    ensures
        apply_all(apply_all(screen, plan(set, area, gaps)), plan(set, area, gaps)) == apply_all(
            screen,
            plan(set, area, gaps),
        ),
{
    lemma_apply_twice(screen, plan(set, area, gaps));
}

} // verus!
