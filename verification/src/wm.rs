//! The engine: the monitors with their workspaces, the configuration and the
//! drag in progress, driven by control messages and X events.

use std::collections::HashSet;
use vstd::prelude::*;
use crate::action::Action;
use crate::area::Area;
use crate::client::{announces_dock, has_type, Client, State, WindowType};
use crate::config::{Borders, Config};
use crate::dispatch::{
    borders_upto, capped, configured, first_of, lemma_first_of, lemma_noted_all, low16, lowered, moved, moves_float, paint_upto, raised,
    repaints, retiles, shifted, wants_focus, wants_pointer, Atoms, Sight, WmView,
};
use crate::event::{Event, EventKind, EventType};
use crate::grab::Grab;
use crate::monitors::{wf, Monitor, MonitorView, Monitors};
use crate::proto::{Request, Sequence};
use crate::workspaces::{lemma_position, position, WorkspaceSet};

verus! {

broadcast use vstd::std_specs::hash::group_hash_axioms;

/// Something to look up on the server before an event or a message can be
/// handled.
#[derive(Debug, Clone, Copy, PartialEq, Eq, Structural)]
pub enum Query {
    /// Which window has the input focus.
    InputFocus,
    /// Where the pointer is on the root window.
    Pointer,
    /// Which window types the window announces.
    WindowType { window: u32 },
    /// The window's geometry.
    Geometry { window: u32 },
}

/// What was looked up on the server for one event or message.
pub struct Observed {
    pub focus: Option<u32>,
    pub pointer: Option<(u16, u16)>,
    pub types: Option<Vec<WindowType>>,
    pub geometry: Option<Area>,
}

impl View for Observed {
    type V = Sight;

    open spec fn view(&self) -> Sight {
        Sight {
            focus: match self.focus {
                Some(focus) => focus,
                None => 0,
            },
            x: match self.pointer {
                Some(pointer) => pointer.0,
                None => 0,
            },
            y: match self.pointer {
                Some(pointer) => pointer.1,
                None => 0,
            },
            types: match self.types {
                Some(types) => types@,
                None => Seq::empty(),
            },
            geometry: match self.geometry {
                Some(geometry) => geometry,
                None => Area { x: 0, y: 0, width: 0, height: 0 },
            },
        }
    }
}

impl Observed {
    /// Nothing looked up yet.
    pub fn new() -> (seen: Observed)
        ensures
            seen.focus is None,
            seen.pointer is None,
            seen.types is None,
            seen.geometry is None,
    {
        Observed { focus: None, pointer: None, types: None, geometry: None }
    }

    /// The window with the input focus.
    pub fn focus_window(&self) -> (focus: u32)
        ensures
            focus == self@.focus,
    {
        match self.focus {
            Some(focus) => focus,
            None => 0,
        }
    }

    /// The pointer's place on the root window.
    pub fn pointer_at(&self) -> (pointer: (u16, u16))
        ensures
            pointer == (self@.x, self@.y),
    {
        match self.pointer {
            Some(pointer) => pointer,
            None => (0, 0),
        }
    }

    /// The geometry that was looked up.
    pub fn geometry_seen(&self) -> (geometry: Area)
        ensures
            geometry == self@.geometry,
    {
        match self.geometry {
            Some(geometry) => geometry,
            None => Area { x: 0, y: 0, width: 0, height: 0 },
        }
    }

    /// Whether the window types announce a dock.
    pub fn is_dock(&self) -> (dock: bool)
        ensures
            dock == announces_dock(self@.types),
    {
        match &self.types {
            Some(types) => has_type(types.as_slice(), WindowType::Dock),
            None => false,
        }
    }

    /// The state that a window with these window types starts in.
    pub fn initial_state(&self) -> (state: State)
        ensures
            state == State::initial(self@.types),
    {
        match &self.types {
            Some(types) => State::from(types.as_slice()),
            None => {
                assert(self@.types =~= Seq::<WindowType>::empty());
                State::Tiled
            },
        }
    }
}

/// What is to be looked up next before the message can be handled: the
/// input focus, then the pointer, then the window types of the focused
/// window or its geometry, each only where the message needs it and it was
/// not looked up yet.
pub open spec fn sequence_query(wm: WmView, sequence: Sequence, seen: Observed) -> Option<Query> {
    if wants_focus(sequence.request) && seen.focus is None {
        Some(Query::InputFocus)
    } else if wants_pointer(sequence.request) && seen.pointer is None {
        Some(Query::Pointer)
    } else if repaints(sequence.request) && wm.focusable(seen@.focus) && seen.types is None {
        Some(Query::WindowType { window: seen@.focus })
    } else if moves_float(sequence.request) && wm.floats_under(seen@) && seen.geometry is None {
        Some(Query::Geometry { window: seen@.focus })
    } else {
        None
    }
}

/// What is to be looked up next before the event can be handled.
pub open spec fn event_query(wm: WmView, event: Event, seen: Observed) -> Option<Query> {
    match event {
        Event::MapRequest { window } => if seen.types is None {
            Some(Query::WindowType { window })
        } else if !announces_dock(seen@.types) && seen.pointer is None {
            Some(Query::Pointer)
        } else {
            None
        },
        Event::EnterNotify { window } | Event::FocusIn { window } => if wm.focusable(window)
            && seen.types is None {
            Some(Query::WindowType { window })
        } else {
            None
        },
        Event::ConfigureRequest { window } => if seen.types is None {
            Some(Query::WindowType { window })
        } else {
            None
        },
        Event::ButtonEvent { kind: EventKind::Press, subwindow, .. } => if wm.drags(subwindow)
            && seen.geometry is None {
            Some(Query::Geometry { window: subwindow })
        } else {
            None
        },
        _ => None,
    }
}

/// What is to be looked up next before the entry of the event queue can be
/// handled.
pub open spec fn query(wm: WmView, input: EventType, seen: Observed) -> Option<Query> {
    match input {
        EventType::XEvent(event) => event_query(wm, event, seen),
        EventType::Config(sequence) => sequence_query(wm, sequence, seen),
    }
}

/// Executable `low16`.
fn low_bits(value: u32) -> (amount: u16)
    ensures
        amount == low16(value),
{
    (value % 0x1_0000) as u16
}

/// `rows * columns + offset` as a 32-bit number, held at the largest one.
fn cap(rows: usize, columns: usize, offset: usize) -> (count: u32)
    ensures
        count == capped(rows * columns + offset),
{
    assert(rows * columns <= 0xffff_ffff_ffff_ffff * 0xffff_ffff_ffff_ffff) by (nonlinear_arith)
        requires
            rows <= 0xffff_ffff_ffff_ffff,
            columns <= 0xffff_ffff_ffff_ffff,
    ;
    let count: u128 = rows as u128 * columns as u128 + offset as u128;
    if count > u32::MAX as u128 {
        u32::MAX
    } else {
        count as u32
    }
}

/// Executable `retiles`.
fn is_retiling(request: Request) -> (retiling: bool)
    ensures
        retiling == retiles(request),
{
    match request {
        Request::PaddingTop | Request::PaddingBottom | Request::PaddingLeft
        | Request::PaddingRight => true,
        Request::WindowGaps | Request::FloatToggle | Request::MonitorCirculate => true,
        _ => false,
    }
}

/// Executable `repaints`.
fn is_repainting(request: Request) -> (repainting: bool)
    ensures
        repainting == repaints(request),
{
    match request {
        Request::FocusedBorder | Request::NormalBorder | Request::BorderWidth => true,
        _ => false,
    }
}

/// Executable `moves_float`.
fn is_moving(request: Request) -> (moving: bool)
    ensures
        moving == moves_float(request),
{
    match request {
        Request::FloatLeft | Request::FloatRight | Request::FloatUp | Request::FloatDown => true,
        Request::ResizeLeft | Request::ResizeRight | Request::ResizeUp | Request::ResizeDown => true,
        _ => false,
    }
}

/// Executable `wants_focus`.
fn needs_focus(request: Request) -> (needed: bool)
    ensures
        needed == wants_focus(request),
{
    match request {
        Request::Kill | Request::Close => true,
        Request::FocusUp | Request::FocusDown | Request::FocusMaster => true,
        Request::FocusedBorder | Request::NormalBorder | Request::BorderWidth => true,
        Request::FloatToggle | Request::MonitorCirculate => true,
        _ => is_moving(request),
    }
}

/// Executable `wants_pointer`.
fn needs_pointer(request: Request) -> (needed: bool)
    ensures
        needed == wants_pointer(request),
{
    match request {
        Request::Workspace | Request::Kill | Request::Close => true,
        Request::FocusUp | Request::FocusDown | Request::FocusMaster => true,
        Request::FloatToggle => true,
        _ => is_moving(request),
    }
}

/// Executable `raised`.
fn raise(from: u16, by: u32) -> (to: u16)
    ensures
        to == raised(from, by),
{
    let sum: u64 = from as u64 + by as u64;
    if sum > u16::MAX as u64 {
        u16::MAX
    } else {
        sum as u16
    }
}

/// Executable `lowered`.
fn lower(from: u16, by: u32) -> (to: u16)
    ensures
        to == lowered(from, by),
{
    if by >= from as u32 {
        0
    } else {
        from - by as u16
    }
}

/// The geometry of a floating client after a move or resize request by
/// `value`.
pub fn transform(request: Request, value: u32, from: Area) -> (to: Area)
    ensures
        to == moved(request, value, from),
{
    match request {
        Request::FloatLeft => Area { x: lower(from.x, value), ..from },
        Request::FloatRight => Area { x: raise(from.x, value), ..from },
        Request::FloatUp => Area { y: lower(from.y, value), ..from },
        Request::FloatDown => Area { y: raise(from.y, value), ..from },
        Request::ResizeLeft => Area { width: lower(from.width, value), ..from },
        Request::ResizeRight => Area { width: raise(from.width, value), ..from },
        Request::ResizeUp => Area { height: lower(from.height, value), ..from },
        Request::ResizeDown => Area { height: raise(from.height, value), ..from },
        _ => from,
    }
}

/// The configuration after a message.
pub fn configure(config: Config, sequence: Sequence) -> (after: Config)
    ensures
        after == configured(config, sequence),
{
    let amount = low_bits(sequence.value);
    let mut after = config;
    match sequence.request {
        Request::PaddingTop => {
            after.padding.top = amount;
        },
        Request::PaddingBottom => {
            after.padding.bottom = amount;
        },
        Request::PaddingLeft => {
            after.padding.left = amount;
        },
        Request::PaddingRight => {
            after.padding.right = amount;
        },
        Request::WindowGaps => {
            after.windows.gaps = amount;
        },
        Request::FocusedBorder => {
            after.windows.borders.focused = sequence.value;
        },
        Request::NormalBorder => {
            after.windows.borders.normal = sequence.value;
        },
        Request::BorderWidth => {
            after.windows.borders.width = amount;
        },
        Request::EnableMouse => {
            after.windows.mouse_movement = true;
        },
        Request::DisableMouse => {
            after.windows.mouse_movement = false;
        },
        _ => {},
    }
    after
}

/// One position up, but not above the first.
fn up(index: usize) -> (to: usize)
    ensures
        to == shifted(Request::FocusUp, index as int),
{
    if index < 1 {
        0
    } else {
        index - 1
    }
}

/// One position down.
fn down(index: usize) -> (to: usize)
    requires
        index < usize::MAX,
    ensures
        to == shifted(Request::FocusDown, index as int),
{
    index + 1
}

/// The first position.
fn master(index: usize) -> (to: usize)
    ensures
        to == shifted(Request::FocusMaster, index as int),
{
    0
}

/// The client itself.
fn keep(client: Client) -> (same: Client)
    ensures
        same == client,
{
    client
}

/// Width and normal colour for each client.
fn paint(actions: &mut Vec<Action>, clients: &Vec<Client>, borders: Borders)
    ensures
        final(actions)@ == old(actions)@ + paint_upto(clients@, borders, clients@.len() as int),
{
    let mut i: usize = 0;
    while i < clients.len()
        invariant
            i <= clients@.len(),
            actions@ == old(actions)@ + paint_upto(clients@, borders, i as int),
        decreases clients@.len() - i,
    {
        let window = clients[i].window;
        actions.push(Action::SetBorderWidth { window, width: borders.width });
        actions.push(Action::SetBorderPixel { window, pixel: borders.normal });
        i += 1;
        assert(actions@ =~= old(actions)@ + paint_upto(clients@, borders, i as int));
    }
}

/// The engine's state.
pub struct WindowManager {
    atoms: Atoms,
    monitors: Monitors,
    config: Config,
    grab: Option<Grab>,
    should_close: bool,
    shown: HashSet<u32>,
    hiding: Vec<u32>,
}

impl View for WindowManager {
    type V = WmView;

    closed spec fn view(&self) -> WmView {
        WmView {
            root: self.monitors.root_id(),
            atoms: self.atoms,
            monitors: self.monitors@,
            config: self.config,
            grab: self.grab,
            should_close: self.should_close,
            shown: self.shown@,
            hiding: self.hiding@,
        }
    }
}

impl WindowManager {
    /// The engine at startup: no monitor, every setting zero, no drag.
    pub fn new(root: u32, atoms: Atoms) -> (wm: WindowManager)
        ensures
            wm@ == WmView::initial(root, atoms),
            wm@.wf(),
    {
        WindowManager {
            atoms,
            monitors: Monitors::new(root),
            config: Config::default(),
            grab: None,
            should_close: false,
            shown: HashSet::new(),
            hiding: Vec::new(),
        }
    }

    /// Adds a monitor that shows `area` and has no workspace yet.
    pub fn add_monitor(&mut self, area: Area)
        requires
            old(self)@.wf(),
        ensures
            final(self)@ == (WmView {
                monitors: old(self)@.monitors.push(
                    MonitorView { area, workspace: WorkspaceSet::vacant() },
                ),
                ..old(self)@
            }),
            final(self)@.wf(),
    {
        let monitor = Monitor::new(area);
        assert forall|wid: u32| !(#[trigger] monitor@.workspace.tracks(wid)) by {}
        self.monitors.append(monitor);
    }

    /// The root window's id.
    pub fn root(&self) -> (root: u32)
        ensures
            root == self@.root,
    {
        self.monitors.root()
    }

    /// The monitors.
    pub fn monitors(&self) -> (monitors: &Monitors)
        ensures
            monitors@ == self@.monitors,
    {
        &self.monitors
    }

    /// The configuration.
    pub fn config(&self) -> (config: Config)
        ensures
            config == self@.config,
    {
        self.config
    }

    /// The drag in progress, if there is one.
    pub fn grab(&self) -> (grab: Option<Grab>)
        ensures
            grab == self@.grab,
    {
        self.grab
    }

    /// Whether the main loop is to end.
    pub fn should_close(&self) -> (should_close: bool)
        ensures
            should_close == self@.should_close,
    {
        self.should_close
    }

    /// What the tiler asks for all monitors.
    pub fn tile(&self) -> (actions: Vec<Action>)
        ensures
            actions@ == self@.tiling(),
    {
        self.monitors.tile(self.config.padding, self.config.windows.gaps)
    }

    /// The border repaint for `window`, whose window types were looked up.
    pub fn set_border(&self, window: u32, seen: &Observed) -> (actions: Vec<Action>)
        ensures
            actions@ == self@.repaint(window, seen@.types),
    {
        let mut actions: Vec<Action> = Vec::new();
        if !seen.is_dock() {
            let borders = self.config.windows.borders;
            let len = self.monitors.len();
            let mut m: usize = 0;
            while m < len
                invariant
                    m <= len,
                    len == self@.monitors.len(),
                    borders == self@.config.windows.borders,
                    actions@ == borders_upto(self@.monitors, borders, m as int),
                decreases len - m,
            {
                let workspace = self.monitors.monitor(m).workspace();
                let clients = workspace.map_clients(keep);
                assert(clients@ =~= workspace@.clients());
                paint(&mut actions, &clients, borders);
                m += 1;
            }
            actions.push(Action::SetBorderPixel { window, pixel: borders.focused });
        }
        actions
    }

    /// What a message asks on monitor `m`, which is under the pointer.
    pub fn monitor_actions(&self, sequence: Sequence, seen: &Observed, m: usize) -> (actions: Vec<
        Action,
    >)
        requires
            m < self@.monitors.len(),
        ensures
            actions@ == self@.monitor_actions(sequence, seen@, m as int),
    {
        let focus = seen.focus_window();
        let workspace = self.monitors.monitor(m).workspace();
        let mut actions: Vec<Action> = Vec::new();
        proof {
            lemma_position(workspace@.visible(), focus);
            workspace.lemma_visible_fits();
        }
        match sequence.request {
            Request::Workspace => {
                if workspace.len() > 0 {
                    actions.push(
                        Action::SetCurrentDesktop {
                            desktop: cap(workspace.len(), m, workspace.current()),
                        },
                    );
                }
                let mut plan = self.monitors.tile_monitor(
                    m,
                    self.config.padding,
                    self.config.windows.gaps,
                );
                actions.append(&mut plan);
                assert(actions@ =~= self@.monitor_actions(sequence, seen@, m as int));
            },
            Request::Kill => {
                if workspace.find(focus).is_some() {
                    actions.push(Action::Kill { window: focus });
                }
                assert(actions@ =~= self@.monitor_actions(sequence, seen@, m as int));
            },
            Request::Close => {
                if workspace.find(focus).is_some() {
                    actions.push(
                        Action::ClientMessage {
                            window: focus,
                            kind: self.atoms.wm_protocols,
                            first: self.atoms.wm_delete,
                        },
                    );
                }
            },
            Request::FocusUp => {
                if let Some(window) = workspace.change_focus(focus, up) {
                    actions.push(Action::SetInputFocus { window });
                }
                assert(actions@ =~= self@.monitor_actions(sequence, seen@, m as int));
            },
            Request::FocusDown => {
                if let Some(window) = workspace.change_focus(focus, down) {
                    actions.push(Action::SetInputFocus { window });
                }
            },
            Request::FocusMaster => {
                if let Some(window) = workspace.change_focus(focus, master) {
                    actions.push(Action::SetInputFocus { window });
                }
            },
            _ => {
                if is_moving(sequence.request) && workspace.is_float(focus) {
                    actions.push(
                        Action::MoveResize {
                            window: focus,
                            area: transform(
                                sequence.request,
                                sequence.value,
                                seen.geometry_seen(),
                            ),
                        },
                    );
                }
            },
        }
        assert(actions@ =~= self@.monitor_actions(sequence, seen@, m as int));
        actions
    }

    /// What a message asks on the monitors under the pointer.
    pub fn focused_actions(&self, sequence: Sequence, seen: &Observed) -> (actions: Vec<Action>)
        ensures
            actions@ == self@.focused_actions(sequence, seen@),
    {
        let (x, y) = seen.pointer_at();
        let mut actions: Vec<Action> = Vec::new();
        let len = self.monitors.len();
        let mut m: usize = 0;
        while m < len
            invariant
                m <= len,
                len == self@.monitors.len(),
                x == seen@.x,
                y == seen@.y,
                actions@ == self@.focused_actions_upto(sequence, seen@, m as int),
            decreases len - m,
        {
            if self.monitors.monitor(m).area().contains(x, y) {
                let mut more = self.monitor_actions(sequence, seen, m);
                actions.append(&mut more);
            }
            m += 1;
        }
        actions
    }

    /// Whether some monitor under the pointer shows the window with the
    /// input focus as a floating client.
    pub fn floats_under(&self, seen: &Observed) -> (floats: bool)
        ensures
            floats == self@.floats_under(seen@),
    {
        let focus = seen.focus_window();
        let (x, y) = seen.pointer_at();
        let len = self.monitors.len();
        let mut m: usize = 0;
        while m < len
            invariant
                m <= len,
                len == self@.monitors.len(),
                focus == seen@.focus,
                x == seen@.x,
                y == seen@.y,
                forall|k: int|
                    0 <= k < m ==> !((#[trigger] self@.monitors[k]).area.covers(x as int, y as int)
                        && self@.monitors[k].workspace.floats(focus)),
            decreases len - m,
        {
            let monitor = self.monitors.monitor(m);
            if monitor.area().contains(x, y) && monitor.workspace().is_float(focus) {
                return true;
            }
            m += 1;
        }
        false
    }

    /// What is to be looked up on the server next before `input` can be
    /// handled, given what was looked up so far; nothing once all is there.
    pub fn next_query(&self, input: EventType, seen: &Observed) -> (next: Option<Query>)
        ensures
            next == query(self@, input, *seen),
    {
        match input {
            EventType::Config(sequence) => {
                let request = sequence.request;
                let focus = seen.focus_window();
                if needs_focus(request) && seen.focus.is_none() {
                    Some(Query::InputFocus)
                } else if needs_pointer(request) && seen.pointer.is_none() {
                    Some(Query::Pointer)
                } else if is_repainting(request) && focus != self.monitors.root() && focus > 1
                    && seen.types.is_none() {
                    Some(Query::WindowType { window: focus })
                } else if is_moving(request) && seen.geometry.is_none() && self.floats_under(seen) {
                    Some(Query::Geometry { window: focus })
                } else {
                    None
                }
            },
            EventType::XEvent(event) => match event {
                Event::MapRequest { window } => {
                    if seen.types.is_none() {
                        Some(Query::WindowType { window })
                    } else if !seen.is_dock() && seen.pointer.is_none() {
                        Some(Query::Pointer)
                    } else {
                        None
                    }
                },
                Event::EnterNotify { window } | Event::FocusIn { window } => {
                    if window != self.monitors.root() && window > 1 && seen.types.is_none() {
                        Some(Query::WindowType { window })
                    } else {
                        None
                    }
                },
                Event::ConfigureRequest { window } => {
                    if seen.types.is_none() {
                        Some(Query::WindowType { window })
                    } else {
                        None
                    }
                },
                Event::ButtonEvent { kind: EventKind::Press, subwindow, .. } => {
                    if seen.geometry.is_none() && !self.monitors.is_tiled(subwindow)
                        && self.config.windows.mouse_movement {
                        Some(Query::Geometry { window: subwindow })
                    } else {
                        None
                    }
                },
                _ => None,
            },
        }
    }

    /// Handles one control message: changes the state as the message says
    /// and returns what is to be asked of the server, in order.
    pub fn handle_sequence(&mut self, sequence: Sequence, seen: &Observed) -> (actions: Vec<Action>)
        requires
            old(self)@.wf(),
        ensures
            final(self)@ == old(self)@.after_sequence(sequence, seen@),
            actions@ == old(self)@.sequence_actions(sequence, seen@),
            final(self)@.wf(),
    {
        let focus = seen.focus_window();
        let (x, y) = seen.pointer_at();
        let count = self.monitors.len();
        self.config = configure(self.config, sequence);
        match sequence.request {
            Request::Workspace => {
                self.monitors.switch_focused(x, y, sequence.value);
            },
            Request::FloatToggle => {
                self.monitors.toggle_focused(x, y, focus);
            },
            Request::WorkspacePerMonitor => {
                self.monitors.resize(sequence.value as usize);
            },
            Request::MonitorCirculate => {
                self.monitors.circulate(focus);
            },
            Request::Quit => {
                self.should_close = true;
            },
            _ => {},
        }
        if is_retiling(sequence.request) {
            self.tile()
        } else if is_repainting(sequence.request) {
            self.update_borders(seen)
        } else if sequence.request == Request::WorkspacePerMonitor {
            let mut actions: Vec<Action> = Vec::new();
            actions.push(
                Action::SetNumberOfDesktops { desktops: cap(sequence.value as usize, count, 0) },
            );
            assert(actions@ =~= old(self)@.sequence_actions(sequence, seen@));
            actions
        } else if needs_pointer(sequence.request) {
            self.focused_actions(sequence, seen)
        } else {
            Vec::new()
        }
    }

    /// Handles one X event: changes the state as the event says and returns
    /// what is to be asked of the server, in order.
    pub fn handle_event(&mut self, event: Event, seen: &Observed) -> (actions: Vec<Action>)
        requires
            old(self)@.wf(),
        ensures
            final(self)@ == old(self)@.after_event(event, seen@),
            actions@ == old(self)@.event_actions(event, seen@),
            final(self)@.wf(),
    {
        let mut actions: Vec<Action> = Vec::new();
        match event {
            Event::MapRequest { window } => {
                actions.push(Action::SelectInput { window });
                actions.push(Action::MapWindow { window });
                if !seen.is_dock() {
                    actions.push(Action::SetInputFocus { window });
                    let mut borders = self.set_border(window, seen);
                    actions.append(&mut borders);
                    let (x, y) = seen.pointer_at();
                    self.monitors.adopt(x, y, Client { window, state: seen.initial_state() });
                    let mut plan = self.tile();
                    actions.append(&mut plan);
                }
            },
            Event::UnmapNotify { window } => {
                self.monitors.extract_client(window);
                self.shown.remove(&window);
                actions = self.tile();
            },
            Event::EnterNotify { window } => {
                if window != self.monitors.root() && window > 1 && !seen.is_dock() {
                    actions.push(Action::SetInputFocus { window });
                }
            },
            Event::FocusIn { window } => {
                if window != self.monitors.root() && window > 1 {
                    actions = self.set_border(window, seen);
                }
            },
            Event::ButtonEvent { kind: EventKind::Press, root_x, root_y, subwindow, button } => {
                if !self.monitors.is_tiled(subwindow) && self.config.windows.mouse_movement {
                    actions.push(Action::Raise { window: subwindow });
                    actions.push(Action::GrabPointer { window: subwindow });
                    self.grab = Some(
                        Grab::new(button, subwindow, seen.geometry_seen(), root_x, root_y),
                    );
                }
            },
            Event::ButtonEvent { kind: EventKind::Release, .. } => {
                if self.grab.is_some() {
                    actions.push(Action::UngrabPointer);
                    self.grab = None;
                }
            },
            Event::MotionNotify { root_x, root_y } => {
                if let Some(grab) = self.grab {
                    actions = grab.moved(root_x, root_y);
                }
            },
            Event::ConfigureRequest { window } => {
                if seen.is_dock() {
                    actions.push(Action::Configure { window });
                }
            },
            Event::Other => {},
        }
        assert(actions@ =~= old(self)@.event_actions(event, seen@));
        actions
    }

    /// Takes down the requests that are handed out: which windows are shown
    /// now and which hides are under way.
    fn note(&mut self, actions: &Vec<Action>)
        ensures
            final(self)@ == old(self)@.noted_all(actions@),
    {
        let mut i: usize = 0;
        assert(actions@.subrange(0, 0) =~= Seq::<Action>::empty());
        while i < actions.len()
            invariant
                i <= actions@.len(),
                self@ == old(self)@.noted_all(actions@.subrange(0, i as int)),
            decreases actions@.len() - i,
        {
            let ghost before = self@;
            let action = actions[i];
            assert(actions@.subrange(0, i as int + 1).drop_last() =~= actions@.subrange(0, i as int));
            assert(actions@.subrange(0, i as int + 1).last() == action);
            match action {
                Action::MapWindow { window } => {
                    self.shown.insert(window);
                },
                Action::UnmapWindow { window } => {
                    if self.shown.remove(&window) {
                        self.hiding.push(window);
                    } else {
                        assert(self.shown@ =~= before.shown);
                    }
                },
                _ => {},
            }
            assert(self@ == before.noted(action));
            i += 1;
        }
        assert(actions@.subrange(0, actions@.len() as int) =~= actions@);
    }

    /// Whether a hide of the window that the engine asked for itself is
    /// under way; if so, the oldest such hide is taken off the record.
    fn echo(&mut self, window: u32) -> (echo: bool)
        ensures
            echo == (first_of(old(self)@.hiding, window) is Some),
            final(self)@ == old(self)@.echoed(window),
    {
        let mut i: usize = 0;
        while i < self.hiding.len()
            invariant
                i <= self.hiding@.len(),
                self@ == old(self)@,
                forall|k: int| 0 <= k < i ==> self.hiding@[k] != window,
            decreases self.hiding@.len() - i,
        {
            if self.hiding[i] == window {
                proof {
                    lemma_first_of(self.hiding@, window);
                }
                self.hiding.remove(i);
                return true;
            }
            i += 1;
        }
        proof {
            lemma_first_of(self.hiding@, window);
        }
        false
    }

    /// Handles one entry of the event queue. An unmap notification that
    /// answers the engine's own hide of a window is taken off the record of
    /// hides under way and changes nothing else; every other entry is handed
    /// to `handle_event` or `handle_sequence`, and the requests that come
    /// back are taken down.
    pub fn handle(&mut self, input: EventType, seen: &Observed) -> (actions: Vec<Action>)
        requires
            old(self)@.wf(),
        ensures
            final(self)@ == old(self)@.after(input, seen@),
            actions@ == old(self)@.actions(input, seen@),
            final(self)@.wf(),
    {
        if let EventType::XEvent(Event::UnmapNotify { window }) = input {
            if self.echo(window) {
                return Vec::new();
            }
        }
        let actions = match input {
            EventType::XEvent(event) => self.handle_event(event, seen),
            EventType::Config(sequence) => self.handle_sequence(sequence, seen),
        };
        proof {
            lemma_noted_all(self@, actions@);
        }
        self.note(&actions);
        actions
    }

    /// The border repaint for the window with the input focus.
    pub fn update_borders(&self, seen: &Observed) -> (actions: Vec<Action>)
        ensures
            actions@ == self@.border_update(seen@),
    {
        let focus = seen.focus_window();
        if focus != self.monitors.root() && focus > 1 {
            self.set_border(focus, seen)
        } else {
            Vec::new()
        }
    }
}

} // verus!
