//! What a control message or an X event does to the engine's state and what
//! it asks of the X server, as functions of the state before and of what was
//! observed on the server.

use vstd::prelude::*;
use crate::action::Action;
use crate::area::Area;
use crate::client::{announces_dock, Client, State, WindowType};
use crate::config::{Borders, Config, Padding, Windows};
use crate::event::{Event, EventKind, EventType};
use crate::grab::Grab;
use crate::monitors::{
    adopted, circulated, extracted, known, lemma_extracted, monitor_plan, resized, switched_at,
    tiled, tiling, toggled_at,
    wf, MonitorView,
};
use crate::proto::{Request, Sequence};
use crate::workspaces::{lemma_toggle_dock, lemma_toggle_twice, position, window_at, WorkspaceSet};

verus! {

/// The atoms with which a window is asked to close.
#[derive(Debug, Clone, Copy, PartialEq, Eq, Structural)]
pub struct Atoms {
    pub wm_delete: u32,
    pub wm_protocols: u32,
}

/// What was observed on the server for one event or message. A part that
/// was not asked for holds zero or nothing.
pub struct Sight {
    /// The window that has the input focus.
    pub focus: u32,
    /// The pointer on the root window.
    pub x: u16,
    pub y: u16,
    /// The window types of the window in question.
    pub types: Seq<WindowType>,
    /// The geometry of the window in question.
    pub geometry: Area,
}

/// The mathematical model of the engine's state.
pub struct WmView {
    pub root: u32,
    pub atoms: Atoms,
    pub monitors: Seq<MonitorView>,
    pub config: Config,
    pub grab: Option<Grab>,
    pub should_close: bool,
    /// The windows that the engine asked to show and has not asked to hide
    /// since.
    pub shown: Set<u32>,
    /// The windows that the engine asked to hide while they were shown and
    /// whose unmap notification has not come back yet, oldest first.
    pub hiding: Seq<u32>,
}

/// The first place at which `wid` stands in a list of window ids.
pub open spec fn first_of(windows: Seq<u32>, wid: u32) -> Option<int>
    decreases windows.len(),
{
    if windows.len() == 0 {
        None
    } else if windows.last() == wid && first_of(windows.drop_last(), wid) is None {
        Some(windows.len() - 1)
    } else {
        first_of(windows.drop_last(), wid)
    }
}

/// `first_of` finds the first place that holds the window id and finds none
/// only where there is none.
pub proof fn lemma_first_of(windows: Seq<u32>, wid: u32)
    ensures
        match first_of(windows, wid) {
            Some(index) => {
                &&& 0 <= index < windows.len()
                &&& windows[index] == wid
                &&& forall|k: int| 0 <= k < index ==> windows[k] != wid
            },
            None => forall|k: int| 0 <= k < windows.len() ==> windows[k] != wid,
        },
    decreases windows.len(),
{
    if windows.len() > 0 {
        let front = windows.drop_last();
        lemma_first_of(front, wid);
        assert forall|k: int| 0 <= k < front.len() implies front[k] == windows[k] by {}
        match first_of(front, wid) {
            Some(index) => {
                assert(front[index] == windows[index]);
            },
            None => {
                assert forall|k: int| 0 <= k < front.len() implies windows[k] != wid by {
                    assert(front[k] != wid);
                }
            },
        }
    }
}

/// The low 16 bits of a message's value.
pub open spec fn low16(value: u32) -> u16 {
    (value % 0x1_0000) as u16
}

/// A count as a 32-bit number, held at the largest one.
pub open spec fn capped(count: int) -> u32 {
    if count > u32::MAX {
        u32::MAX
    } else {
        count as u32
    }
}

/// The requests that act on the window with the input focus.
pub open spec fn wants_focus(request: Request) -> bool {
    match request {
        Request::Kill | Request::Close => true,
        Request::FocusUp | Request::FocusDown | Request::FocusMaster => true,
        Request::FocusedBorder | Request::NormalBorder | Request::BorderWidth => true,
        Request::FloatToggle | Request::MonitorCirculate => true,
        _ => moves_float(request),
    }
}

/// The requests that act on the monitor under the pointer.
pub open spec fn wants_pointer(request: Request) -> bool {
    match request {
        Request::Workspace | Request::Kill | Request::Close => true,
        Request::FocusUp | Request::FocusDown | Request::FocusMaster => true,
        Request::FloatToggle => true,
        _ => moves_float(request),
    }
}

/// The requests that change a border setting.
pub open spec fn repaints(request: Request) -> bool {
    match request {
        Request::FocusedBorder | Request::NormalBorder | Request::BorderWidth => true,
        _ => false,
    }
}

/// The requests that move or resize a floating client.
pub open spec fn moves_float(request: Request) -> bool {
    match request {
        Request::FloatLeft | Request::FloatRight | Request::FloatUp | Request::FloatDown => true,
        Request::ResizeLeft | Request::ResizeRight | Request::ResizeUp | Request::ResizeDown => true,
        _ => false,
    }
}

/// The requests after which every monitor is tiled anew.
pub open spec fn retiles(request: Request) -> bool {
    match request {
        Request::PaddingTop | Request::PaddingBottom | Request::PaddingLeft
        | Request::PaddingRight => true,
        Request::WindowGaps | Request::FloatToggle | Request::MonitorCirculate => true,
        _ => false,
    }
}

/// `from + by`, held at the upper end of the 16-bit range.
pub open spec fn raised(from: u16, by: u32) -> u16 {
    if from + by > u16::MAX {
        u16::MAX
    } else {
        (from + by) as u16
    }
}

/// `from - by`, held at zero.
pub open spec fn lowered(from: u16, by: u32) -> u16 {
    if by >= from {
        0
    } else {
        (from - by) as u16
    }
}

/// The geometry of a floating client after a move or resize request by
/// `value`, which counts in full: moving and growing stop at the upper end of
/// the 16-bit range, moving left or up stops at coordinate zero, shrinking at
/// extent zero.
pub open spec fn moved(request: Request, value: u32, from: Area) -> Area {
    match request {
        Request::FloatLeft => Area { x: lowered(from.x, value), ..from },
        Request::FloatRight => Area { x: raised(from.x, value), ..from },
        Request::FloatUp => Area { y: lowered(from.y, value), ..from },
        Request::FloatDown => Area { y: raised(from.y, value), ..from },
        Request::ResizeLeft => Area { width: lowered(from.width, value), ..from },
        Request::ResizeRight => Area { width: raised(from.width, value), ..from },
        Request::ResizeUp => Area { height: lowered(from.height, value), ..from },
        Request::ResizeDown => Area { height: raised(from.height, value), ..from },
        _ => from,
    }
}

/// The position that a focus request moves the focus to, from position
/// `index`: one up but not above the first, one down, or the first.
pub open spec fn shifted(request: Request, index: int) -> int {
    match request {
        Request::FocusUp => if index < 1 {
            0
        } else {
            index - 1
        },
        Request::FocusDown => index + 1,
        _ => 0,
    }
}

/// The configuration after a message.
pub open spec fn configured(config: Config, sequence: Sequence) -> Config {
    let amount = low16(sequence.value);
    match sequence.request {
        Request::PaddingTop => Config { padding: Padding { top: amount, ..config.padding }, ..config },
        Request::PaddingBottom => Config {
            padding: Padding { bottom: amount, ..config.padding },
            ..config
        },
        Request::PaddingLeft => Config {
            padding: Padding { left: amount, ..config.padding },
            ..config
        },
        Request::PaddingRight => Config {
            padding: Padding { right: amount, ..config.padding },
            ..config
        },
        Request::WindowGaps => Config { windows: Windows { gaps: amount, ..config.windows }, ..config },
        Request::FocusedBorder => Config {
            windows: Windows {
                borders: Borders { focused: sequence.value, ..config.windows.borders },
                ..config.windows
            },
            ..config
        },
        Request::NormalBorder => Config {
            windows: Windows {
                borders: Borders { normal: sequence.value, ..config.windows.borders },
                ..config.windows
            },
            ..config
        },
        Request::BorderWidth => Config {
            windows: Windows {
                borders: Borders { width: amount, ..config.windows.borders },
                ..config.windows
            },
            ..config
        },
        Request::EnableMouse => Config {
            windows: Windows { mouse_movement: true, ..config.windows },
            ..config
        },
        Request::DisableMouse => Config {
            windows: Windows { mouse_movement: false, ..config.windows },
            ..config
        },
        _ => config,
    }
}

/// The number under which the current workspace of monitor `m` is announced
/// as the current desktop.
pub open spec fn desktop_number(m: int, workspace: WorkspaceSet) -> u32 {
    capped(workspace.len() * m + workspace.current)
}

/// Width and normal colour for each of the first `upto` clients.
pub open spec fn paint_upto(clients: Seq<Client>, borders: Borders, upto: int) -> Seq<Action>
    decreases upto,
{
    if upto <= 0 {
        Seq::empty()
    } else {
        paint_upto(clients, borders, upto - 1) + seq![
            Action::SetBorderWidth { window: clients[upto - 1].window, width: borders.width },
            Action::SetBorderPixel { window: clients[upto - 1].window, pixel: borders.normal },
        ]
    }
}

/// Width and normal colour for every client of every workspace of the first
/// `upto` monitors.
pub open spec fn borders_upto(monitors: Seq<MonitorView>, borders: Borders, upto: int) -> Seq<Action>
    decreases upto,
{
    if upto <= 0 {
        Seq::empty()
    } else {
        borders_upto(monitors, borders, upto - 1) + paint_upto(
            monitors[upto - 1].workspace.clients(),
            borders,
            monitors[upto - 1].workspace.clients().len() as int,
        )
    }
}

impl WmView {
    /// The monitors are well-formed: every current index is in range and no
    /// window id appears twice.
    pub open spec fn wf(self) -> bool {
        wf(self.monitors)
    }

    /// The state at startup.
    pub open spec fn initial(root: u32, atoms: Atoms) -> WmView {
        WmView {
            root,
            atoms,
            monitors: Seq::empty(),
            config: Config::initial(),
            grab: None,
            should_close: false,
            shown: Set::empty(),
            hiding: Seq::empty(),
        }
    }

    /// What the tiler asks for all monitors.
    pub open spec fn tiling(self) -> Seq<Action> {
        tiling(self.monitors, self.config.padding, self.config.windows.gaps)
    }

    /// The border repaint for `window`: unless the window announces a dock,
    /// every client gets the border width and the normal colour, then
    /// `window` gets the focused colour.
    pub open spec fn repaint(self, window: u32, types: Seq<WindowType>) -> Seq<Action> {
        if announces_dock(types) {
            Seq::empty()
        } else {
            borders_upto(self.monitors, self.config.windows.borders, self.monitors.len() as int).push(
                Action::SetBorderPixel { window, pixel: self.config.windows.borders.focused },
            )
        }
    }

    /// Whether `window` is a window to give the focus or the focused colour
    /// to: not the root window and no id below two.
    pub open spec fn focusable(self, window: u32) -> bool {
        window != self.root && window > 1
    }

    /// The border repaint for the window with the input focus.
    pub open spec fn border_update(self, sight: Sight) -> Seq<Action> {
        if self.focusable(sight.focus) {
            self.repaint(sight.focus, sight.types)
        } else {
            Seq::empty()
        }
    }

    /// What a message asks on monitor `m`, which is under the pointer.
    pub open spec fn monitor_actions(self, sequence: Sequence, sight: Sight, m: int) -> Seq<Action> {
        let workspace = self.monitors[m].workspace;
        let at = position(workspace.visible(), sight.focus);
        match sequence.request {
            Request::Workspace => (if workspace.len() > 0 {
                seq![Action::SetCurrentDesktop { desktop: desktop_number(m, workspace) }]
            } else {
                Seq::empty()
            }) + monitor_plan(self.monitors[m], self.config.padding, self.config.windows.gaps),
            Request::Kill => if at is Some {
                seq![Action::Kill { window: sight.focus }]
            } else {
                Seq::empty()
            },
            Request::Close => if at is Some {
                seq![
                    Action::ClientMessage {
                        window: sight.focus,
                        kind: self.atoms.wm_protocols,
                        first: self.atoms.wm_delete,
                    },
                ]
            } else {
                Seq::empty()
            },
            Request::FocusUp | Request::FocusDown | Request::FocusMaster => match at {
                Some(index) => match window_at(
                    workspace.visible(),
                    shifted(sequence.request, index),
                ) {
                    Some(window) => seq![Action::SetInputFocus { window }],
                    None => Seq::empty(),
                },
                None => Seq::empty(),
            },
            _ => if moves_float(sequence.request) && workspace.floats(sight.focus) {
                seq![
                    Action::MoveResize {
                        window: sight.focus,
                        area: moved(sequence.request, sequence.value, sight.geometry),
                    },
                ]
            } else {
                Seq::empty()
            },
        }
    }

    /// What a message asks on those of the first `upto` monitors that are
    /// under the pointer, one monitor after the other.
    pub open spec fn focused_actions_upto(self, sequence: Sequence, sight: Sight, upto: int) -> Seq<
        Action,
    >
        decreases upto,
    {
        if upto <= 0 {
            Seq::empty()
        } else if self.monitors[upto - 1].area.covers(sight.x as int, sight.y as int) {
            self.focused_actions_upto(sequence, sight, upto - 1) + self.monitor_actions(
                sequence,
                sight,
                upto - 1,
            )
        } else {
            self.focused_actions_upto(sequence, sight, upto - 1)
        }
    }

    /// What a message asks on the monitors under the pointer.
    pub open spec fn focused_actions(self, sequence: Sequence, sight: Sight) -> Seq<Action> {
        self.focused_actions_upto(sequence, sight, self.monitors.len() as int)
    }

    /// Whether some monitor under the pointer shows the window with the
    /// input focus as a floating client.
    pub open spec fn floats_under(self, sight: Sight) -> bool {
        exists|m: int|
            0 <= m < self.monitors.len() && (#[trigger] self.monitors[m]).area.covers(
                sight.x as int,
                sight.y as int,
            ) && self.monitors[m].workspace.floats(sight.focus)
    }

    /// The state after a control message.
    pub open spec fn after_sequence(self, sequence: Sequence, sight: Sight) -> WmView {
        WmView {
            monitors: match sequence.request {
                Request::Workspace => switched_at(self.monitors, sight.x, sight.y, sequence.value),
                Request::FloatToggle => toggled_at(self.monitors, sight.x, sight.y, sight.focus),
                Request::WorkspacePerMonitor => resized(self.monitors, sequence.value as int),
                Request::MonitorCirculate => circulated(self.monitors, sight.focus),
                _ => self.monitors,
            },
            config: configured(self.config, sequence),
            should_close: self.should_close || sequence.request == Request::Quit,
            ..self
        }
    }

    /// What a control message asks of the server.
    pub open spec fn sequence_actions(self, sequence: Sequence, sight: Sight) -> Seq<Action> {
        let after = self.after_sequence(sequence, sight);
        if retiles(sequence.request) {
            after.tiling()
        } else if repaints(sequence.request) {
            after.border_update(sight)
        } else if sequence.request == Request::WorkspacePerMonitor {
            seq![
                Action::SetNumberOfDesktops {
                    desktops: capped(sequence.value * self.monitors.len()),
                },
            ]
        } else if wants_pointer(sequence.request) {
            after.focused_actions(sequence, sight)
        } else {
            Seq::empty()
        }
    }

    /// Whether a button press over `window` starts a drag: mouse movement is
    /// switched on and some monitor shows the window as a floating client.
    pub open spec fn drags(self, window: u32) -> bool {
        !tiled(self.monitors, window) && self.config.windows.mouse_movement
    }

    /// The state after an X event.
    pub open spec fn after_event(self, event: Event, sight: Sight) -> WmView {
        match event {
            Event::MapRequest { window } => if announces_dock(sight.types) {
                self
            } else {
                WmView {
                    monitors: adopted(
                        self.monitors,
                        sight.x,
                        sight.y,
                        Client { window, state: State::initial(sight.types) },
                    ),
                    ..self
                }
            },
            Event::UnmapNotify { window } => WmView {
                monitors: extracted(self.monitors, window),
                shown: self.shown.remove(window),
                ..self
            },
            Event::ButtonEvent { kind: EventKind::Press, root_x, root_y, subwindow, button } => if self.drags(
                subwindow,
            ) {
                WmView {
                    grab: Some(
                        Grab { button, window: subwindow, geometry: sight.geometry, x: root_x, y: root_y },
                    ),
                    ..self
                }
            } else {
                self
            },
            Event::ButtonEvent { kind: EventKind::Release, .. } => WmView { grab: None, ..self },
            _ => self,
        }
    }

    /// What an X event asks of the server.
    pub open spec fn event_actions(self, event: Event, sight: Sight) -> Seq<Action> {
        match event {
            Event::MapRequest { window } => seq![
                Action::SelectInput { window },
                Action::MapWindow { window },
            ] + if announces_dock(sight.types) {
                Seq::empty()
            } else {
                seq![Action::SetInputFocus { window }] + self.repaint(window, sight.types)
                    + self.after_event(event, sight).tiling()
            },
            Event::UnmapNotify { window } => self.after_event(event, sight).tiling(),
            Event::EnterNotify { window } => if self.focusable(window) && !announces_dock(
                sight.types,
            ) {
                seq![Action::SetInputFocus { window }]
            } else {
                Seq::empty()
            },
            Event::FocusIn { window } => if self.focusable(window) {
                self.repaint(window, sight.types)
            } else {
                Seq::empty()
            },
            Event::ButtonEvent { kind: EventKind::Press, subwindow, .. } => if self.drags(
                subwindow,
            ) {
                seq![Action::Raise { window: subwindow }, Action::GrabPointer { window: subwindow }]
            } else {
                Seq::empty()
            },
            Event::ButtonEvent { kind: EventKind::Release, .. } => if self.grab is Some {
                seq![Action::UngrabPointer]
            } else {
                Seq::empty()
            },
            Event::MotionNotify { root_x, root_y } => match self.grab {
                Some(grab) => grab.motion(root_x, root_y),
                None => Seq::empty(),
            },
            Event::ConfigureRequest { window } => if announces_dock(sight.types) {
                seq![Action::Configure { window }]
            } else {
                Seq::empty()
            },
            Event::Other => Seq::empty(),
        }
    }

    /// The engine's record of shown windows and of hides under way after one
    /// request was handed out: a window that is asked to be shown counts as
    /// shown; a window that is asked to be hidden while it counts as shown
    /// does so no more, and its unmap notification is now awaited.
    pub open spec fn noted(self, action: Action) -> WmView {
        match action {
            Action::MapWindow { window } => WmView { shown: self.shown.insert(window), ..self },
            Action::UnmapWindow { window } => if self.shown.contains(window) {
                WmView {
                    shown: self.shown.remove(window),
                    hiding: self.hiding.push(window),
                    ..self
                }
            } else {
                self
            },
            _ => self,
        }
    }

    /// The record after a list of requests was handed out, in order.
    pub open spec fn noted_all(self, actions: Seq<Action>) -> WmView
        decreases actions.len(),
    {
        if actions.len() == 0 {
            self
        } else {
            self.noted_all(actions.drop_last()).noted(actions.last())
        }
    }

    /// Whether the entry is the notification of a hide that the engine asked
    /// for itself: an unmap notification for a window whose hide is under
    /// way.
    pub open spec fn is_echo(self, input: EventType) -> bool {
        match input {
            EventType::XEvent(Event::UnmapNotify { window }) => first_of(self.hiding, window) is Some,
            _ => false,
        }
    }

    /// The state after the notification of the engine's own hide of
    /// `window` came back: the oldest such hide is under way no more.
    pub open spec fn echoed(self, window: u32) -> WmView {
        match first_of(self.hiding, window) {
            Some(index) => WmView { hiding: self.hiding.remove(index), ..self },
            None => self,
        }
    }

    /// The state after an X event or a control message was handled, before
    /// the requests that it asks for are taken down.
    pub open spec fn dispatched(self, input: EventType, sight: Sight) -> WmView {
        match input {
            EventType::XEvent(event) => self.after_event(event, sight),
            EventType::Config(sequence) => self.after_sequence(sequence, sight),
        }
    }

    /// The state after one entry of the event queue. The notification of
    /// the engine's own hide changes nothing but the record of hides under
    /// way. Every other entry is handled, and the requests that it asks for
    /// are taken down.
    pub open spec fn after(self, input: EventType, sight: Sight) -> WmView {
        if self.is_echo(input) {
            match input {
                EventType::XEvent(Event::UnmapNotify { window }) => self.echoed(window),
                _ => self,
            }
        } else {
            self.dispatched(input, sight).noted_all(self.actions(input, sight))
        }
    }

    /// What one entry of the event queue asks of the server; the
    /// notification of the engine's own hide asks nothing.
    pub open spec fn actions(self, input: EventType, sight: Sight) -> Seq<Action> {
        if self.is_echo(input) {
            Seq::empty()
        } else {
            match input {
                EventType::XEvent(event) => self.event_actions(event, sight),
                EventType::Config(sequence) => self.sequence_actions(sequence, sight),
            }
        }
    }
}

/// Taking requests down changes nothing but the record of shown windows and
/// of hides under way.
pub proof fn lemma_noted_all(wm: WmView, actions: Seq<Action>)
    ensures
        wm.noted_all(actions) == (WmView {
            shown: wm.noted_all(actions).shown,
            hiding: wm.noted_all(actions).hiding,
            ..wm
        }),
    decreases actions.len(),
{
    if actions.len() > 0 {
        lemma_noted_all(wm, actions.drop_last());
    }
}

/// After an unmap notification for a window, no workspace of any monitor
/// holds the window, whichever workspace held it before, and every other
/// window stays where it was.
pub proof fn lemma_unmap_forgets(wm: WmView, window: u32, sight: Sight)
    requires
        wm.wf(),
    ensures
        wm.after_event(Event::UnmapNotify { window }, sight).monitors == extracted(
            wm.monitors,
            window,
        ),
        wf(extracted(wm.monitors, window)),
        !known(extracted(wm.monitors, window), window),
        forall|other: u32|
            other != window ==> (known(extracted(wm.monitors, window), other) <==> known(
                wm.monitors,
                other,
            )),
{
    lemma_extracted(wm.monitors, window);
}

/// The float toggle message.
pub open spec fn float_toggle() -> Sequence {
    Sequence { request: Request::FloatToggle, value: 0 }
}

/// A second float toggle with the same focus and pointer undoes the first,
/// so a tiled client is tiled again.
pub proof fn lemma_float_toggle_twice(wm: WmView, sight: Sight)
    ensures
        wm.after_sequence(float_toggle(), sight).after_sequence(float_toggle(), sight) == wm,
{
    let once = wm.after_sequence(float_toggle(), sight);
    let twice = once.after_sequence(float_toggle(), sight);
    assert forall|m: int| 0 <= m < wm.monitors.len() implies twice.monitors[m]
        == wm.monitors[m] by {
        lemma_toggle_twice(wm.monitors[m].workspace, sight.focus);
    }
    assert(twice.monitors =~= wm.monitors);
}

/// A float toggle changes nothing where every monitor under the pointer
/// shows the focused window as a dock or not at all.
pub proof fn lemma_float_toggle_dock(wm: WmView, sight: Sight)
    requires
        forall|m: int|
            0 <= m < wm.monitors.len() && (#[trigger] wm.monitors[m]).area.covers(
                sight.x as int,
                sight.y as int,
            ) ==> match position(wm.monitors[m].workspace.visible(), sight.focus) {
                Some(index) => wm.monitors[m].workspace.visible()[index].state == State::Dock,
                None => true,
            },
    ensures
        wm.after_sequence(float_toggle(), sight) == wm,
{
    let once = wm.after_sequence(float_toggle(), sight);
    assert forall|m: int| 0 <= m < wm.monitors.len() implies once.monitors[m] == wm.monitors[m] by {
        if wm.monitors[m].area.covers(sight.x as int, sight.y as int) {
            if position(wm.monitors[m].workspace.visible(), sight.focus) is Some {
                lemma_toggle_dock(wm.monitors[m].workspace, sight.focus);
            }
        }
    }
    assert(once.monitors =~= wm.monitors);
}

} // verus!
