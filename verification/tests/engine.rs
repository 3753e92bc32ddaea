use yaxiwm::action::Action;
use yaxiwm::area::Area;
use yaxiwm::client::{State, WindowType};
use yaxiwm::dispatch::Atoms;
use yaxiwm::event::{Button, Event, EventKind, EventType};
use yaxiwm::grab::Grab;
use yaxiwm::proto::{Request, Sequence};
use yaxiwm::wm::{Observed, Query, WindowManager};

const ROOT: u32 = 100;

fn atoms() -> Atoms {
    Atoms { wm_delete: 71, wm_protocols: 70 }
}

fn engine(monitors: &[Area], workspaces: u32) -> WindowManager {
    let mut wm = WindowManager::new(ROOT, atoms());
    for area in monitors {
        wm.add_monitor(*area);
    }
    if workspaces > 0 {
        wm.handle_sequence(Sequence::new(Request::WorkspacePerMonitor, workspaces), &Observed::new());
    }
    wm
}

fn pointer(x: u16, y: u16) -> Observed {
    Observed { focus: None, pointer: Some((x, y)), types: None, geometry: None }
}

fn focus(window: u32, x: u16, y: u16) -> Observed {
    Observed { focus: Some(window), pointer: Some((x, y)), types: None, geometry: None }
}

fn typed(types: &[WindowType], x: u16, y: u16) -> Observed {
    Observed { focus: None, pointer: Some((x, y)), types: Some(types.to_vec()), geometry: None }
}

fn map(wm: &mut WindowManager, window: u32, types: &[WindowType], x: u16, y: u16) -> Vec<Action> {
    wm.handle_event(Event::MapRequest { window }, &typed(types, x, y))
}

fn placed(window: u32, x: u16, y: u16, width: u16, height: u16) -> Action {
    Action::MoveResize { window, area: Area::new(x, y, width, height) }
}

fn shown(window: u32) -> Action {
    Action::MapWindow { window }
}

#[test]
fn workspace_per_monitor_resizes_every_monitor() {
    let mut wm = engine(&[Area::new(0, 0, 800, 600), Area::new(800, 0, 800, 600)], 0);
    let actions =
        wm.handle_sequence(Sequence::new(Request::WorkspacePerMonitor, 3), &Observed::new());
    assert_eq!(actions, vec![Action::SetNumberOfDesktops { desktops: 6 }]);
    assert_eq!(wm.monitors().len(), 2);
    for m in 0..2 {
        assert_eq!(wm.monitors().monitor(m).workspace().len(), 3);
        assert!(wm.monitors().monitor(m).workspace().current() < 3);
    }
}

#[test]
fn workspace_per_monitor_shrink_clamps_current() {
    let mut wm = engine(&[Area::new(0, 0, 800, 600)], 4);
    wm.handle_sequence(Sequence::new(Request::Workspace, 4), &pointer(10, 10));
    assert_eq!(wm.monitors().monitor(0).workspace().current(), 3);
    map(&mut wm, 7, &[WindowType::Normal], 10, 10);
    wm.handle_sequence(Sequence::new(Request::WorkspacePerMonitor, 2), &Observed::new());
    assert_eq!(wm.monitors().monitor(0).workspace().len(), 2);
    assert_eq!(wm.monitors().monitor(0).workspace().current(), 1);
    assert_eq!(wm.monitors().monitor(0).workspace().find(7), Some(0));
}

#[test]
fn workspace_per_monitor_zero_is_refused() {
    let mut wm = engine(&[Area::new(0, 0, 800, 600)], 3);
    let actions =
        wm.handle_sequence(Sequence::new(Request::WorkspacePerMonitor, 0), &Observed::new());
    assert_eq!(actions, vec![Action::SetNumberOfDesktops { desktops: 0 }]);
    assert_eq!(wm.monitors().monitor(0).workspace().len(), 3);
}

#[test]
fn map_request_adopts_and_tiles() {
    let mut wm = engine(&[Area::new(0, 0, 800, 600)], 2);
    let actions = map(&mut wm, 1, &[WindowType::Normal], 5, 5);
    assert_eq!(
        actions,
        vec![
            Action::SelectInput { window: 1 },
            shown(1),
            Action::SetInputFocus { window: 1 },
            Action::SetBorderPixel { window: 1, pixel: 0 },
            placed(1, 0, 0, 800, 600),
            shown(1),
        ]
    );
    let actions = map(&mut wm, 2, &[WindowType::Normal], 5, 5);
    assert_eq!(
        actions,
        vec![
            Action::SelectInput { window: 2 },
            shown(2),
            Action::SetInputFocus { window: 2 },
            Action::SetBorderWidth { window: 1, width: 0 },
            Action::SetBorderPixel { window: 1, pixel: 0 },
            Action::SetBorderPixel { window: 2, pixel: 0 },
            placed(1, 0, 0, 400, 600),
            shown(1),
            placed(2, 400, 0, 400, 600),
            shown(2),
        ]
    );
}

#[test]
fn map_request_of_dock_is_shown_but_not_managed() {
    let mut wm = engine(&[Area::new(0, 0, 800, 600)], 1);
    let actions = map(&mut wm, 9, &[WindowType::Dock], 5, 5);
    assert_eq!(actions, vec![Action::SelectInput { window: 9 }, shown(9)]);
    assert!(!wm.monitors().tracks(9));
}

#[test]
fn map_request_of_dialog_floats() {
    let mut wm = engine(&[Area::new(0, 0, 800, 600)], 1);
    map(&mut wm, 1, &[WindowType::Normal], 5, 5);
    let actions = map(&mut wm, 2, &[WindowType::Dialog], 5, 5);
    assert_eq!(wm.monitors().monitor(0).workspace().client(1).state, State::Float);
    assert_eq!(&actions[actions.len() - 3..], &[placed(1, 0, 0, 800, 600), shown(1), shown(2)]);
}

#[test]
fn map_request_never_tracks_a_window_twice() {
    let mut wm = engine(&[Area::new(0, 0, 800, 600)], 2);
    map(&mut wm, 1, &[WindowType::Normal], 5, 5);
    wm.handle_sequence(Sequence::new(Request::Workspace, 2), &pointer(5, 5));
    map(&mut wm, 1, &[WindowType::Normal], 5, 5);
    assert_eq!(wm.monitors().monitor(0).workspace().find(1), None);
    assert_eq!(wm.monitors().monitor(0).workspace().locate(1), Some((0, 0)));
    let ids = wm.monitors().monitor(0).workspace().map_clients(|client| client.window);
    assert_eq!(ids, vec![1]);
}

#[test]
fn map_request_outside_every_monitor_is_not_adopted() {
    let mut wm = engine(&[Area::new(0, 0, 800, 600)], 1);
    map(&mut wm, 1, &[WindowType::Normal], 900, 5);
    assert!(!wm.monitors().tracks(1));
}

#[test]
fn unmap_notify_forgets_and_retiles() {
    let mut wm = engine(&[Area::new(0, 0, 800, 600)], 1);
    map(&mut wm, 1, &[WindowType::Normal], 5, 5);
    map(&mut wm, 2, &[WindowType::Normal], 5, 5);
    let actions = wm.handle_event(Event::UnmapNotify { window: 1 }, &Observed::new());
    assert_eq!(actions, vec![placed(2, 0, 0, 800, 600), shown(2)]);
    assert!(!wm.monitors().tracks(1));
}

#[test]
fn unmap_notify_forgets_a_client_of_a_hidden_workspace() {
    let mut wm = engine(&[Area::new(0, 0, 800, 600)], 2);
    map(&mut wm, 1, &[WindowType::Normal], 5, 5);
    map(&mut wm, 2, &[WindowType::Dialog], 5, 5);
    let actions = wm.handle_sequence(Sequence::new(Request::Workspace, 2), &pointer(5, 5));
    assert_eq!(
        actions,
        vec![
            Action::SetCurrentDesktop { desktop: 1 },
            Action::UnmapWindow { window: 1 },
            Action::UnmapWindow { window: 2 },
        ]
    );
    assert_eq!(wm.monitors().monitor(0).workspace().find(1), None);
    assert!(wm.monitors().tracks(1));
    let actions = wm.handle_event(Event::UnmapNotify { window: 1 }, &Observed::new());
    assert_eq!(actions, vec![Action::UnmapWindow { window: 2 }]);
    assert!(!wm.monitors().tracks(1));
    assert_eq!(wm.monitors().locate(2), Some((0, 0, 0)));
    assert_eq!(wm.monitors().monitor(0).workspace().map_clients(|client| client.state), vec![State::Float]);
}

#[test]
fn unmap_notify_for_an_unknown_window_only_retiles() {
    let mut wm = engine(&[Area::new(0, 0, 800, 600)], 1);
    map(&mut wm, 1, &[WindowType::Normal], 5, 5);
    let actions = wm.handle_event(Event::UnmapNotify { window: 9 }, &Observed::new());
    assert_eq!(actions, vec![placed(1, 0, 0, 800, 600), shown(1)]);
    assert!(wm.monitors().tracks(1));
}

#[test]
fn notification_of_the_tilers_own_hide_is_told_apart() {
    let mut wm = engine(&[Area::new(0, 0, 800, 600)], 2);
    let mapping = EventType::XEvent(Event::MapRequest { window: 1 });
    wm.handle(mapping, &typed(&[WindowType::Normal], 5, 5));
    let switch = EventType::Config(Sequence::new(Request::Workspace, 2));
    let actions = wm.handle(switch, &pointer(5, 5));
    assert_eq!(
        actions,
        vec![Action::SetCurrentDesktop { desktop: 1 }, Action::UnmapWindow { window: 1 }]
    );
    let unmapped = EventType::XEvent(Event::UnmapNotify { window: 1 });
    assert_eq!(wm.next_query(unmapped, &Observed::new()), None);
    assert_eq!(wm.handle(unmapped, &Observed::new()), vec![]);
    assert!(wm.monitors().tracks(1));
    assert_eq!(wm.handle(unmapped, &Observed::new()), vec![]);
    assert!(!wm.monitors().tracks(1));
}

#[test]
fn hiding_a_hidden_window_again_awaits_no_second_notification() {
    let mut wm = engine(&[Area::new(0, 0, 800, 600)], 3);
    wm.handle(EventType::XEvent(Event::MapRequest { window: 1 }), &typed(&[WindowType::Normal], 5, 5));
    wm.handle(EventType::Config(Sequence::new(Request::Workspace, 2)), &pointer(5, 5));
    let actions = wm.handle(EventType::Config(Sequence::new(Request::Workspace, 3)), &pointer(5, 5));
    assert_eq!(
        actions,
        vec![Action::SetCurrentDesktop { desktop: 2 }, Action::UnmapWindow { window: 1 }]
    );
    let unmapped = EventType::XEvent(Event::UnmapNotify { window: 1 });
    wm.handle(unmapped, &Observed::new());
    assert!(wm.monitors().tracks(1));
    wm.handle(unmapped, &Observed::new());
    assert!(!wm.monitors().tracks(1));
}

#[test]
fn unmap_notify_of_a_shown_window_is_no_echo() {
    let mut wm = engine(&[Area::new(0, 0, 800, 600)], 2);
    wm.handle(EventType::XEvent(Event::MapRequest { window: 1 }), &typed(&[WindowType::Normal], 5, 5));
    wm.handle(EventType::XEvent(Event::MapRequest { window: 2 }), &typed(&[WindowType::Normal], 5, 5));
    let actions = wm.handle(EventType::XEvent(Event::UnmapNotify { window: 1 }), &Observed::new());
    assert_eq!(actions, vec![placed(2, 0, 0, 800, 600), shown(2)]);
    assert!(!wm.monitors().tracks(1));
}

#[test]
fn workspace_switch_clamps_and_announces_desktop() {
    let mut wm = engine(&[Area::new(0, 0, 800, 600), Area::new(800, 0, 800, 600)], 3);
    let actions = wm.handle_sequence(Sequence::new(Request::Workspace, 9), &pointer(900, 5));
    assert_eq!(actions, vec![Action::SetCurrentDesktop { desktop: 5 }]);
    assert_eq!(wm.monitors().monitor(1).workspace().current(), 2);
    assert_eq!(wm.monitors().monitor(0).workspace().current(), 0);
    let actions = wm.handle_sequence(Sequence::new(Request::Workspace, 0), &pointer(900, 5));
    assert_eq!(actions, vec![Action::SetCurrentDesktop { desktop: 3 }]);
    assert_eq!(wm.monitors().monitor(1).workspace().current(), 0);
}

#[test]
fn workspace_switch_outside_every_monitor_is_a_no_op() {
    let mut wm = engine(&[Area::new(0, 0, 800, 600)], 3);
    let actions = wm.handle_sequence(Sequence::new(Request::Workspace, 2), &pointer(900, 900));
    assert_eq!(actions, vec![]);
    assert_eq!(wm.monitors().monitor(0).workspace().current(), 0);
}

#[test]
fn kill_and_close_go_to_the_focused_client() {
    let mut wm = engine(&[Area::new(0, 0, 800, 600)], 1);
    map(&mut wm, 1, &[WindowType::Normal], 5, 5);
    assert_eq!(
        wm.handle_sequence(Sequence::new(Request::Kill, 0), &focus(1, 5, 5)),
        vec![Action::Kill { window: 1 }]
    );
    assert_eq!(
        wm.handle_sequence(Sequence::new(Request::Close, 0), &focus(1, 5, 5)),
        vec![Action::ClientMessage { window: 1, kind: 70, first: 71 }]
    );
    assert_eq!(wm.handle_sequence(Sequence::new(Request::Kill, 0), &focus(2, 5, 5)), vec![]);
    assert_eq!(wm.handle_sequence(Sequence::new(Request::Kill, 0), &focus(1, 900, 5)), vec![]);
}

#[test]
fn focus_requests_move_the_input_focus() {
    let mut wm = engine(&[Area::new(0, 0, 800, 600)], 1);
    for window in [1, 2, 3] {
        map(&mut wm, window, &[WindowType::Normal], 5, 5);
    }
    let ask = |wm: &mut WindowManager, request: Request, window: u32| {
        wm.handle_sequence(Sequence::new(request, 0), &focus(window, 5, 5))
    };
    assert_eq!(ask(&mut wm, Request::FocusUp, 2), vec![Action::SetInputFocus { window: 1 }]);
    assert_eq!(ask(&mut wm, Request::FocusUp, 1), vec![Action::SetInputFocus { window: 1 }]);
    assert_eq!(ask(&mut wm, Request::FocusDown, 2), vec![Action::SetInputFocus { window: 3 }]);
    assert_eq!(ask(&mut wm, Request::FocusDown, 3), vec![]);
    assert_eq!(ask(&mut wm, Request::FocusMaster, 3), vec![Action::SetInputFocus { window: 1 }]);
    assert_eq!(ask(&mut wm, Request::FocusMaster, 8), vec![]);
}

#[test]
fn padding_and_gaps_take_low_16_bits_and_retile() {
    let mut wm = engine(&[Area::new(0, 0, 800, 600)], 1);
    map(&mut wm, 1, &[WindowType::Normal], 5, 5);
    wm.handle_sequence(Sequence::new(Request::PaddingTop, 20), &Observed::new());
    wm.handle_sequence(Sequence::new(Request::PaddingBottom, 20), &Observed::new());
    wm.handle_sequence(Sequence::new(Request::PaddingLeft, 10), &Observed::new());
    let actions = wm.handle_sequence(Sequence::new(Request::PaddingRight, 10), &Observed::new());
    assert_eq!(actions, vec![placed(1, 10, 20, 780, 560), shown(1)]);
    let actions =
        wm.handle_sequence(Sequence::new(Request::WindowGaps, 0x0001_0005), &Observed::new());
    assert_eq!(wm.config().windows.gaps, 5);
    assert_eq!(actions, vec![placed(1, 15, 25, 770, 550), shown(1)]);
}

#[test]
fn border_requests_repaint_every_client() {
    let mut wm = engine(&[Area::new(0, 0, 800, 600)], 2);
    map(&mut wm, 1, &[WindowType::Normal], 5, 5);
    wm.handle_sequence(Sequence::new(Request::Workspace, 2), &pointer(5, 5));
    map(&mut wm, 2, &[WindowType::Normal], 5, 5);
    wm.handle_sequence(Sequence::new(Request::NormalBorder, 0x111111), &Observed::new());
    wm.handle_sequence(Sequence::new(Request::BorderWidth, 3), &Observed::new());
    let seen =
        Observed { focus: Some(2), pointer: None, types: Some(vec![WindowType::Normal]), geometry: None };
    let actions = wm.handle_sequence(Sequence::new(Request::FocusedBorder, 0xff0000), &seen);
    assert_eq!(
        actions,
        vec![
            Action::SetBorderWidth { window: 1, width: 3 },
            Action::SetBorderPixel { window: 1, pixel: 0x111111 },
            Action::SetBorderWidth { window: 2, width: 3 },
            Action::SetBorderPixel { window: 2, pixel: 0x111111 },
            Action::SetBorderPixel { window: 2, pixel: 0xff0000 },
        ]
    );
    let dock =
        Observed { focus: Some(2), pointer: None, types: Some(vec![WindowType::Dock]), geometry: None };
    assert_eq!(wm.handle_sequence(Sequence::new(Request::BorderWidth, 4), &dock), vec![]);
    assert_eq!(wm.config().windows.borders.width, 4);
    let root =
        Observed { focus: Some(ROOT), pointer: None, types: Some(vec![]), geometry: None };
    assert_eq!(wm.handle_sequence(Sequence::new(Request::BorderWidth, 4), &root), vec![]);
    let low = Observed { focus: Some(1), pointer: None, types: Some(vec![]), geometry: None };
    assert_eq!(wm.handle_sequence(Sequence::new(Request::BorderWidth, 4), &low), vec![]);
}

#[test]
fn float_toggle_twice_returns_to_tiled() {
    let mut wm = engine(&[Area::new(0, 0, 800, 600)], 1);
    map(&mut wm, 1, &[WindowType::Normal], 5, 5);
    map(&mut wm, 2, &[WindowType::Normal], 5, 5);
    let actions = wm.handle_sequence(Sequence::new(Request::FloatToggle, 0), &focus(2, 5, 5));
    assert_eq!(wm.monitors().monitor(0).workspace().client(1).state, State::Float);
    assert_eq!(actions, vec![placed(1, 0, 0, 800, 600), shown(1), shown(2)]);
    let actions = wm.handle_sequence(Sequence::new(Request::FloatToggle, 0), &focus(2, 5, 5));
    assert_eq!(wm.monitors().monitor(0).workspace().client(1).state, State::Tiled);
    assert_eq!(
        actions,
        vec![placed(1, 0, 0, 400, 600), shown(1), placed(2, 400, 0, 400, 600), shown(2)]
    );
}

#[test]
fn float_toggle_leaves_a_dock_alone() {
    let mut wm = engine(&[Area::new(0, 0, 800, 600)], 1);
    map(&mut wm, 1, &[WindowType::Toolbar], 5, 5);
    assert_eq!(wm.monitors().monitor(0).workspace().client(0).state, State::Dock);
    wm.handle_sequence(Sequence::new(Request::FloatToggle, 0), &focus(1, 5, 5));
    assert_eq!(wm.monitors().monitor(0).workspace().client(0).state, State::Dock);
}

#[test]
fn float_and_resize_requests_move_a_floating_client() {
    let mut wm = engine(&[Area::new(0, 0, 800, 600)], 1);
    map(&mut wm, 1, &[WindowType::Dialog], 5, 5);
    let seen = Observed {
        focus: Some(1),
        pointer: Some((5, 5)),
        types: None,
        geometry: Some(Area::new(100, 50, 300, 200)),
    };
    let ask = |wm: &mut WindowManager, request: Request, value: u32| {
        wm.handle_sequence(Sequence::new(request, value), &seen)
    };
    assert_eq!(ask(&mut wm, Request::FloatLeft, 30), vec![placed(1, 70, 50, 300, 200)]);
    assert_eq!(ask(&mut wm, Request::FloatLeft, 130), vec![placed(1, 0, 50, 300, 200)]);
    assert_eq!(ask(&mut wm, Request::FloatRight, 30), vec![placed(1, 130, 50, 300, 200)]);
    assert_eq!(ask(&mut wm, Request::FloatRight, 65500), vec![placed(1, 65535, 50, 300, 200)]);
    assert_eq!(ask(&mut wm, Request::FloatLeft, 65536), vec![placed(1, 0, 50, 300, 200)]);
    assert_eq!(ask(&mut wm, Request::FloatUp, 0x0001_0001), vec![placed(1, 100, 0, 300, 200)]);
    assert_eq!(ask(&mut wm, Request::FloatRight, 65536), vec![placed(1, 65535, 50, 300, 200)]);
    assert_eq!(ask(&mut wm, Request::FloatDown, u32::MAX), vec![placed(1, 100, 65535, 300, 200)]);
    assert_eq!(ask(&mut wm, Request::ResizeLeft, 65536 + 100), vec![placed(1, 100, 50, 0, 200)]);
    assert_eq!(ask(&mut wm, Request::ResizeUp, 65536), vec![placed(1, 100, 50, 300, 0)]);
    assert_eq!(ask(&mut wm, Request::ResizeRight, 65536), vec![placed(1, 100, 50, 65535, 200)]);
    assert_eq!(ask(&mut wm, Request::ResizeDown, 65536), vec![placed(1, 100, 50, 300, 65535)]);
    assert_eq!(ask(&mut wm, Request::FloatUp, 60), vec![placed(1, 100, 0, 300, 200)]);
    assert_eq!(ask(&mut wm, Request::FloatDown, 60), vec![placed(1, 100, 110, 300, 200)]);
    assert_eq!(ask(&mut wm, Request::ResizeLeft, 100), vec![placed(1, 100, 50, 200, 200)]);
    assert_eq!(ask(&mut wm, Request::ResizeLeft, 400), vec![placed(1, 100, 50, 0, 200)]);
    assert_eq!(ask(&mut wm, Request::ResizeRight, 100), vec![placed(1, 100, 50, 400, 200)]);
    assert_eq!(ask(&mut wm, Request::ResizeUp, 250), vec![placed(1, 100, 50, 300, 0)]);
    assert_eq!(ask(&mut wm, Request::ResizeDown, 50), vec![placed(1, 100, 50, 300, 250)]);
}

#[test]
fn float_requests_leave_a_tiled_client_alone() {
    let mut wm = engine(&[Area::new(0, 0, 800, 600)], 1);
    map(&mut wm, 1, &[WindowType::Normal], 5, 5);
    let seen = Observed {
        focus: Some(1),
        pointer: Some((5, 5)),
        types: None,
        geometry: Some(Area::new(100, 50, 300, 200)),
    };
    assert_eq!(wm.handle_sequence(Sequence::new(Request::FloatLeft, 30), &seen), vec![]);
}

#[test]
fn mouse_requests_flip_the_setting() {
    let mut wm = engine(&[Area::new(0, 0, 800, 600)], 1);
    assert!(!wm.config().windows.mouse_movement);
    wm.handle_sequence(Sequence::new(Request::EnableMouse, 0), &Observed::new());
    assert!(wm.config().windows.mouse_movement);
    wm.handle_sequence(Sequence::new(Request::DisableMouse, 0), &Observed::new());
    assert!(!wm.config().windows.mouse_movement);
}

#[test]
fn monitor_circulate_moves_the_focused_client_on() {
    let mut wm = engine(&[Area::new(0, 0, 800, 600), Area::new(800, 0, 800, 600)], 1);
    map(&mut wm, 1, &[WindowType::Normal], 5, 5);
    map(&mut wm, 2, &[WindowType::Normal], 5, 5);
    let seen = Observed { focus: Some(1), pointer: None, types: None, geometry: None };
    let actions = wm.handle_sequence(Sequence::new(Request::MonitorCirculate, 0), &seen);
    assert_eq!(
        actions,
        vec![placed(2, 0, 0, 800, 600), shown(2), placed(1, 800, 0, 800, 600), shown(1)]
    );
    assert_eq!(wm.monitors().locate(1), Some((1, 0, 0)));
    wm.handle_sequence(Sequence::new(Request::MonitorCirculate, 0), &seen);
    assert_eq!(wm.monitors().locate(1), Some((0, 0, 1)));
}

#[test]
fn quit_sets_should_close_and_unknown_is_ignored() {
    let mut wm = engine(&[Area::new(0, 0, 800, 600)], 1);
    assert_eq!(wm.handle_sequence(Sequence::new(Request::Unknown, 5), &Observed::new()), vec![]);
    assert!(!wm.should_close());
    assert_eq!(wm.handle_sequence(Sequence::new(Request::Quit, 0), &Observed::new()), vec![]);
    assert!(wm.should_close());
}

#[test]
fn enter_notify_focuses_all_but_root_and_docks() {
    let mut wm = engine(&[Area::new(0, 0, 800, 600)], 1);
    let normal = typed(&[WindowType::Normal], 0, 0);
    let dock = typed(&[WindowType::Dock], 0, 0);
    assert_eq!(
        wm.handle_event(Event::EnterNotify { window: 5 }, &normal),
        vec![Action::SetInputFocus { window: 5 }]
    );
    assert_eq!(wm.handle_event(Event::EnterNotify { window: 5 }, &dock), vec![]);
    assert_eq!(wm.handle_event(Event::EnterNotify { window: ROOT }, &normal), vec![]);
    assert_eq!(wm.handle_event(Event::EnterNotify { window: 1 }, &normal), vec![]);
}

#[test]
fn focus_in_repaints_borders() {
    let mut wm = engine(&[Area::new(0, 0, 800, 600)], 1);
    map(&mut wm, 5, &[WindowType::Normal], 5, 5);
    wm.handle_sequence(Sequence::new(Request::FocusedBorder, 9), &Observed::new());
    let actions = wm.handle_event(Event::FocusIn { window: 5 }, &typed(&[WindowType::Normal], 0, 0));
    assert_eq!(
        actions,
        vec![
            Action::SetBorderWidth { window: 5, width: 0 },
            Action::SetBorderPixel { window: 5, pixel: 0 },
            Action::SetBorderPixel { window: 5, pixel: 9 },
        ]
    );
    assert_eq!(
        wm.handle_event(Event::FocusIn { window: 5 }, &typed(&[WindowType::Dock], 0, 0)),
        vec![]
    );
}

#[test]
fn configure_request_is_applied_for_docks_only() {
    let mut wm = engine(&[Area::new(0, 0, 800, 600)], 1);
    assert_eq!(
        wm.handle_event(Event::ConfigureRequest { window: 5 }, &typed(&[WindowType::Dock], 0, 0)),
        vec![Action::Configure { window: 5 }]
    );
    assert_eq!(
        wm.handle_event(Event::ConfigureRequest { window: 5 }, &typed(&[WindowType::Normal], 0, 0)),
        vec![]
    );
}

fn press(subwindow: u32, button: Button, root_x: u16, root_y: u16) -> Event {
    Event::ButtonEvent { kind: EventKind::Press, root_x, root_y, subwindow, button }
}

fn release() -> Event {
    Event::ButtonEvent { kind: EventKind::Release, root_x: 0, root_y: 0, subwindow: 0, button: Button::Button1 }
}

fn floating_engine() -> WindowManager {
    let mut wm = engine(&[Area::new(0, 0, 800, 600)], 1);
    map(&mut wm, 1, &[WindowType::Dialog], 5, 5);
    map(&mut wm, 2, &[WindowType::Normal], 5, 5);
    wm.handle_sequence(Sequence::new(Request::EnableMouse, 0), &Observed::new());
    wm
}

fn geometry(area: Area) -> Observed {
    Observed { focus: None, pointer: None, types: None, geometry: Some(area) }
}

#[test]
fn button_press_on_floating_window_starts_a_drag() {
    let mut wm = floating_engine();
    let actions =
        wm.handle_event(press(1, Button::Button1, 50, 60), &geometry(Area::new(10, 20, 30, 40)));
    assert_eq!(actions, vec![Action::Raise { window: 1 }, Action::GrabPointer { window: 1 }]);
    assert_eq!(
        wm.grab(),
        Some(Grab::new(Button::Button1, 1, Area::new(10, 20, 30, 40), 50, 60))
    );
}

#[test]
fn button_press_on_tiled_window_or_with_mouse_off_does_nothing() {
    let mut wm = floating_engine();
    assert_eq!(wm.handle_event(press(2, Button::Button1, 50, 60), &Observed::new()), vec![]);
    assert_eq!(wm.grab(), None);
    wm.handle_sequence(Sequence::new(Request::DisableMouse, 0), &Observed::new());
    assert_eq!(wm.handle_event(press(1, Button::Button1, 50, 60), &Observed::new()), vec![]);
    assert_eq!(wm.grab(), None);
}

#[test]
fn motion_moves_with_first_button_and_resizes_with_third() {
    let mut wm = floating_engine();
    assert_eq!(wm.handle_event(Event::MotionNotify { root_x: 1, root_y: 1 }, &Observed::new()), vec![]);
    wm.handle_event(press(1, Button::Button1, 50, 60), &geometry(Area::new(10, 20, 30, 40)));
    assert_eq!(
        wm.handle_event(Event::MotionNotify { root_x: 70, root_y: 55 }, &Observed::new()),
        vec![Action::Move { window: 1, x: 30, y: 15 }]
    );
    assert_eq!(
        wm.handle_event(Event::MotionNotify { root_x: 30, root_y: 60 }, &Observed::new()),
        vec![Action::Move { window: 1, x: 65526, y: 20 }]
    );
    assert_eq!(wm.handle_event(release(), &Observed::new()), vec![Action::UngrabPointer]);
    assert_eq!(wm.grab(), None);
    assert_eq!(wm.handle_event(release(), &Observed::new()), vec![]);
    wm.handle_event(press(1, Button::Button3, 50, 60), &geometry(Area::new(10, 20, 30, 40)));
    assert_eq!(
        wm.handle_event(Event::MotionNotify { root_x: 70, root_y: 55 }, &Observed::new()),
        vec![Action::Resize { window: 1, width: 50, height: 35 }]
    );
    wm.handle_event(release(), &Observed::new());
    wm.handle_event(press(1, Button::Button2, 50, 60), &geometry(Area::new(10, 20, 30, 40)));
    assert_eq!(
        wm.handle_event(Event::MotionNotify { root_x: 70, root_y: 55 }, &Observed::new()),
        vec![]
    );
}

#[test]
fn next_query_asks_in_order_and_only_what_is_needed() {
    let mut wm = floating_engine();
    let kill = EventType::Config(Sequence::new(Request::Kill, 0));
    let mut seen = Observed::new();
    assert_eq!(wm.next_query(kill, &seen), Some(Query::InputFocus));
    seen.focus = Some(1);
    assert_eq!(wm.next_query(kill, &seen), Some(Query::Pointer));
    seen.pointer = Some((5, 5));
    assert_eq!(wm.next_query(kill, &seen), None);

    let float = EventType::Config(Sequence::new(Request::FloatLeft, 3));
    assert_eq!(wm.next_query(float, &seen), Some(Query::Geometry { window: 1 }));
    seen.focus = Some(2);
    assert_eq!(wm.next_query(float, &seen), None);

    let border = EventType::Config(Sequence::new(Request::BorderWidth, 3));
    let mut seen = Observed::new();
    assert_eq!(wm.next_query(border, &seen), Some(Query::InputFocus));
    seen.focus = Some(ROOT);
    assert_eq!(wm.next_query(border, &seen), None);
    seen.focus = Some(2);
    assert_eq!(wm.next_query(border, &seen), Some(Query::WindowType { window: 2 }));
    seen.types = Some(vec![]);
    assert_eq!(wm.next_query(border, &seen), None);

    let gaps = EventType::Config(Sequence::new(Request::WindowGaps, 3));
    assert_eq!(wm.next_query(gaps, &Observed::new()), None);

    let map = EventType::XEvent(Event::MapRequest { window: 8 });
    let mut seen = Observed::new();
    assert_eq!(wm.next_query(map, &seen), Some(Query::WindowType { window: 8 }));
    seen.types = Some(vec![WindowType::Dock]);
    assert_eq!(wm.next_query(map, &seen), None);
    seen.types = Some(vec![WindowType::Normal]);
    assert_eq!(wm.next_query(map, &seen), Some(Query::Pointer));
    seen.pointer = Some((1, 1));
    assert_eq!(wm.next_query(map, &seen), None);

    let press_floating = EventType::XEvent(press(1, Button::Button1, 5, 5));
    assert_eq!(wm.next_query(press_floating, &Observed::new()), Some(Query::Geometry { window: 1 }));
    let press_tiled = EventType::XEvent(press(2, Button::Button1, 5, 5));
    assert_eq!(wm.next_query(press_tiled, &Observed::new()), None);
    assert_eq!(wm.next_query(EventType::XEvent(Event::Other), &Observed::new()), None);
    wm.handle(EventType::XEvent(Event::Other), &Observed::new());
}

#[test]
fn tile_twice_asks_the_same() {
    let mut wm = engine(&[Area::new(0, 0, 800, 600)], 1);
    map(&mut wm, 1, &[WindowType::Normal], 5, 5);
    map(&mut wm, 2, &[WindowType::Normal], 5, 5);
    assert_eq!(wm.tile(), wm.tile());
}
