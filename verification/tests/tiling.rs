use yaxiwm::action::Action;
use yaxiwm::area::Area;
use yaxiwm::client::{Client, State};
use yaxiwm::config::Padding;
use yaxiwm::workspaces::Workspaces;

fn one_workspace(clients: &[(u32, State)]) -> Workspaces {
    let mut workspaces = Workspaces::new();
    workspaces.resize(1);
    for (window, state) in clients {
        workspaces.insert(Client::new(*window, *state));
    }
    workspaces
}

fn placed(window: u32, x: u16, y: u16, width: u16, height: u16) -> Action {
    Action::MoveResize { window, area: Area::new(x, y, width, height) }
}

fn shown(window: u32) -> Action {
    Action::MapWindow { window }
}

#[test]
fn master_stack_three_tiled() {
    let workspaces = one_workspace(&[(1, State::Tiled), (2, State::Tiled), (3, State::Tiled)]);
    let actions = workspaces.tile(Area::new(0, 0, 800, 600), 0);
    assert_eq!(
        actions,
        vec![
            placed(1, 0, 0, 400, 600),
            shown(1),
            placed(2, 400, 0, 400, 300),
            shown(2),
            placed(3, 400, 300, 400, 300),
            shown(3),
        ]
    );
}

#[test]
fn gaps_shrink_every_slot() {
    let workspaces = one_workspace(&[(1, State::Tiled), (2, State::Tiled), (3, State::Tiled)]);
    let actions = workspaces.tile(Area::new(0, 0, 800, 600), 10);
    assert_eq!(
        actions,
        vec![
            placed(1, 10, 10, 380, 580),
            shown(1),
            placed(2, 410, 10, 380, 280),
            shown(2),
            placed(3, 410, 310, 380, 280),
            shown(3),
        ]
    );
}

#[test]
fn padding_gives_usable_area() {
    let padding = Padding { top: 20, bottom: 20, left: 10, right: 10 };
    let usable = Area::new(0, 0, 800, 600).pad(padding);
    assert_eq!(usable, Area::new(10, 20, 780, 560));
    let workspaces = one_workspace(&[(1, State::Tiled), (2, State::Tiled)]);
    let actions = workspaces.tile(usable, 0);
    assert_eq!(
        actions,
        vec![placed(1, 10, 20, 390, 560), shown(1), placed(2, 400, 20, 390, 560), shown(2)]
    );
}

#[test]
fn float_in_the_middle_is_skipped() {
    let workspaces = one_workspace(&[(1, State::Tiled), (2, State::Float), (3, State::Tiled)]);
    let actions = workspaces.tile(Area::new(0, 0, 800, 600), 0);
    assert_eq!(
        actions,
        vec![
            placed(1, 0, 0, 400, 600),
            shown(1),
            shown(2),
            placed(3, 400, 0, 400, 600),
            shown(3),
        ]
    );
}

#[test]
fn single_tiled_client_takes_whole_area() {
    let workspaces = one_workspace(&[(7, State::Tiled)]);
    let actions = workspaces.tile(Area::new(5, 6, 100, 50), 0);
    assert_eq!(actions, vec![placed(7, 5, 6, 100, 50), shown(7)]);
}

#[test]
fn odd_extent_is_split_without_a_gap() {
    let workspaces = one_workspace(&[(1, State::Tiled), (2, State::Tiled)]);
    let actions = workspaces.tile(Area::new(0, 0, 801, 600), 0);
    assert_eq!(
        actions,
        vec![placed(1, 0, 0, 400, 600), shown(1), placed(2, 400, 0, 401, 600), shown(2)]
    );
}

#[test]
fn square_area_splits_horizontally() {
    let workspaces = one_workspace(&[(1, State::Tiled), (2, State::Tiled)]);
    let actions = workspaces.tile(Area::new(0, 0, 600, 600), 0);
    assert_eq!(
        actions,
        vec![placed(1, 0, 0, 600, 300), shown(1), placed(2, 0, 300, 600, 300), shown(2)]
    );
}

#[test]
fn gaps_wider_than_slot_stop_at_zero() {
    let workspaces = one_workspace(&[(1, State::Tiled)]);
    let actions = workspaces.tile(Area::new(0, 0, 10, 10), 10);
    assert_eq!(actions, vec![placed(1, 10, 10, 0, 0), shown(1)]);
}

#[test]
fn other_workspaces_are_hidden_but_docks_stay() {
    let mut workspaces = Workspaces::new();
    workspaces.resize(2);
    workspaces.insert(Client::new(1, State::Tiled));
    workspaces.insert(Client::new(2, State::Float));
    workspaces.insert(Client::new(3, State::Dock));
    workspaces.switch(2);
    workspaces.insert(Client::new(4, State::Dock));
    let actions = workspaces.tile(Area::new(0, 0, 800, 600), 0);
    assert_eq!(
        actions,
        vec![shown(4), Action::UnmapWindow { window: 1 }, Action::UnmapWindow { window: 2 }]
    );
}

#[test]
fn tile_without_workspace_asks_nothing() {
    let workspaces = Workspaces::new();
    assert_eq!(workspaces.tile(Area::new(0, 0, 800, 600), 0), vec![]);
}

#[test]
fn tile_twice_gives_the_same_plan() {
    let workspaces = one_workspace(&[(1, State::Tiled), (2, State::Tiled), (3, State::Float)]);
    let first = workspaces.tile(Area::new(0, 0, 1920, 1080), 4);
    let second = workspaces.tile(Area::new(0, 0, 1920, 1080), 4);
    assert_eq!(first, second);
}

#[test]
fn tiled_clients_keep_gaps_to_the_area() {
    let area = Area::new(100, 50, 1000, 700);
    let gaps: u16 = 8;
    let workspaces = one_workspace(&[
        (1, State::Tiled),
        (2, State::Tiled),
        (3, State::Tiled),
        (4, State::Tiled),
    ]);
    for action in workspaces.tile(area, gaps) {
        if let Action::MoveResize { area: placed, .. } = action {
            assert!(placed.x >= area.x + gaps);
            assert!(placed.y >= area.y + gaps);
            assert!(placed.x + placed.width <= area.x + area.width - gaps);
            assert!(placed.y + placed.height <= area.y + area.height - gaps);
        }
    }
}

#[test]
fn slots_cover_the_area_without_overlap() {
    let area = Area::new(3, 5, 17, 9);
    let workspaces = one_workspace(&[
        (1, State::Tiled),
        (2, State::Tiled),
        (3, State::Tiled),
        (4, State::Tiled),
    ]);
    let mut slots: Vec<Area> = Vec::new();
    for action in workspaces.tile(area, 0) {
        if let Action::MoveResize { area: slot, .. } = action {
            slots.push(slot);
        }
    }
    assert_eq!(slots.len(), 4);
    for x in 0..30u16 {
        for y in 0..30u16 {
            let holders = slots.iter().filter(|slot| slot.contains(x, y)).count();
            assert_eq!(holders, if area.contains(x, y) { 1 } else { 0 });
        }
    }
}
