use yaxiwm::area::Area;
use yaxiwm::config::Padding;

#[test]
fn contains_takes_left_and_upper_edge_only() {
    let area = Area::new(10, 20, 30, 40);
    assert!(area.contains(10, 20));
    assert!(area.contains(39, 59));
    assert!(!area.contains(40, 20));
    assert!(!area.contains(10, 60));
    assert!(!area.contains(9, 20));
    assert!(!area.contains(10, 19));
}

#[test]
fn contains_without_overflow_at_the_far_end() {
    let area = Area::new(65000, 65000, 1000, 1000);
    assert!(area.contains(65535, 65535));
    assert!(!area.contains(64999, 65535));
}

#[test]
fn pad_shrinks_from_all_sides() {
    let padding = Padding { top: 1, bottom: 2, left: 3, right: 4 };
    assert_eq!(Area::new(10, 10, 100, 100).pad(padding), Area::new(13, 11, 93, 97));
}

#[test]
fn pad_stops_at_zero() {
    let padding = Padding { top: 30, bottom: 30, left: 30, right: 30 };
    assert_eq!(Area::new(0, 0, 50, 40).pad(padding), Area::new(30, 30, 0, 0));
}

#[test]
fn split_wide_area_vertically() {
    let mut area = Area::new(0, 0, 800, 600);
    let child = area.split();
    assert_eq!(child, Area::new(0, 0, 400, 600));
    assert_eq!(area, Area::new(400, 0, 400, 600));
}

#[test]
fn split_high_area_horizontally() {
    let mut area = Area::new(400, 0, 400, 600);
    let child = area.split();
    assert_eq!(child, Area::new(400, 0, 400, 300));
    assert_eq!(area, Area::new(400, 300, 400, 300));
}

#[test]
fn split_odd_width_leaves_no_gap() {
    let mut area = Area::new(0, 0, 5, 2);
    let child = area.split();
    assert_eq!(child, Area::new(0, 0, 2, 2));
    assert_eq!(area, Area::new(2, 0, 3, 2));
}

#[test]
fn shrink_takes_gaps_off_every_side() {
    assert_eq!(Area::new(0, 0, 400, 600).shrink(10), Area::new(10, 10, 380, 580));
}
