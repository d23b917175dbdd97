use dimos_viewer::viewer::{click_debounced, on_selection, robot_prefix_for, starts_with, SelectionAction};

#[test]
fn robot_prefix_matches_known_robots() {
    assert_eq!(robot_prefix_for("/world/go2"), Some("/world/go2"));
    assert_eq!(robot_prefix_for("/world/go2/base_link"), Some("/world/go2"));
    assert_eq!(robot_prefix_for("/world/g1/torso"), Some("/world/g1"));
    assert_eq!(robot_prefix_for("/world/robot"), Some("/world/robot"));
    assert_eq!(robot_prefix_for("/world/grid"), None);
    assert_eq!(robot_prefix_for("/world"), None);
    assert_eq!(robot_prefix_for(""), None);
}

#[test]
fn robot_prefix_is_a_plain_prefix_test() {
    // "/world/go2x" starts with "/world/go2": prefixes are matched as text.
    assert_eq!(robot_prefix_for("/world/go2x"), Some("/world/go2"));
    assert_eq!(robot_prefix_for("/world/g10"), Some("/world/g1"));
}

#[test]
fn starts_with_on_bytes() {
    assert!(starts_with("/world/go2", "/world"));
    assert!(starts_with("abc", ""));
    assert!(!starts_with("ab", "abc"));
    assert!(!starts_with("abd", "abc"));
    assert!(starts_with("ロボット", "ロボ"));
}

#[test]
fn clicks_within_debounce_window_are_dropped() {
    assert!(click_debounced(0));
    assert!(click_debounced(99));
    assert!(!click_debounced(100));
    assert!(!click_debounced(5000));
}

#[test]
fn selection_decides_engage_disengage_and_goal() {
    assert_eq!(
        on_selection("/world/go2/base", true, true, false, 1000),
        SelectionAction { engage: Some("/world/go2"), disengage: false, nav_goal: false }
    );
    assert_eq!(
        on_selection("/world/grid", true, true, true, 1000),
        SelectionAction { engage: None, disengage: true, nav_goal: true }
    );
    assert_eq!(
        on_selection("/world/grid", true, true, false, 50),
        SelectionAction { engage: None, disengage: false, nav_goal: false }
    );
    assert_eq!(
        on_selection("/world/grid", true, false, false, 1000),
        SelectionAction { engage: None, disengage: false, nav_goal: false }
    );
    assert_eq!(
        on_selection("/world/grid", false, true, true, 1000),
        SelectionAction { engage: None, disengage: true, nav_goal: false }
    );
}
