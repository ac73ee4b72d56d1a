use orbital::camera::{
    camera_orientation, change_focus, cycle_focus, first_controlled_vessel, CameraOrientation,
    CameraViewMode, FocusActions,
};

const NONE: FocusActions = FocusActions {
    focus_none: false,
    focus_controlled_vessel: false,
    focus_next: false,
    focus_prev: false,
};

#[test]
fn view_modes_cycle() {
    let mut mode = CameraViewMode::Auto;
    let mut seen = Vec::new();
    for _ in 0..5 {
        mode = mode.next();
        seen.push(mode);
    }
    assert_eq!(
        seen,
        vec![
            CameraViewMode::Free,
            CameraViewMode::Locked,
            CameraViewMode::Chase,
            CameraViewMode::Orbital,
            CameraViewMode::Auto
        ]
    );
}

#[test]
fn cycle_focus_forward_walks_descending() {
    let targets = vec![10u64, 20, 30];
    assert_eq!(cycle_focus(&targets, true, None), Some(30));
    assert_eq!(cycle_focus(&targets, true, Some(30)), Some(20));
    assert_eq!(cycle_focus(&targets, true, Some(10)), Some(30));
}

#[test]
fn cycle_focus_backward_walks_ascending() {
    let targets = vec![10u64, 20, 30];
    assert_eq!(cycle_focus(&targets, false, None), Some(10));
    assert_eq!(cycle_focus(&targets, false, Some(10)), Some(20));
    assert_eq!(cycle_focus(&targets, false, Some(30)), Some(10));
}

#[test]
fn cycle_focus_keeps_unknown_target_and_empty_list() {
    let targets = vec![10u64, 20, 30];
    assert_eq!(cycle_focus(&targets, true, Some(99)), Some(99));
    assert_eq!(cycle_focus(&Vec::new(), true, Some(5)), Some(5));
    assert_eq!(cycle_focus(&Vec::new(), false, None), None);
}

#[test]
fn cycle_focus_round_trip() {
    let targets = vec![3u64, 8, 13, 21];
    for t in &targets {
        let there = cycle_focus(&targets, true, Some(*t));
        assert_eq!(cycle_focus(&targets, false, there), Some(*t));
    }
}

#[test]
fn first_controlled_vessel_in_order() {
    assert_eq!(first_controlled_vessel(&vec![(1, false), (2, true), (3, true)]), Some(2));
    assert_eq!(first_controlled_vessel(&vec![(1, false)]), None);
}

#[test]
fn change_focus_applies_actions_in_order() {
    let vessels = vec![(4u64, false), (7, true)];
    let targets = vec![1u64, 4, 7];
    assert_eq!(change_focus(Some(4), NONE, &vessels, &targets), Some(4));
    let clear = FocusActions { focus_none: true, ..NONE };
    assert_eq!(change_focus(Some(4), clear, &vessels, &targets), None);
    let controlled = FocusActions { focus_none: true, focus_controlled_vessel: true, ..NONE };
    assert_eq!(change_focus(Some(1), controlled, &vessels, &targets), Some(7));
    let next = FocusActions { focus_next: true, focus_prev: true, ..NONE };
    assert_eq!(change_focus(Some(4), next, &vessels, &targets), Some(1));
    let prev = FocusActions { focus_prev: true, ..NONE };
    assert_eq!(change_focus(Some(4), prev, &vessels, &targets), Some(7));
    let none_then_next = FocusActions { focus_none: true, focus_next: true, ..NONE };
    assert_eq!(change_focus(Some(4), none_then_next, &vessels, &targets), Some(7));
}

#[test]
fn camera_orientation_per_mode() {
    assert_eq!(camera_orientation(CameraViewMode::Orbital, true, true), CameraOrientation::Fixed);
    assert_eq!(camera_orientation(CameraViewMode::Chase, true, true), CameraOrientation::Fixed);
    assert_eq!(
        camera_orientation(CameraViewMode::Locked, false, false),
        CameraOrientation::FollowAttitude
    );
    assert_eq!(
        camera_orientation(CameraViewMode::Free, true, false),
        CameraOrientation::AlignedToPrimary
    );
    assert_eq!(camera_orientation(CameraViewMode::Free, false, true), CameraOrientation::Fixed);
    assert_eq!(
        camera_orientation(CameraViewMode::Auto, true, true),
        CameraOrientation::AlignedToPrimary
    );
    assert_eq!(camera_orientation(CameraViewMode::Auto, true, false), CameraOrientation::Fixed);
    assert_eq!(camera_orientation(CameraViewMode::Auto, false, true), CameraOrientation::Fixed);
}
