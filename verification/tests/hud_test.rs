use orbital::hud::{
    cycle_subject, pitch_graduation, sas_widget_states, subject_label, unit_box_chars,
    warp_box_state, warp_index_of, Graduation, GraduationWidth, SasWidgetState, WarpBoxState,
};
use orbital::vessel::Direction;

#[test]
fn cycle_subject_wraps_both_ways() {
    let vessels = vec![5u64, 9, 12];
    assert_eq!(cycle_subject(&vessels, 5, 1), 9);
    assert_eq!(cycle_subject(&vessels, 12, 1), 5);
    assert_eq!(cycle_subject(&vessels, 5, -1), 12);
    assert_eq!(cycle_subject(&vessels, 9, -1), 5);
    assert_eq!(cycle_subject(&vessels, 9, 7), 12);
    assert_eq!(cycle_subject(&vessels, 9, isize::MIN), 12);
    assert_eq!(cycle_subject(&vec![42], 42, -1), 42);
}

#[test]
fn cycle_subject_round_trip() {
    let vessels = vec![1u64, 2, 3, 4];
    for v in &vessels {
        let next = cycle_subject(&vessels, *v, 1);
        assert_eq!(cycle_subject(&vessels, next, -1), *v);
    }
}

#[test]
fn warp_boxes() {
    assert_eq!(warp_box_state(0, 2, 5), WarpBoxState::Active);
    assert_eq!(warp_box_state(2, 2, 5), WarpBoxState::Active);
    assert_eq!(warp_box_state(3, 2, 5), WarpBoxState::Allowed);
    assert_eq!(warp_box_state(5, 2, 5), WarpBoxState::Allowed);
    assert_eq!(warp_box_state(6, 2, 5), WarpBoxState::Disallowed);
}

#[test]
fn warp_index_lookup() {
    assert_eq!(warp_index_of(1), Some(0));
    assert_eq!(warp_index_of(50), Some(4));
    assert_eq!(warp_index_of(1_000_000_000), Some(12));
    assert_eq!(warp_index_of(3), None);
}

#[test]
fn sas_selector_lighting() {
    let off = sas_widget_states(false, Some(Direction::Radial));
    assert_eq!(off.radial, SasWidgetState::Disabled);
    assert_eq!(off.stabilize, SasWidgetState::Disabled);
    let radial = sas_widget_states(true, Some(Direction::Radial));
    assert_eq!(radial.radial, SasWidgetState::Selected);
    assert_eq!(radial.prograde, SasWidgetState::Normal);
    assert_eq!(radial.stabilize, SasWidgetState::Normal);
    let free = sas_widget_states(true, None);
    assert_eq!(free.stabilize, SasWidgetState::Selected);
    assert_eq!(free.anti_radial, SasWidgetState::Normal);
}

#[test]
fn unit_boxes_pad_with_spaces() {
    assert_eq!(unit_box_chars(&vec!['k', 'm'], 6), vec!['k', 'm', ' ', ' ', ' ', ' ']);
    assert_eq!(unit_box_chars(&vec!['G', 'm'], 1), vec!['G']);
}

#[test]
fn pitch_ladder() {
    assert_eq!(pitch_graduation(1), None);
    assert_eq!(pitch_graduation(-3), None);
    assert_eq!(
        pitch_graduation(-144),
        Some(Graduation { width: GraduationWidth::Wide, labelled: true })
    );
    assert_eq!(
        pitch_graduation(8),
        Some(Graduation { width: GraduationWidth::Medium, labelled: true })
    );
    assert_eq!(
        pitch_graduation(-2),
        Some(Graduation { width: GraduationWidth::Narrow, labelled: false })
    );
    assert_eq!(
        pitch_graduation(72),
        Some(Graduation { width: GraduationWidth::Wide, labelled: true })
    );
}

#[test]
fn subject_label_lists_primaries_first() {
    let chain = vec![String::from("Falcon 9"), String::from("Earth"), String::from("Sun")];
    assert_eq!(subject_label(Some(&chain)), "Sun / Earth / Falcon 9");
    assert_eq!(subject_label(Some(&vec![String::from("Pizza")])), "Pizza");
    assert_eq!(subject_label(Some(&Vec::new())), "");
    assert_eq!(subject_label(None), "none");
}
