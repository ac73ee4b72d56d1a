use orbital::vessel::{throttle_locked, AttitudeInput, ControlMode, Direction, VesselControls};

const IDLE: AttitudeInput = AttitudeInput {
    rotating: false,
    sas_prograde: false,
    sas_retrograde: false,
    sas_radial: false,
    sas_anti_radial: false,
    sas_toggle: false,
};

fn controls() -> VesselControls {
    VesselControls {
        controlled: true,
        control_mode: ControlMode::Normal,
        direction_lock: Some(Direction::Prograde),
        sas_enabled: true,
    }
}

#[test]
fn precision_toggle() {
    let mut c = controls();
    c.apply_precision_toggle(true);
    assert_eq!(c.control_mode, ControlMode::Fine);
    c.apply_precision_toggle(false);
    assert_eq!(c.control_mode, ControlMode::Fine);
    c.apply_precision_toggle(true);
    assert_eq!(c.control_mode, ControlMode::Normal);
    assert_eq!(ControlMode::default(), ControlMode::Normal);
}

#[test]
fn rotating_releases_lock() {
    let mut c = controls();
    c.apply_attitude_input(AttitudeInput { rotating: true, ..IDLE });
    assert_eq!(c.direction_lock, None);
    assert!(c.sas_enabled);
}

#[test]
fn sas_buttons_set_lock_last_wins() {
    let mut c = controls();
    c.apply_attitude_input(AttitudeInput { rotating: true, sas_retrograde: true, ..IDLE });
    assert_eq!(c.direction_lock, Some(Direction::Retrograde));
    c.apply_attitude_input(AttitudeInput { sas_prograde: true, sas_anti_radial: true, ..IDLE });
    assert_eq!(c.direction_lock, Some(Direction::AntiRadial));
    c.apply_attitude_input(AttitudeInput { sas_radial: true, ..IDLE });
    assert_eq!(c.direction_lock, Some(Direction::Radial));
}

#[test]
fn sas_toggle_twice_restores() {
    let mut c = controls();
    let toggle = AttitudeInput { sas_toggle: true, ..IDLE };
    c.apply_attitude_input(toggle);
    assert!(!c.sas_enabled);
    assert_eq!(c.direction_lock, Some(Direction::Prograde));
    c.apply_attitude_input(toggle);
    assert!(c.sas_enabled);
}

#[test]
fn throttle_lock_threshold() {
    assert!(!throttle_locked(50));
    assert!(throttle_locked(100));
    assert!(!throttle_locked(1));
}

#[test]
fn default_controls() {
    let c = VesselControls::default();
    assert!(!c.controlled);
    assert!(!c.sas_enabled);
    assert_eq!(c.direction_lock, None);
    assert_eq!(c.control_mode, ControlMode::Normal);
}
