//! The discrete part of a vessel's controls: precision mode, the SAS direction lock and
//! whether SAS is engaged, and the rule that locks the throttle at high time warp.
use vstd::prelude::*;

verus! {

/// How finely the pilot's inputs move the throttle and the attitude.
#[derive(Clone, Copy, Debug, PartialEq, Eq, Structural)]
pub enum ControlMode {
    Normal,
    Fine,
}

impl ControlMode {
    /// The other control mode.
    pub open spec fn other(self) -> ControlMode {
        match self {
            ControlMode::Normal => ControlMode::Fine,
            ControlMode::Fine => ControlMode::Normal,
        }
    }

    /// Switches between normal and fine control.
    pub fn toggled(self) -> (r: ControlMode)
        ensures
            r == self.other(),
    {
        match self {
            ControlMode::Normal => ControlMode::Fine,
            ControlMode::Fine => ControlMode::Normal,
        }
    }
}

impl Default for ControlMode {
    fn default() -> (r: ControlMode)
        ensures
            r == ControlMode::Normal,
    {
        ControlMode::Normal
    }
}

/// A direction that SAS can hold the vessel pointed at, relative to its orbit.
#[derive(Clone, Copy, Debug, PartialEq, Eq, Structural)]
pub enum Direction {
    Prograde,
    Retrograde,
    Radial,
    AntiRadial,
}

/// The time warp above which the throttle cannot be changed.
pub const THROTTLE_LOCK_WARP: u32 = 50;

/// The attitude inputs of one frame.
#[derive(Clone, Copy, Debug)]
pub struct AttitudeInput {
    /// The pilot is rotating the vessel by hand.
    pub rotating: bool,
    /// The SAS prograde button is held.
    pub sas_prograde: bool,
    /// The SAS retrograde button is held.
    pub sas_retrograde: bool,
    /// The SAS radial-out button is held.
    pub sas_radial: bool,
    /// The SAS radial-in button is held.
    pub sas_anti_radial: bool,
    /// The SAS toggle was just pressed.
    pub sas_toggle: bool,
}

/// The discrete control state of a vessel.
#[derive(Clone, Copy, Debug)]
pub struct VesselControls {
    /// The vessel is the one the pilot controls.
    pub controlled: bool,
    /// Normal or fine control.
    pub control_mode: ControlMode,
    /// The direction SAS holds, if any.
    pub direction_lock: Option<Direction>,
    /// SAS is engaged.
    pub sas_enabled: bool,
}

impl Default for VesselControls {
    fn default() -> (r: VesselControls)
        ensures
            r == (VesselControls {
                controlled: false,
                control_mode: ControlMode::Normal,
                direction_lock: None,
                sas_enabled: false,
            }),
    {
        VesselControls {
            controlled: false,
            control_mode: ControlMode::Normal,
            direction_lock: None,
            sas_enabled: false,
        }
    }
}

/// The direction lock after the frame's attitude inputs: a held SAS button sets its
/// direction (radial-in over radial-out over retrograde over prograde when several are held),
/// and otherwise rotating by hand releases the lock.
pub open spec fn lock_after(lock: Option<Direction>, input: AttitudeInput) -> Option<Direction> {
    if input.sas_anti_radial {
        Some(Direction::AntiRadial)
    } else if input.sas_radial {
        Some(Direction::Radial)
    } else if input.sas_retrograde {
        Some(Direction::Retrograde)
    } else if input.sas_prograde {
        Some(Direction::Prograde)
    } else if input.rotating {
        None
    } else {
        lock
    }
}

/// The SAS toggle pressed alone.
pub open spec fn sas_toggle_only() -> AttitudeInput {
    AttitudeInput {
        rotating: false,
        sas_prograde: false,
        sas_retrograde: false,
        sas_radial: false,
        sas_anti_radial: false,
        sas_toggle: true,
    }
}

impl VesselControls {
    /// The controls after the frame's attitude inputs.
    pub open spec fn after_attitude_input(self, input: AttitudeInput) -> VesselControls {
        VesselControls {
            direction_lock: lock_after(self.direction_lock, input),
            sas_enabled: self.sas_enabled != input.sas_toggle,
            ..self
        }
    }

    /// Switches between normal and fine control when the toggle was just pressed.
    pub fn apply_precision_toggle(&mut self, pressed: bool)
        ensures
            final(self).control_mode == if pressed {
                old(self).control_mode.other()
            } else {
                old(self).control_mode
            },
            final(self).controlled == old(self).controlled,
            final(self).direction_lock == old(self).direction_lock,
            final(self).sas_enabled == old(self).sas_enabled,
    {
        if pressed {
            self.control_mode = self.control_mode.toggled();
        }
    }

    /// Applies the frame's attitude inputs: rotating by hand releases the direction lock, a
    /// held SAS button sets the lock (later buttons in the order prograde, retrograde,
    /// radial-out, radial-in take precedence), and the SAS toggle flips SAS.
    pub fn apply_attitude_input(&mut self, input: AttitudeInput)
        ensures
            *final(self) == old(self).after_attitude_input(input),
    {
        if input.rotating {
            self.direction_lock = None;
        }
        if input.sas_prograde {
            self.direction_lock = Some(Direction::Prograde);
        }
        if input.sas_retrograde {
            self.direction_lock = Some(Direction::Retrograde);
        }
        if input.sas_radial {
            self.direction_lock = Some(Direction::Radial);
        }
        if input.sas_anti_radial {
            self.direction_lock = Some(Direction::AntiRadial);
        }
        if input.sas_toggle {
            self.sas_enabled = !self.sas_enabled;
        }
    }
}

/// Whether a change of throttle is refused at the given time warp: it is above
/// [`THROTTLE_LOCK_WARP`].
pub fn throttle_locked(warp_value: u32) -> (r: bool)
    ensures
        r == (warp_value > THROTTLE_LOCK_WARP),
{
    warp_value > THROTTLE_LOCK_WARP
}

/// Pressing the SAS toggle alone in two frames restores the controls, and pressing the
/// precision toggle twice restores the control mode.
pub proof fn lemma_toggles_round_trip(controls: VesselControls)
    ensures
        controls.after_attitude_input(sas_toggle_only()).after_attitude_input(sas_toggle_only())
            == controls,
        controls.after_attitude_input(sas_toggle_only()).sas_enabled != controls.sas_enabled,
        controls.control_mode.other().other() == controls.control_mode,
{
}

/// A held SAS button always leaves the vessel locked onto a direction, whatever the rest of
/// the input, and that direction is the one of a held button.
pub proof fn lemma_sas_button_locks(lock: Option<Direction>, input: AttitudeInput)
    requires
        input.sas_prograde || input.sas_retrograde || input.sas_radial || input.sas_anti_radial,
    ensures
        lock_after(lock, input) is Some,
        lock_after(lock, input) == Some(Direction::Prograde) ==> input.sas_prograde,
        lock_after(lock, input) == Some(Direction::Retrograde) ==> input.sas_retrograde,
        lock_after(lock, input) == Some(Direction::Radial) ==> input.sas_radial,
        lock_after(lock, input) == Some(Direction::AntiRadial) ==> input.sas_anti_radial,
{
}

/// The direction lock after one frame, in terms of the inputs: radial-in wins over every other
/// button, radial-out over retrograde and prograde, retrograde over prograde; with no button
/// held, rotating by hand releases the lock and otherwise the lock stays. SAS flips exactly
/// when the toggle is pressed, and nothing else changes.
pub proof fn lemma_attitude_input(controls: VesselControls, input: AttitudeInput)
    ensures
        input.sas_anti_radial ==> controls.after_attitude_input(input).direction_lock == Some(
            Direction::AntiRadial,
        ),
        !input.sas_anti_radial && input.sas_radial ==> controls.after_attitude_input(
            input,
        ).direction_lock == Some(Direction::Radial),
        !input.sas_anti_radial && !input.sas_radial && input.sas_retrograde
            ==> controls.after_attitude_input(input).direction_lock == Some(Direction::Retrograde),
        !input.sas_anti_radial && !input.sas_radial && !input.sas_retrograde && input.sas_prograde
            ==> controls.after_attitude_input(input).direction_lock == Some(Direction::Prograde),
        !input.sas_anti_radial && !input.sas_radial && !input.sas_retrograde && !input.sas_prograde
            ==> controls.after_attitude_input(input).direction_lock == if input.rotating {
            None
        } else {
            controls.direction_lock
        },
        controls.after_attitude_input(input).sas_enabled == if input.sas_toggle {
            !controls.sas_enabled
        } else {
            controls.sas_enabled
        },
        controls.after_attitude_input(input).controlled == controls.controlled,
        controls.after_attitude_input(input).control_mode == controls.control_mode,
{
}

/// The precision toggle switches between the two modes: it never leaves the mode as it was.
pub proof fn lemma_control_mode_other(mode: ControlMode)
    ensures
        mode.other() != mode,
        mode == ControlMode::Normal ==> mode.other() == ControlMode::Fine,
        mode == ControlMode::Fine ==> mode.other() == ControlMode::Normal,
{
}

} // verus!
