//! GPIO rules: which command a debounced edge produces, and how the
//! status LED behaves for each runtime state.  The pins themselves
//! live outside.

use vstd::prelude::*;

use crate::protocol::{ClientCommand, RuntimeState};

verus! {

/// Which pins the peripherals sit on, when they are present.
#[derive(Debug, Clone)]
pub struct GpioConfig {
    pub button_pin: Option<u8>,
    pub lid_pin: Option<u8>,
    pub status_led_pin: Option<u8>,
}

/// How the status LED is driven.
#[derive(Debug, Clone, Copy, PartialEq, Eq, Structural)]
pub enum LedMode {
    /// A steady brightness for the current state.
    Fixed,
    /// A slow pulse between idle and full brightness.
    Pulse,
}

/// The LED pulses while the assistant thinks, and optionally while it
/// speaks; every other state holds a steady brightness.
pub fn desired_led_mode(state: RuntimeState, pulse_while_speaking: bool) -> (r: LedMode)
    ensures
        state is Processing ==> r == LedMode::Pulse,
        (state is Speaking && pulse_while_speaking) ==> r == LedMode::Pulse,
        (!(state is Processing) && !(state is Speaking && pulse_while_speaking)) ==> r
            == LedMode::Fixed,
{
    match state {
        RuntimeState::Processing => LedMode::Pulse,
        RuntimeState::Speaking => if pulse_while_speaking {
            LedMode::Pulse
        } else {
            LedMode::Fixed
        },
        _ => LedMode::Fixed,
    }
}

/// The command a debounced edge produces: the button and the lid
/// switch are both active-low.
pub fn gpio_edge_command(is_button: bool, level_low: bool) -> (r: ClientCommand)
    ensures
        is_button && level_low ==> r is ButtonPress,
        is_button && !level_low ==> r is ButtonRelease,
        !is_button && level_low ==> r is LidClose,
        !is_button && !level_low ==> r is LidOpen,
{
    if is_button {
        if level_low {
            ClientCommand::ButtonPress
        } else {
            ClientCommand::ButtonRelease
        }
    } else {
        if level_low {
            ClientCommand::LidClose
        } else {
            ClientCommand::LidOpen
        }
    }
}

} // verus!
