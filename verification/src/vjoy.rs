//! The driver-facing odds and ends the scheduler's surroundings need:
//! the device-claim decision over a reported joystick status, and the
//! fixed N64 button binding used by older tooling.

use vstd::prelude::*;

verus! {

/// The ownership state a virtual-joystick driver reports for a device.
#[derive(Copy, Clone, PartialEq, Eq, Structural, Debug)]
pub enum VjoystickStatus {
    /// Owned by this application.
    Owned,
    /// Owned by no one.
    Free,
    /// Owned by someone else.
    Busy,
    /// Doesn't exist, or the driver is down.
    Missing,
    /// Unknown.
    Unknown,
}

/// Decide how to claim a device in the reported state: a free device
/// must be acquired (`Ok(true)`), an already-owned one needs nothing
/// (`Ok(false)`), and any other state cannot be claimed.
pub fn claim_vjoystick(status: VjoystickStatus) -> (r: Result<bool, u8>)
    ensures
        r == (match status {
            VjoystickStatus::Free => Ok::<bool, u8>(true),
            VjoystickStatus::Owned => Ok::<bool, u8>(false),
            _ => Err::<bool, u8>(1u8),
        }),
{
    match status {
        VjoystickStatus::Free => Ok(true),
        VjoystickStatus::Owned => Ok(false),
        _ => Err(1),
    }
}

/// A button of the fixed N64 binding.
#[derive(Copy, Clone, PartialEq, Eq, Structural, Debug)]
pub enum ButtonName {
    A,
    B,
    Z,
    L,
    R,
    Start,
    Cup,
    Cdown,
    Cleft,
    Cright,
    Dup,
    Ddown,
    Dleft,
    Dright,
}

/// The one-based driver button index each N64 button is bound to.
pub open spec fn spec_vjoy_button_index(b: ButtonName) -> u8 {
    match b {
        ButtonName::A => 0x01,
        ButtonName::B => 0x02,
        ButtonName::Z => 0x03,
        ButtonName::L => 0x04,
        ButtonName::R => 0x05,
        ButtonName::Start => 0x06,
        ButtonName::Cup => 0x07,
        ButtonName::Cdown => 0x08,
        ButtonName::Cleft => 0x09,
        ButtonName::Cright => 0x10,
        ButtonName::Dup => 0x11,
        ButtonName::Ddown => 0x12,
        ButtonName::Dleft => 0x13,
        ButtonName::Dright => 0x14,
    }
}

impl ButtonName {
    /// Driver button index of this button.
    pub fn get_vjoy_button_index(&self) -> (r: u8)
        ensures
            r == spec_vjoy_button_index(*self),
    {
        match self {
            ButtonName::A => 0x01,
            ButtonName::B => 0x02,
            ButtonName::Z => 0x03,
            ButtonName::L => 0x04,
            ButtonName::R => 0x05,
            ButtonName::Start => 0x06,
            ButtonName::Cup => 0x07,
            ButtonName::Cdown => 0x08,
            ButtonName::Cleft => 0x09,
            ButtonName::Cright => 0x10,
            ButtonName::Dup => 0x11,
            ButtonName::Ddown => 0x12,
            ButtonName::Dleft => 0x13,
            ButtonName::Dright => 0x14,
        }
    }
}

} // verus!
