//! The virtual controller's axes.
use vstd::prelude::*;

verus! {

/// Lowest value of a vJoy axis.
pub const AXIS_MIN: i32 = 1;
/// Highest value of a vJoy axis; the center is `0x4000`.
pub const AXIS_MAX: i32 = 0x8000;

/// One of the six vJoy generic-desktop axes exposed to Steam Input.
#[derive(Debug, Clone, Copy, PartialEq, Eq, Structural)]
pub enum VJoyAxis {
    /// Left/right lean.
    X,
    /// Forward/back lean.
    Y,
    /// Top-right load.
    Z,
    /// Bottom-right load.
    Rx,
    /// Top-left load.
    Ry,
    /// Bottom-left load.
    Rz,
}

/// The HID usage ID (Generic Desktop page `0x01`) of each axis.
pub open spec fn spec_usage(axis: VJoyAxis) -> u32 {
    match axis {
        VJoyAxis::X => 0x30,
        VJoyAxis::Y => 0x31,
        VJoyAxis::Z => 0x32,
        VJoyAxis::Rx => 0x33,
        VJoyAxis::Ry => 0x34,
        VJoyAxis::Rz => 0x35,
    }
}

impl VJoyAxis {
    /// The HID usage ID that vJoy uses to name the axis.
    pub fn usage(self) -> (res: u32)
        ensures
            res == spec_usage(self),
    {
        match self {
            VJoyAxis::X => 0x30,
            VJoyAxis::Y => 0x31,
            VJoyAxis::Z => 0x32,
            VJoyAxis::Rx => 0x33,
            VJoyAxis::Ry => 0x34,
            VJoyAxis::Rz => 0x35,
        }
    }
}

} // verus!
