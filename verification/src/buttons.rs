//! The Wiimote-style button bitfield carried in report bytes 1 and 2.
//!
//! ```text
//! Byte 1 (low):                Byte 2 (high):
//!   bit 0  D-pad Left            bit 0  Two
//!   bit 1  D-pad Right           bit 1  One
//!   bit 2  D-pad Down            bit 2  B
//!   bit 3  D-pad Up              bit 3  A
//!   bit 4  Plus                  bit 4  Minus
//!                                bit 7  Home
//! ```
//!
//! The Balance Board's single front button shows up somewhere in this field;
//! firmwares differ on which bit, so the board button is "any bit set".
use vstd::prelude::*;

verus! {

/// The packed value of the two button bytes, low byte first.
pub open spec fn spec_pack_le(b1: u8, b2: u8) -> u16 {
    (b1 as int + 256 * (b2 as int)) as u16
}

/// Whether bit `mask` is set in `raw`.
pub open spec fn spec_bit(raw: u16, mask: u16) -> bool {
    raw & mask != 0
}

/// Decoded Wiimote button state from a single core-buttons report.
#[derive(Debug, Clone, Copy, PartialEq, Eq, Default)]
pub struct WiimoteButtons {
    raw: u16,
}

impl View for WiimoteButtons {
    type V = u16;

    /// The packed 16-bit button field.
    closed spec fn view(&self) -> u16 {
        self.raw
    }
}

impl WiimoteButtons {
    /// Builds the state from the two raw bytes at offsets 1 and 2 of a
    /// Wiimote report, low byte first.
    pub fn from_bytes(b1: u8, b2: u8) -> (res: Self)
        ensures
            res@ == spec_pack_le(b1, b2),
            res@ as int == b1 as int + 256 * (b2 as int),
    {
        let raw: u16 = (b1 as u16) | ((b2 as u16) << 8u16);
        assert(((b1 as u16) | ((b2 as u16) << 8u16)) as int == b1 as int + 256 * (b2 as int))
            by (bit_vector);
        WiimoteButtons { raw }
    }

    /// The packed bitfield, for comparing against another frame.
    pub fn raw(self) -> (res: u16)
        ensures
            res == self@,
    {
        self.raw
    }

    /// `true` if any button bit is set.
    pub fn any_pressed(self) -> (res: bool)
        ensures
            res == (self@ != 0),
    {
        self.raw != 0
    }

    /// The Balance Board's single physical button: `true` when any bit of
    /// the field is set, whichever bit the firmware uses for it.
    pub fn balance_board_button(self) -> (res: bool)
        ensures
            res == (self@ != 0),
    {
        self.any_pressed()
    }

    /// Wiimote D-pad Left (`0x0001`).
    pub fn dpad_left(self) -> (res: bool)
        ensures
            res == spec_bit(self@, 0x0001),
    {
        self.raw & 0x0001 != 0
    }

    /// Wiimote D-pad Right (`0x0002`).
    pub fn dpad_right(self) -> (res: bool)
        ensures
            res == spec_bit(self@, 0x0002),
    {
        self.raw & 0x0002 != 0
    }

    /// Wiimote D-pad Down (`0x0004`).
    pub fn dpad_down(self) -> (res: bool)
        ensures
            res == spec_bit(self@, 0x0004),
    {
        self.raw & 0x0004 != 0
    }

    /// Wiimote D-pad Up (`0x0008`).
    pub fn dpad_up(self) -> (res: bool)
        ensures
            res == spec_bit(self@, 0x0008),
    {
        self.raw & 0x0008 != 0
    }

    /// Wiimote Plus (`0x0010`).
    pub fn plus(self) -> (res: bool)
        ensures
            res == spec_bit(self@, 0x0010),
    {
        self.raw & 0x0010 != 0
    }

    /// Wiimote 2 (`0x0100`).
    pub fn two(self) -> (res: bool)
        ensures
            res == spec_bit(self@, 0x0100),
    {
        self.raw & 0x0100 != 0
    }

    /// Wiimote 1 (`0x0200`).
    pub fn one(self) -> (res: bool)
        ensures
            res == spec_bit(self@, 0x0200),
    {
        self.raw & 0x0200 != 0
    }

    /// Wiimote B (`0x0400`).
    pub fn b(self) -> (res: bool)
        ensures
            res == spec_bit(self@, 0x0400),
    {
        self.raw & 0x0400 != 0
    }

    /// Wiimote A (`0x0800`).
    pub fn a(self) -> (res: bool)
        ensures
            res == spec_bit(self@, 0x0800),
    {
        self.raw & 0x0800 != 0
    }

    /// Wiimote Minus (`0x1000`).
    pub fn minus(self) -> (res: bool)
        ensures
            res == spec_bit(self@, 0x1000),
    {
        self.raw & 0x1000 != 0
    }

    /// Wiimote Home (`0x8000`).
    pub fn home(self) -> (res: bool)
        ensures
            res == spec_bit(self@, 0x8000),
    {
        self.raw & 0x8000 != 0
    }
}


/// The documented layout: D-pad Left, Right, Down, Up and Plus are bits 0 to
/// 4 of the first byte; Two, One, B, A, Minus and Home are bits 0 to 4 and 7
/// of the second.
pub proof fn lemma_button_layout(b1: u8, b2: u8)
    ensures
        spec_bit(spec_pack_le(b1, b2), 0x0001) == (b1 & 0x01 != 0),
        spec_bit(spec_pack_le(b1, b2), 0x0002) == (b1 & 0x02 != 0),
        spec_bit(spec_pack_le(b1, b2), 0x0004) == (b1 & 0x04 != 0),
        spec_bit(spec_pack_le(b1, b2), 0x0008) == (b1 & 0x08 != 0),
        spec_bit(spec_pack_le(b1, b2), 0x0010) == (b1 & 0x10 != 0),
        spec_bit(spec_pack_le(b1, b2), 0x0100) == (b2 & 0x01 != 0),
        spec_bit(spec_pack_le(b1, b2), 0x0200) == (b2 & 0x02 != 0),
        spec_bit(spec_pack_le(b1, b2), 0x0400) == (b2 & 0x04 != 0),
        spec_bit(spec_pack_le(b1, b2), 0x0800) == (b2 & 0x08 != 0),
        spec_bit(spec_pack_le(b1, b2), 0x1000) == (b2 & 0x10 != 0),
        spec_bit(spec_pack_le(b1, b2), 0x8000) == (b2 & 0x80 != 0),
        (spec_pack_le(b1, b2) != 0) == (b1 != 0 || b2 != 0),
{
    let raw: u16 = (b1 as u16) | ((b2 as u16) << 8u16);
    assert(raw as int == b1 as int + 256 * (b2 as int)) by (bit_vector)
        requires raw == (b1 as u16) | ((b2 as u16) << 8u16);
    assert(spec_pack_le(b1, b2) == raw);
    assert({
        &&& (raw & 0x0001 != 0) == (b1 & 0x01 != 0)
        &&& (raw & 0x0002 != 0) == (b1 & 0x02 != 0)
        &&& (raw & 0x0004 != 0) == (b1 & 0x04 != 0)
        &&& (raw & 0x0008 != 0) == (b1 & 0x08 != 0)
        &&& (raw & 0x0010 != 0) == (b1 & 0x10 != 0)
        &&& (raw & 0x0100 != 0) == (b2 & 0x01 != 0)
        &&& (raw & 0x0200 != 0) == (b2 & 0x02 != 0)
        &&& (raw & 0x0400 != 0) == (b2 & 0x04 != 0)
        &&& (raw & 0x0800 != 0) == (b2 & 0x08 != 0)
        &&& (raw & 0x1000 != 0) == (b2 & 0x10 != 0)
        &&& (raw & 0x8000 != 0) == (b2 & 0x80 != 0)
        &&& (raw != 0) == (b1 != 0 || b2 != 0)
    }) by (bit_vector)
        requires raw == (b1 as u16) | ((b2 as u16) << 8u16);
}

} // verus!
