//! Calibration constants from the board's EEPROM.
//!
//! The board stores, per sensor, the raw value it reads under 0 kg, 17 kg and
//! 34 kg, in a 24-byte block at extension registers `0xa40024..=0xa4003b`.
use vstd::prelude::*;
use crate::error::CalibrationError;
use crate::report::{quad_at, read_be16};
use crate::sensors::{Corner, SensorQuad};

verus! {

/// The three calibration reference points from the board's EEPROM.
///
/// | Offset   | Meaning                          |
/// |----------|----------------------------------|
/// | `0..8`   | Raw values at 0 kg per sensor    |
/// | `8..16`  | Raw values at 17 kg per sensor   |
/// | `16..24` | Raw values at 34 kg per sensor   |
///
/// Each 8-byte chunk holds four big-endian 16-bit values in report order
/// (top-right, bottom-right, top-left, bottom-left).
#[derive(Debug, Clone, Copy, PartialEq)]
pub struct Calibration {
    /// Raw values reported when 0 kg is on each sensor.
    pub kg0: SensorQuad<u16>,
    /// Raw values reported when 17 kg is on each sensor.
    pub kg17: SensorQuad<u16>,
    /// Raw values reported when 34 kg is on each sensor.
    pub kg34: SensorQuad<u16>,
}

/// Every corner reads strictly more under 17 kg than under 0 kg, and
/// strictly more under 34 kg than under 17 kg.
pub open spec fn monotonic(kg0: SensorQuad<u16>, kg17: SensorQuad<u16>, kg34: SensorQuad<u16>) -> bool {
    forall|c: Corner| kg0.at(c) < kg17.at(c) && #[trigger] kg17.at(c) < kg34.at(c)
}

impl Calibration {
    /// The constants satisfy the ordering that calibration depends on.
    pub open spec fn is_monotonic(self) -> bool {
        monotonic(self.kg0, self.kg17, self.kg34)
    }

    /// What parsing a 24-byte block yields.
    pub open spec fn spec_from_eeprom(bytes: Seq<u8>) -> Result<Calibration, CalibrationError> {
        let cal = Calibration {
            kg0: quad_at(bytes, 0),
            kg17: quad_at(bytes, 8),
            kg34: quad_at(bytes, 16),
        };
        if cal.is_monotonic() {
            Ok(cal)
        } else {
            Err(CalibrationError::Nonmonotonic)
        }
    }

    /// Parses the 24-byte EEPROM calibration block.
    ///
    /// For every sensor the block must read `kg0 < kg17 < kg34`; otherwise
    /// (typically uninitialized or corrupted EEPROM) the result is
    /// [`CalibrationError::Nonmonotonic`].
    pub fn from_eeprom(bytes: &[u8; 24]) -> (res: Result<Self, CalibrationError>)
        ensures
            res == Self::spec_from_eeprom(bytes@),
            res matches Ok(cal) ==> cal.is_monotonic(),
    {
        let s: &[u8] = bytes.as_slice();
        let kg0 = read_quad(&s[0..8]);
        let kg17 = read_quad(&s[8..16]);
        let kg34 = read_quad(&s[16..24]);
        proof {
            assert forall|i: int| 0 <= i < 8 implies s@.subrange(8, 16)[i] == bytes@[8 + i] by {}
            assert forall|i: int| 0 <= i < 8 implies s@.subrange(16, 24)[i] == bytes@[16 + i] by {}
        }
        let ok = monotonic3(kg0.top_right, kg17.top_right, kg34.top_right)
            && monotonic3(kg0.bottom_right, kg17.bottom_right, kg34.bottom_right)
            && monotonic3(kg0.top_left, kg17.top_left, kg34.top_left)
            && monotonic3(kg0.bottom_left, kg17.bottom_left, kg34.bottom_left);
        let cal = Calibration { kg0, kg17, kg34 };
        proof {
            if ok {
                assert forall|c: Corner| kg0.at(c) < kg17.at(c) && #[trigger] kg17.at(c) < kg34.at(c) by {
                    match c {
                        Corner::TopRight => {},
                        Corner::BottomRight => {},
                        Corner::TopLeft => {},
                        Corner::BottomLeft => {},
                    }
                }
            } else {
                assert(!(kg0.at(Corner::TopRight) < kg17.at(Corner::TopRight) && kg17.at(Corner::TopRight) < kg34.at(Corner::TopRight))
                    || !(kg0.at(Corner::BottomRight) < kg17.at(Corner::BottomRight) && kg17.at(Corner::BottomRight) < kg34.at(Corner::BottomRight))
                    || !(kg0.at(Corner::TopLeft) < kg17.at(Corner::TopLeft) && kg17.at(Corner::TopLeft) < kg34.at(Corner::TopLeft))
                    || !(kg0.at(Corner::BottomLeft) < kg17.at(Corner::BottomLeft) && kg17.at(Corner::BottomLeft) < kg34.at(Corner::BottomLeft)));
            }
        }
        if !ok {
            return Err(CalibrationError::Nonmonotonic);
        }
        Ok(cal)
    }
}

/// `a < b < c`.
fn monotonic3(a: u16, b: u16, c: u16) -> (res: bool)
    ensures
        res == (a < b && b < c),
{
    a < b && b < c
}

/// Reads four big-endian 16-bit values from the first 8 bytes of `chunk`.
fn read_quad(chunk: &[u8]) -> (res: SensorQuad<u16>)
    requires
        chunk.len() >= 8,
    ensures
        res == quad_at(chunk@, 0),
{
    SensorQuad {
        top_right: read_be16(chunk[0], chunk[1]),
        bottom_right: read_be16(chunk[2], chunk[3]),
        top_left: read_be16(chunk[4], chunk[5]),
        bottom_left: read_be16(chunk[6], chunk[7]),
    }
}


/// An exact weight in kilograms, as the fraction `num / den`.
///
/// A denominator of zero stands for the unbounded result of a degenerate
/// calibration segment, as division by zero does in floating point.
#[derive(Debug, Clone, Copy, PartialEq, Eq, Structural)]
pub struct Kilograms {
    /// Numerator.
    pub num: i32,
    /// Denominator.
    pub den: i32,
}

/// Piecewise-linear interpolation between the three reference points, as an
/// exact fraction `(num, den)`:
/// - at or below the 0 kg reading: 0;
/// - below the 17 kg reading: `17 * (raw - c0) / (c17 - c0)`;
/// - otherwise the upper segment, extended past 34 kg with its own slope:
///   `17 + 17 * (raw - c17) / (c34 - c17)`.
pub open spec fn spec_interpolate(raw: u16, c0: u16, c17: u16, c34: u16) -> (int, int) {
    if raw <= c0 {
        (0, 1)
    } else if raw < c17 {
        (17 * (raw - c0), c17 - c0)
    } else {
        (17 * (c34 - c17) + 17 * (raw - c17), c34 - c17)
    }
}

/// The weight `raw` stands for on one sensor, as an exact fraction.
fn interpolate(raw: u16, c0: u16, c17: u16, c34: u16) -> (res: Kilograms)
    ensures
        (res.num as int, res.den as int) == spec_interpolate(raw, c0, c17, c34),
{
    let raw = raw as i32;
    let c0 = c0 as i32;
    let c17 = c17 as i32;
    let c34 = c34 as i32;
    if raw <= c0 {
        Kilograms { num: 0, den: 1 }
    } else if raw < c17 {
        Kilograms { num: 17 * (raw - c0), den: c17 - c0 }
    } else {
        Kilograms { num: 17 * (c34 - c17) + 17 * (raw - c17), den: c34 - c17 }
    }
}

impl Calibration {
    /// The weight on one corner for the raw value `raw`.
    pub open spec fn spec_corner_weight(self, raw: u16, c: Corner) -> (int, int) {
        spec_interpolate(raw, self.kg0.at(c), self.kg17.at(c), self.kg34.at(c))
    }

    /// Converts raw readings to exact kilograms per sensor, by piecewise
    /// linear interpolation between the three calibration points.
    ///
    /// Readings at or below the 0 kg point give 0 (the unloaded reading
    /// drifts with temperature); readings above the 34 kg point extrapolate
    /// with the upper segment's slope.
    pub fn calibrate_exact(&self, raw: SensorQuad<u16>) -> (res: SensorQuad<Kilograms>)
        ensures
            forall|c: Corner| ((#[trigger] res.at(c)).num as int, res.at(c).den as int)
                == self.spec_corner_weight(raw.at(c), c),
    {
        let res = SensorQuad {
            top_right: interpolate(raw.top_right, self.kg0.top_right, self.kg17.top_right, self.kg34.top_right),
            bottom_right: interpolate(raw.bottom_right, self.kg0.bottom_right, self.kg17.bottom_right, self.kg34.bottom_right),
            top_left: interpolate(raw.top_left, self.kg0.top_left, self.kg17.top_left, self.kg34.top_left),
            bottom_left: interpolate(raw.bottom_left, self.kg0.bottom_left, self.kg17.bottom_left, self.kg34.bottom_left),
        };
        assert forall|c: Corner| ((#[trigger] res.at(c)).num as int, res.at(c).den as int)
            == self.spec_corner_weight(raw.at(c), c) by {
            match c {
                Corner::TopRight => {},
                Corner::BottomRight => {},
                Corner::TopLeft => {},
                Corner::BottomLeft => {},
            }
        }
        res
    }
}


/// Fraction `a/b` is at most fraction `c/d`, both denominators positive.
pub open spec fn frac_le(a: (int, int), b: (int, int)) -> bool {
    a.0 * b.1 <= b.0 * a.1
}

/// With monotonic constants, the three reference readings of each corner
/// calibrate to exactly 0 kg, 17 kg and 34 kg, every result is a
/// non-negative weight with a positive denominator, and any reading at or
/// below the 0 kg reading weighs 0.
pub proof fn lemma_reference_loads(cal: Calibration, c: Corner, raw: u16)
    requires
        cal.is_monotonic(),
    ensures
        cal.spec_corner_weight(cal.kg0.at(c), c).0 == 0,
        cal.spec_corner_weight(cal.kg17.at(c), c).0 == 17 * cal.spec_corner_weight(cal.kg17.at(c), c).1,
        cal.spec_corner_weight(cal.kg34.at(c), c).0 == 34 * cal.spec_corner_weight(cal.kg34.at(c), c).1,
        cal.spec_corner_weight(raw, c).1 > 0,
        cal.spec_corner_weight(raw, c).0 >= 0,
        raw <= cal.kg0.at(c) ==> cal.spec_corner_weight(raw, c).0 == 0,
{
    assert(cal.kg0.at(c) < cal.kg17.at(c) && cal.kg17.at(c) < cal.kg34.at(c));
}

/// With monotonic constants, calibration never decreases as the raw reading
/// grows: a heavier reading never weighs less.
pub proof fn lemma_calibration_monotone(cal: Calibration, c: Corner, r1: u16, r2: u16)
    requires
        cal.is_monotonic(),
        r1 <= r2,
    ensures
        frac_le(cal.spec_corner_weight(r1, c), cal.spec_corner_weight(r2, c)),
{
    assert(cal.kg0.at(c) < cal.kg17.at(c) && cal.kg17.at(c) < cal.kg34.at(c));
    let c0 = cal.kg0.at(c) as int;
    let c17 = cal.kg17.at(c) as int;
    let c34 = cal.kg34.at(c) as int;
    let a = r1 as int;
    let b = r2 as int;
    if a <= c0 {
        assert(c17 - c0 > 0 && c34 - c17 > 0);
        if b <= c0 {
        } else if b < c17 {
            assert(0 * (c17 - c0) <= 17 * (b - c0) * 1) by (nonlinear_arith)
                requires b > c0;
        } else {
            assert(0 * (c34 - c17) <= (17 * (c34 - c17) + 17 * (b - c17)) * 1) by (nonlinear_arith)
                requires b >= c17, c34 > c17;
        }
    } else if a < c17 {
        if b < c17 {
            assert(17 * (a - c0) * (c17 - c0) <= 17 * (b - c0) * (c17 - c0)) by (nonlinear_arith)
                requires a <= b, c17 > c0;
        } else {
            // the lower segment stays below 17 kg, the upper one starts there
            assert(17 * (a - c0) * (c34 - c17) <= (17 * (c34 - c17) + 17 * (b - c17)) * (c17 - c0))
                by (nonlinear_arith)
                requires a < c17, a > c0, b >= c17, c34 > c17, c17 > c0;
        }
    } else {
        assert((17 * (c34 - c17) + 17 * (a - c17)) * (c34 - c17) <= (17 * (c34 - c17) + 17 * (b - c17))
            * (c34 - c17)) by (nonlinear_arith)
            requires a <= b, c34 > c17;
    }
}

} // verus!
