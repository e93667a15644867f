//! Error types of report parsing and calibration.
use vstd::prelude::*;
use crate::text::{decimal, hex2, push_decimal, push_hex2};

verus! {

/// Errors returned by [`crate::parse_report`].
#[derive(Debug, Clone, Copy, PartialEq, Eq, Structural)]
pub enum ParseError {
    /// The report buffer was empty.
    EmptyReport,
    /// The report ID byte does not name a supported HID report.
    UnsupportedReportId(u8),
    /// The report ID was recognized but the buffer is shorter than the report demands.
    TruncatedReport {
        /// Minimum bytes required for this report ID.
        expected: usize,
        /// Bytes actually provided.
        got: usize,
    },
}

/// The human-readable description of a parse error.
pub open spec fn parse_error_text(e: ParseError) -> Seq<char> {
    match e {
        ParseError::EmptyReport => "HID report buffer was empty"@,
        ParseError::UnsupportedReportId(id) => "unsupported HID report id: 0x"@ + hex2(id, false),
        ParseError::TruncatedReport { expected, got } =>
            "HID report truncated: expected at least "@ + decimal(expected as nat) + " bytes, got "@
                + decimal(got as nat),
    }
}

impl ParseError {
    /// Describes the error for a person reading a log.
    pub fn message(&self) -> (res: String)
        ensures
            res@ == parse_error_text(*self),
    {
        let mut s = String::new();
        match self {
            ParseError::EmptyReport => {
                s.append("HID report buffer was empty");
            },
            ParseError::UnsupportedReportId(id) => {
                s.append("unsupported HID report id: 0x");
                push_hex2(&mut s, *id, false);
            },
            ParseError::TruncatedReport { expected, got } => {
                s.append("HID report truncated: expected at least ");
                push_decimal(&mut s, *expected as u64);
                s.append(" bytes, got ");
                push_decimal(&mut s, *got as u64);
            },
        }
        s
    }
}

/// Errors returned by [`crate::Calibration::from_eeprom`].
#[derive(Debug, Clone, Copy, PartialEq, Eq, Structural)]
pub enum CalibrationError {
    /// The values are not strictly increasing across the 0/17/34 kg
    /// reference points: almost always uninitialized (all-zero) EEPROM or a
    /// corrupted read.
    Nonmonotonic,
}

/// The human-readable description of a calibration error.
pub open spec fn calibration_error_text(e: CalibrationError) -> Seq<char> {
    "calibration constants are not monotonically increasing (need kg0 < kg17 < kg34 per sensor)"@
}

impl CalibrationError {
    /// Describes the error for a person reading a log.
    pub fn message(&self) -> (res: String)
        ensures
            res@ == calibration_error_text(*self),
    {
        let mut s = String::new();
        s.append("calibration constants are not monotonically increasing (need kg0 < kg17 < kg34 per sensor)");
        s
    }
}

} // verus!
