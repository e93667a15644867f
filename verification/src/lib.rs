//! The Nintendo Wii Balance Board: report parsing, calibration constants,
//! register-read reassembly, output-report construction, pairing PINs, and
//! the decisions of the connection engine.
//!
//! Nothing here performs I/O. Hand it bytes off the wire and the 24-byte
//! EEPROM calibration block; it returns typed sensor values and exact
//! per-corner weights, and tells the transport what to send and when a
//! board is lost.
pub mod buttons;
pub mod calibration;
pub mod error;
pub mod report;
pub mod sensors;
pub mod text;

pub mod hid;
pub mod read_transaction;
pub mod stream;

pub mod bluez;
pub mod pairing;
pub mod pin;

pub mod cache_key;
pub mod cli;
pub mod engine;
pub mod linux;
pub mod tare;
pub mod vjoy;
pub mod zero;

pub use buttons::WiimoteButtons;
pub use calibration::{Calibration, Kilograms};
pub use engine::{Config, Control, Phase};
pub use error::{CalibrationError, ParseError};
pub use read_transaction::ReadTransaction;
pub use report::{parse_report, parse_report_extension, BoardReport, RawSensors, ReportId};
pub use sensors::{Corner, SensorQuad};
pub use vjoy::VJoyAxis;
