//! Parsing Wiimote-style HID reports into raw Balance Board sensor values.
//!
//! The Balance Board is a Wiimote extension. Its 8-byte payload rides in the
//! extension bytes of whichever data-reporting mode the host selected; this
//! module reads the two modes that carry it (`0x32` and `0x34`).
use vstd::prelude::*;
use crate::buttons::{spec_pack_le, WiimoteButtons};
use crate::error::ParseError;
use crate::sensors::SensorQuad;

verus! {

/// Raw 16-bit sensor readings, straight from the wire, before calibration.
pub type RawSensors = SensorQuad<u16>;

/// The big-endian 16-bit value of two bytes.
pub open spec fn be16(hi: u8, lo: u8) -> u16 {
    (hi as int * 256 + lo as int) as u16
}

/// Four big-endian 16-bit values starting at `off`, in the order
/// top-right, bottom-right, top-left, bottom-left.
pub open spec fn quad_at(s: Seq<u8>, off: int) -> SensorQuad<u16> {
    SensorQuad {
        top_right: be16(s[off], s[off + 1]),
        bottom_right: be16(s[off + 2], s[off + 3]),
        top_left: be16(s[off + 4], s[off + 5]),
        bottom_left: be16(s[off + 6], s[off + 7]),
    }
}

/// Reads a big-endian 16-bit value.
pub fn read_be16(hi: u8, lo: u8) -> (res: u16)
    ensures
        res == be16(hi, lo),
        res as int == hi as int * 256 + lo as int,
{
    let res: u16 = ((hi as u16) << 8u16) | (lo as u16);
    assert((((hi as u16) << 8u16) | (lo as u16)) as int == hi as int * 256 + lo as int)
        by (bit_vector);
    res
}

/// Everything taken from a core-data report: the four sensors and the
/// button bitfield.
#[derive(Debug, Clone, Copy, PartialEq)]
pub struct BoardReport {
    /// The four corner sensors, still raw.
    pub sensors: RawSensors,
    /// Button state from the report's two core-button bytes. On a Balance
    /// Board the front button shows up through
    /// [`WiimoteButtons::balance_board_button`].
    pub buttons: WiimoteButtons,
}

impl View for BoardReport {
    type V = (SensorQuad<u16>, u16);

    /// The sensors and the packed button field.
    open spec fn view(&self) -> (SensorQuad<u16>, u16) {
        (self.sensors, self.buttons@)
    }
}

/// Wiimote/Balance Board HID report ID, among those that carry extension bytes.
#[derive(Debug, Clone, Copy, PartialEq, Eq, Structural)]
pub enum ReportId {
    /// `0x32`: Core Buttons + 8 Extension. Typical mode for the board.
    CoreButtonsExt8,
    /// `0x34`: Core Buttons + 19 Extension; the first 8 extension bytes are the board's.
    CoreButtonsExt19,
}

/// The report ID named by an ID byte, if supported.
pub open spec fn report_id_of(b: u8) -> Option<ReportId> {
    if b == 0x32 {
        Some(ReportId::CoreButtonsExt8)
    } else if b == 0x34 {
        Some(ReportId::CoreButtonsExt19)
    } else {
        None
    }
}

/// The minimum length of a report with this ID: ID byte, two button bytes,
/// then 8 or 19 extension bytes.
pub open spec fn spec_min_len(id: ReportId) -> usize {
    match id {
        ReportId::CoreButtonsExt8 => 11,
        ReportId::CoreButtonsExt19 => 22,
    }
}

/// Where the 8-byte board payload starts in a report: after the ID byte and
/// the two button bytes, in both modes.
pub open spec fn spec_extension_offset(id: ReportId) -> usize {
    3
}

impl ReportId {
    /// Offset of the board payload from the start of the report.
    fn extension_offset(self) -> (res: usize)
        ensures
            res == spec_extension_offset(self),
    {
        match self {
            ReportId::CoreButtonsExt8 | ReportId::CoreButtonsExt19 => 3,
        }
    }

    /// Minimum number of bytes a report with this ID occupies.
    fn min_len(self) -> (res: usize)
        ensures
            res == spec_min_len(self),
    {
        match self {
            ReportId::CoreButtonsExt8 => 1 + 2 + 8,
            ReportId::CoreButtonsExt19 => 1 + 2 + 19,
        }
    }

    /// The report ID for an ID byte, or `UnsupportedReportId` with that byte.
    fn from_byte(b: u8) -> (res: Result<Self, ParseError>)
        ensures
            match report_id_of(b) {
                Some(id) => res == Ok::<ReportId, ParseError>(id),
                None => res == Err::<ReportId, ParseError>(ParseError::UnsupportedReportId(b)),
            },
    {
        match b {
            0x32 => Ok(ReportId::CoreButtonsExt8),
            0x34 => Ok(ReportId::CoreButtonsExt19),
            other => Err(ParseError::UnsupportedReportId(other)),
        }
    }
}

/// Parses the 8-byte extension payload: four big-endian 16-bit values in the
/// order top-right, bottom-right, top-left, bottom-left.
pub fn parse_report_extension(ext: &[u8; 8]) -> (res: RawSensors)
    ensures
        res == quad_at(ext@, 0),
{
    SensorQuad {
        top_right: read_be16(ext[0], ext[1]),
        bottom_right: read_be16(ext[2], ext[3]),
        top_left: read_be16(ext[4], ext[5]),
        bottom_left: read_be16(ext[6], ext[7]),
    }
}

/// What parsing a report yields: the sensors and packed buttons, or the error.
pub open spec fn spec_parse_report(r: Seq<u8>) -> Result<(SensorQuad<u16>, u16), ParseError> {
    if r.len() == 0 {
        Err(ParseError::EmptyReport)
    } else {
        match report_id_of(r[0]) {
            None => Err(ParseError::UnsupportedReportId(r[0])),
            Some(id) => if r.len() < spec_min_len(id) {
                Err(ParseError::TruncatedReport { expected: spec_min_len(id), got: r.len() as usize })
            } else {
                Ok((quad_at(r, spec_extension_offset(id) as int), spec_pack_le(r[1], r[2])))
            },
        }
    }
}

/// Parses a full Wiimote HID report into sensors and buttons.
///
/// Supported report IDs are `0x32` and `0x34`; any other ID, an empty
/// buffer, or one shorter than its ID demands, is an error.
pub fn parse_report(report: &[u8]) -> (res: Result<BoardReport, ParseError>)
    ensures
        match res {
            Ok(r) => spec_parse_report(report@) == Ok::<(SensorQuad<u16>, u16), ParseError>(r@),
            Err(e) => spec_parse_report(report@) == Err::<(SensorQuad<u16>, u16), ParseError>(e),
        },
{
    if report.len() == 0 {
        return Err(ParseError::EmptyReport);
    }
    let id = ReportId::from_byte(report[0])?;
    if report.len() < id.min_len() {
        return Err(ParseError::TruncatedReport { expected: id.min_len(), got: report.len() });
    }
    let buttons = WiimoteButtons::from_bytes(report[1], report[2]);
    let off = id.extension_offset();
    let ext: [u8; 8] = [
        report[off],
        report[off + 1],
        report[off + 2],
        report[off + 3],
        report[off + 4],
        report[off + 5],
        report[off + 6],
        report[off + 7],
    ];
    let sensors = parse_report_extension(&ext);
    assert(sensors == quad_at(report@, off as int));
    Ok(BoardReport { sensors, buttons })
}


/// A full report carries the same sensor values as its 8-byte extension
/// payload, which starts right after the ID byte and the two button bytes.
pub proof fn lemma_report_sensors_are_extension(r: Seq<u8>)
    requires
        spec_parse_report(r) is Ok,
    ensures
        spec_parse_report(r)->Ok_0.0 == quad_at(r.subrange(3, 11), 0),
{
    let ext = r.subrange(3, 11);
    assert(ext[0] == r[3] && ext[1] == r[4] && ext[2] == r[5] && ext[3] == r[6]);
    assert(ext[4] == r[7] && ext[5] == r[8] && ext[6] == r[9] && ext[7] == r[10]);
}

/// What a report means, byte by byte: an empty report and any ID other
/// than `0x32` and `0x34` are refused; a `0x32` report needs 11 bytes and a
/// `0x34` report 22, and a shorter one is refused with both lengths; an
/// accepted report carries the buttons in bytes 1 and 2 (low byte first)
/// and the four corners, big-endian, in bytes 3 to 10 in the order top
/// right, bottom right, top left, bottom left.
pub proof fn lemma_report_bytes(r: Seq<u8>)
    ensures
        r.len() == 0 ==> spec_parse_report(r) == Err::<(SensorQuad<u16>, u16), ParseError>(ParseError::EmptyReport),
        r.len() > 0 && r[0] != 0x32 && r[0] != 0x34
            ==> spec_parse_report(r) == Err::<(SensorQuad<u16>, u16), ParseError>(ParseError::UnsupportedReportId(r[0])),
        r.len() > 0 && r[0] == 0x32 ==> (spec_parse_report(r) is Ok <==> r.len() >= 11),
        r.len() > 0 && r[0] == 0x34 ==> (spec_parse_report(r) is Ok <==> r.len() >= 22),
        r.len() > 0 && r[0] == 0x32 && r.len() < 11 ==> spec_parse_report(r) == Err::<(SensorQuad<u16>, u16), ParseError>(
            ParseError::TruncatedReport { expected: 11, got: r.len() as usize }),
        r.len() > 0 && r[0] == 0x34 && r.len() < 22 ==> spec_parse_report(r) == Err::<(SensorQuad<u16>, u16), ParseError>(
            ParseError::TruncatedReport { expected: 22, got: r.len() as usize }),
        spec_parse_report(r) matches Ok((q, b)) ==> {
            &&& b as int == r[1] as int + 256 * r[2] as int
            &&& q.top_right as int == 256 * r[3] as int + r[4] as int
            &&& q.bottom_right as int == 256 * r[5] as int + r[6] as int
            &&& q.top_left as int == 256 * r[7] as int + r[8] as int
            &&& q.bottom_left as int == 256 * r[9] as int + r[10] as int
        },
{
}

} // verus!
