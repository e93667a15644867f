//! The Wiimote output reports the host sends, and choosing which HID device
//! to open.
//!
//! Building a report is separate from sending it: these functions compute the
//! exact bytes, and the transport writes them.
use vstd::prelude::*;
use crate::text::chars_of;

verus! {

/// USB/HID vendor ID for Nintendo.
pub const NINTENDO_VID: u16 = 0x057E;
/// The product ID the board reports; Wii Remotes share it.
pub const BALANCE_BOARD_PID: u16 = 0x0306;
/// Address of the 24-byte calibration block in extension-register space.
pub const CAL_BLOCK_ADDR: u32 = 0x00A4_0024;
/// Length of the calibration block.
pub const CAL_BLOCK_LEN: u16 = 24;
/// Output report `0x12`: set reporting mode.
pub const RPT_SET_MODE: u8 = 0x12;
/// Output report `0x16`: write to control registers.
pub const RPT_WRITE_REG: u8 = 0x16;
/// Output report `0x17`: read from control registers.
pub const RPT_READ_REG: u8 = 0x17;
/// Address-space byte for extension/control registers.
pub const ADDR_SPACE_REGISTERS: u8 = 0x04;
/// Reporting-mode flags: continuous reports, no rumble.
pub const REPORT_FLAGS_CONTINUOUS: u8 = 0x04;
/// Reporting mode `0x32` (Core Buttons + 8 Extension): the smallest report
/// that carries the board's whole payload.
pub const REPORTING_MODE_BB: u8 = 0x32;
/// Register that disables extension encryption when `0x55` is written to it.
pub const REG_ENCRYPTION: u32 = 0x00A4_00F0;
/// Register written with `0x00` to finish the extension handshake.
pub const REG_HANDSHAKE_DONE: u32 = 0x00A4_00FB;

/// Byte `k` (0 = least significant) of `v`.
pub open spec fn byte_of(v: int, k: int) -> u8 {
    ((v / pow256(k)) % 256) as u8
}

/// `256` to the power `k`.
pub open spec fn pow256(k: int) -> int {
    if k == 0 {
        1
    } else if k == 1 {
        256
    } else {
        65536
    }
}

/// Why a register write was refused.
#[derive(Debug, Clone, Copy, PartialEq, Eq, Structural)]
pub enum RegisterError {
    /// The payload is empty or longer than 16 bytes.
    PayloadLength,
}

/// The set-reporting-mode output report for `mode`, with continuous reporting.
pub fn set_reporting_mode_report(mode_id: u8) -> (res: [u8; 3])
    ensures
        res@ == seq![RPT_SET_MODE, REPORT_FLAGS_CONTINUOUS, mode_id],
{
    let res = [RPT_SET_MODE, REPORT_FLAGS_CONTINUOUS, mode_id];
    assert(res@ =~= seq![RPT_SET_MODE, REPORT_FLAGS_CONTINUOUS, mode_id]);
    res
}

/// The three address bytes of a register address, most significant first.
fn address_bytes(addr: u32) -> (res: (u8, u8, u8))
    ensures
        res.0 == byte_of(addr as int, 2),
        res.1 == byte_of(addr as int, 1),
        res.2 == byte_of(addr as int, 0),
{
    assert(((addr >> 16u32) & 0xFF) == (addr / 65536) % 256) by (bit_vector);
    assert(((addr >> 8u32) & 0xFF) == (addr / 256) % 256) by (bit_vector);
    assert((addr & 0xFF) == addr % 256) by (bit_vector);
    (((addr >> 16u32) & 0xFF) as u8, ((addr >> 8u32) & 0xFF) as u8, (addr & 0xFF) as u8)
}

/// The write-register output report: report ID, address space, three
/// address bytes, the payload length, then the payload padded with zeros to
/// 22 bytes. The payload must hold 1 to 16 bytes.
pub fn write_register_report(addr: u32, data: &[u8]) -> (res: Result<[u8; 22], RegisterError>)
    ensures
        (1 <= data@.len() <= 16) <==> res is Ok,
        res is Err ==> res == Err::<[u8; 22], RegisterError>(RegisterError::PayloadLength),
        res matches Ok(buf) ==> {
            &&& buf@.subrange(0, 6) == seq![RPT_WRITE_REG, ADDR_SPACE_REGISTERS,
                byte_of(addr as int, 2), byte_of(addr as int, 1), byte_of(addr as int, 0),
                data@.len() as u8]
            &&& buf@.subrange(6, 6 + data@.len() as int) == data@
            &&& forall|k: int| 6 + data@.len() <= k < 22 ==> buf@[k] == 0
        },
{
    if data.len() == 0 || data.len() > 16 {
        return Err(RegisterError::PayloadLength);
    }
    let (a2, a1, a0) = address_bytes(addr);
    let mut buf: [u8; 22] = [0u8; 22];
    buf[0] = RPT_WRITE_REG;
    buf[1] = ADDR_SPACE_REGISTERS;
    buf[2] = a2;
    buf[3] = a1;
    buf[4] = a0;
    buf[5] = data.len() as u8;
    let mut i: usize = 0;
    while i < data.len()
        invariant
            1 <= data@.len() <= 16,
            i <= data@.len(),
            buf@.len() == 22,
            buf@.subrange(0, 6) == seq![RPT_WRITE_REG, ADDR_SPACE_REGISTERS, a2, a1, a0,
                data@.len() as u8],
            forall|k: int| 0 <= k < i ==> buf@[6 + k] == data@[k],
            forall|k: int| 6 + i <= k < 22 ==> buf@[k] == 0,
        decreases data@.len() - i,
    {
        buf[6 + i] = data[i];
        i = i + 1;
    }
    assert(buf@.subrange(6, 6 + data@.len() as int) =~= data@);
    Ok(buf)
}

/// The read-register output report: report ID, address space, three address
/// bytes, then the length as two big-endian bytes.
pub fn read_register_report(addr: u32, len: u16) -> (res: [u8; 7])
    ensures
        res@ == seq![RPT_READ_REG, ADDR_SPACE_REGISTERS, byte_of(addr as int, 2),
            byte_of(addr as int, 1), byte_of(addr as int, 0), (len / 256) as u8, (len % 256) as u8],
{
    let (a2, a1, a0) = address_bytes(addr);
    assert(((len >> 8u16) & 0xFF) == len / 256 && (len & 0xFF) == len % 256) by (bit_vector);
    let res = [RPT_READ_REG, ADDR_SPACE_REGISTERS, a2, a1, a0, ((len >> 8u16) & 0xFF) as u8,
        (len & 0xFF) as u8];
    assert(res@ =~= seq![RPT_READ_REG, ADDR_SPACE_REGISTERS, a2, a1, a0, (len / 256) as u8,
        (len % 256) as u8]);
    res
}

/// A 24-byte calibration block from assembled register bytes, or the number
/// of bytes actually present when there are not exactly 24.
pub fn calibration_block(bytes: &[u8]) -> (res: Result<[u8; 24], usize>)
    ensures
        match res {
            Ok(block) => bytes@.len() == 24 && block@ == bytes@,
            Err(n) => bytes@.len() != 24 && n == bytes@.len(),
        },
{
    if bytes.len() != 24 {
        return Err(bytes.len());
    }
    let mut block: [u8; 24] = [0u8; 24];
    let mut i: usize = 0;
    while i < 24
        invariant
            bytes@.len() == 24,
            i <= 24,
            block@.len() == 24,
            forall|k: int| 0 <= k < i ==> block@[k] == bytes@[k],
        decreases 24 - i,
    {
        block[i] = bytes[i];
        i = i + 1;
    }
    assert(block@ =~= bytes@);
    Ok(block)
}

/// What the host knows of one HID device while choosing which to open.
#[derive(Debug, Clone)]
pub struct HidCandidate {
    /// USB/HID vendor ID.
    pub vendor_id: u16,
    /// USB/HID product ID.
    pub product_id: u16,
    /// The product string, when the device reports one.
    pub product_string: Option<String>,
}

/// `needle` occurs in `hay` as a contiguous run.
pub open spec fn contains_run(hay: Seq<char>, needle: Seq<char>) -> bool {
    exists|i: int| 0 <= i <= hay.len() - needle.len() && #[trigger] hay.subrange(i, i + needle.len()) == needle
}

/// The model name in the board's product string.
pub open spec fn board_model() -> Seq<char> {
    seq!['R', 'V', 'L', '-', 'W', 'B', 'C', '-', '0', '1']
}

/// Nintendo's vendor ID with the board's product ID.
pub open spec fn is_candidate(c: HidCandidate) -> bool {
    c.vendor_id == NINTENDO_VID && c.product_id == BALANCE_BOARD_PID
}

/// The product string names the board model.
pub open spec fn names_board(c: HidCandidate) -> bool {
    c.product_string matches Some(s) && contains_run(s@, board_model())
}

/// `true` when `needle` occurs in `hay`.
pub fn contains_chars(hay: &Vec<char>, needle: &[char]) -> (res: bool)
    ensures
        res == contains_run(hay@, needle@),
{
    if needle.len() > hay.len() {
        proof {
            assert forall|i: int| 0 <= i <= hay@.len() - needle@.len()
                implies #[trigger] hay@.subrange(i, i + needle@.len()) != needle@ by {}
        }
        return false;
    }
    let mut i: usize = 0;
    while i <= hay.len() - needle.len()
        invariant
            needle@.len() <= hay@.len(),
            i <= hay@.len() - needle@.len() + 1,
            forall|j: int| 0 <= j < i ==> #[trigger] hay@.subrange(j, j + needle@.len()) != needle@,
        decreases hay@.len() - needle@.len() + 1 - i,
    {
        let mut k: usize = 0;
        let mut same = true;
        while k < needle.len()
            invariant
                needle@.len() <= hay@.len(),
                hay@.len() <= usize::MAX,
                i <= hay@.len() - needle@.len(),
                k <= needle@.len(),
                same == forall|m: int| 0 <= m < k ==> hay@[i + m] == needle@[m],
            decreases needle@.len() - k,
        {
            if hay[i + k] != needle[k] {
                same = false;
            }
            k = k + 1;
        }
        if same {
            assert(hay@.subrange(i as int, i + needle@.len()) =~= needle@);
            return true;
        }
        proof {
            if hay@.subrange(i as int, i + needle@.len()) == needle@ {
                assert forall|m: int| 0 <= m < needle@.len() implies hay@[i + m] == needle@[m] by {
                    assert(hay@.subrange(i as int, i + needle@.len())[m] == hay@[i + m]);
                }
            }
        }
        i = i + 1;
    }
    false
}

/// Whether a candidate's product string names the board model.
fn candidate_names_board(c: &HidCandidate) -> (res: bool)
    ensures
        res == names_board(*c),
{
    match &c.product_string {
        Some(s) => {
            let hay = chars_of(s.as_str());
            let model: [char; 10] = ['R', 'V', 'L', '-', 'W', 'B', 'C', '-', '0', '1'];
            assert(model@ =~= board_model());
            contains_chars(&hay, model.as_slice())
        },
        None => false,
    }
}

/// Which device discovery picks: among devices with Nintendo's vendor ID and
/// the board's product ID, the first whose product string names
/// `RVL-WBC-01`, else the first of them; none when there is no such device.
pub open spec fn spec_choose(devices: Seq<HidCandidate>) -> Option<int> {
    if exists|i: int| 0 <= i < devices.len() && is_candidate(#[trigger] devices[i]) && names_board(devices[i]) {
        Some(choose|i: int| 0 <= i < devices.len() && is_candidate(#[trigger] devices[i]) && names_board(devices[i])
            && forall|j: int| 0 <= j < i ==> !(is_candidate(#[trigger] devices[j]) && names_board(devices[j])))
    } else if exists|i: int| 0 <= i < devices.len() && is_candidate(#[trigger] devices[i]) {
        Some(choose|i: int| 0 <= i < devices.len() && is_candidate(#[trigger] devices[i])
            && forall|j: int| 0 <= j < i ==> !is_candidate(#[trigger] devices[j]))
    } else {
        None
    }
}

/// Where some index satisfies `p`, a least one does.
proof fn lemma_least_index(p: spec_fn(int) -> bool, n: int)
    requires
        0 <= n,
        p(n),
    ensures
        exists|i: int| 0 <= i <= n && #[trigger] p(i) && forall|j: int| 0 <= j < i ==> !#[trigger] p(j),
    decreases n,
{
    if exists|j: int| 0 <= j < n && #[trigger] p(j) {
        let j = choose|j: int| 0 <= j < n && #[trigger] p(j);
        lemma_least_index(p, j);
    } else {
        assert(forall|j: int| 0 <= j < n ==> !#[trigger] p(j));
    }
}

/// The device discovery picks is well defined: there is one exactly when
/// some device has the board's IDs; it has them; it is the first that also
/// names the board when any does, else the first with the IDs.
pub proof fn lemma_choice_is_first(devices: Seq<HidCandidate>)
    ensures
        spec_choose(devices) is Some <==> exists|i: int| 0 <= i < devices.len() && is_candidate(#[trigger] devices[i]),
        spec_choose(devices) matches Some(i) ==> {
            &&& 0 <= i < devices.len()
            &&& is_candidate(devices[i])
            &&& (exists|k: int| 0 <= k < devices.len() && is_candidate(#[trigger] devices[k]) && names_board(devices[k]))
                ==> names_board(devices[i])
                    && forall|j: int| 0 <= j < i ==> !(is_candidate(#[trigger] devices[j]) && names_board(devices[j]))
            &&& !(exists|k: int| 0 <= k < devices.len() && is_candidate(#[trigger] devices[k]) && names_board(devices[k]))
                ==> forall|j: int| 0 <= j < i ==> !is_candidate(#[trigger] devices[j])
        },
{
    if exists|i: int| 0 <= i < devices.len() && is_candidate(#[trigger] devices[i]) && names_board(devices[i]) {
        let k = choose|i: int| 0 <= i < devices.len() && is_candidate(#[trigger] devices[i]) && names_board(devices[i]);
        let p = |i: int| 0 <= i < devices.len() && is_candidate(devices[i]) && names_board(devices[i]);
        lemma_least_index(p, k);
        let m = choose|i: int| 0 <= i <= k && #[trigger] p(i) && forall|j: int| 0 <= j < i ==> !#[trigger] p(j);
        assert(0 <= m < devices.len() && is_candidate(devices[m]) && names_board(devices[m])
            && forall|j: int| 0 <= j < m ==> !(is_candidate(#[trigger] devices[j]) && names_board(devices[j]))) by {
            assert forall|j: int| 0 <= j < m implies !(is_candidate(#[trigger] devices[j]) && names_board(devices[j])) by {
                assert(!p(j));
            }
        }
    } else if exists|i: int| 0 <= i < devices.len() && is_candidate(#[trigger] devices[i]) {
        let k = choose|i: int| 0 <= i < devices.len() && is_candidate(#[trigger] devices[i]);
        let p = |i: int| 0 <= i < devices.len() && is_candidate(devices[i]);
        lemma_least_index(p, k);
        let m = choose|i: int| 0 <= i <= k && #[trigger] p(i) && forall|j: int| 0 <= j < i ==> !#[trigger] p(j);
        assert(0 <= m < devices.len() && is_candidate(devices[m])
            && forall|j: int| 0 <= j < m ==> !is_candidate(#[trigger] devices[j])) by {
            assert forall|j: int| 0 <= j < m implies !is_candidate(#[trigger] devices[j]) by {
                assert(!p(j));
            }
        }
    }
}

/// The number of devices with the board's vendor and product IDs.
pub open spec fn candidate_count(devices: Seq<HidCandidate>) -> nat
    decreases devices.len(),
{
    if devices.len() == 0 {
        0
    } else {
        candidate_count(devices.drop_last()) + if is_candidate(devices.last()) { 1nat } else { 0nat }
    }
}



/// Only devices with Nintendo's vendor ID `0x057E` and the board's product ID
/// `0x0306` count, and the device chosen is one of them: there is a choice
/// exactly when such a device is present.
pub proof fn lemma_choice_has_board_ids(devices: Seq<HidCandidate>)
    ensures
        candidate_count(devices)
            == devices.filter(|d: HidCandidate| d.vendor_id == 0x057E && d.product_id == 0x0306).len(),
        spec_choose(devices) matches Some(i) ==> devices[i].vendor_id == 0x057E && devices[i].product_id == 0x0306,
        spec_choose(devices) is Some
            <==> exists|i: int| 0 <= i < devices.len() && devices[i].vendor_id == 0x057E && devices[i].product_id == 0x0306,
    decreases devices.len(),
{
    lemma_choice_is_first(devices);
    let p = |d: HidCandidate| d.vendor_id == 0x057E && d.product_id == 0x0306;
    if devices.len() > 0 {
        let prev = devices.drop_last();
        lemma_choice_has_board_ids(prev);
        assert(prev.push(devices.last()) =~= devices);
        prev.lemma_filter_push(devices.last(), p);
    }
    if exists|i: int| 0 <= i < devices.len() && devices[i].vendor_id == 0x057E && devices[i].product_id == 0x0306 {
        let i = choose|i: int| 0 <= i < devices.len() && devices[i].vendor_id == 0x057E && devices[i].product_id == 0x0306;
        assert(is_candidate(devices[i]));
    }
}

/// Chooses the device to open, as [`spec_choose`] describes, and counts the
/// devices that share the board's IDs (more than one means the choice may
/// be the wrong device).
pub fn choose_candidate(devices: &[HidCandidate]) -> (res: (Option<usize>, usize))
    ensures
        match spec_choose(devices@) {
            Some(i) => res.0 == Some(i as usize),
            None => res.0 is None,
        },
        res.1 == candidate_count(devices@),
{
    let mut first_named: Option<usize> = None;
    let mut first_any: Option<usize> = None;
    let mut count: usize = 0;
    let mut i: usize = 0;
    while i < devices.len()
        invariant
            i <= devices@.len(),
            count <= i,
            count == candidate_count(devices@.take(i as int)),
            match first_named {
                Some(n) => n < i && is_candidate(devices@[n as int]) && names_board(devices@[n as int])
                    && forall|j: int| 0 <= j < n ==> !(is_candidate(#[trigger] devices@[j]) && names_board(devices@[j])),
                None => forall|j: int| 0 <= j < i ==> !(is_candidate(#[trigger] devices@[j]) && names_board(devices@[j])),
            },
            match first_any {
                Some(n) => n < i && is_candidate(devices@[n as int])
                    && forall|j: int| 0 <= j < n ==> !is_candidate(#[trigger] devices@[j]),
                None => forall|j: int| 0 <= j < i ==> !is_candidate(#[trigger] devices@[j]),
            },
        decreases devices@.len() - i,
    {
        let d = &devices[i];
        let is_match = d.vendor_id == NINTENDO_VID && d.product_id == BALANCE_BOARD_PID;
        proof {
            assert(devices@.take(i + 1).drop_last() =~= devices@.take(i as int));
        }
        if is_match {
            count = count + 1;
            if first_any.is_none() {
                first_any = Some(i);
            }
            if first_named.is_none() && candidate_names_board(d) {
                first_named = Some(i);
            }
        }
        i = i + 1;
    }
    proof {
        assert(devices@.take(devices@.len() as int) =~= devices@);
    }
    let chosen = match first_named {
        Some(n) => Some(n),
        None => first_any,
    };
    proof {
        match first_named {
            Some(n) => {
                let c = choose|k: int| 0 <= k < devices@.len() && is_candidate(#[trigger] devices@[k]) && names_board(devices@[k])
                    && forall|j: int| 0 <= j < k ==> !(is_candidate(#[trigger] devices@[j]) && names_board(devices@[j]));
                assert(c == n as int) by {
                    if c < n as int {
                    } else if c > n as int {
                        assert(!(is_candidate(devices@[n as int]) && names_board(devices@[n as int])));
                    }
                }
            },
            None => {
                match first_any {
                    Some(n) => {
                        let c = choose|k: int| 0 <= k < devices@.len() && is_candidate(#[trigger] devices@[k])
                            && forall|j: int| 0 <= j < k ==> !is_candidate(#[trigger] devices@[j]);
                        assert(is_candidate(devices@[n as int]));
                        assert(c == n as int) by {
                            if c < n as int {
                            } else if c > n as int {
                                assert(!is_candidate(devices@[n as int]));
                            }
                        }
                    },
                    None => {},
                }
            },
        }
    }
    (chosen, count)
}

} // verus!
