//! Recognizing Wii devices found by a Bluetooth scan, and explaining why a
//! pairing attempt failed.
use vstd::prelude::*;
use crate::text::chars_of;

verus! {

/// Win32 `WAIT_TIMEOUT`: the operation timed out.
pub const WAIT_TIMEOUT: u32 = 258;
/// Win32 `ERROR_NOT_AUTHENTICATED`: authentication was refused.
pub const ERROR_NOT_AUTHENTICATED: u32 = 1244;
/// Win32 `ERROR_DEVICE_NOT_CONNECTED`: the device went away.
pub const ERROR_DEVICE_NOT_CONNECTED: u32 = 1167;

/// The Bluetooth name prefix of the Balance Board.
pub open spec fn board_name() -> Seq<char> {
    seq!['N', 'i', 'n', 't', 'e', 'n', 'd', 'o', ' ', 'R', 'V', 'L', '-', 'W', 'B', 'C', '-', '0', '1']
}

/// The Bluetooth name prefix of the Wii Remote and Wii Remote Plus.
pub open spec fn remote_name() -> Seq<char> {
    seq!['N', 'i', 'n', 't', 'e', 'n', 'd', 'o', ' ', 'R', 'V', 'L', '-', 'C', 'N', 'T', '-', '0', '1']
}

/// `s` begins with `prefix`.
pub open spec fn starts_with(s: Seq<char>, prefix: Seq<char>) -> bool {
    prefix.len() <= s.len() && s.subrange(0, prefix.len() as int) == prefix
}

/// A Wii-family device name: a Balance Board or a Wii Remote.
pub open spec fn spec_is_wii_name(name: Seq<char>) -> bool {
    starts_with(name, board_name()) || starts_with(name, remote_name())
}

/// Whether `s` begins with `prefix`.
fn starts_with_chars(s: &Vec<char>, prefix: &[char]) -> (res: bool)
    ensures
        res == starts_with(s@, prefix@),
{
    if prefix.len() > s.len() {
        return false;
    }
    let mut i: usize = 0;
    while i < prefix.len()
        invariant
            prefix@.len() <= s@.len(),
            i <= prefix@.len(),
            forall|k: int| 0 <= k < i ==> s@[k] == prefix@[k],
        decreases prefix@.len() - i,
    {
        if s[i] != prefix[i] {
            assert(s@.subrange(0, prefix@.len() as int)[i as int] != prefix@[i as int]);
            return false;
        }
        i = i + 1;
    }
    assert(s@.subrange(0, prefix@.len() as int) =~= prefix@);
    true
}

/// Whether a name begins with the Balance Board's name.
fn names_balance_board(name: &str) -> (res: bool)
    ensures
        res == starts_with(name@, board_name()),
{
    let chars = chars_of(name);
    let board: [char; 19] = ['N', 'i', 'n', 't', 'e', 'n', 'd', 'o', ' ', 'R', 'V', 'L', '-', 'W', 'B', 'C', '-', '0', '1'];
    assert(board@ =~= board_name());
    starts_with_chars(&chars, board.as_slice())
}

/// Whether a Bluetooth name belongs to the Wii family (Balance Board or Wii
/// Remote), the devices a scan reports.
pub fn is_wii_name(name: &str) -> (res: bool)
    ensures
        res == spec_is_wii_name(name@),
{
    let chars = chars_of(name);
    let board: [char; 19] = ['N', 'i', 'n', 't', 'e', 'n', 'd', 'o', ' ', 'R', 'V', 'L', '-', 'W', 'B', 'C', '-', '0', '1'];
    let remote: [char; 19] = ['N', 'i', 'n', 't', 'e', 'n', 'd', 'o', ' ', 'R', 'V', 'L', '-', 'C', 'N', 'T', '-', '0', '1'];
    assert(board@ =~= board_name());
    assert(remote@ =~= remote_name());
    starts_with_chars(&chars, board.as_slice()) || starts_with_chars(&chars, remote.as_slice())
}

/// One Wii-family device returned by a scan.
#[derive(Debug, Clone)]
pub struct WiiDevice {
    /// 6-byte Bluetooth address in Win32 `rgBytes` order.
    pub address: [u8; 6],
    /// Friendly name from the device, e.g. `Nintendo RVL-WBC-01`.
    pub name: String,
    /// Windows considers the device paired.
    pub authenticated: bool,
    /// Windows is connected to the device.
    pub connected: bool,
    /// Windows has the device in its remembered list.
    pub remembered: bool,
}

impl WiiDevice {
    /// Whether this is a Balance Board rather than a Wii Remote.
    pub fn is_balance_board(&self) -> (res: bool)
        ensures
            res == starts_with(self.name@, board_name()),
    {
        names_balance_board(self.name.as_str())
    }
}

/// Outcome of pairing the first Balance Board found.
#[derive(Debug, Clone)]
pub struct PairResult {
    /// The device paired with.
    pub address: [u8; 6],
    /// Its friendly name.
    pub name: String,
    /// The device was already paired and only its HID service was enabled.
    pub already_paired: bool,
}

/// What kind of failure an authentication result code stands for.
#[derive(Debug, Clone, Copy, PartialEq, Eq, Structural)]
pub enum AuthFailure {
    /// Contacting or authenticating the board took too long.
    TimedOut,
    /// Windows reported that authentication was refused.
    PermissionDenied,
    /// The board disconnected before pairing completed.
    NotConnected,
    /// Any other failure.
    Other,
}

/// The failure kind for an authentication result code.
pub open spec fn spec_auth_failure(code: u32) -> AuthFailure {
    if code == WAIT_TIMEOUT {
        AuthFailure::TimedOut
    } else if code == ERROR_NOT_AUTHENTICATED {
        AuthFailure::PermissionDenied
    } else if code == ERROR_DEVICE_NOT_CONNECTED {
        AuthFailure::NotConnected
    } else {
        AuthFailure::Other
    }
}

/// The advice given for each failure kind.
pub open spec fn auth_advice_text(kind: AuthFailure) -> Seq<char> {
    match kind {
        AuthFailure::TimedOut => "Windows timed out contacting/authenticating the board. This does not prove a bad PIN. Press red SYNC again immediately before retrying; keep the board nearby and close other Wii connection tools."@,
        AuthFailure::PermissionDenied => "Windows reported authentication failure. This method expects red SYNC pairing; press red SYNC and retry."@,
        AuthFailure::NotConnected => "The board disconnected before pairing completed. Press red SYNC and retry."@,
        AuthFailure::Other => "Pairing did not complete. Keep the full error for troubleshooting."@,
    }
}

/// Classifies a failed authentication result code and gives the advice for
/// it. A timeout is told apart from a refusal: it does not show the PIN was
/// wrong.
pub fn classify_auth_failure(code: u32) -> (res: (AuthFailure, String))
    ensures
        res.0 == spec_auth_failure(code),
        res.1@ == auth_advice_text(res.0),
{
    let kind = if code == WAIT_TIMEOUT {
        AuthFailure::TimedOut
    } else if code == ERROR_NOT_AUTHENTICATED {
        AuthFailure::PermissionDenied
    } else if code == ERROR_DEVICE_NOT_CONNECTED {
        AuthFailure::NotConnected
    } else {
        AuthFailure::Other
    };
    let mut s = String::new();
    match kind {
        AuthFailure::TimedOut => s.append("Windows timed out contacting/authenticating the board. This does not prove a bad PIN. Press red SYNC again immediately before retrying; keep the board nearby and close other Wii connection tools."),
        AuthFailure::PermissionDenied => s.append("Windows reported authentication failure. This method expects red SYNC pairing; press red SYNC and retry."),
        AuthFailure::NotConnected => s.append("The board disconnected before pairing completed. Press red SYNC and retry."),
        AuthFailure::Other => s.append("Pairing did not complete. Keep the full error for troubleshooting."),
    }
    (kind, s)
}

/// The length of a NUL-terminated wide string: the units before the first
/// zero, or all of them when there is none.
pub open spec fn wide_len(wide: Seq<u16>) -> nat {
    if exists|i: int| 0 <= i < wide.len() && wide[i] == 0 {
        (choose|i: int| 0 <= i < wide.len() && wide[i] == 0 && forall|j: int| 0 <= j < i ==> wide[j] != 0) as nat
    } else {
        wide.len()
    }
}

/// A UTF-16 unit that opens a surrogate pair.
pub open spec fn is_high_surrogate(u: u16) -> bool {
    0xD800 <= u <= 0xDBFF
}

/// A UTF-16 unit that closes a surrogate pair.
pub open spec fn is_low_surrogate(u: u16) -> bool {
    0xDC00 <= u <= 0xDFFF
}

/// Lossy UTF-16 decoding: a high surrogate followed by a low one is one
/// character above U+FFFF; any other surrogate unit becomes U+FFFD on its
/// own; every other unit is the character with that value.
pub open spec fn utf16_lossy(units: Seq<u16>) -> Seq<char>
    decreases units.len(),
{
    if units.len() == 0 {
        Seq::empty()
    } else if units.len() > 1 && is_high_surrogate(units[0]) && is_low_surrogate(units[1]) {
        let c = 0x10000 + (units[0] - 0xD800) * 0x400 + (units[1] - 0xDC00);
        seq![c as char] + utf16_lossy(units.subrange(2, units.len() as int))
    } else if is_high_surrogate(units[0]) || is_low_surrogate(units[0]) {
        seq!['\u{FFFD}'] + utf16_lossy(units.subrange(1, units.len() as int))
    } else {
        seq![units[0] as char] + utf16_lossy(units.subrange(1, units.len() as int))
    }
}

/// Decodes UTF-16, replacing invalid units.
///
/// Trusted: `String::from_utf16_lossy`, documented to decode UTF-16 and to
/// put U+FFFD in place of invalid data; each unpaired surrogate is one
/// replacement, as `char::decode_utf16`, on which it is built, documents.
#[verifier::external_body]
fn decode_utf16_lossy(units: &[u16]) -> (res: String)
    ensures
        res@ == utf16_lossy(units@),
{
    String::from_utf16_lossy(units)
}

/// The text of a fixed-size, NUL-terminated wide-character name field.
pub fn wide_to_string(wide: &[u16]) -> (res: String)
    ensures
        res@ == utf16_lossy(wide@.subrange(0, wide_len(wide@) as int)),
{
    let mut len: usize = 0;
    while len < wide.len() && wide[len] != 0
        invariant
            len <= wide@.len(),
            forall|j: int| 0 <= j < len ==> wide@[j] != 0,
        decreases wide@.len() - len,
    {
        len = len + 1;
    }
    proof {
        if len < wide@.len() {
            let c = choose|i: int| 0 <= i < wide@.len() && wide@[i] == 0 && forall|j: int| 0 <= j < i ==> wide@[j] != 0;
            assert(wide@[len as int] == 0);
            assert(c == len as int) by {
                if c < len as int {
                } else if c > len as int {
                    assert(wide@[len as int] != 0);
                }
            }
        }
    }
    decode_utf16_lossy(&wide[0..len])
}


/// What the pairing tool was asked to do.
#[derive(Debug, Clone, Copy, PartialEq, Eq, Structural)]
pub enum PairCommand {
    /// Show the usage text.
    Help,
    /// List nearby Wii-family devices without pairing.
    Scan,
    /// Unpair every remembered Balance Board.
    Forget,
    /// Find, pair and enable the first Balance Board (no arguments).
    Pair,
    /// Arguments the tool does not know.
    Unknown,
}

/// Some argument equals `lit`.
pub open spec fn has_arg(args: Seq<Seq<char>>, lit: Seq<char>) -> bool {
    exists|i: int| 0 <= i < args.len() && #[trigger] args[i] == lit
}

/// The command a pairing-tool command line asks for: help wins, then a
/// scan, then forgetting; any other argument is unknown.
pub open spec fn spec_pair_command(args: Seq<Seq<char>>) -> PairCommand {
    if has_arg(args, "--help"@) || has_arg(args, "-h"@) {
        PairCommand::Help
    } else if has_arg(args, "--scan"@) {
        PairCommand::Scan
    } else if has_arg(args, "--forget"@) {
        PairCommand::Forget
    } else if args.len() > 0 {
        PairCommand::Unknown
    } else {
        PairCommand::Pair
    }
}

/// Whether some argument equals `lit`.
fn any_arg(args: &[String], lit: &str) -> (res: bool)
    ensures
        res == has_arg(args@.map_values(|s: String| s@), lit@),
{
    let ghost v = args@.map_values(|s: String| s@);
    let l = String::from_str(lit);
    let mut i: usize = 0;
    while i < args.len()
        invariant
            i <= args@.len(),
            v == args@.map_values(|s: String| s@),
            l@ == lit@,
            forall|k: int| 0 <= k < i ==> #[trigger] v[k] != lit@,
        decreases args@.len() - i,
    {
        if args[i] == l {
            assert(v[i as int] == lit@);
            return true;
        }
        i = i + 1;
    }
    false
}

/// Reads the pairing tool's command line (without the program name).
pub fn pair_command(args: &[String]) -> (res: PairCommand)
    ensures
        res == spec_pair_command(args@.map_values(|s: String| s@)),
{
    if any_arg(args, "--help") || any_arg(args, "-h") {
        PairCommand::Help
    } else if any_arg(args, "--scan") {
        PairCommand::Scan
    } else if any_arg(args, "--forget") {
        PairCommand::Forget
    } else if args.len() > 0 {
        PairCommand::Unknown
    } else {
        PairCommand::Pair
    }
}

/// What the pairing tool does for its arguments: `--help` or `-h` anywhere
/// asks for the usage, whatever else is given; otherwise `--scan` anywhere
/// scans and `--forget` anywhere forgets; no arguments pair; any other
/// argument list is refused as unknown.
pub proof fn lemma_pair_command_cases(args: Seq<Seq<char>>)
    ensures
        (exists|i: int| 0 <= i < args.len() && (args[i] == "--help"@ || args[i] == "-h"@))
            ==> spec_pair_command(args) == PairCommand::Help,
        spec_pair_command(args) == PairCommand::Help
            ==> exists|i: int| 0 <= i < args.len() && (args[i] == "--help"@ || args[i] == "-h"@),
        spec_pair_command(args) == PairCommand::Scan
            ==> exists|i: int| 0 <= i < args.len() && args[i] == "--scan"@,
        spec_pair_command(args) == PairCommand::Forget
            ==> exists|i: int| 0 <= i < args.len() && args[i] == "--forget"@,
        (forall|i: int| 0 <= i < args.len() ==> args[i] != "--help"@ && args[i] != "-h"@)
            && (exists|i: int| 0 <= i < args.len() && args[i] == "--scan"@)
            ==> spec_pair_command(args) == PairCommand::Scan,
        (forall|i: int| 0 <= i < args.len() ==> args[i] != "--help"@ && args[i] != "-h"@ && args[i] != "--scan"@)
            && (exists|i: int| 0 <= i < args.len() && args[i] == "--forget"@)
            ==> spec_pair_command(args) == PairCommand::Forget,
        args.len() == 0 ==> spec_pair_command(args) == PairCommand::Pair,
        spec_pair_command(args) == PairCommand::Pair ==> args.len() == 0,
        spec_pair_command(args) == PairCommand::Unknown ==> args.len() > 0
            && forall|i: int| 0 <= i < args.len() ==> args[i] != "--help"@ && args[i] != "-h"@
                && args[i] != "--scan"@ && args[i] != "--forget"@,
{
    if exists|i: int| 0 <= i < args.len() && (args[i] == "--help"@ || args[i] == "-h"@) {
        let i = choose|i: int| 0 <= i < args.len() && (args[i] == "--help"@ || args[i] == "-h"@);
        assert(args[i] == "--help"@ ==> has_arg(args, "--help"@));
        assert(args[i] == "-h"@ ==> has_arg(args, "-h"@));
    }
    if exists|i: int| 0 <= i < args.len() && args[i] == "--scan"@ {
        let i = choose|i: int| 0 <= i < args.len() && args[i] == "--scan"@;
        assert(has_arg(args, "--scan"@));
    }
    if exists|i: int| 0 <= i < args.len() && args[i] == "--forget"@ {
        let i = choose|i: int| 0 <= i < args.len() && args[i] == "--forget"@;
        assert(has_arg(args, "--forget"@));
    }
}

} // verus!
