//! Finding the board among the kernel's input devices (`hid_wiimote`), by
//! plain facts the caller reads from sysfs and evdev.
use vstd::prelude::*;
use crate::text::chars_of;
use crate::hid::{contains_run, NINTENDO_VID};

verus! {

/// Name prefix of event device nodes under `/sys/class/input`.
pub open spec fn event_prefix() -> Seq<char> {
    seq!['e', 'v', 'e', 'n', 't']
}

/// The part of the kernel device name that marks the board.
pub open spec fn board_device_name() -> Seq<char> {
    seq!['B', 'a', 'l', 'a', 'n', 'c', 'e', ' ', 'B', 'o', 'a', 'r', 'd']
}

/// Whether an entry of `/sys/class/input` is an event device node.
pub fn is_event_node(name: &str) -> (res: bool)
    ensures
        res == (event_prefix().len() <= name@.len()
            && name@.subrange(0, event_prefix().len() as int) == event_prefix()),
{
    let chars = chars_of(name);
    let prefix: [char; 5] = ['e', 'v', 'e', 'n', 't'];
    assert(prefix@ =~= event_prefix());
    if chars.len() < 5 {
        return false;
    }
    let mut i: usize = 0;
    while i < 5
        invariant
            chars@ == name@,
            chars@.len() >= 5,
            prefix@ == event_prefix(),
            i <= 5,
            forall|k: int| 0 <= k < i ==> chars@[k] == prefix@[k],
        decreases 5 - i,
    {
        if chars[i] != prefix[i] {
            assert(name@.subrange(0, 5)[i as int] != event_prefix()[i as int]);
            return false;
        }
        i = i + 1;
    }
    assert(name@.subrange(0, 5) =~= event_prefix());
    true
}

/// Whether a kernel input device name is the board's.
pub fn is_board_device_name(device_name: &str) -> (res: bool)
    ensures
        res == contains_run(device_name@, board_device_name()),
{
    let chars = chars_of(device_name);
    let needle: [char; 13] = ['B', 'a', 'l', 'a', 'n', 'c', 'e', ' ', 'B', 'o', 'a', 'r', 'd'];
    assert(needle@ =~= board_device_name());
    crate::hid::contains_chars(&chars, needle.as_slice())
}

/// The kernel's absolute-axis codes for the four corners (`ABS_HAT0X`,
/// `ABS_HAT0Y`, `ABS_HAT1X`, `ABS_HAT1Y`), in the order top right, bottom
/// right, top left, bottom left.
pub const BOARD_AXIS_CODES: [u16; 4] = [0x10, 0x11, 0x12, 0x13];

/// Whether an input device carries Nintendo's vendor ID.
pub fn is_board_vendor(vendor: u16) -> (res: bool)
    ensures
        res == (vendor == NINTENDO_VID),
{
    vendor == NINTENDO_VID
}

/// Whether a device reports all four corner axes, given the codes of the
/// absolute axes it supports (none when it has no absolute axes).
pub fn has_board_axes(supported: &[u16]) -> (res: bool)
    ensures
        res == forall|k: int| 0 <= k < 4 ==> supported@.contains(#[trigger] BOARD_AXIS_CODES@[k]),
{
    let codes = BOARD_AXIS_CODES;
    let mut k: usize = 0;
    while k < 4
        invariant
            codes@ == BOARD_AXIS_CODES@,
            k <= 4,
            forall|m: int| 0 <= m < k ==> supported@.contains(#[trigger] BOARD_AXIS_CODES@[m]),
        decreases 4 - k,
    {
        let code = codes[k];
        let mut found = false;
        let mut i: usize = 0;
        while i < supported.len()
            invariant
                i <= supported@.len(),
                found == exists|j: int| 0 <= j < i && supported@[j] == code,
            decreases supported@.len() - i,
        {
            if supported[i] == code {
                found = true;
            }
            i = i + 1;
        }
        if !found {
            assert(!supported@.contains(BOARD_AXIS_CODES@[k as int]));
            return false;
        }
        k = k + 1;
    }
    true
}

/// How a found board is remembered across reconnections: its unique name
/// when the kernel gives a non-empty one, else its device path.
pub fn input_identity(unique_name: Option<&str>, path: &str) -> (res: String)
    ensures
        res@ == match unique_name {
            Some(u) => if u@.len() > 0 { u@ } else { path@ },
            None => path@,
        },
{
    let mut s = String::new();
    match unique_name {
        Some(u) => if !u.is_empty() {
            s.append(u);
        } else {
            s.append(path);
        },
        None => s.append(path),
    }
    s
}

/// Whether a found board is the one asked for: any board when none was
/// asked for, else the same identity.
pub fn identity_accepted(expected: Option<&String>, found: &String) -> (res: bool)
    ensures
        res == match expected {
            Some(e) => e@ == found@,
            None => true,
        },
{
    match expected {
        Some(e) => *e == *found,
        None => true,
    }
}

/// Why no board could be opened.
#[derive(Clone, Copy, Debug, PartialEq, Eq, Structural)]
pub enum LinuxOpenFailure {
    /// A board is there but its device node may not be opened.
    PermissionDenied,
    /// No board input device was found.
    NotFound,
}

/// The failure to report after looking at every input device: a refused
/// board takes precedence, since it tells the user what to fix.
pub fn open_failure(permission_denied: bool) -> (res: LinuxOpenFailure)
    ensures
        res == if permission_denied { LinuxOpenFailure::PermissionDenied } else { LinuxOpenFailure::NotFound },
{
    if permission_denied {
        LinuxOpenFailure::PermissionDenied
    } else {
        LinuxOpenFailure::NotFound
    }
}

/// The advice for each failure.
pub open spec fn open_failure_text(f: LinuxOpenFailure) -> Seq<char> {
    match f {
        LinuxOpenFailure::PermissionDenied => "The board is connected but access is denied. Run the included setup-linux.sh once, then reconnect the board."@,
        LinuxOpenFailure::NotFound => "No Linux Balance Board input found. Press Power on a paired board, or choose Pair in the launcher. Linux needs the hid_wiimote driver."@,
    }
}

impl LinuxOpenFailure {
    /// Describes the failure and what to do about it.
    pub fn message(&self) -> (res: String)
        ensures
            res@ == open_failure_text(*self),
    {
        let mut s = String::new();
        match self {
            LinuxOpenFailure::PermissionDenied => s.append("The board is connected but access is denied. Run the included setup-linux.sh once, then reconnect the board."),
            LinuxOpenFailure::NotFound => s.append("No Linux Balance Board input found. Press Power on a paired board, or choose Pair in the launcher. Linux needs the hid_wiimote driver."),
        }
        s
    }
}

} // verus!
