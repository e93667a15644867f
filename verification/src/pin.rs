//! Wii pairing PINs.
//!
//! Red SYNC pairing uses the local Bluetooth radio's address as a binary PIN,
//! in Win32 `rgBytes` order, rather than a decimal passkey.
use vstd::prelude::*;
use crate::text::{hex2, push_char, push_hex2};

verus! {

/// Length of a Wii pairing PIN, in bytes: the length of a Bluetooth address.
pub const WII_PIN_LEN: usize = 6;

/// Bytes as upper-case two-digit hex, separated by colons.
pub open spec fn colon_hex(bytes: Seq<u8>) -> Seq<char>
    decreases bytes.len(),
{
    if bytes.len() == 0 {
        seq![]
    } else if bytes.len() == 1 {
        hex2(bytes[0], true)
    } else {
        colon_hex(bytes.drop_last()) + seq![':'] + hex2(bytes.last(), true)
    }
}

/// The PIN for an address supplied in Win32 `rgBytes` order: the same bytes.
/// The caller picks the address for the pairing mode (the local radio for
/// red SYNC, not the board).
pub fn wii_pin_for_address(rg_bytes: [u8; 6]) -> (res: [u8; WII_PIN_LEN])
    ensures
        res@ == rg_bytes@,
{
    rg_bytes
}

/// The local radio address as a passkey for Windows' direct legacy
/// authentication: each byte in its own wide character, then a terminating
/// NUL. The explicit length passed along is always six.
pub fn sync_passkey(local_radio_address: [u8; WII_PIN_LEN]) -> (res: [u16; 7])
    ensures
        forall|i: int| 0 <= i < 6 ==> res@[i] == local_radio_address@[i] as u16,
        res@[6] == 0,
{
    let pin = wii_pin_for_address(local_radio_address);
    let mut wide: [u16; 7] = [0u16; 7];
    let mut i: usize = 0;
    while i < WII_PIN_LEN
        invariant
            i <= 6,
            pin@ == local_radio_address@,
            wide@.len() == 7,
            wide@[6] == 0,
            forall|k: int| 0 <= k < i ==> wide@[k] == pin@[k] as u16,
        decreases 6 - i,
    {
        wide[i] = pin[i] as u16;
        i = i + 1;
    }
    wide
}

/// Appends `bytes` as colon-separated upper-case hex.
fn push_colon_hex(s: &mut String, bytes: &[u8])
    ensures
        final(s)@ == old(s)@ + colon_hex(bytes@),
{
    let ghost start = s@;
    let mut i: usize = 0;
    while i < bytes.len()
        invariant
            i <= bytes@.len(),
            s@ == start + colon_hex(bytes@.take(i as int)),
        decreases bytes@.len() - i,
    {
        proof {
            assert(bytes@.take(i + 1).drop_last() =~= bytes@.take(i as int));
            assert(bytes@.take(i + 1).last() == bytes@[i as int]);
        }
        if i > 0 {
            push_char(s, ':');
        }
        push_hex2(s, bytes[i], true);
        proof {
            if i == 0 {
                assert(bytes@.take(1).len() == 1);
                assert(colon_hex(bytes@.take(0)) =~= seq![]);
            }
            assert(s@ =~= start + colon_hex(bytes@.take(i + 1)));
        }
        i = i + 1;
    }
    assert(bytes@.take(bytes@.len() as int) =~= bytes@);
}

/// Formats a PIN as colon-separated upper-case hex, in PIN order
/// (for example `00:26:59:31:2F:A7`).
pub fn format_pin(pin: [u8; WII_PIN_LEN]) -> (res: String)
    ensures
        res@ == colon_hex(pin@),
{
    let mut s = String::new();
    push_colon_hex(&mut s, pin.as_slice());
    s
}

/// Formats a Bluetooth address given in Win32 `rgBytes` order the way most
/// Bluetooth interfaces show it: colon-separated upper-case hex, most
/// significant byte first (rgBytes `[0x00, 0x26, 0x59, 0x31, 0x2F, 0xA7]`
/// reads `A7:2F:31:59:26:00`).
pub fn format_bd_addr(rg_bytes: [u8; 6]) -> (res: String)
    ensures
        res@ == colon_hex(rg_bytes@.reverse()),
{
    let reversed: [u8; 6] = [rg_bytes[5], rg_bytes[4], rg_bytes[3], rg_bytes[2], rg_bytes[1], rg_bytes[0]];
    assert(reversed@ =~= rg_bytes@.reverse());
    let mut s = String::new();
    push_colon_hex(&mut s, reversed.as_slice());
    s
}

} // verus!
