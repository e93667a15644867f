//! Naming the per-device calibration cache: a stable FNV-1a hash of the
//! board's HID path, written as 16 lower-case hex digits. The hash keeps
//! devices apart without putting Bluetooth addresses into file names.
use vstd::prelude::*;
use crate::text::{hex_digit, hex_digit_char, push_char};

verus! {

/// The FNV-1a 64-bit offset basis.
pub const FNV_OFFSET: u64 = 0xcbf29ce484222325;
/// The FNV-1a 64-bit prime.
pub const FNV_PRIME: u64 = 0x100000001b3;

/// FNV-1a over `bytes`: start from the offset basis; for each byte, xor it
/// in and multiply by the prime, wrapping at 64 bits.
pub open spec fn fnv1a(bytes: Seq<u8>) -> u64
    decreases bytes.len(),
{
    if bytes.len() == 0 {
        FNV_OFFSET
    } else {
        ((((fnv1a(bytes.drop_last()) ^ (bytes.last() as u64)) as nat) * (FNV_PRIME as nat))
            % 0x1_0000_0000_0000_0000) as u64
    }
}

/// The FNV-1a hash of `bytes`.
pub fn fnv1a_hash(bytes: &[u8]) -> (res: u64)
    ensures
        res == fnv1a(bytes@),
{
    let mut h: u64 = FNV_OFFSET;
    let mut i: usize = 0;
    while i < bytes.len()
        invariant
            i <= bytes@.len(),
            h == fnv1a(bytes@.take(i as int)),
        decreases bytes@.len() - i,
    {
        proof {
            assert(bytes@.take(i + 1).drop_last() =~= bytes@.take(i as int));
            assert(bytes@.take(i + 1).last() == bytes@[i as int]);
        }
        h = (h ^ (bytes[i] as u64)).wrapping_mul(FNV_PRIME);
        i = i + 1;
    }
    assert(bytes@.take(bytes@.len() as int) =~= bytes@);
    h
}

/// `16` to the power `k`.
pub open spec fn pow16(k: nat) -> nat
    decreases k,
{
    if k == 0 {
        1
    } else {
        16 * pow16((k - 1) as nat)
    }
}

/// `v` as 16 lower-case hex digits, most significant first.
pub open spec fn hex16(v: u64) -> Seq<char> {
    Seq::new(16, |i: int| hex_digit(((v as nat / pow16((15 - i) as nat)) % 16) as u8, false))
}

/// `(v / 16^k) / 16 == v / 16^(k+1)`.
proof fn lemma_div_pow16(v: nat, k: nat)
    ensures
        pow16(k) > 0,
        (v / pow16(k)) / 16 == v / pow16(k + 1),
    decreases k,
{
    if k > 0 {
        lemma_div_pow16(v, (k - 1) as nat);
    }
    assert(pow16(k + 1) == 16 * pow16(k));
    vstd::arithmetic::div_mod::lemma_div_denominator(v as int, pow16(k) as int, 16);
    assert(pow16(k) * 16 == 16 * pow16(k)) by (nonlinear_arith);
}

/// Formats `v` as 16 lower-case hex digits.
pub fn format_hex16(v: u64) -> (res: String)
    ensures
        res@ == hex16(v),
{
    let mut digits: [char; 16] = ['0'; 16];
    let mut rest: u64 = v;
    let mut k: usize = 0;
    assert(pow16(0) == 1);
    assert(v as nat / 1 == v as nat);
    while k < 16
        invariant
            k <= 16,
            rest as nat == v as nat / pow16(k as nat),
            digits@.len() == 16,
            forall|j: int| 16 - k <= j < 16 ==> digits@[j] == hex16(v)[j],
        decreases 16 - k,
    {
        proof {
            lemma_div_pow16(v as nat, k as nat);
        }
        let d: u8 = (rest % 16) as u8;
        digits[15 - k] = hex_digit_char(d, false);
        rest = rest / 16;
        k = k + 1;
    }
    let mut s = String::new();
    let mut i: usize = 0;
    while i < 16
        invariant
            i <= 16,
            digits@.len() == 16,
            forall|j: int| 0 <= j < 16 ==> digits@[j] == hex16(v)[j],
            s@ == hex16(v).take(i as int),
        decreases 16 - i,
    {
        push_char(&mut s, digits[i]);
        proof {
            assert(hex16(v).take(i + 1) =~= hex16(v).take(i as int).push(hex16(v)[i as int]));
        }
        i = i + 1;
    }
    assert(hex16(v).take(16) =~= hex16(v));
    s
}

/// The cache directory name for a device path: its FNV-1a hash in hex.
pub fn cache_dir_name(path: &[u8]) -> (res: String)
    ensures
        res@ == hex16(fnv1a(path@)),
{
    format_hex16(fnv1a_hash(path))
}

} // verus!
