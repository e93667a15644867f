//! Reassembling Wiimote register-read responses (report ID `0x21`).
//!
//! One `0x17` read-register command may ask for up to 65 535 bytes; the board
//! splits the answer into frames of at most 16 bytes, each carrying the
//! address it starts at. [`ReadTransaction`] puts them back together,
//! whatever their order, with other reports allowed in between.
use vstd::prelude::*;
use crate::report::{be16, read_be16};
use crate::text::{hex_min, push_hex_min};

verus! {

/// Why a frame was refused. A refused frame leaves the transaction unchanged.
#[derive(Debug, Clone, Copy, PartialEq, Eq, Structural)]
pub enum ReadError {
    /// Shorter than 22 bytes, or not report `0x21`.
    NotReadResponse,
    /// The board reported the error code carried in the frame's high nibble.
    DeviceError(u8),
    /// The frame's bytes fall outside the requested range.
    ExceedsRequest,
}

/// The human-readable description of a refused frame.
pub open spec fn read_error_text(e: ReadError) -> Seq<char> {
    match e {
        ReadError::NotReadResponse => "not a 0x21 register-read response frame"@,
        ReadError::DeviceError(code) => "Wiimote register-read error code 0x"@ + hex_min(code),
        ReadError::ExceedsRequest => "register-read response exceeds requested length"@,
    }
}

impl ReadError {
    /// Describes the error for a person reading a log.
    pub fn message(&self) -> (res: String)
        ensures
            res@ == read_error_text(*self),
    {
        let mut s = String::new();
        match self {
            ReadError::NotReadResponse => {
                s.append("not a 0x21 register-read response frame");
            },
            ReadError::DeviceError(code) => {
                s.append("Wiimote register-read error code 0x");
                push_hex_min(&mut s, *code);
            },
            ReadError::ExceedsRequest => {
                s.append("register-read response exceeds requested length");
            },
        }
        s
    }
}

/// The state of a transaction: what was asked for and what has arrived.
pub struct ReadState {
    /// Start address, in extension-register address space.
    pub base_addr: u32,
    /// Number of bytes asked for.
    pub expected_len: u16,
    /// The assembled bytes so far (zero where nothing arrived yet).
    pub buffer: Seq<u8>,
    /// For each requested byte, whether an accepted frame has written it.
    pub covered: Seq<bool>,
}

/// The buffer and the coverage marks both span exactly the requested range.
pub open spec fn shaped(st: ReadState) -> bool {
    st.buffer.len() == st.expected_len && st.covered.len() == st.expected_len
}

/// The report ID of a register-read response.
pub open spec fn is_read_response(frame: Seq<u8>) -> bool {
    frame.len() >= 22 && frame[0] == 0x21
}

/// The error code in a response frame: the high nibble of byte 3.
pub open spec fn frame_error(frame: Seq<u8>) -> u8 {
    frame[3] / 16
}

/// The payload size in a response frame: the low nibble of byte 3, plus one.
pub open spec fn frame_size(frame: Seq<u8>) -> nat {
    (frame[3] % 16) as nat + 1
}

/// Where a frame's payload goes in the buffer: the low 16 bits of its source
/// address (bytes 4 and 5, big-endian) minus the low 16 bits of the base
/// address, as a 32-bit wrapping difference.
pub open spec fn frame_offset(base_addr: u32, frame: Seq<u8>) -> nat {
    let d = be16(frame[4], frame[5]) as int - (base_addr % 0x10000) as int;
    if d < 0 {
        (d + 0x1_0000_0000) as nat
    } else {
        d as nat
    }
}

/// The payload of a response frame: `size` bytes from offset 6.
pub open spec fn frame_payload(frame: Seq<u8>) -> Seq<u8> {
    frame.subrange(6, 6 + frame_size(frame) as int)
}

/// `buf` with the bytes from `at` on replaced by `data`.
pub open spec fn splice(buf: Seq<u8>, at: int, data: Seq<u8>) -> Seq<u8> {
    buf.subrange(0, at) + data + buf.subrange(at + data.len(), buf.len() as int)
}

/// `cov` with every position in `[lo, hi)` marked.
pub open spec fn mark(cov: Seq<bool>, lo: int, hi: int) -> Seq<bool> {
    Seq::new(cov.len(), |k: int| (lo <= k && k < hi) || cov[k])
}

/// Processing one frame: the new state, or why the frame was refused.
pub open spec fn spec_consume(st: ReadState, frame: Seq<u8>) -> Result<ReadState, ReadError> {
    if !is_read_response(frame) {
        Err(ReadError::NotReadResponse)
    } else if frame_error(frame) != 0 {
        Err(ReadError::DeviceError(frame_error(frame)))
    } else if frame_offset(st.base_addr, frame) + frame_size(frame) > st.expected_len {
        Err(ReadError::ExceedsRequest)
    } else {
        Ok(ReadState {
            buffer: splice(st.buffer, frame_offset(st.base_addr, frame) as int, frame_payload(frame)),
            covered: mark(
                st.covered,
                frame_offset(st.base_addr, frame) as int,
                (frame_offset(st.base_addr, frame) + frame_size(frame)) as int,
            ),
            ..st
        })
    }
}

/// Every requested byte has been written by some accepted frame.
pub open spec fn spec_is_complete(st: ReadState) -> bool {
    forall|k: int| 0 <= k < st.expected_len ==> #[trigger] st.covered[k]
}

/// A transaction before any frame: zeros, nothing covered.
pub open spec fn fresh(base_addr: u32, expected_len: u16) -> ReadState {
    ReadState {
        base_addr,
        expected_len,
        buffer: Seq::new(expected_len as nat, |i: int| 0u8),
        covered: Seq::new(expected_len as nat, |i: int| false),
    }
}

/// The byte range `[offset, offset + size)` that an accepted frame writes.
pub open spec fn frame_range(base_addr: u32, frame: Seq<u8>) -> (nat, nat) {
    (frame_offset(base_addr, frame), frame_offset(base_addr, frame) + frame_size(frame))
}

/// Two ranges share no byte.
pub open spec fn disjoint(a: (nat, nat), b: (nat, nat)) -> bool {
    a.1 <= b.0 || b.1 <= a.0
}

/// An accepted frame's payload lands at its offset, its range becomes
/// covered, and every other byte and mark is kept; the buffer keeps its
/// length, and a complete transaction stays complete. Whether a frame is
/// accepted depends only on the frame and on what was asked for, never on
/// what has arrived.
pub proof fn lemma_payload_lands(st: ReadState, other: ReadState, frame: Seq<u8>)
    requires
        shaped(st),
        spec_consume(st, frame) is Ok,
        other.base_addr == st.base_addr,
        other.expected_len == st.expected_len,
    ensures
        spec_consume(other, frame) is Ok,
        ({
            let next = spec_consume(st, frame)->Ok_0;
            let (lo, hi) = frame_range(st.base_addr, frame);
            &&& shaped(next)
            &&& next.base_addr == st.base_addr
            &&& next.expected_len == st.expected_len
            &&& next.buffer.subrange(lo as int, hi as int) == frame_payload(frame)
            &&& forall|k: int| 0 <= k < st.buffer.len() && !(lo <= k < hi)
                ==> #[trigger] next.buffer[k] == st.buffer[k]
            &&& forall|k: int| 0 <= k < st.covered.len()
                ==> #[trigger] next.covered[k] == ((lo <= k < hi) || st.covered[k])
            &&& spec_is_complete(st) ==> spec_is_complete(next)
        }),
{
    let next = spec_consume(st, frame)->Ok_0;
    let (lo, hi) = frame_range(st.base_addr, frame);
    assert(next.buffer.subrange(lo as int, hi as int) =~= frame_payload(frame));
    if spec_is_complete(st) {
        assert forall|k: int| 0 <= k < next.expected_len implies #[trigger] next.covered[k] by {
            assert(st.covered[k]);
        }
    }
}

/// A frame delivered again changes nothing: the second copy writes the same
/// bytes and covers no byte the first did not.
pub proof fn lemma_repeat_changes_nothing(st: ReadState, frame: Seq<u8>)
    requires
        shaped(st),
        spec_consume(st, frame) is Ok,
    ensures
        spec_consume(spec_consume(st, frame)->Ok_0, frame) == spec_consume(st, frame),
{
    let next = spec_consume(st, frame)->Ok_0;
    lemma_payload_lands(st, next, frame);
    lemma_payload_lands(next, next, frame);
    let again = spec_consume(next, frame)->Ok_0;
    let (lo, hi) = frame_range(st.base_addr, frame);
    assert forall|k: int| 0 <= k < again.buffer.len() implies again.buffer[k] == next.buffer[k] by {
        if lo <= k < hi {
            assert(again.buffer[k] == again.buffer.subrange(lo as int, hi as int)[k - lo]);
            assert(next.buffer[k] == next.buffer.subrange(lo as int, hi as int)[k - lo]);
        }
    }
    assert(again.buffer =~= next.buffer);
    assert(again.covered =~= next.covered);
}

/// Frames that write disjoint ranges may arrive in either order: the
/// assembled state is the same, and both orders accept both frames.
pub proof fn lemma_consume_order_independent(st: ReadState, f1: Seq<u8>, f2: Seq<u8>)
    requires
        shaped(st),
        spec_consume(st, f1) is Ok,
        spec_consume(st, f2) is Ok,
        disjoint(frame_range(st.base_addr, f1), frame_range(st.base_addr, f2)),
    ensures
        spec_consume(spec_consume(st, f1)->Ok_0, f2) is Ok,
        spec_consume(spec_consume(st, f2)->Ok_0, f1) is Ok,
        spec_consume(spec_consume(st, f1)->Ok_0, f2)
            == spec_consume(spec_consume(st, f2)->Ok_0, f1),
{
    let a = spec_consume(st, f1)->Ok_0;
    let b = spec_consume(st, f2)->Ok_0;
    lemma_payload_lands(st, b, f1);
    lemma_payload_lands(st, a, f2);
    lemma_payload_lands(a, a, f2);
    lemma_payload_lands(b, b, f1);
    let ab = spec_consume(a, f2)->Ok_0;
    let ba = spec_consume(b, f1)->Ok_0;
    let (lo1, hi1) = frame_range(st.base_addr, f1);
    let (lo2, hi2) = frame_range(st.base_addr, f2);
    assert forall|k: int| 0 <= k < ab.buffer.len() implies ab.buffer[k] == ba.buffer[k] by {
        if lo1 <= k < hi1 {
            assert(ab.buffer[k] == a.buffer[k]);
            assert(a.buffer[k] == a.buffer.subrange(lo1 as int, hi1 as int)[k - lo1]);
            assert(ba.buffer[k] == ba.buffer.subrange(lo1 as int, hi1 as int)[k - lo1]);
        } else if lo2 <= k < hi2 {
            assert(ba.buffer[k] == b.buffer[k]);
            assert(b.buffer[k] == b.buffer.subrange(lo2 as int, hi2 as int)[k - lo2]);
            assert(ab.buffer[k] == ab.buffer.subrange(lo2 as int, hi2 as int)[k - lo2]);
        } else {
            assert(ab.buffer[k] == a.buffer[k]);
            assert(ba.buffer[k] == b.buffer[k]);
        }
    }
    assert(ab.buffer =~= ba.buffer);
    assert(ab.covered =~= ba.covered);
}

/// Processing frames in order, stopping at the first refusal.
pub open spec fn consume_all(st: ReadState, frames: Seq<Seq<u8>>) -> Result<ReadState, ReadError>
    decreases frames.len(),
{
    if frames.len() == 0 {
        Ok(st)
    } else {
        match consume_all(st, frames.drop_last()) {
            Ok(s) => spec_consume(s, frames.last()),
            Err(e) => Err(e),
        }
    }
}

/// Byte `k` lies in the range that frame `f` writes.
pub open spec fn covers(base_addr: u32, f: Seq<u8>, k: int) -> bool {
    frame_range(base_addr, f).0 <= k < frame_range(base_addr, f).1
}

/// Some frame of `frames` writes byte `k`.
pub open spec fn some_frame_covers(base_addr: u32, frames: Seq<Seq<u8>>, k: int) -> bool {
    exists|i: int| 0 <= i < frames.len() && covers(base_addr, #[trigger] frames[i], k)
}

/// Coverage, whatever the frames: when every frame is acceptable on its
/// own, consuming them all succeeds, and a byte is covered afterwards
/// exactly when it was before or some frame writes it. Repeated or
/// overlapping frames cover nothing twice.
pub proof fn lemma_coverage(st: ReadState, frames: Seq<Seq<u8>>)
    requires
        shaped(st),
        forall|i: int| 0 <= i < frames.len() ==> spec_consume(st, #[trigger] frames[i]) is Ok,
    ensures
        consume_all(st, frames) is Ok,
        ({
            let fin = consume_all(st, frames)->Ok_0;
            &&& shaped(fin)
            &&& fin.base_addr == st.base_addr
            &&& fin.expected_len == st.expected_len
            &&& forall|k: int| 0 <= k < st.expected_len ==> #[trigger] fin.covered[k]
                == (st.covered[k] || some_frame_covers(st.base_addr, frames, k))
        }),
    decreases frames.len(),
{
    if frames.len() > 0 {
        let prefix = frames.drop_last();
        let last = frames.last();
        assert forall|i: int| 0 <= i < prefix.len() implies spec_consume(st, #[trigger] prefix[i]) is Ok by {
            assert(prefix[i] == frames[i]);
        }
        lemma_coverage(st, prefix);
        let mid = consume_all(st, prefix)->Ok_0;
        assert(spec_consume(st, frames[frames.len() - 1]) is Ok);
        lemma_payload_lands(st, mid, last);
        lemma_payload_lands(mid, mid, last);
        let fin = spec_consume(mid, last)->Ok_0;
        assert forall|k: int| 0 <= k < st.expected_len implies #[trigger] fin.covered[k]
            == (st.covered[k] || some_frame_covers(st.base_addr, frames, k)) by {
            if some_frame_covers(st.base_addr, prefix, k) {
                let i = choose|i: int| 0 <= i < prefix.len() && covers(st.base_addr, #[trigger] prefix[i], k);
                assert(frames[i] == prefix[i]);
            }
            if covers(st.base_addr, last, k) {
                assert(frames[frames.len() - 1] == last);
            }
            if some_frame_covers(st.base_addr, frames, k) {
                let i = choose|i: int| 0 <= i < frames.len() && covers(st.base_addr, #[trigger] frames[i], k);
                if i < frames.len() - 1 {
                    assert(prefix[i] == frames[i]);
                }
            }
        }
    }
}

/// A transaction is complete exactly when the frames it accepted cover
/// every requested byte, in whatever order and with whatever repeats they
/// arrived.
pub proof fn lemma_complete_exactly_when_covered(base_addr: u32, expected_len: u16, frames: Seq<Seq<u8>>)
    requires
        forall|i: int| 0 <= i < frames.len() ==> spec_consume(fresh(base_addr, expected_len), #[trigger] frames[i]) is Ok,
    ensures
        consume_all(fresh(base_addr, expected_len), frames) is Ok,
        spec_is_complete(consume_all(fresh(base_addr, expected_len), frames)->Ok_0)
            <==> forall|k: int| 0 <= k < expected_len ==> #[trigger] some_frame_covers(base_addr, frames, k),
{
    let st = fresh(base_addr, expected_len);
    lemma_coverage(st, frames);
    let fin = consume_all(st, frames)->Ok_0;
    if spec_is_complete(fin) {
        assert forall|k: int| 0 <= k < expected_len implies #[trigger] some_frame_covers(base_addr, frames, k) by {
            assert(fin.covered[k]);
        }
    }
    if forall|k: int| 0 <= k < expected_len ==> #[trigger] some_frame_covers(base_addr, frames, k) {
        assert forall|k: int| 0 <= k < fin.expected_len implies #[trigger] fin.covered[k] by {
            assert(some_frame_covers(base_addr, frames, k));
        }
    }
}

/// Reassembly in any order: when every frame is acceptable on its own and
/// no two frames write the same byte, consuming them all succeeds; each
/// byte a frame covers holds that frame's payload byte, and every other byte
/// is kept. None of this depends on the order in which the frames arrive.
pub proof fn lemma_reassembly(st: ReadState, frames: Seq<Seq<u8>>)
    requires
        shaped(st),
        forall|i: int| 0 <= i < frames.len() ==> spec_consume(st, #[trigger] frames[i]) is Ok,
        forall|i: int, j: int| 0 <= i < j < frames.len() ==> disjoint(
            frame_range(st.base_addr, #[trigger] frames[i]), frame_range(st.base_addr, #[trigger] frames[j])),
    ensures
        consume_all(st, frames) is Ok,
        ({
            let fin = consume_all(st, frames)->Ok_0;
            &&& fin.base_addr == st.base_addr
            &&& fin.expected_len == st.expected_len
            &&& shaped(fin)
            &&& forall|i: int, k: int| 0 <= i < frames.len() && covers(st.base_addr, #[trigger] frames[i], k)
                ==> #[trigger] fin.buffer[k] == frame_payload(frames[i])[k - frame_offset(st.base_addr, frames[i])]
            &&& forall|k: int| 0 <= k < st.buffer.len()
                && (forall|i: int| 0 <= i < frames.len() ==> !covers(st.base_addr, #[trigger] frames[i], k))
                ==> fin.buffer[k] == st.buffer[k]
        }),
    decreases frames.len(),
{
    if frames.len() > 0 {
        let prefix = frames.drop_last();
        let last = frames.last();
        assert forall|i: int| 0 <= i < prefix.len() implies spec_consume(st, #[trigger] prefix[i]) is Ok by {
            assert(prefix[i] == frames[i]);
        }
        assert forall|i: int, j: int| 0 <= i < j < prefix.len() implies disjoint(
            frame_range(st.base_addr, #[trigger] prefix[i]), frame_range(st.base_addr, #[trigger] prefix[j])) by {
            assert(prefix[i] == frames[i] && prefix[j] == frames[j]);
        }
        lemma_reassembly(st, prefix);
        let mid = consume_all(st, prefix)->Ok_0;
        assert(spec_consume(st, frames[frames.len() - 1]) is Ok);
        lemma_payload_lands(st, mid, last);
        lemma_payload_lands(mid, mid, last);
        let fin = spec_consume(mid, last)->Ok_0;
        let (lo, hi) = frame_range(st.base_addr, last);
        assert forall|i: int, k: int| 0 <= i < frames.len() && covers(st.base_addr, #[trigger] frames[i], k)
            implies #[trigger] fin.buffer[k] == frame_payload(frames[i])[k - frame_offset(st.base_addr, frames[i])] by {
            if i == frames.len() - 1 {
                assert(fin.buffer.subrange(lo as int, hi as int)[k - lo] == fin.buffer[k]);
            } else {
                assert(frames[i] == prefix[i]);
                assert(disjoint(frame_range(st.base_addr, frames[i]), frame_range(st.base_addr, frames[frames.len() - 1])));
                assert(mid.buffer[k] == frame_payload(prefix[i])[k - frame_offset(st.base_addr, prefix[i])]);
            }
        }
        assert forall|k: int| 0 <= k < st.buffer.len()
            && (forall|i: int| 0 <= i < frames.len() ==> !covers(st.base_addr, #[trigger] frames[i], k))
            implies fin.buffer[k] == st.buffer[k] by {
            assert(!covers(st.base_addr, frames[frames.len() - 1], k));
            assert forall|i: int| 0 <= i < prefix.len() implies !covers(st.base_addr, #[trigger] prefix[i], k) by {
                assert(prefix[i] == frames[i]);
            }
        }
    }
}

/// State machine that assembles `0x21` register-read response frames into
/// the originally requested byte range.
pub struct ReadTransaction {
    base_addr: u32,
    expected_len: u16,
    buffer: Vec<u8>,
    received: Vec<bool>,
}

impl View for ReadTransaction {
    type V = ReadState;

    closed spec fn view(&self) -> ReadState {
        ReadState {
            base_addr: self.base_addr,
            expected_len: self.expected_len,
            buffer: self.buffer@,
            covered: self.received@,
        }
    }
}

impl ReadTransaction {
    /// The buffer and the coverage marks span exactly the requested range.
    pub open spec fn wf(&self) -> bool {
        shaped(self@)
    }

    /// Creates a transaction expecting `expected_len` bytes starting at
    /// `base_addr` (in extension-register address space).
    pub fn new(base_addr: u32, expected_len: u16) -> (res: Self)
        ensures
            res@ == fresh(base_addr, expected_len),
            res.wf(),
    {
        let mut buffer: Vec<u8> = Vec::new();
        let mut received: Vec<bool> = Vec::new();
        let mut i: u16 = 0;
        while i < expected_len
            invariant
                i <= expected_len,
                buffer@ == Seq::new(i as nat, |k: int| 0u8),
                received@ == Seq::new(i as nat, |k: int| false),
            decreases expected_len - i,
        {
            buffer.push(0u8);
            received.push(false);
            i = i + 1;
        }
        ReadTransaction { base_addr, expected_len, buffer, received }
    }

    /// `true` once every requested byte has been received.
    pub fn is_complete(&self) -> (res: bool)
        requires
            self.wf(),
        ensures
            res == spec_is_complete(self@),
    {
        let n: usize = self.expected_len as usize;
        let mut k: usize = 0;
        while k < n
            invariant
                n == self.expected_len,
                self.received@.len() == n,
                k <= n,
                forall|j: int| 0 <= j < k ==> #[trigger] self.received@[j],
            decreases n - k,
        {
            if !self.received[k] {
                assert(!self@.covered[k as int]);
                return false;
            }
            k = k + 1;
        }
        true
    }

    /// Hands over the assembled bytes.
    pub fn into_bytes(self) -> (res: Vec<u8>)
        requires
            self.wf(),
        ensures
            res@ == self@.buffer,
            res@.len() == self@.expected_len,
    {
        self.buffer
    }

    /// Processes one `0x21` response frame.
    ///
    /// | Offset | Length | Meaning                                      |
    /// |--------|--------|----------------------------------------------|
    /// | 0      | 1      | Report ID (`0x21`)                           |
    /// | 1..=2  | 2      | Core button state (ignored here)             |
    /// | 3      | 1      | High nibble = error, low nibble = size - 1   |
    /// | 4..=5  | 2      | Source address, low 16 bits, big-endian      |
    /// | 6..=21 | 16     | Payload (`size` valid bytes, rest zero pad)  |
    ///
    /// A refused frame changes nothing.
    pub fn consume(&mut self, frame: &[u8]) -> (res: Result<(), ReadError>)
        requires
            old(self).wf(),
        ensures
            final(self).wf(),
            match spec_consume(old(self)@, frame@) {
                Ok(st) => res is Ok && final(self)@ == st,
                Err(e) => res == Err::<(), ReadError>(e) && final(self)@ == old(self)@,
            },
    {
        if frame.len() < 22 || frame[0] != 0x21 {
            return Err(ReadError::NotReadResponse);
        }
        let err_size = frame[3];
        assert(err_size >> 4u8 == err_size / 16 && (err_size & 0x0F) == err_size % 16) by (bit_vector);
        let err: u8 = err_size >> 4u8;
        let size: usize = (err_size & 0x0F) as usize + 1;
        if err != 0 {
            return Err(ReadError::DeviceError(err));
        }
        let frame_addr_low: u32 = read_be16(frame[4], frame[5]) as u32;
        let base_addr: u32 = self.base_addr;
        let base_low: u32 = base_addr & 0xFFFF;
        assert(base_addr & 0xFFFF == base_addr % 0x10000) by (bit_vector);
        let offset: u32 = frame_addr_low.wrapping_sub(base_low);
        if offset as u64 + size as u64 > self.expected_len as u64 {
            return Err(ReadError::ExceedsRequest);
        }
        assert(offset as nat == frame_offset(self.base_addr, frame@));
        assert(size as nat == frame_size(frame@));
        let offset: usize = offset as usize;
        let ghost old_buf = self.buffer@;
        let ghost old_cov = self.received@;
        let ghost old_view = self@;
        let mut i: usize = 0;
        while i < size
            invariant
                self.buffer@.len() == old_buf.len(),
                self.received@.len() == old_cov.len(),
                old_buf.len() == self.expected_len,
                old_cov.len() == self.expected_len,
                self.base_addr == old_view.base_addr,
                self.expected_len == old_view.expected_len,
                offset + size <= self.expected_len,
                size <= 16,
                frame@.len() >= 22,
                i <= size,
                forall|k: int| 0 <= k < offset || offset + i <= k < old_buf.len()
                    ==> self.buffer@[k] == old_buf[k],
                forall|k: int| offset <= k < offset + i ==> #[trigger] self.buffer@[k] == frame@[6 + k - offset],
                forall|k: int| 0 <= k < offset || offset + i <= k < old_cov.len()
                    ==> self.received@[k] == old_cov[k],
                forall|k: int| offset <= k < offset + i ==> #[trigger] self.received@[k],
            decreases size - i,
        {
            self.buffer.set(offset + i, frame[6 + i]);
            self.received.set(offset + i, true);
            i = i + 1;
        }
        proof {
            let data = frame@.subrange(6, 6 + size as int);
            assert(self.buffer@ =~= splice(old_buf, offset as int, data));
            assert(data == frame_payload(frame@));
            assert(self.received@ =~= mark(old_cov, offset as int, offset + size));
        }
        Ok(())
    }
}

} // verus!
