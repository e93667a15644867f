//! Reading the board's report stream: which frames carry sensor data, which
//! answer a register read, and how long each read may wait.
//!
//! The transport loop reads frames and keeps the deadline; these functions
//! decide what each frame means.
use vstd::prelude::*;
use crate::read_transaction::{spec_consume, ReadError, ReadTransaction};
use crate::report::{parse_report, spec_parse_report, BoardReport};

verus! {

/// Longest single wait for a frame, in milliseconds.
pub const MAX_READ_WAIT_MS: i32 = 250;

/// The sensor report in the first `n` bytes read, if they are one. Empty
/// reads, status reports (`0x20`), register-read responses (`0x21`) and
/// malformed frames interleave with the data stream and yield nothing.
pub fn sensor_report_from_read(buf: &[u8], n: usize) -> (res: Option<BoardReport>)
    requires
        n <= buf@.len(),
    ensures
        n == 0 ==> res is None,
        n > 0 ==> match spec_parse_report(buf@.subrange(0, n as int)) {
            Ok(v) => res is Some && res->0@ == v,
            Err(_) => res is None,
        },
{
    if n == 0 {
        return None;
    }
    match parse_report(&buf[0..n]) {
        Ok(report) => Some(report),
        Err(_) => None,
    }
}

/// How long the next read may wait: the time left before the deadline,
/// between 1 and 250 milliseconds.
pub fn read_wait_ms(remaining_ms: u128) -> (res: i32)
    ensures
        res == if remaining_ms < 1 {
            1
        } else if remaining_ms > 250 {
            250
        } else {
            remaining_ms as i32
        },
        1 <= res <= MAX_READ_WAIT_MS,
{
    if remaining_ms < 1 {
        1
    } else if remaining_ms > 250 {
        MAX_READ_WAIT_MS
    } else {
        remaining_ms as i32
    }
}

/// Feeds the first `n` bytes read into a register-read transaction when they
/// are a register-read response (report `0x21`); sensor reports and empty
/// reads interleaving with the response are passed over.
pub fn register_read_step(tx: &mut ReadTransaction, buf: &[u8], n: usize) -> (res: Result<(), ReadError>)
    requires
        n <= buf@.len(),
        old(tx).wf(),
    ensures
        final(tx).wf(),
        (n == 0 || buf@[0] != 0x21) ==> res is Ok && final(tx)@ == old(tx)@,
        (n > 0 && buf@[0] == 0x21) ==> match spec_consume(old(tx)@, buf@.subrange(0, n as int)) {
            Ok(st) => res is Ok && final(tx)@ == st,
            Err(e) => res == Err::<(), ReadError>(e) && final(tx)@ == old(tx)@,
        },
{
    if n == 0 || buf[0] != 0x21 {
        return Ok(());
    }
    tx.consume(&buf[0..n])
}


/// What to do next while waiting for a sensor report.
#[derive(Debug, Clone, Copy, PartialEq, Eq, Structural)]
pub enum WaitStep {
    /// The deadline has passed without a sensor report.
    TimedOut,
    /// Read once more, waiting at most this many milliseconds.
    Read { wait_ms: i32 },
}

/// A deadline for the next sensor report, fixed when waiting starts: frames
/// that are not sensor reports never extend it.
#[derive(Debug, Clone, Copy, PartialEq, Eq, Structural)]
pub struct SensorWait {
    /// When waiting ends, in nanoseconds on a clock that never goes back.
    pub deadline_ns: u64,
}

/// The step taken at time `now` before deadline `deadline`.
pub open spec fn spec_wait_step(deadline: u64, now: u64) -> WaitStep {
    if now >= deadline {
        WaitStep::TimedOut
    } else {
        WaitStep::Read {
            wait_ms: if (deadline - now) / 1_000_000 < 1 {
                1
            } else if (deadline - now) / 1_000_000 > 250 {
                250
            } else {
                ((deadline - now) / 1_000_000) as i32
            },
        }
    }
}

impl SensorWait {
    /// Starts waiting at `now_ns` for at most `timeout_ns`.
    pub fn new(now_ns: u64, timeout_ns: u64) -> (res: Self)
        ensures
            res.deadline_ns == if now_ns + timeout_ns > u64::MAX { u64::MAX as int } else { now_ns + timeout_ns },
    {
        SensorWait { deadline_ns: now_ns.saturating_add(timeout_ns) }
    }

    /// What to do at `now_ns`: give up once the deadline is reached, else
    /// read with a wait of the time left, between 1 and 250 milliseconds.
    pub fn next(&self, now_ns: u64) -> (res: WaitStep)
        ensures
            res == spec_wait_step(self.deadline_ns, now_ns),
    {
        if now_ns >= self.deadline_ns {
            return WaitStep::TimedOut;
        }
        let remaining_ms: u64 = (self.deadline_ns - now_ns) / 1_000_000;
        WaitStep::Read { wait_ms: read_wait_ms(remaining_ms as u128) }
    }
}

/// However many frames have been read, once the time since waiting began
/// reaches the timeout the wait is over.
pub proof fn lemma_deadline_is_fixed(start: u64, timeout: u64, now: u64)
    requires
        start as int + timeout as int <= u64::MAX,
        now >= start + timeout,
    ensures
        spec_wait_step((start + timeout) as u64, now) == WaitStep::TimedOut,
{
}

/// An I/O error from the transport.
#[verifier::external_type_specification]
#[verifier::external_body]
pub struct ExIoError(std::io::Error);

/// A live source of Balance Board reports, whatever the HID transport.
pub trait BalanceBoardSource {
    /// Blocks until the next sensor report arrives and returns it. Status
    /// reports and register-read responses interleaving with the sensor
    /// stream are skipped.
    fn next_report(&mut self) -> std::io::Result<BoardReport>;

    /// Reads the 24-byte EEPROM calibration block (extension registers
    /// `0xa40024..=0xa4003b`), reassembling the multi-frame response. Best
    /// called once per session, before the first sensor report is consumed.
    fn read_calibration_block(&mut self) -> std::io::Result<[u8; 24]>;
}

} // verus!
