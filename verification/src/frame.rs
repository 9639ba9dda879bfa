//! The layout that every telemetry frame shares.
//!
//! | offset   | size | field                                            |
//! |----------|------|--------------------------------------------------|
//! | 0        | 2    | magic bytes `5A A5`                              |
//! | 2        | 1    | declared length: the frame's length less 4       |
//! | 3        | 8    | device id                                        |
//! | 11       | 4    | serial number                                    |
//! | 15       | 1    | group id                                         |
//! | 16       | 1    | type id                                          |
//! | 17       | 6    | year - 2000, month, day, hour, minute, second    |
//! | 23       | 2n   | temperatures in tenths, oldest first             |
//! | 23 + 2n  | 2n   | humidities in tenths, oldest first               |
//! | 23 + 4n  | 1    | battery                                          |
//! | 24 + 4n  | 1    | control byte                                     |
//! | 25 + 4n  | 1    | checksum of the bytes from offset 3 to here      |
//!
//! A frame of `n` samples is `26 + 4n` bytes long.

use crate::timestamp::Timestamp;
use vstd::prelude::*;

verus! {

/// First byte of every frame.
pub const MAGIC_FIRST: u8 = 0x5A;

/// Second byte of every frame.
pub const MAGIC_SECOND: u8 = 0xA5;

/// Offset of the first temperature sample.
pub const SAMPLES_OFFSET: usize = 23;

/// Length byte of a frame with one sample.
pub const SINGLE_DECLARED_LENGTH: u8 = 26;

/// Battery byte that the encoder writes.
pub const BATTERY: u8 = 0x63;

/// Control byte that the encoder writes: interval code 0.
pub const CONTROL: u8 = 0x00;

/// What a look at a buffer's header and length tells, before any sample is
/// read.
#[derive(Clone, Copy, Debug, PartialEq, Eq, Structural)]
pub enum FrameStatus {
    /// The buffer holds no byte.
    Empty,
    /// The buffer does not start with the two magic bytes.
    BadHeader,
    /// The length byte is missing or is not the buffer's length less 4.
    LengthMismatch,
    /// The buffer ends before its control byte or before the last of the
    /// samples asked for.
    TooShort,
    /// Header and length are in order and every sample asked for is there.
    Valid,
}

/// The buffer starts with the two magic bytes.
pub open spec fn has_magic(bytes: Seq<u8>) -> bool {
    bytes.len() >= 2 && bytes[0] == MAGIC_FIRST && bytes[1] == MAGIC_SECOND
}

/// The length byte is there and is the buffer's length less 4.
pub open spec fn length_matches(bytes: Seq<u8>) -> bool {
    bytes.len() >= 4 && bytes[2] as int == bytes.len() - 4
}

/// Offset of the control byte in a frame whose length byte is `declared`:
/// 72 in a frame of 12 samples, 120 in one of 24, and 28 in any other.
pub open spec fn control_offset_spec(declared: u8) -> int {
    if declared == 70 {
        72
    } else if declared == 118 {
        120
    } else {
        28
    }
}

/// The buffer reaches its control byte and the last of `n` samples.
pub open spec fn holds_samples(bytes: Seq<u8>, n: int) -> bool {
    &&& bytes.len() >= 3
    &&& control_offset_spec(bytes[2]) < bytes.len()
    &&& (n > 0 ==> SAMPLES_OFFSET + 4 * n <= bytes.len())
}

/// The status of a buffer that is to be read as a frame of `n` samples.
pub open spec fn frame_status_spec(bytes: Seq<u8>, n: int) -> FrameStatus {
    if bytes.len() == 0 {
        FrameStatus::Empty
    } else if !has_magic(bytes) {
        FrameStatus::BadHeader
    } else if !length_matches(bytes) {
        FrameStatus::LengthMismatch
    } else if !holds_samples(bytes, n) {
        FrameStatus::TooShort
    } else {
        FrameStatus::Valid
    }
}

/// Minutes between two consecutive samples of a frame, as a function of the
/// frame's control byte: bits 1 to 3 hold a code from 0 to 7, and code `c`
/// stands for `(c + 1) * 5` minutes.
pub open spec fn interval_minutes_spec(control: u8) -> int {
    ((control as int / 2) % 8 + 1) * 5
}

/// Minutes between two consecutive samples of the frame in `bytes`.
pub open spec fn frame_interval(bytes: Seq<u8>) -> int
    recommends
        holds_samples(bytes, 0),
{
    interval_minutes_spec(bytes[control_offset_spec(bytes[2])])
}

/// Minutes by which sample `i` of `n` lies before the time of decoding:
/// the newest sample, `i == n - 1`, lies one interval back.
pub open spec fn sample_age(n: int, i: int, interval: int) -> int {
    (n - i) * interval
}

/// Offset of temperature sample `i`.
pub open spec fn temperature_offset(i: int) -> int {
    SAMPLES_OFFSET + 2 * i
}

/// Offset of humidity sample `i` in a frame of `n` samples.
pub open spec fn humidity_offset(n: int, i: int) -> int {
    SAMPLES_OFFSET + 2 * n + 2 * i
}

/// The two bytes of `bytes` at `at`.
pub open spec fn pair_at(bytes: Seq<u8>, at: int) -> Seq<u8> {
    bytes.subrange(at, at + 2)
}

/// The byte that a small number is sent as: its lowest eight bits.
pub open spec fn low_byte(x: int) -> u8 {
    (x % 0x100) as u8
}

/// The six bytes that a frame holds for a date and time: the year counted
/// from 2000, month, day, hour, minute and second, each cut to its lowest
/// eight bits. A year from 2256 on, or before 2000, wraps round.
pub open spec fn date_bytes(ts: Timestamp) -> Seq<u8> {
    seq![
        low_byte(ts.year - 2000),
        low_byte(ts.month as int),
        low_byte(ts.day as int),
        low_byte(ts.hour as int),
        low_byte(ts.minute as int),
        low_byte(ts.second as int),
    ]
}

/// Computes the sampling interval, in minutes, from a frame's control byte.
pub fn interval_minutes(control: u8) -> (minutes: u32)
    ensures
        minutes == interval_minutes_spec(control),
        5 <= minutes <= 40,
        minutes % 5 == 0,
{
    let code: u8 = (control >> 1) & 0x07;
    assert(code == (control / 2) % 8) by (bit_vector)
        requires
            code == (control >> 1) & 0x07,
    ;
    (code as u32 + 1) * 5
}

/// Offset of the control byte in a frame whose length byte is `declared`.
pub fn control_offset(declared: u8) -> (at: usize)
    ensures
        at == control_offset_spec(declared),
{
    if declared == 70 {
        72
    } else if declared == 118 {
        120
    } else {
        28
    }
}

/// Looks at the header and the length of a buffer that is to be read as a
/// frame of `n` samples.
pub fn frame_status(bytes: &[u8], n: i32) -> (status: FrameStatus)
    ensures
        status == frame_status_spec(bytes@, n as int),
{
    let len: usize = bytes.len();
    if len == 0 {
        return FrameStatus::Empty;
    }
    if len < 2 || bytes[0] != MAGIC_FIRST || bytes[1] != MAGIC_SECOND {
        return FrameStatus::BadHeader;
    }
    if len < 4 || bytes[2] as usize != len - 4 {
        return FrameStatus::LengthMismatch;
    }
    if control_offset(bytes[2]) >= len {
        return FrameStatus::TooShort;
    }
    if n > 0 && n as usize > (len - SAMPLES_OFFSET) / 4 {
        return FrameStatus::TooShort;
    }
    FrameStatus::Valid
}

/// Reads the sampling interval, in minutes, of a frame.
pub fn read_interval(bytes: &[u8]) -> (minutes: u32)
    requires
        holds_samples(bytes@, 0),
    ensures
        minutes == frame_interval(bytes@),
        5 <= minutes <= 40,
{
    interval_minutes(bytes[control_offset(bytes[2])])
}

/// The lowest eight bits of `x`.
pub fn low_byte_of(x: i64) -> (b: u8)
    ensures
        b == low_byte(x as int),
{
    let r: i64 = x % 0x100;
    if r < 0 {
        (r + 0x100) as u8
    } else {
        r as u8
    }
}

/// Appends `more` to `out`.
pub fn push_all(out: &mut Vec<u8>, more: &[u8])
    ensures
        final(out)@ == old(out)@ + more@,
{
    let mut k: usize = 0;
    while k < more.len()
        invariant
            k <= more@.len(),
            out@ == old(out)@ + more@.subrange(0, k as int),
        decreases more@.len() - k,
    {
        out.push(more[k]);
        assert(more@.subrange(0, k + 1) =~= more@.subrange(0, k as int).push(more@[k as int]));
        k = k + 1;
    }
    assert(more@.subrange(0, k as int) =~= more@);
}

/// Appends the six bytes of a date and time.
pub fn push_date(out: &mut Vec<u8>, ts: &Timestamp)
    ensures
        final(out)@ == old(out)@ + date_bytes(*ts),
{
    out.push(low_byte_of(ts.year as i64 - 2000));
    out.push(low_byte_of(ts.month as i64));
    out.push(low_byte_of(ts.day as i64));
    out.push(low_byte_of(ts.hour as i64));
    out.push(low_byte_of(ts.minute as i64));
    out.push(low_byte_of(ts.second as i64));
    assert(out@ =~= old(out)@ + date_bytes(*ts));
}

/// Every control byte stands for one of the eight intervals from 5 to 40
/// minutes: for the code in its bits 1 to 3, five minutes more than five
/// times the code. Code 0 is 5 minutes and code 7 is 40.
pub proof fn lemma_interval_mapping(control: u8)
    ensures
        (control >> 1) & 0x07 == (control as int / 2) % 8,
        0 <= (control >> 1) & 0x07 <= 7,
        interval_minutes_spec(control) == 5 * ((control >> 1) & 0x07) + 5,
        (control >> 1) & 0x07 == 0 ==> interval_minutes_spec(control) == 5,
        (control >> 1) & 0x07 == 7 ==> interval_minutes_spec(control) == 40,
{
    assert((control >> 1) & 0x07 == (control / 2) % 8) by (bit_vector);
}

/// The ages of two consecutive samples of a frame differ by exactly one
/// interval, the older sample coming first, and the newest sample is one
/// interval old at the time of decoding.
pub proof fn lemma_sample_spacing(n: int, i: int, interval: int)
    requires
        0 <= i,
        i + 1 < n,
    ensures
        sample_age(n, i, interval) - sample_age(n, i + 1, interval) == interval,
        sample_age(n, n - 1, interval) == interval,
{
    assert((n - i) * interval - (n - (i + 1)) * interval == interval) by (nonlinear_arith);
    assert((n - (n - 1)) * interval == interval) by (nonlinear_arith);
}

/// A buffer that does not start with the magic bytes is never a valid frame,
/// whatever else it holds.
pub proof fn lemma_bad_header(bytes: Seq<u8>, n: int)
    requires
        !has_magic(bytes),
    ensures
        frame_status_spec(bytes, n) != FrameStatus::Valid,
        bytes.len() > 0 ==> frame_status_spec(bytes, n) == FrameStatus::BadHeader,
{
}

/// A buffer whose length byte is not its length less 4 is never a valid
/// frame.
pub proof fn lemma_length_mismatch(bytes: Seq<u8>, n: int)
    requires
        !length_matches(bytes),
    ensures
        frame_status_spec(bytes, n) != FrameStatus::Valid,
        has_magic(bytes) ==> frame_status_spec(bytes, n) == FrameStatus::LengthMismatch,
{
}

} // verus!
