//! Readings with numeric ids and signed samples, and their frames.
//!
//! Temperature and humidity are held as they travel: in tenths, as signed
//! 16-bit numbers. A reading is in range where the temperature is from
//! -40.0 to 100.0 degrees and the humidity from 0.0 to 100.0 percent.
//!
//! Decoding keeps every sample that is in range. One that is out of range
//! is dropped, unless the frame comes from the test group (group id 0 and
//! type id 0), whose samples are all kept. The checksum is written by the
//! encoder and not looked at by the decoder.

use crate::bigendian::{
    be16, be16_bytes, be32, be32_bytes, be64, be64_bytes, lemma_be16_round_trip,
    lemma_be32_round_trip, lemma_be64_round_trip, push_i16, push_i32, push_i64, read_i16,
    read_i32, read_i64, signed, unsigned,
};
use crate::checksum::{checksum_from, crc8_maxim_dow};
use crate::frame::{
    date_bytes, frame_interval, frame_status, frame_status_spec, has_magic, humidity_offset,
    length_matches, low_byte, low_byte_of, pair_at, push_date, read_interval, sample_age,
    temperature_offset, FrameStatus, BATTERY, CONTROL, MAGIC_FIRST, MAGIC_SECOND,
    SINGLE_DECLARED_LENGTH,
};
use crate::timestamp::{minutes_before, Timestamp};
use vstd::prelude::*;

verus! {

/// One reading of a sensor.
#[derive(Clone, Copy, Debug, PartialEq, Eq, Structural)]
pub struct HumitureData {
    /// When the reading was taken.
    pub ts: Timestamp,
    /// Serial number of the reporting unit.
    pub sn: i32,
    /// Id of the device.
    pub device_id: i64,
    /// Deployment group; a frame carries its lowest eight bits.
    pub group_id: i32,
    /// Device variant; a frame carries its lowest eight bits.
    pub type_id: i32,
    /// Temperature in tenths of a degree Celsius.
    pub temperature: i16,
    /// Relative humidity in tenths of a percent.
    pub humidity: i16,
}

/// Temperature and humidity, both in tenths, lie in the accepted domain.
pub open spec fn in_range(temperature: int, humidity: int) -> bool {
    -400 <= temperature <= 1000 && 0 <= humidity <= 1000
}

/// The ids of the test group, whose samples are kept whatever they hold.
pub open spec fn is_test_group(group_id: int, type_id: int) -> bool {
    group_id == 0 && type_id == 0
}

/// Temperature sample `i` of a frame, in tenths.
pub open spec fn sample_temperature(bytes: Seq<u8>, i: int) -> int {
    signed(be16(pair_at(bytes, temperature_offset(i))), 0x1_0000)
}

/// Humidity sample `i` of a frame of `n` samples, in tenths.
pub open spec fn sample_humidity(bytes: Seq<u8>, n: int, i: int) -> int {
    signed(be16(pair_at(bytes, humidity_offset(n, i))), 0x1_0000)
}

/// The device id that a frame carries.
pub open spec fn frame_device_id(bytes: Seq<u8>) -> i64 {
    signed(be64(bytes.subrange(3, 11)), 0x1_0000_0000_0000_0000) as i64
}

/// The serial number that a frame carries.
pub open spec fn frame_serial_number(bytes: Seq<u8>) -> i32 {
    signed(be32(bytes.subrange(11, 15)), 0x1_0000_0000) as i32
}

/// Whether decoding keeps sample `i` of a frame of `n` samples.
pub open spec fn keeps_sample(bytes: Seq<u8>, n: int, i: int) -> bool {
    ||| in_range(sample_temperature(bytes, i), sample_humidity(bytes, n, i))
    ||| is_test_group(bytes[15] as int, bytes[16] as int)
}

/// The indices, among the first `k` samples of a frame, of those that lie
/// outside the accepted domain, in rising order.
pub open spec fn out_of_range_upto(bytes: Seq<u8>, n: int, k: int) -> Seq<i32>
    decreases k,
{
    if k <= 0 {
        Seq::empty()
    } else if in_range(sample_temperature(bytes, k - 1), sample_humidity(bytes, n, k - 1)) {
        out_of_range_upto(bytes, n, k - 1)
    } else {
        out_of_range_upto(bytes, n, k - 1).push((k - 1) as i32)
    }
}

/// The indices of the samples of a frame that lie outside the accepted
/// domain; none where the buffer is no valid frame of `n` samples.
pub open spec fn out_of_range_spec(bytes: Seq<u8>, n: int) -> Seq<i32> {
    if frame_status_spec(bytes, n) == FrameStatus::Valid {
        out_of_range_upto(bytes, n, n)
    } else {
        Seq::empty()
    }
}

/// The reading that sample `i` of a frame of `n` samples gives when it is
/// taken to be from the time `ts`; `None` where decoding drops the sample.
pub open spec fn sample_reading(bytes: Seq<u8>, n: int, i: int, ts: Timestamp) -> Option<
    HumitureData,
> {
    if keeps_sample(bytes, n, i) {
        Some(
            HumitureData {
                ts,
                sn: frame_serial_number(bytes),
                device_id: frame_device_id(bytes),
                group_id: bytes[15] as i32,
                type_id: bytes[16] as i32,
                temperature: sample_temperature(bytes, i) as i16,
                humidity: sample_humidity(bytes, n, i) as i16,
            },
        )
    } else {
        None
    }
}

/// The reading that sample `i` gives when the frame is decoded at `now`: the
/// sample is taken to be `(n - i)` intervals old. `None` where the sample is
/// dropped, or where no timestamp lies that far before `now`.
pub open spec fn reading_at(bytes: Seq<u8>, n: int, i: int, now: Timestamp) -> Option<
    HumitureData,
> {
    match minutes_before(now, sample_age(n, i, frame_interval(bytes))) {
        Some(ts) => sample_reading(bytes, n, i, ts),
        None => None,
    }
}

/// The readings of the first `k` samples of a frame, oldest first.
pub open spec fn readings_upto(bytes: Seq<u8>, n: int, now: Timestamp, k: int) -> Seq<
    HumitureData,
>
    decreases k,
{
    if k <= 0 {
        Seq::empty()
    } else {
        match reading_at(bytes, n, k - 1, now) {
            Some(r) => readings_upto(bytes, n, now, k - 1).push(r),
            None => readings_upto(bytes, n, now, k - 1),
        }
    }
}

/// What decoding `bytes` as a frame of `n` samples at the time `now` gives:
/// nothing unless the frame is valid, else the readings of its samples.
pub open spec fn decode_spec(bytes: Seq<u8>, n: int, now: Timestamp) -> Seq<HumitureData> {
    if frame_status_spec(bytes, n) == FrameStatus::Valid {
        readings_upto(bytes, n, now, n)
    } else {
        Seq::empty()
    }
}

impl HumitureData {
    /// A frame's bytes before the checksum: 29 of them.
    pub open spec fn body_spec(self) -> Seq<u8> {
        seq![MAGIC_FIRST, MAGIC_SECOND, SINGLE_DECLARED_LENGTH] + be64_bytes(
            unsigned(self.device_id as int, 0x1_0000_0000_0000_0000),
        ) + be32_bytes(unsigned(self.sn as int, 0x1_0000_0000)) + seq![
            low_byte(self.group_id as int),
            low_byte(self.type_id as int),
        ] + date_bytes(self.ts) + be16_bytes(unsigned(self.temperature as int, 0x1_0000))
            + be16_bytes(unsigned(self.humidity as int, 0x1_0000)) + seq![BATTERY, CONTROL]
    }

    /// The frame of this reading: the body and the checksum of its bytes
    /// from offset 3 on.
    pub open spec fn encode_spec(self) -> Seq<u8> {
        self.body_spec().push(crc8_maxim_dow(self.body_spec().subrange(3, 29)))
    }

    /// Temperature and humidity lie in the accepted domain.
    pub open spec fn is_in_range(self) -> bool {
        in_range(self.temperature as int, self.humidity as int)
    }

    /// Puts a reading together from its parts; temperature and humidity are
    /// in tenths.
    pub fn new(
        sn: i32,
        device_id: i64,
        group_id: i32,
        type_id: i32,
        temperature: i16,
        humidity: i16,
        ts: Timestamp,
    ) -> (r: HumitureData)
        ensures
            r == (HumitureData { ts, sn, device_id, group_id, type_id, temperature, humidity }),
    {
        HumitureData { ts, sn, device_id, group_id, type_id, temperature, humidity }
    }

    /// Tells whether a temperature and a humidity, both in tenths, lie in the
    /// accepted domain: from -40.0 to 100.0 degrees and from 0.0 to 100.0
    /// percent.
    pub fn values_in_range(temperature: i16, humidity: i16) -> (ok: bool)
        ensures
            ok == in_range(temperature as int, humidity as int),
    {
        -400 <= temperature && temperature <= 1000 && 0 <= humidity && humidity <= 1000
    }

    /// Tells whether temperature and humidity lie in the accepted domain.
    pub fn in_range(&self) -> (ok: bool)
        ensures
            ok == self.is_in_range(),
    {
        Self::values_in_range(self.temperature, self.humidity)
    }

    /// Writes the frame's bytes before the checksum.
    pub fn frame_body(&self) -> (body: Vec<u8>)
        ensures
            body@ == self.body_spec(),
            body@.len() == 29,
    {
        let mut body: Vec<u8> = Vec::new();
        body.push(MAGIC_FIRST);
        body.push(MAGIC_SECOND);
        body.push(SINGLE_DECLARED_LENGTH);
        push_i64(&mut body, self.device_id);
        push_i32(&mut body, self.sn);
        body.push(low_byte_of(self.group_id as i64));
        body.push(low_byte_of(self.type_id as i64));
        push_date(&mut body, &self.ts);
        push_i16(&mut body, self.temperature);
        push_i16(&mut body, self.humidity);
        body.push(BATTERY);
        body.push(CONTROL);
        assert(body@ =~= self.body_spec());
        body
    }

    /// Encodes the reading as a frame of one sample: 30 bytes, the last of
    /// them the checksum. Nothing is checked: ids and date fields are cut to
    /// their lowest eight bits.
    pub fn to_bytes(self) -> (bytes: Vec<u8>)
        ensures
            bytes@ == self.encode_spec(),
            bytes@.len() == 30,
    {
        let mut bytes: Vec<u8> = self.frame_body();
        let sum: u8 = checksum_from(bytes.as_slice(), 3);
        bytes.push(sum);
        bytes
    }

    /// Reads temperature and humidity of sample `i`, in tenths.
    pub fn sample_values(bytes: &[u8], n: i32, i: i32) -> (pair: (i16, i16))
        requires
            frame_status_spec(bytes@, n as int) == FrameStatus::Valid,
            0 <= i < n,
        ensures
            pair.0 == sample_temperature(bytes@, i as int),
            pair.1 == sample_humidity(bytes@, n as int, i as int),
    {
        let at: usize = 23 + 2 * (i as usize);
        let t: i16 = read_i16(bytes, at);
        let h: i16 = read_i16(bytes, at + 2 * (n as usize));
        (t, h)
    }

    /// Lists the samples of a frame that lie outside the accepted domain, by
    /// their indices in rising order: those that decoding drops, or keeps
    /// for the test group only.
    pub fn out_of_range_samples(bytes: &[u8], n: i32) -> (indices: Vec<i32>)
        ensures
            indices@ == out_of_range_spec(bytes@, n as int),
    {
        let mut indices: Vec<i32> = Vec::new();
        if frame_status(bytes, n) != FrameStatus::Valid || n <= 0 {
            return indices;
        }
        let mut i: i32 = 0;
        while i < n
            invariant
                0 <= i <= n,
                frame_status_spec(bytes@, n as int) == FrameStatus::Valid,
                indices@ == out_of_range_upto(bytes@, n as int, i as int),
            decreases n - i,
        {
            let (temperature, humidity) = Self::sample_values(bytes, n, i);
            if !Self::values_in_range(temperature, humidity) {
                indices.push(i);
            }
            i = i + 1;
        }
        indices
    }

    /// Reads sample `i` of a valid frame as the reading taken at `ts`, or
    /// `None` where the sample is out of range and the frame is not from the
    /// test group.
    pub fn read_sample(bytes: &[u8], n: i32, i: i32, ts: Timestamp) -> (r: Option<HumitureData>)
        requires
            frame_status_spec(bytes@, n as int) == FrameStatus::Valid,
            0 <= i < n,
        ensures
            r == sample_reading(bytes@, n as int, i as int, ts),
    {
        let (temperature, humidity) = Self::sample_values(bytes, n, i);
        let group_id: i32 = bytes[15] as i32;
        let type_id: i32 = bytes[16] as i32;
        if Self::values_in_range(temperature, humidity) || (group_id == 0 && type_id == 0) {
            Some(
                HumitureData {
                    ts,
                    sn: read_i32(bytes, 11),
                    device_id: read_i64(bytes, 3),
                    group_id,
                    type_id,
                    temperature,
                    humidity,
                },
            )
        } else {
            None
        }
    }

    /// Decodes a frame of `n` samples received at the time `now`. The
    /// readings come oldest first; sample `i` is dated `(n - i)` intervals
    /// before `now`, so the newest lies one interval back. A buffer that is
    /// no valid frame of `n` samples gives no reading.
    pub fn from_bytes(bytes: &[u8], n: i32, now: Timestamp) -> (result: Vec<HumitureData>)
        ensures
            result@ == decode_spec(bytes@, n as int, now),
            !has_magic(bytes@) ==> result@.len() == 0,
            !length_matches(bytes@) ==> result@.len() == 0,
            result@.len() <= n || result@.len() == 0,
            now.is_common_era() && n >= 0 && frame_status_spec(bytes@, n as int)
                == FrameStatus::Valid && (forall|k: int|
                0 <= k < n ==> keeps_sample(bytes@, n as int, k)) ==> result@.len() == n,
    {
        let mut result: Vec<HumitureData> = Vec::new();
        if frame_status(bytes, n) != FrameStatus::Valid || n <= 0 {
            return result;
        }
        let interval: u32 = read_interval(bytes);
        let mut i: i32 = 0;
        while i < n
            invariant
                0 <= i <= n <= 59,
                frame_status_spec(bytes@, n as int) == FrameStatus::Valid,
                interval == frame_interval(bytes@),
                5 <= interval <= 40,
                result@ == readings_upto(bytes@, n as int, now, i as int),
                result@.len() <= i,
                now.is_common_era() && (forall|k: int|
                    0 <= k < i ==> keeps_sample(bytes@, n as int, k)) ==> result@.len() == i,
            decreases n - i,
        {
            assert((n - i) * interval <= 59 * 40) by (nonlinear_arith)
                requires
                    0 < n - i <= 59,
                    0 <= interval <= 40,
            ;
            let age: u32 = (n - i) as u32 * interval;
            if let Some(ts) = now.minutes_earlier(age) {
                if let Some(reading) = Self::read_sample(bytes, n, i, ts) {
                    result.push(reading);
                }
            }
            i = i + 1;
        }
        result
    }
}

/// Where the fields of a reading lie in its frame.
pub proof fn lemma_encoded_layout(r: HumitureData)
    ensures
        r.encode_spec().len() == 30,
        r.encode_spec()[0] == MAGIC_FIRST,
        r.encode_spec()[1] == MAGIC_SECOND,
        r.encode_spec()[2] == SINGLE_DECLARED_LENGTH,
        r.encode_spec().subrange(3, 11) == be64_bytes(
            unsigned(r.device_id as int, 0x1_0000_0000_0000_0000),
        ),
        r.encode_spec().subrange(11, 15) == be32_bytes(unsigned(r.sn as int, 0x1_0000_0000)),
        r.encode_spec()[15] == low_byte(r.group_id as int),
        r.encode_spec()[16] == low_byte(r.type_id as int),
        r.encode_spec().subrange(17, 23) == date_bytes(r.ts),
        r.encode_spec().subrange(23, 25) == be16_bytes(unsigned(r.temperature as int, 0x1_0000)),
        r.encode_spec().subrange(25, 27) == be16_bytes(unsigned(r.humidity as int, 0x1_0000)),
        r.encode_spec()[27] == BATTERY,
        r.encode_spec()[28] == CONTROL,
{
    let id = be64_bytes(unsigned(r.device_id as int, 0x1_0000_0000_0000_0000));
    let sn = be32_bytes(unsigned(r.sn as int, 0x1_0000_0000));
    assert(id.len() == 8 && sn.len() == 4);
    let head = seq![MAGIC_FIRST, MAGIC_SECOND, SINGLE_DECLARED_LENGTH] + id + sn;
    assert(head.len() == 15);
    let e = r.encode_spec();
    assert(r.body_spec().len() == 29);
    assert(e.subrange(3, 11) =~= id);
    assert(e.subrange(11, 15) =~= sn);
    assert(e.subrange(17, 23) =~= date_bytes(r.ts));
    assert(e.subrange(23, 25) =~= be16_bytes(unsigned(r.temperature as int, 0x1_0000)));
    assert(e.subrange(25, 27) =~= be16_bytes(unsigned(r.humidity as int, 0x1_0000)));
}

/// The frame that encoding writes is a valid frame of one sample, of 30
/// bytes, whose control byte stands for an interval of five minutes.
pub proof fn lemma_encoded_frame_is_valid(r: HumitureData)
    ensures
        r.encode_spec().len() == 30,
        frame_status_spec(r.encode_spec(), 1) == FrameStatus::Valid,
        frame_interval(r.encode_spec()) == 5,
{
    lemma_encoded_layout(r);
}

/// What the one sample of an encoded frame holds: the reading's ids,
/// temperature and humidity, for ids from 0 to 255.
proof fn lemma_encoded_sample(r: HumitureData, ts: Timestamp)
    requires
        0 <= r.group_id <= 255,
        0 <= r.type_id <= 255,
        r.is_in_range() || is_test_group(r.group_id as int, r.type_id as int),
    ensures
        sample_reading(r.encode_spec(), 1, 0, ts) == Some(HumitureData { ts, ..r }),
{
    let e = r.encode_spec();
    lemma_encoded_layout(r);
    let device = unsigned(r.device_id as int, 0x1_0000_0000_0000_0000);
    let serial = unsigned(r.sn as int, 0x1_0000_0000);
    let t = unsigned(r.temperature as int, 0x1_0000);
    let h = unsigned(r.humidity as int, 0x1_0000);
    lemma_be64_round_trip(device);
    lemma_be32_round_trip(serial);
    lemma_be16_round_trip(t);
    lemma_be16_round_trip(h);
    assert(pair_at(e, temperature_offset(0)) == e.subrange(23, 25));
    assert(pair_at(e, humidity_offset(1, 0)) == e.subrange(25, 27));
    assert(sample_temperature(e, 0) == r.temperature);
    assert(sample_humidity(e, 1, 0) == r.humidity);
    assert(e[15] as int == r.group_id && e[16] as int == r.type_id);
    assert(signed(be32(e.subrange(11, 15)), 0x1_0000_0000) == r.sn);
    assert(signed(be64(e.subrange(3, 11)), 0x1_0000_0000_0000_0000) == r.device_id);
}

/// Round trip of one reading: decoding the frame that encoding wrote, as a
/// frame of one sample, gives back the reading with its ids, temperature and
/// humidity, dated five minutes before the time of decoding. It holds for
/// ids from 0 to 255, which a frame can carry, and for a reading that is in
/// range or comes from the test group; the date in the frame is not read.
/// Where no timestamp lies five minutes before `now`, decoding gives nothing;
/// where the reading's own timestamp lies there, decoding gives the reading
/// itself.
pub proof fn lemma_round_trip(r: HumitureData, now: Timestamp)
    requires
        0 <= r.group_id <= 255,
        0 <= r.type_id <= 255,
        r.is_in_range() || is_test_group(r.group_id as int, r.type_id as int),
    ensures
        decode_spec(r.encode_spec(), 1, now) == (match minutes_before(now, 5) {
            Some(ts) => seq![HumitureData { ts, ..r }],
            None => Seq::<HumitureData>::empty(),
        }),
        minutes_before(now, 5) == Some(r.ts) ==> decode_spec(r.encode_spec(), 1, now) == seq![r],
{
    let e = r.encode_spec();
    lemma_encoded_frame_is_valid(r);
    assert(sample_age(1, 0, 5) == 5);
    assert(readings_upto(e, 1, now, 0) =~= Seq::<HumitureData>::empty());
    match minutes_before(now, 5) {
        Some(ts) => {
            lemma_encoded_sample(r, ts);
            assert(reading_at(e, 1, 0, now) == Some(HumitureData { ts, ..r }));
            assert(readings_upto(e, 1, now, 1) =~= seq![HumitureData { ts, ..r }]);
        },
        None => {
            assert(reading_at(e, 1, 0, now) == None::<HumitureData>);
            assert(readings_upto(e, 1, now, 1) =~= Seq::<HumitureData>::empty());
        },
    }
}

/// Encoding is a function of the reading alone: equal readings give equal
/// frames, checksum included.
pub proof fn lemma_encoding_is_stable(a: HumitureData, b: HumitureData)
    requires
        a == b,
    ensures
        a.encode_spec() == b.encode_spec(),
        a.encode_spec().last() == b.encode_spec().last(),
{
}

/// Decoding gives nothing for a buffer that does not start with the magic
/// bytes, whatever else it holds, and nothing for one whose length byte is
/// not its length less 4.
pub proof fn lemma_rejected_frames(bytes: Seq<u8>, n: int, now: Timestamp)
    requires
        !has_magic(bytes) || !length_matches(bytes),
    ensures
        decode_spec(bytes, n, now).len() == 0,
{
}

/// The first `k` samples of a frame never give more than `k` readings, and
/// give exactly `k` where each of them gives one.
pub proof fn lemma_reading_count(bytes: Seq<u8>, n: int, now: Timestamp, k: int)
    requires
        0 <= k <= n,
    ensures
        readings_upto(bytes, n, now, k).len() <= k,
        (forall|i: int| 0 <= i < k ==> (#[trigger] reading_at(bytes, n, i, now)) is Some)
            ==> readings_upto(bytes, n, now, k).len() == k,
    decreases k,
{
    if k > 0 {
        lemma_reading_count(bytes, n, now, k - 1);
    }
}

/// A reading carries the ids of a frame, and is in range unless the frame
/// comes from the test group.
pub open spec fn is_reading_of(r: HumitureData, bytes: Seq<u8>) -> bool {
    &&& r.device_id == frame_device_id(bytes)
    &&& r.sn == frame_serial_number(bytes)
    &&& r.group_id == bytes[15]
    &&& r.type_id == bytes[16]
    &&& (r.is_in_range() || is_test_group(bytes[15] as int, bytes[16] as int))
}

/// Every reading among the first `k` of a frame carries the ids of the
/// frame, and is in range unless the frame comes from the test group.
pub proof fn lemma_readings_of_a_frame(bytes: Seq<u8>, n: int, now: Timestamp, k: int)
    requires
        0 <= k <= n,
    ensures
        forall|j: int|
            0 <= j < readings_upto(bytes, n, now, k).len() ==> is_reading_of(
                #[trigger] readings_upto(bytes, n, now, k)[j],
                bytes,
            ),
    decreases k,
{
    if k > 0 {
        lemma_readings_of_a_frame(bytes, n, now, k - 1);
        let before = readings_upto(bytes, n, now, k - 1);
        let after = readings_upto(bytes, n, now, k);
        let t = sample_temperature(bytes, k - 1);
        let h = sample_humidity(bytes, n, k - 1);
        assert(-0x8000 <= t < 0x8000 && -0x8000 <= h < 0x8000);
        assert forall|j: int| 0 <= j < after.len() implies is_reading_of(
            #[trigger] after[j],
            bytes,
        ) by {
            if j < before.len() {
                assert(after[j] == before[j]);
            } else {
                assert(reading_at(bytes, n, k - 1, now) == Some(after[j]));
            }
        }
    }
}

/// Of the first `k` samples of a frame that is not from the test group, each
/// either gives a reading or lies out of range: readings and samples out of
/// range add up to `k`, where a timestamp lies far enough before `now` for
/// each. In a frame from the test group each of them gives a reading.
pub proof fn lemma_kept_and_dropped(bytes: Seq<u8>, n: int, now: Timestamp, k: int)
    requires
        0 <= k <= n,
        forall|i: int|
            0 <= i < k ==> (#[trigger] minutes_before(
                now,
                sample_age(n, i, frame_interval(bytes)),
            )) is Some,
    ensures
        is_test_group(bytes[15] as int, bytes[16] as int) ==> readings_upto(bytes, n, now, k).len()
            == k,
        !is_test_group(bytes[15] as int, bytes[16] as int) ==> readings_upto(
            bytes,
            n,
            now,
            k,
        ).len() + out_of_range_upto(bytes, n, k).len() == k,
    decreases k,
{
    if k > 0 {
        lemma_kept_and_dropped(bytes, n, now, k - 1);
        assert(minutes_before(now, sample_age(n, k - 1, frame_interval(bytes))) is Some);
    }
}

} // verus!
