//! Readings with textual ids and unsigned samples, and their frames.
//!
//! Device id and serial number are hexadecimal text, 16 and 8 digits long,
//! that a frame carries as 8 and 4 bytes. Temperature and humidity are held
//! as they travel: in tenths, as unsigned 16-bit numbers, so that no
//! temperature below zero can be sent. A reading is in range where neither
//! is above 100.0.
//!
//! Decoding keeps every sample that is in range. One that is out of range
//! is dropped, unless the frame comes from the test group (group id 0 and
//! type id 0), whose samples are all kept. The checksum is written by the
//! encoder and not looked at by the decoder.

use crate::bigendian::{be16, be16_bytes, lemma_be16_round_trip, push_u16, read_u16};
use crate::checksum::{checksum_from, crc8_maxim_dow};
use crate::frame::{
    date_bytes, frame_interval, frame_status, frame_status_spec, has_magic, humidity_offset,
    length_matches, low_byte, low_byte_of, pair_at, push_all, push_date, read_interval,
    sample_age, temperature_offset, FrameStatus, BATTERY, CONTROL, MAGIC_FIRST, MAGIC_SECOND,
    SINGLE_DECLARED_LENGTH,
};
use crate::hexcode::{
    hex_decode, hex_decoded, hex_encoded, hex_value, is_hex_text, is_lower_hex_text,
    lemma_hex_decode_encode, lemma_hex_encode_decode, to_hex,
};
use crate::timestamp::{minutes_before, Timestamp};
use vstd::prelude::*;
use vstd::slice::slice_subrange;
use vstd::string::{StringExecFns, StringSliceAdditionalSpecFns};

verus! {

/// One reading of a sensor that is not stored yet.
#[derive(Clone, Debug, PartialEq, Eq)]
pub struct NewHumitureData {
    /// Serial number of the reporting unit: 8 hexadecimal digits.
    pub sn: String,
    /// Id of the device: 16 hexadecimal digits.
    pub device_id: String,
    /// Deployment group; a frame carries its lowest eight bits.
    pub group_id: i32,
    /// Device variant; a frame carries its lowest eight bits.
    pub type_id: i32,
    /// When the reading was taken.
    pub ts: Timestamp,
    /// Temperature in tenths of a degree Celsius.
    pub temperature: u16,
    /// Relative humidity in tenths of a percent.
    pub humidity: u16,
}

/// A reading as the contracts speak of it: the ids as sequences of
/// characters.
pub struct Reading {
    pub sn: Seq<char>,
    pub device_id: Seq<char>,
    pub group_id: i32,
    pub type_id: i32,
    pub ts: Timestamp,
    pub temperature: u16,
    pub humidity: u16,
}

impl View for NewHumitureData {
    type V = Reading;

    open spec fn view(&self) -> Reading {
        Reading {
            sn: self.sn@,
            device_id: self.device_id@,
            group_id: self.group_id,
            type_id: self.type_id,
            ts: self.ts,
            temperature: self.temperature,
            humidity: self.humidity,
        }
    }
}

impl DeepView for NewHumitureData {
    type V = Reading;

    open spec fn deep_view(&self) -> Reading {
        self@
    }
}

/// Temperature and humidity, both in tenths, lie in the accepted domain.
pub open spec fn in_range(temperature: int, humidity: int) -> bool {
    0 <= temperature <= 1000 && 0 <= humidity <= 1000
}

/// The ids of the test group, whose samples are kept whatever they hold.
pub open spec fn is_test_group(group_id: int, type_id: int) -> bool {
    group_id == 0 && type_id == 0
}

/// Temperature sample `i` of a frame, in tenths.
pub open spec fn sample_temperature(bytes: Seq<u8>, i: int) -> int {
    be16(pair_at(bytes, temperature_offset(i)))
}

/// Humidity sample `i` of a frame of `n` samples, in tenths.
pub open spec fn sample_humidity(bytes: Seq<u8>, n: int, i: int) -> int {
    be16(pair_at(bytes, humidity_offset(n, i)))
}

/// Whether decoding keeps sample `i` of a frame of `n` samples.
pub open spec fn keeps_sample(bytes: Seq<u8>, n: int, i: int) -> bool {
    ||| in_range(sample_temperature(bytes, i), sample_humidity(bytes, n, i))
    ||| is_test_group(bytes[15] as int, bytes[16] as int)
}

/// The indices, among the first `k` samples of a frame, of those that lie
/// outside the accepted domain, in rising order.
pub open spec fn out_of_range_upto(bytes: Seq<u8>, n: int, k: int) -> Seq<i32>
    decreases k,
{
    if k <= 0 {
        Seq::empty()
    } else if in_range(sample_temperature(bytes, k - 1), sample_humidity(bytes, n, k - 1)) {
        out_of_range_upto(bytes, n, k - 1)
    } else {
        out_of_range_upto(bytes, n, k - 1).push((k - 1) as i32)
    }
}

/// The indices of the samples of a frame that lie outside the accepted
/// domain; none where the buffer is no valid frame of `n` samples.
pub open spec fn out_of_range_spec(bytes: Seq<u8>, n: int) -> Seq<i32> {
    if frame_status_spec(bytes, n) == FrameStatus::Valid {
        out_of_range_upto(bytes, n, n)
    } else {
        Seq::empty()
    }
}

/// The reading that sample `i` of a frame of `n` samples gives when it is
/// taken to be from the time `ts`; `None` where decoding drops the sample.
pub open spec fn sample_reading(bytes: Seq<u8>, n: int, i: int, ts: Timestamp) -> Option<Reading> {
    if keeps_sample(bytes, n, i) {
        Some(
            Reading {
                sn: hex_encoded(bytes.subrange(11, 15)),
                device_id: hex_encoded(bytes.subrange(3, 11)),
                group_id: bytes[15] as i32,
                type_id: bytes[16] as i32,
                ts,
                temperature: sample_temperature(bytes, i) as u16,
                humidity: sample_humidity(bytes, n, i) as u16,
            },
        )
    } else {
        None
    }
}

/// The reading that sample `i` gives when the frame is decoded at `now`: the
/// sample is taken to be `(n - i)` intervals old. `None` where the sample is
/// dropped, or where no timestamp lies that far before `now`.
pub open spec fn reading_at(bytes: Seq<u8>, n: int, i: int, now: Timestamp) -> Option<Reading> {
    match minutes_before(now, sample_age(n, i, frame_interval(bytes))) {
        Some(ts) => sample_reading(bytes, n, i, ts),
        None => None,
    }
}

/// The readings of the first `k` samples of a frame, oldest first.
pub open spec fn readings_upto(bytes: Seq<u8>, n: int, now: Timestamp, k: int) -> Seq<Reading>
    decreases k,
{
    if k <= 0 {
        Seq::empty()
    } else {
        match reading_at(bytes, n, k - 1, now) {
            Some(r) => readings_upto(bytes, n, now, k - 1).push(r),
            None => readings_upto(bytes, n, now, k - 1),
        }
    }
}

/// What decoding `bytes` as a frame of `n` samples at the time `now` gives:
/// nothing unless the frame is valid, else the readings of its samples.
pub open spec fn decode_spec(bytes: Seq<u8>, n: int, now: Timestamp) -> Seq<Reading> {
    if frame_status_spec(bytes, n) == FrameStatus::Valid {
        readings_upto(bytes, n, now, n)
    } else {
        Seq::empty()
    }
}

impl Reading {
    /// The ids are hexadecimal text of the lengths that a frame has room
    /// for.
    pub open spec fn well_formed(self) -> bool {
        &&& is_hex_text(self.sn)
        &&& self.sn.len() == 8
        &&& is_hex_text(self.device_id)
        &&& self.device_id.len() == 16
    }

    /// Temperature and humidity lie in the accepted domain.
    pub open spec fn is_in_range(self) -> bool {
        in_range(self.temperature as int, self.humidity as int)
    }

    /// A frame's bytes before the checksum: 29 of them for a well-formed
    /// reading.
    pub open spec fn body_spec(self) -> Seq<u8> {
        seq![MAGIC_FIRST, MAGIC_SECOND, SINGLE_DECLARED_LENGTH] + hex_decoded(self.device_id)
            + hex_decoded(self.sn) + seq![
            low_byte(self.group_id as int),
            low_byte(self.type_id as int),
        ] + date_bytes(self.ts) + be16_bytes(self.temperature as int) + be16_bytes(
            self.humidity as int,
        ) + seq![BATTERY, CONTROL]
    }

    /// The frame of this reading: the body and the checksum of its bytes
    /// from offset 3 on.
    pub open spec fn encode_spec(self) -> Seq<u8> {
        self.body_spec().push(crc8_maxim_dow(self.body_spec().subrange(3, 29)))
    }
}

impl NewHumitureData {
    /// Puts a reading together from its parts; temperature and humidity are
    /// in tenths. The ids are taken as they are: `is_well_formed` tells
    /// whether a frame can carry them.
    pub fn new(
        sn: &str,
        device_id: &str,
        group_id: i32,
        type_id: i32,
        temperature: u16,
        humidity: u16,
        ts: Timestamp,
    ) -> (r: NewHumitureData)
        ensures
            r@ == (Reading {
                sn: sn@,
                device_id: device_id@,
                group_id,
                type_id,
                ts,
                temperature,
                humidity,
            }),
    {
        NewHumitureData {
            sn: String::from_str(sn),
            device_id: String::from_str(device_id),
            group_id,
            type_id,
            ts,
            temperature,
            humidity,
        }
    }

    /// Tells whether the ids are hexadecimal text of 8 and 16 digits.
    pub fn is_well_formed(&self) -> (ok: bool)
        ensures
            ok == self@.well_formed(),
    {
        let sn_ok: bool = match hex_decode(self.sn.as_str()) {
            Ok(bytes) => bytes.len() == 4,
            Err(_) => false,
        };
        let id_ok: bool = match hex_decode(self.device_id.as_str()) {
            Ok(bytes) => bytes.len() == 8,
            Err(_) => false,
        };
        sn_ok && id_ok
    }

    /// Tells whether a temperature and a humidity, both in tenths, lie in the
    /// accepted domain: neither above 100.0.
    pub fn values_in_range(temperature: u16, humidity: u16) -> (ok: bool)
        ensures
            ok == in_range(temperature as int, humidity as int),
    {
        temperature <= 1000 && humidity <= 1000
    }

    /// Tells whether temperature and humidity lie in the accepted domain.
    pub fn in_range(&self) -> (ok: bool)
        ensures
            ok == self@.is_in_range(),
    {
        Self::values_in_range(self.temperature, self.humidity)
    }

    /// Writes the bytes of a well-formed reading's frame before the checksum.
    pub fn frame_body(&self) -> (body: Vec<u8>)
        requires
            self@.well_formed(),
        ensures
            body@ == self@.body_spec(),
            body@.len() == 29,
    {
        let mut body: Vec<u8> = Vec::new();
        body.push(MAGIC_FIRST);
        body.push(MAGIC_SECOND);
        body.push(SINGLE_DECLARED_LENGTH);
        if let Ok(id) = hex_decode(self.device_id.as_str()) {
            push_all(&mut body, id.as_slice());
        }
        if let Ok(sn) = hex_decode(self.sn.as_str()) {
            push_all(&mut body, sn.as_slice());
        }
        body.push(low_byte_of(self.group_id as i64));
        body.push(low_byte_of(self.type_id as i64));
        push_date(&mut body, &self.ts);
        push_u16(&mut body, self.temperature);
        push_u16(&mut body, self.humidity);
        body.push(BATTERY);
        body.push(CONTROL);
        assert(body@ =~= self@.body_spec());
        body
    }

    /// Encodes a well-formed reading as a frame of one sample: 30 bytes, the
    /// last of them the checksum. Group and type id and the date fields are
    /// cut to their lowest eight bits.
    pub fn to_bytes(self) -> (bytes: Vec<u8>)
        requires
            self@.well_formed(),
        ensures
            bytes@ == self@.encode_spec(),
            bytes@.len() == 30,
    {
        let mut bytes: Vec<u8> = self.frame_body();
        let sum: u8 = checksum_from(bytes.as_slice(), 3);
        bytes.push(sum);
        bytes
    }

    /// Reads temperature and humidity of sample `i`, in tenths.
    pub fn sample_values(bytes: &[u8], n: i32, i: i32) -> (pair: (u16, u16))
        requires
            frame_status_spec(bytes@, n as int) == FrameStatus::Valid,
            0 <= i < n,
        ensures
            pair.0 == sample_temperature(bytes@, i as int),
            pair.1 == sample_humidity(bytes@, n as int, i as int),
    {
        let at: usize = 23 + 2 * (i as usize);
        let t: u16 = read_u16(bytes, at);
        let h: u16 = read_u16(bytes, at + 2 * (n as usize));
        (t, h)
    }

    /// Lists the samples of a frame that lie outside the accepted domain, by
    /// their indices in rising order: those that decoding drops, or keeps
    /// for the test group only.
    pub fn out_of_range_samples(bytes: &[u8], n: i32) -> (indices: Vec<i32>)
        ensures
            indices@ == out_of_range_spec(bytes@, n as int),
    {
        let mut indices: Vec<i32> = Vec::new();
        if frame_status(bytes, n) != FrameStatus::Valid || n <= 0 {
            return indices;
        }
        let mut i: i32 = 0;
        while i < n
            invariant
                0 <= i <= n,
                frame_status_spec(bytes@, n as int) == FrameStatus::Valid,
                indices@ == out_of_range_upto(bytes@, n as int, i as int),
            decreases n - i,
        {
            let (temperature, humidity) = Self::sample_values(bytes, n, i);
            if !Self::values_in_range(temperature, humidity) {
                indices.push(i);
            }
            i = i + 1;
        }
        indices
    }

    /// Reads sample `i` of a valid frame as the reading taken at `ts`, or
    /// `None` where the sample is out of range and the frame is not from the
    /// test group.
    pub fn read_sample(bytes: &[u8], n: i32, i: i32, ts: Timestamp) -> (r: Option<
        NewHumitureData,
    >)
        requires
            frame_status_spec(bytes@, n as int) == FrameStatus::Valid,
            0 <= i < n,
        ensures
            r is Some <==> sample_reading(bytes@, n as int, i as int, ts) is Some,
            r matches Some(reading) ==> Some(reading@) == sample_reading(
                bytes@,
                n as int,
                i as int,
                ts,
            ),
    {
        let (temperature, humidity) = Self::sample_values(bytes, n, i);
        let group_id: i32 = bytes[15] as i32;
        let type_id: i32 = bytes[16] as i32;
        if Self::values_in_range(temperature, humidity) || (group_id == 0 && type_id == 0) {
            Some(
                NewHumitureData {
                    sn: to_hex(slice_subrange(bytes, 11, 15)),
                    device_id: to_hex(slice_subrange(bytes, 3, 11)),
                    group_id,
                    type_id,
                    ts,
                    temperature,
                    humidity,
                },
            )
        } else {
            None
        }
    }

    /// Decodes a frame of `n` samples received at the time `now`. The
    /// readings come oldest first; sample `i` is dated `(n - i)` intervals
    /// before `now`, so the newest lies one interval back. A buffer that is
    /// no valid frame of `n` samples gives no reading.
    pub fn from_bytes(bytes: &[u8], n: i32, now: Timestamp) -> (result: Vec<NewHumitureData>)
        ensures
            result.deep_view() == decode_spec(bytes@, n as int, now),
            !has_magic(bytes@) ==> result@.len() == 0,
            !length_matches(bytes@) ==> result@.len() == 0,
            result@.len() <= n || result@.len() == 0,
            now.is_common_era() && n >= 0 && frame_status_spec(bytes@, n as int)
                == FrameStatus::Valid && (forall|k: int|
                0 <= k < n ==> keeps_sample(bytes@, n as int, k)) ==> result@.len() == n,
            forall|k: int| 0 <= k < result@.len() ==> (#[trigger] result@[k])@.well_formed(),
    {
        let mut result: Vec<NewHumitureData> = Vec::new();
        if frame_status(bytes, n) != FrameStatus::Valid || n <= 0 {
            assert(result.deep_view() =~= decode_spec(bytes@, n as int, now));
            return result;
        }
        let interval: u32 = read_interval(bytes);
        let mut i: i32 = 0;
        assert(result.deep_view() =~= readings_upto(bytes@, n as int, now, 0));
        while i < n
            invariant
                0 <= i <= n <= 59,
                frame_status_spec(bytes@, n as int) == FrameStatus::Valid,
                interval == frame_interval(bytes@),
                5 <= interval <= 40,
                result.deep_view() == readings_upto(bytes@, n as int, now, i as int),
                result@.len() <= i,
                now.is_common_era() && (forall|k: int|
                    0 <= k < i ==> keeps_sample(bytes@, n as int, k)) ==> result@.len() == i,
                forall|k: int| 0 <= k < result@.len() ==> (#[trigger] result@[k])@.well_formed(),
            decreases n - i,
        {
            assert((n - i) * interval <= 59 * 40) by (nonlinear_arith)
                requires
                    0 < n - i <= 59,
                    0 <= interval <= 40,
            ;
            let age: u32 = (n - i) as u32 * interval;
            let ghost before = result.deep_view();
            if let Some(ts) = now.minutes_earlier(age) {
                if let Some(reading) = Self::read_sample(bytes, n, i, ts) {
                    proof {
                        lemma_hex_text_of_bytes(bytes@.subrange(11, 15));
                        lemma_hex_text_of_bytes(bytes@.subrange(3, 11));
                    }
                    result.push(reading);
                    assert(result.deep_view() =~= before.push(reading@));
                }
            }
            assert(result.deep_view() =~= readings_upto(bytes@, n as int, now, i + 1));
            i = i + 1;
        }
        result
    }
}

/// Text written for bytes is hexadecimal text, two digits per byte.
pub proof fn lemma_hex_text_of_bytes(bytes: Seq<u8>)
    ensures
        is_hex_text(hex_encoded(bytes)),
        hex_encoded(bytes).len() == 2 * bytes.len(),
{
    lemma_hex_decode_encode(bytes);
}

/// Where the fields of a well-formed reading lie in its frame.
pub proof fn lemma_encoded_layout(r: Reading)
    requires
        r.well_formed(),
    ensures
        r.encode_spec().len() == 30,
        r.encode_spec()[0] == MAGIC_FIRST,
        r.encode_spec()[1] == MAGIC_SECOND,
        r.encode_spec()[2] == SINGLE_DECLARED_LENGTH,
        r.encode_spec().subrange(3, 11) == hex_decoded(r.device_id),
        r.encode_spec().subrange(11, 15) == hex_decoded(r.sn),
        r.encode_spec()[15] == low_byte(r.group_id as int),
        r.encode_spec()[16] == low_byte(r.type_id as int),
        r.encode_spec().subrange(17, 23) == date_bytes(r.ts),
        r.encode_spec().subrange(23, 25) == be16_bytes(r.temperature as int),
        r.encode_spec().subrange(25, 27) == be16_bytes(r.humidity as int),
        r.encode_spec()[27] == BATTERY,
        r.encode_spec()[28] == CONTROL,
{
    let id = hex_decoded(r.device_id);
    let sn = hex_decoded(r.sn);
    assert(id.len() == 8 && sn.len() == 4);
    let head = seq![MAGIC_FIRST, MAGIC_SECOND, SINGLE_DECLARED_LENGTH] + id + sn;
    assert(head.len() == 15);
    let e = r.encode_spec();
    assert(r.body_spec().len() == 29);
    assert(e.subrange(3, 11) =~= id);
    assert(e.subrange(11, 15) =~= sn);
    assert(e.subrange(17, 23) =~= date_bytes(r.ts));
    assert(e.subrange(23, 25) =~= be16_bytes(r.temperature as int));
    assert(e.subrange(25, 27) =~= be16_bytes(r.humidity as int));
}

/// The frame that encoding writes for a well-formed reading is a valid frame
/// of one sample, of 30 bytes, whose control byte stands for an interval of
/// five minutes.
pub proof fn lemma_encoded_frame_is_valid(r: Reading)
    requires
        r.well_formed(),
    ensures
        r.encode_spec().len() == 30,
        frame_status_spec(r.encode_spec(), 1) == FrameStatus::Valid,
        frame_interval(r.encode_spec()) == 5,
{
    lemma_encoded_layout(r);
}

/// What the one sample of an encoded frame holds: the reading's ids,
/// temperature and humidity, for textual ids in lower case and group and
/// type id from 0 to 255.
proof fn lemma_encoded_sample(r: Reading, ts: Timestamp)
    requires
        r.well_formed(),
        is_lower_hex_text(r.sn),
        is_lower_hex_text(r.device_id),
        0 <= r.group_id <= 255,
        0 <= r.type_id <= 255,
        r.is_in_range() || is_test_group(r.group_id as int, r.type_id as int),
    ensures
        sample_reading(r.encode_spec(), 1, 0, ts) == Some(Reading { ts, ..r }),
{
    let e = r.encode_spec();
    lemma_encoded_layout(r);
    lemma_hex_encode_decode(r.sn);
    lemma_hex_encode_decode(r.device_id);
    lemma_be16_round_trip(r.temperature as int);
    lemma_be16_round_trip(r.humidity as int);
    assert(pair_at(e, temperature_offset(0)) == e.subrange(23, 25));
    assert(pair_at(e, humidity_offset(1, 0)) == e.subrange(25, 27));
    assert(sample_temperature(e, 0) == r.temperature);
    assert(sample_humidity(e, 1, 0) == r.humidity);
    assert(e[15] as int == r.group_id && e[16] as int == r.type_id);
}

/// Round trip of one reading: decoding the frame that encoding wrote, as a
/// frame of one sample, gives back the reading with its ids, temperature and
/// humidity, dated five minutes before the time of decoding. It holds for a
/// well-formed reading whose textual ids are in lower case, as decoding
/// writes them, whose group and type id are from 0 to 255, and which is in
/// range or comes from the test group; the date in the frame is not read.
/// Where no timestamp lies five minutes before `now`, decoding gives nothing;
/// where the reading's own timestamp lies there, decoding gives the reading
/// itself.
pub proof fn lemma_round_trip(r: Reading, now: Timestamp)
    requires
        r.well_formed(),
        is_lower_hex_text(r.sn),
        is_lower_hex_text(r.device_id),
        0 <= r.group_id <= 255,
        0 <= r.type_id <= 255,
        r.is_in_range() || is_test_group(r.group_id as int, r.type_id as int),
    ensures
        decode_spec(r.encode_spec(), 1, now) == (match minutes_before(now, 5) {
            Some(ts) => seq![Reading { ts, ..r }],
            None => Seq::<Reading>::empty(),
        }),
        minutes_before(now, 5) == Some(r.ts) ==> decode_spec(r.encode_spec(), 1, now) == seq![r],
{
    let e = r.encode_spec();
    lemma_encoded_frame_is_valid(r);
    assert(sample_age(1, 0, 5) == 5);
    assert(readings_upto(e, 1, now, 0) =~= Seq::<Reading>::empty());
    match minutes_before(now, 5) {
        Some(ts) => {
            lemma_encoded_sample(r, ts);
            assert(reading_at(e, 1, 0, now) == Some(Reading { ts, ..r }));
            assert(readings_upto(e, 1, now, 1) =~= seq![Reading { ts, ..r }]);
        },
        None => {
            assert(reading_at(e, 1, 0, now) == None::<Reading>);
            assert(readings_upto(e, 1, now, 1) =~= Seq::<Reading>::empty());
        },
    }
}

/// Encoding is a function of the reading alone: equal readings give equal
/// frames, checksum included.
pub proof fn lemma_encoding_is_stable(a: Reading, b: Reading)
    requires
        a == b,
    ensures
        a.encode_spec() == b.encode_spec(),
        a.encode_spec().last() == b.encode_spec().last(),
{
}

/// Decoding gives nothing for a buffer that does not start with the magic
/// bytes, whatever else it holds, and nothing for one whose length byte is
/// not its length less 4.
pub proof fn lemma_rejected_frames(bytes: Seq<u8>, n: int, now: Timestamp)
    requires
        !has_magic(bytes) || !length_matches(bytes),
    ensures
        decode_spec(bytes, n, now).len() == 0,
{
}

/// A reading carries the ids of a frame, and is in range unless the frame
/// comes from the test group.
pub open spec fn is_reading_of(r: Reading, bytes: Seq<u8>) -> bool {
    &&& r.device_id == hex_encoded(bytes.subrange(3, 11))
    &&& r.sn == hex_encoded(bytes.subrange(11, 15))
    &&& r.group_id == bytes[15]
    &&& r.type_id == bytes[16]
    &&& (r.is_in_range() || is_test_group(bytes[15] as int, bytes[16] as int))
}

/// Every reading among the first `k` of a frame carries the ids of the
/// frame, and is in range unless the frame comes from the test group.
pub proof fn lemma_readings_of_a_frame(bytes: Seq<u8>, n: int, now: Timestamp, k: int)
    requires
        0 <= k <= n,
    ensures
        forall|j: int|
            0 <= j < readings_upto(bytes, n, now, k).len() ==> is_reading_of(
                #[trigger] readings_upto(bytes, n, now, k)[j],
                bytes,
            ),
    decreases k,
{
    if k > 0 {
        lemma_readings_of_a_frame(bytes, n, now, k - 1);
        let before = readings_upto(bytes, n, now, k - 1);
        let after = readings_upto(bytes, n, now, k);
        let t = sample_temperature(bytes, k - 1);
        let h = sample_humidity(bytes, n, k - 1);
        assert(0 <= t < 0x1_0000 && 0 <= h < 0x1_0000);
        assert forall|j: int| 0 <= j < after.len() implies is_reading_of(
            #[trigger] after[j],
            bytes,
        ) by {
            if j < before.len() {
                assert(after[j] == before[j]);
            } else {
                assert(reading_at(bytes, n, k - 1, now) == Some(after[j]));
            }
        }
    }
}

/// Of the first `k` samples of a frame that is not from the test group, each
/// either gives a reading or lies out of range: readings and samples out of
/// range add up to `k`, where a timestamp lies far enough before `now` for
/// each. In a frame from the test group each of them gives a reading.
pub proof fn lemma_kept_and_dropped(bytes: Seq<u8>, n: int, now: Timestamp, k: int)
    requires
        0 <= k <= n,
        forall|i: int|
            0 <= i < k ==> (#[trigger] minutes_before(
                now,
                sample_age(n, i, frame_interval(bytes)),
            )) is Some,
    ensures
        is_test_group(bytes[15] as int, bytes[16] as int) ==> readings_upto(bytes, n, now, k).len()
            == k,
        !is_test_group(bytes[15] as int, bytes[16] as int) ==> readings_upto(
            bytes,
            n,
            now,
            k,
        ).len() + out_of_range_upto(bytes, n, k).len() == k,
    decreases k,
{
    if k > 0 {
        lemma_kept_and_dropped(bytes, n, now, k - 1);
        assert(minutes_before(now, sample_age(n, k - 1, frame_interval(bytes))) is Some);
    }
}

/// The value of a chunk of two bytes read as a number in base 16: two
/// digits, or a plus sign and one digit; `None` for any other chunk.
pub open spec fn chunk_value(first: u8, second: u8) -> Option<u8> {
    if hex_value(second as char) < 0 {
        None
    } else if hex_value(first as char) >= 0 {
        Some((16 * hex_value(first as char) + hex_value(second as char)) as u8)
    } else if first == 0x2B {
        Some(hex_value(second as char) as u8)
    } else {
        None
    }
}

/// Number of chunks that are read of a text of `len` bytes: its last two
/// bytes, or its last byte where `len` is odd, are left out.
pub open spec fn chunk_count(len: int) -> int {
    if len < 2 {
        0
    } else {
        (len - 1) / 2
    }
}

/// Every chunk that is read of `text` has a value.
pub open spec fn chunks_are_numbers(text: Seq<u8>) -> bool {
    forall|k: int|
        0 <= k < chunk_count(text.len() as int) ==> (#[trigger] chunk_value(
            text[2 * k],
            text[2 * k + 1],
        )) is Some
}

/// The values of the chunks that are read of `text`.
pub open spec fn chunk_values(text: Seq<u8>) -> Seq<u8> {
    Seq::new(
        chunk_count(text.len() as int) as nat,
        |k: int| chunk_value(text[2 * k], text[2 * k + 1]).unwrap(),
    )
}

/// The value of a hexadecimal digit, or `None` for any other byte.
fn digit_value(b: u8) -> (v: Option<u8>)
    ensures
        v is Some <==> hex_value(b as char) >= 0,
        v matches Some(d) ==> d == hex_value(b as char) && d < 16,
{
    if b >= 0x30 && b <= 0x39 {
        Some(b - 0x30)
    } else if b >= 0x61 && b <= 0x66 {
        Some(b - 0x61 + 10)
    } else if b >= 0x41 && b <= 0x46 {
        Some(b - 0x41 + 10)
    } else {
        None
    }
}

/// The value of a chunk of two bytes read as a number in base 16.
fn read_chunk(first: u8, second: u8) -> (v: Option<u8>)
    ensures
        v == chunk_value(first, second),
{
    match digit_value(second) {
        None => None,
        Some(low) => match digit_value(first) {
            Some(high) => Some(16 * high + low),
            None => if first == 0x2B {
                Some(low)
            } else {
                None
            },
        },
    }
}

/// Tells whether `push_hex_str_into_vector` accepts `sss`: it is at least
/// two bytes long, and every chunk that is read of it has a value.
pub fn can_push_hex_str(sss: &str) -> (ok: bool)
    ensures
        ok == (sss.spec_bytes().len() >= 2 && chunks_are_numbers(sss.spec_bytes())),
{
    let text: &[u8] = sss.as_bytes();
    let len: usize = text.len();
    if len < 2 {
        return false;
    }
    let count: usize = (len - 1) / 2;
    let mut k: usize = 0;
    while k < count
        invariant
            k <= count,
            count == chunk_count(len as int),
            len == text@.len(),
            len >= 2,
            text@ == sss.spec_bytes(),
            forall|j: int|
                0 <= j < k ==> (#[trigger] chunk_value(text@[2 * j], text@[2 * j + 1])) is Some,
        decreases count - k,
    {
        if read_chunk(text[2 * k], text[2 * k + 1]).is_none() {
            assert(chunk_value(text@[2 * k], text@[2 * k + 1]) is None);
            return false;
        }
        k = k + 1;
    }
    true
}

/// Reads `sss` two bytes at a time, each chunk as a number in base 16, and
/// appends the numbers to `bytes`. The last two bytes of the text, or its
/// last byte where its length is odd, are not read.
pub fn push_hex_str_into_vector(bytes: &mut Vec<u8>, sss: &str)
    requires
        sss.spec_bytes().len() >= 2,
        chunks_are_numbers(sss.spec_bytes()),
    ensures
        final(bytes)@ == old(bytes)@ + chunk_values(sss.spec_bytes()),
{
    let text: &[u8] = sss.as_bytes();
    let len: usize = text.len();
    let count: usize = (len - 1) / 2;
    let mut k: usize = 0;
    while k < count
        invariant
            k <= count,
            count == chunk_count(len as int),
            len == text@.len(),
            len >= 2,
            chunks_are_numbers(text@),
            bytes@ == old(bytes)@ + chunk_values(text@).subrange(0, k as int),
        decreases count - k,
    {
        let ghost seen = chunk_values(text@).subrange(0, k as int);
        if let Some(value) = read_chunk(text[2 * k], text[2 * k + 1]) {
            bytes.push(value);
        }
        assert(chunk_values(text@).subrange(0, k + 1) =~= seen.push(
            chunk_value(text@[2 * k], text@[2 * k + 1]).unwrap(),
        ));
        k = k + 1;
    }
    assert(chunk_values(text@).subrange(0, k as int) =~= chunk_values(text@));
}

} // verus!
