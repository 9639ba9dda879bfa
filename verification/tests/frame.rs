use lgp_iot_db::frame::{
    control_offset, frame_status, interval_minutes, low_byte_of, push_all, push_date,
    read_interval, FrameStatus, BATTERY, CONTROL, MAGIC_FIRST, MAGIC_SECOND, SAMPLES_OFFSET,
    SINGLE_DECLARED_LENGTH,
};
use lgp_iot_db::models::humiture_data_v2::HumitureData;
use lgp_iot_db::timestamp::Timestamp;

fn frame_of(samples: usize, control: u8) -> Vec<u8> {
    let len = 26 + 4 * samples;
    let mut bytes = vec![0u8; len];
    bytes[0] = 0x5A;
    bytes[1] = 0xA5;
    bytes[2] = (len - 4) as u8;
    bytes[15] = 1;
    for i in 0..samples {
        // temperatures 10.0, 10.1, ...; humidities 50.0, 50.1, ...
        bytes[23 + 2 * i] = 0;
        bytes[24 + 2 * i] = 100 + i as u8;
        bytes[23 + 2 * samples + 2 * i] = 0x01;
        bytes[24 + 2 * samples + 2 * i] = 0xF4 + i as u8;
    }
    bytes[len - 2] = control;
    bytes
}

fn minutes_between(earlier: &Timestamp, later: &Timestamp) -> i64 {
    let a = chrono::NaiveDate::from_ymd_opt(earlier.year, earlier.month, earlier.day)
        .unwrap()
        .and_hms_opt(earlier.hour, earlier.minute, earlier.second)
        .unwrap();
    let b = chrono::NaiveDate::from_ymd_opt(later.year, later.month, later.day)
        .unwrap()
        .and_hms_opt(later.hour, later.minute, later.second)
        .unwrap();
    let delta = b - a;
    assert_eq!(delta.num_seconds() % 60, 0);
    delta.num_minutes()
}

#[test]
fn constants_of_the_layout() {
    assert_eq!((MAGIC_FIRST, MAGIC_SECOND), (0x5A, 0xA5));
    assert_eq!(SAMPLES_OFFSET, 23);
    assert_eq!(SINGLE_DECLARED_LENGTH, 26);
    assert_eq!(BATTERY, 0x63);
    assert_eq!(CONTROL, 0x00);
}

#[test]
fn interval_codes_map_to_minutes() {
    let minutes: Vec<u32> = (0u8..8).map(|code| interval_minutes(code << 1)).collect();
    assert_eq!(minutes, vec![5, 10, 15, 20, 25, 30, 35, 40]);
    assert_eq!(interval_minutes(0b0000_0000), 5);
    assert_eq!(interval_minutes(0b0000_1110), 40);
}

#[test]
fn interval_reads_bits_one_to_three_only() {
    for control in 0u8..=255 {
        let code = (control >> 1) & 0x07;
        assert_eq!(interval_minutes(control), (code as u32 + 1) * 5);
    }
    assert_eq!(interval_minutes(0b1111_0001), 5);
    assert_eq!(interval_minutes(0b1111_1111), 40);
    assert_eq!(interval_minutes(0b0000_0001), 5);
}

#[test]
fn control_byte_lies_where_the_length_says() {
    assert_eq!(control_offset(70), 72);
    assert_eq!(control_offset(118), 120);
    assert_eq!(control_offset(26), 28);
    assert_eq!(control_offset(0), 28);
    assert_eq!(control_offset(255), 28);
    assert_eq!(read_interval(&frame_of(12, 0b0110)), 20);
    assert_eq!(read_interval(&frame_of(24, 0b1110)), 40);
    assert_eq!(read_interval(&frame_of(1, 0b0010)), 10);
}

#[test]
fn a_frame_of_other_length_has_its_control_byte_at_28() {
    // six samples: the control byte of the layout lies at 48, the one read at 28
    let mut bytes = frame_of(6, 0b1110);
    assert_eq!(bytes[28], 102);
    assert_eq!(read_interval(&bytes), 20);
    bytes[28] = 0b0100;
    assert_eq!(read_interval(&bytes), 15);
}

#[test]
fn every_status_has_its_buffer() {
    assert_eq!(frame_status(&[], 1), FrameStatus::Empty);
    assert_eq!(frame_status(&[0x5A], 1), FrameStatus::BadHeader);
    assert_eq!(frame_status(&[0x00, 0xA5, 0, 0], 1), FrameStatus::BadHeader);
    assert_eq!(frame_status(&[0x5A, 0xA5], 1), FrameStatus::LengthMismatch);
    assert_eq!(frame_status(&[0x5A, 0xA5, 0], 1), FrameStatus::LengthMismatch);
    assert_eq!(frame_status(&[0x5A, 0xA5, 1, 0], 1), FrameStatus::LengthMismatch);
    assert_eq!(frame_status(&[0x5A, 0xA5, 0, 0], 1), FrameStatus::TooShort);
    assert_eq!(frame_status(&frame_of(1, 0), 1), FrameStatus::Valid);
    assert_eq!(frame_status(&frame_of(1, 0), 2), FrameStatus::TooShort);
    assert_eq!(frame_status(&frame_of(12, 0), 12), FrameStatus::Valid);
    assert_eq!(frame_status(&frame_of(12, 0), 13), FrameStatus::TooShort);
    assert_eq!(frame_status(&frame_of(24, 0), 24), FrameStatus::Valid);
    assert_eq!(frame_status(&frame_of(24, 0), 0), FrameStatus::Valid);
    assert_eq!(frame_status(&frame_of(24, 0), -5), FrameStatus::Valid);
}

#[test]
fn a_frame_one_byte_short_of_its_control_byte_is_too_short() {
    let mut bytes = vec![0u8; 28];
    bytes[0] = 0x5A;
    bytes[1] = 0xA5;
    bytes[2] = 24;
    assert_eq!(frame_status(&bytes, 1), FrameStatus::TooShort);
    bytes.push(0);
    bytes[2] = 25;
    assert_eq!(frame_status(&bytes, 1), FrameStatus::Valid);
    // three bytes short of the layout, yet every byte that is read is there
    assert_eq!(frame_status(&bytes, 2), FrameStatus::TooShort);
}

#[test]
fn consecutive_samples_lie_one_interval_apart() {
    let now = Timestamp::new(2024, 1, 1, 0, 30, 0).unwrap();
    for code in 0u8..8 {
        let interval = (code as i64 + 1) * 5;
        for samples in [1usize, 12, 24, 6] {
            let control = code << 1;
            let mut bytes = frame_of(samples, control);
            if samples == 6 {
                bytes[28] = control;
            }
            let readings = HumitureData::from_bytes(&bytes, samples as i32, now);
            assert_eq!(readings.len(), samples);
            for pair in readings.windows(2) {
                assert_eq!(minutes_between(&pair[0].ts, &pair[1].ts), interval);
            }
            assert_eq!(minutes_between(&readings[samples - 1].ts, &now), interval);
            assert_eq!(minutes_between(&readings[0].ts, &now), interval * samples as i64);
        }
    }
}

#[test]
fn samples_come_oldest_first() {
    let now = Timestamp::new(2024, 1, 1, 0, 30, 0).unwrap();
    let readings = HumitureData::from_bytes(&frame_of(12, 0), 12, now);
    let temperatures: Vec<i16> = readings.iter().map(|r| r.temperature).collect();
    assert_eq!(temperatures, (100..112).collect::<Vec<i16>>());
    let humidities: Vec<i16> = readings.iter().map(|r| r.humidity).collect();
    assert_eq!(humidities, (500..512).collect::<Vec<i16>>());
    assert_eq!(readings[0].ts, Timestamp::new(2023, 12, 31, 23, 30, 0).unwrap());
    assert_eq!(readings[11].ts, Timestamp::new(2024, 1, 1, 0, 25, 0).unwrap());
}

#[test]
fn low_byte_is_the_remainder_by_256() {
    assert_eq!(low_byte_of(0), 0);
    assert_eq!(low_byte_of(255), 255);
    assert_eq!(low_byte_of(256), 0);
    assert_eq!(low_byte_of(257), 1);
    assert_eq!(low_byte_of(-1), 255);
    assert_eq!(low_byte_of(-256), 0);
    assert_eq!(low_byte_of(-257), 255);
    assert_eq!(low_byte_of(i64::MAX), 255);
    assert_eq!(low_byte_of(i64::MIN), 0);
}

#[test]
fn dates_are_six_bytes() {
    let mut out = vec![9u8];
    push_date(&mut out, &Timestamp { year: 2021, month: 11, day: 2, hour: 10, minute: 2, second: 4 });
    assert_eq!(out, vec![9, 0x15, 0x0b, 0x02, 0x0a, 0x02, 0x04]);
    let mut odd = Vec::new();
    push_date(&mut odd, &Timestamp { year: -1, month: 300, day: 256, hour: 511, minute: 65536, second: u32::MAX });
    assert_eq!(odd, vec![0x2F, 44, 0, 255, 0, 255]);
}

#[test]
fn push_all_appends_in_order() {
    let mut out = vec![1u8, 2];
    push_all(&mut out, &[3, 4, 5]);
    push_all(&mut out, &[]);
    assert_eq!(out, vec![1, 2, 3, 4, 5]);
}
