use sensor_bus::co2::{
    decode_measurement, CO2Reading, COMMAND_LATENCY_MS, MEASUREMENT_INTERVAL_MS, MEASUREMENT_LEN,
    MEASUREMENT_WORDS, READING_SCALE, SCD40_ADDRESS, START_SETTLE_MS, STOP_SETTLE_MS,
};
use sensor_bus::error::ProtocolError;

fn reading(temperature_raw: u16, humidity_raw: u16) -> CO2Reading {
    CO2Reading { co2_ppm: 0, temperature_raw, humidity_raw }
}

fn temperature_c(r: &CO2Reading) -> f64 {
    r.temperature_c_scaled() as f64 / READING_SCALE as f64
}

fn relative_humidity_pct(r: &CO2Reading) -> f64 {
    r.relative_humidity_pct_scaled() as f64 / READING_SCALE as f64
}

#[test]
fn delays_of_the_sensor() {
    assert_eq!(STOP_SETTLE_MS, 1000);
    assert_eq!(START_SETTLE_MS, 5100);
    assert_eq!(COMMAND_LATENCY_MS, 1);
    assert_eq!(MEASUREMENT_INTERVAL_MS, 5100);
}

#[test]
fn address_of_the_co2_sensor() {
    assert_eq!(SCD40_ADDRESS, 0x62);
}

#[test]
fn size_of_a_measurement() {
    assert_eq!(MEASUREMENT_WORDS, 3);
    assert_eq!(MEASUREMENT_LEN, 9);
    assert_eq!(READING_SCALE, 65536);
}

#[test]
fn temperature_at_the_lower_boundary() {
    let r = reading(0, 0);
    assert_eq!(r.temperature_c_scaled(), -45 * 65536);
    assert_eq!(temperature_c(&r), -45.0);
}

#[test]
fn temperature_at_the_upper_boundary() {
    let r = reading(65535, 0);
    assert_eq!(r.temperature_c_scaled(), 8_519_505);
    assert!((temperature_c(&r) - 129.997).abs() < 0.001);
}

#[test]
fn humidity_at_the_lower_boundary() {
    let r = reading(0, 0);
    assert_eq!(r.relative_humidity_pct_scaled(), 0);
    assert_eq!(relative_humidity_pct(&r), 0.0);
}

#[test]
fn humidity_at_the_upper_boundary() {
    let r = reading(0, 65535);
    assert_eq!(r.relative_humidity_pct_scaled(), 6_553_500);
    assert!((relative_humidity_pct(&r) - 99.998).abs() < 0.001);
}

#[test]
fn temperature_in_the_middle_of_the_range() {
    let r = reading(0x8000, 0);
    assert_eq!(r.temperature_c_scaled(), 42 * 65536 + 32768);
    assert_eq!(temperature_c(&r), 42.5);
}

#[test]
fn humidity_at_a_quarter_of_the_range() {
    let r = reading(0, 0x4000);
    assert_eq!(r.relative_humidity_pct_scaled(), 25 * 65536);
    assert_eq!(relative_humidity_pct(&r), 25.0);
}

#[test]
fn scaled_values_agree_with_the_formulas_in_floating_point() {
    for raw in 0..=u16::MAX {
        let r = reading(raw, raw);
        assert_eq!(temperature_c(&r), -45.0 + 175.0 * (raw as f64) / 65536.0);
        assert_eq!(relative_humidity_pct(&r), 100.0 * (raw as f64) / 65536.0);
        let t32: f32 = -45.0 + 175.0 * (raw as f32 / 65536.0);
        let h32: f32 = 100.0 * (raw as f32 / 65536.0);
        assert_eq!(temperature_c(&r), t32 as f64);
        assert_eq!(relative_humidity_pct(&r), h32 as f64);
    }
}

#[test]
fn scaled_values_stay_in_range_and_grow_with_the_raw_value() {
    let mut last_t = i32::MIN;
    let mut last_h = -1;
    for raw in 0..=u16::MAX {
        let r = reading(raw, raw);
        let t = r.temperature_c_scaled();
        let h = r.relative_humidity_pct_scaled();
        assert!(-45 * 65536 <= t && t < 130 * 65536);
        assert!(0 <= h && h < 100 * 65536);
        assert!(t > last_t);
        assert!(h > last_h);
        last_t = t;
        last_h = h;
    }
}

#[test]
fn measurement_from_nine_bytes() {
    let bytes = [0x01, 0xF4, 0x33, 0x80, 0x00, 0xA2, 0x40, 0x00, 0x08];
    let r = decode_measurement(&bytes).unwrap();
    assert_eq!(r, CO2Reading { co2_ppm: 500, temperature_raw: 0x8000, humidity_raw: 0x4000 });
    assert_eq!(temperature_c(&r), 42.5);
    assert!((temperature_c(&r) - 42.75).abs() <= 0.25);
    assert_eq!(relative_humidity_pct(&r), 25.0);
}

#[test]
fn measurement_of_the_wrong_length() {
    let bytes = [0x01, 0xF4, 0x33, 0x80, 0x00, 0xA2, 0x40, 0x00, 0x08, 0x00, 0x00, 0x81];
    assert_eq!(decode_measurement(&bytes[..0]), Err(ProtocolError::ShortRead));
    assert_eq!(decode_measurement(&bytes[..6]), Err(ProtocolError::ShortRead));
    assert_eq!(decode_measurement(&bytes[..8]), Err(ProtocolError::ShortRead));
    assert_eq!(decode_measurement(&bytes), Err(ProtocolError::ShortRead));
}

#[test]
fn measurement_with_a_bad_checksum() {
    let bytes = [0x01, 0xF4, 0x33, 0x80, 0x00, 0xA3, 0x40, 0x00, 0x08];
    assert_eq!(decode_measurement(&bytes), Err(ProtocolError::ChecksumMismatch));
}
