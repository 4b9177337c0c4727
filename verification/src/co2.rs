//! The CO2, temperature and humidity sensor: what it measures.

use vstd::prelude::*;
use crate::error::ProtocolError;
use crate::frame::{decode_words, sensiron_read_u16};

verus! {

/// Address of the sensor on the bus.
pub const SCD40_ADDRESS: u64 = 0x62;

/// Delay after `Stop`, in milliseconds: a measurement that was under way
/// has ended by then.
pub const STOP_SETTLE_MS: u64 = 1000;

/// Delay after `Start`, in milliseconds: the first measurement is there by
/// then.
pub const START_SETTLE_MS: u64 = 5100;

/// Delay between `ReadMeasurement` and the read, in milliseconds.
pub const COMMAND_LATENCY_MS: u64 = 1;

/// Delay between two reads, in milliseconds: the sensor's own measurement
/// period.
pub const MEASUREMENT_INTERVAL_MS: u64 = 5100;

/// Words in a measurement.
pub const MEASUREMENT_WORDS: usize = 3;

/// Bytes in a measurement on the wire.
pub const MEASUREMENT_LEN: usize = 9;

/// Denominator of the fixed-point values that a reading derives.
pub const READING_SCALE: i32 = 65536;

/// One measurement, as the sensor sent it.
#[derive(Clone, Copy, Debug, PartialEq, Eq, Structural)]
pub struct CO2Reading {
    /// CO2 concentration in parts per million.
    pub co2_ppm: u16,
    /// Temperature in the sensor's units.
    pub temperature_raw: u16,
    /// Relative humidity in the sensor's units.
    pub humidity_raw: u16,
}

impl CO2Reading {
    /// Temperature in degrees Celsius, times [`READING_SCALE`]: the
    /// temperature is `-45 + 175 * temperature_raw / 65536`.
    pub open spec fn spec_temperature_c_scaled(self) -> int {
        175 * self.temperature_raw - 45 * 65536
    }

    /// Relative humidity in percent, times [`READING_SCALE`]: the humidity
    /// is `100 * humidity_raw / 65536`.
    pub open spec fn spec_relative_humidity_pct_scaled(self) -> int {
        100 * self.humidity_raw
    }

    /// Temperature in degrees Celsius, times [`READING_SCALE`]. It lies
    /// between -45 and 130 degrees.
    pub fn temperature_c_scaled(&self) -> (scaled: i32)
        ensures
            scaled == self.spec_temperature_c_scaled(),
            -45 * READING_SCALE <= scaled < 130 * READING_SCALE,
    {
        175 * (self.temperature_raw as i32) - 45 * READING_SCALE
    }

    /// Relative humidity in percent, times [`READING_SCALE`]. It lies
    /// between 0 and 100 percent.
    pub fn relative_humidity_pct_scaled(&self) -> (scaled: i32)
        ensures
            scaled == self.spec_relative_humidity_pct_scaled(),
            0 <= scaled < 100 * READING_SCALE,
    {
        100 * (self.humidity_raw as i32)
    }
}

/// What the bytes of a response decode to: three words, in the order CO2,
/// temperature, humidity.
pub open spec fn measurement_of(bytes: Seq<u8>) -> Result<CO2Reading, ProtocolError> {
    match decode_words(bytes, 3) {
        Ok(words) => Ok(
            CO2Reading { co2_ppm: words[0], temperature_raw: words[1], humidity_raw: words[2] },
        ),
        Err(e) => Err(e),
    }
}

/// Decodes the response to `ReadMeasurement`.
pub fn decode_measurement(received: &[u8]) -> (result: Result<CO2Reading, ProtocolError>)
    ensures
        result == measurement_of(received@),
{
    match sensiron_read_u16(received, MEASUREMENT_WORDS) {
        Ok(words) => Ok(
            CO2Reading { co2_ppm: words[0], temperature_raw: words[1], humidity_raw: words[2] },
        ),
        Err(e) => Err(e),
    }
}

} // verus!
