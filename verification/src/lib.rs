//! Protocol engine for environmental sensors on a byte-oriented bus.
//!
//! Two sensors are polled: one for CO2, temperature and humidity, which is
//! sent commands and answers in checksummed words, and one for particulate
//! matter, which streams fixed frames. The engine holds what is to be
//! known about their protocols and nothing about the bus itself:
//!
//! - [`checksum`]: the 8-bit checksum of the CO2 sensor;
//! - [`frame`]: command frames and the decoding of checksummed words;
//! - [`co2`]: the measurement of the CO2 sensor and what derives from it;
//! - [`session`]: the session with the CO2 sensor, from its first command
//!   to its last;
//! - [`particulate`]: the frame of the particulate sensor and its polling
//!   cycle;
//! - [`driver`]: what a cycle asks of its driver and what the driver
//!   reports back;
//! - [`error`]: what can go wrong.

pub mod checksum;
pub mod co2;
pub mod driver;
pub mod error;
pub mod frame;
pub mod particulate;
pub mod session;
