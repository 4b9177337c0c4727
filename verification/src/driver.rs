//! The exchange between a polling cycle and whoever drives it.
//!
//! A cycle never touches the bus, the clock or the sink. It names the one
//! thing that has to happen next, an [`Action`]; the driver does it and
//! reports how it went, an [`Event`]; from that the cycle names the next
//! thing.

use vstd::prelude::*;
use crate::error::{IoError, SensorError};
use crate::frame::{Opcode, GROUP_LEN};

verus! {

/// What the driver has to do next.
#[derive(Debug, PartialEq, Eq)]
pub enum Action<R> {
    /// Write the frame of this command to the sensor.
    Send(Opcode),
    /// Let this many milliseconds pass.
    Wait(u64),
    /// Read this many bytes from the sensor into a zeroed buffer.
    Read(usize),
    /// Hand this reading to the sink.
    Publish(R),
    /// Nothing more: the cycle is over, for the reason given, or for none
    /// when it was closed on request.
    Halt(Option<SensorError>),
}

/// How an action went.
#[derive(Debug, PartialEq, Eq)]
pub enum Event {
    /// The transport took this many bytes of the frame.
    Written(usize),
    /// The transport delivered these bytes.
    Received(Vec<u8>),
    /// The delay has passed.
    Elapsed,
    /// The sink has the reading.
    Published,
    /// The transport failed.
    Failed(IoError),
}

impl Event {
    /// What a write is reported as, from what the operating system
    /// returned: the number of bytes taken, or, where that is negative, a
    /// failure with the error code that the system gave.
    pub open spec fn of_write(returned: isize, code: i32) -> Event {
        if returned < 0 {
            Event::Failed(IoError { code })
        } else {
            Event::Written(returned as usize)
        }
    }

    /// The bytes that a read delivered, from the buffer that it filled and
    /// the number of bytes that the operating system returned.
    pub open spec fn delivered(buffer: Seq<u8>, returned: isize) -> Seq<u8> {
        if returned < buffer.len() {
            buffer.take(returned as int)
        } else {
            buffer
        }
    }

    /// Reports on a write by what the operating system returned for it and
    /// the error code that it left.
    pub fn written(returned: isize, code: i32) -> (event: Event)
        ensures
            event == Event::of_write(returned, code),
    {
        if returned < 0 {
            Event::Failed(IoError { code })
        } else {
            Event::Written(returned as usize)
        }
    }

    /// Reports on a read by the buffer that it filled, what the operating
    /// system returned for it, and the error code that it left. A negative
    /// return is a failure; any other says how much of the buffer arrived.
    pub fn received(buffer: Vec<u8>, returned: isize, code: i32) -> (event: Event)
        ensures
            match event {
                Event::Failed(e) => returned < 0 && e.code == code,
                Event::Received(bytes) => returned >= 0 && bytes@ == Event::delivered(
                    buffer@,
                    returned,
                ),
                _ => false,
            },
    {
        if returned < 0 {
            Event::Failed(IoError { code })
        } else {
            let mut bytes: Vec<u8> = buffer;
            bytes.truncate(returned as usize);
            Event::Received(bytes)
        }
    }

    /// Whether the event reports a write that did not take a whole command
    /// frame.
    pub open spec fn is_failed_write(self) -> bool {
        match self {
            Event::Written(accepted) => accepted != GROUP_LEN,
            Event::Failed(_) => true,
            _ => false,
        }
    }
}

} // verus!
