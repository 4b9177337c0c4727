//! The particulate-matter sensor: its fixed 32-byte frame and what it holds.
//!
//! The sensor streams frames without being asked. A frame begins with the
//! signature `0x42 0x4D` and holds nine 16-bit fields, high byte first, in
//! the bytes `0x0A` to `0x1B`. It carries no checksum.

use vstd::prelude::*;
use crate::driver::{Action, Event};
use crate::error::{ProtocolError, SensorError};
use crate::frame::word_of;

verus! {

/// Address of the sensor on the bus.
pub const PMSA003I_ADDRESS: u64 = 0x12;

/// Length of a particulate frame.
pub const PARTICULATE_FRAME_LEN: usize = 32;

/// First byte of every frame.
pub const SIGNATURE_HIGH: u8 = 0x42;

/// Second byte of every frame.
pub const SIGNATURE_LOW: u8 = 0x4D;

/// Delay between two reads, in milliseconds.
pub const PARTICULATE_INTERVAL_MS: u64 = 5000;

/// One measurement of the particulate sensor.
#[derive(Clone, Copy, Debug, PartialEq, Eq, Structural)]
pub struct PMSA003IReading {
    /// Mass of particles up to 1.0 um, in ug/m3.
    pub pm1_0_ug_m3: u16,
    /// Mass of particles up to 2.5 um, in ug/m3.
    pub pm2_5_ug_m3: u16,
    /// Mass of particles up to 10 um, in ug/m3.
    pub pm10_0_ug_m3: u16,
    /// Particles larger than 0.3 um in 0.1 l of air.
    pub greater_0_3_ct: u16,
    /// Particles larger than 0.5 um in 0.1 l of air.
    pub greater_0_5_ct: u16,
    /// Particles larger than 1.0 um in 0.1 l of air.
    pub greater_1_0_ct: u16,
    /// Particles larger than 2.5 um in 0.1 l of air.
    pub greater_2_5_ct: u16,
    /// Particles larger than 5.0 um in 0.1 l of air.
    pub greater_5_0_ct: u16,
    /// Particles larger than 10 um in 0.1 l of air.
    pub greater_10_0_ct: u16,
}

/// Whether `bytes` begins with the sensor's signature.
pub open spec fn signature_present(bytes: Seq<u8>) -> bool {
    bytes[0] == SIGNATURE_HIGH && bytes[1] == SIGNATURE_LOW
}

/// The field whose high byte stands at `offset`.
pub open spec fn field_at(bytes: Seq<u8>, offset: int) -> u16 {
    word_of(bytes[offset], bytes[offset + 1])
}

/// The nine fields of a frame, each taken from its place.
pub open spec fn fields_of(bytes: Seq<u8>) -> PMSA003IReading {
    PMSA003IReading {
        pm1_0_ug_m3: field_at(bytes, 0x0A),
        pm2_5_ug_m3: field_at(bytes, 0x0C),
        pm10_0_ug_m3: field_at(bytes, 0x0E),
        greater_0_3_ct: field_at(bytes, 0x10),
        greater_0_5_ct: field_at(bytes, 0x12),
        greater_1_0_ct: field_at(bytes, 0x14),
        greater_2_5_ct: field_at(bytes, 0x16),
        greater_5_0_ct: field_at(bytes, 0x18),
        greater_10_0_ct: field_at(bytes, 0x1A),
    }
}

/// What a frame decodes to: its fields where the signature is present, and
/// nothing else is examined.
pub open spec fn decode_frame(bytes: Seq<u8>) -> Result<PMSA003IReading, ProtocolError> {
    if signature_present(bytes) {
        Ok(fields_of(bytes))
    } else {
        Err(ProtocolError::BadFrameHeader)
    }
}

/// What stands in the read buffer after a transfer: the bytes that
/// arrived, as far as the buffer takes them, and zero in every place that
/// the transfer did not reach.
pub open spec fn buffer_after(received: Seq<u8>) -> Seq<u8> {
    Seq::new(
        PARTICULATE_FRAME_LEN as nat,
        |i: int|
            if i < received.len() {
                received[i]
            } else {
                0u8
            },
    )
}

fn field(bytes: &[u8; 32], offset: usize) -> (value: u16)
    requires
        offset + 1 < 32,
    ensures
        value == field_at(bytes@, offset as int),
{
    (bytes[offset] as u16) * 256 + (bytes[offset + 1] as u16)
}

impl PMSA003IReading {
    /// Decodes a frame. Only the signature is checked.
    pub fn new(bytes: &[u8; 32]) -> (result: Result<Self, ProtocolError>)
        ensures
            result == decode_frame(bytes@),
            result is Ok <==> bytes@[0] == 0x42 && bytes@[1] == 0x4D,
            result is Err ==> result == Err::<Self, ProtocolError>(ProtocolError::BadFrameHeader),
    {
        if bytes[0] != SIGNATURE_HIGH || bytes[1] != SIGNATURE_LOW {
            return Err(ProtocolError::BadFrameHeader);
        }
        Ok(
            PMSA003IReading {
                pm1_0_ug_m3: field(bytes, 0x0A),
                pm2_5_ug_m3: field(bytes, 0x0C),
                pm10_0_ug_m3: field(bytes, 0x0E),
                greater_0_3_ct: field(bytes, 0x10),
                greater_0_5_ct: field(bytes, 0x12),
                greater_1_0_ct: field(bytes, 0x14),
                greater_2_5_ct: field(bytes, 0x16),
                greater_5_0_ct: field(bytes, 0x18),
                greater_10_0_ct: field(bytes, 0x1A),
            },
        )
    }
}

/// Lays the bytes of a transfer into a fresh read buffer.
pub fn read_buffer(received: &[u8]) -> (buffer: [u8; 32])
    ensures
        buffer@ == buffer_after(received@),
{
    let mut buffer: [u8; 32] = [0u8; 32];
    let mut i: usize = 0;
    while i < PARTICULATE_FRAME_LEN && i < received.len()
        invariant
            i <= PARTICULATE_FRAME_LEN,
            i <= received.len(),
            forall|j: int| 0 <= j < i ==> buffer@[j] == received@[j],
            forall|j: int| i <= j < 32 ==> buffer@[j] == 0u8,
        decreases PARTICULATE_FRAME_LEN - i,
    {
        buffer[i] = received[i];
        i += 1;
    }
    proof {
        assert(buffer@ =~= buffer_after(received@));
    }
    buffer
}

/// Where the polling cycle of the particulate sensor stands.
#[derive(Clone, Copy, Debug, PartialEq, Eq)]
pub enum CyclePhase {
    /// A frame is being read.
    Reading,
    /// The reading is being handed to the sink.
    Publishing(PMSA003IReading),
    /// The reading is published; the next read waits for its time.
    Resting,
    /// The cycle is over.
    Closed(Option<SensorError>),
}

impl CyclePhase {
    /// What the driver has to do in this phase.
    pub open spec fn pending(self) -> Action<PMSA003IReading> {
        match self {
            CyclePhase::Reading => Action::Read(PARTICULATE_FRAME_LEN),
            CyclePhase::Publishing(reading) => Action::Publish(reading),
            CyclePhase::Resting => Action::Wait(PARTICULATE_INTERVAL_MS),
            CyclePhase::Closed(why) => Action::Halt(why),
        }
    }

    /// The phase that follows when the driver reports `event`.
    ///
    /// What a read delivered is laid into a zeroed buffer and decoded as a
    /// frame, however many bytes arrived. A read that fails, or a frame
    /// without the signature, ends the cycle. An event that does not
    /// report on the pending action changes nothing.
    pub open spec fn after(self, event: Event) -> CyclePhase {
        match self {
            CyclePhase::Reading => match event {
                Event::Received(bytes) => match decode_frame(buffer_after(bytes@)) {
                    Ok(reading) => CyclePhase::Publishing(reading),
                    Err(e) => CyclePhase::Closed(Some(SensorError::Protocol(e))),
                },
                Event::Failed(e) => CyclePhase::Closed(Some(SensorError::Io(e))),
                _ => self,
            },
            CyclePhase::Publishing(_) => match event {
                Event::Published => CyclePhase::Resting,
                _ => self,
            },
            CyclePhase::Resting => match event {
                Event::Elapsed => CyclePhase::Reading,
                _ => self,
            },
            CyclePhase::Closed(_) => self,
        }
    }

    /// The phase that follows when the cycle is to be left.
    pub open spec fn leave(self) -> CyclePhase {
        match self {
            CyclePhase::Closed(_) => self,
            _ => CyclePhase::Closed(None),
        }
    }
}

/// The polling cycle of the particulate sensor: read a frame, publish what
/// it holds, wait, and again.
pub struct ParticulateCycle {
    phase: CyclePhase,
}

impl View for ParticulateCycle {
    type V = CyclePhase;

    closed spec fn view(&self) -> CyclePhase {
        self.phase
    }
}

impl ParticulateCycle {
    /// A cycle that is about to read its first frame.
    pub fn new() -> (cycle: Self)
        ensures
            cycle@ == CyclePhase::Reading,
    {
        ParticulateCycle { phase: CyclePhase::Reading }
    }

    /// What the driver has to do now.
    pub fn pending(&self) -> (action: Action<PMSA003IReading>)
        ensures
            action == self@.pending(),
    {
        match self.phase {
            CyclePhase::Reading => Action::Read(PARTICULATE_FRAME_LEN),
            CyclePhase::Publishing(reading) => Action::Publish(reading),
            CyclePhase::Resting => Action::Wait(PARTICULATE_INTERVAL_MS),
            CyclePhase::Closed(why) => Action::Halt(why),
        }
    }

    /// Takes the driver's report on the pending action and returns what
    /// the driver has to do next.
    pub fn step(&mut self, event: Event) -> (action: Action<PMSA003IReading>)
        ensures
            final(self)@ == old(self)@.after(event),
            action == final(self)@.pending(),
    {
        let next: CyclePhase = match self.phase {
            CyclePhase::Reading => match event {
                Event::Received(bytes) => {
                    let buffer: [u8; 32] = read_buffer(bytes.as_slice());
                    match PMSA003IReading::new(&buffer) {
                        Ok(reading) => CyclePhase::Publishing(reading),
                        Err(e) => CyclePhase::Closed(Some(SensorError::Protocol(e))),
                    }
                },
                Event::Failed(e) => CyclePhase::Closed(Some(SensorError::Io(e))),
                _ => self.phase,
            },
            CyclePhase::Publishing(_) => match event {
                Event::Published => CyclePhase::Resting,
                _ => self.phase,
            },
            CyclePhase::Resting => match event {
                Event::Elapsed => CyclePhase::Reading,
                _ => self.phase,
            },
            CyclePhase::Closed(_) => self.phase,
        };
        self.phase = next;
        self.pending()
    }

    /// Leaves the cycle: nothing more is to be done.
    pub fn close(&mut self) -> (action: Action<PMSA003IReading>)
        ensures
            final(self)@ == old(self)@.leave(),
            action == final(self)@.pending(),
    {
        let next: CyclePhase = match self.phase {
            CyclePhase::Closed(_) => self.phase,
            _ => CyclePhase::Closed(None),
        };
        self.phase = next;
        self.pending()
    }
}

/// The phase of a new cycle after the driver has reported `events`, one
/// after the other.
pub open spec fn run_cycle(events: Seq<Event>) -> CyclePhase
    decreases events.len(),
{
    if events.len() == 0 {
        CyclePhase::Reading
    } else {
        run_cycle(events.drop_last()).after(events.last())
    }
}

/// Nothing is published that was not received. Whenever a reading is to
/// be published, it holds the fields of the latest read, and what that
/// read left in the buffer began with the signature; the lemma returns the
/// place of its report.
pub proof fn lemma_published_frame_was_received(events: Seq<Event>) -> (at: int)
    requires
        run_cycle(events).pending() is Publish,
    ensures
        0 <= at < events.len(),
        run_cycle(events.take(at)).pending() == Action::<PMSA003IReading>::Read(
            PARTICULATE_FRAME_LEN,
        ),
        events[at] matches Event::Received(bytes) && signature_present(buffer_after(bytes@))
            && run_cycle(events).pending()->Publish_0 == fields_of(buffer_after(bytes@)),
        forall|k: int|
            at < k <= events.len() ==> #[trigger] run_cycle(events.take(k)) == run_cycle(events),
    decreases events.len(),
{
    let earlier = events.drop_last();
    let last = events.len() - 1;
    assert(events.take(last) =~= earlier);
    assert(events.take(events.len() as int) =~= events);
    if run_cycle(earlier) == run_cycle(events) {
        let at = lemma_published_frame_was_received(earlier);
        assert forall|k: int| 0 <= k < last implies #[trigger] events.take(k) == earlier.take(
            k,
        ) by {
            assert(events.take(k) =~= earlier.take(k));
        }
        at
    } else {
        last
    }
}

/// A cycle that is over stays over, with its reason, whatever the driver
/// reports.
pub proof fn lemma_cycle_closed_stays_closed(events: Seq<Event>, more: Seq<Event>)
    requires
        run_cycle(events) is Closed,
    ensures
        run_cycle(events + more) == run_cycle(events),
    decreases more.len(),
{
    if more.len() == 0 {
        assert(events + more =~= events);
    } else {
        lemma_cycle_closed_stays_closed(events, more.drop_last());
        assert((events + more).drop_last() =~= events + more.drop_last());
    }
}

} // verus!
