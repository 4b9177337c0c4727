//! The session with the CO2 sensor.
//!
//! A session stops whatever measurement the sensor was left in, starts
//! periodic measurement, and from then on reads one measurement per
//! period. Between these steps the sensor needs time; the session names
//! every delay and never asks for a read that the sensor is not ready for.

use vstd::prelude::*;
use crate::co2::{
    decode_measurement, measurement_of, CO2Reading, COMMAND_LATENCY_MS, MEASUREMENT_INTERVAL_MS,
    MEASUREMENT_LEN, START_SETTLE_MS, STOP_SETTLE_MS,
};
use crate::driver::{Action, Event};
use crate::error::{ProtocolError, SensorError};
use crate::frame::{check_written, Opcode, GROUP_LEN};

verus! {

/// Where a session stands.
#[derive(Clone, Copy, Debug, PartialEq, Eq, Structural)]
pub enum SessionState {
    /// `Stop` has not been sent yet.
    Uninitialized,
    /// `Stop` is sent; `Start` is not.
    Stopping,
    /// `Start` is sent and the sensor is taking its first measurement.
    Starting,
    /// The sensor measures periodically and can be read.
    Ready,
    /// The session is over.
    Closed,
}

/// Where a session stands, to the step.
#[derive(Clone, Copy, Debug, PartialEq, Eq)]
pub enum Phase {
    /// `Stop` is being written.
    SendingStop,
    /// `Stop` is written; the sensor settles.
    SettlingStop,
    /// `Start` is being written.
    SendingStart,
    /// `Start` is written; the sensor settles.
    SettlingStart,
    /// `ReadMeasurement` is being written.
    SendingRead,
    /// `ReadMeasurement` is written; the sensor prepares its answer.
    AwaitingMeasurement,
    /// The measurement is being read.
    Reading,
    /// The measurement is being handed to the sink.
    Publishing(CO2Reading),
    /// The measurement is published; the sensor takes the next one.
    Resting,
    /// The session is being left: a last `Stop` is being written.
    Closing(Option<SensorError>),
    /// The session is over.
    Closed(Option<SensorError>),
}

impl Phase {
    /// The state that the phase belongs to.
    pub open spec fn state(self) -> SessionState {
        match self {
            Phase::SendingStop => SessionState::Uninitialized,
            Phase::SettlingStop => SessionState::Stopping,
            Phase::SendingStart => SessionState::Stopping,
            Phase::SettlingStart => SessionState::Starting,
            Phase::SendingRead => SessionState::Ready,
            Phase::AwaitingMeasurement => SessionState::Ready,
            Phase::Reading => SessionState::Ready,
            Phase::Publishing(_) => SessionState::Ready,
            Phase::Resting => SessionState::Ready,
            Phase::Closing(_) => SessionState::Closed,
            Phase::Closed(_) => SessionState::Closed,
        }
    }

    /// What the driver has to do in this phase.
    pub open spec fn pending(self) -> Action<CO2Reading> {
        match self {
            Phase::SendingStop => Action::Send(Opcode::Stop),
            Phase::SettlingStop => Action::Wait(STOP_SETTLE_MS),
            Phase::SendingStart => Action::Send(Opcode::Start),
            Phase::SettlingStart => Action::Wait(START_SETTLE_MS),
            Phase::SendingRead => Action::Send(Opcode::ReadMeasurement),
            Phase::AwaitingMeasurement => Action::Wait(COMMAND_LATENCY_MS),
            Phase::Reading => Action::Read(MEASUREMENT_LEN),
            Phase::Publishing(reading) => Action::Publish(reading),
            Phase::Resting => Action::Wait(MEASUREMENT_INTERVAL_MS),
            Phase::Closing(_) => Action::Send(Opcode::Stop),
            Phase::Closed(why) => Action::Halt(why),
        }
    }

    /// Whether `event` reports on the action that is pending in this
    /// phase.
    pub open spec fn answered_by(self, event: Event) -> bool {
        match self.pending() {
            Action::Send(_) => event is Written || event is Failed,
            Action::Wait(_) => event is Elapsed,
            Action::Read(_) => event is Received || event is Failed,
            Action::Publish(_) => event is Published,
            Action::Halt(_) => false,
        }
    }

    /// The phase that follows when the driver reports `event`.
    ///
    /// While the session is being set up, a command that the transport did
    /// not take whole ends it. Once the session is ready, the outcome of
    /// writing `ReadMeasurement` is not looked at, since a command that
    /// did not arrive shows in the read that follows; a read that fails or
    /// does not decode ends the session, after a last `Stop`, whose own
    /// outcome is not looked at either. An event that does not report on
    /// the pending action changes nothing.
    pub open spec fn after(self, event: Event) -> Phase {
        match self {
            Phase::SendingStop => match event {
                Event::Written(accepted) => if accepted == GROUP_LEN {
                    Phase::SettlingStop
                } else {
                    Phase::Closed(Some(SensorError::Protocol(ProtocolError::ShortWrite)))
                },
                Event::Failed(e) => Phase::Closed(Some(SensorError::Io(e))),
                _ => self,
            },
            Phase::SettlingStop => match event {
                Event::Elapsed => Phase::SendingStart,
                _ => self,
            },
            Phase::SendingStart => match event {
                Event::Written(accepted) => if accepted == GROUP_LEN {
                    Phase::SettlingStart
                } else {
                    Phase::Closed(Some(SensorError::Protocol(ProtocolError::ShortWrite)))
                },
                Event::Failed(e) => Phase::Closed(Some(SensorError::Io(e))),
                _ => self,
            },
            Phase::SettlingStart => match event {
                Event::Elapsed => Phase::SendingRead,
                _ => self,
            },
            Phase::SendingRead => match event {
                Event::Written(_) => Phase::AwaitingMeasurement,
                Event::Failed(_) => Phase::AwaitingMeasurement,
                _ => self,
            },
            Phase::AwaitingMeasurement => match event {
                Event::Elapsed => Phase::Reading,
                _ => self,
            },
            Phase::Reading => match event {
                Event::Received(bytes) => match measurement_of(bytes@) {
                    Ok(reading) => Phase::Publishing(reading),
                    Err(e) => Phase::Closing(Some(SensorError::Protocol(e))),
                },
                Event::Failed(e) => Phase::Closing(Some(SensorError::Io(e))),
                _ => self,
            },
            Phase::Publishing(_) => match event {
                Event::Published => Phase::Resting,
                _ => self,
            },
            Phase::Resting => match event {
                Event::Elapsed => Phase::SendingRead,
                _ => self,
            },
            Phase::Closing(why) => match event {
                Event::Written(_) => Phase::Closed(why),
                Event::Failed(_) => Phase::Closed(why),
                _ => self,
            },
            Phase::Closed(_) => self,
        }
    }

    /// The phase that follows when the session is to be left. A ready
    /// session sends a last `Stop`; one that never got ready has nothing
    /// to stop; one that is over stays as it is.
    pub open spec fn leave(self) -> Phase {
        match self.state() {
            SessionState::Ready => Phase::Closing(None),
            SessionState::Closed => self,
            _ => Phase::Closed(None),
        }
    }
}

/// A session with the CO2 sensor.
pub struct SCD40Session {
    phase: Phase,
}

impl View for SCD40Session {
    type V = Phase;

    closed spec fn view(&self) -> Phase {
        self.phase
    }
}

impl SCD40Session {
    /// A session that has done nothing yet. Its first action is to send
    /// `Stop`.
    pub fn new() -> (session: Self)
        ensures
            session@ == Phase::SendingStop,
    {
        SCD40Session { phase: Phase::SendingStop }
    }

    /// Where the session stands.
    pub fn state(&self) -> (state: SessionState)
        ensures
            state == self@.state(),
    {
        match self.phase {
            Phase::SendingStop => SessionState::Uninitialized,
            Phase::SettlingStop | Phase::SendingStart => SessionState::Stopping,
            Phase::SettlingStart => SessionState::Starting,
            Phase::SendingRead
            | Phase::AwaitingMeasurement
            | Phase::Reading
            | Phase::Publishing(_)
            | Phase::Resting => SessionState::Ready,
            Phase::Closing(_) | Phase::Closed(_) => SessionState::Closed,
        }
    }

    /// What the driver has to do now.
    pub fn pending(&self) -> (action: Action<CO2Reading>)
        ensures
            action == self@.pending(),
    {
        match self.phase {
            Phase::SendingStop => Action::Send(Opcode::Stop),
            Phase::SettlingStop => Action::Wait(STOP_SETTLE_MS),
            Phase::SendingStart => Action::Send(Opcode::Start),
            Phase::SettlingStart => Action::Wait(START_SETTLE_MS),
            Phase::SendingRead => Action::Send(Opcode::ReadMeasurement),
            Phase::AwaitingMeasurement => Action::Wait(COMMAND_LATENCY_MS),
            Phase::Reading => Action::Read(MEASUREMENT_LEN),
            Phase::Publishing(reading) => Action::Publish(reading),
            Phase::Resting => Action::Wait(MEASUREMENT_INTERVAL_MS),
            Phase::Closing(_) => Action::Send(Opcode::Stop),
            Phase::Closed(why) => Action::Halt(why),
        }
    }

    /// Takes the driver's report on the pending action and returns what
    /// the driver has to do next.
    pub fn step(&mut self, event: Event) -> (action: Action<CO2Reading>)
        ensures
            final(self)@ == old(self)@.after(event),
            action == final(self)@.pending(),
    {
        let next: Phase = match self.phase {
            Phase::SendingStop => match event {
                Event::Written(accepted) => match check_written(accepted) {
                    Ok(()) => Phase::SettlingStop,
                    Err(e) => Phase::Closed(Some(SensorError::Protocol(e))),
                },
                Event::Failed(e) => Phase::Closed(Some(SensorError::Io(e))),
                _ => self.phase,
            },
            Phase::SettlingStop => match event {
                Event::Elapsed => Phase::SendingStart,
                _ => self.phase,
            },
            Phase::SendingStart => match event {
                Event::Written(accepted) => match check_written(accepted) {
                    Ok(()) => Phase::SettlingStart,
                    Err(e) => Phase::Closed(Some(SensorError::Protocol(e))),
                },
                Event::Failed(e) => Phase::Closed(Some(SensorError::Io(e))),
                _ => self.phase,
            },
            Phase::SettlingStart => match event {
                Event::Elapsed => Phase::SendingRead,
                _ => self.phase,
            },
            Phase::SendingRead => match event {
                Event::Written(_) | Event::Failed(_) => Phase::AwaitingMeasurement,
                _ => self.phase,
            },
            Phase::AwaitingMeasurement => match event {
                Event::Elapsed => Phase::Reading,
                _ => self.phase,
            },
            Phase::Reading => match event {
                Event::Received(bytes) => match decode_measurement(bytes.as_slice()) {
                    Ok(reading) => Phase::Publishing(reading),
                    Err(e) => Phase::Closing(Some(SensorError::Protocol(e))),
                },
                Event::Failed(e) => Phase::Closing(Some(SensorError::Io(e))),
                _ => self.phase,
            },
            Phase::Publishing(_) => match event {
                Event::Published => Phase::Resting,
                _ => self.phase,
            },
            Phase::Resting => match event {
                Event::Elapsed => Phase::SendingRead,
                _ => self.phase,
            },
            Phase::Closing(why) => match event {
                Event::Written(_) | Event::Failed(_) => Phase::Closed(why),
                _ => self.phase,
            },
            Phase::Closed(_) => self.phase,
        };
        self.phase = next;
        self.pending()
    }

    /// Leaves the session and returns what the driver has to do next: to
    /// send a last `Stop` where the session was ready, else nothing more.
    pub fn close(&mut self) -> (action: Action<CO2Reading>)
        ensures
            final(self)@ == old(self)@.leave(),
            action == final(self)@.pending(),
    {
        let next: Phase = match self.state() {
            SessionState::Ready => Phase::Closing(None),
            SessionState::Closed => self.phase,
            _ => Phase::Closed(None),
        };
        self.phase = next;
        self.pending()
    }
}

/// The phase of a new session after the driver has reported `events`, one
/// after the other.
pub open spec fn run(events: Seq<Event>) -> Phase
    decreases events.len(),
{
    if events.len() == 0 {
        Phase::SendingStop
    } else {
        run(events.drop_last()).after(events.last())
    }
}

/// Whether report number `at` of `events` was `event`, and found the
/// session in `state` with `action` pending.
pub open spec fn answered_at(
    events: Seq<Event>,
    at: int,
    state: SessionState,
    action: Action<CO2Reading>,
    event: Event,
) -> bool {
    let phase = run(events.take(at));
    &&& 0 <= at < events.len()
    &&& phase.state() == state
    &&& phase.pending() == action
    &&& events[at] == event
}

/// What a failed write is reported as.
pub open spec fn failure_of(event: Event) -> SensorError {
    match event {
        Event::Failed(e) => SensorError::Io(e),
        _ => SensorError::Protocol(ProtocolError::ShortWrite),
    }
}

spec fn stage(phase: Phase) -> int {
    match phase {
        Phase::SendingStop => 0,
        Phase::SettlingStop => 1,
        Phase::SendingStart => 2,
        Phase::SettlingStart => 3,
        Phase::Closing(_) => 0,
        Phase::Closed(_) => 0,
        _ => 4,
    }
}

spec fn met(events: Seq<Event>, at: int, phase: Phase, event: Event) -> bool {
    0 <= at < events.len() && run(events.take(at)) == phase && events[at] == event
}

proof fn lemma_set_up_so_far(events: Seq<Event>) -> (at: (int, int, int, int))
    ensures
        stage(run(events)) >= 1 ==> met(events, at.0, Phase::SendingStop, Event::Written(GROUP_LEN)),
        stage(run(events)) >= 2 ==> at.0 < at.1 && met(
            events,
            at.1,
            Phase::SettlingStop,
            Event::Elapsed,
        ),
        stage(run(events)) >= 3 ==> at.1 < at.2 && met(
            events,
            at.2,
            Phase::SendingStart,
            Event::Written(GROUP_LEN),
        ),
        stage(run(events)) >= 4 ==> at.2 < at.3 && met(
            events,
            at.3,
            Phase::SettlingStart,
            Event::Elapsed,
        ),
    decreases events.len(),
{
    if events.len() == 0 {
        (0, 0, 0, 0)
    } else {
        let earlier = events.drop_last();
        let last = events.len() - 1;
        let before = lemma_set_up_so_far(earlier);
        assert(events.take(last) =~= earlier);
        assert forall|k: int| 0 <= k < last implies #[trigger] events.take(k) == earlier.take(
            k,
        ) by {
            assert(events.take(k) =~= earlier.take(k));
        }
        let reached = stage(run(events));
        if reached == stage(run(earlier)) + 1 {
            if reached == 1 {
                (last, 0, 0, 0)
            } else if reached == 2 {
                (before.0, last, 0, 0)
            } else if reached == 3 {
                (before.0, before.1, last, 0)
            } else {
                (before.0, before.1, before.2, last)
            }
        } else {
            before
        }
    }
}

/// A session is set up in one order. Whatever the driver reports, and
/// wherever the session stands:
/// once it has left `Uninitialized` and is not over, `Stop` was sent and
/// taken whole by the transport;
/// once `Start` is to be sent, or was, the delay after `Stop` has passed
/// since;
/// once it is `Starting` or `Ready`, `Start` was sent after that and taken
/// whole;
/// once it is `Ready`, the delay after `Start` has passed since.
/// The lemma returns the places of these four reports.
pub proof fn lemma_set_up_in_order(events: Seq<Event>) -> (at: (int, int, int, int))
    ensures
        run(events).state() == SessionState::Stopping || run(events).state()
            == SessionState::Starting || run(events).state() == SessionState::Ready
            ==> answered_at(
            events,
            at.0,
            SessionState::Uninitialized,
            Action::Send(Opcode::Stop),
            Event::Written(GROUP_LEN),
        ),
        run(events).pending() == Action::<CO2Reading>::Send(Opcode::Start) || run(events).state()
            == SessionState::Starting || run(events).state() == SessionState::Ready ==> at.0
            < at.1 && answered_at(
            events,
            at.1,
            SessionState::Stopping,
            Action::Wait(STOP_SETTLE_MS),
            Event::Elapsed,
        ),
        run(events).state() == SessionState::Starting || run(events).state()
            == SessionState::Ready ==> at.1 < at.2 && answered_at(
            events,
            at.2,
            SessionState::Stopping,
            Action::Send(Opcode::Start),
            Event::Written(GROUP_LEN),
        ),
        run(events).state() == SessionState::Ready ==> at.2 < at.3 && answered_at(
            events,
            at.3,
            SessionState::Starting,
            Action::Wait(START_SETTLE_MS),
            Event::Elapsed,
        ),
{
    lemma_set_up_so_far(events)
}

/// A session gets ready in one way only. When the session is ready then
/// `Stop` was sent first and taken whole by the transport, the delay
/// after `Stop` passed, only then `Start` was sent and taken whole, and
/// the delay after `Start` passed: four reports, in this order, whose
/// places the lemma returns.
pub proof fn lemma_ready_only_after_set_up(events: Seq<Event>) -> (at: (int, int, int, int))
    requires
        run(events).state() == SessionState::Ready,
    ensures
        at.0 < at.1 < at.2 < at.3,
        answered_at(
            events,
            at.0,
            SessionState::Uninitialized,
            Action::Send(Opcode::Stop),
            Event::Written(GROUP_LEN),
        ),
        answered_at(
            events,
            at.1,
            SessionState::Stopping,
            Action::Wait(STOP_SETTLE_MS),
            Event::Elapsed,
        ),
        answered_at(
            events,
            at.2,
            SessionState::Stopping,
            Action::Send(Opcode::Start),
            Event::Written(GROUP_LEN),
        ),
        answered_at(
            events,
            at.3,
            SessionState::Starting,
            Action::Wait(START_SETTLE_MS),
            Event::Elapsed,
        ),
{
    lemma_set_up_in_order(events)
}

/// A session that is over stays over, whatever the driver reports.
pub proof fn lemma_closed_stays_closed(events: Seq<Event>, more: Seq<Event>)
    requires
        run(events).state() == SessionState::Closed,
    ensures
        run(events + more).state() == SessionState::Closed,
        run(events) is Closed ==> run(events + more) == run(events),
    decreases more.len(),
{
    if more.len() == 0 {
        assert(events + more =~= events);
    } else {
        lemma_closed_stays_closed(events, more.drop_last());
        assert((events + more).drop_last() =~= events + more.drop_last());
    }
}

/// A write that fails while the session is set up keeps it from ever
/// getting ready. When `Stop` or `Start` is not taken whole by the
/// transport, or the transport fails, the session is over from that report
/// on, with that failure as its reason.
pub proof fn lemma_failed_write_ends_set_up(events: Seq<Event>, at: int)
    requires
        0 <= at < events.len(),
        run(events.take(at)).state() == SessionState::Uninitialized || run(
            events.take(at),
        ).state() == SessionState::Stopping,
        run(events.take(at)).pending() is Send,
        events[at].is_failed_write(),
    ensures
        run(events) == Phase::Closed(Some(failure_of(events[at]))),
        run(events).state() != SessionState::Ready,
{
    let upto = events.take(at + 1);
    assert(upto.drop_last() =~= events.take(at));
    assert(upto.last() == events[at]);
    assert(run(upto) == Phase::Closed(Some(failure_of(events[at]))));
    lemma_closed_stays_closed(upto, events.skip(at + 1));
    assert(upto + events.skip(at + 1) =~= events);
}

/// Nothing is read from a sensor that is not ready: whenever the pending
/// action is to send `ReadMeasurement`, to read, or to publish, the
/// session is ready.
pub proof fn lemma_reads_only_when_ready(phase: Phase)
    requires
        phase.pending() == Action::<CO2Reading>::Send(Opcode::ReadMeasurement)
            || phase.pending() is Read || phase.pending() is Publish,
    ensures
        phase.state() == SessionState::Ready,
{
}

/// Leaving a session twice is leaving it once, and a session that was
/// left is closed.
pub proof fn lemma_leave_is_final(phase: Phase)
    ensures
        phase.leave().state() == SessionState::Closed,
        phase.leave().leave() == phase.leave(),
        phase.leave().pending() == Action::<CO2Reading>::Send(Opcode::Stop) <==> phase.state()
            == SessionState::Ready || phase is Closing,
{
}

/// Whether a session in state `from` can be in state `to` one step later:
/// it stays, or it moves on by one state, or it is over.
pub open spec fn may_follow(from: SessionState, to: SessionState) -> bool {
    ||| to == from
    ||| from == SessionState::Uninitialized && to == SessionState::Stopping
    ||| from == SessionState::Stopping && to == SessionState::Starting
    ||| from == SessionState::Starting && to == SessionState::Ready
    ||| to == SessionState::Closed
}

/// The states are passed in their order. No report and no leaving takes a
/// session back, or past a state; what is closed stays closed.
pub proof fn lemma_states_follow_in_order(phase: Phase, event: Event)
    ensures
        may_follow(phase.state(), phase.after(event).state()),
        may_follow(phase.state(), phase.leave().state()),
        phase.state() == SessionState::Closed ==> phase.after(event).state()
            == SessionState::Closed,
{
}

/// A report that does not answer the pending action changes nothing: the
/// session stays where it is, and the same action stays pending.
pub proof fn lemma_unanswered_report_changes_nothing(phase: Phase, event: Event)
    requires
        !phase.answered_by(event),
    ensures
        phase.after(event) == phase,
{
}

/// A read answers a command. Whenever a read is pending, the last report
/// that changed anything said that the command latency had passed, and the
/// last one before it reported on sending `ReadMeasurement`; the lemma
/// returns their places.
pub proof fn lemma_read_follows_command(events: Seq<Event>) -> (at: (int, int))
    requires
        run(events).pending() is Read,
    ensures
        0 <= at.0 < at.1 < events.len(),
        run(events.take(at.0)).pending() == Action::<CO2Reading>::Send(Opcode::ReadMeasurement),
        events[at.0] is Written || events[at.0] is Failed,
        forall|k: int| at.0 < k <= at.1 ==> (#[trigger] run(events.take(k))).pending()
            == Action::<CO2Reading>::Wait(COMMAND_LATENCY_MS),
        events[at.1] is Elapsed,
        forall|k: int| at.1 < k <= events.len() ==> (#[trigger] run(events.take(k))).pending()
            == Action::<CO2Reading>::Read(MEASUREMENT_LEN),
{
    lemma_command_so_far(events)
}

proof fn lemma_command_so_far(events: Seq<Event>) -> (at: (int, int))
    ensures
        run(events) == Phase::AwaitingMeasurement || run(events) == Phase::Reading ==> 0 <= at.0
            < events.len(),
        run(events) == Phase::AwaitingMeasurement || run(events) == Phase::Reading ==> run(
            events.take(at.0),
        ) == Phase::SendingRead,
        run(events) == Phase::AwaitingMeasurement || run(events) == Phase::Reading
            ==> events[at.0] is Written || events[at.0] is Failed,
        run(events) == Phase::AwaitingMeasurement ==> forall|k: int|
            at.0 < k <= events.len() ==> #[trigger] run(events.take(k))
                == Phase::AwaitingMeasurement,
        run(events) == Phase::Reading ==> at.0 < at.1 < events.len(),
        run(events) == Phase::Reading ==> events[at.1] is Elapsed,
        run(events) == Phase::Reading ==> forall|k: int|
            at.0 < k <= at.1 ==> #[trigger] run(events.take(k)) == Phase::AwaitingMeasurement,
        run(events) == Phase::Reading ==> forall|k: int|
            at.1 < k <= events.len() ==> #[trigger] run(events.take(k)) == Phase::Reading,
    decreases events.len(),
{
    if events.len() == 0 {
        (0, 0)
    } else {
        let earlier = events.drop_last();
        let last = events.len() - 1;
        let before = lemma_command_so_far(earlier);
        assert(events.take(last) =~= earlier);
        assert(events.take(events.len() as int) =~= events);
        assert forall|k: int| 0 <= k < last implies #[trigger] events.take(k) == earlier.take(
            k,
        ) by {
            assert(events.take(k) =~= earlier.take(k));
        }
        if run(earlier) == Phase::SendingRead {
            (last, 0)
        } else if run(earlier) == Phase::AwaitingMeasurement && run(events) == Phase::Reading {
            (before.0, last)
        } else {
            before
        }
    }
}

/// Nothing is published that was not received. Whenever a reading is to
/// be published, it is what the latest read delivered, and that response
/// had the right length and passed every checksum; the lemma returns the
/// place of its report.
pub proof fn lemma_published_reading_was_received(events: Seq<Event>) -> (at: int)
    requires
        run(events).pending() is Publish,
    ensures
        0 <= at < events.len(),
        run(events.take(at)).pending() == Action::<CO2Reading>::Read(MEASUREMENT_LEN),
        events[at] matches Event::Received(bytes) && measurement_of(bytes@) == Ok::<
            CO2Reading,
            ProtocolError,
        >(run(events).pending()->Publish_0),
        forall|k: int| at < k <= events.len() ==> #[trigger] run(events.take(k)) == run(events),
    decreases events.len(),
{
    let earlier = events.drop_last();
    let last = events.len() - 1;
    assert(events.take(last) =~= earlier);
    assert(events.take(events.len() as int) =~= events);
    if run(earlier) == run(events) {
        let at = lemma_published_reading_was_received(earlier);
        assert forall|k: int| 0 <= k < last implies #[trigger] events.take(k) == earlier.take(
            k,
        ) by {
            assert(events.take(k) =~= earlier.take(k));
        }
        at
    } else {
        last
    }
}

} // verus!
