use sensor_bus::driver::{Action, Event};
use sensor_bus::error::{IoError, ProtocolError, SensorError};
use sensor_bus::particulate::{
    read_buffer, PMSA003IReading, ParticulateCycle, PARTICULATE_FRAME_LEN,
    PARTICULATE_INTERVAL_MS, PMSA003I_ADDRESS, SIGNATURE_HIGH, SIGNATURE_LOW,
};

fn frame_with(fields: [u16; 9]) -> [u8; 32] {
    let mut bytes = [0u8; 32];
    bytes[0] = 0x42;
    bytes[1] = 0x4D;
    for (i, value) in fields.iter().enumerate() {
        bytes[0x0A + 2 * i] = (value >> 8) as u8;
        bytes[0x0A + 2 * i + 1] = (value & 0xFF) as u8;
    }
    bytes
}

#[test]
fn particulate_constants() {
    assert_eq!(PMSA003I_ADDRESS, 0x12);
    assert_eq!(PARTICULATE_FRAME_LEN, 32);
    assert_eq!(PARTICULATE_INTERVAL_MS, 5000);
    assert_eq!(SIGNATURE_HIGH, 0x42);
    assert_eq!(SIGNATURE_LOW, 0x4D);
}

#[test]
fn pm2_5_is_taken_from_its_offset() {
    let mut bytes = [0u8; 32];
    bytes[0] = 0x42;
    bytes[1] = 0x4D;
    bytes[0x0C] = 0x00;
    bytes[0x0D] = 0x0A;
    let reading = PMSA003IReading::new(&bytes).unwrap();
    assert_eq!(reading.pm2_5_ug_m3, 10);
    assert_eq!(reading.pm1_0_ug_m3, 0);
    assert_eq!(reading.pm10_0_ug_m3, 0);
}

#[test]
fn every_field_is_taken_from_its_offset() {
    let bytes = frame_with([
        0x0102, 0x0304, 0x0506, 0x0708, 0x090A, 0x0B0C, 0x0D0E, 0x0F10, 0x1112,
    ]);
    assert_eq!(
        PMSA003IReading::new(&bytes),
        Ok(PMSA003IReading {
            pm1_0_ug_m3: 0x0102,
            pm2_5_ug_m3: 0x0304,
            pm10_0_ug_m3: 0x0506,
            greater_0_3_ct: 0x0708,
            greater_0_5_ct: 0x090A,
            greater_1_0_ct: 0x0B0C,
            greater_2_5_ct: 0x0D0E,
            greater_5_0_ct: 0x0F10,
            greater_10_0_ct: 0x1112,
        })
    );
}

#[test]
fn fields_are_big_endian() {
    let mut bytes = [0u8; 32];
    bytes[0] = 0x42;
    bytes[1] = 0x4D;
    bytes[0x0A] = 0xFF;
    bytes[0x0B] = 0x00;
    bytes[0x1A] = 0x00;
    bytes[0x1B] = 0xFF;
    let reading = PMSA003IReading::new(&bytes).unwrap();
    assert_eq!(reading.pm1_0_ug_m3, 0xFF00);
    assert_eq!(reading.greater_10_0_ct, 0x00FF);
}

#[test]
fn bytes_outside_the_fields_do_not_matter() {
    let plain = frame_with([1, 2, 3, 4, 5, 6, 7, 8, 9]);
    let mut noisy = plain;
    for at in (2..0x0A).chain(0x1C..32) {
        noisy[at] = 0xA5;
    }
    assert_eq!(PMSA003IReading::new(&noisy), PMSA003IReading::new(&plain));
    assert_eq!(PMSA003IReading::new(&noisy).unwrap().greater_10_0_ct, 9);
}

#[test]
fn any_other_signature_is_a_bad_header() {
    for first in 0..=255u8 {
        for second in 0..=255u8 {
            let mut bytes = frame_with([1, 2, 3, 4, 5, 6, 7, 8, 9]);
            bytes[0] = first;
            bytes[1] = second;
            let result = PMSA003IReading::new(&bytes);
            if first == 0x42 && second == 0x4D {
                assert!(result.is_ok());
            } else {
                assert_eq!(result, Err(ProtocolError::BadFrameHeader));
            }
        }
    }
}

#[test]
fn zeroed_frame_is_a_bad_header() {
    assert_eq!(PMSA003IReading::new(&[0u8; 32]), Err(ProtocolError::BadFrameHeader));
}

#[test]
fn read_buffer_of_a_whole_frame() {
    let bytes = frame_with([1, 2, 3, 4, 5, 6, 7, 8, 9]);
    assert_eq!(read_buffer(&bytes), bytes);
}

#[test]
fn read_buffer_is_zero_where_nothing_arrived() {
    let buffer = read_buffer(&[0x42, 0x4D, 0x07]);
    let mut expected = [0u8; 32];
    expected[0] = 0x42;
    expected[1] = 0x4D;
    expected[2] = 0x07;
    assert_eq!(buffer, expected);
    assert_eq!(read_buffer(&[]), [0u8; 32]);
}

#[test]
fn read_buffer_takes_no_more_than_a_frame() {
    let mut long: Vec<u8> = Vec::new();
    for i in 0..40u8 {
        long.push(i + 1);
    }
    let buffer = read_buffer(&long);
    assert_eq!(&buffer[..], &long[..32]);
}

#[test]
fn cycle_reads_publishes_and_waits() {
    let mut cycle = ParticulateCycle::new();
    assert_eq!(cycle.pending(), Action::Read(32));
    let bytes = frame_with([1, 10, 3, 4, 5, 6, 7, 8, 9]);
    let expected = PMSA003IReading::new(&bytes).unwrap();
    assert_eq!(cycle.step(Event::Received(bytes.to_vec())), Action::Publish(expected));
    assert_eq!(cycle.pending(), Action::Publish(expected));
    assert_eq!(cycle.step(Event::Published), Action::Wait(5000));
    assert_eq!(cycle.step(Event::Elapsed), Action::Read(32));
    assert_eq!(cycle.step(Event::Received(bytes.to_vec())), Action::Publish(expected));
}

#[test]
fn cycle_ends_on_a_bad_header() {
    let mut cycle = ParticulateCycle::new();
    let mut bytes = frame_with([1, 2, 3, 4, 5, 6, 7, 8, 9]);
    bytes[1] = 0x4E;
    let halt = Action::Halt(Some(SensorError::Protocol(ProtocolError::BadFrameHeader)));
    assert_eq!(cycle.step(Event::Received(bytes.to_vec())), halt);
    assert_eq!(cycle.step(Event::Elapsed), halt);
    assert_eq!(cycle.step(Event::Received(frame_with([0; 9]).to_vec())), halt);
    assert_eq!(cycle.close(), halt);
}

#[test]
fn cycle_ends_on_a_failed_read() {
    let mut cycle = ParticulateCycle::new();
    let halt = Action::Halt(Some(SensorError::Io(IoError { code: 5 })));
    assert_eq!(cycle.step(Event::Failed(IoError { code: 5 })), halt);
    assert_eq!(cycle.pending(), halt);
}

#[test]
fn cycle_decodes_a_short_read_from_a_zeroed_buffer() {
    let mut cycle = ParticulateCycle::new();
    let bytes = frame_with([7, 10, 3, 4, 5, 6, 7, 8, 9]);
    let expected = PMSA003IReading {
        pm1_0_ug_m3: 7,
        pm2_5_ug_m3: 10,
        pm10_0_ug_m3: 0,
        greater_0_3_ct: 0,
        greater_0_5_ct: 0,
        greater_1_0_ct: 0,
        greater_2_5_ct: 0,
        greater_5_0_ct: 0,
        greater_10_0_ct: 0,
    };
    assert_eq!(cycle.step(Event::Received(bytes[..0x0E].to_vec())), Action::Publish(expected));
}

#[test]
fn cycle_ends_when_nothing_arrived() {
    let mut cycle = ParticulateCycle::new();
    assert_eq!(
        cycle.step(Event::Received(Vec::new())),
        Action::Halt(Some(SensorError::Protocol(ProtocolError::BadFrameHeader)))
    );
}

#[test]
fn cycle_ignores_reports_that_answer_nothing() {
    let mut cycle = ParticulateCycle::new();
    assert_eq!(cycle.step(Event::Elapsed), Action::Read(32));
    assert_eq!(cycle.step(Event::Published), Action::Read(32));
    assert_eq!(cycle.step(Event::Written(3)), Action::Read(32));
    let bytes = frame_with([1, 2, 3, 4, 5, 6, 7, 8, 9]);
    let expected = PMSA003IReading::new(&bytes).unwrap();
    cycle.step(Event::Received(bytes.to_vec()));
    assert_eq!(cycle.step(Event::Elapsed), Action::Publish(expected));
    assert_eq!(cycle.step(Event::Failed(IoError { code: 1 })), Action::Publish(expected));
    assert_eq!(cycle.step(Event::Published), Action::Wait(5000));
    assert_eq!(cycle.step(Event::Published), Action::Wait(5000));
    assert_eq!(cycle.step(Event::Received(bytes.to_vec())), Action::Wait(5000));
}

#[test]
fn cycle_that_is_closed_has_nothing_more_to_do() {
    let mut cycle = ParticulateCycle::new();
    assert_eq!(cycle.close(), Action::Halt(None));
    assert_eq!(cycle.close(), Action::Halt(None));
    assert_eq!(cycle.step(Event::Elapsed), Action::Halt(None));
    assert_eq!(cycle.pending(), Action::Halt(None));
}
