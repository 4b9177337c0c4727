//! Command frames and checksummed words of the CO2 sensor.
//!
//! Everything the sensor sends or receives is made of three-byte groups: a
//! 16-bit word, high byte first, followed by the checksum of its two bytes.

use vstd::prelude::*;
use crate::checksum::{crc8, lemma_crc8_detects_byte_change, sensirion_common_generate_crc};
use crate::error::ProtocolError;

verus! {

/// Length of one group on the wire: two payload bytes and their checksum.
pub const GROUP_LEN: usize = 3;

/// The commands that the CO2 sensor is sent.
#[derive(Clone, Copy, Debug, PartialEq, Eq, Structural)]
pub enum Opcode {
    /// Leave periodic measurement.
    Stop,
    /// Enter periodic measurement.
    Start,
    /// Hand out the latest measurement.
    ReadMeasurement,
}

/// The more significant byte of a word.
pub open spec fn high_byte(word: u16) -> u8 {
    (word / 256) as u8
}

/// The less significant byte of a word.
pub open spec fn low_byte(word: u16) -> u8 {
    (word % 256) as u8
}

/// The word whose bytes, high byte first, are `hi` and `lo`.
pub open spec fn word_of(hi: u8, lo: u8) -> u16 {
    (hi * 256 + lo) as u16
}

/// The frame that carries `word`.
pub open spec fn frame_of(word: u16) -> Seq<u8> {
    seq![high_byte(word), low_byte(word), crc8(seq![high_byte(word), low_byte(word)])]
}

/// Whether the checksum byte of group `i` of `bytes` matches its payload.
pub open spec fn group_valid(bytes: Seq<u8>, i: int) -> bool {
    crc8(bytes.subrange(3 * i, 3 * i + 2)) == bytes[3 * i + 2]
}

/// The word that group `i` of `bytes` carries.
pub open spec fn group_word(bytes: Seq<u8>, i: int) -> u16 {
    word_of(bytes[3 * i], bytes[3 * i + 1])
}

/// What a response of `count` words decodes to. It is rejected as a whole
/// when its length is not that of `count` groups, or when any group fails
/// its checksum.
pub open spec fn decode_words(bytes: Seq<u8>, count: nat) -> Result<Seq<u16>, ProtocolError> {
    if bytes.len() != 3 * count {
        Err(ProtocolError::ShortRead)
    } else if !(forall|i: int| 0 <= i < count ==> group_valid(bytes, i)) {
        Err(ProtocolError::ChecksumMismatch)
    } else {
        Ok(Seq::new(count, |i: int| group_word(bytes, i)))
    }
}

impl Opcode {
    /// The 16-bit value of the command.
    pub open spec fn word(self) -> u16 {
        match self {
            Opcode::Stop => 0x3F86,
            Opcode::Start => 0x21B1,
            Opcode::ReadMeasurement => 0xEC05,
        }
    }

    /// The 16-bit value of the command.
    pub fn code(self) -> (word: u16)
        ensures
            word == self.word(),
    {
        match self {
            Opcode::Stop => 0x3F86,
            Opcode::Start => 0x21B1,
            Opcode::ReadMeasurement => 0xEC05,
        }
    }

    /// The frame that carries the command.
    pub fn frame(self) -> (frame: [u8; 3])
        ensures
            frame@ == frame_of(self.word()),
    {
        command_frame(self.code())
    }
}

/// Builds the frame for `word`: its two bytes, high byte first, and their
/// checksum.
pub fn command_frame(word: u16) -> (frame: [u8; 3])
    ensures
        frame@ == frame_of(word),
{
    let hi: u8 = (word / 256) as u8;
    let lo: u8 = (word % 256) as u8;
    let payload: [u8; 2] = [hi, lo];
    let crc: u8 = sensirion_common_generate_crc(payload.as_slice());
    let frame: [u8; 3] = [hi, lo, crc];
    proof {
        assert(payload@ =~= seq![hi, lo]);
        assert(frame@ =~= frame_of(word));
    }
    frame
}

/// Judges a write of a command frame by the number of bytes that the
/// transport took: the command is sent when that is the whole frame.
pub fn check_written(accepted: usize) -> (result: Result<(), ProtocolError>)
    ensures
        accepted == GROUP_LEN ==> result == Ok::<(), ProtocolError>(()),
        accepted != GROUP_LEN ==> result == Err::<(), ProtocolError>(ProtocolError::ShortWrite),
{
    if accepted == GROUP_LEN {
        Ok(())
    } else {
        Err(ProtocolError::ShortWrite)
    }
}

/// Decodes a response of `count` words from the bytes that the transport
/// delivered. Each group's checksum is recomputed and compared before its
/// word is taken; the first mismatch rejects the whole response.
pub fn sensiron_read_u16(received: &[u8], count: usize) -> (result: Result<Vec<u16>, ProtocolError>)
    ensures
        match result {
            Ok(words) => decode_words(received@, count as nat) == Ok::<Seq<u16>, ProtocolError>(
                words@,
            ),
            Err(e) => decode_words(received@, count as nat) == Err::<Seq<u16>, ProtocolError>(e),
        },
        result is Ok ==> forall|i: int| 0 <= i < count ==> group_valid(received@, i),
{
    if received.len() % 3 != 0 || received.len() / 3 != count {
        return Err(ProtocolError::ShortRead);
    }
    let mut words: Vec<u16> = Vec::new();
    let mut i: usize = 0;
    while i < count
        invariant
            received@.len() == 3 * count,
            3 * count <= usize::MAX,
            i <= count,
            words@ == Seq::new(i as nat, |j: int| group_word(received@, j)),
            forall|j: int| 0 <= j < i ==> group_valid(received@, j),
        decreases count - i,
    {
        let at: usize = 3 * i;
        let expected: u8 = sensirion_common_generate_crc(vstd::slice::slice_subrange(received, at, at + 2));
        if expected != received[at + 2] {
            assert(!group_valid(received@, i as int));
            return Err(ProtocolError::ChecksumMismatch);
        }
        let word: u16 = (received[at] as u16) * 256 + (received[at + 1] as u16);
        words.push(word);
        proof {
            assert(words@ =~= Seq::new((i + 1) as nat, |j: int| group_word(received@, j)));
        }
        i += 1;
    }
    Ok(words)
}

/// `bytes` with bit `bit` of the byte at `index` inverted.
pub open spec fn flip_bit(bytes: Seq<u8>, index: int, bit: u8) -> Seq<u8> {
    bytes.update(index, bytes[index] ^ (1u8 << bit))
}

/// A word that is put into a frame comes out of it again: the frame passes
/// the checksum and decodes to the word.
pub proof fn lemma_frame_round_trip(word: u16)
    ensures
        decode_words(frame_of(word), 1) == Ok::<Seq<u16>, ProtocolError>(seq![word]),
{
    let frame = frame_of(word);
    assert(frame.subrange(0, 2) =~= seq![high_byte(word), low_byte(word)]);
    assert(group_valid(frame, 0));
    assert(group_word(frame, 0) == word);
    assert(Seq::new(1, |i: int| group_word(frame, i)) =~= seq![word]);
}

/// No single flipped bit goes unnoticed: when a response that decodes has
/// one bit inverted, in a payload byte or in a checksum byte, it is
/// rejected for its checksum.
pub proof fn lemma_bit_flip_detected(bytes: Seq<u8>, count: nat, index: int, bit: u8)
    requires
        decode_words(bytes, count) is Ok,
        0 <= index < bytes.len(),
        bit < 8,
    ensures
        decode_words(flip_bit(bytes, index, bit), count) == Err::<Seq<u16>, ProtocolError>(
            ProtocolError::ChecksumMismatch,
        ),
{
    let flipped = flip_bit(bytes, index, bit);
    let group = index / 3;
    let byte = bytes[index];
    assert(byte ^ (1u8 << bit) != byte) by (bit_vector)
        requires
            bit < 8,
    ;
    assert(group_valid(bytes, group));
    let before = bytes.subrange(3 * group, 3 * group + 2);
    let after = flipped.subrange(3 * group, 3 * group + 2);
    if index % 3 == 2 {
        assert(after =~= before);
    } else {
        lemma_crc8_detects_byte_change(before, after, index - 3 * group);
    }
    assert(!group_valid(flipped, group));
}

/// No single flipped bit in a frame goes unnoticed, whatever word the
/// frame carries.
pub proof fn lemma_frame_bit_flip_detected(word: u16, index: int, bit: u8)
    requires
        0 <= index < 3,
        bit < 8,
    ensures
        decode_words(flip_bit(frame_of(word), index, bit), 1) == Err::<Seq<u16>, ProtocolError>(
            ProtocolError::ChecksumMismatch,
        ),
{
    lemma_frame_round_trip(word);
    lemma_bit_flip_detected(frame_of(word), 1, index, bit);
}

} // verus!
