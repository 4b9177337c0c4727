//! The 8-bit checksum that guards every two-byte word on the bus.
//!
//! The checksum is a cyclic redundancy check with polynomial `0x31`, a
//! register that starts at `0xFF`, bits taken most significant first, no
//! reflection and no final inversion.

use vstd::prelude::*;

verus! {

/// Generator polynomial x^8 + x^5 + x^4 + 1, written without its top term.
pub const CRC8_POLYNOMIAL: u8 = 0x31;

/// Value of the register before the first byte.
pub const CRC8_INIT: u8 = 0xFF;

/// One shift of the register: the top bit leaves, and where it was set the
/// polynomial is folded in.
pub open spec fn crc8_shift(reg: u8) -> u8 {
    if reg & 0x80 != 0 {
        (reg << 1) ^ CRC8_POLYNOMIAL
    } else {
        reg << 1
    }
}

/// The register after `n` shifts.
pub open spec fn crc8_shifts(reg: u8, n: nat) -> u8
    decreases n,
{
    if n == 0 {
        reg
    } else {
        crc8_shift(crc8_shifts(reg, (n - 1) as nat))
    }
}

/// The register after one more input byte: the byte is folded into the
/// register, which is then shifted once for each of its eight bits.
pub open spec fn crc8_absorb(reg: u8, byte: u8) -> u8 {
    crc8_shifts(reg ^ byte, 8)
}

/// The checksum of a byte sequence.
pub open spec fn crc8(data: Seq<u8>) -> u8
    decreases data.len(),
{
    if data.len() == 0 {
        CRC8_INIT
    } else {
        crc8_absorb(crc8(data.drop_last()), data.last())
    }
}

/// Computes the checksum of `data`.
pub fn sensirion_common_generate_crc(data: &[u8]) -> (crc: u8)
    ensures
        crc == crc8(data@),
{
    let mut crc: u8 = CRC8_INIT;
    let mut i: usize = 0;
    while i < data.len()
        invariant
            i <= data.len(),
            crc == crc8(data@.take(i as int)),
        decreases data.len() - i,
    {
        let ghost folded: u8 = crc ^ data@[i as int];
        crc = crc ^ data[i];
        let mut bit: u8 = 0;
        while bit < 8
            invariant
                bit <= 8,
                crc == crc8_shifts(folded, bit as nat),
            decreases 8 - bit,
        {
            if crc & 0x80 != 0 {
                crc = (crc << 1) ^ CRC8_POLYNOMIAL;
            } else {
                crc = crc << 1;
            }
            bit += 1;
        }
        proof {
            let upto = data@.take(i + 1);
            assert(upto.drop_last() =~= data@.take(i as int));
            assert(upto.last() == data@[i as int]);
        }
        i += 1;
    }
    proof {
        assert(data@.take(data.len() as int) =~= data@);
    }
    crc
}

/// The checksum of the two bytes of a word, written without recursion.
pub proof fn lemma_crc8_of_pair(hi: u8, lo: u8)
    ensures
        crc8(seq![hi, lo]) == crc8_absorb(crc8_absorb(CRC8_INIT, hi), lo),
{
    let pair = seq![hi, lo];
    let head = pair.drop_last();
    assert(head =~= seq![hi]);
    assert(head.drop_last() =~= Seq::<u8>::empty());
    assert(crc8(head.drop_last()) == CRC8_INIT);
    assert(crc8(head) == crc8_absorb(CRC8_INIT, hi));
}

/// A shift loses nothing: two registers that shift to the same value were
/// the same.
proof fn lemma_crc8_shift_injective(a: u8, b: u8)
    requires
        crc8_shift(a) == crc8_shift(b),
    ensures
        a == b,
{
    assert(({
        let sa = if a & 0x80 != 0 { (a << 1) ^ 0x31u8 } else { a << 1 };
        let sb = if b & 0x80 != 0 { (b << 1) ^ 0x31u8 } else { b << 1 };
        sa == sb ==> a == b
    })) by (bit_vector);
}

/// Any number of shifts loses nothing.
proof fn lemma_crc8_shifts_injective(a: u8, b: u8, n: nat)
    requires
        crc8_shifts(a, n) == crc8_shifts(b, n),
    ensures
        a == b,
    decreases n,
{
    if n > 0 {
        lemma_crc8_shift_injective(crc8_shifts(a, (n - 1) as nat), crc8_shifts(b, (n - 1) as nat));
        lemma_crc8_shifts_injective(a, b, (n - 1) as nat);
    }
}

/// Absorbing a byte loses nothing: from the register afterwards and the
/// byte, the register before is determined; from the register before and
/// the register afterwards, the byte is.
pub proof fn lemma_crc8_absorb_injective(reg_a: u8, byte_a: u8, reg_b: u8, byte_b: u8)
    requires
        crc8_absorb(reg_a, byte_a) == crc8_absorb(reg_b, byte_b),
    ensures
        byte_a == byte_b ==> reg_a == reg_b,
        reg_a == reg_b ==> byte_a == byte_b,
{
    lemma_crc8_shifts_injective(reg_a ^ byte_a, reg_b ^ byte_b, 8);
    assert(reg_a ^ byte_a == reg_b ^ byte_b ==> (byte_a == byte_b <==> reg_a == reg_b))
        by (bit_vector);
}

/// The checksum detects every change that is confined to one byte: two
/// sequences of one length that differ in exactly one place have different
/// checksums. A single flipped bit is such a change.
pub proof fn lemma_crc8_detects_byte_change(s: Seq<u8>, t: Seq<u8>, at: int)
    requires
        s.len() == t.len(),
        0 <= at < s.len(),
        s[at] != t[at],
        forall|j: int| 0 <= j < s.len() && j != at ==> s[j] == t[j],
    ensures
        crc8(s) != crc8(t),
    decreases s.len(),
{
    let last = s.len() - 1;
    if crc8(s) == crc8(t) {
        lemma_crc8_absorb_injective(
            crc8(s.drop_last()),
            s.last(),
            crc8(t.drop_last()),
            t.last(),
        );
        if at == last {
            assert(s.drop_last() =~= t.drop_last());
        } else {
            lemma_crc8_detects_byte_change(s.drop_last(), t.drop_last(), at);
        }
    }
}

/// The checksum is a function of the bytes and nothing else: sequences
/// that hold the same bytes in the same order have the same checksum.
pub proof fn lemma_crc8_depends_on_bytes_alone(s: Seq<u8>, t: Seq<u8>)
    requires
        s.len() == t.len(),
        forall|j: int| 0 <= j < s.len() ==> s[j] == t[j],
    ensures
        crc8(s) == crc8(t),
{
    assert(s =~= t);
}

/// The checksum of `BE EF` is `92`, the value by which an implementation
/// of this checksum is recognized.
pub proof fn lemma_crc8_check_value()
    ensures
        crc8(seq![0xBEu8, 0xEFu8]) == 0x92,
{
    lemma_crc8_of_pair(0xBE, 0xEF);
    assert(crc8_shifts(0xFFu8 ^ 0xBEu8, 8) == 0x0Cu8) by (bit_vector);
    assert(crc8_shifts(0x0Cu8 ^ 0xEFu8, 8) == 0x92u8) by (bit_vector);
}

} // verus!
