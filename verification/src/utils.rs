//! The masked CRC-32C checksum used by the TFRecord format.

use crate::error::Error;
use vstd::prelude::*;

verus! {

/// One step of the reflected CRC-32C register: shift right by one bit, and
/// fold in the reversed Castagnoli polynomial `0x82F63B78` when a one bit
/// leaves the register.
pub open spec fn crc_shift(crc: u32) -> u32 {
    if crc & 1u32 == 1u32 {
        (crc >> 1u32) ^ 0x82F63B78u32
    } else {
        crc >> 1u32
    }
}

/// The CRC-32C register after taking in one byte, low bit first.
pub open spec fn crc_byte(crc: u32, b: u8) -> u32 {
    crc_shift(
        crc_shift(
            crc_shift(crc_shift(crc_shift(crc_shift(crc_shift(crc_shift(crc ^ (b as u32))))))),
        ),
    )
}

/// The CRC-32C register after taking in the bytes, one after another,
/// starting from `crc`.
pub open spec fn crc_update(crc: u32, data: Seq<u8>) -> u32
    decreases data.len(),
{
    if data.len() == 0 {
        crc
    } else {
        crc_byte(crc_update(crc, data.drop_last()), data.last())
    }
}

/// The CRC-32C (Castagnoli, the `CRC_32_ISCSI` parameters: reflected
/// polynomial `0x82F63B78`, initial register and final xor `0xFFFFFFFF`)
/// of a byte sequence.
pub open spec fn crc32c(data: Seq<u8>) -> u32 {
    crc_update(0xFFFFFFFFu32, data) ^ 0xFFFFFFFFu32
}

/// One step of the register.
fn crc_shift_exec(crc: u32) -> (r: u32)
    ensures
        r == crc_shift(crc),
{
    if crc & 1u32 == 1u32 {
        (crc >> 1u32) ^ 0x82F63B78u32
    } else {
        crc >> 1u32
    }
}

/// The CRC-32C of the bytes, computed bit by bit.
fn crc32c_of(buf: &[u8]) -> (r: u32)
    ensures
        r == crc32c(buf@),
{
    let mut crc: u32 = 0xFFFFFFFFu32;
    let mut i: usize = 0;
    while i < buf.len()
        invariant
            i <= buf@.len(),
            crc == crc_update(0xFFFFFFFFu32, buf@.take(i as int)),
        decreases buf@.len() - i,
    {
        let c0: u32 = crc ^ (buf[i] as u32);
        let c1: u32 = crc_shift_exec(c0);
        let c2: u32 = crc_shift_exec(c1);
        let c3: u32 = crc_shift_exec(c2);
        let c4: u32 = crc_shift_exec(c3);
        let c5: u32 = crc_shift_exec(c4);
        let c6: u32 = crc_shift_exec(c5);
        let c7: u32 = crc_shift_exec(c6);
        let c: u32 = crc_shift_exec(c7);
        proof {
            assert(buf@.take(i + 1).drop_last() =~= buf@.take(i as int));
        }
        crc = c;
        i = i + 1;
    }
    proof {
        assert(buf@.take(buf@.len() as int) =~= buf@);
    }
    crc ^ 0xFFFFFFFFu32
}

/// The masking that TFRecord applies to a CRC: rotate right by 15 bits,
/// then add `0xa282ead8` modulo 2^32.
pub open spec fn spec_mask(crc: u32) -> u32 {
    ((crc >> 15u32) | (crc << 17u32)).wrapping_add(0xa282ead8u32)
}

/// The masked CRC-32C of a byte sequence, as stored in TFRecord frames.
pub open spec fn spec_checksum(buf: Seq<u8>) -> u32 {
    spec_mask(crc32c(buf))
}

/// Taking in different bytes from the same register gives different
/// registers.
proof fn lemma_crc_byte_distinguishes_bytes(crc: u32, x: u8, y: u8)
    requires
        x != y,
    ensures
        crc_byte(crc, x) != crc_byte(crc, y),
{
    assert(x != y ==> crc_byte(crc, x) != crc_byte(crc, y)) by (bit_vector);
}

/// Taking in the same byte from different registers gives different
/// registers.
proof fn lemma_crc_byte_distinguishes_registers(a: u32, b: u32, x: u8)
    requires
        a != b,
    ensures
        crc_byte(a, x) != crc_byte(b, x),
{
    assert(a != b ==> crc_byte(a, x) != crc_byte(b, x)) by (bit_vector);
}

/// Taking in bytes one after another is taking in the first part, then
/// the rest.
proof fn lemma_crc_update_append(crc: u32, a: Seq<u8>, b: Seq<u8>)
    ensures
        crc_update(crc, a + b) == crc_update(crc_update(crc, a), b),
    decreases b.len(),
{
    if b.len() == 0 {
        assert(a + b =~= a);
    } else {
        lemma_crc_update_append(crc, a, b.drop_last());
        assert((a + b).drop_last() =~= a + b.drop_last());
        assert((a + b).last() == b.last());
    }
}

/// Taking in the same bytes from different registers gives different
/// registers.
proof fn lemma_crc_update_distinguishes_registers(a: u32, b: u32, data: Seq<u8>)
    requires
        a != b,
    ensures
        crc_update(a, data) != crc_update(b, data),
    decreases data.len(),
{
    if data.len() > 0 {
        lemma_crc_update_distinguishes_registers(a, b, data.drop_last());
        lemma_crc_byte_distinguishes_registers(
            crc_update(a, data.drop_last()),
            crc_update(b, data.drop_last()),
            data.last(),
        );
    }
}

/// The CRC-32C sees every byte: changing any one byte of a sequence
/// changes its CRC-32C, and so its masked checksum.
pub proof fn law_crc_detects_byte_change(data: Seq<u8>, i: int, b: u8)
    requires
        0 <= i < data.len(),
        b != data[i],
    ensures
        crc32c(data.update(i, b)) != crc32c(data),
        spec_checksum(data.update(i, b)) != spec_checksum(data),
{
    let changed = data.update(i, b);
    let p = data.take(i);
    let rest = data.skip(i + 1);
    assert(data =~= p.push(data[i]) + rest);
    assert(changed =~= p.push(b) + rest);
    let init = 0xFFFFFFFFu32;
    lemma_crc_update_append(init, p.push(data[i]), rest);
    lemma_crc_update_append(init, p.push(b), rest);
    assert(p.push(data[i]).drop_last() =~= p);
    assert(p.push(b).drop_last() =~= p);
    lemma_crc_byte_distinguishes_bytes(crc_update(init, p), data[i], b);
    lemma_crc_update_distinguishes_registers(
        crc_update(init, p.push(b)),
        crc_update(init, p.push(data[i])),
        rest,
    );
    let u = crc_update(init, changed);
    let v = crc_update(init, data);
    assert(u != v ==> u ^ 0xFFFFFFFFu32 != v ^ 0xFFFFFFFFu32) by (bit_vector);
    lemma_mask_injective(crc32c(changed), crc32c(data));
}

/// Masking is one to one.
proof fn lemma_mask_injective(a: u32, b: u32)
    requires
        a != b,
    ensures
        spec_mask(a) != spec_mask(b),
{
    assert(a != b ==> ((a >> 15u32) | (a << 17u32)) != ((b >> 15u32) | (b << 17u32))) by (bit_vector);
}

/// Compute the masked CRC-32C of `buf`.
pub fn checksum(buf: &[u8]) -> (r: u32)
    ensures
        r == spec_checksum(buf@),
{
    let cksum = crc32c_of(buf);
    ((cksum >> 15u32) | (cksum << 17u32)).wrapping_add(0xa282ead8u32)
}

/// Verify that `expect` is the masked CRC-32C of `buf`.
pub fn verify_checksum(buf: &[u8], expect: u32) -> (r: Result<(), Error>)
    ensures
        expect == spec_checksum(buf@) ==> r is Ok,
        expect != spec_checksum(buf@) ==> r == Err::<(), Error>(
            Error::ChecksumMismatch { expect, found: spec_checksum(buf@) },
        ),
{
    let found = checksum(buf);
    if expect == found {
        Ok(())
    } else {
        Err(Error::ChecksumMismatch { expect, found })
    }
}

} // verus!
