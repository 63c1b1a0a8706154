//! Little-endian field access and the CRC-32 that seals every frame.
use vstd::prelude::*;
use vstd::bytes::*;

verus! {

/// The reflected IEEE 802.3 polynomial.
pub const CRC32_IEEE_POLY: u32 = 0xedb8_8320;

/// One shift of the CRC-32 register: shift right, and xor in the polynomial
/// when the bit shifted out was set.
pub open spec fn crc32_bit_step(c: u32) -> u32 {
    if c & 1 == 1 {
        (c >> 1) ^ CRC32_IEEE_POLY
    } else {
        c >> 1
    }
}

/// `n` consecutive shifts of the register.
pub open spec fn crc32_shifts(c: u32, n: nat) -> u32
    decreases n,
{
    if n == 0 {
        c
    } else {
        crc32_shifts(crc32_bit_step(c), (n - 1) as nat)
    }
}

/// Feeding one byte into the register: xor it into the low byte, then shift eight times.
pub open spec fn crc32_feed_byte(c: u32, b: u8) -> u32 {
    crc32_shifts(c ^ (b as u32), 8)
}

/// The register after feeding all of `data`, starting from all ones.
pub open spec fn crc32_register(data: Seq<u8>) -> u32
    decreases data.len(),
{
    if data.len() == 0 {
        0xffff_ffffu32
    } else {
        crc32_feed_byte(crc32_register(data.drop_last()), data.last())
    }
}

/// The standard CRC-32 (IEEE): the final register, inverted.
pub open spec fn spec_crc32_ieee(data: Seq<u8>) -> u32 {
    !crc32_register(data)
}

/// CRC-32 (IEEE 802.3, reflected, initial value and final xor all ones) of `data`.
pub fn crc32_ieee(data: &[u8]) -> (crc: u32)
    ensures
        crc == spec_crc32_ieee(data@),
{
    let mut crc: u32 = 0xffff_ffff;
    let n = data.len();
    let mut i: usize = 0;
    while i < n
        invariant
            n == data@.len(),
            i <= n,
            crc == crc32_register(data@.take(i as int)),
        decreases n - i,
    {
        let byte = data[i];
        let start = crc ^ (byte as u32);
        crc = start;
        let mut k: usize = 0;
        while k < 8
            invariant
                k <= 8,
                crc32_shifts(crc, (8 - k) as nat) == crc32_shifts(start, 8),
            decreases 8 - k,
        {
            if crc & 1 == 1 {
                crc = (crc >> 1) ^ CRC32_IEEE_POLY;
            } else {
                crc = crc >> 1;
            }
            k = k + 1;
        }
        assert(data@.take(i + 1).drop_last() =~= data@.take(i as int));
        i = i + 1;
    }
    assert(data@.take(n as int) =~= data@);
    !crc
}

/// The little-endian `u16` stored at `o`.
pub open spec fn le_u16_at(b: Seq<u8>, o: int) -> u16 {
    spec_u16_from_le_bytes(b.subrange(o, o + 2))
}

/// The little-endian `u32` stored at `o`.
pub open spec fn le_u32_at(b: Seq<u8>, o: int) -> u32 {
    spec_u32_from_le_bytes(b.subrange(o, o + 4))
}

/// The little-endian `u64` stored at `o`.
pub open spec fn le_u64_at(b: Seq<u8>, o: int) -> u64 {
    spec_u64_from_le_bytes(b.subrange(o, o + 8))
}

/// Reads the little-endian `u16` at offset `o`.
pub fn u16_at(b: &[u8], o: usize) -> (v: u16)
    requires
        o + 2 <= b@.len(),
    ensures
        v == le_u16_at(b@, o as int),
{
    let n: usize = b.len();
    assert(o + 2 <= n);
    u16_from_le_bytes(&b[o..o + 2])
}

/// Reads the little-endian `u32` at offset `o`.
pub fn u32_at(b: &[u8], o: usize) -> (v: u32)
    requires
        o + 4 <= b@.len(),
    ensures
        v == le_u32_at(b@, o as int),
{
    let n: usize = b.len();
    assert(o + 4 <= n);
    u32_from_le_bytes(&b[o..o + 4])
}

/// Reads the little-endian `u64` at offset `o`.
pub fn u64_at(b: &[u8], o: usize) -> (v: u64)
    requires
        o + 8 <= b@.len(),
    ensures
        v == le_u64_at(b@, o as int),
{
    let n: usize = b.len();
    assert(o + 8 <= n);
    u64_from_le_bytes(&b[o..o + 8])
}

/// Reads the little-endian bit pattern of the `f32` at offset `o`.
pub fn f32_bits_at(b: &[u8], o: usize) -> (v: u32)
    requires
        o + 4 <= b@.len(),
    ensures
        v == le_u32_at(b@, o as int),
{
    u32_at(b, o)
}

} // verus!
