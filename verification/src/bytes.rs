//! Little-endian integers and checksums over byte sequences.

use vstd::prelude::*;

verus! {

/// The two bytes of a 16-bit value, low byte first.
pub open spec fn le16(v: u16) -> Seq<u8> {
    seq![(v % 256) as u8, (v / 256) as u8]
}

/// The 16-bit value of two bytes, low byte first.
pub open spec fn from_le16(lo: u8, hi: u8) -> u16 {
    (lo + 256 * hi) as u16
}

/// The four bytes of a 32-bit value, low byte first.
pub open spec fn le32(v: u32) -> Seq<u8> {
    seq![
        (v % 256) as u8,
        (v / 256 % 256) as u8,
        (v / 65536 % 256) as u8,
        (v / 16777216) as u8,
    ]
}

/// The 32-bit value of four bytes, low byte first.
pub open spec fn from_le32(a: u8, b: u8, c: u8, d: u8) -> u32 {
    (a + 256 * b + 65536 * c + 16777216 * d) as u32
}

/// Reading back a 16-bit value gives the value.
pub proof fn lemma_le16(v: u16)
    ensures
        le16(v).len() == 2,
        from_le16(le16(v)[0], le16(v)[1]) == v,
{
}

/// Reading back a 32-bit value gives the value.
pub proof fn lemma_le32(v: u32)
    ensures
        le32(v).len() == 4,
        from_le32(le32(v)[0], le32(v)[1], le32(v)[2], le32(v)[3]) == v,
{
}

pub fn u16_of(lo: u8, hi: u8) -> (r: u16)
    ensures
        r == from_le16(lo, hi),
{
    lo as u16 + 256 * hi as u16
}

pub fn u32_of(a: u8, b: u8, c: u8, d: u8) -> (r: u32)
    ensures
        r == from_le32(a, b, c, d),
{
    a as u32 + 256 * b as u32 + 65536 * c as u32 + 16777216 * d as u32
}

pub fn push_u16(out: &mut Vec<u8>, v: u16)
    ensures
        final(out)@ == old(out)@ + le16(v),
{
    out.push((v % 256) as u8);
    out.push((v / 256) as u8);
    assert(out@ =~= old(out)@ + le16(v));
}

pub fn push_u32(out: &mut Vec<u8>, v: u32)
    ensures
        final(out)@ == old(out)@ + le32(v),
{
    out.push((v % 256) as u8);
    out.push((v / 256 % 256) as u8);
    out.push((v / 65536 % 256) as u8);
    out.push((v / 16777216) as u8);
    assert(out@ =~= old(out)@ + le32(v));
}

/// Appends `b` to `out`.
pub fn push_all(out: &mut Vec<u8>, b: &[u8])
    ensures
        final(out)@ == old(out)@ + b@,
{
    out.extend_from_slice(b);
    assert(out@ =~= old(out)@ + b@);
}

/// One bit of the checksum: the remainder shifted up, reduced by the polynomial 0x1021.
pub open spec fn crc_bit(c: u16) -> u16 {
    if c & 0x8000 != 0 {
        (c << 1) ^ 0x1021
    } else {
        c << 1
    }
}

/// The remainder after `n` bits.
pub open spec fn crc_bits(c: u16, n: nat) -> u16
    decreases n,
{
    if n == 0 {
        c
    } else {
        crc_bit(crc_bits(c, (n - 1) as nat))
    }
}

/// The remainder after the bytes of `data`, starting from `c`.
pub open spec fn crc_from(c: u16, data: Seq<u8>) -> u16
    decreases data.len(),
{
    if data.len() == 0 {
        c
    } else {
        crc_bits(crc_from(c, data.drop_last()) ^ ((data.last() as u16) << 8), 8)
    }
}

/// CRC-16/CCITT-FALSE: polynomial 0x1021, initial value 0xFFFF, no reflection, no final xor.
pub open spec fn crc(data: Seq<u8>) -> u16 {
    crc_from(0xFFFF, data)
}

/// The checksum of a concatenation continues from the checksum of its first part.
pub proof fn lemma_crc_concat(c: u16, a: Seq<u8>, b: Seq<u8>)
    ensures
        crc_from(c, a + b) == crc_from(crc_from(c, a), b),
    decreases b.len(),
{
    if b.len() == 0 {
        assert(a + b =~= a);
    } else {
        assert((a + b).drop_last() =~= a + b.drop_last());
        lemma_crc_concat(c, a, b.drop_last());
    }
}

/// CRC-16/CCITT-FALSE of `data`.
pub fn crc16(data: &[u8]) -> (r: u16)
    ensures
        r == crc(data@),
{
    let mut c: u16 = 0xFFFF;
    let mut i: usize = 0;
    while i < data.len()
        invariant
            i <= data@.len(),
            c == crc_from(0xFFFF, data@.take(i as int)),
        decreases data@.len() - i,
    {
        let ghost before = c;
        c = c ^ ((data[i] as u16) << 8);
        let ghost start = c;
        let mut n: u8 = 0;
        while n < 8
            invariant
                n <= 8,
                c == crc_bits(start, n as nat),
            decreases 8 - n,
        {
            c = if c & 0x8000 != 0 {
                (c << 1) ^ 0x1021
            } else {
                c << 1
            };
            n += 1;
        }
        proof {
            let t = data@.take(i as int + 1);
            assert(t.drop_last() =~= data@.take(i as int));
        }
        i += 1;
    }
    assert(data@.take(data@.len() as int) =~= data@);
    c
}

} // verus!
