//! CRC-32 as used by MPEG-2 PSI sections: polynomial 0x04C11DB7,
//! initial value all ones, no bit reflection and no final xor. This is
//! not the IEEE (zlib) variant.

use vstd::prelude::*;

verus! {

/// One shift step of the CRC register: shift left, and on carry-out
/// fold in the generator polynomial.
pub open spec fn spec_crc_step(c: u32) -> u32 {
    if c & 0x8000_0000 != 0 {
        (c << 1) ^ 0x04C1_1DB7
    } else {
        c << 1
    }
}

/// The CRC register after `n` shift steps.
pub open spec fn spec_crc_steps(c: u32, n: nat) -> u32
    decreases n,
{
    if n == 0 {
        c
    } else {
        spec_crc_step(spec_crc_steps(c, (n - 1) as nat))
    }
}

/// Folding one message byte into the CRC register: xor it into the top
/// byte, then shift eight times.
pub open spec fn spec_crc_byte(c: u32, b: u8) -> u32 {
    spec_crc_steps(c ^ ((b as u32) << 24), 8)
}

/// The MPEG-2 CRC-32 of a byte sequence.
pub open spec fn spec_crc32(s: Seq<u8>) -> u32
    decreases s.len(),
{
    if s.len() == 0 {
        0xFFFF_FFFF
    } else {
        spec_crc_byte(spec_crc32(s.drop_last()), s.last())
    }
}

/// Computes the MPEG-2 CRC-32 of a byte slice.
pub fn crc32_mpeg2(data: &[u8]) -> (r: u32)
    ensures
        r == spec_crc32(data@),
{
    let mut crc: u32 = 0xFFFF_FFFF;
    let mut i: usize = 0;
    while i < data.len()
        invariant
            i <= data@.len(),
            crc == spec_crc32(data@.take(i as int)),
        decreases data@.len() - i,
    {
        let b = data[i];
        crc = crc ^ ((b as u32) << 24);
        let ghost start = crc;
        let mut j: usize = 0;
        while j < 8
            invariant
                j <= 8,
                crc == spec_crc_steps(start, j as nat),
            decreases 8 - j,
        {
            crc = if crc & 0x8000_0000u32 != 0 {
                (crc << 1) ^ 0x04C1_1DB7
            } else {
                crc << 1
            };
            j = j + 1;
        }
        proof {
            assert(data@.take(i + 1).drop_last() =~= data@.take(i as int));
            assert(data@.take(i + 1).last() == data@[i as int]);
        }
        i = i + 1;
    }
    proof {
        assert(data@.take(data@.len() as int) =~= data@);
    }
    crc
}

} // verus!
