//! CRC-32 (reflected, polynomial `0xEDB88320`) with a caller-supplied seed.
//!
//! Type-descriptor hashes and message-label hashes are both derived from this
//! checksum, so it is defined here once, together with its mathematical
//! specification.

use vstd::prelude::*;

verus! {

/// One shift-and-conditional-xor round of the bitwise CRC-32 update.
pub open spec fn crc32_round(c: u32) -> u32 {
    if c & 1 == 1 {
        (c >> 1) ^ 0xEDB8_8320u32
    } else {
        c >> 1
    }
}

/// `crc32_round` applied `n` times to `c`.
pub open spec fn crc32_rounds(c: u32, n: nat) -> u32
    decreases n,
{
    if n == 0 {
        c
    } else {
        crc32_round(crc32_rounds(c, (n - 1) as nat))
    }
}

/// The CRC state after absorbing one byte: xor it in, then run eight rounds.
pub open spec fn crc32_byte(c: u32, b: u8) -> u32 {
    crc32_rounds(c ^ (b as u32), 8)
}

/// The CRC state after absorbing `data` in order, starting from `seed`.
pub open spec fn spec_crc32(data: Seq<u8>, seed: u32) -> u32
    decreases data.len(),
{
    if data.len() == 0 {
        seed
    } else {
        crc32_byte(spec_crc32(data.drop_last(), seed), data.last())
    }
}

/// Computes the CRC-32 of `data` with the given starting state. No final
/// complement is applied; callers that want the conventional checksum pass
/// `0xFFFF_FFFF` and invert the result themselves.
pub fn crc32(data: &[u8], seed: u32) -> (r: u32)
    ensures
        r == spec_crc32(data@, seed),
{
    let mut crc = seed;
    let mut i: usize = 0;
    while i < data.len()
        invariant
            i <= data@.len(),
            crc == spec_crc32(data@.take(i as int), seed),
        decreases data@.len() - i,
    {
        let start = crc ^ (data[i] as u32);
        let mut c = start;
        let mut round: usize = 0;
        while round < 8
            invariant
                round <= 8,
                c == crc32_rounds(start, round as nat),
            decreases 8 - round,
        {
            c = if c & 1 == 1 {
                (c >> 1) ^ 0xEDB8_8320u32
            } else {
                c >> 1
            };
            round = round + 1;
        }
        proof {
            assert(data@.take(i + 1).drop_last() =~= data@.take(i as int));
            assert(data@.take(i + 1).last() == data@[i as int]);
        }
        crc = c;
        i = i + 1;
    }
    proof {
        assert(data@.take(data@.len() as int) =~= data@);
    }
    crc
}

} // verus!
