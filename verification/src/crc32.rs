use vstd::prelude::*;

verus! {

/// One bit step of the reflected CRC-32 with polynomial 0xEDB88320.
pub open spec fn crc32_step_bit(acc: u32) -> u32 {
    if acc & 1 == 1 {
        (acc >> 1) ^ 0xEDB88320u32
    } else {
        acc >> 1
    }
}

/// `k` bit steps.
pub open spec fn crc32_step_bits(acc: u32, k: nat) -> u32
    decreases k,
{
    if k == 0 {
        acc
    } else {
        crc32_step_bits(crc32_step_bit(acc), (k - 1) as nat)
    }
}

/// One byte folded into the accumulator.
pub open spec fn crc32_step_byte(acc: u32, b: u8) -> u32 {
    crc32_step_bits(acc ^ (b as u32), 8)
}

/// The accumulator after a whole byte sequence.
pub open spec fn crc32_accum(acc: u32, s: Seq<u8>) -> u32
    decreases s.len(),
{
    if s.len() == 0 {
        acc
    } else {
        crc32_accum(crc32_step_byte(acc, s[0]), s.drop_first())
    }
}

/// CRC-32 (IEEE) of a byte sequence: all-ones start, final complement.
pub open spec fn crc32_of(s: Seq<u8>) -> u32 {
    crc32_accum(0xFFFFFFFFu32, s) ^ 0xFFFFFFFFu32
}

/// Computes the CRC-32 checksum used by the chunk and file headers.
pub fn crc32(d: &[u8]) -> (r: u32)
    ensures
        r == crc32_of(d@),
{
    let mut acc: u32 = 0xFFFFFFFF;
    let mut i: usize = 0;
    let n = d.len();
    proof {
        assert(d@.skip(0) =~= d@);
    }
    while i < n
        invariant
            i <= n,
            n == d@.len(),
            crc32_accum(acc, d@.skip(i as int)) == crc32_accum(0xFFFFFFFFu32, d@),
        decreases n - i,
    {
        let ghost tail = d@.skip(i as int);
        let b = d[i];
        let mut x: u32 = acc ^ (b as u32);
        let ghost x0 = x;
        let mut j: usize = 0;
        while j < 8
            invariant
                j <= 8,
                crc32_step_bits(x, (8 - j) as nat) == crc32_step_bits(x0, 8),
            decreases 8 - j,
        {
            if x & 1 == 1 {
                x = (x >> 1) ^ 0xEDB88320;
            } else {
                x = x >> 1;
            }
            j = j + 1;
        }
        proof {
            assert(crc32_step_bits(x, 0) == x);
            assert(x == crc32_step_byte(acc, b));
            assert(tail[0] == b);
            assert(tail.drop_first() =~= d@.skip(i + 1));
        }
        acc = x;
        i = i + 1;
    }
    proof {
        assert(d@.skip(n as int) =~= Seq::<u8>::empty());
    }
    acc ^ 0xFFFFFFFF
}

} // verus!
