use vstd::prelude::*;

verus! {

/// Little-endian `u16` at position `i` of `d`.
pub open spec fn le16_at(d: Seq<u8>, i: int) -> u16 {
    (d[i] as u16 + d[i + 1] as u16 * 0x100) as u16
}

/// Little-endian `u32` at position `i` of `d`.
pub open spec fn le32_at(d: Seq<u8>, i: int) -> u32 {
    (d[i] as u32 + d[i + 1] as u32 * 0x100 + d[i + 2] as u32 * 0x1_0000 + d[i + 3] as u32
        * 0x100_0000) as u32
}

/// Little-endian `u64` at position `i` of `d`.
pub open spec fn le64_at(d: Seq<u8>, i: int) -> u64 {
    (le32_at(d, i) as u64 + le32_at(d, i + 4) as u64 * 0x1_0000_0000) as u64
}

/// Reads one byte, or `None` past the end.
pub fn read_u8(d: &[u8], pos: usize) -> (r: Option<u8>)
    ensures
        pos < d@.len() ==> r == Some(d@[pos as int]),
        pos >= d@.len() ==> r is None,
{
    if pos < d.len() {
        Some(d[pos])
    } else {
        None
    }
}

/// Reads a little-endian `u16`, or `None` when the two bytes are not there.
pub fn read_u16(d: &[u8], pos: usize) -> (r: Option<u16>)
    ensures
        pos + 2 <= d@.len() ==> r == Some(le16_at(d@, pos as int)),
        pos + 2 > d@.len() ==> r is None,
{
    if pos < d.len() && d.len() - pos >= 2 {
        Some(d[pos] as u16 + d[pos + 1] as u16 * 0x100)
    } else {
        None
    }
}

/// Reads a little-endian `u32`, or `None` when the four bytes are not there.
pub fn read_u32(d: &[u8], pos: usize) -> (r: Option<u32>)
    ensures
        pos + 4 <= d@.len() ==> r == Some(le32_at(d@, pos as int)),
        pos + 4 > d@.len() ==> r is None,
{
    if pos < d.len() && d.len() - pos >= 4 {
        Some(
            d[pos] as u32 + d[pos + 1] as u32 * 0x100 + d[pos + 2] as u32 * 0x1_0000 + d[pos
                + 3] as u32 * 0x100_0000,
        )
    } else {
        None
    }
}

/// Reads a little-endian `u64`, or `None` when the eight bytes are not there.
pub fn read_u64(d: &[u8], pos: usize) -> (r: Option<u64>)
    ensures
        pos + 8 <= d@.len() ==> r == Some(le64_at(d@, pos as int)),
        pos + 8 > d@.len() ==> r is None,
{
    if pos < d.len() && d.len() - pos >= 8 {
        let lo = read_u32(d, pos);
        let hi = read_u32(d, pos + 4);
        Some(lo.unwrap() as u64 + hi.unwrap() as u64 * 0x1_0000_0000)
    } else {
        None
    }
}

/// Copies `n` bytes starting at `pos`, or `None` when they are not there.
pub fn read_bytes(d: &[u8], pos: usize, n: usize) -> (r: Option<Vec<u8>>)
    ensures
        pos + n <= d@.len() ==> (r matches Some(v) && v@ == d@.subrange(pos as int, pos + n)),
        pos + n > d@.len() ==> r is None,
{
    if pos <= d.len() && d.len() - pos >= n {
        let mut v: Vec<u8> = Vec::new();
        let mut i: usize = 0;
        while i < n
            invariant
                pos + n <= d@.len(),
                pos + n <= usize::MAX,
                i <= n,
                v@ == d@.subrange(pos as int, pos + i),
            decreases n - i,
        {
            v.push(d[pos + i]);
            assert(v@ =~= d@.subrange(pos as int, pos + i + 1));
            i = i + 1;
        }
        Some(v)
    } else {
        None
    }
}

/// Reads `n` little-endian `u16` code units starting at `pos`.
pub fn read_u16_units(d: &[u8], pos: usize, n: usize) -> (r: Option<Vec<u16>>)
    ensures
        pos + 2 * n <= d@.len() ==> (r matches Some(v) && v@.len() == n && (forall|j: int|
            0 <= j < n ==> v@[j] == le16_at(d@, pos + 2 * j))),
        pos + 2 * n > d@.len() ==> r is None,
{
    let len = d.len();
    if n <= usize::MAX / 2 && pos <= len && len - pos >= 2 * n {
        let mut v: Vec<u16> = Vec::new();
        let mut i: usize = 0;
        while i < n
            invariant
                pos + 2 * n <= d@.len(),
                pos + 2 * n <= usize::MAX,
                i <= n,
                v@.len() == i,
                forall|j: int| 0 <= j < i ==> v@[j] == le16_at(d@, pos + 2 * j),
            decreases n - i,
        {
            let unit = read_u16(d, pos + 2 * i).unwrap();
            v.push(unit);
            i = i + 1;
        }
        Some(v)
    } else {
        None
    }
}

} // verus!
