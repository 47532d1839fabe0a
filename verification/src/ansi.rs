use vstd::prelude::*;
use crate::text::{push_char, char_from_u32};

verus! {

/// The Unicode code point for one Windows-1252 byte.  Bytes outside
/// 0x80..0x9F keep their value; that window holds the printable extras.
pub open spec fn cp1252_code(b: u8) -> u32 {
    if b < 0x80 || b >= 0xA0 {
        b as u32
    } else if b == 0x80 {
        0x20AC
    } else if b == 0x82 {
        0x201A
    } else if b == 0x83 {
        0x0192
    } else if b == 0x84 {
        0x201E
    } else if b == 0x85 {
        0x2026
    } else if b == 0x86 {
        0x2020
    } else if b == 0x87 {
        0x2021
    } else if b == 0x88 {
        0x02C6
    } else if b == 0x89 {
        0x2030
    } else if b == 0x8A {
        0x0160
    } else if b == 0x8B {
        0x2039
    } else if b == 0x8C {
        0x0152
    } else if b == 0x8E {
        0x017D
    } else if b == 0x91 {
        0x2018
    } else if b == 0x92 {
        0x2019
    } else if b == 0x93 {
        0x201C
    } else if b == 0x94 {
        0x201D
    } else if b == 0x95 {
        0x2022
    } else if b == 0x96 {
        0x2013
    } else if b == 0x97 {
        0x2014
    } else if b == 0x98 {
        0x02DC
    } else if b == 0x99 {
        0x2122
    } else if b == 0x9A {
        0x0161
    } else if b == 0x9B {
        0x203A
    } else if b == 0x9C {
        0x0153
    } else if b == 0x9E {
        0x017E
    } else if b == 0x9F {
        0x0178
    } else {
        b as u32
    }
}

/// The Windows-1252 decoding of a byte sequence.
pub open spec fn cp1252_decode(s: Seq<u8>) -> Seq<char> {
    Seq::new(s.len(), |i: int| cp1252_code(s[i]) as char)
}

fn cp1252_to_char(b: u8) -> (r: char)
    ensures
        r == cp1252_code(b) as char,
{
    let code: u32 = if b < 0x80 || b >= 0xA0 {
        b as u32
    } else if b == 0x80 {
        0x20AC
    } else if b == 0x82 {
        0x201A
    } else if b == 0x83 {
        0x0192
    } else if b == 0x84 {
        0x201E
    } else if b == 0x85 {
        0x2026
    } else if b == 0x86 {
        0x2020
    } else if b == 0x87 {
        0x2021
    } else if b == 0x88 {
        0x02C6
    } else if b == 0x89 {
        0x2030
    } else if b == 0x8A {
        0x0160
    } else if b == 0x8B {
        0x2039
    } else if b == 0x8C {
        0x0152
    } else if b == 0x8E {
        0x017D
    } else if b == 0x91 {
        0x2018
    } else if b == 0x92 {
        0x2019
    } else if b == 0x93 {
        0x201C
    } else if b == 0x94 {
        0x201D
    } else if b == 0x95 {
        0x2022
    } else if b == 0x96 {
        0x2013
    } else if b == 0x97 {
        0x2014
    } else if b == 0x98 {
        0x02DC
    } else if b == 0x99 {
        0x2122
    } else if b == 0x9A {
        0x0161
    } else if b == 0x9B {
        0x203A
    } else if b == 0x9C {
        0x0153
    } else if b == 0x9E {
        0x017E
    } else if b == 0x9F {
        0x0178
    } else {
        b as u32
    };
    char_from_u32(code)
}

/// Decodes Windows-1252 text, the default codec for `AnsiString` values.
pub fn cp1252_to_string(bytes: &[u8]) -> (r: String)
    ensures
        r@ == cp1252_decode(bytes@),
{
    let mut s = String::new();
    let mut i: usize = 0;
    while i < bytes.len()
        invariant
            i <= bytes@.len(),
            s@ == cp1252_decode(bytes@).take(i as int),
        decreases bytes@.len() - i,
    {
        push_char(&mut s, cp1252_to_char(bytes[i]));
        proof {
            assert(cp1252_decode(bytes@).take(i + 1) =~= cp1252_decode(bytes@).take(i as int).push(
                cp1252_code(bytes@[i as int]) as char,
            ));
        }
        i = i + 1;
    }
    proof {
        assert(cp1252_decode(bytes@).take(bytes@.len() as int) =~= cp1252_decode(bytes@));
    }
    s
}

} // verus!
