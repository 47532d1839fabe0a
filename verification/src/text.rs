use vstd::prelude::*;
use vstd::string::*;

verus! {

/// The character for one decimal digit.
pub open spec fn digit_char(d: nat) -> char {
    (0x30 + d) as char
}

/// The character for one hexadecimal digit, upper case.
pub open spec fn hex_char_upper(d: nat) -> char {
    if d < 10 {
        (0x30 + d) as char
    } else {
        (0x37 + d) as char
    }
}

/// The character for one hexadecimal digit, lower case.
pub open spec fn hex_char_lower(d: nat) -> char {
    if d < 10 {
        (0x30 + d) as char
    } else {
        (0x57 + d) as char
    }
}

/// Decimal rendering of a natural number, no leading zeros.
pub open spec fn dec_str(n: nat) -> Seq<char>
    decreases n,
{
    if n < 10 {
        seq![digit_char(n)]
    } else {
        dec_str(n / 10).push(digit_char(n % 10))
    }
}

/// Decimal rendering of a signed number: a minus sign, then the magnitude.
pub open spec fn dec_str_signed(n: int) -> Seq<char> {
    if n >= 0 {
        dec_str(n as nat)
    } else {
        seq!['-'] + dec_str((-n) as nat)
    }
}

/// Hexadecimal rendering, lower case, no leading zeros.
pub open spec fn hex_str(n: nat) -> Seq<char>
    decreases n,
{
    if n < 16 {
        seq![hex_char_lower(n)]
    } else {
        hex_str(n / 16).push(hex_char_lower(n % 16))
    }
}

/// Upper-case hex rendering of a byte sequence, two digits per byte.
pub open spec fn hex_bytes_upper(s: Seq<u8>) -> Seq<char>
    decreases s.len(),
{
    if s.len() == 0 {
        Seq::empty()
    } else {
        seq![
            hex_char_upper((s[0] / 16) as nat),
            hex_char_upper((s[0] % 16) as nat),
        ] + hex_bytes_upper(s.drop_first())
    }
}

/// Lower-case hex rendering of a byte sequence, two digits per byte.
pub open spec fn hex_bytes_lower(s: Seq<u8>) -> Seq<char>
    decreases s.len(),
{
    if s.len() == 0 {
        Seq::empty()
    } else {
        seq![
            hex_char_lower((s[0] / 16) as nat),
            hex_char_lower((s[0] % 16) as nat),
        ] + hex_bytes_lower(s.drop_first())
    }
}

/// UTF-16 decoding: a surrogate pair combines into one supplementary
/// character; an unpaired surrogate makes the whole sequence ill-formed.
pub open spec fn utf16_decode(units: Seq<u16>) -> Option<Seq<char>>
    decreases units.len(),
{
    if units.len() == 0 {
        Some(Seq::empty())
    } else {
        let u = units[0];
        if u < 0xD800 || u >= 0xE000 {
            match utf16_decode(units.drop_first()) {
                Some(rest) => Some(seq![u as char] + rest),
                None => None,
            }
        } else if u < 0xDC00 && units.len() >= 2 && 0xDC00 <= units[1] && units[1] < 0xE000 {
            let c = (0x10000 + (u - 0xD800) * 0x400 + (units[1] - 0xDC00)) as char;
            match utf16_decode(units.skip(2)) {
                Some(rest) => Some(seq![c] + rest),
                None => None,
            }
        } else {
            None
        }
    }
}

/// Relies on `String::push`: appends exactly the one character.
#[verifier::external_body]
pub fn push_char(s: &mut String, c: char)
    ensures
        final(s)@ == old(s)@.push(c),
{
    s.push(c);
}

/// Relies on `char::from_u32`: every non-surrogate code point up to
/// 0x10FFFF is `Some` of that scalar value.
#[verifier::external_body]
pub fn char_from_u32(v: u32) -> (r: char)
    requires
        v < 0xD800 || (0xE000 <= v && v <= 0x10FFFF),
    ensures
        r == v as char,
{
    char::from_u32(v).unwrap_or('\u{FFFD}')
}

/// One decimal digit as a character.
pub fn digit_to_char(d: u8) -> (r: char)
    requires
        d < 10,
    ensures
        r == digit_char(d as nat),
{
    (0x30 + d) as char
}

/// One hexadecimal digit as a character.
pub fn hex_to_char_upper(d: u8) -> (r: char)
    requires
        d < 16,
    ensures
        r == hex_char_upper(d as nat),
{
    if d < 10 {
        (0x30 + d) as char
    } else {
        (0x37 + d) as char
    }
}

pub fn hex_to_char_lower(d: u8) -> (r: char)
    requires
        d < 16,
    ensures
        r == hex_char_lower(d as nat),
{
    if d < 10 {
        (0x30 + d) as char
    } else {
        (0x57 + d) as char
    }
}

/// Decimal rendering of a `u64`.
pub fn dec_u64(v: u64) -> (r: String)
    ensures
        r@ == dec_str(v as nat),
    decreases v,
{
    if v < 10 {
        let mut s = String::new();
        push_char(&mut s, digit_to_char(v as u8));
        assert(s@ =~= dec_str(v as nat));
        s
    } else {
        let mut s = dec_u64(v / 10);
        push_char(&mut s, digit_to_char((v % 10) as u8));
        s
    }
}

/// Decimal rendering of an `i64`, with a minus sign for negatives.
pub fn dec_i64(v: i64) -> (r: String)
    ensures
        r@ == dec_str_signed(v as int),
{
    if v >= 0 {
        dec_u64(v as u64)
    } else {
        let mag: u64 = if v == i64::MIN {
            0x8000_0000_0000_0000u64
        } else {
            (-v) as u64
        };
        let mut s = String::new();
        push_char(&mut s, '-');
        let m = dec_u64(mag);
        let r = s.concat(m.as_str());
        assert(r@ =~= dec_str_signed(v as int));
        r
    }
}

/// Lower-case hex rendering of a `u64`, no leading zeros.
pub fn hex_u64(v: u64) -> (r: String)
    ensures
        r@ == hex_str(v as nat),
    decreases v,
{
    if v < 16 {
        let mut s = String::new();
        push_char(&mut s, hex_to_char_lower(v as u8));
        assert(s@ =~= hex_str(v as nat));
        s
    } else {
        let mut s = hex_u64(v / 16);
        push_char(&mut s, hex_to_char_lower((v % 16) as u8));
        s
    }
}

/// Upper-case hex rendering of a byte string.
pub fn hex_upper_of_bytes(b: &[u8]) -> (r: String)
    ensures
        r@ == hex_bytes_upper(b@),
{
    let mut s = String::new();
    let mut i: usize = 0;
    while i < b.len()
        invariant
            i <= b@.len(),
            s@ == hex_bytes_upper(b@.take(i as int)),
        decreases b@.len() - i,
    {
        let byte = b[i];
        push_char(&mut s, hex_to_char_upper(byte / 16));
        push_char(&mut s, hex_to_char_upper(byte % 16));
        proof {
            lemma_hex_bytes_upper_snoc(b@, i as int);
        }
        i = i + 1;
    }
    proof {
        assert(b@.take(b@.len() as int) =~= b@);
    }
    s
}

/// Appending one byte appends its two digits.
proof fn lemma_hex_bytes_upper_snoc(s: Seq<u8>, i: int)
    requires
        0 <= i < s.len(),
    ensures
        hex_bytes_upper(s.take(i + 1)) == hex_bytes_upper(s.take(i)).push(
            hex_char_upper((s[i] / 16) as nat),
        ).push(hex_char_upper((s[i] % 16) as nat)),
    decreases i,
{
    if i == 0 {
        assert(s.take(1).drop_first() =~= Seq::<u8>::empty());
        assert(s.take(0) =~= Seq::<u8>::empty());
        assert(hex_bytes_upper(Seq::<u8>::empty()) == Seq::<char>::empty());
        assert(s.take(1)[0] == s[0]);
        assert(hex_bytes_upper(s.take(1)) =~= hex_bytes_upper(s.take(0)).push(
            hex_char_upper((s[0] / 16) as nat),
        ).push(hex_char_upper((s[0] % 16) as nat)));
    } else {
        lemma_hex_bytes_upper_snoc(s.drop_first(), i - 1);
        assert(s.take(i + 1).drop_first() =~= s.drop_first().take(i));
        assert(s.take(i).drop_first() =~= s.drop_first().take(i - 1));
        assert(s.take(i + 1)[0] == s[0]);
        assert(s.take(i)[0] == s[0]);
        assert(s.drop_first()[i - 1] == s[i]);
        assert(hex_bytes_upper(s.take(i + 1)) =~= hex_bytes_upper(s.take(i)).push(
            hex_char_upper((s[i] / 16) as nat),
        ).push(hex_char_upper((s[i] % 16) as nat)));
    }
}

/// Decodes UTF-16LE code units into a string; `None` on an unpaired surrogate.
pub fn utf16_to_string(units: &Vec<u16>) -> (r: Option<String>)
    ensures
        match r {
            Some(s) => utf16_decode(units@) == Some(s@),
            None => utf16_decode(units@) is None,
        },
{
    let mut out = String::new();
    let mut i: usize = 0;
    let n = units.len();
    proof {
        assert(units@.skip(0) =~= units@);
        let ro = utf16_decode(units@);
        if ro is Some {
            assert(out@ + ro->0 =~= ro->0);
        }
    }
    while i < n
        invariant
            i <= n,
            n == units@.len(),
            utf16_decode(units@) == (match utf16_decode(units@.skip(i as int)) {
                Some(t) => Some(out@ + t),
                None => None::<Seq<char>>,
            }),
        decreases n - i,
    {
        let ghost pre = out@;
        let ghost tail = units@.skip(i as int);
        let u = units[i];
        if u < 0xD800 || u >= 0xE000 {
            push_char(&mut out, char_from_u32(u as u32));
            proof {
                assert(tail[0] == u);
                assert(tail.drop_first() =~= units@.skip(i + 1));
                let ro = utf16_decode(units@.skip(i + 1));
                if ro is Some {
                    let t = ro->0;
                    assert(utf16_decode(tail) == Some(seq![u as char] + t));
                    assert(pre + (seq![u as char] + t) =~= out@ + t);
                } else {
                    assert(utf16_decode(tail) is None);
                }
            }
            i = i + 1;
        } else if u < 0xDC00 && i + 1 < n && 0xDC00 <= units[i + 1] && units[i + 1] < 0xE000 {
            let lo = units[i + 1];
            let cp: u32 = 0x10000 + (u as u32 - 0xD800) * 0x400 + (lo as u32 - 0xDC00);
            let c = char_from_u32(cp);
            push_char(&mut out, c);
            proof {
                assert(tail[0] == u);
                assert(tail[1] == lo);
                assert(tail.skip(2) =~= units@.skip(i + 2));
                let ro = utf16_decode(units@.skip(i + 2));
                if ro is Some {
                    let t = ro->0;
                    assert(utf16_decode(tail) == Some(seq![cp as char] + t));
                    assert(pre + (seq![cp as char] + t) =~= out@ + t);
                } else {
                    assert(utf16_decode(tail) is None);
                }
            }
            i = i + 2;
        } else {
            proof {
                assert(tail[0] == u);
                assert(utf16_decode(tail) is None);
            }
            return None;
        }
    }
    proof {
        assert(units@.skip(n as int) =~= Seq::<u16>::empty());
        assert(out@ + Seq::<char>::empty() =~= out@);
    }
    Some(out)
}

} // verus!
