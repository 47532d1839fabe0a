use vstd::prelude::*;
use crate::bytes::{le16_at, le32_at, read_u16, read_u32, read_bytes};
use crate::text::{hex_char_lower, push_char, hex_to_char_lower};

verus! {

/// A GUID, kept as its four on-disk groups.
#[derive(Debug, Clone)]
pub struct Guid {
    pub data1: u32,
    pub data2: u16,
    pub data3: u16,
    pub data4: Vec<u8>,
}

/// Zero-padded lower-case hex of a value that fits `w` digits.
pub open spec fn hex_pad(n: nat, w: nat) -> Seq<char>
    decreases w,
{
    if w == 0 {
        Seq::empty()
    } else {
        hex_pad(n / 16, (w - 1) as nat).push(hex_char_lower(n % 16))
    }
}

pub open spec fn guid_wf(g: Guid) -> bool {
    g.data4@.len() == 8
}

/// The canonical 8-4-4-4-12 rendering of a GUID.
pub open spec fn guid_string(g: Guid) -> Seq<char> {
    hex_pad(g.data1 as nat, 8) + seq!['-'] + hex_pad(g.data2 as nat, 4) + seq!['-'] + hex_pad(
        g.data3 as nat,
        4,
    ) + seq!['-'] + hex_pad(g.data4@[0] as nat, 2) + hex_pad(g.data4@[1] as nat, 2) + seq!['-']
        + hex_pad(g.data4@[2] as nat, 2) + hex_pad(g.data4@[3] as nat, 2) + hex_pad(
        g.data4@[4] as nat,
        2,
    ) + hex_pad(g.data4@[5] as nat, 2) + hex_pad(g.data4@[6] as nat, 2) + hex_pad(
        g.data4@[7] as nat,
        2,
    )
}

/// Whether `g` holds exactly the 16-byte on-disk GUID at `i`.
pub open spec fn guid_matches(g: Guid, d: Seq<u8>, i: int) -> bool {
    &&& g.data1 == le32_at(d, i)
    &&& g.data2 == le16_at(d, i + 4)
    &&& g.data3 == le16_at(d, i + 6)
    &&& g.data4@ == d.subrange(i + 8, i + 16)
}

impl Guid {
    /// Reads the 16-byte on-disk GUID layout.
    pub fn from_bytes(d: &[u8], pos: usize) -> (r: Option<Guid>)
        ensures
            pos + 16 <= d@.len() ==> (r matches Some(g) && guid_matches(g, d@, pos as int)
                && guid_wf(g)),
            pos + 16 > d@.len() ==> r is None,
    {
        if pos <= d.len() && d.len() - pos >= 16 {
            let data1 = read_u32(d, pos).unwrap();
            let data2 = read_u16(d, pos + 4).unwrap();
            let data3 = read_u16(d, pos + 6).unwrap();
            let data4 = read_bytes(d, pos + 8, 8).unwrap();
            let g = Guid { data1, data2, data3, data4 };
            Some(g)
        } else {
            None
        }
    }

    /// Canonical 8-4-4-4-12 lower-case rendering.
    pub fn to_display_string(&self) -> (r: String)
        requires
            guid_wf(*self),
        ensures
            r@ == guid_string(*self),
    {
        let mut s = String::new();
        push_hex_pad(&mut s, self.data1 as u64, 8);
        push_char(&mut s, '-');
        push_hex_pad(&mut s, self.data2 as u64, 4);
        push_char(&mut s, '-');
        push_hex_pad(&mut s, self.data3 as u64, 4);
        push_char(&mut s, '-');
        push_hex_pad(&mut s, self.data4[0] as u64, 2);
        push_hex_pad(&mut s, self.data4[1] as u64, 2);
        push_char(&mut s, '-');
        push_hex_pad(&mut s, self.data4[2] as u64, 2);
        push_hex_pad(&mut s, self.data4[3] as u64, 2);
        push_hex_pad(&mut s, self.data4[4] as u64, 2);
        push_hex_pad(&mut s, self.data4[5] as u64, 2);
        push_hex_pad(&mut s, self.data4[6] as u64, 2);
        push_hex_pad(&mut s, self.data4[7] as u64, 2);
        proof {
            assert(s@ =~= guid_string(*self));
        }
        s
    }
}

/// Appends `w` hex digits of `v`, zero padded, most significant first.
pub fn push_hex_pad(s: &mut String, v: u64, w: usize)
    ensures
        final(s)@ == old(s)@ + hex_pad(v as nat, w as nat),
    decreases w,
{
    if w == 0 {
        proof {
            assert(old(s)@ + hex_pad(v as nat, 0) =~= old(s)@);
        }
    } else {
        push_hex_pad(s, v / 16, w - 1);
        push_char(s, hex_to_char_lower((v % 16) as u8));
        proof {
            assert((old(s)@ + hex_pad((v / 16) as nat, (w - 1) as nat)).push(
                hex_char_lower((v % 16) as nat),
            ) =~= old(s)@ + hex_pad(v as nat, w as nat));
        }
    }
}

} // verus!
