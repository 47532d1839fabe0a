use vstd::prelude::*;
use crate::bytes::{le32_at, read_u32};
use crate::text::{dec_str, push_char, dec_u64};

verus! {

/// An NT security identifier.
#[derive(Debug, Clone)]
pub struct Sid {
    pub revision: u8,
    pub authority: u64,
    pub sub_authorities: Vec<u32>,
}

/// The 48-bit big-endian identifier authority at position `i`.
pub open spec fn authority_at(d: Seq<u8>, i: int) -> u64 {
    (d[i] as u64 * 0x100_0000_0000 + d[i + 1] as u64 * 0x1_0000_0000 + d[i + 2] as u64 * 0x100_0000
        + d[i + 3] as u64 * 0x1_0000 + d[i + 4] as u64 * 0x100 + d[i + 5] as u64) as u64
}

/// The `-{sub}` tail of the canonical form.
pub open spec fn sub_authorities_str(subs: Seq<u32>) -> Seq<char>
    decreases subs.len(),
{
    if subs.len() == 0 {
        Seq::empty()
    } else {
        seq!['-'] + dec_str(subs[0] as nat) + sub_authorities_str(subs.drop_first())
    }
}

/// Canonical `S-R-I-S…` rendering.
pub open spec fn sid_string(s: Sid) -> Seq<char> {
    seq!['S', '-'] + dec_str(s.revision as nat) + seq!['-'] + dec_str(s.authority as nat)
        + sub_authorities_str(s.sub_authorities@)
}

/// Whether `s` holds exactly the on-disk SID at `i` (which needs
/// `8 + 4 * count` bytes).
pub open spec fn sid_matches(s: Sid, d: Seq<u8>, i: int) -> bool {
    &&& s.revision == d[i]
    &&& s.sub_authorities@.len() == d[i + 1]
    &&& s.authority == authority_at(d, i + 2)
    &&& forall|j: int|
        0 <= j < s.sub_authorities@.len() ==> s.sub_authorities@[j] == le32_at(d, i + 8 + 4 * j)
}

impl Sid {
    /// Reads the on-disk SID layout; `None` when the buffer is too short
    /// for the header or the announced sub-authority count.
    pub fn from_bytes(d: &[u8], pos: usize) -> (r: Option<(Sid, usize)>)
        ensures
            match r {
                Some((s, np)) => {
                    &&& pos + 8 <= d@.len()
                    &&& sid_matches(s, d@, pos as int)
                    &&& np == pos + 8 + 4 * (d@[pos + 1] as int)
                    &&& np <= d@.len()
                },
                None => pos + 8 > d@.len() || pos + 8 + 4 * (d@[pos + 1] as int) > d@.len(),
            },
    {
        let len = d.len();
        if pos >= len || len - pos < 8 {
            return None;
        }
        let revision = d[pos];
        let count = d[pos + 1];
        if len - pos - 8 < 4 * (count as usize) {
            return None;
        }
        let authority: u64 = (d[pos + 2] as u64) * 0x100_0000_0000 + (d[pos + 3] as u64)
            * 0x1_0000_0000 + (d[pos + 4] as u64) * 0x100_0000 + (d[pos + 5] as u64) * 0x1_0000 + (
        d[pos + 6] as u64) * 0x100 + (d[pos + 7] as u64);
        let mut subs: Vec<u32> = Vec::new();
        let mut j: usize = 0;
        while j < count as usize
            invariant
                j <= count,
                pos + 8 + 4 * count <= d@.len(),
                pos + 8 + 4 * count <= usize::MAX,
                subs@.len() == j,
                forall|k: int| 0 <= k < j ==> subs@[k] == le32_at(d@, pos + 8 + 4 * k),
            decreases count - j,
        {
            let v = read_u32(d, pos + 8 + 4 * j).unwrap();
            subs.push(v);
            j = j + 1;
        }
        let s = Sid { revision, authority, sub_authorities: subs };
        Some((s, pos + 8 + 4 * (count as usize)))
    }

    /// Canonical `S-R-I-S…` rendering.
    pub fn to_display_string(&self) -> (r: String)
        ensures
            r@ == sid_string(*self),
    {
        let mut s = String::new();
        push_char(&mut s, 'S');
        push_char(&mut s, '-');
        let rev = dec_u64(self.revision as u64);
        let mut s = s.concat(rev.as_str());
        push_char(&mut s, '-');
        let auth = dec_u64(self.authority);
        let mut s = s.concat(auth.as_str());
        let ghost head = s@;
        proof {
            assert(head =~= seq!['S', '-'] + dec_str(self.revision as nat) + seq!['-'] + dec_str(
                self.authority as nat,
            ));
        }
        let mut i: usize = 0;
        let n = self.sub_authorities.len();
        proof {
            assert(self.sub_authorities@.skip(0) =~= self.sub_authorities@);
        }
        while i < n
            invariant
                i <= n,
                n == self.sub_authorities@.len(),
                head + sub_authorities_str(self.sub_authorities@) == s@ + sub_authorities_str(
                    self.sub_authorities@.skip(i as int),
                ),
        decreases n - i,
        {
            let ghost pre = s@;
            let ghost tail = self.sub_authorities@.skip(i as int);
            push_char(&mut s, '-');
            let sa = dec_u64(self.sub_authorities[i] as u64);
            s = s.concat(sa.as_str());
            proof {
                assert(tail[0] == self.sub_authorities@[i as int]);
                assert(tail.drop_first() =~= self.sub_authorities@.skip(i + 1));
                assert(sub_authorities_str(tail) == seq!['-'] + dec_str(tail[0] as nat)
                    + sub_authorities_str(self.sub_authorities@.skip(i + 1)));
                assert(s@ =~= pre + (seq!['-'] + dec_str(tail[0] as nat)));
                assert(pre + sub_authorities_str(tail) =~= s@ + sub_authorities_str(
                    self.sub_authorities@.skip(i + 1),
                ));
            }
            i = i + 1;
        }
        proof {
            assert(self.sub_authorities@.skip(n as int) =~= Seq::<u32>::empty());
            assert(sub_authorities_str(Seq::<u32>::empty()) == Seq::<char>::empty());
            assert(s@ + Seq::<char>::empty() =~= s@);
            assert(s@ =~= sid_string(*self));
        }
        s
    }
}

} // verus!
