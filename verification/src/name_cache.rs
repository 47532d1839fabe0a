use vstd::prelude::*;
use vstd::string::*;
use std::collections::HashMap;
use crate::bytes::{le16_at, read_u16, read_u16_units};
use crate::err::Error;
use crate::text::{utf16_decode, utf16_to_string};

verus! {

broadcast use vstd::std_specs::hash::group_hash_axioms;

/// The code units of the name entry at offset `o`: a name entry is
/// (next-name offset u32, hash u16, length u16, UTF-16LE units).
pub open spec fn name_units_at(d: Seq<u8>, o: int) -> Seq<u16> {
    Seq::new(le16_at(d, o + 6) as nat, |j: int| le16_at(d, o + 8 + 2 * j))
}

/// Whether a whole name entry lies inside the chunk.
pub open spec fn name_in_bounds(d: Seq<u8>, o: int) -> bool {
    o >= 0 && o + 8 + 2 * (le16_at(d, o + 6) as int) <= d.len()
}

/// The interned text for the name entry at `o`: `None` when the entry runs
/// past the chunk or its code units are ill-formed UTF-16.
pub open spec fn name_chars_at(d: Seq<u8>, o: int) -> Option<Seq<char>> {
    if name_in_bounds(d, o) {
        utf16_decode(name_units_at(d, o))
    } else {
        None
    }
}

/// Per-chunk memoisation of name entries, keyed by in-chunk byte offset.
/// Interning is lazy: an offset is read and decoded on first reference.
pub struct NameCache {
    pub map: HashMap<u32, String>,
}

impl NameCache {
    /// Every cached entry is exactly what the chunk holds at that offset.
    pub open spec fn wf(&self, d: Seq<u8>) -> bool {
        forall|k: u32| #[trigger]
            self.map@.contains_key(k) ==> name_chars_at(d, k as int) == Some(self.map@[k]@)
    }

    pub open spec fn contains(&self, k: u32) -> bool {
        self.map@.contains_key(k)
    }

    pub fn new() -> (r: Self)
        ensures
            r.map@ == Map::<u32, String>::empty(),
    {
        NameCache { map: HashMap::new() }
    }

    /// Returns the interned name at `offset`, reading it on first use.
    /// `Ok` comes exactly on the offsets whose entry lies inside the chunk
    /// and decodes; the text is a pure function of chunk and offset.
    pub fn get_name(&mut self, d: &[u8], offset: u32) -> (r: Result<String, Error>)
        requires
            old(self).wf(d@),
        ensures
            final(self).wf(d@),
            r matches Ok(s) ==> name_chars_at(d@, offset as int) == Some(s@),
            r is Err ==> name_chars_at(d@, offset as int) is None,
            final(self).contains(offset) == (r is Ok),
            forall|k: u32| old(self).contains(k) ==> final(self).contains(k),
    {
        if let Some(s) = self.map.get(&offset) {
            return Ok(s.clone());
        }
        let off = offset as usize;
        let len = d.len();
        if len < 8 || off > len - 8 {
            return Err(Error::FailedToRead {
                offset: offset as u64,
                t: String::from_str("name entry"),
            });
        }
        let nlen = read_u16(d, off + 6).unwrap();
        let units = match read_u16_units(d, off + 8, nlen as usize) {
            Some(u) => u,
            None => {
                return Err(Error::FailedToRead {
                    offset: offset as u64,
                    t: String::from_str("name entry"),
                });
            },
        };
        proof {
            assert(units@ =~= name_units_at(d@, offset as int));
        }
        let s = match utf16_to_string(&units) {
            Some(s) => s,
            None => {
                return Err(Error::FailedToDecodeUTF16String { offset: offset as u64 });
            },
        };
        self.map.insert(offset, s.clone());
        Ok(s)
    }
}

/// Name interning: the text handed out for an offset is a function of the
/// chunk and the offset alone, so two references to the same name offset
/// receive equal strings.
pub proof fn lemma_name_interning(d: Seq<u8>, offset: u32, s1: Seq<char>, s2: Seq<char>)
    requires
        name_chars_at(d, offset as int) == Some(s1),
        name_chars_at(d, offset as int) == Some(s2),
    ensures
        s1 == s2,
{
}


} // verus!
