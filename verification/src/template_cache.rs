use vstd::prelude::*;
use std::collections::HashMap;
use crate::binxml::{TemplateDefinition, read_template_definition, spec_template_parses,
    MAX_BINXML_DEPTH};
use crate::bytes::le32_at;
use crate::guid::guid_matches;
use crate::err::{Error, Result};
use crate::name_cache::NameCache;

verus! {

broadcast use vstd::std_specs::hash::group_hash_axioms;

pub type CachedTemplate = TemplateDefinition;

/// Per-chunk memoisation of template definitions, keyed by in-chunk byte
/// offset.  A template at a given offset is parsed at most once per chunk:
/// `ensure_template` leaves the cache untouched when the offset is present.
pub struct TemplateCache {
    pub map: HashMap<u32, CachedTemplate>,
}

impl TemplateCache {
    pub open spec fn contains(&self, k: u32) -> bool {
        self.map@.contains_key(k)
    }

    pub fn new() -> (r: Self)
        ensures
            r.map@ == Map::<u32, CachedTemplate>::empty(),
    {
        TemplateCache { map: HashMap::new() }
    }

    /// Pre-populates the cache from the chunk's template offset table.
    /// It succeeds exactly when every non-zero table offset's definition
    /// parses; the key set is then exactly those offsets (duplicates
    /// collapse, zero entries are skipped), and each cached definition
    /// carries the GUID and size its offset's bytes hold.
    pub fn populate(data: &[u8], offsets: &[u32], nc: &mut NameCache) -> (r: Result<Self>)
        requires
            old(nc).wf(data@),
        ensures
            final(nc).wf(data@),
            (r is Ok) == (forall|i: int|
                0 <= i < offsets@.len() ==> ((#[trigger] offsets@[i]) > 0 ==> spec_template_parses(
                    data@,
                    offsets@[i] as int,
                ))),
            r matches Ok(c) ==> forall|i: int|
                0 <= i < offsets@.len() && offsets@[i] > 0 ==> c.contains(#[trigger] offsets@[i]),
            r matches Ok(c) ==> forall|k: u32| #[trigger]
                c.map@.contains_key(k) ==> k > 0 && offsets@.contains(k),
            r matches Ok(c) ==> forall|k: u32| #[trigger]
                c.map@.contains_key(k) ==> guid_matches(c.map@[k].guid, data@, k + 4)
                && c.map@[k].data_size == le32_at(data@, k + 20),
    {
        let mut cache = TemplateCache::new();
        let mut i: usize = 0;
        while i < offsets.len()
            invariant
                i <= offsets@.len(),
                nc.wf(data@),
                forall|j: int|
                    0 <= j < i ==> ((#[trigger] offsets@[j]) > 0 ==> spec_template_parses(
                        data@,
                        offsets@[j] as int,
                    )),
                forall|j: int|
                    0 <= j < i && offsets@[j] > 0 ==> cache.contains(#[trigger] offsets@[j]),
                forall|k: u32| #[trigger]
                    cache.map@.contains_key(k) ==> k > 0 && offsets@.contains(k),
                forall|k: u32| #[trigger]
                    cache.map@.contains_key(k) ==> guid_matches(cache.map@[k].guid, data@, k + 4)
                        && cache.map@[k].data_size == le32_at(data@, k + 20),
            decreases offsets@.len() - i,
        {
            let offset = offsets[i];
            if offset > 0 {
                match read_template_definition(data, offset as usize, nc, MAX_BINXML_DEPTH) {
                    Ok((definition, _end)) => {
                        proof {
                            assert(offsets@[i as int] == offset);
                            assert(offsets@.contains(offset));
                        }
                        let ghost before = cache.map@;
                        cache.map.insert(offset, definition);
                        proof {
                            assert forall|k: u32| #[trigger]
                                cache.map@.contains_key(k) implies k > 0 && offsets@.contains(
                                k,
                            ) by {
                                if k != offset {
                                    assert(before.contains_key(k));
                                }
                            }
                            assert forall|k: u32| #[trigger]
                                cache.map@.contains_key(k) implies guid_matches(
                                cache.map@[k].guid,
                                data@,
                                k + 4,
                            ) && cache.map@[k].data_size == le32_at(data@, k + 20) by {
                                if k != offset {
                                    assert(before.contains_key(k));
                                }
                            }
                        }
                    },
                    Err(e) => {
                        proof {
                            assert(offsets@[i as int] > 0 && !spec_template_parses(
                                data@,
                                offsets@[i as int] as int,
                            ));
                        }
                        return Err(e);
                    },
                }
            }
            i = i + 1;
        }
        Ok(cache)
    }

    /// Returns the cached definition at `offset`, or `None` when it has not
    /// been parsed.
    pub fn get_template(&self, offset: u32) -> (r: Option<&CachedTemplate>)
        ensures
            match r {
                Some(t) => self.contains(offset) && *t == self.map@[offset],
                None => !self.contains(offset),
            },
    {
        self.map.get(&offset)
    }

    pub fn len(&self) -> (r: usize)
        ensures
            r == self.map@.len(),
    {
        self.map.len()
    }

    /// Makes sure the definition at `offset` is cached, parsing it at most
    /// once: an offset already present leaves the cache exactly as it was,
    /// and an absent one is parsed, succeeding exactly where the
    /// spec-level walk accepts the definition there.
    pub fn ensure_template(&mut self, d: &[u8], offset: u32, nc: &mut NameCache, depth: u32) -> (r:
        Result<()>)
        requires
            old(nc).wf(d@),
        ensures
            final(nc).wf(d@),
            old(self).contains(offset) ==> *final(self) == *old(self) && r is Ok,
            r is Ok ==> final(self).contains(offset),
            forall|k: u32| old(self).contains(k) ==> final(self).contains(k),
            r is Err ==> *final(self) == *old(self),
            !old(self).contains(offset) && depth > 0 ==> ((r is Ok) == spec_template_parses(
                d@,
                offset as int,
            )),
            !old(self).contains(offset) && depth == 0 ==> r is Err,
            r is Ok && !old(self).contains(offset) ==> guid_matches(
                final(self).map@[offset].guid,
                d@,
                offset + 4,
            ) && final(self).map@[offset].data_size == le32_at(d@, offset + 20),
    {
        if self.map.contains_key(&offset) {
            return Ok(());
        }
        match read_template_definition(d, offset as usize, nc, depth) {
            Ok((definition, _end)) => {
                self.map.insert(offset, definition);
                Ok(())
            },
            Err(e) => Err(e),
        }
    }
}

} // verus!
