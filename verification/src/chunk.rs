use vstd::prelude::*;
use vstd::string::*;
use crate::binxml::{parse_record_fragment, MAX_BINXML_DEPTH};
use crate::bytes::{le32_at, le64_at, read_u32, read_u64};
use crate::crc32::{crc32, crc32_of};
use crate::err::Error;
use crate::model::XmlContent;
use crate::name_cache::NameCache;
use crate::template_cache::TemplateCache;
use crate::time::Timestamp;

verus! {

/// A chunk is a 64 KiB self-contained block.
pub const CHUNK_SIZE: usize = 65536;

/// `ElfChnk0`, little endian.
pub const CHUNK_MAGIC: u64 = 0x306B6E6843666C45;

/// `2a2a0000`: the record magic, little endian.
pub const RECORD_MAGIC: u32 = 0x00002A2A;

/// The parsed chunk header fields.
#[derive(Debug, Clone, Copy, PartialEq, Eq, Structural)]
pub struct ChunkHeader {
    pub first_record_number: u64,
    pub last_record_number: u64,
    pub first_record_id: u64,
    pub last_record_id: u64,
    pub header_size: u32,
    pub last_record_data_offset: u32,
    pub free_space_offset: u32,
    pub events_checksum: u32,
    pub header_checksum: u32,
}

pub open spec fn chunk_magic_ok(d: Seq<u8>) -> bool {
    le64_at(d, 0) == CHUNK_MAGIC
}

pub open spec fn spec_free_space_offset(d: Seq<u8>) -> u32 {
    le32_at(d, 48)
}

/// The header CRC covers bytes [0,120) and [128,512).
pub open spec fn chunk_header_crc_ok(d: Seq<u8>) -> bool {
    crc32_of(d.subrange(0, 120) + d.subrange(128, 512)) == le32_at(d, 124)
}

/// The data CRC covers [512, free_space_offset).
pub open spec fn chunk_data_crc_ok(d: Seq<u8>) -> bool {
    crc32_of(d.subrange(512, spec_free_space_offset(d) as int)) == le32_at(d, 52)
}

pub open spec fn spec_chunk_header(d: Seq<u8>) -> ChunkHeader {
    ChunkHeader {
        first_record_number: le64_at(d, 8),
        last_record_number: le64_at(d, 16),
        first_record_id: le64_at(d, 24),
        last_record_id: le64_at(d, 32),
        header_size: le32_at(d, 40),
        last_record_data_offset: le32_at(d, 44),
        free_space_offset: le32_at(d, 48),
        events_checksum: le32_at(d, 52),
        header_checksum: le32_at(d, 124),
    }
}

/// Checks the chunk magic, the free-space bound, and (when asked) the two
/// CRCs, and returns the parsed header.  With `validate_checksums` a CRC
/// mismatch is reported if and only if the checksum really differs.
pub fn validate_chunk(d: &[u8], validate_checksums: bool) -> (r: Result<ChunkHeader, Error>)
    requires
        d@.len() == CHUNK_SIZE,
    ensures
        !chunk_magic_ok(d@) ==> (r matches Err(e) && e matches Error::InvalidEvtxChunkMagic {
            magic,
        } && magic == le64_at(d@, 0)),
        r is Ok ==> chunk_magic_ok(d@) && 512 <= spec_free_space_offset(d@) <= CHUNK_SIZE,
        r matches Ok(h) ==> h == spec_chunk_header(d@),
        validate_checksums && chunk_magic_ok(d@) && 512 <= spec_free_space_offset(d@) <= CHUNK_SIZE
            && !(chunk_header_crc_ok(d@) && chunk_data_crc_ok(d@)) ==> (r matches Err(e)
            && e matches Error::InvalidChunkChecksum {  }),
        validate_checksums && r is Ok ==> chunk_header_crc_ok(d@) && chunk_data_crc_ok(d@),
        chunk_magic_ok(d@) && 512 <= spec_free_space_offset(d@) <= CHUNK_SIZE && (
        !validate_checksums || (chunk_header_crc_ok(d@) && chunk_data_crc_ok(d@))) ==> r is Ok,
{
    let magic = read_u64(d, 0).unwrap();
    if magic != 0x306B6E6843666C45u64 {
        return Err(Error::InvalidEvtxChunkMagic { magic });
    }
    let header = ChunkHeader {
        first_record_number: read_u64(d, 8).unwrap(),
        last_record_number: read_u64(d, 16).unwrap(),
        first_record_id: read_u64(d, 24).unwrap(),
        last_record_id: read_u64(d, 32).unwrap(),
        header_size: read_u32(d, 40).unwrap(),
        last_record_data_offset: read_u32(d, 44).unwrap(),
        free_space_offset: read_u32(d, 48).unwrap(),
        events_checksum: read_u32(d, 52).unwrap(),
        header_checksum: read_u32(d, 124).unwrap(),
    };
    let fso = header.free_space_offset;
    if fso < 512 || fso as usize > CHUNK_SIZE {
        return Err(Error::Any { detail: String::from_str("free space offset out of bounds") });
    }
    if validate_checksums {
        let mut covered: Vec<u8> = Vec::new();
        let mut i: usize = 0;
        while i < 120
            invariant
                i <= 120,
                d@.len() == CHUNK_SIZE,
                covered@ == d@.subrange(0, i as int),
            decreases 120 - i,
        {
            covered.push(d[i]);
            proof {
                assert(covered@ =~= d@.subrange(0, i + 1));
            }
            i = i + 1;
        }
        let mut i: usize = 128;
        while i < 512
            invariant
                128 <= i <= 512,
                d@.len() == CHUNK_SIZE,
                covered@ == d@.subrange(0, 120) + d@.subrange(128, i as int),
            decreases 512 - i,
        {
            covered.push(d[i]);
            proof {
                assert(covered@ =~= d@.subrange(0, 120) + d@.subrange(128, i + 1));
            }
            i = i + 1;
        }
        let header_crc = crc32(covered.as_slice());
        if header_crc != header.header_checksum {
            return Err(Error::InvalidChunkChecksum {  });
        }
        let mut data: Vec<u8> = Vec::new();
        let mut i: usize = 512;
        while i < fso as usize
            invariant
                512 <= i <= fso as usize,
                fso as usize <= CHUNK_SIZE,
                d@.len() == CHUNK_SIZE,
                data@ == d@.subrange(512, i as int),
            decreases fso as usize - i,
        {
            data.push(d[i]);
            proof {
                assert(data@ =~= d@.subrange(512, i + 1));
            }
            i = i + 1;
        }
        let data_crc = crc32(data.as_slice());
        if data_crc != header.events_checksum {
            return Err(Error::InvalidChunkChecksum {  });
        }
    }
    Ok(header)
}

/// One record, expanded: its id, its FILETIME, and its document content.
#[derive(Debug)]
pub struct RecordData {
    pub event_record_id: u64,
    pub timestamp: Timestamp,
    pub content: Vec<XmlContent>,
}

/// The size a record announces at `pos`.
pub open spec fn record_size_at(d: Seq<u8>, pos: int) -> u32 {
    le32_at(d, pos + 4)
}

/// The size repeated at the record's tail.
pub open spec fn record_trailing_size_at(d: Seq<u8>, pos: int) -> u32 {
    le32_at(d, pos + (record_size_at(d, pos) as int) - 4)
}

pub open spec fn record_magic_ok(d: Seq<u8>, pos: int) -> bool {
    le32_at(d, pos) == RECORD_MAGIC
}

/// Parses the record that starts at `pos`.  On success the cursor lands
/// exactly `size` bytes further: the record's announced size, whose copy
/// at the tail must equal the leading one.  A failure behind a good
/// record magic is attributed to that record's id.
pub fn parse_record_at(
    d: &[u8],
    pos: usize,
    fso: usize,
    nc: &mut NameCache,
    tc: &mut TemplateCache,
) -> (r: Result<(RecordData, usize), Error>)
    requires
        pos + 24 <= fso,
        fso <= d@.len(),
        old(nc).wf(d@),
    ensures
        final(nc).wf(d@),
        r matches Ok((rec, np)) ==> {
            &&& record_magic_ok(d@, pos as int)
            &&& np == pos + record_size_at(d@, pos as int)
            &&& pos + 28 <= np
            &&& np <= fso
            &&& record_trailing_size_at(d@, pos as int) == record_size_at(d@, pos as int)
            &&& rec.event_record_id == le64_at(d@, pos + 8)
            &&& rec.timestamp.ticks == le64_at(d@, pos + 16)
        },
        !record_magic_ok(d@, pos as int) ==> (r matches Err(e)
            && e matches Error::InvalidEvtxRecordHeaderMagic { magic } && magic == le32_at(
            d@,
            pos as int,
        )),
        record_magic_ok(d@, pos as int) ==> (r matches Err(e)
            ==> e matches Error::FailedToDeserializeRecord { record_id, source } && record_id
            == le64_at(d@, pos + 8)),
{
    let _dlen = d.len();
    let magic = read_u32(d, pos).unwrap();
    if magic != 0x00002A2Au32 {
        return Err(Error::InvalidEvtxRecordHeaderMagic { magic });
    }
    let size = read_u32(d, pos + 4).unwrap();
    let record_id = read_u64(d, pos + 8).unwrap();
    let ticks = read_u64(d, pos + 16).unwrap();
    if size < 28 || (size as u64) > (fso - pos) as u64 {
        return Err(Error::FailedToDeserializeRecord {
            record_id,
            source: Box::new(Error::FailedToRead {
                offset: pos as u64,
                t: String::from_str("record size"),
            }),
        });
    }
    let np = pos + size as usize;
    let trailing = read_u32(d, np - 4).unwrap();
    if trailing != size {
        return Err(Error::FailedToDeserializeRecord {
            record_id,
            source: Box::new(Error::FailedToRead {
                offset: (np - 4) as u64,
                t: String::from_str("record trailing size"),
            }),
        });
    }
    match parse_record_fragment(d, pos + 24, np - 4, nc, tc, MAX_BINXML_DEPTH) {
        Ok((content, _end)) => Ok((
            RecordData { event_record_id: record_id, timestamp: Timestamp::from_ticks(ticks), content },
            np,
        )),
        Err(e) => Err(Error::FailedToDeserializeRecord { record_id, source: Box::new(e) }),
    }
}

/// How many entries the record walk yields from `pos`: one per record
/// frame, the last one counted alone when its announced size cannot be
/// trusted, and none once the magic ends.
pub open spec fn record_entry_count(d: Seq<u8>, pos: int, fso: int) -> int
    decreases fso - pos,
{
    if pos + 24 > fso {
        0
    } else if le32_at(d, pos) != RECORD_MAGIC {
        0
    } else if record_size_at(d, pos) < 28 || pos + record_size_at(d, pos) > fso {
        1
    } else {
        1 + record_entry_count(d, pos + record_size_at(d, pos), fso)
    }
}

/// The chunk offset where the `i`-th record frame of the walk starts.
pub open spec fn frame_pos(d: Seq<u8>, i: int) -> int
    decreases i,
{
    if i <= 0 {
        512
    } else {
        frame_pos(d, i - 1) + record_size_at(d, frame_pos(d, i - 1))
    }
}

/// Whether one walk entry belongs to the frame at `pos`: a success
/// carries the frame's record id and timestamp; a failure is attributed
/// to the frame's record id.
pub open spec fn entry_matches_frame(e: Result<RecordData, Error>, d: Seq<u8>, pos: int) -> bool {
    match e {
        Ok(rec) => rec.event_record_id == le64_at(d, pos + 8) && rec.timestamp.ticks == le64_at(
            d,
            pos + 16,
        ),
        Err(er) => er matches Error::FailedToDeserializeRecord { record_id, source } && record_id
            == le64_at(d, pos + 8),
    }
}

/// Walks a validated chunk's record area and returns one entry per
/// record: the expanded record, or the error attributed to it.  A record
/// that fails leaves the cursor at the boundary its size announced; a
/// record whose frame cannot be trusted ends the chunk.  The number of
/// entries equals the record walk's count, and entry `i` belongs to
/// frame `i`: a success carries that frame's id and timestamp, a failure
/// is a `FailedToDeserializeRecord` attributed to that frame's id.  A
/// template table that fails to pre-parse is simply not pre-parsed:
/// definitions load on demand, and only the records that need a broken
/// one fail.
pub fn chunk_records(d: &[u8], header: &ChunkHeader) -> (r: Vec<Result<RecordData, Error>>)
    requires
        d@.len() == CHUNK_SIZE,
        512 <= header.free_space_offset <= CHUNK_SIZE,
    ensures
        r@.len() == record_entry_count(d@, 512, header.free_space_offset as int),
        forall|i: int|
            0 <= i < r@.len() ==> entry_matches_frame(#[trigger] r@[i], d@, frame_pos(d@, i)),
{
    let fso = header.free_space_offset as usize;
    let mut nc = NameCache::new();
    let offsets = read_template_table(d);
    let mut out: Vec<Result<RecordData, Error>> = Vec::new();
    let mut tc = match TemplateCache::populate(d, offsets.as_slice(), &mut nc) {
        Ok(tc) => tc,
        Err(_) => TemplateCache::new(),
    };
    let mut pos: usize = 512;
    while pos + 24 <= fso
        invariant_except_break
            nc.wf(d@),
            d@.len() == CHUNK_SIZE,
            512 <= pos <= fso,
            fso <= CHUNK_SIZE,
            pos == frame_pos(d@, out@.len() as int),
            out@.len() + record_entry_count(d@, pos as int, fso as int) == record_entry_count(
                d@,
                512,
                fso as int,
            ),
            forall|i: int|
                0 <= i < out@.len() ==> entry_matches_frame(
                    #[trigger] out@[i],
                    d@,
                    frame_pos(d@, i),
                ),
        ensures
            out@.len() == record_entry_count(d@, 512, fso as int),
            forall|i: int|
                0 <= i < out@.len() ==> entry_matches_frame(
                    #[trigger] out@[i],
                    d@,
                    frame_pos(d@, i),
                ),
        decreases fso - pos,
    {
        // trailing free space that holds no further record
        if read_u32(d, pos).unwrap() != 0x00002A2Au32 {
            proof {
                assert(record_entry_count(d@, pos as int, fso as int) == 0);
            }
            break;
        }
        let ghost entry_index = out@.len() as int;
        match parse_record_at(d, pos, fso, &mut nc, &mut tc) {
            Ok((rec, np)) => {
                proof {
                    assert(record_entry_count(d@, pos as int, fso as int) == 1
                        + record_entry_count(d@, np as int, fso as int));
                    assert(frame_pos(d@, entry_index + 1) == np);
                }
                out.push(Ok(rec));
                pos = np;
            },
            Err(e) => {
                // skip to the boundary the announced size gives; when even
                // that cannot be read, the chunk ends here
                let size = read_u32(d, pos + 4).unwrap();
                out.push(Err(e));
                if size >= 28 && (size as u64) <= (fso - pos) as u64 {
                    proof {
                        assert(record_entry_count(d@, pos as int, fso as int) == 1
                            + record_entry_count(d@, pos + size, fso as int));
                        assert(frame_pos(d@, entry_index + 1) == pos + size);
                    }
                    pos = pos + size as usize;
                } else {
                    proof {
                        assert(record_entry_count(d@, pos as int, fso as int) == 1);
                    }
                    break;
                }
            },
        }
    }
    out
}

/// Reads the chunk's 32-entry template offset table at byte 384.
fn read_template_table(d: &[u8]) -> (r: Vec<u32>)
    requires
        d@.len() == CHUNK_SIZE,
    ensures
        r@.len() == 32,
        forall|i: int| 0 <= i < 32 ==> r@[i] == le32_at(d@, 384 + 4 * i),
{
    let mut out: Vec<u32> = Vec::new();
    let mut i: usize = 0;
    while i < 32
        invariant
            i <= 32,
            d@.len() == CHUNK_SIZE,
            out@.len() == i,
            forall|j: int| 0 <= j < i ==> out@[j] == le32_at(d@, 384 + 4 * j),
        decreases 32 - i,
    {
        out.push(read_u32(d, 384 + 4 * i).unwrap());
        i = i + 1;
    }
    out
}

} // verus!
