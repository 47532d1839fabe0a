use vstd::prelude::*;
use vstd::string::*;
use crate::bytes::{le16_at, le32_at, le64_at, read_u16, read_u32, read_u64, read_bytes};
use crate::chunk::{CHUNK_SIZE, RecordData, validate_chunk, chunk_records, chunk_magic_ok,
    chunk_header_crc_ok, chunk_data_crc_ok, spec_free_space_offset, record_entry_count,
    entry_matches_frame, frame_pos};
use crate::err::Error;
use crate::evtx_structure::{EvtxStructure, EvtxXmlElement, StructureBuilder, EvtxStructureVisitor,
    visit_record};
use crate::json_output::record_to_json_string;
use crate::model::{XmlContent, XmlNode};
use crate::settings::ParserSettings;
use crate::time::Timestamp;
use crate::xml_output::render_record_xml;

verus! {

/// The file header fills the first 4096 bytes.
pub const FILE_HEADER_SIZE: usize = 4096;

/// `ElfFile0`, little endian.
pub const FILE_MAGIC: u64 = 0x30656C6946666C45;

/// The parsed file header fields.
#[derive(Debug, Clone, Copy, PartialEq, Eq, Structural)]
pub struct EvtxFileHeader {
    pub oldest_chunk: u64,
    pub current_chunk_num: u64,
    pub next_record_id: u64,
    pub header_size: u32,
    pub minor_version: u16,
    pub major_version: u16,
    pub header_block_size: u16,
    pub chunk_count: u16,
    pub flags: u32,
    pub checksum: u32,
}

pub open spec fn file_magic_ok(d: Seq<u8>) -> bool {
    le64_at(d, 0) == FILE_MAGIC
}

pub open spec fn spec_file_header(d: Seq<u8>) -> EvtxFileHeader {
    EvtxFileHeader {
        oldest_chunk: le64_at(d, 8),
        current_chunk_num: le64_at(d, 16),
        next_record_id: le64_at(d, 24),
        header_size: le32_at(d, 32),
        minor_version: le16_at(d, 36),
        major_version: le16_at(d, 38),
        header_block_size: le16_at(d, 40),
        chunk_count: le16_at(d, 42),
        flags: le32_at(d, 120),
        checksum: le32_at(d, 124),
    }
}

/// Reads and checks the file header: the buffer must hold the 4096-byte
/// header block and carry the `ElfFile0` magic.
pub fn parse_file_header(d: &[u8]) -> (r: Result<EvtxFileHeader, Error>)
    ensures
        d@.len() >= FILE_HEADER_SIZE && file_magic_ok(d@) ==> (r matches Ok(h) && h
            == spec_file_header(d@)),
        d@.len() >= FILE_HEADER_SIZE && !file_magic_ok(d@) ==> (r matches Err(e)
            && e matches Error::InvalidEvtxFileHeaderMagic { magic } && magic == le64_at(d@, 0)),
        d@.len() < FILE_HEADER_SIZE ==> r is Err,
{
    let len = d.len();
    if len < FILE_HEADER_SIZE {
        return Err(Error::IncompleteChunk { chunk_number: 0 });
    }
    let magic = read_u64(d, 0).unwrap();
    if magic != 0x30656C6946666C45u64 {
        return Err(Error::InvalidEvtxFileHeaderMagic { magic });
    }
    Ok(
        EvtxFileHeader {
            oldest_chunk: read_u64(d, 8).unwrap(),
            current_chunk_num: read_u64(d, 16).unwrap(),
            next_record_id: read_u64(d, 24).unwrap(),
            header_size: read_u32(d, 32).unwrap(),
            minor_version: read_u16(d, 36).unwrap(),
            major_version: read_u16(d, 38).unwrap(),
            header_block_size: read_u16(d, 40).unwrap(),
            chunk_count: read_u16(d, 42).unwrap(),
            flags: read_u32(d, 120).unwrap(),
            checksum: read_u32(d, 124).unwrap(),
        },
    )
}

/// One delivered record: its id, its timestamp, and the rendered payload.
#[derive(Debug)]
pub struct SerializedEvtxRecord {
    pub event_record_id: u64,
    pub timestamp: Timestamp,
    pub data: String,
}

/// What `String::from_utf8` decodes out of a byte sequence; the result
/// depends on the bytes alone.
pub uninterp spec fn chars_of_utf8(b: Seq<u8>) -> Seq<char>;

/// A continuation byte of a multi-byte UTF-8 sequence.
pub open spec fn utf8_cont(x: u8) -> bool {
    0x80 <= x && x <= 0xBF
}

/// Well-formed UTF-8: the shortest-form sequences over the Unicode
/// scalar values, surrogates excluded.
pub open spec fn utf8_wf(b: Seq<u8>) -> bool
    decreases b.len(),
{
    if b.len() == 0 {
        true
    } else {
        let b0 = b[0];
        if b0 < 0x80 {
            utf8_wf(b.drop_first())
        } else if 0xC2 <= b0 && b0 <= 0xDF {
            b.len() >= 2 && utf8_cont(b[1]) && utf8_wf(b.skip(2))
        } else if b0 == 0xE0 {
            b.len() >= 3 && 0xA0 <= b[1] && b[1] <= 0xBF && utf8_cont(b[2]) && utf8_wf(b.skip(3))
        } else if (0xE1 <= b0 && b0 <= 0xEC) || b0 == 0xEE || b0 == 0xEF {
            b.len() >= 3 && utf8_cont(b[1]) && utf8_cont(b[2]) && utf8_wf(b.skip(3))
        } else if b0 == 0xED {
            b.len() >= 3 && 0x80 <= b[1] && b[1] <= 0x9F && utf8_cont(b[2]) && utf8_wf(b.skip(3))
        } else if b0 == 0xF0 {
            b.len() >= 4 && 0x90 <= b[1] && b[1] <= 0xBF && utf8_cont(b[2]) && utf8_cont(b[3])
                && utf8_wf(b.skip(4))
        } else if 0xF1 <= b0 && b0 <= 0xF3 {
            b.len() >= 4 && utf8_cont(b[1]) && utf8_cont(b[2]) && utf8_cont(b[3]) && utf8_wf(
                b.skip(4),
            )
        } else if b0 == 0xF4 {
            b.len() >= 4 && 0x80 <= b[1] && b[1] <= 0x8F && utf8_cont(b[2]) && utf8_cont(b[3])
                && utf8_wf(b.skip(4))
        } else {
            false
        }
    }
}

/// Relies on `String::from_utf8`: it succeeds exactly on well-formed
/// UTF-8, and a successful decode is a function of the bytes alone.
#[verifier::external_body]
fn utf8_to_string(b: Vec<u8>) -> (r: Option<String>)
    ensures
        (r is Some) == utf8_wf(b@),
        r matches Some(s) ==> s@ == chars_of_utf8(b@),
{
    String::from_utf8(b).ok()
}

/// Parses EVTX buffers: the 4096-byte file header followed by 64 KiB
/// chunks.  Parsing is sequential over chunks and records; with more
/// worker threads a driver may call `xml_records_of_chunk` per chunk and
/// concatenate in file order, which yields the same sequence.
pub struct EvtxParser {
    pub data: Vec<u8>,
    pub header: EvtxFileHeader,
    pub settings: ParserSettings,
}

/// How many whole chunks follow the file header.
pub open spec fn spec_chunk_count(len: int) -> int {
    if len < 4096 {
        0
    } else {
        (len - 4096) / 65536
    }
}

impl EvtxParser {
    /// Takes ownership of a whole file image; the header must be intact.
    pub fn from_buffer(data: Vec<u8>) -> (r: Result<EvtxParser, Error>)
        ensures
            data@.len() >= FILE_HEADER_SIZE && file_magic_ok(data@) ==> (r matches Ok(p) && p.header
                == spec_file_header(data@) && p.data == data),
            data@.len() >= FILE_HEADER_SIZE && !file_magic_ok(data@) ==> r is Err,
            data@.len() < FILE_HEADER_SIZE ==> r is Err,
    {
        let header = match parse_file_header(data.as_slice()) {
            Ok(h) => h,
            Err(e) => {
                return Err(e);
            },
        };
        Ok(EvtxParser { data, header, settings: ParserSettings::new() })
    }

    pub fn with_configuration(self, settings: ParserSettings) -> (r: EvtxParser)
        ensures
            r.data == self.data,
            r.header == self.header,
            r.settings == settings,
    {
        EvtxParser { settings, ..self }
    }

    /// The number of whole chunks the buffer holds, from the file length.
    pub fn chunk_count(&self) -> (r: usize)
        ensures
            r == spec_chunk_count(self.data@.len() as int),
    {
        if self.data.len() < FILE_HEADER_SIZE {
            0
        } else {
            (self.data.len() - FILE_HEADER_SIZE) / CHUNK_SIZE
        }
    }

    /// All records rendered as XML documents, in chunk order then record
    /// order.  Each entry is independently a success or an error; a
    /// chunk that fails validation contributes one error entry and the
    /// iteration moves on; zeroed chunks are skipped.  The entry count
    /// is exactly the sum of the chunks' contributions.  The ok/err
    /// split can differ between the XML, JSON and structure streams on
    /// corner records: a record without any element is an error only as
    /// a structure, and a record whose only content is an unrenderable
    /// top-level value is an error only as XML.
    pub fn records(&self) -> (r: Vec<Result<SerializedEvtxRecord, Error>>)
        ensures
            r@.len() == file_entry_total(
                self.data@,
                spec_chunk_count(self.data@.len() as int),
                self.settings.validate_checksums,
            ),
    {
        let n = self.chunk_count();
        let mut out: Vec<Result<SerializedEvtxRecord, Error>> = Vec::new();
        let mut i: usize = 0;
        while i < n
            invariant
                i <= n,
                n == spec_chunk_count(self.data@.len() as int),
                out@.len() == file_entry_total(
                    self.data@,
                    i as int,
                    self.settings.validate_checksums,
                ),
            decreases n - i,
        {
            let chunk = chunk_slice(&self.data, i);
            let ghost c = chunk_seq(self.data@, i as int);
            if !chunk_is_zeroed(&chunk) {
                let mut results = xml_records_of_chunk(&chunk, &self.settings);
                proof {
                    assert(!chunk_zeroed_spec(c));
                    assert(results@.len() == chunk_entry_total(
                        c,
                        self.settings.validate_checksums,
                    ));
                }
                let ghost base = out@.len();
                let ghost m = results@.len();
                while results.len() > 0
                    invariant
                        out@.len() + results@.len() == base + m,
                    decreases results@.len(),
                {
                    out.push(results.remove(0));
                }
            } else {
                proof {
                    assert(chunk_zeroed_spec(c));
                    assert(chunk_entry_total(c, self.settings.validate_checksums) == 0);
                }
            }
            i = i + 1;
        }
        out
    }

    /// All records rendered as JSON documents, in the same order and with
    /// the same entry count.
    pub fn records_json(&self) -> (r: Vec<Result<SerializedEvtxRecord, Error>>)
        ensures
            r@.len() == file_entry_total(
                self.data@,
                spec_chunk_count(self.data@.len() as int),
                self.settings.validate_checksums,
            ),
    {
        let n = self.chunk_count();
        let mut out: Vec<Result<SerializedEvtxRecord, Error>> = Vec::new();
        let mut i: usize = 0;
        while i < n
            invariant
                i <= n,
                n == spec_chunk_count(self.data@.len() as int),
                out@.len() == file_entry_total(
                    self.data@,
                    i as int,
                    self.settings.validate_checksums,
                ),
            decreases n - i,
        {
            let chunk = chunk_slice(&self.data, i);
            let ghost c = chunk_seq(self.data@, i as int);
            if !chunk_is_zeroed(&chunk) {
                let mut results = json_records_of_chunk(&chunk, &self.settings);
                proof {
                    assert(!chunk_zeroed_spec(c));
                    assert(results@.len() == chunk_entry_total(
                        c,
                        self.settings.validate_checksums,
                    ));
                }
                let ghost base = out@.len();
                let ghost m = results@.len();
                while results.len() > 0
                    invariant
                        out@.len() + results@.len() == base + m,
                    decreases results@.len(),
                {
                    out.push(results.remove(0));
                }
            } else {
                proof {
                    assert(chunk_zeroed_spec(c));
                    assert(chunk_entry_total(c, self.settings.validate_checksums) == 0);
                }
            }
            i = i + 1;
        }
        out
    }

    /// All records as owned structures, in the same order and with the
    /// same entry count.
    pub fn records_structures(&self) -> (r: Vec<Result<EvtxStructure, Error>>)
        ensures
            r@.len() == file_entry_total(
                self.data@,
                spec_chunk_count(self.data@.len() as int),
                self.settings.validate_checksums,
            ),
    {
        let n = self.chunk_count();
        let mut out: Vec<Result<EvtxStructure, Error>> = Vec::new();
        let mut i: usize = 0;
        while i < n
            invariant
                i <= n,
                n == spec_chunk_count(self.data@.len() as int),
                out@.len() == file_entry_total(
                    self.data@,
                    i as int,
                    self.settings.validate_checksums,
                ),
            decreases n - i,
        {
            let chunk = chunk_slice(&self.data, i);
            let ghost c = chunk_seq(self.data@, i as int);
            if !chunk_is_zeroed(&chunk) {
                let mut results = structures_of_chunk(&chunk, &self.settings);
                proof {
                    assert(!chunk_zeroed_spec(c));
                    assert(results@.len() == chunk_entry_total(
                        c,
                        self.settings.validate_checksums,
                    ));
                }
                let ghost base = out@.len();
                let ghost m = results@.len();
                while results.len() > 0
                    invariant
                        out@.len() + results@.len() == base + m,
                    decreases results@.len(),
                {
                    out.push(results.remove(0));
                }
            } else {
                proof {
                    assert(chunk_zeroed_spec(c));
                    assert(chunk_entry_total(c, self.settings.validate_checksums) == 0);
                }
            }
            i = i + 1;
        }
        out
    }
}

/// Copies chunk `i`'s 64 KiB out of the file image: the count computed
/// from the length guarantees the slice lies inside the buffer.
fn chunk_slice(data: &Vec<u8>, i: usize) -> (r: Vec<u8>)
    requires
        i < spec_chunk_count(data@.len() as int),
    ensures
        r@ == chunk_seq(data@, i as int),
        r@.len() == CHUNK_SIZE,
{
    let _dlen = data.len();
    proof {
        lemma_chunk_in_bounds(data@.len() as int, i as int);
    }
    let c = read_bytes(data.as_slice(), FILE_HEADER_SIZE + i * CHUNK_SIZE, CHUNK_SIZE).unwrap();
    proof {
        assert(c@ =~= chunk_seq(data@, i as int));
    }
    c
}

/// A chunk index below the computed count lies wholly inside the buffer.
proof fn lemma_chunk_in_bounds(len: int, i: int)
    requires
        0 <= i < spec_chunk_count(len),
    ensures
        4096 + i * 65536 + 65536 <= len,
{
    vstd::arithmetic::div_mod::lemma_fundamental_div_mod(len - 4096, 65536);
    assert((len - 4096) % 65536 >= 0) by (nonlinear_arith)
        requires
            len >= 4096,
    ;
    assert((i + 1) * 65536 <= ((len - 4096) / 65536) * 65536) by (nonlinear_arith)
        requires
            i + 1 <= (len - 4096) / 65536,
    ;
}

/// Whether the chunk's magic area is all zero: such chunks are skipped.
fn chunk_is_zeroed(chunk: &Vec<u8>) -> (r: bool)
    requires
        chunk@.len() == CHUNK_SIZE,
    ensures
        r == (forall|j: int| 0 <= j < 8 ==> chunk@[j] == 0),
{
    let mut i: usize = 0;
    while i < 8
        invariant
            i <= 8,
            chunk@.len() == CHUNK_SIZE,
            forall|j: int| 0 <= j < i ==> chunk@[j] == 0,
        decreases 8 - i,
    {
        if chunk[i] != 0 {
            return false;
        }
        i = i + 1;
    }
    true
}

/// Whether the chunk passes validation under the given checksum policy.
pub open spec fn chunk_passes(c: Seq<u8>, validate_checksums: bool) -> bool {
    &&& chunk_magic_ok(c)
    &&& 512 <= spec_free_space_offset(c) <= CHUNK_SIZE
    &&& (!validate_checksums || (chunk_header_crc_ok(c) && chunk_data_crc_ok(c)))
}

/// Whether one delivered entry belongs to the record frame at `pos`: a
/// success carries the frame's id and timestamp, a failure is attributed
/// to the frame's id.
pub open spec fn serialized_matches_frame(
    e: Result<SerializedEvtxRecord, Error>,
    d: Seq<u8>,
    pos: int,
) -> bool {
    match e {
        Ok(rec) => rec.event_record_id == le64_at(d, pos + 8) && rec.timestamp.ticks == le64_at(
            d,
            pos + 16,
        ),
        Err(er) => er matches Error::FailedToDeserializeRecord { record_id, source } && record_id
            == le64_at(d, pos + 8),
    }
}

/// As `serialized_matches_frame`, for owned structures.
pub open spec fn structure_matches_frame(
    e: Result<EvtxStructure, Error>,
    d: Seq<u8>,
    pos: int,
) -> bool {
    match e {
        Ok(st) => st.event_record_id == le64_at(d, pos + 8) && st.timestamp.ticks == le64_at(
            d,
            pos + 16,
        ),
        Err(er) => er matches Error::FailedToDeserializeRecord { record_id, source } && record_id
            == le64_at(d, pos + 8),
    }
}

/// How many entries one chunk contributes to the file's stream.
pub open spec fn chunk_entry_total(c: Seq<u8>, validate_checksums: bool) -> int {
    if chunk_zeroed_spec(c) {
        0
    } else if !chunk_passes(c, validate_checksums) {
        1
    } else {
        record_entry_count(c, 512, spec_free_space_offset(c) as int)
    }
}

/// The bytes of chunk `i` inside the file image.
pub open spec fn chunk_seq(d: Seq<u8>, i: int) -> Seq<u8> {
    d.subrange(4096 + i * 65536, 4096 + (i + 1) * 65536)
}

/// Whether a chunk's magic area is all zero.
pub open spec fn chunk_zeroed_spec(c: Seq<u8>) -> bool {
    forall|j: int| 0 <= j < 8 ==> c[j] == 0
}

/// The entries the first `n` chunks contribute, in file order.
pub open spec fn file_entry_total(d: Seq<u8>, n: int, validate_checksums: bool) -> int
    decreases n,
{
    if n <= 0 {
        0
    } else {
        file_entry_total(d, n - 1, validate_checksums) + chunk_entry_total(
            chunk_seq(d, n - 1),
            validate_checksums,
        )
    }
}

/// One chunk's records, each rendered as an XML document.  A driver that
/// splits chunks over workers calls this per chunk and concatenates the
/// results in file order.
pub fn xml_records_of_chunk(chunk: &Vec<u8>, settings: &ParserSettings) -> (r: Vec<
    Result<SerializedEvtxRecord, Error>,
>)
    requires
        chunk@.len() == CHUNK_SIZE,
    ensures
        !chunk_passes(chunk@, settings.validate_checksums) ==> (r@.len() == 1 && r@[0] is Err),
        !chunk_magic_ok(chunk@) ==> (r@[0] matches Err(e) && e matches
            Error::InvalidEvtxChunkMagic { magic }),
        (chunk_magic_ok(chunk@) && 512 <= spec_free_space_offset(chunk@) <= CHUNK_SIZE
            && settings.validate_checksums && !(chunk_header_crc_ok(chunk@) && chunk_data_crc_ok(
            chunk@,
        ))) ==> (r@[0] matches Err(e) && e matches Error::InvalidChunkChecksum {  }),
        chunk_passes(chunk@, settings.validate_checksums) ==> r@.len() == record_entry_count(
            chunk@,
            512,
            spec_free_space_offset(chunk@) as int,
        ) && (forall|i: int|
            0 <= i < r@.len() ==> serialized_matches_frame(
                #[trigger] r@[i],
                chunk@,
                frame_pos(chunk@, i),
            )),
{
    let mut out: Vec<Result<SerializedEvtxRecord, Error>> = Vec::new();
    let header = match validate_chunk(chunk.as_slice(), settings.should_validate_checksums()) {
        Ok(h) => h,
        Err(e) => {
            out.push(Err(e));
            return out;
        },
    };
    let mut records = chunk_records(chunk.as_slice(), &header);
    let ghost orig = records@;
    proof {
        assert(orig.skip(0) =~= orig);
    }
    while records.len() > 0
        invariant
            out@.len() + records@.len() == orig.len(),
            records@ == orig.skip(out@.len() as int),
            forall|i: int|
                0 <= i < orig.len() ==> entry_matches_frame(
                    #[trigger] orig[i],
                    chunk@,
                    frame_pos(chunk@, i),
                ),
            forall|i: int|
                0 <= i < out@.len() ==> serialized_matches_frame(
                    #[trigger] out@[i],
                    chunk@,
                    frame_pos(chunk@, i),
                ),
        decreases records@.len(),
    {
        proof {
            assert(orig.skip(out@.len() as int).drop_first() =~= orig.skip(out@.len() as int + 1));
            assert(records@[0] == orig[out@.len() as int]);
        }
        match records.remove(0) {
            Ok(rec) => {
                match render_record_xml(&rec.content, settings) {
                    Ok(bytes) => {
                        match utf8_to_string(bytes) {
                            Some(data) => {
                                out.push(
                                    Ok(
                                        SerializedEvtxRecord {
                                            event_record_id: rec.event_record_id,
                                            timestamp: rec.timestamp,
                                            data,
                                        },
                                    ),
                                );
                            },
                            None => {
                                out.push(
                                    Err(
                                        Error::FailedToDeserializeRecord {
                                            record_id: rec.event_record_id,
                                            source: Box::new(
                                                Error::FailedToDecodeUTF8String { offset: 0 },
                                            ),
                                        },
                                    ),
                                );
                            },
                        }
                    },
                    Err(e) => {
                        out.push(
                            Err(
                                Error::FailedToDeserializeRecord {
                                    record_id: rec.event_record_id,
                                    source: Box::new(Error::from_serialization(e)),
                                },
                            ),
                        );
                    },
                }
            },
            Err(e) => {
                out.push(Err(e));
            },
        }
    }
    out
}

/// One chunk's records, each rendered as a JSON document.
pub fn json_records_of_chunk(chunk: &Vec<u8>, settings: &ParserSettings) -> (r: Vec<
    Result<SerializedEvtxRecord, Error>,
>)
    requires
        chunk@.len() == CHUNK_SIZE,
    ensures
        !chunk_passes(chunk@, settings.validate_checksums) ==> (r@.len() == 1 && r@[0] is Err),
        !chunk_magic_ok(chunk@) ==> (r@[0] matches Err(e) && e matches
            Error::InvalidEvtxChunkMagic { magic }),
        (chunk_magic_ok(chunk@) && 512 <= spec_free_space_offset(chunk@) <= CHUNK_SIZE
            && settings.validate_checksums && !(chunk_header_crc_ok(chunk@) && chunk_data_crc_ok(
            chunk@,
        ))) ==> (r@[0] matches Err(e) && e matches Error::InvalidChunkChecksum {  }),
        chunk_passes(chunk@, settings.validate_checksums) ==> r@.len() == record_entry_count(
            chunk@,
            512,
            spec_free_space_offset(chunk@) as int,
        ) && (forall|i: int|
            0 <= i < r@.len() ==> serialized_matches_frame(
                #[trigger] r@[i],
                chunk@,
                frame_pos(chunk@, i),
            )),
{
    let mut out: Vec<Result<SerializedEvtxRecord, Error>> = Vec::new();
    let header = match validate_chunk(chunk.as_slice(), settings.should_validate_checksums()) {
        Ok(h) => h,
        Err(e) => {
            out.push(Err(e));
            return out;
        },
    };
    let mut records = chunk_records(chunk.as_slice(), &header);
    let ghost orig = records@;
    proof {
        assert(orig.skip(0) =~= orig);
    }
    while records.len() > 0
        invariant
            out@.len() + records@.len() == orig.len(),
            records@ == orig.skip(out@.len() as int),
            forall|i: int|
                0 <= i < orig.len() ==> entry_matches_frame(
                    #[trigger] orig[i],
                    chunk@,
                    frame_pos(chunk@, i),
                ),
            forall|i: int|
                0 <= i < out@.len() ==> serialized_matches_frame(
                    #[trigger] out@[i],
                    chunk@,
                    frame_pos(chunk@, i),
                ),
        decreases records@.len(),
    {
        proof {
            assert(orig.skip(out@.len() as int).drop_first() =~= orig.skip(out@.len() as int + 1));
            assert(records@[0] == orig[out@.len() as int]);
        }
        match records.remove(0) {
            Ok(rec) => {
                match record_to_json_string(&rec, settings.should_separate_json_attributes()) {
                    Ok(data) => {
                        out.push(
                            Ok(
                                SerializedEvtxRecord {
                                    event_record_id: rec.event_record_id,
                                    timestamp: rec.timestamp,
                                    data,
                                },
                            ),
                        );
                    },
                    Err(e) => {
                        out.push(
                            Err(
                                Error::FailedToDeserializeRecord {
                                    record_id: rec.event_record_id,
                                    source: Box::new(e),
                                },
                            ),
                        );
                    },
                }
            },
            Err(e) => {
                out.push(Err(e));
            },
        }
    }
    out
}

/// One chunk's records as owned structures.
pub fn structures_of_chunk(chunk: &Vec<u8>, settings: &ParserSettings) -> (r: Vec<
    Result<EvtxStructure, Error>,
>)
    requires
        chunk@.len() == CHUNK_SIZE,
    ensures
        !chunk_passes(chunk@, settings.validate_checksums) ==> (r@.len() == 1 && r@[0] is Err),
        !chunk_magic_ok(chunk@) ==> (r@[0] matches Err(e) && e matches
            Error::InvalidEvtxChunkMagic { magic }),
        (chunk_magic_ok(chunk@) && 512 <= spec_free_space_offset(chunk@) <= CHUNK_SIZE
            && settings.validate_checksums && !(chunk_header_crc_ok(chunk@) && chunk_data_crc_ok(
            chunk@,
        ))) ==> (r@[0] matches Err(e) && e matches Error::InvalidChunkChecksum {  }),
        chunk_passes(chunk@, settings.validate_checksums) ==> r@.len() == record_entry_count(
            chunk@,
            512,
            spec_free_space_offset(chunk@) as int,
        ) && (forall|i: int|
            0 <= i < r@.len() ==> structure_matches_frame(
                #[trigger] r@[i],
                chunk@,
                frame_pos(chunk@, i),
            )),
{
    let mut out: Vec<Result<EvtxStructure, Error>> = Vec::new();
    let header = match validate_chunk(chunk.as_slice(), settings.should_validate_checksums()) {
        Ok(h) => h,
        Err(e) => {
            out.push(Err(e));
            return out;
        },
    };
    let mut records = chunk_records(chunk.as_slice(), &header);
    let ghost orig = records@;
    proof {
        assert(orig.skip(0) =~= orig);
    }
    while records.len() > 0
        invariant
            out@.len() + records@.len() == orig.len(),
            records@ == orig.skip(out@.len() as int),
            forall|i: int|
                0 <= i < orig.len() ==> entry_matches_frame(
                    #[trigger] orig[i],
                    chunk@,
                    frame_pos(chunk@, i),
                ),
            forall|i: int|
                0 <= i < out@.len() ==> structure_matches_frame(
                    #[trigger] out@[i],
                    chunk@,
                    frame_pos(chunk@, i),
                ),
        decreases records@.len(),
    {
        proof {
            assert(orig.skip(out@.len() as int).drop_first() =~= orig.skip(out@.len() as int + 1));
            assert(records@[0] == orig[out@.len() as int]);
        }
        match records.remove(0) {
            Ok(rec) => {
                match build_structure(&rec) {
                    Ok(s) => {
                        out.push(Ok(s));
                    },
                    Err(e) => {
                        out.push(
                            Err(
                                Error::FailedToDeserializeRecord {
                                    record_id: rec.event_record_id,
                                    source: Box::new(e),
                                },
                            ),
                        );
                    },
                }
            },
            Err(e) => {
                out.push(Err(e));
            },
        }
    }
    out
}

/// Builds the owned structure of one record.  As with the event
/// builder, where a record carries several fragments the last element
/// wins: it becomes the root of the tree, and the structure carries the
/// record's id and timestamp.  A record without any element yields an
/// error.
pub fn build_structure(rec: &RecordData) -> (r: Result<EvtxStructure, Error>)
    ensures
        r matches Ok(st) ==> st.event_record_id == rec.event_record_id && st.timestamp
            == rec.timestamp,
        (forall|i: int| 0 <= i < rec.content@.len() ==> !((#[trigger] rec.content@[i]) is Element))
            ==> r is Err,
{
    let mut last: Option<&XmlNode> = None;
    let mut i: usize = 0;
    let n = rec.content.len();
    while i < n
        invariant
            i <= n,
            n == rec.content@.len(),
            last is Some ==> exists|j: int|
                0 <= j < i && (#[trigger] rec.content@[j]) is Element,
        decreases n - i,
    {
        if let XmlContent::Element(node) = &rec.content[i] {
            last = Some(node);
            proof {
                assert(rec.content@[i as int] is Element);
            }
        }
        i = i + 1;
    }
    match last {
        Some(node) => {
            let root = match node_to_element(node) {
                Ok(e) => e,
                Err(e) => {
                    return Err(e);
                },
            };
            let mut builder = StructureBuilder::new(rec.event_record_id, rec.timestamp);
            builder.result.content = root;
            Ok(builder.get_structure())
        },
        None => Err(Error::FailedToCreateRecordModel {
            message: String::from_str("record has no element"),
        }),
    }
}

/// Converts one expanded element into the owned structure shape.
fn node_to_element(node: &XmlNode) -> (r: Result<EvtxXmlElement, Error>)
    decreases *node,
{
    let mut element = EvtxXmlElement::new(node.name.as_str());
    let mut i: usize = 0;
    while i < node.attributes.len()
        invariant
            i <= node.attributes@.len(),
        decreases node.attributes@.len() - i,
    {
        let a = &node.attributes[i];
        element.add_attribute(a.name.as_str(), a.value.as_str());
        i = i + 1;
    }
    let mut i: usize = 0;
    let n = node.content.len();
    while i < n
        invariant
            i <= n,
            n == node.content@.len(),
        decreases n - i,
    {
        proof {
            assert(decreases_to!(*node => node.content@));
            assert(decreases_to!(node.content@ => node.content@[i as int]));
        }
        match &node.content[i] {
            XmlContent::Element(child) => {
                let c = match node_to_element(child) {
                    Ok(c) => c,
                    Err(e) => {
                        return Err(e);
                    },
                };
                if let crate::evtx_structure::EvtxXmlContentType::Simple(_) = element.content {
                    return Err(Error::FailedToCreateRecordModel {
                        message: String::from_str("text node cannot hold child elements"),
                    });
                }
                element.add_child(c);
            },
            XmlContent::Value(v) => {
                let text = match v.as_string() {
                    Ok(t) => t,
                    Err(e) => {
                        return Err(e);
                    },
                };
                if let crate::evtx_structure::EvtxXmlContentType::Complex(_) = element.content {
                    if text.as_str().unicode_len() > 0 {
                        return Err(Error::FailedToCreateRecordModel {
                            message: String::from_str("element already holds child elements"),
                        });
                    }
                }
                element.add_simple_content(text.as_str());
            },
            XmlContent::CharRef(x) => {
                let digits = crate::text::dec_u64(*x as u64);
                if let crate::evtx_structure::EvtxXmlContentType::Complex(_) = element.content {
                    return Err(Error::FailedToCreateRecordModel {
                        message: String::from_str("element already holds child elements"),
                    });
                }
                element.add_simple_content(digits.as_str());
            },
            XmlContent::EntityRef(name) => {
                if let crate::evtx_structure::EvtxXmlContentType::Complex(_) = element.content {
                    return Err(Error::FailedToCreateRecordModel {
                        message: String::from_str("element already holds child elements"),
                    });
                }
                element.add_simple_content(name.as_str());
            },
            XmlContent::PI(_) => {},
        }
        i = i + 1;
    }
    Ok(element)
}

/// Drives one record through a caller-supplied structure visitor.
/// Succeeds exactly when every value in the record has a text form.
pub fn record_to_visitor<V: EvtxStructureVisitor>(rec: &RecordData, visitor: &mut V) -> (r: Result<
    V::VisitorResult,
    Error,
>)
    ensures
        (r is Ok) == crate::xml_output::list_renderable(rec.content@),
{
    visit_record(rec, visitor)
}

} // verus!
