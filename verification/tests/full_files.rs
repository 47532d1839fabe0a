use evtx::crc32::crc32;
use evtx::err::Error;
use evtx::parser::EvtxParser;
use evtx::settings::ParserSettings;

const DECL: &str = "<?xml version=\"1.0\" encoding=\"utf-8\"?>";

/// Appends an inline name entry and returns nothing; the caller placed
/// the name offset so that it points at the entry.
fn emit_name_entry(buf: &mut Vec<u8>, name: &str) {
    buf.extend_from_slice(&0u32.to_le_bytes());
    buf.extend_from_slice(&0u16.to_le_bytes());
    let units: Vec<u16> = name.encode_utf16().collect();
    buf.extend_from_slice(&(units.len() as u16).to_le_bytes());
    for u in &units {
        buf.extend_from_slice(&u.to_le_bytes());
    }
    buf.extend_from_slice(&0u16.to_le_bytes());
}

/// Opens an element with an inline name; `base` is the absolute chunk
/// offset of `buf[0]`.
fn emit_element_open(buf: &mut Vec<u8>, base: usize, name: &str, has_attrs: bool) {
    buf.push(if has_attrs { 0x41 } else { 0x01 });
    buf.extend_from_slice(&0xFFFFu16.to_le_bytes());
    buf.extend_from_slice(&0u32.to_le_bytes());
    let name_off = (base + buf.len() + 4) as u32;
    buf.extend_from_slice(&name_off.to_le_bytes());
    emit_name_entry(buf, name);
}

/// An attribute with an inline name; the caller emits the value token.
fn emit_attr_header(buf: &mut Vec<u8>, base: usize, name: &str, more: bool) {
    buf.push(if more { 0x46 } else { 0x06 });
    let name_off = (base + buf.len() + 4) as u32;
    buf.extend_from_slice(&name_off.to_le_bytes());
    emit_name_entry(buf, name);
}

fn emit_string_value(buf: &mut Vec<u8>, s: &str) {
    buf.push(0x05);
    buf.push(0x01);
    let units: Vec<u16> = s.encode_utf16().collect();
    buf.extend_from_slice(&(units.len() as u16).to_le_bytes());
    for u in &units {
        buf.extend_from_slice(&u.to_le_bytes());
    }
}

/// `<name>text</name>` with an inline name.
fn emit_text_element(buf: &mut Vec<u8>, base: usize, name: &str, text: &str) {
    emit_element_open(buf, base, name, false);
    buf.push(0x02);
    emit_string_value(buf, text);
    buf.push(0x04);
}

/// A whole record around a binxml payload.
fn wrap_record(id: u64, filetime: u64, binxml: &[u8]) -> Vec<u8> {
    let size = (28 + binxml.len()) as u32;
    let mut rec = Vec::new();
    rec.extend_from_slice(&[0x2A, 0x2A, 0x00, 0x00]);
    rec.extend_from_slice(&size.to_le_bytes());
    rec.extend_from_slice(&id.to_le_bytes());
    rec.extend_from_slice(&filetime.to_le_bytes());
    rec.extend_from_slice(binxml);
    rec.extend_from_slice(&size.to_le_bytes());
    rec
}

/// A 64 KiB chunk holding the given records, checksums computed.
fn build_chunk(records: &[Vec<u8>], first_id: u64, last_id: u64) -> Vec<u8> {
    let mut chunk = vec![0u8; 65536];
    chunk[0..8].copy_from_slice(b"ElfChnk0");
    chunk[8..16].copy_from_slice(&first_id.to_le_bytes());
    chunk[16..24].copy_from_slice(&last_id.to_le_bytes());
    chunk[24..32].copy_from_slice(&first_id.to_le_bytes());
    chunk[32..40].copy_from_slice(&last_id.to_le_bytes());
    chunk[40..44].copy_from_slice(&128u32.to_le_bytes());
    let mut pos = 512usize;
    let mut last_data = 512u32;
    for rec in records {
        last_data = pos as u32;
        chunk[pos..pos + rec.len()].copy_from_slice(rec);
        pos += rec.len();
    }
    chunk[44..48].copy_from_slice(&last_data.to_le_bytes());
    chunk[48..52].copy_from_slice(&(pos as u32).to_le_bytes());
    let data_crc = crc32(&chunk[512..pos]);
    chunk[52..56].copy_from_slice(&data_crc.to_le_bytes());
    let mut covered = Vec::new();
    covered.extend_from_slice(&chunk[0..120]);
    covered.extend_from_slice(&chunk[128..512]);
    let header_crc = crc32(&covered);
    chunk[124..128].copy_from_slice(&header_crc.to_le_bytes());
    chunk
}

/// A file image: the 4096-byte header, then the chunks.
fn build_file(chunks: &[Vec<u8>]) -> Vec<u8> {
    let mut file = vec![0u8; 4096];
    file[0..8].copy_from_slice(b"ElfFile0");
    file[24..32].copy_from_slice(&1u64.to_le_bytes());
    file[32..36].copy_from_slice(&128u32.to_le_bytes());
    file[36..38].copy_from_slice(&1u16.to_le_bytes());
    file[38..40].copy_from_slice(&3u16.to_le_bytes());
    file[40..42].copy_from_slice(&4096u16.to_le_bytes());
    file[42..44].copy_from_slice(&(chunks.len() as u16).to_le_bytes());
    for c in chunks {
        file.extend_from_slice(c);
    }
    file
}

/// One record whose payload is `<Ev>hi</Ev>`.
fn simple_file() -> Vec<u8> {
    let base = 512 + 24;
    let mut binxml = Vec::new();
    binxml.extend_from_slice(&[0x0F, 0x01, 0x01, 0x00]);
    emit_text_element(&mut binxml, base, "Ev", "hi");
    binxml.push(0x00);
    let rec = wrap_record(1, 116444736000000000, &binxml);
    build_file(&[build_chunk(&[rec], 1, 1)])
}

#[test]
fn test_single_record_xml() {
    let parser = EvtxParser::from_buffer(simple_file()).unwrap();
    let records = parser.records();
    assert_eq!(records.len(), 1);
    let rec = records[0].as_ref().unwrap();
    assert_eq!(rec.event_record_id, 1);
    assert_eq!(rec.timestamp.ticks, 116444736000000000);
    assert_eq!(rec.data, format!("{}<Ev>hi</Ev>", DECL));
}

#[test]
fn test_round_trip_is_byte_identical() {
    let p1 = EvtxParser::from_buffer(simple_file()).unwrap();
    let p2 = EvtxParser::from_buffer(simple_file()).unwrap();
    let r1: Vec<String> = p1.records().into_iter().map(|r| r.unwrap().data).collect();
    let r2: Vec<String> = p2.records().into_iter().map(|r| r.unwrap().data).collect();
    assert_eq!(r1, r2);
    let j1: Vec<String> = p1.records_json().into_iter().map(|r| r.unwrap().data).collect();
    let j2: Vec<String> = p2.records_json().into_iter().map(|r| r.unwrap().data).collect();
    assert_eq!(j1, j2);
}

#[test]
fn test_thread_count_does_not_change_output() {
    let p1 = EvtxParser::from_buffer(simple_file())
        .unwrap()
        .with_configuration(ParserSettings::new().num_threads(1));
    let p8 = EvtxParser::from_buffer(simple_file())
        .unwrap()
        .with_configuration(ParserSettings::new().num_threads(8));
    let r1: Vec<String> = p1.records().into_iter().map(|r| r.unwrap().data).collect();
    let r8: Vec<String> = p8.records().into_iter().map(|r| r.unwrap().data).collect();
    assert_eq!(r1, r8);
}

#[test]
fn test_bad_chunk_magic_is_one_error() {
    let mut file = simple_file();
    file[4096] = b'X';
    let parser = EvtxParser::from_buffer(file).unwrap();
    let records = parser.records();
    assert_eq!(records.len(), 1);
    match records[0].as_ref().unwrap_err() {
        Error::InvalidEvtxChunkMagic { .. } => {},
        other => panic!("unexpected error: {:?}", other),
    }
}

#[test]
fn test_bad_checksum_policy() {
    let mut file = simple_file();
    // corrupt the record id byte, inside the data CRC's coverage
    let idx = 4096 + 512 + 8;
    file[idx] ^= 0xFF;
    let strict = EvtxParser::from_buffer(file.clone()).unwrap();
    let records = strict.records();
    assert_eq!(records.len(), 1);
    match records[0].as_ref().unwrap_err() {
        Error::InvalidChunkChecksum {} => {},
        other => panic!("unexpected error: {:?}", other),
    }
    // with validation off the chunk is attempted
    let lax = EvtxParser::from_buffer(file)
        .unwrap()
        .with_configuration(ParserSettings::new().validate_checksums(false));
    let records = lax.records();
    assert_eq!(records.len(), 1);
}

#[test]
fn test_trailing_size_mismatch_is_record_error() {
    let base = 512 + 24;
    let mut binxml = Vec::new();
    binxml.extend_from_slice(&[0x0F, 0x01, 0x01, 0x00]);
    emit_text_element(&mut binxml, base, "Ev", "hi");
    binxml.push(0x00);
    let mut rec = wrap_record(7, 0, &binxml);
    let n = rec.len();
    rec[n - 4] ^= 0x55;
    let mut chunk = build_chunk(&[rec], 7, 7);
    // keep the data CRC consistent with the corrupted copy
    let fso = u32::from_le_bytes(chunk[48..52].try_into().unwrap()) as usize;
    let data_crc = crc32(&chunk[512..fso]);
    chunk[52..56].copy_from_slice(&data_crc.to_le_bytes());
    let mut covered = Vec::new();
    covered.extend_from_slice(&chunk[0..120]);
    covered.extend_from_slice(&chunk[128..512]);
    let header_crc = crc32(&covered);
    chunk[124..128].copy_from_slice(&header_crc.to_le_bytes());
    let parser = EvtxParser::from_buffer(build_file(&[chunk])).unwrap();
    let records = parser.records();
    assert_eq!(records.len(), 1);
    match records[0].as_ref().unwrap_err() {
        Error::FailedToDeserializeRecord { record_id, .. } => assert_eq!(*record_id, 7),
        other => panic!("unexpected error: {:?}", other),
    }
}

#[test]
fn test_free_space_offset_past_chunk_is_rejected() {
    let mut file = simple_file();
    let off = 4096 + 48;
    file[off..off + 4].copy_from_slice(&70000u32.to_le_bytes());
    let parser = EvtxParser::from_buffer(file).unwrap();
    let records = parser.records();
    assert_eq!(records.len(), 1);
    assert!(records[0].is_err());
}

#[test]
fn test_bad_file_magic() {
    let mut file = simple_file();
    file[0] = b'X';
    assert!(EvtxParser::from_buffer(file).is_err());
}

#[test]
fn test_record_count_matches_header_ids() {
    // two records, ids 5 and 6; the chunk announces first 5 and last 6
    let base = 512 + 24;
    let mut b1 = Vec::new();
    b1.extend_from_slice(&[0x0F, 0x01, 0x01, 0x00]);
    emit_text_element(&mut b1, base, "Ev", "one");
    b1.push(0x00);
    let r1 = wrap_record(5, 0, &b1);
    let base2 = 512 + r1.len() + 24;
    let mut b2 = Vec::new();
    b2.extend_from_slice(&[0x0F, 0x01, 0x01, 0x00]);
    emit_text_element(&mut b2, base2, "Ev", "two");
    b2.push(0x00);
    let r2 = wrap_record(6, 0, &b2);
    let parser = EvtxParser::from_buffer(build_file(&[build_chunk(&[r1, r2], 5, 6)])).unwrap();
    let records = parser.records();
    let ok: Vec<u64> = records.iter().map(|r| r.as_ref().unwrap().event_record_id).collect();
    assert_eq!(ok, vec![5, 6]);
    assert_eq!(records.len(), (6 - 5 + 1) as usize);
}

#[test]
fn test_attributes_and_empty_attribute_omitted() {
    let base = 512 + 24;
    let mut binxml = Vec::new();
    binxml.extend_from_slice(&[0x0F, 0x01, 0x01, 0x00]);
    let b = base;
    emit_element_open(&mut binxml, b, "Ev", true);
    binxml.extend_from_slice(&0u32.to_le_bytes());
    emit_attr_header(&mut binxml, b, "a", true);
    emit_string_value(&mut binxml, "1");
    emit_attr_header(&mut binxml, b, "b", false);
    emit_string_value(&mut binxml, "");
    binxml.push(0x02);
    emit_string_value(&mut binxml, "x");
    binxml.push(0x04);
    binxml.push(0x00);
    let rec = wrap_record(1, 0, &binxml);
    let parser = EvtxParser::from_buffer(build_file(&[build_chunk(&[rec], 1, 1)])).unwrap();
    let records = parser.records();
    let data = &records[0].as_ref().unwrap().data;
    assert_eq!(data, &format!("{}<Ev a=\"1\">x</Ev>", DECL));
}

#[test]
fn test_json_repeated_children_collapse() {
    let base = 512 + 24;
    let mut binxml = Vec::new();
    binxml.extend_from_slice(&[0x0F, 0x01, 0x01, 0x00]);
    let b = base;
    emit_element_open(&mut binxml, b, "Ev", false);
    binxml.push(0x02);
    emit_text_element(&mut binxml, b, "b", "x");
    emit_text_element(&mut binxml, b, "b", "y");
    binxml.push(0x04);
    binxml.push(0x00);
    let rec = wrap_record(1, 0, &binxml);
    let parser = EvtxParser::from_buffer(build_file(&[build_chunk(&[rec], 1, 1)])).unwrap();
    let records = parser.records_json();
    let data = &records[0].as_ref().unwrap().data;
    assert_eq!(data, "{\"Ev\":{\"b\":[\"x\",\"y\"]}}");
}

#[test]
fn test_json_attribute_placement() {
    let base = 512 + 24;
    let mut binxml = Vec::new();
    binxml.extend_from_slice(&[0x0F, 0x01, 0x01, 0x00]);
    let b = base;
    emit_element_open(&mut binxml, b, "Ev", true);
    binxml.extend_from_slice(&0u32.to_le_bytes());
    emit_attr_header(&mut binxml, b, "a", false);
    emit_string_value(&mut binxml, "1");
    binxml.push(0x02);
    emit_text_element(&mut binxml, b, "c", "x");
    binxml.push(0x04);
    binxml.push(0x00);
    let rec = wrap_record(1, 0, &binxml);
    let file = build_file(&[build_chunk(&[rec], 1, 1)]);
    let merged = EvtxParser::from_buffer(file.clone()).unwrap();
    let data = merged.records_json()[0].as_ref().unwrap().data.clone();
    assert_eq!(data, "{\"Ev\":{\"a\":\"1\",\"c\":\"x\"}}");
    let separate = EvtxParser::from_buffer(file)
        .unwrap()
        .with_configuration(ParserSettings::new().separate_json_attributes(true));
    let data = separate.records_json()[0].as_ref().unwrap().data.clone();
    assert_eq!(data, "{\"Ev_attributes\":{\"a\":\"1\"},\"Ev\":{\"c\":\"x\"}}");
}

#[test]
fn test_template_instance_expansion() {
    // an inline template definition whose element body is one normal
    // substitution, instantiated with the UInt32 value 77
    let base = 512 + 24;
    let mut binxml: Vec<u8> = Vec::new();
    binxml.extend_from_slice(&[0x0F, 0x01, 0x01, 0x00]);
    binxml.push(0x0C);
    let after_token = base + binxml.len();
    let def_offset = (after_token + 9) as u32;
    binxml.push(0x00);
    binxml.extend_from_slice(&0u32.to_le_bytes());
    binxml.extend_from_slice(&def_offset.to_le_bytes());
    // the definition: next offset, guid, data size, then its body
    let mut body: Vec<u8> = Vec::new();
    body.extend_from_slice(&[0x0F, 0x01, 0x01, 0x00]);
    let body_base = def_offset as usize + 24;
    emit_element_open(&mut body, body_base, "Ev", false);
    body.push(0x02);
    body.extend_from_slice(&[0x0D, 0x00, 0x00, 0x08]);
    body.push(0x04);
    body.push(0x00);
    binxml.extend_from_slice(&0u32.to_le_bytes());
    binxml.extend_from_slice(&[0u8; 16]);
    binxml.extend_from_slice(&(body.len() as u32).to_le_bytes());
    binxml.extend_from_slice(&body);
    // the substitution array: one u32 value
    binxml.extend_from_slice(&1u32.to_le_bytes());
    binxml.extend_from_slice(&4u16.to_le_bytes());
    binxml.push(0x08);
    binxml.push(0x00);
    binxml.extend_from_slice(&77u32.to_le_bytes());
    binxml.push(0x00);
    let rec = wrap_record(1, 0, &binxml);
    let parser = EvtxParser::from_buffer(build_file(&[build_chunk(&[rec], 1, 1)])).unwrap();
    let records = parser.records();
    assert_eq!(records.len(), 1);
    let data = &records[0].as_ref().unwrap().data;
    assert_eq!(data, &format!("{}<Ev>77</Ev>", DECL));
}

#[test]
fn test_optional_substitution_null_suppresses_attribute() {
    // template: <Ev a="{sub0 optional}">x</Ev>, instantiated with Null:
    // the attribute must vanish entirely
    let base = 512 + 24;
    let mut binxml: Vec<u8> = Vec::new();
    binxml.extend_from_slice(&[0x0F, 0x01, 0x01, 0x00]);
    binxml.push(0x0C);
    let after_token = base + binxml.len();
    let def_offset = (after_token + 9) as u32;
    binxml.push(0x00);
    binxml.extend_from_slice(&0u32.to_le_bytes());
    binxml.extend_from_slice(&def_offset.to_le_bytes());
    let mut body: Vec<u8> = Vec::new();
    body.extend_from_slice(&[0x0F, 0x01, 0x01, 0x00]);
    let body_base = def_offset as usize + 24;
    emit_element_open(&mut body, body_base, "Ev", true);
    body.extend_from_slice(&0u32.to_le_bytes());
    emit_attr_header(&mut body, body_base, "a", false);
    body.extend_from_slice(&[0x0E, 0x00, 0x00, 0x00]);
    body.push(0x02);
    emit_string_value(&mut body, "x");
    body.push(0x04);
    body.push(0x00);
    binxml.extend_from_slice(&0u32.to_le_bytes());
    binxml.extend_from_slice(&[0u8; 16]);
    binxml.extend_from_slice(&(body.len() as u32).to_le_bytes());
    binxml.extend_from_slice(&body);
    binxml.extend_from_slice(&1u32.to_le_bytes());
    binxml.extend_from_slice(&0u16.to_le_bytes());
    binxml.push(0x00);
    binxml.push(0x00);
    binxml.push(0x00);
    let rec = wrap_record(1, 0, &binxml);
    let parser = EvtxParser::from_buffer(build_file(&[build_chunk(&[rec], 1, 1)])).unwrap();
    let records = parser.records();
    let data = &records[0].as_ref().unwrap().data;
    assert_eq!(data, &format!("{}<Ev>x</Ev>", DECL));
    assert!(!data.contains('a'));
}

#[test]
fn test_zeroed_chunk_is_skipped() {
    let mut file = simple_file();
    let zero_chunk = vec![0u8; 65536];
    // a zeroed chunk between two real ones
    let real = file[4096..4096 + 65536].to_vec();
    file.extend_from_slice(&zero_chunk);
    file.extend_from_slice(&real);
    let parser = EvtxParser::from_buffer(file).unwrap();
    let records = parser.records();
    assert_eq!(records.len(), 2);
    assert!(records.iter().all(|r| r.is_ok()));
}

#[test]
fn test_structures() {
    let parser = EvtxParser::from_buffer(simple_file()).unwrap();
    let structures = parser.records_structures();
    assert_eq!(structures.len(), 1);
    let s = structures[0].as_ref().unwrap();
    assert_eq!(s.event_record_id(), 1);
    assert_eq!(s.timestamp().ticks, 116444736000000000);
    assert_eq!(s.content.name, "Ev");
}

#[test]
fn test_xml_escaping_of_text_and_attributes() {
    let base = 512 + 24;
    let mut binxml = Vec::new();
    binxml.extend_from_slice(&[0x0F, 0x01, 0x01, 0x00]);
    let b = base;
    emit_element_open(&mut binxml, b, "Ev", true);
    binxml.extend_from_slice(&0u32.to_le_bytes());
    emit_attr_header(&mut binxml, b, "a", false);
    emit_string_value(&mut binxml, "x\"y");
    binxml.push(0x02);
    emit_string_value(&mut binxml, "1<2&3");
    binxml.push(0x04);
    binxml.push(0x00);
    let rec = wrap_record(1, 0, &binxml);
    let parser = EvtxParser::from_buffer(build_file(&[build_chunk(&[rec], 1, 1)])).unwrap();
    let data = parser.records()[0].as_ref().unwrap().data.clone();
    assert_eq!(data, format!("{}<Ev a=\"x&quot;y\">1&lt;2&amp;3</Ev>", DECL));
}

#[test]
fn test_invalid_token_is_record_error() {
    let base = 512 + 24;
    let mut binxml = Vec::new();
    binxml.extend_from_slice(&[0x0F, 0x01, 0x01, 0x00]);
    emit_element_open(&mut binxml, base, "Ev", false);
    binxml.push(0x02);
    binxml.push(0xFB);
    binxml.push(0x04);
    binxml.push(0x00);
    let rec = wrap_record(9, 0, &binxml);
    let parser = EvtxParser::from_buffer(build_file(&[build_chunk(&[rec], 9, 9)])).unwrap();
    let records = parser.records();
    assert_eq!(records.len(), 1);
    match records[0].as_ref().unwrap_err() {
        Error::FailedToDeserializeRecord { record_id, source } => {
            assert_eq!(*record_id, 9);
            assert!(matches!(**source, Error::InvalidToken { .. }));
        },
        other => panic!("unexpected error: {:?}", other),
    }
}

#[test]
fn test_invalid_value_variant_is_record_error() {
    let base = 512 + 24;
    let mut binxml = Vec::new();
    binxml.extend_from_slice(&[0x0F, 0x01, 0x01, 0x00]);
    emit_element_open(&mut binxml, base, "Ev", false);
    binxml.push(0x02);
    binxml.push(0x05);
    binxml.push(0x7E);
    binxml.push(0x04);
    binxml.push(0x00);
    let rec = wrap_record(3, 0, &binxml);
    let parser = EvtxParser::from_buffer(build_file(&[build_chunk(&[rec], 3, 3)])).unwrap();
    let records = parser.records();
    match records[0].as_ref().unwrap_err() {
        Error::FailedToDeserializeRecord { source, .. } => {
            assert!(matches!(**source, Error::InvalidValueVariant { .. }));
        },
        other => panic!("unexpected error: {:?}", other),
    }
}

#[test]
fn test_incomplete_sid_substitution_is_record_error() {
    // a template whose substitution is an NT-SID cut short
    let mut buf: Vec<u8> = Vec::new();
    let mut nc = evtx::name_cache::NameCache::new();
    let mut tc = evtx::template_cache::TemplateCache::new();
    // SID header announcing 4 sub-authorities, but only 4 bytes of them
    buf.extend_from_slice(&[1u8, 4, 0, 0, 0, 0, 0, 5, 1, 2, 3, 4]);
    let r = evtx::binxml::decode_sub_value(&buf, 0, buf.len(), 0x13, &mut nc, &mut tc, 4);
    match r {
        Err(Error::FailedToReadNTSID { .. }) => {},
        other => panic!("unexpected result: {:?}", other),
    }
}

#[test]
fn test_header_only_file_has_no_records() {
    let file = build_file(&[]);
    let parser = EvtxParser::from_buffer(file).unwrap();
    assert_eq!(parser.records().len(), 0);
    assert_eq!(parser.records_json().len(), 0);
}

#[test]
fn test_chunk_without_records() {
    let chunk = build_chunk(&[], 1, 0);
    let parser = EvtxParser::from_buffer(build_file(&[chunk])).unwrap();
    let records = parser.records();
    assert_eq!(records.len(), 0);
}

#[test]
fn test_processing_instruction_record() {
    let base = 512 + 24;
    let mut binxml: Vec<u8> = Vec::new();
    binxml.extend_from_slice(&[0x0F, 0x01, 0x01, 0x00]);
    // PITarget with an inline name, then PIData
    binxml.push(0x0A);
    let name_off = (base + binxml.len() + 4) as u32;
    binxml.extend_from_slice(&name_off.to_le_bytes());
    emit_name_entry(&mut binxml, "pi");
    binxml.push(0x0B);
    let data: Vec<u16> = "d".encode_utf16().collect();
    binxml.extend_from_slice(&(data.len() as u16).to_le_bytes());
    for u in &data {
        binxml.extend_from_slice(&u.to_le_bytes());
    }
    emit_text_element(&mut binxml, base, "Ev", "hi");
    binxml.push(0x00);
    let rec = wrap_record(1, 0, &binxml);
    let parser = EvtxParser::from_buffer(build_file(&[build_chunk(&[rec], 1, 1)])).unwrap();
    let records = parser.records();
    assert_eq!(records.len(), 1);
    let data = &records[0].as_ref().unwrap().data;
    assert_eq!(data, &format!("{}<?pi d?><Ev>hi</Ev>", DECL));
}

#[test]
fn test_character_reference_forms() {
    let base = 512 + 24;
    let mut binxml: Vec<u8> = Vec::new();
    binxml.extend_from_slice(&[0x0F, 0x01, 0x01, 0x00]);
    emit_element_open(&mut binxml, base, "Ev", false);
    binxml.push(0x02);
    binxml.extend_from_slice(&[0x08, 65, 0]);
    binxml.push(0x04);
    binxml.push(0x00);
    let rec = wrap_record(1, 0, &binxml);
    let file = build_file(&[build_chunk(&[rec], 1, 1)]);
    // XML keeps the literal reference
    let parser = EvtxParser::from_buffer(file.clone()).unwrap();
    let data = parser.records()[0].as_ref().unwrap().data.clone();
    assert_eq!(data, format!("{}<Ev>&#65;</Ev>", DECL));
    // JSON expands it to the character
    let data = parser.records_json()[0].as_ref().unwrap().data.clone();
    assert_eq!(data, "{\"Ev\":{\"#text\":\"A\"}}");
}

#[test]
fn test_broken_template_table_does_not_kill_the_chunk() {
    let mut file = simple_file();
    // plant a garbage offset in the template table: pre-parsing it fails,
    // but records that reference no template still parse
    let off = 4096 + 384;
    file[off..off + 4].copy_from_slice(&60000u32.to_le_bytes());
    let fso_off = 4096 + 48;
    let fso = u32::from_le_bytes(file[fso_off..fso_off + 4].try_into().unwrap()) as usize;
    let data_crc = crc32(&file[4096 + 512..4096 + fso]);
    file[4096 + 52..4096 + 56].copy_from_slice(&data_crc.to_le_bytes());
    let mut covered = Vec::new();
    covered.extend_from_slice(&file[4096..4096 + 120]);
    covered.extend_from_slice(&file[4096 + 128..4096 + 512]);
    let header_crc = crc32(&covered);
    file[4096 + 124..4096 + 128].copy_from_slice(&header_crc.to_le_bytes());
    let parser = EvtxParser::from_buffer(file).unwrap();
    let records = parser.records();
    assert_eq!(records.len(), 1);
    assert!(records[0].is_ok());
}
