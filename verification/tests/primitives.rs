use evtx::bytes::{read_u16, read_u32, read_u64, read_bytes};
use evtx::crc32::crc32;
use evtx::text::{dec_u64, dec_i64, hex_u64, hex_upper_of_bytes, utf16_to_string};
use evtx::ansi::cp1252_to_string;
use evtx::guid::Guid;
use evtx::sid::Sid;
use evtx::time::filetime_to_string;
use evtx::values::{BinXmlValue, SysTime};

#[test]
fn test_le_reads() {
    let d = [0x01u8, 0x02, 0x03, 0x04, 0x05, 0x06, 0x07, 0x08];
    assert_eq!(read_u16(&d, 0), Some(0x0201));
    assert_eq!(read_u32(&d, 0), Some(0x04030201));
    assert_eq!(read_u64(&d, 0), Some(0x0807060504030201));
    assert_eq!(read_u16(&d, 7), None);
    assert_eq!(read_u32(&d, 5), None);
    assert_eq!(read_bytes(&d, 2, 3).unwrap(), vec![0x03, 0x04, 0x05]);
    assert_eq!(read_bytes(&d, 7, 2), None);
}

#[test]
fn test_crc32_check_value() {
    // the standard CRC-32 check value
    assert_eq!(crc32(b"123456789"), 0xCBF43926);
    assert_eq!(crc32(b""), 0);
}

#[test]
fn test_decimal_rendering() {
    assert_eq!(dec_u64(0), "0");
    assert_eq!(dec_u64(12345), "12345");
    assert_eq!(dec_u64(u64::MAX), "18446744073709551615");
    assert_eq!(dec_i64(-5), "-5");
    assert_eq!(dec_i64(i64::MIN), "-9223372036854775808");
}

#[test]
fn test_hex_rendering() {
    assert_eq!(hex_u64(0), "0");
    assert_eq!(hex_u64(255), "ff");
    assert_eq!(hex_u64(0x1A2B), "1a2b");
    assert_eq!(hex_upper_of_bytes(&[0xAB, 0x01, 0xFF]), "AB01FF");
    assert_eq!(hex_upper_of_bytes(&[]), "");
}

#[test]
fn test_utf16_decoding() {
    assert_eq!(utf16_to_string(&vec![0x41, 0x42]).unwrap(), "AB");
    // a surrogate pair combines
    assert_eq!(utf16_to_string(&vec![0xD83D, 0xDE00]).unwrap(), "\u{1F600}");
    // an unpaired surrogate is ill-formed
    assert_eq!(utf16_to_string(&vec![0xD83D]), None);
    assert_eq!(utf16_to_string(&vec![]).unwrap(), "");
}

#[test]
fn test_cp1252_decoding() {
    assert_eq!(cp1252_to_string(&[0x41, 0x42]), "AB");
    assert_eq!(cp1252_to_string(&[0x80]), "\u{20AC}");
    assert_eq!(cp1252_to_string(&[0x99]), "\u{2122}");
    assert_eq!(cp1252_to_string(&[0xE9]), "\u{E9}");
}

#[test]
fn test_guid_rendering() {
    let bytes = [
        0x78u8, 0x56, 0x34, 0x12, 0xBC, 0x9A, 0xF0, 0xDE, 0x01, 0x23, 0x45, 0x67, 0x89, 0xAB,
        0xCD, 0xEF,
    ];
    let g = Guid::from_bytes(&bytes, 0).unwrap();
    assert_eq!(g.to_display_string(), "12345678-9abc-def0-0123-456789abcdef");
}

#[test]
fn test_sid_rendering() {
    // S-1-5-21-x-y: revision 1, authority 5, three sub-authorities
    let mut bytes = vec![1u8, 3];
    bytes.extend_from_slice(&[0, 0, 0, 0, 0, 5]);
    bytes.extend_from_slice(&21u32.to_le_bytes());
    bytes.extend_from_slice(&1000u32.to_le_bytes());
    bytes.extend_from_slice(&513u32.to_le_bytes());
    let (sid, consumed) = Sid::from_bytes(&bytes, 0).unwrap();
    assert_eq!(consumed, 20);
    assert_eq!(sid.to_display_string(), "S-1-5-21-1000-513");
}

#[test]
fn test_sid_incomplete() {
    // the header announces more sub-authorities than the buffer holds
    let bytes = vec![1u8, 4, 0, 0, 0, 0, 0, 5, 1, 2, 3, 4];
    assert!(Sid::from_bytes(&bytes, 0).is_none());
}

#[test]
fn test_filetime_rendering() {
    // FILETIME of the Unix epoch
    assert_eq!(filetime_to_string(116444736000000000), "1970-01-01T00:00:00.000000Z");
    assert_eq!(filetime_to_string(116444736000000000 + 10_000_000), "1970-01-01T00:00:01.000000Z");
}

#[test]
fn test_value_rendering() {
    assert_eq!(BinXmlValue::NullType.as_string().unwrap(), "");
    assert_eq!(BinXmlValue::BoolType(0).as_string().unwrap(), "false");
    // irregular boolean values render as true
    assert_eq!(BinXmlValue::BoolType(5).as_string().unwrap(), "true");
    assert_eq!(BinXmlValue::Int32Type(-42).as_string().unwrap(), "-42");
    assert_eq!(BinXmlValue::HexInt32Type(0x1A).as_string().unwrap(), "0x1a");
    assert_eq!(BinXmlValue::HexInt64Type(0xDEAD).as_string().unwrap(), "0xdead");
    assert_eq!(
        BinXmlValue::BinaryType(vec![0x0A, 0xFF]).as_string().unwrap(),
        "0AFF"
    );
    assert_eq!(
        BinXmlValue::StringArrayType(vec!["a".to_string(), "b".to_string()])
            .as_string()
            .unwrap(),
        "a,b"
    );
    let t = SysTime {
        year: 2021,
        month: 3,
        day_of_week: 1,
        day: 9,
        hour: 7,
        minute: 5,
        second: 59,
        milliseconds: 12,
    };
    assert_eq!(
        BinXmlValue::SysTimeType(t).as_string().unwrap(),
        "2021-03-09T07:05:59.012Z"
    );
    // a real value has no text form here
    assert!(BinXmlValue::Real32Type(0x3F800000).as_string().is_err());
}
