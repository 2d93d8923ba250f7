use jay::class_file::{ClassFile, ParserError};

#[test]
fn class_file_can_parse_magic() {
    let buf: &[u8] = &[0xCA, 0xCA, 0xBA, 0xBA];
    assert!(matches!(ClassFile::parse(buf), Err(ParserError::InvalidMagicHeader)));
}

#[test]
fn class_file_can_parse_version() {
    // Major version != 61
    let buf: &[u8] = &[0xCA, 0xFE, 0xBA, 0xBE, 0x00, 0x00, 0x00, 0x3f];
    assert!(matches!(ClassFile::parse(buf), Err(ParserError::UnsupportedVersion)));
}

#[test]
fn unrecognized_tag_is_invalid_constant_tag() {
    // Header, then a pool count of 2 (one entry), then tag 2, which names no kind.
    let buf: &[u8] = &[0xCA, 0xFE, 0xBA, 0xBE, 0x00, 0x00, 0x00, 0x3D, 0x00, 0x02, 0x02];
    assert!(matches!(ClassFile::parse(buf), Err(ParserError::InvalidConstantTag)));
}

#[test]
fn utf8_length_past_end_is_read_failure() {
    // One Utf8 entry declaring 16 bytes with only 2 present.
    let buf: &[u8] = &[
        0xCA, 0xFE, 0xBA, 0xBE, 0x00, 0x00, 0x00, 0x3D, 0x00, 0x02, 0x01, 0x00, 0x10, 0x41, 0x42,
    ];
    assert!(matches!(ClassFile::parse(buf), Err(ParserError::ReadFailure)));
}

#[test]
fn malformed_utf8_is_invalid_encoding() {
    // One Utf8 entry of a single byte 0xFF, which no UTF-8 sequence contains.
    let buf: &[u8] = &[
        0xCA, 0xFE, 0xBA, 0xBE, 0x00, 0x00, 0x00, 0x3D, 0x00, 0x02, 0x01, 0x00, 0x01, 0xFF,
    ];
    assert!(matches!(ClassFile::parse(buf), Err(ParserError::InvalidUtf8Encoding)));
}

#[test]
fn dangling_class_reference_is_invalid_constant_pool() {
    // One Class entry whose wire name index 2 points at a missing entry.
    let buf: &[u8] = &[
        0xCA, 0xFE, 0xBA, 0xBE, 0x00, 0x00, 0x00, 0x3D, 0x00, 0x02, 0x07, 0x00, 0x02,
    ];
    assert!(matches!(ClassFile::parse(buf), Err(ParserError::InvalidConstantPool)));
}

#[test]
fn wire_index_zero_is_invalid_constant_pool() {
    // One Class entry carrying the reserved wire index 0.
    let buf: &[u8] = &[
        0xCA, 0xFE, 0xBA, 0xBE, 0x00, 0x00, 0x00, 0x3D, 0x00, 0x02, 0x07, 0x00, 0x00,
    ];
    assert!(matches!(ClassFile::parse(buf), Err(ParserError::InvalidConstantPool)));
}

#[test]
fn empty_pool_cannot_name_this_class() {
    // A structurally complete buffer with an empty pool: the this-class index
    // cannot resolve to a Class entry, so the pool reference is invalid.
    let buf: &[u8] = &[
        0xCA, 0xFE, 0xBA, 0xBE, // magic
        0x00, 0x00, // minor
        0x00, 0x3D, // major 61
        0x00, 0x00, // constant pool count 0: no entries
        0x00, 0x21, // access flags
        0x00, 0x01, // this class
        0x00, 0x01, // super class
        0x00, 0x00, // interfaces count
        0x00, 0x00, // fields count
    ];
    assert!(matches!(ClassFile::parse(buf), Err(ParserError::InvalidConstantPool)));
}
